//! The room page served to browsers.
//!
//! The page is fixed but for the relay credentials: the process
//! generates a TURN username and password at startup, and the served
//! page carries them in its ICE server configuration so the browser can
//! reach the relay.  The client-side conferencing script itself is an
//! external collaborator; the page here wires it to this server's
//! signaling socket and relay.

use vstd::prelude::*;

verus! {

/// The served room page: the fixed page text with the boot's TURN
/// username and password spliced into the ICE server configuration.
pub fn get_html_page(turn_user: &str, turn_pass: &str) -> (r: String)
    ensures
        r@ == "<!DOCTYPE html>\n<html lang=\"en\">\n<head>\n<meta charset=\"UTF-8\">\n<title>Rust Rooms</title>\n</head>\n<body>\n<h1>Rust Rooms</h1>\n<div id=\"grid\"></div>\n<script>\nconst roomId = window.location.pathname.split('/')[2];\nconst wsProtocol = window.location.protocol === 'https:' ? 'wss:' : 'ws:';\nconst wsUrl = wsProtocol + '//' + window.location.host + '/ws/' + roomId;\nconst rtcConfig = {\n    iceServers: [\n        { urls: 'stun:' + window.location.hostname + ':3478' },\n        {\n            urls: 'turn:' + window.location.hostname + ':3478',\n            username: \""@ + turn_user@
            + "\",\n            credential: \""@ + turn_pass@
            + "\"\n        }\n    ]\n};\nstartClient(roomId, wsUrl, rtcConfig);\n</script>\n</body>\n</html>\n"@,
{
    let mut page = String::from_str(
        "<!DOCTYPE html>\n<html lang=\"en\">\n<head>\n<meta charset=\"UTF-8\">\n<title>Rust Rooms</title>\n</head>\n<body>\n<h1>Rust Rooms</h1>\n<div id=\"grid\"></div>\n<script>\nconst roomId = window.location.pathname.split('/')[2];\nconst wsProtocol = window.location.protocol === 'https:' ? 'wss:' : 'ws:';\nconst wsUrl = wsProtocol + '//' + window.location.host + '/ws/' + roomId;\nconst rtcConfig = {\n    iceServers: [\n        { urls: 'stun:' + window.location.hostname + ':3478' },\n        {\n            urls: 'turn:' + window.location.hostname + ':3478',\n            username: \"",
    );
    page.append(turn_user);
    page.append("\",\n            credential: \"");
    page.append(turn_pass);
    page.append(
        "\"\n        }\n    ]\n};\nstartClient(roomId, wsUrl, rtcConfig);\n</script>\n</body>\n</html>\n",
    );
    page
}

} // verus!
