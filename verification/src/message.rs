//! Signaling messages: the typed envelopes the router classifies,
//! stamps with their authenticated sender, and relays.

use vstd::prelude::*;

verus! {

/// The kind of a signaling message.  `Other` stands for any wire label
/// the protocol does not recognize; such messages are never relayed.
#[derive(Clone, Copy, Debug, PartialEq, Eq, Structural)]
pub enum MsgKind {
    Join,
    Identify,
    UserJoined,
    UserLeft,
    UserUpdate,
    CamToggle,
    ScreenToggle,
    Signal,
    Other,
}

/// One signaling message.  `target` names the addressee of a targeted
/// message, `source` the sender, and `data` carries the opaque payload
/// (serialized client state or negotiation data) that the router passes
/// through without inspecting it.
pub struct WireMessage {
    pub kind: MsgKind,
    pub target: Option<String>,
    pub source: Option<String>,
    pub data: Option<String>,
}

/// The mathematical value of an `Option<String>`: the character
/// sequence it holds, if any.
pub open spec fn opt_chars(o: Option<String>) -> Option<Seq<char>> {
    match o {
        Option::Some(s) => Option::Some(s@),
        Option::None => Option::None,
    }
}

/// The mathematical value of a message.
pub struct MsgView {
    pub kind: MsgKind,
    pub target: Option<Seq<char>>,
    pub source: Option<Seq<char>>,
    pub data: Option<Seq<char>>,
}

impl View for WireMessage {
    type V = MsgView;

    open spec fn view(&self) -> MsgView {
        MsgView {
            kind: self.kind,
            target: opt_chars(self.target),
            source: opt_chars(self.source),
            data: opt_chars(self.data),
        }
    }
}

/// Copies an optional string.
fn clone_opt(o: &Option<String>) -> (r: Option<String>)
    ensures
        r == *o,
{
    match o {
        Option::Some(s) => Option::Some(s.clone()),
        Option::None => Option::None,
    }
}

impl WireMessage {
    /// An exact copy; fan-out hands one to every recipient.
    pub fn dup(&self) -> (r: WireMessage)
        ensures
            r == *self,
    {
        WireMessage {
            kind: self.kind,
            target: clone_opt(&self.target),
            source: clone_opt(&self.source),
            data: clone_opt(&self.data),
        }
    }
}

/// The message kind a client wire label stands for.  Labels a client may
/// not send (among them the server-emitted presence events) fall to
/// `Other`.
pub open spec fn spec_parse_kind(s: Seq<char>) -> MsgKind {
    if s == "join"@ {
        MsgKind::Join
    } else if s == "update-user"@ {
        MsgKind::UserUpdate
    } else if s == "cam-toggle"@ {
        MsgKind::CamToggle
    } else if s == "screen-toggle"@ {
        MsgKind::ScreenToggle
    } else if s == "signal"@ {
        MsgKind::Signal
    } else if s == "identify"@ {
        MsgKind::Identify
    } else {
        MsgKind::Other
    }
}

/// The wire label of each message kind as the server emits it;
/// unrecognized kinds have none.
pub open spec fn spec_kind_label(k: MsgKind) -> Seq<char> {
    match k {
        MsgKind::Join => "join"@,
        MsgKind::Identify => "identify"@,
        MsgKind::UserJoined => "user-joined"@,
        MsgKind::UserLeft => "user-left"@,
        MsgKind::UserUpdate => "user-update"@,
        MsgKind::CamToggle => "cam-toggle"@,
        MsgKind::ScreenToggle => "screen-toggle"@,
        MsgKind::Signal => "signal"@,
        MsgKind::Other => ""@,
    }
}

/// Classifies a client wire label.
pub fn parse_kind(s: &String) -> (k: MsgKind)
    ensures
        k == spec_parse_kind(s@),
{
    if *s == String::from_str("join") {
        MsgKind::Join
    } else if *s == String::from_str("update-user") {
        MsgKind::UserUpdate
    } else if *s == String::from_str("cam-toggle") {
        MsgKind::CamToggle
    } else if *s == String::from_str("screen-toggle") {
        MsgKind::ScreenToggle
    } else if *s == String::from_str("signal") {
        MsgKind::Signal
    } else if *s == String::from_str("identify") {
        MsgKind::Identify
    } else {
        MsgKind::Other
    }
}

/// The wire label under which a message of this kind is sent.
pub fn kind_label(k: MsgKind) -> (s: &'static str)
    ensures
        s@ == spec_kind_label(k),
{
    match k {
        MsgKind::Join => "join",
        MsgKind::Identify => "identify",
        MsgKind::UserJoined => "user-joined",
        MsgKind::UserLeft => "user-left",
        MsgKind::UserUpdate => "user-update",
        MsgKind::CamToggle => "cam-toggle",
        MsgKind::ScreenToggle => "screen-toggle",
        MsgKind::Signal => "signal",
        MsgKind::Other => "",
    }
}

} // verus!
