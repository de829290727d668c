use rust_rooms::page::get_html_page;

#[test]
fn page_carries_the_turn_credentials() {
    let page = get_html_page("user-abc", "pass-xyz");
    assert!(page.starts_with("<!DOCTYPE html>"));
    assert!(page.contains("username: \"user-abc\""));
    assert!(page.contains("credential: \"pass-xyz\""));
    assert!(page.contains("stun:"));
    assert!(page.contains("turn:"));
    assert!(page.ends_with("</html>\n"));
}

#[test]
fn page_substitutes_whatever_credentials_it_is_given() {
    let p1 = get_html_page("u1", "p1");
    let p2 = get_html_page("u2", "p2");
    assert_ne!(p1, p2);
    assert!(p2.contains("username: \"u2\""));
    assert!(p2.contains("credential: \"p2\""));
}
