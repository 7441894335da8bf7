use ample::uri::{is_unreserved_char, percent_encode};

#[test]
fn percent_encoding() {
    assert_eq!(
        percent_encode("!#$&\'()*+,/:;=?@[]"),
        "%21%23%24%26%27%28%29%2a%2b%2c%2f%3a%3b%3d%3f%40%5b%5d"
    );
    assert_eq!(percent_encode("hello world"), "hello%20world");
    assert_eq!(percent_encode("ABC123"), "ABC123");
    assert_eq!(
        percent_encode("King Gizzard and the Lizard Wizard"),
        "King%20Gizzard%20and%20the%20Lizard%20Wizard"
    );
    assert_eq!(percent_encode("\u{20ac}"), "%e2%82%ac");
    // The same bytes read as three separate characters encode byte by byte.
    assert_eq!(percent_encode("\u{e2}\u{201a}\u{ac}"), "%c3%a2%e2%80%9a%c2%ac")
}

#[test]
fn unreserved_marks_pass_through() {
    assert_eq!(percent_encode("a-b_c~d.e"), "a-b_c~d.e");
    assert_eq!(percent_encode(""), "");
}

#[test]
fn encoding_unreserved_text_is_idempotent() {
    let once = percent_encode("Song_Title-2.0~live");
    assert_eq!(once, "Song_Title-2.0~live");
    assert_eq!(percent_encode(&once), once);
}

#[test]
fn percent_sign_and_control_bytes_are_encoded() {
    assert_eq!(percent_encode("100%"), "100%25");
    assert_eq!(percent_encode("\u{0}\n"), "%00%0a");
    assert_eq!(percent_encode("caf\u{e9}"), "caf%c3%a9");
    assert_eq!(percent_encode("\u{1f600}"), "%f0%9f%98%80");
}

#[test]
fn unreserved_character_classes() {
    for c in ['a', 'z', 'A', 'Z', '0', '9', '-', '_', '~', '.'] {
        assert!(is_unreserved_char(c));
    }
    for c in [' ', '%', '/', '\u{e9}', '@', '`', '{'] {
        assert!(!is_unreserved_char(c));
    }
}
