use ffxiv_login::machine::{make_computer_id, user_agent};

#[test]
fn computer_id_known_values() {
    assert_eq!(make_computer_id("host", Some("alice".to_string()), "windows", "x86_64", 8), "50f8c8d41c");
    assert_eq!(make_computer_id("pc", None, "linux", "aarch64", 16), "60c9ca20ed");
    assert_eq!(make_computer_id("h\u{1F600}", Some("\u{e9}".to_string()), "macos", "arm", 1), "d208dfd96e");
}

#[test]
fn computer_id_check_byte_sums_to_zero() {
    let id = make_computer_id("a", None, "b", "c", 2);
    assert_eq!(id.len(), 10);
    let bytes: Vec<u8> = (0..5).map(|i| u8::from_str_radix(&id[2 * i..2 * i + 2], 16).unwrap()).collect();
    let sum = bytes.iter().fold(0u8, |a, b| a.wrapping_add(*b));
    assert_eq!(sum, 0);
}

#[test]
fn user_agent_wraps_id() {
    assert_eq!(user_agent("0011223344"), "SQEXAuthor/2.0.0(Windows 6.2; ja-jp; 0011223344)");
}
