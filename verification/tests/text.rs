use usbip_core::text::{push_padded_digits, push_right_aligned, split_lines, split_whitespace};
use usbip_core::util::{parse_token, Tokens};

#[test]
fn words_of_a_line() {
    let w = split_whitespace("  hs  0001 004\t000 ");
    assert_eq!(w, vec!["hs", "0001", "004", "000"]);
    assert!(split_whitespace("   ").is_empty());
}

#[test]
fn lines_of_a_text() {
    assert_eq!(split_lines("a\r\nb\n\nc"), vec!["a", "b", "", "c"]);
    assert_eq!(split_lines("a\n"), vec!["a"]);
    assert!(split_lines("").is_empty());
}

#[test]
fn padded_numbers() {
    let mut s = String::new();
    push_padded_digits(&mut s, 7, 10, 3);
    push_padded_digits(&mut s, 1234, 10, 2);
    push_padded_digits(&mut s, 0x4d2, 16, 4);
    assert_eq!(s, "0071234" .to_string() + "04d2");
    let mut r = String::new();
    push_right_aligned(&mut r, "1-1", 6);
    assert_eq!(r, "   1-1");
}

#[test]
fn tokens_one_after_another() {
    let mut t = Tokens::new(" a  bc ");
    assert_eq!(parse_token(&mut t), "a");
    assert_eq!(parse_token(&mut t), "bc");
}
