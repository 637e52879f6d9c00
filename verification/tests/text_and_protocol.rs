use chat_client::protocol::{classify_notice, is_only_zeros, signal_line, strip_signal_line, Notice, Signal};
use chat_client::text::{chars_of, contains, decimal_string, truncate_bytes};

#[test]
fn contains_finds_inner_text() {
    assert!(contains("xxabcx", "abc"));
    assert!(contains("abc", "abc"));
    assert!(!contains("abx", "abc"));
    assert!(!contains("ab", "abc"));
}

#[test]
fn contains_empty_needle() {
    assert!(contains("", ""));
    assert!(contains("anything", ""));
    assert!(!contains("", "a"));
}

#[test]
fn contains_multibyte() {
    assert!(contains("päivää", "ivä"));
    assert!(!contains("päivää", "iva"));
}

#[test]
fn chars_of_keeps_order() {
    assert_eq!(chars_of("aä b"), vec!['a', 'ä', ' ', 'b']);
}

#[test]
fn decimal_strings() {
    assert_eq!(decimal_string(0), "0");
    assert_eq!(decimal_string(7), "7");
    assert_eq!(decimal_string(10), "10");
    assert_eq!(decimal_string(255), "255");
    assert_eq!(decimal_string(1000), "1000");
}

#[test]
fn truncate_short_text_unchanged() {
    let s = String::from("short");
    assert_eq!(truncate_bytes(&s, 16), "short");
    let exact = String::from("abcdefghijklmnop");
    assert_eq!(truncate_bytes(&exact, 16), "abcdefghijklmnop");
}

#[test]
fn truncate_long_text() {
    let s = String::from("abcdefghijklmnopqrstu");
    assert_eq!(truncate_bytes(&s, 16), "abcdefghijklmnop");
}

#[test]
fn truncate_multibyte_on_boundary() {
    let s = String::from("ääääääääää");
    assert_eq!(s.len(), 20);
    assert_eq!(truncate_bytes(&s, 16), "ääääääää");
}

#[test]
fn signal_words() {
    assert_eq!(Signal::UpdateUsers.text(), "UPDATEUSERS");
    assert_eq!(Signal::UpdateChat.text(), "UPDATECHAT");
    assert_eq!(Signal::Disconnect.text(), "DISCONNECT");
    assert_eq!(Signal::ChatMsg.text(), "CHATMSG");
    assert_eq!(Signal::IntChat.text(), "INTCHAT");
    assert_eq!(Signal::Connect.text(), "CONNECT");
    assert_eq!(Signal::AddChannel.text(), "ADDCHANNEL");
}

#[test]
fn signal_line_ends_with_newline() {
    assert_eq!(signal_line("CONNECT"), "CONNECT\n");
    assert_eq!(signal_line(""), "\n");
}

#[test]
fn strip_signal_line_removes_last_char() {
    assert_eq!(strip_signal_line("UPDATECHAT\n"), "UPDATECHAT");
    assert_eq!(strip_signal_line(""), "");
    assert_eq!(strip_signal_line("x"), "");
    assert_eq!(strip_signal_line("ää"), "ä");
}

#[test]
fn signal_round_trip_concrete() {
    for s in ["DISCONNECT", "", "abc 123", "ä"] {
        assert_eq!(strip_signal_line(&signal_line(s)), s);
    }
}

#[test]
fn classify_pushed_signals() {
    assert_eq!(classify_notice("UPDATEUSERS"), Notice::UpdateUsers);
    assert_eq!(classify_notice("xxUPDATECHATyy"), Notice::UpdateChat);
    assert_eq!(classify_notice("UPDATECHAT UPDATEUSERS"), Notice::UpdateUsers);
    assert_eq!(classify_notice("hello"), Notice::Ignored);
    assert_eq!(classify_notice(""), Notice::Ignored);
}

#[test]
fn zero_buffers() {
    assert!(is_only_zeros(&[]));
    assert!(is_only_zeros(&[0u8; 255]));
    let mut buf = [0u8; 255];
    buf[200] = 3;
    assert!(!is_only_zeros(&buf));
}
