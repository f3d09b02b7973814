use wifi_password::command::{command_words, decode_output};
use wifi_password::text::{lines, split_on_char, split_on_crlf, trimmed_words};

#[test]
fn decode_utf8_output() {
    let bytes = "héllo\r\n".as_bytes().to_vec();
    assert_eq!(decode_output(&bytes), Some("héllo\r\n".to_string()));
}

#[test]
fn decode_gb18030_fallback() {
    let bytes: Vec<u8> = vec![0xC4, 0xE3, 0xBA, 0xC3];
    assert!(String::from_utf8(bytes.clone()).is_err());
    assert_eq!(decode_output(&bytes), Some("你好".to_string()));
}

#[test]
fn decode_fails_on_both() {
    let bytes: Vec<u8> = vec![0x61, 0xFF];
    assert_eq!(decode_output(&bytes), None);
}

#[test]
fn command_words_split() {
    assert_eq!(
        command_words("  netsh wlan\tshow  profiles \n"),
        Some(vec!["netsh".to_string(), "wlan".to_string(), "show".to_string(), "profiles".to_string()])
    );
    assert_eq!(command_words("\u{3000}whoami"), Some(vec!["whoami".to_string()]));
}

#[test]
fn command_words_empty() {
    assert_eq!(command_words(""), None);
    assert_eq!(command_words(" \t\r\n "), None);
}

#[test]
fn text_splitting() {
    assert_eq!(split_on_char("a\nb\n", '\n'), vec!["a", "b", ""]);
    assert_eq!(split_on_crlf("a\r\nb\rc\n\r\n"), vec!["a", "b\rc\n", ""]);
    assert_eq!(lines("foo\r\nbar\n\nbaz\r"), vec!["foo", "bar", "", "baz\r"]);
    assert!(lines("").is_empty());
    assert_eq!(trimmed_words(" a  b "), vec!["a", "b"]);
}
