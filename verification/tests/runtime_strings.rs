use pkg_tls::{read_str, MvlString};

fn mvl(bytes: Option<&[u8]>, len: u64) -> MvlString {
    MvlString { ptr: bytes.map(|b| b.to_vec()), len, cap: len, refcount: 1 }
}

#[test]
fn missing_string_reads_empty() {
    assert_eq!(read_str(None), "");
}

#[test]
fn zero_length_reads_empty() {
    assert_eq!(read_str(Some(&mvl(Some(b"abc"), 0))), "");
}

#[test]
fn null_pointer_reads_empty() {
    assert_eq!(read_str(Some(&mvl(None, 5))), "");
}

#[test]
fn only_the_first_len_bytes_are_read() {
    assert_eq!(read_str(Some(&mvl(Some(b"hello world"), 5))), "hello");
    assert_eq!(read_str(Some(&mvl(Some(b"hello"), 5))), "hello");
}

#[test]
fn invalid_utf8_is_replaced() {
    assert_eq!(read_str(Some(&mvl(Some(&[0x61, 0xff, 0x62]), 3))), "a\u{FFFD}b");
    assert_eq!(read_str(Some(&mvl(Some("é".as_bytes()), 2))), "é");
    // a character cut in half by the length
    assert_eq!(read_str(Some(&mvl(Some("é".as_bytes()), 1))), "\u{FFFD}");
}
