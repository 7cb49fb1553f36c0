use pkg_tls::{classify_error, ErrorKind};

fn code(msg: &str, is_cert: bool) -> i64 {
    classify_error(msg.to_string(), is_cert).0
}

#[test]
fn certificate_messages_are_certificate_errors() {
    assert_eq!(code("invalid peer certificate: UnknownIssuer", false), 2);
    assert_eq!(code("peer sent CertificateRequired", false), 2);
}

#[test]
fn certificate_flag_forces_certificate_error() {
    assert_eq!(code("timed out", true), 2);
    assert_eq!(code("", true), 2);
}

#[test]
fn handshake_messages_are_handshake_errors() {
    assert_eq!(code("handshake failure", false), 1);
    assert_eq!(code("AlertReceived(HandshakeFailure)", false), 1);
}

#[test]
fn closed_messages_are_connection_closed() {
    assert_eq!(code("connection closed by peer", false), 3);
    assert_eq!(code("peer sent CloseNotify", false), 3);
    assert_eq!(code("unexpected EOF", false), 3);
}

#[test]
fn io_messages_are_io_errors() {
    assert_eq!(code("io error: broken pipe", false), 4);
    assert_eq!(code("Connection refused (os error 111)", false), 4);
}

#[test]
fn other_messages_are_other_errors() {
    assert_eq!(code("timed out", false), 5);
    assert_eq!(code("", false), 5);
    // matching is case sensitive
    assert_eq!(code("Certificate expired", false), 5);
    assert_eq!(code("Handshake", false), 5);
}

#[test]
fn earlier_categories_win() {
    assert_eq!(code("certificate handshake closed io error", false), 2);
    assert_eq!(code("handshake closed io error", false), 1);
    assert_eq!(code("closed io error", false), 3);
}

#[test]
fn keyword_at_end_and_start_is_found() {
    assert_eq!(code("EOF", false), 3);
    assert_eq!(code("xxclosed", false), 3);
    assert_eq!(code("closedxx", false), 3);
    assert_eq!(code("close", false), 5);
}

#[test]
fn message_is_kept() {
    let (_, msg) = classify_error("peer sent CloseNotify".to_string(), false);
    assert_eq!(msg, "peer sent CloseNotify");
    let (_, msg) = classify_error("ünïcode handshake".to_string(), false);
    assert_eq!(msg, "ünïcode handshake");
}

#[test]
fn non_ascii_messages_are_searched_by_character() {
    assert_eq!(code("ünïcode handshake", false), 1);
    assert_eq!(code("é€EOF", false), 3);
}

#[test]
fn kinds_have_their_numbers() {
    assert_eq!(ErrorKind::HandshakeFailed.errno(), 1);
    assert_eq!(ErrorKind::CertificateInvalid.errno(), 2);
    assert_eq!(ErrorKind::ConnectionClosed.errno(), 3);
    assert_eq!(ErrorKind::IoError.errno(), 4);
    assert_eq!(ErrorKind::Other.errno(), 5);
}
