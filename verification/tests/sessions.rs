use pkg_tls::{
    Handshaking,
    errors, errno_for, mozilla_root_store, tls_config, Bridge, ConnectOutcome, ReadOutcome, WriteOutcome, CONNECT_SLOT, MOZILLA_ROOT_COUNT,
};

fn handshaking(b: &mut Bridge) -> Handshaking {
    let pending = b.begin_connect("example.com".to_string()).unwrap();
    b.start_tls(tls_config(), pending).unwrap().1
}

fn establish(b: &mut Bridge) -> i64 {
    let t = handshaking(b);
    b.tls_connect(ConnectOutcome::Established(t))
}

fn fail_tcp(b: &mut Bridge) -> i64 {
    let pending = b.begin_connect("example.com".to_string()).unwrap();
    b.tls_connect(ConnectOutcome::TcpFailed(pending))
}

fn fail_tls(b: &mut Bridge, msg: String) -> i64 {
    let t = handshaking(b);
    b.tls_connect(ConnectOutcome::TlsFailed(t, msg))
}

fn connected() -> (Bridge, i64) {
    let mut b = Bridge::new();
    let h = establish(&mut b);
    (b, h)
}

#[test]
fn fresh_bridge_has_no_errors() {
    let b = Bridge::new();
    assert_eq!(b.tls_errno(CONNECT_SLOT), 0);
    assert_eq!(b.tls_errmsg(CONNECT_SLOT), "");
    assert_eq!(b.tls_errno(1), 0);
}

#[test]
fn established_connections_get_handles_one_two_three() {
    let mut b = Bridge::new();
    assert_eq!(establish(&mut b), 1);
    assert_eq!(establish(&mut b), 2);
    assert_eq!(establish(&mut b), 3);
    assert!(b.require_open(1));
    assert!(b.require_open(2));
    assert!(b.require_open(3));
}

#[test]
fn invalid_hostname_is_error_one() {
    let mut b = Bridge::new();
    assert!(b.begin_connect("not a host!".to_string()).is_none());
    assert_eq!(b.tls_errno(CONNECT_SLOT), 1);
    assert_eq!(b.tls_errmsg(CONNECT_SLOT), "invalid hostname");
    assert!(b.begin_connect(String::new()).is_none());
}

#[test]
fn valid_hostnames_pass() {
    let mut b = Bridge::new();
    assert!(b.begin_connect("example.com".to_string()).is_some());
    assert!(b.begin_connect("127.0.0.1".to_string()).is_some());
    assert!(b.begin_connect("::1".to_string()).is_some());
    assert_eq!(b.tls_errno(CONNECT_SLOT), 0);
}

#[test]
fn tcp_failure_is_error_four() {
    let mut b = Bridge::new();
    assert_eq!(fail_tcp(&mut b), -1);
    assert_eq!(b.tls_errno(CONNECT_SLOT), 4);
    assert_eq!(b.tls_errmsg(CONNECT_SLOT), "TCP connect failed");
}

#[test]
fn handshake_failure_is_classified() {
    let mut b = Bridge::new();
    let msg = "invalid peer certificate: Expired".to_string();
    assert_eq!(fail_tls(&mut b, msg), -1);
    assert_eq!(b.tls_errno(CONNECT_SLOT), 2);
    assert_eq!(b.tls_errmsg(CONNECT_SLOT), "invalid peer certificate: Expired");
    assert!(!b.require_open(CONNECT_SLOT));
}

#[test]
fn failed_connect_hands_out_no_handle() {
    let mut b = Bridge::new();
    fail_tcp(&mut b);
    assert_eq!(establish(&mut b), 1);
}

#[test]
fn connect_clears_a_stale_error_of_the_new_handle() {
    let mut b = Bridge::new();
    assert!(!b.require_open(1));
    assert_eq!(b.tls_errno(1), 5);
    assert_eq!(establish(&mut b), 1);
    assert_eq!(b.tls_errno(1), 0);
}

#[test]
fn unknown_handle_is_error_five() {
    let mut b = Bridge::new();
    assert!(!b.require_open(42));
    assert_eq!(b.tls_errno(42), 5);
    assert_eq!(b.tls_errmsg(42), "invalid TLS handle");
    assert_eq!(errno_for(errors(&b), 42), 5);
}

#[test]
fn completed_read_returns_text_and_clears_error() {
    let (mut b, h) = connected();
    b.require_open(99);
    let s = b.tls_read(h, ReadOutcome::Failed("connection reset".to_string()));
    assert_eq!(s, "");
    assert_eq!(b.tls_errno(h), 5);
    let s = b.tls_read(h, ReadOutcome::Complete(b"HTTP/1.1 200 OK".to_vec()));
    assert_eq!(s, "HTTP/1.1 200 OK");
    assert_eq!(b.tls_errno(h), 0);
    assert_eq!(b.tls_errmsg(h), "");
}

#[test]
fn read_decodes_invalid_utf8_lossily() {
    let (mut b, h) = connected();
    let s = b.tls_read_response(h, ReadOutcome::Complete(vec![0x68, 0x69, 0xc3]));
    assert_eq!(s, "hi\u{FFFD}");
}

#[test]
fn oversized_reads_record_their_message() {
    let (mut b, h) = connected();
    assert_eq!(b.tls_read(h, ReadOutcome::TooLarge), "");
    assert_eq!(b.tls_errno(h), 5);
    assert_eq!(b.tls_errmsg(h), "read truncated at 1 MiB limit");
    assert_eq!(b.tls_read_response(h, ReadOutcome::TooLarge), "");
    assert_eq!(b.tls_errmsg(h), "response truncated at 1 MiB limit");
}

#[test]
fn failed_read_is_classified() {
    let (mut b, h) = connected();
    let s = b.tls_read(h, ReadOutcome::Failed("peer sent CloseNotify".to_string()));
    assert_eq!(s, "");
    assert_eq!(b.tls_errno(h), 3);
    assert_eq!(b.tls_errmsg(h), "peer sent CloseNotify");
}

#[test]
fn write_returns_byte_count() {
    let (mut b, h) = connected();
    assert_eq!(b.tls_write(h, "GET / HTTP/1.1\r\n\r\n", WriteOutcome::Sent), 18);
    assert_eq!(b.tls_write(h, "é", WriteOutcome::Sent), 2);
    assert_eq!(b.tls_errno(h), 0);
}

#[test]
fn failed_write_is_minus_one() {
    let (mut b, h) = connected();
    let r = b.tls_write(h, "data", WriteOutcome::Failed("io error: broken pipe".to_string()));
    assert_eq!(r, -1);
    assert_eq!(b.tls_errno(h), 4);
    assert_eq!(b.tls_errmsg(h), "io error: broken pipe");
}

#[test]
fn closed_handle_is_rejected_afterwards() {
    let (mut b, h) = connected();
    b.tls_read(h, ReadOutcome::TooLarge);
    assert!(b.tls_close(h, None));
    assert_eq!(b.tls_errno(h), 0);
    assert!(!b.require_open(h));
    assert_eq!(b.tls_errno(h), 5);
    assert!(!b.tls_close(h, None));
    assert_eq!(b.tls_errno(h), 0);
}

#[test]
fn closing_one_handle_keeps_the_others() {
    let mut b = Bridge::new();
    let h1 = establish(&mut b);
    let h2 = establish(&mut b);
    b.tls_close(h1, None);
    assert!(b.require_open(h2));
    assert_eq!(establish(&mut b), 3);
}

#[test]
fn mozilla_store_holds_every_root() {
    assert_eq!(MOZILLA_ROOT_COUNT, 120);
    assert_eq!(mozilla_root_store().len(), MOZILLA_ROOT_COUNT);
    assert_eq!(mozilla_root_store().len(), webpki_roots::TLS_SERVER_ROOTS.len());
}

#[test]
fn session_starts_for_an_accepted_name() {
    let mut b = Bridge::new();
    let pending = b.begin_connect("example.com".to_string()).unwrap();
    let (mut conn, t) = b.start_tls(tls_config(), pending).unwrap();
    assert!(conn.is_handshaking());
    assert_eq!(b.tls_errno(CONNECT_SLOT), 0);
    let h = b.tls_connect(ConnectOutcome::Established(t));
    assert!(b.tls_close(h, Some(&mut conn)));
    assert!(conn.wants_write());
}

#[test]
fn failed_session_preparation_is_classified() {
    let mut b = Bridge::new();
    let r = b.finish_tls(Err("invalid peer certificate: BadSignature".to_string()));
    assert!(r.is_none());
    assert_eq!(b.tls_errno(CONNECT_SLOT), 2);
    assert_eq!(b.tls_errmsg(CONNECT_SLOT), "invalid peer certificate: BadSignature");
}

#[test]
fn prepared_session_is_handed_back() {
    let mut b = Bridge::new();
    let name = rustls::pki_types::ServerName::try_from("example.com".to_string()).unwrap();
    let conn = rustls::ClientConnection::new(tls_config(), name).unwrap();
    let r = b.finish_tls(Ok(conn));
    assert!(r.is_some_and(|c| c.is_handshaking()));
    assert_eq!(b.tls_errno(CONNECT_SLOT), 0);
}

#[test]
fn reads_and_writes_on_unknown_handles_are_refused() {
    let mut b = Bridge::new();
    assert_eq!(b.tls_read(0, ReadOutcome::Complete(b"x".to_vec())), "");
    assert_eq!(b.tls_errno(0), 5);
    assert_eq!(b.tls_errmsg(0), "invalid TLS handle");
    assert_eq!(b.tls_read_response(7, ReadOutcome::Complete(b"x".to_vec())), "");
    assert_eq!(b.tls_errno(7), 5);
    assert_eq!(b.tls_write(0, "abc", WriteOutcome::Sent), -1);
    assert_eq!(b.tls_errno(0), 5);
}

#[test]
fn closed_handle_cannot_be_written() {
    let (mut b, h) = connected();
    b.tls_close(h, None);
    assert_eq!(b.tls_write(h, "data", WriteOutcome::Sent), -1);
    assert_eq!(b.tls_errmsg(h), "invalid TLS handle");
    assert_eq!(b.tls_read(h, ReadOutcome::Complete(b"late".to_vec())), "");
}

#[test]
fn config_speaks_tls12_and_tls13_without_client_certificate() {
    let c = tls_config();
    let shown = format!("{:?}", c);
    assert!(shown.contains("TLSv1_2"));
    assert!(shown.contains("TLSv1_3"));
    assert!(!shown.contains("TLSv1_1"));
    assert!(!shown.contains("TLSv1_0"));
    assert!(!c.client_auth_cert_resolver.has_certs());
}

#[test]
fn root_store_holds_the_given_anchors_in_order() {
    let roots = webpki_roots::TLS_SERVER_ROOTS;
    let store = pkg_tls::root_store_of(&roots[3..6]);
    assert_eq!(store.roots.len(), 3);
    for (i, a) in store.roots.iter().enumerate() {
        assert_eq!(a.subject.as_ref(), roots[3 + i].subject.as_ref());
    }
    let all = mozilla_root_store();
    for (a, b) in all.roots.iter().zip(roots.iter()) {
        assert_eq!(a.subject.as_ref(), b.subject.as_ref());
    }
}
