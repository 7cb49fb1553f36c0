use pkg_tls::{ReadOutcome, ResponseCollector, ResponseEvent, ResponseStep, READ_LIMIT};

/// Feeds `stream` byte by byte, then the end of the stream; returns the
/// outcome and how many bytes were consumed.
fn read_one(stream: &[u8]) -> (ReadOutcome, usize) {
    let mut c = ResponseCollector::new();
    for (i, b) in stream.iter().enumerate() {
        match c.feed(ResponseEvent::Byte(*b)) {
            ResponseStep::More(next) => c = next,
            ResponseStep::Done(o) => return (o, i + 1),
        }
    }
    match c.feed(ResponseEvent::End) {
        ResponseStep::Done(o) => (o, stream.len()),
        ResponseStep::More(_) => panic!("end of stream must end the read"),
    }
}

fn bytes_of(o: ReadOutcome) -> Vec<u8> {
    match o {
        ReadOutcome::Complete(b) => b,
        _ => panic!("expected a complete response"),
    }
}

#[test]
fn content_length_response_ends_at_its_body() {
    let r = b"HTTP/1.1 200 OK\r\nContent-Length: 5\r\n\r\nhello";
    let mut stream = r.to_vec();
    stream.extend_from_slice(b"HTTP/1.1 200 OK\r\nContent-Length: 3\r\n\r\nbye");
    let (o, used) = read_one(&stream);
    assert_eq!(bytes_of(o), r.to_vec());
    assert_eq!(used, r.len());
}

#[test]
fn header_names_match_in_any_case() {
    let r = b"HTTP/1.1 200 OK\r\nCONTENT-length:   2\r\n\r\nhi";
    let mut stream = r.to_vec();
    stream.extend_from_slice(b"extra");
    assert_eq!(bytes_of(read_one(&stream).0), r.to_vec());
}

#[test]
fn zero_length_body_ends_at_the_head() {
    let r = b"HTTP/1.1 200 OK\r\nContent-Length: 0\r\n\r\n";
    let mut stream = r.to_vec();
    stream.extend_from_slice(b"HTTP/1.1 404 Not Found\r\n\r\n");
    assert_eq!(bytes_of(read_one(&stream).0), r.to_vec());
}

#[test]
fn no_content_and_not_modified_have_no_body() {
    for r in [&b"HTTP/1.1 204 No Content\r\nContent-Length: 10\r\n\r\n"[..], &b"HTTP/1.1 304 Not Modified\r\n\r\n"[..]] {
        let mut stream = r.to_vec();
        stream.extend_from_slice(b"more");
        assert_eq!(bytes_of(read_one(&stream).0), r.to_vec());
    }
}

#[test]
fn chunked_response_ends_after_last_chunk() {
    let r = b"HTTP/1.1 200 OK\r\nTransfer-Encoding: chunked\r\n\r\n5;x=y\r\nhello\r\nA\r\n0123456789\r\n0\r\n\r\n";
    let mut stream = r.to_vec();
    stream.extend_from_slice(b"HTTP/1.1 200 OK\r\n\r\n");
    assert_eq!(bytes_of(read_one(&stream).0), r.to_vec());
}

#[test]
fn chunked_response_with_trailers() {
    let r = b"HTTP/1.1 200 OK\r\ntransfer-encoding: gzip, Chunked\r\n\r\n3\r\nabc\r\n0\r\nX-Sum: 1\r\n\r\n";
    let mut stream = r.to_vec();
    stream.extend_from_slice(b"tail");
    assert_eq!(bytes_of(read_one(&stream).0), r.to_vec());
}

#[test]
fn interim_response_is_skipped() {
    let r = b"HTTP/1.1 100 Continue\r\n\r\nHTTP/1.1 200 OK\r\nContent-Length: 2\r\n\r\nok";
    let mut stream = r.to_vec();
    stream.extend_from_slice(b"zz");
    assert_eq!(bytes_of(read_one(&stream).0), r.to_vec());
}

#[test]
fn body_without_length_runs_to_the_close() {
    let stream = b"HTTP/1.1 200 OK\r\nConnection: close\r\n\r\neverything until close";
    let (o, used) = read_one(stream);
    assert_eq!(bytes_of(o), stream.to_vec());
    assert_eq!(used, stream.len());
}

#[test]
fn other_transfer_encoding_runs_to_the_close() {
    let stream = b"HTTP/1.1 200 OK\r\nTransfer-Encoding: gzip\r\nContent-Length: 1\r\n\r\nabc";
    assert_eq!(bytes_of(read_one(stream).0), stream.to_vec());
}

#[test]
fn invalid_content_length_runs_to_the_close() {
    let stream = b"HTTP/1.1 200 OK\r\nContent-Length: 1x\r\n\r\nabc";
    assert_eq!(bytes_of(read_one(stream).0), stream.to_vec());
}

#[test]
fn truncated_response_gives_what_arrived() {
    let stream = b"HTTP/1.1 200 OK\r\nContent-Length: 50\r\n\r\nshort";
    assert_eq!(bytes_of(read_one(stream).0), stream.to_vec());
}

#[test]
fn response_failure_before_any_byte_is_a_failure() {
    match ResponseCollector::new().feed(ResponseEvent::Failed("connection reset".to_string())) {
        ResponseStep::Done(ReadOutcome::Failed(m)) => assert_eq!(m, "connection reset"),
        _ => panic!("expected a failure"),
    }
}

#[test]
fn response_failure_after_bytes_keeps_them() {
    let mut c = ResponseCollector::new();
    for b in b"HTTP/1.1 2" {
        c = match c.feed(ResponseEvent::Byte(*b)) {
            ResponseStep::More(n) => n,
            ResponseStep::Done(_) => panic!("ended early"),
        };
    }
    match c.feed(ResponseEvent::Failed("unexpected EOF".to_string())) {
        ResponseStep::Done(ReadOutcome::Complete(b)) => assert_eq!(b, b"HTTP/1.1 2".to_vec()),
        _ => panic!("expected the bytes"),
    }
}

#[test]
fn oversized_response_hits_the_cap() {
    let mut stream = b"HTTP/1.1 200 OK\r\n\r\n".to_vec();
    stream.extend(std::iter::repeat(b'a').take(READ_LIMIT));
    match read_one(&stream) {
        (ReadOutcome::TooLarge, used) => assert_eq!(used, READ_LIMIT),
        _ => panic!("expected the cap"),
    }
}
