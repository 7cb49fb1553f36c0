use pkg_tls::{ReadCollector, ReadEvent, ReadOutcome, ReadStep, READ_LIMIT};

fn more(step: ReadStep) -> ReadCollector {
    match step {
        ReadStep::More(c) => c,
        ReadStep::Done(_) => panic!("read ended early"),
    }
}

fn done(step: ReadStep) -> ReadOutcome {
    match step {
        ReadStep::More(_) => panic!("read did not end"),
        ReadStep::Done(o) => o,
    }
}

#[test]
fn chunks_are_gathered_until_end_of_stream() {
    let c = ReadCollector::new();
    let c = more(c.feed(ReadEvent::Received(b"hel".to_vec())));
    let c = more(c.feed(ReadEvent::Received(b"lo".to_vec())));
    match done(c.feed(ReadEvent::Received(Vec::new()))) {
        ReadOutcome::Complete(b) => assert_eq!(b, b"hello".to_vec()),
        _ => panic!("expected the bytes"),
    }
}

#[test]
fn end_of_stream_at_once_gives_nothing() {
    match done(ReadCollector::new().feed(ReadEvent::Received(Vec::new()))) {
        ReadOutcome::Complete(b) => assert!(b.is_empty()),
        _ => panic!("expected empty bytes"),
    }
}

#[test]
fn failure_before_any_byte_is_a_failure() {
    match done(ReadCollector::new().feed(ReadEvent::Failed("connection reset".to_string()))) {
        ReadOutcome::Failed(m) => assert_eq!(m, "connection reset"),
        _ => panic!("expected a failure"),
    }
}

#[test]
fn failure_after_bytes_keeps_the_bytes() {
    let c = more(ReadCollector::new().feed(ReadEvent::Received(b"HTTP/1.1 200".to_vec())));
    match done(c.feed(ReadEvent::Failed("unexpected EOF".to_string()))) {
        ReadOutcome::Complete(b) => assert_eq!(b, b"HTTP/1.1 200".to_vec()),
        _ => panic!("expected the bytes"),
    }
}

#[test]
fn reaching_the_cap_is_too_large() {
    assert_eq!(READ_LIMIT, 1_048_576);
    let c = more(ReadCollector::new().feed(ReadEvent::Received(vec![b'a'; READ_LIMIT - 1])));
    match done(c.feed(ReadEvent::Received(vec![b'b']))) {
        ReadOutcome::TooLarge => {}
        _ => panic!("expected the cap"),
    }
}

#[test]
fn one_byte_under_the_cap_completes() {
    let c = more(ReadCollector::new().feed(ReadEvent::Received(vec![b'a'; READ_LIMIT - 1])));
    match done(c.feed(ReadEvent::Received(Vec::new()))) {
        ReadOutcome::Complete(b) => assert_eq!(b.len(), READ_LIMIT - 1),
        _ => panic!("expected the bytes"),
    }
}

#[test]
fn single_oversized_chunk_is_too_large() {
    match done(ReadCollector::new().feed(ReadEvent::Received(vec![0u8; READ_LIMIT + 10]))) {
        ReadOutcome::TooLarge => {}
        _ => panic!("expected the cap"),
    }
}

#[test]
fn byte_by_byte_reads_gather_the_same() {
    let mut c = ReadCollector::new();
    for b in b"GET" {
        c = more(c.feed(ReadEvent::Received(vec![*b])));
    }
    match done(c.feed(ReadEvent::Received(Vec::new()))) {
        ReadOutcome::Complete(b) => assert_eq!(b, b"GET".to_vec()),
        _ => panic!("expected the bytes"),
    }
}
