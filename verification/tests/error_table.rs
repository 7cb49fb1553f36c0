use pkg_tls::{clear_err, errmsg_for, errno_for, next_handle, store_err, ErrorTable, HandleCounter};

#[test]
fn empty_table_reports_no_error() {
    let t = ErrorTable::new();
    assert_eq!(errno_for(&t, 1), 0);
    assert_eq!(errmsg_for(&t, 1), "");
    assert_eq!(errno_for(&t, -1), 0);
}

#[test]
fn stored_error_reads_back() {
    let mut t = ErrorTable::new();
    store_err(&mut t, 7, 3, "connection closed".to_string());
    assert_eq!(errno_for(&t, 7), 3);
    assert_eq!(errmsg_for(&t, 7), "connection closed");
}

#[test]
fn later_store_replaces_earlier() {
    let mut t = ErrorTable::new();
    store_err(&mut t, 7, 3, "connection closed".to_string());
    store_err(&mut t, 7, 4, "io error".to_string());
    assert_eq!(errno_for(&t, 7), 4);
    assert_eq!(errmsg_for(&t, 7), "io error");
}

#[test]
fn cleared_error_reads_as_none() {
    let mut t = ErrorTable::new();
    store_err(&mut t, 7, 3, "connection closed".to_string());
    clear_err(&mut t, 7);
    assert_eq!(errno_for(&t, 7), 0);
    assert_eq!(errmsg_for(&t, 7), "");
    clear_err(&mut t, 7);
    assert_eq!(errno_for(&t, 7), 0);
}

#[test]
fn other_handles_are_unaffected() {
    let mut t = ErrorTable::new();
    store_err(&mut t, 1, 2, "bad certificate".to_string());
    store_err(&mut t, 2, 5, "other".to_string());
    clear_err(&mut t, 2);
    assert_eq!(errno_for(&t, 1), 2);
    assert_eq!(errmsg_for(&t, 1), "bad certificate");
}

#[test]
fn handles_count_up_from_one() {
    let mut c = HandleCounter::new();
    assert_eq!(next_handle(&mut c), 1);
    assert_eq!(next_handle(&mut c), 2);
    assert_eq!(next_handle(&mut c), 3);
}
