use std::collections::HashMap;
use vstd::prelude::*;

verus! {

broadcast use vstd::std_specs::hash::group_hash_axioms;

/// The last error recorded for each handle: its error number and message.
/// The handle `-1` holds the last failure to connect.
pub struct ErrorTable {
    entries: HashMap<i64, (i64, String)>,
}

impl View for ErrorTable {
    type V = Map<i64, (i64, Seq<char>)>;

    closed spec fn view(&self) -> Map<i64, (i64, Seq<char>)> {
        self.entries@.map_values(|e: (i64, String)| (e.0, e.1@))
    }
}

/// The error number a lookup reports for `handle`: the recorded one, or 0
/// where nothing is recorded.
pub open spec fn errno_of(table: Map<i64, (i64, Seq<char>)>, handle: i64) -> i64 {
    if table.contains_key(handle) {
        table[handle].0
    } else {
        0
    }
}

/// The message a lookup reports for `handle`: the recorded one, or the empty
/// string where nothing is recorded.
pub open spec fn errmsg_of(table: Map<i64, (i64, Seq<char>)>, handle: i64) -> Seq<char> {
    if table.contains_key(handle) {
        table[handle].1
    } else {
        Seq::empty()
    }
}

impl ErrorTable {
    /// A table with no error recorded.
    pub fn new() -> (t: ErrorTable)
        ensures
            t@ == Map::<i64, (i64, Seq<char>)>::empty(),
    {
        let t = ErrorTable { entries: HashMap::new() };
        assert(t@ =~= Map::<i64, (i64, Seq<char>)>::empty());
        t
    }
}

/// Records `(errno, msg)` as the last error of `handle`, replacing any earlier one.
pub fn store_err(table: &mut ErrorTable, handle: i64, errno: i64, msg: String)
    ensures
        final(table)@ == old(table)@.insert(handle, (errno, msg@)),
{
    let ghost m = msg@;
    table.entries.insert(handle, (errno, msg));
    assert(table@ =~= old(table)@.insert(handle, (errno, m)));
}

/// Forgets the last error of `handle`.
pub fn clear_err(table: &mut ErrorTable, handle: i64)
    ensures
        final(table)@ == old(table)@.remove(handle),
{
    table.entries.remove(&handle);
    assert(table@ =~= old(table)@.remove(handle));
}

/// The error number last recorded for `handle`, or 0 if none is.
pub fn errno_for(table: &ErrorTable, handle: i64) -> (n: i64)
    ensures
        n == errno_of(table@, handle),
{
    match table.entries.get(&handle) {
        Some(e) => e.0,
        None => 0,
    }
}

/// The message last recorded for `handle`, or the empty string if none is.
pub fn errmsg_for(table: &ErrorTable, handle: i64) -> (s: String)
    ensures
        s@ == errmsg_of(table@, handle),
{
    match table.entries.get(&handle) {
        Some(e) => e.1.clone(),
        None => String::new(),
    }
}

/// Reading back a stored error: after `(errno, msg)` is stored for `handle`,
/// lookups of `handle` give exactly that number and message.
pub proof fn lemma_lookup_after_store(
    log: Map<i64, (i64, Seq<char>)>,
    handle: i64,
    errno: i64,
    msg: Seq<char>,
)
    ensures
        errno_of(log.insert(handle, (errno, msg)), handle) == errno,
        errmsg_of(log.insert(handle, (errno, msg)), handle) == msg,
{
}

/// After the error of `handle` is cleared, lookups of it give 0 and the
/// empty message.
pub proof fn lemma_lookup_after_clear(log: Map<i64, (i64, Seq<char>)>, handle: i64)
    ensures
        errno_of(log.remove(handle), handle) == 0,
        errmsg_of(log.remove(handle), handle) == Seq::<char>::empty(),
{
}

/// Storing or clearing the error of one handle leaves every other handle's
/// lookups as they were.
pub proof fn lemma_other_handles_unaffected(
    log: Map<i64, (i64, Seq<char>)>,
    handle: i64,
    other: i64,
    entry: (i64, Seq<char>),
)
    requires
        handle != other,
    ensures
        errno_of(log.insert(handle, entry), other) == errno_of(log, other),
        errmsg_of(log.insert(handle, entry), other) == errmsg_of(log, other),
        errno_of(log.remove(handle), other) == errno_of(log, other),
        errmsg_of(log.remove(handle), other) == errmsg_of(log, other),
{
}

} // verus!
