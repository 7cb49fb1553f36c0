use vstd::prelude::*;

verus! {

/// The source of connection handles: it hands out 1, 2, 3, ... in turn.
pub struct HandleCounter {
    next: i64,
}

/// The counter value that follows `n`: one more, wrapping from the largest
/// `i64` to the smallest as a 64-bit atomic add does.
pub open spec fn successor(n: i64) -> i64 {
    if n == i64::MAX {
        i64::MIN
    } else {
        (n + 1) as i64
    }
}

impl View for HandleCounter {
    type V = i64;

    /// The handle the next call of `next_handle` returns.
    closed spec fn view(&self) -> i64 {
        self.next
    }
}

impl HandleCounter {
    /// A counter whose first handle is 1.
    pub fn new() -> (c: HandleCounter)
        ensures
            c@ == 1,
    {
        HandleCounter { next: 1 }
    }
}

/// Takes the next handle and advances the counter.
pub fn next_handle(counter: &mut HandleCounter) -> (h: i64)
    ensures
        h == old(counter)@,
        final(counter)@ == successor(old(counter)@),
{
    let h = counter.next;
    counter.next = if h == i64::MAX {
        i64::MIN
    } else {
        h + 1
    };
    h
}

} // verus!
