use vstd::prelude::*;

verus! {

/// Reads stop with an error once this many bytes have been gathered (1 MiB).
pub const READ_LIMIT: usize = 1048576;

/// What one read of the underlying stream gave: some bytes (none at all at
/// the end of the stream), or a failure with its message.
pub enum ReadEvent {
    Received(Vec<u8>),
    Failed(String),
}

/// How a whole read ended: with the bytes gathered, by reaching the size
/// cap, or with a failure before any byte arrived.
pub enum ReadOutcome {
    Complete(Vec<u8>),
    TooLarge,
    Failed(String),
}

/// After one read: go on reading with the updated collector, or stop.
pub enum ReadStep {
    More(ReadCollector),
    Done(ReadOutcome),
}

/// The bytes gathered so far by a read that is still going on; always fewer
/// than `READ_LIMIT`.
pub struct ReadCollector {
    buf: Vec<u8>,
}

impl View for ReadCollector {
    type V = Seq<u8>;

    closed spec fn view(&self) -> Seq<u8> {
        self.buf@
    }
}

impl ReadCollector {
    #[verifier::type_invariant]
    spec fn within_limit(self) -> bool {
        self.buf@.len() < READ_LIMIT
    }

    /// A collector that has gathered nothing yet.
    pub fn new() -> (c: ReadCollector)
        ensures
            c@ == Seq::<u8>::empty(),
    {
        ReadCollector { buf: Vec::new() }
    }

    /// Takes in the result of one read. An empty chunk ends the read with the
    /// bytes gathered; a chunk that brings the total to `READ_LIMIT` or more
    /// ends it as too large; a failure ends it with the bytes gathered if
    /// there are any, and as a failure otherwise.
    pub fn feed(self, event: ReadEvent) -> (step: ReadStep)
        ensures
            self@.len() < READ_LIMIT,
            match event {
                ReadEvent::Received(chunk) => if chunk@.len() == 0 {
                    step matches ReadStep::Done(ReadOutcome::Complete(b)) && b@ == self@
                } else if self@.len() + chunk@.len() >= READ_LIMIT {
                    step matches ReadStep::Done(ReadOutcome::TooLarge)
                } else {
                    step matches ReadStep::More(next) && next@ == self@ + chunk@
                },
                ReadEvent::Failed(msg) => if self@.len() > 0 {
                    step matches ReadStep::Done(ReadOutcome::Complete(b)) && b@ == self@
                } else {
                    step matches ReadStep::Done(ReadOutcome::Failed(m)) && m@ == msg@
                },
            },
    {
        proof {
            use_type_invariant(&self);
        }
        let ReadCollector { buf } = self;
        match event {
            ReadEvent::Received(chunk) => {
                if chunk.len() == 0 {
                    ReadStep::Done(ReadOutcome::Complete(buf))
                } else if chunk.len() >= READ_LIMIT - buf.len() {
                    ReadStep::Done(ReadOutcome::TooLarge)
                } else {
                    let mut buf = buf;
                    let mut chunk = chunk;
                    buf.append(&mut chunk);
                    ReadStep::More(ReadCollector { buf })
                }
            },
            ReadEvent::Failed(msg) => {
                if buf.len() > 0 {
                    ReadStep::Done(ReadOutcome::Complete(buf))
                } else {
                    ReadStep::Done(ReadOutcome::Failed(msg))
                }
            },
        }
    }
}

} // verus!
