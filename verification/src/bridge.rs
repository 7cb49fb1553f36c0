use crate::classify::{classify_error, error_kind, lemma_error_kind_code_range};
use crate::errors::{clear_err, errmsg_for, errmsg_of, errno_for, errno_of, store_err, ErrorTable};
use crate::handles::{next_handle, successor, HandleCounter};
use crate::reader::{ReadOutcome, READ_LIMIT};
use crate::text::{decode_lossy, lossy_utf8};
use vstd::utf8::{decode_utf8, encode_utf8, valid_utf8};
use crate::tls::{
    accepted_server_name, closing_alert_sent, config_anchors, config_versions, new_client_connection,
    queue_close_notify, server_name_from, server_name_of, session_anchors, session_server,
    session_versions,
};
use rustls::pki_types::ServerName;
use rustls::{ClientConfig, ClientConnection};
use std::collections::HashSet;
use std::sync::Arc;
use vstd::prelude::*;

verus! {

broadcast use vstd::std_specs::hash::group_hash_axioms;

/// The handle under which failures to connect are recorded.
pub const CONNECT_SLOT: i64 = -1;

/// The error number recorded for an unusable handle and for an oversized read.
pub const ERRNO_OTHER: i64 = 5;

/// A connection attempt whose host name was accepted; only `begin_connect`
/// makes one.
pub struct PendingConnect {
    name: ServerName<'static>,
    host: Ghost<Seq<char>>,
}

impl PendingConnect {
    /// The host text the attempt is for.
    pub closed spec fn host(&self) -> Seq<char> {
        self.host@
    }

    /// The server name built from the host text.
    pub closed spec fn server(&self) -> ServerName<'static> {
        self.name
    }
}

/// A connection attempt whose TLS session is prepared; only `start_tls`
/// makes one.
pub struct Handshaking {
    host: Ghost<Seq<char>>,
}

impl Handshaking {
    /// The host text the attempt is for.
    pub closed spec fn host(&self) -> Seq<char> {
        self.host@
    }
}

/// How a connection attempt ended. Each outcome carries the token of the
/// step the attempt had reached, so the steps can only come in their order:
/// the host name is checked, then the TCP connection made, then the session
/// prepared, then the handshake run.
pub enum ConnectOutcome {
    /// The TCP connection could not be made.
    TcpFailed(PendingConnect),
    /// The handshake failed; the message says why.
    TlsFailed(Handshaking, String),
    /// The handshake completed.
    Established(Handshaking),
}

/// How a write went.
pub enum WriteOutcome {
    /// Everything was written and flushed.
    Sent,
    /// Writing or flushing failed; the message says why.
    Failed(String),
}

/// Which read an outcome belongs to; they differ in the message recorded
/// when the size cap is reached.
#[derive(Clone, Copy, Debug, PartialEq, Eq, Structural)]
pub enum ReadMode {
    /// A read of everything until the peer closes.
    Stream,
    /// A read of an HTTP response until the peer closes.
    Response,
}

impl ReadMode {
    /// The message recorded when a read of this kind reaches the size cap.
    pub open spec fn limit_message(self) -> Seq<char> {
        match self {
            ReadMode::Stream => "read truncated at 1 MiB limit"@,
            ReadMode::Response => "response truncated at 1 MiB limit"@,
        }
    }

    fn limit_text(&self) -> (s: String)
        ensures
            s@ == self.limit_message(),
    {
        match self {
            ReadMode::Stream => "read truncated at 1 MiB limit".to_owned(),
            ReadMode::Response => "response truncated at 1 MiB limit".to_owned(),
        }
    }
}

/// What ending a read on `handle` returns and leaves as the error log. A
/// handle that is not open is refused with error 5 "invalid TLS handle". On
/// an open handle the gathered bytes come back decoded (invalid UTF-8
/// replaced) and the handle's error is cleared; a read that reached the cap
/// records error 5 with the mode's message, and a read that failed before any
/// byte records its classified error; both of these return the empty string.
pub open spec fn read_ending(
    open: Set<i64>,
    log: Map<i64, (i64, Seq<char>)>,
    handle: i64,
    mode: ReadMode,
    outcome: ReadOutcome,
) -> (Seq<char>, Map<i64, (i64, Seq<char>)>) {
    if !open.contains(handle) {
        (Seq::empty(), log.insert(handle, (ERRNO_OTHER, "invalid TLS handle"@)))
    } else {
        match outcome {
            ReadOutcome::Complete(bytes) => (lossy_utf8(bytes@), log.remove(handle)),
            ReadOutcome::TooLarge => (
                Seq::empty(),
                log.insert(handle, (ERRNO_OTHER, mode.limit_message())),
            ),
            ReadOutcome::Failed(msg) => (
                Seq::empty(),
                log.insert(handle, (error_kind(msg@, false).code(), msg@)),
            ),
        }
    }
}

/// The state a bridge keeps across calls: the handle counter, the handles of
/// the connections that are open, and the last error of each handle.
pub struct Bridge {
    counter: HandleCounter,
    open: HashSet<i64>,
    errors: ErrorTable,
    issued: Ghost<Set<i64>>,
    closed: Ghost<Set<i64>>,
    hosts: Ghost<Map<i64, Seq<char>>>,
}

/// The error numbers that can be recorded: the five categories.
pub open spec fn known_errno(n: i64) -> bool {
    1 <= n <= 5
}

/// Every handle in `open` lies in `1..next`.
pub open spec fn handles_issued(open: Set<i64>, next: i64) -> bool {
    forall|h: i64| #[trigger] open.contains(h) ==> 1 <= h < next
}

/// Every error number in `log` is one of the categories.
pub open spec fn codes_known(log: Map<i64, (i64, Seq<char>)>) -> bool {
    forall|h: i64| #[trigger] log.contains_key(h) ==> known_errno(log[h].0)
}

proof fn lemma_codes_insert(log: Map<i64, (i64, Seq<char>)>, h: i64, entry: (i64, Seq<char>))
    ensures
        codes_known(log) && known_errno(entry.0) ==> codes_known(log.insert(h, entry)),
{
    if codes_known(log) && known_errno(entry.0) {
        assert forall|k: i64| #[trigger] log.insert(h, entry).contains_key(k) implies known_errno(
            log.insert(h, entry)[k].0,
        ) by {
            if k != h {
                assert(log.contains_key(k));
            }
        }
    }
}

proof fn lemma_codes_remove(log: Map<i64, (i64, Seq<char>)>, h: i64)
    ensures
        codes_known(log) ==> codes_known(log.remove(h)),
{
    if codes_known(log) {
        assert forall|k: i64| #[trigger] log.remove(h).contains_key(k) implies known_errno(
            log.remove(h)[k].0,
        ) by {
            assert(log.contains_key(k));
        }
    }
}

impl Bridge {
    /// The handle the next established connection receives.
    pub closed spec fn next(&self) -> i64 {
        self.counter@
    }

    /// The handles of the open connections.
    pub closed spec fn open_handles(&self) -> Set<i64> {
        self.open@
    }

    /// The last error recorded for each handle.
    pub closed spec fn error_log(&self) -> Map<i64, (i64, Seq<char>)> {
        self.errors@
    }

    /// Every handle an established connection has received.
    pub closed spec fn issued_handles(&self) -> Set<i64> {
        self.issued@
    }

    /// Every issued handle that has since been closed.
    pub closed spec fn closed_handles(&self) -> Set<i64> {
        self.closed@
    }

    /// The host text each issued handle's connection was made for.
    pub closed spec fn handle_hosts(&self) -> Map<i64, Seq<char>> {
        self.hosts@
    }

    /// Issued handles, closed handles and their hosts are the same in `self`
    /// as in `other`.
    pub open spec fn same_history(&self, other: Bridge) -> bool {
        &&& self.issued_handles() == other.issued_handles()
        &&& self.closed_handles() == other.closed_handles()
        &&& self.handle_hosts() == other.handle_hosts()
    }

    /// Every issued handle was handed out by the counter (it lies in
    /// `1..next`); the open handles are exactly those issued and not closed;
    /// and every recorded error number is one of the categories.
    pub open spec fn wf(&self) -> bool {
        &&& 1 <= self.next()
        &&& handles_issued(self.issued_handles(), self.next())
        &&& self.closed_handles().subset_of(self.issued_handles())
        &&& self.open_handles() == self.issued_handles().difference(self.closed_handles())
        &&& codes_known(self.error_log())
    }

    /// A bridge with no connection and no error; the first handle is 1.
    pub fn new() -> (b: Bridge)
        ensures
            b.wf(),
            b.next() == 1,
            b.open_handles() == Set::<i64>::empty(),
            b.issued_handles() == Set::<i64>::empty(),
            b.closed_handles() == Set::<i64>::empty(),
            b.error_log() == Map::<i64, (i64, Seq<char>)>::empty(),
    {
        let b = Bridge {
            counter: HandleCounter::new(),
            open: HashSet::new(),
            errors: ErrorTable::new(),
            issued: Ghost(Set::empty()),
            closed: Ghost(Set::empty()),
            hosts: Ghost(Map::empty()),
        };
        assert(b.open_handles() =~= Set::<i64>::empty());
        assert(b.open_handles() =~= b.issued_handles().difference(b.closed_handles()));
        b
    }

    /// Records a failure under `handle`, classified from its message.
    fn record_failure(&mut self, handle: i64, msg: String)
        ensures
            final(self).next() == old(self).next(),
            final(self).open_handles() == old(self).open_handles(),
            final(self).error_log() == old(self).error_log().insert(
                handle,
                (error_kind(msg@, false).code(), msg@),
            ),
            final(self).same_history(*old(self)),
            old(self).wf() ==> final(self).wf(),
    {
        let (errno, text) = classify_error(msg, false);
        proof { lemma_error_kind_code_range(msg@, false); }
        store_err(&mut self.errors, handle, errno, text);
        proof { lemma_codes_insert(old(self).error_log(), handle, self.error_log()[handle]); }
    }

    /// First step of a connection: checks that `host` is a usable server name.
    /// If it is not, records error 1 "invalid hostname" under the connect slot.
    pub fn begin_connect(&mut self, host: String) -> (r: Option<PendingConnect>)
        ensures
            r is Some <==> accepted_server_name(host@),
            host@.len() == 0 ==> r is None,
            r matches Some(p) ==> p.host() == host@ && p.server() == server_name_of(host@),
            final(self).next() == old(self).next(),
            final(self).open_handles() == old(self).open_handles(),
            final(self).error_log() == if accepted_server_name(host@) {
                old(self).error_log()
            } else {
                old(self).error_log().insert(CONNECT_SLOT, (1, "invalid hostname"@))
            },
            final(self).same_history(*old(self)),
            old(self).wf() ==> final(self).wf(),
    {
        let ghost text = host@;
        match server_name_from(host) {
            Some(name) => Some(PendingConnect { name, host: Ghost(text) }),
            None => {
                store_err(&mut self.errors, CONNECT_SLOT, 1, "invalid hostname".to_owned());
                proof { lemma_codes_insert(old(self).error_log(), CONNECT_SLOT, self.error_log()[CONNECT_SLOT]); }
                None
            },
        }
    }

    /// Third step, once the TCP connection is made: prepares the TLS session
    /// for the attempt's server name under `config`. The session verifies the
    /// server against the configuration's anchors and may negotiate only its
    /// versions. If preparing fails, the error's message is classified and
    /// recorded under the connect slot.
    pub fn start_tls(&mut self, config: Arc<ClientConfig>, pending: PendingConnect) -> (r: Option<
        (ClientConnection, Handshaking),
    >)
        ensures
            final(self).next() == old(self).next(),
            final(self).open_handles() == old(self).open_handles(),
            r matches Some(p) ==> {
                &&& session_anchors(p.0) == config_anchors(*config)
                &&& session_versions(p.0) == config_versions(*config)
                &&& session_server(p.0) == pending.server()
                &&& p.1.host() == pending.host()
            },
            r is Some ==> final(self).error_log() == old(self).error_log(),
            r is None ==> exists|m: Seq<char>|
                final(self).error_log() == old(self).error_log().insert(
                    CONNECT_SLOT,
                    (#[trigger] error_kind(m, false).code(), m),
                ),
            final(self).same_history(*old(self)),
            old(self).wf() ==> final(self).wf(),
    {
        let PendingConnect { name, host } = pending;
        let prepared = match new_client_connection(config, name) {
            Ok(c) => Ok(c),
            Err(e) => Err(e.to_string()),
        };
        match self.finish_tls(prepared) {
            Some(c) => Some((c, Handshaking { host })),
            None => None,
        }
    }

    /// Takes the outcome of preparing a TLS session: a prepared session is
    /// handed back unchanged; a failure's message is classified and recorded
    /// under the connect slot, and nothing is handed back.
    pub fn finish_tls(&mut self, prepared: Result<ClientConnection, String>) -> (r: Option<
        ClientConnection,
    >)
        ensures
            final(self).next() == old(self).next(),
            final(self).open_handles() == old(self).open_handles(),
            match prepared {
                Ok(c) => {
                    &&& r == Some(c)
                    &&& final(self).error_log() == old(self).error_log()
                },
                Err(msg) => {
                    &&& r is None
                    &&& final(self).error_log() == old(self).error_log().insert(
                        CONNECT_SLOT,
                        (error_kind(msg@, false).code(), msg@),
                    )
                },
            },
            final(self).same_history(*old(self)),
            old(self).wf() ==> final(self).wf(),
    {
        match prepared {
            Ok(c) => Some(c),
            Err(msg) => {
                self.record_failure(CONNECT_SLOT, msg);
                None
            },
        }
    }

    /// Last step of a connection: on success hands out the next handle,
    /// marks it open and clears its error; on failure records the error under
    /// the connect slot (4 "TCP connect failed", or the classified handshake
    /// failure) and returns -1.
    pub fn tls_connect(&mut self, outcome: ConnectOutcome) -> (h: i64)
        ensures
            match outcome {
                ConnectOutcome::TcpFailed(_) => {
                    &&& h == CONNECT_SLOT
                    &&& final(self).next() == old(self).next()
                    &&& final(self).open_handles() == old(self).open_handles()
                    &&& final(self).error_log() == old(self).error_log().insert(
                        CONNECT_SLOT,
                        (4, "TCP connect failed"@),
                    )
                },
                ConnectOutcome::TlsFailed(_, msg) => {
                    &&& h == CONNECT_SLOT
                    &&& final(self).next() == old(self).next()
                    &&& final(self).open_handles() == old(self).open_handles()
                    &&& final(self).error_log() == old(self).error_log().insert(
                        CONNECT_SLOT,
                        (error_kind(msg@, false).code(), msg@),
                    )
                },
                ConnectOutcome::Established(_) => {
                    &&& h == old(self).next()
                    &&& final(self).next() == successor(old(self).next())
                    &&& final(self).open_handles() == old(self).open_handles().insert(h)
                    &&& final(self).error_log() == old(self).error_log().remove(h)
                    &&& final(self).issued_handles() == old(self).issued_handles().insert(h)
                    &&& final(self).closed_handles() == old(self).closed_handles()
                },
            },
            match outcome {
                ConnectOutcome::Established(t) => final(self).handle_hosts() == old(
                    self,
                ).handle_hosts().insert(h, t.host()),
                _ => final(self).handle_hosts() == old(self).handle_hosts(),
            },
            !(outcome is Established) ==> final(self).same_history(*old(self)),
            old(self).wf() && old(self).next() < i64::MAX ==> final(self).wf(),
    {
        match outcome {
            ConnectOutcome::TcpFailed(_) => {
                store_err(&mut self.errors, CONNECT_SLOT, 4, "TCP connect failed".to_owned());
                proof { lemma_codes_insert(old(self).error_log(), CONNECT_SLOT, self.error_log()[CONNECT_SLOT]); }
                CONNECT_SLOT
            },
            ConnectOutcome::TlsFailed(_, msg) => {
                self.record_failure(CONNECT_SLOT, msg);
                CONNECT_SLOT
            },
            ConnectOutcome::Established(t) => {
                let h = next_handle(&mut self.counter);
                self.open.insert(h);
                self.issued = Ghost(self.issued@.insert(h));
                self.hosts = Ghost(self.hosts@.insert(h, t.host@));
                proof {
                    if old(self).wf() && old(self).next() < i64::MAX {
                        assert(!old(self).issued_handles().contains(h));
                        assert(self.open_handles() =~= self.issued_handles().difference(
                            self.closed_handles(),
                        ));
                    }
                }
                clear_err(&mut self.errors, h);
                proof { lemma_codes_remove(old(self).error_log(), h); }
                h
            },
        }
    }

    /// Whether `handle` names an open connection. If it does not, records
    /// error 5 "invalid TLS handle" under it.
    pub fn require_open(&mut self, handle: i64) -> (ok: bool)
        ensures
            ok == old(self).open_handles().contains(handle),
            final(self).next() == old(self).next(),
            final(self).open_handles() == old(self).open_handles(),
            final(self).error_log() == if ok {
                old(self).error_log()
            } else {
                old(self).error_log().insert(handle, (ERRNO_OTHER, "invalid TLS handle"@))
            },
            final(self).same_history(*old(self)),
            old(self).wf() ==> final(self).wf(),
    {
        if self.open.contains(&handle) {
            true
        } else {
            store_err(&mut self.errors, handle, ERRNO_OTHER, "invalid TLS handle".to_owned());
            proof { lemma_codes_insert(old(self).error_log(), handle, self.error_log()[handle]); }
            false
        }
    }

    /// Ends a read on `handle`, which must be open: see `read_ending`.
    fn finish_read(&mut self, handle: i64, mode: ReadMode, outcome: ReadOutcome) -> (s: String)
        requires
            outcome matches ReadOutcome::Complete(b) ==> b@.len() < READ_LIMIT,
        ensures
            final(self).next() == old(self).next(),
            final(self).open_handles() == old(self).open_handles(),
            (s@, final(self).error_log()) == read_ending(
                old(self).open_handles(),
                old(self).error_log(),
                handle,
                mode,
                outcome,
            ),
            old(self).open_handles().contains(handle) ==> (outcome matches ReadOutcome::Complete(b)
                ==> (valid_utf8(b@) ==> s@ == decode_utf8(b@))),
            s@.len() < READ_LIMIT,
            encode_utf8(s@).len() < 3 * READ_LIMIT,
            final(self).same_history(*old(self)),
            old(self).wf() ==> final(self).wf(),
    {
        if !self.open.contains(&handle) {
            store_err(&mut self.errors, handle, ERRNO_OTHER, "invalid TLS handle".to_owned());
            proof { lemma_codes_insert(old(self).error_log(), handle, self.error_log()[handle]); }
            return String::new();
        }
        match outcome {
            ReadOutcome::Complete(bytes) => {
                clear_err(&mut self.errors, handle);
                proof { lemma_codes_remove(old(self).error_log(), handle); }
                decode_lossy(bytes.as_slice())
            },
            ReadOutcome::TooLarge => {
                store_err(&mut self.errors, handle, ERRNO_OTHER, mode.limit_text());
                proof { lemma_codes_insert(old(self).error_log(), handle, self.error_log()[handle]); }
                String::new()
            },
            ReadOutcome::Failed(msg) => {
                self.record_failure(handle, msg);
                String::new()
            },
        }
    }

    /// Ends a read of everything the peer sends until it closes, gathered by
    /// a `ReadCollector`: see `read_ending`, whose size-cap message here is
    /// "read truncated at 1 MiB limit".
    pub fn tls_read(&mut self, handle: i64, outcome: ReadOutcome) -> (s: String)
        requires
            outcome matches ReadOutcome::Complete(b) ==> b@.len() < READ_LIMIT,
        ensures
            final(self).next() == old(self).next(),
            final(self).open_handles() == old(self).open_handles(),
            (s@, final(self).error_log()) == read_ending(
                old(self).open_handles(),
                old(self).error_log(),
                handle,
                ReadMode::Stream,
                outcome,
            ),
            old(self).open_handles().contains(handle) ==> (outcome matches ReadOutcome::Complete(b)
                ==> (valid_utf8(b@) ==> s@ == decode_utf8(b@))),
            s@.len() < READ_LIMIT,
            encode_utf8(s@).len() < 3 * READ_LIMIT,
            final(self).same_history(*old(self)),
            old(self).wf() ==> final(self).wf(),
    {
        self.finish_read(handle, ReadMode::Stream, outcome)
    }

    /// Ends a read of one HTTP response, gathered by a `ResponseCollector`:
    /// see `read_ending`, whose size-cap message here is
    /// "response truncated at 1 MiB limit".
    pub fn tls_read_response(&mut self, handle: i64, outcome: ReadOutcome) -> (s: String)
        requires
            outcome matches ReadOutcome::Complete(b) ==> b@.len() < READ_LIMIT,
        ensures
            final(self).next() == old(self).next(),
            final(self).open_handles() == old(self).open_handles(),
            (s@, final(self).error_log()) == read_ending(
                old(self).open_handles(),
                old(self).error_log(),
                handle,
                ReadMode::Response,
                outcome,
            ),
            old(self).open_handles().contains(handle) ==> (outcome matches ReadOutcome::Complete(b)
                ==> (valid_utf8(b@) ==> s@ == decode_utf8(b@))),
            s@.len() < READ_LIMIT,
            encode_utf8(s@).len() < 3 * READ_LIMIT,
            final(self).same_history(*old(self)),
            old(self).wf() ==> final(self).wf(),
    {
        self.finish_read(handle, ReadMode::Response, outcome)
    }

    /// Ends a write of `data` on `handle`. A handle that is not open is
    /// refused: -1, with error 5 "invalid TLS handle". Otherwise a success
    /// clears the handle's error and returns the number of bytes written, and
    /// a failure records the classified error and returns -1.
    pub fn tls_write(&mut self, handle: i64, data: &str, outcome: WriteOutcome) -> (n: i64)
        requires
            data.len() <= i64::MAX,
        ensures
            final(self).next() == old(self).next(),
            final(self).open_handles() == old(self).open_handles(),
            !old(self).open_handles().contains(handle) ==> {
                &&& n == -1
                &&& final(self).error_log() == old(self).error_log().insert(
                    handle,
                    (ERRNO_OTHER, "invalid TLS handle"@),
                )
            },
            old(self).open_handles().contains(handle) ==> match outcome {
                WriteOutcome::Sent => {
                    &&& n == data.len()
                    &&& final(self).error_log() == old(self).error_log().remove(handle)
                },
                WriteOutcome::Failed(msg) => {
                    &&& n == -1
                    &&& final(self).error_log() == old(self).error_log().insert(
                        handle,
                        (error_kind(msg@, false).code(), msg@),
                    )
                },
            },
            final(self).same_history(*old(self)),
            old(self).wf() ==> final(self).wf(),
    {
        if !self.open.contains(&handle) {
            store_err(&mut self.errors, handle, ERRNO_OTHER, "invalid TLS handle".to_owned());
            proof { lemma_codes_insert(old(self).error_log(), handle, self.error_log()[handle]); }
            return -1;
        }
        match outcome {
            WriteOutcome::Sent => {
                clear_err(&mut self.errors, handle);
                proof { lemma_codes_remove(old(self).error_log(), handle); }
                data.len() as i64
            },
            WriteOutcome::Failed(msg) => {
                self.record_failure(handle, msg);
                -1
            },
        }
    }

    /// Closes `handle`: queues close_notify on its session when one is
    /// given, forgets the handle and its error, and tells whether it was open.
    pub fn tls_close(&mut self, handle: i64, session: Option<&mut ClientConnection>) -> (was_open:
        bool)
        ensures
            was_open == old(self).open_handles().contains(handle),
            session matches Some(c) ==> closing_alert_sent(*final(c)),
            final(self).next() == old(self).next(),
            final(self).open_handles() == old(self).open_handles().remove(handle),
            final(self).error_log() == old(self).error_log().remove(handle),
            final(self).issued_handles() == old(self).issued_handles(),
            final(self).handle_hosts() == old(self).handle_hosts(),
            final(self).closed_handles() == if old(self).issued_handles().contains(handle) {
                old(self).closed_handles().insert(handle)
            } else {
                old(self).closed_handles()
            },
            old(self).wf() ==> final(self).wf(),
    {
        if let Some(conn) = session {
            queue_close_notify(conn);
        }
        let was_open = self.open.remove(&handle);
        self.closed = Ghost(
            if self.issued@.contains(handle) {
                self.closed@.insert(handle)
            } else {
                self.closed@
            },
        );
        proof {
            if old(self).wf() {
                assert(self.open_handles() =~= self.issued_handles().difference(
                    self.closed_handles(),
                ));
            }
        }
        clear_err(&mut self.errors, handle);
        proof { lemma_codes_remove(old(self).error_log(), handle); }
        was_open
    }

    /// The error number last recorded for `handle`, or 0 if none is.
    pub fn tls_errno(&self, handle: i64) -> (n: i64)
        ensures
            n == errno_of(self.error_log(), handle),
    {
        errno_for(&self.errors, handle)
    }

    /// The message last recorded for `handle`, or the empty string if none is.
    pub fn tls_errmsg(&self, handle: i64) -> (s: String)
        ensures
            s@ == errmsg_of(self.error_log(), handle),
    {
        errmsg_for(&self.errors, handle)
    }
}

/// On a well-formed bridge whose counter has not reached the largest `i64`,
/// the handle the next established connection receives is positive and was
/// never issued before (so no handle is reused), nor is it open.
pub proof fn lemma_next_handle_fresh(b: &Bridge)
    requires
        b.wf(),
        b.next() < i64::MAX,
    ensures
        b.next() >= 1,
        !b.issued_handles().contains(b.next()),
        !b.open_handles().contains(b.next()),
        successor(b.next()) > b.next(),
{
}

/// On a well-formed bridge the open handles are exactly those that
/// established connections received and that have not been closed since.
pub proof fn lemma_open_are_issued_not_closed(b: &Bridge)
    requires
        b.wf(),
    ensures
        forall|h: i64|
            #[trigger] b.open_handles().contains(h) <==> (b.issued_handles().contains(h)
                && !b.closed_handles().contains(h)),
{
}

/// The connect slot is never the handle of an open connection, so failures
/// to connect never overwrite a connection's error.
pub proof fn lemma_connect_slot_never_open(b: &Bridge)
    requires
        b.wf(),
    ensures
        !b.open_handles().contains(CONNECT_SLOT),
{
}

/// On a well-formed bridge every error number a lookup reports is 0 (no
/// error) or one of the five categories.
pub proof fn lemma_reported_errno_known(b: &Bridge, handle: i64)
    requires
        b.wf(),
    ensures
        errno_of(b.error_log(), handle) == 0 || known_errno(errno_of(b.error_log(), handle)),
{
}

/// A read on an open handle that fails before any byte records the
/// classification of its failure (the number `classify_error` gives for the
/// message) and the message itself, in either mode.
pub proof fn lemma_failed_read_is_classified(
    open: Set<i64>,
    log: Map<i64, (i64, Seq<char>)>,
    handle: i64,
    mode: ReadMode,
    msg: String,
)
    requires
        open.contains(handle),
    ensures
        read_ending(open, log, handle, mode, ReadOutcome::Failed(msg)).0 == Seq::<char>::empty(),
        errno_of(read_ending(open, log, handle, mode, ReadOutcome::Failed(msg)).1, handle)
            == error_kind(msg@, false).code(),
        errmsg_of(read_ending(open, log, handle, mode, ReadOutcome::Failed(msg)).1, handle)
            == msg@,
{
}

/// The two kinds of read end alike on every outcome but the size cap, where
/// only the recorded message differs.
pub proof fn lemma_read_modes_agree(
    open: Set<i64>,
    log: Map<i64, (i64, Seq<char>)>,
    handle: i64,
    outcome: ReadOutcome,
)
    ensures
        !(outcome is TooLarge) ==> read_ending(open, log, handle, ReadMode::Stream, outcome)
            == read_ending(open, log, handle, ReadMode::Response, outcome),
        read_ending(open, log, handle, ReadMode::Stream, outcome).0 == read_ending(
            open,
            log,
            handle,
            ReadMode::Response,
            outcome,
        ).0,
        errno_of(read_ending(open, log, handle, ReadMode::Stream, outcome).1, handle) == errno_of(
            read_ending(open, log, handle, ReadMode::Response, outcome).1,
            handle,
        ),
{
}

/// Once a handle is closed, every read that ends on it is refused: it
/// gives the empty string and records error 5 "invalid TLS handle",
/// whatever the read gathered.
pub proof fn lemma_closed_handle_refused(
    open: Set<i64>,
    log: Map<i64, (i64, Seq<char>)>,
    handle: i64,
    mode: ReadMode,
    outcome: ReadOutcome,
)
    ensures
        read_ending(open.remove(handle), log, handle, mode, outcome) == (
            Seq::<char>::empty(),
            log.insert(handle, (ERRNO_OTHER, "invalid TLS handle"@)),
        ),
{
}

/// The error table of a bridge.
pub fn errors(bridge: &Bridge) -> (t: &ErrorTable)
    ensures
        t@ == bridge.error_log(),
{
    &bridge.errors
}

} // verus!
