use vstd::prelude::*;

verus! {

broadcast use vstd::string::group_string_axioms;

/// The error categories a bridge reports, each with a fixed error number.
#[derive(Clone, Copy, Debug, PartialEq, Eq, Structural)]
pub enum ErrorKind {
    HandshakeFailed,
    CertificateInvalid,
    ConnectionClosed,
    IoError,
    Other,
}

impl ErrorKind {
    /// The error number that callers see for this category.
    pub open spec fn code(self) -> i64 {
        match self {
            ErrorKind::HandshakeFailed => 1,
            ErrorKind::CertificateInvalid => 2,
            ErrorKind::ConnectionClosed => 3,
            ErrorKind::IoError => 4,
            ErrorKind::Other => 5,
        }
    }

    pub fn errno(&self) -> (n: i64)
        ensures
            n == self.code(),
    {
        match self {
            ErrorKind::HandshakeFailed => 1,
            ErrorKind::CertificateInvalid => 2,
            ErrorKind::ConnectionClosed => 3,
            ErrorKind::IoError => 4,
            ErrorKind::Other => 5,
        }
    }
}

/// `needle` occurs as a contiguous run somewhere in `hay`.
pub open spec fn mentions(hay: Seq<char>, needle: Seq<char>) -> bool {
    exists|i: int|
        0 <= i && i + needle.len() <= hay.len() && #[trigger] hay.subrange(i, i + needle.len())
            == needle
}

/// The category of an error, judged from its message (and from whether the
/// caller already knows it is a certificate problem). Earlier rules win.
pub open spec fn error_kind(msg: Seq<char>, is_cert: bool) -> ErrorKind {
    if is_cert || mentions(msg, "certificate"@) || mentions(msg, "CertificateRequired"@) {
        ErrorKind::CertificateInvalid
    } else if mentions(msg, "handshake"@) || mentions(msg, "AlertReceived"@) {
        ErrorKind::HandshakeFailed
    } else if mentions(msg, "closed"@) || mentions(msg, "CloseNotify"@) || mentions(msg, "EOF"@) {
        ErrorKind::ConnectionClosed
    } else if mentions(msg, "io error"@) || mentions(msg, "Connection refused"@) {
        ErrorKind::IoError
    } else {
        ErrorKind::Other
    }
}

/// Every classification yields one of the five error numbers 1 to 5.
pub proof fn lemma_error_kind_code_range(msg: Seq<char>, is_cert: bool)
    ensures
        1 <= error_kind(msg, is_cert).code() <= 5,
{
}

/// A failure already known to concern a certificate is classified as an
/// invalid certificate whatever its message says.
pub proof fn lemma_cert_flag_wins(msg: Seq<char>)
    ensures
        error_kind(msg, true) == ErrorKind::CertificateInvalid,
{
}

/// Which of the nine keywords that classification looks for a message
/// mentions, in the order certificate, CertificateRequired, handshake,
/// AlertReceived, closed, CloseNotify, EOF, io error, Connection refused.
pub open spec fn keywords_mentioned(msg: Seq<char>) -> Seq<bool> {
    seq![
        mentions(msg, "certificate"@),
        mentions(msg, "CertificateRequired"@),
        mentions(msg, "handshake"@),
        mentions(msg, "AlertReceived"@),
        mentions(msg, "closed"@),
        mentions(msg, "CloseNotify"@),
        mentions(msg, "EOF"@),
        mentions(msg, "io error"@),
        mentions(msg, "Connection refused"@),
    ]
}

/// The category depends on nothing but which of the nine keywords occur:
/// two messages that mention the same ones are classified alike.
pub proof fn lemma_kind_depends_only_on_keywords(m1: Seq<char>, m2: Seq<char>, is_cert: bool)
    requires
        keywords_mentioned(m1) == keywords_mentioned(m2),
    ensures
        error_kind(m1, is_cert) == error_kind(m2, is_cert),
{
    assert(keywords_mentioned(m1)[0] == keywords_mentioned(m2)[0]);
    assert(keywords_mentioned(m1)[1] == keywords_mentioned(m2)[1]);
    assert(keywords_mentioned(m1)[2] == keywords_mentioned(m2)[2]);
    assert(keywords_mentioned(m1)[3] == keywords_mentioned(m2)[3]);
    assert(keywords_mentioned(m1)[4] == keywords_mentioned(m2)[4]);
    assert(keywords_mentioned(m1)[5] == keywords_mentioned(m2)[5]);
    assert(keywords_mentioned(m1)[6] == keywords_mentioned(m2)[6]);
    assert(keywords_mentioned(m1)[7] == keywords_mentioned(m2)[7]);
    assert(keywords_mentioned(m1)[8] == keywords_mentioned(m2)[8]);
}

/// A message that mentions a certificate keyword is a certificate error (2).
pub proof fn lemma_certificate_keywords_give_two(msg: Seq<char>, is_cert: bool)
    requires
        mentions(msg, "certificate"@) || mentions(msg, "CertificateRequired"@),
    ensures
        error_kind(msg, is_cert).code() == 2,
{
}

/// Without the certificate flag and certificate keywords, a message that
/// mentions a handshake keyword is a handshake error (1).
pub proof fn lemma_handshake_keywords_give_one(msg: Seq<char>)
    requires
        !mentions(msg, "certificate"@),
        !mentions(msg, "CertificateRequired"@),
        mentions(msg, "handshake"@) || mentions(msg, "AlertReceived"@),
    ensures
        error_kind(msg, false).code() == 1,
{
}

/// Without the certificate flag and the keywords of the earlier categories,
/// a message that mentions "closed", "CloseNotify" or "EOF" means the
/// connection closed (3).
pub proof fn lemma_closed_keywords_give_three(msg: Seq<char>)
    requires
        !mentions(msg, "certificate"@),
        !mentions(msg, "CertificateRequired"@),
        !mentions(msg, "handshake"@),
        !mentions(msg, "AlertReceived"@),
        mentions(msg, "closed"@) || mentions(msg, "CloseNotify"@) || mentions(msg, "EOF"@),
    ensures
        error_kind(msg, false).code() == 3,
{
}

/// Without the certificate flag and the keywords of the earlier categories,
/// a message that mentions "io error" or "Connection refused" is an I/O
/// error (4).
pub proof fn lemma_io_keywords_give_four(msg: Seq<char>)
    requires
        !mentions(msg, "certificate"@),
        !mentions(msg, "CertificateRequired"@),
        !mentions(msg, "handshake"@),
        !mentions(msg, "AlertReceived"@),
        !mentions(msg, "closed"@),
        !mentions(msg, "CloseNotify"@),
        !mentions(msg, "EOF"@),
        mentions(msg, "io error"@) || mentions(msg, "Connection refused"@),
    ensures
        error_kind(msg, false).code() == 4,
{
}

/// Without the certificate flag, a message that mentions none of the nine
/// keywords is some other error (5).
pub proof fn lemma_no_keyword_gives_five(msg: Seq<char>)
    requires
        forall|i: int| 0 <= i < 9 ==> !#[trigger] keywords_mentioned(msg)[i],
    ensures
        error_kind(msg, false).code() == 5,
{
    assert(!keywords_mentioned(msg)[0]);
    assert(!keywords_mentioned(msg)[1]);
    assert(!keywords_mentioned(msg)[2]);
    assert(!keywords_mentioned(msg)[3]);
    assert(!keywords_mentioned(msg)[4]);
    assert(!keywords_mentioned(msg)[5]);
    assert(!keywords_mentioned(msg)[6]);
    assert(!keywords_mentioned(msg)[7]);
    assert(!keywords_mentioned(msg)[8]);
}

/// The characters of `s`, in order.
fn chars_of(s: &str) -> (res: Vec<char>)
    ensures
        res@ == s@,
{
    let mut res: Vec<char> = Vec::new();
    for c in it: s.chars()
        invariant
            it.seq() == s@,
            res@ == s@.take(it.index() as int),
    {
        res.push(c);
        assert(s@.take(it.index() + 1) == s@.take(it.index() as int).push(c));
    }
    assert(s@.take(s@.len() as int) == s@);
    res
}

/// Whether `needle` occurs in `hay` starting at position `at`.
fn matches_at(hay: &Vec<char>, needle: &Vec<char>, at: usize) -> (r: bool)
    requires
        at + needle.len() <= hay.len(),
    ensures
        r == (hay@.subrange(at as int, at + needle.len()) == needle@),
{
    let n = needle.len();
    let mut j: usize = 0;
    while j < n
        invariant
            n == needle.len(),
            at + n <= hay.len(),
            j <= n,
            forall|m: int| 0 <= m < j ==> hay@[at + m] == needle@[m],
        decreases n - j,
    {
        if hay[at + j] != needle[j] {
            assert(hay@.subrange(at as int, at + n)[j as int] != needle@[j as int]);
            return false;
        }
        j += 1;
    }
    assert(hay@.subrange(at as int, at + n) =~= needle@);
    true
}

/// Whether `needle` occurs anywhere in `hay`.
fn contains_chars(hay: &Vec<char>, needle: &Vec<char>) -> (r: bool)
    ensures
        r == mentions(hay@, needle@),
{
    let n = needle.len();
    if n == 0 {
        assert(hay@.subrange(0, 0 + needle@.len() as int) =~= needle@);
        return true;
    }
    if n > hay.len() {
        return false;
    }
    let mut i: usize = 0;
    while i <= hay.len() - n
        invariant
            n == needle.len(),
            n >= 1,
            n <= hay.len(),
            i <= hay.len() - n + 1,
            forall|k: int| 0 <= k < i ==> #[trigger] hay@.subrange(k, k + n) != needle@,
        decreases hay.len() - i,
    {
        if matches_at(hay, needle, i) {
            return true;
        }
        i += 1;
    }
    false
}

/// Whether the literal `needle` occurs in `hay`.
fn mentions_literal(hay: &Vec<char>, needle: &str) -> (r: bool)
    ensures
        r == mentions(hay@, needle@),
{
    let pattern = chars_of(needle);
    contains_chars(hay, &pattern)
}

/// Sorts an error message into a category and returns its error number with
/// the message unchanged. `is_cert` forces the certificate category.
pub fn classify_error(msg: String, is_cert: bool) -> (res: (i64, String))
    ensures
        res.0 == error_kind(msg@, is_cert).code(),
        res.1@ == msg@,
{
    let text = chars_of(msg.as_str());
    let kind = if is_cert || mentions_literal(&text, "certificate") || mentions_literal(
        &text,
        "CertificateRequired",
    ) {
        ErrorKind::CertificateInvalid
    } else if mentions_literal(&text, "handshake") || mentions_literal(&text, "AlertReceived") {
        ErrorKind::HandshakeFailed
    } else if mentions_literal(&text, "closed") || mentions_literal(&text, "CloseNotify")
        || mentions_literal(&text, "EOF") {
        ErrorKind::ConnectionClosed
    } else if mentions_literal(&text, "io error") || mentions_literal(&text, "Connection refused") {
        ErrorKind::IoError
    } else {
        ErrorKind::Other
    };
    (kind.errno(), msg)
}

} // verus!
