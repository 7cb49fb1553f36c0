use crate::reader::{ReadOutcome, READ_LIMIT};
use vstd::prelude::*;

verus! {

/// Carriage return.
pub const CR: u8 = 13;

/// Line feed.
pub const LF: u8 = 10;

/// Space.
pub const SP: u8 = 32;

/// Horizontal tab.
pub const HT: u8 = 9;

/// ';', which starts chunk extensions.
pub const SEMICOLON: u8 = 59;

/// '0'.
pub const DIGIT_ZERO: u8 = 48;

/// '9'.
pub const DIGIT_NINE: u8 = 57;

/// 'A'.
pub const UPPER_A: u8 = 65;

/// 'F'.
pub const UPPER_F: u8 = 70;

/// 'Z'.
pub const UPPER_Z: u8 = 90;

/// 'a'.
pub const LOWER_A: u8 = 97;

/// 'c'.
pub const LOWER_C: u8 = 99;

/// 'f'.
pub const LOWER_F: u8 = 102;

/// Where a response's framing stands.
#[derive(Clone, Copy, Debug, PartialEq, Eq, Structural)]
pub enum Phase {
    /// Still in the status line and header fields.
    Head,
    /// In a body of `remaining` more bytes (from Content-Length).
    Fixed,
    /// In a chunked body.
    Chunked,
    /// In a body that ends only when the peer closes.
    UntilClose,
    /// The response is complete.
    Done,
}

/// Where a chunked body stands.
#[derive(Clone, Copy, Debug, PartialEq, Eq, Structural)]
pub enum ChunkPart {
    /// In the hexadecimal chunk size.
    Size,
    /// In chunk extensions, up to the end of the size line.
    Ext,
    /// After the CR that ends the size line.
    SizeLf,
    /// In the chunk's data.
    Data,
    /// After the data, expecting CR.
    DataCr,
    /// After the data's CR, expecting LF.
    DataLf,
    /// At the start of a trailer line (or of the final empty line).
    TrailerStart,
    /// After a CR at the start of a line, expecting the final LF.
    TrailerStartLf,
    /// Inside a trailer line.
    TrailerLine,
    /// After a CR inside a trailer line.
    TrailerLineLf,
}

/// Which header value the current header line carries.
#[derive(Clone, Copy, Debug, PartialEq, Eq, Structural)]
pub enum HeaderValue {
    /// None that matters for framing (or still in the name).
    Other,
    /// The value of Content-Length.
    ContentLength,
    /// The value of Transfer-Encoding.
    TransferEncoding,
}

/// The framing of one HTTP/1.x response, read byte by byte (RFC 9112,
/// section 6.3): the head ends at the first empty line; an interim (1xx)
/// response is skipped; 204 and 304 have no body; a Transfer-Encoding that
/// names chunked gives a chunked body, any other Transfer-Encoding a body
/// that runs to the close; otherwise a valid Content-Length gives a body of
/// that many bytes, and without one the body runs to the close. Header names
/// are matched without regard to case. Counters stop growing at `READ_LIMIT`,
/// which no complete read reaches.
#[derive(Clone, Copy)]
pub struct Framer {
    pub phase: Phase,
    /// How much of CR LF CR LF the last bytes of the head match (0 to 3).
    pub crlf_run: u8,
    pub in_status_line: bool,
    /// Position within the current head line (stops growing at 1000).
    pub col: u64,
    pub seen_space: bool,
    pub status: u64,
    /// Status digits read so far; 4 marks a malformed status code.
    pub status_digits: u64,
    /// The current line's name still matches "content-length:".
    pub name_cl: bool,
    /// The current line's name still matches "transfer-encoding:".
    pub name_te: bool,
    pub value: HeaderValue,
    pub cl_seen: bool,
    pub cl_ok: bool,
    pub cl_digits: bool,
    pub cl_value: u64,
    pub te_seen: bool,
    /// How much of "chunked" the Transfer-Encoding value matches at its end.
    pub te_match: u64,
    pub te_chunked: bool,
    /// Body bytes still to come (Fixed and chunk data).
    pub remaining: u64,
    pub part: ChunkPart,
    pub size: u64,
    pub size_digits: bool,
}

/// The framer before any byte of a response.
pub open spec fn initial_framer() -> Framer {
    Framer {
        phase: Phase::Head,
        crlf_run: 0,
        in_status_line: true,
        col: 0,
        seen_space: false,
        status: 0,
        status_digits: 0,
        name_cl: true,
        name_te: true,
        value: HeaderValue::Other,
        cl_seen: false,
        cl_ok: false,
        cl_digits: false,
        cl_value: 0,
        te_seen: false,
        te_match: 0,
        te_chunked: false,
        remaining: 0,
        part: ChunkPart::Size,
        size: 0,
        size_digits: false,
    }
}

/// `b` in lower case, for ASCII letters.
pub open spec fn ascii_lower(b: u8) -> u8 {
    if UPPER_A <= b && b <= UPPER_Z {
        (b + 32) as u8
    } else {
        b
    }
}

pub open spec fn is_digit(b: u8) -> bool {
    DIGIT_ZERO <= b && b <= DIGIT_NINE
}

pub open spec fn is_hex(b: u8) -> bool {
    is_digit(b) || (LOWER_A <= b && b <= LOWER_F) || (UPPER_A <= b && b <= UPPER_F)
}

pub open spec fn hex_value(b: u8) -> u64 {
    if is_digit(b) {
        (b - DIGIT_ZERO) as u64
    } else if LOWER_A <= b && b <= LOWER_F {
        (b - LOWER_A + 10) as u64
    } else {
        (b - UPPER_A + 10) as u64
    }
}

/// The header name "content-length:", colon included, in lower case.
pub open spec fn content_length_name() -> Seq<u8> {
    // c o n t e n t - l e n g t h :
    seq![99u8, 111u8, 110u8, 116u8, 101u8, 110u8, 116u8, 45u8, 108u8, 101u8, 110u8, 103u8, 116u8, 104u8, 58u8]
}

/// The header name "transfer-encoding:", colon included, in lower case.
pub open spec fn transfer_encoding_name() -> Seq<u8> {
    // t r a n s f e r - e n c o d i n g :
    seq![116u8, 114u8, 97u8, 110u8, 115u8, 102u8, 101u8, 114u8, 45u8, 101u8, 110u8, 99u8, 111u8, 100u8, 105u8, 110u8, 103u8, 58u8]
}

/// The transfer coding "chunked".
pub open spec fn chunked_name() -> Seq<u8> {
    // c h u n k e d
    seq![99u8, 104u8, 117u8, 110u8, 107u8, 101u8, 100u8]
}

/// How much of CR LF CR LF is matched after `b`, given `run` before it.
pub open spec fn crlf_next(run: u8, b: u8) -> u8 {
    if b == CR {
        if run == 0 || run == 2 {
            (run + 1) as u8
        } else {
            1
        }
    } else if b == LF {
        if run == 1 || run == 3 {
            (run + 1) as u8
        } else {
            0
        }
    } else {
        0
    }
}

/// A decimal counter that stops growing once it reaches `READ_LIMIT`.
pub open spec fn add_decimal(n: u64, d: u64) -> u64 {
    if n >= READ_LIMIT {
        n
    } else {
        (n * 10 + d) as u64
    }
}

/// A hexadecimal counter that stops growing once it reaches `READ_LIMIT`.
pub open spec fn add_hex(n: u64, d: u64) -> u64 {
    if n >= READ_LIMIT {
        n
    } else {
        (n * 16 + d) as u64
    }
}

/// A byte of the status line: the three digits after the first space are
/// the status code.
pub open spec fn status_step(f: Framer, b: u8) -> Framer {
    if !f.seen_space {
        if b == SP {
            Framer { seen_space: true, ..f }
        } else {
            f
        }
    } else if f.status_digits < 3 {
        if is_digit(b) {
            Framer {
                status: (f.status * 10 + (b - DIGIT_ZERO)) as u64,
                status_digits: (f.status_digits + 1) as u64,
                ..f
            }
        } else {
            Framer { status_digits: 4, ..f }
        }
    } else {
        f
    }
}

/// A byte of a header line other than its LF.
pub open spec fn header_step(f: Framer, b: u8) -> Framer {
    match f.value {
        HeaderValue::Other => {
            let lb = ascii_lower(b);
            let cl = f.name_cl && f.col < 15 && lb == content_length_name()[f.col as int];
            let te = f.name_te && f.col < 18 && lb == transfer_encoding_name()[f.col as int];
            if cl && f.col == 14 {
                Framer {
                    name_cl: false,
                    name_te: false,
                    value: HeaderValue::ContentLength,
                    cl_seen: true,
                    cl_ok: true,
                    cl_digits: false,
                    cl_value: 0,
                    ..f
                }
            } else if te && f.col == 17 {
                Framer {
                    name_cl: false,
                    name_te: false,
                    value: HeaderValue::TransferEncoding,
                    te_seen: true,
                    te_match: 0,
                    ..f
                }
            } else {
                Framer { name_cl: cl, name_te: te, ..f }
            }
        },
        HeaderValue::ContentLength => {
            if is_digit(b) {
                Framer {
                    cl_digits: true,
                    cl_value: add_decimal(f.cl_value, (b - DIGIT_ZERO) as u64),
                    ..f
                }
            } else if b == SP || b == HT || b == CR {
                f
            } else {
                Framer { cl_ok: false, ..f }
            }
        },
        HeaderValue::TransferEncoding => {
            let lb = ascii_lower(b);
            if f.te_match < 7 && lb == chunked_name()[f.te_match as int] {
                if f.te_match == 6 {
                    Framer { te_chunked: true, te_match: 0, ..f }
                } else {
                    Framer { te_match: (f.te_match + 1) as u64, ..f }
                }
            } else if lb == LOWER_C {
                Framer { te_match: 1, ..f }
            } else {
                Framer { te_match: 0, ..f }
            }
        },
    }
}

/// What follows the empty line that ends a head.
pub open spec fn head_end(f: Framer) -> Framer {
    let code_ok = f.status_digits == 3;
    if code_ok && 100 <= f.status && f.status < 200 {
        initial_framer()
    } else if code_ok && (f.status == 204 || f.status == 304) {
        Framer { phase: Phase::Done, ..f }
    } else if f.te_seen {
        if f.te_chunked {
            Framer { phase: Phase::Chunked, part: ChunkPart::Size, size: 0, size_digits: false, ..f }
        } else {
            Framer { phase: Phase::UntilClose, ..f }
        }
    } else if f.cl_seen && f.cl_ok && f.cl_digits {
        if f.cl_value == 0 {
            Framer { phase: Phase::Done, ..f }
        } else {
            Framer { phase: Phase::Fixed, remaining: f.cl_value, ..f }
        }
    } else {
        Framer { phase: Phase::UntilClose, ..f }
    }
}

/// A byte of the head.
pub open spec fn head_step(f: Framer, b: u8) -> Framer {
    let run = crlf_next(f.crlf_run, b);
    if run == 4 {
        head_end(f)
    } else if b == LF {
        Framer {
            crlf_run: run,
            in_status_line: false,
            col: 0,
            name_cl: true,
            name_te: true,
            value: HeaderValue::Other,
            ..f
        }
    } else {
        let g = if f.in_status_line {
            status_step(f, b)
        } else {
            header_step(f, b)
        };
        Framer { crlf_run: run, col: if f.col < 1000 { (f.col + 1) as u64 } else { f.col }, ..g }
    }
}

/// A byte of a body of known length.
pub open spec fn fixed_step(f: Framer) -> Framer {
    if f.remaining <= 1 {
        Framer { phase: Phase::Done, remaining: 0, ..f }
    } else {
        Framer { remaining: (f.remaining - 1) as u64, ..f }
    }
}

/// A byte of a chunked body; anything malformed leaves the body running to
/// the close.
pub open spec fn chunk_step(f: Framer, b: u8) -> Framer {
    let broken = Framer { phase: Phase::UntilClose, ..f };
    match f.part {
        ChunkPart::Size => if is_hex(b) {
            Framer { size: add_hex(f.size, hex_value(b)), size_digits: true, ..f }
        } else if f.size_digits && (b == SEMICOLON || b == SP || b == HT) {
            Framer { part: ChunkPart::Ext, ..f }
        } else if f.size_digits && b == CR {
            Framer { part: ChunkPart::SizeLf, ..f }
        } else {
            broken
        },
        ChunkPart::Ext => if b == CR {
            Framer { part: ChunkPart::SizeLf, ..f }
        } else {
            f
        },
        ChunkPart::SizeLf => if b == LF {
            if f.size == 0 {
                Framer { part: ChunkPart::TrailerStart, ..f }
            } else {
                Framer { part: ChunkPart::Data, remaining: f.size, ..f }
            }
        } else {
            broken
        },
        ChunkPart::Data => if f.remaining <= 1 {
            Framer { part: ChunkPart::DataCr, remaining: 0, ..f }
        } else {
            Framer { remaining: (f.remaining - 1) as u64, ..f }
        },
        ChunkPart::DataCr => if b == CR {
            Framer { part: ChunkPart::DataLf, ..f }
        } else {
            broken
        },
        ChunkPart::DataLf => if b == LF {
            Framer { part: ChunkPart::Size, size: 0, size_digits: false, ..f }
        } else {
            broken
        },
        ChunkPart::TrailerStart => if b == CR {
            Framer { part: ChunkPart::TrailerStartLf, ..f }
        } else {
            Framer { part: ChunkPart::TrailerLine, ..f }
        },
        ChunkPart::TrailerStartLf => if b == LF {
            Framer { phase: Phase::Done, ..f }
        } else {
            broken
        },
        ChunkPart::TrailerLine => if b == CR {
            Framer { part: ChunkPart::TrailerLineLf, ..f }
        } else {
            f
        },
        ChunkPart::TrailerLineLf => if b == LF {
            Framer { part: ChunkPart::TrailerStart, ..f }
        } else if b == CR {
            f
        } else {
            Framer { part: ChunkPart::TrailerLine, ..f }
        },
    }
}

impl Framer {
    /// The framer after one more byte.
    pub open spec fn step(self, b: u8) -> Framer {
        match self.phase {
            Phase::Head => head_step(self, b),
            Phase::Fixed => fixed_step(self),
            Phase::Chunked => chunk_step(self, b),
            Phase::UntilClose => self,
            Phase::Done => self,
        }
    }
}

/// The framer after `bytes`, starting from `f`.
pub open spec fn run(f: Framer, bytes: Seq<u8>) -> Framer
    decreases bytes.len(),
{
    if bytes.len() == 0 {
        f
    } else {
        run(f, bytes.drop_last()).step(bytes.last())
    }
}

/// `bytes` end exactly where an HTTP response's framing completes.
pub open spec fn completes_response(bytes: Seq<u8>) -> bool {
    run(initial_framer(), bytes).phase == Phase::Done
}

/// Stepping after a run is a run one byte longer.
pub proof fn lemma_run_push(f: Framer, bytes: Seq<u8>, b: u8)
    ensures
        run(f, bytes.push(b)) == run(f, bytes).step(b),
{
    assert(bytes.push(b).drop_last() =~= bytes);
}

/// Once complete, a response stays complete: a framer that is done ignores
/// every further byte.
pub proof fn lemma_done_stays(f: Framer, b: u8)
    requires
        f.phase == Phase::Done,
    ensures
        f.step(b) == f,
{
}

/// A body of known length ends exactly after that many bytes, whatever
/// they are: before that the framer only counts down.
pub proof fn lemma_fixed_body(f: Framer, body: Seq<u8>)
    requires
        f.phase == Phase::Fixed,
        1 <= body.len() <= f.remaining,
    ensures
        run(f, body) == if body.len() < f.remaining {
            Framer { remaining: (f.remaining - body.len()) as u64, ..f }
        } else {
            Framer { phase: Phase::Done, remaining: 0, ..f }
        },
    decreases body.len(),
{
    let g = run(f, body.drop_last());
    assert(run(f, body) == g.step(body.last()));
    if body.len() > 1 {
        lemma_fixed_body(f, body.drop_last());
        assert(g.phase == Phase::Fixed);
        assert(g.remaining == f.remaining - (body.len() - 1));
    } else {
        assert(body.drop_last() =~= Seq::<u8>::empty());
        assert(g == f);
    }
}

/// A body that runs to the close never completes, whatever arrives.
pub proof fn lemma_until_close_never_completes(f: Framer, bytes: Seq<u8>)
    requires
        f.phase == Phase::UntilClose,
    ensures
        run(f, bytes) == f,
    decreases bytes.len(),
{
    if bytes.len() > 0 {
        lemma_until_close_never_completes(f, bytes.drop_last());
    }
}

/// A complete response stays complete, whatever follows it.
pub proof fn lemma_done_absorbs(f: Framer, bytes: Seq<u8>)
    requires
        f.phase == Phase::Done,
    ensures
        run(f, bytes) == f,
    decreases bytes.len(),
{
    if bytes.len() > 0 {
        lemma_done_absorbs(f, bytes.drop_last());
    }
}

/// `r` is one complete response and no shorter prefix of it is.
pub open spec fn first_response(r: Seq<u8>) -> bool {
    &&& completes_response(r)
    &&& forall|k: int| 0 <= k < r.len() ==> !completes_response(#[trigger] r.take(k))
}

/// Bytes that follow a response (a pipelined one, say) do not change where
/// the first response ends: in `r + rest` the first prefix that completes a
/// response is `r`.
pub proof fn lemma_following_bytes_ignored(r: Seq<u8>, rest: Seq<u8>)
    requires
        first_response(r),
    ensures
        (r + rest).take(r.len() as int) == r,
        completes_response((r + rest).take(r.len() as int)),
        forall|k: int| 0 <= k < r.len() ==> !completes_response(#[trigger] (r + rest).take(k)),
{
    assert((r + rest).take(r.len() as int) =~= r);
    assert forall|k: int| 0 <= k < r.len() implies !completes_response(#[trigger] (r + rest).take(k)) by {
        assert((r + rest).take(k) =~= r.take(k));
    }
}


/// "HTTP/1.1 " : the start of a status line.
pub open spec fn http11_prefix() -> Seq<u8> {
    seq![72u8, 84u8, 84u8, 80u8, 47u8, 49u8, 46u8, 49u8, 32u8]
}

/// " OK" and the CR LF that end a status line.
pub open spec fn ok_line_end() -> Seq<u8> {
    seq![32u8, 79u8, 75u8, 13u8, 10u8]
}

/// "Content-Length: " : a header name, its colon and one space.
pub open spec fn content_length_prefix() -> Seq<u8> {
    seq![67u8, 111u8, 110u8, 116u8, 101u8, 110u8, 116u8, 45u8, 76u8, 101u8, 110u8, 103u8, 116u8, 104u8, 58u8, 32u8]
}

/// CR LF CR LF: the end of a header line and the empty line after it.
pub open spec fn blank_line_end() -> Seq<u8> {
    seq![13u8, 10u8, 13u8, 10u8]
}

/// Every byte is an ASCII decimal digit.
pub open spec fn all_digits(s: Seq<u8>) -> bool {
    forall|i: int| 0 <= i < s.len() ==> 48 <= #[trigger] s[i] <= 57
}

/// The number that decimal digits write, most significant first.
pub open spec fn digits_value(s: Seq<u8>) -> nat
    decreases s.len(),
{
    if s.len() == 0 {
        0
    } else {
        digits_value(s.drop_last()) * 10 + (s.last() - 48) as nat
    }
}

/// The head of a response with status code `code` (three digits), reason
/// "OK", and the single header field "Content-Length: " followed by `ds`.
pub open spec fn content_length_head(code: Seq<u8>, ds: Seq<u8>) -> Seq<u8> {
    http11_prefix() + code + ok_line_end() + content_length_prefix() + ds + blank_line_end()
}

/// The head position after `n` more bytes of one line, starting at `c`.
pub open spec fn col_after(c: u64, n: nat) -> u64
    decreases n,
{
    if n == 0 {
        c
    } else {
        let p = col_after(c, (n - 1) as nat);
        if p < 1000 {
            (p + 1) as u64
        } else {
            p
        }
    }
}

/// Running over two pieces is running over the first, then the second.
pub proof fn lemma_run_append(f: Framer, a: Seq<u8>, b: Seq<u8>)
    ensures
        run(f, a + b) == run(run(f, a), b),
    decreases b.len(),
{
    if b.len() == 0 {
        assert(a + b =~= a);
    } else {
        lemma_run_append(f, a, b.drop_last());
        assert((a + b).drop_last() =~= a + b.drop_last());
        assert((a + b).last() == b.last());
    }
}

/// Once some prefix of `s` completes a response, every longer prefix does.
pub proof fn lemma_completion_persists(s: Seq<u8>, k: int, j: int)
    requires
        0 <= k <= j <= s.len(),
        completes_response(s.take(k)),
    ensures
        completes_response(s.take(j)),
{
    assert(s.take(j) =~= s.take(k) + s.subrange(k, j));
    lemma_run_append(initial_framer(), s.take(k), s.subrange(k, j));
    lemma_done_absorbs(run(initial_framer(), s.take(k)), s.subrange(k, j));
}

/// Decimal digits of a Content-Length value accumulate into their value.
proof fn lemma_length_digits(g: Framer, ds: Seq<u8>)
    requires
        g.phase == Phase::Head,
        !g.in_status_line,
        g.value == HeaderValue::ContentLength,
        g.crlf_run == 0,
        g.cl_value == 0,
        all_digits(ds),
        digits_value(ds) < READ_LIMIT,
    ensures
        run(g, ds) == (Framer {
            cl_value: digits_value(ds) as u64,
            cl_digits: g.cl_digits || ds.len() > 0,
            col: col_after(g.col, ds.len()),
            ..g
        }),
    decreases ds.len(),
{
    if ds.len() > 0 {
        let p = ds.drop_last();
        assert(all_digits(p)) by {
            assert forall|i: int| 0 <= i < p.len() implies 48 <= #[trigger] p[i] <= 57 by {
                assert(p[i] == ds[i]);
            }
        }
        assert(digits_value(p) <= digits_value(ds));
        lemma_length_digits(g, p);
        let b = ds.last();
        assert(48 <= b <= 57) by {
            assert(ds[ds.len() - 1] == b);
        }
    }
}

/// Each further decimal digit multiplies the value so far by ten.
proof fn lemma_digits_push(s: Seq<u8>, d: u8)
    ensures
        digits_value(s.push(d)) == digits_value(s) * 10 + (d - 48) as nat,
{
    assert(s.push(d).drop_last() =~= s);
}

/// "HTTP/1.1 " moves the framer past the first space of the status line.
proof fn lemma_status_prefix()
    ensures
        run(initial_framer(), http11_prefix()) == (Framer { col: 9, seen_space: true, ..initial_framer() }),
{
    let f = initial_framer();
    let s0 = Seq::<u8>::empty();
    let s1 = s0.push(72u8);
    lemma_run_push(f, s0, 72u8);
    assert(run(f, s1) == (Framer { col: 1, ..f }));
    let s2 = s1.push(84u8);
    lemma_run_push(f, s1, 84u8);
    assert(run(f, s2) == (Framer { col: 2, ..f }));
    let s3 = s2.push(84u8);
    lemma_run_push(f, s2, 84u8);
    assert(run(f, s3) == (Framer { col: 3, ..f }));
    let s4 = s3.push(80u8);
    lemma_run_push(f, s3, 80u8);
    assert(run(f, s4) == (Framer { col: 4, ..f }));
    let s5 = s4.push(47u8);
    lemma_run_push(f, s4, 47u8);
    assert(run(f, s5) == (Framer { col: 5, ..f }));
    let s6 = s5.push(49u8);
    lemma_run_push(f, s5, 49u8);
    assert(run(f, s6) == (Framer { col: 6, ..f }));
    let s7 = s6.push(46u8);
    lemma_run_push(f, s6, 46u8);
    assert(run(f, s7) == (Framer { col: 7, ..f }));
    let s8 = s7.push(49u8);
    lemma_run_push(f, s7, 49u8);
    assert(run(f, s8) == (Framer { col: 8, ..f }));
    let s9 = s8.push(32u8);
    lemma_run_push(f, s8, 32u8);
    assert(run(f, s9) == (Framer { col: 9, seen_space: true, ..f }));
    assert(s9 =~= http11_prefix());
}

/// Three decimal digits after the first space are the status code.
proof fn lemma_status_code(f: Framer, code: Seq<u8>)
    requires
        f.phase == Phase::Head,
        f.in_status_line,
        f.seen_space,
        f.crlf_run == 0,
        f.status == 0,
        f.status_digits == 0,
        f.col < 900,
        code.len() == 3,
        all_digits(code),
    ensures
        digits_value(code) < 1000,
        run(f, code) == (Framer {
            status: digits_value(code) as u64,
            status_digits: 3,
            col: (f.col + 3) as u64,
            ..f
        }),
{
    let c0 = code[0];
    let c1 = code[1];
    let c2 = code[2];
    assert(48 <= c0 <= 57 && 48 <= c1 <= 57 && 48 <= c2 <= 57);
    let q0 = Seq::<u8>::empty();
    let q1 = q0.push(c0);
    let q2 = q1.push(c1);
    let q3 = q2.push(c2);
    assert(q3 =~= code);
    lemma_digits_push(q0, c0);
    lemma_digits_push(q1, c1);
    lemma_digits_push(q2, c2);
    assert(digits_value(q0) == 0);
    lemma_run_push(f, q0, c0);
    assert(run(f, q1) == (Framer { status: digits_value(q1) as u64, status_digits: 1, col: (f.col + 1) as u64, ..f }));
    lemma_run_push(f, q1, c1);
    assert(run(f, q2) == (Framer { status: digits_value(q2) as u64, status_digits: 2, col: (f.col + 2) as u64, ..f }));
    lemma_run_push(f, q2, c2);
    assert(run(f, q3) == (Framer { status: digits_value(q3) as u64, status_digits: 3, col: (f.col + 3) as u64, ..f }));
}

/// " OK" and CR LF end the status line; the next line starts afresh.
proof fn lemma_status_line_end(f: Framer)
    requires
        f.phase == Phase::Head,
        f.in_status_line,
        f.seen_space,
        f.status_digits == 3,
        f.crlf_run == 0,
        f.col < 900,
        f.name_cl,
        f.name_te,
        f.value == HeaderValue::Other,
    ensures
        run(f, ok_line_end()) == (Framer { crlf_run: 2, in_status_line: false, col: 0, ..f }),
{
    let s0 = Seq::<u8>::empty();
    let s1 = s0.push(32u8);
    lemma_run_push(f, s0, 32u8);
    assert(run(f, s1) == (Framer { col: (f.col + 1) as u64, ..f }));
    let s2 = s1.push(79u8);
    lemma_run_push(f, s1, 79u8);
    assert(run(f, s2) == (Framer { col: (f.col + 2) as u64, ..f }));
    let s3 = s2.push(75u8);
    lemma_run_push(f, s2, 75u8);
    assert(run(f, s3) == (Framer { col: (f.col + 3) as u64, ..f }));
    let s4 = s3.push(13u8);
    lemma_run_push(f, s3, 13u8);
    assert(run(f, s4) == (Framer { crlf_run: 1, col: (f.col + 4) as u64, ..f }));
    let s5 = s4.push(10u8);
    lemma_run_push(f, s4, 10u8);
    assert(run(f, s5) == (Framer { crlf_run: 2, in_status_line: false, col: 0, ..f }));
    assert(s5 =~= ok_line_end());
}

/// "Content-Length: " at the start of a header line opens its value.
#[verifier::rlimit(60)]
proof fn lemma_content_length_name(f: Framer)
    requires
        f.phase == Phase::Head,
        !f.in_status_line,
        f.crlf_run == 2,
        f.col == 0,
        f.name_cl,
        f.name_te,
        f.value == HeaderValue::Other,
    ensures
        run(f, content_length_prefix()) == (Framer {
            crlf_run: 0,
            col: 16,
            name_cl: false,
            name_te: false,
            value: HeaderValue::ContentLength,
            cl_seen: true,
            cl_ok: true,
            cl_digits: false,
            cl_value: 0,
            ..f
        }),
{
    let s0 = Seq::<u8>::empty();
    let s1 = s0.push(67u8);
    lemma_run_push(f, s0, 67u8);
    assert(run(f, s1) == (Framer { crlf_run: 0, col: 1, name_te: false, ..f }));
    let s2 = s1.push(111u8);
    lemma_run_push(f, s1, 111u8);
    assert(run(f, s2) == (Framer { crlf_run: 0, col: 2, name_te: false, ..f }));
    let s3 = s2.push(110u8);
    lemma_run_push(f, s2, 110u8);
    assert(run(f, s3) == (Framer { crlf_run: 0, col: 3, name_te: false, ..f }));
    let s4 = s3.push(116u8);
    lemma_run_push(f, s3, 116u8);
    assert(run(f, s4) == (Framer { crlf_run: 0, col: 4, name_te: false, ..f }));
    let s5 = s4.push(101u8);
    lemma_run_push(f, s4, 101u8);
    assert(run(f, s5) == (Framer { crlf_run: 0, col: 5, name_te: false, ..f }));
    let s6 = s5.push(110u8);
    lemma_run_push(f, s5, 110u8);
    assert(run(f, s6) == (Framer { crlf_run: 0, col: 6, name_te: false, ..f }));
    let s7 = s6.push(116u8);
    lemma_run_push(f, s6, 116u8);
    assert(run(f, s7) == (Framer { crlf_run: 0, col: 7, name_te: false, ..f }));
    let s8 = s7.push(45u8);
    lemma_run_push(f, s7, 45u8);
    assert(run(f, s8) == (Framer { crlf_run: 0, col: 8, name_te: false, ..f }));
    let s9 = s8.push(76u8);
    lemma_run_push(f, s8, 76u8);
    assert(run(f, s9) == (Framer { crlf_run: 0, col: 9, name_te: false, ..f }));
    let s10 = s9.push(101u8);
    lemma_run_push(f, s9, 101u8);
    assert(run(f, s10) == (Framer { crlf_run: 0, col: 10, name_te: false, ..f }));
    let s11 = s10.push(110u8);
    lemma_run_push(f, s10, 110u8);
    assert(run(f, s11) == (Framer { crlf_run: 0, col: 11, name_te: false, ..f }));
    let s12 = s11.push(103u8);
    lemma_run_push(f, s11, 103u8);
    assert(run(f, s12) == (Framer { crlf_run: 0, col: 12, name_te: false, ..f }));
    let s13 = s12.push(116u8);
    lemma_run_push(f, s12, 116u8);
    assert(run(f, s13) == (Framer { crlf_run: 0, col: 13, name_te: false, ..f }));
    let s14 = s13.push(104u8);
    lemma_run_push(f, s13, 104u8);
    assert(run(f, s14) == (Framer { crlf_run: 0, col: 14, name_te: false, ..f }));
    let s15 = s14.push(58u8);
    lemma_run_push(f, s14, 58u8);
    assert(run(f, s15) == (Framer { crlf_run: 0, col: 15, name_cl: false, name_te: false, value: HeaderValue::ContentLength, cl_seen: true, cl_ok: true, cl_digits: false, cl_value: 0, ..f }));
    let s16 = s15.push(32u8);
    lemma_run_push(f, s15, 32u8);
    assert(run(f, s16) == (Framer { crlf_run: 0, col: 16, name_cl: false, name_te: false, value: HeaderValue::ContentLength, cl_seen: true, cl_ok: true, cl_digits: false, cl_value: 0, ..f }));
    assert(s16 =~= content_length_prefix());
}


/// CR LF CR LF after a Content-Length value ends the head: with a status
/// code from 200 up, other than 204 and 304, and no Transfer-Encoding, the
/// body that follows is exactly as long as the value says.
proof fn lemma_head_close(f: Framer)
    requires
        f.phase == Phase::Head,
        !f.in_status_line,
        f.value == HeaderValue::ContentLength,
        f.crlf_run == 0,
        f.status_digits == 3,
        200 <= f.status,
        f.status != 204,
        f.status != 304,
        !f.te_seen,
        f.cl_seen,
        f.cl_ok,
        f.cl_digits,
    ensures
        run(f, blank_line_end().drop_last()).phase == Phase::Head,
        f.cl_value == 0 ==> run(f, blank_line_end()).phase == Phase::Done,
        f.cl_value > 0 ==> run(f, blank_line_end()).phase == Phase::Fixed,
        f.cl_value > 0 ==> run(f, blank_line_end()).remaining == f.cl_value,
{
    let c = if f.col < 1000 { (f.col + 1) as u64 } else { f.col };
    let s0 = Seq::<u8>::empty();
    let s1 = s0.push(13u8);
    lemma_run_push(f, s0, 13u8);
    assert(run(f, s1) == (Framer { crlf_run: 1, col: c, ..f }));
    let s2 = s1.push(10u8);
    lemma_run_push(f, s1, 10u8);
    let g2 = Framer {
        crlf_run: 2,
        in_status_line: false,
        col: 0,
        name_cl: true,
        name_te: true,
        value: HeaderValue::Other,
        ..f
    };
    assert(run(f, s2) == g2);
    let s3 = s2.push(13u8);
    lemma_run_push(f, s2, 13u8);
    let g3 = Framer { crlf_run: 3, col: 1, name_cl: false, name_te: false, ..g2 };
    assert(run(f, s3) == g3);
    let s4 = s3.push(10u8);
    lemma_run_push(f, s3, 10u8);
    assert(run(f, s4) == head_end(g3));
    assert(s4 =~= blank_line_end());
    assert(s3 =~= blank_line_end().drop_last());
}

/// A response whose head has a status code from 200 up (other than 204 and
/// 304, which have no body) and "Content-Length: N" with N in decimal
/// completes exactly after N body bytes, whatever they are, and at no
/// shorter prefix: the body is read in full and nothing after it.
pub proof fn lemma_content_length_framing(code: Seq<u8>, ds: Seq<u8>, body: Seq<u8>)
    requires
        code.len() == 3,
        all_digits(code),
        200 <= digits_value(code),
        digits_value(code) != 204,
        digits_value(code) != 304,
        1 <= ds.len(),
        all_digits(ds),
        digits_value(ds) < READ_LIMIT,
        body.len() == digits_value(ds),
    ensures
        first_response(content_length_head(code, ds) + body),
{
    let f0 = initial_framer();
    let p = http11_prefix();
    let e = ok_line_end();
    let c = content_length_prefix();
    let b = blank_line_end();
    let x1 = p + code;
    let x2 = x1 + e;
    let x3 = x2 + c;
    let x4 = x3 + ds;
    let head = x4 + b;
    assert(head == content_length_head(code, ds));
    lemma_status_prefix();
    lemma_run_append(f0, p, code);
    lemma_status_code(run(f0, p), code);
    lemma_run_append(f0, x1, e);
    lemma_status_line_end(run(f0, x1));
    lemma_run_append(f0, x2, c);
    lemma_content_length_name(run(f0, x2));
    lemma_run_append(f0, x3, ds);
    lemma_length_digits(run(f0, x3), ds);
    let f5 = run(f0, x4);
    lemma_run_append(f0, x4, b);
    lemma_head_close(f5);
    let f6 = run(f0, head);
    let full = head + body;
    let last = full.len() - 1;
    lemma_run_append(f0, head, body);
    if body.len() == 0 {
        assert(body =~= Seq::<u8>::empty());
        assert(run(f6, body) == f6);
        assert(full.take(last) =~= x4 + b.drop_last());
        lemma_run_append(f0, x4, b.drop_last());
        assert(run(f0, full.take(last)).phase == Phase::Head);
    } else {
        lemma_fixed_body(f6, body);
        assert(full.take(last) =~= head + body.drop_last());
        lemma_run_append(f0, head, body.drop_last());
        if body.len() > 1 {
            lemma_fixed_body(f6, body.drop_last());
        } else {
            assert(body.drop_last() =~= Seq::<u8>::empty());
        }
        assert(run(f0, full.take(last)).phase == Phase::Fixed);
    }
    assert(completes_response(full));
    assert forall|k: int| 0 <= k < full.len() implies !completes_response(#[trigger] full.take(k)) by {
        if completes_response(full.take(k)) {
            lemma_completion_persists(full, k, last);
        }
    }
}


fn lower_byte(b: u8) -> (r: u8)
    ensures
        r == ascii_lower(b),
{
    if UPPER_A <= b && b <= UPPER_Z {
        b + 32
    } else {
        b
    }
}

fn content_length_byte(i: u64) -> (r: u8)
    requires
        i < 15,
    ensures
        r == content_length_name()[i as int],
{
    match i {
        0 => 99u8,
        1 => 111u8,
        2 => 110u8,
        3 => 116u8,
        4 => 101u8,
        5 => 110u8,
        6 => 116u8,
        7 => 45u8,
        8 => 108u8,
        9 => 101u8,
        10 => 110u8,
        11 => 103u8,
        12 => 116u8,
        13 => 104u8,
        14 => 58u8,
        _ => 58u8,
    }
}

fn transfer_encoding_byte(i: u64) -> (r: u8)
    requires
        i < 18,
    ensures
        r == transfer_encoding_name()[i as int],
{
    match i {
        0 => 116u8,
        1 => 114u8,
        2 => 97u8,
        3 => 110u8,
        4 => 115u8,
        5 => 102u8,
        6 => 101u8,
        7 => 114u8,
        8 => 45u8,
        9 => 101u8,
        10 => 110u8,
        11 => 99u8,
        12 => 111u8,
        13 => 100u8,
        14 => 105u8,
        15 => 110u8,
        16 => 103u8,
        17 => 58u8,
        _ => 58u8,
    }
}

fn chunked_byte(i: u64) -> (r: u8)
    requires
        i < 7,
    ensures
        r == chunked_name()[i as int],
{
    match i {
        0 => 99u8,
        1 => 104u8,
        2 => 117u8,
        3 => 110u8,
        4 => 107u8,
        5 => 101u8,
        6 => 100u8,
        _ => 100u8,
    }
}

fn crlf_after(run: u8, b: u8) -> (r: u8)
    requires
        run < 4,
    ensures
        r == crlf_next(run, b),
{
    if b == CR {
        if run == 0 || run == 2 {
            run + 1
        } else {
            1
        }
    } else if b == LF {
        if run == 1 || run == 3 {
            run + 1
        } else {
            0
        }
    } else {
        0
    }
}

fn status_next(f: Framer, b: u8) -> (r: Framer)
    requires
        f.status < 1000,
    ensures
        r == status_step(f, b),
{
    if !f.seen_space {
        if b == SP {
            Framer { seen_space: true, ..f }
        } else {
            f
        }
    } else if f.status_digits < 3 {
        if DIGIT_ZERO <= b && b <= DIGIT_NINE {
            Framer { status: f.status * 10 + (b - DIGIT_ZERO) as u64, status_digits: f.status_digits + 1, ..f }
        } else {
            Framer { status_digits: 4, ..f }
        }
    } else {
        f
    }
}

fn header_next(f: Framer, b: u8) -> (r: Framer)
    requires
        f.cl_value <= READ_LIMIT * 10 + 9,
        f.te_match < 7,
    ensures
        r == header_step(f, b),
{
    match f.value {
        HeaderValue::Other => {
            let lb = lower_byte(b);
            let cl = f.name_cl && f.col < 15 && lb == content_length_byte(f.col);
            let te = f.name_te && f.col < 18 && lb == transfer_encoding_byte(f.col);
            if cl && f.col == 14 {
                Framer {
                    name_cl: false,
                    name_te: false,
                    value: HeaderValue::ContentLength,
                    cl_seen: true,
                    cl_ok: true,
                    cl_digits: false,
                    cl_value: 0,
                    ..f
                }
            } else if te && f.col == 17 {
                Framer {
                    name_cl: false,
                    name_te: false,
                    value: HeaderValue::TransferEncoding,
                    te_seen: true,
                    te_match: 0,
                    ..f
                }
            } else {
                Framer { name_cl: cl, name_te: te, ..f }
            }
        },
        HeaderValue::ContentLength => {
            if DIGIT_ZERO <= b && b <= DIGIT_NINE {
                let v = if f.cl_value >= READ_LIMIT as u64 {
                    f.cl_value
                } else {
                    f.cl_value * 10 + (b - DIGIT_ZERO) as u64
                };
                Framer { cl_digits: true, cl_value: v, ..f }
            } else if b == SP || b == HT || b == CR {
                f
            } else {
                Framer { cl_ok: false, ..f }
            }
        },
        HeaderValue::TransferEncoding => {
            let lb = lower_byte(b);
            if lb == chunked_byte(f.te_match) {
                if f.te_match == 6 {
                    Framer { te_chunked: true, te_match: 0, ..f }
                } else {
                    Framer { te_match: f.te_match + 1, ..f }
                }
            } else if lb == LOWER_C {
                Framer { te_match: 1, ..f }
            } else {
                Framer { te_match: 0, ..f }
            }
        },
    }
}

fn initial() -> (r: Framer)
    ensures
        r == initial_framer(),
{
    Framer {
        phase: Phase::Head,
        crlf_run: 0,
        in_status_line: true,
        col: 0,
        seen_space: false,
        status: 0,
        status_digits: 0,
        name_cl: true,
        name_te: true,
        value: HeaderValue::Other,
        cl_seen: false,
        cl_ok: false,
        cl_digits: false,
        cl_value: 0,
        te_seen: false,
        te_match: 0,
        te_chunked: false,
        remaining: 0,
        part: ChunkPart::Size,
        size: 0,
        size_digits: false,
    }
}

fn head_end_next(f: Framer) -> (r: Framer)
    ensures
        r == head_end(f),
{
    let code_ok = f.status_digits == 3;
    if code_ok && 100 <= f.status && f.status < 200 {
        initial()
    } else if code_ok && (f.status == 204 || f.status == 304) {
        Framer { phase: Phase::Done, ..f }
    } else if f.te_seen {
        if f.te_chunked {
            Framer { phase: Phase::Chunked, part: ChunkPart::Size, size: 0, size_digits: false, ..f }
        } else {
            Framer { phase: Phase::UntilClose, ..f }
        }
    } else if f.cl_seen && f.cl_ok && f.cl_digits {
        if f.cl_value == 0 {
            Framer { phase: Phase::Done, ..f }
        } else {
            Framer { phase: Phase::Fixed, remaining: f.cl_value, ..f }
        }
    } else {
        Framer { phase: Phase::UntilClose, ..f }
    }
}

fn head_next(f: Framer, b: u8) -> (r: Framer)
    requires
        f.crlf_run < 4,
        f.status < 1000,
        f.cl_value <= READ_LIMIT * 10 + 9,
        f.te_match < 7,
    ensures
        r == head_step(f, b),
{
    let run = crlf_after(f.crlf_run, b);
    if run == 4 {
        head_end_next(f)
    } else if b == LF {
        Framer {
            crlf_run: run,
            in_status_line: false,
            col: 0,
            name_cl: true,
            name_te: true,
            value: HeaderValue::Other,
            ..f
        }
    } else {
        let g = if f.in_status_line {
            status_next(f, b)
        } else {
            header_next(f, b)
        };
        let col = if f.col < 1000 {
            f.col + 1
        } else {
            f.col
        };
        Framer { crlf_run: run, col: col, ..g }
    }
}

fn hex_of(b: u8) -> (v: u64)
    requires
        is_hex(b),
    ensures
        v == hex_value(b),
        v < 16,
{
    if DIGIT_ZERO <= b && b <= DIGIT_NINE {
        (b - DIGIT_ZERO) as u64
    } else if LOWER_A <= b && b <= LOWER_F {
        (b - LOWER_A + 10) as u64
    } else {
        (b - UPPER_A + 10) as u64
    }
}

fn chunk_next(f: Framer, b: u8) -> (r: Framer)
    requires
        f.size <= READ_LIMIT * 16 + 15,
    ensures
        r == chunk_step(f, b),
{
    let broken = Framer { phase: Phase::UntilClose, ..f };
    match f.part {
        ChunkPart::Size => {
            let hex = (DIGIT_ZERO <= b && b <= DIGIT_NINE) || (LOWER_A <= b && b <= LOWER_F) || (UPPER_A <= b && b <= UPPER_F);
            if hex {
                let d = hex_of(b);
                let s = if f.size >= READ_LIMIT as u64 {
                    f.size
                } else {
                    f.size * 16 + d
                };
                Framer { size: s, size_digits: true, ..f }
            } else if f.size_digits && (b == SEMICOLON || b == SP || b == HT) {
                Framer { part: ChunkPart::Ext, ..f }
            } else if f.size_digits && b == CR {
                Framer { part: ChunkPart::SizeLf, ..f }
            } else {
                broken
            }
        },
        ChunkPart::Ext => if b == CR {
            Framer { part: ChunkPart::SizeLf, ..f }
        } else {
            f
        },
        ChunkPart::SizeLf => if b == LF {
            if f.size == 0 {
                Framer { part: ChunkPart::TrailerStart, ..f }
            } else {
                Framer { part: ChunkPart::Data, remaining: f.size, ..f }
            }
        } else {
            broken
        },
        ChunkPart::Data => if f.remaining <= 1 {
            Framer { part: ChunkPart::DataCr, remaining: 0, ..f }
        } else {
            Framer { remaining: f.remaining - 1, ..f }
        },
        ChunkPart::DataCr => if b == CR {
            Framer { part: ChunkPart::DataLf, ..f }
        } else {
            broken
        },
        ChunkPart::DataLf => if b == LF {
            Framer { part: ChunkPart::Size, size: 0, size_digits: false, ..f }
        } else {
            broken
        },
        ChunkPart::TrailerStart => if b == CR {
            Framer { part: ChunkPart::TrailerStartLf, ..f }
        } else {
            Framer { part: ChunkPart::TrailerLine, ..f }
        },
        ChunkPart::TrailerStartLf => if b == LF {
            Framer { phase: Phase::Done, ..f }
        } else {
            broken
        },
        ChunkPart::TrailerLine => if b == CR {
            Framer { part: ChunkPart::TrailerLineLf, ..f }
        } else {
            f
        },
        ChunkPart::TrailerLineLf => if b == LF {
            Framer { part: ChunkPart::TrailerStart, ..f }
        } else if b == CR {
            f
        } else {
            Framer { part: ChunkPart::TrailerLine, ..f }
        },
    }
}

/// The bounds every framer reached from the initial one keeps.
pub open spec fn framer_bounded(f: Framer) -> bool {
    &&& f.crlf_run < 4
    &&& f.status < 1000
    &&& f.status_digits <= 4
    &&& (f.status_digits <= 3 ==> f.status < pow10(f.status_digits))
    &&& f.cl_value <= READ_LIMIT * 10 + 9
    &&& f.te_match < 7
    &&& f.size <= READ_LIMIT * 16 + 15
}

/// 10 to the power `n`, for `n` up to 3.
pub open spec fn pow10(n: u64) -> u64 {
    if n == 0 {
        1
    } else if n == 1 {
        10
    } else if n == 2 {
        100
    } else {
        1000
    }
}

/// Every step keeps the bounds.
pub proof fn lemma_step_bounded(f: Framer, b: u8)
    requires
        framer_bounded(f),
    ensures
        framer_bounded(f.step(b)),
{
}

impl Framer {
    /// The framer before any byte of a response.
    pub fn new() -> (f: Framer)
        ensures
            f == initial_framer(),
    {
        initial()
    }

    /// Advances the framer over one byte.
    pub fn feed_byte(&mut self, b: u8)
        requires
            framer_bounded(*old(self)),
        ensures
            *final(self) == old(self).step(b),
            framer_bounded(*final(self)),
    {
        let f = *self;
        proof {
            lemma_step_bounded(f, b);
        }
        *self = match f.phase {
            Phase::Head => head_next(f, b),
            Phase::Fixed => {
                if f.remaining <= 1 {
                    Framer { phase: Phase::Done, remaining: 0, ..f }
                } else {
                    Framer { remaining: f.remaining - 1, ..f }
                }
            },
            Phase::Chunked => chunk_next(f, b),
            Phase::UntilClose => f,
            Phase::Done => f,
        };
    }
}


/// What one byte-sized read of the stream gave.
pub enum ResponseEvent {
    /// One byte.
    Byte(u8),
    /// The end of the stream.
    End,
    /// A failure, with its message.
    Failed(String),
}

/// After one read: go on with the updated collector, or stop.
pub enum ResponseStep {
    More(ResponseCollector),
    Done(ReadOutcome),
}

/// The bytes gathered so far of one HTTP response: fewer than `READ_LIMIT`,
/// with no prefix of them (all of them included) completing a response.
pub struct ResponseCollector {
    buf: Vec<u8>,
    framer: Framer,
}

impl View for ResponseCollector {
    type V = Seq<u8>;

    closed spec fn view(&self) -> Seq<u8> {
        self.buf@
    }
}

impl ResponseCollector {
    #[verifier::type_invariant]
    spec fn incomplete(self) -> bool {
        &&& self.buf@.len() < READ_LIMIT
        &&& self.framer == run(initial_framer(), self.buf@)
        &&& framer_bounded(self.framer)
        &&& forall|k: int| 0 <= k <= self.buf@.len() ==> !completes_response(#[trigger] self.buf@.take(k))
    }

    /// A collector that has gathered nothing yet.
    pub fn new() -> (c: ResponseCollector)
        ensures
            c@ == Seq::<u8>::empty(),
    {
        let c = ResponseCollector { buf: Vec::new(), framer: Framer::new() };
        assert forall|k: int| 0 <= k <= c.buf@.len() implies !completes_response(#[trigger] c.buf@.take(k)) by {
            assert(c.buf@.take(k) =~= Seq::<u8>::empty());
        }
        c
    }

    /// Takes in the result of one single-byte read. A byte that brings the
    /// total to `READ_LIMIT` ends the read as too large; a byte that completes
    /// the response ends it with the response; the end of the stream ends it
    /// with the bytes gathered; a failure ends it with the bytes gathered if
    /// there are any, and as a failure otherwise. No prefix of what was
    /// gathered before completes a response, so a response handed back ends
    /// at the first point where one is complete.
    pub fn feed(self, event: ResponseEvent) -> (step: ResponseStep)
        ensures
            self@.len() < READ_LIMIT,
            forall|k: int| 0 <= k <= self@.len() ==> !completes_response(#[trigger] self@.take(k)),
            match event {
                ResponseEvent::Byte(b) => if self@.len() + 1 >= READ_LIMIT {
                    step matches ResponseStep::Done(ReadOutcome::TooLarge)
                } else if completes_response(self@.push(b)) {
                    step matches ResponseStep::Done(ReadOutcome::Complete(x)) && x@ == self@.push(b)
                } else {
                    step matches ResponseStep::More(next) && next@ == self@.push(b)
                },
                ResponseEvent::End => {
                    step matches ResponseStep::Done(ReadOutcome::Complete(x)) && x@ == self@
                },
                ResponseEvent::Failed(msg) => if self@.len() > 0 {
                    step matches ResponseStep::Done(ReadOutcome::Complete(x)) && x@ == self@
                } else {
                    step matches ResponseStep::Done(ReadOutcome::Failed(m)) && m@ == msg@
                },
            },
    {
        proof {
            use_type_invariant(&self);
        }
        let ResponseCollector { buf, framer } = self;
        match event {
            ResponseEvent::Byte(b) => {
                if buf.len() + 1 >= READ_LIMIT {
                    return ResponseStep::Done(ReadOutcome::TooLarge);
                }
                let ghost old_buf = buf@;
                let mut buf = buf;
                let mut framer = framer;
                buf.push(b);
                framer.feed_byte(b);
                proof {
                    lemma_run_push(initial_framer(), old_buf, b);
                }
                if framer.phase == Phase::Done {
                    ResponseStep::Done(ReadOutcome::Complete(buf))
                } else {
                    assert forall|k: int| 0 <= k <= buf@.len() implies !completes_response(
                        #[trigger] buf@.take(k),
                    ) by {
                        if k < buf@.len() {
                            assert(buf@.take(k) =~= old_buf.take(k));
                        } else {
                            assert(buf@.take(k) =~= buf@);
                        }
                    }
                    ResponseStep::More(ResponseCollector { buf, framer })
                }
            },
            ResponseEvent::End => ResponseStep::Done(ReadOutcome::Complete(buf)),
            ResponseEvent::Failed(msg) => {
                if buf.len() > 0 {
                    ResponseStep::Done(ReadOutcome::Complete(buf))
                } else {
                    ResponseStep::Done(ReadOutcome::Failed(msg))
                }
            },
        }
    }
}

} // verus!
