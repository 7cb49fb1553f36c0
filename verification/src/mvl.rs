use crate::text::{decode_lossy, lossy_utf8};
use vstd::prelude::*;
use vstd::slice::slice_subrange;
use vstd::utf8::{decode_utf8, valid_utf8};

verus! {

/// A string as the MVL runtime lays it out (pointer, length, capacity,
/// reference count). `ptr` holds the bytes that the pointer reaches, `None`
/// standing for a null pointer.
pub struct MvlString {
    pub ptr: Option<Vec<u8>>,
    pub len: u64,
    pub cap: u64,
    pub refcount: u64,
}

/// The bytes a runtime string holds: none for a zero length or a null
/// pointer; otherwise the first `len` bytes behind the pointer.
pub open spec fn mvl_bytes(m: MvlString) -> Seq<u8> {
    match m.ptr {
        None => Seq::empty(),
        Some(bytes) => if m.len == 0 {
            Seq::empty()
        } else {
            bytes@.subrange(0, m.len as int)
        },
    }
}

/// The text a runtime string stands for: empty for a zero length or a null
/// pointer; otherwise its first `len` bytes, decoded with invalid UTF-8
/// replaced.
pub open spec fn mvl_text(m: MvlString) -> Seq<char> {
    match m.ptr {
        None => Seq::empty(),
        Some(bytes) => if m.len == 0 {
            Seq::empty()
        } else {
            lossy_utf8(bytes@.subrange(0, m.len as int))
        },
    }
}

/// Reads a runtime string handed in by the caller, which keeps ownership of it.
pub fn read_str(s: Option<&MvlString>) -> (r: String)
    requires
        s matches Some(m) ==> (m.ptr matches Some(bytes) ==> m.len <= bytes@.len()),
    ensures
        s is None ==> r@ == Seq::<char>::empty(),
        s matches Some(m) ==> r@ == mvl_text(*m),
        s matches Some(m) ==> (valid_utf8(mvl_bytes(*m)) ==> r@ == decode_utf8(mvl_bytes(*m))),
        s matches Some(m) ==> (m.ptr matches Some(bytes) ==> (0 < m.len ==> r@ == lossy_utf8(
            bytes@.subrange(0, m.len as int),
        ))),
{
    match s {
        None => String::new(),
        Some(m) => {
            if m.len == 0 {
                return String::new();
            }
            match &m.ptr {
                None => String::new(),
                Some(bytes) => {
                    let avail = bytes.len();
                    assert(m.len <= avail);
                    let len = m.len as usize;
                    decode_lossy(slice_subrange(bytes.as_slice(), 0, len))
                },
            }
        },
    }
}

/// A runtime string stands for its first `len` bytes: with a non-null
/// pointer and `0 < len`, its bytes are the first `len` behind the pointer
/// and its text is their decoding; the capacity and the reference count play
/// no part.
pub proof fn lemma_text_is_first_len_bytes(m: MvlString, bytes: Vec<u8>)
    requires
        m.ptr == Some(bytes),
        0 < m.len <= bytes@.len(),
    ensures
        mvl_bytes(m) == bytes@.subrange(0, m.len as int),
        mvl_bytes(m).len() == m.len,
        mvl_text(m) == lossy_utf8(bytes@.subrange(0, m.len as int)),
{
}

/// Two runtime strings with the same pointer and length stand for the same
/// bytes and text, whatever their capacities and reference counts.
pub proof fn lemma_text_ignores_capacity(m1: MvlString, m2: MvlString)
    requires
        m1.ptr == m2.ptr,
        m1.len == m2.len,
        m1.ptr matches Some(b) ==> m1.len <= b@.len(),
    ensures
        mvl_bytes(m1) == mvl_bytes(m2),
        mvl_text(m1) == mvl_text(m2),
{
}

} // verus!
