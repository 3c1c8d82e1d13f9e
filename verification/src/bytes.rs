//! Byte-level primitives: little-endian field reads, byte-range extraction,
//! C-style string scanning and UTF-8 decoding.
//!
//! Contracts are stated over `Seq<u8>` views, with the little-endian value
//! functions of `vstd::bytes` and the UTF-8 functions of `vstd::utf8` as the
//! mathematical reference.

use vstd::bytes::{
    spec_u16_from_le_bytes, spec_u32_from_le_bytes, spec_u64_from_le_bytes, u16_from_le_bytes,
    u32_from_le_bytes, u64_from_le_bytes,
};
use vstd::prelude::*;
use vstd::slice::{slice_index_get, slice_subrange, slice_to_vec};
use vstd::utf8::{decode_utf8, valid_utf8};

verus! {

/// The `u16` stored in little-endian order at `off` in `s`.
pub open spec fn le16_at(s: Seq<u8>, off: int) -> u16 {
    spec_u16_from_le_bytes(s.subrange(off, off + 2))
}

/// The `u32` stored in little-endian order at `off` in `s`.
pub open spec fn le32_at(s: Seq<u8>, off: int) -> u32 {
    spec_u32_from_le_bytes(s.subrange(off, off + 4))
}

/// The `u64` stored in little-endian order at `off` in `s`.
pub open spec fn le64_at(s: Seq<u8>, off: int) -> u64 {
    spec_u64_from_le_bytes(s.subrange(off, off + 8))
}

/// Reads the little-endian `u16` at `off`.
pub fn read_u16(b: &[u8], off: usize) -> (r: u16)
    requires
        off + 2 <= b@.len(),
    ensures
        r == le16_at(b@, off as int),
{
    let _n: usize = b.len();
    u16_from_le_bytes(slice_subrange(b, off, off + 2))
}

/// Reads the little-endian `u32` at `off`.
pub fn read_u32(b: &[u8], off: usize) -> (r: u32)
    requires
        off + 4 <= b@.len(),
    ensures
        r == le32_at(b@, off as int),
{
    let _n: usize = b.len();
    u32_from_le_bytes(slice_subrange(b, off, off + 4))
}

/// Reads the little-endian `u64` at `off`.
pub fn read_u64(b: &[u8], off: usize) -> (r: u64)
    requires
        off + 8 <= b@.len(),
    ensures
        r == le64_at(b@, off as int),
{
    let _n: usize = b.len();
    u64_from_le_bytes(slice_subrange(b, off, off + 8))
}

/// Copies the byte range `[start, end)` out of `b`.
pub fn sub_bytes(b: &[u8], start: usize, end: usize) -> (r: Vec<u8>)
    requires
        start <= end <= b@.len(),
    ensures
        r@ == b@.subrange(start as int, end as int),
{
    slice_to_vec(slice_subrange(b, start, end))
}

/// The index of the first NUL byte in `s`, or `s.len()` when none occurs.
pub open spec fn spec_nul_position(s: Seq<u8>) -> int
    decreases s.len(),
{
    if s.len() == 0 {
        0
    } else if s[0] == 0 {
        0
    } else {
        1 + spec_nul_position(s.drop_first())
    }
}

/// `spec_nul_position` is the first index holding 0, and is `s.len()` exactly
/// when `s` holds no 0 byte.
pub proof fn lemma_nul_position(s: Seq<u8>)
    ensures
        0 <= spec_nul_position(s) <= s.len(),
        forall|j: int| 0 <= j < spec_nul_position(s) ==> s[j] != 0,
        spec_nul_position(s) < s.len() ==> s[spec_nul_position(s)] == 0,
    decreases s.len(),
{
    if s.len() > 0 && s[0] != 0 {
        lemma_nul_position(s.drop_first());
        assert forall|j: int| 0 <= j < spec_nul_position(s) implies s[j] != 0 by {
            if j > 0 {
                assert(s.drop_first()[j - 1] != 0);
            }
        }
        if spec_nul_position(s) < s.len() {
            assert(s.drop_first()[spec_nul_position(s) - 1] == 0);
        }
    }
}

/// Scans `b` for its first NUL byte.
pub fn nul_position(b: &[u8]) -> (r: usize)
    ensures
        r == spec_nul_position(b@),
{
    proof {
        lemma_nul_position(b@);
    }
    let n: usize = b.len();
    let mut i: usize = 0;
    while i < n
        invariant
            0 <= i <= n,
            n == b@.len(),
            forall|j: int| 0 <= j < i ==> b@[j] != 0,
            forall|j: int| 0 <= j < spec_nul_position(b@) ==> b@[j] != 0,
            spec_nul_position(b@) < b@.len() ==> b@[spec_nul_position(b@)] == 0,
            spec_nul_position(b@) <= b@.len(),
            i <= spec_nul_position(b@),
        decreases n - i,
    {
        if *slice_index_get(b, i) == 0 {
            assert(i == spec_nul_position(b@));
            return i;
        }
        i = i + 1;
    }
    assert(i == spec_nul_position(b@));
    i
}

/// Relies on `String::from_utf8`: it succeeds exactly on valid UTF-8 input
/// and returns the decoded character sequence.
#[verifier::external_body]
pub(crate) fn bytes_to_string(v: Vec<u8>) -> (r: Option<String>)
    ensures
        r is Some <==> valid_utf8(v@),
        r matches Some(s) ==> s@ == decode_utf8(v@),
{
    String::from_utf8(v).ok()
}

} // verus!
