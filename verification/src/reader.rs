//! Little-endian scalar decoders and NUL-terminated byte-string slicing.

use vstd::prelude::*;

verus! {

/// The 16-bit little-endian value stored at offset `i` of `s`.
pub open spec fn le_u16(s: Seq<u8>, i: int) -> u16
    recommends
        0 <= i,
        i + 2 <= s.len(),
{
    (s[i] + s[i + 1] * 0x100) as u16
}

/// The 32-bit little-endian value stored at offset `i` of `s`.
pub open spec fn le_u32(s: Seq<u8>, i: int) -> u32
    recommends
        0 <= i,
        i + 4 <= s.len(),
{
    (s[i] + s[i + 1] * 0x100 + s[i + 2] * 0x1_0000 + s[i + 3] * 0x100_0000) as u32
}

/// Reads the 16-bit little-endian value at offset `pos` of `data`.
pub fn read_le_u16(data: &[u8], pos: usize) -> (r: u16)
    requires
        pos + 2 <= data@.len(),
    ensures
        r == le_u16(data@, pos as int),
{
    // Establishes that the slice's length, and so `pos + 1`, fits in usize.
    let _ = data.len();
    let b0 = *vstd::slice::slice_index_get(data, pos) as u16;
    let b1 = *vstd::slice::slice_index_get(data, pos + 1) as u16;
    b0 + b1 * 0x100
}

/// Reads the 32-bit little-endian value at offset `pos` of `data`.
pub fn read_le_u32(data: &[u8], pos: usize) -> (r: u32)
    requires
        pos + 4 <= data@.len(),
    ensures
        r == le_u32(data@, pos as int),
{
    // Establishes that the slice's length, and so `pos + 3`, fits in usize.
    let _ = data.len();
    let b0 = *vstd::slice::slice_index_get(data, pos) as u32;
    let b1 = *vstd::slice::slice_index_get(data, pos + 1) as u32;
    let b2 = *vstd::slice::slice_index_get(data, pos + 2) as u32;
    let b3 = *vstd::slice::slice_index_get(data, pos + 3) as u32;
    b0 + b1 * 0x100 + b2 * 0x1_0000 + b3 * 0x100_0000
}

/// Copies `data[start..end]` into a fresh vector.
pub fn copy_range(data: &[u8], start: usize, end: usize) -> (r: Vec<u8>)
    requires
        start <= end <= data@.len(),
    ensures
        r@ == data@.subrange(start as int, end as int),
{
    let s = vstd::slice::slice_subrange(data, start, end);
    let r = vstd::slice::slice_to_vec(s);
    r
}

/// Relies on memchr::memchr: returns the index of the first occurrence of
/// `needle` in `bytes`, or `None` when the byte does not occur.
#[verifier::external_body]
fn find_byte(needle: u8, bytes: &[u8]) -> (r: Option<usize>)
    ensures
        match r {
            Some(i) => i < bytes@.len() && bytes@[i as int] == needle && forall|j: int|
                0 <= j < i ==> bytes@[j] != needle,
            None => forall|j: int| 0 <= j < bytes@.len() ==> bytes@[j] != needle,
        },
{
    memchr::memchr(needle, bytes)
}

/// The prefix of `s` that ends just before the first zero byte, or all of
/// `s` when no zero byte is present.
pub open spec fn spec_until_first_null(s: Seq<u8>) -> Seq<u8>
    decreases s.len(),
{
    if s.len() == 0 {
        s
    } else if s[0] == 0 {
        Seq::empty()
    } else {
        seq![s[0]] + spec_until_first_null(s.skip(1))
    }
}

/// Returns the prefix of `bytes` that ends just before the first zero byte,
/// or all of `bytes` when no zero byte is present.
pub fn until_first_null(bytes: &[u8]) -> (r: &[u8])
    ensures
        r@ == spec_until_first_null(bytes@),
        r@.len() <= bytes@.len(),
{
    let n: usize = match find_byte(0, bytes) {
        Some(i) => i,
        None => bytes.len(),
    };
    let r = vstd::slice::slice_subrange(bytes, 0, n);
    proof {
        lemma_until_first_null_take(bytes@, n as int);
    }
    r
}

/// When no zero byte stands before index `n`, and either `n` is the whole
/// length or index `n` holds a zero byte, the NUL-trimmed prefix is exactly
/// the first `n` bytes.
proof fn lemma_until_first_null_take(s: Seq<u8>, n: int)
    requires
        0 <= n <= s.len(),
        forall|j: int| 0 <= j < n ==> s[j] != 0,
        n < s.len() ==> s[n] == 0,
    ensures
        spec_until_first_null(s) == s.subrange(0, n),
    decreases s.len(),
{
    if s.len() == 0 {
        assert(spec_until_first_null(s) =~= s.subrange(0, n));
    } else if s[0] == 0 {
        assert(spec_until_first_null(s) =~= s.subrange(0, n));
    } else {
        lemma_until_first_null_take(s.skip(1), n - 1);
        assert(spec_until_first_null(s) =~= s.subrange(0, n)) by {
            assert(s.skip(1).subrange(0, n - 1) =~= s.subrange(1, n));
            assert(seq![s[0]] + s.subrange(1, n) =~= s.subrange(0, n));
        }
    }
}

/// A NUL-trimmed byte string holds no zero byte, and is the whole input
/// exactly when the input holds no zero byte.
pub proof fn lemma_until_first_null_properties(s: Seq<u8>)
    ensures
        forall|j: int| 0 <= j < spec_until_first_null(s).len() ==> spec_until_first_null(s)[j] != 0,
        spec_until_first_null(s).len() <= s.len(),
        (forall|j: int| 0 <= j < s.len() ==> s[j] != 0) <==> spec_until_first_null(s) == s,
        spec_until_first_null(s) == s.subrange(0, spec_until_first_null(s).len() as int),
    decreases s.len(),
{
    if s.len() == 0 {
        assert(spec_until_first_null(s) =~= s.subrange(0, spec_until_first_null(s).len() as int));
    } else if s[0] == 0 {
        assert(spec_until_first_null(s) =~= Seq::<u8>::empty());
        assert(spec_until_first_null(s) =~= s.subrange(0, 0));
        assert(s[0] == 0);
    } else {
        lemma_until_first_null_properties(s.skip(1));
        let r = spec_until_first_null(s);
        let r1 = spec_until_first_null(s.skip(1));
        assert(r =~= seq![s[0]] + r1);
        assert forall|j: int| 0 <= j < r.len() implies r[j] != 0 by {
            if j > 0 {
                assert(r[j] == r1[j - 1]);
            }
        }
        if forall|j: int| 0 <= j < s.len() ==> s[j] != 0 {
            assert(forall|j: int| 0 <= j < s.skip(1).len() ==> s.skip(1)[j] != 0);
            assert(r =~= s);
        }
        if r == s {
            assert forall|j: int| 0 <= j < s.len() implies s[j] != 0 by {
                assert(r[j] != 0);
            }
        }
        assert(r1 =~= s.skip(1).subrange(0, r1.len() as int));
        assert(r =~= s.subrange(0, r.len() as int));
    }
}

} // verus!
