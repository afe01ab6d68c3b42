//! Byte-level primitives for the wire and storage formats: fixed-width
//! little-endian unsigned integers and length-prefixed byte strings, together
//! with the lemmas that make the two directions cancel.
use vstd::prelude::*;

verus! {

/// The four little-endian bytes of a 32-bit unsigned integer.
pub open spec fn le32(x: u32) -> Seq<u8> {
    seq![
        (x & 0xff) as u8,
        ((x >> 8) & 0xff) as u8,
        ((x >> 16) & 0xff) as u8,
        ((x >> 24) & 0xff) as u8,
    ]
}

/// The 32-bit unsigned integer read from four little-endian bytes.
pub open spec fn from_le32(b0: u8, b1: u8, b2: u8, b3: u8) -> u32 {
    (b0 as u32) | ((b1 as u32) << 8) | ((b2 as u32) << 16) | ((b3 as u32) << 24)
}

/// A byte string on the wire: a 4-byte little-endian length prefix followed
/// by the bytes themselves. Meaningful only while `s` fits the prefix, which
/// every encoder here demands.
pub open spec fn enc_bytes(s: Seq<u8>) -> Seq<u8> {
    le32(s.len() as u32) + s
}

/// Reading back the four bytes of `le32` recovers the integer.
pub proof fn lemma_from_le32_of_le32(x: u32)
    ensures
        from_le32(le32(x)[0], le32(x)[1], le32(x)[2], le32(x)[3]) == x,
{
    assert(((x & 0xff) as u8 as u32) | (((x >> 8) & 0xff) as u8 as u32) << 8 | (((x >> 16)
        & 0xff) as u8 as u32) << 16 | (((x >> 24) & 0xff) as u8 as u32) << 24 == x)
        by (bit_vector);
}

/// Reads the little-endian `u32` that starts at byte `i`.
pub fn read_u32_le(s: &[u8], i: usize) -> (r: u32)
    requires
        i + 4 <= s@.len(),
    ensures
        r == from_le32(s@[i as int], s@[i as int + 1], s@[i as int + 2], s@[i as int + 3]),
{
    let b0 = s[i];
    let b1 = s[i + 1];
    let b2 = s[i + 2];
    let b3 = s[i + 3];
    (b0 as u32) | ((b1 as u32) << 8) | ((b2 as u32) << 16) | ((b3 as u32) << 24)
}

/// Appends the four little-endian bytes of `x`.
pub fn write_u32_le(out: &mut Vec<u8>, x: u32)
    ensures
        final(out)@ == old(out)@ + le32(x),
{
    proof {
        assert(x & 0xff < 256 && (x >> 8) & 0xff < 256 && (x >> 16) & 0xff < 256 && (x >> 24)
            & 0xff < 256) by (bit_vector);
    }
    out.push((x & 0xff) as u8);
    out.push(((x >> 8) & 0xff) as u8);
    out.push(((x >> 16) & 0xff) as u8);
    out.push(((x >> 24) & 0xff) as u8);
    proof {
        assert(out@ =~= old(out)@ + le32(x));
    }
}

/// Appends the length prefix of `s` and then `s` itself.
pub fn write_bytes(out: &mut Vec<u8>, s: &Vec<u8>)
    requires
        s@.len() <= u32::MAX,
    ensures
        final(out)@ == old(out)@ + enc_bytes(s@),
{
    write_u32_le(out, s.len() as u32);
    let ghost mid = out@;
    out.extend_from_slice(s.as_slice());
    proof {
        assert forall|i: int| 0 <= i < out@.len() implies out@[i] == (mid + s@)[i] by {
            if i >= mid.len() {
                assert(cloned::<u8>(s@[i - mid.len()], out@[i]));
            }
        }
        assert(out@ =~= old(out)@ + enc_bytes(s@));
    }
}

/// Copies `len` bytes of `s` starting at `start` into a fresh vector.
pub fn read_bytes(s: &[u8], start: usize, len: usize) -> (r: Vec<u8>)
    requires
        start + len <= s@.len(),
    ensures
        r@ == s@.subrange(start as int, start as int + len),
{
    let n: usize = s.len();
    let mut r: Vec<u8> = Vec::new();
    let mut j: usize = 0;
    while j < len
        invariant
            start + len <= n,
            n == s@.len(),
            j <= len,
            r@ == s@.subrange(start as int, start as int + j),
        decreases len - j,
    {
        r.push(s[start + j]);
        j += 1;
        proof {
            assert(r@ =~= s@.subrange(start as int, start as int + j));
        }
    }
    r
}

/// Relies on `core::str::from_utf8`: it returns `Ok` exactly when the bytes
/// are valid UTF-8, the property `vstd::utf8::valid_utf8` states.
#[verifier::external_body]
pub fn utf8_check(s: &Vec<u8>) -> (r: bool)
    ensures
        r == vstd::utf8::valid_utf8(s@),
{
    core::str::from_utf8(s.as_slice()).is_ok()
}

} // verus!
