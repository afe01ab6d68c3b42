//! The persisted record: its shape, its initialization guard, and a
//! byte-exact storage codec. The layout is `is_initialized` (1 byte, 0 or
//! 1), `rating` (1 byte), `title`, `description` (length-prefixed byte
//! strings), `funding` (4 bytes), `recipient` (length-prefixed), `entry`
//! (4 bytes); integers little-endian. Reading tolerates trailing bytes, so
//! a record written into a larger slot reads back unchanged, and a freshly
//! allocated all-zero slot reads as a record whose guard is down.
use vstd::prelude::*;

use crate::codec::{
    enc_bytes, from_le32, le32, lemma_from_le32_of_le32, read_bytes, read_u32_le, utf8_check,
    write_bytes, write_u32_le,
};
use vstd::utf8::valid_utf8;

verus! {

/// One movie-rating record, the sole occupant of its storage slot.
#[derive(Debug, Clone, PartialEq, Eq)]
pub struct MovieInfo {
    /// False until the first successful write; never reset by this handler.
    pub is_initialized: bool,
    pub rating: u8,
    /// UTF-8 bytes.
    pub title: Vec<u8>,
    /// UTF-8 bytes.
    pub description: Vec<u8>,
    pub funding: u32,
    /// UTF-8 bytes.
    pub recipient: Vec<u8>,
    pub entry: u32,
}

/// The mathematical value of a [`MovieInfo`].
pub ghost struct MovieInfoV {
    pub is_initialized: bool,
    pub rating: u8,
    pub title: Seq<u8>,
    pub description: Seq<u8>,
    pub funding: u32,
    pub recipient: Seq<u8>,
    pub entry: u32,
}

impl View for MovieInfo {
    type V = MovieInfoV;

    open spec fn view(&self) -> MovieInfoV {
        MovieInfoV {
            is_initialized: self.is_initialized,
            rating: self.rating,
            title: self.title@,
            description: self.description@,
            funding: self.funding,
            recipient: self.recipient@,
            entry: self.entry,
        }
    }
}

impl MovieInfoV {
    /// The byte-string fields fit their 4-byte length prefixes.
    pub open spec fn len_ok(self) -> bool {
        &&& self.title.len() <= u32::MAX
        &&& self.description.len() <= u32::MAX
        &&& self.recipient.len() <= u32::MAX
    }

    /// A valid record: prefixes fit and every text field is UTF-8.
    pub open spec fn wf(self) -> bool {
        &&& self.len_ok()
        &&& valid_utf8(self.title)
        &&& valid_utf8(self.description)
        &&& valid_utf8(self.recipient)
    }

    /// The record with every field at its zero value, which is what an
    /// unwritten slot reads back as.
    pub open spec fn zeroed() -> MovieInfoV {
        MovieInfoV {
            is_initialized: false,
            rating: 0,
            title: Seq::empty(),
            description: Seq::empty(),
            funding: 0,
            recipient: Seq::empty(),
            entry: 0,
        }
    }
}

/// The storage encoding of a record.
pub open spec fn spec_encode_record(r: MovieInfoV) -> Seq<u8> {
    seq![(if r.is_initialized { 1u8 } else { 0u8 }), r.rating] + enc_bytes(r.title) + enc_bytes(
        r.description,
    ) + le32(r.funding) + enc_bytes(r.recipient) + le32(r.entry)
}

/// Reads a record out of a slot's bytes. Trailing bytes beyond the encoded
/// record are ignored. `None` is every failure: a guard byte that is
/// neither 0 nor 1, a truncated buffer, a length prefix that overruns it,
/// or a text field that is not UTF-8.
pub open spec fn spec_decode_record(s: Seq<u8>) -> Option<MovieInfoV> {
    if s.len() < 10 {
        None
    } else if s[0] != 0u8 && s[0] != 1u8 {
        None
    } else {
        let t = from_le32(s[2], s[3], s[4], s[5]) as int;
        if s.len() < 10 + t {
            None
        } else {
            let title = s.subrange(6, 6 + t);
            let d = from_le32(s[6 + t], s[7 + t], s[8 + t], s[9 + t]) as int;
            if s.len() < 18 + t + d {
                None
            } else {
                let description = s.subrange(10 + t, 10 + t + d);
                let funding = from_le32(s[10 + t + d], s[11 + t + d], s[12 + t + d], s[13 + t + d]);
                let rc = from_le32(s[14 + t + d], s[15 + t + d], s[16 + t + d], s[17 + t + d]) as int;
                if s.len() < 22 + t + d + rc {
                    None
                } else {
                    let recipient = s.subrange(18 + t + d, 18 + t + d + rc);
                    let entry = from_le32(
                        s[18 + t + d + rc],
                        s[19 + t + d + rc],
                        s[20 + t + d + rc],
                        s[21 + t + d + rc],
                    );
                    if valid_utf8(title) && valid_utf8(description) && valid_utf8(recipient) {
                        Some(
                            MovieInfoV {
                                is_initialized: s[0] == 1u8,
                                rating: s[1],
                                title,
                                description,
                                funding,
                                recipient,
                                entry,
                            },
                        )
                    } else {
                        None
                    }
                }
            }
        }
    }
}

impl MovieInfo {
    /// Whether the slot already holds a record; the sole defense against a
    /// second write.
    pub fn is_initialized(&self) -> (r: bool)
        ensures
            r == self.is_initialized,
    {
        self.is_initialized
    }

    /// Encodes the record in the storage layout that [`Self::deserialize`]
    /// reads.
    pub fn serialize(&self) -> (r: Vec<u8>)
        requires
            self@.len_ok(),
        ensures
            r@ == spec_encode_record(self@),
    {
        let mut out: Vec<u8> = Vec::new();
        out.push(if self.is_initialized {
            1u8
        } else {
            0u8
        });
        out.push(self.rating);
        write_bytes(&mut out, &self.title);
        write_bytes(&mut out, &self.description);
        write_u32_le(&mut out, self.funding);
        write_bytes(&mut out, &self.recipient);
        write_u32_le(&mut out, self.entry);
        proof {
            assert(out@ =~= spec_encode_record(self@));
        }
        out
    }

    /// Reads the record held in a slot's bytes, or `None` if the bytes do
    /// not hold one.
    pub fn deserialize(s: &[u8]) -> (r: Option<MovieInfo>)
        ensures
            (match r {
                Some(m) => spec_decode_record(s@) == Some(m@) && m@.wf(),
                None => spec_decode_record(s@) is None,
            }),
    {
        let n: usize = s.len();
        if n < 10 {
            return None;
        }
        let guard = s[0];
        if guard != 0 && guard != 1 {
            return None;
        }
        let t32 = read_u32_le(s, 2);
        let t = t32 as usize;
        if t > n - 10 {
            return None;
        }
        let d32 = read_u32_le(s, 6 + t);
        let d = d32 as usize;
        let rem = n - 10 - t;
        if rem < 8 || d > rem - 8 {
            assert(s@.len() < 18 + t + d);
            return None;
        }
        let funding = read_u32_le(s, 10 + t + d);
        let rc32 = read_u32_le(s, 14 + t + d);
        let rc = rc32 as usize;
        let rem2 = n - 18 - t - d;
        if rem2 < 4 || rc > rem2 - 4 {
            assert(s@.len() < 22 + t + d + rc);
            return None;
        }
        let entry = read_u32_le(s, 18 + t + d + rc);
        let title = read_bytes(s, 6, t);
        let description = read_bytes(s, 10 + t, d);
        let recipient = read_bytes(s, 18 + t + d, rc);
        if !utf8_check(&title) || !utf8_check(&description) || !utf8_check(&recipient) {
            return None;
        }
        let out = MovieInfo {
            is_initialized: guard == 1,
            rating: s[1],
            title,
            description,
            funding,
            recipient,
            entry,
        };
        proof {
            assert(spec_decode_record(s@) == Some(out@));
        }
        Some(out)
    }
}

/// Round trip: reading back a written valid record yields that record.
#[verifier::rlimit(100)]
pub proof fn lemma_record_round_trip(r: MovieInfoV)
    requires
        r.wf(),
    ensures
        spec_decode_record(spec_encode_record(r)) == Some(r),
{
    let s = spec_encode_record(r);
    let t = r.title.len() as int;
    let d = r.description.len() as int;
    let rc = r.recipient.len() as int;
    assert(s.len() == 22 + t + d + rc);
    lemma_from_le32_of_le32(r.title.len() as u32);
    lemma_from_le32_of_le32(r.description.len() as u32);
    lemma_from_le32_of_le32(r.recipient.len() as u32);
    lemma_from_le32_of_le32(r.funding);
    lemma_from_le32_of_le32(r.entry);
    assert(from_le32(s[2], s[3], s[4], s[5]) == r.title.len() as u32);
    assert(s.subrange(6, 6 + t) =~= r.title);
    assert(from_le32(s[6 + t], s[7 + t], s[8 + t], s[9 + t]) == r.description.len() as u32);
    assert(s.subrange(10 + t, 10 + t + d) =~= r.description);
    assert(from_le32(s[10 + t + d], s[11 + t + d], s[12 + t + d], s[13 + t + d]) == r.funding);
    assert(from_le32(s[14 + t + d], s[15 + t + d], s[16 + t + d], s[17 + t + d])
        == r.recipient.len() as u32);
    assert(s.subrange(18 + t + d, 18 + t + d + rc) =~= r.recipient);
    assert(from_le32(
        s[18 + t + d + rc],
        s[19 + t + d + rc],
        s[20 + t + d + rc],
        s[21 + t + d + rc],
    ) == r.entry);
    assert(s[0] == if r.is_initialized { 1u8 } else { 0u8 });
    assert(spec_decode_record(s) == Some(r));
}

/// A record written into a slot at least as large as its encoding, with
/// any padding after it, reads back unchanged: the decoder ignores what
/// follows the encoded record.
#[verifier::rlimit(100)]
pub proof fn lemma_record_read_ignores_padding(r: MovieInfoV, s: Seq<u8>)
    requires
        r.wf(),
        spec_encode_record(r).is_prefix_of(s),
    ensures
        spec_decode_record(s) == Some(r),
{
    let e = spec_encode_record(r);
    let t = r.title.len() as int;
    let d = r.description.len() as int;
    let rc = r.recipient.len() as int;
    assert(e.len() == 22 + t + d + rc);
    assert(forall|i: int| 0 <= i < e.len() ==> s[i] == e[i]);
    lemma_record_round_trip(r);
    assert(s.subrange(6, 6 + t) =~= e.subrange(6, 6 + t));
    assert(s.subrange(10 + t, 10 + t + d) =~= e.subrange(10 + t, 10 + t + d));
    assert(s.subrange(18 + t + d, 18 + t + d + rc) =~= e.subrange(18 + t + d, 18 + t + d + rc));
    assert(spec_decode_record(s) == Some(r));
}

/// A freshly allocated, unwritten slot — all zero bytes, large enough for
/// the fixed fields — reads back as the zeroed record: the initialization
/// guard is down.
pub proof fn lemma_zeroed_slot_uninitialized(s: Seq<u8>)
    requires
        s.len() >= 22,
        forall|i: int| 0 <= i < s.len() ==> s[i] == 0u8,
    ensures
        spec_decode_record(s) == Some(MovieInfoV::zeroed()),
{
    assert(from_le32(0u8, 0u8, 0u8, 0u8) == 0u32) by (bit_vector);
    assert(s.subrange(6, 6) =~= Seq::<u8>::empty());
    assert(s.subrange(10, 10) =~= Seq::<u8>::empty());
    assert(s.subrange(18, 18) =~= Seq::<u8>::empty());
    assert(spec_decode_record(s) == Some(MovieInfoV::zeroed()));
}

} // verus!
