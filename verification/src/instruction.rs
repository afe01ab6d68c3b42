//! The request decoder: turns an untrusted byte buffer into a typed
//! instruction. The wire format is a 1-byte variant tag followed by the
//! variant's fields in a fixed, length-prefixed binary encoding: unsigned
//! integers fixed-width little-endian, byte strings as a 4-byte
//! little-endian length prefix followed by UTF-8 bytes. Decoding is total:
//! no input byte sequence panics or reads out of bounds.
use vstd::prelude::*;

use crate::codec::{
    enc_bytes, from_le32, le32, lemma_from_le32_of_le32, read_bytes, read_u32_le, utf8_check,
    write_bytes, write_u32_le,
};
use crate::error::IntroError;
use vstd::utf8::valid_utf8;

verus! {

/// The instruction set of the handler. Exactly one variant exists today;
/// the tag byte leaves room for more.
///
/// Accounts expected by `InitMovieRating`:
///
/// 0. `[signer]` the caller creating the record
/// 1. `[writable]` the record account derived from the caller and the title
/// 2. `[]` the system program, which allocates the account
#[derive(Debug, Clone, PartialEq, Eq)]
pub enum IntroInstruction {
    InitMovieRating {
        /// UTF-8 bytes; also the address-derivation key material.
        title: Vec<u8>,
        rating: u8,
        /// UTF-8 bytes.
        description: Vec<u8>,
        funding: u32,
        /// UTF-8 bytes; an identity reference stored as text.
        recipient: Vec<u8>,
        entry: u32,
    },
}

/// The mathematical value of an [`IntroInstruction`].
pub ghost enum IntroInstructionV {
    InitMovieRating {
        title: Seq<u8>,
        rating: u8,
        description: Seq<u8>,
        funding: u32,
        recipient: Seq<u8>,
        entry: u32,
    },
}

impl View for IntroInstruction {
    type V = IntroInstructionV;

    open spec fn view(&self) -> IntroInstructionV {
        match self {
            IntroInstruction::InitMovieRating {
                title,
                rating,
                description,
                funding,
                recipient,
                entry,
            } => (IntroInstructionV::InitMovieRating {
                title: title@,
                rating: *rating,
                description: description@,
                funding: *funding,
                recipient: recipient@,
                entry: *entry,
            }),
        }
    }
}

impl IntroInstructionV {
    /// The byte-string fields fit their 4-byte length prefixes.
    pub open spec fn len_ok(self) -> bool {
        match self {
            IntroInstructionV::InitMovieRating { title, description, recipient, .. } => {
                &&& title.len() <= u32::MAX
                &&& description.len() <= u32::MAX
                &&& recipient.len() <= u32::MAX
            },
        }
    }

    /// A valid request: prefixes fit and every text field is UTF-8.
    pub open spec fn wf(self) -> bool {
        match self {
            IntroInstructionV::InitMovieRating { title, description, recipient, .. } => {
                &&& self.len_ok()
                &&& valid_utf8(title)
                &&& valid_utf8(description)
                &&& valid_utf8(recipient)
            },
        }
    }
}

/// The decoded fields of the sole variant's payload, before tag dispatch.
pub ghost struct PayloadV {
    pub title: Seq<u8>,
    pub rating: u8,
    pub description: Seq<u8>,
    pub funding: u32,
    pub recipient: Seq<u8>,
    pub entry: u32,
}

/// The payload encoding after the tag byte: `title`, `rating`,
/// `description`, `funding`, `recipient`, `entry`, in that order.
pub open spec fn spec_encode_payload(p: PayloadV) -> Seq<u8> {
    enc_bytes(p.title) + seq![p.rating] + enc_bytes(p.description) + le32(p.funding) + enc_bytes(
        p.recipient,
    ) + le32(p.entry)
}

/// Parses a payload. `None` is every failure: a truncated buffer, a length
/// prefix that overruns it, trailing bytes, or a text field that is not
/// UTF-8.
pub open spec fn spec_decode_payload(s: Seq<u8>) -> Option<PayloadV> {
    if s.len() < 4 {
        None
    } else {
        let t = from_le32(s[0], s[1], s[2], s[3]) as int;
        if s.len() < 9 + t {
            None
        } else {
            let title = s.subrange(4, 4 + t);
            let rating = s[4 + t];
            let d = from_le32(s[5 + t], s[6 + t], s[7 + t], s[8 + t]) as int;
            if s.len() < 17 + t + d {
                None
            } else {
                let description = s.subrange(9 + t, 9 + t + d);
                let funding = from_le32(s[9 + t + d], s[10 + t + d], s[11 + t + d], s[12 + t + d]);
                let rc = from_le32(s[13 + t + d], s[14 + t + d], s[15 + t + d], s[16 + t + d]) as int;
                if s.len() != 21 + t + d + rc {
                    None
                } else {
                    let recipient = s.subrange(17 + t + d, 17 + t + d + rc);
                    let entry = from_le32(
                        s[17 + t + d + rc],
                        s[18 + t + d + rc],
                        s[19 + t + d + rc],
                        s[20 + t + d + rc],
                    );
                    if valid_utf8(title) && valid_utf8(description) && valid_utf8(recipient) {
                        Some(PayloadV { title, rating, description, funding, recipient, entry })
                    } else {
                        None
                    }
                }
            }
        }
    }
}

/// The full encoding of a request: the variant tag, then the payload.
pub open spec fn spec_encode(v: IntroInstructionV) -> Seq<u8> {
    match v {
        IntroInstructionV::InitMovieRating {
            title,
            rating,
            description,
            funding,
            recipient,
            entry,
        } => seq![0u8] + spec_encode_payload(
            PayloadV { title, rating, description, funding, recipient, entry },
        ),
    }
}

/// What decoding a buffer yields: `Empty` for a zero-length buffer,
/// `Malformed` for a payload that does not parse, `UnknownVariant` for an
/// unrecognized tag, and otherwise the fully populated request.
pub open spec fn spec_decode(s: Seq<u8>) -> Result<IntroInstructionV, IntroError> {
    if s.len() == 0 {
        Err(IntroError::Empty)
    } else {
        match spec_decode_payload(s.skip(1)) {
            None => Err(IntroError::Malformed),
            Some(p) => {
                if s[0] == 0u8 {
                    Ok(
                        IntroInstructionV::InitMovieRating {
                            title: p.title,
                            rating: p.rating,
                            description: p.description,
                            funding: p.funding,
                            recipient: p.recipient,
                            entry: p.entry,
                        },
                    )
                } else {
                    Err(IntroError::UnknownVariant)
                }
            },
        }
    }
}

impl IntroInstruction {
    /// Encodes the request in the wire format that [`Self::unpack`] reads.
    pub fn pack(&self) -> (r: Vec<u8>)
        requires
            self@.len_ok(),
        ensures
            r@ == spec_encode(self@),
    {
        match self {
            IntroInstruction::InitMovieRating {
                title,
                rating,
                description,
                funding,
                recipient,
                entry,
            } => {
                let mut out: Vec<u8> = Vec::new();
                out.push(0u8);
                write_bytes(&mut out, title);
                out.push(*rating);
                write_bytes(&mut out, description);
                write_u32_le(&mut out, *funding);
                write_bytes(&mut out, recipient);
                write_u32_le(&mut out, *entry);
                proof {
                    assert(out@ =~= spec_encode(self@));
                }
                out
            },
        }
    }

    /// Decodes an inbound buffer into the instruction it carries. Total over
    /// every byte sequence: the error says exactly why a buffer is refused.
    pub fn unpack(input: &[u8]) -> (r: Result<IntroInstruction, IntroError>)
        ensures
            (match r {
                Ok(v) => spec_decode(input@) == Ok::<IntroInstructionV, IntroError>(v@),
                Err(e) => spec_decode(input@) == Err::<IntroInstructionV, IntroError>(e),
            }),
            r is Ok ==> r->Ok_0@.wf(),
    {
        let n: usize = input.len();
        let ghost p = input@.skip(1);
        if n == 0 {
            return Err(IntroError::Empty);
        }
        assert(p.len() == n - 1);
        assert(forall|i: int| 0 <= i < p.len() ==> p[i] == input@[i + 1]);
        if n < 5 {
            return Err(IntroError::Malformed);
        }
        let t32 = read_u32_le(input, 1);
        let t = t32 as usize;
        if n < 10 || t > n - 10 {
            return Err(IntroError::Malformed);
        }
        let rating = input[5 + t];
        let d32 = read_u32_le(input, 6 + t);
        let d = d32 as usize;
        let rem = n - 10 - t;
        if rem < 8 || d > rem - 8 {
            assert(p.len() < 17 + t + d);
            return Err(IntroError::Malformed);
        }
        let funding = read_u32_le(input, 10 + t + d);
        let rc32 = read_u32_le(input, 14 + t + d);
        let rc = rc32 as usize;
        let rem2 = n - 18 - t - d;
        if rem2 < 4 || rc != rem2 - 4 {
            assert(p.len() != 21 + t + d + rc);
            return Err(IntroError::Malformed);
        }
        assert(n == 22 + t + d + rc);
        let entry = read_u32_le(input, 18 + t + d + rc);
        let title = read_bytes(input, 5, t);
        let description = read_bytes(input, 10 + t, d);
        let recipient = read_bytes(input, 18 + t + d, rc);
        proof {
            assert(title@ =~= p.subrange(4, 4 + t));
            assert(description@ =~= p.subrange(9 + t as int, 9 + t + d));
            assert(recipient@ =~= p.subrange(17 + t + d, 17 + t + d + rc));
        }
        if !utf8_check(&title) || !utf8_check(&description) || !utf8_check(&recipient) {
            return Err(IntroError::Malformed);
        }
        let tag = input[0];
        if tag != 0 {
            return Err(IntroError::UnknownVariant);
        }
        let out = IntroInstruction::InitMovieRating {
            title,
            rating,
            description,
            funding,
            recipient,
            entry,
        };
        proof {
            assert(spec_decode(input@) == Ok::<IntroInstructionV, IntroError>(out@));
        }
        Ok(out)
    }
}

/// Round trip: decoding an encoded valid request yields that request.
#[verifier::rlimit(100)]
pub proof fn lemma_request_round_trip(v: IntroInstructionV)
    requires
        v.wf(),
    ensures
        spec_decode(spec_encode(v)) == Ok::<IntroInstructionV, IntroError>(v),
{
    match v {
        IntroInstructionV::InitMovieRating {
            title,
            rating,
            description,
            funding,
            recipient,
            entry,
        } => {
            let pl = PayloadV { title, rating, description, funding, recipient, entry };
            let s = spec_encode(v);
            let p = spec_encode_payload(pl);
            assert(s.skip(1) =~= p);
            let t = title.len() as int;
            let d = description.len() as int;
            let rc = recipient.len() as int;
            assert(p.len() == 21 + t + d + rc);
            lemma_from_le32_of_le32(title.len() as u32);
            lemma_from_le32_of_le32(description.len() as u32);
            lemma_from_le32_of_le32(recipient.len() as u32);
            lemma_from_le32_of_le32(funding);
            lemma_from_le32_of_le32(entry);
            assert(from_le32(p[0], p[1], p[2], p[3]) == title.len() as u32);
            assert(p.subrange(4, 4 + t) =~= title);
            assert(p[4 + t] == rating);
            assert(from_le32(p[5 + t], p[6 + t], p[7 + t], p[8 + t]) == description.len() as u32);
            assert(p.subrange(9 + t, 9 + t + d) =~= description);
            assert(from_le32(p[9 + t + d], p[10 + t + d], p[11 + t + d], p[12 + t + d])
                == funding);
            assert(from_le32(p[13 + t + d], p[14 + t + d], p[15 + t + d], p[16 + t + d])
                == recipient.len() as u32);
            assert(p.subrange(17 + t + d, 17 + t + d + rc) =~= recipient);
            assert(from_le32(
                p[17 + t + d + rc],
                p[18 + t + d + rc],
                p[19 + t + d + rc],
                p[20 + t + d + rc],
            ) == entry);
            assert(spec_decode_payload(p) == Some(pl));
            assert(s[0] == 0u8);
        },
    }
}

/// A zero-length buffer, and only a zero-length buffer, decodes to `Empty`.
pub proof fn lemma_empty_iff_empty_error(s: Seq<u8>)
    ensures
        s.len() == 0 <==> spec_decode(s) == Err::<IntroInstructionV, IntroError>(IntroError::Empty),
{
}

/// Any buffer whose payload does not parse decodes to `Malformed`,
/// whatever its tag byte says.
pub proof fn lemma_bad_payload_is_malformed(s: Seq<u8>)
    requires
        s.len() > 0,
        spec_decode_payload(s.skip(1)) is None,
    ensures
        spec_decode(s) == Err::<IntroInstructionV, IntroError>(IntroError::Malformed),
{
}

} // verus!
