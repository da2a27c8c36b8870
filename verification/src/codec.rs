//! Canonical wire form of a typed value.
//!
//! The binary layout is the 32-byte type hash, one payload tag byte
//! (0 for raw, 1 for serialized), then each payload byte string prefixed
//! by its 32-bit little-endian length.  The textual wire form is the
//! uppercase hex encoding of that byte string.  Decoding is a two-way
//! inverse of encoding, and fails with a structured error on invalid hex
//! or a malformed binary structure.

use vstd::prelude::*;

use crate::hex::{hex_decode_upper, hex_encode_upper, hex_upper, lemma_hex_upper_injective,
    lemma_hex_upper_len};
use crate::nums::{from_le32, le32, lemma_le32_inverse, push_u32_le, read_u32_le};
use crate::value::{UpdateBytes, UpdateBytesV, UpdateValue, UpdateValueV};
use vstd::slice::{slice_subrange, slice_to_vec};

verus! {

/// Failure to read a typed value back from its textual wire form.
#[derive(Clone, Copy, Debug, PartialEq, Eq, Structural)]
pub enum DecodeError {
    /// The text is not an uppercase hex encoding of any byte string.
    InvalidHex,
    /// The bytes do not spell a well-formed typed value.
    Malformed,
}

/// The canonical byte serialization of a payload: a tag byte, then each
/// byte string behind its 32-bit little-endian length.
pub open spec fn encoded_payload(b: UpdateBytesV) -> Seq<u8> {
    match b {
        UpdateBytesV::Raw { to_write, serialized } => seq![0u8] + le32(to_write.len()) + to_write
            + le32(serialized.len()) + serialized,
        UpdateBytesV::Serialized { bytes } => seq![1u8] + le32(bytes.len()) + bytes,
    }
}

/// The canonical byte serialization of a typed value.
pub open spec fn encoded(v: UpdateValueV) -> Seq<u8> {
    v.type_hash + encoded_payload(v.bytes)
}

/// Deterministic parse of the canonical byte serialization; `None` on any
/// malformed structure (short input, unknown tag, length mismatch,
/// trailing bytes).
pub open spec fn parse(b: Seq<u8>) -> Option<UpdateValueV> {
    if b.len() < 33 {
        None
    } else if b[32] == 0 {
        if b.len() < 37 {
            None
        } else {
            let n1 = from_le32(b.subrange(33, 37)) as int;
            if b.len() < 41 + n1 {
                None
            } else {
                let n2 = from_le32(b.subrange(37 + n1, 41 + n1)) as int;
                if b.len() == 41 + n1 + n2 {
                    Some(
                        UpdateValueV {
                            type_hash: b.subrange(0, 32),
                            bytes: UpdateBytesV::Raw {
                                to_write: b.subrange(37, 37 + n1),
                                serialized: b.subrange(41 + n1, 41 + n1 + n2),
                            },
                        },
                    )
                } else {
                    None
                }
            }
        }
    } else if b[32] == 1 {
        if b.len() < 37 {
            None
        } else {
            let n = from_le32(b.subrange(33, 37)) as int;
            if b.len() == 37 + n {
                Some(
                    UpdateValueV {
                        type_hash: b.subrange(0, 32),
                        bytes: UpdateBytesV::Serialized { bytes: b.subrange(37, 37 + n) },
                    },
                )
            } else {
                None
            }
        }
    } else {
        None
    }
}

proof fn lemma_from_le32_bound(b: Seq<u8>)
    requires
        b.len() == 4,
    ensures
        from_le32(b) < 0x1_0000_0000,
{
}

/// Append every byte of a slice.
fn push_all(out: &mut Vec<u8>, src: &[u8])
    ensures
        final(out)@ == old(out)@ + src@,
{
    let n = src.len();
    let mut i: usize = 0;
    while i < n
        invariant
            n == src@.len(),
            i <= n,
            out@ == old(out)@ + src@.subrange(0, i as int),
        decreases n - i,
    {
        out.push(src[i]);
        proof {
            assert(old(out)@ + src@.subrange(0, i as int) + seq![src@[i as int]] =~= old(out)@
                + src@.subrange(0, i as int + 1));
        }
        i += 1;
    }
    proof {
        assert(src@.subrange(0, n as int) =~= src@);
    }
}

/// Serialize a typed value to its canonical byte form.
pub fn encode_bytes(v: &UpdateValue) -> (r: Vec<u8>)
    requires
        v@.wf(),
    ensures
        r@ == encoded(v@),
{
    let mut out: Vec<u8> = Vec::new();
    push_all(&mut out, v.type_hash().as_slice());
    if v.is_raw() {
        out.push(0);
        let tw = v.to_write();
        push_u32_le(&mut out, tw.len() as u32);
        push_all(&mut out, tw.as_slice());
        let ser = v.canonical_bytes();
        push_u32_le(&mut out, ser.len() as u32);
        push_all(&mut out, ser.as_slice());
        proof {
            assert(out@ =~= encoded(v@));
        }
    } else {
        out.push(1);
        let bytes = v.canonical_bytes();
        push_u32_le(&mut out, bytes.len() as u32);
        push_all(&mut out, bytes.as_slice());
        proof {
            assert(out@ =~= encoded(v@));
        }
    }
    out
}

/// Read a typed value back from its canonical byte form.
pub fn decode_bytes(b: &Vec<u8>) -> (r: Option<UpdateValue>)
    ensures
        match r {
            Some(w) => parse(b@) == Some(w@) && w@.wf(),
            None => parse(b@) is None,
        },
{
    let blen = b.len();
    if blen < 33 {
        return None;
    }
    let hash = slice_to_vec(slice_subrange(b.as_slice(), 0, 32));
    let tag = b[32];
    if tag == 0 {
        if blen < 37 {
            return None;
        }
        let n1 = read_u32_le(b, 33) as usize;
        proof {
            lemma_from_le32_bound(b@.subrange(33, 37));
        }
        if (blen as u64) < 41 + (n1 as u64) {
            return None;
        }
        let n2 = read_u32_le(b, 37 + n1) as usize;
        proof {
            lemma_from_le32_bound(b@.subrange(37 + n1 as int, 41 + n1 as int));
        }
        if (blen as u64) != 41 + (n1 as u64) + (n2 as u64) {
            return None;
        }
        let to_write = slice_to_vec(slice_subrange(b.as_slice(), 37, 37 + n1));
        let serialized = slice_to_vec(
            slice_subrange(b.as_slice(), 41 + n1, 41 + n1 + n2),
        );
        Some(UpdateValue::raw(hash, to_write, serialized))
    } else if tag == 1 {
        if blen < 37 {
            return None;
        }
        let n = read_u32_le(b, 33) as usize;
        proof {
            lemma_from_le32_bound(b@.subrange(33, 37));
        }
        if (blen as u64) != 37 + (n as u64) {
            return None;
        }
        let bytes = slice_to_vec(slice_subrange(b.as_slice(), 37, 37 + n));
        Some(UpdateValue::serialized(hash, bytes))
    } else {
        None
    }
}

/// Round trip at the byte level: parsing the canonical serialization of a
/// well-formed value gives that value back.
pub proof fn lemma_parse_encoded(v: UpdateValueV)
    requires
        v.wf(),
    ensures
        parse(encoded(v)) == Some(v),
{
    let e = encoded(v);
    match v.bytes {
        UpdateBytesV::Raw { to_write, serialized } => {
            let n1 = to_write.len() as int;
            let n2 = serialized.len() as int;
            assert(e.len() == 41 + n1 + n2);
            assert(e[32] == 0);
            assert(e.subrange(33, 37) =~= le32(to_write.len()));
            lemma_le32_inverse(to_write.len());
            assert(e.subrange(37, 37 + n1) =~= to_write);
            assert(e.subrange(37 + n1, 41 + n1) =~= le32(serialized.len()));
            lemma_le32_inverse(serialized.len());
            assert(e.subrange(41 + n1, 41 + n1 + n2) =~= serialized);
            assert(e.subrange(0, 32) =~= v.type_hash);
            assert(parse(e)->0 =~= v);
        },
        UpdateBytesV::Serialized { bytes } => {
            let n = bytes.len() as int;
            assert(e.len() == 37 + n);
            assert(e[32] == 1);
            assert(e.subrange(33, 37) =~= le32(bytes.len()));
            lemma_le32_inverse(bytes.len());
            assert(e.subrange(37, 37 + n) =~= bytes);
            assert(e.subrange(0, 32) =~= v.type_hash);
            assert(parse(e)->0 =~= v);
        },
    }
}

/// The byte string a hex text spells, where there is one.
pub open spec fn hex_preimage(s: Seq<char>) -> Seq<u8> {
    choose|b: Seq<u8>| s == hex_upper(b)
}

/// Deterministic parse of the textual wire form.
pub open spec fn wire_parse(s: Seq<char>) -> Option<UpdateValueV> {
    if exists|b: Seq<u8>| s == hex_upper(b) {
        parse(hex_preimage(s))
    } else {
        None
    }
}

/// Serialize a typed value to its textual wire form.
pub fn encode(v: &UpdateValue) -> (r: String)
    requires
        v@.wf(),
    ensures
        r@ == hex_upper(encoded(v@)),
{
    let bytes = encode_bytes(v);
    proof {
        lemma_hex_upper_len(bytes@);
    }
    hex_encode_upper(bytes.as_slice())
}

/// Read a typed value back from its textual wire form.
pub fn decode(s: &str) -> (r: Result<UpdateValue, DecodeError>)
    ensures
        match r {
            Ok(w) => wire_parse(s@) == Some(w@) && w@.wf(),
            Err(DecodeError::InvalidHex) => forall|b: Seq<u8>| s@ != hex_upper(b),
            Err(DecodeError::Malformed) => wire_parse(s@) is None && exists|b: Seq<u8>|
                s@ == hex_upper(b),
        },
        r is Ok <==> wire_parse(s@) is Some,
{
    match hex_decode_upper(s) {
        None => Err(DecodeError::InvalidHex),
        Some(bytes) => {
            proof {
                let bb = hex_preimage(s@);
                assert(s@ == hex_upper(bytes@));
                assert(s@ == hex_upper(bb));
                lemma_hex_upper_injective(bytes@, bb);
            }
            match decode_bytes(&bytes) {
                Some(w) => Ok(w),
                None => Err(DecodeError::Malformed),
            }
        },
    }
}

/// Round trip at the wire level: decoding the textual wire form of a
/// well-formed value gives that value back.
pub proof fn lemma_wire_round_trip(v: UpdateValueV)
    requires
        v.wf(),
    ensures
        wire_parse(hex_upper(encoded(v))) == Some(v),
{
    let s = hex_upper(encoded(v));
    assert(exists|b: Seq<u8>| s == hex_upper(b));
    let bb = hex_preimage(s);
    assert(s == hex_upper(bb));
    lemma_hex_upper_injective(bb, encoded(v));
    lemma_parse_encoded(v);
}

} // verus!
