//! Typed values carried by a migration script.
//!
//! A value is tagged with the 32-byte content hash of its originating
//! type.  It holds either a pass-through byte form plus a canonical form
//! used only for validation ("raw"), or a single canonical form used both
//! for validation and for writing.

use vstd::prelude::*;

verus! {

/// The number of bytes in a type's content hash.
pub const TYPE_HASH_LEN: usize = 32;

/// The payload of a typed value.
#[derive(Debug)]
pub enum UpdateBytes {
    /// `to_write` is persisted verbatim; `serialized` only validates the
    /// declared type.
    Raw { to_write: Vec<u8>, serialized: Vec<u8> },
    /// A single canonical byte string, persisted and validated alike.
    Serialized { bytes: Vec<u8> },
}

/// Mathematical model of a payload.
#[verifier::ext_equal]
pub enum UpdateBytesV {
    Raw { to_write: Seq<u8>, serialized: Seq<u8> },
    Serialized { bytes: Seq<u8> },
}

impl View for UpdateBytes {
    type V = UpdateBytesV;

    open spec fn view(&self) -> UpdateBytesV {
        match self {
            UpdateBytes::Raw { to_write, serialized } => UpdateBytesV::Raw {
                to_write: to_write@,
                serialized: serialized@,
            },
            UpdateBytes::Serialized { bytes } => UpdateBytesV::Serialized { bytes: bytes@ },
        }
    }
}

/// A value to be added to the ledger store, validatable against the
/// registered decoder for its type hash.
#[derive(Debug)]
pub struct UpdateValue {
    type_hash: Vec<u8>,
    bytes: UpdateBytes,
}

/// Mathematical model of a typed value.
#[verifier::ext_equal]
pub struct UpdateValueV {
    pub type_hash: Seq<u8>,
    pub bytes: UpdateBytesV,
}

impl View for UpdateValue {
    type V = UpdateValueV;

    closed spec fn view(&self) -> UpdateValueV {
        UpdateValueV { type_hash: self.type_hash@, bytes: self.bytes@ }
    }
}

impl UpdateValueV {
    /// A well-formed value: a full-length type hash, and payloads whose
    /// lengths fit the 32-bit length fields of the wire form.
    pub open spec fn wf(self) -> bool {
        &&& self.type_hash.len() == TYPE_HASH_LEN
        &&& match self.bytes {
            UpdateBytesV::Raw { to_write, serialized } => to_write.len() < 0x1_0000_0000
                && serialized.len() < 0x1_0000_0000,
            UpdateBytesV::Serialized { bytes } => bytes.len() < 0x1_0000_0000,
        }
    }

    /// True only for the raw construction.
    pub open spec fn is_raw(self) -> bool {
        self.bytes is Raw
    }

    /// The bytes used to validate the declared type.
    pub open spec fn canonical(self) -> Seq<u8> {
        match self.bytes {
            UpdateBytesV::Raw { serialized, .. } => serialized,
            UpdateBytesV::Serialized { bytes } => bytes,
        }
    }

    /// The bytes that get persisted.
    pub open spec fn writable(self) -> Seq<u8> {
        match self.bytes {
            UpdateBytesV::Raw { to_write, .. } => to_write,
            UpdateBytesV::Serialized { bytes } => bytes,
        }
    }
}

impl UpdateValue {
    /// Build a raw value: `to_write` is persisted verbatim while
    /// `serialized`, the canonical encoding of the same value, carries the
    /// type check.
    pub fn raw(type_hash: Vec<u8>, to_write: Vec<u8>, serialized: Vec<u8>) -> (v: UpdateValue)
        requires
            type_hash@.len() == TYPE_HASH_LEN,
            to_write@.len() < 0x1_0000_0000,
            serialized@.len() < 0x1_0000_0000,
        ensures
            v@ == (UpdateValueV {
                type_hash: type_hash@,
                bytes: UpdateBytesV::Raw { to_write: to_write@, serialized: serialized@ },
            }),
            v@.wf(),
    {
        UpdateValue { type_hash, bytes: UpdateBytes::Raw { to_write, serialized } }
    }

    /// Build a value from its canonical encoding alone.
    pub fn serialized(type_hash: Vec<u8>, bytes: Vec<u8>) -> (v: UpdateValue)
        requires
            type_hash@.len() == TYPE_HASH_LEN,
            bytes@.len() < 0x1_0000_0000,
        ensures
            v@ == (UpdateValueV {
                type_hash: type_hash@,
                bytes: UpdateBytesV::Serialized { bytes: bytes@ },
            }),
            v@.wf(),
    {
        UpdateValue { type_hash, bytes: UpdateBytes::Serialized { bytes } }
    }

    /// True only for the raw construction.
    pub fn is_raw(&self) -> (r: bool)
        ensures
            r == self@.is_raw(),
    {
        match &self.bytes {
            UpdateBytes::Raw { .. } => true,
            UpdateBytes::Serialized { .. } => false,
        }
    }

    /// The 32-byte content hash of the originating type.
    pub fn type_hash(&self) -> (r: &Vec<u8>)
        ensures
            r@ == self@.type_hash,
    {
        &self.type_hash
    }

    /// The bytes used to validate the declared type.
    pub fn canonical_bytes(&self) -> (r: &Vec<u8>)
        ensures
            r@ == self@.canonical(),
    {
        match &self.bytes {
            UpdateBytes::Raw { serialized, .. } => serialized,
            UpdateBytes::Serialized { bytes } => bytes,
        }
    }

    /// The bytes to persist in the store.
    pub fn to_write(&self) -> (r: &Vec<u8>)
        ensures
            r@ == self@.writable(),
    {
        match &self.bytes {
            UpdateBytes::Raw { to_write, .. } => to_write,
            UpdateBytes::Serialized { bytes } => bytes,
        }
    }
}

/// Byte-wise equality of two byte strings.
pub fn bytes_eq(a: &Vec<u8>, b: &Vec<u8>) -> (r: bool)
    ensures
        r == (a@ == b@),
{
    if a.len() != b.len() {
        proof {
            assert(a@ != b@) by {
                if a@ == b@ {
                    assert(a@.len() == b@.len());
                }
            };
        }
        return false;
    }
    let n = a.len();
    let mut i: usize = 0;
    while i < n
        invariant
            n == a@.len() == b@.len(),
            i <= n,
            forall|j: int| 0 <= j < i ==> a@[j] == b@[j],
        decreases n - i,
    {
        if a[i] != b[i] {
            return false;
        }
        i += 1;
    }
    proof {
        assert(a@ =~= b@);
    }
    true
}

impl Clone for UpdateBytes {
    fn clone(&self) -> (r: Self)
        ensures
            r@ == self@,
    {
        match self {
            UpdateBytes::Raw { to_write, serialized } => UpdateBytes::Raw {
                to_write: to_write.clone(),
                serialized: serialized.clone(),
            },
            UpdateBytes::Serialized { bytes } => UpdateBytes::Serialized { bytes: bytes.clone() },
        }
    }
}

impl Clone for UpdateValue {
    fn clone(&self) -> (r: Self)
        ensures
            r@ == self@,
    {
        UpdateValue { type_hash: self.type_hash.clone(), bytes: self.bytes.clone() }
    }
}

impl PartialEq for UpdateValue {
    fn eq(&self, other: &UpdateValue) -> (r: bool) {
        let hash_eq = bytes_eq(&self.type_hash, &other.type_hash);
        let payload_eq = match (&self.bytes, &other.bytes) {
            (
                UpdateBytes::Raw { to_write: a1, serialized: a2 },
                UpdateBytes::Raw { to_write: b1, serialized: b2 },
            ) => bytes_eq(a1, b1) && bytes_eq(a2, b2),
            (
                UpdateBytes::Serialized { bytes: a },
                UpdateBytes::Serialized { bytes: b },
            ) => bytes_eq(a, b),
            _ => false,
        };
        hash_eq && payload_eq
    }
}

impl vstd::std_specs::cmp::PartialEqSpecImpl for UpdateValue {
    open spec fn obeys_eq_spec() -> bool {
        true
    }

    open spec fn eq_spec(&self, other: &UpdateValue) -> bool {
        self@ == other@
    }
}

impl Eq for UpdateValue {

}

} // verus!
