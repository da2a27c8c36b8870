//! Registry of known on-disk encodings.
//!
//! A 32-byte content hash identifies a type's canonical encoding; the
//! registry maps each registered hash to a decoder that turns canonical
//! bytes into a human-readable string, or signals decode failure.  It is
//! built once at process start by explicit registration calls and then
//! consulted by validation.

use vstd::prelude::*;

use crate::hex::{hex_encode_upper, hex_upper, lemma_hex_upper_len};
use crate::nums::{dec_rep, from_le32, from_le64, le32, le64, lemma_le32_inverse,
    lemma_le64_inverse, read_u32_le, read_u64_le, render_u64};
use crate::value::{bytes_eq, TYPE_HASH_LEN};
use vstd::slice::slice_subrange;

verus! {

/// A decoder for one registered on-disk encoding.
#[derive(Clone, Copy, Debug, PartialEq, Eq, Structural)]
pub enum DecoderKind {
    /// A 64-bit counter: eight little-endian bytes, rendered in decimal.
    U64,
    /// A byte string behind its 32-bit little-endian length, rendered in
    /// uppercase hex.
    LengthPrefixedBytes,
}

/// What a decoder makes of a canonical byte string: a rendering, or
/// `None` when the bytes do not parse under the declared encoding.
pub open spec fn spec_decode(kind: DecoderKind, b: Seq<u8>) -> Option<Seq<char>> {
    match kind {
        DecoderKind::U64 => if b.len() == 8 {
            Some(dec_rep(from_le64(b)))
        } else {
            None
        },
        DecoderKind::LengthPrefixedBytes => if b.len() >= 4 && from_le32(b.subrange(0, 4)) == b.len()
            - 4 {
            Some(hex_upper(b.subrange(4, b.len() as int)))
        } else {
            None
        },
    }
}

/// Decode a canonical byte string under a registered encoding and render
/// it for audit logging.
pub fn decode_render(kind: DecoderKind, b: &Vec<u8>) -> (r: Option<String>)
    ensures
        match r {
            Some(s) => spec_decode(kind, b@) == Some(s@),
            None => spec_decode(kind, b@) is None,
        },
{
    match kind {
        DecoderKind::U64 => {
            if b.len() == 8 {
                Some(render_u64(read_u64_le(b)))
            } else {
                None
            }
        },
        DecoderKind::LengthPrefixedBytes => {
            let blen = b.len();
            if blen < 4 {
                return None;
            }
            let n = read_u32_le(b, 0);
            if (n as u64) != (blen as u64) - 4 {
                return None;
            }
            let body = slice_subrange(b.as_slice(), 4, blen);
            proof {
                lemma_hex_upper_len(b@.subrange(4, b@.len() as int));
            }
            Some(hex_encode_upper(body))
        },
    }
}

/// The registered encodings, as a map from type hash to decoder.
pub open spec fn map_of_entries(s: Seq<(Vec<u8>, DecoderKind)>) -> Map<Seq<u8>, DecoderKind>
    decreases s.len(),
{
    if s.len() == 0 {
        Map::empty()
    } else {
        map_of_entries(s.drop_last()).insert(s.last().0@, s.last().1)
    }
}

/// Maps a 32-byte type hash to the decoder for that type's canonical
/// encoding.
pub struct TypeDecoderRegistry {
    entries: Vec<(Vec<u8>, DecoderKind)>,
}

impl View for TypeDecoderRegistry {
    type V = Map<Seq<u8>, DecoderKind>;

    closed spec fn view(&self) -> Map<Seq<u8>, DecoderKind> {
        map_of_entries(self.entries@)
    }
}

proof fn lemma_map_of_entries_dom(s: Seq<(Vec<u8>, DecoderKind)>, k: Seq<u8>)
    ensures
        map_of_entries(s).contains_key(k) <==> exists|i: int|
            0 <= i < s.len() && #[trigger] s[i].0@ == k,
    decreases s.len(),
{
    if s.len() > 0 {
        lemma_map_of_entries_dom(s.drop_last(), k);
        if s.last().0@ == k {
            assert(s[s.len() - 1].0@ == k);
        } else if map_of_entries(s).contains_key(k) {
            let i = choose|i: int| 0 <= i < s.drop_last().len() && #[trigger] s.drop_last()[i].0@
                == k;
            assert(s[i].0@ == k);
        } else {
            if exists|i: int| 0 <= i < s.len() && #[trigger] s[i].0@ == k {
                let i = choose|i: int| 0 <= i < s.len() && #[trigger] s[i].0@ == k;
                assert(i < s.len() - 1);
                assert(s.drop_last()[i].0@ == k);
            }
        }
    }
}

proof fn lemma_map_of_entries_at(s: Seq<(Vec<u8>, DecoderKind)>, i: int)
    requires
        0 <= i < s.len(),
        forall|j: int| i < j < s.len() ==> #[trigger] s[j].0@ != s[i].0@,
    ensures
        map_of_entries(s).contains_key(s[i].0@),
        map_of_entries(s)[s[i].0@] == s[i].1,
    decreases s.len(),
{
    if i == s.len() - 1 {
    } else {
        assert(s.drop_last()[i] == s[i]);
        lemma_map_of_entries_at(s.drop_last(), i);
        assert(s.last().0@ != s[i].0@);
    }
}

/// The stored hashes are pairwise distinct.
spec fn entry_keys_distinct(s: Seq<(Vec<u8>, DecoderKind)>) -> bool {
    forall|p: int, q: int| 0 <= p < q < s.len() ==> (#[trigger] s[p]).0@ != (#[trigger] s[q]).0@
}

impl TypeDecoderRegistry {
    /// All stored hashes are full length and pairwise distinct.
    pub closed spec fn wf(&self) -> bool {
        &&& forall|i: int|
            0 <= i < self.entries@.len() ==> (#[trigger] self.entries@[i]).0@.len()
                == TYPE_HASH_LEN
        &&& entry_keys_distinct(self.entries@)
    }

    /// An empty registry.
    pub fn new() -> (r: TypeDecoderRegistry)
        ensures
            r@ == Map::<Seq<u8>, DecoderKind>::empty(),
            r.wf(),
    {
        TypeDecoderRegistry { entries: Vec::new() }
    }

    /// Register the decoder for a type hash, replacing any earlier entry
    /// for the same hash.
    pub fn register(&mut self, hash: Vec<u8>, kind: DecoderKind)
        requires
            old(self).wf(),
            hash@.len() == TYPE_HASH_LEN,
        ensures
            final(self)@ == old(self)@.insert(hash@, kind),
            final(self).wf(),
    {
        let n = self.entries.len();
        let mut i: usize = 0;
        while i < n
            invariant
                n == self.entries@.len(),
                i <= n,
                *self == *old(self),
                old(self).wf(),
                hash@.len() == TYPE_HASH_LEN,
                forall|j: int| 0 <= j < i ==> (#[trigger] self.entries@[j]).0@ != hash@,
            decreases n - i,
        {
            if bytes_eq(&self.entries[i].0, &hash) {
                let ghost s_old = self.entries@;
                self.entries[i].1 = kind;
                proof {
                    assert(self.entries@ =~= s_old.update(i as int, (s_old[i as int].0, kind)));
                    lemma_update_entry(s_old, i as int, kind);
                    assert forall|j: int| 0 <= j < self.entries@.len() implies (
                    #[trigger] self.entries@[j]).0 == s_old[j].0 by {}
                }
                return;
            }
            i += 1;
        }
        proof {
            let s = self.entries@.push((hash, kind));
            assert(s.drop_last() =~= self.entries@);
            assert(s.last() == (hash, kind));
            assert forall|j: int| 0 <= j < s.len() implies (#[trigger] s[j]).0@.len()
                == TYPE_HASH_LEN by {
                if j < s.len() - 1 {
                    assert(s[j] == self.entries@[j]);
                }
            }
            assert(entry_keys_distinct(s)) by {
                assert forall|p: int, q: int| 0 <= p < q < s.len() implies (#[trigger] s[p]).0@ != (
                #[trigger] s[q]).0@ by {
                    if q < s.len() - 1 {
                        assert(s[p] == self.entries@[p] && s[q] == self.entries@[q]);
                    } else {
                        assert(s[p] == self.entries@[p]);
                        assert(s[q].0@ == hash@);
                    }
                }
            }
        }
        self.entries.push((hash, kind));
    }

    /// Look up the decoder registered for a type hash.
    pub fn lookup(&self, hash: &Vec<u8>) -> (r: Option<DecoderKind>)
        requires
            self.wf(),
        ensures
            r == if self@.contains_key(hash@) {
                Some(self@[hash@])
            } else {
                None::<DecoderKind>
            },
    {
        let n = self.entries.len();
        let mut i: usize = 0;
        while i < n
            invariant
                self.wf(),
                n == self.entries@.len(),
                i <= n,
                forall|j: int| 0 <= j < i ==> #[trigger] self.entries@[j].0@ != hash@,
            decreases n - i,
        {
            if bytes_eq(&self.entries[i].0, &hash) {
                proof {
                    lemma_map_of_entries_at(self.entries@, i as int);
                }
                return Some(self.entries[i].1);
            }
            i += 1;
        }
        proof {
            lemma_map_of_entries_dom(self.entries@, hash@);
        }
        None
    }
}

proof fn lemma_update_entry(s: Seq<(Vec<u8>, DecoderKind)>, i: int, kind: DecoderKind)
    requires
        0 <= i < s.len(),
        entry_keys_distinct(s),
    ensures
        map_of_entries(s.update(i, (s[i].0, kind))) == map_of_entries(s).insert(s[i].0@, kind),
    decreases s.len(),
{
    let s2 = s.update(i, (s[i].0, kind));
    if i == s.len() - 1 {
        assert(s2.drop_last() =~= s.drop_last());
        assert(s2.last() == (s[i].0, kind));
        assert(map_of_entries(s2) =~= map_of_entries(s).insert(s[i].0@, kind));
    } else {
        assert(s2.drop_last() =~= s.drop_last().update(i, (s[i].0, kind)));
        assert(s.drop_last()[i] == s[i]);
        assert(entry_keys_distinct(s.drop_last())) by {
            assert forall|p: int, q: int| 0 <= p < q < s.drop_last().len() implies (
            #[trigger] s.drop_last()[p]).0@ != (#[trigger] s.drop_last()[q]).0@ by {
                assert(s.drop_last()[p] == s[p] && s.drop_last()[q] == s[q]);
            }
        }
        lemma_update_entry(s.drop_last(), i, kind);
        assert(s2.last() == s.last());
        assert(s.last().0@ != s[i].0@);
        assert(map_of_entries(s2) =~= map_of_entries(s).insert(s[i].0@, kind));
    }
}

/// A value canonically encoded as a 64-bit counter always decodes under
/// the registered 64-bit decoder.
pub proof fn lemma_u64_encoding_decodes(x: u64)
    ensures
        spec_decode(DecoderKind::U64, le64(x as nat)) is Some,
{
    lemma_le64_inverse(x as nat);
}

/// A value canonically encoded as a length-prefixed byte string always
/// decodes under the registered byte-string decoder.
pub proof fn lemma_bytes_encoding_decodes(b: Seq<u8>)
    requires
        b.len() < 0x1_0000_0000,
    ensures
        spec_decode(DecoderKind::LengthPrefixedBytes, le32(b.len()) + b) is Some,
{
    let e = le32(b.len()) + b;
    assert(e.subrange(0, 4) =~= le32(b.len()));
    lemma_le32_inverse(b.len());
}

} // verus!
