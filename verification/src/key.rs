//! Hierarchical path identifier into the ledger store.
//!
//! A key is carried in its canonical string form; equality is byte-wise
//! on that form, and conversion to and from a string is total and
//! loss-free.

use vstd::prelude::*;

verus! {

/// A path into the ledger store, held in its canonical string form.
#[derive(Debug)]
pub struct Key {
    s: String,
}

impl View for Key {
    type V = Seq<char>;

    closed spec fn view(&self) -> Seq<char> {
        self.s@
    }
}

impl Key {
    /// Build a key from its canonical string form.
    pub fn from_string(s: String) -> (k: Key)
        ensures
            k@ == s@,
    {
        Key { s }
    }

    /// The canonical string form of the key.
    pub fn as_str(&self) -> (r: &str)
        ensures
            r@ == self@,
    {
        self.s.as_str()
    }

    /// An owned copy of the canonical string form.
    pub fn to_string_form(&self) -> (r: String)
        ensures
            r@ == self@,
    {
        String::from_str(self.s.as_str())
    }
}

impl Clone for Key {
    fn clone(&self) -> (r: Self)
        ensures
            r@ == self@,
    {
        Key { s: String::from_str(self.s.as_str()) }
    }
}

impl PartialEq for Key {
    fn eq(&self, other: &Key) -> (r: bool) {
        self.s == other.s
    }
}

impl vstd::std_specs::cmp::PartialEqSpecImpl for Key {
    open spec fn obeys_eq_spec() -> bool {
        true
    }

    open spec fn eq_spec(&self, other: &Key) -> bool {
        self@ == other@
    }
}

impl Eq for Key {

}

} // verus!
