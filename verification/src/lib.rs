//! Typed state-migration engine for a key-value ledger store.
//!
//! Migration scripts carry typed values tagged with a content hash of their
//! originating type.  Before a change is committed, the value (and any value
//! it overwrites) is checked against a registry of known on-disk encodings,
//! unless the entry carries an explicit force flag.

pub mod hex;
pub mod nums;
pub mod key;
pub mod value;
pub mod codec;
pub mod registry;
pub mod pattern;
pub mod ops;
pub mod store;
pub mod vm_layout;
