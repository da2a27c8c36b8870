//! Updates to the ledger store, their validation and their application.
//!
//! An update is one of four variants: point add, point delete,
//! pattern-scoped add, pattern-scoped delete.  The two add variants carry
//! a typed value and an optional force flag; validation checks the value
//! against the registry of known encodings unless the flag is set, and
//! application persists the change through an abstract store visitor.

use vstd::prelude::*;

use crate::hex::hex_upper;
use crate::key::Key;
use crate::pattern::{regex_matches, regex_ok, Pattern};
use crate::registry::{decode_render, spec_decode, DecoderKind, TypeDecoderRegistry};
use crate::value::{UpdateValue, UpdateValueV};

verus! {

/// The maximum number of characters shown per rendered value.
pub const PREVIEW_CUTOFF: usize = 300;

/// Why a validation or an application of an update failed.
#[derive(Clone, Copy, Debug, PartialEq, Eq, Structural)]
pub enum MigrationError {
    /// The value's type hash is not in the registry (and force is off).
    UnknownType,
    /// The declared bytes do not decode under the claimed type.
    DecodeFailure,
    /// A prior stored value does not decode under the declared type
    /// during a raw-mode add.
    TypeMismatch,
    /// A repeat operation carries a malformed regular expression.
    InvalidPattern,
}

/// An update to the ledger store.
pub enum DbUpdateType {
    Add { key: Key, value: UpdateValue, force: bool },
    Delete(Key),
    RepeatAdd { pattern: String, value: UpdateValue, force: bool },
    RepeatDelete(String),
}

/// The audit report of one applied update.
#[derive(Debug)]
pub enum UpdateStatus {
    /// The keys that were removed.
    Deleted(Vec<String>),
    /// Each written key with the rendering of the written value.
    Add(Vec<(String, String)>),
}

/// A rendered value cut to the first `PREVIEW_CUTOFF` characters, with a
/// trailing ellipsis marker when something was cut.
pub open spec fn truncated(s: Seq<char>) -> Seq<char> {
    if s.len() > PREVIEW_CUTOFF {
        s.subrange(0, PREVIEW_CUTOFF as int) + seq![' ', '.', '.', '.']
    } else {
        s
    }
}

/// Cut a rendered value to the preview length.
pub fn truncate_preview(s: String) -> (r: String)
    ensures
        r@ == truncated(s@),
{
    let n = s.as_str().unicode_len();
    if n > PREVIEW_CUTOFF {
        let mut t = String::from_str(s.as_str().substring_char(0, PREVIEW_CUTOFF));
        t.append(" ...");
        proof {
            reveal_strlit(" ...");
            assert(" ..."@ =~= seq![' ', '.', '.', '.']);
            assert(t@ =~= truncated(s@));
        }
        t
    } else {
        s
    }
}

impl DbUpdateType {
    /// True exactly for an add variant whose force flag is set.
    pub open spec fn is_force_spec(&self) -> bool {
        match self {
            DbUpdateType::Add { force, .. } => *force,
            DbUpdateType::RepeatAdd { force, .. } => *force,
            _ => false,
        }
    }

    /// The typed value carried by an add variant.
    pub open spec fn value_spec(&self) -> UpdateValueV
        recommends
            self is Add || self is RepeatAdd,
    {
        match self {
            DbUpdateType::Add { value, .. } => value@,
            DbUpdateType::RepeatAdd { value, .. } => value@,
            _ => arbitrary(),
        }
    }

    /// The key or pattern string the update aims at.
    pub open spec fn target_spec(&self) -> Seq<char> {
        match self {
            DbUpdateType::Add { key, .. } => key@,
            DbUpdateType::Delete(key) => key@,
            DbUpdateType::RepeatAdd { pattern, .. } => pattern@,
            DbUpdateType::RepeatDelete(pattern) => pattern@,
        }
    }

    /// Any carried value is well formed.
    pub open spec fn wf(&self) -> bool {
        match self {
            DbUpdateType::Add { value, .. } => value@.wf(),
            DbUpdateType::RepeatAdd { value, .. } => value@.wf(),
            _ => true,
        }
    }

    /// Get the key or pattern being modified as a string.
    pub fn pattern(&self) -> (r: String)
        ensures
            r@ == self.target_spec(),
    {
        match self {
            DbUpdateType::Add { key, .. } => key.to_string_form(),
            DbUpdateType::Delete(key) => key.to_string_form(),
            DbUpdateType::RepeatAdd { pattern, .. } => String::from_str(pattern.as_str()),
            DbUpdateType::RepeatDelete(pattern) => String::from_str(pattern.as_str()),
        }
    }

    /// True exactly for an add variant whose force flag is set: such an
    /// update bypasses every validation check.
    pub fn is_force(&self) -> (r: bool)
        ensures
            r == self.is_force_spec(),
    {
        match self {
            DbUpdateType::Add { force, .. } => *force,
            DbUpdateType::RepeatAdd { force, .. } => *force,
            _ => false,
        }
    }

    /// The bounded preview of the carried bytes, shown in place of a
    /// decoded value when validation is bypassed.
    pub fn formatted_bytes(&self) -> (r: String)
        requires
            self.wf(),
        ensures
            r@ == self.formatted_bytes_spec(),
    {
        match self {
            DbUpdateType::Add { value, .. } => truncate_preview(
                crate::hex::hex_encode_upper(value.canonical_bytes().as_slice()),
            ),
            DbUpdateType::RepeatAdd { value, .. } => truncate_preview(
                crate::hex::hex_encode_upper(value.canonical_bytes().as_slice()),
            ),
            _ => String::new(),
        }
    }

    /// The bounded preview of the carried bytes, in uppercase hex.
    pub open spec fn formatted_bytes_spec(&self) -> Seq<char> {
        match self {
            DbUpdateType::Add { value, .. } => truncated(hex_upper(value@.canonical())),
            DbUpdateType::RepeatAdd { value, .. } => truncated(hex_upper(value@.canonical())),
            _ => Seq::empty(),
        }
    }
}

/// What validation makes of an update against a registry: the rendered
/// value for audit logging and, for a raw-mode add, the decoder to
/// re-check prior values with; or the reason it is rejected.
pub open spec fn spec_validate(reg: Map<Seq<u8>, DecoderKind>, op: DbUpdateType) -> Result<
    (Seq<char>, Option<DecoderKind>),
    MigrationError,
> {
    if op is Add || op is RepeatAdd {
        let v = op.value_spec();
        if op.is_force_spec() {
            Ok((op.formatted_bytes_spec(), None))
        } else if !reg.contains_key(v.type_hash) {
            Err(MigrationError::UnknownType)
        } else {
            match spec_decode(reg[v.type_hash], v.canonical()) {
                None => Err(MigrationError::DecodeFailure),
                Some(s) => Ok(
                    (
                        truncated(s),
                        if v.is_raw() {
                            Some(reg[v.type_hash])
                        } else {
                            None
                        },
                    ),
                ),
            }
        }
    } else {
        Ok((Seq::empty(), None))
    }
}

/// The rendered value validation reports for an update.
pub open spec fn validate_rendered(reg: Map<Seq<u8>, DecoderKind>, op: DbUpdateType) -> Seq<char> {
    match spec_validate(reg, op) {
        Ok(p) => p.0,
        Err(_) => Seq::empty(),
    }
}

/// The decoder validation returns for re-checking prior values.
pub open spec fn validate_decoder(reg: Map<Seq<u8>, DecoderKind>, op: DbUpdateType) -> Option<
    DecoderKind,
> {
    match spec_validate(reg, op) {
        Ok(p) => p.1,
        Err(_) => None,
    }
}

/// Validation never fails when the force flag is set, whatever the type
/// hash and byte content.
pub proof fn lemma_force_always_validates(reg: Map<Seq<u8>, DecoderKind>, op: DbUpdateType)
    requires
        op.is_force_spec(),
    ensures
        spec_validate(reg, op) is Ok,
        validate_decoder(reg, op) is None,
{
}

/// A non-force add with an unregistered type hash fails validation with
/// `UnknownType`.
pub proof fn lemma_unregistered_fails(reg: Map<Seq<u8>, DecoderKind>, op: DbUpdateType)
    requires
        op is Add || op is RepeatAdd,
        !op.is_force_spec(),
        !reg.contains_key(op.value_spec().type_hash),
    ensures
        spec_validate(reg, op) == Err::<(Seq<char>, Option<DecoderKind>), _>(
            MigrationError::UnknownType,
        ),
{
}

impl DbUpdateType {
    /// Validate that the contained value decodes correctly under the
    /// decoder registered for its type hash.  Returns the rendered value
    /// and, when the value is raw, the decoder for re-checking what the
    /// target keys currently hold; skips every check when the force flag
    /// is set.
    pub fn validate(&self, registry: &TypeDecoderRegistry) -> (r: Result<
        (String, Option<DecoderKind>),
        MigrationError,
    >)
        requires
            registry.wf(),
            self.wf(),
        ensures
            r is Ok == spec_validate(registry@, *self) is Ok,
            r matches Ok(p) ==> p.0@ == validate_rendered(registry@, *self) && p.1
                == validate_decoder(registry@, *self),
            r matches Err(e) ==> spec_validate(registry@, *self) == Err::<
                (Seq<char>, Option<DecoderKind>),
                _,
            >(e),
    {
        if self.is_force() {
            return Ok((self.formatted_bytes(), None));
        }
        match self {
            DbUpdateType::Add { value, .. } => validate_value(value, registry, Ghost(*self)),
            DbUpdateType::RepeatAdd { value, .. } => validate_value(value, registry, Ghost(*self)),
            DbUpdateType::Delete(_) => Ok((String::new(), None)),
            DbUpdateType::RepeatDelete(_) => Ok((String::new(), None)),
        }
    }
}

/// The shared registry check of the two non-force add variants.
fn validate_value(
    value: &UpdateValue,
    registry: &TypeDecoderRegistry,
    Ghost(op): Ghost<DbUpdateType>,
) -> (r: Result<(String, Option<DecoderKind>), MigrationError>)
    requires
        registry.wf(),
        value@.wf(),
        (op is Add || op is RepeatAdd),
        !op.is_force_spec(),
        op.value_spec() == value@,
    ensures
        r is Ok == spec_validate(registry@, op) is Ok,
        r matches Ok(p) ==> p.0@ == validate_rendered(registry@, op) && p.1 == validate_decoder(
            registry@,
            op,
        ),
        r matches Err(e) ==> spec_validate(registry@, op) == Err::<
            (Seq<char>, Option<DecoderKind>),
            _,
        >(e),
{
    let kind = match registry.lookup(value.type_hash()) {
        Some(k) => k,
        None => {
            return Err(MigrationError::UnknownType);
        },
    };
    let rendered = match decode_render(kind, value.canonical_bytes()) {
        Some(s) => s,
        None => {
            return Err(MigrationError::DecodeFailure);
        },
    };
    let deserializer = if value.is_raw() {
        Some(kind)
    } else {
        None
    };
    Ok((truncate_preview(rendered), deserializer))
}

/// An abstract view of the persisted key-value store, as the engine
/// consumes it: point read, point write, point delete, pattern scan.
pub trait DBUpdateVisitor: Sized {
    /// The current contents of the store, as a map from key string to
    /// stored bytes.
    spec fn contents(&self) -> Map<Seq<char>, Seq<u8>>;

    /// The value stored at a key, if any.
    fn read(&self, key: &Key) -> (r: Option<Vec<u8>>)
        ensures
            match r {
                Some(v) => self.contents().contains_key(key@) && v@ == self.contents()[key@],
                None => !self.contents().contains_key(key@),
            },
    ;

    /// Store a value at a key, replacing any prior value.
    fn write(&mut self, key: &Key, value: &Vec<u8>)
        ensures
            final(self).contents() == old(self).contents().insert(key@, value@),
    ;

    /// Remove the value at a key, if any.
    fn delete(&mut self, key: &Key)
        ensures
            final(self).contents() == old(self).contents().remove(key@),
    ;

    /// Every stored pair whose key string the pattern matches, each
    /// matching key exactly once, in an order of the store's choosing.
    fn get_pattern(&self, pattern: &Pattern) -> (r: Vec<(String, Vec<u8>)>)
        ensures
            forall|i: int|
                0 <= i < r@.len() ==> self.contents().contains_key((#[trigger] r@[i]).0@)
                    && r@[i].1@ == self.contents()[r@[i].0@] && regex_matches(pattern@, r@[i].0@),
            forall|k: Seq<char>|
                #[trigger] matching(self.contents(), pattern@).contains(k) ==> exists|i: int|
                    0 <= i < r@.len() && (#[trigger] r@[i]).0@ == k,
            forall|i: int, j: int|
                0 <= i < j < r@.len() ==> (#[trigger] r@[i]).0@ != (#[trigger] r@[j]).0@,
    ;
}

/// The keys of a store that a pattern matches.
pub open spec fn matching(m: Map<Seq<char>, Seq<u8>>, pat: Seq<char>) -> Set<Seq<char>> {
    Set::new(|k: Seq<char>| m.dom().contains(k) && regex_matches(pat, k))
}

/// The store after a pattern-scoped add writes `w` to every matching key.
pub open spec fn overwrite_matching(m: Map<Seq<char>, Seq<u8>>, pat: Seq<char>, w: Seq<u8>) -> Map<
    Seq<char>,
    Seq<u8>,
> {
    Map::new(
        |k: Seq<char>| m.dom().contains(k),
        |k: Seq<char>|
            if regex_matches(pat, k) {
                w
            } else {
                m[k]
            },
    )
}

/// Whether the prior value under some matching key fails to decode under
/// the declared type.
pub open spec fn some_prior_mismatch(
    m: Map<Seq<char>, Seq<u8>>,
    pat: Seq<char>,
    kind: DecoderKind,
) -> bool {
    exists|k: Seq<char>| #[trigger] matching(m, pat).contains(k) && spec_decode(kind, m[k]) is None
}

/// Whether a point add must be refused because the prior value under the
/// key fails to decode under the declared type.
pub open spec fn point_mismatch(
    m: Map<Seq<char>, Seq<u8>>,
    key: Seq<char>,
    dk: Option<DecoderKind>,
) -> bool {
    match dk {
        Some(kind) => m.contains_key(key) && spec_decode(kind, m[key]) is None,
        None => false,
    }
}

/// The outcome of applying one update to a store: the new contents, or
/// the reason the update is refused.
pub open spec fn spec_outcome(
    reg: Map<Seq<u8>, DecoderKind>,
    m: Map<Seq<char>, Seq<u8>>,
    op: DbUpdateType,
) -> Result<Map<Seq<char>, Seq<u8>>, MigrationError> {
    match spec_validate(reg, op) {
        Err(e) => Err(e),
        Ok(p) => match op {
            DbUpdateType::Add { key, value, .. } => if point_mismatch(m, key@, p.1) {
                Err(MigrationError::TypeMismatch)
            } else {
                Ok(m.insert(key@, value@.writable()))
            },
            DbUpdateType::Delete(key) => Ok(m.remove(key@)),
            DbUpdateType::RepeatAdd { pattern, value, .. } => if !regex_ok(pattern@) {
                Err(MigrationError::InvalidPattern)
            } else if match p.1 {
                Some(kind) => some_prior_mismatch(m, pattern@, kind),
                None => false,
            } {
                Err(MigrationError::TypeMismatch)
            } else {
                Ok(overwrite_matching(m, pattern@, value@.writable()))
            },
            DbUpdateType::RepeatDelete(pattern) => if !regex_ok(pattern@) {
                Err(MigrationError::InvalidPattern)
            } else {
                Ok(m.remove_keys(matching(m, pattern@)))
            },
        },
    }
}

/// The report pairs of a pattern-scoped add: exactly the matching keys,
/// each once, each with the rendered value.
pub open spec fn pairs_cover(
    m_old: Map<Seq<char>, Seq<u8>>,
    pat: Seq<char>,
    rendered: Seq<char>,
    pairs: Seq<(String, String)>,
) -> bool {
    &&& forall|i: int|
        0 <= i < pairs.len() ==> matching(m_old, pat).contains((#[trigger] pairs[i]).0@)
            && pairs[i].1@ == rendered
    &&& forall|k: Seq<char>|
        #[trigger] matching(m_old, pat).contains(k) ==> exists|i: int|
            0 <= i < pairs.len() && (#[trigger] pairs[i]).0@ == k
    &&& forall|i: int, j: int|
        0 <= i < j < pairs.len() ==> (#[trigger] pairs[i]).0@ != (#[trigger] pairs[j]).0@
}

/// The report keys of a pattern-scoped delete: exactly the matching keys,
/// each once.
pub open spec fn keys_cover(
    m_old: Map<Seq<char>, Seq<u8>>,
    pat: Seq<char>,
    keys: Seq<String>,
) -> bool {
    &&& forall|i: int|
        0 <= i < keys.len() ==> matching(m_old, pat).contains((#[trigger] keys[i])@)
    &&& forall|k: Seq<char>|
        #[trigger] matching(m_old, pat).contains(k) ==> exists|i: int|
            0 <= i < keys.len() && (#[trigger] keys[i])@ == k
    &&& forall|i: int, j: int|
        0 <= i < j < keys.len() ==> (#[trigger] keys[i])@ != (#[trigger] keys[j])@
}

/// What the audit report of a successful update must hold.
pub open spec fn status_describes(
    reg: Map<Seq<u8>, DecoderKind>,
    m_old: Map<Seq<char>, Seq<u8>>,
    op: DbUpdateType,
    st: UpdateStatus,
) -> bool {
    if op is Add {
        match st {
            UpdateStatus::Add(pairs) => pairs@.len() == 1 && pairs@[0].0@ == op.target_spec()
                && pairs@[0].1@ == validate_rendered(reg, op),
            _ => false,
        }
    } else if op is Delete {
        match st {
            UpdateStatus::Deleted(keys) => keys@.len() == 1 && keys@[0]@ == op.target_spec(),
            _ => false,
        }
    } else if op is RepeatAdd {
        match st {
            UpdateStatus::Add(pairs) => pairs_cover(
                m_old,
                op.target_spec(),
                validate_rendered(reg, op),
                pairs@,
            ),
            _ => false,
        }
    } else {
        match st {
            UpdateStatus::Deleted(keys) => keys_cover(m_old, op.target_spec(), keys@),
            _ => false,
        }
    }
}

/// How far a store may have moved when an update is refused: point
/// operations leave it untouched; a pattern-scoped add may have written
/// its value to some of the matching keys before the failure.
pub open spec fn damage_bounded(
    m_old: Map<Seq<char>, Seq<u8>>,
    m_new: Map<Seq<char>, Seq<u8>>,
    op: DbUpdateType,
) -> bool {
    match op {
        DbUpdateType::RepeatAdd { pattern, value, .. } => {
            &&& m_new.dom() == m_old.dom()
            &&& forall|k: Seq<char>|
                #[trigger] m_new.dom().contains(k) ==> m_new[k] == m_old[k] || (matching(
                    m_old,
                    pattern@,
                ).contains(k) && m_new[k] == value@.writable())
        },
        _ => m_new == m_old,
    }
}

impl DbUpdateType {
    /// Validate the update and persist it through the store visitor.
    /// Point operations either fully apply or leave the store untouched;
    /// a pattern-scoped add aborts on the first mismatching prior value,
    /// leaving earlier writes of the same batch in place.
    pub fn update<D: DBUpdateVisitor>(&self, db: &mut D, registry: &TypeDecoderRegistry) -> (r:
        Result<UpdateStatus, MigrationError>)
        requires
            registry.wf(),
            self.wf(),
        ensures
            r is Ok == spec_outcome(registry@, old(db).contents(), *self) is Ok,
            r matches Ok(st) ==> Ok::<_, MigrationError>(final(db).contents()) == spec_outcome(
                registry@,
                old(db).contents(),
                *self,
            ) && status_describes(registry@, old(db).contents(), *self, st),
            r matches Err(e) ==> spec_outcome(registry@, old(db).contents(), *self) == Err::<
                Map<Seq<char>, Seq<u8>>,
                _,
            >(e) && damage_bounded(old(db).contents(), final(db).contents(), *self),
    {
        match self {
            DbUpdateType::Add { key, value, .. } => {
                let (rendered, deserializer) = match self.validate(registry) {
                    Ok(p) => p,
                    Err(e) => {
                        return Err(e);
                    },
                };
                if let Some(kind) = deserializer {
                    match db.read(key) {
                        Some(prev) => {
                            if decode_render(kind, &prev).is_none() {
                                return Err(MigrationError::TypeMismatch);
                            }
                        },
                        None => {},
                    }
                }
                db.write(key, value.to_write());
                let mut pairs: Vec<(String, String)> = Vec::new();
                pairs.push((key.to_string_form(), rendered));
                Ok(UpdateStatus::Add(pairs))
            },
            DbUpdateType::Delete(key) => {
                db.delete(key);
                let mut keys: Vec<String> = Vec::new();
                keys.push(key.to_string_form());
                Ok(UpdateStatus::Deleted(keys))
            },
            DbUpdateType::RepeatAdd { pattern, value, .. } => {
                let (rendered, deserializer) = match self.validate(registry) {
                    Ok(p) => p,
                    Err(e) => {
                        return Err(e);
                    },
                };
                let compiled = match Pattern::new(String::from_str(pattern.as_str())) {
                    Some(p) => p,
                    None => {
                        return Err(MigrationError::InvalidPattern);
                    },
                };
                apply_repeat_add(
                    db,
                    &compiled,
                    value,
                    rendered,
                    deserializer,
                    Ghost(registry@),
                    Ghost(*self),
                )
            },
            DbUpdateType::RepeatDelete(pattern) => {
                let compiled = match Pattern::new(String::from_str(pattern.as_str())) {
                    Some(p) => p,
                    None => {
                        return Err(MigrationError::InvalidPattern);
                    },
                };
                apply_repeat_delete(db, &compiled, Ghost(registry@), Ghost(*self))
            },
        }
    }
}

/// The scan-check-write loop of a pattern-scoped add.
#[verifier::spinoff_prover]
#[verifier::rlimit(100)]
fn apply_repeat_add<D: DBUpdateVisitor>(
    db: &mut D,
    compiled: &Pattern,
    value: &UpdateValue,
    rendered: String,
    deserializer: Option<DecoderKind>,
    Ghost(reg): Ghost<Map<Seq<u8>, DecoderKind>>,
    Ghost(op): Ghost<DbUpdateType>,
) -> (r: Result<UpdateStatus, MigrationError>)
    requires
        op is RepeatAdd,
        op.target_spec() == compiled@,
        op.value_spec() == value@,
        value@.wf(),
        regex_ok(compiled@),
        spec_validate(reg, op) is Ok,
        rendered@ == validate_rendered(reg, op),
        deserializer == validate_decoder(reg, op),
    ensures
        r is Ok == spec_outcome(reg, old(db).contents(), op) is Ok,
        r matches Ok(st) ==> Ok::<_, MigrationError>(final(db).contents()) == spec_outcome(
            reg,
            old(db).contents(),
            op,
        ) && status_describes(reg, old(db).contents(), op, st),
        r matches Err(e) ==> spec_outcome(reg, old(db).contents(), op) == Err::<
            Map<Seq<char>, Seq<u8>>,
            _,
        >(e) && damage_bounded(old(db).contents(), final(db).contents(), op),
{
    let ghost m0 = db.contents();
    let found = db.get_pattern(compiled);
    let mut pairs: Vec<(String, String)> = Vec::new();
    let n = found.len();
    let mut i: usize = 0;
    while i < n
        invariant
            op is RepeatAdd,
            op.target_spec() == compiled@,
            op.value_spec() == value@,
            value@.wf(),
            regex_ok(compiled@),
            spec_validate(reg, op) is Ok,
            rendered@ == validate_rendered(reg, op),
            deserializer == validate_decoder(reg, op),
            m0 == old(db).contents(),
            n == found@.len(),
            i <= n,
            forall|j: int|
                0 <= j < n ==> m0.contains_key((#[trigger] found@[j]).0@) && found@[j].1@
                    == m0[found@[j].0@] && regex_matches(compiled@, found@[j].0@),
            forall|k: Seq<char>|
                #[trigger] matching(m0, compiled@).contains(k) ==> exists|j: int|
                    0 <= j < n && (#[trigger] found@[j]).0@ == k,
            forall|j: int, l: int|
                0 <= j < l < n ==> (#[trigger] found@[j]).0@ != (#[trigger] found@[l]).0@,
            forall|k: Seq<char>| db.contents().contains_key(k) == m0.contains_key(k),
            forall|j: int|
                0 <= j < i ==> db.contents()[(#[trigger] found@[j]).0@] == value@.writable(),
            forall|k: Seq<char>|
                m0.contains_key(k) && !(exists|j: int|
                    0 <= j < i && (#[trigger] found@[j]).0@ == k) ==> db.contents()[k] == m0[k],
            forall|j: int|
                0 <= j < i ==> match deserializer {
                    Some(kind) => spec_decode(kind, m0[(#[trigger] found@[j]).0@]) is Some,
                    None => true,
                },
            pairs@.len() == i,
            forall|j: int|
                0 <= j < i ==> (#[trigger] pairs@[j]).0@ == found@[j].0@ && pairs@[j].1@
                    == rendered@,
        decreases n - i,
    {
        let prior_ok = match deserializer {
            Some(kind) => {
                match decode_render(kind, &found[i].1) {
                    Some(_) => true,
                    None => false,
                }
            },
            None => true,
        };
        if !prior_ok {
            proof {
                let ghost fk = found@[i as int].0@;
                assert(matching(m0, compiled@).contains(fk));
                assert(spec_outcome(reg, m0, op) == Err::<Map<Seq<char>, Seq<u8>>, _>(
                    MigrationError::TypeMismatch,
                ));
                assert(db.contents().dom() =~= m0.dom());
            }
            return Err(MigrationError::TypeMismatch);
        }
        let k = Key::from_string(found[i].0.clone());
        db.write(&k, value.to_write());
        pairs.push((found[i].0.clone(), rendered.clone()));
        i += 1;
    }
    proof {
        assert(match deserializer {
            Some(kind) => !some_prior_mismatch(m0, compiled@, kind),
            None => true,
        }) by {
            match deserializer {
                Some(kind) => {
                    if some_prior_mismatch(m0, compiled@, kind) {
                        let bad = choose|k: Seq<char>| #[trigger] matching(m0, compiled@).contains(
                            k,
                        ) && spec_decode(kind, m0[k]) is None;
                        let j = choose|j: int| 0 <= j < n && (#[trigger] found@[j]).0@ == bad;
                        assert(spec_decode(kind, m0[found@[j].0@]) is Some);
                    }
                },
                None => {},
            }
        }
        assert(db.contents() =~= overwrite_matching(m0, compiled@, value@.writable())) by {
            assert forall|k: Seq<char>| db.contents().contains_key(k) == overwrite_matching(
                m0,
                compiled@,
                value@.writable(),
            ).contains_key(k) by {}
            assert forall|k: Seq<char>| #[trigger] db.contents().contains_key(k) implies db.contents()[k]
                == overwrite_matching(m0, compiled@, value@.writable())[k] by {
                if matching(m0, compiled@).contains(k) {
                    let j = choose|j: int| 0 <= j < n && (#[trigger] found@[j]).0@ == k;
                    assert(db.contents()[found@[j].0@] == value@.writable());
                } else {
                    if exists|j: int| 0 <= j < n && (#[trigger] found@[j]).0@ == k {
                        let j = choose|j: int| 0 <= j < n && (#[trigger] found@[j]).0@ == k;
                        assert(matching(m0, compiled@).contains(found@[j].0@));
                    }
                    assert(!regex_matches(compiled@, k) || !m0.contains_key(k));
                }
            }
        }
        assert forall|i: int|
            0 <= i < pairs@.len() implies matching(old(db).contents(), op.target_spec()).contains(
            (#[trigger] pairs@[i]).0@,
        ) && pairs@[i].1@ == validate_rendered(reg, op) by {
            assert(pairs@[i].0@ == found@[i].0@);
            assert(m0.contains_key(found@[i].0@) && regex_matches(compiled@, found@[i].0@));
        }
        assert forall|k: Seq<char>|
            #[trigger] matching(old(db).contents(), op.target_spec()).contains(k) implies exists|
            i: int,
        | 0 <= i < pairs@.len() && (#[trigger] pairs@[i]).0@ == k by {
            let j = choose|j: int| 0 <= j < n && (#[trigger] found@[j]).0@ == k;
            assert((pairs@[j]).0@ == k);
        }
        assert forall|i: int, j: int|
            0 <= i < j < pairs@.len() implies (#[trigger] pairs@[i]).0@ != (
        #[trigger] pairs@[j]).0@ by {
            assert(pairs@[i].0@ == found@[i].0@ && pairs@[j].0@ == found@[j].0@);
            assert(found@[i].0@ != found@[j].0@);
        }
        assert(pairs_cover(
            old(db).contents(),
            op.target_spec(),
            validate_rendered(reg, op),
            pairs@,
        ));
    }
    Ok(UpdateStatus::Add(pairs))
}

/// The scan-delete loop of a pattern-scoped delete.
#[verifier::spinoff_prover]
#[verifier::rlimit(100)]
fn apply_repeat_delete<D: DBUpdateVisitor>(
    db: &mut D,
    compiled: &Pattern,
    Ghost(reg): Ghost<Map<Seq<u8>, DecoderKind>>,
    Ghost(op): Ghost<DbUpdateType>,
) -> (r: Result<UpdateStatus, MigrationError>)
    requires
        op matches DbUpdateType::RepeatDelete(p) && p@ == compiled@,
        regex_ok(compiled@),
    ensures
        r is Ok,
        r matches Ok(st) ==> Ok::<_, MigrationError>(final(db).contents()) == spec_outcome(
            reg,
            old(db).contents(),
            op,
        ) && status_describes(reg, old(db).contents(), op, st),
{
    let ghost m0 = db.contents();
    let found = db.get_pattern(compiled);
    let mut keys: Vec<String> = Vec::new();
    let n = found.len();
    let mut i: usize = 0;
    while i < n
        invariant
            op matches DbUpdateType::RepeatDelete(p) && p@ == compiled@,
            regex_ok(compiled@),
            m0 == old(db).contents(),
            n == found@.len(),
            i <= n,
            forall|j: int|
                0 <= j < n ==> m0.contains_key((#[trigger] found@[j]).0@) && regex_matches(
                    compiled@,
                    found@[j].0@,
                ),
            forall|k: Seq<char>|
                #[trigger] matching(m0, compiled@).contains(k) ==> exists|j: int|
                    0 <= j < n && (#[trigger] found@[j]).0@ == k,
            forall|j: int, l: int|
                0 <= j < l < n ==> (#[trigger] found@[j]).0@ != (#[trigger] found@[l]).0@,
            forall|k: Seq<char>|
                db.contents().contains_key(k) == (m0.contains_key(k) && !(exists|j: int|
                    0 <= j < i && (#[trigger] found@[j]).0@ == k)),
            forall|k: Seq<char>| #[trigger] db.contents().contains_key(k) ==> db.contents()[k]
                == m0[k],
            keys@.len() == i,
            forall|j: int| 0 <= j < i ==> (#[trigger] keys@[j])@ == found@[j].0@,
        decreases n - i,
    {
        let k = Key::from_string(found[i].0.clone());
        db.delete(&k);
        keys.push(found[i].0.clone());
        i += 1;
    }
    proof {
        assert(db.contents() =~= m0.remove_keys(matching(m0, compiled@))) by {
            assert forall|k: Seq<char>| db.contents().contains_key(k) == m0.remove_keys(
                matching(m0, compiled@),
            ).contains_key(k) by {
                if m0.contains_key(k) {
                    if matching(m0, compiled@).contains(k) {
                        assert(exists|j: int| 0 <= j < n && (#[trigger] found@[j]).0@ == k);
                    } else {
                        if exists|j: int| 0 <= j < n && (#[trigger] found@[j]).0@ == k {
                            let j = choose|j: int| 0 <= j < n && (#[trigger] found@[j]).0@ == k;
                            assert(matching(m0, compiled@).contains(found@[j].0@));
                        }
                    }
                }
            }
        }
        assert forall|k: Seq<char>|
            #[trigger] matching(old(db).contents(), op.target_spec()).contains(k) implies exists|
            i: int,
        | 0 <= i < keys@.len() && (#[trigger] keys@[i])@ == k by {
            assert(matching(m0, compiled@).contains(k));
            let j = choose|j: int| 0 <= j < n && (#[trigger] found@[j]).0@ == k;
            assert((keys@[j])@ == k);
        }
        assert forall|i: int|
            0 <= i < keys@.len() implies matching(old(db).contents(), op.target_spec()).contains(
            (#[trigger] keys@[i])@,
        ) by {
            assert((keys@[i])@ == found@[i].0@);
            assert(m0.contains_key(found@[i].0@));
            assert(regex_matches(compiled@, found@[i].0@));
        }
        assert forall|i: int, j: int|
            0 <= i < j < keys@.len() implies (#[trigger] keys@[i])@ != (#[trigger] keys@[j])@ by {
            assert((keys@[i])@ == found@[i].0@ && (keys@[j])@ == found@[j].0@);
            assert(found@[i].0@ != found@[j].0@);
        }
        assert(keys_cover(old(db).contents(), op.target_spec(), keys@));
    }
    Ok(UpdateStatus::Deleted(keys))
}

/// The outcome of applying a whole script front to back: the final
/// contents, or the error of the first entry that fails.
pub open spec fn spec_apply_all(
    reg: Map<Seq<u8>, DecoderKind>,
    m: Map<Seq<char>, Seq<u8>>,
    ops: Seq<DbUpdateType>,
) -> Result<Map<Seq<char>, Seq<u8>>, MigrationError>
    decreases ops.len(),
{
    if ops.len() == 0 {
        Ok(m)
    } else {
        match spec_outcome(reg, m, ops[0]) {
            Err(e) => Err(e),
            Ok(m2) => spec_apply_all(reg, m2, ops.drop_first()),
        }
    }
}

/// An ordered migration script.
pub struct DbChanges {
    pub changes: Vec<DbUpdateType>,
}

impl DbChanges {
    /// Every carried value is well formed.
    pub open spec fn wf(&self) -> bool {
        forall|i: int| 0 <= i < self.changes@.len() ==> (#[trigger] self.changes@[i]).wf()
    }

    /// Apply every update strictly in order, stopping at the first entry
    /// that fails; entries already applied remain applied.
    pub fn apply<D: DBUpdateVisitor>(&self, db: &mut D, registry: &TypeDecoderRegistry) -> (r:
        Result<Vec<UpdateStatus>, MigrationError>)
        requires
            registry.wf(),
            self.wf(),
        ensures
            r is Ok == spec_apply_all(registry@, old(db).contents(), self.changes@) is Ok,
            r matches Ok(sts) ==> Ok::<_, MigrationError>(final(db).contents()) == spec_apply_all(
                registry@,
                old(db).contents(),
                self.changes@,
            ) && sts@.len() == self.changes@.len(),
            r matches Err(e) ==> spec_apply_all(registry@, old(db).contents(), self.changes@)
                == Err::<Map<Seq<char>, Seq<u8>>, _>(e),
    {
        let mut statuses: Vec<UpdateStatus> = Vec::new();
        let n = self.changes.len();
        let mut i: usize = 0;
        proof {
            assert(self.changes@.skip(0) =~= self.changes@);
        }
        while i < n
            invariant
                registry.wf(),
                self.wf(),
                n == self.changes@.len(),
                i <= n,
                statuses@.len() == i,
                spec_apply_all(registry@, old(db).contents(), self.changes@) == spec_apply_all(
                    registry@,
                    db.contents(),
                    self.changes@.skip(i as int),
                ),
            decreases n - i,
        {
            let ghost mb = db.contents();
            let entry = &self.changes[i];
            proof {
                assert(self.changes@.skip(i as int)[0] == self.changes@[i as int]);
            }
            match entry.update(db, registry) {
                Ok(st) => {
                    statuses.push(st);
                    proof {
                        assert(self.changes@.skip(i as int).drop_first() =~= self.changes@.skip(
                            i as int + 1,
                        ));
                    }
                },
                Err(e) => {
                    proof {
                        assert(spec_apply_all(registry@, mb, self.changes@.skip(i as int))
                            == Err::<Map<Seq<char>, Seq<u8>>, _>(e));
                    }
                    return Err(e);
                },
            }
            i += 1;
        }
        proof {
            assert(self.changes@.skip(n as int) =~= Seq::<DbUpdateType>::empty());
        }
        Ok(statuses)
    }
}

/// The text shown for a refused update.
pub open spec fn error_text(e: MigrationError) -> Seq<char> {
    match e {
        MigrationError::UnknownType => "unknown type hash"@,
        MigrationError::DecodeFailure => "value does not decode under its declared type"@,
        MigrationError::TypeMismatch => "prior value does not decode under the declared type"@,
        MigrationError::InvalidPattern => "malformed key pattern"@,
    }
}

impl MigrationError {
    /// A short description of the failure.
    pub fn describe(&self) -> (r: &'static str)
        ensures
            r@ == error_text(*self),
    {
        match self {
            MigrationError::UnknownType => "unknown type hash",
            MigrationError::DecodeFailure => "value does not decode under its declared type",
            MigrationError::TypeMismatch => "prior value does not decode under the declared type",
            MigrationError::InvalidPattern => "malformed key pattern",
        }
    }
}

/// The audit line for an update: target, mode and rendered value, or the
/// validation error text in place of the value.
pub open spec fn display_text(reg: Map<Seq<u8>, DecoderKind>, op: DbUpdateType) -> Seq<char> {
    match op {
        DbUpdateType::Add { key, value, .. } => match spec_validate(reg, op) {
            Ok(p) => "Write to key: <"@ + key@ + "> with "@ + (if value@.is_raw() {
                "raw "@
            } else {
                Seq::<char>::empty()
            }) + "value: "@ + p.0,
            Err(e) => error_text(e),
        },
        DbUpdateType::Delete(key) => "Delete key: <"@ + key@ + ">"@,
        DbUpdateType::RepeatAdd { pattern, value, .. } => match spec_validate(reg, op) {
            Ok(p) => "Write to pattern: <"@ + pattern@ + "> with "@ + (if value@.is_raw() {
                "raw "@
            } else {
                Seq::<char>::empty()
            }) + "value: "@ + p.0,
            Err(e) => error_text(e),
        },
        DbUpdateType::RepeatDelete(pattern) => "Delete pattern: <"@ + pattern@ + ">"@,
    }
}

impl DbUpdateType {
    /// Render the update for audit logging; a validation error is shown
    /// in place of the value.
    pub fn to_display_string(&self, registry: &TypeDecoderRegistry) -> (r: String)
        requires
            registry.wf(),
            self.wf(),
        ensures
            r@ == display_text(registry@, *self),
    {
        match self {
            DbUpdateType::Add { key, value, .. } => {
                match self.validate(registry) {
                    Ok((rendered, _)) => {
                        let mut s = String::from_str("Write to key: <");
                        s.append(key.as_str());
                        s.append("> with ");
                        if value.is_raw() {
                            s.append("raw ");
                        }
                        s.append("value: ");
                        s.append(rendered.as_str());
                        proof {
                            assert(s@ =~= display_text(registry@, *self));
                        }
                        s
                    },
                    Err(e) => {
                        let s = String::from_str(e.describe());
                        s
                    },
                }
            },
            DbUpdateType::Delete(key) => {
                let mut s = String::from_str("Delete key: <");
                s.append(key.as_str());
                s.append(">");
                proof {
                    assert(s@ =~= display_text(registry@, *self));
                }
                s
            },
            DbUpdateType::RepeatAdd { pattern, value, .. } => {
                match self.validate(registry) {
                    Ok((rendered, _)) => {
                        let mut s = String::from_str("Write to pattern: <");
                        s.append(pattern.as_str());
                        s.append("> with ");
                        if value.is_raw() {
                            s.append("raw ");
                        }
                        s.append("value: ");
                        s.append(rendered.as_str());
                        proof {
                            assert(s@ =~= display_text(registry@, *self));
                        }
                        s
                    },
                    Err(e) => {
                        let s = String::from_str(e.describe());
                        s
                    },
                }
            },
            DbUpdateType::RepeatDelete(pattern) => {
                let mut s = String::from_str("Delete pattern: <");
                s.append(pattern.as_str());
                s.append(">");
                proof {
                    assert(s@ =~= display_text(registry@, *self));
                }
                s
            },
        }
    }
}

/// The audit lines for a list of deleted keys.
pub open spec fn deleted_lines(keys: Seq<String>) -> Seq<char>
    decreases keys.len(),
{
    if keys.len() == 0 {
        Seq::<char>::empty()
    } else {
        deleted_lines(keys.drop_last()) + "Deleting key <"@ + keys.last()@ + ">\n"@
    }
}

/// The audit lines for a list of written keys and rendered values.
pub open spec fn added_lines(pairs: Seq<(String, String)>) -> Seq<char>
    decreases pairs.len(),
{
    if pairs.len() == 0 {
        Seq::<char>::empty()
    } else {
        added_lines(pairs.drop_last()) + "Writing key <"@ + pairs.last().0@ + "> with value: "@
            + pairs.last().1@ + "\n"@
    }
}

/// The audit report text of one applied update, one line per key.
pub open spec fn status_text(st: UpdateStatus) -> Seq<char> {
    match st {
        UpdateStatus::Deleted(keys) => deleted_lines(keys@),
        UpdateStatus::Add(pairs) => added_lines(pairs@),
    }
}

impl UpdateStatus {
    /// Render the audit report, one line per affected key.
    pub fn to_display_string(&self) -> (r: String)
        ensures
            r@ == status_text(*self),
    {
        let mut s = String::new();
        match self {
            UpdateStatus::Deleted(keys) => {
                let n = keys.len();
                let mut i: usize = 0;
                while i < n
                    invariant
                        n == keys@.len(),
                        i <= n,
                        s@ == deleted_lines(keys@.subrange(0, i as int)),
                    decreases n - i,
                {
                    s.append("Deleting key <");
                    s.append(keys[i].as_str());
                    s.append(">\n");
                    proof {
                        assert(keys@.subrange(0, i as int + 1).drop_last() =~= keys@.subrange(
                            0,
                            i as int,
                        ));
                        assert(keys@.subrange(0, i as int + 1).last() == keys@[i as int]);
                        assert(s@ =~= deleted_lines(keys@.subrange(0, i as int + 1)));
                    }
                    i += 1;
                }
                proof {
                    assert(keys@.subrange(0, n as int) =~= keys@);
                }
            },
            UpdateStatus::Add(pairs) => {
                let n = pairs.len();
                let mut i: usize = 0;
                while i < n
                    invariant
                        n == pairs@.len(),
                        i <= n,
                        s@ == added_lines(pairs@.subrange(0, i as int)),
                    decreases n - i,
                {
                    s.append("Writing key <");
                    s.append(pairs[i].0.as_str());
                    s.append("> with value: ");
                    s.append(pairs[i].1.as_str());
                    s.append("\n");
                    proof {
                        assert(pairs@.subrange(0, i as int + 1).drop_last() =~= pairs@.subrange(
                            0,
                            i as int,
                        ));
                        assert(pairs@.subrange(0, i as int + 1).last() == pairs@[i as int]);
                        assert(s@ =~= added_lines(pairs@.subrange(0, i as int + 1)));
                    }
                    i += 1;
                }
                proof {
                    assert(pairs@.subrange(0, n as int) =~= pairs@);
                }
            },
        }
        s
    }
}

} // verus!
