//! Form definitions and the validation of payloads submitted against them.
//!
//! A form definition declares a set of named fields, each with a declared
//! type.  A submitted payload is valid when its key set is a subset of the
//! definition's field names; the declared types are never checked, only
//! key-set membership.  A definition also carries an optional absolute
//! expiry instant, held as milliseconds since the Unix epoch: the cache
//! that stores definitions knows nothing of expiry, so its consumers check
//! the instant on every read.

use vstd::prelude::*;

verus! {

/// The type a form field declares for its values.  Validation never reads
/// it; it only travels with the field name.
#[derive(Clone, Copy, PartialEq, Eq, Structural, Debug)]
pub enum FieldType {
    Number,
    String,
    Boolean,
}

/// One declared field of a form definition.
pub struct Field {
    pub name: String,
    pub field_type: FieldType,
}

/// The abstract value of a `Field`.
pub struct FieldView {
    pub name: Seq<char>,
    pub field_type: FieldType,
}

impl View for Field {
    type V = FieldView;

    open spec fn view(&self) -> FieldView {
        FieldView { name: self.name@, field_type: self.field_type }
    }
}

/// A form definition: an optional identifier, the declared fields, and an
/// optional absolute expiry instant in milliseconds since the Unix epoch.
pub struct FormData {
    pub id: Option<String>,
    pub fields: Vec<Field>,
    pub expires_at: Option<i64>,
}

/// The abstract value of a `FormData`.
pub struct FormDataView {
    pub id: Option<Seq<char>>,
    pub fields: Seq<FieldView>,
    pub expires_at: Option<i64>,
}

impl View for FormData {
    type V = FormDataView;

    open spec fn view(&self) -> FormDataView {
        FormDataView {
            id: match self.id {
                Some(s) => Some(s@),
                None => None,
            },
            fields: self.fields@.map_values(|f: Field| f@),
            expires_at: self.expires_at,
        }
    }
}

impl Field {
    /// A field equal in value to this one.
    pub fn duplicate(&self) -> (r: Field)
        ensures
            r@ == self@,
    {
        Field { name: self.name.clone(), field_type: self.field_type }
    }
}

impl FormData {
    /// A definition equal in abstract value to this one.
    pub fn duplicate(&self) -> (r: FormData)
        ensures
            r@ == self@,
    {
        let id = match &self.id {
            Some(s) => Some(s.clone()),
            None => None,
        };
        let mut fields: Vec<Field> = Vec::new();
        let mut i: usize = 0;
        while i < self.fields.len()
            invariant
                i <= self.fields.len(),
                fields@.len() == i,
                forall|j: int| 0 <= j < i ==> fields@[j]@ == self.fields@[j]@,
            decreases self.fields.len() - i,
        {
            let f = self.fields[i].duplicate();
            fields.push(f);
            i = i + 1;
        }
        let r = FormData { id, fields, expires_at: self.expires_at };
        proof {
            assert(r@.fields =~= self@.fields);
        }
        r
    }

    /// Whether this definition is expired at the instant `now`: it carries
    /// an expiry instant and that instant has been reached.
    pub open spec fn spec_expired_at(&self, now: i64) -> bool {
        match self.expires_at {
            Some(t) => now >= t,
            None => false,
        }
    }

    /// Whether this definition is expired at the instant `now`.  A
    /// definition without an expiry instant never expires.
    pub fn expired_at(&self, now: i64) -> (r: bool)
        ensures
            r == self.spec_expired_at(now),
    {
        match self.expires_at {
            Some(t) => now >= t,
            None => false,
        }
    }
}

/// Some field of `fields` is named `k`.
pub open spec fn spec_has_field_name(fields: Seq<FieldView>, k: Seq<char>) -> bool {
    exists|i: int| 0 <= i < fields.len() && fields[i].name == k
}

/// The payload keys of `keys` that name no field of `fields`, in payload
/// order: the offending keys of an invalid submission.
pub open spec fn spec_invalid_keys(keys: Seq<Seq<char>>, fields: Seq<FieldView>) -> Seq<Seq<char>>
    decreases keys.len(),
{
    if keys.len() == 0 {
        Seq::empty()
    } else {
        let rest = spec_invalid_keys(keys.drop_last(), fields);
        if !spec_has_field_name(fields, keys.last()) {
            rest.push(keys.last())
        } else {
            rest
        }
    }
}

/// Whether some field of `fields` is named `key`.
pub fn has_field_name(fields: &Vec<Field>, key: &str) -> (r: bool)
    ensures
        r == spec_has_field_name(fields@.map_values(|f: Field| f@), key@),
{
    let ghost fv = fields@.map_values(|f: Field| f@);
    let mut i: usize = 0;
    while i < fields.len()
        invariant
            i <= fields.len(),
            fv == fields@.map_values(|f: Field| f@),
            forall|j: int| 0 <= j < i ==> fv[j].name != key@,
        decreases fields.len() - i,
    {
        if crate::cache::str_eq(fields[i].name.as_str(), key) {
            proof {
                assert(fields@.map_values(|f: Field| f@)[i as int].name == key@);
            }
            return true;
        }
        i = i + 1;
    }
    false
}

/// The submitted keys that the definition does not declare, in submission
/// order.  The submission is valid exactly when the result is empty.
pub fn invalid_keys(payload_keys: &Vec<String>, fields: &Vec<Field>) -> (r: Vec<String>)
    ensures
        r@.map_values(|s: String| s@) == spec_invalid_keys(
            payload_keys@.map_values(|s: String| s@),
            fields@.map_values(|f: Field| f@),
        ),
{
    let ghost fv = fields@.map_values(|f: Field| f@);
    let ghost kv = payload_keys@.map_values(|s: String| s@);
    let mut r: Vec<String> = Vec::new();
    let mut i: usize = 0;
    proof {
        assert(kv.subrange(0, 0) =~= Seq::<Seq<char>>::empty());
    }
    while i < payload_keys.len()
        invariant
            i <= payload_keys.len(),
            fv == fields@.map_values(|f: Field| f@),
            kv == payload_keys@.map_values(|s: String| s@),
            r@.map_values(|s: String| s@) == spec_invalid_keys(kv.subrange(0, i as int), fv),
        decreases payload_keys.len() - i,
    {
        proof {
            assert(kv.subrange(0, i + 1).drop_last() =~= kv.subrange(0, i as int));
            assert(kv.subrange(0, i + 1).last() == kv[i as int]);
            assert(kv[i as int] == payload_keys@[i as int]@);
        }
        if !has_field_name(fields, payload_keys[i].as_str()) {
            let k = payload_keys[i].clone();
            r.push(k);
            proof {
                assert(r@.map_values(|s: String| s@) =~= spec_invalid_keys(
                    kv.subrange(0, i + 1),
                    fv,
                ));
            }
        } else {
            proof {
                assert(r@.map_values(|s: String| s@) =~= spec_invalid_keys(
                    kv.subrange(0, i + 1),
                    fv,
                ));
            }
        }
        i = i + 1;
    }
    proof {
        assert(kv.subrange(0, kv.len() as int) =~= kv);
    }
    r
}

} // verus!
