//! A runtime schema for mapping records to entities and back.
//!
//! A schema names one primary-key field and any number of mapped fields,
//! each with a wire property name, a shape, an arity, an indexing policy
//! and an optional legacy-text flag. Two functions do all the work:
//! [`to_entity`] serializes a record's field values into an entity, and
//! [`from_entity`] reads them back, failing distinguishably when the
//! entity's kind is wrong, when the key cannot be derived because it is
//! incomplete, or when a property's value does not fit its field.

use vstd::prelude::*;

use crate::ds::entity::effective_of;
use crate::ds::entity::str_eq;
use crate::ds::entity::Entity;
use crate::ds::entity::Key;
use crate::ds::entity::KeyVariantView;
use crate::ds::entity::PathElemView;
use crate::ds::entity::PropView;
use crate::ds::entity::Value;
use crate::ds::entity::ValueView;
use crate::ds::entity::MEANING_TEXT;
use crate::error::EntailError;
use crate::error::EntailErrorKind;

verus! {

/// The shape of a mapped field's elements.
#[derive(Debug, Clone, Copy, PartialEq, Eq, Structural)]
pub enum FieldShape {
    /// Text; 32-bit and 64-bit integers are widened to 64 bits, and 32-bit
    /// and 64-bit floating-point numbers to 64 bits, before mapping.
    Text,
    Integer,
    Float,
    Boolean,
    Blob,
    KeyRef,
}

/// How many values a mapped field holds.
#[derive(Debug, Clone, Copy, PartialEq, Eq, Structural)]
pub enum FieldArity {
    /// Exactly one value.
    Required,
    /// One value or none; none is written as null, and read back from
    /// null, an empty array or a one-element array.
    Optional,
    /// A list of values, mapped to an array.
    Repeated,
}

/// When a mapped field is indexed.
#[derive(Debug, Clone, Copy, PartialEq, Eq, Structural)]
pub enum IndexPolicy {
    /// Always indexed; the default.
    Indexed,
    /// Never indexed.
    Unindexed,
    /// Indexed only when the effective value is not null.
    UnindexedNulls,
}

/// How the primary-key field relates to the entity's key.
#[derive(Debug, Clone, Copy, PartialEq, Eq, Structural)]
pub enum KeyShape {
    /// The field holds the string name component of the key.
    ByName,
    /// The field holds the integer id component of the key.
    ById,
    /// The field holds the whole key.
    WholeKey,
}

/// One mapped field of a schema.
#[derive(Debug)]
pub struct FieldSchema {
    /// The property name the field is stored under.
    pub wire_name: String,
    /// The shape of the field's elements.
    pub shape: FieldShape,
    /// How many values the field holds.
    pub arity: FieldArity,
    /// When the field is indexed.
    pub policy: IndexPolicy,
    /// Marks a text field as a large block of text for older clients: it
    /// is stored unindexed with the legacy text meaning, though a null is
    /// still indexed and carries no meaning.
    pub legacy_text: bool,
}

/// A schema: a kind, the shape of the primary-key field, and the mapped
/// fields.
#[derive(Debug)]
pub struct ModelSchema {
    /// The kind of the entities the schema maps.
    pub kind: String,
    /// How the primary-key field relates to the entity's key.
    pub key_shape: KeyShape,
    /// Whether the primary-key field may be absent, leaving the key
    /// incomplete so that the store can allocate an id.
    pub key_optional: bool,
    /// The mapped fields; wire names are unique.
    pub fields: Vec<FieldSchema>,
}

/// One element of a record.
#[derive(Debug, Clone, PartialEq)]
pub enum ScalarValue {
    Text(String),
    Integer(i64),
    /// The bit pattern of a 64-bit IEEE 754 number.
    Float(u64),
    Boolean(bool),
    Blob(Vec<u8>),
    KeyRef(Key),
}

/// The value a record holds for one mapped field.
#[derive(Debug, Clone, PartialEq)]
pub enum FieldValue {
    /// A single value.
    Present(ScalarValue),
    /// No value.
    Absent,
    /// A list of values.
    List(Vec<ScalarValue>),
}

/// The value a record holds for its primary-key field.
#[derive(Debug, Clone, PartialEq)]
pub enum KeyField {
    /// A string name component.
    Name(String),
    /// An integer id component.
    Id(i64),
    /// A whole key.
    Full(Key),
    /// No value: the key is left incomplete.
    Absent,
}

/// A record: a primary-key field value and one value per mapped field, in
/// the schema's field order.
#[derive(Debug)]
pub struct ModelInstance {
    pub key: KeyField,
    pub fields: Vec<FieldValue>,
}

/// The schema's internal consistency: wire names are unique.
pub open spec fn schema_wf(s: ModelSchema) -> bool {
    forall|i: int, j: int|
        #![trigger s.fields@[i], s.fields@[j]]
        0 <= i < j < s.fields@.len() ==> s.fields@[i].wire_name@ != s.fields@[j].wire_name@
}

/// The value a scalar maps to under a shape, when it fits.
pub open spec fn spec_scalar_value(shape: FieldShape, s: ScalarValue) -> Option<ValueView> {
    match (shape, s) {
        (FieldShape::Text, ScalarValue::Text(t)) => Some(ValueView::Str(t@)),
        (FieldShape::Integer, ScalarValue::Integer(i)) => Some(ValueView::Integer(i)),
        (FieldShape::Float, ScalarValue::Float(b)) => Some(ValueView::Double(b)),
        (FieldShape::Boolean, ScalarValue::Boolean(b)) => Some(ValueView::Boolean(b)),
        (FieldShape::Blob, ScalarValue::Blob(v)) => Some(ValueView::Blob(v@)),
        (FieldShape::KeyRef, ScalarValue::KeyRef(k)) => Some(ValueView::KeyRef(k@)),
        _ => None,
    }
}

/// The values a list of scalars maps to, when every one fits.
pub open spec fn spec_scalar_list(shape: FieldShape, vs: Seq<ScalarValue>) -> Option<
    Seq<ValueView>,
>
    decreases vs.len(),
{
    if vs.len() == 0 {
        Some(Seq::<ValueView>::empty())
    } else {
        match (spec_scalar_list(shape, vs.drop_last()), spec_scalar_value(shape, vs.last())) {
            (Some(init), Some(v)) => Some(init.push(v)),
            _ => None,
        }
    }
}

/// The raw value a field's record value maps to, when it fits the field's
/// shape and arity; an absent optional maps to null.
pub open spec fn spec_field_value(f: FieldSchema, v: FieldValue) -> Option<ValueView> {
    match (f.arity, v) {
        (FieldArity::Required, FieldValue::Present(s)) => spec_scalar_value(f.shape, s),
        (FieldArity::Optional, FieldValue::Present(s)) => spec_scalar_value(f.shape, s),
        (FieldArity::Optional, FieldValue::Absent) => Some(ValueView::Null),
        (FieldArity::Repeated, FieldValue::List(vs)) => match spec_scalar_list(f.shape, vs@) {
            Some(es) => Some(ValueView::Array(es)),
            None => None,
        },
        _ => None,
    }
}

/// The indexing window and meaning a field writes with: a legacy-text
/// field is unindexed when present, indexed when null, and carries the
/// legacy text meaning; otherwise the policy decides and no meaning is
/// written.
pub open spec fn spec_field_flags(f: FieldSchema) -> (bool, bool, Option<i32>) {
    if f.legacy_text {
        (false, true, Some(MEANING_TEXT))
    } else {
        match f.policy {
            IndexPolicy::Indexed => (true, true, Option::<i32>::None),
            IndexPolicy::Unindexed => (false, false, Option::<i32>::None),
            IndexPolicy::UnindexedNulls => (true, false, Option::<i32>::None),
        }
    }
}

/// The property payload a field writes for a record value, when it fits:
/// the raw value normalized and flagged exactly as
/// [`crate::ds::entity::Entity::set_advanced`] does it.
pub open spec fn spec_field_prop(f: FieldSchema, v: FieldValue) -> Option<PropView> {
    match spec_field_value(f, v) {
        None => None,
        Some(raw) => {
            let (index_values, index_nulls, meaning) = spec_field_flags(f);
            let eff = effective_of(raw);
            Some(
                PropView {
                    value: eff,
                    indexed: if eff is Null {
                        index_nulls
                    } else {
                        index_values
                    },
                    meaning: if eff is Null {
                        None
                    } else {
                        meaning
                    },
                },
            )
        },
    }
}

/// The key path a record's key field denotes under a schema, when it
/// fits: an absent key field is allowed only when the schema says so, and
/// leaves the key incomplete.
pub open spec fn spec_instance_key(s: ModelSchema, kf: KeyField) -> Option<Seq<PathElemView>> {
    match (s.key_shape, kf) {
        (KeyShape::ByName, KeyField::Name(n)) => Some(
            seq![PathElemView { kind: s.kind@, variant: KeyVariantView::Name(n@) }],
        ),
        (KeyShape::ById, KeyField::Id(i)) => Some(
            seq![PathElemView { kind: s.kind@, variant: KeyVariantView::Id(i) }],
        ),
        (KeyShape::WholeKey, KeyField::Full(k)) => Some(k@),
        (_, KeyField::Absent) => if s.key_optional {
            Some(seq![PathElemView { kind: s.kind@, variant: KeyVariantView::Incomplete }])
        } else {
            None
        },
        _ => None,
    }
}

/// The property map a record writes, field by field, over a prefix of the
/// schema.
pub open spec fn spec_props_upto(
    fields: Seq<FieldSchema>,
    values: Seq<FieldValue>,
    n: int,
) -> Map<Seq<char>, PropView>
    decreases n,
{
    if n <= 0 {
        Map::<Seq<char>, PropView>::empty()
    } else {
        spec_props_upto(fields, values, n - 1).insert(
            fields[n - 1].wire_name@,
            spec_field_prop(fields[n - 1], values[n - 1])->Some_0,
        )
    }
}

/// Converts a scalar to a raw value under a shape.
fn scalar_to_value(shape: FieldShape, s: &ScalarValue) -> (r: Result<Value, EntailError>)
    ensures
        match r {
            Ok(v) => spec_scalar_value(shape, *s) == Some(v@),
            Err(e) => spec_scalar_value(shape, *s) is None && e.kind
                == EntailErrorKind::PropertyMappingError,
        },
{
    match (shape, s) {
        (FieldShape::Text, ScalarValue::Text(t)) => Ok(Value::UnicodeString(t.clone())),
        (FieldShape::Integer, ScalarValue::Integer(i)) => Ok(Value::Integer(*i)),
        (FieldShape::Float, ScalarValue::Float(b)) => Ok(Value::FloatingPoint(*b)),
        (FieldShape::Boolean, ScalarValue::Boolean(b)) => Ok(Value::Boolean(*b)),
        (FieldShape::Blob, ScalarValue::Blob(v)) => Ok(Value::Blob(v.clone())),
        (FieldShape::KeyRef, ScalarValue::KeyRef(k)) => Ok(Value::Key(k.clone())),
        _ => Err(
            EntailError::simple(
                EntailErrorKind::PropertyMappingError,
                "Value does not fit the field's shape".to_owned(),
            ),
        ),
    }
}

/// Converts a field's record value to its raw value.
#[verifier::loop_isolation(false)]
fn field_to_value(f: &FieldSchema, v: &FieldValue) -> (r: Result<Value, EntailError>)
    ensures
        match r {
            Ok(out) => spec_field_value(*f, *v) == Some(out@),
            Err(e) => spec_field_value(*f, *v) is None && e.kind
                == EntailErrorKind::PropertyMappingError,
        },
{
    match (f.arity, v) {
        (FieldArity::Required, FieldValue::Present(s)) => scalar_to_value(f.shape, s),
        (FieldArity::Optional, FieldValue::Present(s)) => scalar_to_value(f.shape, s),
        (FieldArity::Optional, FieldValue::Absent) => Ok(Value::Null),
        (FieldArity::Repeated, FieldValue::List(vs)) => {
            let mut out: Vec<Value> = Vec::new();
            let mut i: usize = 0;
            proof {
                assert(vs@.subrange(0, 0) =~= Seq::<ScalarValue>::empty());
            }
            while i < vs.len()
                invariant
                    i <= vs@.len(),
                    out@.len() == i,
                    spec_scalar_list(f.shape, vs@.subrange(0, i as int)) matches Some(es) && es
                        =~= out@.map_values(|e: Value| e@),
                decreases vs@.len() - i,
            {
                proof {
                    let pre = vs@.subrange(0, i as int);
                    let post = vs@.subrange(0, i as int + 1);
                    assert(post.drop_last() =~= pre);
                    assert(post.last() == vs@[i as int]);
                }
                match scalar_to_value(f.shape, &vs[i]) {
                    Ok(value) => {
                        out.push(value);
                        proof {
                            assert(spec_scalar_list(
                                f.shape,
                                vs@.subrange(0, i as int + 1),
                            )->Some_0 =~= out@.map_values(|e: Value| e@));
                        }
                    },
                    Err(e) => {
                        proof {
                            lemma_scalar_list_failure(f.shape, vs@, i as int);
                        }
                        return Err(e);
                    },
                }
                i = i + 1;
            }
            proof {
                assert(vs@.subrange(0, vs@.len() as int) =~= vs@);
            }
            let r = Value::array(out);
            proof {
                assert(spec_field_value(*f, *v) matches Some(vv) && vv is Array && (vv->Array_0
                    =~= r@->Array_0));
            }
            Ok(r)
        },
        _ => Err(
            EntailError::simple(
                EntailErrorKind::PropertyMappingError,
                "Value does not fit the field's arity".to_owned(),
            ),
        ),
    }
}

/// When one scalar of a list does not fit, the whole list does not.
proof fn lemma_scalar_list_failure(shape: FieldShape, vs: Seq<ScalarValue>, i: int)
    requires
        0 <= i < vs.len(),
        spec_scalar_value(shape, vs[i]) is None,
    ensures
        spec_scalar_list(shape, vs) is None,
    decreases vs.len(),
{
    if vs.len() > 0 {
        if i == vs.len() - 1 {
            assert(vs.last() == vs[i]);
        } else {
            assert(vs.drop_last()[i] == vs[i]);
            lemma_scalar_list_failure(shape, vs.drop_last(), i);
        }
    }
}

/// Builds the key a record's key field denotes under a schema.
fn instance_key(s: &ModelSchema, kf: &KeyField) -> (r: Result<Key, EntailError>)
    ensures
        match r {
            Ok(k) => spec_instance_key(*s, *kf) == Some(k@),
            Err(e) => spec_instance_key(*s, *kf) is None && e.kind
                == EntailErrorKind::PropertyMappingError,
        },
{
    match (s.key_shape, kf) {
        (KeyShape::ByName, KeyField::Name(n)) => Ok(
            Key::new(s.kind.clone()).with_name(n.clone()),
        ),
        (KeyShape::ById, KeyField::Id(i)) => Ok(Key::new(s.kind.clone()).with_id(*i)),
        (KeyShape::WholeKey, KeyField::Full(k)) => Ok(k.clone()),
        (_, KeyField::Absent) => {
            if s.key_optional {
                Ok(Key::new(s.kind.clone()))
            } else {
                Err(
                    EntailError::simple(
                        EntailErrorKind::PropertyMappingError,
                        "The primary-key field has no value".to_owned(),
                    ),
                )
            }
        },
        _ => Err(
            EntailError::simple(
                EntailErrorKind::PropertyMappingError,
                "The primary-key field does not fit the schema".to_owned(),
            ),
        ),
    }
}

/// Serializes a record into an entity under a schema: the key from the
/// key field, then one property per mapped field, named, normalized,
/// indexed and given a meaning exactly as the field prescribes.
#[verifier::loop_isolation(false)]
pub fn to_entity(s: &ModelSchema, instance: &ModelInstance) -> (r: Result<Entity, EntailError>)
    requires
        schema_wf(*s),
        instance.fields@.len() == s.fields@.len(),
    ensures
        r is Ok <==> spec_instance_key(*s, instance.key) is Some && (forall|i: int|
            0 <= i < s.fields@.len() ==> spec_field_prop(
                s.fields@[i],
                #[trigger] instance.fields@[i],
            ) is Some),
        match r {
            Ok(e) => {
                &&& e.wf()
                &&& e@.key == spec_instance_key(*s, instance.key)->Some_0
                &&& e@.props == spec_props_upto(
                    s.fields@,
                    instance.fields@,
                    s.fields@.len() as int,
                )
            },
            Err(e) => e.kind == EntailErrorKind::PropertyMappingError,
        },
{
    let k = match instance_key(s, &instance.key) {
        Ok(k) => k,
        Err(e) => {
            return Err(e);
        },
    };
    let mut e = Entity::new(k);
    let ghost all = instance.fields@;
    let mut i: usize = 0;
    while i < instance.fields.len()
        invariant
            i <= s.fields@.len(),
            all.len() == s.fields@.len(),
            e.wf(),
            e@.key == spec_instance_key(*s, instance.key)->Some_0,
            forall|j: int|
                0 <= j < i ==> spec_field_prop(s.fields@[j], #[trigger] all[j]) is Some,
            e@.props == spec_props_upto(s.fields@, all, i as int),
        decreases s.fields@.len() - i,
    {
        let v = &instance.fields[i];
        let f = &s.fields[i];
        let raw = match field_to_value(f, v) {
            Ok(raw) => raw,
            Err(err) => {
                return Err(err);
            },
        };
        let (index_values, index_nulls, meaning) = if f.legacy_text {
            (false, true, Some(MEANING_TEXT))
        } else {
            match f.policy {
                IndexPolicy::Indexed => (true, true, None),
                IndexPolicy::Unindexed => (false, false, None),
                IndexPolicy::UnindexedNulls => (true, false, None),
            }
        };
        proof {
            assert((index_values, index_nulls, meaning) == spec_field_flags(s.fields@[i as int]));
        }
        e.set_advanced(f.wire_name.clone(), raw, index_values, index_nulls, meaning);
        proof {
            assert(i < s.fields.len());
        }
        i = i + 1;
    }
    Ok(e)
}

/// Whether a scalar of the shape can be read from a raw value.
pub open spec fn scalar_readable(shape: FieldShape, v: ValueView) -> bool {
    match (shape, v) {
        (FieldShape::Text, ValueView::Str(_)) => true,
        (FieldShape::Integer, ValueView::Integer(_)) => true,
        (FieldShape::Float, ValueView::Double(_)) => true,
        (FieldShape::Boolean, ValueView::Boolean(_)) => true,
        (FieldShape::Blob, ValueView::Blob(_)) => true,
        (FieldShape::KeyRef, ValueView::KeyRef(_)) => true,
        _ => false,
    }
}

/// Whether every element of an array can be read as a scalar of the shape.
pub open spec fn list_readable(shape: FieldShape, es: Seq<ValueView>) -> bool {
    forall|i: int| 0 <= i < es.len() ==> scalar_readable(shape, #[trigger] es[i])
}

/// Whether a field can be read back from an entity's properties: a
/// missing property reads back only for an optional field; an optional
/// field tolerates null, an empty or one-element array, or a bare value; a
/// repeated field needs an array.
pub open spec fn field_readable(f: FieldSchema, props: Map<Seq<char>, PropView>) -> bool {
    if !props.contains_key(f.wire_name@) {
        f.arity is Optional
    } else {
        let v = props[f.wire_name@].value;
        match f.arity {
            FieldArity::Required => scalar_readable(f.shape, v),
            FieldArity::Optional => match v {
                ValueView::Null => true,
                ValueView::Array(es) => es.len() == 0 || (es.len() == 1 && scalar_readable(
                    f.shape,
                    es[0],
                )),
                _ => scalar_readable(f.shape, v),
            },
            FieldArity::Repeated => v matches ValueView::Array(es) && list_readable(f.shape, es),
        }
    }
}

/// What reading a field back yields: a missing or null property, or an
/// empty array, reads as absent for an optional field; a one-element array
/// unwraps to its element; an array with more than one element does not
/// read back as an optional field at all.
pub open spec fn field_read_ok(
    f: FieldSchema,
    props: Map<Seq<char>, PropView>,
    out: FieldValue,
) -> bool {
    if !props.contains_key(f.wire_name@) {
        out is Absent
    } else {
        let v = props[f.wire_name@].value;
        match f.arity {
            FieldArity::Required => out matches FieldValue::Present(s) && spec_scalar_value(
                f.shape,
                s,
            ) == Some(v),
            FieldArity::Optional => match v {
                ValueView::Null => out is Absent,
                ValueView::Array(es) => if es.len() == 0 {
                    out is Absent
                } else {
                    out matches FieldValue::Present(s) && spec_scalar_value(f.shape, s) == Some(
                        es[0],
                    )
                },
                _ => out matches FieldValue::Present(s) && spec_scalar_value(f.shape, s) == Some(
                    v,
                ),
            },
            FieldArity::Repeated => v matches ValueView::Array(es) && (out
                matches FieldValue::List(ss) && spec_scalar_list(f.shape, ss@) == Some(es)),
        }
    }
}

/// Whether the primary-key field can be derived from a key path: the
/// identifying component must have the schema's shape, and an incomplete
/// key yields it only when the schema allows an absent key field.
pub open spec fn key_readable(s: ModelSchema, kp: Seq<PathElemView>) -> bool {
    match s.key_shape {
        KeyShape::ByName => match kp.last().variant {
            KeyVariantView::Name(_) => true,
            KeyVariantView::Incomplete => s.key_optional,
            KeyVariantView::Id(_) => false,
        },
        KeyShape::ById => match kp.last().variant {
            KeyVariantView::Id(_) => true,
            KeyVariantView::Incomplete => s.key_optional,
            KeyVariantView::Name(_) => false,
        },
        KeyShape::WholeKey => true,
    }
}

/// What deriving the primary-key field from a key path yields.
pub open spec fn key_read_ok(s: ModelSchema, kp: Seq<PathElemView>, out: KeyField) -> bool {
    match s.key_shape {
        KeyShape::ByName => match kp.last().variant {
            KeyVariantView::Name(n) => out matches KeyField::Name(x) && x@ == n,
            KeyVariantView::Incomplete => out is Absent,
            KeyVariantView::Id(_) => false,
        },
        KeyShape::ById => match kp.last().variant {
            KeyVariantView::Id(i) => out == KeyField::Id(i),
            KeyVariantView::Incomplete => out is Absent,
            KeyVariantView::Name(_) => false,
        },
        KeyShape::WholeKey => out matches KeyField::Full(k) && k@ == kp,
    }
}

/// Reads a scalar of the shape from a raw value.
fn scalar_from_value(shape: FieldShape, v: &Value) -> (r: Result<ScalarValue, EntailError>)
    ensures
        match r {
            Ok(sv) => spec_scalar_value(shape, sv) == Some(v@),
            Err(e) => !scalar_readable(shape, v@) && e.kind
                == EntailErrorKind::PropertyMappingError,
        },
{
    match (shape, v) {
        (FieldShape::Text, Value::UnicodeString(t)) => Ok(ScalarValue::Text(t.clone())),
        (FieldShape::Integer, Value::Integer(i)) => Ok(ScalarValue::Integer(*i)),
        (FieldShape::Float, Value::FloatingPoint(b)) => Ok(ScalarValue::Float(*b)),
        (FieldShape::Boolean, Value::Boolean(b)) => Ok(ScalarValue::Boolean(*b)),
        (FieldShape::Blob, Value::Blob(bs)) => Ok(ScalarValue::Blob(bs.clone())),
        (FieldShape::KeyRef, Value::Key(k)) => Ok(ScalarValue::KeyRef(k.clone())),
        _ => Err(
            EntailError::simple(
                EntailErrorKind::PropertyMappingError,
                "The stored value does not fit the field's shape".to_owned(),
            ),
        ),
    }
}

/// Reads one field back from an entity's properties.
#[verifier::loop_isolation(false)]
fn read_field(f: &FieldSchema, e: &Entity) -> (r: Result<FieldValue, EntailError>)
    requires
        e.wf(),
    ensures
        match r {
            Ok(out) => field_readable(*f, e@.props) && field_read_ok(*f, e@.props, out),
            Err(err) => !field_readable(*f, e@.props) && err.kind
                == EntailErrorKind::PropertyMappingError,
        },
{
    let pv = match e.get(f.wire_name.as_str()) {
        None => {
            return match f.arity {
                FieldArity::Optional => Ok(FieldValue::Absent),
                _ => Err(
                    EntailError::simple(
                        EntailErrorKind::PropertyMappingError,
                        "A required property is missing".to_owned(),
                    ),
                ),
            };
        },
        Some(pv) => pv,
    };
    let v = pv.value();
    match f.arity {
        FieldArity::Required => match scalar_from_value(f.shape, v) {
            Ok(sv) => Ok(FieldValue::Present(sv)),
            Err(err) => Err(err),
        },
        FieldArity::Optional => {
            match v {
                Value::Null => Ok(FieldValue::Absent),
                Value::Array(es) => {
                    if es.len() == 0 {
                        Ok(FieldValue::Absent)
                    } else if es.len() == 1 {
                        proof {
                            assert(v@->Array_0[0] == crate::ds::entity::value_view(es@[0]));
                        }
                        match scalar_from_value(f.shape, &es[0]) {
                            Ok(sv) => Ok(FieldValue::Present(sv)),
                            Err(err) => Err(err),
                        }
                    } else {
                        Err(
                            EntailError::simple(
                                EntailErrorKind::PropertyMappingError,
                                "More than one element for an optional field".to_owned(),
                            ),
                        )
                    }
                },
                other => match scalar_from_value(f.shape, other) {
                    Ok(sv) => Ok(FieldValue::Present(sv)),
                    Err(err) => Err(err),
                },
            }
        },
        FieldArity::Repeated => {
            match v {
                Value::Array(es) => {
                    let ghost eviews = v@->Array_0;
                    let mut out: Vec<ScalarValue> = Vec::new();
                    let mut i: usize = 0;
                    proof {
                        assert(eviews.subrange(0, 0) =~= Seq::<ValueView>::empty());
                        assert(spec_scalar_list(f.shape, out@) matches Some(got) && got
                            =~= eviews.subrange(0, 0));
                    }
                    while i < es.len()
                        invariant
                            i <= es@.len(),
                            eviews.len() == es@.len(),
                            forall|j: int|
                                0 <= j < es@.len() ==> eviews[j] == crate::ds::entity::value_view(
                                    #[trigger] es@[j],
                                ),
                            out@.len() == i,
                            forall|j: int|
                                0 <= j < i ==> scalar_readable(f.shape, #[trigger] eviews[j]),
                            spec_scalar_list(f.shape, out@) matches Some(got) && got
                                =~= eviews.subrange(0, i as int),
                        decreases es@.len() - i,
                    {
                        let sv = match scalar_from_value(f.shape, &es[i]) {
                            Ok(sv) => sv,
                            Err(err) => {
                                proof {
                                    assert(!scalar_readable(f.shape, eviews[i as int]));
                                }
                                return Err(err);
                            },
                        };
                        let ghost pre = out@;
                        out.push(sv);
                        proof {
                            assert(scalar_readable(f.shape, eviews[i as int]));
                            assert(out@.drop_last() =~= pre);
                            assert(out@.last() == sv);
                            assert(spec_scalar_list(f.shape, out@) matches Some(got) && got
                                =~= eviews.subrange(0, i as int + 1));
                        }
                        i = i + 1;
                    }
                    proof {
                        assert(eviews.subrange(0, es@.len() as int) =~= eviews);
                    }
                    Ok(FieldValue::List(out))
                },
                _ => Err(
                    EntailError::simple(
                        EntailErrorKind::PropertyMappingError,
                        "The stored value of a repeated field is not an array".to_owned(),
                    ),
                ),
            }
        },
    }
}

/// Derives the primary-key field from an entity's key.
fn read_key(s: &ModelSchema, e: &Entity) -> (r: Result<KeyField, EntailError>)
    ensures
        match r {
            Ok(out) => key_readable(*s, e@.key) && key_read_ok(*s, e@.key, out),
            Err(err) => !key_readable(*s, e@.key) && err.kind
                == EntailErrorKind::PropertyMappingError,
        },
{
    match s.key_shape {
        KeyShape::ByName => match e.key().name() {
            Some(n) => Ok(KeyField::Name(n.to_owned())),
            None => {
                if s.key_optional && !e.key().is_complete() {
                    Ok(KeyField::Absent)
                } else {
                    Err(
                        EntailError::simple(
                            EntailErrorKind::PropertyMappingError,
                            "The primary-key field cannot be derived from the key".to_owned(),
                        ),
                    )
                }
            },
        },
        KeyShape::ById => match e.key().id() {
            Some(i) => Ok(KeyField::Id(i)),
            None => {
                if s.key_optional && !e.key().is_complete() {
                    Ok(KeyField::Absent)
                } else {
                    Err(
                        EntailError::simple(
                            EntailErrorKind::PropertyMappingError,
                            "The primary-key field cannot be derived from the key".to_owned(),
                        ),
                    )
                }
            },
        },
        KeyShape::WholeKey => Ok(KeyField::Full(e.key().clone())),
    }
}

/// Deserializes an entity into a record under a schema, failing with a
/// kind mismatch when the entity's kind is not the schema's, and with a
/// mapping error when the key or a property cannot be read back.
#[verifier::loop_isolation(false)]
pub fn from_entity(s: &ModelSchema, e: &Entity) -> (r: Result<ModelInstance, EntailError>)
    requires
        e.wf(),
    ensures
        r is Ok <==> e@.key.last().kind == s.kind@ && key_readable(*s, e@.key) && (forall|i: int|
            0 <= i < s.fields@.len() ==> field_readable(#[trigger] s.fields@[i], e@.props)),
        match r {
            Ok(inst) => {
                &&& inst.fields@.len() == s.fields@.len()
                &&& key_read_ok(*s, e@.key, inst.key)
                &&& forall|i: int|
                    0 <= i < s.fields@.len() ==> field_read_ok(
                        #[trigger] s.fields@[i],
                        e@.props,
                        inst.fields@[i],
                    )
            },
            Err(err) => err.kind == (if e@.key.last().kind != s.kind@ {
                EntailErrorKind::EntityKindMismatch
            } else {
                EntailErrorKind::PropertyMappingError
            }),
        },
{
    if !str_eq(e.kind(), s.kind.as_str()) {
        return Err(
            EntailError::simple(
                EntailErrorKind::EntityKindMismatch,
                "The entity's kind is not the schema's".to_owned(),
            ),
        );
    }
    let key = match read_key(s, e) {
        Ok(k) => k,
        Err(err) => {
            return Err(err);
        },
    };
    let mut fields: Vec<FieldValue> = Vec::new();
    let mut i: usize = 0;
    while i < s.fields.len()
        invariant
            i <= s.fields@.len(),
            fields@.len() == i,
            forall|j: int|
                0 <= j < i ==> field_readable(#[trigger] s.fields@[j], e@.props) && field_read_ok(
                    s.fields@[j],
                    e@.props,
                    fields@[j],
                ),
        decreases s.fields@.len() - i,
    {
        match read_field(&s.fields[i], e) {
            Ok(out) => fields.push(out),
            Err(err) => {
                return Err(err);
            },
        }
        i = i + 1;
    }
    Ok(ModelInstance { key, fields })
}

} // verus!
