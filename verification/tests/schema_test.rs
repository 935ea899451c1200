use entail::ds::wire::{entity_to_wire, WireEntity, WireValue};
use entail::ds::{Entity, Key, Value, MEANING_TEXT};
use entail::schema::{
    from_entity, to_entity, FieldArity, FieldSchema, FieldShape, FieldValue, IndexPolicy,
    KeyField, KeyShape, ModelInstance, ModelSchema, ScalarValue,
};
use entail::{EntailErrorKind, EntityAdapter, ModeledUpdate};

fn field(
    wire_name: &str,
    shape: FieldShape,
    arity: FieldArity,
    policy: IndexPolicy,
    legacy_text: bool,
) -> FieldSchema {
    FieldSchema { wire_name: wire_name.to_string(), shape, arity, policy, legacy_text }
}

/// The schema of the sample record: a named key and one field per
/// supported shape, arity and policy.
fn model_schema() -> ModelSchema {
    ModelSchema {
        kind: "Model".to_string(),
        key_shape: KeyShape::ByName,
        key_optional: false,
        fields: vec![
            field("someField", FieldShape::Text, FieldArity::Required, IndexPolicy::Indexed, false),
            field("key", FieldShape::Integer, FieldArity::Optional, IndexPolicy::Unindexed, false),
            field("lookup", FieldShape::Text, FieldArity::Repeated, IndexPolicy::Indexed, false),
            field("bin", FieldShape::Blob, FieldArity::Required, IndexPolicy::Unindexed, false),
            field("related", FieldShape::KeyRef, FieldArity::Optional, IndexPolicy::Indexed, false),
            field("someBool", FieldShape::Boolean, FieldArity::Required, IndexPolicy::Indexed, false),
            field("optText", FieldShape::Text, FieldArity::Optional, IndexPolicy::Indexed, true),
            field("presentText", FieldShape::Text, FieldArity::Required, IndexPolicy::Indexed, true),
            field("nullableBlob", FieldShape::Blob, FieldArity::Optional, IndexPolicy::Indexed, false),
            field("optBlob", FieldShape::Blob, FieldArity::Optional, IndexPolicy::Indexed, false),
        ],
    }
}

fn model_instance() -> ModelInstance {
    ModelInstance {
        key: KeyField::Name("foo".to_string()),
        fields: vec![
            FieldValue::Present(ScalarValue::Text("bar".to_string())),
            FieldValue::Present(ScalarValue::Integer(118999)),
            FieldValue::List(vec![
                ScalarValue::Text("wow".to_string()),
                ScalarValue::Text("such".to_string()),
                ScalarValue::Text("index".to_string()),
            ]),
            FieldValue::Present(ScalarValue::Blob(vec![1, 2, 3])),
            FieldValue::Absent,
            FieldValue::Present(ScalarValue::Boolean(true)),
            FieldValue::Absent,
            FieldValue::Present(ScalarValue::Text("present text".to_string())),
            FieldValue::Absent,
            FieldValue::Present(ScalarValue::Blob(vec![4, 5, 6, 7])),
        ],
    }
}

fn wire_prop<'a>(e: &'a WireEntity, name: &str) -> &'a WireValue {
    &e.properties.iter().find(|(n, _)| n == name).unwrap().1
}

#[test]
fn code_gen() {
    let schema = model_schema();
    let model = model_instance();
    let mut e = to_entity(&schema, &model).unwrap();
    assert!(e.is_indexed("someField"));
    assert!(!e.is_indexed("key"));
    assert!(e.is_indexed("lookup"));
    assert!(e.is_indexed("related"));
    assert_eq!(
        e.get_value("someField"),
        Some(Value::unicode_string("bar".to_string())).as_ref()
    );
    assert_eq!(e.get_value("key"), Some(Value::integer(118999)).as_ref());
    assert_eq!(
        e.get_value("lookup"),
        Some(Value::array(vec![
            Value::unicode_string("wow".to_string()),
            Value::unicode_string("such".to_string()),
            Value::unicode_string("index".to_string()),
        ]))
        .as_ref()
    );
    assert_eq!(e.get_value("bin"), Some(Value::blob(vec![1, 2, 3])).as_ref());
    assert!(e.is_indexed("nullableBlob"));
    assert_eq!(e.get_value("nullableBlob"), Some(Value::Null).as_ref());
    assert!(e.is_indexed("optBlob"));
    assert_eq!(e.get_value("optBlob"), Some(Value::blob(vec![4, 5, 6, 7])).as_ref());
    assert_eq!(e.get_value("someBool"), Some(Value::boolean(true)).as_ref());
    assert_eq!(e.get_value("related"), Some(Value::null()).as_ref());

    let raw_entity = entity_to_wire(&e);
    let null_text_field = wire_prop(&raw_entity, "optText");
    assert_eq!(null_text_field.meaning, None);
    assert_eq!(null_text_field.exclude_from_indexes, Some(false));
    let present_text_field = wire_prop(&raw_entity, "presentText");
    assert_eq!(present_text_field.meaning, Some(MEANING_TEXT));
    assert_eq!(present_text_field.exclude_from_indexes, Some(true));

    let related_key = Key::new("Bizz".to_string()).with_name("buzz".to_string());
    e.set_indexed("related".to_string(), Value::key(related_key.clone()));
    let new_model = from_entity(&schema, &e).expect("Cannot create from entity");
    assert_eq!(new_model.key, KeyField::Name("foo".to_string()));
    assert_eq!(
        new_model.fields[0],
        FieldValue::Present(ScalarValue::Text("bar".to_string()))
    );
    assert_eq!(
        new_model.fields[1],
        FieldValue::Present(ScalarValue::Integer(118999))
    );
    assert_eq!(
        new_model.fields[2],
        FieldValue::List(vec![
            ScalarValue::Text("wow".to_string()),
            ScalarValue::Text("such".to_string()),
            ScalarValue::Text("index".to_string()),
        ])
    );
    assert_eq!(
        new_model.fields[5],
        FieldValue::Present(ScalarValue::Boolean(true))
    );
    assert_eq!(
        new_model.fields[4],
        FieldValue::Present(ScalarValue::KeyRef(related_key))
    );
    assert_eq!(new_model.fields[8], FieldValue::Absent);
    assert_eq!(
        new_model.fields[9],
        FieldValue::Present(ScalarValue::Blob(vec![4, 5, 6, 7]))
    );
}

fn minimal_schema() -> ModelSchema {
    ModelSchema {
        kind: "MM".to_string(),
        key_shape: KeyShape::WholeKey,
        key_optional: false,
        fields: vec![field(
            "textField",
            FieldShape::Text,
            FieldArity::Required,
            IndexPolicy::Indexed,
            true,
        )],
    }
}

#[test]
fn code_gen_minimal_model() {
    let schema = minimal_schema();
    let min_mod = ModelInstance {
        key: KeyField::Full(Key::new("MM".to_string()).with_name("wibz".to_string())),
        fields: vec![FieldValue::Present(ScalarValue::Text("foo".to_string()))],
    };
    let e = to_entity(&schema, &min_mod).unwrap();
    assert_eq!(&Key::new("MM".to_string()).with_name("wibz".to_string()), e.key());
    let f = e.get("textField").unwrap();
    assert_eq!(f.meaning().unwrap(), MEANING_TEXT);
    let different_kind = Entity::new(Key::new("NotMM".to_string()).with_id(1));
    let result = from_entity(&schema, &different_kind).expect_err("Expected an error");
    assert_eq!(result.kind, EntailErrorKind::EntityKindMismatch);
    println!("Expected error message: {}", result.message);
}

fn auto_id_schema() -> ModelSchema {
    ModelSchema {
        kind: "AutoId".to_string(),
        key_shape: KeyShape::ById,
        key_optional: true,
        fields: vec![field(
            "value",
            FieldShape::Integer,
            FieldArity::Optional,
            IndexPolicy::UnindexedNulls,
            false,
        )],
    }
}

fn manual_id_schema() -> ModelSchema {
    ModelSchema {
        kind: "ManualId".to_string(),
        key_shape: KeyShape::ById,
        key_optional: false,
        fields: vec![field(
            "value",
            FieldShape::Integer,
            FieldArity::Optional,
            IndexPolicy::UnindexedNulls,
            false,
        )],
    }
}

#[test]
fn code_gen_auto_id() {
    let auto_id = ModelInstance { key: KeyField::Absent, fields: vec![FieldValue::Absent] };
    let mut e = to_entity(&auto_id_schema(), &auto_id).unwrap();
    assert_eq!(e.kind(), "AutoId");
    assert!(!e.key().is_complete());
    let id: i64 = 1189998899991197253;
    let completed = e.key().clone().with_id(id);
    e.set_key(completed);
    let auto_with_id = from_entity(&auto_id_schema(), &e).unwrap();
    assert_eq!(auto_with_id.key, KeyField::Id(id));

    let manual_id = ModelInstance {
        key: KeyField::Id(1234),
        fields: vec![FieldValue::Absent],
    };
    let mut e = to_entity(&manual_id_schema(), &manual_id).unwrap();
    assert_eq!(e.kind(), "ManualId");
    assert!(e.key().is_complete());
    assert_eq!(e.key().id(), Some(1234i64));
    e.set_key(Key::new("ManualId".to_string()));
    from_entity(&manual_id_schema(), &e)
        .expect_err("Should have returned an error since the key is incomplete");
}

#[test]
fn test_optional_key() {
    let schema = ModelSchema {
        kind: "OptionalKey".to_string(),
        key_shape: KeyShape::WholeKey,
        key_optional: true,
        fields: vec![field(
            "value",
            FieldShape::Integer,
            FieldArity::Required,
            IndexPolicy::Indexed,
            false,
        )],
    };
    let adapter = EntityAdapter::new(schema);
    let model = ModelInstance {
        key: KeyField::Absent,
        fields: vec![FieldValue::Present(ScalarValue::Integer(0))],
    };
    let entity = to_entity(&adapter.schema, &model).unwrap();
    assert_eq!(entity.key().kind(), adapter.kind());
    assert!(!entity.key().is_complete());

    let model = ModelInstance {
        key: KeyField::Full(adapter.create_named_key("foo".to_string())),
        fields: vec![FieldValue::Present(ScalarValue::Integer(0))],
    };
    let entity = to_entity(&adapter.schema, &model).unwrap();
    assert_eq!(entity.key().kind(), adapter.kind());
    assert_eq!(entity.key().name(), Some("foo"));
}

#[test]
fn required_from_escalates_absence() {
    let adapter = EntityAdapter::new(ModelSchema {
        kind: "Sample".to_string(),
        key_shape: KeyShape::ByName,
        key_optional: false,
        fields: vec![field(
            "value",
            FieldShape::Integer,
            FieldArity::Required,
            IndexPolicy::Indexed,
            false,
        )],
    });
    let key = adapter.create_named_key("does_not_exist".to_string());
    let err = adapter.required_from(&key, None).expect_err("This should have failed");
    assert_eq!(err.kind, EntailErrorKind::RequiredEntityNotFound);
    // The error names the key that found nothing.
    assert_eq!(err.message, "Required Sample(name:\"does_not_exist\") not found");

    let key = adapter.create_named_key("test".to_string());
    let mut e = Entity::new(key.clone());
    e.set_indexed("value".to_string(), Value::integer(47));
    let inst = adapter.required_from(&key, Some(e)).expect("This should be successful");
    assert_eq!(inst.fields[0], FieldValue::Present(ScalarValue::Integer(47)));
}

#[test]
fn optional_field_unwraps_single_element_arrays() {
    let schema = ModelSchema {
        kind: "Opt".to_string(),
        key_shape: KeyShape::ByName,
        key_optional: false,
        fields: vec![field(
            "v",
            FieldShape::Integer,
            FieldArity::Optional,
            IndexPolicy::Indexed,
            false,
        )],
    };
    let key = Key::new("Opt".to_string()).with_name("k".to_string());

    let mut one = Entity::new(key.clone());
    one.set_indexed("v".to_string(), Value::array(vec![Value::integer(5)]));
    let inst = from_entity(&schema, &one).unwrap();
    assert_eq!(inst.fields[0], FieldValue::Present(ScalarValue::Integer(5)));

    let mut empty = Entity::new(key.clone());
    empty.set_indexed("v".to_string(), Value::array(vec![]));
    // set_advanced would normalize; a plain set keeps the empty array.
    let inst = from_entity(&schema, &empty).unwrap();
    assert_eq!(inst.fields[0], FieldValue::Absent);

    let mut null = Entity::new(key.clone());
    null.set_indexed("v".to_string(), Value::null());
    let inst = from_entity(&schema, &null).unwrap();
    assert_eq!(inst.fields[0], FieldValue::Absent);

    let mut missing = Entity::new(key.clone());
    missing.set_indexed("other".to_string(), Value::integer(1));
    let inst = from_entity(&schema, &missing).unwrap();
    assert_eq!(inst.fields[0], FieldValue::Absent);

    let mut two = Entity::new(key);
    two.set_indexed(
        "v".to_string(),
        Value::array(vec![Value::integer(1), Value::integer(2)]),
    );
    let err = from_entity(&schema, &two).expect_err("two elements cannot fill an optional");
    assert_eq!(err.kind, EntailErrorKind::PropertyMappingError);
}

#[test]
fn modeled_update_preserves_unmapped_properties() {
    let schema = ModelSchema {
        kind: "Doc".to_string(),
        key_shape: KeyShape::ByName,
        key_optional: false,
        fields: vec![field(
            "title",
            FieldShape::Text,
            FieldArity::Required,
            IndexPolicy::Indexed,
            false,
        )],
    };
    // The fetched entity carries a property the schema does not model.
    let mut fetched = Entity::new(Key::new("Doc".to_string()).with_name("d1".to_string()));
    fetched.set_indexed("title".to_string(), Value::unicode_string("old".to_string()));
    fetched.set_unindexed("extra".to_string(), Value::integer(99));

    let mut mu = ModeledUpdate::new(schema, fetched).unwrap();
    mu.model.fields[0] = FieldValue::Present(ScalarValue::Text("new".to_string()));
    // An in-place sync leaves the record usable and the extra property alone.
    mu.update_entity().unwrap();
    assert_eq!(mu.entity.get_value("extra"), Some(Value::integer(99)).as_ref());
    assert_eq!(
        mu.model.fields[0],
        FieldValue::Present(ScalarValue::Text("new".to_string()))
    );
    let merged = mu.update_into_entity().unwrap();

    assert_eq!(
        merged.get_value("title"),
        Some(Value::unicode_string("new".to_string())).as_ref()
    );
    // The unmapped property is still present, unchanged.
    assert_eq!(merged.get_value("extra"), Some(Value::integer(99)).as_ref());
    assert!(!merged.is_indexed("extra"));
    assert_eq!(merged.key().name(), Some("d1"));
}
