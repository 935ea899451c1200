use entail::ds::wire::{
    entity_from_wire, entity_to_wire, key_from_wire, key_to_wire, value_from_payload,
    value_to_payload, WireDecodeError, WireEntity, WireKey, WirePathElement, WirePayload,
    WireValue,
};
use entail::ds::{Entity, Key, Value};

fn sample_key() -> Key {
    Key::new("Child".to_string())
        .with_name("leaf".to_string())
        .with_parent(
            Key::new("Middle".to_string())
                .with_id(42)
                .with_parent(Key::new("Root".to_string()).with_name("top".to_string())),
        )
}

#[test]
fn key_round_trips_through_wire_form() {
    let key = sample_key();
    let wire = key_to_wire(&key);
    assert_eq!(wire.path.len(), 3);
    assert_eq!(wire.path[0].kind.as_deref(), Some("Root"));
    assert_eq!(wire.path[1].id, Some(42));
    assert_eq!(wire.path[2].name.as_deref(), Some("leaf"));
    let back = key_from_wire(&wire).unwrap();
    assert_eq!(back, key);

    let shallow = Key::new("Solo".to_string()).with_id(7);
    let back = key_from_wire(&key_to_wire(&shallow)).unwrap();
    assert_eq!(back, shallow);

    let incomplete = Key::new("Open".to_string());
    let back = key_from_wire(&key_to_wire(&incomplete)).unwrap();
    assert_eq!(back, incomplete);
}

#[test]
fn malformed_wire_keys_are_rejected() {
    let empty = WireKey { path: vec![] };
    assert_eq!(key_from_wire(&empty), Err(WireDecodeError::EmptyKeyPath));
    let kindless = WireKey {
        path: vec![WirePathElement { kind: None, id: Some(1), name: None }],
    };
    assert_eq!(key_from_wire(&kindless), Err(WireDecodeError::KindlessPathElement));
}

#[test]
fn value_round_trips_through_wire_form() {
    let values = vec![
        Value::Null,
        Value::integer(-5),
        Value::boolean(true),
        Value::blob(vec![0, 255, 3]),
        Value::unicode_string("hi".to_string()),
        Value::floating_point(2.5f64.to_bits()),
        Value::key(sample_key()),
        Value::array(vec![
            Value::integer(1),
            Value::array(vec![Value::unicode_string("nested".to_string())]),
            Value::Null,
        ]),
    ];
    for v in values {
        let payload = value_to_payload(&v);
        let back = value_from_payload(&payload).unwrap();
        assert_eq!(back, v);
    }
}

#[test]
fn absent_payload_reads_as_null() {
    assert_eq!(value_from_payload(&WirePayload::Missing).unwrap(), Value::Null);
    assert_eq!(value_from_payload(&WirePayload::Null).unwrap(), Value::Null);
}

#[test]
fn unsupported_payloads_fail_loudly() {
    assert_eq!(
        value_from_payload(&WirePayload::Entity),
        Err(WireDecodeError::UnsupportedValueType)
    );
    assert_eq!(
        value_from_payload(&WirePayload::GeoPoint),
        Err(WireDecodeError::UnsupportedValueType)
    );
    assert_eq!(
        value_from_payload(&WirePayload::Timestamp),
        Err(WireDecodeError::UnsupportedValueType)
    );
    // An unsupported payload inside an array poisons the whole array.
    let arr = WirePayload::Array(vec![WireValue {
        meaning: None,
        exclude_from_indexes: None,
        payload: WirePayload::Entity,
    }]);
    assert_eq!(value_from_payload(&arr), Err(WireDecodeError::UnsupportedValueType));
}

fn wire_prop<'a>(e: &'a WireEntity, name: &str) -> &'a WireValue {
    &e.properties.iter().find(|(n, _)| n == name).unwrap().1
}

#[test]
fn entity_wire_form_broadcasts_array_flags() {
    let mut entity = Entity::new(Key::new("Bizz".to_string()).with_id(1234));
    entity.set_indexed("name".to_string(), Value::unicode_string("Some Name".to_string()));
    entity.set_indexed(
        "tags".to_string(),
        Value::array(vec![
            Value::unicode_string("rust".to_string()),
            Value::unicode_string("programming".to_string()),
        ]),
    );
    let wire = entity_to_wire(&entity);
    assert_eq!(wire_prop(&wire, "name").exclude_from_indexes, Some(false));
    // The array container carries no flag of its own; its elements do.
    assert_eq!(wire_prop(&wire, "tags").exclude_from_indexes, None);
    match &wire_prop(&wire, "tags").payload {
        WirePayload::Array(items) => {
            assert_eq!(items.len(), 2);
            assert!(items.iter().all(|item| item.exclude_from_indexes == Some(false)));
        }
        other => panic!("tags should be an array, got {:?}", other),
    }
}

#[test]
fn entity_round_trips_through_wire_form() {
    let mut entity = Entity::new(sample_key());
    entity.set_indexed("a".to_string(), Value::integer(3));
    entity.set_unindexed("b".to_string(), Value::unicode_string("x".to_string()));
    let wire = entity_to_wire(&entity);
    let back = entity_from_wire(&wire).unwrap();
    assert_eq!(back.key(), entity.key());
    assert_eq!(back.get_value("a"), Some(&Value::Integer(3)));
    assert_eq!(back.get_value("b"), Some(&Value::UnicodeString("x".to_string())));
    assert!(back.is_indexed("a"));
    assert!(!back.is_indexed("b"));
}

#[test]
fn wire_entity_without_key_is_rejected() {
    let wire = WireEntity { key: None, properties: vec![] };
    assert!(matches!(entity_from_wire(&wire), Err(WireDecodeError::MissingKey)));
}
