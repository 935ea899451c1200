use entail::ds::{Entity, Key, PropertyValue, Value};

#[test]
fn test_key_building() {
    let key1 = Key::new("Bizz".to_string()).with_name("buzz".to_string());
    assert_eq!(key1.kind(), "Bizz");
    assert_eq!(key1.name(), Some("buzz"));
    assert_eq!(key1.id(), None);
    assert_eq!(key1.parent(), None);
    assert_eq!(key1.to_text(), "Bizz(name:\"buzz\")");
    let key2 = Key::new("Palindrome".to_string()).with_name("zzub\tbuzz".to_string());
    assert_eq!(key2.kind(), "Palindrome");
    assert_eq!(key2.name(), Some("zzub\tbuzz"));
    assert_eq!(key2.id(), None);
    assert_eq!(key2.parent(), None);
    assert_eq!(key2.to_text(), "Palindrome(name:\"zzub\\tbuzz\")");
    let key3 = Key::new("Foo".to_string()).with_id(123);
    assert_eq!(key3.kind(), "Foo");
    assert_eq!(key3.name(), None);
    assert_eq!(key3.id(), Some(123));
    assert_eq!(key3.parent(), None);
    assert_eq!(key3.to_text(), "Foo(id:123)");
    let key4 = Key::new("Bar".to_string())
        .with_name("child".to_string())
        .with_parent(Key::new("Foo".to_string()).with_name("parent".to_string()));
    assert_eq!(key4.kind(), "Bar");
    assert_eq!(key4.name(), Some("child"));
    assert_eq!(key4.id(), None);
    assert_ne!(key4.parent(), None);
    if let Some(parent) = key4.parent() {
        assert_eq!(parent.kind(), "Foo");
        assert_eq!(parent.name(), Some("parent"));
        assert_eq!(parent.id(), None);
        assert_eq!(parent.parent(), None);
    }
    assert_eq!(key4.to_text(), "Foo(name:\"parent\")/Bar(name:\"child\")");
}

#[test]
fn key_text_renders_ids_in_decimal() {
    assert_eq!(Key::new("N".to_string()).with_id(0).to_text(), "N(id:0)");
    assert_eq!(Key::new("N".to_string()).with_id(7).to_text(), "N(id:7)");
    assert_eq!(Key::new("N".to_string()).with_id(-42).to_text(), "N(id:-42)");
    assert_eq!(
        Key::new("N".to_string()).with_id(i64::MAX).to_text(),
        "N(id:9223372036854775807)"
    );
    assert_eq!(
        Key::new("N".to_string()).with_id(i64::MIN).to_text(),
        "N(id:-9223372036854775808)"
    );
}

#[test]
fn test_entity_building() {
    let key = Key::new("Bizz".to_string())
        .with_id(1234)
        .with_parent(Key::new("Foo".to_string()).with_name("parent_name".to_string()));
    let mut entity = Entity::new(key);
    entity.set_indexed("name".to_string(), Value::unicode_string("Some Name".to_string()));
    entity.set_unindexed(
        "description".to_string(),
        Value::unicode_string("A long description that is not indexed.".to_string()),
    );
    entity.set_indexed("is_active".to_string(), Value::boolean(true));
    entity.set_indexed("score".to_string(), Value::floating_point(99.9f64.to_bits()));
    entity.set_unindexed("data_blob".to_string(), Value::blob(vec![1, 2, 3, 4, 5]));
    entity.set_indexed(
        "tags".to_string(),
        Value::array(vec![
            Value::unicode_string("rust".to_string()),
            Value::unicode_string("programming".to_string()),
            Value::unicode_string("datastore".to_string()),
        ]),
    );
    entity.set_indexed(
        "related_key".to_string(),
        Value::key(Key::new("RelatedKind".to_string()).with_id(5678)),
    );

    assert_eq!(entity.key().kind(), "Bizz");
    assert_eq!(entity.key().id(), Some(1234));
    assert_eq!(
        entity.get_value("name").and_then(|v| v.string_value()),
        Some("Some Name")
    );
    assert_eq!(entity.is_indexed("name"), true);
    assert_eq!(entity.is_indexed("description"), false);
    assert_eq!(entity.is_indexed("is_active"), true);
    assert_eq!(entity.is_indexed("score"), true);
    assert_eq!(entity.is_indexed("tags"), true);
    assert_eq!(entity.is_indexed("related_key"), true);
    assert_eq!(entity.is_indexed("non_existent_property"), false);
}

#[test]
fn set_advanced_normalizes_empty_array_with_unindexed_nulls() {
    let mut entity = Entity::of_kind("Thing".to_string());
    entity.set_advanced("xs".to_string(), Value::array(vec![]), true, false, Some(7));
    let p: &PropertyValue = entity.get("xs").unwrap();
    assert_eq!(p.value(), &Value::Null);
    assert!(!p.is_indexed());
    assert_eq!(p.meaning(), None);
}

#[test]
fn set_advanced_normalizes_empty_array_with_indexed_nulls() {
    let mut entity = Entity::of_kind("Thing".to_string());
    entity.set_advanced("xs".to_string(), Value::array(vec![]), true, true, Some(7));
    let p: &PropertyValue = entity.get("xs").unwrap();
    assert_eq!(p.value(), &Value::Null);
    assert!(p.is_indexed());
    assert_eq!(p.meaning(), None);
}

#[test]
fn set_advanced_keeps_meaning_for_present_values() {
    let mut entity = Entity::of_kind("Thing".to_string());
    entity.set_advanced(
        "t".to_string(),
        Value::unicode_string("hello".to_string()),
        false,
        true,
        Some(15),
    );
    let p = entity.get("t").unwrap();
    assert_eq!(
        p.value().string_value(),
        Some("hello")
    );
    assert!(!p.is_indexed());
    assert_eq!(p.meaning(), Some(15));
}

#[test]
fn value_accessors_follow_the_variant() {
    let v = Value::blob(vec![9, 8]);
    assert_eq!(v.blob_value(), Some(&[9u8, 8u8][..]));
    assert_eq!(v.string_value(), None);
    assert!(!v.is_null());
    assert!(Value::null().is_null());
    let k = Key::new("K".to_string()).with_id(4);
    let kv = Value::key(k.clone());
    assert_eq!(kv.key_value(), Some(&k));
}

#[test]
fn setting_a_property_twice_replaces_it() {
    let mut entity = Entity::of_kind("Thing".to_string());
    entity.set_indexed("n".to_string(), Value::integer(1));
    entity.set_unindexed("n".to_string(), Value::integer(2));
    let p = entity.get("n").unwrap();
    assert_eq!(p.value(), &Value::Integer(2));
    assert!(!p.is_indexed());
    assert_eq!(entity.properties().len(), 1);
}
