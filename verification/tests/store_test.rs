use entail::ds::store::ApplyError;
use entail::ds::{Entity, Key, MemoryStore, Mutation, MutationBatch, Value};

fn key(name: &str) -> Key {
    Key::new("Test".to_string()).with_name(name.to_string())
}

fn entity(name: &str, value: &str) -> Entity {
    let mut e = Entity::new(key(name));
    e.set_indexed("glank".to_string(), Value::unicode_string(value.to_string()));
    e
}

#[test]
fn delete_of_a_nonexistent_key_succeeds() {
    let mut store = MemoryStore::new();
    assert_eq!(store.apply_mutation(Mutation::Delete(key("missing"))), Ok(()));
    // And deleting an existing key twice succeeds both times.
    store.apply_mutation(Mutation::Upsert(entity("a", "one"))).unwrap();
    assert_eq!(store.apply_mutation(Mutation::Delete(key("a"))), Ok(()));
    assert_eq!(store.apply_mutation(Mutation::Delete(key("a"))), Ok(()));
    assert!(store.lookup(&key("a")).is_none());
}

#[test]
fn upsert_twice_leaves_the_second_value() {
    let mut store = MemoryStore::new();
    assert_eq!(store.apply_mutation(Mutation::Upsert(entity("a", "first"))), Ok(()));
    assert_eq!(store.apply_mutation(Mutation::Upsert(entity("a", "second"))), Ok(()));
    let found = store.lookup(&key("a")).unwrap();
    assert_eq!(
        found.get_value("glank"),
        Some(Value::unicode_string("second".to_string())).as_ref()
    );
}

#[test]
fn insert_against_an_existing_key_fails() {
    let mut store = MemoryStore::new();
    store.apply_mutation(Mutation::Insert(entity("a", "one"))).unwrap();
    assert_eq!(
        store.apply_mutation(Mutation::Insert(entity("a", "two"))),
        Err(ApplyError::AlreadyExists)
    );
    // The first value is untouched.
    let found = store.lookup(&key("a")).unwrap();
    assert_eq!(
        found.get_value("glank"),
        Some(Value::unicode_string("one".to_string())).as_ref()
    );
}

#[test]
fn update_against_a_missing_key_fails() {
    let mut store = MemoryStore::new();
    assert_eq!(
        store.apply_mutation(Mutation::Update(entity("missing", "x"))),
        Err(ApplyError::NotFound)
    );
    store.apply_mutation(Mutation::Insert(entity("a", "one"))).unwrap();
    assert_eq!(store.apply_mutation(Mutation::Update(entity("a", "two"))), Ok(()));
}

#[test]
fn batch_fetch_omits_missing_keys() {
    let mut store = MemoryStore::new();
    store.apply_mutation(Mutation::Upsert(entity("k1", "present"))).unwrap();
    let keys = vec![key("k1"), key("k2")];
    let found = store.lookup_all(&keys);
    assert_eq!(found.len(), 1);
    assert_eq!(found[0].key().name(), Some("k1"));
    // No entry, and no error, for the missing key.
    assert!(store.lookup(&key("k2")).is_none());
}

#[test]
fn an_undefined_batch_leaves_the_store_unchanged() {
    let mut store = MemoryStore::new();
    store.apply_mutation(Mutation::Upsert(entity("a", "kept"))).unwrap();
    let batch = MutationBatch::new()
        .upsert(entity("b", "lost"))
        .insert(entity("a", "conflicts"));
    assert_eq!(store.apply_batch(&batch), Err(ApplyError::AlreadyExists));
    // Atomicity: the earlier upsert of the batch did not land either.
    assert!(store.lookup(&key("b")).is_none());
    let found = store.lookup(&key("a")).unwrap();
    assert_eq!(
        found.get_value("glank"),
        Some(Value::unicode_string("kept".to_string())).as_ref()
    );
}

#[test]
fn a_defined_batch_applies_in_order() {
    let mut store = MemoryStore::new();
    let batch = MutationBatch::new()
        .insert(entity("a", "one"))
        .update(entity("a", "two"))
        .delete(key("zzz"))
        .upsert(entity("b", "three"));
    assert_eq!(store.apply_batch(&batch), Ok(()));
    assert_eq!(
        store.lookup(&key("a")).unwrap().get_value("glank"),
        Some(Value::unicode_string("two".to_string())).as_ref()
    );
    assert_eq!(
        store.lookup(&key("b")).unwrap().get_value("glank"),
        Some(Value::unicode_string("three".to_string())).as_ref()
    );
}
