use entail::ds::shell::{absorb_lookup_page, single_found_entity, ShellCore};
use entail::ds::wire::{entity_to_wire, key_to_wire, WireKey, WirePathElement};
use entail::ds::{
    Entity, Filter, FilterOperator, Key, Mutation, MutationBatch, OrderDirection, PropertyOrder,
    Query, QueryResult, Value, WireMutation,
};
use entail::ds::query::{filter_to_wire, query_to_wire, WireFilter};
use entail::ds::mutation::mutation_response_from_wire;
use entail::ds::{WireCommitResponse, WireMutationResult};

fn shell() -> ShellCore {
    ShellCore::new("test-project".to_string(), None)
}

#[test]
fn reads_outside_a_transaction_request_strong_consistency() {
    let opts = shell().read_options();
    assert_eq!(opts.read_consistency.as_deref(), Some("STRONG"));
    assert!(opts.transaction.is_none());
}

#[test]
fn reads_inside_a_transaction_imply_their_consistency() {
    let txn = shell().with_transaction(Some(vec![1, 2, 3]));
    let opts = txn.read_options();
    assert!(opts.read_consistency.is_none());
    assert_eq!(opts.transaction, Some(vec![1, 2, 3]));
}

#[test]
fn beginning_a_transaction_leaves_the_original_shell_untouched() {
    let base = shell();
    let txn = base.with_transaction(Some(vec![9]));
    assert!(base.transaction.is_none());
    assert_eq!(txn.transaction, Some(vec![9]));
    assert_eq!(txn.project_id, base.project_id);
}

#[test]
fn an_empty_commit_short_circuits() {
    let batch = MutationBatch::new();
    assert!(shell().commit_request(&batch).is_none());
}

#[test]
fn commit_mode_follows_the_transaction() {
    let mut e = Entity::new(Key::new("T".to_string()).with_id(1));
    e.set_indexed("x".to_string(), Value::integer(1));
    let batch = MutationBatch::new().upsert(e);
    let plain = shell().commit_request(&batch).unwrap();
    assert_eq!(plain.mode, "NON_TRANSACTIONAL");
    assert!(plain.transaction.is_none());
    assert_eq!(plain.mutations.len(), 1);
    assert!(matches!(plain.mutations[0], WireMutation::Upsert(_)));

    let txn = shell().with_transaction(Some(vec![5]));
    let transactional = txn.commit_request(&batch).unwrap();
    assert_eq!(transactional.mode, "TRANSACTIONAL");
    assert_eq!(transactional.transaction, Some(vec![5]));
}

#[test]
fn a_batch_keeps_its_order_on_the_wire() {
    let mut e = Entity::new(Key::new("T".to_string()).with_id(1));
    e.set_indexed("x".to_string(), Value::integer(1));
    let batch = MutationBatch::new()
        .add(Mutation::Insert(e))
        .delete(Key::new("T".to_string()).with_id(2));
    let wire = batch.to_wire();
    assert_eq!(wire.len(), 2);
    assert!(matches!(wire[0], WireMutation::Insert(_)));
    assert!(matches!(wire[1], WireMutation::Delete(_)));
}

#[test]
fn rollback_without_a_token_is_a_no_op() {
    assert!(shell().rollback_request(&None).is_none());
}

#[test]
fn rollback_prefers_the_explicit_token() {
    let txn = shell().with_transaction(Some(vec![1]));
    let own = txn.rollback_request(&None).unwrap();
    assert_eq!(own.transaction, vec![1]);
    let explicit = txn.rollback_request(&Some(vec![2])).unwrap();
    assert_eq!(explicit.transaction, vec![2]);
}

#[test]
fn empty_key_space_requests_short_circuit() {
    assert!(shell().keys_request(&vec![]).is_none());
    let keys = vec![Key::new("T".to_string())];
    let req = shell().keys_request(&keys).unwrap();
    assert_eq!(req.keys.len(), 1);
    assert_eq!(req.keys[0].path[0].kind.as_deref(), Some("T"));
}

#[test]
fn a_single_lookup_reply_may_be_empty() {
    assert!(single_found_entity(vec![]).unwrap().is_none());
    let mut e = Entity::new(Key::new("T".to_string()).with_id(3));
    e.set_indexed("x".to_string(), Value::integer(9));
    let found = vec![entity_to_wire(&e)];
    let decoded = single_found_entity(found).unwrap().unwrap();
    assert_eq!(decoded.key().id(), Some(3));
    assert_eq!(decoded.get_value("x"), Some(Value::integer(9)).as_ref());
}

#[test]
fn a_lookup_drains_deferred_keys() {
    let mut acc: Vec<Entity> = Vec::new();
    let mut e1 = Entity::new(Key::new("T".to_string()).with_id(1));
    e1.set_indexed("x".to_string(), Value::integer(1));
    let deferred: Vec<WireKey> = vec![key_to_wire(&Key::new("T".to_string()).with_id(2))];
    // The first page defers one key: the lookup must be re-issued for it.
    let next = absorb_lookup_page(&mut acc, vec![entity_to_wire(&e1)], deferred.clone()).unwrap();
    assert_eq!(next, Some(deferred));
    assert_eq!(acc.len(), 1);
    // The second page defers nothing: the lookup is complete.
    let mut e2 = Entity::new(Key::new("T".to_string()).with_id(2));
    e2.set_indexed("x".to_string(), Value::integer(2));
    let next = absorb_lookup_page(&mut acc, vec![entity_to_wire(&e2)], vec![]).unwrap();
    assert_eq!(next, None);
    assert_eq!(acc.len(), 2);
    assert_eq!(acc[1].key().id(), Some(2));
}

#[test]
fn commit_replies_decode_in_order() {
    let wire = WireCommitResponse {
        mutation_results: vec![
            WireMutationResult {
                key: Some(key_to_wire(&Key::new("T".to_string()).with_id(9))),
                version: Some(5),
                create_time: Some("2024-01-01T00:00:00Z".to_string()),
                update_time: None,
            },
            WireMutationResult { key: None, version: None, create_time: None, update_time: None },
        ],
        index_updates: None,
        commit_time: Some("2024-01-01T00:00:01Z".to_string()),
    };
    let res = mutation_response_from_wire(wire).unwrap();
    assert_eq!(res.mutation_results.len(), 2);
    assert_eq!(res.mutation_results[0].key.as_ref().unwrap().id(), Some(9));
    assert_eq!(res.mutation_results[0].version, 5);
    assert_eq!(
        res.mutation_results[0].create_time.as_deref(),
        Some("2024-01-01T00:00:00Z")
    );
    // An absent version reads as zero, an absent counter as zero.
    assert_eq!(res.mutation_results[1].version, 0);
    assert!(res.mutation_results[1].key.is_none());
    assert_eq!(res.index_updates, 0);
    assert_eq!(res.commit_time.as_deref(), Some("2024-01-01T00:00:01Z"));
}

#[test]
fn filter_and_combines_by_the_one_rule() {
    assert!(Filter::and(vec![]).is_none());
    let single = FilterOperator::Equal.of("a".to_string(), Value::integer(1));
    match Filter::and(vec![single]).unwrap() {
        Filter::Property(name, FilterOperator::Equal, Value::Integer(1)) => {
            assert_eq!(name, "a");
        }
        other => panic!("a singleton must be unwrapped, got {:?}", other),
    }
    let both = vec![
        FilterOperator::GreaterThan.of("a".to_string(), Value::integer(1)),
        FilterOperator::LessThanOrEqual.of("b".to_string(), Value::integer(9)),
    ];
    match Filter::and(both).unwrap() {
        Filter::Composite(_, parts) => assert_eq!(parts.len(), 2),
        other => panic!("two filters must combine, got {:?}", other),
    }
}

#[test]
fn filters_carry_their_wire_names() {
    let f = FilterOperator::HasAncestor.of(
        "__key__".to_string(),
        Value::key(Key::new("P".to_string()).with_id(1)),
    );
    match filter_to_wire(&f) {
        WireFilter::Property { property, op, .. } => {
            assert_eq!(property, "__key__");
            assert_eq!(op, "HAS_ANCESTOR");
        }
        other => panic!("expected a property filter, got {:?}", other),
    }
    let c = Filter::and(vec![
        FilterOperator::NotIn.of("a".to_string(), Value::integer(1)),
        FilterOperator::NotEqual.of("b".to_string(), Value::integer(2)),
    ])
    .unwrap();
    match filter_to_wire(&c) {
        WireFilter::Composite { op, filters } => {
            assert_eq!(op, "AND");
            assert_eq!(filters.len(), 2);
            match &filters[0] {
                WireFilter::Property { op, .. } => assert_eq!(op, "NOT_IN"),
                other => panic!("expected a property filter, got {:?}", other),
            }
        }
        other => panic!("expected a composite filter, got {:?}", other),
    }
}

#[test]
fn a_query_keeps_its_shape_on_the_wire() {
    let mut q = Query::default();
    assert_eq!(q.limit, 1000);
    q.kind = "Widget".to_string();
    q.order = vec![PropertyOrder::new("name".to_string(), OrderDirection::DESCENDING)];
    q.limit = 25;
    q.offset = 3;
    let wire = query_to_wire(q);
    assert_eq!(wire.kind.len(), 1);
    assert_eq!(wire.kind[0], "Widget");
    assert_eq!(wire.order.len(), 1);
    assert_eq!(wire.order[0].0, "name");
    assert_eq!(wire.order[0].1, "DESCENDING");
    assert_eq!(wire.limit, Some(25));
    assert_eq!(wire.offset, Some(3));

    let kindless = query_to_wire(Query::default());
    assert!(kindless.kind.is_empty());
}

#[test]
fn query_results_map_their_items() {
    let page = QueryResult::new(vec![1i64, 2, 3], Some(vec![7]));
    let doubled = page.map(|v| v * 2);
    assert_eq!(doubled.items, vec![2i64, 4, 6]);
    assert_eq!(doubled.end_cursor, Some(vec![7]));
    let strings = doubled.map_ref(|v| format!("{}", v));
    assert_eq!(strings.items, vec!["2".to_string(), "4".to_string(), "6".to_string()]);
    assert_eq!(strings.end_cursor, Some(vec![7]));
}
