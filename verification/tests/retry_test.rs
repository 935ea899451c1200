use entail::ds::shell::ShellCore;
use entail::ds::store::ApplyError;
use entail::ds::transaction::{AttemptStart, RetryDirective, RetryRule, TransactionShell};
use entail::ds::{Entity, Key, MemoryStore, Mutation, MutationBatch, Value};
use entail::{DsError, EntailError, EntailErrorKind, Transaction};

fn transport_error(status: Option<&str>) -> EntailError {
    EntailError {
        kind: EntailErrorKind::RequestFailure,
        message: "Commit error".to_string(),
        ds_error: Some(DsError {
            status: status.map(|s| s.to_string()),
            detail: "store reply".to_string(),
        }),
    }
}

#[test]
fn classification_follows_the_table() {
    assert_eq!(RetryRule::classify(Some("ABORTED")), RetryRule::Normal);
    assert_eq!(RetryRule::classify(Some("DEADLINE_EXCEEDED")), RetryRule::Backoff);
    assert_eq!(RetryRule::classify(Some("UNAVAILABLE")), RetryRule::Backoff);
    assert_eq!(RetryRule::classify(Some("INTERNAL")), RetryRule::Once);
    assert_eq!(RetryRule::classify(Some("RESOURCE_EXHAUSTED")), RetryRule::Never);
    assert_eq!(RetryRule::classify(Some("SOMETHING_ELSE")), RetryRule::Never);
    assert_eq!(RetryRule::classify(None), RetryRule::Never);
}

#[test]
fn aborted_retries_with_a_fixed_delay() {
    let mut state = Transaction::new().first_retry(1000).start();
    match state.next_attempt() {
        AttemptStart::Begin { previous } => assert!(previous.is_none()),
        AttemptStart::Exhausted => panic!("budget should not be used up"),
    }
    let directive = state.on_attempt_error(transport_error(Some("ABORTED")), false);
    match directive {
        RetryDirective::SleepAndRetry { wait_micros } => assert_eq!(wait_micros, 1000),
        other => panic!("ABORTED must retry, got {:?}", other),
    }
    // A normal retry does not grow the delay.
    assert_eq!(state.current_delay_micros, 1000);
}

#[test]
fn unavailable_retries_with_growing_backoff() {
    let mut state = Transaction::new().first_retry(1000).start();
    state.next_attempt();
    let directive = state.on_attempt_error(transport_error(Some("UNAVAILABLE")), false);
    match directive {
        RetryDirective::SleepAndRetry { wait_micros } => {
            assert!((500..=2000).contains(&wait_micros));
        }
        other => panic!("UNAVAILABLE must retry, got {:?}", other),
    }
    assert_eq!(state.current_delay_micros, 2000);
    // The next backoff doubles again and draws from the next window.
    let directive = state.on_attempt_error(transport_error(Some("DEADLINE_EXCEEDED")), false);
    match directive {
        RetryDirective::SleepAndRetry { wait_micros } => {
            assert!((1000..=4000).contains(&wait_micros));
        }
        other => panic!("DEADLINE_EXCEEDED must retry, got {:?}", other),
    }
    assert_eq!(state.current_delay_micros, 4000);
}

#[test]
fn internal_forces_exactly_one_more_attempt() {
    let mut state = Transaction::new().with_retry_count(10).start();
    state.next_attempt();
    assert_eq!(state.retries_left, 9);
    let directive = state.on_attempt_error(transport_error(Some("INTERNAL")), false);
    assert!(matches!(directive, RetryDirective::RetryNow));
    assert_eq!(state.retries_left, 1);
    // With no budget left, the clamp does not add an attempt.
    let mut drained = Transaction::new().with_retry_count(1).start();
    drained.next_attempt();
    assert_eq!(drained.retries_left, 0);
    let directive = drained.on_attempt_error(transport_error(Some("INTERNAL")), false);
    assert!(matches!(directive, RetryDirective::RetryNow));
    assert_eq!(drained.retries_left, 0);
}

#[test]
fn resource_exhausted_and_unknown_fail_immediately() {
    for status in [Some("RESOURCE_EXHAUSTED"), Some("NO_SUCH_STATUS"), None] {
        let mut state = Transaction::new().start();
        state.next_attempt();
        match state.on_attempt_error(transport_error(status), false) {
            RetryDirective::Fail(e) => assert_eq!(e.kind, EntailErrorKind::RequestFailure),
            other => panic!("{:?} must fail immediately, got {:?}", status, other),
        }
    }
    // An error with no transport failure at all is never retried either.
    let mut state = Transaction::new().start();
    state.next_attempt();
    let bare = EntailError::simple(EntailErrorKind::Unknown, "local".to_string());
    assert!(matches!(state.on_attempt_error(bare, false), RetryDirective::Fail(_)));
}

#[test]
fn rollback_failure_takes_precedence_over_the_original_error() {
    let mut state = Transaction::new().start();
    state.next_attempt();
    match state.on_attempt_error(transport_error(Some("ABORTED")), true) {
        RetryDirective::Fail(e) => {
            assert_eq!(e.message, "Autorollback error");
            assert_eq!(e.kind, EntailErrorKind::RequestFailure);
            assert!(e.ds_error.is_some());
        }
        other => panic!("a failed rollback must surface, got {:?}", other),
    }
}

#[test]
fn an_exhausted_run_reports_the_last_error() {
    let mut state = Transaction::new().with_retry_count(1).start();
    assert!(matches!(state.next_attempt(), AttemptStart::Begin { .. }));
    state.on_attempt_error(transport_error(Some("ABORTED")), false);
    assert!(matches!(state.next_attempt(), AttemptStart::Exhausted));
    let err = state.into_exhausted_error();
    assert_eq!(err.kind, EntailErrorKind::RetriesExhausted);
    assert_eq!(err.message, "Retries exhausted");
    assert_eq!(err.ds_error.unwrap().status.as_deref(), Some("ABORTED"));
}

/// A store behind optimistic concurrency control: a commit succeeds only
/// when nothing was committed since its transaction began.
struct FakeStore {
    store: MemoryStore,
    version: u64,
}

impl FakeStore {
    fn begin(&self) -> Vec<u8> {
        self.version.to_le_bytes().to_vec()
    }

    fn read(&self, key: &Key) -> Option<Entity> {
        self.store.lookup(key).cloned()
    }

    fn commit(&mut self, token: &[u8], batch: &MutationBatch) -> Result<(), EntailError> {
        if token != self.version.to_le_bytes() {
            return Err(transport_error(Some("ABORTED")));
        }
        self.store.apply_batch(batch).map_err(|e: ApplyError| {
            EntailError::simple(EntailErrorKind::RequestFailure, format!("{:?}", e))
        })?;
        self.version += 1;
        Ok(())
    }
}

fn test_key() -> Key {
    Key::new("Test".to_string()).with_name("one".to_string())
}

fn upsert_batch(value: &str) -> MutationBatch {
    let mut e = Entity::new(test_key());
    e.set_indexed("glank".to_string(), Value::unicode_string(value.to_string()));
    MutationBatch::new().add(Mutation::Upsert(e))
}

/// One attempt of a read-then-upsert unit of work; `Ok` carries nothing,
/// `Err` the failure to classify.
fn attempt(store: &mut FakeStore, token: Vec<u8>, value: &str) -> Result<(), EntailError> {
    let base = ShellCore::new("test-project".to_string(), None);
    let mut shell = TransactionShell::from_shell(base.with_transaction(Some(token.clone())));
    assert!(shell.active);
    let _read = store.read(&test_key());
    let outcome = store.commit(&token, &upsert_batch(value));
    shell.note_commit_outcome(outcome.is_ok());
    if outcome.is_ok() {
        assert!(!shell.active);
    }
    outcome
}

#[test]
fn test_create_conflict() {
    let mut store = FakeStore { store: MemoryStore::new(), version: 0 };
    store
        .store
        .apply_mutation(Mutation::Upsert({
            let mut e = Entity::new(test_key());
            e.set_indexed("glank".to_string(), Value::unicode_string("cluff".to_string()));
            e
        }))
        .unwrap();

    let runner = Transaction::new();
    let mut state_a = runner.start();
    let mut state_b = runner.start();
    let mut tries_a = 0u32;
    let mut tries_b = 0u32;

    // Both transactions begin against the same store version, then A
    // commits first and B must observe the conflict and re-attempt.
    let token_a = match state_a.next_attempt() {
        AttemptStart::Begin { .. } => store.begin(),
        AttemptStart::Exhausted => panic!("budget should not be used up"),
    };
    state_a.note_begun(Some(token_a.clone()));
    let token_b = match state_b.next_attempt() {
        AttemptStart::Begin { .. } => store.begin(),
        AttemptStart::Exhausted => panic!("budget should not be used up"),
    };
    state_b.note_begun(Some(token_b.clone()));

    tries_a += 1;
    attempt(&mut store, token_a, "wibz").expect("the first writer commits cleanly");

    tries_b += 1;
    let conflict = attempt(&mut store, token_b, "vrob").expect_err("the loser must conflict");
    let mut conflicts_seen = 0u32;
    match state_b.on_attempt_error(conflict, false) {
        RetryDirective::SleepAndRetry { .. } => conflicts_seen += 1,
        other => panic!("an aborted commit must be retried, got {:?}", other),
    }

    let token_b2 = match state_b.next_attempt() {
        AttemptStart::Begin { previous } => {
            // The retry hints the previous attempt's transaction.
            assert_eq!(previous, Some(token_b2_hint(&state_b)));
            store.begin()
        }
        AttemptStart::Exhausted => panic!("one conflict must not exhaust the budget"),
    };
    state_b.note_begun(Some(token_b2.clone()));
    tries_b += 1;
    attempt(&mut store, token_b2, "vrob").expect("the retried writer commits cleanly");

    assert_eq!(conflicts_seen, 1);
    assert_eq!(tries_a, 1);
    assert_eq!(tries_b, 2);
    assert!(tries_b >= 1 && tries_b <= Transaction::new().retry_count);
    // The final value is one of the two writers' values, never a mix.
    let last = store.read(&test_key()).unwrap();
    let glank = last.get_value("glank").and_then(|v| v.string_value()).unwrap().to_string();
    assert!(glank == "wibz" || glank == "vrob");
    assert_eq!(glank, "vrob");
}

fn token_b2_hint(state: &entail::ds::RunState) -> Vec<u8> {
    state.last_txn.clone().unwrap()
}
