//! The decision core of the transaction runner.
//!
//! A unit of work runs against a fresh transaction per attempt; when it
//! fails, the failure's status code is classified and the runner either
//! retries — after a bounded, jittered exponential backoff — or gives up.
//! Everything that decides anything lives here as pure state transitions;
//! the surrounding loop performs the store calls and the sleeps and feeds
//! their outcomes back in.

use vstd::prelude::*;

use crate::ds::entity::str_eq;
use crate::error::DsError;
use crate::error::EntailError;
use crate::error::EntailErrorKind;

verus! {

/// Relies on `rand::random::<u64>`: a number drawn from the process-wide
/// generator. Nothing is promised of the result.
#[verifier::external_body]
fn random_u64() -> u64 {
    rand::random::<u64>()
}

/// A number drawn uniformly at random from the inclusive range `lo ..= hi`.
fn sample_in_range(lo: u64, hi: u64) -> (r: u64)
    requires
        lo <= hi,
    ensures
        lo <= r <= hi,
{
    let x = random_u64();
    let diff = hi - lo;
    if diff == u64::MAX {
        x
    } else {
        lo + x % (diff + 1)
    }
}

/// How a failed attempt is to be retried, if at all.
#[derive(Debug, Clone, Copy, PartialEq, Eq, Structural)]
pub enum RetryRule {
    /// Retry; the wait is the current delay exactly and the delay does not
    /// grow.
    Normal,
    /// Retry; the delay doubles and the wait is drawn from a jitter window.
    Backoff,
    /// Force exactly one more attempt, regardless of the remaining budget.
    Once,
    /// Do not retry.
    Never,
}

/// The classification table: `ABORTED` retries normally,
/// `DEADLINE_EXCEEDED` and `UNAVAILABLE` retry with growing backoff,
/// `INTERNAL` forces one more attempt, and `RESOURCE_EXHAUSTED`, any
/// unrecognized status and a missing status do not retry.
pub open spec fn classification_of(status: Option<Seq<char>>) -> RetryRule {
    match status {
        None => RetryRule::Never,
        Some(s) => if s == "ABORTED"@ {
            RetryRule::Normal
        } else if s == "DEADLINE_EXCEEDED"@ || s == "UNAVAILABLE"@ {
            RetryRule::Backoff
        } else if s == "INTERNAL"@ {
            RetryRule::Once
        } else {
            RetryRule::Never
        },
    }
}

/// The status code a transport failure carries, as a sequence of characters.
pub open spec fn status_view(e: DsError) -> Option<Seq<char>> {
    match e.status {
        Some(s) => Some(s@),
        None => None,
    }
}

/// The classification an error receives: the classification of its
/// transport failure's status, or `Never` when it carries no transport
/// failure.
pub open spec fn error_class(e: EntailError) -> RetryRule {
    match e.ds_error {
        Some(d) => classification_of(status_view(d)),
        None => RetryRule::Never,
    }
}

impl RetryRule {
    /// Classifies a status code string.
    pub fn classify(status: Option<&str>) -> (r: Self)
        ensures
            r == classification_of(
                match status {
                    Some(s) => Some(s@),
                    None => None,
                },
            ),
    {
        match status {
            None => RetryRule::Never,
            Some(s) => {
                if str_eq(s, "ABORTED") {
                    RetryRule::Normal
                } else if str_eq(s, "DEADLINE_EXCEEDED") || str_eq(s, "UNAVAILABLE") {
                    RetryRule::Backoff
                } else if str_eq(s, "INTERNAL") {
                    RetryRule::Once
                } else {
                    RetryRule::Never
                }
            },
        }
    }

    /// Classifies a transport failure by its status code.
    pub fn based_on_error(error: &DsError) -> (r: Self)
        ensures
            r == classification_of(status_view(*error)),
    {
        match &error.status {
            Some(s) => Self::classify(Some(s.as_str())),
            None => RetryRule::Never,
        }
    }
}

/// The configuration of a transaction runner: the attempt budget and the
/// base delay of the backoff.
#[derive(Debug, Clone, Copy, PartialEq, Eq, Structural)]
pub struct Transaction {
    /// The maximum number of attempts. When it is used up without a
    /// success, the run fails permanently.
    pub retry_count: u32,
    /// The delay the backoff starts from, in microseconds.
    pub first_retry_micros: u64,
}

impl Transaction {
    /// A runner with the default budget of 16 attempts and a base delay of
    /// 25 milliseconds.
    pub fn new() -> (r: Self)
        ensures
            r.retry_count == 16,
            r.first_retry_micros == 25000,
    {
        Transaction { retry_count: 16, first_retry_micros: 25000 }
    }

    /// Consumes the runner and returns one with the given attempt budget.
    pub fn with_retry_count(self, retry_count: u32) -> (r: Self)
        ensures
            r.retry_count == retry_count,
            r.first_retry_micros == self.first_retry_micros,
    {
        Transaction { retry_count, ..self }
    }

    /// Consumes the runner and returns one with the given base delay, in
    /// microseconds.
    pub fn first_retry(self, first_retry_micros: u64) -> (r: Self)
        ensures
            r.retry_count == self.retry_count,
            r.first_retry_micros == first_retry_micros,
    {
        Transaction { first_retry_micros, ..self }
    }

    /// The state a run starts from.
    pub fn start(&self) -> (s: RunState)
        ensures
            s.retries_left == self.retry_count,
            s.current_delay_micros == self.first_retry_micros,
            s.last_error is None,
            s.last_txn is None,
    {
        RunState {
            retries_left: self.retry_count,
            current_delay_micros: self.first_retry_micros,
            last_error: None,
            last_txn: None,
        }
    }
}

/// The state one run of a transaction carries across attempts: the budget
/// that is left, the current backoff delay, the last transport failure
/// observed, and the token of the previous attempt's transaction.
#[derive(Debug)]
pub struct RunState {
    pub retries_left: u32,
    pub current_delay_micros: u64,
    pub last_error: Option<DsError>,
    pub last_txn: Option<Vec<u8>>,
}

/// What to do before the next attempt.
#[derive(Debug)]
pub enum AttemptStart {
    /// The budget is used up: the run fails with a "retries exhausted"
    /// error carrying the last observed transport failure.
    Exhausted,
    /// Begin a new transaction, hinting the previous attempt's token so the
    /// store can favor the losing side of a conflict.
    Begin { previous: Option<Vec<u8>> },
}

/// What to do after a failed attempt.
#[derive(Debug)]
pub enum RetryDirective {
    /// Surface this error; the run is over.
    Fail(EntailError),
    /// Wait for the given number of microseconds, then start the next
    /// attempt.
    SleepAndRetry { wait_micros: u64 },
    /// Start the next attempt without waiting.
    RetryNow,
}

/// The delay that follows a retry of the given class: it doubles on a
/// `Backoff` retry — saturating at the point where doubling would
/// overflow — and stays as it is otherwise.
pub open spec fn next_delay_of(cur: u64, class: RetryRule) -> u64 {
    if class == RetryRule::Backoff {
        if cur <= u64::MAX / 2 {
            (2 * cur) as u64
        } else {
            cur
        }
    } else {
        cur
    }
}

/// The lower edge of the jitter window: half the current delay on a
/// `Backoff` retry, the current delay itself — a degenerate window — on a
/// `Normal` retry.
pub open spec fn wait_floor_of(cur: u64, class: RetryRule) -> u64 {
    if class == RetryRule::Backoff {
        (cur / 2) as u64
    } else {
        cur
    }
}

impl RunState {
    /// Decides whether another attempt may start, consuming one unit of the
    /// budget when it does.
    pub fn next_attempt(&mut self) -> (r: AttemptStart)
        ensures
            old(self).retries_left == 0 ==> r is Exhausted && *final(self) == *old(self),
            old(self).retries_left > 0 ==> match r {
                AttemptStart::Begin { previous } => {
                    &&& opt_bytes_view(previous) == opt_bytes_view(old(self).last_txn)
                    &&& final(self).retries_left == old(self).retries_left - 1
                    &&& final(self).current_delay_micros == old(self).current_delay_micros
                    &&& final(self).last_error == old(self).last_error
                    &&& final(self).last_txn == old(self).last_txn
                },
                AttemptStart::Exhausted => false,
            },
    {
        if self.retries_left == 0 {
            return AttemptStart::Exhausted;
        }
        self.retries_left = self.retries_left - 1;
        let previous = match &self.last_txn {
            Some(t) => Some(clone_bytes(t)),
            None => None,
        };
        AttemptStart::Begin { previous }
    }

    /// Records the token of the transaction an attempt has begun.
    pub fn note_begun(&mut self, token: Option<Vec<u8>>)
        ensures
            final(self).last_txn == token,
            final(self).retries_left == old(self).retries_left,
            final(self).current_delay_micros == old(self).current_delay_micros,
            final(self).last_error == old(self).last_error,
    {
        self.last_txn = token;
    }

    /// The permanent failure of a run whose budget is used up, carrying the
    /// last observed transport failure.
    pub fn into_exhausted_error(self) -> (r: EntailError)
        ensures
            r.kind == EntailErrorKind::RetriesExhausted,
            r.message@ == "Retries exhausted"@,
            r.ds_error == self.last_error,
    {
        EntailError {
            kind: EntailErrorKind::RetriesExhausted,
            message: "Retries exhausted".to_owned(),
            ds_error: self.last_error,
        }
    }

    /// Decides what follows a failed attempt.
    ///
    /// When the automatic rollback that followed the failure itself failed,
    /// the rollback failure is surfaced in place of the original error —
    /// callers must learn that the transaction may still be open. Otherwise
    /// the error's classification decides: `Never` surfaces the error;
    /// `Once` clamps the remaining budget down to at most one further
    /// attempt and retries at once; `Normal` and `Backoff` record the
    /// failure, advance the delay and direct a wait drawn from the jitter
    /// window of the class.
    pub fn on_attempt_error(&mut self, err: EntailError, rollback_failed: bool) -> (r:
        RetryDirective)
        ensures
            final(self).retries_left <= old(self).retries_left,
            rollback_failed ==> match r {
                RetryDirective::Fail(e) => {
                    &&& e.kind == err.kind
                    &&& e.message@ == "Autorollback error"@
                    &&& e.ds_error == err.ds_error
                    &&& *final(self) == *old(self)
                },
                _ => false,
            },
            !rollback_failed && error_class(err) == RetryRule::Never ==> match r {
                RetryDirective::Fail(e) => e == err && *final(self) == *old(self),
                _ => false,
            },
            !rollback_failed && error_class(err) == RetryRule::Once ==> {
                &&& r is RetryNow
                &&& final(self).retries_left == (if old(self).retries_left > 0 {
                    1u32
                } else {
                    0u32
                })
                &&& final(self).current_delay_micros == old(self).current_delay_micros
                &&& final(self).last_error == err.ds_error
                &&& final(self).last_txn == old(self).last_txn
            },
            !rollback_failed && (error_class(err) == RetryRule::Normal || error_class(err)
                == RetryRule::Backoff) ==> match r {
                RetryDirective::SleepAndRetry { wait_micros } => {
                    &&& wait_floor_of(old(self).current_delay_micros, error_class(err))
                        <= wait_micros <= next_delay_of(
                        old(self).current_delay_micros,
                        error_class(err),
                    )
                    &&& error_class(err) == RetryRule::Normal ==> wait_micros == old(
                        self,
                    ).current_delay_micros
                    &&& final(self).current_delay_micros == next_delay_of(
                        old(self).current_delay_micros,
                        error_class(err),
                    )
                    &&& final(self).retries_left == old(self).retries_left
                    &&& final(self).last_error == err.ds_error
                    &&& final(self).last_txn == old(self).last_txn
                },
                _ => false,
            },
    {
        if rollback_failed {
            return RetryDirective::Fail(
                EntailError {
                    kind: err.kind,
                    message: "Autorollback error".to_owned(),
                    ds_error: err.ds_error,
                },
            );
        }
        let rule = match &err.ds_error {
            Some(d) => RetryRule::based_on_error(d),
            None => RetryRule::Never,
        };
        match rule {
            RetryRule::Never => RetryDirective::Fail(err),
            RetryRule::Once => {
                if self.retries_left > 0 {
                    self.retries_left = 1;
                }
                self.last_error = err.ds_error;
                RetryDirective::RetryNow
            },
            _ => {
                let backoff = matches!(rule, RetryRule::Backoff);
                let cur = self.current_delay_micros;
                let next = if backoff {
                    if cur <= u64::MAX / 2 {
                        2 * cur
                    } else {
                        cur
                    }
                } else {
                    cur
                };
                let floor = if backoff {
                    cur / 2
                } else {
                    cur
                };
                let wait_micros = sample_in_range(floor, next);
                self.current_delay_micros = next;
                self.last_error = err.ds_error;
                RetryDirective::SleepAndRetry { wait_micros }
            },
        }
    }
}

/// A shell tied to one ongoing transaction, tracking whether the
/// transaction is still open.
///
/// A fresh transactional shell starts active; a successful commit or
/// rollback clears the flag. When the unit of work returns without doing
/// either, the runner must roll the transaction back on its behalf before
/// judging the outcome — the flag is what tells it to.
#[derive(Debug)]
pub struct TransactionShell {
    /// The transactional shell state the store calls are made with.
    pub ds: crate::ds::shell::ShellCore,
    /// Whether the transaction is still open.
    pub active: bool,
}

impl TransactionShell {
    /// Wraps a shell that has begun a transaction; the wrapper starts
    /// active exactly when the shell carries a transaction token.
    pub fn from_shell(ds: crate::ds::shell::ShellCore) -> (r: Self)
        ensures
            r.active == (ds.transaction is Some),
            r.ds == ds,
    {
        let active = match &ds.transaction {
            Some(_) => true,
            None => false,
        };
        TransactionShell { ds, active }
    }

    /// Records the outcome of a commit: a successful commit closes the
    /// transaction, a failed one leaves it as it was.
    pub fn note_commit_outcome(&mut self, ok: bool)
        ensures
            final(self).active == (if ok {
                false
            } else {
                old(self).active
            }),
            final(self).ds == old(self).ds,
    {
        if ok {
            self.active = false;
        }
    }

    /// Records the outcome of a rollback: a successful rollback closes the
    /// transaction, a failed one leaves it as it was.
    pub fn note_rollback_outcome(&mut self, ok: bool)
        ensures
            final(self).active == (if ok {
                false
            } else {
                old(self).active
            }),
            final(self).ds == old(self).ds,
    {
        if ok {
            self.active = false;
        }
    }
}

/// The number of attempts a run makes when its budget starts at `budget`
/// and its i-th failed attempt is classified `classes[i]`; a run that
/// outlives its listed failures succeeds on its next attempt.
///
/// This is the budget arithmetic of [`RunState`]: starting an attempt
/// consumes one unit ([`RunState::next_attempt`]), `Never` ends the run,
/// `Once` clamps the remaining budget to at most one further attempt, and
/// no classification restores any ([`RunState::on_attempt_error`]).
pub open spec fn spec_attempts(budget: nat, classes: Seq<RetryRule>) -> nat
    decreases budget,
{
    if budget == 0 {
        0
    } else if classes.len() == 0 {
        1
    } else {
        match classes[0] {
            RetryRule::Never => 1,
            RetryRule::Once => 1 + spec_attempts(
                if budget >= 2 {
                    1
                } else {
                    0
                },
                classes.skip(1),
            ),
            _ => 1 + spec_attempts((budget - 1) as nat, classes.skip(1)),
        }
    }
}

/// A unit of work is attempted at least once whenever the budget allows
/// any attempt at all, and at most `budget` times, whatever its failures
/// are classified as.
pub proof fn lemma_attempts_bounded(budget: nat, classes: Seq<RetryRule>)
    ensures
        spec_attempts(budget, classes) <= budget,
        budget >= 1 ==> spec_attempts(budget, classes) >= 1,
    decreases budget,
{
    if budget >= 1 && classes.len() > 0 {
        match classes[0] {
            RetryRule::Never => {},
            RetryRule::Once => {
                lemma_attempts_bounded(
                    if budget >= 2 {
                        1nat
                    } else {
                        0nat
                    },
                    classes.skip(1),
                );
            },
            _ => {
                lemma_attempts_bounded((budget - 1) as nat, classes.skip(1));
            },
        }
    }
}

/// The bytes an optional token holds.
pub open spec fn opt_bytes_view(o: Option<Vec<u8>>) -> Option<Seq<u8>> {
    match o {
        Some(b) => Some(b@),
        None => None,
    }
}

/// Copies a byte token.
fn clone_bytes(b: &Vec<u8>) -> (r: Vec<u8>)
    ensures
        r@ == b@,
{
    b.clone()
}

} // verus!
