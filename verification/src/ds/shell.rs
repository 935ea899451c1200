//! The decision core of the store access shell.
//!
//! The shell translates model-level requests into the protocol's request
//! shapes, applies the read-consistency and commit-mode rules, decides the
//! short circuits that skip a store call altogether, and interprets the
//! replies. The transport that carries a request to the store and back is
//! outside; every choice it must follow is made here.

use vstd::prelude::*;

use crate::ds::entity::Entity;
use crate::ds::entity::Key;
use crate::ds::mutation::MutationBatch;
use crate::ds::mutation::WireMutation;
use crate::ds::query::query_to_wire;
use crate::ds::query::Query;
use crate::ds::query::WireQuery;
use crate::ds::transaction::opt_bytes_view;
use crate::ds::wire::entity_from_wire;
use crate::ds::wire::entity_decodes;
use crate::ds::wire::decoded_props;
use crate::ds::wire::key_from_wire;
use crate::ds::wire::key_of_wire;
use crate::ds::wire::key_to_wire;
use crate::ds::wire::wire_path_of;
use crate::ds::wire::WireDecodeError;
use crate::ds::wire::WireEntity;
use crate::ds::wire::WireKey;

verus! {

/// The read options of a lookup or query: inside a transaction the
/// transaction itself implies the consistency, outside one a strong read
/// is requested explicitly.
#[derive(Debug)]
pub struct WireReadOptions {
    pub read_consistency: Option<String>,
    pub transaction: Option<Vec<u8>>,
}

/// A lookup request in wire form.
#[derive(Debug)]
pub struct WireLookupRequest {
    pub database_id: Option<String>,
    pub read_options: WireReadOptions,
    pub keys: Vec<WireKey>,
}

/// A query request in wire form.
#[derive(Debug)]
pub struct WireRunQueryRequest {
    pub database_id: Option<String>,
    pub read_options: WireReadOptions,
    pub query: WireQuery,
}

/// A commit request in wire form.
#[derive(Debug)]
pub struct WireCommitRequest {
    pub database_id: Option<String>,
    pub mode: String,
    pub mutations: Vec<WireMutation>,
    pub transaction: Option<Vec<u8>>,
}

/// A begin-transaction request in wire form, hinting the previous
/// attempt's transaction when there was one.
#[derive(Debug)]
pub struct WireBeginTransactionRequest {
    pub database_id: Option<String>,
    pub previous_transaction: Option<Vec<u8>>,
}

/// A rollback request in wire form.
#[derive(Debug)]
pub struct WireRollbackRequest {
    pub database_id: Option<String>,
    pub transaction: Vec<u8>,
}

/// A key-space request (id allocation or reservation) in wire form.
#[derive(Debug)]
pub struct WireKeysRequest {
    pub database_id: Option<String>,
    pub keys: Vec<WireKey>,
}

/// Copies an optional string.
fn clone_opt_string(s: &Option<String>) -> (r: Option<String>)
    ensures
        r == *s,
{
    match s {
        Some(s) => Some(s.clone()),
        None => None,
    }
}

/// Copies an optional byte token.
fn clone_opt_bytes(b: &Option<Vec<u8>>) -> (r: Option<Vec<u8>>)
    ensures
        opt_bytes_view(r) == opt_bytes_view(*b),
        r is Some <==> *b is Some,
{
    match b {
        Some(b) => Some(b.clone()),
        None => None,
    }
}

/// Converts keys to their wire form, in order.
pub fn keys_to_wire(keys: &Vec<Key>) -> (r: Vec<WireKey>)
    ensures
        r@.len() == keys@.len(),
        forall|i: int| 0 <= i < keys@.len() ==> (#[trigger] r@[i])@ == wire_path_of(keys@[i]@),
{
    let mut out: Vec<WireKey> = Vec::new();
    let mut i: usize = 0;
    while i < keys.len()
        invariant
            i <= keys@.len(),
            out@.len() == i,
            forall|j: int|
                0 <= j < i ==> (#[trigger] out@[j])@ == wire_path_of(keys@[j]@),
        decreases keys@.len() - i,
    {
        let w = key_to_wire(&keys[i]);
        out.push(w);
        i = i + 1;
    }
    out
}

/// Decodes keys from their wire form, in order; fails when any one of
/// them is malformed.
pub fn keys_from_wire(keys: &Vec<WireKey>) -> (r: Result<Vec<Key>, WireDecodeError>)
    ensures
        match r {
            Ok(ks) => {
                &&& ks@.len() == keys@.len()
                &&& forall|i: int|
                    0 <= i < keys@.len() ==> key_of_wire(keys@[i]@) == Some(
                        (#[trigger] ks@[i])@,
                    )
            },
            Err(_) => exists|i: int|
                0 <= i < keys@.len() && key_of_wire((#[trigger] keys@[i])@) is None,
        },
{
    let mut out: Vec<Key> = Vec::new();
    let mut i: usize = 0;
    while i < keys.len()
        invariant
            i <= keys@.len(),
            out@.len() == i,
            forall|j: int|
                0 <= j < i ==> key_of_wire(keys@[j]@) == Some((#[trigger] out@[j])@),
        decreases keys@.len() - i,
    {
        match key_from_wire(&keys[i]) {
            Ok(k) => out.push(k),
            Err(e) => {
                return Err(e);
            },
        }
        i = i + 1;
    }
    Ok(out)
}

/// The pure state of a store access shell: the project and database it
/// addresses and, when one is active, the transaction its reads and
/// writes belong to.
///
/// A shell is a value: beginning a transaction yields a new shell carrying
/// the fresh token and leaves the original untouched.
#[derive(Debug)]
pub struct ShellCore {
    /// The project addressed by every request.
    pub project_id: String,
    /// The database addressed by every request, when not the default one.
    pub database_id: Option<String>,
    /// The token of the active transaction, if the shell is transactional.
    pub transaction: Option<Vec<u8>>,
}

impl ShellCore {
    /// A standalone shell with no active transaction.
    pub fn new(project_id: String, database_id: Option<String>) -> (r: Self)
        ensures
            r.project_id@ == project_id@,
            r.database_id == database_id,
            r.transaction is None,
    {
        ShellCore { project_id, database_id, transaction: None }
    }

    /// A copy of this shell carrying the given transaction token in place
    /// of its own; the original shell is unaffected.
    pub fn with_transaction(&self, token: Option<Vec<u8>>) -> (r: Self)
        ensures
            r.project_id@ == self.project_id@,
            r.database_id == self.database_id,
            r.transaction == token,
    {
        ShellCore {
            project_id: self.project_id.clone(),
            database_id: clone_opt_string(&self.database_id),
            transaction: token,
        }
    }

    /// The read options of this shell: a strong read is requested exactly
    /// when no transaction is active; inside a transaction the consistency
    /// is implied by the transaction and not requested separately.
    pub fn read_options(&self) -> (r: WireReadOptions)
        ensures
            self.transaction is None ==> (r.read_consistency matches Some(s) && s@ == "STRONG"@),
            self.transaction is Some ==> r.read_consistency is None,
            opt_bytes_view(r.transaction) == opt_bytes_view(self.transaction),
    {
        let read_consistency = match &self.transaction {
            None => Some("STRONG".to_owned()),
            Some(_) => None,
        };
        WireReadOptions { read_consistency, transaction: clone_opt_bytes(&self.transaction) }
    }

    /// The lookup request for a batch of keys.
    pub fn lookup_request(&self, keys: &Vec<Key>) -> (r: WireLookupRequest)
        ensures
            r.database_id == self.database_id,
            self.transaction is None ==> r.read_options.read_consistency is Some,
            self.transaction is Some ==> r.read_options.read_consistency is None,
            opt_bytes_view(r.read_options.transaction) == opt_bytes_view(self.transaction),
            r.keys@.len() == keys@.len(),
            forall|i: int|
                0 <= i < keys@.len() ==> (#[trigger] r.keys@[i])@ == wire_path_of(keys@[i]@),
    {
        WireLookupRequest {
            database_id: clone_opt_string(&self.database_id),
            read_options: self.read_options(),
            keys: keys_to_wire(keys),
        }
    }

    /// The query request for a query.
    pub fn run_query_request(&self, query: Query) -> (r: WireRunQueryRequest)
        ensures
            r.database_id == self.database_id,
            self.transaction is None ==> r.read_options.read_consistency is Some,
            self.transaction is Some ==> r.read_options.read_consistency is None,
            opt_bytes_view(r.read_options.transaction) == opt_bytes_view(self.transaction),
    {
        WireRunQueryRequest {
            database_id: clone_opt_string(&self.database_id),
            read_options: self.read_options(),
            query: query_to_wire(query),
        }
    }

    /// The commit request for a batch, or nothing for an empty batch: an
    /// empty commit short-circuits to an empty success reply without a
    /// store call. The mode is transactional exactly when the shell
    /// carries an active transaction.
    pub fn commit_request(&self, batch: &MutationBatch) -> (r: Option<WireCommitRequest>)
        requires
            batch.wf(),
        ensures
            batch@.len() == 0 <==> r is None,
            match r {
                Some(req) => {
                    &&& req.database_id == self.database_id
                    &&& (self.transaction is Some ==> req.mode@ == "TRANSACTIONAL"@)
                    &&& (self.transaction is None ==> req.mode@ == "NON_TRANSACTIONAL"@)
                    &&& opt_bytes_view(req.transaction) == opt_bytes_view(self.transaction)
                    &&& req.mutations@.len() == batch@.len()
                    &&& forall|i: int|
                        0 <= i < batch@.len() ==> (#[trigger] req.mutations@[i])@
                            == crate::ds::mutation::wire_of_mutation(batch@[i])
                },
                None => true,
            },
    {
        if batch.len() == 0 {
            return None;
        }
        let mode = match &self.transaction {
            Some(_) => "TRANSACTIONAL",
            None => "NON_TRANSACTIONAL",
        };
        Some(
            WireCommitRequest {
                database_id: clone_opt_string(&self.database_id),
                mode: mode.to_owned(),
                mutations: batch.to_wire(),
                transaction: clone_opt_bytes(&self.transaction),
            },
        )
    }

    /// The begin-transaction request, hinting the previous attempt's
    /// token when there was one.
    pub fn begin_transaction_request(&self, previous: &Option<Vec<u8>>) -> (r:
        WireBeginTransactionRequest)
        ensures
            r.database_id == self.database_id,
            opt_bytes_view(r.previous_transaction) == opt_bytes_view(*previous),
    {
        WireBeginTransactionRequest {
            database_id: clone_opt_string(&self.database_id),
            previous_transaction: clone_opt_bytes(previous),
        }
    }

    /// The rollback request for the given token, or for the shell's own
    /// transaction when none is given — or nothing at all when there is no
    /// token to roll back, in which case the rollback succeeds without a
    /// store call.
    pub fn rollback_request(&self, transaction: &Option<Vec<u8>>) -> (r: Option<
        WireRollbackRequest,
    >)
        ensures
            match r {
                Some(req) => {
                    &&& req.database_id == self.database_id
                    &&& (transaction matches Some(t) ==> req.transaction@ == t@)
                    &&& (transaction is None ==> (self.transaction matches Some(t)
                        && req.transaction@ == t@))
                },
                None => transaction is None && self.transaction is None,
            },
    {
        let token = match transaction {
            Some(t) => Some(t.clone()),
            None => match &self.transaction {
                Some(t) => Some(t.clone()),
                None => None,
            },
        };
        match token {
            Some(t) => Some(
                WireRollbackRequest {
                    database_id: clone_opt_string(&self.database_id),
                    transaction: t,
                },
            ),
            None => None,
        }
    }

    /// The id-allocation or id-reservation request for a batch of keys, or
    /// nothing for an empty batch: an empty key-space operation
    /// short-circuits to success without a store call.
    pub fn keys_request(&self, keys: &Vec<Key>) -> (r: Option<WireKeysRequest>)
        ensures
            keys@.len() == 0 <==> r is None,
            match r {
                Some(req) => {
                    &&& req.database_id == self.database_id
                    &&& req.keys@.len() == keys@.len()
                    &&& forall|i: int|
                        0 <= i < keys@.len() ==> (#[trigger] req.keys@[i])@ == wire_path_of(
                            keys@[i]@,
                        )
                },
                None => true,
            },
    {
        if keys.len() == 0 {
            return None;
        }
        Some(
            WireKeysRequest {
                database_id: clone_opt_string(&self.database_id),
                keys: keys_to_wire(keys),
            },
        )
    }
}

/// Interprets the reply to a single-key lookup: the first found entity,
/// decoded, or nothing — absence is not an error at this layer.
pub fn single_found_entity(found: Vec<WireEntity>) -> (r: Result<Option<Entity>, WireDecodeError>)
    requires
        forall|i: int| 0 <= i < found@.len() ==> (#[trigger] found@[i]).wf(),
    ensures
        match r {
            Ok(e) => {
                &&& found@.len() == 0 <==> e is None
                &&& (found@.len() > 0 ==> {
                    &&& entity_decodes(found@[0]@)
                    &&& e matches Some(ent) && ent@.key == key_of_wire(
                        found@[0]@.key->Some_0,
                    )->Some_0 && ent@.props == decoded_props(found@[0]@.props) && ent.wf()
                })
            },
            Err(_) => found@.len() > 0 && !entity_decodes(found@[0]@),
        },
{
    if found.len() == 0 {
        return Ok(None);
    }
    match entity_from_wire(&found[0]) {
        Ok(e) => Ok(Some(e)),
        Err(err) => Err(err),
    }
}

/// Absorbs one page of a batch lookup into the accumulated result and
/// decides whether the lookup must go on: entities found are decoded and
/// appended, and a non-empty deferred set means the lookup is re-issued
/// for exactly those keys until none remain outstanding.
pub fn absorb_lookup_page(
    acc: &mut Vec<Entity>,
    found: Vec<WireEntity>,
    deferred: Vec<WireKey>,
) -> (r: Result<Option<Vec<WireKey>>, WireDecodeError>)
    requires
        forall|i: int| 0 <= i < found@.len() ==> (#[trigger] found@[i]).wf(),
    ensures
        match r {
            Ok(next) => {
                &&& final(acc)@.len() == old(acc)@.len() + found@.len()
                &&& forall|i: int|
                    0 <= i < old(acc)@.len() ==> (#[trigger] final(acc)@[i]) == old(acc)@[i]
                &&& forall|i: int|
                    0 <= i < found@.len() ==> {
                        &&& entity_decodes((#[trigger] found@[i])@)
                        &&& final(acc)@[old(acc)@.len() + i]@.key == key_of_wire(
                            found@[i]@.key->Some_0,
                        )->Some_0
                        &&& final(acc)@[old(acc)@.len() + i]@.props == decoded_props(
                            found@[i]@.props,
                        )
                    }
                &&& (next is None <==> deferred@.len() == 0)
                &&& (next matches Some(ks) ==> ks == deferred)
            },
            Err(_) => {
                &&& *final(acc) == *old(acc)
                &&& exists|i: int|
                    0 <= i < found@.len() && !entity_decodes((#[trigger] found@[i])@)
            },
        },
{
    let mut page: Vec<Entity> = Vec::new();
    let mut i: usize = 0;
    while i < found.len()
        invariant
            forall|k: int| 0 <= k < found@.len() ==> (#[trigger] found@[k]).wf(),
            i <= found@.len(),
            page@.len() == i,
            forall|j: int|
                0 <= j < i ==> entity_decodes((#[trigger] found@[j])@) && page@[j]@.key
                    == key_of_wire(found@[j]@.key->Some_0)->Some_0 && page@[j]@.props
                    == decoded_props(found@[j]@.props),
        decreases found@.len() - i,
    {
        match entity_from_wire(&found[i]) {
            Ok(e) => page.push(e),
            Err(err) => {
                return Err(err);
            },
        }
        i = i + 1;
    }
    let mut page = page;
    acc.append(&mut page);
    if deferred.len() == 0 {
        Ok(None)
    } else {
        Ok(Some(deferred))
    }
}

} // verus!
