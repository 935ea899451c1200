//! Mutations, mutation batches, and the interpretation of commit replies.

use vstd::prelude::*;

use crate::ds::entity::Entity;
use crate::ds::entity::EntityView;
use crate::ds::entity::Key;
use crate::ds::entity::PathElemView;
use crate::ds::wire::key_from_wire;
use crate::ds::wire::key_of_wire;
use crate::ds::wire::wire_of_entity;
use crate::ds::wire::entity_to_wire;
use crate::ds::wire::WireDecodeError;
use crate::ds::wire::WireEntity;
use crate::ds::wire::WireEntityView;
use crate::ds::wire::WireKey;
use crate::ds::wire::WirePathElemView;

verus! {

/// The mathematical shape of a [`Mutation`].
pub enum MutationView {
    Insert(EntityView),
    Delete(Seq<PathElemView>),
    Update(EntityView),
    Upsert(EntityView),
}

/// A single change to apply to the store.
///
/// An insert fails when an entity with the key already exists; an update
/// fails when none does; an upsert never fails on existence; a delete is
/// idempotent and succeeds whether or not the key exists.
#[derive(Debug)]
pub enum Mutation {
    /// Writes a new entity; fails if its key already exists.
    Insert(Entity),
    /// Removes the entity of the key; a no-op if it is absent.
    Delete(Key),
    /// Replaces an existing entity; fails if its key does not exist.
    Update(Entity),
    /// Writes an entity whether or not its key exists.
    Upsert(Entity),
}

impl View for Mutation {
    type V = MutationView;

    open spec fn view(&self) -> MutationView {
        match self {
            Mutation::Insert(e) => MutationView::Insert(e@),
            Mutation::Delete(k) => MutationView::Delete(k@),
            Mutation::Update(e) => MutationView::Update(e@),
            Mutation::Upsert(e) => MutationView::Upsert(e@),
        }
    }
}

impl Mutation {
    /// The mutation's internal consistency: the entity it carries, if any,
    /// is well formed.
    pub open spec fn wf(&self) -> bool {
        match self {
            Mutation::Insert(e) => e.wf(),
            Mutation::Delete(_) => true,
            Mutation::Update(e) => e.wf(),
            Mutation::Upsert(e) => e.wf(),
        }
    }
}

/// The mathematical shape of a [`WireMutation`].
pub enum WireMutationView {
    Insert(WireEntityView),
    Delete(Seq<WirePathElemView>),
    Update(WireEntityView),
    Upsert(WireEntityView),
}

/// A mutation in wire form; exactly one operation is carried.
#[derive(Debug)]
pub enum WireMutation {
    Insert(WireEntity),
    Delete(WireKey),
    Update(WireEntity),
    Upsert(WireEntity),
}

impl View for WireMutation {
    type V = WireMutationView;

    open spec fn view(&self) -> WireMutationView {
        match self {
            WireMutation::Insert(e) => WireMutationView::Insert(e@),
            WireMutation::Delete(k) => WireMutationView::Delete(k@),
            WireMutation::Update(e) => WireMutationView::Update(e@),
            WireMutation::Upsert(e) => WireMutationView::Upsert(e@),
        }
    }
}

/// The wire form of a mutation.
pub open spec fn wire_of_mutation(m: MutationView) -> WireMutationView {
    match m {
        MutationView::Insert(e) => WireMutationView::Insert(wire_of_entity(e)),
        MutationView::Delete(k) => WireMutationView::Delete(crate::ds::wire::wire_path_of(k)),
        MutationView::Update(e) => WireMutationView::Update(wire_of_entity(e)),
        MutationView::Upsert(e) => WireMutationView::Upsert(wire_of_entity(e)),
    }
}

/// Encodes a mutation in wire form.
pub fn mutation_to_wire(m: &Mutation) -> (r: WireMutation)
    requires
        m.wf(),
    ensures
        r@ == wire_of_mutation(m@),
{
    match m {
        Mutation::Insert(e) => WireMutation::Insert(entity_to_wire(e)),
        Mutation::Delete(k) => WireMutation::Delete(crate::ds::wire::key_to_wire(k)),
        Mutation::Update(e) => WireMutation::Update(entity_to_wire(e)),
        Mutation::Upsert(e) => WireMutation::Upsert(entity_to_wire(e)),
    }
}

/// An ordered batch of mutations; the per-mutation results of a commit
/// correspond one to one, in order, to the mutations of the batch.
#[derive(Debug)]
pub struct MutationBatch {
    /// The mutations, in the order they were added.
    pub mutations: Vec<Mutation>,
}

impl View for MutationBatch {
    type V = Seq<MutationView>;

    open spec fn view(&self) -> Seq<MutationView> {
        self.mutations@.map_values(|m: Mutation| m@)
    }
}

impl MutationBatch {
    /// The batch's internal consistency: every mutation is well formed.
    pub open spec fn wf(&self) -> bool {
        forall|i: int| 0 <= i < self.mutations@.len() ==> (#[trigger] self.mutations@[i]).wf()
    }

    /// Creates an empty batch.
    pub fn new() -> (r: Self)
        ensures
            r@ == Seq::<MutationView>::empty(),
            r.wf(),
    {
        let r = MutationBatch { mutations: Vec::new() };
        proof {
            assert(r@ =~= Seq::<MutationView>::empty());
        }
        r
    }

    /// Consumes the batch and returns it with the mutation appended.
    pub fn add(self, mutation: Mutation) -> (r: Self)
        ensures
            r@ == self@.push(mutation@),
            self.wf() && mutation.wf() ==> r.wf(),
    {
        let ghost pre = self;
        let mut mutations = self.mutations;
        mutations.push(mutation);
        let r = MutationBatch { mutations };
        proof {
            assert(r@ =~= pre@.push(mutation@));
            if pre.wf() && mutation.wf() {
                assert forall|i: int| 0 <= i < r.mutations@.len() implies (
                #[trigger] r.mutations@[i]).wf() by {
                    if i < pre.mutations@.len() {
                        assert(r.mutations@[i] == pre.mutations@[i]);
                    }
                }
            }
        }
        r
    }

    /// Consumes the batch and returns it with all the given mutations
    /// appended, in order.
    pub fn add_all(self, new_mutations: Vec<Mutation>) -> (r: Self)
        ensures
            r@ == self@ + new_mutations@.map_values(|m: Mutation| m@),
            self.wf() && (forall|i: int|
                0 <= i < new_mutations@.len() ==> (#[trigger] new_mutations@[i]).wf()) ==> r.wf(),
    {
        let ghost pre = self;
        let ghost added = new_mutations@;
        let mut mutations = self.mutations;
        let mut new_mutations = new_mutations;
        mutations.append(&mut new_mutations);
        let r = MutationBatch { mutations };
        proof {
            assert(r@ =~= pre@ + added.map_values(|m: Mutation| m@));
            if pre.wf() && (forall|i: int| 0 <= i < added.len() ==> (#[trigger] added[i]).wf()) {
                assert forall|i: int| 0 <= i < r.mutations@.len() implies (
                #[trigger] r.mutations@[i]).wf() by {
                    if i < pre.mutations@.len() {
                        assert(r.mutations@[i] == pre.mutations@[i]);
                    } else {
                        assert(r.mutations@[i] == added[i - pre.mutations@.len()]);
                    }
                }
            }
        }
        r
    }

    /// Appends an insert of the entity.
    pub fn insert(self, e: Entity) -> (r: Self)
        ensures
            r@ == self@.push(MutationView::Insert(e@)),
            self.wf() && e.wf() ==> r.wf(),
    {
        self.add(Mutation::Insert(e))
    }

    /// Appends an update of the entity.
    pub fn update(self, e: Entity) -> (r: Self)
        ensures
            r@ == self@.push(MutationView::Update(e@)),
            self.wf() && e.wf() ==> r.wf(),
    {
        self.add(Mutation::Update(e))
    }

    /// Appends an upsert of the entity.
    pub fn upsert(self, e: Entity) -> (r: Self)
        ensures
            r@ == self@.push(MutationView::Upsert(e@)),
            self.wf() && e.wf() ==> r.wf(),
    {
        self.add(Mutation::Upsert(e))
    }

    /// Appends a delete of the key.
    pub fn delete(self, key: Key) -> (r: Self)
        ensures
            r@ == self@.push(MutationView::Delete(key@)),
            self.wf() ==> r.wf(),
    {
        self.add(Mutation::Delete(key))
    }

    /// Appends an insert of every entity, in order.
    pub fn insert_all(self, entities: Vec<Entity>) -> (r: Self)
        ensures
            r@ == self@ + entities@.map_values(|e: Entity| MutationView::Insert(e@)),
            self.wf() && (forall|i: int|
                0 <= i < entities@.len() ==> (#[trigger] entities@[i]).wf()) ==> r.wf(),
    {
        let mut wrapped: Vec<Mutation> = Vec::new();
        let mut entities = entities;
        let ghost orig = entities@;
        while entities.len() > 0
            invariant
                wrapped@.len() + entities@.len() == orig.len(),
                entities@ == orig.subrange(wrapped@.len() as int, orig.len() as int),
                forall|j: int|
                    0 <= j < wrapped@.len() ==> (#[trigger] wrapped@[j]) == Mutation::Insert(
                        orig[j],
                    ),
            decreases entities@.len(),
        {
            let e = entities.remove(0);
            wrapped.push(Mutation::Insert(e));
            proof {
                assert(entities@ =~= orig.subrange(wrapped@.len() as int, orig.len() as int));
            }
        }
        let r = self.add_all(wrapped);
        proof {
            assert(r@ =~= self@ + orig.map_values(|e: Entity| MutationView::Insert(e@)));
        }
        r
    }

    /// Appends an update of every entity, in order.
    pub fn update_all(self, entities: Vec<Entity>) -> (r: Self)
        ensures
            r@ == self@ + entities@.map_values(|e: Entity| MutationView::Update(e@)),
            self.wf() && (forall|i: int|
                0 <= i < entities@.len() ==> (#[trigger] entities@[i]).wf()) ==> r.wf(),
    {
        let mut wrapped: Vec<Mutation> = Vec::new();
        let mut entities = entities;
        let ghost orig = entities@;
        while entities.len() > 0
            invariant
                wrapped@.len() + entities@.len() == orig.len(),
                entities@ == orig.subrange(wrapped@.len() as int, orig.len() as int),
                forall|j: int|
                    0 <= j < wrapped@.len() ==> (#[trigger] wrapped@[j]) == Mutation::Update(
                        orig[j],
                    ),
            decreases entities@.len(),
        {
            let e = entities.remove(0);
            wrapped.push(Mutation::Update(e));
            proof {
                assert(entities@ =~= orig.subrange(wrapped@.len() as int, orig.len() as int));
            }
        }
        let r = self.add_all(wrapped);
        proof {
            assert(r@ =~= self@ + orig.map_values(|e: Entity| MutationView::Update(e@)));
        }
        r
    }

    /// Appends an upsert of every entity, in order.
    pub fn upsert_all(self, entities: Vec<Entity>) -> (r: Self)
        ensures
            r@ == self@ + entities@.map_values(|e: Entity| MutationView::Upsert(e@)),
            self.wf() && (forall|i: int|
                0 <= i < entities@.len() ==> (#[trigger] entities@[i]).wf()) ==> r.wf(),
    {
        let mut wrapped: Vec<Mutation> = Vec::new();
        let mut entities = entities;
        let ghost orig = entities@;
        while entities.len() > 0
            invariant
                wrapped@.len() + entities@.len() == orig.len(),
                entities@ == orig.subrange(wrapped@.len() as int, orig.len() as int),
                forall|j: int|
                    0 <= j < wrapped@.len() ==> (#[trigger] wrapped@[j]) == Mutation::Upsert(
                        orig[j],
                    ),
            decreases entities@.len(),
        {
            let e = entities.remove(0);
            wrapped.push(Mutation::Upsert(e));
            proof {
                assert(entities@ =~= orig.subrange(wrapped@.len() as int, orig.len() as int));
            }
        }
        let r = self.add_all(wrapped);
        proof {
            assert(r@ =~= self@ + orig.map_values(|e: Entity| MutationView::Upsert(e@)));
        }
        r
    }

    /// Appends a delete of every key, in order.
    pub fn delete_all(self, keys: Vec<Key>) -> (r: Self)
        ensures
            r@ == self@ + keys@.map_values(|k: Key| MutationView::Delete(k@)),
            self.wf() ==> r.wf(),
    {
        let mut wrapped: Vec<Mutation> = Vec::new();
        let mut keys = keys;
        let ghost orig = keys@;
        while keys.len() > 0
            invariant
                wrapped@.len() + keys@.len() == orig.len(),
                keys@ == orig.subrange(wrapped@.len() as int, orig.len() as int),
                forall|j: int|
                    0 <= j < wrapped@.len() ==> (#[trigger] wrapped@[j]) == Mutation::Delete(
                        orig[j],
                    ),
            decreases keys@.len(),
        {
            let k = keys.remove(0);
            wrapped.push(Mutation::Delete(k));
            proof {
                assert(keys@ =~= orig.subrange(wrapped@.len() as int, orig.len() as int));
            }
        }
        let r = self.add_all(wrapped);
        proof {
            assert(r@ =~= self@ + orig.map_values(|k: Key| MutationView::Delete(k@)));
        }
        r
    }

    /// Encodes the batch in wire form, in order.
    pub fn to_wire(&self) -> (r: Vec<WireMutation>)
        requires
            self.wf(),
        ensures
            r@.len() == self@.len(),
            forall|i: int|
                0 <= i < self@.len() ==> (#[trigger] r@[i])@ == wire_of_mutation(self@[i]),
    {
        let mut out: Vec<WireMutation> = Vec::new();
        let mut i: usize = 0;
        while i < self.mutations.len()
            invariant
                i <= self.mutations@.len(),
                self.wf(),
                out@.len() == i,
                forall|j: int|
                    0 <= j < i ==> (#[trigger] out@[j])@ == wire_of_mutation(
                        self.mutations@[j]@,
                    ),
            decreases self.mutations@.len() - i,
        {
            let w = mutation_to_wire(&self.mutations[i]);
            out.push(w);
            i = i + 1;
        }
        out
    }

    /// The number of mutations in the batch.
    pub fn len(&self) -> (r: usize)
        ensures
            r == self@.len(),
    {
        self.mutations.len()
    }
}

/// The result of applying one mutation, as reported by a commit reply.
#[derive(Debug)]
pub struct MutationResult {
    /// The key the store allocated, set only when the mutation completed an
    /// incomplete key.
    pub key: Option<Key>,
    /// The version of the entity on the server after the mutation.
    pub version: i64,
    /// The creation time of the entity, as the store reported it; absent
    /// after a delete.
    pub create_time: Option<String>,
    /// The update time of the entity, as the store reported it; absent
    /// after a delete.
    pub update_time: Option<String>,
}

/// The interpretation of a commit reply: per-mutation results in the order
/// of the batch, the number of index entries touched, and the commit time.
#[derive(Debug)]
pub struct MutationResponse {
    /// The per-mutation results; the i-th result corresponds to the i-th
    /// mutation of the committed batch.
    pub mutation_results: Vec<MutationResult>,
    /// The number of index entries updated during the commit.
    pub index_updates: i32,
    /// The time of the commit, as the store reported it.
    pub commit_time: Option<String>,
}

impl MutationResponse {
    /// The reply an empty commit short-circuits to, without a store call.
    pub fn empty() -> (r: Self)
        ensures
            r.mutation_results@.len() == 0,
            r.index_updates == 0,
            r.commit_time is None,
    {
        MutationResponse { mutation_results: Vec::new(), index_updates: 0, commit_time: None }
    }
}

/// One per-mutation result in wire form.
#[derive(Debug)]
pub struct WireMutationResult {
    pub key: Option<WireKey>,
    pub version: Option<i64>,
    pub create_time: Option<String>,
    pub update_time: Option<String>,
}

/// A commit reply in wire form.
#[derive(Debug)]
pub struct WireCommitResponse {
    pub mutation_results: Vec<WireMutationResult>,
    pub index_updates: Option<i32>,
    pub commit_time: Option<String>,
}

/// Decodes one per-mutation result: an absent version reads as zero, and an
/// allocated key must decode.
pub fn mutation_result_from_wire(w: WireMutationResult) -> (r: Result<
    MutationResult,
    WireDecodeError,
>)
    ensures
        match r {
            Ok(res) => {
                &&& match (w.key, res.key) {
                    (Some(wk), Some(k)) => key_of_wire(wk@) == Some(k@),
                    (None, None) => true,
                    _ => false,
                }
                &&& res.version == (match w.version {
                    Some(v) => v,
                    None => 0i64,
                })
                &&& res.create_time == w.create_time
                &&& res.update_time == w.update_time
            },
            Err(_) => w.key matches Some(wk) && key_of_wire(wk@) is None,
        },
{
    let key = match &w.key {
        Some(wk) => match key_from_wire(wk) {
            Ok(k) => Some(k),
            Err(e) => {
                return Err(e);
            },
        },
        None => None,
    };
    let version = match w.version {
        Some(v) => v,
        None => 0,
    };
    Ok(
        MutationResult {
            key,
            version,
            create_time: w.create_time,
            update_time: w.update_time,
        },
    )
}

/// Whether one per-mutation wire result decodes: its allocated key, when
/// there is one, must be a well-formed wire key.
pub open spec fn mutation_result_decodes(w: WireMutationResult) -> bool {
    match w.key {
        Some(wk) => key_of_wire(wk@) is Some,
        None => true,
    }
}

/// What decoding one per-mutation wire result yields.
pub open spec fn mutation_result_read_ok(w: WireMutationResult, res: MutationResult) -> bool {
    &&& match (w.key, res.key) {
        (Some(wk), Some(k)) => key_of_wire(wk@) == Some(k@),
        (None, None) => true,
        _ => false,
    }
    &&& res.version == (match w.version {
        Some(v) => v,
        None => 0i64,
    })
    &&& res.create_time == w.create_time
    &&& res.update_time == w.update_time
}

/// Decodes a commit reply: per-mutation results keep their order, absent
/// counters read as zero, and every allocated key must decode.
#[verifier::loop_isolation(false)]
pub fn mutation_response_from_wire(w: WireCommitResponse) -> (r: Result<
    MutationResponse,
    WireDecodeError,
>)
    ensures
        r is Ok <==> (forall|i: int|
            0 <= i < w.mutation_results@.len() ==> mutation_result_decodes(
                #[trigger] w.mutation_results@[i],
            )),
        match r {
            Ok(res) => {
                &&& res.mutation_results@.len() == w.mutation_results@.len()
                &&& forall|i: int|
                    0 <= i < w.mutation_results@.len() ==> mutation_result_read_ok(
                        w.mutation_results@[i],
                        #[trigger] res.mutation_results@[i],
                    )
                &&& res.index_updates == (match w.index_updates {
                    Some(n) => n,
                    None => 0i32,
                })
                &&& res.commit_time == w.commit_time
            },
            Err(_) => true,
        },
{
    let WireCommitResponse { mutation_results, index_updates, commit_time } = w;
    let mut results: Vec<MutationResult> = Vec::new();
    let mut rest = mutation_results;
    let ghost orig = rest@;
    while rest.len() > 0
        invariant
            results@.len() + rest@.len() == orig.len(),
            rest@ == orig.subrange(results@.len() as int, orig.len() as int),
            forall|j: int| 0 <= j < results@.len() ==> mutation_result_decodes(#[trigger] orig[j]),
            forall|j: int|
                0 <= j < results@.len() ==> mutation_result_read_ok(
                    orig[j],
                    #[trigger] results@[j],
                ),
        decreases rest@.len(),
    {
        let wr = rest.remove(0);
        proof {
            assert(wr == orig[results@.len() as int]);
        }
        match mutation_result_from_wire(wr) {
            Ok(res) => {
                proof {
                    assert(mutation_result_decodes(wr)) by {
                        match (wr.key, res.key) {
                            (Some(_), Some(_)) => {},
                            (None, None) => {},
                            _ => {
                                assert(false);
                            },
                        }
                    }
                    assert(mutation_result_read_ok(wr, res));
                }
                results.push(res);
                proof {
                    assert(rest@ =~= orig.subrange(results@.len() as int, orig.len() as int));
                }
            },
            Err(e) => {
                return Err(e);
            },
        }
    }
    let index_updates = match index_updates {
        Some(n) => n,
        None => 0,
    };
    Ok(MutationResponse { mutation_results: results, index_updates, commit_time })
}

} // verus!
