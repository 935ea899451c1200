//! A reference model of the store's mutation and lookup semantics: a
//! mapping from complete key paths to entities.
//!
//! The remote store itself is an external collaborator; this model states
//! what the mutation types mean — an insert fails on an existing key, an
//! update fails on a missing one, an upsert never fails on existence, a
//! delete is idempotent — and what a batch lookup returns, and lets the
//! rest of the library and its tests be held to those meanings without a
//! server.

use vstd::prelude::*;

use crate::ds::entity::key_eq;
use crate::ds::entity::Entity;
use crate::ds::entity::EntityView;
use crate::ds::entity::Key;
use crate::ds::entity::PathElemView;
use crate::ds::mutation::Mutation;
use crate::ds::mutation::MutationBatch;
use crate::ds::mutation::MutationView;

verus! {

/// The mapping a list of stored entities denotes, keyed by key path; a
/// later entry wins.
pub open spec fn store_map(s: Seq<Entity>) -> Map<Seq<PathElemView>, EntityView>
    decreases s.len(),
{
    if s.len() == 0 {
        Map::<Seq<PathElemView>, EntityView>::empty()
    } else {
        store_map(s.drop_last()).insert(s.last()@.key, s.last()@)
    }
}

/// True when no two stored entities share a key path.
pub open spec fn store_unique(s: Seq<Entity>) -> bool {
    forall|i: int, j: int|
        #![trigger s[i], s[j]]
        0 <= i < j < s.len() ==> s[i]@.key != s[j]@.key
}

/// How lookup in the denoted mapping relates to the entries of a store
/// with unique keys.
pub proof fn lemma_store_map_get(s: Seq<Entity>, k: Seq<PathElemView>)
    requires
        store_unique(s),
    ensures
        store_map(s).contains_key(k) <==> (exists|i: int|
            0 <= i < s.len() && (#[trigger] s[i])@.key == k),
        forall|i: int| 0 <= i < s.len() && (#[trigger] s[i])@.key == k ==> store_map(s)[k] == s[i]@,
    decreases s.len(),
{
    if s.len() > 0 {
        assert(store_unique(s.drop_last()));
        lemma_store_map_get(s.drop_last(), k);
        assert(forall|i: int| 0 <= i < s.len() - 1 ==> (#[trigger] s[i]) == s.drop_last()[i]);
        if s.last()@.key == k {
            assert(s[s.len() - 1]@.key == k);
        } else {
            if exists|i: int| 0 <= i < s.len() && (#[trigger] s[i])@.key == k {
                let i = choose|i: int| 0 <= i < s.len() && (#[trigger] s[i])@.key == k;
                assert(i < s.len() - 1);
                assert(s.drop_last()[i]@.key == k);
            }
        }
    }
}

/// Appending an entity with a fresh key inserts it into the denoted
/// mapping.
pub proof fn lemma_store_map_push(s: Seq<Entity>, e: Entity)
    ensures
        store_map(s.push(e)) == store_map(s).insert(e@.key, e@),
        store_unique(s) && (forall|i: int|
            0 <= i < s.len() ==> (#[trigger] s[i])@.key != e@.key) ==> store_unique(s.push(e)),
{
    assert(s.push(e).drop_last() =~= s);
    assert(s.push(e).last() == e);
    if store_unique(s) && (forall|i: int| 0 <= i < s.len() ==> (#[trigger] s[i])@.key != e@.key) {
        assert forall|i: int, j: int|
            0 <= i < j < s.push(e).len() implies (#[trigger] s.push(e)[i])@.key != (
        #[trigger] s.push(e)[j])@.key by {
            if j < s.len() {
                assert(s.push(e)[i] == s[i] && s.push(e)[j] == s[j]);
            } else {
                assert(s.push(e)[i] == s[i] && s.push(e)[j] == e);
            }
        }
    }
}

/// Overwriting the entity that holds a key updates the denoted mapping at
/// that key.
pub proof fn lemma_store_map_update(s: Seq<Entity>, i: int, e: Entity)
    requires
        store_unique(s),
        0 <= i < s.len(),
        s[i]@.key == e@.key,
    ensures
        store_map(s.update(i, e)) == store_map(s).insert(e@.key, e@),
        store_unique(s.update(i, e)),
    decreases s.len(),
{
    let t = s.update(i, e);
    assert forall|a: int, b: int| 0 <= a < b < t.len() implies (#[trigger] t[a])@.key != (
    #[trigger] t[b])@.key by {
        assert(s[a]@.key != s[b]@.key);
    }
    if i == s.len() - 1 {
        assert(t.drop_last() =~= s.drop_last());
        assert(t.last() == e);
        assert(store_map(s).insert(e@.key, e@) =~= store_map(s.drop_last()).insert(e@.key, e@));
    } else {
        assert(t.drop_last() =~= s.drop_last().update(i, e));
        assert(t.last() == s.last());
        assert(store_unique(s.drop_last()));
        assert(s.drop_last()[i] == s[i]);
        lemma_store_map_update(s.drop_last(), i, e);
        assert(s.last()@.key != e@.key);
        assert(store_map(t) == store_map(s.drop_last()).insert(e@.key, e@).insert(
            s.last()@.key,
            s.last()@,
        ));
        assert(store_map(s).insert(e@.key, e@) =~= store_map(s.drop_last()).insert(
            e@.key,
            e@,
        ).insert(s.last()@.key, s.last()@));
    }
}

/// Removing the entity that holds a key removes that key from the denoted
/// mapping.
pub proof fn lemma_store_map_remove(s: Seq<Entity>, i: int)
    requires
        store_unique(s),
        0 <= i < s.len(),
    ensures
        store_map(s.remove(i)) == store_map(s).remove(s[i]@.key),
        store_unique(s.remove(i)),
    decreases s.len(),
{
    let t = s.remove(i);
    assert forall|a: int, b: int| 0 <= a < b < t.len() implies (#[trigger] t[a])@.key != (
    #[trigger] t[b])@.key by {
        let a2: int = if a < i {
            a
        } else {
            a + 1
        };
        let b2: int = if b < i {
            b
        } else {
            b + 1
        };
        assert(t[a] == s[a2] && t[b] == s[b2]);
        assert(s[a2]@.key != s[b2]@.key);
    }
    if i == s.len() - 1 {
        assert(t =~= s.drop_last());
        lemma_store_map_get(s.drop_last(), s[i]@.key);
        assert(forall|j: int| 0 <= j < s.len() - 1 ==> (#[trigger] s[j]) == s.drop_last()[j]);
        assert(!store_map(s.drop_last()).contains_key(s[i]@.key));
        assert(store_map(t) =~= store_map(s).remove(s[i]@.key));
    } else {
        assert(t.drop_last() =~= s.drop_last().remove(i));
        assert(t.last() == s.last());
        assert(store_unique(s.drop_last()));
        lemma_store_map_remove(s.drop_last(), i);
        assert(s.drop_last()[i] == s[i]);
        assert(s.last()@.key != s[i]@.key);
        assert(store_map(t) == store_map(s.drop_last()).remove(s[i]@.key).insert(
            s.last()@.key,
            s.last()@,
        ));
        assert(store_map(s).remove(s[i]@.key) =~= store_map(s.drop_last()).remove(
            s[i]@.key,
        ).insert(s.last()@.key, s.last()@));
    }
}

/// Why a mutation was rejected by the store.
#[derive(Debug, Clone, Copy, PartialEq, Eq, Structural)]
pub enum ApplyError {
    /// An insert found an entity already stored under its key.
    AlreadyExists,
    /// An update found no entity stored under its key.
    NotFound,
}

/// What a mutation does to the stored mapping: an insert is defined only
/// on a fresh key, an update only on an existing one, an upsert always
/// writes, and a delete always removes — a no-op when the key is absent.
pub open spec fn spec_apply(
    m: Map<Seq<PathElemView>, EntityView>,
    mu: MutationView,
) -> Option<Map<Seq<PathElemView>, EntityView>> {
    match mu {
        MutationView::Insert(e) => if m.contains_key(e.key) {
            None
        } else {
            Some(m.insert(e.key, e))
        },
        MutationView::Update(e) => if m.contains_key(e.key) {
            Some(m.insert(e.key, e))
        } else {
            None
        },
        MutationView::Upsert(e) => Some(m.insert(e.key, e)),
        MutationView::Delete(k) => Some(m.remove(k)),
    }
}

/// What a whole batch does to the stored mapping, applying its mutations
/// in order; the batch is atomic, so one undefined step leaves the whole
/// batch undefined.
pub open spec fn spec_apply_all(
    m: Map<Seq<PathElemView>, EntityView>,
    mus: Seq<MutationView>,
) -> Option<Map<Seq<PathElemView>, EntityView>>
    decreases mus.len(),
{
    if mus.len() == 0 {
        Some(m)
    } else {
        match spec_apply_all(m, mus.drop_last()) {
            Some(mi) => spec_apply(mi, mus.last()),
            None => None,
        }
    }
}

/// A delete of a key that is not stored succeeds and changes nothing.
pub proof fn lemma_delete_missing_is_noop(m: Map<Seq<PathElemView>, EntityView>, k: Seq<
    PathElemView,
>)
    requires
        !m.contains_key(k),
    ensures
        spec_apply(m, MutationView::Delete(k)) == Some(m),
{
    assert(m.remove(k) =~= m);
}

/// Upserting the same key twice leaves the second entity as the final
/// state, whatever was stored before.
pub proof fn lemma_upsert_twice(
    m: Map<Seq<PathElemView>, EntityView>,
    e1: EntityView,
    e2: EntityView,
)
    requires
        e1.key == e2.key,
    ensures
        spec_apply(m, MutationView::Upsert(e1)) matches Some(m1) && spec_apply(
            m1,
            MutationView::Upsert(e2),
        ) == Some(m.insert(e2.key, e2)),
{
    let m1 = spec_apply(m, MutationView::Upsert(e1))->Some_0;
    assert(m1.insert(e2.key, e2) =~= m.insert(e2.key, e2));
}

/// An in-memory store holding one entity per complete key path.
#[derive(Debug)]
pub struct MemoryStore {
    entities: Vec<Entity>,
}

impl View for MemoryStore {
    type V = Map<Seq<PathElemView>, EntityView>;

    closed spec fn view(&self) -> Map<Seq<PathElemView>, EntityView> {
        store_map(self.entities@)
    }
}

impl MemoryStore {
    /// The store's internal consistency: stored entities are well formed
    /// and no two share a key.
    pub closed spec fn wf(&self) -> bool {
        &&& store_unique(self.entities@)
        &&& forall|i: int| 0 <= i < self.entities@.len() ==> (#[trigger] self.entities@[i]).wf()
    }

    /// Creates an empty store.
    pub fn new() -> (r: Self)
        ensures
            r.wf(),
            r@ == Map::<Seq<PathElemView>, EntityView>::empty(),
    {
        MemoryStore { entities: Vec::new() }
    }

    /// The entity stored under the key, if any; absence is not an error.
    pub fn lookup(&self, key: &Key) -> (r: Option<&Entity>)
        requires
            self.wf(),
        ensures
            match r {
                Some(e) => self@.contains_key(key@) && e@ == self@[key@] && e.wf(),
                None => !self@.contains_key(key@),
            },
    {
        proof {
            lemma_store_map_get(self.entities@, key@);
        }
        let mut i: usize = 0;
        while i < self.entities.len()
            invariant
                self.wf(),
                i <= self.entities@.len(),
                forall|j: int| 0 <= j < i ==> (#[trigger] self.entities@[j])@.key != key@,
                store_map(self.entities@) == self@,
                self@.contains_key(key@) <==> (exists|k: int|
                    0 <= k < self.entities@.len() && (#[trigger] self.entities@[k])@.key == key@),
                forall|k: int|
                    0 <= k < self.entities@.len() && (#[trigger] self.entities@[k])@.key == key@
                        ==> self@[key@] == self.entities@[k]@,
            decreases self.entities@.len() - i,
        {
            if key_eq(self.entities[i].key(), key) {
                return Some(&self.entities[i]);
            }
            i = i + 1;
        }
        None
    }

    /// The entities stored under the given keys, present keys only, in the
    /// order the keys were given; absent keys are silently omitted.
    pub fn lookup_all(&self, keys: &Vec<Key>) -> (r: Vec<Entity>)
        requires
            self.wf(),
        ensures
            r@.map_values(|e: Entity| e@) == lookup_seq(
                self@,
                keys@.map_values(|k: Key| k@),
            ),
    {
        let mut out: Vec<Entity> = Vec::new();
        let mut i: usize = 0;
        proof {
            assert(keys@.map_values(|k: Key| k@).subrange(0, 0) =~= Seq::<
                Seq<PathElemView>,
            >::empty());
            assert(out@.map_values(|e: Entity| e@) =~= lookup_seq(
                self@,
                keys@.map_values(|k: Key| k@).subrange(0, 0),
            ));
        }
        while i < keys.len()
            invariant
                self.wf(),
                i <= keys@.len(),
                out@.map_values(|e: Entity| e@) == lookup_seq(
                    self@,
                    keys@.map_values(|k: Key| k@).subrange(0, i as int),
                ),
            decreases keys@.len() - i,
        {
            let ghost kviews = keys@.map_values(|k: Key| k@);
            proof {
                assert(kviews.subrange(0, i as int + 1).drop_last() =~= kviews.subrange(
                    0,
                    i as int,
                ));
                assert(kviews.subrange(0, i as int + 1).last() == kviews[i as int]);
            }
            match self.lookup(&keys[i]) {
                Some(e) => {
                    let copy = e.clone();
                    out.push(copy);
                    proof {
                        assert(out@.map_values(|e: Entity| e@) =~= lookup_seq(
                            self@,
                            kviews.subrange(0, i as int + 1),
                        ));
                    }
                },
                None => {
                    proof {
                        assert(out@.map_values(|e: Entity| e@) =~= lookup_seq(
                            self@,
                            kviews.subrange(0, i as int + 1),
                        ));
                    }
                },
            }
            i = i + 1;
        }
        proof {
            assert(keys@.map_values(|k: Key| k@).subrange(0, keys@.len() as int) =~= keys@.map_values(
                |k: Key| k@,
            ));
        }
        out
    }

    /// Applies one mutation, with the meaning [`spec_apply`] gives it: the
    /// result is `Ok` exactly when the mutation is defined on the current
    /// mapping, and the store is unchanged on an error.
    pub fn apply_mutation(&mut self, m: Mutation) -> (r: Result<(), ApplyError>)
        requires
            old(self).wf(),
            m.wf(),
        ensures
            final(self).wf(),
            match spec_apply(old(self)@, m@) {
                Some(m2) => r is Ok && final(self)@ == m2,
                None => {
                    &&& r is Err
                    &&& final(self)@ == old(self)@
                    &&& (m@ is Insert ==> r == Result::<(), ApplyError>::Err(
                        ApplyError::AlreadyExists,
                    ))
                    &&& (m@ is Update ==> r == Result::<(), ApplyError>::Err(
                        ApplyError::NotFound,
                    ))
                },
            },
    {
        match m {
            Mutation::Insert(e) => {
                match self.find_index(e.key()) {
                    Some(i) => {
                        proof {
                            lemma_store_map_get(self.entities@, e@.key);
                        }
                        Err(ApplyError::AlreadyExists)
                    },
                    None => {
                        self.push_entity(e);
                        Ok(())
                    },
                }
            },
            Mutation::Update(e) => {
                match self.find_index(e.key()) {
                    Some(i) => {
                        proof {
                            lemma_store_map_get(self.entities@, e@.key);
                        }
                        self.replace_entity(i, e);
                        Ok(())
                    },
                    None => Err(ApplyError::NotFound),
                }
            },
            Mutation::Upsert(e) => {
                match self.find_index(e.key()) {
                    Some(i) => {
                        self.replace_entity(i, e);
                        Ok(())
                    },
                    None => {
                        self.push_entity(e);
                        Ok(())
                    },
                }
            },
            Mutation::Delete(k) => {
                match self.find_index(&k) {
                    Some(i) => {
                        proof {
                            lemma_store_map_get(self.entities@, k@);
                        }
                        self.remove_entity(i, Ghost(k@));
                        Ok(())
                    },
                    None => {
                        proof {
                            assert(self@.remove(k@) =~= self@);
                        }
                        Ok(())
                    },
                }
            },
        }
    }

    /// Appends an entity whose key is not yet stored.
    fn push_entity(&mut self, e: Entity)
        requires
            old(self).wf(),
            e.wf(),
            !old(self)@.contains_key(e@.key),
        ensures
            final(self).wf(),
            final(self)@ == old(self)@.insert(e@.key, e@),
    {
        proof {
            lemma_store_map_get(self.entities@, e@.key);
            lemma_store_map_push(self.entities@, e);
        }
        self.entities.push(e);
        proof {
            assert forall|j: int| 0 <= j < self.entities@.len() implies (
            #[trigger] self.entities@[j]).wf() by {
                if j < old(self).entities@.len() {
                    assert(self.entities@[j] == old(self).entities@[j]);
                } else {
                    assert(self.entities@[j] == e);
                }
            }
        }
    }

    /// Replaces the entity at a position by one with the same key.
    fn replace_entity(&mut self, i: usize, e: Entity)
        requires
            old(self).wf(),
            e.wf(),
            i < old(self).entities@.len(),
            old(self).entities@[i as int]@.key == e@.key,
        ensures
            final(self).wf(),
            final(self)@ == old(self)@.insert(e@.key, e@),
    {
        proof {
            lemma_store_map_update(self.entities@, i as int, e);
        }
        self.entities[i] = e;
        proof {
            assert forall|j: int| 0 <= j < self.entities@.len() implies (
            #[trigger] self.entities@[j]).wf() by {
                if j != i {
                    assert(self.entities@[j] == old(self).entities@[j]);
                } else {
                    assert(self.entities@[j] == e);
                }
            }
        }
    }

    /// Removes the entity at a position.
    fn remove_entity(&mut self, i: usize, k: Ghost<Seq<PathElemView>>)
        requires
            old(self).wf(),
            i < old(self).entities@.len(),
            old(self).entities@[i as int]@.key == k@,
        ensures
            final(self).wf(),
            final(self)@ == old(self)@.remove(k@),
    {
        proof {
            lemma_store_map_remove(self.entities@, i as int);
        }
        self.entities.remove(i);
        proof {
            assert forall|j: int| 0 <= j < self.entities@.len() implies (
            #[trigger] self.entities@[j]).wf() by {
                if j < i {
                    assert(self.entities@[j] == old(self).entities@[j]);
                } else {
                    assert(self.entities@[j] == old(self).entities@[j + 1]);
                }
            }
        }
    }

    /// Applies a batch atomically, in order: when every mutation is
    /// defined the store ends at the batch's combined effect, and when one
    /// is not the whole store is left unchanged.
    #[verifier::loop_isolation(false)]
    pub fn apply_batch(&mut self, batch: &MutationBatch) -> (r: Result<(), ApplyError>)
        requires
            old(self).wf(),
            batch.wf(),
        ensures
            final(self).wf(),
            match spec_apply_all(old(self)@, batch@) {
                Some(m2) => r is Ok && final(self)@ == m2,
                None => r is Err && final(self)@ == old(self)@,
            },
    {
        let mut scratch = MemoryStore { entities: clone_entities(&self.entities) };
        proof {
            assert(scratch@ == self@ && scratch.wf()) by {
                lemma_store_congruence(self.entities@, scratch.entities@);
            }
        }
        let n = batch.mutations.len();
        let mut i: usize = 0;
        proof {
            assert(batch@.subrange(0, 0) =~= Seq::<MutationView>::empty());
        }
        while i < n
            invariant
                n == batch.mutations@.len(),
                i <= n,
                batch.wf(),
                scratch.wf(),
                spec_apply_all(old(self)@, batch@.subrange(0, i as int)) == Some(scratch@),
                *self == *old(self),
            decreases n - i,
        {
            let m = clone_mutation(&batch.mutations[i]);
            proof {
                assert(m@ == batch@[i as int]);
            }
            let step = scratch.apply_mutation(m);
            proof {
                assert(batch@.subrange(0, i as int + 1).drop_last() =~= batch@.subrange(
                    0,
                    i as int,
                ));
                assert(batch@.subrange(0, i as int + 1).last() == batch@[i as int]);
            }
            match step {
                Ok(_) => {},
                Err(e) => {
                    proof {
                        lemma_apply_all_none_extends(old(self)@, batch@, i as int + 1);
                    }
                    return Err(e);
                },
            }
            i = i + 1;
        }
        proof {
            assert(batch@.subrange(0, n as int) =~= batch@);
        }
        self.entities = scratch.entities;
        Ok(())
    }

    /// The position of the entity stored under the key, if any.
    fn find_index(&self, key: &Key) -> (r: Option<usize>)
        requires
            self.wf(),
        ensures
            match r {
                Some(i) => i < self.entities@.len() && self.entities@[i as int]@.key == key@,
                None => !self@.contains_key(key@),
            },
    {
        proof {
            lemma_store_map_get(self.entities@, key@);
        }
        let mut i: usize = 0;
        while i < self.entities.len()
            invariant
                self.wf(),
                i <= self.entities@.len(),
                forall|j: int| 0 <= j < i ==> (#[trigger] self.entities@[j])@.key != key@,
                self@.contains_key(key@) <==> (exists|k: int|
                    0 <= k < self.entities@.len() && (#[trigger] self.entities@[k])@.key == key@),
            decreases self.entities@.len() - i,
        {
            if key_eq(self.entities[i].key(), key) {
                return Some(i);
            }
            i = i + 1;
        }
        None
    }
}

/// The entities stored under a sequence of key paths, present keys only,
/// in order.
pub open spec fn lookup_seq(
    m: Map<Seq<PathElemView>, EntityView>,
    keys: Seq<Seq<PathElemView>>,
) -> Seq<EntityView>
    decreases keys.len(),
{
    if keys.len() == 0 {
        Seq::<EntityView>::empty()
    } else {
        lookup_seq(m, keys.drop_last()) + (if m.contains_key(keys.last()) {
            seq![m[keys.last()]]
        } else {
            Seq::<EntityView>::empty()
        })
    }
}

/// Every asked-for key that the store holds is found by a batch lookup,
/// with its stored entity; keys the store does not hold are omitted
/// rather than reported as errors.
pub proof fn lemma_lookup_seq_complete(
    m: Map<Seq<PathElemView>, EntityView>,
    keys: Seq<Seq<PathElemView>>,
    k: Seq<PathElemView>,
)
    requires
        keys.contains(k),
        m.contains_key(k),
    ensures
        lookup_seq(m, keys).contains(m[k]),
    decreases keys.len(),
{
    if keys.len() > 0 {
        if keys.last() == k {
            assert(lookup_seq(m, keys).last() == m[k]);
        } else {
            let i = choose|i: int| 0 <= i < keys.len() && keys[i] == k;
            assert(keys.drop_last()[i] == k);
            assert(keys.drop_last().contains(k));
            lemma_lookup_seq_complete(m, keys.drop_last(), k);
            let j = choose|j: int|
                0 <= j < lookup_seq(m, keys.drop_last()).len() && lookup_seq(
                    m,
                    keys.drop_last(),
                )[j] == m[k];
            assert(lookup_seq(m, keys)[j] == m[k]);
        }
    }
}

/// Once a prefix of a batch is undefined on a mapping, the whole batch is.
proof fn lemma_apply_all_none_extends(
    m: Map<Seq<PathElemView>, EntityView>,
    mus: Seq<MutationView>,
    i: int,
)
    requires
        0 <= i <= mus.len(),
        spec_apply_all(m, mus.subrange(0, i)) is None,
    ensures
        spec_apply_all(m, mus) is None,
    decreases mus.len() - i,
{
    if i < mus.len() {
        assert(mus.subrange(0, i + 1).drop_last() =~= mus.subrange(0, i));
        assert(spec_apply_all(m, mus.subrange(0, i + 1)) is None);
        lemma_apply_all_none_extends(m, mus, i + 1);
    } else {
        assert(mus.subrange(0, mus.len() as int) =~= mus);
    }
}

/// Two stores with pointwise equal entity views denote the same mapping.
proof fn lemma_store_congruence(a: Seq<Entity>, b: Seq<Entity>)
    requires
        a.len() == b.len(),
        forall|i: int| 0 <= i < a.len() ==> (#[trigger] a[i])@ == b[i]@,
        forall|i: int| 0 <= i < a.len() ==> ((#[trigger] a[i]).wf() == b[i].wf()),
    ensures
        store_map(a) == store_map(b),
        store_unique(a) == store_unique(b),
        (forall|i: int| 0 <= i < a.len() ==> (#[trigger] a[i]).wf()) == (forall|i: int|
            0 <= i < b.len() ==> (#[trigger] b[i]).wf()),
    decreases a.len(),
{
    if a.len() > 0 {
        assert(forall|i: int|
            0 <= i < a.len() - 1 ==> (#[trigger] a.drop_last()[i]) == a[i] && b.drop_last()[i]
                == b[i]);
        lemma_store_congruence(a.drop_last(), b.drop_last());
        assert(a.last() == a[a.len() - 1] && b.last() == b[a.len() - 1]);
    }
    if store_unique(a) {
        assert forall|i: int, j: int| 0 <= i < j < b.len() implies (#[trigger] b[i])@.key != (
        #[trigger] b[j])@.key by {
            assert(a[i]@.key != a[j]@.key);
        }
    }
    if store_unique(b) {
        assert forall|i: int, j: int| 0 <= i < j < a.len() implies (#[trigger] a[i])@.key != (
        #[trigger] a[j])@.key by {
            assert(b[i]@.key != b[j]@.key);
        }
    }
    if forall|i: int| 0 <= i < a.len() ==> (#[trigger] a[i]).wf() {
        assert forall|i: int| 0 <= i < b.len() implies (#[trigger] b[i]).wf() by {
            assert(a[i].wf());
        }
    }
    if forall|i: int| 0 <= i < b.len() ==> (#[trigger] b[i]).wf() {
        assert forall|i: int| 0 <= i < a.len() implies (#[trigger] a[i]).wf() by {
            assert(b[i].wf());
        }
    }
}

/// Copies a list of entities.
fn clone_entities(s: &Vec<Entity>) -> (r: Vec<Entity>)
    ensures
        r@.len() == s@.len(),
        forall|i: int| 0 <= i < s@.len() ==> (#[trigger] r@[i])@ == s@[i]@,
        forall|i: int| 0 <= i < s@.len() ==> ((#[trigger] r@[i]).wf() == s@[i].wf()),
{
    let mut out: Vec<Entity> = Vec::new();
    let mut i: usize = 0;
    while i < s.len()
        invariant
            i <= s@.len(),
            out@.len() == i,
            forall|j: int| 0 <= j < i ==> (#[trigger] out@[j])@ == s@[j]@,
            forall|j: int| 0 <= j < i ==> ((#[trigger] out@[j]).wf() == s@[j].wf()),
        decreases s@.len() - i,
    {
        let e = s[i].clone();
        out.push(e);
        i = i + 1;
    }
    out
}

/// Copies a mutation.
fn clone_mutation(m: &Mutation) -> (r: Mutation)
    ensures
        r@ == m@,
        r.wf() == m.wf(),
{
    match m {
        Mutation::Insert(e) => Mutation::Insert(e.clone()),
        Mutation::Delete(k) => Mutation::Delete(k.clone()),
        Mutation::Update(e) => Mutation::Update(e.clone()),
        Mutation::Upsert(e) => Mutation::Upsert(e.clone()),
    }
}

} // verus!

