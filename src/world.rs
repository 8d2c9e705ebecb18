//! The entity store: an arena of capability sets addressed by weak references.
//!
//! Slots are never reused: despawning empties a slot for good, so a stale
//! reference can only ever read "absent".
use vstd::prelude::*;

use crate::components::{
    complete, entity_of_record, normalized, record_of, role_of, lemma_loaded_entity_complete,
    lemma_record_round_trip, lemma_written_record_normalized, Collision, EntityData, Health,
    SerializableEntity, SerializableTransform,
};

verus! {

/// A weak reference to an entity: an index into the store's arena.
#[derive(Debug, Clone, Copy, PartialEq, Eq, Structural)]
pub struct EntityRef {
    pub index: usize,
}

/// The entity store.
#[derive(Debug)]
pub struct World {
    pub slots: Vec<Option<EntityData>>,
}

impl View for World {
    type V = Seq<Option<EntityData>>;

    open spec fn view(&self) -> Seq<Option<EntityData>> {
        self.slots@
    }
}

pub open spec fn alive(s: Seq<Option<EntityData>>, r: EntityRef) -> bool {
    r.index < s.len() && s[r.index as int].is_some()
}

/// What the store holds for `r`, or `None` for a dead reference.
pub open spec fn entity_at(s: Seq<Option<EntityData>>, r: EntityRef) -> Option<EntityData> {
    if r.index < s.len() {
        s[r.index as int]
    } else {
        None
    }
}

pub open spec fn despawned(s: Seq<Option<EntityData>>, r: EntityRef) -> Seq<Option<EntityData>> {
    if r.index < s.len() {
        s.update(r.index as int, None)
    } else {
        s
    }
}

/// Replaces the entity at a live reference; a dead reference is left alone.
pub open spec fn replaced(s: Seq<Option<EntityData>>, r: EntityRef, e: EntityData) -> Seq<
    Option<EntityData>,
> {
    if alive(s, r) {
        s.update(r.index as int, Some(e))
    } else {
        s
    }
}

pub open spec fn is_role_slot(o: Option<EntityData>) -> bool {
    o.is_some() && role_of(o.unwrap().kind).is_some()
}

/// Every role-bearing entity carries the capabilities its role calls for.
pub open spec fn store_wf(s: Seq<Option<EntityData>>) -> bool {
    forall|i: int| 0 <= i < s.len() && #[trigger] s[i].is_some() ==> complete(s[i].unwrap())
}

/// The records a scene document holds for the store, in slot order.
pub open spec fn records(s: Seq<Option<EntityData>>) -> Seq<SerializableEntity>
    decreases s.len(),
{
    if s.len() == 0 {
        seq![]
    } else {
        let rest = records(s.drop_last());
        match s.last() {
            Some(e) => match record_of(e) {
                Some(r) => rest.push(r),
                None => rest,
            },
            None => rest,
        }
    }
}

/// The store with every role-bearing entity despawned.
pub open spec fn without_roles(s: Seq<Option<EntityData>>) -> Seq<Option<EntityData>> {
    s.map_values(|o: Option<EntityData>| if is_role_slot(o) { None } else { o })
}

/// The slots that loading `rs` appends, one per record, in order.
pub open spec fn loaded_slots(rs: Seq<SerializableEntity>) -> Seq<Option<EntityData>> {
    rs.map_values(|r: SerializableEntity| Some(entity_of_record(r)))
}

pub open spec fn all_normalized(rs: Seq<SerializableEntity>) -> bool {
    forall|i: int| 0 <= i < rs.len() ==> normalized(#[trigger] rs[i])
}

pub proof fn lemma_records_append(a: Seq<Option<EntityData>>, b: Seq<Option<EntityData>>)
    ensures
        records(a + b) == records(a) + records(b),
    decreases b.len(),
{
    if b.len() == 0 {
        assert(a + b =~= a);
        assert(records(b) =~= seq![]);
        assert(records(a) + records(b) =~= records(a));
    } else {
        lemma_records_append(a, b.drop_last());
        assert((a + b).drop_last() =~= a + b.drop_last());
        assert((a + b).last() == b.last());
        let ra = records(a);
        let rb = records(b.drop_last());
        assert(forall|x: SerializableEntity| (ra + rb).push(x) =~= ra + rb.push(x));
    }
}

/// A document has at most one record per slot.
pub proof fn lemma_records_len(s: Seq<Option<EntityData>>)
    ensures
        records(s).len() <= s.len(),
    decreases s.len(),
{
    if s.len() > 0 {
        lemma_records_len(s.drop_last());
    }
}

pub proof fn lemma_records_without_roles(s: Seq<Option<EntityData>>)
    ensures
        records(without_roles(s)) == Seq::<SerializableEntity>::empty(),
    decreases s.len(),
{
    if s.len() == 0 {
        assert(without_roles(s) =~= Seq::<Option<EntityData>>::empty());
    } else {
        lemma_records_without_roles(s.drop_last());
        assert(without_roles(s).drop_last() =~= without_roles(s.drop_last()));
    }
}

pub proof fn lemma_records_loaded(rs: Seq<SerializableEntity>)
    requires
        all_normalized(rs),
    ensures
        records(loaded_slots(rs)) == rs,
    decreases rs.len(),
{
    if rs.len() == 0 {
        assert(loaded_slots(rs) =~= Seq::<Option<EntityData>>::empty());
    } else {
        let init = rs.drop_last();
        assert(all_normalized(init)) by {
            assert forall|i: int| 0 <= i < init.len() implies normalized(#[trigger] init[i]) by {
                assert(init[i] == rs[i]);
            }
        }
        lemma_records_loaded(init);
        assert(loaded_slots(rs).drop_last() =~= loaded_slots(init));
        assert(normalized(rs[rs.len() - 1]));
        lemma_record_round_trip(rs.last());
        assert(rs =~= init.push(rs.last()));
    }
}

/// Every record written from a well-formed store is normalized.
pub proof fn lemma_records_normalized(s: Seq<Option<EntityData>>)
    requires
        store_wf(s),
    ensures
        all_normalized(records(s)),
    decreases s.len(),
{
    if s.len() > 0 {
        let init = s.drop_last();
        assert(store_wf(init)) by {
            assert forall|i: int| 0 <= i < init.len() && #[trigger] init[i].is_some() implies complete(
                init[i].unwrap(),
            ) by {
                assert(init[i] == s[i]);
            }
        }
        lemma_records_normalized(init);
        match s.last() {
            Some(e) => {
                assert(s[s.len() - 1].is_some());
                if role_of(e.kind).is_some() {
                    lemma_written_record_normalized(e);
                }
            },
            None => {},
        }
    }
}

/// Loading records into a store keeps it well formed.
pub proof fn lemma_loaded_wf(s: Seq<Option<EntityData>>, rs: Seq<SerializableEntity>)
    requires
        store_wf(s),
    ensures
        store_wf(s + loaded_slots(rs)),
{
    let t = s + loaded_slots(rs);
    assert forall|i: int| 0 <= i < t.len() && #[trigger] t[i].is_some() implies complete(
        t[i].unwrap(),
    ) by {
        if i >= s.len() {
            lemma_loaded_entity_complete(rs[i - s.len()]);
        }
    }
}

pub proof fn lemma_without_roles_wf(s: Seq<Option<EntityData>>)
    requires
        store_wf(s),
    ensures
        store_wf(without_roles(s)),
{
    let t = without_roles(s);
    assert forall|i: int| 0 <= i < t.len() && #[trigger] t[i].is_some() implies complete(
        t[i].unwrap(),
    ) by {
        assert(s[i].is_some());
    }
}

/// Scene ids of live role-bearing entities are below `next_id` and distinct.
pub open spec fn ids_ok(s: Seq<Option<EntityData>>, next_id: u64) -> bool {
    &&& forall|i: int| 0 <= i < s.len() && #[trigger] is_role_slot(s[i]) ==> s[i].unwrap().id < next_id
    &&& forall|i: int, j: int|
        0 <= i < s.len() && 0 <= j < s.len() && i != j && #[trigger] is_role_slot(s[i])
            && #[trigger] is_role_slot(s[j]) ==> s[i].unwrap().id != s[j].unwrap().id
}

/// Record ids are below `next_id` and distinct.
pub open spec fn doc_ids_ok(rs: Seq<SerializableEntity>, next_id: u64) -> bool {
    &&& forall|i: int| 0 <= i < rs.len() ==> (#[trigger] rs[i]).id < next_id
    &&& forall|i: int, j: int| 0 <= i < rs.len() && 0 <= j < rs.len() && i != j ==> (#[trigger] rs[i]).id != (#[trigger] rs[j]).id
}

/// Writing a store whose ids are sound gives a document whose ids are sound,
/// and every record's id is the id of some role-bearing slot.
pub proof fn lemma_records_ids(s: Seq<Option<EntityData>>, n: u64)
    requires
        ids_ok(s, n),
    ensures
        doc_ids_ok(records(s), n),
        forall|k: int|
            0 <= k < records(s).len() ==> exists|i: int|
                0 <= i < s.len() && is_role_slot(s[i]) && s[i].unwrap().id == (#[trigger] records(s)[k]).id,
    decreases s.len(),
{
    if s.len() > 0 {
        let t = s.drop_last();
        assert(ids_ok(t, n)) by {
            assert forall|i: int| 0 <= i < t.len() && #[trigger] is_role_slot(t[i]) implies t[i].unwrap().id < n by {
                assert(t[i] == s[i]);
            }
            assert forall|i: int, j: int|
                0 <= i < t.len() && 0 <= j < t.len() && i != j && #[trigger] is_role_slot(t[i])
                    && #[trigger] is_role_slot(t[j]) implies t[i].unwrap().id != t[j].unwrap().id by {
                assert(t[i] == s[i]);
                assert(t[j] == s[j]);
            }
        }
        lemma_records_ids(t, n);
        let rt = records(t);
        let last = s.len() - 1;
        assert(s.last() == s[last]);
        if is_role_slot(s[last]) {
            let e = s[last].unwrap();
            let r = record_of(e).unwrap();
            assert(records(s) == rt.push(r));
            let rs = records(s);
            assert forall|k: int| 0 <= k < rt.len() implies (#[trigger] rs[k]).id != r.id by {
                assert(rs[k] == rt[k]);
                let i = choose|i: int|
                    0 <= i < t.len() && is_role_slot(t[i]) && t[i].unwrap().id == rt[k].id;
                assert(t[i] == s[i]);
                assert(is_role_slot(s[i]) && is_role_slot(s[last]) && i != last);
            }
            assert forall|k: int| 0 <= k < rs.len() implies exists|i: int|
                0 <= i < s.len() && is_role_slot(s[i]) && s[i].unwrap().id == (#[trigger] rs[k]).id by {
                if k < rt.len() {
                    assert(rs[k] == rt[k]);
                    let i = choose|i: int|
                        0 <= i < t.len() && is_role_slot(t[i]) && t[i].unwrap().id == rt[k].id;
                    assert(t[i] == s[i]);
                } else {
                    assert(rs[k] == r);
                }
            }
            assert forall|i: int, j: int| 0 <= i < rs.len() && 0 <= j < rs.len() && i != j implies (#[trigger] rs[i]).id != (#[trigger] rs[j]).id by {
                if i < rt.len() && j < rt.len() {
                    assert(rs[i] == rt[i]);
                    assert(rs[j] == rt[j]);
                }
            }
            assert forall|i: int| 0 <= i < rs.len() implies (#[trigger] rs[i]).id < n by {
                if i < rt.len() {
                    assert(rs[i] == rt[i]);
                }
            }
        } else {
            assert(records(s) == rt);
            assert forall|k: int| 0 <= k < rt.len() implies exists|i: int|
                0 <= i < s.len() && is_role_slot(s[i]) && s[i].unwrap().id == (#[trigger] rt[k]).id by {
                let i = choose|i: int|
                    0 <= i < t.len() && is_role_slot(t[i]) && t[i].unwrap().id == rt[k].id;
                assert(t[i] == s[i]);
            }
        }
    }
}

/// Loading a document with sound ids into a store without role-bearing
/// entities gives a store with sound ids.
pub proof fn lemma_loaded_ids(s: Seq<Option<EntityData>>, rs: Seq<SerializableEntity>, n: u64)
    requires
        forall|i: int| 0 <= i < s.len() ==> !is_role_slot(#[trigger] s[i]),
        doc_ids_ok(rs, n),
    ensures
        ids_ok(s + loaded_slots(rs), n),
{
    let t = s + loaded_slots(rs);
    assert forall|i: int| 0 <= i < t.len() && #[trigger] is_role_slot(t[i]) implies t[i].unwrap().id < n by {
        if i < s.len() {
            assert(t[i] == s[i]);
        } else {
            assert(t[i] == Some(entity_of_record(rs[i - s.len()])));
        }
    }
    assert forall|i: int, j: int|
        0 <= i < t.len() && 0 <= j < t.len() && i != j && #[trigger] is_role_slot(t[i])
            && #[trigger] is_role_slot(t[j]) implies t[i].unwrap().id != t[j].unwrap().id by {
        if i < s.len() {
            assert(t[i] == s[i]);
        } else if j < s.len() {
            assert(t[j] == s[j]);
        } else {
            assert(t[i] == Some(entity_of_record(rs[i - s.len()])));
            assert(t[j] == Some(entity_of_record(rs[j - s.len()])));
        }
    }
}

/// A change that keeps every role-bearing slot's id, and makes no new
/// role-bearing slot, keeps ids sound.
pub proof fn lemma_same_ids(s: Seq<Option<EntityData>>, t: Seq<Option<EntityData>>, n: u64)
    requires
        ids_ok(s, n),
        t.len() == s.len(),
        forall|i: int|
            0 <= i < t.len() && #[trigger] is_role_slot(t[i]) ==> is_role_slot(s[i]) && t[i].unwrap().id
                == s[i].unwrap().id,
    ensures
        ids_ok(t, n),
{
    assert forall|i: int, j: int|
        0 <= i < t.len() && 0 <= j < t.len() && i != j && #[trigger] is_role_slot(t[i])
            && #[trigger] is_role_slot(t[j]) implies t[i].unwrap().id != t[j].unwrap().id by {
        assert(is_role_slot(s[i]) && is_role_slot(s[j]));
    }
}

/// Appending an entity whose id is new and below `n` keeps ids sound.
pub proof fn lemma_push_ids(s: Seq<Option<EntityData>>, e: EntityData, n: u64)
    requires
        ids_ok(s, n),
        e.id < n,
        forall|i: int| 0 <= i < s.len() && #[trigger] is_role_slot(s[i]) ==> s[i].unwrap().id != e.id,
    ensures
        ids_ok(s.push(Some(e)), n),
{
    let t = s.push(Some(e));
    assert forall|i: int| 0 <= i < t.len() && #[trigger] is_role_slot(t[i]) implies t[i].unwrap().id < n by {
        if i < s.len() {
            assert(t[i] == s[i]);
        }
    }
    assert forall|i: int, j: int|
        0 <= i < t.len() && 0 <= j < t.len() && i != j && #[trigger] is_role_slot(t[i])
            && #[trigger] is_role_slot(t[j]) implies t[i].unwrap().id != t[j].unwrap().id by {
        if i < s.len() {
            assert(t[i] == s[i]);
        }
        if j < s.len() {
            assert(t[j] == s[j]);
        }
    }
}

/// Ids stay sound when the counter grows.
pub proof fn lemma_ids_grow(s: Seq<Option<EntityData>>, n: u64, m: u64)
    requires
        ids_ok(s, n),
        n <= m,
    ensures
        ids_ok(s, m),
{
}

/// Despawning keeps ids sound.
pub proof fn lemma_despawned_ids(s: Seq<Option<EntityData>>, r: EntityRef, n: u64)
    requires
        ids_ok(s, n),
    ensures
        ids_ok(despawned(s, r), n),
{
    lemma_same_ids(s, despawned(s, r), n);
}

pub proof fn lemma_without_roles_has_none(s: Seq<Option<EntityData>>)
    ensures
        forall|i: int| 0 <= i < without_roles(s).len() ==> !is_role_slot(#[trigger] without_roles(s)[i]),
{
}

impl World {
    /// An empty store.
    pub fn new() -> (w: World)
        ensures
            w@ == Seq::<Option<EntityData>>::empty(),
    {
        World { slots: Vec::new() }
    }

    /// Number of slots ever allocated (live or not).
    pub fn slot_count(&self) -> (n: usize)
        ensures
            n == self@.len(),
    {
        self.slots.len()
    }

    /// Adds `e` as a new entity and returns a reference to it.
    pub fn spawn(&mut self, e: EntityData) -> (r: EntityRef)
        requires
            old(self)@.len() < usize::MAX,
        ensures
            final(self)@ == old(self)@.push(Some(e)),
            r.index == old(self)@.len(),
    {
        let r = EntityRef { index: self.slots.len() };
        self.slots.push(Some(e));
        r
    }

    /// Removes the entity; a dead reference is a no-op.
    pub fn despawn(&mut self, r: EntityRef)
        ensures
            final(self)@ == despawned(old(self)@, r),
    {
        if r.index < self.slots.len() {
            self.slots.set(r.index, None);
        }
    }

    pub fn is_alive(&self, r: EntityRef) -> (b: bool)
        ensures
            b == alive(self@, r),
    {
        r.index < self.slots.len() && self.slots[r.index].is_some()
    }

    /// The entity at `r`, or `None` when `r` is dead.
    pub fn get(&self, r: EntityRef) -> (o: Option<&EntityData>)
        ensures
            o.is_some() == alive(self@, r),
            o.is_some() ==> *o.unwrap() == entity_at(self@, r).unwrap(),
    {
        if r.index < self.slots.len() {
            match &self.slots[r.index] {
                Some(e) => Some(e),
                None => None,
            }
        } else {
            None
        }
    }

    /// Replaces the entity at a live reference; a dead one is left alone.
    pub fn replace(&mut self, r: EntityRef, e: EntityData)
        ensures
            final(self)@ == replaced(old(self)@, r, e),
    {
        if self.is_alive(r) {
            self.slots.set(r.index, Some(e));
        }
    }

    /// Sets the transform of a live entity.
    pub fn set_transform(&mut self, r: EntityRef, t: SerializableTransform)
        ensures
            final(self)@ == match entity_at(old(self)@, r) {
                Some(e) => replaced(old(self)@, r, EntityData { transform: t, ..e }),
                None => old(self)@,
            },
    {
        match self.get(r) {
            Some(e) => {
                let mut n = e.duplicate();
                n.transform = t;
                self.replace(r, n);
            },
            None => {},
        }
    }

    /// Sets the health of a live entity that has health; others are left alone.
    pub fn set_health(&mut self, r: EntityRef, h: Health)
        ensures
            final(self)@ == match entity_at(old(self)@, r) {
                Some(e) => if e.health.is_some() {
                    replaced(old(self)@, r, EntityData { health: Some(h), ..e })
                } else {
                    old(self)@
                },
                None => old(self)@,
            },
    {
        match self.get(r) {
            Some(e) => {
                if e.health.is_some() {
                    let mut n = e.duplicate();
                    n.health = Some(h);
                    self.replace(r, n);
                }
            },
            None => {},
        }
    }

    /// Sets the collision shape of a live entity that has one.
    pub fn set_collision(&mut self, r: EntityRef, c: Collision)
        ensures
            final(self)@ == match entity_at(old(self)@, r) {
                Some(e) => if e.collision.is_some() {
                    replaced(old(self)@, r, EntityData { collision: Some(c), ..e })
                } else {
                    old(self)@
                },
                None => old(self)@,
            },
    {
        match self.get(r) {
            Some(e) => {
                if e.collision.is_some() {
                    let mut n = e.duplicate();
                    n.collision = Some(c);
                    self.replace(r, n);
                }
            },
            None => {},
        }
    }

    /// The records of every live role-bearing entity, in slot order.
    pub fn to_records(&self) -> (v: Vec<SerializableEntity>)
        ensures
            v@ == records(self@),
    {
        let mut v: Vec<SerializableEntity> = Vec::new();
        let mut i: usize = 0;
        while i < self.slots.len()
            invariant
                i <= self@.len(),
                v@ == records(self@.subrange(0, i as int)),
            decreases self@.len() - i,
        {
            proof {
                let next = self@.subrange(0, i + 1);
                assert(next.drop_last() =~= self@.subrange(0, i as int));
                assert(next.last() == self@[i as int]);
            }
            match &self.slots[i] {
                Some(e) => match e.to_record() {
                    Some(r) => v.push(r),
                    None => {},
                },
                None => {},
            }
            i = i + 1;
        }
        assert(self@.subrange(0, self@.len() as int) =~= self@);
        v
    }

    /// Despawns every role-bearing entity; editor entities stay.
    pub fn despawn_roles(&mut self)
        ensures
            final(self)@ == without_roles(old(self)@),
    {
        let ghost s0 = self@;
        let mut i: usize = 0;
        while i < self.slots.len()
            invariant
                i <= self@.len(),
                self@.len() == s0.len(),
                forall|j: int| 0 <= j < i ==> self@[j] == #[trigger] without_roles(s0)[j],
                forall|j: int| i <= j < self@.len() ==> self@[j] == s0[j],
            decreases self@.len() - i,
        {
            let is_role = match &self.slots[i] {
                Some(e) => e.role().is_some(),
                None => false,
            };
            if is_role {
                self.slots.set(i, None);
            }
            i = i + 1;
        }
        assert(self@ =~= without_roles(s0));
    }

    /// Spawns one entity per record, in order, with role defaults for
    /// absent capabilities.
    pub fn spawn_records(&mut self, rs: &Vec<SerializableEntity>)
        requires
            old(self)@.len() + rs@.len() < usize::MAX,
        ensures
            final(self)@ == old(self)@ + loaded_slots(rs@),
    {
        let ghost s0 = self@;
        let mut i: usize = 0;
        while i < rs.len()
            invariant
                i <= rs@.len(),
                s0.len() + rs@.len() < usize::MAX,
                self@ == s0 + loaded_slots(rs@.subrange(0, i as int)),
            decreases rs@.len() - i,
        {
            let e = rs[i].to_entity();
            self.spawn(e);
            proof {
                assert(loaded_slots(rs@.subrange(0, i + 1)) =~= loaded_slots(
                    rs@.subrange(0, i as int),
                ).push(Some(entity_of_record(rs@[i as int]))));
            }
            i = i + 1;
        }
        assert(rs@.subrange(0, rs@.len() as int) =~= rs@);
    }
}

} // verus!
