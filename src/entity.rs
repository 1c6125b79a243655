//! Entities, datoms, and the replay of datoms onto an attribute map.
use vstd::prelude::*;

use serde_json::Value;

use crate::text::str_eq;
use crate::json::{attrs_insert, attrs_new, attrs_remove, entries, value_clone, Attrs};

verus! {

/// An entity: its id and its current attributes.
#[derive(Debug)]
pub struct Entity {
    pub id: String,
    pub attrs: Attrs,
}

/// The two kinds of fact mutation.
#[derive(Debug, Clone, Copy, PartialEq, Eq, Structural)]
pub enum DatomOp {
    Add,
    Retract,
}

/// One fact mutation: `op` applied to attribute `a` of entity `e`, with value `v`.
#[derive(Debug)]
pub struct Datom {
    pub op: DatomOp,
    pub e: String,
    pub a: String,
    pub v: Value,
}

/// The attribute map of an entity, as a mathematical map.
pub open spec fn attrs_of(e: Entity) -> Map<Seq<char>, Value> {
    entries(e.attrs)
}

/// The effect of one datom on an attribute map: `Add` sets the attribute,
/// `Retract` removes it (a no-op when it is absent).
pub open spec fn step_spec(m: Map<Seq<char>, Value>, d: Datom) -> Map<Seq<char>, Value> {
    match d.op {
        DatomOp::Add => m.insert(d.a@, d.v),
        DatomOp::Retract => m.remove(d.a@),
    }
}

/// Replays, in order, the datoms of `ds` that target entity `id` onto `m`;
/// datoms for other entities are skipped.
pub open spec fn replay_spec(
    id: Seq<char>,
    m: Map<Seq<char>, Value>,
    ds: Seq<Datom>,
) -> Map<Seq<char>, Value>
    decreases ds.len(),
{
    if ds.len() == 0 {
        m
    } else {
        let prev = replay_spec(id, m, ds.drop_last());
        if ds.last().e@ == id {
            step_spec(prev, ds.last())
        } else {
            prev
        }
    }
}

impl Entity {
    /// A fresh entity with no attributes.
    pub fn empty(id: String) -> (r: Entity)
        ensures
            r.id@ == id@,
            attrs_of(r) == Map::<Seq<char>, Value>::empty(),
    {
        let attrs = attrs_new();
        Entity { id, attrs }
    }
}

/// Applies one datom to an entity's attributes.
pub fn apply_datom(entity: &mut Entity, datom: &Datom)
    ensures
        final(entity).id == old(entity).id,
        attrs_of(*final(entity)) == step_spec(attrs_of(*old(entity)), *datom),
{
    match datom.op {
        DatomOp::Add => {
            attrs_insert(&mut entity.attrs, datom.a.clone(), value_clone(&datom.v));
        },
        DatomOp::Retract => {
            attrs_remove(&mut entity.attrs, datom.a.as_str());
        },
    }
}

/// Replays, in input order, the datoms of `datoms` that target `id` onto `entity`.
pub fn replay_group(entity: &mut Entity, id: &str, datoms: &Vec<Datom>)
    ensures
        final(entity).id == old(entity).id,
        attrs_of(*final(entity)) == replay_spec(id@, attrs_of(*old(entity)), datoms@),
{
    let mut i: usize = 0;
    while i < datoms.len()
        invariant
            i <= datoms@.len(),
            entity.id == old(entity).id,
            attrs_of(*entity) == replay_spec(id@, attrs_of(*old(entity)), datoms@.subrange(0, i as int)),
        decreases datoms@.len() - i,
    {
        proof {
            assert(datoms@.subrange(0, i + 1).drop_last() =~= datoms@.subrange(0, i as int));
        }
        if str_eq(datoms[i].e.as_str(), id) {
            apply_datom(entity, &datoms[i]);
        }
        i = i + 1;
    }
    proof {
        assert(datoms@.subrange(0, i as int) =~= datoms@);
    }
}

/// The attribute names that `ds` sets.
pub open spec fn added_names(ds: Seq<Datom>) -> Set<Seq<char>> {
    Set::new(|k: Seq<char>| exists|i: int| 0 <= i < ds.len() && (#[trigger] ds[i]).a@ == k)
}

/// Whether no datom after position `i` of `ds` names the attribute that `ds[i]` names.
pub open spec fn is_last_for_name(ds: Seq<Datom>, i: int) -> bool {
    forall|j: int| i < j < ds.len() ==> (#[trigger] ds[j]).a@ != ds[i].a@
}

/// Whether every datom of `ds` is an `Add` for entity `id`.
pub open spec fn all_adds_for(id: Seq<char>, ds: Seq<Datom>) -> bool {
    forall|i: int| 0 <= i < ds.len() ==> (#[trigger] ds[i]).op == DatomOp::Add && ds[i].e@ == id
}

/// Replaying only `Add` datoms for `id` onto an empty map yields exactly the added
/// attributes, each with the value of its last `Add`.
pub proof fn lemma_adds_yield_exactly_added(id: Seq<char>, ds: Seq<Datom>)
    requires
        all_adds_for(id, ds),
    ensures
        replay_spec(id, Map::empty(), ds).dom() == added_names(ds),
        forall|i: int|
            0 <= i < ds.len() && #[trigger] is_last_for_name(ds, i) ==> replay_spec(
                id,
                Map::empty(),
                ds,
            )[ds[i].a@] == ds[i].v,
    decreases ds.len(),
{
    if ds.len() == 0 {
        assert(added_names(ds) =~= Set::empty());
    } else {
        let prev = ds.drop_last();
        let last = ds.last();
        assert(last == ds[ds.len() - 1]);
        assert forall|i: int| 0 <= i < prev.len() implies (#[trigger] prev[i]).op == DatomOp::Add
            && prev[i].e@ == id by {
            assert(prev[i] == ds[i]);
        }
        lemma_adds_yield_exactly_added(id, prev);
        let pm = replay_spec(id, Map::empty(), prev);
        let r = replay_spec(id, Map::empty(), ds);
        assert(r == pm.insert(last.a@, last.v));
        assert forall|k: Seq<char>| added_names(ds).contains(k) implies r.dom().contains(k) by {
            let i = choose|i: int| 0 <= i < ds.len() && (#[trigger] ds[i]).a@ == k;
            if i < ds.len() - 1 {
                assert(prev[i] == ds[i]);
                assert(added_names(prev).contains(k));
            }
        }
        assert forall|k: Seq<char>| r.dom().contains(k) implies added_names(ds).contains(k) by {
            if k != last.a@ {
                assert(added_names(prev).contains(k));
                let i = choose|i: int| 0 <= i < prev.len() && (#[trigger] prev[i]).a@ == k;
                assert(ds[i] == prev[i]);
            }
        }
        assert(r.dom() =~= added_names(ds));
        assert forall|i: int| 0 <= i < ds.len() && #[trigger] is_last_for_name(ds, i) implies r[ds[i].a@]
            == ds[i].v by {
            if i < ds.len() - 1 {
                assert(prev[i] == ds[i]);
                assert forall|j: int| i < j < prev.len() implies (#[trigger] prev[j]).a@ != prev[i].a@ by {
                    assert(prev[j] == ds[j]);
                }
                assert(is_last_for_name(prev, i));
                assert(ds[ds.len() - 1].a@ != ds[i].a@);
            }
        }
    }
}

/// Retracting an attribute that is absent leaves the map as it was.
pub proof fn lemma_retract_absent_is_noop(m: Map<Seq<char>, Value>, d: Datom)
    requires
        d.op == DatomOp::Retract,
        !m.contains_key(d.a@),
    ensures
        step_spec(m, d) == m,
{
    assert(m.remove(d.a@) =~= m);
}

/// Two `Add`s of one attribute in one batch: the later value wins.
pub proof fn lemma_last_add_wins(id: Seq<char>, m: Map<Seq<char>, Value>, d1: Datom, d2: Datom)
    requires
        d1.op == DatomOp::Add,
        d2.op == DatomOp::Add,
        d1.e@ == id,
        d2.e@ == id,
        d1.a@ == d2.a@,
    ensures
        replay_spec(id, m, seq![d1, d2]).contains_key(d1.a@),
        replay_spec(id, m, seq![d1, d2])[d1.a@] == d2.v,
{
    assert(seq![d1, d2].drop_last() =~= seq![d1]);
    assert(seq![d1].drop_last() =~= Seq::<Datom>::empty());
}

} // verus!
