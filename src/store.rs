//! The entity store: how entities are read from and written to rows keyed by
//! address, and how a batch of datoms is applied to them.
use vstd::prelude::*;

use serde_json::Value;
use std::collections::HashMap;

use crate::address::{addr_for_entity_id, address_spec};
use crate::codec::{decode_entity, encode_entity, envelope_contents, is_envelope, json_parse, json_text, CodecError};
use crate::entity::{
    all_adds_for, attrs_of, lemma_adds_yield_exactly_added, replay_group, replay_spec, Datom, Entity,
};
use crate::json::no_entries;
use crate::text::str_eq;

verus! {

broadcast use vstd::std_specs::hash::group_hash_axioms;

/// The id and attributes that a load of `id` yields, given the content of the
/// row at its address: the decoded entity where the content decodes to one,
/// else a fresh entity with that id and no attributes.
pub open spec fn loaded_spec(id: Seq<char>, content: Option<Seq<char>>) -> (
    Seq<char>,
    Map<Seq<char>, Value>,
) {
    match content {
        Some(text) => match json_parse(text) {
            Some(v) => match envelope_contents(v) {
                Some(c) => c,
                None => (id, no_entries()),
            },
            None => (id, no_entries()),
        },
        None => (id, no_entries()),
    }
}

/// A row of the backing table.
pub struct VaultRow {
    /// The address of the entity id.
    pub addr: i64,
    /// The entity's envelope, as JSON text.
    pub content: String,
    /// Reserved for an index of related addresses; always an empty JSON list.
    pub addresses: String,
}

/// The entity that a load of `id` yields when the row at its address holds
/// `content` (`None`: no row). Content that does not decode reads as absent.
pub fn load_from_row(id: &str, content: Option<&str>) -> (r: Entity)
    ensures
        (r.id@, attrs_of(r)) == loaded_spec(
            id@,
            match content {
                Some(t) => Some(t@),
                None => None,
            },
        ),
{
    if let Some(text) = content {
        if let Ok(entity) = decode_entity(text) {
            return entity;
        }
    }
    Entity::empty(id.to_owned())
}

/// The entity that a stored text holds, where it holds one.
pub open spec fn stored_entity(text: Seq<char>) -> Option<(Seq<char>, Map<Seq<char>, Value>)> {
    match json_parse(text) {
        Some(v) => envelope_contents(v),
        None => None,
    }
}

/// The entities that the texts of `rows` hold, in order; unreadable rows are left out.
pub open spec fn readable_entities(rows: Seq<Seq<char>>) -> Seq<(Seq<char>, Map<Seq<char>, Value>)>
    decreases rows.len(),
{
    if rows.len() == 0 {
        Seq::empty()
    } else {
        let prev = readable_entities(rows.drop_last());
        match stored_entity(rows.last()) {
            Some(c) => prev.push(c),
            None => prev,
        }
    }
}

/// The id and attributes of each entity of `es`.
pub open spec fn entity_views(es: Seq<Entity>) -> Seq<(Seq<char>, Map<Seq<char>, Value>)> {
    es.map_values(|e: Entity| (e.id@, attrs_of(e)))
}

/// Decodes the stored texts of a scan of the table, leaving out unreadable rows.
pub fn decode_rows(rows: &Vec<String>) -> (r: Vec<Entity>)
    ensures
        entity_views(r@) == readable_entities(views(rows@)),
{
    let mut out: Vec<Entity> = Vec::new();
    let mut i: usize = 0;
    proof {
        assert(views(rows@).subrange(0, 0) =~= Seq::<Seq<char>>::empty());
        assert(entity_views(out@) =~= Seq::empty());
    }
    while i < rows.len()
        invariant
            i <= rows@.len(),
            entity_views(out@) == readable_entities(views(rows@).subrange(0, i as int)),
        decreases rows@.len() - i,
    {
        proof {
            assert(views(rows@).subrange(0, i + 1).drop_last() =~= views(rows@).subrange(0, i as int));
            assert(views(rows@).subrange(0, i + 1).last() == rows@[i as int]@);
        }
        let ghost before = out@;
        match decode_entity(rows[i].as_str()) {
            Ok(e) => {
                out.push(e);
                proof {
                    assert(entity_views(out@) =~= entity_views(before).push((out@.last().id@, attrs_of(out@.last()))));
                }
            },
            Err(_) => {},
        }
        i = i + 1;
    }
    proof {
        assert(views(rows@).subrange(0, i as int) =~= views(rows@));
    }
    out
}

/// The row that writing `entity` stores: its address, its envelope as text,
/// and an empty list of related addresses.
pub fn row_for_entity(entity: &Entity) -> (r: Result<VaultRow, CodecError>)
    ensures
        r is Ok,
        r matches Ok(row) ==> row.addr == address_spec(entity.id@) && row.addresses@ == "[]"@
            && stored_as(row.content@, *entity),
{
    let content = encode_entity(entity)?;
    Ok(VaultRow { addr: addr_for_entity_id(entity.id.as_str()), content, addresses: "[]".to_owned() })
}

/// The distinct entity ids of a datom sequence, in order of first appearance.
pub open spec fn entity_ids(ds: Seq<Datom>) -> Seq<Seq<char>>
    decreases ds.len(),
{
    if ds.len() == 0 {
        Seq::empty()
    } else {
        let prev = entity_ids(ds.drop_last());
        if prev.contains(ds.last().e@) {
            prev
        } else {
            prev.push(ds.last().e@)
        }
    }
}

/// The views of a sequence of strings.
pub open spec fn views(s: Seq<String>) -> Seq<Seq<char>> {
    s.map_values(|x: String| x@)
}

/// The distinct entity ids that `datoms` target, in order of first appearance.
pub fn group_ids(datoms: &Vec<Datom>) -> (r: Vec<String>)
    ensures
        views(r@) == entity_ids(datoms@),
{
    let mut ids: Vec<String> = Vec::new();
    let mut i: usize = 0;
    while i < datoms.len()
        invariant
            i <= datoms@.len(),
            views(ids@) == entity_ids(datoms@.subrange(0, i as int)),
        decreases datoms@.len() - i,
    {
        proof {
            assert(datoms@.subrange(0, i + 1).drop_last() =~= datoms@.subrange(0, i as int));
        }
        let e = datoms[i].e.as_str();
        let mut found = false;
        let mut j: usize = 0;
        while j < ids.len()
            invariant
                j <= ids@.len(),
                found == exists|k: int| 0 <= k < j && #[trigger] views(ids@)[k] == e@,
            decreases ids@.len() - j,
        {
            proof {
                assert(views(ids@)[j as int] == ids@[j as int]@);
            }
            if str_eq(ids[j].as_str(), e) {
                found = true;
            }
            j = j + 1;
        }
        proof {
            if found {
                let k = choose|k: int| 0 <= k < j && #[trigger] views(ids@)[k] == e@;
                assert(views(ids@).contains(e@));
            } else {
                assert forall|k: int| 0 <= k < views(ids@).len() implies views(ids@)[k] != e@ by {
                    assert(views(ids@)[k] == ids@[k]@);
                }
            }
        }
        if !found {
            ids.push(e.to_owned());
            proof {
                assert(views(ids@) =~= entity_ids(datoms@.subrange(0, i as int)).push(e@));
            }
        }
        i = i + 1;
    }
    proof {
        assert(datoms@.subrange(0, i as int) =~= datoms@);
    }
    ids
}

/// The rows of the table: address to content and list of related addresses.
pub type Rows = Map<i64, (Seq<char>, Seq<char>)>;

/// The row at `addr`, if there is one: its content and its list of related addresses.
pub open spec fn entry_at(rows: Rows, addr: i64) -> Option<(Seq<char>, Seq<char>)> {
    if rows.contains_key(addr) {
        Some(rows[addr])
    } else {
        None
    }
}

/// The content of the row at `addr`, if there is one.
pub open spec fn row_at(rows: Rows, addr: i64) -> Option<Seq<char>> {
    if rows.contains_key(addr) {
        Some(rows[addr].0)
    } else {
        None
    }
}

/// Whether `text` is the stored form of an entity with this id and these
/// attributes: the JSON text of its envelope.
pub open spec fn holds_entity(text: Seq<char>, id: Seq<char>, attrs: Map<Seq<char>, Value>) -> bool {
    exists|v: Value| #![trigger json_text(v)] is_envelope(v, id, attrs) && text == json_text(v)
}

/// Whether `text` is the stored form of `entity`.
pub open spec fn stored_as(text: Seq<char>, entity: Entity) -> bool {
    holds_entity(text, entity.id@, attrs_of(entity))
}

/// Whether no two of `ids` share an address.
pub open spec fn distinct_addresses(ids: Seq<Seq<char>>) -> bool {
    forall|i: int, j: int|
        0 <= i < j < ids.len() ==> address_spec(#[trigger] ids[i]) != address_spec(#[trigger] ids[j])
}

/// Whether the entities of `ids` stay apart in `rows`: no two ids share an
/// address, and the entity that loading each id yields has an id at that same address.
pub open spec fn no_aliasing(rows: Rows, ids: Seq<Seq<char>>) -> bool {
    &&& distinct_addresses(ids)
    &&& forall|i: int|
        0 <= i < ids.len() ==> address_spec(
            loaded_spec(#[trigger] ids[i], row_at(rows, address_spec(ids[i]))).0,
        ) == address_spec(ids[i])
}

/// Whether `addr` is the address of one of the first `n` of `ids`.
pub open spec fn among_first(ids: Seq<Seq<char>>, n: int, addr: i64) -> bool {
    exists|j: int| 0 <= j < n && #[trigger] address_spec(ids[j]) == addr
}

/// An entity store held in memory: one row per address.
pub struct MemoryStore {
    rows: HashMap<i64, VaultRow>,
}

impl View for MemoryStore {
    type V = Rows;

    closed spec fn view(&self) -> Rows {
        self.rows@.map_values(|r: VaultRow| (r.content@, r.addresses@))
    }
}

impl MemoryStore {
    /// A store with no rows.
    pub fn new() -> (r: MemoryStore)
        ensures
            r@ == Map::<i64, (Seq<char>, Seq<char>)>::empty(),
    {
        let r = MemoryStore { rows: HashMap::new() };
        proof {
            assert(r@ =~= Map::<i64, (Seq<char>, Seq<char>)>::empty());
        }
        r
    }

    /// The content of the row at `addr`.
    pub fn row(&self, addr: i64) -> (r: Option<&str>)
        ensures
            match r {
                Some(t) => row_at(self@, addr) == Some(t@),
                None => row_at(self@, addr) is None,
            },
    {
        match self.rows.get(&addr) {
            Some(row) => Some(row.content.as_str()),
            None => None,
        }
    }

    /// Inserts the row, or overwrites both fields of the row at its address.
    pub fn upsert(&mut self, row: VaultRow)
        ensures
            final(self)@ == old(self)@.insert(row.addr, (row.content@, row.addresses@)),
    {
        let ghost entry = (row.content@, row.addresses@);
        let addr = row.addr;
        self.rows.insert(addr, row);
        proof {
            assert(self@ =~= old(self)@.insert(addr, entry));
        }
    }

    /// The list of related addresses of the row at `addr`.
    pub fn addresses(&self, addr: i64) -> (r: Option<&str>)
        ensures
            match r {
                Some(t) => entry_at(self@, addr) matches Some(e) && e.1 == t@,
                None => entry_at(self@, addr) is None,
            },
    {
        match self.rows.get(&addr) {
            Some(row) => Some(row.addresses.as_str()),
            None => None,
        }
    }

    /// Loads the entity with id `id`; an absent or unreadable row yields a
    /// fresh entity with that id and no attributes.
    pub fn load(&self, id: &str) -> (r: Entity)
        ensures
            (r.id@, attrs_of(r)) == loaded_spec(id@, row_at(self@, address_spec(id@))),
    {
        let content = self.row(addr_for_entity_id(id));
        load_from_row(id, content)
    }

    /// Writes the full snapshot of `entity` at the address of its id, with an
    /// empty list of related addresses; other rows are untouched.
    pub fn write(&mut self, entity: &Entity) -> (r: Result<(), CodecError>)
        ensures
            r is Ok,
            exists|text: Seq<char>|
                stored_as(text, *entity) && final(self)@ == old(self)@.insert(
                    address_spec(entity.id@),
                    (text, "[]"@),
                ),
    {
        match row_for_entity(entity) {
            Ok(row) => {
                self.upsert(row);
                Ok(())
            },
            Err(e) => Err(e),
        }
    }
}

/// The id and attributes that group `id` of a batch `ds` ends with when it is
/// loaded from `rows`: the loaded entity with the group's datoms replayed onto it.
pub open spec fn applied_group(rows: Rows, id: Seq<char>, ds: Seq<Datom>) -> (
    Seq<char>,
    Map<Seq<char>, Value>,
) {
    let before = loaded_spec(id, row_at(rows, address_spec(id)));
    (before.0, replay_spec(id, before.1, ds))
}

/// Whether `new` is `old` with the first `k` groups of `ids` applied and written,
/// and no other row touched.
pub open spec fn groups_written(old: Rows, new: Rows, ids: Seq<Seq<char>>, ds: Seq<Datom>, k: int) -> bool {
    &&& forall|a: i64| !among_first(ids, k, a) ==> #[trigger] entry_at(new, a) == entry_at(old, a)
    &&& forall|j: int|
        0 <= j < k ==> (entry_at(new, address_spec(#[trigger] ids[j])) matches Some(e) && e.1
            == "[]"@ && holds_entity(e.0, applied_group(old, ids[j], ds).0, applied_group(old, ids[j], ds).1))
}

/// Whether `addr` is the address of the id of one of `es`.
pub open spec fn written_at(es: Seq<Entity>, addr: i64) -> bool {
    exists|i: int| 0 <= i < es.len() && #[trigger] address_spec(es[i].id@) == addr
}

/// Whether `new` is `old` with rows written only at the addresses of the ids of
/// `es`, each of which holds a row, and no row removed.
pub open spec fn written_only_at(old: Rows, new: Rows, es: Seq<Entity>) -> bool {
    &&& forall|a: i64| !written_at(es, a) ==> #[trigger] entry_at(new, a) == entry_at(old, a)
    &&& forall|a: i64| #[trigger] old.contains_key(a) ==> new.contains_key(a)
    &&& forall|i: int| 0 <= i < es.len() ==> new.contains_key(address_spec((#[trigger] es[i]).id@))
}

/// Applies a batch of datoms: for each entity id that the batch names, in order
/// of first appearance, loads the entity, replays its datoms in input order,
/// and writes it back. Returns the updated entities, one per id.
///
/// Each updated entity is written at the address of its own id; no other row
/// changes and no row is removed. Where two ids of the batch share an address,
/// the later group loads what the earlier one wrote and overwrites it. Where
/// the entities do not alias, each result is the entity loaded from the store as
/// it stood before the call with its group's datoms replayed onto it.
pub fn apply_datoms(store: &mut MemoryStore, datoms: &Vec<Datom>) -> (r: Result<Vec<Entity>, CodecError>)
    ensures
        r is Ok,
        r matches Ok(es) ==> es@.len() == entity_ids(datoms@).len(),
        r matches Ok(es) ==> written_only_at(old(store)@, final(store)@, es@),
        r matches Ok(es) ==> no_aliasing(old(store)@, entity_ids(datoms@)) ==> {
            &&& groups_written(old(store)@, final(store)@, entity_ids(datoms@), datoms@, es@.len() as int)
            &&& forall|i: int|
                0 <= i < es@.len() ==> (es@[i].id@, attrs_of(es@[i])) == applied_group(
                    old(store)@,
                    #[trigger] entity_ids(datoms@)[i],
                    datoms@,
                )
        },
{
    let ids = group_ids(datoms);
    let ghost gids = entity_ids(datoms@);
    let mut updated: Vec<Entity> = Vec::new();
    let mut i: usize = 0;
    while i < ids.len()
        invariant
            views(ids@) == gids,
            gids == entity_ids(datoms@),
            i <= ids@.len(),
            updated@.len() == i,
            written_only_at(old(store)@, store@, updated@),
            no_aliasing(old(store)@, gids) ==> groups_written(old(store)@, store@, gids, datoms@, i as int),
            no_aliasing(old(store)@, gids) ==> forall|j: int|
                0 <= j < i ==> (updated@[j].id@, attrs_of(updated@[j])) == applied_group(
                    old(store)@,
                    #[trigger] gids[j],
                    datoms@,
                ),
        decreases ids@.len() - i,
    {
        let id = ids[i].as_str();
        assert(id@ == gids[i as int]);
        let ghost addr = address_spec(id@);
        let ghost mid = store@;
        let ghost before = updated@;
        proof {
            if no_aliasing(old(store)@, gids) {
                assert(forall|a: i64| !among_first(gids, i as int, a) ==> #[trigger] entry_at(mid, a) == entry_at(old(store)@, a));
                assert(!among_first(gids, i as int, addr));
                assert(entry_at(mid, addr) == entry_at(old(store)@, addr));
                assert(row_at(mid, addr) == row_at(old(store)@, addr));
            }
        }
        let mut entity = store.load(id);
        replay_group(&mut entity, id, datoms);
        let _ = store.write(&entity);
        let ghost waddr = address_spec(entity.id@);
        proof {
            let text = choose|t: Seq<char>|
                stored_as(t, entity) && store@ == mid.insert(waddr, (t, "[]"@));
            assert(store@ == mid.insert(waddr, (text, "[]"@)));
            if no_aliasing(old(store)@, gids) {
                assert(waddr == addr);
                assert forall|a: i64| !among_first(gids, i + 1, a) implies #[trigger] entry_at(store@, a) == entry_at(old(store)@, a) by {
                    assert(address_spec(gids[i as int]) == addr);
                    assert(a != addr);
                    assert(!among_first(gids, i as int, a));
                    assert(entry_at(store@, a) == entry_at(mid, a));
                }
                assert forall|j: int| 0 <= j < i implies address_spec(#[trigger] gids[j]) != addr by {}
                assert(applied_group(old(store)@, gids[i as int], datoms@) == (entity.id@, attrs_of(entity)));
                assert(groups_written(old(store)@, store@, gids, datoms@, i + 1));
            }
        }
        updated.push(entity);
        proof {
            assert(updated@ == before.push(entity));
            assert forall|a: i64| !written_at(updated@, a) implies #[trigger] entry_at(store@, a) == entry_at(old(store)@, a) by {
                assert(address_spec(updated@[i as int].id@) == waddr);
                assert(a != waddr);
                assert(!written_at(before, a)) by {
                    if written_at(before, a) {
                        let k = choose|k: int| 0 <= k < before.len() && #[trigger] address_spec(before[k].id@) == a;
                        assert(updated@[k] == before[k]);
                    }
                }
                assert(entry_at(store@, a) == entry_at(mid, a));
            }
            assert forall|k: int| 0 <= k < updated@.len() implies store@.contains_key(address_spec((#[trigger] updated@[k]).id@)) by {
                if k < i {
                    assert(updated@[k] == before[k]);
                    assert(mid.contains_key(address_spec(before[k].id@)));
                }
            }
        }
        i = i + 1;
    }
    Ok(updated)
}

/// Loading an id whose address holds no row yields that id with no attributes.
pub proof fn lemma_load_unwritten(rows: Rows, id: Seq<char>)
    requires
        !rows.contains_key(address_spec(id)),
    ensures
        loaded_spec(id, row_at(rows, address_spec(id))) == (id, no_entries()),
{
}

/// A batch of `Add`s for one id that has no row yet touches that one entity, whose
/// load is fresh: applying it yields one entity holding exactly the added
/// attributes, each with the value of its last `Add`.
pub proof fn lemma_adds_to_fresh_entity(rows: Rows, id: Seq<char>, ds: Seq<Datom>)
    requires
        ds.len() > 0,
        all_adds_for(id, ds),
        !rows.contains_key(address_spec(id)),
    ensures
        entity_ids(ds) == seq![id],
        no_aliasing(rows, entity_ids(ds)),
        loaded_spec(id, row_at(rows, address_spec(id))) == (id, no_entries()),
        replay_spec(id, no_entries(), ds).dom() == crate::entity::added_names(ds),
        forall|i: int|
            0 <= i < ds.len() && #[trigger] crate::entity::is_last_for_name(ds, i) ==> replay_spec(
                id,
                no_entries(),
                ds,
            )[ds[i].a@] == ds[i].v,
{
    lemma_entity_ids_single(id, ds);
    lemma_adds_yield_exactly_added(id, ds);
    assert(no_entries() == Map::<Seq<char>, Value>::empty());
}

/// A non-empty batch whose datoms all target `id` names that id alone.
proof fn lemma_entity_ids_single(id: Seq<char>, ds: Seq<Datom>)
    requires
        ds.len() > 0,
        forall|i: int| 0 <= i < ds.len() ==> (#[trigger] ds[i]).e@ == id,
    ensures
        entity_ids(ds) == seq![id],
    decreases ds.len(),
{
    let prev = ds.drop_last();
    assert(ds.last() == ds[ds.len() - 1]);
    if prev.len() == 0 {
        assert(entity_ids(prev) =~= Seq::<Seq<char>>::empty());
        assert(entity_ids(ds) =~= seq![id]);
    } else {
        assert forall|i: int| 0 <= i < prev.len() implies (#[trigger] prev[i]).e@ == id by {
            assert(prev[i] == ds[i]);
        }
        lemma_entity_ids_single(id, prev);
        assert(entity_ids(prev).contains(id)) by {
            assert(entity_ids(prev)[0] == id);
        }
    }
}

} // verus!
