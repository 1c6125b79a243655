//! The datoms that the journal commands transact, and the text of a page.
use vstd::prelude::*;

use serde_json::Value;

use crate::entity::{attrs_of, Datom, DatomOp, Entity};
use crate::json::{as_str, attrs_get, json_str, string_value, value_clone};
use crate::text::str_eq;

verus! {

/// The string under attribute `name` of `e`, if `e` has that attribute and it is a JSON string.
pub open spec fn string_attr(e: Entity, name: Seq<char>) -> Option<Seq<char>> {
    if attrs_of(e).contains_key(name) {
        json_str(attrs_of(e)[name])
    } else {
        None
    }
}

/// The line of a block in the edit buffer: the bullet, a space and the block's content.
pub open spec fn block_line(e: Entity, bullet: Seq<char>) -> Seq<char> {
    match string_attr(e, "block/content"@) {
        Some(c) => bullet + " "@ + c + "\n"@,
        None => Seq::empty(),
    }
}

/// The edit buffer of a page: a heading with the date, then one line per block
/// that has a string content.
pub open spec fn render_spec(date: Seq<char>, es: Seq<Entity>, bullet: Seq<char>) -> Seq<char>
    decreases es.len(),
{
    if es.len() == 0 {
        "# "@ + date + "\n"@
    } else {
        render_spec(date, es.drop_last(), bullet) + block_line(es.last(), bullet)
    }
}

/// The string value of attribute `name` of `e`, if it is a JSON string.
fn get_string_attr<'a>(e: &'a Entity, name: &str) -> (r: Option<&'a str>)
    ensures
        match r {
            Some(s) => string_attr(*e, name@) == Some(s@),
            None => string_attr(*e, name@) is None,
        },
{
    match attrs_get(&e.attrs, name) {
        Some(v) => as_str(v),
        None => None,
    }
}

/// Renders a page's blocks as an edit buffer.
pub fn render_journal(date: &str, entities: &[Entity], bullet: &str) -> (r: String)
    ensures
        r@ == render_spec(date@, entities@, bullet@),
{
    let mut out = "# ".to_owned();
    out.append(date);
    out.append("\n");
    let mut i: usize = 0;
    proof {
        assert(entities@.subrange(0, 0) =~= Seq::<Entity>::empty());
    }
    while i < entities.len()
        invariant
            i <= entities@.len(),
            out@ == render_spec(date@, entities@.subrange(0, i as int), bullet@),
        decreases entities@.len() - i,
    {
        proof {
            assert(entities@.subrange(0, i + 1).drop_last() =~= entities@.subrange(0, i as int));
        }
        match get_string_attr(&entities[i], "block/content") {
            Some(title) => {
                out.append(bullet);
                out.append(" ");
                out.append(title);
                out.append("\n");
                proof {
                    assert(out@ =~= render_spec(date@, entities@.subrange(0, i as int), bullet@) + (
                    bullet@ + " "@ + title@ + "\n"@));
                }
            },
            None => {
                proof {
                    assert(out@ =~= render_spec(date@, entities@.subrange(0, i as int), bullet@)
                        + Seq::<char>::empty());
                }
            },
        }
        i = i + 1;
    }
    proof {
        assert(entities@.subrange(0, i as int) =~= entities@);
    }
    out
}

/// Whether `d` applies `op` to attribute `a` of entity `e` with the JSON string `s`.
pub open spec fn is_string_datom(d: Datom, op: DatomOp, e: Seq<char>, a: Seq<char>, s: Seq<char>) -> bool {
    d.op == op && d.e@ == e && d.a@ == a && json_str(d.v) == Some(s)
}

/// A datom whose value is a JSON string.
fn string_datom(op: DatomOp, e: &str, a: &str, s: &str) -> (d: Datom)
    ensures
        is_string_datom(d, op, e@, a@, s@),
{
    Datom { op, e: e.to_owned(), a: a.to_owned(), v: string_value(s.to_owned()) }
}

/// The datoms that add a note as a new block of a page: the block's title,
/// content and page, and the page's name.
pub fn note_datoms(block_id: &str, title: &str, note: &str, page_id: &str, date: &str) -> (r: Vec<Datom>)
    ensures
        r@.len() == 4,
        is_string_datom(r@[0], DatomOp::Add, block_id@, "block/title"@, title@),
        is_string_datom(r@[1], DatomOp::Add, block_id@, "block/content"@, note@),
        is_string_datom(r@[2], DatomOp::Add, block_id@, "block/page"@, page_id@),
        is_string_datom(r@[3], DatomOp::Add, page_id@, "page/name"@, date@),
{
    let mut r: Vec<Datom> = Vec::new();
    r.push(string_datom(DatomOp::Add, block_id, "block/title", title));
    r.push(string_datom(DatomOp::Add, block_id, "block/content", note));
    r.push(string_datom(DatomOp::Add, block_id, "block/page", page_id));
    r.push(string_datom(DatomOp::Add, page_id, "page/name", date));
    r
}

/// A retraction to make: entity id, attribute name, and the value retracted.
pub type Retraction = (Seq<char>, Seq<char>, Value);

/// The retraction of attribute `name` of `e`, where it holds a JSON string.
pub open spec fn retract_if_string(e: Entity, name: Seq<char>) -> Seq<Retraction> {
    if string_attr(e, name) is Some {
        seq![(e.id@, name, attrs_of(e)[name])]
    } else {
        Seq::empty()
    }
}

/// The retractions that clear a block: its title, content and page, in that order.
pub open spec fn block_retractions(e: Entity) -> Seq<Retraction> {
    retract_if_string(e, "block/title"@) + retract_if_string(e, "block/content"@) + retract_if_string(
        e,
        "block/page"@,
    )
}

/// The retractions that clear every block of `es`, block by block.
pub open spec fn retraction_plan(es: Seq<Entity>) -> Seq<Retraction>
    decreases es.len(),
{
    if es.len() == 0 {
        Seq::empty()
    } else {
        retraction_plan(es.drop_last()) + block_retractions(es.last())
    }
}

/// Whether `d` is the retraction `t`.
pub open spec fn is_retraction(d: Datom, t: Retraction) -> bool {
    d.op == DatomOp::Retract && d.e@ == t.0 && d.a@ == t.1 && d.v == t.2
}

/// Whether `r`, from position `k` on, adds a block with id `id`, title `title`,
/// content `note` and page `page`.
pub open spec fn adds_block_at(
    r: Seq<Datom>,
    k: int,
    id: Seq<char>,
    title: Seq<char>,
    note: Seq<char>,
    page: Seq<char>,
) -> bool {
    &&& is_string_datom(r[k], DatomOp::Add, id, "block/title"@, title)
    &&& is_string_datom(r[k + 1], DatomOp::Add, id, "block/content"@, note)
    &&& is_string_datom(r[k + 2], DatomOp::Add, id, "block/page"@, page)
}

/// Appends the retraction of attribute `name` of `e`, where it holds a JSON string.
fn push_retraction(out: &mut Vec<Datom>, e: &Entity, name: &str)
    ensures
        final(out)@.len() == old(out)@.len() + retract_if_string(*e, name@).len(),
        forall|i: int| 0 <= i < old(out)@.len() ==> final(out)@[i] == old(out)@[i],
        forall|i: int|
            0 <= i < retract_if_string(*e, name@).len() ==> is_retraction(
                #[trigger] final(out)@[old(out)@.len() + i],
                retract_if_string(*e, name@)[i],
            ),
{
    match attrs_get(&e.attrs, name) {
        Some(v) => {
            if as_str(v).is_some() {
                out.push(Datom { op: DatomOp::Retract, e: e.id.clone(), a: name.to_owned(), v: value_clone(v) });
            }
        },
        None => {},
    }
}

/// The datoms that save an edited page: retract the title, content and page of
/// every old block, add each note as a block with the id given for it, and name the page.
pub fn edit_datoms(
    entities: &[Entity],
    notes: &Vec<String>,
    block_ids: &Vec<String>,
    title: &str,
    page_id: &str,
    date: &str,
) -> (r: Vec<Datom>)
    requires
        block_ids@.len() == notes@.len(),
    ensures
        r@.len() == retraction_plan(entities@).len() + 3 * notes@.len() + 1,
        forall|i: int|
            0 <= i < retraction_plan(entities@).len() ==> is_retraction(
                #[trigger] r@[i],
                retraction_plan(entities@)[i],
            ),
        forall|j: int|
            0 <= j < notes@.len() ==> adds_block_at(
                r@,
                retraction_plan(entities@).len() + 3 * j,
                block_ids@[j]@,
                title@,
                #[trigger] notes@[j]@,
                page_id@,
            ),
        is_string_datom(r@[r@.len() - 1], DatomOp::Add, page_id@, "page/name"@, date@),
{
    let mut out: Vec<Datom> = Vec::new();
    let mut i: usize = 0;
    proof {
        assert(entities@.subrange(0, 0) =~= Seq::<Entity>::empty());
    }
    while i < entities.len()
        invariant
            i <= entities@.len(),
            out@.len() == retraction_plan(entities@.subrange(0, i as int)).len(),
            forall|k: int|
                0 <= k < out@.len() ==> is_retraction(
                    #[trigger] out@[k],
                    retraction_plan(entities@.subrange(0, i as int))[k],
                ),
        decreases entities@.len() - i,
    {
        let ghost before = out@;
        let ghost plan = retraction_plan(entities@.subrange(0, i as int));
        let e = &entities[i];
        push_retraction(&mut out, e, "block/title");
        push_retraction(&mut out, e, "block/content");
        push_retraction(&mut out, e, "block/page");
        proof {
            assert(entities@.subrange(0, i + 1).drop_last() =~= entities@.subrange(0, i as int));
            assert(entities@.subrange(0, i + 1).last() == *e);
            let next = retraction_plan(entities@.subrange(0, i + 1));
            assert(next == plan + block_retractions(*e));
            let t = retract_if_string(*e, "block/title"@);
            let c = retract_if_string(*e, "block/content"@);
            let p = retract_if_string(*e, "block/page"@);
            assert forall|k: int| 0 <= k < out@.len() implies is_retraction(#[trigger] out@[k], next[k]) by {
                if k < plan.len() {
                } else if k < plan.len() + t.len() {
                    assert(out@[k] == out@[plan.len() + (k - plan.len())]);
                } else if k < plan.len() + t.len() + c.len() {
                    assert(out@[k] == out@[plan.len() + t.len() + (k - plan.len() - t.len())]);
                } else {
                    assert(out@[k] == out@[plan.len() + t.len() + c.len() + (k - plan.len() - t.len() - c.len())]);
                }
            }
        }
        i = i + 1;
    }
    proof {
        assert(entities@.subrange(0, i as int) =~= entities@);
    }
    let ghost base = out@.len();
    let mut j: usize = 0;
    while j < notes.len()
        invariant
            entities@.len() == i,
            base == retraction_plan(entities@).len(),
            block_ids@.len() == notes@.len(),
            j <= notes@.len(),
            out@.len() == base + 3 * j,
            forall|k: int| 0 <= k < base ==> is_retraction(#[trigger] out@[k], retraction_plan(entities@)[k]),
            forall|m: int|
                0 <= m < j ==> adds_block_at(out@, base + 3 * m, block_ids@[m]@, title@, #[trigger] notes@[m]@, page_id@),
        decreases notes@.len() - j,
    {
        let ghost before = out@;
        let id = block_ids[j].as_str();
        out.push(string_datom(DatomOp::Add, id, "block/title", title));
        out.push(string_datom(DatomOp::Add, id, "block/content", notes[j].as_str()));
        out.push(string_datom(DatomOp::Add, id, "block/page", page_id));
        proof {
            assert forall|m: int| 0 <= m < j + 1 implies adds_block_at(out@, base + 3 * m, block_ids@[m]@, title@, #[trigger] notes@[m]@, page_id@) by {
                if m < j {
                    assert(adds_block_at(before, base + 3 * m, block_ids@[m]@, title@, notes@[m]@, page_id@));
                    assert(base + 3 * m + 2 < before.len()) by (nonlinear_arith)
                        requires m < j, before.len() == base + 3 * j;
                }
            }
        }
        j = j + 1;
    }
    out.push(string_datom(DatomOp::Add, page_id, "page/name", date));
    proof {
        assert forall|m: int| 0 <= m < notes@.len() implies adds_block_at(out@, base + 3 * m, block_ids@[m]@, title@, #[trigger] notes@[m]@, page_id@) by {
            assert(base + 3 * m + 2 < base + 3 * j) by (nonlinear_arith)
                requires m < j;
        }
    }
    out
}

/// Whether `e` is a block of page `page_id`: its `block/page` is that id.
pub open spec fn is_block_of(e: Entity, page_id: Seq<char>) -> bool {
    string_attr(e, "block/page"@) == Some(page_id)
}

/// The entities of `es` that are blocks of page `page_id`, in order.
pub open spec fn blocks_of_spec(es: Seq<Entity>, page_id: Seq<char>) -> Seq<Entity>
    decreases es.len(),
{
    if es.len() == 0 {
        Seq::empty()
    } else {
        let prev = blocks_of_spec(es.drop_last(), page_id);
        if is_block_of(es.last(), page_id) {
            prev.push(es.last())
        } else {
            prev
        }
    }
}

/// Keeps the entities that are blocks of page `page_id`, in order.
pub fn page_blocks(entities: Vec<Entity>, page_id: &str) -> (r: Vec<Entity>)
    ensures
        r@ == blocks_of_spec(entities@, page_id@),
{
    let ghost all = entities@;
    assert(all.len() == entities.len());
    let mut rest = entities;
    let mut out: Vec<Entity> = Vec::new();
    let mut k: usize = 0;
    proof {
        assert(all.subrange(0, 0) =~= Seq::<Entity>::empty());
        assert(all.subrange(0, all.len() as int) =~= all);
    }
    while rest.len() > 0
        invariant
            k <= all.len() <= usize::MAX,
            rest@ == all.subrange(k as int, all.len() as int),
            out@ == blocks_of_spec(all.subrange(0, k as int), page_id@),
        decreases rest@.len(),
    {
        let e = rest.remove(0);
        proof {
            assert(e == all[k as int]);
            assert(all.subrange(0, k + 1).drop_last() =~= all.subrange(0, k as int));
            assert(rest@ =~= all.subrange(k + 1, all.len() as int));
        }
        let keep = match get_string_attr(&e, "block/page") {
            Some(p) => str_eq(p, page_id),
            None => false,
        };
        if keep {
            out.push(e);
        }
        k = k + 1;
    }
    proof {
        assert(all.subrange(0, k as int) =~= all);
    }
    out
}

/// The names of the pages among `es`, in order: the `page/name` of each entity that has one.
pub open spec fn page_names_spec(es: Seq<Entity>) -> Seq<Seq<char>>
    decreases es.len(),
{
    if es.len() == 0 {
        Seq::empty()
    } else {
        let prev = page_names_spec(es.drop_last());
        match string_attr(es.last(), "page/name"@) {
            Some(n) => prev.push(n),
            None => prev,
        }
    }
}

/// The names of the pages among `entities`, in order.
pub fn page_names(entities: &[Entity]) -> (r: Vec<String>)
    ensures
        r@.map_values(|s: String| s@) == page_names_spec(entities@),
{
    let mut out: Vec<String> = Vec::new();
    let mut i: usize = 0;
    proof {
        assert(entities@.subrange(0, 0) =~= Seq::<Entity>::empty());
        assert(out@.map_values(|s: String| s@) =~= Seq::<Seq<char>>::empty());
    }
    while i < entities.len()
        invariant
            i <= entities@.len(),
            out@.map_values(|s: String| s@) == page_names_spec(entities@.subrange(0, i as int)),
        decreases entities@.len() - i,
    {
        proof {
            assert(entities@.subrange(0, i + 1).drop_last() =~= entities@.subrange(0, i as int));
        }
        match get_string_attr(&entities[i], "page/name") {
            Some(n) => {
                let ghost before = out@;
                out.push(n.to_owned());
                proof {
                    assert(out@.map_values(|s: String| s@) =~= before.map_values(|s: String| s@).push(n@));
                }
            },
            None => {},
        }
        i = i + 1;
    }
    proof {
        assert(entities@.subrange(0, i as int) =~= entities@);
    }
    out
}

} // verus!
