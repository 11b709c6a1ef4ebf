//! What holds of the grid across calls, stated over the models that the
//! operations' contracts use.
use vstd::prelude::*;

use crate::engine::fields::a5grid::{visited_pairs, GridView};
use crate::engine::fields::grid_option::GridOption;
use crate::engine::fields::buffer::{
    lemma_placed_wf, lemma_removed_wf, lemma_stored_only_at_location, lemma_without_absent,
    lemma_without_contains, lemma_without_empty, lemma_without_no_duplicates, lemma_without_push,
    without, BufferView,
};

verus! {

/// In a consistent buffer an object is located at a cell exactly when that
/// cell stores it.
pub proof fn law_location_matches_cell(v: BufferView, obj: u64, cell: u64)
    requires
        v.wf(),
    ensures
        (v.locations.get(obj) == Some(cell)) <==> v.objects_at(cell).contains(obj),
        v.pairs().contains((cell, obj)) <==> v.located_pairs().contains((obj, cell)),
{
    if v.objects_at(cell).contains(obj) {
        lemma_stored_only_at_location(v, obj, cell);
    }
    if v.locations.get(obj) == Some(cell) {
        assert(v.locations.contains_key(obj));
    }
}

/// A placed object is found at its new cell, as the last object there, and in
/// no other cell.
pub proof fn law_placed_object_is_found(v: BufferView, obj: u64, cell: u64)
    requires
        v.wf(),
    ensures
        v.placed(obj, cell).locations.get(obj) == Some(cell),
        v.placed(obj, cell).objects_at(cell).last() == obj,
        forall|c: u64| c != cell ==> !(#[trigger] v.placed(obj, cell).objects_at(c)).contains(obj),
{
    assert forall|c: u64| c != cell implies !(#[trigger] v.placed(obj, cell).objects_at(
        c,
    )).contains(obj) by {
        if v.cells.contains_key(c) {
            lemma_without_contains(v.cells[c], obj, obj);
        }
    }
}

/// A removed object has no location and is in no cell.
pub proof fn law_removed_object_is_gone(v: BufferView, obj: u64)
    requires
        v.wf(),
    ensures
        v.removed(obj).locations.get(obj) is None,
        forall|c: u64| !(#[trigger] v.removed(obj).objects_at(c)).contains(obj),
{
    assert forall|c: u64| !(#[trigger] v.removed(obj).objects_at(c)).contains(obj) by {
        if v.cells.contains_key(c) {
            lemma_without_contains(v.cells[c], obj, obj);
        }
    }
}

/// Placing or removing one object leaves every other object where it was.
pub proof fn law_other_objects_stay(v: BufferView, obj: u64, cell: u64, other: u64, c: u64)
    requires
        v.wf(),
        other != obj,
    ensures
        v.placed(obj, cell).locations.get(other) == v.locations.get(other),
        v.removed(obj).locations.get(other) == v.locations.get(other),
        v.placed(obj, cell).objects_at(c).contains(other) <==> v.objects_at(c).contains(other),
        v.removed(obj).objects_at(c).contains(other) <==> v.objects_at(c).contains(other),
{
    lemma_without_contains(v.objects_at(c), obj, other);
    if c == cell {
        let base = without(v.objects_at(c), obj);
        let p = base.push(obj);
        if p.contains(other) {
            let i = choose|i: int| 0 <= i < p.len() && p[i] == other;
            assert(base[i] == other);
        }
        if base.contains(other) {
            let i = choose|i: int| 0 <= i < base.len() && base[i] == other;
            assert(p[i] == other);
        }
    }
    if !v.cells.contains_key(c) {
        lemma_without_empty(obj);
    }
}

/// Placing an object twice at the same cell is placing it once.
pub proof fn law_place_idempotent(v: BufferView, obj: u64, cell: u64)
    requires
        v.wf(),
    ensures
        v.placed(obj, cell).placed(obj, cell) == v.placed(obj, cell),
{
    let p = v.placed(obj, cell);
    let q = p.placed(obj, cell);
    lemma_placed_wf(v, obj, cell);
    assert forall|c: u64| #[trigger] q.cells.contains_key(c) implies q.cells[c] == p.cells[c] by {
        if c == cell {
            let base = without(v.objects_at(cell), obj);
            lemma_without_contains(v.objects_at(cell), obj, obj);
            lemma_without_absent(base, obj);
            lemma_without_push(base, obj, obj);
        } else {
            lemma_without_contains(v.cells[c], obj, obj);
            lemma_without_absent(p.cells[c], obj);
        }
    }
    assert(q.cells =~= p.cells);
    assert(q.locations =~= p.locations);
}

/// Placing an object twice leaves it where the second placement put it, with
/// every cell holding what a single placement there would leave.
pub proof fn law_last_placement_wins(v: BufferView, obj: u64, first: u64, second: u64, c: u64)
    requires
        v.wf(),
    ensures
        v.placed(obj, first).placed(obj, second).locations == v.placed(obj, second).locations,
        v.placed(obj, first).placed(obj, second).objects_at(c) == v.placed(obj, second).objects_at(
            c,
        ),
{
    let p = v.placed(obj, first);
    assert(p.placed(obj, second).locations =~= v.placed(obj, second).locations);
    lemma_without_empty(obj);
    if v.cells.contains_key(c) {
        if c == first {
            lemma_without_contains(v.cells[c], obj, obj);
            lemma_without_push(without(v.cells[c], obj), obj, obj);
            lemma_without_absent(without(v.cells[c], obj), obj);
        } else {
            lemma_without_contains(v.cells[c], obj, obj);
            lemma_without_absent(without(v.cells[c], obj), obj);
        }
    } else if c == first {
        lemma_without_push(Seq::<u64>::empty(), obj, obj);
    }
}

/// Removing an object undoes placing it: every location and every cell's
/// objects are as if it had only been removed.
pub proof fn law_remove_undoes_place(v: BufferView, obj: u64, cell: u64, c: u64)
    requires
        v.wf(),
    ensures
        v.placed(obj, cell).removed(obj).locations == v.removed(obj).locations,
        v.placed(obj, cell).removed(obj).objects_at(c) == v.removed(obj).objects_at(c),
{
    let p = v.placed(obj, cell);
    assert(p.removed(obj).locations =~= v.removed(obj).locations);
    lemma_without_empty(obj);
    if v.cells.contains_key(c) {
        lemma_without_contains(v.cells[c], obj, obj);
        lemma_without_absent(without(v.cells[c], obj), obj);
        if c == cell {
            lemma_without_push(without(v.cells[c], obj), obj, obj);
        }
    } else if c == cell {
        lemma_without_push(Seq::<u64>::empty(), obj, obj);
    }
}

/// What was written in a step is what is read after the update: an object
/// placed in the step is located at its cell and stored there.
pub proof fn law_read_after_update(g: GridView, obj: u64, cell: u64)
    requires
        g.wf(),
    ensures
        (GridView { write: g.write.placed(obj, cell), ..g }).updated().read.locations.get(obj)
            == Some(cell),
        (GridView { write: g.write.placed(obj, cell), ..g }).updated().read.objects_at(
            cell,
        ).contains(obj),
        (GridView { write: g.write.placed(obj, cell), ..g }).updated().wf(),
{
    law_placed_object_is_found(g.write, obj, cell);
    lemma_placed_wf(g.write, obj, cell);
    let s = g.write.placed(obj, cell).objects_at(cell);
    assert(s[s.len() - 1] == obj);
}

/// An update that follows an update with no writes in between empties the
/// read state: objects must be placed again every step.
pub proof fn law_update_without_writes_drains(g: GridView)
    ensures
        g.updated().updated().read == BufferView::empty(),
        g.updated().updated().write == BufferView::empty(),
{
}

/// Updating keeps the grid consistent, and so do placing and removing.
pub proof fn law_operations_keep_consistency(g: GridView, obj: u64, cell: u64)
    requires
        g.wf(),
    ensures
        g.updated().wf(),
        (GridView { write: g.write.placed(obj, cell), ..g }).wf(),
        (GridView { write: g.write.removed(obj), ..g }).wf(),
{
    lemma_placed_wf(g.write, obj, cell);
    lemma_removed_wf(g.write, obj);
}

/// Removing an object keeps every cell's objects free of repetitions and in
/// their order.
pub proof fn law_remove_keeps_order(v: BufferView, obj: u64, c: u64)
    requires
        v.wf(),
        v.cells.contains_key(c),
    ensures
        v.removed(obj).cells[c] == without(v.cells[c], obj),
        v.removed(obj).cells[c].no_duplicates(),
{
    lemma_without_no_duplicates(v.cells[c], obj);
}

/// A visit of the read state does not see the step's writes: placing or
/// removing an object during the step changes neither the (cell, object)
/// pairs a `READ` visit reaches nor the (object, cell) pairs `iter_objects`
/// reaches, and a `WRITE` visit reaches nothing of the read state that the
/// write buffer does not itself hold.
pub proof fn law_read_visit_ignores_writes(g: GridView, obj: u64, cell: u64, p: (u64, u64))
    ensures
        visited_pairs(GridView { write: g.write.placed(obj, cell), ..g }, GridOption::READ)
            == visited_pairs(g, GridOption::READ),
        visited_pairs(GridView { write: g.write.removed(obj), ..g }, GridOption::READ)
            == visited_pairs(g, GridOption::READ),
        (GridView { write: g.write.placed(obj, cell), ..g }).read.located_pairs()
            == g.read.located_pairs(),
        visited_pairs(g, GridOption::WRITE).contains(p) ==> g.write.pairs().contains(p),
        visited_pairs(g, GridOption::READ).contains(p) ==> g.read.pairs().contains(p),
        visited_pairs(g, GridOption::READWRITE).contains(p) <==> (g.read.pairs().contains(p)
            || g.write.pairs().contains(p)),
{
}

/// A pair placed during the step is reached by a `WRITE` visit, and by a
/// `READ` visit only once the step is committed.
pub proof fn law_write_visit_sees_placement(g: GridView, obj: u64, cell: u64)
    requires
        g.wf(),
    ensures
        visited_pairs(GridView { write: g.write.placed(obj, cell), ..g }, GridOption::WRITE).contains(
            (cell, obj),
        ),
        visited_pairs(
            (GridView { write: g.write.placed(obj, cell), ..g }).updated(),
            GridOption::READ,
        ).contains((cell, obj)),
        visited_pairs(
            (GridView { write: g.write.placed(obj, cell), ..g }).updated(),
            GridOption::WRITE,
        ).is_empty(),
{
    law_placed_object_is_found(g.write, obj, cell);
    let s = g.write.placed(obj, cell).objects_at(cell);
    assert(s[s.len() - 1] == obj);
    let e = (GridView { write: g.write.placed(obj, cell), ..g }).updated().write.pairs();
    assert(e =~= Set::empty());
}

/// Each object is reached at one cell only: in a consistent buffer no object
/// has two (object, cell) pairs, nor two (cell, object) pairs.
pub proof fn law_each_object_visited_once(v: BufferView, obj: u64, c1: u64, c2: u64)
    requires
        v.wf(),
    ensures
        v.located_pairs().contains((obj, c1)) && v.located_pairs().contains((obj, c2)) ==> c1
            == c2,
        v.pairs().contains((c1, obj)) && v.pairs().contains((c2, obj)) ==> c1 == c2,
{
    if v.pairs().contains((c1, obj)) && v.pairs().contains((c2, obj)) {
        lemma_stored_only_at_location(v, obj, c1);
        lemma_stored_only_at_location(v, obj, c2);
    }
}

} // verus!
