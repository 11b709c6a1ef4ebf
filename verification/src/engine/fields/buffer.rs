//! One buffer of a sparse A5 grid: where each object is, and which objects
//! each cell holds, kept consistent with each other.
use vstd::prelude::*;

use crate::engine::fields::index::{
    cell_object_entries, lists_exactly, object_cell_entries, CellObjectIndex, ObjectCellIndex,
};

verus! {

broadcast use vstd::seq_lib::group_seq_properties;

/// `s` with every occurrence of `obj` taken out, the rest in order.
pub open spec fn without(s: Seq<u64>, obj: u64) -> Seq<u64> {
    s.filter(other_than(obj))
}

/// Holds of every object but `obj`.
pub open spec fn other_than(obj: u64) -> spec_fn(u64) -> bool {
    |x: u64| x != obj
}

/// The mathematical content of a buffer.
#[verifier::ext_equal]
pub struct BufferView {
    /// Object id to the cell it occupies.
    pub locations: Map<u64, u64>,
    /// Cell id to the objects stored there, oldest placement first.  A cell
    /// that has been emptied keeps its (empty) entry.
    pub cells: Map<u64, Seq<u64>>,
}

impl BufferView {
    /// The buffer with nothing in it.
    pub open spec fn empty() -> BufferView {
        BufferView { locations: Map::empty(), cells: Map::empty() }
    }

    /// The two maps describe the same placement: every located object is
    /// stored in its cell and nowhere else, every stored object is located at
    /// the cell that stores it, and no cell lists an object twice.
    pub open spec fn wf(self) -> bool {
        &&& forall|obj: u64| #[trigger]
            self.locations.contains_key(obj) ==> {
                &&& self.cells.contains_key(self.locations[obj])
                &&& self.cells[self.locations[obj]].contains(obj)
            }
        &&& forall|cell: u64, i: int|
            #![trigger self.cells[cell][i]]
            self.cells.contains_key(cell) && 0 <= i < self.cells[cell].len() ==> {
                &&& self.locations.contains_key(self.cells[cell][i])
                &&& self.locations[self.cells[cell][i]] == cell
            }
        &&& forall|cell: u64| #[trigger]
            self.cells.contains_key(cell) ==> self.cells[cell].no_duplicates()
    }

    /// The objects stored at `cell` (none when the cell has no entry).
    pub open spec fn objects_at(self, cell: u64) -> Seq<u64> {
        if self.cells.contains_key(cell) {
            self.cells[cell]
        } else {
            Seq::empty()
        }
    }

    /// The buffer after `obj` is taken off the grid: it has no location any
    /// more and leaves every cell; every cell keeps its entry.
    pub open spec fn removed(self, obj: u64) -> BufferView {
        BufferView {
            locations: self.locations.remove(obj),
            cells: Map::new(
                |c: u64| self.cells.contains_key(c),
                |c: u64| without(self.cells[c], obj),
            ),
        }
    }

    /// The buffer after `obj` is placed at `cell`: it is located there, it
    /// leaves every cell it was in, and it is appended to the objects of `cell`.
    pub open spec fn placed(self, obj: u64, cell: u64) -> BufferView {
        BufferView {
            locations: self.locations.insert(obj, cell),
            cells: Map::new(
                |c: u64| self.cells.contains_key(c) || c == cell,
                |c: u64|
                    if c == cell {
                        without(self.objects_at(c), obj).push(obj)
                    } else {
                        without(self.cells[c], obj)
                    },
            ),
        }
    }

    /// Every (cell, object) pair in which the cell stores the object.
    pub open spec fn pairs(self) -> Set<(u64, u64)> {
        Set::new(|p: (u64, u64)| self.cells.contains_key(p.0) && self.cells[p.0].contains(p.1))
    }

    /// Every (object, cell) pair in which the object is located at the cell.
    pub open spec fn located_pairs(self) -> Set<(u64, u64)> {
        Set::new(
            |p: (u64, u64)| self.locations.contains_key(p.0) && self.locations[p.0] == p.1,
        )
    }

    /// The cells that store at least one object.
    pub open spec fn occupied(self) -> Set<u64> {
        Set::new(|c: u64| self.cells.contains_key(c) && self.cells[c].len() > 0)
    }
}

/// Each object of `objs` paired with `cell`, in order.
pub open spec fn tagged(cell: u64, objs: Seq<u64>) -> Seq<(u64, u64)> {
    objs.map_values(|o: u64| (cell, o))
}

/// The (cell, object) pairs of `v`, cell by cell in the order of `cells`,
/// each cell's objects in the order they are stored.
pub open spec fn pairs_by_cell(v: BufferView, cells: Seq<u64>) -> Seq<(u64, u64)>
    decreases cells.len(),
{
    if cells.len() == 0 {
        Seq::empty()
    } else {
        pairs_by_cell(v, cells.drop_last()) + tagged(cells.last(), v.objects_at(cells.last()))
    }
}

/// Taking out an element that is not there changes nothing.
pub proof fn lemma_without_absent(s: Seq<u64>, obj: u64)
    requires
        !s.contains(obj),
    ensures
        without(s, obj) == s,
    decreases s.len(),
{
    reveal(Seq::filter);
    if s.len() > 0 {
        let rest = s.drop_last();
        assert(!rest.contains(obj)) by {
            if rest.contains(obj) {
                let i = choose|i: int| 0 <= i < rest.len() && rest[i] == obj;
                assert(s[i] == obj);
            }
        }
        lemma_without_absent(rest, obj);
        assert(s.last() != obj) by {
            assert(s[s.len() - 1] == s.last());
        }
        assert(rest.push(s.last()) =~= s);
    }
}

/// What is left after taking `obj` out: exactly the other elements.
pub proof fn lemma_without_contains(s: Seq<u64>, obj: u64, x: u64)
    ensures
        without(s, obj).contains(x) <==> (s.contains(x) && x != obj),
{
    broadcast use vstd::seq_lib::group_filter_ensures;

    let pred = other_than(obj);
    if without(s, obj).contains(x) {
        s.lemma_filter_contains_rev(pred, x);
        let i = choose|i: int| 0 <= i < without(s, obj).len() && without(s, obj)[i] == x;
        assert(pred(s.filter(pred)[i]));
    }
    if s.contains(x) && x != obj {
        let i = choose|i: int| 0 <= i < s.len() && s[i] == x;
        assert(s.filter(pred).contains(s[i]));
    }
}

/// Taking an element out of a sequence without repetitions leaves none.
pub proof fn lemma_without_no_duplicates(s: Seq<u64>, obj: u64)
    requires
        s.no_duplicates(),
    ensures
        without(s, obj).no_duplicates(),
    decreases s.len(),
{
    reveal(Seq::filter);
    if s.len() > 0 {
        let rest = s.drop_last();
        assert(rest.no_duplicates());
        lemma_without_no_duplicates(rest, obj);
        if s.last() != obj {
            assert(!rest.contains(s.last())) by {
                if rest.contains(s.last()) {
                    let i = choose|i: int| 0 <= i < rest.len() && rest[i] == s.last();
                    assert(s[i] == s[s.len() - 1]);
                }
            }
            lemma_without_contains(rest, obj, s.last());
        }
    }
}

/// Appending keeps the filter step by step.
pub proof fn lemma_without_push(s: Seq<u64>, x: u64, obj: u64)
    ensures
        without(s.push(x), obj) == if x != obj {
            without(s, obj).push(x)
        } else {
            without(s, obj)
        },
{
    s.lemma_filter_push(x, other_than(obj));
}

/// The empty sequence stays empty.
pub proof fn lemma_without_empty(obj: u64)
    ensures
        without(Seq::empty(), obj) == Seq::<u64>::empty(),
{
    reveal(Seq::filter);
}

/// An object in a consistent buffer is stored only at its own cell.
pub proof fn lemma_stored_only_at_location(v: BufferView, obj: u64, cell: u64)
    requires
        v.wf(),
        v.cells.contains_key(cell),
        v.cells[cell].contains(obj),
    ensures
        v.locations.contains_key(obj),
        v.locations[obj] == cell,
{
    let i = choose|i: int| 0 <= i < v.cells[cell].len() && v.cells[cell][i] == obj;
    assert(v.locations.contains_key(v.cells[cell][i]));
}

/// Removing an object keeps a buffer consistent.
pub proof fn lemma_removed_wf(v: BufferView, obj: u64)
    requires
        v.wf(),
    ensures
        v.removed(obj).wf(),
{
    let r = v.removed(obj);
    assert forall|o: u64| #[trigger] r.locations.contains_key(o) implies {
        &&& r.cells.contains_key(r.locations[o])
        &&& r.cells[r.locations[o]].contains(o)
    } by {
        lemma_without_contains(v.cells[v.locations[o]], obj, o);
    }
    assert forall|cell: u64, i: int|
        r.cells.contains_key(cell) && 0 <= i < r.cells[cell].len() implies {
        &&& r.locations.contains_key(#[trigger] r.cells[cell][i])
        &&& r.locations[r.cells[cell][i]] == cell
    } by {
        let x = r.cells[cell][i];
        assert(r.cells[cell].contains(x));
        lemma_without_contains(v.cells[cell], obj, x);
        lemma_stored_only_at_location(v, x, cell);
    }
    assert forall|cell: u64| #[trigger] r.cells.contains_key(cell) implies r.cells[
        cell
    ].no_duplicates() by {
        lemma_without_no_duplicates(v.cells[cell], obj);
    }
}

/// Placing an object keeps a buffer consistent.
pub proof fn lemma_placed_wf(v: BufferView, obj: u64, cell: u64)
    requires
        v.wf(),
    ensures
        v.placed(obj, cell).wf(),
{
    let p = v.placed(obj, cell);
    let base = without(v.objects_at(cell), obj);
    assert(p.cells[cell] == base.push(obj));
    assert forall|c: u64| #[trigger] p.cells.contains_key(c) && c != cell implies forall|x: u64|
        p.cells[c].contains(x) <==> (v.cells[c].contains(x) && x != obj) by {
        assert forall|x: u64| p.cells[c].contains(x) <==> (v.cells[c].contains(x) && x != obj) by {
            lemma_without_contains(v.cells[c], obj, x);
        }
    }
    assert forall|x: u64| p.cells[cell].contains(x) <==> (v.objects_at(cell).contains(x) && x
        != obj) || x == obj by {
        lemma_without_contains(v.objects_at(cell), obj, x);
        if x != obj {
            if p.cells[cell].contains(x) {
                let i = choose|i: int| 0 <= i < p.cells[cell].len() && p.cells[cell][i] == x;
                assert(i < base.len());
                assert(base[i] == x);
            }
            if base.contains(x) {
                let i = choose|i: int| 0 <= i < base.len() && base[i] == x;
                assert(p.cells[cell][i] == x);
            }
        } else {
            assert(p.cells[cell][base.len() as int] == obj);
        }
    }
    assert forall|o: u64| #[trigger] p.locations.contains_key(o) implies {
        &&& p.cells.contains_key(p.locations[o])
        &&& p.cells[p.locations[o]].contains(o)
    } by {
        if o != obj {
            let c = v.locations[o];
            assert(v.cells[c].contains(o));
            lemma_without_contains(v.objects_at(c), obj, o);
            if c == cell {
                let i = choose|i: int| 0 <= i < base.len() && base[i] == o;
                assert(p.cells[cell][i] == o);
            }
        } else {
            assert(p.cells[cell][base.len() as int] == obj);
        }
    }
    assert forall|c: u64, i: int| p.cells.contains_key(c) && 0 <= i < p.cells[c].len() implies {
        &&& p.locations.contains_key(#[trigger] p.cells[c][i])
        &&& p.locations[p.cells[c][i]] == c
    } by {
        let x = p.cells[c][i];
        assert(p.cells[c].contains(x));
        if x != obj {
            if c == cell {
                assert(v.objects_at(cell).contains(x));
                lemma_stored_only_at_location(v, x, cell);
            } else {
                assert(v.cells[c].contains(x));
                lemma_stored_only_at_location(v, x, c);
            }
        } else if c != cell {
            assert(false);
        }
    }
    assert forall|c: u64| #[trigger] p.cells.contains_key(c) implies p.cells[c].no_duplicates() by {
        if c == cell {
            if v.cells.contains_key(cell) {
                lemma_without_no_duplicates(v.cells[cell], obj);
            } else {
                lemma_without_empty(obj);
            }
            assert(!base.contains(obj)) by {
                lemma_without_contains(v.objects_at(cell), obj, obj);
            }
            assert forall|i: int, j: int|
                0 <= i < p.cells[c].len() && 0 <= j < p.cells[c].len() && i != j implies p.cells[
                c
            ][i] != p.cells[c][j] by {
                if i < base.len() && j < base.len() {
                    assert(base[i] != base[j]);
                } else if i < base.len() {
                    assert(base.contains(base[i]));
                } else if j < base.len() {
                    assert(base.contains(base[j]));
                }
            }
        } else {
            lemma_without_no_duplicates(v.cells[c], obj);
        }
    }
}

/// Appending a new element keeps a sequence free of repetitions.
pub proof fn lemma_push_no_duplicates<A>(s: Seq<A>, x: A)
    requires
        s.no_duplicates(),
        !s.contains(x),
    ensures
        s.push(x).no_duplicates(),
{
    assert forall|i: int, j: int|
        0 <= i < s.push(x).len() && 0 <= j < s.push(x).len() && i != j implies s.push(x)[i]
        != s.push(x)[j] by {
        if i < s.len() && j < s.len() {
        } else if i < s.len() {
            assert(s.contains(s[i]));
        } else {
            assert(s.contains(s[j]));
        }
    }
}

/// The prefix of length `i + 1` is the prefix of length `i` followed by `s[i]`;
/// in a sequence without repetitions `s[i]` is not in the shorter prefix.
pub proof fn lemma_prefix_step<A>(s: Seq<A>, i: int)
    requires
        0 <= i < s.len(),
    ensures
        s.take(i + 1) == s.take(i).push(s[i]),
        forall|x: A| #[trigger] s.take(i + 1).contains(x) <==> (s.take(i).contains(x) || x == s[i]),
        s.no_duplicates() ==> !s.take(i).contains(s[i]),
{
    assert(s.take(i + 1) =~= s.take(i).push(s[i]));
    assert forall|x: A| #[trigger] s.take(i + 1).contains(x) <==> (s.take(i).contains(x) || x
        == s[i]) by {
        if s.take(i + 1).contains(x) {
            let t = s.take(i + 1);
            let j = choose|j: int| 0 <= j < t.len() && t[j] == x;
            if j < i {
                assert(s.take(i)[j] == x);
            }
        }
        if s.take(i).contains(x) {
            let t = s.take(i);
            let j = choose|j: int| 0 <= j < t.len() && t[j] == x;
            assert(s.take(i + 1)[j] == x);
        }
        if x == s[i] {
            assert(s.take(i + 1)[i] == x);
        }
    }
    if s.no_duplicates() && s.take(i).contains(s[i]) {
        let t = s.take(i);
        let j = choose|j: int| 0 <= j < t.len() && t[j] == s[i];
        assert(s[j] == s[i]);
    }
}

/// The whole prefix is the sequence.
pub proof fn lemma_full_prefix<A>(s: Seq<A>)
    ensures
        s.take(s.len() as int) == s,
        s.take(0) == Seq::<A>::empty(),
{
    assert(s.take(s.len() as int) =~= s);
    assert(s.take(0) =~= Seq::<A>::empty());
}

/// Takes every occurrence of `obj` out of `v`, keeping the rest in order.
fn retain_other(v: &mut Vec<u64>, obj: u64)
    ensures
        final(v)@ == without(old(v)@, obj),
{
    let mut kept: Vec<u64> = Vec::new();
    let mut i: usize = 0;
    proof {
        lemma_without_empty(obj);
        assert(v@.take(0) =~= Seq::<u64>::empty());
    }
    while i < v.len()
        invariant
            i <= v.len(),
            v@ == old(v)@,
            kept@ == without(v@.take(i as int), obj),
        decreases v.len() - i,
    {
        let x = v[i];
        proof {
            assert(v@.take(i + 1) =~= v@.take(i as int).push(x));
            lemma_without_push(v@.take(i as int), x, obj);
        }
        if x != obj {
            kept.push(x);
        }
        i = i + 1;
    }
    proof {
        assert(v@.take(v.len() as int) =~= v@);
    }
    *v = kept;
}

/// One buffer of a grid: an object index and a cell index.
pub struct GridBuffer {
    obj2cell: ObjectCellIndex,
    cell2objs: CellObjectIndex,
}

impl View for GridBuffer {
    type V = BufferView;

    closed spec fn view(&self) -> BufferView {
        BufferView { locations: self.obj2cell@, cells: self.cell2objs@ }
    }
}

impl GridBuffer {
    /// An empty buffer.
    pub fn new() -> (res: Self)
        ensures
            res@ == BufferView::empty(),
            res@.wf(),
    {
        let res = GridBuffer { obj2cell: ObjectCellIndex::new(), cell2objs: CellObjectIndex::new() };
        assert(res@.locations =~= Map::empty());
        assert(res@.cells =~= Map::empty());
        res
    }

    /// Empties both indexes.
    pub fn clear(&mut self)
        ensures
            final(self)@ == BufferView::empty(),
            final(self)@.wf(),
    {
        self.obj2cell.clear();
        self.cell2objs.clear();
        assert(self@.locations =~= Map::empty());
        assert(self@.cells =~= Map::empty());
    }

    /// The cell `obj` is located at.
    pub fn location(&self, obj: u64) -> (res: Option<u64>)
        ensures
            res == self@.locations.get(obj),
    {
        self.obj2cell.get(obj)
    }

    /// The objects stored at `cell`, if the cell has an entry.
    pub fn objects_ref(&self, cell: u64) -> (res: Option<&Vec<u64>>)
        ensures
            match res {
                Some(v) => self@.cells.contains_key(cell) && v@ == self@.cells[cell],
                None => !self@.cells.contains_key(cell),
            },
    {
        self.cell2objs.get(cell)
    }

    /// The number of located objects.
    pub fn len(&self) -> (res: usize)
        ensures
            res == self@.locations.len(),
    {
        self.obj2cell.len()
    }

    /// Takes `obj` off the grid.
    pub fn remove(&mut self, obj: u64)
        requires
            old(self)@.wf(),
        ensures
            final(self)@ == old(self)@.removed(obj),
            final(self)@.wf(),
    {
        let ghost pre = self@;
        match self.obj2cell.remove(obj) {
            Some(old_cell) => {
                match self.cell2objs.get_mut(old_cell) {
                    Some(v) => {
                        retain_other(v, obj);
                    },
                    None => {},
                }
                proof {
                    assert(pre.locations.contains_key(obj));
                    assert(pre.cells.contains_key(old_cell));
                    assert forall|c: u64| #[trigger] pre.cells.contains_key(c) && c != old_cell
                        implies without(pre.cells[c], obj) == pre.cells[c] by {
                        if pre.cells[c].contains(obj) {
                            lemma_stored_only_at_location(pre, obj, c);
                        }
                        lemma_without_absent(pre.cells[c], obj);
                    }
                }
            },
            None => {
                proof {
                    assert forall|c: u64| #[trigger] pre.cells.contains_key(c) implies without(
                        pre.cells[c],
                        obj,
                    ) == pre.cells[c] by {
                        if pre.cells[c].contains(obj) {
                            lemma_stored_only_at_location(pre, obj, c);
                        }
                        lemma_without_absent(pre.cells[c], obj);
                    }
                }
            },
        }
        proof {
            assert(self@.locations =~= pre.removed(obj).locations);
            assert(self@.cells =~= pre.removed(obj).cells);
            lemma_removed_wf(pre, obj);
        }
    }

    /// Places `obj` at `cell`, taking it out of the cell it was in first.
    pub fn place(&mut self, obj: u64, cell: u64)
        requires
            old(self)@.wf(),
        ensures
            final(self)@ == old(self)@.placed(obj, cell),
            final(self)@.wf(),
    {
        let ghost pre = self@;
        self.remove(obj);
        self.obj2cell.insert(obj, cell);
        match self.cell2objs.get_mut(cell) {
            Some(v) => {
                v.push(obj);
            },
            None => {
                let mut v: Vec<u64> = Vec::new();
                v.push(obj);
                self.cell2objs.insert(cell, v);
            },
        }
        proof {
            let post = pre.placed(obj, cell);
            lemma_without_empty(obj);
            assert(self@.locations =~= post.locations);
            assert forall|c: u64| #[trigger] post.cells.contains_key(c) implies self@.cells.contains_key(c)
                && self@.cells[c] == post.cells[c] by {
                if c == cell && !pre.cells.contains_key(cell) {
                    assert(self@.cells[c] =~= seq![obj]);
                    assert(post.cells[c] =~= Seq::<u64>::empty().push(obj));
                }
            }
            assert(self@.cells =~= post.cells);
            lemma_placed_wf(pre, obj, cell);
        }
    }

    /// Makes this buffer a copy of `other`.
    pub fn copy_from(&mut self, other: &GridBuffer)
        ensures
            final(self)@ == other@,
    {
        self.obj2cell.clear();
        let keys = other.obj2cell.keys();
        let mut i: usize = 0;
        proof {
            lemma_full_prefix(keys@);
            assert(self.obj2cell@ =~= Map::new(
                |k: u64| keys@.take(0).contains(k),
                |k: u64| other@.locations[k],
            ));
        }
        while i < keys.len()
            invariant
                i <= keys.len(),
                lists_exactly(keys@, other@.locations.dom()),
                self.obj2cell@ == Map::new(
                    |k: u64| keys@.take(i as int).contains(k),
                    |k: u64| other@.locations[k],
                ),
            decreases keys.len() - i,
        {
            let k = keys[i];
            proof {
                lemma_prefix_step(keys@, i as int);
                assert(keys@.to_set().contains(k));
            }
            match other.obj2cell.get(k) {
                Some(c) => {
                    self.obj2cell.insert(k, c);
                },
                None => {},
            }
            i = i + 1;
            proof {
                assert(self.obj2cell@ =~= Map::new(
                    |k: u64| keys@.take(i as int).contains(k),
                    |k: u64| other@.locations[k],
                ));
            }
        }
        proof {
            lemma_full_prefix(keys@);
            assert(self.obj2cell@ =~= other@.locations);
        }
        self.cell2objs.clear();
        let cells = other.cell2objs.keys();
        let mut j: usize = 0;
        proof {
            lemma_full_prefix(cells@);
            assert(self.cell2objs@ =~= Map::new(
                |k: u64| cells@.take(0).contains(k),
                |k: u64| other@.cells[k],
            ));
        }
        while j < cells.len()
            invariant
                j <= cells.len(),
                lists_exactly(cells@, other@.cells.dom()),
                self.obj2cell@ == other@.locations,
                self.cell2objs@ == Map::new(
                    |k: u64| cells@.take(j as int).contains(k),
                    |k: u64| other@.cells[k],
                ),
            decreases cells.len() - j,
        {
            let k = cells[j];
            proof {
                lemma_prefix_step(cells@, j as int);
                assert(cells@.to_set().contains(k));
            }
            match other.cell2objs.get(k) {
                Some(v) => {
                    let copy = v.clone();
                    assert(copy@ =~= v@);
                    self.cell2objs.insert(k, copy);
                },
                None => {},
            }
            j = j + 1;
            proof {
                assert(self.cell2objs@ =~= Map::new(
                    |k: u64| cells@.take(j as int).contains(k),
                    |k: u64| other@.cells[k],
                ));
            }
        }
        proof {
            lemma_full_prefix(cells@);
            assert(self.cell2objs@ =~= other@.cells);
        }
    }

    /// Every located object, once each.
    pub fn objects(&self) -> (res: Vec<u64>)
        ensures
            lists_exactly(res@, self@.locations.dom()),
    {
        self.obj2cell.keys()
    }

    /// Every cell that stores at least one object, once each.
    pub fn occupied_cells(&self) -> (res: Vec<u64>)
        ensures
            lists_exactly(res@, self@.occupied()),
    {
        let keys = self.cell2objs.keys();
        let mut out: Vec<u64> = Vec::new();
        let mut i: usize = 0;
        proof {
            lemma_full_prefix(keys@);
        }
        while i < keys.len()
            invariant
                i <= keys.len(),
                lists_exactly(keys@, self@.cells.dom()),
                out@.no_duplicates(),
                forall|c: u64| #[trigger]
                    out@.contains(c) <==> (keys@.take(i as int).contains(c) && self@.occupied().contains(c)),
            decreases keys.len() - i,
        {
            let k = keys[i];
            proof {
                lemma_prefix_step(keys@, i as int);
                assert(keys@.to_set().contains(k));
            }
            match self.cell2objs.get(k) {
                Some(v) => {
                    if v.len() > 0 {
                        proof {
                            lemma_push_no_duplicates(out@, k);
                        }
                        out.push(k);
                    }
                },
                None => {},
            }
            i = i + 1;
        }
        proof {
            lemma_full_prefix(keys@);
            assert(out@.to_set() =~= self@.occupied());
        }
        out
    }

    /// Every (cell, object) pair of the buffer, once each.
    pub fn pairs_list(&self) -> (res: Vec<(u64, u64)>)
        requires
            self@.wf(),
        ensures
            lists_exactly(res@, self@.pairs()),
            exists|cells: Seq<u64>|
                lists_exactly(cells, self@.cells.dom()) && res@ == #[trigger] pairs_by_cell(
                    self@,
                    cells,
                ),
    {
        let keys = self.cell2objs.keys();
        let mut out: Vec<(u64, u64)> = Vec::new();
        let mut i: usize = 0;
        proof {
            lemma_full_prefix(keys@);
        }
        while i < keys.len()
            invariant
                i <= keys.len(),
                self@.wf(),
                lists_exactly(keys@, self@.cells.dom()),
                out@.no_duplicates(),
                forall|p: (u64, u64)| #[trigger]
                    out@.contains(p) <==> (keys@.take(i as int).contains(p.0) && self@.pairs().contains(p)),
                out@ == pairs_by_cell(self@, keys@.take(i as int)),
            decreases keys.len() - i,
        {
            let k = keys[i];
            proof {
                lemma_prefix_step(keys@, i as int);
                assert(keys@.to_set().contains(k));
            }
            match self.cell2objs.get(k) {
                Some(v) => {
                    let ghost before = out@;
                    let mut j: usize = 0;
                    proof {
                        lemma_full_prefix(v@);
                    }
                    while j < v.len()
                        invariant
                            j <= v.len(),
                            v@ == self@.cells[k],
                            v@.no_duplicates(),
                            !keys@.take(i as int).contains(k),
                            before.no_duplicates(),
                            forall|p: (u64, u64)| #[trigger]
                                before.contains(p) ==> p.0 != k,
                            out@.no_duplicates(),
                            forall|p: (u64, u64)| #[trigger]
                                out@.contains(p) <==> (before.contains(p) || (p.0 == k
                                    && v@.take(j as int).contains(p.1))),
                            out@ == before + tagged(k, v@.take(j as int)),
                        decreases v.len() - j,
                    {
                        let o = v[j];
                        proof {
                            lemma_prefix_step(v@, j as int);
                            lemma_push_no_duplicates(out@, (k, o));
                            assert(tagged(k, v@.take(j + 1)) =~= tagged(k, v@.take(j as int)).push((k, o)));
                        }
                        out.push((k, o));
                        j = j + 1;
                    }
                    proof {
                        lemma_full_prefix(v@);
                        let t = keys@.take(i + 1);
                        assert(t.drop_last() =~= keys@.take(i as int));
                        assert(t.last() == k);
                        assert(v@.take(v.len() as int) == v@);
                        assert(out@ =~= pairs_by_cell(self@, t));
                        assert forall|p: (u64, u64)| #[trigger]
                            out@.contains(p) <==> (keys@.take(i + 1).contains(p.0)
                                && self@.pairs().contains(p)) by {
                            if p.0 == k {
                                assert(v@.take(v.len() as int) == v@);
                            }
                        }
                    }
                },
                None => {},
            }
            i = i + 1;
        }
        proof {
            lemma_full_prefix(keys@);
            assert(out@.to_set() =~= self@.pairs());
            assert(out@ == pairs_by_cell(self@, keys@));
        }
        out
    }

    /// Every (object, cell) pair of the buffer's locations, once each.
    pub fn located_list(&self) -> (res: Vec<(u64, u64)>)
        ensures
            lists_exactly(res@, self@.located_pairs()),
    {
        let keys = self.obj2cell.keys();
        let mut out: Vec<(u64, u64)> = Vec::new();
        let mut i: usize = 0;
        proof {
            lemma_full_prefix(keys@);
        }
        while i < keys.len()
            invariant
                i <= keys.len(),
                lists_exactly(keys@, self@.locations.dom()),
                out@.no_duplicates(),
                forall|p: (u64, u64)| #[trigger]
                    out@.contains(p) <==> (keys@.take(i as int).contains(p.0)
                        && self@.located_pairs().contains(p)),
            decreases keys.len() - i,
        {
            let k = keys[i];
            proof {
                lemma_prefix_step(keys@, i as int);
                assert(keys@.to_set().contains(k));
            }
            match self.obj2cell.get(k) {
                Some(c) => {
                    proof {
                        lemma_push_no_duplicates(out@, (k, c));
                    }
                    out.push((k, c));
                },
                None => {},
            }
            i = i + 1;
        }
        proof {
            lemma_full_prefix(keys@);
            assert(out@.to_set() =~= self@.located_pairs());
        }
        out
    }
}

} // verus!
