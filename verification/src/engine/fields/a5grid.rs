//! A5 spatial index grid for agent-based modelling.
//!
//! Objects (identified by `u64` ids) are placed in A5 cells (`u64` cell ids)
//! at a chosen resolution; neighbour queries use the A5 grid disk.  The grid
//! is double-buffered: placements go to the write buffer and become readable
//! at the next `update` or `lazy_update`.
use vstd::prelude::*;
use vstd::string::StringExecFns;

use crate::engine::fields::a5_cells::{
    a5_grid_disk, a5_resolution, disk_is_computable, grid_disk, resolution_of,
};
use crate::engine::fields::buffer::{pairs_by_cell, without, BufferView, GridBuffer};
use crate::engine::fields::decimal::{append_signed_decimal, signed_decimal};
use crate::engine::fields::field::Field;
use crate::engine::fields::grid_option::GridOption;
use crate::engine::fields::index::lists_exactly;

verus! {

/// The mathematical content of a grid.
#[verifier::ext_equal]
pub struct GridView {
    /// The buffer queries read: the state committed by the last update.
    pub read: BufferView,
    /// The buffer placements and removals go to.
    pub write: BufferView,
    /// The A5 resolution the grid was made with.
    pub resolution: i32,
}

impl GridView {
    /// Both buffers are consistent.
    pub open spec fn wf(self) -> bool {
        self.read.wf() && self.write.wf()
    }

    /// The grid after an update (eager or lazy): the writes of the step become
    /// the read state, and the write buffer starts empty.
    pub open spec fn updated(self) -> GridView {
        GridView { read: self.write, write: BufferView::empty(), resolution: self.resolution }
    }
}

/// The first element of `s`, if any.
pub open spec fn first_of(s: Seq<u64>) -> Option<u64> {
    if s.len() > 0 {
        Some(s[0])
    } else {
        None
    }
}

/// The cells of the A5 disk of radius `k` around `cell`; none where A5
/// reports an error.
pub open spec fn disk_cells(cell: u64, k: usize) -> Seq<u64> {
    match a5_grid_disk(cell, k) {
        Some(cells) => cells,
        None => Seq::empty(),
    }
}

/// The objects stored at each of `cells` in turn, in the order of `cells`.
pub open spec fn objects_in(b: BufferView, cells: Seq<u64>) -> Seq<u64>
    decreases cells.len(),
{
    if cells.len() == 0 {
        Seq::empty()
    } else {
        objects_in(b, cells.drop_last()) + b.objects_at(cells.last())
    }
}

/// `s` is a listing of `a` followed by a listing of `b`.
pub open spec fn lists_in_turn(s: Seq<(u64, u64)>, a: Set<(u64, u64)>, b: Set<(u64, u64)>) -> bool {
    exists|k: int|
        0 <= k <= s.len() && lists_exactly(#[trigger] s.take(k), a) && lists_exactly(s.skip(k), b)
}

/// The (cell, object) pairs a visit of the buffer(s) named by `option`
/// reaches: the read buffer's for `READ`, the write buffer's for `WRITE`, both
/// for `READWRITE`.
pub open spec fn visited_pairs(g: GridView, option: GridOption) -> Set<(u64, u64)> {
    match option {
        GridOption::READ => g.read.pairs(),
        GridOption::WRITE => g.write.pairs(),
        GridOption::READWRITE => g.read.pairs().union(g.write.pairs()),
    }
}

/// The text the grid displays as.
pub open spec fn display_text(resolution: i32) -> Seq<char> {
    "SparseA5Grid<resolution="@ + signed_decimal(resolution as int) + ">"@
}

/// A sparse object grid indexed by A5 cell ids, double-buffered.
pub struct SparseA5Grid {
    read: GridBuffer,
    write: GridBuffer,
    resolution: i32,
}

impl View for SparseA5Grid {
    type V = GridView;

    closed spec fn view(&self) -> GridView {
        GridView { read: self.read@, write: self.write@, resolution: self.resolution }
    }
}

/// Calls `closure` on both parts of every pair of `pairs`, in order.
fn call_on_pairs<F: Fn(&u64, &u64)>(pairs: &Vec<(u64, u64)>, closure: &F)
    requires
        forall|j: int|
            0 <= j < pairs@.len() ==> closure.requires((&(#[trigger] pairs@[j]).0, &pairs@[j].1)),
    ensures
        forall|j: int|
            0 <= j < pairs@.len() ==> closure.ensures((&(#[trigger] pairs@[j]).0, &pairs@[j].1), ()),
{
    let mut i: usize = 0;
    while i < pairs.len()
        invariant
            i <= pairs.len(),
            forall|j: int|
                0 <= j < pairs@.len() ==> closure.requires((&(#[trigger] pairs@[j]).0, &pairs@[j].1)),
            forall|j: int|
                0 <= j < i ==> closure.ensures((&(#[trigger] pairs@[j]).0, &pairs@[j].1), ()),
        decreases pairs.len() - i,
    {
        let (a, b) = pairs[i];
        closure(&a, &b);
        i = i + 1;
    }
}

impl SparseA5Grid {
    /// Creates a new, empty grid at the given resolution.
    ///
    /// The resolution should be a valid A5 resolution (0 to 30); it is kept as
    /// given.
    pub fn new(resolution: i32) -> (res: Self)
        ensures
            res@.read == BufferView::empty(),
            res@.write == BufferView::empty(),
            res@.resolution == resolution,
            res@.wf(),
    {
        SparseA5Grid { read: GridBuffer::new(), write: GridBuffer::new(), resolution }
    }

    /// The A5 resolution of this grid.
    pub fn resolution(&self) -> (res: i32)
        ensures
            res == self@.resolution,
    {
        self.resolution
    }

    /// Every (cell, object) pair of the buffer(s) that `option` names: each pair
    /// of a buffer once, cell by cell with each cell's objects in stored order,
    /// and for `READWRITE` the read buffer's pairs first.
    pub fn all_values(&self, option: GridOption) -> (res: Vec<(u64, u64)>)
        requires
            self@.wf(),
        ensures
            option == GridOption::READ ==> lists_exactly(res@, self@.read.pairs()),
            option == GridOption::WRITE ==> lists_exactly(res@, self@.write.pairs()),
            option == GridOption::READWRITE ==> lists_in_turn(
                res@,
                self@.read.pairs(),
                self@.write.pairs(),
            ),
            option == GridOption::READ ==> exists|cells: Seq<u64>|
                lists_exactly(cells, self@.read.cells.dom()) && res@ == #[trigger] pairs_by_cell(
                    self@.read,
                    cells,
                ),
            option == GridOption::WRITE ==> exists|cells: Seq<u64>|
                lists_exactly(cells, self@.write.cells.dom()) && res@ == #[trigger] pairs_by_cell(
                    self@.write,
                    cells,
                ),
            option == GridOption::READWRITE ==> exists|rc: Seq<u64>, wc: Seq<u64>|
                lists_exactly(rc, self@.read.cells.dom()) && lists_exactly(
                    wc,
                    self@.write.cells.dom(),
                ) && res@ == #[trigger] pairs_by_cell(self@.read, rc) + #[trigger] pairs_by_cell(
                    self@.write,
                    wc,
                ),
    {
        match option {
            GridOption::READ => self.read.pairs_list(),
            GridOption::WRITE => self.write.pairs_list(),
            GridOption::READWRITE => {
                let mut res = self.read.pairs_list();
                let mut w = self.write.pairs_list();
                let ghost r = res@;
                let ghost ws = w@;
                res.append(&mut w);
                proof {
                    assert(res@.take(r.len() as int) =~= r);
                    assert(res@.skip(r.len() as int) =~= ws);
                    let rc = choose|cells: Seq<u64>|
                        lists_exactly(cells, self@.read.cells.dom()) && r == #[trigger] pairs_by_cell(
                            self@.read,
                            cells,
                        );
                    let wc = choose|cells: Seq<u64>|
                        lists_exactly(cells, self@.write.cells.dom()) && ws == #[trigger] pairs_by_cell(
                            self@.write,
                            cells,
                        );
                    assert(res@ == pairs_by_cell(self@.read, rc) + pairs_by_cell(self@.write, wc));
                }
                res
            },
        }
    }

    /// Applies `closure` to every (cell, object) pair of the buffer(s) that
    /// `option` names, in the order `all_values` lists them.
    pub fn apply_to_all_values<F: Fn(&u64, &u64)>(&self, closure: F, option: GridOption)
        requires
            self@.wf(),
            forall|cell: u64, obj: u64|
                visited_pairs(self@, option).contains((cell, obj)) ==> #[trigger] closure.requires(
                    (&cell, &obj),
                ),
        ensures
            forall|p: (u64, u64)| #[trigger]
                visited_pairs(self@, option).contains(p) ==> closure.ensures((&p.0, &p.1), ()),
            option != GridOption::WRITE ==> forall|p: (u64, u64)| #[trigger]
                self@.read.pairs().contains(p) ==> closure.ensures((&p.0, &p.1), ()),
            option != GridOption::READ ==> forall|p: (u64, u64)| #[trigger]
                self@.write.pairs().contains(p) ==> closure.ensures((&p.0, &p.1), ()),
    {
        let pairs = self.all_values(option);
        proof {
            assert forall|j: int| 0 <= j < pairs@.len() implies closure.requires(
                (&(#[trigger] pairs@[j]).0, &pairs@[j].1),
            ) by {
                let p = pairs@[j];
                if option == GridOption::READWRITE {
                    let k = choose|k: int|
                        0 <= k <= pairs@.len() && lists_exactly(#[trigger] pairs@.take(k), self@.read.pairs())
                            && lists_exactly(pairs@.skip(k), self@.write.pairs());
                    if j < k {
                        assert(pairs@.take(k)[j] == p);
                        assert(pairs@.take(k).to_set().contains(p));
                    } else {
                        assert(pairs@.skip(k)[j - k] == p);
                        assert(pairs@.skip(k).to_set().contains(p));
                    }
                } else {
                    assert(pairs@.to_set().contains(p));
                }
                assert(visited_pairs(self@, option).contains((p.0, p.1)));
            }
        }
        call_on_pairs(&pairs, &closure);
        proof {
            if option == GridOption::READWRITE {
                let k = choose|k: int|
                    0 <= k <= pairs@.len() && lists_exactly(#[trigger] pairs@.take(k), self@.read.pairs())
                        && lists_exactly(pairs@.skip(k), self@.write.pairs());
                assert forall|p: (u64, u64)| #[trigger] self@.read.pairs().contains(p) implies closure.ensures(
                    (&p.0, &p.1),
                    (),
                ) by {
                    assert(pairs@.take(k).to_set().contains(p));
                    let j = choose|j: int| 0 <= j < pairs@.take(k).len() && pairs@.take(k)[j] == p;
                    assert(pairs@[j] == p);
                }
                assert forall|p: (u64, u64)| #[trigger] self@.write.pairs().contains(p) implies closure.ensures(
                    (&p.0, &p.1),
                    (),
                ) by {
                    assert(pairs@.skip(k).to_set().contains(p));
                    let j = choose|j: int| 0 <= j < pairs@.skip(k).len() && pairs@.skip(k)[j] == p;
                    assert(pairs@[k + j] == p);
                }
            } else {
                let set = if option == GridOption::READ {
                    self@.read.pairs()
                } else {
                    self@.write.pairs()
                };
                assert forall|p: (u64, u64)| #[trigger] set.contains(p) implies closure.ensures(
                    (&p.0, &p.1),
                    (),
                ) by {
                    assert(pairs@.to_set().contains(p));
                    let j = choose|j: int| 0 <= j < pairs@.len() && pairs@[j] == p;
                }
            }
        }
    }

    /// The first object placed at `cell` (read state).
    pub fn get(&self, cell: u64) -> (res: Option<u64>)
        ensures
            res == first_of(self@.read.objects_at(cell)),
    {
        match self.read.objects_ref(cell) {
            Some(v) => {
                if v.len() > 0 {
                    Some(v[0])
                } else {
                    None
                }
            },
            None => None,
        }
    }

    /// The first object placed at `cell` (write state).
    pub fn get_unbuffered(&self, cell: u64) -> (res: Option<u64>)
        ensures
            res == first_of(self@.write.objects_at(cell)),
    {
        match self.write.objects_ref(cell) {
            Some(v) => {
                if v.len() > 0 {
                    Some(v[0])
                } else {
                    None
                }
            },
            None => None,
        }
    }

    /// All objects at `cell`, in placement order (read state); `None` when
    /// there are none.
    pub fn get_objects(&self, cell: u64) -> (res: Option<Vec<u64>>)
        ensures
            match res {
                Some(v) => self@.read.objects_at(cell).len() > 0 && v@ == self@.read.objects_at(
                    cell,
                ),
                None => self@.read.objects_at(cell).len() == 0,
            },
    {
        match self.read.objects_ref(cell) {
            Some(v) => {
                if v.len() > 0 {
                    let copy = v.clone();
                    assert(copy@ =~= v@);
                    Some(copy)
                } else {
                    None
                }
            },
            None => None,
        }
    }

    /// All objects at `cell`, in placement order (write state); `None` when
    /// there are none.
    pub fn get_objects_unbuffered(&self, cell: u64) -> (res: Option<Vec<u64>>)
        ensures
            match res {
                Some(v) => self@.write.objects_at(cell).len() > 0 && v@ == self@.write.objects_at(
                    cell,
                ),
                None => self@.write.objects_at(cell).len() == 0,
            },
    {
        match self.write.objects_ref(cell) {
            Some(v) => {
                if v.len() > 0 {
                    let copy = v.clone();
                    assert(copy@ =~= v@);
                    Some(copy)
                } else {
                    None
                }
            },
            None => None,
        }
    }

    /// The cell `obj` occupies (read state).
    pub fn get_location(&self, obj: &u64) -> (res: Option<u64>)
        ensures
            res == self@.read.locations.get(*obj),
    {
        self.read.location(*obj)
    }

    /// The cell `obj` occupies (write state).
    pub fn get_location_unbuffered(&self, obj: &u64) -> (res: Option<u64>)
        ensures
            res == self@.write.locations.get(*obj),
    {
        self.write.location(*obj)
    }

    /// Every (object, cell) pair of the read state, once each.
    pub fn object_locations(&self) -> (res: Vec<(u64, u64)>)
        ensures
            lists_exactly(res@, self@.read.located_pairs()),
    {
        self.read.located_list()
    }

    /// Every (object, cell) pair of the write state, once each.
    pub fn object_locations_unbuffered(&self) -> (res: Vec<(u64, u64)>)
        ensures
            lists_exactly(res@, self@.write.located_pairs()),
    {
        self.write.located_list()
    }

    /// Applies `closure` to every (object, cell) pair of the read state, in
    /// the order `object_locations` lists them.
    pub fn iter_objects<F: Fn(&u64, &u64)>(&self, closure: F)
        requires
            forall|obj: u64, cell: u64|
                self@.read.located_pairs().contains((obj, cell)) ==> #[trigger] closure.requires(
                    (&obj, &cell),
                ),
        ensures
            forall|p: (u64, u64)| #[trigger]
                self@.read.located_pairs().contains(p) ==> closure.ensures((&p.0, &p.1), ()),
    {
        let pairs = self.object_locations();
        proof {
            assert forall|j: int| 0 <= j < pairs@.len() implies closure.requires(
                (&(#[trigger] pairs@[j]).0, &pairs@[j].1),
            ) by {
                let p = pairs@[j];
                assert(pairs@.to_set().contains(p));
                assert(self@.read.located_pairs().contains((p.0, p.1)));
            }
        }
        call_on_pairs(&pairs, &closure);
        proof {
            assert forall|p: (u64, u64)| #[trigger] self@.read.located_pairs().contains(p) implies closure.ensures(
                (&p.0, &p.1),
                (),
            ) by {
                assert(pairs@.to_set().contains(p));
                let j = choose|j: int| 0 <= j < pairs@.len() && pairs@[j] == p;
            }
        }
    }

    /// Applies `closure` to every (object, cell) pair of the write state, in
    /// the order `object_locations_unbuffered` lists them.
    pub fn iter_objects_unbuffered<F: Fn(&u64, &u64)>(&self, closure: F)
        requires
            forall|obj: u64, cell: u64|
                self@.write.located_pairs().contains((obj, cell)) ==> #[trigger] closure.requires(
                    (&obj, &cell),
                ),
        ensures
            forall|p: (u64, u64)| #[trigger]
                self@.write.located_pairs().contains(p) ==> closure.ensures((&p.0, &p.1), ()),
    {
        let pairs = self.object_locations_unbuffered();
        proof {
            assert forall|j: int| 0 <= j < pairs@.len() implies closure.requires(
                (&(#[trigger] pairs@[j]).0, &pairs@[j].1),
            ) by {
                let p = pairs@[j];
                assert(pairs@.to_set().contains(p));
                assert(self@.write.located_pairs().contains((p.0, p.1)));
            }
        }
        call_on_pairs(&pairs, &closure);
        proof {
            assert forall|p: (u64, u64)| #[trigger] self@.write.located_pairs().contains(p) implies closure.ensures(
                (&p.0, &p.1),
                (),
            ) by {
                assert(pairs@.to_set().contains(p));
                let j = choose|j: int| 0 <= j < pairs@.len() && pairs@[j] == p;
            }
        }
    }

    /// Removes `obj` from the grid (write state).
    pub fn remove_object(&mut self, obj: &u64)
        requires
            old(self)@.wf(),
        ensures
            final(self)@ == (GridView { write: old(self)@.write.removed(*obj), ..old(self)@ }),
            final(self)@.wf(),
    {
        self.write.remove(*obj);
    }

    /// Places `obj` at `new_cell`, removing it from any previous cell first
    /// (write state).
    pub fn set_object_location(&mut self, obj: u64, new_cell: u64)
        requires
            old(self)@.wf(),
        ensures
            final(self)@ == (GridView {
                write: old(self)@.write.placed(obj, new_cell),
                ..old(self)@
            }),
            final(self)@.wf(),
    {
        self.write.place(obj, new_cell);
    }

    /// The number of objects in the grid (read state).
    pub fn num_objects(&self) -> (res: usize)
        ensures
            res == self@.read.locations.len(),
    {
        self.read.len()
    }

    /// The number of objects in the grid (write state).
    pub fn num_objects_unbuffered(&self) -> (res: usize)
        ensures
            res == self@.write.locations.len(),
    {
        self.write.len()
    }

    /// All cells that hold at least one object (read state), once each.
    pub fn get_occupied_cells(&self) -> (res: Vec<u64>)
        ensures
            lists_exactly(res@, self@.read.occupied()),
    {
        self.read.occupied_cells()
    }

    /// All objects of the grid (read state), once each.
    pub fn get_all_objects(&self) -> (res: Vec<u64>)
        ensures
            lists_exactly(res@, self@.read.locations.dom()),
            res@.len() == self@.read.locations.len(),
    {
        let res = self.read.objects();
        proof {
            res@.unique_seq_to_set();
        }
        res
    }

    /// The A5 grid disk of `cell` at radius `k`, as A5 returns it; empty when
    /// A5 reports an error.  For `k >= 1` the cell must decode to a resolution
    /// of at least 0: A5 does not return for the others (see `try_get_disk`).
    pub fn get_disk(&self, cell: u64, k: usize) -> (res: Vec<u64>)
        requires
            disk_is_computable(cell, k),
        ensures
            res@ == disk_cells(cell, k),
            k == 0 ==> res@ == seq![cell],
    {
        match grid_disk(cell, k) {
            Some(cells) => cells,
            None => Vec::new(),
        }
    }

    /// The cells of the disk of radius `k` around `cell`, excluding `cell`
    /// itself (empty for `k == 0`).
    pub fn get_neighbors(&self, cell: u64, k: usize) -> (res: Vec<u64>)
        requires
            disk_is_computable(cell, k),
        ensures
            res@ == without(disk_cells(cell, k), cell),
            !res@.contains(cell),
            k == 0 ==> res@.len() == 0,
    {
        let disk = self.get_disk(cell, k);
        let mut out: Vec<u64> = Vec::new();
        let mut i: usize = 0;
        proof {
            crate::engine::fields::buffer::lemma_without_empty(cell);
            assert(disk@.take(0) =~= Seq::<u64>::empty());
        }
        while i < disk.len()
            invariant
                i <= disk.len(),
                disk@ == disk_cells(cell, k),
                out@ == without(disk@.take(i as int), cell),
            decreases disk.len() - i,
        {
            let c = disk[i];
            proof {
                assert(disk@.take(i + 1) =~= disk@.take(i as int).push(c));
                crate::engine::fields::buffer::lemma_without_push(disk@.take(i as int), c, cell);
            }
            if c != cell {
                out.push(c);
            }
            i = i + 1;
        }
        proof {
            assert(disk@.take(disk.len() as int) =~= disk@);
            crate::engine::fields::buffer::lemma_without_contains(disk@, cell, cell);
            if k == 0 {
                assert(disk@ =~= Seq::<u64>::empty().push(cell));
                crate::engine::fields::buffer::lemma_without_push(Seq::<u64>::empty(), cell, cell);
            }
        }
        out
    }

    /// All objects in the cells within distance `k` of `cell`, excluding
    /// `cell` itself (read state), neighbour by neighbour.
    pub fn get_neighbor_objects(&self, cell: u64, k: usize) -> (res: Vec<u64>)
        requires
            disk_is_computable(cell, k),
        ensures
            res@ == objects_in(self@.read, without(disk_cells(cell, k), cell)),
    {
        let neighbors = self.get_neighbors(cell, k);
        let mut result: Vec<u64> = Vec::new();
        let mut i: usize = 0;
        proof {
            assert(neighbors@.take(0) =~= Seq::<u64>::empty());
        }
        while i < neighbors.len()
            invariant
                i <= neighbors.len(),
                result@ == objects_in(self@.read, neighbors@.take(i as int)),
            decreases neighbors.len() - i,
        {
            let n = neighbors[i];
            match self.read.objects_ref(n) {
                Some(v) => {
                    let mut copy = v.clone();
                    assert(copy@ =~= v@);
                    result.append(&mut copy);
                },
                None => {},
            }
            proof {
                let t = neighbors@.take(i + 1);
                assert(t.drop_last() =~= neighbors@.take(i as int));
                assert(t.last() == n);
                assert(result@ =~= objects_in(self@.read, t));
            }
            i = i + 1;
        }
        proof {
            assert(neighbors@.take(neighbors.len() as int) =~= neighbors@);
        }
        result
    }

    /// `get_disk` where A5 can compute the disk; `None` for a cell of
    /// resolution -1 with `k >= 1`, on which A5 does not return.
    pub fn try_get_disk(&self, cell: u64, k: usize) -> (res: Option<Vec<u64>>)
        ensures
            res is Some <==> disk_is_computable(cell, k),
            res matches Some(v) ==> v@ == disk_cells(cell, k),
    {
        if k == 0 || resolution_of(cell) >= 0 {
            Some(self.get_disk(cell, k))
        } else {
            None
        }
    }

    /// `get_neighbors` where A5 can compute the disk; `None` for a cell of
    /// resolution -1 with `k >= 1`, on which A5 does not return.
    pub fn try_get_neighbors(&self, cell: u64, k: usize) -> (res: Option<Vec<u64>>)
        ensures
            res is Some <==> disk_is_computable(cell, k),
            res matches Some(v) ==> v@ == without(disk_cells(cell, k), cell),
    {
        if k == 0 || resolution_of(cell) >= 0 {
            Some(self.get_neighbors(cell, k))
        } else {
            None
        }
    }

    /// `get_neighbor_objects` where A5 can compute the disk; `None` for a cell
    /// of resolution -1 with `k >= 1`, on which A5 does not return.
    pub fn try_get_neighbor_objects(&self, cell: u64, k: usize) -> (res: Option<Vec<u64>>)
        ensures
            res is Some <==> disk_is_computable(cell, k),
            res matches Some(v) ==> v@ == objects_in(self@.read, without(disk_cells(cell, k), cell)),
    {
        if k == 0 || resolution_of(cell) >= 0 {
            Some(self.get_neighbor_objects(cell, k))
        } else {
            None
        }
    }

    /// The resolution stored in a cell id.
    pub fn cell_resolution(cell: u64) -> (res: i32)
        ensures
            res == a5_resolution(cell),
            -1 <= res <= 30,
    {
        resolution_of(cell)
    }

    /// The text the grid displays as: `SparseA5Grid<resolution=N>`.
    pub fn to_display_string(&self) -> (res: String)
        ensures
            res@ == display_text(self@.resolution),
    {
        let mut s = String::from_str("SparseA5Grid<resolution=");
        append_signed_decimal(&mut s, self.resolution);
        s.append(">");
        s
    }
}

impl Field for SparseA5Grid {
    /// Swaps the read and write buffers and empties the new write buffer.
    fn lazy_update(&mut self)
        ensures
            final(self)@ == old(self)@.updated(),
            old(self)@.wf() ==> final(self)@.wf(),
    {
        std::mem::swap(&mut self.read, &mut self.write);
        self.write.clear();
    }

    /// Copies the write buffer into the read buffer and empties the write
    /// buffer: objects must be placed again every step, or they disappear at
    /// the next update.
    fn update(&mut self)
        ensures
            final(self)@ == old(self)@.updated(),
            old(self)@.wf() ==> final(self)@.wf(),
    {
        self.read.copy_from(&self.write);
        self.write.clear();
    }
}

} // verus!
