//! The two hash indexes a grid buffer is made of, each a `hashbrown::HashMap`
//! held behind a small set of trusted wrappers.
//!
//! Verus sees neither map: what each one holds is the name
//! `object_cell_entries` / `cell_object_entries`, and every wrapper states over
//! that name what the `hashbrown` method does to the contents and returns.
//! Allocation failure (which aborts the process in `hashbrown`) is not
//! modelled.
use vstd::prelude::*;

verus! {

/// Map from an object id to the id of the A5 cell it occupies.
#[verifier::external_body]
pub struct ObjectCellIndex {
    map: hashbrown::HashMap<u64, u64>,
}

/// What an object index holds: object id to cell id.
pub uninterp spec fn object_cell_entries(index: ObjectCellIndex) -> Map<u64, u64>;

/// Map from an A5 cell id to the objects placed in it, in placement order.
#[verifier::external_body]
pub struct CellObjectIndex {
    map: hashbrown::HashMap<u64, Vec<u64>>,
}

/// What a cell index holds: cell id to the sequence of objects stored there.
pub uninterp spec fn cell_object_entries(index: CellObjectIndex) -> Map<u64, Seq<u64>>;

impl View for ObjectCellIndex {
    type V = Map<u64, u64>;

    open spec fn view(&self) -> Map<u64, u64> {
        object_cell_entries(*self)
    }
}

impl View for CellObjectIndex {
    type V = Map<u64, Seq<u64>>;

    open spec fn view(&self) -> Map<u64, Seq<u64>> {
        cell_object_entries(*self)
    }
}

/// The sequence lists every element of `set` exactly once.
pub open spec fn lists_exactly<A>(s: Seq<A>, set: Set<A>) -> bool {
    &&& s.no_duplicates()
    &&& s.to_set() == set
}

impl ObjectCellIndex {
    /// `hashbrown::HashMap::new`: an empty map.
    #[verifier::external_body]
    pub(crate) fn new() -> (res: Self)
        ensures
            object_cell_entries(res).dom().is_empty(),
    {
        ObjectCellIndex { map: hashbrown::HashMap::new() }
    }

    /// `hashbrown::HashMap::get`, copied out: the value stored under `obj`, if any.
    #[verifier::external_body]
    pub(crate) fn get(&self, obj: u64) -> (res: Option<u64>)
        ensures
            res == object_cell_entries(*self).get(obj),
    {
        self.map.get(&obj).copied()
    }

    /// `hashbrown::HashMap::insert`: stores `cell` under `obj`, returning the value
    /// it replaced.
    #[verifier::external_body]
    pub(crate) fn insert(&mut self, obj: u64, cell: u64) -> (res: Option<u64>)
        ensures
            object_cell_entries(*final(self)) == object_cell_entries(*old(self)).insert(obj, cell),
            res == object_cell_entries(*old(self)).get(obj),
    {
        self.map.insert(obj, cell)
    }

    /// `hashbrown::HashMap::remove`: drops the entry of `obj`, returning its value.
    #[verifier::external_body]
    pub(crate) fn remove(&mut self, obj: u64) -> (res: Option<u64>)
        ensures
            object_cell_entries(*final(self)) == object_cell_entries(*old(self)).remove(obj),
            res == object_cell_entries(*old(self)).get(obj),
    {
        self.map.remove(&obj)
    }

    /// `hashbrown::HashMap::len`: the number of entries.
    #[verifier::external_body]
    pub(crate) fn len(&self) -> (res: usize)
        ensures
            res == object_cell_entries(*self).len(),
    {
        self.map.len()
    }

    /// `hashbrown::HashMap::clear`: removes every entry.
    #[verifier::external_body]
    pub(crate) fn clear(&mut self)
        ensures
            object_cell_entries(*final(self)).dom().is_empty(),
    {
        self.map.clear()
    }

    /// `hashbrown::HashMap::keys`, collected: every key once, in the map's
    /// own (unspecified) order.
    #[verifier::external_body]
    pub(crate) fn keys(&self) -> (res: Vec<u64>)
        ensures
            lists_exactly(res@, object_cell_entries(*self).dom()),
    {
        self.map.keys().copied().collect()
    }
}

impl CellObjectIndex {
    /// `hashbrown::HashMap::new`: an empty map.
    #[verifier::external_body]
    pub(crate) fn new() -> (res: Self)
        ensures
            cell_object_entries(res).dom().is_empty(),
    {
        CellObjectIndex { map: hashbrown::HashMap::new() }
    }

    /// `hashbrown::HashMap::get`: the objects stored under `cell`, if any.
    #[verifier::external_body]
    pub(crate) fn get(&self, cell: u64) -> (res: Option<&Vec<u64>>)
        ensures
            match res {
                Some(v) => {
                    &&& cell_object_entries(*self).contains_key(cell)
                    &&& v@ == cell_object_entries(*self)[cell]
                },
                None => !cell_object_entries(*self).contains_key(cell),
            },
    {
        self.map.get(&cell)
    }

    /// `hashbrown::HashMap::get_mut`: a mutable reference to the objects stored
    /// under `cell`; whatever is left behind it becomes the entry of `cell`.
    #[verifier::external_body]
    pub(crate) fn get_mut(&mut self, cell: u64) -> (res: Option<&mut Vec<u64>>)
        ensures
            match res {
                Some(v) => {
                    &&& cell_object_entries(*old(self)).contains_key(cell)
                    &&& v@ == cell_object_entries(*old(self))[cell]
                    &&& cell_object_entries(*final(self)) == cell_object_entries(*old(self)).insert(
                        cell,
                        final(v)@,
                    )
                },
                None => {
                    &&& !cell_object_entries(*old(self)).contains_key(cell)
                    &&& cell_object_entries(*final(self)) == cell_object_entries(*old(self))
                },
            },
    {
        self.map.get_mut(&cell)
    }

    /// `hashbrown::HashMap::insert`: stores `objs` under `cell`.
    #[verifier::external_body]
    pub(crate) fn insert(&mut self, cell: u64, objs: Vec<u64>)
        ensures
            cell_object_entries(*final(self)) == cell_object_entries(*old(self)).insert(cell, objs@),
    {
        self.map.insert(cell, objs);
    }

    /// `hashbrown::HashMap::clear`: removes every entry.
    #[verifier::external_body]
    pub(crate) fn clear(&mut self)
        ensures
            cell_object_entries(*final(self)).dom().is_empty(),
    {
        self.map.clear()
    }

    /// `hashbrown::HashMap::keys`, collected: every key once, in the map's
    /// own (unspecified) order.
    #[verifier::external_body]
    pub(crate) fn keys(&self) -> (res: Vec<u64>)
        ensures
            lists_exactly(res@, cell_object_entries(*self).dom()),
    {
        self.map.keys().copied().collect()
    }
}

} // verus!
