//! Database access contracts.
//!
//! A [`Database`] is an indexed, read-only, deterministic source of
//! [`Entry`] values: a fixed-length input vector plus one expected
//! output each. The loader copies everything it needs out of the
//! database at construction time, as [`OwnedEntry`] values.
//! [`MemoryDatabase`] is a ready-made in-memory implementation.

use vstd::prelude::*;

use crate::fixed::Fx;
use crate::linalg::{copy_vec, raws};

verus! {

/// The mathematical content of one training example: the raw input
/// values and the raw expected output.
pub struct EntryModel {
    pub inputs: Seq<int>,
    pub expected: int,
}

/// One labeled training example.
pub trait Entry: Sized {
    /// Raw values of the entry's inputs.
    spec fn inputs_spec(&self) -> Seq<int>;

    /// Raw value of the entry's expected output.
    spec fn expected_spec(&self) -> int;

    /// Returns the input vector of the entry.
    fn get_inputs(&self) -> (v: Vec<Fx>)
        ensures
            raws(v@) == self.inputs_spec(),
    ;

    /// Returns the expected output of the entry.
    fn get_expected_output(&self) -> (r: Fx)
        ensures
            r.raw as int == self.expected_spec(),
    ;
}

/// The model of an entry: everything the trainer reads from it.
pub open spec fn model_of<T: Entry>(e: T) -> EntryModel {
    EntryModel { inputs: e.inputs_spec(), expected: e.expected_spec() }
}

/// The models of a sequence of entries, in order.
pub open spec fn models_of<T: Entry>(s: Seq<T>) -> Seq<EntryModel> {
    s.map_values(|e: T| model_of(e))
}

/// An indexed, read-only collection of entries.
///
/// Access is deterministic: `get(idx)` always yields an entry with the
/// model `entry_model(idx)`, for any index below `size()`.
pub trait Database<E: Entry>: Sized {
    /// Number of entries.
    spec fn size_spec(&self) -> int;

    /// The model of the entry stored at `idx`.
    spec fn entry_model(&self, idx: int) -> EntryModel;

    /// Returns the number of database entries.
    fn size(&self) -> (n: usize)
        ensures
            n as int == self.size_spec(),
    ;

    /// Returns the entry at index `idx` in the database.
    fn get(&self, idx: usize) -> (e: E)
        requires
            idx < self.size_spec(),
        ensures
            model_of(e) == self.entry_model(idx as int),
    ;
}

/// The models of the first `n` entries of a database, in index order.
pub open spec fn db_models<E: Entry, D: Database<E>>(db: &D, n: int) -> Seq<EntryModel> {
    Seq::new(n as nat, |i: int| db.entry_model(i))
}

/// A self-contained training example, as materialized by the loader.
#[derive(Clone, PartialEq, Eq, Debug)]
pub struct OwnedEntry {
    pub inputs: Vec<Fx>,
    pub expected: Fx,
}

impl OwnedEntry {
    /// An exact copy of the entry.
    pub fn duplicate(&self) -> (r: OwnedEntry)
        ensures
            r.inputs@ == self.inputs@,
            r.expected == self.expected,
    {
        OwnedEntry { inputs: copy_vec(&self.inputs), expected: self.expected }
    }
}

impl Entry for OwnedEntry {
    open spec fn inputs_spec(&self) -> Seq<int> {
        raws(self.inputs@)
    }

    open spec fn expected_spec(&self) -> int {
        self.expected.raw as int
    }

    fn get_inputs(&self) -> (v: Vec<Fx>) {
        copy_vec(&self.inputs)
    }

    fn get_expected_output(&self) -> (r: Fx) {
        self.expected
    }
}

/// An in-memory database: a vector of owned entries, served by index.
#[derive(Clone, Debug)]
pub struct MemoryDatabase {
    entries: Vec<OwnedEntry>,
}

impl MemoryDatabase {
    /// The stored entries.
    pub closed spec fn entries_spec(&self) -> Seq<OwnedEntry> {
        self.entries@
    }

    /// Builds a database holding exactly the given entries, in order.
    pub fn from_entries(entries: Vec<OwnedEntry>) -> (r: MemoryDatabase)
        ensures
            r.entries_spec() == entries@,
    {
        MemoryDatabase { entries }
    }
}

impl Database<OwnedEntry> for MemoryDatabase {
    open spec fn size_spec(&self) -> int {
        self.entries_spec().len() as int
    }

    open spec fn entry_model(&self, idx: int) -> EntryModel {
        model_of(self.entries_spec()[idx])
    }

    fn size(&self) -> (n: usize) {
        self.entries.len()
    }

    fn get(&self, idx: usize) -> (e: OwnedEntry) {
        let e = self.entries[idx].duplicate();
        proof {
            assert(model_of(e) == self.entry_model(idx as int));
        }
        e
    }
}

} // verus!
