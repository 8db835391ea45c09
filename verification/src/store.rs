//! The two namespaces of the store: target records by identifier, and
//! redirect counts by identifier.
//!
//! Records are written once: a write under an identifier that is in use is
//! refused and changes nothing. Counts are kept as decimal text, as a
//! key-value backend holds them; an identifier without an entry, or with an
//! entry that is not a count, counts as zero.
//!
//! Both namespaces are changed through `&mut self` only, so each write and
//! each increment has the namespace to itself from its read to its write:
//! `put` is a put-if-absent, and no increment is lost. To share a store
//! between threads, put it behind one lock; the increments are then exact,
//! one writer after the other.

use crate::count::{
    decimal_text, law_count_text_round_trip, next_count, parse_count, render_count,
    spec_next_count, stored_count,
};
use crate::error::Error;
use crate::record::{Target, TargetView};
use crate::table::Table;
use vstd::prelude::*;

verus! {

/// The namespace of target records.
pub struct RecordStore {
    table: Table<Target>,
}

impl View for RecordStore {
    type V = Map<Seq<char>, TargetView>;

    closed spec fn view(&self) -> Map<Seq<char>, TargetView> {
        self.table@.map_values(|record: Target| record@)
    }
}

impl RecordStore {
    /// A namespace without records.
    pub fn new() -> (store: Self)
        ensures
            store@ == Map::<Seq<char>, TargetView>::empty(),
    {
        let store = RecordStore { table: Table::new() };
        assert(store@ =~= Map::<Seq<char>, TargetView>::empty());
        store
    }

    /// The record stored under `id`, whole, or nothing.
    pub fn get(&self, id: &str) -> (found: Option<Target>)
        ensures
            match found {
                Some(record) => self@.contains_key(id@) && record@ == self@[id@],
                None => !self@.contains_key(id@),
            },
    {
        match self.table.get(id) {
            Some(record) => Some(record.clone()),
            None => None,
        }
    }

    /// Whether a record is stored under `id`.
    pub fn contains(&self, id: &str) -> (present: bool)
        ensures
            present == self@.contains_key(id@),
    {
        self.table.contains(id)
    }

    /// Stores `record` under `id` if the identifier is free. Where a record
    /// is already stored under `id`, the write is refused with a store
    /// failure and the record that is there stays.
    pub fn put(&mut self, id: String, record: Target) -> (outcome: Result<(), Error>)
        ensures
            outcome is Ok <==> !old(self)@.contains_key(id@),
            outcome is Ok ==> final(self)@ == old(self)@.insert(id@, record@),
            outcome is Err ==> final(self)@ == old(self)@ && outcome == Err::<(), Error>(
                Error::Store,
            ),
    {
        let ghost before = self.table@;
        if self.table.insert_new(id, record) {
            assert(self@ =~= before.map_values(|record: Target| record@).insert(id@, record@));
            Ok(())
        } else {
            Err(Error::Store)
        }
    }
}

/// The count that a namespace of count texts holds for `id`.
pub open spec fn count_in(counters: Map<Seq<char>, Seq<char>>, id: Seq<char>) -> u32 {
    if counters.contains_key(id) {
        stored_count(Some(counters[id]))
    } else {
        0
    }
}

/// The namespace of count texts after one more redirect to `id`.
pub open spec fn counted(counters: Map<Seq<char>, Seq<char>>, id: Seq<char>) -> Map<
    Seq<char>,
    Seq<char>,
> {
    counters.insert(id, decimal_text(spec_next_count(count_in(counters, id)) as nat))
}

/// One more redirect to `id` raises its count by one, up to `u32::MAX`, and
/// leaves every other count as it was.
pub proof fn lemma_counted_counts(counters: Map<Seq<char>, Seq<char>>, id: Seq<char>)
    ensures
        count_in(counted(counters, id), id) == spec_next_count(count_in(counters, id)),
        forall|other: Seq<char>|
            other != id ==> count_in(#[trigger] counted(counters, id), other) == count_in(
                counters,
                other,
            ),
{
    law_count_text_round_trip(spec_next_count(count_in(counters, id)));
}

/// The namespace of redirect counts.
pub struct CounterStore {
    table: Table<String>,
}

impl View for CounterStore {
    type V = Map<Seq<char>, Seq<char>>;

    closed spec fn view(&self) -> Map<Seq<char>, Seq<char>> {
        self.table@.map_values(|text: String| text@)
    }
}

impl CounterStore {
    /// A namespace without counts.
    pub fn new() -> (store: Self)
        ensures
            store@ == Map::<Seq<char>, Seq<char>>::empty(),
    {
        let store = CounterStore { table: Table::new() };
        assert(store@ =~= Map::<Seq<char>, Seq<char>>::empty());
        store
    }

    /// The redirect count of `id`: zero where nothing is stored for it.
    pub fn get(&self, id: &str) -> (count: u32)
        ensures
            count == count_in(self@, id@),
    {
        match self.table.get(id) {
            Some(text) => count_of_text(Some(text.as_str())),
            None => 0,
        }
    }

    /// Counts one more redirect to `id`: reads the count, adds one and
    /// writes the sum back. The first redirect creates the entry at 1.
    pub fn increment(&mut self, id: &str)
        ensures
            final(self)@ == counted(old(self)@, id@),
    {
        let ghost before = self.table@;
        let text = match self.table.get(id) {
            Some(stored) => counted_text(Some(stored.as_str())),
            None => counted_text(None),
        };
        self.table.set(id.to_owned(), text);
        assert(self@ =~= before.map_values(|text: String| text@).insert(id@, text@));
    }
}

/// The count that a stored text stands for: zero for a missing entry and
/// for text that is not a count.
pub fn count_of_text(text: Option<&str>) -> (count: u32)
    ensures
        count == stored_count(
            match text {
                Some(t) => Some(t@),
                None => None,
            },
        ),
{
    match text {
        Some(t) => match parse_count(t) {
            Some(n) => n,
            None => 0,
        },
        None => 0,
    }
}

/// The text that is written back for one more redirect, from the text
/// that was read: the count that it stands for, plus one.
pub fn counted_text(stored: Option<&str>) -> (text: String)
    ensures
        text@ == decimal_text(
            spec_next_count(
                stored_count(
                    match stored {
                        Some(t) => Some(t@),
                        None => None,
                    },
                ),
            ) as nat,
        ),
{
    render_count(next_count(count_of_text(stored)))
}

} // verus!
