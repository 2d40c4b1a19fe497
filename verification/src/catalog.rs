//! The catalog: which logical table name stands for which physical location.
//!
//! Entries are kept in the order of their registration. A name may be
//! registered more than once; nothing is removed or replaced.

use vstd::prelude::*;
use crate::error::Error;
use crate::text::views;

verus! {

/// One entry of the catalog as a mathematical value.
pub struct Mapping {
    /// The logical name, as it is written in SQL.
    pub name: Seq<char>,
    /// The physical location of the table.
    pub location: Seq<char>,
}

/// One entry of the catalog: the table name `duck_table` stands for the table
/// stored at `delta_path`.
#[derive(Clone, Debug, PartialEq, Eq)]
pub struct DeltaMapping {
    pub delta_path: String,
    pub duck_table: String,
}

impl View for DeltaMapping {
    type V = Mapping;

    open spec fn view(&self) -> Mapping {
        Mapping { name: self.duck_table@, location: self.delta_path@ }
    }
}

/// The entries of `list` as mathematical values.
pub open spec fn mappings(list: Seq<DeltaMapping>) -> Seq<Mapping> {
    list.map_values(|e: DeltaMapping| e@)
}

/// The entries of `entries` whose name is among `names`, in their order.
pub open spec fn named(entries: Seq<Mapping>, names: Seq<Seq<char>>) -> Seq<Mapping>
    decreases entries.len(),
{
    if entries.len() == 0 {
        Seq::empty()
    } else if names.contains(entries.last().name) {
        named(entries.drop_last(), names).push(entries.last())
    } else {
        named(entries.drop_last(), names)
    }
}

/// The place that entry `i` of `entries` has among the named ones, if it
/// is one of them: the number of named entries before it.
pub open spec fn rank(entries: Seq<Mapping>, names: Seq<Seq<char>>, i: int) -> int {
    named(entries.take(i), names).len() as int
}

/// Before a later entry there are at least as many named entries, and one
/// more if the earlier entry is a named one itself.
pub proof fn lemma_rank_grows(entries: Seq<Mapping>, names: Seq<Seq<char>>, i: int, j: int)
    requires
        0 <= i < j <= entries.len(),
    ensures
        rank(entries, names, i) <= rank(entries, names, j),
        names.contains(entries[i].name) ==> rank(entries, names, i) < rank(entries, names, j),
    decreases j - i,
{
    assert(entries.take(j).drop_last() =~= entries.take(j - 1));
    if i < j - 1 {
        lemma_rank_grows(entries, names, i, j - 1);
    }
}

/// A lookup returns all entries whose name is asked for, in their order:
/// such an entry stands in the result at its rank.
pub proof fn lemma_named_holds_each_match(entries: Seq<Mapping>, names: Seq<Seq<char>>, i: int)
    requires
        0 <= i < entries.len(),
        names.contains(entries[i].name),
    ensures
        0 <= rank(entries, names, i) < named(entries, names).len(),
        named(entries, names)[rank(entries, names, i)] == entries[i],
    decreases entries.len(),
{
    if i < entries.len() - 1 {
        let rest = entries.drop_last();
        lemma_named_holds_each_match(rest, names, i);
        assert(rest.take(i) =~= entries.take(i));
    }
}

/// A lookup returns nothing else: each entry of the result is an entry of
/// the catalog whose name is asked for, and stands at its rank.
pub proof fn lemma_named_holds_only_matches(entries: Seq<Mapping>, names: Seq<Seq<char>>, r: int)
    requires
        0 <= r < named(entries, names).len(),
    ensures
        exists|i: int|
            0 <= i < entries.len() && names.contains(entries[i].name) && named(entries, names)[r]
                == entries[i] && #[trigger] rank(entries, names, i) == r,
    decreases entries.len(),
{
    let rest = entries.drop_last();
    let last = entries.len() - 1;
    if names.contains(entries.last().name) && r == named(rest, names).len() {
        assert(rank(entries, names, last) == r);
    } else {
        lemma_named_holds_only_matches(rest, names, r);
        let i = choose|i: int|
            0 <= i < rest.len() && names.contains(rest[i].name) && named(rest, names)[r] == rest[i]
                && #[trigger] rank(rest, names, i) == r;
        assert(rest.take(i) =~= entries.take(i));
        assert(rank(entries, names, i) == r);
    }
}

/// An entry is found from the moment it is registered: a lookup that asks
/// for its name returns it, behind all entries registered before.
pub proof fn lemma_registered_entry_is_found(
    entries: Seq<Mapping>,
    entry: Mapping,
    names: Seq<Seq<char>>,
)
    requires
        names.contains(entry.name),
    ensures
        named(entries.push(entry), names) == named(entries, names).push(entry),
{
    assert(entries.push(entry).drop_last() =~= entries);
}

/// Names without an entry leave a lookup empty.
pub proof fn lemma_named_of_unregistered(entries: Seq<Mapping>, names: Seq<Seq<char>>)
    requires
        forall|i: int| 0 <= i < entries.len() ==> !names.contains(#[trigger] entries[i].name),
    ensures
        named(entries, names) == Seq::<Mapping>::empty(),
    decreases entries.len(),
{
    if entries.len() > 0 {
        lemma_named_of_unregistered(entries.drop_last(), names);
    }
}

/// The mapping store.
pub struct Catalog {
    entries: Vec<DeltaMapping>,
}

impl View for Catalog {
    type V = Seq<Mapping>;

    closed spec fn view(&self) -> Seq<Mapping> {
        mappings(self.entries@)
    }
}

/// Whether `name` is among `names`.
pub fn contains_name(names: &Vec<String>, name: &String) -> (r: bool)
    ensures
        r == views(names@).contains(name@),
{
    let mut i: usize = 0;
    while i < names.len()
        invariant
            i <= names.len(),
            forall|j: int| 0 <= j < i ==> names@[j]@ != name@,
        decreases names.len() - i,
    {
        if names[i] == *name {
            assert(views(names@)[i as int] == name@);
            return true;
        }
        i += 1;
    }
    false
}

impl Catalog {
    /// A catalog without entries.
    pub fn new() -> (catalog: Catalog)
        ensures
            catalog@ == Seq::<Mapping>::empty(),
    {
        Catalog { entries: Vec::new() }
    }

    /// The number of entries.
    pub fn len(&self) -> (n: usize)
        ensures
            n == self@.len(),
    {
        self.entries.len()
    }

    /// Adds the entry (`logical_name`, `physical_location`) after those that
    /// are there. A name that is registered already gets a further entry.
    /// The store is in memory, so this always succeeds.
    pub fn register(&mut self, logical_name: &str, physical_location: &str) -> (r: Result<
        (),
        Error,
    >)
        ensures
            r is Ok,
            final(self)@ == old(self)@.push(
                Mapping { name: logical_name@, location: physical_location@ },
            ),
    {
        let entry = DeltaMapping {
            delta_path: String::from_str(physical_location),
            duck_table: String::from_str(logical_name),
        };
        self.entries.push(entry);
        assert(self@ =~= old(self)@.push(
            Mapping { name: logical_name@, location: physical_location@ },
        ));
        Ok(())
    }

    /// All entries whose name is among `names`, in the order of their
    /// registration.
    pub fn lookup(&self, names: &Vec<String>) -> (found: Vec<DeltaMapping>)
        ensures
            mappings(found@) == named(self@, views(names@)),
    {
        let mut found: Vec<DeltaMapping> = Vec::new();
        let mut i: usize = 0;
        while i < self.entries.len()
            invariant
                i <= self.entries.len(),
                mappings(found@) == named(self@.take(i as int), views(names@)),
            decreases self.entries.len() - i,
        {
            let entry = &self.entries[i];
            assert(self@.take(i + 1).drop_last() =~= self@.take(i as int));
            if contains_name(names, &entry.duck_table) {
                let copy = DeltaMapping {
                    delta_path: entry.delta_path.clone(),
                    duck_table: entry.duck_table.clone(),
                };
                found.push(copy);
            }
            i += 1;
        }
        assert(self@.take(i as int) =~= self@);
        found
    }
}

} // verus!
