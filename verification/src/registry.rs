//! The set of sources that have been announced.

use vstd::prelude::*;
use std::collections::HashSet;
use vstd::std_specs::iter::IteratorSpec;

verus! {

broadcast use vstd::std_specs::hash::group_hash_axioms;

/// A set of source identifiers. The order in which sources were announced
/// is not kept.
pub struct SourceSet {
    ids: HashSet<u32>,
}

impl View for SourceSet {
    type V = Set<u32>;

    closed spec fn view(&self) -> Set<u32> {
        self.ids@
    }
}

impl SourceSet {
    /// The empty set.
    pub fn new() -> (sources: SourceSet)
        ensures
            sources@ == Set::<u32>::empty(),
    {
        SourceSet { ids: HashSet::new() }
    }

    /// Adds a source, and tells whether it was new.
    pub fn insert(&mut self, source_id: u32) -> (added: bool)
        ensures
            final(self)@ == old(self)@.insert(source_id),
            added == !old(self)@.contains(source_id),
    {
        self.ids.insert(source_id)
    }

    /// Takes a source out, and tells whether it was there.
    pub fn remove(&mut self, source_id: u32) -> (removed: bool)
        ensures
            final(self)@ == old(self)@.remove(source_id),
            removed == old(self)@.contains(source_id),
    {
        self.ids.remove(&source_id)
    }

    /// Takes every source out.
    pub fn clear(&mut self)
        ensures
            final(self)@ == Set::<u32>::empty(),
    {
        self.ids.clear();
    }

    /// Tells whether the source is in the set.
    pub fn contains(&self, source_id: u32) -> (held: bool)
        ensures
            held == self@.contains(source_id),
    {
        self.ids.contains(&source_id)
    }

    /// The sources of the set, each once, in no particular order.
    pub fn enumerate(&self) -> (sources: Vec<u32>)
        ensures
            sources@.to_set() == self@,
            sources@.no_duplicates(),
    {
        let mut sources: Vec<u32> = Vec::with_capacity(self.ids.len());
        let keys = self.ids.iter();
        let ghost all: Seq<u32> = keys.remaining().unref();
        for source_id in it: keys
            invariant
                it.seq().unref() == all,
                sources@ == all.take(it.index()),
        {
            assert(all.take(it.index() + 1) == all.take(it.index()).push(all[it.index()]));
            sources.push(*source_id);
        }
        assert(sources@ == all);
        sources
    }
}

} // verus!
