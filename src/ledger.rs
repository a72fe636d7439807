//! The ledger of processed builds and the store of their summaries.
use vstd::prelude::*;
use crate::report::{BuildMetadata, BuildMetadataView};

verus! {

pub open spec fn strings_view(v: Seq<String>) -> Seq<Seq<char>> {
    v.map_values(|s: String| s@)
}

/// Identities of the builds that have been fully processed, in the order in
/// which they were recorded.
pub struct Ledger {
    entries: Vec<String>,
}

impl View for Ledger {
    type V = Seq<Seq<char>>;

    closed spec fn view(&self) -> Seq<Seq<char>> {
        strings_view(self.entries@)
    }
}

impl Ledger {
    /// An empty ledger.
    pub fn new() -> (r: Ledger)
        ensures
            r@ == Seq::<Seq<char>>::empty(),
    {
        let r = Ledger { entries: Vec::new() };
        assert(r@ =~= Seq::<Seq<char>>::empty());
        r
    }

    /// A ledger that holds `entries`, in their order.
    pub fn from_entries(entries: Vec<String>) -> (r: Ledger)
        ensures
            r@ == strings_view(entries@),
    {
        Ledger { entries }
    }

    /// The recorded identities, in their order.
    pub fn entries(&self) -> (r: &Vec<String>)
        ensures
            strings_view(r@) == self@,
    {
        &self.entries
    }

    pub fn len(&self) -> (r: usize)
        ensures
            r == self@.len(),
    {
        self.entries.len()
    }

    /// Whether `identity` has been recorded.
    pub fn contains(&self, identity: &str) -> (r: bool)
        ensures
            r == self@.contains(identity@),
    {
        let id = identity.to_owned();
        let mut i: usize = 0;
        while i < self.entries.len()
            invariant
                id@ == identity@,
                i <= self.entries@.len(),
                forall|j: int| 0 <= j < i ==> self@[j] != identity@,
            decreases self.entries.len() - i,
        {
            if self.entries[i] == id {
                assert(self@[i as int] == identity@);
                return true;
            }
            i = i + 1;
        }
        false
    }

    /// Records `identity` after the others.
    pub fn append(&mut self, identity: String)
        ensures
            final(self)@ == old(self)@.push(identity@),
    {
        self.entries.push(identity);
        assert(self@ =~= old(self)@.push(identity@));
    }
}

/// The map that a list of (identity, summary) pairs stands for: a later pair
/// overrides an earlier one with the same identity.
pub open spec fn pairs_map(e: Seq<(String, BuildMetadata)>) -> Map<Seq<char>, BuildMetadataView>
    decreases e.len(),
{
    if e.len() == 0 {
        Map::empty()
    } else {
        pairs_map(e.drop_last()).insert(e.last().0@, e.last().1@)
    }
}

/// Summaries of builds, by identity.
pub struct MetadataStore {
    entries: Vec<(String, BuildMetadata)>,
}

impl View for MetadataStore {
    type V = Map<Seq<char>, BuildMetadataView>;

    closed spec fn view(&self) -> Map<Seq<char>, BuildMetadataView> {
        pairs_map(self.entries@)
    }
}

impl MetadataStore {
    /// An empty store.
    pub fn new() -> (r: MetadataStore)
        ensures
            r@ == Map::<Seq<char>, BuildMetadataView>::empty(),
    {
        MetadataStore { entries: Vec::new() }
    }

    /// A store that holds `entries`; a later pair overrides an earlier one.
    pub fn from_entries(entries: Vec<(String, BuildMetadata)>) -> (r: MetadataStore)
        ensures
            r@ == pairs_map(entries@),
    {
        MetadataStore { entries }
    }

    /// The stored pairs, in the order they were put.
    pub fn entries(&self) -> (r: &Vec<(String, BuildMetadata)>)
        ensures
            pairs_map(r@) == self@,
    {
        &self.entries
    }

    /// Stores `summary` under `identity`, replacing any earlier one.
    pub fn put(&mut self, identity: String, summary: BuildMetadata)
        ensures
            final(self)@ == old(self)@.insert(identity@, summary@),
    {
        let ghost before = self.entries@;
        self.entries.push((identity, summary));
        assert(self.entries@.drop_last() =~= before);
    }
}

} // verus!
