//! The new trees of the commits that a run changed.

use crate::ids::{CommitId, TreeId};
use vstd::prelude::*;

verus! {

/// A map from commits to their new trees. A later entry for a commit stands in
/// place of an earlier one.
#[derive(Debug)]
pub struct Rewrites {
    pub entries: Vec<(CommitId, TreeId)>,
}

/// The map that `entries` amount to.
pub open spec fn entries_map(entries: Seq<(CommitId, TreeId)>) -> Map<Seq<u8>, Seq<u8>>
    decreases entries.len(),
{
    if entries.len() == 0 {
        Map::empty()
    } else {
        entries_map(entries.drop_last()).insert(entries.last().0@, entries.last().1@)
    }
}

impl View for Rewrites {
    type V = Map<Seq<u8>, Seq<u8>>;

    open spec fn view(&self) -> Map<Seq<u8>, Seq<u8>> {
        entries_map(self.entries@)
    }
}

impl Rewrites {
    /// The empty map.
    pub fn new() -> (rewrites: Rewrites)
        ensures
            rewrites@ == Map::<Seq<u8>, Seq<u8>>::empty(),
    {
        Rewrites { entries: Vec::new() }
    }

    /// Sets the new tree of a commit.
    pub fn insert(&mut self, id: CommitId, tree: TreeId)
        ensures
            final(self)@ == old(self)@.insert(id@, tree@),
    {
        let ghost before = self.entries@;
        self.entries.push((id, tree));
        assert(self.entries@.drop_last() =~= before);
    }

    /// Whether no commit has a new tree.
    pub fn is_empty(&self) -> (empty: bool)
        ensures
            empty == (self@ == Map::<Seq<u8>, Seq<u8>>::empty()),
    {
        if self.entries.len() == 0 {
            true
        } else {
            assert(self@.contains_key(self.entries@.last().0@));
            false
        }
    }

    /// The new tree of a commit, if it has one.
    pub fn get(&self, id: &CommitId) -> (tree: Option<TreeId>)
        ensures
            match tree {
                Some(t) => self@.contains_key(id@) && self@[id@] == t@,
                None => !self@.contains_key(id@),
            },
    {
        let mut i: usize = self.entries.len();
        assert(self.entries@.take(i as int) =~= self.entries@);
        while i > 0
            invariant
                i <= self.entries@.len(),
                self@.contains_key(id@) == entries_map(self.entries@.take(i as int)).contains_key(
                    id@,
                ),
                self@.contains_key(id@) ==> self@[id@] == entries_map(
                    self.entries@.take(i as int),
                )[id@],
            decreases i,
        {
            let ghost upto = self.entries@.take(i as int);
            i = i - 1;
            assert(upto.drop_last() =~= self.entries@.take(i as int));
            if self.entries[i].0.same(id) {
                return Some(self.entries[i].1.clone());
            }
        }
        None
    }
}

} // verus!
