//! What the menu lists at the level it shows.

use crate::dispatch::{CheatSheetState, KeyMapLevel};
use crate::keymap::{L1Node, L2Node};
use std::collections::BTreeMap;
use vstd::prelude::*;
use vstd::std_specs::cmp::OrdSpec;
use vstd::std_specs::iter::IteratorSpec;

verus! {

broadcast use {vstd::std_specs::btree::group_btree_axioms, vstd::laws_cmp::group_laws_cmp};

/// A list of keys with their names is the listing of a table of names: the
/// keys ascend, each stands with its name in the table, and no key of the
/// table is left out.
pub open spec fn lists(labels: Seq<(u8, String)>, names: Map<u8, Seq<char>>) -> bool {
    &&& forall|i: int, j: int|
        0 <= i < j < labels.len() ==> (#[trigger] labels[i]).0 < (#[trigger] labels[j]).0
    &&& forall|i: int|
        0 <= i < labels.len() ==> names.contains_key((#[trigger] labels[i]).0)
            && names[labels[i].0] == labels[i].1@
    &&& forall|k: u8| #[trigger]
        names.contains_key(k) ==> exists|i: int|
            0 <= i < labels.len() && (#[trigger] labels[i]).0 == k
}

/// The names of the first-level nodes, by key.
pub open spec fn root_names(map: Map<u8, L1Node>) -> Map<u8, Seq<char>> {
    map.map_values(|node: L1Node| node.name@)
}

/// The names of the leaves of one node, by key.
pub open spec fn leaf_names(leaves: Map<u8, L2Node>) -> Map<u8, Seq<char>> {
    leaves.map_values(|leaf: L2Node| leaf.name@)
}

/// The keys of the first level with the names of their nodes.
fn root_labels(map: &BTreeMap<u8, L1Node>) -> (labels: Vec<(u8, String)>)
    ensures
        lists(labels@, root_names(map@)),
{
    let mut labels: Vec<(u8, String)> = Vec::new();
    let ghost all = map.iter().remaining();
    for pair in it: map.iter()
        invariant
            it.seq() == all,
            labels.len() == it.index(),
            forall|i: int|
                0 <= i < labels.len() ==> (#[trigger] labels[i]).0 == *all[i].0 && labels[i].1@
                    == all[i].1.name@,
    {
        let (key, node) = pair;
        labels.push((*key, node.name.clone()));
    }
    proof {
        let keys = all.map_values(|kv: (&u8, &L1Node)| *kv.0);
        assert(labels.len() == all.len());
        assert(vstd::std_specs::btree::increasing_seq(keys));
        assert forall|i: int, j: int| 0 <= i < j < labels.len() implies (#[trigger] labels[i]).0
            < (#[trigger] labels[j]).0 by {
            assert(keys[i] == labels[i].0);
            assert(keys[j] == labels[j].0);
            assert(keys[i].cmp_spec(&keys[j]) is Less);
        }
        assert forall|i: int| 0 <= i < labels.len() implies root_names(map@).contains_key(
            (#[trigger] labels[i]).0,
        ) && root_names(map@)[labels[i].0] == labels[i].1@ by {
            assert(map@.contains_key(*all[i].0));
        }
        assert forall|k: u8| #[trigger] root_names(map@).contains_key(k) implies exists|i: int|
            0 <= i < labels.len() && (#[trigger] labels[i]).0 == k by {
            assert(map@.contains_key(k));
            assert(all.contains((&k, &map@[k])));
            let i = choose|i: int| 0 <= i < all.len() && all[i] == (&k, &map@[k]);
            assert(labels[i].0 == k);
        }
    }
    labels
}

/// The keys of the leaves of one node with their names.
fn leaf_labels(leaves: &BTreeMap<u8, L2Node>) -> (labels: Vec<(u8, String)>)
    ensures
        lists(labels@, leaf_names(leaves@)),
{
    let mut labels: Vec<(u8, String)> = Vec::new();
    let ghost all = leaves.iter().remaining();
    for pair in it: leaves.iter()
        invariant
            it.seq() == all,
            labels.len() == it.index(),
            forall|i: int|
                0 <= i < labels.len() ==> (#[trigger] labels[i]).0 == *all[i].0 && labels[i].1@
                    == all[i].1.name@,
    {
        let (key, leaf) = pair;
        labels.push((*key, leaf.name.clone()));
    }
    proof {
        let keys = all.map_values(|kv: (&u8, &L2Node)| *kv.0);
        assert(labels.len() == all.len());
        assert(vstd::std_specs::btree::increasing_seq(keys));
        assert forall|i: int, j: int| 0 <= i < j < labels.len() implies (#[trigger] labels[i]).0
            < (#[trigger] labels[j]).0 by {
            assert(keys[i] == labels[i].0);
            assert(keys[j] == labels[j].0);
            assert(keys[i].cmp_spec(&keys[j]) is Less);
        }
        assert forall|i: int| 0 <= i < labels.len() implies leaf_names(leaves@).contains_key(
            (#[trigger] labels[i]).0,
        ) && leaf_names(leaves@)[labels[i].0] == labels[i].1@ by {
            assert(leaves@.contains_key(*all[i].0));
        }
        assert forall|k: u8| #[trigger] leaf_names(leaves@).contains_key(k) implies exists|i: int|
            0 <= i < labels.len() && (#[trigger] labels[i]).0 == k by {
            assert(leaves@.contains_key(k));
            assert(all.contains((&k, &leaves@[k])));
            let i = choose|i: int| 0 <= i < all.len() && all[i] == (&k, &leaves@[k]);
            assert(labels[i].0 == k);
        }
    }
    labels
}

impl CheatSheetState {
    /// The names that the menu shows, by key: those of the first-level nodes
    /// at the first level, those of the open node's leaves at the second, and
    /// none while the menu is hidden or the open node is not in the tree.
    pub open spec fn shown(self) -> Map<u8, Seq<char>> {
        if self.is_hidden {
            Map::empty()
        } else {
            match self.current_level {
                KeyMapLevel::L1 => root_names(self.keymap@),
                KeyMapLevel::L2(parent) => if self.keymap@.contains_key(parent) {
                    leaf_names(self.keymap@[parent].next@)
                } else {
                    Map::empty()
                },
            }
        }
    }

    /// The keys that the menu shows with their names, the keys ascending.
    pub fn update_labels(&self) -> (labels: Vec<(u8, String)>)
        ensures
            lists(labels@, self.shown()),
    {
        if self.is_hidden {
            return Vec::new();
        }
        match self.current_level {
            KeyMapLevel::L1 => root_labels(&self.keymap),
            KeyMapLevel::L2(parent) => match self.keymap.get(&parent) {
                Some(node) => leaf_labels(&node.next),
                None => Vec::new(),
            },
        }
    }
}

/// A table of names has one listing, up to the strings that hold the names.
pub proof fn lemma_listing_is_unique(
    a: Seq<(u8, String)>,
    b: Seq<(u8, String)>,
    names: Map<u8, Seq<char>>,
)
    requires
        lists(a, names),
        lists(b, names),
    ensures
        a.len() == b.len(),
        forall|i: int| 0 <= i < a.len() ==> (#[trigger] a[i]).0 == b[i].0 && a[i].1@ == b[i].1@,
{
    lemma_listing_prefix(a, b, names, a.len() as int);
    lemma_listing_prefix(b, a, names, b.len() as int);
}

/// Of two listings of one table, the first `n` entries of one are the first
/// `n` entries of the other.
proof fn lemma_listing_prefix(
    a: Seq<(u8, String)>,
    b: Seq<(u8, String)>,
    names: Map<u8, Seq<char>>,
    n: int,
)
    requires
        lists(a, names),
        lists(b, names),
        0 <= n <= a.len(),
    ensures
        n <= b.len(),
        forall|i: int| 0 <= i < n ==> (#[trigger] a[i]).0 == b[i].0 && a[i].1@ == b[i].1@,
    decreases n,
{
    if n > 0 {
        lemma_listing_prefix(a, b, names, n - 1);
        let k = a[n - 1].0;
        assert(names.contains_key(k));
        let j = choose|j: int| 0 <= j < b.len() && (#[trigger] b[j]).0 == k;
        if j < n - 1 {
            assert(a[j].0 == b[j].0);
            assert(a[j].0 < a[n - 1].0);
        } else if j > n - 1 {
            let k2 = b[n - 1].0;
            assert(names.contains_key(k2));
            let m = choose|m: int| 0 <= m < a.len() && (#[trigger] a[m]).0 == k2;
            assert(b[n - 1].0 < b[j].0);
            if m < n - 1 {
                assert(a[m].0 == b[m].0);
                assert(b[m].0 < b[n - 1].0);
            } else if m > n - 1 {
                assert(a[n - 1].0 < a[m].0);
            }
        }
    }
}

} // verus!
