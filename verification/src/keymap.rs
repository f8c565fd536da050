//! The two-level shortcut tree: first-level nodes keyed by a key code, each
//! holding the leaves that name a command.

use std::collections::BTreeMap;
use std::rc::Rc;
use vstd::prelude::*;
use vstd::std_specs::iter::IteratorSpec;
use vstd::utf8::encode_scalar;

verus! {

broadcast use {vstd::std_specs::btree::group_btree_axioms, vstd::laws_cmp::group_laws_cmp};

/// What a leaf of the shortcut tree asks for.
#[derive(Clone, Copy, Debug, PartialEq, Eq, Structural)]
pub enum Command {
    ShowMenu,
    BranchCheckout,
    Commit,
}

/// The first level of the tree, by key code.
pub type KeyMap = Rc<BTreeMap<u8, L1Node>>;

/// The leaves below one first-level node, by key code.
pub type KeyMapL2 = Rc<BTreeMap<u8, L2Node>>;

/// A first-level entry: a name to display and the leaves below it.
#[derive(Debug)]
pub struct L1Node {
    pub key: u8,
    pub name: String,
    pub next: KeyMapL2,
}

/// A leaf: a name to display and the command it stands for.
#[derive(Debug)]
pub struct L2Node {
    pub key: u8,
    pub name: String,
    pub command: Command,
}

impl Clone for L2Node {
    fn clone(&self) -> (copy: Self)
        ensures
            copy == *self,
    {
        L2Node { key: self.key, name: self.name.clone(), command: self.command }
    }
}

/// The part of a configuration that holds the tree.
#[derive(Debug)]
pub struct KeyMapConfig {
    pub map: KeyMap,
}

/// A configuration of the palette.
#[derive(Debug)]
pub struct Config {
    pub keymap: KeyMapConfig,
}

/// The key code that a key's name stands for: the first byte of the UTF-8
/// encoding of its first character.
pub open spec fn key_code(name: Seq<char>) -> u8
    recommends
        name.len() > 0,
{
    encode_scalar(name[0] as u32)[0]
}

/// The table that a list of named entries builds: each entry stands under the
/// key code of its name, and of two entries with one key code the later stays.
pub open spec fn keyed<V>(entries: Seq<(String, V)>) -> Map<u8, V>
    decreases entries.len(),
{
    if entries.len() == 0 {
        Map::empty()
    } else {
        keyed(entries.drop_last()).insert(key_code(entries.last().0@), entries.last().1)
    }
}

/// Every node of both levels stands under its own key code.
pub open spec fn well_formed(map: Map<u8, L1Node>) -> bool {
    forall|k: u8| #[trigger]
        map.contains_key(k) ==> map[k].key == k && leaves_well_formed(map[k].next@)
}

/// Every leaf stands under its own key code.
pub open spec fn leaves_well_formed(leaves: Map<u8, L2Node>) -> bool {
    forall|k: u8| #[trigger] leaves.contains_key(k) ==> leaves[k].key == k
}

/// The key code of a key's name.
pub fn key_str_to_u8(key: &str) -> (code: u8)
    requires
        key@.len() > 0,
    ensures
        code == key_code(key@),
{
    let bytes = key.as_bytes();
    assert(encode_scalar(key@[0] as u32).len() > 0);
    bytes[0]
}

/// The first level of a tree from its entries in the order given.
pub fn keymap_from_entries(entries: Vec<(String, L1Node)>) -> (map: KeyMap)
    requires
        forall|i: int| 0 <= i < entries.len() ==> (#[trigger] entries[i]).0@.len() > 0,
    ensures
        map@ == keyed(entries@),
{
    let mut map: BTreeMap<u8, L1Node> = BTreeMap::new();
    let ghost all = entries@;
    for entry in it: entries
        invariant
            all == it.seq(),
            forall|i: int| 0 <= i < all.len() ==> (#[trigger] all[i]).0@.len() > 0,
            map@ == keyed(all.take(it.index() as int)),
    {
        let ghost done = all.take(it.index() as int);
        let ghost next = all.take(it.index() + 1);
        assert(next.drop_last() == done);
        assert(next.last() == entry);
        let code = key_str_to_u8(entry.0.as_str());
        map.insert(code, entry.1);
    }
    assert(all.take(all.len() as int) == all);
    Rc::new(map)
}

/// The leaves below one node from their entries in the order given.
pub fn leaves_from_entries(entries: Vec<(String, L2Node)>) -> (leaves: KeyMapL2)
    requires
        forall|i: int| 0 <= i < entries.len() ==> (#[trigger] entries[i]).0@.len() > 0,
    ensures
        leaves@ == keyed(entries@),
{
    let mut leaves: BTreeMap<u8, L2Node> = BTreeMap::new();
    let ghost all = entries@;
    for entry in it: entries
        invariant
            all == it.seq(),
            forall|i: int| 0 <= i < all.len() ==> (#[trigger] all[i]).0@.len() > 0,
            leaves@ == keyed(all.take(it.index() as int)),
    {
        let ghost done = all.take(it.index() as int);
        let ghost next = all.take(it.index() + 1);
        assert(next.drop_last() == done);
        assert(next.last() == entry);
        let code = key_str_to_u8(entry.0.as_str());
        leaves.insert(code, entry.1);
    }
    assert(all.take(all.len() as int) == all);
    Rc::new(leaves)
}

/// Whether every leaf stands under its own key code.
pub fn leaves_are_well_formed(leaves: &BTreeMap<u8, L2Node>) -> (ok: bool)
    ensures
        ok == leaves_well_formed(leaves@),
{
    let ghost all = leaves.iter().remaining();
    for pair in it: leaves.iter()
        invariant
            it.seq() == all,
            all == leaves.iter().remaining(),
            forall|i: int| 0 <= i < it.index() ==> (#[trigger] all[i]).1.key == *all[i].0,
    {
        let (key, leaf) = pair;
        if leaf.key != *key {
            assert(leaves@.contains_key(*key) && leaves@[*key] == *leaf);
            return false;
        }
    }
    proof {
        assert forall|k: u8| #[trigger] leaves@.contains_key(k) implies leaves@[k].key == k by {
            assert(all.contains((&k, &leaves@[k])));
            let i = choose|i: int| 0 <= i < all.len() && all[i] == (&k, &leaves@[k]);
            assert(all[i].1.key == *all[i].0);
        }
    }
    true
}

/// Whether every node of both levels stands under its own key code.
pub fn is_well_formed(map: &BTreeMap<u8, L1Node>) -> (ok: bool)
    ensures
        ok == well_formed(map@),
{
    let ghost all = map.iter().remaining();
    for pair in it: map.iter()
        invariant
            it.seq() == all,
            all == map.iter().remaining(),
            forall|i: int|
                0 <= i < it.index() ==> (#[trigger] all[i]).1.key == *all[i].0
                    && leaves_well_formed(all[i].1.next@),
    {
        let (key, node) = pair;
        if node.key != *key || !leaves_are_well_formed(&node.next) {
            assert(map@.contains_key(*key) && map@[*key] == *node);
            return false;
        }
    }
    proof {
        assert forall|k: u8| #[trigger] map@.contains_key(k) implies map@[k].key == k
            && leaves_well_formed(map@[k].next@) by {
            assert(all.contains((&k, &map@[k])));
            let i = choose|i: int| 0 <= i < all.len() && all[i] == (&k, &map@[k]);
            assert(all[i].1.key == *all[i].0);
        }
    }
    true
}

/// The key code of a name that starts with an ASCII character is the code of
/// that character.
pub proof fn lemma_key_code_of_ascii(name: Seq<char>)
    requires
        name.len() > 0,
        (name[0] as u32) < 0x80,
    ensures
        key_code(name) == name[0] as u32,
{
    let scalar = name[0] as u32;
    assert(scalar & 0x7F == scalar) by (bit_vector)
        requires
            scalar < 0x80,
    ;
}

/// A table built from named entries holds a key code exactly where an entry
/// has it, and under it the last entry that has it.
pub proof fn lemma_keyed_holds_the_last<V>(entries: Seq<(String, V)>, k: u8)
    ensures
        keyed(entries).contains_key(k) <==> exists|i: int|
            0 <= i < entries.len() && key_code(#[trigger] entries[i].0@) == k,
        forall|i: int|
            0 <= i < entries.len() && key_code(#[trigger] entries[i].0@) == k && (forall|j: int|
                i < j < entries.len() ==> key_code(#[trigger] entries[j].0@) != k) ==> keyed(
                entries,
            )[k] == entries[i].1,
    decreases entries.len(),
{
    if entries.len() > 0 {
        let before = entries.drop_last();
        lemma_keyed_holds_the_last(before, k);
        let last = entries.len() - 1;
        if key_code(entries[last].0@) == k {
            assert(keyed(entries).contains_key(k));
        } else {
            if keyed(before).contains_key(k) {
                let i = choose|i: int| 0 <= i < before.len() && key_code(#[trigger] before[i].0@) == k;
                assert(key_code(entries[i].0@) == k);
            }
            if exists|i: int| 0 <= i < entries.len() && key_code(#[trigger] entries[i].0@) == k {
                let i = choose|i: int|
                    0 <= i < entries.len() && key_code(#[trigger] entries[i].0@) == k;
                assert(key_code(before[i].0@) == k);
            }
        }
        assert forall|i: int|
            0 <= i < entries.len() && key_code(#[trigger] entries[i].0@) == k && (forall|j: int|
                i < j < entries.len() ==> key_code(#[trigger] entries[j].0@) != k) implies keyed(
            entries,
        )[k] == entries[i].1 by {
            if i < last {
                assert(key_code(entries[last].0@) != k);
                assert(before[i] == entries[i]);
                assert forall|j: int| i < j < before.len() implies key_code(
                    #[trigger] before[j].0@,
                ) != k by {
                    assert(before[j] == entries[j]);
                }
            }
        }
    }
}

} // verus!
