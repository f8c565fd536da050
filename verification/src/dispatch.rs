//! The shortcut menu as a state machine: events walk the two levels of the
//! tree until a leaf names a command.
//!
//! A character that selects a leaf of the open node may also be the key of a
//! first-level node. The leaf wins: the command is emitted, the menu hides,
//! and the first level is not looked at. Only a character that selects no
//! leaf is tried against the first level.

use crate::keymap::{Command, KeyMap, L2Node};
use crate::shaper::{edge_at, sampled, Edge, InputShaper};
use vstd::prelude::*;

verus! {

broadcast use {vstd::std_specs::btree::group_btree_axioms, vstd::laws_cmp::group_laws_cmp};

/// The level of the tree that the menu stands at, with the key of the open
/// first-level node at the second level.
#[derive(Clone, Copy, Debug, PartialEq, Eq, Structural)]
pub enum KeyMapLevel {
    L1,
    L2(u8),
}

/// The menu: whether it shows, and where in the tree it stands. A hidden menu
/// keeps its level.
#[derive(Debug)]
pub struct CheatSheetState {
    pub is_hidden: bool,
    pub keymap: KeyMap,
    pub current_node: u8,
    pub current_level: KeyMapLevel,
}

/// What the menu is told.
#[derive(Clone, Copy, Debug, PartialEq, Eq, Structural)]
pub enum MenuEvent {
    ShowMenu,
    Cancel,
    Back,
    Character(u8),
}

/// A key that the menu listens to: the three that show, cancel and go back,
/// and the keys of the tree by their code.
#[derive(Clone, Copy, Debug, PartialEq, Eq, Structural)]
pub enum MenuKey {
    Space,
    Escape,
    Backspace,
    Character(u8),
}

/// How many keys the menu listens to: a shaper of this many keys has a
/// history for each.
pub const MENU_KEYS: usize = 259;

impl MenuKey {
    /// The number of the key among the keys of a shaper: a key of the tree
    /// has its code, and the three others follow the codes.
    pub open spec fn spec_id(self) -> usize {
        match self {
            MenuKey::Character(c) => c as usize,
            MenuKey::Space => 256,
            MenuKey::Escape => 257,
            MenuKey::Backspace => 258,
        }
    }

    /// What the menu is told when the key is released.
    pub open spec fn spec_released(self) -> MenuEvent {
        match self {
            MenuKey::Space => MenuEvent::ShowMenu,
            MenuKey::Escape => MenuEvent::Cancel,
            MenuKey::Backspace => MenuEvent::Back,
            MenuKey::Character(c) => MenuEvent::Character(c),
        }
    }

    /// The number of the key among the keys of a shaper.
    #[verifier::when_used_as_spec(spec_id)]
    pub fn id(self) -> (id: usize)
        ensures
            id == self.spec_id(),
            id < MENU_KEYS,
    {
        match self {
            MenuKey::Character(c) => c as usize,
            MenuKey::Space => 256,
            MenuKey::Escape => 257,
            MenuKey::Backspace => 258,
        }
    }

    /// What the menu is told when the key is released.
    #[verifier::when_used_as_spec(spec_released)]
    pub fn released(self) -> (event: MenuEvent)
        ensures
            event == self.spec_released(),
    {
        match self {
            MenuKey::Space => MenuEvent::ShowMenu,
            MenuKey::Escape => MenuEvent::Cancel,
            MenuKey::Backspace => MenuEvent::Back,
            MenuKey::Character(c) => MenuEvent::Character(c),
        }
    }
}

/// What the menu shows.
#[derive(Clone, Copy, Debug, PartialEq, Eq, Structural)]
pub enum DispatchState {
    Hidden,
    Level1Active,
    Level2Active(u8),
}

/// The command of the leaf that was reached, with the leaf's name.
#[derive(Debug, PartialEq, Eq)]
pub struct DispatchResult {
    pub command: Command,
    pub name: String,
}

impl Clone for DispatchResult {
    fn clone(&self) -> (copy: Self)
        ensures
            copy == *self,
    {
        DispatchResult { command: self.command, name: self.name.clone() }
    }
}

impl CheatSheetState {
    /// What the menu shows in this state.
    pub open spec fn state(self) -> DispatchState {
        if self.is_hidden {
            DispatchState::Hidden
        } else {
            match self.current_level {
                KeyMapLevel::L1 => DispatchState::Level1Active,
                KeyMapLevel::L2(parent) => DispatchState::Level2Active(parent),
            }
        }
    }

    /// The leaf that a character selects: the menu shows the second level,
    /// the open node is in the tree, and the character is among its leaves.
    pub open spec fn leaf(self, c: u8) -> Option<L2Node> {
        match self.state() {
            DispatchState::Level2Active(parent) => if self.keymap@.contains_key(parent)
                && self.keymap@[parent].next@.contains_key(c) {
                Some(self.keymap@[parent].next@[c])
            } else {
                None
            },
            _ => None,
        }
    }

    /// The menu at the first level, as shown or hidden as before.
    pub open spec fn at_root(self) -> CheatSheetState {
        CheatSheetState { current_node: 0, current_level: KeyMapLevel::L1, ..self }
    }

    /// The menu after an event. An event that the state has no use for
    /// leaves it as it is.
    pub open spec fn after(self, event: MenuEvent) -> CheatSheetState {
        match event {
            MenuEvent::ShowMenu => CheatSheetState { is_hidden: false, ..self },
            MenuEvent::Cancel => if self.is_hidden {
                self
            } else {
                CheatSheetState { is_hidden: true, ..self.at_root() }
            },
            MenuEvent::Back => if self.is_hidden {
                self
            } else {
                match self.current_level {
                    KeyMapLevel::L2(_) => self.at_root(),
                    KeyMapLevel::L1 => CheatSheetState { is_hidden: true, ..self },
                }
            },
            MenuEvent::Character(c) => if self.is_hidden {
                self
            } else if self.leaf(c) is Some {
                CheatSheetState { is_hidden: true, ..self }
            } else if self.keymap@.contains_key(c) {
                CheatSheetState { current_node: c, current_level: KeyMapLevel::L2(c), ..self }
            } else {
                self
            },
        }
    }

    /// What an event makes the menu emit: the command and name of the leaf
    /// that a character selects, and nothing otherwise.
    pub open spec fn emitted(self, event: MenuEvent) -> Option<DispatchResult> {
        match event {
            MenuEvent::Character(c) => match self.leaf(c) {
                Some(leaf) => Some(DispatchResult { command: leaf.command, name: leaf.name }),
                None => None,
            },
            _ => None,
        }
    }

    /// A hidden menu at the first level of the given tree.
    pub fn new(keymap: KeyMap) -> (menu: Self)
        ensures
            menu == (CheatSheetState {
                is_hidden: true,
                keymap,
                current_node: 0,
                current_level: KeyMapLevel::L1,
            }),
    {
        CheatSheetState { is_hidden: true, keymap, current_node: 0, current_level: KeyMapLevel::L1 }
    }

    /// What the menu shows.
    pub fn dispatch_state(&self) -> (shown: DispatchState)
        ensures
            shown == self.state(),
    {
        if self.is_hidden {
            DispatchState::Hidden
        } else {
            match self.current_level {
                KeyMapLevel::L1 => DispatchState::Level1Active,
                KeyMapLevel::L2(parent) => DispatchState::Level2Active(parent),
            }
        }
    }

    /// Back to the first level, shown or hidden as before.
    pub fn reset_menu(&mut self)
        ensures
            *final(self) == old(self).at_root(),
    {
        self.current_node = 0;
        self.current_level = KeyMapLevel::L1;
    }

    /// Takes one event: moves the menu and hands out the command of the leaf
    /// that the event reached, if it reached one.
    pub fn dispatch(&mut self, event: MenuEvent) -> (result: Option<DispatchResult>)
        ensures
            *final(self) == old(self).after(event),
            result == old(self).emitted(event),
    {
        match event {
            MenuEvent::ShowMenu => {
                self.is_hidden = false;
                None
            },
            MenuEvent::Cancel => {
                if !self.is_hidden {
                    self.is_hidden = true;
                    self.reset_menu();
                }
                None
            },
            MenuEvent::Back => {
                if !self.is_hidden {
                    match self.current_level {
                        KeyMapLevel::L2(_) => {
                            self.reset_menu();
                        },
                        KeyMapLevel::L1 => {
                            self.is_hidden = true;
                        },
                    }
                }
                None
            },
            MenuEvent::Character(c) => {
                if self.is_hidden {
                    return None;
                }
                if let KeyMapLevel::L2(parent) = self.current_level {
                    if let Some(node) = self.keymap.get(&parent) {
                        if let Some(leaf) = node.next.get(&c) {
                            let result = DispatchResult {
                                command: leaf.command,
                                name: leaf.name.clone(),
                            };
                            self.is_hidden = true;
                            return Some(result);
                        }
                    }
                }
                if self.keymap.contains_key(&c) {
                    self.current_node = c;
                    self.current_level = KeyMapLevel::L2(c);
                }
                None
            },
        }
    }

    /// Takes one raw sample of a key: the shaper debounces it, and where it
    /// makes a release edge of it the menu is told what the key stands for.
    /// Any other sample leaves the menu as it is.
    pub fn sample(&mut self, shaper: &mut InputShaper, key: MenuKey, raw_pressed: bool) -> (result:
        Option<DispatchResult>)
        ensures
            final(shaper)@ == sampled(old(shaper)@, key.id() as int, raw_pressed),
            edge_at(old(shaper)@, key.id() as int, raw_pressed) == Edge::ReleaseEdge ==> {
                &&& *final(self) == old(self).after(key.released())
                &&& result == old(self).emitted(key.released())
            },
            edge_at(old(shaper)@, key.id() as int, raw_pressed) != Edge::ReleaseEdge ==> {
                &&& *final(self) == *old(self)
                &&& result is None
            },
    {
        match shaper.sample(key.id(), raw_pressed) {
            Edge::ReleaseEdge => self.dispatch(key.released()),
            _ => None,
        }
    }
}

/// From a hidden menu at the first level, showing the menu, then the key of a
/// first-level node, then the key of one of that node's leaves, goes through
/// the first level and the node's level, emits the leaf's command and name,
/// and ends hidden.
pub proof fn lemma_trace_reaches_leaf(menu: CheatSheetState, k: u8, c: u8)
    requires
        menu.is_hidden,
        menu.current_level == KeyMapLevel::L1,
        menu.keymap@.contains_key(k),
        menu.keymap@[k].next@.contains_key(c),
    ensures
        ({
            let shown = menu.after(MenuEvent::ShowMenu);
            let opened = shown.after(MenuEvent::Character(k));
            let leaf = menu.keymap@[k].next@[c];
            &&& menu.state() == DispatchState::Hidden
            &&& shown.state() == DispatchState::Level1Active
            &&& menu.emitted(MenuEvent::ShowMenu) is None
            &&& opened.state() == DispatchState::Level2Active(k)
            &&& shown.emitted(MenuEvent::Character(k)) is None
            &&& opened.emitted(MenuEvent::Character(c)) == Some(
                DispatchResult { command: leaf.command, name: leaf.name },
            )
            &&& opened.after(MenuEvent::Character(c)).state() == DispatchState::Hidden
        }),
{
}

} // verus!
