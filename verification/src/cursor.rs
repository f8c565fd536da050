//! The cursor over the matches: one of them is the selected one, moves go up
//! and down the list, and the selected one is what a commit hands out.
//!
//! Scrolling is the host's work. A move says what it asks of the viewport,
//! the host scrolls, and tells the cursor whether the viewport moved.

use crate::filter::{narrowed, texts, views, BarView, FuzzybarState, ListItem, Match};
use crate::git::{execute_cmd, planned, provided, GitAction, GitState};
use crate::keymap::Command;
use crate::vector::{
    candidates_clone, candidates_new, listed, listed_get, listed_get_mut, listed_len,
};
use vstd::prelude::*;

verus! {

/// A move down that arrives at this index or below it asks the viewport to
/// scroll down by one row.
pub const ADVANCE_THRESHOLD: usize = 8;

/// A move up that arrives at this index or above it asks the viewport to
/// scroll up by one row.
pub const RETREAT_THRESHOLD: usize = 12;

/// What a move asks of the viewport.
#[derive(Clone, Copy, Debug, PartialEq, Eq, Structural)]
pub enum ScrollRequest {
    Stay,
    Down,
    Up,
}

/// There is no match at the cursor to work on.
#[derive(Clone, Copy, Debug, PartialEq, Eq, Structural)]
pub struct EmptyResultAccess;

/// The cursor: the index of the selected match, and whether the viewport has
/// scrolled away from the top.
#[derive(Clone, Copy, Debug, PartialEq, Eq, Structural)]
pub struct Fuzzybar {
    pub selected_idx: usize,
    pub scrolled: bool,
}

/// What the bar is told.
#[derive(Clone, Copy, Debug, PartialEq, Eq, Structural)]
pub enum BarEvent {
    Cancel,
    Commit,
    MoveDown,
    MoveUp,
    QueryEdited,
}

/// What the bar asks of its host after an event.
#[derive(Debug, PartialEq, Eq)]
pub struct BarReply {
    pub action: GitAction,
    pub scroll: ScrollRequest,
    pub release_focus: bool,
}

/// A reply as contracts see it.
pub struct ReplyView {
    pub action: Option<Seq<char>>,
    pub scroll: ScrollRequest,
    pub release_focus: bool,
}

impl View for BarReply {
    type V = ReplyView;

    open spec fn view(&self) -> ReplyView {
        ReplyView {
            action: self.action@,
            scroll: self.scroll,
            release_focus: self.release_focus,
        }
    }
}

/// The reply that asks for nothing.
pub open spec fn no_reply() -> ReplyView {
    ReplyView { action: None, scroll: ScrollRequest::Stay, release_focus: false }
}

/// The items with the one at `i` made active or not.
pub open spec fn marked(items: Seq<Match>, i: int, active: bool) -> Seq<Match> {
    items.update(i, Match { text: items[i].text, active })
}

/// The items with the one at `from` made inactive and then the one at `to`
/// made active.
pub open spec fn moved(items: Seq<Match>, from: int, to: int) -> Seq<Match> {
    marked(marked(items, from, false), to, true)
}

/// The items after a reset: the one at `from`, if there is one, made
/// inactive, and then the first made active.
pub open spec fn restarted(items: Seq<Match>, from: int) -> Seq<Match> {
    if from < items.len() {
        moved(items, from, 0)
    } else {
        marked(items, 0, true)
    }
}

/// Changing the flag of one item of a list changes it in what contracts see.
proof fn lemma_views_marked(items: Seq<ListItem>, i: int, item: ListItem)
    requires
        0 <= i < items.len(),
        item.name == items[i].name,
    ensures
        views(items.update(i, item)) == marked(views(items), i, item.selected),
{
}

impl Fuzzybar {
    /// The cursor stands on the one active item of a list that is not empty.
    /// Of an empty list nothing is asked.
    pub open spec fn selects(self, items: Seq<Match>) -> bool {
        items.len() > 0 ==> {
            &&& self.selected_idx < items.len()
            &&& forall|i: int|
                0 <= i < items.len() ==> ((#[trigger] items[i]).active <==> i
                    == self.selected_idx)
        }
    }

    /// There is an item below the cursor to move to.
    pub open spec fn can_move_down(self, bar: BarView) -> bool {
        self.selected_idx + 1 < bar.filtered.len()
    }

    /// The cursor stands on an item that has one above it.
    pub open spec fn can_move_up(self, bar: BarView) -> bool {
        0 < self.selected_idx < bar.filtered.len()
    }

    /// There is an item at the cursor.
    pub open spec fn on_item(self, bar: BarView) -> bool {
        self.selected_idx < bar.filtered.len()
    }

    /// The cursor and the bar after a move down: one item further, where
    /// there is one, and as they are at the last item and on an empty list.
    pub open spec fn moved_down(self, bar: BarView) -> (Fuzzybar, BarView) {
        if self.can_move_down(bar) {
            (
                Fuzzybar { selected_idx: (self.selected_idx + 1) as usize, ..self },
                BarView {
                    filtered: moved(
                        bar.filtered,
                        self.selected_idx as int,
                        self.selected_idx + 1,
                    ),
                    ..bar
                },
            )
        } else {
            (self, bar)
        }
    }

    /// What a move down asks of the viewport: a row down where the cursor
    /// arrives at the threshold or below it, and nothing where it stays.
    pub open spec fn down_request(self, bar: BarView) -> ScrollRequest {
        if self.can_move_down(bar) && self.selected_idx + 1 >= ADVANCE_THRESHOLD {
            ScrollRequest::Down
        } else {
            ScrollRequest::Stay
        }
    }

    /// The cursor and the bar after a move up: one item back, where the
    /// cursor stands on an item that has one above it, and as they are
    /// otherwise.
    pub open spec fn moved_up(self, bar: BarView) -> (Fuzzybar, BarView) {
        if self.can_move_up(bar) {
            (
                Fuzzybar { selected_idx: (self.selected_idx - 1) as usize, ..self },
                BarView {
                    filtered: moved(
                        bar.filtered,
                        self.selected_idx as int,
                        self.selected_idx - 1,
                    ),
                    ..bar
                },
            )
        } else {
            (self, bar)
        }
    }

    /// What a move up asks of the viewport: a row up where the cursor arrives
    /// at the threshold or above it, and nothing where it stays.
    pub open spec fn up_request(self, bar: BarView) -> ScrollRequest {
        if self.can_move_up(bar) && self.selected_idx - 1 <= RETREAT_THRESHOLD {
            ScrollRequest::Up
        } else {
            ScrollRequest::Stay
        }
    }

    /// The cursor and the bar after a reset: the cursor on the first item
    /// with the viewport at the top, and as they are on an empty list.
    pub open spec fn reset(self, bar: BarView) -> (Fuzzybar, BarView) {
        if bar.filtered.len() > 0 {
            (
                Fuzzybar { selected_idx: 0, scrolled: false },
                BarView { filtered: restarted(bar.filtered, self.selected_idx as int), ..bar },
            )
        } else {
            (self, bar)
        }
    }

    /// The cursor and the bar after a commit: the bar hidden and the
    /// selection reset, and as they are with no item at the cursor.
    pub open spec fn committed(self, bar: BarView) -> (Fuzzybar, BarView) {
        if self.on_item(bar) {
            self.reset(BarView { is_hidden: true, ..bar })
        } else {
            (self, bar)
        }
    }

    /// The cursor and the bar after the candidates were taken anew: the
    /// candidates of the bar's command, narrowed by the query, and the cursor
    /// on the first match.
    pub open spec fn refreshed(self, bar: BarView, git: GitState) -> (Fuzzybar, BarView) {
        let source = texts(provided(bar.cmd, git));
        (
            Fuzzybar { selected_idx: 0, ..self },
            BarView { source, filtered: narrowed(source, bar.query), ..bar },
        )
    }

    /// The cursor and the bar after an event. A hidden bar takes no event.
    pub open spec fn after(self, bar: BarView, git: GitState, event: BarEvent) -> (
        Fuzzybar,
        BarView,
    ) {
        if bar.is_hidden {
            (self, bar)
        } else {
            match event {
                BarEvent::Cancel => self.reset(BarView { is_hidden: true, ..bar }),
                BarEvent::Commit => self.committed(bar),
                BarEvent::MoveDown => self.moved_down(bar),
                BarEvent::MoveUp => self.moved_up(bar),
                BarEvent::QueryEdited => self.refreshed(bar, git),
            }
        }
    }

    /// What the bar asks of its host after an event: a cancel gives the focus
    /// back; a commit with an item at the cursor gives the focus back and
    /// asks of the repository what the command plans for the item; a move
    /// asks for its scroll; anything else asks for nothing.
    pub open spec fn reply(self, bar: BarView, event: BarEvent) -> ReplyView {
        if bar.is_hidden {
            no_reply()
        } else {
            match event {
                BarEvent::Cancel => ReplyView { release_focus: true, ..no_reply() },
                BarEvent::Commit => if self.on_item(bar) {
                    ReplyView {
                        action: planned(bar.cmd, bar.filtered[self.selected_idx as int].text),
                        release_focus: true,
                        ..no_reply()
                    }
                } else {
                    no_reply()
                },
                BarEvent::MoveDown => ReplyView { scroll: self.down_request(bar), ..no_reply() },
                BarEvent::MoveUp => ReplyView { scroll: self.up_request(bar), ..no_reply() },
                BarEvent::QueryEdited => no_reply(),
            }
        }
    }

    /// A cursor on the first item, with the viewport at the top.
    pub fn new() -> (cursor: Self)
        ensures
            cursor == (Fuzzybar { selected_idx: 0, scrolled: false }),
    {
        Fuzzybar { selected_idx: 0, scrolled: false }
    }

    /// Sets the flag of the item at an index, if there is one.
    fn mark(data: &mut FuzzybarState, index: usize, active: bool)
        ensures
            final(data)@ == (BarView {
                filtered: if index < old(data)@.filtered.len() {
                    marked(old(data)@.filtered, index as int, active)
                } else {
                    old(data)@.filtered
                },
                ..old(data)@
            }),
    {
        let ghost before = listed(data.filtered);
        if let Some(item) = listed_get_mut(&mut data.filtered, index) {
            item.selected = active;
            proof {
                lemma_views_marked(before, index as int, *item);
            }
        }
    }

    /// Moves the cursor one item down and says what that asks of the
    /// viewport. At the last item, and on an empty list, nothing changes and
    /// nothing is asked.
    pub fn move_selection_down(&mut self, data: &mut FuzzybarState) -> (request: ScrollRequest)
        ensures
            (*final(self), final(data)@) == old(self).moved_down(old(data)@),
            request == old(self).down_request(old(data)@),
            old(self).selects(old(data)@.filtered) ==> final(self).selects(final(data)@.filtered),
    {
        let len = listed_len(&data.filtered);
        if len == 0 || self.selected_idx >= len - 1 {
            return ScrollRequest::Stay;
        }
        Self::mark(data, self.selected_idx, false);
        Self::mark(data, self.selected_idx + 1, true);
        self.selected_idx += 1;
        if self.selected_idx >= ADVANCE_THRESHOLD {
            ScrollRequest::Down
        } else {
            ScrollRequest::Stay
        }
    }

    /// Moves the cursor one item up and says what that asks of the viewport.
    /// At the first item, and with no item at the cursor, nothing changes and
    /// nothing is asked.
    pub fn move_selection_up(&mut self, data: &mut FuzzybarState) -> (request: ScrollRequest)
        ensures
            (*final(self), final(data)@) == old(self).moved_up(old(data)@),
            request == old(self).up_request(old(data)@),
            old(self).selects(old(data)@.filtered) ==> final(self).selects(final(data)@.filtered),
    {
        let len = listed_len(&data.filtered);
        if self.selected_idx == 0 || self.selected_idx >= len {
            return ScrollRequest::Stay;
        }
        Self::mark(data, self.selected_idx, false);
        Self::mark(data, self.selected_idx - 1, true);
        self.selected_idx -= 1;
        if self.selected_idx <= RETREAT_THRESHOLD {
            ScrollRequest::Up
        } else {
            ScrollRequest::Stay
        }
    }

    /// Takes note of what the viewport did when asked to scroll down: from
    /// the threshold on, the viewport counts as scrolled once it has moved.
    pub fn scroll_down(&mut self, viewport_moved: bool)
        ensures
            final(self).selected_idx == old(self).selected_idx,
            final(self).scrolled == if old(self).selected_idx < ADVANCE_THRESHOLD {
                old(self).scrolled
            } else {
                old(self).scrolled || viewport_moved
            },
    {
        if self.selected_idx < ADVANCE_THRESHOLD {
            return ;
        }
        if !self.scrolled {
            self.scrolled = viewport_moved;
        }
    }

    /// Takes note of what the viewport did when asked to scroll up: up to the
    /// threshold, the viewport counts as scrolled if it has just moved.
    pub fn scroll_up(&mut self, viewport_moved: bool)
        ensures
            final(self).selected_idx == old(self).selected_idx,
            final(self).scrolled == if old(self).selected_idx > RETREAT_THRESHOLD {
                old(self).scrolled
            } else {
                viewport_moved
            },
    {
        if self.selected_idx > RETREAT_THRESHOLD {
            return ;
        }
        self.scrolled = viewport_moved;
    }

    /// Puts the cursor back on the first item, with the viewport at the top.
    /// On an empty list there is nothing to select: nothing changes, and the
    /// outcome says so.
    pub fn reset_selection(&mut self, data: &mut FuzzybarState) -> (outcome: Result<
        (),
        EmptyResultAccess,
    >)
        ensures
            outcome is Ok <==> old(data)@.filtered.len() > 0,
            (*final(self), final(data)@) == old(self).reset(old(data)@),
            old(self).selects(old(data)@.filtered) ==> final(self).selects(final(data)@.filtered),
    {
        if listed_len(&data.filtered) == 0 {
            return Err(EmptyResultAccess);
        }
        Self::mark(data, self.selected_idx, false);
        Self::mark(data, 0, true);
        self.selected_idx = 0;
        self.scrolled = false;
        Ok(())
    }

    /// The text of the item at the cursor, for whoever carries the command
    /// out. With no item at the cursor the outcome says so.
    pub fn commit(&self, data: &FuzzybarState) -> (text: Result<String, EmptyResultAccess>)
        ensures
            text is Ok <==> self.on_item(data@),
            text matches Ok(chosen) ==> chosen@ == data@.filtered[self.selected_idx as int].text,
    {
        match listed_get(&data.filtered, self.selected_idx) {
            Some(item) => Ok(item.name.clone()),
            None => Err(EmptyResultAccess),
        }
    }

    /// Commits the item at the cursor: hides the bar, says what the bar's
    /// command asks of the repository for that item, and resets the
    /// selection. With no item at the cursor nothing changes, and the outcome
    /// says so.
    pub fn execute_cmd(&mut self, data: &mut FuzzybarState) -> (action: Result<
        GitAction,
        EmptyResultAccess,
    >)
        ensures
            action is Ok <==> old(self).on_item(old(data)@),
            action matches Ok(asked) ==> asked@ == planned(
                old(data).cmd,
                old(data)@.filtered[old(self).selected_idx as int].text,
            ),
            (*final(self), final(data)@) == old(self).committed(old(data)@),
            old(self).selects(old(data)@.filtered) ==> final(self).selects(final(data)@.filtered),
    {
        let asked = match self.commit(data) {
            Ok(chosen) => execute_cmd(data.cmd, chosen.as_str()),
            Err(e) => {
                return Err(e);
            },
        };
        data.is_hidden = true;
        let _ = self.reset_selection(data);
        Ok(asked)
    }

    /// Takes the candidates that the bar's command chooses among, narrows
    /// them by the query, and puts the cursor on the first match.
    pub fn update_source(&mut self, data: &mut FuzzybarState, git: &GitState)
        ensures
            (*final(self), final(data)@) == old(self).refreshed(old(data)@, *git),
            final(self).selects(final(data)@.filtered),
    {
        let source = match data.cmd {
            Command::BranchCheckout => candidates_clone(&git.all_branches),
            _ => candidates_new(),
        };
        data.source = source;
        data.filter();
        self.selected_idx = 0;
    }

    /// Shows the bar for a command: takes the command's candidates, narrows
    /// them by the query as it stands, and puts the cursor on the first
    /// match.
    pub fn open(&mut self, data: &mut FuzzybarState, git: &GitState, cmd: Command)
        ensures
            (*final(self), final(data)@) == old(self).refreshed(
                BarView { is_hidden: false, cmd, ..old(data)@ },
                *git,
            ),
            final(self).selects(final(data)@.filtered),
    {
        data.is_hidden = false;
        data.cmd = cmd;
        self.update_source(data, git);
    }

    /// Takes one event for the bar and says what the host is to do. A hidden
    /// bar takes no event.
    pub fn event(&mut self, data: &mut FuzzybarState, git: &GitState, event: BarEvent) -> (reply:
        BarReply)
        ensures
            (*final(self), final(data)@) == old(self).after(old(data)@, *git, event),
            reply@ == old(self).reply(old(data)@, event),
            old(self).selects(old(data)@.filtered) ==> final(self).selects(final(data)@.filtered),
    {
        let mut reply = BarReply {
            action: GitAction::Nothing,
            scroll: ScrollRequest::Stay,
            release_focus: false,
        };
        if data.is_hidden {
            return reply;
        }
        match event {
            BarEvent::Cancel => {
                data.is_hidden = true;
                let _ = self.reset_selection(data);
                reply.release_focus = true;
            },
            BarEvent::Commit => {
                if let Ok(asked) = self.execute_cmd(data) {
                    reply.action = asked;
                    reply.release_focus = true;
                }
            },
            BarEvent::MoveDown => {
                reply.scroll = self.move_selection_down(data);
            },
            BarEvent::MoveUp => {
                reply.scroll = self.move_selection_up(data);
            },
            BarEvent::QueryEdited => {
                self.update_source(data, git);
            },
        }
        reply
    }
}

/// A move down at the last item and a move up at the first leave the cursor
/// and the bar as they are, and ask nothing of the viewport.
pub proof fn lemma_moves_stop_at_the_ends(cursor: Fuzzybar, bar: BarView)
    ensures
        cursor.selected_idx + 1 == bar.filtered.len() ==> cursor.moved_down(bar) == (cursor, bar)
            && cursor.down_request(bar) == ScrollRequest::Stay,
        cursor.selected_idx == 0 ==> cursor.moved_up(bar) == (cursor, bar) && cursor.up_request(
            bar,
        ) == ScrollRequest::Stay,
{
}

/// What a query leaves of the candidates has its first item active and no
/// other: a cursor on the first item selects it.
pub proof fn lemma_narrowed_selects_first(
    source: Seq<Seq<char>>,
    query: Seq<char>,
    scrolled: bool,
)
    ensures
        (Fuzzybar { selected_idx: 0, scrolled }).selects(narrowed(source, query)),
        narrowed(source, query).len() <= crate::filter::MAX_MATCHES,
{
}

/// A list that the cursor selects has exactly one active item after a move
/// in either direction and after a reset, the one that the cursor then
/// stands on. The list is one that a vector can hold.
pub proof fn lemma_moves_keep_one_active(cursor: Fuzzybar, bar: BarView)
    requires
        cursor.selects(bar.filtered),
        bar.filtered.len() <= usize::MAX,
    ensures
        cursor.moved_down(bar).0.selects(cursor.moved_down(bar).1.filtered),
        cursor.moved_up(bar).0.selects(cursor.moved_up(bar).1.filtered),
        cursor.reset(bar).0.selects(cursor.reset(bar).1.filtered),
        cursor.moved_down(bar).1.filtered.len() == bar.filtered.len(),
        cursor.moved_up(bar).1.filtered.len() == bar.filtered.len(),
{
}

} // verus!
