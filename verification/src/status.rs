//! The state of the working tree and of the index, sorted into what is
//! untracked, what is changed and not staged, and what is staged.

use crate::filter::texts;
use crate::vector::{
    candidates, candidates_new, candidates_push_back, pairs, pairs_new, pairs_push_back,
};
use im::Vector;
use vstd::prelude::*;

verus! {

/// The kind of a path that the index holds and the last commit does not.
pub const ST_NEW: &'static str = "new";

/// The kind of a path whose content has changed.
pub const ST_MODIFIED: &'static str = "modified";

/// The kind of a path that had another name.
pub const ST_RENAMED: &'static str = "renamed";

/// The kind of a path that is gone.
pub const ST_DELETED: &'static str = "deleted";

/// The kind of a path that has become another kind of file.
pub const ST_TYPECHANGE: &'static str = "typechange";

/// What is known of one path: whether it is new in the working tree and
/// nothing else, and each kind of change that the working tree and the index
/// hold of it.
#[derive(Debug)]
pub struct StatusEntry {
    pub path: String,
    pub untracked: bool,
    pub wt_modified: bool,
    pub wt_renamed: bool,
    pub wt_deleted: bool,
    pub wt_typechange: bool,
    pub index_new: bool,
    pub index_modified: bool,
    pub index_renamed: bool,
    pub index_deleted: bool,
    pub index_typechange: bool,
}

/// The paths by what is to be done with them. A changed path stands with the
/// kind of its change before it.
#[derive(Debug)]
pub struct RepoStatusDetail {
    pub untracked: Vector<String>,
    pub unstaged: Vector<(String, String)>,
    pub staged: Vector<(String, String)>,
    pub stashed: Vector<String>,
}

/// A change as contracts see it: its kind and its path.
pub type Change = (Seq<char>, Seq<char>);

/// The sorted paths as contracts see them.
pub struct StatusView {
    pub untracked: Seq<Seq<char>>,
    pub unstaged: Seq<Change>,
    pub staged: Seq<Change>,
    pub stashed: Seq<Seq<char>>,
}

impl View for RepoStatusDetail {
    type V = StatusView;

    open spec fn view(&self) -> StatusView {
        StatusView {
            untracked: texts(candidates(self.untracked)),
            unstaged: changes(pairs(self.unstaged)),
            staged: changes(pairs(self.staged)),
            stashed: texts(candidates(self.stashed)),
        }
    }
}

/// A list of pairs of strings as contracts see it.
pub open spec fn changes(list: Seq<(String, String)>) -> Seq<Change> {
    list.map_values(|pair: (String, String)| (pair.0@, pair.1@))
}

/// The one change of a kind, where the path has it, and none where it has
/// not.
pub open spec fn change(present: bool, kind: Seq<char>, path: Seq<char>) -> Seq<Change> {
    if present {
        seq![(kind, path)]
    } else {
        Seq::empty()
    }
}

/// What one path adds to the untracked ones.
pub open spec fn untracked_of(entry: StatusEntry) -> Seq<Seq<char>> {
    if entry.untracked {
        seq![entry.path@]
    } else {
        Seq::empty()
    }
}

/// What one path adds to the changes that are not staged: modified, renamed,
/// deleted, type changed, in this order.
pub open spec fn unstaged_of(entry: StatusEntry) -> Seq<Change> {
    change(entry.wt_modified, ST_MODIFIED@, entry.path@) + change(
        entry.wt_renamed,
        ST_RENAMED@,
        entry.path@,
    ) + change(entry.wt_deleted, ST_DELETED@, entry.path@) + change(
        entry.wt_typechange,
        ST_TYPECHANGE@,
        entry.path@,
    )
}

/// What one path adds to the staged changes: new, modified, renamed, deleted,
/// type changed, in this order.
pub open spec fn staged_of(entry: StatusEntry) -> Seq<Change> {
    change(entry.index_new, ST_NEW@, entry.path@) + change(
        entry.index_modified,
        ST_MODIFIED@,
        entry.path@,
    ) + change(entry.index_renamed, ST_RENAMED@, entry.path@) + change(
        entry.index_deleted,
        ST_DELETED@,
        entry.path@,
    ) + change(entry.index_typechange, ST_TYPECHANGE@, entry.path@)
}

/// The paths sorted: what each adds, path after path.
pub open spec fn sorted(entries: Seq<StatusEntry>) -> StatusView
    decreases entries.len(),
{
    if entries.len() == 0 {
        StatusView {
            untracked: Seq::empty(),
            unstaged: Seq::empty(),
            staged: Seq::empty(),
            stashed: Seq::empty(),
        }
    } else {
        let before = sorted(entries.drop_last());
        StatusView {
            untracked: before.untracked + untracked_of(entries.last()),
            unstaged: before.unstaged + unstaged_of(entries.last()),
            staged: before.staged + staged_of(entries.last()),
            stashed: before.stashed,
        }
    }
}

/// Adds a change of a kind behind the others, where the path has it.
fn push_change(list: &mut Vector<(String, String)>, present: bool, kind: &str, path: &String)
    requires
        pairs(*old(list)).len() < usize::MAX,
    ensures
        changes(pairs(*final(list))) == changes(pairs(*old(list))) + change(
            present,
            kind@,
            path@,
        ),
        pairs(*final(list)).len() <= pairs(*old(list)).len() + 1,
{
    if present {
        let ghost before = pairs(*list);
        let pair = (kind.to_owned(), path.clone());
        pairs_push_back(list, pair);
        assert(changes(before.push(pair)) == changes(before).push((kind@, path@)));
    }
}

/// Adds what one path adds to the changes that are not staged.
fn push_unstaged(list: &mut Vector<(String, String)>, entry: &StatusEntry)
    requires
        pairs(*old(list)).len() + 4 < usize::MAX,
    ensures
        changes(pairs(*final(list))) == changes(pairs(*old(list))) + unstaged_of(*entry),
        pairs(*final(list)).len() <= pairs(*old(list)).len() + 4,
{
    push_change(list, entry.wt_modified, ST_MODIFIED, &entry.path);
    push_change(list, entry.wt_renamed, ST_RENAMED, &entry.path);
    push_change(list, entry.wt_deleted, ST_DELETED, &entry.path);
    push_change(list, entry.wt_typechange, ST_TYPECHANGE, &entry.path);
}

/// Adds what one path adds to the staged changes.
fn push_staged(list: &mut Vector<(String, String)>, entry: &StatusEntry)
    requires
        pairs(*old(list)).len() + 5 < usize::MAX,
    ensures
        changes(pairs(*final(list))) == changes(pairs(*old(list))) + staged_of(*entry),
        pairs(*final(list)).len() <= pairs(*old(list)).len() + 5,
{
    push_change(list, entry.index_new, ST_NEW, &entry.path);
    push_change(list, entry.index_modified, ST_MODIFIED, &entry.path);
    push_change(list, entry.index_renamed, ST_RENAMED, &entry.path);
    push_change(list, entry.index_deleted, ST_DELETED, &entry.path);
    push_change(list, entry.index_typechange, ST_TYPECHANGE, &entry.path);
}

/// Adds what one path adds to the untracked ones.
fn push_untracked(list: &mut Vector<String>, entry: &StatusEntry)
    requires
        candidates(*old(list)).len() < usize::MAX,
    ensures
        texts(candidates(*final(list))) == texts(candidates(*old(list))) + untracked_of(*entry),
        candidates(*final(list)).len() <= candidates(*old(list)).len() + 1,
{
    if entry.untracked {
        let ghost before = candidates(*list);
        let path = entry.path.clone();
        candidates_push_back(list, path);
        assert(texts(before.push(path)) == texts(before).push(entry.path@));
    }
}

impl RepoStatusDetail {
    /// Sorts the paths, in the order in which they come.
    pub fn new(entries: Vec<StatusEntry>) -> (detail: Self)
        requires
            5 * entries.len() + 5 < usize::MAX,
        ensures
            detail@ == sorted(entries@),
    {
        let mut detail = RepoStatusDetail {
            untracked: candidates_new(),
            unstaged: pairs_new(),
            staged: pairs_new(),
            stashed: candidates_new(),
        };
        let mut i: usize = 0;
        proof {
            assert(entries@.take(0) == Seq::<StatusEntry>::empty());
            assert(detail@.untracked == Seq::<Seq<char>>::empty());
            assert(detail@.stashed == Seq::<Seq<char>>::empty());
            assert(detail@.unstaged == Seq::<Change>::empty());
            assert(detail@.staged == Seq::<Change>::empty());
        }
        while i < entries.len()
            invariant
                i <= entries.len(),
                5 * entries.len() + 5 < usize::MAX,
                detail@ == sorted(entries@.take(i as int)),
                candidates(detail.untracked).len() <= i,
                pairs(detail.unstaged).len() <= 4 * i,
                pairs(detail.staged).len() <= 5 * i,
            decreases entries.len() - i,
        {
            let entry = &entries[i];
            proof {
                assert(entries@.take(i + 1).drop_last() == entries@.take(i as int));
                assert(entries@.take(i + 1).last() == *entry);
            }
            push_untracked(&mut detail.untracked, entry);
            push_unstaged(&mut detail.unstaged, entry);
            push_staged(&mut detail.staged, entry);
            i += 1;
        }
        assert(entries@.take(entries.len() as int) == entries@);
        detail
    }
}

impl Default for RepoStatusDetail {
    fn default() -> (detail: Self)
        ensures
            detail@ == sorted(Seq::empty()),
    {
        RepoStatusDetail::new(Vec::new())
    }
}

} // verus!
