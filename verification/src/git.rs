//! What the palette knows of the repository, and what it asks of it.

use crate::filter::texts;
use crate::keymap::Command;
use crate::vector::{
    candidates, candidates_clone, candidates_get, candidates_len, candidates_new,
    candidates_push_back,
};
use im::Vector;
use vstd::prelude::*;
use vstd::string::{StrSliceExecFns, StringExecFns};

verus! {

/// The branches of the repository: the local ones, the remote ones, and both
/// in one list, the local ones first.
#[derive(Debug)]
pub struct GitState {
    pub local_branches: Vector<String>,
    pub remote_branches: Vector<String>,
    pub all_branches: Vector<String>,
}

/// What is to be done to the repository.
#[derive(Debug, PartialEq, Eq)]
pub enum GitAction {
    Nothing,
    CheckoutBranch(String),
}

impl View for GitAction {
    type V = Option<Seq<char>>;

    /// The reference to check out, if one is to be.
    open spec fn view(&self) -> Option<Seq<char>> {
        match self {
            GitAction::Nothing => None,
            GitAction::CheckoutBranch(reference) => Some(reference@),
        }
    }
}

/// The full name of the reference of a local branch.
pub open spec fn branch_reference(name: Seq<char>) -> Seq<char> {
    "refs/heads/"@ + name
}

/// What a command asks of the repository once an entry is chosen: checking
/// out a branch makes the chosen entry's reference the head, and no other
/// command touches the repository.
pub open spec fn planned(cmd: Command, selection: Seq<char>) -> Option<Seq<char>> {
    match cmd {
        Command::BranchCheckout => Some(branch_reference(selection)),
        _ => None,
    }
}

/// The candidates that a command chooses among: the branches for a checkout,
/// and none for any other command.
pub open spec fn provided(cmd: Command, git: GitState) -> Seq<String> {
    match cmd {
        Command::BranchCheckout => candidates(git.all_branches),
        _ => Seq::empty(),
    }
}

/// Where a branch lives.
#[derive(Clone, Copy, Debug, PartialEq, Eq, Structural)]
pub enum BranchKind {
    Local,
    Remote,
}

/// What the window says of the repository at its top: the head and the
/// branch it follows, each with the first line of its last commit's message,
/// and the latest tag.
#[derive(Debug, PartialEq, Eq)]
pub struct RepoHeader {
    pub local_head: (String, String),
    pub remote_head: (String, String),
    pub tag: String,
}

/// The header as contracts see it.
pub struct HeaderView {
    pub local_head: (Seq<char>, Seq<char>),
    pub remote_head: (Seq<char>, Seq<char>),
    pub tag: Seq<char>,
}

impl View for RepoHeader {
    type V = HeaderView;

    open spec fn view(&self) -> HeaderView {
        HeaderView {
            local_head: (self.local_head.0@, self.local_head.1@),
            remote_head: (self.remote_head.0@, self.remote_head.1@),
            tag: self.tag@,
        }
    }
}

/// A text is the first line of a message: the message up to its first line
/// break, and all of it where it has none.
pub open spec fn is_first_line(line: Seq<char>, message: Seq<char>) -> bool {
    &&& line.len() <= message.len()
    &&& line == message.take(line.len() as int)
    &&& !line.contains('\n')
    &&& line.len() < message.len() ==> message[line.len() as int] == '\n'
}

/// The names of the branches of one kind, in their order.
pub open spec fn of_kind(found: Seq<(String, BranchKind)>, kind: BranchKind) -> Seq<Seq<char>> {
    found.filter(|branch: (String, BranchKind)| branch.1 == kind).map_values(
        |branch: (String, BranchKind)| branch.0@,
    )
}

/// What the header shows of the commit that a reference points at: its id
/// as it is, and the first line of its message.
pub fn get_commit_from_ref(id: String, message: &str) -> (commit: (String, String))
    ensures
        commit.0@ == id@,
        is_first_line(commit.1@, message@),
{
    let total = message.unicode_len();
    let mut n: usize = 0;
    let mut ended = false;
    for c in it: message.chars()
        invariant
            it.seq() == message@,
            total == message@.len(),
            n <= it.index(),
            !ended ==> n == it.index(),
            ended ==> n < message@.len() && message@[n as int] == '\n',
            forall|i: int| 0 <= i < n ==> message@[i] != '\n',
    {
        if !ended {
            if c == '\n' {
                ended = true;
            } else {
                n += 1;
            }
        }
    }
    let line = message.substring_char(0, n).to_owned();
    assert(message@.subrange(0, n as int) == message@.take(n as int));
    (id, line)
}

/// A message has one first line.
pub proof fn lemma_first_line_is_unique(a: Seq<char>, b: Seq<char>, message: Seq<char>)
    requires
        is_first_line(a, message),
        is_first_line(b, message),
    ensures
        a == b,
{
    if a.len() < b.len() {
        assert(b[a.len() as int] == '\n');
        assert(b.contains('\n'));
    } else if b.len() < a.len() {
        assert(a[b.len() as int] == '\n');
        assert(a.contains('\n'));
    }
}

/// The latest tag as the header shows it: a tag that was found and could be
/// written out as it is, nothing for one that could not be written out, and
/// a note where none was found.
pub fn get_latest_tag(described: Option<Option<String>>) -> (tag: String)
    ensures
        tag@ == match described {
            Some(Some(name)) => name@,
            Some(None) => ""@,
            None => "<no-tags>"@,
        },
{
    match described {
        Some(Some(name)) => name,
        Some(None) => "".to_owned(),
        None => "<no-tags>".to_owned(),
    }
}

/// The header from what was read of the repository: the head and the branch
/// it follows, each with its name and the first line of its last commit's
/// message. A head that follows no branch says so.
pub fn get_repo_header(
    tag: String,
    head: (String, String),
    upstream: Option<(String, String)>,
) -> (header: RepoHeader)
    ensures
        header@ == (HeaderView {
            local_head: (head.0@, head.1@),
            remote_head: match upstream {
                Some(followed) => (followed.0@, followed.1@),
                None => ("<no-upstream>"@, "-"@),
            },
            tag: tag@,
        }),
{
    let remote_head = match upstream {
        Some(followed) => followed,
        None => ("<no-upstream>".to_owned(), "-".to_owned()),
    };
    RepoHeader { local_head: head, remote_head, tag }
}

/// The branches that were found, sorted into the local and the remote ones,
/// each kind in the order in which its branches came.
pub fn get_branches(found: Vec<(String, BranchKind)>) -> (branches: (
    Vector<String>,
    Vector<String>,
))
    requires
        found.len() < usize::MAX,
    ensures
        texts(candidates(branches.0)) == of_kind(found@, BranchKind::Local),
        texts(candidates(branches.1)) == of_kind(found@, BranchKind::Remote),
{
    let mut local = candidates_new();
    let mut remote = candidates_new();
    let mut i: usize = 0;
    proof {
        assert(found@.take(0) == Seq::<(String, BranchKind)>::empty());
        lemma_of_kind_empty(BranchKind::Local);
        lemma_of_kind_empty(BranchKind::Remote);
        assert(texts(candidates(local)) == Seq::<Seq<char>>::empty());
        assert(texts(candidates(remote)) == Seq::<Seq<char>>::empty());
    }
    while i < found.len()
        invariant
            i <= found.len(),
            found.len() < usize::MAX,
            candidates(local).len() <= i,
            candidates(remote).len() <= i,
            texts(candidates(local)) == of_kind(found@.take(i as int), BranchKind::Local),
            texts(candidates(remote)) == of_kind(found@.take(i as int), BranchKind::Remote),
        decreases found.len() - i,
    {
        let branch = &found[i];
        proof {
            assert(found@.take(i + 1) == found@.take(i as int).push(*branch));
            lemma_of_kind_push(found@.take(i as int), *branch, BranchKind::Local);
            lemma_of_kind_push(found@.take(i as int), *branch, BranchKind::Remote);
        }
        let ghost locals = candidates(local);
        let ghost remotes = candidates(remote);
        let name = branch.0.clone();
        match branch.1 {
            BranchKind::Local => {
                candidates_push_back(&mut local, name);
                assert(texts(locals.push(name)) == texts(locals).push(name@));
            },
            BranchKind::Remote => {
                candidates_push_back(&mut remote, name);
                assert(texts(remotes.push(name)) == texts(remotes).push(name@));
            },
        }
        i += 1;
    }
    assert(found@.take(found.len() as int) == found@);
    (local, remote)
}

/// No branches hold none of any kind.
proof fn lemma_of_kind_empty(kind: BranchKind)
    ensures
        of_kind(Seq::empty(), kind) == Seq::<Seq<char>>::empty(),
{
    reveal(Seq::filter);
}

/// One more branch adds its name to those of its kind, and nothing to those
/// of the other.
proof fn lemma_of_kind_push(
    found: Seq<(String, BranchKind)>,
    branch: (String, BranchKind),
    kind: BranchKind,
)
    ensures
        of_kind(found.push(branch), kind) == if branch.1 == kind {
            of_kind(found, kind).push(branch.0@)
        } else {
            of_kind(found, kind)
        },
{
    reveal(Seq::filter);
    assert(found.push(branch).drop_last() == found);
}

/// The full name of the reference of a local branch.
pub fn checkout_branch(name: &str) -> (reference: String)
    ensures
        reference@ == branch_reference(name@),
{
    let head = "refs/heads/".to_owned();
    head.concat(name)
}

/// What a command asks of the repository once an entry is chosen.
pub fn execute_cmd(cmd: Command, selection: &str) -> (action: GitAction)
    ensures
        action@ == planned(cmd, selection@),
{
    match cmd {
        Command::BranchCheckout => GitAction::CheckoutBranch(checkout_branch(selection)),
        _ => GitAction::Nothing,
    }
}

/// Adds copies of the strings of `more` behind those of `all`.
fn extend(all: &mut Vector<String>, more: &Vector<String>)
    requires
        candidates(*old(all)).len() + candidates(*more).len() < usize::MAX,
    ensures
        candidates(*final(all)) == candidates(*old(all)) + candidates(*more),
{
    let count = candidates_len(more);
    let mut i: usize = 0;
    while i < count
        invariant
            i <= count,
            count == candidates(*more).len(),
            candidates(*old(all)).len() + candidates(*more).len() < usize::MAX,
            candidates(*all) == candidates(*old(all)) + candidates(*more).take(i as int),
        decreases count - i,
    {
        if let Some(name) = candidates_get(more, i) {
            candidates_push_back(all, name.clone());
        }
        assert(candidates(*more).take(i + 1) == candidates(*more).take(i as int).push(
            candidates(*more)[i as int],
        ));
        i += 1;
    }
    assert(candidates(*more).take(count as int) == candidates(*more));
}

impl GitState {
    /// The branches of a repository from its local and its remote ones.
    pub fn new(local: Vector<String>, remote: Vector<String>) -> (git: Self)
        requires
            candidates(local).len() + candidates(remote).len() < usize::MAX,
        ensures
            candidates(git.local_branches) == candidates(local),
            candidates(git.remote_branches) == candidates(remote),
            candidates(git.all_branches) == candidates(local) + candidates(remote),
    {
        let mut all = candidates_clone(&local);
        extend(&mut all, &remote);
        GitState { local_branches: local, remote_branches: remote, all_branches: all }
    }
}

} // verus!
