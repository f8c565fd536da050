//! The list of candidates and what a query leaves of it.

use crate::keymap::Command;
use crate::text::{occurs_in, str_contains};
use crate::vector::{
    candidates, candidates_get, candidates_len, listed, listed_len, listed_new, listed_push_back,
};
use im::Vector;
use vstd::prelude::*;

verus! {

/// No query leaves more matches than this.
pub const MAX_MATCHES: usize = 20;

/// One match: its text, and whether it is the selected one.
#[derive(Debug, PartialEq, Eq)]
pub struct ListItem {
    pub name: String,
    pub selected: bool,
}

impl Clone for ListItem {
    fn clone(&self) -> (copy: Self)
        ensures
            copy == *self,
    {
        ListItem { name: self.name.clone(), selected: self.selected }
    }
}

/// A match as contracts see it.
pub struct Match {
    pub text: Seq<char>,
    pub active: bool,
}

impl View for ListItem {
    type V = Match;

    open spec fn view(&self) -> Match {
        Match { text: self.name@, active: self.selected }
    }
}

/// The search bar: the command it serves, the query, the candidates and the
/// matches that the query left of them.
#[derive(Debug)]
pub struct FuzzybarState {
    pub is_hidden: bool,
    pub cmd: Command,
    pub query: String,
    pub source: Vector<String>,
    pub filtered: Vector<ListItem>,
}

/// The texts of a list of strings.
pub open spec fn texts(names: Seq<String>) -> Seq<Seq<char>> {
    names.map_values(|name: String| name@)
}

/// A list of items as contracts see it.
pub open spec fn views(items: Seq<ListItem>) -> Seq<Match> {
    items.map_values(|item: ListItem| item@)
}

/// The search bar as contracts see it.
pub struct BarView {
    pub is_hidden: bool,
    pub cmd: Command,
    pub query: Seq<char>,
    pub source: Seq<Seq<char>>,
    pub filtered: Seq<Match>,
}

impl View for FuzzybarState {
    type V = BarView;

    open spec fn view(&self) -> BarView {
        BarView {
            is_hidden: self.is_hidden,
            cmd: self.cmd,
            query: self.query@,
            source: texts(candidates(self.source)),
            filtered: views(listed(self.filtered)),
        }
    }
}

/// The candidates in which the query occurs, in their order.
pub open spec fn matching(source: Seq<Seq<char>>, query: Seq<char>) -> Seq<Seq<char>> {
    source.filter(|text: Seq<char>| occurs_in(query, text))
}

/// What a query leaves of the candidates: the first `MAX_MATCHES` of those in
/// which it occurs, in their order, the first of them active and no other.
pub open spec fn narrowed(source: Seq<Seq<char>>, query: Seq<char>) -> Seq<Match> {
    let found = matching(source, query);
    Seq::new(
        if found.len() < MAX_MATCHES {
            found.len()
        } else {
            MAX_MATCHES as nat
        },
        |i: int| Match { text: found[i], active: i == 0 },
    )
}

/// One more candidate adds itself to the matching ones if the query occurs
/// in it, and nothing otherwise.
proof fn lemma_matching_push(source: Seq<Seq<char>>, text: Seq<char>, query: Seq<char>)
    ensures
        matching(source.push(text), query) == if occurs_in(query, text) {
            matching(source, query).push(text)
        } else {
            matching(source, query)
        },
{
    reveal(Seq::filter);
    assert(source.push(text).drop_last() == source);
}

/// Once a part of the candidates holds `MAX_MATCHES` matching ones, the
/// candidates behind it change nothing.
proof fn lemma_narrowed_full(source: Seq<Seq<char>>, n: int, query: Seq<char>)
    requires
        0 <= n <= source.len(),
        matching(source.take(n), query).len() >= MAX_MATCHES,
    ensures
        narrowed(source, query) == narrowed(source.take(n), query),
{
    let pred = |text: Seq<char>| occurs_in(query, text);
    assert(source == source.take(n) + source.skip(n));
    Seq::filter_distributes_over_add(source.take(n), source.skip(n), pred);
    assert(matching(source, query) == matching(source.take(n), query) + matching(
        source.skip(n),
        query,
    ));
}

/// The empty query occurs in every candidate, so it leaves the first
/// `MAX_MATCHES` candidates as they come.
pub proof fn lemma_empty_query_matches_everything(source: Seq<Seq<char>>)
    ensures
        matching(source, Seq::empty()) == source,
        narrowed(source, Seq::empty()).len() == if source.len() < MAX_MATCHES {
            source.len()
        } else {
            MAX_MATCHES as nat
        },
        forall|i: int|
            0 <= i < narrowed(source, Seq::empty()).len() ==> (#[trigger] narrowed(
                source,
                Seq::empty(),
            )[i]).text == source[i],
    decreases source.len(),
{
    reveal(Seq::filter);
    if source.len() > 0 {
        lemma_empty_query_matches_everything(source.drop_last());
        let text = source.last();
        assert(text.subrange(0, 0) == Seq::<char>::empty());
        assert(occurs_in(Seq::empty(), text));
        assert(source.drop_last().push(text) == source);
    }
}

/// What a query leaves holds the query in each of its texts, comes from the
/// candidates, and is empty exactly where the query occurs in no candidate.
pub proof fn lemma_matches_hold_the_query(source: Seq<Seq<char>>, query: Seq<char>)
    ensures
        forall|i: int|
            0 <= i < narrowed(source, query).len() ==> occurs_in(
                query,
                (#[trigger] narrowed(source, query)[i]).text,
            ) && source.contains(narrowed(source, query)[i].text),
        narrowed(source, query).len() == 0 <==> forall|j: int|
            0 <= j < source.len() ==> !occurs_in(query, #[trigger] source[j]),
{
    let pred = |text: Seq<char>| occurs_in(query, text);
    let found = matching(source, query);
    broadcast use vstd::seq_lib::group_filter_ensures;

    assert forall|i: int| 0 <= i < narrowed(source, query).len() implies occurs_in(
        query,
        (#[trigger] narrowed(source, query)[i]).text,
    ) && source.contains(narrowed(source, query)[i].text) by {
        assert(pred(found[i]));
        lemma_filtered_comes_from(source, query, i);
    }
    if narrowed(source, query).len() == 0 {
        assert(found.len() == 0);
        assert forall|j: int| 0 <= j < source.len() implies !occurs_in(
            query,
            #[trigger] source[j],
        ) by {
            if pred(source[j]) {
                assert(found.contains(source[j]));
            }
        }
    } else {
        assert(pred(found[0]));
        lemma_filtered_comes_from(source, query, 0);
        let j = choose|j: int| 0 <= j < source.len() && source[j] == found[0];
        assert(occurs_in(query, source[j]));
    }
}

/// Each of the matching candidates is one of the candidates.
proof fn lemma_filtered_comes_from(source: Seq<Seq<char>>, query: Seq<char>, i: int)
    requires
        0 <= i < matching(source, query).len(),
    ensures
        source.contains(matching(source, query)[i]),
    decreases source.len(),
{
    reveal(Seq::filter);
    if source.len() > 0 {
        let before = source.drop_last();
        if i < matching(before, query).len() {
            lemma_filtered_comes_from(before, query, i);
            let j = choose|j: int| 0 <= j < before.len() && before[j] == matching(before, query)[i];
            assert(source[j] == matching(source, query)[i]);
        } else {
            assert(source[source.len() - 1] == matching(source, query)[i]);
        }
    }
}

impl FuzzybarState {
    /// Narrows the candidates by the query and puts what is left in
    /// `filtered`. Stops reading the candidates once `MAX_MATCHES` are found.
    pub fn filter(&mut self)
        ensures
            final(self)@ == (BarView {
                filtered: narrowed(old(self)@.source, old(self)@.query),
                ..old(self)@
            }),
    {
        let ghost source = texts(candidates(self.source));
        let ghost query = self.query@;
        let count = candidates_len(&self.source);
        let mut found = listed_new();
        let mut i: usize = 0;
        assert(source.take(0) == Seq::<Seq<char>>::empty());
        while i < count && listed_len(&found) < MAX_MATCHES
            invariant
                i <= count,
                count == candidates(self.source).len(),
                source == texts(candidates(self.source)),
                query == self.query@,
                listed(found).len() <= MAX_MATCHES,
                listed(found).len() == matching(source.take(i as int), query).len()
                    || listed(found).len() == MAX_MATCHES,
                views(listed(found)) == narrowed(source.take(i as int), query),
            decreases count - i,
        {
            let ghost before = listed(found);
            proof {
                assert(source.take(i + 1) == source.take(i as int).push(source[i as int]));
                lemma_matching_push(source.take(i as int), source[i as int], query);
            }
            if let Some(name) = candidates_get(&self.source, i) {
                if str_contains(name.as_str(), self.query.as_str()) {
                    let selected = listed_len(&found) == 0;
                    let item = ListItem { name: name.clone(), selected };
                    listed_push_back(&mut found, item);
                    assert(views(listed(found)) == views(before).push(item@));
                    assert(views(listed(found)) == narrowed(source.take(i + 1), query));
                }
            }
            i += 1;
        }
        proof {
            if i == count {
                assert(source.take(i as int) == source);
            } else {
                lemma_narrowed_full(source, i as int, query);
            }
        }
        self.filtered = found;
    }
}

} // verus!
