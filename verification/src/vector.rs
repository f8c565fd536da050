//! The persistent vectors that hold the candidates and the matches.
//!
//! `im::Vector` is not verified here. This module says what each of its
//! methods that the crate calls does, over the sequence of elements that a
//! vector holds; the rest of the crate is proved against these statements.
//! A vector may copy its elements with their `Clone` when it is cloned or
//! changed; each of the element types clones to an equal value.

use crate::filter::ListItem;
use im::Vector;
use vstd::prelude::*;

verus! {

/// `im::Vector`, taken as it is: nothing of its inside is seen here.
#[verifier::external_type_specification]
#[verifier::external_body]
#[verifier::reject_recursive_types(A)]
pub struct ExVector<A>(Vector<A>);

/// The strings that a vector of candidates holds, front to back.
pub uninterp spec fn candidates(v: Vector<String>) -> Seq<String>;

/// The items that a vector of matches holds, front to back.
pub uninterp spec fn listed(v: Vector<ListItem>) -> Seq<ListItem>;

/// The pairs of strings that a vector of pairs holds, front to back.
pub uninterp spec fn pairs(v: Vector<(String, String)>) -> Seq<(String, String)>;

/// `im::Vector::new`: a vector that holds nothing.
#[verifier::external_body]
pub(crate) fn candidates_new() -> (v: Vector<String>)
    ensures
        candidates(v) == Seq::<String>::empty(),
{
    Vector::new()
}

/// `im::Vector::clone`: a vector that holds the same strings in the same order.
#[verifier::external_body]
pub(crate) fn candidates_clone(v: &Vector<String>) -> (copy: Vector<String>)
    ensures
        candidates(copy) == candidates(*v),
{
    v.clone()
}

/// `im::Vector::len`: how many strings the vector holds.
#[verifier::external_body]
pub(crate) fn candidates_len(v: &Vector<String>) -> (n: usize)
    ensures
        n == candidates(*v).len(),
{
    v.len()
}

/// `im::Vector::get`: the string at an index within the vector, and nothing at
/// an index past its end.
#[verifier::external_body]
pub(crate) fn candidates_get(v: &Vector<String>, index: usize) -> (found: Option<&String>)
    ensures
        index < candidates(*v).len() ==> found == Some(&candidates(*v)[index as int]),
        index >= candidates(*v).len() ==> found is None,
{
    v.get(index)
}

/// `im::Vector::push_back`: the string is added behind the others.
#[verifier::external_body]
pub(crate) fn candidates_push_back(v: &mut Vector<String>, value: String)
    requires
        candidates(*old(v)).len() < usize::MAX,
    ensures
        candidates(*final(v)) == candidates(*old(v)).push(value),
{
    v.push_back(value)
}

/// `im::Vector::new`: a vector that holds nothing.
#[verifier::external_body]
pub(crate) fn listed_new() -> (v: Vector<ListItem>)
    ensures
        listed(v) == Seq::<ListItem>::empty(),
{
    Vector::new()
}

/// `im::Vector::len`: how many items the vector holds.
#[verifier::external_body]
pub(crate) fn listed_len(v: &Vector<ListItem>) -> (n: usize)
    ensures
        n == listed(*v).len(),
{
    v.len()
}

/// `im::Vector::get`: the item at an index within the vector, and nothing at an
/// index past its end.
#[verifier::external_body]
pub(crate) fn listed_get(v: &Vector<ListItem>, index: usize) -> (found: Option<&ListItem>)
    ensures
        index < listed(*v).len() ==> found == Some(&listed(*v)[index as int]),
        index >= listed(*v).len() ==> found is None,
{
    v.get(index)
}

/// `im::Vector::get_mut`: the item at an index within the vector, to be changed
/// in place; what the caller leaves in it is what the vector then holds at
/// that index, and the other items stay. Nothing at an index past the end,
/// and the vector stays as it is.
#[verifier::external_body]
pub(crate) fn listed_get_mut(v: &mut Vector<ListItem>, index: usize) -> (found: Option<
    &mut ListItem,
>)
    ensures
        index >= listed(*old(v)).len() ==> found is None && listed(*final(v)) == listed(*old(v)),
        index < listed(*old(v)).len() ==> match found {
            Some(item) => *item == listed(*old(v))[index as int] && listed(*final(v)) == listed(
                *old(v),
            ).update(index as int, *final(item)),
            None => false,
        },
{
    v.get_mut(index)
}

/// `im::Vector::push_back`: the item is added behind the others.
#[verifier::external_body]
pub(crate) fn listed_push_back(v: &mut Vector<ListItem>, value: ListItem)
    requires
        listed(*old(v)).len() < usize::MAX,
    ensures
        listed(*final(v)) == listed(*old(v)).push(value),
{
    v.push_back(value)
}

/// `im::Vector::new`: a vector that holds nothing.
#[verifier::external_body]
pub(crate) fn pairs_new() -> (v: Vector<(String, String)>)
    ensures
        pairs(v) == Seq::<(String, String)>::empty(),
{
    Vector::new()
}

/// `im::Vector::push_back`: the pair is added behind the others.
#[verifier::external_body]
pub(crate) fn pairs_push_back(v: &mut Vector<(String, String)>, value: (String, String))
    requires
        pairs(*old(v)).len() < usize::MAX,
    ensures
        pairs(*final(v)) == pairs(*old(v)).push(value),
{
    v.push_back(value)
}

} // verus!
