//! A list of numbers that stays off the heap while it is short.

use vstd::prelude::*;
use smallvec::SmallVec;

verus! {

/// A list of numbers, held in a `SmallVec` with room for one item inline.
#[verifier::external_body]
#[derive(Debug, Hash)]
pub struct SmallList {
    items: SmallVec<[u64; 1]>,
}

/// What a small list holds, in order.
pub uninterp spec fn small_items(list: SmallList) -> Seq<u64>;

/// `SmallVec::from_slice`, which copies the items of the slice, in order.
#[verifier::external_body]
fn small_from_slice(items: &[u64]) -> (list: SmallList)
    ensures
        small_items(list) == items@,
{
    SmallList { items: SmallVec::from_slice(items) }
}

/// `SmallVec::as_slice`: the items that the list holds, in order.
#[verifier::external_body]
fn small_as_slice(list: &SmallList) -> (items: &[u64])
    ensures
        items@ == small_items(*list),
{
    list.items.as_slice()
}

/// `Extend::extend` of `SmallVec`, which pushes the items of `second` behind
/// those of `first`, in their order.
#[verifier::external_body]
fn small_extend(first: SmallList, second: SmallList) -> (joined: SmallList)
    ensures
        small_items(joined) == small_items(first) + small_items(second),
{
    let mut joined = first;
    joined.items.extend(second.items);
    joined
}

/// `Clone::clone` of `SmallVec`: a list of the same numbers.
#[verifier::external_body]
fn small_clone(list: &SmallList) -> (copy: SmallList)
    ensures
        small_items(copy) == small_items(*list),
{
    SmallList { items: list.items.clone() }
}

impl View for SmallList {
    type V = Seq<u64>;

    open spec fn view(&self) -> Seq<u64> {
        small_items(*self)
    }
}

impl SmallList {
    /// A list of the given numbers.
    pub fn from_slice(items: &[u64]) -> (list: SmallList)
        ensures
            list@ == items@,
    {
        small_from_slice(items)
    }

    /// The numbers of the list.
    pub fn as_slice(&self) -> (items: &[u64])
        ensures
            items@ == self@,
    {
        small_as_slice(self)
    }

    /// This list followed by `other`.
    pub fn extended(self, other: SmallList) -> (joined: SmallList)
        ensures
            joined@ == self@ + other@,
    {
        small_extend(self, other)
    }
}

impl Clone for SmallList {
    fn clone(&self) -> (copy: SmallList)
        ensures
            copy@ == self@,
    {
        small_clone(self)
    }
}

} // verus!
