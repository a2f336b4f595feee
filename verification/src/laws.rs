//! What holds of the styles, whatever they are.

use vstd::prelude::*;
use crate::block::{Block, Blockable};
use crate::chain::{all_set, beyond, chained, entries_of, first_set, popped, StyleChain};
use crate::content::{Element, Target};
use crate::fold::{Fold, Modeled};
use crate::rules::{registered_if_free, NativeShowRule, ShowFn};
use crate::style::StyleView;

verus! {

/// Folding is associative: folding `a` with `b` and what comes of it with
/// `c` gives what folding `a` with the fold of `b` and `c` gives, on every
/// triple on which the type owes it. Truth values, depths and lists owe it
/// on all triples.
pub proof fn fold_is_associative<T: Fold>(a: T, b: T, c: T)
    requires
        T::associates(a.model(), b.model(), c.model()),
    ensures
        T::fold_model(T::fold_model(a.model(), b.model()), c.model()) == T::fold_model(
            a.model(),
            T::fold_model(b.model(), c.model()),
        ),
{
    T::fold_associative(a.model(), b.model(), c.model());
}

/// The styles that a lookup meets in two runs of links are those of the
/// first run and then those of the second.
pub proof fn entries_of_joined(inner: Seq<Seq<StyleView>>, outer: Seq<Seq<StyleView>>)
    ensures
        entries_of(inner + outer) == entries_of(inner) + entries_of(outer),
    decreases inner.len(),
{
    if inner.len() == 0 {
        assert(inner + outer =~= outer);
        assert(entries_of(inner) + entries_of(outer) =~= entries_of(outer));
    } else {
        entries_of_joined(inner.drop_first(), outer);
        assert((inner + outer).drop_first() =~= inner.drop_first() + outer);
        assert(entries_of(inner + outer) =~= entries_of(inner) + entries_of(outer));
    }
}

/// Nesting leaves the outer chain as it is: a lookup in the nested chain
/// goes through the styles of the new link, the last pushed first, and then
/// through the very styles of the outer chain. Taking the new link off
/// again gives the outer chain back.
pub proof fn nesting_keeps_outer(link: Seq<StyleView>, outer: StyleChain)
    ensures
        entries_of(chained(link, outer@)) == link.reverse() + entries_of(outer@),
        link.len() > 0 ==> popped(chained(link, outer@)) == outer@,
        link.len() > 0 ==> beyond(chained(link, outer@), 1) == outer@,
{
    outer.has_a_link();
    if link.len() == 0 {
        assert(link.reverse() + entries_of(outer@) =~= entries_of(outer@));
    } else {
        assert((seq![link] + outer@).drop_first() =~= outer@);
        assert(beyond(chained(link, outer@), 1) =~= outer@);
    }
}

/// The nearest value of a field among two runs of styles is the nearest
/// among the first run, or among the second where the first has none.
pub proof fn first_set_of_joined(
    inner: Seq<StyleView>,
    outer: Seq<StyleView>,
    elem: Element,
    id: u8,
)
    ensures
        first_set(inner + outer, elem, id) == match first_set(inner, elem, id) {
            Some(value) => Some(value),
            None => first_set(outer, elem, id),
        },
    decreases inner.len(),
{
    if inner.len() == 0 {
        assert(inner + outer =~= outer);
    } else {
        first_set_of_joined(inner.drop_first(), outer, elem, id);
        assert((inner + outer).drop_first() =~= inner.drop_first() + outer);
    }
}

/// The values of a field among two runs of styles are those among the
/// first run and then those among the second.
pub proof fn all_set_of_joined(inner: Seq<StyleView>, outer: Seq<StyleView>, elem: Element, id: u8)
    ensures
        all_set(inner + outer, elem, id) == all_set(inner, elem, id) + all_set(outer, elem, id),
    decreases inner.len(),
{
    if inner.len() == 0 {
        assert(inner + outer =~= outer);
        assert(all_set(inner, elem, id) + all_set(outer, elem, id) =~= all_set(outer, elem, id));
    } else {
        all_set_of_joined(inner.drop_first(), outer, elem, id);
        assert((inner + outer).drop_first() =~= inner.drop_first() + outer);
        assert(all_set(inner + outer, elem, id) =~= all_set(inner, elem, id) + all_set(
            outer,
            elem,
            id,
        ));
    }
}

/// The nearest scope that sets a field wins: in a nested chain the value
/// of the field is found in the new link if a style there sets it, and in
/// the outer chain as before if none does.
pub proof fn nearest_wins(link: Seq<StyleView>, outer: StyleChain, elem: Element, id: u8)
    ensures
        first_set(entries_of(chained(link, outer@)), elem, id) == match first_set(
            link.reverse(),
            elem,
            id,
        ) {
            Some(value) => Some(value),
            None => first_set(entries_of(outer@), elem, id),
        },
{
    nesting_keeps_outer(link, outer);
    first_set_of_joined(link.reverse(), entries_of(outer@), elem, id);
}

/// The scopes accumulate: the values of a field in a nested chain are
/// those that the new link sets, the last pushed first, and then those of
/// the outer chain. So the inner values come before the outer ones.
pub proof fn scopes_accumulate(link: Seq<StyleView>, outer: StyleChain, elem: Element, id: u8)
    ensures
        all_set(entries_of(chained(link, outer@)), elem, id) == all_set(
            link.reverse(),
            elem,
            id,
        ) + all_set(entries_of(outer@), elem, id),
{
    nesting_keeps_outer(link, outer);
    all_set_of_joined(link.reverse(), entries_of(outer@), elem, id);
}

/// Unsetting undoes exactly one push: a list to which a style is pushed
/// and from which the last style is then removed holds what it held
/// before.
pub proof fn unset_undoes_push(before: Seq<StyleView>, style: StyleView)
    ensures
        before.push(style).len() > 0,
        before.push(style).drop_last() == before,
{
    assert(before.push(style).drop_last() =~= before);
}

/// A rule is registered at most once for an element on a target. Once a
/// rule is registered there, in a new table or by a call, the table holds
/// one for that place, whatever was registered: so `register`, which asks
/// that it holds none, cannot be called for it again, and `try_register`
/// answers no and leaves the table as it is, also for the same function.
pub proof fn registering_twice_is_refused(
    table: Map<(Element, Target), NativeShowRule>,
    elem: Element,
    target: Target,
    first: ShowFn,
    second: ShowFn,
)
    ensures
        ({
            let once = table.insert((elem, target), NativeShowRule::of(elem, first));
            &&& once.contains_key((elem, target))
            &&& once[(elem, target)] == NativeShowRule::of(elem, first)
            &&& registered_if_free(once, elem, target, second) == (false, once)
        }),
        table.contains_key((elem, target)) ==> registered_if_free(table, elem, target, second) == (
            false,
            table,
        ),
{
}

/// A cell gives back what was written, also after it was cloned: a reader
/// that asks a copy of a cell for the type of the value that was stored
/// gets that value.
pub proof fn downcast_after_clone<T: Blockable>(value: T, block: Block, copy: Block)
    requires
        block@ == T::store(value.model()),
        copy@ == block@,
    ensures
        T::read(copy@) == Some(value.model()),
{
    T::read_after_store(value.model());
}

} // verus!
