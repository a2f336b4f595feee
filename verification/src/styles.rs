//! A list of styles, as one scope contributes it.

use vstd::prelude::*;
use ecow::EcoVec;
use typst_syntax::Span;
use typst_utils::LazyHash;
use crate::block::Blockable;
use crate::fold::Modeled;
use crate::style::{lazy_get, lazy_value, lazy_values, Property, SettableProperty, Style, StyleView};
use crate::trusted::span_detached;

verus! {

/// A list of style properties.
///
/// The entries are kept in an `EcoVec` of prehashed styles: a copy of the
/// list shares the entries until one of the two is changed.
#[verifier::external_body]
#[derive(Debug, PartialEq, Hash)]
pub struct Styles {
    list: EcoVec<LazyHash<Style>>,
}

/// The styles that a list holds, in the order in which they were pushed.
pub uninterp spec fn styles_entries(styles: Styles) -> Seq<StyleView>;

impl View for Styles {
    type V = Seq<StyleView>;

    open spec fn view(&self) -> Seq<StyleView> {
        styles_entries(*self)
    }
}

/// `EcoVec::new`: a vector without entries.
#[verifier::external_body]
fn eco_new() -> (styles: Styles)
    ensures
        styles_entries(styles) == Seq::<StyleView>::empty(),
{
    Styles { list: EcoVec::new() }
}

/// `EcoVec::len`: the number of entries.
#[verifier::external_body]
fn eco_len(styles: &Styles) -> (len: usize)
    ensures
        len == styles_entries(*styles).len(),
{
    styles.list.len()
}

/// `EcoVec::as_slice`: the entries, in their order.
#[verifier::external_body]
fn eco_as_slice(styles: &Styles) -> (entries: &[LazyHash<Style>])
    ensures
        lazy_values(entries@) == styles_entries(*styles),
{
    styles.list.as_slice()
}

/// `EcoVec::push`, which puts the entry behind the others. Where the
/// vector shares its entries, it first takes clones of them; a clone of a
/// style holds what the style holds.
#[verifier::external_body]
fn eco_push(styles: &mut Styles, entry: LazyHash<Style>)
    ensures
        styles_entries(*final(styles)) == styles_entries(*old(styles)).push(lazy_value(entry)),
{
    styles.list.push(entry)
}

/// `EcoVec::pop`, which takes the last entry off and hands it out, or
/// leaves an empty vector as it is and hands out `None`.
#[verifier::external_body]
fn eco_pop(styles: &mut Styles) -> (last: Option<LazyHash<Style>>)
    ensures
        match last {
            Some(entry) => styles_entries(*old(styles)).len() > 0 && styles_entries(
                *final(styles),
            ) == styles_entries(*old(styles)).drop_last() && lazy_value(entry) == styles_entries(
                *old(styles),
            ).last(),
            None => styles_entries(*old(styles)).len() == 0 && styles_entries(*final(styles))
                == styles_entries(*old(styles)),
        },
{
    styles.list.pop()
}

/// `EcoVec::insert`, which puts the entry at `index` and moves the entries
/// from there on one place back. It panics where `index` is beyond the
/// length.
#[verifier::external_body]
fn eco_insert(styles: &mut Styles, index: usize, entry: LazyHash<Style>)
    requires
        index <= styles_entries(*old(styles)).len(),
    ensures
        styles_entries(*final(styles)) == styles_entries(*old(styles)).insert(index as int, lazy_value(entry)),
{
    styles.list.insert(index, entry)
}

/// `Extend::extend` of `EcoVec`, which pushes the entries of `more`, in
/// their order, behind those of `styles`.
#[verifier::external_body]
fn eco_extend(styles: &mut Styles, more: Styles)
    ensures
        styles_entries(*final(styles)) == styles_entries(*old(styles)) + styles_entries(more),
{
    styles.list.extend(more.list)
}

/// `EcoVec::make_mut`, through which the entry at `index` is overwritten;
/// the other entries stay as they are.
#[verifier::external_body]
fn eco_replace(styles: &mut Styles, index: usize, entry: LazyHash<Style>)
    requires
        index < styles_entries(*old(styles)).len(),
    ensures
        styles_entries(*final(styles)) == styles_entries(*old(styles)).update(index as int, lazy_value(entry)),
{
    styles.list.make_mut()[index] = entry;
}

/// `Clone::clone` of `EcoVec`: a vector that shares the entries.
#[verifier::external_body]
fn eco_clone(styles: &Styles) -> (copy: Styles)
    ensures
        styles_entries(copy) == styles_entries(*styles),
{
    Styles { list: styles.list.clone() }
}

impl Styles {
    /// Create a new, empty style list.
    pub fn new() -> (styles: Styles)
        ensures
            styles@ == Seq::<StyleView>::empty(),
    {
        eco_new()
    }

    /// Whether this contains no styles.
    pub fn is_empty(&self) -> (empty: bool)
        ensures
            empty == (self@.len() == 0),
    {
        eco_len(self) == 0
    }

    /// The number of styles.
    pub fn len(&self) -> (len: usize)
        ensures
            len == self@.len(),
    {
        eco_len(self)
    }

    /// The contained styles, prehashed.
    pub fn as_slice(&self) -> (entries: &[LazyHash<Style>])
        ensures
            lazy_values(entries@) == self@,
    {
        eco_as_slice(self)
    }

    /// The style at the given place.
    pub fn get(&self, index: usize) -> (style: &Style)
        requires
            index < self@.len(),
        ensures
            style@ == self@[index as int],
    {
        let entries = eco_as_slice(self);
        assert(lazy_values(entries@)[index as int] == lazy_value(entries@[index as int]));
        lazy_get(&entries[index])
    }

    /// The contained styles, in the order in which they were pushed.
    pub fn iter(&self) -> (styles: Vec<&Style>)
        ensures
            styles@.map_values(|style: &Style| style@) == self@,
    {
        let entries = eco_as_slice(self);
        let mut styles: Vec<&Style> = Vec::new();
        let mut i: usize = 0;
        while i < entries.len()
            invariant
                i <= entries@.len(),
                lazy_values(entries@) == self@,
                styles@.map_values(|style: &Style| style@) == self@.subrange(0, i as int),
            decreases entries@.len() - i,
        {
            let ghost before = styles@;
            let style = lazy_get(&entries[i]);
            styles.push(style);
            assert(styles@.map_values(|style: &Style| style@) =~= before.map_values(
                |style: &Style| style@,
            ).push(style@));
            assert(lazy_values(entries@)[i as int] == lazy_value(entries@[i as int]));
            assert(self@.subrange(0, i + 1) =~= self@.subrange(0, i as int).push(style@));
            i += 1;
        }
        assert(self@.subrange(0, i as int) =~= self@);
        styles
    }

    /// How a style list is written out: its styles are not.
    pub fn repr(&self) -> (text: &'static str)
        ensures
            text@ == ".."@,
    {
        ".."
    }

    /// Add a new style to the list.
    pub fn push(&mut self, style: Style)
        ensures
            final(self)@ == old(self)@.push(style@),
    {
        eco_push(self, style.wrap());
    }

    /// Remove the style that was last set. An empty list stays empty.
    pub fn unset(&mut self)
        ensures
            final(self)@ == if old(self)@.len() > 0 {
                old(self)@.drop_last()
            } else {
                old(self)@
            },
    {
        let _ = eco_pop(self);
    }

    /// Set an inner value for a style property.
    ///
    /// If the property needs folding and the value is already contained in
    /// the style map, `self` contributes the outer values and `value` is the
    /// inner one.
    pub fn set<P: SettableProperty>(&mut self, field: P, value: P::Type)
        ensures
            final(self)@.len() == old(self)@.len() + 1,
            final(self)@.drop_last() == old(self)@,
            final(self)@.last() matches StyleView::Property(property) && property.elem
                == P::spec_elem() && property.id == P::spec_id() && property.value
                == <P::Type as Blockable>::store(value.model()) && span_detached(property.span)
                && !property.liftable && !property.outside,
    {
        let property = Property::new(field, value);
        self.push(Style::Property(property));
        assert(final(self)@.drop_last() =~= old(self)@);
    }

    /// Apply outer styles. Like chaining, but in-place: the styles of
    /// `outer` come to lie before those of `self`, so that a reader that
    /// walks from the last style to the first finds the styles of `self`
    /// first.
    pub fn apply(&mut self, outer: Styles)
        ensures
            final(self)@ == outer@ + old(self)@,
    {
        let mut inner = outer;
        std::mem::swap(self, &mut inner);
        eco_extend(self, inner);
    }

    /// Apply one outer styles.
    pub fn apply_one(&mut self, outer: Style)
        ensures
            final(self)@ == seq![outer@] + old(self)@,
    {
        eco_insert(self, 0, outer.wrap());
        assert(final(self)@ =~= seq![outer@] + old(self)@);
    }

    /// Add an origin span to all contained properties that have none.
    pub fn spanned(self, span: Span) -> (styles: Styles)
        ensures
            styles@ == self@.map_values(|style: StyleView| style.spanned(span)),
    {
        let mut styles = self;
        let len = styles.len();
        let mut i: usize = 0;
        while i < len
            invariant
                i <= len,
                len == self@.len(),
                styles@.len() == len,
                forall|j: int| 0 <= j < i ==> styles@[j] == self@[j].spanned(span),
                forall|j: int| i <= j < len ==> styles@[j] == self@[j],
            decreases len - i,
        {
            let stamped = styles.get(i).spanned(span);
            eco_replace(&mut styles, i, stamped.wrap());
            i += 1;
        }
        assert(styles@ =~= self@.map_values(|style: StyleView| style.spanned(span)));
        styles
    }

    /// Marks the styles as having been applied outside of any show rule.
    pub fn outside(self) -> (styles: Styles)
        ensures
            styles@ == self@.map_values(|style: StyleView| style.marked_outside()),
    {
        let mut styles = self;
        let len = styles.len();
        let mut i: usize = 0;
        while i < len
            invariant
                i <= len,
                len == self@.len(),
                styles@.len() == len,
                forall|j: int| 0 <= j < i ==> styles@[j] == self@[j].marked_outside(),
                forall|j: int| i <= j < len ==> styles@[j] == self@[j],
            decreases len - i,
        {
            let marked = styles.get(i).marked_outside();
            eco_replace(&mut styles, i, marked.wrap());
            i += 1;
        }
        assert(styles@ =~= self@.map_values(|style: StyleView| style.marked_outside()));
        styles
    }

    /// Marks the styles as being allowed to be lifted up to the page level.
    pub fn liftable(self) -> (styles: Styles)
        ensures
            styles@ == self@.map_values(|style: StyleView| style.made_liftable()),
    {
        let mut styles = self;
        let len = styles.len();
        let mut i: usize = 0;
        while i < len
            invariant
                i <= len,
                len == self@.len(),
                styles@.len() == len,
                forall|j: int| 0 <= j < i ==> styles@[j] == self@[j].made_liftable(),
                forall|j: int| i <= j < len ==> styles@[j] == self@[j],
            decreases len - i,
        {
            let lifted = styles.get(i).made_liftable();
            eco_replace(&mut styles, i, lifted.wrap());
            i += 1;
        }
        assert(styles@ =~= self@.map_values(|style: StyleView| style.made_liftable()));
        styles
    }

    /// Whether there is a style for the given field of the given element.
    pub fn has<P: SettableProperty>(&self, _field: P) -> (found: bool)
        ensures
            found == exists|i: int|
                0 <= i < self@.len() && (#[trigger] self@[i]).sets(P::spec_elem(), P::spec_id()),
    {
        let elem = P::elem();
        let id = P::id();
        let len = self.len();
        let mut i: usize = 0;
        while i < len
            invariant
                i <= len,
                len == self@.len(),
                elem == P::spec_elem(),
                id == P::spec_id(),
                forall|j: int| 0 <= j < i ==> !(#[trigger] self@[j]).sets(elem, id),
            decreases len - i,
        {
            if let Some(property) = self.get(i).property() {
                if property.is_of(elem) && property.is(elem, id) {
                    return true;
                }
            }
            i += 1;
        }
        false
    }
}

impl Clone for Styles {
    fn clone(&self) -> (copy: Styles)
        ensures
            copy@ == self@,
    {
        eco_clone(self)
    }
}

impl From<LazyHash<Style>> for Styles {
    /// The list that holds the one style.
    fn from(entry: LazyHash<Style>) -> (styles: Styles)
        ensures
            styles@ == seq![lazy_value(entry)],
    {
        let mut styles = eco_new();
        eco_push(&mut styles, entry);
        assert(styles@ =~= seq![lazy_value(entry)]);
        styles
    }
}

impl vstd::std_specs::convert::FromSpecImpl<LazyHash<Style>> for Styles {
    open spec fn obeys_from_spec() -> bool {
        false
    }

    open spec fn from_spec(entry: LazyHash<Style>) -> Styles {
        arbitrary()
    }
}

impl From<Style> for Styles {
    /// The list that holds the one style.
    fn from(style: Style) -> (styles: Styles)
        ensures
            styles@ == seq![style@],
    {
        let mut styles = eco_new();
        styles.push(style);
        assert(styles@ =~= seq![style@]);
        styles
    }
}

impl vstd::std_specs::convert::FromSpecImpl<Style> for Styles {
    open spec fn obeys_from_spec() -> bool {
        false
    }

    open spec fn from_spec(style: Style) -> Styles {
        arbitrary()
    }
}

impl Default for Styles {
    fn default() -> (styles: Styles)
        ensures
            styles@ == Seq::<StyleView>::empty(),
    {
        eco_new()
    }
}

} // verus!
