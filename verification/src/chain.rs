//! A chain of style lists, from the innermost scope outwards.

use vstd::prelude::*;
use typst_utils::LazyHash;
use crate::block::{block_wrong_type, wrong_type_message, Block, BlockView, Blockable};
use crate::content::Element;
use crate::fold::Modeled;
use crate::style::{
    lazy_get, lazy_value, lazy_values, Recipe, RecipeView, SettableProperty, Style, StyleView,
};
use crate::styles::Styles;

verus! {

/// The styles of a chain in the order in which a lookup meets them: link
/// by link from the nearest one, and within a link from the style that was
/// pushed last to the one that was pushed first.
pub open spec fn entries_of(links: Seq<Seq<StyleView>>) -> Seq<StyleView>
    decreases links.len(),
{
    if links.len() == 0 {
        Seq::empty()
    } else {
        links[0].reverse() + entries_of(links.drop_first())
    }
}

/// The value of the first property among `entries` that sets the given
/// field.
pub open spec fn first_set(entries: Seq<StyleView>, elem: Element, id: u8) -> Option<BlockView>
    decreases entries.len(),
{
    if entries.len() == 0 {
        None
    } else {
        match entries[0] {
            StyleView::Property(property) if property.is(elem, id) => Some(property.value),
            _ => first_set(entries.drop_first(), elem, id),
        }
    }
}

/// The values of all properties among `entries` that set the given field,
/// in the order of the entries.
pub open spec fn all_set(entries: Seq<StyleView>, elem: Element, id: u8) -> Seq<BlockView>
    decreases entries.len(),
{
    if entries.len() == 0 {
        Seq::empty()
    } else {
        match entries[0] {
            StyleView::Property(property) if property.is(elem, id) => seq![property.value]
                + all_set(entries.drop_first(), elem, id),
            _ => all_set(entries.drop_first(), elem, id),
        }
    }
}

/// The recipes among `entries`, in the order of the entries.
pub open spec fn recipes_of(entries: Seq<StyleView>) -> Seq<RecipeView>
    decreases entries.len(),
{
    if entries.len() == 0 {
        Seq::empty()
    } else {
        match entries[0] {
            StyleView::Recipe(recipe) => seq![recipe] + recipes_of(entries.drop_first()),
            _ => recipes_of(entries.drop_first()),
        }
    }
}

/// The number of recipes among the entries from `from` up to `to`.
pub open spec fn recipes_between(entries: Seq<StyleView>, from: int, to: int) -> nat {
    recipes_of(entries.subrange(from, to)).len()
}

/// Whether the entry at `at` is revoked: whether a revocation that a
/// lookup meets before it names it. A revocation names the recipe that is
/// found after as many recipes as its index says, on the way from the
/// revocation outwards.
pub open spec fn revoked(entries: Seq<StyleView>, at: int) -> bool {
    exists|j: int|
        0 <= j < at && ((#[trigger] entries[j]) matches StyleView::Revocation(index)
            && recipes_between(entries, j + 1, at) == index.0)
}

/// The recipes among the first `count` entries that are not revoked, in
/// the order of the entries.
pub open spec fn active_among(entries: Seq<StyleView>, count: nat) -> Seq<RecipeView>
    decreases count,
{
    if count == 0 {
        Seq::empty()
    } else {
        let before = active_among(entries, (count - 1) as nat);
        match entries[count - 1] {
            StyleView::Recipe(recipe) if !revoked(entries, count - 1) => before.push(recipe),
            _ => before,
        }
    }
}

/// Whether each of the cells holds a value of type `T`.
pub open spec fn all_typed<T: Blockable>(values: Seq<BlockView>) -> bool {
    forall|i: int| 0 <= i < values.len() ==> (#[trigger] T::read(values[i])) is Some
}

/// The values of type `T` that the cells hold.
pub open spec fn typed_values<T: Blockable>(values: Seq<BlockView>) -> Seq<T::Model> {
    values.map_values(|value: BlockView| T::read(value).unwrap())
}

/// The values folded pairwise from the front: the first with the second,
/// what comes of it with the third, and so on.
pub open spec fn reduced<P: SettableProperty>(
    values: Seq<<P::Type as Modeled>::Model>,
) -> <P::Type as Modeled>::Model
    recommends
        values.len() > 0,
    decreases values.len(),
{
    if values.len() <= 1 {
        values[0]
    } else {
        P::fold_model(reduced::<P>(values.drop_last()), values.last())
    }
}

/// Whether the machine can hold each fold that `reduced` makes.
pub open spec fn reduce_fits<P: SettableProperty>(
    values: Seq<<P::Type as Modeled>::Model>,
) -> bool
    decreases values.len(),
{
    if values.len() <= 1 {
        true
    } else {
        reduce_fits::<P>(values.drop_last()) && P::fold_fits(
            reduced::<P>(values.drop_last()),
            values.last(),
        )
    }
}

/// The value of a folded field: the values that the scopes set, the
/// nearest first, folded pairwise from the front and at last with the
/// default as the outermost value. Where no scope sets the field, the
/// default.
pub open spec fn folded<P: SettableProperty>(
    values: Seq<<P::Type as Modeled>::Model>,
    default: <P::Type as Modeled>::Model,
) -> <P::Type as Modeled>::Model {
    if values.len() == 0 {
        default
    } else {
        P::fold_model(reduced::<P>(values), default)
    }
}

/// Whether the machine can hold each fold that `folded` makes.
pub open spec fn folded_fits<P: SettableProperty>(
    values: Seq<<P::Type as Modeled>::Model>,
    default: <P::Type as Modeled>::Model,
) -> bool {
    values.len() > 0 ==> reduce_fits::<P>(values) && P::fold_fits(reduced::<P>(values), default)
}

/// The value of a field that is not folded: the value that the nearest
/// scope sets, or the default where none sets it.
pub open spec fn unfolded<T: Blockable>(found: Option<BlockView>, default: T::Model) -> T::Model {
    match found {
        Some(value) => T::read(value).unwrap(),
        None => default,
    }
}

/// The value of the field `P` in a chain with the given links.
pub open spec fn looked_up<P: SettableProperty>(
    links: Seq<Seq<StyleView>>,
) -> <P::Type as Modeled>::Model {
    if P::folds() {
        folded::<P>(
            typed_values::<P::Type>(all_set(entries_of(links), P::spec_elem(), P::spec_id())),
            P::spec_default(),
        )
    } else {
        unfolded::<P::Type>(
            first_set(entries_of(links), P::spec_elem(), P::spec_id()),
            P::spec_default(),
        )
    }
}

/// Whether the field `P` can be looked up in a chain with the given links:
/// the values that are read were written with the type of the field, and
/// the machine can hold the folds.
pub open spec fn can_look_up<P: SettableProperty>(links: Seq<Seq<StyleView>>) -> bool {
    let values = all_set(entries_of(links), P::spec_elem(), P::spec_id());
    if P::folds() {
        all_typed::<P::Type>(values) && folded_fits::<P>(
            typed_values::<P::Type>(values),
            P::spec_default(),
        )
    } else {
        first_set(entries_of(links), P::spec_elem(), P::spec_id()) matches Some(value)
            ==> <P::Type as Blockable>::read(value) is Some
    }
}

/// The first of the cells that does not hold a value of type `T`.
pub open spec fn first_untyped<T: Blockable>(values: Seq<BlockView>) -> Option<BlockView>
    decreases values.len(),
{
    if values.len() == 0 {
        None
    } else if T::read(values[0]) is None {
        Some(values[0])
    } else {
        first_untyped::<T>(values.drop_first())
    }
}

/// The value that stands in the way of a lookup of the field `P` because
/// it was written with another type: for a folded field the nearest such
/// value, for another field the nearest value if it is such.
pub open spec fn mistyped<P: SettableProperty>(links: Seq<Seq<StyleView>>) -> Option<BlockView> {
    if P::folds() {
        first_untyped::<P::Type>(all_set(entries_of(links), P::spec_elem(), P::spec_id()))
    } else {
        match first_set(entries_of(links), P::spec_elem(), P::spec_id()) {
            Some(value) if <P::Type as Blockable>::read(value) is None => Some(value),
            _ => None,
        }
    }
}

/// Why a field could not be looked up.
#[derive(Debug, PartialEq, Eq)]
pub enum LookupError {
    /// A value was written for the field with another type than that of
    /// the field. The text names the element, the field and what was found.
    WrongType(String),
    /// The machine cannot hold the fold of the values.
    TooLarge,
}

/// The cell at `at` is the first that does not hold a value of type `T`
/// if those before it do and it does not.
pub proof fn lemma_first_untyped_at<T: Blockable>(values: Seq<BlockView>, at: int)
    requires
        0 <= at < values.len(),
        forall|j: int| 0 <= j < at ==> (#[trigger] T::read(values[j])) is Some,
        T::read(values[at]) is None,
    ensures
        first_untyped::<T>(values) == Some(values[at]),
        !all_typed::<T>(values),
    decreases at,
{
    if at > 0 {
        assert(T::read(values[0]) is Some);
        assert forall|j: int| 0 <= j < at - 1 implies (#[trigger] T::read(
            values.drop_first()[j],
        )) is Some by {
            assert(T::read(values[j + 1]) is Some);
        }
        lemma_first_untyped_at::<T>(values.drop_first(), at - 1);
    }
}

/// Where each cell holds a value of type `T`, none is the first that does
/// not.
pub proof fn lemma_all_typed_has_no_untyped<T: Blockable>(values: Seq<BlockView>)
    requires
        all_typed::<T>(values),
    ensures
        first_untyped::<T>(values) is None,
    decreases values.len(),
{
    if values.len() > 0 {
        assert(T::read(values[0]) is Some);
        assert forall|j: int| 0 <= j < values.drop_first().len() implies (#[trigger] T::read(
            values.drop_first()[j],
        )) is Some by {
            assert(T::read(values[j + 1]) is Some);
        }
        lemma_all_typed_has_no_untyped::<T>(values.drop_first());
    }
}

/// Where the folds of some values fit, those of the first `count` of them
/// fit too.
pub proof fn lemma_reduce_fits_prefix<P: SettableProperty>(
    values: Seq<<P::Type as Modeled>::Model>,
    count: int,
)
    requires
        reduce_fits::<P>(values),
        0 <= count <= values.len(),
    ensures
        reduce_fits::<P>(values.subrange(0, count)),
    decreases values.len(),
{
    if count == values.len() {
        assert(values.subrange(0, count) =~= values);
    } else if values.len() > 1 {
        lemma_reduce_fits_prefix::<P>(values.drop_last(), count);
        assert(values.drop_last().subrange(0, count) =~= values.subrange(0, count));
    } else {
    }
}

/// The styles that references to prehashed entries point at.
pub open spec fn entry_views(entries: Seq<&LazyHash<Style>>) -> Seq<StyleView> {
    entries.map_values(|entry: &LazyHash<Style>| lazy_value(*entry))
}

/// The links of a chain beyond its nearest `len` links.
pub open spec fn beyond(links: Seq<Seq<StyleView>>, len: nat) -> Seq<Seq<StyleView>> {
    if len <= links.len() {
        links.subrange(len as int, links.len() as int)
    } else {
        Seq::empty()
    }
}

/// The links of a chain that is cut down to its outermost `depth` links.
/// Cut down to nothing, a chain is left with one empty link.
pub open spec fn cut(links: Seq<Seq<StyleView>>, depth: nat) -> Seq<Seq<StyleView>>
    recommends
        depth <= links.len(),
{
    if depth == 0 {
        seq![Seq::empty()]
    } else {
        links.subrange(links.len() - depth, links.len() as int)
    }
}

/// Whether `trunk` is what each of the chains is when it is cut down to
/// `depth` links.
pub open spec fn shared_at(trunk: Seq<Seq<StyleView>>, chains: Seq<StyleChain>, depth: nat) -> bool {
    forall|i: int|
        0 <= i < chains.len() ==> depth <= (#[trigger] chains[i])@.len() && cut(chains[i]@, depth)
            == trunk
}

/// Without its first link, a chain that was cut down to `depth` links is
/// the chain cut down to one link less.
pub proof fn lemma_popped_cut(links: Seq<Seq<StyleView>>, depth: nat)
    requires
        1 <= depth <= links.len(),
    ensures
        popped(cut(links, depth)) == cut(links, (depth - 1) as nat),
{
    if depth > 1 {
        assert(cut(links, depth).drop_first() =~= cut(links, (depth - 1) as nat));
    }
}

/// The views of the cells that references point at.
pub open spec fn block_views(blocks: Seq<&Block>) -> Seq<BlockView> {
    blocks.map_values(|block: &Block| block@)
}

/// The views of the recipes that references point at.
pub open spec fn recipe_views(recipes: Seq<&Recipe>) -> Seq<RecipeView> {
    recipes.map_values(|recipe: &Recipe| recipe@)
}

/// A property that is resolved with other properties from the style chain.
pub trait Resolve {
    /// The type of the resolved output.
    type Output;

    /// Resolve the value using the style chain.
    fn resolve(self, styles: StyleChain) -> Self::Output;
}

impl<T: Resolve> Resolve for Option<T> {
    type Output = Option<T::Output>;

    fn resolve(self, styles: StyleChain) -> (resolved: Option<T::Output>)
        ensures
            match self {
                Some(value) => resolved matches Some(output) && call_ensures(
                    T::resolve,
                    (value, styles),
                    output,
                ),
                None => resolved is None,
            },
    {
        match self {
            Some(value) => Some(value.resolve(styles)),
            None => None,
        }
    }
}

/// A field whose value can be handed out by reference: one that is not
/// folded.
pub trait RefableProperty: SettableProperty {
    /// The field is not folded.
    proof fn is_plain()
        ensures
            !Self::folds(),
    ;
}

/// A chain of styles, similar to a linked list.
///
/// A style chain allows to combine properties from multiple style lists in
/// a element hierarchy in a non-allocating way. Rather than eagerly merging
/// the lists, each access walks the hierarchy from the innermost to the
/// outermost map, trying to find a match and then folding it with matches
/// further up the chain.
#[derive(Clone, Copy, Debug, Hash)]
pub struct StyleChain<'a> {
    /// The first link of this chain.
    head: &'a [LazyHash<Style>],
    /// The remaining links in the chain.
    tail: Option<&'a StyleChain<'a>>,
}

impl<'a> View for StyleChain<'a> {
    type V = Seq<Seq<StyleView>>;

    /// The links of the chain, the nearest first, each with its styles in
    /// the order in which they were pushed.
    closed spec fn view(&self) -> Seq<Seq<StyleView>>
        decreases self,
    {
        match self.tail {
            Some(tail) => seq![lazy_values(self.head@)] + tail@,
            None => seq![lazy_values(self.head@)],
        }
    }
}

/// An iterator over the links of a style chain.
pub struct Links<'a>(Option<StyleChain<'a>>);

impl<'a> Links<'a> {
    /// The links that are still to come.
    pub closed spec fn remaining(&self) -> Seq<Seq<StyleView>> {
        match self.0 {
            Some(chain) => chain@,
            None => Seq::empty(),
        }
    }

    /// The next link, if one is left.
    pub fn next(&mut self) -> (link: Option<&'a [LazyHash<Style>]>)
        ensures
            match link {
                Some(link) => old(self).remaining().len() > 0 && lazy_values(link@) == old(
                    self,
                ).remaining()[0] && final(self).remaining() == old(self).remaining().drop_first(),
                None => old(self).remaining().len() == 0 && final(self).remaining().len() == 0,
            },
    {
        match self.0 {
            Some(chain) => {
                self.0 = match chain.tail {
                    Some(tail) => Some(*tail),
                    None => None,
                };
                assert(final(self).remaining() =~= old(self).remaining().drop_first());
                Some(chain.head)
            },
            None => None,
        }
    }
}

/// An iterator over the entries in a style chain.
pub struct Entries<'a> {
    /// What is left of the link that is being walked. It is walked from
    /// the back.
    inner: &'a [LazyHash<Style>],
    /// The links behind it.
    links: Links<'a>,
}

impl<'a> Entries<'a> {
    /// The styles that are still to come.
    pub closed spec fn remaining(&self) -> Seq<StyleView> {
        lazy_values(self.inner@).reverse() + entries_of(self.links.remaining())
    }

    /// The next entry, if one is left.
    pub fn next(&mut self) -> (entry: Option<&'a LazyHash<Style>>)
        ensures
            match entry {
                Some(entry) => old(self).remaining().len() > 0 && lazy_value(*entry) == old(
                    self,
                ).remaining()[0] && final(self).remaining() == old(self).remaining().drop_first(),
                None => old(self).remaining().len() == 0 && final(self).remaining().len() == 0,
            },
    {
        loop
            invariant
                self.remaining() == old(self).remaining(),
            decreases self.links.remaining().len(), self.inner@.len(),
        {
            let len = self.inner.len();
            if len > 0 {
                let ghost before = self.remaining();
                let ghost run = lazy_values(self.inner@);
                let entry = &self.inner[len - 1];
                self.inner = &self.inner[0..len - 1];
                proof {
                    let shorter = lazy_values(self.inner@);
                    assert(run.reverse()[0] == run[run.len() - 1]);
                    assert(run.reverse().drop_first() =~= shorter.reverse());
                    assert(before.drop_first() =~= shorter.reverse() + entries_of(
                        self.links.remaining(),
                    ));
                }
                return Some(entry);
            }
            let ghost spent = lazy_values(self.inner@);
            match self.links.next() {
                Some(link) => {
                    self.inner = link;
                    proof {
                        assert(spent.reverse() =~= Seq::<StyleView>::empty());
                    }
                },
                None => {
                    proof {
                        assert(self.remaining() =~= Seq::<StyleView>::empty());
                    }
                    return None;
                },
            }
        }
    }
}

impl<'a> StyleChain<'a> {
    /// Start a new style chain with root styles.
    pub fn new(root: &'a Styles) -> (chain: StyleChain<'a>)
        ensures
            chain@ == seq![root@],
    {
        StyleChain { head: root.as_slice(), tail: None }
    }

    /// Iterate over the links of the chain.
    pub fn links(self) -> (links: Links<'a>)
        ensures
            links.remaining() == self@,
    {
        Links(Some(self))
    }

    /// Iterate over the entries of the chain.
    pub fn entries(self) -> (entries: Entries<'a>)
        ensures
            entries.remaining() == entries_of(self@),
    {
        let inner: &[LazyHash<Style>] = &[];
        let entries = Entries { inner, links: self.links() };
        assert(entries.remaining() =~= entries_of(self@));
        entries
    }

    /// The value of the nearest property for the given field.
    pub fn find(self, func: Element, id: u8) -> (block: Option<&'a Block>)
        ensures
            match block {
                Some(block) => first_set(entries_of(self@), func, id) == Some(block@),
                None => first_set(entries_of(self@), func, id) is None,
            },
    {
        let mut entries = self.entries();
        loop
            invariant
                first_set(entries.remaining(), func, id) == first_set(entries_of(self@), func, id),
            decreases entries.remaining().len(),
        {
            match entries.next() {
                Some(entry) => {
                    if let Some(property) = lazy_get(entry).property() {
                        if property.is(func, id) {
                            return Some(property.value());
                        }
                    }
                },
                None => {
                    return None;
                },
            }
        }
    }

    /// The values of all properties for the given field in the chain, the
    /// nearest first.
    pub fn properties(self, func: Element, id: u8) -> (blocks: Vec<&'a Block>)
        ensures
            block_views(blocks@) == all_set(entries_of(self@), func, id),
    {
        let mut blocks: Vec<&'a Block> = Vec::new();
        let mut entries = self.entries();
        loop
            invariant
                block_views(blocks@) + all_set(entries.remaining(), func, id) == all_set(
                    entries_of(self@),
                    func,
                    id,
                ),
            decreases entries.remaining().len(),
        {
            let ghost before = blocks@;
            match entries.next() {
                Some(entry) => {
                    if let Some(property) = lazy_get(entry).property() {
                        if property.is(func, id) {
                            let block = property.value();
                            blocks.push(block);
                            assert(block_views(blocks@) =~= block_views(before) + seq![block@]);
                        }
                    }
                },
                None => {
                    assert(block_views(blocks@) + Seq::<BlockView>::empty() =~= block_views(
                        blocks@,
                    ));
                    return blocks;
                },
            }
        }
    }

    /// The recipes in the chain, the nearest first.
    pub fn recipes(self) -> (recipes: Vec<&'a Recipe>)
        ensures
            recipe_views(recipes@) == recipes_of(entries_of(self@)),
    {
        let mut recipes: Vec<&'a Recipe> = Vec::new();
        let mut entries = self.entries();
        loop
            invariant
                recipe_views(recipes@) + recipes_of(entries.remaining()) == recipes_of(
                    entries_of(self@),
                ),
            decreases entries.remaining().len(),
        {
            let ghost before = recipes@;
            match entries.next() {
                Some(entry) => {
                    if let Some(recipe) = lazy_get(entry).recipe() {
                        recipes.push(recipe);
                        assert(recipe_views(recipes@) =~= recipe_views(before) + seq![recipe@]);
                    }
                },
                None => {
                    assert(recipe_views(recipes@) + Seq::<RecipeView>::empty() =~= recipe_views(
                        recipes@,
                    ));
                    return recipes;
                },
            }
        }
    }

    /// The recipes in the chain that are in force, the nearest first: those
    /// that no revocation nearer than they names.
    pub fn active_recipes(self) -> (recipes: Vec<&'a Recipe>)
        ensures
            recipe_views(recipes@) == active_among(entries_of(self@), entries_of(self@).len()),
    {
        let collected = collect(self.entries());
        let mut recipes: Vec<&'a Recipe> = Vec::new();
        let mut i: usize = 0;
        while i < collected.len()
            invariant
                i <= collected@.len(),
                entry_views(collected@) == entries_of(self@),
                recipe_views(recipes@) == active_among(entries_of(self@), i as nat),
            decreases collected@.len() - i,
        {
            let ghost before = recipes@;
            if let Some(recipe) = lazy_get(collected[i]).recipe() {
                if !is_revoked(&collected, i) {
                    recipes.push(recipe);
                    assert(recipe_views(recipes@) =~= recipe_views(before).push(recipe@));
                }
            }
            i += 1;
        }
        recipes
    }

    /// Retrieves a reference to the value of the nearest property for the
    /// given field, which must have been written with the type `T`.
    pub fn get_unfolded<T: Blockable>(self, func: Element, id: u8) -> (value: Option<&'a T>)
        requires
            first_set(entries_of(self@), func, id) matches Some(found) ==> T::read(found) is Some,
        ensures
            match value {
                Some(value) => first_set(entries_of(self@), func, id) matches Some(found)
                    && T::read(found) == Some(value.model()),
                None => first_set(entries_of(self@), func, id) is None,
            },
    {
        match self.find(func, id) {
            Some(block) => Some(block.downcast::<T>(func, id)),
            None => None,
        }
    }

    /// Retrieves the values of all properties for the field `P`, which must
    /// have been written with its type, and folds them: pairwise from the
    /// nearest outwards, and at last with `default` as the outermost value.
    pub fn get_folded<P: SettableProperty>(self, default: P::Type) -> (value: P::Type)
        requires
            all_typed::<P::Type>(all_set(entries_of(self@), P::spec_elem(), P::spec_id())),
            folded_fits::<P>(
                typed_values::<P::Type>(all_set(entries_of(self@), P::spec_elem(), P::spec_id())),
                default.model(),
            ),
        ensures
            value.model() == folded::<P>(
                typed_values::<P::Type>(all_set(entries_of(self@), P::spec_elem(), P::spec_id())),
                default.model(),
            ),
    {
        let func = P::elem();
        let id = P::id();
        let blocks = self.properties(func, id);
        let ghost cells = all_set(entries_of(self@), func, id);
        let ghost values = typed_values::<P::Type>(cells);
        if blocks.len() == 0 {
            return default;
        }
        assert(block_views(blocks@)[0] == blocks@[0]@);
        let mut folded = blocks[0].downcast::<P::Type>(func, id).duplicate();
        let mut i: usize = 1;
        proof {
            lemma_reduce_fits_prefix::<P>(values, 1);
        }
        while i < blocks.len()
            invariant
                1 <= i <= blocks.len(),
                func == P::spec_elem(),
                id == P::spec_id(),
                block_views(blocks@) == cells,
                all_typed::<P::Type>(cells),
                values == typed_values::<P::Type>(cells),
                reduce_fits::<P>(values),
                folded.model() == reduced::<P>(values.subrange(0, i as int)),
            decreases blocks.len() - i,
        {
            assert(block_views(blocks@)[i as int] == blocks@[i as int]@);
            let next = blocks[i].downcast::<P::Type>(func, id).duplicate();
            proof {
                lemma_reduce_fits_prefix::<P>(values, i + 1);
                assert(values.subrange(0, i + 1).drop_last() =~= values.subrange(0, i as int));
            }
            folded = P::fold(folded, next);
            i += 1;
        }
        assert(values.subrange(0, i as int) =~= values);
        P::fold(folded, default)
    }

    /// Retrieves and clones the value from the style chain: the folded
    /// value for a field that is folded, and else the value that the
    /// nearest scope sets, or the default.
    pub fn get_cloned<P: SettableProperty>(self, _field: P) -> (value: P::Type)
        requires
            can_look_up::<P>(self@),
        ensures
            value.model() == looked_up::<P>(self@),
    {
        if P::is_folded() {
            self.get_folded::<P>(P::default())
        } else {
            match self.get_unfolded::<P::Type>(P::elem(), P::id()) {
                Some(value) => value.duplicate(),
                None => P::default(),
            }
        }
    }

    /// Retrieves and clones the value from the style chain, as
    /// [`get_cloned`](StyleChain::get_cloned) does, if the field can be
    /// looked up, and says why it cannot if not.
    pub fn try_get_cloned<P: SettableProperty>(self, _field: P) -> (value: Result<
        P::Type,
        LookupError,
    >)
        ensures
            value is Ok <==> can_look_up::<P>(self@),
            match value {
                Ok(value) => value.model() == looked_up::<P>(self@),
                Err(LookupError::WrongType(message)) => mistyped::<P>(self@) matches Some(found)
                    && message@ == wrong_type_message(P::spec_elem(), P::spec_id(), found.kind()),
                Err(LookupError::TooLarge) => P::folds() && mistyped::<P>(self@) is None,
            },
    {
        let func = P::elem();
        let id = P::id();
        if !P::is_folded() {
            return match self.find(func, id) {
                Some(block) => match block.try_downcast::<P::Type>(func, id) {
                    Ok(value) => Ok(value.duplicate()),
                    Err(message) => Err(LookupError::WrongType(message)),
                },
                None => Ok(P::default()),
            };
        }
        let blocks = self.properties(func, id);
        let ghost cells = all_set(entries_of(self@), func, id);
        let mut i: usize = 0;
        while i < blocks.len()
            invariant
                i <= blocks.len(),
                P::folds(),
                func == P::spec_elem(),
                id == P::spec_id(),
                cells == all_set(entries_of(self@), func, id),
                block_views(blocks@) == cells,
                forall|j: int| 0 <= j < i ==> (#[trigger] <P::Type as Blockable>::read(cells[j]))
                    is Some,
            decreases blocks.len() - i,
        {
            assert(block_views(blocks@)[i as int] == blocks@[i as int]@);
            if !blocks[i].is::<P::Type>() {
                proof {
                    lemma_first_untyped_at::<P::Type>(cells, i as int);
                }
                return Err(LookupError::WrongType(block_wrong_type(func, id, blocks[i])));
            }
            i += 1;
        }
        let ghost values = typed_values::<P::Type>(cells);
        proof {
            assert(all_typed::<P::Type>(cells));
            lemma_all_typed_has_no_untyped::<P::Type>(cells);
        }
        let default = P::default();
        if blocks.len() == 0 {
            return Ok(default);
        }
        assert(block_views(blocks@)[0] == blocks@[0]@);
        let mut folded = blocks[0].downcast::<P::Type>(func, id).duplicate();
        let mut i: usize = 1;
        while i < blocks.len()
            invariant
                1 <= i <= blocks.len(),
                P::folds(),
                func == P::spec_elem(),
                id == P::spec_id(),
                cells == all_set(entries_of(self@), func, id),
                block_views(blocks@) == cells,
                all_typed::<P::Type>(cells),
                first_untyped::<P::Type>(cells) is None,
                values == typed_values::<P::Type>(cells),
                reduce_fits::<P>(values.subrange(0, i as int)),
                folded.model() == reduced::<P>(values.subrange(0, i as int)),
            decreases blocks.len() - i,
        {
            assert(block_views(blocks@)[i as int] == blocks@[i as int]@);
            let next = blocks[i].downcast::<P::Type>(func, id).duplicate();
            proof {
                assert(values.subrange(0, i + 1).drop_last() =~= values.subrange(0, i as int));
            }
            if !P::fits(&folded, &next) {
                proof {
                    if reduce_fits::<P>(values) {
                        lemma_reduce_fits_prefix::<P>(values, i + 1);
                    }
                }
                return Err(LookupError::TooLarge);
            }
            folded = P::fold(folded, next);
            i += 1;
        }
        assert(values.subrange(0, i as int) =~= values);
        if !P::fits(&folded, &default) {
            return Err(LookupError::TooLarge);
        }
        Ok(P::fold(folded, default))
    }

    /// Retrieves the value of the given field from the style chain.
    ///
    /// The field is a value without content that says, on the level of
    /// types, which field of which element is asked for, and with it, of
    /// which type the result is.
    pub fn get<P: SettableProperty>(self, field: P) -> (value: P::Type) where P::Type: Copy
        requires
            can_look_up::<P>(self@),
        ensures
            value.model() == looked_up::<P>(self@),
    {
        self.get_cloned(field)
    }

    /// Retrieves a reference to the value of the given field from the style
    /// chain, or `default` where no scope sets the field.
    ///
    /// Not possible if the value needs folding.
    pub fn get_ref<P: RefableProperty>(self, _field: P, default: &'a P::Type) -> (value:
        &'a P::Type)
        requires
            first_set(entries_of(self@), P::spec_elem(), P::spec_id()) matches Some(found) ==> <
                P::Type as Blockable
            >::read(found) is Some,
        ensures
            value.model() == unfolded::<P::Type>(
                first_set(entries_of(self@), P::spec_elem(), P::spec_id()),
                default.model(),
            ),
    {
        match self.get_unfolded::<P::Type>(P::elem(), P::id()) {
            Some(value) => value,
            None => default,
        }
    }

    /// Retrieves the value and then immediately resolves it, with this
    /// chain as context.
    pub fn resolve<P: SettableProperty>(self, field: P) -> (resolved: <
        P::Type as Resolve
    >::Output) where P::Type: Resolve
        requires
            can_look_up::<P>(self@),
        ensures
            exists|value: P::Type|
                value.model() == looked_up::<P>(self@) && call_ensures(
                    <P::Type as Resolve>::resolve,
                    (value, self),
                    resolved,
                ),
    {
        let value = self.get_cloned(field);
        value.resolve(self)
    }

    /// Convert to a style map: the styles of the chain in the order in
    /// which they were pushed, which is the reverse of the order in which a
    /// lookup meets them.
    pub fn to_map(self) -> (styles: Styles)
        ensures
            styles@ == entries_of(self@).reverse(),
    {
        let collected = collect(self.entries());
        owned_in_reverse(&collected)
    }

    /// Build owned styles from the suffix of the chain: all links beyond
    /// the nearest `len`, in the order in which their styles were pushed.
    pub fn suffix(self, len: usize) -> (styles: Styles)
        ensures
            styles@ == entries_of(beyond(self@, len as nat)).reverse(),
    {
        let mut links = self.links();
        let mut skipped: usize = 0;
        let mut more = true;
        while more && skipped < len
            invariant
                skipped <= len,
                links.remaining() == beyond(
                    self@,
                    if more {
                        skipped as nat
                    } else {
                        len as nat
                    },
                ),
            decreases
                    if more {
                        1 + len - skipped
                    } else {
                        0
                    },
        {
            match links.next() {
                Some(_) => {
                    assert(beyond(self@, skipped as nat).drop_first() =~= beyond(
                        self@,
                        (skipped + 1) as nat,
                    ));
                    skipped += 1;
                },
                None => {
                    assert(beyond(self@, skipped as nat).len() == 0);
                    assert(beyond(self@, len as nat) =~= Seq::<Seq<StyleView>>::empty());
                    more = false;
                },
            }
        }
        let inner: &[LazyHash<Style>] = &[];
        let entries = Entries { inner, links };
        assert(entries.remaining() =~= entries_of(beyond(self@, len as nat)));
        let collected = collect(entries);
        owned_in_reverse(&collected)
    }

    /// The number of links of the chain.
    pub fn depth(self) -> (depth: usize)
        requires
            self@.len() <= usize::MAX,
        ensures
            depth == self@.len(),
    {
        let mut links = self.links();
        let mut depth: usize = 0;
        loop
            invariant
                self@.len() <= usize::MAX,
                depth + links.remaining().len() == self@.len(),
            decreases links.remaining().len(),
        {
            match links.next() {
                Some(_) => {
                    depth += 1;
                },
                None => {
                    return depth;
                },
            }
        }
    }

    /// Determine the shared trunk of a collection of style chains: a chain
    /// that each of them is when it is cut down to some common number of
    /// links.
    ///
    /// The chains are cut down to the depth of the shallowest. Then they are
    /// compared link by link, as [`eq`](StyleChain::eq) tells it, and cut
    /// down to the depth that [`shared_depth`] gives for what the
    /// comparisons said: the first at which they are one chain, or to
    /// nothing.
    pub fn trunk(chains: &[StyleChain<'a>]) -> (trunk: Option<StyleChain<'a>>)
        requires
            forall|i: int| 0 <= i < chains@.len() ==> (#[trigger] chains@[i])@.len() <= usize::MAX,
        ensures
            trunk is None <==> chains@.len() == 0,
            trunk matches Some(trunk) ==> exists|depth: nat| shared_at(trunk@, chains@, depth),
            trunk matches Some(trunk) ==> chains@.len() == 1 ==> trunk@ == chains@[0]@,
    {
        if chains.len() == 0 {
            return None;
        }
        let mut trunk = chains[0];
        let mut depth = trunk.depth();
        let mut k: usize = 1;
        proof {
            trunk.has_a_link();
            assert(cut(trunk@, depth as nat) =~= trunk@);
        }
        while k < chains.len()
            invariant
                1 <= k <= chains@.len(),
                forall|i: int|
                    0 <= i < chains@.len() ==> (#[trigger] chains@[i])@.len() <= usize::MAX,
                shared_at(trunk@, chains@.subrange(0, k as int), depth as nat),
                chains@.len() == 1 ==> trunk@ == chains@[0]@,
            decreases chains@.len() - k,
        {
            let mut chain = chains[k];
            let len = chain.depth();
            let ghost done = chains@.subrange(0, k as int);
            let ghost whole = chain@;
            proof {
                chain.has_a_link();
                assert(cut(whole, len as nat) =~= whole);
            }
            let mut level = len;
            while depth > level
                invariant
                    level == len,
                    shared_at(trunk@, done, depth as nat),
                decreases depth,
            {
                proof {
                    assert forall|i: int| 0 <= i < done.len() implies (depth - 1) as nat <= (
                    #[trigger] done[i])@.len() && cut(done[i]@, (depth - 1) as nat) == popped(
                        trunk@,
                    ) by {
                        lemma_popped_cut(done[i]@, depth as nat);
                    }
                }
                trunk.pop();
                depth -= 1;
            }
            while level > depth
                invariant
                    depth <= level <= len,
                    len == whole.len(),
                    chain@ == cut(whole, level as nat),
                decreases level,
            {
                proof {
                    lemma_popped_cut(whole, level as nat);
                }
                chain.pop();
                level -= 1;
            }
            let start = depth;
            let ghost before = trunk@;
            proof {
                assert(done[0] == chains@[0]);
                assert(before == cut(done[0]@, start as nat));
            }
            let mut flags: Vec<bool> = Vec::new();
            let mut a = trunk;
            let mut b = chain;
            let mut at = start;
            let mut found = false;
            while at > 0 && !found
                invariant
                    at <= start <= whole.len(),
                    start > 0 ==> before.len() == start,
                    a@ == cut(before, at as nat),
                    b@ == cut(whole, at as nat),
                    flags@.len() == start - at + if found {
                        1int
                    } else {
                        0int
                    },
                    forall|i: int| 0 <= i < start - at ==> !flags@[i],
                    found ==> at > 0 && flags@[start - at] && a@ == b@,
                decreases
                        if found {
                            0
                        } else {
                            1 + at
                        },
            {
                let same = a.eq(&b);
                flags.push(same);
                if same {
                    found = true;
                } else {
                    proof {
                        lemma_popped_cut(before, at as nat);
                        lemma_popped_cut(whole, at as nat);
                    }
                    a.pop();
                    b.pop();
                    at -= 1;
                }
            }
            let shared = shared_depth(start, flags.as_slice());
            proof {
                lemma_first_yes(flags@);
                assert(shared == at);
            }
            while depth > shared
                invariant
                    shared <= depth <= start,
                    start > 0 ==> before.len() == start,
                    trunk@ == cut(before, depth as nat),
                    shared_at(trunk@, done, depth as nat),
                decreases depth,
            {
                proof {
                    lemma_popped_cut(before, depth as nat);
                    assert forall|i: int| 0 <= i < done.len() implies (depth - 1) as nat <= (
                    #[trigger] done[i])@.len() && cut(done[i]@, (depth - 1) as nat) == popped(
                        trunk@,
                    ) by {
                        lemma_popped_cut(done[i]@, depth as nat);
                    }
                }
                trunk.pop();
                depth -= 1;
            }
            proof {
                let next = chains@.subrange(0, k + 1);
                assert(trunk@ == cut(whole, depth as nat));
                assert forall|i: int| 0 <= i < next.len() implies depth as nat <= (
                #[trigger] next[i])@.len() && cut(next[i]@, depth as nat) == trunk@ by {
                    if i < k {
                        assert(next[i] == done[i]);
                    } else {
                        assert(next[i] == chains@[k as int]);
                    }
                }
            }
            k += 1;
        }
        proof {
            assert(chains@.subrange(0, k as int) =~= chains@);
        }
        Some(trunk)
    }

    /// Make the given chainable the first link of this chain.
    ///
    /// The resulting style chain contains styles from `local` as well as
    /// `self`. The ones from `local` take precedence over the ones from
    /// `self`. For folded properties `local` contributes the inner value.
    pub fn chain<'b, C>(&'b self, local: &'b C) -> (chain: StyleChain<'b>) where
        C: Chainable + ?Sized,

        ensures
            chain@ == chained(local.link(), self@),
    {
        Chainable::chain(local, self)
    }

    /// Remove the last link from the chain.
    pub fn pop(&mut self)
        ensures
            final(self)@ == popped(old(self)@),
    {
        let parent = match self.tail {
            Some(tail) => *tail,
            None => StyleChain::default(),
        };
        proof {
            parent.has_a_link();
            assert(parent@ =~= popped(self@));
        }
        *self = parent;
    }

    /// A chain has more than one link just where it has remaining links.
    proof fn links_beyond_the_first(self)
        ensures
            self@.len() > 1 <==> self.tail is Some,
    {
        match self.tail {
            Some(tail) => {
                tail.has_a_link();
                assert(self@ == seq![lazy_values(self.head@)] + tail@);
            },
            None => {
                assert(self@ == seq![lazy_values(self.head@)]);
            },
        }
    }

    /// A chain has at least one link.
    pub proof fn has_a_link(self)
        ensures
            self@.len() >= 1,
    {
        match self.tail {
            Some(tail) => {
                assert(self@ == seq![lazy_values(self.head@)] + tail@);
            },
            None => {
                assert(self@ == seq![lazy_values(self.head@)]);
            },
        }
    }

    /// Whether the two chains are one: whether their first links lie at
    /// the same place and their remaining links do so too, or are missing
    /// in both. Equal styles at different places do not make two chains
    /// one.
    pub fn eq(&self, other: &Self) -> (same: bool)
        ensures
            same ==> *self == *other,
            (self@.len() > 1) != (other@.len() > 1) ==> !same,
    {
        proof {
            self.links_beyond_the_first();
            other.links_beyond_the_first();
        }
        let heads = same_slice(self.head, other.head);
        let tails = match (self.tail, other.tail) {
            (Some(a), Some(b)) => Tails::Both(same_chain(a, b)),
            (None, None) => Tails::Neither,
            _ => Tails::One,
        };
        at_one_place(heads, tails)
    }
}

/// The place of the first of the flags that is set.
pub open spec fn first_yes(flags: Seq<bool>) -> Option<nat>
    decreases flags.len(),
{
    if flags.len() == 0 {
        None
    } else if flags[0] {
        Some(0)
    } else {
        match first_yes(flags.drop_first()) {
            Some(place) => Some(place + 1),
            None => None,
        }
    }
}

/// The depth at which two chains of `depth` links each are one, given what
/// comparing them said: the first flag is for the chains as they are, the
/// next for the chains without their first links, and so on. It is the
/// first depth at which the answer was yes, and 0 where no answer for a
/// depth above 0 was yes.
pub open spec fn shared_depth_of(depth: nat, flags: Seq<bool>) -> nat {
    match first_yes(flags) {
        Some(place) if place < depth => (depth - place) as nat,
        _ => 0,
    }
}

/// The first flag that is set is set, and none before it is. Where none
/// is first, none is set.
pub proof fn lemma_first_yes(flags: Seq<bool>)
    ensures
        match first_yes(flags) {
            Some(place) => place < flags.len() && flags[place as int] && forall|i: int|
                0 <= i < place ==> !flags[i],
            None => forall|i: int| 0 <= i < flags.len() ==> !flags[i],
        },
    decreases flags.len(),
{
    if flags.len() > 0 && !flags[0] {
        let rest = flags.drop_first();
        lemma_first_yes(rest);
        match first_yes(rest) {
            Some(place) => {
                assert(flags[place as int + 1] == rest[place as int]);
                assert forall|i: int| 0 <= i < place + 1 implies !flags[i] by {
                    if i > 0 {
                        assert(flags[i] == rest[i - 1]);
                    }
                }
            },
            None => {
                assert forall|i: int| 0 <= i < flags.len() implies !flags[i] by {
                    if i > 0 {
                        assert(flags[i] == rest[i - 1]);
                    }
                }
            },
        }
    }
}

/// The depth down to which two chains of `depth` links each are to be cut
/// so that they are one chain, given what comparing them said: the first
/// flag says whether the chains as they are are one, the next whether they
/// are without their first links, and so on. The chains are cut down to
/// the first depth at which the answer was yes, and to nothing where it
/// was yes for no depth above 0.
pub fn shared_depth(depth: usize, flags: &[bool]) -> (shared: usize)
    ensures
        shared == shared_depth_of(depth as nat, flags@),
{
    let mut i: usize = 0;
    while i < flags.len() && i < depth
        invariant
            i <= flags@.len(),
            i <= depth,
            forall|j: int| 0 <= j < i ==> !flags@[j],
        decreases flags@.len() - i,
    {
        if flags[i] {
            proof {
                lemma_first_yes(flags@);
            }
            return depth - i;
        }
        i += 1;
    }
    proof {
        lemma_first_yes(flags@);
    }
    0
}

/// What is known of the places of the remaining links of two chains.
#[derive(Debug, Clone, Copy, PartialEq, Eq, Hash, Structural)]
pub enum Tails {
    /// Neither chain has remaining links.
    Neither,
    /// Only one of the chains has remaining links.
    One,
    /// Both chains have remaining links, and the flag says whether these
    /// lie at the same place.
    Both(bool),
}

/// Whether two chains are one, given whether their first links lie at the
/// same place and what is known of their remaining links: the first links
/// must lie at the same place, and the remaining links must do so too or
/// be missing in both chains.
pub fn at_one_place(heads: bool, tails: Tails) -> (same: bool)
    ensures
        same == (heads && match tails {
            Tails::Neither => true,
            Tails::One => false,
            Tails::Both(same) => same,
        }),
{
    heads && match tails {
        Tails::Neither => true,
        Tails::One => false,
        Tails::Both(same) => same,
    }
}

/// The links of a chain with `link` put in front, unless it is empty.
pub open spec fn chained(link: Seq<StyleView>, outer: Seq<Seq<StyleView>>) -> Seq<Seq<StyleView>> {
    if link.len() == 0 {
        outer
    } else {
        seq![link] + outer
    }
}

/// The links of a chain without its first link. What is left of a chain
/// of one link is a chain whose only link is empty.
pub open spec fn popped(links: Seq<Seq<StyleView>>) -> Seq<Seq<StyleView>> {
    if links.len() > 1 {
        links.drop_first()
    } else {
        seq![Seq::empty()]
    }
}

/// Walks the entries to their end and keeps a reference to each.
fn collect<'a>(source: Entries<'a>) -> (collected: Vec<&'a LazyHash<Style>>)
    ensures
        entry_views(collected@) == source.remaining(),
{
    let mut entries = source;
    let mut collected: Vec<&'a LazyHash<Style>> = Vec::new();
    loop
        invariant
            entry_views(collected@) + entries.remaining() == source.remaining(),
        decreases entries.remaining().len(),
    {
        let ghost before = collected@;
        match entries.next() {
            Some(entry) => {
                collected.push(entry);
                assert(entry_views(collected@) =~= entry_views(before) + seq![lazy_value(*entry)]);
            },
            None => {
                assert(entry_views(collected@) + Seq::<StyleView>::empty() =~= entry_views(
                    collected@,
                ));
                return collected;
            },
        }
    }
}

/// Whether a revocation before the entry at `at` names it.
fn is_revoked(collected: &Vec<&LazyHash<Style>>, at: usize) -> (found: bool)
    requires
        at < collected@.len(),
    ensures
        found == revoked(entry_views(collected@), at as int),
{
    let ghost entries = entry_views(collected@);
    let mut j: usize = at;
    let mut count: usize = 0;
    while j > 0
        invariant
            j <= at < collected@.len(),
            entries == entry_views(collected@),
            count == recipes_between(entries, j as int, at as int),
            count <= at - j,
            forall|k: int|
                j <= k < at ==> !((#[trigger] entries[k]) matches StyleView::Revocation(index)
                    && recipes_between(entries, k + 1, at as int) == index.0),
        decreases j,
    {
        j -= 1;
        proof {
            let run = entries.subrange(j as int, at as int);
            assert(run.drop_first() =~= entries.subrange(j + 1, at as int));
            assert(run[0] == entries[j as int]);
        }
        match lazy_get(collected[j]) {
            Style::Revocation(index) => {
                if index.0 == count {
                    return true;
                }
            },
            Style::Recipe(_) => {
                count += 1;
            },
            Style::Property(_) => {},
        }
    }
    false
}

/// A list of copies of the styles, the last of them first.
fn owned_in_reverse(collected: &Vec<&LazyHash<Style>>) -> (styles: Styles)
    ensures
        styles@ == entry_views(collected@).reverse(),
{
    let mut styles = Styles::new();
    let mut i: usize = collected.len();
    while i > 0
        invariant
            i <= collected@.len(),
            styles@ == entry_views(collected@).subrange(i as int, collected@.len() as int).reverse(),
        decreases i,
    {
        i -= 1;
        let ghost before = styles@;
        styles.push(lazy_get(collected[i]).clone());
        assert(styles@ =~= entry_views(collected@).subrange(
            i as int,
            collected@.len() as int,
        ).reverse());
    }
    assert(entry_views(collected@).subrange(0, collected@.len() as int) =~= entry_views(
        collected@,
    ));
    styles
}

/// `std::ptr::eq` on two slices of entries: whether they begin at the same
/// place and are of the same length. Such slices hold the same entries.
#[verifier::external_body]
fn same_slice(a: &[LazyHash<Style>], b: &[LazyHash<Style>]) -> (same: bool)
    ensures
        same ==> a == b,
{
    std::ptr::eq(a, b)
}

/// `std::ptr::eq` on two chains: whether they lie at the same place. What
/// lies at one place is one chain.
#[verifier::external_body]
fn same_chain(a: &StyleChain, b: &StyleChain) -> (same: bool)
    ensures
        same ==> a == b,
{
    std::ptr::eq(a, b)
}

/// `std::slice::from_ref`: the slice that holds the one entry.
#[verifier::external_body]
fn slice_of_one<'a>(entry: &'a LazyHash<Style>) -> (entries: &'a [LazyHash<Style>])
    ensures
        entries@ == seq![*entry],
{
    std::slice::from_ref(entry)
}

impl<'a> Default for StyleChain<'a> {
    /// The chain whose only link is empty.
    fn default() -> (chain: StyleChain<'a>)
        ensures
            chain@ == seq![Seq::<StyleView>::empty()],
    {
        let head: &[LazyHash<Style>] = &[];
        let chain = StyleChain { head, tail: None };
        assert(lazy_values(head@) =~= Seq::<StyleView>::empty());
        chain
    }
}

/// Things that can be attached to a style chain.
pub trait Chainable {
    /// The styles that the link holds.
    spec fn link(&self) -> Seq<StyleView>;

    /// Attach `self` as the first link of the chain.
    fn chain<'a>(&'a self, outer: &'a StyleChain<'_>) -> (chain: StyleChain<'a>)
        ensures
            chain@ == chained(self.link(), outer@),
    ;
}

impl Chainable for LazyHash<Style> {
    open spec fn link(&self) -> Seq<StyleView> {
        seq![lazy_value(*self)]
    }

    fn chain<'a>(&'a self, outer: &'a StyleChain<'_>) -> (chain: StyleChain<'a>) {
        let chain = StyleChain { head: slice_of_one(self), tail: Some(outer) };
        assert(lazy_values(seq![*self]) =~= seq![lazy_value(*self)]);
        chain
    }
}

impl Chainable for [LazyHash<Style>] {
    open spec fn link(&self) -> Seq<StyleView> {
        lazy_values(self@)
    }

    fn chain<'a>(&'a self, outer: &'a StyleChain<'_>) -> (chain: StyleChain<'a>) {
        if self.len() == 0 {
            *outer
        } else {
            StyleChain { head: self, tail: Some(outer) }
        }
    }
}

impl<const N: usize> Chainable for [LazyHash<Style>; N] {
    open spec fn link(&self) -> Seq<StyleView> {
        lazy_values(self@)
    }

    fn chain<'a>(&'a self, outer: &'a StyleChain<'_>) -> (chain: StyleChain<'a>) {
        Chainable::chain(self.as_slice(), outer)
    }
}

impl Chainable for Styles {
    open spec fn link(&self) -> Seq<StyleView> {
        self@
    }

    fn chain<'a>(&'a self, outer: &'a StyleChain<'_>) -> (chain: StyleChain<'a>) {
        Chainable::chain(self.as_slice(), outer)
    }
}

} // verus!
