//! A single style: a property, a show rule recipe, or the revocation of a
//! recipe.

use vstd::prelude::*;
use typst_syntax::Span;
use typst_utils::LazyHash;
use crate::block::{Block, BlockView, Blockable};
use crate::content::{Content, Element, Func, Selector};
use crate::fold::Modeled;
use crate::styles::Styles;
use crate::trusted::{detached_span, is_detached, span_detached};

verus! {

/// A field of an element that a style can set: its element, its number
/// among the fields of that element, the type of its values, what it is
/// while nothing sets it, and whether and how it folds.
pub trait SettableProperty: Sized {
    /// The type of the field's values.
    type Type: Blockable;

    /// The element that the field belongs to.
    spec fn spec_elem() -> Element;

    /// The number of the field.
    spec fn spec_id() -> u8;

    /// The value of the field while no style sets it.
    spec fn spec_default() -> <Self::Type as Modeled>::Model;

    /// Whether the values of nested scopes are folded.
    spec fn folds() -> bool;

    /// The fold of an inner value with an outer one. For a field that is
    /// not folded, this is the inner value.
    spec fn fold_model(
        inner: <Self::Type as Modeled>::Model,
        outer: <Self::Type as Modeled>::Model,
    ) -> <Self::Type as Modeled>::Model;

    /// Whether the machine can hold the fold of the two values.
    spec fn fold_fits(
        inner: <Self::Type as Modeled>::Model,
        outer: <Self::Type as Modeled>::Model,
    ) -> bool;

    /// The element that the field belongs to.
    fn elem() -> (elem: Element)
        ensures
            elem == Self::spec_elem(),
    ;

    /// The number of the field.
    fn id() -> (id: u8)
        ensures
            id == Self::spec_id(),
    ;

    /// The value of the field while no style sets it.
    fn default() -> (value: Self::Type)
        ensures
            value.model() == Self::spec_default(),
    ;

    /// Whether the values of nested scopes are folded.
    fn is_folded() -> (folded: bool)
        ensures
            folded == Self::folds(),
    ;

    /// Whether the machine can hold the fold of the two values.
    fn fits(inner: &Self::Type, outer: &Self::Type) -> (fits: bool)
        ensures
            fits == Self::fold_fits(inner.model(), outer.model()),
    ;

    /// Folds an inner value with an outer one.
    fn fold(inner: Self::Type, outer: Self::Type) -> (folded: Self::Type)
        requires
            Self::fold_fits(inner.model(), outer.model()),
        ensures
            folded.model() == Self::fold_model(inner.model(), outer.model()),
    ;
}

/// A style property originating from a set rule or constructor.
#[derive(Debug, Hash)]
pub struct Property {
    /// The element the property belongs to.
    elem: Element,
    /// The property's ID.
    id: u8,
    /// The property's value.
    value: Block,
    /// The span of the set rule the property stems from.
    span: Span,
    /// Whether the property is allowed to be lifted up to the page level.
    liftable: bool,
    /// Whether the property was applied outside of any show rule.
    outside: bool,
}

/// A property as a mathematical value.
pub struct PropertyView {
    pub elem: Element,
    pub id: u8,
    pub value: BlockView,
    pub span: Span,
    pub liftable: bool,
    pub outside: bool,
}

impl PropertyView {
    /// Whether this property sets the given field of the given element.
    pub open spec fn is(self, elem: Element, id: u8) -> bool {
        self.elem == elem && self.id == id
    }
}

impl View for Property {
    type V = PropertyView;

    closed spec fn view(&self) -> PropertyView {
        PropertyView {
            elem: self.elem,
            id: self.id,
            value: self.value@,
            span: self.span,
            liftable: self.liftable,
            outside: self.outside,
        }
    }
}

impl Property {
    /// Create a new property from a key-value pair.
    pub fn new<P: SettableProperty>(_field: P, value: P::Type) -> (property: Property)
        ensures
            property@.elem == P::spec_elem(),
            property@.id == P::spec_id(),
            property@.value == P::Type::store(value.model()),
            span_detached(property@.span),
            !property@.liftable,
            !property@.outside,
    {
        Property {
            elem: P::elem(),
            id: P::id(),
            value: Block::new(value),
            span: detached_span(),
            liftable: false,
            outside: false,
        }
    }

    /// Whether this property is the given one.
    pub fn is(&self, elem: Element, id: u8) -> (found: bool)
        ensures
            found == self@.is(elem, id),
    {
        self.elem == elem && self.id == id
    }

    /// Whether this property belongs to the given element.
    pub fn is_of(&self, elem: Element) -> (found: bool)
        ensures
            found == (self@.elem == elem),
    {
        self.elem == elem
    }

    /// The value of the property.
    pub fn value(&self) -> (value: &Block)
        ensures
            value@ == self@.value,
    {
        &self.value
    }

    /// The property with another span.
    pub(crate) fn with_span(&self, span: Span) -> (property: Property)
        ensures
            property@ == (PropertyView { span, ..self@ }),
    {
        Property {
            elem: self.elem,
            id: self.id,
            value: self.value.clone(),
            span,
            liftable: self.liftable,
            outside: self.outside,
        }
    }

    /// The property with other flags.
    pub(crate) fn with_flags(&self, liftable: bool, outside: bool) -> (property: Property)
        ensures
            property@ == (PropertyView { liftable, outside, ..self@ }),
    {
        Property {
            elem: self.elem,
            id: self.id,
            value: self.value.clone(),
            span: self.span,
            liftable,
            outside,
        }
    }

    /// Turn this property into prehashed style.
    pub fn wrap(self) -> (entry: LazyHash<Style>)
        ensures
            lazy_value(entry) == StyleView::Property(self@),
    {
        Style::Property(self).wrap()
    }
}

impl Clone for Property {
    fn clone(&self) -> (copy: Property)
        ensures
            copy@ == self@,
    {
        Property {
            elem: self.elem,
            id: self.id,
            value: self.value.clone(),
            span: self.span,
            liftable: self.liftable,
            outside: self.outside,
        }
    }
}

/// Identifies a show rule recipe from the top of the chain: the number of
/// recipes that lie between the revocation and the recipe, on the way from
/// the revocation outwards.
#[derive(Debug, Copy, Clone, Eq, PartialEq, Hash, Structural)]
pub struct RecipeIndex(pub usize);

/// A show rule transformation that can be applied to a match.
#[derive(Debug, PartialEq, Hash)]
pub enum Transformation {
    /// Replacement content.
    Content(Content),
    /// A function to apply to the match.
    Func(Func),
    /// Apply styles to the content.
    Style(Styles),
}

/// A transformation as a mathematical value.
pub enum TransformationView {
    Content(Content),
    Func(Func),
    Style(Seq<StyleView>),
}

impl View for Transformation {
    type V = TransformationView;

    open spec fn view(&self) -> TransformationView {
        match self {
            Transformation::Content(content) => TransformationView::Content(*content),
            Transformation::Func(func) => TransformationView::Func(*func),
            Transformation::Style(styles) => TransformationView::Style(styles@),
        }
    }
}

impl Clone for Transformation {
    fn clone(&self) -> (copy: Transformation)
        ensures
            copy@ == self@,
    {
        match self {
            Transformation::Content(content) => Transformation::Content(*content),
            Transformation::Func(func) => Transformation::Func(*func),
            Transformation::Style(styles) => Transformation::Style(styles.clone()),
        }
    }
}

/// A show rule recipe.
#[derive(Debug, PartialEq, Hash)]
pub struct Recipe {
    /// Determines whether the recipe applies to an element.
    ///
    /// If this is `None`, then this recipe is from a show rule with no
    /// selector, which is applied eagerly to the rest of the content in the
    /// scope.
    selector: Option<Selector>,
    /// The transformation to perform on the match.
    transform: Transformation,
    /// The span that errors are reported with.
    span: Span,
    /// Whether the recipe was applied outside of any show rule.
    outside: bool,
}

/// A recipe as a mathematical value.
pub struct RecipeView {
    pub selector: Option<Selector>,
    pub transform: TransformationView,
    pub span: Span,
    pub outside: bool,
}

impl View for Recipe {
    type V = RecipeView;

    closed spec fn view(&self) -> RecipeView {
        RecipeView {
            selector: self.selector,
            transform: self.transform@,
            span: self.span,
            outside: self.outside,
        }
    }
}

/// Names the content that a failed show rule was applied to, and the rule.
#[derive(Debug, Clone, Copy, PartialEq, Eq, Hash)]
pub struct Tracepoint {
    /// The kind of the content.
    pub elem: Element,
    /// Where the show rule stems from.
    pub span: Span,
}

/// What a recipe asks for when it is applied to a match.
#[derive(Debug)]
pub enum Application {
    /// The match is replaced by this content. Nothing is left to do.
    Done(Content),
    /// The function is to be called on the match. Where a trace point is
    /// given, a failure of the call is reported together with it. What the
    /// call displays goes through [`Recipe::finish`].
    Call { func: Func, trace: Option<Tracepoint> },
    /// The match is to be styled with these styles. The styled content goes
    /// through [`Recipe::finish`].
    Style(Styles),
}

impl Recipe {
    /// Create a new recipe from a key-value pair.
    pub fn new(selector: Option<Selector>, transform: Transformation, span: Span) -> (recipe:
        Recipe)
        ensures
            recipe@ == (RecipeView { selector, transform: transform@, span, outside: false }),
    {
        Recipe { selector, transform, span, outside: false }
    }

    /// The recipe's selector.
    pub fn selector(&self) -> (selector: Option<&Selector>)
        ensures
            match selector {
                Some(selector) => self@.selector == Some(*selector),
                None => self@.selector is None,
            },
    {
        self.selector.as_ref()
    }

    /// The recipe's transformation.
    pub fn transform(&self) -> (transform: &Transformation)
        ensures
            transform@ == self@.transform,
    {
        &self.transform
    }

    /// The recipe's span.
    pub fn span(&self) -> (span: Span)
        ensures
            span == self@.span,
    {
        self.span
    }

    /// The recipe, marked as applied outside of any show rule.
    pub(crate) fn marked_outside(&self) -> (recipe: Recipe)
        ensures
            recipe@ == (RecipeView { outside: true, ..self@ }),
    {
        Recipe {
            selector: self.selector,
            transform: self.transform.clone(),
            span: self.span,
            outside: true,
        }
    }

    /// Apply the recipe to the given content.
    ///
    /// Replacement content is handed out at once, with the recipe's span
    /// where it had none. A function or styles are handed to the caller,
    /// who has the evaluator and the tree. A call is traced only for a
    /// recipe with a selector: the trace point names the kind of the
    /// matched content and the span of the recipe.
    pub fn apply(&self, content: &Content) -> (application: Application)
        ensures
            match self@.transform {
                TransformationView::Content(replacement) => application == Application::Done(
                    replacement.with_span(self@.span),
                ),
                TransformationView::Func(func) => application matches Application::Call {
                    func: called,
                    trace,
                } && called == func && trace == (if self@.selector is Some {
                    Some(Tracepoint { elem: content.elem, span: self@.span })
                } else {
                    None
                }),
                TransformationView::Style(styles) => application matches Application::Style(
                    applied,
                ) && applied@ == styles,
            },
    {
        match &self.transform {
            Transformation::Content(replacement) => Application::Done(self.finish(*replacement)),
            Transformation::Func(func) => {
                let trace = if self.selector.is_some() {
                    Some(Tracepoint { elem: content.func(), span: self.span })
                } else {
                    None
                };
                Application::Call { func: *func, trace }
            },
            Transformation::Style(styles) => Application::Style(styles.clone()),
        }
    }

    /// Gives the content that came of an application the recipe's span,
    /// if it has none of its own.
    pub fn finish(&self, content: Content) -> (finished: Content)
        ensures
            finished == content.with_span(self@.span),
    {
        if is_detached(content.span()) {
            content.spanned(self.span)
        } else {
            content
        }
    }
}

impl Clone for Recipe {
    fn clone(&self) -> (copy: Recipe)
        ensures
            copy@ == self@,
    {
        Recipe {
            selector: self.selector,
            transform: self.transform.clone(),
            span: self.span,
            outside: self.outside,
        }
    }
}

/// A single style property or recipe.
#[derive(Debug, Hash)]
pub enum Style {
    /// A style property originating from a set rule or constructor.
    Property(Property),
    /// A show rule recipe.
    Recipe(Recipe),
    /// Disables a specific show rule recipe.
    ///
    /// This serves rules that match text by a pattern. Rules that match
    /// elements are guarded on the elements themselves.
    Revocation(RecipeIndex),
}

/// A style as a mathematical value.
pub enum StyleView {
    Property(PropertyView),
    Recipe(RecipeView),
    Revocation(RecipeIndex),
}

impl StyleView {
    /// Whether the style is allowed to be lifted up to the page level.
    pub open spec fn liftable(self) -> bool {
        match self {
            StyleView::Property(property) => property.liftable,
            StyleView::Recipe(_) => true,
            StyleView::Revocation(_) => false,
        }
    }

    /// Whether the style was applied outside of any show rule.
    pub open spec fn outside(self) -> bool {
        match self {
            StyleView::Property(property) => property.outside,
            StyleView::Recipe(recipe) => recipe.outside,
            StyleView::Revocation(_) => false,
        }
    }

    /// The element that the style is for, if it is for one.
    pub open spec fn element(self) -> Option<Element> {
        match self {
            StyleView::Property(property) => Some(property.elem),
            StyleView::Recipe(recipe) => match recipe.selector {
                Some(Selector::Elem(elem)) => Some(elem),
                _ => None,
            },
            StyleView::Revocation(_) => None,
        }
    }

    /// Whether the style is a property for the given field.
    pub open spec fn sets(self, elem: Element, id: u8) -> bool {
        self matches StyleView::Property(property) && property.is(elem, id)
    }

    /// The style with `span` as its origin, if it is a property that has
    /// none.
    pub open spec fn spanned(self, span: Span) -> StyleView {
        match self {
            StyleView::Property(property) if span_detached(property.span) => StyleView::Property(
                PropertyView { span, ..property },
            ),
            _ => self,
        }
    }

    /// The style, marked as applied outside of any show rule if it is a
    /// property or a recipe.
    pub open spec fn marked_outside(self) -> StyleView {
        match self {
            StyleView::Property(property) => StyleView::Property(
                PropertyView { outside: true, ..property },
            ),
            StyleView::Recipe(recipe) => StyleView::Recipe(RecipeView { outside: true, ..recipe }),
            StyleView::Revocation(_) => self,
        }
    }

    /// The style, allowed to be lifted if it is a property.
    pub open spec fn made_liftable(self) -> StyleView {
        match self {
            StyleView::Property(property) => StyleView::Property(
                PropertyView { liftable: true, ..property },
            ),
            _ => self,
        }
    }
}

impl View for Style {
    type V = StyleView;

    open spec fn view(&self) -> StyleView {
        match self {
            Style::Property(property) => StyleView::Property(property@),
            Style::Recipe(recipe) => StyleView::Recipe(recipe@),
            Style::Revocation(index) => StyleView::Revocation(*index),
        }
    }
}

/// The style that a prehashed entry holds.
pub uninterp spec fn lazy_value(entry: LazyHash<Style>) -> StyleView;

/// The styles that a run of prehashed entries holds.
pub open spec fn lazy_values(entries: Seq<LazyHash<Style>>) -> Seq<StyleView> {
    entries.map_values(|entry: LazyHash<Style>| lazy_value(entry))
}

/// `LazyHash::new`, which wraps the style as it is and leaves the hash to
/// be computed when it is first asked for.
#[verifier::external_body]
fn lazy_new(style: Style) -> (entry: LazyHash<Style>)
    ensures
        lazy_value(entry) == style@,
{
    LazyHash::new(style)
}

/// `Deref::deref` of `LazyHash`: the style that the entry wraps.
#[verifier::external_body]
pub(crate) fn lazy_get(entry: &LazyHash<Style>) -> (style: &Style)
    ensures
        style@ == lazy_value(*entry),
{
    &**entry
}

impl Style {
    /// If this is a property, return it.
    pub fn property(&self) -> (property: Option<&Property>)
        ensures
            match property {
                Some(property) => self@ == StyleView::Property(property@),
                None => !(self@ is Property),
            },
    {
        match self {
            Style::Property(property) => Some(property),
            _ => None,
        }
    }

    /// If this is a recipe, return it.
    pub fn recipe(&self) -> (recipe: Option<&Recipe>)
        ensures
            match recipe {
                Some(recipe) => self@ == StyleView::Recipe(recipe@),
                None => !(self@ is Recipe),
            },
    {
        match self {
            Style::Recipe(recipe) => Some(recipe),
            _ => None,
        }
    }

    /// The style's span, if any.
    pub fn span(&self) -> (span: Span)
        ensures
            match self@ {
                StyleView::Property(property) => span == property.span,
                StyleView::Recipe(recipe) => span == recipe.span,
                StyleView::Revocation(_) => span_detached(span),
            },
    {
        match self {
            Style::Property(property) => property.span,
            Style::Recipe(recipe) => recipe.span,
            Style::Revocation(_) => detached_span(),
        }
    }

    /// Returns `Some(_)` with the element if this style is for an element:
    /// a property of it, or a recipe that selects it.
    pub fn element(&self) -> (elem: Option<Element>)
        ensures
            elem == self@.element(),
    {
        match self {
            Style::Property(property) => Some(property.elem),
            Style::Recipe(recipe) => match recipe.selector {
                Some(Selector::Elem(elem)) => Some(elem),
                _ => None,
            },
            Style::Revocation(_) => None,
        }
    }

    /// Whether the style is allowed to be lifted up to the page level. Only
    /// true for styles originating from set rules, and for recipes.
    pub fn liftable(&self) -> (liftable: bool)
        ensures
            liftable == self@.liftable(),
    {
        match self {
            Style::Property(property) => property.liftable,
            Style::Recipe(_) => true,
            Style::Revocation(_) => false,
        }
    }

    /// Whether the style was applied outside of any show rule. This is set
    /// while the tree is realized.
    pub fn outside(&self) -> (outside: bool)
        ensures
            outside == self@.outside(),
    {
        match self {
            Style::Property(property) => property.outside,
            Style::Recipe(recipe) => recipe.outside,
            Style::Revocation(_) => false,
        }
    }

    /// Turn this style into prehashed style.
    pub fn wrap(self) -> (entry: LazyHash<Style>)
        ensures
            lazy_value(entry) == self@,
    {
        lazy_new(self)
    }

    /// The style with `span` as its origin, if it is a property that has
    /// none.
    pub(crate) fn spanned(&self, span: Span) -> (style: Style)
        ensures
            style@ == self@.spanned(span),
    {
        match self {
            Style::Property(property) => {
                if is_detached(property.span) {
                    Style::Property(property.with_span(span))
                } else {
                    self.clone()
                }
            },
            _ => self.clone(),
        }
    }

    /// The style, marked as applied outside of any show rule.
    pub(crate) fn marked_outside(&self) -> (style: Style)
        ensures
            style@ == self@.marked_outside(),
    {
        match self {
            Style::Property(property) => Style::Property(
                property.with_flags(property.liftable, true),
            ),
            Style::Recipe(recipe) => Style::Recipe(recipe.marked_outside()),
            Style::Revocation(index) => Style::Revocation(*index),
        }
    }

    /// The style, allowed to be lifted if it is a property.
    pub(crate) fn made_liftable(&self) -> (style: Style)
        ensures
            style@ == self@.made_liftable(),
    {
        match self {
            Style::Property(property) => Style::Property(
                property.with_flags(true, property.outside),
            ),
            _ => self.clone(),
        }
    }
}

impl Clone for Style {
    fn clone(&self) -> (copy: Style)
        ensures
            copy@ == self@,
    {
        match self {
            Style::Property(property) => Style::Property(property.clone()),
            Style::Recipe(recipe) => Style::Recipe(recipe.clone()),
            Style::Revocation(index) => Style::Revocation(*index),
        }
    }
}

impl From<Property> for Style {
    fn from(property: Property) -> (style: Style) {
        Style::Property(property)
    }
}

impl vstd::std_specs::convert::FromSpecImpl<Property> for Style {
    open spec fn obeys_from_spec() -> bool {
        true
    }

    open spec fn from_spec(property: Property) -> Style {
        Style::Property(property)
    }
}

impl From<Recipe> for Style {
    fn from(recipe: Recipe) -> (style: Style) {
        Style::Recipe(recipe)
    }
}

impl vstd::std_specs::convert::FromSpecImpl<Recipe> for Style {
    open spec fn obeys_from_spec() -> bool {
        true
    }

    open spec fn from_spec(recipe: Recipe) -> Style {
        Style::Recipe(recipe)
    }
}

} // verus!
