use std::num::NonZeroU64;

use style_chain::elements::{AccentDotless, EquationCramped, ListDepth, TextFeatures, TextFont};
use style_chain::{
    Content, Depth, Element, FontFamily, FontList, Func, Property, Recipe, RecipeIndex, Selector,
    Style, StyleChain, Styles, Transformation,
};
use typst_syntax::Span;

fn span(number: u64) -> Span {
    Span::from_raw(NonZeroU64::new(number).unwrap())
}

fn cramped(value: bool) -> Style {
    Style::Property(Property::new(EquationCramped, value))
}

fn recipe(func: u32, at: u64) -> Style {
    Style::Recipe(Recipe::new(
        Some(Selector::Elem(Element(1))),
        Transformation::Func(Func(func)),
        span(at),
    ))
}

#[test]
fn new_list_is_empty() {
    let styles = Styles::new();
    assert!(styles.is_empty());
    assert_eq!(styles.len(), 0);
    assert!(styles.as_slice().is_empty());
    assert!(Styles::default().is_empty());
}

#[test]
fn push_appends_in_order() {
    let mut styles = Styles::new();
    styles.push(cramped(true));
    styles.push(Style::Revocation(RecipeIndex(3)));
    assert_eq!(styles.len(), 2);
    assert!(!styles.is_empty());
    assert!(styles.get(0).property().is_some());
    assert!(matches!(styles.get(1), Style::Revocation(RecipeIndex(3))));
    assert_eq!(styles.as_slice().len(), 2);
}

#[test]
fn unset_removes_the_last_style() {
    let mut styles = Styles::new();
    styles.push(cramped(true));
    styles.push(cramped(false));
    styles.unset();
    assert_eq!(styles.len(), 1);
    let value = styles.get(0).property().unwrap().value();
    assert_eq!(*value.downcast::<bool>(Element(2), 0), true);
}

#[test]
fn unset_on_an_empty_list_does_nothing() {
    let mut styles = Styles::new();
    styles.unset();
    assert!(styles.is_empty());
    styles.unset();
    assert_eq!(styles.len(), 0);
}

#[test]
fn unset_undoes_exactly_one_push() {
    let mut styles = Styles::new();
    styles.set(ListDepth, Depth(1));
    styles.set(EquationCramped, true);
    let before = styles.clone();
    let depth_before = StyleChain::new(&before).get(ListDepth);
    let cramped_before = StyleChain::new(&before).get(EquationCramped);

    styles.push(cramped(false));
    assert_eq!(StyleChain::new(&styles).get(EquationCramped), false);
    styles.unset();

    assert_eq!(styles.len(), before.len());
    assert!(styles == before);
    assert_eq!(StyleChain::new(&styles).get(ListDepth), depth_before);
    assert_eq!(StyleChain::new(&styles).get(EquationCramped), cramped_before);
    assert_eq!(StyleChain::new(&styles).get(EquationCramped), true);
}

#[test]
fn set_pushes_a_plain_property() {
    let mut styles = Styles::new();
    styles.set(ListDepth, Depth(5));
    assert_eq!(styles.len(), 1);
    let style = styles.get(0);
    let property = style.property().unwrap();
    assert!(property.is(Element(4), 0));
    assert!(property.is_of(Element(4)));
    assert!(!property.is(Element(4), 1));
    assert!(!property.is_of(Element(1)));
    assert_eq!(*property.value().downcast::<Depth>(Element(4), 0), Depth(5));
    assert!(style.span().is_detached());
    assert!(!style.liftable());
    assert!(!style.outside());
}

#[test]
fn apply_puts_outer_styles_first() {
    let mut inner = Styles::new();
    inner.set(EquationCramped, false);
    let mut outer = Styles::new();
    outer.set(EquationCramped, true);
    outer.set(ListDepth, Depth(2));
    inner.apply(outer);
    assert_eq!(inner.len(), 3);
    assert!(inner.get(0).property().unwrap().is(Element(2), 0));
    assert!(inner.get(1).property().unwrap().is(Element(4), 0));
    assert!(inner.get(2).property().unwrap().is(Element(2), 0));
    assert_eq!(*inner.get(0).property().unwrap().value().downcast::<bool>(Element(2), 0), true);
    assert_eq!(*inner.get(2).property().unwrap().value().downcast::<bool>(Element(2), 0), false);
    assert_eq!(StyleChain::new(&inner).get(EquationCramped), false);
}

#[test]
fn apply_with_empty_lists() {
    let mut inner = Styles::new();
    inner.apply(Styles::new());
    assert!(inner.is_empty());
    inner.set(EquationCramped, true);
    inner.apply(Styles::new());
    assert_eq!(inner.len(), 1);
    let mut empty = Styles::new();
    empty.apply(inner);
    assert_eq!(empty.len(), 1);
}

#[test]
fn apply_one_puts_the_style_first() {
    let mut styles = Styles::new();
    styles.set(EquationCramped, false);
    styles.apply_one(Style::Revocation(RecipeIndex(0)));
    assert_eq!(styles.len(), 2);
    assert!(matches!(styles.get(0), Style::Revocation(RecipeIndex(0))));
    assert!(styles.get(1).property().is_some());
}

#[test]
fn spanned_stamps_properties_without_a_span() {
    let mut styles = Styles::new();
    styles.set(EquationCramped, true);
    styles.push(recipe(1, 40));
    styles.push(Style::Revocation(RecipeIndex(0)));
    let styles = styles.spanned(span(77));
    assert_eq!(styles.len(), 3);
    assert_eq!(styles.get(0).span(), span(77));
    assert_eq!(styles.get(1).span(), span(40));
    assert!(styles.get(2).span().is_detached());
}

#[test]
fn spanned_keeps_a_span_that_is_there() {
    let mut styles = Styles::new();
    styles.set(EquationCramped, true);
    let mut styles = styles.spanned(span(5));
    styles.set(ListDepth, Depth(1));
    let styles = styles.spanned(span(6));
    assert_eq!(styles.get(0).span(), span(5));
    assert_eq!(styles.get(1).span(), span(6));
    assert_eq!(*styles.get(0).property().unwrap().value().downcast::<bool>(Element(2), 0), true);
}

#[test]
fn outside_marks_properties_and_recipes() {
    let mut styles = Styles::new();
    styles.set(EquationCramped, true);
    styles.push(recipe(1, 40));
    styles.push(Style::Revocation(RecipeIndex(0)));
    assert!(!styles.get(0).outside());
    assert!(!styles.get(1).outside());
    let styles = styles.outside();
    assert!(styles.get(0).outside());
    assert!(styles.get(1).outside());
    assert!(!styles.get(2).outside());
    assert!(!styles.get(0).liftable());
    assert_eq!(styles.get(1).span(), span(40));
}

#[test]
fn liftable_marks_properties() {
    let mut styles = Styles::new();
    styles.set(EquationCramped, true);
    styles.push(recipe(1, 40));
    styles.push(Style::Revocation(RecipeIndex(0)));
    assert!(!styles.get(0).liftable());
    let styles = styles.liftable();
    assert!(styles.get(0).liftable());
    assert!(styles.get(1).liftable());
    assert!(!styles.get(2).liftable());
    assert!(!styles.get(0).outside());
}

#[test]
fn has_finds_a_field() {
    let mut styles = Styles::new();
    assert!(!styles.has(EquationCramped));
    styles.set(EquationCramped, true);
    styles.push(recipe(1, 40));
    assert!(styles.has(EquationCramped));
    assert!(!styles.has(AccentDotless));
    assert!(!styles.has(ListDepth));
    assert!(!styles.has(TextFeatures));
}

#[test]
fn set_family_prepends_to_the_default() {
    let root = Styles::new();
    let mut styles = Styles::new();
    styles.set_family(FontFamily::new("Inria Serif"), StyleChain::new(&root));
    assert_eq!(styles.len(), 1);
    let fonts = styles.get(0).property().unwrap().value().downcast::<FontList>(Element(1), 0);
    assert_eq!(fonts.0.len(), 2);
    assert_eq!(fonts.0[0].as_str(), "Inria Serif");
    assert_eq!(fonts.0[1].as_str(), "Libertinus Serif");
}

#[test]
fn set_family_prepends_to_the_existing_families() {
    let mut root = Styles::new();
    root.set(TextFont, FontList(vec![FontFamily::new("A"), FontFamily::new("B")]));
    let mut styles = Styles::new();
    styles.set_family(FontFamily::new("C"), StyleChain::new(&root));
    let fonts = styles.get(0).property().unwrap().value().downcast::<FontList>(Element(1), 0);
    let names: Vec<&str> = fonts.0.iter().map(|family| family.as_str()).collect();
    assert_eq!(names, vec!["C", "A", "B"]);
}

#[test]
fn clone_holds_the_same_styles() {
    let mut styles = Styles::new();
    styles.set(ListDepth, Depth(3));
    let mut copy = styles.clone();
    assert_eq!(copy.len(), 1);
    assert!(copy == styles);
    copy.set(ListDepth, Depth(4));
    assert_eq!(styles.len(), 1);
    assert_eq!(copy.len(), 2);
    assert_eq!(*styles.get(0).property().unwrap().value().downcast::<Depth>(Element(4), 0), Depth(3));
    assert_eq!(*copy.get(0).property().unwrap().value().downcast::<Depth>(Element(4), 0), Depth(3));
    assert_eq!(*copy.get(1).property().unwrap().value().downcast::<Depth>(Element(4), 0), Depth(4));
}

#[test]
fn style_accessors() {
    let property = cramped(true);
    assert!(property.property().is_some());
    assert!(property.recipe().is_none());
    assert_eq!(property.element(), Some(Element(2)));

    let show = recipe(9, 12);
    assert!(show.property().is_none());
    assert_eq!(show.recipe().unwrap().span(), span(12));
    assert_eq!(show.element(), Some(Element(1)));
    assert!(show.liftable());
    assert!(!show.outside());
    assert_eq!(show.span(), span(12));

    let labelled = Style::Recipe(Recipe::new(
        Some(Selector::Label(3)),
        Transformation::Content(Content::new(Element(1), 0)),
        span(2),
    ));
    assert_eq!(labelled.element(), None);
    let eager = Style::Recipe(Recipe::new(None, Transformation::Func(Func(1)), span(2)));
    assert_eq!(eager.element(), None);

    let revocation = Style::Revocation(RecipeIndex(2));
    assert!(revocation.property().is_none());
    assert!(revocation.recipe().is_none());
    assert!(revocation.span().is_detached());
    assert_eq!(revocation.element(), None);
    assert!(!revocation.liftable());
    assert!(!revocation.outside());
}

#[test]
fn wrap_keeps_the_style() {
    let entry = cramped(true).wrap();
    assert!(entry.property().is_some());
    let entry = Property::new(ListDepth, Depth(2)).wrap();
    assert!(entry.property().unwrap().is(Element(4), 0));
    assert_eq!(*entry.property().unwrap().value().downcast::<Depth>(Element(4), 0), Depth(2));
}

#[test]
fn style_from_property_and_recipe() {
    let style = Style::from(Property::new(EquationCramped, true));
    assert!(style.property().is_some());
    let style = Style::from(Recipe::new(None, Transformation::Func(Func(1)), span(3)));
    assert!(style.recipe().is_some());
}

#[test]
fn clone_of_a_style_holds_the_same() {
    let style = recipe(4, 8);
    let copy = style.clone();
    assert_eq!(copy.span(), span(8));
    assert_eq!(copy.element(), Some(Element(1)));
    assert!(copy.recipe().unwrap() == style.recipe().unwrap());
    let style = Style::Property(Property::new(TextFeatures, vec![1u64, 2]));
    let copy = style.clone();
    assert_eq!(
        copy.property().unwrap().value().downcast::<Vec<u64>>(Element(1), 1),
        &vec![1u64, 2]
    );
}
