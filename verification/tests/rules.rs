use std::num::NonZeroU64;

use style_chain::elements::{
    CONTEXT, COUNTER_DISPLAY, COUNTER_UPDATE, METADATA, PREFIX_INFO, STATE_UPDATE,
};
use style_chain::{
    Application, Content, Element, Func, NativeRuleMap, NativeShowRule, Recipe, Selector, ShowFn,
    Styles, Target, Tracepoint, Transformation,
};
use style_chain::elements::EquationCramped;
use typst_syntax::Span;

fn span(number: u64) -> Span {
    Span::from_raw(NonZeroU64::new(number).unwrap())
}

#[test]
fn empty_table_has_no_rules() {
    let table = NativeRuleMap::empty();
    assert!(!table.is_registered(Element(CONTEXT), Target::Paged));
    assert!(table.get(Target::Paged, &Content::new(Element(CONTEXT), 0)).is_none());
}

#[test]
fn new_table_holds_the_builtin_rules() {
    let table = NativeRuleMap::new();
    for target in [Target::Paged, Target::Html] {
        let context = table.get(target, &Content::new(Element(CONTEXT), 0)).unwrap();
        assert_eq!(context, NativeShowRule::new(Element(CONTEXT), ShowFn::Context));
        let counter = table.get(target, &Content::new(Element(COUNTER_DISPLAY), 0)).unwrap();
        assert_eq!(counter, NativeShowRule::new(Element(COUNTER_DISPLAY), ShowFn::CounterDisplay));
        for elem in [COUNTER_UPDATE, STATE_UPDATE, METADATA, PREFIX_INFO] {
            let rule = table.get(target, &Content::new(Element(elem), 0)).unwrap();
            assert_eq!(rule, NativeShowRule::new(Element(elem), ShowFn::Empty));
        }
        assert!(table.get(target, &Content::new(Element(1), 0)).is_none());
        assert!(table.get(target, &Content::new(Element(0), 0)).is_none());
        assert!(table.get(target, &Content::new(Element(11), 0)).is_none());
    }
}

#[test]
fn default_table_is_the_new_table() {
    let table = NativeRuleMap::default();
    assert!(table.is_registered(Element(CONTEXT), Target::Html));
    assert!(table.is_registered(Element(PREFIX_INFO), Target::Paged));
    assert!(!table.is_registered(Element(1), Target::Paged));
}

#[test]
fn register_puts_a_rule_under_its_element_and_target() {
    let mut table = NativeRuleMap::empty();
    table.register(Element(20), Target::Paged, ShowFn::Native(7));
    assert!(table.is_registered(Element(20), Target::Paged));
    assert!(!table.is_registered(Element(20), Target::Html));
    assert!(!table.is_registered(Element(21), Target::Paged));
    let content = Content::new(Element(20), 3);
    let rule = table.get(Target::Paged, &content).unwrap();
    assert_eq!(rule, NativeShowRule::new(Element(20), ShowFn::Native(7)));
    assert!(rule.applies_to(&content));
    assert_eq!(rule.apply(&content), ShowFn::Native(7));
    assert!(table.get(Target::Html, &content).is_none());
    assert!(table.get(Target::Paged, &Content::new(Element(10), 3)).is_none());
}

#[test]
fn rules_of_the_two_targets_are_kept_apart() {
    let mut table = NativeRuleMap::empty();
    table.register(Element(20), Target::Paged, ShowFn::Native(1));
    table.register(Element(20), Target::Html, ShowFn::Native(2));
    let content = Content::new(Element(20), 0);
    assert_eq!(table.get(Target::Paged, &content).unwrap().apply(&content), ShowFn::Native(1));
    assert_eq!(table.get(Target::Html, &content).unwrap().apply(&content), ShowFn::Native(2));
}

#[test]
fn registering_twice_is_refused() {
    let mut table = NativeRuleMap::empty();
    assert!(table.try_register(Element(20), Target::Paged, ShowFn::Native(1)));
    assert!(!table.try_register(Element(20), Target::Paged, ShowFn::Native(2)));
    assert!(!table.try_register(Element(20), Target::Paged, ShowFn::Native(1)));
    let content = Content::new(Element(20), 0);
    assert_eq!(table.get(Target::Paged, &content).unwrap().apply(&content), ShowFn::Native(1));
    assert!(table.try_register(Element(20), Target::Html, ShowFn::Native(2)));
}

#[test]
fn registering_a_builtin_rule_again_is_refused() {
    let mut table = NativeRuleMap::new();
    assert!(!table.try_register(Element(CONTEXT), Target::Paged, ShowFn::Native(1)));
    assert!(!table.try_register(Element(METADATA), Target::Html, ShowFn::Empty));
    let content = Content::new(Element(CONTEXT), 0);
    assert_eq!(table.get(Target::Paged, &content).unwrap().apply(&content), ShowFn::Context);
    assert!(table.try_register(Element(1), Target::Paged, ShowFn::Native(1)));
}

#[test]
fn largest_element_number_has_its_own_place() {
    let mut table = NativeRuleMap::empty();
    table.register(Element(u32::MAX), Target::Html, ShowFn::Native(u32::MAX));
    table.register(Element(0), Target::Paged, ShowFn::Empty);
    assert!(table.is_registered(Element(u32::MAX), Target::Html));
    assert!(!table.is_registered(Element(u32::MAX), Target::Paged));
    assert!(!table.is_registered(Element(0), Target::Html));
    assert!(!table.is_registered(Element(u32::MAX - 1), Target::Html));
}

#[test]
fn rule_applies_only_to_its_element() {
    let rule = NativeShowRule::new(Element(5), ShowFn::Context);
    assert!(rule.applies_to(&Content::new(Element(5), 1)));
    assert!(!rule.applies_to(&Content::new(Element(6), 1)));
}

#[test]
fn content_without_a_span_takes_one() {
    let content = Content::new(Element(3), 9);
    assert!(content.span().is_detached());
    assert_eq!(content.elem(), Element(3));
    assert_eq!(content.func(), Element(3));
    let stamped = content.spanned(span(4));
    assert_eq!(stamped.span(), span(4));
    assert_eq!(stamped.elem, Element(3));
    assert_eq!(stamped.node, 9);
    assert_eq!(stamped.spanned(span(5)).span(), span(4));
}

#[test]
fn recipe_getters() {
    let recipe = Recipe::new(Some(Selector::Label(2)), Transformation::Func(Func(3)), span(8));
    assert_eq!(recipe.selector(), Some(&Selector::Label(2)));
    assert_eq!(recipe.transform(), &Transformation::Func(Func(3)));
    assert_eq!(recipe.span(), span(8));
    let eager = Recipe::new(None, Transformation::Func(Func(3)), span(8));
    assert_eq!(eager.selector(), None);
}

#[test]
fn applying_replacement_content_stamps_the_span() {
    let replacement = Content::new(Element(30), 1);
    let recipe =
        Recipe::new(Some(Selector::Elem(Element(1))), Transformation::Content(replacement), span(8));
    let matched = Content::new(Element(1), 2).spanned(span(50));
    match recipe.apply(&matched) {
        Application::Done(content) => {
            assert_eq!(content.elem, Element(30));
            assert_eq!(content.node, 1);
            assert_eq!(content.span, span(8));
        }
        other => panic!("replacement content is done at once, not {other:?}"),
    }
}

#[test]
fn applying_replacement_content_keeps_its_own_span() {
    let replacement = Content::new(Element(30), 1).spanned(span(99));
    let recipe = Recipe::new(None, Transformation::Content(replacement), span(8));
    match recipe.apply(&Content::new(Element(1), 2)) {
        Application::Done(content) => assert_eq!(content, replacement),
        other => panic!("replacement content is done at once, not {other:?}"),
    }
}

#[test]
fn applying_a_function_with_a_selector_is_traced() {
    let recipe =
        Recipe::new(Some(Selector::Elem(Element(1))), Transformation::Func(Func(6)), span(8));
    let matched = Content::new(Element(1), 2).spanned(span(50));
    match recipe.apply(&matched) {
        Application::Call { func, trace } => {
            assert_eq!(func, Func(6));
            assert_eq!(trace, Some(Tracepoint { elem: Element(1), span: span(8) }));
        }
        other => panic!("a function is to be called, not {other:?}"),
    }
}

#[test]
fn applying_a_function_without_a_selector_is_not_traced() {
    let recipe = Recipe::new(None, Transformation::Func(Func(6)), span(8));
    match recipe.apply(&Content::new(Element(1), 2)) {
        Application::Call { func, trace } => {
            assert_eq!(func, Func(6));
            assert_eq!(trace, None);
        }
        other => panic!("a function is to be called, not {other:?}"),
    }
}

#[test]
fn applying_styles_hands_them_out() {
    let mut styles = Styles::new();
    styles.set(EquationCramped, true);
    let recipe = Recipe::new(None, Transformation::Style(styles.clone()), span(8));
    match recipe.apply(&Content::new(Element(1), 2)) {
        Application::Style(applied) => {
            assert_eq!(applied.len(), 1);
            assert!(applied == styles);
            assert!(applied.has(EquationCramped));
        }
        other => panic!("styles are to be applied, not {other:?}"),
    }
}

#[test]
fn finish_stamps_content_without_a_span() {
    let recipe = Recipe::new(None, Transformation::Func(Func(6)), span(8));
    let produced = Content::new(Element(40), 7);
    assert_eq!(recipe.finish(produced).span, span(8));
    assert_eq!(recipe.finish(produced).elem, Element(40));
    assert_eq!(recipe.finish(produced).node, 7);
    let spanned = produced.spanned(span(3));
    assert_eq!(recipe.finish(spanned), spanned);
    let detached = Recipe::new(None, Transformation::Func(Func(6)), Span::detached());
    assert!(detached.finish(produced).span.is_detached());
}
