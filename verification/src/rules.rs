//! The table of native show rules.
//!
//! It is filled once, when the engine starts, and read from then on.

use vstd::prelude::*;
use std::collections::HashMap;
use rustc_hash::FxBuildHasher;
use crate::content::{Content, Element, Target};
use crate::elements::{
    CONTEXT, COUNTER_DISPLAY, COUNTER_UPDATE, METADATA, PREFIX_INFO, STATE_UPDATE,
};

verus! {

/// The function of a native show rule, as the engine knows it.
#[derive(Debug, Clone, Copy, PartialEq, Eq, Hash, Structural)]
pub enum ShowFn {
    /// The rule that shows nothing.
    Empty,
    /// The rule that shows what a context expression evaluates to.
    Context,
    /// The rule that displays a counter.
    CounterDisplay,
    /// A rule of the engine, by its handle.
    Native(u32),
}

/// The show rule for a native element.
#[derive(Debug, Clone, Copy, PartialEq, Eq, Hash, Structural)]
pub struct NativeShowRule {
    /// The element to which this rule applies.
    elem: Element,
    /// Must only be called with content of the appropriate type.
    f: ShowFn,
}

impl NativeShowRule {
    /// The element to which this rule applies.
    pub closed spec fn elem(self) -> Element {
        self.elem
    }

    /// The function that shows the element.
    pub closed spec fn show_fn(self) -> ShowFn {
        self.f
    }

    /// The rule with the given parts.
    pub closed spec fn of(elem: Element, f: ShowFn) -> NativeShowRule {
        NativeShowRule { elem, f }
    }

    /// The parts determine the rule.
    pub broadcast proof fn parts(elem: Element, f: ShowFn)
        ensures
            (#[trigger] NativeShowRule::of(elem, f)).elem() == elem,
            NativeShowRule::of(elem, f).show_fn() == f,
    {
    }

    /// Create a new show rule for the element.
    pub fn new(elem: Element, f: ShowFn) -> (rule: NativeShowRule)
        ensures
            rule == NativeShowRule::of(elem, f),
    {
        NativeShowRule { elem, f }
    }

    /// Whether the rule is for content of this kind.
    pub fn applies_to(&self, content: &Content) -> (applies: bool)
        ensures
            applies == (content.elem == self.elem()),
    {
        content.elem() == self.elem
    }

    /// Applies the rule to content: hands out the function that is to be
    /// called with it. The content must be of the rule's element.
    pub fn apply(&self, content: &Content) -> (f: ShowFn)
        requires
            content.elem == self.elem(),
        ensures
            f == self.show_fn(),
    {
        self.f
    }
}

/// The place of a rule in the table.
pub open spec fn key_of(elem: Element, target: Target) -> u64 {
    (2 * elem.0 + if target is Html {
        1int
    } else {
        0int
    }) as u64
}

/// Holds native show rules.
///
/// The functions are kept in a hash map, each at the place of its element
/// and target.
pub struct NativeRuleMap {
    rules: HashMap<u64, ShowFn, FxBuildHasher>,
}

/// `FxHashMap::default`: a map without entries.
#[verifier::external_body]
fn table_new() -> (map: HashMap<u64, ShowFn, FxBuildHasher>)
    ensures
        map@.dom() == Set::<u64>::empty(),
{
    HashMap::default()
}

/// `HashMap::insert`, which puts the value under the key and hands out
/// what was there before.
#[verifier::external_body]
fn table_insert(map: &mut HashMap<u64, ShowFn, FxBuildHasher>, key: u64, f: ShowFn) -> (before:
    Option<ShowFn>)
    ensures
        final(map)@ == old(map)@.insert(key, f),
        before == (if old(map)@.contains_key(key) {
            Some(old(map)@[key])
        } else {
            None
        }),
{
    map.insert(key, f)
}

/// `HashMap::get`: the value under the key, if there is one.
#[verifier::external_body]
fn table_get(map: &HashMap<u64, ShowFn, FxBuildHasher>, key: u64) -> (f: Option<ShowFn>)
    ensures
        f == (if map@.contains_key(key) {
            Some(map@[key])
        } else {
            None
        }),
{
    map.get(&key).copied()
}

impl View for NativeRuleMap {
    type V = Map<(Element, Target), NativeShowRule>;

    /// The rules by element and target.
    closed spec fn view(&self) -> Map<(Element, Target), NativeShowRule> {
        Map::new(
            |place: (Element, Target)| self.rules@.contains_key(key_of(place.0, place.1)),
            |place: (Element, Target)|
                NativeShowRule::of(place.0, self.rules@[key_of(place.0, place.1)]),
        )
    }
}

/// The rules that a new table holds: those of the elements that the
/// engine itself shows, on every target.
pub open spec fn builtin_rules() -> Map<(Element, Target), NativeShowRule> {
    Map::empty().insert(
        (Element(CONTEXT), Target::Paged),
        NativeShowRule::of(Element(CONTEXT), ShowFn::Context),
    ).insert(
        (Element(CONTEXT), Target::Html),
        NativeShowRule::of(Element(CONTEXT), ShowFn::Context),
    ).insert(
        (Element(COUNTER_DISPLAY), Target::Paged),
        NativeShowRule::of(Element(COUNTER_DISPLAY), ShowFn::CounterDisplay),
    ).insert(
        (Element(COUNTER_DISPLAY), Target::Html),
        NativeShowRule::of(Element(COUNTER_DISPLAY), ShowFn::CounterDisplay),
    ).insert(
        (Element(COUNTER_UPDATE), Target::Paged),
        NativeShowRule::of(Element(COUNTER_UPDATE), ShowFn::Empty),
    ).insert(
        (Element(COUNTER_UPDATE), Target::Html),
        NativeShowRule::of(Element(COUNTER_UPDATE), ShowFn::Empty),
    ).insert(
        (Element(STATE_UPDATE), Target::Paged),
        NativeShowRule::of(Element(STATE_UPDATE), ShowFn::Empty),
    ).insert(
        (Element(STATE_UPDATE), Target::Html),
        NativeShowRule::of(Element(STATE_UPDATE), ShowFn::Empty),
    ).insert(
        (Element(METADATA), Target::Paged),
        NativeShowRule::of(Element(METADATA), ShowFn::Empty),
    ).insert(
        (Element(METADATA), Target::Html),
        NativeShowRule::of(Element(METADATA), ShowFn::Empty),
    ).insert(
        (Element(PREFIX_INFO), Target::Paged),
        NativeShowRule::of(Element(PREFIX_INFO), ShowFn::Empty),
    ).insert(
        (Element(PREFIX_INFO), Target::Html),
        NativeShowRule::of(Element(PREFIX_INFO), ShowFn::Empty),
    )
}

/// What comes of an attempt to register a rule: where the table holds no
/// rule yet for the element on the target, yes and the table with the
/// rule; where it holds one, no and the table as it is.
pub open spec fn registered_if_free(
    table: Map<(Element, Target), NativeShowRule>,
    elem: Element,
    target: Target,
    f: ShowFn,
) -> (bool, Map<(Element, Target), NativeShowRule>) {
    if table.contains_key((elem, target)) {
        (false, table)
    } else {
        (true, table.insert((elem, target), NativeShowRule::of(elem, f)))
    }
}

impl NativeRuleMap {
    /// A table without rules.
    pub fn empty() -> (table: NativeRuleMap)
        ensures
            table@ == Map::<(Element, Target), NativeShowRule>::empty(),
    {
        let table = NativeRuleMap { rules: table_new() };
        assert(table@ =~= Map::<(Element, Target), NativeShowRule>::empty());
        table
    }

    /// Creates a new rule map.
    ///
    /// Should be populated with rules for all target-element combinations
    /// that are supported.
    ///
    /// Contains built-in rules for a few special elements.
    pub fn new() -> (table: NativeRuleMap)
        ensures
            table@ == builtin_rules(),
    {
        let mut rules = NativeRuleMap::empty();
        rules.register_builtin(Element(CONTEXT), ShowFn::Context);
        rules.register_builtin(Element(COUNTER_DISPLAY), ShowFn::CounterDisplay);
        rules.register_empty(Element(COUNTER_UPDATE));
        rules.register_empty(Element(STATE_UPDATE));
        rules.register_empty(Element(METADATA));
        rules.register_empty(Element(PREFIX_INFO));
        rules
    }

    /// Registers the rule that shows nothing, for all targets.
    fn register_empty(&mut self, elem: Element)
        requires
            !old(self)@.contains_key((elem, Target::Paged)),
            !old(self)@.contains_key((elem, Target::Html)),
        ensures
            final(self)@ == old(self)@.insert(
                (elem, Target::Paged),
                NativeShowRule::of(elem, ShowFn::Empty),
            ).insert((elem, Target::Html), NativeShowRule::of(elem, ShowFn::Empty)),
    {
        self.register_builtin(elem, ShowFn::Empty);
    }

    /// Registers a rule for all targets.
    fn register_builtin(&mut self, elem: Element, f: ShowFn)
        requires
            !old(self)@.contains_key((elem, Target::Paged)),
            !old(self)@.contains_key((elem, Target::Html)),
        ensures
            final(self)@ == old(self)@.insert((elem, Target::Paged), NativeShowRule::of(elem, f))
                .insert((elem, Target::Html), NativeShowRule::of(elem, f)),
    {
        self.register(elem, Target::Paged, f);
        self.register(elem, Target::Html, f);
    }

    /// Whether a rule is registered for the element on the target.
    pub fn is_registered(&self, elem: Element, target: Target) -> (registered: bool)
        ensures
            registered == self@.contains_key((elem, target)),
    {
        table_get(&self.rules, key(elem, target)).is_some()
    }

    /// Registers a rule for a target.
    ///
    /// No rule may exist yet for this target-element combination.
    pub fn register(&mut self, elem: Element, target: Target, f: ShowFn)
        requires
            !old(self)@.contains_key((elem, target)),
        ensures
            final(self)@ == old(self)@.insert((elem, target), NativeShowRule::of(elem, f)),
    {
        proof {
            lemma_key_of_is_injective();
        }
        let _ = table_insert(&mut self.rules, key(elem, target), f);
        assert(final(self)@ =~= old(self)@.insert((elem, target), NativeShowRule::of(elem, f)));
    }

    /// Registers a rule for a target unless one exists already for this
    /// target-element combination, and says whether it did.
    pub fn try_register(&mut self, elem: Element, target: Target, f: ShowFn) -> (registered: bool)
        ensures
            (registered, final(self)@) == registered_if_free(old(self)@, elem, target, f),
    {
        if self.is_registered(elem, target) {
            false
        } else {
            self.register(elem, target, f);
            true
        }
    }

    /// Retrieves the rule that applies to the `content` on the current
    /// `target`. It is a rule for the kind of the content.
    pub fn get(&self, target: Target, content: &Content) -> (rule: Option<NativeShowRule>)
        ensures
            rule == (if self@.contains_key((content.elem, target)) {
                Some(self@[(content.elem, target)])
            } else {
                None
            }),
            rule matches Some(rule) ==> rule.elem() == content.elem,
    {
        match table_get(&self.rules, key(content.func(), target)) {
            Some(f) => Some(NativeShowRule::new(content.func(), f)),
            None => None,
        }
    }
}

impl Default for NativeRuleMap {
    fn default() -> (table: NativeRuleMap)
        ensures
            table@ == builtin_rules(),
    {
        NativeRuleMap::new()
    }
}

/// The place of a rule in the table.
fn key(elem: Element, target: Target) -> (key: u64)
    ensures
        key == key_of(elem, target),
{
    let base: u64 = 2 * (elem.0 as u64);
    match target {
        Target::Paged => base,
        Target::Html => base + 1,
    }
}

/// Two places in the table are one only for the same element and target.
pub proof fn lemma_key_of_is_injective()
    ensures
        forall|a: Element, s: Target, b: Element, t: Target|
            #![trigger key_of(a, s), key_of(b, t)]
            key_of(a, s) == key_of(b, t) ==> a == b && s == t,
{
}

} // verus!
