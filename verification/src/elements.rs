//! The elements and the fields that the library itself knows.

use vstd::prelude::*;
use crate::block::{BlockView, Blockable};
use crate::chain::{entries_of, first_set, unfolded, RefableProperty, StyleChain};
use crate::content::Element;
use crate::fold::{Depth, Fold, Modeled};
use crate::small::SmallList;
use crate::style::{SettableProperty, StyleView};
use crate::styles::Styles;
use crate::text::{FontFamily, FontList};
use crate::trusted::span_detached;

verus! {

/// The number of the text element.
pub const TEXT: u32 = 1;

/// The number of the equation element.
pub const EQUATION: u32 = 2;

/// The number of the accent element.
pub const ACCENT: u32 = 3;

/// The number of the list element.
pub const LIST: u32 = 4;

/// The number of the context element.
pub const CONTEXT: u32 = 5;

/// The number of the element that displays a counter.
pub const COUNTER_DISPLAY: u32 = 6;

/// The number of the element that updates a counter.
pub const COUNTER_UPDATE: u32 = 7;

/// The number of the element that updates a state.
pub const STATE_UPDATE: u32 = 8;

/// The number of the metadata element.
pub const METADATA: u32 = 9;

/// The number of the element that carries what precedes a counted item.
pub const PREFIX_INFO: u32 = 10;

/// The name of the family that text is set in while no style names one.
pub open spec fn default_family() -> Seq<char> {
    "Libertinus Serif"@
}

/// The font families of text, by priority.
#[derive(Debug, Clone, Copy)]
pub struct TextFont;

impl SettableProperty for TextFont {
    type Type = FontList;

    open spec fn spec_elem() -> Element {
        Element(TEXT)
    }

    open spec fn spec_id() -> u8 {
        0
    }

    open spec fn spec_default() -> Seq<Seq<char>> {
        seq![default_family()]
    }

    open spec fn folds() -> bool {
        false
    }

    open spec fn fold_model(inner: Seq<Seq<char>>, outer: Seq<Seq<char>>) -> Seq<Seq<char>> {
        inner
    }

    open spec fn fold_fits(inner: Seq<Seq<char>>, outer: Seq<Seq<char>>) -> bool {
        true
    }

    fn elem() -> (elem: Element) {
        Element(TEXT)
    }

    fn id() -> (id: u8) {
        0
    }

    fn default() -> (value: FontList) {
        let mut families: Vec<FontFamily> = Vec::new();
        families.push(FontFamily::new("Libertinus Serif"));
        let value = FontList(families);
        assert(value.model() =~= seq![default_family()]);
        value
    }

    fn is_folded() -> (folded: bool) {
        false
    }

    fn fits(inner: &FontList, outer: &FontList) -> (fits: bool) {
        true
    }

    fn fold(inner: FontList, outer: FontList) -> (folded: FontList) {
        inner
    }
}

impl RefableProperty for TextFont {
    proof fn is_plain() {
    }
}

/// The font features of text: each a tag with its setting, as one number.
#[derive(Debug, Clone, Copy)]
pub struct TextFeatures;

impl SettableProperty for TextFeatures {
    type Type = Vec<u64>;

    open spec fn spec_elem() -> Element {
        Element(TEXT)
    }

    open spec fn spec_id() -> u8 {
        1
    }

    open spec fn spec_default() -> Seq<u64> {
        Seq::empty()
    }

    open spec fn folds() -> bool {
        true
    }

    open spec fn fold_model(inner: Seq<u64>, outer: Seq<u64>) -> Seq<u64> {
        <Vec<u64> as Fold>::fold_model(inner, outer)
    }

    open spec fn fold_fits(inner: Seq<u64>, outer: Seq<u64>) -> bool {
        <Vec<u64> as Fold>::fold_fits(inner, outer)
    }

    fn elem() -> (elem: Element) {
        Element(TEXT)
    }

    fn id() -> (id: u8) {
        1
    }

    fn default() -> (value: Vec<u64>) {
        Vec::new()
    }

    fn is_folded() -> (folded: bool) {
        true
    }

    fn fits(inner: &Vec<u64>, outer: &Vec<u64>) -> (fits: bool) {
        inner.can_fold(outer)
    }

    fn fold(inner: Vec<u64>, outer: Vec<u64>) -> (folded: Vec<u64>) {
        Fold::fold(inner, outer)
    }
}

/// The decorations of text, such as lines under it, by their handles.
#[derive(Debug, Clone, Copy)]
pub struct TextDeco;

impl SettableProperty for TextDeco {
    type Type = SmallList;

    open spec fn spec_elem() -> Element {
        Element(TEXT)
    }

    open spec fn spec_id() -> u8 {
        2
    }

    open spec fn spec_default() -> Seq<u64> {
        Seq::empty()
    }

    open spec fn folds() -> bool {
        true
    }

    open spec fn fold_model(inner: Seq<u64>, outer: Seq<u64>) -> Seq<u64> {
        <SmallList as Fold>::fold_model(inner, outer)
    }

    open spec fn fold_fits(inner: Seq<u64>, outer: Seq<u64>) -> bool {
        <SmallList as Fold>::fold_fits(inner, outer)
    }

    fn elem() -> (elem: Element) {
        Element(TEXT)
    }

    fn id() -> (id: u8) {
        2
    }

    fn default() -> (value: SmallList) {
        let none: Vec<u64> = Vec::new();
        SmallList::from_slice(none.as_slice())
    }

    fn is_folded() -> (folded: bool) {
        true
    }

    fn fits(inner: &SmallList, outer: &SmallList) -> (fits: bool) {
        inner.can_fold(outer)
    }

    fn fold(inner: SmallList, outer: SmallList) -> (folded: SmallList) {
        Fold::fold(inner, outer)
    }
}

/// Whether an equation is set in cramped style, with its exponents
/// lowered.
#[derive(Debug, Clone, Copy)]
pub struct EquationCramped;

impl SettableProperty for EquationCramped {
    type Type = bool;

    open spec fn spec_elem() -> Element {
        Element(EQUATION)
    }

    open spec fn spec_id() -> u8 {
        0
    }

    open spec fn spec_default() -> bool {
        false
    }

    open spec fn folds() -> bool {
        false
    }

    open spec fn fold_model(inner: bool, outer: bool) -> bool {
        inner
    }

    open spec fn fold_fits(inner: bool, outer: bool) -> bool {
        true
    }

    fn elem() -> (elem: Element) {
        Element(EQUATION)
    }

    fn id() -> (id: u8) {
        0
    }

    fn default() -> (value: bool) {
        false
    }

    fn is_folded() -> (folded: bool) {
        false
    }

    fn fits(inner: &bool, outer: &bool) -> (fits: bool) {
        true
    }

    fn fold(inner: bool, outer: bool) -> (folded: bool) {
        inner
    }
}

impl RefableProperty for EquationCramped {
    proof fn is_plain() {
    }
}

/// Whether the base of an accent loses its dot.
#[derive(Debug, Clone, Copy)]
pub struct AccentDotless;

impl SettableProperty for AccentDotless {
    type Type = bool;

    open spec fn spec_elem() -> Element {
        Element(ACCENT)
    }

    open spec fn spec_id() -> u8 {
        0
    }

    open spec fn spec_default() -> bool {
        true
    }

    open spec fn folds() -> bool {
        false
    }

    open spec fn fold_model(inner: bool, outer: bool) -> bool {
        inner
    }

    open spec fn fold_fits(inner: bool, outer: bool) -> bool {
        true
    }

    fn elem() -> (elem: Element) {
        Element(ACCENT)
    }

    fn id() -> (id: u8) {
        0
    }

    fn default() -> (value: bool) {
        true
    }

    fn is_folded() -> (folded: bool) {
        false
    }

    fn fits(inner: &bool, outer: &bool) -> (fits: bool) {
        true
    }

    fn fold(inner: bool, outer: bool) -> (folded: bool) {
        inner
    }
}

impl RefableProperty for AccentDotless {
    proof fn is_plain() {
    }
}

/// How deeply a list is nested in other lists.
#[derive(Debug, Clone, Copy)]
pub struct ListDepth;

impl SettableProperty for ListDepth {
    type Type = Depth;

    open spec fn spec_elem() -> Element {
        Element(LIST)
    }

    open spec fn spec_id() -> u8 {
        0
    }

    open spec fn spec_default() -> nat {
        0
    }

    open spec fn folds() -> bool {
        true
    }

    open spec fn fold_model(inner: nat, outer: nat) -> nat {
        <Depth as Fold>::fold_model(inner, outer)
    }

    open spec fn fold_fits(inner: nat, outer: nat) -> bool {
        <Depth as Fold>::fold_fits(inner, outer)
    }

    fn elem() -> (elem: Element) {
        Element(LIST)
    }

    fn id() -> (id: u8) {
        0
    }

    fn default() -> (value: Depth) {
        Depth(0)
    }

    fn is_folded() -> (folded: bool) {
        true
    }

    fn fits(inner: &Depth, outer: &Depth) -> (fits: bool) {
        inner.can_fold(outer)
    }

    fn fold(inner: Depth, outer: Depth) -> (folded: Depth) {
        Fold::fold(inner, outer)
    }
}

impl Styles {
    /// Set a font family composed of a preferred family and existing
    /// families from a style chain.
    pub fn set_family(&mut self, preferred: FontFamily, existing: StyleChain)
        requires
            first_set(entries_of(existing@), Element(TEXT), 0) matches Some(found)
                ==> <FontList as Blockable>::read(found) is Some,
        ensures
            final(self)@.len() == old(self)@.len() + 1,
            final(self)@.drop_last() == old(self)@,
            final(self)@.last() matches StyleView::Property(property) && property.elem == Element(
                TEXT,
            ) && property.id == 0 && property.value == BlockView::Fonts(
                seq![preferred.name@] + unfolded::<FontList>(
                    first_set(entries_of(existing@), Element(TEXT), 0),
                    seq![default_family()],
                ),
            ) && span_detached(property.span) && !property.liftable && !property.outside,
    {
        let fallback = TextFont::default();
        let families = FontList::prepended(preferred, existing.get_ref(TextFont, &fallback));
        self.set(TextFont, families);
    }
}

} // verus!
