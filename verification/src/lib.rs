//! Cascading styles for a document tree.
//!
//! Scopes of a document contribute ordered lists of style entries. A chain
//! links such lists from the innermost scope outwards without copying them,
//! and answers queries for property values and show rule recipes.

pub mod trusted;
pub mod content;
pub mod small;
pub mod fold;
pub mod text;
pub mod block;
pub mod style;
pub mod styles;
pub mod chain;
pub mod elements;
pub mod rules;
pub mod laws;

pub use block::{block_wrong_type, Block, BlockKind, Blockable};
pub use chain::{
    Chainable, Entries, Links, LookupError, RefableProperty, Resolve, StyleChain,
};
pub use content::{Content, Element, Func, Selector, Target};
pub use fold::{AlternativeFold, Depth, Fold, Modeled, OneOrMultiple};
pub use rules::{NativeRuleMap, NativeShowRule, ShowFn};
pub use small::SmallList;
pub use style::{
    Application, Property, Recipe, RecipeIndex, SettableProperty, Style, Tracepoint,
    Transformation,
};
pub use styles::Styles;
pub use text::{FontFamily, FontList};
