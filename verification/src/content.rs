//! What the style machinery sees of the document tree: the kind of a node,
//! where it stems from, and handles to things that live with the tree.

use vstd::prelude::*;
use typst_syntax::Span;
use crate::trusted::{span_detached, is_detached, detached_span};

verus! {

/// The kind of a content node.
#[derive(Clone, Copy, PartialEq, Eq, Hash, Debug, Structural)]
pub struct Element(pub u32);

/// The output a document is compiled for.
#[derive(Clone, Copy, PartialEq, Eq, Hash, Debug, Structural)]
pub enum Target {
    /// Pages of fixed size.
    Paged,
    /// A flow of markup elements.
    Html,
}

/// A function that lives with the evaluator, known here by its handle.
#[derive(Clone, Copy, PartialEq, Eq, Hash, Debug, Structural)]
pub struct Func(pub u32);

/// Decides which content a show rule applies to.
#[derive(Clone, Copy, PartialEq, Eq, Hash, Debug, Structural)]
pub enum Selector {
    /// Content of one kind.
    Elem(Element),
    /// Content that carries the label with this handle.
    Label(u32),
    /// Text that matches the pattern with this handle.
    Regex(u32),
}

/// A node of the document tree: its kind, its origin, and the handle under
/// which the tree knows it.
#[derive(Clone, Copy, PartialEq, Eq, Hash, Debug)]
pub struct Content {
    /// The kind of the node.
    pub elem: Element,
    /// Where the node stems from.
    pub span: Span,
    /// The handle of the node in the tree.
    pub node: u64,
}

impl Content {
    /// Content of the given kind with no origin yet.
    pub fn new(elem: Element, node: u64) -> (content: Content)
        ensures
            content.elem == elem,
            content.node == node,
            span_detached(content.span),
    {
        Content { elem, span: detached_span(), node }
    }

    /// The kind of this content.
    pub fn elem(&self) -> (elem: Element)
        ensures
            elem == self.elem,
    {
        self.elem
    }

    /// The kind of this content, as the key under which rules are found.
    pub fn func(&self) -> (elem: Element)
        ensures
            elem == self.elem,
    {
        self.elem
    }

    /// Where this content stems from.
    pub fn span(&self) -> (span: Span)
        ensures
            span == self.span,
    {
        self.span
    }

    /// What `spanned` gives: the content with `span` as origin where it had
    /// none.
    pub open spec fn with_span(self, span: Span) -> Content {
        if span_detached(self.span) {
            Content { elem: self.elem, span, node: self.node }
        } else {
            self
        }
    }

    /// Gives the content an origin if it has none.
    pub fn spanned(self, span: Span) -> (content: Content)
        ensures
            content == self.with_span(span),
    {
        if is_detached(self.span) {
            Content { elem: self.elem, span, node: self.node }
        } else {
            self
        }
    }
}

} // verus!
