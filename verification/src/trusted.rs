//! Types of other crates that values of this library carry, and what is
//! taken on trust about them.

use vstd::prelude::*;
use typst_syntax::Span;
use typst_utils::LazyHash;

verus! {

/// A position in a source file, carried through as an opaque value.
#[verifier::external_type_specification]
#[verifier::external_body]
pub struct ExSpan(Span);

/// A value together with a lazily computed hash of it.
#[verifier::external_type_specification]
#[verifier::external_body]
#[verifier::reject_recursive_types(T)]
pub struct ExLazyHash<T: ?Sized>(LazyHash<T>);

/// The hasher that the table of native rules is built with.
#[verifier::external_type_specification]
#[verifier::external_body]
pub struct ExFxBuildHasher(rustc_hash::FxBuildHasher);

/// Whether a span points nowhere: what `Span::is_detached` answers.
pub uninterp spec fn span_detached(span: Span) -> bool;

/// `Span::detached`: the span that points nowhere. `Span::is_detached`
/// compares against that very value, so it holds of the result.
#[verifier::external_body]
pub(crate) fn detached_span() -> (span: Span)
    ensures
        span_detached(span),
{
    Span::detached()
}

/// `Span::is_detached`: the answer is, by definition, `span_detached`.
#[verifier::external_body]
pub(crate) fn is_detached(span: Span) -> (detached: bool)
    ensures
        detached == span_detached(span),
{
    span.is_detached()
}

} // verus!
