//! How a property accumulates over nested scopes.
//!
//! A plain property is overridden by the innermost scope that sets it. A
//! folded property combines the values of all scopes that set it, from the
//! innermost outwards.

use vstd::prelude::*;
use crate::small::SmallList;

verus! {

/// A value and the mathematical value it stands for.
pub trait Modeled: Sized {
    /// The mathematical values.
    type Model;

    /// The mathematical value of `self`.
    spec fn model(&self) -> Self::Model;
}

/// A property that is folded to determine its final value.
///
/// Folding must be associative: for every triple on which
/// [`associates`](Fold::associates) holds, folding `a` with `b` and the
/// result with `c` gives what folding `a` with the fold of `b` and `c` gives.
pub trait Fold: Modeled {
    /// The fold of an inner value with an outer one.
    spec fn fold_model(inner: Self::Model, outer: Self::Model) -> Self::Model;

    /// Whether the machine can hold the fold of the two values.
    spec fn fold_fits(inner: Self::Model, outer: Self::Model) -> bool;

    /// The triples on which folding associates.
    spec fn associates(a: Self::Model, b: Self::Model, c: Self::Model) -> bool;

    /// Whether the machine can hold the fold of this inner value with the
    /// outer one.
    fn can_fold(&self, outer: &Self) -> (fits: bool)
        ensures
            fits == Self::fold_fits(self.model(), outer.model()),
    ;

    /// Fold this inner value with an outer folded value.
    fn fold(self, outer: Self) -> (folded: Self)
        requires
            Self::fold_fits(self.model(), outer.model()),
        ensures
            folded.model() == Self::fold_model(self.model(), outer.model()),
    ;

    /// Folding is associative.
    proof fn fold_associative(a: Self::Model, b: Self::Model, c: Self::Model)
        requires
            Self::associates(a, b, c),
        ensures
            Self::fold_model(Self::fold_model(a, b), c) == Self::fold_model(
                a,
                Self::fold_model(b, c),
            ),
    ;
}

impl Modeled for bool {
    type Model = bool;

    open spec fn model(&self) -> bool {
        *self
    }
}

/// The inner value wins.
impl Fold for bool {
    open spec fn fold_model(inner: bool, outer: bool) -> bool {
        inner
    }

    open spec fn fold_fits(inner: bool, outer: bool) -> bool {
        true
    }

    open spec fn associates(a: bool, b: bool, c: bool) -> bool {
        true
    }

    fn can_fold(&self, _outer: &Self) -> (fits: bool) {
        true
    }

    fn fold(self, _outer: Self) -> (folded: Self) {
        self
    }

    proof fn fold_associative(a: bool, b: bool, c: bool) {
    }
}

impl<T: Modeled> Modeled for Option<T> {
    type Model = Option<T::Model>;

    open spec fn model(&self) -> Option<T::Model> {
        match self {
            Some(value) => Some(value.model()),
            None => None,
        }
    }
}

/// Two present values are folded. Otherwise the inner value stands, also
/// where it is `None`: an explicit `None` is respected.
///
/// This does not associate on every triple: with `a` and `c` present and
/// `b` absent, folding `a` with `b` first lets `c` in, while folding `b`
/// with `c` first shuts it out.
impl<T: Fold> Fold for Option<T> {
    open spec fn fold_model(inner: Option<T::Model>, outer: Option<T::Model>) -> Option<T::Model> {
        match (inner, outer) {
            (Some(inner), Some(outer)) => Some(T::fold_model(inner, outer)),
            (inner, _) => inner,
        }
    }

    open spec fn fold_fits(inner: Option<T::Model>, outer: Option<T::Model>) -> bool {
        match (inner, outer) {
            (Some(inner), Some(outer)) => T::fold_fits(inner, outer),
            _ => true,
        }
    }

    open spec fn associates(a: Option<T::Model>, b: Option<T::Model>, c: Option<T::Model>) -> bool {
        match (a, b, c) {
            (Some(a), Some(b), Some(c)) => T::associates(a, b, c),
            (Some(a), None, Some(c)) => T::fold_model(a, c) == a,
            _ => true,
        }
    }

    fn can_fold(&self, outer: &Self) -> (fits: bool) {
        match (self, outer) {
            (Some(inner), Some(outer)) => inner.can_fold(outer),
            _ => true,
        }
    }

    fn fold(self, outer: Self) -> (folded: Self) {
        match (self, outer) {
            (Some(inner), Some(outer)) => Some(inner.fold(outer)),
            (inner, _) => inner,
        }
    }

    proof fn fold_associative(a: Option<T::Model>, b: Option<T::Model>, c: Option<T::Model>) {
        match (a, b, c) {
            (Some(a), Some(b), Some(c)) => {
                T::fold_associative(a, b, c);
            },
            _ => {},
        }
    }
}

impl<T> Modeled for Vec<T> {
    type Model = Seq<T>;

    open spec fn model(&self) -> Seq<T> {
        self@
    }
}

/// The inner items come first, the outer ones after them.
impl<T> Fold for Vec<T> {
    open spec fn fold_model(inner: Seq<T>, outer: Seq<T>) -> Seq<T> {
        inner + outer
    }

    open spec fn fold_fits(inner: Seq<T>, outer: Seq<T>) -> bool {
        true
    }

    open spec fn associates(a: Seq<T>, b: Seq<T>, c: Seq<T>) -> bool {
        true
    }

    fn can_fold(&self, _outer: &Self) -> (fits: bool) {
        true
    }

    fn fold(self, outer: Self) -> (folded: Self) {
        let mut folded = self;
        let mut outer = outer;
        folded.append(&mut outer);
        folded
    }

    proof fn fold_associative(a: Seq<T>, b: Seq<T>, c: Seq<T>) {
        assert((a + b) + c =~= a + (b + c));
    }
}

impl Modeled for SmallList {
    type Model = Seq<u64>;

    open spec fn model(&self) -> Seq<u64> {
        self@
    }
}

/// The inner items come first, the outer ones after them.
impl Fold for SmallList {
    open spec fn fold_model(inner: Seq<u64>, outer: Seq<u64>) -> Seq<u64> {
        inner + outer
    }

    open spec fn fold_fits(inner: Seq<u64>, outer: Seq<u64>) -> bool {
        true
    }

    open spec fn associates(a: Seq<u64>, b: Seq<u64>, c: Seq<u64>) -> bool {
        true
    }

    fn can_fold(&self, _outer: &Self) -> (fits: bool) {
        true
    }

    fn fold(self, outer: Self) -> (folded: Self) {
        self.extended(outer)
    }

    proof fn fold_associative(a: Seq<u64>, b: Seq<u64>, c: Seq<u64>) {
        assert((a + b) + c =~= a + (b + c));
    }
}

/// One value or several of them.
pub struct OneOrMultiple<T>(pub Vec<T>);

impl<T> Modeled for OneOrMultiple<T> {
    type Model = Seq<T>;

    open spec fn model(&self) -> Seq<T> {
        self.0@
    }
}

/// The inner items come first, the outer ones after them.
impl<T> Fold for OneOrMultiple<T> {
    open spec fn fold_model(inner: Seq<T>, outer: Seq<T>) -> Seq<T> {
        inner + outer
    }

    open spec fn fold_fits(inner: Seq<T>, outer: Seq<T>) -> bool {
        true
    }

    open spec fn associates(a: Seq<T>, b: Seq<T>, c: Seq<T>) -> bool {
        true
    }

    fn can_fold(&self, _outer: &Self) -> (fits: bool) {
        true
    }

    fn fold(self, outer: Self) -> (folded: Self) {
        let mut folded = self;
        let mut outer = outer;
        folded.0.append(&mut outer.0);
        folded
    }

    proof fn fold_associative(a: Seq<T>, b: Seq<T>, c: Seq<T>) {
        assert((a + b) + c =~= a + (b + c));
    }
}

/// A variant of fold for optional values in which `None` means that
/// nothing was specified: a specified value is chosen over `None` from
/// either side, and two specified values are folded.
pub trait AlternativeFold: Modeled {
    /// The fold of an inner value with an outer one, where either may be
    /// unspecified.
    spec fn fold_or_model(inner: Self::Model, outer: Self::Model) -> Self::Model;

    /// Whether the machine can hold the fold of the two values.
    spec fn fold_or_fits(inner: Self::Model, outer: Self::Model) -> bool;

    /// The triples on which this fold associates.
    spec fn or_associates(a: Self::Model, b: Self::Model, c: Self::Model) -> bool;

    /// Whether the machine can hold this fold of the two values.
    fn can_fold_or(&self, outer: &Self) -> (fits: bool)
        ensures
            fits == Self::fold_or_fits(self.model(), outer.model()),
    ;

    /// Attempts to fold this inner value with an outer value. However, if
    /// either value is `None`, returns the other one instead of folding.
    fn fold_or(self, outer: Self) -> (folded: Self)
        requires
            Self::fold_or_fits(self.model(), outer.model()),
        ensures
            folded.model() == Self::fold_or_model(self.model(), outer.model()),
    ;

    /// This fold is associative.
    proof fn fold_or_associative(a: Self::Model, b: Self::Model, c: Self::Model)
        requires
            Self::or_associates(a, b, c),
        ensures
            Self::fold_or_model(Self::fold_or_model(a, b), c) == Self::fold_or_model(
                a,
                Self::fold_or_model(b, c),
            ),
    ;
}

impl<T: Fold> AlternativeFold for Option<T> {
    open spec fn fold_or_model(inner: Option<T::Model>, outer: Option<T::Model>) -> Option<
        T::Model,
    > {
        match (inner, outer) {
            (Some(inner), Some(outer)) => Some(T::fold_model(inner, outer)),
            (Some(inner), None) => Some(inner),
            (None, outer) => outer,
        }
    }

    open spec fn fold_or_fits(inner: Option<T::Model>, outer: Option<T::Model>) -> bool {
        match (inner, outer) {
            (Some(inner), Some(outer)) => T::fold_fits(inner, outer),
            _ => true,
        }
    }

    open spec fn or_associates(
        a: Option<T::Model>,
        b: Option<T::Model>,
        c: Option<T::Model>,
    ) -> bool {
        match (a, b, c) {
            (Some(a), Some(b), Some(c)) => T::associates(a, b, c),
            _ => true,
        }
    }

    fn can_fold_or(&self, outer: &Self) -> (fits: bool) {
        match (self, outer) {
            (Some(inner), Some(outer)) => inner.can_fold(outer),
            _ => true,
        }
    }

    fn fold_or(self, outer: Self) -> (folded: Self) {
        match (self, outer) {
            (Some(inner), Some(outer)) => Some(inner.fold(outer)),
            (Some(inner), None) => Some(inner),
            (None, outer) => outer,
        }
    }

    proof fn fold_or_associative(a: Option<T::Model>, b: Option<T::Model>, c: Option<T::Model>) {
        match (a, b, c) {
            (Some(a), Some(b), Some(c)) => {
                T::fold_associative(a, b, c);
            },
            _ => {},
        }
    }
}

/// A type that accumulates depth when folded.
#[derive(Debug, Default, Clone, Copy, PartialEq, Eq, Hash, Structural)]
pub struct Depth(pub usize);

impl Modeled for Depth {
    type Model = nat;

    open spec fn model(&self) -> nat {
        self.0 as nat
    }
}

/// The depths add up.
impl Fold for Depth {
    open spec fn fold_model(inner: nat, outer: nat) -> nat {
        inner + outer
    }

    open spec fn fold_fits(inner: nat, outer: nat) -> bool {
        inner + outer <= usize::MAX
    }

    open spec fn associates(a: nat, b: nat, c: nat) -> bool {
        true
    }

    fn can_fold(&self, outer: &Self) -> (fits: bool) {
        outer.0 <= usize::MAX - self.0
    }

    fn fold(self, outer: Self) -> (folded: Self) {
        Depth(outer.0 + self.0)
    }

    proof fn fold_associative(a: nat, b: nat, c: nat) {
    }
}

} // verus!
