use style_chain::elements::{EquationCramped, ListDepth, TextFeatures};
use style_chain::{
    AlternativeFold, Depth, Element, Fold, LookupError, SettableProperty, StyleChain, Styles,
};

/// A field that lies where the depth of lists lies, but holds a truth value.
struct Misplaced;

impl SettableProperty for Misplaced {
    type Type = bool;

    fn spec_elem() -> Element {
        Element(4)
    }

    fn spec_id() -> u8 {
        0
    }

    fn spec_default() -> bool {
        false
    }

    fn folds() -> bool {
        false
    }

    fn fold_model(inner: bool, _outer: bool) -> bool {
        inner
    }

    fn fold_fits(_inner: bool, _outer: bool) -> bool {
        true
    }

    fn elem() -> Element {
        Element(4)
    }

    fn id() -> u8 {
        0
    }

    fn default() -> bool {
        false
    }

    fn is_folded() -> bool {
        false
    }

    fn fits(_inner: &bool, _outer: &bool) -> bool {
        true
    }

    fn fold(inner: bool, _outer: bool) -> bool {
        inner
    }
}

#[test]
fn try_get_cloned_of_a_plain_field() {
    let mut styles = Styles::new();
    let chain = StyleChain::new(&styles);
    assert_eq!(chain.try_get_cloned(EquationCramped), Ok(false));
    styles.set(EquationCramped, true);
    let chain = StyleChain::new(&styles);
    assert_eq!(chain.try_get_cloned(EquationCramped), Ok(true));
}

#[test]
fn try_get_cloned_of_a_folded_field() {
    let mut outer = Styles::new();
    outer.set(TextFeatures, vec![1u64]);
    outer.set(ListDepth, Depth(2));
    let mut inner = Styles::new();
    inner.set(TextFeatures, vec![2u64, 3]);
    inner.set(ListDepth, Depth(5));
    let root = StyleChain::new(&outer);
    let chain = root.chain(&inner);
    assert_eq!(chain.try_get_cloned(TextFeatures), Ok(vec![2, 3, 1]));
    assert_eq!(chain.try_get_cloned(ListDepth), Ok(Depth(7)));
    assert_eq!(StyleChain::default().try_get_cloned(ListDepth), Ok(Depth(0)));
}

#[test]
fn try_get_cloned_of_a_depth_that_does_not_fit() {
    let mut outer = Styles::new();
    outer.set(ListDepth, Depth(usize::MAX));
    let mut inner = Styles::new();
    inner.set(ListDepth, Depth(1));
    let root = StyleChain::new(&outer);
    let chain = root.chain(&inner);
    assert_eq!(root.try_get_cloned(ListDepth), Ok(Depth(usize::MAX)));
    assert_eq!(chain.try_get_cloned(ListDepth), Err(LookupError::TooLarge));
}

#[test]
fn try_get_cloned_of_a_value_of_another_type() {
    let mut styles = Styles::new();
    styles.set(Misplaced, true);
    let chain = StyleChain::new(&styles);
    assert_eq!(chain.try_get_cloned(Misplaced), Ok(true));
    assert_eq!(
        chain.try_get_cloned(ListDepth),
        Err(LookupError::WrongType(String::from(
            "attempted to read a value of a different type than was written 4.0: bool"
        )))
    );
}

#[test]
fn try_get_cloned_reads_a_plain_field_only_at_the_nearest_value() {
    let mut outer = Styles::new();
    outer.set(ListDepth, Depth(1));
    let mut inner = Styles::new();
    inner.set(Misplaced, true);
    let root = StyleChain::new(&outer);
    let chain = root.chain(&inner);
    assert_eq!(chain.try_get_cloned(Misplaced), Ok(true));
    assert_eq!(
        root.try_get_cloned(Misplaced),
        Err(LookupError::WrongType(String::from(
            "attempted to read a value of a different type than was written 4.0: depth"
        )))
    );
    assert_eq!(
        chain.try_get_cloned(ListDepth),
        Err(LookupError::WrongType(String::from(
            "attempted to read a value of a different type than was written 4.0: bool"
        )))
    );
}

#[test]
fn can_fold_tells_whether_a_depth_fits() {
    assert!(Depth(1).can_fold(&Depth(usize::MAX - 1)));
    assert!(!Depth(1).can_fold(&Depth(usize::MAX)));
    assert!(!Depth(usize::MAX).can_fold(&Depth(usize::MAX)));
    assert!(Depth(0).can_fold(&Depth(usize::MAX)));
    assert!(Some(Depth(1)).can_fold(&None));
    assert!(None.can_fold(&Some(Depth(usize::MAX))));
    assert!(!Some(Depth(1)).can_fold(&Some(Depth(usize::MAX))));
    assert!(!Some(Depth(1)).can_fold_or(&Some(Depth(usize::MAX))));
    assert!(Some(Depth(1)).can_fold_or(&None));
    assert!(true.can_fold(&false));
    assert!(vec![1u64].can_fold(&vec![2u64]));
}
