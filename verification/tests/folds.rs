use style_chain::{AlternativeFold, Depth, Fold, OneOrMultiple, SmallList};

#[test]
fn bool_fold_keeps_the_inner_value() {
    assert_eq!(true.fold(false), true);
    assert_eq!(false.fold(true), false);
    assert_eq!(true.fold(true), true);
    assert_eq!(false.fold(false), false);
}

#[test]
fn bool_fold_is_associative() {
    for a in [false, true] {
        for b in [false, true] {
            for c in [false, true] {
                assert_eq!(a.fold(b).fold(c), a.fold(b.fold(c)));
            }
        }
    }
}

#[test]
fn vec_fold_puts_inner_items_first() {
    let inner = vec![2u64, 3];
    let outer = vec![1u64];
    assert_eq!(inner.fold(outer), vec![2, 3, 1]);
}

#[test]
fn vec_fold_with_empty_sides() {
    assert_eq!(Vec::<u64>::new().fold(vec![1]), vec![1]);
    assert_eq!(vec![1u64].fold(Vec::new()), vec![1]);
    assert_eq!(Vec::<u64>::new().fold(Vec::new()), Vec::<u64>::new());
}

#[test]
fn vec_fold_is_associative() {
    let a = vec![1u64, 2];
    let b = vec![3u64];
    let c = vec![4u64, 5, 6];
    let left = a.clone().fold(b.clone()).fold(c.clone());
    let right = a.fold(b.fold(c));
    assert_eq!(left, right);
    assert_eq!(left, vec![1, 2, 3, 4, 5, 6]);
}

#[test]
fn small_list_fold_puts_inner_items_first() {
    let inner = SmallList::from_slice(&[7, 8]);
    let outer = SmallList::from_slice(&[9]);
    let folded = inner.fold(outer);
    assert_eq!(folded.as_slice(), &[7, 8, 9]);
}

#[test]
fn small_list_fold_is_associative() {
    let a = SmallList::from_slice(&[1]);
    let b = SmallList::from_slice(&[2, 3]);
    let c = SmallList::from_slice(&[4]);
    let left = a.clone().fold(b.clone()).fold(c.clone());
    let right = a.fold(b.fold(c));
    assert_eq!(left.as_slice(), right.as_slice());
    assert_eq!(left.as_slice(), &[1, 2, 3, 4]);
}

#[test]
fn small_list_round_trip_and_clone() {
    let list = SmallList::from_slice(&[5, 6, 7]);
    assert_eq!(list.as_slice(), &[5, 6, 7]);
    let copy = list.clone();
    assert_eq!(copy.as_slice(), &[5, 6, 7]);
    let joined = list.extended(SmallList::from_slice(&[]));
    assert_eq!(joined.as_slice(), &[5, 6, 7]);
    assert!(SmallList::from_slice(&[]).as_slice().is_empty());
}

#[test]
fn one_or_multiple_fold_puts_inner_items_first() {
    let inner = OneOrMultiple(vec![1u8]);
    let outer = OneOrMultiple(vec![2u8, 3]);
    assert_eq!(inner.fold(outer).0, vec![1, 2, 3]);
}

#[test]
fn one_or_multiple_fold_is_associative() {
    let left = OneOrMultiple(vec![1u8]).fold(OneOrMultiple(vec![2])).fold(OneOrMultiple(vec![3]));
    let right = OneOrMultiple(vec![1u8]).fold(OneOrMultiple(vec![2]).fold(OneOrMultiple(vec![3])));
    assert_eq!(left.0, right.0);
    assert_eq!(left.0, vec![1, 2, 3]);
}

#[test]
fn depth_fold_adds_up() {
    assert_eq!(Depth(2).fold(Depth(3)), Depth(5));
    assert_eq!(Depth(0).fold(Depth(0)), Depth(0));
    assert_eq!(Depth(usize::MAX).fold(Depth(0)), Depth(usize::MAX));
}

#[test]
fn depth_fold_is_associative() {
    let (a, b, c) = (Depth(1), Depth(20), Depth(300));
    assert_eq!(a.fold(b).fold(c), a.fold(b.fold(c)));
    assert_eq!(a.fold(b).fold(c), Depth(321));
}

#[test]
fn option_fold_folds_two_present_values() {
    assert_eq!(Some(Depth(1)).fold(Some(Depth(2))), Some(Depth(3)));
}

#[test]
fn option_fold_respects_an_explicit_none() {
    assert_eq!(None.fold(Some(Depth(2))), None);
    assert_eq!(Some(Depth(1)).fold(None), Some(Depth(1)));
    assert_eq!(None::<Depth>.fold(None), None);
}

#[test]
fn option_fold_is_associative_where_all_are_present() {
    let (a, b, c) = (Some(Depth(1)), Some(Depth(2)), Some(Depth(4)));
    assert_eq!(a.fold(b).fold(c), a.fold(b.fold(c)));
    assert_eq!(a.fold(b).fold(c), Some(Depth(7)));
}

#[test]
fn option_fold_is_associative_with_an_absent_inner_value() {
    let (a, b, c) = (None, Some(Depth(2)), Some(Depth(4)));
    assert_eq!(a.fold(b).fold(c), a.fold(b.fold(c)));
    assert_eq!(a.fold(b).fold(c), None);
}

#[test]
fn option_fold_does_not_associate_around_an_absent_middle() {
    let (a, b, c) = (Some(Depth(1)), None, Some(Depth(1)));
    assert_eq!(a.fold(b).fold(c), Some(Depth(2)));
    assert_eq!(a.fold(b.fold(c)), Some(Depth(1)));
}

#[test]
fn fold_or_prefers_the_specified_side() {
    assert_eq!(None.fold_or(Some(Depth(2))), Some(Depth(2)));
    assert_eq!(Some(Depth(1)).fold_or(None), Some(Depth(1)));
    assert_eq!(Some(Depth(1)).fold_or(Some(Depth(2))), Some(Depth(3)));
}

#[test]
fn fold_or_of_two_absent_values_is_absent() {
    assert_eq!(None::<Depth>.fold_or(None), None);
}

#[test]
fn fold_or_is_associative() {
    let values = [None, Some(Depth(1)), Some(Depth(5))];
    for a in values {
        for b in values {
            for c in values {
                assert_eq!(a.fold_or(b).fold_or(c), a.fold_or(b.fold_or(c)));
            }
        }
    }
}

#[test]
fn nested_option_fold() {
    let inner = Some(vec![1u64]);
    let outer = Some(vec![2u64]);
    assert_eq!(inner.fold(outer), Some(vec![1, 2]));
}
