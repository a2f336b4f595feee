use std::collections::hash_map::DefaultHasher;
use std::hash::{Hash, Hasher};

use style_chain::{
    block_wrong_type, Block, BlockKind, Depth, Element, FontFamily, FontList, SmallList,
};

fn hash_of(block: &Block) -> u64 {
    let mut hasher = DefaultHasher::new();
    block.hash(&mut hasher);
    hasher.finish()
}

#[test]
fn block_gives_back_a_bool() {
    let block = Block::new(true);
    assert_eq!(*block.downcast::<bool>(Element(1), 0), true);
    assert_eq!(block.kind(), BlockKind::Bool);
}

#[test]
fn block_gives_back_a_depth() {
    let block = Block::new(Depth(4));
    assert_eq!(*block.downcast::<Depth>(Element(4), 0), Depth(4));
    assert_eq!(block.kind(), BlockKind::Depth);
}

#[test]
fn block_gives_back_numbers() {
    let block = Block::new(vec![3u64, 1, 2]);
    assert_eq!(block.downcast::<Vec<u64>>(Element(1), 1), &vec![3, 1, 2]);
    assert_eq!(block.kind(), BlockKind::Numbers);
}

#[test]
fn block_gives_back_a_small_list() {
    let block = Block::new(SmallList::from_slice(&[9, 8]));
    assert_eq!(block.downcast::<SmallList>(Element(1), 2).as_slice(), &[9, 8]);
    assert_eq!(block.kind(), BlockKind::Small);
}

#[test]
fn block_gives_back_fonts() {
    let fonts = FontList(vec![FontFamily::new("Inria Serif"), FontFamily::new("Noto Sans")]);
    let block = Block::new(fonts);
    let read = block.downcast::<FontList>(Element(1), 0);
    assert_eq!(read.0.len(), 2);
    assert_eq!(read.0[0].as_str(), "Inria Serif");
    assert_eq!(read.0[1].as_str(), "Noto Sans");
    assert_eq!(block.kind(), BlockKind::Fonts);
}

#[test]
fn downcast_after_clone_returns_the_value() {
    let block = Block::new(vec![10u64, 20]);
    let copy = block.clone();
    assert_eq!(copy.downcast::<Vec<u64>>(Element(1), 1), &vec![10, 20]);
    assert_eq!(block.downcast::<Vec<u64>>(Element(1), 1), &vec![10, 20]);

    let block = Block::new(Depth(7));
    assert_eq!(*block.clone().downcast::<Depth>(Element(4), 0), Depth(7));

    let block = Block::new(false);
    assert_eq!(*block.clone().downcast::<bool>(Element(2), 0), false);

    let block = Block::new(SmallList::from_slice(&[1, 2, 3]));
    assert_eq!(block.clone().downcast::<SmallList>(Element(1), 2).as_slice(), &[1, 2, 3]);

    let block = Block::new(FontList(vec![FontFamily::new("A")]));
    assert_eq!(block.clone().downcast::<FontList>(Element(1), 0).0[0].as_str(), "A");
}

#[test]
fn block_is_tells_the_type() {
    let block = Block::new(Depth(1));
    assert!(block.is::<Depth>());
    assert!(!block.is::<bool>());
    assert!(!block.is::<Vec<u64>>());
    assert!(!block.is::<SmallList>());
    assert!(!block.is::<FontList>());
}

#[test]
fn numbers_and_small_lists_are_told_apart() {
    let numbers = Block::new(vec![1u64]);
    let small = Block::new(SmallList::from_slice(&[1]));
    assert!(numbers.is::<Vec<u64>>());
    assert!(!numbers.is::<SmallList>());
    assert!(small.is::<SmallList>());
    assert!(!small.is::<Vec<u64>>());
}

#[test]
fn try_downcast_of_the_right_type() {
    let block = Block::new(true);
    assert_eq!(block.try_downcast::<bool>(Element(2), 0), Ok(&true));
}

#[test]
fn try_downcast_of_another_type_says_what_was_read() {
    let block = Block::new(true);
    let failure = block.try_downcast::<Depth>(Element(12), 3);
    assert_eq!(
        failure,
        Err(String::from(
            "attempted to read a value of a different type than was written 12.3: bool"
        ))
    );
}

#[test]
fn wrong_type_message_names_element_field_and_kind() {
    let block = Block::new(vec![1u64]);
    assert_eq!(
        block_wrong_type(Element(0), 0, &block),
        "attempted to read a value of a different type than was written 0.0: numbers"
    );
    let block = Block::new(Depth(0));
    assert_eq!(
        block_wrong_type(Element(4294967295), 255, &block),
        "attempted to read a value of a different type than was written 4294967295.255: depth"
    );
    let block = Block::new(SmallList::from_slice(&[]));
    assert_eq!(
        block_wrong_type(Element(10), 100, &block),
        "attempted to read a value of a different type than was written 10.100: small"
    );
    let block = Block::new(FontList(Vec::new()));
    assert_eq!(
        block_wrong_type(Element(907), 19, &block),
        "attempted to read a value of a different type than was written 907.19: fonts"
    );
}

#[test]
fn kind_names() {
    assert_eq!(BlockKind::Bool.name(), "bool");
    assert_eq!(BlockKind::Depth.name(), "depth");
    assert_eq!(BlockKind::Fonts.name(), "fonts");
    assert_eq!(BlockKind::Numbers.name(), "numbers");
    assert_eq!(BlockKind::Small.name(), "small");
}

#[test]
fn hash_tells_kinds_with_equal_data_apart() {
    let numbers = Block::new(Vec::<u64>::new());
    let fonts = Block::new(FontList(Vec::new()));
    assert_ne!(hash_of(&numbers), hash_of(&fonts));
    let off = Block::new(false);
    let zero = Block::new(Depth(0));
    assert_ne!(hash_of(&off), hash_of(&zero));
}

#[test]
fn hash_of_a_clone_is_the_hash_of_the_block() {
    let block = Block::new(vec![1u64, 2, 3]);
    assert_eq!(hash_of(&block), hash_of(&block.clone()));
}
