//! The cell in which a style property keeps its value.
//!
//! Properties of many types live side by side in one list. A cell holds a
//! value of any of them together with the kind of the value, and gives it
//! back only to a reader that asks for that kind.

use vstd::prelude::*;
use vstd::string::StringExecFns;
use crate::content::Element;
use crate::fold::{Depth, Modeled};
use crate::small::SmallList;
use crate::text::FontList;

verus! {

/// The kinds of value that a cell can hold.
#[derive(Debug, Clone, Copy, PartialEq, Eq, Hash, Structural)]
pub enum BlockKind {
    /// A truth value.
    Bool,
    /// A nesting depth.
    Depth,
    /// A list of font families.
    Fonts,
    /// A vector of numbers.
    Numbers,
    /// A small list of numbers.
    Small,
}

/// What a cell holds, as a mathematical value.
pub enum BlockView {
    /// A truth value.
    Bool(bool),
    /// A nesting depth.
    Depth(nat),
    /// A list of font families.
    Fonts(Seq<Seq<char>>),
    /// A vector of numbers.
    Numbers(Seq<u64>),
    /// A small list of numbers.
    Small(Seq<u64>),
}

impl BlockView {
    /// The kind of the value.
    pub open spec fn kind(self) -> BlockKind {
        match self {
            BlockView::Bool(_) => BlockKind::Bool,
            BlockView::Depth(_) => BlockKind::Depth,
            BlockView::Fonts(_) => BlockKind::Fonts,
            BlockView::Numbers(_) => BlockKind::Numbers,
            BlockView::Small(_) => BlockKind::Small,
        }
    }
}

/// A value of one of the kinds.
#[derive(Debug, Hash)]
enum Stored {
    Bool(bool),
    Depth(Depth),
    Fonts(FontList),
    Numbers(Vec<u64>),
    Small(SmallList),
}

/// A block storage for storing style values.
///
/// The hash of a cell covers the kind of its value, so that equal data of
/// different kinds hash differently.
#[derive(Debug, Hash)]
pub struct Block {
    value: Stored,
}

impl View for Block {
    type V = BlockView;

    closed spec fn view(&self) -> BlockView {
        match self.value {
            Stored::Bool(value) => BlockView::Bool(value),
            Stored::Depth(value) => BlockView::Depth(value.model()),
            Stored::Fonts(value) => BlockView::Fonts(value.model()),
            Stored::Numbers(value) => BlockView::Numbers(value@),
            Stored::Small(value) => BlockView::Small(value@),
        }
    }
}

/// A value that can be stored in a block.
pub trait Blockable: Modeled {
    /// The cell that holds a value.
    spec fn store(model: Self::Model) -> BlockView;

    /// The value that a cell holds, if it is of this type.
    spec fn read(view: BlockView) -> Option<Self::Model>;

    /// Moves the value into a cell.
    fn into_block(self) -> (block: Block)
        ensures
            block@ == Self::store(self.model()),
    ;

    /// The value in the cell, if it is of this type.
    fn from_block(block: &Block) -> (value: Option<&Self>)
        ensures
            match value {
                Some(value) => Self::read(block@) == Some(value.model()),
                None => Self::read(block@) is None,
            },
    ;

    /// A copy of the value.
    fn duplicate(&self) -> (copy: Self)
        ensures
            copy.model() == self.model(),
    ;

    /// A cell gives back the value that was stored in it.
    proof fn read_after_store(model: Self::Model)
        ensures
            Self::read(Self::store(model)) == Some(model),
    ;

    /// A cell holds nothing but the value that is read from it.
    proof fn store_after_read(view: BlockView)
        requires
            Self::read(view) is Some,
        ensures
            Self::store(Self::read(view).unwrap()) == view,
    ;
}

impl Blockable for bool {
    open spec fn store(model: bool) -> BlockView {
        BlockView::Bool(model)
    }

    open spec fn read(view: BlockView) -> Option<bool> {
        match view {
            BlockView::Bool(value) => Some(value),
            _ => None,
        }
    }

    fn into_block(self) -> (block: Block) {
        Block { value: Stored::Bool(self) }
    }

    fn from_block(block: &Block) -> (value: Option<&bool>) {
        match &block.value {
            Stored::Bool(value) => Some(value),
            _ => None,
        }
    }

    fn duplicate(&self) -> (copy: bool) {
        *self
    }

    proof fn read_after_store(model: bool) {
    }

    proof fn store_after_read(view: BlockView) {
    }
}

impl Blockable for Depth {
    open spec fn store(model: nat) -> BlockView {
        BlockView::Depth(model)
    }

    open spec fn read(view: BlockView) -> Option<nat> {
        match view {
            BlockView::Depth(value) => Some(value),
            _ => None,
        }
    }

    fn into_block(self) -> (block: Block) {
        Block { value: Stored::Depth(self) }
    }

    fn from_block(block: &Block) -> (value: Option<&Depth>) {
        match &block.value {
            Stored::Depth(value) => Some(value),
            _ => None,
        }
    }

    fn duplicate(&self) -> (copy: Depth) {
        *self
    }

    proof fn read_after_store(model: nat) {
    }

    proof fn store_after_read(view: BlockView) {
    }
}

impl Blockable for FontList {
    open spec fn store(model: Seq<Seq<char>>) -> BlockView {
        BlockView::Fonts(model)
    }

    open spec fn read(view: BlockView) -> Option<Seq<Seq<char>>> {
        match view {
            BlockView::Fonts(value) => Some(value),
            _ => None,
        }
    }

    fn into_block(self) -> (block: Block) {
        Block { value: Stored::Fonts(self) }
    }

    fn from_block(block: &Block) -> (value: Option<&FontList>) {
        match &block.value {
            Stored::Fonts(value) => Some(value),
            _ => None,
        }
    }

    fn duplicate(&self) -> (copy: FontList) {
        self.clone()
    }

    proof fn read_after_store(model: Seq<Seq<char>>) {
    }

    proof fn store_after_read(view: BlockView) {
    }
}

impl Blockable for Vec<u64> {
    open spec fn store(model: Seq<u64>) -> BlockView {
        BlockView::Numbers(model)
    }

    open spec fn read(view: BlockView) -> Option<Seq<u64>> {
        match view {
            BlockView::Numbers(value) => Some(value),
            _ => None,
        }
    }

    fn into_block(self) -> (block: Block) {
        Block { value: Stored::Numbers(self) }
    }

    fn from_block(block: &Block) -> (value: Option<&Vec<u64>>) {
        match &block.value {
            Stored::Numbers(value) => Some(value),
            _ => None,
        }
    }

    fn duplicate(&self) -> (copy: Vec<u64>) {
        let copy = self.clone();
        assert(copy@ =~= self@);
        copy
    }

    proof fn read_after_store(model: Seq<u64>) {
    }

    proof fn store_after_read(view: BlockView) {
    }
}

impl Blockable for SmallList {
    open spec fn store(model: Seq<u64>) -> BlockView {
        BlockView::Small(model)
    }

    open spec fn read(view: BlockView) -> Option<Seq<u64>> {
        match view {
            BlockView::Small(value) => Some(value),
            _ => None,
        }
    }

    fn into_block(self) -> (block: Block) {
        Block { value: Stored::Small(self) }
    }

    fn from_block(block: &Block) -> (value: Option<&SmallList>) {
        match &block.value {
            Stored::Small(value) => Some(value),
            _ => None,
        }
    }

    fn duplicate(&self) -> (copy: SmallList) {
        self.clone()
    }

    proof fn read_after_store(model: Seq<u64>) {
    }

    proof fn store_after_read(view: BlockView) {
    }
}

impl Block {
    /// Creates a new block.
    pub fn new<T: Blockable>(value: T) -> (block: Block)
        ensures
            block@ == T::store(value.model()),
    {
        value.into_block()
    }

    /// The kind of the value in the block.
    pub fn kind(&self) -> (kind: BlockKind)
        ensures
            kind == self@.kind(),
    {
        match &self.value {
            Stored::Bool(_) => BlockKind::Bool,
            Stored::Depth(_) => BlockKind::Depth,
            Stored::Fonts(_) => BlockKind::Fonts,
            Stored::Numbers(_) => BlockKind::Numbers,
            Stored::Small(_) => BlockKind::Small,
        }
    }

    /// Whether the block holds a value of type `T`.
    pub fn is<T: Blockable>(&self) -> (holds: bool)
        ensures
            holds == (T::read(self@) is Some),
    {
        T::from_block(self).is_some()
    }

    /// Downcasts the block to the specified type.
    ///
    /// The block must hold a value of that type: `func` and `id` say which
    /// property is read, and with it the type that was written.
    pub fn downcast<T: Blockable>(&self, func: Element, id: u8) -> (value: &T)
        requires
            T::read(self@) is Some,
        ensures
            T::read(self@) == Some(value.model()),
    {
        match T::from_block(self) {
            Some(value) => value,
            None => vstd::pervasive::unreached(),
        }
    }

    /// Downcasts the block to the specified type, or says what went wrong
    /// if it holds a value of another type.
    pub fn try_downcast<T: Blockable>(&self, func: Element, id: u8) -> (value: Result<&T, String>)
        ensures
            match value {
                Ok(value) => T::read(self@) == Some(value.model()),
                Err(message) => T::read(self@) is None && message@ == wrong_type_message(
                    func,
                    id,
                    self@.kind(),
                ),
            },
    {
        match T::from_block(self) {
            Some(value) => Ok(value),
            None => Err(block_wrong_type(func, id, self)),
        }
    }
}

impl Clone for Block {
    fn clone(&self) -> (copy: Block)
        ensures
            copy@ == self@,
    {
        match &self.value {
            Stored::Bool(value) => Block { value: Stored::Bool(*value) },
            Stored::Depth(value) => Block { value: Stored::Depth(*value) },
            Stored::Fonts(value) => Block { value: Stored::Fonts(value.clone()) },
            Stored::Numbers(value) => Block { value: Stored::Numbers(value.duplicate()) },
            Stored::Small(value) => Block { value: Stored::Small(value.clone()) },
        }
    }
}

impl BlockKind {
    /// The name of the kind.
    pub open spec fn spec_name(self) -> Seq<char> {
        match self {
            BlockKind::Bool => "bool"@,
            BlockKind::Depth => "depth"@,
            BlockKind::Fonts => "fonts"@,
            BlockKind::Numbers => "numbers"@,
            BlockKind::Small => "small"@,
        }
    }

    /// The name of the kind.
    pub fn name(self) -> (name: &'static str)
        ensures
            name@ == self.spec_name(),
    {
        match self {
            BlockKind::Bool => "bool",
            BlockKind::Depth => "depth",
            BlockKind::Fonts => "fonts",
            BlockKind::Numbers => "numbers",
            BlockKind::Small => "small",
        }
    }
}

/// The decimal digit for a number below ten.
pub open spec fn digit(n: nat) -> Seq<char> {
    if n == 0 {
        "0"@
    } else if n == 1 {
        "1"@
    } else if n == 2 {
        "2"@
    } else if n == 3 {
        "3"@
    } else if n == 4 {
        "4"@
    } else if n == 5 {
        "5"@
    } else if n == 6 {
        "6"@
    } else if n == 7 {
        "7"@
    } else if n == 8 {
        "8"@
    } else {
        "9"@
    }
}

/// A number written in decimal digits.
pub open spec fn decimal(n: nat) -> Seq<char>
    decreases n,
{
    if n < 10 {
        digit(n)
    } else {
        decimal(n / 10) + digit(n % 10)
    }
}

/// What is said of a read that asks for another type than was written: the
/// element and the field that were read, by their numbers, and the kind of
/// value that was found.
pub open spec fn wrong_type_message(func: Element, id: u8, found: BlockKind) -> Seq<char> {
    "attempted to read a value of a different type than was written "@ + decimal(func.0 as nat)
        + "."@ + decimal(id as nat) + ": "@ + found.spec_name()
}

fn digit_str(n: u64) -> (text: &'static str)
    requires
        n < 10,
    ensures
        text@ == digit(n as nat),
{
    if n == 0 {
        "0"
    } else if n == 1 {
        "1"
    } else if n == 2 {
        "2"
    } else if n == 3 {
        "3"
    } else if n == 4 {
        "4"
    } else if n == 5 {
        "5"
    } else if n == 6 {
        "6"
    } else if n == 7 {
        "7"
    } else if n == 8 {
        "8"
    } else {
        "9"
    }
}

fn decimal_string(n: u64) -> (text: String)
    ensures
        text@ == decimal(n as nat),
    decreases n,
{
    if n < 10 {
        String::from_str(digit_str(n))
    } else {
        let mut text = decimal_string(n / 10);
        text.append(digit_str(n % 10));
        text
    }
}

/// Words the failure of a read that asks for another type than was written.
pub fn block_wrong_type(func: Element, id: u8, value: &Block) -> (message: String)
    ensures
        message@ == wrong_type_message(func, id, value@.kind()),
{
    let mut message = String::from_str(
        "attempted to read a value of a different type than was written ",
    );
    let elem = decimal_string(func.0 as u64);
    message.append(elem.as_str());
    message.append(".");
    let field = decimal_string(id as u64);
    message.append(field.as_str());
    message.append(": ");
    message.append(value.kind().name());
    message
}

} // verus!
