use crate::cell::{CellStore, SliceData};
use crate::error::{Exception, ItemKind};
use crate::integer::IntegerData;
use vstd::prelude::*;

verus! {

/// A cell under construction: data bits and references not yet sealed into
/// the store.
#[derive(Clone, Debug)]
pub struct BuilderData {
    pub bits: Vec<bool>,
    pub refs: Vec<usize>,
}

/// A value of the machine. Cells, slices and continuations name cells of the
/// store by index, so copies of them share the cells.
#[derive(Debug)]
pub enum StackItem {
    Null,
    Integer(IntegerData),
    Cell(usize),
    Slice(SliceData),
    Builder(BuilderData),
    Continuation(SliceData),
    Tuple(Vec<StackItem>),
}

pub open spec fn kind_of(item: StackItem) -> ItemKind {
    match item {
        StackItem::Null => ItemKind::Null,
        StackItem::Integer(_) => ItemKind::Integer,
        StackItem::Cell(_) => ItemKind::Cell,
        StackItem::Slice(_) => ItemKind::Slice,
        StackItem::Builder(_) => ItemKind::Builder,
        StackItem::Continuation(_) => ItemKind::Continuation,
        StackItem::Tuple(_) => ItemKind::Tuple,
    }
}

/// The integer by which the machine writes a truth value: `-1` or `0`.
pub open spec fn bool_value(b: bool) -> int {
    if b {
        -1
    } else {
        0
    }
}

/// The integer item of value `v`.
pub open spec fn int_item(v: int) -> StackItem {
    StackItem::Integer(choose|i: IntegerData| i.wf() && i.value() == v)
}

/// An integer item of value `v` is the item `int_item(v)`.
pub proof fn lemma_int_item(item: StackItem, v: int)
    requires
        item.is_int(v),
    ensures
        item == int_item(v),
{
    let i = item->Integer_0;
    let c = choose|c: IntegerData| c.wf() && c.value() == v;
    IntegerData::lemma_canonical(i, c);
}

impl StackItem {
    /// The item is well formed over `store`: an integer is well formed, and a
    /// cell, slice or continuation stays inside the store.
    pub open spec fn wf(&self, store: &CellStore) -> bool {
        match self {
            StackItem::Integer(i) => i.wf(),
            StackItem::Cell(id) => *id < store.count(),
            StackItem::Slice(s) => s.wf(store),
            StackItem::Continuation(s) => s.wf(store),
            _ => true,
        }
    }

    /// The item is an integer of the given value.
    pub open spec fn is_int(&self, v: int) -> bool {
        match self {
            StackItem::Integer(i) => i.wf() && i.value() == v,
            _ => false,
        }
    }

    /// The integer `v`.
    pub fn integer(v: i64) -> (r: Self)
        ensures
            r.is_int(v as int),
    {
        StackItem::Integer(IntegerData::from_i64(v))
    }

    /// The truth value `b`, as the integer `-1` or `0`.
    pub fn boolean(b: bool) -> (r: Self)
        ensures
            r.is_int(bool_value(b)),
    {
        StackItem::integer(if b { -1 } else { 0 })
    }

    /// A tuple of the given items.
    pub fn tuple(items: Vec<StackItem>) -> (r: Self)
        ensures
            r == StackItem::Tuple(items),
    {
        StackItem::Tuple(items)
    }

    /// The slice `s`.
    pub fn slice(s: SliceData) -> (r: Self)
        ensures
            r == StackItem::Slice(s),
    {
        StackItem::Slice(s)
    }

    /// The variant of the item.
    pub fn kind(&self) -> (r: ItemKind)
        ensures
            r == kind_of(*self),
    {
        match self {
            StackItem::Null => ItemKind::Null,
            StackItem::Integer(_) => ItemKind::Integer,
            StackItem::Cell(_) => ItemKind::Cell,
            StackItem::Slice(_) => ItemKind::Slice,
            StackItem::Builder(_) => ItemKind::Builder,
            StackItem::Continuation(_) => ItemKind::Continuation,
            StackItem::Tuple(_) => ItemKind::Tuple,
        }
    }

    /// The integer held, or `TypeMismatch` naming the variant found.
    pub fn as_integer(&self) -> (r: Result<&IntegerData, Exception>)
        ensures
            r.is_ok() <==> self is Integer,
            r.is_ok() ==> self == StackItem::Integer(*r.unwrap()),
            r.is_err() ==> r == Err::<&IntegerData, Exception>(
                Exception::TypeMismatch { expected: ItemKind::Integer, found: kind_of(*self) },
            ),
    {
        match self {
            StackItem::Integer(i) => Ok(i),
            _ => Err(Exception::TypeMismatch { expected: ItemKind::Integer, found: self.kind() }),
        }
    }

    /// The slice held, or `TypeMismatch` naming the variant found.
    pub fn as_slice(&self) -> (r: Result<SliceData, Exception>)
        ensures
            r.is_ok() <==> self is Slice,
            r.is_ok() ==> *self == StackItem::Slice(r.unwrap()),
            r.is_err() ==> r == Err::<SliceData, Exception>(
                Exception::TypeMismatch { expected: ItemKind::Slice, found: kind_of(*self) },
            ),
    {
        match self {
            StackItem::Slice(s) => Ok(*s),
            _ => Err(Exception::TypeMismatch { expected: ItemKind::Slice, found: self.kind() }),
        }
    }

    /// The items of the tuple held, or `TypeMismatch` naming the variant found.
    pub fn as_tuple(&self) -> (r: Result<&Vec<StackItem>, Exception>)
        ensures
            r.is_ok() <==> self is Tuple,
            r.is_ok() ==> *self == StackItem::Tuple(*r.unwrap()),
            r.is_err() ==> r == Err::<&Vec<StackItem>, Exception>(
                Exception::TypeMismatch { expected: ItemKind::Tuple, found: kind_of(*self) },
            ),
    {
        match self {
            StackItem::Tuple(t) => Ok(t),
            _ => Err(Exception::TypeMismatch { expected: ItemKind::Tuple, found: self.kind() }),
        }
    }

    /// The truth value of an integer: false for zero, true otherwise; any
    /// other variant is a `TypeMismatch`.
    pub fn as_bool(&self) -> (r: Result<bool, Exception>)
        requires
            self is Integer ==> self->Integer_0.wf(),
        ensures
            r.is_ok() <==> self is Integer,
            r.is_err() ==> r == Err::<bool, Exception>(
                Exception::TypeMismatch { expected: ItemKind::Integer, found: kind_of(*self) },
            ),
            forall|v: int| self.is_int(v) ==> r == Ok::<bool, Exception>(v != 0),
    {
        match self {
            StackItem::Integer(i) => Ok(i.is_nonzero()),
            _ => Err(Exception::TypeMismatch { expected: ItemKind::Integer, found: self.kind() }),
        }
    }
}

impl Default for StackItem {
    fn default() -> (r: Self)
        ensures
            r is Null,
    {
        StackItem::Null
    }
}

/// The data stack. Its view lists the items from the bottom; the top is the
/// last.
pub struct Stack {
    items: Vec<StackItem>,
}

impl View for Stack {
    type V = Seq<StackItem>;

    closed spec fn view(&self) -> Seq<StackItem> {
        self.items@
    }
}

impl Stack {
    /// Every item is well formed over `store`.
    pub open spec fn wf(&self, store: &CellStore) -> bool {
        forall|i: int| 0 <= i < self@.len() ==> #[trigger] self@[i].wf(store)
    }

    /// An empty stack.
    pub fn new() -> (r: Self)
        ensures
            r@ == Seq::<StackItem>::empty(),
    {
        Stack { items: Vec::new() }
    }

    /// The number of items.
    pub fn depth(&self) -> (r: usize)
        ensures
            r == self@.len(),
    {
        self.items.len()
    }

    /// Puts `item` on top.
    pub fn push(&mut self, item: StackItem)
        ensures
            final(self)@ == old(self)@.push(item),
    {
        self.items.push(item);
    }

    /// Takes the top item off; `StackUnderflow`, with the stack unchanged, if
    /// there is none.
    pub fn pop(&mut self) -> (r: Result<StackItem, Exception>)
        ensures
            r.is_ok() <==> old(self)@.len() > 0,
            r.is_err() ==> r == Err::<StackItem, Exception>(Exception::StackUnderflow)
                && final(self)@ == old(self)@,
            r.is_ok() ==> r.unwrap() == old(self)@.last() && final(self)@ == old(self)@.drop_last(),
    {
        match self.items.pop() {
            Some(item) => Ok(item),
            None => Err(Exception::StackUnderflow),
        }
    }

    /// The item at depth `n`, 0 being the top; `StackUnderflow` if the stack
    /// holds no more than `n` items.
    pub fn get(&self, n: usize) -> (r: Result<&StackItem, Exception>)
        ensures
            r.is_ok() <==> n < self@.len(),
            r.is_err() ==> r == Err::<&StackItem, Exception>(Exception::StackUnderflow),
            r.is_ok() ==> *r.unwrap() == self@[self@.len() - 1 - n],
    {
        if n >= self.items.len() {
            return Err(Exception::StackUnderflow);
        }
        Ok(&self.items[self.items.len() - 1 - n])
    }
}

} // verus!
