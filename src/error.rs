use vstd::prelude::*;
use vstd::string::StringExecFns;

verus! {

/// The variant of a stack item, as named in type errors.
#[derive(Clone, Copy, Debug, PartialEq, Eq, Structural)]
pub enum ItemKind {
    Null,
    Integer,
    Cell,
    Slice,
    Builder,
    Continuation,
    Tuple,
}

/// A failure of the machine. Execution stops at the first one.
#[derive(Clone, Copy, Debug, PartialEq, Eq, Structural)]
pub enum Exception {
    /// The instruction is unknown, truncated, or not enabled by the capabilities.
    InvalidOpcode,
    /// The instruction needs more operands than the stack holds.
    StackUnderflow,
    /// An operand has another variant than the instruction needs.
    TypeMismatch { expected: ItemKind, found: ItemKind },
    /// A signature slice does not hold exactly 512 bits.
    InvalidSignatureLength,
    /// A public key does not decode to a point of the curve.
    InvalidPublicKey,
    /// A read goes past the data of a slice.
    CellUnderflow,
    /// A cell would hold more data or references than a cell can.
    CellOverflow,
    /// A register index, an integer or a parameter is out of its range.
    RangeError,
}

pub open spec fn kind_noun(k: ItemKind) -> Seq<char> {
    match k {
        ItemKind::Null => "null"@,
        ItemKind::Integer => "an integer"@,
        ItemKind::Cell => "a cell"@,
        ItemKind::Slice => "a slice"@,
        ItemKind::Builder => "a builder"@,
        ItemKind::Continuation => "a continuation"@,
        ItemKind::Tuple => "a tuple"@,
    }
}

/// The text by which a failure is reported.
pub open spec fn message_of(e: Exception) -> Seq<char> {
    match e {
        Exception::InvalidOpcode => "invalid opcode"@,
        Exception::StackUnderflow => "stack underflow"@,
        Exception::TypeMismatch { expected, found: _ } => "item is not "@ + kind_noun(expected),
        Exception::InvalidSignatureLength => "Invalid signature length"@,
        Exception::InvalidPublicKey => "cannot decode public key into EcPoint"@,
        Exception::CellUnderflow => "cell underflow"@,
        Exception::CellOverflow => "cell overflow"@,
        Exception::RangeError => "range check error"@,
    }
}

impl ItemKind {
    pub fn noun(&self) -> (r: &'static str)
        ensures
            r@ == kind_noun(*self),
    {
        match self {
            ItemKind::Null => "null",
            ItemKind::Integer => "an integer",
            ItemKind::Cell => "a cell",
            ItemKind::Slice => "a slice",
            ItemKind::Builder => "a builder",
            ItemKind::Continuation => "a continuation",
            ItemKind::Tuple => "a tuple",
        }
    }
}

impl Exception {
    /// The text that reports this failure.
    pub fn message(&self) -> (r: String)
        ensures
            r@ == message_of(*self),
    {
        match self {
            Exception::InvalidOpcode => "invalid opcode".to_owned(),
            Exception::StackUnderflow => "stack underflow".to_owned(),
            Exception::TypeMismatch { expected, found: _ } => {
                "item is not ".to_owned().concat(expected.noun())
            },
            Exception::InvalidSignatureLength => "Invalid signature length".to_owned(),
            Exception::InvalidPublicKey => "cannot decode public key into EcPoint".to_owned(),
            Exception::CellUnderflow => "cell underflow".to_owned(),
            Exception::CellOverflow => "cell overflow".to_owned(),
            Exception::RangeError => "range check error".to_owned(),
        }
    }
}

} // verus!
