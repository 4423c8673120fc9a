//! The kinds of value that a self-describing decoder can announce.

use vstd::prelude::*;

verus! {

/// What a decoder announces when it has found the next value in its input.
///
/// The set is closed: these are all the announcements the decode protocol
/// has. A kind says nothing of the value's content, which never reaches
/// this library.
#[derive(Clone, Copy, Debug, PartialEq, Eq, Hash, Structural)]
pub enum ValueKind {
    /// A boolean.
    Bool,
    /// A signed integer of 8 bits.
    I8,
    /// A signed integer of 16 bits.
    I16,
    /// A signed integer of 32 bits.
    I32,
    /// A signed integer of 64 bits.
    I64,
    /// A signed integer of 128 bits.
    I128,
    /// An unsigned integer of 8 bits.
    U8,
    /// An unsigned integer of 16 bits.
    U16,
    /// An unsigned integer of 32 bits.
    U32,
    /// An unsigned integer of 64 bits.
    U64,
    /// An unsigned integer of 128 bits.
    U128,
    /// A binary floating-point number of 32 bits.
    F32,
    /// A binary floating-point number of 64 bits.
    F64,
    /// A single character.
    Char,
    /// Text handed over as a view that lives only for the announcement.
    Text,
    /// Text borrowed from the decoder's input.
    BorrowedText,
    /// Text handed over in a buffer that the receiver owns.
    OwnedText,
    /// Bytes handed over as a view that lives only for the announcement.
    Bytes,
    /// Bytes borrowed from the decoder's input.
    BorrowedBytes,
    /// Bytes handed over in a buffer that the receiver owns.
    OwnedBytes,
    /// An optional value that is absent.
    Absent,
    /// An optional value that is present; the value itself follows.
    Present,
    /// The unit value.
    Unit,
    /// A wrapper around a single field; the field's value follows.
    Wrapper,
    /// The start of a sequence; its elements follow, then its end.
    Sequence,
    /// The start of a key/value collection; its entries follow, key before
    /// value, then its end.
    Mapping,
    /// A variant of an enumeration. Nothing of its payload follows: the
    /// variant is taken as it is.
    Variant,
}

/// How the announcement of a value goes on after its kind is known.
#[derive(Clone, Copy, Debug, PartialEq, Eq, Hash, Structural)]
pub enum Structure {
    /// The value is complete with the announcement.
    Leaf,
    /// Exactly one value follows, and completes this one.
    Wrapped,
    /// Any number of element values follow, then the end of the collection.
    Elements,
    /// Any number of entries follow, each a key and then a value, then the
    /// end of the collection.
    Entries,
}

impl ValueKind {
    /// Whether the kind is a textual scalar: text in any of the three ways a
    /// decoder may hand it over, or a single character, which is text of
    /// length one.
    pub open spec fn is_textual(self) -> bool {
        self == ValueKind::Char || self == ValueKind::Text || self == ValueKind::BorrowedText
            || self == ValueKind::OwnedText
    }

    /// How a value of this kind goes on. Every kind is named: there is no
    /// arm for "the rest".
    pub open spec fn structure(self) -> Structure {
        match self {
            ValueKind::Bool => Structure::Leaf,
            ValueKind::I8 => Structure::Leaf,
            ValueKind::I16 => Structure::Leaf,
            ValueKind::I32 => Structure::Leaf,
            ValueKind::I64 => Structure::Leaf,
            ValueKind::I128 => Structure::Leaf,
            ValueKind::U8 => Structure::Leaf,
            ValueKind::U16 => Structure::Leaf,
            ValueKind::U32 => Structure::Leaf,
            ValueKind::U64 => Structure::Leaf,
            ValueKind::U128 => Structure::Leaf,
            ValueKind::F32 => Structure::Leaf,
            ValueKind::F64 => Structure::Leaf,
            ValueKind::Char => Structure::Leaf,
            ValueKind::Text => Structure::Leaf,
            ValueKind::BorrowedText => Structure::Leaf,
            ValueKind::OwnedText => Structure::Leaf,
            ValueKind::Bytes => Structure::Leaf,
            ValueKind::BorrowedBytes => Structure::Leaf,
            ValueKind::OwnedBytes => Structure::Leaf,
            ValueKind::Absent => Structure::Leaf,
            ValueKind::Present => Structure::Wrapped,
            ValueKind::Unit => Structure::Leaf,
            ValueKind::Wrapper => Structure::Wrapped,
            ValueKind::Sequence => Structure::Elements,
            ValueKind::Mapping => Structure::Entries,
            ValueKind::Variant => Structure::Leaf,
        }
    }

    /// Tells whether the kind is a textual scalar.
    pub fn textual(self) -> (b: bool)
        ensures
            b == self.is_textual(),
    {
        match self {
            ValueKind::Char => true,
            ValueKind::Text => true,
            ValueKind::BorrowedText => true,
            ValueKind::OwnedText => true,
            ValueKind::Bool => false,
            ValueKind::I8 => false,
            ValueKind::I16 => false,
            ValueKind::I32 => false,
            ValueKind::I64 => false,
            ValueKind::I128 => false,
            ValueKind::U8 => false,
            ValueKind::U16 => false,
            ValueKind::U32 => false,
            ValueKind::U64 => false,
            ValueKind::U128 => false,
            ValueKind::F32 => false,
            ValueKind::F64 => false,
            ValueKind::Bytes => false,
            ValueKind::BorrowedBytes => false,
            ValueKind::OwnedBytes => false,
            ValueKind::Absent => false,
            ValueKind::Present => false,
            ValueKind::Unit => false,
            ValueKind::Wrapper => false,
            ValueKind::Sequence => false,
            ValueKind::Mapping => false,
            ValueKind::Variant => false,
        }
    }

    /// Tells how a value of this kind goes on.
    pub fn classify(self) -> (s: Structure)
        ensures
            s == self.structure(),
    {
        match self {
            ValueKind::Bool => Structure::Leaf,
            ValueKind::I8 => Structure::Leaf,
            ValueKind::I16 => Structure::Leaf,
            ValueKind::I32 => Structure::Leaf,
            ValueKind::I64 => Structure::Leaf,
            ValueKind::I128 => Structure::Leaf,
            ValueKind::U8 => Structure::Leaf,
            ValueKind::U16 => Structure::Leaf,
            ValueKind::U32 => Structure::Leaf,
            ValueKind::U64 => Structure::Leaf,
            ValueKind::U128 => Structure::Leaf,
            ValueKind::F32 => Structure::Leaf,
            ValueKind::F64 => Structure::Leaf,
            ValueKind::Char => Structure::Leaf,
            ValueKind::Text => Structure::Leaf,
            ValueKind::BorrowedText => Structure::Leaf,
            ValueKind::OwnedText => Structure::Leaf,
            ValueKind::Bytes => Structure::Leaf,
            ValueKind::BorrowedBytes => Structure::Leaf,
            ValueKind::OwnedBytes => Structure::Leaf,
            ValueKind::Absent => Structure::Leaf,
            ValueKind::Present => Structure::Wrapped,
            ValueKind::Unit => Structure::Leaf,
            ValueKind::Wrapper => Structure::Wrapped,
            ValueKind::Sequence => Structure::Elements,
            ValueKind::Mapping => Structure::Entries,
            ValueKind::Variant => Structure::Leaf,
        }
    }
}

} // verus!
