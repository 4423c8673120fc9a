//! Decoded values as trees, and what a decoder session says of them.
//!
//! Nothing here exists at run time. The trees are the mathematical account
//! of an input, against which the state machine is proved.

use vstd::prelude::*;
use crate::event::{Event, ValidationError};
use crate::kind::ValueKind;
use crate::shape::Shape;

verus! {

/// One entry of a key/value collection.
pub struct Entry {
    pub key: Value,
    pub value: Value,
}

/// What a decoder finds in an input, as a tree.
pub enum Value {
    /// A value that is complete with its announcement.
    Leaf(ValueKind),
    /// An optional value that is present, with the value.
    Present(Box<Value>),
    /// A wrapper around a single field, with the field's value.
    Wrapper(Box<Value>),
    /// A sequence, with its elements.
    Sequence(Seq<Value>),
    /// A key/value collection, with its entries.
    Mapping(Seq<Entry>),
    /// A value that a foreign validator took and accepted.
    Foreign,
    /// A place where the decoder, or a foreign validator, raises an error
    /// in place of a value.
    Fault,
}

impl Value {
    /// Whether every leaf of the tree has a kind that is complete with its
    /// announcement.
    pub open spec fn well_formed(self) -> bool
        decreases self,
    {
        match self {
            Value::Leaf(kind) => kind.structure() is Leaf,
            Value::Present(inner) => inner.well_formed(),
            Value::Wrapper(inner) => inner.well_formed(),
            Value::Sequence(items) => forall|i: int|
                0 <= i < items.len() ==> (#[trigger] items[i]).well_formed(),
            Value::Mapping(entries) => forall|i: int|
                0 <= i < entries.len() ==> {
                    &&& (#[trigger] entries[i]).key.well_formed()
                    &&& entries[i].value.well_formed()
                },
            Value::Foreign => true,
            Value::Fault => true,
        }
    }

    /// Whether the tree is a whole value: every leaf has a kind that is
    /// complete with its announcement, no error stands in the place of a
    /// value, and no part is left to a foreign validator.
    pub open spec fn intact(self) -> bool
        decreases self,
    {
        match self {
            Value::Leaf(kind) => kind.structure() is Leaf,
            Value::Present(inner) => inner.intact(),
            Value::Wrapper(inner) => inner.intact(),
            Value::Sequence(items) => forall|i: int|
                0 <= i < items.len() ==> (#[trigger] items[i]).intact(),
            Value::Mapping(entries) => forall|i: int|
                0 <= i < entries.len() ==> {
                    &&& (#[trigger] entries[i]).key.intact()
                    &&& entries[i].value.intact()
                },
            Value::Foreign => false,
            Value::Fault => false,
        }
    }

    /// Whether the value has the given shape.
    pub open spec fn conforms(self, shape: Shape) -> bool
        decreases self,
    {
        match self {
            Value::Leaf(kind) => kind.structure() is Leaf && shape.admits(kind),
            Value::Present(inner) => shape is Any && inner.conforms(Shape::Any),
            Value::Wrapper(inner) => shape is Any && inner.conforms(Shape::Any),
            Value::Sequence(items) => {
                &&& shape.admits(ValueKind::Sequence)
                &&& forall|i: int|
                    0 <= i < items.len() ==> (#[trigger] items[i]).conforms(shape.element())
            },
            Value::Mapping(entries) => {
                &&& shape.admits(ValueKind::Mapping)
                &&& forall|i: int|
                    0 <= i < entries.len() ==> {
                        &&& (#[trigger] entries[i]).key.conforms(shape.key())
                        &&& entries[i].value.conforms(shape.value())
                    }
            },
            Value::Foreign => shape is Foreign,
            Value::Fault => false,
        }
    }
}

/// The events of a session in which the decoder finds `v`.
pub open spec fn encode(v: Value) -> Seq<Event>
    decreases v, 0nat,
{
    match v {
        Value::Leaf(kind) => seq![Event::Value(kind)],
        Value::Present(inner) => seq![Event::Value(ValueKind::Present)] + encode(*inner),
        Value::Wrapper(inner) => seq![Event::Value(ValueKind::Wrapper)] + encode(*inner),
        Value::Sequence(items) => seq![Event::Value(ValueKind::Sequence)] + encode_items(items, 0)
            + seq![Event::End],
        Value::Mapping(entries) => seq![Event::Value(ValueKind::Mapping)] + encode_entries(
            entries,
            0,
        ) + seq![Event::End],
        Value::Foreign => seq![Event::Delegated],
        Value::Fault => seq![Event::Fault],
    }
}

/// The events for the elements from index `from` on.
pub open spec fn encode_items(items: Seq<Value>, from: int) -> Seq<Event>
    decreases items, items.len() - from,
{
    if 0 <= from < items.len() {
        encode(items[from]) + encode_items(items, from + 1)
    } else {
        Seq::empty()
    }
}

/// The events for the entries from index `from` on, each key before its
/// value.
pub open spec fn encode_entries(entries: Seq<Entry>, from: int) -> Seq<Event>
    decreases entries, entries.len() - from,
{
    if 0 <= from < entries.len() {
        encode(entries[from].key) + encode(entries[from].value) + encode_entries(entries, from + 1)
    } else {
        Seq::empty()
    }
}

/// The first thing, in the order of the input, that keeps `v` from having
/// the given shape, as the error it leads to; or nothing, if `v` has the
/// shape.
pub open spec fn defect(v: Value, shape: Shape) -> Option<ValidationError>
    decreases v, 0nat,
{
    match v {
        Value::Leaf(kind) => if shape.admits(kind) {
            None
        } else {
            Some(ValidationError::Mismatch)
        },
        Value::Present(inner) => if shape.admits(ValueKind::Present) {
            defect(*inner, Shape::Any)
        } else {
            Some(ValidationError::Mismatch)
        },
        Value::Wrapper(inner) => if shape.admits(ValueKind::Wrapper) {
            defect(*inner, Shape::Any)
        } else {
            Some(ValidationError::Mismatch)
        },
        Value::Sequence(items) => if shape.admits(ValueKind::Sequence) {
            defect_items(items, shape.element(), 0)
        } else {
            Some(ValidationError::Mismatch)
        },
        Value::Mapping(entries) => if shape.admits(ValueKind::Mapping) {
            defect_entries(entries, shape.key(), shape.value(), 0)
        } else {
            Some(ValidationError::Mismatch)
        },
        Value::Foreign => if shape is Foreign {
            None
        } else {
            Some(ValidationError::Mismatch)
        },
        Value::Fault => Some(ValidationError::Decoder),
    }
}

/// The first defect among the elements from index `from` on.
pub open spec fn defect_items(items: Seq<Value>, element: Shape, from: int) -> Option<
    ValidationError,
>
    decreases items, items.len() - from,
{
    if 0 <= from < items.len() {
        match defect(items[from], element) {
            Some(error) => Some(error),
            None => defect_items(items, element, from + 1),
        }
    } else {
        None
    }
}

/// The first defect among the entries from index `from` on.
pub open spec fn defect_entries(entries: Seq<Entry>, key: Shape, value: Shape, from: int) -> Option<
    ValidationError,
>
    decreases entries, entries.len() - from,
{
    if 0 <= from < entries.len() {
        match defect(entries[from].key, key) {
            Some(error) => Some(error),
            None => match defect(entries[from].value, value) {
                Some(error) => Some(error),
                None => defect_entries(entries, key, value, from + 1),
            },
        }
    } else {
        None
    }
}

/// A value that has a shape is well-formed.
pub proof fn lemma_conforming_is_well_formed(v: Value, shape: Shape)
    requires
        v.conforms(shape),
    ensures
        v.well_formed(),
    decreases v,
{
    match v {
        Value::Present(inner) => {
            lemma_conforming_is_well_formed(*inner, Shape::Any);
        },
        Value::Wrapper(inner) => {
            lemma_conforming_is_well_formed(*inner, Shape::Any);
        },
        Value::Sequence(items) => {
            assert forall|i: int| 0 <= i < items.len() implies (#[trigger] items[i])
                .well_formed() by {
                lemma_conforming_is_well_formed(items[i], shape.element());
            }
        },
        Value::Mapping(entries) => {
            assert forall|i: int| 0 <= i < entries.len() implies {
                &&& (#[trigger] entries[i]).key.well_formed()
                &&& entries[i].value.well_formed()
            } by {
                lemma_conforming_is_well_formed(entries[i].key, shape.key());
                lemma_conforming_is_well_formed(entries[i].value, shape.value());
            }
        },
        _ => {},
    }
}

/// The values of the generic shape are the whole values.
pub proof fn lemma_generic_is_intact(v: Value)
    ensures
        v.conforms(Shape::Any) <==> v.intact(),
    decreases v,
{
    match v {
        Value::Present(inner) => {
            lemma_generic_is_intact(*inner);
        },
        Value::Wrapper(inner) => {
            lemma_generic_is_intact(*inner);
        },
        Value::Sequence(items) => {
            assert forall|i: int| 0 <= i < items.len() implies ((#[trigger] items[i]).conforms(
                Shape::Any,
            ) <==> items[i].intact()) by {
                lemma_generic_is_intact(items[i]);
            }
        },
        Value::Mapping(entries) => {
            assert forall|i: int| 0 <= i < entries.len() implies {
                &&& ((#[trigger] entries[i]).key.conforms(Shape::Any) <==> entries[i].key.intact())
                &&& (entries[i].value.conforms(Shape::Any) <==> entries[i].value.intact())
            } by {
                lemma_generic_is_intact(entries[i].key);
                lemma_generic_is_intact(entries[i].value);
            }
        },
        _ => {},
    }
}

/// A well-formed value has a shape exactly if nothing keeps it from having
/// it.
pub proof fn lemma_conforms_iff_no_defect(v: Value, shape: Shape)
    requires
        v.well_formed(),
    ensures
        v.conforms(shape) <==> defect(v, shape) is None,
    decreases v, 0nat,
{
    match v {
        Value::Present(inner) => {
            lemma_conforms_iff_no_defect(*inner, Shape::Any);
        },
        Value::Wrapper(inner) => {
            lemma_conforms_iff_no_defect(*inner, Shape::Any);
        },
        Value::Sequence(items) => {
            lemma_items_conform_iff_no_defect(items, shape.element(), 0);
        },
        Value::Mapping(entries) => {
            lemma_entries_conform_iff_no_defect(entries, shape.key(), shape.value(), 0);
        },
        _ => {},
    }
}

/// The elements from `from` on all have a shape exactly if none of them has
/// a defect.
pub proof fn lemma_items_conform_iff_no_defect(items: Seq<Value>, element: Shape, from: int)
    requires
        0 <= from,
        forall|i: int| 0 <= i < items.len() ==> (#[trigger] items[i]).well_formed(),
    ensures
        (forall|i: int| from <= i < items.len() ==> (#[trigger] items[i]).conforms(element))
            <==> defect_items(items, element, from) is None,
    decreases items, items.len() - from,
{
    if from < items.len() {
        lemma_conforms_iff_no_defect(items[from], element);
        lemma_items_conform_iff_no_defect(items, element, from + 1);
    }
}

/// The entries from `from` on all have their shapes exactly if none of them
/// has a defect.
pub proof fn lemma_entries_conform_iff_no_defect(
    entries: Seq<Entry>,
    key: Shape,
    value: Shape,
    from: int,
)
    requires
        0 <= from,
        forall|i: int|
            0 <= i < entries.len() ==> ({
                &&& (#[trigger] entries[i]).key.well_formed()
                &&& entries[i].value.well_formed()
            }),
    ensures
        (forall|i: int|
            from <= i < entries.len() ==> ({
                &&& (#[trigger] entries[i]).key.conforms(key)
                &&& entries[i].value.conforms(value)
            })) <==> defect_entries(entries, key, value, from) is None,
    decreases entries, entries.len() - from,
{
    if from < entries.len() {
        lemma_conforms_iff_no_defect(entries[from].key, key);
        lemma_conforms_iff_no_defect(entries[from].value, value);
        lemma_entries_conform_iff_no_defect(entries, key, value, from + 1);
    }
}

} // verus!
