//! Shapes: what a value is expected to look like.

use vstd::prelude::*;
use std::marker::PhantomData;
use crate::kind::ValueKind;

verus! {

/// The expected structure of a value.
#[derive(Debug, PartialEq, Eq)]
pub enum Shape {
    /// A single textual scalar.
    Scalar,
    /// A sequence, each element of the given shape.
    Sequence(Box<Shape>),
    /// A key/value collection, each key of the first shape and each value of
    /// the second.
    Mapping(Box<Shape>, Box<Shape>),
    /// Any value that the decode protocol can announce, to any depth.
    Any,
    /// A shape that this library does not describe. A value of it is handed
    /// to the validator that knows the shape, whose verdict is taken.
    Foreign,
}

/// What a validation asks of the decoder before the next value.
#[derive(Clone, Copy, Debug, PartialEq, Eq, Hash, Structural)]
pub enum Request {
    /// Decode a textual scalar.
    Scalar,
    /// Decode a sequence.
    Sequence,
    /// Decode a key/value collection.
    Mapping,
    /// Decode whatever is there, without a hint.
    Any,
    /// Hand the decoder to the foreign validator.
    Foreign,
}

impl Shape {
    /// What a validation of this shape asks of the decoder.
    pub open spec fn request(self) -> Request {
        match self {
            Shape::Scalar => Request::Scalar,
            Shape::Sequence(_) => Request::Sequence,
            Shape::Mapping(_, _) => Request::Mapping,
            Shape::Any => Request::Any,
            Shape::Foreign => Request::Foreign,
        }
    }

    /// Whether a value announced with `kind` can be the start of a value of
    /// this shape. The generic shape admits every kind; a foreign shape
    /// admits none, since its values are never announced to this library.
    pub open spec fn admits(self, kind: ValueKind) -> bool {
        match self {
            Shape::Scalar => kind.is_textual(),
            Shape::Sequence(_) => kind == ValueKind::Sequence,
            Shape::Mapping(_, _) => kind == ValueKind::Mapping,
            Shape::Any => true,
            Shape::Foreign => false,
        }
    }

    /// The shape of the elements of a sequence of this shape. The generic
    /// shape has generic elements.
    pub open spec fn element(self) -> Shape {
        match self {
            Shape::Sequence(t) => *t,
            _ => self,
        }
    }

    /// The shape of the keys of a key/value collection of this shape. The
    /// generic shape has generic keys.
    pub open spec fn key(self) -> Shape {
        match self {
            Shape::Mapping(k, _) => *k,
            _ => self,
        }
    }

    /// The shape of the values of a key/value collection of this shape. The
    /// generic shape has generic values.
    pub open spec fn value(self) -> Shape {
        match self {
            Shape::Mapping(_, v) => *v,
            _ => self,
        }
    }

    /// The words that name this shape in a decoder's error message.
    pub open spec fn expecting_text(self) -> Seq<char> {
        match self {
            Shape::Scalar => "a String"@,
            Shape::Sequence(_) => "a Seq"@,
            Shape::Mapping(_, _) => "a Map"@,
            Shape::Any => "a String"@,
            Shape::Foreign => "a foreign value"@,
        }
    }

    /// Gives what a validation of this shape asks of the decoder.
    pub fn hint(&self) -> (r: Request)
        ensures
            r == self.request(),
    {
        match self {
            Shape::Scalar => Request::Scalar,
            Shape::Sequence(_) => Request::Sequence,
            Shape::Mapping(_, _) => Request::Mapping,
            Shape::Any => Request::Any,
            Shape::Foreign => Request::Foreign,
        }
    }

    /// Tells whether a value announced with `kind` can be the start of a
    /// value of this shape.
    pub fn accepts(&self, kind: ValueKind) -> (b: bool)
        ensures
            b == self.admits(kind),
    {
        match self {
            Shape::Scalar => kind.textual(),
            Shape::Sequence(_) => kind == ValueKind::Sequence,
            Shape::Mapping(_, _) => kind == ValueKind::Mapping,
            Shape::Any => true,
            Shape::Foreign => false,
        }
    }

    /// Gives the shape of the elements.
    pub fn element_shape(&self) -> (t: &Shape)
        ensures
            *t == self.element(),
    {
        match self {
            Shape::Sequence(t) => &**t,
            _ => self,
        }
    }

    /// Gives the shape of the keys.
    pub fn key_shape(&self) -> (k: &Shape)
        ensures
            *k == self.key(),
    {
        match self {
            Shape::Mapping(k, _) => &**k,
            _ => self,
        }
    }

    /// Gives the shape of the values.
    pub fn value_shape(&self) -> (v: &Shape)
        ensures
            *v == self.value(),
    {
        match self {
            Shape::Mapping(_, v) => &**v,
            _ => self,
        }
    }

    /// Gives the words that name this shape in a decoder's error message.
    pub fn expecting(&self) -> (text: &'static str)
        ensures
            text@ == self.expecting_text(),
    {
        match self {
            Shape::Scalar => "a String",
            Shape::Sequence(_) => "a Seq",
            Shape::Mapping(_, _) => "a Map",
            Shape::Any => "a String",
            Shape::Foreign => "a foreign value",
        }
    }
}

/// A type that stands for a shape. Such a type holds no data: it is written
/// where a shape is wanted at compile time, and a value of it is the mark
/// that a validation of that shape succeeded.
pub trait Descriptor {
    /// The shape that the type stands for.
    spec fn shape_of() -> Shape;

    /// Builds the shape that the type stands for.
    fn shape() -> (s: Shape)
        ensures
            s == Self::shape_of(),
    ;
}

/// Stands for a single textual scalar.
#[derive(Clone, Copy, Debug, PartialEq, Eq, Default)]
pub struct Str;

/// Stands for any value whatsoever.
#[derive(Clone, Copy, Debug, PartialEq, Eq, Default)]
pub struct Any;

/// Stands for a value of a shape that this library does not describe.
#[derive(Clone, Copy, Debug, PartialEq, Eq, Default)]
pub struct Foreign;

/// Stands for a sequence whose elements have the shape that `T` stands for.
#[derive(Debug, PartialEq, Eq, Default)]
pub struct SeqOf<T>(pub(crate) PhantomData<T>);

/// Stands for a key/value collection whose keys have the shape that `K`
/// stands for and whose values have the shape that `V` stands for.
#[derive(Debug, PartialEq, Eq, Default)]
pub struct MapOf<K, V>(pub(crate) PhantomData<(K, V)>);

impl Descriptor for Str {
    open spec fn shape_of() -> Shape {
        Shape::Scalar
    }

    fn shape() -> (s: Shape) {
        Shape::Scalar
    }
}

impl Descriptor for Any {
    open spec fn shape_of() -> Shape {
        Shape::Any
    }

    fn shape() -> (s: Shape) {
        Shape::Any
    }
}

impl Descriptor for Foreign {
    open spec fn shape_of() -> Shape {
        Shape::Foreign
    }

    fn shape() -> (s: Shape) {
        Shape::Foreign
    }
}

impl<T: Descriptor> Descriptor for SeqOf<T> {
    open spec fn shape_of() -> Shape {
        Shape::Sequence(Box::new(T::shape_of()))
    }

    fn shape() -> (s: Shape) {
        Shape::Sequence(Box::new(T::shape()))
    }
}

impl<K: Descriptor, V: Descriptor> Descriptor for MapOf<K, V> {
    open spec fn shape_of() -> Shape {
        Shape::Mapping(Box::new(K::shape_of()), Box::new(V::shape_of()))
    }

    fn shape() -> (s: Shape) {
        Shape::Mapping(Box::new(K::shape()), Box::new(V::shape()))
    }
}

} // verus!
