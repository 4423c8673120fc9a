//! Validation of self-describing data against an expected shape, without
//! building the decoded values.
//!
//! A decoder for a self-describing format reads its input and announces what
//! it finds: a boolean, a string, the start of a sequence, and so on. This
//! library answers one question about such a session: is the input
//! well-formed, and has it the shape that was asked for? It keeps nothing of
//! what is decoded, so the answer costs far less than decoding the input into
//! values.
//!
//! # The parts
//!
//! - [`Shape`] says what is expected: a textual scalar, a sequence of some
//!   shape, a key/value collection of two shapes, any value at all, or a
//!   shape that is left to a foreign validator. The types [`Str`],
//!   [`SeqOf`], [`MapOf`], [`Any`] and [`Foreign`] stand for shapes at
//!   compile time ([`Descriptor`]).
//! - [`Event`] is what a decoder's driver tells the validation about the
//!   session: the [`ValueKind`] of a value that the decoder found, the end of
//!   a collection, the verdict of a foreign validator, or an error.
//! - [`Validator`] is a validation in progress. The driver asks it what to
//!   request of the decoder, feeds it the events, and reads the [`Status`].
//!   The library never holds the decoder: the driver does.
//! - [`validate`], [`validate_as_scalar`], [`validate_as_sequence`],
//!   [`validate_as_map`] and [`validate_as_any`] validate a session that has
//!   been written down as a slice of events.
//!
//! # What is proved
//!
//! The validator is proved to follow [`Machine`], a state machine over
//! events. The machine in turn is proved against trees of values
//! ([`Value`]): a validation succeeds exactly on the sessions that begin
//! with the events of a value that has the shape
//! ([`laws::law_accepts_exactly_the_conforming`]), it fails with the first
//! defect of a value that has not ([`laws::law_value_decides`]), and it
//! keeps nothing of the values it has seen
//! ([`laws::law_nothing_of_a_value_is_kept`],
//! [`laws::law_stack_is_the_nesting`]).

pub mod event;
pub mod kind;
pub mod laws;
pub mod machine;
pub mod reading;
pub mod replay;
pub mod session;
pub mod shape;
pub mod validator;
pub mod value;

pub use event::{Event, Status, ValidationError};
pub use kind::{Structure, ValueKind};
pub use laws::{accepted, nesting};
pub use machine::{verdict, Machine, Position, Slot};
pub use reading::{read, read_entries, read_items};
pub use session::{
    unmarked, validate, validate_as_any, validate_as_map, validate_as_scalar, validate_as_sequence,
};
pub use shape::{Any, Descriptor, Foreign, MapOf, Request, SeqOf, Shape, Str};
pub use validator::Validator;
pub use value::{defect, encode, Entry, Value};
