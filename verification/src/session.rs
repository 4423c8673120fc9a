//! Validation of a whole decoder session that has been written down.

use vstd::prelude::*;
use std::marker::PhantomData;
use crate::event::{Event, Status, ValidationError};
use crate::laws::{accepted, law_accepts_exactly_the_conforming, law_scalar_is_exactly_text};
use crate::machine::{verdict, Machine};
use crate::shape::{Any, Descriptor, MapOf, SeqOf, Shape, Str};
use crate::validator::Validator;

verus! {

/// A result without its mark: what is left of the result of a validation
/// when the mark of success, which holds nothing, is taken away.
pub open spec fn unmarked<S>(result: Result<S, ValidationError>) -> Result<(), ValidationError> {
    match result {
        Ok(_) => Ok(()),
        Err(error) => Err(error),
    }
}

/// Validates the session `events` against `shape`.
///
/// The validation succeeds exactly if the session begins with the events of
/// a value that has the shape. The events are taken in order, up to the end
/// of that one value or to the first defect; what follows in the session is
/// not looked at. The error is the decoder's where the first defect is an
/// error that the decoder raised, or the session stops before the value is
/// complete; it is a mismatch where the first defect is an event that the
/// shape does not allow.
pub fn validate(shape: &Shape, events: &[Event]) -> (result: Result<(), ValidationError>)
    ensures
        result is Ok <==> accepted(*shape, events@),
        result == verdict(*shape, events@),
{
    let mut validator = Validator::new(shape);
    let mut taken: usize = 0;
    let mut status = Status::Running;
    while taken < events.len() && status == Status::Running
        invariant
            taken <= events.len(),
            status == validator@.status,
            validator@ == Machine::start(*shape).run(events@.take(taken as int)),
        decreases events.len() - taken,
    {
        status = validator.feed(events[taken]);
        proof {
            assert(events@.take(taken + 1).drop_last() =~= events@.take(taken as int));
        }
        taken += 1;
    }
    proof {
        let seen = events@.take(taken as int);
        let unseen = events@.skip(taken as int);
        assert(events@ =~= seen + unseen);
        Machine::start(*shape).lemma_run_concat(seen, unseen);
        if status != Status::Running {
            validator@.lemma_stopped_stays(unseen);
        }
        law_accepts_exactly_the_conforming(*shape, events@);
    }
    match status {
        Status::Done => Ok(()),
        Status::Failed(error) => Err(error),
        Status::Running => Err(ValidationError::Decoder),
    }
}

/// Validates that the session holds a single textual scalar: it succeeds
/// exactly if the first thing that the decoder found is text, in whichever
/// way the decoder hands it over.
pub fn validate_as_scalar(events: &[Event]) -> (result: Result<Str, ValidationError>)
    ensures
        result is Ok <==> ({
            &&& events@.len() > 0
            &&& events@[0] matches Event::Value(kind) && kind.is_textual()
        }),
        unmarked(result) == verdict(Shape::Scalar, events@),
{
    proof {
        law_scalar_is_exactly_text(events@);
    }
    let shape = Str::shape();
    match validate(&shape, events) {
        Ok(()) => Ok(Str),
        Err(error) => Err(error),
    }
}

/// Validates that the session holds a sequence, each element of the shape
/// that `T` stands for: it succeeds exactly if the session begins with the
/// events of such a sequence.
pub fn validate_as_sequence<T: Descriptor>(events: &[Event]) -> (result: Result<
    SeqOf<T>,
    ValidationError,
>)
    ensures
        result is Ok <==> accepted(SeqOf::<T>::shape_of(), events@),
        unmarked(result) == verdict(SeqOf::<T>::shape_of(), events@),
{
    let shape = SeqOf::<T>::shape();
    match validate(&shape, events) {
        Ok(()) => Ok(SeqOf(PhantomData)),
        Err(error) => Err(error),
    }
}

/// Validates that the session holds a key/value collection, each key of the
/// shape that `K` stands for and each value of the shape that `V` stands
/// for: it succeeds exactly if the session begins with the events of such a
/// collection.
pub fn validate_as_map<K: Descriptor, V: Descriptor>(events: &[Event]) -> (result: Result<
    MapOf<K, V>,
    ValidationError,
>)
    ensures
        result is Ok <==> accepted(MapOf::<K, V>::shape_of(), events@),
        unmarked(result) == verdict(MapOf::<K, V>::shape_of(), events@),
{
    let shape = MapOf::<K, V>::shape();
    match validate(&shape, events) {
        Ok(()) => Ok(MapOf(PhantomData)),
        Err(error) => Err(error),
    }
}

/// Validates that the session holds one value, of whatever shape: it
/// succeeds exactly if the session begins with the events of a whole value.
pub fn validate_as_any(events: &[Event]) -> (result: Result<Any, ValidationError>)
    ensures
        result is Ok <==> accepted(Shape::Any, events@),
        unmarked(result) == verdict(Shape::Any, events@),
{
    let shape = Any::shape();
    match validate(&shape, events) {
        Ok(()) => Ok(Any),
        Err(error) => Err(error),
    }
}

} // verus!
