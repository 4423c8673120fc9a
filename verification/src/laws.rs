//! What holds of every validation.

use vstd::prelude::*;
use crate::event::{Event, Status, ValidationError};
use crate::kind::{Structure, ValueKind};
use crate::machine::{verdict, Machine};
use crate::reading::{
    lemma_read_inverts_encode, lemma_read_is_faithful, lemma_unread_is_not_completed, read,
};
use crate::replay::lemma_run_value;
use crate::shape::Shape;
use crate::value::{
    defect, encode, lemma_conforming_is_well_formed, lemma_conforms_iff_no_defect,
    lemma_generic_is_intact, Value,
};

verus! {

/// Whether the session begins with the events of a value that has the
/// shape.
pub open spec fn accepted(shape: Shape, events: Seq<Event>) -> bool {
    exists|v: Value| #[trigger] v.conforms(shape) && encode(v).is_prefix_of(events)
}

/// The number of collections that `events` open and do not close.
pub open spec fn nesting(events: Seq<Event>) -> int
    decreases events.len(),
{
    if events.len() == 0 {
        0
    } else {
        nesting(events.drop_last()) + match events.last() {
            Event::Value(kind) => match kind.structure() {
                Structure::Elements => 1int,
                Structure::Entries => 1int,
                _ => 0int,
            },
            Event::End => -1int,
            _ => 0int,
        }
    }
}

/// A session with no events is a decoder that delivered nothing.
pub proof fn law_empty_session_fails(shape: Shape)
    ensures
        verdict(shape, Seq::<Event>::empty()) == Err::<(), ValidationError>(
            ValidationError::Decoder,
        ),
{
}

/// The first event alone decides a session on which the validation stops
/// at once.
pub proof fn law_first_event_may_decide(shape: Shape, events: Seq<Event>)
    requires
        events.len() > 0,
        Machine::start(shape).step(events[0]).status != Status::Running,
    ensures
        verdict(shape, events) == Machine::start(shape).step(events[0]).outcome(),
{
    let rest = events.skip(1);
    assert(events =~= seq![events[0]] + rest);
    Machine::start(shape).lemma_run_first(events[0], rest);
    Machine::start(shape).step(events[0]).lemma_stopped_stays(rest);
}

/// On a session that begins with the events of a well-formed value, the
/// validation succeeds if the value has the shape, and fails with the
/// value's first defect if it has not. What follows the value in the session
/// plays no part.
pub proof fn law_value_decides(shape: Shape, v: Value, rest: Seq<Event>)
    requires
        v.well_formed(),
    ensures
        v.conforms(shape) ==> verdict(shape, encode(v) + rest) == Ok::<(), ValidationError>(()),
        !v.conforms(shape) ==> verdict(shape, encode(v) + rest) is Err,
        defect(v, shape) matches Some(error) ==> verdict(shape, encode(v) + rest) == Err::<
            (),
            ValidationError,
        >(error),
{
    let m = Machine::start(shape);
    lemma_conforms_iff_no_defect(v, shape);
    lemma_run_value(m, v, rest);
    if defect(v, shape) is None {
        m.completed().lemma_stopped_stays(rest);
    }
}

/// A validation succeeds exactly on the sessions that begin with the events
/// of a value that has the shape: no other session is let through, and none
/// of these is turned away.
pub proof fn law_accepts_exactly_the_conforming(shape: Shape, events: Seq<Event>)
    ensures
        verdict(shape, events) is Ok <==> accepted(shape, events),
{
    let m = Machine::start(shape);
    if verdict(shape, events) is Ok {
        assert(events.skip(0) =~= events);
        if read(events, 0) is None {
            lemma_unread_is_not_completed(m, events, 0);
        }
        lemma_read_is_faithful(events, 0);
        let (v, end) = read(events, 0)->Some_0;
        assert(events =~= encode(v) + events.skip(end));
        law_value_decides(shape, v, events.skip(end));
    }
    if accepted(shape, events) {
        let v = choose|v: Value| #[trigger] v.conforms(shape) && encode(v).is_prefix_of(events);
        let rest = events.skip(encode(v).len() as int);
        assert(events =~= encode(v) + rest);
        lemma_conforming_is_well_formed(v, shape);
        law_value_decides(shape, v, rest);
    }
}

/// A session begins with the events of one well-formed value at most.
pub proof fn law_a_session_has_one_reading(events: Seq<Event>, v: Value, w: Value)
    requires
        v.well_formed(),
        w.well_formed(),
        encode(v).is_prefix_of(events),
        encode(w).is_prefix_of(events),
    ensures
        v == w,
{
    let none = Seq::<Event>::empty();
    let after_v = events.skip(encode(v).len() as int);
    let after_w = events.skip(encode(w).len() as int);
    assert(events =~= none + encode(v) + after_v);
    assert(events =~= none + encode(w) + after_w);
    lemma_read_inverts_encode(v, none, after_v);
    lemma_read_inverts_encode(w, none, after_w);
}

/// A validation takes the whole value and no more: on the events of a value
/// that has the shape it is done with the last of them, and still running
/// before.
pub proof fn law_done_with_the_last_event(shape: Shape, v: Value, taken: int)
    requires
        v.conforms(shape),
        0 <= taken <= encode(v).len(),
    ensures
        Machine::start(shape).run(encode(v).take(taken)).status == if taken == encode(v).len() {
            Status::Done
        } else {
            Status::Running
        },
{
    let m = Machine::start(shape);
    let seen = encode(v).take(taken);
    let unseen = encode(v).skip(taken);
    let none = Seq::<Event>::empty();
    lemma_conforming_is_well_formed(v, shape);
    law_value_decides(shape, v, none);
    if taken == encode(v).len() {
        assert(seen =~= encode(v));
    } else {
        assert(encode(v) =~= seen + unseen);
        m.lemma_run_concat(seen, unseen);
        if m.run(seen).status != Status::Running {
            m.run(seen).lemma_stopped_stays(unseen);
            law_accepts_exactly_the_conforming(shape, seen);
            let w = choose|w: Value| #[trigger] w.conforms(shape) && encode(w).is_prefix_of(seen);
            lemma_conforming_is_well_formed(w, shape);
            assert(encode(w).is_prefix_of(encode(v)));
            assert(encode(v).is_prefix_of(encode(v)));
            law_a_session_has_one_reading(encode(v), v, w);
        }
    }
}

/// A sequence whose elements all have the element shape is accepted.
pub proof fn law_sequence_of_conforming_elements_is_accepted(
    element: Shape,
    items: Seq<Value>,
    rest: Seq<Event>,
)
    requires
        forall|i: int| 0 <= i < items.len() ==> (#[trigger] items[i]).conforms(element),
    ensures
        verdict(Shape::Sequence(Box::new(element)), encode(Value::Sequence(items)) + rest) == Ok::<
            (),
            ValidationError,
        >(()),
{
    let shape = Shape::Sequence(Box::new(element));
    let v = Value::Sequence(items);
    lemma_conforming_is_well_formed(v, shape);
    law_value_decides(shape, v, rest);
}

/// A session that does not begin with a sequence is rejected where a
/// sequence is expected.
pub proof fn law_no_sequence_is_rejected(element: Shape, events: Seq<Event>)
    requires
        events.len() == 0 || events[0] != Event::Value(ValueKind::Sequence),
    ensures
        verdict(Shape::Sequence(Box::new(element)), events) is Err,
{
    if events.len() > 0 {
        law_first_event_may_decide(Shape::Sequence(Box::new(element)), events);
    }
}

/// A key/value collection whose keys all have the key shape and whose values
/// all have the value shape is accepted.
pub proof fn law_mapping_of_conforming_entries_is_accepted(
    key: Shape,
    value: Shape,
    entries: Seq<crate::value::Entry>,
    rest: Seq<Event>,
)
    requires
        forall|i: int|
            0 <= i < entries.len() ==> ({
                &&& (#[trigger] entries[i]).key.conforms(key)
                &&& entries[i].value.conforms(value)
            }),
    ensures
        verdict(
            Shape::Mapping(Box::new(key), Box::new(value)),
            encode(Value::Mapping(entries)) + rest,
        ) == Ok::<(), ValidationError>(()),
{
    let shape = Shape::Mapping(Box::new(key), Box::new(value));
    let v = Value::Mapping(entries);
    lemma_conforming_is_well_formed(v, shape);
    law_value_decides(shape, v, rest);
}

/// A session that does not begin with a key/value collection is rejected
/// where one is expected.
pub proof fn law_no_mapping_is_rejected(key: Shape, value: Shape, events: Seq<Event>)
    requires
        events.len() == 0 || events[0] != Event::Value(ValueKind::Mapping),
    ensures
        verdict(Shape::Mapping(Box::new(key), Box::new(value)), events) is Err,
{
    if events.len() > 0 {
        law_first_event_may_decide(Shape::Mapping(Box::new(key), Box::new(value)), events);
    }
}

/// Where a textual scalar is expected, the sessions that are accepted are
/// exactly those that begin with one.
pub proof fn law_scalar_is_exactly_text(events: Seq<Event>)
    ensures
        verdict(Shape::Scalar, events) is Ok <==> ({
            &&& events.len() > 0
            &&& events[0] matches Event::Value(kind) && kind.is_textual()
        }),
{
    if events.len() > 0 {
        law_first_event_may_decide(Shape::Scalar, events);
    }
}

/// Where any value is expected, a session that begins with a whole value is
/// accepted, however the value is nested; and one that begins with a
/// well-formed tree that is not whole, because the decoder raised an error
/// somewhere in it, is rejected.
pub proof fn law_generic_accepts_exactly_the_intact(v: Value, rest: Seq<Event>)
    requires
        v.well_formed(),
    ensures
        verdict(Shape::Any, encode(v) + rest) is Ok <==> v.intact(),
{
    lemma_generic_is_intact(v);
    law_value_decides(Shape::Any, v, rest);
}

/// The verdict depends on nothing but the shape and the events: the same
/// session, validated again, comes to the same.
pub proof fn law_same_session_same_verdict(shape: Shape, first: Seq<Event>, second: Seq<Event>)
    requires
        first.len() == second.len(),
        forall|i: int| 0 <= i < first.len() ==> first[i] == second[i],
    ensures
        verdict(shape, first) == verdict(shape, second),
{
    assert(first =~= second);
}

/// Where any value is expected, no kind of value is turned away: every kind
/// that a decoder can announce is admitted, and the validation goes on or
/// is done.
pub proof fn law_generic_takes_every_kind(m: Machine, kind: ValueKind)
    requires
        m.status == Status::Running,
        m.expected() is Any,
    ensures
        Shape::Any.admits(kind),
        !(m.step(Event::Value(kind)).status is Failed),
{
}

/// Nothing of a value is kept: after the events of a value that has the
/// expected shape, the state is the same whatever the value was.
pub proof fn law_nothing_of_a_value_is_kept(m: Machine, v: Value, w: Value)
    requires
        m.status == Status::Running,
        v.conforms(m.expected()),
        w.conforms(m.expected()),
    ensures
        m.run(encode(v)) == m.run(encode(w)),
        m.run(encode(v)) == m.completed(),
{
    let none = Seq::<Event>::empty();
    lemma_conforming_is_well_formed(v, m.expected());
    lemma_conforming_is_well_formed(w, m.expected());
    lemma_conforms_iff_no_defect(v, m.expected());
    lemma_conforms_iff_no_defect(w, m.expected());
    lemma_run_value(m, v, none);
    lemma_run_value(m, w, none);
}

/// While a validation runs, its stack holds one slot for each collection
/// that is open, and so grows with the nesting of the input alone.
pub proof fn law_stack_is_the_nesting(m: Machine, events: Seq<Event>)
    requires
        m.run(events).status == Status::Running,
    ensures
        m.status == Status::Running,
        m.run(events).stack.len() == m.stack.len() + nesting(events),
    decreases events.len(),
{
    if events.len() > 0 {
        law_stack_is_the_nesting(m, events.drop_last());
    }
}

/// A validation that is done has no collection open.
pub proof fn law_done_holds_nothing(shape: Shape, events: Seq<Event>)
    requires
        Machine::start(shape).run(events).status == Status::Done,
    ensures
        Machine::start(shape).run(events).stack.len() == 0,
        !Machine::start(shape).run(events).wrapped,
    decreases events.len(),
{
    if events.len() > 0 {
        let before = Machine::start(shape).run(events.drop_last());
        if before.status == Status::Done {
            law_done_holds_nothing(shape, events.drop_last());
        }
    }
}

} // verus!
