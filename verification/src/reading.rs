//! Reading a session back as a tree, and why every session that is accepted
//! is the session of a value.

use vstd::prelude::*;
use crate::event::{Event, Status};
use crate::kind::{Structure, ValueKind};
use crate::machine::{Machine, Slot};
use crate::replay::lemma_run_value;
use crate::shape::Shape;
use crate::value::{defect, encode, encode_entries, encode_items, Entry, Value};

verus! {

/// The value with one more layer around it, as `kind` announces it.
pub open spec fn wrap(kind: ValueKind, inner: Value) -> Value {
    if kind == ValueKind::Present {
        Value::Present(Box::new(inner))
    } else {
        Value::Wrapper(Box::new(inner))
    }
}

/// The value whose events begin at index `at` of the session, with the index
/// after them; or nothing, where no whole value begins there.
pub open spec fn read(events: Seq<Event>, at: int) -> Option<(Value, int)>
    decreases events.len() - at, 0nat,
{
    if 0 <= at < events.len() {
        match events[at] {
            Event::Fault => Some((Value::Fault, at + 1)),
            Event::Delegated => Some((Value::Foreign, at + 1)),
            Event::End => None,
            Event::Value(kind) => match kind.structure() {
                Structure::Leaf => Some((Value::Leaf(kind), at + 1)),
                Structure::Wrapped => match read(events, at + 1) {
                    Some((inner, end)) => Some((wrap(kind, inner), end)),
                    None => None,
                },
                Structure::Elements => match read_items(events, at + 1) {
                    Some((items, end)) => Some((Value::Sequence(items), end + 1)),
                    None => None,
                },
                Structure::Entries => match read_entries(events, at + 1) {
                    Some((entries, end)) => Some((Value::Mapping(entries), end + 1)),
                    None => None,
                },
            },
        }
    } else {
        None
    }
}

/// The elements whose events begin at index `at`, up to the end of their
/// sequence, with the index of that end.
pub open spec fn read_items(events: Seq<Event>, at: int) -> Option<(Seq<Value>, int)>
    decreases events.len() - at, 1nat,
{
    if 0 <= at < events.len() {
        if events[at] == Event::End {
            Some((Seq::empty(), at))
        } else {
            match read(events, at) {
                Some((item, next)) => if at < next <= events.len() {
                    match read_items(events, next) {
                        Some((rest, end)) => Some((seq![item] + rest, end)),
                        None => None,
                    }
                } else {
                    None
                },
                None => None,
            }
        }
    } else {
        None
    }
}

/// The entries whose events begin at index `at`, up to the end of their
/// collection, with the index of that end.
pub open spec fn read_entries(events: Seq<Event>, at: int) -> Option<(Seq<Entry>, int)>
    decreases events.len() - at, 1nat,
{
    if 0 <= at < events.len() {
        if events[at] == Event::End {
            Some((Seq::empty(), at))
        } else {
            match read(events, at) {
                Some((key, middle)) => if at < middle <= events.len() {
                    match read(events, middle) {
                        Some((value, next)) => if middle < next <= events.len() {
                            match read_entries(events, next) {
                                Some((rest, end)) => Some((seq![Entry { key, value }] + rest, end)),
                                None => None,
                            }
                        } else {
                            None
                        },
                        None => None,
                    }
                } else {
                    None
                },
                None => None,
            }
        }
    } else {
        None
    }
}

/// The events of the elements after the first are the events of the rest.
pub proof fn lemma_encode_items_after_first(first: Value, rest: Seq<Value>, from: int)
    requires
        0 <= from,
    ensures
        encode_items(seq![first] + rest, from + 1) == encode_items(rest, from),
    decreases rest.len() - from,
{
    if from < rest.len() {
        lemma_encode_items_after_first(first, rest, from + 1);
    }
}

/// The events of the entries after the first are the events of the rest.
pub proof fn lemma_encode_entries_after_first(first: Entry, rest: Seq<Entry>, from: int)
    requires
        0 <= from,
    ensures
        encode_entries(seq![first] + rest, from + 1) == encode_entries(rest, from),
    decreases rest.len() - from,
{
    if from < rest.len() {
        lemma_encode_entries_after_first(first, rest, from + 1);
    }
}

/// What is read is well-formed, and its events are the stretch of the
/// session that it was read from.
pub proof fn lemma_read_is_faithful(events: Seq<Event>, at: int)
    ensures
        read(events, at) matches Some((v, end)) ==> ({
            &&& 0 <= at < end <= events.len()
            &&& v.well_formed()
            &&& encode(v) == events.subrange(at, end)
        }),
    decreases events.len() - at, 0nat,
{
    if 0 <= at < events.len() {
        match events[at] {
            Event::Value(kind) => match kind.structure() {
                Structure::Leaf => {},
                Structure::Wrapped => {
                    lemma_read_is_faithful(events, at + 1);
                    if let Some((inner, end)) = read(events, at + 1) {
                        assert(seq![events[at]] + events.subrange(at + 1, end) =~= events.subrange(
                            at,
                            end,
                        ));
                    }
                },
                Structure::Elements => {
                    lemma_read_items_is_faithful(events, at + 1);
                    if let Some((items, end)) = read_items(events, at + 1) {
                        assert(seq![events[at]] + events.subrange(at + 1, end) + seq![Event::End]
                            =~= events.subrange(at, end + 1));
                    }
                },
                Structure::Entries => {
                    lemma_read_entries_is_faithful(events, at + 1);
                    if let Some((entries, end)) = read_entries(events, at + 1) {
                        assert(seq![events[at]] + events.subrange(at + 1, end) + seq![Event::End]
                            =~= events.subrange(at, end + 1));
                    }
                },
            },
            _ => {},
        }
    }
}

/// The elements that are read are well-formed, their events are the stretch
/// of the session that they were read from, and the stretch stops at the
/// end of the sequence.
pub proof fn lemma_read_items_is_faithful(events: Seq<Event>, at: int)
    ensures
        read_items(events, at) matches Some((items, end)) ==> ({
            &&& 0 <= at <= end < events.len()
            &&& events[end] == Event::End
            &&& forall|i: int| 0 <= i < items.len() ==> (#[trigger] items[i]).well_formed()
            &&& encode_items(items, 0) == events.subrange(at, end)
        }),
    decreases events.len() - at, 1nat,
{
    if 0 <= at < events.len() {
        if events[at] != Event::End {
            lemma_read_is_faithful(events, at);
            if let Some((item, next)) = read(events, at) {
                lemma_read_items_is_faithful(events, next);
                if let Some((rest, end)) = read_items(events, next) {
                    lemma_encode_items_after_first(item, rest, 0);
                    assert(events.subrange(at, next) + events.subrange(next, end)
                        =~= events.subrange(at, end));
                }
            }
        }
    }
}

/// The entries that are read are well-formed, their events are the stretch
/// of the session that they were read from, and the stretch stops at the
/// end of the collection.
pub proof fn lemma_read_entries_is_faithful(events: Seq<Event>, at: int)
    ensures
        read_entries(events, at) matches Some((entries, end)) ==> ({
            &&& 0 <= at <= end < events.len()
            &&& events[end] == Event::End
            &&& forall|i: int|
                0 <= i < entries.len() ==> ({
                    &&& (#[trigger] entries[i]).key.well_formed()
                    &&& entries[i].value.well_formed()
                })
            &&& encode_entries(entries, 0) == events.subrange(at, end)
        }),
    decreases events.len() - at, 1nat,
{
    if 0 <= at < events.len() {
        if events[at] != Event::End {
            lemma_read_is_faithful(events, at);
            if let Some((key, middle)) = read(events, at) {
                lemma_read_is_faithful(events, middle);
                if let Some((value, next)) = read(events, middle) {
                    lemma_read_entries_is_faithful(events, next);
                    if let Some((rest, end)) = read_entries(events, next) {
                        lemma_encode_entries_after_first(Entry { key, value }, rest, 0);
                        assert(events.subrange(at, middle) + events.subrange(middle, next)
                            + events.subrange(next, end) =~= events.subrange(at, end));
                    }
                }
            }
        }
    }
}

/// The events of a value are at least one, and the first of them is not the
/// end of a collection.
pub proof fn lemma_encode_begins_with_a_value(v: Value)
    ensures
        encode(v).len() > 0,
        encode(v)[0] != Event::End,
{
}

/// Reading gives back the value whose events stand in the session, wherever
/// they stand.
pub proof fn lemma_read_inverts_encode(v: Value, before: Seq<Event>, after: Seq<Event>)
    requires
        v.well_formed(),
    ensures
        read(before + encode(v) + after, before.len() as int) == Some(
            (v, (before.len() + encode(v).len()) as int),
        ),
    decreases v, 0nat,
{
    let events = before + encode(v) + after;
    lemma_encode_begins_with_a_value(v);
    match v {
        Value::Present(inner) => {
            let first = seq![Event::Value(ValueKind::Present)];
            assert(events =~= (before + first) + encode(*inner) + after);
            lemma_read_inverts_encode(*inner, before + first, after);
        },
        Value::Wrapper(inner) => {
            let first = seq![Event::Value(ValueKind::Wrapper)];
            assert(events =~= (before + first) + encode(*inner) + after);
            lemma_read_inverts_encode(*inner, before + first, after);
        },
        Value::Sequence(items) => {
            let first = seq![Event::Value(ValueKind::Sequence)];
            assert(events =~= (before + first) + encode_items(items, 0) + seq![Event::End] + after);
            lemma_read_items_inverts_encode(items, 0, before + first, after);
            assert(items.skip(0) =~= items);
        },
        Value::Mapping(entries) => {
            let first = seq![Event::Value(ValueKind::Mapping)];
            assert(events =~= (before + first) + encode_entries(entries, 0) + seq![Event::End]
                + after);
            lemma_read_entries_inverts_encode(entries, 0, before + first, after);
            assert(entries.skip(0) =~= entries);
        },
        _ => {},
    }
}

/// Reading gives back the elements whose events stand in the session before
/// the end of their sequence.
pub proof fn lemma_read_items_inverts_encode(
    items: Seq<Value>,
    from: int,
    before: Seq<Event>,
    after: Seq<Event>,
)
    requires
        0 <= from <= items.len(),
        forall|i: int| 0 <= i < items.len() ==> (#[trigger] items[i]).well_formed(),
    ensures
        read_items(
            before + encode_items(items, from) + seq![Event::End] + after,
            before.len() as int,
        ) == Some((items.skip(from), (before.len() + encode_items(items, from).len()) as int)),
    decreases items, items.len() - from,
{
    let events = before + encode_items(items, from) + seq![Event::End] + after;
    if from < items.len() {
        let item = items[from];
        let rest = encode_items(items, from + 1) + seq![Event::End] + after;
        lemma_encode_begins_with_a_value(item);
        assert(events =~= before + encode(item) + rest);
        lemma_read_inverts_encode(item, before, rest);
        assert(events =~= (before + encode(item)) + encode_items(items, from + 1) + seq![
            Event::End,
        ] + after);
        lemma_read_items_inverts_encode(items, from + 1, before + encode(item), after);
    }
}

/// Reading gives back the entries whose events stand in the session before
/// the end of their collection.
pub proof fn lemma_read_entries_inverts_encode(
    entries: Seq<Entry>,
    from: int,
    before: Seq<Event>,
    after: Seq<Event>,
)
    requires
        0 <= from <= entries.len(),
        forall|i: int|
            0 <= i < entries.len() ==> ({
                &&& (#[trigger] entries[i]).key.well_formed()
                &&& entries[i].value.well_formed()
            }),
    ensures
        read_entries(
            before + encode_entries(entries, from) + seq![Event::End] + after,
            before.len() as int,
        ) == Some(
            (entries.skip(from), (before.len() + encode_entries(entries, from).len()) as int),
        ),
    decreases entries, entries.len() - from,
{
    let events = before + encode_entries(entries, from) + seq![Event::End] + after;
    if from < entries.len() {
        let entry = entries[from];
        let rest = encode_entries(entries, from + 1) + seq![Event::End] + after;
        lemma_encode_begins_with_a_value(entry.key);
        lemma_encode_begins_with_a_value(entry.value);
        assert(events =~= before + encode(entry.key) + (encode(entry.value) + rest));
        lemma_read_inverts_encode(entry.key, before, encode(entry.value) + rest);
        assert(events =~= (before + encode(entry.key)) + encode(entry.value) + rest);
        lemma_read_inverts_encode(entry.value, before + encode(entry.key), rest);
        let taken = before + encode(entry.key) + encode(entry.value);
        assert(events =~= taken + encode_entries(entries, from + 1) + seq![Event::End] + after);
        lemma_read_entries_inverts_encode(entries, from + 1, taken, after);
    }
}

/// Where no whole value begins, a running machine does not come to the end
/// of the value that is due: over what is left of the session it fails, or
/// it is still running with no fewer collections open.
pub proof fn lemma_unread_is_not_completed(m: Machine, events: Seq<Event>, at: int)
    requires
        m.status == Status::Running,
        0 <= at <= events.len(),
        read(events, at) is None,
        at < events.len() && events[at] == Event::End ==> !m.may_end(),
    ensures
        ({
            let after = m.run(events.skip(at));
            ||| after.status is Failed
            ||| after.status == Status::Running && after.stack.len() >= m.stack.len()
        }),
    decreases events.len() - at, 0nat,
{
    if at < events.len() {
        let first = events[at];
        let rest = events.skip(at + 1);
        assert(events.skip(at) =~= seq![first] + rest);
        m.lemma_run_first(first, rest);
        let next = m.step(first);
        if next.status != Status::Running {
            next.lemma_stopped_stays(rest);
        } else {
            match first {
                Event::Value(kind) => match kind.structure() {
                    Structure::Wrapped => {
                        lemma_unread_is_not_completed(next, events, at + 1);
                    },
                    Structure::Elements => {
                        lemma_unread_items(next, events, at + 1);
                    },
                    Structure::Entries => {
                        lemma_unread_entries(
                            next,
                            m.expected().key(),
                            m.expected().value(),
                            events,
                            at + 1,
                        );
                    },
                    Structure::Leaf => {},
                },
                _ => {},
            }
        }
    }
}

/// Where the elements of a sequence do not come to the end of the sequence,
/// a machine inside the sequence does not leave it.
pub proof fn lemma_unread_items(m: Machine, events: Seq<Event>, at: int)
    requires
        m.status == Status::Running,
        !m.wrapped,
        m.stack.len() > 0,
        m.stack.last() is Elements,
        0 <= at <= events.len(),
        read_items(events, at) is None,
    ensures
        ({
            let after = m.run(events.skip(at));
            ||| after.status is Failed
            ||| after.status == Status::Running && after.stack.len() >= m.stack.len()
        }),
    decreases events.len() - at, 1nat,
{
    if at < events.len() {
        match read(events, at) {
            None => {
                lemma_unread_is_not_completed(m, events, at);
            },
            Some((item, next)) => {
                lemma_read_is_faithful(events, at);
                let rest = events.skip(next);
                assert(events.skip(at) =~= events.subrange(at, next) + rest);
                lemma_run_value(m, item, rest);
                if defect(item, m.expected()) is None {
                    lemma_unread_items(m, events, next);
                }
            },
        }
    }
}

/// Where the entries of a key/value collection do not come to the end of the
/// collection, a machine inside the collection does not leave it.
pub proof fn lemma_unread_entries(m: Machine, key: Shape, value: Shape, events: Seq<Event>, at: int)
    requires
        m.status == Status::Running,
        !m.wrapped,
        m.stack.len() > 0,
        m.stack.last() == Slot::Key(key, value),
        0 <= at <= events.len(),
        read_entries(events, at) is None,
    ensures
        ({
            let after = m.run(events.skip(at));
            ||| after.status is Failed
            ||| after.status == Status::Running && after.stack.len() >= m.stack.len()
        }),
    decreases events.len() - at, 1nat,
{
    if at < events.len() {
        match read(events, at) {
            None => {
                lemma_unread_is_not_completed(m, events, at);
            },
            Some((first, middle)) => {
                lemma_read_is_faithful(events, at);
                let after_key = events.skip(middle);
                assert(events.skip(at) =~= events.subrange(at, middle) + after_key);
                lemma_run_value(m, first, after_key);
                if defect(first, key) is None {
                    let between = m.completed();
                    match read(events, middle) {
                        None => {
                            lemma_unread_is_not_completed(between, events, middle);
                        },
                        Some((second, next)) => {
                            lemma_read_is_faithful(events, middle);
                            let rest = events.skip(next);
                            assert(after_key =~= events.subrange(middle, next) + rest);
                            lemma_run_value(between, second, rest);
                            if defect(second, value) is None {
                                assert(between.completed().stack =~= m.stack);
                                lemma_unread_entries(m, key, value, events, next);
                            }
                        },
                    }
                }
            },
        }
    }
}

} // verus!
