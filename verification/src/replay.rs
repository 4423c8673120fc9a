//! The state machine on the events of a value: what it does with each tree.

use vstd::prelude::*;
use crate::event::{Event, Status};
use crate::kind::ValueKind;
use crate::machine::{Machine, Slot};
use crate::shape::Shape;
use crate::value::{
    defect, defect_entries, defect_items, encode, encode_entries, encode_items, Entry, Value,
};

verus! {

/// A running machine that is fed the events of a well-formed value `v`, and
/// then `tail`, fails with the first defect of `v` against the expected
/// shape. If there is none, it is, after the events of `v`, in the state in
/// which the expected value is complete, whatever `v` was, and goes on with
/// `tail` from there.
pub proof fn lemma_run_value(m: Machine, v: Value, tail: Seq<Event>)
    requires
        m.status == Status::Running,
        v.well_formed(),
    ensures
        defect(v, m.expected()) is None ==> m.run(encode(v) + tail) == m.completed().run(tail),
        defect(v, m.expected()) matches Some(error) ==> m.run(encode(v) + tail).status
            == Status::Failed(error),
    decreases v, 0nat,
{
    let shape = m.expected();
    match v {
        Value::Leaf(kind) => {
            let first = Event::Value(kind);
            m.lemma_run_first(first, tail);
            if !shape.admits(kind) {
                m.step(first).lemma_stopped_stays(tail);
            }
        },
        Value::Foreign => {
            m.lemma_run_first(Event::Delegated, tail);
            if !(shape is Foreign) {
                m.step(Event::Delegated).lemma_stopped_stays(tail);
            }
        },
        Value::Fault => {
            m.lemma_run_first(Event::Fault, tail);
            m.step(Event::Fault).lemma_stopped_stays(tail);
        },
        Value::Present(inner) => {
            let first = Event::Value(ValueKind::Present);
            assert(encode(v) + tail =~= seq![first] + (encode(*inner) + tail));
            m.lemma_run_first(first, encode(*inner) + tail);
            if shape.admits(ValueKind::Present) {
                let inside = m.step(first);
                lemma_run_value(inside, *inner, tail);
            } else {
                m.step(first).lemma_stopped_stays(encode(*inner) + tail);
            }
        },
        Value::Wrapper(inner) => {
            let first = Event::Value(ValueKind::Wrapper);
            assert(encode(v) + tail =~= seq![first] + (encode(*inner) + tail));
            m.lemma_run_first(first, encode(*inner) + tail);
            if shape.admits(ValueKind::Wrapper) {
                let inside = m.step(first);
                lemma_run_value(inside, *inner, tail);
            } else {
                m.step(first).lemma_stopped_stays(encode(*inner) + tail);
            }
        },
        Value::Sequence(items) => {
            let first = Event::Value(ValueKind::Sequence);
            let close = seq![Event::End] + tail;
            assert(encode(v) + tail =~= seq![first] + (encode_items(items, 0) + close));
            m.lemma_run_first(first, encode_items(items, 0) + close);
            if shape.admits(ValueKind::Sequence) {
                let inside = m.step(first);
                lemma_run_items(inside, items, 0, close);
                if defect_items(items, shape.element(), 0) is None {
                    inside.lemma_run_first(Event::End, tail);
                    assert(inside.stack.drop_last() =~= m.stack);
                }
            } else {
                m.step(first).lemma_stopped_stays(encode_items(items, 0) + close);
            }
        },
        Value::Mapping(entries) => {
            let first = Event::Value(ValueKind::Mapping);
            let close = seq![Event::End] + tail;
            assert(encode(v) + tail =~= seq![first] + (encode_entries(entries, 0) + close));
            m.lemma_run_first(first, encode_entries(entries, 0) + close);
            if shape.admits(ValueKind::Mapping) {
                let inside = m.step(first);
                lemma_run_entries(inside, entries, shape.key(), shape.value(), 0, close);
                if defect_entries(entries, shape.key(), shape.value(), 0) is None {
                    inside.lemma_run_first(Event::End, tail);
                    assert(inside.stack.drop_last() =~= m.stack);
                }
            } else {
                m.step(first).lemma_stopped_stays(encode_entries(entries, 0) + close);
            }
        },
    }
}

/// Inside a sequence, the machine fails with the first defect among the
/// elements that are left; if there is none, it is after their events where
/// it was before.
pub proof fn lemma_run_items(m: Machine, items: Seq<Value>, from: int, tail: Seq<Event>)
    requires
        m.status == Status::Running,
        !m.wrapped,
        m.stack.len() > 0,
        m.stack.last() is Elements,
        0 <= from,
        forall|i: int| 0 <= i < items.len() ==> (#[trigger] items[i]).well_formed(),
    ensures
        defect_items(items, m.expected(), from) is None ==> m.run(encode_items(items, from) + tail)
            == m.run(tail),
        defect_items(items, m.expected(), from) matches Some(error) ==> m.run(
            encode_items(items, from) + tail,
        ).status == Status::Failed(error),
    decreases items, items.len() - from,
{
    if from < items.len() {
        let rest = encode_items(items, from + 1) + tail;
        assert(encode_items(items, from) + tail =~= encode(items[from]) + rest);
        lemma_run_value(m, items[from], rest);
        if defect(items[from], m.expected()) is None {
            lemma_run_items(m, items, from + 1, tail);
        }
    }
}

/// Inside a key/value collection, between entries, the machine fails with
/// the first defect among the entries that are left; if there is none, it is
/// after their events where it was before.
pub proof fn lemma_run_entries(
    m: Machine,
    entries: Seq<Entry>,
    key: Shape,
    value: Shape,
    from: int,
    tail: Seq<Event>,
)
    requires
        m.status == Status::Running,
        !m.wrapped,
        m.stack.len() > 0,
        m.stack.last() == Slot::Key(key, value),
        0 <= from,
        forall|i: int|
            0 <= i < entries.len() ==> ({
                &&& (#[trigger] entries[i]).key.well_formed()
                &&& entries[i].value.well_formed()
            }),
    ensures
        defect_entries(entries, key, value, from) is None ==> m.run(
            encode_entries(entries, from) + tail,
        ) == m.run(tail),
        defect_entries(entries, key, value, from) matches Some(error) ==> m.run(
            encode_entries(entries, from) + tail,
        ).status == Status::Failed(error),
    decreases entries, entries.len() - from,
{
    if from < entries.len() {
        let entry = entries[from];
        let rest = encode_entries(entries, from + 1) + tail;
        let after_key = encode(entry.value) + rest;
        assert(encode_entries(entries, from) + tail =~= encode(entry.key) + after_key);
        lemma_run_value(m, entry.key, after_key);
        if defect(entry.key, key) is None {
            let between = m.completed();
            lemma_run_value(between, entry.value, rest);
            if defect(entry.value, value) is None {
                assert(between.completed().stack =~= m.stack);
                lemma_run_entries(m, entries, key, value, from + 1, tail);
            }
        }
    }
}

} // verus!
