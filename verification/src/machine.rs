//! The validation as a state machine over a decoder's events.
//!
//! A validation does not hold the decoder. Whoever drives the decoder tells
//! the machine what the decoder found, one event at a time, and the machine
//! says where the validation stands. Its state is a stack with one slot for
//! each collection that is open, so it grows with the nesting of the input
//! and not with its size.

use vstd::prelude::*;
use crate::event::{Event, Status, ValidationError};
use crate::kind::{Structure, ValueKind};
use crate::shape::Shape;

verus! {

/// What is expected inside a collection that is open.
pub enum Slot {
    /// Inside a sequence: an element of this shape, or the end.
    Elements(Shape),
    /// Inside a key/value collection, between entries: a key of the first
    /// shape, or the end. The second shape is that of the values.
    Key(Shape, Shape),
    /// Inside a key/value collection, after a key: a value of the second
    /// shape. The collection cannot end here.
    Value(Shape, Shape),
}

/// Where in the input the value that is due stands.
#[derive(Clone, Copy, Debug, PartialEq, Eq, Hash, Structural)]
pub enum Position {
    /// At the top: the value is the whole input.
    Top,
    /// In a sequence: the value is an element.
    Element,
    /// In a key/value collection: the value is a key.
    Key,
    /// In a key/value collection: the value is the value of the key before
    /// it.
    Value,
}

/// The state of a validation.
pub struct Machine {
    /// The shape that the whole input is held to.
    pub root: Shape,
    /// The collections that are open, the innermost last.
    pub stack: Seq<Slot>,
    /// Whether a present optional or a wrapper has been announced whose
    /// value has not begun yet.
    pub wrapped: bool,
    /// Where the validation stands.
    pub status: Status,
}

impl Machine {
    /// The state before the first event.
    pub open spec fn start(root: Shape) -> Machine {
        Machine { root, stack: Seq::empty(), wrapped: false, status: Status::Running }
    }

    /// The shape of the value that is due next.
    pub open spec fn expected(self) -> Shape {
        if self.stack.len() == 0 {
            self.root
        } else {
            match self.stack.last() {
                Slot::Elements(t) => t,
                Slot::Key(k, _) => k,
                Slot::Value(_, v) => v,
            }
        }
    }

    /// Where the value that is due next stands.
    pub open spec fn position(self) -> Position {
        if self.stack.len() == 0 {
            Position::Top
        } else {
            match self.stack.last() {
                Slot::Elements(_) => Position::Element,
                Slot::Key(_, _) => Position::Key,
                Slot::Value(_, _) => Position::Value,
            }
        }
    }

    /// The state once the value that was due is complete: at the top level
    /// the validation is done, in a sequence the next element is due, in a
    /// key/value collection a key is followed by its value and a value by the
    /// next key. Nothing of the value is kept.
    pub open spec fn completed(self) -> Machine {
        if self.stack.len() == 0 {
            Machine { wrapped: false, status: Status::Done, ..self }
        } else {
            let top = self.stack.len() - 1;
            match self.stack.last() {
                Slot::Elements(_) => Machine { wrapped: false, ..self },
                Slot::Key(k, v) => Machine {
                    stack: self.stack.update(top, Slot::Value(k, v)),
                    wrapped: false,
                    ..self
                },
                Slot::Value(k, v) => Machine {
                    stack: self.stack.update(top, Slot::Key(k, v)),
                    wrapped: false,
                    ..self
                },
            }
        }
    }

    /// The state after a failure.
    pub open spec fn failed(self, error: ValidationError) -> Machine {
        Machine { status: Status::Failed(error), ..self }
    }

    /// The state after a value of the expected shape has been announced with
    /// `kind`.
    pub open spec fn entered(self, kind: ValueKind) -> Machine {
        match kind.structure() {
            Structure::Leaf => self.completed(),
            Structure::Wrapped => Machine { wrapped: true, ..self },
            Structure::Elements => Machine {
                stack: self.stack.push(Slot::Elements(self.expected().element())),
                wrapped: false,
                ..self
            },
            Structure::Entries => Machine {
                stack: self.stack.push(Slot::Key(self.expected().key(), self.expected().value())),
                wrapped: false,
                ..self
            },
        }
    }

    /// Whether the collection that is open may end now: there is one, no
    /// wrapped value is outstanding, and no key waits for its value.
    pub open spec fn may_end(self) -> bool {
        &&& !self.wrapped
        &&& self.stack.len() > 0
        &&& !(self.stack.last() is Value)
    }

    /// The state after one event.
    ///
    /// A validation that is done or has failed takes no further event. A
    /// running one fails on the decoder's error, and on the first event that
    /// the expected shape does not allow; otherwise it moves on.
    pub open spec fn step(self, event: Event) -> Machine {
        if self.status != Status::Running {
            self
        } else {
            match event {
                Event::Fault => self.failed(ValidationError::Decoder),
                Event::Delegated => if self.expected() is Foreign {
                    self.completed()
                } else {
                    self.failed(ValidationError::Mismatch)
                },
                Event::Value(kind) => if self.expected().admits(kind) {
                    self.entered(kind)
                } else {
                    self.failed(ValidationError::Mismatch)
                },
                Event::End => if self.may_end() {
                    Machine { stack: self.stack.drop_last(), ..self }.completed()
                } else {
                    self.failed(ValidationError::Mismatch)
                },
            }
        }
    }

    /// The state after a run of events.
    pub open spec fn run(self, events: Seq<Event>) -> Machine
        decreases events.len(),
    {
        if events.len() == 0 {
            self
        } else {
            self.run(events.drop_last()).step(events.last())
        }
    }

    /// What the validation comes to if the session stops here. A session
    /// that stops before the value is complete is a decoder that failed to
    /// deliver.
    pub open spec fn outcome(self) -> Result<(), ValidationError> {
        match self.status {
            Status::Done => Ok(()),
            Status::Failed(error) => Err(error),
            Status::Running => Err(ValidationError::Decoder),
        }
    }

    /// A machine that has stopped stays as it is.
    pub proof fn lemma_stopped_stays(self, events: Seq<Event>)
        requires
            self.status != Status::Running,
        ensures
            self.run(events) == self,
        decreases events.len(),
    {
        if events.len() > 0 {
            self.lemma_stopped_stays(events.drop_last());
        }
    }

    /// A run of one event is one step.
    pub proof fn lemma_run_one(self, event: Event)
        ensures
            self.run(seq![event]) == self.step(event),
    {
        assert(self.run(seq![event].drop_last()) == self);
    }

    /// A run over two stretches of events is the run over the first and then
    /// the run over the second.
    pub proof fn lemma_run_concat(self, first: Seq<Event>, second: Seq<Event>)
        ensures
            self.run(first + second) == self.run(first).run(second),
        decreases second.len(),
    {
        if second.len() > 0 {
            self.lemma_run_concat(first, second.drop_last());
            assert((first + second).drop_last() =~= first + second.drop_last());
        }
    }

    /// A run that begins with `event` is the step on it and then the run over
    /// the rest.
    pub proof fn lemma_run_first(self, event: Event, rest: Seq<Event>)
        ensures
            self.run(seq![event] + rest) == self.step(event).run(rest),
    {
        self.lemma_run_concat(seq![event], rest);
        self.lemma_run_one(event);
    }
}

/// What a validation of `shape` comes to on a session whose events are
/// `events`.
pub open spec fn verdict(shape: Shape, events: Seq<Event>) -> Result<(), ValidationError> {
    Machine::start(shape).run(events).outcome()
}

} // verus!
