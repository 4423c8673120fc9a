//! The running validation: the machine in executable form.

use vstd::prelude::*;
use crate::event::{Event, Status, ValidationError};
use crate::kind::Structure;
use crate::machine::{Machine, Position, Slot};
use crate::shape::{Request, Shape};

verus! {

/// One open collection, by reference into the shape that is validated.
enum Frame<'a> {
    Elements(&'a Shape),
    Key(&'a Shape, &'a Shape),
    Value(&'a Shape, &'a Shape),
}

impl<'a> Frame<'a> {
    spec fn slot(self) -> Slot {
        match self {
            Frame::Elements(t) => Slot::Elements(*t),
            Frame::Key(k, v) => Slot::Key(*k, *v),
            Frame::Value(k, v) => Slot::Value(*k, *v),
        }
    }
}

/// A validation in progress.
///
/// The validator does not hold the decoder: a driver does, and the two take
/// turns.
///
/// 1. Before each value the driver asks [`Validator::request`] what to ask
///    of the decoder, and asks it.
/// 2. When the decoder answers with a value, the driver feeds
///    [`Event::Value`] with the value's kind. After a present optional or a
///    wrapper the driver goes on with the value inside, after the start of a
///    collection with its elements or entries, each as in step 1.
/// 3. When the decoder says that a collection has no more elements, the
///    driver feeds [`Event::End`].
/// 4. Where [`Validator::request`] asks for a foreign value, the driver
///    hands the decoder to the foreign validator and feeds
///    [`Event::Delegated`] if that one accepts.
/// 5. When the decoder or a foreign validator raises an error, the driver
///    feeds [`Event::Fault`] and passes the error on as it is.
///
/// After each event [`Validator::feed`] says where the validation stands.
/// The validator keeps one frame for each collection that is open and
/// nothing of the values themselves.
pub struct Validator<'a> {
    root: &'a Shape,
    stack: Vec<Frame<'a>>,
    wrapped: bool,
    status: Status,
}

impl<'a> View for Validator<'a> {
    type V = Machine;

    closed spec fn view(&self) -> Machine {
        Machine {
            root: *self.root,
            stack: self.stack@.map_values(|f: Frame<'a>| f.slot()),
            wrapped: self.wrapped,
            status: self.status,
        }
    }
}

impl<'a> Validator<'a> {
    /// Begins a validation of one value against `root`.
    pub fn new(root: &'a Shape) -> (validator: Self)
        ensures
            validator@ == Machine::start(*root),
    {
        let validator = Validator {
            root,
            stack: Vec::new(),
            wrapped: false,
            status: Status::Running,
        };
        assert(validator@.stack =~= Seq::<Slot>::empty());
        validator
    }

    /// Where the validation stands.
    pub fn status(&self) -> (status: Status)
        ensures
            status == self@.status,
    {
        self.status
    }

    /// The number of collections that are open.
    pub fn depth(&self) -> (depth: usize)
        ensures
            depth == self@.stack.len(),
    {
        self.stack.len()
    }

    /// The shape of the value that is due next.
    fn expected(&self) -> (shape: &'a Shape)
        ensures
            *shape == self@.expected(),
    {
        let depth = self.stack.len();
        if depth == 0 {
            self.root
        } else {
            match self.stack[depth - 1] {
                Frame::Elements(t) => t,
                Frame::Key(k, _) => k,
                Frame::Value(_, v) => v,
            }
        }
    }

    /// Where the value that is due next stands.
    pub fn position(&self) -> (position: Position)
        ensures
            position == self@.position(),
    {
        let depth = self.stack.len();
        if depth == 0 {
            Position::Top
        } else {
            match self.stack[depth - 1] {
                Frame::Elements(_) => Position::Element,
                Frame::Key(_, _) => Position::Key,
                Frame::Value(_, _) => Position::Value,
            }
        }
    }

    /// What to ask of the decoder for the value that is due next, or nothing
    /// if the validation has stopped.
    pub fn request(&self) -> (request: Option<Request>)
        ensures
            request == if self@.status == Status::Running {
                Some(self@.expected().request())
            } else {
                None
            },
    {
        match self.status {
            Status::Running => Some(self.expected().hint()),
            _ => None,
        }
    }

    /// The words that name the expected shape in a decoder's error message.
    pub fn expecting(&self) -> (text: &'static str)
        ensures
            text@ == self@.expected().expecting_text(),
    {
        self.expected().expecting()
    }

    /// Notes that the value that was due is complete.
    fn complete(&mut self)
        ensures
            final(self)@ == old(self)@.completed(),
    {
        self.wrapped = false;
        let ghost before = self.stack@.map_values(|f: Frame<'a>| f.slot());
        match self.stack.pop() {
            None => {
                self.status = Status::Done;
            },
            Some(Frame::Elements(t)) => {
                self.stack.push(Frame::Elements(t));
                assert(self@.stack =~= before);
            },
            Some(Frame::Key(k, v)) => {
                self.stack.push(Frame::Value(k, v));
                assert(self@.stack =~= before.update(before.len() - 1, Slot::Value(*k, *v)));
            },
            Some(Frame::Value(k, v)) => {
                self.stack.push(Frame::Key(k, v));
                assert(self@.stack =~= before.update(before.len() - 1, Slot::Key(*k, *v)));
            },
        }
    }

    /// Tells whether the collection that is open may end now.
    fn may_end(&self) -> (b: bool)
        ensures
            b == self@.may_end(),
    {
        let depth = self.stack.len();
        if self.wrapped || depth == 0 {
            false
        } else {
            match self.stack[depth - 1] {
                Frame::Value(_, _) => false,
                _ => true,
            }
        }
    }

    /// Takes one event from the decoder's driver and says where the
    /// validation stands after it.
    pub fn feed(&mut self, event: Event) -> (status: Status)
        ensures
            final(self)@ == old(self)@.step(event),
            status == final(self)@.status,
    {
        match self.status {
            Status::Running => {},
            _ => {
                return self.status;
            },
        }
        let shape = self.expected();
        let ghost before = self.stack@.map_values(|f: Frame<'a>| f.slot());
        match event {
            Event::Fault => {
                self.status = Status::Failed(ValidationError::Decoder);
            },
            Event::Delegated => match shape {
                Shape::Foreign => {
                    self.complete();
                },
                _ => {
                    self.status = Status::Failed(ValidationError::Mismatch);
                },
            },
            Event::Value(kind) => if shape.accepts(kind) {
                match kind.classify() {
                    Structure::Leaf => {
                        self.complete();
                    },
                    Structure::Wrapped => {
                        self.wrapped = true;
                    },
                    Structure::Elements => {
                        self.stack.push(Frame::Elements(shape.element_shape()));
                        self.wrapped = false;
                        assert(self@.stack =~= before.push(Slot::Elements(shape.element())));
                    },
                    Structure::Entries => {
                        self.stack.push(Frame::Key(shape.key_shape(), shape.value_shape()));
                        self.wrapped = false;
                        assert(self@.stack =~= before.push(Slot::Key(shape.key(), shape.value())));
                    },
                }
            } else {
                self.status = Status::Failed(ValidationError::Mismatch);
            },
            Event::End => if self.may_end() {
                self.stack.pop();
                assert(self@.stack =~= before.drop_last());
                self.complete();
            } else {
                self.status = Status::Failed(ValidationError::Mismatch);
            },
        }
        self.status
    }
}

} // verus!
