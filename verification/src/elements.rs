//! The syntax elements, and what a grammar outside this crate reports of
//! the elements that it recognises.

use crate::feeder::{Feeder, FeederState};
use vstd::prelude::*;

pub mod job;
pub mod subword;

verus! {

/// What a recogniser reports of the front of the buffer. A recogniser reads
/// the buffer and leaves consuming to the parser that called it.
#[derive(Debug)]
pub enum Parsed<N> {
    /// An element stands at the front and spans the first `len` characters.
    Found { node: N, len: usize },
    /// No element of this kind stands at the front.
    Absent,
    /// What stands at the front is malformed, for the given reason.
    Malformed { reason: String },
}

/// A syntax element whose grammar lies outside this crate. `C` is the shell
/// state that every parse call is handed.
pub trait Parse<C>: Sized {
    /// Looks for an element at the front of `feeder`.
    fn parse(feeder: &Feeder, core: &mut C) -> Parsed<Self>;
}

/// The state in which a report leaves the buffer, and the element with its
/// source text where the report is taken up. An element is taken up where
/// its span fits into the text that remains; its span is then removed. A
/// malformed element is recorded as the pending error. Everything else
/// leaves the buffer as it is.
pub open spec fn accepted<N>(before: FeederState, outcome: Parsed<N>) -> (
    FeederState,
    Option<(N, Seq<char>)>,
) {
    match outcome {
        Parsed::Found { node, len } => if len <= before.remaining.len() {
            (
                FeederState { remaining: before.remaining.skip(len as int), ..before },
                Some((node, before.remaining.take(len as int))),
            )
        } else {
            (before, None)
        },
        Parsed::Absent => (before, None),
        Parsed::Malformed { reason } => (
            FeederState { error_occuring: true, error_reason: reason@, ..before },
            None,
        ),
    }
}

/// An element together with the view of its source text.
pub open spec fn taken<N>(got: Option<(N, String)>) -> Option<(N, Seq<char>)> {
    match got {
        Some((node, text)) => Some((node, text@)),
        None => None,
    }
}

impl Feeder {
    /// Takes up what a recogniser reported of the front of this buffer:
    /// consumes the element's span and returns the element with the text
    /// consumed, or records the error that was reported.
    pub fn accept<N>(&mut self, outcome: Parsed<N>) -> (got: Option<(N, String)>)
        ensures
            final(self).state() == accepted(old(self).state(), outcome).0,
            taken(got) == accepted(old(self).state(), outcome).1,
    {
        match outcome {
            Parsed::Found { node, len } => {
                if len <= self.len() {
                    let text = self.consume(len);
                    Some((node, text))
                } else {
                    None
                }
            },
            Parsed::Absent => None,
            Parsed::Malformed { reason } => {
                self.set_error(reason);
                None
            },
        }
    }
}

} // verus!
