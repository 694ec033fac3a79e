//! The top level of a script: one element at a time.

use crate::elements::{accepted, Parse, Parsed};
use crate::feeder::{Feeder, FeederState};
use vstd::prelude::*;

verus! {

/// An element that can be run. `C` is the shell state that a run is handed.
///
/// What a run may do is the element's own affair. An element can say so in
/// `evaluates` and `executes`; its `eval` and `exec` then either keep to
/// that or do nothing at all. An element that does not say so may do
/// anything.
pub trait Executable<C> {
    /// Whether an evaluation that starts on this element and on the shell
    /// state `conf` may leave the element as `after` and the shell state as
    /// `conf_after`, and return `words`. Unless the element says otherwise,
    /// every evaluation may happen.
    open spec fn evaluates(
        &self,
        conf: &C,
        after: &Self,
        conf_after: &C,
        words: &Vec<String>,
    ) -> bool {
        true
    }

    /// Whether a run that starts on this element and on the shell state
    /// `conf` may leave the element as `after` and the shell state as
    /// `conf_after`, and return `output`. Unless the element says otherwise,
    /// every run may happen.
    open spec fn executes(&self, conf: &C, after: &Self, conf_after: &C, output: &String) -> bool {
        true
    }

    /// Expands the element into words. Unless the element says otherwise,
    /// nothing changes and there are no words.
    fn eval(&mut self, conf: &mut C) -> (words: Vec<String>)
        ensures
            old(self).evaluates(old(conf), final(self), final(conf), &words) || (&*final(self)
                == &*old(self) && *final(conf) == *old(conf) && words@.len() == 0),
        default_ensures
            &*final(self) == &*old(self),
            *final(conf) == *old(conf),
            words@.len() == 0,
    {
        Vec::new()
    }

    /// Runs the element and returns what it printed. Unless the element
    /// says otherwise, nothing changes and nothing is printed.
    fn exec(&mut self, conf: &mut C) -> (output: String)
        ensures
            old(self).executes(old(conf), final(self), final(conf), &output) || (&*final(self)
                == &*old(self) && *final(conf) == *old(conf) && output@.len() == 0),
        default_ensures
            &*final(self) == &*old(self),
            *final(conf) == *old(conf),
            output@.len() == 0,
    {
        String::new()
    }
}

/// What can stand at the top level of a script.
#[derive(Debug)]
pub enum TopLevel<B, S, K> {
    /// A line of blanks or a comment.
    Blank(B),
    /// A statement that assigns variables.
    SetVariables(S),
    /// A command.
    Command(K),
}

impl<B, S, K> TopLevel<B, S, K> {
    /// Whether `other` holds the same alternative as this element: a blank
    /// part, an assignment or a command.
    pub open spec fn same_alternative(self, other: Self) -> bool {
        match (self, other) {
            (TopLevel::Blank(_), TopLevel::Blank(_)) => true,
            (TopLevel::SetVariables(_), TopLevel::SetVariables(_)) => true,
            (TopLevel::Command(_), TopLevel::Command(_)) => true,
            _ => false,
        }
    }
}

/// A top-level element runs as the alternative that it holds does, and
/// stays that alternative.
impl<C, B: Executable<C>, S: Executable<C>, K: Executable<C>> Executable<C> for TopLevel<B, S, K> {
    open spec fn evaluates(
        &self,
        conf: &C,
        after: &Self,
        conf_after: &C,
        words: &Vec<String>,
    ) -> bool {
        match (*self, *after) {
            (TopLevel::Blank(blank), TopLevel::Blank(left)) => blank.evaluates(
                conf,
                &left,
                conf_after,
                words,
            ),
            (TopLevel::SetVariables(assignment), TopLevel::SetVariables(left)) => {
                assignment.evaluates(conf, &left, conf_after, words)
            },
            (TopLevel::Command(command), TopLevel::Command(left)) => command.evaluates(
                conf,
                &left,
                conf_after,
                words,
            ),
            _ => false,
        }
    }

    open spec fn executes(&self, conf: &C, after: &Self, conf_after: &C, output: &String) -> bool {
        match (*self, *after) {
            (TopLevel::Blank(blank), TopLevel::Blank(left)) => blank.executes(
                conf,
                &left,
                conf_after,
                output,
            ),
            (TopLevel::SetVariables(assignment), TopLevel::SetVariables(left)) => {
                assignment.executes(conf, &left, conf_after, output)
            },
            (TopLevel::Command(command), TopLevel::Command(left)) => command.executes(
                conf,
                &left,
                conf_after,
                output,
            ),
            _ => false,
        }
    }

    /// Evaluates the alternative that the element holds: the element stays
    /// that alternative, and what happened is what the evaluation of the
    /// alternative may do, or nothing.
    fn eval(&mut self, conf: &mut C) -> (words: Vec<String>)
        ensures
            old(self).same_alternative(*final(self)),
            old(self).evaluates(old(conf), final(self), final(conf), &words) || (*final(self)
                == *old(self) && *final(conf) == *old(conf) && words@.len() == 0),
    {
        match self {
            TopLevel::Blank(blank) => blank.eval(conf),
            TopLevel::SetVariables(assignment) => assignment.eval(conf),
            TopLevel::Command(command) => command.eval(conf),
        }
    }

    /// Runs the alternative that the element holds: the element stays that
    /// alternative, and what happened is what the run of the alternative
    /// may do, or nothing.
    fn exec(&mut self, conf: &mut C) -> (output: String)
        ensures
            old(self).same_alternative(*final(self)),
            old(self).executes(old(conf), final(self), final(conf), &output) || (*final(self)
                == *old(self) && *final(conf) == *old(conf) && output@.len() == 0),
    {
        match self {
            TopLevel::Blank(blank) => blank.exec(conf),
            TopLevel::SetVariables(assignment) => assignment.exec(conf),
            TopLevel::Command(command) => command.exec(conf),
        }
    }
}

/// The state in which error recovery leaves the buffer, and the diagnostic
/// that it hands out. With an error pending, the rest of the buffer is
/// dropped, the flag is cleared and the recorded reason is the diagnostic.
/// With none, nothing happens.
pub open spec fn recovered(before: FeederState) -> (FeederState, Option<Seq<char>>) {
    if before.error_occuring {
        (
            FeederState { remaining: Seq::empty(), error_occuring: false, ..before },
            Some(before.error_reason),
        )
    } else {
        (before, None)
    }
}

/// What the top level makes of the reports of its three recognisers. On an
/// empty buffer there is no element. Otherwise the alternatives are tried
/// in the order blank part, variable assignment, command, each on the
/// buffer as the one before left it, and the first that is taken up is the
/// element. Where none is, the buffer goes through error recovery.
pub open spec fn dispatch<B, S, K>(
    before: FeederState,
    blank: Parsed<B>,
    assignment: Parsed<S>,
    command: Parsed<K>,
) -> (FeederState, Option<TopLevel<B, S, K>>, Option<Seq<char>>) {
    if before.remaining.len() == 0 {
        (before, None, None)
    } else {
        match accepted(before, blank) {
            (after, Some((node, _))) => (after, Some(TopLevel::Blank(node)), None),
            (after, None) => match accepted(after, assignment) {
                (after, Some((node, _))) => (after, Some(TopLevel::SetVariables(node)), None),
                (after, None) => match accepted(after, command) {
                    (after, Some((node, _))) => (after, Some(TopLevel::Command(node)), None),
                    (after, None) => (recovered(after).0, None, recovered(after).1),
                },
            },
        }
    }
}

/// The view of a diagnostic.
pub open spec fn diagnostic_view(diagnostic: Option<String>) -> Option<Seq<char>> {
    match diagnostic {
        Some(text) => Some(text@),
        None => None,
    }
}

impl Feeder {
    /// Recovers from a pending parse error: drops the rest of the buffer,
    /// clears the flag and returns the recorded reason, which the caller is
    /// to print as it stands. Without a pending error it does nothing.
    pub fn recover(&mut self) -> (diagnostic: Option<String>)
        ensures
            final(self).state() == recovered(old(self).state()).0,
            diagnostic_view(diagnostic) == recovered(old(self).state()).1,
    {
        if self.error_occuring {
            let len = self.len();
            let _ = self.consume(len);
            self.error_occuring = false;
            assert(self@ =~= Seq::<char>::empty());
            Some(self.error_reason.clone())
        } else {
            None
        }
    }
}

/// Parses the next element at the top level of a script. Returns the
/// element, if there is one, and the diagnostic to print, if the statement
/// at the front was malformed and has been skipped.
pub fn top_level_element<C, B: Parse<C>, S: Parse<C>, K: Parse<C>>(
    text: &mut Feeder,
    core: &mut C,
) -> (found: (Option<TopLevel<B, S, K>>, Option<String>))
    ensures
        exists|blank: Parsed<B>, assignment: Parsed<S>, command: Parsed<K>|
            dispatch(old(text).state(), blank, assignment, command) == (
                final(text).state(),
                found.0,
                diagnostic_view(found.1),
            ),
{
    let ghost before = text.state();
    if text.len() == 0 {
        assert(dispatch(before, Parsed::<B>::Absent, Parsed::<S>::Absent, Parsed::<K>::Absent) == (
            before,
            None::<TopLevel<B, S, K>>,
            None::<Seq<char>>,
        ));
        return (None, None);
    }
    let blank = B::parse(text, core);
    let ghost blank_report = blank;
    if let Some((result, _)) = text.accept(blank) {
        assert(dispatch(before, blank_report, Parsed::<S>::Absent, Parsed::<K>::Absent) == (
            text.state(),
            Some(TopLevel::<B, S, K>::Blank(result)),
            None::<Seq<char>>,
        ));
        return (Some(TopLevel::Blank(result)), None);
    }
    let assignment = S::parse(text, core);
    let ghost assignment_report = assignment;
    if let Some((result, _)) = text.accept(assignment) {
        assert(dispatch(before, blank_report, assignment_report, Parsed::<K>::Absent) == (
            text.state(),
            Some(TopLevel::<B, S, K>::SetVariables(result)),
            None::<Seq<char>>,
        ));
        return (Some(TopLevel::SetVariables(result)), None);
    }
    let command = K::parse(text, core);
    let ghost command_report = command;
    if let Some((result, _)) = text.accept(command) {
        assert(dispatch(before, blank_report, assignment_report, command_report) == (
            text.state(),
            Some(TopLevel::<B, S, K>::Command(result)),
            None::<Seq<char>>,
        ));
        return (Some(TopLevel::Command(result)), None);
    }
    let diagnostic = text.recover();
    assert(dispatch(before, blank_report, assignment_report, command_report) == (
        text.state(),
        None::<TopLevel<B, S, K>>,
        diagnostic_view(diagnostic),
    ));
    (None, diagnostic)
}

/// A statement that no alternative takes up and that leaves an error
/// pending is skipped whole, once: the buffer is emptied, the flag is
/// cleared, there is no element and the recorded reason is the diagnostic.
/// Asked again, the top level finds the buffer empty, and returns no
/// element and no diagnostic, whatever the recognisers would report.
pub proof fn lemma_malformed_statement_is_skipped_once<B, S, K>(
    before: FeederState,
    blank: Parsed<B>,
    assignment: Parsed<S>,
    command: Parsed<K>,
    blank_again: Parsed<B>,
    assignment_again: Parsed<S>,
    command_again: Parsed<K>,
)
    requires
        before.remaining.len() > 0,
        ({
            let after_blank = accepted(before, blank);
            let after_assignment = accepted(after_blank.0, assignment);
            let after_command = accepted(after_assignment.0, command);
            &&& after_blank.1 is None
            &&& after_assignment.1 is None
            &&& after_command.1 is None
            &&& after_command.0.error_occuring
        }),
    ensures
        ({
            let reason = accepted(
                accepted(accepted(before, blank).0, assignment).0,
                command,
            ).0.error_reason;
            let skipped = FeederState {
                remaining: Seq::empty(),
                error_occuring: false,
                error_reason: reason,
            };
            &&& dispatch(before, blank, assignment, command) == (
                skipped,
                None::<TopLevel<B, S, K>>,
                Some(reason),
            )
            &&& dispatch(skipped, blank_again, assignment_again, command_again) == (
                skipped,
                None::<TopLevel<B, S, K>>,
                None::<Seq<char>>,
            )
        }),
{
}

} // verus!
