//! Command substitution: `$(` ... `)`, replaced at evaluation time by what
//! the enclosed command writes to its output.
//!
//! Spawning, reading, sleeping and waiting are the runtime's work. What to
//! do next is decided here: the runtime carries out each [`Request`] and
//! hands back the [`Reply`].

use crate::elements::{accepted, Parse, Parsed};
use crate::feeder::{Feeder, FeederState};
use std::io::Error;
use vstd::prelude::*;
use vstd::string::*;

verus! {

/// `std::io::Error`: why a read failed. Nothing is known of its contents
/// here; it is only told apart from a line that was read.
#[verifier::external_type_specification]
#[verifier::external_body]
pub struct ExError(std::io::Error);

/// The exit status of a command that an interrupt ended.
pub const SIGINT_STATUS: i32 = 130;

/// The interrupt flag is looked at once in this many lines.
pub const POLL_INTERVAL: usize = 100;

/// How long to wait before the interrupt flag is looked at, so that a
/// pending signal can land first.
pub const POLL_PAUSE_MILLIS: u64 = 1;

/// How long to wait after the command was found interrupted, before the
/// failure is reported.
pub const SETTLE_PAUSE_MILLIS: u64 = 200;

/// `$(` ... `)` with the command tree `K` between the parentheses.
#[derive(Debug, Clone)]
pub struct CommandSubstitution<K> {
    /// The source text, `$(` and `)` included; after an evaluation, the
    /// captured output.
    pub text: String,
    /// The enclosed command, once it has been parsed.
    pub command: Option<K>,
}

/// How far an evaluation has come.
#[derive(Debug, Clone, Copy, PartialEq, Eq, Structural)]
pub enum Stage {
    /// The command is being spawned.
    Spawning,
    /// The output of process `pid` is being read; `count` lines were taken.
    Reading { pid: i32, count: usize },
    /// The process is being waited for; `read_ok` tells how reading ended.
    Waiting { read_ok: bool },
    /// The command was interrupted; the pause before the report is running.
    Settling,
    /// The evaluation is over.
    Done,
}

/// What the runtime is to do next.
#[derive(Debug, Clone, Copy, PartialEq, Eq, Structural)]
pub enum Request {
    /// Allocate a pipe, make its write end the output of the enclosed
    /// command and spawn the command into process group `pgid`. Answer with
    /// [`Reply::Spawned`].
    Spawn { pgid: i32 },
    /// Read the next line from the pipe. With `poll` set and a line read,
    /// pause for that many milliseconds and load the interrupt flag then.
    /// Answer with [`Reply::Line`].
    ReadLine { poll: Option<u64> },
    /// Block until process `pid` has exited and the shell's last exit
    /// status is updated. Answer with [`Reply::Exited`].
    Wait { pid: i32 },
    /// Sleep for `millis` milliseconds. Answer with [`Reply::Paused`].
    Pause { millis: u64 },
    /// Nothing more: the substitution succeeded or failed.
    Finish { ok: bool },
}

/// What the runtime reports back.
#[derive(Debug)]
pub enum Reply {
    /// The command runs as process `pid`.
    Spawned { pid: i32 },
    /// What reading gave: a line without its newline, a failure, or nothing
    /// at the end of the output; and the interrupt flag, if it was asked
    /// for.
    Line { line: Option<Result<String, Error>>, interrupted: bool },
    /// The process has exited; `status` is the shell's last exit status.
    Exited { status: i32 },
    /// The pause is over.
    Paused,
}

/// Whether the interrupt flag is looked at with the line that is read after
/// `count` lines.
pub open spec fn poll_due(count: int) -> bool {
    count % (POLL_INTERVAL as int) == POLL_INTERVAL - 1
}

/// The count that follows `count`. Counting starts over after the interval,
/// so a count never overflows.
pub open spec fn next_count(count: usize) -> usize {
    ((count + 1) % (POLL_INTERVAL as int)) as usize
}

/// The request for the line that is read after `count` lines.
pub open spec fn read_request(count: int) -> Request {
    Request::ReadLine {
        poll: if poll_due(count) {
            Some(POLL_PAUSE_MILLIS)
        } else {
            None
        },
    }
}

/// The captured text without its last character, if it has one.
pub open spec fn without_last(text: Seq<char>) -> Seq<char> {
    if text.len() > 0 {
        text.drop_last()
    } else {
        text
    }
}

/// One step of an evaluation: from the captured text, the stage and the
/// runtime's reply to the captured text, the stage and the request that
/// follow.
///
/// Once the command is spawned the captured text starts empty. Each line
/// read is appended with a newline. With the line after every 99 further
/// lines the interrupt flag is consulted first, and a set flag ends the
/// reading as a failure, as a failed read does. At the end of the output
/// the last character, the newline of the last line, is dropped. Then the
/// process is waited for. An exit status of 130 makes the evaluation fail
/// after a pause; otherwise it succeeds if reading did. A reply that the
/// stage does not expect ends the evaluation as a failure.
pub open spec fn capture_step(text: Seq<char>, stage: Stage, reply: Reply) -> (
    Seq<char>,
    Stage,
    Request,
) {
    match (stage, reply) {
        (Stage::Spawning, Reply::Spawned { pid }) => (
            Seq::empty(),
            Stage::Reading { pid, count: 0 },
            read_request(0),
        ),
        (Stage::Reading { pid, count }, Reply::Line { line: None, interrupted }) => (
            without_last(text),
            Stage::Waiting { read_ok: true },
            Request::Wait { pid },
        ),
        (Stage::Reading { pid, count }, Reply::Line { line: Some(line), interrupted }) => {
            if poll_due(count as int) && interrupted {
                (text, Stage::Waiting { read_ok: false }, Request::Wait { pid })
            } else {
                match line {
                    Ok(line) => (
                        text + line@ + seq!['\n'],
                        Stage::Reading { pid, count: next_count(count) },
                        read_request(next_count(count) as int),
                    ),
                    Err(_) => (text, Stage::Waiting { read_ok: false }, Request::Wait { pid }),
                }
            }
        },
        (Stage::Waiting { read_ok }, Reply::Exited { status }) => {
            if status == SIGINT_STATUS {
                (text, Stage::Settling, Request::Pause { millis: SETTLE_PAUSE_MILLIS })
            } else {
                (text, Stage::Done, Request::Finish { ok: read_ok })
            }
        },
        (Stage::Settling, Reply::Paused) => (text, Stage::Done, Request::Finish { ok: false }),
        _ => (text, Stage::Done, Request::Finish { ok: false }),
    }
}

/// What parsing a substitution makes of the buffer and of the report on the
/// parenthesised command. Without `$(` at the front nothing is parsed and
/// nothing consumed. Otherwise `$` is consumed, and the command is
/// recognised on what follows; where it is taken up, the substitution holds
/// it, and its text is everything consumed.
pub open spec fn parsed_substitution<K>(before: FeederState, report: Parsed<K>) -> (
    FeederState,
    Option<(Seq<char>, K)>,
) {
    if !seq!['$', '('].is_prefix_of(before.remaining) {
        (before, None)
    } else {
        let opened = FeederState { remaining: before.remaining.skip(1), ..before };
        match accepted(opened, report) {
            (after, Some((node, body))) => (after, Some((seq!['$'] + body, node))),
            (after, None) => (after, None),
        }
    }
}

/// The process group of this process.
///
/// Calls `nix::unistd::getpgrp`. The result depends on how the process was
/// started, so nothing is claimed of it.
#[verifier::external_body]
fn process_group() -> i32 {
    nix::unistd::getpgrp().as_raw()
}

impl<K> CommandSubstitution<K> {
    /// A substitution without text and without a command.
    pub fn new() -> (sub: Self)
        ensures
            sub.text@ == Seq::<char>::empty(),
            sub.command is None,
    {
        CommandSubstitution { text: String::new(), command: None }
    }

    /// The text of the substitution.
    pub fn get_text(&self) -> (text: &str)
        ensures
            text@ == self.text@,
    {
        self.text.as_str()
    }

    /// Empties the text.
    pub fn clear(&mut self)
        ensures
            final(self).text@ == Seq::<char>::empty(),
            final(self).command == old(self).command,
    {
        self.text = String::new();
    }

    /// The substitution and its text, as contracts see a parse result.
    pub open spec fn parts(found: Option<Self>) -> Option<(Seq<char>, K)> {
        match found {
            Some(sub) => match sub.command {
                Some(node) => Some((sub.text@, node)),
                None => None,
            },
            None => None,
        }
    }

    /// Parses a substitution at the front of `feeder`. On failure there is
    /// no result, and what was consumed stays consumed.
    pub fn parse<C>(feeder: &mut Feeder, core: &mut C) -> (found: Option<Self>) where
        K: Parse<C>,

        ensures
            found matches Some(sub) ==> sub.command is Some,
            exists|report: Parsed<K>|
                parsed_substitution(old(feeder).state(), report) == (
                    final(feeder).state(),
                    Self::parts(found),
                ),
    {
        let ghost before = feeder.state();
        proof {
            reveal_strlit("$(");
            assert("$("@ =~= seq!['$', '(']);
        }
        if !feeder.starts_with("$(") {
            assert(parsed_substitution(before, Parsed::<K>::Absent) == (
                before,
                None::<(Seq<char>, K)>,
            ));
            return None;
        }
        let mut ans = CommandSubstitution::new();
        ans.text = feeder.consume(1);
        let report = K::parse(feeder, core);
        let ghost reported = report;
        if let Some((pc, body)) = feeder.accept(report) {
            ans.text.append(body.as_str());
            ans.command = Some(pc);
            assert(parsed_substitution(before, reported) == (
                feeder.state(),
                Self::parts(Some(ans)),
            ));
            Some(ans)
        } else {
            None
        }
    }

    /// Starts the evaluation of the substitution in process group `pgid`.
    /// Without a parsed command nothing is attempted.
    pub fn substitution_in(&self, pgid: i32) -> (next: (Stage, Request))
        ensures
            self.command is None ==> next == (Stage::Done, Request::Finish { ok: false }),
            self.command is Some ==> next == (Stage::Spawning, Request::Spawn { pgid }),
    {
        match self.command {
            Some(_) => (Stage::Spawning, Request::Spawn { pgid }),
            _ => (Stage::Done, Request::Finish { ok: false }),
        }
    }

    /// Starts the evaluation of the substitution in the process group of
    /// this process. Without a parsed command nothing is attempted.
    pub fn substitution(&self) -> (next: (Stage, Request))
        ensures
            self.command is None ==> next == (Stage::Done, Request::Finish { ok: false }),
            self.command is Some ==> next.0 == Stage::Spawning && next.1 is Spawn,
    {
        self.substitution_in(process_group())
    }

    /// Whether the reading is to stop for an interrupt at the line read
    /// after `count` lines, given the interrupt flag.
    pub fn interrupted(count: usize, flag: bool) -> (stop: bool)
        ensures
            stop == (poll_due(count as int) && flag),
    {
        count % POLL_INTERVAL == POLL_INTERVAL - 1 && flag
    }

    /// Appends a line that was read, with its newline, to the captured
    /// text. Returns false, and appends nothing, where the read had failed.
    pub fn set_line(&mut self, line: Result<String, Error>) -> (ok: bool)
        ensures
            final(self).command == old(self).command,
            match line {
                Ok(ln) => ok && final(self).text@ == old(self).text@ + ln@ + seq!['\n'],
                Err(_) => !ok && final(self).text@ == old(self).text@,
            },
    {
        match line {
            Ok(ln) => {
                proof {
                    reveal_strlit("\n");
                }
                self.text.append(ln.as_str());
                self.text.append("\n");
                true
            },
            Err(_) => false,
        }
    }

    /// Takes in what one read gave while process `pid` is being read after
    /// `count` lines.
    fn read(
        &mut self,
        pid: i32,
        count: usize,
        line: Option<Result<String, Error>>,
        interrupted: bool,
    ) -> (next: (Stage, Request))
        ensures
            final(self).command == old(self).command,
            (final(self).text@, next.0, next.1) == capture_step(
                old(self).text@,
                Stage::Reading { pid, count },
                Reply::Line { line, interrupted },
            ),
    {
        match line {
            None => {
                let len = self.text.as_str().unicode_len();
                if len > 0 {
                    self.text = String::from_str(self.text.as_str().substring_char(0, len - 1));
                }
                (Stage::Waiting { read_ok: true }, Request::Wait { pid })
            },
            Some(line) => {
                if Self::interrupted(count, interrupted) || !self.set_line(line) {
                    (Stage::Waiting { read_ok: false }, Request::Wait { pid })
                } else {
                    let taken = if count % POLL_INTERVAL == POLL_INTERVAL - 1 {
                        0
                    } else {
                        count % POLL_INTERVAL + 1
                    };
                    (Stage::Reading { pid, count: taken }, Self::request_line(taken))
                }
            },
        }
    }

    /// The request for the line that is read after `count` lines.
    fn request_line(count: usize) -> (request: Request)
        ensures
            request == read_request(count as int),
    {
        if count % POLL_INTERVAL == POLL_INTERVAL - 1 {
            Request::ReadLine { poll: Some(POLL_PAUSE_MILLIS) }
        } else {
            Request::ReadLine { poll: None }
        }
    }

    /// Takes the evaluation one step further: given the stage and the
    /// runtime's reply to the last request, updates the captured text and
    /// returns the next stage and the next request.
    pub fn exec(&mut self, stage: Stage, reply: Reply) -> (next: (Stage, Request))
        ensures
            final(self).command == old(self).command,
            (final(self).text@, next.0, next.1) == capture_step(old(self).text@, stage, reply),
    {
        match (stage, reply) {
            (Stage::Spawning, Reply::Spawned { pid }) => {
                self.clear();
                (Stage::Reading { pid, count: 0 }, Self::request_line(0))
            },
            (Stage::Reading { pid, count }, Reply::Line { line, interrupted }) => self.read(
                pid,
                count,
                line,
                interrupted,
            ),
            (Stage::Waiting { read_ok }, Reply::Exited { status }) => {
                if status == SIGINT_STATUS {
                    (Stage::Settling, Request::Pause { millis: SETTLE_PAUSE_MILLIS })
                } else {
                    (Stage::Done, Request::Finish { ok: read_ok })
                }
            },
            (Stage::Settling, Reply::Paused) => (Stage::Done, Request::Finish { ok: false }),
            _ => (Stage::Done, Request::Finish { ok: false }),
        }
    }
}

/// An interrupt that is seen while the output is read makes the evaluation
/// fail, whatever line had been read with it and whatever exit status the
/// process ends with: the reading stops, the process is waited for, and
/// the request that ends the evaluation, directly or after the pause,
/// reports failure.
pub proof fn lemma_interrupt_means_failure(
    text: Seq<char>,
    pid: i32,
    count: usize,
    line: Result<String, Error>,
    status: i32,
)
    requires
        poll_due(count as int),
    ensures
        ({
            let seen = capture_step(
                text,
                Stage::Reading { pid, count },
                Reply::Line { line: Some(line), interrupted: true },
            );
            let exited = capture_step(seen.0, seen.1, Reply::Exited { status });
            let settled = capture_step(exited.0, exited.1, Reply::Paused);
            &&& seen == (text, Stage::Waiting { read_ok: false }, Request::Wait { pid })
            &&& exited.2 == Request::Finish { ok: false } || (exited.2 == Request::Pause {
                millis: SETTLE_PAUSE_MILLIS,
            } && settled.2 == Request::Finish { ok: false })
        }),
{
}

/// An exit status of 130 makes the evaluation fail however the reading
/// ended: a pause is requested, and after it failure is reported.
pub proof fn lemma_sigint_status_means_failure(text: Seq<char>, read_ok: bool)
    ensures
        ({
            let exited = capture_step(
                text,
                Stage::Waiting { read_ok },
                Reply::Exited { status: SIGINT_STATUS },
            );
            let settled = capture_step(exited.0, exited.1, Reply::Paused);
            &&& exited == (text, Stage::Settling, Request::Pause { millis: SETTLE_PAUSE_MILLIS })
            &&& settled == (text, Stage::Done, Request::Finish { ok: false })
        }),
{
}

/// The lines of an output, each followed by a newline.
pub open spec fn joined(lines: Seq<String>) -> Seq<char>
    decreases lines.len(),
{
    if lines.len() == 0 {
        Seq::empty()
    } else {
        joined(lines.drop_last()) + lines.last()@ + seq!['\n']
    }
}

/// Where an evaluation stands after the command was spawned as process
/// `pid` and the first `taken` of `lines` were read, line `i` together
/// with the interrupt flag `flags[i]`.
pub open spec fn after_lines(
    text: Seq<char>,
    pid: i32,
    lines: Seq<String>,
    flags: Seq<bool>,
    taken: nat,
) -> (Seq<char>, Stage, Request)
    decreases taken,
{
    if taken == 0 {
        capture_step(text, Stage::Spawning, Reply::Spawned { pid })
    } else {
        let before = after_lines(text, pid, lines, flags, (taken - 1) as nat);
        capture_step(
            before.0,
            before.1,
            Reply::Line { line: Some(Ok(lines[taken - 1])), interrupted: flags[taken - 1] },
        )
    }
}

/// As long as no interrupt is seen, the captured text is the lines read so
/// far, each with its newline, whatever the text was before; the reading
/// goes on; and the flag is asked for with every hundredth line. A flag
/// that is set with a line at which it is not consulted changes nothing.
pub proof fn lemma_lines_are_captured(
    text: Seq<char>,
    pid: i32,
    lines: Seq<String>,
    flags: Seq<bool>,
    taken: nat,
)
    requires
        taken <= lines.len() == flags.len(),
        forall|i: int| 0 <= i < taken && poll_due(i) ==> !flags[i],
    ensures
        after_lines(text, pid, lines, flags, taken) == (
            joined(lines.take(taken as int)),
            Stage::Reading { pid, count: (taken % POLL_INTERVAL as nat) as usize },
            read_request(taken as int),
        ),
    decreases taken,
{
    if taken == 0 {
        assert(lines.take(0) =~= Seq::<String>::empty());
    } else {
        lemma_lines_are_captured(text, pid, lines, flags, (taken - 1) as nat);
        assert(lines.take(taken as int).drop_last() =~= lines.take(taken - 1));
    }
}

/// An evaluation that is not interrupted captures the whole output without
/// its last newline, and succeeds: after all `lines` were read with no
/// interrupt seen, the output ended and the process exited with a status
/// other than 130, the text is the lines joined by newlines and success is
/// reported.
pub proof fn lemma_output_is_captured(
    text: Seq<char>,
    pid: i32,
    lines: Seq<String>,
    flags: Seq<bool>,
    flag_at_end: bool,
    status: i32,
)
    requires
        lines.len() == flags.len(),
        forall|i: int| 0 <= i < lines.len() && poll_due(i) ==> !flags[i],
        status != SIGINT_STATUS,
    ensures
        ({
            let read = after_lines(text, pid, lines, flags, lines.len());
            let ended = capture_step(
                read.0,
                read.1,
                Reply::Line { line: None, interrupted: flag_at_end },
            );
            let exited = capture_step(ended.0, ended.1, Reply::Exited { status });
            &&& ended == (
                without_last(joined(lines)),
                Stage::Waiting { read_ok: true },
                Request::Wait { pid },
            )
            &&& exited == (without_last(joined(lines)), Stage::Done, Request::Finish { ok: true })
        }),
{
    lemma_lines_are_captured(text, pid, lines, flags, lines.len());
    assert(lines.take(lines.len() as int) =~= lines);
}

} // verus!
