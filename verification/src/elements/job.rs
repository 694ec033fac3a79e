//! A job: the pipelines of one statement, joined by `&&` and `||`.

use crate::elements::{accepted, Parse, Parsed};
use crate::feeder::scanner::{
    and_or_len, comment_len, lemma_prefix_of_one, lemma_span_end_is_maximal, scanner_blank,
    span_end, CharClass,
};
use crate::feeder::{Feeder, FeederState};
use vstd::prelude::*;
use vstd::string::*;

verus! {

/// One top-level unit of a script. `P` is the pipeline, whose grammar lies
/// outside this crate.
#[derive(Debug)]
pub struct Job<P> {
    /// The pipelines, in the order in which they run.
    pub pipelines: Vec<P>,
    /// The connector that follows each pipeline: `&&`, `||`, or the empty
    /// string after the last one.
    pub pipeline_ends: Vec<String>,
    /// The source text of the job, exactly as it was consumed.
    pub text: String,
}

/// The length of the blanks and the comment at the front of `text`.
pub open spec fn filler_len(text: Seq<char>) -> int {
    let blanks = span_end(text, 0, CharClass::Blank);
    blanks + comment_len(text.skip(blanks))
}

/// Whether a newline follows the blanks and the comment at the front of
/// `text`, so that they make up a whole line.
pub open spec fn is_blank_line(text: Seq<char>) -> bool {
    filler_len(text) < text.len() && text[filler_len(text)] == '\n'
}

/// What one attempt at a blank line consumes: the blanks, the comment, and
/// the newline if one follows.
pub open spec fn blank_line_len(text: Seq<char>) -> int {
    if is_blank_line(text) {
        filler_len(text) + 1
    } else {
        filler_len(text)
    }
}

/// What the attempts at blank lines consume until one meets no newline.
pub open spec fn blank_lines_len(text: Seq<char>) -> int
    decreases text.len(),
{
    if is_blank_line(text) && 0 <= filler_len(text) {
        blank_line_len(text) + blank_lines_len(text.skip(blank_line_len(text)))
    } else {
        blank_line_len(text)
    }
}

/// The blanks and the comment at the front of `text` lie inside `text`.
pub proof fn lemma_filler_fits(text: Seq<char>)
    ensures
        0 <= span_end(text, 0, CharClass::Blank) <= filler_len(text) <= text.len(),
        0 <= blank_line_len(text) <= text.len(),
{
    let blanks = span_end(text, 0, CharClass::Blank);
    lemma_span_end_is_maximal(text, 0, CharClass::Blank);
    lemma_span_end_is_maximal(text.skip(blanks), 0, CharClass::Outside(seq!['\n']));
}

/// The blank lines at the front of `text` lie inside `text`.
pub proof fn lemma_blank_lines_fit(text: Seq<char>)
    ensures
        0 <= blank_lines_len(text) <= text.len(),
    decreases text.len(),
{
    lemma_filler_fits(text);
    if is_blank_line(text) {
        lemma_blank_lines_fit(text.skip(blank_line_len(text)));
    }
}

/// How far the run of a job has come.
#[derive(Debug, Clone, Copy, PartialEq, Eq, Structural)]
pub enum JobStage {
    /// Nothing has run yet.
    Start,
    /// The pipeline with this index is being spawned.
    Spawning(usize),
    /// The processes of the pipeline with this index are being waited for.
    Waiting(usize),
    /// The run is over.
    Done,
}

/// What the runtime reports back to a job.
#[derive(Debug)]
pub enum JobEvent {
    /// The run begins.
    Begin,
    /// The pipeline was spawned; these are the identifiers of its
    /// processes.
    Spawned(Vec<i32>),
    /// All the processes waited for have exited.
    Exited,
}

/// What the runtime is to do next for a job.
#[derive(Debug)]
pub enum JobAction {
    /// Spawn the process chain of the pipeline with this index. Answer with
    /// [`JobEvent::Spawned`].
    Spawn(usize),
    /// Block until all these processes have exited. Answer with
    /// [`JobEvent::Exited`].
    Wait(Vec<i32>),
    /// Nothing more.
    Finish,
}

/// The stage and the action with which a job of `pipelines` pipelines turns
/// to the pipeline with index `index`: it is spawned, if there is one.
pub open spec fn turn_to(pipelines: nat, index: int) -> (JobStage, JobAction) {
    if 0 <= index < pipelines {
        (JobStage::Spawning(index as usize), JobAction::Spawn(index as usize))
    } else {
        (JobStage::Done, JobAction::Finish)
    }
}

/// One step in the run of a job of `pipelines` pipelines. The pipelines run
/// strictly one after the other: each is spawned, the processes it was
/// spawned as are waited for, and only then the next is turned to. An event
/// that the stage does not expect ends the run.
pub open spec fn job_step(pipelines: nat, stage: JobStage, event: JobEvent) -> (
    JobStage,
    JobAction,
) {
    match (stage, event) {
        (JobStage::Start, JobEvent::Begin) => turn_to(pipelines, 0),
        (JobStage::Spawning(index), JobEvent::Spawned(pids)) => if index < pipelines {
            (JobStage::Waiting(index), JobAction::Wait(pids))
        } else {
            (JobStage::Done, JobAction::Finish)
        },
        (JobStage::Waiting(index), JobEvent::Exited) => turn_to(pipelines, index + 1),
        _ => (JobStage::Done, JobAction::Finish),
    }
}

/// What contracts see of a job.
pub struct JobView<P> {
    pub pipelines: Seq<P>,
    pub connectors: Seq<Seq<char>>,
    pub text: Seq<char>,
}

impl<P> View for Job<P> {
    type V = JobView<P>;

    open spec fn view(&self) -> JobView<P> {
        JobView {
            pipelines: self.pipelines@,
            connectors: Seq::new(self.pipeline_ends@.len(), |i: int| self.pipeline_ends@[i]@),
            text: self.text@,
        }
    }
}

/// The job with no pipeline and no text.
pub open spec fn empty_job<P>() -> JobView<P> {
    JobView { pipelines: Seq::empty(), connectors: Seq::empty(), text: Seq::empty() }
}

/// The buffer and the job after the first `n` characters of the buffer have
/// moved to the end of the job's text.
pub open spec fn eaten<P>(buffer: FeederState, job: JobView<P>, n: int) -> (
    FeederState,
    JobView<P>,
) {
    (
        FeederState { remaining: buffer.remaining.skip(n), ..buffer },
        JobView { text: job.text + buffer.remaining.take(n), ..job },
    )
}

/// The buffer and the job after the blank lines at the front of the buffer
/// have moved into the job's text.
pub open spec fn blank_lines_eaten<P>(buffer: FeederState, job: JobView<P>) -> (
    FeederState,
    JobView<P>,
) {
    eaten(buffer, job, blank_lines_len(buffer.remaining))
}

/// The buffer and the job after the boolean connector at the front of the
/// buffer has moved into the job's text and has been recorded; where none
/// stands there, the empty string is recorded.
pub open spec fn and_or_eaten<P>(buffer: FeederState, job: JobView<P>) -> (
    FeederState,
    JobView<P>,
) {
    let n = and_or_len(buffer.remaining);
    let (after, written) = eaten(buffer, job, n);
    (after, JobView { connectors: job.connectors.push(buffer.remaining.take(n)), ..written })
}

/// The buffer and the job after a report on a pipeline, and whether the
/// pipeline was taken up: if so it has joined the job, and its source text
/// the job's text.
pub open spec fn pipeline_eaten<P>(buffer: FeederState, job: JobView<P>, report: Parsed<P>) -> (
    FeederState,
    JobView<P>,
    bool,
) {
    match accepted(buffer, report) {
        (after, Some((node, text))) => (
            after,
            JobView { pipelines: job.pipelines.push(node), text: job.text + text, ..job },
            true,
        ),
        (after, None) => (after, job, false),
    }
}

/// The rest of a job from the point at which a pipeline is due: the
/// pipeline, as the first of `reports` tells of it, then the connector, then
/// blank lines, and after a connector the same again with the reports that
/// are left. Where no report is left, no pipeline is found. Where a pipeline
/// is not taken up, there is no job.
pub open spec fn chained<P>(buffer: FeederState, job: JobView<P>, reports: Seq<Parsed<P>>) -> (
    FeederState,
    Option<JobView<P>>,
)
    decreases buffer.remaining.len(),
{
    let report = if reports.len() > 0 {
        reports[0]
    } else {
        Parsed::Absent
    };
    let (after_pipeline, with_pipeline, taken) = pipeline_eaten(buffer, job, report);
    let (after_and_or, with_and_or) = and_or_eaten(after_pipeline, with_pipeline);
    let (after_blanks, with_blanks) = blank_lines_eaten(after_and_or, with_and_or);
    if !taken {
        (after_pipeline, None)
    } else if and_or_len(after_pipeline.remaining) == 0 {
        (after_blanks, Some(with_blanks))
    } else {
        proof {
            lemma_blank_lines_fit(after_and_or.remaining);
        }
        chained(after_blanks, with_blanks, reports.drop_first())
    }
}

/// What parsing a job makes of the buffer, given what the pipeline
/// recogniser reports each time it is asked: blank lines, a pipeline, then
/// for as long as a boolean connector follows, the connector, blank lines
/// and another pipeline, and at the end blank lines again.
pub open spec fn parsed_job<P>(before: FeederState, reports: Seq<Parsed<P>>) -> (
    FeederState,
    Option<JobView<P>>,
) {
    let (buffer, job) = blank_lines_eaten(before, empty_job());
    chained(buffer, job, reports)
}

/// Whether `connectors` is what a parsed job records: one connector for
/// each of `pipelines` pipelines, `&&` or `||` after every pipeline but the
/// last, and the empty string after the last.
pub open spec fn well_connected(pipelines: nat, connectors: Seq<Seq<char>>) -> bool {
    &&& pipelines >= 1
    &&& connectors.len() == pipelines
    &&& connectors.last() == Seq::<char>::empty()
    &&& forall|i: int|
        0 <= i < connectors.len() - 1 ==> #[trigger] connectors[i] == seq!['&', '&']
            || connectors[i] == seq!['|', '|']
}

/// The view of a parse result.
pub open spec fn job_view<P>(found: Option<Job<P>>) -> Option<JobView<P>> {
    match found {
        Some(job) => Some(job@),
        None => None,
    }
}

impl<P> Job<P> {
    /// Takes the run of the job one step further: given the stage and the
    /// runtime's answer to the last action, returns the next stage and the
    /// next action.
    pub fn exec(&self, stage: JobStage, event: JobEvent) -> (next: (JobStage, JobAction))
        ensures
            next == job_step(self.pipelines@.len(), stage, event),
    {
        let count = self.pipelines.len();
        match (stage, event) {
            (JobStage::Start, JobEvent::Begin) => Self::turn(count, 0),
            (JobStage::Spawning(index), JobEvent::Spawned(pids)) => {
                if index < count {
                    (JobStage::Waiting(index), JobAction::Wait(pids))
                } else {
                    (JobStage::Done, JobAction::Finish)
                }
            },
            (JobStage::Waiting(index), JobEvent::Exited) => {
                if index < count {
                    Self::turn(count, index + 1)
                } else {
                    (JobStage::Done, JobAction::Finish)
                }
            },
            _ => (JobStage::Done, JobAction::Finish),
        }
    }

    /// Turns to the pipeline with index `index` among `count`.
    fn turn(count: usize, index: usize) -> (next: (JobStage, JobAction))
        ensures
            next == turn_to(count as nat, index as int),
    {
        if index < count {
            (JobStage::Spawning(index), JobAction::Spawn(index))
        } else {
            (JobStage::Done, JobAction::Finish)
        }
    }

    /// A job without pipelines and without text.
    pub fn new() -> (job: Job<P>)
        ensures
            job@ == empty_job::<P>(),
    {
        let job = Job { text: String::new(), pipelines: Vec::new(), pipeline_ends: Vec::new() };
        assert(job@.connectors =~= Seq::<Seq<char>>::empty());
        job
    }

    /// Consumes the blanks and the comment at the front of `feeder`, and
    /// the newline if one follows them, into the text of `ans`. Returns
    /// whether a newline was consumed.
    pub fn eat_blank_line(feeder: &mut Feeder, ans: &mut Job<P>) -> (more: bool)
        ensures
            more == is_blank_line(old(feeder)@),
            (final(feeder).state(), final(ans)@) == eaten(
                old(feeder).state(),
                old(ans)@,
                blank_line_len(old(feeder)@),
            ),
    {
        let ghost text = feeder@;
        proof {
            lemma_filler_fits(text);
            reveal_strlit("\n");
        }
        let num = scanner_blank(feeder, 0);
        let blanks = feeder.consume(num);
        ans.text.append(blanks.as_str());
        let com_num = feeder.scanner_comment();
        let comment = feeder.consume(com_num);
        ans.text.append(comment.as_str());
        assert(feeder@ =~= text.skip(filler_len(text)));
        assert(ans.text@ =~= old(ans).text@ + text.take(filler_len(text)));
        proof {
            lemma_prefix_of_one(feeder@, '\n');
        }
        if feeder.starts_with("\n") {
            let newline = feeder.consume(1);
            ans.text.append(newline.as_str());
            assert(feeder@ =~= text.skip(filler_len(text) + 1));
            assert(ans.text@ =~= old(ans).text@ + text.take(filler_len(text) + 1));
            true
        } else {
            false
        }
    }

    /// Consumes blank lines from the front of `feeder` into the text of
    /// `ans`, until an attempt meets no newline.
    pub fn eat_blank_lines(feeder: &mut Feeder, ans: &mut Job<P>)
        ensures
            (final(feeder).state(), final(ans)@) == blank_lines_eaten(
                old(feeder).state(),
                old(ans)@,
            ),
    {
        let ghost text = feeder@;
        let ghost mut gone: int = 0;
        assert(text.skip(0) =~= text);
        loop
            invariant_except_break
                blank_lines_len(text) == gone + blank_lines_len(text.skip(gone)),
            invariant
                text == old(feeder)@,
                0 <= gone <= text.len(),
                (feeder.state(), ans@) == eaten(old(feeder).state(), old(ans)@, gone),
            ensures
                gone == blank_lines_len(text),
            decreases feeder@.len(),
        {
            proof {
                lemma_filler_fits(feeder@);
            }
            let ghost line = blank_line_len(feeder@);
            let more = Self::eat_blank_line(feeder, ans);
            assert(feeder@ =~= text.skip(gone + line));
            assert(ans.text@ =~= old(ans).text@ + text.take(gone + line));
            proof {
                gone = gone + line;
            }
            if !more {
                break;
            }
        }
    }

    /// Takes up what the pipeline recogniser reported of the front of
    /// `feeder`. Returns whether a pipeline joined `ans`.
    pub fn take_pipeline(feeder: &mut Feeder, ans: &mut Job<P>, report: Parsed<P>) -> (taken:
        bool)
        ensures
            (final(feeder).state(), final(ans)@, taken) == pipeline_eaten(
                old(feeder).state(),
                old(ans)@,
                report,
            ),
    {
        match feeder.accept(report) {
            Some((pipeline, text)) => {
                ans.text.append(text.as_str());
                ans.pipelines.push(pipeline);
                true
            },
            None => false,
        }
    }

    /// Asks for a pipeline at the front of `feeder` and takes up the
    /// answer. Returns whether a pipeline joined `ans`.
    pub fn eat_pipeline<C>(feeder: &mut Feeder, ans: &mut Job<P>, core: &mut C) -> (taken:
        bool) where P: Parse<C>
        ensures
            exists|report: Parsed<P>|
                pipeline_eaten(old(feeder).state(), old(ans)@, report) == (
                    final(feeder).state(),
                    final(ans)@,
                    taken,
                ),
    {
        let report = P::parse(feeder, core);
        Self::take_pipeline(feeder, ans, report)
    }

    /// Consumes the boolean connector at the front of `feeder` and records
    /// it as the end of the last pipeline; where there is none, records the
    /// empty string. Returns whether there was one.
    pub fn eat_and_or(feeder: &mut Feeder, ans: &mut Job<P>) -> (more: bool)
        ensures
            more == (and_or_len(old(feeder)@) != 0),
            (final(feeder).state(), final(ans)@) == and_or_eaten(old(feeder).state(), old(ans)@),
    {
        let num = feeder.scanner_and_or();
        if num == 0 {
            ans.pipeline_ends.push(String::new());
            assert(feeder@.skip(0) =~= feeder@);
            assert(feeder@.take(0) =~= Seq::<char>::empty());
            assert(ans@.connectors =~= old(ans)@.connectors.push(feeder@.take(0)));
            return false;
        }
        let and_or = feeder.consume(num);
        ans.pipeline_ends.push(and_or.clone());
        ans.text.append(and_or.as_str());
        assert(ans@.connectors =~= old(ans)@.connectors.push(and_or@));
        true
    }

    /// Parses a job at the front of `feeder`: blank lines, a pipeline, then
    /// for as long as a boolean connector follows, the connector, blank
    /// lines and another pipeline, and at the end blank lines again.
    ///
    /// Where a pipeline is missing there is no job, and what was consumed
    /// stays consumed. The text of a job is exactly what was consumed for
    /// it, and a job records one connector for each of its pipelines.
    pub fn parse<C>(feeder: &mut Feeder, core: &mut C) -> (found: Option<Job<P>>) where
        P: Parse<C>,

        ensures
            exists|reports: Seq<Parsed<P>>|
                parsed_job(old(feeder).state(), reports) == (
                    final(feeder).state(),
                    job_view(found),
                ),
            found matches Some(job) ==> {
                &&& old(feeder)@ == job.text@ + final(feeder)@
                &&& well_connected(job.pipelines@.len(), job@.connectors)
            },
    {
        let ghost before = feeder.state();
        let ghost mut reports: Seq<Parsed<P>> = Seq::empty();
        let mut ans = Self::new();
        Self::eat_blank_lines(feeder, &mut ans);
        loop
            invariant
                before == old(feeder).state(),
                forall|rest: Seq<Parsed<P>>| #[trigger]
                    parsed_job(before, reports + rest) == chained(feeder.state(), ans@, rest),
            decreases feeder@.len(),
        {
            let ghost buffer = feeder.state();
            let ghost job = ans@;
            let taken = Self::eat_pipeline(feeder, &mut ans, core);
            let ghost report = choose|report: Parsed<P>|
                pipeline_eaten(buffer, job, report) == (feeder.state(), ans@, taken);
            if !taken {
                proof {
                    let earlier = reports;
                    reports = earlier.push(report);
                    assert(parsed_job(before, earlier + seq![report]) == chained(
                        buffer,
                        job,
                        seq![report],
                    ));
                }
                return None;
            }
            let more = Self::eat_and_or(feeder, &mut ans);
            let ghost after_and_or = feeder.state();
            Self::eat_blank_lines(feeder, &mut ans);
            proof {
                lemma_blank_lines_fit(after_and_or.remaining);
                let earlier = reports;
                reports = reports.push(report);
                assert forall|rest: Seq<Parsed<P>>| #[trigger]
                    parsed_job(before, reports + rest) == (if more {
                        chained(feeder.state(), ans@, rest)
                    } else {
                        (feeder.state(), Some(ans@))
                    }) by {
                    let all = seq![report] + rest;
                    assert(reports + rest =~= earlier + all);
                    assert(all.drop_first() =~= rest);
                }
            }
            if !more {
                proof {
                    assert(parsed_job(before, reports + Seq::<Parsed<P>>::empty()) == (
                        feeder.state(),
                        Some(ans@),
                    ));
                    lemma_parsed_job(before, reports);
                }
                return Some(ans);
            }
        }
    }
}

/// A chain of pipelines keeps every character: the text of the job and the
/// text left in the buffer make up what they made up before. And it leaves
/// the job well connected, if so far every pipeline but the one that is due
/// has its connector.
pub proof fn lemma_chained<P>(buffer: FeederState, job: JobView<P>, reports: Seq<Parsed<P>>)
    requires
        job.connectors.len() == job.pipelines.len(),
        forall|i: int|
            0 <= i < job.connectors.len() ==> #[trigger] job.connectors[i] == seq!['&', '&']
                || job.connectors[i] == seq!['|', '|'],
    ensures
        chained(buffer, job, reports).0.remaining.len() <= buffer.remaining.len(),
        chained(buffer, job, reports).1 matches Some(whole) ==> {
            &&& job.text + buffer.remaining == whole.text + chained(
                buffer,
                job,
                reports,
            ).0.remaining
            &&& well_connected(whole.pipelines.len(), whole.connectors)
        },
    decreases buffer.remaining.len(),
{
    let report = if reports.len() > 0 {
        reports[0]
    } else {
        Parsed::Absent
    };
    let (after_pipeline, with_pipeline, taken) = pipeline_eaten(buffer, job, report);
    let (after_and_or, with_and_or) = and_or_eaten(after_pipeline, with_pipeline);
    let (after_blanks, with_blanks) = blank_lines_eaten(after_and_or, with_and_or);
    if taken {
        let n = and_or_len(after_pipeline.remaining);
        let connector = after_pipeline.remaining.take(n);
        lemma_blank_lines_fit(after_and_or.remaining);
        if n == 0 {
            assert(connector =~= Seq::<char>::empty());
        } else {
            lemma_chained(after_blanks, with_blanks, reports.drop_first());
        }
    }
}

/// Round trip: the text of a parsed job is exactly the part of the input
/// that was consumed for it, so the job's text followed by what is left in
/// the buffer is the input. And a parsed job has at least one pipeline, and
/// records one connector for each: `&&` or `||`, and the empty string after
/// the last.
pub proof fn lemma_parsed_job<P>(before: FeederState, reports: Seq<Parsed<P>>)
    ensures
        parsed_job(before, reports).0.remaining.len() <= before.remaining.len(),
        parsed_job(before, reports).1 matches Some(job) ==> {
            &&& before.remaining == job.text + parsed_job(before, reports).0.remaining
            &&& well_connected(job.pipelines.len(), job.connectors)
        },
{
    let (buffer, job) = blank_lines_eaten(before, empty_job::<P>());
    lemma_blank_lines_fit(before.remaining);
    lemma_chained(buffer, job, reports);
}

/// How a runtime that does as it is asked answers an action, where the
/// pipeline with index `i` is spawned as the processes `pids[i]`.
pub open spec fn answered(action: JobAction, pids: Seq<Vec<i32>>) -> JobEvent {
    match action {
        JobAction::Spawn(index) => JobEvent::Spawned(pids[index as int]),
        JobAction::Wait(_) => JobEvent::Exited,
        JobAction::Finish => JobEvent::Begin,
    }
}

/// The stage and the action that a job of `pipelines` pipelines has come to
/// after `steps` answers of such a runtime.
pub open spec fn job_run(pipelines: nat, pids: Seq<Vec<i32>>, steps: nat) -> (JobStage, JobAction)
    decreases steps,
{
    if steps == 0 {
        job_step(pipelines, JobStage::Start, JobEvent::Begin)
    } else {
        let (stage, action) = job_run(pipelines, pids, (steps - 1) as nat);
        job_step(pipelines, stage, answered(action, pids))
    }
}

/// The pipelines of a job run strictly in sequence: the pipeline with index
/// `index` is spawned after exactly `2 * index` answers, that is after
/// every pipeline before it was spawned and waited for; the next answer
/// makes the job wait for the processes that it was spawned as; and the
/// answer after that turns to the pipeline that follows, or ends the run
/// after the last.
pub proof fn lemma_job_runs_in_sequence(pipelines: nat, pids: Seq<Vec<i32>>, index: nat)
    requires
        index < pipelines <= usize::MAX,
    ensures
        job_run(pipelines, pids, (2 * index) as nat) == (
            JobStage::Spawning(index as usize),
            JobAction::Spawn(index as usize),
        ),
        job_run(pipelines, pids, (2 * index + 1) as nat) == (
            JobStage::Waiting(index as usize),
            JobAction::Wait(pids[index as int]),
        ),
        job_run(pipelines, pids, (2 * index + 2) as nat) == turn_to(pipelines, (index + 1) as int),
    decreases index,
{
    if index > 0 {
        lemma_job_runs_in_sequence(pipelines, pids, (index - 1) as nat);
    }
    assert(job_run(pipelines, pids, (2 * index + 1) as nat) == job_step(
        pipelines,
        job_run(pipelines, pids, (2 * index) as nat).0,
        answered(job_run(pipelines, pids, (2 * index) as nat).1, pids),
    ));
    assert(job_run(pipelines, pids, (2 * index + 2) as nat) == job_step(
        pipelines,
        job_run(pipelines, pids, (2 * index + 1) as nat).0,
        answered(job_run(pipelines, pids, (2 * index + 1) as nat).1, pids),
    ));
}

} // verus!
