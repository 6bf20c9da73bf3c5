//! The coordinator of one job: which step follows which.
//!
//! A job probes the source, extracts its frames, interpolates them, assembles
//! the result and clears the working directories. Each step runs outside this
//! library. The coordinator is told how a step ended and answers with the next
//! one; after a failure it answers with nothing more, so that what the failed
//! step left behind stays in place.

use crate::framework::{engine_installed, framework_named, mux_rate_of, Framework};
use crate::planner::{calculate_frame_count, planned};
use crate::probe::{CountError, RateError};
use crate::rate::{decimal_written, default_target_rate, representable, Decimal, FrameRate};
use crate::text::texts;
use vstd::prelude::*;
use vstd::string::*;
use vstd::utf8::encode_utf8;

verus! {

/// How far a job has come.
#[derive(Clone, Copy, Debug, PartialEq, Eq, Structural)]
pub enum Phase {
    /// Nothing has run yet.
    Ready,
    /// The caller looks whether the engine is installed.
    CheckingEngine,
    /// The engine is being downloaded and unpacked.
    Installing,
    /// The source's frame rate is being probed.
    Probing,
    /// The source's frames are being counted.
    Counting,
    /// The source's frames are being extracted.
    Extracting,
    /// The engine renders the new frames.
    Interpolating,
    /// The new frames are being assembled into the output video.
    Assembling,
    /// The working directories are being removed.
    Cleaning,
    /// The job is done and its working directories are gone.
    Finished,
    /// A step failed; the working directories are left as they were.
    Failed,
}

/// Why a job failed.
#[derive(Clone, Copy, Debug, PartialEq, Eq, Structural)]
pub enum Failure {
    /// The engine could not be installed.
    Install,
    /// The probe's output gave no frame rate.
    Probe(RateError),
    /// The source's frame rate is zero, or was never found out.
    ZeroFrameRate,
    /// A program of the toolkit, or the engine, could not be started.
    ToolMissing,
    /// The rate for the assembled video is beyond what a frame rate holds.
    RateOutOfRange,
    /// The counting run's output gave no frame count.
    Count(CountError),
    /// The extraction failed.
    Extraction,
    /// The engine failed.
    Interpolation,
    /// The assembly failed.
    Assembly,
}

/// How a step ended, as the caller reports it.
#[derive(Clone, Copy, Debug, PartialEq, Eq)]
pub enum PipelineEvent {
    /// The caller is ready to run the job.
    Begin,
    /// The engine's directory was looked at: `entries` is the number of its
    /// entries, or `None` where it does not exist.
    EngineChecked { entries: Option<usize> },
    /// The installer ended.
    Installed { success: bool },
    /// The probe ran and its output was read.
    Probed { rate: Result<FrameRate, RateError> },
    /// The counting run ended and its output was read.
    Counted { total: Result<usize, CountError> },
    /// The extraction ended; `frames` is the number of frames it left.
    Extracted { success: bool, frames: usize },
    /// The engine ended.
    Interpolated { success: bool },
    /// The assembly ended.
    Assembled { success: bool },
    /// The working directories were removed.
    Cleaned,
    /// The program that the running step needs could not be started.
    ToolMissing,
}

/// What the caller does next.
#[derive(Clone, Copy, Debug, PartialEq, Eq)]
pub enum PipelineAction {
    /// Count the entries of the engine's directory, if it exists.
    CheckEngine,
    /// Download and unpack the engine.
    Install,
    /// Probe the source for its frame rate.
    Probe,
    /// Count the source's frames.
    Count,
    /// Extract the source's frames, watching for `expected` of them.
    Extract { expected: usize },
    /// Run the engine, watching for `frames` new frames.
    Interpolate { frames: u32 },
    /// Assemble the new frames into a video at `rate`.
    Assemble { rate: FrameRate },
    /// Remove both working directories.
    CleanUp,
    /// The job is done.
    Finish,
    /// Stop, and leave the working directories as they are.
    Abort { failure: Failure },
    /// The event does not belong to the step that is running; nothing changes.
    Ignore,
}

/// One job: what was asked for, what was found out so far, how far it has come.
#[derive(Debug, PartialEq, Eq)]
pub struct Job {
    /// The video to read.
    pub input: String,
    /// The video to write.
    pub output: String,
    /// The engine to use.
    pub framework: Framework,
    /// The rate asked for; DAIN renders to it, RIFE does not look at it.
    pub target_rate: FrameRate,
    /// The source's frame rate, once probed.
    pub source_rate: Option<FrameRate>,
    /// The rate of the video to assemble, once the source's rate is known.
    pub mux_rate: Option<FrameRate>,
    /// The number of the source's frames, once extracted.
    pub source_frames: Option<usize>,
    /// The number of frames to render, once planned.
    pub target_frames: Option<u32>,
    /// How far the job has come.
    pub phase: Phase,
}

/// Why the command line asks for no job.
#[derive(Clone, Copy, Debug, PartialEq, Eq, Structural)]
pub enum UsageError {
    /// Fewer than the program's name and three arguments.
    TooFewArguments,
    /// The fourth argument writes no frame rate.
    BadTargetRate,
    /// The third argument names no engine.
    UnknownFramework,
}

/// What a command line asks for.
pub struct Request {
    pub input: Seq<char>,
    pub output: Seq<char>,
    pub framework: Framework,
    pub target: Decimal,
}

/// The target rate that a command line asks for: what its fourth argument
/// writes, or `60.0` where it has none. `None` where the argument writes no
/// rate that a frame rate can hold.
pub open spec fn requested_rate(args: Seq<Seq<char>>) -> Option<Decimal> {
    if args.len() <= 4 {
        Some(default_target_rate())
    } else {
        match decimal_written(encode_utf8(args[4])) {
            Some(d) => if representable(d) {
                Some(d)
            } else {
                None
            },
            None => None,
        }
    }
}

/// What the command line `<program> <input> <output> <framework> [<rate>]`
/// asks for. Arguments behind the rate are not looked at.
pub open spec fn requested(args: Seq<Seq<char>>) -> Result<Request, UsageError> {
    if args.len() < 4 {
        Err(UsageError::TooFewArguments)
    } else {
        match requested_rate(args) {
            None => Err(UsageError::BadTargetRate),
            Some(target) => match framework_named(args[3]) {
                None => Err(UsageError::UnknownFramework),
                Some(framework) => Ok(
                    Request { input: args[1], output: args[2], framework, target },
                ),
            },
        }
    }
}

/// Whether `job` is the job that `request` asks for, before it has begun.
pub open spec fn begins(job: Job, request: Request) -> bool {
    &&& job.input@ == request.input
    &&& job.output@ == request.output
    &&& job.framework == request.framework
    &&& job.target_rate@ == request.target
    &&& job.source_rate is None
    &&& job.mux_rate is None
    &&& job.source_frames is None
    &&& job.target_frames is None
    &&& job.phase == Phase::Ready
}

/// The job after a failed step, and the action that reports it.
pub open spec fn failed(job: Job, failure: Failure) -> (Job, PipelineAction) {
    (Job { phase: Phase::Failed, ..job }, PipelineAction::Abort { failure })
}

/// The job after a probe that read `rate`.
pub open spec fn probed(job: Job, rate: FrameRate) -> (Job, PipelineAction) {
    if rate@.mantissa == 0 {
        failed(job, Failure::ZeroFrameRate)
    } else {
        match mux_rate_of(job.framework, rate, job.target_rate) {
            None => failed(job, Failure::RateOutOfRange),
            Some(mux) => (
                Job {
                    source_rate: Some(rate),
                    mux_rate: Some(mux),
                    phase: Phase::Counting,
                    ..job
                },
                PipelineAction::Count,
            ),
        }
    }
}

/// The job after an extraction that left `frames` frames.
pub open spec fn extracted(job: Job, frames: usize) -> (Job, PipelineAction) {
    match job.source_rate {
        None => failed(job, Failure::ZeroFrameRate),
        Some(rate) => {
            let count = planned(rate@, frames as nat, job.target_rate@, job.framework);
            (
                Job {
                    source_frames: Some(frames),
                    target_frames: Some(count),
                    phase: Phase::Interpolating,
                    ..job
                },
                PipelineAction::Interpolate { frames: count },
            )
        },
    }
}

/// The job after the engine ended well.
pub open spec fn interpolated(job: Job) -> (Job, PipelineAction) {
    match job.mux_rate {
        None => failed(job, Failure::RateOutOfRange),
        Some(rate) => (Job { phase: Phase::Assembling, ..job }, PipelineAction::Assemble { rate }),
    }
}

/// Whether a step runs a program of the toolkit or the engine.
pub open spec fn runs_tool(phase: Phase) -> bool {
    phase == Phase::Probing || phase == Phase::Counting || phase == Phase::Extracting || phase
        == Phase::Interpolating || phase == Phase::Assembling
}

/// The job after one event, and the action that answers it. Each step is
/// entered only from the one before it, and only when that one ended well.
pub open spec fn next(job: Job, event: PipelineEvent) -> (Job, PipelineAction) {
    match (job.phase, event) {
        (_, PipelineEvent::ToolMissing) => if runs_tool(job.phase) {
            failed(job, Failure::ToolMissing)
        } else {
            (job, PipelineAction::Ignore)
        },
        (Phase::Ready, PipelineEvent::Begin) => (
            Job { phase: Phase::CheckingEngine, ..job },
            PipelineAction::CheckEngine,
        ),
        (Phase::CheckingEngine, PipelineEvent::EngineChecked { entries }) => if entries is Some
            && entries->0 > 0 {
            (Job { phase: Phase::Probing, ..job }, PipelineAction::Probe)
        } else {
            (Job { phase: Phase::Installing, ..job }, PipelineAction::Install)
        },
        (Phase::Installing, PipelineEvent::Installed { success }) => if success {
            (Job { phase: Phase::Probing, ..job }, PipelineAction::Probe)
        } else {
            failed(job, Failure::Install)
        },
        (Phase::Probing, PipelineEvent::Probed { rate }) => match rate {
            Ok(rate) => probed(job, rate),
            Err(e) => failed(job, Failure::Probe(e)),
        },
        (Phase::Counting, PipelineEvent::Counted { total }) => match total {
            Ok(expected) => (
                Job { phase: Phase::Extracting, ..job },
                PipelineAction::Extract { expected },
            ),
            Err(e) => failed(job, Failure::Count(e)),
        },
        (Phase::Extracting, PipelineEvent::Extracted { success, frames }) => if success {
            extracted(job, frames)
        } else {
            failed(job, Failure::Extraction)
        },
        (Phase::Interpolating, PipelineEvent::Interpolated { success }) => if success {
            interpolated(job)
        } else {
            failed(job, Failure::Interpolation)
        },
        (Phase::Assembling, PipelineEvent::Assembled { success }) => if success {
            (Job { phase: Phase::Cleaning, ..job }, PipelineAction::CleanUp)
        } else {
            failed(job, Failure::Assembly)
        },
        (Phase::Cleaning, PipelineEvent::Cleaned) => (
            Job { phase: Phase::Finished, ..job },
            PipelineAction::Finish,
        ),
        _ => (job, PipelineAction::Ignore),
    }
}

/// The job after a sequence of events, taken in order.
pub open spec fn end(job: Job, events: Seq<PipelineEvent>) -> Job
    decreases events.len(),
{
    if events.len() == 0 {
        job
    } else {
        end(next(job, events[0]).0, events.drop_first())
    }
}

/// The actions that answer a sequence of events, one for each.
pub open spec fn answers(job: Job, events: Seq<PipelineEvent>) -> Seq<PipelineAction>
    decreases events.len(),
{
    if events.len() == 0 {
        Seq::empty()
    } else {
        seq![next(job, events[0]).1] + answers(next(job, events[0]).0, events.drop_first())
    }
}

/// Whether the working directories are removed among `actions`.
pub open spec fn cleans_up(actions: Seq<PipelineAction>) -> bool {
    exists|i: int| 0 <= i < actions.len() && actions[i] is CleanUp
}

/// Whether the job is given up among `actions`.
pub open spec fn gives_up(actions: Seq<PipelineAction>) -> bool {
    exists|i: int| 0 <= i < actions.len() && actions[i] is Abort
}

/// A phase in which the working directories are to be removed, or are gone.
pub open spec fn cleared(phase: Phase) -> bool {
    phase == Phase::Cleaning || phase == Phase::Finished
}

/// What a job in the given phase has found out, and what not yet: the
/// source's rate and the rate to assemble at from the counting on, the two
/// frame counts from the interpolation on. A failed job keeps what it had.
pub open spec fn consistent(job: Job) -> bool {
    let measured = job.source_rate is Some && job.mux_rate is Some;
    let unmeasured = job.source_rate is None && job.mux_rate is None;
    let planned = job.source_frames is Some && job.target_frames is Some;
    let unplanned = job.source_frames is None && job.target_frames is None;
    match job.phase {
        Phase::Ready | Phase::CheckingEngine | Phase::Installing | Phase::Probing => unmeasured
            && unplanned,
        Phase::Counting | Phase::Extracting => measured && unplanned,
        Phase::Interpolating | Phase::Assembling | Phase::Cleaning | Phase::Finished => measured
            && planned,
        Phase::Failed => true,
    }
}

impl Job {
    /// A job that has not begun.
    pub fn new(input: String, output: String, framework: Framework, target_rate: FrameRate) -> (job:
        Job)
        ensures
            job == (Job {
                input,
                output,
                framework,
                target_rate,
                source_rate: None,
                mux_rate: None,
                source_frames: None,
                target_frames: None,
                phase: Phase::Ready,
            }),
    {
        Job {
            input,
            output,
            framework,
            target_rate,
            source_rate: None,
            mux_rate: None,
            source_frames: None,
            target_frames: None,
            phase: Phase::Ready,
        }
    }

    /// Reads a job from the command line: the program's name, the input, the
    /// output, the engine's name and, if given, the target rate. No job comes
    /// of a command line that is too short, of a rate that cannot be read or
    /// of a name that is no engine's; so nothing runs for it.
    pub fn from_args(args: &[String]) -> (job: Result<Job, UsageError>)
        ensures
            match requested(texts(args@)) {
                Ok(request) => job is Ok && begins(job->Ok_0, request),
                Err(e) => job is Err && job->Err_0 == e,
            },
    {
        if args.len() < 4 {
            return Err(UsageError::TooFewArguments);
        }
        let target = if args.len() > 4 {
            match FrameRate::parse(args[4].as_str().as_bytes()) {
                Some(rate) => rate,
                None => {
                    return Err(UsageError::BadTargetRate);
                },
            }
        } else {
            FrameRate::default_target()
        };
        match Framework::from_name(args[3].as_str()) {
            None => Err(UsageError::UnknownFramework),
            Some(framework) => Ok(Job::new(args[1].clone(), args[2].clone(), framework, target)),
        }
    }

    /// Takes a series of reports in order and returns the answers, one for
    /// each.
    pub fn replay(&mut self, events: &[PipelineEvent]) -> (actions: Vec<PipelineAction>)
        ensures
            *final(self) == end(*old(self), events@),
            actions@ == answers(*old(self), events@),
    {
        let ghost start = *self;
        let mut actions: Vec<PipelineAction> = Vec::new();
        let mut i: usize = 0;
        assert(events@.skip(0) =~= events@);
        while i < events.len()
            invariant
                i <= events.len(),
                end(start, events@) == end(*self, events@.skip(i as int)),
                answers(start, events@) == actions@ + answers(*self, events@.skip(i as int)),
            decreases events.len() - i,
        {
            let ghost before = *self;
            let ghost rest = events@.skip(i as int);
            let action = self.advance(events[i]);
            actions.push(action);
            proof {
                assert(rest[0] == events@[i as int]);
                assert(rest.drop_first() =~= events@.skip(i + 1));
                assert(answers(before, rest) == seq![action] + answers(*self, rest.drop_first()));
                assert(actions@ =~= actions@.drop_last() + seq![action]);
                assert(actions@.drop_last() + (seq![action] + answers(*self, rest.drop_first()))
                    =~= actions@ + answers(*self, rest.drop_first()));
            }
            i = i + 1;
        }
        assert(actions@ + answers(*self, events@.skip(i as int)) =~= actions@);
        actions
    }

    /// Marks the job as failed and reports why.
    fn fail(&mut self, failure: Failure) -> (action: PipelineAction)
        ensures
            (*final(self), action) == failed(*old(self), failure),
    {
        self.phase = Phase::Failed;
        PipelineAction::Abort { failure }
    }

    /// Moves the job to `phase` and answers with `action`.
    fn enter(&mut self, phase: Phase, action: PipelineAction) -> (answer: PipelineAction)
        ensures
            *final(self) == (Job { phase, ..*old(self) }),
            answer == action,
    {
        self.phase = phase;
        action
    }

    /// Takes the rate that the probe read.
    fn on_probed(&mut self, rate: FrameRate) -> (action: PipelineAction)
        ensures
            (*final(self), action) == probed(*old(self), rate),
    {
        if rate.is_zero() {
            return self.fail(Failure::ZeroFrameRate);
        }
        match self.framework.mux_rate(rate, self.target_rate) {
            None => self.fail(Failure::RateOutOfRange),
            Some(mux) => {
                self.source_rate = Some(rate);
                self.mux_rate = Some(mux);
                self.phase = Phase::Counting;
                PipelineAction::Count
            },
        }
    }

    /// Takes the number of frames that the extraction left and plans the
    /// number to render.
    fn on_extracted(&mut self, frames: usize) -> (action: PipelineAction)
        ensures
            (*final(self), action) == extracted(*old(self), frames),
    {
        match self.source_rate {
            None => self.fail(Failure::ZeroFrameRate),
            Some(rate) => {
                let count = calculate_frame_count(rate, frames, self.target_rate, self.framework);
                self.source_frames = Some(frames);
                self.target_frames = Some(count);
                self.phase = Phase::Interpolating;
                PipelineAction::Interpolate { frames: count }
            },
        }
    }

    /// Takes the report of how a step ended and says what to do next.
    pub fn advance(&mut self, event: PipelineEvent) -> (action: PipelineAction)
        ensures
            (*final(self), action) == next(*old(self), event),
    {
        match (self.phase, event) {
            (phase, PipelineEvent::ToolMissing) => match phase {
                Phase::Probing
                | Phase::Counting
                | Phase::Extracting
                | Phase::Interpolating
                | Phase::Assembling => self.fail(Failure::ToolMissing),
                _ => PipelineAction::Ignore,
            },
            (Phase::Ready, PipelineEvent::Begin) => self.enter(
                Phase::CheckingEngine,
                PipelineAction::CheckEngine,
            ),
            (Phase::CheckingEngine, PipelineEvent::EngineChecked { entries }) => if engine_installed(
                entries,
            ) {
                self.enter(Phase::Probing, PipelineAction::Probe)
            } else {
                self.enter(Phase::Installing, PipelineAction::Install)
            },
            (Phase::Installing, PipelineEvent::Installed { success }) => if success {
                self.enter(Phase::Probing, PipelineAction::Probe)
            } else {
                self.fail(Failure::Install)
            },
            (Phase::Probing, PipelineEvent::Probed { rate }) => match rate {
                Ok(rate) => self.on_probed(rate),
                Err(e) => self.fail(Failure::Probe(e)),
            },
            (Phase::Counting, PipelineEvent::Counted { total }) => match total {
                Ok(expected) => self.enter(
                    Phase::Extracting,
                    PipelineAction::Extract { expected },
                ),
                Err(e) => self.fail(Failure::Count(e)),
            },
            (Phase::Extracting, PipelineEvent::Extracted { success, frames }) => if success {
                self.on_extracted(frames)
            } else {
                self.fail(Failure::Extraction)
            },
            (Phase::Interpolating, PipelineEvent::Interpolated { success }) => if success {
                match self.mux_rate {
                    None => self.fail(Failure::RateOutOfRange),
                    Some(rate) => self.enter(
                        Phase::Assembling,
                        PipelineAction::Assemble { rate },
                    ),
                }
            } else {
                self.fail(Failure::Interpolation)
            },
            (Phase::Assembling, PipelineEvent::Assembled { success }) => if success {
                self.enter(Phase::Cleaning, PipelineAction::CleanUp)
            } else {
                self.fail(Failure::Assembly)
            },
            (Phase::Cleaning, PipelineEvent::Cleaned) => self.enter(
                Phase::Finished,
                PipelineAction::Finish,
            ),
            _ => PipelineAction::Ignore,
        }
    }
}

/// A step keeps the job consistent, and changes neither what was asked for
/// nor, once found out, what was found out.
pub proof fn law_step_keeps_consistent(job: Job, event: PipelineEvent)
    requires
        consistent(job),
    ensures
        consistent(next(job, event).0),
        next(job, event).0.input == job.input,
        next(job, event).0.output == job.output,
        next(job, event).0.framework == job.framework,
        next(job, event).0.target_rate == job.target_rate,
        job.source_rate is Some ==> next(job, event).0.source_rate == job.source_rate,
        job.mux_rate is Some ==> next(job, event).0.mux_rate == job.mux_rate,
        job.source_frames is Some ==> next(job, event).0.source_frames == job.source_frames,
        job.target_frames is Some ==> next(job, event).0.target_frames == job.target_frames,
{
}

/// A run keeps the job consistent: so a job that began as a command line asked
/// for it has, in every phase, found out what that phase needs.
pub proof fn law_run_keeps_consistent(job: Job, events: Seq<PipelineEvent>)
    requires
        consistent(job),
    ensures
        consistent(end(job, events)),
        end(job, events).input == job.input,
        end(job, events).output == job.output,
        end(job, events).framework == job.framework,
        end(job, events).target_rate == job.target_rate,
    decreases events.len(),
{
    if events.len() > 0 {
        law_step_keeps_consistent(job, events[0]);
        law_run_keeps_consistent(next(job, events[0]).0, events.drop_first());
    }
}

/// The place of a phase in the order of a job's steps.
pub open spec fn rank(phase: Phase) -> int {
    match phase {
        Phase::Ready => 0,
        Phase::CheckingEngine => 1,
        Phase::Installing => 2,
        Phase::Probing => 3,
        Phase::Counting => 4,
        Phase::Extracting => 5,
        Phase::Interpolating => 6,
        Phase::Assembling => 7,
        Phase::Cleaning => 8,
        Phase::Finished => 9,
        Phase::Failed => 10,
    }
}

/// The steps come in order, and none is left out but the installation of an
/// engine that is there: one event moves a job to the next phase, or fails
/// it, or leaves it where it is. A job that is where it was is unchanged, and
/// the event was ignored.
pub proof fn law_steps_in_order(job: Job, event: PipelineEvent)
    ensures
        ({
            let before = job.phase;
            let after = next(job, event).0.phase;
            ||| after == before
            ||| after == Phase::Failed
            ||| rank(after) == rank(before) + 1
            ||| before == Phase::CheckingEngine && after == Phase::Probing
        }),
        next(job, event).0.phase == job.phase <==> next(job, event).1 is Ignore,
        next(job, event).1 is Ignore ==> next(job, event).0 == job,
        next(job, event).0.phase == Phase::Failed && job.phase != Phase::Failed <==> next(
            job,
            event,
        ).1 is Abort,
{
}

/// The first action decides whether a removal or a giving-up is among the
/// actions, or the rest of them does.
proof fn lemma_first_or_rest(first: PipelineAction, rest: Seq<PipelineAction>)
    ensures
        cleans_up(seq![first] + rest) <==> first is CleanUp || cleans_up(rest),
        gives_up(seq![first] + rest) <==> first is Abort || gives_up(rest),
{
    let all = seq![first] + rest;
    if cleans_up(rest) {
        let i = choose|i: int| 0 <= i < rest.len() && rest[i] is CleanUp;
        assert(all[i + 1] is CleanUp);
    }
    if gives_up(rest) {
        let i = choose|i: int| 0 <= i < rest.len() && rest[i] is Abort;
        assert(all[i + 1] is Abort);
    }
    if first is CleanUp || first is Abort {
        assert(all[0] == first);
    }
    if cleans_up(all) {
        let i = choose|i: int| 0 <= i < all.len() && all[i] is CleanUp;
        if i > 0 {
            assert(rest[i - 1] is CleanUp);
        }
    }
    if gives_up(all) {
        let i = choose|i: int| 0 <= i < all.len() && all[i] is Abort;
        if i > 0 {
            assert(rest[i - 1] is Abort);
        }
    }
}

/// From any phase on: a failed job stays failed and a cleared one cleared,
/// with neither a removal nor a giving-up to come; any other job is cleared at
/// the end exactly if a removal was among its actions, and failed exactly if
/// a giving-up was.
proof fn lemma_run(job: Job, events: Seq<PipelineEvent>)
    ensures
        job.phase == Phase::Failed ==> end(job, events).phase == Phase::Failed,
        cleared(job.phase) ==> cleared(end(job, events).phase),
        job.phase == Phase::Failed || cleared(job.phase) ==> !cleans_up(answers(job, events))
            && !gives_up(answers(job, events)),
        job.phase != Phase::Failed && !cleared(job.phase) ==> {
            &&& cleans_up(answers(job, events)) <==> cleared(end(job, events).phase)
            &&& gives_up(answers(job, events)) <==> end(job, events).phase == Phase::Failed
        },
    decreases events.len(),
{
    if events.len() > 0 {
        let step = next(job, events[0]);
        lemma_run(step.0, events.drop_first());
        lemma_first_or_rest(step.1, answers(step.0, events.drop_first()));
    }
}

/// The working directories are removed after success and only then. However a
/// job runs from its beginning, it ends cleared exactly if their removal was
/// among its actions, and failed exactly if a giving-up was; so no run both
/// gives up and removes them, and a failed job leaves them in place.
pub proof fn law_cleanup_follows_success(job: Job, events: Seq<PipelineEvent>)
    requires
        job.phase == Phase::Ready,
    ensures
        cleans_up(answers(job, events)) <==> cleared(end(job, events).phase),
        gives_up(answers(job, events)) <==> end(job, events).phase == Phase::Failed,
        !(cleans_up(answers(job, events)) && gives_up(answers(job, events))),
        end(job, events).phase == Phase::Finished ==> cleans_up(answers(job, events)),
{
    lemma_run(job, events);
}

/// After a failure nothing more is done: every further event is ignored and
/// the job stays as the failure left it.
pub proof fn law_failure_is_final(job: Job, events: Seq<PipelineEvent>)
    requires
        job.phase == Phase::Failed,
    ensures
        end(job, events) == job,
        forall|i: int|
            0 <= i < answers(job, events).len() ==> #[trigger] answers(job, events)[i]
                is Ignore,
    decreases events.len(),
{
    if events.len() > 0 {
        let rest = events.drop_first();
        law_failure_is_final(job, rest);
        assert forall|i: int| 0 <= i < answers(job, events).len() implies #[trigger] answers(
            job,
            events,
        )[i] is Ignore by {
            if i > 0 {
                assert(answers(job, events)[i] == answers(job, rest)[i - 1]);
            }
        }
    }
}

} // verus!
