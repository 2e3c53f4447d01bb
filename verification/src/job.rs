//! Carrying out a plan, one answer at a time.
//!
//! A [`Job`] holds a plan and knows how far it has come. It asks for one thing to
//! be done on disk, is told how that went, and asks for the next. The first failure
//! finishes it with that failure as the outcome and nothing more is asked for; a job
//! that gets through all its steps finishes with the plan's verdict. What was written
//! before a failure stays written.

use crate::codec::{conversion_error, decoded, fault_of, has_webp_signature, recode, recoded_as};
use crate::codec::{CodecFailure, CodecFailureText};
use crate::error::{clone_outcome, outcome_text, ConversionError, ConversionErrorKind};
use crate::error::{ConversionOutcome, Fault, OutcomeText};
use crate::format::SourceFormat;
use crate::path::{FilePath, PathText};
use crate::plan::{step_texts, Plan, Step, StepText};
use vstd::prelude::*;

verus! {

/// What a job asks to have done.
#[derive(Debug, PartialEq, Eq)]
pub enum Action {
    /// Create the directory and any missing ancestor.
    MakeDir { dir: FilePath },
    /// Read the whole file and answer with its bytes.
    ReadFile { source: FilePath },
    /// Write the bytes to the file in one piece, replacing what is there.
    WriteFile { target: FilePath, bytes: Vec<u8> },
    /// Nothing: the job has finished.
    Stop,
}

/// An action as a value of specifications.
pub enum ActionText {
    MakeDir { dir: PathText },
    ReadFile { source: PathText },
    WriteFile { target: PathText, bytes: Seq<u8> },
    Stop,
}

impl View for Action {
    type V = ActionText;

    open spec fn view(&self) -> ActionText {
        match self {
            Action::MakeDir { dir } => ActionText::MakeDir { dir: dir@ },
            Action::ReadFile { source } => ActionText::ReadFile { source: source@ },
            Action::WriteFile { target, bytes } => ActionText::WriteFile {
                target: target@,
                bytes: bytes@,
            },
            Action::Stop => ActionText::Stop,
        }
    }
}

/// How an action went, as the one who carried it out reports it.
#[derive(Debug, PartialEq, Eq)]
pub enum Reply {
    /// The directory is there, or the file has been written.
    Done,
    /// The file has been read; these are its bytes.
    Data { bytes: Vec<u8> },
    /// The action failed.
    Failed { detail: String },
}

/// A reply as a value of specifications.
pub enum ReplyText {
    Done,
    Data { bytes: Seq<u8> },
    Failed { detail: Seq<char> },
}

impl View for Reply {
    type V = ReplyText;

    open spec fn view(&self) -> ReplyText {
        match self {
            Reply::Done => ReplyText::Done,
            Reply::Data { bytes } => ReplyText::Data { bytes: bytes@ },
            Reply::Failed { detail } => ReplyText::Failed { detail: detail@ },
        }
    }
}

/// What moves a job on: a reply, with source bytes already put through the codec.
#[derive(Debug, PartialEq, Eq)]
pub enum Event {
    /// The directory is there, or the file has been written.
    Done,
    /// The action failed.
    Failed { detail: String },
    /// The source has been read and encoded; these are the bytes to write.
    Encoded { bytes: Vec<u8> },
    /// The source has been read but could not be turned into WebP.
    Unconvertible { failure: CodecFailure },
}

/// An event as a value of specifications.
pub enum EventText {
    Done,
    Failed { detail: Seq<char> },
    Encoded { bytes: Seq<u8> },
    Unconvertible { failure: CodecFailureText },
}

impl View for Event {
    type V = EventText;

    open spec fn view(&self) -> EventText {
        match self {
            Event::Done => EventText::Done,
            Event::Failed { detail } => EventText::Failed { detail: detail@ },
            Event::Encoded { bytes } => EventText::Encoded { bytes: bytes@ },
            Event::Unconvertible { failure } => EventText::Unconvertible { failure: failure@ },
        }
    }
}

/// How far a job has come.
enum Progress {
    Pending { next: usize },
    Encoded { at: usize, bytes: Vec<u8> },
    Finished { outcome: ConversionOutcome },
}

/// How far a job has come, as a value of specifications.
pub enum ProgressText {
    /// Step `next` is to be started.
    Pending { next: nat },
    /// Step `at`, a conversion, has its output ready to be written.
    Encoded { at: nat, bytes: Seq<u8> },
    /// Nothing is left to do.
    Finished { outcome: OutcomeText },
}

/// A job as a value of specifications.
pub struct JobText {
    pub steps: Seq<StepText>,
    pub verdict: OutcomeText,
    pub progress: ProgressText,
}

/// A job whose progress points at a step of its own, and at a conversion where an
/// output is waiting to be written.
pub open spec fn well_formed(job: JobText) -> bool {
    match job.progress {
        ProgressText::Pending { next } => next < job.steps.len(),
        ProgressText::Encoded { at, bytes } => at < job.steps.len() && job.steps[at as int] is Convert,
        ProgressText::Finished { outcome } => true,
    }
}

/// Where a job stands on reaching step `next`: at that step, or at its end with the
/// plan's verdict where no step is left.
pub open spec fn entered(steps: Seq<StepText>, verdict: OutcomeText, next: nat) -> ProgressText {
    if next < steps.len() {
        ProgressText::Pending { next }
    } else {
        ProgressText::Finished { outcome: verdict }
    }
}

/// The job that has the given steps before it.
pub open spec fn fresh(steps: Seq<StepText>, verdict: OutcomeText) -> JobText {
    JobText { steps, verdict, progress: entered(steps, verdict, 0) }
}

/// What a job asks for where it stands.
pub open spec fn action_of(job: JobText) -> ActionText {
    match job.progress {
        ProgressText::Pending { next } => match job.steps[next as int] {
            StepText::EnsureDir { dir } => ActionText::MakeDir { dir },
            StepText::Convert { source, format, target } => ActionText::ReadFile { source },
        },
        ProgressText::Encoded { at, bytes } => match job.steps[at as int] {
            StepText::EnsureDir { dir } => ActionText::Stop,
            StepText::Convert { source, format, target } => ActionText::WriteFile { target, bytes },
        },
        ProgressText::Finished { outcome } => ActionText::Stop,
    }
}

/// The failure that finishes a job.
pub open spec fn failed(kind: ConversionErrorKind, path: PathText, detail: Seq<char>) -> ProgressText {
    ProgressText::Finished { outcome: Err(Fault { kind, path, detail }) }
}

/// Where a job stands after an event. An event that answers nothing the job has
/// asked for leaves it where it was.
pub open spec fn advanced(job: JobText, event: EventText) -> ProgressText {
    match job.progress {
        ProgressText::Pending { next } => match job.steps[next as int] {
            StepText::EnsureDir { dir } => match event {
                EventText::Done => entered(job.steps, job.verdict, next + 1),
                EventText::Failed { detail } => failed(
                    ConversionErrorKind::DirectoryCreationFailure,
                    dir,
                    detail,
                ),
                _ => job.progress,
            },
            StepText::Convert { source, format, target } => match event {
                EventText::Encoded { bytes } => ProgressText::Encoded { at: next, bytes },
                EventText::Unconvertible { failure } => ProgressText::Finished {
                    outcome: Err(fault_of(failure, source, target)),
                },
                EventText::Failed { detail } => failed(
                    ConversionErrorKind::DecodeFailure,
                    source,
                    detail,
                ),
                EventText::Done => job.progress,
            },
        },
        ProgressText::Encoded { at, bytes } => match job.steps[at as int] {
            StepText::EnsureDir { dir } => job.progress,
            StepText::Convert { source, format, target } => match event {
                EventText::Done => entered(job.steps, job.verdict, at + 1),
                EventText::Failed { detail } => failed(
                    ConversionErrorKind::EncodeFailure,
                    target,
                    detail,
                ),
                _ => job.progress,
            },
        },
        ProgressText::Finished { outcome } => job.progress,
    }
}

/// The job after an event.
pub open spec fn step_on(job: JobText, event: EventText) -> JobText {
    JobText { steps: job.steps, verdict: job.verdict, progress: advanced(job, event) }
}

/// Whether a job is waiting for the bytes of a source.
pub open spec fn awaits_source(job: JobText) -> bool {
    job.progress matches ProgressText::Pending { next } && job.steps[next as int] is Convert
}

/// The event that a reply is where no source bytes are waited for. Stray bytes
/// answer nothing.
pub open spec fn plain_event(reply: ReplyText) -> EventText {
    match reply {
        ReplyText::Done => EventText::Done,
        ReplyText::Failed { detail } => EventText::Failed { detail },
        ReplyText::Data { bytes } => EventText::Encoded { bytes },
    }
}

/// The format that the awaited source is to be read as.
pub open spec fn awaited_format(job: JobText) -> SourceFormat
    recommends
        awaits_source(job),
{
    job.steps[job.progress->next as int]->format
}

/// Whether `event` is what the codec makes of the bytes of a source read as the
/// given format: the bytes that the encoder writes, which begin as a WebP file does,
/// or the failure of the step that refused. The wording of a failure is left open.
pub open spec fn codec_event(bytes: Seq<u8>, format: SourceFormat, event: EventText) -> bool {
    match event {
        EventText::Encoded { bytes: out } => has_webp_signature(out) && recoded_as(
            decoded(bytes, format),
            Ok(out),
        ),
        EventText::Unconvertible { failure } => recoded_as(decoded(bytes, format), Err(failure)),
        _ => false,
    }
}

/// A plan being carried out.
pub struct Job {
    steps: Vec<Step>,
    verdict: ConversionOutcome,
    progress: Progress,
}

impl View for Job {
    type V = JobText;

    closed spec fn view(&self) -> JobText {
        JobText {
            steps: step_texts(self.steps@),
            verdict: outcome_text(self.verdict),
            progress: match self.progress {
                Progress::Pending { next } => ProgressText::Pending { next: next as nat },
                Progress::Encoded { at, bytes } => ProgressText::Encoded { at: at as nat, bytes: bytes@ },
                Progress::Finished { outcome } => ProgressText::Finished {
                    outcome: outcome_text(outcome),
                },
            },
        }
    }
}

impl Job {
    #[verifier::type_invariant]
    spec fn sound(self) -> bool {
        well_formed(self@)
    }

    /// The job that has all of `plan` before it.
    pub fn new(plan: Plan) -> (res: Job)
        ensures
            res@ == fresh(plan@.steps, plan@.verdict),
    {
        let Plan { steps, verdict } = plan;
        if steps.len() > 0 {
            Job { steps, verdict, progress: Progress::Pending { next: 0 } }
        } else {
            let outcome = clone_outcome(&verdict);
            Job { steps, verdict, progress: Progress::Finished { outcome } }
        }
    }

    /// Whether nothing is left to do.
    pub fn is_finished(&self) -> (res: bool)
        ensures
            res == (self@.progress is Finished),
    {
        match &self.progress {
            Progress::Finished { .. } => true,
            _ => false,
        }
    }

    /// The outcome of the run, once the job has finished.
    pub fn outcome(&self) -> (res: Option<ConversionOutcome>)
        ensures
            match res {
                Some(outcome) => self@.progress == (ProgressText::Finished {
                    outcome: outcome_text(outcome),
                }),
                None => !(self@.progress is Finished),
            },
    {
        match &self.progress {
            Progress::Finished { outcome } => Some(clone_outcome(outcome)),
            _ => None,
        }
    }

    /// What is to be done next.
    pub fn next_action(&self) -> (res: Action)
        ensures
            res@ == action_of(self@),
            well_formed(self@),
    {
        proof {
            use_type_invariant(self);
        }
        match &self.progress {
            Progress::Pending { next } => match &self.steps[*next] {
                Step::EnsureDir { dir } => Action::MakeDir { dir: dir.clone() },
                Step::Convert { source, .. } => Action::ReadFile { source: source.clone() },
            },
            Progress::Encoded { at, bytes } => match &self.steps[*at] {
                Step::EnsureDir { .. } => Action::Stop,
                Step::Convert { target, .. } => Action::WriteFile {
                    target: target.clone(),
                    bytes: bytes.clone(),
                },
            },
            Progress::Finished { .. } => Action::Stop,
        }
    }

    /// Moves on to step `next`, or finishes where there is none.
    fn enter(&mut self, next: usize)
        requires
            next <= old(self)@.steps.len(),
        ensures
            final(self)@ == (JobText {
                progress: entered(old(self)@.steps, old(self)@.verdict, next as nat),
                ..old(self)@
            }),
    {
        if next < self.steps.len() {
            self.progress = Progress::Pending { next };
        } else {
            let outcome = clone_outcome(&self.verdict);
            self.progress = Progress::Finished { outcome };
        }
    }

    /// Finishes with a failure.
    fn fail(&mut self, kind: ConversionErrorKind, path: &FilePath, detail: &str)
        ensures
            final(self)@ == (JobText { progress: failed(kind, path@, detail@), ..old(self)@ }),
    {
        self.progress = Progress::Finished { outcome: Err(ConversionError::new(kind, path, detail)) };
    }

    /// Takes note of an event and moves on accordingly.
    pub fn advance(&mut self, event: Event)
        ensures
            final(self)@ == step_on(old(self)@, event@),
    {
        proof {
            use_type_invariant(&*self);
        }
        let at: usize = match &self.progress {
            Progress::Pending { next } => *next,
            Progress::Encoded { at, .. } => *at,
            Progress::Finished { .. } => {
                return ;
            },
        };
        let writing = match &self.progress {
            Progress::Encoded { .. } => true,
            _ => false,
        };
        assert(at < self.steps.len()) by {
            assert(step_texts(self.steps@).len() == self.steps@.len());
        }
        let step = self.steps[at].clone();
        match step {
            Step::EnsureDir { dir } => match event {
                Event::Done => {
                    self.enter(at + 1);
                },
                Event::Failed { detail } => {
                    self.fail(ConversionErrorKind::DirectoryCreationFailure, &dir, detail.as_str());
                },
                _ => {},
            },
            Step::Convert { source, format, target } => {
                if writing {
                    match event {
                        Event::Done => {
                            self.enter(at + 1);
                        },
                        Event::Failed { detail } => {
                            self.fail(ConversionErrorKind::EncodeFailure, &target, detail.as_str());
                        },
                        _ => {},
                    }
                } else {
                    match event {
                        Event::Encoded { bytes } => {
                            self.progress = Progress::Encoded { at, bytes };
                        },
                        Event::Unconvertible { failure } => {
                            let error = conversion_error(&failure, &source, &target);
                            self.progress = Progress::Finished { outcome: Err(error) };
                        },
                        Event::Failed { detail } => {
                            self.fail(ConversionErrorKind::DecodeFailure, &source, detail.as_str());
                        },
                        Event::Done => {},
                    }
                }
            },
        }
    }

    /// Takes the reply to the action last asked for and moves on accordingly. The
    /// bytes of a source are put through the codec first: the job moves on to write
    /// what the encoder wrote, or finishes with the failure of the step that refused.
    pub fn handle(&mut self, reply: Reply)
        ensures
            awaits_source(old(self)@) && reply@ is Data ==> exists|event: EventText|
                codec_event(reply@->bytes, awaited_format(old(self)@), event) && final(self)@
                    == #[trigger] step_on(old(self)@, event),
            !(awaits_source(old(self)@) && reply@ is Data) ==> final(self)@ == step_on(
                old(self)@,
                plain_event(reply@),
            ),
    {
        proof {
            use_type_invariant(&*self);
        }
        let format = match &self.progress {
            Progress::Pending { next } => match &self.steps[*next] {
                Step::Convert { format, .. } => Some(*format),
                Step::EnsureDir { .. } => None,
            },
            _ => None,
        };
        let event = match reply {
            Reply::Done => Event::Done,
            Reply::Failed { detail } => Event::Failed { detail },
            Reply::Data { bytes } => match format {
                None => Event::Encoded { bytes },
                Some(format) => match recode(bytes.as_slice(), format) {
                    Ok(out) => Event::Encoded { bytes: out },
                    Err(failure) => Event::Unconvertible { failure },
                },
            },
        };
        let ghost taken = event@;
        self.advance(event);
        assert(final(self)@ == step_on(old(self)@, taken));
    }
}

/// The job after a list of events, taken in order.
pub open spec fn run_on(job: JobText, events: Seq<EventText>) -> JobText
    decreases events.len(),
{
    if events.len() == 0 {
        job
    } else {
        run_on(step_on(job, events[0]), events.skip(1))
    }
}

/// The job after every step left has gone well. `outputs` gives the bytes that the
/// codec makes of the source of each conversion, by the step's place in the plan.
pub open spec fn carried_through(job: JobText, outputs: spec_fn(nat) -> Seq<u8>) -> JobText
    decreases
        job.steps.len() - (match job.progress {
            ProgressText::Pending { next } => next,
            ProgressText::Encoded { at, bytes } => at,
            ProgressText::Finished { outcome } => job.steps.len(),
        }),
        (if job.progress is Pending { 1nat } else { 0nat }),
{
    if !well_formed(job) {
        job
    } else {
        match job.progress {
            ProgressText::Finished { outcome } => job,
            ProgressText::Encoded { at, bytes } => carried_through(
                step_on(job, EventText::Done),
                outputs,
            ),
            ProgressText::Pending { next } => match job.steps[next as int] {
                StepText::EnsureDir { dir } => carried_through(step_on(job, EventText::Done), outputs),
                StepText::Convert { source, format, target } => carried_through(
                    step_on(job, EventText::Encoded { bytes: outputs(next) }),
                    outputs,
                ),
            },
        }
    }
}

/// An event leaves a well-formed job well formed.
pub proof fn lemma_step_keeps_well_formed(job: JobText, event: EventText)
    requires
        well_formed(job),
    ensures
        well_formed(step_on(job, event)),
{
}

/// A finished job takes note of nothing: its outcome stands whatever follows.
pub proof fn lemma_finished_job_stays(job: JobText, events: Seq<EventText>)
    requires
        job.progress is Finished,
    ensures
        run_on(job, events) == job,
    decreases events.len(),
{
    if events.len() > 0 {
        lemma_finished_job_stays(step_on(job, events[0]), events.skip(1));
    }
}

/// The first failure is the outcome of the run: a job that is told that what it asked
/// for has failed finishes with an error for the path it asked about, asks for
/// nothing more, and keeps that outcome whatever follows.
pub proof fn lemma_first_failure_is_the_outcome(
    job: JobText,
    detail: Seq<char>,
    later: Seq<EventText>,
)
    requires
        well_formed(job),
        !(job.progress is Finished),
    ensures
        step_on(job, EventText::Failed { detail }).progress matches ProgressText::Finished {
            outcome: Err(fault),
        } && fault.detail == detail && match action_of(job) {
            ActionText::MakeDir { dir } => fault.kind == ConversionErrorKind::DirectoryCreationFailure
                && fault.path == dir,
            ActionText::ReadFile { source } => fault.kind == ConversionErrorKind::DecodeFailure
                && fault.path == source,
            ActionText::WriteFile { target, bytes } => fault.kind
                == ConversionErrorKind::EncodeFailure && fault.path == target,
            ActionText::Stop => false,
        },
        action_of(step_on(job, EventText::Failed { detail })) == ActionText::Stop,
        run_on(step_on(job, EventText::Failed { detail }), later) == step_on(
            job,
            EventText::Failed { detail },
        ),
{
    lemma_finished_job_stays(step_on(job, EventText::Failed { detail }), later);
}

/// A source that the codec cannot turn into WebP ends the run: the outcome names the
/// source where decoding failed and the target where encoding did.
pub proof fn lemma_unconvertible_source_ends_the_run(job: JobText, failure: CodecFailureText)
    requires
        well_formed(job),
        awaits_source(job),
    ensures
        step_on(job, EventText::Unconvertible { failure }).progress matches ProgressText::Finished {
            outcome: Err(fault),
        } && match failure {
            CodecFailureText::Decode { detail } => fault.kind == ConversionErrorKind::DecodeFailure
                && action_of(job) == (ActionText::ReadFile { source: fault.path }),
            CodecFailureText::Encode { detail } => fault.kind == ConversionErrorKind::EncodeFailure
                && (job.steps[job.progress->next as int] matches StepText::Convert { target, .. }
                && fault.path == target),
        },
{
}

/// A run in which every step goes well ends with the plan's verdict.
pub proof fn lemma_smooth_run_ends_in_verdict(job: JobText, outputs: spec_fn(nat) -> Seq<u8>)
    requires
        well_formed(job),
        !(job.progress is Finished),
    ensures
        carried_through(job, outputs).progress == (ProgressText::Finished { outcome: job.verdict }),
        carried_through(job, outputs).steps == job.steps,
    decreases
        job.steps.len() - (match job.progress {
            ProgressText::Pending { next } => next,
            ProgressText::Encoded { at, bytes } => at,
            ProgressText::Finished { outcome } => job.steps.len(),
        }),
        (if job.progress is Pending { 1nat } else { 0nat }),
{
    let after = match job.progress {
        ProgressText::Pending { next } => match job.steps[next as int] {
            StepText::EnsureDir { dir } => step_on(job, EventText::Done),
            StepText::Convert { source, format, target } => step_on(
                job,
                EventText::Encoded { bytes: outputs(next) },
            ),
        },
        _ => step_on(job, EventText::Done),
    };
    assert(well_formed(after));
    assert(carried_through(job, outputs) == carried_through(after, outputs));
    if after.progress is Finished {
        assert(carried_through(after, outputs) == after);
    } else {
        lemma_smooth_run_ends_in_verdict(after, outputs);
    }
}

/// A job is written to only where its plan says: each file it asks to have written
/// is the target of the conversion it stands at.
pub proof fn lemma_writes_follow_the_plan(job: JobText)
    requires
        well_formed(job),
    ensures
        action_of(job) matches ActionText::WriteFile { target, bytes } ==> exists|at: int|
            0 <= at < job.steps.len() && (#[trigger] job.steps[at] matches StepText::Convert {
                target: planned,
                ..
            } && planned == target),
        action_of(job) matches ActionText::MakeDir { dir } ==> exists|at: int|
            0 <= at < job.steps.len() && #[trigger] job.steps[at] == (StepText::EnsureDir { dir }),
{
    match job.progress {
        ProgressText::Pending { next } => {
            assert(job.steps[next as int] == job.steps[next as int]);
        },
        ProgressText::Encoded { at, bytes } => {
            assert(job.steps[at as int] is Convert);
        },
        ProgressText::Finished { outcome } => {},
    }
}

} // verus!
