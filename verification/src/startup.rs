//! The startup sequence that persists the CVM identity before the server
//! starts.
//!
//! When the fragment is asked for, the service queries the guest agent (the
//! socket may not be ready yet, so failed queries are retried after a delay),
//! renders the identity, and writes it atomically: the directory is created,
//! the text goes to a temporary file next to the destination, and that file is
//! renamed over the destination. Only then is the HTTP listener bound, so a
//! healthy service guarantees that the fragment is in place.
//!
//! The sequence is a state machine: `Startup::begin` gives the first action,
//! and `Startup::step` takes the outcome of the last action and gives the next
//! one. The caller performs the actions (queries, sleeps, file system calls).
//! Every step is described by `next_view`, over which the laws below are
//! stated.

use vstd::prelude::*;
use vstd::string::*;

use crate::settings::FluentBitFragmentConfig;
use crate::fragment::{InstanceInfo, RenderError, offending_key, render, rendered};
use crate::paths::{directory_of, staging_dir, staging_file, temp_file_for};
use crate::text::{decimal, push_decimal};

verus! {

/// How the last action went.
pub enum Outcome {
    /// The guest agent answered a query with the CVM identity.
    Info(InstanceInfo),
    /// The action (other than a query) completed.
    Done,
    /// The action failed, for the reason given.
    Failed(String),
}

/// Why the startup sequence gave up.
#[derive(Debug)]
pub enum StartupError {
    /// Every query to the guest agent failed; `cause` is the last failure.
    GuestAgent { attempts: u32, cause: String },
    /// The identity cannot be rendered as a fragment.
    Render(RenderError),
    /// The destination directory could not be created.
    CreateDir { dir: String, cause: String },
    /// The destination path names no file.
    NoFileName { path: String },
    /// The temporary file could not be written.
    WriteFile { path: String, cause: String },
    /// The temporary file could not be moved into place (it has been removed).
    Rename { from: String, to: String, cause: String },
}

/// What the caller is to do next.
#[derive(Debug)]
pub enum Action {
    /// Query the guest agent; this is attempt `attempt` of at most `attempts`.
    QueryInfo { attempt: u32, attempts: u32 },
    /// Attempt `failed_attempt` failed with `cause`; wait `millis` ms.
    Sleep { millis: u64, failed_attempt: u32, attempts: u32, cause: String },
    /// Create `dir` and its missing parents.
    CreateDir { dir: String },
    /// Write `contents` to the file `path`, replacing it.
    WriteFile { path: String, contents: String },
    /// Rename `from` to `to`, replacing `to`.
    Rename { from: String, to: String },
    /// Remove the file `path`; whether that works does not matter.
    RemoveFile { path: String },
    /// Bind the listener and serve.
    Serve,
    /// Stop, reporting `error`.
    Abort { error: StartupError },
    /// The fragment is not required: warn of `error`, then bind the listener
    /// and serve.
    ServeWithoutFragment { error: StartupError },
}

/// Where the sequence stands: which action it awaits the outcome of.
pub enum Phase {
    Querying { attempt: u32 },
    Waiting { attempt: u32 },
    CreatingDir { dir: String, contents: String },
    WritingTemp { temp: String },
    Renaming { temp: String },
    RemovingTemp { temp: String, cause: String },
    Serving,
    Aborted,
}

/// The state of the startup sequence.
pub struct Startup {
    target: String,
    required: bool,
    attempts: u32,
    retry_delay_ms: u64,
    phase: Phase,
}

// ----- The model -----

/// `Outcome`, as plain values.
pub enum OutcomeView {
    Info(InstanceInfo),
    Done,
    Failed(Seq<char>),
}

/// `StartupError`, as plain values.
pub enum ErrorView {
    GuestAgent { attempts: u32, cause: Seq<char> },
    Render(RenderError),
    CreateDir { dir: Seq<char>, cause: Seq<char> },
    NoFileName { path: Seq<char> },
    WriteFile { path: Seq<char>, cause: Seq<char> },
    Rename { from: Seq<char>, to: Seq<char>, cause: Seq<char> },
}

/// `Action`, as plain values.
pub enum ActionView {
    QueryInfo { attempt: u32, attempts: u32 },
    Sleep { millis: u64, failed_attempt: u32, attempts: u32, cause: Seq<char> },
    CreateDir { dir: Seq<char> },
    WriteFile { path: Seq<char>, contents: Seq<char> },
    Rename { from: Seq<char>, to: Seq<char> },
    RemoveFile { path: Seq<char> },
    Serve,
    Abort { error: ErrorView },
    ServeWithoutFragment { error: ErrorView },
}

/// `Phase`, as plain values.
pub enum PhaseView {
    Querying { attempt: u32 },
    Waiting { attempt: u32 },
    CreatingDir { dir: Seq<char>, contents: Seq<char> },
    WritingTemp { temp: Seq<char> },
    Renaming { temp: Seq<char> },
    RemovingTemp { temp: Seq<char>, cause: Seq<char> },
    Serving,
    Aborted,
}

/// `Startup`, as plain values.
pub struct StartupView {
    pub target: Seq<char>,
    pub required: bool,
    pub attempts: u32,
    pub retry_delay_ms: u64,
    pub phase: PhaseView,
}

impl View for Outcome {
    type V = OutcomeView;

    open spec fn view(&self) -> OutcomeView {
        match self {
            Outcome::Info(info) => OutcomeView::Info(*info),
            Outcome::Done => OutcomeView::Done,
            Outcome::Failed(cause) => OutcomeView::Failed(cause@),
        }
    }
}

impl View for StartupError {
    type V = ErrorView;

    open spec fn view(&self) -> ErrorView {
        match self {
            StartupError::GuestAgent { attempts, cause } => ErrorView::GuestAgent {
                attempts: *attempts,
                cause: cause@,
            },
            StartupError::Render(e) => ErrorView::Render(*e),
            StartupError::CreateDir { dir, cause } => ErrorView::CreateDir { dir: dir@, cause: cause@ },
            StartupError::NoFileName { path } => ErrorView::NoFileName { path: path@ },
            StartupError::WriteFile { path, cause } => ErrorView::WriteFile {
                path: path@,
                cause: cause@,
            },
            StartupError::Rename { from, to, cause } => ErrorView::Rename {
                from: from@,
                to: to@,
                cause: cause@,
            },
        }
    }
}

impl ErrorView {
    /// The description of the error; the failure that caused it, if any, is
    /// reported as its source.
    pub open spec fn message(self) -> Seq<char> {
        match self {
            ErrorView::GuestAgent { attempts, cause } => "Failed to query the dstack guest agent after "@
                + decimal(attempts as nat) + " attempt(s)"@,
            ErrorView::Render(e) => e.spec_message(),
            ErrorView::CreateDir { dir, cause } => "Failed to create directory "@ + dir,
            ErrorView::NoFileName { path } => "Instance file path "@ + path + " has no file name"@,
            ErrorView::WriteFile { path, cause } => "Failed to write "@ + path,
            ErrorView::Rename { from, to, cause } => "Failed to move "@ + from + " to "@ + to,
        }
    }

    /// What a startup that fails with this error reports, outermost first:
    /// that the required instance file could not be written, the description
    /// of the error, and the failure that caused it, if any.
    pub open spec fn abort_report(self) -> Seq<Seq<char>> {
        seq!["Failed to write the required instance file"@, self.message()] + match self.cause() {
            Some(c) => seq![c],
            None => Seq::empty(),
        }
    }

    /// The failure that caused the error, if any.
    pub open spec fn cause(self) -> Option<Seq<char>> {
        match self {
            ErrorView::GuestAgent { attempts, cause } => Some(cause),
            ErrorView::Render(e) => None,
            ErrorView::CreateDir { dir, cause } => Some(cause),
            ErrorView::NoFileName { path } => None,
            ErrorView::WriteFile { path, cause } => Some(cause),
            ErrorView::Rename { from, to, cause } => Some(cause),
        }
    }
}

impl StartupError {
    /// The description of the error; the failure that caused it, if any, is
    /// its source.
    pub fn message(&self) -> (text: String)
        ensures
            text@ == self@.message(),
    {
        match self {
            StartupError::GuestAgent { attempts, cause } => {
                let mut text = String::from_str("Failed to query the dstack guest agent after ");
                push_decimal(&mut text, *attempts as u64);
                text.append(" attempt(s)");
                text
            },
            StartupError::Render(e) => e.message(),
            StartupError::CreateDir { dir, cause } => {
                let mut text = String::from_str("Failed to create directory ");
                text.append(dir.as_str());
                text
            },
            StartupError::NoFileName { path } => {
                let mut text = String::from_str("Instance file path ");
                text.append(path.as_str());
                text.append(" has no file name");
                text
            },
            StartupError::WriteFile { path, cause } => {
                let mut text = String::from_str("Failed to write ");
                text.append(path.as_str());
                text
            },
            StartupError::Rename { from, to, cause } => {
                let mut text = String::from_str("Failed to move ");
                text.append(from.as_str());
                text.append(" to ");
                text.append(to.as_str());
                text
            },
        }
    }

    /// The failure that caused the error, if any.
    pub fn cause(&self) -> (cause: Option<&str>)
        ensures
            match cause {
                Some(c) => self@.cause() == Some(c@),
                None => self@.cause() is None,
            },
    {
        match self {
            StartupError::GuestAgent { cause, .. } => Some(cause.as_str()),
            StartupError::Render(_) => None,
            StartupError::CreateDir { cause, .. } => Some(cause.as_str()),
            StartupError::NoFileName { .. } => None,
            StartupError::WriteFile { cause, .. } => Some(cause.as_str()),
            StartupError::Rename { cause, .. } => Some(cause.as_str()),
        }
    }
}

impl StartupError {
    /// What a startup that fails with this error reports, outermost first.
    pub fn abort_report(&self) -> (lines: Vec<String>)
        ensures
            lines@.len() == self@.abort_report().len(),
            forall|i: int| 0 <= i < lines@.len() ==> #[trigger] lines@[i]@ == self@.abort_report()[i],
    {
        let mut lines: Vec<String> = Vec::new();
        lines.push(String::from_str("Failed to write the required instance file"));
        lines.push(self.message());
        match self.cause() {
            Some(c) => lines.push(String::from_str(c)),
            None => {},
        }
        lines
    }
}

impl View for Action {
    type V = ActionView;

    open spec fn view(&self) -> ActionView {
        match self {
            Action::QueryInfo { attempt, attempts } => ActionView::QueryInfo {
                attempt: *attempt,
                attempts: *attempts,
            },
            Action::Sleep { millis, failed_attempt, attempts, cause } => ActionView::Sleep {
                millis: *millis,
                failed_attempt: *failed_attempt,
                attempts: *attempts,
                cause: cause@,
            },
            Action::CreateDir { dir } => ActionView::CreateDir { dir: dir@ },
            Action::WriteFile { path, contents } => ActionView::WriteFile {
                path: path@,
                contents: contents@,
            },
            Action::Rename { from, to } => ActionView::Rename { from: from@, to: to@ },
            Action::RemoveFile { path } => ActionView::RemoveFile { path: path@ },
            Action::Serve => ActionView::Serve,
            Action::Abort { error } => ActionView::Abort { error: error@ },
            Action::ServeWithoutFragment { error } => ActionView::ServeWithoutFragment { error: error@ },
        }
    }
}

impl View for Phase {
    type V = PhaseView;

    open spec fn view(&self) -> PhaseView {
        match self {
            Phase::Querying { attempt } => PhaseView::Querying { attempt: *attempt },
            Phase::Waiting { attempt } => PhaseView::Waiting { attempt: *attempt },
            Phase::CreatingDir { dir, contents } => PhaseView::CreatingDir {
                dir: dir@,
                contents: contents@,
            },
            Phase::WritingTemp { temp } => PhaseView::WritingTemp { temp: temp@ },
            Phase::Renaming { temp } => PhaseView::Renaming { temp: temp@ },
            Phase::RemovingTemp { temp, cause } => PhaseView::RemovingTemp {
                temp: temp@,
                cause: cause@,
            },
            Phase::Serving => PhaseView::Serving,
            Phase::Aborted => PhaseView::Aborted,
        }
    }
}

impl View for Startup {
    type V = StartupView;

    closed spec fn view(&self) -> StartupView {
        StartupView {
            target: self.target@,
            required: self.required,
            attempts: self.attempts,
            retry_delay_ms: self.retry_delay_ms,
            phase: self.phase@,
        }
    }
}

/// The number of queries allowed: the initial one and `retries` more, at most
/// `u32::MAX` in all.
pub open spec fn total_attempts(retries: u32) -> u32 {
    if retries as int + 1 > u32::MAX as int { u32::MAX } else { (retries + 1) as u32 }
}

impl StartupView {
    /// The states that the sequence can be in.
    pub open spec fn wf(self) -> bool {
        &&& self.attempts >= 1
        &&& match self.phase {
            PhaseView::Querying { attempt } => 1 <= attempt <= self.attempts,
            PhaseView::Waiting { attempt } => 2 <= attempt <= self.attempts,
            PhaseView::CreatingDir { dir, contents } => dir == staging_dir(self.target),
            PhaseView::WritingTemp { temp } => staging_file(self.target) == Some(temp),
            PhaseView::Renaming { temp } => staging_file(self.target) == Some(temp),
            PhaseView::RemovingTemp { temp, cause } => staging_file(self.target) == Some(temp),
            _ => true,
        }
    }

    /// Whether `outcome` can answer the action that the sequence awaits.
    pub open spec fn accepts(self, outcome: OutcomeView) -> bool {
        match self.phase {
            PhaseView::Querying { .. } => outcome !is Done,
            PhaseView::Waiting { .. } => outcome is Done,
            PhaseView::Serving => false,
            PhaseView::Aborted => false,
            _ => outcome !is Info,
        }
    }

    /// Whether the sequence has ended.
    pub open spec fn finished(self) -> bool {
        self.phase is Serving || self.phase is Aborted
    }

    /// An upper bound on the number of steps left.
    pub open spec fn steps_left(self) -> nat {
        match self.phase {
            PhaseView::Querying { attempt } => (2 * (self.attempts - attempt) + 6) as nat,
            PhaseView::Waiting { attempt } => (2 * (self.attempts - attempt) + 7) as nat,
            PhaseView::CreatingDir { .. } => 4,
            PhaseView::WritingTemp { .. } => 3,
            PhaseView::Renaming { .. } => 2,
            PhaseView::RemovingTemp { .. } => 1,
            _ => 0,
        }
    }

    /// The same sequence in another phase.
    pub open spec fn with_phase(self, phase: PhaseView) -> StartupView {
        StartupView { phase, ..self }
    }
}

/// The state and first action for `cfg`.
pub open spec fn begin_view(cfg: FluentBitFragmentConfig) -> (StartupView, ActionView) {
    let attempts = total_attempts(cfg.retries);
    let s = StartupView {
        target: cfg.path@,
        required: cfg.required,
        attempts,
        retry_delay_ms: cfg.retry_delay_ms,
        phase: PhaseView::Serving,
    };
    if cfg.enabled {
        (s.with_phase(PhaseView::Querying { attempt: 1 }), ActionView::QueryInfo { attempt: 1, attempts })
    } else {
        (s, ActionView::Serve)
    }
}

/// How the sequence ends on `error`: it stops where the fragment is required,
/// and serves anyway otherwise.
pub open spec fn give_up_view(s: StartupView, error: ErrorView) -> (StartupView, ActionView) {
    if s.required {
        (s.with_phase(PhaseView::Aborted), ActionView::Abort { error })
    } else {
        (s.with_phase(PhaseView::Serving), ActionView::ServeWithoutFragment { error })
    }
}

/// The state and action that follow `s` when its action ends with `outcome`.
pub open spec fn next_view(s: StartupView, outcome: OutcomeView) -> (StartupView, ActionView) {
    match s.phase {
        PhaseView::Querying { attempt } => match outcome {
            OutcomeView::Info(info) => match offending_key(info) {
                Some(key) => give_up_view(s, ErrorView::Render(RenderError { key })),
                None => {
                    let dir = staging_dir(s.target);
                    (
                        s.with_phase(PhaseView::CreatingDir { dir, contents: rendered(info) }),
                        ActionView::CreateDir { dir },
                    )
                },
            },
            OutcomeView::Failed(cause) => if attempt < s.attempts {
                (
                    s.with_phase(PhaseView::Waiting { attempt: (attempt + 1) as u32 }),
                    ActionView::Sleep {
                        millis: s.retry_delay_ms,
                        failed_attempt: attempt,
                        attempts: s.attempts,
                        cause,
                    },
                )
            } else {
                give_up_view(s, ErrorView::GuestAgent { attempts: s.attempts, cause })
            },
            OutcomeView::Done => (s, ActionView::Serve),
        },
        PhaseView::Waiting { attempt } => (
            s.with_phase(PhaseView::Querying { attempt }),
            ActionView::QueryInfo { attempt, attempts: s.attempts },
        ),
        PhaseView::CreatingDir { dir, contents } => match outcome {
            OutcomeView::Failed(cause) => give_up_view(s, ErrorView::CreateDir { dir, cause }),
            _ => match staging_file(s.target) {
                Some(temp) => (
                    s.with_phase(PhaseView::WritingTemp { temp }),
                    ActionView::WriteFile { path: temp, contents },
                ),
                None => give_up_view(s, ErrorView::NoFileName { path: s.target }),
            },
        },
        PhaseView::WritingTemp { temp } => match outcome {
            OutcomeView::Failed(cause) => give_up_view(s, ErrorView::WriteFile { path: temp, cause }),
            _ => (s.with_phase(PhaseView::Renaming { temp }), ActionView::Rename { from: temp, to: s.target }),
        },
        PhaseView::Renaming { temp } => match outcome {
            OutcomeView::Failed(cause) => (
                s.with_phase(PhaseView::RemovingTemp { temp, cause }),
                ActionView::RemoveFile { path: temp },
            ),
            _ => (s.with_phase(PhaseView::Serving), ActionView::Serve),
        },
        PhaseView::RemovingTemp { temp, cause } => give_up_view(s, ErrorView::Rename { from: temp, to: s.target, cause }),
        PhaseView::Serving => (s, ActionView::Serve),
        PhaseView::Aborted => (s, ActionView::Serve),
    }
}

/// Ends the sequence on `error`: stops where the fragment is required, serves
/// anyway otherwise.
fn give_up(
    target: String,
    required: bool,
    attempts: u32,
    retry_delay_ms: u64,
    error: StartupError,
) -> (ended: (Startup, Action))
    requires
        attempts >= 1,
    ensures
        (ended.0@, ended.1@) == give_up_view(
            StartupView {
                target: target@,
                required,
                attempts,
                retry_delay_ms,
                phase: PhaseView::Aborted,
            },
            error@,
        ),
{
    if required {
        (Startup { target, required, attempts, retry_delay_ms, phase: Phase::Aborted }, Action::Abort { error })
    } else {
        (
            Startup { target, required, attempts, retry_delay_ms, phase: Phase::Serving },
            Action::ServeWithoutFragment { error },
        )
    }
}

impl Startup {
    #[verifier::type_invariant]
    spec fn inv(self) -> bool {
        self@.wf()
    }

    /// Starts the sequence for `cfg`: queries the guest agent when the fragment
    /// is asked for, serves straight away otherwise.
    pub fn begin(cfg: &FluentBitFragmentConfig) -> (started: (Startup, Action))
        ensures
            (started.0@, started.1@) == begin_view(*cfg),
    {
        let attempts = cfg.retries.saturating_add(1);
        if cfg.enabled {
            let s = Startup {
                target: cfg.path.clone(),
                required: cfg.required,
                attempts,
                retry_delay_ms: cfg.retry_delay_ms,
                phase: Phase::Querying { attempt: 1 },
            };
            (s, Action::QueryInfo { attempt: 1, attempts })
        } else {
            let s = Startup {
                target: cfg.path.clone(),
                required: cfg.required,
                attempts,
                retry_delay_ms: cfg.retry_delay_ms,
                phase: Phase::Serving,
            };
            (s, Action::Serve)
        }
    }

    /// Whether `outcome` can answer the action that the sequence awaits.
    pub fn accepts(&self, outcome: &Outcome) -> (ok: bool)
        ensures
            ok == self@.accepts(outcome@),
    {
        match (&self.phase, outcome) {
            (Phase::Querying { .. }, Outcome::Done) => false,
            (Phase::Querying { .. }, _) => true,
            (Phase::Waiting { .. }, Outcome::Done) => true,
            (Phase::Waiting { .. }, _) => false,
            (Phase::Serving, _) => false,
            (Phase::Aborted, _) => false,
            (_, Outcome::Info(_)) => false,
            (_, _) => true,
        }
    }

    /// Whether the sequence has ended.
    pub fn is_finished(&self) -> (done: bool)
        ensures
            done == self@.finished(),
    {
        matches!(self.phase, Phase::Serving | Phase::Aborted)
    }

    /// Takes the outcome of the last action and gives the next state and
    /// action.
    pub fn step(self, outcome: Outcome) -> (next: (Startup, Action))
        requires
            self@.accepts(outcome@),
        ensures
            (next.0@, next.1@) == next_view(self@, outcome@),
    {
        proof { use_type_invariant(&self); }
        let Startup { target, required, attempts, retry_delay_ms, phase } = self;
        match phase {
            Phase::Querying { attempt } => match outcome {
                Outcome::Info(info) => match render(&info) {
                    Err(e) => {
                        give_up(target, required, attempts, retry_delay_ms, StartupError::Render(e))
                    },
                    Ok(contents) => {
                        let dir = directory_of(target.as_str());
                        let d = dir.clone();
                        let s = Startup {
                            target,
                            required,
                            attempts,
                            retry_delay_ms,
                            phase: Phase::CreatingDir { dir, contents },
                        };
                        (s, Action::CreateDir { dir: d })
                    },
                },
                Outcome::Failed(cause) => {
                    if attempt < attempts {
                        let s = Startup {
                            target,
                            required,
                            attempts,
                            retry_delay_ms,
                            phase: Phase::Waiting { attempt: attempt + 1 },
                        };
                        (s, Action::Sleep { millis: retry_delay_ms, failed_attempt: attempt, attempts, cause })
                    } else {
                        give_up(target, required, attempts, retry_delay_ms, StartupError::GuestAgent { attempts, cause })
                    }
                },
                Outcome::Done => {
                    proof { assert(false); }
                    let s = Startup { target, required, attempts, retry_delay_ms, phase: Phase::Querying { attempt } };
                    (s, Action::Serve)
                },
            },
            Phase::Waiting { attempt } => {
                let s = Startup { target, required, attempts, retry_delay_ms, phase: Phase::Querying { attempt } };
                (s, Action::QueryInfo { attempt, attempts })
            },
            Phase::CreatingDir { dir, contents } => match outcome {
                Outcome::Failed(cause) => {
                    give_up(target, required, attempts, retry_delay_ms, StartupError::CreateDir { dir, cause })
                },
                _ => match temp_file_for(target.as_str(), dir.as_str()) {
                    Some(temp) => {
                        let t = temp.clone();
                        let s = Startup {
                            target,
                            required,
                            attempts,
                            retry_delay_ms,
                            phase: Phase::WritingTemp { temp },
                        };
                        (s, Action::WriteFile { path: t, contents })
                    },
                    None => {
                        let path = target.clone();
                        give_up(target, required, attempts, retry_delay_ms, StartupError::NoFileName { path })
                    },
                },
            },
            Phase::WritingTemp { temp } => match outcome {
                Outcome::Failed(cause) => {
                    give_up(target, required, attempts, retry_delay_ms, StartupError::WriteFile { path: temp, cause })
                },
                _ => {
                    let from = temp.clone();
                    let to = target.clone();
                    let s = Startup { target, required, attempts, retry_delay_ms, phase: Phase::Renaming { temp } };
                    (s, Action::Rename { from, to })
                },
            },
            Phase::Renaming { temp } => match outcome {
                Outcome::Failed(cause) => {
                    let path = temp.clone();
                    let s = Startup {
                        target,
                        required,
                        attempts,
                        retry_delay_ms,
                        phase: Phase::RemovingTemp { temp, cause },
                    };
                    (s, Action::RemoveFile { path })
                },
                _ => {
                    let s = Startup { target, required, attempts, retry_delay_ms, phase: Phase::Serving };
                    (s, Action::Serve)
                },
            },
            Phase::RemovingTemp { temp, cause } => {
                let to = target.clone();
                give_up(target, required, attempts, retry_delay_ms, StartupError::Rename { from: temp, to, cause })
            },
            Phase::Serving => {
                proof { assert(false); }
                let s = Startup { target, required, attempts, retry_delay_ms, phase: Phase::Serving };
                (s, Action::Serve)
            },
            Phase::Aborted => {
                proof { assert(false); }
                let s = Startup { target, required, attempts, retry_delay_ms, phase: Phase::Aborted };
                (s, Action::Serve)
            },
        }
    }
}


// ----- Laws -----

/// A step keeps the sequence in a state it can be in, and brings it closer to
/// its end: every run ends, with `Serve` or `Abort`, in a bounded number of
/// steps.
pub proof fn step_progresses(s: StartupView, outcome: OutcomeView)
    requires
        s.wf(),
        s.accepts(outcome),
    ensures
        next_view(s, outcome).0.wf(),
        next_view(s, outcome).0.steps_left() < s.steps_left(),
        next_view(s, outcome).0.finished() <==> (next_view(s, outcome).1 is Serve || next_view(
            s,
            outcome,
        ).1 is Abort || next_view(s, outcome).1 is ServeWithoutFragment),
{
}

/// Starting gives a state the sequence can be in; the server is started
/// straight away exactly when the fragment is not asked for.
pub proof fn begin_serves_unless_generating(cfg: FluentBitFragmentConfig)
    ensures
        begin_view(cfg).0.wf(),
        begin_view(cfg).1 is Serve <==> !cfg.enabled,
        cfg.enabled ==> begin_view(cfg).1 == (ActionView::QueryInfo {
            attempt: 1,
            attempts: total_attempts(cfg.retries),
        }),
{
}

/// The server is started only once the fragment is in place: a step gives
/// `Serve` only when it answers the rename of the staged file onto the
/// destination, and that rename succeeded.
pub proof fn serve_only_after_rename(s: StartupView, outcome: OutcomeView)
    requires
        s.wf(),
        s.accepts(outcome),
        next_view(s, outcome).1 is Serve,
    ensures
        s.phase is Renaming,
        outcome is Done,
        staging_file(s.target) == Some(s.phase->Renaming_temp),
{
}

/// A staged file whose write failed is never moved into place: a rename is
/// asked for only right after the staged file was written successfully, and a
/// failed write ends the sequence at once, stopping where the file is required
/// and serving without it otherwise, with the write of the staged file as the
/// error.
pub proof fn failed_write_is_never_renamed(s: StartupView, outcome: OutcomeView)
    requires
        s.wf(),
        s.accepts(outcome),
    ensures
        next_view(s, outcome).1 is Rename ==> s.phase is WritingTemp && outcome is Done && next_view(s, outcome).1
            == (ActionView::Rename { from: staging_file(s.target)->Some_0, to: s.target }),
        s.phase is WritingTemp && outcome is Failed ==> {
            let error = ErrorView::WriteFile {
                path: staging_file(s.target)->Some_0,
                cause: outcome->Failed_0,
            };
            &&& next_view(s, outcome).0.finished()
            &&& next_view(s, outcome).0.phase is Aborted <==> s.required
            &&& next_view(s, outcome).1 == (if s.required {
                ActionView::Abort { error }
            } else {
                ActionView::ServeWithoutFragment { error }
            })
        },
{
}

/// Each file step follows the success of the one before: the staging
/// directory is created only once an identity that renders has been
/// received, and the staged file is written only once that directory was
/// created; a failure to create it ends the sequence with that error.
pub proof fn file_steps_follow_success(s: StartupView, outcome: OutcomeView)
    requires
        s.wf(),
        s.accepts(outcome),
    ensures
        next_view(s, outcome).1 is CreateDir ==> s.phase is Querying && outcome is Info && offending_key(
            outcome->Info_0,
        ) is None && next_view(s, outcome).1 == (ActionView::CreateDir { dir: staging_dir(s.target) }),
        next_view(s, outcome).1 is WriteFile ==> s.phase is CreatingDir && outcome is Done
            && next_view(s, outcome).1->WriteFile_path == staging_file(s.target)->Some_0,
        s.phase is CreatingDir && outcome is Failed ==> next_view(s, outcome).0.finished() && next_view(
            s,
            outcome,
        ).1 == (if s.required {
            ActionView::Abort { error: ErrorView::CreateDir { dir: staging_dir(s.target), cause: outcome->Failed_0 } }
        } else {
            ActionView::ServeWithoutFragment {
                error: ErrorView::CreateDir { dir: staging_dir(s.target), cause: outcome->Failed_0 },
            }
        }),
{
}

/// Once the identity has been received, the file written is its rendering,
/// staged next to the destination, and the file renamed onto the destination is
/// that staged file.
pub proof fn written_text_is_rendering(s: StartupView, info: InstanceInfo)
    requires
        s.wf(),
        s.phase is Querying,
        offending_key(info) is None,
        staging_file(s.target) is Some,
    ensures
        ({
            let created = next_view(s, OutcomeView::Info(info)).0;
            let written = next_view(created, OutcomeView::Done);
            let renamed = next_view(written.0, OutcomeView::Done);
            &&& written.1 == (ActionView::WriteFile {
                path: staging_file(s.target)->Some_0,
                contents: rendered(info),
            })
            &&& renamed.1 == (ActionView::Rename {
                from: staging_file(s.target)->Some_0,
                to: s.target,
            })
        }),
{
}

/// An identity that cannot be rendered stops the sequence before anything is
/// written, naming the offending field.
pub proof fn unrenderable_identity_aborts(s: StartupView, info: InstanceInfo)
    requires
        s.wf(),
        s.phase is Querying,
        offending_key(info) is Some,
    ensures
        next_view(s, OutcomeView::Info(info)) == give_up_view(
            s,
            ErrorView::Render(RenderError { key: offending_key(info)->Some_0 }),
        ),
{
}

/// No stale temporary file is left behind: once the staged file is written,
/// the sequence either serves, or removes the staged file and then stops.
pub proof fn failed_rename_removes_staged_file(
    s: StartupView,
    cause: Seq<char>,
    removal: OutcomeView,
)
    requires
        s.wf(),
        s.phase is Renaming,
        removal !is Info,
    ensures
        ({
            let (removing, action) = next_view(s, OutcomeView::Failed(cause));
            let temp = s.phase->Renaming_temp;
            &&& action == (ActionView::RemoveFile { path: temp })
            &&& removing.accepts(removal)
            &&& next_view(removing, removal) == give_up_view(
                removing,
                ErrorView::Rename { from: temp, to: s.target, cause },
            )
        }),
{
}

/// A failure stops the sequence exactly when the fragment is required; when it
/// is not, the sequence serves anyway, reporting the failure.
pub proof fn failures_stop_only_when_required(s: StartupView, outcome: OutcomeView)
    requires
        s.wf(),
        s.accepts(outcome),
    ensures
        next_view(s, outcome).1 is Abort ==> s.required,
        next_view(s, outcome).1 is ServeWithoutFragment ==> !s.required,
{
}

/// A failed query is retried after the configured delay while attempts
/// remain, and stops the sequence once they are used up.
pub proof fn failed_query_is_retried(s: StartupView, cause: Seq<char>)
    requires
        s.wf(),
        s.phase is Querying,
    ensures
        ({
            let attempt = s.phase->Querying_attempt;
            let (waiting, action) = next_view(s, OutcomeView::Failed(cause));
            if attempt < s.attempts {
                &&& action == (ActionView::Sleep {
                    millis: s.retry_delay_ms,
                    failed_attempt: attempt,
                    attempts: s.attempts,
                    cause,
                })
                &&& next_view(waiting, OutcomeView::Done).1 == (ActionView::QueryInfo {
                    attempt: (attempt + 1) as u32,
                    attempts: s.attempts,
                })
            } else {
                (waiting, action) == give_up_view(s, ErrorView::GuestAgent { attempts: s.attempts, cause })
            }
        }),
{
}

/// Whether `action` touches only the staging directory and file of `s`, and
/// the destination only by renaming the staged file onto it.
pub open spec fn touches_only_staging(s: StartupView, action: ActionView) -> bool {
    match action {
        ActionView::CreateDir { dir } => dir == staging_dir(s.target),
        ActionView::WriteFile { path, contents } => staging_file(s.target) == Some(path),
        ActionView::RemoveFile { path } => staging_file(s.target) == Some(path),
        ActionView::Rename { from, to } => staging_file(s.target) == Some(from) && to == s.target,
        _ => true,
    }
}

/// The file system is touched only in the destination's staging directory:
/// the directory is created, the staged file (next to the destination) is
/// written or removed, and the destination is only ever replaced by renaming
/// the staged file onto it.
pub proof fn only_staging_paths_are_touched(s: StartupView, outcome: OutcomeView)
    requires
        s.wf(),
        s.accepts(outcome),
    ensures
        touches_only_staging(next_view(s, outcome).0, next_view(s, outcome).1),
        next_view(s, outcome).0.target == s.target,
{
}

/// The state reached from `s` after `failures` queries that failed, each
/// followed by its wait.
pub open spec fn after_failed_queries(s: StartupView, failures: nat) -> StartupView
    decreases failures,
{
    if failures == 0 {
        s
    } else {
        let before = after_failed_queries(s, (failures - 1) as nat);
        let waiting = next_view(before, OutcomeView::Failed(Seq::empty())).0;
        next_view(waiting, OutcomeView::Done).0
    }
}

proof fn lemma_after_failed_queries(s: StartupView, failures: nat)
    requires
        s.wf(),
        s.phase is Querying,
        s.phase->Querying_attempt + failures <= s.attempts,
    ensures
        after_failed_queries(s, failures) == s.with_phase(
            PhaseView::Querying { attempt: (s.phase->Querying_attempt + failures) as u32 },
        ),
    decreases failures,
{
    if failures > 0 {
        lemma_after_failed_queries(s, (failures - 1) as nat);
    }
}

/// A run whose `k`-th query is the first to succeed makes exactly `k` queries,
/// with a wait after each failed one, and uses that answer: an identity that
/// renders is written (its rendering), one that does not ends the sequence on
/// the field at fault.
pub proof fn kth_answer_is_used(cfg: FluentBitFragmentConfig, k: nat, info: InstanceInfo)
    requires
        cfg.enabled,
        1 <= k <= total_attempts(cfg.retries),
    ensures
        ({
            let s = after_failed_queries(begin_view(cfg).0, (k - 1) as nat);
            let (created, action) = next_view(s, OutcomeView::Info(info));
            &&& s.phase == (PhaseView::Querying { attempt: k as u32 })
            &&& offending_key(info) is None ==> action == (ActionView::CreateDir {
                dir: staging_dir(cfg.path@),
            }) && created.phase == (PhaseView::CreatingDir {
                dir: staging_dir(cfg.path@),
                contents: rendered(info),
            })
            &&& offending_key(info) is Some ==> (created, action) == give_up_view(
                s,
                ErrorView::Render(RenderError { key: offending_key(info)->Some_0 }),
            )
        }),
{
    lemma_after_failed_queries(begin_view(cfg).0, (k - 1) as nat);
}

// ----- Whole runs -----

/// The state reached and the actions given (the first one included) when the
/// sequence for `cfg` is answered with `outcomes` in turn; an outcome that does
/// not fit the awaited action is passed over.
pub open spec fn run(cfg: FluentBitFragmentConfig, outcomes: Seq<OutcomeView>) -> (StartupView, Seq<ActionView>)
    decreases outcomes.len(),
{
    if outcomes.len() == 0 {
        (begin_view(cfg).0, seq![begin_view(cfg).1])
    } else {
        let (s, actions) = run(cfg, outcomes.drop_last());
        if s.accepts(outcomes.last()) {
            let (next, action) = next_view(s, outcomes.last());
            (next, actions.push(action))
        } else {
            (s, actions)
        }
    }
}

/// Whether `action` is the one that the phase of `s` awaits the outcome of.
pub open spec fn awaits(s: StartupView, action: ActionView) -> bool {
    match s.phase {
        PhaseView::Querying { attempt } => action == (ActionView::QueryInfo { attempt, attempts: s.attempts }),
        PhaseView::Waiting { attempt } => action is Sleep,
        PhaseView::CreatingDir { dir, contents } => action == (ActionView::CreateDir { dir }),
        PhaseView::WritingTemp { temp } => action == (ActionView::WriteFile { path: temp, contents: action->WriteFile_contents }),
        PhaseView::Renaming { temp } => action == (ActionView::Rename { from: temp, to: s.target }),
        PhaseView::RemovingTemp { temp, cause } => action == (ActionView::RemoveFile { path: temp }),
        PhaseView::Serving => action is Serve || action is ServeWithoutFragment,
        PhaseView::Aborted => action is Abort,
    }
}

/// The number of queries among `actions`.
pub open spec fn count_queries(actions: Seq<ActionView>) -> nat
    decreases actions.len(),
{
    if actions.len() == 0 {
        0
    } else {
        count_queries(actions.drop_last()) + if actions.last() is QueryInfo { 1nat } else { 0nat }
    }
}

/// The number of waits among `actions`.
pub open spec fn count_sleeps(actions: Seq<ActionView>) -> nat
    decreases actions.len(),
{
    if actions.len() == 0 {
        0
    } else {
        count_sleeps(actions.drop_last()) + if actions.last() is Sleep { 1nat } else { 0nat }
    }
}

/// Whether each wait among `actions` comes right after a query, waits
/// `millis`, and is followed (if anything follows) by a query.
pub open spec fn waits_between_queries(actions: Seq<ActionView>, millis: u64) -> bool {
    forall|i: int|
        0 <= i < actions.len() && #[trigger] actions[i] is Sleep ==> {
            &&& i > 0 && actions[i - 1] is QueryInfo
            &&& actions[i]->Sleep_millis == millis
            &&& i + 1 < actions.len() ==> actions[i + 1] is QueryInfo
        }
}

/// What holds of the state `s` and the actions `actions` of a run for `cfg`.
#[verifier::opaque]
pub open spec fn run_invariant(cfg: FluentBitFragmentConfig, s: StartupView, actions: Seq<ActionView>) -> bool {
    let queries = count_queries(actions);
    let sleeps = count_sleeps(actions);
    &&& s.wf()
    &&& actions.len() >= 1
    &&& awaits(s, actions.last())
    &&& s.required == cfg.required
    &&& s.attempts == total_attempts(cfg.retries)
    &&& s.retry_delay_ms == cfg.retry_delay_ms
    &&& s.target == cfg.path@
    &&& !cfg.enabled ==> s.phase is Serving && actions == seq![ActionView::Serve]
    &&& cfg.enabled ==> match s.phase {
        PhaseView::Querying { attempt } => queries == attempt && sleeps + 1 == attempt,
        PhaseView::Waiting { attempt } => queries + 1 == attempt && sleeps + 1 == attempt,
        _ => queries == sleeps + 1 && 1 <= queries <= s.attempts,
    }
    &&& waits_between_queries(actions, cfg.retry_delay_ms)
}

proof fn lemma_counts_push(actions: Seq<ActionView>, action: ActionView)
    ensures
        count_queries(actions.push(action)) == count_queries(actions) + if action is QueryInfo { 1nat } else { 0nat },
        count_sleeps(actions.push(action)) == count_sleeps(actions) + if action is Sleep { 1nat } else { 0nat },
{
    assert(actions.push(action).drop_last() =~= actions);
}

proof fn lemma_waits_push(actions: Seq<ActionView>, action: ActionView, millis: u64)
    requires
        waits_between_queries(actions, millis),
        actions.len() >= 1,
        action is Sleep ==> actions.last() is QueryInfo && action->Sleep_millis == millis,
        actions.last() is Sleep ==> action is QueryInfo,
    ensures
        waits_between_queries(actions.push(action), millis),
{
    let all = actions.push(action);
    assert forall|i: int| 0 <= i < all.len() && #[trigger] all[i] is Sleep implies {
        &&& i > 0 && all[i - 1] is QueryInfo
        &&& all[i]->Sleep_millis == millis
        &&& i + 1 < all.len() ==> all[i + 1] is QueryInfo
    } by {
        if i < actions.len() {
            assert(all[i] == actions[i]);
            assert(all[i - 1] == actions[i - 1]);
            if i + 1 < actions.len() {
                assert(all[i + 1] == actions[i + 1]);
            }
        }
    }
}

/// A step of a run keeps what holds of runs.
proof fn lemma_step_invariant(
    cfg: FluentBitFragmentConfig,
    s: StartupView,
    actions: Seq<ActionView>,
    outcome: OutcomeView,
)
    requires
        run_invariant(cfg, s, actions),
        s.accepts(outcome),
    ensures
        run_invariant(cfg, next_view(s, outcome).0, actions.push(next_view(s, outcome).1)),
{
    reveal(run_invariant);
    let (next, action) = next_view(s, outcome);
    lemma_counts_push(actions, action);
    lemma_waits_push(actions, action, cfg.retry_delay_ms);
    assert(actions.push(action).last() == action);
}

/// What holds of every run.
proof fn lemma_run(cfg: FluentBitFragmentConfig, outcomes: Seq<OutcomeView>)
    ensures
        run_invariant(cfg, run(cfg, outcomes).0, run(cfg, outcomes).1),
    decreases outcomes.len(),
{
    if outcomes.len() == 0 {
        reveal(run_invariant);
        let a = begin_view(cfg).1;
        lemma_counts_push(Seq::<ActionView>::empty(), a);
        assert(seq![a] =~= Seq::<ActionView>::empty().push(a));
        assert(count_queries(Seq::<ActionView>::empty()) == 0);
        assert(count_sleeps(Seq::<ActionView>::empty()) == 0);
    } else {
        lemma_run(cfg, outcomes.drop_last());
        let (s, actions) = run(cfg, outcomes.drop_last());
        if s.accepts(outcomes.last()) {
            lemma_step_invariant(cfg, s, actions, outcomes.last());
        }
    }
}

/// The parts of `run_invariant` that the laws below use.
proof fn lemma_run_basics(cfg: FluentBitFragmentConfig, outcomes: Seq<OutcomeView>)
    ensures
        ({
            let (s, actions) = run(cfg, outcomes);
            &&& s.wf()
            &&& actions.len() >= 1
            &&& awaits(s, actions.last())
            &&& s.required == cfg.required
            &&& s.target == cfg.path@
            &&& !cfg.enabled ==> s.phase is Serving && actions == seq![ActionView::Serve]
        }),
{
    lemma_run(cfg, outcomes);
    reveal(run_invariant);
}

/// How a run ends: with `Serve` either when the file is not enabled or right
/// after the rename of the staged file onto the destination (the one action
/// whose success gives `Serve`); with `Abort` only
/// when the file is enabled and required; with `ServeWithoutFragment` only
/// when it is enabled and not required. So, once the file is enabled, startup
/// fails exactly when the file is required and is not written.
pub proof fn run_ends_as_configured(cfg: FluentBitFragmentConfig, outcomes: Seq<OutcomeView>)
    ensures
        ({
            let (s, actions) = run(cfg, outcomes);
            let last = actions.last();
            &&& s.finished() <==> (last is Serve || last is Abort || last is ServeWithoutFragment)
            &&& last is Abort ==> cfg.enabled && cfg.required
            &&& last is ServeWithoutFragment ==> cfg.enabled && !cfg.required
            &&& last is Serve && cfg.enabled ==> actions.len() >= 2 && actions[actions.len() - 2] == (ActionView::Rename {
                from: staging_file(cfg.path@)->Some_0,
                to: cfg.path@,
            })
            &&& s.finished() && cfg.enabled && cfg.required && !(last is Serve) ==> last is Abort
        }),
    decreases outcomes.len(),
{
    lemma_run_basics(cfg, outcomes);
    let (s, actions) = run(cfg, outcomes);
    if outcomes.len() > 0 && cfg.enabled {
        let rest = outcomes.drop_last();
        lemma_run_basics(cfg, rest);
        let (p, before) = run(cfg, rest);
        if p.accepts(outcomes.last()) {
            failures_stop_only_when_required(p, outcomes.last());
            assert(actions.last() == next_view(p, outcomes.last()).1);
            assert(s == next_view(p, outcomes.last()).0);
            if actions.last() is Serve {
                serve_only_after_rename(p, outcomes.last());
                assert(actions[actions.len() - 2] == before.last());
            }
        } else {
            run_ends_as_configured(cfg, rest);
        }
    } else if outcomes.len() == 0 && cfg.enabled {
        assert(actions.last() is QueryInfo);
    }
}

/// Queries and waits alternate: every wait (of the configured delay) comes
/// right after a query and is followed by the next query, so a run that has
/// queried `m` times has waited `m - 1` times once it is past querying, and
/// it queries at most `retries + 1` times.
pub proof fn queries_and_waits_alternate(cfg: FluentBitFragmentConfig, outcomes: Seq<OutcomeView>)
    requires
        cfg.enabled,
    ensures
        ({
            let (s, actions) = run(cfg, outcomes);
            &&& waits_between_queries(actions, cfg.retry_delay_ms)
            &&& count_queries(actions) <= total_attempts(cfg.retries)
            &&& count_sleeps(actions) <= count_queries(actions) <= count_sleeps(actions) + 1
            &&& !(s.phase is Querying || s.phase is Waiting) ==> count_queries(actions) == count_sleeps(actions) + 1
        }),
{
    lemma_run(cfg, outcomes);
    reveal(run_invariant);
}

/// The number of queries made from `s` when every query fails.
pub open spec fn queries_when_all_fail(s: StartupView) -> nat
    decreases s.steps_left(),
    when s.wf()
{
    match s.phase {
        PhaseView::Querying { attempt } => {
            let (waiting, action) = next_view(s, OutcomeView::Failed(Seq::empty()));
            if action is Abort || action is ServeWithoutFragment {
                1
            } else {
                1 + queries_when_all_fail(next_view(waiting, OutcomeView::Done).0)
            }
        },
        _ => 0,
    }
}

/// From attempt `attempt`, the queries left when all fail.
proof fn lemma_queries_left(s: StartupView)
    requires
        s.wf(),
        s.phase is Querying,
    ensures
        queries_when_all_fail(s) == s.attempts - s.phase->Querying_attempt + 1,
    decreases s.attempts - s.phase->Querying_attempt,
{
    let attempt = s.phase->Querying_attempt;
    if attempt < s.attempts {
        let waiting = next_view(s, OutcomeView::Failed(Seq::empty())).0;
        let again = next_view(waiting, OutcomeView::Done).0;
        lemma_queries_left(again);
    }
}

/// The guest agent is queried at most `retries + 1` times (at most `u32::MAX`
/// times): when every query fails, exactly that many queries are made before
/// the sequence gives up.
pub proof fn query_budget(cfg: FluentBitFragmentConfig)
    requires
        cfg.enabled,
    ensures
        queries_when_all_fail(begin_view(cfg).0) == total_attempts(cfg.retries),
{
    lemma_queries_left(begin_view(cfg).0);
}

} // verus!
