//! One compilation attempt as a sequence of decisions.
//!
//! The attempt itself touches nothing outside. It tells its driver what to
//! do next, and the driver reports back what happened:
//!
//! `Idle → Cleaning → Writing → Invoking → Parsing → Done`
//!
//! Every attempt runs through the stages in this order and never goes back.
//! A failure of the workspace, of the write or of the compiler's start ends
//! the attempt at once, before any later stage is entered.

use vstd::prelude::*;
use vstd::string::StringExecFns;
use crate::diagnostic::{diagnostics_of, parse_latex_errors, views_of, Diagnostic, LatexError};
use crate::result::{assemble_result, verdict, CompilationResult};
use crate::compiler::{compiler_flag_list, compiler_flags};
use crate::workspace::{
    artifact_file_name, artifact_name, source_file_name, source_name, stale_file_names,
    stale_names, texts_of,
};

verus! {

/// Where an attempt stands.
#[derive(Clone, Copy, Debug, PartialEq, Eq, Structural)]
pub enum Stage {
    Idle,
    Cleaning,
    Writing,
    Invoking,
    Parsing,
    Done,
}

impl Stage {
    /// Position of the stage in the order of an attempt.
    pub open spec fn rank(self) -> nat {
        match self {
            Stage::Idle => 0,
            Stage::Cleaning => 1,
            Stage::Writing => 2,
            Stage::Invoking => 3,
            Stage::Parsing => 4,
            Stage::Done => 5,
        }
    }
}

/// Why an attempt ended without a result.
#[derive(Clone, Debug, PartialEq, Eq)]
pub enum CompileError {
    /// The workspace directory could not be created.
    Workspace(String),
    /// The source file could not be written.
    SourceWrite(String),
    /// The compiler could not be started.
    CompilerMissing(String),
    /// The artifact exists but its path cannot be written as text.
    InvalidPath,
}

/// What `CompileError::message` says.
pub open spec fn error_text(e: CompileError) -> Seq<char> {
    match e {
        CompileError::Workspace(detail) => "Failed to create temp dir: "@ + detail@,
        CompileError::SourceWrite(detail) => "Failed to write tex file: "@ + detail@,
        CompileError::CompilerMissing(detail) => "Failed to run pdflatex: "@ + detail@
            + ". Make sure pdflatex is installed and in PATH."@,
        CompileError::InvalidPath => "Invalid PDF path"@,
    }
}

impl CompileError {
    /// The error in words, for the user.
    pub fn message(&self) -> (text: String)
        ensures
            text@ == error_text(*self),
    {
        match self {
            CompileError::Workspace(detail) => String::from_str(
                "Failed to create temp dir: ",
            ).concat(detail.as_str()),
            CompileError::SourceWrite(detail) => String::from_str(
                "Failed to write tex file: ",
            ).concat(detail.as_str()),
            CompileError::CompilerMissing(detail) => String::from_str(
                "Failed to run pdflatex: ",
            ).concat(detail.as_str()).concat(". Make sure pdflatex is installed and in PATH."),
            CompileError::InvalidPath => String::from_str("Invalid PDF path"),
        }
    }
}

/// What the driver found when it looked for the artifact.
#[derive(Clone, Debug, PartialEq, Eq)]
pub enum Artifact {
    /// No such file.
    Absent,
    /// The file exists, at this path.
    Present(String),
    /// The file exists, but its path is not valid text.
    Unnameable,
}

/// What the driver reports to the attempt.
#[derive(Clone, Debug, PartialEq, Eq)]
pub enum Event {
    /// The caller asks for the attempt to begin.
    Begin,
    /// The workspace exists and the stale files were dealt with. A stale
    /// file that was missing or could not be deleted does not matter.
    WorkspaceReady,
    /// The workspace directory could not be created.
    WorkspaceFailed(String),
    /// The source was written in full.
    SourceWritten,
    /// The source could not be written.
    WriteFailed(String),
    /// The compiler ran and exited, whatever its exit status; this is its
    /// standard output.
    CompilerExited(String),
    /// The compiler could not be started.
    CompilerNotStarted(String),
    /// The driver looked for the artifact.
    Inspected(Artifact),
}

/// What the attempt asks of its driver. File names are relative to the
/// workspace root.
#[derive(Clone, Debug, PartialEq, Eq)]
pub enum Action {
    /// Create the workspace root if it is missing, then delete these files,
    /// ignoring any that cannot be deleted.
    Clean(Vec<String>),
    /// Write the source text to this file, replacing what is there.
    Write(String),
    /// Run the compiler with these flags, followed by the workspace root and
    /// the path of this source file, and wait for it to exit.
    Invoke { flags: Vec<String>, source: String },
    /// Look whether this file exists.
    Inspect(String),
    /// Hand this result to the caller.
    Finish(CompilationResult),
    /// Hand this error to the caller.
    Fail(CompileError),
}

/// One attempt to compile one document.
#[derive(Debug)]
pub struct Attempt {
    id: String,
    stage: Stage,
    errors: Vec<LatexError>,
}

/// What an `Attempt` stands for.
pub struct AttemptState {
    pub id: Seq<char>,
    pub stage: Stage,
    pub diagnostics: Seq<Diagnostic>,
}

/// Whether `event` is one that `stage` waits for.
pub open spec fn awaited(stage: Stage, event: Event) -> bool {
    match (stage, event) {
        (Stage::Idle, Event::Begin) => true,
        (Stage::Cleaning, Event::WorkspaceReady) => true,
        (Stage::Cleaning, Event::WorkspaceFailed(_)) => true,
        (Stage::Writing, Event::SourceWritten) => true,
        (Stage::Writing, Event::WriteFailed(_)) => true,
        (Stage::Invoking, Event::CompilerExited(_)) => true,
        (Stage::Invoking, Event::CompilerNotStarted(_)) => true,
        (Stage::Parsing, Event::Inspected(_)) => true,
        _ => false,
    }
}

/// The stage that follows `stage` on an awaited event.
pub open spec fn stage_after(stage: Stage, event: Event) -> Stage {
    match (stage, event) {
        (Stage::Idle, Event::Begin) => Stage::Cleaning,
        (Stage::Cleaning, Event::WorkspaceReady) => Stage::Writing,
        (Stage::Writing, Event::SourceWritten) => Stage::Invoking,
        (Stage::Invoking, Event::CompilerExited(_)) => Stage::Parsing,
        _ => Stage::Done,
    }
}

/// Whether `action` is what an attempt in state `before` asks for on an
/// awaited `event`, and `diagnostics` what it then remembers.
pub open spec fn decided(
    before: AttemptState,
    event: Event,
    diagnostics: Seq<Diagnostic>,
    action: Action,
) -> bool {
    match event {
        Event::Begin => {
            &&& diagnostics == before.diagnostics
            &&& action matches Action::Clean(names)
            &&& texts_of(names@) == stale_names(before.id)
        },
        Event::WorkspaceReady => {
            &&& diagnostics == before.diagnostics
            &&& action matches Action::Write(name)
            &&& name@ == source_name(before.id)
        },
        Event::WorkspaceFailed(detail) => {
            &&& diagnostics == before.diagnostics
            &&& action matches Action::Fail(CompileError::Workspace(d))
            &&& d@ == detail@
        },
        Event::SourceWritten => {
            &&& diagnostics == before.diagnostics
            &&& action matches Action::Invoke { flags, source }
            &&& texts_of(flags@) == compiler_flags()
            &&& source@ == source_name(before.id)
        },
        Event::WriteFailed(detail) => {
            &&& diagnostics == before.diagnostics
            &&& action matches Action::Fail(CompileError::SourceWrite(d))
            &&& d@ == detail@
        },
        Event::CompilerExited(output) => {
            &&& diagnostics == diagnostics_of(output@)
            &&& action matches Action::Inspect(name)
            &&& name@ == artifact_name(before.id)
        },
        Event::CompilerNotStarted(detail) => {
            &&& diagnostics == before.diagnostics
            &&& action matches Action::Fail(CompileError::CompilerMissing(d))
            &&& d@ == detail@
        },
        Event::Inspected(Artifact::Absent) => {
            &&& diagnostics == Seq::<Diagnostic>::empty()
            &&& action matches Action::Finish(r)
            &&& r@ == verdict(None, before.diagnostics)
        },
        Event::Inspected(Artifact::Present(path)) => {
            &&& diagnostics == Seq::<Diagnostic>::empty()
            &&& action matches Action::Finish(r)
            &&& r@ == verdict(Some(path@), before.diagnostics)
        },
        Event::Inspected(Artifact::Unnameable) => {
            &&& diagnostics == Seq::<Diagnostic>::empty()
            &&& action is Fail
            &&& action->Fail_0 is InvalidPath
        },
    }
}

/// An attempt only moves forward: every awaited event takes it to a later
/// stage, a failure takes it straight to the end, and at the end no event is
/// awaited. So no stage is entered twice and nothing is retried.
pub proof fn lemma_attempt_moves_forward(stage: Stage, event: Event)
    ensures
        awaited(stage, event) ==> stage_after(stage, event).rank() > stage.rank(),
        awaited(stage, event) && (event is WorkspaceFailed || event is WriteFailed
            || event is CompilerNotStarted) ==> stage_after(stage, event) == Stage::Done,
        !awaited(Stage::Done, event),
{
}

/// The compiler is only ever invoked after the stale files were dealt with
/// and the source was written: the stage that waits for the compiler is
/// reached from `Writing` alone, and `Writing` from `Cleaning` alone.
pub proof fn lemma_cleanup_precedes_invocation(stage: Stage, event: Event)
    requires
        awaited(stage, event),
    ensures
        stage_after(stage, event) == Stage::Invoking ==> stage == Stage::Writing
            && event is SourceWritten,
        stage_after(stage, event) == Stage::Writing ==> stage == Stage::Cleaning
            && event is WorkspaceReady,
        stage_after(stage, event) == Stage::Cleaning ==> stage == Stage::Idle,
        stage_after(stage, event) == Stage::Parsing ==> stage == Stage::Invoking
            && event is CompilerExited,
{
}

impl View for Attempt {
    type V = AttemptState;

    closed spec fn view(&self) -> AttemptState {
        AttemptState { id: self.id@, stage: self.stage, diagnostics: views_of(self.errors@) }
    }
}

impl Attempt {
    /// A fresh attempt for the document `id`, not yet begun.
    pub fn new(id: String) -> (attempt: Attempt)
        ensures
            attempt@ == (AttemptState {
                id: id@,
                stage: Stage::Idle,
                diagnostics: Seq::<Diagnostic>::empty(),
            }),
    {
        let attempt = Attempt { id, stage: Stage::Idle, errors: Vec::new() };
        assert(views_of(attempt.errors@) =~= Seq::<Diagnostic>::empty());
        attempt
    }

    /// Where the attempt stands.
    pub fn stage(&self) -> (stage: Stage)
        ensures
            stage == self@.stage,
    {
        self.stage
    }

    /// Takes in what the driver reports and says what to do next.
    ///
    /// An event that the current stage does not wait for is refused: the
    /// attempt stays as it is and asks for nothing. Every other event moves
    /// the attempt one stage forward or ends it.
    pub fn step(&mut self, event: Event) -> (action: Option<Action>)
        ensures
            final(self)@.id == old(self)@.id,
            !awaited(old(self)@.stage, event) ==> action is None && final(self)@ == old(self)@,
            awaited(old(self)@.stage, event) ==> {
                &&& final(self)@.stage == stage_after(old(self)@.stage, event)
                &&& action matches Some(a)
                &&& decided(old(self)@, event, final(self)@.diagnostics, a)
            },
    {
        match (self.stage, event) {
            (Stage::Idle, Event::Begin) => {
                self.stage = Stage::Cleaning;
                Some(Action::Clean(stale_file_names(self.id.as_str())))
            },
            (Stage::Cleaning, Event::WorkspaceReady) => {
                self.stage = Stage::Writing;
                Some(Action::Write(source_file_name(self.id.as_str())))
            },
            (Stage::Cleaning, Event::WorkspaceFailed(detail)) => {
                self.stage = Stage::Done;
                Some(Action::Fail(CompileError::Workspace(detail)))
            },
            (Stage::Writing, Event::SourceWritten) => {
                self.stage = Stage::Invoking;
                Some(
                    Action::Invoke {
                        flags: compiler_flag_list(),
                        source: source_file_name(self.id.as_str()),
                    },
                )
            },
            (Stage::Writing, Event::WriteFailed(detail)) => {
                self.stage = Stage::Done;
                Some(Action::Fail(CompileError::SourceWrite(detail)))
            },
            (Stage::Invoking, Event::CompilerExited(output)) => {
                self.stage = Stage::Parsing;
                self.errors = parse_latex_errors(output.as_str());
                Some(Action::Inspect(artifact_file_name(self.id.as_str())))
            },
            (Stage::Invoking, Event::CompilerNotStarted(detail)) => {
                self.stage = Stage::Done;
                Some(Action::Fail(CompileError::CompilerMissing(detail)))
            },
            (Stage::Parsing, Event::Inspected(found)) => {
                self.stage = Stage::Done;
                let mut errors: Vec<LatexError> = Vec::new();
                core::mem::swap(&mut errors, &mut self.errors);
                assert(views_of(self.errors@) =~= Seq::<Diagnostic>::empty());
                match found {
                    Artifact::Absent => Some(Action::Finish(assemble_result(None, errors))),
                    Artifact::Present(path) => Some(
                        Action::Finish(assemble_result(Some(path), errors)),
                    ),
                    Artifact::Unnameable => Some(Action::Fail(CompileError::InvalidPath)),
                }
            },
            _ => None,
        }
    }
}

} // verus!
