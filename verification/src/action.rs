//! What the executor asks its driver to do, and what the driver answers.
//!
//! The executor opens no file and starts no process. It names one effect at
//! a time; the driver performs it and reports how it went.

use crate::text::strings;
use vstd::prelude::*;

verus! {

/// Where an external command's input comes from.
#[derive(Debug, Clone, Copy, PartialEq, Eq)]
pub enum Source {
    /// The terminal's input.
    Terminal,
    /// The file that the segment's `OpenRead` opened.
    File,
    /// The output of the process with this handle, which is thereby consumed.
    Process(usize),
}

/// Where an external command's output goes.
#[derive(Debug, Clone, Copy, PartialEq, Eq)]
pub enum Sink {
    /// The terminal's output.
    Terminal,
    /// The file that the segment's `OpenWrite` opened.
    File,
    /// The write end of a new pipe, whose read end the process keeps for
    /// the segment that follows.
    Pipe,
}

/// How an effect went.
#[derive(Debug, Clone, Copy, PartialEq, Eq)]
pub enum Outcome {
    Done,
    Failed,
}

/// A failure that is reported and does not end the line.
#[derive(Debug, Clone, Copy, PartialEq, Eq)]
pub enum Fault {
    /// The working directory could not be changed.
    ChangeDir,
    /// The external program could not be started.
    Spawn,
}

/// A failure that ends the line.
#[derive(Debug, Clone, Copy, PartialEq, Eq)]
pub enum LineError {
    /// The file of a read redirection could not be opened.
    OpenRead,
    /// The file of a write redirection could not be opened.
    OpenWrite,
    /// The screen could not be cleared.
    ClearScreen,
    /// The recorded history could not be cleared.
    ClearHistory,
    /// The history file could not be written.
    WriteHistory,
    /// Waiting for the last process failed.
    Wait,
}

/// One effect for the driver to perform.
#[derive(Debug, PartialEq, Eq)]
pub enum Action {
    /// Open the file at `path` for reading. With `hold`, keep it as the
    /// input of the spawn that follows; without, close it at once.
    OpenRead { path: String, hold: bool },
    /// Open the file at `path` for writing, creating it if it is absent.
    /// With `hold`, keep it as the output of the spawn that follows;
    /// without, close it at once.
    OpenWrite { path: String, hold: bool },
    /// Let go of the process with this handle, without waiting for it.
    Release { handle: usize },
    /// Print every recorded history entry.
    PrintHistory,
    /// Change the working directory to `path`.
    ChangeDir { path: String },
    /// Print the shell's current path, which is `path`.
    PrintPath { path: String },
    /// Clear the terminal.
    ClearScreen,
    /// Clear the history held in memory.
    ForgetHistory,
    /// Overwrite the history file with `contents`.
    RewriteHistory { contents: String },
    /// Tell the user that the history was cleared.
    AnnounceCleared,
    /// Print the usage text.
    PrintHelp,
    /// Start `program` with the arguments `args`, and keep the process under
    /// `handle` if it starts.
    Spawn { handle: usize, program: String, args: Vec<String>, stdin: Source, stdout: Sink },
    /// Report the failure of the effect before this one.
    Report { fault: Fault },
    /// Block until the process with this handle exits.
    Wait { handle: usize },
    /// The line is over, with this result. Nothing is left to perform.
    Finish { result: Result<(), LineError> },
}

/// The mathematical value of an `Action`.
pub enum ActionView {
    OpenRead { path: Seq<char>, hold: bool },
    OpenWrite { path: Seq<char>, hold: bool },
    Release { handle: usize },
    PrintHistory,
    ChangeDir { path: Seq<char> },
    PrintPath { path: Seq<char> },
    ClearScreen,
    ForgetHistory,
    RewriteHistory { contents: Seq<char> },
    AnnounceCleared,
    PrintHelp,
    Spawn { handle: usize, program: Seq<char>, args: Seq<Seq<char>>, stdin: Source, stdout: Sink },
    Report { fault: Fault },
    Wait { handle: usize },
    Finish { result: Result<(), LineError> },
}

impl View for Action {
    type V = ActionView;

    open spec fn view(&self) -> ActionView {
        match self {
            Action::OpenRead { path, hold } => ActionView::OpenRead { path: path@, hold: *hold },
            Action::OpenWrite { path, hold } => ActionView::OpenWrite { path: path@, hold: *hold },
            Action::Release { handle } => ActionView::Release { handle: *handle },
            Action::PrintHistory => ActionView::PrintHistory,
            Action::ChangeDir { path } => ActionView::ChangeDir { path: path@ },
            Action::PrintPath { path } => ActionView::PrintPath { path: path@ },
            Action::ClearScreen => ActionView::ClearScreen,
            Action::ForgetHistory => ActionView::ForgetHistory,
            Action::RewriteHistory { contents } => ActionView::RewriteHistory {
                contents: contents@,
            },
            Action::AnnounceCleared => ActionView::AnnounceCleared,
            Action::PrintHelp => ActionView::PrintHelp,
            Action::Spawn { handle, program, args, stdin, stdout } => ActionView::Spawn {
                handle: *handle,
                program: program@,
                args: strings(args@),
                stdin: *stdin,
                stdout: *stdout,
            },
            Action::Report { fault } => ActionView::Report { fault: *fault },
            Action::Wait { handle } => ActionView::Wait { handle: *handle },
            Action::Finish { result } => ActionView::Finish { result: *result },
        }
    }
}

} // verus!
