//! The executor as a mathematical state machine.
//!
//! A line is run segment by segment. For each segment that names a command
//! the input is resolved, then the output, then the command is dispatched;
//! when the segments are used up, the process that is left is waited for.
//! Between two effects the machine rests in a `Progress`, which tells which
//! effect is pending; `step` gives the `Progress` that follows once the
//! driver has reported the effect's outcome.

use crate::action::{ActionView, Fault, LineError, Outcome, Sink, Source};
use crate::builtin::{classify, BuiltinView};
use crate::segment::{FilePipeView, SegmentView};
use vstd::prelude::*;

verus! {

/// The point that the run of a line has reached, named after the effect
/// that is pending there.
#[derive(Debug, Clone, Copy, PartialEq, Eq)]
pub enum Stage {
    /// The file of the segment's read redirection is to be opened.
    OpenInput,
    /// A builtin takes the place of the reader of the previous process:
    /// the process is to be let go.
    DropInput,
    /// The file of the segment's write redirection is to be opened.
    OpenOutput,
    /// The command itself is to be performed.
    Run,
    /// A failed change of directory is to be reported.
    ReportChangeDir,
    /// The history file is to be rewritten.
    WriteHistory,
    /// The user is to be told that the history was cleared.
    Announce,
    /// A failed spawn is to be reported.
    ReportSpawn,
    /// The process with this handle has left the slot unread and is to be
    /// let go.
    Discard(usize),
    /// The process in the slot is to be waited for.
    Wait,
    /// The line is over.
    Finished(Result<(), LineError>),
}

/// The state of the run of one line.
pub struct Progress {
    /// The pipeline.
    pub segments: Seq<SegmentView>,
    /// The index of the segment at hand.
    pub index: int,
    /// The pending effect.
    pub stage: Stage,
    /// The slot of the previous process: the handle of the one process
    /// whose output nobody has taken yet, if there is one.
    pub previous: Option<usize>,
}

/// Whether segment `i` of `segs` names a command.
pub open spec fn runnable(segs: Seq<SegmentView>, i: int) -> bool {
    0 <= i < segs.len() && segs[i].parts.len() > 0
}

/// The operation that segment `i` names.
pub open spec fn command_at(segs: Seq<SegmentView>, i: int) -> BuiltinView {
    classify(segs[i].parts[0])
}

/// Whether `seg` redirects its input.
pub open spec fn reads_file(seg: SegmentView) -> bool {
    seg.file matches Some(FilePipeView::ReadFile(_))
}

/// Whether `seg` redirects its output.
pub open spec fn writes_file(seg: SegmentView) -> bool {
    seg.file matches Some(FilePipeView::WriteFile(_))
}

/// The path of the redirection of `seg`.
pub open spec fn file_path(seg: SegmentView) -> Seq<char> {
    match seg.file {
        Some(FilePipeView::ReadFile(path)) => path,
        Some(FilePipeView::WriteFile(path)) => path,
        None => Seq::empty(),
    }
}

/// The directory that a change-directory segment asks for: its first
/// argument, or the root where it has none.
pub open spec fn directory_of(seg: SegmentView) -> Seq<char> {
    if seg.parts.len() > 1 {
        seg.parts[1]
    } else {
        "/"@
    }
}

/// What the history file holds once the history is cleared: the format
/// marker on a line of its own, and no record.
pub open spec fn history_marker() -> Seq<char> {
    "#V2\n"@
}

/// The input of the external command of segment `i`: the redirection's
/// file, else the output of the previous process, else the terminal.
pub open spec fn input_of(segs: Seq<SegmentView>, i: int, previous: Option<usize>) -> Source {
    if reads_file(segs[i]) {
        Source::File
    } else {
        match previous {
            Some(h) => Source::Process(h),
            None => Source::Terminal,
        }
    }
}

/// The output of the external command of segment `i`: the redirection's
/// file, else a pipe where another segment follows, else the terminal.
pub open spec fn output_of(segs: Seq<SegmentView>, i: int) -> Sink {
    if writes_file(segs[i]) {
        Sink::File
    } else if i + 1 < segs.len() {
        Sink::Pipe
    } else {
        Sink::Terminal
    }
}

/// After the last segment: the process left in the slot is waited for, and
/// without one the line is over.
pub open spec fn conclude(segs: Seq<SegmentView>, index: int, previous: Option<usize>) -> Progress {
    Progress {
        segments: segs,
        index,
        stage: if previous is Some {
            Stage::Wait
        } else {
            Stage::Finished(Ok(()))
        },
        previous,
    }
}

/// Dispatch of segment `index`: `exit` ends the pipeline at once, skipping
/// the segments that follow; every other command is run.
pub open spec fn dispatch(segs: Seq<SegmentView>, index: int, previous: Option<usize>) -> Progress {
    if command_at(segs, index) is Exit {
        conclude(segs, index, previous)
    } else {
        Progress { segments: segs, index, stage: Stage::Run, previous }
    }
}

/// Resolution of the output of segment `index`: the file of a write
/// redirection is opened before the command is dispatched.
pub open spec fn resolve_output(
    segs: Seq<SegmentView>,
    index: int,
    previous: Option<usize>,
) -> Progress {
    if writes_file(segs[index]) {
        Progress { segments: segs, index, stage: Stage::OpenOutput, previous }
    } else {
        dispatch(segs, index, previous)
    }
}

/// Resolution of the input of segment `index`: the file of a read
/// redirection is opened; without one, the output of the previous process
/// is this segment's input. An external command takes it with its spawn; a
/// builtin reads nothing, so the process is let go.
pub open spec fn resolve_input(
    segs: Seq<SegmentView>,
    index: int,
    previous: Option<usize>,
) -> Progress {
    if reads_file(segs[index]) {
        Progress { segments: segs, index, stage: Stage::OpenInput, previous }
    } else if previous is Some && !(command_at(segs, index) is Other) {
        Progress { segments: segs, index, stage: Stage::DropInput, previous }
    } else {
        resolve_output(segs, index, previous)
    }
}

/// The run from segment `index` on: segments without a command are passed
/// over, and after the last segment the line is concluded.
pub open spec fn enter(segs: Seq<SegmentView>, index: int, previous: Option<usize>) -> Progress
    decreases segs.len() - index,
{
    if index < 0 || index >= segs.len() {
        conclude(segs, index, previous)
    } else if segs[index].parts.len() == 0 {
        enter(segs, index + 1, previous)
    } else {
        resolve_input(segs, index, previous)
    }
}

/// The slot is cleared at the end of segment `index`: a process that is
/// still in it is let go before the next segment is entered.
pub open spec fn clear_slot(segs: Seq<SegmentView>, index: int, previous: Option<usize>) -> Progress {
    match previous {
        Some(h) => Progress { segments: segs, index, stage: Stage::Discard(h), previous: None },
        None => enter(segs, index + 1, None),
    }
}

/// The state in which the run of the pipeline `segs` starts.
pub open spec fn start(segs: Seq<SegmentView>) -> Progress {
    enter(segs, 0, None)
}

/// The state and the shell's current path that a run reaches from the
/// state `p` and the path `path`, once the driver has reported the outcomes
/// `outcomes`, one for each effect in turn.
pub open spec fn run(p: Progress, path: Seq<char>, outcomes: Seq<Outcome>) -> (Progress, Seq<char>)
    decreases outcomes.len(),
{
    if outcomes.len() == 0 {
        (p, path)
    } else {
        let (q, q_path) = run(p, path, outcomes.drop_last());
        (q.step(outcomes.last()), q.path_after(q_path, outcomes.last()))
    }
}

impl Progress {
    /// The same state at another stage.
    pub open spec fn at(self, stage: Stage) -> Progress {
        Progress { stage, ..self }
    }

    /// The line has failed with `error`. Nothing is left in the slot.
    pub open spec fn fail(self, error: LineError) -> Progress {
        Progress { stage: Stage::Finished(Err(error)), previous: None, ..self }
    }

    /// The state after an effect that ends the line where it fails.
    pub open spec fn unless_failed(self, outcome: Outcome, error: LineError, then: Progress) -> Progress {
        match outcome {
            Outcome::Failed => self.fail(error),
            Outcome::Done => then,
        }
    }

    /// Whether the state is one that a run can reach.
    pub open spec fn wf(self) -> bool {
        let here = runnable(self.segments, self.index);
        let command = command_at(self.segments, self.index);
        &&& 0 <= self.index <= self.segments.len()
        &&& self.segments.len() <= usize::MAX
        &&& self.previous matches Some(h) ==> h <= self.index && (h == self.index
            ==> self.stage is Discard)
        &&& match self.stage {
            Stage::OpenInput => here && reads_file(self.segments[self.index]),
            Stage::DropInput => here && !reads_file(self.segments[self.index])
                && self.previous is Some && !(command is Other),
            Stage::OpenOutput => here && writes_file(self.segments[self.index]),
            Stage::Run => here && !(command is Exit),
            Stage::ReportChangeDir => here && command is Cd,
            Stage::WriteHistory => here && command is ClearHistory,
            Stage::Announce => here && command is ClearHistory,
            Stage::ReportSpawn => here && command is Other,
            Stage::Discard(h) => here && h < self.index,
            Stage::Wait => self.previous is Some,
            Stage::Finished(_) => true,
        }
    }

    /// Whether the line is over.
    pub open spec fn finished(self) -> bool {
        self.stage is Finished
    }

    /// The effect that is pending, where the shell's current path is `path`.
    /// No state that a run can reach has `exit` to run: its dispatch ends
    /// the pipeline.
    pub open spec fn pending(self, path: Seq<char>) -> ActionView {
        let seg = self.segments[self.index];
        match self.stage {
            Stage::OpenInput => ActionView::OpenRead {
                path: file_path(seg),
                hold: command_at(self.segments, self.index) is Other,
            },
            Stage::DropInput => ActionView::Release { handle: self.previous.unwrap() },
            Stage::OpenOutput => ActionView::OpenWrite {
                path: file_path(seg),
                hold: command_at(self.segments, self.index) is Other,
            },
            Stage::Run => match command_at(self.segments, self.index) {
                BuiltinView::History => ActionView::PrintHistory,
                BuiltinView::Cd => ActionView::ChangeDir { path: directory_of(seg) },
                BuiltinView::Pwd => ActionView::PrintPath { path },
                BuiltinView::Clear => ActionView::ClearScreen,
                BuiltinView::Exit => ActionView::Finish { result: Ok(()) },
                BuiltinView::ClearHistory => ActionView::ForgetHistory,
                BuiltinView::Help => ActionView::PrintHelp,
                BuiltinView::Other(name) => ActionView::Spawn {
                    handle: self.index as usize,
                    program: name,
                    args: seg.parts.skip(1),
                    stdin: input_of(self.segments, self.index, self.previous),
                    stdout: output_of(self.segments, self.index),
                },
            },
            Stage::ReportChangeDir => ActionView::Report { fault: Fault::ChangeDir },
            Stage::WriteHistory => ActionView::RewriteHistory { contents: history_marker() },
            Stage::Announce => ActionView::AnnounceCleared,
            Stage::ReportSpawn => ActionView::Report { fault: Fault::Spawn },
            Stage::Discard(h) => ActionView::Release { handle: h },
            Stage::Wait => ActionView::Wait { handle: self.previous.unwrap() },
            Stage::Finished(result) => ActionView::Finish { result },
        }
    }

    /// The state after the command of the segment at hand was performed
    /// with `outcome`.
    pub open spec fn after_command(self, outcome: Outcome) -> Progress {
        let segs = self.segments;
        let next = enter(segs, self.index + 1, self.previous);
        match command_at(segs, self.index) {
            BuiltinView::History => clear_slot(segs, self.index, self.previous),
            BuiltinView::Cd => match outcome {
                Outcome::Done => clear_slot(segs, self.index, self.previous),
                Outcome::Failed => self.at(Stage::ReportChangeDir),
            },
            BuiltinView::Pwd => next,
            BuiltinView::Help => next,
            BuiltinView::Clear => self.unless_failed(outcome, LineError::ClearScreen, next),
            BuiltinView::Exit => conclude(segs, self.index, self.previous),
            BuiltinView::ClearHistory => self.unless_failed(
                outcome,
                LineError::ClearHistory,
                self.at(Stage::WriteHistory),
            ),
            BuiltinView::Other(_) => {
                // A process that the spawn did not take as its input is still there.
                let unread = if reads_file(segs[self.index]) {
                    self.previous
                } else {
                    None
                };
                match outcome {
                    Outcome::Done => match unread {
                        Some(h) => Progress {
                            segments: segs,
                            index: self.index,
                            stage: Stage::Discard(h),
                            previous: Some(self.index as usize),
                        },
                        None => enter(segs, self.index + 1, Some(self.index as usize)),
                    },
                    Outcome::Failed => Progress {
                        segments: segs,
                        index: self.index,
                        stage: Stage::ReportSpawn,
                        previous: unread,
                    },
                }
            },
        }
    }

    /// The state that follows once the pending effect has had `outcome`.
    /// The outcome of an effect that cannot fail is not looked at, and a
    /// line that is over stays so.
    pub open spec fn step(self, outcome: Outcome) -> Progress {
        let segs = self.segments;
        match self.stage {
            Stage::OpenInput => self.unless_failed(
                outcome,
                LineError::OpenRead,
                resolve_output(segs, self.index, self.previous),
            ),
            Stage::DropInput => resolve_output(segs, self.index, None),
            Stage::OpenOutput => self.unless_failed(
                outcome,
                LineError::OpenWrite,
                dispatch(segs, self.index, self.previous),
            ),
            Stage::Run => self.after_command(outcome),
            Stage::ReportChangeDir => clear_slot(segs, self.index, self.previous),
            Stage::WriteHistory => self.unless_failed(
                outcome,
                LineError::WriteHistory,
                self.at(Stage::Announce),
            ),
            Stage::Announce => enter(segs, self.index + 1, self.previous),
            Stage::ReportSpawn => clear_slot(segs, self.index, self.previous),
            Stage::Discard(_) => enter(segs, self.index + 1, self.previous),
            Stage::Wait => self.unless_failed(
                outcome,
                LineError::Wait,
                Progress { stage: Stage::Finished(Ok(())), previous: None, ..self },
            ),
            Stage::Finished(_) => self,
        }
    }

    /// The shell's current path once the pending effect has had `outcome`,
    /// where it was `path` before: a change of directory that was done
    /// makes the directory asked for the current path, and nothing else
    /// changes it.
    pub open spec fn path_after(self, path: Seq<char>, outcome: Outcome) -> Seq<char> {
        if self.stage is Run && command_at(self.segments, self.index) is Cd && outcome
            is Done {
            directory_of(self.segments[self.index])
        } else {
            path
        }
    }

    /// A bound on the number of effects that are still to come.
    pub open spec fn rank(self) -> int {
        let rest = 8 * (self.segments.len() - self.index);
        match self.stage {
            Stage::Finished(_) => 0,
            Stage::Wait => 1,
            Stage::Discard(_) => rest + 2,
            Stage::ReportSpawn => rest + 3,
            Stage::ReportChangeDir => rest + 3,
            Stage::Announce => rest + 3,
            Stage::WriteHistory => rest + 4,
            Stage::Run => rest + 5,
            Stage::OpenOutput => rest + 6,
            Stage::DropInput => rest + 7,
            Stage::OpenInput => rest + 7,
        }
    }
}

} // verus!
