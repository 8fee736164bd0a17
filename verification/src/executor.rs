//! The pipeline executor: the state machine of `model`, in executable form.
//!
//! An `Executor` holds the pipeline of one line. It names the effect that
//! is pending; the driver performs it and hands the outcome to `advance`,
//! which gives the executor for the rest of the line.

use crate::action::{Action, Fault, LineError, Outcome, Sink, Source};
use crate::builtin::{classify, Builtin};
use crate::laws::{lemma_enter, lemma_step_wf};
use crate::model::{
    clear_slot, conclude, directory_of, dispatch, enter, file_path, input_of, output_of,
    reads_file, resolve_input, resolve_output, runnable, start, writes_file, Progress, Stage,
};
use crate::segment::{segment_views, FilePipe, Segment};
use crate::text::strings;
use vstd::pervasive::unreached;
use vstd::prelude::*;

verus! {

/// The state of the shell that outlives a line: the current path that the
/// prompt shows and that `pwd` prints.
#[derive(Debug, PartialEq, Eq)]
pub struct ShellState {
    pub path: String,
}

impl ShellState {
    /// The state in which the shell starts: at the root.
    pub fn new() -> (r: ShellState)
        ensures
            r.path@ == "/"@,
    {
        ShellState { path: "/".to_owned() }
    }
}

/// The operation that `segment` names.
fn command_of(segment: &Segment) -> (b: Builtin)
    requires
        segment.parts.len() > 0,
    ensures
        b@ == classify(segment@.parts[0]),
{
    match Builtin::from_str(segment.parts[0].as_str()) {
        Ok(command) => command,
        Err(_) => unreached(),
    }
}

/// Tells whether `segment` redirects its input.
fn has_input_file(segment: &Segment) -> (r: bool)
    ensures
        r == reads_file(segment@),
{
    match &segment.file {
        Some(FilePipe::ReadFile(_)) => true,
        _ => false,
    }
}

/// Tells whether `segment` redirects its output.
fn has_output_file(segment: &Segment) -> (r: bool)
    ensures
        r == writes_file(segment@),
{
    match &segment.file {
        Some(FilePipe::WriteFile(_)) => true,
        _ => false,
    }
}

/// The path of the redirection of `segment`.
fn path_of(segment: &Segment) -> (r: String)
    ensures
        r@ == file_path(segment@),
{
    match &segment.file {
        Some(FilePipe::ReadFile(path)) => path.clone(),
        Some(FilePipe::WriteFile(path)) => path.clone(),
        None => String::new(),
    }
}

/// The directory that a change-directory segment asks for.
fn directory(segment: &Segment) -> (r: String)
    ensures
        r@ == directory_of(segment@),
{
    if segment.parts.len() > 1 {
        segment.parts[1].clone()
    } else {
        "/".to_owned()
    }
}

/// The arguments of the command of `segment`: its tokens but the first.
fn arguments(segment: &Segment) -> (r: Vec<String>)
    requires
        segment.parts.len() > 0,
    ensures
        strings(r@) == segment@.parts.skip(1),
{
    let mut args: Vec<String> = Vec::new();
    let mut i: usize = 1;
    while i < segment.parts.len()
        invariant
            1 <= i <= segment.parts.len(),
            strings(args@) == segment@.parts.subrange(1, i as int),
        decreases segment.parts.len() - i,
    {
        let ghost before = strings(args@);
        let arg = segment.parts[i].clone();
        args.push(arg);
        assert(strings(args@) == before.push(arg@));
        i += 1;
    }
    args
}

/// The views of a pipeline's segments are the segments' views, one by one.
proof fn lemma_segment_views(segments: &Vec<Segment>)
    ensures
        segment_views(segments@).len() == segments.len() <= usize::MAX,
        forall|i: int|
            0 <= i < segments.len() ==> #[trigger] segment_views(segments@)[i] == segments[i]@,
{
}

/// The run of one line.
pub struct Executor {
    segments: Vec<Segment>,
    index: usize,
    stage: Stage,
    previous: Option<usize>,
}

impl View for Executor {
    type V = Progress;

    closed spec fn view(&self) -> Progress {
        Progress {
            segments: segment_views(self.segments@),
            index: self.index as int,
            stage: self.stage,
            previous: self.previous,
        }
    }
}

impl Executor {
    /// An executor is always in a state that a run can reach.
    #[verifier::type_invariant]
    spec fn well_formed(self) -> bool {
        self@.wf()
    }

    /// The line has failed with `error`.
    fn fail(segments: Vec<Segment>, index: usize, error: LineError) -> (r: Executor)
        requires
            index <= segments.len(),
        ensures
            r@ == (Progress {
                segments: segment_views(segments@),
                index: index as int,
                stage: Stage::Finished(Err(error)),
                previous: None,
            }),
    {
        proof {
            lemma_segment_views(&segments);
        }
        Executor { segments, index, stage: Stage::Finished(Err(error)), previous: None }
    }

    /// After the last segment: waits for the process left in the slot.
    fn conclude(segments: Vec<Segment>, index: usize, previous: Option<usize>) -> (r: Executor)
        requires
            index <= segments.len(),
            previous matches Some(h) ==> h < index,
        ensures
            r@ == conclude(segment_views(segments@), index as int, previous),
    {
        proof {
            lemma_segment_views(&segments);
        }
        let stage = if previous.is_some() {
            Stage::Wait
        } else {
            Stage::Finished(Ok(()))
        };
        Executor { segments, index, stage, previous }
    }

    /// Dispatch of segment `index`.
    fn dispatch(segments: Vec<Segment>, index: usize, previous: Option<usize>) -> (r: Executor)
        requires
            runnable(segment_views(segments@), index as int),
            previous matches Some(h) ==> h < index,
        ensures
            r@ == dispatch(segment_views(segments@), index as int, previous),
    {
        proof {
            lemma_segment_views(&segments);
        }
        match command_of(&segments[index]) {
            Builtin::Exit => Self::conclude(segments, index, previous),
            _ => Executor { segments, index, stage: Stage::Run, previous },
        }
    }

    /// Resolution of the output of segment `index`.
    fn resolve_output(segments: Vec<Segment>, index: usize, previous: Option<usize>) -> (r:
        Executor)
        requires
            runnable(segment_views(segments@), index as int),
            previous matches Some(h) ==> h < index,
        ensures
            r@ == resolve_output(segment_views(segments@), index as int, previous),
    {
        proof {
            lemma_segment_views(&segments);
        }
        if has_output_file(&segments[index]) {
            Executor { segments, index, stage: Stage::OpenOutput, previous }
        } else {
            Self::dispatch(segments, index, previous)
        }
    }

    /// Resolution of the input of segment `index`.
    fn resolve_input(segments: Vec<Segment>, index: usize, previous: Option<usize>) -> (r:
        Executor)
        requires
            runnable(segment_views(segments@), index as int),
            previous matches Some(h) ==> h < index,
        ensures
            r@ == resolve_input(segment_views(segments@), index as int, previous),
    {
        proof {
            lemma_segment_views(&segments);
        }
        if has_input_file(&segments[index]) {
            Executor { segments, index, stage: Stage::OpenInput, previous }
        } else if previous.is_some() && !command_of(&segments[index]).is_other() {
            Executor { segments, index, stage: Stage::DropInput, previous }
        } else {
            Self::resolve_output(segments, index, previous)
        }
    }

    /// The run from segment `index` on.
    fn enter(segments: Vec<Segment>, index: usize, previous: Option<usize>) -> (r: Executor)
        requires
            index <= segments.len(),
            previous matches Some(h) ==> h < index,
        ensures
            r@ == enter(segment_views(segments@), index as int, previous),
    {
        proof {
            lemma_segment_views(&segments);
        }
        let mut i: usize = index;
        while i < segments.len() && segments[i].parts.len() == 0
            invariant
                index <= i <= segments.len(),
                enter(segment_views(segments@), index as int, previous) == enter(
                    segment_views(segments@),
                    i as int,
                    previous,
                ),
            decreases segments.len() - i,
        {
            i += 1;
        }
        if i >= segments.len() {
            Self::conclude(segments, i, previous)
        } else {
            Self::resolve_input(segments, i, previous)
        }
    }

    /// The end of segment `index`, with the slot cleared.
    fn clear_slot(segments: Vec<Segment>, index: usize, previous: Option<usize>) -> (r: Executor)
        requires
            runnable(segment_views(segments@), index as int),
            previous matches Some(h) ==> h < index,
        ensures
            r@ == clear_slot(segment_views(segments@), index as int, previous),
    {
        proof {
            lemma_segment_views(&segments);
        }
        match previous {
            Some(h) => Executor { segments, index, stage: Stage::Discard(h), previous: None },
            None => Self::enter(segments, index + 1, None),
        }
    }

    /// The executor at the start of the run of `pipeline`.
    pub fn new(pipeline: Vec<Segment>) -> (r: Executor)
        ensures
            r@ == start(segment_views(pipeline@)),
            r@.wf(),
    {
        proof {
            lemma_segment_views(&pipeline);
            lemma_enter(segment_views(pipeline@), 0, None);
        }
        Self::enter(pipeline, 0, None)
    }

    /// Tells whether the line is over.
    pub fn is_finished(&self) -> (r: bool)
        ensures
            r == self@.finished(),
    {
        match self.stage {
            Stage::Finished(_) => true,
            _ => false,
        }
    }

    /// The effect that the driver has to perform next.
    pub fn pending(&self, shell: &ShellState) -> (a: Action)
        ensures
            a@ == self@.pending(shell.path@),
    {
        proof {
            use_type_invariant(self);
            lemma_segment_views(&self.segments);
        }
        match self.stage {
            Stage::OpenInput => Action::OpenRead {
                path: path_of(&self.segments[self.index]),
                hold: command_of(&self.segments[self.index]).is_other(),
            },
            Stage::DropInput => match self.previous {
                Some(handle) => Action::Release { handle },
                None => unreached(),
            },
            Stage::OpenOutput => Action::OpenWrite {
                path: path_of(&self.segments[self.index]),
                hold: command_of(&self.segments[self.index]).is_other(),
            },
            Stage::Run => {
                let segment = &self.segments[self.index];
                match command_of(segment) {
                    Builtin::History => Action::PrintHistory,
                    Builtin::Cd => Action::ChangeDir { path: directory(segment) },
                    Builtin::Pwd => Action::PrintPath { path: shell.path.clone() },
                    Builtin::Clear => Action::ClearScreen,
                    Builtin::Exit => unreached(),
                    Builtin::ClearHistory => Action::ForgetHistory,
                    Builtin::Help => Action::PrintHelp,
                    Builtin::Other(program) => Action::Spawn {
                        handle: self.index,
                        program,
                        args: arguments(segment),
                        stdin: self.input(),
                        stdout: self.output(),
                    },
                }
            },
            Stage::ReportChangeDir => Action::Report { fault: Fault::ChangeDir },
            Stage::WriteHistory => Action::RewriteHistory { contents: "#V2\n".to_owned() },
            Stage::Announce => Action::AnnounceCleared,
            Stage::ReportSpawn => Action::Report { fault: Fault::Spawn },
            Stage::Discard(handle) => Action::Release { handle },
            Stage::Wait => match self.previous {
                Some(handle) => Action::Wait { handle },
                None => unreached(),
            },
            Stage::Finished(result) => Action::Finish { result },
        }
    }

    /// The input of the external command of the segment at hand.
    fn input(&self) -> (r: Source)
        requires
            runnable(self@.segments, self@.index),
        ensures
            r == input_of(self@.segments, self@.index, self@.previous),
    {
        proof {
            lemma_segment_views(&self.segments);
        }
        if has_input_file(&self.segments[self.index]) {
            Source::File
        } else {
            match self.previous {
                Some(h) => Source::Process(h),
                None => Source::Terminal,
            }
        }
    }

    /// The output of the external command of the segment at hand.
    fn output(&self) -> (r: Sink)
        requires
            runnable(self@.segments, self@.index),
        ensures
            r == output_of(self@.segments, self@.index),
    {
        proof {
            lemma_segment_views(&self.segments);
        }
        if has_output_file(&self.segments[self.index]) {
            Sink::File
        } else if self.index + 1 < self.segments.len() {
            Sink::Pipe
        } else {
            Sink::Terminal
        }
    }

    /// The executor after the pending effect has had `outcome`. A change of
    /// directory that was done makes the directory asked for the shell's
    /// current path; nothing else changes `shell`.
    pub fn advance(self, shell: &mut ShellState, outcome: Outcome) -> (r: Executor)
        ensures
            r@ == self@.step(outcome),
            r@.wf(),
            final(shell).path@ == self@.path_after(old(shell).path@, outcome),
    {
        proof {
            use_type_invariant(&self);
            lemma_segment_views(&self.segments);
            lemma_step_wf(self@, outcome);
        }
        let failed = match outcome {
            Outcome::Failed => true,
            Outcome::Done => false,
        };
        let Executor { segments, index, stage, previous } = self;
        match stage {
            Stage::OpenInput => if failed {
                Self::fail(segments, index, LineError::OpenRead)
            } else {
                Self::resolve_output(segments, index, previous)
            },
            Stage::DropInput => Self::resolve_output(segments, index, None),
            Stage::OpenOutput => if failed {
                Self::fail(segments, index, LineError::OpenWrite)
            } else {
                Self::dispatch(segments, index, previous)
            },
            Stage::Run => match command_of(&segments[index]) {
                Builtin::History => Self::clear_slot(segments, index, previous),
                Builtin::Cd => if failed {
                    Executor { segments, index, stage: Stage::ReportChangeDir, previous }
                } else {
                    shell.path = directory(&segments[index]);
                    Self::clear_slot(segments, index, previous)
                },
                Builtin::Pwd => Self::enter(segments, index + 1, previous),
                Builtin::Help => Self::enter(segments, index + 1, previous),
                Builtin::Clear => if failed {
                    Self::fail(segments, index, LineError::ClearScreen)
                } else {
                    Self::enter(segments, index + 1, previous)
                },
                Builtin::Exit => unreached(),
                Builtin::ClearHistory => if failed {
                    Self::fail(segments, index, LineError::ClearHistory)
                } else {
                    Executor { segments, index, stage: Stage::WriteHistory, previous }
                },
                Builtin::Other(_) => {
                    let unread = if has_input_file(&segments[index]) {
                        previous
                    } else {
                        None
                    };
                    if failed {
                        Executor { segments, index, stage: Stage::ReportSpawn, previous: unread }
                    } else {
                        match unread {
                            Some(h) => Executor {
                                segments,
                                index,
                                stage: Stage::Discard(h),
                                previous: Some(index),
                            },
                            None => Self::enter(segments, index + 1, Some(index)),
                        }
                    }
                },
            },
            Stage::ReportChangeDir => Self::clear_slot(segments, index, previous),
            Stage::WriteHistory => if failed {
                Self::fail(segments, index, LineError::WriteHistory)
            } else {
                Executor { segments, index, stage: Stage::Announce, previous }
            },
            Stage::Announce => Self::enter(segments, index + 1, previous),
            Stage::ReportSpawn => Self::clear_slot(segments, index, previous),
            Stage::Discard(_) => Self::enter(segments, index + 1, previous),
            Stage::Wait => if failed {
                Self::fail(segments, index, LineError::Wait)
            } else {
                Executor { segments, index, stage: Stage::Finished(Ok(())), previous: None }
            },
            Stage::Finished(result) => Executor {
                segments,
                index,
                stage: Stage::Finished(result),
                previous,
            },
        }
    }
}

} // verus!
