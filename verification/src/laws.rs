//! What holds of every run: the states stay well formed, every effect
//! brings the end of the line nearer, and the laws of the single commands.

use crate::action::{ActionView, Fault, LineError, Outcome, Sink, Source};
use crate::builtin::{classify, is_external};
use crate::model::{
    command_at, directory_of, enter, history_marker, run, runnable, start, Progress, Stage,
};
use crate::segment::{
    pipeline_of, read_operator, separator, write_operator, FilePipeView, SegmentView,
};
use crate::text::{contains, lemma_trim_keeps_nothing_new, trim, words};
use vstd::prelude::*;

verus! {

/// Entering a segment gives a well-formed state over the same pipeline,
/// from which no more effects are to come than the segments left allow.
pub proof fn lemma_enter(segs: Seq<SegmentView>, index: int, previous: Option<usize>)
    requires
        0 <= index <= segs.len(),
        segs.len() <= usize::MAX,
        previous matches Some(h) ==> h < index,
    ensures
        enter(segs, index, previous).wf(),
        enter(segs, index, previous).segments == segs,
        enter(segs, index, previous).rank() <= 8 * (segs.len() - index) + 7,
        enter(segs, index, previous).index >= index,
    decreases segs.len() - index,
{
    if index < segs.len() && segs[index].parts.len() == 0 {
        lemma_enter(segs, index + 1, previous);
    }
}

/// A step from a well-formed state gives a well-formed state over the same
/// pipeline.
pub proof fn lemma_step_wf(p: Progress, outcome: Outcome)
    requires
        p.wf(),
    ensures
        p.step(outcome).wf(),
        p.step(outcome).segments == p.segments,
{
    let segs = p.segments;
    if p.index < segs.len() {
        lemma_enter(segs, p.index + 1, p.previous);
        lemma_enter(segs, p.index + 1, None);
        lemma_enter(segs, p.index + 1, Some(p.index as usize));
    }
}

/// Every effect brings the end of the line nearer: as long as the line is
/// not over, a step lowers the rank, whatever the outcome.
pub proof fn law_progress(p: Progress, outcome: Outcome)
    requires
        p.wf(),
        !p.finished(),
    ensures
        0 <= p.step(outcome).rank() < p.rank(),
{
    let segs = p.segments;
    if p.index < segs.len() {
        lemma_enter(segs, p.index + 1, p.previous);
        lemma_enter(segs, p.index + 1, None);
        lemma_enter(segs, p.index + 1, Some(p.index as usize));
    }
}

/// Every state of a run is well formed, over the pipeline that the run
/// started with, and the rank goes down by one with each outcome until the
/// line is over.
pub proof fn law_run_wf(p: Progress, path: Seq<char>, outcomes: Seq<Outcome>)
    requires
        p.wf(),
    ensures
        run(p, path, outcomes).0.wf(),
        run(p, path, outcomes).0.segments == p.segments,
        run(p, path, outcomes).0.finished() || run(p, path, outcomes).0.rank() <= p.rank()
            - outcomes.len(),
    decreases outcomes.len(),
{
    if outcomes.len() > 0 {
        law_run_wf(p, path, outcomes.drop_last());
        let q = run(p, path, outcomes.drop_last()).0;
        lemma_step_wf(q, outcomes.last());
        if !q.finished() {
            law_progress(q, outcomes.last());
        }
    }
}

/// Every line comes to its end: once the driver has reported as many
/// outcomes as the rank of the starting state, whatever they were, the
/// line is over.
pub proof fn law_run_ends(p: Progress, path: Seq<char>, outcomes: Seq<Outcome>)
    requires
        p.wf(),
        outcomes.len() >= p.rank(),
    ensures
        run(p, path, outcomes).0.finished(),
{
    law_run_wf(p, path, outcomes);
}

/// Whether no segment of `segs` names an external program.
pub open spec fn all_builtin(segs: Seq<SegmentView>) -> bool {
    forall|i: int| runnable(segs, i) ==> !(#[trigger] command_at(segs, i) is Other)
}

/// Whether no segment of `segs` changes the directory.
pub open spec fn no_change_dir(segs: Seq<SegmentView>) -> bool {
    forall|i: int| runnable(segs, i) ==> !(#[trigger] command_at(segs, i) is Cd)
}

/// A pipeline of builtins starts no process: whatever the outcomes, and
/// whatever the shell's path, the pending effect is never a spawn.
pub proof fn law_builtins_spawn_nothing(
    p: Progress,
    path: Seq<char>,
    outcomes: Seq<Outcome>,
    shown: Seq<char>,
)
    requires
        p.wf(),
        all_builtin(p.segments),
    ensures
        !(run(p, path, outcomes).0.pending(shown) is Spawn),
{
    law_run_wf(p, path, outcomes);
}

/// Only a change of directory that was done moves the shell: it makes the
/// directory asked for the current path. A change of directory that failed
/// leaves the path as it was and is reported next.
pub proof fn law_change_dir(p: Progress, path: Seq<char>, outcome: Outcome)
    requires
        p.wf(),
    ensures
        p.path_after(path, outcome) != path ==> outcome is Done && p.pending(path)
            == (ActionView::ChangeDir { path: p.path_after(path, outcome) }),
        p.pending(path) is ChangeDir && outcome is Done ==> p.pending(path)
            == (ActionView::ChangeDir { path: p.path_after(path, outcome) }),
        p.pending(path) is ChangeDir && outcome is Failed ==> p.path_after(path, outcome) == path
            && p.step(outcome).pending(path) == (ActionView::Report { fault: Fault::ChangeDir }),
{
}

/// A line without a change of directory leaves the shell where it was,
/// whatever the outcomes.
pub proof fn law_path_stays(p: Progress, path: Seq<char>, outcomes: Seq<Outcome>)
    requires
        p.wf(),
        no_change_dir(p.segments),
    ensures
        run(p, path, outcomes).1 == path,
    decreases outcomes.len(),
{
    if outcomes.len() > 0 {
        law_path_stays(p, path, outcomes.drop_last());
        law_run_wf(p, path, outcomes.drop_last());
    }
}

/// The pipeline of the line `pwd`.
pub open spec fn pwd_line() -> Seq<SegmentView> {
    seq![SegmentView { file: None, parts: seq!["pwd"@] }]
}

/// The pipeline of the line that changes the directory to `dir`.
pub open spec fn cd_line(dir: Seq<char>) -> Seq<SegmentView> {
    seq![SegmentView { file: None, parts: seq!["cd"@, dir] }]
}

/// The builtins' names differ from one another.
proof fn lemma_names()
    ensures
        classify("history"@) is History,
        classify("cd"@) is Cd,
        classify("pwd"@) is Pwd,
        classify("clear"@) is Clear,
        classify("exit"@) is Exit,
        classify("help"@) is Help,
        classify("clearHistory"@) is ClearHistory,
{
    reveal_strlit("history");
    reveal_strlit("cd");
    reveal_strlit("pwd");
    reveal_strlit("clear");
    reveal_strlit("exit");
    reveal_strlit("help");
    reveal_strlit("clearHistory");
    assert("cd"@.len() == 2);
    assert("pwd"@.len() == 3);
    assert("clear"@.len() == 5);
    assert("exit"@.len() == 4 && "exit"@[0] == 'e');
    assert("help"@.len() == 4 && "help"@[0] == 'h');
    assert("clearHistory"@.len() == 12);
}

/// `pwd` prints the shell's current path and leaves it as it is: run twice
/// in a row, it prints the same path both times.
pub proof fn law_pwd_twice(path: Seq<char>, outcomes: Seq<Outcome>)
    ensures
        start(pwd_line()).pending(path) == (ActionView::PrintPath { path }),
        run(start(pwd_line()), path, outcomes).1 == path,
        start(pwd_line()).pending(run(start(pwd_line()), path, outcomes).1)
            == (ActionView::PrintPath { path }),
{
    lemma_names();
    let segs = pwd_line();
    lemma_enter(segs, 0, None);
    assert(no_change_dir(segs));
    law_path_stays(start(segs), path, outcomes);
}

/// After a change of directory to `dir` that was done, `pwd` prints `dir`.
/// After one that failed, the failure is reported, the line still ends
/// well, and `pwd` prints the path from before.
pub proof fn law_cd_then_pwd(dir: Seq<char>, path: Seq<char>)
    ensures
        start(cd_line(dir)).pending(path) == (ActionView::ChangeDir { path: dir }),
        run(start(cd_line(dir)), path, seq![Outcome::Done]).0.stage == Stage::Finished(Ok(())),
        run(start(cd_line(dir)), path, seq![Outcome::Done]).1 == dir,
        start(pwd_line()).pending(dir) == (ActionView::PrintPath { path: dir }),
        run(start(cd_line(dir)), path, seq![Outcome::Failed]).0.pending(path)
            == (ActionView::Report { fault: Fault::ChangeDir }),
        run(start(cd_line(dir)), path, seq![Outcome::Failed, Outcome::Done]).0.stage
            == Stage::Finished(Ok(())),
        run(start(cd_line(dir)), path, seq![Outcome::Failed, Outcome::Done]).1 == path,
        start(pwd_line()).pending(path) == (ActionView::PrintPath { path }),
{
    lemma_names();
    lemma_enter(cd_line(dir), 0, None);
    lemma_enter(pwd_line(), 0, None);
    reveal_with_fuel(run, 3);
    reveal_with_fuel(enter, 3);
    assert(seq![Outcome::Failed, Outcome::Done].drop_last() == seq![Outcome::Failed]);
}

/// A line without a separator and without a redirection, whose first word
/// is a builtin's name, is one segment; the run starts with the builtin's
/// own effect, and no process is ever started, whatever the outcomes.
pub proof fn law_lone_builtin(
    line: Seq<char>,
    path: Seq<char>,
    outcomes: Seq<Outcome>,
    shown: Seq<char>,
)
    requires
        !contains(line, separator()),
        !contains(line, read_operator()),
        !contains(line, write_operator()),
        words(trim(line)).len() > 0,
        !is_external(words(trim(line))[0]),
    ensures
        pipeline_of(line) == seq![SegmentView { file: None, parts: words(trim(line)) }],
        ({
            let command = classify(words(trim(line))[0]);
            let first = start(pipeline_of(line)).pending(path);
            &&& command is History ==> first == ActionView::PrintHistory
            &&& command is Cd ==> first == (ActionView::ChangeDir {
                path: directory_of(pipeline_of(line)[0]),
            })
            &&& command is Pwd ==> first == (ActionView::PrintPath { path })
            &&& command is Clear ==> first == ActionView::ClearScreen
            &&& command is Exit ==> first == (ActionView::Finish { result: Ok(()) })
            &&& command is ClearHistory ==> first == ActionView::ForgetHistory
            &&& command is Help ==> first == ActionView::PrintHelp
        }),
        !(run(start(pipeline_of(line)), path, outcomes).0.pending(shown) is Spawn),
{
    let text = trim(line);
    if contains(text, separator()) {
        lemma_trim_keeps_nothing_new(line, separator());
    }
    if contains(text, read_operator()) {
        lemma_trim_keeps_nothing_new(line, read_operator());
    }
    if contains(text, write_operator()) {
        lemma_trim_keeps_nothing_new(line, write_operator());
    }
    let segs = seq![SegmentView { file: None, parts: words(text) }];
    assert(pipeline_of(line) == segs);
    lemma_enter(segs, 0, None);
    assert(all_builtin(segs));
    law_builtins_spawn_nothing(start(segs), path, outcomes, shown);
}

/// The handle of a spawn is new: it is the index of the segment at hand,
/// and the process in the slot, if there is one, has a smaller handle.
pub proof fn law_spawn_handle_is_new(p: Progress, path: Seq<char>)
    requires
        p.wf(),
        p.pending(path) is Spawn,
    ensures
        p.pending(path)->Spawn_handle == p.index,
        p.previous matches Some(h) ==> h < p.index,
{
}

/// The action that starts the external command `parts` under `handle`.
pub open spec fn spawn_of(
    handle: usize,
    parts: Seq<Seq<char>>,
    stdin: Source,
    stdout: Sink,
) -> ActionView {
    ActionView::Spawn { handle, program: parts[0], args: parts.skip(1), stdin, stdout }
}

/// Whether `parts` are the tokens of an external command.
pub open spec fn external(parts: Seq<Seq<char>>) -> bool {
    parts.len() > 0 && is_external(parts[0])
}

/// Two external commands with the separator between them: the first
/// writes into a pipe, the second reads from the first, and the line is
/// over when the second has been waited for.
pub proof fn law_pipe(first: Seq<Seq<char>>, second: Seq<Seq<char>>, path: Seq<char>)
    requires
        external(first),
        external(second),
    ensures
        ({
            let a = start(
                seq![
                    SegmentView { file: None, parts: first },
                    SegmentView { file: None, parts: second },
                ],
            );
            let b = a.step(Outcome::Done);
            let c = b.step(Outcome::Done);
            &&& a.pending(path) == spawn_of(0, first, Source::Terminal, Sink::Pipe)
            &&& b.pending(path) == spawn_of(1, second, Source::Process(0), Sink::Terminal)
            &&& c.pending(path) == (ActionView::Wait { handle: 1 })
            &&& c.step(Outcome::Done).pending(path) == (ActionView::Finish { result: Ok(()) })
            &&& c.step(Outcome::Failed).pending(path) == (ActionView::Finish {
                result: Err(LineError::Wait),
            })
        }),
{
    reveal_with_fuel(enter, 3);
}

/// An external command with a read redirection: the file is opened and
/// held, and the command is started with the file as its input. Where the
/// file cannot be opened the line is over, and nothing is started.
pub proof fn law_input_from_file(parts: Seq<Seq<char>>, file: Seq<char>, path: Seq<char>)
    requires
        external(parts),
    ensures
        ({
            let a = start(
                seq![SegmentView { file: Some(FilePipeView::ReadFile(file)), parts }],
            );
            &&& a.pending(path) == (ActionView::OpenRead { path: file, hold: true })
            &&& a.step(Outcome::Done).pending(path) == spawn_of(
                0,
                parts,
                Source::File,
                Sink::Terminal,
            )
            &&& a.step(Outcome::Failed).pending(path) == (ActionView::Finish {
                result: Err(LineError::OpenRead),
            })
        }),
{
    reveal_with_fuel(enter, 2);
}

/// An external command with a write redirection: the file is opened and
/// held, and the command is started with the file as its output. Where the
/// file cannot be opened the line is over, and nothing is started.
pub proof fn law_output_to_file(parts: Seq<Seq<char>>, file: Seq<char>, path: Seq<char>)
    requires
        external(parts),
    ensures
        ({
            let a = start(
                seq![SegmentView { file: Some(FilePipeView::WriteFile(file)), parts }],
            );
            &&& a.pending(path) == (ActionView::OpenWrite { path: file, hold: true })
            &&& a.step(Outcome::Done).pending(path) == spawn_of(
                0,
                parts,
                Source::Terminal,
                Sink::File,
            )
            &&& a.step(Outcome::Failed).pending(path) == (ActionView::Finish {
                result: Err(LineError::OpenWrite),
            })
        }),
{
    reveal_with_fuel(enter, 2);
}

/// A program that cannot be started: the failure is reported, and the
/// line ends well, so that the next line can be read.
pub proof fn law_failed_spawn(parts: Seq<Seq<char>>, path: Seq<char>)
    requires
        external(parts),
    ensures
        ({
            let a = start(seq![SegmentView { file: None, parts }]);
            let b = a.step(Outcome::Failed);
            &&& a.pending(path) == spawn_of(0, parts, Source::Terminal, Sink::Terminal)
            &&& b.pending(path) == (ActionView::Report { fault: Fault::Spawn })
            &&& b.step(Outcome::Done).pending(path) == (ActionView::Finish { result: Ok(()) })
        }),
{
    reveal_with_fuel(enter, 3);
}

/// The pipeline of the line `clearHistory`.
pub open spec fn clear_history_line() -> Seq<SegmentView> {
    seq![SegmentView { file: None, parts: seq!["clearHistory"@] }]
}

/// Clearing the history: the history in memory is cleared, the history
/// file is overwritten with the marker line alone, and the user is told.
pub proof fn law_clear_history(path: Seq<char>)
    ensures
        ({
            let a = start(clear_history_line());
            let b = a.step(Outcome::Done);
            let c = b.step(Outcome::Done);
            &&& a.pending(path) == ActionView::ForgetHistory
            &&& b.pending(path) == (ActionView::RewriteHistory { contents: history_marker() })
            &&& c.pending(path) == ActionView::AnnounceCleared
            &&& c.step(Outcome::Done).pending(path) == (ActionView::Finish { result: Ok(()) })
        }),
        history_marker() == seq!['#', 'V', '2', '\n'],
{
    lemma_names();
    reveal_with_fuel(enter, 3);
    reveal_strlit("#V2\n");
}

} // verus!
