use potato_shell::action::{Action, Fault, LineError, Outcome, Sink, Source};
use potato_shell::executor::{Executor, ShellState};
use potato_shell::segment::{parse_line, FilePipe, Segment};

/// Runs `line` against the outcomes `script`; an effect beyond the script
/// is done. Gives every effect in turn, the last of them `Finish`.
fn run(line: &str, shell: &mut ShellState, script: &[Outcome]) -> Vec<Action> {
    run_pipeline(parse_line(line), shell, script)
}

fn run_pipeline(pipeline: Vec<Segment>, shell: &mut ShellState, script: &[Outcome]) -> Vec<Action> {
    let mut executor = Executor::new(pipeline);
    let mut trace = Vec::new();
    let mut step = 0;
    loop {
        let action = executor.pending(shell);
        let over = matches!(action, Action::Finish { .. });
        assert_eq!(over, executor.is_finished());
        trace.push(action);
        if over {
            return trace;
        }
        assert!(step < 1000, "the line does not end");
        let outcome = script.get(step).copied().unwrap_or(Outcome::Done);
        executor = executor.advance(shell, outcome);
        step += 1;
    }
}

fn at(path: &str) -> ShellState {
    ShellState { path: path.to_string() }
}

fn strings(items: &[&str]) -> Vec<String> {
    items.iter().map(|s| s.to_string()).collect()
}

fn spawn(handle: usize, program: &str, args: &[&str], stdin: Source, stdout: Sink) -> Action {
    Action::Spawn { handle, program: program.to_string(), args: strings(args), stdin, stdout }
}

fn finish() -> Action {
    Action::Finish { result: Ok(()) }
}

fn failure(error: LineError) -> Action {
    Action::Finish { result: Err(error) }
}

const DONE: Outcome = Outcome::Done;
const FAILED: Outcome = Outcome::Failed;

#[test]
fn the_shell_starts_at_the_root() {
    assert_eq!(ShellState::new(), at("/"));
}

#[test]
fn an_empty_line_does_nothing() {
    let mut shell = at("/home");
    assert_eq!(run("", &mut shell, &[]), vec![finish()]);
    assert_eq!(run("   ", &mut shell, &[]), vec![finish()]);
    assert_eq!(run_pipeline(Vec::new(), &mut shell, &[]), vec![finish()]);
    assert_eq!(shell, at("/home"));
}

#[test]
fn a_lone_external_command_is_spawned_and_waited_for() {
    let mut shell = at("/");
    assert_eq!(
        run("ls -l /tmp", &mut shell, &[]),
        vec![
            spawn(0, "ls", &["-l", "/tmp"], Source::Terminal, Sink::Terminal),
            Action::Wait { handle: 0 },
            finish(),
        ]
    );
}

#[test]
fn two_commands_are_joined_by_a_pipe() {
    let mut shell = at("/");
    assert_eq!(
        run("cmdA | cmdB", &mut shell, &[]),
        vec![
            spawn(0, "cmdA", &[], Source::Terminal, Sink::Pipe),
            spawn(1, "cmdB", &[], Source::Process(0), Sink::Terminal),
            Action::Wait { handle: 1 },
            finish(),
        ]
    );
}

#[test]
fn three_commands_make_a_chain() {
    let mut shell = at("/");
    assert_eq!(
        run("cat a | sort -r | uniq", &mut shell, &[]),
        vec![
            spawn(0, "cat", &["a"], Source::Terminal, Sink::Pipe),
            spawn(1, "sort", &["-r"], Source::Process(0), Sink::Pipe),
            spawn(2, "uniq", &[], Source::Process(1), Sink::Terminal),
            Action::Wait { handle: 2 },
            finish(),
        ]
    );
}

#[test]
fn input_is_read_from_the_file() {
    let mut shell = at("/");
    assert_eq!(
        run("cat << in.txt", &mut shell, &[]),
        vec![
            Action::OpenRead { path: "in.txt".to_string(), hold: true },
            spawn(0, "cat", &[], Source::File, Sink::Terminal),
            Action::Wait { handle: 0 },
            finish(),
        ]
    );
}

#[test]
fn output_is_written_to_the_file() {
    let mut shell = at("/");
    assert_eq!(
        run("sort >> out.txt", &mut shell, &[]),
        vec![
            Action::OpenWrite { path: "out.txt".to_string(), hold: true },
            spawn(0, "sort", &[], Source::Terminal, Sink::File),
            Action::Wait { handle: 0 },
            finish(),
        ]
    );
}

#[test]
fn a_file_takes_the_place_of_the_pipe() {
    let mut shell = at("/");
    assert_eq!(
        run("a >> f | b", &mut shell, &[]),
        vec![
            Action::OpenWrite { path: "f".to_string(), hold: true },
            spawn(0, "a", &[], Source::Terminal, Sink::File),
            spawn(1, "b", &[], Source::Process(0), Sink::Terminal),
            Action::Wait { handle: 1 },
            finish(),
        ]
    );
}

#[test]
fn a_read_redirection_leaves_the_previous_process_unread() {
    let mut shell = at("/");
    assert_eq!(
        run("a | b << f", &mut shell, &[]),
        vec![
            spawn(0, "a", &[], Source::Terminal, Sink::Pipe),
            Action::OpenRead { path: "f".to_string(), hold: true },
            spawn(1, "b", &[], Source::File, Sink::Terminal),
            Action::Release { handle: 0 },
            Action::Wait { handle: 1 },
            finish(),
        ]
    );
    assert_eq!(
        run("a | b << f", &mut shell, &[DONE, DONE, FAILED]),
        vec![
            spawn(0, "a", &[], Source::Terminal, Sink::Pipe),
            Action::OpenRead { path: "f".to_string(), hold: true },
            spawn(1, "b", &[], Source::File, Sink::Terminal),
            Action::Report { fault: Fault::Spawn },
            Action::Release { handle: 0 },
            finish(),
        ]
    );
}

#[test]
fn a_file_that_cannot_be_opened_ends_the_line() {
    let mut shell = at("/");
    assert_eq!(
        run("cat << missing | sort", &mut shell, &[FAILED]),
        vec![
            Action::OpenRead { path: "missing".to_string(), hold: true },
            failure(LineError::OpenRead),
        ]
    );
    assert_eq!(
        run("ls | sort >> /no/such/dir/out", &mut shell, &[DONE, FAILED]),
        vec![
            spawn(0, "ls", &[], Source::Terminal, Sink::Pipe),
            Action::OpenWrite { path: "/no/such/dir/out".to_string(), hold: true },
            failure(LineError::OpenWrite),
        ]
    );
}

#[test]
fn a_program_that_does_not_start_is_reported_and_the_line_goes_on() {
    let mut shell = at("/");
    assert_eq!(
        run("nosuchprogram", &mut shell, &[FAILED]),
        vec![
            spawn(0, "nosuchprogram", &[], Source::Terminal, Sink::Terminal),
            Action::Report { fault: Fault::Spawn },
            finish(),
        ]
    );
    assert_eq!(
        run("nosuchprogram | wc", &mut shell, &[FAILED]),
        vec![
            spawn(0, "nosuchprogram", &[], Source::Terminal, Sink::Pipe),
            Action::Report { fault: Fault::Spawn },
            spawn(1, "wc", &[], Source::Terminal, Sink::Terminal),
            Action::Wait { handle: 1 },
            finish(),
        ]
    );
    assert_eq!(
        run("ls | nosuchprogram | wc", &mut shell, &[DONE, FAILED]),
        vec![
            spawn(0, "ls", &[], Source::Terminal, Sink::Pipe),
            spawn(1, "nosuchprogram", &[], Source::Process(0), Sink::Pipe),
            Action::Report { fault: Fault::Spawn },
            spawn(2, "wc", &[], Source::Terminal, Sink::Terminal),
            Action::Wait { handle: 2 },
            finish(),
        ]
    );
}

#[test]
fn the_next_line_runs_after_a_failed_one() {
    let mut shell = at("/");
    run("nosuchprogram", &mut shell, &[FAILED]);
    run("cat << missing", &mut shell, &[FAILED]);
    assert_eq!(
        run("pwd", &mut shell, &[]),
        vec![Action::PrintPath { path: "/".to_string() }, finish()]
    );
}

#[test]
fn a_failed_wait_ends_the_line_with_an_error() {
    let mut shell = at("/");
    assert_eq!(
        run("ls", &mut shell, &[DONE, FAILED]),
        vec![
            spawn(0, "ls", &[], Source::Terminal, Sink::Terminal),
            Action::Wait { handle: 0 },
            failure(LineError::Wait),
        ]
    );
}

#[test]
fn a_lone_builtin_spawns_nothing() {
    let lines = ["history", "cd /tmp", "cd", "pwd", "clear", "exit", "clearHistory", "help"];
    for line in lines {
        for first in [DONE, FAILED] {
            for second in [DONE, FAILED] {
                let mut shell = at("/");
                let trace = run(line, &mut shell, &[first, second]);
                for action in &trace {
                    assert!(
                        !matches!(
                            action,
                            Action::Spawn { .. } | Action::Wait { .. } | Action::Release { .. }
                        ),
                        "{:?}",
                        line
                    );
                }
            }
        }
    }
}

#[test]
fn each_builtin_has_its_own_effect() {
    let mut shell = at("/here");
    assert_eq!(run("history", &mut shell, &[]), vec![Action::PrintHistory, finish()]);
    assert_eq!(
        run("pwd", &mut shell, &[]),
        vec![Action::PrintPath { path: "/here".to_string() }, finish()]
    );
    assert_eq!(run("clear", &mut shell, &[]), vec![Action::ClearScreen, finish()]);
    assert_eq!(run("help", &mut shell, &[]), vec![Action::PrintHelp, finish()]);
    assert_eq!(run("exit", &mut shell, &[]), vec![finish()]);
    assert_eq!(shell, at("/here"));
}

#[test]
fn cd_then_pwd_prints_the_new_path() {
    let mut shell = at("/");
    assert_eq!(
        run("cd /tmp", &mut shell, &[]),
        vec![Action::ChangeDir { path: "/tmp".to_string() }, finish()]
    );
    assert_eq!(shell, at("/tmp"));
    assert_eq!(
        run("pwd", &mut shell, &[]),
        vec![Action::PrintPath { path: "/tmp".to_string() }, finish()]
    );
}

#[test]
fn a_failed_cd_leaves_the_path_and_is_reported() {
    let mut shell = at("/tmp");
    assert_eq!(
        run("cd /does/not/exist", &mut shell, &[FAILED]),
        vec![
            Action::ChangeDir { path: "/does/not/exist".to_string() },
            Action::Report { fault: Fault::ChangeDir },
            finish(),
        ]
    );
    assert_eq!(shell, at("/tmp"));
    assert_eq!(
        run("pwd", &mut shell, &[]),
        vec![Action::PrintPath { path: "/tmp".to_string() }, finish()]
    );
}

#[test]
fn cd_without_an_argument_goes_to_the_root() {
    let mut shell = at("/tmp");
    assert_eq!(
        run("cd", &mut shell, &[]),
        vec![Action::ChangeDir { path: "/".to_string() }, finish()]
    );
    assert_eq!(shell, at("/"));
}

#[test]
fn cd_takes_its_first_argument_only() {
    let mut shell = at("/");
    assert_eq!(
        run("cd a b c", &mut shell, &[]),
        vec![Action::ChangeDir { path: "a".to_string() }, finish()]
    );
    assert_eq!(shell, at("a"));
}

#[test]
fn pwd_twice_prints_the_same_path() {
    let mut shell = at("/some/where");
    let first = run("pwd", &mut shell, &[]);
    let second = run("pwd", &mut shell, &[]);
    assert_eq!(first, second);
    assert_eq!(first, vec![Action::PrintPath { path: "/some/where".to_string() }, finish()]);
    assert_eq!(run("pwd | pwd", &mut shell, &[])[0], run("pwd | pwd", &mut shell, &[])[1]);
}

#[test]
fn clear_history_rewrites_the_file_with_the_marker_alone() {
    let mut shell = at("/");
    assert_eq!(
        run("clearHistory", &mut shell, &[]),
        vec![
            Action::ForgetHistory,
            Action::RewriteHistory { contents: "#V2\n".to_string() },
            Action::AnnounceCleared,
            finish(),
        ]
    );
}

#[test]
fn clear_history_stops_at_its_first_failure() {
    let mut shell = at("/");
    assert_eq!(
        run("clearHistory | ls", &mut shell, &[FAILED]),
        vec![Action::ForgetHistory, failure(LineError::ClearHistory)]
    );
    assert_eq!(
        run("clearHistory | ls", &mut shell, &[DONE, FAILED]),
        vec![
            Action::ForgetHistory,
            Action::RewriteHistory { contents: "#V2\n".to_string() },
            failure(LineError::WriteHistory),
        ]
    );
}

#[test]
fn a_screen_that_cannot_be_cleared_ends_the_line() {
    let mut shell = at("/");
    assert_eq!(
        run("clear | ls", &mut shell, &[FAILED]),
        vec![Action::ClearScreen, failure(LineError::ClearScreen)]
    );
}

#[test]
fn exit_skips_the_segments_that_follow() {
    let mut shell = at("/");
    assert_eq!(run("exit | ls | pwd", &mut shell, &[]), vec![finish()]);
    assert_eq!(
        run("pwd | exit | ls", &mut shell, &[]),
        vec![Action::PrintPath { path: "/".to_string() }, finish()]
    );
}

#[test]
fn exit_after_a_command_lets_its_reader_go() {
    let mut shell = at("/");
    assert_eq!(
        run("ls | exit | wc", &mut shell, &[]),
        vec![
            spawn(0, "ls", &[], Source::Terminal, Sink::Pipe),
            Action::Release { handle: 0 },
            finish(),
        ]
    );
}

#[test]
fn exit_waits_for_a_process_that_nobody_read() {
    let mut shell = at("/");
    assert_eq!(
        run("ls | exit << f | wc", &mut shell, &[]),
        vec![
            spawn(0, "ls", &[], Source::Terminal, Sink::Pipe),
            Action::OpenRead { path: "f".to_string(), hold: false },
            Action::Wait { handle: 0 },
            finish(),
        ]
    );
}

#[test]
fn a_builtin_takes_the_previous_output_and_reads_nothing() {
    let mut shell = at("/x");
    assert_eq!(
        run("ls | pwd | wc", &mut shell, &[]),
        vec![
            spawn(0, "ls", &[], Source::Terminal, Sink::Pipe),
            Action::Release { handle: 0 },
            Action::PrintPath { path: "/x".to_string() },
            spawn(2, "wc", &[], Source::Terminal, Sink::Terminal),
            Action::Wait { handle: 2 },
            finish(),
        ]
    );
}

#[test]
fn cd_in_a_pipeline_breaks_the_chain() {
    let mut shell = at("/");
    assert_eq!(
        run("ls | cd /tmp | wc", &mut shell, &[]),
        vec![
            spawn(0, "ls", &[], Source::Terminal, Sink::Pipe),
            Action::Release { handle: 0 },
            Action::ChangeDir { path: "/tmp".to_string() },
            spawn(2, "wc", &[], Source::Terminal, Sink::Terminal),
            Action::Wait { handle: 2 },
            finish(),
        ]
    );
    assert_eq!(shell, at("/tmp"));
}

#[test]
fn cd_and_history_clear_the_slot() {
    let mut shell = at("/");
    assert_eq!(
        run("ls | cd /tmp << f | wc", &mut shell, &[]),
        vec![
            spawn(0, "ls", &[], Source::Terminal, Sink::Pipe),
            Action::OpenRead { path: "f".to_string(), hold: false },
            Action::ChangeDir { path: "/tmp".to_string() },
            Action::Release { handle: 0 },
            spawn(2, "wc", &[], Source::Terminal, Sink::Terminal),
            Action::Wait { handle: 2 },
            finish(),
        ]
    );
    assert_eq!(
        run("ls | cd /nowhere << f", &mut shell, &[DONE, DONE, FAILED]),
        vec![
            spawn(0, "ls", &[], Source::Terminal, Sink::Pipe),
            Action::OpenRead { path: "f".to_string(), hold: false },
            Action::ChangeDir { path: "/nowhere".to_string() },
            Action::Report { fault: Fault::ChangeDir },
            Action::Release { handle: 0 },
            finish(),
        ]
    );
    assert_eq!(
        run("ls | history << f", &mut shell, &[]),
        vec![
            spawn(0, "ls", &[], Source::Terminal, Sink::Pipe),
            Action::OpenRead { path: "f".to_string(), hold: false },
            Action::PrintHistory,
            Action::Release { handle: 0 },
            finish(),
        ]
    );
}

#[test]
fn pwd_and_help_leave_the_slot_alone() {
    let mut shell = at("/");
    assert_eq!(
        run("ls | pwd << f", &mut shell, &[]),
        vec![
            spawn(0, "ls", &[], Source::Terminal, Sink::Pipe),
            Action::OpenRead { path: "f".to_string(), hold: false },
            Action::PrintPath { path: "/".to_string() },
            Action::Wait { handle: 0 },
            finish(),
        ]
    );
    assert_eq!(
        run("ls | help << f | wc", &mut shell, &[]),
        vec![
            spawn(0, "ls", &[], Source::Terminal, Sink::Pipe),
            Action::OpenRead { path: "f".to_string(), hold: false },
            Action::PrintHelp,
            spawn(2, "wc", &[], Source::Process(0), Sink::Terminal),
            Action::Wait { handle: 2 },
            finish(),
        ]
    );
}

#[test]
fn the_files_of_a_builtin_are_opened_and_not_held() {
    let mut shell = at("/");
    assert_eq!(
        run("pwd >> out.txt", &mut shell, &[]),
        vec![
            Action::OpenWrite { path: "out.txt".to_string(), hold: false },
            Action::PrintPath { path: "/".to_string() },
            finish(),
        ]
    );
    assert_eq!(
        run("pwd >> /no/such/out.txt", &mut shell, &[FAILED]),
        vec![
            Action::OpenWrite { path: "/no/such/out.txt".to_string(), hold: false },
            failure(LineError::OpenWrite),
        ]
    );
    assert_eq!(
        run("exit << f", &mut shell, &[]),
        vec![Action::OpenRead { path: "f".to_string(), hold: false }, finish()]
    );
}

#[test]
fn a_segment_without_a_command_is_passed_over() {
    let mut shell = at("/");
    assert_eq!(
        run("ls |  | wc", &mut shell, &[]),
        vec![
            spawn(0, "ls", &[], Source::Terminal, Sink::Pipe),
            spawn(2, "wc", &[], Source::Process(0), Sink::Terminal),
            Action::Wait { handle: 2 },
            finish(),
        ]
    );
    assert_eq!(run(">> out.txt", &mut shell, &[]), vec![finish()]);
    assert_eq!(run("<< in.txt", &mut shell, &[FAILED]), vec![finish()]);
}

#[test]
fn a_pipeline_written_by_hand() {
    let mut shell = at("/");
    let pipeline = vec![
        Segment { file: None, parts: strings(&["echo", "a b"]) },
        Segment { file: Some(FilePipe::WriteFile("o".to_string())), parts: strings(&["cat"]) },
    ];
    assert_eq!(
        run_pipeline(pipeline, &mut shell, &[]),
        vec![
            spawn(0, "echo", &["a b"], Source::Terminal, Sink::Pipe),
            Action::OpenWrite { path: "o".to_string(), hold: true },
            spawn(1, "cat", &[], Source::Process(0), Sink::File),
            Action::Wait { handle: 1 },
            finish(),
        ]
    );
}

#[test]
fn a_finished_line_stays_finished() {
    let mut shell = at("/");
    let mut executor = Executor::new(parse_line("cat << missing"));
    executor = executor.advance(&mut shell, FAILED);
    assert!(executor.is_finished());
    assert_eq!(executor.pending(&shell), failure(LineError::OpenRead));
    executor = executor.advance(&mut shell, DONE);
    executor = executor.advance(&mut shell, FAILED);
    assert!(executor.is_finished());
    assert_eq!(executor.pending(&shell), failure(LineError::OpenRead));
}

#[test]
fn the_outcome_of_an_effect_that_cannot_fail_is_not_looked_at() {
    for line in ["pwd", "help", "history", "ls | pwd"] {
        let mut shell = at("/");
        let done = run(line, &mut shell, &[DONE, DONE, DONE]);
        let failed = if line == "ls | pwd" {
            run(line, &mut shell, &[DONE, FAILED, FAILED])
        } else {
            run(line, &mut shell, &[FAILED])
        };
        assert_eq!(done, failed, "{:?}", line);
    }
}

#[test]
fn every_line_ends_whatever_the_outcomes() {
    let lines = [
        "a | b << f | cd x | history | clearHistory | pwd >> o | clear | help | c | exit | d",
        "a << f >> g | b >> h << i",
        "clearHistory",
        " |  |  | ",
    ];
    for line in lines {
        for bits in 0u32..4096 {
            let script: Vec<Outcome> =
                (0..12).map(|i| if bits >> i & 1 == 1 { FAILED } else { DONE }).collect();
            let mut shell = at("/");
            let segments = parse_line(line).len();
            let trace = run(line, &mut shell, &script);
            assert!(trace.len() <= 8 * segments + 8, "{:?}", line);
        }
    }
}
