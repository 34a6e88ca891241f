//! The parts of a run, one by one.

use jj_run::args::{resolve_jobs, RevisionArg, RunArgs, DEFAULT_REVISIONS};
use jj_run::command::{
    select_commits, skipped_message, CommandAction, CommandEvent, CommandStage, Emission,
    RunCommand,
};
use jj_run::dispatch::{DispatchAction, Dispatcher};
use jj_run::error::{CommandError, RunError};
use jj_run::ids::{ChangeId, CommitId, TreeId};
use jj_run::job::{
    Commit, ConflictMarkerStyle, ExecChangeSetting, Job, JobAction, JobEvent, JobResult, Matcher,
    Output, RunJob,
};
use jj_run::layout::{base_dir, base_path, commit_path, create_working_copy_paths, RunPath};
use jj_run::paths::{join_texts, Components};
use jj_run::rewrites::Rewrites;
use jj_run::shell::{get_shell_executable_with_first_arg, CommandLine, ExecDir, Stdio};
use jj_run::text::decimal_text;

fn path(names: &[&str]) -> RunPath {
    RunPath { names: names.iter().map(|name| name.to_string()).collect() }
}

fn components(parts: &[&str]) -> Components {
    Components::new(parts.iter().map(|part| part.as_bytes().to_vec()).collect())
}

fn commit(n: u8) -> Commit {
    Commit {
        id: CommitId::new(vec![n, 0xab]),
        change_id: ChangeId::new(vec![n]),
        tree_ids: vec![TreeId::new(vec![n, 0])],
    }
}

fn run_args(jobs: Option<usize>) -> RunArgs {
    RunArgs {
        shell_command: "cargo fmt".to_string(),
        revisions: vec![RevisionArg { text: "@".to_string() }],
        exec_flag: true,
        jobs,
        root: false,
    }
}

// Ids.

#[test]
fn hex_is_lower_case_and_padded() {
    assert_eq!(CommitId::new(vec![0x00, 0x0f, 0xf0, 0xa5]).hex(), "000ff0a5");
    assert_eq!(CommitId::new(vec![]).hex(), "");
}

#[test]
fn reverse_hex_counts_down_from_z() {
    assert_eq!(ChangeId::new(vec![0; 3]).reverse_hex(), "zzzzzz");
    assert_eq!(ChangeId::new(vec![0x01, 0x9a, 0xff]).reverse_hex(), "zyqpkk");
}

#[test]
fn different_ids_have_different_forms() {
    let (a, b) = (vec![0x12, 0x34], vec![0x12, 0x35]);
    assert_ne!(CommitId::new(a.clone()).hex(), CommitId::new(b.clone()).hex());
    assert_ne!(ChangeId::new(a.clone()).reverse_hex(), ChangeId::new(b.clone()).reverse_hex());
    assert!(!CommitId::new(a.clone()).same(&CommitId::new(b)));
    assert!(!CommitId::new(a.clone()).same(&CommitId::new(vec![0x12])));
    assert!(CommitId::new(a.clone()).same(&CommitId::new(a)));
}

// Numbers.

#[test]
fn decimal_texts() {
    assert_eq!(decimal_text(0), "0");
    assert_eq!(decimal_text(7), "7");
    assert_eq!(decimal_text(10), "10");
    assert_eq!(decimal_text(4090), "4090");
    assert_eq!(decimal_text(u64::MAX), "18446744073709551615");
}

// Arguments.

#[test]
fn default_revisions() {
    assert_eq!(DEFAULT_REVISIONS, "reachable(@, mutable())");
}

#[test]
fn arguments_are_copied_whole() {
    let args = run_args(Some(3));
    assert_eq!(args.clone(), args);
}

#[test]
fn jobs_are_resolved_in_order() {
    assert_eq!(resolve_jobs(Some(3), Some(8)), 3);
    assert_eq!(resolve_jobs(Some(0), Some(8)), 8);
    assert_eq!(resolve_jobs(None, Some(8)), 8);
    assert_eq!(resolve_jobs(Some(0), None), 1);
    assert_eq!(resolve_jobs(None, None), 1);
}

#[test]
fn subdir_is_what_lies_below_the_workspace() {
    let args = run_args(None);
    let root = components(&["/", "home", "repo"]);
    let below = components(&["/", "home", "repo", "sub", "deep"]);
    assert_eq!(args.subdir(&below, &root), components(&["sub", "deep"]));
    assert_eq!(args.subdir(&root, &root), components(&[]));
    // A name that merely starts alike is another directory.
    let beside = components(&["/", "home", "repository", "sub"]);
    assert_eq!(args.subdir(&beside, &root), components(&[]));
    let above = components(&["/", "home"]);
    assert_eq!(args.subdir(&above, &root), components(&[]));
    let with_root = RunArgs { root: true, ..run_args(None) };
    assert_eq!(with_root.subdir(&below, &root), components(&[]));
}

// Paths.

#[test]
fn paths_are_shown_with_the_separator() {
    let path = components(&["sub", "deep"]);
    assert_eq!(path.show(false), "sub/deep");
    assert_eq!(path.show(true), "sub\\deep");
    assert_eq!(components(&[]).show(false), "");
    assert_eq!(components(&["sub"]).show(true), "sub");
    assert_eq!(join_texts(&vec!["a".to_string(), "b".to_string()], ", "), "a, b");
}

#[test]
fn what_is_not_utf8_is_replaced_when_shown() {
    let path = Components::new(vec!["caf\u{e9}".as_bytes().to_vec(), vec![b'x', 0xff, b'y']]);
    assert_eq!(path.show(false), "caf\u{e9}/x\u{fffd}y");
    assert_eq!(path.texts(false), ["caf\u{e9}", "x\u{fffd}y"]);
}

#[test]
fn a_surrogate_of_windows_is_replaced_once() {
    let lone = vec![b'a', 0xed, 0xa0, 0x80, 0xed, 0xbf, 0xbf, b'b'];
    let path = Components::new(vec!["caf\u{e9}".as_bytes().to_vec(), lone]);
    assert_eq!(path.show(true), "caf\u{e9}\\a\u{fffd}\u{fffd}b");
    // Elsewhere these are bytes like any others.
    assert_eq!(path.show(false), format!("caf\u{e9}/a{}b", "\u{fffd}".repeat(6)));
    // The last character before the surrogates, and one that is cut off.
    let near = Components::new(vec!["\u{d7ff}".as_bytes().to_vec(), vec![0xed, 0xa0]]);
    assert_eq!(near.show(true), "\u{d7ff}\\\u{fffd}\u{fffd}");
}

#[test]
fn the_root_is_shown_without_a_separator_behind_it() {
    assert_eq!(components(&["/", "home", "repo"]).show_from(1, false), "/home/repo");
    assert_eq!(components(&["C:", "\\", "repo", "run"]).show_from(2, true), "C:\\repo\\run");
    assert_eq!(components(&["/"]).show_from(1, false), "/");
    assert_eq!(components(&["run", "default"]).show_from(0, false), "run/default");
}

#[test]
fn a_path_has_a_parent_unless_it_is_the_root() {
    let repo = components(&["/", "home", "repo"]);
    assert_eq!(repo.parent(1), Some(components(&["/", "home"])));
    assert_eq!(components(&["/"]).parent(1), None);
    assert_eq!(components(&["C:", "\\"]).parent(2), None);
    assert_eq!(components(&["repo"]).parent(0), Some(components(&[])));
    assert_eq!(components(&[]).parent(0), None);
}

// The shell.

#[test]
fn shells() {
    assert_eq!(get_shell_executable_with_first_arg(true), ("cmd", "/c"));
    assert_eq!(get_shell_executable_with_first_arg(false), ("/bin/sh", "-c"));
}

// The layout.

#[test]
fn directories_of_a_commit() {
    let id = CommitId::new(vec![0x3b, 0xb1]);
    assert_eq!(base_path(), path(&["run", "default"]));
    assert_eq!(commit_path(&id), path(&["run", "default", "3bb1"]));
    let (working_copy, state) = create_working_copy_paths(&commit_path(&id));
    assert_eq!(working_copy, path(&["run", "default", "3bb1", "working_copy"]));
    assert_eq!(state, path(&["run", "default", "3bb1", "state"]));
}

#[test]
fn the_base_directory_lies_beside_the_repository() {
    let repo = components(&["/", "w", ".jj", "repo"]);
    assert_eq!(base_dir(&repo, 1), Some(components(&["/", "w", ".jj", "run", "default"])));
    assert_eq!(base_dir(&components(&["repo"]), 0), Some(components(&["run", "default"])));
    assert_eq!(base_dir(&components(&["/"]), 1), None);
    let commit_dir = commit_path(&CommitId::new(vec![0x3b])).resolve(&repo, 1);
    assert_eq!(commit_dir, Some(components(&["/", "w", ".jj", "run", "default", "3b"])));
}

#[test]
fn directories_of_two_commits_differ() {
    let a = commit_path(&CommitId::new(vec![1]));
    let b = commit_path(&CommitId::new(vec![1, 2]));
    assert_ne!(a, b);
    assert_ne!(a.names[2], b.names[2]);
}

// Errors.

#[test]
fn error_messages() {
    let id = || CommitId::new(vec![0x5f, 0xbe]);
    let repo = components(&["/", "w", ".jj", "repo"]);
    let message = |error: RunError<u8>| error.message(&repo, 1, false, "S");
    assert_eq!(message(RunError::FailedCheckout(id())), "failed to checkout the commit 5fbe");
    assert_eq!(
        message(RunError::CommandFailure("exit 1".into(), "exit status: 1".into(), id())),
        "the command 'exit 1' failed with exit status: 1 for commit 5fbe"
    );
    assert_eq!(message(RunError::IoError(0)), "S");
    assert_eq!(
        message(RunError::PathCreationFailure(commit_path(&id()), 0)),
        "failed to create path /w/.jj/run/default/5fbe with S"
    );
    let repo = components(&["C:", "\\", "w", "repo"]);
    assert_eq!(
        RunError::PathCreationFailure(base_path(), 0u8).message(&repo, 2, true, "S"),
        "failed to create path C:\\w\\run\\default with S"
    );
    assert_eq!(message(RunError::TreeState(0)), "failed to load a commits tree");
    assert_eq!(message(RunError::Backend(0)), "S");
    assert_eq!(message(RunError::JobFailure(0)), "S");
}

#[test]
fn a_job_error_is_an_error_of_the_command() {
    let error: CommandError<u8> = CommandError::from(RunError::Backend(4));
    assert!(matches!(error, CommandError::Cli(RunError::Backend(4))));
}

// Jobs.

fn job() -> Job<u8> {
    Job::new(commit(1), "touch x".to_string(), components(&["sub"]), false)
}

fn output(success: bool) -> Output {
    Output {
        success,
        status: "signal: 9 (SIGKILL)".to_string(),
        stdout: b"out".to_vec(),
        stderr: b"err".to_vec(),
    }
}

/// The events of a job that goes well on a commit without leftovers.
fn events() -> Vec<JobEvent<u8>> {
    vec![
        JobEvent::Probed(false),
        JobEvent::Done,
        JobEvent::Done,
        JobEvent::Done,
        JobEvent::Done,
        JobEvent::Done,
        JobEvent::Probed(true),
        JobEvent::Exited(output(true)),
        JobEvent::Snapshotted(vec![TreeId::new(vec![9])]),
        JobEvent::Done,
    ]
}

/// The job after the first `n` of these events.
fn after(n: usize) -> Job<u8> {
    let mut job = job();
    for event in events().into_iter().take(n) {
        assert!(job.accepts(&event));
        job = job.step(event);
    }
    job
}

fn result_of(job: Job<u8>) -> JobResult<u8> {
    assert_eq!(job.action(), None);
    job.into_result()
}

#[test]
fn job_actions_in_order() {
    let dir = |names: &[&str]| {
        let mut all = vec!["run", "default", "01ab"];
        all.extend(names);
        path(&all)
    };
    assert_eq!(after(0).action(), Some(JobAction::ProbePath(dir(&[]))));
    assert_eq!(after(1).action(), Some(JobAction::CreateDir(dir(&[]))));
    assert_eq!(after(2).action(), Some(JobAction::CreateDir(dir(&["working_copy"]))));
    assert_eq!(after(3).action(), Some(JobAction::CreateDir(dir(&["state"]))));
    match after(4).action() {
        Some(JobAction::InitTreeState { working_copy, state, settings }) => {
            assert_eq!(working_copy, dir(&["working_copy"]));
            assert_eq!(state, dir(&["state"]));
            assert_eq!(settings.conflict_marker_style, ConflictMarkerStyle::Snapshot);
            assert_eq!(settings.exec_change_setting, ExecChangeSetting::Auto);
            assert!(!settings.eol_conversion);
            assert!(!settings.fsmonitor);
        }
        other => panic!("{other:?}"),
    }
    assert_eq!(after(5).action(), Some(JobAction::CheckOut(vec![TreeId::new(vec![1, 0])])));
    let exec_dir =
        || ExecDir { working_copy: dir(&["working_copy"]), subdir: components(&["sub"]) };
    assert_eq!(after(6).action(), Some(JobAction::ProbeDir(exec_dir())));
    assert_eq!(
        after(7).action(),
        Some(JobAction::Execute(CommandLine {
            program: "/bin/sh".to_string(),
            args: vec!["-c".to_string(), "touch x".to_string()],
            current_dir: exec_dir(),
            env: vec![
                ("JJ_CHANGE_ID".to_string(), "zy".to_string()),
                ("JJ_COMMIT_ID".to_string(), "01ab".to_string()),
            ],
            stdin: Stdio::Null,
            stdout: Stdio::Piped,
            stderr: Stdio::Piped,
            kill_on_drop: true,
        }))
    );
    match after(8).action() {
        Some(JobAction::Snapshot(options)) => {
            assert!(options.base_ignores);
            assert_eq!(options.start_tracking, Matcher::Everything);
            assert_eq!(options.force_tracking, Matcher::Nothing);
            assert_eq!(options.max_new_file_size, 64_000_000);
        }
        other => panic!("{other:?}"),
    }
    assert_eq!(after(9).action(), Some(JobAction::LoadTree(TreeId::new(vec![9]))));
    assert_eq!(
        result_of(after(10)).unwrap(),
        RunJob {
            old_id: CommitId::new(vec![1, 0xab]),
            new_tree: Some(TreeId::new(vec![9])),
            dirty: true,
            stdout: b"out".to_vec(),
            stderr: b"err".to_vec(),
            skipped: false,
        }
    );
}

#[test]
fn a_job_is_dirty_if_it_leaves_another_tree() {
    let recorded = |trees: Vec<TreeId>, recorded: TreeId| {
        let mut job = after(8);
        job.commit.tree_ids = trees;
        let job = job.step(JobEvent::Snapshotted(vec![recorded.clone()]));
        assert_eq!(job.action(), Some(JobAction::LoadTree(recorded)));
        result_of(job.step(JobEvent::Done)).unwrap()
    };
    let tree = |n: u8| TreeId::new(vec![7, n]);
    let same = recorded(vec![tree(1)], tree(1));
    assert!(!same.dirty);
    assert_eq!(same.new_tree, Some(tree(1)));
    assert_eq!(same.stdout, b"out");
    let other = recorded(vec![tree(1)], tree(2));
    assert!(other.dirty);
    assert_eq!(other.new_tree, Some(tree(2)));
    assert!(recorded(vec![tree(1)], TreeId::new(vec![7])).dirty);
    // Conflicts that were resolved.
    assert!(recorded(vec![tree(1), tree(2), tree(3)], tree(1)).dirty);
}

#[test]
fn job_uses_the_shell_of_windows() {
    let mut job = after(7);
    job.windows = true;
    match job.action() {
        Some(JobAction::Execute(line)) => {
            assert_eq!(line.program, "cmd");
            assert_eq!(line.args[0], "/c");
        }
        other => panic!("{other:?}"),
    }
}

#[test]
fn job_clears_what_is_left_over() {
    let found = job().step(JobEvent::Probed(true));
    assert_eq!(found.action(), Some(JobAction::RemoveDirAll(path(&["run", "default", "01ab"]))));
    let cleared = found.step(JobEvent::Done);
    assert_eq!(cleared.action(), Some(JobAction::CreateDir(path(&["run", "default", "01ab"]))));
}

#[test]
fn job_skips_a_commit_without_the_directory() {
    let skipped = result_of(after(6).step(JobEvent::Probed(false))).unwrap();
    assert_eq!(
        skipped,
        RunJob {
            old_id: CommitId::new(vec![1, 0xab]),
            new_tree: None,
            dirty: false,
            stdout: vec![],
            stderr: vec![],
            skipped: true,
        }
    );
}

#[test]
fn job_failures() {
    let failed = |n: usize| result_of(after(n).step(JobEvent::Failed(n as u8))).unwrap_err();
    let names = |error: RunError<u8>| match error {
        RunError::PathCreationFailure(path, _) => path.names[2..].join("/"),
        other => panic!("{other:?}"),
    };
    let clearing = job().step(JobEvent::Probed(true)).step(JobEvent::Failed(0));
    assert_eq!(names(result_of(clearing).unwrap_err()), "01ab");
    assert_eq!(names(failed(1)), "01ab");
    assert_eq!(names(failed(2)), "01ab/working_copy");
    assert_eq!(names(failed(3)), "01ab/state");
    assert!(matches!(failed(4), RunError::TreeState(4)));
    assert!(matches!(failed(5), RunError::FailedCheckout(id) if id.bytes == [1, 0xab]));
    assert!(matches!(failed(7), RunError::IoError(7)));
    assert!(matches!(failed(9), RunError::Backend(9)));
    match result_of(after(7).step(JobEvent::Exited(output(false)))) {
        Err(RunError::CommandFailure(command, status, id)) => {
            assert_eq!(command, "touch x");
            assert_eq!(status, "signal: 9 (SIGKILL)");
            assert_eq!(id.bytes, [1, 0xab]);
        }
        other => panic!("{other:?}"),
    }
}

#[test]
fn job_accepts_only_what_fits() {
    assert!(!job().accepts(&JobEvent::Done));
    assert!(!job().accepts(&JobEvent::Failed(0)));
    assert!(!after(1).accepts(&JobEvent::Probed(true)));
    assert!(!after(6).accepts(&JobEvent::Failed(0)));
    // A working copy that cannot be recorded, or that holds conflicts.
    assert!(!after(8).accepts(&JobEvent::Failed(0)));
    let trees = vec![TreeId::new(vec![1]), TreeId::new(vec![2]), TreeId::new(vec![3])];
    assert!(!after(8).accepts(&JobEvent::Snapshotted(trees)));
    assert!(!after(10).accepts(&JobEvent::Done));
}

// Dispatching.

fn ended(n: u8, dirty: bool) -> RunJob {
    RunJob {
        old_id: CommitId::new(vec![n, 0xab]),
        new_tree: Some(TreeId::new(vec![n])),
        dirty,
        stdout: vec![],
        stderr: vec![],
        skipped: false,
    }
}

#[test]
fn dispatch_keeps_to_the_limit() {
    let mut dispatcher: Dispatcher<u8> = Dispatcher::new(3, 2);
    assert_eq!(dispatcher.action(), Some(DispatchAction::Start(0)));
    dispatcher = dispatcher.started();
    assert_eq!(dispatcher.action(), Some(DispatchAction::Start(1)));
    dispatcher = dispatcher.started();
    assert_eq!(dispatcher.action(), Some(DispatchAction::Join));
    let (dispatcher, job) = dispatcher.joined(Ok(Ok(ended(1, true))));
    assert_eq!(job, Some(ended(1, true)));
    assert_eq!(dispatcher.action(), Some(DispatchAction::Deliver));
    let dispatcher = dispatcher.delivered(true);
    assert_eq!(dispatcher.action(), Some(DispatchAction::Start(2)));
    let dispatcher = dispatcher.started();
    let (dispatcher, _) = dispatcher.joined(Ok(Ok(ended(0, true))));
    let dispatcher = dispatcher.delivered(true);
    assert_eq!(dispatcher.action(), Some(DispatchAction::Join));
    let (dispatcher, _) = dispatcher.joined(Ok(Ok(ended(2, true))));
    let dispatcher = dispatcher.delivered(true);
    assert_eq!(dispatcher.action(), None);
    assert!(dispatcher.into_result().is_ok());
}

#[test]
fn dispatch_of_nothing() {
    let dispatcher: Dispatcher<u8> = Dispatcher::new(0, 1);
    assert_eq!(dispatcher.action(), None);
    assert!(dispatcher.into_result().is_ok());
}

#[test]
fn dispatch_ends_with_the_first_failure() {
    let dispatcher: Dispatcher<u8> = Dispatcher::new(2, 5).started().started();
    let (dispatcher, job) = dispatcher.joined(Ok(Err(RunError::TreeState(3))));
    assert_eq!(job, None);
    assert_eq!(dispatcher.action(), None);
    assert!(matches!(dispatcher.into_result(), Err(RunError::TreeState(3))));
}

#[test]
fn dispatch_ends_with_a_job_that_breaks_down() {
    let dispatcher: Dispatcher<u8> = Dispatcher::new(1, 1).started();
    let (dispatcher, job) = dispatcher.joined(Err(5));
    assert_eq!(job, None);
    assert!(matches!(dispatcher.into_result(), Err(RunError::JobFailure(5))));
}

#[test]
fn dispatch_ends_when_nobody_takes_the_jobs() {
    let dispatcher: Dispatcher<u8> = Dispatcher::new(2, 2).started().started();
    let (dispatcher, _) = dispatcher.joined(Ok(Ok(ended(1, true))));
    let dispatcher = dispatcher.delivered(false);
    assert_eq!(dispatcher.action(), None);
    assert!(dispatcher.into_result().is_ok());
}

// New trees.

#[test]
fn later_trees_replace_earlier_ones() {
    let (a, b) = (CommitId::new(vec![1]), CommitId::new(vec![2]));
    let mut rewrites = Rewrites::new();
    assert!(rewrites.is_empty());
    rewrites.insert(a.clone(), TreeId::new(vec![1]));
    rewrites.insert(a.clone(), TreeId::new(vec![7]));
    assert!(!rewrites.is_empty());
    assert_eq!(rewrites.get(&a), Some(TreeId::new(vec![7])));
    assert_eq!(rewrites.get(&b), None);
}

// Whole runs.

fn run(commits: Vec<Commit>) -> RunCommand<u8> {
    let root = CommitId::new(vec![0, 0xab]);
    let subdir = components(&["sub"]);
    RunCommand::new(&run_args(Some(2)), commits, &root, None, subdir, false)
}

/// A run on these commits whose jobs have all been run.
fn ran(commits: Vec<Commit>) -> RunCommand<u8> {
    run(commits)
        .step(CommandEvent::Done)
        .step(CommandEvent::Probed(true))
        .step(CommandEvent::Ran(Ok(())))
}

fn line(text: &str) -> Option<CommandAction> {
    Some(CommandAction::Write(Emission::StderrLine(text.to_string())))
}

#[test]
fn the_root_commit_is_left_out() {
    let root = CommitId::new(vec![0, 0xab]);
    let kept = select_commits(vec![commit(2), commit(0), commit(1)], &root);
    assert_eq!(kept, [commit(2), commit(1)]);
    let nothing = run(vec![commit(0), commit(0)]);
    assert_eq!(nothing.action(), None);
    assert!(nothing.into_result().is_ok());
}

#[test]
fn the_skip_is_reported() {
    assert_eq!(
        skipped_message(&CommitId::new(vec![0x3b]), &"a/b".to_string()),
        "Skipped commit 3b: directory does not exist: a/b"
    );
}

#[test]
fn a_run_prepares_the_base_directory() {
    let ids = || vec![CommitId::new(vec![2, 0xab]), CommitId::new(vec![1, 0xab])];
    let command = run(vec![commit(2), commit(1)]);
    assert_eq!(command.jobs, 2);
    assert_eq!(command.action(), Some(CommandAction::CheckRewritable(ids())));
    let command = command.step(CommandEvent::Done);
    assert_eq!(command.action(), Some(CommandAction::ProbePath(base_path())));
    let command = command.step(CommandEvent::Probed(false));
    assert_eq!(command.action(), Some(CommandAction::CreateDirAll(base_path())));
    let command = command.step(CommandEvent::Done);
    assert_eq!(command.action(), Some(CommandAction::RunJobs));
    let job = command.job(1);
    assert_eq!(job.commit, commit(1));
    assert_eq!(job.shell_command, "cargo fmt");
    assert_eq!(job.subdir, components(&["sub"]));
    let dispatcher = command.dispatcher();
    assert_eq!((dispatcher.total, dispatcher.limit), (2, 2));
}

#[test]
fn a_run_rewrites_what_was_changed() {
    let command = ran(vec![commit(3), commit(2), commit(1)]);
    let mut changed = ended(2, true);
    changed.stdout = b"out".to_vec();
    changed.stderr = b"err".to_vec();
    let command = command.step(CommandEvent::Received(Some(changed)));
    assert_eq!(command.action(), Some(CommandAction::Write(Emission::Stdout(b"out".to_vec()))));
    let command = command.step(CommandEvent::Done);
    assert_eq!(command.action(), Some(CommandAction::Write(Emission::Stderr(b"err".to_vec()))));
    let command = command.step(CommandEvent::Done);
    assert_eq!(command.action(), Some(CommandAction::Receive));
    // With nothing there to receive, it is waited for.
    let command = command.step(CommandEvent::Received(None));
    assert_eq!(command.action(), Some(CommandAction::Receive));
    let command = command.step(CommandEvent::Received(Some(ended(1, false))));
    let skipped = RunJob { new_tree: None, skipped: true, ..ended(3, false) };
    let command = command.step(CommandEvent::Received(Some(skipped)));
    assert_eq!(command.action(), line("Skipped commit 03ab: directory does not exist: sub"));
    let mut command = command.step(CommandEvent::Done);
    let ids = vec![commit(3).id, commit(2).id, commit(1).id];
    assert_eq!(command.action(), Some(CommandAction::Transform(ids)));
    assert_eq!(command.visit(&commit(1).id), None);
    assert_eq!(command.visit(&commit(2).id), Some(TreeId::new(vec![2])));
    // A descendant that was not run on keeps its tree.
    assert_eq!(command.visit(&commit(9).id), None);
    let command = command.step(CommandEvent::Done);
    assert_eq!(command.action(), line("Rewrote 1 commits with cargo fmt"));
    let command = command.step(CommandEvent::Done);
    assert_eq!(command.action(), Some(CommandAction::RemoveDirAll(base_path())));
    let command = command.step(CommandEvent::Done);
    let description = "run: rewrite 1 commits with cargo fmt".to_string();
    assert_eq!(command.action(), Some(CommandAction::Finish(description)));
    assert!(command.step(CommandEvent::Done).into_result().is_ok());
}

#[test]
fn a_run_that_changes_nothing_is_a_noop() {
    let command = ran(vec![commit(1)]).step(CommandEvent::Received(Some(ended(1, false))));
    assert_eq!(command.action(), Some(CommandAction::RemoveDirAll(base_path())));
    let command = command.step(CommandEvent::Done);
    assert_eq!(
        command.action(),
        line("No commits were rewritten as the command did not modify any tracked files")
    );
    let command = command.step(CommandEvent::Done);
    let description = "run: No-op on 1 commits with cargo fmt".to_string();
    assert_eq!(command.action(), Some(CommandAction::Finish(description)));
    assert!(command.step(CommandEvent::Done).into_result().is_ok());
}

#[test]
fn the_skip_shows_the_directory_that_was_looked_for() {
    let root = CommitId::new(vec![0, 0xab]);
    for (windows, shown) in [(false, "sub/x\u{fffd}"), (true, "sub\\x\u{fffd}")] {
        let subdir = Components::new(vec![b"sub".to_vec(), vec![b'x', 0xff]]);
        let args = run_args(Some(2));
        let command: RunCommand<u8> =
            RunCommand::new(&args, vec![commit(1)], &root, None, subdir.clone(), windows);
        let skipped = RunJob { new_tree: None, skipped: true, ..ended(1, false) };
        let command = command
            .step(CommandEvent::Done)
            .step(CommandEvent::Probed(true))
            .step(CommandEvent::Ran(Ok(())));
        assert_eq!(command.job(0).subdir, subdir);
        let command = command.step(CommandEvent::Received(Some(skipped)));
        let text = format!("Skipped commit 01ab: directory does not exist: {shown}");
        assert_eq!(command.action(), line(&text));
    }
}

#[test]
fn a_skipped_commit_is_not_rewritten() {
    let odd = RunJob { skipped: true, ..ended(1, true) };
    let command = ran(vec![commit(1)]).step(CommandEvent::Received(Some(odd)));
    let command = command.step(CommandEvent::Done);
    assert!(matches!(command.stage, CommandStage::ClearNoop));
}

#[test]
fn the_order_of_the_results_makes_no_difference() {
    let jobs = || vec![ended(1, true), ended(2, false), ended(3, true)];
    let rewritten = |jobs: Vec<RunJob>| {
        let mut command = ran(vec![commit(1), commit(2), commit(3)]);
        for job in jobs {
            command = command.step(CommandEvent::Received(Some(job)));
        }
        [1, 2, 3].map(|n| command.visit(&commit(n).id))
    };
    let mut reversed = jobs();
    reversed.reverse();
    let expected = [Some(TreeId::new(vec![1])), None, Some(TreeId::new(vec![3]))];
    assert_eq!(rewritten(jobs()), expected);
    assert_eq!(rewritten(reversed), expected);
}

#[test]
fn jobs_dispatch_and_run_together() {
    let mut command = ran(vec![commit(1), commit(2)]);
    let mut dispatcher = command.dispatcher();
    for index in 0..2 {
        assert_eq!(dispatcher.action(), Some(DispatchAction::Start(index)));
        dispatcher = dispatcher.started();
    }
    // The job on the second commit ends first, and only it changes something.
    for (index, tree) in [(1, TreeId::new(vec![9])), (0, commit(1).tree_ids[0].clone())] {
        let mut job = command.job(index);
        for event in events() {
            let event = match event {
                JobEvent::Snapshotted(_) => JobEvent::Snapshotted(vec![tree.clone()]),
                JobEvent::Exited(_) => {
                    JobEvent::Exited(Output { stdout: vec![], stderr: vec![], ..output(true) })
                }
                other => other,
            };
            job = job.step(event);
        }
        let (joined, result) = dispatcher.joined(Ok(job.into_result()));
        dispatcher = joined.delivered(true);
        command = command.step(CommandEvent::Received(result));
    }
    assert_eq!(dispatcher.action(), None);
    assert_eq!(command.visit(&commit(1).id), None);
    assert_eq!(command.visit(&commit(2).id), Some(TreeId::new(vec![9])));
}

#[test]
fn failures_of_a_run() {
    let failed = |command: RunCommand<u8>| {
        let command = command.step(CommandEvent::Failed(6));
        assert_eq!(command.action(), None);
        command.into_result().unwrap_err()
    };
    let other = |error: CommandError<u8>| matches!(error, CommandError::Other(6));
    assert!(other(failed(run(vec![commit(1)]))));
    let missing = run(vec![commit(1)]).step(CommandEvent::Done).step(CommandEvent::Probed(false));
    assert!(matches!(failed(missing), CommandError::Cli(RunError::IoError(6))));
    let changed = || ran(vec![commit(1)]).step(CommandEvent::Received(Some(ended(1, true))));
    assert!(other(failed(changed())));
    assert!(other(failed(changed().step(CommandEvent::Done))));
    assert!(other(failed(changed().step(CommandEvent::Done).step(CommandEvent::Done))));
    let noisy = RunJob { stdout: b"x".to_vec(), ..ended(1, true) };
    assert!(other(failed(ran(vec![commit(1)]).step(CommandEvent::Received(Some(noisy))))));
    let jobs_failed = run(vec![commit(1)])
        .step(CommandEvent::Done)
        .step(CommandEvent::Probed(true))
        .step(CommandEvent::Ran(Err(RunError::JobFailure(2))));
    assert_eq!(jobs_failed.action(), None);
    assert!(matches!(
        jobs_failed.into_result(),
        Err(CommandError::Cli(RunError::JobFailure(2)))
    ));
}

#[test]
fn a_run_accepts_only_what_fits() {
    let command = run(vec![commit(1)]);
    assert!(command.accepts(&CommandEvent::Done));
    assert!(command.accepts(&CommandEvent::Failed(1)));
    assert!(!command.accepts(&CommandEvent::Probed(true)));
    assert!(!command.accepts(&CommandEvent::Received(None)));
    let command = command.step(CommandEvent::Done);
    assert!(!command.accepts(&CommandEvent::Failed(1)));
    let command = command.step(CommandEvent::Probed(true));
    assert!(!command.accepts(&CommandEvent::Done));
    let command = command.step(CommandEvent::Ran(Ok(())));
    assert!(command.accepts(&CommandEvent::Received(None)));
    assert!(!command.accepts(&CommandEvent::Ran(Ok(()))));
}
