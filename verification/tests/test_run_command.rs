//! Whole runs, on a repository that is kept in memory.

use std::collections::{BTreeMap, BTreeSet};

use jj_run::args::{RevisionArg, RunArgs};
use jj_run::command::{CommandAction, CommandEvent, Emission, RunCommand};
use jj_run::dispatch::DispatchAction;
use jj_run::error::{CommandError, RunError};
use jj_run::ids::{ChangeId, CommitId, TreeId};
use jj_run::job::{Commit, Job, JobAction, JobEvent, JobResult, Output, RunJob};
use jj_run::layout::RunPath;
use jj_run::paths::Components;
use jj_run::shell::{CommandLine, Stdio};

type Files = BTreeMap<String, String>;

/// What the command does in a working copy: it gets the command line and the
/// files, and the prefix of those in its directory.
type Shell = fn(&CommandLine, &mut Files, &str) -> Output;

struct TestCommit {
    id: Vec<u8>,
    change_id: Vec<u8>,
    files: Files,
}

struct Repo {
    /// From the root commit to the working-copy commit.
    commits: Vec<TestCommit>,
    /// The trees that were recorded, by id.
    trees: Vec<Files>,
    /// The directories that exist, as joined names.
    dirs: BTreeSet<String>,
    /// The working copies, by directory.
    working_copies: BTreeMap<String, Files>,
    stdout: String,
    stderr: String,
    descriptions: Vec<String>,
    transformed: usize,
    most_running: usize,
}

fn nibbles(text: &str, value: fn(u8) -> u8) -> Vec<u8> {
    let halves: Vec<u8> = text.bytes().map(value).collect();
    halves.chunks(2).map(|pair| pair[0] * 16 + pair[1]).collect()
}

fn from_hex(text: &str) -> Vec<u8> {
    nibbles(text, |c| if c <= b'9' { c - b'0' } else { c - b'a' + 10 })
}

fn from_reverse_hex(text: &str) -> Vec<u8> {
    nibbles(text, |c| b'z' - c)
}

fn joined(path: &RunPath) -> String {
    path.names.join("/")
}

fn ok(stdout: &str) -> Output {
    Output {
        success: true,
        status: "exit status: 0".to_string(),
        stdout: stdout.as_bytes().to_vec(),
        stderr: Vec::new(),
    }
}

fn exit_1() -> Output {
    Output {
        success: false,
        status: "exit status: 1".to_string(),
        stdout: Vec::new(),
        stderr: Vec::new(),
    }
}

fn touch(files: &mut Files, dir: &str, name: &str) {
    files.entry(format!("{dir}{name}")).or_default();
}

fn variable(line: &CommandLine, name: &str) -> String {
    let found = line.env.iter().find(|(key, _)| key == name);
    found.expect("the variable is set").1.clone()
}

const ROOT_ID: [u8; 20] = [0; 20];

const CHANGE_IDS: [&str; 4] = [
    "qpvuntsmwlqtpsluzzsnyyzlmlwvmlnu",
    "rlvkpnrzqnoowoytxnquwvuryrwnrmlp",
    "kkmpptxzrspxrzommnulwmwkkqwworpl",
    "zsuskulnrvyrovkzqrwmxqlsskqntxvp",
];

impl Repo {
    /// A repository with one commit for each list of files, on top of the root
    /// commit and of each other.
    fn new(files_of_commits: &[&[(&str, &str)]]) -> Repo {
        let mut commits = vec![TestCommit {
            id: ROOT_ID.to_vec(),
            change_id: vec![0; 16],
            files: Files::new(),
        }];
        for (i, added) in files_of_commits.iter().enumerate() {
            let mut files = commits[i].files.clone();
            for (name, content) in added.iter() {
                files.insert(name.to_string(), content.to_string());
            }
            commits.push(TestCommit {
                id: vec![i as u8 + 1; 20],
                change_id: from_reverse_hex(CHANGE_IDS[i]),
                files,
            });
        }
        Repo {
            commits,
            trees: Vec::new(),
            dirs: BTreeSet::new(),
            working_copies: BTreeMap::new(),
            stdout: String::new(),
            stderr: String::new(),
            descriptions: Vec::new(),
            transformed: 0,
            most_running: 0,
        }
    }

    fn commit(&self, id: &CommitId) -> usize {
        let found = self.commits.iter().position(|c| c.id == id.bytes);
        found.expect("the commit exists")
    }

    /// The id of the tree with these files.
    fn tree_id(&mut self, files: Files) -> TreeId {
        let known = self.trees.iter().position(|tree| *tree == files);
        let i = known.unwrap_or_else(|| {
            self.trees.push(files);
            self.trees.len() - 1
        });
        TreeId::new(vec![i as u8])
    }

    fn file_list(&self, i: usize) -> Vec<String> {
        self.commits[i].files.keys().cloned().collect()
    }

    fn remove_dir_all(&mut self, path: &str) {
        let below = format!("{path}/");
        self.dirs.retain(|dir| dir != path && !dir.starts_with(&below));
        self.working_copies.retain(|dir, _| !dir.starts_with(&below));
    }

    fn perform(&mut self, action: JobAction, shell: Shell) -> JobEvent<String> {
        match action {
            JobAction::ProbePath(path) => JobEvent::Probed(self.dirs.contains(&joined(&path))),
            JobAction::RemoveDirAll(path) => {
                self.remove_dir_all(&joined(&path));
                JobEvent::Done
            }
            JobAction::CreateDir(path) => {
                if self.dirs.insert(joined(&path)) {
                    JobEvent::Done
                } else {
                    JobEvent::Failed("File exists".to_string())
                }
            }
            JobAction::InitTreeState { working_copy, state, .. } => {
                assert!(self.dirs.contains(&joined(&working_copy)));
                assert!(self.dirs.contains(&joined(&state)));
                JobEvent::Done
            }
            JobAction::ProbeDir(dir) => {
                let prefix = prefix_of(&dir.subdir);
                let files = &self.working_copies[&joined(&dir.working_copy)];
                let found = files.keys().any(|name| name.starts_with(&prefix));
                JobEvent::Probed(prefix.is_empty() || found)
            }
            JobAction::Execute(line) => {
                assert_eq!(line.program, "/bin/sh");
                assert_eq!(line.args[0], "-c");
                assert_eq!(line.stdin, Stdio::Null);
                let prefix = prefix_of(&line.current_dir.subdir);
                let dir = joined(&line.current_dir.working_copy);
                let files = self.working_copies.get_mut(&dir).expect("it is checked out");
                JobEvent::Exited(shell(&line, files, &prefix))
            }
            JobAction::CheckOut(_) | JobAction::Snapshot(_) | JobAction::LoadTree(_) => {
                unreachable!()
            }
        }
    }

    fn run_job(&mut self, mut job: Job<String>, shell: Shell) -> JobResult<String> {
        let dir = format!("run/default/{}/working_copy", job.commit.id.hex());
        while let Some(action) = job.action() {
            let event = match action {
                JobAction::Snapshot(options) => {
                    assert_eq!(options.max_new_file_size, 64_000_000);
                    assert!(options.base_ignores);
                    let tree_ids = vec![self.tree_id(self.working_copies[&dir].clone())];
                    JobEvent::Snapshotted(tree_ids)
                }
                JobAction::CheckOut(tree_ids) => {
                    assert_eq!(tree_ids.len(), 1);
                    let files = self.trees[tree_ids[0].bytes[0] as usize].clone();
                    self.working_copies.insert(dir.clone(), files);
                    JobEvent::Done
                }
                JobAction::LoadTree(id) => {
                    assert!((id.bytes[0] as usize) < self.trees.len());
                    JobEvent::Done
                }
                other => self.perform(other, shell),
            };
            assert!(job.accepts(&event));
            job = job.step(event);
        }
        job.into_result()
    }

    /// Runs the jobs; of those that run at the same time, the last that was
    /// started ends first.
    fn run_jobs(
        &mut self,
        command: &RunCommand<String>,
        shell: Shell,
        queue: &mut Vec<RunJob>,
    ) -> Result<(), RunError<String>> {
        let mut dispatcher = command.dispatcher();
        let mut running: Vec<JobResult<String>> = Vec::new();
        let mut ended: Option<RunJob> = None;
        while let Some(action) = dispatcher.action() {
            match action {
                DispatchAction::Start(i) => {
                    let result = self.run_job(command.job(i), shell);
                    running.push(result);
                    self.most_running = self.most_running.max(running.len());
                    dispatcher = dispatcher.started();
                }
                DispatchAction::Join => {
                    let result = running.pop().expect("a job is running");
                    (dispatcher, ended) = dispatcher.joined(Ok(result));
                }
                DispatchAction::Deliver => {
                    queue.push(ended.take().expect("a job has ended"));
                    dispatcher = dispatcher.delivered(true);
                }
            }
        }
        dispatcher.into_result()
    }

    /// `run` with these arguments on the commits at these positions.
    fn run(
        &mut self,
        args: &RunArgs,
        positions: &[usize],
        cwd: &str,
        shell: Shell,
    ) -> Result<(), CommandError<String>> {
        self.stdout.clear();
        self.stderr.clear();
        let commits: Vec<Commit> = positions
            .iter()
            .map(|&i| Commit {
                id: CommitId::new(self.commits[i].id.clone()),
                change_id: ChangeId::new(self.commits[i].change_id.clone()),
                tree_ids: vec![self.tree_id(self.commits[i].files.clone())],
            })
            .collect();
        let subdir = args.subdir(&components(cwd), &components("/repo"));
        let root_id = CommitId::new(ROOT_ID.to_vec());
        let mut command: RunCommand<String> =
            RunCommand::new(args, commits, &root_id, Some(3), subdir, false);
        let mut queue: Vec<RunJob> = Vec::new();
        while let Some(action) = command.action() {
            let event = match action {
                CommandAction::CheckRewritable(_) => CommandEvent::Done,
                CommandAction::ProbePath(path) => {
                    CommandEvent::Probed(self.dirs.contains(&joined(&path)))
                }
                CommandAction::CreateDirAll(path) => {
                    self.dirs.insert(joined(&path));
                    CommandEvent::Done
                }
                CommandAction::RunJobs => {
                    CommandEvent::Ran(self.run_jobs(&command, shell, &mut queue))
                }
                CommandAction::Receive => CommandEvent::Received(if queue.is_empty() {
                    None
                } else {
                    Some(queue.remove(0))
                }),
                CommandAction::Write(emission) => {
                    match emission {
                        Emission::Stdout(bytes) => {
                            self.stdout += std::str::from_utf8(&bytes).unwrap();
                        }
                        Emission::Stderr(bytes) => {
                            self.stderr += std::str::from_utf8(&bytes).unwrap();
                        }
                        Emission::StderrLine(line) => {
                            self.stderr += &line;
                            self.stderr += "\n";
                        }
                    }
                    CommandEvent::Done
                }
                CommandAction::RemoveDirAll(path) => {
                    self.remove_dir_all(&joined(&path));
                    CommandEvent::Done
                }
                CommandAction::Transform(ids) => {
                    let first = ids.iter().map(|id| self.commit(id)).min().unwrap();
                    for i in first..self.commits.len() {
                        let id = CommitId::new(self.commits[i].id.clone());
                        if let Some(tree) = command.visit(&id) {
                            self.commits[i].files = self.trees[tree.bytes[0] as usize].clone();
                        }
                        self.commits[i].id[19] ^= 0x80;
                        self.transformed += 1;
                    }
                    CommandEvent::Done
                }
                CommandAction::Finish(description) => {
                    self.descriptions.push(description);
                    if self.transformed == 0 {
                        self.stderr += "Nothing changed.\n";
                    }
                    CommandEvent::Done
                }
            };
            assert!(command.accepts(&event));
            command = command.step(event);
        }
        command.into_result()
    }
}

fn components(path: &str) -> Components {
    Components::new(path.split('/').map(|part| part.as_bytes().to_vec()).collect())
}

fn prefix_of(subdir: &Components) -> String {
    let mut prefix = String::new();
    for part in &subdir.parts {
        prefix += std::str::from_utf8(part).unwrap();
        prefix += "/";
    }
    prefix
}

fn args(shell_command: &str) -> RunArgs {
    RunArgs {
        shell_command: shell_command.to_string(),
        revisions: vec![RevisionArg { text: "..@".to_string() }],
        exec_flag: false,
        jobs: None,
        root: false,
    }
}

const A_B_C: &[&[(&str, &str)]] =
    &[&[("A.txt", "A")], &[("b.txt", "b")], &[("c.txt", "test to replace")], &[]];

#[test]
fn test_run_simple() {
    let mut repo = Repo::new(A_B_C);
    // The command writes a file in each working copy, so every commit's tree
    // gets rewritten.
    let command = args("fake-formatter --stdout x --tee touched.txt");
    let result = repo.run(&command, &[4, 3, 2, 1], "/repo", |_, files, dir| {
        touch(files, dir, "touched.txt");
        ok("x")
    });
    assert!(result.is_ok());
    assert_eq!(repo.stdout, "xxxx");
    assert_eq!(
        repo.stderr,
        "Rewrote 4 commits with fake-formatter --stdout x --tee touched.txt\n"
    );
    assert_eq!(
        repo.descriptions,
        ["run: rewrite 4 commits with fake-formatter --stdout x --tee touched.txt"]
    );
    assert_eq!(repo.file_list(1), ["A.txt", "touched.txt"]);
    assert_eq!(repo.file_list(4), ["A.txt", "b.txt", "c.txt", "touched.txt"]);
    // No more ran in parallel than there are cores, and nothing stays behind.
    assert_eq!(repo.most_running, 3);
    assert!(repo.dirs.is_empty());
}

#[test]
fn test_run_on_immutable() {
    let mut repo = Repo::new(A_B_C);
    // Running on the root commit is nonsensical.
    let command = args("fake-formatter --uppercase");
    let result = repo.run(&command, &[0], "/repo", |_, _, _| panic!("it is not run"));
    assert!(result.is_ok());
    assert_eq!(repo.stderr, "");
    assert_eq!(repo.stdout, "");
    assert!(repo.descriptions.is_empty());
}

#[test]
fn test_run_noop() {
    let mut repo = Repo::new(A_B_C);
    // No tracked files in the working copy change, so no commits get rewritten.
    let command = args("fake-formatter --stdout foo");
    let result = repo.run(&command, &[4, 3, 2, 1], "/repo", |_, _, _| ok("foo"));
    assert!(result.is_ok());
    assert_eq!(repo.stdout, "foofoofoofoo");
    assert_eq!(
        repo.stderr,
        "No commits were rewritten as the command did not modify any tracked files\n\
         Nothing changed.\n"
    );
    assert_eq!(repo.descriptions, ["run: No-op on 4 commits with fake-formatter --stdout foo"]);
    assert!(repo.dirs.is_empty());
}

#[test]
fn test_run_sets_env_vars() {
    let mut repo = Repo::new(&[&[("seed.txt", "seed")], &[]]);
    repo.commits[1].id = from_hex("5fbe90560fed1c39d46a46a672ba98abd53bdc6d");
    let command =
        args("echo $JJ_CHANGE_ID > change_id.txt && echo $JJ_COMMIT_ID > commit_id.txt");
    let result = repo.run(&command, &[1], "/repo", |line, files, dir| {
        let change_id = variable(line, "JJ_CHANGE_ID");
        let commit_id = variable(line, "JJ_COMMIT_ID");
        files.insert(format!("{dir}change_id.txt"), change_id);
        files.insert(format!("{dir}commit_id.txt"), commit_id);
        ok("")
    });
    assert!(result.is_ok());
    let files = &repo.commits[1].files;
    assert_eq!(files["change_id.txt"], "qpvuntsmwlqtpsluzzsnyyzlmlwvmlnu");
    assert_eq!(files["commit_id.txt"], "5fbe90560fed1c39d46a46a672ba98abd53bdc6d");
}

#[test]
fn test_run_from_subdir_skips_commits_without_it() {
    // The first commit has only root-level files; the second adds
    // `sub/file.txt`, so `sub/` exists from there on.
    let mut repo = Repo::new(&[&[("seed.txt", "seed")], &[("sub/file.txt", "x")], &[]]);
    repo.commits[1].id = from_hex("3bb1f1ca3c09a8e6be46ef48515803464b16b426");
    let result = repo.run(&args("touch ran.txt"), &[2, 1], "/repo/sub", |_, files, dir| {
        touch(files, dir, "ran.txt");
        ok("")
    });
    assert!(result.is_ok());
    assert_eq!(
        repo.stderr,
        "Skipped commit 3bb1f1ca3c09a8e6be46ef48515803464b16b426: directory does not exist: sub\n\
         Rewrote 1 commits with touch ran.txt\n"
    );
    // The rewritten commit has `sub/ran.txt`, alongside the pre-existing
    // `sub/file.txt`.
    assert_eq!(repo.file_list(2), ["seed.txt", "sub/file.txt", "sub/ran.txt"]);
    assert_eq!(repo.file_list(1), ["seed.txt"]);
}

#[test]
fn test_run_root_flag() {
    let mut repo = Repo::new(&[&[("sub/file.txt", "x")], &[]]);
    // Invoked from inside sub/, but with `--root`, so `ran.txt` lands at the
    // top level.
    let command = RunArgs { root: true, ..args("touch ran.txt") };
    let result = repo.run(&command, &[1], "/repo/sub", |_, files, dir| {
        touch(files, dir, "ran.txt");
        ok("")
    });
    assert!(result.is_ok());
    assert_eq!(repo.file_list(1), ["ran.txt", "sub/file.txt"]);
}

#[test]
fn test_run_failure_rewrites_nothing() {
    let mut repo = Repo::new(&[&[("A.txt", "A")], &[("b.txt", "b")], &[]]);
    let before: Vec<Vec<u8>> = repo.commits.iter().map(|c| c.id.clone()).collect();
    // Fail on commit B; succeed (modify the tree) on every other commit.
    let command = args(
        "if [ \"$JJ_CHANGE_ID\" = 'rlvkpnrzqnoowoytxnquwvuryrwnrmlp' ]; then exit 1; fi; \
         touch ran.txt",
    );
    let result = repo.run(&command, &[3, 2, 1], "/repo", |line, files, dir| {
        if variable(line, "JJ_CHANGE_ID") == "rlvkpnrzqnoowoytxnquwvuryrwnrmlp" {
            return exit_1();
        }
        touch(files, dir, "ran.txt");
        ok("")
    });
    let id = before[2].clone();
    match result {
        Err(CommandError::Cli(RunError::CommandFailure(text, status, failed))) => {
            assert_eq!(text, command.shell_command);
            assert_eq!(status, "exit status: 1");
            assert_eq!(failed.bytes, id);
        }
        other => panic!("expected the run to fail, got {other:?}"),
    }
    // Nothing was rewritten, and no transaction was finished.
    let after: Vec<Vec<u8>> = repo.commits.iter().map(|c| c.id.clone()).collect();
    assert_eq!(after, before);
    assert_eq!(repo.file_list(1), ["A.txt"]);
    assert!(repo.descriptions.is_empty());
    assert_eq!(repo.transformed, 0);
}

#[test]
fn test_run_recovers_after_failure() {
    let mut repo = Repo::new(&[&[("A.txt", "A")], &[("b.txt", "b")], &[]]);
    // The first run fails outright on every commit, leaving the per-commit
    // working copies behind.
    let first = repo.run(&args("exit 1"), &[3, 2, 1], "/repo", |_, _, _| exit_1());
    assert!(first.is_err(), "expected the first run to fail");
    assert!(repo.dirs.iter().any(|dir| dir.ends_with("/working_copy")));
    // A second run with a working command must succeed despite those leftover
    // directories.
    let second = repo.run(&args("touch ran.txt"), &[3, 2, 1], "/repo", |_, files, dir| {
        touch(files, dir, "ran.txt");
        ok("")
    });
    assert!(second.is_ok());
    assert_eq!(repo.file_list(2), ["A.txt", "b.txt", "ran.txt"]);
    assert_eq!(repo.file_list(1), ["A.txt", "ran.txt"]);
    assert!(repo.dirs.is_empty());
}
