//! One job of a run: a commit is checked out, the command is run on it, and
//! what it left behind is recorded.

use crate::error::{RunError, RunErrorView};
use crate::ids::{same_bytes, ChangeId, CommitId, TreeId};
use crate::layout::{
    commit_names, commit_path, create_working_copy_paths, state_names, working_copy_names, RunPath,
};
use crate::paths::Components;
use crate::shell::{
    command_line, command_line_of, CommandLine, CommandLineView, ExecDir, ExecDirView,
};
use vstd::prelude::*;
use vstd::string::*;

verus! {

/// A commit, as far as a run is concerned with it.
#[derive(Debug, PartialEq, Eq)]
pub struct Commit {
    pub id: CommitId,
    pub change_id: ChangeId,
    /// The trees that its contents amount to, which are several only if it
    /// holds conflicts.
    pub tree_ids: Vec<TreeId>,
}

/// Which commit a `Commit` is.
pub struct CommitView {
    pub id: Seq<u8>,
    pub change_id: Seq<u8>,
    pub tree_ids: Seq<Seq<u8>>,
}

/// What a list of trees says.
pub open spec fn trees_view(trees: Seq<TreeId>) -> Seq<Seq<u8>> {
    trees.map_values(|id: TreeId| id@)
}

/// A copy of `trees`.
fn copied_trees(trees: &Vec<TreeId>) -> (copy: Vec<TreeId>)
    ensures
        trees_view(copy@) == trees_view(trees@),
{
    let mut copy: Vec<TreeId> = Vec::new();
    let mut i: usize = 0;
    while i < trees.len()
        invariant
            i <= trees@.len(),
            trees_view(copy@) == trees_view(trees@).take(i as int),
        decreases trees@.len() - i,
    {
        let ghost before = copy@;
        copy.push(trees[i].clone());
        proof {
            let all = trees_view(trees@);
            assert(trees_view(copy@) =~= trees_view(before).push(all[i as int]));
            assert(all.take(i + 1) =~= all.take(i as int).push(all[i as int]));
        }
        i = i + 1;
    }
    assert(trees_view(trees@).take(i as int) =~= trees_view(trees@));
    copy
}

/// Whether `left` and `right` are the same trees.
fn same_trees(left: &Vec<TreeId>, right: &Vec<TreeId>) -> (same: bool)
    ensures
        same == (trees_view(left@) == trees_view(right@)),
{
    let ghost (all_left, all_right) = (trees_view(left@), trees_view(right@));
    if left.len() != right.len() {
        assert(all_left.len() != all_right.len());
        return false;
    }
    let mut i: usize = 0;
    while i < left.len()
        invariant
            i <= left@.len() == right@.len(),
            all_left == trees_view(left@),
            all_right == trees_view(right@),
            forall|k: int| 0 <= k < i ==> all_left[k] == all_right[k],
        decreases left@.len() - i,
    {
        if !same_bytes(&left[i].bytes, &right[i].bytes) {
            assert(all_left[i as int] != all_right[i as int]);
            return false;
        }
        i = i + 1;
    }
    assert(all_left =~= all_right);
    true
}

impl View for Commit {
    type V = CommitView;

    open spec fn view(&self) -> CommitView {
        CommitView {
            id: self.id@,
            change_id: self.change_id@,
            tree_ids: trees_view(self.tree_ids@),
        }
    }
}

impl Clone for Commit {
    fn clone(&self) -> (copy: Commit)
        ensures
            copy@ == self@,
    {
        Commit {
            id: self.id.clone(),
            change_id: self.change_id.clone(),
            tree_ids: copied_trees(&self.tree_ids),
        }
    }
}

/// The result of a single command invocation.
#[derive(Debug, PartialEq, Eq)]
pub struct RunJob {
    /// The old id of the commit.
    pub old_id: CommitId,
    /// The new tree generated from the commit. `None` when the command wasn't
    /// run (i.e. the commit was skipped).
    pub new_tree: Option<TreeId>,
    /// Was the tree even modified: whether the new tree is another than that of
    /// the commit.
    pub dirty: bool,
    /// Bytes the subprocess wrote to its stdout, captured in full.
    pub stdout: Vec<u8>,
    /// Bytes the subprocess wrote to its stderr, captured in full.
    pub stderr: Vec<u8>,
    /// True if the command wasn't run because the per-commit working directory
    /// (the subdirectory that `run` was invoked from) didn't exist in this
    /// commit's tree.
    pub skipped: bool,
}

/// What a `RunJob` says.
pub struct RunJobView {
    pub old_id: Seq<u8>,
    pub new_tree: Option<Seq<u8>>,
    pub dirty: bool,
    pub stdout: Seq<u8>,
    pub stderr: Seq<u8>,
    pub skipped: bool,
}

impl View for RunJob {
    type V = RunJobView;

    open spec fn view(&self) -> RunJobView {
        RunJobView {
            old_id: self.old_id@,
            new_tree: match self.new_tree {
                Some(tree) => Some(tree@),
                None => None,
            },
            dirty: self.dirty,
            stdout: self.stdout@,
            stderr: self.stderr@,
            skipped: self.skipped,
        }
    }
}

/// The result of the job on a commit that was skipped.
pub open spec fn skipped_job(old_id: Seq<u8>) -> RunJobView {
    RunJobView {
        old_id,
        new_tree: None,
        dirty: false,
        stdout: Seq::empty(),
        stderr: Seq::empty(),
        skipped: true,
    }
}

/// What a job ends with.
pub type JobResult<E> = Result<RunJob, RunError<E>>;

/// What a `JobResult` says.
pub open spec fn job_result_view<E>(result: JobResult<E>) -> Result<RunJobView, RunErrorView<E>> {
    match result {
        Ok(job) => Ok(job@),
        Err(error) => Err(error@),
    }
}

/// How conflicts are written to the files of a working copy.
#[derive(Clone, Copy, Debug, PartialEq, Eq)]
pub enum ConflictMarkerStyle {
    Diff,
    Snapshot,
    Git,
}

/// Whether changes of the executable bit count.
#[derive(Clone, Copy, Debug, PartialEq, Eq)]
pub enum ExecChangeSetting {
    Auto,
    Ignore,
    Respect,
}

/// How a working copy is set up.
#[derive(Clone, Copy, Debug, PartialEq, Eq)]
pub struct TreeStateSettings {
    pub conflict_marker_style: ConflictMarkerStyle,
    /// Whether line endings are converted.
    pub eol_conversion: bool,
    pub exec_change_setting: ExecChangeSetting,
    /// Whether a file system monitor is used.
    pub fsmonitor: bool,
}

/// A choice among the files of a working copy.
#[derive(Clone, Copy, Debug, PartialEq, Eq)]
pub enum Matcher {
    Everything,
    Nothing,
}

/// How a working copy is recorded.
#[derive(Clone, Copy, Debug, PartialEq, Eq)]
pub struct SnapshotOptions {
    /// Whether the files that the workspace ignores are left out.
    pub base_ignores: bool,
    /// The new files that are recorded.
    pub start_tracking: Matcher,
    /// The new files that are recorded whatever their size.
    pub force_tracking: Matcher,
    /// The size in bytes up to which a new file is recorded.
    pub max_new_file_size: u64,
}

/// The setup of the working copy of every job.
pub open spec fn job_tree_settings() -> TreeStateSettings {
    TreeStateSettings {
        conflict_marker_style: ConflictMarkerStyle::Snapshot,
        eol_conversion: false,
        exec_change_setting: ExecChangeSetting::Auto,
        fsmonitor: false,
    }
}

/// The recording of the working copy of every job.
pub open spec fn job_snapshot_options() -> SnapshotOptions {
    SnapshotOptions {
        base_ignores: true,
        start_tracking: Matcher::Everything,
        force_tracking: Matcher::Nothing,
        max_new_file_size: 64_000_000,
    }
}

/// What a job needs done next.
#[derive(Debug, PartialEq, Eq)]
pub enum JobAction {
    /// Find out whether the path exists.
    ProbePath(RunPath),
    /// Remove the directory and everything in it.
    RemoveDirAll(RunPath),
    /// Create the directory.
    CreateDir(RunPath),
    /// Set up a working copy, with its state in a directory of its own.
    InitTreeState { working_copy: RunPath, state: RunPath, settings: TreeStateSettings },
    /// Check the contents of the commit out into the working copy.
    CheckOut(Vec<TreeId>),
    /// Find out whether this is a directory.
    ProbeDir(ExecDir),
    /// Run the command to its end.
    Execute(CommandLine),
    /// Record the working copy.
    Snapshot(SnapshotOptions),
    /// Load the tree of the whole repository with this id.
    LoadTree(TreeId),
}

/// What a `JobAction` says.
pub enum JobActionView {
    ProbePath(Seq<Seq<char>>),
    RemoveDirAll(Seq<Seq<char>>),
    CreateDir(Seq<Seq<char>>),
    InitTreeState {
        working_copy: Seq<Seq<char>>,
        state: Seq<Seq<char>>,
        settings: TreeStateSettings,
    },
    CheckOut(Seq<Seq<u8>>),
    ProbeDir(ExecDirView),
    Execute(CommandLineView),
    Snapshot(SnapshotOptions),
    LoadTree(Seq<u8>),
}

impl View for JobAction {
    type V = JobActionView;

    open spec fn view(&self) -> JobActionView {
        match *self {
            JobAction::ProbePath(path) => JobActionView::ProbePath(path@),
            JobAction::RemoveDirAll(path) => JobActionView::RemoveDirAll(path@),
            JobAction::CreateDir(path) => JobActionView::CreateDir(path@),
            JobAction::InitTreeState { working_copy, state, settings } => {
                JobActionView::InitTreeState {
                    working_copy: working_copy@,
                    state: state@,
                    settings,
                }
            },
            JobAction::CheckOut(trees) => JobActionView::CheckOut(trees_view(trees@)),
            JobAction::ProbeDir(dir) => JobActionView::ProbeDir(dir@),
            JobAction::Execute(line) => JobActionView::Execute(line@),
            JobAction::Snapshot(options) => JobActionView::Snapshot(options),
            JobAction::LoadTree(id) => JobActionView::LoadTree(id@),
        }
    }
}

/// How a command ended and what it wrote.
#[derive(Debug, PartialEq, Eq)]
pub struct Output {
    pub success: bool,
    /// How it ended, in words.
    pub status: String,
    pub stdout: Vec<u8>,
    pub stderr: Vec<u8>,
}

/// What an `Output` says.
pub struct OutputView {
    pub success: bool,
    pub status: Seq<char>,
    pub stdout: Seq<u8>,
    pub stderr: Seq<u8>,
}

impl View for Output {
    type V = OutputView;

    open spec fn view(&self) -> OutputView {
        OutputView {
            success: self.success,
            status: self.status@,
            stdout: self.stdout@,
            stderr: self.stderr@,
        }
    }
}

/// What came of an action.
#[derive(Debug)]
pub enum JobEvent<E> {
    /// The answer to a probe.
    Probed(bool),
    /// The action was done.
    Done,
    /// The action failed.
    Failed(E),
    /// The command ran to its end.
    Exited(Output),
    /// The working copy was recorded: the trees it amounts to, which are several
    /// only if it holds conflicts.
    Snapshotted(Vec<TreeId>),
}

/// What a `JobEvent` says.
pub enum JobEventView<E> {
    Probed(bool),
    Done,
    Failed(E),
    Exited(OutputView),
    Snapshotted(Seq<Seq<u8>>),
}

impl<E> View for JobEvent<E> {
    type V = JobEventView<E>;

    open spec fn view(&self) -> JobEventView<E> {
        match *self {
            JobEvent::Probed(answer) => JobEventView::Probed(answer),
            JobEvent::Done => JobEventView::Done,
            JobEvent::Failed(e) => JobEventView::Failed(e),
            JobEvent::Exited(output) => JobEventView::Exited(output@),
            JobEvent::Snapshotted(trees) => JobEventView::Snapshotted(trees_view(trees@)),
        }
    }
}

/// How far a job has come. All but the last are named after the action that
/// is being waited for.
#[derive(Debug)]
pub enum JobStage<E> {
    ProbeCommitDir,
    ClearCommitDir,
    CreateCommitDir,
    CreateWorkingCopyDir,
    CreateStateDir,
    InitTreeState,
    CheckOut,
    ProbeSubdir,
    Execute,
    Snapshot { stdout: Vec<u8>, stderr: Vec<u8> },
    LoadTree { tree_id: TreeId, stdout: Vec<u8>, stderr: Vec<u8> },
    Finished(JobResult<E>),
}

/// What a `JobStage` says.
pub enum JobStageView<E> {
    ProbeCommitDir,
    ClearCommitDir,
    CreateCommitDir,
    CreateWorkingCopyDir,
    CreateStateDir,
    InitTreeState,
    CheckOut,
    ProbeSubdir,
    Execute,
    Snapshot { stdout: Seq<u8>, stderr: Seq<u8> },
    LoadTree { tree_id: Seq<u8>, stdout: Seq<u8>, stderr: Seq<u8> },
    Finished(Result<RunJobView, RunErrorView<E>>),
}

impl<E> View for JobStage<E> {
    type V = JobStageView<E>;

    open spec fn view(&self) -> JobStageView<E> {
        match *self {
            JobStage::ProbeCommitDir => JobStageView::ProbeCommitDir,
            JobStage::ClearCommitDir => JobStageView::ClearCommitDir,
            JobStage::CreateCommitDir => JobStageView::CreateCommitDir,
            JobStage::CreateWorkingCopyDir => JobStageView::CreateWorkingCopyDir,
            JobStage::CreateStateDir => JobStageView::CreateStateDir,
            JobStage::InitTreeState => JobStageView::InitTreeState,
            JobStage::CheckOut => JobStageView::CheckOut,
            JobStage::ProbeSubdir => JobStageView::ProbeSubdir,
            JobStage::Execute => JobStageView::Execute,
            JobStage::Snapshot { stdout, stderr } => JobStageView::Snapshot {
                stdout: stdout@,
                stderr: stderr@,
            },
            JobStage::LoadTree { tree_id, stdout, stderr } => JobStageView::LoadTree {
                tree_id: tree_id@,
                stdout: stdout@,
                stderr: stderr@,
            },
            JobStage::Finished(result) => JobStageView::Finished(job_result_view(result)),
        }
    }
}

/// A job: the commit, the command, the directory to run it from, and how far
/// the job has come.
#[derive(Debug)]
pub struct Job<E> {
    pub commit: Commit,
    pub shell_command: String,
    pub subdir: Components,
    pub windows: bool,
    pub stage: JobStage<E>,
}

/// What a `Job` says.
pub struct JobView<E> {
    pub commit: CommitView,
    pub shell_command: Seq<char>,
    pub subdir: Seq<Seq<u8>>,
    pub windows: bool,
    pub stage: JobStageView<E>,
}

impl<E> View for Job<E> {
    type V = JobView<E>;

    open spec fn view(&self) -> JobView<E> {
        JobView {
            commit: self.commit@,
            shell_command: self.shell_command@,
            subdir: self.subdir@,
            windows: self.windows,
            stage: self.stage@,
        }
    }
}

impl<E> JobView<E> {
    /// The directory that the command runs in.
    pub open spec fn exec_dir(self) -> ExecDirView {
        ExecDirView { working_copy: working_copy_names(self.commit.id), subdir: self.subdir }
    }

    /// The same job at another stage.
    pub open spec fn at(self, stage: JobStageView<E>) -> JobView<E> {
        JobView { stage, ..self }
    }

    /// The job, failed with `error`.
    pub open spec fn failed(self, error: RunErrorView<E>) -> JobView<E> {
        self.at(JobStageView::Finished(Err(error)))
    }

    /// The job, ended with `job`.
    pub open spec fn succeeded(self, job: RunJobView) -> JobView<E> {
        self.at(JobStageView::Finished(Ok(job)))
    }

    /// What the job needs done next; nothing once it is finished.
    pub open spec fn action(self) -> Option<JobActionView> {
        let id = self.commit.id;
        match self.stage {
            JobStageView::ProbeCommitDir => Some(JobActionView::ProbePath(commit_names(id))),
            JobStageView::ClearCommitDir => Some(JobActionView::RemoveDirAll(commit_names(id))),
            JobStageView::CreateCommitDir => Some(JobActionView::CreateDir(commit_names(id))),
            JobStageView::CreateWorkingCopyDir => Some(
                JobActionView::CreateDir(working_copy_names(id)),
            ),
            JobStageView::CreateStateDir => Some(JobActionView::CreateDir(state_names(id))),
            JobStageView::InitTreeState => Some(
                JobActionView::InitTreeState {
                    working_copy: working_copy_names(id),
                    state: state_names(id),
                    settings: job_tree_settings(),
                },
            ),
            JobStageView::CheckOut => Some(JobActionView::CheckOut(self.commit.tree_ids)),
            JobStageView::ProbeSubdir => Some(JobActionView::ProbeDir(self.exec_dir())),
            JobStageView::Execute => Some(
                JobActionView::Execute(
                    command_line_of(
                        self.windows,
                        self.shell_command,
                        self.exec_dir(),
                        id,
                        self.commit.change_id,
                    ),
                ),
            ),
            JobStageView::Snapshot { .. } => Some(JobActionView::Snapshot(job_snapshot_options())),
            JobStageView::LoadTree { tree_id, .. } => Some(JobActionView::LoadTree(tree_id)),
            JobStageView::Finished(_) => None,
        }
    }

    /// Whether `event` can come of the action that the job waits for. The
    /// probes always answer. A working copy that cannot be recorded, or that
    /// holds conflicts, is not provided for.
    pub open spec fn accepts(self, event: JobEventView<E>) -> bool {
        match self.stage {
            JobStageView::ProbeCommitDir | JobStageView::ProbeSubdir => event is Probed,
            JobStageView::ClearCommitDir
            | JobStageView::CreateCommitDir
            | JobStageView::CreateWorkingCopyDir
            | JobStageView::CreateStateDir
            | JobStageView::InitTreeState
            | JobStageView::CheckOut
            | JobStageView::LoadTree { .. } => event is Done || event is Failed,
            JobStageView::Execute => event is Exited || event is Failed,
            JobStageView::Snapshot { .. } => {
                event matches JobEventView::Snapshotted(trees) && trees.len() == 1
            },
            JobStageView::Finished(_) => false,
        }
    }

    /// The job after `event` has come of the action that it waited for.
    pub open spec fn next(self, event: JobEventView<E>) -> JobView<E>
        recommends
            self.accepts(event),
    {
        let id = self.commit.id;
        match (self.stage, event) {
            // A directory left behind by an earlier run is cleared.
            (JobStageView::ProbeCommitDir, JobEventView::Probed(exists)) => if exists {
                self.at(JobStageView::ClearCommitDir)
            } else {
                self.at(JobStageView::CreateCommitDir)
            },
            (JobStageView::ClearCommitDir, JobEventView::Done) => {
                self.at(JobStageView::CreateCommitDir)
            },
            (JobStageView::CreateCommitDir, JobEventView::Done) => {
                self.at(JobStageView::CreateWorkingCopyDir)
            },
            (JobStageView::CreateWorkingCopyDir, JobEventView::Done) => {
                self.at(JobStageView::CreateStateDir)
            },
            (JobStageView::CreateStateDir, JobEventView::Done) => {
                self.at(JobStageView::InitTreeState)
            },
            (JobStageView::InitTreeState, JobEventView::Done) => self.at(JobStageView::CheckOut),
            (JobStageView::CheckOut, JobEventView::Done) => self.at(JobStageView::ProbeSubdir),
            // A commit without the directory is skipped.
            (JobStageView::ProbeSubdir, JobEventView::Probed(is_dir)) => if is_dir {
                self.at(JobStageView::Execute)
            } else {
                self.succeeded(skipped_job(id))
            },
            (JobStageView::Execute, JobEventView::Exited(output)) => if output.success {
                self.at(JobStageView::Snapshot { stdout: output.stdout, stderr: output.stderr })
            } else {
                self.failed(RunErrorView::CommandFailure(self.shell_command, output.status, id))
            },
            (JobStageView::Snapshot { stdout, stderr }, JobEventView::Snapshotted(trees)) => {
                self.at(JobStageView::LoadTree { tree_id: trees[0], stdout, stderr })
            },
            (JobStageView::LoadTree { tree_id, stdout, stderr }, JobEventView::Done) => {
                self.succeeded(
                    RunJobView {
                        old_id: id,
                        new_tree: Some(tree_id),
                        dirty: seq![tree_id] != self.commit.tree_ids,
                        stdout,
                        stderr,
                        skipped: false,
                    },
                )
            },
            (JobStageView::ClearCommitDir, JobEventView::Failed(e))
            | (JobStageView::CreateCommitDir, JobEventView::Failed(e)) => {
                self.failed(RunErrorView::PathCreationFailure(commit_names(id), e))
            },
            (JobStageView::CreateWorkingCopyDir, JobEventView::Failed(e)) => {
                self.failed(RunErrorView::PathCreationFailure(working_copy_names(id), e))
            },
            (JobStageView::CreateStateDir, JobEventView::Failed(e)) => {
                self.failed(RunErrorView::PathCreationFailure(state_names(id), e))
            },
            (JobStageView::InitTreeState, JobEventView::Failed(e)) => {
                self.failed(RunErrorView::TreeState(e))
            },
            (JobStageView::CheckOut, JobEventView::Failed(_)) => {
                self.failed(RunErrorView::FailedCheckout(id))
            },
            (JobStageView::Execute, JobEventView::Failed(e)) => {
                self.failed(RunErrorView::IoError(e))
            },
            (JobStageView::LoadTree { .. }, JobEventView::Failed(e)) => {
                self.failed(RunErrorView::Backend(e))
            },
            _ => self,
        }
    }
}

/// The setup of the working copy of every job.
fn tree_settings() -> (settings: TreeStateSettings)
    ensures
        settings == job_tree_settings(),
{
    TreeStateSettings {
        conflict_marker_style: ConflictMarkerStyle::Snapshot,
        eol_conversion: false,
        exec_change_setting: ExecChangeSetting::Auto,
        fsmonitor: false,
    }
}

/// The recording of the working copy of every job.
fn snapshot_options() -> (options: SnapshotOptions)
    ensures
        options == job_snapshot_options(),
{
    SnapshotOptions {
        base_ignores: true,
        start_tracking: Matcher::Everything,
        force_tracking: Matcher::Nothing,
        max_new_file_size: 64_000_000,
    }
}

impl<E> Job<E> {
    /// The job that runs `shell_command` on `commit`, from the directory
    /// `subdir` of its working copy.
    pub fn new(commit: Commit, shell_command: String, subdir: Components, windows: bool) -> (job:
        Job<E>)
        ensures
            job@ == (JobView {
                commit: commit@,
                shell_command: shell_command@,
                subdir: subdir@,
                windows,
                stage: JobStageView::<E>::ProbeCommitDir,
            }),
    {
        Job { commit, shell_command, subdir, windows, stage: JobStage::ProbeCommitDir }
    }

    /// The working copy of the commit and its state directory.
    fn working_copy_paths(&self) -> (paths: (RunPath, RunPath))
        ensures
            paths.0@ == working_copy_names(self@.commit.id),
            paths.1@ == state_names(self@.commit.id),
    {
        create_working_copy_paths(&commit_path(&self.commit.id))
    }

    /// The directory that the command runs in.
    fn exec_dir(&self) -> (dir: ExecDir)
        ensures
            dir@ == self@.exec_dir(),
    {
        ExecDir { working_copy: self.working_copy_paths().0, subdir: self.subdir.clone() }
    }

    /// What the job needs done next; nothing once it is finished.
    pub fn action(&self) -> (action: Option<JobAction>)
        ensures
            match action {
                Some(a) => self@.action() == Some(a@),
                None => self@.action() is None,
            },
    {
        match &self.stage {
            JobStage::ProbeCommitDir => Some(JobAction::ProbePath(commit_path(&self.commit.id))),
            JobStage::ClearCommitDir => Some(JobAction::RemoveDirAll(commit_path(&self.commit.id))),
            JobStage::CreateCommitDir => Some(JobAction::CreateDir(commit_path(&self.commit.id))),
            JobStage::CreateWorkingCopyDir => {
                let (working_copy, _) = self.working_copy_paths();
                Some(JobAction::CreateDir(working_copy))
            },
            JobStage::CreateStateDir => {
                let (_, state) = self.working_copy_paths();
                Some(JobAction::CreateDir(state))
            },
            JobStage::InitTreeState => {
                let (working_copy, state) = self.working_copy_paths();
                Some(JobAction::InitTreeState { working_copy, state, settings: tree_settings() })
            },
            JobStage::CheckOut => Some(JobAction::CheckOut(copied_trees(&self.commit.tree_ids))),
            JobStage::ProbeSubdir => Some(JobAction::ProbeDir(self.exec_dir())),
            JobStage::Execute => {
                let line = command_line(
                    self.windows,
                    &self.shell_command,
                    self.exec_dir(),
                    &self.commit.id,
                    &self.commit.change_id,
                );
                Some(JobAction::Execute(line))
            },
            JobStage::Snapshot { .. } => Some(JobAction::Snapshot(snapshot_options())),
            JobStage::LoadTree { tree_id, .. } => Some(JobAction::LoadTree(tree_id.clone())),
            JobStage::Finished(_) => None,
        }
    }

    /// Whether `event` can come of the action that the job waits for.
    pub fn accepts(&self, event: &JobEvent<E>) -> (accepted: bool)
        ensures
            accepted == self@.accepts(event@),
    {
        match (&self.stage, event) {
            (JobStage::ProbeCommitDir, JobEvent::Probed(_)) => true,
            (JobStage::ProbeSubdir, JobEvent::Probed(_)) => true,
            (JobStage::ClearCommitDir, JobEvent::Done | JobEvent::Failed(_)) => true,
            (JobStage::CreateCommitDir, JobEvent::Done | JobEvent::Failed(_)) => true,
            (JobStage::CreateWorkingCopyDir, JobEvent::Done | JobEvent::Failed(_)) => true,
            (JobStage::CreateStateDir, JobEvent::Done | JobEvent::Failed(_)) => true,
            (JobStage::InitTreeState, JobEvent::Done | JobEvent::Failed(_)) => true,
            (JobStage::CheckOut, JobEvent::Done | JobEvent::Failed(_)) => true,
            (JobStage::Execute, JobEvent::Exited(_) | JobEvent::Failed(_)) => true,
            (JobStage::Snapshot { .. }, JobEvent::Snapshotted(trees)) => trees.len() == 1,
            (JobStage::LoadTree { .. }, JobEvent::Done | JobEvent::Failed(_)) => true,
            _ => false,
        }
    }

    /// Takes the job on after `event` has come of the action that it waited
    /// for.
    pub fn step(self, event: JobEvent<E>) -> (job: Job<E>)
        requires
            self@.accepts(event@),
        ensures
            job@ == self@.next(event@),
    {
        let Job { commit, shell_command, subdir, windows, stage } = self;
        let stage = match (stage, event) {
            (JobStage::ProbeCommitDir, JobEvent::Probed(exists)) => if exists {
                JobStage::ClearCommitDir
            } else {
                JobStage::CreateCommitDir
            },
            (JobStage::ClearCommitDir, JobEvent::Done) => JobStage::CreateCommitDir,
            (JobStage::CreateCommitDir, JobEvent::Done) => JobStage::CreateWorkingCopyDir,
            (JobStage::CreateWorkingCopyDir, JobEvent::Done) => JobStage::CreateStateDir,
            (JobStage::CreateStateDir, JobEvent::Done) => JobStage::InitTreeState,
            (JobStage::InitTreeState, JobEvent::Done) => JobStage::CheckOut,
            (JobStage::CheckOut, JobEvent::Done) => JobStage::ProbeSubdir,
            (JobStage::ProbeSubdir, JobEvent::Probed(is_dir)) => if is_dir {
                JobStage::Execute
            } else {
                JobStage::Finished(
                    Ok(
                        RunJob {
                            old_id: commit.id.clone(),
                            new_tree: None,
                            dirty: false,
                            stdout: Vec::new(),
                            stderr: Vec::new(),
                            skipped: true,
                        },
                    ),
                )
            },
            (JobStage::Execute, JobEvent::Exited(output)) => if output.success {
                JobStage::Snapshot { stdout: output.stdout, stderr: output.stderr }
            } else {
                JobStage::Finished(
                    Err(
                        RunError::CommandFailure(
                            shell_command.clone(),
                            output.status,
                            commit.id.clone(),
                        ),
                    ),
                )
            },
            (JobStage::Snapshot { stdout, stderr }, JobEvent::Snapshotted(trees)) => {
                JobStage::LoadTree { tree_id: trees[0].clone(), stdout, stderr }
            },
            (JobStage::LoadTree { tree_id, stdout, stderr }, JobEvent::Done) => {
                let recorded: Vec<TreeId> = vec![tree_id.clone()];
                let dirty = !same_trees(&recorded, &commit.tree_ids);
                assert(trees_view(recorded@) =~= seq![tree_id@]);
                JobStage::Finished(
                    Ok(
                        RunJob {
                            old_id: commit.id.clone(),
                            new_tree: Some(tree_id),
                            dirty,
                            stdout,
                            stderr,
                            skipped: false,
                        },
                    ),
                )
            },
            (JobStage::ClearCommitDir | JobStage::CreateCommitDir, JobEvent::Failed(e)) => {
                JobStage::Finished(Err(RunError::PathCreationFailure(commit_path(&commit.id), e)))
            },
            (JobStage::CreateWorkingCopyDir, JobEvent::Failed(e)) => {
                let (working_copy, _) = create_working_copy_paths(&commit_path(&commit.id));
                JobStage::Finished(Err(RunError::PathCreationFailure(working_copy, e)))
            },
            (JobStage::CreateStateDir, JobEvent::Failed(e)) => {
                let (_, state) = create_working_copy_paths(&commit_path(&commit.id));
                JobStage::Finished(Err(RunError::PathCreationFailure(state, e)))
            },
            (JobStage::InitTreeState, JobEvent::Failed(e)) => {
                JobStage::Finished(Err(RunError::TreeState(e)))
            },
            (JobStage::CheckOut, JobEvent::Failed(_)) => {
                JobStage::Finished(Err(RunError::FailedCheckout(commit.id.clone())))
            },
            (JobStage::Execute, JobEvent::Failed(e)) => {
                JobStage::Finished(Err(RunError::IoError(e)))
            },
            (JobStage::LoadTree { .. }, JobEvent::Failed(e)) => {
                JobStage::Finished(Err(RunError::Backend(e)))
            },
            (stage, _) => stage,
        };
        Job { commit, shell_command, subdir, windows, stage }
    }

    /// What the finished job ended with.
    pub fn into_result(self) -> (result: JobResult<E>)
        requires
            self@.stage is Finished,
        ensures
            self@.stage == JobStageView::Finished(job_result_view(result)),
    {
        match self.stage {
            JobStage::Finished(result) => result,
            _ => unreached(),
        }
    }
}

} // verus!
