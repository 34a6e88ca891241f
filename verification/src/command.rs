//! A whole run, from the commits that were asked for to the transaction that
//! amends them.

use crate::args::{effective_jobs, resolve_jobs, RunArgs};
use crate::dispatch::{dispatch_result_view, new_dispatcher, Dispatcher};
use crate::error::{CommandError, CommandErrorView, RunError, RunErrorView};
use crate::ids::{copied, hex_of, CommitId, TreeId};
use crate::job::{Commit, CommitView, Job, JobStageView, JobView, RunJob, RunJobView};
use crate::layout::{base_names, base_path, RunPath};
use crate::paths::{all_utf8, decoded, joined, separator, shown, utf8_is_kept, Components};
use crate::rewrites::Rewrites;
use crate::text::{decimal, decimal_text};
use vstd::prelude::*;
use vstd::string::*;

verus! {

/// Something to write for the user to see.
#[derive(Debug, PartialEq, Eq)]
pub enum Emission {
    /// Bytes for the standard output.
    Stdout(Vec<u8>),
    /// Bytes for the standard error.
    Stderr(Vec<u8>),
    /// A line for the standard error.
    StderrLine(String),
}

/// What an `Emission` says.
pub enum EmissionView {
    Stdout(Seq<u8>),
    Stderr(Seq<u8>),
    StderrLine(Seq<char>),
}

impl View for Emission {
    type V = EmissionView;

    open spec fn view(&self) -> EmissionView {
        match *self {
            Emission::Stdout(bytes) => EmissionView::Stdout(bytes@),
            Emission::Stderr(bytes) => EmissionView::Stderr(bytes@),
            Emission::StderrLine(line) => EmissionView::StderrLine(line@),
        }
    }
}

impl Clone for Emission {
    fn clone(&self) -> (copy: Emission)
        ensures
            copy@ == self@,
    {
        match self {
            Emission::Stdout(bytes) => Emission::Stdout(copied(bytes)),
            Emission::Stderr(bytes) => Emission::Stderr(copied(bytes)),
            Emission::StderrLine(line) => Emission::StderrLine(line.clone()),
        }
    }
}

/// What emissions say.
pub open spec fn emissions_view(emissions: Seq<Emission>) -> Seq<EmissionView> {
    emissions.map_values(|emission: Emission| emission@)
}

/// What the run needs done next.
#[derive(Debug, PartialEq, Eq)]
pub enum CommandAction {
    /// Find out whether all of these commits may be rewritten.
    CheckRewritable(Vec<CommitId>),
    /// Find out whether the path exists.
    ProbePath(RunPath),
    /// Create the directory, and those above it that are missing.
    CreateDirAll(RunPath),
    /// Run the jobs.
    RunJobs,
    /// Take the result of a job, if there is one.
    Receive,
    /// Write this.
    Write(Emission),
    /// Remove the directory and everything in it.
    RemoveDirAll(RunPath),
    /// Rebase these commits and their descendants, each with the tree that
    /// `visit` gives for it.
    Transform(Vec<CommitId>),
    /// Finish the transaction, with this description.
    Finish(String),
}

/// What a `CommandAction` says.
pub enum CommandActionView {
    CheckRewritable(Seq<Seq<u8>>),
    ProbePath(Seq<Seq<char>>),
    CreateDirAll(Seq<Seq<char>>),
    RunJobs,
    Receive,
    Write(EmissionView),
    RemoveDirAll(Seq<Seq<char>>),
    Transform(Seq<Seq<u8>>),
    Finish(Seq<char>),
}

/// What a list of ids says.
pub open spec fn ids_view(ids: Seq<CommitId>) -> Seq<Seq<u8>> {
    ids.map_values(|id: CommitId| id@)
}

impl View for CommandAction {
    type V = CommandActionView;

    open spec fn view(&self) -> CommandActionView {
        match *self {
            CommandAction::CheckRewritable(ids) => CommandActionView::CheckRewritable(
                ids_view(ids@),
            ),
            CommandAction::ProbePath(path) => CommandActionView::ProbePath(path@),
            CommandAction::CreateDirAll(path) => CommandActionView::CreateDirAll(path@),
            CommandAction::RunJobs => CommandActionView::RunJobs,
            CommandAction::Receive => CommandActionView::Receive,
            CommandAction::Write(emission) => CommandActionView::Write(emission@),
            CommandAction::RemoveDirAll(path) => CommandActionView::RemoveDirAll(path@),
            CommandAction::Transform(ids) => CommandActionView::Transform(ids_view(ids@)),
            CommandAction::Finish(description) => CommandActionView::Finish(description@),
        }
    }
}

/// What came of an action.
#[derive(Debug)]
pub enum CommandEvent<E> {
    /// The action was done.
    Done,
    /// The action failed.
    Failed(E),
    /// The answer to a probe.
    Probed(bool),
    /// The jobs were run.
    Ran(Result<(), RunError<E>>),
    /// The result of a job, if there was one.
    Received(Option<RunJob>),
}

/// What a `CommandEvent` says; or that a commit was visited while commits were
/// being rebased.
pub enum CommandEventView<E> {
    Done,
    Failed(E),
    Probed(bool),
    Ran(Result<(), RunErrorView<E>>),
    Received(Option<RunJobView>),
    Visited(Seq<u8>),
}

impl<E> View for CommandEvent<E> {
    type V = CommandEventView<E>;

    open spec fn view(&self) -> CommandEventView<E> {
        match *self {
            CommandEvent::Done => CommandEventView::Done,
            CommandEvent::Failed(e) => CommandEventView::Failed(e),
            CommandEvent::Probed(answer) => CommandEventView::Probed(answer),
            CommandEvent::Ran(result) => CommandEventView::Ran(dispatch_result_view(result)),
            CommandEvent::Received(None) => CommandEventView::Received(None),
            CommandEvent::Received(Some(job)) => CommandEventView::Received(Some(job@)),
        }
    }
}

/// How far a run has come.
#[derive(Debug)]
pub enum CommandStage<E> {
    CheckRewritable,
    ProbeBase,
    CreateBase,
    RunJobs,
    Receive,
    /// Writing what a job gave to write, of which this is left.
    Write(Vec<Emission>),
    /// Nothing was rewritten: clearing up.
    ClearNoop,
    ReportNoop,
    FinishNoop,
    Transform,
    ReportRewritten,
    ClearRewritten,
    FinishRewritten,
    Finished(Result<(), CommandError<E>>),
}

/// What a `CommandStage` says.
pub enum CommandStageView<E> {
    CheckRewritable,
    ProbeBase,
    CreateBase,
    RunJobs,
    Receive,
    Write(Seq<EmissionView>),
    ClearNoop,
    ReportNoop,
    FinishNoop,
    Transform,
    ReportRewritten,
    ClearRewritten,
    FinishRewritten,
    Finished(Result<(), CommandErrorView<E>>),
}

/// What the result of a run says.
pub open spec fn command_result_view<E>(result: Result<(), CommandError<E>>) -> Result<
    (),
    CommandErrorView<E>,
> {
    match result {
        Ok(()) => Ok(()),
        Err(error) => Err(error@),
    }
}

impl<E> View for CommandStage<E> {
    type V = CommandStageView<E>;

    open spec fn view(&self) -> CommandStageView<E> {
        match *self {
            CommandStage::CheckRewritable => CommandStageView::CheckRewritable,
            CommandStage::ProbeBase => CommandStageView::ProbeBase,
            CommandStage::CreateBase => CommandStageView::CreateBase,
            CommandStage::RunJobs => CommandStageView::RunJobs,
            CommandStage::Receive => CommandStageView::Receive,
            CommandStage::Write(emissions) => CommandStageView::Write(emissions_view(emissions@)),
            CommandStage::ClearNoop => CommandStageView::ClearNoop,
            CommandStage::ReportNoop => CommandStageView::ReportNoop,
            CommandStage::FinishNoop => CommandStageView::FinishNoop,
            CommandStage::Transform => CommandStageView::Transform,
            CommandStage::ReportRewritten => CommandStageView::ReportRewritten,
            CommandStage::ClearRewritten => CommandStageView::ClearRewritten,
            CommandStage::FinishRewritten => CommandStageView::FinishRewritten,
            CommandStage::Finished(result) => CommandStageView::Finished(
                command_result_view(result),
            ),
        }
    }
}

/// A run.
#[derive(Debug)]
pub struct RunCommand<E> {
    pub shell_command: String,
    /// The directory of each working copy that the command runs in.
    pub subdir: Components,
    /// How that directory is shown.
    pub subdir_text: String,
    pub windows: bool,
    /// How many processes run in parallel.
    pub jobs: usize,
    /// The commits to run on.
    pub commits: Vec<Commit>,
    /// The new trees of the commits that were changed.
    pub rewrites: Rewrites,
    /// How many results of jobs were received.
    pub visited: usize,
    /// How many commits were rewritten with a new tree.
    pub count: u32,
    pub stage: CommandStage<E>,
}

/// What a `RunCommand` says.
pub struct RunCommandView<E> {
    pub shell_command: Seq<char>,
    pub subdir: Seq<Seq<u8>>,
    pub subdir_text: Seq<char>,
    pub windows: bool,
    pub jobs: nat,
    pub commits: Seq<CommitView>,
    pub rewrites: Map<Seq<u8>, Seq<u8>>,
    pub visited: nat,
    pub count: nat,
    pub stage: CommandStageView<E>,
}

/// What a list of commits says.
pub open spec fn commits_view(commits: Seq<Commit>) -> Seq<CommitView> {
    commits.map_values(|commit: Commit| commit@)
}

impl<E> View for RunCommand<E> {
    type V = RunCommandView<E>;

    open spec fn view(&self) -> RunCommandView<E> {
        RunCommandView {
            shell_command: self.shell_command@,
            subdir: self.subdir@,
            subdir_text: self.subdir_text@,
            windows: self.windows,
            jobs: self.jobs as nat,
            commits: commits_view(self.commits@),
            rewrites: self.rewrites@,
            visited: self.visited as nat,
            count: self.count as nat,
            stage: self.stage@,
        }
    }
}

/// The commits to run on: all that were resolved but the root commit, on which
/// running is nonsensical.
pub open spec fn selected(resolved: Seq<CommitView>, root_id: Seq<u8>) -> Seq<CommitView> {
    resolved.filter(|commit: CommitView| commit.id != root_id)
}

/// Whether the result `job` says that the command changed the tree of its commit.
pub open spec fn changed(job: RunJobView) -> bool {
    !job.skipped && job.dirty && job.new_tree is Some
}

/// `rewrites` with the new tree of the commit that `job` ran on, if it was
/// changed.
pub open spec fn with_job(rewrites: Map<Seq<u8>, Seq<u8>>, job: RunJobView) -> Map<
    Seq<u8>,
    Seq<u8>,
> {
    if changed(job) {
        rewrites.insert(job.old_id, job.new_tree->0)
    } else {
        rewrites
    }
}

/// The line that reports a skipped commit.
pub open spec fn skipped_line(id: Seq<u8>, subdir_text: Seq<char>) -> Seq<char> {
    "Skipped commit "@ + hex_of(id) + ": directory does not exist: "@ + subdir_text
}

/// `emission`, which holds `bytes`, unless there are none.
pub open spec fn captured(emission: EmissionView, bytes: Seq<u8>) -> Seq<EmissionView> {
    if bytes.len() == 0 {
        Seq::empty()
    } else {
        seq![emission]
    }
}

/// What is written for a job: the line that reports it as skipped, or else
/// what its command wrote, the standard output first.
pub open spec fn job_emissions(job: RunJobView, subdir_text: Seq<char>) -> Seq<EmissionView> {
    if job.skipped {
        seq![EmissionView::StderrLine(skipped_line(job.old_id, subdir_text))]
    } else {
        captured(EmissionView::Stdout(job.stdout), job.stdout) + captured(
            EmissionView::Stderr(job.stderr),
            job.stderr,
        )
    }
}

/// The report of a run that changed nothing.
pub open spec fn noop_report() -> Seq<char> {
    "No commits were rewritten as the command did not modify any tracked files"@
}

/// The description of the transaction of a run that changed nothing.
pub open spec fn noop_description(visited: nat, command: Seq<char>) -> Seq<char> {
    "run: No-op on "@ + decimal(visited) + " commits with "@ + command
}

/// The report of a run that rewrote commits.
pub open spec fn rewritten_report(count: nat, command: Seq<char>) -> Seq<char> {
    "Rewrote "@ + decimal(count) + " commits with "@ + command
}

/// The description of the transaction of a run that rewrote commits.
pub open spec fn rewritten_description(count: nat, command: Seq<char>) -> Seq<char> {
    "run: rewrite "@ + decimal(count) + " commits with "@ + command
}

impl<E> RunCommandView<E> {
    /// Whether the jobs are still to be run.
    pub open spec fn before_results(self) -> bool {
        ||| self.stage is CheckRewritable
        ||| self.stage is ProbeBase
        ||| self.stage is CreateBase
        ||| self.stage is RunJobs
    }

    /// Whether the run can have come this far.
    pub open spec fn well_formed(self) -> bool {
        &&& self.jobs >= 1
        &&& self.subdir_text == shown(self.subdir, self.windows)
        &&& self.visited <= self.commits.len()
        &&& self.before_results() ==> self.visited == 0 < self.commits.len()
        &&& self.stage is Receive ==> self.visited < self.commits.len()
        &&& self.stage matches CommandStageView::Write(left) ==> left.len() > 0
    }

    /// The ids of the commits to run on.
    pub open spec fn ids(self) -> Seq<Seq<u8>> {
        self.commits.map_values(|commit: CommitView| commit.id)
    }

    /// The same run at another stage.
    pub open spec fn at(self, stage: CommandStageView<E>) -> RunCommandView<E> {
        RunCommandView { stage, ..self }
    }

    /// The run, failed with `error`.
    pub open spec fn failed(self, error: CommandErrorView<E>) -> RunCommandView<E> {
        self.at(CommandStageView::Finished(Err(error)))
    }

    /// Once everything of the last job is written: the run goes on to the next
    /// job, and after the last to the commits that were changed, if there are
    /// any.
    pub open spec fn settled(self) -> RunCommandView<E> {
        if self.visited < self.commits.len() {
            self.at(CommandStageView::Receive)
        } else if self.rewrites == Map::<Seq<u8>, Seq<u8>>::empty() {
            self.at(CommandStageView::ClearNoop)
        } else {
            self.at(CommandStageView::Transform)
        }
    }

    /// What is to be done next; nothing once the run is finished.
    pub open spec fn action(self) -> Option<CommandActionView> {
        match self.stage {
            CommandStageView::CheckRewritable => Some(
                CommandActionView::CheckRewritable(self.ids()),
            ),
            CommandStageView::ProbeBase => Some(CommandActionView::ProbePath(base_names())),
            CommandStageView::CreateBase => Some(CommandActionView::CreateDirAll(base_names())),
            CommandStageView::RunJobs => Some(CommandActionView::RunJobs),
            CommandStageView::Receive => Some(CommandActionView::Receive),
            CommandStageView::Write(left) => Some(CommandActionView::Write(left[0])),
            CommandStageView::ClearNoop | CommandStageView::ClearRewritten => Some(
                CommandActionView::RemoveDirAll(base_names()),
            ),
            CommandStageView::ReportNoop => Some(
                CommandActionView::Write(EmissionView::StderrLine(noop_report())),
            ),
            CommandStageView::FinishNoop => Some(
                CommandActionView::Finish(noop_description(self.visited, self.shell_command)),
            ),
            CommandStageView::Transform => Some(CommandActionView::Transform(self.ids())),
            CommandStageView::ReportRewritten => Some(
                CommandActionView::Write(
                    EmissionView::StderrLine(rewritten_report(self.count, self.shell_command)),
                ),
            ),
            CommandStageView::FinishRewritten => Some(
                CommandActionView::Finish(rewritten_description(self.count, self.shell_command)),
            ),
            CommandStageView::Finished(_) => None,
        }
    }

    /// Whether `event` can come of the action that is waited for.
    pub open spec fn accepts(self, event: CommandEventView<E>) -> bool {
        match self.stage {
            CommandStageView::ProbeBase => event is Probed,
            CommandStageView::RunJobs => event is Ran,
            CommandStageView::Receive => event is Received,
            CommandStageView::Transform => event is Done || event is Failed || event is Visited,
            CommandStageView::Finished(_) => false,
            _ => event is Done || event is Failed,
        }
    }

    /// The run after `event`.
    pub open spec fn next(self, event: CommandEventView<E>) -> RunCommandView<E>
        recommends
            self.accepts(event),
    {
        match (self.stage, event) {
            (CommandStageView::CheckRewritable, CommandEventView::Done) => {
                self.at(CommandStageView::ProbeBase)
            },
            (CommandStageView::ProbeBase, CommandEventView::Probed(exists)) => if exists {
                self.at(CommandStageView::RunJobs)
            } else {
                self.at(CommandStageView::CreateBase)
            },
            (CommandStageView::CreateBase, CommandEventView::Done) => {
                self.at(CommandStageView::RunJobs)
            },
            (CommandStageView::CreateBase, CommandEventView::Failed(e)) => {
                self.failed(CommandErrorView::Cli(RunErrorView::IoError(e)))
            },
            // A failed job ends the run before anything is rewritten.
            (CommandStageView::RunJobs, CommandEventView::Ran(result)) => match result {
                Ok(()) => self.at(CommandStageView::Receive),
                Err(error) => self.failed(CommandErrorView::Cli(error)),
            },
            (CommandStageView::Receive, CommandEventView::Received(Some(job))) => {
                let emissions = job_emissions(job, self.subdir_text);
                let received = RunCommandView {
                    visited: self.visited + 1,
                    rewrites: with_job(self.rewrites, job),
                    ..self
                };
                if emissions.len() == 0 {
                    received.settled()
                } else {
                    received.at(CommandStageView::Write(emissions))
                }
            },
            (CommandStageView::Write(left), CommandEventView::Done) => if left.len() > 1 {
                self.at(CommandStageView::Write(left.skip(1)))
            } else {
                self.settled()
            },
            (CommandStageView::ClearNoop, CommandEventView::Done) => {
                self.at(CommandStageView::ReportNoop)
            },
            (CommandStageView::ReportNoop, CommandEventView::Done) => {
                self.at(CommandStageView::FinishNoop)
            },
            (CommandStageView::Transform, CommandEventView::Visited(id)) => if self.rewrites
                .contains_key(id) {
                RunCommandView { count: self.count + 1, ..self }
            } else {
                self
            },
            (CommandStageView::Transform, CommandEventView::Done) => {
                self.at(CommandStageView::ReportRewritten)
            },
            (CommandStageView::ReportRewritten, CommandEventView::Done) => {
                self.at(CommandStageView::ClearRewritten)
            },
            (CommandStageView::ClearRewritten, CommandEventView::Done) => {
                self.at(CommandStageView::FinishRewritten)
            },
            (CommandStageView::FinishNoop, CommandEventView::Done)
            | (CommandStageView::FinishRewritten, CommandEventView::Done) => {
                self.at(CommandStageView::Finished(Ok(())))
            },
            (_, CommandEventView::Failed(e)) => self.failed(CommandErrorView::Other(e)),
            _ => self,
        }
    }
}

/// The run of `args` on the commits of `resolved`, before anything was done. It
/// is finished at once if there is nothing to run on.
pub open spec fn new_command<E>(
    args: RunArgs,
    resolved: Seq<CommitView>,
    root_id: Seq<u8>,
    cores: Option<usize>,
    subdir: Seq<Seq<u8>>,
    windows: bool,
) -> RunCommandView<E> {
    RunCommandView {
        shell_command: args.shell_command@,
        subdir,
        subdir_text: shown(subdir, windows),
        windows,
        jobs: effective_jobs(args.jobs, cores) as nat,
        commits: selected(resolved, root_id),
        rewrites: Map::empty(),
        visited: 0,
        count: 0,
        stage: if selected(resolved, root_id).len() == 0 {
            CommandStageView::Finished(Ok(()))
        } else {
            CommandStageView::CheckRewritable
        },
    }
}

/// The job of the run `command` on the commit at position `index`, before
/// anything was done.
pub open spec fn new_job<E>(command: RunCommandView<E>, index: int) -> JobView<E> {
    JobView {
        commit: command.commits[index],
        shell_command: command.shell_command,
        subdir: command.subdir,
        windows: command.windows,
        stage: JobStageView::ProbeCommitDir,
    }
}

/// The commits of `resolved` but the root commit, on which running is
/// nonsensical.
pub fn select_commits(resolved: Vec<Commit>, root_id: &CommitId) -> (commits: Vec<Commit>)
    ensures
        commits_view(commits@) == selected(commits_view(resolved@), root_id@),
{
    let ghost all = commits_view(resolved@);
    let ghost keep = |commit: CommitView| commit.id != root_id@;
    let mut commits: Vec<Commit> = Vec::new();
    let mut i: usize = 0;
    proof {
        reveal(Seq::filter);
        assert(commits_view(commits@) =~= all.take(0).filter(keep));
    }
    while i < resolved.len()
        invariant
            i <= resolved@.len(),
            all == commits_view(resolved@),
            keep == (|commit: CommitView| commit.id != root_id@),
            commits_view(commits@) == all.take(i as int).filter(keep),
        decreases resolved@.len() - i,
    {
        let ghost before = commits@;
        if !resolved[i].id.same(root_id) {
            commits.push(resolved[i].clone());
        }
        proof {
            reveal(Seq::filter);
            assert(all.take(i + 1).drop_last() =~= all.take(i as int));
            assert(all.take(i + 1).last() == all[i as int]);
            if keep(all[i as int]) {
                assert(commits_view(commits@) =~= commits_view(before).push(all[i as int]));
            }
        }
        i = i + 1;
    }
    proof {
        assert(all.take(i as int) =~= all);
    }
    commits
}

/// The line that reports a skipped commit.
pub fn skipped_message(id: &CommitId, subdir_text: &String) -> (line: String)
    ensures
        line@ == skipped_line(id@, subdir_text@),
{
    let mut line = "Skipped commit ".to_owned();
    line.append(id.hex().as_str());
    line.append(": directory does not exist: ");
    line.append(subdir_text.as_str());
    line
}

/// `before`, a number, `between` and the command, in this order.
fn numbered(before: &str, number: u64, between: &str, command: &String) -> (text: String)
    ensures
        text@ == before@ + decimal(number as nat) + between@ + command@,
{
    let mut text = before.to_owned();
    text.append(decimal_text(number).as_str());
    text.append(between);
    text.append(command.as_str());
    text
}

/// What is written of the output of a command.
fn output_emissions(stdout: Vec<u8>, stderr: Vec<u8>) -> (emissions: Vec<Emission>)
    ensures
        emissions_view(emissions@) == captured(EmissionView::Stdout(stdout@), stdout@) + captured(
            EmissionView::Stderr(stderr@),
            stderr@,
        ),
{
    let mut emissions: Vec<Emission> = Vec::new();
    if stdout.len() > 0 {
        emissions.push(Emission::Stdout(stdout));
    }
    if stderr.len() > 0 {
        emissions.push(Emission::Stderr(stderr));
    }
    assert(emissions_view(emissions@) =~= captured(EmissionView::Stdout(stdout@), stdout@)
        + captured(EmissionView::Stderr(stderr@), stderr@));
    emissions
}

impl<E> RunCommand<E> {
    /// The run of `args` on the commits of `resolved`: from the directory
    /// `subdir` of each working copy, and with one process per core unless the
    /// arguments say otherwise. In the lines that the run writes, `subdir` shows
    /// as the text that it encodes, as far as it is UTF-8.
    pub fn new(
        args: &RunArgs,
        resolved: Vec<Commit>,
        root_id: &CommitId,
        cores: Option<usize>,
        subdir: Components,
        windows: bool,
    ) -> (command: RunCommand<E>)
        requires
            cores != Some(0usize),
        ensures
            command@ == new_command::<E>(
                *args,
                commits_view(resolved@),
                root_id@,
                cores,
                subdir@,
                windows,
            ),
            command@.well_formed(),
            utf8_is_kept(subdir@, windows),
            all_utf8(subdir@) ==> command@.subdir_text == joined(
                decoded(subdir@),
                separator(windows),
            ),
    {
        let commits = select_commits(resolved, root_id);
        let subdir_text = subdir.show(windows);
        let stage = if commits.len() == 0 {
            CommandStage::Finished(Ok(()))
        } else {
            CommandStage::CheckRewritable
        };
        RunCommand {
            shell_command: args.shell_command.clone(),
            subdir,
            subdir_text,
            windows,
            jobs: resolve_jobs(args.jobs, cores),
            commits,
            rewrites: Rewrites::new(),
            visited: 0,
            count: 0,
            stage,
        }
    }

    /// The ids of the commits to run on.
    fn ids(&self) -> (ids: Vec<CommitId>)
        ensures
            ids_view(ids@) == self@.ids(),
    {
        let mut ids: Vec<CommitId> = Vec::new();
        let mut i: usize = 0;
        while i < self.commits.len()
            invariant
                i <= self.commits@.len(),
                ids_view(ids@) == self@.ids().take(i as int),
            decreases self.commits@.len() - i,
        {
            let ghost before = ids@;
            ids.push(self.commits[i].id.clone());
            proof {
                assert(ids_view(ids@) =~= ids_view(before).push(self@.ids()[i as int]));
                assert(self@.ids().take(i + 1) =~= self@.ids().take(i as int).push(
                    self@.ids()[i as int],
                ));
            }
            i = i + 1;
        }
        assert(self@.ids().take(i as int) =~= self@.ids());
        ids
    }

    /// What is to be done next; nothing once the run is finished.
    pub fn action(&self) -> (action: Option<CommandAction>)
        requires
            self@.well_formed(),
        ensures
            match action {
                Some(a) => self@.action() == Some(a@),
                None => self@.action() is None,
            },
    {
        match &self.stage {
            CommandStage::CheckRewritable => Some(CommandAction::CheckRewritable(self.ids())),
            CommandStage::ProbeBase => Some(CommandAction::ProbePath(base_path())),
            CommandStage::CreateBase => Some(CommandAction::CreateDirAll(base_path())),
            CommandStage::RunJobs => Some(CommandAction::RunJobs),
            CommandStage::Receive => Some(CommandAction::Receive),
            CommandStage::Write(left) => {
                assert(emissions_view(left@).len() > 0);
                Some(CommandAction::Write(left[0].clone()))
            },
            CommandStage::ClearNoop | CommandStage::ClearRewritten => Some(
                CommandAction::RemoveDirAll(base_path()),
            ),
            CommandStage::ReportNoop => {
                let report =
                    "No commits were rewritten as the command did not modify any tracked files";
                Some(CommandAction::Write(Emission::StderrLine(report.to_owned())))
            },
            CommandStage::FinishNoop => {
                let number: u64 = self.visited as u64;
                Some(
                    CommandAction::Finish(
                        numbered("run: No-op on ", number, " commits with ", &self.shell_command),
                    ),
                )
            },
            CommandStage::Transform => Some(CommandAction::Transform(self.ids())),
            CommandStage::ReportRewritten => {
                let number: u64 = self.count as u64;
                Some(
                    CommandAction::Write(
                        Emission::StderrLine(
                            numbered("Rewrote ", number, " commits with ", &self.shell_command),
                        ),
                    ),
                )
            },
            CommandStage::FinishRewritten => {
                let number: u64 = self.count as u64;
                Some(
                    CommandAction::Finish(
                        numbered("run: rewrite ", number, " commits with ", &self.shell_command),
                    ),
                )
            },
            CommandStage::Finished(_) => None,
        }
    }

    /// Whether `event` can come of the action that is waited for.
    pub fn accepts(&self, event: &CommandEvent<E>) -> (accepted: bool)
        ensures
            accepted == self@.accepts(event@),
    {
        match (&self.stage, event) {
            (CommandStage::ProbeBase, event) => matches!(event, CommandEvent::Probed(_)),
            (CommandStage::RunJobs, event) => matches!(event, CommandEvent::Ran(_)),
            (CommandStage::Receive, event) => matches!(event, CommandEvent::Received(_)),
            (CommandStage::Finished(_), _) => false,
            (_, event) => matches!(event, CommandEvent::Done | CommandEvent::Failed(_)),
        }
    }

    /// The run once everything of the last job is written.
    fn settle(self) -> (command: RunCommand<E>)
        requires
            self@.visited <= self@.commits.len(),
            self@.jobs >= 1,
            self@.subdir_text == shown(self@.subdir, self@.windows),
        ensures
            command@ == self@.settled(),
            command@.well_formed(),
    {
        let stage = if self.visited < self.commits.len() {
            CommandStage::Receive
        } else if self.rewrites.is_empty() {
            CommandStage::ClearNoop
        } else {
            CommandStage::Transform
        };
        RunCommand { stage, ..self }
    }

    /// Takes the result of a job.
    fn receive(self, job: RunJob) -> (command: RunCommand<E>)
        requires
            self@.well_formed(),
            self@.stage is Receive,
        ensures
            command@ == self@.next(CommandEventView::Received(Some(job@))),
            command@.well_formed(),
    {
        assert(self.visited < self.commits.len());
        let RunJob { old_id, new_tree, dirty, stdout, stderr, skipped } = job;
        let mut emissions: Vec<Emission>;
        if skipped {
            emissions = Vec::new();
            emissions.push(Emission::StderrLine(skipped_message(&old_id, &self.subdir_text)));
        } else {
            emissions = output_emissions(stdout, stderr);
        }
        assert(emissions_view(emissions@) =~= job_emissions(job@, self@.subdir_text));
        let mut rewrites = self.rewrites;
        if !skipped && dirty {
            if let Some(tree) = new_tree {
                rewrites.insert(old_id, tree);
            }
        }
        let visited: usize = self.visited + 1;
        let received = RunCommand { rewrites, visited, ..self };
        if emissions.len() == 0 {
            received.settle()
        } else {
            RunCommand { stage: CommandStage::Write(emissions), ..received }
        }
    }

    /// The run, failed with `error`.
    fn fail(self, error: CommandError<E>) -> (command: RunCommand<E>)
        requires
            self@.well_formed(),
        ensures
            command@ == self@.failed(error@),
            command@.well_formed(),
    {
        RunCommand { stage: CommandStage::Finished(Err(error)), ..self }
    }

    /// Takes the run on after `event` has come of the action that it waited
    /// for.
    pub fn step(self, event: CommandEvent<E>) -> (command: RunCommand<E>)
        requires
            self@.well_formed(),
            self@.accepts(event@),
        ensures
            command@ == self@.next(event@),
            command@.well_formed(),
    {
        match event {
            CommandEvent::Done => self.done(),
            CommandEvent::Failed(e) => {
                let error = match &self.stage {
                    CommandStage::CreateBase => CommandError::from(RunError::IoError(e)),
                    _ => CommandError::Other(e),
                };
                self.fail(error)
            },
            CommandEvent::Probed(exists) => {
                let stage = if exists {
                    CommandStage::RunJobs
                } else {
                    CommandStage::CreateBase
                };
                RunCommand { stage, ..self }
            },
            CommandEvent::Ran(Ok(())) => RunCommand { stage: CommandStage::Receive, ..self },
            CommandEvent::Ran(Err(error)) => self.fail(CommandError::from(error)),
            CommandEvent::Received(Some(job)) => self.receive(job),
            CommandEvent::Received(None) => self,
        }
    }

    /// Takes the run on after the action that it waited for was done.
    fn done(self) -> (command: RunCommand<E>)
        requires
            self@.well_formed(),
            self@.accepts(CommandEventView::Done),
        ensures
            command@ == self@.next(CommandEventView::Done),
            command@.well_formed(),
    {
        let stage = match self.stage {
            CommandStage::CheckRewritable => CommandStage::ProbeBase,
            CommandStage::CreateBase => CommandStage::RunJobs,
            CommandStage::Write(left) => {
                let mut left = left;
                left.remove(0);
                if left.len() == 0 {
                    return RunCommand { stage: CommandStage::Receive, ..self }.settle();
                }
                assert(emissions_view(left@) =~= self@.stage->Write_0.skip(1));
                CommandStage::Write(left)
            },
            CommandStage::ClearNoop => CommandStage::ReportNoop,
            CommandStage::ReportNoop => CommandStage::FinishNoop,
            CommandStage::Transform => CommandStage::ReportRewritten,
            CommandStage::ReportRewritten => CommandStage::ClearRewritten,
            CommandStage::ClearRewritten => CommandStage::FinishRewritten,
            _ => CommandStage::Finished(Ok(())),
        };
        RunCommand { stage, ..self }
    }

    /// The new tree for a commit that is being rebased, which counts as
    /// rewritten if it has one. A commit without one keeps its tree.
    pub fn visit(&mut self, old_id: &CommitId) -> (tree: Option<TreeId>)
        requires
            old(self)@.well_formed(),
            old(self)@.stage is Transform,
            old(self).count < u32::MAX,
        ensures
            final(self)@ == old(self)@.next(CommandEventView::Visited(old_id@)),
            final(self)@.well_formed(),
            match tree {
                Some(t) => old(self)@.rewrites.contains_key(old_id@)
                    && old(self)@.rewrites[old_id@] == t@,
                None => !old(self)@.rewrites.contains_key(old_id@),
            },
    {
        let tree = self.rewrites.get(old_id);
        if tree.is_some() {
            self.count = self.count + 1;
        }
        tree
    }

    /// The dispatcher of the jobs of the run.
    pub fn dispatcher(&self) -> (dispatcher: Dispatcher<E>)
        requires
            self@.well_formed(),
        ensures
            dispatcher@ == new_dispatcher::<E>(self@.commits.len(), self@.jobs),
            dispatcher@.well_formed(),
    {
        Dispatcher::new(self.commits.len(), self.jobs)
    }

    /// The job on the commit at position `index`.
    pub fn job(&self, index: usize) -> (job: Job<E>)
        requires
            index < self@.commits.len(),
        ensures
            job@ == new_job(self@, index as int),
    {
        Job::new(
            self.commits[index].clone(),
            self.shell_command.clone(),
            self.subdir.clone(),
            self.windows,
        )
    }

    /// The result of the run, once it is finished.
    pub fn into_result(self) -> (result: Result<(), CommandError<E>>)
        requires
            self@.stage is Finished,
        ensures
            self@.stage == CommandStageView::Finished(command_result_view(result)),
    {
        match self.stage {
            CommandStage::Finished(result) => result,
            _ => unreached(),
        }
    }
}

} // verus!
