//! What holds of every job, whatever comes of its actions.

use crate::error::RunErrorView;
use crate::ids::{hex_of, reverse_hex_of, TreeId};
use crate::job::{
    job_result_view, skipped_job, trees_view, Commit, ConflictMarkerStyle, ExecChangeSetting, Job,
    JobAction, JobActionView, JobEvent, JobEventView, JobResult, JobStage, JobStageView, JobView,
    Matcher, Output, OutputView, RunJob, RunJobView, TreeStateSettings,
};
use crate::layout::{
    commit_names, law_below_base, law_commits_apart, law_names_of_a_commit, state_names,
    working_copy_names,
};
use crate::shell::{ExecDirView, Stdio};
use vstd::prelude::*;

verus! {

/// The job `job` after `events`.
pub open spec fn job_after<E>(job: JobView<E>, events: Seq<JobEventView<E>>) -> JobView<E>
    decreases events.len(),
{
    if events.len() == 0 {
        job
    } else {
        job_after(job, events.drop_last()).next(events.last())
    }
}

/// Whether `events` can come, one after the other, of the actions that the
/// job `job` waits for.
pub open spec fn job_history<E>(job: JobView<E>, events: Seq<JobEventView<E>>) -> bool
    decreases events.len(),
{
    events.len() == 0 || {
        &&& job_history(job, events.drop_last())
        &&& job_after(job, events.drop_last()).accepts(events.last())
    }
}

/// How many actions lie behind a job, at most.
spec fn rank<E>(stage: JobStageView<E>) -> nat {
    match stage {
        JobStageView::ProbeCommitDir => 0,
        JobStageView::ClearCommitDir => 1,
        JobStageView::CreateCommitDir => 2,
        JobStageView::CreateWorkingCopyDir => 3,
        JobStageView::CreateStateDir => 4,
        JobStageView::InitTreeState => 5,
        JobStageView::CheckOut => 6,
        JobStageView::ProbeSubdir => 7,
        JobStageView::Execute => 8,
        JobStageView::Snapshot { .. } => 9,
        JobStageView::LoadTree { .. } => 10,
        JobStageView::Finished(_) => 11,
    }
}

proof fn lemma_prefix<E>(job: JobView<E>, events: Seq<JobEventView<E>>, k: int)
    requires
        job_history(job, events),
        0 <= k <= events.len(),
    ensures
        job_history(job, events.take(k)),
        k < events.len() ==> {
            &&& job_after(job, events.take(k)).accepts(events[k])
            &&& job_after(job, events.take(k + 1)) == job_after(job, events.take(k)).next(events[k])
        },
    decreases events.len(),
{
    if k == events.len() {
        assert(events.take(k) =~= events);
    } else {
        let shorter = events.drop_last();
        if k == events.len() - 1 {
            assert(events.take(k) =~= shorter);
            assert(events.take(k + 1) =~= events);
        } else {
            lemma_prefix(job, shorter, k);
            assert(shorter.take(k) =~= events.take(k));
            assert(shorter.take(k + 1) =~= events.take(k + 1));
        }
    }
}

proof fn lemma_rank<E>(job: JobView<E>, events: Seq<JobEventView<E>>, k: int)
    requires
        job_history(job, events),
        0 <= k <= events.len(),
    ensures
        rank(job_after(job, events.take(k)).stage) + (events.len() - k) <= rank(
            job_after(job, events).stage,
        ),
    decreases events.len(),
{
    if k == events.len() {
        assert(events.take(k) =~= events);
    } else {
        let shorter = events.drop_last();
        lemma_rank(job, shorter, k);
        assert(shorter.take(k) =~= events.take(k));
    }
}

proof fn lemma_same_job<E>(job: JobView<E>, events: Seq<JobEventView<E>>)
    ensures
        job_after(job, events).at(job.stage) == job,
    decreases events.len(),
{
    if events.len() > 0 {
        lemma_same_job(job, events.drop_last());
    }
}

/// A job ends: after at most eleven actions it is finished.
pub proof fn law_job_ends<E>(job: JobView<E>, events: Seq<JobEventView<E>>)
    requires
        job_history(job, events),
    ensures
        events.len() <= 11,
        events.len() == 11 ==> job_after(job, events).stage is Finished,
{
    lemma_rank(job, events, 0);
}

/// A job that is not finished waits for an action, and one that is does not.
pub proof fn law_job_waits_until_finished<E>(job: JobView<E>)
    ensures
        job.action() is None <==> job.stage is Finished,
        job.stage is Finished <==> !(exists|event: JobEventView<E>| job.accepts(event)),
{
    if !(job.stage is Finished) {
        match job.stage {
            JobStageView::ProbeCommitDir | JobStageView::ProbeSubdir => {
                assert(job.accepts(JobEventView::Probed(true)));
            },
            JobStageView::Execute => {
                let output = OutputView {
                    success: true,
                    status: Seq::empty(),
                    stdout: Seq::empty(),
                    stderr: Seq::empty(),
                };
                assert(job.accepts(JobEventView::Exited(output)));
            },
            JobStageView::Snapshot { .. } => {
                assert(job.accepts(JobEventView::Snapshotted(seq![Seq::<u8>::empty()])));
            },
            _ => {
                assert(job.accepts(JobEventView::Done));
            },
        }
    }
}

/// What an earlier run left in the directory of the commit is cleared: the
/// directory is created only when it was found missing or has just been
/// removed.
pub proof fn law_job_clears_leftovers<E>(job: JobView<E>, events: Seq<JobEventView<E>>)
    requires
        job.stage is ProbeCommitDir,
        job_history(job, events),
        job_after(job, events).action() == Some(
            JobActionView::CreateDir(commit_names(job.commit.id)),
        ),
    ensures
        events.len() > 0,
        events.last() == JobEventView::<E>::Probed(false) || {
            &&& events.last() is Done
            &&& job_after(job, events.drop_last()).action() == Some(
                JobActionView::RemoveDirAll(commit_names(job.commit.id)),
            )
        },
{
    let id = job.commit.id;
    lemma_same_job(job, events);
    assert(commit_names(id).len() == 3);
    assert(working_copy_names(id).len() == 4);
    assert(state_names(id).len() == 4);
    assert(job_after(job, events).stage is CreateCommitDir);
    lemma_same_job(job, events.drop_last());
}

/// The command is called through the shell, in the subdirectory of the
/// commit's own working copy, which is known to exist, and with the ids of the
/// commit and of its change in the environment. It has nothing to read, and what
/// it writes is captured. It does not outlive its job.
pub proof fn law_job_command<E>(job: JobView<E>, events: Seq<JobEventView<E>>)
    requires
        job.stage is ProbeCommitDir,
        job_history(job, events),
        job_after(job, events).action() matches Some(JobActionView::Execute(_)),
    ensures
        events.last() == JobEventView::<E>::Probed(true),
        job_after(job, events.drop_last()).action() == Some(
            JobActionView::ProbeDir(job.exec_dir()),
        ),
        ({
            let line = job_after(job, events).action()->Some_0->Execute_0;
            &&& line.program == if job.windows {
                "cmd"@
            } else {
                "/bin/sh"@
            }
            &&& line.args.len() == 2
            &&& line.args[0] == if job.windows {
                "/c"@
            } else {
                "-c"@
            }
            &&& line.args[1] == job.shell_command
            &&& line.current_dir.working_copy == working_copy_names(job.commit.id)
            &&& line.current_dir.subdir == job.subdir
            &&& line.env.len() == 2
            &&& line.env.contains(("JJ_CHANGE_ID"@, reverse_hex_of(job.commit.change_id)))
            &&& line.env.contains(("JJ_COMMIT_ID"@, hex_of(job.commit.id)))
            &&& line.stdin == Stdio::Null
            &&& line.stdout == Stdio::Piped
            &&& line.stderr == Stdio::Piped
            &&& line.kill_on_drop
        }),
{
    lemma_same_job(job, events);
    lemma_same_job(job, events.drop_last());
    let line = job_after(job, events).action()->Some_0->Execute_0;
    assert(line.env[0] == ("JJ_CHANGE_ID"@, reverse_hex_of(job.commit.change_id)));
    assert(line.env[1] == ("JJ_COMMIT_ID"@, hex_of(job.commit.id)));
}

/// The result of a job is that of its own commit, and it lacks a tree exactly
/// if the commit was skipped. A skipped job has neither changes nor output. One
/// that was not skipped ended with the command's success, the recording of the
/// working copy and the loading of the new tree. It says what the command wrote
/// and which tree was recorded, and it is dirty exactly if that is not the tree
/// of the commit.
pub proof fn law_job_result<E>(
    job: JobView<E>,
    events: Seq<JobEventView<E>>,
    result: RunJobView,
)
    requires
        job.stage is ProbeCommitDir,
        job_history(job, events),
        job_after(job, events).stage == JobStageView::<E>::Finished(Ok(result)),
    ensures
        result.old_id == job.commit.id,
        result.skipped <==> result.new_tree is None,
        result.skipped ==> {
            &&& result == skipped_job(job.commit.id)
            &&& events.last() == JobEventView::<E>::Probed(false)
            &&& job_after(job, events.drop_last()).action() == Some(
                JobActionView::ProbeDir(job.exec_dir()),
            )
        },
        !result.skipped ==> {
            let n = events.len();
            &&& n >= 3
            &&& events[n - 3] matches JobEventView::Exited(output)
            &&& output.success
            &&& output.stdout == result.stdout
            &&& output.stderr == result.stderr
            &&& events[n - 2] matches JobEventView::Snapshotted(trees)
            &&& trees.len() == 1
            &&& result.new_tree == Some(trees[0])
            &&& result.dirty == (trees != job.commit.tree_ids)
            &&& events[n - 1] is Done
            &&& job_after(job, events.drop_last()).action() == Some(
                JobActionView::LoadTree(trees[0]),
            )
        },
{
    let before = events.drop_last();
    lemma_same_job(job, events);
    lemma_same_job(job, before);
    if !result.skipped {
        reveal_with_fuel(job_after, 4);
        reveal_with_fuel(job_history, 4);
        assert(job_after(job, before).stage is LoadTree);
        let earlier = before.drop_last();
        assert(job_after(job, earlier).stage is Snapshot);
        assert(earlier.len() > 0);
        assert(before.last() == events[events.len() - 2]);
        assert(earlier.last() == events[events.len() - 3]);
        assert(job_after(job, earlier.drop_last()).stage is Execute);
        lemma_same_job(job, earlier);
        let trees = before.last()->Snapshotted_0;
        assert(trees =~= seq![trees[0]]);
    }
}

/// The command is never run on a commit that is skipped.
pub proof fn law_job_skip_runs_nothing<E>(
    job: JobView<E>,
    events: Seq<JobEventView<E>>,
    result: RunJobView,
    k: int,
)
    requires
        job.stage is ProbeCommitDir,
        job_history(job, events),
        job_after(job, events).stage == JobStageView::<E>::Finished(Ok(result)),
        result.skipped,
        0 <= k <= events.len(),
    ensures
        !(job_after(job, events.take(k)).action() matches Some(JobActionView::Execute(_))),
{
    let before = events.drop_last();
    assert(job_after(job, before).stage is ProbeSubdir);
    if k < events.len() {
        lemma_rank(job, before, k);
        assert(before.take(k) =~= events.take(k));
    } else {
        assert(events.take(k) =~= events);
    }
}

/// The command is run once on a commit that is not skipped, and then there are
/// two more actions to come.
pub proof fn law_job_runs_command_once<E>(
    job: JobView<E>,
    events: Seq<JobEventView<E>>,
    result: RunJobView,
    k: int,
)
    requires
        job.stage is ProbeCommitDir,
        job_history(job, events),
        job_after(job, events).stage == JobStageView::<E>::Finished(Ok(result)),
        !result.skipped,
        0 <= k <= events.len(),
    ensures
        (job_after(job, events.take(k)).action() matches Some(JobActionView::Execute(_))) <==> k
            == events.len() - 3,
{
    let n = events.len() as int;
    law_job_result(job, events, result);
    lemma_prefix(job, events, n - 3);
    let ran = events.take(n - 3);
    assert(job_after(job, ran).stage is Execute);
    if k < n - 3 {
        lemma_rank(job, ran, k);
        assert(ran.take(k) =~= events.take(k));
    } else if k > n - 3 {
        lemma_prefix(job, events, k);
        lemma_rank(job, events.take(k), n - 3);
        assert(events.take(k).take(n - 3) =~= ran);
    }
}

/// A command that fails ends its job, with an error that names the command,
/// how it ended and the commit.
pub proof fn law_job_failed_command<E>(job: JobView<E>, events: Seq<JobEventView<E>>, k: int)
    requires
        job.stage is ProbeCommitDir,
        job_history(job, events),
        0 <= k < events.len(),
        events[k] matches JobEventView::Exited(output) && !output.success,
    ensures
        k == events.len() - 1,
        job_after(job, events).stage == JobStageView::Finished(
            Err(
                RunErrorView::<E>::CommandFailure(
                    job.shell_command,
                    events[k]->Exited_0.status,
                    job.commit.id,
                ),
            ),
        ),
{
    lemma_prefix(job, events, k);
    lemma_same_job(job, events.take(k));
    lemma_prefix(job, events, k + 1);
    assert(events.take(events.len() as int) =~= events);
}

/// Any failure ends the job with an error.
pub proof fn law_job_failure<E>(job: JobView<E>, events: Seq<JobEventView<E>>, k: int)
    requires
        job.stage is ProbeCommitDir,
        job_history(job, events),
        0 <= k < events.len(),
        events[k] is Failed,
    ensures
        k == events.len() - 1,
        job_after(job, events).stage matches JobStageView::Finished(Err(_)),
{
    lemma_prefix(job, events, k);
    lemma_prefix(job, events, k + 1);
    assert(events.take(events.len() as int) =~= events);
}

/// Whether `action` uses the path `path` of the layout.
pub open spec fn uses_path(action: JobActionView, path: Seq<Seq<char>>) -> bool {
    match action {
        JobActionView::ProbePath(p) => path == p,
        JobActionView::RemoveDirAll(p) => path == p,
        JobActionView::CreateDir(p) => path == p,
        JobActionView::InitTreeState { working_copy, state, .. } => path == working_copy || path
            == state,
        JobActionView::ProbeDir(dir) => path == dir.working_copy,
        JobActionView::Execute(line) => path == line.current_dir.working_copy,
        JobActionView::CheckOut(_) | JobActionView::Snapshot(_) | JobActionView::LoadTree(_) => {
            false
        },
    }
}

/// A job uses no path outside the directory of its commit.
pub proof fn law_job_stays_in_its_directory<E>(job: JobView<E>, path: Seq<Seq<char>>)
    requires
        job.action() matches Some(action) && uses_path(action, path),
    ensures
        commit_names(job.commit.id).is_prefix_of(path),
{
    let id = job.commit.id;
    law_below_base(id);
    assert(commit_names(id) =~= commit_names(id).subrange(0, commit_names(id).len() as int));
}

/// Jobs on different commits never use the same path, nor one a path that
/// lies below a path that the other uses.
pub proof fn law_jobs_apart<E>(
    a: JobView<E>,
    b: JobView<E>,
    path_a: Seq<Seq<char>>,
    path_b: Seq<Seq<char>>,
)
    requires
        a.commit.id != b.commit.id,
        a.action() matches Some(action) && uses_path(action, path_a),
        b.action() matches Some(action) && uses_path(action, path_b),
    ensures
        !path_a.is_prefix_of(path_b),
{
    law_job_stays_in_its_directory(a, path_a);
    law_job_stays_in_its_directory(b, path_b);
    if path_a.is_prefix_of(path_b) {
        let names = commit_names(a.commit.id);
        assert(names =~= path_b.subrange(0, names.len() as int)) by {
            assert(names =~= path_a.subrange(0, names.len() as int));
        }
        law_commits_apart(a.commit.id, b.commit.id, path_b);
    }
}

/// A commit is checked out where its command is run. The working copy that is set up
/// is the directory that is looked at before the command is run and in which, or
/// below which, it is then run; its state lies beside it, in a directory of its own.
/// This holds of any two jobs on the same commit, so of one job at different times.
pub proof fn law_checked_out_where_run<E>(a: JobView<E>, b: JobView<E>)
    requires
        a.commit.id == b.commit.id,
        a.action() is Some,
        b.action() is Some,
    ensures
        a.action()->0 matches JobActionView::InitTreeState { working_copy, state, .. } ==> {
            &&& b.action()->0 matches JobActionView::Execute(line) ==> line.current_dir.working_copy
                == working_copy && line.current_dir.subdir == b.subdir
            &&& b.action()->0 matches JobActionView::ProbeDir(dir) ==> dir.working_copy
                == working_copy && dir.subdir == b.subdir
            &&& state != working_copy
            &&& state.len() > 0 && state.last() == "state"@
            &&& working_copy.len() == state.len() && working_copy.drop_last() == state.drop_last()
            &&& b.action()->0 matches JobActionView::ProbePath(dir) ==> dir == state.drop_last()
            &&& b.action()->0 matches JobActionView::RemoveDirAll(dir) ==> dir == state.drop_last()
            &&& b.action()->0 matches JobActionView::CreateDir(dir) ==> dir == state.drop_last()
                || dir == working_copy || dir == state
        },
{
    let id = a.commit.id;
    reveal_strlit("working_copy");
    reveal_strlit("state");
    assert("working_copy"@.len() != "state"@.len());
    assert(working_copy_names(id).last() == "working_copy"@);
    assert(state_names(id).last() == "state"@);
    assert(working_copy_names(id).drop_last() =~= commit_names(id));
    assert(state_names(id).drop_last() =~= commit_names(id));
}

/// Whatever the commit, the command and the directory: a working copy is recorded
/// with all its new files of up to 64 MB, but for those that the workspace ignores,
/// and none is recorded against these rules.
pub proof fn law_new_files_are_recorded<E>(job: JobView<E>)
    ensures
        job.action() matches Some(JobActionView::Snapshot(options)) ==> {
            &&& options.start_tracking == Matcher::Everything
            &&& options.force_tracking == Matcher::Nothing
            &&& options.base_ignores
            &&& options.max_new_file_size == 64_000_000
        },
{
}

/// How many actions lie behind a job that is not finished.
proof fn lemma_stage<E>(job: JobView<E>, events: Seq<JobEventView<E>>)
    requires
        job.stage is ProbeCommitDir,
        job_history(job, events),
    ensures
        !(job_after(job, events).stage is Finished) ==> rank(job_after(job, events).stage)
            == if events.len() == 0 {
            0
        } else if events[0] == JobEventView::<E>::Probed(true) {
            events.len()
        } else {
            events.len() + 1
        },
        events.len() > 0 ==> events[0] is Probed,
    decreases events.len(),
{
    lemma_same_job(job, events);
    if events.len() > 0 {
        let before = events.drop_last();
        lemma_stage(job, before);
        if before.len() > 0 {
            assert(before[0] == events[0]);
        }
    }
}

/// The actions of a job, in order and in full: its directory is looked for and, if
/// it is there, removed; then the directory, the working copy in it and the state
/// beside that are made; the working copy is set up, the trees of the commit are
/// checked out into it, the subdirectory is looked for, the command is run, the
/// working copy is recorded, and the recorded tree is loaded.
pub proof fn law_job_actions_in_order<E>(job: JobView<E>, events: Seq<JobEventView<E>>)
    requires
        job.stage is ProbeCommitDir,
        job_history(job, events),
        job_after(job, events).action() is Some,
    ensures
        ({
            let action = job_after(job, events).action()->0;
            let hex = hex_of(job.commit.id);
            let dir = seq!["run"@, "default"@, hex];
            let working_copy = seq!["run"@, "default"@, hex, "working_copy"@];
            let state = seq!["run"@, "default"@, hex, "state"@];
            let found = events.len() > 0 && events[0] == JobEventView::<E>::Probed(true);
            let n = events.len() - if found {
                1int
            } else {
                0int
            };
            if events.len() == 0 {
                action == JobActionView::ProbePath(dir)
            } else if n == 0 {
                action == JobActionView::RemoveDirAll(dir)
            } else if n == 1 {
                action == JobActionView::CreateDir(dir)
            } else if n == 2 {
                action == JobActionView::CreateDir(working_copy)
            } else if n == 3 {
                action == JobActionView::CreateDir(state)
            } else if n == 4 {
                action == (JobActionView::InitTreeState {
                    working_copy,
                    state,
                    settings: (TreeStateSettings {
                        conflict_marker_style: ConflictMarkerStyle::Snapshot,
                        eol_conversion: false,
                        exec_change_setting: ExecChangeSetting::Auto,
                        fsmonitor: false,
                    }),
                })
            } else if n == 5 {
                action == JobActionView::CheckOut(job.commit.tree_ids)
            } else if n == 6 {
                action == JobActionView::ProbeDir((ExecDirView { working_copy, subdir: job.subdir }))
            } else if n == 7 {
                action matches JobActionView::Execute(line) && line.current_dir == (ExecDirView {
                    working_copy,
                    subdir: job.subdir,
                }) && line.args.len() == 2 && line.args[1] == job.shell_command
            } else if n == 8 {
                action is Snapshot
            } else {
                &&& n == 9
                &&& events.last() matches JobEventView::Snapshotted(trees)
                &&& trees.len() == 1
                &&& action == JobActionView::LoadTree(trees[0])
            }
        }),
{
    lemma_stage(job, events);
    lemma_same_job(job, events);
    law_names_of_a_commit(job.commit.id);
    if events.len() > 0 {
        lemma_stage(job, events.drop_last());
        lemma_same_job(job, events.drop_last());
    }
}

/// What can come of each action: a probe answers, a command ends or cannot be run, a
/// working copy is recorded as one tree, and everything else is done or fails.
pub proof fn law_job_events_fit<E>(job: JobView<E>, event: JobEventView<E>)
    ensures
        job.accepts(event) <==> match job.action() {
            None => false,
            Some(JobActionView::ProbePath(_)) | Some(JobActionView::ProbeDir(_)) => event is Probed,
            Some(JobActionView::Execute(_)) => event is Exited || event is Failed,
            Some(JobActionView::Snapshot(_)) => event is Snapshotted && event->Snapshotted_0.len()
                == 1,
            Some(_) => event is Done || event is Failed,
        },
{
}

/// A job ends for one of four reasons, and else goes on: an action failed, the
/// command failed, the subdirectory is not there, or the new tree was loaded. The
/// first two end it with an error, the others well.
pub proof fn law_job_ends_when<E>(job: JobView<E>, events: Seq<JobEventView<E>>)
    requires
        job.stage is ProbeCommitDir,
        job_history(job, events),
        events.len() > 0,
    ensures
        ({
            let before = job_after(job, events.drop_last()).action()->0;
            let after = job_after(job, events);
            let broken = events.last() is Failed || (events.last() is Exited
                && !events.last()->Exited_0.success);
            let well = (before is ProbeDir && events.last() == JobEventView::<E>::Probed(false)) || (
            before is LoadTree && events.last() is Done);
            &&& after.action() is None <==> broken || well
            &&& (after.stage matches JobStageView::Finished(Err(_))) <==> broken
            &&& (after.stage matches JobStageView::Finished(Ok(_))) <==> well
        }),
{
    let before = events.drop_last();
    lemma_same_job(job, before);
    assert(job_after(job, before).accepts(events.last()));
}

/// The error of a job names what failed: a path that could not be cleared or made,
/// the commit that could not be checked out, or else the part that failed; and what
/// stands behind the failure, but for a checkout.
pub proof fn law_job_error_names_failure<E>(job: JobView<E>, events: Seq<JobEventView<E>>, e: E)
    requires
        job.stage is ProbeCommitDir,
        job_history(job, events),
        events.len() > 0,
        events.last() == JobEventView::Failed(e),
    ensures
        ({
            let error = match job_after(job, events.drop_last()).action()->0 {
                JobActionView::RemoveDirAll(path) => RunErrorView::PathCreationFailure(path, e),
                JobActionView::CreateDir(path) => RunErrorView::PathCreationFailure(path, e),
                JobActionView::InitTreeState { .. } => RunErrorView::TreeState(e),
                JobActionView::CheckOut(_) => RunErrorView::FailedCheckout(job.commit.id),
                JobActionView::Execute(_) => RunErrorView::IoError(e),
                _ => RunErrorView::Backend(e),
            };
            job_after(job, events).stage == JobStageView::Finished(Err(error))
        }),
{
    let before = events.drop_last();
    lemma_same_job(job, before);
    assert(job_after(job, before).accepts(events.last()));
}

/// The result of a skipped commit has no tree, no output and no change.
pub proof fn law_skipped_result_is_empty(id: Seq<u8>)
    ensures
        skipped_job(id).old_id == id,
        skipped_job(id).skipped,
        !skipped_job(id).dirty,
        skipped_job(id).new_tree is None,
        skipped_job(id).stdout.len() == 0,
        skipped_job(id).stderr.len() == 0,
{
}

/// A list of trees is its trees, one for one.
pub proof fn law_trees_one_by_one(trees: Seq<TreeId>, i: int)
    ensures
        trees_view(trees).len() == trees.len(),
        0 <= i < trees.len() ==> trees_view(trees)[i] == trees[i].bytes@,
{
}

/// A commit, a job, the result of a job and the output of a command say what is in
/// each of their parts.
pub proof fn law_parts_are_said<E>(commit: Commit, job: Job<E>, result: RunJob, output: Output)
    ensures
        commit@.id == commit.id.bytes@,
        commit@.change_id == commit.change_id.bytes@,
        commit@.tree_ids == trees_view(commit.tree_ids@),
        job@.commit == job.commit@,
        job@.shell_command == job.shell_command@,
        job@.subdir == job.subdir@,
        job@.windows == job.windows,
        result@.old_id == result.old_id.bytes@,
        result@.new_tree is Some <==> result.new_tree is Some,
        result.new_tree matches Some(tree) ==> result@.new_tree == Some(tree.bytes@),
        result@.dirty == result.dirty,
        result@.stdout == result.stdout@,
        result@.stderr == result.stderr@,
        result@.skipped == result.skipped,
        output@.success == output.success,
        output@.status == output.status@,
        output@.stdout == output.stdout@,
        output@.stderr == output.stderr@,
{
}

/// What a job asks for, and what comes of it, is said in full.
pub proof fn law_job_actions_are_said<E>(action: JobAction, event: JobEvent<E>)
    ensures
        match action {
            JobAction::ProbePath(path) => action@ == JobActionView::ProbePath(path@),
            JobAction::RemoveDirAll(path) => action@ == JobActionView::RemoveDirAll(path@),
            JobAction::CreateDir(path) => action@ == JobActionView::CreateDir(path@),
            JobAction::InitTreeState { working_copy, state, settings } => {
                &&& action@ is InitTreeState
                &&& action@->working_copy == working_copy@
                &&& action@->state == state@
                &&& action@->settings == settings
            },
            JobAction::CheckOut(trees) => action@ == JobActionView::CheckOut(trees_view(trees@)),
            JobAction::ProbeDir(dir) => {
                &&& action@ is ProbeDir
                &&& action@->ProbeDir_0.working_copy == dir.working_copy@
                &&& action@->ProbeDir_0.subdir == dir.subdir@
            },
            JobAction::Execute(line) => action@ == JobActionView::Execute(line@),
            JobAction::Snapshot(options) => action@ == JobActionView::Snapshot(options),
            JobAction::LoadTree(tree) => action@ == JobActionView::LoadTree(tree.bytes@),
        },
        match event {
            JobEvent::Probed(answer) => event@ == JobEventView::<E>::Probed(answer),
            JobEvent::Done => event@ is Done,
            JobEvent::Failed(e) => event@ == JobEventView::Failed(e),
            JobEvent::Exited(output) => event@ == JobEventView::<E>::Exited(output@),
            JobEvent::Snapshotted(trees) => event@ == JobEventView::<E>::Snapshotted(
                trees_view(trees@),
            ),
        },
{
}

/// A job that is finished says how: well, with its result, or with its error.
pub proof fn law_job_end_is_said<E>(stage: JobStage<E>, result: JobResult<E>)
    ensures
        result matches Ok(job) ==> job_result_view(result) == Ok::<RunJobView, RunErrorView<E>>(job@),
        result matches Err(error) ==> job_result_view(result) == Err::<RunJobView, RunErrorView<E>>(
            error@,
        ),
        stage@ is Finished <==> stage is Finished,
        stage matches JobStage::Finished(end) ==> stage@ == JobStageView::Finished(
            job_result_view(end),
        ),
{
}

} // verus!
