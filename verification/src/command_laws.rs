//! What holds of every run, whatever comes of its actions.

use crate::args::{law_cores_count_otherwise, law_requested_jobs_count, RunArgs};
use crate::command::{
    captured, changed, commits_view, emissions_view, ids_view, job_emissions, new_command, new_job,
    noop_description, noop_report, rewritten_description, rewritten_report, selected, skipped_line,
    with_job, CommandAction, CommandActionView, CommandEvent, CommandEventView, CommandStage,
    CommandStageView, Emission, EmissionView, RunCommand, RunCommandView,
};
use crate::dispatch::{
    dispatch_history, ended_jobs, law_deliveries_fit, new_dispatcher, DispatchEventView,
};
use crate::error::{CommandErrorView, RunErrorView};
use crate::ids::{hex_of, CommitId};
use crate::job::{
    skipped_job, Commit, CommitView, JobActionView, JobEventView, JobStageView, JobView, RunJobView,
};
use crate::job_laws::{job_after, job_history, law_job_result};
use crate::layout::{base_names, law_names_of_a_commit};
use crate::paths::shown;
use crate::text::decimal;
use vstd::prelude::*;

verus! {

/// The run after `events`.
pub open spec fn command_after<E>(
    command: RunCommandView<E>,
    events: Seq<CommandEventView<E>>,
) -> RunCommandView<E>
    decreases events.len(),
{
    if events.len() == 0 {
        command
    } else {
        command_after(command, events.drop_last()).next(events.last())
    }
}

/// Whether `events` can come, one after the other, of the actions of the run.
pub open spec fn command_history<E>(
    command: RunCommandView<E>,
    events: Seq<CommandEventView<E>>,
) -> bool
    decreases events.len(),
{
    events.len() == 0 || {
        &&& command_history(command, events.drop_last())
        &&& command_after(command, events.drop_last()).accepts(events.last())
    }
}

/// Whether the run has commits to run on and nothing was done yet.
pub open spec fn fresh<E>(command: RunCommandView<E>) -> bool {
    &&& command.well_formed()
    &&& command.stage is CheckRewritable
    &&& command.rewrites == Map::<Seq<u8>, Seq<u8>>::empty()
    &&& command.count == 0
}

/// The results of jobs that were received.
pub open spec fn received<E>(events: Seq<CommandEventView<E>>) -> Seq<RunJobView>
    decreases events.len(),
{
    if events.len() == 0 {
        Seq::empty()
    } else {
        let before = received(events.drop_last());
        match events.last() {
            CommandEventView::Received(Some(job)) => before.push(job),
            _ => before,
        }
    }
}

/// The new trees that `jobs` amount to.
pub open spec fn rewrites_of(jobs: Seq<RunJobView>) -> Map<Seq<u8>, Seq<u8>>
    decreases jobs.len(),
{
    if jobs.len() == 0 {
        Map::empty()
    } else {
        with_job(rewrites_of(jobs.drop_last()), jobs.last())
    }
}

/// What is written for `jobs`, one after the other.
pub open spec fn jobs_emissions(jobs: Seq<RunJobView>, subdir_text: Seq<char>) -> Seq<EmissionView>
    decreases jobs.len(),
{
    if jobs.len() == 0 {
        Seq::empty()
    } else {
        jobs_emissions(jobs.drop_last(), subdir_text) + job_emissions(jobs.last(), subdir_text)
    }
}

/// What was written.
pub open spec fn written<E>(
    command: RunCommandView<E>,
    events: Seq<CommandEventView<E>>,
) -> Seq<EmissionView>
    decreases events.len(),
{
    if events.len() == 0 {
        Seq::empty()
    } else {
        let before = written(command, events.drop_last());
        match command_after(command, events.drop_last()).action() {
            Some(CommandActionView::Write(emission)) if events.last() is Done => before.push(
                emission,
            ),
            _ => before,
        }
    }
}

/// The commits that were visited while commits were being rebased.
pub open spec fn visits<E>(events: Seq<CommandEventView<E>>) -> Seq<Seq<u8>>
    decreases events.len(),
{
    if events.len() == 0 {
        Seq::empty()
    } else {
        let before = visits(events.drop_last());
        match events.last() {
            CommandEventView::Visited(id) => before.push(id),
            _ => before,
        }
    }
}

/// How late a stage is.
spec fn rank<E>(stage: CommandStageView<E>) -> nat {
    match stage {
        CommandStageView::CheckRewritable => 0,
        CommandStageView::ProbeBase => 1,
        CommandStageView::CreateBase => 2,
        CommandStageView::RunJobs => 3,
        CommandStageView::Receive => 4,
        CommandStageView::Write(_) => 4,
        CommandStageView::ClearNoop => 5,
        CommandStageView::ReportNoop => 6,
        CommandStageView::FinishNoop => 7,
        CommandStageView::Transform => 8,
        CommandStageView::ReportRewritten => 9,
        CommandStageView::ClearRewritten => 10,
        CommandStageView::FinishRewritten => 11,
        CommandStageView::Finished(_) => 12,
    }
}

proof fn lemma_prefix<E>(command: RunCommandView<E>, events: Seq<CommandEventView<E>>, k: int)
    requires
        command_history(command, events),
        0 <= k <= events.len(),
    ensures
        command_history(command, events.take(k)),
        rank(command_after(command, events.take(k)).stage) <= rank(
            command_after(command, events).stage,
        ),
        k < events.len() ==> {
            &&& command_after(command, events.take(k)).accepts(events[k])
            &&& command_after(command, events.take(k + 1)) == command_after(
                command,
                events.take(k),
            ).next(events[k])
        },
    decreases events.len(),
{
    if k == events.len() {
        assert(events.take(k) =~= events);
    } else {
        let shorter = events.drop_last();
        if k == events.len() - 1 {
            assert(events.take(k) =~= shorter);
            assert(events.take(k + 1) =~= events);
        } else {
            lemma_prefix(command, shorter, k);
            assert(shorter.take(k) =~= events.take(k));
            assert(shorter.take(k + 1) =~= events.take(k + 1));
        }
    }
}

/// At any time the run has counted the results that it received, and its new
/// trees are those of the jobs among them that changed something. The command,
/// the directory and the commits stay the same.
pub proof fn law_run_accounts_for_results<E>(
    command: RunCommandView<E>,
    events: Seq<CommandEventView<E>>,
)
    requires
        fresh(command),
        command_history(command, events),
    ensures
        ({
            let after = command_after(command, events);
            &&& after.well_formed()
            &&& after.visited == received(events).len()
            &&& after.rewrites == rewrites_of(received(events))
            &&& after.shell_command == command.shell_command
            &&& after.subdir == command.subdir
            &&& after.subdir_text == command.subdir_text
            &&& after.windows == command.windows
            &&& after.jobs == command.jobs
            &&& after.commits == command.commits
        }),
    decreases events.len(),
{
    if events.len() > 0 {
        let before = events.drop_last();
        law_run_accounts_for_results(command, before);
        match events.last() {
            CommandEventView::Received(Some(job)) => {
                assert(received(events).drop_last() =~= received(before));
            },
            _ => {},
        }
    }
}

/// If a job fails, the run fails with its error and nothing is rewritten: at no
/// time are commits rebased, or a transaction finished, or results of other
/// jobs taken. The working copies stay behind.
pub proof fn law_failed_job_rewrites_nothing<E>(
    command: RunCommandView<E>,
    events: Seq<CommandEventView<E>>,
    k: int,
    error: RunErrorView<E>,
)
    requires
        fresh(command),
        command_history(command, events),
        0 <= k < events.len(),
        events[k] == CommandEventView::<E>::Ran(Err(error)),
    ensures
        k == events.len() - 1,
        command_after(command, events).stage == CommandStageView::<E>::Finished(
            Err(CommandErrorView::Cli(error)),
        ),
        received(events).len() == 0,
        forall|j: int|
            0 <= j <= events.len() ==> match #[trigger] command_after(
                command,
                events.take(j),
            ).action() {
                None => j == events.len(),
                Some(action) => {
                    ||| action is CheckRewritable
                    ||| action is ProbePath
                    ||| action is CreateDirAll
                    ||| action is RunJobs
                },
            },
{
    lemma_prefix(command, events, k);
    lemma_prefix(command, events, k + 1);
    assert(events.take(events.len() as int) =~= events);
    law_run_accounts_for_results(command, events.take(k));
    assert(events.drop_last() =~= events.take(k));
    assert forall|j: int| 0 <= j <= events.len() implies match #[trigger] command_after(
        command,
        events.take(j),
    ).action() {
        None => j == events.len(),
        Some(action) => {
            ||| action is CheckRewritable
            ||| action is ProbePath
            ||| action is CreateDirAll
            ||| action is RunJobs
        },
    } by {
        if j <= k {
            lemma_prefix(command, events.take(k), j);
            assert(events.take(k).take(j) =~= events.take(j));
        }
    }
}

/// Any failure ends the run with an error; so none was seen by a run that goes
/// on or that succeeded.
pub proof fn law_failure_ends_run<E>(
    command: RunCommandView<E>,
    events: Seq<CommandEventView<E>>,
    k: int,
)
    requires
        command_history(command, events),
        0 <= k < events.len(),
        events[k] is Failed || events[k] matches CommandEventView::Ran(Err(_)),
    ensures
        k == events.len() - 1,
        command_after(command, events).stage matches CommandStageView::Finished(Err(_)),
{
    lemma_prefix(command, events, k);
    lemma_prefix(command, events, k + 1);
    assert(events.take(events.len() as int) =~= events);
}

/// Commits are rebased only when the result of every job was received and some
/// job changed something; a run ends as a no-op only when the result of every
/// job was received and none changed anything.
pub proof fn law_rewrite_or_noop<E>(
    command: RunCommandView<E>,
    events: Seq<CommandEventView<E>>,
)
    requires
        fresh(command),
        command_history(command, events),
    ensures
        ({
            let stage = command_after(command, events).stage;
            let jobs = received(events);
            &&& (stage is Transform || stage is ReportRewritten || stage is ClearRewritten
                || stage is FinishRewritten) ==> {
                &&& jobs.len() == command.commits.len()
                &&& exists|i: int| 0 <= i < jobs.len() && changed(#[trigger] jobs[i])
            }
            &&& (stage is ClearNoop || stage is ReportNoop || stage is FinishNoop) ==> {
                &&& jobs.len() == command.commits.len()
                &&& forall|i: int| 0 <= i < jobs.len() ==> !changed(#[trigger] jobs[i])
            }
        }),
    decreases events.len(),
{
    law_run_accounts_for_results(command, events);
    lemma_empty_rewrites(received(events));
    lemma_settled(command, events);
}

proof fn lemma_empty_rewrites(jobs: Seq<RunJobView>)
    ensures
        rewrites_of(jobs) == Map::<Seq<u8>, Seq<u8>>::empty() <==> (forall|i: int|
            0 <= i < jobs.len() ==> !changed(#[trigger] jobs[i])),
    decreases jobs.len(),
{
    if jobs.len() > 0 {
        let before = jobs.drop_last();
        lemma_empty_rewrites(before);
        assert(forall|i: int| 0 <= i < before.len() ==> before[i] == jobs[i]);
        if changed(jobs.last()) {
            assert(rewrites_of(jobs).contains_key(jobs.last().old_id));
            assert(changed(jobs[jobs.len() - 1]));
        } else {
            assert(rewrites_of(jobs) == rewrites_of(before));
            if forall|i: int| 0 <= i < before.len() ==> !changed(#[trigger] before[i]) {
                assert forall|i: int| 0 <= i < jobs.len() implies !changed(#[trigger] jobs[i]) by {
                    if i < before.len() {
                        assert(!changed(before[i]));
                    }
                }
            } else {
                let i = choose|i: int| 0 <= i < before.len() && changed(#[trigger] before[i]);
                assert(changed(jobs[i]));
            }
        }
    }
}

proof fn lemma_settled<E>(command: RunCommandView<E>, events: Seq<CommandEventView<E>>)
    requires
        fresh(command),
        command_history(command, events),
    ensures
        ({
            let after = command_after(command, events);
            let none = Map::<Seq<u8>, Seq<u8>>::empty();
            &&& (after.stage is Transform || after.stage is ReportRewritten
                || after.stage is ClearRewritten || after.stage is FinishRewritten)
                ==> after.visited == after.commits.len() && after.rewrites != none
            &&& (after.stage is ClearNoop || after.stage is ReportNoop
                || after.stage is FinishNoop) ==> after.visited == after.commits.len()
                && after.rewrites == none
        }),
    decreases events.len(),
{
    law_run_accounts_for_results(command, events);
    if events.len() > 0 {
        lemma_settled(command, events.drop_last());
        law_run_accounts_for_results(command, events.drop_last());
    }
}

/// What the jobs wrote is written in the order in which their results were
/// received, and nothing comes between the parts of one job's output.
pub proof fn law_output_not_interleaved<E>(
    command: RunCommandView<E>,
    events: Seq<CommandEventView<E>>,
)
    requires
        fresh(command),
        command_history(command, events),
    ensures
        ({
            let stage = command_after(command, events).stage;
            let due = jobs_emissions(received(events), command.subdir_text);
            &&& (stage is Receive || stage is ClearNoop || stage is ReportNoop || stage is Transform
                || stage is ReportRewritten) ==> written(command, events) == due
            &&& stage matches CommandStageView::Write(left) ==> written(command, events) + left
                == due
        }),
    decreases events.len(),
{
    if events.len() > 0 {
        let before = events.drop_last();
        law_output_not_interleaved(command, before);
        law_run_accounts_for_results(command, before);
        if command_after(command, before).before_results() {
            lemma_nothing_written_early(command, before);
        }
        let stage = command_after(command, before).stage;
        match events.last() {
            CommandEventView::Received(Some(job)) => {
                assert(received(events).drop_last() =~= received(before));
                let new = job_emissions(job, command.subdir_text);
                if new.len() == 0 {
                    assert(written(command, before) + new =~= written(command, before));
                }
            },
            _ => {
                if stage is Write && events.last() is Done {
                    let left = stage->Write_0;
                    assert(written(command, events) == written(command, before).push(left[0]));
                    if left.len() > 1 {
                        assert(written(command, events) + left.skip(1) =~= written(command, before)
                            + left);
                    } else {
                        assert(written(command, events) =~= written(command, before) + left);
                    }
                }
            },
        }
    }
}

/// A run that had commits to run on and succeeded has written what its jobs
/// wrote, in the order in which their results were received, and then one line:
/// how many commits were rewritten, or that none were.
pub proof fn law_output_of_success<E>(
    command: RunCommandView<E>,
    events: Seq<CommandEventView<E>>,
)
    requires
        fresh(command),
        command_history(command, events),
        command_after(command, events).stage == CommandStageView::<E>::Finished(Ok(())),
    ensures
        ({
            let jobs = received(events);
            let report = if exists|i: int| 0 <= i < jobs.len() && changed(#[trigger] jobs[i]) {
                rewritten_report(command_after(command, events).count, command.shell_command)
            } else {
                noop_report()
            };
            written(command, events) == jobs_emissions(jobs, command.subdir_text).push(
                EmissionView::StderrLine(report),
            )
        }),
{
    reveal_with_fuel(command_after, 4);
    reveal_with_fuel(command_history, 4);
    reveal_with_fuel(received, 4);
    reveal_with_fuel(written, 4);
    let finishing = events.drop_last();
    law_rewrite_or_noop(command, finishing);
    let earlier = finishing.drop_last();
    if command_after(command, finishing).stage is FinishNoop {
        assert(command_after(command, earlier).stage is ReportNoop);
        law_output_not_interleaved(command, earlier);
    } else {
        assert(command_after(command, earlier).stage is ClearRewritten);
        let reporting = earlier.drop_last();
        assert(command_after(command, reporting).stage is ReportRewritten);
        law_output_not_interleaved(command, reporting);
        law_run_accounts_for_results(command, reporting);
    }
}

proof fn lemma_nothing_written_early<E>(
    command: RunCommandView<E>,
    events: Seq<CommandEventView<E>>,
)
    requires
        fresh(command),
        command_history(command, events),
        command_after(command, events).before_results(),
    ensures
        written(command, events).len() == 0,
        received(events).len() == 0,
    decreases events.len(),
{
    if events.len() > 0 {
        lemma_nothing_written_early(command, events.drop_last());
    }
}

/// A commit gets a new tree exactly if some job on it changed something, and
/// then the tree of such a job.
pub proof fn law_rewritten_exactly_if_changed(jobs: Seq<RunJobView>, id: Seq<u8>)
    ensures
        rewrites_of(jobs).contains_key(id) <==> exists|i: int|
            0 <= i < jobs.len() && changed(#[trigger] jobs[i]) && jobs[i].old_id == id,
        rewrites_of(jobs).contains_key(id) ==> exists|i: int|
            0 <= i < jobs.len() && changed(#[trigger] jobs[i]) && jobs[i].old_id == id
                && jobs[i].new_tree == Some(rewrites_of(jobs)[id]),
    decreases jobs.len(),
{
    if jobs.len() > 0 {
        let before = jobs.drop_last();
        law_rewritten_exactly_if_changed(before, id);
        let last = jobs.len() - 1;
        if changed(jobs.last()) && jobs.last().old_id == id {
            assert(changed(jobs[last]) && jobs[last].old_id == id);
        } else if rewrites_of(jobs).contains_key(id) {
            assert(rewrites_of(before).contains_key(id));
            let i = choose|i: int|
                0 <= i < before.len() && changed(#[trigger] before[i]) && before[i].old_id == id
                    && before[i].new_tree == Some(rewrites_of(before)[id]);
            assert(jobs[i] == before[i]);
        } else {
            assert forall|i: int|
                0 <= i < jobs.len() && changed(#[trigger] jobs[i]) implies jobs[i].old_id != id by {
                if i < last {
                    assert(before[i] == jobs[i]);
                }
            }
        }
    }
}

/// With one job per commit, each commit that its job changed gets the tree of
/// that job, and no other commit gets a new tree.
pub proof fn law_each_commit_gets_its_tree(jobs: Seq<RunJobView>, i: int)
    requires
        jobs.map_values(|job: RunJobView| job.old_id).no_duplicates(),
        0 <= i < jobs.len(),
    ensures
        changed(jobs[i]) ==> {
            &&& rewrites_of(jobs).contains_key(jobs[i].old_id)
            &&& jobs[i].new_tree == Some(rewrites_of(jobs)[jobs[i].old_id])
        },
        !changed(jobs[i]) ==> !rewrites_of(jobs).contains_key(jobs[i].old_id),
{
    let ids = jobs.map_values(|job: RunJobView| job.old_id);
    let id = jobs[i].old_id;
    law_rewritten_exactly_if_changed(jobs, id);
    assert(ids[i] == id);
    if rewrites_of(jobs).contains_key(id) {
        let k = choose|k: int|
            0 <= k < jobs.len() && changed(#[trigger] jobs[k]) && jobs[k].old_id == id
                && jobs[k].new_tree == Some(rewrites_of(jobs)[id]);
        assert(ids[k] == id);
        assert(k == i);
    }
}

/// The order in which the jobs end makes no difference to what is rewritten.
pub proof fn law_order_does_not_matter(a: Seq<RunJobView>, b: Seq<RunJobView>)
    requires
        a.map_values(|job: RunJobView| job.old_id).no_duplicates(),
        a.to_multiset() == b.to_multiset(),
    ensures
        rewrites_of(a) == rewrites_of(b),
{
    broadcast use vstd::seq_lib::group_to_multiset_ensures;

    assert forall|job: RunJobView| a.contains(job) <==> b.contains(job) by {
        assert(a.contains(job) <==> a.to_multiset().count(job) > 0);
        assert(b.contains(job) <==> b.to_multiset().count(job) > 0);
    }
    let ids = a.map_values(|job: RunJobView| job.old_id);
    assert forall|id: Seq<u8>|
        #![trigger rewrites_of(a).contains_key(id)]
        #![trigger rewrites_of(b).contains_key(id)]
        rewrites_of(a).contains_key(id) == rewrites_of(b).contains_key(id) && (rewrites_of(
            a,
        ).contains_key(id) ==> rewrites_of(a)[id] == rewrites_of(b)[id]) by {
        law_rewritten_exactly_if_changed(a, id);
        law_rewritten_exactly_if_changed(b, id);
        if rewrites_of(a).contains_key(id) {
            let i = choose|i: int|
                0 <= i < a.len() && changed(#[trigger] a[i]) && a[i].old_id == id && a[i].new_tree
                    == Some(rewrites_of(a)[id]);
            assert(a.contains(a[i]));
            assert(b.contains(a[i]));
            let there = choose|k: int| 0 <= k < b.len() && b[k] == a[i];
            assert(changed(b[there]));
            assert(rewrites_of(b).contains_key(id));
        }
        if rewrites_of(b).contains_key(id) {
            let k = choose|k: int|
                0 <= k < b.len() && changed(#[trigger] b[k]) && b[k].old_id == id && b[k].new_tree
                    == Some(rewrites_of(b)[id]);
            assert(b.contains(b[k]));
            assert(a.contains(b[k]));
            let here = choose|i: int| 0 <= i < a.len() && a[i] == b[k];
            assert(changed(a[here]));
            assert(rewrites_of(a).contains_key(id));
            let i = choose|i: int|
                0 <= i < a.len() && changed(#[trigger] a[i]) && a[i].old_id == id && a[i].new_tree
                    == Some(rewrites_of(a)[id]);
            assert(ids[i] == id && ids[here] == id);
            assert(i == here);
        }
    }
    assert(rewrites_of(a).dom() =~= rewrites_of(b).dom()) by {
        assert forall|id: Seq<u8>|
            rewrites_of(a).dom().contains(id) == rewrites_of(b).dom().contains(id) by {
            assert(rewrites_of(a).contains_key(id) == rewrites_of(b).contains_key(id));
        }
    }
    assert forall|id: Seq<u8>| rewrites_of(a).dom().contains(id) implies rewrites_of(a)[id]
        == rewrites_of(b)[id] by {
        assert(rewrites_of(a).contains_key(id));
    }
    assert(rewrites_of(a) =~= rewrites_of(b));
}

/// Whether `job` left another tree behind than that of `commit`.
pub open spec fn tree_differs(job: RunJobView, commit: CommitView) -> bool {
    job.new_tree matches Some(tree) && seq![tree] != commit.tree_ids
}

/// The result of a finished job counts as changed exactly if it has a tree and
/// that is not the tree of its commit; in particular a skipped commit is never
/// rewritten.
pub proof fn law_changed_exactly_if_tree_differs<E>(
    job: JobView<E>,
    events: Seq<JobEventView<E>>,
    result: RunJobView,
)
    requires
        job.stage is ProbeCommitDir,
        job_history(job, events),
        job_after(job, events).stage == JobStageView::<E>::Finished(Ok(result)),
    ensures
        changed(result) <==> tree_differs(result, job.commit),
        changed(result) <==> result.dirty,
        result.skipped ==> !changed(result),
{
    law_job_result(job, events, result);
    if !result.skipped {
        let trees = events[events.len() - 2]->Snapshotted_0;
        assert(trees =~= seq![result.new_tree->0]);
    }
}

/// A visited commit counts as rewritten exactly if it has a new tree.
pub proof fn law_count<E>(command: RunCommandView<E>, events: Seq<CommandEventView<E>>)
    requires
        fresh(command),
        command_history(command, events),
    ensures
        ({
            let after = command_after(command, events);
            after.count == visits(events).filter(|id: Seq<u8>| after.rewrites.contains_key(id)).len()
        }),
    decreases events.len(),
{
    reveal(Seq::filter);
    let after = command_after(command, events);
    if events.len() > 0 {
        let before = events.drop_last();
        law_count(command, before);
        let earlier = command_after(command, before);
        match events.last() {
            CommandEventView::Visited(id) => {
                assert(visits(events).drop_last() =~= visits(before));
                assert(after.rewrites == earlier.rewrites);
            },
            CommandEventView::Received(Some(_)) => {
                lemma_visits_come_late(command, before);
                assert(visits(events).len() == 0);
            },
            _ => {
                assert(after.rewrites == earlier.rewrites);
            },
        }
    }
}

proof fn lemma_visits_come_late<E>(command: RunCommandView<E>, events: Seq<CommandEventView<E>>)
    requires
        fresh(command),
        command_history(command, events),
        rank(command_after(command, events).stage) < 8,
    ensures
        visits(events).len() == 0,
    decreases events.len(),
{
    if events.len() > 0 {
        let before = events.drop_last();
        assert(rank(command_after(command, before).stage) < 8);
        lemma_visits_come_late(command, before);
    }
}

/// If each commit with a new tree is visited, and none twice, then as many
/// commits are reported as rewritten as have a new tree.
pub proof fn law_report_counts_rewritten<E>(
    command: RunCommandView<E>,
    events: Seq<CommandEventView<E>>,
)
    requires
        fresh(command),
        command_history(command, events),
        visits(events).no_duplicates(),
        forall|id: Seq<u8>|
            command_after(command, events).rewrites.contains_key(id) ==> visits(events).contains(id),
    ensures
        command_after(command, events).count == command_after(command, events).rewrites.dom().len(),
{
    law_count(command, events);
    let rewrites = command_after(command, events).rewrites;
    let keep = |id: Seq<u8>| rewrites.contains_key(id);
    let kept = visits(events).filter(keep);
    lemma_filter(visits(events), keep);
    kept.unique_seq_to_set();
    assert forall|id: Seq<u8>| kept.to_set().contains(id) == rewrites.dom().contains(id) by {
        assert(kept.contains(id) <==> visits(events).contains(id) && keep(id));
        assert(rewrites.contains_key(id) == rewrites.dom().contains(id));
    }
    assert(kept.to_set() =~= rewrites.dom());
}

proof fn lemma_filter<A>(s: Seq<A>, keep: spec_fn(A) -> bool)
    ensures
        forall|x: A| s.filter(keep).contains(x) <==> s.contains(x) && keep(x),
        s.no_duplicates() ==> s.filter(keep).no_duplicates(),
    decreases s.len(),
{
    reveal(Seq::filter);
    if s.len() > 0 {
        let before = s.drop_last();
        lemma_filter(before, keep);
        assert forall|x: A| s.contains(x) <==> before.contains(x) || x == s.last() by {
            if before.contains(x) {
                let i = choose|i: int| 0 <= i < before.len() && before[i] == x;
                assert(s[i] == x);
            }
            if x == s.last() {
                assert(s[s.len() - 1] == x);
            }
            if s.contains(x) && x != s.last() {
                let i = choose|i: int| 0 <= i < s.len() && s[i] == x;
                assert(before[i] == x);
            }
        }
        if keep(s.last()) {
            let kept = before.filter(keep);
            assert(s.filter(keep) == kept.push(s.last()));
            assert forall|x: A| kept.push(s.last()).contains(x) <==> kept.contains(x) || x
                == s.last() by {
                if kept.contains(x) {
                    let i = choose|i: int| 0 <= i < kept.len() && kept[i] == x;
                    assert(kept.push(s.last())[i] == x);
                }
                if x == s.last() {
                    assert(kept.push(s.last())[kept.len() as int] == x);
                }
            }
            if s.no_duplicates() {
                assert(!before.contains(s.last())) by {
                    if before.contains(s.last()) {
                        let i = choose|i: int| 0 <= i < before.len() && before[i] == s.last();
                        assert(s[i] == s[s.len() - 1]);
                    }
                }
                assert(before.no_duplicates());
                assert(!kept.contains(s.last()));
            }
        }
    }
}

/// A transaction is finished only after the working copies were removed.
pub proof fn law_cleared_before_finish<E>(
    command: RunCommandView<E>,
    events: Seq<CommandEventView<E>>,
)
    requires
        fresh(command),
        command_history(command, events),
        command_after(command, events).action() matches Some(CommandActionView::Finish(_)),
    ensures
        exists|k: int|
            0 <= k < events.len() && events[k] is Done && (#[trigger] command_after(
                command,
                events.take(k),
            )).action() == Some(CommandActionView::RemoveDirAll(base_names())),
{
    let n = events.len() as int;
    let before = events.drop_last();
    assert(events.take(n - 1) =~= before);
    if command_after(command, events).stage is FinishNoop {
        reveal_with_fuel(command_after, 3);
        reveal_with_fuel(command_history, 3);
        assert(command_after(command, before).stage is ReportNoop);
        let earlier = before.drop_last();
        assert(events.take(n - 2) =~= earlier);
        assert(command_after(command, events.take(n - 2)).stage is ClearNoop);
        assert(before.last() == events[n - 2]);
    } else {
        assert(command_after(command, events.take(n - 1)).stage is ClearRewritten);
        assert(events.last() == events[n - 1]);
    }
}

/// A run that had commits to run on succeeds only by finishing its transaction,
/// after the result of every job was received; and the transaction says what
/// was done.
pub proof fn law_success<E>(command: RunCommandView<E>, events: Seq<CommandEventView<E>>)
    requires
        fresh(command),
        command_history(command, events),
        command_after(command, events).stage == CommandStageView::<E>::Finished(Ok(())),
    ensures
        events.len() > 0,
        events.last() is Done,
        received(events).len() == command.commits.len(),
        ({
            let jobs = received(events);
            let before = command_after(command, events.drop_last());
            if exists|i: int| 0 <= i < jobs.len() && changed(#[trigger] jobs[i]) {
                before.action() == Some(
                    CommandActionView::Finish(
                        rewritten_description(before.count, command.shell_command),
                    ),
                )
            } else {
                before.action() == Some(
                    CommandActionView::Finish(
                        noop_description(command.commits.len(), command.shell_command),
                    ),
                )
            }
        }),
{
    let before = events.drop_last();
    law_rewrite_or_noop(command, before);
    law_run_accounts_for_results(command, before);
    assert(received(events) == received(before));
    let last = command_after(command, before);
    assert(last.stage is FinishNoop || last.stage is FinishRewritten);
    if last.stage is FinishNoop {
        assert(last.visited == command.commits.len());
    }
}

/// The root commit is never run on, and every other commit that was asked for
/// is.
pub proof fn law_selected(resolved: Seq<CommitView>, root_id: Seq<u8>, commit: CommitView)
    ensures
        selected(resolved, root_id).contains(commit) <==> resolved.contains(commit) && commit.id
            != root_id,
{
    lemma_filter(resolved, |c: CommitView| c.id != root_id);
}

/// With nothing to run on but the root commit, the run succeeds at once, without
/// any action.
pub proof fn law_nothing_to_run_on<E>(
    args: RunArgs,
    resolved: Seq<CommitView>,
    root_id: Seq<u8>,
    cores: Option<usize>,
    subdir: Seq<Seq<u8>>,
    windows: bool,
)
    requires
        forall|i: int| 0 <= i < resolved.len() ==> (#[trigger] resolved[i]).id == root_id,
    ensures
        ({
            let command = new_command::<E>(
                args,
                resolved,
                root_id,
                cores,
                subdir,
                windows,
            );
            &&& command.stage == CommandStageView::<E>::Finished(Ok(()))
            &&& command.action() is None
        }),
{
    let none = selected(resolved, root_id);
    if none.len() > 0 {
        assert(none.contains(none[0]));
        law_selected(resolved, root_id, none[0]);
    }
}

/// A run with commits to run on starts fresh.
pub proof fn law_new_run_is_fresh<E>(
    args: RunArgs,
    resolved: Seq<CommitView>,
    root_id: Seq<u8>,
    cores: Option<usize>,
    subdir: Seq<Seq<u8>>,
    windows: bool,
    i: int,
)
    requires
        cores != Some(0usize),
        0 <= i < resolved.len(),
        resolved[i].id != root_id,
    ensures
        fresh(
            new_command::<E>(args, resolved, root_id, cores, subdir, windows),
        ),
{
    law_selected(resolved, root_id, resolved[i]);
    assert(resolved.contains(resolved[i]));
    assert(selected(resolved, root_id).contains(resolved[i]));
}

/// Nothing is done before it was found that the commits may be rewritten.
pub proof fn law_checked_first<E>(command: RunCommandView<E>, events: Seq<CommandEventView<E>>)
    requires
        fresh(command),
        command_history(command, events),
        command_after(command, events).action() is Some,
    ensures
        events.len() == 0 ==> command_after(command, events).action() == Some(
            CommandActionView::CheckRewritable(command.ids()),
        ),
        events.len() > 0 ==> events[0] is Done,
    decreases events.len(),
{
    if events.len() > 0 {
        law_checked_first(command, events.drop_last());
    }
}

/// The jobs are run only once the base directory exists: it was found, or it
/// has just been created.
pub proof fn law_base_exists_before_jobs<E>(
    command: RunCommandView<E>,
    events: Seq<CommandEventView<E>>,
)
    requires
        fresh(command),
        command_history(command, events),
        command_after(command, events).action() matches Some(CommandActionView::RunJobs),
    ensures
        events.len() > 0,
        ({
            let before = command_after(command, events.drop_last()).action();
            ||| before == Some(CommandActionView::ProbePath(base_names())) && events.last()
                == CommandEventView::<E>::Probed(true)
            ||| before == Some(CommandActionView::CreateDirAll(base_names())) && events.last() is Done
        }),
{
}

/// If the results of the jobs are received in the order in which they were
/// handed over, then commits are rebased, or the run is found to be a no-op,
/// only with the results of all the jobs.
pub proof fn law_all_results_are_used<E>(
    command: RunCommandView<E>,
    events: Seq<CommandEventView<E>>,
    dispatch: Seq<DispatchEventView<E>>,
)
    requires
        fresh(command),
        command_history(command, events),
        dispatch_history(new_dispatcher(command.commits.len(), command.jobs), dispatch),
        received(events).is_prefix_of(ended_jobs(dispatch)),
        command_after(command, events).stage is Transform || command_after(
            command,
            events,
        ).stage is ClearNoop,
    ensures
        received(events) == ended_jobs(dispatch),
        command_after(command, events).rewrites == rewrites_of(ended_jobs(dispatch)),
        written(command, events) == jobs_emissions(ended_jobs(dispatch), command.subdir_text),
{
    law_rewrite_or_noop(command, events);
    law_run_accounts_for_results(command, events);
    law_output_not_interleaved(command, events);
    law_deliveries_fit(command.commits.len(), command.jobs, dispatch);
    assert(received(events) =~= ended_jobs(dispatch));
}

/// How many of `events` take the run on: all but the visits, and the attempts to
/// receive a result when there was none.
pub open spec fn steps<E>(events: Seq<CommandEventView<E>>) -> nat
    decreases events.len(),
{
    if events.len() == 0 {
        0
    } else {
        let idle = events.last() is Visited || events.last()
            == CommandEventView::<E>::Received(None);
        steps(events.drop_last()) + if idle {
            0nat
        } else {
            1nat
        }
    }
}

/// How many steps a run can still take.
spec fn left<E>(command: RunCommandView<E>) -> int {
    let jobs = 3 * (command.commits.len() - command.visited);
    match command.stage {
        CommandStageView::CheckRewritable => jobs + 8,
        CommandStageView::ProbeBase => jobs + 7,
        CommandStageView::CreateBase => jobs + 6,
        CommandStageView::RunJobs => jobs + 5,
        CommandStageView::Receive => jobs + 4,
        CommandStageView::Write(emissions) => jobs + emissions.len() + 4,
        CommandStageView::ClearNoop => 3,
        CommandStageView::ReportNoop => 2,
        CommandStageView::FinishNoop => 1,
        CommandStageView::Transform => 4,
        CommandStageView::ReportRewritten => 3,
        CommandStageView::ClearRewritten => 2,
        CommandStageView::FinishRewritten => 1,
        CommandStageView::Finished(_) => 0,
    }
}

proof fn lemma_left<E>(command: RunCommandView<E>, events: Seq<CommandEventView<E>>)
    requires
        fresh(command),
        command_history(command, events),
    ensures
        steps(events) + left(command_after(command, events)) <= 3 * command.commits.len() + 8,
    decreases events.len(),
{
    if events.len() > 0 {
        lemma_left(command, events.drop_last());
        law_run_accounts_for_results(command, events.drop_last());
        law_run_accounts_for_results(command, events);
    }
}

/// A run ends: it takes at most three steps per commit and eight more.
pub proof fn law_run_ends<E>(command: RunCommandView<E>, events: Seq<CommandEventView<E>>)
    requires
        fresh(command),
        command_history(command, events),
    ensures
        steps(events) <= 3 * command.commits.len() + 8,
        steps(events) == 3 * command.commits.len() + 8 ==> command_after(
            command,
            events,
        ).stage is Finished,
{
    lemma_left(command, events);
    law_run_accounts_for_results(command, events);
}

/// The line that reports a skipped commit shows the very directory that was
/// looked for in its working copy.
pub proof fn law_skip_shows_probed_directory<E>(
    command: RunCommandView<E>,
    events: Seq<CommandEventView<E>>,
    index: int,
)
    requires
        fresh(command),
        command_history(command, events),
        0 <= index < command.commits.len(),
    ensures
        ({
            let job = new_job(command, index);
            job_emissions(
                skipped_job(job.commit.id),
                command_after(command, events).subdir_text,
            ) == seq![
                EmissionView::StderrLine(
                    skipped_line(job.commit.id, shown(job.exec_dir().subdir, job.windows)),
                ),
            ]
        }),
{
    law_run_accounts_for_results(command, events);
}

/// What a run rewrites, from its jobs on. If every job ended well, each on its
/// own commit, and their results were handed over, each once but in any order,
/// and received as they were handed over, then, when commits are rebased or the
/// run is found to be a no-op, a commit of the run has a new tree exactly if its
/// own job left another tree behind than that of the commit; the tree is the one
/// of that job; and no other commit has a new tree. The run is a no-op exactly if
/// no job left another tree behind.
pub proof fn law_run_rewrites_what_its_jobs_changed<E>(
    command: RunCommandView<E>,
    events: Seq<CommandEventView<E>>,
    dispatch: Seq<DispatchEventView<E>>,
    histories: Seq<Seq<JobEventView<E>>>,
    results: Seq<RunJobView>,
)
    requires
        fresh(command),
        command.ids().no_duplicates(),
        results.len() == command.commits.len(),
        histories.len() == command.commits.len(),
        forall|i: int|
            0 <= i < results.len() ==> {
                &&& job_history(new_job(command, i), #[trigger] histories[i])
                &&& job_after(new_job(command, i), histories[i]).stage
                    == JobStageView::<E>::Finished(Ok(results[i]))
            },
        dispatch_history(new_dispatcher(command.commits.len(), command.jobs), dispatch),
        ended_jobs(dispatch).to_multiset() == results.to_multiset(),
        command_history(command, events),
        received(events).is_prefix_of(ended_jobs(dispatch)),
        command_after(command, events).stage is Transform || command_after(
            command,
            events,
        ).stage is ClearNoop,
    ensures
        ({
            let rewrites = command_after(command, events).rewrites;
            &&& forall|i: int|
                0 <= i < results.len() ==> {
                    let id = (#[trigger] command.commits[i]).id;
                    &&& rewrites.contains_key(id) <==> tree_differs(
                        results[i],
                        command.commits[i],
                    )
                    &&& rewrites.contains_key(id) ==> results[i].new_tree == Some(rewrites[id])
                }
            &&& forall|id: Seq<u8>| #[trigger]
                rewrites.contains_key(id) ==> command.ids().contains(id)
            &&& command_after(command, events).stage is ClearNoop <==> forall|i: int|
                0 <= i < results.len() ==> !tree_differs(#[trigger] results[i], command.commits[i])
            &&& command_after(command, events).action() matches Some(
                CommandActionView::Transform(ids),
            ) ==> forall|id: Seq<u8>| #[trigger] rewrites.contains_key(id) ==> ids.contains(id)
        }),
{
    let rewrites = command_after(command, events).rewrites;
    law_all_results_are_used(command, events, dispatch);
    let ids = results.map_values(|job: RunJobView| job.old_id);
    assert forall|i: int| 0 <= i < results.len() implies (#[trigger] results[i]).old_id
        == command.commits[i].id && (changed(results[i]) <==> tree_differs(
        results[i],
        command.commits[i],
    )) by {
        law_job_result(new_job(command, i), histories[i], results[i]);
        law_changed_exactly_if_tree_differs(new_job(command, i), histories[i], results[i]);
    }
    assert(ids =~= command.ids());
    law_order_does_not_matter(results, ended_jobs(dispatch));
    assert(rewrites == rewrites_of(results));
    assert forall|i: int| 0 <= i < results.len() implies {
        let id = (#[trigger] command.commits[i]).id;
        &&& rewrites.contains_key(id) <==> tree_differs(results[i], command.commits[i])
        &&& rewrites.contains_key(id) ==> results[i].new_tree == Some(rewrites[id])
    } by {
        assert(results[i].old_id == command.commits[i].id);
        law_each_commit_gets_its_tree(results, i);
    }
    assert forall|id: Seq<u8>| #[trigger] rewrites.contains_key(id) implies command.ids().contains(
        id,
    ) by {
        law_rewritten_exactly_if_changed(results, id);
        let i = choose|i: int|
            0 <= i < results.len() && changed(#[trigger] results[i]) && results[i].old_id == id;
        assert(ids[i] == id);
    }
    lemma_settled(command, events);
    lemma_empty_rewrites(results);
    law_run_accounts_for_results(command, events);
}

/// All the commits of a run are handed over, to be checked and to be rebased, each
/// at its place: none is left out, whether or not it has a new tree.
pub proof fn law_all_commits_are_handed_over<E>(command: RunCommand<E>, action: CommandAction)
    requires
        command@.action() == Some(action@),
    ensures
        action matches CommandAction::Transform(ids) ==> {
            &&& ids@.len() == command.commits@.len()
            &&& forall|i: int|
                0 <= i < ids@.len() ==> (#[trigger] ids@[i]).bytes@ == command.commits@[i].id.bytes@
        },
        action matches CommandAction::CheckRewritable(ids) ==> {
            &&& ids@.len() == command.commits@.len()
            &&& forall|i: int|
                0 <= i < ids@.len() ==> (#[trigger] ids@[i]).bytes@ == command.commits@[i].id.bytes@
        },
{
    if let CommandAction::Transform(ids) = action {
        assert(action@->Transform_0.len() == ids@.len());
        assert forall|i: int| 0 <= i < ids@.len() implies (#[trigger] ids@[i]).bytes@
            == command.commits@[i].id.bytes@ by {
            assert(action@->Transform_0[i] == ids@[i]@);
            assert(command@.commits[i] == command.commits@[i]@);
        }
    }
    if let CommandAction::CheckRewritable(ids) = action {
        assert(action@->CheckRewritable_0.len() == ids@.len());
        assert forall|i: int| 0 <= i < ids@.len() implies (#[trigger] ids@[i]).bytes@
            == command.commits@[i].id.bytes@ by {
            assert(action@->CheckRewritable_0[i] == ids@[i]@);
            assert(command@.commits[i] == command.commits@[i]@);
        }
    }
}

/// All the commits that a run began with are handed over to be rebased, each at its
/// place.
pub proof fn law_all_commits_are_rebased<E>(
    command: RunCommandView<E>,
    events: Seq<CommandEventView<E>>,
)
    requires
        fresh(command),
        command_history(command, events),
    ensures
        command_after(command, events).action() matches Some(CommandActionView::Transform(ids)) ==> {
            &&& ids.len() == command.commits.len()
            &&& forall|i: int| 0 <= i < ids.len() ==> #[trigger] ids[i] == command.commits[i].id
        },
{
    law_run_accounts_for_results(command, events);
}

/// The bytes for the standard output among `emissions`, in a row.
pub open spec fn stdout_bytes(emissions: Seq<EmissionView>) -> Seq<u8>
    decreases emissions.len(),
{
    if emissions.len() == 0 {
        Seq::empty()
    } else {
        let before = stdout_bytes(emissions.drop_last());
        match emissions.last() {
            EmissionView::Stdout(bytes) => before + bytes,
            _ => before,
        }
    }
}

/// The bytes for the standard error among `emissions`, in a row.
pub open spec fn stderr_bytes(emissions: Seq<EmissionView>) -> Seq<u8>
    decreases emissions.len(),
{
    if emissions.len() == 0 {
        Seq::empty()
    } else {
        let before = stderr_bytes(emissions.drop_last());
        match emissions.last() {
            EmissionView::Stderr(bytes) => before + bytes,
            _ => before,
        }
    }
}

/// What is written for a job that was not skipped, changed or not, is all that its
/// command wrote and nothing else: the standard output, then the standard error,
/// each in one piece, and neither if it is empty. For a skipped job it is one line
/// that names the commit and the directory.
pub proof fn law_output_is_shown_in_full(job: RunJobView, subdir_text: Seq<char>)
    ensures
        ({
            let emissions = job_emissions(job, subdir_text);
            &&& !job.skipped ==> {
                &&& stdout_bytes(emissions) == job.stdout
                &&& stderr_bytes(emissions) == job.stderr
                &&& emissions.len() <= 2
                &&& forall|i: int|
                    0 <= i < emissions.len() ==> match #[trigger] emissions[i] {
                        EmissionView::Stdout(bytes) => i == 0 && bytes.len() > 0,
                        EmissionView::Stderr(bytes) => i == emissions.len() - 1 && bytes.len() > 0,
                        EmissionView::StderrLine(_) => false,
                    }
            }
            &&& job.skipped ==> {
                &&& emissions.len() == 1
                &&& emissions[0] == EmissionView::StderrLine(
                    "Skipped commit "@ + hex_of(job.old_id) + ": directory does not exist: "@
                        + subdir_text,
                )
            }
        }),
{
    if !job.skipped {
        let out = captured(EmissionView::Stdout(job.stdout), job.stdout);
        let err = captured(EmissionView::Stderr(job.stderr), job.stderr);
        let emissions = job_emissions(job, subdir_text);
        assert(emissions == out + err);
        assert(out.drop_last() =~= Seq::<EmissionView>::empty() || out.len() == 0);
        reveal_with_fuel(stdout_bytes, 3);
        reveal_with_fuel(stderr_bytes, 3);
        if job.stderr.len() > 0 {
            assert(emissions.drop_last() =~= out);
        } else {
            assert(emissions =~= out);
        }
        assert(stdout_bytes(emissions) =~= job.stdout);
        assert(stderr_bytes(emissions) =~= job.stderr);
    }
}

/// Of a run that is taking results, the next result makes one more. Its commit gets
/// the tree in it if it says that this is another one, and every other commit is as
/// before.
pub proof fn law_result_is_noted<E>(command: RunCommandView<E>, job: RunJobView, id: Seq<u8>)
    requires
        command.well_formed(),
        command.action() == Some(CommandActionView::Receive),
    ensures
        ({
            let after = command.next(CommandEventView::Received(Some(job)));
            &&& after.visited == command.visited + 1
            &&& after.commits == command.commits
            &&& after.count == command.count
            &&& id != job.old_id ==> (after.rewrites.contains_key(id)
                == command.rewrites.contains_key(id)) && (after.rewrites.contains_key(id)
                ==> after.rewrites[id] == command.rewrites[id])
            &&& !job.skipped && job.dirty && job.new_tree is Some ==> after.rewrites.contains_key(
                job.old_id,
            ) && job.new_tree == Some(after.rewrites[job.old_id])
            &&& job.skipped || !job.dirty || job.new_tree is None ==> after.rewrites
                == command.rewrites
        }),
{
}

/// A commit that is visited while commits are rebased counts exactly if it has a new
/// tree, and nothing else changes.
pub proof fn law_visit_counts<E>(command: RunCommandView<E>, id: Seq<u8>)
    requires
        command.stage is Transform,
    ensures
        ({
            let after = command.next(CommandEventView::Visited(id));
            &&& command.rewrites.contains_key(id) ==> after.count == command.count + 1
            &&& !command.rewrites.contains_key(id) ==> after.count == command.count
            &&& after.rewrites == command.rewrites
            &&& after.visited == command.visited
            &&& after.commits == command.commits
            &&& after.stage is Transform
        }),
{
}

/// What is to be done in a run that began as `command` and whose jobs were run: the
/// next piece of what the jobs wrote, if there is one; else the next result, if there
/// is one to come; else to rebase all the commits, if some job changed something; and
/// else to clear up.
pub open spec fn due_action<E>(
    command: RunCommandView<E>,
    events: Seq<CommandEventView<E>>,
) -> CommandActionView {
    let jobs = received(events);
    let due = jobs_emissions(jobs, command.subdir_text);
    let done = written(command, events).len() as int;
    if done < due.len() {
        CommandActionView::Write(due[done])
    } else if jobs.len() < command.commits.len() {
        CommandActionView::Receive
    } else if exists|i: int| 0 <= i < jobs.len() && changed(#[trigger] jobs[i]) {
        CommandActionView::Transform(
            Seq::new(command.commits.len(), |i: int| command.commits[i].id),
        )
    } else {
        CommandActionView::RemoveDirAll(seq!["run"@, "default"@])
    }
}

/// A run begins with the check that its commits may be rewritten. From then on each
/// action follows from the one before it and what came of that, as long as nothing
/// fails: the base directory is looked for and made if it is missing; the jobs are
/// run; their results are taken and written out one by one; and the commits are
/// rebased, the number of those with a new tree is reported, the working copies are
/// removed and the transaction is finished; or, if nothing was changed, the working
/// copies are removed, that is reported, and the transaction is finished.
pub proof fn law_run_goes_on<E>(command: RunCommandView<E>, events: Seq<CommandEventView<E>>)
    requires
        fresh(command),
        command_history(command, events),
        events.len() > 0,
        !(events.last() is Failed),
        !(events.last() matches CommandEventView::Ran(Err(_))),
    ensures
        command.action() matches Some(CommandActionView::CheckRewritable(_)),
        ({
            let base = seq!["run"@, "default"@];
            let before = command_after(command, events.drop_last());
            let after = command_after(command, events);
            let jobs = received(events);
            let any = exists|i: int| 0 <= i < jobs.len() && changed(#[trigger] jobs[i]);
            let pending = written(command, events.drop_last()).len() < jobs_emissions(
                jobs,
                command.subdir_text,
            ).len();
            match before.action()->0 {
                CommandActionView::CheckRewritable(_) => after.action() == Some(
                    CommandActionView::ProbePath(base),
                ),
                CommandActionView::ProbePath(_) => after.action() == Some(
                    if events.last() == CommandEventView::<E>::Probed(true) {
                        CommandActionView::RunJobs
                    } else {
                        CommandActionView::CreateDirAll(base)
                    },
                ),
                CommandActionView::CreateDirAll(_) => after.action() == Some(
                    CommandActionView::RunJobs,
                ),
                CommandActionView::RunJobs | CommandActionView::Receive => after.action() == Some(
                    due_action(command, events),
                ),
                CommandActionView::Write(_) => if pending {
                    after.action() == Some(due_action(command, events))
                } else if any {
                    after.action() == Some(CommandActionView::RemoveDirAll(base))
                } else {
                    after.action() == Some(
                        CommandActionView::Finish(
                            "run: No-op on "@ + decimal(command.commits.len()) + " commits with "@
                                + command.shell_command,
                        ),
                    )
                },
                CommandActionView::Transform(_) => if events.last() is Visited {
                    after.action() == before.action()
                } else {
                    after.action() == Some(
                        CommandActionView::Write(
                            EmissionView::StderrLine(
                                "Rewrote "@ + decimal(before.count) + " commits with "@
                                    + command.shell_command,
                            ),
                        ),
                    )
                },
                CommandActionView::RemoveDirAll(_) => after.action() == Some(
                    if any {
                        CommandActionView::Finish(
                            "run: rewrite "@ + decimal(before.count) + " commits with "@
                                + command.shell_command,
                        )
                    } else {
                        CommandActionView::Write(
                            EmissionView::StderrLine(
                                "No commits were rewritten as the command did not modify any tracked files"@,
                            ),
                        )
                    },
                ),
                CommandActionView::Finish(_) => after.stage == CommandStageView::<E>::Finished(
                    Ok(()),
                ),
            }
        }),
{
    let shorter = events.drop_last();
    let before = command_after(command, shorter);
    let after = command_after(command, events);
    law_run_accounts_for_results(command, shorter);
    law_run_accounts_for_results(command, events);
    law_rewrite_or_noop(command, shorter);
    law_rewrite_or_noop(command, events);
    law_output_not_interleaved(command, shorter);
    law_output_not_interleaved(command, events);
    lemma_settled(command, events);
    assert(before.accepts(events.last()));
    let jobs = received(events);
    let due = jobs_emissions(jobs, command.subdir_text);
    let all = Seq::new(command.commits.len(), |i: int| command.commits[i].id);
    assert(after.ids() =~= all);
    assert(base_names() =~= seq!["run"@, "default"@]);
    if after.stage is Write {
        let left = after.stage->Write_0;
        let done = written(command, events);
        assert((done + left)[done.len() as int] == left[0]);
    }
    if before.stage is RunJobs {
        lemma_nothing_written_early(command, shorter);
    }
    if before.stage is Write {
        let left = before.stage->Write_0;
        assert(written(command, shorter) + left == due);
        assert(due.len() == written(command, shorter).len() + left.len());
    }
    if before.stage is ReportNoop || before.stage is ReportRewritten {
        assert(written(command, shorter) == due);
    }
}

/// The failure of an action ends a run with an error that holds it: as one of the run
/// itself if the base directory could not be made, and as one of what it relies on
/// otherwise.
pub proof fn law_run_error_holds_failure<E>(
    command: RunCommandView<E>,
    events: Seq<CommandEventView<E>>,
    e: E,
)
    requires
        fresh(command),
        command_history(command, events),
        events.len() > 0,
        events.last() == CommandEventView::Failed(e),
    ensures
        ({
            let failed = command_after(command, events.drop_last()).action()->0;
            command_after(command, events).stage == CommandStageView::Finished(
                Err(
                    if failed is CreateDirAll {
                        CommandErrorView::Cli(RunErrorView::IoError(e))
                    } else {
                        CommandErrorView::Other(e)
                    },
                ),
            )
        }),
{
    assert(command_after(command, events.drop_last()).accepts(events.last()));
}

/// What can come of each action: a probe answers, the jobs were run, a result came or
/// did not, and everything else is done or fails; commits are visited while they are
/// rebased, and only then.
pub proof fn law_run_events_fit<E>(command: RunCommandView<E>, event: CommandEventView<E>)
    ensures
        command.accepts(event) <==> match command.action() {
            None => false,
            Some(CommandActionView::ProbePath(_)) => event is Probed,
            Some(CommandActionView::RunJobs) => event is Ran,
            Some(CommandActionView::Receive) => event is Received,
            Some(CommandActionView::Transform(_)) => event is Done || event is Failed
                || event is Visited,
            Some(_) => event is Done || event is Failed,
        },
        command.action() is None <==> command.stage is Finished,
{
}

/// The commits to run on are picked one by one and keep their order: each that is not
/// the root commit is taken as often as it was asked for.
pub proof fn law_selected_one_by_one(
    a: Seq<CommitView>,
    b: Seq<CommitView>,
    commit: CommitView,
    root_id: Seq<u8>,
)
    ensures
        selected(a + b, root_id) == selected(a, root_id) + selected(b, root_id),
        commit.id != root_id ==> selected(seq![commit], root_id) == seq![commit],
        commit.id == root_id ==> selected(seq![commit], root_id).len() == 0,
        selected(Seq::<CommitView>::empty(), root_id).len() == 0,
{
    let keep = |c: CommitView| c.id != root_id;
    Seq::filter_distributes_over_add(a, b, keep);
    reveal(Seq::filter);
    let one = seq![commit];
    assert(one.drop_last() =~= Seq::<CommitView>::empty());
    assert(one.drop_last().filter(keep) =~= Seq::<CommitView>::empty());
    if commit.id != root_id {
        assert(one.filter(keep) =~= one);
    }
}

/// A run takes its command, its directory and its platform as they are given, and its
/// number of jobs from the arguments if they give one above zero, else from the
/// cores. It has nothing to show yet, and it is finished at once exactly if there is
/// no commit to run on.
pub proof fn law_run_takes_its_arguments<E>(
    args: RunArgs,
    resolved: Seq<CommitView>,
    root_id: Seq<u8>,
    cores: Option<usize>,
    subdir: Seq<Seq<u8>>,
    windows: bool,
)
    ensures
        ({
            let command = new_command::<E>(args, resolved, root_id, cores, subdir, windows);
            &&& command.shell_command == args.shell_command@
            &&& command.subdir == subdir
            &&& command.subdir_text == shown(subdir, windows)
            &&& command.windows == windows
            &&& command.commits == selected(resolved, root_id)
            &&& args.jobs is Some && args.jobs->0 >= 1 ==> command.jobs == args.jobs->0
            &&& (args.jobs is None || args.jobs == Some(0usize)) && cores is Some ==> command.jobs
                == cores->0
            &&& (args.jobs is None || args.jobs == Some(0usize)) && cores is None ==> command.jobs
                == 1
            &&& command.visited == 0 && command.count == 0
            &&& command.rewrites == Map::<Seq<u8>, Seq<u8>>::empty()
            &&& command.action() is None <==> command.commits.len() == 0
            &&& command.commits.len() == 0 ==> command.stage == CommandStageView::<E>::Finished(
                Ok(()),
            )
        }),
{
    if args.jobs is Some && args.jobs->0 >= 1 {
        law_requested_jobs_count(args.jobs->0, cores);
    } else {
        law_cores_count_otherwise(args.jobs, cores);
    }
}

/// The job at each position is that of the commit there, with the command and the
/// directory of the run, and it has yet to begin.
pub proof fn law_job_of_each_commit<E>(command: RunCommandView<E>, index: int)
    requires
        0 <= index < command.commits.len(),
    ensures
        new_job(command, index).commit == command.commits[index],
        new_job(command, index).shell_command == command.shell_command,
        new_job(command, index).subdir == command.subdir,
        new_job(command, index).windows == command.windows,
        new_job(command, index).action() == Some(
            JobActionView::ProbePath(seq!["run"@, "default"@, hex_of(command.commits[index].id)]),
        ),
{
    law_names_of_a_commit(command.commits[index].id);
}

/// Lists of commits, of ids and of emissions are what is in them, one for one.
pub proof fn law_lists_one_by_one(
    commits: Seq<Commit>,
    ids: Seq<CommitId>,
    emissions: Seq<Emission>,
    i: int,
)
    ensures
        commits_view(commits).len() == commits.len(),
        0 <= i < commits.len() ==> commits_view(commits)[i] == commits[i]@,
        ids_view(ids).len() == ids.len(),
        0 <= i < ids.len() ==> ids_view(ids)[i] == ids[i].bytes@,
        emissions_view(emissions).len() == emissions.len(),
        0 <= i < emissions.len() ==> match emissions[i] {
            Emission::Stdout(bytes) => emissions_view(emissions)[i] == EmissionView::Stdout(bytes@),
            Emission::Stderr(bytes) => emissions_view(emissions)[i] == EmissionView::Stderr(bytes@),
            Emission::StderrLine(line) => emissions_view(emissions)[i] == EmissionView::StderrLine(
                line@,
            ),
        },
{
}

/// What a run asks for, and what comes of it, is said in full.
pub proof fn law_run_actions_are_said<E>(action: CommandAction, event: CommandEvent<E>)
    ensures
        match action {
            CommandAction::CheckRewritable(ids) => action@ == CommandActionView::CheckRewritable(
                ids_view(ids@),
            ),
            CommandAction::ProbePath(path) => action@ == CommandActionView::ProbePath(path@),
            CommandAction::CreateDirAll(path) => action@ == CommandActionView::CreateDirAll(path@),
            CommandAction::RunJobs => action@ is RunJobs,
            CommandAction::Receive => action@ is Receive,
            CommandAction::Write(emission) => action@ == CommandActionView::Write(emission@),
            CommandAction::RemoveDirAll(path) => action@ == CommandActionView::RemoveDirAll(path@),
            CommandAction::Transform(ids) => action@ == CommandActionView::Transform(
                ids_view(ids@),
            ),
            CommandAction::Finish(text) => action@ == CommandActionView::Finish(text@),
        },
        match event {
            CommandEvent::Done => event@ is Done,
            CommandEvent::Failed(e) => event@ == CommandEventView::Failed(e),
            CommandEvent::Probed(answer) => event@ == CommandEventView::<E>::Probed(answer),
            CommandEvent::Ran(result) => {
                &&& event@ is Ran
                &&& event@->Ran_0 is Ok <==> result is Ok
                &&& result matches Err(error) ==> event@->Ran_0 == Err::<(), RunErrorView<E>>(error@)
            },
            CommandEvent::Received(None) => event@ == CommandEventView::<E>::Received(None),
            CommandEvent::Received(Some(job)) => event@ == CommandEventView::<E>::Received(
                Some(job@),
            ),
        },
{
}

/// A run says what is in each of its parts, and once it is finished, how.
pub proof fn law_run_is_said<E>(command: RunCommand<E>)
    ensures
        command@.shell_command == command.shell_command@,
        command@.subdir == command.subdir@,
        command@.subdir_text == command.subdir_text@,
        command@.windows == command.windows,
        command@.jobs == command.jobs,
        command@.commits == commits_view(command.commits@),
        command@.rewrites == command.rewrites@,
        command@.visited == command.visited,
        command@.count == command.count,
        command.stage is Finished <==> command@.stage is Finished,
        command.stage matches CommandStage::Finished(Ok(_)) ==> command@.stage
            == CommandStageView::<E>::Finished(Ok(())),
        command.stage matches CommandStage::Finished(Err(error)) ==> command@.stage
            == CommandStageView::<E>::Finished(Err(error@)),
        command.stage matches CommandStage::Write(left) ==> command@.stage
            == CommandStageView::<E>::Write(emissions_view(left@)),
{
}

} // verus!
