//! The jobs of a run, started and waited for.

use crate::error::{RunError, RunErrorView};
use crate::job::{job_result_view, JobResult, RunJob, RunJobView};
use vstd::prelude::*;

verus! {

/// What the dispatcher needs done next.
#[derive(Clone, Copy, Debug, PartialEq, Eq)]
pub enum DispatchAction {
    /// Start the job on the commit at this position.
    Start(usize),
    /// Wait until one of the jobs that were started ends.
    Join,
    /// Hand over the job that ended last.
    Deliver,
}

/// How far the dispatcher has come.
#[derive(Debug)]
pub enum DispatchStage<E> {
    /// There are jobs to start or to wait for.
    Running,
    /// A job has ended and is being handed over.
    Delivering,
    /// There is nothing left to do.
    Finished(Result<(), RunError<E>>),
}

/// What a `DispatchStage` says.
pub enum DispatchStageView<E> {
    Running,
    Delivering,
    Finished(Result<(), RunErrorView<E>>),
}

/// What the result of a dispatch says.
pub open spec fn dispatch_result_view<E>(result: Result<(), RunError<E>>) -> Result<
    (),
    RunErrorView<E>,
> {
    match result {
        Ok(()) => Ok(()),
        Err(error) => Err(error@),
    }
}

impl<E> View for DispatchStage<E> {
    type V = DispatchStageView<E>;

    open spec fn view(&self) -> DispatchStageView<E> {
        match *self {
            DispatchStage::Running => DispatchStageView::Running,
            DispatchStage::Delivering => DispatchStageView::Delivering,
            DispatchStage::Finished(result) => DispatchStageView::Finished(
                dispatch_result_view(result),
            ),
        }
    }
}

/// Starts the jobs of a run in order, at most `limit` at a time, and hands
/// over each as it ends.
#[derive(Debug)]
pub struct Dispatcher<E> {
    /// How many jobs there are.
    pub total: usize,
    /// How many run in parallel.
    pub limit: usize,
    /// How many were started.
    pub started: usize,
    /// How many of these have ended.
    pub joined: usize,
    pub stage: DispatchStage<E>,
}

/// What a `Dispatcher` says.
pub struct DispatcherView<E> {
    pub total: nat,
    pub limit: nat,
    pub started: nat,
    pub joined: nat,
    pub stage: DispatchStageView<E>,
}

impl<E> View for Dispatcher<E> {
    type V = DispatcherView<E>;

    open spec fn view(&self) -> DispatcherView<E> {
        DispatcherView {
            total: self.total as nat,
            limit: self.limit as nat,
            started: self.started as nat,
            joined: self.joined as nat,
            stage: self.stage@,
        }
    }
}

/// How a job ended: with its result, or by breaking down.
pub enum JoinView<E> {
    Ended(Result<RunJobView, RunErrorView<E>>),
    Broken(E),
}

/// What came of an action of the dispatcher.
pub enum DispatchEventView<E> {
    /// The job was started.
    Started,
    /// A job ended.
    Joined(JoinView<E>),
    /// The job was handed over, or there was nobody left to take it.
    Delivered(bool),
}

/// What came of waiting for a job.
pub open spec fn join_view<E>(joined: Result<JobResult<E>, E>) -> JoinView<E> {
    match joined {
        Ok(result) => JoinView::Ended(job_result_view(result)),
        Err(e) => JoinView::Broken(e),
    }
}

/// The dispatcher of `total` jobs, before any was started.
pub open spec fn new_dispatcher<E>(total: nat, limit: nat) -> DispatcherView<E> {
    DispatcherView {
        total,
        limit,
        started: 0,
        joined: 0,
        stage: if total == 0 {
            DispatchStageView::Finished(Ok(()))
        } else {
            DispatchStageView::Running
        },
    }
}

impl<E> DispatcherView<E> {
    /// Whether the numbers fit together.
    pub open spec fn well_formed(self) -> bool {
        &&& self.limit >= 1
        &&& self.joined <= self.started <= self.total
        &&& self.started - self.joined <= self.limit
        &&& self.stage is Running ==> self.joined < self.total
        &&& self.stage is Delivering ==> self.joined >= 1
    }

    /// Whether another job can be started.
    pub open spec fn may_start(self) -> bool {
        self.started < self.total && self.started - self.joined < self.limit
    }

    /// What is to be done next; nothing once everything is done.
    pub open spec fn action(self) -> Option<DispatchAction> {
        match self.stage {
            DispatchStageView::Running => if self.may_start() {
                Some(DispatchAction::Start(self.started as usize))
            } else {
                Some(DispatchAction::Join)
            },
            DispatchStageView::Delivering => Some(DispatchAction::Deliver),
            DispatchStageView::Finished(_) => None,
        }
    }

    /// Whether `event` can come of the action that is waited for.
    pub open spec fn accepts(self, event: DispatchEventView<E>) -> bool {
        match event {
            DispatchEventView::Started => self.stage is Running && self.may_start(),
            DispatchEventView::Joined(_) => self.stage is Running && !self.may_start(),
            DispatchEventView::Delivered(_) => self.stage is Delivering,
        }
    }

    /// The dispatcher after `event`. The first failure of a job is the failure
    /// of all, and with nobody left to take the jobs there is nothing to do.
    pub open spec fn next(self, event: DispatchEventView<E>) -> DispatcherView<E>
        recommends
            self.accepts(event),
    {
        match event {
            DispatchEventView::Started => DispatcherView { started: self.started + 1, ..self },
            DispatchEventView::Joined(join) => DispatcherView {
                joined: self.joined + 1,
                stage: match join {
                    JoinView::Ended(Ok(_)) => DispatchStageView::Delivering,
                    JoinView::Ended(Err(error)) => DispatchStageView::Finished(Err(error)),
                    JoinView::Broken(e) => DispatchStageView::Finished(
                        Err(RunErrorView::JobFailure(e)),
                    ),
                },
                ..self
            },
            DispatchEventView::Delivered(open) => DispatcherView {
                stage: if open && self.joined < self.total {
                    DispatchStageView::Running
                } else {
                    DispatchStageView::Finished(Ok(()))
                },
                ..self
            },
        }
    }
}

impl<E> Dispatcher<E> {
    /// The dispatcher of `total` jobs, at most `limit` of which run in
    /// parallel.
    pub fn new(total: usize, limit: usize) -> (dispatcher: Dispatcher<E>)
        requires
            limit >= 1,
        ensures
            dispatcher@ == new_dispatcher::<E>(total as nat, limit as nat),
            dispatcher@.well_formed(),
    {
        let stage = if total == 0 {
            DispatchStage::Finished(Ok(()))
        } else {
            DispatchStage::Running
        };
        Dispatcher { total, limit, started: 0, joined: 0, stage }
    }

    /// What is to be done next; nothing once everything is done.
    pub fn action(&self) -> (action: Option<DispatchAction>)
        requires
            self@.well_formed(),
        ensures
            action == self@.action(),
    {
        match &self.stage {
            DispatchStage::Running => {
                if self.started < self.total && self.started - self.joined < self.limit {
                    Some(DispatchAction::Start(self.started))
                } else {
                    Some(DispatchAction::Join)
                }
            },
            DispatchStage::Delivering => Some(DispatchAction::Deliver),
            DispatchStage::Finished(_) => None,
        }
    }

    /// Notes that the next job was started.
    pub fn started(self) -> (dispatcher: Dispatcher<E>)
        requires
            self@.well_formed(),
            self@.accepts(DispatchEventView::Started),
        ensures
            dispatcher@ == self@.next(DispatchEventView::Started),
            dispatcher@.well_formed(),
    {
        Dispatcher { started: self.started + 1, ..self }
    }

    /// Notes how a job ended, and gives back what is to be handed over.
    pub fn joined(self, joined: Result<JobResult<E>, E>) -> (after: (
        Dispatcher<E>,
        Option<RunJob>,
    ))
        requires
            self@.well_formed(),
            self@.accepts(DispatchEventView::Joined(join_view(joined))),
        ensures
            after.0@ == self@.next(DispatchEventView::Joined(join_view(joined))),
            after.0@.well_formed(),
            match after.1 {
                Some(job) => join_view(joined) == JoinView::<E>::Ended(Ok(job@)),
                None => !(join_view(joined) matches JoinView::Ended(Ok(_))),
            },
    {
        let (stage, job) = match joined {
            Ok(Ok(job)) => (DispatchStage::Delivering, Some(job)),
            Ok(Err(error)) => (DispatchStage::Finished(Err(error)), None),
            Err(e) => (DispatchStage::Finished(Err(RunError::JobFailure(e))), None),
        };
        (Dispatcher { joined: self.joined + 1, stage, ..self }, job)
    }

    /// Notes that a job was handed over, or that there was nobody left to take
    /// it.
    pub fn delivered(self, open: bool) -> (dispatcher: Dispatcher<E>)
        requires
            self@.well_formed(),
            self@.accepts(DispatchEventView::Delivered(open)),
        ensures
            dispatcher@ == self@.next(DispatchEventView::Delivered(open)),
            dispatcher@.well_formed(),
    {
        let stage = if open && self.joined < self.total {
            DispatchStage::Running
        } else {
            DispatchStage::Finished(Ok(()))
        };
        Dispatcher { stage, ..self }
    }

    /// The result of the dispatch, once there is nothing left to do.
    pub fn into_result(self) -> (result: Result<(), RunError<E>>)
        requires
            self@.stage is Finished,
        ensures
            self@.stage == DispatchStageView::Finished(dispatch_result_view(result)),
    {
        match self.stage {
            DispatchStage::Finished(result) => result,
            _ => unreached(),
        }
    }
}

/// The dispatcher after `events`.
pub open spec fn dispatcher_after<E>(
    dispatcher: DispatcherView<E>,
    events: Seq<DispatchEventView<E>>,
) -> DispatcherView<E>
    decreases events.len(),
{
    if events.len() == 0 {
        dispatcher
    } else {
        dispatcher_after(dispatcher, events.drop_last()).next(events.last())
    }
}

/// Whether `events` can come, one after the other, of the actions of the
/// dispatcher.
pub open spec fn dispatch_history<E>(
    dispatcher: DispatcherView<E>,
    events: Seq<DispatchEventView<E>>,
) -> bool
    decreases events.len(),
{
    events.len() == 0 || {
        &&& dispatch_history(dispatcher, events.drop_last())
        &&& dispatcher_after(dispatcher, events.drop_last()).accepts(events.last())
    }
}

/// The jobs that ended well, in the order in which they ended.
pub open spec fn ended_jobs<E>(events: Seq<DispatchEventView<E>>) -> Seq<RunJobView>
    decreases events.len(),
{
    if events.len() == 0 {
        Seq::empty()
    } else {
        let before = ended_jobs(events.drop_last());
        match events.last() {
            DispatchEventView::Joined(JoinView::Ended(Ok(job))) => before.push(job),
            _ => before,
        }
    }
}

/// How many jobs `events` started.
pub open spec fn starts<E>(events: Seq<DispatchEventView<E>>) -> nat
    decreases events.len(),
{
    if events.len() == 0 {
        0
    } else {
        starts(events.drop_last()) + if events.last() is Started {
            1nat
        } else {
            0nat
        }
    }
}

/// At no time do more jobs run than the limit allows, and the numbers fit
/// together.
pub proof fn law_parallel_limit<E>(
    total: nat,
    limit: nat,
    events: Seq<DispatchEventView<E>>,
)
    requires
        limit >= 1,
        dispatch_history(new_dispatcher(total, limit), events),
    ensures
        dispatcher_after(new_dispatcher(total, limit), events).well_formed(),
        ({
            let d = dispatcher_after(new_dispatcher(total, limit), events);
            &&& d.total == total
            &&& d.limit == limit
            &&& 0 <= d.started - d.joined <= limit
        }),
    decreases events.len(),
{
    if events.len() > 0 {
        law_parallel_limit(total, limit, events.drop_last());
    }
}

/// When the end of a job is waited for, some job is running.
pub proof fn law_join_has_a_job<E>(dispatcher: DispatcherView<E>)
    requires
        dispatcher.well_formed(),
        dispatcher.action() == Some(DispatchAction::Join),
    ensures
        dispatcher.joined < dispatcher.started,
{
}

proof fn lemma_starts<E>(total: nat, limit: nat, events: Seq<DispatchEventView<E>>)
    requires
        limit >= 1,
        dispatch_history(new_dispatcher(total, limit), events),
    ensures
        dispatcher_after(new_dispatcher(total, limit), events).started == starts(events),
    decreases events.len(),
{
    if events.len() > 0 {
        lemma_starts(total, limit, events.drop_last());
    }
}

/// The jobs are started in the order of their commits, each once.
pub proof fn law_started_in_order<E>(total: usize, limit: nat, events: Seq<DispatchEventView<E>>)
    requires
        limit >= 1,
        dispatch_history(new_dispatcher(total as nat, limit), events),
    ensures
        dispatcher_after(new_dispatcher(total as nat, limit), events).started == starts(events),
        dispatcher_after(new_dispatcher(total as nat, limit), events).action() matches Some(
            DispatchAction::Start(i),
        ) ==> i == starts(events) && i < total,
{
    law_parallel_limit(total as nat, limit, events);
    lemma_starts(total as nat, limit, events);
}

proof fn lemma_prefix<E>(
    dispatcher: DispatcherView<E>,
    events: Seq<DispatchEventView<E>>,
    k: int,
)
    requires
        dispatch_history(dispatcher, events),
        0 <= k <= events.len(),
    ensures
        dispatch_history(dispatcher, events.take(k)),
        k < events.len() ==> {
            &&& dispatcher_after(dispatcher, events.take(k)).accepts(events[k])
            &&& dispatcher_after(dispatcher, events.take(k + 1)) == dispatcher_after(
                dispatcher,
                events.take(k),
            ).next(events[k])
        },
    decreases events.len(),
{
    if k == events.len() {
        assert(events.take(k) =~= events);
    } else {
        let shorter = events.drop_last();
        if k == events.len() - 1 {
            assert(events.take(k) =~= shorter);
            assert(events.take(k + 1) =~= events);
        } else {
            lemma_prefix(dispatcher, shorter, k);
            assert(shorter.take(k) =~= events.take(k));
            assert(shorter.take(k + 1) =~= events.take(k + 1));
        }
    }
}

/// The first job that fails ends the dispatch with its error, and a job that
/// breaks down ends it as a failed job.
pub proof fn law_first_failure_ends_dispatch<E>(
    dispatcher: DispatcherView<E>,
    events: Seq<DispatchEventView<E>>,
    k: int,
)
    requires
        dispatch_history(dispatcher, events),
        0 <= k < events.len(),
        events[k] matches DispatchEventView::Joined(join) && !(join matches JoinView::Ended(
            Ok(_),
        )),
    ensures
        k == events.len() - 1,
        dispatcher_after(dispatcher, events).stage == DispatchStageView::Finished(
            match events[k]->Joined_0 {
                JoinView::Ended(result) => Err(result->Err_0),
                JoinView::Broken(e) => Err(RunErrorView::<E>::JobFailure(e)),
            },
        ),
{
    lemma_prefix(dispatcher, events, k);
    lemma_prefix(dispatcher, events, k + 1);
    assert(events.take(events.len() as int) =~= events);
}

/// A dispatch fails only with the failure of a job.
pub proof fn law_dispatch_fails_with_a_job<E>(
    total: nat,
    limit: nat,
    events: Seq<DispatchEventView<E>>,
    error: RunErrorView<E>,
)
    requires
        dispatch_history(new_dispatcher(total, limit), events),
        dispatcher_after(new_dispatcher(total, limit), events).stage
            == DispatchStageView::<E>::Finished(Err(error)),
    ensures
        events.len() > 0,
        events.last() == DispatchEventView::<E>::Joined(JoinView::Ended(Err(error))) || exists|e: E|
            #![auto]
            events.last() == DispatchEventView::Joined(JoinView::Broken(e)) && error
                == RunErrorView::JobFailure(e),
{
}

proof fn lemma_jobs_ended<E>(total: nat, limit: nat, events: Seq<DispatchEventView<E>>)
    requires
        limit >= 1,
        dispatch_history(new_dispatcher(total, limit), events),
        !(dispatcher_after(new_dispatcher(total, limit), events).stage matches
            DispatchStageView::Finished(Err(_))),
    ensures
        ended_jobs(events).len() == dispatcher_after(new_dispatcher(total, limit), events).joined,
    decreases events.len(),
{
    if events.len() > 0 {
        lemma_jobs_ended(total, limit, events.drop_last());
    }
}

/// As many jobs are handed over as there are commits, at most; so a queue with
/// room for one per commit never fills up.
pub proof fn law_deliveries_fit<E>(total: nat, limit: nat, events: Seq<DispatchEventView<E>>)
    requires
        limit >= 1,
        dispatch_history(new_dispatcher(total, limit), events),
    ensures
        ended_jobs(events).len() <= total,
{
    law_parallel_limit(total, limit, events);
    if events.len() > 0 {
        let before = events.drop_last();
        law_parallel_limit(total, limit, before);
        lemma_jobs_ended(total, limit, before);
    }
}

/// A dispatch that succeeds, with somebody to take the jobs to the end, has
/// handed over the result of every job.
pub proof fn law_dispatch_complete<E>(total: nat, limit: nat, events: Seq<DispatchEventView<E>>)
    requires
        limit >= 1,
        dispatch_history(new_dispatcher(total, limit), events),
        dispatcher_after(new_dispatcher(total, limit), events).stage
            == DispatchStageView::<E>::Finished(Ok(())),
        !events.contains(DispatchEventView::Delivered(false)),
    ensures
        starts(events) == total,
        ended_jobs(events).len() == total,
{
    law_parallel_limit(total, limit, events);
    lemma_jobs_ended(total, limit, events);
    lemma_starts(total, limit, events);
    if events.len() > 0 {
        assert(events.last() == events[events.len() - 1]);
        law_parallel_limit(total, limit, events.drop_last());
    }
}

/// With nobody left to take the jobs, the dispatch ends without an error.
pub proof fn law_closed_receiver_ends_dispatch<E>(
    dispatcher: DispatcherView<E>,
    events: Seq<DispatchEventView<E>>,
    k: int,
)
    requires
        dispatch_history(dispatcher, events),
        0 <= k < events.len(),
        events[k] == DispatchEventView::<E>::Delivered(false),
    ensures
        k == events.len() - 1,
        dispatcher_after(dispatcher, events).stage == DispatchStageView::<E>::Finished(Ok(())),
{
    lemma_prefix(dispatcher, events, k);
    lemma_prefix(dispatcher, events, k + 1);
    assert(events.take(events.len() as int) =~= events);
}

proof fn lemma_steps<E>(total: nat, limit: nat, events: Seq<DispatchEventView<E>>)
    requires
        limit >= 1,
        dispatch_history(new_dispatcher(total, limit), events),
    ensures
        ({
            let d = dispatcher_after(new_dispatcher(total, limit), events);
            &&& events.len() <= d.started + 2 * d.joined
            &&& d.stage is Delivering ==> events.len() < d.started + 2 * d.joined
        }),
    decreases events.len(),
{
    if events.len() > 0 {
        lemma_steps(total, limit, events.drop_last());
        law_parallel_limit(total, limit, events.drop_last());
    }
}

/// A dispatch ends: each job is started, waited for and handed over once.
pub proof fn law_dispatch_ends<E>(total: nat, limit: nat, events: Seq<DispatchEventView<E>>)
    requires
        limit >= 1,
        dispatch_history(new_dispatcher(total, limit), events),
    ensures
        events.len() <= 3 * total,
    decreases events.len(),
{
    law_parallel_limit(total, limit, events);
    lemma_steps(total, limit, events);
}

/// The jobs run as many at a time as the limit allows: the end of a job is waited
/// for only when all were started or as many run as may. The next job in order is
/// started whenever there is room for it.
pub proof fn law_no_room_is_left<E>(dispatcher: DispatcherView<E>)
    requires
        dispatcher.well_formed(),
        dispatcher.total <= usize::MAX,
    ensures
        dispatcher.action() == Some(DispatchAction::Join) ==> dispatcher.joined
            < dispatcher.started && (dispatcher.started == dispatcher.total || dispatcher.started
            - dispatcher.joined == dispatcher.limit),
        dispatcher.action() matches Some(DispatchAction::Start(i)) ==> i == dispatcher.started
            && dispatcher.started < dispatcher.total && dispatcher.started - dispatcher.joined
            < dispatcher.limit,
        dispatcher.action() is None <==> dispatcher.stage is Finished,
        dispatcher.action() == Some(DispatchAction::Deliver) <==> dispatcher.stage is Delivering,
{
}

/// What can come of each action: a job that is to be started is started, one that is
/// waited for ends, in whatever way, and one that is to be handed over is taken or
/// not.
pub proof fn law_dispatch_events_fit<E>(
    dispatcher: DispatcherView<E>,
    event: DispatchEventView<E>,
)
    requires
        dispatcher.well_formed(),
    ensures
        dispatcher.accepts(event) <==> match dispatcher.action() {
            Some(DispatchAction::Start(_)) => event is Started,
            Some(DispatchAction::Join) => event is Joined,
            Some(DispatchAction::Deliver) => event is Delivered,
            None => false,
        },
{
}

/// A job that ended well is handed over next. Once it was taken, the dispatch goes
/// on exactly if there are jobs that have not ended. Each event counts for what it
/// is.
pub proof fn law_ended_jobs_are_handed_over<E>(
    dispatcher: DispatcherView<E>,
    event: DispatchEventView<E>,
)
    requires
        dispatcher.well_formed(),
        dispatcher.accepts(event),
    ensures
        ({
            let after = dispatcher.next(event);
            &&& after.total == dispatcher.total && after.limit == dispatcher.limit
            &&& after.started - dispatcher.started == if event is Started {
                1int
            } else {
                0int
            }
            &&& after.joined - dispatcher.joined == if event is Joined {
                1int
            } else {
                0int
            }
            &&& event is Started ==> after.stage is Running
            &&& event matches DispatchEventView::Joined(JoinView::Ended(Ok(_))) ==> after.action()
                == Some(DispatchAction::Deliver)
            &&& event == DispatchEventView::<E>::Delivered(true) ==> (after.action() is None
                <==> dispatcher.joined == dispatcher.total)
            &&& event is Delivered && after.action() is None ==> after.stage
                == DispatchStageView::<E>::Finished(Ok(()))
        }),
{
}

/// A dispatch begins with no job started, and there is something to do exactly if
/// there are jobs.
pub proof fn law_dispatch_begins<E>(total: nat, limit: nat)
    ensures
        ({
            let dispatcher = new_dispatcher::<E>(total, limit);
            &&& dispatcher.total == total && dispatcher.limit == limit
            &&& dispatcher.started == 0 && dispatcher.joined == 0
            &&& total > 0 ==> dispatcher.stage is Running
            &&& total == 0 ==> dispatcher.stage == DispatchStageView::<E>::Finished(Ok(()))
        }),
{
}

/// A dispatcher says what is in each of its parts, and a job that was waited for how
/// it ended.
pub proof fn law_dispatch_is_said<E>(
    dispatcher: Dispatcher<E>,
    joined: Result<JobResult<E>, E>,
)
    ensures
        dispatcher@.total == dispatcher.total,
        dispatcher@.limit == dispatcher.limit,
        dispatcher@.started == dispatcher.started,
        dispatcher@.joined == dispatcher.joined,
        dispatcher.stage matches DispatchStage::Finished(Ok(_)) ==> dispatcher@.stage
            == DispatchStageView::<E>::Finished(Ok(())),
        dispatcher.stage matches DispatchStage::Finished(Err(error)) ==> dispatcher@.stage
            == DispatchStageView::<E>::Finished(Err(error@)),
        dispatcher.stage is Running <==> dispatcher@.stage is Running,
        dispatcher.stage is Delivering <==> dispatcher@.stage is Delivering,
        joined matches Ok(Ok(job)) ==> join_view(joined) == JoinView::<E>::Ended(Ok(job@)),
        joined matches Ok(Err(error)) ==> join_view(joined) == JoinView::<E>::Ended(Err(error@)),
        joined matches Err(e) ==> join_view(joined) == JoinView::Broken(e),
{
}

} // verus!
