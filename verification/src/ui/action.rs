//! Deferred actions and the scheduler that executes them in rounds.

use crate::position::Position;
use crate::ui::error::Error;
use crate::ui::event::{
    Event, handled, Handler, HandlerId, listener, Listener, notification, registered,
};
use crate::ui::spatial::{moved, set_position};
use crate::ui::widget::{Context, ManagerView, WidgetId};
use vstd::prelude::*;

verus! {

/// An action to be executed at some later point
#[derive(Clone, Copy, Debug, PartialEq, Eq, Structural)]
pub enum Action {
    /// Moves the widget
    SetPosition(Position),
    /// Lets the widget handle an event of which a handler of the widget
    /// was notified. The handler is named by the id under which it is
    /// registered; the registry is the one that the widget that scheduled
    /// the action has for the events of this kind
    Handle(HandlerId, Handler, Event),
}

/// A scheduled action
#[derive(Clone, Copy, Debug, PartialEq, Eq, Structural)]
pub struct ScheduledAction {
    /// The ID of the widget that scheduled the action
    pub source_id: WidgetId,
    /// The ID of the widget that must execute the action
    pub target_id: WidgetId,
    /// The action
    pub action: Action,
}

/// What executing something comes to: the state afterwards, the actions that
/// were scheduled on the way, and whether it succeeded.
pub struct Outcome {
    /// The state afterwards
    pub state: ManagerView,
    /// The actions that were scheduled, the first one first
    pub scheduled: Seq<ScheduledAction>,
    /// Whether it succeeded
    pub result: Result<(), Error>,
}

impl Outcome {
    /// The outcome of what changes nothing and schedules nothing.
    pub open spec fn unchanged(state: ManagerView) -> Outcome {
        Outcome { state, scheduled: Seq::empty(), result: Ok(()) }
    }

    /// The outcome of what fails before it has changed or scheduled
    /// anything.
    pub open spec fn failed(state: ManagerView, error: Error) -> Outcome {
        Outcome { state, scheduled: Seq::empty(), result: Err(error) }
    }

    /// Whether the outcome describes a run: the state afterwards is `state`,
    /// the scheduler holds what it held before and behind it what was
    /// scheduled, and the result is `result`.
    pub open spec fn describes(
        self,
        state: ManagerView,
        before: Seq<ScheduledAction>,
        after: Seq<ScheduledAction>,
        result: Result<(), Error>,
    ) -> bool {
        &&& state == self.state
        &&& after == before + self.scheduled
        &&& result == self.result
    }
}

/// Whether the handler of a notification is still there: the registry that
/// the source widget has for the events of this kind holds, under the id of
/// the handler, the listener with which the target widget runs this handler.
pub open spec fn still_registered(
    state: ManagerView,
    source_id: WidgetId,
    target_id: WidgetId,
    handler_id: HandlerId,
    handler: Handler,
    event: Event,
) -> bool {
    registered(state, source_id, event, handler_id) == Some(Listener { target_id, handler })
}

/// What executing a scheduled action comes to. An action whose target is
/// gone does nothing, and so does a notification whose handler is gone:
/// that was removed from its registry, or whose registry is gone with its
/// widget or component.
pub open spec fn acted(state: ManagerView, action: ScheduledAction) -> Outcome {
    if state.widget(action.target_id).is_none() {
        Outcome::unchanged(state)
    } else {
        match action.action {
            Action::SetPosition(position) => moved(state, action.target_id, position),
            Action::Handle(handler_id, handler, event) => {
                if still_registered(
                    state,
                    action.source_id,
                    action.target_id,
                    handler_id,
                    handler,
                    event,
                ) {
                    handled(state, action.source_id, action.target_id, handler, event)
                } else {
                    Outcome::unchanged(state)
                }
            },
        }
    }
}

/// A notification whose handler is gone does nothing: where the registry of
/// the source widget no longer holds the listener under the id of the
/// handler, executing the action changes nothing, schedules nothing, and
/// succeeds.
pub proof fn lemma_handler_gone(
    state: ManagerView,
    source_id: WidgetId,
    handler_id: HandlerId,
    listener: Listener,
    event: Event,
)
    requires
        registered(state, source_id, event, handler_id) != Some(listener),
    ensures
        acted(state, notification(source_id, handler_id as int, listener, event))
            == Outcome::unchanged(state),
{
}

/// What executing the first `n` actions of a queue in their order comes to.
/// The actions that they schedule are collected and not executed. The first
/// action that fails ends the round: the actions behind it are not executed
/// in this round.
pub open spec fn round(state: ManagerView, queue: Seq<ScheduledAction>, n: int) -> Outcome
    decreases n,
{
    if n <= 0 {
        Outcome::unchanged(state)
    } else {
        let before = round(state, queue, n - 1);
        if before.result.is_err() {
            before
        } else {
            let step = acted(before.state, queue[n - 1]);
            Outcome {
                state: step.state,
                scheduled: before.scheduled + step.scheduled,
                result: step.result,
            }
        }
    }
}

/// The number of the actions among the first `n` of a queue that a round
/// executes: all of them, or those up to the first one that fails.
pub open spec fn executed(state: ManagerView, queue: Seq<ScheduledAction>, n: int) -> int
    decreases n,
{
    if n <= 0 {
        0
    } else if round(state, queue, n - 1).result.is_err() {
        executed(state, queue, n - 1)
    } else {
        n
    }
}

/// The actions of a queue that a round does not execute: none, or those
/// behind the action that failed.
pub open spec fn left_over(state: ManagerView, queue: Seq<ScheduledAction>) -> Seq<
    ScheduledAction,
> {
    queue.skip(executed(state, queue, queue.len() as int))
}

/// What a round that has failed leaves behind: no action is lost but the one
/// that failed. The actions of the queue that were not executed stay
/// scheduled, in front of those that the round has scheduled.
pub open spec fn broken_off(state: ManagerView, queue: Seq<ScheduledAction>) -> Outcome {
    let first = round(state, queue, queue.len() as int);
    Outcome {
        state: first.state,
        scheduled: left_over(state, queue) + first.scheduled,
        result: first.result,
    }
}

/// What executing a queue in rounds comes to, where at most `runs` rounds
/// are run. Each round executes the whole queue, and what it scheduled is
/// the queue of the next round. The rounds end when a queue is empty; with
/// the error of the action that failed, when one fails; and with
/// `ActionLoop`, when the queue is not empty after the last round. The
/// actions that are still scheduled then are the `scheduled` of the
/// outcome.
pub open spec fn settled(state: ManagerView, queue: Seq<ScheduledAction>, runs: nat) -> Outcome
    decreases runs,
{
    if queue.len() == 0 {
        Outcome { state, scheduled: queue, result: Ok(()) }
    } else if runs == 0 {
        Outcome { state, scheduled: queue, result: Err(Error::ActionLoop) }
    } else {
        let first = round(state, queue, queue.len() as int);
        if first.result.is_err() {
            broken_off(state, queue)
        } else {
            settled(first.state, first.scheduled, (runs - 1) as nat)
        }
    }
}

/// A round that has failed stays as it is: no later action of the queue is
/// executed.
pub proof fn lemma_round_stops(state: ManagerView, queue: Seq<ScheduledAction>, k: int, n: int)
    requires
        k <= n,
        round(state, queue, k).result.is_err(),
    ensures
        round(state, queue, n) == round(state, queue, k),
    decreases n - k,
{
    if k < n {
        lemma_round_stops(state, queue, k, n - 1);
    }
}

/// After the action that failed a round executes no action: the number of
/// the actions that it executes stays as it is.
pub proof fn lemma_executed_stops(state: ManagerView, queue: Seq<ScheduledAction>, k: int, n: int)
    requires
        0 < k <= n,
        round(state, queue, k - 1).result.is_ok(),
        round(state, queue, k).result.is_err(),
    ensures
        executed(state, queue, n) == k,
    decreases n - k,
{
    if k < n {
        lemma_round_stops(state, queue, k, n - 1);
        lemma_executed_stops(state, queue, k, n - 1);
    }
}

/// What `k` rounds come to, where no limit ends them: each round executes
/// the whole queue that the round before it has scheduled.
pub open spec fn after_rounds(state: ManagerView, queue: Seq<ScheduledAction>, k: nat) -> Outcome
    decreases k,
{
    if k == 0 {
        Outcome { state, scheduled: queue, result: Ok(()) }
    } else {
        let first = round(state, queue, queue.len() as int);
        if first.result.is_err() {
            broken_off(state, queue)
        } else {
            after_rounds(first.state, first.scheduled, (k - 1) as nat)
        }
    }
}

/// An action that is scheduled during a round does not run in that round:
/// a round executes the actions that were scheduled before it began and no
/// others, and what they schedule is left to the rounds that follow.
pub proof fn lemma_round_defers(state: ManagerView, queue: Seq<ScheduledAction>, runs: nat)
    requires
        queue.len() > 0,
        runs > 0,
        round(state, queue, queue.len() as int).result.is_ok(),
    ensures
        settled(state, queue, runs) == settled(
            round(state, queue, queue.len() as int).state,
            round(state, queue, queue.len() as int).scheduled,
            (runs - 1) as nat,
        ),
{
}

/// A cascade that takes `n` rounds to settle settles in exactly `n` rounds:
/// where the queue is empty after `n` rounds and after no fewer, and no
/// action fails, an execution that may run `n` rounds or more succeeds with
/// the state after `n` rounds, and one that may run fewer ends with
/// `ActionLoop`, in the state after the rounds that it may run and with what
/// they left scheduled.
pub proof fn lemma_rounds_to_settle(
    state: ManagerView,
    queue: Seq<ScheduledAction>,
    n: nat,
    runs: nat,
)
    requires
        forall|k: nat| k <= n ==> (#[trigger] after_rounds(state, queue, k)).result.is_ok(),
        forall|k: nat| k < n ==> (#[trigger] after_rounds(state, queue, k)).scheduled.len() > 0,
        after_rounds(state, queue, n).scheduled.len() == 0,
    ensures
        runs >= n ==> settled(state, queue, runs) == after_rounds(state, queue, n),
        runs < n ==> settled(state, queue, runs) == (Outcome {
            result: Err(Error::ActionLoop),
            ..after_rounds(state, queue, runs)
        }),
    decreases n,
{
    if n == 0 {
        assert(after_rounds(state, queue, 0).scheduled == queue);
    } else {
        assert(after_rounds(state, queue, 0).scheduled.len() > 0);
        if runs > 0 {
            let first = round(state, queue, queue.len() as int);
            assert(after_rounds(state, queue, 1).result.is_ok());
            assert(first.result.is_ok());
            assert forall|k: nat| k <= n - 1 implies (#[trigger] after_rounds(
                first.state,
                first.scheduled,
                k,
            )).result.is_ok() by {
                assert(after_rounds(state, queue, k + 1) == after_rounds(
                    first.state,
                    first.scheduled,
                    k,
                ));
            }
            assert forall|k: nat| k < n - 1 implies (#[trigger] after_rounds(
                first.state,
                first.scheduled,
                k,
            )).scheduled.len() > 0 by {
                assert(after_rounds(state, queue, k + 1) == after_rounds(
                    first.state,
                    first.scheduled,
                    k,
                ));
            }
            assert(after_rounds(state, queue, n) == after_rounds(
                first.state,
                first.scheduled,
                (n - 1) as nat,
            ));
            lemma_rounds_to_settle(
                first.state,
                first.scheduled,
                (n - 1) as nat,
                (runs - 1) as nat,
            );
            if runs < n {
                assert(after_rounds(state, queue, runs) == after_rounds(
                    first.state,
                    first.scheduled,
                    (runs - 1) as nat,
                ));
            }
        }
    }
}

impl ScheduledAction {
    /// Executes the action against its target, to which the context turns
    pub fn execute(
        &self,
        context: &mut Context,
        scheduler: &mut Scheduler,
    ) -> (r: Result<(), Error>)
        requires
            old(context).wf(),
        ensures
            final(context).wf(),
            final(context).current() == self.target_id,
            Outcome::describes(
                acted(old(context)@, *self),
                final(context)@,
                old(scheduler)@,
                final(scheduler)@,
                r,
            ),
    {
        context.focus(self.target_id);
        if !context.has_widget(self.target_id) {
            assert(scheduler@ =~= old(scheduler)@ + Seq::empty());
            return Ok(());
        }
        match &self.action {
            Action::SetPosition(position) => set_position(*position, context, scheduler),
            Action::Handle(handler_id, handler, event) => {
                let found = listener(context, self.source_id, event, *handler_id);
                let wanted = Listener { target_id: self.target_id, handler: *handler };
                if found == Some(wanted) {
                    handler.handle_event(self.source_id, event, context, scheduler)
                } else {
                    assert(scheduler@ =~= old(scheduler)@ + Seq::empty());
                    Ok(())
                }
            },
        }
    }
}

/// A scheduler can be used to execute a list of actions at a later date
#[derive(Debug)]
pub struct Scheduler {
    /// The scheduled actions
    scheduled: Vec<ScheduledAction>,
}

impl View for Scheduler {
    type V = Seq<ScheduledAction>;

    /// The scheduled actions, the one scheduled first at the front.
    closed spec fn view(&self) -> Seq<ScheduledAction> {
        self.scheduled@
    }
}

impl Scheduler {
    /// Creates a new scheduler
    pub fn new() -> (scheduler: Scheduler)
        ensures
            scheduler@ == Seq::<ScheduledAction>::empty(),
    {
        Scheduler { scheduled: Vec::new() }
    }

    /// Schedules an action
    pub fn schedule(&mut self, action: ScheduledAction)
        ensures
            final(self)@ == old(self)@.push(action),
    {
        self.scheduled.push(action);
    }

    /// Executes the scheduled actions in their order against the context;
    /// what they schedule goes to `scheduler`. Ends with the first action
    /// that fails. The actions that were executed are no longer scheduled
    /// afterwards; those behind an action that failed still are
    pub fn execute(
        &mut self,
        context: &mut Context,
        scheduler: &mut Scheduler,
    ) -> (r: Result<(), Error>)
        requires
            old(context).wf(),
        ensures
            final(context).wf(),
            final(self)@ == left_over(old(context)@, old(self)@),
            Outcome::describes(
                round(old(context)@, old(self)@, old(self)@.len() as int),
                final(context)@,
                old(scheduler)@,
                final(scheduler)@,
                r,
            ),
    {
        let mut i: usize = 0;
        assert(scheduler@ =~= old(scheduler)@ + Seq::empty());
        while i < self.scheduled.len()
            invariant
                i <= self.scheduled@.len(),
                self.scheduled@ == old(self)@,
                context.wf(),
                Outcome::describes(
                    round(old(context)@, old(self)@, i as int),
                    context@,
                    old(scheduler)@,
                    scheduler@,
                    Ok(()),
                ),
            decreases self.scheduled@.len() - i,
        {
            let action = self.scheduled[i];
            let ghost before = round(old(context)@, old(self)@, i as int);
            let ghost step = acted(context@, action);
            let result = action.execute(context, scheduler);
            proof {
                assert(scheduler@ =~= old(scheduler)@ + (before.scheduled + step.scheduled));
            }
            match result {
                Ok(()) => {},
                Err(error) => {
                    proof {
                        lemma_round_stops(
                            old(context)@,
                            old(self)@,
                            i + 1,
                            old(self)@.len() as int,
                        );
                        lemma_executed_stops(
                            old(context)@,
                            old(self)@,
                            i + 1,
                            old(self)@.len() as int,
                        );
                    }
                    let rest = self.scheduled.split_off(i + 1);
                    self.scheduled = rest;
                    assert(self.scheduled@ =~= old(self)@.skip(i + 1));
                    return Err(error);
                },
            }
            i += 1;
        }
        self.scheduled.clear();
        assert(self.scheduled@ =~= left_over(old(context)@, old(self)@));
        Ok(())
    }

    /// Whether there are scheduled actions
    pub fn has_scheduled(&self) -> (r: bool)
        ensures
            r == (self@.len() != 0),
    {
        self.scheduled.len() != 0
    }

    /// The number of scheduled actions
    pub fn len(&self) -> (len: usize)
        ensures
            len == self@.len(),
    {
        self.scheduled.len()
    }

    /// The scheduled action at the given place in the queue
    pub fn get(&self, index: usize) -> (r: Option<ScheduledAction>)
        ensures
            r == (if index < self@.len() {
                Some(self@[index as int])
            } else {
                None
            }),
    {
        if index < self.scheduled.len() {
            Some(self.scheduled[index])
        } else {
            None
        }
    }
}

/// Provides schedulers and the way to execute the underlying actions
#[derive(Debug)]
pub struct Actions {
    /// The active scheduler
    scheduler: Scheduler,
    /// The action buffer
    buffer: Scheduler,
    /// The maximum number of runs before a looping action is terminated
    max_runs: usize,
}

impl Actions {
    /// The actions that are scheduled.
    pub closed spec fn scheduled(&self) -> Seq<ScheduledAction> {
        self.scheduler@
    }

    /// The maximum number of rounds of one execution.
    pub closed spec fn limit(&self) -> usize {
        self.max_runs
    }

    /// The invariant of the pair: between two executions the action buffer
    /// is empty.
    pub closed spec fn wf(&self) -> bool {
        self.buffer@.len() == 0
    }

    /// Creates a new actions scheduler pair
    pub fn new(max_runs: usize) -> (actions: Actions)
        ensures
            actions.wf(),
            actions.scheduled() == Seq::<ScheduledAction>::empty(),
            actions.limit() == max_runs,
    {
        Actions { scheduler: Scheduler::new(), buffer: Scheduler::new(), max_runs }
    }

    /// Gets a mutable reference to the active scheduler
    pub fn scheduler_mut(&mut self) -> (scheduler: &mut Scheduler)
        ensures
            scheduler@ == old(self).scheduled(),
            final(self).scheduled() == final(scheduler)@,
            final(self).limit() == old(self).limit(),
            old(self).wf() ==> final(self).wf(),
    {
        &mut self.scheduler
    }

    /// Schedules the actions that are left in the action buffer again, in
    /// front of those that are scheduled
    fn put_back(&mut self)
        ensures
            final(self).scheduler@ == old(self).buffer@ + old(self).scheduler@,
            final(self).buffer@ == Seq::<ScheduledAction>::empty(),
            final(self).max_runs == old(self).max_runs,
    {
        self.buffer.scheduled.append(&mut self.scheduler.scheduled);
        core::mem::swap(&mut self.scheduler, &mut self.buffer);
    }

    /// Executes the scheduled actions in rounds, until a round has
    /// scheduled nothing
    pub fn execute(&mut self, context: &mut Context) -> (r: Result<(), Error>)
        requires
            old(self).wf(),
            old(context).wf(),
        ensures
            final(self).wf(),
            final(context).wf(),
            final(self).limit() == old(self).limit(),
            final(context)@ == settled(
                old(context)@,
                old(self).scheduled(),
                old(self).limit() as nat,
            ).state,
            final(self).scheduled() == settled(
                old(context)@,
                old(self).scheduled(),
                old(self).limit() as nat,
            ).scheduled,
            r == settled(old(context)@, old(self).scheduled(), old(self).limit() as nat).result,
    {
        let mut run: usize = 0;
        loop
            invariant
                self.wf(),
                context.wf(),
                run <= self.max_runs,
                self.max_runs == old(self).max_runs,
                settled(context@, self.scheduler@, (self.max_runs - run) as nat) == settled(
                    old(context)@,
                    old(self).scheduled(),
                    old(self).limit() as nat,
                ),
            decreases self.max_runs - run,
        {
            if !self.scheduler.has_scheduled() {
                return Ok(());
            }
            if run == self.max_runs {
                return Err(Error::ActionLoop);
            }
            run += 1;
            core::mem::swap(&mut self.scheduler, &mut self.buffer);
            let result = self.buffer.execute(context, &mut self.scheduler);
            match result {
                Ok(()) => {},
                Err(error) => {
                    self.put_back();
                    return Err(error);
                },
            }
        }
    }
}

} // verus!
