//! Runs of an operation: what holds after any sequence of events from the bus.

use vstd::prelude::*;

use crate::command::Command;
use crate::laws;
use crate::operation::{self, ActionView, Event, OperationView, Phase, IS_BUSY_LOW};
use crate::panel::{self, Panel};
use crate::protocol::{self, DriverState};
use crate::step::StepView;

verus! {

/// A moment of a run: the driver, the operation and the panel, and the action handed out last.
pub struct Moment {
    pub state: DriverState,
    pub operation: OperationView,
    pub panel: Panel,
    pub action: ActionView,
}

impl Moment {
    /// The moment after one more event, with the action that it led to performed. Where that
    /// event is a failure, the action before it is the one that failed.
    pub open spec fn next(self, event: Event) -> Self {
        let (state, operation, action) = operation::advanced(self.state, self.operation, event);
        let panel = if event == Event::Failed {
            self.panel.interrupted(self.action)
        } else {
            self.panel.acted(action)
        };
        Moment { state, operation, panel, action }
    }

    /// The moment after all of the given events.
    pub open spec fn after(self, events: Seq<Event>) -> Self
        decreases events.len(),
    {
        if events.len() == 0 {
            self
        } else {
            self.after(events.drop_last()).next(events.last())
        }
    }

    /// The start of a run.
    pub open spec fn start(state: DriverState, panel: Panel, plan: Seq<StepView>) -> Self {
        Moment {
            state,
            operation: OperationView { todo: plan, phase: Phase::Waiting },
            panel,
            action: ActionView::DelayMs(0),
        }
    }
}

/// The steps of which nothing has been handed out.
pub open spec fn untouched(operation: OperationView) -> Seq<StepView> {
    if operation.phase == Phase::Waiting || operation.todo.len() == 0 {
        operation.todo
    } else {
        operation.todo.drop_first()
    }
}

/// No write failed.
pub open spec fn no_failure(events: Seq<Event>) -> bool {
    forall|i: int| 0 <= i < events.len() ==> #[trigger] events[i] != Event::Failed
}

/// How many steps of a plan have been handed out, at least in part.
pub open spec fn started(plan: Seq<StepView>, operation: OperationView) -> int {
    plan.len() - untouched(operation).len()
}

/// The driver and the panel are where the first steps of the plan lead, and the rest is to do.
pub open spec fn on_course(
    state: DriverState,
    panel: Panel,
    plan: Seq<StepView>,
    now: Moment,
) -> bool {
    let done = started(plan, now.operation);
    let operation = now.operation;
    &&& 0 <= done <= plan.len()
    &&& untouched(operation) == plan.skip(done)
    &&& now.state == state.after(plan.take(done))
    &&& now.panel == panel.after(plan.take(done))
    &&& operation.phase != Phase::Failed
    &&& operation.phase != Phase::Waiting ==> {
        &&& operation.todo.len() > 0
        &&& !(operation.todo[0] is Note)
        &&& operation.todo[0] is WaitIdle ==> now.panel.command == Some(Command::GetStatus)
    }
    &&& (operation.phase == Phase::Pausing || operation.phase == Phase::Sampling)
        ==> operation.todo[0] is WaitIdle
}

/// Starting the step behind the next notes keeps the course.
proof fn lemma_begin(
    state: DriverState,
    panel: Panel,
    plan: Seq<StepView>,
    done: int,
    now: DriverState,
    screen: Panel,
)
    requires
        0 <= done <= plan.len(),
        now == state.after(plan.take(done)),
        screen == panel.after(plan.take(done)),
    ensures
        ({
            let (next, operation, action) = operation::begin(now, plan.skip(done));
            on_course(
                state,
                panel,
                plan,
                Moment { state: next, operation, panel: screen.acted(action), action },
            )
        }),
    decreases plan.len() - done,
{
    let todo = plan.skip(done);
    if done < plan.len() {
        assert(todo[0] == plan[done]);
        assert(todo.drop_first() =~= plan.skip(done + 1));
        assert(plan.take(done + 1) =~= plan.take(done).push(plan[done]));
        laws::lemma_after_push(state, panel, plan.take(done), plan[done]);
        match plan[done] {
            StepView::Note(note) => {
                lemma_begin(state, panel, plan, done + 1, now.noted(note), screen);
            },
            _ => {},
        }
    }
}

/// One event that reports no failure keeps the course.
proof fn lemma_next_is_on_course(
    state: DriverState,
    panel: Panel,
    plan: Seq<StepView>,
    now: Moment,
    event: Event,
)
    requires
        on_course(state, panel, plan, now),
        event != Event::Failed,
    ensures
        on_course(state, panel, plan, now.next(event)),
{
    let operation = now.operation;
    let done = started(plan, operation);
    if operation.todo.len() == 0 || operation.phase == Phase::Waiting {
        assert(operation.todo =~= plan.skip(done));
        lemma_begin(state, panel, plan, done, now.state, now.panel);
    } else if operation.todo[0] is WaitIdle && (operation.phase == Phase::Issued
        || operation.phase == Phase::Pausing || !event.is_idle()) {
        assert(now.next(event).panel == now.panel);
    } else {
        assert(operation.todo.drop_first() =~= plan.skip(done));
        lemma_begin(state, panel, plan, done, now.state, now.panel);
    }
}

/// While no write fails, the driver and the panel are at every moment where the first steps of
/// the plan lead, in order, however often BUSY is polled.
pub proof fn law_runs_are_on_course(
    state: DriverState,
    panel: Panel,
    plan: Seq<StepView>,
    events: Seq<Event>,
)
    requires
        no_failure(events),
    ensures
        on_course(state, panel, plan, Moment::start(state, panel, plan).after(events)),
    decreases events.len(),
{
    let start = Moment::start(state, panel, plan);
    if events.len() == 0 {
        assert(plan.skip(0) =~= plan);
        assert(plan.take(0) =~= Seq::<StepView>::empty());
    } else {
        law_runs_are_on_course(state, panel, plan, events.drop_last());
        lemma_next_is_on_course(
            state,
            panel,
            plan,
            start.after(events.drop_last()),
            events.last(),
        );
    }
}

/// A bookkeeping that is true throughout the steps of a plan is true at every moment of every
/// run of it in which no write has failed. A failure changes nothing about the bookkeeping;
/// what an interrupted write leaves in the controller is not known.
pub proof fn law_in_sync_at_every_moment(
    state: DriverState,
    panel: Panel,
    plan: Seq<StepView>,
    events: Seq<Event>,
)
    requires
        panel::in_sync_throughout(state, panel, plan),
        no_failure(events),
    ensures
        ({
            let now = Moment::start(state, panel, plan).after(events);
            &&& panel::in_sync(now.state, now.panel)
            &&& now.next(Event::Failed).state == now.state
        }),
{
    law_runs_are_on_course(state, panel, plan, events);
    let now = Moment::start(state, panel, plan).after(events);
    assert(panel::in_sync(
        state.after(plan.take(started(plan, now.operation))),
        panel.after(plan.take(started(plan, now.operation))),
    ));
}

/// An operation reports success exactly when every step of its plan has been carried out.
pub proof fn law_success_means_completion(
    state: DriverState,
    panel: Panel,
    plan: Seq<StepView>,
    events: Seq<Event>,
)
    requires
        no_failure(events),
        events.len() > 0,
    ensures
        ({
            let now = Moment::start(state, panel, plan).after(events);
            &&& now.action == ActionView::Finished <==> now.operation.todo.len() == 0
            &&& now.action == ActionView::Finished ==> now.state == state.after(plan) && now.panel
                == panel.after(plan)
            &&& now.action != ActionView::Failed
        }),
{
    let start = Moment::start(state, panel, plan);
    law_runs_are_on_course(state, panel, plan, events);
    law_runs_are_on_course(state, panel, plan, events.drop_last());
    let before = start.after(events.drop_last());
    lemma_begin_result(before.state, before.operation.todo);
    if before.operation.todo.len() > 0 {
        lemma_begin_result(before.state, before.operation.todo.drop_first());
    }
    let now = start.after(events);
    if now.action == ActionView::Finished {
        assert(plan.take(plan.len() as int) =~= plan);
    }
}

/// Starting the step behind the next notes finishes exactly when there is none.
proof fn lemma_begin_result(state: DriverState, todo: Seq<StepView>)
    ensures
        ({
            let (_, operation, action) = operation::begin(state, todo);
            &&& action == ActionView::Finished <==> operation.todo.len() == 0
            &&& action != ActionView::Failed
            &&& operation.todo.len() <= todo.len()
            &&& operation.phase == if operation.todo.len() == 0 {
                Phase::Waiting
            } else {
                Phase::Issued
            }
        }),
    decreases todo.len(),
{
    if todo.len() > 0 {
        match todo[0] {
            StepView::Note(note) => {
                lemma_begin_result(state.noted(note), todo.drop_first());
            },
            _ => {},
        }
    }
}

/// A failed write ends the operation: from then on only the failure is reported, and the
/// driver's bookkeeping stays as it was. What the failed action was about to change in the
/// panel is unknown; everything else there stays as it was.
pub proof fn law_failure_is_final(now: Moment, events: Seq<Event>)
    ensures
        ({
            let end = now.next(Event::Failed).after(events);
            &&& end.action == ActionView::Failed
            &&& end.state == now.state
            &&& end.panel == now.panel.interrupted(now.action)
        }),
{
    lemma_failed_stays_failed(now.next(Event::Failed), events);
}

proof fn lemma_failed_stays_failed(failed: Moment, events: Seq<Event>)
    requires
        failed.operation.phase == Phase::Failed,
        failed.action == ActionView::Failed,
    ensures
        ({
            let end = failed.after(events);
            &&& end.operation.phase == Phase::Failed
            &&& end.action == ActionView::Failed
            &&& end.state == failed.state
            &&& end.panel == failed.panel
        }),
    decreases events.len(),
{
    if events.len() > 0 {
        lemma_failed_stays_failed(failed, events.drop_last());
    }
}

/// The bookkeeping is where some of the first steps of the plan lead.
pub open spec fn reached(state: DriverState, plan: Seq<StepView>, now: DriverState) -> bool {
    exists|done: int| 0 <= done <= plan.len() && now == state.after(#[trigger] plan.take(done))
}

/// Whatever the bus reports, failures included, the bookkeeping is at every moment where some of
/// the first steps of the plan lead: a failed operation leaves it as it was between two steps.
pub proof fn law_failed_runs_stop_between_steps(
    state: DriverState,
    panel: Panel,
    plan: Seq<StepView>,
    events: Seq<Event>,
)
    ensures
        ({
            let now = Moment::start(state, panel, plan).after(events);
            &&& reached(state, plan, now.state)
            &&& now.operation.phase == Phase::Failed || on_course(state, panel, plan, now)
        }),
    decreases events.len(),
{
    let start = Moment::start(state, panel, plan);
    let now = start.after(events);
    if events.len() == 0 {
        law_runs_are_on_course(state, panel, plan, events);
    } else {
        law_failed_runs_stop_between_steps(state, panel, plan, events.drop_last());
        let before = start.after(events.drop_last());
        if before.operation.phase != Phase::Failed && events.last() != Event::Failed {
            lemma_next_is_on_course(state, panel, plan, before, events.last());
        }
    }
    if now.operation.phase != Phase::Failed {
        assert(now.state == state.after(plan.take(started(plan, now.operation))));
    }
}

/// An upper bound on the events that an operation still takes, not counting those that report
/// BUSY.
pub open spec fn moves_left(operation: OperationView) -> int {
    let full = 4 * operation.todo.len() as int;
    match operation.phase {
        Phase::Waiting => full,
        Phase::Issued => full - 1,
        Phase::Pausing => full - 2,
        Phase::Sampling => full - 3,
        Phase::Failed => 0,
    }
}

/// How many events report that BUSY is asserted.
pub open spec fn busy_count(events: Seq<Event>) -> int
    decreases events.len(),
{
    if events.len() == 0 {
        0
    } else {
        busy_count(events.drop_last()) + if events.last().is_busy() {
            1int
        } else {
            0int
        }
    }
}

/// Every look at BUSY is answered with the pin's level.
pub open spec fn looks_are_answered(start: Moment, events: Seq<Event>) -> bool {
    forall|i: int|
        0 <= i < events.len() && start.after(#[trigger] events.take(i)).operation.phase
            == Phase::Sampling ==> events[i] is BusyPin
}

/// Every event brings an operation closer to its end, but for a failure, a BUSY pin that is
/// asserted and a look at BUSY that is not answered.
pub proof fn law_progress(state: DriverState, operation: OperationView, event: Event)
    requires
        operation.phase != Phase::Failed,
        operation.phase != Phase::Waiting ==> operation.todo.len() > 0,
        operation.phase == Phase::Sampling ==> event is BusyPin,
        event != Event::Failed,
        !event.is_busy(),
    ensures
        ({
            let (_, next, action) = operation::advanced(state, operation, event);
            &&& 0 <= moves_left(next)
            &&& action == ActionView::Finished || moves_left(next) < moves_left(operation)
        }),
{
    lemma_begin_result(state, operation.todo);
    if operation.todo.len() > 0 {
        lemma_begin_result(state, operation.todo.drop_first());
    }
}

/// Each event uses up a move, and one that reports BUSY gives at most three back.
proof fn lemma_moves_are_bounded(
    state: DriverState,
    panel: Panel,
    plan: Seq<StepView>,
    events: Seq<Event>,
)
    requires
        no_failure(events),
        looks_are_answered(Moment::start(state, panel, plan), events),
    ensures
        0 <= busy_count(events),
        ({
            let now = Moment::start(state, panel, plan).after(events);
            ||| events.len() > 0 && now.operation.todo.len() == 0
            ||| events.len() + moves_left(now.operation) <= 4 * plan.len() + 3 * busy_count(events)
        }),
    decreases events.len(),
{
    if events.len() > 0 {
        let start = Moment::start(state, panel, plan);
        let before = start.after(events.drop_last());
        assert forall|i: int|
            0 <= i < events.drop_last().len() && start.after(
                #[trigger] events.drop_last().take(i),
            ).operation.phase == Phase::Sampling implies events.drop_last()[i] is BusyPin by {
            assert(events.drop_last().take(i) =~= events.take(i));
        }
        assert(events.take(events.len() - 1) =~= events.drop_last());
        lemma_moves_are_bounded(state, panel, plan, events.drop_last());
        law_runs_are_on_course(state, panel, plan, events.drop_last());
        lemma_begin_result(before.state, before.operation.todo);
        if before.operation.todo.len() > 0 {
            lemma_begin_result(before.state, before.operation.todo.drop_first());
        }
    }
}

/// Success is owed: an operation of `n` steps during which no write fails, every look at BUSY is
/// answered and BUSY is reported asserted `b` times has succeeded after `4 * n + 3 * b + 1`
/// events at the latest.
pub proof fn law_success_is_owed(
    state: DriverState,
    panel: Panel,
    plan: Seq<StepView>,
    events: Seq<Event>,
)
    requires
        no_failure(events),
        looks_are_answered(Moment::start(state, panel, plan), events),
        events.len() > 4 * plan.len() + 3 * busy_count(events),
    ensures
        Moment::start(state, panel, plan).after(events).action == ActionView::Finished,
{
    lemma_moves_are_bounded(state, panel, plan, events);
    law_runs_are_on_course(state, panel, plan, events);
    law_success_means_completion(state, panel, plan, events);
}

/// A wait ends exactly when BUSY reads released. A reading of it as asserted leads to another
/// status query, and anything else but a failure to another look.
pub proof fn law_only_released_busy_ends_a_wait(now: Moment, event: Event)
    requires
        now.operation.phase == Phase::Sampling,
        now.operation.todo.len() > 0,
    ensures
        now.next(event).operation.todo.len() < now.operation.todo.len() <==> event == (
        Event::BusyPin { low: !IS_BUSY_LOW }),
        event == (Event::BusyPin { low: IS_BUSY_LOW }) ==> now.next(event).action
            == ActionView::Command(Command::GetStatus),
        event == Event::Done ==> now.next(event) == (Moment {
            action: ActionView::SampleBusy,
            ..now
        }),
{
    lemma_begin_result(now.state, now.operation.todo.drop_first());
}

/// The actions that carry out steps, in order; for a wait, the first one. Notes have none.
pub open spec fn step_actions(steps: Seq<StepView>) -> Seq<ActionView>
    decreases steps.len(),
{
    if steps.len() == 0 {
        seq![]
    } else if steps.last() is Note {
        step_actions(steps.drop_last())
    } else {
        step_actions(steps.drop_last()).push(operation::first_action(steps.last()))
    }
}

/// The actions that a run has handed out, one for each event.
pub open spec fn handed_out(start: Moment, events: Seq<Event>) -> Seq<ActionView> {
    Seq::new(events.len(), |i: int| start.after(events.take(i + 1)).action)
}

/// The event is a reading of BUSY as asserted, in answer to a look at it.
pub open spec fn is_busy_look(before: Moment, event: Event) -> bool {
    before.action == ActionView::SampleBusy && event.is_busy()
}

/// The actions that a run has handed out, polls aside: without the pauses and looks of waits,
/// without the status queries that follow a look which found BUSY asserted, and without the
/// report of the end.
pub open spec fn without_polls(start: Moment, events: Seq<Event>) -> Seq<ActionView>
    decreases events.len(),
{
    if events.len() == 0 {
        seq![]
    } else {
        let earlier = without_polls(start, events.drop_last());
        let before = start.after(events.drop_last());
        let action = before.next(events.last()).action;
        if action == ActionView::SampleBusy || action is DelayUs || action == ActionView::Finished
            || action == ActionView::Failed || is_busy_look(before, events.last()) {
            earlier
        } else {
            earlier.push(action)
        }
    }
}

/// How many looks found BUSY asserted.
pub open spec fn busy_looks(start: Moment, events: Seq<Event>) -> int
    decreases events.len(),
{
    if events.len() == 0 {
        0
    } else {
        busy_looks(start, events.drop_last()) + if is_busy_look(
            start.after(events.drop_last()),
            events.last(),
        ) {
            1int
        } else {
            0int
        }
    }
}

/// How many of the actions are status queries.
pub open spec fn status_queries(actions: Seq<ActionView>) -> int
    decreases actions.len(),
{
    if actions.len() == 0 {
        0
    } else {
        status_queries(actions.drop_last()) + if actions.last() == ActionView::Command(
            Command::GetStatus,
        ) {
            1int
        } else {
            0int
        }
    }
}

/// The action handed out last is the one that the phase speaks of.
spec fn phase_fits(now: Moment) -> bool {
    let operation = now.operation;
    &&& operation.phase == Phase::Sampling <==> now.action == ActionView::SampleBusy
    &&& operation.phase == Phase::Issued ==> operation.todo.len() > 0 && now.action
        == operation::first_action(operation.todo[0])
    &&& operation.phase == Phase::Pausing ==> now.state.delay_us > 0 && now.action
        == ActionView::DelayUs(now.state.delay_us)
}

/// Starting the step behind the next notes hands out that step's action and no other.
proof fn lemma_begin_actions(plan: Seq<StepView>, state: DriverState, done: int)
    requires
        0 <= done <= plan.len(),
    ensures
        ({
            let (_, operation, action) = operation::begin(state, plan.skip(done));
            let reached = step_actions(plan.take(started(plan, operation)));
            let earlier = step_actions(plan.take(done));
            &&& done <= started(plan, operation) <= plan.len()
            &&& reached == if action == ActionView::Finished {
                earlier
            } else {
                earlier.push(action)
            }
            &&& action != ActionView::SampleBusy
            &&& !(action is DelayUs)
            &&& operation.phase == Phase::Issued ==> action == operation::first_action(
                operation.todo[0],
            )
        }),
    decreases plan.len() - done,
{
    let todo = plan.skip(done);
    if done < plan.len() {
        assert(todo[0] == plan[done]);
        assert(todo.drop_first() =~= plan.skip(done + 1));
        assert(plan.take(done + 1).drop_last() =~= plan.take(done));
        match plan[done] {
            StepView::Note(note) => {
                lemma_begin_actions(plan, state.noted(note), done + 1);
            },
            _ => {},
        }
    }
}

/// One event that reports no failure hands out the action of the next step, or polls.
proof fn lemma_next_actions(
    state: DriverState,
    panel: Panel,
    plan: Seq<StepView>,
    now: Moment,
    event: Event,
)
    requires
        on_course(state, panel, plan, now),
        phase_fits(now),
        event != Event::Failed,
    ensures
        ({
            let next = now.next(event);
            let earlier = step_actions(plan.take(started(plan, now.operation)));
            let reached = step_actions(plan.take(started(plan, next.operation)));
            let polls = next.action == ActionView::SampleBusy || next.action is DelayUs
                || next.action == ActionView::Finished || next.action == ActionView::Failed
                || is_busy_look(now, event);
            &&& phase_fits(next)
            &&& reached == if polls {
                earlier
            } else {
                earlier.push(next.action)
            }
            &&& is_busy_look(now, event) ==> next.action == ActionView::Command(Command::GetStatus)
        }),
{
    let operation = now.operation;
    let done = started(plan, operation);
    if operation.todo.len() == 0 || operation.phase == Phase::Waiting {
        assert(operation.todo =~= plan.skip(done));
        lemma_begin_actions(plan, now.state, done);
        lemma_begin_result(now.state, operation.todo);
    } else if operation.todo[0] is WaitIdle && (operation.phase == Phase::Issued
        || operation.phase == Phase::Pausing || !event.is_idle()) {
        assert(now.next(event).operation.todo == operation.todo);
    } else {
        assert(operation.todo.drop_first() =~= plan.skip(done));
        lemma_begin_actions(plan, now.state, done);
        lemma_begin_result(now.state, operation.todo.drop_first());
    }
}

/// While no write fails, what a run hands out, polls aside, is exactly the actions of the steps
/// that it has started: in order, each once, none left out and none repeated. A run that
/// succeeds has handed out those of the whole plan.
pub proof fn law_each_step_is_handed_out_once(
    state: DriverState,
    panel: Panel,
    plan: Seq<StepView>,
    events: Seq<Event>,
)
    requires
        no_failure(events),
    ensures
        ({
            let start = Moment::start(state, panel, plan);
            let now = start.after(events);
            &&& 0 <= started(plan, now.operation) <= plan.len()
            &&& without_polls(start, events) == step_actions(
                plan.take(started(plan, now.operation)),
            )
            &&& now.action == ActionView::Finished ==> without_polls(start, events)
                == step_actions(plan)
        }),
{
    lemma_handed_out(state, panel, plan, events);
    law_runs_are_on_course(state, panel, plan, events);
    if events.len() > 0 {
        law_success_means_completion(state, panel, plan, events);
    }
    assert(plan.take(plan.len() as int) =~= plan);
}

/// The induction behind the law above, with what the phase says of the last action.
proof fn lemma_handed_out(
    state: DriverState,
    panel: Panel,
    plan: Seq<StepView>,
    events: Seq<Event>,
)
    requires
        no_failure(events),
    ensures
        ({
            let start = Moment::start(state, panel, plan);
            let now = start.after(events);
            &&& phase_fits(now)
            &&& without_polls(start, events) == step_actions(
                plan.take(started(plan, now.operation)),
            )
        }),
    decreases events.len(),
{
    let start = Moment::start(state, panel, plan);
    if events.len() == 0 {
        assert(plan.take(0) =~= Seq::<StepView>::empty());
    } else {
        let before = start.after(events.drop_last());
        lemma_handed_out(state, panel, plan, events.drop_last());
        law_runs_are_on_course(state, panel, plan, events.drop_last());
        lemma_next_actions(state, panel, plan, before, events.last());
    }
}

/// A failure ends what goes to the bus: whatever is reported after it, nothing more is handed
/// out, so a run that failed has handed out, polls aside, the actions of some of the first
/// steps of its plan, in order and each once. Nothing is tried again.
pub proof fn law_nothing_is_tried_again(
    state: DriverState,
    panel: Panel,
    plan: Seq<StepView>,
    events: Seq<Event>,
    later: Seq<Event>,
)
    requires
        no_failure(events),
    ensures
        ({
            let start = Moment::start(state, panel, plan);
            let all = events.push(Event::Failed) + later;
            &&& without_polls(start, all) == step_actions(
                plan.take(started(plan, start.after(events).operation)),
            )
            &&& forall|i: int|
                events.len() <= i < all.len() ==> #[trigger] handed_out(start, all)[i]
                    == ActionView::Failed
        }),
    decreases later.len(),
{
    let start = Moment::start(state, panel, plan);
    let failed = events.push(Event::Failed);
    let all = failed + later;
    assert(failed.drop_last() =~= events);
    lemma_handed_out(state, panel, plan, events);
    if later.len() == 0 {
        assert(all =~= failed);
        assert(all.take(all.len() as int) =~= failed);
        lemma_failed_after(start, events, later);
    } else {
        assert(all.drop_last() =~= failed + later.drop_last());
        law_nothing_is_tried_again(state, panel, plan, events, later.drop_last());
        lemma_failed_after(start, events, later.drop_last());
        lemma_failed_after(start, events, later);
        assert forall|i: int| events.len() <= i < all.len() implies #[trigger] handed_out(
            start,
            all,
        )[i] == ActionView::Failed by {
            if i < all.len() - 1 {
                assert(all.take(i + 1) =~= all.drop_last().take(i + 1));
                assert(handed_out(start, all.drop_last())[i] == ActionView::Failed);
            } else {
                assert(all.take(i + 1) =~= all);
            }
        }
    }
}

/// From a failure on a run is where the failure left it.
proof fn lemma_failed_after(start: Moment, events: Seq<Event>, later: Seq<Event>)
    ensures
        ({
            let end = start.after(events.push(Event::Failed) + later);
            &&& end.action == ActionView::Failed
            &&& end.operation.phase == Phase::Failed
        }),
    decreases later.len(),
{
    let all = events.push(Event::Failed) + later;
    if later.len() == 0 {
        assert(all.drop_last() =~= events);
    } else {
        assert(all.drop_last() =~= events.push(Event::Failed) + later.drop_last());
        lemma_failed_after(start, events, later.drop_last());
    }
}

/// While no write fails, a run has handed out one status query for each started step that calls
/// for one, as every wait does, and one more for each look that found BUSY asserted.
pub proof fn law_status_queries(
    state: DriverState,
    panel: Panel,
    plan: Seq<StepView>,
    events: Seq<Event>,
)
    requires
        no_failure(events),
    ensures
        ({
            let start = Moment::start(state, panel, plan);
            let steps = plan.take(started(plan, start.after(events).operation));
            status_queries(handed_out(start, events)) == status_queries(step_actions(steps))
                + busy_looks(start, events)
        }),
    decreases events.len(),
{
    let start = Moment::start(state, panel, plan);
    lemma_handed_out(state, panel, plan, events);
    if events.len() > 0 {
        let earlier = events.drop_last();
        let before = start.after(earlier);
        lemma_handed_out(state, panel, plan, earlier);
        law_runs_are_on_course(state, panel, plan, earlier);
        lemma_next_actions(state, panel, plan, before, events.last());
        law_status_queries(state, panel, plan, earlier);
        assert(handed_out(start, events).drop_last() =~= handed_out(start, earlier)) by {
            assert forall|i: int| 0 <= i < earlier.len() implies #[trigger] events.take(i + 1)
                == earlier.take(i + 1) by {
                assert(events.take(i + 1) =~= earlier.take(i + 1));
            }
        }
        assert(events.take(events.len() as int) =~= events);
        assert(handed_out(start, events).last() == before.next(events.last()).action);
        let action = before.next(events.last()).action;
        let steps = without_polls(start, earlier);
        assert(steps.push(action).drop_last() =~= steps);
    }
}

/// A wait whose looks have found BUSY asserted `n` times has handed out `n + 1` status queries,
/// however far it has come, and the failure of any of them ends it for good.
pub proof fn law_wait_keeps_querying(
    state: DriverState,
    panel: Panel,
    events: Seq<Event>,
    query: int,
    later: Seq<Event>,
)
    requires
        no_failure(events),
        events.len() > 0,
    ensures
        ({
            let start = Moment::start(state, panel, seq![StepView::WaitIdle]);
            let actions = handed_out(start, events);
            &&& status_queries(actions) == busy_looks(start, events) + 1
            &&& 0 <= query < actions.len() && actions[query] == ActionView::Command(
                Command::GetStatus,
            ) ==> start.after(events.take(query + 1)).next(Event::Failed).after(later).action
                == ActionView::Failed
        }),
{
    let plan = seq![StepView::WaitIdle];
    let start = Moment::start(state, panel, plan);
    law_status_queries(state, panel, plan, events);
    law_runs_are_on_course(state, panel, plan, events);
    let now = start.after(events);
    law_runs_are_on_course(state, panel, plan, events.drop_last());
    let before = start.after(events.drop_last());
    lemma_begin_result(before.state, before.operation.todo);
    if before.operation.todo.len() > 0 {
        lemma_begin_result(before.state, before.operation.todo.drop_first());
    }
    lemma_moments_follow(state, panel, plan, events);
    assert(started(plan, now.operation) == 1);
    assert(plan.take(1) =~= plan);
    assert(plan.drop_last() =~= Seq::<StepView>::empty());
    let one = step_actions(plan);
    reveal_with_fuel(step_actions, 2);
    reveal_with_fuel(status_queries, 2);
    assert(one.drop_last() =~= Seq::<ActionView>::empty());
    law_failure_is_final(start.after(events.take(query + 1)), later);
}

/// The bus refuses every command, and BUSY stays asserted.
pub open spec fn is_stuck(now: Moment, events: Seq<Event>) -> bool {
    forall|i: int|
        0 <= i < events.len() ==> {
            let action = now.after(#[trigger] events.take(i)).action;
            &&& action is Command ==> events[i] == Event::Failed
            &&& action == ActionView::SampleBusy ==> events[i].is_busy()
        }
}

/// A BUSY pin that stays asserted keeps the bus in use: wherever a wait of a run stands, a bus
/// that refuses transfers from then on ends the operation within three events, although BUSY
/// is never released.
pub proof fn law_stuck_busy_ends_with_the_bus(
    state: DriverState,
    panel: Panel,
    plan: Seq<StepView>,
    events: Seq<Event>,
    later: Seq<Event>,
)
    requires
        no_failure(events),
        ({
            let now = Moment::start(state, panel, plan).after(events);
            &&& now.operation.phase != Phase::Waiting
            &&& now.operation.todo[0] is WaitIdle
            &&& is_stuck(now, later)
        }),
        later.len() >= 3,
    ensures
        Moment::start(state, panel, plan).after(events).after(later).action == ActionView::Failed,
{
    let now = Moment::start(state, panel, plan).after(events);
    lemma_handed_out(state, panel, plan, events);
    law_runs_are_on_course(state, panel, plan, events);
    assert(later.take(0) =~= Seq::<Event>::empty());
    assert(later.take(1).drop_last() =~= later.take(0));
    assert(later.take(2).drop_last() =~= later.take(1));
    assert(later.take(3).drop_last() =~= later.take(2));
    let third = now.after(later.take(3));
    assert(third.action == ActionView::Failed && third.operation.phase == Phase::Failed);
    lemma_after_join(now, later.take(3), later.skip(3));
    assert(later.take(3) + later.skip(3) =~= later);
    lemma_failed_stays_failed(third, later.skip(3));
}

/// Events in a row lead where the first ones lead and then the others.
proof fn lemma_after_join(now: Moment, a: Seq<Event>, b: Seq<Event>)
    ensures
        now.after(a + b) == now.after(a).after(b),
    decreases b.len(),
{
    if b.len() == 0 {
        assert(a + b =~= a);
    } else {
        assert((a + b).drop_last() =~= a + b.drop_last());
        lemma_after_join(now, a, b.drop_last());
    }
}

/// An action that a plan gives rise to: that of one of its steps, or a part of a wait.
pub open spec fn offers(plan: Seq<StepView>, action: ActionView) -> bool {
    ||| action == ActionView::Finished
    ||| action == ActionView::Failed
    ||| action == ActionView::SampleBusy
    ||| action is DelayUs
    ||| exists|i: int|
        0 <= i < plan.len() && !(plan[i] is Note) && #[trigger] operation::first_action(plan[i])
            == action
}

/// What is left of an operation is the end of its plan.
spec fn is_end_of(todo: Seq<StepView>, plan: Seq<StepView>) -> bool {
    &&& todo.len() <= plan.len()
    &&& todo == plan.skip(plan.len() - todo.len())
}

proof fn lemma_begin_offers(plan: Seq<StepView>, state: DriverState, todo: Seq<StepView>)
    requires
        is_end_of(todo, plan),
    ensures
        ({
            let (_, operation, action) = operation::begin(state, todo);
            &&& is_end_of(operation.todo, plan)
            &&& offers(plan, action)
            &&& operation.todo.len() > 0 ==> action == operation::first_action(operation.todo[0])
                && !(operation.todo[0] is Note)
        }),
    decreases todo.len(),
{
    if todo.len() > 0 {
        let i = plan.len() - todo.len();
        assert(todo[0] == plan[i]);
        assert(todo.drop_first() =~= plan.skip(i + 1));
        match todo[0] {
            StepView::Note(note) => {
                lemma_begin_offers(plan, state.noted(note), todo.drop_first());
            },
            _ => {
                assert(operation::first_action(plan[i]) == operation::first_action(todo[0]));
            },
        }
    }
}

/// A moment that follows from the plan.
spec fn follows(plan: Seq<StepView>, now: Moment) -> bool {
    &&& is_end_of(now.operation.todo, plan)
    &&& now.operation.phase == Phase::Sampling ==> now.operation.todo.len() > 0
        && now.operation.todo[0] is WaitIdle
    &&& now.operation.phase == Phase::Pausing ==> now.operation.todo.len() > 0
        && now.operation.todo[0] is WaitIdle
}

proof fn lemma_next_offers(plan: Seq<StepView>, now: Moment, event: Event)
    requires
        follows(plan, now),
    ensures
        follows(plan, now.next(event)),
        offers(plan, now.next(event).action),
{
    let todo = now.operation.todo;
    lemma_begin_offers(plan, now.state, todo);
    lemma_begin_result(now.state, todo);
    lemma_begin_result(now.state, todo.drop_first());
    if todo.len() > 0 {
        let i = plan.len() - todo.len();
        assert(todo[0] == plan[i]);
        assert(todo.drop_first() =~= plan.skip(i + 1));
        lemma_begin_offers(plan, now.state, todo.drop_first());
        if todo[0] is WaitIdle {
            assert(operation::first_action(plan[i]) == ActionView::Command(Command::GetStatus));
        }
    }
}

/// Whatever the bus reports, failures included, an operation never hands out an action that
/// its plan does not call for.
pub proof fn law_actions_come_from_the_plan(
    state: DriverState,
    panel: Panel,
    plan: Seq<StepView>,
    events: Seq<Event>,
)
    requires
        events.len() > 0,
    ensures
        offers(plan, Moment::start(state, panel, plan).after(events).action),
{
    lemma_moments_follow(state, panel, plan, events.drop_last());
    lemma_next_offers(
        plan,
        Moment::start(state, panel, plan).after(events.drop_last()),
        events.last(),
    );
}

proof fn lemma_moments_follow(
    state: DriverState,
    panel: Panel,
    plan: Seq<StepView>,
    events: Seq<Event>,
)
    ensures
        follows(plan, Moment::start(state, panel, plan).after(events)),
    decreases events.len(),
{
    if events.len() == 0 {
        assert(plan.skip(0) =~= plan);
    } else {
        lemma_moments_follow(state, panel, plan, events.drop_last());
        lemma_next_offers(
            plan,
            Moment::start(state, panel, plan).after(events.drop_last()),
            events.last(),
        );
    }
}

/// Resuming and standby never reset the controller, never write to its RAM and never put it
/// to sleep, whatever the bus reports: the only commands are those that switch the driving
/// voltages and the status query. The bookkeeping stays as it was.
pub proof fn law_retained_operations_never_reset_or_clear_ram(
    state: DriverState,
    panel: Panel,
    plan: Seq<StepView>,
    events: Seq<Event>,
)
    requires
        plan == protocol::power_on_steps() || plan == protocol::power_off_steps(100),
        events.len() > 0,
    ensures
        ({
            let now = Moment::start(state, panel, plan).after(events);
            &&& !(now.action is Reset)
            &&& !(now.action is Data)
            &&& !(now.action is Fill)
            &&& now.action matches ActionView::Command(command) ==> command == Command::PowerOn
                || command == Command::PowerOff || command == Command::GetStatus
            &&& now.state == state
            &&& now.panel.new_ram == panel.new_ram
            &&& now.panel.old_ram == panel.old_ram
            &&& now.panel.shown == panel.shown
        }),
    decreases events.len(),
{
    let start = Moment::start(state, panel, plan);
    law_actions_come_from_the_plan(state, panel, plan, events);
    if events.len() > 1 {
        law_retained_operations_never_reset_or_clear_ram(state, panel, plan, events.drop_last());
    }
    lemma_moments_follow(state, panel, plan, events.drop_last());
    let before = start.after(events.drop_last());
    assert(laws::has_no_notes(before.operation.todo)) by {
        assert forall|i: int| 0 <= i < before.operation.todo.len() implies !(
        #[trigger] before.operation.todo[i] is Note) by {
            assert(before.operation.todo[i] == plan[plan.len() - before.operation.todo.len() + i]);
        }
    }
    lemma_no_notes(before.state, before.operation.todo);
    if before.operation.todo.len() > 0 {
        lemma_no_notes(before.state, before.operation.todo.drop_first());
    }
}

/// Without notes the bookkeeping stays as it is.
proof fn lemma_no_notes(state: DriverState, todo: Seq<StepView>)
    requires
        laws::has_no_notes(todo),
    ensures
        operation::begin(state, todo).0 == state,
{
    if todo.len() > 0 {
        assert(!(todo[0] is Note));
    }
}

/// A plan that queries the status only by waiting for BUSY.
pub open spec fn queries_by_waiting(plan: Seq<StepView>) -> bool {
    forall|i: int|
        0 <= i < plan.len() ==> #[trigger] plan[i] != StepView::Command(Command::GetStatus)
}

/// What a moment has to do with the plan's waits.
proof fn lemma_moment(state: DriverState, panel: Panel, plan: Seq<StepView>, events: Seq<Event>)
    requires
        no_failure(events),
    ensures
        ({
            let now = Moment::start(state, panel, plan).after(events);
            let operation = now.operation;
            &&& on_course(state, panel, plan, now)
            &&& phase_fits(now)
            &&& now.state.delay_us == state.delay_us
            &&& operation.phase != Phase::Waiting ==> operation.todo.len() > 0 && operation.todo[0]
                == plan[started(plan, operation) - 1] && started(plan, operation) >= 1
            &&& operation.phase == Phase::Waiting && events.len() > 0 ==> now.action
                == ActionView::Finished
        }),
{
    let start = Moment::start(state, panel, plan);
    let now = start.after(events);
    lemma_handed_out(state, panel, plan, events);
    law_runs_are_on_course(state, panel, plan, events);
    lemma_moments_follow(state, panel, plan, events);
    laws::law_steps_keep_the_settings(state, plan.take(started(plan, now.operation)));
    if events.len() > 0 {
        let before = start.after(events.drop_last());
        law_runs_are_on_course(state, panel, plan, events.drop_last());
        lemma_begin_result(before.state, before.operation.todo);
        if before.operation.todo.len() > 0 {
            lemma_begin_result(before.state, before.operation.todo.drop_first());
        }
    }
}

/// How BUSY is polled, in every run and for every pause: each status query is followed by a
/// pause of exactly the driver's `delay_us` and then by a look at BUSY, or by the look at once
/// where `delay_us` is zero. A look that finds BUSY asserted is followed by the next status
/// query. There is no pause in microseconds and no look anywhere else, but for another look
/// where one was not answered.
pub proof fn law_polls(
    state: DriverState,
    panel: Panel,
    plan: Seq<StepView>,
    events: Seq<Event>,
    i: int,
)
    requires
        no_failure(events),
        queries_by_waiting(plan),
        0 <= i,
        i + 1 < events.len(),
    ensures
        ({
            let actions = handed_out(Moment::start(state, panel, plan), events);
            let query = ActionView::Command(Command::GetStatus);
            let pause = ActionView::DelayUs(state.delay_us);
            let look = ActionView::SampleBusy;
            &&& actions[i] == query ==> actions[i + 1] == if state.delay_us > 0 {
                pause
            } else {
                look
            }
            &&& actions[i] is DelayUs ==> actions[i + 1] == look
            &&& actions[i] == look && events[i + 1] == (Event::BusyPin { low: true })
                ==> actions[i + 1] == query
            &&& actions[i] == look && events[i + 1] == Event::Done ==> actions[i + 1] == look
            &&& actions[i + 1] is DelayUs ==> actions[i] == query && actions[i + 1] == pause
                && state.delay_us > 0
            &&& actions[i + 1] == look && actions[i] != look ==> actions[i] == if state.delay_us
                > 0 {
                pause
            } else {
                query
            }
            &&& actions[i + 1] == look && actions[i] == look ==> events[i + 1] == Event::Done
        }),
{
    let start = Moment::start(state, panel, plan);
    let earlier = events.take(i + 1);
    let now = start.after(earlier);
    let event = events[i + 1];
    assert(events.take(i + 2).drop_last() =~= earlier);
    assert(events.take(i + 2).last() == event);
    lemma_moment(state, panel, plan, earlier);
    lemma_moment(state, panel, plan, events.take(i + 2));
    let todo = now.operation.todo;
    let done = started(plan, now.operation);
    let next = now.next(event);
    assert(start.after(events.take(i + 2)) == next);
    let actions = handed_out(start, events);
    assert(actions[i] == now.action && actions[i + 1] == next.action);
    assert(event != Event::Failed);
    lemma_begin_actions(plan, now.state, done);
    if now.operation.phase == Phase::Waiting {
        assert(todo =~= plan.skip(done));
        assert(next.action == operation::begin(now.state, todo).2);
    } else {
        assert(todo.drop_first() =~= plan.skip(done));
        assert(todo[0] == plan[done - 1]);
        if now.operation.phase == Phase::Issued && !(todo[0] is WaitIdle) {
            assert(now.action != ActionView::Command(Command::GetStatus));
            assert(next.action == operation::begin(now.state, todo.drop_first()).2);
        }
    }
}

/// A run never begins with a poll: its first action is that of its first step.
pub proof fn law_first_action(state: DriverState, panel: Panel, plan: Seq<StepView>, event: Event)
    requires
        event != Event::Failed,
    ensures
        ({
            let action = Moment::start(state, panel, plan).next(event).action;
            &&& action != ActionView::SampleBusy
            &&& !(action is DelayUs)
            &&& action != ActionView::Failed
        }),
{
    assert(plan.skip(0) =~= plan);
    lemma_begin_actions(plan, state, 0);
    lemma_begin_result(state, plan);
}

/// The run has left a step of its plan behind.
pub open spec fn is_past(plan: Seq<StepView>, operation: OperationView, index: int) -> bool {
    ||| started(plan, operation) > index + 1
    ||| started(plan, operation) == index + 1 && operation.phase == Phase::Waiting
}

/// Starting the step behind the next notes does not go past a wait.
proof fn lemma_begin_stops(plan: Seq<StepView>, state: DriverState, done: int, wait: int)
    requires
        0 <= done <= wait < plan.len(),
        plan[wait] is WaitIdle,
    ensures
        !is_past(plan, operation::begin(state, plan.skip(done)).1, wait),
    decreases plan.len() - done,
{
    let todo = plan.skip(done);
    assert(todo[0] == plan[done]);
    assert(todo.drop_first() =~= plan.skip(done + 1));
    match plan[done] {
        StepView::Note(note) => {
            lemma_begin_stops(plan, state.noted(note), done + 1, wait);
        },
        _ => {},
    }
}

/// A run that had not come to a wait of its plan and has left it behind has seen BUSY released in
/// between, in answer to a look at it.
pub proof fn law_passed_wait_saw_release(
    state: DriverState,
    panel: Panel,
    plan: Seq<StepView>,
    events: Seq<Event>,
    from: int,
    wait: int,
)
    requires
        no_failure(events),
        0 <= from <= events.len(),
        0 <= wait < plan.len(),
        plan[wait] is WaitIdle,
        ({
            let start = Moment::start(state, panel, plan);
            &&& started(plan, start.after(events.take(from)).operation) <= wait
            &&& is_past(plan, start.after(events).operation, wait)
        }),
    ensures
        exists|j: int|
            from <= j < events.len() && Moment::start(state, panel, plan).after(
                #[trigger] events.take(j),
            ).action == ActionView::SampleBusy && events[j] == (Event::BusyPin { low: false }),
    decreases events.len(),
{
    let start = Moment::start(state, panel, plan);
    if events.len() == from {
        assert(events.take(from) =~= events);
    } else {
        let earlier = events.drop_last();
        let before = start.after(earlier);
        let event = events.last();
        if is_past(plan, before.operation, wait) {
            assert(earlier.take(from) =~= events.take(from));
            law_passed_wait_saw_release(state, panel, plan, earlier, from, wait);
            let j = choose|j: int|
                from <= j < earlier.len() && start.after(#[trigger] earlier.take(j)).action
                    == ActionView::SampleBusy && earlier[j] == (Event::BusyPin { low: false });
            assert(earlier.take(j) =~= events.take(j));
            assert(events[j] == earlier[j]);
        } else {
            lemma_moment(state, panel, plan, earlier);
            let done = started(plan, before.operation);
            if before.operation.phase == Phase::Waiting {
                assert(before.operation.todo =~= plan.skip(done));
                lemma_begin_stops(plan, before.state, done, wait);
            } else {
                assert(before.operation.todo.drop_first() =~= plan.skip(done));
                if done <= wait {
                    lemma_begin_stops(plan, before.state, done, wait);
                }
            }
            assert(before.action == ActionView::SampleBusy && event.is_idle());
            let j = events.len() - 1;
            assert(events.take(j) =~= earlier);
        }
    }
}

/// What a run has handed out, polls aside, is among what it has handed out.
proof fn lemma_without_polls_is_handed_out(start: Moment, events: Seq<Event>, k: int)
    requires
        0 <= k < without_polls(start, events).len(),
    ensures
        exists|i: int|
            0 <= i < events.len() && #[trigger] handed_out(start, events)[i] == without_polls(
                start,
                events,
            )[k],
    decreases events.len(),
{
    let earlier = events.drop_last();
    let last = events.len() - 1;
    if k < without_polls(start, earlier).len() {
        lemma_without_polls_is_handed_out(start, earlier, k);
        let i = choose|i: int|
            0 <= i < earlier.len() && #[trigger] handed_out(start, earlier)[i] == without_polls(
                start,
                earlier,
            )[k];
        assert(events.take(i + 1) =~= earlier.take(i + 1));
        assert(handed_out(start, events)[i] == without_polls(start, events)[k]);
    } else {
        assert(events.take(last + 1) =~= events);
        assert(handed_out(start, events)[last] == without_polls(start, events)[k]);
    }
}

/// The action of each step is among those of all of them.
proof fn lemma_step_action(steps: Seq<StepView>, index: int)
    requires
        0 <= index < steps.len(),
        !(steps[index] is Note),
    ensures
        step_actions(steps).contains(operation::first_action(steps[index])),
    decreases steps.len(),
{
    let rest = steps.drop_last();
    let actions = step_actions(steps);
    if index == steps.len() - 1 {
        assert(actions.last() == operation::first_action(steps[index]));
    } else {
        lemma_step_action(rest, index);
        let k = choose|k: int|
            0 <= k < step_actions(rest).len() && step_actions(rest)[k] == operation::first_action(
                rest[index],
            );
        assert(actions[k] == step_actions(rest)[k]);
    }
}

/// A step that a run has started has been handed out.
pub proof fn law_started_steps_were_handed_out(
    state: DriverState,
    panel: Panel,
    plan: Seq<StepView>,
    events: Seq<Event>,
    index: int,
)
    requires
        no_failure(events),
        0 <= index < started(plan, Moment::start(state, panel, plan).after(events).operation),
        !(plan[index] is Note),
    ensures
        exists|i: int|
            0 <= i < events.len() && #[trigger] handed_out(
                Moment::start(state, panel, plan),
                events,
            )[i] == operation::first_action(plan[index]),
{
    let start = Moment::start(state, panel, plan);
    let steps = plan.take(started(plan, start.after(events).operation));
    law_each_step_is_handed_out_once(state, panel, plan, events);
    lemma_step_action(steps, index);
    let k = choose|k: int|
        0 <= k < step_actions(steps).len() && step_actions(steps)[k] == operation::first_action(
            steps[index],
        );
    lemma_without_polls_is_handed_out(start, events, k);
}

/// A command other than the status query that was handed out is that of the step under way.
pub(crate) proof fn lemma_command_under_way(
    state: DriverState,
    panel: Panel,
    plan: Seq<StepView>,
    events: Seq<Event>,
    command: Command,
)
    requires
        no_failure(events),
        events.len() > 0,
        command != Command::GetStatus,
        Moment::start(state, panel, plan).after(events).action == ActionView::Command(command),
    ensures
        ({
            let now = Moment::start(state, panel, plan).after(events);
            &&& 1 <= started(plan, now.operation) <= plan.len()
            &&& plan[started(plan, now.operation) - 1] == StepView::Command(command)
        }),
{
    lemma_moment(state, panel, plan, events);
}

} // verus!
