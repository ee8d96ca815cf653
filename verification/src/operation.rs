//! Operations: a plan under way, driven by what the bus reports.
//!
//! The caller performs the [`Action`] it is given, reports how that went with an [`Event`], and
//! is given the next action, until the operation has finished or failed.

use vstd::prelude::*;

use crate::command::Command;
use crate::driver::Epd7in5;
use crate::protocol::DriverState;
use crate::step::{Plan, Step, StepView};

verus! {

/// BUSY is asserted while the pin is low.
pub const IS_BUSY_LOW: bool = true;

/// What the caller has to do next.
#[derive(Debug)]
pub enum Action<'a> {
    /// Drive RESET high and wait, drive it low for the duration, and drive it high again.
    Reset { initial_delay_us: u32, duration_us: u32 },
    /// Drive D/C low and write the command's address.
    Command(Command),
    /// Drive D/C high and write the bytes.
    Data(Vec<u8>),
    /// Drive D/C high and write the image.
    Frame(&'a [u8]),
    /// Drive D/C high and write the byte `count` times.
    Fill { value: u8, count: u32 },
    /// Wait for some milliseconds.
    DelayMs(u32),
    /// Wait for some microseconds.
    DelayUs(u32),
    /// Read the BUSY pin and report its level.
    SampleBusy,
    /// Nothing: the operation has succeeded.
    Finished,
    /// Nothing: the operation was given up.
    Failed,
}

/// What an action means, with its payload as a sequence of bytes.
#[verifier::ext_equal]
pub enum ActionView {
    Reset { initial_delay_us: u32, duration_us: u32 },
    Command(Command),
    Data(Seq<u8>),
    Fill { value: u8, count: u32 },
    DelayMs(u32),
    DelayUs(u32),
    SampleBusy,
    Finished,
    Failed,
}

impl<'a> View for Action<'a> {
    type V = ActionView;

    open spec fn view(&self) -> ActionView {
        match self {
            Action::Reset { initial_delay_us, duration_us } => ActionView::Reset {
                initial_delay_us: *initial_delay_us,
                duration_us: *duration_us,
            },
            Action::Command(command) => ActionView::Command(*command),
            Action::Data(data) => ActionView::Data(data@),
            Action::Frame(frame) => ActionView::Data(frame@),
            Action::Fill { value, count } => ActionView::Fill { value: *value, count: *count },
            Action::DelayMs(ms) => ActionView::DelayMs(*ms),
            Action::DelayUs(us) => ActionView::DelayUs(*us),
            Action::SampleBusy => ActionView::SampleBusy,
            Action::Finished => ActionView::Finished,
            Action::Failed => ActionView::Failed,
        }
    }
}

/// What came of the last action. A reading of the BUSY pin counts as success of any action.
#[derive(Clone, Copy, Debug, PartialEq, Eq, Structural)]
pub enum Event {
    /// It succeeded. This event also starts an operation.
    Done,
    /// The BUSY pin was read.
    BusyPin { low: bool },
    /// A write failed.
    Failed,
}

impl Event {
    /// The event reports that the controller is busy.
    pub open spec fn is_busy(self) -> bool {
        match self {
            Event::BusyPin { low } => low == IS_BUSY_LOW,
            _ => false,
        }
    }

    /// The event reports that the controller is idle.
    pub open spec fn is_idle(self) -> bool {
        match self {
            Event::BusyPin { low } => low != IS_BUSY_LOW,
            _ => false,
        }
    }

    /// Whether the event reports that the controller is idle.
    pub fn reports_idle(self) -> (idle: bool)
        ensures
            idle == self.is_idle(),
    {
        match self {
            Event::BusyPin { low } => low != IS_BUSY_LOW,
            _ => false,
        }
    }

    /// Whether the event reports that the controller is busy.
    pub fn reports_busy(self) -> (busy: bool)
        ensures
            busy == self.is_busy(),
    {
        match self {
            Event::BusyPin { low } => low == IS_BUSY_LOW,
            _ => false,
        }
    }
}

/// How far the first step that is left has come.
#[derive(Clone, Copy, Debug, PartialEq, Eq, Structural)]
pub enum Phase {
    /// It has not been started.
    Waiting,
    /// Its action was handed out; for a wait, that is the status query.
    Issued,
    /// The pause after a status query was handed out.
    Pausing,
    /// The look at BUSY was handed out.
    Sampling,
    /// A write failed; nothing more is handed out.
    Failed,
}

/// What is left of an operation.
#[verifier::ext_equal]
pub struct OperationView {
    pub todo: Seq<StepView>,
    pub phase: Phase,
}

/// The action that carries out a step; for a wait, the first one.
pub open spec fn first_action(step: StepView) -> ActionView {
    match step {
        StepView::Reset { initial_delay_us, duration_us } => ActionView::Reset {
            initial_delay_us,
            duration_us,
        },
        StepView::Command(command) => ActionView::Command(command),
        StepView::Data(data) => ActionView::Data(data),
        StepView::Fill { value, count } => ActionView::Fill { value, count },
        StepView::DelayMs(ms) => ActionView::DelayMs(ms),
        StepView::WaitIdle => ActionView::Command(Command::GetStatus),
        StepView::Note(_) => ActionView::Finished,
    }
}

/// Carries out the notes in front and hands out the action of the step behind them.
pub open spec fn begin(state: DriverState, todo: Seq<StepView>) -> (
    DriverState,
    OperationView,
    ActionView,
)
    decreases todo.len(),
{
    if todo.len() == 0 {
        (state, OperationView { todo, phase: Phase::Waiting }, ActionView::Finished)
    } else {
        match todo[0] {
            StepView::Note(note) => begin(state.noted(note), todo.drop_first()),
            step => (state, OperationView { todo, phase: Phase::Issued }, first_action(step)),
        }
    }
}

/// One move of an operation: the state, what is left and the action, after an event.
///
/// A wait sends the status query, pauses, and looks at BUSY, again and again until BUSY reads
/// released. A look that is not answered with the pin's level is asked for again. Every other
/// step is over once its action has succeeded. A failure ends the operation and leaves the
/// bookkeeping as it is.
pub open spec fn advanced(state: DriverState, operation: OperationView, event: Event) -> (
    DriverState,
    OperationView,
    ActionView,
) {
    let todo = operation.todo;
    if event == Event::Failed || operation.phase == Phase::Failed {
        (state, OperationView { todo, phase: Phase::Failed }, ActionView::Failed)
    } else if todo.len() == 0 || operation.phase == Phase::Waiting {
        begin(state, todo)
    } else if operation.phase == Phase::Issued && todo[0] == StepView::WaitIdle && state.delay_us
        > 0 {
        (
            state,
            OperationView { todo, phase: Phase::Pausing },
            ActionView::DelayUs(state.delay_us),
        )
    } else if operation.phase == Phase::Pausing || operation.phase == Phase::Issued && todo[0]
        == StepView::WaitIdle {
        (state, OperationView { todo, phase: Phase::Sampling }, ActionView::SampleBusy)
    } else if operation.phase == Phase::Sampling && event.is_busy() {
        (
            state,
            OperationView { todo, phase: Phase::Issued },
            ActionView::Command(Command::GetStatus),
        )
    } else if operation.phase == Phase::Sampling && !event.is_idle() {
        (state, OperationView { todo, phase: Phase::Sampling }, ActionView::SampleBusy)
    } else {
        begin(state, todo.drop_first())
    }
}

/// A plan under way.
pub struct Operation<'a> {
    plan: Plan<'a>,
    next: usize,
    phase: Phase,
}

impl<'a> View for Operation<'a> {
    type V = OperationView;

    closed spec fn view(&self) -> OperationView {
        OperationView {
            todo: if self.next <= self.plan@.len() {
                self.plan@.skip(self.next as int)
            } else {
                seq![]
            },
            phase: self.phase,
        }
    }
}

impl<'a> Operation<'a> {
    /// An operation that has not been started.
    pub fn new(plan: Plan<'a>) -> (operation: Self)
        ensures
            operation@ == (OperationView { todo: plan@, phase: Phase::Waiting }),
    {
        let operation = Operation { plan, next: 0, phase: Phase::Waiting };
        assert(operation@.todo =~= plan@);
        operation
    }

    /// Carries out the notes in front and hands out the action of the step behind them.
    fn begin(&mut self, epd: &mut Epd7in5) -> (action: Action<'a>)
        ensures
            (final(epd)@, final(self)@, action@) == begin(old(epd)@, old(self)@.todo),
    {
        let ghost goal = begin(epd@, self@.todo);
        while self.next < self.plan.len()
            invariant
                goal == begin(old(epd)@, old(self)@.todo),
                begin(epd@, self@.todo) == goal,
            ensures
                begin(epd@, self@.todo) == goal,
                self@.todo.len() == 0,
            decreases self.plan@.len() - self.next,
        {
            assert(self@.todo[0] == self.plan@[self.next as int]);
            let action = match self.plan.step(self.next) {
                Step::Note(note) => {
                    epd.apply(*note);
                    let ghost before = self@.todo;
                    self.next = self.next + 1;
                    assert(self@.todo =~= before.drop_first());
                    continue;
                },
                Step::Reset { initial_delay_us, duration_us } => Action::Reset {
                    initial_delay_us: *initial_delay_us,
                    duration_us: *duration_us,
                },
                Step::Command(command) => Action::Command(*command),
                Step::Data(data) => {
                    let copy = data.clone();
                    assert(copy@ =~= data@);
                    Action::Data(copy)
                },
                Step::Frame(frame) => Action::Frame(frame),
                Step::Fill { value, count } => Action::Fill { value: *value, count: *count },
                Step::DelayMs(ms) => Action::DelayMs(*ms),
                Step::WaitIdle => Action::Command(Command::GetStatus),
            };
            self.phase = Phase::Issued;
            return action;
        }
        self.phase = Phase::Waiting;
        Action::Finished
    }

    /// Takes the outcome of the last action and hands out the next one, updating the driver's
    /// bookkeeping as far as the operation has come.
    pub fn advance(&mut self, epd: &mut Epd7in5, event: Event) -> (action: Action<'a>)
        ensures
            (final(epd)@, final(self)@, action@) == advanced(old(epd)@, old(self)@, event),
    {
        if event == Event::Failed || self.phase == Phase::Failed {
            self.phase = Phase::Failed;
            return Action::Failed;
        }
        if self.next >= self.plan.len() || self.phase == Phase::Waiting {
            return self.begin(epd);
        }
        assert(self@.todo[0] == self.plan@[self.next as int]);
        let waits = match self.plan.step(self.next) {
            Step::WaitIdle => true,
            _ => false,
        };
        if self.phase == Phase::Issued && waits && epd.poll_delay_us() > 0 {
            self.phase = Phase::Pausing;
            return Action::DelayUs(epd.poll_delay_us());
        }
        if self.phase == Phase::Pausing || self.phase == Phase::Issued && waits {
            self.phase = Phase::Sampling;
            return Action::SampleBusy;
        }
        if self.phase == Phase::Sampling && event.reports_busy() {
            self.phase = Phase::Issued;
            return Action::Command(Command::GetStatus);
        }
        if self.phase == Phase::Sampling && !event.reports_idle() {
            return Action::SampleBusy;
        }
        let ghost before = self@.todo;
        self.next = self.next + 1;
        assert(self@.todo =~= before.drop_first());
        self.begin(epd)
    }
}

/// BUSY is asserted while the pin reads low, and released while it reads high. No other event
/// says anything about it.
pub proof fn law_busy_is_low(event: Event)
    ensures
        event.is_busy() <==> event == (Event::BusyPin { low: true }),
        event.is_idle() <==> event == (Event::BusyPin { low: false }),
{
}

} // verus!
