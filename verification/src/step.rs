//! Plans: what an operation does to the panel and to the driver, step by step.

use vstd::prelude::*;

use crate::command::Command;
use crate::mode::RefreshMode;

verus! {

/// A change of the driver's bookkeeping, made once every step before it has succeeded.
#[derive(Clone, Copy, Debug, PartialEq, Eq, Structural)]
pub enum Note {
    /// The controller's RAM and the baseline of differential refreshes are no longer known.
    BaselineLost,
    /// Both image RAMs of the controller hold a known image.
    RamInitialized,
    /// A refresh has finished, so the panel shows what the RAM holds.
    Refreshed,
    /// A waveform was selected for later refreshes.
    Selected(RefreshMode),
}

/// One step of a plan. Frames are borrowed, short register payloads are owned.
#[derive(Debug)]
pub enum Step<'a> {
    /// Pulse the reset pin: let it settle high, then hold it low.
    Reset { initial_delay_us: u32, duration_us: u32 },
    /// Send one command.
    Command(Command),
    /// Send the parameters of the command before it.
    Data(Vec<u8>),
    /// Send an image for the command before it.
    Frame(&'a [u8]),
    /// Send one byte over and over for the command before it.
    Fill { value: u8, count: u32 },
    /// Let time pass.
    DelayMs(u32),
    /// Poll BUSY until the controller is idle.
    WaitIdle,
    /// Update the driver's bookkeeping.
    Note(Note),
}

/// What a step means, with its payload as a sequence of bytes.
#[verifier::ext_equal]
pub enum StepView {
    Reset { initial_delay_us: u32, duration_us: u32 },
    Command(Command),
    Data(Seq<u8>),
    Fill { value: u8, count: u32 },
    DelayMs(u32),
    WaitIdle,
    Note(Note),
}

impl<'a> View for Step<'a> {
    type V = StepView;

    open spec fn view(&self) -> StepView {
        match self {
            Step::Reset { initial_delay_us, duration_us } => StepView::Reset {
                initial_delay_us: *initial_delay_us,
                duration_us: *duration_us,
            },
            Step::Command(command) => StepView::Command(*command),
            Step::Data(data) => StepView::Data(data@),
            Step::Frame(frame) => StepView::Data(frame@),
            Step::Fill { value, count } => StepView::Fill { value: *value, count: *count },
            Step::DelayMs(ms) => StepView::DelayMs(*ms),
            Step::WaitIdle => StepView::WaitIdle,
            Step::Note(note) => StepView::Note(*note),
        }
    }
}

/// A command followed by its parameters.
pub open spec fn setting(command: Command, data: Seq<u8>) -> Seq<StepView> {
    seq![StepView::Command(command), StepView::Data(data)]
}

/// The ordered steps of one operation. They are made for the driver's bookkeeping at the time
/// of planning, so a plan is carried out before the next one is made.
pub struct Plan<'a> {
    steps: Vec<Step<'a>>,
}

impl<'a> View for Plan<'a> {
    type V = Seq<StepView>;

    closed spec fn view(&self) -> Seq<StepView> {
        self.steps@.map_values(|step: Step<'a>| step@)
    }
}

impl<'a> Plan<'a> {
    /// A plan without steps.
    pub fn new() -> (plan: Self)
        ensures
            plan@ == Seq::<StepView>::empty(),
    {
        let plan = Plan { steps: Vec::new() };
        assert(plan@ =~= Seq::<StepView>::empty());
        plan
    }

    /// Appends one step.
    pub fn push(&mut self, step: Step<'a>)
        ensures
            final(self)@ == old(self)@.push(step@),
    {
        self.steps.push(step);
        assert(self@ =~= old(self)@.push(step@));
    }

    /// How many steps the plan has.
    pub fn len(&self) -> (len: usize)
        ensures
            len == self@.len(),
    {
        self.steps.len()
    }

    /// The step at a position.
    pub fn step(&self, index: usize) -> (step: &Step<'a>)
        requires
            index < self@.len(),
        ensures
            step@ == self@[index as int],
    {
        &self.steps[index]
    }
}

/// A setting is the command and then its parameters, all of them and nothing else.
pub proof fn law_setting(command: Command, data: Seq<u8>)
    ensures
        setting(command, data).len() == 2,
        setting(command, data)[0] == StepView::Command(command),
        setting(command, data)[1] == StepView::Data(data),
{
}

} // verus!
