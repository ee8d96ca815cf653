//! Histories: what holds of the driver and the panel after any sequence of operations.

use vstd::prelude::*;

use crate::color::Color;
use crate::command::Command;
use crate::geometry::{self, FRAME_BYTES};
use crate::laws;
use crate::mode::{self, RefreshLut, RefreshMode};
use crate::operation::{self, ActionView, Event};
use crate::panel::{self, Panel, Window};
use crate::protocol::{self, DriverState};
use crate::run::{self, Moment};
use crate::step::{Note, StepView};

verus! {

/// A call of one of the driver's operations.
pub enum Call {
    WakeUp,
    Sleep,
    PowerOffRetainingRam,
    WaitUntilIdle,
    UpdateFrame(Seq<u8>),
    UpdatePartialFrame(Seq<u8>, Window),
    DisplayFrame,
    UpdateAndDisplayFrame(Seq<u8>),
    ClearFrame,
    SetRefreshMode(RefreshMode),
    SetLut(Option<RefreshLut>),
    SetBackgroundColor(Color),
}

impl Call {
    /// The call meets what the operation asks of its arguments.
    pub open spec fn is_valid(self) -> bool {
        match self {
            Call::UpdateFrame(buffer) => buffer.len() == FRAME_BYTES,
            Call::UpdateAndDisplayFrame(buffer) => buffer.len() == FRAME_BYTES,
            Call::UpdatePartialFrame(buffer, w) => geometry::valid_region(
                buffer.len() as int,
                w.x,
                w.y,
                w.width,
                w.height,
            ),
            _ => true,
        }
    }

    /// The steps of the call.
    pub open spec fn steps(self, state: DriverState) -> Seq<StepView> {
        match self {
            Call::WakeUp => protocol::init_steps(),
            Call::Sleep => protocol::sleep_steps(),
            Call::PowerOffRetainingRam => protocol::power_off_steps(100),
            Call::WaitUntilIdle => seq![StepView::WaitIdle],
            Call::UpdateFrame(buffer) => state.update_frame_steps(buffer),
            Call::UpdatePartialFrame(buffer, w) => state.update_partial_frame_steps(
                buffer,
                w.x,
                w.y,
                w.width,
                w.height,
            ),
            Call::DisplayFrame => state.display_frame_steps(),
            Call::UpdateAndDisplayFrame(buffer) => state.update_and_display_frame_steps(buffer),
            Call::ClearFrame => state.clear_frame_steps(),
            Call::SetRefreshMode(mode) => protocol::set_refresh_mode_steps(mode),
            Call::SetLut(lut) => protocol::set_refresh_mode_steps(mode::lut_mode(lut)),
            Call::SetBackgroundColor(_) => seq![],
        }
    }

    /// The driver's bookkeeping once the call has succeeded.
    pub open spec fn outcome(self, state: DriverState) -> DriverState {
        match self {
            Call::SetBackgroundColor(color) => DriverState { color, ..state },
            _ => state.after(self.steps(state)),
        }
    }
}

/// The bookkeeping after calls that all succeeded.
pub open spec fn state_after(state: DriverState, calls: Seq<Call>) -> DriverState
    decreases calls.len(),
{
    if calls.len() == 0 {
        state
    } else {
        calls.last().outcome(state_after(state, calls.drop_last()))
    }
}

/// The panel after calls that all succeeded.
pub open spec fn panel_after(state: DriverState, panel: Panel, calls: Seq<Call>) -> Panel
    decreases calls.len(),
{
    if calls.len() == 0 {
        panel
    } else {
        panel_after(state, panel, calls.drop_last()).after(
            calls.last().steps(state_after(state, calls.drop_last())),
        )
    }
}

/// Every operation keeps the bookkeeping true of the panel, at each of its steps.
pub proof fn law_every_call_stays_in_sync(state: DriverState, panel: Panel, call: Call)
    requires
        panel::in_sync(state, panel),
        call.is_valid(),
    ensures
        panel::in_sync_throughout(state, panel, call.steps(state)),
        panel::in_sync(call.outcome(state), panel.after(call.steps(state))),
{
    let steps = call.steps(state);
    match call {
        Call::WakeUp => laws::law_wake_up(state, panel),
        Call::Sleep => laws::law_sleep(state, panel),
        Call::PowerOffRetainingRam => laws::law_power_off(state, panel, 100),
        Call::WaitUntilIdle => laws::lemma_sync_one(state, panel, StepView::WaitIdle),
        Call::UpdateFrame(buffer) => laws::law_update_frame(state, panel, buffer),
        Call::UpdatePartialFrame(buffer, w) => laws::law_update_partial_frame(
            state,
            panel,
            buffer,
            w.x,
            w.y,
            w.width,
            w.height,
        ),
        Call::DisplayFrame => laws::law_display_frame(state, panel),
        Call::UpdateAndDisplayFrame(buffer) => laws::law_update_and_display_frame(
            state,
            panel,
            buffer,
        ),
        Call::ClearFrame => laws::law_clear_frame(state, panel),
        Call::SetRefreshMode(mode) => laws::law_set_refresh_mode(state, panel, mode),
        Call::SetLut(lut) => laws::law_set_refresh_mode(state, panel, mode::lut_mode(lut)),
        Call::SetBackgroundColor(_) => laws::lemma_sync_empty(state, panel),
    }
    assert(steps.take(steps.len() as int) =~= steps);
}

/// Every operation that addresses a running controller waits for BUSY to be released first.
pub proof fn law_operations_wait_first(state: DriverState, call: Call)
    requires
        !(call is WakeUp),
        !(call is SetBackgroundColor),
    ensures
        call.steps(state).len() > 0,
        call.steps(state)[0] == StepView::WaitIdle,
{
}

/// What each operation changes about the bookkeeping, in any state: only the two selectors
/// change the selected mode; a reset and deep sleep make the next refresh the first one again
/// and the RAM unknown; a refresh ends that; and every operation on a frame makes sure that the
/// RAM is initialized.
pub proof fn law_what_calls_change(state: DriverState, call: Call)
    ensures
        call.outcome(state).refresh_mode == match call {
            Call::SetRefreshMode(mode) => mode,
            Call::SetLut(lut) => mode::lut_mode(lut),
            _ => state.refresh_mode,
        },
        call.outcome(state).initial_refresh == match call {
            Call::WakeUp | Call::Sleep => true,
            Call::DisplayFrame | Call::UpdateAndDisplayFrame(_) | Call::ClearFrame => false,
            _ => state.initial_refresh,
        },
        call.outcome(state).ram_initialized == match call {
            Call::WakeUp | Call::Sleep => false,
            Call::UpdateFrame(_) | Call::UpdatePartialFrame(_, _) => true,
            Call::DisplayFrame | Call::UpdateAndDisplayFrame(_) | Call::ClearFrame => true,
            _ => state.ram_initialized,
        },
        call.outcome(state).color == match call {
            Call::SetBackgroundColor(color) => color,
            _ => state.color,
        },
        call.outcome(state).delay_us == state.delay_us,
{
    match call {
        Call::WakeUp => lemma_wake_up_outcome(state),
        Call::Sleep => lemma_sleep_outcome(state),
        Call::PowerOffRetainingRam => {
            laws::lemma_without_notes(state, protocol::power_off_steps(100));
        },
        Call::WaitUntilIdle => laws::lemma_without_notes(state, seq![StepView::WaitIdle]),
        Call::UpdateFrame(buffer) => lemma_update_outcome(state, buffer),
        Call::UpdatePartialFrame(buffer, w) => lemma_update_partial_outcome(state, buffer, w),
        Call::DisplayFrame => laws::lemma_displayed(state),
        Call::UpdateAndDisplayFrame(buffer) => lemma_update_and_display_outcome(state, buffer),
        Call::ClearFrame => lemma_clear_outcome(state),
        Call::SetRefreshMode(mode) => lemma_select_outcome(state, mode),
        Call::SetLut(lut) => lemma_select_outcome(state, mode::lut_mode(lut)),
        Call::SetBackgroundColor(_) => {},
    }
}

proof fn lemma_wake_up_outcome(state: DriverState)
    ensures
        state.after(protocol::init_steps()) == state.noted(Note::BaselineLost),
{
    let none = Seq::<StepView>::empty();
    let steps = protocol::init_steps();
    let behind = steps.drop_first();
    assert(steps =~= none + seq![StepView::Note(Note::BaselineLost)] + behind);
    laws::lemma_one_note(state, none, Note::BaselineLost, behind);
}

proof fn lemma_sleep_outcome(state: DriverState)
    ensures
        state.after(protocol::sleep_steps()) == state.noted(Note::BaselineLost),
{
    let off = protocol::power_off_steps(1);
    let steps = protocol::sleep_steps();
    let behind = steps.skip(5);
    assert(steps =~= off + seq![StepView::Note(Note::BaselineLost)] + behind);
    laws::lemma_one_note(state, off, Note::BaselineLost, behind);
}

proof fn lemma_update_outcome(state: DriverState, buffer: Seq<u8>)
    ensures
        state.after(state.update_frame_steps(buffer)) == state.prepared(),
{
    let tail = state.update_frame_steps(buffer).skip(state.prepare_steps().len() as int);
    assert(state.update_frame_steps(buffer) =~= state.prepare_steps() + tail);
    laws::lemma_prepared_and(state, tail);
}

proof fn lemma_update_partial_outcome(state: DriverState, buffer: Seq<u8>, w: Window)
    ensures
        state.after(state.update_partial_frame_steps(buffer, w.x, w.y, w.width, w.height))
            == state.prepared(),
{
    let steps = state.update_partial_frame_steps(buffer, w.x, w.y, w.width, w.height);
    let tail = steps.skip(state.prepare_steps().len() as int);
    assert(steps =~= state.prepare_steps() + tail);
    laws::lemma_prepared_and(state, tail);
}

proof fn lemma_update_and_display_outcome(state: DriverState, buffer: Seq<u8>)
    ensures
        state.after(state.update_and_display_frame_steps(buffer)) == (DriverState {
            initial_refresh: false,
            ..state.prepared()
        }),
{
    let show = state.prepared().display_frame_steps();
    lemma_update_outcome(state, buffer);
    laws::lemma_state_add(state, state.update_frame_steps(buffer), show);
    laws::lemma_displayed(state.prepared());
}

proof fn lemma_clear_outcome(state: DriverState)
    ensures
        state.after(state.clear_frame_steps()) == (DriverState {
            initial_refresh: false,
            ..state.prepared()
        }),
{
    let show = state.prepared().display_frame_steps();
    let steps = state.clear_frame_steps();
    let write = steps.take(steps.len() - show.len());
    let tail = write.skip(state.prepare_steps().len() as int);
    assert(write =~= state.prepare_steps() + tail);
    assert(steps =~= write + show);
    laws::lemma_prepared_and(state, tail);
    laws::lemma_state_add(state, write, show);
    laws::lemma_displayed(state.prepared());
}

proof fn lemma_select_outcome(state: DriverState, mode: RefreshMode)
    ensures
        state.after(protocol::set_refresh_mode_steps(mode)) == state.noted(Note::Selected(mode)),
{
    let wait = seq![StepView::WaitIdle];
    let none = Seq::<StepView>::empty();
    assert(protocol::set_refresh_mode_steps(mode) =~= wait + seq![
        StepView::Note(Note::Selected(mode)),
    ] + none);
    laws::lemma_one_note(state, wait, Note::Selected(mode), none);
}

/// Only the differential mode falls back, and only to Full, and only until a refresh has
/// finished: Full and Fast are executed as selected, also by the first refresh after
/// construction, a reset or deep sleep.
pub proof fn law_fallback(state: DriverState, delay_us: Option<u32>, mode: RefreshMode)
    ensures
        ({
            let chosen = DriverState { refresh_mode: mode, ..state };
            let constructed = DriverState::fresh(delay_us);
            let fallback = if mode == RefreshMode::Partial {
                RefreshMode::Full
            } else {
                mode
            };
            &&& Call::SetRefreshMode(mode).outcome(constructed).effective_mode() == fallback
            &&& Call::WakeUp.outcome(chosen).effective_mode() == fallback
            &&& Call::Sleep.outcome(chosen).effective_mode() == fallback
            &&& Call::DisplayFrame.outcome(chosen).effective_mode() == mode
        }),
{
    let chosen = DriverState { refresh_mode: mode, ..state };
    law_what_calls_change(DriverState::fresh(delay_us), Call::SetRefreshMode(mode));
    law_what_calls_change(chosen, Call::WakeUp);
    law_what_calls_change(chosen, Call::Sleep);
    law_what_calls_change(chosen, Call::DisplayFrame);
}

/// A call that may have failed: it was carried through its first `done` steps, or through all of
/// them where it has no more than that.
pub struct Attempt {
    pub call: Call,
    pub done: nat,
}

impl Attempt {
    /// The driver's bookkeeping after the attempt.
    pub open spec fn outcome(self, state: DriverState) -> DriverState {
        let steps = self.call.steps(state);
        if self.done < steps.len() {
            state.after(steps.take(self.done as int))
        } else {
            self.call.outcome(state)
        }
    }
}

/// The bookkeeping after calls of which any may have failed at any step.
pub open spec fn state_after_attempts(state: DriverState, attempts: Seq<Attempt>) -> DriverState
    decreases attempts.len(),
{
    if attempts.len() == 0 {
        state
    } else {
        attempts.last().outcome(state_after_attempts(state, attempts.drop_last()))
    }
}

/// Whatever the bus reports during a call, the bookkeeping it leaves is that of an attempt.
pub proof fn law_runs_are_attempts(
    state: DriverState,
    panel: Panel,
    call: Call,
    events: Seq<Event>,
)
    requires
        !(call is SetBackgroundColor),
    ensures
        exists|done: nat|
            Moment::start(state, panel, call.steps(state)).after(events).state == (
            #[trigger] (Attempt { call, done }).outcome(state)),
{
    let steps = call.steps(state);
    let now = Moment::start(state, panel, steps).after(events).state;
    run::law_failed_runs_stop_between_steps(state, panel, steps, events);
    let done = choose|done: int|
        0 <= done <= steps.len() && now == state.after(#[trigger] steps.take(done));
    assert(steps.take(steps.len() as int) =~= steps);
    assert(now == (Attempt { call, done: done as nat }).outcome(state));
}

/// A baseline is only ever claimed with an initialized RAM: where that holds at first, as it
/// does of a new driver and of one that resumes from standby, it holds after any calls,
/// whether they succeeded or failed.
pub proof fn law_baseline_needs_initialized_ram(state: DriverState, attempts: Seq<Attempt>)
    requires
        !state.initial_refresh ==> state.ram_initialized,
        forall|i: int| 0 <= i < attempts.len() ==> (#[trigger] attempts[i]).call.is_valid(),
    ensures
        ({
            let now = state_after_attempts(state, attempts);
            !now.initial_refresh ==> now.ram_initialized
        }),
    decreases attempts.len(),
{
    if attempts.len() > 0 {
        let earlier = attempts.drop_last();
        assert forall|i: int| 0 <= i < earlier.len() implies (
        #[trigger] earlier[i]).call.is_valid() by {
            assert(earlier[i] == attempts[i]);
        }
        law_baseline_needs_initialized_ram(state, earlier);
        let before = state_after_attempts(state, earlier);
        let last = attempts.last();
        let steps = last.call.steps(before);
        let image = Some(panel::uniform(0x00, FRAME_BYTES));
        let screen = Panel {
            command: None,
            new_ram: image,
            old_ram: image,
            shown: image,
            partial: None,
            window: None,
            copies: None,
            forced: None,
            temperature: None,
            waveform: None,
        };
        assert(attempts[attempts.len() - 1].call.is_valid());
        law_every_call_stays_in_sync(before, screen, last.call);
        if last.done < steps.len() {
            let done = last.done as int;
            assert(panel::in_sync(before.after(steps.take(done)), screen.after(steps.take(done))));
        }
    }
}

/// Steps that do not lose the baseline leave an initialized RAM initialized.
proof fn lemma_ram_stays_initialized(state: DriverState, steps: Seq<StepView>)
    requires
        state.ram_initialized,
        forall|i: int|
            0 <= i < steps.len() ==> #[trigger] steps[i] != StepView::Note(Note::BaselineLost),
    ensures
        state.after(steps).ram_initialized,
    decreases steps.len(),
{
    if steps.len() > 0 {
        assert(steps[0] != StepView::Note(Note::BaselineLost));
        let rest = steps.drop_first();
        assert forall|i: int| 0 <= i < rest.len() implies #[trigger] rest[i] != StepView::Note(
            Note::BaselineLost,
        ) by {
            assert(rest[i] == steps[i + 1]);
        }
        lemma_ram_stays_initialized(state.stepped(steps[0]), rest);
    }
}

/// Only a reset and deep sleep lose the baseline.
#[verifier::spinoff_prover]
#[verifier::rlimit(40)]
proof fn lemma_other_calls_keep_the_ram(state: DriverState, call: Call)
    requires
        state.ram_initialized,
        !(call is WakeUp),
        !(call is Sleep),
    ensures
        forall|i: int|
            0 <= i < call.steps(state).len() ==> #[trigger] call.steps(state)[i] != StepView::Note(
                Note::BaselineLost,
            ),
{
    let steps = call.steps(state);
    let show = state.display_frame_steps();
    assert(state.prepared() == state);
    assert forall|i: int| 0 <= i < show.len() implies #[trigger] show[i] != StepView::Note(
        Note::BaselineLost,
    ) by {}
    match call {
        Call::UpdateAndDisplayFrame(_) | Call::ClearFrame => {
            let write = steps.take(steps.len() - show.len());
            assert forall|i: int| 0 <= i < steps.len() implies #[trigger] steps[i]
                != StepView::Note(Note::BaselineLost) by {
                if i >= write.len() {
                    assert(steps[i] == show[i - write.len()]);
                }
            }
        },
        _ => {},
    }
}

/// With an initialized RAM no call writes the previous image.
proof fn lemma_no_old_image(state: DriverState, call: Call)
    requires
        state.ram_initialized,
    ensures
        forall|i: int|
            0 <= i < call.steps(state).len() ==> !laws::starts_old_image(
                #[trigger] call.steps(state)[i],
            ),
{
    match call {
        Call::UpdateFrame(buffer) | Call::UpdateAndDisplayFrame(buffer) => {
            laws::law_no_second_write(state, buffer, 0, 0, 0, 0);
        },
        Call::UpdatePartialFrame(buffer, w) => {
            laws::law_no_second_write(state, buffer, w.x, w.y, w.width, w.height);
        },
        Call::DisplayFrame | Call::ClearFrame => {
            laws::law_no_second_write(state, seq![], 0, 0, 0, 0);
        },
        _ => {},
    }
}

/// Once the RAM is initialized, only a reset or deep sleep leads to a second initialization:
/// after any other calls, whether they succeeded or failed, no call initializes the RAM again or
/// writes the previous image.
pub proof fn law_ram_is_initialized_once(
    state: DriverState,
    attempts: Seq<Attempt>,
    call: Call,
)
    requires
        state.ram_initialized,
        forall|i: int|
            0 <= i < attempts.len() ==> {
                let other = (#[trigger] attempts[i]).call;
                !(other is WakeUp) && !(other is Sleep)
            },
    ensures
        ({
            let now = state_after_attempts(state, attempts);
            &&& now.ram_initialized
            &&& now.initialize_ram_steps().len() == 0
            &&& forall|i: int|
                0 <= i < call.steps(now).len() ==> !laws::starts_old_image(
                    #[trigger] call.steps(now)[i],
                )
        }),
    decreases attempts.len(),
{
    if attempts.len() > 0 {
        let earlier = attempts.drop_last();
        assert forall|i: int| 0 <= i < earlier.len() implies {
            let other = (#[trigger] earlier[i]).call;
            !(other is WakeUp) && !(other is Sleep)
        } by {
            assert(earlier[i] == attempts[i]);
        }
        law_ram_is_initialized_once(state, earlier, call);
        let before = state_after_attempts(state, earlier);
        let last = attempts[attempts.len() - 1];
        let steps = last.call.steps(before);
        if last.done < steps.len() {
            lemma_other_calls_keep_the_ram(before, last.call);
            assert forall|i: int| 0 <= i < last.done implies #[trigger] steps.take(
                last.done as int,
            )[i] != StepView::Note(Note::BaselineLost) by {
                assert(steps.take(last.done as int)[i] == steps[i]);
            }
            lemma_ram_stays_initialized(before, steps.take(last.done as int));
        } else {
            law_what_calls_change(before, last.call);
        }
    }
    lemma_no_old_image(state_after_attempts(state, attempts), call);
}

/// Where a driver starts in sync with its panel, as a new one does and one that resumes from
/// standby, it stays so after any calls that succeeded.
pub proof fn law_any_history_is_in_sync(state: DriverState, panel: Panel, calls: Seq<Call>)
    requires
        panel::in_sync(state, panel),
        forall|i: int| 0 <= i < calls.len() ==> (#[trigger] calls[i]).is_valid(),
    ensures
        panel::in_sync(state_after(state, calls), panel_after(state, panel, calls)),
    decreases calls.len(),
{
    if calls.len() > 0 {
        let before = calls.drop_last();
        assert forall|i: int| 0 <= i < before.len() implies (#[trigger] before[i]).is_valid() by {
            assert(before[i] == calls[i]);
        }
        law_any_history_is_in_sync(state, panel, before);
        assert(calls.last().is_valid());
        law_every_call_stays_in_sync(
            state_after(state, before),
            panel_after(state, panel, before),
            calls.last(),
        );
    }
}

/// After any calls that succeeded, writing and displaying a frame shows that frame, with the
/// waveform that was told beforehand, whatever the bus reports on the way to the success.
pub proof fn law_displayed_frame_is_shown(
    state: DriverState,
    panel: Panel,
    calls: Seq<Call>,
    buffer: Seq<u8>,
    events: Seq<Event>,
)
    requires
        panel::in_sync(state, panel),
        forall|i: int| 0 <= i < calls.len() ==> (#[trigger] calls[i]).is_valid(),
        buffer.len() == FRAME_BYTES,
        run::no_failure(events),
        events.len() > 0,
    ensures
        ({
            let now = state_after(state, calls);
            let screen = panel_after(state, panel, calls);
            let plan = now.update_and_display_frame_steps(buffer);
            let end = Moment::start(now, screen, plan).after(events);
            end.action == ActionView::Finished ==> {
                &&& end.panel.shown == Some(buffer)
                &&& end.panel.waveform == Some(now.effective_mode())
                &&& !end.state.initial_refresh
            }
        }),
{
    let now = state_after(state, calls);
    let screen = panel_after(state, panel, calls);
    let plan = now.update_and_display_frame_steps(buffer);
    law_any_history_is_in_sync(state, panel, calls);
    laws::law_update_and_display_frame(now, screen, buffer);
    run::law_success_means_completion(now, screen, plan, events);
}

/// The operations that drive the panel.
pub open spec fn refreshes(call: Call) -> bool {
    call is DisplayFrame || call is UpdateAndDisplayFrame || call is ClearFrame
}

/// How a refresh ends, in every operation and every state: the refresh command is followed by a
/// pause of a millisecond, by a wait for BUSY and by the note that it has finished, and with
/// that the operation is over. There is one refresh command in an operation that drives the
/// panel and none in any other, and the note stands nowhere else.
#[verifier::spinoff_prover]
#[verifier::rlimit(40)]
pub proof fn law_refresh_ends_its_operation(state: DriverState, call: Call, i: int)
    requires
        0 <= i < call.steps(state).len(),
    ensures
        ({
            let steps = call.steps(state);
            let end = steps.len() - 4;
            &&& laws::starts_refresh(steps[i]) <==> refreshes(call) && i == end
            &&& steps[i] == StepView::Note(Note::Refreshed) <==> refreshes(call) && i == end + 3
            &&& refreshes(call) ==> end >= 0 && steps[end + 1] == StepView::DelayMs(1)
                && steps[end + 2] == StepView::WaitIdle
        }),
{
    match call {
        Call::DisplayFrame => lemma_refresh_ends_display(state, i),
        Call::UpdateAndDisplayFrame(buffer) => {
            let write = state.update_frame_steps(buffer);
            assert forall|k: int| 0 <= k < write.len() implies does_not_refresh(
                #[trigger] write[k],
            ) by {}
            lemma_refresh_ends_after(state, write, i);
        },
        Call::ClearFrame => {
            let steps = state.clear_frame_steps();
            let show = state.prepared().display_frame_steps();
            let write = steps.take(steps.len() - show.len());
            assert(steps =~= write + show);
            assert forall|k: int| 0 <= k < write.len() implies does_not_refresh(
                #[trigger] write[k],
            ) by {}
            lemma_refresh_ends_after(state, write, i);
        },
        _ => lemma_other_calls_do_not_refresh(state, call, i),
    }
}

/// The other operations neither start a refresh nor end one.
#[verifier::spinoff_prover]
#[verifier::rlimit(40)]
proof fn lemma_other_calls_do_not_refresh(state: DriverState, call: Call, i: int)
    requires
        !refreshes(call),
        0 <= i < call.steps(state).len(),
    ensures
        does_not_refresh(call.steps(state)[i]),
{
    match call {
        Call::WakeUp => assert(does_not_refresh(protocol::init_steps()[i])),
        Call::Sleep => assert(does_not_refresh(protocol::sleep_steps()[i])),
        Call::PowerOffRetainingRam => {
            assert(does_not_refresh(protocol::power_off_steps(100)[i]));
        },
        Call::UpdateFrame(buffer) => {
            assert(does_not_refresh(state.update_frame_steps(buffer)[i]));
        },
        Call::UpdatePartialFrame(buffer, w) => {
            let steps = state.update_partial_frame_steps(buffer, w.x, w.y, w.width, w.height);
            assert(does_not_refresh(steps[i]));
        },
        _ => {},
    }
}

/// A step that neither starts a refresh nor ends one.
spec fn does_not_refresh(step: StepView) -> bool {
    !laws::starts_refresh(step) && step != StepView::Note(Note::Refreshed)
}

/// How a refresh ends that follows steps of another kind.
proof fn lemma_refresh_ends_after(state: DriverState, write: Seq<StepView>, i: int)
    requires
        forall|k: int| 0 <= k < write.len() ==> does_not_refresh(#[trigger] write[k]),
        0 <= i < (write + state.prepared().display_frame_steps()).len(),
    ensures
        ({
            let steps = write + state.prepared().display_frame_steps();
            let end = steps.len() - 4;
            &&& end >= 0
            &&& laws::starts_refresh(steps[i]) <==> i == end
            &&& steps[i] == StepView::Note(Note::Refreshed) <==> i == end + 3
            &&& steps[end + 1] == StepView::DelayMs(1)
            &&& steps[end + 2] == StepView::WaitIdle
        }),
{
    let show = state.prepared().display_frame_steps();
    let steps = write + show;
    lemma_refresh_ends_display(state.prepared(), 0);
    if i >= write.len() {
        lemma_refresh_ends_display(state.prepared(), i - write.len());
        assert(steps[i] == show[i - write.len()]);
    } else {
        assert(steps[i] == write[i]);
    }
    assert(steps[steps.len() - 3] == show[show.len() - 3]);
    assert(steps[steps.len() - 2] == show[show.len() - 2]);
}

/// How a refresh alone ends.
#[verifier::spinoff_prover]
#[verifier::rlimit(40)]
proof fn lemma_refresh_ends_display(state: DriverState, i: int)
    requires
        0 <= i < state.display_frame_steps().len(),
    ensures
        ({
            let steps = state.display_frame_steps();
            let end = steps.len() - 4;
            &&& end >= 0
            &&& laws::starts_refresh(steps[i]) <==> i == end
            &&& steps[i] == StepView::Note(Note::Refreshed) <==> i == end + 3
            &&& steps[end + 1] == StepView::DelayMs(1)
            &&& steps[end + 2] == StepView::WaitIdle
        }),
{
}

/// Steps without the note of a refresh leave the first refresh to come.
proof fn lemma_first_refresh_is_to_come(state: DriverState, steps: Seq<StepView>)
    requires
        state.initial_refresh,
        forall|i: int|
            0 <= i < steps.len() ==> #[trigger] steps[i] != StepView::Note(Note::Refreshed),
    ensures
        state.after(steps).initial_refresh,
    decreases steps.len(),
{
    if steps.len() > 0 {
        let rest = steps.drop_first();
        assert(steps[0] != StepView::Note(Note::Refreshed));
        assert forall|i: int| 0 <= i < rest.len() implies #[trigger] rest[i] != StepView::Note(
            Note::Refreshed,
        ) by {
            assert(rest[i] == steps[i + 1]);
        }
        lemma_first_refresh_is_to_come(state.stepped(steps[0]), rest);
    }
}

/// A refresh is waited for: when an operation that drives the panel reports success, or when the
/// driver no longer takes the next refresh for the first one, a refresh command has been handed
/// out, and after it, in answer to a look at BUSY, the pin has read high.
pub proof fn law_refresh_is_waited_for(
    state: DriverState,
    panel: Panel,
    call: Call,
    events: Seq<Event>,
)
    requires
        run::no_failure(events),
        ({
            let now = Moment::start(state, panel, call.steps(state)).after(events);
            ||| refreshes(call) && now.action == ActionView::Finished
            ||| state.initial_refresh && !now.state.initial_refresh
        }),
    ensures
        ({
            let actions = run::handed_out(
                Moment::start(state, panel, call.steps(state)),
                events,
            );
            exists|i: int, j: int|
                0 <= i < j < events.len() - 1 && #[trigger] actions[i] == ActionView::Command(
                    Command::DisplayRefresh,
                ) && #[trigger] actions[j] == ActionView::SampleBusy && events[j + 1] == (
                Event::BusyPin { low: false })
        }),
{
    let plan = call.steps(state);
    let start = Moment::start(state, panel, plan);
    let now = start.after(events);
    let done = run::started(plan, now.operation);
    run::law_runs_are_on_course(state, panel, plan, events);
    if events.len() > 0 {
        run::law_success_means_completion(state, panel, plan, events);
    }
    // All of the plan has been started but for the note at its end.
    if state.initial_refresh && !now.state.initial_refresh {
        if !refreshes(call) || done < plan.len() {
            let steps = plan.take(done);
            assert forall|k: int| 0 <= k < steps.len() implies #[trigger] steps[k]
                != StepView::Note(Note::Refreshed) by {
                law_refresh_ends_its_operation(state, call, k);
                assert(steps[k] == plan[k]);
            }
            lemma_first_refresh_is_to_come(state, steps);
        }
    }
    assert(refreshes(call) && done == plan.len());
    assert(plan.len() > 0) by {
        law_operations_wait_first(state, call);
    }
    law_refresh_ends_its_operation(state, call, 0);
    let end = plan.len() - 4;
    law_refresh_ends_its_operation(state, call, end);
    assert(plan[end] == StepView::Command(Command::DisplayRefresh));
    run::law_started_steps_were_handed_out(state, panel, plan, events, end);
    let actions = run::handed_out(start, events);
    let i = choose|i: int|
        0 <= i < events.len() && #[trigger] actions[i] == operation::first_action(plan[end]);
    let earlier = events.take(i + 1);
    run::lemma_command_under_way(state, panel, plan, earlier, Command::DisplayRefresh);
    let reached = run::started(plan, start.after(earlier).operation);
    law_refresh_ends_its_operation(state, call, reached - 1);
    run::law_passed_wait_saw_release(state, panel, plan, events, i + 1, end + 2);
    let j = choose|j: int|
        i + 1 <= j < events.len() && start.after(#[trigger] events.take(j)).action
            == ActionView::SampleBusy && events[j] == (Event::BusyPin { low: false });
    assert(actions[j - 1] == ActionView::SampleBusy);
    assert(actions[i] == ActionView::Command(Command::DisplayRefresh));
}

/// Every operation queries the status only by waiting for BUSY, so what holds of polls holds of
/// all of them.
#[verifier::spinoff_prover]
#[verifier::rlimit(40)]
pub proof fn law_operations_query_by_waiting(state: DriverState, call: Call)
    ensures
        run::queries_by_waiting(call.steps(state)),
        run::queries_by_waiting(protocol::power_on_steps()),
{
    let show = state.prepared().display_frame_steps();
    lemma_display_queries_by_waiting(state.prepared());
    match call {
        Call::DisplayFrame => lemma_display_queries_by_waiting(state),
        Call::UpdateAndDisplayFrame(buffer) => {
            let write = state.update_frame_steps(buffer);
            assert(run::queries_by_waiting(write));
            lemma_queries_add(write, show);
        },
        Call::ClearFrame => {
            let steps = state.clear_frame_steps();
            let write = steps.take(steps.len() - show.len());
            assert(steps =~= write + show);
            assert(run::queries_by_waiting(write));
            lemma_queries_add(write, show);
        },
        _ => {},
    }
}

proof fn lemma_display_queries_by_waiting(state: DriverState)
    ensures
        run::queries_by_waiting(state.display_frame_steps()),
{
}

proof fn lemma_queries_add(a: Seq<StepView>, b: Seq<StepView>)
    requires
        run::queries_by_waiting(a),
        run::queries_by_waiting(b),
    ensures
        run::queries_by_waiting(a + b),
{
    assert forall|k: int| 0 <= k < (a + b).len() implies #[trigger] (a + b)[k]
        != StepView::Command(Command::GetStatus) by {
        if k >= a.len() {
            assert((a + b)[k] == b[k - a.len()]);
        } else {
            assert((a + b)[k] == a[k]);
        }
    }
}

} // verus!
