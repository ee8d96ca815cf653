//! What the driver promises of the panel, proved over the steps of its operations.

use vstd::prelude::*;

use crate::color::Color;
use crate::command::Command;
use crate::geometry::{self, FRAME_BYTES, HEIGHT, ROW_BYTES, WIDTH};
use crate::mode::RefreshMode;
use crate::panel::{self, Panel, Window};
use crate::protocol::{self, DriverState};
use crate::step::{self, Note, StepView};

verus! {

/// Steps in a row have the effect on the bookkeeping of the first ones and then of the others.
pub(crate) proof fn lemma_state_add(state: DriverState, a: Seq<StepView>, b: Seq<StepView>)
    ensures
        state.after(a + b) == state.after(a).after(b),
    decreases a.len(),
{
    if a.len() == 0 {
        assert(a + b =~= b);
    } else {
        assert((a + b).drop_first() =~= a.drop_first() + b);
        lemma_state_add(state.stepped(a[0]), a.drop_first(), b);
    }
}

/// Steps in a row have the effect on the panel of the first ones and then of the others.
proof fn lemma_panel_add(panel: Panel, a: Seq<StepView>, b: Seq<StepView>)
    ensures
        panel.after(a + b) == panel.after(a).after(b),
    decreases a.len(),
{
    if a.len() == 0 {
        assert(a + b =~= b);
    } else {
        assert((a + b).drop_first() =~= a.drop_first() + b);
        lemma_panel_add(panel.stepped(a[0]), a.drop_first(), b);
    }
}

/// Steps in a row have the effect of the first ones and then of the others.
proof fn lemma_after_add(state: DriverState, panel: Panel, a: Seq<StepView>, b: Seq<StepView>)
    ensures
        state.after(a + b) == state.after(a).after(b),
        panel.after(a + b) == panel.after(a).after(b),
{
    lemma_state_add(state, a, b);
    lemma_panel_add(panel, a, b);
}

/// One more step has its effect last.
pub(crate) proof fn lemma_after_push(
    state: DriverState,
    panel: Panel,
    steps: Seq<StepView>,
    step: StepView,
)
    ensures
        state.after(steps.push(step)) == state.after(steps).stepped(step),
        panel.after(steps.push(step)) == panel.after(steps).stepped(step),
{
    let one = seq![step];
    assert(steps.push(step) =~= steps + one);
    lemma_after_add(state, panel, steps, one);
    assert(one.drop_first() =~= Seq::<StepView>::empty());
    reveal_with_fuel(DriverState::after, 2);
    reveal_with_fuel(Panel::after, 2);
}

/// A bookkeeping that is true throughout some steps and after one more is true throughout all.
proof fn lemma_sync_push(state: DriverState, panel: Panel, steps: Seq<StepView>, step: StepView)
    requires
        panel::in_sync_throughout(state, panel, steps),
        panel::in_sync(state.after(steps).stepped(step), panel.after(steps).stepped(step)),
    ensures
        panel::in_sync_throughout(state, panel, steps.push(step)),
        state.after(steps.push(step)) == state.after(steps).stepped(step),
        panel.after(steps.push(step)) == panel.after(steps).stepped(step),
{
    lemma_after_push(state, panel, steps, step);
    let all = steps.push(step);
    assert forall|done: int| 0 <= done <= all.len() implies panel::in_sync(
        state.after(#[trigger] all.take(done)),
        panel.after(all.take(done)),
    ) by {
        if done <= steps.len() {
            assert(all.take(done) =~= steps.take(done));
        } else {
            assert(all.take(done) =~= all);
        }
    }
}

/// A bookkeeping that is true throughout two runs of steps is true throughout both in a row.
proof fn lemma_sync_add(state: DriverState, panel: Panel, a: Seq<StepView>, b: Seq<StepView>)
    requires
        panel::in_sync_throughout(state, panel, a),
        panel::in_sync_throughout(state.after(a), panel.after(a), b),
    ensures
        panel::in_sync_throughout(state, panel, a + b),
        state.after(a + b) == state.after(a).after(b),
        panel.after(a + b) == panel.after(a).after(b),
{
    lemma_after_add(state, panel, a, b);
    let all = a + b;
    assert forall|done: int| 0 <= done <= all.len() implies panel::in_sync(
        state.after(#[trigger] all.take(done)),
        panel.after(all.take(done)),
    ) by {
        if done <= a.len() {
            assert(all.take(done) =~= a.take(done));
        } else {
            assert(all.take(done) =~= a + b.take(done - a.len()));
            lemma_after_add(state, panel, a, b.take(done - a.len()));
        }
    }
}

/// Having nothing to do leaves everything as it is.
pub(crate) proof fn lemma_sync_empty(state: DriverState, panel: Panel)
    requires
        panel::in_sync(state, panel),
    ensures
        panel::in_sync_throughout(state, panel, Seq::<StepView>::empty()),
        state.after(Seq::<StepView>::empty()) == state,
        panel.after(Seq::<StepView>::empty()) == panel,
{
    let none = Seq::<StepView>::empty();
    assert forall|done: int| 0 <= done <= none.len() implies panel::in_sync(
        state.after(#[trigger] none.take(done)),
        panel.after(none.take(done)),
    ) by {
        assert(none.take(done) =~= none);
    }
}

/// A command and its parameters.
proof fn lemma_setting(state: DriverState, panel: Panel, command: Command, data: Seq<u8>)
    requires
        panel::in_sync(state, panel),
        panel::in_sync(state, panel.commanded(command)),
        panel::in_sync(state, panel.commanded(command).received(data)),
    ensures
        panel::in_sync_throughout(state, panel, step::setting(command, data)),
        state.after(step::setting(command, data)) == state,
        panel.after(step::setting(command, data)) == panel.commanded(command).received(data),
{
    lemma_sync_empty(state, panel);
    let none = Seq::<StepView>::empty();
    lemma_sync_push(state, panel, none, StepView::Command(command));
    lemma_sync_push(
        state,
        panel,
        none.push(StepView::Command(command)),
        StepView::Data(data),
    );
    assert(step::setting(command, data) =~= none.push(StepView::Command(command)).push(
        StepView::Data(data),
    ));
}

/// Selecting a waveform sets the registers for it and turns on the copy of the new image to the
/// previous one; no image changes.
proof fn lemma_configure_refresh(state: DriverState, panel: Panel, mode: RefreshMode)
    requires
        panel::in_sync(state, panel),
    ensures
        ({
            let steps = protocol::configure_refresh_steps(mode);
            let after = panel.after(steps);
            &&& panel::in_sync_throughout(state, panel, steps)
            &&& state.after(steps) == state
            &&& after.selected() == Some(mode)
            &&& after == Panel {
                command: after.command,
                copies: Some(true),
                forced: after.forced,
                temperature: after.temperature,
                ..panel
            }
        }),
{
    let s1 = step::setting(Command::PanelSetting, seq![0x1fu8]);
    let s2 = step::setting(Command::VcomAndDataIntervalSetting, seq![0x29u8, 0x07u8]);
    lemma_setting(state, panel, Command::PanelSetting, seq![0x1fu8]);
    let p1 = panel.after(s1);
    lemma_setting(state, p1, Command::VcomAndDataIntervalSetting, seq![0x29u8, 0x07u8]);
    lemma_sync_add(state, panel, s1, s2);
    let p2 = panel.after(s1 + s2);
    match protocol::forced_temperature(mode) {
        None => {
            let s3 = step::setting(Command::CascadeSetting, seq![0x00u8]);
            let s4 = step::setting(Command::TemperatureCalibration, seq![0x00u8]);
            lemma_setting(state, p2, Command::CascadeSetting, seq![0x00u8]);
            lemma_setting(state, p2.after(s3), Command::TemperatureCalibration, seq![0x00u8]);
            lemma_sync_add(state, p2, s3, s4);
            lemma_sync_add(state, panel, s1 + s2, s3 + s4);
        },
        Some(degrees) => {
            let s3 = step::setting(Command::CascadeSetting, seq![0x02u8]);
            let s4 = step::setting(Command::ForceTemperature, seq![degrees]);
            lemma_setting(state, p2, Command::CascadeSetting, seq![0x02u8]);
            lemma_setting(state, p2.after(s3), Command::ForceTemperature, seq![degrees]);
            lemma_sync_add(state, p2, s3, s4);
            lemma_sync_add(state, panel, s1 + s2, s3 + s4);
        },
    }
}

/// A coordinate below 65536 is what its two bytes say, the high one first.
pub proof fn law_coordinate_bytes(value: int)
    requires
        0 <= value < 65536,
    ensures
        protocol::high_byte(value) * 256 + protocol::low_byte(value) == value,
{
}

/// The parameters of the partial window say which rectangle was meant.
pub proof fn law_window_bytes(x: int, y: int, width: int, height: int)
    requires
        0 <= x,
        0 <= y,
        0 < width,
        0 < height,
        x + width <= 65536,
        y + height <= 65536,
    ensures
        Window::decoded(protocol::window_bytes(x, y, width, height)) == (Window {
            x,
            y,
            width,
            height,
        }),
{
    law_coordinate_bytes(x);
    law_coordinate_bytes(y);
    law_coordinate_bytes(x + width - 1);
    law_coordinate_bytes(y + height - 1);
}

/// Setting the partial window changes nothing else.
proof fn lemma_partial_window(
    state: DriverState,
    panel: Panel,
    x: int,
    y: int,
    width: int,
    height: int,
)
    requires
        panel::in_sync(state, panel),
        0 <= x,
        0 <= y,
        0 < width,
        0 < height,
        x + width <= 65536,
        y + height <= 65536,
    ensures
        ({
            let steps = protocol::partial_window_steps(x, y, width, height);
            &&& panel::in_sync_throughout(state, panel, steps)
            &&& state.after(steps) == state
            &&& panel.after(steps) == Panel {
                command: Some(Command::PartialWindow),
                window: Some(Window { x, y, width, height }),
                ..panel
            }
        }),
{
    law_window_bytes(x, y, width, height);
    lemma_setting(
        state,
        panel,
        Command::PartialWindow,
        protocol::window_bytes(x, y, width, height),
    );
}

/// One step alone.
pub(crate) proof fn lemma_sync_one(state: DriverState, panel: Panel, step: StepView)
    requires
        panel::in_sync(state, panel),
        panel::in_sync(state.stepped(step), panel.stepped(step)),
    ensures
        panel::in_sync_throughout(state, panel, seq![step]),
        state.after(seq![step]) == state.stepped(step),
        panel.after(seq![step]) == panel.stepped(step),
{
    lemma_sync_empty(state, panel);
    lemma_sync_push(state, panel, Seq::empty(), step);
    assert(seq![step] =~= Seq::empty().push(step));
}

/// The wait and the initialization of the RAM leave both images known and the glass untouched.
proof fn lemma_prepare(state: DriverState, panel: Panel)
    requires
        panel::in_sync(state, panel),
    ensures
        ({
            let steps = state.prepare_steps();
            let after = panel.after(steps);
            &&& panel::in_sync_throughout(state, panel, steps)
            &&& state.after(steps) == state.prepared()
            &&& panel::in_sync(state.prepared(), after)
            &&& after.new_ram == Some(panel::pending_image(state, panel))
            &&& state.ram_initialized ==> after.old_ram == panel.old_ram
            &&& after.shown == panel.shown
        }),
{
    let wait = seq![StepView::WaitIdle];
    lemma_sync_one(state, panel, StepView::WaitIdle);
    if state.ram_initialized {
        assert(state.prepare_steps() =~= wait);
        assert(state.prepared() == state);
    } else {
        let value = state.color.byte_value();
        assert(panel::uniform(0x00, FRAME_BYTES).len() == FRAME_BYTES);
        assert(panel::uniform(value, FRAME_BYTES).len() == FRAME_BYTES);
        let t1 = wait.push(StepView::Command(Command::PartialOut));
        let t2 = t1.push(StepView::Command(Command::DataStartTransmission1));
        let t3 = t2.push(StepView::Fill { value: 0x00, count: FRAME_BYTES });
        let t4 = t3.push(StepView::Command(Command::DataStartTransmission2));
        let t5 = t4.push(StepView::Fill { value, count: FRAME_BYTES });
        let t6 = t5.push(StepView::Note(Note::RamInitialized));
        lemma_sync_push(state, panel, wait, StepView::Command(Command::PartialOut));
        lemma_sync_push(state, panel, t1, StepView::Command(Command::DataStartTransmission1));
        lemma_sync_push(state, panel, t2, StepView::Fill { value: 0x00, count: FRAME_BYTES });
        lemma_sync_push(state, panel, t3, StepView::Command(Command::DataStartTransmission2));
        lemma_sync_push(state, panel, t4, StepView::Fill { value, count: FRAME_BYTES });
        lemma_sync_push(state, panel, t5, StepView::Note(Note::RamInitialized));
        assert(state.prepare_steps() =~= t6);
    }
}

/// Steps that change nothing about the bookkeeping.
pub open spec fn has_no_notes(steps: Seq<StepView>) -> bool {
    forall|i: int| 0 <= i < steps.len() ==> !(#[trigger] steps[i] is Note)
}

/// Only notes change the bookkeeping.
pub(crate) proof fn lemma_without_notes(state: DriverState, steps: Seq<StepView>)
    requires
        has_no_notes(steps),
    ensures
        state.after(steps) == state,
    decreases steps.len(),
{
    if steps.len() > 0 {
        assert(!(steps[0] is Note));
        assert forall|i: int| 0 <= i < steps.drop_first().len() implies !(
        #[trigger] steps.drop_first()[i] is Note) by {
            assert(steps.drop_first()[i] == steps[i + 1]);
        }
        lemma_without_notes(state, steps.drop_first());
    }
}

/// One note among other steps.
pub(crate) proof fn lemma_one_note(
    state: DriverState,
    before: Seq<StepView>,
    note: Note,
    behind: Seq<StepView>,
)
    requires
        has_no_notes(before),
        has_no_notes(behind),
    ensures
        state.after(before + seq![StepView::Note(note)] + behind) == state.noted(note),
{
    let one = seq![StepView::Note(note)];
    lemma_state_add(state, before + one, behind);
    lemma_state_add(state, before, one);
    lemma_without_notes(state, before);
    lemma_without_notes(state.noted(note), behind);
    assert(one.drop_first() =~= Seq::<StepView>::empty());
    reveal_with_fuel(DriverState::after, 2);
}

/// The preparation of an operation and then steps without notes.
pub(crate) proof fn lemma_prepared_and(state: DriverState, steps: Seq<StepView>)
    requires
        has_no_notes(steps),
    ensures
        state.after(state.prepare_steps() + steps) == state.prepared(),
{
    let prepare = state.prepare_steps();
    if state.ram_initialized {
        assert(prepare =~= seq![StepView::WaitIdle]);
        lemma_without_notes(state, prepare + steps);
    } else {
        let before = prepare.drop_last();
        assert(prepare =~= before + seq![StepView::Note(Note::RamInitialized)]);
        lemma_one_note(state, before, Note::RamInitialized, steps);
    }
}

/// A refresh makes sure of the RAM and ends the time before the first refresh.
pub(crate) proof fn lemma_displayed(state: DriverState)
    ensures
        state.after(state.display_frame_steps()) == (DriverState {
            initial_refresh: false,
            ..state.prepared()
        }),
{
    let prepare = state.prepare_steps();
    let all = state.display_frame_steps();
    let before = all.subrange(prepare.len() as int, all.len() - 1);
    let last = seq![StepView::Note(Note::Refreshed)];
    assert(has_no_notes(before));
    assert(all =~= (prepare + before) + last);
    lemma_prepared_and(state, before);
    lemma_state_add(state, prepare + before, last);
    lemma_one_note(state.prepared(), Seq::empty(), Note::Refreshed, Seq::empty());
    assert(Seq::<StepView>::empty() + last + Seq::<StepView>::empty() =~= last);
}

/// Writing a full image puts exactly that image into the RAM and refreshes nothing, and the
/// bookkeeping is true between any two of its steps.
pub proof fn law_update_frame(state: DriverState, panel: Panel, buffer: Seq<u8>)
    requires
        panel::in_sync(state, panel),
        buffer.len() == FRAME_BYTES,
    ensures
        ({
            let steps = state.update_frame_steps(buffer);
            let after = panel.after(steps);
            &&& panel::in_sync_throughout(state, panel, steps)
            &&& state.after(steps) == state.prepared()
            &&& panel::in_sync(state.prepared(), after)
            &&& after.new_ram == Some(buffer)
            &&& state.ram_initialized ==> after.old_ram == panel.old_ram
            &&& after.shown == panel.shown
        }),
{
    let t0 = state.prepare_steps();
    lemma_prepare(state, panel);
    let t1 = t0.push(StepView::Command(Command::PartialOut));
    let t2 = t1.push(StepView::Command(Command::DataStartTransmission2));
    let t3 = t2.push(StepView::Data(buffer));
    lemma_sync_push(state, panel, t0, StepView::Command(Command::PartialOut));
    lemma_sync_push(state, panel, t1, StepView::Command(Command::DataStartTransmission2));
    lemma_sync_push(state, panel, t2, StepView::Data(buffer));
    assert(state.update_frame_steps(buffer) =~= t3);
}

/// Writing a region replaces exactly that rectangle of the pending image: every byte outside
/// it is kept, nothing is refreshed, and the bookkeeping is true between any two steps.
pub proof fn law_update_partial_frame(
    state: DriverState,
    panel: Panel,
    buffer: Seq<u8>,
    x: int,
    y: int,
    width: int,
    height: int,
)
    requires
        panel::in_sync(state, panel),
        geometry::valid_region(buffer.len() as int, x, y, width, height),
    ensures
        ({
            let steps = state.update_partial_frame_steps(buffer, x, y, width, height);
            let after = panel.after(steps);
            let window = Window { x, y, width, height };
            &&& panel::in_sync_throughout(state, panel, steps)
            &&& state.after(steps) == state.prepared()
            &&& panel::in_sync(state.prepared(), after)
            &&& after.new_ram == Some(
                panel::overlaid(panel::pending_image(state, panel), window, buffer),
            )
            &&& state.ram_initialized ==> after.old_ram == panel.old_ram
            &&& after.shown == panel.shown
        }),
{
    let t0 = state.prepare_steps();
    lemma_prepare(state, panel);
    let t1 = t0.push(StepView::Command(Command::PartialIn));
    lemma_sync_push(state, panel, t0, StepView::Command(Command::PartialIn));
    let window = protocol::partial_window_steps(x, y, width, height);
    lemma_partial_window(state.after(t1), panel.after(t1), x, y, width, height);
    lemma_sync_add(state, panel, t1, window);
    let t2 = t1 + window;
    let t3 = t2.push(StepView::Command(Command::DataStartTransmission2));
    lemma_sync_push(state, panel, t2, StepView::Command(Command::DataStartTransmission2));
    let t4 = t3.push(StepView::Data(buffer));
    lemma_sync_push(state, panel, t3, StepView::Data(buffer));
    let t5 = t4.push(StepView::Command(Command::PartialOut));
    lemma_sync_push(state, panel, t4, StepView::Command(Command::PartialOut));
    assert(state.update_partial_frame_steps(buffer, x, y, width, height) =~= t5);
}

/// A refresh shows the pending image on the whole panel, with the waveform that
/// `effective_refresh_mode` tells beforehand, and establishes the baseline of differential
/// refreshes. The bookkeeping is true between any two of its steps.
pub proof fn law_display_frame(state: DriverState, panel: Panel)
    requires
        panel::in_sync(state, panel),
    ensures
        ({
            let steps = state.display_frame_steps();
            let after = panel.after(steps);
            &&& panel::in_sync_throughout(state, panel, steps)
            &&& state.after(steps) == DriverState { initial_refresh: false, ..state.prepared() }
            &&& panel::in_sync(state.after(steps), after)
            &&& after.shown == Some(panel::pending_image(state, panel))
            &&& after.new_ram == after.shown
            &&& after.old_ram == after.shown
            &&& after.waveform == Some(state.effective_mode())
        }),
{
    let t0 = state.prepare_steps();
    lemma_prepare(state, panel);
    let configure = protocol::configure_refresh_steps(state.effective_mode());
    lemma_configure_refresh(state.after(t0), panel.after(t0), state.effective_mode());
    lemma_sync_add(state, panel, t0, configure);
    let t1 = t0 + configure;
    let t2 = t1.push(StepView::Command(Command::PartialOut));
    lemma_sync_push(state, panel, t1, StepView::Command(Command::PartialOut));
    let window = protocol::partial_window_steps(0, 0, WIDTH as int, HEIGHT as int);
    lemma_partial_window(state.after(t2), panel.after(t2), 0, 0, WIDTH as int, HEIGHT as int);
    lemma_sync_add(state, panel, t2, window);
    let t3 = t2 + window;
    let t4 = t3.push(StepView::Command(Command::DisplayRefresh));
    lemma_sync_push(state, panel, t3, StepView::Command(Command::DisplayRefresh));
    let t5 = t4.push(StepView::DelayMs(1));
    lemma_sync_push(state, panel, t4, StepView::DelayMs(1));
    let t6 = t5.push(StepView::WaitIdle);
    lemma_sync_push(state, panel, t5, StepView::WaitIdle);
    let t7 = t6.push(StepView::Note(Note::Refreshed));
    lemma_sync_push(state, panel, t6, StepView::Note(Note::Refreshed));
    assert(state.display_frame_steps() =~= t7);
    assert(t7.take(t7.len() as int) =~= t7);
}

/// Writing a full image and refreshing in one operation is the two operations in a row, and
/// shows exactly that image.
pub proof fn law_update_and_display_frame(state: DriverState, panel: Panel, buffer: Seq<u8>)
    requires
        panel::in_sync(state, panel),
        buffer.len() == FRAME_BYTES,
    ensures
        ({
            let steps = state.update_and_display_frame_steps(buffer);
            let update = state.update_frame_steps(buffer);
            let after = panel.after(steps);
            &&& steps == update + state.after(update).display_frame_steps()
            &&& panel::in_sync_throughout(state, panel, steps)
            &&& state.after(steps) == DriverState { initial_refresh: false, ..state.prepared() }
            &&& after.shown == Some(buffer)
            &&& after.new_ram == after.shown
            &&& after.old_ram == after.shown
            &&& after.waveform == Some(state.effective_mode())
        }),
{
    let update = state.update_frame_steps(buffer);
    law_update_frame(state, panel, buffer);
    law_display_frame(state.after(update), panel.after(update));
    lemma_sync_add(state, panel, update, state.after(update).display_frame_steps());
}

/// A screen of one color.
pub open spec fn background(color: Color) -> Seq<u8> {
    Seq::new(
        48_000,
        |i: int|
            if color == Color::White {
                0xffu8
            } else {
                0x00u8
            },
    )
}

/// Clearing shows the background color all over the panel and leaves exactly that image in both
/// RAMs: it is what later writes change and what a differential refresh starts from.
pub proof fn law_clear_frame(state: DriverState, panel: Panel)
    requires
        panel::in_sync(state, panel),
    ensures
        ({
            let steps = state.clear_frame_steps();
            let after = panel.after(steps);
            &&& panel::in_sync_throughout(state, panel, steps)
            &&& state.after(steps) == DriverState { initial_refresh: false, ..state.prepared() }
            &&& after.shown == Some(panel::uniform(state.color.byte_value(), FRAME_BYTES))
            &&& after.shown == Some(background(state.color))
            &&& after.new_ram == after.shown
            &&& after.old_ram == after.shown
            &&& panel::in_sync(state.after(steps), after)
            &&& after.waveform == Some(state.effective_mode())
        }),
{
    let value = state.color.byte_value();
    assert(panel::uniform(value, FRAME_BYTES).len() == FRAME_BYTES);
    let t0 = state.prepare_steps();
    lemma_prepare(state, panel);
    let t1 = t0.push(StepView::Command(Command::PartialOut));
    let t2 = t1.push(StepView::Command(Command::DataStartTransmission2));
    let t3 = t2.push(StepView::Fill { value, count: FRAME_BYTES });
    lemma_sync_push(state, panel, t0, StepView::Command(Command::PartialOut));
    lemma_sync_push(state, panel, t1, StepView::Command(Command::DataStartTransmission2));
    lemma_sync_push(state, panel, t2, StepView::Fill { value, count: FRAME_BYTES });
    law_display_frame(state.after(t3), panel.after(t3));
    lemma_sync_add(state, panel, t3, state.prepared().display_frame_steps());
    let steps = state.clear_frame_steps();
    assert(steps =~= t3 + state.prepared().display_frame_steps());
    assert(panel::uniform(value, FRAME_BYTES) =~= background(state.color));
    assert(steps.take(steps.len() as int) =~= steps);
}

/// A region that is written after clearing the panel is shown on the background color: every
/// byte outside the rectangle is 0xff on a white background and 0x00 on a black one, and the
/// bytes inside are the region's own.
pub proof fn law_region_on_a_cleared_panel(
    state: DriverState,
    panel: Panel,
    buffer: Seq<u8>,
    x: int,
    y: int,
    width: int,
    height: int,
    row: int,
    column: int,
)
    requires
        panel::in_sync(state, panel),
        geometry::valid_region(buffer.len() as int, x, y, width, height),
        0 <= row < 480,
        0 <= column < 100,
    ensures
        ({
            let clear = state.clear_frame_steps();
            let s1 = state.after(clear);
            let write = s1.update_partial_frame_steps(buffer, x, y, width, height);
            let s2 = s1.after(write);
            let shown = panel.after(clear).after(write).after(s2.display_frame_steps()).shown;
            let inside = y <= row < y + height && x <= 8 * column < x + width;
            &&& shown is Some
            &&& shown->0.len() == 48_000
            &&& shown->0[row * 100 + column] == if inside {
                buffer[(row - y) * (width / 8) + (column - x / 8)]
            } else if state.color == Color::White {
                0xffu8
            } else {
                0x00u8
            }
        }),
{
    let clear = state.clear_frame_steps();
    let s1 = state.after(clear);
    let p1 = panel.after(clear);
    law_clear_frame(state, panel);
    law_region_is_shown(s1, p1, buffer, x, y, width, height, row, column);
    assert(0 <= row * 100 + column < 48_000);
    assert(background(state.color)[row * 100 + column] == if state.color == Color::White {
        0xffu8
    } else {
        0x00u8
    });
}

/// A new driver makes no claim on the panel, whatever state that is in.
pub proof fn law_fresh_driver_is_in_sync(delay_us: Option<u32>, panel: Panel)
    ensures
        panel::in_sync(DriverState::fresh(delay_us), panel),
{
}

/// A reset invalidates the baseline and selects the full waveform, keeps the selected mode and
/// the color, and leaves the image on the glass. Afterwards the bookkeeping is true even where
/// a failed or cancelled operation had left it false.
pub proof fn law_wake_up(state: DriverState, panel: Panel)
    ensures
        ({
            let steps = protocol::init_steps();
            let after = panel.after(steps);
            &&& panel::in_sync(state, panel) ==> panel::in_sync_throughout(state, panel, steps)
            &&& state.after(steps) == DriverState {
                initial_refresh: true,
                ram_initialized: false,
                ..state
            }
            &&& panel::in_sync(state.after(steps), after)
            &&& after.selected() == Some(RefreshMode::Full)
            &&& after.shown == panel.shown
        }),
{
    let lost = seq![StepView::Note(Note::BaselineLost)];
    let reset = StepView::Reset {
        initial_delay_us: protocol::RESET_SETTLE_US,
        duration_us: protocol::RESET_PULSE_US,
    };
    let s0 = state.noted(Note::BaselineLost);
    let t0 = seq![reset];
    lemma_sync_one(s0, panel, reset);
    let t1 = t0 + step::setting(
        Command::PowerSetting,
        seq![0x07u8, 0x07u8, 0x3fu8, 0x3fu8, 0x09u8],
    );
    lemma_add_setting(
        s0,
        panel,
        t0,
        Command::PowerSetting,
        seq![0x07u8, 0x07u8, 0x3fu8, 0x3fu8, 0x09u8],
    );
    let t2 = t1 + step::setting(Command::BoosterSoftStart, seq![0x17u8, 0x17u8, 0x28u8, 0x17u8]);
    lemma_add_setting(
        s0,
        panel,
        t1,
        Command::BoosterSoftStart,
        seq![0x17u8, 0x17u8, 0x28u8, 0x17u8],
    );
    let t3 = t2 + protocol::power_on_steps();
    lemma_power_on(s0, panel.after(t2));
    lemma_sync_add(s0, panel, t2, protocol::power_on_steps());
    let t4 = t3 + step::setting(Command::PanelSetting, seq![0x1fu8]);
    lemma_add_setting(s0, panel, t3, Command::PanelSetting, seq![0x1fu8]);
    let t5 = t4 + step::setting(Command::TconResolution, seq![0x03u8, 0x20u8, 0x01u8, 0xe0u8]);
    lemma_add_setting(
        s0,
        panel,
        t4,
        Command::TconResolution,
        seq![0x03u8, 0x20u8, 0x01u8, 0xe0u8],
    );
    let t6 = t5 + step::setting(Command::DualSpi, seq![0x00u8]);
    lemma_add_setting(s0, panel, t5, Command::DualSpi, seq![0x00u8]);
    let t7 = t6 + step::setting(Command::VcomAndDataIntervalSetting, seq![0x29u8, 0x07u8]);
    lemma_add_setting(
        s0,
        panel,
        t6,
        Command::VcomAndDataIntervalSetting,
        seq![0x29u8, 0x07u8],
    );
    let t8 = t7 + step::setting(Command::TconSetting, seq![0x22u8]);
    lemma_add_setting(s0, panel, t7, Command::TconSetting, seq![0x22u8]);
    let t9 = t8 + step::setting(Command::PowerSaving, seq![0x22u8]);
    lemma_add_setting(s0, panel, t8, Command::PowerSaving, seq![0x22u8]);
    let rest = t9 + protocol::configure_refresh_steps(RefreshMode::Full);
    lemma_configure_refresh(s0, panel.after(t9), RefreshMode::Full);
    lemma_sync_add(s0, panel, t9, protocol::configure_refresh_steps(RefreshMode::Full));
    assert(protocol::init_steps() =~= lost + rest);
    lemma_after_add(state, panel, lost, rest);
    lemma_after_push(state, panel, Seq::empty(), StepView::Note(Note::BaselineLost));
    assert(lost =~= Seq::empty().push(StepView::Note(Note::BaselineLost)));
    if panel::in_sync(state, panel) {
        lemma_sync_one(state, panel, StepView::Note(Note::BaselineLost));
        lemma_sync_add(state, panel, lost, rest);
    }
}

/// Steps and then a setting that concerns neither images nor waveforms.
proof fn lemma_add_setting(
    state: DriverState,
    panel: Panel,
    steps: Seq<StepView>,
    command: Command,
    data: Seq<u8>,
)
    requires
        panel::in_sync_throughout(state, panel, steps),
        panel::in_sync(state.after(steps), panel.after(steps)),
        panel::in_sync(state.after(steps), panel.after(steps).commanded(command)),
        panel::in_sync(state.after(steps), panel.after(steps).commanded(command).received(data)),
    ensures
        ({
            let all = steps + step::setting(command, data);
            &&& panel::in_sync_throughout(state, panel, all)
            &&& state.after(all) == state.after(steps)
            &&& panel.after(all) == panel.after(steps).commanded(command).received(data)
        }),
{
    lemma_setting(state.after(steps), panel.after(steps), command, data);
    lemma_sync_add(state, panel, steps, step::setting(command, data));
}

/// Turning the driving voltages on touches no image and no bookkeeping.
proof fn lemma_power_on(state: DriverState, panel: Panel)
    requires
        panel::in_sync(state, panel),
    ensures
        ({
            let steps = protocol::power_on_steps();
            &&& panel::in_sync_throughout(state, panel, steps)
            &&& state.after(steps) == state
            &&& panel.after(steps) == Panel { command: Some(Command::GetStatus), ..panel }
        }),
{
    let t1 = seq![StepView::Command(Command::PowerOn)];
    lemma_sync_one(state, panel, StepView::Command(Command::PowerOn));
    lemma_sync_push(state, panel, t1, StepView::DelayMs(100));
    lemma_sync_push(state, panel, t1.push(StepView::DelayMs(100)), StepView::WaitIdle);
    assert(protocol::power_on_steps() =~= t1.push(StepView::DelayMs(100)).push(
        StepView::WaitIdle,
    ));
}

/// Turning the driving voltages off, as standby does and deep sleep first, touches no image and
/// no bookkeeping.
pub proof fn law_power_off(state: DriverState, panel: Panel, ms: u32)
    requires
        panel::in_sync(state, panel),
    ensures
        ({
            let steps = protocol::power_off_steps(ms);
            &&& panel::in_sync_throughout(state, panel, steps)
            &&& state.after(steps) == state
            &&& panel.after(steps) == Panel { command: Some(Command::GetStatus), ..panel }
        }),
{
    let t1 = seq![StepView::WaitIdle];
    lemma_sync_one(state, panel, StepView::WaitIdle);
    let t2 = t1.push(StepView::Command(Command::PowerOff));
    lemma_sync_push(state, panel, t1, StepView::Command(Command::PowerOff));
    let t3 = t2.push(StepView::DelayMs(ms));
    lemma_sync_push(state, panel, t2, StepView::DelayMs(ms));
    lemma_sync_push(state, panel, t3, StepView::WaitIdle);
    assert(protocol::power_off_steps(ms) =~= t3.push(StepView::WaitIdle));
}

/// Standby keeps both image RAMs, the glass and the whole bookkeeping, and a driver that
/// resumes from it after a successful refresh starts in sync, with a baseline: a differential
/// refresh is possible at once.
pub proof fn law_standby_and_resume_keep_the_baseline(
    state: DriverState,
    panel: Panel,
    delay_us: Option<u32>,
)
    requires
        panel::in_sync(state, panel),
        !state.initial_refresh,
    ensures
        ({
            let off = protocol::power_off_steps(100);
            let standby = panel.after(off);
            let on = protocol::power_on_steps();
            let resumed = DriverState::retained(delay_us);
            let after = standby.after(on);
            &&& panel::in_sync_throughout(state, panel, off)
            &&& state.after(off) == state
            &&& panel::in_sync_throughout(resumed, standby, on)
            &&& resumed.after(on) == resumed
            &&& after.new_ram == panel.new_ram
            &&& after.old_ram == panel.old_ram
            &&& after.shown == panel.shown
            &&& resumed.noted(Note::Selected(RefreshMode::Partial)).effective_mode()
                == RefreshMode::Partial
        }),
{
    law_power_off(state, panel, 100);
    lemma_power_on(DriverState::retained(delay_us), panel.after(protocol::power_off_steps(100)));
}

/// Deep sleep invalidates the baseline before the controller loses its RAM, so the bookkeeping
/// is true between any two of its steps; the glass keeps its image.
pub proof fn law_sleep(state: DriverState, panel: Panel)
    requires
        panel::in_sync(state, panel),
    ensures
        ({
            let steps = protocol::sleep_steps();
            let after = panel.after(steps);
            &&& panel::in_sync_throughout(state, panel, steps)
            &&& state.after(steps) == DriverState {
                initial_refresh: true,
                ram_initialized: false,
                ..state
            }
            &&& after.new_ram is None
            &&& after.old_ram is None
            &&& after.shown == panel.shown
        }),
{
    let off = protocol::power_off_steps(1);
    law_power_off(state, panel, 1);
    let lost = off.push(StepView::Note(Note::BaselineLost));
    lemma_sync_push(state, panel, off, StepView::Note(Note::BaselineLost));
    lemma_add_setting(
        state,
        panel,
        lost,
        Command::DeepSleep,
        seq![protocol::DEEP_SLEEP_CHECK],
    );
}

/// Selecting a mode changes the selection and nothing else.
pub proof fn law_set_refresh_mode(state: DriverState, panel: Panel, mode: RefreshMode)
    requires
        panel::in_sync(state, panel),
    ensures
        ({
            let steps = protocol::set_refresh_mode_steps(mode);
            &&& panel::in_sync_throughout(state, panel, steps)
            &&& state.after(steps) == DriverState { refresh_mode: mode, ..state }
            &&& panel.after(steps) == Panel { command: Some(Command::GetStatus), ..panel }
        }),
{
    let wait = seq![StepView::WaitIdle];
    lemma_sync_one(state, panel, StepView::WaitIdle);
    lemma_sync_push(state, panel, wait, StepView::Note(Note::Selected(mode)));
    assert(protocol::set_refresh_mode_steps(mode) =~= wait.push(
        StepView::Note(Note::Selected(mode)),
    ));
}

/// A differential refresh only ever starts from a previous-image RAM that holds what is shown.
pub proof fn law_differential_refresh_has_a_baseline(state: DriverState, panel: Panel)
    requires
        panel::in_sync(state, panel),
        state.effective_mode() == RefreshMode::Partial,
    ensures
        panel.old_ram is Some,
        panel.old_ram == panel.shown,
        state.prepare_steps() == seq![StepView::WaitIdle],
{
    assert(state.prepare_steps() =~= seq![StepView::WaitIdle]);
}

/// Two regions written before one refresh are both shown, the later one on top, and everything
/// outside them is kept.
pub proof fn law_regions_accumulate(
    state: DriverState,
    panel: Panel,
    first: Seq<u8>,
    a: Window,
    second: Seq<u8>,
    b: Window,
)
    requires
        panel::in_sync(state, panel),
        geometry::valid_region(first.len() as int, a.x, a.y, a.width, a.height),
        geometry::valid_region(second.len() as int, b.x, b.y, b.width, b.height),
    ensures
        ({
            let write_a = state.update_partial_frame_steps(first, a.x, a.y, a.width, a.height);
            let s1 = state.after(write_a);
            let p1 = panel.after(write_a);
            let write_b = s1.update_partial_frame_steps(second, b.x, b.y, b.width, b.height);
            let s2 = s1.after(write_b);
            let p2 = p1.after(write_b);
            p2.after(s2.display_frame_steps()).shown == Some(
                panel::overlaid(
                    panel::overlaid(panel::pending_image(state, panel), a, first),
                    b,
                    second,
                ),
            )
        }),
{
    law_update_partial_frame(state, panel, first, a.x, a.y, a.width, a.height);
    let write_a = state.update_partial_frame_steps(first, a.x, a.y, a.width, a.height);
    let s1 = state.after(write_a);
    let p1 = panel.after(write_a);
    law_update_partial_frame(s1, p1, second, b.x, b.y, b.width, b.height);
    let write_b = s1.update_partial_frame_steps(second, b.x, b.y, b.width, b.height);
    law_display_frame(s1.after(write_b), p1.after(write_b));
}

/// Every byte of a region's buffer lands on the screen: the rectangle's bytes and the buffer's
/// correspond one to one, row by row.
pub proof fn law_region_is_tightly_packed(window: Window, row: int, column: int)
    requires
        geometry::on_screen(window.x, window.y, window.width, window.height),
        0 <= row < window.height,
        0 <= column < window.width / 8,
    ensures
        ({
            let index = (window.y + row) * (ROW_BYTES as int) + window.x / 8 + column;
            &&& 0 <= index < FRAME_BYTES
            &&& window.covers(index)
            &&& window.offset(index) == row * (window.width / 8) + column
            &&& 0 <= window.offset(index) < window.width / 8 * window.height
        }),
{
    let index = (window.y + row) * (ROW_BYTES as int) + window.x / 8 + column;
    let bytes = window.width / 8;
    assert(ROW_BYTES == 100);
    assert(window.x / 8 + bytes == (window.x + window.width) / 8);
    assert(index == (window.y + row) * 100 + (window.x / 8 + column));
    assert(0 <= window.x / 8 + column < 100);
    assert(index / 100 == window.y + row && index % 100 == window.x / 8 + column);
    assert(0 <= row * bytes + column < bytes * window.height) by (nonlinear_arith)
        requires
            0 <= row < window.height,
            0 <= column < bytes,
    ;
}

/// A step that starts a transfer into the previous-image RAM.
pub open spec fn starts_old_image(step: StepView) -> bool {
    step == StepView::Command(Command::DataStartTransmission1)
}

/// A step that drives the panel.
pub open spec fn starts_refresh(step: StepView) -> bool {
    step == StepView::Command(Command::DisplayRefresh)
}

/// Once the RAM is initialized, no frame operation writes the previous image: the controller
/// copies it, so no second write and no host-side copy is needed.
pub proof fn law_no_second_write(
    state: DriverState,
    buffer: Seq<u8>,
    x: int,
    y: int,
    width: int,
    height: int,
)
    requires
        state.ram_initialized,
    ensures
        forall|i: int|
            0 <= i < state.update_frame_steps(buffer).len() ==> !starts_old_image(
                #[trigger] state.update_frame_steps(buffer)[i],
            ),
        forall|i: int|
            0 <= i < state.update_partial_frame_steps(buffer, x, y, width, height).len()
                ==> !starts_old_image(
                #[trigger] state.update_partial_frame_steps(buffer, x, y, width, height)[i],
            ),
        forall|i: int|
            0 <= i < state.display_frame_steps().len() ==> !starts_old_image(
                #[trigger] state.display_frame_steps()[i],
            ),
        forall|i: int|
            0 <= i < state.update_and_display_frame_steps(buffer).len() ==> !starts_old_image(
                #[trigger] state.update_and_display_frame_steps(buffer)[i],
            ),
        forall|i: int|
            0 <= i < state.clear_frame_steps().len() ==> !starts_old_image(
                #[trigger] state.clear_frame_steps()[i],
            ),
{
}

/// Writing an image or a region starts no refresh.
pub proof fn law_writing_does_not_refresh(
    state: DriverState,
    buffer: Seq<u8>,
    x: int,
    y: int,
    width: int,
    height: int,
)
    ensures
        forall|i: int|
            0 <= i < state.update_frame_steps(buffer).len() ==> !starts_refresh(
                #[trigger] state.update_frame_steps(buffer)[i],
            ),
        forall|i: int|
            0 <= i < state.update_partial_frame_steps(buffer, x, y, width, height).len()
                ==> !starts_refresh(
                #[trigger] state.update_partial_frame_steps(buffer, x, y, width, height)[i],
            ),
{
}

/// The resolution that the controller is given is that of the panel.
pub proof fn law_resolution()
    ensures
        protocol::init_steps().contains(
            StepView::Data(
                seq![
                    protocol::high_byte(WIDTH as int),
                    protocol::low_byte(WIDTH as int),
                    protocol::high_byte(HEIGHT as int),
                    protocol::low_byte(HEIGHT as int),
                ],
            ),
        ),
{
    assert(protocol::init_steps()[12] =~= StepView::Data(seq![0x03u8, 0x20u8, 0x01u8, 0xe0u8]));
}

/// No operation changes the background color or the pause of the idle loop.
pub proof fn law_steps_keep_the_settings(state: DriverState, steps: Seq<StepView>)
    ensures
        state.after(steps).color == state.color,
        state.after(steps).delay_us == state.delay_us,
    decreases steps.len(),
{
    if steps.len() > 0 {
        law_steps_keep_the_settings(state.stepped(steps[0]), steps.drop_first());
    }
}

/// A region replaces the bytes of its rectangle, row by row, and no other byte of the image that
/// the RAM holds: that is what the next refresh shows.
pub proof fn law_region_is_shown(
    state: DriverState,
    panel: Panel,
    buffer: Seq<u8>,
    x: int,
    y: int,
    width: int,
    height: int,
    row: int,
    column: int,
)
    requires
        panel::in_sync(state, panel),
        state.ram_initialized,
        geometry::valid_region(buffer.len() as int, x, y, width, height),
        0 <= row < 480,
        0 <= column < 100,
    ensures
        ({
            let write = state.update_partial_frame_steps(buffer, x, y, width, height);
            let show = state.after(write).display_frame_steps();
            let shown = panel.after(write).after(show).shown;
            let inside = y <= row < y + height && x <= 8 * column < x + width;
            &&& shown is Some
            &&& shown->0.len() == 48_000
            &&& shown->0[row * 100 + column] == if inside {
                buffer[(row - y) * (width / 8) + (column - x / 8)]
            } else {
                panel.new_ram->0[row * 100 + column]
            }
        }),
{
    let write = state.update_partial_frame_steps(buffer, x, y, width, height);
    law_update_partial_frame(state, panel, buffer, x, y, width, height);
    law_display_frame(state.after(write), panel.after(write));
    lemma_overlaid_byte(panel.new_ram->0, buffer, Window { x, y, width, height }, row, column);
}

/// The byte of a row and a column of an image with a rectangle replaced.
proof fn lemma_overlaid_byte(
    image: Seq<u8>,
    buffer: Seq<u8>,
    window: Window,
    row: int,
    column: int,
)
    requires
        image.len() == 48_000,
        geometry::on_screen(window.x, window.y, window.width, window.height),
        0 <= row < 480,
        0 <= column < 100,
    ensures
        panel::overlaid(image, window, buffer)[row * 100 + column] == if window.y <= row < window.y
            + window.height && window.x <= 8 * column < window.x + window.width {
            buffer[(row - window.y) * (window.width / 8) + (column - window.x / 8)]
        } else {
            image[row * 100 + column]
        },
{
    let index = row * 100 + column;
    assert(index / 100 == row && index % 100 == column);
    assert(window.x <= 8 * column < window.x + window.width <==> window.x / 8 <= column < (window.x
        + window.width) / 8);
}

} // verus!
