//! What the panel is sent, byte by byte.
//!
//! Plans name commands and registers; the controller sees addresses and payloads. The laws here
//! say, for every state of the driver and every argument, which bytes an operation sends, in
//! which order, where it pauses and waits, and where it updates the driver's bookkeeping.

use vstd::prelude::*;

use crate::color::Color;
use crate::command::Command;
use crate::laws;
use crate::mode::RefreshMode;
use crate::operation::{self, Action, ActionView};
use crate::protocol::{self, DriverState};
use crate::step::{Note, Step, StepView};

verus! {

/// What a step amounts to outside the driver, or the bookkeeping that it stands for.
#[verifier::ext_equal]
pub enum Signal {
    /// RESET is high for a while, and then low for another.
    Reset { high_us: u32, low_us: u32 },
    /// One byte with D/C low.
    Address(u8),
    /// Bytes with D/C high.
    Payload(Seq<u8>),
    /// Nothing for some milliseconds.
    PauseMs(u32),
    /// BUSY is polled until it is released.
    UntilIdle,
    /// A change of the driver's bookkeeping.
    Bookkeeping(Note),
}

/// What a step amounts to.
pub open spec fn signal(step: StepView) -> Signal {
    match step {
        StepView::Reset { initial_delay_us, duration_us } => Signal::Reset {
            high_us: initial_delay_us,
            low_us: duration_us,
        },
        StepView::Command(command) => Signal::Address(command.code()),
        StepView::Data(data) => Signal::Payload(data),
        StepView::Fill { value, count } => Signal::Payload(Seq::new(count as nat, |i: int| value)),
        StepView::DelayMs(ms) => Signal::PauseMs(ms),
        StepView::WaitIdle => Signal::UntilIdle,
        StepView::Note(note) => Signal::Bookkeeping(note),
    }
}

/// What steps amount to, one signal for each.
pub open spec fn signals(steps: Seq<StepView>) -> Seq<Signal> {
    Seq::new(steps.len(), |i: int| signal(steps[i]))
}

/// How every operation on a frame begins: with a wait and, where the RAM is not known, with a
/// black previous image and a new image of the background color.
pub open spec fn opening(state: DriverState) -> Seq<Signal> {
    if state.ram_initialized {
        seq![Signal::UntilIdle]
    } else {
        seq![
            Signal::UntilIdle,
            Signal::Address(0x92),
            Signal::Address(0x10),
            Signal::Payload(Seq::new(48_000, |i: int| 0x00u8)),
            Signal::Address(0x13),
            Signal::Payload(laws::background(state.color)),
            Signal::Bookkeeping(Note::RamInitialized),
        ]
    }
}

/// The registers that decide on the waveform: the sensor's choice for a full refresh, 90
/// degrees for a fast one and 110 for a differential one. A differential refresh is a full one
/// until there is something to start from.
pub open spec fn waveform(state: DriverState) -> Seq<Signal> {
    match (state.refresh_mode, state.initial_refresh) {
        (RefreshMode::Full, _) | (RefreshMode::Partial, true) => seq![
            Signal::Address(0xe0),
            Signal::Payload(seq![0x00u8]),
            Signal::Address(0x41),
            Signal::Payload(seq![0x00u8]),
        ],
        (RefreshMode::Fast, _) => seq![
            Signal::Address(0xe0),
            Signal::Payload(seq![0x02u8]),
            Signal::Address(0xe5),
            Signal::Payload(seq![90u8]),
        ],
        (RefreshMode::Partial, false) => seq![
            Signal::Address(0xe0),
            Signal::Payload(seq![0x02u8]),
            Signal::Address(0xe5),
            Signal::Payload(seq![110u8]),
        ],
    }
}

/// A refresh of the whole screen: the waveform, the window of 800 by 480 pixels, the refresh
/// itself, a millisecond for BUSY to assert, and the wait for its end. Only then is the refresh
/// written down as finished.
pub open spec fn refresh(state: DriverState) -> Seq<Signal> {
    seq![
        Signal::Address(0x00),
        Signal::Payload(seq![0x1fu8]),
        Signal::Address(0x50),
        Signal::Payload(seq![0x29u8, 0x07u8]),
    ] + waveform(state) + seq![
        Signal::Address(0x92),
        Signal::Address(0x90),
        Signal::Payload(
            seq![0x00u8, 0x00u8, 0x03u8, 0x1fu8, 0x00u8, 0x00u8, 0x01u8, 0xdfu8, 0x01u8],
        ),
        Signal::Address(0x12),
        Signal::PauseMs(1),
        Signal::UntilIdle,
        Signal::Bookkeeping(Note::Refreshed),
    ]
}

/// Operations in a row are sent in a row.
proof fn lemma_signals_add(a: Seq<StepView>, b: Seq<StepView>)
    ensures
        signals(a + b) == signals(a) + signals(b),
{
    assert(signals(a + b) =~= signals(a) + signals(b));
}

/// The wait and the initialization of the RAM on the wire.
proof fn lemma_opening(state: DriverState)
    ensures
        signals(state.prepare_steps()) == opening(state),
{
    assert(signals(state.prepare_steps()) =~~= opening(state));
}

/// A whole image is written as it is, byte for byte, behind the opening, and nothing is sent
/// after it.
pub proof fn law_update_frame_is_sent(state: DriverState, buffer: Seq<u8>)
    ensures
        signals(state.update_frame_steps(buffer)) == opening(state) + seq![
            Signal::Address(0x92),
            Signal::Address(0x13),
            Signal::Payload(buffer),
        ],
{
    lemma_opening(state);
    let tail = state.update_frame_steps(buffer).skip(state.prepare_steps().len() as int);
    assert(state.update_frame_steps(buffer) =~= state.prepare_steps() + tail);
    lemma_signals_add(state.prepare_steps(), tail);
    assert(signals(tail) =~~= seq![
        Signal::Address(0x92),
        Signal::Address(0x13),
        Signal::Payload(buffer),
    ]);
}

/// The window of a rectangle is its first and last column and its first and last row, each as
/// two bytes, the high one first, and a set flag. Of larger numbers the low 16 bits are sent.
pub proof fn law_window_is_sent(x: int, y: int, width: int, height: int)
    requires
        0 <= x,
        0 <= y,
        0 <= width,
        0 <= height,
        0 < x + width,
        0 < y + height,
    ensures
        ({
            let sent = signals(protocol::partial_window_steps(x, y, width, height));
            let bytes = sent[1]->Payload_0;
            &&& sent.len() == 2
            &&& sent[0] == Signal::Address(0x90)
            &&& sent[1] == Signal::Payload(bytes)
            &&& bytes.len() == 9
            &&& bytes[0] * 256 + bytes[1] == x % 65536
            &&& bytes[2] * 256 + bytes[3] == (x + width - 1) % 65536
            &&& bytes[4] * 256 + bytes[5] == y % 65536
            &&& bytes[6] * 256 + bytes[7] == (y + height - 1) % 65536
            &&& bytes[8] == 1
        }),
{
    lemma_two_bytes(x);
    lemma_two_bytes(x + width - 1);
    lemma_two_bytes(y);
    lemma_two_bytes(y + height - 1);
}

/// Two bytes hold a number up to its low 16 bits.
proof fn lemma_two_bytes(value: int)
    requires
        0 <= value,
    ensures
        protocol::high_byte(value) * 256 + protocol::low_byte(value) == value % 65536,
{
    assert(value % 65536 == value / 256 % 256 * 256 + value % 256);
}

/// A region is written as it is, byte for byte, between entering and leaving the partial mode,
/// with the window set to exactly its rectangle.
pub proof fn law_update_partial_frame_is_sent(
    state: DriverState,
    buffer: Seq<u8>,
    x: int,
    y: int,
    width: int,
    height: int,
)
    requires
        0 <= x,
        0 <= y,
        0 < width,
        0 < height,
        x + width <= 800,
        y + height <= 480,
    ensures
        signals(state.update_partial_frame_steps(buffer, x, y, width, height)) == opening(state)
            + seq![
            Signal::Address(0x91),
            Signal::Address(0x90),
            Signal::Payload(
                seq![
                    (x / 256) as u8,
                    (x % 256) as u8,
                    ((x + width - 1) / 256) as u8,
                    ((x + width - 1) % 256) as u8,
                    (y / 256) as u8,
                    (y % 256) as u8,
                    ((y + height - 1) / 256) as u8,
                    ((y + height - 1) % 256) as u8,
                    0x01u8,
                ],
            ),
            Signal::Address(0x13),
            Signal::Payload(buffer),
            Signal::Address(0x92),
        ],
{
    lemma_opening(state);
    let steps = state.update_partial_frame_steps(buffer, x, y, width, height);
    let tail = steps.skip(state.prepare_steps().len() as int);
    assert(steps =~= state.prepare_steps() + tail);
    lemma_signals_add(state.prepare_steps(), tail);
    assert(signals(tail) =~~= seq![
        Signal::Address(0x91),
        Signal::Address(0x90),
        Signal::Payload(
            seq![
                (x / 256) as u8,
                (x % 256) as u8,
                ((x + width - 1) / 256) as u8,
                ((x + width - 1) % 256) as u8,
                (y / 256) as u8,
                (y % 256) as u8,
                ((y + height - 1) / 256) as u8,
                ((y + height - 1) % 256) as u8,
                0x01u8,
            ],
        ),
        Signal::Address(0x13),
        Signal::Payload(buffer),
        Signal::Address(0x92),
    ]);
}

/// A refresh sends the opening and the refresh, and nothing else.
pub proof fn law_display_frame_is_sent(state: DriverState)
    ensures
        signals(state.display_frame_steps()) == opening(state) + refresh(state),
{
    lemma_opening(state);
    let tail = state.display_frame_steps().skip(state.prepare_steps().len() as int);
    assert(state.display_frame_steps() =~= state.prepare_steps() + tail);
    lemma_signals_add(state.prepare_steps(), tail);
    assert(signals(tail) =~~= refresh(state));
}

/// Writing and displaying sends the image and then the wait and the refresh.
pub proof fn law_update_and_display_frame_is_sent(state: DriverState, buffer: Seq<u8>)
    ensures
        signals(state.update_and_display_frame_steps(buffer)) == opening(state) + seq![
            Signal::Address(0x92),
            Signal::Address(0x13),
            Signal::Payload(buffer),
            Signal::UntilIdle,
        ] + refresh(state),
{
    let known = DriverState { ram_initialized: true, ..state };
    let update = state.update_frame_steps(buffer);
    law_update_frame_is_sent(state, buffer);
    law_display_frame_is_sent(known);
    assert(state.update_and_display_frame_steps(buffer) =~= update + known.display_frame_steps());
    lemma_signals_add(update, known.display_frame_steps());
    assert(signals(state.update_and_display_frame_steps(buffer)) =~= opening(state) + seq![
        Signal::Address(0x92),
        Signal::Address(0x13),
        Signal::Payload(buffer),
        Signal::UntilIdle,
    ] + refresh(state));
}

/// Clearing is, to the panel and to the bookkeeping, the same as writing and displaying a screen
/// of the background color.
pub proof fn law_clear_frame_is_sent(state: DriverState)
    ensures
        signals(state.clear_frame_steps()) == signals(
            state.update_and_display_frame_steps(laws::background(state.color)),
        ),
{
    let known = DriverState { ram_initialized: true, ..state };
    law_update_and_display_frame_is_sent(state, laws::background(state.color));
    law_display_frame_is_sent(known);
    lemma_opening(state);
    let show = known.display_frame_steps();
    let steps = state.clear_frame_steps();
    let write = steps.take(steps.len() - show.len());
    let tail = write.skip(state.prepare_steps().len() as int);
    assert(write =~= state.prepare_steps() + tail);
    assert(steps =~= write + show);
    lemma_signals_add(write, show);
    lemma_signals_add(state.prepare_steps(), tail);
    assert(signals(tail) =~~= seq![
        Signal::Address(0x92),
        Signal::Address(0x13),
        Signal::Payload(laws::background(state.color)),
    ]);
    assert(signals(steps) =~= opening(state) + seq![
        Signal::Address(0x92),
        Signal::Address(0x13),
        Signal::Payload(laws::background(state.color)),
        Signal::UntilIdle,
    ] + refresh(state));
}

/// Bringing the panel up gives the bookkeeping up before the reset, and selects the full
/// waveform at the end.
pub proof fn law_bring_up_is_sent(state: DriverState)
    requires
        state.refresh_mode == RefreshMode::Full,
    ensures
        signals(protocol::init_steps()) == seq![
            Signal::Bookkeeping(Note::BaselineLost),
            Signal::Reset { high_us: 10_000, low_us: 2_000 },
            Signal::Address(0x01),
            Signal::Payload(seq![0x07u8, 0x07u8, 0x3fu8, 0x3fu8, 0x09u8]),
            Signal::Address(0x06),
            Signal::Payload(seq![0x17u8, 0x17u8, 0x28u8, 0x17u8]),
        ] + signals(protocol::power_on_steps()) + seq![
            Signal::Address(0x00),
            Signal::Payload(seq![0x1fu8]),
            Signal::Address(0x61),
            Signal::Payload(seq![0x03u8, 0x20u8, 0x01u8, 0xe0u8]),
            Signal::Address(0x15),
            Signal::Payload(seq![0x00u8]),
            Signal::Address(0x50),
            Signal::Payload(seq![0x29u8, 0x07u8]),
            Signal::Address(0x60),
            Signal::Payload(seq![0x22u8]),
            Signal::Address(0xe3),
            Signal::Payload(seq![0x22u8]),
            Signal::Address(0x00),
            Signal::Payload(seq![0x1fu8]),
            Signal::Address(0x50),
            Signal::Payload(seq![0x29u8, 0x07u8]),
        ] + waveform(state),
{
    assert(signals(protocol::init_steps()) =~~= seq![
        Signal::Bookkeeping(Note::BaselineLost),
        Signal::Reset { high_us: 10_000, low_us: 2_000 },
        Signal::Address(0x01),
        Signal::Payload(seq![0x07u8, 0x07u8, 0x3fu8, 0x3fu8, 0x09u8]),
        Signal::Address(0x06),
        Signal::Payload(seq![0x17u8, 0x17u8, 0x28u8, 0x17u8]),
    ] + signals(protocol::power_on_steps()) + seq![
        Signal::Address(0x00),
        Signal::Payload(seq![0x1fu8]),
        Signal::Address(0x61),
        Signal::Payload(seq![0x03u8, 0x20u8, 0x01u8, 0xe0u8]),
        Signal::Address(0x15),
        Signal::Payload(seq![0x00u8]),
        Signal::Address(0x50),
        Signal::Payload(seq![0x29u8, 0x07u8]),
        Signal::Address(0x60),
        Signal::Payload(seq![0x22u8]),
        Signal::Address(0xe3),
        Signal::Payload(seq![0x22u8]),
        Signal::Address(0x00),
        Signal::Payload(seq![0x1fu8]),
        Signal::Address(0x50),
        Signal::Payload(seq![0x29u8, 0x07u8]),
    ] + waveform(state));
}

/// Resuming turns the voltages on and waits. Standby turns them off between two waits. Deep
/// sleep does the same with a shorter pause, gives the bookkeeping up, and only then sends the
/// controller to sleep.
pub proof fn law_power_is_switched(ms: u32)
    ensures
        signals(protocol::power_on_steps()) == seq![
            Signal::Address(0x04),
            Signal::PauseMs(100),
            Signal::UntilIdle,
        ],
        signals(protocol::power_off_steps(ms)) == seq![
            Signal::UntilIdle,
            Signal::Address(0x02),
            Signal::PauseMs(ms),
            Signal::UntilIdle,
        ],
        signals(protocol::sleep_steps()) == signals(protocol::power_off_steps(1)) + seq![
            Signal::Bookkeeping(Note::BaselineLost),
            Signal::Address(0x07),
            Signal::Payload(seq![0xa5u8]),
        ],
{
    assert(signals(protocol::power_on_steps()) =~= seq![
        Signal::Address(0x04),
        Signal::PauseMs(100),
        Signal::UntilIdle,
    ]);
    assert(signals(protocol::power_off_steps(ms)) =~= seq![
        Signal::UntilIdle,
        Signal::Address(0x02),
        Signal::PauseMs(ms),
        Signal::UntilIdle,
    ]);
    assert(signals(protocol::sleep_steps()) =~~= signals(protocol::power_off_steps(1)) + seq![
        Signal::Bookkeeping(Note::BaselineLost),
        Signal::Address(0x07),
        Signal::Payload(seq![0xa5u8]),
    ]);
}

/// Selecting a mode sends nothing but the polls of a wait, and then writes down that very mode.
pub proof fn law_selection_is_not_sent(mode: RefreshMode)
    ensures
        signals(protocol::set_refresh_mode_steps(mode)) == seq![
            Signal::UntilIdle,
            Signal::Bookkeeping(Note::Selected(mode)),
        ],
{
    assert(signals(protocol::set_refresh_mode_steps(mode)) =~= seq![
        Signal::UntilIdle,
        Signal::Bookkeeping(Note::Selected(mode)),
    ]);
}

/// The waveform of a mode is configured by the same registers wherever that is done.
pub proof fn law_configuration_is_sent(state: DriverState)
    requires
        !state.initial_refresh,
    ensures
        signals(protocol::configure_refresh_steps(state.refresh_mode)) == seq![
            Signal::Address(0x00),
            Signal::Payload(seq![0x1fu8]),
            Signal::Address(0x50),
            Signal::Payload(seq![0x29u8, 0x07u8]),
        ] + waveform(state),
{
    assert(signals(protocol::configure_refresh_steps(state.refresh_mode)) =~~= seq![
        Signal::Address(0x00),
        Signal::Payload(seq![0x1fu8]),
        Signal::Address(0x50),
        Signal::Payload(seq![0x29u8, 0x07u8]),
    ] + waveform(state));
}

/// The initialization of the RAM sends what the opening does behind its wait.
pub proof fn law_initialization_is_sent(state: DriverState)
    ensures
        seq![Signal::UntilIdle] + signals(state.initialize_ram_steps()) == opening(state),
{
    lemma_opening(state);
    let wait = seq![StepView::WaitIdle];
    lemma_signals_add(wait, state.initialize_ram_steps());
    assert(signals(wait) =~= seq![Signal::UntilIdle]);
}

/// How long the driver pauses while it polls decides on nothing that an operation sends.
pub proof fn law_plans_ignore_the_poll_delay(
    state: DriverState,
    delay_us: u32,
    buffer: Seq<u8>,
    x: int,
    y: int,
    width: int,
    height: int,
)
    ensures
        ({
            let other = DriverState { delay_us, ..state };
            &&& other.initialize_ram_steps() == state.initialize_ram_steps()
            &&& other.update_frame_steps(buffer) == state.update_frame_steps(buffer)
            &&& other.update_partial_frame_steps(buffer, x, y, width, height)
                == state.update_partial_frame_steps(buffer, x, y, width, height)
            &&& other.display_frame_steps() == state.display_frame_steps()
            &&& other.update_and_display_frame_steps(buffer)
                == state.update_and_display_frame_steps(buffer)
            &&& other.clear_frame_steps() == state.clear_frame_steps()
        }),
{
}

/// A new driver has white as its background, the full waveform selected, no claim on the panel,
/// and the pause that was asked for, or ten milliseconds where none was.
pub proof fn law_new_driver(delay_us: Option<u32>)
    ensures
        ({
            let state = DriverState::fresh(delay_us);
            &&& state.color == Color::White
            &&& state.refresh_mode == RefreshMode::Full
            &&& state.effective_mode() == RefreshMode::Full
            &&& state.initial_refresh
            &&& !state.ram_initialized
            &&& delay_us is None ==> state.delay_us == 10_000
            &&& delay_us is Some ==> state.delay_us == delay_us->0
        }),
{
}

/// A driver that resumes from standby has white as its background and the full waveform
/// selected, so its next refresh is a full one until another mode is chosen. It claims both
/// the RAM and a baseline, and has the pause that was asked for, or ten milliseconds.
pub proof fn law_resumed_driver(delay_us: Option<u32>)
    ensures
        ({
            let state = DriverState::retained(delay_us);
            &&& state.color == Color::White
            &&& state.refresh_mode == RefreshMode::Full
            &&& state.effective_mode() == RefreshMode::Full
            &&& !state.initial_refresh
            &&& state.ram_initialized
            &&& delay_us is None ==> state.delay_us == 10_000
            &&& delay_us is Some ==> state.delay_us == delay_us->0
        }),
{
}

/// The next refresh executes the selected mode, but for a differential one that has nothing to
/// start from, which is full.
pub proof fn law_effective_mode(state: DriverState)
    ensures
        state.refresh_mode != RefreshMode::Partial ==> state.effective_mode()
            == state.refresh_mode,
        state.refresh_mode == RefreshMode::Partial && !state.initial_refresh
            ==> state.effective_mode() == RefreshMode::Partial,
        state.refresh_mode == RefreshMode::Partial && state.initial_refresh
            ==> state.effective_mode() == RefreshMode::Full,
{
}

/// Each note changes what it speaks of and nothing else.
pub proof fn law_notes(state: DriverState, note: Note)
    ensures
        ({
            let after = state.noted(note);
            &&& after.color == state.color
            &&& after.delay_us == state.delay_us
            &&& note is BaselineLost ==> after.initial_refresh && !after.ram_initialized
            &&& note is RamInitialized ==> after.ram_initialized && after.initial_refresh
                == state.initial_refresh
            &&& note is Refreshed ==> !after.initial_refresh && after.ram_initialized
                == state.ram_initialized
            &&& note is Selected ==> after.refresh_mode == note->Selected_0
                && after.initial_refresh == state.initial_refresh && after.ram_initialized
                == state.ram_initialized
            &&& !(note is Selected) ==> after.refresh_mode == state.refresh_mode
        }),
{
}

/// The action that carries out a step does what the step says: the same times, the same command,
/// the same bytes. A wait begins with a status query.
pub proof fn law_actions_do_what_steps_say(
    command: Command,
    data: Seq<u8>,
    value: u8,
    count: u32,
    a: u32,
    b: u32,
)
    ensures
        operation::first_action(
            StepView::Reset { initial_delay_us: a, duration_us: b },
        ) == (ActionView::Reset { initial_delay_us: a, duration_us: b }),
        operation::first_action(StepView::Command(command)) == ActionView::Command(command),
        operation::first_action(StepView::Data(data)) == ActionView::Data(data),
        operation::first_action(StepView::Fill { value, count }) == (ActionView::Fill {
            value,
            count,
        }),
        operation::first_action(StepView::DelayMs(a)) == ActionView::DelayMs(a),
        operation::first_action(StepView::WaitIdle) matches ActionView::Command(query)
            && query.code() == 0x71,
{
}

/// A step means what it holds: its view keeps every time, command, byte and note.
pub proof fn law_steps_mean_what_they_hold(step: Step<'_>)
    ensures
        match step {
            Step::Reset { initial_delay_us, duration_us } => step@ == (StepView::Reset {
                initial_delay_us,
                duration_us,
            }),
            Step::Command(command) => step@ == StepView::Command(command),
            Step::Data(data) => step@ == StepView::Data(data@),
            Step::Frame(frame) => step@ == StepView::Data(frame@),
            Step::Fill { value, count } => step@ == (StepView::Fill { value, count }),
            Step::DelayMs(ms) => step@ == StepView::DelayMs(ms),
            Step::WaitIdle => step@ == StepView::WaitIdle,
            Step::Note(note) => step@ == StepView::Note(note),
        },
{
}

/// An action means what it holds.
pub proof fn law_actions_mean_what_they_hold(action: Action<'_>)
    ensures
        match action {
            Action::Reset { initial_delay_us, duration_us } => action@ == (ActionView::Reset {
                initial_delay_us,
                duration_us,
            }),
            Action::Command(command) => action@ == ActionView::Command(command),
            Action::Data(data) => action@ == ActionView::Data(data@),
            Action::Frame(frame) => action@ == ActionView::Data(frame@),
            Action::Fill { value, count } => action@ == (ActionView::Fill { value, count }),
            Action::DelayMs(ms) => action@ == ActionView::DelayMs(ms),
            Action::DelayUs(us) => action@ == ActionView::DelayUs(us),
            Action::SampleBusy => action@ == ActionView::SampleBusy,
            Action::Finished => action@ == ActionView::Finished,
            Action::Failed => action@ == ActionView::Failed,
        },
{
}

} // verus!
