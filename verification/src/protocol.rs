//! The state that the driver keeps, and the steps of each operation as a function of it.

use vstd::prelude::*;

use crate::color::Color;
use crate::command::Command;
use crate::geometry::{FRAME_BYTES, HEIGHT, WIDTH};
use crate::mode::RefreshMode;
use crate::step::{self, Note, StepView};

verus! {

/// Settling time of the reset pin before the pulse.
pub const RESET_SETTLE_US: u32 = 10_000;

/// Length of the reset pulse.
pub const RESET_PULSE_US: u32 = 2_000;

/// Pause between a status query and the look at BUSY, unless another one is chosen.
pub const DEFAULT_POLL_DELAY_US: u32 = 10_000;

/// Check code that makes the controller accept a deep sleep command.
pub const DEEP_SLEEP_CHECK: u8 = 0xa5;

/// The driver's bookkeeping.
pub struct DriverState {
    /// Color that clearing the panel fills it with.
    pub color: Color,
    /// Waveform that the user selected.
    pub refresh_mode: RefreshMode,
    /// No refresh has finished since the controller's RAM was last unknown.
    pub initial_refresh: bool,
    /// Both image RAMs of the controller hold a known image.
    pub ram_initialized: bool,
    /// Pause between a status query and the look at BUSY, in microseconds.
    pub delay_us: u32,
}

/// High byte of the 16-bit encoding of a coordinate.
pub open spec fn high_byte(value: int) -> u8 {
    (value / 256 % 256) as u8
}

/// Low byte of the 16-bit encoding of a coordinate.
pub open spec fn low_byte(value: int) -> u8 {
    (value % 256) as u8
}

/// Parameters of the partial window: first and last column, first and last row, each
/// high byte first, and the flag that scans inside and outside the window.
pub open spec fn window_bytes(x: int, y: int, width: int, height: int) -> Seq<u8> {
    seq![
        high_byte(x),
        low_byte(x),
        high_byte(x + width - 1),
        low_byte(x + width - 1),
        high_byte(y),
        low_byte(y),
        high_byte(y + height - 1),
        low_byte(y + height - 1),
        0x01u8,
    ]
}

/// Sets the partial window.
pub open spec fn partial_window_steps(x: int, y: int, width: int, height: int) -> Seq<StepView> {
    step::setting(Command::PartialWindow, window_bytes(x, y, width, height))
}

/// Temperature by which the controller selects the waveform of a mode from its OTP memory, or
/// none where the sensor decides.
pub open spec fn forced_temperature(mode: RefreshMode) -> Option<u8> {
    match mode {
        RefreshMode::Full => None,
        RefreshMode::Fast => Some(90),
        RefreshMode::Partial => Some(110),
    }
}

/// Selects the waveform of the next refresh.
pub open spec fn configure_refresh_steps(mode: RefreshMode) -> Seq<StepView> {
    step::setting(Command::PanelSetting, seq![0x1fu8]) + step::setting(
        Command::VcomAndDataIntervalSetting,
        seq![0x29u8, 0x07u8],
    ) + (match forced_temperature(mode) {
        None => step::setting(Command::CascadeSetting, seq![0x00u8]) + step::setting(
            Command::TemperatureCalibration,
            seq![0x00u8],
        ),
        Some(degrees) => step::setting(Command::CascadeSetting, seq![0x02u8]) + step::setting(
            Command::ForceTemperature,
            seq![degrees],
        ),
    })
}

/// Resets the controller and configures it for a full refresh.
pub open spec fn init_steps() -> Seq<StepView> {
    seq![
        StepView::Note(Note::BaselineLost),
        StepView::Reset { initial_delay_us: RESET_SETTLE_US, duration_us: RESET_PULSE_US },
    ] + step::setting(
        Command::PowerSetting,
        seq![0x07u8, 0x07u8, 0x3fu8, 0x3fu8, 0x09u8],
    ) + step::setting(
        Command::BoosterSoftStart,
        seq![0x17u8, 0x17u8, 0x28u8, 0x17u8],
    ) + power_on_steps() + step::setting(Command::PanelSetting, seq![0x1fu8]) + step::setting(
        Command::TconResolution,
        seq![0x03u8, 0x20u8, 0x01u8, 0xe0u8],
    ) + step::setting(Command::DualSpi, seq![0x00u8]) + step::setting(
        Command::VcomAndDataIntervalSetting,
        seq![0x29u8, 0x07u8],
    ) + step::setting(Command::TconSetting, seq![0x22u8]) + step::setting(
        Command::PowerSaving,
        seq![0x22u8],
    ) + configure_refresh_steps(RefreshMode::Full)
}

/// Turns the driving voltages on and waits for them.
pub open spec fn power_on_steps() -> Seq<StepView> {
    seq![StepView::Command(Command::PowerOn), StepView::DelayMs(100), StepView::WaitIdle]
}

/// Turns the driving voltages off once the controller is idle, and waits again.
pub open spec fn power_off_steps(ms: u32) -> Seq<StepView> {
    seq![
        StepView::WaitIdle,
        StepView::Command(Command::PowerOff),
        StepView::DelayMs(ms),
        StepView::WaitIdle,
    ]
}

/// Powers the panel down and enters deep sleep.
pub open spec fn sleep_steps() -> Seq<StepView> {
    power_off_steps(1).push(StepView::Note(Note::BaselineLost)) + step::setting(
        Command::DeepSleep,
        seq![DEEP_SLEEP_CHECK],
    )
}

/// Selects a waveform for later refreshes once the controller is idle.
pub open spec fn set_refresh_mode_steps(mode: RefreshMode) -> Seq<StepView> {
    seq![StepView::WaitIdle, StepView::Note(Note::Selected(mode))]
}

impl DriverState {
    /// The state after construction, before anything was sent.
    pub open spec fn fresh(delay_us: Option<u32>) -> Self {
        DriverState {
            color: Color::White,
            refresh_mode: RefreshMode::Full,
            initial_refresh: true,
            ram_initialized: false,
            delay_us: poll_delay(delay_us),
        }
    }

    /// The state of a driver that takes over a controller whose RAM was kept.
    pub open spec fn retained(delay_us: Option<u32>) -> Self {
        DriverState { initial_refresh: false, ram_initialized: true, ..Self::fresh(delay_us) }
    }

    /// Waveform that the next refresh executes: a differential one needs a baseline.
    pub open spec fn effective_mode(self) -> RefreshMode {
        if self.initial_refresh && self.refresh_mode == RefreshMode::Partial {
            RefreshMode::Full
        } else {
            self.refresh_mode
        }
    }

    /// The state after a note.
    pub open spec fn noted(self, note: Note) -> Self {
        match note {
            Note::BaselineLost => DriverState {
                initial_refresh: true,
                ram_initialized: false,
                ..self
            },
            Note::RamInitialized => DriverState { ram_initialized: true, ..self },
            Note::Refreshed => DriverState { initial_refresh: false, ..self },
            Note::Selected(mode) => DriverState { refresh_mode: mode, ..self },
        }
    }

    /// The state after one step: only notes change it.
    pub open spec fn stepped(self, step: StepView) -> Self {
        match step {
            StepView::Note(note) => self.noted(note),
            _ => self,
        }
    }

    /// The state after all of the given steps.
    pub open spec fn after(self, steps: Seq<StepView>) -> Self
        decreases steps.len(),
    {
        if steps.len() == 0 {
            self
        } else {
            self.stepped(steps[0]).after(steps.drop_first())
        }
    }

    /// Fills both image RAMs, the previous one with black and the new one with the background
    /// color, unless that was done since they were last unknown.
    pub open spec fn initialize_ram_steps(self) -> Seq<StepView> {
        if self.ram_initialized {
            seq![]
        } else {
            seq![
                StepView::Command(Command::PartialOut),
                StepView::Command(Command::DataStartTransmission1),
                StepView::Fill { value: 0x00, count: FRAME_BYTES },
                StepView::Command(Command::DataStartTransmission2),
                StepView::Fill { value: self.color.byte_value(), count: FRAME_BYTES },
                StepView::Note(Note::RamInitialized),
            ]
        }
    }

    /// Waits for the controller and makes sure that its RAM is initialized.
    pub open spec fn prepare_steps(self) -> Seq<StepView> {
        seq![StepView::WaitIdle] + self.initialize_ram_steps()
    }

    /// The state once [`DriverState::prepare_steps`] are done.
    pub open spec fn prepared(self) -> Self {
        DriverState { ram_initialized: true, ..self }
    }

    /// Writes a whole image into the new-image RAM.
    pub open spec fn update_frame_steps(self, buffer: Seq<u8>) -> Seq<StepView> {
        self.prepare_steps() + seq![
            StepView::Command(Command::PartialOut),
            StepView::Command(Command::DataStartTransmission2),
            StepView::Data(buffer),
        ]
    }

    /// Writes a rectangle of the new-image RAM.
    pub open spec fn update_partial_frame_steps(
        self,
        buffer: Seq<u8>,
        x: int,
        y: int,
        width: int,
        height: int,
    ) -> Seq<StepView> {
        self.prepare_steps() + seq![StepView::Command(Command::PartialIn)] + partial_window_steps(
            x,
            y,
            width,
            height,
        ) + seq![
            StepView::Command(Command::DataStartTransmission2),
            StepView::Data(buffer),
            StepView::Command(Command::PartialOut),
        ]
    }

    /// Refreshes the whole panel with the effective waveform.
    pub open spec fn display_frame_steps(self) -> Seq<StepView> {
        self.prepare_steps() + configure_refresh_steps(self.effective_mode()) + seq![
            StepView::Command(Command::PartialOut),
        ] + partial_window_steps(0, 0, WIDTH as int, HEIGHT as int) + seq![
            StepView::Command(Command::DisplayRefresh),
            StepView::DelayMs(1),
            StepView::WaitIdle,
            StepView::Note(Note::Refreshed),
        ]
    }

    /// Writes a whole image and refreshes the panel.
    pub open spec fn update_and_display_frame_steps(self, buffer: Seq<u8>) -> Seq<StepView> {
        self.update_frame_steps(buffer) + self.prepared().display_frame_steps()
    }

    /// Fills the new-image RAM with the background color and refreshes the panel.
    pub open spec fn clear_frame_steps(self) -> Seq<StepView> {
        self.prepare_steps() + seq![
            StepView::Command(Command::PartialOut),
            StepView::Command(Command::DataStartTransmission2),
            StepView::Fill { value: self.color.byte_value(), count: FRAME_BYTES },
        ] + self.prepared().display_frame_steps()
    }
}

/// The pause between a status query and the look at BUSY.
pub open spec fn poll_delay(delay_us: Option<u32>) -> u32 {
    match delay_us {
        Some(us) => us,
        None => DEFAULT_POLL_DELAY_US,
    }
}

} // verus!
