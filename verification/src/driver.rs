//! The driver: each operation, planned from the driver's bookkeeping.

use vstd::prelude::*;

use crate::color::Color;
use crate::command::Command;
use crate::geometry::{self, FRAME_BYTES, HEIGHT, WIDTH};
use crate::mode::{self, RefreshLut, RefreshMode};
use crate::protocol::{self, DriverState};
use crate::step::{self, Note, Plan, Step, StepView};

verus! {

/// Default Background Color
pub const DEFAULT_BACKGROUND_COLOR: Color = Color::White;

/// Epd7in5 (V2) driver
pub struct Epd7in5 {
    /// Background Color
    color: Color,
    refresh_mode: RefreshMode,
    initial_refresh: bool,
    ram_initialized: bool,
    /// Pause of the idle loop
    delay_us: u32,
}

impl View for Epd7in5 {
    type V = DriverState;

    closed spec fn view(&self) -> DriverState {
        DriverState {
            color: self.color,
            refresh_mode: self.refresh_mode,
            initial_refresh: self.initial_refresh,
            ram_initialized: self.ram_initialized,
            delay_us: self.delay_us,
        }
    }
}

impl Epd7in5 {
    /// Plans one command.
    pub fn command(&self, plan: &mut Plan, command: Command)
        ensures
            final(plan)@ == old(plan)@.push(StepView::Command(command)),
    {
        plan.push(Step::Command(command));
    }

    /// Plans a command and its parameters.
    pub fn cmd_with_data(&self, plan: &mut Plan, command: Command, data: Vec<u8>)
        ensures
            final(plan)@ == old(plan)@ + step::setting(command, data@),
    {
        let ghost start = plan@;
        plan.push(Step::Command(command));
        plan.push(Step::Data(data));
        assert(plan@ =~= start + step::setting(command, data@));
    }

    /// Plans a wait until BUSY is released.
    pub fn wait_until_idle(&self, plan: &mut Plan)
        ensures
            final(plan)@ == old(plan)@.push(StepView::WaitIdle),
    {
        plan.push(Step::WaitIdle);
    }

    /// Plans the choice of the waveform that the next refresh executes.
    pub fn configure_refresh(&self, plan: &mut Plan, mode: RefreshMode)
        ensures
            final(plan)@ == old(plan)@ + protocol::configure_refresh_steps(mode),
    {
        let ghost start = plan@;
        self.cmd_with_data(plan, Command::PanelSetting, vec![0x1fu8]);
        // N2OCP copies the new image to previous RAM after each refresh.
        self.cmd_with_data(plan, Command::VcomAndDataIntervalSetting, vec![0x29u8, 0x07u8]);
        match mode {
            RefreshMode::Full => {
                self.cmd_with_data(plan, Command::CascadeSetting, vec![0x00u8]);
                self.cmd_with_data(plan, Command::TemperatureCalibration, vec![0x00u8]);
            },
            RefreshMode::Fast | RefreshMode::Partial => {
                self.cmd_with_data(plan, Command::CascadeSetting, vec![0x02u8]);
                let temperature: u8 = if mode == RefreshMode::Fast {
                    0x5a
                } else {
                    0x6e
                };
                self.cmd_with_data(plan, Command::ForceTemperature, vec![temperature]);
            },
        }
        assert(plan@ =~~= start + protocol::configure_refresh_steps(mode));
    }

    /// Plans a reset of the controller and its configuration for a full refresh.
    pub fn init(&self, plan: &mut Plan)
        ensures
            final(plan)@ == old(plan)@ + protocol::init_steps(),
    {
        let ghost start = plan@;
        plan.push(Step::Note(Note::BaselineLost));
        // Reset the device
        plan.push(
            Step::Reset {
                initial_delay_us: protocol::RESET_SETTLE_US,
                duration_us: protocol::RESET_PULSE_US,
            },
        );
        self.cmd_with_data(
            plan,
            Command::PowerSetting,
            vec![0x07u8, 0x07u8, 0x3fu8, 0x3fu8, 0x09u8],
        );
        self.cmd_with_data(plan, Command::BoosterSoftStart, vec![0x17u8, 0x17u8, 0x28u8, 0x17u8]);
        self.command(plan, Command::PowerOn);
        plan.push(Step::DelayMs(100));
        self.wait_until_idle(plan);
        self.cmd_with_data(plan, Command::PanelSetting, vec![0x1fu8]);
        self.cmd_with_data(plan, Command::TconResolution, vec![0x03u8, 0x20u8, 0x01u8, 0xe0u8]);
        self.cmd_with_data(plan, Command::DualSpi, vec![0x00u8]);
        self.cmd_with_data(plan, Command::VcomAndDataIntervalSetting, vec![0x29u8, 0x07u8]);
        self.cmd_with_data(plan, Command::TconSetting, vec![0x22u8]);
        self.cmd_with_data(plan, Command::PowerSaving, vec![0x22u8]);
        self.configure_refresh(plan, RefreshMode::Full);
        assert(plan@ =~~= start + protocol::init_steps());
    }

    /// Plans the fill of both image RAMs, unless they already hold a known image.
    pub fn initialize_ram(&self, plan: &mut Plan)
        ensures
            final(plan)@ == old(plan)@ + self@.initialize_ram_steps(),
    {
        let ghost start = plan@;
        if !self.ram_initialized {
            self.command(plan, Command::PartialOut);
            self.command(plan, Command::DataStartTransmission1);
            plan.push(Step::Fill { value: 0x00, count: WIDTH / 8 * HEIGHT });
            self.command(plan, Command::DataStartTransmission2);
            plan.push(
                Step::Fill { value: self.color.get_byte_value(), count: WIDTH / 8 * HEIGHT },
            );
            plan.push(Step::Note(Note::RamInitialized));
        }
        assert(plan@ =~~= start + self@.initialize_ram_steps());
    }

    /// Plans the partial window.
    pub fn set_partial_window(&self, plan: &mut Plan, x: u32, y: u32, width: u32, height: u32)
        requires
            1 <= x + width <= u32::MAX,
            1 <= y + height <= u32::MAX,
        ensures
            final(plan)@ == old(plan)@ + protocol::partial_window_steps(
                x as int,
                y as int,
                width as int,
                height as int,
            ),
    {
        let ghost start = plan@;
        let xe: u32 = x + width - 1;
        let ye: u32 = y + height - 1;
        self.cmd_with_data(
            plan,
            Command::PartialWindow,
            vec![
                high_byte(x),
                low_byte(x),
                high_byte(xe),
                low_byte(xe),
                high_byte(y),
                low_byte(y),
                high_byte(ye),
                low_byte(ye),
                0x01u8,
            ],
        );
        assert(plan@ =~~= start + protocol::partial_window_steps(
            x as int,
            y as int,
            width as int,
            height as int,
        ));
    }

    /// Plans a wait for the controller and, where needed, the fill of its RAM.
    fn prepare(&self, plan: &mut Plan)
        ensures
            final(plan)@ == old(plan)@ + self@.prepare_steps(),
    {
        let ghost start = plan@;
        self.wait_until_idle(plan);
        self.initialize_ram(plan);
        assert(plan@ =~= start + self@.prepare_steps());
    }

    /// Plans a refresh after the steps that the plan already holds.
    fn then_display_frame(&self, plan: &mut Plan)
        ensures
            final(plan)@ == old(plan)@ + self@.display_frame_steps(),
    {
        let ghost start = plan@;
        self.prepare(plan);
        let mode = self.effective_refresh_mode();
        self.configure_refresh(plan, mode);
        // Differential waveforms scan the whole panel. Unchanged pixels are preserved by old/new
        // RAM. This also allows multiple partial writes before one refresh.
        self.command(plan, Command::PartialOut);
        self.set_partial_window(plan, 0, 0, WIDTH, HEIGHT);
        self.command(plan, Command::DisplayRefresh);
        // Give BUSY time to assert before polling.
        plan.push(Step::DelayMs(1));
        self.wait_until_idle(plan);
        plan.push(Step::Note(Note::Refreshed));
        assert(plan@ =~= start + self@.display_frame_steps());
    }

    /// Plans the write of a whole image after the steps that the plan already holds.
    fn then_update_frame<'a>(&self, plan: &mut Plan<'a>, buffer: &'a [u8])
        ensures
            final(plan)@ == old(plan)@ + self@.update_frame_steps(buffer@),
    {
        let ghost start = plan@;
        self.prepare(plan);
        self.command(plan, Command::PartialOut);
        self.command(plan, Command::DataStartTransmission2);
        plan.push(Step::Frame(buffer));
        assert(plan@ =~= start + self@.update_frame_steps(buffer@));
    }

    /// The driver as it is once the controller's RAM is initialized.
    fn prepared(&self) -> (driver: Self)
        ensures
            driver@ == self@.prepared(),
    {
        Epd7in5 {
            color: self.color,
            refresh_mode: self.refresh_mode,
            initial_refresh: self.initial_refresh,
            ram_initialized: true,
            delay_us: self.delay_us,
        }
    }

    /// A driver for a panel in any state, and the reset and configuration to carry out before
    /// its first use. `delay_us` is the pause of the idle loop.
    pub fn new<'a>(delay_us: Option<u32>) -> (driver: (Self, Plan<'a>))
        ensures
            driver.0@ == DriverState::fresh(delay_us),
            driver.0@.color == Color::White,
            driver.0@.refresh_mode == RefreshMode::Full,
            driver.0@.initial_refresh,
            !driver.0@.ram_initialized,
            driver.0@.delay_us == match delay_us {
                Some(us) => us,
                None => 10_000,
            },
            driver.1@ == protocol::init_steps(),
    {
        let epd = Epd7in5 {
            color: DEFAULT_BACKGROUND_COLOR,
            refresh_mode: RefreshMode::Full,
            initial_refresh: true,
            ram_initialized: false,
            delay_us: match delay_us {
                Some(us) => us,
                None => protocol::DEFAULT_POLL_DELAY_US,
            },
        };
        let plan = epd.wake_up();
        (epd, plan)
    }

    /// Resume after [`Epd7in5::power_off_retaining_ram`], without resetting the controller.
    ///
    /// The caller must guarantee uninterrupted panel logic power, preserved RAM, and an
    /// unchanged RESET pin since a successful refresh. Otherwise use [`Epd7in5::new`].
    pub fn resume_retained<'a>(delay_us: Option<u32>) -> (driver: (Self, Plan<'a>))
        ensures
            driver.0@ == DriverState::retained(delay_us),
            driver.0@.color == Color::White,
            driver.0@.refresh_mode == RefreshMode::Full,
            !driver.0@.initial_refresh,
            driver.0@.ram_initialized,
            driver.0@.delay_us == match delay_us {
                Some(us) => us,
                None => 10_000,
            },
            driver.1@ == protocol::power_on_steps(),
    {
        let epd = Epd7in5 {
            color: DEFAULT_BACKGROUND_COLOR,
            refresh_mode: RefreshMode::Full,
            initial_refresh: false,
            ram_initialized: true,
            delay_us: match delay_us {
                Some(us) => us,
                None => protocol::DEFAULT_POLL_DELAY_US,
            },
        };
        let mut plan = Plan::new();
        epd.command(&mut plan, Command::PowerOn);
        plan.push(Step::DelayMs(100));
        epd.wait_until_idle(&mut plan);
        assert(plan@ =~= protocol::power_on_steps());
        (epd, plan)
    }

    /// Disable panel driving voltages while preserving powered controller RAM.
    /// Unlike [`Epd7in5::sleep`], this does not issue DeepSleep or invalidate the baseline.
    pub fn power_off_retaining_ram<'a>(&self) -> (plan: Plan<'a>)
        ensures
            plan@ == protocol::power_off_steps(100),
    {
        let mut plan = Plan::new();
        self.wait_until_idle(&mut plan);
        self.command(&mut plan, Command::PowerOff);
        plan.push(Step::DelayMs(100));
        self.wait_until_idle(&mut plan);
        assert(plan@ =~= protocol::power_off_steps(100));
        plan
    }

    /// Reset and initialize the panel, invalidating its retained baseline.
    pub fn wake_up<'a>(&self) -> (plan: Plan<'a>)
        ensures
            plan@ == protocol::init_steps(),
    {
        let mut plan = Plan::new();
        self.init(&mut plan);
        assert(plan@ =~= protocol::init_steps());
        plan
    }

    /// Enter deep sleep, invalidating the retained RAM baseline.
    pub fn sleep<'a>(&self) -> (plan: Plan<'a>)
        ensures
            plan@ == protocol::sleep_steps(),
    {
        let mut plan = Plan::new();
        self.wait_until_idle(&mut plan);
        self.command(&mut plan, Command::PowerOff);
        plan.push(Step::DelayMs(1));
        self.wait_until_idle(&mut plan);
        plan.push(Step::Note(Note::BaselineLost));
        self.cmd_with_data(&mut plan, Command::DeepSleep, vec![protocol::DEEP_SLEEP_CHECK]);
        assert(plan@ =~~= protocol::sleep_steps());
        plan
    }

    /// Write a full framebuffer without starting a refresh.
    pub fn update_frame<'a>(&self, buffer: &'a [u8]) -> (plan: Plan<'a>)
        requires
            buffer@.len() == FRAME_BYTES,
        ensures
            plan@ == self@.update_frame_steps(buffer@),
    {
        let mut plan = Plan::new();
        self.then_update_frame(&mut plan, buffer);
        assert(plan@ =~= self@.update_frame_steps(buffer@));
        plan
    }

    /// Write a tightly packed region; refresh it with [`Epd7in5::display_frame`].
    /// Select [`RefreshMode::Partial`] for a differential refresh.
    ///
    /// The rectangle is nonempty and on the screen, `x` and `width` are multiples of eight, and
    /// the buffer length is exactly `width * height / 8`.
    pub fn update_partial_frame<'a>(
        &self,
        buffer: &'a [u8],
        x: u32,
        y: u32,
        width: u32,
        height: u32,
    ) -> (plan: Plan<'a>)
        requires
            geometry::valid_region(
                buffer@.len() as int,
                x as int,
                y as int,
                width as int,
                height as int,
            ),
        ensures
            plan@ == self@.update_partial_frame_steps(
                buffer@,
                x as int,
                y as int,
                width as int,
                height as int,
            ),
    {
        let mut plan = Plan::new();
        self.prepare(&mut plan);
        self.command(&mut plan, Command::PartialIn);
        self.set_partial_window(&mut plan, x, y, width, height);
        self.command(&mut plan, Command::DataStartTransmission2);
        plan.push(Step::Frame(buffer));
        self.command(&mut plan, Command::PartialOut);
        assert(plan@ =~= self@.update_partial_frame_steps(
            buffer@,
            x as int,
            y as int,
            width as int,
            height as int,
        ));
        plan
    }

    /// Refresh the panel and wait for BUSY to clear.
    pub fn display_frame<'a>(&self) -> (plan: Plan<'a>)
        ensures
            plan@ == self@.display_frame_steps(),
    {
        let mut plan = Plan::new();
        self.then_display_frame(&mut plan);
        assert(plan@ =~= self@.display_frame_steps());
        plan
    }

    /// Write a full framebuffer and wait for its refresh to finish.
    pub fn update_and_display_frame<'a>(&self, buffer: &'a [u8]) -> (plan: Plan<'a>)
        requires
            buffer@.len() == FRAME_BYTES,
        ensures
            plan@ == self@.update_and_display_frame_steps(buffer@),
    {
        let mut plan = self.update_frame(buffer);
        self.prepared().then_display_frame(&mut plan);
        plan
    }

    /// Fill the panel with the background color and refresh it.
    pub fn clear_frame<'a>(&self) -> (plan: Plan<'a>)
        ensures
            plan@ == self@.clear_frame_steps(),
    {
        let mut plan = Plan::new();
        self.prepare(&mut plan);
        self.command(&mut plan, Command::PartialOut);
        self.command(&mut plan, Command::DataStartTransmission2);
        plan.push(Step::Fill { value: self.color.get_byte_value(), count: WIDTH / 8 * HEIGHT });
        self.prepared().then_display_frame(&mut plan);
        assert(plan@ =~= self@.clear_frame_steps());
        plan
    }

    /// Select the waveform used by subsequent refreshes.
    ///
    /// Fast is a full-screen waveform and is valid for the first full-frame update too. Only
    /// differential Partial needs an established baseline and falls back to Full after
    /// construction or reset. Partial mode uses controller old/new RAM copying (N2OCP), so no
    /// host-side old framebuffer or second write is needed. Keep panel power and RAM intact
    /// between differential updates; periodically select Full to remove ghosting.
    pub fn set_refresh_mode<'a>(&self, mode: RefreshMode) -> (plan: Plan<'a>)
        ensures
            plan@ == protocol::set_refresh_mode_steps(mode),
    {
        let mut plan = Plan::new();
        self.wait_until_idle(&mut plan);
        plan.push(Step::Note(Note::Selected(mode)));
        assert(plan@ =~= protocol::set_refresh_mode_steps(mode));
        plan
    }

    /// Select Full or differential Partial through the legacy LUT selector.
    pub fn set_lut<'a>(&self, refresh_rate: Option<RefreshLut>) -> (plan: Plan<'a>)
        ensures
            plan@ == protocol::set_refresh_mode_steps(mode::lut_mode(refresh_rate)),
    {
        let lut = match refresh_rate {
            Some(lut) => lut,
            None => RefreshLut::default(),
        };
        let mode = match lut {
            RefreshLut::Full => RefreshMode::Full,
            RefreshLut::Quick => RefreshMode::Partial,
        };
        self.set_refresh_mode(mode)
    }

    /// Waveform the next refresh will actually execute. Query before refreshing, since a
    /// successful refresh establishes the partial baseline.
    pub fn effective_refresh_mode(&self) -> (mode: RefreshMode)
        ensures
            mode == self@.effective_mode(),
            mode == match (self@.initial_refresh, self@.refresh_mode) {
                (true, RefreshMode::Partial) => RefreshMode::Full,
                (_, selected) => selected,
            },
    {
        match (self.initial_refresh, self.refresh_mode) {
            (true, RefreshMode::Partial) => RefreshMode::Full,
            (_, mode) => mode,
        }
    }

    /// Set the color used by [`Epd7in5::clear_frame`].
    pub fn set_background_color(&mut self, color: Color)
        ensures
            final(self)@ == (DriverState { color, ..old(self)@ }),
    {
        self.color = color;
    }

    /// Return the configured background color.
    pub fn background_color(&self) -> (color: &Color)
        ensures
            *color == self@.color,
    {
        &self.color
    }

    /// Return the panel width in pixels.
    pub fn width(&self) -> (width: u32)
        ensures
            width == WIDTH,
            width == 800,
    {
        WIDTH
    }

    /// Return the panel height in pixels.
    pub fn height(&self) -> (height: u32)
        ensures
            height == HEIGHT,
            height == 480,
    {
        HEIGHT
    }

    /// Whether no refresh has finished since the controller's RAM was last unknown.
    pub fn initial_refresh(&self) -> (initial: bool)
        ensures
            initial == self@.initial_refresh,
    {
        self.initial_refresh
    }

    /// Whether both image RAMs of the controller hold a known image.
    pub fn ram_initialized(&self) -> (initialized: bool)
        ensures
            initialized == self@.ram_initialized,
    {
        self.ram_initialized
    }

    /// Pause between a status query and the look at BUSY, in microseconds.
    pub fn poll_delay_us(&self) -> (delay_us: u32)
        ensures
            delay_us == self@.delay_us,
    {
        self.delay_us
    }

    /// Carries out a note.
    pub(crate) fn apply(&mut self, note: Note)
        ensures
            final(self)@ == old(self)@.noted(note),
    {
        match note {
            Note::BaselineLost => {
                self.initial_refresh = true;
                self.ram_initialized = false;
            },
            Note::RamInitialized => {
                self.ram_initialized = true;
            },
            Note::Refreshed => {
                self.initial_refresh = false;
            },
            Note::Selected(mode) => {
                self.refresh_mode = mode;
            },
        }
    }
}

/// High byte of the 16-bit encoding of a coordinate.
fn high_byte(value: u32) -> (byte: u8)
    ensures
        byte == protocol::high_byte(value as int),
{
    assert((value >> 8) as u8 == value / 256 % 256) by (bit_vector);
    (value >> 8) as u8
}

/// Low byte of the 16-bit encoding of a coordinate.
fn low_byte(value: u32) -> (byte: u8)
    ensures
        byte == protocol::low_byte(value as int),
{
    assert(value as u8 == value % 256) by (bit_vector);
    value as u8
}

} // verus!
