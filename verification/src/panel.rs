//! A model of the panel: what its controller makes of the steps it is sent.
//!
//! The model keeps what the driver's promises are about: the two image RAMs, the partial
//! window, the registers that select the waveform, and the image on the glass. What nothing is
//! known of is `None`: the RAMs and registers after a reset or deep sleep, and whatever a write
//! that failed was about to change.

use vstd::prelude::*;

use crate::command::Command;
use crate::geometry::{self, FRAME_BYTES, ROW_BYTES};
use crate::mode::RefreshMode;
use crate::operation::{self, ActionView};
use crate::protocol::{self, DriverState};
use crate::step::StepView;

verus! {

/// A rectangle of pixels.
pub struct Window {
    pub x: int,
    pub y: int,
    pub width: int,
    pub height: int,
}

impl Window {
    /// The rectangle that the parameters of the partial window stand for.
    pub open spec fn decoded(data: Seq<u8>) -> Self {
        let x = data[0] * 256 + data[1];
        let y = data[4] * 256 + data[5];
        Window {
            x,
            y,
            width: data[2] * 256 + data[3] - x + 1,
            height: data[6] * 256 + data[7] - y + 1,
        }
    }

    /// The byte at an index of an image lies in the rectangle.
    pub open spec fn covers(self, index: int) -> bool {
        &&& self.y <= index / (ROW_BYTES as int) < self.y + self.height
        &&& self.x / 8 <= index % (ROW_BYTES as int) < (self.x + self.width) / 8
    }

    /// Index into the rectangle's own bytes of the byte at an index of the image.
    pub open spec fn offset(self, index: int) -> int {
        (index / (ROW_BYTES as int) - self.y) * (self.width / 8) + (index % (ROW_BYTES as int)
            - self.x / 8)
    }
}

/// An image with a rectangle of it replaced.
pub open spec fn overlaid(image: Seq<u8>, window: Window, data: Seq<u8>) -> Seq<u8> {
    Seq::new(
        image.len(),
        |i: int|
            if window.covers(i) {
                data[window.offset(i)]
            } else {
                image[i]
            },
    )
}

/// An image of one byte all over.
pub open spec fn uniform(value: u8, count: u32) -> Seq<u8> {
    Seq::new(count as nat, |i: int| value)
}

/// The panel.
#[verifier::ext_equal]
pub struct Panel {
    /// The command whose parameters come next.
    pub command: Option<Command>,
    /// Image RAM that the next refresh shows.
    pub new_ram: Option<Seq<u8>>,
    /// Image RAM that a differential refresh starts from.
    pub old_ram: Option<Seq<u8>>,
    /// Image on the glass.
    pub shown: Option<Seq<u8>>,
    /// Transfers are restricted to the window.
    pub partial: Option<bool>,
    /// The partial window.
    pub window: Option<Window>,
    /// A refresh copies the new image to the previous one when it ends (N2OCP).
    pub copies: Option<bool>,
    /// The waveform is selected by a forced temperature, not by the sensor.
    pub forced: Option<bool>,
    /// The forced temperature.
    pub temperature: Option<u8>,
    /// Waveform of the last refresh.
    pub waveform: Option<RefreshMode>,
}

impl Panel {
    /// What a transfer makes of an image RAM.
    pub open spec fn written(self, ram: Option<Seq<u8>>, data: Seq<u8>) -> Option<Seq<u8>> {
        match (self.partial, self.window, ram) {
            (Some(false), _, _) => if data.len() == FRAME_BYTES {
                Some(data)
            } else {
                None
            },
            (Some(true), Some(w), Some(image)) => if geometry::valid_region(
                data.len() as int,
                w.x,
                w.y,
                w.width,
                w.height,
            ) {
                Some(overlaid(image, w, data))
            } else {
                None
            },
            _ => None,
        }
    }

    /// Waveform that the registers select.
    pub open spec fn selected(self) -> Option<RefreshMode> {
        match (self.forced, self.temperature) {
            (Some(false), _) => Some(RefreshMode::Full),
            (Some(true), Some(90)) => Some(RefreshMode::Fast),
            (Some(true), Some(110)) => Some(RefreshMode::Partial),
            _ => None,
        }
    }

    /// The panel after a refresh. A differential waveform gives a defined image only where the
    /// previous-image RAM holds what is on the glass.
    pub open spec fn refreshed(self) -> Self {
        let defined = match self.selected() {
            Some(RefreshMode::Partial) => self.old_ram is Some && self.old_ram == self.shown,
            Some(_) => true,
            None => false,
        };
        Panel {
            shown: if defined {
                self.new_ram
            } else {
                None
            },
            old_ram: match self.copies {
                Some(true) => self.new_ram,
                Some(false) => self.old_ram,
                None => None,
            },
            waveform: self.selected(),
            ..self
        }
    }

    /// The panel after a command.
    pub open spec fn commanded(self, command: Command) -> Self {
        let panel = Panel { command: Some(command), ..self };
        match command {
            Command::PartialIn => Panel { partial: Some(true), ..panel },
            Command::PartialOut => Panel { partial: Some(false), ..panel },
            Command::DisplayRefresh => panel.refreshed(),
            _ => panel,
        }
    }

    /// The panel after the parameters of the last command.
    pub open spec fn received(self, data: Seq<u8>) -> Self {
        match self.command {
            Some(Command::DataStartTransmission1) => Panel {
                old_ram: self.written(self.old_ram, data),
                ..self
            },
            Some(Command::DataStartTransmission2) => Panel {
                new_ram: self.written(self.new_ram, data),
                ..self
            },
            Some(Command::PartialWindow) => Panel { window: Some(Window::decoded(data)), ..self },
            Some(Command::VcomAndDataIntervalSetting) => Panel {
                copies: Some(data[0] / 8 % 2 == 1),
                ..self
            },
            Some(Command::CascadeSetting) => Panel { forced: Some(data[0] / 2 % 2 == 1), ..self },
            Some(Command::ForceTemperature) => Panel { temperature: Some(data[0]), ..self },
            Some(Command::DeepSleep) => if data == seq![protocol::DEEP_SLEEP_CHECK] {
                self.forgotten()
            } else {
                self
            },
            Some(_) => self,
            None => self.forgotten(),
        }
    }

    /// The panel when its controller has lost its RAM and registers; the glass keeps its image.
    pub open spec fn forgotten(self) -> Self {
        Panel {
            command: None,
            new_ram: None,
            old_ram: None,
            partial: None,
            window: None,
            copies: None,
            forced: None,
            temperature: None,
            ..self
        }
    }

    /// The panel after an action.
    pub open spec fn acted(self, action: ActionView) -> Self {
        match action {
            ActionView::Reset { .. } => self.forgotten(),
            ActionView::Command(command) => self.commanded(command),
            ActionView::Data(data) => self.received(data),
            ActionView::Fill { value, count } => self.received(uniform(value, count)),
            _ => self,
        }
    }

    /// The panel when the write of a command failed: it may or may not have got through.
    pub open spec fn command_lost(self, command: Command) -> Self {
        let panel = Panel { command: None, ..self };
        match command {
            Command::PartialIn | Command::PartialOut => Panel { partial: None, ..panel },
            Command::DisplayRefresh => Panel {
                shown: None,
                old_ram: None,
                waveform: None,
                ..panel
            },
            _ => panel,
        }
    }

    /// The panel when a payload failed: any part of it may have got through.
    pub open spec fn payload_lost(self) -> Self {
        let panel = Panel { command: None, ..self };
        match self.command {
            Some(Command::DataStartTransmission1) => Panel { old_ram: None, ..panel },
            Some(Command::DataStartTransmission2) => Panel { new_ram: None, ..panel },
            Some(Command::PartialWindow) => Panel { window: None, ..panel },
            Some(Command::VcomAndDataIntervalSetting) => Panel { copies: None, ..panel },
            Some(Command::CascadeSetting) => Panel { forced: None, ..panel },
            Some(Command::ForceTemperature) => Panel { temperature: None, ..panel },
            Some(Command::DeepSleep) | None => panel.forgotten(),
            Some(_) => panel,
        }
    }

    /// The panel when the action that was handed out last failed: what that action was about to
    /// change is unknown, and so is the command whose parameters come next.
    pub open spec fn interrupted(self, action: ActionView) -> Self {
        match action {
            ActionView::Reset { .. } => self.forgotten(),
            ActionView::Command(command) => self.command_lost(command),
            ActionView::Data(_) | ActionView::Fill { .. } => self.payload_lost(),
            _ => self,
        }
    }

    /// The panel after one step: that of the step's action. Notes do not reach it.
    pub open spec fn stepped(self, step: StepView) -> Self {
        match step {
            StepView::Note(_) => self,
            _ => self.acted(operation::first_action(step)),
        }
    }

    /// The panel after all of the given steps.
    pub open spec fn after(self, steps: Seq<StepView>) -> Self
        decreases steps.len(),
    {
        if steps.len() == 0 {
            self
        } else {
            self.stepped(steps[0]).after(steps.drop_first())
        }
    }
}

/// The driver's bookkeeping is true of the panel: an initialized RAM holds known images, and
/// where a refresh has established a baseline, the previous-image RAM holds what is shown.
pub open spec fn in_sync(state: DriverState, panel: Panel) -> bool {
    &&& state.ram_initialized ==> {
        &&& panel.new_ram is Some && panel.new_ram->0.len() == FRAME_BYTES
        &&& panel.old_ram is Some && panel.old_ram->0.len() == FRAME_BYTES
    }
    &&& !state.initial_refresh ==> {
        &&& state.ram_initialized
        &&& panel.old_ram == panel.shown
    }
}

/// The image that the next refresh shows unless another one is written first: the one in the
/// new-image RAM or, where that is not initialized yet, the background color.
pub open spec fn pending_image(state: DriverState, panel: Panel) -> Seq<u8> {
    if state.ram_initialized {
        panel.new_ram->0
    } else {
        uniform(state.color.byte_value(), FRAME_BYTES)
    }
}

/// The bookkeeping is true before, between and after all of the given steps.
pub open spec fn in_sync_throughout(
    state: DriverState,
    panel: Panel,
    steps: Seq<StepView>,
) -> bool {
    forall|done: int|
        0 <= done <= steps.len() ==> in_sync(
            state.after(#[trigger] steps.take(done)),
            panel.after(steps.take(done)),
        )
}

} // verus!
