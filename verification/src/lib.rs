//! Driver logic for the Waveshare 7.5" e-paper display (V2, UC8179 controller).
//!
//! Every operation of the driver is a [`step::Plan`]: the ordered commands, payloads, delays
//! and BUSY waits that the panel has to see, with the bookkeeping notes that go between them.
//! [`operation::Operation`] walks a plan one bus action at a time, so the same verified logic
//! serves blocking and asynchronous buses alike.
//!
//! [`protocol`] says which steps each operation has, [`panel`] what the controller makes of
//! them, [`laws`] what follows for the panel, [`run`] what follows for every sequence of events
//! that a bus can report, and [`history`] for every sequence of operations. [`wire`] says which
//! bytes the panel is sent.

pub mod color;
pub mod command;
pub mod driver;
pub mod geometry;
pub mod history;
pub mod laws;
pub mod mode;
pub mod operation;
pub mod panel;
pub mod protocol;
pub mod run;
pub mod smoke;
pub mod step;
pub mod wire;

pub use crate::color::Color;
pub use crate::command::Command;
pub use crate::driver::{Epd7in5, DEFAULT_BACKGROUND_COLOR};
pub use crate::geometry::{buffer_len, HEIGHT, WIDTH};
pub use crate::mode::{RefreshLut, RefreshMode};
pub use crate::operation::{Action, Event, Operation};
pub use crate::step::Plan;
