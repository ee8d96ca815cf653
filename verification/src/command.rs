//! Command set of the UC8179 controller, as far as the driver uses it.

use vstd::prelude::*;

verus! {

/// A controller command. Its register address is [`Command::address`].
#[derive(Clone, Copy, Debug, PartialEq, Eq, Structural)]
pub enum Command {
    /// Resolution source, scan directions and booster switch.
    PanelSetting,
    /// Panel driving voltages.
    PowerSetting,
    /// Turns the driving voltages off.
    PowerOff,
    /// Turns the driving voltages on.
    PowerOn,
    /// Booster phases.
    BoosterSoftStart,
    /// Enters deep sleep; only a reset ends it.
    DeepSleep,
    /// Starts a transfer into the previous-image RAM.
    DataStartTransmission1,
    /// Drives the panel with the configured waveform.
    DisplayRefresh,
    /// Starts a transfer into the new-image RAM.
    DataStartTransmission2,
    /// Single or dual SPI lanes.
    DualSpi,
    /// Internal or external temperature sensor.
    TemperatureCalibration,
    /// Border, VCOM interval and new-to-old RAM copying.
    VcomAndDataIntervalSetting,
    /// Gate and source non-overlap periods.
    TconSetting,
    /// Width and height of the panel.
    TconResolution,
    /// Status query that is sent while BUSY is polled.
    GetStatus,
    /// Rectangle of partial transfers.
    PartialWindow,
    /// Restricts transfers to the partial window.
    PartialIn,
    /// Transfers cover the whole panel again.
    PartialOut,
    /// Temperature source: the sensor or the forced value.
    CascadeSetting,
    /// VCOM and source power saving periods.
    PowerSaving,
    /// Temperature by which the OTP waveform is selected.
    ForceTemperature,
}

impl Command {
    /// Register address of the command.
    pub open spec fn code(self) -> u8 {
        match self {
            Command::PanelSetting => 0x00,
            Command::PowerSetting => 0x01,
            Command::PowerOff => 0x02,
            Command::PowerOn => 0x04,
            Command::BoosterSoftStart => 0x06,
            Command::DeepSleep => 0x07,
            Command::DataStartTransmission1 => 0x10,
            Command::DisplayRefresh => 0x12,
            Command::DataStartTransmission2 => 0x13,
            Command::DualSpi => 0x15,
            Command::TemperatureCalibration => 0x41,
            Command::VcomAndDataIntervalSetting => 0x50,
            Command::TconSetting => 0x60,
            Command::TconResolution => 0x61,
            Command::GetStatus => 0x71,
            Command::PartialWindow => 0x90,
            Command::PartialIn => 0x91,
            Command::PartialOut => 0x92,
            Command::CascadeSetting => 0xe0,
            Command::PowerSaving => 0xe3,
            Command::ForceTemperature => 0xe5,
        }
    }

    /// The byte that is sent for this command.
    pub fn address(self) -> (address: u8)
        ensures
            address == self.code(),
    {
        match self {
            Command::PanelSetting => 0x00,
            Command::PowerSetting => 0x01,
            Command::PowerOff => 0x02,
            Command::PowerOn => 0x04,
            Command::BoosterSoftStart => 0x06,
            Command::DeepSleep => 0x07,
            Command::DataStartTransmission1 => 0x10,
            Command::DisplayRefresh => 0x12,
            Command::DataStartTransmission2 => 0x13,
            Command::DualSpi => 0x15,
            Command::TemperatureCalibration => 0x41,
            Command::VcomAndDataIntervalSetting => 0x50,
            Command::TconSetting => 0x60,
            Command::TconResolution => 0x61,
            Command::GetStatus => 0x71,
            Command::PartialWindow => 0x90,
            Command::PartialIn => 0x91,
            Command::PartialOut => 0x92,
            Command::CascadeSetting => 0xe0,
            Command::PowerSaving => 0xe3,
            Command::ForceTemperature => 0xe5,
        }
    }
}

/// No two commands share a register address: what is on the wire names the command.
pub proof fn law_addresses_are_distinct(a: Command, b: Command)
    requires
        a.code() == b.code(),
    ensures
        a == b,
{
}

} // verus!
