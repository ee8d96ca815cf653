//! Refresh waveforms and the legacy selector for them.

use vstd::prelude::*;

verus! {

/// Refresh waveform for UC8179 / GDEY075T7 panels.
///
/// Fast modes require a panel with the corresponding OTP waveforms. Older V2 panels may not
/// support these modes.
#[derive(Clone, Copy, Debug, PartialEq, Eq, Structural)]
pub enum RefreshMode {
    /// Full cleaning refresh using the internal temperature sensor.
    Full,
    /// Fast full refresh using the OTP waveform selected at 90 degrees.
    Fast,
    /// Differential refresh using the OTP waveform selected at 110 degrees.
    Partial,
}

impl Default for RefreshMode {
    fn default() -> (mode: Self)
        ensures
            mode == RefreshMode::Full,
    {
        RefreshMode::Full
    }
}

/// Legacy selector of the refresh speed.
#[derive(Clone, Copy, Debug, PartialEq, Eq, Structural)]
pub enum RefreshLut {
    /// The default full refresh.
    Full,
    /// The quick refresh.
    Quick,
}

impl Default for RefreshLut {
    fn default() -> (lut: Self)
        ensures
            lut == RefreshLut::Full,
    {
        RefreshLut::Full
    }
}

/// The waveform that a legacy selection stands for; no selection is the default one.
pub open spec fn lut_mode(refresh_rate: Option<RefreshLut>) -> RefreshMode {
    match refresh_rate {
        Some(RefreshLut::Quick) => RefreshMode::Partial,
        _ => RefreshMode::Full,
    }
}

/// The legacy selector knows the full and the differential waveform; without a selection it is
/// the full one, and it never selects the fast one.
pub proof fn law_legacy_selection(refresh_rate: Option<RefreshLut>)
    ensures
        lut_mode(refresh_rate) == RefreshMode::Partial <==> refresh_rate == Some(RefreshLut::Quick),
        lut_mode(refresh_rate) == RefreshMode::Full <==> refresh_rate is None || refresh_rate
            == Some(RefreshLut::Full),
{
}

} // verus!
