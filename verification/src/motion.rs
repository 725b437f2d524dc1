//! Pacing of the motion sensor's readings.
//!
//! The sensor delivers a reading at each tick of its output data rate. Whoever reads it
//! waits one period of that rate between two readings.

use vstd::prelude::*;

verus! {

/// The rates at which the accelerometer delivers readings.
#[derive(Clone, Copy, Debug, PartialEq, Eq, Structural)]
pub enum DataRate {
    /// 1 Hz
    Hz1,
    /// 10 Hz
    Hz10,
    /// 25 Hz
    Hz25,
    /// 50 Hz
    Hz50,
    /// 100 Hz
    Hz100,
    /// 200 Hz
    Hz200,
    /// 400 Hz
    Hz400,
    /// 1.344 kHz
    Khz1_344,
    /// 1.620 kHz, in low-power mode
    Khz1_620LowPower,
    /// 5.376 kHz, in low-power mode
    Khz5_376LowPower,
}

impl DataRate {
    /// The rate in hertz.
    pub open spec fn hertz(self) -> int {
        match self {
            DataRate::Hz1 => 1,
            DataRate::Hz10 => 10,
            DataRate::Hz25 => 25,
            DataRate::Hz50 => 50,
            DataRate::Hz100 => 100,
            DataRate::Hz200 => 200,
            DataRate::Hz400 => 400,
            DataRate::Khz1_344 => 1344,
            DataRate::Khz1_620LowPower => 1620,
            DataRate::Khz5_376LowPower => 5376,
        }
    }

    /// The time between two readings, in microseconds, rounded down.
    pub open spec fn period(self) -> int {
        1_000_000int / self.hertz()
    }

    /// The rate in hertz.
    pub fn frequency(self) -> (hz: u16)
        ensures
            hz == self.hertz(),
    {
        match self {
            DataRate::Hz1 => 1,
            DataRate::Hz10 => 10,
            DataRate::Hz25 => 25,
            DataRate::Hz50 => 50,
            DataRate::Hz100 => 100,
            DataRate::Hz200 => 200,
            DataRate::Hz400 => 400,
            DataRate::Khz1_344 => 1344,
            DataRate::Khz1_620LowPower => 1620,
            DataRate::Khz5_376LowPower => 5376,
        }
    }

    /// The time to wait between two readings, in microseconds.
    pub fn sample_period_micros(self) -> (micros: u64)
        ensures
            micros == self.period(),
            0 < micros <= 1_000_000,
    {
        match self {
            DataRate::Hz1 => 1_000_000,
            DataRate::Hz10 => 100_000,
            DataRate::Hz25 => 40_000,
            DataRate::Hz50 => 20_000,
            DataRate::Hz100 => 10_000,
            DataRate::Hz200 => 5_000,
            DataRate::Hz400 => 2_500,
            DataRate::Khz1_344 => 744,
            DataRate::Khz1_620LowPower => 617,
            DataRate::Khz5_376LowPower => 186,
        }
    }

    /// A faster rate never has a longer period.
    pub proof fn lemma_period_antitone(self, faster: Self)
        requires
            self.hertz() <= faster.hertz(),
        ensures
            faster.period() <= self.period(),
    {
    }
}

} // verus!
