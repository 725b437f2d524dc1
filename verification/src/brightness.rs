//! Brightness levels and the duty cycle each of them stands for.

use vstd::prelude::*;

verus! {

/// Length in microseconds of the time slot that each row gets in a multiplex cycle.
pub const SLOT_MICROS: u64 = 2000;

/// The dimmest level.
pub const MIN_LEVEL: u8 = 1;

/// The brightest level.
pub const MAX_LEVEL: u8 = 5;

/// The level a display starts with.
pub const DEFAULT_LEVEL: u8 = 3;

/// Whether `level` is one of the levels a `Brightness` can hold.
pub open spec fn valid_level(level: int) -> bool {
    MIN_LEVEL <= level <= MAX_LEVEL
}

/// The level nearest to `level` among the valid ones.
pub open spec fn clamp_level(level: int) -> int {
    if level < MIN_LEVEL {
        MIN_LEVEL as int
    } else if level > MAX_LEVEL {
        MAX_LEVEL as int
    } else {
        level
    }
}

/// Microseconds of its slot during which a row is driven at `level`. The fraction of the
/// slot is the duty cycle: a short pulse at the dimmest level, the whole slot at the
/// brightest.
pub open spec fn duty_micros(level: int) -> int {
    if level <= 1 {
        60
    } else if level == 2 {
        250
    } else if level == 3 {
        600
    } else if level == 4 {
        1200
    } else {
        SLOT_MICROS as int
    }
}

/// A brighter level never has a shorter duty cycle; the dimmest level still lights the
/// row, and no level drives a row for longer than its slot.
pub proof fn lemma_duty_monotonic(dimmer: int, brighter: int)
    requires
        valid_level(dimmer),
        valid_level(brighter),
        dimmer < brighter,
    ensures
        duty_micros(dimmer) <= duty_micros(brighter),
        0 < duty_micros(MIN_LEVEL as int),
        duty_micros(MAX_LEVEL as int) <= SLOT_MICROS,
{
}

/// Every valid level drives a row for some part of its slot and never beyond it.
pub proof fn lemma_duty_within_slot(level: int)
    requires
        valid_level(level),
    ensures
        0 < duty_micros(level) <= SLOT_MICROS,
{
}

/// An ordinal brightness level between `MIN_LEVEL` and `MAX_LEVEL`.
#[derive(Clone, Copy, Debug, PartialEq, Eq)]
pub struct Brightness {
    level: u8,
}

impl View for Brightness {
    type V = int;

    /// The level as a number.
    closed spec fn view(&self) -> int {
        self.level as int
    }
}

impl Brightness {
    #[verifier::type_invariant]
    spec fn wf(self) -> bool {
        valid_level(self.level as int)
    }

    /// The level nearest to `level`: `level` itself where it is valid.
    pub fn new(level: u8) -> (brightness: Self)
        ensures
            brightness@ == clamp_level(level as int),
    {
        if level < MIN_LEVEL {
            Brightness { level: MIN_LEVEL }
        } else if level > MAX_LEVEL {
            Brightness { level: MAX_LEVEL }
        } else {
            Brightness { level }
        }
    }

    /// The dimmest brightness.
    pub fn min() -> (brightness: Self)
        ensures
            brightness@ == MIN_LEVEL,
    {
        Brightness { level: MIN_LEVEL }
    }

    /// The brightest brightness.
    pub fn max() -> (brightness: Self)
        ensures
            brightness@ == MAX_LEVEL,
    {
        Brightness { level: MAX_LEVEL }
    }

    /// The level as a number.
    pub fn level(&self) -> (level: u8)
        ensures
            level == self@,
            valid_level(level as int),
    {
        proof {
            use_type_invariant(self);
        }
        self.level
    }

    /// One level up, or the same level at the top.
    pub fn brighter(&self) -> (next: Self)
        ensures
            next@ == clamp_level(self@ + 1),
    {
        proof {
            use_type_invariant(self);
        }
        Self::new(self.level + 1)
    }

    /// One level down, or the same level at the bottom.
    pub fn dimmer(&self) -> (next: Self)
        ensures
            next@ == clamp_level(self@ - 1),
    {
        proof {
            use_type_invariant(self);
        }
        Self::new(self.level - 1)
    }

    /// Microseconds of its slot during which a row is driven at this brightness.
    pub fn on_micros(&self) -> (micros: u64)
        ensures
            micros == duty_micros(self@),
            0 < micros <= SLOT_MICROS,
    {
        proof {
            use_type_invariant(self);
        }
        if self.level <= 1 {
            60
        } else if self.level == 2 {
            250
        } else if self.level == 3 {
            600
        } else if self.level == 4 {
            1200
        } else {
            SLOT_MICROS
        }
    }

    /// Microseconds of its slot during which a row rests at this brightness.
    pub fn off_micros(&self) -> (micros: u64)
        ensures
            micros == SLOT_MICROS - duty_micros(self@),
    {
        SLOT_MICROS - self.on_micros()
    }
}

impl Default for Brightness {
    /// The level a display starts with.
    fn default() -> (brightness: Self)
        ensures
            brightness@ == DEFAULT_LEVEL,
    {
        Brightness { level: DEFAULT_LEVEL }
    }
}

} // verus!
