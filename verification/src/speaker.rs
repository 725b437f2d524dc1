//! Notes for a speaker driven by pulse-width modulation.
//!
//! A pitch names a tone of the standard scale by its frequency; a note is a pitch and
//! how long it sounds. What the speaker's owner does for a note is decided here: which
//! period to set and for how long to wait.

use vstd::prelude::*;

verus! {

/// A pitch of the standard scale, from octave 0 to octave 8, or silence. `CS` is C sharp,
/// and so on.
#[allow(missing_docs)]
#[derive(Clone, Copy, Debug, PartialEq, Eq, Structural)]
pub enum Pitch {
    C0,
    CS0,
    D0,
    DS0,
    E0,
    F0,
    FS0,
    G0,
    GS0,
    A0,
    AS0,
    B0,
    C1,
    CS1,
    D1,
    DS1,
    E1,
    F1,
    FS1,
    G1,
    GS1,
    A1,
    AS1,
    B1,
    C2,
    CS2,
    D2,
    DS2,
    E2,
    F2,
    FS2,
    G2,
    GS2,
    A2,
    AS2,
    B2,
    C3,
    CS3,
    D3,
    DS3,
    E3,
    F3,
    FS3,
    G3,
    GS3,
    A3,
    AS3,
    B3,
    C4,
    CS4,
    D4,
    DS4,
    E4,
    F4,
    FS4,
    G4,
    GS4,
    A4,
    AS4,
    B4,
    C5,
    CS5,
    D5,
    DS5,
    E5,
    F5,
    FS5,
    G5,
    GS5,
    A5,
    AS5,
    B5,
    C6,
    CS6,
    D6,
    DS6,
    E6,
    F6,
    FS6,
    G6,
    GS6,
    A6,
    AS6,
    B6,
    C7,
    CS7,
    D7,
    DS7,
    E7,
    F7,
    FS7,
    G7,
    GS7,
    A7,
    AS7,
    B7,
    C8,
    CS8,
    D8,
    DS8,
    E8,
    F8,
    FS8,
    G8,
    GS8,
    A8,
    AS8,
    B8,
    Silent,
}

impl Pitch {
    /// The frequency of the pitch in hertz, rounded down; 0 for silence.
    pub open spec fn hertz(self) -> int {
        match self {
            Pitch::C0 => 16,
            Pitch::CS0 => 17,
            Pitch::D0 => 18,
            Pitch::DS0 => 19,
            Pitch::E0 => 20,
            Pitch::F0 => 21,
            Pitch::FS0 => 23,
            Pitch::G0 => 24,
            Pitch::GS0 => 25,
            Pitch::A0 => 27,
            Pitch::AS0 => 29,
            Pitch::B0 => 30,
            Pitch::C1 => 32,
            Pitch::CS1 => 34,
            Pitch::D1 => 36,
            Pitch::DS1 => 38,
            Pitch::E1 => 41,
            Pitch::F1 => 43,
            Pitch::FS1 => 46,
            Pitch::G1 => 49,
            Pitch::GS1 => 51,
            Pitch::A1 => 55,
            Pitch::AS1 => 58,
            Pitch::B1 => 61,
            Pitch::C2 => 65,
            Pitch::CS2 => 69,
            Pitch::D2 => 73,
            Pitch::DS2 => 77,
            Pitch::E2 => 82,
            Pitch::F2 => 87,
            Pitch::FS2 => 92,
            Pitch::G2 => 98,
            Pitch::GS2 => 103,
            Pitch::A2 => 110,
            Pitch::AS2 => 116,
            Pitch::B2 => 123,
            Pitch::C3 => 130,
            Pitch::CS3 => 138,
            Pitch::D3 => 146,
            Pitch::DS3 => 155,
            Pitch::E3 => 164,
            Pitch::F3 => 174,
            Pitch::FS3 => 185,
            Pitch::G3 => 196,
            Pitch::GS3 => 207,
            Pitch::A3 => 220,
            Pitch::AS3 => 233,
            Pitch::B3 => 246,
            Pitch::C4 => 261,
            Pitch::CS4 => 277,
            Pitch::D4 => 293,
            Pitch::DS4 => 311,
            Pitch::E4 => 329,
            Pitch::F4 => 349,
            Pitch::FS4 => 369,
            Pitch::G4 => 392,
            Pitch::GS4 => 415,
            Pitch::A4 => 440,
            Pitch::AS4 => 466,
            Pitch::B4 => 493,
            Pitch::C5 => 523,
            Pitch::CS5 => 554,
            Pitch::D5 => 587,
            Pitch::DS5 => 622,
            Pitch::E5 => 659,
            Pitch::F5 => 698,
            Pitch::FS5 => 739,
            Pitch::G5 => 783,
            Pitch::GS5 => 830,
            Pitch::A5 => 880,
            Pitch::AS5 => 932,
            Pitch::B5 => 987,
            Pitch::C6 => 1046,
            Pitch::CS6 => 1108,
            Pitch::D6 => 1174,
            Pitch::DS6 => 1244,
            Pitch::E6 => 1318,
            Pitch::F6 => 1396,
            Pitch::FS6 => 1479,
            Pitch::G6 => 1567,
            Pitch::GS6 => 1661,
            Pitch::A6 => 1760,
            Pitch::AS6 => 1864,
            Pitch::B6 => 1975,
            Pitch::C7 => 2093,
            Pitch::CS7 => 2217,
            Pitch::D7 => 2349,
            Pitch::DS7 => 2489,
            Pitch::E7 => 2637,
            Pitch::F7 => 2793,
            Pitch::FS7 => 2959,
            Pitch::G7 => 3135,
            Pitch::GS7 => 3322,
            Pitch::A7 => 3520,
            Pitch::AS7 => 3729,
            Pitch::B7 => 3951,
            Pitch::C8 => 4186,
            Pitch::CS8 => 4434,
            Pitch::D8 => 4698,
            Pitch::DS8 => 4978,
            Pitch::E8 => 5274,
            Pitch::F8 => 5587,
            Pitch::FS8 => 5919,
            Pitch::G8 => 6271,
            Pitch::GS8 => 6644,
            Pitch::A8 => 7040,
            Pitch::AS8 => 7458,
            Pitch::B8 => 7902,
            Pitch::Silent => 0,
        }
    }

    /// The frequency of the pitch in hertz, rounded down; 0 for silence.
    pub fn frequency(self) -> (hz: u32)
        ensures
            hz == self.hertz(),
    {
        match self {
            Pitch::C0 => 16,
            Pitch::CS0 => 17,
            Pitch::D0 => 18,
            Pitch::DS0 => 19,
            Pitch::E0 => 20,
            Pitch::F0 => 21,
            Pitch::FS0 => 23,
            Pitch::G0 => 24,
            Pitch::GS0 => 25,
            Pitch::A0 => 27,
            Pitch::AS0 => 29,
            Pitch::B0 => 30,
            Pitch::C1 => 32,
            Pitch::CS1 => 34,
            Pitch::D1 => 36,
            Pitch::DS1 => 38,
            Pitch::E1 => 41,
            Pitch::F1 => 43,
            Pitch::FS1 => 46,
            Pitch::G1 => 49,
            Pitch::GS1 => 51,
            Pitch::A1 => 55,
            Pitch::AS1 => 58,
            Pitch::B1 => 61,
            Pitch::C2 => 65,
            Pitch::CS2 => 69,
            Pitch::D2 => 73,
            Pitch::DS2 => 77,
            Pitch::E2 => 82,
            Pitch::F2 => 87,
            Pitch::FS2 => 92,
            Pitch::G2 => 98,
            Pitch::GS2 => 103,
            Pitch::A2 => 110,
            Pitch::AS2 => 116,
            Pitch::B2 => 123,
            Pitch::C3 => 130,
            Pitch::CS3 => 138,
            Pitch::D3 => 146,
            Pitch::DS3 => 155,
            Pitch::E3 => 164,
            Pitch::F3 => 174,
            Pitch::FS3 => 185,
            Pitch::G3 => 196,
            Pitch::GS3 => 207,
            Pitch::A3 => 220,
            Pitch::AS3 => 233,
            Pitch::B3 => 246,
            Pitch::C4 => 261,
            Pitch::CS4 => 277,
            Pitch::D4 => 293,
            Pitch::DS4 => 311,
            Pitch::E4 => 329,
            Pitch::F4 => 349,
            Pitch::FS4 => 369,
            Pitch::G4 => 392,
            Pitch::GS4 => 415,
            Pitch::A4 => 440,
            Pitch::AS4 => 466,
            Pitch::B4 => 493,
            Pitch::C5 => 523,
            Pitch::CS5 => 554,
            Pitch::D5 => 587,
            Pitch::DS5 => 622,
            Pitch::E5 => 659,
            Pitch::F5 => 698,
            Pitch::FS5 => 739,
            Pitch::G5 => 783,
            Pitch::GS5 => 830,
            Pitch::A5 => 880,
            Pitch::AS5 => 932,
            Pitch::B5 => 987,
            Pitch::C6 => 1046,
            Pitch::CS6 => 1108,
            Pitch::D6 => 1174,
            Pitch::DS6 => 1244,
            Pitch::E6 => 1318,
            Pitch::F6 => 1396,
            Pitch::FS6 => 1479,
            Pitch::G6 => 1567,
            Pitch::GS6 => 1661,
            Pitch::A6 => 1760,
            Pitch::AS6 => 1864,
            Pitch::B6 => 1975,
            Pitch::C7 => 2093,
            Pitch::CS7 => 2217,
            Pitch::D7 => 2349,
            Pitch::DS7 => 2489,
            Pitch::E7 => 2637,
            Pitch::F7 => 2793,
            Pitch::FS7 => 2959,
            Pitch::G7 => 3135,
            Pitch::GS7 => 3322,
            Pitch::A7 => 3520,
            Pitch::AS7 => 3729,
            Pitch::B7 => 3951,
            Pitch::C8 => 4186,
            Pitch::CS8 => 4434,
            Pitch::D8 => 4698,
            Pitch::DS8 => 4978,
            Pitch::E8 => 5274,
            Pitch::F8 => 5587,
            Pitch::FS8 => 5919,
            Pitch::G8 => 6271,
            Pitch::GS8 => 6644,
            Pitch::A8 => 7040,
            Pitch::AS8 => 7458,
            Pitch::B8 => 7902,
            Pitch::Silent => 0,
        }
    }

    /// Silence alone has the frequency 0, and no pitch is above the highest of the scale.
    pub proof fn lemma_hertz_range(self)
        ensures
            self.hertz() == 0 <==> self == Pitch::Silent,
            0 <= self.hertz() <= Pitch::B8.hertz(),
    {
    }
}

/// A pitch and the time it sounds, in milliseconds.
#[derive(Clone, Copy, Debug, PartialEq, Eq)]
pub struct Note(pub Pitch, pub u32);

/// What the owner of the speaker does for a note.
#[derive(Clone, Copy, Debug, PartialEq, Eq)]
pub enum Sound {
    /// Set the period to `period`, switch the output on at half the greatest duty, wait
    /// `millis` milliseconds, and switch the output off.
    Tone { period: u32, millis: u64 },
    /// Leave the output off and wait `millis` milliseconds.
    Rest { millis: u64 },
}

impl Note {
    /// What playing the note asks for: a tone at the frequency of its pitch, or a rest
    /// where the pitch is silence, for as long as the note says.
    pub open spec fn spec_sound(self) -> Sound {
        if self.0 == Pitch::Silent {
            Sound::Rest { millis: self.1 as u64 }
        } else {
            Sound::Tone { period: self.0.hertz() as u32, millis: self.1 as u64 }
        }
    }

    /// A tone always has a period to set: only a rest has none.
    pub proof fn lemma_tone_has_period(self)
        ensures
            self.spec_sound() matches Sound::Tone { period, millis } ==> period > 0 && period
                == self.0.hertz() && millis == self.1,
            self.spec_sound() matches Sound::Rest { millis } ==> self.0 == Pitch::Silent && millis
                == self.1,
    {
        self.0.lemma_hertz_range();
    }

    /// What playing the note asks for.
    pub fn sound(&self) -> (sound: Sound)
        ensures
            sound == self.spec_sound(),
            sound matches Sound::Tone { period, .. } ==> period > 0,
    {
        proof {
            self.lemma_tone_has_period();
        }
        if self.0 == Pitch::Silent {
            Sound::Rest { millis: self.1 as u64 }
        } else {
            Sound::Tone { period: self.0.frequency(), millis: self.1 as u64 }
        }
    }
}

/// The duty at which a tone sounds: half of the greatest duty that the output has.
pub fn tone_duty(max_duty: u16) -> (duty: u16)
    ensures
        duty == max_duty / 2,
{
    max_duty / 2
}

} // verus!
