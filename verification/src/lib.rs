//! The logic of a board with a small LED matrix, a speaker and a motion sensor.
//!
//! Nothing here touches hardware. Each module decides what is to be done and for how
//! long, on plain values; whoever owns the pins, the timers and the buses does it.
//!
//! - `frame`: the bitmap of lit cells.
//! - `brightness`: the brightness levels and their duty cycles.
//! - `scan`: the multiplex cycle that shows a frame row by row.
//! - `display`: the engine that shows a frame for a time, or a text scrolling by.
//! - `font`: glyphs, and the table from characters to them.
//! - `scroll`: the frames of a text that slides across the matrix.
//! - `speaker`: pitches and notes, and what playing a note asks for.
//! - `motion`: the pacing of the motion sensor's readings.

pub mod brightness;
pub mod display;
pub mod font;
pub mod frame;
pub mod motion;
pub mod scan;
pub mod scroll;
pub mod speaker;
