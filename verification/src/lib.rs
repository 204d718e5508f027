//! Colour-coded summaries of hardware temperature sensors.
//!
//! The library works on a snapshot of the machine's sensors: chips, their
//! features and the subfeatures of each. From every feature it takes the
//! label and the current temperature, picks a colour for the temperature,
//! and lays the result out as text, chip by chip. It also decides what a
//! program that shows such summaries does next: one pass and the end, or
//! pass after pass with the terminal cleared before each.
//!
//! Reading the sensors, writing to the terminal and waiting are left to the
//! caller. So is everything that needs floating point: a temperature comes
//! in as the bit pattern of a binary64 number, together with its decimal
//! text.
//!
//! - [`binary64`]: the value and the order of binary64 bit patterns.
//! - [`color`]: temperatures and the colour that belongs to each.
//! - [`sensor`]: the snapshot, and the temperature of a feature.
//! - [`render`]: the text of a chip and of a whole pass.
//! - [`watch`]: the steps of single-shot mode and of watch mode.

pub mod binary64;
pub mod color;
pub mod render;
pub mod sensor;
pub mod watch;
