//! A driver model for the HT16K33 16x8 LED matrix chip and a bi-color
//! 24-bar bargraph built on it.
//!
//! The library holds the display buffer and every decision about it: which
//! bits a bar and a color set, what a `(value, range)` reading lights, how a
//! buffer read back from the chip decodes into bar colors, and which bytes go
//! over the bus. The bus transport itself is left to the caller, who performs
//! the [`ht16k33::BusWrite`]s that the library hands back.
mod integer;

pub mod bargraph;
pub mod color;
pub mod ht16k33;
pub mod i2c_mock;
pub mod layout;

pub use bargraph::{Bargraph, BargraphError};
pub use color::LedColor;
