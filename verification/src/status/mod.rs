//! What the status bar shows besides pixels: the state of the battery and
//! the words of the clock.

pub mod battery;
pub mod clock;
