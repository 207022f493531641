//! The core of an on-screen keyboard: the geometry of a keyboard layout,
//! the sampling of the touch input of a gesture, and a ranked search for
//! emoji by keyword.
//!
//! Everything is measured in whole numbers and exact ratios.
pub mod defines;
pub mod emojisearch;
pub mod math;
pub mod suggest;
