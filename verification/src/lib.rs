//! Sonification of a wireless strain gauge: the measured weight selects a tone
//! of the overtone series of a low A, and an oscillator renders that tone
//! without a break in phase when the weight moves to another rung.
//!
//! Weights travel through this crate as IEEE-754 binary32 bit patterns, and
//! phases as whole ticks of a cycle, so that every rule is integer arithmetic.

pub mod audio;
pub mod binary32;
pub mod codec;
pub mod gatt;
pub mod oscillator;
pub mod session;
pub mod session_laws;
pub mod shared;
pub mod tone;
