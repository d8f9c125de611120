//! A simulated GT911-style I2C touch controller: the byte stream it answers
//! bus reads with, and a digital pin that mirrors the inverse of its input.

pub mod chip;
pub mod pin;
pub mod registry;
