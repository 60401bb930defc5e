//! Core of a buried-valve watering controller for a Raspberry Pi,
//! driven from Home Assistant: configuration checks, the valve state
//! machine, switch and meter inputs, Home Assistant endpoints and the
//! status display layout.
pub mod api;
pub mod clock;
pub mod config;
pub mod display;
pub mod ha;
pub mod meter;
pub mod sprinkler;
pub mod switch;
pub mod text;
pub mod weather;
