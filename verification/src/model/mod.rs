//! State of the application's screens.
pub mod screens;
