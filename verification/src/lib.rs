//! Verified core of a wall-mounted photo frame: viewer and power-button state
//! machines, playlist scheduling, load ordering, schedules and configuration rules.
pub mod layout;
pub mod events;
pub mod viewer_state;
pub mod button;
pub mod text;
pub mod daemon;
pub mod loader;
pub mod playlist;
pub mod config;
pub mod awake;
pub mod display_power;
pub mod control;
pub mod scene;
pub mod schedule_task;
pub mod files;
pub mod slideshow;
pub mod decode;
