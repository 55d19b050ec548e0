//! Time-of-day wallpaper scheduling.
//!
//! The images of a directory, in their sorted order, are shown in turn over
//! the day. A sequence of boundaries, one per image, says when each image
//! starts. This crate builds such sequences, validates them, and maps a time
//! of day to the image that is active then; it also says what is to be run
//! to show that image. It reads no clock, lists no directory and starts no
//! program: it is handed plain values and hands plain values back. The one
//! thing it asks of the machine is where the configuration of the user
//! lies, for the report of a missing configuration file.
//!
//! - [`time_track`]: the minute-of-day value `Time`.
//! - [`schedule`]: boundaries from an even split of the day, or from
//!   sunrise and sunset.
//! - [`validate`]: the checks on a boundary sequence.
//! - [`resolve`]: the window that holds a time, and its image.
//! - [`rotation`]: the rotation by days, one image after the other.
//! - [`command`], [`backend`], [`wallpaper`]: the commands that show an
//!   image and tell programs of it.
//! - [`listener`]: the states of the long-running process and the moments
//!   at which it wakes.
//! - [`config`]: the settings of a run and how they are merged.
//! - [`errors`]: the error kinds and their reports.
//! - [`text`]: the text utilities that the others share.

pub mod backend;
pub mod command;
pub mod config;
pub mod errors;
pub mod listener;
pub mod resolve;
pub mod rotation;
pub mod schedule;
pub mod text;
pub mod time_track;
pub mod validate;
pub mod wallpaper;

pub use crate::errors::{ConfigFileErrors, Errors};
pub use crate::rotation::update_wallpaper_days;
pub use crate::schedule::{auto_time_setup, sun_timings};
pub use crate::time_track::Time;
pub use crate::validate::error_checking;
pub use crate::wallpaper::{print_schedule, set_wallpaper, wallpaper_current_time};
