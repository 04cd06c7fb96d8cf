//! Core of a single-user terminal task tracker.
//!
//! The library holds the verified heart of the application: the task data
//! model, the date/time shortcut parser, the filtered/sorted projection with
//! its cursor discipline, the multi-step entry flow, and the key-input state
//! machine.  Terminal drawing, prompting and the SQLite store live outside
//! the library and talk to it through plain values.

pub mod calendar;
pub mod cli;
pub mod clock;
pub mod entry;
pub mod input;
pub mod render;
pub mod task;
pub mod text;
pub mod utils;
pub mod view;
