//! The logic of `vhs-gui`, a desktop program that captures VHS tapes and runs the scripts that
//! clean up, convert and upscale what was captured.
//!
//! The library decides; it does no input or output. What the program reads (clocks, listings of
//! directories, the lines of a log, the state of a process) comes in as plain values, and what
//! has to be done (a script to start, a signal to send, a file to open) goes out as plain values.

pub mod app;
pub mod capture;
pub mod config;
pub mod ffmpeg;
pub mod icon;
pub mod launch;
pub mod library;
pub mod mpv_view;
pub mod number;
pub mod order;
pub mod panels;
pub mod path;
pub mod persist;
pub mod pipeline;
pub mod settings;
pub mod text;
pub mod v4l2;
