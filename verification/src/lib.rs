//! Register scan-and-decode engine for a polled industrial endpoint.
//!
//! A schema declares which registers to poll and how to interpret them; the
//! scan engine keeps one mutable state record per declared datapoint and
//! exposes copied snapshots of that state to a presentation layer.

mod clock;
pub mod config;
pub mod datapoint;
pub mod decode;
pub mod display;
pub mod scanner;
pub mod ui;
