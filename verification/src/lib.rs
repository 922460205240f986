//! Verified core of a keyboard-driven soundboard and its companion audio tools.
pub mod cycle;
pub mod radix;
pub mod board;
pub mod text;
pub mod devices;
pub mod cli;
pub mod samples;
pub mod server;
