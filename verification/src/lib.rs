//! The command-execution core of a small interactive shell: it reads one
//! line into pipeline segments, classifies each command, and decides, step
//! by step, which effects a driver has to perform to run the line.

pub mod action;
pub mod builtin;
pub mod executor;
pub mod laws;
pub mod model;
pub mod segment;
pub mod text;
