//! Core logic of a 3D-printer firmware: reading G-code, serialising AT
//! commands, FAT volume arithmetic, stepper and fan bookkeeping, and the
//! decisions of the motion planner.
pub mod units;
pub mod number;
pub mod bounded;
pub mod text;
pub mod gcode;
pub mod parser;
pub mod reading;
pub mod at;
pub mod fat;
pub mod dir;
pub mod dirwrite;
pub mod clusters;
pub mod mkdir;
pub mod filerw;
pub mod volume;
pub mod handles;
pub mod stepper;
pub mod planner;
pub mod vector;
pub mod computable;
pub mod common;
pub mod fan;
pub mod thermistor;
pub mod stopwatch;
