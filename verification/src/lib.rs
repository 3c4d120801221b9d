//! A command-line countdown timer's core: the hours/minutes/seconds duration
//! model with normalization and fixed-width rendering, the argument parser,
//! and the per-tick decisions of the countdown and cancellable count-up
//! display loops. The loops' clocks, terminal output, input thread and
//! completion chime live in the surrounding program.

pub mod args;
pub mod control;
pub mod duration;
pub mod render;
