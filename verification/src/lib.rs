//! Delegates the mutation of fuzzing inputs to an external, long-running program.
//!
//! The external program is spawned once, with [`mutator::EXTERNAL_MUTATOR_SWITCH`] appended to its
//! arguments, and then talks to the fuzzer through a line-based protocol (see [`protocol`]).
//! This crate holds every rule of that conversation as verified code; the surrounding program
//! spawns the process, moves the bytes and keeps the clock.
pub mod bytes;
pub mod course_laws;
pub mod exchange;
pub mod exchange_laws;
pub mod harness;
pub mod hexcode;
pub mod inputs;
pub mod lines;
pub mod mutate;
pub mod mutator;
pub mod observer;
pub mod observer_laws;
pub mod options;
pub mod options_laws;
pub mod output_laws;
pub mod process;
pub mod protocol;
pub mod protocol_laws;
pub mod reader;
pub mod time;
