//! A small service skeleton with its proofs.
//!
//! The skeleton: a [`config`]uration read from the command line ([`cli`]), a
//! shared state and a service on it ([`service`]), the order in which these
//! come into being ([`startup`]), the life of a run from start over the wait
//! for an interrupt to stop ([`lifecycle`]), what the logger is set up with
//! ([`logging`]), and the one kind of [`error`] that ends a run early.
//!
//! Beside it stand self-contained routines on [`numbers`], [`strings`],
//! [`vectors`] and [`bits`], a [`sorting`] routine, and two tables of
//! [`samples`].
//!
//! Everything that touches the process itself (its arguments, its
//! environment, its signals, its exit) is left to the caller; the library
//! decides and computes on plain values.

pub mod bits;
pub mod cli;
pub mod config;
pub mod error;
pub mod lifecycle;
pub mod logging;
pub mod numbers;
pub mod samples;
pub mod service;
pub mod sorting;
pub mod startup;
pub mod strings;
pub mod vectors;
