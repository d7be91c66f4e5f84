//! Runs several cargo subcommands in one invocation: a parser turns the
//! command line into routines and a strategy, and a run decides, routine by
//! routine, what happens next under the independent, dependent or parallel
//! policy. Starting processes and threads is left to the caller.

pub mod cli;
pub mod executor;
pub mod parser;
pub mod process;
pub mod routine;
pub mod strategy;
pub mod text;
