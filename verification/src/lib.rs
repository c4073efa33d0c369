//! Shepherd: an engine that runs tasks through workflows their owner wrote down.
//!
//! The library holds every decision the program takes: what a configuration
//! means and what is wrong with it, where a task goes next, how a row changes,
//! and what is printed. Reading and writing the store, the clock, processes and
//! the environment belong to the program around it.

pub mod cmd;
pub mod config;
pub mod db;
pub mod engine;
pub mod error;
pub mod flat;
pub mod git;
pub mod json;
pub mod order;
pub mod outcome;
pub mod paths;
pub mod supervisor;
pub mod table;
pub mod text;

pub use error::Error;
pub use outcome::Outcome;
