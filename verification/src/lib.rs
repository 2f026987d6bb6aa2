//! A batch file analyser built around a fixed pool of workers, and a
//! handful of smaller verified pieces.
//!
//! The crate holds the rules of the system and proves them: how text is
//! counted, how one file's analysis moves from step to step, how the pool
//! hands out jobs and drains on shutdown, and how results are aggregated.
//! Threads, clocks and the file system belong to the program that embeds it.

pub mod analysis;
pub mod analyzer;
pub mod animals;
pub mod batch;
pub mod books;
pub mod context;
pub mod decimal;
pub mod download;
pub mod elapsed;
pub mod execution;
pub mod frequencies;
pub mod numbers;
pub mod orchestrator;
pub mod person;
pub mod strings;
pub mod students;
pub mod text;
pub mod threadpool;
