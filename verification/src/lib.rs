//! A build orchestrator for a document-typesetting engine: a verified
//! diagnostic-log parser, a job state machine that decides rebuilds, and a
//! bounded-concurrency scheduler core.  Process handling and terminal output
//! live outside the library; the library makes every decision.
pub mod config;
pub mod engine;
pub mod errors;
pub mod grammar;
pub mod jobs;
pub mod messages;
pub mod parse;
pub mod report;
pub mod runner;
pub mod scan;

pub use config::Config;
pub use engine::LaTeXEngine;
pub use messages::BuildReport;
pub use report::RunnerReport;
pub use runner::Runner;
