//! Finding, selecting and running the tests of a project, with what the test runners report.
pub mod cache;
pub mod cli;
pub mod errors;
pub mod external;
pub mod java;
pub mod python;
pub mod runner;
pub mod runtime;
pub mod search_engine;
pub mod test_sets;
pub mod text;
