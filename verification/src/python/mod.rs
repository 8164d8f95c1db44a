//! Python tests: reading pytest's collection output and Python source files.
pub mod pytest_parser;
pub mod rp_parser;
pub mod tests;
pub mod types;
