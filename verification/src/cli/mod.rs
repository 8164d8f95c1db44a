//! Settings and checks of the command-line tool.
pub mod settings;
pub mod dependency_check;
