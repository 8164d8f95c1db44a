//! Where the test list and the selection history of a project are kept, and how the history
//! changes.
pub mod helper;
pub mod manager;
pub mod types;
