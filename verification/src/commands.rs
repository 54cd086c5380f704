//! The decisions of the command-line commands: the summary of a probe run
//! and the steps of the dashboard login.
pub mod login;
pub mod probe;
