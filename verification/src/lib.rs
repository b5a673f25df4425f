//! Interprets the argument list of a build front end that forwards an
//! invocation to a build tool running inside a container.
//!
//! The crate is pure: the caller hands in the argument list, the working
//! directory and the value of the one environment variable that matters, and
//! gets back the classified fields together with the argument list to re-issue
//! inside the container.

pub mod cli;
pub mod laws;
pub mod path;
pub mod subcommand;
pub mod target;
pub mod text;
pub mod token;
