//! The decisions behind `run`: a shell command is executed on each of a set of
//! commits, in working copies of their own, and the commits are amended with
//! what the command left behind.
//!
//! Nothing here touches a file, a process or a repository. A run, its jobs and
//! their dispatch are state machines: each says what is to be done next, and is
//! taken on by what came of it.

pub mod args;
pub mod command;
pub mod command_laws;
pub mod dispatch;
pub mod error;
pub mod ids;
pub mod job;
pub mod job_laws;
pub mod layout;
pub mod paths;
pub mod rewrites;
pub mod shell;
pub mod text;
