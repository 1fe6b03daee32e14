//! Run one command under kernel-enforced memory and CPU limits.
//!
//! The crate holds the decisions of such a run and none of its effects. A
//! [`restrict::Restrict`] describes what to run and how to limit it; a
//! [`lifecycle::Run`] says, step by step, what has to be done with the
//! control group and the child process, and takes back how each step went.
//! The caller carries the steps out.
//!
//! - [`restrict`]: the request and what makes it valid.
//! - [`cli`]: a request from the words of a command line.
//! - [`limits`]: the memory settings of a ceiling.
//! - [`lifecycle`]: the run as a machine of phases, actions and events.
//! - [`trace`]: what holds of every run: the group is there before the child
//!   and is removed after it, once, on every way to the end.
//! - [`outcome`]: how a run ends and the exit status that follows.
//! - [`text`], [`size`]: numbers and sizes as text.

pub mod cli;
pub mod lifecycle;
pub mod limits;
pub mod outcome;
pub mod restrict;
pub mod size;
pub mod text;
pub mod trace;
