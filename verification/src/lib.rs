//! Verified core of a competitive-programming problem-project tool.
//!
//! A project directory holds a manifest describing generators, solutions and
//! validators together with per-language compile/run command templates.  The
//! engine in this crate turns such a manifest into a sequence of
//! compile/run/compare steps: generating inputs, producing reference outputs,
//! validating inputs and judging every candidate solution with a verdict.
//! Filesystem and process access go through capability traits so that the
//! engine itself is verified against an abstract record of those effects.

pub mod cmd;
pub mod entity;
pub mod error;
pub mod io_util;
pub mod mock;
pub mod pathutil;
pub mod run_util;
pub mod strutil;
pub mod trace;
