//! The subcommands of the command-line tool.  Each subcommand is a thin
//! struct holding the project engine it drives; argument parsing itself
//! lives outside the verified library.

pub mod add;
pub mod all;
pub mod check;
pub mod gen;
pub mod init;
pub mod refgen;
pub mod test;
pub mod val;
