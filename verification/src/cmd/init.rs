use vstd::prelude::*;

verus! {

/// The subcommand that scaffolds a fresh project directory; the scaffolding
/// itself is plain directory and file creation outside the verified
/// library.
pub struct InitCommand;

} // verus!
