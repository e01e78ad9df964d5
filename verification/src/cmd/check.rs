use vstd::prelude::*;

verus! {

/// The subcommand that checks the manifest; it drives a project engine.
pub struct CheckCommand<P> {
    /// The project engine the subcommand drives.
    pub project: P,
}

} // verus!
