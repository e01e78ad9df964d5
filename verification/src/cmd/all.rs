use vstd::prelude::*;

verus! {

/// The subcommand that runs the whole pipeline; it drives a project engine.
pub struct AllCommand<P> {
    /// The project engine the subcommand drives.
    pub project: P,
}

} // verus!
