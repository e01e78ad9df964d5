use vstd::prelude::*;

verus! {

/// The subcommand that validates every input file; it drives a project engine.
pub struct ValCommand<P> {
    /// The project engine the subcommand drives.
    pub project: P,
}

} // verus!
