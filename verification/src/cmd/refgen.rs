use vstd::prelude::*;

verus! {

/// The subcommand that generates expected outputs from the reference solution; it drives a project engine.
pub struct RefGenCommand<P> {
    /// The project engine the subcommand drives.
    pub project: P,
}

} // verus!
