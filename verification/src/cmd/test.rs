use vstd::prelude::*;

verus! {

/// The subcommand that judges every solution; it drives a project engine.
pub struct TestCommand<P> {
    /// The project engine the subcommand drives.
    pub project: P,
}

} // verus!
