use vstd::prelude::*;

verus! {

/// The subcommand that generates test inputs; it drives a project engine.
pub struct GenCommand<P> {
    /// The project engine the subcommand drives.
    pub project: P,
}

} // verus!
