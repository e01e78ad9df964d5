use vstd::prelude::*;

verus! {

/// The subcommand that adds an entity to a project; it drives a project engine.
pub struct AddCommand<P> {
    /// The project engine the subcommand drives.
    pub project: P,
}

} // verus!
