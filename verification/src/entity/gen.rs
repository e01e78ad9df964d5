use vstd::prelude::*;

verus! {

/// Configuration for one input generator.
#[derive(Clone, Debug)]
pub struct GenConfig {
    /// Name of the language the generator is written in.
    pub language_name: String,
    /// Path to the generator source file, relative to the project directory.
    pub path: String,
}

} // verus!
