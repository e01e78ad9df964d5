use vstd::prelude::*;

verus! {

/// Configuration for one input validator.
#[derive(Clone, Debug)]
pub struct ValidatorConfig {
    /// Path to the validator file, relative to the project directory.
    pub path: String,
    /// Name of the language the validator is written in.
    pub language_name: String,
}

} // verus!
