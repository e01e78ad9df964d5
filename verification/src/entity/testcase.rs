use vstd::prelude::*;
use vstd::string::StringExecFns;

verus! {

/// Configuration for where input and output files live.  Before generation,
/// the files in these directories are deleted.
#[derive(Clone, Debug)]
pub struct TestcaseConfig {
    /// Name of the directory holding input files, relative to the project
    /// directory.
    pub indir: String,
    /// Name of the directory holding expected-output files, relative to the
    /// project directory.
    pub outdir: String,
}

/// The default name of the input directory.
pub fn indir_default() -> (r: String)
    ensures
        r@ == "in"@,
{
    String::from_str("in")
}

/// The default name of the output directory.
pub fn outdir_default() -> (r: String)
    ensures
        r@ == "out"@,
{
    String::from_str("out")
}

impl Default for TestcaseConfig {
    /// Inputs default to `in/`, outputs to `out/`.
    fn default() -> (r: TestcaseConfig)
        ensures
            r.indir@ == "in"@,
            r.outdir@ == "out"@,
    {
        TestcaseConfig { indir: indir_default(), outdir: outdir_default() }
    }
}

} // verus!
