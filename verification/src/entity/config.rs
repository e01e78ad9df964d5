use vstd::prelude::*;
use vstd::string::StringExecFns;

use crate::entity::gen::GenConfig;
use crate::entity::sol::SolutionConfig;
use crate::entity::testcase::TestcaseConfig;
use crate::entity::val::ValidatorConfig;

verus! {

/// Configuration for one available language: how to compile a source file of
/// that language and how to run the produced artifact.
#[derive(Clone, Debug)]
pub struct LanguageConfig {
    /// Name of the language, matched exactly against an entity's declared
    /// language.
    pub language_name: String,
    /// Source-file extension of the language, e.g. `cpp` or `py`; used by
    /// entity-creation tooling, not by the engine.
    pub target_ext: String,
    /// Compile command template; a token `$IN` stands for the source path and
    /// `$OUT` for the artifact path.
    pub compile: Vec<String>,
    /// Run command template; a token `$OUT` stands for the artifact path.
    pub run: Vec<String>,
}

/// The whole project manifest, conventionally stored at `creo.toml` in the
/// project directory.
#[derive(Clone, Debug)]
pub struct CreoConfig {
    /// Advisory time limit for one run, in milliseconds.  No execution path
    /// enforces it yet.
    pub time_limit_millis: u64,
    /// Input generators.
    pub generators: Vec<GenConfig>,
    /// Available languages, in declaration order; on a name clash the first
    /// match wins.
    pub languages: Vec<LanguageConfig>,
    /// Candidate solutions.
    pub solutions: Vec<SolutionConfig>,
    /// Input validators.
    pub validators: Vec<ValidatorConfig>,
    /// Where input and output files live.
    pub testcase_config: TestcaseConfig,
}

impl Default for CreoConfig {
    /// The default manifest: a two-second time limit, C++ and Python
    /// toolchains, no entities, and the default `in`/`out` directories.
    fn default() -> (r: CreoConfig)
        ensures
            r.time_limit_millis == 2000,
            r.generators@.len() == 0,
            r.solutions@.len() == 0,
            r.validators@.len() == 0,
            r.testcase_config.indir@ == "in"@,
            r.testcase_config.outdir@ == "out"@,
            r.languages@.len() == 2,
            r.languages@[0].language_name@ == "C++"@,
            r.languages@[0].target_ext@ == "cpp"@,
            r.languages@[0].compile.deep_view() =~= seq![
                "g++"@,
                "-O2"@,
                "-std=gnu++11"@,
                "-o"@,
                "$OUT"@,
                "$IN"@,
            ],
            r.languages@[0].run.deep_view() =~= seq!["$OUT"@],
            r.languages@[1].language_name@ == "Python"@,
            r.languages@[1].target_ext@ == "py"@,
            r.languages@[1].compile.deep_view() =~= seq!["cp"@, "$IN"@, "$OUT"@],
            r.languages@[1].run.deep_view() =~= seq!["python3"@, "$OUT"@],
    {
        let mut cpp_compile: Vec<String> = Vec::new();
        cpp_compile.push(String::from_str("g++"));
        cpp_compile.push(String::from_str("-O2"));
        cpp_compile.push(String::from_str("-std=gnu++11"));
        cpp_compile.push(String::from_str("-o"));
        cpp_compile.push(String::from_str("$OUT"));
        cpp_compile.push(String::from_str("$IN"));
        let mut cpp_run: Vec<String> = Vec::new();
        cpp_run.push(String::from_str("$OUT"));
        let cpp = LanguageConfig {
            language_name: String::from_str("C++"),
            target_ext: String::from_str("cpp"),
            compile: cpp_compile,
            run: cpp_run,
        };
        let mut py_compile: Vec<String> = Vec::new();
        py_compile.push(String::from_str("cp"));
        py_compile.push(String::from_str("$IN"));
        py_compile.push(String::from_str("$OUT"));
        let mut py_run: Vec<String> = Vec::new();
        py_run.push(String::from_str("python3"));
        py_run.push(String::from_str("$OUT"));
        let python = LanguageConfig {
            language_name: String::from_str("Python"),
            target_ext: String::from_str("py"),
            compile: py_compile,
            run: py_run,
        };
        let mut languages: Vec<LanguageConfig> = Vec::new();
        languages.push(cpp);
        languages.push(python);
        CreoConfig {
            time_limit_millis: 2000,
            generators: Vec::new(),
            languages,
            solutions: Vec::new(),
            validators: Vec::new(),
            testcase_config: TestcaseConfig {
                indir: crate::entity::testcase::indir_default(),
                outdir: crate::entity::testcase::outdir_default(),
            },
        }
    }
}

} // verus!
