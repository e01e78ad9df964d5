use vstd::prelude::*;
use vstd::string::StringExecFns;

use crate::entity::config::CreoConfig;
use crate::entity::config::LanguageConfig;
use crate::entity::gen::GenConfig;
use crate::entity::val::ValidatorConfig;
use crate::entity::sol::agg_from;
use crate::entity::sol::aggregate_of;
use crate::entity::sol::worst_of;
use crate::entity::sol::SolutionConfig;
use crate::entity::sol::Verdict;
use crate::error::Error;
use crate::io_util::Event;
use crate::io_util::IoUtil;
use crate::pathutil::cleaned_of;
use crate::pathutil::parent_dir;
use crate::pathutil::path_join;
use crate::pathutil::path_join_spec;
use crate::run_util::compile_trace;
use crate::run_util::exec_failed_message;
use crate::run_util::exec_failed_msg;
use crate::run_util::run_once_trace;
use crate::run_util::run_pipe_trace;
use crate::run_util::run_with_input_trace;
use crate::run_util::RunFailure;
use crate::run_util::RunUtil;
use crate::run_util::RunUtilExt;
use crate::trace::lemma_prefix_skip_concat;
use crate::trace::lemma_steps_fail;
use crate::trace::lemma_steps_ok_snoc;
use crate::trace::lemma_steps_ok_to_trace;
use crate::trace::steps_ok;
use crate::trace::steps_trace;
use crate::strutil::dec_str;
use crate::strutil::u64_to_string;

verus! {

/// The manifest file of a project directory.
pub open spec fn config_file_of(proj: Seq<char>) -> Seq<char> {
    path_join_spec(proj, "creo.toml"@)
}

/// How many solutions carry the reference flag.
pub open spec fn ref_count(sols: Seq<SolutionConfig>) -> int
    decreases sols.len(),
{
    if sols.len() == 0 {
        0
    } else {
        ref_count(sols.drop_last()) + if sols.last().is_reference_solution {
            1int
        } else {
            0int
        }
    }
}

/// The reference-solution invariant of a manifest: at most one solution is
/// flagged as the reference, and a flagged one expects the verdict `AC`.
pub open spec fn ref_invariant_ok(sols: Seq<SolutionConfig>) -> bool {
    &&& ref_count(sols) <= 1
    &&& forall|i: int|
        0 <= i < sols.len() ==> ((#[trigger] sols[i]).is_reference_solution
            ==> sols[i].expected_verdict == Verdict::AC)
}

/// Diagnostic for a manifest with more than one reference solution.
pub open spec fn too_many_refs_msg(n: int) -> Seq<char> {
    "#reference solutions is not <= 1: "@ + dec_str(n)
}

/// Diagnostic for a manifest whose reference-solution count is not one.
pub open spec fn ref_count_not_one_msg(n: int) -> Seq<char> {
    "#reference solutions is not one: "@ + dec_str(n)
}

/// Diagnostic for a reference solution that does not expect `AC`.
pub open spec fn bad_ref_verdict_msg(v: Verdict) -> Seq<char> {
    "the reference solution does not satisfy expected_verdict = AC: got "@ + v.label_spec()
}

/// Diagnostic for an entity whose declared language has no toolchain.
pub open spec fn lang_not_found_msg(name: Seq<char>) -> Seq<char> {
    "language not found: "@ + name
}

/// Diagnostic for a `validate` run without any declared validator.
pub open spec fn no_validators_msg() -> Seq<char> {
    "Validators not found in creo.toml"@
}

/// What [`check_reference_solution`] returns for given solutions: `Ok`
/// exactly when the reference-solution invariant holds, and otherwise a
/// configuration error naming what is wrong, with the count found or the
/// verdict found.
pub open spec fn check_ref_result(sols: Seq<SolutionConfig>, r: Result<(), Error>) -> bool {
    &&& (r is Ok <==> ref_invariant_ok(sols))
    &&& (ref_count(sols) > 1 ==> {
        &&& r matches Err(e)
        &&& e matches Error::ConfInvalid { description }
        &&& description@ == too_many_refs_msg(ref_count(sols))
    })
    &&& (ref_count(sols) <= 1 && !ref_invariant_ok(sols) ==> exists|i: int|
        {
            &&& 0 <= i < sols.len()
            &&& (#[trigger] sols[i]).is_reference_solution
            &&& sols[i].expected_verdict != Verdict::AC
            &&& r matches Err(e)
            &&& e matches Error::ConfInvalid { description }
            &&& description@ == bad_ref_verdict_msg(sols[i].expected_verdict)
        })
}

/// Counts the solutions flagged as the reference solution.
pub fn count_reference_solutions(sols: &Vec<SolutionConfig>) -> (n: usize)
    ensures
        n as int == ref_count(sols@),
{
    let mut n: usize = 0;
    let mut i: usize = 0;
    while i < sols.len()
        invariant
            i <= sols.len(),
            n <= i,
            n as int == ref_count(sols@.take(i as int)),
        decreases sols.len() - i,
    {
        if sols[i].is_reference_solution {
            n = n + 1;
        }
        proof {
            let cur = sols@.take(i + 1 as int);
            assert(cur.drop_last() =~= sols@.take(i as int));
            assert(cur.last() == sols@[i as int]);
        }
        i = i + 1;
    }
    proof {
        assert(sols@.take(sols@.len() as int) =~= sols@);
    }
    n
}

/// Checks the reference-solution invariant of a manifest: at most one
/// reference solution, and a reference solution must expect `AC`.
pub fn check_reference_solution(config: &CreoConfig) -> (r: Result<(), Error>)
    ensures
        check_ref_result(config.solutions@, r),
{
    let n = count_reference_solutions(&config.solutions);
    if n > 1 {
        let mut description = String::from_str("#reference solutions is not <= 1: ");
        let rendered = u64_to_string(n as u64);
        description.append(rendered.as_str());
        return Err(Error::ConfInvalid { description });
    }
    let mut i: usize = 0;
    while i < config.solutions.len()
        invariant
            i <= config.solutions@.len(),
            ref_count(config.solutions@) <= 1,
            forall|j: int|
                0 <= j < i ==> ((#[trigger] config.solutions@[j]).is_reference_solution
                    ==> config.solutions@[j].expected_verdict == Verdict::AC),
        decreases config.solutions@.len() - i,
    {
        let sol = &config.solutions[i];
        if sol.is_reference_solution && !matches!(sol.expected_verdict, Verdict::AC) {
            let mut description = String::from_str(
                "the reference solution does not satisfy expected_verdict = AC: got ",
            );
            description.append(sol.expected_verdict.label());
            return Err(Error::ConfInvalid { description });
        }
        i = i + 1;
    }
    Ok(())
}

/// The first toolchain whose name is exactly `name` stands at index `i`.
pub open spec fn is_first_lang_match(langs: Seq<LanguageConfig>, name: Seq<char>, i: int) -> bool {
    &&& 0 <= i < langs.len()
    &&& langs[i].language_name@ == name
    &&& forall|j: int| 0 <= j < i ==> (#[trigger] langs[j]).language_name@ != name
}

/// No toolchain is named exactly `name`.
pub open spec fn no_lang_match(langs: Seq<LanguageConfig>, name: Seq<char>) -> bool {
    forall|j: int| 0 <= j < langs.len() ==> (#[trigger] langs[j]).language_name@ != name
}

/// Index of the first toolchain named exactly `name`, or the number of
/// toolchains when none matches.
pub open spec fn first_lang_index(langs: Seq<LanguageConfig>, name: Seq<char>) -> int
    decreases langs.len(),
{
    if langs.len() == 0 {
        0
    } else if langs[0].language_name@ == name {
        0
    } else {
        1 + first_lang_index(langs.skip(1), name)
    }
}

/// The first matching index is [`first_lang_index`], and a missing name
/// drives it to the end.
pub proof fn lemma_first_lang_index(langs: Seq<LanguageConfig>, name: Seq<char>)
    ensures
        0 <= first_lang_index(langs, name) <= langs.len(),
        first_lang_index(langs, name) < langs.len() ==> is_first_lang_match(
            langs,
            name,
            first_lang_index(langs, name),
        ),
        first_lang_index(langs, name) == langs.len() ==> no_lang_match(langs, name),
    decreases langs.len(),
{
    if langs.len() > 0 && langs[0].language_name@ != name {
        lemma_first_lang_index(langs.skip(1), name);
        let li = first_lang_index(langs, name);
        if li < langs.len() {
            assert(langs[li] == langs.skip(1)[li - 1]);
            assert forall|j: int| 0 <= j < li implies (#[trigger] langs[j]).language_name@
                != name by {
                if j > 0 {
                    assert(langs[j] == langs.skip(1)[j - 1]);
                }
            }
        } else {
            assert forall|j: int| 0 <= j < langs.len() implies (#[trigger] langs[j]).language_name@
                != name by {
                if j > 0 {
                    assert(langs[j] == langs.skip(1)[j - 1]);
                }
            }
        }
    }
}

/// A first match stands exactly at [`first_lang_index`].
pub proof fn lemma_first_lang_index_unique(langs: Seq<LanguageConfig>, name: Seq<char>, i: int)
    requires
        is_first_lang_match(langs, name, i),
    ensures
        first_lang_index(langs, name) == i,
    decreases i,
{
    if i > 0 {
        assert(langs[0].language_name@ != name);
        assert(langs.skip(1)[i - 1] == langs[i]);
        assert forall|j: int| 0 <= j < i - 1 implies (#[trigger] langs.skip(1)[j]).language_name@
            != name by {
            assert(langs.skip(1)[j] == langs[j + 1]);
        }
        lemma_first_lang_index_unique(langs.skip(1), name, i - 1);
    }
}

/// Looks a language up by exact name; the first match wins.
pub fn find_language(langs: &Vec<LanguageConfig>, name: &String) -> (r: Option<usize>)
    ensures
        match r {
            Some(i) => is_first_lang_match(langs@, name@, i as int),
            None => no_lang_match(langs@, name@),
        },
{
    let mut i: usize = 0;
    while i < langs.len()
        invariant
            i <= langs@.len(),
            forall|j: int| 0 <= j < i ==> (#[trigger] langs@[j]).language_name@ != name@,
        decreases langs@.len() - i,
    {
        if langs[i].language_name == *name {
            return Some(i);
        }
        i = i + 1;
    }
    None
}

/// Compares two byte strings for exact equality.
pub fn bytes_equal(a: &Vec<u8>, b: &Vec<u8>) -> (r: bool)
    ensures
        r == (a@ == b@),
{
    let r = *a == *b;
    proof {
        if r {
            assert(a@ =~= b@);
        } else {
            if a@ == b@ {
                assert(a.deep_view() =~= b.deep_view());
            }
        }
    }
    r
}

/// View of a captured-run result with the output bytes abstracted.
pub open spec fn run_result_view(r: Result<Vec<u8>, RunFailure>) -> Result<Seq<u8>, RunFailure> {
    match r {
        Ok(b) => Ok(b@),
        Err(f) => Err(f),
    }
}

/// The events and result of classifying one run: a failed run is a runtime
/// error without reading anything; a successful run's output is compared,
/// byte for byte, against the expected-output file.
pub open spec fn get_verdict_trace(
    evs: Seq<Event>,
    run_result: Result<Seq<u8>, RunFailure>,
    outfile: Seq<char>,
    r: Result<Verdict, Error>,
) -> bool {
    match run_result {
        Err(_) => evs.len() == 0 && r == Ok::<Verdict, Error>(Verdict::RE),
        Ok(produced) => {
            &&& evs.len() == 1
            &&& evs[0] matches Event::ReadBytes { path, bytes: rres }
            &&& path == outfile
            &&& match rres {
                Err(e) => r == Err::<Verdict, Error>(e),
                Ok(expected) => r == Ok::<Verdict, Error>(
                    if expected == produced {
                        Verdict::AC
                    } else {
                        Verdict::WA
                    },
                ),
            }
        },
    }
}

/// The events and result of the `check` operation: the manifest is read and
/// the reference-solution invariant is tested; nothing else is touched.
pub open spec fn check_trace(evs: Seq<Event>, proj: Seq<char>, r: Result<(), Error>) -> bool {
    &&& evs.len() == 1
    &&& evs[0] matches Event::ReadConfig { proj: cpath, loaded }
    &&& cpath == config_file_of(proj)
    &&& match loaded {
        Err(e) => r == Err::<(), Error>(e),
        Ok(c) => check_ref_result(c.solutions@, r),
    }
}

/// Provides the manifest and per-run helpers to the pipeline engine.
pub trait ProjectExt: IoUtil + RunUtil + RunUtilExt {
    /// Reads and parses the manifest `creo.toml` of a project directory.
    fn read_config(&mut self, proj_dir: &str) -> (r: Result<CreoConfig, Error>)
        ensures
            final(self).log() == old(self).log().push(
                Event::ReadConfig { proj: config_file_of(proj_dir@), loaded: r },
            ),
    ;

    /// Finds the verdict of one run from its result and the expected-output
    /// file.
    fn get_verdict(&mut self, result: &Result<Vec<u8>, RunFailure>, outfile: &str) -> (r: Result<
        Verdict,
        Error,
    >)
        ensures
            old(self).log().is_prefix_of(final(self).log()),
            get_verdict_trace(
                final(self).log().skip(old(self).log().len() as int),
                run_result_view(*result),
                outfile@,
                r,
            ),
    {
        let ghost base = self.log();
        match result {
            Ok(produced) => {
                let rd = self.read_bytes_from_file(outfile);
                match rd {
                    Ok(expected) => {
                        proof {
                            assert(self.log().skip(base.len() as int) =~= seq![
                                Event::ReadBytes { path: outfile@, bytes: Ok(expected@) },
                            ]);
                        }
                        if bytes_equal(&expected, produced) {
                            Ok(Verdict::AC)
                        } else {
                            Ok(Verdict::WA)
                        }
                    },
                    Err(e) => {
                        proof {
                            assert(self.log().skip(base.len() as int) =~= seq![
                                Event::ReadBytes { path: outfile@, bytes: Err(e) },
                            ]);
                        }
                        Err(e)
                    },
                }
            },
            Err(_) => {
                proof {
                    assert(self.log().skip(base.len() as int) =~= Seq::<Event>::empty());
                }
                Ok(Verdict::RE)
            },
        }
    }
}

/// The tail of an entity's trace from `from` on: a build-cache compilation,
/// and, when it succeeds, one run of the artifact.
pub open spec fn compile_and_run_trace(
    evs: Seq<Event>,
    from: int,
    cd: Seq<char>,
    srcabs: Seq<char>,
    lang: LanguageConfig,
    r: Result<(), Error>,
) -> bool {
    exists|k: int, r0: Result<String, Error>|
        {
            &&& from <= k <= evs.len()
            &&& #[trigger] compile_trace(
                evs.subrange(from, k),
                cd,
                srcabs,
                lang.compile.deep_view(),
                r0,
            )
            &&& match r0 {
                Err(e) => evs.len() == k && r == Err::<(), Error>(e),
                Ok(outpath) => run_once_trace(evs.skip(k), cd, outpath@, lang.run.deep_view(), r),
            }
        }
}

/// The events and result of processing one generator: resolve its working
/// directory, look its toolchain up, compile through the build cache, and
/// run the artifact once in that directory.
pub open spec fn gen_one_trace(
    g: GenConfig,
    langs: Seq<LanguageConfig>,
    proj: Seq<char>,
    evs: Seq<Event>,
    r: Result<(), Error>,
) -> bool {
    let src = path_join_spec(proj, g.path@);
    let cd0 = cleaned_of(path_join_spec(src, ".."@));
    &&& evs.len() >= 1
    &&& evs[0] matches Event::ToAbsolute { path: apath, abs }
    &&& apath == cd0
    &&& match abs {
        Err(e) => evs.len() == 1 && r == Err::<(), Error>(e),
        Ok(cd) => {
            let li = first_lang_index(langs, g.language_name@);
            if li == langs.len() {
                &&& evs.len() == 1
                &&& r matches Err(e)
                &&& e matches Error::ConfInvalid { description }
                &&& description@ == lang_not_found_msg(g.language_name@)
            } else {
                &&& evs.len() >= 2
                &&& evs[1] matches Event::ToAbsolute { path: spath, abs: sabs }
                &&& spath == src
                &&& match sabs {
                    Err(e) => evs.len() == 2 && r == Err::<(), Error>(e),
                    Ok(srcabs) => compile_and_run_trace(evs, 2, cd, srcabs, langs[li], r),
                }
            }
        },
    }
}

/// One generator's trace as a loop segment.
pub open spec fn gen_seg(langs: Seq<LanguageConfig>, proj: Seq<char>) -> spec_fn(
    GenConfig,
    Seq<Event>,
    Result<(), Error>,
) -> bool {
    |g: GenConfig, evs: Seq<Event>, r: Result<(), Error>| gen_one_trace(g, langs, proj, evs, r)
}

/// The events and result of the `generate` operation: read the manifest,
/// clear and recreate the input directory, then process every generator in
/// order, stopping at the first failure.
pub open spec fn gen_trace(evs: Seq<Event>, proj: Seq<char>, r: Result<(), Error>) -> bool {
    &&& evs.len() >= 1
    &&& evs[0] matches Event::ReadConfig { proj: cpath, loaded }
    &&& cpath == config_file_of(proj)
    &&& match loaded {
        Err(e) => evs.len() == 1 && r == Err::<(), Error>(e),
        Ok(c) => {
            let indir = path_join_spec(proj, c.testcase_config.indir@);
            &&& evs.len() >= 2
            &&& evs[1] matches Event::RemoveDirAll { path: rpath, result: rres }
            &&& rpath == indir
            &&& match rres {
                Err(e) => evs.len() == 2 && r == Err::<(), Error>(e),
                Ok(_) => {
                    &&& evs.len() >= 3
                    &&& evs[2] matches Event::Mkdir { path: mpath, result: mres }
                    &&& mpath == indir
                    &&& match mres {
                        Err(e) => evs.len() == 3 && r == Err::<(), Error>(e),
                        Ok(_) => steps_trace(
                            c.generators@,
                            gen_seg(c.languages@, proj),
                            evs.skip(3),
                            r,
                        ),
                    }
                },
            }
        },
    }
}

/// Builds the diagnostic for an entity whose language has no toolchain.
fn lang_not_found_message(name: &String) -> (r: String)
    ensures
        r@ =~= lang_not_found_msg(name@),
{
    let mut s = String::from_str("language not found: ");
    s.append(name.as_str());
    s
}

/// Processes one generator: compile it (through the build cache) and run it
/// once with its own directory as the working directory.
#[verifier::loop_isolation(false)]
#[verifier::rlimit(60)]
#[verifier::spinoff_prover]
fn gen_one<T: ProjectExt>(
    io: &mut T,
    proj_dir: &str,
    g: &GenConfig,
    langs: &Vec<LanguageConfig>,
) -> (r: Result<(), Error>)
    ensures
        old(io).log().is_prefix_of(final(io).log()),
        gen_one_trace(
            *g,
            langs@,
            proj_dir@,
            final(io).log().skip(old(io).log().len() as int),
            r,
        ),
{
    let ghost base = io.log();
    let src = path_join(proj_dir, g.path.as_str());
    let cd0 = parent_dir(src.as_str());
    let cd = match io.to_absolute(cd0.as_str()) {
        Ok(p) => p,
        Err(e) => {
            proof {
                assert(io.log().skip(base.len() as int) =~= seq![
                    Event::ToAbsolute { path: cd0@, abs: Err(e) },
                ]);
            }
            return Err(e);
        },
    };
    let li = match find_language(langs, &g.language_name) {
        Some(i) => i,
        None => {
            let description = lang_not_found_message(&g.language_name);
            proof {
                assert(io.log().skip(base.len() as int) =~= seq![
                    Event::ToAbsolute { path: cd0@, abs: Ok(cd@) },
                ]);
                lemma_first_lang_index(langs@, g.language_name@);
                if first_lang_index(langs@, g.language_name@) < langs@.len() {
                    let li0 = first_lang_index(langs@, g.language_name@);
                    assert(langs@[li0].language_name@ == g.language_name@);
                }
            }
            return Err(Error::ConfInvalid { description });
        },
    };
    let srcabs = match io.to_absolute(src.as_str()) {
        Ok(p) => p,
        Err(e) => {
            proof {
                assert(io.log().skip(base.len() as int) =~= seq![
                    Event::ToAbsolute { path: cd0@, abs: Ok(cd@) },
                    Event::ToAbsolute { path: src@, abs: Err(e) },
                ]);
                lemma_first_lang_index_unique(langs@, g.language_name@, li as int);
            }
            return Err(e);
        },
    };
    let ghost pre_compile = io.log();
    proof {
        assert(pre_compile =~= base + seq![
            Event::ToAbsolute { path: cd0@, abs: Ok(cd@) },
            Event::ToAbsolute { path: src@, abs: Ok(srcabs@) },
        ]);
    }
    let cres = io.compile(cd.as_str(), srcabs.as_str(), &langs[li].compile);
    let ghost compile_evs = io.log().skip(pre_compile.len() as int);
    proof {
        lemma_prefix_skip_concat(base, pre_compile, io.log());
        assert(io.log().skip(base.len() as int) =~= seq![
            Event::ToAbsolute { path: cd0@, abs: Ok(cd@) },
            Event::ToAbsolute { path: src@, abs: Ok(srcabs@) },
        ] + compile_evs);
    }
    let outpath = match cres {
        Ok(p) => p,
        Err(e) => {
            proof {
                let evs = io.log().skip(base.len() as int);
                let k = 2 + compile_evs.len() as int;
                assert(evs.subrange(2, k) =~= compile_evs);
                assert(compile_trace(evs.subrange(2, k), cd@, srcabs@,
                    langs@[li as int].compile.deep_view(), cres));
                lemma_first_lang_index_unique(langs@, g.language_name@, li as int);
                assert(evs.len() == k);
                assert(compile_and_run_trace(evs, 2, cd@, srcabs@, langs@[li as int], Err(e)));
                assert(gen_one_trace(*g, langs@, proj_dir@, evs, Err(e)));
            }
            return Err(e);
        },
    };
    let ghost pre_run = io.log();
    let r = io.run_once(cd.as_str(), outpath.as_str(), &langs[li].run);
    proof {
        let run_evs = io.log().skip(pre_run.len() as int);
        lemma_prefix_skip_concat(base, pre_run, io.log());
        let evs = io.log().skip(base.len() as int);
        let k = 2 + compile_evs.len() as int;
        assert(evs =~= seq![
            Event::ToAbsolute { path: cd0@, abs: Ok(cd@) },
            Event::ToAbsolute { path: src@, abs: Ok(srcabs@) },
        ] + compile_evs + run_evs);
        assert(evs.subrange(2, k) =~= compile_evs);
        assert(evs.skip(k) =~= run_evs);
        assert(compile_trace(evs.subrange(2, k), cd@, srcabs@,
            langs@[li as int].compile.deep_view(), cres));
        lemma_first_lang_index_unique(langs@, g.language_name@, li as int);
        assert(run_once_trace(evs.skip(k), cd@, outpath@, langs@[li as int].run.deep_view(), r));
        assert(compile_and_run_trace(evs, 2, cd@, srcabs@, langs@[li as int], r));
        assert(gen_one_trace(*g, langs@, proj_dir@, evs, r));
    }
    r
}

/// The events and result of preparing one entity for execution: resolve its
/// working directory, look its toolchain up, resolve its source path, and
/// compile it through the build cache.  On success the result carries the
/// working directory, the toolchain index and the artifact path.
pub open spec fn prep_trace(
    path: Seq<char>,
    langname: Seq<char>,
    langs: Seq<LanguageConfig>,
    proj: Seq<char>,
    evs: Seq<Event>,
    r: Result<(String, usize, String), Error>,
) -> bool {
    let src = path_join_spec(proj, path);
    let cd0 = cleaned_of(path_join_spec(src, ".."@));
    &&& evs.len() >= 1
    &&& evs[0] matches Event::ToAbsolute { path: apath, abs }
    &&& apath == cd0
    &&& match abs {
        Err(e) => evs.len() == 1 && r == Err::<(String, usize, String), Error>(e),
        Ok(cd) => {
            let li = first_lang_index(langs, langname);
            if li == langs.len() {
                &&& evs.len() == 1
                &&& r matches Err(e)
                &&& e matches Error::ConfInvalid { description }
                &&& description@ == lang_not_found_msg(langname)
            } else {
                &&& evs.len() >= 2
                &&& evs[1] matches Event::ToAbsolute { path: spath, abs: sabs }
                &&& spath == src
                &&& match sabs {
                    Err(e) => evs.len() == 2 && r == Err::<(String, usize, String), Error>(e),
                    Ok(srcabs) => prep_compile_tail(evs, cd, srcabs, langs[li], li, r),
                }
            }
        },
    }
}

/// The tail of an entity preparation: the build-cache compilation from the
/// third event on, and how its result becomes the preparation's result.
pub open spec fn prep_compile_tail(
    evs: Seq<Event>,
    cd: Seq<char>,
    srcabs: Seq<char>,
    lang: LanguageConfig,
    li: int,
    r: Result<(String, usize, String), Error>,
) -> bool {
    exists|r0: Result<String, Error>|
        {
            &&& #[trigger] compile_trace(evs.skip(2), cd, srcabs, lang.compile.deep_view(), r0)
            &&& match r0 {
                Err(e) => r == Err::<(String, usize, String), Error>(e),
                Ok(outpath) => {
                    &&& r matches Ok(t)
                    &&& t.0@ == cd
                    &&& t.1 == li
                    &&& t.2 == outpath
                },
            }
        }
}

/// Prepares one entity: resolves its directory and source, finds its
/// toolchain and compiles it through the build cache.
#[verifier::rlimit(60)]
#[verifier::spinoff_prover]
fn prep_entity<T: ProjectExt>(
    io: &mut T,
    proj_dir: &str,
    path: &String,
    language_name: &String,
    langs: &Vec<LanguageConfig>,
) -> (r: Result<(String, usize, String), Error>)
    ensures
        old(io).log().is_prefix_of(final(io).log()),
        prep_trace(
            path@,
            language_name@,
            langs@,
            proj_dir@,
            final(io).log().skip(old(io).log().len() as int),
            r,
        ),
        r matches Ok(t) ==> (t.1 < langs@.len() && t.1 == first_lang_index(langs@, language_name@)),
{
    let ghost base = io.log();
    let src = path_join(proj_dir, path.as_str());
    let cd0 = parent_dir(src.as_str());
    let cd = match io.to_absolute(cd0.as_str()) {
        Ok(p) => p,
        Err(e) => {
            proof {
                assert(io.log().skip(base.len() as int) =~= seq![
                    Event::ToAbsolute { path: cd0@, abs: Err(e) },
                ]);
            }
            return Err(e);
        },
    };
    let li = match find_language(langs, language_name) {
        Some(i) => i,
        None => {
            let description = lang_not_found_message(language_name);
            proof {
                assert(io.log().skip(base.len() as int) =~= seq![
                    Event::ToAbsolute { path: cd0@, abs: Ok(cd@) },
                ]);
                lemma_first_lang_index(langs@, language_name@);
                if first_lang_index(langs@, language_name@) < langs@.len() {
                    let li0 = first_lang_index(langs@, language_name@);
                    assert(langs@[li0].language_name@ == language_name@);
                }
            }
            return Err(Error::ConfInvalid { description });
        },
    };
    let srcabs = match io.to_absolute(src.as_str()) {
        Ok(p) => p,
        Err(e) => {
            proof {
                assert(io.log().skip(base.len() as int) =~= seq![
                    Event::ToAbsolute { path: cd0@, abs: Ok(cd@) },
                    Event::ToAbsolute { path: src@, abs: Err(e) },
                ]);
                lemma_first_lang_index_unique(langs@, language_name@, li as int);
            }
            return Err(e);
        },
    };
    let ghost pre_compile = io.log();
    let cres = io.compile(cd.as_str(), srcabs.as_str(), &langs[li].compile);
    let ghost compile_evs = io.log().skip(pre_compile.len() as int);
    proof {
        lemma_prefix_skip_concat(base, pre_compile, io.log());
        assert(io.log().skip(base.len() as int) =~= seq![
            Event::ToAbsolute { path: cd0@, abs: Ok(cd@) },
            Event::ToAbsolute { path: src@, abs: Ok(srcabs@) },
        ] + compile_evs);
        assert(io.log().skip(base.len() as int).skip(2) =~= compile_evs);
        lemma_first_lang_index_unique(langs@, language_name@, li as int);
    }
    match cres {
        Ok(outpath) => {
            proof {
                let evs = io.log().skip(base.len() as int);
                assert(compile_trace(evs.skip(2), cd@, srcabs@,
                    langs@[li as int].compile.deep_view(), cres));
                assert(prep_compile_tail(evs, cd@, srcabs@, langs@[li as int], li as int,
                    Ok((cd, li, outpath))));
                assert(prep_trace(path@, language_name@, langs@, proj_dir@, evs,
                    Ok((cd, li, outpath))));
            }
            Ok((cd, li, outpath))
        },
        Err(e) => {
            proof {
                let evs = io.log().skip(base.len() as int);
                assert(compile_trace(evs.skip(2), cd@, srcabs@,
                    langs@[li as int].compile.deep_view(), cres));
                assert(prep_compile_tail(evs, cd@, srcabs@, langs@[li as int], li as int,
                    Err::<(String, usize, String), Error>(e)));
                assert(prep_trace(path@, language_name@, langs@, proj_dir@, evs,
                    Err::<(String, usize, String), Error>(e)));
            }
            Err(e)
        },
    }
}

/// The events and result of validating one input file: the validator runs
/// with the file on its standard input; a nonzero exit is a validation
/// failure naming the validator and the file, and a launch failure
/// propagates as a plain I/O error.
pub open spec fn val_file_trace(
    cd: Seq<char>,
    outpath: Seq<char>,
    run: Seq<Seq<char>>,
    indir: Seq<char>,
    vpath: Seq<char>,
    f: Seq<char>,
    evs: Seq<Event>,
    r: Result<(), Error>,
) -> bool {
    exists|r0: Result<Vec<u8>, RunFailure>|
        {
            &&& #[trigger] run_with_input_trace(evs, cd, outpath, run, path_join_spec(indir, f), r0)
            &&& match r0 {
                Ok(_) => r == Ok::<(), Error>(()),
                Err(f0) => match f0 {
                    RunFailure::NonZeroExit { code } => {
                        &&& r matches Err(e)
                        &&& e matches Error::ValidationFailed { validator, infile, message }
                        &&& validator@ == vpath
                        &&& infile@ == path_join_spec(indir, f)
                        &&& message@ == exec_failed_msg(outpath)
                    },
                    RunFailure::LaunchFailure { message } => r == Err::<(), Error>(
                        Error::IOError { message },
                    ),
                },
            }
        }
}

/// One input file's validation as a loop segment.
pub open spec fn val_file_seg(
    cd: Seq<char>,
    outpath: Seq<char>,
    run: Seq<Seq<char>>,
    indir: Seq<char>,
    vpath: Seq<char>,
) -> spec_fn(Seq<char>, Seq<Event>, Result<(), Error>) -> bool {
    |f: Seq<char>, evs: Seq<Event>, r: Result<(), Error>| val_file_trace(
        cd,
        outpath,
        run,
        indir,
        vpath,
        f,
        evs,
        r,
    )
}

/// The events and result of running one compiled validator over the input
/// directory: list the inputs, then validate each in order.
pub open spec fn validate_run_trace(
    evs: Seq<Event>,
    cd: Seq<char>,
    outpath: Seq<char>,
    run: Seq<Seq<char>>,
    indir: Seq<char>,
    vpath: Seq<char>,
    r: Result<(), Error>,
) -> bool {
    &&& evs.len() >= 1
    &&& evs[0] matches Event::ListDir { path: lpath, entries }
    &&& lpath == indir
    &&& match entries {
        Err(e) => evs.len() == 1 && r == Err::<(), Error>(e),
        Ok(files) => steps_trace(files, val_file_seg(cd, outpath, run, indir, vpath), evs.skip(1), r),
    }
}

/// The events and result of processing one validator: prepare it, then run
/// it over every input file.
pub open spec fn val_one_trace(
    v: ValidatorConfig,
    langs: Seq<LanguageConfig>,
    proj: Seq<char>,
    indir: Seq<char>,
    evs: Seq<Event>,
    r: Result<(), Error>,
) -> bool {
    exists|k: int, r0: Result<(String, usize, String), Error>|
        {
            &&& 0 <= k <= evs.len()
            &&& #[trigger] prep_trace(v.path@, v.language_name@, langs, proj, evs.take(k), r0)
            &&& match r0 {
                Err(e) => evs.len() == k && r == Err::<(), Error>(e),
                Ok(t) => validate_run_trace(
                    evs.skip(k),
                    t.0@,
                    t.2@,
                    langs[first_lang_index(langs, v.language_name@)].run.deep_view(),
                    indir,
                    v.path@,
                    r,
                ),
            }
        }
}

/// One validator's trace as a loop segment.
pub open spec fn val_seg(langs: Seq<LanguageConfig>, proj: Seq<char>, indir: Seq<char>) -> spec_fn(
    ValidatorConfig,
    Seq<Event>,
    Result<(), Error>,
) -> bool {
    |v: ValidatorConfig, evs: Seq<Event>, r: Result<(), Error>| val_one_trace(
        v,
        langs,
        proj,
        indir,
        evs,
        r,
    )
}

/// The events and result of the `validate` operation: read the manifest,
/// require at least one validator before anything is compiled, then process
/// every validator in order.
pub open spec fn val_trace(evs: Seq<Event>, proj: Seq<char>, r: Result<(), Error>) -> bool {
    &&& evs.len() >= 1
    &&& evs[0] matches Event::ReadConfig { proj: cpath, loaded }
    &&& cpath == config_file_of(proj)
    &&& match loaded {
        Err(e) => evs.len() == 1 && r == Err::<(), Error>(e),
        Ok(c) => {
            if c.validators@.len() == 0 {
                &&& evs.len() == 1
                &&& r matches Err(e)
                &&& e matches Error::ConfInvalid { description }
                &&& description@ == no_validators_msg()
            } else {
                steps_trace(
                    c.validators@,
                    val_seg(c.languages@, proj, path_join_spec(proj, c.testcase_config.indir@)),
                    evs.skip(1),
                    r,
                )
            }
        },
    }
}

/// Validates one input file with a compiled validator.
#[verifier::rlimit(60)]
#[verifier::spinoff_prover]
fn val_file<T: ProjectExt>(
    io: &mut T,
    cd: &String,
    outpath: &String,
    run: &Vec<String>,
    indir: &String,
    vpath: &String,
    f: &String,
) -> (r: Result<(), Error>)
    ensures
        old(io).log().is_prefix_of(final(io).log()),
        val_file_trace(
            cd@,
            outpath@,
            run.deep_view(),
            indir@,
            vpath@,
            f@,
            final(io).log().skip(old(io).log().len() as int),
            r,
        ),
{
    let ghost base = io.log();
    let infile = path_join(indir.as_str(), f.as_str());
    let rr = io.run_with_input(cd.as_str(), outpath.as_str(), run, infile.as_str());
    proof {
        assert(run_with_input_trace(
            io.log().skip(base.len() as int),
            cd@,
            outpath@,
            run.deep_view(),
            path_join_spec(indir@, f@),
            rr,
        ));
    }
    match rr {
        Ok(_) => Ok(()),
        Err(f0) => match f0 {
            RunFailure::NonZeroExit { code: _ } => {
                let message = exec_failed_message(outpath.as_str());
                Err(Error::ValidationFailed {
                    validator: vpath.clone(),
                    infile,
                    message,
                })
            },
            RunFailure::LaunchFailure { message } => Err(Error::IOError { message }),
        },
    }
}

/// Processes one validator: prepare it, list the input files, and validate
/// each one.
#[verifier::loop_isolation(false)]
#[verifier::rlimit(60)]
#[verifier::spinoff_prover]
fn val_one<T: ProjectExt>(
    io: &mut T,
    proj_dir: &str,
    v: &ValidatorConfig,
    langs: &Vec<LanguageConfig>,
    indir: &String,
) -> (r: Result<(), Error>)
    ensures
        old(io).log().is_prefix_of(final(io).log()),
        val_one_trace(
            *v,
            langs@,
            proj_dir@,
            indir@,
            final(io).log().skip(old(io).log().len() as int),
            r,
        ),
{
    let ghost base = io.log();
    let prep = prep_entity(io, proj_dir, &v.path, &v.language_name, langs);
    let ghost prep_evs = io.log().skip(base.len() as int);
    let (cd, li, outpath) = match prep {
        Ok(t) => t,
        Err(e) => {
            proof {
                assert(prep_evs.take(prep_evs.len() as int) =~= prep_evs);
                assert(val_one_trace(*v, langs@, proj_dir@, indir@, prep_evs, Err(e)));
            }
            return Err(e);
        },
    };
    let files = match io.list_dir(indir.as_str()) {
        Ok(fs) => fs,
        Err(e) => {
            proof {
                lemma_prefix_skip_concat(base, base + prep_evs, io.log());
                let evs = io.log().skip(base.len() as int);
                assert(evs =~= prep_evs + seq![Event::ListDir { path: indir@, entries: Err(e) }]);
                assert(evs.take(prep_evs.len() as int) =~= prep_evs);
                assert(evs.skip(prep_evs.len() as int) =~= seq![
                    Event::ListDir { path: indir@, entries: Err(e) },
                ]);
                assert(val_one_trace(*v, langs@, proj_dir@, indir@, evs, Err(e)));
            }
            return Err(e);
        },
    };
    let ghost lbase = io.log();
    proof {
        assert(lbase.skip(base.len() as int) =~= prep_evs + seq![
            Event::ListDir { path: indir@, entries: Ok(files.deep_view()) },
        ]);
    }
    let mut i: usize = 0;
    while i < files.len()
        invariant
            i <= files@.len(),
            lbase.is_prefix_of(io.log()),
            steps_ok(
                files.deep_view().take(i as int),
                val_file_seg(cd@, outpath@, langs@[li as int].run.deep_view(), indir@, v.path@),
                io.log().skip(lbase.len() as int),
            ),
        decreases files@.len() - i,
    {
        let ghost pre = io.log();
        let r1 = val_file(io, &cd, &outpath, &langs[li].run, indir, &v.path, &files[i]);
        let ghost seg = io.log().skip(pre.len() as int);
        proof {
            lemma_prefix_skip_concat(lbase, pre, io.log());
        }
        match r1 {
            Err(e) => {
                proof {
                    lemma_steps_fail(
                        files.deep_view(),
                        val_file_seg(cd@, outpath@, langs@[li as int].run.deep_view(), indir@, v.path@),
                        pre.skip(lbase.len() as int),
                        i as int,
                        seg,
                        r1,
                    );
                    lemma_prefix_skip_concat(base, lbase, io.log());
                    let evs = io.log().skip(base.len() as int);
                    assert(evs =~= prep_evs + seq![
                        Event::ListDir { path: indir@, entries: Ok(files.deep_view()) },
                    ] + io.log().skip(lbase.len() as int));
                    assert(evs.take(prep_evs.len() as int) =~= prep_evs);
                    assert(evs.skip(prep_evs.len() as int)[0] == Event::ListDir {
                        path: indir@,
                        entries: Ok(files.deep_view()),
                    });
                    assert(evs.skip(prep_evs.len() as int).skip(1) =~= io.log().skip(
                        lbase.len() as int,
                    ));
                    assert(validate_run_trace(
                        evs.skip(prep_evs.len() as int),
                        cd@,
                        outpath@,
                        langs@[li as int].run.deep_view(),
                        indir@,
                        v.path@,
                        r1,
                    ));
                    assert(val_one_trace(*v, langs@, proj_dir@, indir@, evs, r1));
                }
                return Err(e);
            },
            Ok(_) => {
                proof {
                    lemma_steps_ok_snoc(
                        files.deep_view().take(i as int),
                        val_file_seg(cd@, outpath@, langs@[li as int].run.deep_view(), indir@, v.path@),
                        pre.skip(lbase.len() as int),
                        files.deep_view()[i as int],
                        seg,
                        r1,
                    );
                    assert(files.deep_view().take(i as int).push(files.deep_view()[i as int])
                        =~= files.deep_view().take(i + 1 as int));
                }
            },
        }
        i = i + 1;
    }
    proof {
        assert(files.deep_view().take(files.deep_view().len() as int) =~= files.deep_view());
        lemma_steps_ok_to_trace(
            files.deep_view(),
            val_file_seg(cd@, outpath@, langs@[li as int].run.deep_view(), indir@, v.path@),
            io.log().skip(lbase.len() as int),
        );
        lemma_prefix_skip_concat(base, lbase, io.log());
        let evs = io.log().skip(base.len() as int);
        assert(evs =~= prep_evs + seq![
            Event::ListDir { path: indir@, entries: Ok(files.deep_view()) },
        ] + io.log().skip(lbase.len() as int));
        assert(evs.take(prep_evs.len() as int) =~= prep_evs);
        assert(evs.skip(prep_evs.len() as int)[0] == Event::ListDir {
            path: indir@,
            entries: Ok(files.deep_view()),
        });
        assert(evs.skip(prep_evs.len() as int).skip(1) =~= io.log().skip(lbase.len() as int));
        assert(validate_run_trace(
            evs.skip(prep_evs.len() as int),
            cd@,
            outpath@,
            langs@[li as int].run.deep_view(),
            indir@,
            v.path@,
            Ok(()),
        ));
        assert(val_one_trace(*v, langs@, proj_dir@, indir@, evs, Ok(())));
    }
    Ok(())
}

/// The first solution flagged as the reference stands at index `i`.
pub open spec fn is_first_ref(sols: Seq<SolutionConfig>, i: int) -> bool {
    &&& 0 <= i < sols.len()
    &&& sols[i].is_reference_solution
    &&& forall|j: int| 0 <= j < i ==> !(#[trigger] sols[j]).is_reference_solution
}

/// Index of the first reference solution, or the number of solutions when
/// none is flagged.
pub open spec fn first_ref_index(sols: Seq<SolutionConfig>) -> int
    decreases sols.len(),
{
    if sols.len() == 0 {
        0
    } else if sols[0].is_reference_solution {
        0
    } else {
        1 + first_ref_index(sols.skip(1))
    }
}

/// A first reference stands exactly at [`first_ref_index`].
pub proof fn lemma_first_ref_index_unique(sols: Seq<SolutionConfig>, i: int)
    requires
        is_first_ref(sols, i),
    ensures
        first_ref_index(sols) == i,
    decreases i,
{
    if i > 0 {
        assert(!sols[0].is_reference_solution);
        assert(sols.skip(1)[i - 1] == sols[i]);
        assert forall|j: int| 0 <= j < i - 1 implies !(#[trigger] sols.skip(1)[j])
            .is_reference_solution by {
            assert(sols.skip(1)[j] == sols[j + 1]);
        }
        lemma_first_ref_index_unique(sols.skip(1), i - 1);
    }
}

/// Without any flagged solution the reference count is zero.
pub proof fn lemma_no_ref_count(sols: Seq<SolutionConfig>)
    requires
        forall|j: int| 0 <= j < sols.len() ==> !(#[trigger] sols[j]).is_reference_solution,
    ensures
        ref_count(sols) == 0,
    decreases sols.len(),
{
    if sols.len() > 0 {
        lemma_no_ref_count(sols.drop_last());
    }
}

/// Finds the first solution flagged as the reference solution.
pub fn find_reference(sols: &Vec<SolutionConfig>) -> (r: Option<usize>)
    ensures
        match r {
            Some(i) => is_first_ref(sols@, i as int),
            None => forall|j: int|
                0 <= j < sols@.len() ==> !(#[trigger] sols@[j]).is_reference_solution,
        },
{
    let mut i: usize = 0;
    while i < sols.len()
        invariant
            i <= sols@.len(),
            forall|j: int| 0 <= j < i ==> !(#[trigger] sols@[j]).is_reference_solution,
        decreases sols@.len() - i,
    {
        if sols[i].is_reference_solution {
            return Some(i);
        }
        i = i + 1;
    }
    None
}

/// One input file's reference-output generation as a loop segment: the
/// reference solution runs on the input file and its captured output is
/// written to the matching path under the output directory.
pub open spec fn refgen_file_seg(
    cd: Seq<char>,
    outpath: Seq<char>,
    run: Seq<Seq<char>>,
    indir: Seq<char>,
    outdir: Seq<char>,
) -> spec_fn(Seq<char>, Seq<Event>, Result<(), Error>) -> bool {
    |f: Seq<char>, evs: Seq<Event>, r: Result<(), Error>| run_pipe_trace(
        evs,
        cd,
        outpath,
        run,
        path_join_spec(indir, f),
        path_join_spec(outdir, f),
        r,
    )
}

/// The events and result of running the compiled reference solution over
/// the input directory: list the inputs, then pipe each one through it in
/// order, writing the outputs.
pub open spec fn refgen_run_trace(
    evs: Seq<Event>,
    cd: Seq<char>,
    outpath: Seq<char>,
    run: Seq<Seq<char>>,
    indir: Seq<char>,
    outdir: Seq<char>,
    r: Result<(), Error>,
) -> bool {
    &&& evs.len() >= 1
    &&& evs[0] matches Event::ListDir { path: lpath, entries }
    &&& lpath == indir
    &&& match entries {
        Err(e) => evs.len() == 1 && r == Err::<(), Error>(e),
        Ok(files) => steps_trace(
            files,
            refgen_file_seg(cd, outpath, run, indir, outdir),
            evs.skip(1),
            r,
        ),
    }
}

/// The events and result of processing the reference solution: prepare it,
/// then generate one output per input file.
pub open spec fn refgen_sol_trace(
    sol: SolutionConfig,
    langs: Seq<LanguageConfig>,
    proj: Seq<char>,
    indir: Seq<char>,
    outdir: Seq<char>,
    evs: Seq<Event>,
    r: Result<(), Error>,
) -> bool {
    exists|k: int, r0: Result<(String, usize, String), Error>|
        {
            &&& 0 <= k <= evs.len()
            &&& #[trigger] prep_trace(sol.path@, sol.language_name@, langs, proj, evs.take(k), r0)
            &&& match r0 {
                Err(e) => evs.len() == k && r == Err::<(), Error>(e),
                Ok(t) => refgen_run_trace(
                    evs.skip(k),
                    t.0@,
                    t.2@,
                    langs[first_lang_index(langs, sol.language_name@)].run.deep_view(),
                    indir,
                    outdir,
                    r,
                ),
            }
        }
}

/// The events and result of the `reference-generate` operation: read the
/// manifest, require exactly one reference solution (aborting with the count
/// found otherwise), clear the output directory, and run the reference
/// solution over every input file.
pub open spec fn refgen_trace(evs: Seq<Event>, proj: Seq<char>, r: Result<(), Error>) -> bool {
    &&& evs.len() >= 1
    &&& evs[0] matches Event::ReadConfig { proj: cpath, loaded }
    &&& cpath == config_file_of(proj)
    &&& match loaded {
        Err(e) => evs.len() == 1 && r == Err::<(), Error>(e),
        Ok(c) => {
            if ref_count(c.solutions@) != 1 {
                &&& evs.len() == 1
                &&& r matches Err(e)
                &&& e matches Error::ConfInvalid { description }
                &&& description@ == ref_count_not_one_msg(ref_count(c.solutions@))
            } else {
                let indir = path_join_spec(proj, c.testcase_config.indir@);
                let outdir = path_join_spec(proj, c.testcase_config.outdir@);
                &&& evs.len() >= 2
                &&& evs[1] matches Event::RemoveDirAll { path: rpath, result: rres }
                &&& rpath == outdir
                &&& match rres {
                    Err(e) => evs.len() == 2 && r == Err::<(), Error>(e),
                    Ok(_) => refgen_sol_trace(
                        c.solutions@[first_ref_index(c.solutions@)],
                        c.languages@,
                        proj,
                        indir,
                        outdir,
                        evs.skip(2),
                        r,
                    ),
                }
            }
        },
    }
}

/// The events and verdict of judging one input file: run the solution with
/// the file on its standard input, then classify the result against the
/// matching expected-output file.
pub open spec fn test_file_trace(
    cd: Seq<char>,
    outpath: Seq<char>,
    run: Seq<Seq<char>>,
    indir: Seq<char>,
    outdir: Seq<char>,
    f: Seq<char>,
    evs: Seq<Event>,
    rv: Result<Verdict, Error>,
) -> bool {
    exists|k: int, r0: Result<Vec<u8>, RunFailure>|
        {
            &&& 0 <= k <= evs.len()
            &&& #[trigger] run_with_input_trace(
                evs.take(k),
                cd,
                outpath,
                run,
                path_join_spec(indir, f),
                r0,
            )
            &&& get_verdict_trace(evs.skip(k), run_result_view(r0), path_join_spec(outdir, f), rv)
        }
}

/// The events and result of judging a list of input files while folding the
/// worst verdict so far: every file is judged even after a bad verdict, and
/// after the last file the accumulated verdict is compared with the
/// declared expected verdict; a mismatch is the error, with both verdicts
/// named.
pub open spec fn test_files_trace(
    files: Seq<Seq<char>>,
    cd: Seq<char>,
    outpath: Seq<char>,
    run: Seq<Seq<char>>,
    indir: Seq<char>,
    outdir: Seq<char>,
    evs: Seq<Event>,
    expected: Verdict,
    sofar: Verdict,
    r: Result<(), Error>,
) -> bool
    decreases files.len(),
{
    if files.len() == 0 {
        &&& evs.len() == 0
        &&& r == (if sofar == expected {
            Ok::<(), Error>(())
        } else {
            Err::<(), Error>(Error::VerdictMismatch { expected, actual: sofar })
        })
    } else {
        exists|k: int, rv: Result<Verdict, Error>|
            {
                &&& 0 <= k <= evs.len()
                &&& #[trigger] test_file_trace(cd, outpath, run, indir, outdir, files[0], evs.take(k), rv)
                &&& match rv {
                    Err(e) => evs.len() == k && r == Err::<(), Error>(e),
                    Ok(v) => test_files_trace(
                        files.skip(1),
                        cd,
                        outpath,
                        run,
                        indir,
                        outdir,
                        evs.skip(k),
                        expected,
                        worst_of(sofar, v),
                        r,
                    ),
                }
            }
    }
}

/// Holds when judging a prefix of files produced the events `evs` and the
/// per-file verdicts `vs`, with no abort.
pub open spec fn test_files_ok(
    files: Seq<Seq<char>>,
    cd: Seq<char>,
    outpath: Seq<char>,
    run: Seq<Seq<char>>,
    indir: Seq<char>,
    outdir: Seq<char>,
    evs: Seq<Event>,
    vs: Seq<Verdict>,
) -> bool
    decreases files.len(),
{
    if files.len() == 0 {
        evs.len() == 0 && vs.len() == 0
    } else {
        exists|k: int|
            {
                &&& 0 <= k <= evs.len()
                &&& vs.len() >= 1
                &&& #[trigger] test_file_trace(
                    cd,
                    outpath,
                    run,
                    indir,
                    outdir,
                    files[0],
                    evs.take(k),
                    Ok(vs[0]),
                )
                &&& test_files_ok(files.skip(1), cd, outpath, run, indir, outdir, evs.skip(k), vs.skip(1))
            }
    }
}

/// Judging one more file extends the per-file verdicts.
pub proof fn lemma_test_files_snoc(
    files: Seq<Seq<char>>,
    cd: Seq<char>,
    outpath: Seq<char>,
    run: Seq<Seq<char>>,
    indir: Seq<char>,
    outdir: Seq<char>,
    evs: Seq<Event>,
    vs: Seq<Verdict>,
    f: Seq<char>,
    seg_evs: Seq<Event>,
    v: Verdict,
)
    requires
        test_files_ok(files, cd, outpath, run, indir, outdir, evs, vs),
        test_file_trace(cd, outpath, run, indir, outdir, f, seg_evs, Ok(v)),
    ensures
        test_files_ok(files.push(f), cd, outpath, run, indir, outdir, evs + seg_evs, vs.push(v)),
    decreases files.len(),
{
    if files.len() == 0 {
        let all = evs + seg_evs;
        let k = seg_evs.len() as int;
        assert(all.take(k) =~= seg_evs);
        assert(all.skip(k) =~= Seq::<Event>::empty());
        assert(files.push(f)[0] == f);
        assert(files.push(f).skip(1) =~= Seq::<Seq<char>>::empty());
        assert(vs.push(v)[0] == v);
        assert(vs.push(v).skip(1) =~= Seq::<Verdict>::empty());
        assert(test_file_trace(cd, outpath, run, indir, outdir, files.push(f)[0], all.take(k),
            Ok(vs.push(v)[0])));
        assert(test_files_ok(files.push(f).skip(1), cd, outpath, run, indir, outdir, all.skip(k),
            vs.push(v).skip(1)));
    } else {
        let k0 = choose|k: int|
            {
                &&& 0 <= k <= evs.len()
                &&& vs.len() >= 1
                &&& #[trigger] test_file_trace(cd, outpath, run, indir, outdir, files[0], evs.take(k), Ok(vs[0]))
                &&& test_files_ok(files.skip(1), cd, outpath, run, indir, outdir, evs.skip(k), vs.skip(1))
            };
        lemma_test_files_snoc(files.skip(1), cd, outpath, run, indir, outdir, evs.skip(k0),
            vs.skip(1), f, seg_evs, v);
        let all = evs + seg_evs;
        assert(files.push(f).skip(1) =~= files.skip(1).push(f));
        assert(vs.push(v).skip(1) =~= vs.skip(1).push(v));
        assert(all.take(k0) =~= evs.take(k0));
        assert(all.skip(k0) =~= evs.skip(k0) + seg_evs);
        assert(files.push(f)[0] == files[0]);
        assert(vs.push(v)[0] == vs[0]);
        assert(test_file_trace(cd, outpath, run, indir, outdir, files.push(f)[0], all.take(k0),
            Ok(vs.push(v)[0])));
        assert(test_files_ok(files.push(f).skip(1), cd, outpath, run, indir, outdir, all.skip(k0),
            vs.push(v).skip(1)));
    }
}

/// An abort while judging a file ends the whole per-file trace with that
/// error, whatever was accumulated before.
pub proof fn lemma_test_files_fail(
    files: Seq<Seq<char>>,
    cd: Seq<char>,
    outpath: Seq<char>,
    run: Seq<Seq<char>>,
    indir: Seq<char>,
    outdir: Seq<char>,
    evs: Seq<Event>,
    vs: Seq<Verdict>,
    i: int,
    seg_evs: Seq<Event>,
    e: Error,
    expected: Verdict,
    sofar: Verdict,
)
    requires
        0 <= i < files.len(),
        test_files_ok(files.take(i), cd, outpath, run, indir, outdir, evs, vs),
        test_file_trace(cd, outpath, run, indir, outdir, files[i], seg_evs, Err(e)),
        vs.len() == i,
    ensures
        test_files_trace(files, cd, outpath, run, indir, outdir, evs + seg_evs, expected, sofar,
            Err(e)),
    decreases i,
{
    if i == 0 {
        assert(files.take(0).len() == 0);
        assert(evs.len() == 0);
        assert(evs + seg_evs =~= seg_evs);
        assert(seg_evs.take(seg_evs.len() as int) =~= seg_evs);
        assert(test_file_trace(cd, outpath, run, indir, outdir, files[0], (evs + seg_evs).take(
            seg_evs.len() as int,
        ), Err(e)));
    } else {
        let pre = files.take(i);
        let k0 = choose|k: int|
            {
                &&& 0 <= k <= evs.len()
                &&& vs.len() >= 1
                &&& #[trigger] test_file_trace(cd, outpath, run, indir, outdir, pre[0], evs.take(k), Ok(vs[0]))
                &&& test_files_ok(pre.skip(1), cd, outpath, run, indir, outdir, evs.skip(k), vs.skip(1))
            };
        assert(pre[0] == files[0]);
        assert(pre.skip(1) =~= files.skip(1).take(i - 1));
        assert(files.skip(1)[i - 1] == files[i]);
        lemma_test_files_fail(files.skip(1), cd, outpath, run, indir, outdir, evs.skip(k0),
            vs.skip(1), i - 1, seg_evs, e, expected, worst_of(sofar, vs[0]));
        let all = evs + seg_evs;
        assert(all.take(k0) =~= evs.take(k0));
        assert(all.skip(k0) =~= evs.skip(k0) + seg_evs);
        assert(test_file_trace(cd, outpath, run, indir, outdir, files[0], all.take(k0), Ok(vs[0])));
        assert(test_files_trace(files.skip(1), cd, outpath, run, indir, outdir, all.skip(k0),
            expected, worst_of(sofar, vs[0]), Err(e)));
    }
}

/// A completed per-file judging loop yields the accumulated aggregate: the
/// operation succeeds exactly when that aggregate equals the expected
/// verdict, and otherwise reports the mismatch with both verdicts.
pub proof fn lemma_test_files_complete(
    files: Seq<Seq<char>>,
    cd: Seq<char>,
    outpath: Seq<char>,
    run: Seq<Seq<char>>,
    indir: Seq<char>,
    outdir: Seq<char>,
    evs: Seq<Event>,
    vs: Seq<Verdict>,
    expected: Verdict,
    sofar: Verdict,
)
    requires
        test_files_ok(files, cd, outpath, run, indir, outdir, evs, vs),
    ensures
        test_files_trace(files, cd, outpath, run, indir, outdir, evs, expected, sofar,
            if agg_from(sofar, vs) == expected {
                Ok::<(), Error>(())
            } else {
                Err::<(), Error>(Error::VerdictMismatch { expected, actual: agg_from(sofar, vs) })
            }),
    decreases files.len(),
{
    if files.len() == 0 {
        assert(vs.len() == 0);
        assert(agg_from(sofar, vs) == sofar);
    } else {
        let k0 = choose|k: int|
            {
                &&& 0 <= k <= evs.len()
                &&& vs.len() >= 1
                &&& #[trigger] test_file_trace(cd, outpath, run, indir, outdir, files[0], evs.take(k), Ok(vs[0]))
                &&& test_files_ok(files.skip(1), cd, outpath, run, indir, outdir, evs.skip(k), vs.skip(1))
            };
        lemma_test_files_complete(files.skip(1), cd, outpath, run, indir, outdir, evs.skip(k0),
            vs.skip(1), expected, worst_of(sofar, vs[0]));
        assert(agg_from(sofar, vs) == agg_from(worst_of(sofar, vs[0]), vs.skip(1)));
    }
}

/// The events and result of judging one compiled solution over the input
/// directory: list the inputs, judge each, and compare the aggregate with
/// the expected verdict.
pub open spec fn test_run_trace(
    evs: Seq<Event>,
    cd: Seq<char>,
    outpath: Seq<char>,
    run: Seq<Seq<char>>,
    indir: Seq<char>,
    outdir: Seq<char>,
    expected: Verdict,
    r: Result<(), Error>,
) -> bool {
    &&& evs.len() >= 1
    &&& evs[0] matches Event::ListDir { path: lpath, entries }
    &&& lpath == indir
    &&& match entries {
        Err(e) => evs.len() == 1 && r == Err::<(), Error>(e),
        Ok(files) => test_files_trace(
            files,
            cd,
            outpath,
            run,
            indir,
            outdir,
            evs.skip(1),
            expected,
            Verdict::AC,
            r,
        ),
    }
}

/// The events and result of judging one solution: prepare it, then judge it
/// against every input file.
pub open spec fn test_sol_trace(
    sol: SolutionConfig,
    langs: Seq<LanguageConfig>,
    proj: Seq<char>,
    indir: Seq<char>,
    outdir: Seq<char>,
    evs: Seq<Event>,
    r: Result<(), Error>,
) -> bool {
    exists|k: int, r0: Result<(String, usize, String), Error>|
        {
            &&& 0 <= k <= evs.len()
            &&& #[trigger] prep_trace(sol.path@, sol.language_name@, langs, proj, evs.take(k), r0)
            &&& match r0 {
                Err(e) => evs.len() == k && r == Err::<(), Error>(e),
                Ok(t) => test_run_trace(
                    evs.skip(k),
                    t.0@,
                    t.2@,
                    langs[first_lang_index(langs, sol.language_name@)].run.deep_view(),
                    indir,
                    outdir,
                    sol.expected_verdict,
                    r,
                ),
            }
        }
}

/// One solution's judging as a loop segment.
pub open spec fn test_sol_seg(
    langs: Seq<LanguageConfig>,
    proj: Seq<char>,
    indir: Seq<char>,
    outdir: Seq<char>,
) -> spec_fn(SolutionConfig, Seq<Event>, Result<(), Error>) -> bool {
    |sol: SolutionConfig, evs: Seq<Event>, r: Result<(), Error>| test_sol_trace(
        sol,
        langs,
        proj,
        indir,
        outdir,
        evs,
        r,
    )
}

/// The events and result of the `test` operation: read the manifest, then
/// judge every solution in order, stopping at the first solution whose
/// aggregate verdict differs from its expected verdict.
pub open spec fn test_trace(evs: Seq<Event>, proj: Seq<char>, r: Result<(), Error>) -> bool {
    &&& evs.len() >= 1
    &&& evs[0] matches Event::ReadConfig { proj: cpath, loaded }
    &&& cpath == config_file_of(proj)
    &&& match loaded {
        Err(e) => evs.len() == 1 && r == Err::<(), Error>(e),
        Ok(c) => steps_trace(
            c.solutions@,
            test_sol_seg(
                c.languages@,
                proj,
                path_join_spec(proj, c.testcase_config.indir@),
                path_join_spec(proj, c.testcase_config.outdir@),
            ),
            evs.skip(1),
            r,
        ),
    }
}

/// Judges one input file: run the solution on it and classify the result
/// against the expected-output file.
#[verifier::rlimit(60)]
#[verifier::spinoff_prover]
fn test_file<T: ProjectExt>(
    io: &mut T,
    cd: &String,
    outpath: &String,
    run: &Vec<String>,
    indir: &String,
    outdir: &String,
    f: &String,
) -> (rv: Result<Verdict, Error>)
    ensures
        old(io).log().is_prefix_of(final(io).log()),
        test_file_trace(
            cd@,
            outpath@,
            run.deep_view(),
            indir@,
            outdir@,
            f@,
            final(io).log().skip(old(io).log().len() as int),
            rv,
        ),
{
    let ghost base = io.log();
    let infile = path_join(indir.as_str(), f.as_str());
    let outfile = path_join(outdir.as_str(), f.as_str());
    let rr = io.run_with_input(cd.as_str(), outpath.as_str(), run, infile.as_str());
    let ghost mid = io.log();
    let ghost run_evs = mid.skip(base.len() as int);
    let rv = io.get_verdict(&rr, outfile.as_str());
    proof {
        lemma_prefix_skip_concat(base, mid, io.log());
        let evs = io.log().skip(base.len() as int);
        let k = run_evs.len() as int;
        assert(evs =~= run_evs + io.log().skip(mid.len() as int));
        assert(evs.take(k) =~= run_evs);
        assert(evs.skip(k) =~= io.log().skip(mid.len() as int));
        assert(run_with_input_trace(evs.take(k), cd@, outpath@, run.deep_view(),
            path_join_spec(indir@, f@), rr));
        assert(get_verdict_trace(evs.skip(k), run_result_view(rr), path_join_spec(outdir@, f@), rv));
        assert(test_file_trace(cd@, outpath@, run.deep_view(), indir@, outdir@, f@, evs, rv));
    }
    rv
}

/// Judges one solution: prepare it, list the input files, judge each one
/// while accumulating the worst verdict, and compare the aggregate with the
/// declared expected verdict.
#[verifier::loop_isolation(false)]
#[verifier::rlimit(100)]
#[verifier::spinoff_prover]
fn test_one<T: ProjectExt>(
    io: &mut T,
    proj_dir: &str,
    sol: &SolutionConfig,
    langs: &Vec<LanguageConfig>,
    indir: &String,
    outdir: &String,
) -> (r: Result<(), Error>)
    ensures
        old(io).log().is_prefix_of(final(io).log()),
        test_sol_trace(
            *sol,
            langs@,
            proj_dir@,
            indir@,
            outdir@,
            final(io).log().skip(old(io).log().len() as int),
            r,
        ),
{
    let ghost base = io.log();
    let prep = prep_entity(io, proj_dir, &sol.path, &sol.language_name, langs);
    let ghost prep_evs = io.log().skip(base.len() as int);
    let (cd, li, outpath) = match prep {
        Ok(t) => t,
        Err(e) => {
            proof {
                assert(prep_evs.take(prep_evs.len() as int) =~= prep_evs);
                assert(test_sol_trace(*sol, langs@, proj_dir@, indir@, outdir@, prep_evs, Err(e)));
            }
            return Err(e);
        },
    };
    let files = match io.list_dir(indir.as_str()) {
        Ok(fs) => fs,
        Err(e) => {
            proof {
                lemma_prefix_skip_concat(base, base + prep_evs, io.log());
                let evs = io.log().skip(base.len() as int);
                assert(evs =~= prep_evs + seq![Event::ListDir { path: indir@, entries: Err(e) }]);
                assert(evs.take(prep_evs.len() as int) =~= prep_evs);
                assert(evs.skip(prep_evs.len() as int) =~= seq![
                    Event::ListDir { path: indir@, entries: Err(e) },
                ]);
                assert(test_sol_trace(*sol, langs@, proj_dir@, indir@, outdir@, evs, Err(e)));
            }
            return Err(e);
        },
    };
    let ghost lbase = io.log();
    proof {
        assert(lbase.skip(base.len() as int) =~= prep_evs + seq![
            Event::ListDir { path: indir@, entries: Ok(files.deep_view()) },
        ]);
    }
    let mut agg = Verdict::AC;
    let ghost mut vs: Seq<Verdict> = Seq::empty();
    let mut i: usize = 0;
    while i < files.len()
        invariant
            i <= files@.len(),
            lbase.is_prefix_of(io.log()),
            vs.len() == i,
            agg == aggregate_of(vs),
            test_files_ok(
                files.deep_view().take(i as int),
                cd@,
                outpath@,
                langs@[li as int].run.deep_view(),
                indir@,
                outdir@,
                io.log().skip(lbase.len() as int),
                vs,
            ),
        decreases files@.len() - i,
    {
        let ghost pre = io.log();
        let rv = test_file(io, &cd, &outpath, &langs[li].run, indir, outdir, &files[i]);
        let ghost seg = io.log().skip(pre.len() as int);
        proof {
            lemma_prefix_skip_concat(lbase, pre, io.log());
        }
        match rv {
            Err(e) => {
                proof {
                    lemma_test_files_fail(
                        files.deep_view(),
                        cd@,
                        outpath@,
                        langs@[li as int].run.deep_view(),
                        indir@,
                        outdir@,
                        pre.skip(lbase.len() as int),
                        vs,
                        i as int,
                        seg,
                        e,
                        sol.expected_verdict,
                        Verdict::AC,
                    );
                    lemma_prefix_skip_concat(base, lbase, io.log());
                    let evs = io.log().skip(base.len() as int);
                    assert(evs =~= prep_evs + seq![
                        Event::ListDir { path: indir@, entries: Ok(files.deep_view()) },
                    ] + io.log().skip(lbase.len() as int));
                    assert(evs.take(prep_evs.len() as int) =~= prep_evs);
                    assert(evs.skip(prep_evs.len() as int)[0] == Event::ListDir {
                        path: indir@,
                        entries: Ok(files.deep_view()),
                    });
                    assert(evs.skip(prep_evs.len() as int).skip(1) =~= io.log().skip(
                        lbase.len() as int,
                    ));
                    assert(test_run_trace(evs.skip(prep_evs.len() as int), cd@, outpath@,
                        langs@[li as int].run.deep_view(), indir@, outdir@, sol.expected_verdict,
                        Err(e)));
                    assert(test_sol_trace(*sol, langs@, proj_dir@, indir@, outdir@, evs, Err(e)));
                }
                return Err(e);
            },
            Ok(v) => {
                agg = agg.worst(v);
                proof {
                    lemma_test_files_snoc(
                        files.deep_view().take(i as int),
                        cd@,
                        outpath@,
                        langs@[li as int].run.deep_view(),
                        indir@,
                        outdir@,
                        pre.skip(lbase.len() as int),
                        vs,
                        files.deep_view()[i as int],
                        seg,
                        v,
                    );
                    assert(files.deep_view().take(i as int).push(files.deep_view()[i as int])
                        =~= files.deep_view().take(i + 1 as int));
                    let vs2 = vs.push(v);
                    assert(vs2.drop_last() =~= vs);
                    assert(vs2.last() == v);
                    assert(aggregate_of(vs2) == worst_of(aggregate_of(vs), v));
                    vs = vs2;
                }
            },
        }
        i = i + 1;
    }
    proof {
        assert(files.deep_view().take(files.deep_view().len() as int) =~= files.deep_view());
        lemma_test_files_complete(
            files.deep_view(),
            cd@,
            outpath@,
            langs@[li as int].run.deep_view(),
            indir@,
            outdir@,
            io.log().skip(lbase.len() as int),
            vs,
            sol.expected_verdict,
            Verdict::AC,
        );
        crate::entity::sol::lemma_agg_from_unfolds(Verdict::AC, vs);
        assert(agg_from(Verdict::AC, vs) == aggregate_of(vs));
    }
    let r: Result<(), Error> = if agg != sol.expected_verdict {
        Err(Error::VerdictMismatch { expected: sol.expected_verdict, actual: agg })
    } else {
        Ok(())
    };
    proof {
        lemma_prefix_skip_concat(base, lbase, io.log());
        let evs = io.log().skip(base.len() as int);
        assert(evs =~= prep_evs + seq![
            Event::ListDir { path: indir@, entries: Ok(files.deep_view()) },
        ] + io.log().skip(lbase.len() as int));
        assert(evs.take(prep_evs.len() as int) =~= prep_evs);
        assert(evs.skip(prep_evs.len() as int)[0] == Event::ListDir {
            path: indir@,
            entries: Ok(files.deep_view()),
        });
        assert(evs.skip(prep_evs.len() as int).skip(1) =~= io.log().skip(lbase.len() as int));
        assert(test_files_trace(files.deep_view(), cd@, outpath@,
            langs@[li as int].run.deep_view(), indir@, outdir@,
            io.log().skip(lbase.len() as int), sol.expected_verdict, Verdict::AC, r));
        assert(test_run_trace(evs.skip(prep_evs.len() as int), cd@, outpath@,
            langs@[li as int].run.deep_view(), indir@, outdir@, sol.expected_verdict, r));
        assert(test_sol_trace(*sol, langs@, proj_dir@, indir@, outdir@, evs, r));
    }
    r
}

/// The pipeline engine: one fail-fast operation per subcommand, each walking
/// the manifest and driving compilations and runs through the capabilities.
pub trait Project: IoUtil {
    /// Checks that the manifest satisfies the reference-solution invariant.
    fn check(&mut self, proj_dir: &str) -> (r: Result<(), Error>)
        ensures
            old(self).log().is_prefix_of(final(self).log()),
            check_trace(final(self).log().skip(old(self).log().len() as int), proj_dir@, r),
    ;

    /// Generates the input files: clears the input directory, then compiles
    /// and runs every generator.
    fn gen(&mut self, proj_dir: &str) -> (r: Result<(), Error>)
        ensures
            old(self).log().is_prefix_of(final(self).log()),
            gen_trace(final(self).log().skip(old(self).log().len() as int), proj_dir@, r),
    ;

    /// Generates the expected-output files: requires exactly one reference
    /// solution, clears the output directory, and pipes every input file
    /// through the reference solution.
    fn refgen(&mut self, proj_dir: &str) -> (r: Result<(), Error>)
        ensures
            old(self).log().is_prefix_of(final(self).log()),
            refgen_trace(final(self).log().skip(old(self).log().len() as int), proj_dir@, r),
    ;

    /// Judges every solution against every input file, aggregating the worst
    /// verdict per solution and aborting on the first solution whose
    /// aggregate differs from its declared expected verdict.
    fn test(&mut self, proj_dir: &str) -> (r: Result<(), Error>)
        ensures
            old(self).log().is_prefix_of(final(self).log()),
            test_trace(final(self).log().skip(old(self).log().len() as int), proj_dir@, r),
    ;

    /// Validates every input file with every declared validator; with no
    /// validator declared the operation aborts before compiling anything.
    fn val(&mut self, proj_dir: &str) -> (r: Result<(), Error>)
        ensures
            old(self).log().is_prefix_of(final(self).log()),
            val_trace(final(self).log().skip(old(self).log().len() as int), proj_dir@, r),
    ;
}

impl<T: ProjectExt> Project for T {
    fn check(&mut self, proj_dir: &str) -> (r: Result<(), Error>) {
        let ghost base = self.log();
        let c = match self.read_config(proj_dir) {
            Ok(c) => c,
            Err(e) => {
                proof {
                    assert(self.log().skip(base.len() as int) =~= seq![
                        Event::ReadConfig { proj: config_file_of(proj_dir@), loaded: Err(e) },
                    ]);
                }
                return Err(e);
            },
        };
        let r = check_reference_solution(&c);
        proof {
            assert(self.log().skip(base.len() as int) =~= seq![
                Event::ReadConfig { proj: config_file_of(proj_dir@), loaded: Ok(c) },
            ]);
        }
        r
    }

    #[verifier::loop_isolation(false)]
    fn gen(&mut self, proj_dir: &str) -> (r: Result<(), Error>) {
        let ghost base = self.log();
        let c = match self.read_config(proj_dir) {
            Ok(c) => c,
            Err(e) => {
                proof {
                    assert(self.log().skip(base.len() as int) =~= seq![
                        Event::ReadConfig { proj: config_file_of(proj_dir@), loaded: Err(e) },
                    ]);
                }
                return Err(e);
            },
        };
        let indir = path_join(proj_dir, c.testcase_config.indir.as_str());
        let rm = self.remove_dir_all(indir.as_str());
        match rm {
            Err(e) => {
                proof {
                    assert(self.log().skip(base.len() as int) =~= seq![
                        Event::ReadConfig { proj: config_file_of(proj_dir@), loaded: Ok(c) },
                        Event::RemoveDirAll { path: indir@, result: Err(e) },
                    ]);
                }
                return Err(e);
            },
            Ok(_) => {},
        }
        let mk = self.mkdir_p(indir.as_str());
        match mk {
            Err(e) => {
                proof {
                    assert(self.log().skip(base.len() as int) =~= seq![
                        Event::ReadConfig { proj: config_file_of(proj_dir@), loaded: Ok(c) },
                        Event::RemoveDirAll { path: indir@, result: rm },
                        Event::Mkdir { path: indir@, result: Err(e) },
                    ]);
                }
                return Err(e);
            },
            Ok(_) => {},
        }
        let ghost lbase = self.log();
        let ghost first3 = seq![
            Event::ReadConfig { proj: config_file_of(proj_dir@), loaded: Ok(c) },
            Event::RemoveDirAll { path: indir@, result: rm },
            Event::Mkdir { path: indir@, result: mk },
        ];
        proof {
            assert(lbase =~= base + first3);
        }
        let mut i: usize = 0;
        while i < c.generators.len()
            invariant
                i <= c.generators@.len(),
                lbase.is_prefix_of(self.log()),
                steps_ok(
                    c.generators@.take(i as int),
                    gen_seg(c.languages@, proj_dir@),
                    self.log().skip(lbase.len() as int),
                ),
            decreases c.generators@.len() - i,
        {
            let ghost pre = self.log();
            let r1 = gen_one(self, proj_dir, &c.generators[i], &c.languages);
            let ghost seg = self.log().skip(pre.len() as int);
            proof {
                lemma_prefix_skip_concat(lbase, pre, self.log());
            }
            match r1 {
                Err(e) => {
                    proof {
                        lemma_steps_fail(
                            c.generators@,
                            gen_seg(c.languages@, proj_dir@),
                            pre.skip(lbase.len() as int),
                            i as int,
                            seg,
                            r1,
                        );
                        lemma_prefix_skip_concat(base, lbase, self.log());
                        assert(self.log().skip(base.len() as int) =~= first3 + self.log().skip(
                            lbase.len() as int,
                        ));
                        assert(self.log().skip(base.len() as int).skip(3) =~= self.log().skip(
                            lbase.len() as int,
                        ));
                        assert(self.log().skip(base.len() as int)[0] == first3[0]);
                        assert(self.log().skip(base.len() as int)[1] == first3[1]);
                        assert(self.log().skip(base.len() as int)[2] == first3[2]);
                    }
                    return Err(e);
                },
                Ok(_) => {
                    proof {
                        lemma_steps_ok_snoc(
                            c.generators@.take(i as int),
                            gen_seg(c.languages@, proj_dir@),
                            pre.skip(lbase.len() as int),
                            c.generators@[i as int],
                            seg,
                            r1,
                        );
                        assert(c.generators@.take(i as int).push(c.generators@[i as int]) =~= c
                            .generators@.take(i + 1 as int));
                    }
                },
            }
            i = i + 1;
        }
        proof {
            assert(c.generators@.take(c.generators@.len() as int) =~= c.generators@);
            lemma_steps_ok_to_trace(
                c.generators@,
                gen_seg(c.languages@, proj_dir@),
                self.log().skip(lbase.len() as int),
            );
            lemma_prefix_skip_concat(base, lbase, self.log());
            assert(self.log().skip(base.len() as int) =~= first3 + self.log().skip(
                lbase.len() as int,
            ));
            assert(self.log().skip(base.len() as int).skip(3) =~= self.log().skip(
                lbase.len() as int,
            ));
            assert(self.log().skip(base.len() as int)[0] == first3[0]);
            assert(self.log().skip(base.len() as int)[1] == first3[1]);
            assert(self.log().skip(base.len() as int)[2] == first3[2]);
        }
        Ok(())
    }

    #[verifier::loop_isolation(false)]
    #[verifier::rlimit(60)]
    #[verifier::spinoff_prover]
    fn refgen(&mut self, proj_dir: &str) -> (r: Result<(), Error>) {
        let ghost base = self.log();
        let c = match self.read_config(proj_dir) {
            Ok(c) => c,
            Err(e) => {
                proof {
                    assert(self.log().skip(base.len() as int) =~= seq![
                        Event::ReadConfig { proj: config_file_of(proj_dir@), loaded: Err(e) },
                    ]);
                }
                return Err(e);
            },
        };
        let n = count_reference_solutions(&c.solutions);
        if n != 1 {
            let mut description = String::from_str("#reference solutions is not one: ");
            let rendered = u64_to_string(n as u64);
            description.append(rendered.as_str());
            proof {
                assert(self.log().skip(base.len() as int) =~= seq![
                    Event::ReadConfig { proj: config_file_of(proj_dir@), loaded: Ok(c) },
                ]);
            }
            return Err(Error::ConfInvalid { description });
        }
        let indir = path_join(proj_dir, c.testcase_config.indir.as_str());
        let outdir = path_join(proj_dir, c.testcase_config.outdir.as_str());
        let rm = self.remove_dir_all(outdir.as_str());
        match rm {
            Err(e) => {
                proof {
                    assert(self.log().skip(base.len() as int) =~= seq![
                        Event::ReadConfig { proj: config_file_of(proj_dir@), loaded: Ok(c) },
                        Event::RemoveDirAll { path: outdir@, result: Err(e) },
                    ]);
                }
                return Err(e);
            },
            Ok(_) => {},
        }
        let si = match find_reference(&c.solutions) {
            Some(i) => i,
            None => {
                proof {
                    lemma_no_ref_count(c.solutions@);
                    assert(false);
                }
                return Ok(());
            },
        };
        proof {
            lemma_first_ref_index_unique(c.solutions@, si as int);
        }
        let ghost first2 = seq![
            Event::ReadConfig { proj: config_file_of(proj_dir@), loaded: Ok(c) },
            Event::RemoveDirAll { path: outdir@, result: rm },
        ];
        let ghost sbase = self.log();
        proof {
            assert(sbase =~= base + first2);
        }
        let sol = &c.solutions[si];
        let prep = prep_entity(self, proj_dir, &sol.path, &sol.language_name, &c.languages);
        let ghost prep_evs = self.log().skip(sbase.len() as int);
        let (cd, li, outpath) = match prep {
            Ok(t) => t,
            Err(e) => {
                proof {
                    assert(prep_evs.take(prep_evs.len() as int) =~= prep_evs);
                    assert(refgen_sol_trace(c.solutions@[si as int], c.languages@, proj_dir@,
                        indir@, outdir@, prep_evs, Err(e)));
                    lemma_prefix_skip_concat(base, sbase, self.log());
                    assert(self.log().skip(base.len() as int) =~= first2 + prep_evs);
                    assert(self.log().skip(base.len() as int).skip(2) =~= prep_evs);
                    assert(self.log().skip(base.len() as int)[0] == first2[0]);
                    assert(self.log().skip(base.len() as int)[1] == first2[1]);
                }
                return Err(e);
            },
        };
        let files = match self.list_dir(indir.as_str()) {
            Ok(fs) => fs,
            Err(e) => {
                proof {
                    lemma_prefix_skip_concat(sbase, sbase + prep_evs, self.log());
                    let evs2 = self.log().skip(sbase.len() as int);
                    assert(evs2 =~= prep_evs + seq![
                        Event::ListDir { path: indir@, entries: Err(e) },
                    ]);
                    assert(evs2.take(prep_evs.len() as int) =~= prep_evs);
                    assert(evs2.skip(prep_evs.len() as int) =~= seq![
                        Event::ListDir { path: indir@, entries: Err(e) },
                    ]);
                    assert(refgen_sol_trace(c.solutions@[si as int], c.languages@, proj_dir@,
                        indir@, outdir@, evs2, Err(e)));
                    lemma_prefix_skip_concat(base, sbase, self.log());
                    assert(self.log().skip(base.len() as int) =~= first2 + evs2);
                    assert(self.log().skip(base.len() as int).skip(2) =~= evs2);
                    assert(self.log().skip(base.len() as int)[0] == first2[0]);
                    assert(self.log().skip(base.len() as int)[1] == first2[1]);
                }
                return Err(e);
            },
        };
        let ghost lbase = self.log();
        proof {
            assert(lbase.skip(sbase.len() as int) =~= prep_evs + seq![
                Event::ListDir { path: indir@, entries: Ok(files.deep_view()) },
            ]);
        }
        let mut i: usize = 0;
        while i < files.len()
            invariant
                i <= files@.len(),
                lbase.is_prefix_of(self.log()),
                steps_ok(
                    files.deep_view().take(i as int),
                    refgen_file_seg(cd@, outpath@, c.languages@[li as int].run.deep_view(), indir@, outdir@),
                    self.log().skip(lbase.len() as int),
                ),
            decreases files@.len() - i,
        {
            let ghost pre = self.log();
            let infile = path_join(indir.as_str(), files[i].as_str());
            let outfile = path_join(outdir.as_str(), files[i].as_str());
            let r1 = self.run_pipe(cd.as_str(), outpath.as_str(), &c.languages[li].run,
                infile.as_str(), outfile.as_str());
            let ghost seg = self.log().skip(pre.len() as int);
            proof {
                lemma_prefix_skip_concat(lbase, pre, self.log());
            }
            match r1 {
                Err(e) => {
                    proof {
                        lemma_steps_fail(
                            files.deep_view(),
                            refgen_file_seg(cd@, outpath@, c.languages@[li as int].run.deep_view(), indir@, outdir@),
                            pre.skip(lbase.len() as int),
                            i as int,
                            seg,
                            r1,
                        );
                        lemma_prefix_skip_concat(sbase, lbase, self.log());
                        let evs2 = self.log().skip(sbase.len() as int);
                        assert(evs2 =~= prep_evs + seq![
                            Event::ListDir { path: indir@, entries: Ok(files.deep_view()) },
                        ] + self.log().skip(lbase.len() as int));
                        assert(evs2.take(prep_evs.len() as int) =~= prep_evs);
                        assert(evs2.skip(prep_evs.len() as int)[0] == Event::ListDir {
                            path: indir@,
                            entries: Ok(files.deep_view()),
                        });
                        assert(evs2.skip(prep_evs.len() as int).skip(1) =~= self.log().skip(
                            lbase.len() as int,
                        ));
                        assert(refgen_run_trace(evs2.skip(prep_evs.len() as int), cd@, outpath@,
                            c.languages@[li as int].run.deep_view(), indir@, outdir@, r1));
                        assert(refgen_sol_trace(c.solutions@[si as int], c.languages@, proj_dir@,
                            indir@, outdir@, evs2, r1));
                        lemma_prefix_skip_concat(base, sbase, self.log());
                        assert(self.log().skip(base.len() as int) =~= first2 + evs2);
                        assert(self.log().skip(base.len() as int).skip(2) =~= evs2);
                        assert(self.log().skip(base.len() as int)[0] == first2[0]);
                        assert(self.log().skip(base.len() as int)[1] == first2[1]);
                    }
                    return Err(e);
                },
                Ok(_) => {
                    proof {
                        lemma_steps_ok_snoc(
                            files.deep_view().take(i as int),
                            refgen_file_seg(cd@, outpath@, c.languages@[li as int].run.deep_view(), indir@, outdir@),
                            pre.skip(lbase.len() as int),
                            files.deep_view()[i as int],
                            seg,
                            r1,
                        );
                        assert(files.deep_view().take(i as int).push(files.deep_view()[i as int])
                            =~= files.deep_view().take(i + 1 as int));
                    }
                },
            }
            i = i + 1;
        }
        proof {
            assert(files.deep_view().take(files.deep_view().len() as int) =~= files.deep_view());
            lemma_steps_ok_to_trace(
                files.deep_view(),
                refgen_file_seg(cd@, outpath@, c.languages@[li as int].run.deep_view(), indir@, outdir@),
                self.log().skip(lbase.len() as int),
            );
            lemma_prefix_skip_concat(sbase, lbase, self.log());
            let evs2 = self.log().skip(sbase.len() as int);
            assert(evs2 =~= prep_evs + seq![
                Event::ListDir { path: indir@, entries: Ok(files.deep_view()) },
            ] + self.log().skip(lbase.len() as int));
            assert(evs2.take(prep_evs.len() as int) =~= prep_evs);
            assert(evs2.skip(prep_evs.len() as int)[0] == Event::ListDir {
                path: indir@,
                entries: Ok(files.deep_view()),
            });
            assert(evs2.skip(prep_evs.len() as int).skip(1) =~= self.log().skip(lbase.len() as int));
            assert(refgen_run_trace(evs2.skip(prep_evs.len() as int), cd@, outpath@,
                c.languages@[li as int].run.deep_view(), indir@, outdir@, Ok(())));
            assert(refgen_sol_trace(c.solutions@[si as int], c.languages@, proj_dir@,
                indir@, outdir@, evs2, Ok(())));
            lemma_prefix_skip_concat(base, sbase, self.log());
            assert(self.log().skip(base.len() as int) =~= first2 + evs2);
            assert(self.log().skip(base.len() as int).skip(2) =~= evs2);
            assert(self.log().skip(base.len() as int)[0] == first2[0]);
            assert(self.log().skip(base.len() as int)[1] == first2[1]);
        }
        Ok(())
    }

    #[verifier::loop_isolation(false)]
    #[verifier::rlimit(60)]
    #[verifier::spinoff_prover]
    fn test(&mut self, proj_dir: &str) -> (r: Result<(), Error>) {
        let ghost base = self.log();
        let c = match self.read_config(proj_dir) {
            Ok(c) => c,
            Err(e) => {
                proof {
                    assert(self.log().skip(base.len() as int) =~= seq![
                        Event::ReadConfig { proj: config_file_of(proj_dir@), loaded: Err(e) },
                    ]);
                }
                return Err(e);
            },
        };
        let indir = path_join(proj_dir, c.testcase_config.indir.as_str());
        let outdir = path_join(proj_dir, c.testcase_config.outdir.as_str());
        let ghost lbase = self.log();
        let ghost first1 = seq![
            Event::ReadConfig { proj: config_file_of(proj_dir@), loaded: Ok(c) },
        ];
        proof {
            assert(lbase =~= base + first1);
        }
        let mut i: usize = 0;
        while i < c.solutions.len()
            invariant
                i <= c.solutions@.len(),
                lbase.is_prefix_of(self.log()),
                steps_ok(
                    c.solutions@.take(i as int),
                    test_sol_seg(
                        c.languages@,
                        proj_dir@,
                        path_join_spec(proj_dir@, c.testcase_config.indir@),
                        path_join_spec(proj_dir@, c.testcase_config.outdir@),
                    ),
                    self.log().skip(lbase.len() as int),
                ),
            decreases c.solutions@.len() - i,
        {
            let ghost pre = self.log();
            let r1 = test_one(self, proj_dir, &c.solutions[i], &c.languages, &indir, &outdir);
            let ghost seg = self.log().skip(pre.len() as int);
            proof {
                lemma_prefix_skip_concat(lbase, pre, self.log());
            }
            match r1 {
                Err(e) => {
                    proof {
                        lemma_steps_fail(
                            c.solutions@,
                            test_sol_seg(
                                c.languages@,
                                proj_dir@,
                                path_join_spec(proj_dir@, c.testcase_config.indir@),
                                path_join_spec(proj_dir@, c.testcase_config.outdir@),
                            ),
                            pre.skip(lbase.len() as int),
                            i as int,
                            seg,
                            r1,
                        );
                        lemma_prefix_skip_concat(base, lbase, self.log());
                        assert(self.log().skip(base.len() as int) =~= first1 + self.log().skip(
                            lbase.len() as int,
                        ));
                        assert(self.log().skip(base.len() as int).skip(1) =~= self.log().skip(
                            lbase.len() as int,
                        ));
                        assert(self.log().skip(base.len() as int)[0] == first1[0]);
                    }
                    return Err(e);
                },
                Ok(_) => {
                    proof {
                        lemma_steps_ok_snoc(
                            c.solutions@.take(i as int),
                            test_sol_seg(
                                c.languages@,
                                proj_dir@,
                                path_join_spec(proj_dir@, c.testcase_config.indir@),
                                path_join_spec(proj_dir@, c.testcase_config.outdir@),
                            ),
                            pre.skip(lbase.len() as int),
                            c.solutions@[i as int],
                            seg,
                            r1,
                        );
                        assert(c.solutions@.take(i as int).push(c.solutions@[i as int]) =~= c
                            .solutions@.take(i + 1 as int));
                    }
                },
            }
            i = i + 1;
        }
        proof {
            assert(c.solutions@.take(c.solutions@.len() as int) =~= c.solutions@);
            lemma_steps_ok_to_trace(
                c.solutions@,
                test_sol_seg(
                    c.languages@,
                    proj_dir@,
                    path_join_spec(proj_dir@, c.testcase_config.indir@),
                    path_join_spec(proj_dir@, c.testcase_config.outdir@),
                ),
                self.log().skip(lbase.len() as int),
            );
            lemma_prefix_skip_concat(base, lbase, self.log());
            assert(self.log().skip(base.len() as int) =~= first1 + self.log().skip(
                lbase.len() as int,
            ));
            assert(self.log().skip(base.len() as int).skip(1) =~= self.log().skip(
                lbase.len() as int,
            ));
            assert(self.log().skip(base.len() as int)[0] == first1[0]);
        }
        Ok(())
    }

    #[verifier::loop_isolation(false)]
    #[verifier::rlimit(60)]
    #[verifier::spinoff_prover]
    fn val(&mut self, proj_dir: &str) -> (r: Result<(), Error>) {
        let ghost base = self.log();
        let c = match self.read_config(proj_dir) {
            Ok(c) => c,
            Err(e) => {
                proof {
                    assert(self.log().skip(base.len() as int) =~= seq![
                        Event::ReadConfig { proj: config_file_of(proj_dir@), loaded: Err(e) },
                    ]);
                }
                return Err(e);
            },
        };
        if c.validators.len() == 0 {
            let description = String::from_str("Validators not found in creo.toml");
            proof {
                assert(self.log().skip(base.len() as int) =~= seq![
                    Event::ReadConfig { proj: config_file_of(proj_dir@), loaded: Ok(c) },
                ]);
            }
            return Err(Error::ConfInvalid { description });
        }
        let indir = path_join(proj_dir, c.testcase_config.indir.as_str());
        let ghost lbase = self.log();
        let ghost first1 = seq![
            Event::ReadConfig { proj: config_file_of(proj_dir@), loaded: Ok(c) },
        ];
        proof {
            assert(lbase =~= base + first1);
        }
        let mut i: usize = 0;
        while i < c.validators.len()
            invariant
                i <= c.validators@.len(),
                lbase.is_prefix_of(self.log()),
                steps_ok(
                    c.validators@.take(i as int),
                    val_seg(c.languages@, proj_dir@, path_join_spec(proj_dir@, c.testcase_config.indir@)),
                    self.log().skip(lbase.len() as int),
                ),
            decreases c.validators@.len() - i,
        {
            let ghost pre = self.log();
            let r1 = val_one(self, proj_dir, &c.validators[i], &c.languages, &indir);
            let ghost seg = self.log().skip(pre.len() as int);
            proof {
                lemma_prefix_skip_concat(lbase, pre, self.log());
            }
            match r1 {
                Err(e) => {
                    proof {
                        lemma_steps_fail(
                            c.validators@,
                            val_seg(c.languages@, proj_dir@, path_join_spec(proj_dir@, c.testcase_config.indir@)),
                            pre.skip(lbase.len() as int),
                            i as int,
                            seg,
                            r1,
                        );
                        lemma_prefix_skip_concat(base, lbase, self.log());
                        assert(self.log().skip(base.len() as int) =~= first1 + self.log().skip(
                            lbase.len() as int,
                        ));
                        assert(self.log().skip(base.len() as int).skip(1) =~= self.log().skip(
                            lbase.len() as int,
                        ));
                        assert(self.log().skip(base.len() as int)[0] == first1[0]);
                    }
                    return Err(e);
                },
                Ok(_) => {
                    proof {
                        lemma_steps_ok_snoc(
                            c.validators@.take(i as int),
                            val_seg(c.languages@, proj_dir@, path_join_spec(proj_dir@, c.testcase_config.indir@)),
                            pre.skip(lbase.len() as int),
                            c.validators@[i as int],
                            seg,
                            r1,
                        );
                        assert(c.validators@.take(i as int).push(c.validators@[i as int]) =~= c
                            .validators@.take(i + 1 as int));
                    }
                },
            }
            i = i + 1;
        }
        proof {
            assert(c.validators@.take(c.validators@.len() as int) =~= c.validators@);
            lemma_steps_ok_to_trace(
                c.validators@,
                val_seg(c.languages@, proj_dir@, path_join_spec(proj_dir@, c.testcase_config.indir@)),
                self.log().skip(lbase.len() as int),
            );
            lemma_prefix_skip_concat(base, lbase, self.log());
            assert(self.log().skip(base.len() as int) =~= first1 + self.log().skip(
                lbase.len() as int,
            ));
            assert(self.log().skip(base.len() as int).skip(1) =~= self.log().skip(
                lbase.len() as int,
            ));
            assert(self.log().skip(base.len() as int)[0] == first1[0]);
        }
        Ok(())
    }
}

/// Law: one run's verdict is `AC` exactly when the run exited zero and its
/// captured output equals, byte for byte, the content of the expected-output
/// file.  Together with [`crate::entity::sol::lemma_aggregate_accepted_iff_all`],
/// a solution's aggregate verdict is `AC` exactly when this holds of every
/// input file.
pub proof fn lemma_verdict_accepted_iff(
    evs: Seq<Event>,
    run_result: Result<Seq<u8>, RunFailure>,
    outfile: Seq<char>,
    r: Result<Verdict, Error>,
)
    requires
        get_verdict_trace(evs, run_result, outfile, r),
    ensures
        r == Ok::<Verdict, Error>(Verdict::AC) <==> ({
            &&& run_result matches Ok(produced)
            &&& evs.len() == 1
            &&& evs[0] matches Event::ReadBytes { path, bytes: Ok(expected) }
            &&& path == outfile
            &&& expected == produced
        }),
{
}

} // verus!
