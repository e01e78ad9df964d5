use creo::entity::config::CreoConfig;
use creo::entity::config::LanguageConfig;
use creo::entity::gen::GenConfig;
use creo::entity::project::check_reference_solution;
use creo::entity::project::Project;
use creo::entity::sol::SolutionConfig;
use creo::entity::sol::Verdict;
use creo::entity::testcase::TestcaseConfig;
use creo::entity::val::ValidatorConfig;
use creo::error::Error;
use creo::mock::MockProject;

/// The manifest used by the engine tests: one C++ generator, one C++
/// toolchain, one reference solution and one validator.
fn sample_config() -> CreoConfig {
    CreoConfig {
        time_limit_millis: 2000,
        generators: vec![GenConfig {
            language_name: "C++".to_owned(),
            path: "gen.cpp".to_owned(),
        }],
        languages: vec![LanguageConfig {
            language_name: "C++".to_owned(),
            target_ext: "cpp".to_owned(),
            compile: vec!["g++", "-O2", "-std=gnu++11", "-o", "$OUT", "$IN"]
                .into_iter()
                .map(|x| x.to_owned())
                .collect(),
            run: vec!["./a.out".to_owned()],
        }],
        solutions: vec![SolutionConfig {
            path: "sol.cpp".to_owned(),
            language_name: "C++".to_owned(),
            expected_verdict: Verdict::AC,
            is_reference_solution: true,
        }],
        validators: vec![ValidatorConfig {
            path: "val.cpp".to_owned(),
            language_name: "C++".to_owned(),
        }],
        testcase_config: TestcaseConfig {
            indir: "in".to_owned(),
            outdir: "out".to_owned(),
        },
    }
}

fn solution(expected_verdict: Verdict, is_reference_solution: bool) -> SolutionConfig {
    SolutionConfig {
        path: "".to_owned(),
        language_name: "".to_owned(),
        expected_verdict,
        is_reference_solution,
    }
}

#[test]
fn check_reference_solution_works() {
    let config = CreoConfig {
        solutions: vec![solution(Verdict::AC, true)],
        ..sample_config()
    };
    check_reference_solution(&config).unwrap();
}

#[test]
fn check_reference_solution_fails_if_two_reference_solutions_exist() {
    let config = CreoConfig {
        solutions: vec![solution(Verdict::AC, true), solution(Verdict::AC, true)],
        ..sample_config()
    };

    let e = check_reference_solution(&config).unwrap_err();
    let desc = e.describe();
    // We want an error message that indicates there are 2 reference solutions.
    assert!(desc.contains("reference solution"), "desc = {}", desc);
    assert!(desc.contains('2'), "desc = {}", desc);
}

#[test]
fn check_reference_solution_fails_if_reference_solutions_expected_verdict_is_not_ac() {
    let config = CreoConfig {
        solutions: vec![solution(Verdict::WA, true)],
        ..sample_config()
    };

    let e = check_reference_solution(&config).unwrap_err();
    let desc = e.describe();
    // We want an error message that indicates the reference solution should
    // have expected_verdict AC, but in fact it was WA.
    assert!(desc.contains("reference solution"), "desc = {}", desc);
    assert!(desc.contains("WA"), "desc = {}", desc);
    assert!(desc.contains("AC"), "desc = {}", desc);
}

#[test]
fn gen_project_works() {
    let mut project = MockProject::new(sample_config());
    project.gen(".").unwrap();
}

#[test]
fn refgen_project_works() {
    let mut project = MockProject::new(sample_config());
    project.refgen(".").unwrap();
    // For each input file the matching output file is created, in order,
    // and filled with the bytes the reference solution produced.
    assert_eq!(project.created, vec!["./out/a".to_owned(), "./out/b".to_owned()]);
    assert!(project.reads.contains(&"./in/a".to_owned()));
    assert!(project.reads.contains(&"./in/b".to_owned()));
    for (path, bytes) in &project.writes {
        assert!(path.starts_with("./out/"));
        assert_eq!(bytes, b"wrong output");
    }
    assert_eq!(project.writes.len(), 2);
}

#[test]
fn test_project_works() {
    let mut project = MockProject::new(sample_config());
    // The piped run captures "wrong output" while the expected-output file
    // holds "correct output", so the aggregate verdict is WA, not the
    // declared AC.
    let result = project.test(".");
    if let Err(Error::VerdictMismatch { expected, actual }) = result {
        assert_eq!(expected, Verdict::AC);
        assert_eq!(actual, Verdict::WA);
    } else {
        unreachable!("unreachable: the assertion above does not hold");
    }
}

#[test]
fn val_project_works() {
    let mut project = MockProject::new(sample_config());
    let result = project.val(".");
    result.unwrap();
}

#[test]
fn check_accepts_sample_manifest() {
    let mut project = MockProject::new(sample_config());
    project.check(".").unwrap();
}

#[test]
fn generate_runs_one_generator_once() {
    // One generator, one toolchain, no solutions: `generate` compiles the
    // generator once and invokes the resulting binary once in the
    // generator's own directory, and does nothing more.
    let config = CreoConfig {
        solutions: vec![],
        validators: vec![],
        ..sample_config()
    };
    let mut project = MockProject::new(config);
    project.gen(".").unwrap();
    assert_eq!(project.spawns.len(), 2);
    // First spawn: the compiler, with $IN and $OUT substituted.
    let (cd0, argv0) = &project.spawns[0];
    assert_eq!(cd0, "gen-absolute.cpp");
    assert_eq!(argv0[0], "g++");
    assert_eq!(argv0[5], "gen-absolute.cpp");
    assert!(argv0[4].starts_with("/tmp/creo-cache/"));
    // Second spawn: the compiled generator itself, run once.
    let (cd1, argv1) = &project.spawns[1];
    assert_eq!(cd1, "gen-absolute.cpp");
    assert_eq!(argv1, &vec!["./a.out".to_owned()]);
}

#[test]
fn refgen_rejects_zero_reference_solutions() {
    let config = CreoConfig {
        solutions: vec![solution(Verdict::AC, false)],
        ..sample_config()
    };
    let mut project = MockProject::new(config);
    let e = project.refgen(".").unwrap_err();
    if let Error::ConfInvalid { description } = e {
        assert!(description.contains("reference solution"), "desc = {}", description);
        assert!(description.contains('0'), "desc = {}", description);
    } else {
        panic!("expected a configuration error");
    }
    // Nothing was compiled or run.
    assert_eq!(project.spawns.len(), 0);
}

#[test]
fn refgen_rejects_two_reference_solutions() {
    let config = CreoConfig {
        solutions: vec![solution(Verdict::AC, true), solution(Verdict::AC, true)],
        ..sample_config()
    };
    let mut project = MockProject::new(config);
    let e = project.refgen(".").unwrap_err();
    if let Error::ConfInvalid { description } = e {
        assert!(description.contains("reference solution"), "desc = {}", description);
        assert!(description.contains('2'), "desc = {}", description);
    } else {
        panic!("expected a configuration error");
    }
    assert_eq!(project.spawns.len(), 0);
}

#[test]
fn val_rejects_empty_validator_list_before_compiling() {
    let config = CreoConfig {
        validators: vec![],
        ..sample_config()
    };
    let mut project = MockProject::new(config);
    let e = project.val(".").unwrap_err();
    if let Error::ConfInvalid { description } = e {
        assert!(description.contains("Validators not found"), "desc = {}", description);
    } else {
        panic!("expected a configuration error");
    }
    // Aborted before attempting any compilation: nothing was read, spawned
    // or written.
    assert_eq!(project.spawns.len(), 0);
    assert_eq!(project.reads.len(), 0);
}

#[test]
fn val_reports_the_rejecting_validator_and_input() {
    let mut project = MockProject::new(sample_config());
    project.piped_exit_code = 3;
    let e = project.val(".").unwrap_err();
    if let Error::ValidationFailed { validator, infile, .. } = e {
        assert_eq!(validator, "val.cpp");
        assert_eq!(infile, "./in/a");
    } else {
        panic!("expected a validation failure");
    }
}

#[test]
fn test_expecting_wrong_answer_rejects_accepted_runs() {
    // The solution declares expected_verdict = "wa", but every run matches
    // the expected output exactly, so the aggregate is AC and `test` must
    // report the mismatch rather than succeed.
    let mut sol = solution(Verdict::WA, false);
    sol.path = "sol.cpp".to_owned();
    sol.language_name = "C++".to_owned();
    let config = CreoConfig {
        solutions: vec![sol],
        ..sample_config()
    };
    let mut project = MockProject::new(config);
    // Let the piped run produce exactly the expected-output bytes.
    project.piped_output = b"correct output".to_vec();
    let result = project.test(".");
    if let Err(Error::VerdictMismatch { expected, actual }) = result {
        assert_eq!(expected, Verdict::WA);
        assert_eq!(actual, Verdict::AC);
    } else {
        unreachable!("unreachable: the assertion above does not hold");
    }
}

#[test]
fn test_accepts_solution_whose_runs_all_match() {
    // Every run exits zero and produces exactly the expected bytes, so the
    // aggregate is AC and `test` succeeds for a solution expecting AC.
    let mut project = MockProject::new(sample_config());
    project.piped_output = b"correct output".to_vec();
    project.test(".").unwrap();
}

#[test]
fn test_reports_runtime_error_verdict_for_failing_runs() {
    let mut project = MockProject::new(sample_config());
    project.piped_exit_code = 1;
    let result = project.test(".");
    if let Err(Error::VerdictMismatch { expected, actual }) = result {
        assert_eq!(expected, Verdict::AC);
        assert_eq!(actual, Verdict::RE);
    } else {
        panic!("expected a verdict mismatch");
    }
}

#[test]
fn gen_reports_missing_language() {
    let config = CreoConfig {
        generators: vec![GenConfig {
            language_name: "Rust".to_owned(),
            path: "gen.rs".to_owned(),
        }],
        ..sample_config()
    };
    let mut project = MockProject::new(config);
    let e = project.gen(".").unwrap_err();
    if let Error::ConfInvalid { description } = e {
        assert_eq!(description, "language not found: Rust");
    } else {
        panic!("expected a configuration error");
    }
    // The generator was never compiled or run.
    assert_eq!(project.spawns.len(), 0);
}

#[test]
fn gen_failing_run_is_an_io_error() {
    let mut project = MockProject::new(sample_config());
    project.run_exit_code = 2;
    let e = project.gen(".").unwrap_err();
    if let Error::IOError { message } = e {
        assert!(message.contains("failed"), "message = {}", message);
    } else {
        panic!("expected an I/O error");
    }
}
