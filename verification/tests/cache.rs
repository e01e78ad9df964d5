use creo::entity::config::CreoConfig;
use creo::mock::MockProject;
use creo::pathutil::parent_dir;
use creo::pathutil::path_join;
use creo::run_util::run_failure_to_error;
use creo::run_util::substitute_compile;
use creo::run_util::substitute_run;
use creo::run_util::to_hex;
use creo::run_util::RunFailure;
use creo::run_util::RunUtil;
use creo::error::Error;

fn empty_config() -> CreoConfig {
    CreoConfig {
        time_limit_millis: 2000,
        generators: vec![],
        languages: vec![],
        solutions: vec![],
        validators: vec![],
        testcase_config: creo::entity::testcase::TestcaseConfig {
            indir: "in".to_owned(),
            outdir: "out".to_owned(),
        },
    }
}

#[test]
fn hex_renders_two_digits_per_byte() {
    assert_eq!(to_hex(&vec![]), "");
    assert_eq!(to_hex(&vec![0x00, 0xff, 0x1a]), "00ff1a");
    assert_eq!(to_hex(&vec![0x9c]), "9c");
}

#[test]
fn path_join_inserts_a_slash() {
    assert_eq!(path_join("a", "b"), "a/b");
    assert_eq!(path_join(".", "in"), "./in");
    assert_eq!(path_join("a", "/abs"), "/abs");
}

#[test]
fn clean_path_normalizes_lexically() {
    assert_eq!(parent_dir("a/b/c.cpp"), "a/b");
    assert_eq!(parent_dir("a//b/./c/x"), "a/b/c");
    assert_eq!(parent_dir("gen.cpp"), ".");
}

#[test]
fn substitution_replaces_whole_tokens_only() {
    let template: Vec<String> = vec!["g++", "-o", "$OUT", "$IN", "x$IN"]
        .into_iter()
        .map(|x| x.to_owned())
        .collect();
    let argv = substitute_compile(&template, "src.cpp", "artifact");
    assert_eq!(argv, vec!["g++", "-o", "artifact", "src.cpp", "x$IN"]);
    let run: Vec<String> = vec!["python3", "$OUT", "$UNKNOWN"]
        .into_iter()
        .map(|x| x.to_owned())
        .collect();
    let argv = substitute_run(&run, "artifact");
    assert_eq!(argv, vec!["python3", "artifact", "$UNKNOWN"]);
}

#[test]
fn compile_addresses_are_hex_digests_in_the_cache_directory() {
    let mut m = MockProject::new(empty_config());
    let template: Vec<String> = vec!["cc".to_owned(), "$IN".to_owned(), "$OUT".to_owned()];
    let path = m.compile("wd", "src.cpp", &template).unwrap();
    let digest = path.strip_prefix("/tmp/creo-cache/").unwrap();
    // SHA-256: 32 bytes, 64 hexadecimal digits.  A digest of the raw key
    // bytes themselves would have a different length.
    assert_eq!(digest.len(), 64);
    assert!(digest.chars().all(|c| c.is_ascii_hexdigit()));
}

#[test]
fn compile_same_inputs_same_address_and_cache_hit_skips_the_compiler() {
    let mut m = MockProject::new(empty_config());
    let template: Vec<String> = vec!["cc".to_owned(), "$IN".to_owned(), "$OUT".to_owned()];
    let first = m.compile("wd", "src.cpp", &template).unwrap();
    assert_eq!(m.spawns.len(), 1);
    // The artifact now exists at the content address: the same template and
    // the same source bytes must not invoke the compiler again.
    m.file_present = true;
    let second = m.compile("wd", "src.cpp", &template).unwrap();
    assert_eq!(first, second);
    assert_eq!(m.spawns.len(), 1);
}

#[test]
fn compile_address_changes_with_source_bytes_and_template() {
    let template: Vec<String> = vec!["cc".to_owned(), "$IN".to_owned(), "$OUT".to_owned()];
    let mut m1 = MockProject::new(empty_config());
    let p1 = m1.compile("wd", "src.cpp", &template).unwrap();

    let mut m2 = MockProject::new(empty_config());
    m2.file_bytes = b"other source bytes".to_vec();
    let p2 = m2.compile("wd", "src.cpp", &template).unwrap();
    assert_ne!(p1, p2);

    let other: Vec<String> = vec!["cc".to_owned(), "-O2".to_owned(), "$IN".to_owned(), "$OUT".to_owned()];
    let mut m3 = MockProject::new(empty_config());
    let p3 = m3.compile("wd", "src.cpp", &other).unwrap();
    assert_ne!(p1, p3);
}

#[test]
fn run_failures_map_to_io_errors() {
    let e = run_failure_to_error(RunFailure::NonZeroExit { code: 9 }, "bin");
    if let Error::IOError { message } = e {
        assert_eq!(message, "Executing bin failed");
    } else {
        panic!("expected an I/O error");
    }
    let e = run_failure_to_error(
        RunFailure::LaunchFailure { message: "no such file".to_owned() },
        "bin",
    );
    if let Error::IOError { message } = e {
        assert_eq!(message, "no such file");
    } else {
        panic!("expected an I/O error");
    }
}
