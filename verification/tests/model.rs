use creo::entity::config::CreoConfig;
use creo::entity::sol::is_ac;
use creo::entity::sol::is_false;
use creo::entity::sol::Verdict;
use creo::entity::testcase::indir_default;
use creo::entity::testcase::outdir_default;
use creo::entity::testcase::TestcaseConfig;
use creo::error::Error;
use creo::strutil::u64_to_string;

#[test]
fn verdict_order_is_best_to_worst() {
    assert!(Verdict::AC.severity() < Verdict::TLE.severity());
    assert!(Verdict::TLE.severity() < Verdict::WA.severity());
    assert!(Verdict::WA.severity() < Verdict::RE.severity());
    assert!(Verdict::RE.severity() < Verdict::MLE.severity());
    assert!(Verdict::MLE.severity() < Verdict::QLE.severity());
    assert!(Verdict::QLE.severity() < Verdict::IE.severity());
}

#[test]
fn verdict_worst_takes_the_worse_one() {
    assert_eq!(Verdict::AC.worst(Verdict::WA), Verdict::WA);
    assert_eq!(Verdict::WA.worst(Verdict::AC), Verdict::WA);
    assert_eq!(Verdict::AC.worst(Verdict::AC), Verdict::AC);
    assert_eq!(Verdict::RE.worst(Verdict::WA), Verdict::RE);
    assert_eq!(Verdict::IE.worst(Verdict::AC), Verdict::IE);
}

#[test]
fn verdict_aggregation_never_improves() {
    // Once a worse-than-accepted verdict has been folded in, later accepted
    // runs cannot bring the aggregate back to AC.
    let mut aggregate = Verdict::AC;
    aggregate = aggregate.worst(Verdict::AC);
    assert_eq!(aggregate, Verdict::AC);
    aggregate = aggregate.worst(Verdict::WA);
    assert_eq!(aggregate, Verdict::WA);
    aggregate = aggregate.worst(Verdict::AC);
    assert_eq!(aggregate, Verdict::WA);
    aggregate = aggregate.worst(Verdict::TLE);
    assert_eq!(aggregate, Verdict::WA);
    aggregate = aggregate.worst(Verdict::RE);
    assert_eq!(aggregate, Verdict::RE);
}

#[test]
fn verdict_names_are_lowercase_manifest_names() {
    assert_eq!(Verdict::AC.name(), "ac");
    assert_eq!(Verdict::WA.name(), "wa");
    assert_eq!(Verdict::TLE.name(), "tle");
    assert_eq!(Verdict::RE.name(), "re");
    assert_eq!(Verdict::MLE.name(), "mle");
    assert_eq!(Verdict::QLE.name(), "qle");
    assert_eq!(Verdict::IE.name(), "ie");
    assert_eq!(Verdict::WA.label(), "WA");
}

#[test]
fn verdict_default_is_accepted() {
    assert_eq!(Verdict::default(), Verdict::AC);
}

#[test]
fn serde_helpers_report_defaults() {
    assert!(is_ac(&Verdict::AC));
    assert!(!is_ac(&Verdict::WA));
    assert!(is_false(&false));
    assert!(!is_false(&true));
}

#[test]
fn testcase_directories_default_to_in_and_out() {
    assert_eq!(indir_default(), "in");
    assert_eq!(outdir_default(), "out");
    let t = TestcaseConfig::default();
    assert_eq!(t.indir, "in");
    assert_eq!(t.outdir, "out");
}

#[test]
fn default_manifest_has_cpp_and_python_toolchains() {
    let c = CreoConfig::default();
    assert_eq!(c.time_limit_millis, 2000);
    assert_eq!(c.languages.len(), 2);
    assert_eq!(c.languages[0].language_name, "C++");
    assert_eq!(c.languages[0].target_ext, "cpp");
    assert_eq!(
        c.languages[0].compile,
        vec!["g++", "-O2", "-std=gnu++11", "-o", "$OUT", "$IN"]
    );
    assert_eq!(c.languages[0].run, vec!["$OUT"]);
    assert_eq!(c.languages[1].language_name, "Python");
    assert_eq!(c.languages[1].compile, vec!["cp", "$IN", "$OUT"]);
    assert_eq!(c.languages[1].run, vec!["python3", "$OUT"]);
    assert!(c.generators.is_empty());
    assert!(c.solutions.is_empty());
    assert!(c.validators.is_empty());
    assert_eq!(c.testcase_config.indir, "in");
}

#[test]
fn numbers_render_in_decimal() {
    assert_eq!(u64_to_string(0), "0");
    assert_eq!(u64_to_string(7), "7");
    assert_eq!(u64_to_string(10), "10");
    assert_eq!(u64_to_string(12345), "12345");
    assert_eq!(u64_to_string(18446744073709551615), "18446744073709551615");
}

#[test]
fn errors_describe_themselves() {
    let e = Error::IOError { message: "boom".to_owned() };
    assert_eq!(e.describe(), "I/O error occurred: boom");
    let e = Error::ConfInvalid { description: "bad".to_owned() };
    assert_eq!(e.describe(), "Config file has invalid configuration: bad");
    let e = Error::VerdictMismatch { expected: Verdict::AC, actual: Verdict::WA };
    assert_eq!(
        e.describe(),
        "Verdict is not as expected (expected = AC, actual = WA)"
    );
    let e = Error::TomlSerError { message: "m".to_owned() };
    assert_eq!(e.describe(), "Toml serialization failed: m");
    let e = Error::TomlDeError { message: "m".to_owned() };
    assert_eq!(e.describe(), "Toml deserialization failed: m");
    let e = Error::UnknownEntityType { entity_type: "thing".to_owned() };
    assert_eq!(e.describe(), "Unknown entity type: thing");
    let e = Error::ValidationFailed {
        validator: "val.cpp".to_owned(),
        infile: "in/a".to_owned(),
        message: "nonzero".to_owned(),
    };
    assert_eq!(
        e.describe(),
        "Validation failed: validator = val.cpp, infile = in/a: nonzero"
    );
}
