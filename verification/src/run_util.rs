use vstd::prelude::*;
use vstd::string::StrSliceExecFns;
use vstd::string::StringExecFns;
use vstd::utf8::encode_utf8;

use crate::error::Error;
use crate::io_util::Event;
use crate::io_util::IoUtil;

verus! {

/// Tagged outcome of running one external process to completion.
#[derive(Debug)]
pub enum RunOutcome {
    /// The process ran and exited with status zero.
    Success,
    /// The process ran and exited with a nonzero status.
    NonZeroExit { code: i32 },
    /// The process could not be launched, or feeding or draining it failed.
    LaunchFailure { message: String },
}

/// Why a run with piped input failed: the callers of
/// [`RunUtil::run_with_input`] branch on this tag to tell a process that ran
/// and rejected its input apart from one that could not be run at all.
#[derive(Debug)]
pub enum RunFailure {
    /// The input file could not be read, or the process could not be
    /// launched.
    LaunchFailure { message: String },
    /// The process ran and exited with a nonzero status.
    NonZeroExit { code: i32 },
}

/// What SHA-256 computes: a digest that is a function of the input bytes
/// alone.
pub uninterp spec fn sha256_of(data: Seq<u8>) -> Seq<u8>;

/// Relies on sha2::Sha256 (through the Digest trait): the SHA-256 digest of
/// the input, 32 bytes, depending on the input bytes alone.
#[verifier::external_body]
fn sha256(data: &Vec<u8>) -> (r: Vec<u8>)
    ensures
        r@ == sha256_of(data@),
        r@.len() == 32,
{
    let digest = <sha2::Sha256 as sha2::Digest>::digest(data.as_slice());
    digest.to_vec()
}

/// The character for one hexadecimal digit value.
pub open spec fn hex_digit(d: int) -> char {
    if d == 0 {
        '0'
    } else if d == 1 {
        '1'
    } else if d == 2 {
        '2'
    } else if d == 3 {
        '3'
    } else if d == 4 {
        '4'
    } else if d == 5 {
        '5'
    } else if d == 6 {
        '6'
    } else if d == 7 {
        '7'
    } else if d == 8 {
        '8'
    } else if d == 9 {
        '9'
    } else if d == 10 {
        'a'
    } else if d == 11 {
        'b'
    } else if d == 12 {
        'c'
    } else if d == 13 {
        'd'
    } else if d == 14 {
        'e'
    } else {
        'f'
    }
}

/// The numeric value of a hexadecimal digit character, or -1.
pub open spec fn hex_val(c: char) -> int {
    if c == '0' {
        0
    } else if c == '1' {
        1
    } else if c == '2' {
        2
    } else if c == '3' {
        3
    } else if c == '4' {
        4
    } else if c == '5' {
        5
    } else if c == '6' {
        6
    } else if c == '7' {
        7
    } else if c == '8' {
        8
    } else if c == '9' {
        9
    } else if c == 'a' {
        10
    } else if c == 'b' {
        11
    } else if c == 'c' {
        12
    } else if c == 'd' {
        13
    } else if c == 'e' {
        14
    } else if c == 'f' {
        15
    } else {
        -1
    }
}

/// Two lower-case hexadecimal digits for one byte.
pub open spec fn hex_of_byte(b: int) -> Seq<char> {
    seq![hex_digit(b / 16), hex_digit(b % 16)]
}

/// Lower-case hexadecimal rendering of a byte sequence, two digits per byte.
pub open spec fn hex_of(bytes: Seq<u8>) -> Seq<char>
    decreases bytes.len(),
{
    if bytes.len() == 0 {
        Seq::empty()
    } else {
        hex_of(bytes.drop_last()) + hex_of_byte(bytes.last() as int)
    }
}

/// One hexadecimal digit as a string.
fn hex_digit_str(d: u8) -> (r: &'static str)
    requires
        d < 16,
    ensures
        r@ =~= seq![hex_digit(d as int)],
{
    proof {
        reveal_strlit("0");
        reveal_strlit("1");
        reveal_strlit("2");
        reveal_strlit("3");
        reveal_strlit("4");
        reveal_strlit("5");
        reveal_strlit("6");
        reveal_strlit("7");
        reveal_strlit("8");
        reveal_strlit("9");
        reveal_strlit("a");
        reveal_strlit("b");
        reveal_strlit("c");
        reveal_strlit("d");
        reveal_strlit("e");
        reveal_strlit("f");
    }
    if d == 0 {
        "0"
    } else if d == 1 {
        "1"
    } else if d == 2 {
        "2"
    } else if d == 3 {
        "3"
    } else if d == 4 {
        "4"
    } else if d == 5 {
        "5"
    } else if d == 6 {
        "6"
    } else if d == 7 {
        "7"
    } else if d == 8 {
        "8"
    } else if d == 9 {
        "9"
    } else if d == 10 {
        "a"
    } else if d == 11 {
        "b"
    } else if d == 12 {
        "c"
    } else if d == 13 {
        "d"
    } else if d == 14 {
        "e"
    } else {
        "f"
    }
}

/// Renders bytes as lower-case hexadecimal.
pub fn to_hex(bytes: &Vec<u8>) -> (s: String)
    ensures
        s@ =~= hex_of(bytes@),
{
    let mut s = String::new();
    let mut i: usize = 0;
    while i < bytes.len()
        invariant
            i <= bytes.len(),
            s@ =~= hex_of(bytes@.take(i as int)),
        decreases bytes.len() - i,
    {
        let b = bytes[i];
        let mut t = s;
        t.append(hex_digit_str(b / 16));
        t.append(hex_digit_str(b % 16));
        s = t;
        proof {
            let pre = bytes@.take(i as int);
            let cur = bytes@.take(i + 1 as int);
            assert(cur.drop_last() =~= pre);
            assert(cur.last() == bytes@[i as int]);
            assert(s@ =~= hex_of(cur));
        }
        i = i + 1;
    }
    proof {
        assert(bytes@.take(bytes@.len() as int) =~= bytes@);
    }
    s
}

/// The hexadecimal digits of a byte recover the byte.
proof fn lemma_hex_of_byte_injective(a: int, b: int)
    requires
        0 <= a < 256,
        0 <= b < 256,
        hex_of_byte(a) == hex_of_byte(b),
    ensures
        a == b,
{
    assert(hex_val(hex_digit(a / 16)) == a / 16);
    assert(hex_val(hex_digit(a % 16)) == a % 16);
    assert(hex_val(hex_digit(b / 16)) == b / 16);
    assert(hex_val(hex_digit(b % 16)) == b % 16);
    assert(hex_of_byte(a)[0] == hex_of_byte(b)[0]);
    assert(hex_of_byte(a)[1] == hex_of_byte(b)[1]);
    assert(a == 16 * (a / 16) + a % 16);
    assert(b == 16 * (b / 16) + b % 16);
}

/// Hexadecimal rendering doubles the length.
pub proof fn lemma_hex_of_len(bytes: Seq<u8>)
    ensures
        hex_of(bytes).len() == 2 * bytes.len(),
    decreases bytes.len(),
{
    if bytes.len() > 0 {
        lemma_hex_of_len(bytes.drop_last());
    }
}

/// Hexadecimal rendering is injective: distinct byte sequences render to
/// distinct strings.
pub proof fn lemma_hex_of_injective(a: Seq<u8>, b: Seq<u8>)
    requires
        hex_of(a) == hex_of(b),
    ensures
        a == b,
    decreases a.len(),
{
    lemma_hex_of_len(a);
    lemma_hex_of_len(b);
    if a.len() == 0 {
        assert(a =~= b);
    } else {
        let ha = hex_of(a.drop_last());
        let hb = hex_of(b.drop_last());
        lemma_hex_of_len(a.drop_last());
        lemma_hex_of_len(b.drop_last());
        assert(hex_of(a)[2 * a.len() - 2] == hex_of_byte(a.last() as int)[0]);
        assert(hex_of(a)[2 * a.len() - 1] == hex_of_byte(a.last() as int)[1]);
        assert(hex_of(b)[2 * b.len() - 2] == hex_of_byte(b.last() as int)[0]);
        assert(hex_of(b)[2 * b.len() - 1] == hex_of_byte(b.last() as int)[1]);
        assert(hex_of_byte(a.last() as int) =~= hex_of_byte(b.last() as int));
        lemma_hex_of_byte_injective(a.last() as int, b.last() as int);
        assert(ha.len() == hb.len());
        assert forall|i: int| 0 <= i < ha.len() implies ha[i] == hb[i] by {
            assert(hex_of(a) == ha + hex_of_byte(a.last() as int));
            assert(hex_of(b) == hb + hex_of_byte(b.last() as int));
            assert(hex_of(a)[i] == ha[i]);
            assert(hex_of(b)[i] == hb[i]);
        }
        assert(ha =~= hb);
        lemma_hex_of_injective(a.drop_last(), b.drop_last());
        assert forall|i: int| 0 <= i < a.len() implies a[i] == b[i] by {
            if i < a.len() - 1 {
                assert(a.drop_last()[i] == a[i]);
                assert(b.drop_last()[i] == b[i]);
            } else {
                assert(a[i] == a.last());
                assert(b[i] == b.last());
            }
        }
        assert(a =~= b);
    }
}


/// The digest input for one compilation: every compile-template token's
/// UTF-8 bytes in order, followed by the raw source bytes.
pub open spec fn tokens_bytes(toks: Seq<Seq<char>>) -> Seq<u8>
    decreases toks.len(),
{
    if toks.len() == 0 {
        Seq::empty()
    } else {
        tokens_bytes(toks.drop_last()) + encode_utf8(toks.last())
    }
}

/// The content address of one compilation: template tokens then source bytes.
pub open spec fn cache_key_spec(compile: Seq<Seq<char>>, src: Seq<u8>) -> Seq<u8> {
    tokens_bytes(compile) + src
}

/// The process-wide compiled-artifact cache directory.
pub open spec fn cache_dir_spec() -> Seq<char> {
    "/tmp/creo-cache"@
}

/// The artifact path for one digest input: a file named by the hexadecimal
/// SHA-256 digest inside the cache directory.
pub open spec fn cache_path_spec(key: Seq<u8>) -> Seq<char> {
    cache_dir_spec() + "/"@ + hex_of(sha256_of(key))
}

/// Builds the digest input of a compilation.
fn build_cache_key(compile: &Vec<String>, src: &Vec<u8>) -> (key: Vec<u8>)
    ensures
        key@ =~= cache_key_spec(compile.deep_view(), src@),
{
    let mut key: Vec<u8> = Vec::new();
    let mut i: usize = 0;
    while i < compile.len()
        invariant
            i <= compile.len(),
            key@ =~= tokens_bytes(compile.deep_view().take(i as int)),
        decreases compile.len() - i,
    {
        key.extend_from_slice(compile[i].as_str().as_bytes());
        proof {
            let pre = compile.deep_view().take(i as int);
            let cur = compile.deep_view().take(i + 1 as int);
            assert(cur.drop_last() =~= pre);
            assert(cur.last() == compile.deep_view()[i as int]);
            assert(key@ =~= tokens_bytes(cur));
        }
        i = i + 1;
    }
    proof {
        assert(compile.deep_view().take(compile.deep_view().len() as int) =~= compile.deep_view());
    }
    key.extend_from_slice(src.as_slice());
    key
}

/// One compile-template token after placeholder substitution: `$IN` becomes
/// the source path, `$OUT` the artifact path, anything else stays verbatim.
pub open spec fn subst_compile_token(tok: Seq<char>, src: Seq<char>, out: Seq<char>) -> Seq<char> {
    if tok == "$IN"@ {
        src
    } else if tok == "$OUT"@ {
        out
    } else {
        tok
    }
}

/// A compile template after placeholder substitution.
pub open spec fn subst_compile_spec(toks: Seq<Seq<char>>, src: Seq<char>, out: Seq<char>) -> Seq<
    Seq<char>,
> {
    toks.map_values(|t: Seq<char>| subst_compile_token(t, src, out))
}

/// One run-template token after placeholder substitution: `$OUT` becomes the
/// artifact path, anything else stays verbatim.
pub open spec fn subst_run_token(tok: Seq<char>, out: Seq<char>) -> Seq<char> {
    if tok == "$OUT"@ {
        out
    } else {
        tok
    }
}

/// A run template after placeholder substitution.
pub open spec fn subst_run_spec(toks: Seq<Seq<char>>, out: Seq<char>) -> Seq<Seq<char>> {
    toks.map_values(|t: Seq<char>| subst_run_token(t, out))
}

/// Substitutes `$IN` and `$OUT` in a compile template.
pub fn substitute_compile(tokens: &Vec<String>, src: &str, out: &str) -> (r: Vec<String>)
    ensures
        r.deep_view() =~= subst_compile_spec(tokens.deep_view(), src@, out@),
{
    let in_tok = String::from_str("$IN");
    let out_tok = String::from_str("$OUT");
    let mut r: Vec<String> = Vec::new();
    let mut i: usize = 0;
    while i < tokens.len()
        invariant
            i <= tokens.len(),
            r@.len() == i,
            r.deep_view() =~= subst_compile_spec(tokens.deep_view(), src@, out@).take(i as int),
            in_tok@ == "$IN"@,
            out_tok@ == "$OUT"@,
        decreases tokens.len() - i,
    {
        let ghost pre = r.deep_view();
        let t = &tokens[i];
        if *t == in_tok {
            r.push(src.to_owned());
        } else if *t == out_tok {
            r.push(out.to_owned());
        } else {
            r.push(t.clone());
        }
        proof {
            let full = subst_compile_spec(tokens.deep_view(), src@, out@);
            assert(full[i as int] == subst_compile_token(tokens.deep_view()[i as int], src@, out@));
            assert(tokens.deep_view()[i as int] == tokens@[i as int]@);
            assert(r@.len() == i + 1);
            assert(r.deep_view()[i as int] == r@[i as int]@);
            assert forall|j: int| 0 <= j < i implies r.deep_view()[j] == full[j] by {
                assert(r.deep_view()[j] == r@[j]@);
                assert(pre[j] == full.take(i as int)[j]);
            }
            assert(r.deep_view() =~= full.take(i + 1 as int));
        }
        i = i + 1;
    }
    proof {
        let full = subst_compile_spec(tokens.deep_view(), src@, out@);
        assert(full.take(full.len() as int) =~= full);
    }
    r
}

/// Substitutes `$OUT` in a run template.
pub fn substitute_run(tokens: &Vec<String>, out: &str) -> (r: Vec<String>)
    ensures
        r.deep_view() =~= subst_run_spec(tokens.deep_view(), out@),
{
    let out_tok = String::from_str("$OUT");
    let mut r: Vec<String> = Vec::new();
    let mut i: usize = 0;
    while i < tokens.len()
        invariant
            i <= tokens.len(),
            r@.len() == i,
            r.deep_view() =~= subst_run_spec(tokens.deep_view(), out@).take(i as int),
            out_tok@ == "$OUT"@,
        decreases tokens.len() - i,
    {
        let ghost pre = r.deep_view();
        let t = &tokens[i];
        if *t == out_tok {
            r.push(out.to_owned());
        } else {
            r.push(t.clone());
        }
        proof {
            let full = subst_run_spec(tokens.deep_view(), out@);
            assert(full[i as int] == subst_run_token(tokens.deep_view()[i as int], out@));
            assert(tokens.deep_view()[i as int] == tokens@[i as int]@);
            assert(r@.len() == i + 1);
            assert(r.deep_view()[i as int] == r@[i as int]@);
            assert forall|j: int| 0 <= j < i implies r.deep_view()[j] == full[j] by {
                assert(r.deep_view()[j] == r@[j]@);
                assert(pre[j] == full.take(i as int)[j]);
            }
            assert(r.deep_view() =~= full.take(i + 1 as int));
        }
        i = i + 1;
    }
    proof {
        let full = subst_run_spec(tokens.deep_view(), out@);
        assert(full.take(full.len() as int) =~= full);
    }
    r
}

/// Diagnostic for a compilation that exited nonzero.
pub open spec fn compile_failed_msg(src: Seq<char>) -> Seq<char> {
    "Compiling "@ + src + " failed"@
}

/// Builds the diagnostic for a compilation that exited nonzero.
fn compile_failed_message(src: &str) -> (r: String)
    ensures
        r@ =~= compile_failed_msg(src@),
{
    let mut s = String::new();
    s.append("Compiling ");
    s.append(src);
    s.append(" failed");
    s
}

/// Diagnostic for an execution that exited nonzero.
pub open spec fn exec_failed_msg(exec: Seq<char>) -> Seq<char> {
    "Executing "@ + exec + " failed"@
}

/// Builds the diagnostic for an execution that exited nonzero.
pub(crate) fn exec_failed_message(exec: &str) -> (r: String)
    ensures
        r@ =~= exec_failed_msg(exec@),
{
    let mut s = String::new();
    s.append("Executing ");
    s.append(exec);
    s.append(" failed");
    s
}

/// Process capability: the two primitive ways to run an external command.
/// An implementation performs the spawn and records it, with its observed
/// outcome, in the abstract log.
pub trait RunUtilExt: IoUtil {
    /// Runs a command to completion in a working directory, inheriting the
    /// parent's standard streams.
    fn spawn_status(&mut self, cd: &str, argv: &Vec<String>) -> (r: RunOutcome)
        ensures
            final(self).log() == old(self).log().push(
                Event::Spawn { cd: cd@, argv: argv.deep_view(), outcome: r },
            ),
    ;

    /// Runs a command in a working directory, feeding bytes to its standard
    /// input from a concurrent writer while draining its standard output, and
    /// returns the captured output bytes.
    fn spawn_piped(&mut self, cd: &str, argv: &Vec<String>, input: &Vec<u8>) -> (r: (
        RunOutcome,
        Vec<u8>,
    ))
        ensures
            final(self).log() == old(self).log().push(
                Event::SpawnPiped {
                    cd: cd@,
                    argv: argv.deep_view(),
                    input: input@,
                    outcome: r.0,
                    output: r.1@,
                },
            ),
    ;
}

/// The event trace and result of one build-cache compilation: ensure the
/// cache directory, read the source, look up the content address, and only
/// on a cache miss spawn the compiler.
pub open spec fn compile_trace(
    evs: Seq<Event>,
    cd: Seq<char>,
    src: Seq<char>,
    compile: Seq<Seq<char>>,
    r: Result<String, Error>,
) -> bool {
    &&& evs.len() >= 1
    &&& evs[0] matches Event::Mkdir { path: mpath, result: mres }
    &&& mpath == cache_dir_spec()
    &&& match mres {
        Err(e) => evs.len() == 1 && r == Err::<String, Error>(e),
        Ok(_) => {
            &&& evs.len() >= 2
            &&& evs[1] matches Event::ReadBytes { path: rpath, bytes: rres }
            &&& rpath == src
            &&& match rres {
                Err(e) => evs.len() == 2 && r == Err::<String, Error>(e),
                Ok(bytes) => {
                    let out = cache_path_spec(cache_key_spec(compile, bytes));
                    &&& evs.len() >= 3
                    &&& evs[2] matches Event::IsFile { path: ipath, exists }
                    &&& ipath == out
                    &&& if exists {
                        &&& evs.len() == 3
                        &&& r matches Ok(p)
                        &&& p@ == out
                    } else {
                        &&& evs.len() == 4
                        &&& evs[3] matches Event::Spawn { cd: scd, argv, outcome }
                        &&& scd == cd
                        &&& argv == subst_compile_spec(compile, src, out)
                        &&& match outcome {
                            RunOutcome::Success => r matches Ok(p) && p@ == out,
                            RunOutcome::NonZeroExit { code } => r matches Err(e) && e matches Error::IOError { message }
                                && message@ == compile_failed_msg(src),
                            RunOutcome::LaunchFailure { message } => r == Err::<String, Error>(
                                Error::IOError { message },
                            ),
                        }
                    }
                },
            }
        },
    }
}

/// The event trace and result of running an artifact once with inherited
/// standard streams.
pub open spec fn run_once_trace(
    evs: Seq<Event>,
    cd: Seq<char>,
    exec: Seq<char>,
    run: Seq<Seq<char>>,
    r: Result<(), Error>,
) -> bool {
    &&& evs.len() == 1
    &&& evs[0] matches Event::Spawn { cd: scd, argv, outcome }
    &&& scd == cd
    &&& argv == subst_run_spec(run, exec)
    &&& match outcome {
        RunOutcome::Success => r == Ok::<(), Error>(()),
        RunOutcome::NonZeroExit { code } => r matches Err(e) && e matches Error::IOError { message }
            && message@ == exec_failed_msg(exec),
        RunOutcome::LaunchFailure { message } => r == Err::<(), Error>(
            Error::IOError { message },
        ),
    }
}

/// The event trace and result of running an artifact on the bytes of an
/// input file, capturing its standard output.
pub open spec fn run_with_input_trace(
    evs: Seq<Event>,
    cd: Seq<char>,
    exec: Seq<char>,
    run: Seq<Seq<char>>,
    infile: Seq<char>,
    r: Result<Vec<u8>, RunFailure>,
) -> bool {
    &&& evs.len() >= 1
    &&& evs[0] matches Event::ReadBytes { path: rpath, bytes: rres }
    &&& rpath == infile
    &&& match rres {
        Err(e) => {
            &&& evs.len() == 1
            &&& r matches Err(f)
            &&& f matches RunFailure::LaunchFailure { message }
            &&& message@ == e.describe_spec()
        },
        Ok(bytes) => {
            &&& evs.len() == 2
            &&& evs[1] matches Event::SpawnPiped { cd: scd, argv, input, outcome, output }
            &&& scd == cd
            &&& argv == subst_run_spec(run, exec)
            &&& input == bytes
            &&& match outcome {
                RunOutcome::Success => r matches Ok(o) && o@ == output,
                RunOutcome::NonZeroExit { code } => r == Err::<Vec<u8>, RunFailure>(
                    RunFailure::NonZeroExit { code },
                ),
                RunOutcome::LaunchFailure { message } => r == Err::<Vec<u8>, RunFailure>(
                    RunFailure::LaunchFailure { message },
                ),
            }
        },
    }
}

/// The event trace and result of running an artifact on an input file and
/// writing the captured output, verbatim, to a new output file.
pub open spec fn run_pipe_trace(
    evs: Seq<Event>,
    cd: Seq<char>,
    exec: Seq<char>,
    run: Seq<Seq<char>>,
    infile: Seq<char>,
    outfile: Seq<char>,
    r: Result<(), Error>,
) -> bool {
    &&& evs.len() >= 1
    &&& evs[0] matches Event::ReadBytes { path: rpath, bytes: rres }
    &&& rpath == infile
    &&& match rres {
        Err(e) => {
            &&& evs.len() == 1
            &&& r matches Err(e2)
            &&& e2 matches Error::IOError { message }
            &&& message@ == e.describe_spec()
        },
        Ok(bytes) => {
            &&& evs.len() >= 2
            &&& evs[1] matches Event::SpawnPiped { cd: scd, argv, input, outcome, output }
            &&& scd == cd
            &&& argv == subst_run_spec(run, exec)
            &&& input == bytes
            &&& match outcome {
                RunOutcome::NonZeroExit { code } => {
                    &&& evs.len() == 2
                    &&& r matches Err(e)
                    &&& e matches Error::IOError { message }
                    &&& message@ == exec_failed_msg(exec)
                },
                RunOutcome::LaunchFailure { message } => evs.len() == 2 && r == Err::<(), Error>(
                    Error::IOError { message },
                ),
                RunOutcome::Success => {
                    &&& evs.len() >= 3
                    &&& evs[2] matches Event::CreateFile { path: cpath, mode, result: cres }
                    &&& cpath == outfile
                    &&& mode == 0o644u32
                    &&& match cres {
                        Err(e) => evs.len() == 3 && r == Err::<(), Error>(e),
                        Ok(_) => {
                            &&& evs.len() == 4
                            &&& evs[3] matches Event::WriteBytes {
                                path: wpath,
                                bytes: wbytes,
                                result: wres,
                            }
                            &&& wpath == outfile
                            &&& wbytes == output
                            &&& r == wres
                        },
                    }
                },
            }
        },
    }
}

/// Maps a run failure to the error with which a fatal run aborts an
/// operation.
pub fn run_failure_to_error(f: RunFailure, exec: &str) -> (r: Error)
    ensures
        f matches RunFailure::LaunchFailure { message } ==> r == (Error::IOError { message }),
        f matches RunFailure::NonZeroExit { code } ==> r matches Error::IOError { message }
            && message@ == exec_failed_msg(exec@),
{
    match f {
        RunFailure::LaunchFailure { message } => Error::IOError { message },
        RunFailure::NonZeroExit { code: _ } => Error::IOError {
            message: exec_failed_message(exec),
        },
    }
}

/// Utility for compiling and running executables.  Compilation goes through
/// a content-addressed build cache: identical template tokens and source
/// bytes address the same artifact, and an artifact already present is
/// reused without invoking the compiler.
pub trait RunUtil: IoUtil {
    /// Compiles a source file into the build cache and returns the artifact
    /// path; when a file already exists at the content address, compilation
    /// is skipped.
    fn compile(&mut self, cd: &str, src: &str, compile: &Vec<String>) -> (r: Result<String, Error>)
        ensures
            old(self).log().is_prefix_of(final(self).log()),
            compile_trace(
                final(self).log().skip(old(self).log().len() as int),
                cd@,
                src@,
                compile.deep_view(),
                r,
            ),
    ;

    /// Runs an executable once.
    fn run_once(&mut self, cd: &str, exec: &str, run: &Vec<String>) -> (r: Result<(), Error>)
        ensures
            old(self).log().is_prefix_of(final(self).log()),
            run_once_trace(
                final(self).log().skip(old(self).log().len() as int),
                cd@,
                exec@,
                run.deep_view(),
                r,
            ),
    ;

    /// Runs an executable with an input file piped to its standard input,
    /// returning the captured standard output.
    fn run_with_input(&mut self, cd: &str, exec: &str, run: &Vec<String>, infile: &str) -> (r:
        Result<Vec<u8>, RunFailure>)
        ensures
            old(self).log().is_prefix_of(final(self).log()),
            run_with_input_trace(
                final(self).log().skip(old(self).log().len() as int),
                cd@,
                exec@,
                run.deep_view(),
                infile@,
                r,
            ),
    ;

    /// Runs an executable with an input file piped to its standard input and
    /// writes the captured output to a new output file.
    fn run_pipe(&mut self, cd: &str, exec: &str, run: &Vec<String>, infile: &str, outfile: &str) -> (r:
        Result<(), Error>)
        ensures
            old(self).log().is_prefix_of(final(self).log()),
            run_pipe_trace(
                final(self).log().skip(old(self).log().len() as int),
                cd@,
                exec@,
                run.deep_view(),
                infile@,
                outfile@,
                r,
            ),
    ;
}

impl<T: RunUtilExt> RunUtil for T {
    fn compile(&mut self, cd: &str, src: &str, compile: &Vec<String>) -> (r: Result<String, Error>) {
        let ghost base = self.log();
        let mk = self.mkdir_p("/tmp/creo-cache");
        match mk {
            Err(e) => {
                proof {
                    assert(self.log().skip(base.len() as int) =~= seq![
                        Event::Mkdir { path: cache_dir_spec(), result: Err(e) },
                    ]);
                }
                return Err(e);
            },
            Ok(_) => {},
        }
        let rd = self.read_bytes_from_file(src);
        let bytes = match rd {
            Ok(b) => b,
            Err(e) => {
                proof {
                    assert(self.log().skip(base.len() as int) =~= seq![
                        Event::Mkdir { path: cache_dir_spec(), result: mk },
                        Event::ReadBytes { path: src@, bytes: Err(e) },
                    ]);
                }
                return Err(e);
            },
        };
        let key = build_cache_key(compile, &bytes);
        let digest = sha256(&key);
        let hex = to_hex(&digest);
        let mut out = String::from_str("/tmp/creo-cache");
        out.append("/");
        out.append(hex.as_str());
        proof {
            assert(out@ =~= cache_path_spec(cache_key_spec(compile.deep_view(), bytes@)));
        }
        let hit = self.is_file(out.as_str());
        if hit {
            proof {
                assert(self.log().skip(base.len() as int) =~= seq![
                    Event::Mkdir { path: cache_dir_spec(), result: mk },
                    Event::ReadBytes { path: src@, bytes: Ok(bytes@) },
                    Event::IsFile { path: out@, exists: true },
                ]);
            }
            return Ok(out);
        }
        let argv = substitute_compile(compile, src, out.as_str());
        let outcome = self.spawn_status(cd, &argv);
        proof {
            assert(self.log().skip(base.len() as int) =~= seq![
                Event::Mkdir { path: cache_dir_spec(), result: mk },
                Event::ReadBytes { path: src@, bytes: Ok(bytes@) },
                Event::IsFile { path: out@, exists: false },
                Event::Spawn { cd: cd@, argv: argv.deep_view(), outcome: outcome },
            ]);
        }
        match outcome {
            RunOutcome::Success => Ok(out),
            RunOutcome::NonZeroExit { code: _ } => Err(Error::IOError {
                message: compile_failed_message(src),
            }),
            RunOutcome::LaunchFailure { message } => Err(Error::IOError { message }),
        }
    }

    fn run_once(&mut self, cd: &str, exec: &str, run: &Vec<String>) -> (r: Result<(), Error>) {
        let ghost base = self.log();
        let argv = substitute_run(run, exec);
        let outcome = self.spawn_status(cd, &argv);
        proof {
            assert(self.log().skip(base.len() as int) =~= seq![
                Event::Spawn { cd: cd@, argv: argv.deep_view(), outcome: outcome },
            ]);
        }
        match outcome {
            RunOutcome::Success => Ok(()),
            RunOutcome::NonZeroExit { code: _ } => Err(Error::IOError {
                message: exec_failed_message(exec),
            }),
            RunOutcome::LaunchFailure { message } => Err(Error::IOError { message }),
        }
    }

    fn run_with_input(&mut self, cd: &str, exec: &str, run: &Vec<String>, infile: &str) -> (r:
        Result<Vec<u8>, RunFailure>) {
        let ghost base = self.log();
        let rd = self.read_bytes_from_file(infile);
        let bytes = match rd {
            Ok(b) => b,
            Err(e) => {
                let message = e.describe();
                proof {
                    assert(self.log().skip(base.len() as int) =~= seq![
                        Event::ReadBytes { path: infile@, bytes: Err(e) },
                    ]);
                }
                return Err(RunFailure::LaunchFailure { message });
            },
        };
        let argv = substitute_run(run, exec);
        let piped = self.spawn_piped(cd, &argv, &bytes);
        let (outcome, output) = piped;
        proof {
            assert(self.log().skip(base.len() as int) =~= seq![
                Event::ReadBytes { path: infile@, bytes: Ok(bytes@) },
                Event::SpawnPiped {
                    cd: cd@,
                    argv: argv.deep_view(),
                    input: bytes@,
                    outcome: outcome,
                    output: output@,
                },
            ]);
        }
        match outcome {
            RunOutcome::Success => Ok(output),
            RunOutcome::NonZeroExit { code } => Err(RunFailure::NonZeroExit { code }),
            RunOutcome::LaunchFailure { message } => Err(RunFailure::LaunchFailure { message }),
        }
    }

    fn run_pipe(&mut self, cd: &str, exec: &str, run: &Vec<String>, infile: &str, outfile: &str) -> (r:
        Result<(), Error>) {
        let ghost base = self.log();
        let rwi = self.run_with_input(cd, exec, run, infile);
        let ghost rwi_evs = self.log().skip(base.len() as int);
        proof {
            assert(self.log() =~= base + rwi_evs);
        }
        let captured = match rwi {
            Ok(bytes) => bytes,
            Err(f) => {
                let err = run_failure_to_error(f, exec);
                return Err(err);
            },
        };
        let cr = self.create_file_if_nonexistent(outfile, 0o644);
        match cr {
            Err(e) => {
                proof {
                    assert(self.log().skip(base.len() as int) =~= rwi_evs.push(
                        Event::CreateFile { path: outfile@, mode: 0o644u32, result: Err(e) },
                    ));
                    assert(rwi_evs.len() == 2);
                }
                return Err(e);
            },
            Ok(_) => {},
        }
        let wr = self.write_bytes_to_file(outfile, &captured);
        proof {
            assert(self.log().skip(base.len() as int) =~= rwi_evs.push(
                Event::CreateFile { path: outfile@, mode: 0o644u32, result: cr },
            ).push(Event::WriteBytes { path: outfile@, bytes: captured@, result: wr }));
            assert(rwi_evs.len() == 2);
        }
        wr
    }
}

/// Law: within one compilation, a cache hit spawns nothing.  When the
/// artifact file is already present at the content address, the compiler is
/// not invoked; so compiling the same template and source bytes a second
/// time, once the artifact exists, invokes the underlying compile process
/// zero further times.
pub proof fn lemma_compile_cache_hit_spawns_nothing(
    evs: Seq<Event>,
    cd: Seq<char>,
    src: Seq<char>,
    compile: Seq<Seq<char>>,
    r: Result<String, Error>,
)
    requires
        compile_trace(evs, cd, src, compile, r),
        2 < evs.len(),
        evs[2] matches Event::IsFile { path: _, exists: true },
    ensures
        evs.len() == 3,
        r is Ok,
        forall|i: int| 0 <= i < evs.len() ==> !(#[trigger] evs[i] is Spawn),
{
}

/// Law: two compilations with the same compile template whose source reads
/// returned the same bytes compute the same artifact path, whatever the
/// working directories and source names were.
pub proof fn lemma_compile_same_inputs_same_address(
    evs1: Seq<Event>,
    evs2: Seq<Event>,
    cd1: Seq<char>,
    cd2: Seq<char>,
    src1: Seq<char>,
    src2: Seq<char>,
    compile: Seq<Seq<char>>,
    r1: Result<String, Error>,
    r2: Result<String, Error>,
)
    requires
        compile_trace(evs1, cd1, src1, compile, r1),
        compile_trace(evs2, cd2, src2, compile, r2),
        1 < evs1.len(),
        1 < evs2.len(),
        ({
            &&& evs1[1] matches Event::ReadBytes { path: _, bytes: Ok(b1) }
            &&& evs2[1] matches Event::ReadBytes { path: _, bytes: Ok(b2) }
            &&& b1 == b2
        }),
        r1 is Ok,
        r2 is Ok,
    ensures
        r1->Ok_0@ == r2->Ok_0@,
{
}

/// Law: distinct digests address distinct artifact paths; the cache address
/// separates any two compilations whose digest inputs hash differently.
pub proof fn lemma_distinct_digests_distinct_addresses(k1: Seq<u8>, k2: Seq<u8>)
    requires
        sha256_of(k1) != sha256_of(k2),
    ensures
        cache_path_spec(k1) != cache_path_spec(k2),
{
    if cache_path_spec(k1) == cache_path_spec(k2) {
        let p = cache_dir_spec() + "/"@;
        let h1 = hex_of(sha256_of(k1));
        let h2 = hex_of(sha256_of(k2));
        assert(p + h1 == p + h2);
        assert((p + h1).len() == (p + h2).len());
        assert(h1.len() == h2.len());
        assert forall|i: int| 0 <= i < h1.len() implies h1[i] == h2[i] by {
            assert((p + h1)[p.len() + i] == h1[i]);
            assert((p + h2)[p.len() + i] == h2[i]);
        }
        assert(h1 =~= h2);
        lemma_hex_of_injective(sha256_of(k1), sha256_of(k2));
    }
}

/// Law: with an identical compile template, different source bytes give a
/// different digest input, so they cannot silently share a cache address
/// unless the digests themselves collide.
pub proof fn lemma_key_differs_on_source(compile: Seq<Seq<char>>, s1: Seq<u8>, s2: Seq<u8>)
    requires
        s1 != s2,
    ensures
        cache_key_spec(compile, s1) != cache_key_spec(compile, s2),
{
    if cache_key_spec(compile, s1) == cache_key_spec(compile, s2) {
        let t = tokens_bytes(compile);
        assert((t + s1).len() == (t + s2).len());
        assert(s1.len() == s2.len());
        assert forall|i: int| 0 <= i < s1.len() implies s1[i] == s2[i] by {
            assert((t + s1)[t.len() + i] == s1[i]);
            assert((t + s2)[t.len() + i] == s2[i]);
        }
        assert(s1 =~= s2);
    }
}

} // verus!
