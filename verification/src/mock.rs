use vstd::prelude::*;
use vstd::string::StringExecFns;

use crate::entity::config::CreoConfig;
use crate::entity::project::config_file_of;
use crate::entity::project::ProjectExt;
use crate::error::Error;
use crate::io_util::Event;
use crate::io_util::IoUtil;
use crate::run_util::RunOutcome;
use crate::run_util::RunUtilExt;

verus! {

/// An in-memory stand-in for the filesystem and process capabilities, with
/// scripted outcomes.  It lets the pipeline engine run without touching real
/// disk or processes: every read returns the scripted bytes, every run the
/// scripted status and output, and every call is recorded so that a test can
/// inspect what the engine did.
pub struct MockProject {
    /// The manifest handed to the engine.
    pub config: CreoConfig,
    /// Bytes returned by every byte read.
    pub file_bytes: Vec<u8>,
    /// Text returned by every text read.
    pub file_text: String,
    /// The path every absolute-path resolution returns.
    pub absolute: String,
    /// Names returned when a directory is listed.
    pub listing: Vec<String>,
    /// Whether a file-existence test reports the file as present.
    pub file_present: bool,
    /// Exit code reported for plain runs; zero is success.
    pub run_exit_code: i32,
    /// Exit code reported for piped runs; zero is success.
    pub piped_exit_code: i32,
    /// Output captured from every piped run.
    pub piped_output: Vec<u8>,
    /// Paths read, in order.
    pub reads: Vec<String>,
    /// Paths of files created, in order.
    pub created: Vec<String>,
    /// Paths and bytes written, in order.
    pub writes: Vec<(String, Vec<u8>)>,
    /// Working directories and argument vectors spawned, in order.
    pub spawns: Vec<(String, Vec<String>)>,
    /// The abstract record of every capability call.
    pub history: Ghost<Seq<Event>>,
}

impl MockProject {
    /// A double whose runs succeed: reads return `correct output`, piped
    /// runs capture `wrong output`, listings name the files `a` and `b`, and
    /// path resolution answers `gen-absolute.cpp`.
    pub fn new(config: CreoConfig) -> (r: MockProject) {
        let mut file_bytes: Vec<u8> = Vec::new();
        file_bytes.extend_from_slice("correct output".as_bytes());
        let mut piped_output: Vec<u8> = Vec::new();
        piped_output.extend_from_slice("wrong output".as_bytes());
        let mut listing: Vec<String> = Vec::new();
        listing.push(String::from_str("a"));
        listing.push(String::from_str("b"));
        MockProject {
            config,
            file_bytes,
            file_text: String::new(),
            absolute: String::from_str("gen-absolute.cpp"),
            listing,
            file_present: false,
            run_exit_code: 0,
            piped_exit_code: 0,
            piped_output,
            reads: Vec::new(),
            created: Vec::new(),
            writes: Vec::new(),
            spawns: Vec::new(),
            history: Ghost(Seq::empty()),
        }
    }
}

impl IoUtil for MockProject {
    open spec fn log(&self) -> Seq<Event> {
        self.history@
    }

    fn create_file_if_nonexistent(&mut self, path: &str, mode: u32) -> (r: Result<(), Error>) {
        self.created.push(path.to_owned());
        let r: Result<(), Error> = Ok(());
        self.history = Ghost(
            self.history@.push(Event::CreateFile { path: path@, mode, result: r }),
        );
        r
    }

    fn mkdir_p(&mut self, path: &str) -> (r: Result<(), Error>) {
        let r: Result<(), Error> = Ok(());
        self.history = Ghost(self.history@.push(Event::Mkdir { path: path@, result: r }));
        r
    }

    fn remove_dir_all(&mut self, path: &str) -> (r: Result<(), Error>) {
        let r: Result<(), Error> = Ok(());
        self.history = Ghost(self.history@.push(Event::RemoveDirAll { path: path@, result: r }));
        r
    }

    fn write_str_to_file(&mut self, path: &str, s: &str) -> (r: Result<(), Error>) {
        let mut bytes: Vec<u8> = Vec::new();
        bytes.extend_from_slice(s.as_bytes());
        self.writes.push((path.to_owned(), bytes));
        let r: Result<(), Error> = Ok(());
        self.history = Ghost(
            self.history@.push(Event::WriteStr { path: path@, text: s@, result: r }),
        );
        r
    }

    fn write_bytes_to_file(&mut self, path: &str, bytes: &Vec<u8>) -> (r: Result<(), Error>) {
        self.writes.push((path.to_owned(), bytes.clone()));
        let r: Result<(), Error> = Ok(());
        self.history = Ghost(
            self.history@.push(Event::WriteBytes { path: path@, bytes: bytes@, result: r }),
        );
        r
    }

    fn read_from_file(&mut self, path: &str) -> (r: Result<String, Error>) {
        self.reads.push(path.to_owned());
        let text = self.file_text.clone();
        let ghost tview = text@;
        let r: Result<String, Error> = Ok(text);
        self.history = Ghost(self.history@.push(Event::ReadText { path: path@, text: Ok(tview) }));
        r
    }

    fn read_bytes_from_file(&mut self, path: &str) -> (r: Result<Vec<u8>, Error>) {
        self.reads.push(path.to_owned());
        let bytes = self.file_bytes.clone();
        let ghost bview = bytes@;
        let r: Result<Vec<u8>, Error> = Ok(bytes);
        self.history = Ghost(
            self.history@.push(Event::ReadBytes { path: path@, bytes: Ok(bview) }),
        );
        r
    }

    fn to_absolute(&mut self, path: &str) -> (r: Result<String, Error>) {
        let abs = self.absolute.clone();
        let ghost aview = abs@;
        let r: Result<String, Error> = Ok(abs);
        self.history = Ghost(self.history@.push(Event::ToAbsolute { path: path@, abs: Ok(aview) }));
        r
    }

    fn list_dir(&mut self, path: &str) -> (r: Result<Vec<String>, Error>) {
        let files = self.listing.clone();
        let ghost fview = files.deep_view();
        let r: Result<Vec<String>, Error> = Ok(files);
        self.history = Ghost(
            self.history@.push(Event::ListDir { path: path@, entries: Ok(fview) }),
        );
        r
    }

    fn is_file(&mut self, path: &str) -> (r: bool) {
        let r = self.file_present;
        self.history = Ghost(self.history@.push(Event::IsFile { path: path@, exists: r }));
        r
    }
}

impl RunUtilExt for MockProject {
    fn spawn_status(&mut self, cd: &str, argv: &Vec<String>) -> (r: RunOutcome) {
        self.spawns.push((cd.to_owned(), argv.clone()));
        let r = if self.run_exit_code == 0 {
            RunOutcome::Success
        } else {
            RunOutcome::NonZeroExit { code: self.run_exit_code }
        };
        self.history = Ghost(
            self.history@.push(Event::Spawn { cd: cd@, argv: argv.deep_view(), outcome: r }),
        );
        r
    }

    fn spawn_piped(&mut self, cd: &str, argv: &Vec<String>, input: &Vec<u8>) -> (r: (
        RunOutcome,
        Vec<u8>,
    )) {
        self.spawns.push((cd.to_owned(), argv.clone()));
        let outcome = if self.piped_exit_code == 0 {
            RunOutcome::Success
        } else {
            RunOutcome::NonZeroExit { code: self.piped_exit_code }
        };
        let output = self.piped_output.clone();
        let ghost oview = output@;
        let r = (outcome, output);
        self.history = Ghost(
            self.history@.push(
                Event::SpawnPiped {
                    cd: cd@,
                    argv: argv.deep_view(),
                    input: input@,
                    outcome: r.0,
                    output: oview,
                },
            ),
        );
        r
    }
}

impl ProjectExt for MockProject {
    fn read_config(&mut self, proj_dir: &str) -> (r: Result<CreoConfig, Error>) {
        let config = self.config.clone();
        let r: Result<CreoConfig, Error> = Ok(config);
        self.history = Ghost(
            self.history@.push(
                Event::ReadConfig { proj: config_file_of(proj_dir@), loaded: r },
            ),
        );
        r
    }
}

} // verus!
