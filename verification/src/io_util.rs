use vstd::prelude::*;

use crate::entity::config::CreoConfig;
use crate::error::Error;
use crate::run_util::RunOutcome;

verus! {

/// One recorded filesystem or process effect, together with its observed
/// outcome.  Each capability method appends exactly one event to an abstract
/// log, and the engine's contracts are stated over that log: what was done,
/// in which order, and what each step returned.
pub enum Event {
    /// The manifest of a project directory was read and parsed.
    ReadConfig { proj: Seq<char>, loaded: Result<CreoConfig, Error> },
    /// A file was created (failing if it already existed).
    CreateFile { path: Seq<char>, mode: u32, result: Result<(), Error> },
    /// A directory was created, with its missing parents.
    Mkdir { path: Seq<char>, result: Result<(), Error> },
    /// A directory tree was removed; a missing directory counts as success.
    RemoveDirAll { path: Seq<char>, result: Result<(), Error> },
    /// Text was written to a file.
    WriteStr { path: Seq<char>, text: Seq<char>, result: Result<(), Error> },
    /// Bytes were written to a file.
    WriteBytes { path: Seq<char>, bytes: Seq<u8>, result: Result<(), Error> },
    /// A file was read as text.
    ReadText { path: Seq<char>, text: Result<Seq<char>, Error> },
    /// A file was read as bytes.
    ReadBytes { path: Seq<char>, bytes: Result<Seq<u8>, Error> },
    /// A path was resolved to an absolute, normalized path.
    ToAbsolute { path: Seq<char>, abs: Result<Seq<char>, Error> },
    /// The plain files of a directory were listed, as names relative to it.
    ListDir { path: Seq<char>, entries: Result<Seq<Seq<char>>, Error> },
    /// A path was tested for being an existing plain file.
    IsFile { path: Seq<char>, exists: bool },
    /// A process was run to completion in a working directory.
    Spawn { cd: Seq<char>, argv: Seq<Seq<char>>, outcome: RunOutcome },
    /// A process was run with bytes piped to its standard input and its
    /// standard output captured.
    SpawnPiped {
        cd: Seq<char>,
        argv: Seq<Seq<char>>,
        input: Seq<u8>,
        outcome: RunOutcome,
        output: Seq<u8>,
    },
}

/// Filesystem capability.  An implementation performs the effects and
/// records each call, with its outcome, in the abstract log; the engine is
/// verified against that record, for every outcome the filesystem may
/// choose.
pub trait IoUtil: Sized {
    /// Abstract record of every effect performed through this capability.
    /// An implementation overrides this with its own view of what it has
    /// done; the contracts below bind every override.
    open spec fn log(&self) -> Seq<Event> {
        Seq::empty()
    }

    /// Creates a file, failing if a file with the same name exists; missing
    /// parent directories are created first.
    fn create_file_if_nonexistent(&mut self, path: &str, mode: u32) -> (r: Result<(), Error>)
        ensures
            final(self).log() == old(self).log().push(
                Event::CreateFile { path: path@, mode, result: r },
            ),
    ;

    /// Makes a directory and its missing parents; idempotent.
    fn mkdir_p(&mut self, path: &str) -> (r: Result<(), Error>)
        ensures
            final(self).log() == old(self).log().push(Event::Mkdir { path: path@, result: r }),
    ;

    /// Removes a directory tree; a missing directory counts as success.
    fn remove_dir_all(&mut self, path: &str) -> (r: Result<(), Error>)
        ensures
            final(self).log() == old(self).log().push(
                Event::RemoveDirAll { path: path@, result: r },
            ),
    ;

    /// Writes a string to a file.
    fn write_str_to_file(&mut self, path: &str, s: &str) -> (r: Result<(), Error>)
        ensures
            final(self).log() == old(self).log().push(
                Event::WriteStr { path: path@, text: s@, result: r },
            ),
    ;

    /// Writes bytes to a file.
    fn write_bytes_to_file(&mut self, path: &str, bytes: &Vec<u8>) -> (r: Result<(), Error>)
        ensures
            final(self).log() == old(self).log().push(
                Event::WriteBytes { path: path@, bytes: bytes@, result: r },
            ),
    ;

    /// Reads a whole file as text.
    fn read_from_file(&mut self, path: &str) -> (r: Result<String, Error>)
        ensures
            r matches Ok(s) ==> final(self).log() == old(self).log().push(
                Event::ReadText { path: path@, text: Ok(s@) },
            ),
            r matches Err(e) ==> final(self).log() == old(self).log().push(
                Event::ReadText { path: path@, text: Err(e) },
            ),
    ;

    /// Reads a whole file as bytes.
    fn read_bytes_from_file(&mut self, path: &str) -> (r: Result<Vec<u8>, Error>)
        ensures
            r matches Ok(b) ==> final(self).log() == old(self).log().push(
                Event::ReadBytes { path: path@, bytes: Ok(b@) },
            ),
            r matches Err(e) ==> final(self).log() == old(self).log().push(
                Event::ReadBytes { path: path@, bytes: Err(e) },
            ),
    ;

    /// Resolves a path to an absolute path, lexically normalized, without
    /// touching the filesystem.
    fn to_absolute(&mut self, path: &str) -> (r: Result<String, Error>)
        ensures
            r matches Ok(p) ==> final(self).log() == old(self).log().push(
                Event::ToAbsolute { path: path@, abs: Ok(p@) },
            ),
            r matches Err(e) ==> final(self).log() == old(self).log().push(
                Event::ToAbsolute { path: path@, abs: Err(e) },
            ),
    ;

    /// Lists the plain files of a directory, as names relative to it.
    fn list_dir(&mut self, path: &str) -> (r: Result<Vec<String>, Error>)
        ensures
            r matches Ok(files) ==> final(self).log() == old(self).log().push(
                Event::ListDir { path: path@, entries: Ok(files.deep_view()) },
            ),
            r matches Err(e) ==> final(self).log() == old(self).log().push(
                Event::ListDir { path: path@, entries: Err(e) },
            ),
    ;

    /// Tells whether a plain file exists at a path.
    fn is_file(&mut self, path: &str) -> (r: bool)
        ensures
            final(self).log() == old(self).log().push(Event::IsFile { path: path@, exists: r }),
    ;
}

} // verus!
