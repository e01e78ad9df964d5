use vstd::prelude::*;
use vstd::string::StrSliceExecFns;
use vstd::string::StringExecFns;

verus! {

/// View of joining a base path and a second path with a slash; an absolute
/// second path stands alone.
pub open spec fn path_join_spec(a: Seq<char>, b: Seq<char>) -> Seq<char> {
    if b.len() > 0 && b[0] == '/' {
        b
    } else {
        a + "/"@ + b
    }
}

/// Joins a base path and a relative path with a slash; an absolute second
/// path is returned unchanged.
pub fn path_join(a: &str, b: &str) -> (r: String)
    ensures
        r@ =~= path_join_spec(a@, b@),
{
    if b.unicode_len() > 0 && b.get_char(0) == '/' {
        b.to_owned()
    } else {
        let mut s = a.to_owned();
        s.append("/");
        s.append(b);
        s
    }
}

/// What lexical path cleaning computes for a path: repeated separators and
/// `.` segments vanish, and a `..` segment removes the preceding ordinary
/// segment.  The result depends on the path string alone.
pub uninterp spec fn cleaned_of(path: Seq<char>) -> Seq<char>;

/// Relies on path_clean::clean: lexically normalizes `.` and `..` segments
/// and repeated separators without touching the filesystem.
#[verifier::external_body]
pub(crate) fn clean_path(path: &str) -> (r: String)
    ensures
        r@ == cleaned_of(path@),
{
    let cleaned = path_clean::clean(path);
    match cleaned.to_str() {
        Some(s) => s.to_owned(),
        None => path.to_owned(),
    }
}

/// The directory of a path: its parent, computed lexically by joining with
/// `..` and cleaning.
pub fn parent_dir(path: &str) -> (r: String)
    ensures
        r@ == cleaned_of(path_join_spec(path@, ".."@)),
{
    let joined = path_join(path, "..");
    clean_path(joined.as_str())
}

} // verus!
