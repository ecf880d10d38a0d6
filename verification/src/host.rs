//! What lowering knows of the machine that it runs on: how paths are
//! written there, and which files exist.

use crate::text::{chars_of, string_of};
use std::path::Path;
use vstd::prelude::*;
use vstd::string::StringExecFns;

verus! {

/// The files that exist on disk, and the directory that relative paths
/// start from.
#[derive(Debug, Clone)]
pub struct Disk {
    /// The working directory of the compiler.
    pub current_dir: String,
    /// The canonical paths of the regular files that exist.
    pub files: Vec<String>,
}

/// The machine that the compiler runs on.
#[derive(Debug, Clone)]
pub struct Host {
    /// The character that separates the components of a path.
    pub separator: char,
    /// The disk; `None` where imports are taken as they are written,
    /// without a look at any disk.
    pub disk: Option<Disk>,
}

pub struct DiskView {
    pub current_dir: Seq<char>,
    pub files: Seq<Seq<char>>,
}

pub struct HostView {
    pub separator: char,
    pub disk: Option<DiskView>,
}

impl View for Disk {
    type V = DiskView;

    open spec fn view(&self) -> DiskView {
        DiskView {
            current_dir: self.current_dir@,
            files: Seq::new(self.files@.len(), |i: int| self.files@[i]@),
        }
    }
}

impl View for Host {
    type V = HostView;

    open spec fn view(&self) -> HostView {
        HostView {
            separator: self.separator,
            disk: match self.disk {
                Some(disk) => Some(disk@),
                None => None,
            },
        }
    }
}

/// The path that joining `path` to `base` gives on this machine.
pub uninterp spec fn joined_path(base: Seq<char>, path: Seq<char>) -> Seq<char>;

/// The path that `path` is cleaned to: without `.` components, and
/// without the `..` components that a component before them cancels.
pub uninterp spec fn cleaned_path(path: Seq<char>) -> Seq<char>;

/// `std::path::Path::join`: `path` appended to `base` as the rules of
/// this machine's paths have it.
#[verifier::external_body]
pub(crate) fn join_paths(base: &str, path: &str) -> (joined: String)
    ensures
        joined@ == joined_path(base@, path@),
{
    Path::new(base).join(path).to_string_lossy().to_string()
}

/// `path_clean::clean`: the lexically cleaned form of `path`.
#[verifier::external_body]
pub(crate) fn clean_path(path: &str) -> (cleaned: String)
    ensures
        cleaned@ == cleaned_path(path@),
{
    path_clean::clean(path).to_string_lossy().to_string()
}

/// `text` with each `/` and each `\` replaced by `separator`.
pub open spec fn with_separator(text: Seq<char>, separator: char) -> Seq<char> {
    text.map_values(
        |c: char|
            if c == '/' || c == '\\' {
                separator
            } else {
                c
            },
    )
}

/// Whether `text` ends in `.capy`.
pub open spec fn ends_in_dot_capy(text: Seq<char>) -> bool {
    text.len() >= 5 && text.subrange(text.len() - 5, text.len() as int) == seq![
        '.',
        'c',
        'a',
        'p',
        'y',
    ]
}

/// The canonical path of the file that `import` names in the file
/// `importer`: the import joined to the importer's directory, below the
/// working directory, and cleaned.
pub open spec fn resolved_import(
    current_dir: Seq<char>,
    importer: Seq<char>,
    import: Seq<char>,
) -> Seq<char> {
    cleaned_path(
        joined_path(joined_path(joined_path(current_dir, importer), seq!['.', '.']), import),
    )
}

impl DiskView {
    pub open spec fn has_file(self, path: Seq<char>) -> bool {
        self.files.contains(path)
    }
}

/// `text` with each `/` and each `\` replaced by `separator`.
pub fn replace_separators(text: &str, separator: char) -> (replaced: String)
    ensures
        replaced@ == with_separator(text@, separator),
{
    let chars: Vec<char> = chars_of(text);
    let mut out: Vec<char> = Vec::new();
    let mut i: usize = 0;
    while i < chars.len()
        invariant
            i <= chars@.len(),
            out@ == with_separator(chars@.take(i as int), separator),
        decreases chars.len() - i,
    {
        let c: char = chars[i];
        if c == '/' || c == '\\' {
            out.push(separator);
        } else {
            out.push(c);
        }
        assert(out@ =~= with_separator(chars@.take(i + 1), separator));
        i = i + 1;
    }
    assert(chars@.take(chars@.len() as int) =~= chars@);
    string_of(&out)
}

/// Whether `text` ends in `.capy`.
pub fn has_capy_extension(text: &str) -> (ok: bool)
    ensures
        ok == ends_in_dot_capy(text@),
{
    let chars: Vec<char> = chars_of(text);
    let n: usize = chars.len();
    if n < 5 {
        return false;
    }
    let ok: bool = chars[n - 5] == '.' && chars[n - 4] == 'c' && chars[n - 3] == 'a' && chars[n
        - 2] == 'p' && chars[n - 1] == 'y';
    proof {
        let tail = chars@.subrange(n - 5, n as int);
        let want = seq!['.', 'c', 'a', 'p', 'y'];
        if ok {
            assert(tail =~= want);
        } else {
            assert(tail[0] == chars@[n - 5]);
            assert(tail[1] == chars@[n - 4]);
            assert(tail[2] == chars@[n - 3]);
            assert(tail[3] == chars@[n - 2]);
            assert(tail[4] == chars@[n - 1]);
            assert(tail != want);
        }
    }
    ok
}

impl Disk {
    /// The canonical path of the file that `import` names in `importer`.
    pub fn resolve(&self, importer: &str, import: &str) -> (path: String)
        ensures
            path@ == resolved_import(self@.current_dir, importer@, import@),
    {
        proof {
            reveal_strlit("..");
            assert(".."@ =~= seq!['.', '.']);
        }
        let in_dir: String = join_paths(self.current_dir.as_str(), importer);
        let parent: String = join_paths(in_dir.as_str(), "..");
        let joined: String = join_paths(parent.as_str(), import);
        clean_path(joined.as_str())
    }

    /// Whether `path` is one of the regular files that exist.
    pub fn has_file(&self, path: &str) -> (found: bool)
        ensures
            found == self@.has_file(path@),
    {
        let wanted: String = String::from_str(path);
        let mut i: usize = 0;
        while i < self.files.len()
            invariant
                wanted@ == path@,
                i <= self.files@.len(),
                forall|j: int| 0 <= j < i ==> self@.files[j] != path@,
            decreases self.files.len() - i,
        {
            if self.files[i] == wanted {
                assert(self@.files[i as int] == path@);
                return true;
            }
            i = i + 1;
        }
        false
    }
}

} // verus!
