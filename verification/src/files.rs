//! Files found under a package or source directory, as plain values.
use vstd::prelude::*;

use crate::text::{chars_of, equals_str, slice_chars};

verus! {

/// A regular file met while walking a directory tree.
pub struct WalkedFile {
    /// The full path, as displayed.
    pub path: String,
    /// The path relative to the walked root, as displayed.
    pub relative_path: String,
    /// The last component of the path.
    pub file_name: String,
    /// The text of the file, where it was read (see `needs_content`).
    pub content: Option<String>,
}

/// Position of the last `.` in `s`, or -1.
pub open spec fn last_dot(s: Seq<char>) -> int
    decreases s.len(),
{
    if s.len() == 0 {
        -1
    } else if s.last() == '.' {
        s.len() - 1
    } else {
        last_dot(s.drop_last())
    }
}

/// The extension of a file name as `Path::extension` gives it: the text
/// after the last `.`, unless there is no `.` or the name starts with its
/// only `.`; empty where there is none.
pub open spec fn extension_of(name: Seq<char>) -> Seq<char> {
    let d = last_dot(name);
    if d > 0 {
        name.skip(d + 1)
    } else {
        seq![]
    }
}

/// The extensions of the source files that are read and analyzed.
pub open spec fn source_extension(e: Seq<char>) -> bool {
    ||| e == "js"@
    ||| e == "ts"@
    ||| e == "mjs"@
    ||| e == "cjs"@
    ||| e == "py"@
    ||| e == "jsx"@
    ||| e == "tsx"@
}

/// The extensions of the script files checked for obfuscation.
pub open spec fn script_extension(e: Seq<char>) -> bool {
    e == "js"@ || e == "mjs"@ || e == "cjs"@
}

/// The extension of the file name `name` (empty where it has none).
pub fn file_extension(name: &str) -> (e: Vec<char>)
    ensures
        e@ == extension_of(name@),
{
    let cs = chars_of(name);
    let n = cs.len();
    let mut i: usize = n;
    assert(cs@.take(n as int) =~= cs@);
    while i > 0 && cs[i - 1] != '.'
        invariant
            n == cs@.len(),
            i <= n,
            last_dot(cs@) == last_dot(cs@.take(i as int)),
        decreases i,
    {
        proof {
            assert(cs@.take(i as int).drop_last() =~= cs@.take(i - 1));
        }
        i = i - 1;
    }
    proof {
        assert(cs@.take(n as int) =~= cs@);
        if i > 0 {
            assert(cs@.take(i as int).last() == cs@[i - 1]);
        }
    }
    if i > 1 {
        slice_chars(cs.as_slice(), i, n)
    } else {
        Vec::new()
    }
}

/// Whether `e` is the extension of a source file.
pub fn is_source_extension(e: &[char]) -> (b: bool)
    ensures
        b == source_extension(e@),
{
    equals_str(e, "js") || equals_str(e, "ts") || equals_str(e, "mjs") || equals_str(e, "cjs")
        || equals_str(e, "py") || equals_str(e, "jsx") || equals_str(e, "tsx")
}

/// Whether `e` is the extension of a script file.
pub fn is_script_extension(e: &[char]) -> (b: bool)
    ensures
        b == script_extension(e@),
{
    equals_str(e, "js") || equals_str(e, "mjs") || equals_str(e, "cjs")
}

/// Whether the analyzers read the text of a file with this name: the
/// source and script files.
pub fn needs_content(file_name: &str) -> (b: bool)
    ensures
        b == source_extension(extension_of(file_name@)),
{
    let e = file_extension(file_name);
    is_source_extension(e.as_slice())
}

} // verus!
