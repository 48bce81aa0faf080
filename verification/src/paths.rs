//! Building relative filesystem paths and file names as plain strings.

use vstd::prelude::*;
use vstd::string::StringExecFns;

verus! {

/// The name that results from placing `name` inside the directory `dir`.
pub open spec fn spec_path_join(dir: Seq<char>, name: Seq<char>) -> Seq<char> {
    dir + "/"@ + name
}

/// The file name that results from appending the extension `ext` to `stem`.
pub open spec fn spec_with_extension(stem: Seq<char>, ext: Seq<char>) -> Seq<char> {
    stem + "."@ + ext
}

/// Joins a directory and an entry name with a single `/` separator.
pub fn path_join(dir: &str, name: &str) -> (joined: String)
    ensures
        joined@ == spec_path_join(dir@, name@),
{
    let mut joined = dir.to_owned();
    joined.append("/");
    joined.append(name);
    joined
}

/// Appends a `.`-separated extension to a file name stem.
pub fn with_extension(stem: &str, ext: &str) -> (named: String)
    ensures
        named@ == spec_with_extension(stem@, ext@),
{
    let mut named = stem.to_owned();
    named.append(".");
    named.append(ext);
    named
}

} // verus!
