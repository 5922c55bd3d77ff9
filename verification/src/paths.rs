//! Names inside directories.

use vstd::prelude::*;

#[allow(unused_imports)]
use crate::text;

verus! {

/// Whether a name is that of one entry of a directory on every platform: nothing in it
/// parts components or names a drive, and it is no directory's own entry.
pub open spec fn is_entry(name: Seq<char>) -> bool {
    &&& name.len() > 0
    &&& !name.contains('/')
    &&& !name.contains('\\')
    &&& !name.contains(':')
    &&& name != "."@
    &&& name != ".."@
}

/// Whether a path starts with the prefix by which Windows takes the rest of it as it stands.
pub open spec fn is_verbatim(path: Seq<char>) -> bool {
    path.len() >= 4 && path[0] == '\\' && path[1] == '\\' && path[2] == '?' && path[3] == '\\'
}

/// Whether `path` is the entry `name` of the directory `dir`. Between the two is the
/// separator of the platform, a slash or a backslash, unless the directory ends in one or
/// is a bare drive.
pub open spec fn is_inside(dir: Seq<char>, name: Seq<char>, path: Seq<char>) -> bool {
    &&& is_entry(name) ==> text::has_suffix(path, name)
    &&& is_entry(name) && dir.len() == 0 ==> path == name
    &&& is_entry(name) && dir.len() > 0 && !is_verbatim(dir) ==> {
        let bare = path == dir + name;
        let parted = path == dir + "/"@ + name || path == dir + "\\"@ + name;
        if dir.last() == '/' {
            bare
        } else if dir.last() == '\\' || dir.last() == ':' {
            bare || parted
        } else {
            parted
        }
    }
}

/// `std::path::Path::join`: the path of an entry of a directory. Which separator is put
/// rests on the platform. Nothing is said of a name that is not that of one entry, and only
/// the end of the path where the directory has the verbatim prefix of Windows, by which its
/// text may be put in another form.
#[verifier::external_body]
pub(crate) fn join(dir: &str, name: &str) -> (r: String)
    ensures
        is_inside(dir@, name@, r@),
{
    std::path::Path::new(dir).join(name).to_string_lossy().to_string()
}

/// The directory of the configuration; the present one where its path has none.
pub open spec fn dir_or_dot(config_dir: Option<&str>) -> Seq<char> {
    match config_dir {
        Some(d) => d@,
        None => "."@,
    }
}

/// The entry `name` of the directory of the configuration.
pub(crate) fn beside_config(config_dir: Option<&str>, name: &str) -> (r: String)
    ensures
        is_inside(dir_or_dot(config_dir), name@, r@),
{
    match config_dir {
        Some(dir) => join(dir, name),
        None => join(".", name),
    }
}

} // verus!
