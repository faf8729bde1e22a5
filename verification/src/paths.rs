//! Where the store lives on disk.

use crate::error::{StoreError, StoreErrorView};
use vstd::prelude::*;
use vstd::string::*;

verus! {

/// The environment variable that names the storage directory in place of
/// the platform's.
pub const STORAGE_FOLDER_VARIABLE: &'static str = "PAGE_STORAGE_FOLDER";

/// The name of the application, under which the platform keeps its data.
pub const APPLICATION: &'static str = "page";

/// The storage directory: the one that the environment names, else the one
/// of the platform.
pub open spec fn spec_storage_dir(
    from_environment: Option<Seq<char>>,
    from_platform: Option<Seq<char>>,
) -> Result<Seq<char>, StoreErrorView> {
    match (from_environment, from_platform) {
        (Some(dir), _) => Ok(dir),
        (None, Some(dir)) => Ok(dir),
        (None, None) => Err(StoreErrorView::NoStorageDir),
    }
}

/// The value of a directory that was found or not.
pub open spec fn dir_view(dir: Result<String, StoreError>) -> Result<Seq<char>, StoreErrorView> {
    match dir {
        Ok(dir) => Ok(dir@),
        Err(e) => Err(e@),
    }
}

/// Chooses the folder that holds the entries file. `from_environment` is
/// the value of the overriding environment variable, where it is set;
/// `from_platform` is the per-user data directory of the platform, where
/// it has one.
pub fn storage_dir(from_environment: Option<String>, from_platform: Option<String>) -> (r: Result<
    String,
    StoreError,
>)
    ensures
        dir_view(r) == spec_storage_dir(from_environment.deep_view(), from_platform.deep_view()),
{
    match from_environment {
        Some(dir) => Ok(dir),
        None => match from_platform {
            Some(dir) => Ok(dir),
            None => Err(StoreError::NoStorageDir),
        },
    }
}

/// The path of a name inside a directory: the two with one slash between
/// them. A directory that is empty or ends in a slash gets no other slash,
/// and a name that begins with a slash is a path of its own.
pub open spec fn spec_inside(dir: Seq<char>, name: Seq<char>) -> Seq<char> {
    if name.len() > 0 && name[0] == '/' {
        name
    } else if dir.len() == 0 || dir.last() == '/' {
        dir + name
    } else {
        dir + "/"@ + name
    }
}

pub fn inside(dir: &str, name: &str) -> (r: String)
    ensures
        r@ == spec_inside(dir@, name@),
{
    if name.unicode_len() > 0 && name.get_char(0) == '/' {
        return String::from_str(name);
    }
    let len = dir.unicode_len();
    let mut path = String::from_str(dir);
    if len > 0 && dir.get_char(len - 1) != '/' {
        path.append("/");
    }
    path.append(name);
    path
}

/// The path of the entries file inside the storage directory.
pub fn entries_file(storage_dir: &str) -> (r: String)
    ensures
        r@ == spec_inside(storage_dir@, "entries.toml.age"@),
{
    inside(storage_dir, "entries.toml.age")
}

/// The path of the hooks directory inside the storage directory.
pub fn hooks_dir(storage_dir: &str) -> (r: String)
    ensures
        r@ == spec_inside(storage_dir@, "hooks"@),
{
    inside(storage_dir, "hooks")
}

} // verus!
