//! Where the tracker keeps its data file.
//!
//! Reading, writing and exporting files is the desktop shell's work; the
//! library decides which file that is.

use std::path::PathBuf;
use vstd::prelude::*;

verus! {

#[verifier::external_type_specification]
#[verifier::external_body]
pub struct ExPathBuf(std::path::PathBuf);

/// The location of the tracker's JSON data file.
pub struct Storage {
    path: PathBuf,
}

#[verifier::external_type_specification]
#[verifier::external_body]
pub struct ExProjectDirs(directories::ProjectDirs);

/// `dirs` is a possible outcome of looking up the standard directories of
/// the application with the given qualifier, organization and name: which
/// directories come back, if any, depends on the platform and the
/// environment.
pub uninterp spec fn dirs_from_names(
    dirs: Option<directories::ProjectDirs>,
    qualifier: Seq<char>,
    organization: Seq<char>,
    application: Seq<char>,
) -> bool;

/// The per-user local data directory held among an application's
/// directories.
pub uninterp spec fn local_data_of(dirs: directories::ProjectDirs) -> PathBuf;

/// The standard directories of an application.
///
/// Trusted: calls `directories::ProjectDirs::from`. The contract claims only
/// that the result is an outcome of the lookup under these names; whether
/// the platform names such directories, and which, depends on the
/// environment (a home directory must be found) and is not stated.
#[verifier::external_body]
fn project_dirs(qualifier: &str, organization: &str, application: &str) -> (dirs: Option<
    directories::ProjectDirs,
>)
    ensures
        dirs_from_names(dirs, qualifier@, organization@, application@),
{
    directories::ProjectDirs::from(qualifier, organization, application)
}

/// The per-user local data directory among an application's directories.
///
/// Trusted: calls `directories::ProjectDirs::data_local_dir` and copies the
/// path; the contract names the result, a read of a field of `dirs`.
#[verifier::external_body]
fn data_local_dir(dirs: &directories::ProjectDirs) -> (path: PathBuf)
    ensures
        path == local_data_of(*dirs),
{
    dirs.data_local_dir().to_path_buf()
}

/// The path that `Path::join` gives for a name below a directory.
pub uninterp spec fn joined_path(directory: PathBuf, name: Seq<char>) -> PathBuf;

/// The path that `PathBuf::from` gives for a text.
pub uninterp spec fn named_path(name: Seq<char>) -> PathBuf;

/// A path below a directory.
///
/// Trusted: calls `std::path::Path::join`; the contract names the result,
/// which is a function of the directory and the name alone.
#[verifier::external_body]
fn join_path(directory: &PathBuf, name: &str) -> (path: PathBuf)
    ensures
        path == joined_path(*directory, name@),
{
    directory.join(name)
}

/// A relative path made of one file name.
///
/// Trusted: calls `PathBuf::from`; the contract names the result, which is
/// a function of the text alone.
#[verifier::external_body]
fn path_from(name: &str) -> (path: PathBuf)
    ensures
        path == named_path(name@),
{
    PathBuf::from(name)
}

/// The data file for a found data directory, or the fallback file.
pub open spec fn located_file(data_dir: Option<PathBuf>) -> PathBuf {
    match data_dir {
        Some(d) => joined_path(d, "tracker.json"@),
        None => named_path("hour-tracker-data.json"@),
    }
}

/// The per-user local data directory of an application's directories, when
/// they were found.
pub open spec fn data_dir_of(dirs: Option<directories::ProjectDirs>) -> Option<PathBuf> {
    match dirs {
        Some(d) => Some(local_data_of(d)),
        None => None,
    }
}

/// The per-user local data directory of "Hour Tracker" (qualifier `com`,
/// organization `HourTracker`), when the platform names one.
fn app_data_dir() -> (dir: Option<PathBuf>)
    ensures
        exists|dirs: Option<directories::ProjectDirs>|
            #[trigger] dirs_from_names(dirs, "com"@, "HourTracker"@, "Hour Tracker"@) && dir
                == data_dir_of(dirs),
{
    let found = project_dirs("com", "HourTracker", "Hour Tracker");
    let dir = match &found {
        Some(dirs) => Some(data_local_dir(dirs)),
        None => None,
    };
    assert(dir == data_dir_of(found));
    dir
}

impl Storage {
    /// The file this storage reads and writes.
    pub closed spec fn file(&self) -> PathBuf {
        self.path
    }

    /// The data file in the per-user application-data directory of
    /// "Hour Tracker" (kept so existing installations keep their data), or
    /// `hour-tracker-data.json` in the working directory when the platform
    /// names no such directory. Which of the two, and which directory,
    /// depends on the platform and the environment; `located` states the
    /// file for each.
    pub fn new() -> (storage: Storage)
        ensures
            exists|dirs: Option<directories::ProjectDirs>|
                #[trigger] dirs_from_names(dirs, "com"@, "HourTracker"@, "Hour Tracker"@)
                    && storage.file() == located_file(data_dir_of(dirs)),
    {
        Storage::located(app_data_dir())
    }

    /// The data file given the application's per-user data directory, when
    /// the platform names one: `tracker.json` in it, else
    /// `hour-tracker-data.json` in the working directory.
    pub fn located(data_dir: Option<PathBuf>) -> (storage: Storage)
        ensures
            storage.file() == located_file(data_dir),
            data_dir matches Some(d) ==> storage.file() == joined_path(d, "tracker.json"@),
            data_dir is None ==> storage.file() == named_path("hour-tracker-data.json"@),
    {
        match data_dir {
            Some(directory) => Storage { path: join_path(&directory, "tracker.json") },
            None => Storage { path: path_from("hour-tracker-data.json") },
        }
    }

    /// Storage in the given file.
    pub fn at(path: PathBuf) -> (storage: Storage)
        ensures
            storage.file() == path,
    {
        Storage { path }
    }

    /// The data file.
    pub fn path(&self) -> (path: &PathBuf)
        ensures
            *path == self.file(),
    {
        &self.path
    }
}

} // verus!
