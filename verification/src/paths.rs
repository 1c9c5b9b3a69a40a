//! Where Joséphine keeps her configuration, her history, and the guardian's
//! pid file and log.
use vstd::prelude::*;

use crate::source::join_path;
use crate::text::{chars_of, push_all, push_str, string_of};

verus! {

/// The files Joséphine uses, as paths.
#[derive(Debug, Clone)]
pub struct Paths {
    pub config: String,
    pub data_dir: String,
    pub database: String,
    pub pid_file: String,
    pub log_file: String,
}

/// Why the paths cannot be known.
#[derive(Debug, Clone, Copy, PartialEq, Eq, Structural)]
pub enum PathsError {
    /// The platform names no configuration directory.
    NoConfigDir,
    /// The platform names no local data directory.
    NoDataDir,
}

impl PathsError {
    pub fn message(self) -> (s: &'static str)
        ensures
            s@ == match self {
                PathsError::NoConfigDir => "impossible de déterminer le répertoire de configuration"@,
                PathsError::NoDataDir => "impossible de déterminer le répertoire de données"@,
            },
    {
        match self {
            PathsError::NoConfigDir => "impossible de déterminer le répertoire de configuration",
            PathsError::NoDataDir => "impossible de déterminer le répertoire de données",
        }
    }
}

/// The paths under a configuration directory and a local data directory.
pub open spec fn paths_under(config_dir: Seq<char>, data_local_dir: Seq<char>) -> (
    Seq<char>,
    Seq<char>,
    Seq<char>,
    Seq<char>,
    Seq<char>,
) {
    let data = join_path(data_local_dir, "josephine"@);
    (
        join_path(join_path(config_dir, "josephine"@), "config.yaml"@),
        data,
        join_path(data, "josephine.db"@),
        join_path(data, "daemon.pid"@),
        join_path(data, "daemon.log"@),
    )
}

pub open spec fn paths_view(p: Paths) -> (Seq<char>, Seq<char>, Seq<char>, Seq<char>, Seq<char>) {
    (p.config@, p.data_dir@, p.database@, p.pid_file@, p.log_file@)
}

fn join(dir: &str, name: &str) -> (r: String)
    ensures
        r@ == join_path(dir@, name@),
{
    let d = chars_of(dir);
    let mut out: Vec<char> = Vec::new();
    push_all(&mut out, &d);
    if d.len() > 0 && d[d.len() - 1] != '/' {
        push_str(&mut out, "/");
    }
    push_str(&mut out, name);
    string_of(out.as_slice())
}

/// Calls `dirs::config_dir` (the user's configuration directory, from the
/// environment and the platform); nothing is stated of what it finds.
#[verifier::external_body]
fn config_dir() -> Option<String> {
    dirs::config_dir().map(|p| p.to_string_lossy().into_owned())
}

/// Calls `dirs::data_local_dir` (the user's local data directory, from the
/// environment and the platform); nothing is stated of what it finds.
#[verifier::external_body]
fn data_local_dir() -> Option<String> {
    dirs::data_local_dir().map(|p| p.to_string_lossy().into_owned())
}

impl Paths {
    /// The paths under the given directories: `josephine/config.yaml` in
    /// the configuration directory; `josephine/` in the data directory with
    /// the database, pid file and log inside.
    pub fn from_dirs(config_dir: &str, data_local_dir: &str) -> (p: Paths)
        ensures
            paths_view(p) == paths_under(config_dir@, data_local_dir@),
    {
        let config_home = join(config_dir, "josephine");
        let config = join(config_home.as_str(), "config.yaml");
        let data_dir = join(data_local_dir, "josephine");
        let database = join(data_dir.as_str(), "josephine.db");
        let pid_file = join(data_dir.as_str(), "daemon.pid");
        let log_file = join(data_dir.as_str(), "daemon.log");
        Paths { config, data_dir, database, pid_file, log_file }
    }

    /// The paths for this user, from the platform's directories.
    pub fn new() -> (r: Result<Paths, PathsError>)
        ensures
            r matches Ok(p) ==> exists|c: Seq<char>, d: Seq<char>| paths_view(p) == paths_under(c, d),
    {
        let config_dir = match config_dir() {
            Some(c) => c,
            None => {
                return Err(PathsError::NoConfigDir);
            },
        };
        let data_dir = match data_local_dir() {
            Some(d) => d,
            None => {
                return Err(PathsError::NoDataDir);
            },
        };
        Ok(Paths::from_dirs(config_dir.as_str(), data_dir.as_str()))
    }
}

} // verus!
