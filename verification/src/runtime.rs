//! Paths of the supervisor's runtime artifacts (PID file, log, request
//! history), all under one runtime root, `~/.opencode2api` by default.

use crate::config::BridgeConfig;
use crate::text::push_str;
use vstd::prelude::*;

verus! {

/// Name of the default runtime directory under `$HOME`.
pub const RUNTIME_DIR_NAME: &'static str = ".opencode2api";

/// PID file name.
pub const PID_FILE_NAME: &'static str = "opencode2api.pid.json";

/// Log file name.
pub const LOG_FILE_NAME: &'static str = "opencode2api.log";

/// Request-history directory name.
pub const HISTORY_DIR_NAME: &'static str = "history";

/// Request-history database name.
pub const HISTORY_DATABASE_NAME: &'static str = "request-history.sqlite3";

/// `root` with the relative component `name` appended, as `PathBuf::join`
/// does on Unix: a separator is put between them unless `root` is empty or
/// already ends with one.
pub open spec fn joined_path(root: Seq<char>, name: Seq<char>) -> Seq<char> {
    if root.len() == 0 {
        name
    } else if root.last() == '/' {
        root + name
    } else {
        root + seq!['/'] + name
    }
}

/// `root` joined with the relative component `name`.
pub fn join_path(root: &str, name: &str) -> (path: String)
    ensures
        path@ == joined_path(root@, name@),
{
    let chars = crate::text::str_chars(root);
    let mut path = root.to_string();
    if chars.len() == 0 {
        return name.to_string();
    }
    let last = chars[chars.len() - 1];
    if last != '/' {
        push_str(&mut path, "/");
        proof {
            reveal_strlit("/");
        }
    }
    push_str(&mut path, name);
    path
}

/// The default runtime root: `$RUNTIME_DIR` where it is set, else
/// `$HOME/.opencode2api`, else `./.opencode2api`.
pub open spec fn default_root_spec(runtime_dir: Option<Seq<char>>, home: Option<Seq<char>>) -> Seq<char> {
    match runtime_dir {
        Some(dir) => dir,
        None => match home {
            Some(h) => joined_path(h, RUNTIME_DIR_NAME@),
            None => joined_path("."@, RUNTIME_DIR_NAME@),
        },
    }
}

/// The default runtime root, given the values of `RUNTIME_DIR` and `HOME`
/// where they are set.
pub fn default_root(runtime_dir: Option<&str>, home: Option<&str>) -> (root: String)
    ensures
        root@ == default_root_spec(
            match runtime_dir { Some(d) => Some(d@), None => None },
            match home { Some(h) => Some(h@), None => None },
        ),
{
    match runtime_dir {
        Some(dir) => dir.to_string(),
        None => match home {
            Some(h) => join_path(h, RUNTIME_DIR_NAME),
            None => join_path(".", RUNTIME_DIR_NAME),
        },
    }
}

/// The paths of the runtime artifacts under one root.
#[derive(Debug, Clone)]
pub struct RuntimePaths {
    root: String,
}

impl RuntimePaths {
    /// The runtime root.
    pub closed spec fn root_path(&self) -> Seq<char> {
        self.root@
    }

    /// Paths under an explicit runtime root.
    pub fn from_root(root: &str) -> (paths: RuntimePaths)
        ensures
            paths.root_path() == root@,
    {
        RuntimePaths { root: root.to_string() }
    }

    /// Paths under the configured runtime directory, else under
    /// `default_root`.
    pub fn from_config(config: &BridgeConfig, default_root: &str) -> (paths: RuntimePaths)
        ensures
            paths.root_path() == match config.runtime.runtime_dir {
                Some(dir) => dir@,
                None => default_root@,
            },
    {
        match &config.runtime.runtime_dir {
            Some(dir) => RuntimePaths::from_root(dir.as_str()),
            None => RuntimePaths::from_root(default_root),
        }
    }

    /// The runtime directory.
    pub fn runtime_dir(&self) -> (dir: String)
        ensures
            dir@ == self.root_path(),
    {
        self.root.clone()
    }

    /// The PID file: `<root>/opencode2api.pid.json`.
    pub fn pid_file(&self) -> (path: String)
        ensures
            path@ == joined_path(self.root_path(), PID_FILE_NAME@),
    {
        join_path(self.root.as_str(), PID_FILE_NAME)
    }

    /// The bridge log: `<root>/opencode2api.log`.
    pub fn bridge_log(&self) -> (path: String)
        ensures
            path@ == joined_path(self.root_path(), LOG_FILE_NAME@),
    {
        join_path(self.root.as_str(), LOG_FILE_NAME)
    }

    /// The request-history directory: `<root>/history`.
    pub fn history_dir(&self) -> (path: String)
        ensures
            path@ == joined_path(self.root_path(), HISTORY_DIR_NAME@),
    {
        join_path(self.root.as_str(), HISTORY_DIR_NAME)
    }

    /// The request-history database: `<root>/history/request-history.sqlite3`.
    pub fn history_database(&self) -> (path: String)
        ensures
            path@ == joined_path(joined_path(self.root_path(), HISTORY_DIR_NAME@), HISTORY_DATABASE_NAME@),
    {
        let dir = self.history_dir();
        join_path(dir.as_str(), HISTORY_DATABASE_NAME)
    }
}

} // verus!
