//! Run configuration built from the command-line arguments.
//!
//! The caller hands in the raw argument strings together with what the
//! file system says about the optional path argument; everything that
//! is decided here (which error comes back, which defaults apply) is
//! verified.

use vstd::prelude::*;

verus! {

/// Errors raised while turning the process arguments into a [`Config`].
#[derive(Debug, PartialEq, Eq, Structural, Clone, Copy)]
pub enum ConfigParserError {
    InvalidArguments,
    FileNotFound,
}

impl ConfigParserError {
    /// A human-readable description of the error.
    pub fn message(&self) -> (r: &'static str)
        ensures
            self is InvalidArguments ==> r@ == "Invalid arguments provided"@,
            self is FileNotFound ==> r@ == "File specified could not be found"@,
    {
        match self {
            ConfigParserError::InvalidArguments => "Invalid arguments provided",
            ConfigParserError::FileNotFound => "File specified could not be found",
        }
    }
}

/// What the file system reports about the path argument.
#[derive(Debug, PartialEq, Eq, Structural, Clone, Copy)]
pub enum PathStatus {
    /// The path exists and is a directory.
    Directory,
    /// The path exists and is a regular file.
    RegularFile,
    /// The path does not exist.
    Absent,
    /// The path exists but is neither a regular file nor a directory.
    Other,
}

/// The immutable per-run configuration: the query string, the path to
/// scan, and whether that path is a directory.
#[derive(Debug)]
pub struct Config {
    pub query: String,
    pub file_path: String,
    pub is_dir: bool,
}

impl Config {
    fn new(query: String, file_path: String, is_dir: bool) -> (c: Config)
        ensures
            c.query == query,
            c.file_path == file_path,
            c.is_dir == is_dir,
    {
        Config { query, file_path, is_dir }
    }

    /// Decides the configuration from the argument strings.
    ///
    /// `program` is the executable name (argument zero), `query` the first
    /// real argument, `path` the optional second one. `path_status` reports
    /// what the file system says about `path` when it is given, and
    /// `default_dir` is the current working directory, used when no path
    /// is given.
    pub fn build(
        program: Option<String>,
        query: Option<String>,
        path: Option<String>,
        path_status: PathStatus,
        default_dir: String,
    ) -> (r: Result<Config, ConfigParserError>)
        ensures
            (program is None || query is None) <==> (r is Err && r->Err_0 is InvalidArguments),
            program is Some && query is Some && path is None ==> r is Ok
                && r->Ok_0.query == query->0
                && r->Ok_0.file_path == default_dir
                && r->Ok_0.is_dir == true,
            program is Some && query is Some && path is Some && path_status is Directory
                ==> r is Ok
                && r->Ok_0.query == query->0
                && r->Ok_0.file_path == path->0
                && r->Ok_0.is_dir == true,
            program is Some && query is Some && path is Some && path_status is RegularFile
                ==> r is Ok
                && r->Ok_0.query == query->0
                && r->Ok_0.file_path == path->0
                && r->Ok_0.is_dir == false,
            program is Some && query is Some && path is Some
                && (path_status is Absent || path_status is Other)
                <==> (r is Err && r->Err_0 is FileNotFound),
    {
        if program.is_none() {
            return Err(ConfigParserError::InvalidArguments);
        }
        let query = match query {
            Some(q) => q,
            None => {
                return Err(ConfigParserError::InvalidArguments);
            },
        };
        match path {
            Some(p) => {
                match path_status {
                    PathStatus::Directory => Ok(Config::new(query, p, true)),
                    PathStatus::RegularFile => Ok(Config::new(query, p, false)),
                    PathStatus::Absent => Err(ConfigParserError::FileNotFound),
                    PathStatus::Other => Err(ConfigParserError::FileNotFound),
                }
            },
            None => Ok(Config::new(query, default_dir, true)),
        }
    }
}

} // verus!
