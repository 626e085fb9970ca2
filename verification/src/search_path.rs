//! Directories that are searched for packages, with their origin.

use vstd::prelude::*;

verus! {

/// Where a search path comes from.
#[derive(Debug, Clone, Copy, PartialEq, Eq, Structural)]
pub enum SearchPathSource {
    /// The `ALC_PACKAGES_PATH` environment variable.
    Env,
    /// The packages of the application directory.
    Default,
}

impl SearchPathSource {
    /// The name shown for the origin.
    pub fn label(&self) -> (r: &'static str)
        ensures
            r@ == (match *self {
                SearchPathSource::Env => "ALC_PACKAGES_PATH"@,
                SearchPathSource::Default => "default"@,
            }),
    {
        match self {
            SearchPathSource::Env => "ALC_PACKAGES_PATH",
            SearchPathSource::Default => "default",
        }
    }
}

/// A directory that is searched for packages; of several, the first has the
/// highest priority.
#[derive(Debug)]
pub struct SearchPath {
    pub path: std::path::PathBuf,
    pub source: SearchPathSource,
}

impl SearchPath {
    /// A path from the environment.
    pub fn env(path: std::path::PathBuf) -> (r: SearchPath)
        ensures
            r.path == path,
            r.source == SearchPathSource::Env,
    {
        SearchPath { path, source: SearchPathSource::Env }
    }

    /// The packages of the application directory.
    pub fn default_global(path: std::path::PathBuf) -> (r: SearchPath)
        ensures
            r.path == path,
            r.source == SearchPathSource::Default,
    {
        SearchPath { path, source: SearchPathSource::Default }
    }
}

} // verus!
