//! Where packages come from: recorded origins, project dependencies and lock
//! entries.

use vstd::prelude::*;
use crate::paths::{absolute, is_absolute};
use crate::text::{clone_opt, opt_text, str_eq};

verus! {

/// Where an installed package came from.
#[derive(Debug)]
pub enum PackageSource {
    /// A directory outside the application directory.
    Path { path: String },
    /// Copied in from somewhere that is no longer recorded.
    Installed,
    /// A Git repository.
    Git { url: String, rev: Option<String> },
    /// Shipped with the program, from a collection where one is recorded.
    Bundled { collection: Option<String> },
    /// Nothing is recorded.
    Unknown,
}

/// The content of a `PackageSource`.
pub enum SourceView {
    Path(Seq<char>),
    Installed,
    Git(Seq<char>, Option<Seq<char>>),
    Bundled(Option<Seq<char>>),
    Unknown,
}

impl View for PackageSource {
    type V = SourceView;

    open spec fn view(&self) -> SourceView {
        match self {
            PackageSource::Path { path } => SourceView::Path(path@),
            PackageSource::Installed => SourceView::Installed,
            PackageSource::Git { url, rev } => SourceView::Git(url@, opt_text(*rev)),
            PackageSource::Bundled { collection } => SourceView::Bundled(opt_text(*collection)),
            PackageSource::Unknown => SourceView::Unknown,
        }
    }
}

impl Clone for PackageSource {
    fn clone(&self) -> (r: PackageSource)
        ensures
            r == *self,
    {
        match self {
            PackageSource::Path { path } => PackageSource::Path { path: path.clone() },
            PackageSource::Installed => PackageSource::Installed,
            PackageSource::Git { url, rev } => PackageSource::Git {
                url: url.clone(),
                rev: clone_opt(rev),
            },
            PackageSource::Bundled { collection } => PackageSource::Bundled {
                collection: clone_opt(collection),
            },
            PackageSource::Unknown => PackageSource::Unknown,
        }
    }
}

/// An origin as one text, as it was recorded before origins had kinds.
pub open spec fn display_of(source: SourceView) -> Seq<char> {
    match source {
        SourceView::Path(path) => path,
        SourceView::Installed => "installed"@,
        SourceView::Git(url, _) => url,
        SourceView::Bundled(_) => "bundled"@,
        SourceView::Unknown => Seq::empty(),
    }
}

impl PackageSource {
    /// The origin as one text, for display.
    pub fn display_string(&self) -> (r: String)
        ensures
            r@ == display_of(self@),
    {
        match self {
            PackageSource::Path { path } => path.clone(),
            PackageSource::Installed => "installed".to_owned(),
            PackageSource::Git { url, rev: _ } => url.clone(),
            PackageSource::Bundled { collection: _ } => "bundled".to_owned(),
            PackageSource::Unknown => String::new(),
        }
    }
}

/// A dependency as `alc.toml` declares it.
#[derive(Debug)]
pub enum PackageDep {
    /// A version requirement on an installed package.
    Version(String),
    /// A directory, absolute or relative to the project root.
    Path { path: String, version: Option<String> },
    /// A Git repository.
    Git { url: String, rev: Option<String> },
}

/// A package as `alc.lock` records it.
#[derive(Debug)]
pub struct LockPackage {
    pub name: String,
    pub version: Option<String>,
    pub source: PackageSource,
}

/// The content of a `LockPackage`.
pub struct LockView {
    pub name: Seq<char>,
    pub version: Option<Seq<char>>,
    pub source: SourceView,
}

impl View for LockPackage {
    type V = LockView;

    open spec fn view(&self) -> LockView {
        LockView { name: self.name@, version: opt_text(self.version), source: self.source@ }
    }
}

impl Clone for LockPackage {
    fn clone(&self) -> (r: LockPackage)
        ensures
            r == *self,
    {
        LockPackage {
            name: self.name.clone(),
            version: clone_opt(&self.version),
            source: self.source.clone(),
        }
    }
}

/// A source that an install can fetch from.
#[derive(Debug, Clone)]
pub enum InstallSource {
    /// A directory of this machine.
    LocalPath(String),
    /// A Git repository.
    GitUrl(String),
}

/// The URL from which the packages of `source` can be fetched again, if any.
pub open spec fn refetch_url(source: SourceView) -> Option<Seq<char>> {
    match source {
        SourceView::Git(url, _) => Some(url),
        SourceView::Bundled(collection) => collection,
        _ => None,
    }
}

/// The fetchable origin, if any, that a recorded source maps to.
pub fn refetch_source(source: &PackageSource) -> (r: Option<InstallSource>)
    ensures
        match r {
            Some(InstallSource::GitUrl(url)) => refetch_url(source@) == Some(url@),
            Some(InstallSource::LocalPath(_)) => false,
            None => refetch_url(source@) is None,
        },
{
    match source {
        PackageSource::Git { url, rev: _ } => Some(InstallSource::GitUrl(url.clone())),
        PackageSource::Bundled { collection } => match collection {
            Some(url) => Some(InstallSource::GitUrl(url.clone())),
            None => None,
        },
        _ => None,
    }
}

/// What an origin that was recorded as a plain text stands for.
pub open spec fn legacy_source(text: Seq<char>) -> SourceView {
    if text.len() == 0 {
        SourceView::Unknown
    } else if text == "bundled"@ {
        SourceView::Bundled(None)
    } else if absolute(text) {
        SourceView::Installed
    } else {
        SourceView::Git(text, None)
    }
}

/// What an origin that was recorded as a plain text stands for: nothing, the
/// packages that ship with the program, a directory whose copy is installed, or
/// a repository.
pub fn infer_from_legacy_source_string(text: &str) -> (r: PackageSource)
    ensures
        r@ == legacy_source(text@),
{
    if text.is_empty() {
        PackageSource::Unknown
    } else if str_eq(text, "bundled") {
        PackageSource::Bundled { collection: None }
    } else if is_absolute(text) {
        PackageSource::Installed
    } else {
        PackageSource::Git { url: text.to_owned(), rev: None }
    }
}

} // verus!
