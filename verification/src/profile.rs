//! The declarative half of a pack: what to fetch again, what travels as bytes
//! and what to link again.

use vstd::prelude::*;
use crate::paths::{join, joined_path};
use crate::sections::{PackProfileError, PackSection, FORMAT_VERSION};
use crate::source::{PackageSource, SourceView};
use crate::text::opt_text;

verus! {

/// The content of `profile.toml`.
#[derive(Debug)]
pub struct PackProfile {
    pub pack: PackMeta,
    /// Packages that are fetched again.
    pub packages: Vec<ProfilePackage>,
    /// Packages whose bytes travel in the payload.
    pub payloads: Vec<ProfilePayload>,
    /// Links that are made again.
    pub links: Vec<ProfileLink>,
}

/// What holds of the pack as a whole.
#[derive(Debug)]
pub struct PackMeta {
    pub format_version: u32,
    pub created_at: String,
    /// Version of the program that wrote the pack.
    pub alc_version: String,
    /// Sections that the payload holds.
    pub sections: Vec<PackSection>,
    /// Application directory of the machine that wrote the pack.
    pub app_dir: String,
}

/// A package that is fetched again.
#[derive(Debug)]
pub struct ProfilePackage {
    pub name: String,
    pub version: Option<String>,
    pub source: PackageSource,
}

/// The content of a `ProfilePackage`.
#[verifier::ext_equal]
pub struct ProfilePackageView {
    pub name: Seq<char>,
    pub version: Option<Seq<char>>,
    pub source: SourceView,
}

impl View for ProfilePackage {
    type V = ProfilePackageView;

    open spec fn view(&self) -> ProfilePackageView {
        ProfilePackageView {
            name: self.name@,
            version: opt_text(self.version),
            source: self.source@,
        }
    }
}

/// Why a package travels as bytes.
#[derive(Debug, Clone, Copy, PartialEq, Eq, Structural)]
pub enum PayloadReason {
    /// On disk, but in no record.
    Unregistered,
    /// Copied from a directory that the destination need not have.
    SourcePath,
    /// Recorded without an origin to fetch from.
    Opaque,
    /// Fetchable, but the caller asked for bytes.
    Forced,
}

/// A package whose bytes travel in the payload.
#[derive(Debug)]
pub struct ProfilePayload {
    pub name: String,
    pub reason: PayloadReason,
}

/// The content of a `ProfilePayload`.
#[verifier::ext_equal]
pub struct ProfilePayloadView {
    pub name: Seq<char>,
    pub reason: PayloadReason,
}

impl View for ProfilePayload {
    type V = ProfilePayloadView;

    open spec fn view(&self) -> ProfilePayloadView {
        ProfilePayloadView { name: self.name@, reason: self.reason }
    }
}

/// Whether a link's target was there when the pack was written.
#[derive(Debug, Clone, Copy, PartialEq, Eq, Structural)]
pub enum LinkStatus {
    Live,
    Dangling,
}

/// A link, recorded by its target.
#[derive(Debug)]
pub struct ProfileLink {
    pub name: String,
    pub target: String,
    pub status_at_pack: LinkStatus,
}

/// The content of a `ProfileLink`.
#[verifier::ext_equal]
pub struct ProfileLinkView {
    pub name: Seq<char>,
    pub target: Seq<char>,
    pub status_at_pack: LinkStatus,
}

impl View for ProfileLink {
    type V = ProfileLinkView;

    open spec fn view(&self) -> ProfileLinkView {
        ProfileLinkView {
            name: self.name@,
            target: self.target@,
            status_at_pack: self.status_at_pack,
        }
    }
}

impl PackProfile {
    /// Hands the profile on where its schema version is one that this library
    /// understands, and refuses it otherwise. `path` is where it was read.
    pub fn checked(self, path: &str) -> (r: Result<PackProfile, PackProfileError>)
        ensures
            match r {
                Ok(p) => p == self && self.pack.format_version <= FORMAT_VERSION,
                Err(PackProfileError::UnsupportedFormatVersion { path: p, found, supported }) => {
                    &&& self.pack.format_version > FORMAT_VERSION
                    &&& p@ == path@
                    &&& found == self.pack.format_version
                    &&& supported == FORMAT_VERSION
                },
                Err(_) => false,
            },
    {
        if self.pack.format_version > FORMAT_VERSION {
            Err(
                PackProfileError::UnsupportedFormatVersion {
                    path: path.to_owned(),
                    found: self.pack.format_version,
                    supported: FORMAT_VERSION,
                },
            )
        } else {
            Ok(self)
        }
    }
}

/// The path of the profile of the pack in `pack_dir`.
pub fn profile_path(pack_dir: &str) -> (r: String)
    ensures
        r@ == joined_path(pack_dir@, "profile.toml"@),
{
    join(pack_dir, "profile.toml")
}

/// The path of the payload of the pack in `pack_dir`.
pub fn payload_dir(pack_dir: &str) -> (r: String)
    ensures
        r@ == joined_path(pack_dir@, "payload"@),
{
    join(pack_dir, "payload")
}

} // verus!
