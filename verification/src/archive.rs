//! Freezing a pack into one file whose digest can be checked.

use sha2::Digest;
use vstd::prelude::*;
use crate::paths::{file_name, is_file_name, joined_path};
use crate::profile::profile_path;
use crate::text::{
    ends_with, first_chars, first_word, first_word_of, is_blank, leading_word, lower, lower_char,
    quote, quoted, str_eq, to_lower, trim, trimmed, trimmed_start, chars_of,
};

verus! {

/// Why an archive is refused.
#[derive(Debug)]
pub enum ArchiveError {
    /// The archive's digest is not the recorded one.
    ChecksumMismatch { path: String, expected: String, actual: String },
    /// The checksum file holds no digest.
    MalformedChecksum { path: String, found: String },
}

impl ArchiveError {
    /// The text that `message` spells.
    pub open spec fn message_view(self) -> Seq<char> {
        match self {
            ArchiveError::ChecksumMismatch { path, expected, actual } => "archive "@ + path@
                + " does not match its checksum: recorded "@ + expected@ + ", computed "@ + actual@
                + " \u{2014} the file changed after it was packed (truncated transfer, edited payload, or the wrong .sha256 alongside it)"@,
            ArchiveError::MalformedChecksum { path, found } => "checksum file "@ + path@
                + " is malformed: expected a 64-character hex digest, got "@ + quoted(found@),
        }
    }

    /// The text shown to the caller.
    pub fn message(&self) -> (r: String)
        ensures
            r@ == self.message_view(),
    {
        match self {
            ArchiveError::ChecksumMismatch { path, expected, actual } => {
                let mut m = "archive ".to_owned();
                m.append(path.as_str());
                m.append(" does not match its checksum: recorded ");
                m.append(expected.as_str());
                m.append(", computed ");
                m.append(actual.as_str());
                m.append(
                    " \u{2014} the file changed after it was packed (truncated transfer, edited payload, or the wrong .sha256 alongside it)",
                );
                m
            },
            ArchiveError::MalformedChecksum { path, found } => {
                let mut m = "checksum file ".to_owned();
                m.append(path.as_str());
                m.append(" is malformed: expected a 64-character hex digest, got ");
                m.append(quote(found.as_str()).as_str());
                m
            },
        }
    }
}

/// The path of the file that holds an archive's digest.
pub fn checksum_path(archive: &str) -> (r: String)
    ensures
        r@ == archive@ + ".sha256"@,
{
    let mut out = archive.to_owned();
    out.append(".sha256");
    out
}

/// A file name that ends, in any case, in `.tgz` or `.tar.gz`.
pub open spec fn is_archive_name(t: Seq<char>) -> bool {
    ".tgz"@.is_suffix_of(lower(t)) || ".tar.gz"@.is_suffix_of(lower(t))
}

/// The path names an archive.
pub open spec fn names_archive(p: Seq<char>) -> bool {
    exists|t: Seq<char>| #[trigger] is_file_name(p, t) && is_archive_name(t)
}

/// Whether the path names an archive rather than a directory.
pub fn is_archive_path(path: &str) -> (r: bool)
    ensures
        r == names_archive(path@),
{
    match file_name(path) {
        None => false,
        Some(name) => {
            let t = to_lower(name.as_str());
            let r = ends_with(t.as_str(), ".tgz") || ends_with(t.as_str(), ".tar.gz");
            proof {
                assert forall|u: Seq<char>| #[trigger] is_file_name(path@, u) implies u == name@ by {
                    crate::paths::lemma_file_name_unique(path@, u, name@);
                }
            }
            r
        },
    }
}

/// The path with `.tgz` at its end where it does not name an archive.
pub open spec fn with_extension(p: Seq<char>) -> Seq<char> {
    if names_archive(p) {
        p
    } else {
        p + ".tgz"@
    }
}

/// The path with `.tgz` at its end where it does not name an archive.
pub fn with_archive_extension(path: &str) -> (r: String)
    ensures
        r@ == with_extension(path@),
{
    if is_archive_path(path) {
        path.to_owned()
    } else {
        let mut out = path.to_owned();
        out.append(".tgz");
        out
    }
}

// ─── Digests ────────────────────────────────────────────────────

/// A digit of a lower-case hexadecimal number.
pub open spec fn is_hex_digit(c: char) -> bool {
    ('0' <= c && c <= '9') || ('a' <= c && c <= 'f')
}

/// Sixty-four lower-case hexadecimal digits.
pub open spec fn is_digest(t: Seq<char>) -> bool {
    t.len() == 64 && forall|i: int| 0 <= i < t.len() ==> is_hex_digit(#[trigger] t[i])
}

/// The SHA-256 digest of some bytes, in lower-case hexadecimal, as the `sha2`
/// crate computes and spells it.
pub uninterp spec fn sha256_hex(data: Seq<u8>) -> Seq<char>;

/// `sha2::Sha256`, from `new` over `update` to `finalize`, spelled by its
/// `LowerHex` implementation: thirty-two bytes, two lower-case digits each.
#[verifier::external_body]
fn sha256_of(data: &[u8]) -> (r: String)
    ensures
        r@ == sha256_hex(data@),
        is_digest(r@),
{
    let mut hasher = sha2::Sha256::new();
    hasher.update(data);
    format!("{:x}", hasher.finalize())
}

/// The digest of an archive's bytes.
pub fn digest_of(data: &[u8]) -> (r: String)
    ensures
        r@ == sha256_hex(data@),
        is_digest(r@),
{
    sha256_of(data)
}

/// The line of a checksum file: the digest, two blanks and the archive's name.
pub open spec fn checksum_line(digest: Seq<char>, name: Seq<char>) -> Seq<char> {
    digest + "  "@ + name + "\n"@
}

/// The line of a checksum file for the archive at `archive`; the name is empty
/// where the path ends in none.
pub fn sidecar_line(digest: &str, archive: &str) -> (r: String)
    ensures
        (exists|name: Seq<char>| #[trigger]
            is_file_name(archive@, name) && r@ == checksum_line(digest@, name)) || ((forall|
            name: Seq<char>,
        |
            !is_file_name(archive@, name)) && r@ == checksum_line(digest@, Seq::empty())),
{
    let name = match file_name(archive) {
        Some(n) => n,
        None => String::new(),
    };
    let mut out = digest.to_owned();
    out.append("  ");
    out.append(name.as_str());
    out.append("\n");
    out
}

/// The digest that a checksum file records, if it records one: its first word,
/// in lower case.
pub open spec fn recorded_digest(text: Seq<char>) -> Option<Seq<char>> {
    let t = lower(first_word(text));
    if is_digest(t) {
        Some(t)
    } else {
        None
    }
}

/// The part of a malformed checksum file that the refusal shows.
pub open spec fn shown_part(text: Seq<char>) -> Seq<char> {
    let t = trimmed(text);
    if t.len() <= 80 {
        t
    } else {
        t.take(80)
    }
}

/// Whether `t` is a digest.
fn looks_like_digest(t: &str) -> (r: bool)
    ensures
        r == is_digest(t@),
{
    let cs = chars_of(t);
    if cs.len() != 64 {
        return false;
    }
    let mut i: usize = 0;
    while i < cs.len()
        invariant
            i <= cs@.len(),
            cs@ == t@,
            cs@.len() == 64,
            forall|k: int| 0 <= k < i ==> is_hex_digit(#[trigger] cs@[k]),
        decreases cs@.len() - i,
    {
        let c: char = cs[i];
        if !(('0' <= c && c <= '9') || ('a' <= c && c <= 'f')) {
            assert(!is_hex_digit(t@[i as int]));
            return false;
        }
        i = i + 1;
    }
    true
}

/// The digest that a checksum file records, or the refusal.
pub fn expected_digest(recorded: &str, sidecar: &str) -> (r: Result<String, ArchiveError>)
    ensures
        match r {
            Ok(d) => recorded_digest(recorded@) == Some(d@),
            Err(ArchiveError::MalformedChecksum { path, found }) => recorded_digest(recorded@)
                is None && path@ == sidecar@ && found@ == shown_part(recorded@),
            Err(_) => false,
        },
{
    let word = first_word_of(recorded);
    let t = to_lower(word.as_str());
    if looks_like_digest(t.as_str()) {
        Ok(t)
    } else {
        let whole = trim(recorded);
        let found = first_chars(whole.as_str(), 80);
        assert(whole@.len() > 80 ==> whole@.take(80) == shown_part(recorded@));
        Err(ArchiveError::MalformedChecksum { path: sidecar.to_owned(), found })
    }
}

/// Whether an archive's bytes are what its checksum file records.
///
/// Without a checksum file the archive goes unverified, which is not an error.
pub fn verify_archive(recorded: Option<&str>, data: &[u8], archive: &str) -> (r: Result<
    Option<String>,
    ArchiveError,
>)
    ensures
        match r {
            Ok(None) => recorded is None,
            Ok(Some(d)) => recorded matches Some(text) && d@ == sha256_hex(data@)
                && recorded_digest(text@) == Some(d@),
            Err(ArchiveError::MalformedChecksum { path, found }) => recorded matches Some(text)
                && recorded_digest(text@) is None && path@ == archive@ + ".sha256"@ && found@
                == shown_part(text@),
            Err(ArchiveError::ChecksumMismatch { path, expected, actual }) => recorded matches Some(
                text,
            ) && recorded_digest(text@) == Some(expected@) && actual@ == sha256_hex(data@)
                && expected@ != actual@ && path@ == archive@,
        },
{
    match recorded {
        None => Ok(None),
        Some(text) => {
            let sidecar = checksum_path(archive);
            match expected_digest(text, sidecar.as_str()) {
                Err(e) => Err(e),
                Ok(expected) => {
                    let actual = digest_of(data);
                    if str_eq(actual.as_str(), expected.as_str()) {
                        Ok(Some(actual))
                    } else {
                        Err(
                            ArchiveError::ChecksumMismatch {
                                path: archive.to_owned(),
                                expected,
                                actual,
                            },
                        )
                    }
                },
            }
        },
    }
}

/// What stands in the directory into which an archive was expanded.
#[derive(Debug)]
pub struct Expanded {
    pub path: String,
    pub is_dir: bool,
}

/// The first of `entries` that is a directory.
pub open spec fn first_directory(entries: Seq<Expanded>) -> Option<Seq<char>>
    decreases entries.len(),
{
    if entries.len() == 0 {
        None
    } else if entries[0].is_dir {
        Some(entries[0].path@)
    } else {
        first_directory(entries.drop_first())
    }
}

/// A pack's profile stands in `dest` itself.
pub open spec fn profile_in(entries: Seq<Expanded>, dest: Seq<char>) -> bool {
    exists|i: int|
        0 <= i < entries.len() && !(#[trigger] entries[i]).is_dir && entries[i].path@
            == joined_path(dest, "profile.toml"@)
}

/// Where an expanded archive is restored from.
pub open spec fn restored_from(entries: Seq<Expanded>, dest: Seq<char>) -> Seq<char> {
    if profile_in(entries, dest) {
        dest
    } else {
        match first_directory(entries) {
            Some(d) => d,
            None => dest,
        }
    }
}

/// Where an expanded archive is restored from: the directory that it held,
/// whatever its name; `dest` itself where the profile stands there without a
/// directory around it, or where there is no directory.
pub fn expanded_root(entries: &Vec<Expanded>, dest: &str) -> (r: String)
    ensures
        r@ == restored_from(entries@, dest@),
{
    let profile = profile_path(dest);
    let mut k: usize = 0;
    while k < entries.len()
        invariant
            k <= entries@.len(),
            profile@ == joined_path(dest@, "profile.toml"@),
            forall|i: int|
                0 <= i < k ==> (#[trigger] entries@[i]).is_dir || entries@[i].path@ != profile@,
        decreases entries@.len() - k,
    {
        if !entries[k].is_dir && str_eq(entries[k].path.as_str(), profile.as_str()) {
            assert(profile_in(entries@, dest@));
            return dest.to_owned();
        }
        k = k + 1;
    }
    assert(!profile_in(entries@, dest@));
    let mut i: usize = 0;
    assert(entries@.skip(0) =~= entries@);
    while i < entries.len()
        invariant
            i <= entries@.len(),
            !profile_in(entries@, dest@),
            first_directory(entries@) == first_directory(entries@.skip(i as int)),
        decreases entries@.len() - i,
    {
        assert(entries@.skip(i as int).drop_first() =~= entries@.skip(i + 1));
        if entries[i].is_dir {
            return entries[i].path.clone();
        }
        i = i + 1;
    }
    dest.to_owned()
}

// ─── Laws ───────────────────────────────────────────────────────

/// A pack that was archived without a directory around it is restored from
/// where it landed, whatever stands beside its profile.
pub proof fn law_bare_pack_is_restored_in_place(entries: Seq<Expanded>, dest: Seq<char>, i: int)
    requires
        0 <= i < entries.len(),
        !entries[i].is_dir,
        entries[i].path@ == joined_path(dest, "profile.toml"@),
    ensures
        restored_from(entries, dest) == dest,
{
}

/// The digest that a checksum line was made with is the one that is read back
/// from it.
pub proof fn law_checksum_line_reads_back(digest: Seq<char>, name: Seq<char>)
    requires
        is_digest(digest),
    ensures
        recorded_digest(checksum_line(digest, name)) == Some(digest),
{
    reveal_strlit("  ");
    let rest = "  "@ + name + "\n"@;
    let line = checksum_line(digest, name);
    assert(line =~= digest + rest);
    assert(rest[0] == ' ');
    assert(line[0] == digest[0]);
    assert(is_hex_digit(digest[0]));
    assert(trimmed_start(line) == line);
    lemma_leading_word(digest, rest);
    assert(lower(digest) =~= digest) by {
        assert forall|i: int| 0 <= i < digest.len() implies lower_char(#[trigger] digest[i])
            == digest[i] by {
            assert(is_hex_digit(digest[i]));
        }
    }
}

proof fn lemma_leading_word(word: Seq<char>, rest: Seq<char>)
    requires
        forall|i: int| 0 <= i < word.len() ==> is_hex_digit(#[trigger] word[i]),
        rest.len() > 0,
        is_blank(rest[0]),
    ensures
        leading_word(word + rest) == word,
    decreases word.len(),
{
    if word.len() == 0 {
        assert(word + rest =~= rest);
        assert(word =~= Seq::<char>::empty());
    } else {
        let w = word.drop_first();
        assert forall|i: int| 0 <= i < w.len() implies is_hex_digit(#[trigger] w[i]) by {
            assert(w[i] == word[i + 1]);
        }
        lemma_leading_word(w, rest);
        assert((word + rest).drop_first() =~= w + rest);
        assert((word + rest)[0] == word[0]);
        assert(is_hex_digit(word[0]));
        assert(seq![word[0]] + w =~= word);
    }
}

/// A path that was given an archive extension names an archive, and giving it
/// one again changes nothing.
pub proof fn law_archive_extension_is_idempotent(p: Seq<char>)
    ensures
        names_archive(with_extension(p)),
        with_extension(with_extension(p)) == with_extension(p),
{
    reveal_strlit(".tgz");
    let x = ".tgz"@;
    let t = crate::paths::lemma_file_name_of_suffixed(p, x);
    let u = t + x;
    assert(is_file_name(p + x, u));
    assert(x.is_suffix_of(lower(u))) by {
        assert(lower(u).subrange(t.len() as int, lower(u).len() as int) =~= x);
    }
}

} // verus!
