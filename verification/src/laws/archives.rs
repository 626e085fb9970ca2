//! Which files are archives, and what a checksum file records.

use vstd::prelude::*;
use crate::archive::{
    checksum_line, first_directory, is_archive_name, is_digest, is_hex_digit, names_archive,
    profile_in, recorded_digest, restored_from, shown_part, with_extension, ArchiveError, Expanded,
};
use crate::paths::{is_file_name, joined_path};
use crate::text::{first_word, lower, quoted, trimmed};

verus! {

/// A name is an archive's exactly where it ends, in any case, in `.tgz` or
/// `.tar.gz`; a path is given the first exactly where it names none.
pub proof fn law_which_paths_name_archives(p: Seq<char>, t: Seq<char>)
    ensures
        is_archive_name(t) <==> ".tgz"@.is_suffix_of(lower(t)) || ".tar.gz"@.is_suffix_of(lower(t)),
        is_file_name(p, t) && is_archive_name(t) ==> names_archive(p),
        names_archive(p) ==> with_extension(p) == p,
        !names_archive(p) ==> with_extension(p) == p + ".tgz"@,
        (forall|u: Seq<char>| !is_file_name(p, u)) ==> !names_archive(p),
{
}

/// A digest is sixty-four lower-case hexadecimal digits.
pub proof fn law_what_a_digest_is(t: Seq<char>)
    ensures
        is_digest(t) <==> t.len() == 64 && forall|i: int|
            0 <= i < t.len() ==> ('0' <= #[trigger] t[i] && t[i] <= '9') || ('a' <= t[i] && t[i]
                <= 'f'),
{
    if t.len() == 64 && forall|i: int|
        0 <= i < t.len() ==> ('0' <= #[trigger] t[i] && t[i] <= '9') || ('a' <= t[i] && t[i] <= 'f') {
        assert forall|i: int| 0 <= i < t.len() implies is_hex_digit(#[trigger] t[i]) by {}
    }
    if is_digest(t) {
        assert forall|i: int| 0 <= i < t.len() implies ('0' <= #[trigger] t[i] && t[i] <= '9') || (
        'a' <= t[i] && t[i] <= 'f') by {
            assert(is_hex_digit(t[i]));
        }
    }
}

/// A checksum file records its first word, in lower case, exactly where that is a
/// digest; of one that does not, no more than eighty characters are shown.
pub proof fn law_what_a_checksum_file_records(text: Seq<char>)
    ensures
        recorded_digest(text) is Some <==> is_digest(lower(first_word(text))),
        recorded_digest(text) matches Some(d) ==> d == lower(first_word(text)),
        shown_part(text).is_prefix_of(trimmed(text)),
        shown_part(text).len() == if trimmed(text).len() < 80 {
            trimmed(text).len() as int
        } else {
            80
        },
{
}

/// The line of a checksum file is the digest, two blanks and the name.
pub proof fn law_the_line_of_a_checksum_file(digest: Seq<char>, name: Seq<char>)
    ensures
        checksum_line(digest, name) == digest + "  "@ + name + "\n"@,
{
}

/// The first directory of an expanded archive is found, and none exactly where there
/// is none.
pub proof fn law_the_first_directory_is_found(entries: Seq<Expanded>, i: int)
    ensures
        first_directory(entries) is None <==> forall|j: int|
            0 <= j < entries.len() ==> !(#[trigger] entries[j]).is_dir,
        0 <= i < entries.len() && entries[i].is_dir && (forall|j: int|
            0 <= j < i ==> !(#[trigger] entries[j]).is_dir) ==> first_directory(entries) == Some(
            entries[i].path@,
        ),
    decreases entries.len(),
{
    if entries.len() > 0 {
        let rest = entries.drop_first();
        law_the_first_directory_is_found(rest, i - 1);
        assert forall|j: int| 0 <= j < rest.len() implies #[trigger] rest[j] == entries[j + 1] by {}
        if !entries[0].is_dir {
            if forall|j: int| 0 <= j < rest.len() ==> !(#[trigger] rest[j]).is_dir {
                assert forall|j: int| 0 <= j < entries.len() implies !(#[trigger] entries[j]).is_dir by {
                    if j > 0 {
                        assert(!rest[j - 1].is_dir);
                    }
                }
            }
            if forall|j: int| 0 <= j < entries.len() ==> !(#[trigger] entries[j]).is_dir {
                assert forall|j: int| 0 <= j < rest.len() implies !(#[trigger] rest[j]).is_dir by {
                    assert(!entries[j + 1].is_dir);
                }
            }
            if 0 <= i < entries.len() && entries[i].is_dir && (forall|j: int|
                0 <= j < i ==> !(#[trigger] entries[j]).is_dir) {
                assert(rest[i - 1].is_dir);
                assert forall|j: int| 0 <= j < i - 1 implies !(#[trigger] rest[j]).is_dir by {
                    assert(!entries[j + 1].is_dir);
                }
            }
        }
    }
}

/// An archive is restored from the first directory that it held, unless the profile
/// stands beside it or there is no directory: then from where it was expanded.
pub proof fn law_where_an_archive_is_restored_from(entries: Seq<Expanded>, dest: Seq<char>)
    ensures
        profile_in(entries, dest) <==> exists|i: int|
            0 <= i < entries.len() && !(#[trigger] entries[i]).is_dir && entries[i].path@
                == joined_path(dest, "profile.toml"@),
        profile_in(entries, dest) || first_directory(entries) is None ==> restored_from(
            entries,
            dest,
        ) == dest,
        !profile_in(entries, dest) ==> (first_directory(entries) matches Some(d) ==> restored_from(
            entries,
            dest,
        ) == d),
{
}

/// A refusal is told with the file and what was found.
pub proof fn law_archive_refusals_are_told(e: ArchiveError)
    ensures
        e matches ArchiveError::ChecksumMismatch { path, expected, actual } ==> ("archive "@ + path@
            + " does not match its checksum: recorded "@ + expected@ + ", computed "@
            + actual@).is_prefix_of(e.message_view()),
        e matches ArchiveError::MalformedChecksum { path, found } ==> e.message_view()
            == "checksum file "@ + path@
            + " is malformed: expected a 64-character hex digest, got "@ + quoted(found@),
{
}

} // verus!
