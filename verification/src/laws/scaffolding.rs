//! What the skeleton of a package holds.

use vstd::prelude::*;
use crate::scaffold::{
    category_text, compat_range_text, description_text, escaped, escaped_char, header_text,
    name_fault, rendered, single_line, PkgScaffoldError, AFTER_META, BEFORE_COMPAT, BEFORE_NAME,
};
use crate::text::{decimal, quoted};

verus! {

/// A name is refused exactly where it is empty, longer than 64 bytes, does not begin
/// with a lower-case letter, or holds anything but lower-case letters, digits and
/// underscores.
pub proof fn law_which_names_are_refused(name: Seq<char>, bytes: int)
    ensures
        name_fault(name, bytes) is None <==> name.len() > 0 && bytes <= 64 && 'a' <= name[0] && name[0]
            <= 'z' && forall|i: int|
            0 <= i < name.len() ==> ('a' <= #[trigger] name[i] && name[i] <= 'z') || ('0' <= name[i]
                && name[i] <= '9') || name[i] == '_',
        name.len() == 0 ==> name_fault(name, bytes) == Some("name must not be empty"@),
        name.len() > 0 && bytes > 64 ==> name_fault(name, bytes) == Some(
            "name must be 64 characters or fewer"@,
        ),
        name.len() > 0 && bytes <= 64 && !('a' <= name[0] && name[0] <= 'z') ==> name_fault(name, bytes)
            == Some("name must start with a lowercase ASCII letter (a-z)"@),
        name_fault(name, bytes) is Some && name.len() > 0 && bytes <= 64 && 'a' <= name[0] && name[0]
            <= 'z' ==> name_fault(name, bytes) == Some(
            "name may only contain lowercase ASCII letters, digits, and underscores"@,
        ),
{
}

/// Escaping goes character by character: a text is escaped as its parts are.
pub proof fn law_escaping_goes_by_parts(s: Seq<char>, t: Seq<char>)
    ensures
        escaped(s + t) == escaped(s) + escaped(t),
        escaped(Seq::empty()).len() == 0,
    decreases t.len(),
{
    if t.len() == 0 {
        assert(s + t =~= s);
        assert(escaped(s) + escaped(t) =~= escaped(s));
    } else {
        law_escaping_goes_by_parts(s, t.drop_last());
        assert((s + t).drop_last() =~= s + t.drop_last());
        assert(escaped(s) + escaped(t) =~= (escaped(s) + escaped(t.drop_last())) + escaped_char(
            t.last(),
        ));
    }
}

/// A backslash goes before itself and before a quote; line ends and NUL are written
/// as letters; any other character stands for itself.
pub proof fn law_how_characters_are_escaped(c: char)
    ensures
        c == '\\' || c == '"' ==> escaped(seq![c]) == seq!['\\', c],
        c == '\n' ==> escaped(seq![c]) == seq!['\\', 'n'],
        c == '\r' ==> escaped(seq![c]) == seq!['\\', 'r'],
        c == '\0' ==> escaped(seq![c]) == seq!['\\', '0'],
        c != '\\' && c != '"' && c != '\n' && c != '\r' && c != '\0' ==> escaped(seq![c]) == seq![c],
{
    assert(seq![c].drop_last() =~= Seq::empty());
    assert(escaped(seq![c]) =~= escaped_char(c)) by {
        assert(escaped(Seq::empty()) =~= Seq::empty());
        assert(seq![c].last() == c);
    }
}

/// A text on one line is as long as it was; line ends become blanks and the other
/// characters stay.
pub proof fn law_line_ends_become_blanks(s: Seq<char>, i: int)
    requires
        0 <= i < s.len(),
    ensures
        single_line(s).len() == s.len(),
        s[i] == '\n' || s[i] == '\r' ==> single_line(s)[i] == ' ',
        s[i] != '\n' && s[i] != '\r' ==> single_line(s)[i] == s[i],
{
}

/// The range reaches from a minor version up to the next one.
pub proof fn law_the_range_of_a_version(major: u64, minor: u64)
    ensures
        compat_range_text(Some((major, minor))) == ">="@ + decimal(major as nat) + "."@ + decimal(
            minor as nat,
        ) + ".0, <"@ + decimal(major as nat) + "."@ + decimal((minor + 1) as nat),
        compat_range_text(None) == ">=0.25.0, <0.26"@,
{
}

/// The skeleton names the package in its header and in its metadata, with the range
/// and, where they are known, the category and the description, all escaped.
pub proof fn law_the_skeleton_is_whole(
    name: Seq<char>,
    compat: Seq<char>,
    category: Option<Seq<char>>,
    description: Option<Seq<char>>,
)
    ensures
        rendered(name, compat, category, description) == "--- "@ + escaped(name) + " \u{2014} "@
            + header_text(description) + BEFORE_NAME@ + escaped(name) + BEFORE_COMPAT@ + escaped(compat)
            + "\",\n"@ + category_text(category) + description_text(description) + AFTER_META@,
        description matches Some(d) ==> header_text(description) == single_line(d),
        description matches Some(d) ==> description_text(description) == "        description = \""@
            + escaped(d) + "\",\n"@,
        category matches Some(c) ==> category_text(category) == "        category = \""@ + escaped(c)
            + "\",\n"@,
        description is None ==> header_text(description) == "TODO: one-line description"@,
{
}

/// A refusal is told with what it is about.
pub proof fn law_refusals_are_told(e: PkgScaffoldError)
    ensures
        e matches PkgScaffoldError::NameInvalid { name, reason } ==> e.message_view()
            == "invalid package name "@ + quoted(name@) + ": "@ + reason@,
        e matches PkgScaffoldError::AlreadyExists { path } ==> e.message_view()
            == "package skeleton already exists at "@ + path@,
        e matches PkgScaffoldError::IoError { path, cause } ==> e.message_view() == "I/O error at "@
            + path@ + ": "@ + cause@,
{
}

} // verus!
