//! What origins stand for, and which names are sound.

use vstd::prelude::*;
use crate::names::{is_alphanumeric, is_plain_word, is_safe_name, require_code};
use crate::paths::absolute;
use crate::session::{session_id_text, SessionMode};
use crate::source::{display_of, legacy_source, refetch_url, PackageSource, SourceView};
use crate::text::{decimal, opt_text, spelled, zero_padded};

verus! {

/// An origin is shown by its path or its URL, and else by its kind; one that is not
/// known by nothing.
pub proof fn law_how_origins_are_shown(s: SourceView)
    ensures
        s matches SourceView::Path(p) ==> display_of(s) == p,
        s matches SourceView::Git(u, _) ==> display_of(s) == u,
        s is Installed ==> display_of(s) == "installed"@,
        s is Bundled ==> display_of(s) == "bundled"@,
        s is Unknown ==> display_of(s).len() == 0,
{
}

/// Packages can be fetched again from a repository, and bundled ones from the
/// collection that is recorded of them; from nothing else.
pub proof fn law_what_can_be_fetched_again(s: SourceView, url: Seq<char>)
    ensures
        refetch_url(s) == Some(url) <==> (s matches SourceView::Git(u, _) && u == url) || s
            == SourceView::Bundled(Some(url)),
{
}

/// An origin that was recorded as a text: nothing, what is bundled, a copy of an
/// absolute path, or a repository.
pub proof fn law_what_old_origins_stand_for(text: Seq<char>)
    ensures
        text.len() == 0 ==> legacy_source(text) == SourceView::Unknown,
        text == "bundled"@ ==> legacy_source(text) == SourceView::Bundled(None),
        absolute(text) ==> legacy_source(text) == SourceView::Installed,
        text.len() > 0 && text != "bundled"@ && !absolute(text) ==> legacy_source(text)
            == SourceView::Git(text, None),
{
    reveal_strlit("bundled");
    assert("bundled"@.len() == 7 && "bundled"@[0] == 'b');
}

/// The content of an origin is its kind with the texts that it holds.
pub proof fn law_the_content_of_an_origin(s: PackageSource)
    ensures
        s matches PackageSource::Path { path } ==> s@ == SourceView::Path(path@),
        s matches PackageSource::Git { url, rev } ==> s@ == SourceView::Git(url@, opt_text(rev)),
        s matches PackageSource::Bundled { collection } ==> s@ == SourceView::Bundled(
            opt_text(collection),
        ),
        s is Installed ==> s@ is Installed,
        s is Unknown ==> s@ is Unknown,
{
}

/// A word is plain where it holds letters, digits and underscores only, and a name is
/// sound where it may hold hyphens too; neither is empty.
pub proof fn law_which_names_are_sound(s: Seq<char>)
    ensures
        is_safe_name(s) <==> s.len() > 0 && forall|i: int|
            0 <= i < s.len() ==> ('a' <= #[trigger] s[i] && s[i] <= 'z') || ('A' <= s[i] && s[i]
                <= 'Z') || ('0' <= s[i] && s[i] <= '9') || s[i] == '_' || s[i] == '-',
        is_plain_word(s) <==> is_safe_name(s) && !s.contains('-'),
        require_code(s) == "local pkg = require(\""@ + s + "\")\nreturn pkg.run(ctx)"@,
{
    if is_safe_name(s) {
        assert forall|i: int| 0 <= i < s.len() implies ('a' <= #[trigger] s[i] && s[i] <= 'z') || (
        'A' <= s[i] && s[i] <= 'Z') || ('0' <= s[i] && s[i] <= '9') || s[i] == '_' || s[i] == '-' by {
            assert(is_alphanumeric(s[i]) || s[i] == '_' || s[i] == '-');
        }
    }
    if s.len() > 0 && forall|i: int|
        0 <= i < s.len() ==> ('a' <= #[trigger] s[i] && s[i] <= 'z') || ('A' <= s[i] && s[i] <= 'Z')
            || ('0' <= s[i] && s[i] <= '9') || s[i] == '_' || s[i] == '-' {
        assert forall|i: int| 0 <= i < s.len() implies is_alphanumeric(#[trigger] s[i]) || s[i]
            == '_' || s[i] == '-' by {}
    }
    if is_plain_word(s) {
        assert forall|i: int| 0 <= i < s.len() implies is_alphanumeric(#[trigger] s[i]) || s[i]
            == '_' || s[i] == '-' by {}
        assert(!s.contains('-'));
    }
    if is_safe_name(s) && !s.contains('-') {
        assert forall|i: int| 0 <= i < s.len() implies is_alphanumeric(#[trigger] s[i]) || s[i]
            == '_' by {
            assert(s.contains(s[i]));
        }
    }
}

/// An identifier holds the time in decimal and the random number in eight or more
/// hexadecimal digits.
pub proof fn law_what_an_identifier_holds(ms: nat, random: nat, m: SessionMode)
    ensures
        session_id_text(ms, random) == "alc-sess-"@ + decimal(ms) + "-"@ + zero_padded(
            spelled(random, 16),
            8,
        ),
        m == SessionMode::Default ==> m.name_view() == "default"@,
        m == SessionMode::Test ==> m.name_view() == "test"@,
{
}

} // verus!
