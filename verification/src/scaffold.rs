//! The skeleton of a new package.

use vstd::prelude::*;
use crate::json::{Json, JsonView};
use crate::text::{
    chars_of, decimal, decimal_of, opt_str, quote, quoted, spelled,
};

verus! {

/// Version of the shape library that generated packages are written against.
pub const EMBEDDED_ALC_SHAPES_VERSION: &'static str = "0.25.1";

/// Why a skeleton is not written.
#[derive(Debug)]
pub enum PkgScaffoldError {
    /// The name cannot name a package.
    NameInvalid { name: String, reason: &'static str },
    /// There is a package of that name already.
    AlreadyExists { path: String },
    /// The file system refused an operation.
    IoError { path: String, cause: String },
}

/// A skeleton that was written.
#[derive(Debug)]
pub struct ScaffoldResult {
    pub path: String,
    pub bytes_written: usize,
}

impl ScaffoldResult {
    /// The answer after the skeleton was written.
    pub fn to_json(&self) -> (r: Json)
        ensures
            r@ == JsonView::Object(
                seq![
                    ("status"@, JsonView::Text("ok"@)),
                    ("path"@, JsonView::Text(self.path@)),
                    ("bytes_written"@, JsonView::UInt(self.bytes_written as u64)),
                ],
            ),
    {
        let r = Json::object().with("status", Json::text("ok")).with(
            "path",
            Json::text(self.path.as_str()),
        ).with("bytes_written", Json::UInt(self.bytes_written as u64));
        assert(r@.members() =~= seq![
            ("status"@, JsonView::Text("ok"@)),
            ("path"@, JsonView::Text(self.path@)),
            ("bytes_written"@, JsonView::UInt(self.bytes_written as u64)),
        ]);
        r
    }
}

/// A lower-case letter of ASCII.
pub open spec fn is_lower(c: char) -> bool {
    'a' <= c && c <= 'z'
}

/// A character that may follow the first one of a package name.
pub open spec fn is_name_char(c: char) -> bool {
    is_lower(c) || ('0' <= c && c <= '9') || c == '_'
}

/// What is wrong with a package name, if anything: it is empty, longer than 64
/// bytes, does not begin with a letter, or holds another character than
/// lower-case letters, digits and underscores.
pub open spec fn name_fault(name: Seq<char>, bytes: int) -> Option<Seq<char>> {
    if name.len() == 0 {
        Some("name must not be empty"@)
    } else if bytes > 64 {
        Some("name must be 64 characters or fewer"@)
    } else if !is_lower(name[0]) {
        Some("name must start with a lowercase ASCII letter (a-z)"@)
    } else if exists|i: int| 0 < i < name.len() && !is_name_char(#[trigger] name[i]) {
        Some("name may only contain lowercase ASCII letters, digits, and underscores"@)
    } else {
        None
    }
}

/// Refuses a name that cannot name a package.
pub fn validate_name(name: &str) -> (r: Result<(), PkgScaffoldError>)
    ensures
        match r {
            Ok(_) => name_fault(name@, name.len() as int) is None,
            Err(PkgScaffoldError::NameInvalid { name: n, reason }) => n@ == name@ && name_fault(
                name@,
                name.len() as int,
            ) == Some(reason@),
            Err(_) => false,
        },
{
    if name.is_empty() {
        return Err(
            PkgScaffoldError::NameInvalid {
                name: name.to_owned(),
                reason: "name must not be empty",
            },
        );
    }
    if name.len() > 64 {
        return Err(
            PkgScaffoldError::NameInvalid {
                name: name.to_owned(),
                reason: "name must be 64 characters or fewer",
            },
        );
    }
    let cs = chars_of(name);
    let first: char = cs[0];
    if !('a' <= first && first <= 'z') {
        return Err(
            PkgScaffoldError::NameInvalid {
                name: name.to_owned(),
                reason: "name must start with a lowercase ASCII letter (a-z)",
            },
        );
    }
    let mut i: usize = 1;
    while i < cs.len()
        invariant
            1 <= i <= cs@.len(),
            cs@ == name@,
            0 < cs@.len(),
            name.len() <= 64,
            is_lower(cs@[0]),
            forall|k: int| 0 < k < i ==> is_name_char(#[trigger] cs@[k]),
        decreases cs@.len() - i,
    {
        let c: char = cs[i];
        if !('a' <= c && c <= 'z') && !('0' <= c && c <= '9') && c != '_' {
            assert(!is_name_char(name@[i as int]));
            return Err(
                PkgScaffoldError::NameInvalid {
                    name: name.to_owned(),
                    reason: "name may only contain lowercase ASCII letters, digits, and underscores",
                },
            );
        }
        i = i + 1;
    }
    Ok(())
}

impl PkgScaffoldError {
    /// The text that `message` spells.
    pub open spec fn message_view(self) -> Seq<char> {
        match self {
            PkgScaffoldError::NameInvalid { name, reason } => "invalid package name "@ + quoted(
                name@,
            ) + ": "@ + reason@,
            PkgScaffoldError::AlreadyExists { path } => "package skeleton already exists at "@
                + path@,
            PkgScaffoldError::IoError { path, cause } => "I/O error at "@ + path@ + ": "@ + cause@,
        }
    }

    /// The text shown to the caller.
    pub fn message(&self) -> (r: String)
        ensures
            r@ == self.message_view(),
    {
        match self {
            PkgScaffoldError::NameInvalid { name, reason } => {
                let mut out = "invalid package name ".to_owned();
                out.append(quote(name.as_str()).as_str());
                out.append(": ");
                out.append(reason);
                out
            },
            PkgScaffoldError::AlreadyExists { path } => {
                let mut out = "package skeleton already exists at ".to_owned();
                out.append(path.as_str());
                out
            },
            PkgScaffoldError::IoError { path, cause } => {
                let mut out = "I/O error at ".to_owned();
                out.append(path.as_str());
                out.append(": ");
                out.append(cause.as_str());
                out
            },
        }
    }
}

// ─── Compatibility range ────────────────────────────────────────

/// What `semver::Version::parse` reads in a text: the major and the minor
/// number, or nothing where the text is not a version.
pub uninterp spec fn semver_numbers(text: Seq<char>) -> Option<(u64, u64)>;

/// The version text with the three given numbers.
pub open spec fn version_text(major: nat, minor: nat, patch: nat) -> Seq<char> {
    decimal(major) + "."@ + decimal(minor) + "."@ + decimal(patch)
}

/// `semver::Version::parse`: the major and the minor number of a version.
/// Three numbers without leading zeros, with points between them, are one.
#[verifier::external_body]
fn parse_version(text: &str) -> (r: Option<(u64, u64)>)
    ensures
        r == semver_numbers(text@),
        forall|major: u64, minor: u64, patch: u64|
            text@ == #[trigger] version_text(major as nat, minor as nat, patch as nat) ==> r
                == Some((major, minor)),
{
    semver::Version::parse(text).ok().map(|v| (v.major, v.minor))
}

/// The range from a minor version up to, not including, the next one; a fixed
/// range where the version is not known.
pub open spec fn compat_range_text(parsed: Option<(u64, u64)>) -> Seq<char> {
    match parsed {
        Some((major, minor)) => ">="@ + decimal(major as nat) + "."@ + decimal(minor as nat)
            + ".0, <"@ + decimal(major as nat) + "."@ + decimal((minor + 1) as nat),
        None => ">=0.25.0, <0.26"@,
    }
}

/// The compatibility range for a version's major and minor number.
pub fn compat_range_of(parsed: Option<(u64, u64)>) -> (r: String)
    requires
        parsed matches Some(v) ==> v.1 < u64::MAX,
    ensures
        r@ == compat_range_text(parsed),
{
    match parsed {
        Some((major, minor)) => {
            let mut out = ">=".to_owned();
            out.append(decimal_of(major).as_str());
            out.append(".");
            out.append(decimal_of(minor).as_str());
            out.append(".0, <");
            out.append(decimal_of(major).as_str());
            out.append(".");
            out.append(decimal_of(minor + 1).as_str());
            out
        },
        None => ">=0.25.0, <0.26".to_owned(),
    }
}

/// The compatibility range of the embedded shape library.
pub fn default_compat_range() -> (r: String)
    ensures
        r@ == ">=0.25.0, <0.26"@,
{
    let parsed = parse_version(EMBEDDED_ALC_SHAPES_VERSION);
    proof {
        reveal_strlit("0.25.1");
        reveal_strlit(".");
        reveal_with_fuel(spelled, 3);
        assert("0.25.1"@ =~= version_text(0, 25, 1));
        assert(EMBEDDED_ALC_SHAPES_VERSION@ == version_text(0u64 as nat, 25u64 as nat, 1u64 as nat));
        assert(parsed == Some((0u64, 25u64)));
        reveal_strlit(">=");
        reveal_strlit(".0, <");
        reveal_strlit(">=0.25.0, <0.26");
        assert(compat_range_text(parsed) =~= ">=0.25.0, <0.26"@);
    }
    compat_range_of(parsed)
}

// ─── Rendering ──────────────────────────────────────────────────

/// The spelling of `c` inside a double-quoted Lua string literal.
pub open spec fn escaped_char(c: char) -> Seq<char> {
    if c == '\\' {
        seq!['\\', '\\']
    } else if c == '"' {
        seq!['\\', '"']
    } else if c == '\n' {
        seq!['\\', 'n']
    } else if c == '\r' {
        seq!['\\', 'r']
    } else if c == '\0' {
        seq!['\\', '0']
    } else {
        seq![c]
    }
}

/// The spelling of `s` inside a double-quoted Lua string literal.
pub open spec fn escaped(s: Seq<char>) -> Seq<char>
    decreases s.len(),
{
    if s.len() == 0 {
        Seq::empty()
    } else {
        escaped(s.drop_last()) + escaped_char(s.last())
    }
}

/// The spelling of `s` inside a double-quoted Lua string literal.
pub fn escape_lua_string(s: &str) -> (r: String)
    ensures
        r@ == escaped(s@),
{
    let cs = chars_of(s);
    let mut out = String::new();
    let mut i: usize = 0;
    while i < cs.len()
        invariant
            i <= cs@.len(),
            cs@ == s@,
            out@ == escaped(cs@.take(i as int)),
        decreases cs@.len() - i,
    {
        let c: char = cs[i];
        let ghost before = out@;
        if c == '\\' {
            out.push('\\');
            out.push('\\');
        } else if c == '"' {
            out.push('\\');
            out.push('"');
        } else if c == '\n' {
            out.push('\\');
            out.push('n');
        } else if c == '\r' {
            out.push('\\');
            out.push('r');
        } else if c == '\0' {
            out.push('\\');
            out.push('0');
        } else {
            out.push(c);
        }
        proof {
            assert(out@ =~= before + escaped_char(c));
            assert(cs@.take(i + 1).drop_last() =~= cs@.take(i as int));
            assert(cs@.take(i + 1).last() == c);
        }
        i = i + 1;
    }
    assert(cs@.take(i as int) =~= cs@);
    out
}

/// `s` with a blank in place of every line break.
pub open spec fn single_line(s: Seq<char>) -> Seq<char> {
    s.map_values(
        |c: char|
            if c == '\r' || c == '\n' {
                ' '
            } else {
                c
            },
    )
}

/// `s` with a blank in place of every line break.
pub fn sanitize_header_line(s: &str) -> (r: String)
    ensures
        r@ == single_line(s@),
{
    let cs = chars_of(s);
    let mut out = String::new();
    let mut i: usize = 0;
    while i < cs.len()
        invariant
            i <= cs@.len(),
            cs@ == s@,
            out@ == single_line(cs@).take(i as int),
        decreases cs@.len() - i,
    {
        let c: char = cs[i];
        if c == '\r' || c == '\n' {
            out.push(' ');
        } else {
            out.push(c);
        }
        i = i + 1;
        assert(out@ =~= single_line(cs@).take(i as int));
    }
    assert(single_line(cs@).take(i as int) =~= single_line(s@));
    out
}

/// What stands between the header line and the name of the package.
pub const BEFORE_NAME: &'static str =
    ".\n\nlocal S = require(\"alc_shapes\")\nlocal T = S.T\n\nlocal M = {\n    meta = {\n        name = \"";

/// What stands between the name and the compatibility range.
pub const BEFORE_COMPAT: &'static str =
    "\",\n        version = \"0.1.0\",\n        alc_shapes_compat = \"";

/// What stands behind the lines of the metadata.
pub const AFTER_META: &'static str =
    "    },\n    spec = {\n        entries = {\n            run = {\n                -- TODO: declare input / result via alc_shapes.t combinators.\n                -- input  = T.shape({ ... }),\n                -- result = T.shape({ ... }),\n            },\n        },\n    },\n}\n\nfunction M.run(ctx)\n    -- TODO: implement. Use alc.llm(prompt) for LLM calls\n    -- (pauses execution; host resumes via alc_continue).\n    local answer = alc.llm(\"example prompt for \" .. tostring(ctx.task))\n    return { answer = answer }\nend\n\nreturn M\n";

/// The header line of a package's `init.lua`.
pub open spec fn header_text(description: Option<Seq<char>>) -> Seq<char> {
    match description {
        Some(d) => single_line(d),
        None => "TODO: one-line description"@,
    }
}

/// The category line of a package's metadata.
pub open spec fn category_text(category: Option<Seq<char>>) -> Seq<char> {
    match category {
        Some(c) => "        category = \""@ + escaped(c) + "\",\n"@,
        None => "        -- category = \"<category>\",       -- uncomment if provided\n"@,
    }
}

/// The description line of a package's metadata.
pub open spec fn description_text(description: Option<Seq<char>>) -> Seq<char> {
    match description {
        Some(d) => "        description = \""@ + escaped(d) + "\",\n"@,
        None => "        -- description = \"<description>\", -- uncomment if provided\n"@,
    }
}

/// The text of a new package's `init.lua`, up to the category line.
pub open spec fn rendered_head(
    name: Seq<char>,
    compat: Seq<char>,
    description: Option<Seq<char>>,
) -> Seq<char> {
    "--- "@ + escaped(name) + " \u{2014} "@ + header_text(description) + BEFORE_NAME@ + escaped(name)
        + BEFORE_COMPAT@ + escaped(compat) + "\",\n"@
}

/// The text of a new package's `init.lua`.
pub open spec fn rendered(
    name: Seq<char>,
    compat: Seq<char>,
    category: Option<Seq<char>>,
    description: Option<Seq<char>>,
) -> Seq<char> {
    rendered_head(name, compat, description) + category_text(category) + description_text(
        description,
    ) + AFTER_META@
}

/// The text of a new package's `init.lua`.
pub fn render_template(
    name: &str,
    compat: &str,
    category: Option<&str>,
    description: Option<&str>,
) -> (r: String)
    ensures
        r@ == rendered(name@, compat@, opt_str(category), opt_str(description)),
{
    let header = match description {
        Some(d) => sanitize_header_line(d),
        None => "TODO: one-line description".to_owned(),
    };
    let category_line = match category {
        Some(c) => {
            let mut line = "        category = \"".to_owned();
            line.append(escape_lua_string(c).as_str());
            line.append("\",\n");
            line
        },
        None => "        -- category = \"<category>\",       -- uncomment if provided\n".to_owned(),
    };
    let description_line = match description {
        Some(d) => {
            let mut line = "        description = \"".to_owned();
            line.append(escape_lua_string(d).as_str());
            line.append("\",\n");
            line
        },
        None => "        -- description = \"<description>\", -- uncomment if provided\n".to_owned(),
    };
    let escaped_name = escape_lua_string(name);
    let mut out = "--- ".to_owned();
    out.append(escaped_name.as_str());
    out.append(" \u{2014} ");
    out.append(header.as_str());
    out.append(BEFORE_NAME);
    out.append(escaped_name.as_str());
    out.append(BEFORE_COMPAT);
    out.append(escape_lua_string(compat).as_str());
    out.append("\",\n");
    out.append(category_line.as_str());
    out.append(description_line.as_str());
    out.append(AFTER_META);
    out
}

/// The text to write for a new package, or why its name is refused.
pub fn skeleton_text(
    name: &str,
    category: Option<&str>,
    description: Option<&str>,
) -> (r: Result<String, PkgScaffoldError>)
    ensures
        match r {
            Ok(t) => name_fault(name@, name.len() as int) is None && t@ == rendered(
                name@,
                ">=0.25.0, <0.26"@,
                opt_str(category),
                opt_str(description),
            ),
            Err(PkgScaffoldError::NameInvalid { name: n, reason }) => n@ == name@ && name_fault(
                name@,
                name.len() as int,
            ) == Some(reason@),
            Err(_) => false,
        },
{
    match validate_name(name) {
        Err(e) => Err(e),
        Ok(_) => {
            let compat = default_compat_range();
            Ok(render_template(name, compat.as_str(), category, description))
        },
    }
}

// ─── Laws ───────────────────────────────────────────────────────

/// Where a reader of a double-quoted Lua literal stands.
pub enum LiteralState {
    /// Between two characters of the literal.
    Inside,
    /// After a backslash.
    AfterBackslash,
    /// After the closing quote or a line break, which ends the literal.
    Ended,
}

/// Where the reader stands after one more character.
pub open spec fn literal_step(state: LiteralState, c: char) -> LiteralState {
    match state {
        LiteralState::Inside => if c == '\\' {
            LiteralState::AfterBackslash
        } else if c == '"' || c == '\n' || c == '\r' {
            LiteralState::Ended
        } else {
            LiteralState::Inside
        },
        LiteralState::AfterBackslash => LiteralState::Inside,
        LiteralState::Ended => LiteralState::Ended,
    }
}

/// Where the reader stands after `s`, from inside a literal.
pub open spec fn literal_state(s: Seq<char>) -> LiteralState
    decreases s.len(),
{
    if s.len() == 0 {
        LiteralState::Inside
    } else {
        literal_step(literal_state(s.drop_last()), s.last())
    }
}

/// Escaped text neither ends the literal that it stands in nor leaves it in
/// the middle of an escape, whatever the text is.
pub proof fn law_escaped_text_stays_in_literal(s: Seq<char>)
    ensures
        literal_state(escaped(s)) == LiteralState::Inside,
    decreases s.len(),
{
    if s.len() > 0 {
        law_escaped_text_stays_in_literal(s.drop_last());
        let a = escaped(s.drop_last());
        let e = escaped_char(s.last());
        let w = a + e;
        assert(escaped(s) == w);
        if e.len() == 2 {
            assert(w.drop_last() =~= a.push(e[0]));
            assert(a.push(e[0]).drop_last() =~= a);
            assert(literal_state(a.push(e[0])) == LiteralState::AfterBackslash);
        } else {
            assert(w.drop_last() =~= a);
            assert(w.last() == e[0]);
        }
    }
}

/// Escaped text holds no line break and no NUL.
pub proof fn law_escaped_text_is_one_line(s: Seq<char>)
    ensures
        !escaped(s).contains('\n'),
        !escaped(s).contains('\r'),
        !escaped(s).contains('\0'),
    decreases s.len(),
{
    if s.len() > 0 {
        law_escaped_text_is_one_line(s.drop_last());
        let a = escaped(s.drop_last());
        let e = escaped_char(s.last());
        assert forall|i: int| 0 <= i < (a + e).len() implies (#[trigger] (a + e)[i]) != '\n' && (a
            + e)[i] != '\r' && (a + e)[i] != '\0' by {
            if i < a.len() {
                assert(a.contains(a[i]));
            } else {
                assert((a + e)[i] == e[i - a.len()]);
            }
        }
    }
}

/// Two texts with the same escaped form are the same text.
pub proof fn law_escape_is_injective(s: Seq<char>, t: Seq<char>)
    requires
        escaped(s) == escaped(t),
    ensures
        s == t,
    decreases s.len(),
{
    law_escaped_text_stays_in_literal(s);
    law_escaped_text_stays_in_literal(t);
    if s.len() == 0 || t.len() == 0 {
        if s.len() > 0 {
            assert(escaped(s).len() > 0);
        }
        if t.len() > 0 {
            assert(escaped(t).len() > 0);
        }
        assert(s =~= t);
    } else {
        let a = escaped(s.drop_last());
        let b = escaped(t.drop_last());
        let ea = escaped_char(s.last());
        let eb = escaped_char(t.last());
        let w = a + ea;
        law_escaped_text_stays_in_literal(s.drop_last());
        law_escaped_text_stays_in_literal(t.drop_last());
        let v = b + eb;
        assert(w == v);
        assert(a =~= w.take(w.len() - ea.len()));
        assert(b =~= v.take(v.len() - eb.len()));
        assert(w.last() == ea[ea.len() - 1]);
        assert(v.last() == eb[eb.len() - 1]);
        assert(ea.len() == 2 ==> w[w.len() - 2] == ea[0]);
        assert(eb.len() == 2 ==> v[v.len() - 2] == eb[0]);
        if ea.len() != eb.len() {
            // The shorter spelling would end where the longer one is in an escape.
            if ea.len() == 2 {
                assert(b =~= a.push(ea[0]));
                assert(a.push(ea[0]).drop_last() =~= a);
            } else {
                assert(a =~= b.push(eb[0]));
                assert(b.push(eb[0]).drop_last() =~= b);
            }
        }
        assert(a =~= b);
        law_escape_is_injective(s.drop_last(), t.drop_last());
        assert(s.last() == t.last());
        assert(s =~= s.drop_last().push(s.last()));
        assert(t =~= t.drop_last().push(t.last()));
    }
}

/// The character that a letter behind a backslash stands for.
pub open spec fn simple_escape(c: char) -> Option<char> {
    if c == 'a' {
        Some('\x07')
    } else if c == 'b' {
        Some('\x08')
    } else if c == 'f' {
        Some('\x0c')
    } else if c == 'n' {
        Some('\n')
    } else if c == 'r' {
        Some('\r')
    } else if c == 't' {
        Some('\t')
    } else if c == 'v' {
        Some('\x0b')
    } else if c == '\\' || c == '"' || c == '\'' || c == '\n' {
        Some(c)
    } else {
        None
    }
}

pub open spec fn is_decimal_digit(c: char) -> bool {
    '0' <= c <= '9'
}

/// How many decimal digits stand at the beginning of `s`: three at most.
pub open spec fn digit_count(s: Seq<char>) -> int {
    if s.len() == 0 || !is_decimal_digit(s[0]) {
        0
    } else if s.len() == 1 || !is_decimal_digit(s[1]) {
        1
    } else if s.len() == 2 || !is_decimal_digit(s[2]) {
        2
    } else {
        3
    }
}

/// The number that the decimal digits `s` spell.
pub open spec fn number_of(s: Seq<char>) -> int
    decreases s.len(),
{
    if s.len() == 0 {
        0
    } else {
        number_of(s.drop_last()) * 10 + (s.last() as int - '0' as int)
    }
}

/// `t` with `c` before it.
pub open spec fn preceded(c: char, t: Option<Seq<char>>) -> Option<Seq<char>> {
    match t {
        Some(t) => Some(seq![c] + t),
        None => None,
    }
}

/// What Lua reads between two double quotes: characters as they stand, letters
/// and marks behind a backslash, and up to three decimal digits behind one, for
/// the character of that number. A quote or a line break that stands alone is
/// not read, nor is a number that is no character of ASCII, nor the escapes by
/// `x`, `u` and `z`.
pub open spec fn literal_text(s: Seq<char>) -> Option<Seq<char>>
    decreases s.len(),
{
    if s.len() == 0 {
        Some(Seq::empty())
    } else if s[0] == '\\' {
        let rest = s.skip(1);
        let n = digit_count(rest);
        if rest.len() == 0 {
            None
        } else if n > 0 {
            if number_of(rest.take(n)) < 128 {
                preceded(number_of(rest.take(n)) as char, literal_text(rest.skip(n)))
            } else {
                None
            }
        } else {
            match simple_escape(rest[0]) {
                Some(c) => preceded(c, literal_text(rest.skip(1))),
                None => None,
            }
        }
    } else if s[0] == '"' || s[0] == '\n' || s[0] == '\r' {
        None
    } else {
        preceded(s[0], literal_text(s.skip(1)))
    }
}

proof fn lemma_escaped_front(s: Seq<char>)
    requires
        s.len() > 0,
    ensures
        escaped(s) == escaped_char(s[0]) + escaped(s.skip(1)),
    decreases s.len(),
{
    if s.len() == 1 {
        assert(s.drop_last() =~= Seq::empty());
        assert(s.skip(1) =~= Seq::empty());
        assert(escaped(s) =~= escaped_char(s[0]) + escaped(s.skip(1)));
    } else {
        let d = s.drop_last();
        lemma_escaped_front(d);
        assert(s.skip(1).drop_last() =~= d.skip(1));
        assert(s.skip(1).last() == s.last());
        assert(escaped(s) =~= escaped_char(s[0]) + escaped(s.skip(1)));
    }
}

/// Lua reads the escaped text between double quotes as the text itself, but for
/// a text in which a digit follows a NUL.
pub proof fn law_escaped_text_reads_back(s: Seq<char>)
    requires
        forall|i: int|
            0 <= i && i + 1 < s.len() && #[trigger] s[i] == '\0' ==> !is_decimal_digit(s[i + 1]),
    ensures
        literal_text(escaped(s)) == Some(s),
    decreases s.len(),
{
    if s.len() > 0 {
        let c = s[0];
        let t = s.skip(1);
        let e = escaped_char(c);
        let w = escaped(s);
        lemma_escaped_front(s);
        assert forall|i: int| 0 <= i && i + 1 < t.len() && #[trigger] t[i] == '\0' implies
            !is_decimal_digit(t[i + 1]) by {
            assert(s[i + 1] == t[i]);
            assert(s[i + 2] == t[i + 1]);
        }
        law_escaped_text_reads_back(t);
        assert(seq![c] + t =~= s);
        if e.len() == 1 {
            assert(w.skip(1) =~= escaped(t));
        } else {
            let rest = w.skip(1);
            assert(rest.skip(1) =~= escaped(t));
            if c == '\0' {
                if t.len() > 0 {
                    lemma_escaped_front(t);
                    assert(s[1] == t[0]);
                    assert(rest[1] == escaped_char(t[0])[0]);
                } else {
                    assert(escaped(t).len() == 0);
                }
                assert(digit_count(rest) == 1);
                assert(rest.take(1) =~= seq!['0']);
                reveal_with_fuel(number_of, 2);
                assert(number_of(rest.take(1)) == 0);
            }
        }
    }
}

/// `t` is one line with its end.
pub open spec fn is_whole_line(t: Seq<char>) -> bool {
    t.len() > 0 && t.last() == '\n' && !t.drop_last().contains('\n') && !t.drop_last().contains(
        '\r',
    )
}

proof fn lemma_line_of(a: Seq<char>, b: Seq<char>, c: Seq<char>)
    requires
        !a.contains('\n') && !a.contains('\r'),
        !b.contains('\n') && !b.contains('\r'),
        is_whole_line(c),
    ensures
        is_whole_line(a + b + c),
{
    let w = a + b + c;
    let d = w.drop_last();
    assert(d =~= a + b + c.drop_last());
    assert forall|i: int| 0 <= i < d.len() implies (#[trigger] d[i]) != '\n' && d[i] != '\r' by {
        if i < a.len() {
            assert(a.contains(a[i]));
        } else if i < a.len() + b.len() {
            assert(b.contains(b[i - a.len()]));
        } else {
            let x = c.drop_last();
            assert(x.contains(x[i - a.len() - b.len()]));
        }
    }
}

/// Whatever the category and the description hold, the text of a package has a
/// line for each of them, behind the end of another line.
pub proof fn law_fields_are_whole_lines(
    name: Seq<char>,
    compat: Seq<char>,
    category: Option<Seq<char>>,
    description: Option<Seq<char>>,
)
    ensures
        rendered(name, compat, category, description) == rendered_head(name, compat, description)
            + category_text(category) + description_text(description) + AFTER_META@,
        rendered_head(name, compat, description).last() == '\n',
        is_whole_line(category_text(category)),
        is_whole_line(description_text(description)),
{
    reveal_strlit("\",\n");
    reveal_strlit("        category = \"");
    reveal_strlit("        description = \"");
    reveal_strlit("        -- category = \"<category>\",       -- uncomment if provided\n");
    reveal_strlit("        -- description = \"<description>\", -- uncomment if provided\n");
    assert(is_whole_line("\",\n"@));
    if let Some(c) = category {
        law_escaped_text_is_one_line(c);
        lemma_line_of("        category = \""@, escaped(c), "\",\n"@);
    }
    if let Some(d) = description {
        law_escaped_text_is_one_line(d);
        lemma_line_of("        description = \""@, escaped(d), "\",\n"@);
    }
}

/// Whatever the description holds, the header goes on to the end of its line.
pub proof fn law_header_is_one_line(description: Option<Seq<char>>)
    ensures
        !header_text(description).contains('\n'),
        !header_text(description).contains('\r'),
{
    reveal_strlit("TODO: one-line description");
    if let Some(d) = description {
        assert forall|i: int| 0 <= i < single_line(d).len() implies (#[trigger] single_line(d)[i])
            != '\n' && single_line(d)[i] != '\r' by {}
    }
}

} // verus!
