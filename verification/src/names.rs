//! Which names packages may have, and the code and names made from them.

use vstd::prelude::*;
use crate::text::{chars_of, str_eq};

verus! {

/// A letter or a digit of ASCII.
pub open spec fn is_alphanumeric(c: char) -> bool {
    ('a' <= c && c <= 'z') || ('A' <= c && c <= 'Z') || ('0' <= c && c <= '9')
}

/// Every character of `s` is a letter, a digit or an underscore.
pub open spec fn is_plain_word(s: Seq<char>) -> bool {
    s.len() > 0 && forall|i: int|
        0 <= i < s.len() ==> is_alphanumeric(#[trigger] s[i]) || s[i] == '_'
}

/// Every character of `s` is a letter, a digit, an underscore or a hyphen.
pub open spec fn is_safe_name(s: Seq<char>) -> bool {
    s.len() > 0 && forall|i: int|
        0 <= i < s.len() ==> is_alphanumeric(#[trigger] s[i]) || s[i] == '_' || s[i] == '-'
}

pub fn alphanumeric(c: char) -> (r: bool)
    ensures
        r == is_alphanumeric(c),
{
    ('a' <= c && c <= 'z') || ('A' <= c && c <= 'Z') || ('0' <= c && c <= '9')
}

/// The name can stand in a Lua string literal as it is: it holds letters,
/// digits, underscores and hyphens only, and at least one of them.
pub fn is_safe_pkg_name(name: &str) -> (r: bool)
    ensures
        r == is_safe_name(name@),
{
    let cs = chars_of(name);
    if cs.len() == 0 {
        return false;
    }
    let mut i: usize = 0;
    while i < cs.len()
        invariant
            i <= cs@.len(),
            cs@ == name@,
            forall|k: int|
                0 <= k < i ==> is_alphanumeric(#[trigger] name@[k]) || name@[k] == '_' || name@[k]
                    == '-',
        decreases cs@.len() - i,
    {
        let c = cs[i];
        if !(alphanumeric(c) || c == '_' || c == '-') {
            assert(name@[i as int] == c);
            return false;
        }
        i = i + 1;
    }
    true
}

/// The name holds letters, digits and underscores only, and at least one.
pub fn is_plain_pkg_name(name: &str) -> (r: bool)
    ensures
        r == is_plain_word(name@),
{
    let cs = chars_of(name);
    if cs.len() == 0 {
        return false;
    }
    let mut i: usize = 0;
    while i < cs.len()
        invariant
            i <= cs@.len(),
            cs@ == name@,
            forall|k: int|
                0 <= k < i ==> is_alphanumeric(#[trigger] name@[k]) || name@[k] == '_',
        decreases cs@.len() - i,
    {
        let c = cs[i];
        if !(alphanumeric(c) || c == '_') {
            assert(name@[i as int] == c);
            return false;
        }
        i = i + 1;
    }
    true
}

/// The package stands beside the user's packages but is not one of them.
pub fn is_system_package(name: &str) -> (r: bool)
    ensures
        r == (name@ == "evalframe"@),
{
    str_eq(name, "evalframe")
}

/// The Lua code that loads the package `name` and runs it on the context.
pub open spec fn require_code(name: Seq<char>) -> Seq<char> {
    "local pkg = require(\""@ + name + "\")\nreturn pkg.run(ctx)"@
}

/// The Lua code that loads the package `name` and runs it on the context.
pub fn make_require_code(name: &str) -> (r: String)
    ensures
        r@ == require_code(name@),
{
    let mut r = "local pkg = require(\"".to_owned();
    r.append(name);
    r.append("\")\nreturn pkg.run(ctx)");
    r
}

/// The Lua code that loads the package `name` afresh and hands out its
/// description, or one that holds the name alone.
pub fn make_meta_code(name: &str) -> (r: String)
    ensures
        r@ == "package.loaded[\""@ + name@ + "\"] = nil\nlocal pkg = require(\""@ + name@
            + "\")\nreturn pkg.meta or { name = \""@ + name@ + "\" }"@,
{
    let mut r = "package.loaded[\"".to_owned();
    r.append(name);
    r.append("\"] = nil\nlocal pkg = require(\"");
    r.append(name);
    r.append("\")\nreturn pkg.meta or { name = \"");
    r.append(name);
    r.append("\" }");
    r
}

} // verus!
