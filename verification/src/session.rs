//! The session pin: one activated session per process, with the project root
//! that later calls fall back on.

use rand::RngExt;
use vstd::prelude::*;
use crate::text::{decimal, pad_zeros, spell, spelled, str_eq, zero_padded};

verus! {

/// A path of the file system, carried as it was given.
#[verifier::external_type_specification]
#[verifier::external_body]
pub struct ExPathBuf(std::path::PathBuf);

/// Activation modes. `Test` is a hint for stricter isolation; the session
/// itself only records it.
#[derive(Debug, Clone, Copy, PartialEq, Eq, Structural)]
pub enum SessionMode {
    Default,
    Test,
}

impl SessionMode {
    /// The mode's wire name.
    pub open spec fn name_view(self) -> Seq<char> {
        match self {
            SessionMode::Default => "default"@,
            SessionMode::Test => "test"@,
        }
    }

    /// The mode that `raw` names; nothing named is the default mode, and an
    /// unknown name is refused.
    pub fn parse(raw: Option<&str>) -> (r: Result<SessionMode, String>)
        ensures
            match r {
                Ok(m) => match raw {
                    None => m == SessionMode::Default,
                    Some(name) => m.name_view() == name@,
                },
                Err(msg) => raw matches Some(name) && (forall|m: SessionMode| #[trigger]
                    m.name_view() != name@) && msg@ == "alc_session_new: unknown mode '"@ + name@
                    + "' (allowed: \"default\" | \"test\")"@,
            },
    {
        match raw {
            None => Ok(SessionMode::Default),
            Some(name) => {
                if str_eq(name, "default") {
                    Ok(SessionMode::Default)
                } else if str_eq(name, "test") {
                    Ok(SessionMode::Test)
                } else {
                    let mut msg = "alc_session_new: unknown mode '".to_owned();
                    msg.append(name);
                    msg.append("' (allowed: \"default\" | \"test\")");
                    Err(msg)
                }
            },
        }
    }

    /// The mode's wire name.
    pub fn as_str(&self) -> (r: &'static str)
        ensures
            r@ == self.name_view(),
    {
        match self {
            SessionMode::Default => "default",
            SessionMode::Test => "test",
        }
    }
}

/// One activated session.
#[derive(Debug)]
pub struct AlcSession {
    /// Identifier that the activation response shows.
    pub session_id: String,
    /// Project root that was pinned at activation.
    pub project_root: Option<std::path::PathBuf>,
    /// Activation mode.
    pub mode: SessionMode,
}

/// The identifier made of a time in milliseconds and a random number.
pub open spec fn session_id_text(ms: nat, random: nat) -> Seq<char> {
    "alc-sess-"@ + decimal(ms) + "-"@ + zero_padded(spelled(random, 16), 8)
}

/// The identifier made of a time in milliseconds and a random number.
pub fn session_id_of(ms: u128, random: u32) -> (r: String)
    ensures
        r@ == session_id_text(ms as nat, random as nat),
{
    let mut out = "alc-sess-".to_owned();
    out.append(spell(ms, 10).as_str());
    out.append("-");
    out.append(pad_zeros(spell(random as u128, 16).as_str(), 8).as_str());
    out
}

/// `std::time::SystemTime::now`, as whole milliseconds since 1970-01-01; zero
/// where the clock stands before that. Nothing is known of the value.
#[verifier::external_body]
fn unix_millis() -> (r: u128) {
    std::time::SystemTime::now()
        .duration_since(std::time::UNIX_EPOCH)
        .map(|d| d.as_millis())
        .unwrap_or(0)
}

/// `rand::RngExt::random`, on the generator of `rand::rng`: a random number.
/// Nothing is known of the value.
#[verifier::external_body]
fn random_u32() -> (r: u32) {
    rand::rng().random()
}

/// An identifier made of the present time and a random number.
pub fn gen_session_id() -> (r: String)
    ensures
        exists|ms: u128, random: u32| r@ == #[trigger] session_id_text(ms as nat, random as nat),
{
    let ms: u128 = unix_millis();
    let random: u32 = random_u32();
    session_id_of(ms, random)
}

impl AlcSession {
    /// A new session with an identifier of its own.
    pub fn new(project_root: Option<std::path::PathBuf>, mode: SessionMode) -> (r: AlcSession)
        ensures
            r.project_root == project_root,
            r.mode == mode,
            exists|ms: u128, random: u32|
                r.session_id@ == #[trigger] session_id_text(ms as nat, random as nat),
    {
        AlcSession { session_id: gen_session_id(), project_root, mode }
    }
}

// ─── Laws ───────────────────────────────────────────────────────

/// Reading a mode's wire name back gives the mode: no two modes share a name.
pub proof fn law_mode_names_distinct(a: SessionMode, b: SessionMode)
    requires
        a.name_view() == b.name_view(),
    ensures
        a == b,
{
    reveal_strlit("default");
    reveal_strlit("test");
    assert("default"@.len() == 7);
    assert("test"@.len() == 4);
}

} // verus!
