//! Settings that are read from a `.env` file in the current directory.
use crate::text::{chars_of, contains_char, cut_once, has_prefix, same_text, split_once, starts_with,
    string_of, trim, trimmed};
use vstd::prelude::*;

verus! {

/// Settings that decide on authentication, on the commands that may run and on where
/// scopes are kept. The bridge may be started inside a repository that nobody vouches
/// for, so its `.env` file cannot supply them.
pub const DOTENV_DENIED_KEYS: [&'static str; 8] = [
    "OMO_BRIDGE_TOKEN",
    "OMO_BRIDGE_TOKEN_FILE",
    "OMO_BRIDGE_INSECURE_NO_AUTH",
    "OMO_BRIDGE_ALLOW_ARBITRARY_COMMANDS",
    "OMO_BRIDGE_READ_ONLY",
    "OMO_SCOPE_DIR",
    "OMO_ALLOWED_BINARIES",
    "ALLOWED_BINARIES",
];

/// The setting is one that a `.env` file cannot supply.
pub open spec fn is_denied(key: Seq<char>) -> bool {
    ||| key == "OMO_BRIDGE_TOKEN"@
    ||| key == "OMO_BRIDGE_TOKEN_FILE"@
    ||| key == "OMO_BRIDGE_INSECURE_NO_AUTH"@
    ||| key == "OMO_BRIDGE_ALLOW_ARBITRARY_COMMANDS"@
    ||| key == "OMO_BRIDGE_READ_ONLY"@
    ||| key == "OMO_SCOPE_DIR"@
    ||| key == "OMO_ALLOWED_BINARIES"@
    ||| key == "ALLOWED_BINARIES"@
}

/// Whether a `.env` file can supply a setting.
pub fn dotenv_key_is_importable(key: &str) -> (r: bool)
    ensures
        r == !is_denied(key@),
{
    !(same_text(key, "OMO_BRIDGE_TOKEN") || same_text(key, "OMO_BRIDGE_TOKEN_FILE") || same_text(
        key,
        "OMO_BRIDGE_INSECURE_NO_AUTH",
    ) || same_text(key, "OMO_BRIDGE_ALLOW_ARBITRARY_COMMANDS") || same_text(
        key,
        "OMO_BRIDGE_READ_ONLY",
    ) || same_text(key, "OMO_SCOPE_DIR") || same_text(key, "OMO_ALLOWED_BINARIES") || same_text(
        key,
        "ALLOWED_BINARIES",
    ))
}

/// A value without the pair of quotes around it, if it has one.
pub open spec fn unquoted(v: Seq<char>) -> Seq<char> {
    if v.len() >= 2 && v[0] == v.last() && (v[0] == '"' || v[0] == '\'') {
        v.subrange(1, v.len() - 1)
    } else {
        v
    }
}

/// The setting that a line assigns, if it assigns one: its name begins with `OMO_`, and
/// neither it nor the value holds a zero character.
pub open spec fn assignment(line: Seq<char>) -> Option<(Seq<char>, Seq<char>)> {
    let s = trimmed(line);
    if s.len() == 0 || s[0] == '#' {
        None
    } else {
        match cut_once(s, '=') {
            None => None,
            Some((k, v)) => {
                let key = trimmed(k);
                let value = unquoted(trimmed(v));
                if has_prefix(key, "OMO_"@) && !key.contains('\0') && !value.contains('\0') {
                    Some((key, value))
                } else {
                    None
                }
            },
        }
    }
}

fn unquote(s: &str) -> (r: String)
    ensures
        r@ == unquoted(s@),
{
    let v = chars_of(s);
    if v.len() >= 2 && v[0] == v[v.len() - 1] && (v[0] == '"' || v[0] == '\'') {
        string_of(&v, 1, v.len() - 1)
    } else {
        s.to_owned()
    }
}

/// The setting that a line assigns, if it assigns one.
pub fn parse_dotenv_assignment(line: &str) -> (r: Option<(String, String)>)
    ensures
        match r {
            Some((k, v)) => assignment(line@) == Some((k@, v@)),
            None => assignment(line@) is None,
        },
{
    let s = trim(line);
    let c = chars_of(s.as_str());
    if c.len() == 0 || c[0] == '#' {
        return None;
    }
    let (k, v) = match split_once(s.as_str(), '=') {
        Some(x) => x,
        None => {
            return None;
        },
    };
    let key = trim(k.as_str());
    let value = unquote(trim(v.as_str()).as_str());
    if !starts_with(key.as_str(), "OMO_") || contains_char(key.as_str(), '\0') || contains_char(
        value.as_str(),
        '\0',
    ) {
        return None;
    }
    Some((key, value))
}

/// What becomes of a line of a `.env` file.
#[derive(Debug, PartialEq, Eq)]
pub enum DotenvLine {
    /// The line assigns nothing.
    Skip,
    /// The line assigns a setting that the file cannot supply.
    Denied(String),
    /// The setting is taken over where the environment does not have it.
    Import(String, String),
}

/// What becomes of a line of a `.env` file.
pub fn dotenv_line(line: &str) -> (r: DotenvLine)
    ensures
        match assignment(line@) {
            None => r is Skip,
            Some((k, v)) => if is_denied(k) {
                r matches DotenvLine::Denied(x) && x@ == k
            } else {
                r matches DotenvLine::Import(x, y) && x@ == k && y@ == v
            },
        },
        r is Import <==> supplied(line@) is Some,
{
    match parse_dotenv_assignment(line) {
        None => DotenvLine::Skip,
        Some((k, v)) => if dotenv_key_is_importable(k.as_str()) {
            DotenvLine::Import(k, v)
        } else {
            DotenvLine::Denied(k)
        },
    }
}

/// The setting that a line supplies, if it supplies one.
pub open spec fn supplied(line: Seq<char>) -> Option<(Seq<char>, Seq<char>)> {
    match assignment(line) {
        Some((k, v)) => if is_denied(k) {
            None
        } else {
            Some((k, v))
        },
        None => None,
    }
}

/// A `.env` file cannot supply a setting that decides on authentication, commands or
/// scopes, nor one that is not the bridge's own.
pub proof fn lemma_supplied_is_harmless(line: Seq<char>)
    ensures
        supplied(line) matches Some((key, value)) ==> {
            &&& !is_denied(key)
            &&& has_prefix(key, "OMO_"@)
            &&& !key.contains('\0')
            &&& !value.contains('\0')
        },
{
}

} // verus!
