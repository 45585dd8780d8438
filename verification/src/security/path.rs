//! The rules on path names inside a workspace.
use crate::error::{BridgeError, ErrorKind, Fault};
use crate::paths::{absolute, components, components_of, is_absolute, is_within,
    lemma_components_are_parts, lemma_components_of_joined, within};
use crate::text::{ascii_lower, ends_with, has_prefix, has_suffix, join, joined, same_text,
    starts_with, texts, to_ascii_lower};
use vstd::prelude::*;

verus! {

/// The rules on path names inside a workspace.
pub struct PathPolicy;

/// The names that may begin with a full stop.
pub open spec fn is_allowed_dot_name(name: Seq<char>) -> bool {
    ||| name == ".omo"@
    ||| name == ".github"@
    ||| name == ".vscode"@
    ||| name == ".cargo"@
    ||| name == ".gitignore"@
    ||| name == ".gitattributes"@
    ||| name == ".env.example"@
    ||| name == ".editorconfig"@
    ||| name == ".dockerignore"@
    ||| name == ".prettierrc"@
    ||| name == ".eslintrc"@
    ||| name == ".biome"@
    ||| name == ".biomerc"@
}

/// The names of files that hold keys, credentials or version-control data, in
/// whatever case they are written.
pub open spec fn is_secret_name(name: Seq<char>) -> bool {
    let lower = ascii_lower(name);
    ||| lower == ".git"@
    ||| lower == ".ssh"@
    ||| lower == ".aws"@
    ||| lower == ".gnupg"@
    ||| lower == ".env"@
    ||| has_prefix(lower, ".env."@) && lower != ".env.example"@
    ||| lower == "id_rsa"@
    ||| lower == "id_ed25519"@
    ||| lower == "id_ecdsa"@
    ||| lower == "id_dsa"@
    ||| has_suffix(lower, ".pem"@)
    ||| has_suffix(lower, ".key"@)
    ||| has_suffix(lower, ".pfx"@)
    ||| has_suffix(lower, ".p12"@)
    ||| lower == ".npmrc"@
    ||| lower == ".netrc"@
    ||| lower == ".htpasswd"@
    ||| lower == "auth.json"@
    ||| lower == "tokens.json"@
    ||| lower == "credentials.json"@
    ||| lower == "secrets.json"@
    ||| lower == "token.json"@
    ||| lower == "secret.json"@
}

/// Why a name is denied, if it is; `suffix` stands at the end of the message.
pub open spec fn name_denial(name: Seq<char>, suffix: Seq<char>) -> Option<Seq<char>> {
    if has_prefix(name, "."@) && !is_allowed_dot_name(name) {
        Some("Hidden/dotfile access denied: "@ + name + suffix)
    } else if is_secret_name(name) {
        Some("Secret key file access denied: "@ + name + suffix)
    } else {
        None
    }
}

/// Why a component of a path is denied, if it is.
pub open spec fn component_denial(name: Seq<char>) -> Option<Seq<char>> {
    if name == ".."@ {
        Some("Path traversal (..) is forbidden"@)
    } else {
        name_denial(name, Seq::empty())
    }
}

/// The first denial among some components.
pub open spec fn first_denial(parts: Seq<Seq<char>>) -> Option<Seq<char>>
    decreases parts.len(),
{
    if parts.len() == 0 {
        None
    } else {
        match component_denial(parts[0]) {
            Some(m) => Some(m),
            None => first_denial(parts.drop_first()),
        }
    }
}

/// The first denial among the components of a resolved target.
pub open spec fn first_resolved_denial(parts: Seq<Seq<char>>) -> Option<Seq<char>>
    decreases parts.len(),
{
    if parts.len() == 0 {
        None
    } else if parts[0] != ".."@ && name_denial(parts[0], " (resolved target)"@) is Some {
        name_denial(parts[0], " (resolved target)"@)
    } else {
        first_resolved_denial(parts.drop_first())
    }
}

/// Why a relative path is denied: an absolute path first, then the first denied
/// component, then a path without components.
pub open spec fn sanitize_fault(input: Seq<char>) -> Option<Fault> {
    if is_absolute(input) {
        Some(Fault { kind: ErrorKind::Security, detail: "Absolute paths are forbidden"@ })
    } else if first_denial(components(input)) is Some {
        Some(Fault { kind: ErrorKind::Security, detail: first_denial(components(input))->0 })
    } else if components(input).len() == 0 {
        Some(Fault { kind: ErrorKind::Path, detail: "Path cannot be empty"@ })
    } else {
        None
    }
}

/// A relative path that the rules accept, in its normal form.
pub open spec fn sanitized(input: Seq<char>) -> Option<Seq<char>> {
    if sanitize_fault(input) is None {
        Some(joined(components(input), "/"@))
    } else {
        None
    }
}

impl PathPolicy {
    /// Whether a name that begins with a full stop is permitted.
    pub fn is_allowed_dot_component(name: &str) -> (r: bool)
        ensures
            r == is_allowed_dot_name(name@),
    {
        same_text(name, ".omo") || same_text(name, ".github") || same_text(name, ".vscode")
            || same_text(name, ".cargo") || same_text(name, ".gitignore") || same_text(
            name,
            ".gitattributes",
        ) || same_text(name, ".env.example") || same_text(name, ".editorconfig") || same_text(
            name,
            ".dockerignore",
        ) || same_text(name, ".prettierrc") || same_text(name, ".eslintrc") || same_text(
            name,
            ".biome",
        ) || same_text(name, ".biomerc")
    }

    /// Whether a name is that of a file that holds secrets.
    pub fn is_secret_component(name: &str) -> (r: bool)
        ensures
            r == is_secret_name(name@),
    {
        let lowered = to_ascii_lower(name);
        let lower: &str = lowered.as_str();
        if same_text(lower, ".git") || same_text(lower, ".ssh") || same_text(lower, ".aws")
            || same_text(lower, ".gnupg") || same_text(lower, ".env") || (starts_with(
            lower,
            ".env.",
        ) && !same_text(lower, ".env.example")) || same_text(lower, "id_rsa") || same_text(
            lower,
            "id_ed25519",
        ) || same_text(lower, "id_ecdsa") || same_text(lower, "id_dsa") || ends_with(lower, ".pem")
            || ends_with(lower, ".key") || ends_with(lower, ".pfx") || ends_with(lower, ".p12")
            || same_text(lower, ".npmrc") || same_text(lower, ".netrc") || same_text(
            lower,
            ".htpasswd",
        ) {
            return true;
        }
        same_text(lower, "auth.json") || same_text(lower, "tokens.json") || same_text(
            lower,
            "credentials.json",
        ) || same_text(lower, "secrets.json") || same_text(lower, "token.json") || same_text(
            lower,
            "secret.json",
        )
    }

    /// The normal form of a relative path, or why it is denied.
    pub fn sanitize_relative_path(input: &str) -> (r: Result<String, BridgeError>)
        ensures
            match r {
                Ok(p) => sanitized(input@) == Some(p@),
                Err(e) => sanitize_fault(input@) == Some(e@),
            },
    {
        if absolute(input) {
            return Err(BridgeError::Security("Absolute paths are forbidden".to_owned()));
        }
        let parts = components_of(input);
        let ghost all = texts(parts@);
        let mut i: usize = 0;
        assert(all.subrange(0, all.len() as int) =~= all);
        while i < parts.len()
            invariant
                i <= parts@.len(),
                all == texts(parts@),
                all == components(input@),
                !is_absolute(input@),
                first_denial(all) == first_denial(all.subrange(i as int, all.len() as int)),
            decreases parts@.len() - i,
        {
            let name: &str = parts[i].as_str();
            let ghost rest = all.subrange(i as int, all.len() as int);
            assert(rest[0] == name@);
            if same_text(name, "..") {
                return Err(BridgeError::Security("Path traversal (..) is forbidden".to_owned()));
            }
            if starts_with(name, ".") && !Self::is_allowed_dot_component(name) {
                let m = "Hidden/dotfile access denied: ".to_owned().concat(name);
                assert(m@ + Seq::<char>::empty() =~= m@);
                return Err(BridgeError::Security(m));
            }
            if Self::is_secret_component(name) {
                let m = "Secret key file access denied: ".to_owned().concat(name);
                assert(m@ + Seq::<char>::empty() =~= m@);
                return Err(BridgeError::Security(m));
            }
            assert(rest.drop_first() =~= all.subrange(i + 1, all.len() as int));
            i += 1;
        }
        if parts.len() == 0 {
            assert(all.len() == 0);
            return Err(BridgeError::Path("Path cannot be empty".to_owned()));
        }
        assert(all.len() == parts@.len());
        Ok(join(&parts, "/"))
    }

    /// Applies the rules on names to what a path resolves to: `resolved` is the real
    /// path of the target, or nothing where there is none yet, and `root` the real
    /// path of the workspace.
    pub fn ensure_resolved_target_allowed(root: &str, resolved: Option<&str>) -> (r: Result<
        (),
        BridgeError,
    >)
        ensures
            match r {
                Ok(_) => resolved is None || (is_within(resolved->0@, root@)
                    && first_resolved_denial(inside_parts(resolved->0@, root@)) is None),
                Err(BridgeError::Security(m)) => resolved is Some && if !is_within(
                    resolved->0@,
                    root@,
                ) {
                    m@ == "Resolved path escapes workspace through a symlink: "@ + resolved->0@
                } else {
                    first_resolved_denial(inside_parts(resolved->0@, root@)) == Some(m@)
                },
                Err(_) => false,
            },
    {
        let path = match resolved {
            None => {
                return Ok(());
            },
            Some(p) => p,
        };
        if !within(path, root) {
            return Err(
                BridgeError::Security(
                    "Resolved path escapes workspace through a symlink: ".to_owned().concat(path),
                ),
            );
        }
        let parts = components_of(path);
        let base = components_of(root);
        let ghost all = texts(parts@);
        let ghost inside = inside_parts(path@, root@);
        assert(texts(base@).len() == base@.len());
        assert(all.len() == parts@.len());
        let mut i: usize = base.len();
        assert(inside.subrange(0, inside.len() as int) =~= inside);
        while i < parts.len()
            invariant
                base@.len() <= i <= parts@.len(),
                all == texts(parts@),
                all == components(path@),
                base@.len() == components(root@).len(),
                is_within(path@, root@),
                resolved is Some,
                resolved->0@ == path@,
                inside == inside_parts(path@, root@),
                first_resolved_denial(inside) == first_resolved_denial(
                    inside.subrange(i - base@.len(), inside.len() as int),
                ),
            decreases parts@.len() - i,
        {
            let name: &str = parts[i].as_str();
            let ghost rest = inside.subrange(i - base@.len(), inside.len() as int);
            assert(rest[0] == all[i as int]);
            if !same_text(name, "..") {
                if starts_with(name, ".") && !Self::is_allowed_dot_component(name) {
                    return Err(
                        BridgeError::Security(
                            "Hidden/dotfile access denied: ".to_owned().concat(name).concat(
                                " (resolved target)",
                            ),
                        ),
                    );
                }
                if Self::is_secret_component(name) {
                    return Err(
                        BridgeError::Security(
                            "Secret key file access denied: ".to_owned().concat(name).concat(
                                " (resolved target)",
                            ),
                        ),
                    );
                }
            }
            assert(rest.drop_first() =~= inside.subrange(i + 1 - base@.len(), inside.len() as int));
            i += 1;
        }
        Ok(())
    }
}

/// The components of `path` below `base`.
pub open spec fn inside_parts(path: Seq<char>, base: Seq<char>) -> Seq<Seq<char>> {
    components(path).subrange(components(base).len() as int, components(path).len() as int)
}

proof fn lemma_no_denial(parts: Seq<Seq<char>>)
    requires
        first_denial(parts) is None,
    ensures
        forall|i: int| 0 <= i < parts.len() ==> component_denial(#[trigger] parts[i]) is None,
    decreases parts.len(),
{
    if parts.len() > 0 {
        lemma_no_denial(parts.drop_first());
        assert forall|i: int| 0 <= i < parts.len() implies component_denial(
            #[trigger] parts[i],
        ) is None by {
            if i > 0 {
                assert(parts.drop_first()[i - 1] == parts[i]);
            }
        }
    }
}

/// No component of a sanitized path climbs to a parent, names a secret file, or begins
/// with a full stop without being permitted, and the path is relative.
pub proof fn lemma_sanitized_is_safe(input: Seq<char>)
    requires
        sanitized(input) is Some,
    ensures
        !is_absolute(sanitized(input)->0),
        forall|i: int|
            0 <= i < components(sanitized(input)->0).len() ==> {
                let c = #[trigger] components(sanitized(input)->0)[i];
                &&& c != ".."@
                &&& !is_secret_name(c)
                &&& has_prefix(c, "."@) ==> is_allowed_dot_name(c)
            },
{
    let parts = components(input);
    lemma_components_are_parts(input);
    reveal_strlit("/");
    assert("/"@ =~= seq!['/']);
    lemma_components_of_joined(parts);
    lemma_no_denial(parts);
    lemma_joined_starts_with_first(parts);
    assert(parts[0].len() > 0 && !parts[0].contains('/'));
    assert(parts[0][0] != '/');
}

proof fn lemma_joined_starts_with_first(parts: Seq<Seq<char>>)
    requires
        parts.len() > 0,
        parts[0].len() > 0,
    ensures
        joined(parts, seq!['/']).len() > 0,
        joined(parts, seq!['/'])[0] == parts[0][0],
    decreases parts.len(),
{
    if parts.len() > 1 {
        lemma_joined_starts_with_first(parts.drop_last());
    }
}

/// Sanitizing a sanitized path changes nothing.
pub proof fn lemma_sanitize_idempotent(input: Seq<char>)
    requires
        sanitized(input) is Some,
    ensures
        sanitized(sanitized(input)->0) == sanitized(input),
{
    let parts = components(input);
    lemma_components_are_parts(input);
    reveal_strlit("/");
    assert("/"@ =~= seq!['/']);
    lemma_components_of_joined(parts);
    lemma_sanitized_is_safe(input);
}

} // verus!
