//! What holds of places: which paths, workspaces, scopes and accounts are accepted.
use crate::account_state::is_account_id;
use crate::accounts::{cooldown_fault, endpoint_check, file_fault, legacy_fault, limits_fault,
    normalized, profile_check, resolved_limits, routing_fault, AccountLimits, AccountsFile,
    ConfigChecks, CooldownConfig, LegacyAccountConfig, PartialAccountLimits, ProfileFacts,
    RoutingConfig};
use crate::laws::texts::lemma_ends_of_a_text;
use crate::outside::{is_loopback_host, is_uuid, parsed_url};
use crate::paths::{absolute_path, components, is_absolute, is_within, joined_path,
    lemma_components_are_parts, lemma_components_of_joined};
use crate::security::path::{component_denial, first_denial, is_secret_name, sanitized};
use crate::security::workspace::{binding_fault, bridge_base, escape_fault, json_stem, new_scope,
    open_fault, place_fault, resolution_fault, scope_id_fault, set_value, state_fault, BindingModel,
    PathState, ResolvedPath, ScopeModel, WorkspaceMux};
use crate::text::{ascii_lower, has_prefix, has_suffix, trimmed};
use vstd::prelude::*;

verus! {

proof fn lemma_lowered_ends(s: Seq<char>, p: Seq<char>)
    requires
        ascii_lower(p) == p,
        has_suffix(s, p),
    ensures
        has_suffix(ascii_lower(s), p),
{
    let n = s.len() as int;
    let l = ascii_lower(s);
    assert(l.subrange(n - p.len(), n) =~= ascii_lower(s.subrange(n - p.len(), n)));
}

/// Files of keys are denied under whatever name stands before their ending.
pub proof fn lemma_key_files_are_denied(name: Seq<char>)
    requires
        has_suffix(name, ".pem"@) || has_suffix(name, ".key"@) || has_suffix(name, ".pfx"@)
            || has_suffix(name, ".p12"@),
    ensures
        component_denial(name) is Some,
{
    reveal_strlit(".pem");
    reveal_strlit(".key");
    reveal_strlit(".pfx");
    reveal_strlit(".p12");
    assert(ascii_lower(".pem"@) =~= ".pem"@);
    assert(ascii_lower(".key"@) =~= ".key"@);
    assert(ascii_lower(".pfx"@) =~= ".pfx"@);
    assert(ascii_lower(".p12"@) =~= ".p12"@);
    if has_suffix(name, ".pem"@) {
        lemma_lowered_ends(name, ".pem"@);
    } else if has_suffix(name, ".key"@) {
        lemma_lowered_ends(name, ".key"@);
    } else if has_suffix(name, ".pfx"@) {
        lemma_lowered_ends(name, ".pfx"@);
    } else {
        lemma_lowered_ends(name, ".p12"@);
    }
}

/// Names of credentials are denied in whatever letters they are written.
pub proof fn lemma_credentials_are_denied(name: Seq<char>)
    requires
        ascii_lower(name) == ".git"@
            || ascii_lower(name) == ".ssh"@
            || ascii_lower(name) == ".aws"@
            || ascii_lower(name) == ".gnupg"@
            || ascii_lower(name) == ".env"@
            || ascii_lower(name) == "id_rsa"@
            || ascii_lower(name) == "id_ed25519"@
            || ascii_lower(name) == "id_ecdsa"@
            || ascii_lower(name) == "id_dsa"@
            || ascii_lower(name) == ".npmrc"@
            || ascii_lower(name) == ".netrc"@
            || ascii_lower(name) == ".htpasswd"@
            || ascii_lower(name) == "auth.json"@
            || ascii_lower(name) == "tokens.json"@
            || ascii_lower(name) == "credentials.json"@
            || ascii_lower(name) == "secrets.json"@
            || ascii_lower(name) == "token.json"@
            || ascii_lower(name) == "secret.json"@,
    ensures
        is_secret_name(name),
        component_denial(name) is Some,
{
}

/// A name that begins with a full stop is denied unless it is one of the few that are let through, and
/// so is the way to a parent directory; any other name is denied only where it is a secret one.
pub proof fn lemma_hidden_names_are_denied(name: Seq<char>)
    ensures
        component_denial(".."@) == Some("Path traversal (..) is forbidden"@),
        (has_prefix(name, "."@) && name != ".omo"@ && name != ".github"@ && name != ".vscode"@ && name != ".cargo"@ && name != ".gitignore"@ && name != ".gitattributes"@ && name != ".env.example"@ && name != ".editorconfig"@ && name != ".dockerignore"@ && name != ".prettierrc"@ && name != ".eslintrc"@ && name != ".biome"@ && name != ".biomerc"@) ==> component_denial(name) is Some,
        (!has_prefix(name, "."@) && !is_secret_name(name)) ==> component_denial(name) is None,
{
    reveal_strlit("..");
    reveal_strlit(".");
    if name == ".."@ {
        assert(name.subrange(0, 1) =~= "."@);
    }
}

proof fn lemma_lowered(name: Seq<char>)
    requires
        forall|i: int| 0 <= i < name.len() ==> crate::text::lower_char(#[trigger] name[i]) == name[i],
    ensures
        ascii_lower(name) == name,
{
    assert(ascii_lower(name) =~= name);
}

/// The names with a full stop in front that a project shares are let through.
pub proof fn lemma_shared_names_are_let_through()
    ensures
        component_denial(".omo"@) is None,
        component_denial(".github"@) is None,
        component_denial(".vscode"@) is None,
        component_denial(".cargo"@) is None,
        component_denial(".gitignore"@) is None,
        component_denial(".gitattributes"@) is None,
        component_denial(".env.example"@) is None,
        component_denial(".editorconfig"@) is None,
        component_denial(".dockerignore"@) is None,
        component_denial(".prettierrc"@) is None,
        component_denial(".eslintrc"@) is None,
        component_denial(".biome"@) is None,
        component_denial(".biomerc"@) is None,
{
    lemma_omo_is_let_through();
    lemma_github_is_let_through();
    lemma_vscode_is_let_through();
    lemma_cargo_is_let_through();
    lemma_gitignore_is_let_through();
    lemma_gitattributes_is_let_through();
    lemma_env_example_is_let_through();
    lemma_editorconfig_is_let_through();
    lemma_dockerignore_is_let_through();
    lemma_prettierrc_is_let_through();
    lemma_eslintrc_is_let_through();
    lemma_biome_is_let_through();
    lemma_biomerc_is_let_through();
}

proof fn lemma_omo_is_let_through()
    ensures
        component_denial(".omo"@) is None,
{
    reveal_strlit(".omo");
    reveal_strlit("..");
    reveal_strlit(".git");
    reveal_strlit(".ssh");
    reveal_strlit(".aws");
    reveal_strlit(".gnupg");
    reveal_strlit(".env");
    reveal_strlit("id_rsa");
    reveal_strlit("id_ed25519");
    reveal_strlit("id_ecdsa");
    reveal_strlit("id_dsa");
    reveal_strlit(".npmrc");
    reveal_strlit(".netrc");
    reveal_strlit(".htpasswd");
    reveal_strlit("auth.json");
    reveal_strlit("tokens.json");
    reveal_strlit("credentials.json");
    reveal_strlit("secrets.json");
    reveal_strlit("token.json");
    reveal_strlit("secret.json");
    reveal_strlit(".env.");
    reveal_strlit(".pem");
    reveal_strlit(".key");
    reveal_strlit(".pfx");
    reveal_strlit(".p12");
    reveal_strlit(".");
    let name = ".omo"@;
    lemma_lowered(name);
    assert(name.len() != ".."@.len());
    assert(name[1] != ".git"@[1]);
    assert(name[1] != ".ssh"@[1]);
    assert(name[1] != ".aws"@[1]);
    assert(name.len() != ".gnupg"@.len());
    assert(name[1] != ".env"@[1]);
    assert(name.len() != "id_rsa"@.len());
    assert(name.len() != "id_ed25519"@.len());
    assert(name.len() != "id_ecdsa"@.len());
    assert(name.len() != "id_dsa"@.len());
    assert(name.len() != ".npmrc"@.len());
    assert(name.len() != ".netrc"@.len());
    assert(name.len() != ".htpasswd"@.len());
    assert(name.len() != "auth.json"@.len());
    assert(name.len() != "tokens.json"@.len());
    assert(name.len() != "credentials.json"@.len());
    assert(name.len() != "secrets.json"@.len());
    assert(name.len() != "token.json"@.len());
    assert(name.len() != "secret.json"@.len());
    if has_suffix(name, ".pem"@) {
        assert(name.subrange(0, 4)[1] == name[1]);
    }
    if has_suffix(name, ".key"@) {
        assert(name.subrange(0, 4)[1] == name[1]);
    }
    if has_suffix(name, ".pfx"@) {
        assert(name.subrange(0, 4)[1] == name[1]);
    }
    if has_suffix(name, ".p12"@) {
        assert(name.subrange(0, 4)[1] == name[1]);
    }
}

proof fn lemma_github_is_let_through()
    ensures
        component_denial(".github"@) is None,
{
    reveal_strlit(".github");
    reveal_strlit("..");
    reveal_strlit(".git");
    reveal_strlit(".ssh");
    reveal_strlit(".aws");
    reveal_strlit(".gnupg");
    reveal_strlit(".env");
    reveal_strlit("id_rsa");
    reveal_strlit("id_ed25519");
    reveal_strlit("id_ecdsa");
    reveal_strlit("id_dsa");
    reveal_strlit(".npmrc");
    reveal_strlit(".netrc");
    reveal_strlit(".htpasswd");
    reveal_strlit("auth.json");
    reveal_strlit("tokens.json");
    reveal_strlit("credentials.json");
    reveal_strlit("secrets.json");
    reveal_strlit("token.json");
    reveal_strlit("secret.json");
    reveal_strlit(".env.");
    reveal_strlit(".pem");
    reveal_strlit(".key");
    reveal_strlit(".pfx");
    reveal_strlit(".p12");
    reveal_strlit(".");
    let name = ".github"@;
    lemma_lowered(name);
    assert(name.len() != ".."@.len());
    assert(name.len() != ".git"@.len());
    assert(name.len() != ".ssh"@.len());
    assert(name.len() != ".aws"@.len());
    assert(name.len() != ".gnupg"@.len());
    assert(name.len() != ".env"@.len());
    assert(name.len() != "id_rsa"@.len());
    assert(name.len() != "id_ed25519"@.len());
    assert(name.len() != "id_ecdsa"@.len());
    assert(name.len() != "id_dsa"@.len());
    assert(name.len() != ".npmrc"@.len());
    assert(name.len() != ".netrc"@.len());
    assert(name.len() != ".htpasswd"@.len());
    assert(name.len() != "auth.json"@.len());
    assert(name.len() != "tokens.json"@.len());
    assert(name.len() != "credentials.json"@.len());
    assert(name.len() != "secrets.json"@.len());
    assert(name.len() != "token.json"@.len());
    assert(name.len() != "secret.json"@.len());
    if has_prefix(name, ".env."@) {
        assert(name.subrange(0, 5)[1] == name[1]);
    }
    if has_suffix(name, ".pem"@) {
        assert(name.subrange(3, 7)[0] == name[3]);
    }
    if has_suffix(name, ".key"@) {
        assert(name.subrange(3, 7)[0] == name[3]);
    }
    if has_suffix(name, ".pfx"@) {
        assert(name.subrange(3, 7)[0] == name[3]);
    }
    if has_suffix(name, ".p12"@) {
        assert(name.subrange(3, 7)[0] == name[3]);
    }
}

proof fn lemma_vscode_is_let_through()
    ensures
        component_denial(".vscode"@) is None,
{
    reveal_strlit(".vscode");
    reveal_strlit("..");
    reveal_strlit(".git");
    reveal_strlit(".ssh");
    reveal_strlit(".aws");
    reveal_strlit(".gnupg");
    reveal_strlit(".env");
    reveal_strlit("id_rsa");
    reveal_strlit("id_ed25519");
    reveal_strlit("id_ecdsa");
    reveal_strlit("id_dsa");
    reveal_strlit(".npmrc");
    reveal_strlit(".netrc");
    reveal_strlit(".htpasswd");
    reveal_strlit("auth.json");
    reveal_strlit("tokens.json");
    reveal_strlit("credentials.json");
    reveal_strlit("secrets.json");
    reveal_strlit("token.json");
    reveal_strlit("secret.json");
    reveal_strlit(".env.");
    reveal_strlit(".pem");
    reveal_strlit(".key");
    reveal_strlit(".pfx");
    reveal_strlit(".p12");
    reveal_strlit(".");
    let name = ".vscode"@;
    lemma_lowered(name);
    assert(name.len() != ".."@.len());
    assert(name.len() != ".git"@.len());
    assert(name.len() != ".ssh"@.len());
    assert(name.len() != ".aws"@.len());
    assert(name.len() != ".gnupg"@.len());
    assert(name.len() != ".env"@.len());
    assert(name.len() != "id_rsa"@.len());
    assert(name.len() != "id_ed25519"@.len());
    assert(name.len() != "id_ecdsa"@.len());
    assert(name.len() != "id_dsa"@.len());
    assert(name.len() != ".npmrc"@.len());
    assert(name.len() != ".netrc"@.len());
    assert(name.len() != ".htpasswd"@.len());
    assert(name.len() != "auth.json"@.len());
    assert(name.len() != "tokens.json"@.len());
    assert(name.len() != "credentials.json"@.len());
    assert(name.len() != "secrets.json"@.len());
    assert(name.len() != "token.json"@.len());
    assert(name.len() != "secret.json"@.len());
    if has_prefix(name, ".env."@) {
        assert(name.subrange(0, 5)[1] == name[1]);
    }
    if has_suffix(name, ".pem"@) {
        assert(name.subrange(3, 7)[0] == name[3]);
    }
    if has_suffix(name, ".key"@) {
        assert(name.subrange(3, 7)[0] == name[3]);
    }
    if has_suffix(name, ".pfx"@) {
        assert(name.subrange(3, 7)[0] == name[3]);
    }
    if has_suffix(name, ".p12"@) {
        assert(name.subrange(3, 7)[0] == name[3]);
    }
}

proof fn lemma_cargo_is_let_through()
    ensures
        component_denial(".cargo"@) is None,
{
    reveal_strlit(".cargo");
    reveal_strlit("..");
    reveal_strlit(".git");
    reveal_strlit(".ssh");
    reveal_strlit(".aws");
    reveal_strlit(".gnupg");
    reveal_strlit(".env");
    reveal_strlit("id_rsa");
    reveal_strlit("id_ed25519");
    reveal_strlit("id_ecdsa");
    reveal_strlit("id_dsa");
    reveal_strlit(".npmrc");
    reveal_strlit(".netrc");
    reveal_strlit(".htpasswd");
    reveal_strlit("auth.json");
    reveal_strlit("tokens.json");
    reveal_strlit("credentials.json");
    reveal_strlit("secrets.json");
    reveal_strlit("token.json");
    reveal_strlit("secret.json");
    reveal_strlit(".env.");
    reveal_strlit(".pem");
    reveal_strlit(".key");
    reveal_strlit(".pfx");
    reveal_strlit(".p12");
    reveal_strlit(".");
    let name = ".cargo"@;
    lemma_lowered(name);
    assert(name.len() != ".."@.len());
    assert(name.len() != ".git"@.len());
    assert(name.len() != ".ssh"@.len());
    assert(name.len() != ".aws"@.len());
    assert(name[1] != ".gnupg"@[1]);
    assert(name.len() != ".env"@.len());
    assert(name[0] != "id_rsa"@[0]);
    assert(name.len() != "id_ed25519"@.len());
    assert(name.len() != "id_ecdsa"@.len());
    assert(name[0] != "id_dsa"@[0]);
    assert(name[1] != ".npmrc"@[1]);
    assert(name[1] != ".netrc"@[1]);
    assert(name.len() != ".htpasswd"@.len());
    assert(name.len() != "auth.json"@.len());
    assert(name.len() != "tokens.json"@.len());
    assert(name.len() != "credentials.json"@.len());
    assert(name.len() != "secrets.json"@.len());
    assert(name.len() != "token.json"@.len());
    assert(name.len() != "secret.json"@.len());
    if has_prefix(name, ".env."@) {
        assert(name.subrange(0, 5)[1] == name[1]);
    }
    if has_suffix(name, ".pem"@) {
        assert(name.subrange(2, 6)[0] == name[2]);
    }
    if has_suffix(name, ".key"@) {
        assert(name.subrange(2, 6)[0] == name[2]);
    }
    if has_suffix(name, ".pfx"@) {
        assert(name.subrange(2, 6)[0] == name[2]);
    }
    if has_suffix(name, ".p12"@) {
        assert(name.subrange(2, 6)[0] == name[2]);
    }
}

proof fn lemma_gitignore_is_let_through()
    ensures
        component_denial(".gitignore"@) is None,
{
    reveal_strlit(".gitignore");
    reveal_strlit("..");
    reveal_strlit(".git");
    reveal_strlit(".ssh");
    reveal_strlit(".aws");
    reveal_strlit(".gnupg");
    reveal_strlit(".env");
    reveal_strlit("id_rsa");
    reveal_strlit("id_ed25519");
    reveal_strlit("id_ecdsa");
    reveal_strlit("id_dsa");
    reveal_strlit(".npmrc");
    reveal_strlit(".netrc");
    reveal_strlit(".htpasswd");
    reveal_strlit("auth.json");
    reveal_strlit("tokens.json");
    reveal_strlit("credentials.json");
    reveal_strlit("secrets.json");
    reveal_strlit("token.json");
    reveal_strlit("secret.json");
    reveal_strlit(".env.");
    reveal_strlit(".pem");
    reveal_strlit(".key");
    reveal_strlit(".pfx");
    reveal_strlit(".p12");
    reveal_strlit(".");
    let name = ".gitignore"@;
    lemma_lowered(name);
    assert(name.len() != ".."@.len());
    assert(name.len() != ".git"@.len());
    assert(name.len() != ".ssh"@.len());
    assert(name.len() != ".aws"@.len());
    assert(name.len() != ".gnupg"@.len());
    assert(name.len() != ".env"@.len());
    assert(name.len() != "id_rsa"@.len());
    assert(name[0] != "id_ed25519"@[0]);
    assert(name.len() != "id_ecdsa"@.len());
    assert(name.len() != "id_dsa"@.len());
    assert(name.len() != ".npmrc"@.len());
    assert(name.len() != ".netrc"@.len());
    assert(name.len() != ".htpasswd"@.len());
    assert(name.len() != "auth.json"@.len());
    assert(name.len() != "tokens.json"@.len());
    assert(name.len() != "credentials.json"@.len());
    assert(name.len() != "secrets.json"@.len());
    assert(name[0] != "token.json"@[0]);
    assert(name.len() != "secret.json"@.len());
    if has_prefix(name, ".env."@) {
        assert(name.subrange(0, 5)[1] == name[1]);
    }
    if has_suffix(name, ".pem"@) {
        assert(name.subrange(6, 10)[0] == name[6]);
    }
    if has_suffix(name, ".key"@) {
        assert(name.subrange(6, 10)[0] == name[6]);
    }
    if has_suffix(name, ".pfx"@) {
        assert(name.subrange(6, 10)[0] == name[6]);
    }
    if has_suffix(name, ".p12"@) {
        assert(name.subrange(6, 10)[0] == name[6]);
    }
}

proof fn lemma_gitattributes_is_let_through()
    ensures
        component_denial(".gitattributes"@) is None,
{
    reveal_strlit(".gitattributes");
    reveal_strlit("..");
    reveal_strlit(".git");
    reveal_strlit(".ssh");
    reveal_strlit(".aws");
    reveal_strlit(".gnupg");
    reveal_strlit(".env");
    reveal_strlit("id_rsa");
    reveal_strlit("id_ed25519");
    reveal_strlit("id_ecdsa");
    reveal_strlit("id_dsa");
    reveal_strlit(".npmrc");
    reveal_strlit(".netrc");
    reveal_strlit(".htpasswd");
    reveal_strlit("auth.json");
    reveal_strlit("tokens.json");
    reveal_strlit("credentials.json");
    reveal_strlit("secrets.json");
    reveal_strlit("token.json");
    reveal_strlit("secret.json");
    reveal_strlit(".env.");
    reveal_strlit(".pem");
    reveal_strlit(".key");
    reveal_strlit(".pfx");
    reveal_strlit(".p12");
    reveal_strlit(".");
    let name = ".gitattributes"@;
    lemma_lowered(name);
    assert(name.len() != ".."@.len());
    assert(name.len() != ".git"@.len());
    assert(name.len() != ".ssh"@.len());
    assert(name.len() != ".aws"@.len());
    assert(name.len() != ".gnupg"@.len());
    assert(name.len() != ".env"@.len());
    assert(name.len() != "id_rsa"@.len());
    assert(name.len() != "id_ed25519"@.len());
    assert(name.len() != "id_ecdsa"@.len());
    assert(name.len() != "id_dsa"@.len());
    assert(name.len() != ".npmrc"@.len());
    assert(name.len() != ".netrc"@.len());
    assert(name.len() != ".htpasswd"@.len());
    assert(name.len() != "auth.json"@.len());
    assert(name.len() != "tokens.json"@.len());
    assert(name.len() != "credentials.json"@.len());
    assert(name.len() != "secrets.json"@.len());
    assert(name.len() != "token.json"@.len());
    assert(name.len() != "secret.json"@.len());
    if has_prefix(name, ".env."@) {
        assert(name.subrange(0, 5)[1] == name[1]);
    }
    if has_suffix(name, ".pem"@) {
        assert(name.subrange(10, 14)[0] == name[10]);
    }
    if has_suffix(name, ".key"@) {
        assert(name.subrange(10, 14)[0] == name[10]);
    }
    if has_suffix(name, ".pfx"@) {
        assert(name.subrange(10, 14)[0] == name[10]);
    }
    if has_suffix(name, ".p12"@) {
        assert(name.subrange(10, 14)[0] == name[10]);
    }
}

proof fn lemma_env_example_is_let_through()
    ensures
        component_denial(".env.example"@) is None,
{
    reveal_strlit(".env.example");
    reveal_strlit("..");
    reveal_strlit(".git");
    reveal_strlit(".ssh");
    reveal_strlit(".aws");
    reveal_strlit(".gnupg");
    reveal_strlit(".env");
    reveal_strlit("id_rsa");
    reveal_strlit("id_ed25519");
    reveal_strlit("id_ecdsa");
    reveal_strlit("id_dsa");
    reveal_strlit(".npmrc");
    reveal_strlit(".netrc");
    reveal_strlit(".htpasswd");
    reveal_strlit("auth.json");
    reveal_strlit("tokens.json");
    reveal_strlit("credentials.json");
    reveal_strlit("secrets.json");
    reveal_strlit("token.json");
    reveal_strlit("secret.json");
    reveal_strlit(".env.");
    reveal_strlit(".pem");
    reveal_strlit(".key");
    reveal_strlit(".pfx");
    reveal_strlit(".p12");
    reveal_strlit(".");
    let name = ".env.example"@;
    lemma_lowered(name);
    assert(name.len() != ".."@.len());
    assert(name.len() != ".git"@.len());
    assert(name.len() != ".ssh"@.len());
    assert(name.len() != ".aws"@.len());
    assert(name.len() != ".gnupg"@.len());
    assert(name.len() != ".env"@.len());
    assert(name.len() != "id_rsa"@.len());
    assert(name.len() != "id_ed25519"@.len());
    assert(name.len() != "id_ecdsa"@.len());
    assert(name.len() != "id_dsa"@.len());
    assert(name.len() != ".npmrc"@.len());
    assert(name.len() != ".netrc"@.len());
    assert(name.len() != ".htpasswd"@.len());
    assert(name.len() != "auth.json"@.len());
    assert(name.len() != "tokens.json"@.len());
    assert(name.len() != "credentials.json"@.len());
    assert(name[0] != "secrets.json"@[0]);
    assert(name.len() != "token.json"@.len());
    assert(name.len() != "secret.json"@.len());
    if has_suffix(name, ".pem"@) {
        assert(name.subrange(8, 12)[0] == name[8]);
    }
    if has_suffix(name, ".key"@) {
        assert(name.subrange(8, 12)[0] == name[8]);
    }
    if has_suffix(name, ".pfx"@) {
        assert(name.subrange(8, 12)[0] == name[8]);
    }
    if has_suffix(name, ".p12"@) {
        assert(name.subrange(8, 12)[0] == name[8]);
    }
}

proof fn lemma_editorconfig_is_let_through()
    ensures
        component_denial(".editorconfig"@) is None,
{
    reveal_strlit(".editorconfig");
    reveal_strlit("..");
    reveal_strlit(".git");
    reveal_strlit(".ssh");
    reveal_strlit(".aws");
    reveal_strlit(".gnupg");
    reveal_strlit(".env");
    reveal_strlit("id_rsa");
    reveal_strlit("id_ed25519");
    reveal_strlit("id_ecdsa");
    reveal_strlit("id_dsa");
    reveal_strlit(".npmrc");
    reveal_strlit(".netrc");
    reveal_strlit(".htpasswd");
    reveal_strlit("auth.json");
    reveal_strlit("tokens.json");
    reveal_strlit("credentials.json");
    reveal_strlit("secrets.json");
    reveal_strlit("token.json");
    reveal_strlit("secret.json");
    reveal_strlit(".env.");
    reveal_strlit(".pem");
    reveal_strlit(".key");
    reveal_strlit(".pfx");
    reveal_strlit(".p12");
    reveal_strlit(".");
    let name = ".editorconfig"@;
    lemma_lowered(name);
    assert(name.len() != ".."@.len());
    assert(name.len() != ".git"@.len());
    assert(name.len() != ".ssh"@.len());
    assert(name.len() != ".aws"@.len());
    assert(name.len() != ".gnupg"@.len());
    assert(name.len() != ".env"@.len());
    assert(name.len() != "id_rsa"@.len());
    assert(name.len() != "id_ed25519"@.len());
    assert(name.len() != "id_ecdsa"@.len());
    assert(name.len() != "id_dsa"@.len());
    assert(name.len() != ".npmrc"@.len());
    assert(name.len() != ".netrc"@.len());
    assert(name.len() != ".htpasswd"@.len());
    assert(name.len() != "auth.json"@.len());
    assert(name.len() != "tokens.json"@.len());
    assert(name.len() != "credentials.json"@.len());
    assert(name.len() != "secrets.json"@.len());
    assert(name.len() != "token.json"@.len());
    assert(name.len() != "secret.json"@.len());
    if has_prefix(name, ".env."@) {
        assert(name.subrange(0, 5)[2] == name[2]);
    }
    if has_suffix(name, ".pem"@) {
        assert(name.subrange(9, 13)[0] == name[9]);
    }
    if has_suffix(name, ".key"@) {
        assert(name.subrange(9, 13)[0] == name[9]);
    }
    if has_suffix(name, ".pfx"@) {
        assert(name.subrange(9, 13)[0] == name[9]);
    }
    if has_suffix(name, ".p12"@) {
        assert(name.subrange(9, 13)[0] == name[9]);
    }
}

proof fn lemma_dockerignore_is_let_through()
    ensures
        component_denial(".dockerignore"@) is None,
{
    reveal_strlit(".dockerignore");
    reveal_strlit("..");
    reveal_strlit(".git");
    reveal_strlit(".ssh");
    reveal_strlit(".aws");
    reveal_strlit(".gnupg");
    reveal_strlit(".env");
    reveal_strlit("id_rsa");
    reveal_strlit("id_ed25519");
    reveal_strlit("id_ecdsa");
    reveal_strlit("id_dsa");
    reveal_strlit(".npmrc");
    reveal_strlit(".netrc");
    reveal_strlit(".htpasswd");
    reveal_strlit("auth.json");
    reveal_strlit("tokens.json");
    reveal_strlit("credentials.json");
    reveal_strlit("secrets.json");
    reveal_strlit("token.json");
    reveal_strlit("secret.json");
    reveal_strlit(".env.");
    reveal_strlit(".pem");
    reveal_strlit(".key");
    reveal_strlit(".pfx");
    reveal_strlit(".p12");
    reveal_strlit(".");
    let name = ".dockerignore"@;
    lemma_lowered(name);
    assert(name.len() != ".."@.len());
    assert(name.len() != ".git"@.len());
    assert(name.len() != ".ssh"@.len());
    assert(name.len() != ".aws"@.len());
    assert(name.len() != ".gnupg"@.len());
    assert(name.len() != ".env"@.len());
    assert(name.len() != "id_rsa"@.len());
    assert(name.len() != "id_ed25519"@.len());
    assert(name.len() != "id_ecdsa"@.len());
    assert(name.len() != "id_dsa"@.len());
    assert(name.len() != ".npmrc"@.len());
    assert(name.len() != ".netrc"@.len());
    assert(name.len() != ".htpasswd"@.len());
    assert(name.len() != "auth.json"@.len());
    assert(name.len() != "tokens.json"@.len());
    assert(name.len() != "credentials.json"@.len());
    assert(name.len() != "secrets.json"@.len());
    assert(name.len() != "token.json"@.len());
    assert(name.len() != "secret.json"@.len());
    if has_prefix(name, ".env."@) {
        assert(name.subrange(0, 5)[1] == name[1]);
    }
    if has_suffix(name, ".pem"@) {
        assert(name.subrange(9, 13)[0] == name[9]);
    }
    if has_suffix(name, ".key"@) {
        assert(name.subrange(9, 13)[0] == name[9]);
    }
    if has_suffix(name, ".pfx"@) {
        assert(name.subrange(9, 13)[0] == name[9]);
    }
    if has_suffix(name, ".p12"@) {
        assert(name.subrange(9, 13)[0] == name[9]);
    }
}

proof fn lemma_prettierrc_is_let_through()
    ensures
        component_denial(".prettierrc"@) is None,
{
    reveal_strlit(".prettierrc");
    reveal_strlit("..");
    reveal_strlit(".git");
    reveal_strlit(".ssh");
    reveal_strlit(".aws");
    reveal_strlit(".gnupg");
    reveal_strlit(".env");
    reveal_strlit("id_rsa");
    reveal_strlit("id_ed25519");
    reveal_strlit("id_ecdsa");
    reveal_strlit("id_dsa");
    reveal_strlit(".npmrc");
    reveal_strlit(".netrc");
    reveal_strlit(".htpasswd");
    reveal_strlit("auth.json");
    reveal_strlit("tokens.json");
    reveal_strlit("credentials.json");
    reveal_strlit("secrets.json");
    reveal_strlit("token.json");
    reveal_strlit("secret.json");
    reveal_strlit(".env.");
    reveal_strlit(".pem");
    reveal_strlit(".key");
    reveal_strlit(".pfx");
    reveal_strlit(".p12");
    reveal_strlit(".");
    let name = ".prettierrc"@;
    lemma_lowered(name);
    assert(name.len() != ".."@.len());
    assert(name.len() != ".git"@.len());
    assert(name.len() != ".ssh"@.len());
    assert(name.len() != ".aws"@.len());
    assert(name.len() != ".gnupg"@.len());
    assert(name.len() != ".env"@.len());
    assert(name.len() != "id_rsa"@.len());
    assert(name.len() != "id_ed25519"@.len());
    assert(name.len() != "id_ecdsa"@.len());
    assert(name.len() != "id_dsa"@.len());
    assert(name.len() != ".npmrc"@.len());
    assert(name.len() != ".netrc"@.len());
    assert(name.len() != ".htpasswd"@.len());
    assert(name.len() != "auth.json"@.len());
    assert(name[0] != "tokens.json"@[0]);
    assert(name.len() != "credentials.json"@.len());
    assert(name.len() != "secrets.json"@.len());
    assert(name.len() != "token.json"@.len());
    assert(name[0] != "secret.json"@[0]);
    if has_prefix(name, ".env."@) {
        assert(name.subrange(0, 5)[1] == name[1]);
    }
    if has_suffix(name, ".pem"@) {
        assert(name.subrange(7, 11)[0] == name[7]);
    }
    if has_suffix(name, ".key"@) {
        assert(name.subrange(7, 11)[0] == name[7]);
    }
    if has_suffix(name, ".pfx"@) {
        assert(name.subrange(7, 11)[0] == name[7]);
    }
    if has_suffix(name, ".p12"@) {
        assert(name.subrange(7, 11)[0] == name[7]);
    }
}

proof fn lemma_eslintrc_is_let_through()
    ensures
        component_denial(".eslintrc"@) is None,
{
    reveal_strlit(".eslintrc");
    reveal_strlit("..");
    reveal_strlit(".git");
    reveal_strlit(".ssh");
    reveal_strlit(".aws");
    reveal_strlit(".gnupg");
    reveal_strlit(".env");
    reveal_strlit("id_rsa");
    reveal_strlit("id_ed25519");
    reveal_strlit("id_ecdsa");
    reveal_strlit("id_dsa");
    reveal_strlit(".npmrc");
    reveal_strlit(".netrc");
    reveal_strlit(".htpasswd");
    reveal_strlit("auth.json");
    reveal_strlit("tokens.json");
    reveal_strlit("credentials.json");
    reveal_strlit("secrets.json");
    reveal_strlit("token.json");
    reveal_strlit("secret.json");
    reveal_strlit(".env.");
    reveal_strlit(".pem");
    reveal_strlit(".key");
    reveal_strlit(".pfx");
    reveal_strlit(".p12");
    reveal_strlit(".");
    let name = ".eslintrc"@;
    lemma_lowered(name);
    assert(name.len() != ".."@.len());
    assert(name.len() != ".git"@.len());
    assert(name.len() != ".ssh"@.len());
    assert(name.len() != ".aws"@.len());
    assert(name.len() != ".gnupg"@.len());
    assert(name.len() != ".env"@.len());
    assert(name.len() != "id_rsa"@.len());
    assert(name.len() != "id_ed25519"@.len());
    assert(name.len() != "id_ecdsa"@.len());
    assert(name.len() != "id_dsa"@.len());
    assert(name.len() != ".npmrc"@.len());
    assert(name.len() != ".netrc"@.len());
    assert(name[1] != ".htpasswd"@[1]);
    assert(name[0] != "auth.json"@[0]);
    assert(name.len() != "tokens.json"@.len());
    assert(name.len() != "credentials.json"@.len());
    assert(name.len() != "secrets.json"@.len());
    assert(name.len() != "token.json"@.len());
    assert(name.len() != "secret.json"@.len());
    if has_prefix(name, ".env."@) {
        assert(name.subrange(0, 5)[2] == name[2]);
    }
    if has_suffix(name, ".pem"@) {
        assert(name.subrange(5, 9)[0] == name[5]);
    }
    if has_suffix(name, ".key"@) {
        assert(name.subrange(5, 9)[0] == name[5]);
    }
    if has_suffix(name, ".pfx"@) {
        assert(name.subrange(5, 9)[0] == name[5]);
    }
    if has_suffix(name, ".p12"@) {
        assert(name.subrange(5, 9)[0] == name[5]);
    }
}

proof fn lemma_biome_is_let_through()
    ensures
        component_denial(".biome"@) is None,
{
    reveal_strlit(".biome");
    reveal_strlit("..");
    reveal_strlit(".git");
    reveal_strlit(".ssh");
    reveal_strlit(".aws");
    reveal_strlit(".gnupg");
    reveal_strlit(".env");
    reveal_strlit("id_rsa");
    reveal_strlit("id_ed25519");
    reveal_strlit("id_ecdsa");
    reveal_strlit("id_dsa");
    reveal_strlit(".npmrc");
    reveal_strlit(".netrc");
    reveal_strlit(".htpasswd");
    reveal_strlit("auth.json");
    reveal_strlit("tokens.json");
    reveal_strlit("credentials.json");
    reveal_strlit("secrets.json");
    reveal_strlit("token.json");
    reveal_strlit("secret.json");
    reveal_strlit(".env.");
    reveal_strlit(".pem");
    reveal_strlit(".key");
    reveal_strlit(".pfx");
    reveal_strlit(".p12");
    reveal_strlit(".");
    let name = ".biome"@;
    lemma_lowered(name);
    assert(name.len() != ".."@.len());
    assert(name.len() != ".git"@.len());
    assert(name.len() != ".ssh"@.len());
    assert(name.len() != ".aws"@.len());
    assert(name[1] != ".gnupg"@[1]);
    assert(name.len() != ".env"@.len());
    assert(name[0] != "id_rsa"@[0]);
    assert(name.len() != "id_ed25519"@.len());
    assert(name.len() != "id_ecdsa"@.len());
    assert(name[0] != "id_dsa"@[0]);
    assert(name[1] != ".npmrc"@[1]);
    assert(name[1] != ".netrc"@[1]);
    assert(name.len() != ".htpasswd"@.len());
    assert(name.len() != "auth.json"@.len());
    assert(name.len() != "tokens.json"@.len());
    assert(name.len() != "credentials.json"@.len());
    assert(name.len() != "secrets.json"@.len());
    assert(name.len() != "token.json"@.len());
    assert(name.len() != "secret.json"@.len());
    if has_prefix(name, ".env."@) {
        assert(name.subrange(0, 5)[1] == name[1]);
    }
    if has_suffix(name, ".pem"@) {
        assert(name.subrange(2, 6)[0] == name[2]);
    }
    if has_suffix(name, ".key"@) {
        assert(name.subrange(2, 6)[0] == name[2]);
    }
    if has_suffix(name, ".pfx"@) {
        assert(name.subrange(2, 6)[0] == name[2]);
    }
    if has_suffix(name, ".p12"@) {
        assert(name.subrange(2, 6)[0] == name[2]);
    }
}

proof fn lemma_biomerc_is_let_through()
    ensures
        component_denial(".biomerc"@) is None,
{
    reveal_strlit(".biomerc");
    reveal_strlit("..");
    reveal_strlit(".git");
    reveal_strlit(".ssh");
    reveal_strlit(".aws");
    reveal_strlit(".gnupg");
    reveal_strlit(".env");
    reveal_strlit("id_rsa");
    reveal_strlit("id_ed25519");
    reveal_strlit("id_ecdsa");
    reveal_strlit("id_dsa");
    reveal_strlit(".npmrc");
    reveal_strlit(".netrc");
    reveal_strlit(".htpasswd");
    reveal_strlit("auth.json");
    reveal_strlit("tokens.json");
    reveal_strlit("credentials.json");
    reveal_strlit("secrets.json");
    reveal_strlit("token.json");
    reveal_strlit("secret.json");
    reveal_strlit(".env.");
    reveal_strlit(".pem");
    reveal_strlit(".key");
    reveal_strlit(".pfx");
    reveal_strlit(".p12");
    reveal_strlit(".");
    let name = ".biomerc"@;
    lemma_lowered(name);
    assert(name.len() != ".."@.len());
    assert(name.len() != ".git"@.len());
    assert(name.len() != ".ssh"@.len());
    assert(name.len() != ".aws"@.len());
    assert(name.len() != ".gnupg"@.len());
    assert(name.len() != ".env"@.len());
    assert(name.len() != "id_rsa"@.len());
    assert(name.len() != "id_ed25519"@.len());
    assert(name[0] != "id_ecdsa"@[0]);
    assert(name.len() != "id_dsa"@.len());
    assert(name.len() != ".npmrc"@.len());
    assert(name.len() != ".netrc"@.len());
    assert(name.len() != ".htpasswd"@.len());
    assert(name.len() != "auth.json"@.len());
    assert(name.len() != "tokens.json"@.len());
    assert(name.len() != "credentials.json"@.len());
    assert(name.len() != "secrets.json"@.len());
    assert(name.len() != "token.json"@.len());
    assert(name.len() != "secret.json"@.len());
    if has_prefix(name, ".env."@) {
        assert(name.subrange(0, 5)[1] == name[1]);
    }
    if has_suffix(name, ".pem"@) {
        assert(name.subrange(4, 8)[0] == name[4]);
    }
    if has_suffix(name, ".key"@) {
        assert(name.subrange(4, 8)[0] == name[4]);
    }
    if has_suffix(name, ".pfx"@) {
        assert(name.subrange(4, 8)[0] == name[4]);
    }
    if has_suffix(name, ".p12"@) {
        assert(name.subrange(4, 8)[0] == name[4]);
    }
}

/// A path that is accepted is the same path, written in its normal form; an absolute path, a path
/// with a denied part and a path without parts are not.
pub proof fn lemma_accepted_path_stays_the_same(input: Seq<char>)
    ensures
        sanitized(input) is Some <==> {
            &&& !is_absolute(input)
            &&& components(input).len() > 0
            &&& forall|i: int|
                0 <= i < components(input).len() ==> component_denial(
                    #[trigger] components(input)[i],
                ) is None
        },
        sanitized(input) matches Some(p) ==> components(p) == components(input),
{
    lemma_first_denial(components(input));
    if sanitized(input) is Some {
        lemma_components_are_parts(input);
        reveal_strlit("/");
        assert("/"@ =~= seq!['/']);
        lemma_components_of_joined(components(input));
    }
}

proof fn lemma_first_denial(parts: Seq<Seq<char>>)
    ensures
        first_denial(parts) is None <==> forall|i: int|
            0 <= i < parts.len() ==> component_denial(#[trigger] parts[i]) is None,
    decreases parts.len(),
{
    if parts.len() > 0 {
        let rest = parts.drop_first();
        lemma_first_denial(rest);
        if first_denial(parts) is None {
            assert forall|i: int| 0 <= i < parts.len() implies component_denial(
                #[trigger] parts[i],
            ) is None by {
                if i > 0 {
                    assert(rest[i - 1] == parts[i]);
                }
            }
        } else if component_denial(parts[0]) is None {
            let i = choose|i: int|
                0 <= i < rest.len() && component_denial(#[trigger] rest[i]) is Some;
            assert(parts[i + 1] == rest[i]);
        } else {
            assert(component_denial(parts[0]) is Some);
        }
    }
}

/// A path opens where its real path, or that of its nearest ancestor that exists, can be had and lies
/// in the workspace; a way out of the workspace is denied.
pub proof fn lemma_paths_stay_in_the_workspace(seen: ResolvedPath, root: Seq<char>)
    ensures
        resolution_fault(seen, root) is None <==> {
            &&& seen.ancestor is Some && seen.ancestor->0 is Ok
            &&& is_within(seen.ancestor->0->Ok_0@, root)
            &&& seen.target matches Some(t) ==> t is Ok && is_within(t->Ok_0@, root)
        },
        escape_fault(root, root) is None,
{
    assert(components(root).subrange(0, components(root).len() as int) =~= components(root));
}

/// A workspace is a directory below the mount root; it is not the root of the file system, does not
/// hold the home directory, and shares nothing with the directories of the bridge.
pub proof fn lemma_workspaces_that_are_accepted(
    mount_root: Seq<char>,
    scope_dir: Seq<char>,
    home: Option<Seq<char>>,
    bridge_dir: Seq<char>,
    root: Seq<char>,
    at: PathState,
)
    ensures
        place_fault(mount_root, scope_dir, home, bridge_dir, root) is None <==> {
            &&& is_within(root, mount_root)
            &&& components(root).len() > 0
            &&& home matches Some(h) ==> !is_within(h, root)
            &&& !is_within(scope_dir, root) && !is_within(root, scope_dir)
            &&& !is_within(bridge_dir, root) && !is_within(root, bridge_dir)
        },
        open_fault(at) is None <==> at is Directory,
{
}

/// A scope is registered under an id that is one, in a workspace that is accepted, and bound to a page
/// only by a binding that is sound.
pub proof fn lemma_scopes_that_are_registered(
    mux: WorkspaceMux,
    scope_id: Seq<char>,
    at: PathState,
    browser: Option<BindingModel>,
)
    ensures
        mux.register_fault(scope_id, at, browser) is None <==> {
            &&& is_uuid(scope_id)
            &&& mux.refusal(at) is None
            &&& browser matches Some(b) ==> is_account_id(b.account_id) && trimmed(b.instance).len() > 0
                && trimmed(b.page_id).len() > 0
        },
        scope_id_fault(scope_id) is None <==> is_uuid(scope_id),
{
}

/// A new scope says what it was registered with, and the page of its binding is its page.
pub proof fn lemma_new_scope_says_what_it_is(
    scope_id: Seq<char>,
    workspace: Seq<char>,
    terminal: Option<Seq<char>>,
    browser: Option<BindingModel>,
    now_ms: u64,
)
    ensures
        ({
            let s = new_scope(scope_id, workspace, terminal, browser, now_ms);
            &&& s.scope_id == scope_id
            &&& s.workspace == workspace
            &&& s.terminal == terminal
            &&& s.browser == browser
            &&& s.created_ms == now_ms
            &&& s.updated_ms == now_ms
            &&& browser matches Some(b) ==> {
                &&& s.page() == Some(b.page_id)
                &&& s.browser_page_id == Some(b.page_id)
                &&& s.account() == b.account_id
                &&& s.instance() == Some(b.instance)
            }
            &&& browser is None ==> {
                &&& s.page() is None
                &&& s.account() == crate::accounts::LEGACY_ACCOUNT_ID@
                &&& s.instance() is None
            }
            &&& s.persisted().browser_page_id is None
            &&& s.persisted().shown() == s
            &&& state_fault(s.persisted(), scope_id) is None <==> (browser matches Some(b)
                ==> binding_fault(b) is None)
        }),
{
}

/// A stored scope is read where it is of a known version and under its own id: an older one without
/// a binding, or a newer one whose page is that of its binding.
pub proof fn lemma_stored_scopes_that_are_read(scope: ScopeModel, scope_id: Seq<char>)
    ensures
        state_fault(scope, scope_id) is None <==> {
            &&& scope.scope_id == scope_id
            &&& scope.version == 1 || scope.version == 2
            &&& scope.version == 1 ==> scope.browser is None
            &&& scope.version == 2 && scope.browser is None ==> scope.browser_page_id is None
            &&& scope.version == 2 && scope.browser is Some ==> {
                &&& is_account_id(scope.browser->0.account_id)
                &&& trimmed(scope.browser->0.instance).len() > 0
                &&& trimmed(scope.browser->0.page_id).len() > 0
                &&& scope.browser_page_id matches Some(p) ==> p == scope.browser->0.page_id
            }
        },
{
}

/// The id of a scope is what stands before the ending of its file.
pub proof fn lemma_file_names_give_ids(stem: Seq<char>)
    ensures
        stem.len() > 0 ==> json_stem(stem + ".json"@) == Some(stem),
        json_stem(".json"@) is None,
        forall|name: Seq<char>| #[trigger]
            json_stem(name) is Some ==> name == json_stem(name)->0 + ".json"@,
{
    reveal_strlit(".json");
    lemma_ends_of_a_text(stem, ".json"@);
    let name = stem + ".json"@;
    assert(name.subrange(0, name.len() - 5) =~= stem);
    assert forall|name: Seq<char>| #[trigger] json_stem(name) is Some implies name == json_stem(
        name,
    )->0 + ".json"@ by {
        let n = name.len() as int;
        assert(name.subrange(n - 5, n) == ".json"@);
        assert(name =~= name.subrange(0, n - 5) + name.subrange(n - 5, n));
    }
}

/// The bridge keeps its state where its own setting says, else below the home directory, else among
/// the temporary files; a setting of white space counts as none.
pub proof fn lemma_where_the_bridge_keeps_its_state(
    bridge_home: Option<&str>,
    home: Option<&str>,
    temp_dir: Seq<char>,
)
    ensures
        (bridge_home matches Some(b) && trimmed(b@).len() > 0) ==> bridge_base(
            bridge_home,
            home,
            temp_dir,
        ) == trimmed(bridge_home->0@),
        (bridge_home is None && home is Some && trimmed(home->0@).len() > 0) ==> bridge_base(
            bridge_home,
            home,
            temp_dir,
        ) == joined_path(joined_path(trimmed(home->0@), ".omo"@), "bridge"@),
        (bridge_home is None && home is None) ==> bridge_base(bridge_home, home, temp_dir)
            == joined_path(temp_dir, "gpt2omo"@),
        (bridge_home matches Some(b) && trimmed(b@).len() == 0) ==> set_value(bridge_home) is None,
{
}

/// The limits of an account are its own, and where it has none the default ones.
pub proof fn lemma_own_limits_come_first(own: PartialAccountLimits, defaults: AccountLimits)
    ensures
        ({
            let l = resolved_limits(own, defaults);
            &&& own.window_seconds matches Some(n) ==> l.window_seconds == n
            &&& own.window_seconds is None ==> l.window_seconds == defaults.window_seconds
            &&& own.max_dispatches matches Some(n) ==> l.max_dispatches == n
            &&& own.max_dispatches is None ==> l.max_dispatches == defaults.max_dispatches
            &&& own.max_active_workers matches Some(n) ==> l.max_active_workers == n
            &&& own.max_active_workers is None ==> l.max_active_workers
                == defaults.max_active_workers
        }),
{
}

/// Every number of a configuration is positive.
pub proof fn lemma_numbers_are_positive(
    routing: RoutingConfig,
    cooldown: CooldownConfig,
    label: Seq<char>,
    limits: AccountLimits,
)
    ensures
        routing_fault(routing) is None <==> routing.reservation_ttl_seconds > 0
            && routing.selection_failure_backoff_seconds > 0,
        cooldown_fault(cooldown) is None <==> cooldown.unknown_rate_limit_seconds > 0
            && cooldown.delivery_failure_seconds > 0,
        limits_fault(label, limits) is None <==> limits.window_seconds > 0 && limits.max_dispatches > 0
            && limits.max_active_workers > 0,
        limits_fault(label, limits) matches Some(m) ==> has_prefix(m, label),
{
    lemma_ends_of_a_text(label, ".window_seconds must be greater than zero"@);
    lemma_ends_of_a_text(label, ".max_dispatches must be greater than zero"@);
    lemma_ends_of_a_text(label, ".max_active_workers must be greater than zero"@);
}

/// A path in its normal form is the same path.
pub proof fn lemma_normal_path_stays_the_same(path: Seq<char>)
    ensures
        normalized(path) is Ok <==> is_absolute(path) && !components(path).contains(".."@),
        normalized(path) matches Ok(p) ==> p == absolute_path(components(path)),
        normalized(path) matches Err(m) ==> has_suffix(m, path),
{
    lemma_ends_of_a_text("must be an absolute path: "@, path);
    lemma_ends_of_a_text("must not contain '..' path traversal: "@, path);
}

/// The profile directory of an account lies in the directory of the bridge, by its name and by its real
/// path, and apart from what is mounted.
pub proof fn lemma_profiles_that_are_accepted(
    id: Seq<char>,
    profile: Seq<char>,
    bridge_dir: Seq<char>,
    mount_root: Seq<char>,
    facts: ProfileFacts,
)
    requires
        profile_check(id, profile, bridge_dir, mount_root, facts) is Ok,
    ensures
        ({
            let p = profile_check(id, profile, bridge_dir, mount_root, facts)->Ok_0;
            &&& is_absolute(profile)
            &&& !components(profile).contains(".."@)
            &&& p == absolute_path(components(profile))
            &&& is_within(p, absolute_path(components(bridge_dir)))
            &&& facts.bridge_real is Ok && facts.profile_real is Ok
            &&& is_within(facts.profile_real->Ok_0@, facts.bridge_real->Ok_0@)
            &&& is_absolute(mount_root) ==> {
                let m = absolute_path(components(mount_root));
                !is_within(p, m) && !is_within(m, p)
            }
            &&& facts.mount_real matches Some(m) ==> {
                &&& !is_within(facts.profile_real->Ok_0@, m@)
                &&& !is_within(m@, facts.profile_real->Ok_0@)
            }
        }),
{
}

/// The endpoint of an account is a URL of the web on the local machine, without a name or password; it
/// is kept in its normal form.
pub proof fn lemma_endpoints_that_are_accepted(id: Seq<char>, endpoint: Seq<char>)
    ensures
        endpoint_check(id, endpoint) is Ok <==> {
            &&& parsed_url(endpoint) is Ok
            &&& {
                let u = parsed_url(endpoint)->Ok_0;
                &&& u.scheme == "http"@ || u.scheme == "https"@ || u.scheme == "ws"@ || u.scheme
                    == "wss"@
                &&& u.username.len() == 0 && u.password is None
                &&& u.host is Some
                &&& is_loopback_host(u)
            }
        },
        endpoint_check(id, endpoint) matches Ok(t) ==> t == parsed_url(endpoint)->Ok_0.text,
        endpoint_check(id, endpoint) matches Err(m) ==> has_prefix(m, "account '"@ + id),
{
    if let Err(m) = endpoint_check(id, endpoint) {
        let head = "account '"@ + id;
        assert(m.subrange(0, head.len() as int) =~= head);
    }
}

/// An account is accepted where its id is one and not taken, its limits are positive, and its browser
/// is its own: instance, profile directory and endpoint are sound and not those of a live account.
pub proof fn lemma_accounts_that_are_accepted(c: ConfigChecks, i: int)
    requires
        0 <= i < c.accounts.len(),
    ensures
        ({
            let a = c.accounts[i];
            c.account_fault(i) is None <==> {
                &&& is_account_id(a.id@)
                &&& forall|j: int| 0 <= j < i ==> (#[trigger] c.accounts[j]).id@ != a.id@
                &&& c.limits(i).window_seconds > 0 && c.limits(i).max_dispatches > 0 && c.limits(
                    i,
                ).max_active_workers > 0
                &&& trimmed(a.browser.instance@).len() > 0
                &&& trimmed(a.browser.worktree@).len() > 0
                &&& forall|j: int|
                    0 <= j < i && #[trigger] c.instance(j) is Some ==> c.instance(j) != c.instance(i)
                &&& a.browser.user_data_dir is Some ==> c.profile_of(i) is Ok
                &&& forall|j: int|
                    0 <= j < i && #[trigger] c.profile(j) is Some ==> c.profile(j) != c.profile(i)
                &&& a.browser.cdp_endpoint matches Some(e) ==> endpoint_check(a.id@, e@) is Ok
                &&& forall|j: int|
                    0 <= j < i && #[trigger] c.endpoint(j) is Some ==> c.endpoint(j) != c.endpoint(i)
            }
        }),
{
    let a = c.accounts[i];
    if c.account_fault(i) is None {
        assert(!c.id_taken(i) && !c.instance_taken(i) && !c.profile_taken(i) && !c.endpoint_taken(i));
    }
}

/// An account that is neither enabled nor drains occupies nothing; a live one occupies what it names.
pub proof fn lemma_live_accounts_occupy_what_they_name(c: ConfigChecks, i: int)
    requires
        0 <= i < c.accounts.len(),
    ensures
        !c.accounts[i].enabled && !c.accounts[i].draining ==> c.instance(i) is None && c.profile(i)
            is None && c.endpoint(i) is None,
        c.accounts[i].enabled || c.accounts[i].draining ==> {
            &&& c.instance(i) == Some(trimmed(c.accounts[i].browser.instance@))
            &&& c.accounts[i].browser.user_data_dir is Some && c.profile_of(i) is Ok ==> c.profile(i)
                == Some(c.profile_of(i)->Ok_0)
            &&& c.accounts[i].browser.user_data_dir is None ==> c.profile(i) is None
        },
{
}

/// The first account with a fault speaks for all, and where none has one there is none.
pub proof fn lemma_first_account_with_a_fault(c: ConfigChecks, from: int, i: int)
    requires
        0 <= from <= i <= c.accounts.len(),
        forall|j: int| from <= j < i ==> #[trigger] c.account_fault(j) is None,
    ensures
        i < c.accounts.len() && c.account_fault(i) is Some ==> c.first_fault(from)
            == c.account_fault(i),
        i == c.accounts.len() ==> c.first_fault(from) is None,
    decreases i - from,
{
    if from < i {
        assert(c.account_fault(from) is None);
        lemma_first_account_with_a_fault(c, from + 1, i);
    }
}

/// A configuration is accepted where it is of the known version, its numbers are positive, and it has
/// accounts of which none has a fault.
pub proof fn lemma_configurations_that_are_accepted(
    file: AccountsFile,
    facts: Seq<ProfileFacts>,
    bridge_dir: Seq<char>,
    mount_root: Seq<char>,
)
    ensures
        file_fault(file, facts, bridge_dir, mount_root) is None ==> {
            &&& file.version == crate::accounts::ACCOUNTS_CONFIG_VERSION
            &&& file.routing.reservation_ttl_seconds > 0
            &&& file.routing.selection_failure_backoff_seconds > 0
            &&& file.defaults.limits.window_seconds > 0
            &&& file.defaults.limits.max_dispatches > 0
            &&& file.defaults.limits.max_active_workers > 0
            &&& file.defaults.cooldown.unknown_rate_limit_seconds > 0
            &&& file.defaults.cooldown.delivery_failure_seconds > 0
            &&& file.accounts@.len() > 0
        },
{
}

/// The account of a bridge without configured accounts is accepted where its numbers are positive and
/// its browser is named.
pub proof fn lemma_legacy_account_that_is_accepted(legacy: LegacyAccountConfig)
    ensures
        legacy_fault(legacy) is None <==> {
            &&& legacy.routing.reservation_ttl_seconds > 0
            &&& legacy.routing.selection_failure_backoff_seconds > 0
            &&& legacy.limits.window_seconds > 0
            &&& legacy.limits.max_dispatches > 0
            &&& legacy.limits.max_active_workers > 0
            &&& legacy.cooldown.unknown_rate_limit_seconds > 0
            &&& legacy.cooldown.delivery_failure_seconds > 0
            &&& trimmed(legacy.browser.instance@).len() > 0
            &&& trimmed(legacy.browser.worktree@).len() > 0
        },
{
}

} // verus!
