//! The options of the bridge, and what they may expose.
use crate::outside::{hex_encode, hex_text, lemma_hex_text, random_uuid};
use crate::paths::{join_path, joined_path};
use crate::security::workspace::{bridge_base, default_bridge_base_dir};
use crate::text::{copy_opt, is_hex_digit, lossy, lossy_text, opt_str, opt_text, trim, trimmed};
use vstd::prelude::*;

verus! {

/// The options of the bridge.
#[derive(Debug)]
pub struct Cli {
    pub mount_root: String,
    pub scope_dir: Option<String>,
    pub bind: String,
    /// The bearer token of the control endpoints.
    pub token: Option<String>,
    pub token_file: Option<String>,
    pub max_file_bytes: usize,
    pub command_timeout_ms: u64,
    pub subagent_endpoint: Option<String>,
    pub subagent_api_key: Option<String>,
    pub subagent_model: String,
    pub subagent_allow_remote: bool,
    pub insecure_no_auth: bool,
    pub allow_arbitrary_commands: bool,
    pub read_only: bool,
}

/// An IP address, as its number.
#[derive(Clone, Copy, Debug, PartialEq, Eq, Structural)]
pub enum IpNumber {
    V4(u32),
    V6(u128),
}

impl IpNumber {
    /// The address is one of the local machine: of the network 127.0.0.0/8, or `::1`.
    pub open spec fn is_local(self) -> bool {
        match self {
            IpNumber::V4(n) => n / 0x100_0000 == 127,
            IpNumber::V6(n) => n == 1,
        }
    }

    /// Whether the address is one of the local machine.
    pub fn is_loopback(self) -> (r: bool)
        ensures
            r == self.is_local(),
    {
        match self {
            IpNumber::V4(n) => n / 0x100_0000 == 127,
            IpNumber::V6(n) => n == 1,
        }
    }
}

pub const REMOTE_NEEDS_TOKEN: &'static str =
    "non-loopback bind requires bearer authentication; --insecure-no-auth is loopback-only";

pub const REMOTE_IS_READ_ONLY: &'static str =
    "non-loopback bridge access is read-only by policy because run_command children are not OS-sandboxed; start the daemon with --read-only or keep writable access on loopback";

/// A file with the bearer token, which only its owner may read.
#[derive(Debug)]
pub struct TokenFile {
    pub path: String,
    pub content: String,
}

impl Cli {
    /// The options of a bridge for which none is given.
    pub fn with_mount_root(mount_root: &str) -> (r: Self)
        ensures
            r.mount_root@ == mount_root@,
            r.bind@ == "127.0.0.1:18800"@,
            r.scope_dir is None && r.token is None && r.token_file is None
                && r.subagent_endpoint is None && r.subagent_api_key is None,
            r.max_file_bytes == 10 * 1024 * 1024,
            r.command_timeout_ms == 300_000,
            r.subagent_model@ == "deepseek-v4-flash-free"@,
            !r.subagent_allow_remote && !r.insecure_no_auth && !r.allow_arbitrary_commands
                && !r.read_only,
    {
        Cli {
            mount_root: mount_root.to_owned(),
            scope_dir: None,
            bind: "127.0.0.1:18800".to_owned(),
            token: None,
            token_file: None,
            max_file_bytes: 10 * 1024 * 1024,
            command_timeout_ms: 300_000,
            subagent_endpoint: None,
            subagent_api_key: None,
            subagent_model: "deepseek-v4-flash-free".to_owned(),
            subagent_allow_remote: false,
            insecure_no_auth: false,
            allow_arbitrary_commands: false,
            read_only: false,
        }
    }

    /// Why the bridge may not listen at an address.
    pub open spec fn bind_fault(self, ip: IpNumber) -> Option<Seq<char>> {
        if ip.is_local() {
            None
        } else if self.token is None {
            Some(REMOTE_NEEDS_TOKEN@)
        } else if !self.read_only {
            Some(REMOTE_IS_READ_ONLY@)
        } else {
            None
        }
    }

    /// Whether the bridge may listen at an address: other machines reach it only with a
    /// token, and only to read.
    pub fn validate_bind_security(&self, ip: IpNumber) -> (r: Result<(), String>)
        ensures
            match r {
                Ok(_) => self.bind_fault(ip) is None,
                Err(e) => self.bind_fault(ip) == Some(e@),
            },
    {
        if !ip.is_loopback() && self.token.is_none() {
            return Err(REMOTE_NEEDS_TOKEN.to_owned());
        }
        if !ip.is_loopback() && !self.read_only {
            return Err(REMOTE_IS_READ_ONLY.to_owned());
        }
        Ok(())
    }

    /// The file that the token has to be read from, if it has to be read.
    pub fn token_file_to_read(&self) -> (r: Option<String>)
        ensures
            opt_text(r) == (if self.token is None {
                opt_text(self.token_file)
            } else {
                None
            }),
    {
        if self.token.is_none() {
            copy_opt(&self.token_file)
        } else {
            None
        }
    }

    /// Takes the token out of what its file holds; a token that is given counts before
    /// one in a file.
    pub fn load_token_file(&mut self, content: &str)
        ensures
            if old(self).token is None && old(self).token_file is Some {
                final(self).token is Some && final(self).token->0@ == trimmed(content@)
            } else {
                final(self).token == old(self).token
            },
            *final(self) == (Cli { token: final(self).token, ..*old(self) }),
    {
        if self.token.is_none() && self.token_file.is_some() {
            self.token = Some(trim(content));
        }
    }

    /// What becomes of the token when the bridge makes sure that it has one, in this order:
    /// a token that is given stays; else what the token file holds, without the white space
    /// around it, becomes the token; else a bridge that is to go without a token has none;
    /// else a fresh token is set, which has to be written to a file.
    pub open spec fn auth_holds(
        before: Cli,
        token_file_content: Option<Seq<char>>,
        path: Seq<char>,
        after: Cli,
        r: Option<TokenFile>,
    ) -> bool {
        if before.token is Some {
            r is None && after == before
        } else if before.token_file is Some {
            &&& r is None
            &&& after.token is Some
            &&& after.token->0@ == trimmed(token_file_content->0)
            &&& after == (Cli { token: after.token, ..before })
        } else if before.insecure_no_auth {
            r is None && after == before
        } else {
            &&& r is Some
            &&& after.token is Some
            &&& is_secure_token(after.token->0@)
            &&& after == (Cli { token: after.token, ..before })
            &&& r->0.path@ == path
            &&& r->0.content@ == after.token->0@ + "\n"@
        }
    }

    /// Makes sure that there is a token, unless the bridge is to go without: see
    /// [`Cli::auth_holds`]. `token_file_content` is what the token file holds, where it has
    /// to be read; the file that is returned has to be written.
    pub fn ensure_auth_in(&mut self, base_dir: &str, token_file_content: Option<&str>) -> (r: Option<
        TokenFile,
    >)
        requires
            old(self).token is None && old(self).token_file is Some ==> token_file_content is Some,
        ensures
            Cli::auth_holds(
                *old(self),
                opt_str(token_file_content),
                joined_path(base_dir@, "token"@),
                *final(self),
                r,
            ),
    {
        if let Some(content) = token_file_content {
            self.load_token_file(content);
        }
        if self.token.is_some() || self.insecure_no_auth {
            return None;
        }
        let token = generate_secure_token();
        let file = TokenFile {
            path: join_path(base_dir, "token"),
            content: token.clone().concat("\n"),
        };
        self.token = Some(token);
        Some(file)
    }

    /// [`Cli::ensure_auth_in`] in the directory that a bridge keeps its state in.
    pub fn ensure_auth(
        &mut self,
        bridge_home: Option<&str>,
        home: Option<&str>,
        temp_dir: &str,
        token_file_content: Option<&str>,
    ) -> (r: Option<TokenFile>)
        requires
            old(self).token is None && old(self).token_file is Some ==> token_file_content is Some,
        ensures
            Cli::auth_holds(
                *old(self),
                opt_str(token_file_content),
                joined_path(bridge_base(bridge_home, home, temp_dir@), "token"@),
                *final(self),
                r,
            ),
    {
        let base = default_bridge_base_dir(bridge_home, home, temp_dir);
        self.ensure_auth_in(base.as_str(), token_file_content)
    }
}

/// A token is the hexadecimal text of the sixteen bytes of two random UUIDs.
pub open spec fn is_secure_token(t: Seq<char>) -> bool {
    exists|a: Seq<u8>, b: Seq<u8>|
        {
            &&& a.len() == 16
            &&& b.len() == 16
            &&& a[6] / 16 == 4
            &&& b[6] / 16 == 4
            &&& a[8] / 64 == 2
            &&& b[8] / 64 == 2
            &&& t == #[trigger] hex_text(a + b)
        }
}

/// The token that two random values make: their bytes, one value behind the other, as a
/// hexadecimal text.
pub fn token_of(a: &Vec<u8>, b: &Vec<u8>) -> (r: String)
    ensures
        r@ == hex_text(a@ + b@),
{
    let mut bytes: Vec<u8> = Vec::new();
    let mut i: usize = 0;
    while i < a.len()
        invariant
            i <= a@.len(),
            bytes@ =~= a@.subrange(0, i as int),
        decreases a@.len() - i,
    {
        bytes.push(a[i]);
        i += 1;
    }
    i = 0;
    while i < b.len()
        invariant
            i <= b@.len(),
            bytes@ =~= a@ + b@.subrange(0, i as int),
        decreases b@.len() - i,
    {
        bytes.push(b[i]);
        i += 1;
    }
    assert(bytes@ =~= a@ + b@);
    hex_encode(&bytes)
}

/// A fresh token: [`token_of`] two draws. That one draw tells nothing of the other rests on
/// chance.
pub fn generate_secure_token() -> (r: String)
    ensures
        is_secure_token(r@),
        r@.len() == 64,
{
    let a = random_uuid();
    let b = random_uuid();
    token_of(&a, &b)
}

/// The mount root where none is given: the root that git names, or the home directory,
/// or the current one. `git` is what git printed where it succeeded.
pub fn default_mount_root(git: &Option<String>, home: &Option<String>) -> (r: String)
    ensures
        r@ == (if git is Some && trimmed(git->0@).len() > 0 {
            trimmed(git->0@)
        } else if home is Some && home->0@.len() > 0 {
            home->0@
        } else {
            "."@
        }),
{
    if let Some(t) = git {
        let root = trim(t.as_str());
        if !root.as_str().is_empty() {
            return root;
        }
    }
    if let Some(h) = home {
        if !h.as_str().is_empty() {
            return h.clone();
        }
    }
    ".".to_owned()
}

/// The mount root where none is given, out of the bytes that git printed where it succeeded:
/// see [`default_mount_root`].
pub fn mount_root_in(git: &Option<Vec<u8>>, home: &Option<String>) -> (r: String)
    ensures
        r@ == (if git is Some && trimmed(lossy(git->0@)).len() > 0 {
            trimmed(lossy(git->0@))
        } else if home is Some && home->0@.len() > 0 {
            home->0@
        } else {
            "."@
        }),
{
    match git {
        Some(b) => default_mount_root(&Some(lossy_text(b)), home),
        None => default_mount_root(&None, home),
    }
}

/// A value without the white space around it; it must not be empty.
pub fn parse_nonempty_trimmed(value: &str) -> (r: Result<String, String>)
    ensures
        match r {
            Ok(v) => v@ == trimmed(value@) && v@.len() > 0,
            Err(e) => trimmed(value@).len() == 0 && e@ == "value must not be empty"@,
        },
{
    let v = trim(value);
    if v.as_str().is_empty() {
        Err("value must not be empty".to_owned())
    } else {
        Ok(v)
    }
}

/// A bridge that other machines can reach has a token and is read-only.
pub proof fn lemma_remote_bind_is_guarded(cli: Cli, ip: IpNumber)
    requires
        cli.bind_fault(ip) is None,
        !ip.is_local(),
    ensures
        cli.token is Some,
        cli.read_only,
{
}

/// A token of the bridge's own making has 64 characters, each a hexadecimal digit.
pub proof fn lemma_secure_token_is_hex(t: Seq<char>)
    requires
        is_secure_token(t),
    ensures
        t.len() == 64,
        forall|i: int| 0 <= i < 64 ==> is_hex_digit(#[trigger] t[i]),
{
    let (a, b) = choose|a: Seq<u8>, b: Seq<u8>|
        {
            &&& a.len() == 16
            &&& b.len() == 16
            &&& a[6] / 16 == 4
            &&& b[6] / 16 == 4
            &&& a[8] / 64 == 2
            &&& b[8] / 64 == 2
            &&& t == #[trigger] hex_text(a + b)
        };
    lemma_hex_text(a + b);
}

/// A bridge that names a token file never runs without a token and never makes one of its
/// own, also where it may go without.
pub proof fn lemma_token_file_is_binding(
    before: Cli,
    token_file_content: Option<Seq<char>>,
    path: Seq<char>,
    after: Cli,
    r: Option<TokenFile>,
)
    requires
        Cli::auth_holds(before, token_file_content, path, after, r),
        before.token_file is Some,
    ensures
        after.token is Some,
        r is None,
{
}

} // verus!
