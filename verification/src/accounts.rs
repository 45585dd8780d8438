//! The accounts that a bridge routes work to, and the checks on their configuration.
use crate::account_state::{account_id_ok, is_account_id};
use crate::arith::{saturating_mul, seconds_ms};
use crate::error::BridgeError;
use crate::orca::BrowserDriverKind;
use crate::outside::{host_is_loopback, is_loopback_host, parsed_url, url_parts};
use crate::paths::{absolute, absolute_of, absolute_path, components, components_of, is_absolute,
    is_within, within};
use crate::text::{copy_opt, decimal, decimal_of, holds, is_blank, opt_text, same_text, trim,
    trimmed};
use vstd::prelude::*;

verus! {

pub const ACCOUNTS_CONFIG_VERSION: u32 = 1;

pub const LEGACY_ACCOUNT_ID: &'static str = "default";

/// How the router picks among the accounts that can take work.
#[derive(Clone, Copy, Debug, PartialEq, Eq, Structural)]
pub enum RoutingStrategy {
    RoundRobin,
    LeastLoaded,
}

impl Default for RoutingStrategy {
    fn default() -> (r: Self)
        ensures
            r == RoutingStrategy::RoundRobin,
    {
        RoutingStrategy::RoundRobin
    }
}

#[derive(Clone, Copy, Debug, PartialEq, Eq, Structural)]
pub struct RoutingConfig {
    pub strategy: RoutingStrategy,
    pub reservation_ttl_seconds: u64,
    pub selection_failure_backoff_seconds: u64,
}

impl Default for RoutingConfig {
    fn default() -> (r: Self)
        ensures
            r == (RoutingConfig {
                strategy: RoutingStrategy::RoundRobin,
                reservation_ttl_seconds: 120,
                selection_failure_backoff_seconds: 30,
            }),
    {
        RoutingConfig {
            strategy: RoutingStrategy::RoundRobin,
            reservation_ttl_seconds: 120,
            selection_failure_backoff_seconds: 30,
        }
    }
}

#[derive(Clone, Copy, Debug, PartialEq, Eq, Structural)]
pub struct CooldownConfig {
    pub unknown_rate_limit_seconds: u64,
    pub delivery_failure_seconds: u64,
}

impl Default for CooldownConfig {
    fn default() -> (r: Self)
        ensures
            r == (CooldownConfig { unknown_rate_limit_seconds: 900, delivery_failure_seconds: 30 }),
    {
        CooldownConfig { unknown_rate_limit_seconds: 15 * 60, delivery_failure_seconds: 30 }
    }
}

/// How much work an account may take.
#[derive(Clone, Copy, Debug, PartialEq, Eq, Structural)]
pub struct AccountLimits {
    pub window_seconds: u64,
    pub max_dispatches: usize,
    pub max_active_workers: usize,
}

impl Default for AccountLimits {
    fn default() -> (r: Self)
        ensures
            r == (AccountLimits { window_seconds: 3600, max_dispatches: 12, max_active_workers: 3 }),
    {
        AccountLimits { window_seconds: 60 * 60, max_dispatches: 12, max_active_workers: 3 }
    }
}

impl AccountLimits {
    /// The dispatch window in milliseconds.
    pub fn window_ms(&self) -> (r: u64)
        ensures
            r == seconds_ms(self.window_seconds),
    {
        saturating_mul(self.window_seconds, 1000)
    }

    /// Every limit leaves room for work.
    pub open spec fn positive(self) -> bool {
        self.window_seconds > 0 && self.max_dispatches > 0 && self.max_active_workers > 0
    }
}

/// Limits of an account where they differ from the defaults.
#[derive(Clone, Copy, Debug, PartialEq, Eq)]
pub struct PartialAccountLimits {
    pub window_seconds: Option<u64>,
    pub max_dispatches: Option<usize>,
    pub max_active_workers: Option<usize>,
}

/// The limits of an account: its own where it has them, else the defaults.
pub open spec fn resolved_limits(own: PartialAccountLimits, defaults: AccountLimits) -> AccountLimits {
    AccountLimits {
        window_seconds: match own.window_seconds {
            Some(n) => n,
            None => defaults.window_seconds,
        },
        max_dispatches: match own.max_dispatches {
            Some(n) => n,
            None => defaults.max_dispatches,
        },
        max_active_workers: match own.max_active_workers {
            Some(n) => n,
            None => defaults.max_active_workers,
        },
    }
}

impl PartialAccountLimits {
    /// The limits with the gaps filled from the defaults.
    pub fn resolve(&self, defaults: &AccountLimits) -> (r: AccountLimits)
        ensures
            r == resolved_limits(*self, *defaults),
    {
        AccountLimits {
            window_seconds: match self.window_seconds {
                Some(n) => n,
                None => defaults.window_seconds,
            },
            max_dispatches: match self.max_dispatches {
                Some(n) => n,
                None => defaults.max_dispatches,
            },
            max_active_workers: match self.max_active_workers {
                Some(n) => n,
                None => defaults.max_active_workers,
            },
        }
    }
}

impl Default for PartialAccountLimits {
    fn default() -> (r: Self)
        ensures
            r.window_seconds is None,
            r.max_dispatches is None,
            r.max_active_workers is None,
    {
        PartialAccountLimits { window_seconds: None, max_dispatches: None, max_active_workers: None }
    }
}

#[derive(Clone, Copy, Debug, PartialEq, Eq, Structural)]
pub struct AccountDefaults {
    pub limits: AccountLimits,
    pub cooldown: CooldownConfig,
}

/// The browser instance that an account works in.
#[derive(Debug, PartialEq, Eq)]
pub struct BrowserInstanceConfig {
    pub driver: Option<BrowserDriverKind>,
    pub instance: String,
    pub user_data_dir: Option<String>,
    pub cdp_endpoint: Option<String>,
    pub worktree: String,
}

impl Clone for BrowserInstanceConfig {
    fn clone(&self) -> (r: Self)
        ensures
            r == *self,
    {
        BrowserInstanceConfig {
            driver: self.driver,
            instance: self.instance.clone(),
            user_data_dir: copy_opt(&self.user_data_dir),
            cdp_endpoint: copy_opt(&self.cdp_endpoint),
            worktree: self.worktree.clone(),
        }
    }
}

/// The DevTools endpoint of the browser that serves a bridge without configured
/// accounts.
pub const LEGACY_CDP_ENDPOINT: &'static str = "http://127.0.0.1:9222";

impl BrowserInstanceConfig {
    /// The browser of a bridge without configured accounts.
    pub fn legacy(worktree: &str) -> (r: Self)
        ensures
            r.driver is None,
            r.instance@ == "legacy"@,
            r.user_data_dir is None,
            opt_text(r.cdp_endpoint) == Some(LEGACY_CDP_ENDPOINT@),
            r.worktree@ == worktree@,
    {
        BrowserInstanceConfig {
            driver: None,
            instance: "legacy".to_owned(),
            user_data_dir: None,
            cdp_endpoint: Some(LEGACY_CDP_ENDPOINT.to_owned()),
            worktree: worktree.to_owned(),
        }
    }
}

/// An account that the router knows.
#[derive(Debug, PartialEq, Eq)]
pub struct AccountConfig {
    pub id: String,
    pub enabled: bool,
    pub draining: bool,
    pub limits: AccountLimits,
    pub browser: BrowserInstanceConfig,
}

impl Clone for AccountConfig {
    fn clone(&self) -> (r: Self)
        ensures
            r == *self,
    {
        AccountConfig {
            id: self.id.clone(),
            enabled: self.enabled,
            draining: self.draining,
            limits: self.limits,
            browser: self.browser.clone(),
        }
    }
}

/// All accounts of a bridge and how work is routed to them.
#[derive(Debug, PartialEq, Eq)]
pub struct AccountsConfig {
    pub version: u32,
    pub routing: RoutingConfig,
    pub defaults: AccountDefaults,
    pub accounts: Vec<AccountConfig>,
    pub legacy_fallback: bool,
}

/// The position of the first account with this id, or the length.
pub open spec fn account_position(accounts: Seq<AccountConfig>, id: Seq<char>) -> int
    decreases accounts.len(),
{
    if accounts.len() == 0 || accounts[0].id@ == id {
        0
    } else {
        1 + account_position(accounts.drop_first(), id)
    }
}

/// No two accounts share an id.
pub open spec fn distinct_ids(accounts: Seq<AccountConfig>) -> bool {
    forall|i: int, j: int|
        0 <= i < j < accounts.len() ==> (#[trigger] accounts[i]).id@ != (#[trigger] accounts[j]).id@
}

impl AccountsConfig {
    /// The accounts have distinct ids.
    pub open spec fn wf(self) -> bool {
        distinct_ids(self.accounts@)
    }

    /// The position of an account, if there is one with this id.
    pub fn position(&self, id: &str) -> (r: Option<usize>)
        ensures
            match r {
                Some(i) => i == account_position(self.accounts@, id@) && i < self.accounts@.len()
                    && self.accounts@[i as int].id@ == id@,
                None => account_position(self.accounts@, id@) == self.accounts@.len(),
            },
    {
        let mut i: usize = 0;
        assert(self.accounts@.subrange(0, self.accounts@.len() as int) =~= self.accounts@);
        while i < self.accounts.len()
            invariant
                i <= self.accounts@.len(),
                account_position(self.accounts@, id@) == i + account_position(
                    self.accounts@.subrange(i as int, self.accounts@.len() as int),
                    id@,
                ),
            decreases self.accounts@.len() - i,
        {
            if same_text(self.accounts[i].id.as_str(), id) {
                return Some(i);
            }
            assert(self.accounts@.subrange(i as int, self.accounts@.len() as int).drop_first()
                =~= self.accounts@.subrange(i + 1, self.accounts@.len() as int));
            i += 1;
        }
        None
    }

    /// The first account with this id.
    pub fn account(&self, id: &str) -> (r: Option<&AccountConfig>)
        ensures
            match r {
                Some(a) => account_position(self.accounts@, id@) < self.accounts@.len() && *a
                    == self.accounts@[account_position(self.accounts@, id@)] && a.id@ == id@,
                None => account_position(self.accounts@, id@) == self.accounts@.len(),
            },
    {
        match self.position(id) {
            Some(i) => Some(&self.accounts[i]),
            None => None,
        }
    }

    /// The configuration of a bridge without configured accounts: one account, always
    /// enabled.
    pub fn legacy(legacy: LegacyAccountConfig) -> (r: Self)
        ensures
            r.wf(),
            r.version == ACCOUNTS_CONFIG_VERSION,
            r.routing == legacy.routing,
            r.defaults == (AccountDefaults { limits: legacy.limits, cooldown: legacy.cooldown }),
            r.legacy_fallback,
            r.accounts@.len() == 1,
            r.accounts@[0].id@ == LEGACY_ACCOUNT_ID@,
            r.accounts@[0].enabled,
            !r.accounts@[0].draining,
            r.accounts@[0].limits == legacy.limits,
            r.accounts@[0].browser == legacy.browser,
    {
        let mut accounts: Vec<AccountConfig> = Vec::new();
        accounts.push(
            AccountConfig {
                id: LEGACY_ACCOUNT_ID.to_owned(),
                enabled: true,
                draining: false,
                limits: legacy.limits,
                browser: legacy.browser,
            },
        );
        AccountsConfig {
            version: ACCOUNTS_CONFIG_VERSION,
            routing: legacy.routing,
            defaults: AccountDefaults { limits: legacy.limits, cooldown: legacy.cooldown },
            accounts,
            legacy_fallback: true,
        }
    }
}

/// The one account of a bridge without configured accounts.
#[derive(Debug, PartialEq, Eq)]
pub struct LegacyAccountConfig {
    pub routing: RoutingConfig,
    pub limits: AccountLimits,
    pub cooldown: CooldownConfig,
    pub browser: BrowserInstanceConfig,
}

impl Clone for LegacyAccountConfig {
    fn clone(&self) -> (r: Self)
        ensures
            r == *self,
    {
        LegacyAccountConfig {
            routing: self.routing,
            limits: self.limits,
            cooldown: self.cooldown,
            browser: self.browser.clone(),
        }
    }
}

impl Default for LegacyAccountConfig {
    fn default() -> (r: Self)
        ensures
            r.routing == (RoutingConfig {
                strategy: RoutingStrategy::RoundRobin,
                reservation_ttl_seconds: 120,
                selection_failure_backoff_seconds: 30,
            }),
            r.limits == (AccountLimits {
                window_seconds: 3600,
                max_dispatches: 12,
                max_active_workers: 3,
            }),
            r.cooldown == (CooldownConfig {
                unknown_rate_limit_seconds: 900,
                delivery_failure_seconds: 30,
            }),
            r.browser.driver is None,
            r.browser.instance@ == "legacy"@,
            r.browser.user_data_dir is None,
            opt_text(r.browser.cdp_endpoint) == Some(LEGACY_CDP_ENDPOINT@),
            r.browser.worktree@ == "active"@,
    {
        LegacyAccountConfig {
            routing: RoutingConfig::default(),
            limits: AccountLimits::default(),
            cooldown: CooldownConfig::default(),
            browser: BrowserInstanceConfig::legacy("active"),
        }
    }
}

/// An account as the configuration file writes it.
#[derive(Debug)]
pub struct RawAccountConfig {
    pub id: String,
    pub enabled: bool,
    pub draining: bool,
    pub limits: PartialAccountLimits,
    pub browser: BrowserInstanceConfig,
}

/// The configuration file.
#[derive(Debug)]
pub struct AccountsFile {
    pub version: u32,
    pub routing: RoutingConfig,
    pub defaults: AccountDefaults,
    pub accounts: Vec<RawAccountConfig>,
}

/// What the file system says of the profile directory of one account.
#[derive(Debug)]
pub struct ProfileFacts {
    /// The real path of the nearest existing ancestor of the bridge directory, or why
    /// it cannot be had.
    pub bridge_real: Result<String, String>,
    /// The same of the profile directory.
    pub profile_real: Result<String, String>,
    /// The real path of a mount root that is not absolute, or why it cannot be had.
    pub relative_mount: Result<String, String>,
    /// The real path of the mount root, where it has one.
    pub mount_real: Option<String>,
}

pub open spec fn result_text(r: Result<String, String>) -> Result<Seq<char>, Seq<char>> {
    match r {
        Ok(s) => Ok(s@),
        Err(s) => Err(s@),
    }
}

pub open spec fn routing_fault(routing: RoutingConfig) -> Option<Seq<char>> {
    if routing.reservation_ttl_seconds == 0 {
        Some("routing.reservation_ttl_seconds must be greater than zero"@)
    } else if routing.selection_failure_backoff_seconds == 0 {
        Some("routing.selection_failure_backoff_seconds must be greater than zero"@)
    } else {
        None
    }
}

pub open spec fn cooldown_fault(cooldown: CooldownConfig) -> Option<Seq<char>> {
    if cooldown.unknown_rate_limit_seconds == 0 {
        Some("defaults.cooldown.unknown_rate_limit_seconds must be greater than zero"@)
    } else if cooldown.delivery_failure_seconds == 0 {
        Some("defaults.cooldown.delivery_failure_seconds must be greater than zero"@)
    } else {
        None
    }
}

pub open spec fn limits_fault(label: Seq<char>, limits: AccountLimits) -> Option<Seq<char>> {
    if limits.window_seconds == 0 {
        Some(label + ".window_seconds must be greater than zero"@)
    } else if limits.max_dispatches == 0 {
        Some(label + ".max_dispatches must be greater than zero"@)
    } else if limits.max_active_workers == 0 {
        Some(label + ".max_active_workers must be greater than zero"@)
    } else {
        None
    }
}

/// An absolute path in its normal form, or what is wrong with it.
pub open spec fn normalized(path: Seq<char>) -> Result<Seq<char>, Seq<char>> {
    if !is_absolute(path) {
        Err("must be an absolute path: "@ + path)
    } else if components(path).contains(".."@) {
        Err("must not contain '..' path traversal: "@ + path)
    } else {
        Ok(absolute_path(components(path)))
    }
}

pub open spec fn account_words(id: Seq<char>, words: Seq<char>) -> Seq<char> {
    "account '"@ + id + words
}

/// Whether one path lies in the other.
pub open spec fn overlap(a: Seq<char>, b: Seq<char>) -> bool {
    is_within(a, b) || is_within(b, a)
}

/// The profile directory of an account in its normal form, or what is wrong with it:
/// it must be absolute, lie in the bridge directory, also by its real path, and
/// neither lie in the mount root nor hold it.
pub open spec fn profile_check(
    id: Seq<char>,
    profile: Seq<char>,
    bridge_dir: Seq<char>,
    mount_root: Seq<char>,
    facts: ProfileFacts,
) -> Result<Seq<char>, Seq<char>> {
    match normalized(profile) {
        Err(m) => Err(account_words(id, "' browser.user_data_dir "@) + m),
        Ok(p) => match normalized(bridge_dir) {
            Err(m) => Err("bridge control directory "@ + m),
            Ok(bridge) => if !is_within(p, bridge) {
                Err(
                    account_words(
                        id,
                        "' browser.user_data_dir must be inside bridge control directory "@,
                    ) + bridge,
                )
            } else {
                match (result_text(facts.bridge_real), result_text(facts.profile_real)) {
                    (Err(m), _) => Err(m),
                    (Ok(_), Err(m)) => Err(m),
                    (Ok(bridge_real), Ok(profile_real)) => if !is_within(profile_real, bridge_real) {
                        Err(
                            account_words(
                                id,
                                "' browser.user_data_dir resolves through a symlink outside bridge control directory"@,
                            ),
                        )
                    } else {
                        let mount = if is_absolute(mount_root) {
                            normalized(mount_root)
                        } else {
                            result_text(facts.relative_mount)
                        };
                        match mount {
                            Err(m) => Err(m),
                            Ok(m) => if overlap(p, m) {
                                Err(
                                    account_words(
                                        id,
                                        "' browser.user_data_dir must be outside delegated mount root "@,
                                    ) + m,
                                )
                            } else if facts.mount_real is Some && overlap(
                                profile_real,
                                facts.mount_real->0@,
                            ) {
                                Err(
                                    account_words(
                                        id,
                                        "' browser.user_data_dir resolves inside delegated mount root"@,
                                    ),
                                )
                            } else {
                                Ok(p)
                            },
                        }
                    },
                }
            },
        },
    }
}

/// The DevTools endpoint of an account in its normal form, or what is wrong with it.
pub open spec fn endpoint_check(id: Seq<char>, endpoint: Seq<char>) -> Result<Seq<char>, Seq<char>> {
    match parsed_url(endpoint) {
        Err(e) => Err(account_words(id, "' browser.cdp_endpoint is invalid: "@) + e),
        Ok(u) => if u.scheme != "http"@ && u.scheme != "https"@ && u.scheme != "ws"@ && u.scheme
            != "wss"@ {
            Err(account_words(id, "' browser.cdp_endpoint must use http, https, ws, or wss"@))
        } else if u.username.len() > 0 || u.password is Some {
            Err(account_words(id, "' browser.cdp_endpoint must not contain credentials"@))
        } else if u.host is None {
            Err(account_words(id, "' browser.cdp_endpoint must contain a host"@))
        } else if !is_loopback_host(u) {
            Err(account_words(id, "' browser.cdp_endpoint must be loopback-only"@))
        } else {
            Ok(u.text)
        },
    }
}

/// Makes the failure of a configuration check.
pub fn config_error(message: &str) -> (r: BridgeError)
    ensures
        r is Precondition,
        r.detail() == "accounts configuration: "@ + message@,
{
    BridgeError::Precondition("accounts configuration: ".to_owned().concat(message))
}

/// A failure of a configuration check with this message.
pub open spec fn is_config_error(e: BridgeError, message: Seq<char>) -> bool {
    e is Precondition && e.detail() == "accounts configuration: "@ + message
}

/// What a check that can fail with a message says.
pub open spec fn checked(r: Result<(), BridgeError>, fault: Option<Seq<char>>) -> bool {
    match fault {
        None => r is Ok,
        Some(m) => r is Err && is_config_error(r->Err_0, m),
    }
}

pub fn validate_routing(routing: &RoutingConfig) -> (r: Result<(), BridgeError>)
    ensures
        checked(r, routing_fault(*routing)),
{
    if routing.reservation_ttl_seconds == 0 {
        return Err(config_error("routing.reservation_ttl_seconds must be greater than zero"));
    }
    if routing.selection_failure_backoff_seconds == 0 {
        return Err(
            config_error("routing.selection_failure_backoff_seconds must be greater than zero"),
        );
    }
    Ok(())
}

pub fn validate_cooldown(cooldown: &CooldownConfig) -> (r: Result<(), BridgeError>)
    ensures
        checked(r, cooldown_fault(*cooldown)),
{
    if cooldown.unknown_rate_limit_seconds == 0 {
        return Err(
            config_error("defaults.cooldown.unknown_rate_limit_seconds must be greater than zero"),
        );
    }
    if cooldown.delivery_failure_seconds == 0 {
        return Err(
            config_error("defaults.cooldown.delivery_failure_seconds must be greater than zero"),
        );
    }
    Ok(())
}

pub fn validate_limits(label: &str, limits: &AccountLimits) -> (r: Result<(), BridgeError>)
    ensures
        checked(r, limits_fault(label@, *limits)),
{
    if limits.window_seconds == 0 {
        return Err(
            config_error(
                label.to_owned().concat(".window_seconds must be greater than zero").as_str(),
            ),
        );
    }
    if limits.max_dispatches == 0 {
        return Err(
            config_error(
                label.to_owned().concat(".max_dispatches must be greater than zero").as_str(),
            ),
        );
    }
    if limits.max_active_workers == 0 {
        return Err(
            config_error(
                label.to_owned().concat(".max_active_workers must be greater than zero").as_str(),
            ),
        );
    }
    Ok(())
}

pub open spec fn id_fault(id: Seq<char>) -> Option<Seq<char>> {
    if is_account_id(id) {
        None
    } else {
        Some(
            "invalid account id '"@ + id
                + "'; use 1-128 ASCII letters, digits, '.', '_' or '-'"@,
        )
    }
}

pub fn validate_account_id(id: &str) -> (r: Result<(), BridgeError>)
    ensures
        checked(r, id_fault(id@)),
{
    if !account_id_ok(id) {
        return Err(
            config_error(
                "invalid account id '".to_owned().concat(id).concat(
                    "'; use 1-128 ASCII letters, digits, '.', '_' or '-'",
                ).as_str(),
            ),
        );
    }
    Ok(())
}

/// What is wrong with the account of a bridge without configured accounts.
pub open spec fn legacy_fault(legacy: LegacyAccountConfig) -> Option<Seq<char>> {
    if routing_fault(legacy.routing) is Some {
        routing_fault(legacy.routing)
    } else if limits_fault("legacy limits"@, legacy.limits) is Some {
        limits_fault("legacy limits"@, legacy.limits)
    } else if cooldown_fault(legacy.cooldown) is Some {
        cooldown_fault(legacy.cooldown)
    } else if trimmed(legacy.browser.instance@).len() == 0 || trimmed(legacy.browser.worktree@).len()
        == 0 {
        Some("legacy browser instance and worktree must be non-empty"@)
    } else {
        None
    }
}

pub fn validate_legacy(legacy: &LegacyAccountConfig) -> (r: Result<(), BridgeError>)
    ensures
        checked(r, legacy_fault(*legacy)),
{
    if let Err(e) = validate_routing(&legacy.routing) {
        return Err(e);
    }
    if let Err(e) = validate_limits("legacy limits", &legacy.limits) {
        return Err(e);
    }
    if let Err(e) = validate_cooldown(&legacy.cooldown) {
        return Err(e);
    }
    if is_blank(legacy.browser.instance.as_str()) || is_blank(legacy.browser.worktree.as_str()) {
        return Err(config_error("legacy browser instance and worktree must be non-empty"));
    }
    Ok(())
}

/// An absolute path in its normal form.
pub fn normalize_absolute(path: &str) -> (r: Result<String, String>)
    ensures
        result_text(r) == normalized(path@),
{
    if !absolute(path) {
        return Err("must be an absolute path: ".to_owned().concat(path));
    }
    let parts = components_of(path);
    if holds(&parts, "..") {
        return Err("must not contain '..' path traversal: ".to_owned().concat(path));
    }
    Ok(absolute_of(&parts))
}

/// `account '`, the id, and some words.
fn about_account(id: &str, words: &str) -> (r: String)
    ensures
        r@ == account_words(id@, words@),
{
    "account '".to_owned().concat(id).concat(words)
}

/// The profile directory of an account in its normal form: see [`profile_check`].
pub fn validate_profile_path(
    account_id: &str,
    profile: &str,
    bridge_dir: &str,
    mount_root: &str,
    facts: &ProfileFacts,
) -> (r: Result<String, BridgeError>)
    ensures
        match profile_check(account_id@, profile@, bridge_dir@, mount_root@, *facts) {
            Ok(p) => r is Ok && r->Ok_0@ == p,
            Err(m) => r is Err && is_config_error(r->Err_0, m),
        },
{
    let p = match normalize_absolute(profile) {
        Ok(p) => p,
        Err(m) => {
            return Err(
                config_error(
                    about_account(account_id, "' browser.user_data_dir ").concat(
                        m.as_str(),
                    ).as_str(),
                ),
            );
        },
    };
    let bridge = match normalize_absolute(bridge_dir) {
        Ok(b) => b,
        Err(m) => {
            return Err(
                config_error("bridge control directory ".to_owned().concat(m.as_str()).as_str()),
            );
        },
    };
    if !within(p.as_str(), bridge.as_str()) {
        return Err(
            config_error(
                about_account(
                    account_id,
                    "' browser.user_data_dir must be inside bridge control directory ",
                ).concat(bridge.as_str()).as_str(),
            ),
        );
    }
    let bridge_real = match &facts.bridge_real {
        Ok(s) => s,
        Err(m) => {
            return Err(config_error(m.as_str()));
        },
    };
    let profile_real = match &facts.profile_real {
        Ok(s) => s,
        Err(m) => {
            return Err(config_error(m.as_str()));
        },
    };
    if !within(profile_real.as_str(), bridge_real.as_str()) {
        return Err(
            config_error(
                about_account(
                    account_id,
                    "' browser.user_data_dir resolves through a symlink outside bridge control directory",
                ).as_str(),
            ),
        );
    }
    let mount = if absolute(mount_root) {
        match normalize_absolute(mount_root) {
            Ok(m) => m,
            Err(m) => {
                return Err(config_error(m.as_str()));
            },
        }
    } else {
        match &facts.relative_mount {
            Ok(m) => m.clone(),
            Err(m) => {
                return Err(config_error(m.as_str()));
            },
        }
    };
    if within(p.as_str(), mount.as_str()) || within(mount.as_str(), p.as_str()) {
        return Err(
            config_error(
                about_account(
                    account_id,
                    "' browser.user_data_dir must be outside delegated mount root ",
                ).concat(mount.as_str()).as_str(),
            ),
        );
    }
    if let Some(mount_real) = &facts.mount_real {
        if within(profile_real.as_str(), mount_real.as_str()) || within(
            mount_real.as_str(),
            profile_real.as_str(),
        ) {
            return Err(
                config_error(
                    about_account(
                        account_id,
                        "' browser.user_data_dir resolves inside delegated mount root",
                    ).as_str(),
                ),
            );
        }
    }
    Ok(p)
}

/// The DevTools endpoint of an account in its normal form: see [`endpoint_check`].
pub fn validate_loopback_endpoint(account_id: &str, endpoint: &str) -> (r: Result<
    String,
    BridgeError,
>)
    ensures
        match endpoint_check(account_id@, endpoint@) {
            Ok(t) => r is Ok && r->Ok_0@ == t,
            Err(m) => r is Err && is_config_error(r->Err_0, m),
        },
{
    let u = match url_parts(endpoint) {
        Ok(u) => u,
        Err(e) => {
            return Err(
                config_error(
                    about_account(account_id, "' browser.cdp_endpoint is invalid: ").concat(
                        e.as_str(),
                    ).as_str(),
                ),
            );
        },
    };
    let scheme: &str = u.scheme.as_str();
    if !same_text(scheme, "http") && !same_text(scheme, "https") && !same_text(scheme, "ws")
        && !same_text(scheme, "wss") {
        return Err(
            config_error(
                about_account(
                    account_id,
                    "' browser.cdp_endpoint must use http, https, ws, or wss",
                ).as_str(),
            ),
        );
    }
    if !u.username.as_str().is_empty() || u.password.is_some() {
        return Err(
            config_error(
                about_account(
                    account_id,
                    "' browser.cdp_endpoint must not contain credentials",
                ).as_str(),
            ),
        );
    }
    if u.host.is_none() {
        return Err(
            config_error(
                about_account(account_id, "' browser.cdp_endpoint must contain a host").as_str(),
            ),
        );
    }
    if !host_is_loopback(&u) {
        return Err(
            config_error(
                about_account(account_id, "' browser.cdp_endpoint must be loopback-only").as_str(),
            ),
        );
    }
    Ok(u.text)
}

/// What the checks on the accounts of a file depend on.
pub struct ConfigChecks {
    pub accounts: Seq<RawAccountConfig>,
    pub facts: Seq<ProfileFacts>,
    pub defaults: AccountLimits,
    pub bridge_dir: Seq<char>,
    pub mount_root: Seq<char>,
}

impl ConfigChecks {
    /// An account is live while it is enabled or drains.
    pub open spec fn live(self, i: int) -> bool {
        self.accounts[i].enabled || self.accounts[i].draining
    }

    /// The instance that a live account occupies.
    pub open spec fn instance(self, i: int) -> Option<Seq<char>> {
        if self.live(i) {
            Some(trimmed(self.accounts[i].browser.instance@))
        } else {
            None
        }
    }

    pub open spec fn profile_of(self, i: int) -> Result<Seq<char>, Seq<char>> {
        profile_check(
            self.accounts[i].id@,
            self.accounts[i].browser.user_data_dir->0@,
            self.bridge_dir,
            self.mount_root,
            self.facts[i],
        )
    }

    /// The profile directory that a live account occupies.
    pub open spec fn profile(self, i: int) -> Option<Seq<char>> {
        if self.live(i) && self.accounts[i].browser.user_data_dir is Some {
            match self.profile_of(i) {
                Ok(p) => Some(p),
                Err(_) => None,
            }
        } else {
            None
        }
    }

    /// The DevTools endpoint that a live account occupies.
    pub open spec fn endpoint(self, i: int) -> Option<Seq<char>> {
        if self.live(i) && self.accounts[i].browser.cdp_endpoint is Some {
            match endpoint_check(
                self.accounts[i].id@,
                self.accounts[i].browser.cdp_endpoint->0@,
            ) {
                Ok(t) => Some(t),
                Err(_) => None,
            }
        } else {
            None
        }
    }

    pub open spec fn id_taken(self, i: int) -> bool {
        exists|j: int| 0 <= j < i && (#[trigger] self.accounts[j]).id@ == self.accounts[i].id@
    }

    pub open spec fn instance_taken(self, i: int) -> bool {
        exists|j: int|
            0 <= j < i && #[trigger] self.instance(j) is Some && self.instance(j) == self.instance(i)
    }

    pub open spec fn profile_taken(self, i: int) -> bool {
        exists|j: int|
            0 <= j < i && #[trigger] self.profile(j) is Some && self.profile(j) == self.profile(i)
    }

    pub open spec fn endpoint_taken(self, i: int) -> bool {
        exists|j: int|
            0 <= j < i && #[trigger] self.endpoint(j) is Some && self.endpoint(j) == self.endpoint(i)
    }

    /// What is wrong with the browser of an account, given those before it.
    pub open spec fn browser_fault(self, i: int) -> Option<Seq<char>> {
        let a = self.accounts[i];
        if trimmed(a.browser.instance@).len() == 0 {
            Some(account_words(a.id@, "' browser.instance must be non-empty"@))
        } else if trimmed(a.browser.worktree@).len() == 0 {
            Some(account_words(a.id@, "' browser.worktree must be non-empty"@))
        } else if self.instance_taken(i) {
            Some(
                account_words(a.id@, "' reuses browser.instance '"@) + trimmed(a.browser.instance@)
                    + "'"@,
            )
        } else if a.browser.user_data_dir is Some && self.profile_of(i) is Err {
            Some(self.profile_of(i)->Err_0)
        } else if self.profile_taken(i) {
            Some(account_words(a.id@, "' reuses browser.user_data_dir"@))
        } else if a.browser.cdp_endpoint is Some && endpoint_check(
            a.id@,
            a.browser.cdp_endpoint->0@,
        ) is Err {
            Some(endpoint_check(a.id@, a.browser.cdp_endpoint->0@)->Err_0)
        } else if self.endpoint_taken(i) {
            Some(account_words(a.id@, "' reuses browser.cdp_endpoint"@))
        } else {
            None
        }
    }

    pub open spec fn limits(self, i: int) -> AccountLimits {
        resolved_limits(self.accounts[i].limits, self.defaults)
    }

    /// What is wrong with an account, given those before it: its id, an id that is
    /// taken, its limits, its browser.
    pub open spec fn account_fault(self, i: int) -> Option<Seq<char>> {
        let a = self.accounts[i];
        if id_fault(a.id@) is Some {
            id_fault(a.id@)
        } else if self.id_taken(i) {
            Some("duplicate account id '"@ + a.id@ + "'"@)
        } else if limits_fault("accounts["@ + a.id@ + "].limits"@, self.limits(i)) is Some {
            limits_fault("accounts["@ + a.id@ + "].limits"@, self.limits(i))
        } else {
            self.browser_fault(i)
        }
    }

    /// The first thing that is wrong with the accounts from `from` on.
    pub open spec fn first_fault(self, from: int) -> Option<Seq<char>>
        decreases self.accounts.len() - from,
    {
        if from >= self.accounts.len() {
            None
        } else if self.account_fault(from) is Some {
            self.account_fault(from)
        } else {
            self.first_fault(from + 1)
        }
    }
}

/// What the checks on the accounts of a file depend on.
pub open spec fn checks_of(
    file: AccountsFile,
    facts: Seq<ProfileFacts>,
    bridge_dir: Seq<char>,
    mount_root: Seq<char>,
) -> ConfigChecks {
    ConfigChecks {
        accounts: file.accounts@,
        facts,
        defaults: file.defaults.limits,
        bridge_dir,
        mount_root,
    }
}

/// What is wrong with a configuration file: its version, its routing, its default
/// limits and cooldowns, that it has no account, or the first fault of an account.
pub open spec fn file_fault(
    file: AccountsFile,
    facts: Seq<ProfileFacts>,
    bridge_dir: Seq<char>,
    mount_root: Seq<char>,
) -> Option<Seq<char>> {
    if file.version != ACCOUNTS_CONFIG_VERSION {
        Some(
            "unsupported accounts.json version "@ + decimal(file.version as nat) + "; expected "@
                + decimal(ACCOUNTS_CONFIG_VERSION as nat),
        )
    } else if routing_fault(file.routing) is Some {
        routing_fault(file.routing)
    } else if limits_fault("defaults.limits"@, file.defaults.limits) is Some {
        limits_fault("defaults.limits"@, file.defaults.limits)
    } else if cooldown_fault(file.defaults.cooldown) is Some {
        cooldown_fault(file.defaults.cooldown)
    } else if file.accounts@.len() == 0 {
        Some("accounts.json must contain at least one account"@)
    } else {
        checks_of(file, facts, bridge_dir, mount_root).first_fault(0)
    }
}

/// An account is what its entry in the file says, with its limits resolved.
pub open spec fn account_from(a: AccountConfig, raw: RawAccountConfig, defaults: AccountLimits) -> bool {
    &&& a.id == raw.id
    &&& a.enabled == raw.enabled
    &&& a.draining == raw.draining
    &&& a.limits == resolved_limits(raw.limits, defaults)
    &&& a.browser == raw.browser
}

/// The instance, profile directory and endpoint that live accounts occupy so far.
struct Occupied {
    instances: Vec<Option<String>>,
    profiles: Vec<Option<String>>,
    endpoints: Vec<Option<String>>,
}

/// Whether one of the entries holds a text.
fn occupied(v: &Vec<Option<String>>, t: &str) -> (r: bool)
    ensures
        r == exists|j: int| 0 <= j < v@.len() && opt_text(#[trigger] v@[j]) == Some(t@),
{
    let mut i: usize = 0;
    while i < v.len()
        invariant
            i <= v@.len(),
            forall|j: int| 0 <= j < i ==> opt_text(#[trigger] v@[j]) != Some(t@),
        decreases v@.len() - i,
    {
        if let Some(s) = &v[i] {
            if same_text(s.as_str(), t) {
                assert(opt_text(v@[i as int]) == Some(t@));
                return true;
            }
        }
        i += 1;
    }
    false
}

impl Occupied {
    spec fn matches(self, c: ConfigChecks, n: int) -> bool {
        &&& self.instances@.len() == n
        &&& self.profiles@.len() == n
        &&& self.endpoints@.len() == n
        &&& forall|j: int| 0 <= j < n ==> opt_text(#[trigger] self.instances@[j]) == c.instance(j)
        &&& forall|j: int| 0 <= j < n ==> opt_text(#[trigger] self.profiles@[j]) == c.profile(j)
        &&& forall|j: int| 0 <= j < n ==> opt_text(#[trigger] self.endpoints@[j]) == c.endpoint(j)
    }
}

/// Checks the browser of an account against those before it, and notes what the
/// account occupies.
fn validate_browser(
    account: &RawAccountConfig,
    facts: &ProfileFacts,
    bridge_dir: &str,
    mount_root: &str,
    seen: &mut Occupied,
    Ghost(c): Ghost<ConfigChecks>,
    Ghost(i): Ghost<int>,
) -> (r: Result<(), BridgeError>)
    requires
        0 <= i < c.accounts.len(),
        c.accounts.len() == c.facts.len(),
        *account == c.accounts[i],
        *facts == c.facts[i],
        bridge_dir@ == c.bridge_dir,
        mount_root@ == c.mount_root,
        old(seen).matches(c, i),
    ensures
        checked(r, c.browser_fault(i)),
        r is Ok ==> final(seen).matches(c, i + 1),
{
    let id: &str = account.id.as_str();
    let live = account.enabled || account.draining;
    let instance = trim(account.browser.instance.as_str());
    if instance.as_str().is_empty() {
        return Err(
            config_error(about_account(id, "' browser.instance must be non-empty").as_str()),
        );
    }
    if is_blank(account.browser.worktree.as_str()) {
        return Err(
            config_error(about_account(id, "' browser.worktree must be non-empty").as_str()),
        );
    }
    let taken = live && occupied(&seen.instances, instance.as_str());
    proof {
        if live {
            assert(c.instance(i) == Some(instance@));
            if taken {
                let j = choose|j: int|
                    0 <= j < seen.instances@.len() && opt_text(#[trigger] seen.instances@[j])
                        == Some(instance@);
                assert(c.instance(j) == c.instance(i) && c.instance(j) is Some);
            } else if c.instance_taken(i) {
                let j = choose|j: int|
                    0 <= j < i && #[trigger] c.instance(j) is Some && c.instance(j) == c.instance(i);
                assert(opt_text(seen.instances@[j]) == Some(instance@));
            }
        }
        assert(taken == c.instance_taken(i));
    }
    if taken {
        return Err(
            config_error(
                about_account(id, "' reuses browser.instance '").concat(instance.as_str()).concat(
                    "'",
                ).as_str(),
            ),
        );
    }
    let mut profile: Option<String> = None;
    if let Some(dir) = &account.browser.user_data_dir {
        let p = match validate_profile_path(id, dir.as_str(), bridge_dir, mount_root, facts) {
            Ok(p) => p,
            Err(e) => {
                return Err(e);
            },
        };
        if live {
            profile = Some(p);
        }
    }
    assert(opt_text(profile) == c.profile(i));
    let taken = match &profile {
        Some(p) => occupied(&seen.profiles, p.as_str()),
        None => false,
    };
    proof {
        if profile is Some {
            if taken {
                let j = choose|j: int|
                    0 <= j < seen.profiles@.len() && opt_text(#[trigger] seen.profiles@[j]) == Some(
                        profile->0@,
                    );
                assert(c.profile(j) == c.profile(i) && c.profile(j) is Some);
            } else if c.profile_taken(i) {
                let j = choose|j: int|
                    0 <= j < i && #[trigger] c.profile(j) is Some && c.profile(j) == c.profile(i);
                assert(opt_text(seen.profiles@[j]) == Some(profile->0@));
            }
        }
        assert(taken == c.profile_taken(i));
    }
    if taken {
        return Err(config_error(about_account(id, "' reuses browser.user_data_dir").as_str()));
    }
    let mut endpoint: Option<String> = None;
    if let Some(url) = &account.browser.cdp_endpoint {
        let t = match validate_loopback_endpoint(id, url.as_str()) {
            Ok(t) => t,
            Err(e) => {
                return Err(e);
            },
        };
        if live {
            endpoint = Some(t);
        }
    }
    assert(opt_text(endpoint) == c.endpoint(i));
    let taken = match &endpoint {
        Some(t) => occupied(&seen.endpoints, t.as_str()),
        None => false,
    };
    proof {
        if endpoint is Some {
            if taken {
                let j = choose|j: int|
                    0 <= j < seen.endpoints@.len() && opt_text(#[trigger] seen.endpoints@[j]) == Some(
                        endpoint->0@,
                    );
                assert(c.endpoint(j) == c.endpoint(i) && c.endpoint(j) is Some);
            } else if c.endpoint_taken(i) {
                let j = choose|j: int|
                    0 <= j < i && #[trigger] c.endpoint(j) is Some && c.endpoint(j) == c.endpoint(i);
                assert(opt_text(seen.endpoints@[j]) == Some(endpoint->0@));
            }
        }
        assert(taken == c.endpoint_taken(i));
    }
    if taken {
        return Err(config_error(about_account(id, "' reuses browser.cdp_endpoint").as_str()));
    }
    let held = if live {
        Some(instance)
    } else {
        None
    };
    seen.instances.push(held);
    seen.profiles.push(profile);
    seen.endpoints.push(endpoint);
    Ok(())
}

/// Whether an account before `i` has the same id.
fn id_is_taken(accounts: &Vec<RawAccountConfig>, i: usize) -> (r: bool)
    requires
        i < accounts@.len(),
    ensures
        r == exists|j: int| 0 <= j < i && (#[trigger] accounts@[j]).id@ == accounts@[i as int].id@,
{
    let mut j: usize = 0;
    while j < i
        invariant
            j <= i < accounts@.len(),
            forall|k: int| 0 <= k < j ==> (#[trigger] accounts@[k]).id@ != accounts@[i as int].id@,
        decreases i - j,
    {
        if same_text(accounts[j].id.as_str(), accounts[i].id.as_str()) {
            return true;
        }
        j += 1;
    }
    false
}

/// Two live accounts never share a browser instance, a profile directory or a
/// DevTools endpoint, and no two accounts share an id.
pub open spec fn isolated(c: ConfigChecks) -> bool {
    forall|i: int, j: int|
        #![trigger c.accounts[i], c.accounts[j]]
        0 <= i < j < c.accounts.len() ==> {
            &&& c.accounts[i].id@ != c.accounts[j].id@
            &&& c.instance(i) is Some ==> c.instance(i) != c.instance(j)
            &&& c.profile(i) is Some ==> c.profile(i) != c.profile(j)
            &&& c.endpoint(i) is Some ==> c.endpoint(i) != c.endpoint(j)
        }
}

/// Accounts without a fault are isolated from one another.
pub proof fn lemma_accounts_isolated(c: ConfigChecks)
    requires
        c.first_fault(0) is None,
    ensures
        isolated(c),
        forall|i: int| #![trigger c.accounts[i]] 0 <= i < c.accounts.len() ==> c.limits(i).positive(),
{
    lemma_no_fault(c, 0);
    assert forall|i: int, j: int|
        #![trigger c.accounts[i], c.accounts[j]]
        0 <= i < j < c.accounts.len() implies {
        &&& c.accounts[i].id@ != c.accounts[j].id@
        &&& c.instance(i) is Some ==> c.instance(i) != c.instance(j)
        &&& c.profile(i) is Some ==> c.profile(i) != c.profile(j)
        &&& c.endpoint(i) is Some ==> c.endpoint(i) != c.endpoint(j)
    } by {
        assert(c.account_fault(j) is None);
        assert(!c.id_taken(j));
        assert(!c.instance_taken(j) && !c.profile_taken(j) && !c.endpoint_taken(j));
    }
    assert forall|i: int| #![trigger c.accounts[i]] 0 <= i < c.accounts.len() implies c.limits(
        i,
    ).positive() by {
        assert(c.account_fault(i) is None);
    }
}

proof fn lemma_no_fault(c: ConfigChecks, from: int)
    requires
        0 <= from,
        c.first_fault(from) is None,
    ensures
        forall|i: int| from <= i < c.accounts.len() ==> #[trigger] c.account_fault(i) is None,
    decreases c.accounts.len() - from,
{
    if from < c.accounts.len() {
        lemma_no_fault(c, from + 1);
    }
}

/// Checks a configuration file and resolves its accounts: see [`file_fault`].
pub fn parse_accounts_config(
    file: &AccountsFile,
    bridge_dir: &str,
    mount_root: &str,
    facts: &Vec<ProfileFacts>,
) -> (r: Result<AccountsConfig, BridgeError>)
    requires
        facts@.len() == file.accounts@.len(),
    ensures
        match file_fault(*file, facts@, bridge_dir@, mount_root@) {
            Some(m) => r is Err && is_config_error(r->Err_0, m),
            None => r is Ok,
        },
        r matches Ok(c) ==> {
            &&& c.wf()
            &&& c.version == file.version
            &&& c.routing == file.routing
            &&& c.defaults == file.defaults
            &&& !c.legacy_fallback
            &&& c.accounts@.len() == file.accounts@.len()
            &&& forall|i: int|
                0 <= i < c.accounts@.len() ==> account_from(
                    #[trigger] c.accounts@[i],
                    file.accounts@[i],
                    file.defaults.limits,
                )
            &&& isolated(checks_of(*file, facts@, bridge_dir@, mount_root@))
            &&& forall|i: int| 0 <= i < c.accounts@.len() ==> (#[trigger] c.accounts@[i]).limits.positive()
        },
{
    if file.version != ACCOUNTS_CONFIG_VERSION {
        return Err(
            config_error(
                "unsupported accounts.json version ".to_owned().concat(
                    decimal_of(file.version as u64).as_str(),
                ).concat("; expected ").concat(
                    decimal_of(ACCOUNTS_CONFIG_VERSION as u64).as_str(),
                ).as_str(),
            ),
        );
    }
    if let Err(e) = validate_routing(&file.routing) {
        return Err(e);
    }
    if let Err(e) = validate_limits("defaults.limits", &file.defaults.limits) {
        return Err(e);
    }
    if let Err(e) = validate_cooldown(&file.defaults.cooldown) {
        return Err(e);
    }
    if file.accounts.len() == 0 {
        return Err(config_error("accounts.json must contain at least one account"));
    }
    let ghost c = checks_of(*file, facts@, bridge_dir@, mount_root@);
    let mut accounts: Vec<AccountConfig> = Vec::new();
    let mut seen = Occupied { instances: Vec::new(), profiles: Vec::new(), endpoints: Vec::new() };
    let mut i: usize = 0;
    while i < file.accounts.len()
        invariant
            i <= file.accounts@.len(),
            facts@.len() == file.accounts@.len(),
            c == checks_of(*file, facts@, bridge_dir@, mount_root@),
            file_fault(*file, facts@, bridge_dir@, mount_root@) == c.first_fault(i as int),
            seen.matches(c, i as int),
            accounts@.len() == i,
            forall|j: int|
                0 <= j < i ==> account_from(
                    #[trigger] accounts@[j],
                    file.accounts@[j],
                    file.defaults.limits,
                ),
            forall|j: int| 0 <= j < i ==> #[trigger] c.account_fault(j) is None,
        decreases file.accounts@.len() - i,
    {
        let raw = &file.accounts[i];
        if let Err(e) = validate_account_id(raw.id.as_str()) {
            return Err(e);
        }
        if id_is_taken(&file.accounts, i) {
            return Err(
                config_error(
                    "duplicate account id '".to_owned().concat(raw.id.as_str()).concat("'").as_str(),
                ),
            );
        }
        let limits = raw.limits.resolve(&file.defaults.limits);
        let label = "accounts[".to_owned().concat(raw.id.as_str()).concat("].limits");
        if let Err(e) = validate_limits(label.as_str(), &limits) {
            return Err(e);
        }
        if let Err(e) = validate_browser(
            raw,
            &facts[i],
            bridge_dir,
            mount_root,
            &mut seen,
            Ghost(c),
            Ghost(i as int),
        ) {
            return Err(e);
        }
        accounts.push(
            AccountConfig {
                id: raw.id.clone(),
                enabled: raw.enabled,
                draining: raw.draining,
                limits,
                browser: raw.browser.clone(),
            },
        );
        assert(c.account_fault(i as int) is None);
        i += 1;
    }
    proof {
        assert(c.first_fault(0) is None) by {
            lemma_all_clear(c, 0);
        }
        lemma_accounts_isolated(c);
        assert forall|j: int| 0 <= j < accounts@.len() implies (
        #[trigger] accounts@[j]).limits.positive() by {
            assert(account_from(accounts@[j], file.accounts@[j], file.defaults.limits));
            assert(c.limits(j).positive()) by {
                assert(c.accounts[j] == file.accounts@[j]);
            }
        }
        assert forall|j: int, k: int| 0 <= j < k < accounts@.len() implies (
        #[trigger] accounts@[j]).id@ != (#[trigger] accounts@[k]).id@ by {
            assert(c.accounts[j].id@ != c.accounts[k].id@);
        }
    }
    Ok(
        AccountsConfig {
            version: file.version,
            routing: file.routing,
            defaults: file.defaults,
            accounts,
            legacy_fallback: false,
        },
    )
}

proof fn lemma_all_clear(c: ConfigChecks, from: int)
    requires
        0 <= from,
        forall|i: int| from <= i < c.accounts.len() ==> #[trigger] c.account_fault(i) is None,
    ensures
        c.first_fault(from) is None,
    decreases c.accounts.len() - from,
{
    if from < c.accounts.len() {
        lemma_all_clear(c, from + 1);
    }
}

/// What loading the configuration of a bridge returns: that of its file, or, without a
/// file, the one of the legacy account, once it passes its checks.
pub open spec fn config_outcome(
    file: Option<&AccountsFile>,
    bridge_dir: Seq<char>,
    mount_root: Seq<char>,
    facts: Seq<ProfileFacts>,
    legacy: LegacyAccountConfig,
    r: Result<AccountsConfig, BridgeError>,
) -> bool {
    let fault = match file {
        Some(f) => file_fault(*f, facts, bridge_dir, mount_root),
        None => legacy_fault(legacy),
    };
    match r {
        Err(e) => fault is Some && is_config_error(e, fault->0),
        Ok(c) => {
            &&& fault is None
            &&& c.wf()
            &&& c.legacy_fallback == (file is None)
            &&& match file {
                Some(f) => {
                    &&& c.version == f.version
                    &&& c.routing == f.routing
                    &&& c.defaults == f.defaults
                    &&& c.accounts@.len() == f.accounts@.len()
                    &&& forall|i: int|
                        0 <= i < c.accounts@.len() ==> account_from(
                            #[trigger] c.accounts@[i],
                            f.accounts@[i],
                            f.defaults.limits,
                        )
                },
                None => {
                    &&& c.version == ACCOUNTS_CONFIG_VERSION
                    &&& c.routing == legacy.routing
                    &&& c.defaults == (AccountDefaults {
                        limits: legacy.limits,
                        cooldown: legacy.cooldown,
                    })
                    &&& c.accounts@.len() == 1
                    &&& c.accounts@[0].id@ == LEGACY_ACCOUNT_ID@
                    &&& c.accounts@[0].enabled && !c.accounts@[0].draining
                    &&& c.accounts@[0].limits == legacy.limits
                    &&& c.accounts@[0].browser == legacy.browser
                },
            }
        },
    }
}

/// The configuration of a bridge: that of its file, or, without a file, the one of
/// the legacy account once that passes its checks.
pub fn load_accounts_config(
    file: Option<&AccountsFile>,
    bridge_dir: &str,
    mount_root: &str,
    facts: &Vec<ProfileFacts>,
    legacy: LegacyAccountConfig,
) -> (r: Result<AccountsConfig, BridgeError>)
    requires
        file is Some ==> facts@.len() == file->0.accounts@.len(),
    ensures
        config_outcome(file, bridge_dir@, mount_root@, facts@, legacy, r),
{
    match file {
        Some(f) => parse_accounts_config(f, bridge_dir, mount_root, facts),
        None => {
            if let Err(e) = validate_legacy(&legacy) {
                return Err(e);
            }
            Ok(AccountsConfig::legacy(legacy))
        },
    }
}

} // verus!
