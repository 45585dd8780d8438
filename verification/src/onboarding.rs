//! Bringing accounts in: a configuration is prepared, the operator logs in, and the
//! configuration goes live once every account is ready and no old work is left.
use crate::account_state::AccountStateStore;
use crate::accounts::{account_from, config_outcome, file_fault, is_config_error,
    load_accounts_config, parse_accounts_config, AccountConfig, AccountDefaults, AccountLimits,
    AccountsConfig, AccountsFile, BrowserInstanceConfig, CooldownConfig, LegacyAccountConfig,
    PartialAccountLimits, ProfileFacts, RawAccountConfig, RoutingConfig, RoutingStrategy,
    LEGACY_ACCOUNT_ID};
use crate::browser_pool::{health_json, BrowserHealth, BrowserLoginState};
use crate::error::{BridgeError, ErrorKind, Fault};
use crate::json::{append_value, field_models, models, no_fields, no_values, put, texts_model, Json,
    JsonModel};
use crate::paths::{join_path, joined_path};
use crate::security::workspace::{scope_models, ScopeModel, WorkspaceMux, WorkspaceScope};
use crate::shelf::{find_slot, slot_value, Slot};
use crate::task_state::LifecycleSeen;
use crate::text::{decimal, decimal_of, join, joined, no_texts, opt_text, push_text, same_text,
    texts};
use vstd::prelude::*;

verus! {

pub const PENDING_ACCOUNTS_FILE: &'static str = "accounts.pending.json";

/// An account that is being brought in.
#[derive(Debug, PartialEq, Eq)]
pub struct OnboardingAccount {
    pub id: String,
    pub instance: String,
    pub user_data_dir: String,
    pub cdp_endpoint: String,
    pub worktree: String,
}

/// The mathematical value of an [`OnboardingAccount`].
pub struct OnboardingModel {
    pub id: Seq<char>,
    pub instance: Seq<char>,
    pub user_data_dir: Seq<char>,
    pub cdp_endpoint: Seq<char>,
    pub worktree: Seq<char>,
}

impl View for OnboardingAccount {
    type V = OnboardingModel;

    open spec fn view(&self) -> OnboardingModel {
        OnboardingModel {
            id: self.id@,
            instance: self.instance@,
            user_data_dir: self.user_data_dir@,
            cdp_endpoint: self.cdp_endpoint@,
            worktree: self.worktree@,
        }
    }
}

/// The file of a configuration that is not live yet.
pub fn pending_accounts_path(bridge_dir: &str) -> (r: String)
    ensures
        r@ == joined_path(bridge_dir@, PENDING_ACCOUNTS_FILE@),
{
    join_path(bridge_dir, PENDING_ACCOUNTS_FILE)
}

/// Why the account at a place has no DevTools port.
pub open spec fn port_fault(start: u16, index: int) -> Option<Seq<char>> {
    if index > u16::MAX {
        Some("too many accounts for CDP port assignment"@)
    } else if start + index > u16::MAX {
        Some("CDP port range overflows u16"@)
    } else {
        None
    }
}

/// The account at a place: it has a browser of its own, with its own profile and its own
/// port.
pub open spec fn onboarding_account(
    bridge_dir: Seq<char>,
    id: Seq<char>,
    port: int,
    worktree: Seq<char>,
) -> OnboardingModel {
    OnboardingModel {
        id,
        instance: "chatgpt-"@ + id,
        user_data_dir: joined_path(joined_path(bridge_dir, "browser-profiles"@), id),
        cdp_endpoint: "http://127.0.0.1:"@ + decimal(port as nat),
        worktree,
    }
}

/// The first account for which there is no port.
pub open spec fn ports_fault(start: u16, count: int, from: int) -> Option<Seq<char>>
    decreases count - from,
{
    if from < 0 || from >= count {
        None
    } else if port_fault(start, from) is Some {
        port_fault(start, from)
    } else {
        ports_fault(start, count, from + 1)
    }
}

fn precondition(message: &str) -> (r: BridgeError)
    ensures
        r@ == (Fault { kind: ErrorKind::Precondition, detail: message@ }),
{
    BridgeError::Precondition(message.to_owned())
}

/// The accounts that are brought in; their DevTools ports follow each other.
pub fn onboarding_accounts(
    bridge_dir: &str,
    account_ids: &Vec<String>,
    cdp_start_port: u16,
    worktree: &str,
) -> (r: Result<Vec<OnboardingAccount>, BridgeError>)
    ensures
        match r {
            Ok(v) => {
                &&& ports_fault(cdp_start_port, account_ids@.len() as int, 0) is None
                &&& v@.len() == account_ids@.len()
                &&& forall|i: int|
                    0 <= i < v@.len() ==> (#[trigger] v@[i])@ == onboarding_account(
                        bridge_dir@,
                        account_ids@[i]@,
                        cdp_start_port + i,
                        worktree@,
                    )
            },
            Err(e) => ports_fault(cdp_start_port, account_ids@.len() as int, 0) is Some && e@ == (
            Fault {
                kind: ErrorKind::Precondition,
                detail: ports_fault(cdp_start_port, account_ids@.len() as int, 0)->0,
            }),
        },
{
    let profiles = join_path(bridge_dir, "browser-profiles");
    let mut out: Vec<OnboardingAccount> = Vec::new();
    let mut i: usize = 0;
    while i < account_ids.len()
        invariant
            i <= account_ids@.len(),
            profiles@ == joined_path(bridge_dir@, "browser-profiles"@),
            out@.len() == i,
            ports_fault(cdp_start_port, account_ids@.len() as int, 0) == ports_fault(
                cdp_start_port,
                account_ids@.len() as int,
                i as int,
            ),
            forall|j: int|
                0 <= j < i ==> (#[trigger] out@[j])@ == onboarding_account(
                    bridge_dir@,
                    account_ids@[j]@,
                    cdp_start_port + j,
                    worktree@,
                ),
        decreases account_ids@.len() - i,
    {
        if i > 65535 {
            return Err(precondition("too many accounts for CDP port assignment"));
        }
        let port: u64 = cdp_start_port as u64 + i as u64;
        if port > 65535 {
            return Err(precondition("CDP port range overflows u16"));
        }
        let id = account_ids[i].as_str();
        out.push(
            OnboardingAccount {
                id: id.to_owned(),
                instance: "chatgpt-".to_owned().concat(id),
                user_data_dir: join_path(profiles.as_str(), id),
                cdp_endpoint: "http://127.0.0.1:".to_owned().concat(decimal_of(port).as_str()),
                worktree: worktree.to_owned(),
            },
        );
        i += 1;
    }
    Ok(out)
}

/// The entry of an account in the configuration.
pub open spec fn is_entry(raw: RawAccountConfig, a: OnboardingModel) -> bool {
    &&& raw.id@ == a.id
    &&& raw.enabled
    &&& !raw.draining
    &&& raw.limits.window_seconds is None
    &&& raw.limits.max_dispatches is None
    &&& raw.limits.max_active_workers is None
    &&& raw.browser.driver is None
    &&& raw.browser.instance@ == a.instance
    &&& opt_text(raw.browser.user_data_dir) == Some(a.user_data_dir)
    &&& opt_text(raw.browser.cdp_endpoint) == Some(a.cdp_endpoint)
    &&& raw.browser.worktree@ == a.worktree
}

pub open spec fn usual_routing() -> RoutingConfig {
    RoutingConfig {
        strategy: RoutingStrategy::RoundRobin,
        reservation_ttl_seconds: 120,
        selection_failure_backoff_seconds: 30,
    }
}

pub open spec fn usual_defaults() -> AccountDefaults {
    AccountDefaults {
        limits: AccountLimits { window_seconds: 3600, max_dispatches: 12, max_active_workers: 3 },
        cooldown: CooldownConfig { unknown_rate_limit_seconds: 900, delivery_failure_seconds: 30 },
    }
}

/// A configuration of some accounts, with the usual routing, limits and cooldowns.
pub open spec fn is_candidate(f: AccountsFile, accounts: Seq<OnboardingAccount>) -> bool {
    &&& f.version == 1
    &&& f.routing == usual_routing()
    &&& f.defaults == usual_defaults()
    &&& f.accounts@.len() == accounts.len()
    &&& forall|i: int|
        0 <= i < accounts.len() ==> is_entry(#[trigger] f.accounts@[i], accounts[i]@)
}

fn candidate_file(accounts: &Vec<OnboardingAccount>) -> (r: AccountsFile)
    ensures
        is_candidate(r, accounts@),
{
    let mut list: Vec<RawAccountConfig> = Vec::new();
    let mut i: usize = 0;
    while i < accounts.len()
        invariant
            i <= accounts@.len(),
            list@.len() == i,
            forall|j: int| 0 <= j < i ==> is_entry(#[trigger] list@[j], accounts@[j]@),
        decreases accounts@.len() - i,
    {
        let a = &accounts[i];
        list.push(
            RawAccountConfig {
                id: a.id.clone(),
                enabled: true,
                draining: false,
                limits: PartialAccountLimits::default(),
                browser: BrowserInstanceConfig {
                    driver: None,
                    instance: a.instance.clone(),
                    user_data_dir: Some(a.user_data_dir.clone()),
                    cdp_endpoint: Some(a.cdp_endpoint.clone()),
                    worktree: a.worktree.clone(),
                },
            },
        );
        i += 1;
    }
    AccountsFile {
        version: 1,
        routing: RoutingConfig::default(),
        defaults: AccountDefaults {
            limits: AccountLimits::default(),
            cooldown: CooldownConfig::default(),
        },
        accounts: list,
    }
}

/// The JSON of an account in the configuration file.
pub open spec fn entry_json(a: OnboardingModel) -> JsonModel {
    JsonModel::Object(
        seq![
            ("id"@, JsonModel::Text(a.id)),
            ("enabled"@, JsonModel::Bool(true)),
            ("draining"@, JsonModel::Bool(false)),
            (
                "browser"@,
                JsonModel::Object(
                    seq![
                        ("instance"@, JsonModel::Text(a.instance)),
                        ("user_data_dir"@, JsonModel::Text(a.user_data_dir)),
                        ("cdp_endpoint"@, JsonModel::Text(a.cdp_endpoint)),
                        ("worktree"@, JsonModel::Text(a.worktree)),
                    ],
                ),
            ),
        ],
    )
}

pub open spec fn usual_routing_json() -> JsonModel {
    JsonModel::Object(
        seq![
            ("strategy"@, JsonModel::Text("round_robin"@)),
            ("reservation_ttl_seconds"@, JsonModel::Unsigned(120)),
            ("selection_failure_backoff_seconds"@, JsonModel::Unsigned(30)),
        ],
    )
}

pub open spec fn usual_defaults_json() -> JsonModel {
    JsonModel::Object(
        seq![
            (
                "limits"@,
                JsonModel::Object(
                    seq![
                        ("window_seconds"@, JsonModel::Unsigned(3600)),
                        ("max_dispatches"@, JsonModel::Unsigned(12)),
                        ("max_active_workers"@, JsonModel::Unsigned(3)),
                    ],
                ),
            ),
            (
                "cooldown"@,
                JsonModel::Object(
                    seq![
                        ("unknown_rate_limit_seconds"@, JsonModel::Unsigned(900)),
                        ("delivery_failure_seconds"@, JsonModel::Unsigned(30)),
                    ],
                ),
            ),
        ],
    )
}

/// The JSON of a configuration file of some accounts.
pub open spec fn candidate_json(accounts: Seq<OnboardingAccount>) -> JsonModel {
    JsonModel::Object(
        seq![
            ("version"@, JsonModel::Unsigned(1)),
            ("routing"@, usual_routing_json()),
            ("defaults"@, usual_defaults_json()),
            (
                "accounts"@,
                JsonModel::Array(Seq::new(accounts.len(), |i: int| entry_json(accounts[i]@))),
            ),
        ],
    )
}

fn entry_value(a: &OnboardingAccount) -> (r: Json)
    ensures
        r.model() == entry_json(a@),
{
    let mut b = no_fields();
    put(&mut b, "instance", Json::text(a.instance.as_str()));
    put(&mut b, "user_data_dir", Json::text(a.user_data_dir.as_str()));
    put(&mut b, "cdp_endpoint", Json::text(a.cdp_endpoint.as_str()));
    put(&mut b, "worktree", Json::text(a.worktree.as_str()));
    assert(field_models(b@) =~= seq![
        ("instance"@, JsonModel::Text(a@.instance)),
        ("user_data_dir"@, JsonModel::Text(a@.user_data_dir)),
        ("cdp_endpoint"@, JsonModel::Text(a@.cdp_endpoint)),
        ("worktree"@, JsonModel::Text(a@.worktree)),
    ]);
    let mut f = no_fields();
    put(&mut f, "id", Json::text(a.id.as_str()));
    put(&mut f, "enabled", Json::Bool(true));
    put(&mut f, "draining", Json::Bool(false));
    put(&mut f, "browser", Json::Object(b));
    assert(field_models(f@) =~= entry_json(a@)->Object_0);
    Json::Object(f)
}

fn usual_routing_value() -> (r: Json)
    ensures
        r.model() == usual_routing_json(),
{
    let mut f = no_fields();
    put(&mut f, "strategy", Json::text("round_robin"));
    put(&mut f, "reservation_ttl_seconds", Json::Unsigned(120));
    put(&mut f, "selection_failure_backoff_seconds", Json::Unsigned(30));
    assert(field_models(f@) =~= usual_routing_json()->Object_0);
    Json::Object(f)
}

fn usual_defaults_value() -> (r: Json)
    ensures
        r.model() == usual_defaults_json(),
{
    let mut l = no_fields();
    put(&mut l, "window_seconds", Json::Unsigned(3600));
    put(&mut l, "max_dispatches", Json::Unsigned(12));
    put(&mut l, "max_active_workers", Json::Unsigned(3));
    assert(field_models(l@) =~= seq![
        ("window_seconds"@, JsonModel::Unsigned(3600)),
        ("max_dispatches"@, JsonModel::Unsigned(12)),
        ("max_active_workers"@, JsonModel::Unsigned(3)),
    ]);
    let mut c = no_fields();
    put(&mut c, "unknown_rate_limit_seconds", Json::Unsigned(900));
    put(&mut c, "delivery_failure_seconds", Json::Unsigned(30));
    assert(field_models(c@) =~= seq![
        ("unknown_rate_limit_seconds"@, JsonModel::Unsigned(900)),
        ("delivery_failure_seconds"@, JsonModel::Unsigned(30)),
    ]);
    let mut f = no_fields();
    put(&mut f, "limits", Json::Object(l));
    put(&mut f, "cooldown", Json::Object(c));
    assert(field_models(f@) =~= usual_defaults_json()->Object_0);
    Json::Object(f)
}

/// The JSON of a configuration file of some accounts.
pub fn candidate_value(accounts: &Vec<OnboardingAccount>) -> (r: Json)
    ensures
        r.model() == candidate_json(accounts@),
{
    let mut list = no_values();
    let mut i: usize = 0;
    while i < accounts.len()
        invariant
            i <= accounts@.len(),
            models(list@) =~= Seq::new(i as nat, |j: int| entry_json(accounts@[j]@)),
        decreases accounts@.len() - i,
    {
        append_value(&mut list, entry_value(&accounts[i]));
        i += 1;
    }
    let mut f = no_fields();
    put(&mut f, "version", Json::Unsigned(1));
    put(&mut f, "routing", usual_routing_value());
    put(&mut f, "defaults", usual_defaults_value());
    put(&mut f, "accounts", Json::Array(list));
    assert(field_models(f@) =~= candidate_json(accounts@)->Object_0);
    Json::Object(f)
}

/// Why no configuration can be prepared before anything of it is known.
pub open spec fn prepare_fault(
    bridge_dir: Seq<char>,
    count: int,
    start: u16,
    live_exists: bool,
    pending_exists: bool,
    replace_pending: bool,
) -> Option<Seq<char>> {
    if count == 0 {
        Some("at least one --account is required"@)
    } else if live_exists {
        Some("accounts.json already exists; onboarding only creates an initial configuration"@)
    } else if pending_exists && !replace_pending {
        Some(
            "pending onboarding already exists at "@ + joined_path(
                bridge_dir,
                PENDING_ACCOUNTS_FILE@,
            ) + "; inspect it or pass --replace-pending"@,
        )
    } else {
        ports_fault(start, count, 0)
    }
}

/// A configuration that was prepared, and the JSON that its file holds.
#[derive(Debug)]
pub struct PendingConfig {
    pub config: AccountsConfig,
    pub content: Json,
}

/// Prepares a configuration of some accounts. `live_exists` and `pending_exists` say
/// which configuration files there are; `facts` is what the file system says of the
/// accounts' profile directories.
pub fn prepare_pending_accounts_config(
    bridge_dir: &str,
    mount_root: &str,
    account_ids: &Vec<String>,
    cdp_start_port: u16,
    worktree: &str,
    replace_pending: bool,
    live_exists: bool,
    pending_exists: bool,
    facts: &Vec<ProfileFacts>,
) -> (r: Result<PendingConfig, BridgeError>)
    requires
        facts@.len() == account_ids@.len(),
    ensures
        ({
            let fault = prepare_fault(
                bridge_dir@,
                account_ids@.len() as int,
                cdp_start_port,
                live_exists,
                pending_exists,
                replace_pending,
            );
            if fault is Some {
                r is Err && r->Err_0@ == (Fault {
                    kind: ErrorKind::Precondition,
                    detail: fault->0,
                })
            } else {
                exists|accounts: Seq<OnboardingAccount>, f: AccountsFile|
                    {
                        &&& accounts.len() == account_ids@.len()
                        &&& forall|i: int|
                            0 <= i < accounts.len() ==> (#[trigger] accounts[i])@
                                == onboarding_account(
                                bridge_dir@,
                                account_ids@[i]@,
                                cdp_start_port + i,
                                worktree@,
                            )
                        &&& #[trigger] is_candidate(f, accounts)
                        &&& match r {
                            Err(e) => {
                                let m = file_fault(f, facts@, bridge_dir@, mount_root@);
                                m is Some && is_config_error(e, m->0)
                            },
                            Ok(p) => {
                                &&& file_fault(f, facts@, bridge_dir@, mount_root@) is None
                                &&& p.content.model() == candidate_json(accounts)
                                &&& p.config.wf()
                                &&& p.config.version == 1
                                &&& p.config.routing == usual_routing()
                                &&& p.config.defaults == usual_defaults()
                                &&& p.config.accounts@.len() == accounts.len()
                                &&& forall|i: int|
                                    0 <= i < accounts.len() ==> account_from(
                                        #[trigger] p.config.accounts@[i],
                                        f.accounts@[i],
                                        usual_defaults().limits,
                                    )
                            },
                        }
                    }
            }
        }),
{
    if account_ids.len() == 0 {
        return Err(precondition("at least one --account is required"));
    }
    if live_exists {
        return Err(
            precondition(
                "accounts.json already exists; onboarding only creates an initial configuration",
            ),
        );
    }
    if pending_exists && !replace_pending {
        return Err(
            precondition(
                "pending onboarding already exists at ".to_owned().concat(
                    pending_accounts_path(bridge_dir).as_str(),
                ).concat("; inspect it or pass --replace-pending").as_str(),
            ),
        );
    }
    let accounts = match onboarding_accounts(bridge_dir, account_ids, cdp_start_port, worktree) {
        Ok(v) => v,
        Err(e) => {
            return Err(e);
        },
    };
    let file = candidate_file(&accounts);
    assert(is_candidate(file, accounts@));
    match parse_accounts_config(&file, bridge_dir, mount_root, facts) {
        Err(e) => Err(e),
        Ok(config) => Ok(PendingConfig { config, content: candidate_value(&accounts) }),
    }
}

pub open spec fn no_pending_text(bridge_dir: Seq<char>) -> Seq<char> {
    "no pending multi-account onboarding exists at "@ + joined_path(
        bridge_dir,
        PENDING_ACCOUNTS_FILE@,
    )
}

/// The configuration that was prepared.
pub fn load_pending_accounts_config(
    file: Option<&AccountsFile>,
    bridge_dir: &str,
    mount_root: &str,
    facts: &Vec<ProfileFacts>,
    legacy: LegacyAccountConfig,
) -> (r: Result<AccountsConfig, BridgeError>)
    requires
        file is Some ==> facts@.len() == file->0.accounts@.len(),
    ensures
        if file is None {
            r is Err && r->Err_0@ == (Fault {
                kind: ErrorKind::Precondition,
                detail: no_pending_text(bridge_dir@),
            })
        } else {
            config_outcome(file, bridge_dir@, mount_root@, facts@, legacy, r)
        },
{
    if file.is_none() {
        return Err(
            precondition(
                "no pending multi-account onboarding exists at ".to_owned().concat(
                    pending_accounts_path(bridge_dir).as_str(),
                ).as_str(),
            ),
        );
    }
    load_accounts_config(file, bridge_dir, mount_root, facts, legacy)
}

/// Why a scope of the account that was there before any was configured is in the way.
#[derive(Clone, Copy, Debug, PartialEq, Eq, Structural)]
pub enum LegacyScopeBlockerKind {
    /// Its work goes on.
    Active,
    /// Its page is kept.
    Retained,
    /// Nothing sure is known of its work.
    Unknown,
}

pub open spec fn kind_name(kind: LegacyScopeBlockerKind) -> Seq<char> {
    match kind {
        LegacyScopeBlockerKind::Active => "Active"@,
        LegacyScopeBlockerKind::Retained => "Retained"@,
        LegacyScopeBlockerKind::Unknown => "Unknown"@,
    }
}

impl LegacyScopeBlockerKind {
    pub fn name(self) -> (r: &'static str)
        ensures
            r@ == kind_name(self),
    {
        match self {
            LegacyScopeBlockerKind::Active => "Active",
            LegacyScopeBlockerKind::Retained => "Retained",
            LegacyScopeBlockerKind::Unknown => "Unknown",
        }
    }
}

/// A scope that is in the way of a configuration.
#[derive(Debug, PartialEq, Eq)]
pub struct LegacyScopeBlocker {
    pub scope_id: String,
    pub kind: LegacyScopeBlockerKind,
}

/// Why a scope is in the way, if it is: a scope of which no record was looked at counts
/// as unknown.
pub open spec fn blocker_kind(scope: ScopeModel, seen: Option<LifecycleSeen>) -> Option<
    LegacyScopeBlockerKind,
> {
    if scope.account() != LEGACY_ACCOUNT_ID@ {
        None
    } else {
        match seen {
            Some(LifecycleSeen::Found(l)) => if l.session_retained {
                Some(LegacyScopeBlockerKind::Retained)
            } else if l.terminal_state is None {
                Some(LegacyScopeBlockerKind::Active)
            } else {
                None
            },
            Some(LifecycleSeen::Absent) => if scope.page() is Some {
                Some(LegacyScopeBlockerKind::Unknown)
            } else {
                None
            },
            _ => Some(LegacyScopeBlockerKind::Unknown),
        }
    }
}

/// The scopes among some that are in the way, or why one of them cannot be resolved.
pub open spec fn blockers(
    mux: WorkspaceMux,
    seen: Seq<Slot<LifecycleSeen>>,
    scopes: Seq<ScopeModel>,
) -> Result<Seq<(Seq<char>, LegacyScopeBlockerKind)>, Fault>
    decreases scopes.len(),
{
    if scopes.len() == 0 {
        Ok(Seq::empty())
    } else {
        let s = scopes.last();
        match blockers(mux, seen, scopes.drop_last()) {
            Err(f) => Err(f),
            Ok(before) => if s.account() == LEGACY_ACCOUNT_ID@ && mux.found(s.scope_id) is Err {
                Err(mux.found(s.scope_id)->Err_0)
            } else {
                match blocker_kind(s, slot_value(seen, s.scope_id)) {
                    Some(k) => Ok(before.push((s.scope_id, k))),
                    None => Ok(before),
                }
            },
        }
    }
}

/// The scopes that are in the way of a configuration.
pub open spec fn all_blockers(mux: WorkspaceMux, seen: Seq<Slot<LifecycleSeen>>) -> Result<
    Seq<(Seq<char>, LegacyScopeBlockerKind)>,
    Fault,
> {
    match mux.listed(true) {
        Err(f) => Err(f),
        Ok(scopes) => blockers(mux, seen, scopes),
    }
}

pub open spec fn blocker_models(v: Seq<LegacyScopeBlocker>) -> Seq<(Seq<char>, LegacyScopeBlockerKind)> {
    v.map_values(|b: LegacyScopeBlocker| (b.scope_id@, b.kind))
}

fn kind_of_blocker(scope: &WorkspaceScope, seen: &Vec<Slot<LifecycleSeen>>) -> (r: Option<
    LegacyScopeBlockerKind,
>)
    requires
        scope@.account() == LEGACY_ACCOUNT_ID@,
    ensures
        r == blocker_kind(scope@, slot_value(seen@, scope.scope_id@)),
{
    let at = find_slot(seen, scope.scope_id.as_str());
    if at == seen.len() {
        return Some(LegacyScopeBlockerKind::Unknown);
    }
    match &seen[at].value {
        LifecycleSeen::Found(l) => if l.session_retained {
            Some(LegacyScopeBlockerKind::Retained)
        } else if l.terminal_state.is_none() {
            Some(LegacyScopeBlockerKind::Active)
        } else {
            None
        },
        LifecycleSeen::Absent => if scope.page_id().is_some() {
            Some(LegacyScopeBlockerKind::Unknown)
        } else {
            None
        },
        _ => Some(LegacyScopeBlockerKind::Unknown),
    }
}

proof fn lemma_blockers_fail(
    mux: WorkspaceMux,
    seen: Seq<Slot<LifecycleSeen>>,
    scopes: Seq<ScopeModel>,
    upto: int,
    f: Fault,
)
    requires
        0 <= upto <= scopes.len(),
        blockers(mux, seen, scopes.subrange(0, upto)) == Err::<
            Seq<(Seq<char>, LegacyScopeBlockerKind)>,
            Fault,
        >(f),
    ensures
        blockers(mux, seen, scopes) == Err::<Seq<(Seq<char>, LegacyScopeBlockerKind)>, Fault>(f),
    decreases scopes.len() - upto,
{
    if upto < scopes.len() {
        assert(scopes.subrange(0, upto + 1).drop_last() =~= scopes.subrange(0, upto));
        lemma_blockers_fail(mux, seen, scopes, upto + 1, f);
    } else {
        assert(scopes.subrange(0, upto) =~= scopes);
    }
}

/// The scopes that are in the way of a configuration. `seen` is what a look at the
/// records of the scopes found.
pub fn legacy_scope_blockers(mux: &WorkspaceMux, seen: &Vec<Slot<LifecycleSeen>>) -> (r: Result<
    Vec<LegacyScopeBlocker>,
    BridgeError,
>)
    ensures
        match r {
            Ok(v) => all_blockers(*mux, seen@) == Ok::<
                Seq<(Seq<char>, LegacyScopeBlockerKind)>,
                Fault,
            >(blocker_models(v@)),
            Err(e) => all_blockers(*mux, seen@) == Err::<
                Seq<(Seq<char>, LegacyScopeBlockerKind)>,
                Fault,
            >(e@),
        },
{
    let scopes = match mux.list_scopes_strict() {
        Ok(v) => v,
        Err(e) => {
            return Err(e);
        },
    };
    let ghost all = scope_models(scopes@);
    let mut out: Vec<LegacyScopeBlocker> = Vec::new();
    let mut i: usize = 0;
    assert(all.subrange(0, 0) =~= Seq::empty());
    assert(blocker_models(out@) =~= Seq::empty());
    while i < scopes.len()
        invariant
            i <= scopes@.len(),
            all == scope_models(scopes@),
            mux.listed(true) == Ok::<Seq<ScopeModel>, Fault>(all),
            blockers(*mux, seen@, all.subrange(0, i as int)) == Ok::<
                Seq<(Seq<char>, LegacyScopeBlockerKind)>,
                Fault,
            >(blocker_models(out@)),
        decreases scopes@.len() - i,
    {
        let ghost next = all.subrange(0, i + 1);
        assert(next.drop_last() =~= all.subrange(0, i as int));
        assert(next.last() == scopes@[i as int]@);
        if same_text(scopes[i].account_id(), LEGACY_ACCOUNT_ID) {
            if let Err(e) = mux.resolve(scopes[i].scope_id.as_str()) {
                proof {
                    lemma_blockers_fail(*mux, seen@, all, i + 1, e@);
                }
                return Err(e);
            }
            if let Some(kind) = kind_of_blocker(&scopes[i], seen) {
                let ghost before = blocker_models(out@);
                let ghost pair = (scopes@[i as int].scope_id@, kind);
                out.push(LegacyScopeBlocker { scope_id: scopes[i].scope_id.clone(), kind });
                assert(blocker_models(out@) =~= before.push(pair));
            }
        }
        i += 1;
    }
    assert(all.subrange(0, all.len() as int) =~= all);
    Ok(out)
}

/// The ids of some scopes.
pub open spec fn blocker_ids(v: Seq<(Seq<char>, LegacyScopeBlockerKind)>) -> Seq<Seq<char>> {
    v.map_values(|b: (Seq<char>, LegacyScopeBlockerKind)| b.0)
}

/// The ids of the scopes that are in the way of a configuration.
pub fn activation_blocking_scope_ids(mux: &WorkspaceMux, seen: &Vec<Slot<LifecycleSeen>>) -> (r: Result<
    Vec<String>,
    BridgeError,
>)
    ensures
        match r {
            Ok(v) => all_blockers(*mux, seen@) is Ok && texts(v@) == blocker_ids(
                all_blockers(*mux, seen@)->Ok_0,
            ),
            Err(e) => all_blockers(*mux, seen@) == Err::<
                Seq<(Seq<char>, LegacyScopeBlockerKind)>,
                Fault,
            >(e@),
        },
{
    let list = match legacy_scope_blockers(mux, seen) {
        Ok(v) => v,
        Err(e) => {
            return Err(e);
        },
    };
    let mut out = no_texts();
    let mut i: usize = 0;
    while i < list.len()
        invariant
            i <= list@.len(),
            texts(out@).len() == i,
            forall|j: int| 0 <= j < i ==> #[trigger] texts(out@)[j] == list@[j].scope_id@,
        decreases list@.len() - i,
    {
        push_text(&mut out, list[i].scope_id.as_str());
        i += 1;
    }
    assert(texts(out@) =~= blocker_ids(blocker_models(list@)));
    Ok(out)
}

/// What is said of the scopes that are in the way.
pub open spec fn blocker_texts(v: Seq<(Seq<char>, LegacyScopeBlockerKind)>) -> Seq<Seq<char>> {
    v.map_values(
        |b: (Seq<char>, LegacyScopeBlockerKind)| b.0 + " ("@ + kind_name(b.1) + ")"@,
    )
}

fn texts_of_blockers(list: &Vec<LegacyScopeBlocker>) -> (r: Vec<String>)
    ensures
        texts(r@) == blocker_texts(blocker_models(list@)),
{
    let mut out = no_texts();
    let mut i: usize = 0;
    while i < list.len()
        invariant
            i <= list@.len(),
            texts(out@).len() == i,
            forall|j: int|
                0 <= j < i ==> #[trigger] texts(out@)[j] == list@[j].scope_id@ + " ("@ + kind_name(
                    list@[j].kind,
                ) + ")"@,
        decreases list@.len() - i,
    {
        let t = list[i].scope_id.clone().concat(" (").concat(list[i].kind.name()).concat(")");
        push_text(&mut out, t.as_str());
        i += 1;
    }
    assert(texts(out@) =~= blocker_texts(blocker_models(list@)));
    out
}

/// The accounts and instances that are logged in, in order.
pub open spec fn ready_accounts(health: Seq<BrowserHealth>) -> Seq<(Seq<char>, Seq<char>)>
    decreases health.len(),
{
    if health.len() == 0 {
        Seq::empty()
    } else {
        let before = ready_accounts(health.drop_last());
        if health.last().login_state == BrowserLoginState::Ready {
            before.push((health.last().account_id@, health.last().instance@))
        } else {
            before
        }
    }
}

/// The accounts and instances of a configuration, in order.
pub open spec fn expected_accounts(config: AccountsConfig) -> Seq<(Seq<char>, Seq<char>)> {
    config.accounts@.map_values(
        |a: crate::accounts::AccountConfig| (a.id@, a.browser.instance@),
    )
}

pub open spec fn firsts(v: Seq<(Seq<char>, Seq<char>)>) -> Seq<Seq<char>> {
    v.map_values(|p: (Seq<char>, Seq<char>)| p.0)
}

pub open spec fn not_ready_text(health: Seq<BrowserHealth>) -> Seq<char> {
    "cannot activate multi-account routing until every pending account is logged in; ready accounts: "@
        + joined(firsts(ready_accounts(health)), ", "@)
}

fn check_ready(config: &AccountsConfig, health: &Vec<BrowserHealth>) -> (r: Result<(), BridgeError>)
    ensures
        match r {
            Ok(_) => ready_accounts(health@) == expected_accounts(*config),
            Err(e) => ready_accounts(health@) != expected_accounts(*config) && e@ == (Fault {
                kind: ErrorKind::Precondition,
                detail: not_ready_text(health@),
            }),
        },
{
    let mut ids = no_texts();
    let mut instances = no_texts();
    let mut i: usize = 0;
    while i < health.len()
        invariant
            i <= health@.len(),
            texts(ids@).len() == ready_accounts(health@.subrange(0, i as int)).len(),
            texts(instances@).len() == ready_accounts(health@.subrange(0, i as int)).len(),
            forall|j: int|
                0 <= j < texts(ids@).len() ==> (
                    #[trigger] texts(ids@)[j],
                    texts(instances@)[j],
                ) == ready_accounts(health@.subrange(0, i as int))[j],
        decreases health@.len() - i,
    {
        assert(health@.subrange(0, i + 1).drop_last() =~= health@.subrange(0, i as int));
        if health[i].login_state == BrowserLoginState::Ready {
            push_text(&mut ids, health[i].account_id.as_str());
            push_text(&mut instances, health[i].instance.as_str());
        }
        i += 1;
    }
    assert(health@.subrange(0, health@.len() as int) =~= health@);
    let ghost ready = ready_accounts(health@);
    let ghost expected = expected_accounts(*config);
    assert(texts(ids@) =~= firsts(ready));
    assert(ids@.len() == texts(ids@).len() && instances@.len() == texts(instances@).len());
    let mut same = ids.len() == config.accounts.len();
    let mut k: usize = 0;
    while same && k < ids.len()
        invariant
            k <= ids@.len(),
            ids@.len() == ready.len(),
            instances@.len() == ready.len(),
            expected == expected_accounts(*config),
            forall|j: int|
                0 <= j < ready.len() ==> (#[trigger] texts(ids@)[j], texts(instances@)[j])
                    == ready[j],
            same ==> ids@.len() == config.accounts@.len(),
            same ==> forall|j: int| 0 <= j < k ==> #[trigger] ready[j] == expected[j],
            !same ==> ready != expected,
        decreases ids@.len() - k + (if same { 1int } else { 0int }),
    {
        let account = &config.accounts[k];
        assert(texts(ids@)[k as int] == ids@[k as int]@);
        assert(texts(instances@)[k as int] == instances@[k as int]@);
        assert(expected[k as int] == (account.id@, account.browser.instance@));
        if same_text(ids[k].as_str(), account.id.as_str()) && same_text(
            instances[k].as_str(),
            account.browser.instance.as_str(),
        ) {
            k += 1;
        } else {
            assert(ready[k as int] != expected[k as int]);
            same = false;
        }
    }
    if same {
        assert(ready =~= expected);
        Ok(())
    } else {
        Err(
            precondition(
                "cannot activate multi-account routing until every pending account is logged in; ready accounts: ".to_owned().concat(
                join(&ids, ", ").as_str()).as_str(),
            ),
        )
    }
}

/// What is wrong with making a prepared configuration live, once it was loaded: an
/// account is not logged in where it should be, old scopes are in the way, the old
/// account holds a reservation, or a live configuration is there.
pub open spec fn activation_fault(
    config: AccountsConfig,
    mux: WorkspaceMux,
    seen: Seq<Slot<LifecycleSeen>>,
    store: AccountStateStore,
    health: Seq<BrowserHealth>,
    live_exists: bool,
    e: BridgeError,
) -> bool {
    if ready_accounts(health) != expected_accounts(config) {
        e@ == (Fault { kind: ErrorKind::Precondition, detail: not_ready_text(health) })
    } else {
        match all_blockers(mux, seen) {
            Err(f) => e@ == f,
            Ok(v) => if v.len() > 0 {
                e@ == (Fault {
                    kind: ErrorKind::Precondition,
                    detail:
                        "cannot activate multi-account routing while legacy scopes remain: "@
                        + joined(blocker_texts(v), ", "@),
                })
            } else {
                match store.loaded(LEGACY_ACCOUNT_ID@) {
                    None => store.is_load_error(LEGACY_ACCOUNT_ID@, e),
                    Some(s) => if s.reservations.len() > 0 {
                        e@ == (Fault {
                            kind: ErrorKind::Precondition,
                            detail:
                                "cannot activate multi-account routing while a legacy account reservation remains"@,
                        })
                    } else {
                        live_exists && e@ == (Fault {
                            kind: ErrorKind::Precondition,
                            detail:
                                "accounts.json already exists; refusing to overwrite active account routing"@,
                        })
                    },
                }
            },
        }
    }
}

/// A prepared configuration can be made live.
pub open spec fn can_activate(
    config: AccountsConfig,
    mux: WorkspaceMux,
    seen: Seq<Slot<LifecycleSeen>>,
    store: AccountStateStore,
    health: Seq<BrowserHealth>,
    live_exists: bool,
) -> bool {
    &&& ready_accounts(health) == expected_accounts(config)
    &&& all_blockers(mux, seen) is Ok
    &&& all_blockers(mux, seen)->Ok_0.len() == 0
    &&& store.loaded(LEGACY_ACCOUNT_ID@) is Some
    &&& store.loaded(LEGACY_ACCOUNT_ID@)->0.reservations.len() == 0
    &&& !live_exists
}

/// Whether a prepared configuration can be made live; it is made live by renaming its
/// file.
pub fn check_activation(
    config: &AccountsConfig,
    mux: &WorkspaceMux,
    seen: &Vec<Slot<LifecycleSeen>>,
    store: &AccountStateStore,
    health: &Vec<BrowserHealth>,
    live_exists: bool,
) -> (r: Result<(), BridgeError>)
    ensures
        match r {
            Ok(_) => can_activate(*config, *mux, seen@, *store, health@, live_exists),
            Err(e) => !can_activate(*config, *mux, seen@, *store, health@, live_exists)
                && activation_fault(*config, *mux, seen@, *store, health@, live_exists, e),
        },
{
    if let Err(e) = check_ready(config, health) {
        return Err(e);
    }
    let list = match legacy_scope_blockers(mux, seen) {
        Ok(v) => v,
        Err(e) => {
            return Err(e);
        },
    };
    assert(blocker_models(list@).len() == list@.len());
    if list.len() > 0 {
        return Err(
            precondition(
                "cannot activate multi-account routing while legacy scopes remain: ".to_owned().concat(
                join(&texts_of_blockers(&list), ", ").as_str()).as_str(),
            ),
        );
    }
    let state = match store.load_account(LEGACY_ACCOUNT_ID) {
        Ok(s) => s,
        Err(e) => {
            return Err(e);
        },
    };
    assert(state@.reservations.len() == state.reservations@.len());
    if state.reservations.len() > 0 {
        return Err(
            precondition(
                "cannot activate multi-account routing while a legacy account reservation remains",
            ),
        );
    }
    if live_exists {
        return Err(
            precondition(
                "accounts.json already exists; refusing to overwrite active account routing",
            ),
        );
    }
    Ok(())
}

/// The prepared configuration, where it can be made live.
pub fn activate_pending_accounts_config(
    file: Option<&AccountsFile>,
    bridge_dir: &str,
    mount_root: &str,
    facts: &Vec<ProfileFacts>,
    legacy: LegacyAccountConfig,
    mux: &WorkspaceMux,
    seen: &Vec<Slot<LifecycleSeen>>,
    store: &AccountStateStore,
    health: &Vec<BrowserHealth>,
    live_exists: bool,
) -> (r: Result<AccountsConfig, BridgeError>)
    requires
        file is Some ==> facts@.len() == file->0.accounts@.len(),
    ensures
        match r {
            Ok(config) => {
                &&& file is Some
                &&& config_outcome(file, bridge_dir@, mount_root@, facts@, legacy, r)
                &&& can_activate(config, *mux, seen@, *store, health@, live_exists)
            },
            Err(e) => {
                ||| file is None && e@ == (Fault {
                    kind: ErrorKind::Precondition,
                    detail: no_pending_text(bridge_dir@),
                })
                ||| file is Some && config_outcome(
                    file,
                    bridge_dir@,
                    mount_root@,
                    facts@,
                    legacy,
                    r,
                )
                ||| file is Some && exists|c: AccountsConfig|
                    {
                        &&& config_outcome(
                            file,
                            bridge_dir@,
                            mount_root@,
                            facts@,
                            legacy,
                            Ok::<AccountsConfig, BridgeError>(c),
                        )
                        &&& !can_activate(c, *mux, seen@, *store, health@, live_exists)
                        &&& #[trigger] activation_fault(
                            c,
                            *mux,
                            seen@,
                            *store,
                            health@,
                            live_exists,
                            e,
                        )
                    }
            },
        },
{
    let config = match load_pending_accounts_config(file, bridge_dir, mount_root, facts, legacy) {
        Ok(c) => c,
        Err(e) => {
            return Err(e);
        },
    };
    match check_activation(&config, mux, seen, store, health, live_exists) {
        Ok(_) => Ok(config),
        Err(e) => {
            assert(activation_fault(config, *mux, seen@, *store, health@, live_exists, e));
            Err(e)
        },
    }
}

/// Whether every account is logged in.
pub fn ready_for_activation(health: &Vec<BrowserHealth>) -> (r: bool)
    ensures
        r == all_ready(health@),
{
    let mut i: usize = 0;
    while i < health.len()
        invariant
            i <= health@.len(),
            forall|j: int|
                0 <= j < i ==> (#[trigger] health@[j]).login_state == BrowserLoginState::Ready,
        decreases health@.len() - i,
    {
        if health[i].login_state != BrowserLoginState::Ready {
            assert(health@[i as int].login_state != BrowserLoginState::Ready);
            return false;
        }
        i += 1;
    }
    true
}

/// The timeout and the pause of a wait for logins, in seconds.
pub fn wait_durations(timeout_seconds: u64, poll_seconds: u64) -> (r: Result<(u64, u64), String>)
    ensures
        match r {
            Ok(d) => timeout_seconds > 0 && poll_seconds > 0 && d == (timeout_seconds, poll_seconds),
            Err(e) => (timeout_seconds == 0 || poll_seconds == 0) && e@
                == "--timeout-seconds and --poll-seconds must both be greater than zero"@,
        },
{
    if timeout_seconds == 0 || poll_seconds == 0 {
        return Err(
            "--timeout-seconds and --poll-seconds must both be greater than zero".to_owned(),
        );
    }
    Ok((timeout_seconds, poll_seconds))
}

/// What a wait for logins does next.
#[derive(Debug, PartialEq, Eq)]
pub enum LoginWait {
    Done,
    /// Look again after this many milliseconds.
    Sleep(u64),
    TimedOut,
}

/// Decides what a wait for logins does next: the pause never goes past the end of the
/// wait.
pub fn login_wait(ready: bool, remaining_ms: u64, poll_ms: u64) -> (r: LoginWait)
    ensures
        r == (if ready {
            LoginWait::Done
        } else if remaining_ms == 0 {
            LoginWait::TimedOut
        } else if remaining_ms < poll_ms {
            LoginWait::Sleep(remaining_ms)
        } else {
            LoginWait::Sleep(poll_ms)
        }),
{
    if ready {
        LoginWait::Done
    } else if remaining_ms == 0 {
        LoginWait::TimedOut
    } else if remaining_ms < poll_ms {
        LoginWait::Sleep(remaining_ms)
    } else {
        LoginWait::Sleep(poll_ms)
    }
}

pub const WAIT_TIMED_OUT: &'static str =
    "timed out waiting for every pending account to become login-ready";

pub const CONFIRM_ACTIVATION: &'static str =
    "activation changes routing for future workers; pass --confirm after status reports every account ready";

/// A configuration goes live only where every one of its accounts is logged in, in its
/// own browser, and no scope of the old account is left in the way.
pub proof fn lemma_activation_is_safe(
    config: AccountsConfig,
    mux: WorkspaceMux,
    seen: Seq<Slot<LifecycleSeen>>,
    store: AccountStateStore,
    health: Seq<BrowserHealth>,
    live_exists: bool,
    i: int,
)
    requires
        can_activate(config, mux, seen, store, health, live_exists),
        0 <= i < config.accounts@.len(),
    ensures
        exists|k: int|
            0 <= k < health.len() && (#[trigger] health[k]).login_state == BrowserLoginState::Ready
                && health[k].account_id@ == config.accounts@[i].id@ && health[k].instance@
                == config.accounts@[i].browser.instance@,
{
    assert(ready_accounts(health)[i] == expected_accounts(config)[i]);
    lemma_ready_is_seen(health, i);
}

proof fn lemma_ready_is_seen(health: Seq<BrowserHealth>, i: int)
    requires
        0 <= i < ready_accounts(health).len(),
    ensures
        exists|k: int|
            0 <= k < health.len() && (#[trigger] health[k]).login_state == BrowserLoginState::Ready && (
                health[k].account_id@,
                health[k].instance@,
            ) == ready_accounts(health)[i],
    decreases health.len(),
{
    if health.len() > 0 {
        let before = health.drop_last();
        if i < ready_accounts(before).len() {
            lemma_ready_is_seen(before, i);
            let k = choose|k: int|
                0 <= k < before.len() && (#[trigger] before[k]).login_state
                    == BrowserLoginState::Ready && (before[k].account_id@, before[k].instance@)
                    == ready_accounts(before)[i];
            assert(health[k] == before[k]);
        } else {
            assert(health[health.len() - 1] == health.last());
        }
    }
}

/// A page that was opened for the login of an account.
#[derive(Debug)]
pub struct PreparedAccount {
    pub account_id: String,
    pub browser_instance: String,
    pub browser_page_id: String,
}

pub const LOGIN_URL: &'static str = "https://chatgpt.com";

pub const LOGIN_NEXT_STEP: &'static str =
    "Log into the intended ChatGPT account in every opened page, then run status.";

pub open spec fn prepared_json(a: PreparedAccount) -> JsonModel {
    JsonModel::Object(
        seq![
            ("account_id"@, JsonModel::Text(a.account_id@)),
            ("browser_instance"@, JsonModel::Text(a.browser_instance@)),
            ("browser_page_id"@, JsonModel::Text(a.browser_page_id@)),
            ("login_url"@, JsonModel::Text(LOGIN_URL@)),
        ],
    )
}

/// What a preparation comes to: where the configuration waits, and the pages in which
/// the operator logs in.
pub open spec fn prepare_json(bridge_dir: Seq<char>, accounts: Seq<PreparedAccount>) -> JsonModel {
    JsonModel::Object(
        seq![
            ("pending_config"@, JsonModel::Text(joined_path(bridge_dir, PENDING_ACCOUNTS_FILE@))),
            (
                "accounts"@,
                JsonModel::Array(accounts.map_values(|a: PreparedAccount| prepared_json(a))),
            ),
            ("next_step"@, JsonModel::Text(LOGIN_NEXT_STEP@)),
        ],
    )
}

/// What a preparation comes to.
pub fn prepare_result(bridge_dir: &str, accounts: &Vec<PreparedAccount>) -> (r: Json)
    ensures
        r.model() == prepare_json(bridge_dir@, accounts@),
{
    let ghost all = accounts@.map_values(|a: PreparedAccount| prepared_json(a));
    let mut list = no_values();
    let mut i: usize = 0;
    assert(all.subrange(0, 0) =~= Seq::empty());
    while i < accounts.len()
        invariant
            i <= accounts@.len(),
            all == accounts@.map_values(|a: PreparedAccount| prepared_json(a)),
            models(list@) == all.subrange(0, i as int),
        decreases accounts@.len() - i,
    {
        let a = &accounts[i];
        let mut f = no_fields();
        put(&mut f, "account_id", Json::text(a.account_id.as_str()));
        put(&mut f, "browser_instance", Json::text(a.browser_instance.as_str()));
        put(&mut f, "browser_page_id", Json::text(a.browser_page_id.as_str()));
        put(&mut f, "login_url", Json::text(LOGIN_URL));
        assert(field_models(f@) =~= prepared_json(*a)->Object_0);
        append_value(&mut list, Json::Object(f));
        i += 1;
        assert(models(list@) =~= all.subrange(0, i as int));
    }
    assert(all.subrange(0, all.len() as int) =~= all);
    let mut f = no_fields();
    put(&mut f, "pending_config", Json::text(pending_accounts_path(bridge_dir).as_str()));
    put(&mut f, "accounts", Json::Array(list));
    put(&mut f, "next_step", Json::text(LOGIN_NEXT_STEP));
    assert(field_models(f@) =~= prepare_json(bridge_dir@, accounts@)->Object_0);
    Json::Object(f)
}

/// Every account is logged in.
pub open spec fn all_ready(health: Seq<BrowserHealth>) -> bool {
    forall|i: int|
        0 <= i < health.len() ==> (#[trigger] health[i]).login_state == BrowserLoginState::Ready
}

/// What is known of the accounts that are being brought in.
pub open spec fn status_json(bridge_dir: Seq<char>, health: Seq<BrowserHealth>) -> JsonModel {
    JsonModel::Object(
        seq![
            ("pending_config"@, JsonModel::Text(joined_path(bridge_dir, PENDING_ACCOUNTS_FILE@))),
            (
                "accounts"@,
                JsonModel::Array(health.map_values(|h: BrowserHealth| health_json(h@))),
            ),
            ("ready_for_activation"@, JsonModel::Bool(all_ready(health))),
        ],
    )
}

/// What is known of the accounts that are being brought in.
pub fn status_result(bridge_dir: &str, health: &Vec<BrowserHealth>) -> (r: Json)
    ensures
        r.model() == status_json(bridge_dir@, health@),
{
    let ghost all = health@.map_values(|h: BrowserHealth| health_json(h@));
    let mut list = no_values();
    let mut i: usize = 0;
    assert(all.subrange(0, 0) =~= Seq::empty());
    while i < health.len()
        invariant
            i <= health@.len(),
            all == health@.map_values(|h: BrowserHealth| health_json(h@)),
            models(list@) == all.subrange(0, i as int),
        decreases health@.len() - i,
    {
        append_value(&mut list, health[i].to_json());
        i += 1;
        assert(models(list@) =~= all.subrange(0, i as int));
    }
    assert(all.subrange(0, all.len() as int) =~= all);
    let mut f = no_fields();
    put(&mut f, "pending_config", Json::text(pending_accounts_path(bridge_dir).as_str()));
    put(&mut f, "accounts", Json::Array(list));
    put(&mut f, "ready_for_activation", Json::Bool(ready_for_activation(health)));
    assert(field_models(f@) =~= status_json(bridge_dir@, health@)->Object_0);
    Json::Object(f)
}

/// What an activation comes to.
pub open spec fn activated_json(bridge_dir: Seq<char>, ids: Seq<Seq<char>>) -> JsonModel {
    JsonModel::Object(
        seq![
            ("active_config"@, JsonModel::Text(joined_path(bridge_dir, "accounts.json"@))),
            ("account_ids"@, texts_model(ids)),
        ],
    )
}

/// What an activation comes to.
pub fn activated_result(bridge_dir: &str, config: &AccountsConfig) -> (r: Json)
    ensures
        r.model() == activated_json(
            bridge_dir@,
            config.accounts@.map_values(|a: AccountConfig| a.id@),
        ),
{
    let ghost all = config.accounts@.map_values(|a: AccountConfig| a.id@);
    let mut ids = no_texts();
    let mut i: usize = 0;
    assert(all.subrange(0, 0) =~= Seq::empty());
    while i < config.accounts.len()
        invariant
            i <= config.accounts@.len(),
            all == config.accounts@.map_values(|a: AccountConfig| a.id@),
            texts(ids@) == all.subrange(0, i as int),
        decreases config.accounts@.len() - i,
    {
        push_text(&mut ids, config.accounts[i].id.as_str());
        i += 1;
        assert(texts(ids@) =~= all.subrange(0, i as int));
    }
    assert(all.subrange(0, all.len() as int) =~= all);
    let mut f = no_fields();
    put(&mut f, "active_config", Json::text(join_path(bridge_dir, "accounts.json").as_str()));
    put(&mut f, "account_ids", Json::texts(&ids));
    assert(field_models(f@) =~= activated_json(bridge_dir@, all)->Object_0);
    Json::Object(f)
}

} // verus!
