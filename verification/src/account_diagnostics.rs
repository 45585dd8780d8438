//! What can be told of the accounts: their load, their limits and their browsers.
use crate::account_state::{expiries, reservation_models, AccountHealth, AccountReservation,
    AccountRuntimeState, ReservationModel, StateModel};
use crate::accounts::{AccountConfig, AccountsConfig};
use crate::arith::{least, least_of, lesser, min_option, seconds_ms};
use crate::browser_pool::{login_name, reachability_name, BrowserHealth, BrowserLoginState,
    BrowserReachability};
use crate::error::Failure;
use crate::json::{append_value, field_models, no_fields, no_values, put, Json, JsonField,
    JsonModel};
use crate::orca::BrowserDriverKind;
use crate::router::{account_now, count_for, count_reserved_active, is_account_error,
    reserved_active, window_retry, AccountRouter, LoadModel, RouterError, WorkerLoad};
use crate::sort::{in_order, sort_items};
use crate::text::{copy_opt, opt_text};
use vstd::prelude::*;

verus! {

pub const ACCOUNT_DIAGNOSTICS_VERSION: u32 = 1;

/// Whether an account takes work and, if not, why.
#[derive(Clone, Copy, Debug, PartialEq, Eq, Structural)]
pub enum AccountRoutingState {
    Ready,
    Disabled,
    Draining,
    AuthenticationRequired,
    Degraded,
    Cooldown,
    DispatchWindowFull,
    ActiveWorkersFull,
}

/// What can be told of an account.
#[derive(Debug)]
pub struct AccountDiagnostic {
    pub account_id: String,
    pub enabled: bool,
    pub draining: bool,
    pub routing_state: AccountRoutingState,
    pub scheduler_health: AccountHealth,
    pub active_workers: usize,
    pub reserved_workers: usize,
    pub dispatches_in_window: usize,
    pub reserved_dispatches: usize,
    pub max_active_workers: usize,
    pub max_dispatches: usize,
    pub window_seconds: u64,
    pub next_slot_ms: Option<u64>,
    pub cooldown_until_ms: Option<u64>,
    pub cooldown_reason: Option<String>,
    pub browser_instance: String,
    pub browser_reachability: BrowserReachability,
    pub browser_login_state: BrowserLoginState,
}

/// What can be told of all accounts.
#[derive(Debug)]
pub struct AccountDiagnosticsReport {
    pub version: u32,
    pub generated_ms: u64,
    pub accounts: Vec<AccountDiagnostic>,
}

/// The cooldown of an account that is not over.
pub open spec fn cooldown_left(state: StateModel, now_ms: u64) -> Option<u64> {
    match state.cooldown_until_ms {
        Some(until) => if until > now_ms {
            Some(until)
        } else {
            None
        },
        None => None,
    }
}

/// The dispatches and reservations of an account fill its window.
pub open spec fn window_full(account: AccountConfig, state: StateModel) -> bool {
    state.dispatches_ms.len() + state.reservations.len() >= account.limits.max_dispatches
}

/// The workers and unclaimed reservations of an account fill its places.
pub open spec fn workers_full(account: AccountConfig, state: StateModel, load: LoadModel) -> bool {
    count_for(load.counts, account.id@) + reserved_active(state.reservations, load.scope_ids)
        >= account.limits.max_active_workers
}

/// Whether an account takes work and, if not, the first reason in this order.
pub open spec fn routing_state(
    account: AccountConfig,
    state: StateModel,
    load: LoadModel,
    now_ms: u64,
) -> AccountRoutingState {
    if !account.enabled {
        AccountRoutingState::Disabled
    } else if account.draining {
        AccountRoutingState::Draining
    } else if state.health == AccountHealth::AuthRequired {
        AccountRoutingState::AuthenticationRequired
    } else if state.health == AccountHealth::Degraded {
        AccountRoutingState::Degraded
    } else if cooldown_left(state, now_ms) is Some {
        AccountRoutingState::Cooldown
    } else if window_full(account, state) {
        AccountRoutingState::DispatchWindowFull
    } else if workers_full(account, state, load) {
        AccountRoutingState::ActiveWorkersFull
    } else {
        AccountRoutingState::Ready
    }
}

/// The times at which reservations without a scope expire.
pub open spec fn unbound_expiries(rs: Seq<ReservationModel>) -> Seq<u64>
    decreases rs.len(),
{
    if rs.len() == 0 {
        Seq::empty()
    } else if rs.last().scope_id is None {
        unbound_expiries(rs.drop_last()).push(rs.last().expires_ms)
    } else {
        unbound_expiries(rs.drop_last())
    }
}

/// A gate that keeps an account from taking work.
pub enum Gate {
    /// It is open.
    Open,
    /// It opens at a time that is known.
    Until(u64),
    /// Nobody knows when it opens.
    Unknown,
}

/// What keeps back an account whose dispatch window is full: it opens when the first
/// dispatch leaves the window or the first reservation expires.
pub open spec fn window_gate(account: AccountConfig, state: StateModel) -> Gate {
    if !window_full(account, state) {
        Gate::Open
    } else {
        match lesser(
            window_retry(state.dispatches_ms, seconds_ms(account.limits.window_seconds)),
            least(expiries(state.reservations)),
        ) {
            Some(t) => Gate::Until(t),
            None => Gate::Unknown,
        }
    }
}

/// What keeps back an account whose places are taken: nobody knows when a worker ends,
/// so it opens at a known time only where expiring reservations without a scope free
/// enough places.
pub open spec fn worker_gate(account: AccountConfig, state: StateModel, load: LoadModel) -> Gate {
    let active = count_for(load.counts, account.id@);
    let reserved = reserved_active(state.reservations, load.scope_ids);
    if !workers_full(account, state, load) {
        Gate::Open
    } else if active >= account.limits.max_active_workers {
        Gate::Unknown
    } else {
        let times = in_order(unbound_expiries(state.reservations));
        let needed = active + reserved - account.limits.max_active_workers;
        if needed < times.len() {
            Gate::Until(times[needed])
        } else {
            Gate::Unknown
        }
    }
}

/// The later of two optional times.
pub open spec fn later(a: Option<u64>, b: Gate) -> Option<u64> {
    match (a, b) {
        (Some(x), Gate::Until(y)) => if x >= y {
            Some(x)
        } else {
            Some(y)
        },
        (Some(x), _) => Some(x),
        (None, Gate::Until(y)) => Some(y),
        (None, _) => None,
    }
}

/// When an account takes work again: when the last of its gates opens; nothing where no
/// gate is shut, where no time helps, or where a gate opens at an unknown time.
pub open spec fn next_slot(
    account: AccountConfig,
    state: StateModel,
    load: LoadModel,
    now_ms: u64,
) -> Option<u64> {
    let blocked = !account.enabled || account.draining || state.health != AccountHealth::Ready;
    let window = window_gate(account, state);
    let workers = worker_gate(account, state, load);
    if blocked || window is Unknown || workers is Unknown {
        None
    } else {
        later(later(cooldown_left(state, now_ms), window), workers)
    }
}

fn unbound_times(v: &Vec<AccountReservation>) -> (r: Vec<u64>)
    ensures
        r@ == unbound_expiries(reservation_models(v@)),
{
    let mut out: Vec<u64> = Vec::new();
    let mut i: usize = 0;
    let ghost m = reservation_models(v@);
    assert(m.subrange(0, 0) =~= Seq::<ReservationModel>::empty());
    while i < v.len()
        invariant
            i <= v@.len(),
            m == reservation_models(v@),
            out@ == unbound_expiries(m.subrange(0, i as int)),
        decreases v@.len() - i,
    {
        proof {
            assert(m.subrange(0, i + 1).drop_last() =~= m.subrange(0, i as int));
            assert(m.subrange(0, i + 1).last() == v@[i as int]@);
        }
        if v[i].scope_id.is_none() {
            out.push(v[i].expires_ms);
        }
        i += 1;
    }
    assert(m.subrange(0, m.len() as int) =~= m);
    out
}

fn first_expiry(v: &Vec<AccountReservation>) -> (r: Option<u64>)
    ensures
        r == least(expiries(reservation_models(v@))),
{
    let mut times: Vec<u64> = Vec::new();
    let mut i: usize = 0;
    while i < v.len()
        invariant
            i <= v@.len(),
            times@.len() == i,
            forall|j: int| 0 <= j < i ==> times@[j] == (#[trigger] v@[j]).expires_ms,
        decreases v@.len() - i,
    {
        times.push(v[i].expires_ms);
        i += 1;
    }
    assert(times@ =~= expiries(reservation_models(v@)));
    least_of(&times)
}

fn later_of(a: Option<u64>, t: u64) -> (r: Option<u64>)
    ensures
        r == later(a, Gate::Until(t)),
{
    match a {
        Some(x) => if x >= t {
            Some(x)
        } else {
            Some(t)
        },
        None => Some(t),
    }
}

/// When an account takes work again: see [`next_slot`].
pub fn next_slot_ms(
    account: &AccountConfig,
    state: &AccountRuntimeState,
    load: &WorkerLoad,
    now_ms: u64,
) -> (r: Option<u64>)
    ensures
        r == next_slot(*account, state@, load@, now_ms),
{
    if !account.enabled || account.draining {
        return None;
    }
    match state.health {
        AccountHealth::Ready => {},
        _ => {
            return None;
        },
    }
    let mut slot: Option<u64> = None;
    if let Some(until) = state.cooldown_until_ms {
        if until > now_ms {
            slot = Some(until);
        }
    }
    let used: usize = state.window_used();
    let held: usize = state.reserved();
    if used.saturating_add(held) >= account.limits.max_dispatches {
        let dispatch_release = state.retry_after_window_ms(account.limits.window_ms());
        let reservation_release = first_expiry(&state.reservations);
        match min_option(dispatch_release, reservation_release) {
            Some(t) => {
                slot = later_of(slot, t);
            },
            None => {
                return None;
            },
        }
    }
    let active: usize = load.workers(account.id.as_str());
    let reserved: usize = count_reserved_active(state, &load.scope_ids);
    let max: usize = account.limits.max_active_workers;
    if active.saturating_add(reserved) >= max {
        if active >= max {
            return None;
        }
        let times = sort_items(unbound_times(&state.reservations));
        let needed: usize = reserved - (max - active);
        if needed >= times.len() {
            return None;
        }
        slot = later_of(slot, times[needed]);
    }
    slot
}

/// `d` is what can be told of an account.
pub open spec fn is_diagnostic(
    d: AccountDiagnostic,
    account: AccountConfig,
    state: StateModel,
    browser: BrowserHealth,
    load: LoadModel,
    now_ms: u64,
) -> bool {
    &&& d.account_id@ == account.id@
    &&& d.enabled == account.enabled
    &&& d.draining == account.draining
    &&& d.routing_state == routing_state(account, state, load, now_ms)
    &&& d.scheduler_health == state.health
    &&& d.active_workers == count_for(load.counts, account.id@)
    &&& d.reserved_workers == reserved_active(state.reservations, load.scope_ids)
    &&& d.dispatches_in_window == state.dispatches_ms.len()
    &&& d.reserved_dispatches == state.reservations.len()
    &&& d.max_active_workers == account.limits.max_active_workers
    &&& d.max_dispatches == account.limits.max_dispatches
    &&& d.window_seconds == account.limits.window_seconds
    &&& d.next_slot_ms == next_slot(account, state, load, now_ms)
    &&& d.cooldown_until_ms == cooldown_left(state, now_ms)
    &&& opt_text(d.cooldown_reason) == (if cooldown_left(state, now_ms) is Some {
        state.cooldown_reason
    } else {
        None
    })
    &&& d.browser_instance@ == browser.instance@
    &&& d.browser_reachability == browser.reachability
    &&& d.browser_login_state == browser.login_state
}

/// What can be told of an account.
pub fn build_account_diagnostic(
    account: &AccountConfig,
    state: &AccountRuntimeState,
    browser: &BrowserHealth,
    load: &WorkerLoad,
    now_ms: u64,
) -> (r: AccountDiagnostic)
    ensures
        is_diagnostic(r, *account, state@, *browser, load@, now_ms),
{
    let active: usize = load.workers(account.id.as_str());
    let reserved: usize = count_reserved_active(state, &load.scope_ids);
    let held: usize = state.reserved();
    let used: usize = state.window_used();
    let active_full = active.saturating_add(reserved) >= account.limits.max_active_workers;
    let full = used.saturating_add(held) >= account.limits.max_dispatches;
    let cooldown: Option<u64> = match state.cooldown_until_ms {
        Some(until) => if until > now_ms {
            Some(until)
        } else {
            None
        },
        None => None,
    };
    let routing_state = if !account.enabled {
        AccountRoutingState::Disabled
    } else if account.draining {
        AccountRoutingState::Draining
    } else if state.health == AccountHealth::AuthRequired {
        AccountRoutingState::AuthenticationRequired
    } else if state.health == AccountHealth::Degraded {
        AccountRoutingState::Degraded
    } else if cooldown.is_some() {
        AccountRoutingState::Cooldown
    } else if full {
        AccountRoutingState::DispatchWindowFull
    } else if active_full {
        AccountRoutingState::ActiveWorkersFull
    } else {
        AccountRoutingState::Ready
    };
    let cooldown_reason: Option<String> = if cooldown.is_some() {
        copy_opt(&state.cooldown_reason)
    } else {
        None
    };
    AccountDiagnostic {
        account_id: account.id.clone(),
        enabled: account.enabled,
        draining: account.draining,
        routing_state,
        scheduler_health: state.health,
        active_workers: active,
        reserved_workers: reserved,
        dispatches_in_window: used,
        reserved_dispatches: held,
        max_active_workers: account.limits.max_active_workers,
        max_dispatches: account.limits.max_dispatches,
        window_seconds: account.limits.window_seconds,
        next_slot_ms: next_slot_ms(account, state, load, now_ms),
        cooldown_until_ms: cooldown,
        cooldown_reason,
        browser_instance: browser.instance.clone(),
        browser_reachability: browser.reachability,
        browser_login_state: browser.login_state,
    }
}

pub open spec fn health_name(health: AccountHealth) -> Seq<char> {
    match health {
        AccountHealth::Ready => "ready"@,
        AccountHealth::AuthRequired => "auth_required"@,
        AccountHealth::Degraded => "degraded"@,
    }
}

pub open spec fn routing_state_name(state: AccountRoutingState) -> Seq<char> {
    match state {
        AccountRoutingState::Ready => "ready"@,
        AccountRoutingState::Disabled => "disabled"@,
        AccountRoutingState::Draining => "draining"@,
        AccountRoutingState::AuthenticationRequired => "authentication_required"@,
        AccountRoutingState::Degraded => "degraded"@,
        AccountRoutingState::Cooldown => "cooldown"@,
        AccountRoutingState::DispatchWindowFull => "dispatch_window_full"@,
        AccountRoutingState::ActiveWorkersFull => "active_workers_full"@,
    }
}

fn health_text(health: AccountHealth) -> (r: &'static str)
    ensures
        r@ == health_name(health),
{
    match health {
        AccountHealth::Ready => "ready",
        AccountHealth::AuthRequired => "auth_required",
        AccountHealth::Degraded => "degraded",
    }
}

fn routing_state_text(state: AccountRoutingState) -> (r: &'static str)
    ensures
        r@ == routing_state_name(state),
{
    match state {
        AccountRoutingState::Ready => "ready",
        AccountRoutingState::Disabled => "disabled",
        AccountRoutingState::Draining => "draining",
        AccountRoutingState::AuthenticationRequired => "authentication_required",
        AccountRoutingState::Degraded => "degraded",
        AccountRoutingState::Cooldown => "cooldown",
        AccountRoutingState::DispatchWindowFull => "dispatch_window_full",
        AccountRoutingState::ActiveWorkersFull => "active_workers_full",
    }
}

/// Fields with one more where there is a number.
pub open spec fn with_number(
    fields: Seq<(Seq<char>, JsonModel)>,
    key: Seq<char>,
    n: Option<u64>,
) -> Seq<(Seq<char>, JsonModel)> {
    match n {
        Some(x) => fields.push((key, JsonModel::Unsigned(x))),
        None => fields,
    }
}

/// Fields with one more where there is a text.
pub open spec fn with_text(
    fields: Seq<(Seq<char>, JsonModel)>,
    key: Seq<char>,
    t: Option<Seq<char>>,
) -> Seq<(Seq<char>, JsonModel)> {
    match t {
        Some(x) => fields.push((key, JsonModel::Text(x))),
        None => fields,
    }
}

/// What can be told of an account before its times.
pub open spec fn diagnostic_head(d: AccountDiagnostic) -> Seq<(Seq<char>, JsonModel)> {
    seq![
        ("account_id"@, JsonModel::Text(d.account_id@)),
        ("enabled"@, JsonModel::Bool(d.enabled)),
        ("draining"@, JsonModel::Bool(d.draining)),
        ("routing_state"@, JsonModel::Text(routing_state_name(d.routing_state))),
        ("scheduler_health"@, JsonModel::Text(health_name(d.scheduler_health))),
        ("active_workers"@, JsonModel::Unsigned(d.active_workers as u64)),
        ("reserved_workers"@, JsonModel::Unsigned(d.reserved_workers as u64)),
        ("dispatches_in_window"@, JsonModel::Unsigned(d.dispatches_in_window as u64)),
        ("reserved_dispatches"@, JsonModel::Unsigned(d.reserved_dispatches as u64)),
        ("max_active_workers"@, JsonModel::Unsigned(d.max_active_workers as u64)),
        ("max_dispatches"@, JsonModel::Unsigned(d.max_dispatches as u64)),
        ("window_seconds"@, JsonModel::Unsigned(d.window_seconds)),
    ]
}

/// The JSON of what can be told of an account. It names no scope, reservation, page,
/// endpoint or profile; times that are not known are left out.
pub open spec fn diagnostic_json(d: AccountDiagnostic) -> JsonModel {
    let times = with_text(
        with_number(
            with_number(diagnostic_head(d), "next_slot_ms"@, d.next_slot_ms),
            "cooldown_until_ms"@,
            d.cooldown_until_ms,
        ),
        "cooldown_reason"@,
        opt_text(d.cooldown_reason),
    );
    JsonModel::Object(
        times.push(("browser_instance"@, JsonModel::Text(d.browser_instance@))).push(
            (
                "browser_reachability"@,
                JsonModel::Text(reachability_name(d.browser_reachability)),
            ),
        ).push(("browser_login_state"@, JsonModel::Text(login_name(d.browser_login_state)))),
    )
}

impl AccountDiagnostic {
    fn head_fields(&self) -> (r: Vec<JsonField>)
        ensures
            field_models(r@) == diagnostic_head(*self),
    {
        let mut f = no_fields();
        put(&mut f, "account_id", Json::text(self.account_id.as_str()));
        put(&mut f, "enabled", Json::Bool(self.enabled));
        put(&mut f, "draining", Json::Bool(self.draining));
        put(&mut f, "routing_state", Json::text(routing_state_text(self.routing_state)));
        put(&mut f, "scheduler_health", Json::text(health_text(self.scheduler_health)));
        put(&mut f, "active_workers", Json::Unsigned(self.active_workers as u64));
        put(&mut f, "reserved_workers", Json::Unsigned(self.reserved_workers as u64));
        put(&mut f, "dispatches_in_window", Json::Unsigned(self.dispatches_in_window as u64));
        put(&mut f, "reserved_dispatches", Json::Unsigned(self.reserved_dispatches as u64));
        put(&mut f, "max_active_workers", Json::Unsigned(self.max_active_workers as u64));
        put(&mut f, "max_dispatches", Json::Unsigned(self.max_dispatches as u64));
        put(&mut f, "window_seconds", Json::Unsigned(self.window_seconds));
        assert(field_models(f@) =~= diagnostic_head(*self));
        f
    }

    /// The diagnostic as JSON.
    pub fn to_json(&self) -> (r: Json)
        ensures
            r.model() == diagnostic_json(*self),
    {
        let mut f = self.head_fields();
        if let Some(t) = self.next_slot_ms {
            put(&mut f, "next_slot_ms", Json::Unsigned(t));
        }
        if let Some(t) = self.cooldown_until_ms {
            put(&mut f, "cooldown_until_ms", Json::Unsigned(t));
        }
        if let Some(t) = &self.cooldown_reason {
            put(&mut f, "cooldown_reason", Json::text(t.as_str()));
        }
        put(&mut f, "browser_instance", Json::text(self.browser_instance.as_str()));
        put(&mut f, "browser_reachability", Json::text(self.browser_reachability.name()));
        put(&mut f, "browser_login_state", Json::text(self.browser_login_state.name()));
        Json::Object(f)
    }
}

impl AccountDiagnosticsReport {
    /// The report as JSON.
    pub fn to_json(&self) -> (r: Json)
        ensures
            r.model() == JsonModel::Object(
                seq![
                    ("version"@, JsonModel::Unsigned(self.version as u64)),
                    ("generated_ms"@, JsonModel::Unsigned(self.generated_ms)),
                    (
                        "accounts"@,
                        JsonModel::Array(
                            self.accounts@.map_values(|d: AccountDiagnostic| diagnostic_json(d)),
                        ),
                    ),
                ],
            ),
    {
        let mut values = no_values();
        let mut i: usize = 0;
        let ghost all = self.accounts@.map_values(|d: AccountDiagnostic| diagnostic_json(d));
        assert(all.subrange(0, 0) =~= Seq::<JsonModel>::empty());
        while i < self.accounts.len()
            invariant
                i <= self.accounts@.len(),
                all == self.accounts@.map_values(|d: AccountDiagnostic| diagnostic_json(d)),
                crate::json::models(values@) == all.subrange(0, i as int),
            decreases self.accounts@.len() - i,
        {
            append_value(&mut values, self.accounts[i].to_json());
            assert(all.subrange(0, i + 1) =~= all.subrange(0, i as int).push(all[i as int]));
            i += 1;
        }
        assert(all.subrange(0, all.len() as int) =~= all);
        let mut f = no_fields();
        put(&mut f, "version", Json::Unsigned(self.version as u64));
        put(&mut f, "generated_ms", Json::Unsigned(self.generated_ms));
        put(&mut f, "accounts", Json::Array(values));
        assert(crate::json::field_models(f@) =~= seq![
            ("version"@, JsonModel::Unsigned(self.version as u64)),
            ("generated_ms"@, JsonModel::Unsigned(self.generated_ms)),
            ("accounts"@, JsonModel::Array(all)),
        ]);
        Json::Object(f)
    }
}

/// `i` is the first account whose state cannot be had.
pub open spec fn first_lost(
    config: AccountsConfig,
    router: AccountRouter,
    now_ms: u64,
    i: int,
) -> bool {
    &&& 0 <= i < config.accounts@.len()
    &&& account_now(config, router.store, config.accounts@[i].id@, now_ms) is None
    &&& forall|j: int|
        0 <= j < i ==> account_now(
            config,
            router.store,
            (#[trigger] config.accounts@[j]).id@,
            now_ms,
        ) is Some
}

/// What can be told of all accounts, with the health of their browsers and the running
/// workers.
pub fn collect_account_diagnostics(
    router: &AccountRouter,
    config: &AccountsConfig,
    browsers: &Vec<BrowserHealth>,
    load: &WorkerLoad,
    now_ms: u64,
) -> (r: Result<AccountDiagnosticsReport, Failure>)
    requires
        browsers@.len() == config.accounts@.len(),
    ensures
        match r {
            Ok(report) => {
                &&& report.version == ACCOUNT_DIAGNOSTICS_VERSION
                &&& report.generated_ms == now_ms
                &&& report.accounts@.len() == config.accounts@.len()
                &&& forall|i: int|
                    0 <= i < config.accounts@.len() ==> {
                        let account = #[trigger] config.accounts@[i];
                        let state = account_now(*config, router.store, account.id@, now_ms);
                        &&& state is Some
                        &&& is_diagnostic(
                            report.accounts@[i],
                            account,
                            state->0,
                            browsers@[i],
                            load@,
                            now_ms,
                        )
                    }
            },
            Err(m) => exists|i: int, e: RouterError|
                {
                    &&& #[trigger] lost_to(*config, *router, now_ms, i, e)
                    &&& m@ == seq![
                        "failed to load account state for '"@ + config.accounts@[i].id@ + "'"@,
                        e.text(""@),
                    ]
                },
        },
{
    let mut out: Vec<AccountDiagnostic> = Vec::new();
    let mut i: usize = 0;
    while i < config.accounts.len()
        invariant
            i <= config.accounts@.len(),
            browsers@.len() == config.accounts@.len(),
            out@.len() == i,
            forall|j: int|
                0 <= j < i ==> {
                    let account = #[trigger] config.accounts@[j];
                    let state = account_now(*config, router.store, account.id@, now_ms);
                    &&& state is Some
                    &&& is_diagnostic(
                        out@[j],
                        account,
                        state->0,
                        browsers@[j],
                        load@,
                        now_ms,
                    )
                },
        decreases config.accounts@.len() - i,
    {
        let account = &config.accounts[i];
        let state = match router.state_for_account(config, account.id.as_str(), now_ms) {
            Ok(s) => s,
            Err(e) => {
                assert(lost_to(*config, *router, now_ms, i as int, e));
                return Err(
                    Failure::caused(
                        "failed to load account state for '".to_owned().concat(
                            account.id.as_str(),
                        ).concat("'"),
                        e.message("").as_str(),
                    ),
                );
            },
        };
        out.push(build_account_diagnostic(account, &state, &browsers[i], load, now_ms));
        i += 1;
    }
    Ok(
        AccountDiagnosticsReport {
            version: ACCOUNT_DIAGNOSTICS_VERSION,
            generated_ms: now_ms,
            accounts: out,
        },
    )
}

/// The state of an account is the first that cannot be had, for this reason.
pub open spec fn lost_to(
    config: AccountsConfig,
    router: AccountRouter,
    now_ms: u64,
    i: int,
    e: RouterError,
) -> bool {
    &&& first_lost(config, router, now_ms, i)
    &&& is_account_error(config, router.store, config.accounts@[i].id@, e)
}

/// The accounts whose noted health is not ready, by position.
pub open spec fn stale_positions(
    config: AccountsConfig,
    router: AccountRouter,
    now_ms: u64,
    n: int,
) -> Seq<usize>
    decreases n,
{
    if n <= 0 {
        Seq::empty()
    } else {
        let front = stale_positions(config, router, now_ms, n - 1);
        let state = account_now(config, router.store, config.accounts@[n - 1].id@, now_ms);
        if state is Some && state->0.health != AccountHealth::Ready {
            front.push((n - 1) as usize)
        } else {
            front
        }
    }
}

/// The positions ascend.
pub open spec fn strictly_ascend(v: Seq<usize>) -> bool {
    forall|i: int, j: int| 0 <= i < j < v.len() ==> #[trigger] v[i] < #[trigger] v[j]
}

/// The accounts whose noted health is not ready, by position.
pub fn stale_accounts(router: &AccountRouter, config: &AccountsConfig, now_ms: u64) -> (r: Result<
    Vec<usize>,
    Failure,
>)
    ensures
        match r {
            Ok(v) => {
                &&& v@ == stale_positions(*config, *router, now_ms, config.accounts@.len() as int)
                &&& strictly_ascend(v@)
                &&& forall|k: int|
                    0 <= k < v@.len() ==> {
                        &&& (#[trigger] v@[k]) < config.accounts@.len()
                        &&& account_now(
                            *config,
                            router.store,
                            config.accounts@[v@[k] as int].id@,
                            now_ms,
                        ) is Some
                    }
            },
            Err(m) => exists|i: int, e: RouterError|
                {
                    &&& #[trigger] lost_to(*config, *router, now_ms, i, e)
                    &&& m@ == seq![
                        "failed to inspect account health for '"@ + config.accounts@[i].id@ + "'"@,
                        e.text(""@),
                    ]
                },
        },
{
    let mut out: Vec<usize> = Vec::new();
    let mut i: usize = 0;
    while i < config.accounts.len()
        invariant
            i <= config.accounts@.len(),
            out@ == stale_positions(*config, *router, now_ms, i as int),
            strictly_ascend(out@),
            forall|k: int|
                0 <= k < out@.len() ==> {
                    &&& (#[trigger] out@[k]) < i
                    &&& account_now(
                        *config,
                        router.store,
                        config.accounts@[out@[k] as int].id@,
                        now_ms,
                    ) is Some
                },
            forall|j: int|
                0 <= j < i ==> account_now(
                    *config,
                    router.store,
                    (#[trigger] config.accounts@[j]).id@,
                    now_ms,
                ) is Some,
        decreases config.accounts@.len() - i,
    {
        let account = &config.accounts[i];
        let state = match router.state_for_account(config, account.id.as_str(), now_ms) {
            Ok(s) => s,
            Err(e) => {
                assert(lost_to(*config, *router, now_ms, i as int, e));
                return Err(
                    Failure::caused(
                        "failed to inspect account health for '".to_owned().concat(
                            account.id.as_str(),
                        ).concat("'"),
                        e.message("").as_str(),
                    ),
                );
            },
        };
        if state.health != AccountHealth::Ready {
            out.push(i);
        }
        i += 1;
    }
    Ok(out)
}

/// A browser that answers through the legacy driver, of which the login is not known.
/// The driver cannot tell a session that is logged in from an old failure, so only the
/// noted block is cleared; a page is probed before any work goes to it.
pub open spec fn is_recoverable_legacy(browser: BrowserHealth) -> bool {
    &&& browser.login_state == BrowserLoginState::Unknown
    &&& browser.reachability == BrowserReachability::Reachable
    &&& browser.driver == Some(BrowserDriverKind::Cmux)
}

/// Whether the noted block of an account may be cleared although the login of its
/// browser is not known.
pub fn can_recover_legacy_cmux_auth(browser: &BrowserHealth) -> (r: bool)
    ensures
        r == is_recoverable_legacy(*browser),
{
    let cmux = match browser.driver {
        Some(d) => d == BrowserDriverKind::Cmux,
        None => false,
    };
    browser.login_state == BrowserLoginState::Unknown && browser.reachability
        == BrowserReachability::Reachable && cmux
}

/// The health that is noted of an account after a look at its browser, if it changes.
pub open spec fn noted_health(browser: BrowserHealth) -> Option<AccountHealth> {
    match browser.login_state {
        BrowserLoginState::Ready => Some(AccountHealth::Ready),
        BrowserLoginState::AuthenticationRequired => Some(AccountHealth::AuthRequired),
        BrowserLoginState::Unknown => if is_recoverable_legacy(browser) {
            Some(AccountHealth::Ready)
        } else {
            None
        },
    }
}

/// How many of some browsers let their account recover.
pub open spec fn recoveries(browsers: Seq<BrowserHealth>) -> nat {
    browsers.filter(|b: BrowserHealth| noted_health(b) == Some(AccountHealth::Ready)).len()
}

/// What is stored of an account after a look at its browser.
pub open spec fn noted_state(
    config: AccountsConfig,
    before: AccountRouter,
    id: Seq<char>,
    browser: BrowserHealth,
    now_ms: u64,
) -> Option<StateModel> {
    match noted_health(browser) {
        Some(health) => Some(
            StateModel { health, ..account_now(config, before.store, id, now_ms)->0 },
        ),
        None => crate::account_state::stored(before.store.accounts@, id),
    }
}

/// Notes the health of the accounts whose browsers were looked at, and returns how many
/// recovered.
pub fn recover_stale_account_health(
    router: &mut AccountRouter,
    config: &AccountsConfig,
    stale: &Vec<usize>,
    browsers: &Vec<BrowserHealth>,
    now_ms: u64,
) -> (r: usize)
    requires
        config.wf(),
        browsers@.len() == stale@.len(),
        strictly_ascend(stale@),
        forall|k: int|
            0 <= k < stale@.len() ==> {
                &&& (#[trigger] stale@[k]) < config.accounts@.len()
                &&& account_now(
                    *config,
                    old(router).store,
                    config.accounts@[stale@[k] as int].id@,
                    now_ms,
                ) is Some
            },
    ensures
        r == recoveries(browsers@),
        final(router).same_but_store(*old(router)),
        final(router).store.router == old(router).store.router,
        final(router).store.bridge_dir == old(router).store.bridge_dir,
        crate::account_state::one_file_each(old(router).store.accounts@)
            ==> crate::account_state::one_file_each(final(router).store.accounts@),
        forall|k: int|
            0 <= k < stale@.len() ==> crate::account_state::stored(
                final(router).store.accounts@,
                config.accounts@[(#[trigger] stale@[k]) as int].id@,
            ) == noted_state(
                *config,
                *old(router),
                config.accounts@[stale@[k] as int].id@,
                browsers@[k],
                now_ms,
            ),
        forall|id: Seq<char>|
            (forall|k: int|
                0 <= k < stale@.len() ==> config.accounts@[(#[trigger] stale@[k]) as int].id@ != id)
                ==> #[trigger] crate::account_state::stored(final(router).store.accounts@, id)
                == crate::account_state::stored(old(router).store.accounts@, id),
{
    let ghost before = *router;
    let ghost ready = |b: BrowserHealth| noted_health(b) == Some(AccountHealth::Ready);
    let mut recovered: usize = 0;
    let mut k: usize = 0;
    proof {
        reveal(Seq::filter);
        assert(browsers@.subrange(0, 0) =~= Seq::<BrowserHealth>::empty());
    }
    while k < stale.len()
        invariant
            k <= stale@.len(),
            config.wf(),
            browsers@.len() == stale@.len(),
            strictly_ascend(stale@),
            before == *old(router),
            ready == (|b: BrowserHealth| noted_health(b) == Some(AccountHealth::Ready)),
            recovered <= k,
            recovered == browsers@.subrange(0, k as int).filter(ready).len(),
            router.same_but_store(before),
            router.store.router == before.store.router,
            router.store.bridge_dir == before.store.bridge_dir,
            crate::account_state::one_file_each(before.store.accounts@)
                ==> crate::account_state::one_file_each(router.store.accounts@),
            forall|j: int|
                0 <= j < stale@.len() ==> {
                    &&& (#[trigger] stale@[j]) < config.accounts@.len()
                    &&& account_now(
                        *config,
                        before.store,
                        config.accounts@[stale@[j] as int].id@,
                        now_ms,
                    ) is Some
                },
            forall|j: int|
                0 <= j < k ==> crate::account_state::stored(
                    router.store.accounts@,
                    config.accounts@[(#[trigger] stale@[j]) as int].id@,
                ) == noted_state(
                    *config,
                    before,
                    config.accounts@[stale@[j] as int].id@,
                    browsers@[j],
                    now_ms,
                ),
            forall|id: Seq<char>|
                (forall|j: int|
                    0 <= j < k ==> config.accounts@[(#[trigger] stale@[j]) as int].id@ != id)
                    ==> #[trigger] crate::account_state::stored(router.store.accounts@, id)
                    == crate::account_state::stored(before.store.accounts@, id),
        decreases stale@.len() - k,
    {
        let ghost mid = *router;
        let at: usize = stale[k];
        let id = config.accounts[at].id.as_str();
        let browser = &browsers[k];
        proof {
            reveal(Seq::filter);
            assert(browsers@.subrange(0, k + 1).drop_last() =~= browsers@.subrange(0, k as int));
            assert(browsers@.subrange(0, k + 1).last() == *browser);
            assert forall|j: int| 0 <= j < k implies config.accounts@[(
            #[trigger] stale@[j]) as int].id@ != id@ by {
                assert(stale@[j] < stale@[k as int]);
                assert(config.accounts@[stale@[j] as int].id@ != config.accounts@[at as int].id@);
            }
            assert(crate::account_state::stored(mid.store.accounts@, id@)
                == crate::account_state::stored(before.store.accounts@, id@));
            assert(account_now(*config, mid.store, id@, now_ms) == account_now(
                *config,
                before.store,
                id@,
                now_ms,
            ));
        }
        match browser.login_state {
            BrowserLoginState::Ready => {
                let marked = router.mark_ready(config, id, now_ms);
                assert(marked is Ok);
                recovered += 1;
            },
            BrowserLoginState::AuthenticationRequired => {
                let marked = router.mark_auth_required(config, id, now_ms);
                assert(marked is Ok);
            },
            BrowserLoginState::Unknown => {
                if can_recover_legacy_cmux_auth(browser) {
                    let marked = router.mark_ready(config, id, now_ms);
                    assert(marked is Ok);
                    recovered += 1;
                }
            },
        }
        proof {
            assert forall|j: int| 0 <= j < k + 1 implies crate::account_state::stored(
                router.store.accounts@,
                config.accounts@[(#[trigger] stale@[j]) as int].id@,
            ) == noted_state(
                *config,
                before,
                config.accounts@[stale@[j] as int].id@,
                browsers@[j],
                now_ms,
            ) by {
                if j < k {
                    assert(config.accounts@[stale@[j] as int].id@ != id@);
                    assert(crate::account_state::stored(
                        router.store.accounts@,
                        config.accounts@[stale@[j] as int].id@,
                    ) == crate::account_state::stored(
                        mid.store.accounts@,
                        config.accounts@[stale@[j] as int].id@,
                    ));
                }
            }
            assert forall|other: Seq<char>|
                (forall|j: int|
                    0 <= j < k + 1 ==> config.accounts@[(#[trigger] stale@[j]) as int].id@
                        != other) implies #[trigger] crate::account_state::stored(
                router.store.accounts@,
                other,
            ) == crate::account_state::stored(before.store.accounts@, other) by {
                assert(config.accounts@[stale@[k as int] as int].id@ != other);
                assert(crate::account_state::stored(router.store.accounts@, other)
                    == crate::account_state::stored(mid.store.accounts@, other));
            }
        }
        k += 1;
    }
    assert(browsers@.subrange(0, browsers@.len() as int) =~= browsers@);
    recovered
}

/// The diagnosis and the router agree on which accounts take fresh work.
pub proof fn lemma_ready_means_eligible(
    account: AccountConfig,
    state: StateModel,
    load: LoadModel,
    now_ms: u64,
)
    ensures
        routing_state(account, state, load, now_ms) == AccountRoutingState::Ready
            <==> crate::router::exhaustion(
            account,
            state,
            count_for(load.counts, account.id@),
            load.scope_ids,
            now_ms,
            false,
        ) is None,
{
}

/// An account whose places are all taken by running workers has no next slot, whatever
/// its reservations and cooldown.
pub proof fn lemma_running_workers_hide_next_slot(
    account: AccountConfig,
    state: StateModel,
    load: LoadModel,
    now_ms: u64,
)
    requires
        count_for(load.counts, account.id@) >= account.limits.max_active_workers,
    ensures
        next_slot(account, state, load, now_ms) is None,
{
}

/// A cooldown that goes on is over no later than the next slot.
pub proof fn lemma_next_slot_waits_for_cooldown(
    account: AccountConfig,
    state: StateModel,
    load: LoadModel,
    now_ms: u64,
)
    ensures
        next_slot(account, state, load, now_ms) matches Some(t) ==> (cooldown_left(
            state,
            now_ms,
        ) matches Some(until) ==> until <= t),
{
}

} // verus!
