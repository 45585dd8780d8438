//! Picks the account that takes the next piece of work, and keeps the books on it.
use crate::account_state::{expiries, find_reservation, is_account_id, lemma_filter_push,
    lemma_position_of_push, lemma_reconcile_idempotent, one_file_each, reservation_models,
    reservation_position, stored, AccountHealth, AccountReservation, AccountRuntimeState, AccountStateStore,
    ReservationModel, RouterRuntimeState, StateModel, ACCOUNT_STATE_VERSION, ROUTER_STATE_VERSION};
use crate::accounts::{account_position, config_outcome, distinct_ids, load_accounts_config,
    AccountConfig, AccountsConfig, AccountsFile, LegacyAccountConfig, ProfileFacts,
    RoutingStrategy};
use crate::arith::{least, least_of, lesser, min_option, sat_add, saturating_mul, seconds_ms};
use crate::error::BridgeError;
use crate::json::{append_value, no_fields, no_values, put, Json, JsonModel};
use crate::outside::{fresh_uuid, is_hyphenated, is_uuid, uuid_accepts};
use crate::text::{copy_opt, decimal, holds, lemma_text_lt_asym, same_text, text_before, text_lt,
    texts};
use vstd::prelude::*;

verus! {

/// How many workers an account has.
#[derive(Debug)]
pub struct AccountCount {
    pub account_id: String,
    pub workers: usize,
}

/// The workers of an account; an account that is not listed has none.
pub open spec fn count_for(counts: Seq<AccountCount>, id: Seq<char>) -> usize
    decreases counts.len(),
{
    if counts.len() == 0 {
        0
    } else if counts[0].account_id@ == id {
        counts[0].workers
    } else {
        count_for(counts.drop_first(), id)
    }
}

/// The workers that run now: how many each account has and, where that is known, in
/// which scopes they run.
#[derive(Debug)]
pub struct WorkerLoad {
    pub counts: Vec<AccountCount>,
    pub scope_ids: Option<Vec<String>>,
}

/// The mathematical value of a [`WorkerLoad`].
pub struct LoadModel {
    pub counts: Seq<AccountCount>,
    pub scope_ids: Option<Seq<Seq<char>>>,
}

impl View for WorkerLoad {
    type V = LoadModel;

    open spec fn view(&self) -> LoadModel {
        LoadModel {
            counts: self.counts@,
            scope_ids: match self.scope_ids {
                Some(v) => Some(texts(v@)),
                None => None,
            },
        }
    }
}

impl WorkerLoad {
    /// No worker runs, and nothing is known of scopes.
    pub fn idle() -> (r: Self)
        ensures
            r@ == (LoadModel { counts: Seq::empty(), scope_ids: None }),
    {
        WorkerLoad { counts: Vec::new(), scope_ids: None }
    }

    /// The workers of an account.
    pub fn workers(&self, id: &str) -> (r: usize)
        ensures
            r == count_for(self@.counts, id@),
    {
        let ghost all = self.counts@;
        let mut i: usize = 0;
        assert(all.subrange(0, all.len() as int) =~= all);
        while i < self.counts.len()
            invariant
                i <= self.counts@.len(),
                all == self.counts@,
                count_for(all, id@) == count_for(all.subrange(i as int, all.len() as int), id@),
            decreases self.counts@.len() - i,
        {
            if same_text(self.counts[i].account_id.as_str(), id) {
                return self.counts[i].workers;
            }
            assert(all.subrange(i as int, all.len() as int).drop_first() =~= all.subrange(
                i + 1,
                all.len() as int,
            ));
            i += 1;
        }
        0
    }
}

/// Why an account cannot take work, and when it may.
#[derive(Debug)]
pub struct AccountExhaustion {
    pub account_id: String,
    pub reason: String,
    pub retry_at_ms: Option<u64>,
}

/// The mathematical value of an [`AccountExhaustion`].
pub struct ExhaustionModel {
    pub account_id: Seq<char>,
    pub reason: Seq<char>,
    pub retry_at_ms: Option<u64>,
}

impl View for AccountExhaustion {
    type V = ExhaustionModel;

    open spec fn view(&self) -> ExhaustionModel {
        ExhaustionModel {
            account_id: self.account_id@,
            reason: self.reason@,
            retry_at_ms: self.retry_at_ms,
        }
    }
}

pub open spec fn exhaustion_models(v: Seq<AccountExhaustion>) -> Seq<ExhaustionModel> {
    v.map_values(|e: AccountExhaustion| e@)
}

/// No account can take work.
#[derive(Debug)]
pub struct RoutingExhausted {
    pub now_ms: u64,
    pub accounts: Vec<AccountExhaustion>,
}

/// The JSON of one account that cannot take work; an unknown retry time is left out.
pub open spec fn exhaustion_json(e: ExhaustionModel) -> JsonModel {
    let head = seq![
        ("account_id"@, JsonModel::Text(e.account_id)),
        ("reason"@, JsonModel::Text(e.reason)),
    ];
    JsonModel::Object(
        match e.retry_at_ms {
            Some(t) => head.push(("retry_at_ms"@, JsonModel::Unsigned(t))),
            None => head,
        },
    )
}

impl RoutingExhausted {
    /// The failure as JSON.
    pub fn to_json(&self) -> (r: Json)
        ensures
            r.model() == JsonModel::Object(
                seq![
                    ("now_ms"@, JsonModel::Unsigned(self.now_ms)),
                    (
                        "accounts"@,
                        JsonModel::Array(
                            exhaustion_models(self.accounts@).map_values(
                                |e: ExhaustionModel| exhaustion_json(e),
                            ),
                        ),
                    ),
                ],
            ),
    {
        let mut values = no_values();
        let mut i: usize = 0;
        let ghost all = exhaustion_models(self.accounts@).map_values(
            |e: ExhaustionModel| exhaustion_json(e),
        );
        assert(all.subrange(0, 0) =~= Seq::<JsonModel>::empty());
        while i < self.accounts.len()
            invariant
                i <= self.accounts@.len(),
                all == exhaustion_models(self.accounts@).map_values(
                    |e: ExhaustionModel| exhaustion_json(e),
                ),
                crate::json::models(values@) == all.subrange(0, i as int),
            decreases self.accounts@.len() - i,
        {
            let e = &self.accounts[i];
            let mut f = no_fields();
            put(&mut f, "account_id", Json::text(e.account_id.as_str()));
            put(&mut f, "reason", Json::text(e.reason.as_str()));
            if let Some(t) = e.retry_at_ms {
                put(&mut f, "retry_at_ms", Json::Unsigned(t));
            }
            assert(crate::json::field_models(f@) =~= exhaustion_json(e@)->Object_0);
            let v = Json::Object(f);
            append_value(&mut values, v);
            assert(all.subrange(0, i + 1) =~= all.subrange(0, i as int).push(all[i as int]));
            i += 1;
        }
        assert(all.subrange(0, all.len() as int) =~= all);
        let mut f = no_fields();
        put(&mut f, "now_ms", Json::Unsigned(self.now_ms));
        put(&mut f, "accounts", Json::Array(values));
        assert(crate::json::field_models(f@) =~= seq![
            ("now_ms"@, JsonModel::Unsigned(self.now_ms)),
            ("accounts"@, JsonModel::Array(all)),
        ]);
        Json::Object(f)
    }
}

/// Why a routing operation failed.
#[derive(Debug)]
pub enum RouterError {
    State(BridgeError),
    Exhausted(RoutingExhausted),
    AccountUnavailable(String),
}

impl RouterError {
    /// The text of the failure; `exhausted` is the JSON text of an exhaustion.
    pub open spec fn text(self, exhausted: Seq<char>) -> Seq<char> {
        match self {
            RouterError::State(e) => e@.text(),
            RouterError::Exhausted(_) => "no eligible ChatGPT Web account: "@ + exhausted,
            RouterError::AccountUnavailable(id) => "configured account '"@ + id@
                + "' is unavailable for retained-scope affinity"@,
        }
    }

    /// The text of the failure; `exhausted` is the JSON text of an exhaustion.
    pub fn message(&self, exhausted: &str) -> (r: String)
        ensures
            r@ == self.text(exhausted@),
    {
        match self {
            RouterError::State(e) => e.message(),
            RouterError::Exhausted(_) => "no eligible ChatGPT Web account: ".to_owned().concat(
                exhausted,
            ),
            RouterError::AccountUnavailable(id) => "configured account '".to_owned().concat(
                id.as_str(),
            ).concat("' is unavailable for retained-scope affinity"),
        }
    }
}

/// How many reservations count as active workers: all, or, where the scopes of the
/// running workers are known, those that no running worker has taken up.
pub open spec fn reserved_active(
    rs: Seq<ReservationModel>,
    scope_ids: Option<Seq<Seq<char>>>,
) -> nat {
    match scope_ids {
        None => rs.len(),
        Some(ids) => rs.filter(|r: ReservationModel| is_unclaimed(r, ids)).len(),
    }
}

/// No running worker has taken up the reservation.
pub open spec fn is_unclaimed(r: ReservationModel, scope_ids: Seq<Seq<char>>) -> bool {
    r.scope_id is None || !scope_ids.contains(r.scope_id->0)
}

/// Why an account cannot take work, checked in this order: it is disabled or drains
/// (unless `allow_disabled`), its health, a cooldown, a full dispatch window, no room
/// for another active worker.
pub open spec fn exhaustion(
    account: AccountConfig,
    state: StateModel,
    active: usize,
    scope_ids: Option<Seq<Seq<char>>>,
    now_ms: u64,
    allow_disabled: bool,
) -> Option<ExhaustionModel> {
    let id = account.id@;
    if !allow_disabled && !account.enabled {
        Some(ExhaustionModel { account_id: id, reason: "disabled"@, retry_at_ms: None })
    } else if !allow_disabled && account.draining {
        Some(ExhaustionModel { account_id: id, reason: "draining"@, retry_at_ms: None })
    } else if state.health == AccountHealth::AuthRequired {
        Some(ExhaustionModel { account_id: id, reason: "auth_required"@, retry_at_ms: None })
    } else if state.health == AccountHealth::Degraded {
        Some(ExhaustionModel { account_id: id, reason: "degraded"@, retry_at_ms: None })
    } else if state.cooldown_until_ms is Some && state.cooldown_until_ms->0 > now_ms {
        Some(
            ExhaustionModel {
                account_id: id,
                reason: match state.cooldown_reason {
                    Some(r) => r,
                    None => "cooldown"@,
                },
                retry_at_ms: state.cooldown_until_ms,
            },
        )
    } else if state.dispatches_ms.len() + state.reservations.len() >= account.limits.max_dispatches {
        Some(
            ExhaustionModel {
                account_id: id,
                reason: "window_exhausted"@,
                retry_at_ms: lesser(
                    window_retry(state.dispatches_ms, seconds_ms(account.limits.window_seconds)),
                    least(expiries(state.reservations)),
                ),
            },
        )
    } else if active + reserved_active(state.reservations, scope_ids)
        >= account.limits.max_active_workers {
        Some(
            ExhaustionModel {
                account_id: id,
                reason: "active_workers_exhausted"@,
                retry_at_ms: least(expiries(state.reservations)),
            },
        )
    } else {
        None
    }
}

/// When the oldest dispatch leaves the window.
pub open spec fn window_retry(dispatches: Seq<u64>, window_ms: u64) -> Option<u64> {
    match least(dispatches) {
        Some(oldest) => Some(sat_add(oldest, window_ms)),
        None => None,
    }
}

/// How many reservations count as active workers.
pub fn count_reserved_active(state: &AccountRuntimeState, scope_ids: &Option<Vec<String>>) -> (r: usize)
    ensures
        r == reserved_active(
            state@.reservations,
            match *scope_ids {
                Some(v) => Some(texts(v@)),
                None => None,
            },
        ),
        r <= state@.reservations.len(),
{
    let ids = match scope_ids {
        None => {
            return state.reserved();
        },
        Some(ids) => ids,
    };
    let ghost keep = |r: ReservationModel| is_unclaimed(r, texts(ids@));
    let ghost m = state@.reservations;
    let mut n: usize = 0;
    let mut i: usize = 0;
    proof {
        reveal(Seq::filter);
        assert(m.subrange(0, 0) =~= Seq::<ReservationModel>::empty());
    }
    while i < state.reservations.len()
        invariant
            i <= state.reservations@.len(),
            m == reservation_models(state.reservations@),
            keep == (|r: ReservationModel| is_unclaimed(r, texts(ids@))),
            n <= i,
            n == m.subrange(0, i as int).filter(keep).len(),
        decreases state.reservations@.len() - i,
    {
        proof {
            reveal(Seq::filter);
            assert(m.subrange(0, i + 1).drop_last() =~= m.subrange(0, i as int));
            assert(m[i as int] == state.reservations@[i as int]@);
        }
        let unclaimed = match &state.reservations[i].scope_id {
            None => true,
            Some(s) => !holds(ids, s.as_str()),
        };
        if unclaimed {
            n += 1;
        }
        i += 1;
    }
    assert(m.subrange(0, m.len() as int) =~= m);
    n
}

/// The times at which reservations expire.
fn expiry_times(v: &Vec<AccountReservation>) -> (r: Vec<u64>)
    ensures
        r@ == expiries(reservation_models(v@)),
{
    let mut out: Vec<u64> = Vec::new();
    let mut i: usize = 0;
    while i < v.len()
        invariant
            i <= v@.len(),
            out@.len() == i,
            forall|j: int| 0 <= j < i ==> out@[j] == (#[trigger] v@[j]).expires_ms,
        decreases v@.len() - i,
    {
        out.push(v[i].expires_ms);
        i += 1;
    }
    assert(out@ =~= expiries(reservation_models(v@)));
    out
}

/// Why an account cannot take work: see [`exhaustion`].
pub fn eligibility_reason(
    account: &AccountConfig,
    state: &AccountRuntimeState,
    load: &WorkerLoad,
    now_ms: u64,
    allow_disabled: bool,
) -> (r: Option<AccountExhaustion>)
    ensures
        match r {
            Some(e) => Some(e@) == exhaustion(
                *account,
                state@,
                count_for(load@.counts, account.id@),
                load@.scope_ids,
                now_ms,
                allow_disabled,
            ),
            None => exhaustion(
                *account,
                state@,
                count_for(load@.counts, account.id@),
                load@.scope_ids,
                now_ms,
                allow_disabled,
            ) is None,
        },
{
    let active: usize = load.workers(account.id.as_str());
    if !allow_disabled && !account.enabled {
        return Some(
            AccountExhaustion {
                account_id: account.id.clone(),
                reason: "disabled".to_owned(),
                retry_at_ms: None,
            },
        );
    }
    if !allow_disabled && account.draining {
        return Some(
            AccountExhaustion {
                account_id: account.id.clone(),
                reason: "draining".to_owned(),
                retry_at_ms: None,
            },
        );
    }
    match state.health {
        AccountHealth::Ready => {},
        AccountHealth::AuthRequired => {
            return Some(
                AccountExhaustion {
                    account_id: account.id.clone(),
                    reason: "auth_required".to_owned(),
                    retry_at_ms: None,
                },
            );
        },
        AccountHealth::Degraded => {
            return Some(
                AccountExhaustion {
                    account_id: account.id.clone(),
                    reason: "degraded".to_owned(),
                    retry_at_ms: None,
                },
            );
        },
    }
    if let Some(until) = state.cooldown_until_ms {
        if until > now_ms {
            let reason = match copy_opt(&state.cooldown_reason) {
                Some(r) => r,
                None => "cooldown".to_owned(),
            };
            return Some(
                AccountExhaustion {
                    account_id: account.id.clone(),
                    reason,
                    retry_at_ms: state.cooldown_until_ms,
                },
            );
        }
    }
    let reserved_window: usize = state.reserved();
    let reserved_now: usize = count_reserved_active(state, &load.scope_ids);
    if state.window_used().saturating_add(reserved_window) >= account.limits.max_dispatches {
        let dispatch_retry = state.retry_after_window_ms(account.limits.window_ms());
        let reservation_retry = least_of(&expiry_times(&state.reservations));
        return Some(
            AccountExhaustion {
                account_id: account.id.clone(),
                reason: "window_exhausted".to_owned(),
                retry_at_ms: min_option(dispatch_retry, reservation_retry),
            },
        );
    }
    if active.saturating_add(reserved_now) >= account.limits.max_active_workers {
        return Some(
            AccountExhaustion {
                account_id: account.id.clone(),
                reason: "active_workers_exhausted".to_owned(),
                retry_at_ms: least_of(&expiry_times(&state.reservations)),
            },
        );
    }
    None
}

/// How loaded an account is, as far as the order of accounts goes.
pub struct LoadKey {
    pub active: int,
    pub max_active: int,
    pub window: int,
    pub max_window: int,
    pub last_selected: Option<u64>,
    pub id: Seq<char>,
}

/// `a / m < b / n`, by cross multiplication.
pub open spec fn fraction_lt(a: int, m: int, b: int, n: int) -> bool {
    a * n < b * m
}

pub open spec fn never_or_before(a: Option<u64>, b: Option<u64>) -> bool {
    match (a, b) {
        (None, Some(_)) => true,
        (Some(x), Some(y)) => x < y,
        _ => false,
    }
}

/// The order of accounts by load: the share of active workers, then the share of the
/// dispatch window, then the time of the last selection (never comes first), then the
/// id.
pub open spec fn less_loaded(a: LoadKey, b: LoadKey) -> bool {
    if fraction_lt(a.active, a.max_active, b.active, b.max_active) {
        true
    } else if fraction_lt(b.active, b.max_active, a.active, a.max_active) {
        false
    } else if fraction_lt(a.window, a.max_window, b.window, b.max_window) {
        true
    } else if fraction_lt(b.window, b.max_window, a.window, a.max_window) {
        false
    } else if a.last_selected != b.last_selected {
        never_or_before(a.last_selected, b.last_selected)
    } else {
        text_lt(a.id, b.id)
    }
}

/// How loaded an account is.
pub open spec fn load_key(account: AccountConfig, state: StateModel, load: LoadModel) -> LoadKey {
    LoadKey {
        active: count_for(load.counts, account.id@) + reserved_active(
            state.reservations,
            load.scope_ids,
        ),
        max_active: account.limits.max_active_workers as int,
        window: (state.dispatches_ms.len() + state.reservations.len()) as int,
        max_window: account.limits.max_dispatches as int,
        last_selected: state.last_selected_ms,
        id: account.id@,
    }
}

proof fn lemma_fraction_trans(a: int, m: int, b: int, n: int, c: int, k: int)
    by (nonlinear_arith)
    requires
        m > 0,
        n > 0,
        k > 0,
        a * n <= b * m,
        b * k <= c * n,
    ensures
        a * k <= c * m,
        (a * n < b * m || b * k < c * n) ==> a * k < c * m,
{
    assert(a * n * k <= b * m * k);
    assert(b * k * m <= c * n * m);
    assert(n * (a * k) <= n * (c * m));
    if a * n < b * m {
        assert(a * n * k < b * m * k);
        assert(n * (a * k) < n * (c * m));
    }
    if b * k < c * n {
        assert(b * k * m < c * n * m);
        assert(n * (a * k) < n * (c * m));
    }
}

proof fn lemma_text_trans(a: Seq<char>, b: Seq<char>, c: Seq<char>)
    requires
        text_lt(a, b),
        text_lt(b, c),
    ensures
        text_lt(a, c),
    decreases a.len(),
{
    if a.len() > 0 && b.len() > 0 && c.len() > 0 && a[0] == b[0] && b[0] == c[0] {
        lemma_text_trans(a.drop_first(), b.drop_first(), c.drop_first());
    }
}

proof fn lemma_text_total(a: Seq<char>, b: Seq<char>)
    ensures
        a == b || text_lt(a, b) || text_lt(b, a),
    decreases a.len(),
{
    if a.len() > 0 && b.len() > 0 && a[0] == b[0] {
        lemma_text_total(a.drop_first(), b.drop_first());
        if a.drop_first() == b.drop_first() {
            assert(a =~= seq![a[0]] + a.drop_first());
            assert(b =~= seq![b[0]] + b.drop_first());
        }
    } else if a.len() == 0 && b.len() == 0 {
        assert(a =~= b);
    }
}

pub open spec fn positive_key(k: LoadKey) -> bool {
    k.max_active > 0 && k.max_window > 0
}

/// The order by load is transitive among accounts with limits above zero.
pub proof fn lemma_less_loaded_trans(a: LoadKey, b: LoadKey, c: LoadKey)
    requires
        positive_key(a),
        positive_key(b),
        positive_key(c),
        less_loaded(a, b),
        less_loaded(b, c),
    ensures
        less_loaded(a, c),
{
    lemma_fraction_trans(a.active, a.max_active, b.active, b.max_active, c.active, c.max_active);
    if !fraction_lt(a.active, a.max_active, b.active, b.max_active) && !fraction_lt(
        b.active,
        b.max_active,
        c.active,
        c.max_active,
    ) {
        lemma_fraction_trans(c.active, c.max_active, b.active, b.max_active, a.active, a.max_active);
        lemma_fraction_trans(a.window, a.max_window, b.window, b.max_window, c.window, c.max_window);
        if !fraction_lt(a.window, a.max_window, b.window, b.max_window) && !fraction_lt(
            b.window,
            b.max_window,
            c.window,
            c.max_window,
        ) {
            lemma_fraction_trans(
                c.window,
                c.max_window,
                b.window,
                b.max_window,
                a.window,
                a.max_window,
            );
            if a.last_selected == b.last_selected && b.last_selected == c.last_selected {
                lemma_text_trans(a.id, b.id, c.id);
            }
        }
    }
}

/// Of two accounts with distinct ids one is less loaded than the other.
pub proof fn lemma_less_loaded_total(a: LoadKey, b: LoadKey)
    requires
        a.id != b.id,
    ensures
        less_loaded(a, b) || less_loaded(b, a),
{
    lemma_text_total(a.id, b.id);
}

/// Whether the first account is less loaded than the second.
fn is_less_loaded(
    left: &AccountConfig,
    left_state: &AccountRuntimeState,
    right: &AccountConfig,
    right_state: &AccountRuntimeState,
    load: &WorkerLoad,
) -> (r: bool)
    requires
        load_key(*left, left_state@, load@).active <= usize::MAX,
        load_key(*right, right_state@, load@).active <= usize::MAX,
        load_key(*left, left_state@, load@).window <= usize::MAX,
        load_key(*right, right_state@, load@).window <= usize::MAX,
    ensures
        r == less_loaded(load_key(*left, left_state@, load@), load_key(*right, right_state@, load@)),
{
    let la: usize = load.workers(left.id.as_str()) + count_reserved_active(
        left_state,
        &load.scope_ids,
    );
    let ra: usize = load.workers(right.id.as_str()) + count_reserved_active(
        right_state,
        &load.scope_ids,
    );
    if fraction_before(la, left.limits.max_active_workers, ra, right.limits.max_active_workers) {
        return true;
    }
    if fraction_before(ra, right.limits.max_active_workers, la, left.limits.max_active_workers) {
        return false;
    }
    let lw: usize = left_state.window_used() + left_state.reserved();
    let rw: usize = right_state.window_used() + right_state.reserved();
    if fraction_before(lw, left.limits.max_dispatches, rw, right.limits.max_dispatches) {
        return true;
    }
    if fraction_before(rw, right.limits.max_dispatches, lw, left.limits.max_dispatches) {
        return false;
    }
    match (left_state.last_selected_ms, right_state.last_selected_ms) {
        (None, Some(_)) => true,
        (Some(_), None) => false,
        (Some(x), Some(y)) => if x != y {
            x < y
        } else {
            text_before(left.id.as_str(), right.id.as_str())
        },
        (None, None) => text_before(left.id.as_str(), right.id.as_str()),
    }
}

/// `a / m < b / n`, by cross multiplication.
fn fraction_before(a: usize, m: usize, b: usize, n: usize) -> (r: bool)
    ensures
        r == fraction_lt(a as int, m as int, b as int, n as int),
{
    assert(a as u128 * n as u128 <= u128::MAX) by (nonlinear_arith)
        requires
            a <= 0xffff_ffff_ffff_ffff,
            n <= 0xffff_ffff_ffff_ffff,
    ;
    assert(b as u128 * m as u128 <= u128::MAX) by (nonlinear_arith)
        requires
            b <= 0xffff_ffff_ffff_ffff,
            m <= 0xffff_ffff_ffff_ffff,
    ;
    (a as u128) * (n as u128) < (b as u128) * (m as u128)
}

/// What a selection depends on besides the states of the accounts.
pub struct RouteContext {
    pub accounts: Seq<AccountConfig>,
    pub strategy: RoutingStrategy,
    pub load: LoadModel,
    pub now_ms: u64,
    pub allow_disabled: bool,
}

/// `start + k`, counted round a circle of `n` places.
pub open spec fn around(start: int, k: int, n: int) -> int {
    if start + k < n {
        start + k
    } else {
        start + k - n
    }
}

impl RouteContext {
    /// Why an account cannot take work.
    pub open spec fn refusal(self, states: Seq<StateModel>, i: int) -> Option<ExhaustionModel> {
        exhaustion(
            self.accounts[i],
            states[i],
            count_for(self.load.counts, self.accounts[i].id@),
            self.load.scope_ids,
            self.now_ms,
            self.allow_disabled,
        )
    }

    pub open spec fn eligible(self, states: Seq<StateModel>, i: int) -> bool {
        self.refusal(states, i) is None
    }

    pub open spec fn any_eligible(self, states: Seq<StateModel>) -> bool {
        exists|i: int| 0 <= i < self.accounts.len() && #[trigger] self.eligible(states, i)
    }

    pub open spec fn key(self, states: Seq<StateModel>, i: int) -> LoadKey {
        load_key(self.accounts[i], states[i], self.load)
    }

    /// The account can take work and is less loaded than any other that can.
    pub open spec fn is_least(self, states: Seq<StateModel>, i: int) -> bool {
        &&& 0 <= i < self.accounts.len()
        &&& self.eligible(states, i)
        &&& forall|j: int|
            0 <= j < self.accounts.len() && j != i && #[trigger] self.eligible(states, j)
                ==> less_loaded(self.key(states, i), self.key(states, j))
    }

    /// How far behind `start`, from `k` on, the next account stands that can take work.
    pub open spec fn round_offset(self, states: Seq<StateModel>, start: int, k: int) -> int
        decreases self.accounts.len() - k,
    {
        if k >= self.accounts.len() || self.eligible(states, around(start, k, self.accounts.len() as int)) {
            k
        } else {
            self.round_offset(states, start, k + 1)
        }
    }

    /// Where the round starts.
    pub open spec fn round_start(self, cursor: u64) -> int {
        cursor as int % self.accounts.len() as int
    }

    /// The account that takes the next piece of work: the next one round the circle, or
    /// the least loaded one.
    pub open spec fn pick(self, states: Seq<StateModel>, cursor: u64) -> Option<int> {
        if !self.any_eligible(states) {
            None
        } else {
            match self.strategy {
                RoutingStrategy::RoundRobin => {
                    let start = self.round_start(cursor);
                    Some(
                        around(
                            start,
                            self.round_offset(states, start, 0),
                            self.accounts.len() as int,
                        ),
                    )
                },
                RoutingStrategy::LeastLoaded => Some(choose|i: int| self.is_least(states, i)),
            }
        }
    }

    /// Where the next round starts.
    pub open spec fn next_cursor(self, states: Seq<StateModel>, cursor: u64) -> u64 {
        match self.strategy {
            RoutingStrategy::RoundRobin => sat_add(
                cursor,
                (self.round_offset(states, self.round_start(cursor), 0) + 1) as u64,
            ),
            RoutingStrategy::LeastLoaded => cursor,
        }
    }

    /// Why each account cannot take work, where none can.
    pub open spec fn refusals(self, states: Seq<StateModel>) -> Seq<ExhaustionModel> {
        Seq::new(self.accounts.len(), |i: int| self.refusal(states, i)->0)
    }
}

/// What kind of work an account is selected for.
#[derive(Clone, Copy, Debug)]
pub struct AccountSelection {
    pub now_ms: u64,
    pub allow_disabled: bool,
    pub forced_index: Option<usize>,
}

impl AccountSelection {
    /// Fresh work, for any account that takes new work.
    pub fn fresh(now_ms: u64) -> (r: Self)
        ensures
            r.now_ms == now_ms && !r.allow_disabled && r.forced_index is None,
    {
        AccountSelection { now_ms, allow_disabled: false, forced_index: None }
    }

    /// Work that goes on in the account that began it, whether or not that account
    /// takes new work.
    pub fn retained(now_ms: u64, account_index: usize) -> (r: Self)
        ensures
            r.now_ms == now_ms && r.allow_disabled && r.forced_index == Some(account_index),
    {
        AccountSelection { now_ms, allow_disabled: true, forced_index: Some(account_index) }
    }
}

pub open spec fn route_context(
    config: AccountsConfig,
    load: LoadModel,
    selection: AccountSelection,
) -> RouteContext {
    RouteContext {
        accounts: config.accounts@,
        strategy: config.routing.strategy,
        load,
        now_ms: selection.now_ms,
        allow_disabled: selection.allow_disabled,
    }
}

pub open spec fn state_models(v: Seq<AccountRuntimeState>) -> Seq<StateModel> {
    v.map_values(|s: AccountRuntimeState| s@)
}

proof fn lemma_eligible_bounds(ctx: RouteContext, states: Seq<StateModel>, i: int)
    requires
        0 <= i < ctx.accounts.len(),
        ctx.eligible(states, i),
    ensures
        positive_key(ctx.key(states, i)),
        ctx.key(states, i).active < ctx.accounts[i].limits.max_active_workers,
        ctx.key(states, i).window < ctx.accounts[i].limits.max_dispatches,
{
}

proof fn lemma_less_loaded_asym(a: LoadKey, b: LoadKey)
    ensures
        !(less_loaded(a, b) && less_loaded(b, a)),
{
    lemma_text_lt_asym(a.id, b.id);
}

/// At most one account is the least loaded.
pub proof fn lemma_least_is_unique(ctx: RouteContext, states: Seq<StateModel>, i: int, j: int)
    requires
        ctx.is_least(states, i),
        ctx.is_least(states, j),
    ensures
        i == j,
{
    lemma_less_loaded_asym(ctx.key(states, i), ctx.key(states, j));
}

/// Why the accounts from `from` up to `to` cannot take work.
fn build_exhaustion(
    config: &AccountsConfig,
    states: &Vec<AccountRuntimeState>,
    load: &WorkerLoad,
    selection: AccountSelection,
    from: usize,
    to: usize,
) -> (r: RoutingExhausted)
    requires
        from <= to <= config.accounts@.len(),
        states@.len() == config.accounts@.len(),
        forall|i: int|
            from <= i < to ==> !#[trigger] route_context(*config, load@, selection).eligible(
                state_models(states@),
                i,
            ),
    ensures
        r.now_ms == selection.now_ms,
        exhaustion_models(r.accounts@) == Seq::new(
            (to - from) as nat,
            |k: int|
                route_context(*config, load@, selection).refusal(state_models(states@), from + k)->0,
        ),
{
    let ghost ctx = route_context(*config, load@, selection);
    let ghost m = state_models(states@);
    let mut out: Vec<AccountExhaustion> = Vec::new();
    let mut i: usize = from;
    while i < to
        invariant
            from <= i <= to <= config.accounts@.len(),
            states@.len() == config.accounts@.len(),
            ctx == route_context(*config, load@, selection),
            m == state_models(states@),
            forall|j: int| from <= j < to ==> !#[trigger] ctx.eligible(m, j),
            out@.len() == i - from,
            forall|k: int| 0 <= k < i - from ==> (#[trigger] out@[k])@ == ctx.refusal(m, from + k)->0,
        decreases to - i,
    {
        assert(!ctx.eligible(m, i as int));
        assert(m[i as int] == states@[i as int]@);
        match eligibility_reason(
            &config.accounts[i],
            &states[i],
            load,
            selection.now_ms,
            selection.allow_disabled,
        ) {
            Some(e) => {
                out.push(e);
            },
            None => {},
        }
        i += 1;
    }
    assert(exhaustion_models(out@) =~= Seq::new(
        (to - from) as nat,
        |k: int| ctx.refusal(m, from + k)->0,
    ));
    RoutingExhausted { now_ms: selection.now_ms, accounts: out }
}

/// Selects the account for a piece of work. A forced account is taken or refused by
/// itself; else the strategy picks one, and the round moves on behind it.
pub fn select_account(
    config: &AccountsConfig,
    states: &Vec<AccountRuntimeState>,
    load: &WorkerLoad,
    router_state: &mut RouterRuntimeState,
    selection: AccountSelection,
) -> (r: Result<usize, RoutingExhausted>)
    requires
        config.wf(),
        states@.len() == config.accounts@.len(),
        selection.forced_index is Some ==> selection.forced_index->0 < config.accounts@.len(),
    ensures
        match selection.forced_index {
            Some(i) => {
                let ctx = route_context(*config, load@, selection);
                let m = state_models(states@);
                &&& *final(router_state) == *old(router_state)
                &&& match r {
                    Ok(k) => k == i && ctx.eligible(m, i as int),
                    Err(x) => {
                        &&& !ctx.eligible(m, i as int)
                        &&& x.now_ms == selection.now_ms
                        &&& exhaustion_models(x.accounts@) == seq![ctx.refusal(m, i as int)->0]
                    },
                }
            },
            None => {
                let ctx = route_context(*config, load@, selection);
                let m = state_models(states@);
                match r {
                    Ok(k) => {
                        &&& k < config.accounts@.len()
                        &&& ctx.eligible(m, k as int)
                        &&& ctx.pick(m, old(router_state).round_robin_cursor) == Some(k as int)
                        &&& ctx.strategy == RoutingStrategy::LeastLoaded ==> ctx.is_least(m, k as int)
                        &&& *final(router_state) == (RouterRuntimeState {
                            round_robin_cursor: ctx.next_cursor(
                                m,
                                old(router_state).round_robin_cursor,
                            ),
                            ..*old(router_state)
                        })
                    },
                    Err(x) => {
                        &&& !ctx.any_eligible(m)
                        &&& *final(router_state) == *old(router_state)
                        &&& x.now_ms == selection.now_ms
                        &&& exhaustion_models(x.accounts@) == ctx.refusals(m)
                    },
                }
            },
        },
{
    let ghost ctx = route_context(*config, load@, selection);
    let ghost m = state_models(states@);
    let n: usize = config.accounts.len();
    if let Some(index) = selection.forced_index {
        assert(m[index as int] == states@[index as int]@);
        let refused = eligibility_reason(
            &config.accounts[index],
            &states[index],
            load,
            selection.now_ms,
            selection.allow_disabled,
        );
        if refused.is_some() {
            let x = build_exhaustion(config, states, load, selection, index, index + 1);
            assert(exhaustion_models(x.accounts@) =~= seq![ctx.refusal(m, index as int)->0]);
            return Err(x);
        }
        return Ok(index);
    }
    let mut eligible: Vec<bool> = Vec::new();
    let mut any: bool = false;
    let mut i: usize = 0;
    while i < n
        invariant
            i <= n,
            n == config.accounts@.len(),
            states@.len() == n,
            ctx == route_context(*config, load@, selection),
            m == state_models(states@),
            eligible@.len() == i,
            forall|j: int| 0 <= j < i ==> #[trigger] eligible@[j] == ctx.eligible(m, j),
            any == exists|j: int| 0 <= j < i && #[trigger] ctx.eligible(m, j),
        decreases n - i,
    {
        assert(m[i as int] == states@[i as int]@);
        let ok = eligibility_reason(
            &config.accounts[i],
            &states[i],
            load,
            selection.now_ms,
            selection.allow_disabled,
        ).is_none();
        assert(ok == ctx.eligible(m, i as int));
        eligible.push(ok);
        if ok {
            any = true;
        }
        i += 1;
    }
    if !any {
        let x = build_exhaustion(config, states, load, selection, 0, n);
        assert(exhaustion_models(x.accounts@) =~= ctx.refusals(m));
        return Err(x);
    }
    match config.routing.strategy {
        RoutingStrategy::RoundRobin => {
            let cursor: u64 = router_state.round_robin_cursor;
            let start: usize = (cursor % (n as u64)) as usize;
            assert(start as int == ctx.round_start(cursor));
            let mut offset: usize = 0;
            while offset < n
                invariant_except_break
                    offset < n,
                    forall|k: int|
                        0 <= k < offset ==> !#[trigger] ctx.eligible(m, around(start as int, k, n as int)),
                invariant
                    offset <= n,
                    start < n,
                    n == config.accounts@.len(),
                    ctx.accounts == config.accounts@,
                    eligible@.len() == n,
                    forall|j: int| 0 <= j < n ==> #[trigger] eligible@[j] == ctx.eligible(m, j),
                    ctx.round_offset(m, start as int, 0) == ctx.round_offset(
                        m,
                        start as int,
                        offset as int,
                    ),
                    any,
                    any == exists|j: int| 0 <= j < n && #[trigger] ctx.eligible(m, j),
                ensures
                    offset < n,
                    ctx.eligible(m, around(start as int, offset as int, n as int)),
                decreases n - offset,
            {
                let index: usize = if offset < n - start {
                    start + offset
                } else {
                    offset - (n - start)
                };
                assert(index == around(start as int, offset as int, n as int));
                if eligible[index] {
                    break;
                }
                offset += 1;
                proof {
                    if offset == n {
                        let j = choose|j: int| 0 <= j < n && #[trigger] ctx.eligible(m, j);
                        let k = if j >= start {
                            j - start
                        } else {
                            j - start + n
                        };
                        assert(around(start as int, k, n as int) == j);
                        assert(!ctx.eligible(m, around(start as int, k, n as int)));
                    }
                }
            }
            let index: usize = if offset < n - start {
                start + offset
            } else {
                offset - (n - start)
            };
            router_state.round_robin_cursor = cursor.saturating_add(offset as u64 + 1);
            Ok(index)
        },
        RoutingStrategy::LeastLoaded => {
            let mut best: usize = 0;
            let mut some: bool = false;
            let mut i: usize = 0;
            while i < n
                invariant
                    i <= n,
                    n == config.accounts@.len(),
                    states@.len() == n,
                    config.wf(),
                    ctx == route_context(*config, load@, selection),
                    m == state_models(states@),
                    eligible@.len() == n,
                    forall|j: int| 0 <= j < n ==> #[trigger] eligible@[j] == ctx.eligible(m, j),
                    !some ==> forall|j: int| 0 <= j < i ==> !#[trigger] ctx.eligible(m, j),
                    some ==> best < i && ctx.eligible(m, best as int),
                    some ==> forall|j: int|
                        0 <= j < i && j != best && #[trigger] ctx.eligible(m, j) ==> less_loaded(
                            ctx.key(m, best as int),
                            ctx.key(m, j),
                        ),
                decreases n - i,
            {
                if eligible[i] {
                    assert(ctx.eligible(m, i as int));
                    if !some {
                        some = true;
                        best = i;
                    } else {
                        proof {
                            lemma_eligible_bounds(ctx, m, i as int);
                            lemma_eligible_bounds(ctx, m, best as int);
                            assert(m[i as int] == states@[i as int]@);
                            assert(m[best as int] == states@[best as int]@);
                        }
                        if is_less_loaded(
                            &config.accounts[i],
                            &states[i],
                            &config.accounts[best],
                            &states[best],
                            load,
                        ) {
                            proof {
                                assert forall|j: int|
                                    0 <= j < i + 1 && j != i && #[trigger] ctx.eligible(
                                        m,
                                        j,
                                    ) implies less_loaded(ctx.key(m, i as int), ctx.key(m, j)) by {
                                    if j != best {
                                        lemma_eligible_bounds(ctx, m, j);
                                        lemma_less_loaded_trans(
                                            ctx.key(m, i as int),
                                            ctx.key(m, best as int),
                                            ctx.key(m, j),
                                        );
                                    }
                                }
                            }
                            best = i;
                        } else {
                            proof {
                                assert(config.accounts@[best as int].id@
                                    != config.accounts@[i as int].id@);
                                lemma_less_loaded_total(
                                    ctx.key(m, best as int),
                                    ctx.key(m, i as int),
                                );
                            }
                        }
                    }
                }
                i += 1;
            }
            proof {
                assert(ctx.is_least(m, best as int));
                let c = choose|c: int| ctx.is_least(m, c);
                lemma_least_is_unique(ctx, m, best as int, c);
            }
            Ok(best)
        },
    }
}

/// A slot that was reserved in an account.
#[derive(Debug)]
pub struct RouteReservation {
    pub reservation_id: String,
    pub account: AccountConfig,
    pub created_ms: u64,
    pub expires_ms: u64,
}

impl Clone for RouteReservation {
    fn clone(&self) -> (r: Self)
        ensures
            r == *self,
    {
        RouteReservation {
            reservation_id: self.reservation_id.clone(),
            account: self.account.clone(),
            created_ms: self.created_ms,
            expires_ms: self.expires_ms,
        }
    }
}

/// When a reservation that is made now expires.
pub open spec fn expiry(now_ms: u64, ttl_seconds: u64) -> u64 {
    sat_add(now_ms, seconds_ms(ttl_seconds))
}

/// The state of an account in which a slot was just reserved.
pub open spec fn with_reservation(
    state: StateModel,
    id: Seq<char>,
    now_ms: u64,
    expires_ms: u64,
) -> StateModel {
    StateModel {
        reservations: state.reservations.push(
            ReservationModel { reservation_id: id, scope_id: None, created_ms: now_ms, expires_ms },
        ),
        last_selected_ms: Some(now_ms),
        ..state
    }
}

/// What a batch of reservations comes to.
pub struct BatchModel {
    pub states: Seq<StateModel>,
    pub cursor: u64,
    /// The account that each reservation went to.
    pub picks: Seq<int>,
}

/// Reserves one slot after the other, each in the account that is picked in the light
/// of those before it; the first that no account can take ends the batch.
pub open spec fn batch(
    ctx: RouteContext,
    states: Seq<StateModel>,
    cursor: u64,
    expires_ms: u64,
    ids: Seq<Seq<char>>,
) -> Result<BatchModel, Seq<ExhaustionModel>>
    decreases ids.len(),
{
    if ids.len() == 0 {
        Ok(BatchModel { states, cursor, picks: Seq::empty() })
    } else {
        match batch(ctx, states, cursor, expires_ms, ids.drop_last()) {
            Err(e) => Err(e),
            Ok(b) => match ctx.pick(b.states, b.cursor) {
                None => Err(ctx.refusals(b.states)),
                Some(i) => Ok(
                    BatchModel {
                        states: b.states.update(
                            i,
                            with_reservation(b.states[i], ids.last(), ctx.now_ms, expires_ms),
                        ),
                        cursor: ctx.next_cursor(b.states, b.cursor),
                        picks: b.picks.push(i),
                    },
                ),
            },
        }
    }
}

/// The states of all configured accounts as they stand now, or nothing where one
/// cannot be loaded.
pub open spec fn current_states(
    store: AccountStateStore,
    accounts: Seq<AccountConfig>,
    now_ms: u64,
) -> Option<Seq<StateModel>> {
    if forall|i: int| 0 <= i < accounts.len() ==> store.loaded((#[trigger] accounts[i]).id@) is Some {
        Some(
            Seq::new(
                accounts.len(),
                |i: int|
                    store.loaded(accounts[i].id@)->0.reconciled(
                        now_ms,
                        seconds_ms(accounts[i].limits.window_seconds),
                    ),
            ),
        )
    } else {
        None
    }
}

/// `after` is `before` with the states of all configured accounts written.
pub open spec fn wrote_all(
    after: AccountStateStore,
    before: AccountStateStore,
    accounts: Seq<AccountConfig>,
    states: Seq<StateModel>,
) -> bool {
    &&& after.bridge_dir == before.bridge_dir
    &&& one_file_each(before.accounts@) ==> one_file_each(after.accounts@)
    &&& forall|i: int|
        0 <= i < accounts.len() ==> stored(after.accounts@, (#[trigger] accounts[i]).id@) == Some(
            states[i],
        )
    &&& forall|id: Seq<char>|
        (forall|i: int| 0 <= i < accounts.len() ==> (#[trigger] accounts[i]).id@ != id)
            ==> #[trigger] stored(after.accounts@, id) == stored(before.accounts@, id)
}

/// The states belong to the accounts, one to each.
pub open spec fn sound_states(
    states: Seq<AccountRuntimeState>,
    accounts: Seq<AccountConfig>,
) -> bool {
    &&& states.len() == accounts.len()
    &&& forall|i: int|
        0 <= i < states.len() ==> {
            &&& (#[trigger] states[i]).version == ACCOUNT_STATE_VERSION
            &&& states[i].account_id@ == accounts[i].id@
            &&& is_account_id(states[i].account_id@)
        }
}

/// The router of a bridge, over what its directory holds.
#[derive(Debug)]
pub struct AccountRouter {
    pub bridge_dir: String,
    pub mount_root: String,
    pub legacy: LegacyAccountConfig,
    pub store: AccountStateStore,
}

/// Some account's state cannot be loaded, and `e` is the failure of the first such.
pub open spec fn is_states_error(
    store: AccountStateStore,
    accounts: Seq<AccountConfig>,
    e: BridgeError,
) -> bool {
    exists|i: int|
        0 <= i < accounts.len() && store.is_load_error((#[trigger] accounts[i]).id@, e) && (forall|
            j: int,
        |
            0 <= j < i ==> store.loaded((#[trigger] accounts[j]).id@) is Some)
}

impl AccountRouter {
    /// A router over an empty directory.
    pub fn new(bridge_dir: &str, mount_root: &str, legacy: LegacyAccountConfig) -> (r: Self)
        ensures
            r.bridge_dir@ == bridge_dir@,
            r.mount_root@ == mount_root@,
            r.legacy == legacy,
            r.store.bridge_dir@ == bridge_dir@,
            r.store.router is None,
            forall|id: Seq<char>| #[trigger] stored(r.store.accounts@, id) is None,
    {
        AccountRouter {
            store: AccountStateStore::new(bridge_dir),
            bridge_dir: bridge_dir.to_owned(),
            mount_root: mount_root.to_owned(),
            legacy,
        }
    }

    /// The configuration of the bridge.
    pub fn load_config(&self, file: Option<&AccountsFile>, facts: &Vec<ProfileFacts>) -> (r: Result<
        AccountsConfig,
        RouterError,
    >)
        requires
            file is Some ==> facts@.len() == file->0.accounts@.len(),
        ensures
            match r {
                Ok(c) => config_outcome(
                    file,
                    self.bridge_dir@,
                    self.mount_root@,
                    facts@,
                    self.legacy,
                    Ok(c),
                ),
                Err(e) => e matches RouterError::State(b) && config_outcome(
                    file,
                    self.bridge_dir@,
                    self.mount_root@,
                    facts@,
                    self.legacy,
                    Err(b),
                ),
            },
    {
        match load_accounts_config(
            file,
            self.bridge_dir.as_str(),
            self.mount_root.as_str(),
            facts,
            self.legacy.clone(),
        ) {
            Ok(c) => Ok(c),
            Err(e) => Err(RouterError::State(e)),
        }
    }

    /// `self` is `before` but for its store.
    pub open spec fn same_but_store(self, before: AccountRouter) -> bool {
        &&& self.bridge_dir == before.bridge_dir
        &&& self.mount_root == before.mount_root
        &&& self.legacy == before.legacy
    }

    /// The states of all configured accounts as they stand now.
    fn load_reconciled_states(&self, config: &AccountsConfig, now_ms: u64) -> (r: Result<
        Vec<AccountRuntimeState>,
        BridgeError,
    >)
        ensures
            match r {
                Ok(v) => sound_states(v@, config.accounts@) && current_states(
                    self.store,
                    config.accounts@,
                    now_ms,
                ) == Some(state_models(v@)),
                Err(e) => is_states_error(self.store, config.accounts@, e),
            },
    {
        let mut out: Vec<AccountRuntimeState> = Vec::new();
        let mut i: usize = 0;
        while i < config.accounts.len()
            invariant
                i <= config.accounts@.len(),
                out@.len() == i,
                forall|j: int|
                    0 <= j < i ==> {
                        let id = (#[trigger] config.accounts@[j]).id@;
                        &&& self.store.loaded(id) is Some
                        &&& out@[j]@ == self.store.loaded(id)->0.reconciled(
                            now_ms,
                            seconds_ms(config.accounts@[j].limits.window_seconds),
                        )
                    },
            decreases config.accounts@.len() - i,
        {
            let account = &config.accounts[i];
            let mut state = match self.store.load_account(account.id.as_str()) {
                Ok(s) => s,
                Err(e) => {
                    assert(self.store.is_load_error(config.accounts@[i as int].id@, e));
                    return Err(e);
                },
            };
            state.reconcile(now_ms, account.limits.window_ms());
            out.push(state);
            i += 1;
        }
        proof {
            let all = current_states(self.store, config.accounts@, now_ms);
            assert(state_models(out@) =~= all->0);
            assert forall|j: int| 0 <= j < out@.len() implies {
                &&& (#[trigger] out@[j]).version == ACCOUNT_STATE_VERSION
                &&& out@[j].account_id@ == config.accounts@[j].id@
                &&& is_account_id(out@[j].account_id@)
            } by {
                let id = config.accounts@[j].id@;
                assert(self.store.loaded(id) is Some);
                assert(out@[j]@.version == out@[j].version);
            }
        }
        Ok(out)
    }

    /// Writes the states of all configured accounts.
    fn persist_states(&mut self, config: &AccountsConfig, states: &Vec<AccountRuntimeState>)
        requires
            config.wf(),
            sound_states(states@, config.accounts@),
        ensures
            final(self).same_but_store(*old(self)),
            final(self).store.router == old(self).store.router,
            wrote_all(
                final(self).store,
                old(self).store,
                config.accounts@,
                state_models(states@),
            ),
    {
        let ghost before = self.store;
        let ghost m = state_models(states@);
        let mut i: usize = 0;
        while i < states.len()
            invariant
                i <= states@.len(),
                config.wf(),
                m == state_models(states@),
                before == old(self).store,
                sound_states(states@, config.accounts@),
                self.same_but_store(*old(self)),
                self.store.router == before.router,
                self.store.bridge_dir == before.bridge_dir,
                one_file_each(before.accounts@) ==> one_file_each(self.store.accounts@),
                forall|j: int|
                    0 <= j < i ==> stored(
                        self.store.accounts@,
                        (#[trigger] config.accounts@[j]).id@,
                    ) == Some(m[j]),
                forall|id: Seq<char>|
                    (forall|j: int| 0 <= j < i ==> (#[trigger] config.accounts@[j]).id@ != id)
                        ==> #[trigger] stored(self.store.accounts@, id) == stored(
                        before.accounts@,
                        id,
                    ),
            decreases states@.len() - i,
        {
            let ghost mid = self.store;
            let saved = self.store.save_account(&states[i]);
            proof {
                assert(states@[i as int].version == ACCOUNT_STATE_VERSION);
                assert(saved is Ok);
                assert(self.store.wrote(mid, states@[i as int]@));
                assert forall|j: int| 0 <= j < i + 1 implies stored(
                    self.store.accounts@,
                    (#[trigger] config.accounts@[j]).id@,
                ) == Some(m[j]) by {
                    if j < i {
                        assert(config.accounts@[j].id@ != config.accounts@[i as int].id@);
                    }
                }
                assert forall|id: Seq<char>|
                    (forall|j: int|
                        0 <= j < i + 1 ==> (#[trigger] config.accounts@[j]).id@
                            != id) implies #[trigger] stored(self.store.accounts@, id) == stored(
                    before.accounts@,
                    id,
                ) by {
                    assert(config.accounts@[i as int].id@ != id);
                    assert(stored(mid.accounts@, id) == stored(before.accounts@, id));
                }
            }
            i += 1;
        }
    }

    /// Reserves a slot for each of some ids: see [`batch`]. A refused batch changes
    /// nothing.
    pub fn reserve_batch_as(
        &mut self,
        config: &AccountsConfig,
        load: &WorkerLoad,
        ids: &Vec<String>,
        now_ms: u64,
    ) -> (r: Result<Vec<RouteReservation>, RouterError>)
        requires
            config.wf(),
        ensures
            final(self).same_but_store(*old(self)),
            batch_outcome(
                *config,
                load@,
                texts(ids@),
                now_ms,
                old(self).store,
                final(self).store,
                r,
            ),
    {
        if ids.len() == 0 {
            return Ok(Vec::new());
        }
        let mut router_state = match self.store.load_router() {
            Ok(s) => s,
            Err(e) => {
                return Err(RouterError::State(e));
            },
        };
        let ghost cursor = router_state.round_robin_cursor;
        let mut states = match self.load_reconciled_states(config, now_ms) {
            Ok(v) => v,
            Err(e) => {
                return Err(RouterError::State(e));
            },
        };
        let ghost first = state_models(states@);
        let selection = AccountSelection::fresh(now_ms);
        let ghost ctx = route_context(*config, load@, selection);
        let ttl_ms: u64 = saturating_mul(config.routing.reservation_ttl_seconds, 1000);
        let expires_ms: u64 = now_ms.saturating_add(ttl_ms);
        let mut out: Vec<RouteReservation> = Vec::new();
        let ghost all = texts(ids@);
        let mut k: usize = 0;
        assert(all.subrange(0, 0) =~= Seq::<Seq<char>>::empty());
        let ghost mut done = BatchModel { states: first, cursor, picks: Seq::empty() };
        while k < ids.len()
            invariant
                k <= ids@.len(),
                ids@.len() > 0,
                config.wf(),
                *self == *old(self),
                all == texts(ids@),
                selection.now_ms == now_ms && !selection.allow_disabled
                    && selection.forced_index is None,
                ctx == route_context(*config, load@, selection),
                expires_ms == expiry(now_ms, config.routing.reservation_ttl_seconds),
                first.len() == config.accounts@.len(),
                old(self).store.loaded_router().version == ROUTER_STATE_VERSION,
                old(self).store.loaded_router().round_robin_cursor == cursor,
                current_states(old(self).store, config.accounts@, now_ms) == Some(first),
                router_state.version == ROUTER_STATE_VERSION,
                batch(ctx, first, cursor, expires_ms, all.subrange(0, k as int)) == Ok::<
                    BatchModel,
                    Seq<ExhaustionModel>,
                >(done),
                state_models(states@) == done.states,
                router_state.round_robin_cursor == done.cursor,
                done.picks.len() == k,
                out@.len() == k,
                forall|j: int| 0 <= j < k ==> 0 <= #[trigger] done.picks[j] < config.accounts@.len(),
                forall|j: int|
                    0 <= j < k ==> {
                        &&& (#[trigger] out@[j]).reservation_id@ == all[j]
                        &&& out@[j].account == config.accounts@[done.picks[j]]
                        &&& out@[j].created_ms == now_ms
                        &&& out@[j].expires_ms == expires_ms
                    },
                sound_states(states@, config.accounts@),
            decreases ids@.len() - k,
        {
            proof {
                assert(all.subrange(0, k + 1).drop_last() =~= all.subrange(0, k as int));
                assert(all.subrange(0, k + 1).last() == all[k as int]);
                assert(all.subrange(0, all.len() as int) =~= all);
            }
            let selected = match select_account(
                config,
                &states,
                load,
                &mut router_state,
                selection,
            ) {
                Ok(i) => i,
                Err(x) => {
                    proof {
                        assert(batch(ctx, first, cursor, expires_ms, all.subrange(0, k + 1)) == Err::<
                            BatchModel,
                            Seq<ExhaustionModel>,
                        >(ctx.refusals(done.states)));
                        lemma_batch_error_stays(
                            ctx,
                            first,
                            cursor,
                            expires_ms,
                            all,
                            k + 1,
                        );
                    }
                    return Err(RouterError::Exhausted(x));
                },
            };
            let account = config.accounts[selected].clone();
            let mut state = states[selected].copy();
            let ghost before = state@;
            state.reservations.push(
                AccountReservation {
                    reservation_id: ids[k].clone(),
                    scope_id: None,
                    created_ms: now_ms,
                    expires_ms,
                },
            );
            state.last_selected_ms = Some(now_ms);
            proof {
                assert(states@[selected as int]@ == before);
                assert(state@ =~= with_reservation(before, all[k as int], now_ms, expires_ms));
            }
            let ghost old_states = states@;
            let ghost new_state = state;
            states.set(selected, state);
            out.push(
                RouteReservation {
                    reservation_id: ids[k].clone(),
                    account,
                    created_ms: now_ms,
                    expires_ms,
                },
            );
            proof {
                let next = BatchModel {
                    states: done.states.update(
                        selected as int,
                        with_reservation(
                            done.states[selected as int],
                            all[k as int],
                            now_ms,
                            expires_ms,
                        ),
                    ),
                    cursor: ctx.next_cursor(done.states, done.cursor),
                    picks: done.picks.push(selected as int),
                };
                assert(done.states[selected as int] == old_states[selected as int]@);
                assert(state_models(states@) =~= next.states);
                done = next;
            }
            k += 1;
        }
        assert(all.subrange(0, all.len() as int) =~= all);
        router_state.updated_ms = now_ms;
        self.persist_states(config, &states);
        let saved = self.store.save_router(&router_state);
        assert(saved is Ok);
        Ok(out)
    }
}

/// The failure of loading the state of a router of another version.
pub open spec fn is_router_version_error(version: u32, e: BridgeError) -> bool {
    &&& e is Precondition
    &&& e.detail() == "unsupported router runtime state version "@ + decimal(version as nat)
}

/// What reserving a batch of ids returns and leaves behind.
pub open spec fn batch_outcome(
    config: AccountsConfig,
    load: LoadModel,
    ids: Seq<Seq<char>>,
    now_ms: u64,
    before: AccountStateStore,
    after: AccountStateStore,
    r: Result<Vec<RouteReservation>, RouterError>,
) -> bool {
    let ctx = RouteContext {
        accounts: config.accounts@,
        strategy: config.routing.strategy,
        load,
        now_ms,
        allow_disabled: false,
    };
    let expires_ms = expiry(now_ms, config.routing.reservation_ttl_seconds);
    let router = before.loaded_router();
    if ids.len() == 0 {
        &&& after == before
        &&& r matches Ok(v)
        &&& v@.len() == 0
    } else if router.version != ROUTER_STATE_VERSION {
        &&& after == before
        &&& r matches Err(RouterError::State(e))
        &&& is_router_version_error(router.version, e)
    } else {
        match current_states(before, config.accounts@, now_ms) {
            None => {
                &&& after == before
                &&& r matches Err(RouterError::State(e))
                &&& is_states_error(before, config.accounts@, e)
            },
            Some(states) => match batch(ctx, states, router.round_robin_cursor, expires_ms, ids) {
                Err(list) => {
                    &&& after == before
                    &&& r matches Err(RouterError::Exhausted(x))
                    &&& x.now_ms == now_ms
                    &&& exhaustion_models(x.accounts@) == list
                },
                Ok(b) => {
                    &&& wrote_all(after, before, config.accounts@, b.states)
                    &&& after.router == Some(
                        RouterRuntimeState {
                            version: ROUTER_STATE_VERSION,
                            round_robin_cursor: b.cursor,
                            updated_ms: now_ms,
                        },
                    )
                    &&& r matches Ok(v)
                    &&& v@.len() == ids.len()
                    &&& b.picks.len() == ids.len()
                    &&& forall|j: int|
                        0 <= j < ids.len() ==> {
                            &&& (#[trigger] v@[j]).reservation_id@ == ids[j]
                            &&& v@[j].account == config.accounts@[b.picks[j]]
                            &&& v@[j].created_ms == now_ms
                            &&& v@[j].expires_ms == expires_ms
                        }
                },
            },
        }
    }
}

proof fn lemma_batch_error_stays(
    ctx: RouteContext,
    states: Seq<StateModel>,
    cursor: u64,
    expires_ms: u64,
    ids: Seq<Seq<char>>,
    k: int,
)
    requires
        0 <= k <= ids.len(),
        batch(ctx, states, cursor, expires_ms, ids.subrange(0, k)) is Err,
    ensures
        batch(ctx, states, cursor, expires_ms, ids) == batch(
            ctx,
            states,
            cursor,
            expires_ms,
            ids.subrange(0, k),
        ),
    decreases ids.len(),
{
    if k == ids.len() {
        assert(ids.subrange(0, k) =~= ids);
    } else {
        assert(ids.drop_last().subrange(0, k) =~= ids.subrange(0, k));
        lemma_batch_error_stays(ctx, states, cursor, expires_ms, ids.drop_last(), k);
    }
}

/// The state of an account as it stands now, where the account is configured and its
/// state can be loaded.
pub open spec fn account_now(
    config: AccountsConfig,
    store: AccountStateStore,
    id: Seq<char>,
    now_ms: u64,
) -> Option<StateModel> {
    let at = account_position(config.accounts@, id);
    if at < config.accounts@.len() {
        match store.loaded(id) {
            Some(s) => Some(
                s.reconciled(now_ms, seconds_ms(config.accounts@[at].limits.window_seconds)),
            ),
            None => None,
        }
    } else {
        None
    }
}

/// The failure of looking at an account that is not configured or whose state cannot
/// be loaded.
pub open spec fn is_account_error(
    config: AccountsConfig,
    store: AccountStateStore,
    id: Seq<char>,
    e: RouterError,
) -> bool {
    if account_position(config.accounts@, id) < config.accounts@.len() {
        &&& e matches RouterError::State(b)
        &&& store.is_load_error(id, b)
    } else {
        &&& e matches RouterError::AccountUnavailable(x)
        &&& x@ == id
    }
}

impl StateModel {
    /// The state with the first reservation of this id bound to a scope.
    pub open spec fn bound(self, id: Seq<char>, scope_id: Seq<char>) -> StateModel {
        let i = reservation_position(self.reservations, id);
        StateModel {
            reservations: self.reservations.update(
                i,
                ReservationModel { scope_id: Some(scope_id), ..self.reservations[i] },
            ),
            ..self
        }
    }

    /// The scope to which the first reservation of this id is bound.
    pub open spec fn binding(self, id: Seq<char>) -> Option<Seq<char>> {
        self.reservations[reservation_position(self.reservations, id)].scope_id
    }

    /// The state in which a reservation has become a dispatch.
    pub open spec fn dispatched(self, id: Seq<char>, dispatch_ms: u64) -> StateModel {
        let s = self.without_reservation(id);
        StateModel { dispatches_ms: s.dispatches_ms.push(dispatch_ms), ..s }
    }

    /// The state with a cooldown set.
    pub open spec fn cooling(self, until_ms: u64, reason: Seq<char>) -> StateModel {
        StateModel { cooldown_until_ms: Some(until_ms), cooldown_reason: Some(reason), ..self }
    }
}

/// How long an account cools down after a rate limit: for the reported time, else for
/// a configured one that depends on the reason, and for at least a second.
pub open spec fn cooldown_seconds(
    config: AccountsConfig,
    reason: Seq<char>,
    reset_after_seconds: Option<u64>,
) -> u64 {
    let seconds = match reset_after_seconds {
        Some(s) => s,
        None => if reason == "capacity"@ {
            config.routing.selection_failure_backoff_seconds
        } else {
            config.defaults.cooldown.unknown_rate_limit_seconds
        },
    };
    if seconds < 1 {
        1
    } else {
        seconds
    }
}

/// What reserving a slot in one account returns and leaves behind.
pub open spec fn retained_outcome(
    config: AccountsConfig,
    load: LoadModel,
    account_id: Seq<char>,
    now_ms: u64,
    before: AccountStateStore,
    after: AccountStateStore,
    r: Result<RouteReservation, RouterError>,
) -> bool {
    let at = account_position(config.accounts@, account_id);
    let ctx = RouteContext {
        accounts: config.accounts@,
        strategy: config.routing.strategy,
        load,
        now_ms,
        allow_disabled: true,
    };
    let expires_ms = expiry(now_ms, config.routing.reservation_ttl_seconds);
    if at == config.accounts@.len() {
        &&& after == before
        &&& r matches Err(RouterError::AccountUnavailable(x))
        &&& x@ == account_id
    } else if before.loaded_router().version != ROUTER_STATE_VERSION {
        &&& after == before
        &&& r matches Err(RouterError::State(e))
        &&& is_router_version_error(before.loaded_router().version, e)
    } else {
        match current_states(before, config.accounts@, now_ms) {
            None => {
                &&& after == before
                &&& r matches Err(RouterError::State(e))
                &&& is_states_error(before, config.accounts@, e)
            },
            Some(states) => match ctx.refusal(states, at) {
                Some(refusal) => {
                    &&& after == before
                    &&& r matches Err(RouterError::Exhausted(x))
                    &&& x.now_ms == now_ms
                    &&& exhaustion_models(x.accounts@) == seq![refusal]
                },
                None => {
                    &&& r matches Ok(v)
                    &&& v.account == config.accounts@[at]
                    &&& v.created_ms == now_ms
                    &&& v.expires_ms == expires_ms
                    &&& wrote_all(
                        after,
                        before,
                        config.accounts@,
                        states.update(
                            at,
                            with_reservation(states[at], v.reservation_id@, now_ms, expires_ms),
                        ),
                    )
                    &&& after.router == Some(
                        RouterRuntimeState { updated_ms: now_ms, ..before.loaded_router() },
                    )
                },
            },
        }
    }
}

/// What reserving a number of slots under fresh ids returns and leaves behind.
pub open spec fn fresh_batch_outcome(
    config: AccountsConfig,
    load: LoadModel,
    count: nat,
    now_ms: u64,
    before: AccountStateStore,
    after: AccountStateStore,
    r: Result<Vec<RouteReservation>, RouterError>,
) -> bool {
    exists|ids: Seq<Seq<char>>|
        {
            &&& ids.len() == count
            &&& forall|i: int| 0 <= i < ids.len() ==> is_hyphenated(#[trigger] ids[i])
            &&& #[trigger] batch_outcome(config, load, ids, now_ms, before, after, r)
        }
}

/// Whether the lock of a scope is held.
#[derive(Clone, Copy, Debug, PartialEq, Eq, Structural)]
pub enum LockProbe {
    /// Another process holds the lock.
    Held,
    /// Nobody holds the lock.
    Free,
    /// The lock could not be probed.
    Failed,
}

/// What is known of the worker of a scope.
#[derive(Debug)]
pub struct ScopeActivity {
    pub scope_id: String,
    pub account_id: String,
    /// Whether the delegation of the scope has reached a terminal state, where the
    /// scope has a delegation.
    pub terminal: Option<bool>,
    pub lock: LockProbe,
}

impl ScopeActivity {
    /// The scope counts as a running worker: its delegation goes on, and its lock is
    /// held or cannot be probed.
    pub open spec fn counts(self) -> bool {
        self.terminal == Some(false) && self.lock != LockProbe::Free
    }

    /// Whether the scope counts as a running worker.
    pub fn is_live(&self) -> (r: bool)
        ensures
            r == self.counts(),
    {
        match self.terminal {
            Some(false) => match self.lock {
                LockProbe::Free => false,
                _ => true,
            },
            _ => false,
        }
    }
}

/// The ids of the scopes that count as running workers.
pub open spec fn live_scope_ids(scopes: Seq<ScopeActivity>) -> Seq<Seq<char>> {
    scopes.filter(|s: ScopeActivity| s.counts()).map_values(|s: ScopeActivity| s.scope_id@)
}

/// How many of the scopes that count as running workers belong to an account.
pub open spec fn live_workers(scopes: Seq<ScopeActivity>, account_id: Seq<char>) -> nat {
    scopes.filter(|s: ScopeActivity| s.counts() && s.account_id@ == account_id).len()
}

/// `load` is the load of the running workers among some scopes.
pub open spec fn is_live_load(load: LoadModel, scopes: Seq<ScopeActivity>) -> bool {
    &&& load.scope_ids == Some(live_scope_ids(scopes))
    &&& forall|id: Seq<char>| #[trigger] count_for(load.counts, id) == live_workers(scopes, id)
}

proof fn lemma_count_for_update(counts: Seq<AccountCount>, i: int, new: AccountCount, id: Seq<char>)
    requires
        0 <= i < counts.len(),
        counts[i].account_id@ == new.account_id@,
        forall|j: int| 0 <= j < i ==> (#[trigger] counts[j]).account_id@ != new.account_id@,
    ensures
        count_for(counts.update(i, new), id) == (if id == new.account_id@ {
            new.workers
        } else {
            count_for(counts, id)
        }),
    decreases counts.len(),
{
    let u = counts.update(i, new);
    if i > 0 {
        assert(u.drop_first() =~= counts.drop_first().update(i - 1, new));
        assert forall|j: int| 0 <= j < i - 1 implies (
        #[trigger] counts.drop_first()[j]).account_id@ != new.account_id@ by {
            assert(counts.drop_first()[j] == counts[j + 1]);
        }
        lemma_count_for_update(counts.drop_first(), i - 1, new, id);
        assert(counts[0].account_id@ != new.account_id@);
    } else {
        assert(u.drop_first() =~= counts.drop_first());
    }
}

proof fn lemma_count_for_push(counts: Seq<AccountCount>, new: AccountCount, id: Seq<char>)
    requires
        forall|j: int|
            0 <= j < counts.len() ==> (#[trigger] counts[j]).account_id@ != new.account_id@,
    ensures
        count_for(counts.push(new), id) == (if id == new.account_id@ {
            new.workers
        } else {
            count_for(counts, id)
        }),
    decreases counts.len(),
{
    let u = counts.push(new);
    if counts.len() > 0 {
        assert(u.drop_first() =~= counts.drop_first().push(new));
        assert forall|j: int| 0 <= j < counts.drop_first().len() implies (
        #[trigger] counts.drop_first()[j]).account_id@ != new.account_id@ by {
            assert(counts.drop_first()[j] == counts[j + 1]);
        }
        lemma_count_for_push(counts.drop_first(), new, id);
        assert(counts[0].account_id@ != new.account_id@);
    } else {
        assert(u.drop_first() =~= counts);
        reveal_with_fuel(count_for, 2);
    }
}

proof fn lemma_count_for_absent(counts: Seq<AccountCount>, id: Seq<char>)
    requires
        forall|j: int| 0 <= j < counts.len() ==> (#[trigger] counts[j]).account_id@ != id,
    ensures
        count_for(counts, id) == 0,
    decreases counts.len(),
{
    if counts.len() > 0 {
        assert forall|j: int| 0 <= j < counts.drop_first().len() implies (
        #[trigger] counts.drop_first()[j]).account_id@ != id by {
            assert(counts.drop_first()[j] == counts[j + 1]);
        }
        lemma_count_for_absent(counts.drop_first(), id);
    }
}

proof fn lemma_count_for_at(counts: Seq<AccountCount>, i: int)
    requires
        0 <= i < counts.len(),
        forall|j: int|
            0 <= j < i ==> (#[trigger] counts[j]).account_id@ != counts[i].account_id@,
    ensures
        count_for(counts, counts[i].account_id@) == counts[i].workers,
    decreases counts.len(),
{
    if i > 0 {
        assert(counts.drop_first()[i - 1] == counts[i]);
        assert forall|j: int| 0 <= j < i - 1 implies (
        #[trigger] counts.drop_first()[j]).account_id@ != counts[i].account_id@ by {
            assert(counts.drop_first()[j] == counts[j + 1]);
        }
        lemma_count_for_at(counts.drop_first(), i - 1);
        assert(counts[0].account_id@ != counts[i].account_id@);
    }
}

/// Counts the running workers among some scopes.
pub fn count_active_workers_by_account(scopes: &Vec<ScopeActivity>) -> (r: WorkerLoad)
    ensures
        is_live_load(r@, scopes@),
{
    let mut counts: Vec<AccountCount> = Vec::new();
    let mut ids: Vec<String> = Vec::new();
    let ghost all = scopes@;
    let mut i: usize = 0;
    proof {
        reveal(Seq::filter);
        assert(all.subrange(0, 0) =~= Seq::<ScopeActivity>::empty());
        assert(texts(ids@) =~= live_scope_ids(all.subrange(0, 0)));
        assert forall|id: Seq<char>| #[trigger] count_for(counts@, id) == live_workers(
            all.subrange(0, 0),
            id,
        ) by {}
    }
    while i < scopes.len()
        invariant
            i <= scopes@.len(),
            all == scopes@,
            texts(ids@) == live_scope_ids(all.subrange(0, i as int)),
            forall|id: Seq<char>| #[trigger]
                count_for(counts@, id) == live_workers(all.subrange(0, i as int), id),
            forall|id: Seq<char>| live_workers(all.subrange(0, i as int), id) <= i,
        decreases scopes@.len() - i,
    {
        let ghost head = all.subrange(0, i as int);
        let ghost more = all.subrange(0, i + 1);
        proof {
            reveal(Seq::filter);
            assert(more.drop_last() =~= head);
            assert(more.last() == all[i as int]);
        }
        let live = scopes[i].is_live();
        if live {
            let ghost before = counts@;
            let ghost own = all[i as int].account_id@;
            let id = scopes[i].account_id.as_str();
            let mut k: usize = 0;
            while k < counts.len() && !same_text(counts[k].account_id.as_str(), id)
                invariant
                    k <= counts@.len(),
                    forall|j: int| 0 <= j < k ==> (#[trigger] counts@[j]).account_id@ != id@,
                decreases counts@.len() - k,
            {
                k += 1;
            }
            if k < counts.len() {
                proof {
                    lemma_count_for_at(counts@, k as int);
                    assert(count_for(counts@, own) == live_workers(head, own));
                }
                let n: usize = counts[k].workers + 1;
                let entry = AccountCount { account_id: id.to_owned(), workers: n };
                let ghost new = entry;
                counts.set(k, entry);
                proof {
                    assert forall|id: Seq<char>| #[trigger] count_for(counts@, id) == live_workers(
                        more,
                        id,
                    ) by {
                        lemma_count_for_update(before, k as int, new, id);
                        assert(count_for(before, id) == live_workers(head, id));
                    }
                }
            } else {
                let entry = AccountCount { account_id: id.to_owned(), workers: 1 };
                let ghost new = entry;
                counts.push(entry);
                proof {
                    lemma_count_for_absent(before, own);
                    assert forall|id: Seq<char>| #[trigger] count_for(counts@, id) == live_workers(
                        more,
                        id,
                    ) by {
                        lemma_count_for_push(before, new, id);
                        assert(count_for(before, id) == live_workers(head, id));
                    }
                }
            }
            let ghost ids_before = ids@;
            ids.push(scopes[i].scope_id.clone());
            proof {
                assert(texts(ids@) =~= texts(ids_before).push(all[i as int].scope_id@));
                assert(live_scope_ids(more) =~= live_scope_ids(head).push(all[i as int].scope_id@));
            }
        } else {
            proof {
                assert forall|id: Seq<char>| #[trigger] count_for(counts@, id) == live_workers(
                    more,
                    id,
                ) by {
                    assert(count_for(counts@, id) == live_workers(head, id));
                }
            }
        }
        proof {
            assert forall|id: Seq<char>| live_workers(more, id) <= i + 1 by {
                assert(live_workers(head, id) <= i);
            }
        }
        i += 1;
    }
    assert(all.subrange(0, all.len() as int) =~= all);
    WorkerLoad { counts, scope_ids: Some(ids) }
}

impl AccountRouter {
    /// Reserves a slot for each of some fresh ids, with what is known of the running
    /// workers.
    pub fn reserve_batch(
        &mut self,
        config: &AccountsConfig,
        load: &WorkerLoad,
        count: usize,
        now_ms: u64,
    ) -> (r: Result<Vec<RouteReservation>, RouterError>)
        requires
            config.wf(),
        ensures
            final(self).same_but_store(*old(self)),
            fresh_batch_outcome(
                *config,
                load@,
                count as nat,
                now_ms,
                old(self).store,
                final(self).store,
                r,
            ),
    {
        let mut ids: Vec<String> = Vec::new();
        while ids.len() < count
            invariant
                ids@.len() <= count,
                forall|i: int| 0 <= i < ids@.len() ==> is_hyphenated((#[trigger] ids@[i])@),
            decreases count - ids@.len(),
        {
            ids.push(fresh_uuid());
        }
        let r = self.reserve_batch_as(config, load, &ids, now_ms);
        proof {
            let t = texts(ids@);
            assert(t.len() == count);
            assert forall|i: int| 0 <= i < t.len() implies is_hyphenated(#[trigger] t[i]) by {
                assert(t[i] == ids@[i]@);
            }
            assert(batch_outcome(
                *config,
                load@,
                t,
                now_ms,
                old(self).store,
                self.store,
                r,
            ));
        }
        r
    }

    /// Reserves a slot for each of some fresh ids, with the workers that run in some
    /// scopes.
    pub fn reserve_batch_for_mux(
        &mut self,
        config: &AccountsConfig,
        scopes: &Vec<ScopeActivity>,
        count: usize,
        now_ms: u64,
    ) -> (r: Result<Vec<RouteReservation>, RouterError>)
        requires
            config.wf(),
        ensures
            final(self).same_but_store(*old(self)),
            exists|load: LoadModel|
                is_live_load(load, scopes@) && #[trigger] fresh_batch_outcome(
                    *config,
                    load,
                    count as nat,
                    now_ms,
                    old(self).store,
                    final(self).store,
                    r,
                ),
    {
        let load = count_active_workers_by_account(scopes);
        self.reserve_batch(config, &load, count, now_ms)
    }

    /// Reserves one slot.
    pub fn reserve_one(&mut self, config: &AccountsConfig, load: &WorkerLoad, now_ms: u64) -> (r:
        Result<RouteReservation, RouterError>)
        requires
            config.wf(),
        ensures
            final(self).same_but_store(*old(self)),
            exists|all: Result<Vec<RouteReservation>, RouterError>|
                {
                    &&& #[trigger] fresh_batch_outcome(
                        *config,
                        load@,
                        1,
                        now_ms,
                        old(self).store,
                        final(self).store,
                        all,
                    )
                    &&& match all {
                        Ok(v) => r == Ok::<RouteReservation, RouterError>(v@[0]),
                        Err(e) => r == Err::<RouteReservation, RouterError>(e),
                    }
                },
    {
        let all = self.reserve_batch(config, load, 1, now_ms);
        let ghost whole = all;
        assert(fresh_batch_outcome(
            *config,
            load@,
            1,
            now_ms,
            old(self).store,
            self.store,
            whole,
        ));
        match all {
            Ok(v) => {
                let mut v = v;
                assert(v@.len() == 1);
                Ok(v.remove(0))
            },
            Err(e) => Err(e),
        }
    }

    /// Reserves a slot in one account under a fresh id, for work that goes on there.
    pub fn reserve_for_account(
        &mut self,
        config: &AccountsConfig,
        account_id: &str,
        load: &WorkerLoad,
        now_ms: u64,
    ) -> (r: Result<RouteReservation, RouterError>)
        requires
            config.wf(),
        ensures
            final(self).same_but_store(*old(self)),
            retained_outcome(
                *config,
                load@,
                account_id@,
                now_ms,
                old(self).store,
                final(self).store,
                r,
            ),
            r matches Ok(v) ==> is_hyphenated(v.reservation_id@),
    {
        let id = fresh_uuid();
        self.reserve_for_account_as(config, account_id, load, id.as_str(), now_ms)
    }

    /// Reserves a slot in one account under an id, for work that goes on there.
    pub fn reserve_for_account_as(
        &mut self,
        config: &AccountsConfig,
        account_id: &str,
        load: &WorkerLoad,
        id: &str,
        now_ms: u64,
    ) -> (r: Result<RouteReservation, RouterError>)
        requires
            config.wf(),
        ensures
            final(self).same_but_store(*old(self)),
            retained_outcome(
                *config,
                load@,
                account_id@,
                now_ms,
                old(self).store,
                final(self).store,
                r,
            ),
            r matches Ok(v) ==> v.reservation_id@ == id@,
    {
        let index = match config.position(account_id) {
            Some(i) => i,
            None => {
                return Err(RouterError::AccountUnavailable(account_id.to_owned()));
            },
        };
        let mut router_state = match self.store.load_router() {
            Ok(s) => s,
            Err(e) => {
                return Err(RouterError::State(e));
            },
        };
        let mut states = match self.load_reconciled_states(config, now_ms) {
            Ok(v) => v,
            Err(e) => {
                return Err(RouterError::State(e));
            },
        };
        let ghost first = state_models(states@);
        let selection = AccountSelection::retained(now_ms, index);
        match select_account(config, &states, load, &mut router_state, selection) {
            Ok(_) => {},
            Err(x) => {
                return Err(RouterError::Exhausted(x));
            },
        }
        let ttl_ms: u64 = saturating_mul(config.routing.reservation_ttl_seconds, 1000);
        let expires_ms: u64 = now_ms.saturating_add(ttl_ms);
        let mut state = states[index].copy();
        let ghost before = state@;
        state.reservations.push(
            AccountReservation {
                reservation_id: id.to_owned(),
                scope_id: None,
                created_ms: now_ms,
                expires_ms,
            },
        );
        state.last_selected_ms = Some(now_ms);
        proof {
            assert(first[index as int] == before);
            assert(state@ =~= with_reservation(before, id@, now_ms, expires_ms));
        }
        let ghost new_state = state;
        let ghost old_states = states@;
        states.set(index, state);
        proof {
            assert(state_models(states@) =~= first.update(index as int, new_state@));
        }
        router_state.updated_ms = now_ms;
        self.persist_states(config, &states);
        let saved = self.store.save_router(&router_state);
        assert(saved is Ok);
        Ok(
            RouteReservation {
                reservation_id: id.to_owned(),
                account: config.accounts[index].clone(),
                created_ms: now_ms,
                expires_ms,
            },
        )
    }

    /// Reserves a slot in one account, with the workers that run in some scopes.
    pub fn reserve_for_account_for_mux(
        &mut self,
        config: &AccountsConfig,
        scopes: &Vec<ScopeActivity>,
        account_id: &str,
        now_ms: u64,
    ) -> (r: Result<RouteReservation, RouterError>)
        requires
            config.wf(),
        ensures
            final(self).same_but_store(*old(self)),
            exists|load: LoadModel|
                is_live_load(load, scopes@) && #[trigger] retained_outcome(
                    *config,
                    load,
                    account_id@,
                    now_ms,
                    old(self).store,
                    final(self).store,
                    r,
                ),
            r matches Ok(v) ==> is_hyphenated(v.reservation_id@),
    {
        let load = count_active_workers_by_account(scopes);
        self.reserve_for_account(config, account_id, &load, now_ms)
    }

    /// The state of an account as it stands now.
    pub fn state_for_account(&self, config: &AccountsConfig, account_id: &str, now_ms: u64) -> (r:
        Result<AccountRuntimeState, RouterError>)
        ensures
            match r {
                Ok(s) => {
                    &&& account_now(*config, self.store, account_id@, now_ms) == Some(s@)
                    &&& s.version == ACCOUNT_STATE_VERSION
                    &&& s.account_id@ == account_id@
                    &&& is_account_id(account_id@)
                },
                Err(e) => {
                    &&& account_now(*config, self.store, account_id@, now_ms) is None
                    &&& is_account_error(*config, self.store, account_id@, e)
                },
            },
    {
        let account = match config.account(account_id) {
            Some(a) => a,
            None => {
                return Err(RouterError::AccountUnavailable(account_id.to_owned()));
            },
        };
        let mut state = match self.store.load_account(account_id) {
            Ok(s) => s,
            Err(e) => {
                return Err(RouterError::State(e));
            },
        };
        let ghost loaded = state@;
        state.reconcile(now_ms, account.limits.window_ms());
        assert(state@.version == loaded.version && state@.account_id == loaded.account_id);
        Ok(state)
    }

    /// Writes the state of an account that was looked at.
    fn put_back(&mut self, state: &AccountRuntimeState)
        requires
            state.version == ACCOUNT_STATE_VERSION,
            is_account_id(state.account_id@),
        ensures
            final(self).same_but_store(*old(self)),
            final(self).store.wrote(old(self).store, state@),
    {
        let saved = self.store.save_account(state);
        assert(saved is Ok);
    }

    /// Binds a reservation to the scope for which it was made.
    pub fn bind_scope(
        &mut self,
        config: &AccountsConfig,
        reservation: &RouteReservation,
        scope_id: &str,
        now_ms: u64,
    ) -> (r: Result<(), RouterError>)
        ensures
            final(self).same_but_store(*old(self)),
            ({
                let account_id = reservation.account.id@;
                let id = reservation.reservation_id@;
                let now = account_now(*config, old(self).store, account_id, now_ms);
                match r {
                    Ok(_) => {
                        &&& is_uuid(scope_id@)
                        &&& now is Some
                        &&& now->0.has_reservation(id)
                        &&& now->0.binding(id) is None || now->0.binding(id) == Some(scope_id@)
                        &&& final(self).store.wrote(old(self).store, now->0.bound(id, scope_id@))
                    },
                    Err(e) => {
                        &&& final(self).store == old(self).store
                        &&& if !is_uuid(scope_id@) {
                            &&& e matches RouterError::State(b)
                            &&& b is Security
                            &&& b.detail() == "invalid scope id for account reservation binding"@
                        } else if now is None {
                            is_account_error(*config, old(self).store, account_id, e)
                        } else if !now->0.has_reservation(id) {
                            &&& e matches RouterError::State(b)
                            &&& b is Precondition
                            &&& b.detail() == "reservation "@ + id + " for account "@ + account_id
                                + " is missing or expired"@
                        } else {
                            &&& now->0.binding(id) is Some
                            &&& now->0.binding(id) != Some(scope_id@)
                            &&& e matches RouterError::State(b)
                            &&& b is Precondition
                            &&& b.detail() == "reservation "@ + id + " for account "@ + account_id
                                + " is already bound to another scope"@
                        }
                    },
                }
            }),
    {
        if !uuid_accepts(scope_id) {
            return Err(
                RouterError::State(
                    BridgeError::Security(
                        "invalid scope id for account reservation binding".to_owned(),
                    ),
                ),
            );
        }
        let account_id = reservation.account.id.as_str();
        let id = reservation.reservation_id.as_str();
        let mut state = match self.state_for_account(config, account_id, now_ms) {
            Ok(s) => s,
            Err(e) => {
                return Err(e);
            },
        };
        let ghost now = state@;
        let i = find_reservation(&state.reservations, id);
        if i == state.reservations.len() {
            return Err(
                RouterError::State(
                    BridgeError::Precondition(
                        "reservation ".to_owned().concat(id).concat(" for account ").concat(
                            account_id,
                        ).concat(" is missing or expired"),
                    ),
                ),
            );
        }
        assert(now.reservations[i as int] == state.reservations@[i as int]@);
        let elsewhere = match &state.reservations[i].scope_id {
            Some(bound) => !same_text(bound.as_str(), scope_id),
            None => false,
        };
        if elsewhere {
            return Err(
                RouterError::State(
                    BridgeError::Precondition(
                        "reservation ".to_owned().concat(id).concat(" for account ").concat(
                            account_id,
                        ).concat(" is already bound to another scope"),
                    ),
                ),
            );
        }
        let mut pending = state.reservations[i].clone();
        pending.scope_id = Some(scope_id.to_owned());
        state.reservations.set(i, pending);
        assert(state@ =~= now.bound(id@, scope_id@));
        self.put_back(&state);
        Ok(())
    }

    /// Turns a reservation into a dispatch.
    pub fn commit(
        &mut self,
        config: &AccountsConfig,
        reservation: &RouteReservation,
        dispatch_ms: u64,
    ) -> (r: Result<(), RouterError>)
        ensures
            final(self).same_but_store(*old(self)),
            commit_outcome(*config, *reservation, dispatch_ms, old(self).store, final(self).store, r),
    {
        let account_id = reservation.account.id.as_str();
        let id = reservation.reservation_id.as_str();
        let mut state = match self.state_for_account(config, account_id, dispatch_ms) {
            Ok(s) => s,
            Err(e) => {
                return Err(e);
            },
        };
        let ghost now = state@;
        if state.remove_reservation(id).is_none() {
            return Err(
                RouterError::State(
                    BridgeError::Precondition(
                        "reservation ".to_owned().concat(id).concat(" for account '").concat(
                            account_id,
                        ).concat("' is missing or expired"),
                    ),
                ),
            );
        }
        assert(state@.version == now.version && state@.account_id == now.account_id);
        state.dispatches_ms.push(dispatch_ms);
        assert(state@ =~= now.dispatched(id@, dispatch_ms));
        self.put_back(&state);
        Ok(())
    }

    /// Gives a reservation back. An account that is no longer configured has nothing to
    /// give back, and a reservation that is gone stays gone.
    pub fn release(&mut self, config: &AccountsConfig, reservation: &RouteReservation, now_ms: u64)
        -> (r: Result<(), RouterError>)
        ensures
            final(self).same_but_store(*old(self)),
            release_outcome(*config, *reservation, now_ms, old(self).store, final(self).store, r),
    {
        let account_id = reservation.account.id.as_str();
        if config.position(account_id).is_none() {
            return Ok(());
        }
        let mut state = match self.state_for_account(config, account_id, now_ms) {
            Ok(s) => s,
            Err(e) => {
                return Err(e);
            },
        };
        let ghost now = state@;
        let _ = state.remove_reservation(reservation.reservation_id.as_str());
        assert(state@.version == now.version && state@.account_id == now.account_id);
        self.put_back(&state);
        Ok(())
    }

    /// Sets a cooldown on an account.
    fn cool_down(
        &mut self,
        config: &AccountsConfig,
        account_id: &str,
        seconds: u64,
        reason: &str,
        now_ms: u64,
    ) -> (r: Result<u64, RouterError>)
        ensures
            final(self).same_but_store(*old(self)),
            ({
                let now = account_now(*config, old(self).store, account_id@, now_ms);
                match r {
                    Ok(until) => {
                        &&& now is Some
                        &&& until == sat_add(now_ms, seconds_ms(seconds))
                        &&& final(self).store.wrote(old(self).store, now->0.cooling(until, reason@))
                    },
                    Err(e) => {
                        &&& now is None
                        &&& final(self).store == old(self).store
                        &&& is_account_error(*config, old(self).store, account_id@, e)
                    },
                }
            }),
    {
        let mut state = match self.state_for_account(config, account_id, now_ms) {
            Ok(s) => s,
            Err(e) => {
                return Err(e);
            },
        };
        let ghost now = state@;
        let until: u64 = now_ms.saturating_add(saturating_mul(seconds, 1000));
        state.cooldown_until_ms = Some(until);
        state.cooldown_reason = Some(reason.to_owned());
        assert(state@ =~= now.cooling(until, reason@));
        self.put_back(&state);
        Ok(until)
    }

    /// Lets an account cool down after a rate limit, and returns until when.
    pub fn apply_rate_limit(
        &mut self,
        config: &AccountsConfig,
        account_id: &str,
        reason: &str,
        reset_after_seconds: Option<u64>,
        now_ms: u64,
    ) -> (r: Result<u64, RouterError>)
        ensures
            final(self).same_but_store(*old(self)),
            ({
                let now = account_now(*config, old(self).store, account_id@, now_ms);
                match r {
                    Ok(until) => {
                        &&& now is Some
                        &&& until == sat_add(
                            now_ms,
                            seconds_ms(cooldown_seconds(*config, reason@, reset_after_seconds)),
                        )
                        &&& final(self).store.wrote(old(self).store, now->0.cooling(until, reason@))
                    },
                    Err(e) => {
                        &&& now is None
                        &&& final(self).store == old(self).store
                        &&& is_account_error(*config, old(self).store, account_id@, e)
                    },
                }
            }),
            r is Ok && reset_after_seconds is Some && reset_after_seconds->0 >= 1 && now_ms
                + reset_after_seconds->0 * 1000 <= u64::MAX ==> r->Ok_0 == now_ms
                + reset_after_seconds->0 * 1000,
            r matches Ok(until) ==> until > now_ms || until == u64::MAX,
            r matches Ok(until) ==> {
                &&& final(self).store.loaded(account_id@) matches Some(state)
                &&& state.cooldown_until_ms == Some(until)
                &&& state.cooldown_reason == Some(reason@)
            },
    {
        let fallback: u64 = if same_text(reason, "capacity") {
            config.routing.selection_failure_backoff_seconds
        } else {
            config.defaults.cooldown.unknown_rate_limit_seconds
        };
        let seconds: u64 = match reset_after_seconds {
            Some(s) => s,
            None => fallback,
        };
        let seconds: u64 = if seconds < 1 {
            1
        } else {
            seconds
        };
        self.cool_down(config, account_id, seconds, reason, now_ms)
    }

    /// Lets an account cool down after a failed delivery, and returns until when.
    pub fn apply_delivery_failure(
        &mut self,
        config: &AccountsConfig,
        account_id: &str,
        now_ms: u64,
    ) -> (r: Result<u64, RouterError>)
        ensures
            final(self).same_but_store(*old(self)),
            ({
                let now = account_now(*config, old(self).store, account_id@, now_ms);
                match r {
                    Ok(until) => {
                        &&& now is Some
                        &&& until == sat_add(
                            now_ms,
                            seconds_ms(config.defaults.cooldown.delivery_failure_seconds),
                        )
                        &&& final(self).store.wrote(
                            old(self).store,
                            now->0.cooling(until, "delivery_failure"@),
                        )
                    },
                    Err(e) => {
                        &&& now is None
                        &&& final(self).store == old(self).store
                        &&& is_account_error(*config, old(self).store, account_id@, e)
                    },
                }
            }),
    {
        let seconds: u64 = config.defaults.cooldown.delivery_failure_seconds;
        self.cool_down(config, account_id, seconds, "delivery_failure", now_ms)
    }

    /// Sets the health of an account.
    fn set_health(
        &mut self,
        config: &AccountsConfig,
        account_id: &str,
        health: AccountHealth,
        now_ms: u64,
    ) -> (r: Result<(), RouterError>)
        ensures
            final(self).same_but_store(*old(self)),
            health_outcome(
                *config,
                account_id@,
                health,
                now_ms,
                old(self).store,
                final(self).store,
                r,
            ),
    {
        let mut state = match self.state_for_account(config, account_id, now_ms) {
            Ok(s) => s,
            Err(e) => {
                return Err(e);
            },
        };
        let ghost now = state@;
        state.health = health;
        assert(state@ =~= StateModel { health, ..now });
        self.put_back(&state);
        Ok(())
    }

    /// Notes that an account needs a login.
    pub fn mark_auth_required(&mut self, config: &AccountsConfig, account_id: &str, now_ms: u64)
        -> (r: Result<(), RouterError>)
        ensures
            final(self).same_but_store(*old(self)),
            health_outcome(
                *config,
                account_id@,
                AccountHealth::AuthRequired,
                now_ms,
                old(self).store,
                final(self).store,
                r,
            ),
    {
        self.set_health(config, account_id, AccountHealth::AuthRequired, now_ms)
    }

    /// Notes that an account is ready.
    pub fn mark_ready(&mut self, config: &AccountsConfig, account_id: &str, now_ms: u64) -> (r:
        Result<(), RouterError>)
        ensures
            final(self).same_but_store(*old(self)),
            health_outcome(
                *config,
                account_id@,
                AccountHealth::Ready,
                now_ms,
                old(self).store,
                final(self).store,
                r,
            ),
    {
        self.set_health(config, account_id, AccountHealth::Ready, now_ms)
    }
}

/// What turning a reservation into a dispatch returns and leaves behind.
pub open spec fn commit_outcome(
    config: AccountsConfig,
    reservation: RouteReservation,
    dispatch_ms: u64,
    before: AccountStateStore,
    after: AccountStateStore,
    r: Result<(), RouterError>,
) -> bool {
    let account_id = reservation.account.id@;
    let id = reservation.reservation_id@;
    let now = account_now(config, before, account_id, dispatch_ms);
    match r {
        Ok(_) => {
            &&& now is Some
            &&& now->0.has_reservation(id)
            &&& after.wrote(before, now->0.dispatched(id, dispatch_ms))
        },
        Err(e) => {
            &&& after == before
            &&& if now is None {
                is_account_error(config, before, account_id, e)
            } else {
                &&& !now->0.has_reservation(id)
                &&& e matches RouterError::State(b)
                &&& b is Precondition
                &&& b.detail() == "reservation "@ + id + " for account '"@ + account_id
                    + "' is missing or expired"@
            }
        },
    }
}

/// What giving a reservation back returns and leaves behind.
pub open spec fn release_outcome(
    config: AccountsConfig,
    reservation: RouteReservation,
    now_ms: u64,
    before: AccountStateStore,
    after: AccountStateStore,
    r: Result<(), RouterError>,
) -> bool {
    let account_id = reservation.account.id@;
    let now = account_now(config, before, account_id, now_ms);
    if account_position(config.accounts@, account_id) == config.accounts@.len() {
        r is Ok && after == before
    } else {
        match r {
            Ok(_) => now is Some && after.wrote(
                before,
                now->0.without_reservation(reservation.reservation_id@),
            ),
            Err(e) => {
                &&& now is None
                &&& after == before
                &&& is_account_error(config, before, account_id, e)
            },
        }
    }
}

/// What setting the health of an account returns and leaves behind.
pub open spec fn health_outcome(
    config: AccountsConfig,
    account_id: Seq<char>,
    health: AccountHealth,
    now_ms: u64,
    before: AccountStateStore,
    after: AccountStateStore,
    r: Result<(), RouterError>,
) -> bool {
    let now = account_now(config, before, account_id, now_ms);
    match r {
        Ok(_) => now is Some && after.wrote(before, StateModel { health, ..now->0 }),
        Err(e) => {
            &&& now is None
            &&& after == before
            &&& is_account_error(config, before, account_id, e)
        },
    }
}

proof fn lemma_push_counts_one(
    rs: Seq<ReservationModel>,
    new: ReservationModel,
    scope_ids: Option<Seq<Seq<char>>>,
)
    requires
        new.scope_id is None,
    ensures
        reserved_active(rs.push(new), scope_ids) == reserved_active(rs, scope_ids) + 1,
{
    if let Some(ids) = scope_ids {
        reveal(Seq::filter);
        assert(rs.push(new).drop_last() =~= rs);
    }
}

proof fn lemma_round_offset(ctx: RouteContext, states: Seq<StateModel>, start: int, k: int)
    requires
        0 <= k <= ctx.accounts.len(),
    ensures
        k <= ctx.round_offset(states, start, k) <= ctx.accounts.len(),
        ctx.round_offset(states, start, k) < ctx.accounts.len() ==> ctx.eligible(
            states,
            around(start, ctx.round_offset(states, start, k), ctx.accounts.len() as int),
        ),
        forall|j: int|
            k <= j < ctx.round_offset(states, start, k) ==> !#[trigger] ctx.eligible(
                states,
                around(start, j, ctx.accounts.len() as int),
            ),
    decreases ctx.accounts.len() - k,
{
    if k < ctx.accounts.len() && !ctx.eligible(
        states,
        around(start, k, ctx.accounts.len() as int),
    ) {
        lemma_round_offset(ctx, states, start, k + 1);
    }
}

/// Of the first `n` accounts, this one can take work and is less loaded than any other
/// that can.
spec fn is_least_below(ctx: RouteContext, states: Seq<StateModel>, i: int, n: int) -> bool {
    &&& 0 <= i < n
    &&& ctx.eligible(states, i)
    &&& forall|j: int|
        0 <= j < n && j != i && #[trigger] ctx.eligible(states, j) ==> less_loaded(
            ctx.key(states, i),
            ctx.key(states, j),
        )
}

proof fn lemma_next_least(ctx: RouteContext, states: Seq<StateModel>, best: int, m: int)
    requires
        distinct_ids(ctx.accounts),
        0 <= m < ctx.accounts.len(),
        is_least_below(ctx, states, best, m),
        ctx.eligible(states, m),
    ensures
        is_least_below(ctx, states, best, m + 1) || is_least_below(ctx, states, m, m + 1),
{
    assert(ctx.accounts[best].id@ != ctx.accounts[m].id@);
    lemma_eligible_bounds(ctx, states, best);
    lemma_eligible_bounds(ctx, states, m);
    lemma_less_loaded_total(ctx.key(states, best), ctx.key(states, m));
    if less_loaded(ctx.key(states, m), ctx.key(states, best)) {
        assert forall|j: int|
            0 <= j < m + 1 && j != m && #[trigger] ctx.eligible(states, j) implies less_loaded(
            ctx.key(states, m),
            ctx.key(states, j),
        ) by {
            if j != best {
                lemma_eligible_bounds(ctx, states, j);
                lemma_less_loaded_trans(
                    ctx.key(states, m),
                    ctx.key(states, best),
                    ctx.key(states, j),
                );
            }
        }
    }
}

proof fn least_below(ctx: RouteContext, states: Seq<StateModel>, n: int, w: int) -> (best: int)
    requires
        distinct_ids(ctx.accounts),
        0 <= w < n <= ctx.accounts.len(),
        ctx.eligible(states, w),
    ensures
        is_least_below(ctx, states, best, n),
    decreases n,
{
    let m = n - 1;
    if exists|i: int| 0 <= i < m && #[trigger] ctx.eligible(states, i) {
        let v = choose|i: int| 0 <= i < m && #[trigger] ctx.eligible(states, i);
        let best = least_below(ctx, states, m, v);
        if ctx.eligible(states, m) {
            lemma_next_least(ctx, states, best, m);
            if is_least_below(ctx, states, best, n) {
                best
            } else {
                m
            }
        } else {
            best
        }
    } else {
        w
    }
}

/// Whatever the strategy, an account is picked exactly when some account can take
/// work, and the account that is picked can.
pub proof fn lemma_pick_is_eligible(ctx: RouteContext, states: Seq<StateModel>, cursor: u64)
    requires
        distinct_ids(ctx.accounts),
    ensures
        ctx.pick(states, cursor) is Some <==> ctx.any_eligible(states),
        ctx.pick(states, cursor) matches Some(i) ==> 0 <= i < ctx.accounts.len() && ctx.eligible(
            states,
            i,
        ),
{
    if ctx.any_eligible(states) {
        let n = ctx.accounts.len() as int;
        let w = choose|i: int| 0 <= i < ctx.accounts.len() && #[trigger] ctx.eligible(states, i);
        match ctx.strategy {
            RoutingStrategy::RoundRobin => {
                let start = ctx.round_start(cursor);
                assert(0 <= start < n) by (nonlinear_arith)
                    requires
                        n > 0,
                        start == cursor as int % n,
                ;
                lemma_round_offset(ctx, states, start, 0);
                let k = if w >= start {
                    w - start
                } else {
                    w - start + n
                };
                assert(around(start, k, n) == w);
                assert(ctx.eligible(states, around(start, k, n)));
            },
            RoutingStrategy::LeastLoaded => {
                let best = least_below(ctx, states, n, w);
                assert(ctx.is_least(states, best));
            },
        }
    }
}

/// The least loaded account is the one that is picked.
pub proof fn lemma_least_is_picked(ctx: RouteContext, states: Seq<StateModel>, cursor: u64, i: int)
    requires
        ctx.strategy == RoutingStrategy::LeastLoaded,
        ctx.is_least(states, i),
    ensures
        ctx.pick(states, cursor) == Some(i),
{
    assert(ctx.eligible(states, i));
    let c = choose|c: int| ctx.is_least(states, c);
    lemma_least_is_unique(ctx, states, i, c);
}

/// An account has room for what is booked on it.
pub open spec fn within_limits(ctx: RouteContext, states: Seq<StateModel>, i: int) -> bool {
    &&& states[i].dispatches_ms.len() + states[i].reservations.len()
        <= ctx.accounts[i].limits.max_dispatches
    &&& count_for(ctx.load.counts, ctx.accounts[i].id@) + reserved_active(
        states[i].reservations,
        ctx.load.scope_ids,
    ) <= ctx.accounts[i].limits.max_active_workers
}

/// A batch books no account beyond its limits, touches no account that it does not
/// pick, and picks no account that is disabled, drains, is not ready or cools down.
pub proof fn lemma_batch_respects_limits(
    ctx: RouteContext,
    states: Seq<StateModel>,
    cursor: u64,
    expires_ms: u64,
    ids: Seq<Seq<char>>,
)
    requires
        distinct_ids(ctx.accounts),
        states.len() == ctx.accounts.len(),
        !ctx.allow_disabled,
        batch(ctx, states, cursor, expires_ms, ids) is Ok,
    ensures
        ({
            let b = batch(ctx, states, cursor, expires_ms, ids)->Ok_0;
            &&& b.states.len() == states.len()
            &&& b.picks.len() == ids.len()
            &&& forall|j: int| 0 <= j < b.picks.len() ==> 0 <= #[trigger] b.picks[j] < states.len()
            &&& forall|i: int|
                0 <= i < states.len() && #[trigger] b.picks.contains(i) ==> within_limits(
                    ctx,
                    b.states,
                    i,
                )
            &&& forall|i: int|
                0 <= i < states.len() && !#[trigger] b.picks.contains(i) ==> b.states[i]
                    == states[i]
            &&& forall|i: int|
                0 <= i < states.len() && #[trigger] b.picks.contains(i) ==> {
                    &&& ctx.accounts[i].enabled
                    &&& !ctx.accounts[i].draining
                    &&& states[i].health == AccountHealth::Ready
                    &&& !(states[i].cooldown_until_ms is Some && states[i].cooldown_until_ms->0
                        > ctx.now_ms)
                }
            &&& forall|i: int|
                0 <= i < states.len() ==> (#[trigger] b.states[i]).dispatches_ms
                    == states[i].dispatches_ms && b.states[i].health == states[i].health
                    && b.states[i].cooldown_until_ms == states[i].cooldown_until_ms
        }),
    decreases ids.len(),
{
    let whole = batch(ctx, states, cursor, expires_ms, ids);
    if ids.len() > 0 {
        let head = ids.drop_last();
        lemma_batch_respects_limits(ctx, states, cursor, expires_ms, head);
        let p = batch(ctx, states, cursor, expires_ms, head)->Ok_0;
        let b = whole->Ok_0;
        let i = ctx.pick(p.states, p.cursor)->0;
        lemma_pick_is_eligible(ctx, p.states, p.cursor);
        let new = ReservationModel {
            reservation_id: ids.last(),
            scope_id: None,
            created_ms: ctx.now_ms,
            expires_ms,
        };
        lemma_push_counts_one(p.states[i].reservations, new, ctx.load.scope_ids);
        assert(ctx.eligible(p.states, i));
        assert(within_limits(ctx, b.states, i));
        assert(b.picks.last() == i);
        assert forall|k: int| #[trigger] b.picks.contains(k) implies p.picks.contains(k) || k
            == i by {
            let j = choose|j: int| 0 <= j < b.picks.len() && b.picks[j] == k;
            if j < p.picks.len() {
                assert(p.picks[j] == k);
            }
        }
        assert forall|k: int| #[trigger] p.picks.contains(k) implies b.picks.contains(k) by {
            let j = choose|j: int| 0 <= j < p.picks.len() && p.picks[j] == k;
            assert(b.picks[j] == k);
        }
        assert(b.picks.contains(i)) by {
            assert(b.picks[b.picks.len() - 1] == i);
        }
        assert forall|k: int|
            0 <= k < states.len() && #[trigger] b.picks.contains(k) implies within_limits(
            ctx,
            b.states,
            k,
        ) by {
            if k != i {
                assert(p.picks.contains(k));
                assert(within_limits(ctx, p.states, k));
            }
        }
        assert forall|k: int| 0 <= k < states.len() && !#[trigger] b.picks.contains(k) implies
            b.states[k] == states[k] by {
            assert(k != i);
            assert(!p.picks.contains(k));
        }
        assert forall|j: int| 0 <= j < b.picks.len() implies 0 <= #[trigger] b.picks[j]
            < states.len() by {
            if j < p.picks.len() {
                assert(b.picks[j] == p.picks[j]);
            }
        }
        assert(p.states[i].health == states[i].health);
        assert(p.states[i].cooldown_until_ms == states[i].cooldown_until_ms);
        assert forall|k: int| 0 <= k < states.len() && #[trigger] b.picks.contains(k) implies {
            &&& ctx.accounts[k].enabled
            &&& !ctx.accounts[k].draining
            &&& states[k].health == AccountHealth::Ready
            &&& !(states[k].cooldown_until_ms is Some && states[k].cooldown_until_ms->0
                > ctx.now_ms)
        } by {
            if k != i {
                assert(p.picks.contains(k));
            }
        }
    }
}

/// Giving back a slot that was just reserved leaves the account as it was, but for the
/// time at which it was last selected.
pub proof fn lemma_release_undoes_reserve(
    state: StateModel,
    id: Seq<char>,
    now_ms: u64,
    expires_ms: u64,
    window_ms: u64,
)
    requires
        !state.reconciled(now_ms, window_ms).has_reservation(id),
        expires_ms > now_ms,
    ensures
        with_reservation(
            state.reconciled(now_ms, window_ms),
            id,
            now_ms,
            expires_ms,
        ).reconciled(now_ms, window_ms).without_reservation(id) == (StateModel {
            last_selected_ms: Some(now_ms),
            ..state.reconciled(now_ms, window_ms)
        }),
{
    let s = state.reconciled(now_ms, window_ms);
    let new = ReservationModel {
        reservation_id: id,
        scope_id: None,
        created_ms: now_ms,
        expires_ms,
    };
    let live = |r: ReservationModel| r.expires_ms > now_ms;
    let held = with_reservation(s, id, now_ms, expires_ms).reconciled(now_ms, window_ms);
    lemma_reconcile_idempotent(state, now_ms, window_ms);
    lemma_filter_push(s.reservations, new, live);
    assert(s.reconciled(now_ms, window_ms).reservations == s.reservations);
    assert(s.reconciled(now_ms, window_ms).dispatches_ms == s.dispatches_ms);
    assert(held.reservations == s.reservations.push(new));
    lemma_position_of_push(s.reservations, new, id);
    assert(s.reservations.push(new).remove(s.reservations.len() as int) =~= s.reservations);
    assert(held.without_reservation(id) =~= StateModel { last_selected_ms: Some(now_ms), ..s });
}

/// Turning a reservation into a dispatch keeps the number of booked slots.
pub proof fn lemma_commit_keeps_slots(state: StateModel, id: Seq<char>, dispatch_ms: u64)
    requires
        state.has_reservation(id),
    ensures
        state.dispatched(id, dispatch_ms).dispatches_ms.len() + state.dispatched(
            id,
            dispatch_ms,
        ).reservations.len() == state.dispatches_ms.len() + state.reservations.len(),
{
    lemma_position_of_push(
        state.reservations,
        ReservationModel { reservation_id: id, scope_id: None, created_ms: 0, expires_ms: 0 },
        id,
    );
}

proof fn lemma_filter_loses_one(
    s: Seq<ReservationModel>,
    i: int,
    new: ReservationModel,
    keep: spec_fn(ReservationModel) -> bool,
)
    requires
        0 <= i < s.len(),
        keep(s[i]),
        !keep(new),
    ensures
        s.update(i, new).filter(keep).len() + 1 == s.filter(keep).len(),
    decreases s.len(),
{
    reveal(Seq::filter);
    let u = s.update(i, new);
    if i == s.len() - 1 {
        assert(u.drop_last() =~= s.drop_last());
    } else {
        assert(u.drop_last() =~= s.drop_last().update(i, new));
        lemma_filter_loses_one(s.drop_last(), i, new, keep);
    }
}

/// A worker that has taken up its reservation counts once: where the scopes of the
/// running workers are known, binding an unclaimed reservation to one of them takes it
/// out of the count of reservations.
pub proof fn lemma_bound_reservation_counts_once(
    state: StateModel,
    id: Seq<char>,
    scope_id: Seq<char>,
    scope_ids: Seq<Seq<char>>,
)
    requires
        state.has_reservation(id),
        is_unclaimed(state.reservations[reservation_position(state.reservations, id)], scope_ids),
        scope_ids.contains(scope_id),
    ensures
        reserved_active(state.bound(id, scope_id).reservations, Some(scope_ids)) + 1
            == reserved_active(state.reservations, Some(scope_ids)),
{
    let i = reservation_position(state.reservations, id);
    lemma_position_of_push(
        state.reservations,
        ReservationModel { reservation_id: id, scope_id: None, created_ms: 0, expires_ms: 0 },
        id,
    );
    lemma_filter_loses_one(
        state.reservations,
        i,
        ReservationModel { scope_id: Some(scope_id), ..state.reservations[i] },
        |r: ReservationModel| is_unclaimed(r, scope_ids),
    );
}

/// An account that was just given a cooldown takes no work, fresh or retained, before
/// the cooldown is over.
pub proof fn lemma_cooling_account_refuses(
    account: AccountConfig,
    state: StateModel,
    until_ms: u64,
    reason: Seq<char>,
    active: usize,
    scope_ids: Option<Seq<Seq<char>>>,
    now_ms: u64,
    allow_disabled: bool,
)
    requires
        now_ms < until_ms,
    ensures
        exhaustion(
            account,
            state.cooling(until_ms, reason).reconciled(
                now_ms,
                seconds_ms(account.limits.window_seconds),
            ),
            active,
            scope_ids,
            now_ms,
            allow_disabled,
        ) is Some,
{
}

/// Round robin goes on behind the account that was picked, also where it passed over
/// accounts that could take no work.
pub proof fn lemma_round_moves_on(ctx: RouteContext, states: Seq<StateModel>, cursor: u64)
    requires
        distinct_ids(ctx.accounts),
        ctx.strategy == RoutingStrategy::RoundRobin,
        ctx.pick(states, cursor) is Some,
        cursor + ctx.accounts.len() <= u64::MAX,
    ensures
        ctx.round_start(ctx.next_cursor(states, cursor)) == (ctx.pick(states, cursor)->0 + 1)
            % ctx.accounts.len() as int,
{
    let n = ctx.accounts.len() as int;
    let start = ctx.round_start(cursor);
    let offset = ctx.round_offset(states, start, 0);
    lemma_pick_is_eligible(ctx, states, cursor);
    lemma_round_offset(ctx, states, start, 0);
    let q = cursor as int / n;
    vstd::arithmetic::div_mod::lemma_fundamental_div_mod(cursor as int, n);
    vstd::arithmetic::div_mod::lemma_mod_bound(cursor as int, n);
    let w = choose|i: int| 0 <= i < ctx.accounts.len() && #[trigger] ctx.eligible(states, i);
    let k = if w >= start {
        w - start
    } else {
        w - start + n
    };
    assert(around(start, k, n) == w);
    assert(offset < n) by {
        assert(ctx.eligible(states, around(start, k, n)));
    }
    assert(ctx.next_cursor(states, cursor) == cursor + offset + 1);
    vstd::arithmetic::div_mod::lemma_mod_multiples_vanish(q, start + offset + 1, n);
    vstd::arithmetic::mul::lemma_mul_is_commutative(q, n);
    assert(cursor + offset + 1 == n * q + (start + offset + 1));
    if start + offset >= n {
        vstd::arithmetic::div_mod::lemma_mod_multiples_vanish(1, start + offset + 1 - n, n);
        assert(n * 1 + (start + offset + 1 - n) == start + offset + 1);
    }
}

/// Work that goes on never moves to another account: the slot that is reserved for it is
/// one of its own account, and the other accounts keep their reservations.
pub proof fn lemma_retained_work_never_moves(
    config: AccountsConfig,
    load: LoadModel,
    account_id: Seq<char>,
    now_ms: u64,
    before: AccountStateStore,
    after: AccountStateStore,
    r: Result<RouteReservation, RouterError>,
    other: int,
)
    requires
        config.wf(),
        retained_outcome(config, load, account_id, now_ms, before, after, r),
        r is Ok,
        0 <= other < config.accounts@.len(),
        config.accounts@[other].id@ != account_id,
    ensures
        r->Ok_0.account.id@ == account_id,
        ({
            let account = config.accounts@[other];
            account_now(config, before, account.id@, now_ms) == stored(after.accounts@, account.id@)
        }),
{
    let at = account_position(config.accounts@, account_id);
    lemma_position_is_first(config.accounts@, account_id);
    lemma_position_is_first(config.accounts@, config.accounts@[other].id@);
    lemma_position_reaches(config.accounts@, config.accounts@[other].id@, other);
    let states = current_states(before, config.accounts@, now_ms)->0;
    assert(states[other] == before.loaded(config.accounts@[other].id@)->0.reconciled(
        now_ms,
        seconds_ms(config.accounts@[other].limits.window_seconds),
    ));
    assert(before.loaded(config.accounts@[other].id@) is Some);
}

proof fn lemma_position_is_first(accounts: Seq<AccountConfig>, id: Seq<char>)
    ensures
        0 <= account_position(accounts, id) <= accounts.len(),
        account_position(accounts, id) < accounts.len() ==> accounts[account_position(
            accounts,
            id,
        )].id@ == id,
    decreases accounts.len(),
{
    if accounts.len() > 0 && accounts[0].id@ != id {
        lemma_position_is_first(accounts.drop_first(), id);
    }
}

/// Where ids are distinct, the position of an id is that of the account that has it.
proof fn lemma_position_reaches(accounts: Seq<AccountConfig>, id: Seq<char>, i: int)
    requires
        distinct_ids(accounts),
        0 <= i < accounts.len(),
        accounts[i].id@ == id,
    ensures
        account_position(accounts, id) == i,
    decreases accounts.len(),
{
    if i > 0 {
        assert(accounts[0].id@ != accounts[i].id@);
        assert(accounts.drop_first()[i - 1] == accounts[i]);
        assert forall|a: int, b: int|
            #![trigger accounts.drop_first()[a], accounts.drop_first()[b]]
            0 <= a < b < accounts.drop_first().len() implies accounts.drop_first()[a].id@
            != accounts.drop_first()[b].id@ by {
            assert(accounts.drop_first()[a] == accounts[a + 1]);
            assert(accounts.drop_first()[b] == accounts[b + 1]);
        }
        lemma_position_reaches(accounts.drop_first(), id, i - 1);
    }
}

} // verus!
