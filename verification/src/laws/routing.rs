//! What holds of accounts: which one takes work, what a reservation does to it, and how long it
//! rests.
use crate::account_state::{dispatch_counts, expiries, reservation_position, stored, AccountHealth,
    AccountStateStore, ReservationModel, StateModel};
use crate::accounts::{distinct_ids, AccountConfig, AccountsConfig};
use crate::arith::{least, lemma_least, seconds_ms};
use crate::router::{account_now, around, batch, cooldown_seconds, count_for, exhaustion, expiry,
    health_outcome, lemma_pick_is_eligible, less_loaded, live_scope_ids, live_workers, load_key,
    reserved_active, with_reservation, ExhaustionModel, LoadKey, LoadModel, RouteContext,
    RouterError, ScopeActivity};
use crate::text::text_lt;
use vstd::prelude::*;

verus! {

/// A reported reset time is kept, whatever the configuration and the reason; only without one does
/// the configuration count, and no rest is shorter than a second.
pub proof fn lemma_reported_reset_is_kept(
    config: AccountsConfig,
    reason: Seq<char>,
    seconds: u64,
)
    ensures
        seconds >= 1 ==> cooldown_seconds(config, reason, Some(seconds)) == seconds,
        seconds == 0 ==> cooldown_seconds(config, reason, Some(seconds)) == 1,
        reason == "capacity"@ && config.routing.selection_failure_backoff_seconds >= 1
            ==> cooldown_seconds(config, reason, None)
            == config.routing.selection_failure_backoff_seconds,
        reason != "capacity"@ && config.defaults.cooldown.unknown_rate_limit_seconds >= 1
            ==> cooldown_seconds(config, reason, None)
            == config.defaults.cooldown.unknown_rate_limit_seconds,
        cooldown_seconds(config, reason, None) >= 1,
{
}

/// A rest ends as many seconds after its start as it lasts.
pub proof fn lemma_rest_lasts_its_seconds(now_ms: u64, seconds: u64)
    requires
        now_ms + seconds * 1000 <= u64::MAX,
    ensures
        seconds_ms(seconds) == seconds * 1000,
        expiry(now_ms, seconds) == now_ms + seconds * 1000,
{
}

/// Resting changes nothing of an account but until when it rests, and why.
pub proof fn lemma_resting_changes_only_the_rest(state: StateModel, until_ms: u64, reason: Seq<char>)
    ensures
        ({
            let after = state.cooling(until_ms, reason);
            &&& after.cooldown_until_ms == Some(until_ms)
            &&& after.cooldown_reason == Some(reason)
            &&& after.dispatches_ms == state.dispatches_ms
            &&& after.reservations == state.reservations
            &&& after.health == state.health
            &&& after.account_id == state.account_id
            &&& after.version == state.version
            &&& after.last_selected_ms == state.last_selected_ms
            &&& after.last_success_ms == state.last_success_ms
            &&& after.consecutive_browser_failures == state.consecutive_browser_failures
        }),
{
}

/// What is read of an account later is what counts then: dispatches younger than the window or in
/// the future, reservations that have not expired, a rest that is not over. Nothing else changes.
pub proof fn lemma_what_counts_is_kept(state: StateModel, now_ms: u64, window_ms: u64)
    ensures
        ({
            let after = state.reconciled(now_ms, window_ms);
            &&& forall|t: u64| #[trigger]
                after.dispatches_ms.contains(t) <==> state.dispatches_ms.contains(t) && (t > now_ms
                    || now_ms - t < window_ms)
            &&& forall|r: ReservationModel| #[trigger]
                after.reservations.contains(r) <==> state.reservations.contains(r) && r.expires_ms
                    > now_ms
            &&& (state.cooldown_until_ms matches Some(t) && t > now_ms) ==> {
                &&& after.cooldown_until_ms == state.cooldown_until_ms
                &&& after.cooldown_reason == state.cooldown_reason
            }
            &&& (state.cooldown_until_ms matches Some(t) && t <= now_ms) ==> {
                &&& after.cooldown_until_ms is None
                &&& after.cooldown_reason is None
            }
            &&& state.cooldown_until_ms is None ==> {
                &&& after.cooldown_until_ms is None
                &&& after.cooldown_reason == state.cooldown_reason
            }
            &&& after.health == state.health
            &&& after.account_id == state.account_id
            &&& after.version == state.version
            &&& after.last_selected_ms == state.last_selected_ms
            &&& after.last_success_ms == state.last_success_ms
            &&& after.consecutive_browser_failures == state.consecutive_browser_failures
        }),
{
    let after = state.reconciled(now_ms, window_ms);
    let counts = |t: u64| dispatch_counts(t, now_ms, window_ms);
    let live = |r: ReservationModel| r.expires_ms > now_ms;
    assert forall|t: u64| #[trigger] after.dispatches_ms.contains(t) <==> state.dispatches_ms.contains(
        t,
    ) && (t > now_ms || now_ms - t < window_ms) by {
        lemma_filter_holds(state.dispatches_ms, counts, t);
    }
    assert forall|r: ReservationModel| #[trigger]
        after.reservations.contains(r) <==> state.reservations.contains(r) && r.expires_ms
            > now_ms by {
        lemma_filter_holds(state.reservations, live, r);
    }
}

proof fn lemma_filter_holds<A>(s: Seq<A>, keep: spec_fn(A) -> bool, x: A)
    ensures
        s.filter(keep).contains(x) <==> s.contains(x) && keep(x),
{
    let kept = s.filter(keep);
    if kept.contains(x) {
        let i = choose|i: int| 0 <= i < kept.len() && kept[i] == x;
        s.lemma_filter_pred(keep, i);
        s.lemma_filter_contains_rev(keep, x);
    }
    if s.contains(x) && keep(x) {
        let i = choose|i: int| 0 <= i < s.len() && s[i] == x;
        s.lemma_filter_contains(keep, i);
    }
}

/// When all that is booked on an account still counts, nothing is taken off it.
pub proof fn lemma_nothing_that_counts_is_lost(state: StateModel, now_ms: u64, window_ms: u64)
    requires
        forall|i: int|
            0 <= i < state.dispatches_ms.len() ==> (#[trigger] state.dispatches_ms[i]) > now_ms
                || now_ms - state.dispatches_ms[i] < window_ms,
        forall|i: int|
            0 <= i < state.reservations.len() ==> (#[trigger] state.reservations[i]).expires_ms
                > now_ms,
    ensures
        state.reconciled(now_ms, window_ms).dispatches_ms == state.dispatches_ms,
        state.reconciled(now_ms, window_ms).reservations == state.reservations,
{
    lemma_filter_all(state.dispatches_ms, |t: u64| dispatch_counts(t, now_ms, window_ms));
    lemma_filter_all(state.reservations, |r: ReservationModel| r.expires_ms > now_ms);
}

proof fn lemma_filter_all<A>(s: Seq<A>, keep: spec_fn(A) -> bool)
    requires
        forall|i: int| 0 <= i < s.len() ==> keep(#[trigger] s[i]),
    ensures
        s.filter(keep) == s,
    decreases s.len(),
{
    reveal(Seq::filter);
    if s.len() > 0 {
        let t = s.drop_last();
        assert forall|i: int| 0 <= i < t.len() implies keep(#[trigger] t[i]) by {
            assert(t[i] == s[i]);
        }
        lemma_filter_all(t, keep);
        assert(keep(s[s.len() - 1]));
        assert(t.push(s.last()) =~= s);
    } else {
        assert(s.filter(keep) =~= s);
    }
}

proof fn lemma_position(rs: Seq<ReservationModel>, id: Seq<char>)
    ensures
        0 <= reservation_position(rs, id) <= rs.len(),
        reservation_position(rs, id) < rs.len() ==> rs[reservation_position(
            rs,
            id,
        )].reservation_id == id,
        forall|j: int|
            0 <= j < reservation_position(rs, id) ==> (#[trigger] rs[j]).reservation_id != id,
    decreases rs.len(),
{
    if rs.len() > 0 && rs[0].reservation_id != id {
        let t = rs.drop_first();
        lemma_position(t, id);
        assert forall|j: int| 0 <= j < reservation_position(rs, id) implies (
        #[trigger] rs[j]).reservation_id != id by {
            if j > 0 {
                assert(rs[j] == t[j - 1]);
            }
        }
        if reservation_position(t, id) < t.len() {
            assert(rs[reservation_position(t, id) + 1] == t[reservation_position(t, id)]);
        }
    }
}

/// A reservation is put behind those that are there, for no scope yet, and the account counts as
/// selected now; nothing else changes.
pub proof fn lemma_reserving_books_one_slot(
    state: StateModel,
    id: Seq<char>,
    now_ms: u64,
    expires_ms: u64,
)
    ensures
        ({
            let after = with_reservation(state, id, now_ms, expires_ms);
            &&& after.reservations.len() == state.reservations.len() + 1
            &&& after.reservations.drop_last() == state.reservations
            &&& after.reservations.last().reservation_id == id
            &&& after.reservations.last().scope_id is None
            &&& after.reservations.last().created_ms == now_ms
            &&& after.reservations.last().expires_ms == expires_ms
            &&& after.last_selected_ms == Some(now_ms)
            &&& after.dispatches_ms == state.dispatches_ms
            &&& after.cooldown_until_ms == state.cooldown_until_ms
            &&& after.cooldown_reason == state.cooldown_reason
            &&& after.health == state.health
            &&& after.account_id == state.account_id
            &&& after.version == state.version
            &&& after.has_reservation(id)
        }),
{
    let after = with_reservation(state, id, now_ms, expires_ms);
    assert(after.reservations.drop_last() =~= state.reservations);
    lemma_position(after.reservations, id);
    assert(after.reservations[after.reservations.len() - 1].reservation_id == id);
}

/// An account has a reservation exactly where one of its reservations has that id.
pub proof fn lemma_reservations_are_found_by_id(state: StateModel, id: Seq<char>)
    ensures
        state.has_reservation(id) <==> exists|i: int|
            0 <= i < state.reservations.len() && (#[trigger] state.reservations[i]).reservation_id
                == id,
{
    lemma_position(state.reservations, id);
    if state.has_reservation(id) {
        assert(state.reservations[reservation_position(state.reservations, id)].reservation_id
            == id);
    }
}

/// Giving a reservation back takes the first of that id away and leaves all others, in their
/// order; an account without it stays as it is.
pub proof fn lemma_released_slot_is_free(state: StateModel, id: Seq<char>, i: int)
    requires
        0 <= i <= state.reservations.len(),
        i < state.reservations.len() ==> state.reservations[i].reservation_id == id,
        forall|j: int| 0 <= j < i ==> (#[trigger] state.reservations[j]).reservation_id != id,
    ensures
        i == state.reservations.len() ==> state.without_reservation(id) == state,
        i < state.reservations.len() ==> state.without_reservation(id).reservations
            == state.reservations.subrange(0, i) + state.reservations.subrange(
            i + 1,
            state.reservations.len() as int,
        ),
        state.without_reservation(id).dispatches_ms == state.dispatches_ms,
        state.without_reservation(id).cooldown_until_ms == state.cooldown_until_ms,
        state.without_reservation(id).health == state.health,
        state.without_reservation(id).last_selected_ms == state.last_selected_ms,
{
    lemma_position(state.reservations, id);
    let p = reservation_position(state.reservations, id);
    if p < i {
        assert(state.reservations[p].reservation_id != id);
    }
    if i < p {
        assert(state.reservations[i].reservation_id != id);
    }
    if i < state.reservations.len() {
        assert(state.without_reservation(id).reservations =~= state.reservations.subrange(0, i)
            + state.reservations.subrange(i + 1, state.reservations.len() as int));
    }
}

/// A dispatch takes the place of its reservation: the time is noted behind the others, and the
/// reservation goes as if it were given back.
pub proof fn lemma_dispatch_replaces_its_reservation(state: StateModel, id: Seq<char>, dispatch_ms: u64)
    ensures
        state.dispatched(id, dispatch_ms).dispatches_ms == state.dispatches_ms.push(dispatch_ms),
        state.dispatched(id, dispatch_ms).reservations == state.without_reservation(
            id,
        ).reservations,
        state.dispatched(id, dispatch_ms).health == state.health,
        state.dispatched(id, dispatch_ms).cooldown_until_ms == state.cooldown_until_ms,
        state.dispatched(id, dispatch_ms).cooldown_reason == state.cooldown_reason,
        state.dispatched(id, dispatch_ms).account_id == state.account_id,
        state.dispatched(id, dispatch_ms).version == state.version,
        state.dispatched(id, dispatch_ms).last_selected_ms == state.last_selected_ms,
{
}

/// A bound reservation carries the scope that it was bound to, and is otherwise what it was; no
/// other reservation changes.
pub proof fn lemma_bound_reservation_carries_its_scope(
    state: StateModel,
    id: Seq<char>,
    scope_id: Seq<char>,
)
    requires
        state.has_reservation(id),
    ensures
        ({
            let after = state.bound(id, scope_id);
            let p = reservation_position(state.reservations, id);
            &&& after.reservations.len() == state.reservations.len()
            &&& after.reservations[p].scope_id == Some(scope_id)
            &&& after.reservations[p].reservation_id == id
            &&& after.reservations[p].created_ms == state.reservations[p].created_ms
            &&& after.reservations[p].expires_ms == state.reservations[p].expires_ms
            &&& forall|j: int|
                0 <= j < state.reservations.len() && j != p ==> #[trigger] after.reservations[j]
                    == state.reservations[j]
            &&& after.binding(id) == Some(scope_id)
            &&& after.dispatches_ms == state.dispatches_ms
            &&& after.health == state.health
            &&& after.cooldown_until_ms == state.cooldown_until_ms
        }),
{
    let after = state.bound(id, scope_id);
    let p = reservation_position(state.reservations, id);
    lemma_position(state.reservations, id);
    lemma_position(after.reservations, id);
    let q = reservation_position(after.reservations, id);
    assert(after.reservations[p].reservation_id == id);
    if q < p {
        assert(after.reservations[q] == state.reservations[q]);
        assert(state.reservations[q].reservation_id != id);
    }
    if p < q {
        assert(after.reservations[p].reservation_id != id);
    }
}

/// Which accounts take work: those that are enabled and do not drain (retained work asks for
/// neither), are healthy, do not rest, and have room both in their window and among their
/// workers.
pub open spec fn takes_work(
    account: AccountConfig,
    state: StateModel,
    active: usize,
    scope_ids: Option<Seq<Seq<char>>>,
    now_ms: u64,
    allow_disabled: bool,
) -> bool {
    &&& allow_disabled || (account.enabled && !account.draining)
    &&& state.health == AccountHealth::Ready
    &&& state.cooldown_until_ms matches Some(t) ==> t <= now_ms
    &&& state.dispatches_ms.len() + state.reservations.len() < account.limits.max_dispatches
    &&& active + reserved_active(state.reservations, scope_ids) < account.limits.max_active_workers
}

/// An account is refused for a reason, and says when to ask again.
pub open spec fn is_refused(
    r: Option<ExhaustionModel>,
    reason: Seq<char>,
    retry_at_ms: Option<u64>,
) -> bool {
    r is Some && r->0.reason == reason && r->0.retry_at_ms == retry_at_ms
}

/// An account is refused exactly where it cannot take work, under its own id and for the first
/// reason that applies.
pub proof fn lemma_refusals_have_reasons(
    account: AccountConfig,
    state: StateModel,
    active: usize,
    scope_ids: Option<Seq<Seq<char>>>,
    now_ms: u64,
    allow_disabled: bool,
)
    ensures
        ({
            let r = exhaustion(account, state, active, scope_ids, now_ms, allow_disabled);
            let fresh = !allow_disabled;
            let resting = state.cooldown_until_ms matches Some(t) && t > now_ms;
            let open = allow_disabled || (account.enabled && !account.draining);
            let healthy = open && state.health == AccountHealth::Ready;
            let full = state.dispatches_ms.len() + state.reservations.len()
                >= account.limits.max_dispatches;
            &&& r is None <==> takes_work(
                account,
                state,
                active,
                scope_ids,
                now_ms,
                allow_disabled,
            )
            &&& r matches Some(e) ==> e.account_id == account.id@
            &&& fresh && !account.enabled ==> is_refused(r, "disabled"@, None)
            &&& fresh && account.enabled && account.draining ==> is_refused(r, "draining"@, None)
            &&& open && state.health == AccountHealth::AuthRequired ==> is_refused(
                r,
                "auth_required"@,
                None,
            )
            &&& open && state.health == AccountHealth::Degraded ==> is_refused(r, "degraded"@, None)
            &&& healthy && resting && state.cooldown_reason is Some ==> is_refused(
                r,
                state.cooldown_reason->0,
                state.cooldown_until_ms,
            )
            &&& healthy && resting && state.cooldown_reason is None ==> is_refused(
                r,
                "cooldown"@,
                state.cooldown_until_ms,
            )
            &&& healthy && !resting && full ==> r is Some && r->0.reason == "window_exhausted"@
            &&& healthy && !resting && !full && r is Some ==> r->0.reason
                == "active_workers_exhausted"@
        }),
{
}

/// A refused account says when it is worth asking again: when the first reservation expires or, for
/// a full window, when the oldest dispatch leaves it if that comes earlier.
pub proof fn lemma_retry_time_is_the_earliest(
    account: AccountConfig,
    state: StateModel,
    active: usize,
    scope_ids: Option<Seq<Seq<char>>>,
    now_ms: u64,
    allow_disabled: bool,
)
    requires
        allow_disabled || (account.enabled && !account.draining),
        state.health == AccountHealth::Ready,
        state.cooldown_until_ms is None,
        !takes_work(account, state, active, scope_ids, now_ms, allow_disabled),
        forall|i: int|
            0 <= i < state.dispatches_ms.len() ==> (#[trigger] state.dispatches_ms[i]) + seconds_ms(
                account.limits.window_seconds,
            ) <= u64::MAX,
    ensures
        ({
            let r = exhaustion(account, state, active, scope_ids, now_ms, allow_disabled)->0;
            let full = state.dispatches_ms.len() + state.reservations.len()
                >= account.limits.max_dispatches;
            let window_ms = seconds_ms(account.limits.window_seconds);
            &&& forall|i: int|
                0 <= i < state.reservations.len() ==> r.retry_at_ms is Some && r.retry_at_ms->0 <= (
                #[trigger] state.reservations[i]).expires_ms
            &&& full ==> forall|i: int|
                0 <= i < state.dispatches_ms.len() ==> r.retry_at_ms is Some && r.retry_at_ms->0 <= (
                #[trigger] state.dispatches_ms[i]) + window_ms
            &&& r.retry_at_ms matches Some(t) ==> {
                ||| exists|i: int|
                    0 <= i < state.reservations.len() && (#[trigger] state.reservations[i]).expires_ms
                        == t
                ||| full && exists|i: int|
                    0 <= i < state.dispatches_ms.len() && (#[trigger] state.dispatches_ms[i])
                        + window_ms == t
            }
        }),
{
    let r = exhaustion(account, state, active, scope_ids, now_ms, allow_disabled)->0;
    let ends = expiries(state.reservations);
    lemma_least(ends);
    lemma_least(state.dispatches_ms);
    assert forall|i: int| 0 <= i < state.reservations.len() implies ends[i] == (
    #[trigger] state.reservations[i]).expires_ms by {}
    let full = state.dispatches_ms.len() + state.reservations.len() >= account.limits.max_dispatches;
    let window_ms = seconds_ms(account.limits.window_seconds);
    assert forall|i: int| 0 <= i < state.reservations.len() implies r.retry_at_ms is Some
        && r.retry_at_ms->0 <= (#[trigger] state.reservations[i]).expires_ms by {
        assert(ends[i] == state.reservations[i].expires_ms);
    }
    if r.retry_at_ms is Some {
        let t = r.retry_at_ms->0;
        if least(ends) == Some(t) {
            let k = choose|k: int| 0 <= k < ends.len() && ends[k] == t;
            assert(state.reservations[k].expires_ms == t);
        } else {
            let d = least(state.dispatches_ms)->0;
            let k = choose|k: int| 0 <= k < state.dispatches_ms.len() && state.dispatches_ms[k] == d;
            assert(state.dispatches_ms[k] + window_ms == t);
        }
    }
}

/// Reservations count as workers until a running worker has taken them up; where the running
/// scopes are not known, all of them count.
pub proof fn lemma_reservations_count_as_workers(
    rs: Seq<ReservationModel>,
    new: ReservationModel,
    scope_ids: Seq<Seq<char>>,
)
    ensures
        reserved_active(Seq::empty(), None) == 0,
        reserved_active(Seq::empty(), Some(scope_ids)) == 0,
        reserved_active(rs.push(new), None) == reserved_active(rs, None) + 1,
        (new.scope_id matches Some(s) && scope_ids.contains(s)) ==> reserved_active(
            rs.push(new),
            Some(scope_ids),
        ) == reserved_active(rs, Some(scope_ids)),
        !(new.scope_id matches Some(s) && scope_ids.contains(s)) ==> reserved_active(
            rs.push(new),
            Some(scope_ids),
        ) == reserved_active(rs, Some(scope_ids)) + 1,
{
    reveal(Seq::filter);
    assert(rs.push(new).drop_last() =~= rs);
}

/// How loaded an account is: its running workers and reservations against the most it may have,
/// all that is booked in its window against the most it may have, and when it was last selected.
pub proof fn lemma_load_counts_all_that_is_booked(
    account: AccountConfig,
    state: StateModel,
    load: LoadModel,
)
    ensures
        ({
            let k = load_key(account, state, load);
            &&& k.active == count_for(load.counts, account.id@) + reserved_active(
                state.reservations,
                load.scope_ids,
            )
            &&& k.window == state.dispatches_ms.len() + state.reservations.len()
            &&& k.max_active == account.limits.max_active_workers
            &&& k.max_window == account.limits.max_dispatches
            &&& k.last_selected == state.last_selected_ms
            &&& k.id == account.id@
        }),
{
}

/// Of two accounts with the same limits the one with fewer workers is less loaded; with as many
/// workers, the one with less in its window; with as much, one that was never selected, or else
/// the one that was selected earlier; and with nothing else to go by, the one with the lesser id.
pub proof fn lemma_order_of_load(a: LoadKey, b: LoadKey)
    requires
        a.max_active == b.max_active,
        a.max_window == b.max_window,
        a.max_active > 0,
        a.max_window > 0,
    ensures
        a.active < b.active ==> less_loaded(a, b) && !less_loaded(b, a),
        a.active == b.active && a.window < b.window ==> less_loaded(a, b) && !less_loaded(b, a),
        a.active == b.active && a.window == b.window && a.last_selected is None
            && b.last_selected is Some ==> less_loaded(a, b) && !less_loaded(b, a),
        a.active == b.active && a.window == b.window && (a.last_selected matches Some(x)
            && b.last_selected matches Some(y) && x < y) ==> less_loaded(a, b) && !less_loaded(b, a),
        a.active == b.active && a.window == b.window && a.last_selected == b.last_selected ==> (
        less_loaded(a, b) <==> text_lt(a.id, b.id)),
{
    lemma_share(a.active, b.active, a.max_active);
    lemma_share(a.window, b.window, a.max_window);
}

proof fn lemma_share(a: int, b: int, m: int)
    by (nonlinear_arith)
    requires
        m > 0,
    ensures
        a * m < b * m <==> a < b,
        a * m == b * m <==> a == b,
{
}

/// An account with as many workers as another but room for more of them is less loaded.
pub proof fn lemma_larger_account_is_less_loaded(a: LoadKey, b: LoadKey)
    requires
        a.active == b.active,
        a.active > 0,
        a.max_active > b.max_active,
    ensures
        less_loaded(a, b),
        !less_loaded(b, a),
{
    assert(a.active * b.max_active < b.active * a.max_active) by (nonlinear_arith)
        requires
            a.active == b.active,
            a.active > 0,
            a.max_active > b.max_active,
    ;
}

/// The round goes on from the cursor: the picked account is the first from there that can take
/// work.
pub proof fn lemma_round_picks_the_next(
    ctx: RouteContext,
    states: Seq<StateModel>,
    cursor: u64,
    k: int,
)
    requires
        ctx.strategy is RoundRobin,
        0 <= k < ctx.accounts.len(),
        ctx.eligible(states, (cursor as int + k) % ctx.accounts.len() as int),
        forall|j: int|
            #![trigger ctx.eligible(states, (cursor as int + j) % ctx.accounts.len() as int)]
            0 <= j < k ==> !ctx.eligible(
                states,
                (cursor as int + j) % ctx.accounts.len() as int,
            ),
    ensures
        ctx.pick(states, cursor) == Some((cursor as int + k) % ctx.accounts.len() as int),
        cursor + k + 1 <= u64::MAX ==> ctx.next_cursor(states, cursor) == cursor + k + 1,
{
    let n = ctx.accounts.len() as int;
    let start = ctx.round_start(cursor);
    vstd::arithmetic::div_mod::lemma_mod_bound(cursor as int + k, n);
    assert(ctx.any_eligible(states));
    assert forall|j: int| 0 <= j <= k implies (start + j) % n == #[trigger] ((cursor as int + j)
        % n) by {
        vstd::arithmetic::div_mod::lemma_add_mod_noop(cursor as int, j, n);
        vstd::arithmetic::div_mod::lemma_add_mod_noop(start, j, n);
        vstd::arithmetic::div_mod::lemma_mod_twice(cursor as int, n);
    }
    lemma_round_from(ctx, states, cursor, start, 0, k);
}

proof fn lemma_round_from(
    ctx: RouteContext,
    states: Seq<StateModel>,
    cursor: u64,
    start: int,
    from: int,
    k: int,
)
    requires
        0 <= from <= k < ctx.accounts.len(),
        start == ctx.round_start(cursor),
        forall|j: int|
            0 <= j <= k ==> (start + j) % ctx.accounts.len() as int == #[trigger] ((cursor as int + j)
                % ctx.accounts.len() as int),
        ctx.eligible(states, (cursor as int + k) % ctx.accounts.len() as int),
        forall|j: int|
            #![trigger ctx.eligible(states, (cursor as int + j) % ctx.accounts.len() as int)]
            0 <= j < k ==> !ctx.eligible(
                states,
                (cursor as int + j) % ctx.accounts.len() as int,
            ),
    ensures
        ctx.round_offset(states, start, from) == k,
        around(start, k, ctx.accounts.len() as int) == (cursor as int + k)
            % ctx.accounts.len() as int,
    decreases k - from,
{
    let n = ctx.accounts.len() as int;
    vstd::arithmetic::div_mod::lemma_mod_bound(cursor as int, n);
    assert((start + from) % n == (cursor as int + from) % n);
    assert((start + k) % n == (cursor as int + k) % n);
    lemma_around(start, from, n);
    lemma_around(start, k, n);
    if from < k {
        assert(!ctx.eligible(states, (cursor as int + from) % n));
        lemma_round_from(ctx, states, cursor, start, from + 1, k);
    }
}

proof fn lemma_around(start: int, k: int, n: int)
    requires
        0 <= start < n,
        0 <= k < n,
    ensures
        around(start, k, n) == (start + k) % n,
{
    if start + k < n {
        vstd::arithmetic::div_mod::lemma_small_mod((start + k) as nat, n as nat);
    } else {
        vstd::arithmetic::div_mod::lemma_mod_sub_multiples_vanish(start + k, n);
        vstd::arithmetic::div_mod::lemma_small_mod((start + k - n) as nat, n as nat);
    }
}

/// A batch books each of its reservations, in their order, on the account that it picked for it,
/// for the time of the batch; no other reservation comes or goes.
pub proof fn lemma_batch_books_every_reservation(
    ctx: RouteContext,
    states: Seq<StateModel>,
    cursor: u64,
    expires_ms: u64,
    ids: Seq<Seq<char>>,
    i: int,
)
    requires
        distinct_ids(ctx.accounts),
        states.len() == ctx.accounts.len(),
        batch(ctx, states, cursor, expires_ms, ids) is Ok,
        0 <= i < states.len(),
    ensures
        ({
            let b = batch(ctx, states, cursor, expires_ms, ids)->Ok_0;
            &&& b.picks.len() == ids.len()
            &&& b.states.len() == states.len()
            &&& b.states[i].reservations == states[i].reservations + booked(
                b.picks,
                ids,
                i,
                ctx.now_ms,
                expires_ms,
            )
            &&& b.states[i].dispatches_ms == states[i].dispatches_ms
            &&& b.states[i].health == states[i].health
            &&& b.states[i].cooldown_until_ms == states[i].cooldown_until_ms
            &&& b.states[i].account_id == states[i].account_id
        }),
    decreases ids.len(),
{
    let b = batch(ctx, states, cursor, expires_ms, ids)->Ok_0;
    if ids.len() == 0 {
        assert(b.states[i].reservations =~= states[i].reservations + booked(
            b.picks,
            ids,
            i,
            ctx.now_ms,
            expires_ms,
        ));
    } else {
        let a = batch(ctx, states, cursor, expires_ms, ids.drop_last())->Ok_0;
        lemma_batch_books_every_reservation(ctx, states, cursor, expires_ms, ids.drop_last(), i);
        lemma_pick_is_eligible(ctx, a.states, a.cursor);
        assert(b.picks.drop_last() =~= a.picks);
        assert(b.states[i].reservations =~= states[i].reservations + booked(
            b.picks,
            ids,
            i,
            ctx.now_ms,
            expires_ms,
        ));
    }
}

/// The reservations that a batch books on one account.
pub open spec fn booked(
    picks: Seq<int>,
    ids: Seq<Seq<char>>,
    i: int,
    now_ms: u64,
    expires_ms: u64,
) -> Seq<ReservationModel>
    decreases ids.len(),
{
    if ids.len() == 0 {
        Seq::empty()
    } else {
        let before = booked(picks.drop_last(), ids.drop_last(), i, now_ms, expires_ms);
        if picks.last() == i {
            before.push(
                ReservationModel {
                    reservation_id: ids.last(),
                    scope_id: None,
                    created_ms: now_ms,
                    expires_ms,
                },
            )
        } else {
            before
        }
    }
}

/// A scope counts as a running worker where its delegation goes on, unless its lock is free; a
/// scope without a delegation never does.
pub proof fn lemma_running_scopes_count(
    scopes: Seq<ScopeActivity>,
    new: ScopeActivity,
    account_id: Seq<char>,
)
    ensures
        live_workers(Seq::empty(), account_id) == 0,
        live_scope_ids(Seq::empty()) == Seq::<Seq<char>>::empty(),
        (new.terminal == Some(false) && new.lock !is Free) ==> {
            &&& live_scope_ids(scopes.push(new)) == live_scope_ids(scopes).push(new.scope_id@)
            &&& new.account_id@ == account_id ==> live_workers(scopes.push(new), account_id)
                == live_workers(scopes, account_id) + 1
        },
        !(new.terminal == Some(false) && new.lock !is Free) ==> live_scope_ids(scopes.push(new))
            == live_scope_ids(scopes),
        !(new.terminal == Some(false) && new.lock !is Free) || new.account_id@ != account_id
            ==> live_workers(scopes.push(new), account_id) == live_workers(scopes, account_id),
{
    reveal(Seq::filter);
    assert(scopes.push(new).drop_last() =~= scopes);
    let counts = |s: ScopeActivity| s.counts();
    assert(live_scope_ids(Seq::empty()) =~= Seq::<Seq<char>>::empty());
    if new.counts() {
        assert(scopes.push(new).filter(counts) == scopes.filter(counts).push(new));
        assert(live_scope_ids(scopes.push(new)) =~= live_scope_ids(scopes).push(new.scope_id@));
    }
}

/// A mark of health is what is read of the account afterwards, until it is marked again; its
/// bookings and its rest stay, and no other account is touched.
pub proof fn lemma_marked_health_is_read(
    config: AccountsConfig,
    account_id: Seq<char>,
    health: AccountHealth,
    now_ms: u64,
    before: AccountStateStore,
    after: AccountStateStore,
    r: Result<(), RouterError>,
    other: Seq<char>,
)
    requires
        health_outcome(config, account_id, health, now_ms, before, after, r),
        r is Ok,
        other != account_id,
    ensures
        after.loaded(account_id) is Some,
        after.loaded(account_id)->0.health == health,
        ({
            let was = account_now(config, before, account_id, now_ms)->0;
            let now = after.loaded(account_id)->0;
            &&& now.dispatches_ms == was.dispatches_ms
            &&& now.reservations == was.reservations
            &&& now.cooldown_until_ms == was.cooldown_until_ms
            &&& now.cooldown_reason == was.cooldown_reason
        }),
        after.loaded(other) == before.loaded(other),
{
    let now = account_now(config, before, account_id, now_ms)->0;
    assert(now.account_id == account_id);
    assert(stored(after.accounts@, account_id) == Some(StateModel { health, ..now }));
    assert(stored(after.accounts@, other) == stored(before.accounts@, other));
}

} // verus!
