//! What holds of reservations as they are kept: what is stored when they are made, used and given
//! back, and what is stored of the other accounts.
use crate::account_state::{reservation_position, stored, AccountStateStore, ReservationModel,
    StateModel, ROUTER_STATE_VERSION};
use crate::accounts::{account_position, AccountsConfig};
use crate::arith::seconds_ms;
use crate::laws::routing::{booked, lemma_batch_books_every_reservation,
    lemma_dispatch_replaces_its_reservation, lemma_reservations_are_found_by_id,
    lemma_what_counts_is_kept};
use crate::router::{account_now, batch, batch_outcome, commit_outcome, current_states, expiry,
    lemma_batch_respects_limits, release_outcome, retained_outcome, LoadModel, RouteContext,
    RouteReservation, RouterError};
use vstd::prelude::*;

verus! {

/// An account holds a reservation that has not run out.
pub open spec fn holds_reservation(state: StateModel, id: Seq<char>, now_ms: u64) -> bool {
    exists|i: int|
        0 <= i < state.reservations.len() && (#[trigger] state.reservations[i]).reservation_id == id
            && state.reservations[i].expires_ms > now_ms
}

proof fn lemma_held_is_had(state: StateModel, id: Seq<char>, now_ms: u64, window_ms: u64)
    ensures
        state.reconciled(now_ms, window_ms).has_reservation(id) <==> holds_reservation(
            state,
            id,
            now_ms,
        ),
{
    let after = state.reconciled(now_ms, window_ms);
    lemma_what_counts_is_kept(state, now_ms, window_ms);
    lemma_reservations_are_found_by_id(after, id);
    if after.has_reservation(id) {
        let i = choose|i: int|
            0 <= i < after.reservations.len() && (#[trigger] after.reservations[i]).reservation_id
                == id;
        assert(after.reservations.contains(after.reservations[i]));
        let r = after.reservations[i];
        assert(state.reservations.contains(r));
        let k = choose|k: int| 0 <= k < state.reservations.len() && state.reservations[k] == r;
        assert(state.reservations[k].reservation_id == id);
    }
    if holds_reservation(state, id, now_ms) {
        let k = choose|k: int|
            0 <= k < state.reservations.len() && (#[trigger] state.reservations[k]).reservation_id
                == id && state.reservations[k].expires_ms > now_ms;
        let r = state.reservations[k];
        assert(state.reservations.contains(r));
        assert(after.reservations.contains(r));
        let i = choose|i: int| 0 <= i < after.reservations.len() && after.reservations[i] == r;
        assert(after.reservations[i].reservation_id == id);
    }
}

/// Work is booked exactly where its account is configured and can be read, and holds the reservation
/// still. The time is then the last that is noted on the account, one reservation less is held, and
/// nothing else of it changes; no other account is touched. What is refused changes nothing.
pub proof fn lemma_committed_work_is_noted(
    config: AccountsConfig,
    reservation: RouteReservation,
    dispatch_ms: u64,
    before: AccountStateStore,
    after: AccountStateStore,
    r: Result<(), RouterError>,
    other: Seq<char>,
)
    requires
        commit_outcome(config, reservation, dispatch_ms, before, after, r),
        other != reservation.account.id@,
    ensures
        ({
            let account_id = reservation.account.id@;
            let at = account_position(config.accounts@, account_id);
            &&& r is Ok <==> at < config.accounts@.len() && before.loaded(account_id) is Some
                && holds_reservation(
                before.loaded(account_id)->0,
                reservation.reservation_id@,
                dispatch_ms,
            )
            &&& r is Err ==> after == before
            &&& r is Ok ==> {
                let was = before.loaded(account_id)->0.reconciled(
                    dispatch_ms,
                    seconds_ms(config.accounts@[at].limits.window_seconds),
                );
                let now = stored(after.accounts@, account_id)->0;
                &&& stored(after.accounts@, account_id) is Some
                &&& now.dispatches_ms.len() == was.dispatches_ms.len() + 1
                &&& now.dispatches_ms.last() == dispatch_ms
                &&& now.dispatches_ms.drop_last() == was.dispatches_ms
                &&& now.reservations.len() + 1 == was.reservations.len()
                &&& now.health == was.health
                &&& now.cooldown_until_ms == was.cooldown_until_ms
                &&& now.account_id == account_id
            }
            &&& stored(after.accounts@, other) == stored(before.accounts@, other)
            &&& after.router == before.router
        }),
{
    let account_id = reservation.account.id@;
    let id = reservation.reservation_id@;
    let at = account_position(config.accounts@, account_id);
    if at < config.accounts@.len() && before.loaded(account_id) is Some {
        let window_ms = seconds_ms(config.accounts@[at].limits.window_seconds);
        let was = before.loaded(account_id)->0;
        lemma_held_is_had(was, id, dispatch_ms, window_ms);
        let now = was.reconciled(dispatch_ms, window_ms);
        lemma_dispatch_replaces_its_reservation(now, id, dispatch_ms);
        assert(now.account_id == account_id);
        if r is Ok {
            assert(stored(after.accounts@, account_id) == Some(now.dispatched(id, dispatch_ms)));
            assert(now.dispatches_ms.push(dispatch_ms).drop_last() =~= now.dispatches_ms);
            assert(reservation_position(now.reservations, id) >= 0) by {
                lemma_first_of_id(now, id);
            }
        }
    }
}

proof fn lemma_first_of_id(state: StateModel, id: Seq<char>)
    ensures
        0 <= reservation_position(state.reservations, id) <= state.reservations.len(),
    decreases state.reservations.len(),
{
    if state.reservations.len() > 0 && state.reservations[0].reservation_id != id {
        lemma_first_of_id(StateModel { reservations: state.reservations.drop_first(), ..state }, id);
    }
}

/// A reservation is given back where its account can be read; one of an account that is no longer
/// configured, or one that is gone, is nobody's fault. At most that one reservation goes, no dispatch
/// is noted or forgotten, and no other account is touched.
pub proof fn lemma_released_reservation_is_gone(
    config: AccountsConfig,
    reservation: RouteReservation,
    now_ms: u64,
    before: AccountStateStore,
    after: AccountStateStore,
    r: Result<(), RouterError>,
    other: Seq<char>,
)
    requires
        release_outcome(config, reservation, now_ms, before, after, r),
        other != reservation.account.id@,
    ensures
        ({
            let account_id = reservation.account.id@;
            let id = reservation.reservation_id@;
            let at = account_position(config.accounts@, account_id);
            &&& r is Ok <==> at == config.accounts@.len() || before.loaded(account_id) is Some
            &&& at == config.accounts@.len() || r is Err ==> after == before
            &&& r is Ok && at != config.accounts@.len() ==> {
                let was = before.loaded(account_id)->0.reconciled(
                    now_ms,
                    seconds_ms(config.accounts@[at].limits.window_seconds),
                );
                let now = stored(after.accounts@, account_id)->0;
                &&& stored(after.accounts@, account_id) is Some
                &&& now.dispatches_ms == was.dispatches_ms
                &&& now.health == was.health
                &&& now.cooldown_until_ms == was.cooldown_until_ms
                &&& holds_reservation(before.loaded(account_id)->0, id, now_ms)
                    ==> now.reservations.len() + 1 == was.reservations.len()
                &&& !holds_reservation(before.loaded(account_id)->0, id, now_ms)
                    ==> now.reservations == was.reservations
                &&& forall|x: ReservationModel|
                    x.reservation_id != id ==> (#[trigger] now.reservations.contains(x)
                        <==> was.reservations.contains(x))
            }
            &&& stored(after.accounts@, other) == stored(before.accounts@, other)
            &&& after.router == before.router
        }),
{
    let account_id = reservation.account.id@;
    let id = reservation.reservation_id@;
    let at = account_position(config.accounts@, account_id);
    lemma_account_is_within(config, account_id);
    if at < config.accounts@.len() && before.loaded(account_id) is Some {
        let window_ms = seconds_ms(config.accounts@[at].limits.window_seconds);
        let old_state = before.loaded(account_id)->0;
        lemma_held_is_had(old_state, id, now_ms, window_ms);
        let was = old_state.reconciled(now_ms, window_ms);
        assert(was.account_id == account_id);
        let now = was.without_reservation(id);
        assert(stored(after.accounts@, account_id) == Some(now));
        let i = reservation_position(was.reservations, id);
        lemma_first_of_id(was, id);
        lemma_position_is_first(was.reservations, id);
        assert forall|x: ReservationModel| x.reservation_id != id implies (
        #[trigger] now.reservations.contains(x) <==> was.reservations.contains(x)) by {
            if i < was.reservations.len() {
                if was.reservations.contains(x) {
                    let k = choose|k: int|
                        0 <= k < was.reservations.len() && was.reservations[k] == x;
                    if k < i {
                        assert(now.reservations[k] == x);
                    } else {
                        assert(now.reservations[k - 1] == x);
                    }
                }
                if now.reservations.contains(x) {
                    let k = choose|k: int|
                        0 <= k < now.reservations.len() && now.reservations[k] == x;
                    if k < i {
                        assert(was.reservations[k] == x);
                    } else {
                        assert(was.reservations[k + 1] == x);
                    }
                }
            }
        }
    }
}

proof fn lemma_position_is_first(rs: Seq<ReservationModel>, id: Seq<char>)
    ensures
        reservation_position(rs, id) < rs.len() ==> rs[reservation_position(
            rs,
            id,
        )].reservation_id == id,
    decreases rs.len(),
{
    if rs.len() > 0 && rs[0].reservation_id != id {
        let t = rs.drop_first();
        lemma_position_is_first(t, id);
        lemma_position_is_within(t, id);
    }
}

proof fn lemma_position_is_within(rs: Seq<ReservationModel>, id: Seq<char>)
    ensures
        0 <= reservation_position(rs, id) <= rs.len(),
    decreases rs.len(),
{
    if rs.len() > 0 && rs[0].reservation_id != id {
        lemma_position_is_within(rs.drop_first(), id);
    }
}

proof fn lemma_account_is_within(config: AccountsConfig, id: Seq<char>)
    ensures
        0 <= account_position(config.accounts@, id) <= config.accounts@.len(),
{
    lemma_account_stands_within(config.accounts@, id);
}

proof fn lemma_account_stands_within(
    accounts: Seq<crate::accounts::AccountConfig>,
    id: Seq<char>,
)
    ensures
        0 <= account_position(accounts, id) <= accounts.len(),
        account_position(accounts, id) < accounts.len() ==> accounts[account_position(
            accounts,
            id,
        )].id@ == id,
    decreases accounts.len(),
{
    if accounts.len() > 0 && accounts[0].id@ != id {
        lemma_account_stands_within(accounts.drop_first(), id);
    }
}

proof fn lemma_booked_on_its_pick(
    picks: Seq<int>,
    ids: Seq<Seq<char>>,
    j: int,
    now_ms: u64,
    expires_ms: u64,
)
    requires
        picks.len() == ids.len(),
        0 <= j < ids.len(),
    ensures
        booked(picks, ids, picks[j], now_ms, expires_ms).contains(
            ReservationModel {
                reservation_id: ids[j],
                scope_id: None,
                created_ms: now_ms,
                expires_ms,
            },
        ),
    decreases ids.len(),
{
    let i = picks[j];
    let x = ReservationModel {
        reservation_id: ids[j],
        scope_id: None,
        created_ms: now_ms,
        expires_ms,
    };
    let all = booked(picks, ids, i, now_ms, expires_ms);
    let front = booked(picks.drop_last(), ids.drop_last(), i, now_ms, expires_ms);
    if j == ids.len() - 1 {
        assert(all[all.len() - 1] == x);
    } else {
        lemma_booked_on_its_pick(picks.drop_last(), ids.drop_last(), j, now_ms, expires_ms);
        let k = choose|k: int| 0 <= k < front.len() && front[k] == x;
        assert(all[k] == x);
    }
}

/// A batch is taken whole or not at all. Each of its reservations has its own id, in the order of the
/// ids, runs out as many seconds from now as is configured, is on an account that is enabled, does not
/// drain, works and does not rest, and is stored there.
pub proof fn lemma_batch_is_taken_whole(
    config: AccountsConfig,
    load: LoadModel,
    ids: Seq<Seq<char>>,
    now_ms: u64,
    before: AccountStateStore,
    after: AccountStateStore,
    r: Result<Vec<RouteReservation>, RouterError>,
    j: int,
)
    requires
        config.wf(),
        batch_outcome(config, load, ids, now_ms, before, after, r),
        0 <= j < ids.len(),
        now_ms + config.routing.reservation_ttl_seconds * 1000 <= u64::MAX,
    ensures
        r is Err ==> after == before,
        r is Ok ==> {
            let v = r->Ok_0@;
            let x = v[j];
            let kept = stored(after.accounts@, x.account.id@);
            &&& v.len() == ids.len()
            &&& x.reservation_id@ == ids[j]
            &&& x.created_ms == now_ms
            &&& x.expires_ms == now_ms + config.routing.reservation_ttl_seconds * 1000
            &&& config.accounts@.contains(x.account)
            &&& x.account.enabled
            &&& !x.account.draining
            &&& kept is Some
            &&& kept->0.health is Ready
            &&& kept->0.last_selected_ms == Some(now_ms)
            &&& kept->0.reservations.contains(
                ReservationModel {
                    reservation_id: ids[j],
                    scope_id: None,
                    created_ms: now_ms,
                    expires_ms: x.expires_ms,
                },
            )
            &&& after.router is Some
            &&& after.router->0.updated_ms == now_ms
        },
{
    if r is Ok {
        let ctx = RouteContext {
            accounts: config.accounts@,
            strategy: config.routing.strategy,
            load,
            now_ms,
            allow_disabled: false,
        };
        let expires_ms = expiry(now_ms, config.routing.reservation_ttl_seconds);
        let states = current_states(before, config.accounts@, now_ms)->0;
        let cursor = before.loaded_router().round_robin_cursor;
        let b = batch(ctx, states, cursor, expires_ms, ids)->Ok_0;
        lemma_batch_respects_limits(ctx, states, cursor, expires_ms, ids);
        let i = b.picks[j];
        assert(b.picks.contains(i));
        lemma_batch_books_every_reservation(ctx, states, cursor, expires_ms, ids, i);
        lemma_booked_on_its_pick(b.picks, ids, j, now_ms, expires_ms);
        lemma_batch_marks_the_selected(ctx, states, cursor, expires_ms, ids, j);
        let x = r->Ok_0@[j];
        assert(x.account == config.accounts@[i]);
        assert(stored(after.accounts@, config.accounts@[i].id@) == Some(b.states[i]));
        let new = booked(b.picks, ids, i, now_ms, expires_ms);
        let y = ReservationModel {
            reservation_id: ids[j],
            scope_id: None,
            created_ms: now_ms,
            expires_ms,
        };
        let k = choose|k: int| 0 <= k < new.len() && new[k] == y;
        assert(b.states[i].reservations[states[i].reservations.len() + k] == y);
    }
}

proof fn lemma_batch_marks_the_selected(
    ctx: RouteContext,
    states: Seq<StateModel>,
    cursor: u64,
    expires_ms: u64,
    ids: Seq<Seq<char>>,
    j: int,
)
    requires
        crate::accounts::distinct_ids(ctx.accounts),
        states.len() == ctx.accounts.len(),
        batch(ctx, states, cursor, expires_ms, ids) is Ok,
        0 <= j < ids.len(),
    ensures
        ({
            let b = batch(ctx, states, cursor, expires_ms, ids)->Ok_0;
            &&& b.picks.len() == ids.len()
            &&& b.states.len() == states.len()
            &&& 0 <= b.picks[j] < states.len()
            &&& b.states[b.picks[j]].last_selected_ms == Some(ctx.now_ms)
        }),
    decreases ids.len(),
{
    let b = batch(ctx, states, cursor, expires_ms, ids)->Ok_0;
    let a = batch(ctx, states, cursor, expires_ms, ids.drop_last())->Ok_0;
    crate::router::lemma_pick_is_eligible(ctx, a.states, a.cursor);
    if ids.len() > 1 {
        lemma_batch_marks_the_selected(
            ctx,
            states,
            cursor,
            expires_ms,
            ids.drop_last(),
            if j == ids.len() - 1 {
                0
            } else {
                j
            },
        );
    }
    assert(b.picks.drop_last() =~= a.picks);
}

/// Work that goes on keeps its account, though that is disabled or drains: its reservation is on it, and
/// is stored there. What is refused changes nothing.
pub proof fn lemma_retained_work_is_booked(
    config: AccountsConfig,
    load: LoadModel,
    account_id: Seq<char>,
    now_ms: u64,
    before: AccountStateStore,
    after: AccountStateStore,
    r: Result<RouteReservation, RouterError>,
)
    requires
        config.wf(),
        retained_outcome(config, load, account_id, now_ms, before, after, r),
        now_ms + config.routing.reservation_ttl_seconds * 1000 <= u64::MAX,
    ensures
        r is Err ==> after == before,
        r is Ok ==> {
            let x = r->Ok_0;
            let kept = stored(after.accounts@, account_id);
            let was = account_now(config, before, account_id, now_ms);
            &&& x.account.id@ == account_id
            &&& x.created_ms == now_ms
            &&& x.expires_ms == now_ms + config.routing.reservation_ttl_seconds * 1000
            &&& was is Some
            &&& kept is Some
            &&& kept->0.reservations == was->0.reservations.push(
                ReservationModel {
                    reservation_id: x.reservation_id@,
                    scope_id: None,
                    created_ms: now_ms,
                    expires_ms: x.expires_ms,
                },
            )
            &&& kept->0.dispatches_ms == was->0.dispatches_ms
            &&& kept->0.last_selected_ms == Some(now_ms)
            &&& after.router is Some
            &&& after.router->0.round_robin_cursor == before.loaded_router().round_robin_cursor
        },
        account_position(config.accounts@, account_id) == config.accounts@.len() ==> r is Err && r->Err_0
            is AccountUnavailable,
        before.loaded_router().version != ROUTER_STATE_VERSION ==> r is Err,
{
    lemma_account_is_within(config, account_id);
    lemma_account_stands_within(config.accounts@, account_id);
    if r is Ok {
        let at = account_position(config.accounts@, account_id);
        let states = current_states(before, config.accounts@, now_ms)->0;
        assert(config.accounts@[at].id@ == account_id);
        assert(states[at] == account_now(config, before, account_id, now_ms)->0);
        assert(stored(after.accounts@, config.accounts@[at].id@) is Some);
    }
}

} // verus!
