//! What the bridge remembers of each account between runs, and of its router.
use crate::arith::{least, least_of, sat_add, sat_sub};
use crate::error::BridgeError;
use crate::text::{copy_opt, decimal, decimal_of, is_alnum, is_alnum_char, opt_text, same_text};
use vstd::prelude::*;

verus! {

pub const ACCOUNT_STATE_VERSION: u32 = 1;

pub const ROUTER_STATE_VERSION: u32 = 1;

/// Whether an account can take work, as far as its browser showed.
#[derive(Clone, Copy, Debug, PartialEq, Eq, Structural)]
pub enum AccountHealth {
    Ready,
    AuthRequired,
    Degraded,
}

impl Default for AccountHealth {
    fn default() -> (r: Self)
        ensures
            r == AccountHealth::Ready,
    {
        AccountHealth::Ready
    }
}

/// A slot of an account that is held until it expires, is committed or released.
#[derive(Debug)]
pub struct AccountReservation {
    pub reservation_id: String,
    pub scope_id: Option<String>,
    pub created_ms: u64,
    pub expires_ms: u64,
}

/// The mathematical value of an [`AccountReservation`].
pub struct ReservationModel {
    pub reservation_id: Seq<char>,
    pub scope_id: Option<Seq<char>>,
    pub created_ms: u64,
    pub expires_ms: u64,
}

impl View for AccountReservation {
    type V = ReservationModel;

    open spec fn view(&self) -> ReservationModel {
        ReservationModel {
            reservation_id: self.reservation_id@,
            scope_id: opt_text(self.scope_id),
            created_ms: self.created_ms,
            expires_ms: self.expires_ms,
        }
    }
}

impl Clone for AccountReservation {
    fn clone(&self) -> (r: Self)
        ensures
            r == *self,
    {
        AccountReservation {
            reservation_id: self.reservation_id.clone(),
            scope_id: copy_opt(&self.scope_id),
            created_ms: self.created_ms,
            expires_ms: self.expires_ms,
        }
    }
}

/// The runtime state of one account.
#[derive(Debug)]
pub struct AccountRuntimeState {
    pub version: u32,
    pub account_id: String,
    pub dispatches_ms: Vec<u64>,
    pub reservations: Vec<AccountReservation>,
    pub cooldown_until_ms: Option<u64>,
    pub cooldown_reason: Option<String>,
    pub health: AccountHealth,
    pub last_selected_ms: Option<u64>,
    pub last_success_ms: Option<u64>,
    pub consecutive_browser_failures: u32,
}

/// The mathematical value of an [`AccountRuntimeState`].
#[verifier::ext_equal]
pub struct StateModel {
    pub version: u32,
    pub account_id: Seq<char>,
    pub dispatches_ms: Seq<u64>,
    pub reservations: Seq<ReservationModel>,
    pub cooldown_until_ms: Option<u64>,
    pub cooldown_reason: Option<Seq<char>>,
    pub health: AccountHealth,
    pub last_selected_ms: Option<u64>,
    pub last_success_ms: Option<u64>,
    pub consecutive_browser_failures: u32,
}

/// The values of a list of reservations.
pub open spec fn reservation_models(v: Seq<AccountReservation>) -> Seq<ReservationModel> {
    v.map_values(|r: AccountReservation| r@)
}

impl View for AccountRuntimeState {
    type V = StateModel;

    open spec fn view(&self) -> StateModel {
        StateModel {
            version: self.version,
            account_id: self.account_id@,
            dispatches_ms: self.dispatches_ms@,
            reservations: reservation_models(self.reservations@),
            cooldown_until_ms: self.cooldown_until_ms,
            cooldown_reason: opt_text(self.cooldown_reason),
            health: self.health,
            last_selected_ms: self.last_selected_ms,
            last_success_ms: self.last_success_ms,
            consecutive_browser_failures: self.consecutive_browser_failures,
        }
    }
}

/// A dispatch counts while it is younger than the window, or lies in the future.
pub open spec fn dispatch_counts(timestamp: u64, now_ms: u64, window_ms: u64) -> bool {
    sat_sub(now_ms, timestamp) < window_ms || timestamp > now_ms
}

/// The position of the first reservation with this id, or the length.
pub open spec fn reservation_position(rs: Seq<ReservationModel>, id: Seq<char>) -> int
    decreases rs.len(),
{
    if rs.len() == 0 || rs[0].reservation_id == id {
        0
    } else {
        1 + reservation_position(rs.drop_first(), id)
    }
}

/// The times at which reservations expire.
pub open spec fn expiries(rs: Seq<ReservationModel>) -> Seq<u64> {
    rs.map_values(|r: ReservationModel| r.expires_ms)
}

impl StateModel {
    /// The state of an account that was never used.
    pub open spec fn fresh(account_id: Seq<char>) -> StateModel {
        StateModel {
            version: ACCOUNT_STATE_VERSION,
            account_id,
            dispatches_ms: Seq::empty(),
            reservations: Seq::empty(),
            cooldown_until_ms: None,
            cooldown_reason: None,
            health: AccountHealth::Ready,
            last_selected_ms: None,
            last_success_ms: None,
            consecutive_browser_failures: 0,
        }
    }

    /// What is left of a state at a time: dispatches that still count, reservations
    /// that have not expired, and a cooldown that is not over.
    pub open spec fn reconciled(self, now_ms: u64, window_ms: u64) -> StateModel {
        let over = self.cooldown_until_ms is Some && self.cooldown_until_ms->0 <= now_ms;
        StateModel {
            dispatches_ms: self.dispatches_ms.filter(
                |t: u64| dispatch_counts(t, now_ms, window_ms),
            ),
            reservations: self.reservations.filter(|r: ReservationModel| r.expires_ms > now_ms),
            cooldown_until_ms: if over {
                None
            } else {
                self.cooldown_until_ms
            },
            cooldown_reason: if over {
                None
            } else {
                self.cooldown_reason
            },
            ..self
        }
    }

    /// The state without the first reservation that has this id.
    pub open spec fn without_reservation(self, id: Seq<char>) -> StateModel {
        let i = reservation_position(self.reservations, id);
        if i < self.reservations.len() {
            StateModel { reservations: self.reservations.remove(i), ..self }
        } else {
            self
        }
    }

    pub open spec fn has_reservation(self, id: Seq<char>) -> bool {
        reservation_position(self.reservations, id) < self.reservations.len()
    }
}

impl AccountRuntimeState {
    /// The state of an account that was never used.
    pub fn new(account_id: &str) -> (r: Self)
        ensures
            r@ == StateModel::fresh(account_id@),
    {
        let r = AccountRuntimeState {
            version: ACCOUNT_STATE_VERSION,
            account_id: account_id.to_owned(),
            dispatches_ms: Vec::new(),
            reservations: Vec::new(),
            cooldown_until_ms: None,
            cooldown_reason: None,
            health: AccountHealth::Ready,
            last_selected_ms: None,
            last_success_ms: None,
            consecutive_browser_failures: 0,
        };
        assert(r@ =~= StateModel::fresh(account_id@));
        r
    }

    /// Drops what no longer counts at a time.
    pub fn reconcile(&mut self, now_ms: u64, window_ms: u64)
        ensures
            final(self)@ == old(self)@.reconciled(now_ms, window_ms),
    {
        let dispatches = counting_dispatches(&self.dispatches_ms, now_ms, window_ms);
        self.dispatches_ms = dispatches;
        let reservations = live_reservations(&self.reservations, now_ms);
        self.reservations = reservations;
        let over = match self.cooldown_until_ms {
            Some(until) => until <= now_ms,
            None => false,
        };
        if over {
            self.cooldown_until_ms = None;
            self.cooldown_reason = None;
        }
        assert(self@ =~= old(self)@.reconciled(now_ms, window_ms));
    }

    /// How many dispatches the state counts.
    pub fn window_used(&self) -> (r: usize)
        ensures
            r == self@.dispatches_ms.len(),
    {
        self.dispatches_ms.len()
    }

    /// How many reservations the state holds.
    pub fn reserved(&self) -> (r: usize)
        ensures
            r == self@.reservations.len(),
    {
        self.reservations.len()
    }

    /// When the oldest dispatch leaves the window.
    pub fn retry_after_window_ms(&self, window_ms: u64) -> (r: Option<u64>)
        ensures
            r == match least(self@.dispatches_ms) {
                Some(oldest) => Some(sat_add(oldest, window_ms)),
                None => None,
            },
    {
        match least_of(&self.dispatches_ms) {
            Some(oldest) => Some(oldest.saturating_add(window_ms)),
            None => None,
        }
    }

    /// Takes out the first reservation with this id and returns it.
    pub fn remove_reservation(&mut self, reservation_id: &str) -> (r: Option<AccountReservation>)
        ensures
            final(self)@ == old(self)@.without_reservation(reservation_id@),
            r is Some <==> old(self)@.has_reservation(reservation_id@),
            r is Some ==> r->0@ == old(self)@.reservations[reservation_position(
                old(self)@.reservations,
                reservation_id@,
            )],
    {
        let i = find_reservation(&self.reservations, reservation_id);
        if i < self.reservations.len() {
            let removed = self.reservations.remove(i);
            assert(self@ =~= old(self)@.without_reservation(reservation_id@));
            Some(removed)
        } else {
            None
        }
    }

    /// A state with the same value.
    pub fn copy(&self) -> (r: Self)
        ensures
            r@ == self@,
    {
        let r = AccountRuntimeState {
            version: self.version,
            account_id: self.account_id.clone(),
            dispatches_ms: copy_numbers(&self.dispatches_ms),
            reservations: copy_reservations(&self.reservations),
            cooldown_until_ms: self.cooldown_until_ms,
            cooldown_reason: copy_opt(&self.cooldown_reason),
            health: self.health,
            last_selected_ms: self.last_selected_ms,
            last_success_ms: self.last_success_ms,
            consecutive_browser_failures: self.consecutive_browser_failures,
        };
        assert(r@ =~= self@);
        r
    }
}

fn copy_numbers(v: &Vec<u64>) -> (r: Vec<u64>)
    ensures
        r@ =~= v@,
{
    let mut out: Vec<u64> = Vec::new();
    let mut i: usize = 0;
    while i < v.len()
        invariant
            i <= v@.len(),
            out@ =~= v@.subrange(0, i as int),
        decreases v@.len() - i,
    {
        out.push(v[i]);
        i += 1;
    }
    out
}

fn copy_reservations(v: &Vec<AccountReservation>) -> (r: Vec<AccountReservation>)
    ensures
        r@ =~= v@,
{
    let mut out: Vec<AccountReservation> = Vec::new();
    let mut i: usize = 0;
    while i < v.len()
        invariant
            i <= v@.len(),
            out@ =~= v@.subrange(0, i as int),
        decreases v@.len() - i,
    {
        out.push(v[i].clone());
        i += 1;
    }
    out
}

fn counting_dispatches(v: &Vec<u64>, now_ms: u64, window_ms: u64) -> (r: Vec<u64>)
    ensures
        r@ == v@.filter(|t: u64| dispatch_counts(t, now_ms, window_ms)),
{
    let ghost keep = |t: u64| dispatch_counts(t, now_ms, window_ms);
    let mut out: Vec<u64> = Vec::new();
    let mut i: usize = 0;
    proof {
        reveal(Seq::filter);
        assert(v@.subrange(0, 0) =~= Seq::<u64>::empty());
    }
    while i < v.len()
        invariant
            i <= v@.len(),
            keep == (|t: u64| dispatch_counts(t, now_ms, window_ms)),
            out@ == v@.subrange(0, i as int).filter(keep),
        decreases v@.len() - i,
    {
        let t: u64 = v[i];
        proof {
            reveal(Seq::filter);
            assert(v@.subrange(0, i + 1).drop_last() =~= v@.subrange(0, i as int));
        }
        if now_ms.saturating_sub(t) < window_ms || t > now_ms {
            out.push(t);
        }
        i += 1;
    }
    assert(v@.subrange(0, v@.len() as int) =~= v@);
    out
}

fn live_reservations(v: &Vec<AccountReservation>, now_ms: u64) -> (r: Vec<AccountReservation>)
    ensures
        reservation_models(r@) == reservation_models(v@).filter(
            |r: ReservationModel| r.expires_ms > now_ms,
        ),
{
    let ghost keep = |r: ReservationModel| r.expires_ms > now_ms;
    let mut out: Vec<AccountReservation> = Vec::new();
    let mut i: usize = 0;
    proof {
        reveal(Seq::filter);
        assert(reservation_models(v@).subrange(0, 0) =~= Seq::<ReservationModel>::empty());
        assert(reservation_models(out@) =~= Seq::<ReservationModel>::empty());
    }
    while i < v.len()
        invariant
            i <= v@.len(),
            keep == (|r: ReservationModel| r.expires_ms > now_ms),
            reservation_models(out@) == reservation_models(v@).subrange(0, i as int).filter(keep),
        decreases v@.len() - i,
    {
        let ghost before = out@;
        proof {
            reveal(Seq::filter);
            assert(reservation_models(v@).subrange(0, i + 1).drop_last() =~= reservation_models(
                v@,
            ).subrange(0, i as int));
        }
        if v[i].expires_ms > now_ms {
            out.push(v[i].clone());
            assert(reservation_models(out@) =~= reservation_models(before).push(v@[i as int]@));
        }
        i += 1;
    }
    assert(reservation_models(v@).subrange(0, v@.len() as int) =~= reservation_models(v@));
    out
}

/// The position of the first reservation with this id, or the length.
pub(crate) fn find_reservation(v: &Vec<AccountReservation>, id: &str) -> (r: usize)
    ensures
        r == reservation_position(reservation_models(v@), id@),
        r <= v@.len(),
        r < v@.len() ==> v@[r as int].reservation_id@ == id@,
{
    let ghost m = reservation_models(v@);
    let mut i: usize = 0;
    assert(m.subrange(0, m.len() as int) =~= m);
    while i < v.len()
        invariant
            i <= v@.len(),
            m == reservation_models(v@),
            reservation_position(m, id@) == i + reservation_position(
                m.subrange(i as int, m.len() as int),
                id@,
            ),
        decreases v@.len() - i,
    {
        if same_text(v[i].reservation_id.as_str(), id) {
            return i;
        }
        assert(m.subrange(i as int, m.len() as int).drop_first() =~= m.subrange(
            i + 1,
            m.len() as int,
        ));
        i += 1;
    }
    i
}

/// What the router remembers between runs.
#[derive(Clone, Copy, Debug, PartialEq, Eq, Structural)]
pub struct RouterRuntimeState {
    pub version: u32,
    pub round_robin_cursor: u64,
    pub updated_ms: u64,
}

impl Default for RouterRuntimeState {
    fn default() -> (r: Self)
        ensures
            r == (RouterRuntimeState {
                version: ROUTER_STATE_VERSION,
                round_robin_cursor: 0,
                updated_ms: 0,
            }),
    {
        RouterRuntimeState { version: ROUTER_STATE_VERSION, round_robin_cursor: 0, updated_ms: 0 }
    }
}

/// The characters of which account ids consist.
pub open spec fn is_id_char(c: char) -> bool {
    is_alnum(c) || c == '-' || c == '_' || c == '.'
}

/// One to 128 ASCII letters, digits, hyphens, underscores and full stops.
pub open spec fn is_account_id(s: Seq<char>) -> bool {
    &&& 1 <= s.len() <= 128
    &&& forall|i: int| 0 <= i < s.len() ==> is_id_char(#[trigger] s[i])
}

/// Whether a text is an account id.
pub fn account_id_ok(s: &str) -> (r: bool)
    ensures
        r == is_account_id(s@),
{
    let v = crate::text::chars_of(s);
    if v.len() == 0 || v.len() > 128 {
        return false;
    }
    let mut i: usize = 0;
    while i < v.len()
        invariant
            i <= v@.len(),
            v@ == s@,
            forall|j: int| 0 <= j < i ==> is_id_char(#[trigger] v@[j]),
        decreases v@.len() - i,
    {
        let c: char = v[i];
        if !(is_alnum_char(c) || c == '-' || c == '_' || c == '.') {
            assert(!is_id_char(s@[i as int]));
            return false;
        }
        i += 1;
    }
    true
}

/// The state file of one account.
#[derive(Debug)]
pub struct StoredAccount {
    /// The account id in the file's name.
    pub file_id: String,
    pub state: AccountRuntimeState,
}

/// What a bridge directory holds of its accounts and its router.
#[derive(Debug)]
pub struct AccountStateStore {
    pub bridge_dir: String,
    pub accounts: Vec<StoredAccount>,
    pub router: Option<RouterRuntimeState>,
}

/// The state in the file of an account, if there is one.
pub open spec fn stored(entries: Seq<StoredAccount>, id: Seq<char>) -> Option<StateModel>
    decreases entries.len(),
{
    if entries.len() == 0 {
        None
    } else if entries[0].file_id@ == id {
        Some(entries[0].state@)
    } else {
        stored(entries.drop_first(), id)
    }
}

/// The place of the first file of an account, or the number of files.
pub open spec fn file_at(entries: Seq<StoredAccount>, id: Seq<char>) -> int
    decreases entries.len(),
{
    if entries.len() == 0 || entries[0].file_id@ == id {
        0
    } else {
        1 + file_at(entries.drop_first(), id)
    }
}

/// No account has two files.
pub open spec fn one_file_each(entries: Seq<StoredAccount>) -> bool {
    forall|i: int, j: int|
        0 <= i < j < entries.len() ==> (#[trigger] entries[i]).file_id@ != (
        #[trigger] entries[j]).file_id@
}

/// A stored state that belongs to its file.
pub open spec fn is_sound_state(state: StateModel, id: Seq<char>) -> bool {
    state.version == ACCOUNT_STATE_VERSION && state.account_id == id
}

impl AccountStateStore {
    /// The state that loading an account gives: that of its file, which must belong to
    /// it, or a fresh one where there is no file.
    pub open spec fn loaded(self, id: Seq<char>) -> Option<StateModel> {
        if !is_account_id(id) {
            None
        } else {
            match stored(self.accounts@, id) {
                None => Some(StateModel::fresh(id)),
                Some(s) => if is_sound_state(s, id) {
                    Some(s)
                } else {
                    None
                },
            }
        }
    }

    /// The failure that loading an account gives.
    pub open spec fn is_load_error(self, id: Seq<char>, e: BridgeError) -> bool {
        if !is_account_id(id) {
            e is Security && e.detail() == "invalid account id for runtime state: '"@ + id + "'"@
        } else {
            &&& self.loaded(id) is None
            &&& e is Precondition
            &&& e.detail() == "invalid account runtime state for '"@ + id + "'"@
        }
    }

    /// The router state that loading gives: the stored one, or that of a new router.
    pub open spec fn loaded_router(self) -> RouterRuntimeState {
        match self.router {
            Some(s) => s,
            None => RouterRuntimeState {
                version: ROUTER_STATE_VERSION,
                round_robin_cursor: 0,
                updated_ms: 0,
            },
        }
    }

    /// `self` is `before` with the file of one account written, in place of the one that was
    /// there or behind the others; no other file changes.
    pub open spec fn wrote(self, before: AccountStateStore, state: StateModel) -> bool {
        let i = file_at(before.accounts@, state.account_id);
        let file = self.accounts@[i];
        &&& self.bridge_dir == before.bridge_dir
        &&& self.router == before.router
        &&& file.file_id@ == state.account_id
        &&& file.state@ == state
        &&& self.accounts@ == (if i < before.accounts@.len() {
            before.accounts@.update(i, file)
        } else {
            before.accounts@.push(file)
        })
        &&& one_file_each(before.accounts@) ==> one_file_each(self.accounts@)
        &&& forall|id: Seq<char>| #[trigger]
            stored(self.accounts@, id) == (if id == state.account_id {
                Some(state)
            } else {
                stored(before.accounts@, id)
            })
    }

    /// A bridge directory that holds nothing yet.
    pub fn new(bridge_dir: &str) -> (r: Self)
        ensures
            r.bridge_dir@ == bridge_dir@,
            r.router is None,
            forall|id: Seq<char>| #[trigger] stored(r.accounts@, id) is None,
    {
        AccountStateStore { bridge_dir: bridge_dir.to_owned(), accounts: Vec::new(), router: None }
    }

    pub fn bridge_dir(&self) -> (r: &str)
        ensures
            r@ == self.bridge_dir@,
    {
        self.bridge_dir.as_str()
    }

    /// Where the state of an account is kept.
    pub fn account_state_path(&self, account_id: &str) -> (r: String)
        ensures
            r@ == crate::paths::joined_path(
                crate::paths::joined_path(self.bridge_dir@, "account-state"@),
                account_id@ + ".json"@,
            ),
    {
        let dir = crate::paths::join_path(self.bridge_dir.as_str(), "account-state");
        let name = account_id.to_owned().concat(".json");
        crate::paths::join_path(dir.as_str(), name.as_str())
    }

    /// Where the state of the router is kept.
    pub fn router_state_path(&self) -> (r: String)
        ensures
            r@ == crate::paths::joined_path(self.bridge_dir@, "router-state.json"@),
    {
        crate::paths::join_path(self.bridge_dir.as_str(), "router-state.json")
    }

    /// The lock that serializes routing decisions.
    pub fn router_lock_path(&self) -> (r: String)
        ensures
            r@ == crate::paths::joined_path(
                crate::paths::joined_path(self.bridge_dir@, "locks"@),
                "router.lock"@,
            ),
    {
        let dir = crate::paths::join_path(self.bridge_dir.as_str(), "locks");
        crate::paths::join_path(dir.as_str(), "router.lock")
    }

    /// The place of the file of an account, or the number of files.
    fn find(&self, id: &str) -> (r: usize)
        ensures
            r <= self.accounts@.len(),
            r == file_at(self.accounts@, id@),
            stored(self.accounts@, id@) == (if r < self.accounts@.len() {
                Some(self.accounts@[r as int].state@)
            } else {
                None
            }),
            r < self.accounts@.len() ==> self.accounts@[r as int].file_id@ == id@,
            forall|j: int| 0 <= j < r ==> (#[trigger] self.accounts@[j]).file_id@ != id@,
    {
        let ghost all = self.accounts@;
        let mut i: usize = 0;
        assert(all.subrange(0, all.len() as int) =~= all);
        while i < self.accounts.len()
            invariant
                i <= self.accounts@.len(),
                all == self.accounts@,
                stored(all, id@) == stored(all.subrange(i as int, all.len() as int), id@),
                file_at(all, id@) == i + file_at(all.subrange(i as int, all.len() as int), id@),
                forall|j: int| 0 <= j < i ==> (#[trigger] all[j]).file_id@ != id@,
            decreases self.accounts@.len() - i,
        {
            if same_text(self.accounts[i].file_id.as_str(), id) {
                return i;
            }
            assert(all.subrange(i as int, all.len() as int).drop_first() =~= all.subrange(
                i + 1,
                all.len() as int,
            ));
            i += 1;
        }
        i
    }

    /// Loads the state of an account.
    pub fn load_account(&self, account_id: &str) -> (r: Result<AccountRuntimeState, BridgeError>)
        ensures
            match r {
                Ok(s) => self.loaded(account_id@) == Some(s@),
                Err(e) => self.is_load_error(account_id@, e),
            },
    {
        if let Err(e) = validate_state_account_id(account_id) {
            return Err(e);
        }
        let i = self.find(account_id);
        if i == self.accounts.len() {
            return Ok(AccountRuntimeState::new(account_id));
        }
        let state = &self.accounts[i].state;
        if state.version != ACCOUNT_STATE_VERSION || !same_text(
            state.account_id.as_str(),
            account_id,
        ) {
            return Err(
                BridgeError::Precondition(
                    "invalid account runtime state for '".to_owned().concat(account_id).concat("'"),
                ),
            );
        }
        Ok(state.copy())
    }

    /// Writes the state of an account.
    pub fn save_account(&mut self, state: &AccountRuntimeState) -> (r: Result<(), BridgeError>)
        ensures
            match r {
                Ok(_) => {
                    &&& is_account_id(state@.account_id)
                    &&& state.version == ACCOUNT_STATE_VERSION
                    &&& final(self).wrote(*old(self), state@)
                    &&& final(self).loaded(state@.account_id) == Some(state@)
                },
                Err(e) => {
                    &&& *final(self) == *old(self)
                    &&& if !is_account_id(state@.account_id) {
                        e is Security && e.detail() == "invalid account id for runtime state: '"@
                            + state@.account_id + "'"@
                    } else {
                        &&& state.version != ACCOUNT_STATE_VERSION
                        &&& e is Precondition
                        &&& e.detail() == "unsupported account runtime state version "@ + decimal(
                            state.version as nat,
                        )
                    }
                },
            },
    {
        if let Err(e) = validate_state_account_id(state.account_id.as_str()) {
            return Err(e);
        }
        if state.version != ACCOUNT_STATE_VERSION {
            return Err(
                BridgeError::Precondition(
                    "unsupported account runtime state version ".to_owned().concat(
                        decimal_of(state.version as u64).as_str(),
                    ),
                ),
            );
        }
        let i = self.find(state.account_id.as_str());
        let entry = StoredAccount { file_id: state.account_id.clone(), state: state.copy() };
        let ghost before = self.accounts@;
        let ghost new = entry;
        if i < self.accounts.len() {
            self.accounts.set(i, entry);
            proof {
                assert forall|id: Seq<char>| #[trigger]
                    stored(self.accounts@, id) == (if id == state@.account_id {
                        Some(state@)
                    } else {
                        stored(before, id)
                    }) by {
                    lemma_stored_update(before, i as int, new, id);
                }
            }
        } else {
            self.accounts.push(entry);
            proof {
                assert forall|id: Seq<char>| #[trigger]
                    stored(self.accounts@, id) == (if id == state@.account_id {
                        Some(state@)
                    } else {
                        stored(before, id)
                    }) by {
                    lemma_stored_push(before, new, id);
                }
            }
        }
        Ok(())
    }

    /// Loads the state of the router.
    pub fn load_router(&self) -> (r: Result<RouterRuntimeState, BridgeError>)
        ensures
            match r {
                Ok(s) => s == self.loaded_router() && s.version == ROUTER_STATE_VERSION,
                Err(e) => {
                    &&& self.loaded_router().version != ROUTER_STATE_VERSION
                    &&& e is Precondition
                    &&& e.detail() == "unsupported router runtime state version "@ + decimal(
                        self.loaded_router().version as nat,
                    )
                },
            },
    {
        let state = match self.router {
            Some(s) => s,
            None => RouterRuntimeState::default(),
        };
        if state.version != ROUTER_STATE_VERSION {
            return Err(
                BridgeError::Precondition(
                    "unsupported router runtime state version ".to_owned().concat(
                        decimal_of(state.version as u64).as_str(),
                    ),
                ),
            );
        }
        Ok(state)
    }

    /// Writes the state of the router.
    pub fn save_router(&mut self, state: &RouterRuntimeState) -> (r: Result<(), BridgeError>)
        ensures
            match r {
                Ok(_) => {
                    &&& state.version == ROUTER_STATE_VERSION
                    &&& final(self).bridge_dir == old(self).bridge_dir
                    &&& final(self).accounts == old(self).accounts
                    &&& final(self).router == Some(*state)
                },
                Err(e) => {
                    &&& *final(self) == *old(self)
                    &&& state.version != ROUTER_STATE_VERSION
                    &&& e is Precondition
                    &&& e.detail() == "unsupported router runtime state version "@ + decimal(
                        state.version as nat,
                    )
                },
            },
    {
        if state.version != ROUTER_STATE_VERSION {
            return Err(
                BridgeError::Precondition(
                    "unsupported router runtime state version ".to_owned().concat(
                        decimal_of(state.version as u64).as_str(),
                    ),
                ),
            );
        }
        self.router = Some(*state);
        Ok(())
    }
}

proof fn lemma_stored_update(entries: Seq<StoredAccount>, i: int, new: StoredAccount, id: Seq<char>)
    requires
        0 <= i < entries.len(),
        entries[i].file_id@ == new.file_id@,
        forall|j: int| 0 <= j < i ==> (#[trigger] entries[j]).file_id@ != new.file_id@,
    ensures
        stored(entries.update(i, new), id) == (if id == new.file_id@ {
            Some(new.state@)
        } else {
            stored(entries, id)
        }),
    decreases entries.len(),
{
    let u = entries.update(i, new);
    if i > 0 {
        assert(u.drop_first() =~= entries.drop_first().update(i - 1, new));
        assert(entries.drop_first()[i - 1] == entries[i]);
        assert forall|j: int| 0 <= j < i - 1 implies (
        #[trigger] entries.drop_first()[j]).file_id@ != new.file_id@ by {
            assert(entries.drop_first()[j] == entries[j + 1]);
        }
        lemma_stored_update(entries.drop_first(), i - 1, new, id);
        assert(entries[0].file_id@ != new.file_id@);
    } else {
        assert(u.drop_first() =~= entries.drop_first());
    }
}

proof fn lemma_stored_push(entries: Seq<StoredAccount>, new: StoredAccount, id: Seq<char>)
    requires
        forall|j: int| 0 <= j < entries.len() ==> (#[trigger] entries[j]).file_id@ != new.file_id@,
    ensures
        stored(entries.push(new), id) == (if id == new.file_id@ {
            Some(new.state@)
        } else {
            stored(entries, id)
        }),
    decreases entries.len(),
{
    let u = entries.push(new);
    if entries.len() > 0 {
        assert(u.drop_first() =~= entries.drop_first().push(new));
        assert forall|j: int| 0 <= j < entries.drop_first().len() implies (
        #[trigger] entries.drop_first()[j]).file_id@ != new.file_id@ by {
            assert(entries.drop_first()[j] == entries[j + 1]);
        }
        lemma_stored_push(entries.drop_first(), new, id);
        assert(entries[0].file_id@ != new.file_id@);
    } else {
        assert(u.drop_first() =~= entries);
        assert(stored(u, id) == (if id == new.file_id@ {
            Some(new.state@)
        } else {
            None::<StateModel>
        })) by {
            reveal_with_fuel(stored, 2);
        }
    }
}

/// Whether a text can name an account in its state file.
pub fn validate_state_account_id(account_id: &str) -> (r: Result<(), BridgeError>)
    ensures
        match r {
            Ok(_) => is_account_id(account_id@),
            Err(e) => {
                &&& !is_account_id(account_id@)
                &&& e is Security
                &&& e.detail() == "invalid account id for runtime state: '"@ + account_id@ + "'"@
            },
        },
{
    if account_id_ok(account_id) {
        Ok(())
    } else {
        Err(
            BridgeError::Security(
                "invalid account id for runtime state: '".to_owned().concat(account_id).concat("'"),
            ),
        )
    }
}

proof fn lemma_filter_keeps<A>(s: Seq<A>, keep: spec_fn(A) -> bool)
    requires
        forall|i: int| 0 <= i < s.len() ==> keep(#[trigger] s[i]),
    ensures
        s.filter(keep) == s,
    decreases s.len(),
{
    reveal(Seq::filter);
    if s.len() > 0 {
        let t = s.drop_last();
        assert forall|i: int| 0 <= i < t.len() implies keep(#[trigger] t[i]) by {
            assert(t[i] == s[i]);
        }
        lemma_filter_keeps(t, keep);
        assert(t.push(s.last()) =~= s);
    } else {
        assert(s.filter(keep) =~= s);
    }
}

/// Reconciling a state a second time at the same time changes nothing.
pub proof fn lemma_reconcile_idempotent(state: StateModel, now_ms: u64, window_ms: u64)
    ensures
        state.reconciled(now_ms, window_ms).reconciled(now_ms, window_ms) == state.reconciled(
            now_ms,
            window_ms,
        ),
{
    let once = state.reconciled(now_ms, window_ms);
    let counts = |t: u64| dispatch_counts(t, now_ms, window_ms);
    let live = |r: ReservationModel| r.expires_ms > now_ms;
    assert forall|i: int| 0 <= i < once.dispatches_ms.len() implies counts(
        #[trigger] once.dispatches_ms[i],
    ) by {
        state.dispatches_ms.lemma_filter_pred(counts, i);
    }
    assert forall|i: int| 0 <= i < once.reservations.len() implies live(
        #[trigger] once.reservations[i],
    ) by {
        state.reservations.lemma_filter_pred(live, i);
    }
    lemma_filter_keeps(once.dispatches_ms, counts);
    lemma_filter_keeps(once.reservations, live);
}

pub(crate) proof fn lemma_position_of_push(
    rs: Seq<ReservationModel>,
    new: ReservationModel,
    id: Seq<char>,
)
    ensures
        0 <= reservation_position(rs, id) <= rs.len(),
        reservation_position(rs.push(new), id) == (if reservation_position(rs, id) < rs.len() {
            reservation_position(rs, id)
        } else if new.reservation_id == id {
            rs.len() as int
        } else {
            rs.len() as int + 1
        }),
    decreases rs.len(),
{
    let u = rs.push(new);
    if rs.len() > 0 {
        assert(u.drop_first() =~= rs.drop_first().push(new));
        lemma_position_of_push(rs.drop_first(), new, id);
    } else {
        assert(u.drop_first() =~= rs);
        reveal_with_fuel(reservation_position, 2);
    }
}

pub(crate) proof fn lemma_filter_push<A>(s: Seq<A>, x: A, keep: spec_fn(A) -> bool)
    ensures
        s.push(x).filter(keep) == (if keep(x) {
            s.filter(keep).push(x)
        } else {
            s.filter(keep)
        }),
{
    reveal(Seq::filter);
    assert(s.push(x).drop_last() =~= s);
}

/// The state of an account that was saved is what loading that account gives, and
/// loading any other account gives what it gave before.
pub proof fn lemma_saved_state_is_loaded(
    before: AccountStateStore,
    after: AccountStateStore,
    state: StateModel,
)
    requires
        after.wrote(before, state),
        is_account_id(state.account_id),
        state.version == ACCOUNT_STATE_VERSION,
    ensures
        after.loaded(state.account_id) == Some(state),
        forall|id: Seq<char>|
            id != state.account_id ==> #[trigger] after.loaded(id) == before.loaded(id),
{
    assert forall|id: Seq<char>| id != state.account_id implies #[trigger] after.loaded(id)
        == before.loaded(id) by {
        assert(stored(after.accounts@, id) == stored(before.accounts@, id));
    }
    assert(stored(after.accounts@, state.account_id) == Some(state));
}

/// A reservation holds its slot up to the moment at which it expires, and no longer.
pub proof fn lemma_reservation_ends_at_expiry(
    state: StateModel,
    i: int,
    now_ms: u64,
    window_ms: u64,
)
    requires
        0 <= i < state.reservations.len(),
    ensures
        now_ms < state.reservations[i].expires_ms ==> state.reconciled(
            now_ms,
            window_ms,
        ).reservations.contains(state.reservations[i]),
        now_ms >= state.reservations[i].expires_ms ==> !state.reconciled(
            now_ms,
            window_ms,
        ).reservations.contains(state.reservations[i]),
{
    let keep = |r: ReservationModel| r.expires_ms > now_ms;
    let kept = state.reservations.filter(keep);
    let x = state.reservations[i];
    if keep(x) {
        state.reservations.lemma_filter_contains(keep, i);
    } else if kept.contains(x) {
        let k = choose|k: int| 0 <= k < kept.len() && kept[k] == x;
        state.reservations.lemma_filter_pred(keep, k);
    }
}

} // verus!
