//! How the end of a worker's task is found out: from its record, or from what its page
//! shows.
use crate::accounts::AccountsConfig;
use crate::account_state::{AccountHealth, StateModel};
use crate::arith::{sat_add, seconds_ms};
use crate::delegate::control::UI_PROBE_INTERVAL_MS;
use crate::delegate::report::{copy_json, opt_json, ObservationModel, StagedDelegation, StagedModel,
    TerminalObservation};
use crate::json::{Json, JsonModel};
use crate::orca::{reason_name, BrowserDriverKind, ChatgptRateLimitReason, ChatgptUiCondition};
use crate::router::{account_now, cooldown_seconds, is_account_error, AccountRouter, RouterError};
use crate::task_state::{DelegationLifecycle, DelegationTerminalState, LifecycleSeen};
use crate::telemetry::{event_of, opt_event, TelemetryErrorCode, TelemetryEvent, TelemetryEventInput,
    TelemetryEventType, TelemetryModelHint};
use crate::text::{copy_opt, decimal, decimal_of, opt_text};
use vstd::prelude::*;

verus! {

/// The ends that the delegation command itself puts on record.
#[derive(Clone, Copy, Debug, PartialEq, Eq, Structural)]
pub enum StructuredTerminalCode {
    ReadinessInvalid,
    ActualDispatchFailed,
    AuthenticationRequired,
    DeliveryError,
}

pub open spec fn code_name(code: StructuredTerminalCode) -> Seq<char> {
    match code {
        StructuredTerminalCode::ReadinessInvalid => "READINESS_INVALID"@,
        StructuredTerminalCode::ActualDispatchFailed => "ACTUAL_DISPATCH_FAILED"@,
        StructuredTerminalCode::AuthenticationRequired => "CHATGPT_AUTHENTICATION_REQUIRED"@,
        StructuredTerminalCode::DeliveryError => "CHATGPT_DELIVERY_ERROR"@,
    }
}

impl StructuredTerminalCode {
    pub fn as_str(self) -> (r: &'static str)
        ensures
            r@ == code_name(self),
    {
        match self {
            StructuredTerminalCode::ReadinessInvalid => "READINESS_INVALID",
            StructuredTerminalCode::ActualDispatchFailed => "ACTUAL_DISPATCH_FAILED",
            StructuredTerminalCode::AuthenticationRequired => "CHATGPT_AUTHENTICATION_REQUIRED",
            StructuredTerminalCode::DeliveryError => "CHATGPT_DELIVERY_ERROR",
        }
    }
}

/// The detail on record for an end.
pub open spec fn code_detail(code: StructuredTerminalCode) -> Seq<char> {
    "{\"code\":\""@ + code_name(code) + "\"}"@
}

/// The detail on record for an end, as JSON text.
pub fn structured_terminal_detail(code: StructuredTerminalCode) -> (r: String)
    ensures
        r@ == code_detail(code),
{
    "{\"code\":\"".to_owned().concat(code.as_str()).concat("\"}")
}

/// The detail on record for an end by a rate limit: its reason and its length, and no
/// words of the page.
pub open spec fn limit_detail(reason: ChatgptRateLimitReason, reset: Option<u64>) -> Seq<char> {
    "{\"code\":\"CHATGPT_RATE_LIMIT\",\"reason\":\""@ + reason_name(reason)
        + "\",\"reset_after_seconds\":"@ + (match reset {
        Some(n) => decimal(n as nat),
        None => "null"@,
    }) + "}"@
}

/// The detail on record for an end by a rate limit, as JSON text.
pub fn rate_limit_terminal_detail(reason: ChatgptRateLimitReason, reset_after_seconds: Option<u64>)
    -> (r: String)
    ensures
        r@ == limit_detail(reason, reset_after_seconds),
{
    let seconds = match reset_after_seconds {
        Some(n) => decimal_of(n),
        None => "null".to_owned(),
    };
    "{\"code\":\"CHATGPT_RATE_LIMIT\",\"reason\":\"".to_owned().concat(reason.name()).concat(
        "\",\"reset_after_seconds\":",
    ).concat(seconds.as_str()).concat("}")
}

/// What telemetry is told of a worker.
#[derive(Clone, Copy, Debug, PartialEq, Eq, Structural)]
pub struct TelemetryNote {
    pub event_type: TelemetryEventType,
    pub reset_after_seconds: Option<u64>,
    pub error_code: TelemetryErrorCode,
}

/// The driver of a worker's page.
pub open spec fn item_driver(item: StagedModel) -> BrowserDriverKind {
    match item.browser_binding {
        Some(b) => b.driver,
        None => BrowserDriverKind::Orca,
    }
}

/// The telemetry row for a worker, if it has a sound one.
pub fn item_event(item: &StagedDelegation, note: TelemetryNote, now_ms: u64) -> (r: Option<
    TelemetryEvent,
>)
    ensures
        opt_event(r) == event_of(
            item.scope_id@,
            item.generation,
            Some(item.account_id@),
            item_driver(item@),
            TelemetryModelHint::Unknown,
            note.event_type,
            note.reset_after_seconds,
            note.error_code,
            now_ms,
        ),
{
    let driver = match &item.browser_binding {
        Some(b) => b.driver,
        None => BrowserDriverKind::Orca,
    };
    TelemetryEvent::from_input(
        TelemetryEventInput {
            scope_id: item.scope_id.as_str(),
            generation: item.generation,
            account_id: Some(item.account_id.as_str()),
            driver,
            model_hint: TelemetryModelHint::Unknown,
            event_type: note.event_type,
            reset_after_seconds: note.reset_after_seconds,
            error_code: note.error_code,
        },
        now_ms,
    )
}

/// An end that is about to be put on record for a worker.
#[derive(Debug)]
pub struct TerminalClaim {
    pub state: DelegationTerminalState,
    pub detail: String,
    /// What telemetry is told once the end is on record.
    pub note: TelemetryNote,
    /// Whether telemetry is told, too, if the end cannot be put on record.
    pub note_failure: bool,
}

/// The mathematical value of a [`TerminalClaim`].
pub struct TerminalClaimModel {
    pub state: DelegationTerminalState,
    pub detail: Seq<char>,
    pub note: TelemetryNote,
    pub note_failure: bool,
}

impl View for TerminalClaim {
    type V = TerminalClaimModel;

    open spec fn view(&self) -> TerminalClaimModel {
        TerminalClaimModel {
            state: self.state,
            detail: self.detail@,
            note: self.note,
            note_failure: self.note_failure,
        }
    }
}

pub open spec fn plain_note(event_type: TelemetryEventType, error_code: TelemetryErrorCode) -> TelemetryNote {
    TelemetryNote { event_type, reset_after_seconds: None, error_code }
}

fn note_of(event_type: TelemetryEventType, error_code: TelemetryErrorCode) -> (r: TelemetryNote)
    ensures
        r == plain_note(event_type, error_code),
{
    TelemetryNote { event_type, reset_after_seconds: None, error_code }
}

/// The end of a worker whose readiness was gone when its task was to be sent.
pub fn readiness_invalid_claim() -> (r: TerminalClaim)
    ensures
        r@ == (TerminalClaimModel {
            state: DelegationTerminalState::Failed,
            detail: code_detail(StructuredTerminalCode::ReadinessInvalid),
            note: plain_note(
                TelemetryEventType::ReadinessInvalid,
                TelemetryErrorCode::ReadinessFailed,
            ),
            note_failure: false,
        }),
{
    TerminalClaim {
        state: DelegationTerminalState::Failed,
        detail: structured_terminal_detail(StructuredTerminalCode::ReadinessInvalid),
        note: note_of(TelemetryEventType::ReadinessInvalid, TelemetryErrorCode::ReadinessFailed),
        note_failure: false,
    }
}

/// The end of a worker to which its task could not be sent.
pub fn dispatch_failed_claim() -> (r: TerminalClaim)
    ensures
        r@ == (TerminalClaimModel {
            state: DelegationTerminalState::Failed,
            detail: code_detail(StructuredTerminalCode::ActualDispatchFailed),
            note: plain_note(TelemetryEventType::DispatchFailed, TelemetryErrorCode::DispatchFailed),
            note_failure: false,
        }),
{
    TerminalClaim {
        state: DelegationTerminalState::Failed,
        detail: structured_terminal_detail(StructuredTerminalCode::ActualDispatchFailed),
        note: note_of(TelemetryEventType::DispatchFailed, TelemetryErrorCode::DispatchFailed),
        note_failure: false,
    }
}

/// The end that a page shows, if it shows one.
pub open spec fn condition_claim(condition: ChatgptUiCondition) -> Option<TerminalClaimModel> {
    match condition {
        ChatgptUiCondition::RateLimited { reason, reset_after_seconds } => Some(
            TerminalClaimModel {
                state: DelegationTerminalState::Blocked,
                detail: limit_detail(reason, reset_after_seconds),
                note: TelemetryNote {
                    event_type: TelemetryEventType::RateLimited,
                    reset_after_seconds,
                    error_code: TelemetryErrorCode::RateLimited,
                },
                note_failure: true,
            },
        ),
        ChatgptUiCondition::AuthenticationRequired => Some(
            TerminalClaimModel {
                state: DelegationTerminalState::Failed,
                detail: code_detail(StructuredTerminalCode::AuthenticationRequired),
                note: plain_note(
                    TelemetryEventType::AuthenticationRequired,
                    TelemetryErrorCode::AuthenticationRequired,
                ),
                note_failure: false,
            },
        ),
        ChatgptUiCondition::DeliveryError { recoverable } => if recoverable {
            None
        } else {
            Some(
                TerminalClaimModel {
                    state: DelegationTerminalState::Failed,
                    detail: code_detail(StructuredTerminalCode::DeliveryError),
                    note: plain_note(
                        TelemetryEventType::DeliveryError,
                        TelemetryErrorCode::DeliveryError,
                    ),
                    note_failure: false,
                },
            )
        },
        _ => None,
    }
}

/// The state of an account after its page showed an end.
pub open spec fn state_after(
    config: AccountsConfig,
    condition: ChatgptUiCondition,
    now: StateModel,
    now_ms: u64,
) -> StateModel {
    match condition {
        ChatgptUiCondition::RateLimited { reason, reset_after_seconds } => now.cooling(
            sat_add(
                now_ms,
                seconds_ms(cooldown_seconds(config, reason_name(reason), reset_after_seconds)),
            ),
            reason_name(reason),
        ),
        ChatgptUiCondition::AuthenticationRequired => StateModel {
            health: AccountHealth::AuthRequired,
            ..now
        },
        _ => now.cooling(
            sat_add(now_ms, seconds_ms(config.defaults.cooldown.delivery_failure_seconds)),
            "delivery_failure"@,
        ),
    }
}

/// What follows from what a page shows.
#[derive(Debug)]
pub enum UiVerdict {
    /// The worker goes on.
    Continue,
    /// The page cannot be looked at, and is not looked at again.
    Disable,
    /// The state of the account could not be changed.
    RouterFailed(RouterError),
    /// The worker ended, and its end is to be put on record.
    Claim(TerminalClaim),
}

/// What a page shows decides what follows, and changes the state of the worker's account
/// and of no other.
pub open spec fn verdict_holds(
    item: StagedModel,
    condition: ChatgptUiCondition,
    config: AccountsConfig,
    now_ms: u64,
    before: AccountRouter,
    after: AccountRouter,
    r: UiVerdict,
) -> bool {
    match condition_claim(condition) {
        None => after == before && if condition is Unsupported {
            r is Disable
        } else {
            r is Continue
        },
        Some(claim) => if !item.routed {
            after == before && (r matches UiVerdict::Claim(c) && c@ == claim)
        } else {
            let now = account_now(config, before.store, item.account_id, now_ms);
            &&& after.same_but_store(before)
            &&& if now is Some {
                &&& after.store.wrote(before.store, state_after(config, condition, now->0, now_ms))
                &&& r matches UiVerdict::Claim(c)
                &&& c@ == claim
            } else {
                &&& after.store == before.store
                &&& r matches UiVerdict::RouterFailed(e)
                &&& is_account_error(config, before.store, item.account_id, e)
            }
        },
    }
}

/// Whether what a page shows changes the state of the worker's account.
pub fn account_is_told(item: &StagedDelegation, condition: ChatgptUiCondition) -> (r: bool)
    ensures
        r == (item.routed && condition_claim(condition) is Some),
{
    item.routed && match condition {
        ChatgptUiCondition::RateLimited { .. } => true,
        ChatgptUiCondition::AuthenticationRequired => true,
        ChatgptUiCondition::DeliveryError { recoverable } => !recoverable,
        _ => false,
    }
}

/// What follows for a worker from what its page shows, once its account knows.
pub fn worker_verdict(condition: ChatgptUiCondition) -> (r: UiVerdict)
    ensures
        match condition_claim(condition) {
            None => if condition is Unsupported {
                r is Disable
            } else {
                r is Continue
            },
            Some(claim) => r matches UiVerdict::Claim(c) && c@ == claim,
        },
{
    match condition {
        ChatgptUiCondition::Healthy
        | ChatgptUiCondition::Generating
        | ChatgptUiCondition::Unknown => UiVerdict::Continue,
        ChatgptUiCondition::Unsupported => UiVerdict::Disable,
        ChatgptUiCondition::RateLimited { reason, reset_after_seconds } => UiVerdict::Claim(
            TerminalClaim {
                state: DelegationTerminalState::Blocked,
                detail: rate_limit_terminal_detail(reason, reset_after_seconds),
                note: TelemetryNote {
                    event_type: TelemetryEventType::RateLimited,
                    reset_after_seconds,
                    error_code: TelemetryErrorCode::RateLimited,
                },
                note_failure: true,
            },
        ),
        ChatgptUiCondition::AuthenticationRequired => UiVerdict::Claim(
            TerminalClaim {
                state: DelegationTerminalState::Failed,
                detail: structured_terminal_detail(StructuredTerminalCode::AuthenticationRequired),
                note: note_of(
                    TelemetryEventType::AuthenticationRequired,
                    TelemetryErrorCode::AuthenticationRequired,
                ),
                note_failure: false,
            },
        ),
        ChatgptUiCondition::DeliveryError { recoverable } => {
            if recoverable {
                return UiVerdict::Continue;
            }
            UiVerdict::Claim(
                TerminalClaim {
                    state: DelegationTerminalState::Failed,
                    detail: structured_terminal_detail(StructuredTerminalCode::DeliveryError),
                    note: note_of(
                        TelemetryEventType::DeliveryError,
                        TelemetryErrorCode::DeliveryError,
                    ),
                    note_failure: false,
                },
            )
        },
    }
}

/// Draws the consequences of what a worker's page shows.
pub fn apply_ui_condition(
    router: &mut AccountRouter,
    config: &AccountsConfig,
    item: &StagedDelegation,
    condition: ChatgptUiCondition,
    now_ms: u64,
) -> (r: UiVerdict)
    ensures
        verdict_holds(item@, condition, *config, now_ms, *old(router), *final(router), r),
{
    if account_is_told(item, condition) {
        match condition {
            ChatgptUiCondition::RateLimited { reason, reset_after_seconds } => {
                if let Err(e) = router.apply_rate_limit(
                    config,
                    item.account_id.as_str(),
                    reason.name(),
                    reset_after_seconds,
                    now_ms,
                ) {
                    return UiVerdict::RouterFailed(e);
                }
            },
            ChatgptUiCondition::AuthenticationRequired => {
                if let Err(e) = router.mark_auth_required(
                    config,
                    item.account_id.as_str(),
                    now_ms,
                ) {
                    return UiVerdict::RouterFailed(e);
                }
            },
            _ => {
                if let Err(e) = router.apply_delivery_failure(
                    config,
                    item.account_id.as_str(),
                    now_ms,
                ) {
                    return UiVerdict::RouterFailed(e);
                }
            },
        }
    }
    worker_verdict(condition)
}

/// The end that a record speaks of.
pub open spec fn recorded_end(l: DelegationLifecycle, task_result: Option<JsonModel>) -> ObservationModel {
    ObservationModel {
        state: match l.terminal_state {
            Some(s) => s,
            None => DelegationTerminalState::Lost,
        },
        detail: opt_text(l.terminal_detail),
        terminal_ms: l.terminal_ms,
        task_result,
    }
}

/// The end that a record speaks of. `task_result` is what the worker handed in, as far
/// as it can be read.
pub fn observation_from_lifecycle(l: &DelegationLifecycle, task_result: &Option<Json>) -> (r:
    TerminalObservation)
    ensures
        r@ == recorded_end(*l, opt_json(*task_result)),
{
    TerminalObservation {
        state: match l.terminal_state {
            Some(s) => s,
            None => DelegationTerminalState::Lost,
        },
        detail: copy_opt(&l.terminal_detail),
        terminal_ms: l.terminal_ms,
        task_result: copy_json(task_result),
    }
}

/// What follows from a look at a worker's page.
#[derive(Debug)]
pub enum UiProbeAction {
    Continue,
    Disable,
    Terminal(TerminalObservation),
}

/// What follows once the end of a worker was, or was not, put on record: the end that is
/// now on record, or the failure, and what telemetry is told.
pub fn settle_claim(
    claim: &TerminalClaim,
    record: &Result<DelegationLifecycle, String>,
    task_result: &Option<Json>,
) -> (r: (Result<UiProbeAction, String>, Option<TelemetryNote>))
    ensures
        match *record {
            Ok(l) => {
                &&& r.0 matches Ok(UiProbeAction::Terminal(o))
                &&& o@ == recorded_end(l, opt_json(*task_result))
                &&& r.1 == Some(claim.note)
            },
            Err(m) => {
                &&& r.0 is Err
                &&& r.0->Err_0@ == m@
                &&& r.1 == (if claim.note_failure {
                    Some(
                        TelemetryNote {
                            event_type: TelemetryEventType::TerminalClaimFailed,
                            reset_after_seconds: claim.note.reset_after_seconds,
                            error_code: TelemetryErrorCode::TerminalClaimFailed,
                        },
                    )
                } else {
                    None
                })
            },
        },
{
    match record {
        Ok(l) => (
            Ok(UiProbeAction::Terminal(observation_from_lifecycle(l, task_result))),
            Some(claim.note),
        ),
        Err(m) => {
            let note = if claim.note_failure {
                Some(
                    TelemetryNote {
                        event_type: TelemetryEventType::TerminalClaimFailed,
                        reset_after_seconds: claim.note.reset_after_seconds,
                        error_code: TelemetryErrorCode::TerminalClaimFailed,
                    },
                )
            } else {
                None
            };
            (Err(m.clone()), note)
        },
    }
}

/// What telemetry is told of a page that cannot be looked at.
pub fn unsupported_note() -> (r: TelemetryNote)
    ensures
        r == plain_note(TelemetryEventType::ProbeUnsupported, TelemetryErrorCode::ProbeUnsupported),
{
    note_of(TelemetryEventType::ProbeUnsupported, TelemetryErrorCode::ProbeUnsupported)
}

/// A rate limit on one worker's page cools its account down, and leaves the state of
/// every other account as it was.
pub proof fn lemma_limit_stays_with_account(
    item: StagedModel,
    condition: ChatgptUiCondition,
    config: AccountsConfig,
    now_ms: u64,
    before: AccountRouter,
    after: AccountRouter,
    r: UiVerdict,
    other: Seq<char>,
)
    requires
        verdict_holds(item, condition, config, now_ms, before, after, r),
        other != item.account_id,
    ensures
        crate::account_state::stored(after.store.accounts@, other) == crate::account_state::stored(
            before.store.accounts@,
            other,
        ),
{
}

/// The value of an optional end.
pub open spec fn opt_end(o: Option<TerminalObservation>) -> Option<ObservationModel> {
    match o {
        Some(x) => Some(x@),
        None => None,
    }
}

/// A worker that is lost, from now on.
pub open spec fn lost(detail: Seq<char>, now_ms: u64) -> ObservationModel {
    ObservationModel {
        state: DelegationTerminalState::Lost,
        detail: Some(detail),
        terminal_ms: Some(now_ms),
        task_result: None,
    }
}

/// The end of a worker that a look at its record shows, if it shows one. A record of
/// another generation, or one that cannot be read, means that the worker is lost.
pub open spec fn lifecycle_end(
    item: StagedModel,
    seen: LifecycleSeen,
    task_result: Option<JsonModel>,
    now_ms: u64,
) -> Option<ObservationModel> {
    match seen {
        LifecycleSeen::Found(l) => if l.generation == item.generation {
            if l.terminal_state is Some {
                Some(recorded_end(l, task_result))
            } else {
                None
            }
        } else {
            Some(
                lost(
                    "lifecycle generation changed unexpectedly from "@ + decimal(
                        item.generation as nat,
                    ) + " to "@ + decimal(l.generation as nat),
                    now_ms,
                ),
            )
        },
        LifecycleSeen::Absent => None,
        LifecycleSeen::Unresolved(m) => Some(
            lost("lifecycle evidence became unreadable: "@ + m@, now_ms),
        ),
        LifecycleSeen::Unreadable(m) => Some(
            lost("lifecycle evidence became unreadable: "@ + m@, now_ms),
        ),
    }
}

fn lost_now(detail: String, now_ms: u64) -> (r: TerminalObservation)
    ensures
        r@ == lost(detail@, now_ms),
{
    TerminalObservation {
        state: DelegationTerminalState::Lost,
        detail: Some(detail),
        terminal_ms: Some(now_ms),
        task_result: None,
    }
}

fn end_from_lifecycle(
    item: &StagedDelegation,
    seen: &LifecycleSeen,
    task_result: &Option<Json>,
    now_ms: u64,
) -> (r: Option<TerminalObservation>)
    ensures
        opt_end(r) == lifecycle_end(item@, *seen, opt_json(*task_result), now_ms),
{
    match seen {
        LifecycleSeen::Found(l) => {
            if l.generation != item.generation {
                let detail = "lifecycle generation changed unexpectedly from ".to_owned().concat(
                    decimal_of(item.generation).as_str(),
                ).concat(" to ").concat(decimal_of(l.generation).as_str());
                return Some(lost_now(detail, now_ms));
            }
            if l.terminal_state.is_some() {
                Some(observation_from_lifecycle(l, task_result))
            } else {
                None
            }
        },
        LifecycleSeen::Absent => None,
        LifecycleSeen::Unresolved(m) => Some(
            lost_now("lifecycle evidence became unreadable: ".to_owned().concat(m.as_str()), now_ms),
        ),
        LifecycleSeen::Unreadable(m) => Some(
            lost_now("lifecycle evidence became unreadable: ".to_owned().concat(m.as_str()), now_ms),
        ),
    }
}

/// When the pages of some workers are looked at.
#[derive(Debug)]
pub struct ProbeSchedule {
    pub next_ms: Vec<u64>,
    pub disabled: Vec<bool>,
}

impl ProbeSchedule {
    /// The schedule is for this many workers.
    pub open spec fn covers(self, count: int) -> bool {
        self.next_ms@.len() == count && self.disabled@.len() == count
    }

    /// The page of a worker is to be looked at.
    pub open spec fn is_due(self, index: int, now_ms: u64) -> bool {
        !self.disabled@[index] && self.next_ms@[index] <= now_ms
    }

    /// All pages may be looked at at once.
    pub fn new(count: usize, started_ms: u64) -> (r: Self)
        ensures
            r.covers(count as int),
            forall|i: int|
                0 <= i < count ==> #[trigger] r.next_ms@[i] == started_ms && !r.disabled@[i],
    {
        let mut next_ms: Vec<u64> = Vec::new();
        let mut disabled: Vec<bool> = Vec::new();
        let mut i: usize = 0;
        while i < count
            invariant
                i <= count,
                next_ms@.len() == i,
                disabled@.len() == i,
                forall|j: int|
                    0 <= j < i ==> #[trigger] next_ms@[j] == started_ms && !disabled@[j],
            decreases count - i,
        {
            next_ms.push(started_ms);
            disabled.push(false);
            i += 1;
        }
        ProbeSchedule { next_ms, disabled }
    }

    /// Notes that a page is looked at now: the next look is due after the interval.
    pub fn started(&mut self, index: usize, at_ms: u64)
        requires
            index < old(self).next_ms@.len(),
            at_ms + UI_PROBE_INTERVAL_MS <= u64::MAX,
        ensures
            final(self).next_ms@ == old(self).next_ms@.update(
                index as int,
                (at_ms + UI_PROBE_INTERVAL_MS) as u64,
            ),
            final(self).disabled@ == old(self).disabled@,
    {
        self.next_ms.set(index, at_ms + UI_PROBE_INTERVAL_MS);
    }

    /// Notes that a page cannot be looked at.
    pub fn disable(&mut self, index: usize)
        requires
            index < old(self).disabled@.len(),
        ensures
            final(self).disabled@ == old(self).disabled@.update(index as int, true),
            final(self).next_ms@ == old(self).next_ms@,
    {
        self.disabled.set(index, true);
    }
}

/// The wait for the ends of some workers.
#[derive(Debug)]
pub struct TerminalWatch {
    pub observed: Vec<Option<TerminalObservation>>,
    pub notified: Vec<bool>,
    pub probes: ProbeSchedule,
}

/// The first worker from some place on whose page is to be looked at.
pub open spec fn first_due(watch: TerminalWatch, from: int, now_ms: u64) -> Option<int>
    decreases watch.observed@.len() - from,
{
    if from < 0 || from >= watch.observed@.len() {
        None
    } else if watch.observed@[from] is None && watch.probes.is_due(from, now_ms) {
        Some(from)
    } else {
        first_due(watch, from + 1, now_ms)
    }
}

/// The workers up to some place whose ends are known and have not been told of.
pub open spec fn untold(observed: Seq<Option<TerminalObservation>>, notified: Seq<bool>, upto: int) -> Seq<
    usize,
>
    decreases upto,
{
    if upto <= 0 {
        Seq::empty()
    } else {
        let before = untold(observed, notified, upto - 1);
        if observed[upto - 1] is Some && !notified[upto - 1] {
            before.push((upto - 1) as usize)
        } else {
            before
        }
    }
}

impl TerminalWatch {
    /// The watch is over this many workers, and tells only of ends that it knows.
    pub open spec fn wf(self, count: int) -> bool {
        &&& self.observed@.len() == count
        &&& self.notified@.len() == count
        &&& self.probes.covers(count)
        &&& forall|i: int|
            0 <= i < count && #[trigger] self.notified@[i] ==> self.observed@[i] is Some
    }

    /// Every end is known.
    pub open spec fn all_observed(self) -> bool {
        forall|i: int| 0 <= i < self.observed@.len() ==> #[trigger] self.observed@[i] is Some
    }

    /// An end that is known stays as it is.
    pub open spec fn keeps_ends(self, before: TerminalWatch) -> bool {
        &&& self.observed@.len() == before.observed@.len()
        &&& forall|i: int|
            0 <= i < before.observed@.len() && before.observed@[i] is Some
                ==> #[trigger] self.observed@[i] == before.observed@[i]
    }

    /// Starts to wait.
    pub fn new(count: usize, started_ms: u64) -> (r: Self)
        ensures
            r.wf(count as int),
            forall|i: int|
                0 <= i < count ==> #[trigger] r.observed@[i] is None && !r.notified@[i]
                    && r.probes.is_due(i, started_ms),
    {
        let mut observed: Vec<Option<TerminalObservation>> = Vec::new();
        let mut notified: Vec<bool> = Vec::new();
        let mut i: usize = 0;
        while i < count
            invariant
                i <= count,
                observed@.len() == i,
                notified@.len() == i,
                forall|j: int| 0 <= j < i ==> #[trigger] observed@[j] is None && !notified@[j],
            decreases count - i,
        {
            observed.push(None);
            notified.push(false);
            i += 1;
        }
        let r = TerminalWatch { observed, notified, probes: ProbeSchedule::new(count, started_ms) };
        assert forall|k: int| 0 <= k < count implies #[trigger] r.observed@[k] is None
            && !r.notified@[k] && r.probes.is_due(k, started_ms) by {
            assert(r.probes.next_ms@[k] == started_ms);
        }
        r
    }

    /// Notes what a look at the records of the workers showed.
    pub fn on_lifecycles(
        &mut self,
        items: &Vec<StagedDelegation>,
        seen: &Vec<LifecycleSeen>,
        results: &Vec<Option<Json>>,
        now_ms: u64,
    )
        requires
            old(self).wf(items@.len() as int),
            seen@.len() == items@.len(),
            results@.len() == items@.len(),
        ensures
            final(self).wf(items@.len() as int),
            final(self).keeps_ends(*old(self)),
            forall|i: int|
                0 <= i < items@.len() && old(self).observed@[i] is None ==> opt_end(
                    #[trigger] final(self).observed@[i],
                ) == lifecycle_end(items@[i]@, seen@[i], opt_json(results@[i]), now_ms),
            final(self).notified@ == old(self).notified@,
            final(self).probes == old(self).probes,
    {
        let mut i: usize = 0;
        while i < items.len()
            invariant
                i <= items@.len(),
                seen@.len() == items@.len(),
                results@.len() == items@.len(),
                self.observed@.len() == items@.len(),
                old(self).wf(items@.len() as int),
                self.notified@ == old(self).notified@,
                self.probes == old(self).probes,
                forall|j: int|
                    i <= j < items@.len() ==> #[trigger] self.observed@[j]
                        == old(self).observed@[j],
                forall|j: int|
                    0 <= j < i ==> if old(self).observed@[j] is Some {
                        #[trigger] self.observed@[j] == old(self).observed@[j]
                    } else {
                        opt_end(self.observed@[j]) == lifecycle_end(
                            items@[j]@,
                            seen@[j],
                            opt_json(results@[j]),
                            now_ms,
                        )
                    },
            decreases items@.len() - i,
        {
            if self.observed[i].is_none() {
                let end = end_from_lifecycle(&items[i], &seen[i], &results[i], now_ms);
                self.observed.set(i, end);
            }
            i += 1;
        }
    }

    /// The next worker whose page is to be looked at.
    pub fn next_probe(&self, from: usize, now_ms: u64) -> (r: Option<usize>)
        requires
            self.wf(self.observed@.len() as int),
            from <= self.observed@.len(),
        ensures
            match r {
                Some(i) => first_due(*self, from as int, now_ms) == Some(i as int),
                None => first_due(*self, from as int, now_ms) is None,
            },
            r matches Some(i) ==> from <= i < self.observed@.len() && self.observed@[i as int] is None,
    {
        let mut i: usize = from;
        while i < self.observed.len()
            invariant
                from <= i <= self.observed@.len(),
                self.wf(self.observed@.len() as int),
                first_due(*self, from as int, now_ms) == first_due(*self, i as int, now_ms),
            decreases self.observed@.len() - i,
        {
            if self.observed[i].is_none() && !self.probes.disabled[i] && self.probes.next_ms[i]
                <= now_ms {
                return Some(i);
            }
            i += 1;
        }
        None
    }

    /// Notes what a look at a worker's page led to. An end that could not be put on
    /// record is no end; telemetry is told of it.
    pub fn on_probed(&mut self, index: usize, at_ms: u64, action: Result<UiProbeAction, String>) -> (r:
        Option<TelemetryNote>)
        requires
            index < old(self).observed@.len(),
            old(self).wf(old(self).observed@.len() as int),
            old(self).observed@[index as int] is None,
            at_ms + UI_PROBE_INTERVAL_MS <= u64::MAX,
        ensures
            final(self).wf(old(self).observed@.len() as int),
            final(self).keeps_ends(*old(self)),
            final(self).notified@ == old(self).notified@,
            final(self).probes.next_ms@ == old(self).probes.next_ms@.update(
                index as int,
                (at_ms + UI_PROBE_INTERVAL_MS) as u64,
            ),
            final(self).observed@ == (if action matches Ok(UiProbeAction::Terminal(o)) {
                old(self).observed@.update(index as int, Some(action->Ok_0->Terminal_0))
            } else {
                old(self).observed@
            }),
            final(self).probes.disabled@ == (if action matches Ok(UiProbeAction::Disable) {
                old(self).probes.disabled@.update(index as int, true)
            } else {
                old(self).probes.disabled@
            }),
            r == (if action is Err {
                Some(
                    plain_note(
                        TelemetryEventType::TerminalClaimFailed,
                        TelemetryErrorCode::TerminalClaimFailed,
                    ),
                )
            } else {
                None
            }),
    {
        self.probes.started(index, at_ms);
        match action {
            Ok(UiProbeAction::Continue) => None,
            Ok(UiProbeAction::Disable) => {
                self.probes.disable(index);
                None
            },
            Ok(UiProbeAction::Terminal(o)) => {
                self.observed.set(index, Some(o));
                None
            },
            Err(_) => Some(
                note_of(
                    TelemetryEventType::TerminalClaimFailed,
                    TelemetryErrorCode::TerminalClaimFailed,
                ),
            ),
        }
    }

    /// The workers whose ends are to be told of now; each is told of once.
    pub fn take_untold(&mut self) -> (r: Vec<usize>)
        requires
            old(self).wf(old(self).observed@.len() as int),
        ensures
            final(self).wf(old(self).observed@.len() as int),
            final(self).observed@ == old(self).observed@,
            final(self).probes == old(self).probes,
            r@ == untold(
                old(self).observed@,
                old(self).notified@,
                old(self).observed@.len() as int,
            ),
            forall|i: int|
                0 <= i < final(self).notified@.len() ==> #[trigger] final(self).notified@[i] == (
                final(self).observed@[i] is Some),
    {
        let mut out: Vec<usize> = Vec::new();
        let mut i: usize = 0;
        while i < self.observed.len()
            invariant
                i <= self.observed@.len(),
                old(self).wf(self.observed@.len() as int),
                self.observed@ == old(self).observed@,
                self.probes == old(self).probes,
                self.notified@.len() == self.observed@.len(),
                out@ == untold(old(self).observed@, old(self).notified@, i as int),
                forall|j: int|
                    i <= j < self.notified@.len() ==> #[trigger] self.notified@[j]
                        == old(self).notified@[j],
                forall|j: int|
                    0 <= j < i ==> #[trigger] self.notified@[j] == (self.observed@[j] is Some),
            decreases self.observed@.len() - i,
        {
            if self.observed[i].is_some() && !self.notified[i] {
                out.push(i);
                self.notified.set(i, true);
            }
            i += 1;
        }
        out
    }

    /// Whether every end is known.
    pub fn is_done(&self) -> (r: bool)
        ensures
            r == self.all_observed(),
    {
        let mut i: usize = 0;
        while i < self.observed.len()
            invariant
                i <= self.observed@.len(),
                forall|j: int| 0 <= j < i ==> #[trigger] self.observed@[j] is Some,
            decreases self.observed@.len() - i,
        {
            if self.observed[i].is_none() {
                assert(self.observed@[i as int] is None);
                return false;
            }
            i += 1;
        }
        true
    }

    /// The ends of the workers, in their order.
    pub fn finish(&self) -> (r: Vec<TerminalObservation>)
        requires
            self.all_observed(),
        ensures
            r@.len() == self.observed@.len(),
            forall|i: int|
                0 <= i < r@.len() ==> Some((#[trigger] r@[i])@) == opt_end(self.observed@[i]),
    {
        let mut out: Vec<TerminalObservation> = Vec::new();
        let mut i: usize = 0;
        while i < self.observed.len()
            invariant
                i <= self.observed@.len(),
                out@.len() == i,
                self.all_observed(),
                forall|j: int|
                    0 <= j < i ==> Some((#[trigger] out@[j])@) == opt_end(self.observed@[j]),
            decreases self.observed@.len() - i,
        {
            assert(self.observed@[i as int] is Some);
            if let Some(o) = &self.observed[i] {
                out.push(o.copy());
            }
            i += 1;
        }
        out
    }
}

proof fn lemma_untold_members(
    observed: Seq<Option<TerminalObservation>>,
    notified: Seq<bool>,
    upto: int,
    index: usize,
)
    requires
        0 <= upto <= observed.len(),
        upto <= usize::MAX,
    ensures
        untold(observed, notified, upto).contains(index) <==> index < upto && observed[index as int] is Some
            && !notified[index as int],
        untold(observed, notified, upto).no_duplicates(),
    decreases upto,
{
    if upto > 0 {
        lemma_untold_members(observed, notified, upto - 1, index);
        lemma_untold_members(observed, notified, upto - 1, (upto - 1) as usize);
        let before = untold(observed, notified, upto - 1);
        let now = untold(observed, notified, upto);
        if observed[upto - 1] is Some && !notified[upto - 1] {
            assert(now == before.push((upto - 1) as usize));
            assert(now.last() == (upto - 1) as usize);
            if before.contains(index) {
                let k = before.index_of(index);
                assert(now[k] == index);
            }
            if now.contains(index) && index != upto - 1 {
                let k = now.index_of(index);
                assert(before[k] == index);
            }
        }
    }
}

/// Every worker's end is told of exactly once: when it becomes known it is told of, and
/// once it has been told of it is not told of again.
pub proof fn lemma_end_is_told_once(watch: TerminalWatch, index: usize)
    requires
        watch.wf(watch.observed@.len() as int),
        index < watch.observed@.len(),
        watch.observed@.len() <= usize::MAX,
    ensures
        untold(watch.observed@, watch.notified@, watch.observed@.len() as int).contains(index)
            <==> watch.observed@[index as int] is Some && !watch.notified@[index as int],
        untold(watch.observed@, watch.notified@, watch.observed@.len() as int).no_duplicates(),
{
    lemma_untold_members(watch.observed@, watch.notified@, watch.observed@.len() as int, index);
}

} // verus!
