//! Handing a further task to a worker that is kept from an earlier one.
use crate::browser_pool::{browser_verify_failure_is_definitive, is_definitive_failure};
use crate::delegate::observe::{load_resumable_scope, owned, resumable_fault};
use crate::delegate::prompts::has_title;
use crate::delegate::report::{ObservationModel, SessionDisposition, SessionModel, StagedDelegation,
    StagedModel, TerminalObservation};
use crate::delegate::stage::{build_staged_delegation, ended_worker, staged_from_existing_terminal,
    staged_worker};
use crate::json::{field_models, no_fields, number_or_null, put, Json, JsonModel};
use crate::router::RouteReservation;
use crate::security::workspace::{BindingModel, BrowserBinding, ScopeModel, WorkspaceMux,
    WorkspaceScope};
use crate::task_state::{DelegationLifecycle, DelegationTerminalState, LifecycleSeen};
use crate::text::{copy_opt, opt_text, same_text};
use vstd::prelude::*;

verus! {

/// What is known so far while a kept worker is being given a further task.
#[derive(Debug)]
pub struct ResumeSeen {
    pub locked: Option<Result<(), String>>,
    pub record: Option<LifecycleSeen>,
    /// Finding the browser that the scope is bound to.
    pub target: Option<Result<(), String>>,
    /// Reserving the scope's account.
    pub reservation: Option<Result<RouteReservation, String>>,
    /// Whether the lease of the page has expired.
    pub expired: Option<bool>,
    pub verified: Option<Result<(), String>>,
    /// Whether the reservation was given back.
    pub given_back: bool,
    /// Ending the lease of the page.
    pub released: Option<Result<(), String>>,
    /// Unregistering the scope.
    pub removed: Option<Result<(), String>>,
    pub closed: Option<Result<(), String>>,
    /// Starting the next generation of the record.
    pub next: Option<Result<DelegationLifecycle, String>>,
    /// Putting an end on record.
    pub ended: Option<Result<DelegationLifecycle, String>>,
    /// Binding the reservation to the scope.
    pub bound: Option<Result<(), String>>,
}

/// What is done next to give a kept worker a further task.
#[derive(Debug)]
pub enum ResumeStep {
    Lock,
    ReadRecord,
    FindTarget(BrowserBinding),
    /// Reserve this account.
    Reserve(String),
    GiveBack,
    CheckExpiry,
    Verify,
    EndLease,
    Unregister,
    /// Let the lock of the scope go and close the page.
    ClosePage,
    /// Start the next generation; whether blocked items are taken up again.
    NextGeneration(bool),
    RecordEnd(DelegationTerminalState, String),
    /// End the lease and unregister the scope, whether or not either works, let the lock
    /// go and close the page.
    Abandon,
    Bind,
    Ready(StagedDelegation),
    Lost(StagedDelegation, TerminalObservation, SessionDisposition),
    Failed(String),
    /// A failure that is reported as JSON.
    FailedWith(Json),
}

/// The mathematical value of a [`ResumeStep`].
pub enum ResumeModel {
    Lock,
    ReadRecord,
    FindTarget(BindingModel),
    Reserve(Seq<char>),
    GiveBack,
    CheckExpiry,
    Verify,
    EndLease,
    Unregister,
    ClosePage,
    NextGeneration(bool),
    RecordEnd(DelegationTerminalState, Seq<char>),
    Abandon,
    Bind,
    Ready(StagedModel),
    Lost(StagedModel, ObservationModel, SessionModel),
    Failed(Seq<char>),
    FailedWith(JsonModel),
}

impl View for ResumeStep {
    type V = ResumeModel;

    open spec fn view(&self) -> ResumeModel {
        match *self {
            ResumeStep::Lock => ResumeModel::Lock,
            ResumeStep::ReadRecord => ResumeModel::ReadRecord,
            ResumeStep::FindTarget(b) => ResumeModel::FindTarget(b@),
            ResumeStep::Reserve(a) => ResumeModel::Reserve(a@),
            ResumeStep::GiveBack => ResumeModel::GiveBack,
            ResumeStep::CheckExpiry => ResumeModel::CheckExpiry,
            ResumeStep::Verify => ResumeModel::Verify,
            ResumeStep::EndLease => ResumeModel::EndLease,
            ResumeStep::Unregister => ResumeModel::Unregister,
            ResumeStep::ClosePage => ResumeModel::ClosePage,
            ResumeStep::NextGeneration(b) => ResumeModel::NextGeneration(b),
            ResumeStep::RecordEnd(s, d) => ResumeModel::RecordEnd(s, d@),
            ResumeStep::Abandon => ResumeModel::Abandon,
            ResumeStep::Bind => ResumeModel::Bind,
            ResumeStep::Ready(d) => ResumeModel::Ready(d@),
            ResumeStep::Lost(d, o, s) => ResumeModel::Lost(d@, o@, s@),
            ResumeStep::Failed(m) => ResumeModel::Failed(m@),
            ResumeStep::FailedWith(v) => ResumeModel::FailedWith(v.model()),
        }
    }
}

/// The failure of a scope whose browser cannot be had.
pub open spec fn unavailable_json(b: BindingModel, detail: Seq<char>) -> JsonModel {
    JsonModel::Object(
        seq![
            ("code"@, JsonModel::Text("BROWSER_ACCOUNT_UNAVAILABLE"@)),
            ("account_id"@, JsonModel::Text(b.account_id)),
            ("instance"@, JsonModel::Text(b.instance)),
            ("detail"@, JsonModel::Text(detail)),
        ],
    )
}

fn unavailable_value(b: &BrowserBinding, detail: &str) -> (r: Json)
    ensures
        r.model() == unavailable_json(b@, detail@),
{
    let mut f = no_fields();
    put(&mut f, "code", Json::text("BROWSER_ACCOUNT_UNAVAILABLE"));
    put(&mut f, "account_id", Json::text(b.account_id.as_str()));
    put(&mut f, "instance", Json::text(b.instance.as_str()));
    put(&mut f, "detail", Json::text(detail));
    assert(field_models(f@) =~= unavailable_json(b@, detail@)->Object_0);
    Json::Object(f)
}

/// The failure of a page that cannot be verified just now; it stays kept.
pub open spec fn transient_json(
    scope_id: Seq<char>,
    page: Seq<char>,
    l: DelegationLifecycle,
    detail: Seq<char>,
) -> JsonModel {
    JsonModel::Object(
        seq![
            ("code"@, JsonModel::Text("RETAINED_BROWSER_VERIFY_TRANSIENT"@)),
            ("scope_id"@, JsonModel::Text(scope_id)),
            ("browser_page_id"@, JsonModel::Text(page)),
            ("session_retained"@, JsonModel::Bool(l.session_retained)),
            ("lease_expires_ms"@, number_or_null(l.lease_expires_ms)),
            ("detail"@, JsonModel::Text(detail)),
        ],
    )
}

fn transient_value(scope_id: &str, page: &str, l: &DelegationLifecycle, detail: &str) -> (r: Json)
    ensures
        r.model() == transient_json(scope_id@, page@, *l, detail@),
{
    let mut f = no_fields();
    put(&mut f, "code", Json::text("RETAINED_BROWSER_VERIFY_TRANSIENT"));
    put(&mut f, "scope_id", Json::text(scope_id));
    put(&mut f, "browser_page_id", Json::text(page));
    put(&mut f, "session_retained", Json::Bool(l.session_retained));
    put(&mut f, "lease_expires_ms", Json::opt_number(l.lease_expires_ms));
    put(&mut f, "detail", Json::text(detail));
    assert(field_models(f@) =~= transient_json(scope_id@, page@, *l, detail@)->Object_0);
    Json::Object(f)
}

/// The failure of a scope that is bound to another browser instance than its account has.
pub open spec fn drift_text(b: BindingModel, r: RouteReservation) -> Seq<char> {
    "retained scope browser instance "@ + b.instance + " no longer matches configured instance "@
        + r.account.browser.instance@ + " for account "@ + r.account.id@
}

pub open spec fn expired_detail(scope_id: Seq<char>) -> Seq<char> {
    "retained Web session lease expired before resume: "@ + scope_id
}

pub open spec fn gone_detail(page: Seq<char>, error: Seq<char>) -> Seq<char> {
    "retained browser page "@ + page + " is definitively unavailable: "@ + error
}

pub open spec fn bind_detail(error: Seq<char>) -> Seq<char> {
    "failed to bind retained account reservation to scope: "@ + error
}

/// The end of a worker whose lease expired: its page is closed, and its scope is gone.
pub open spec fn expired_end(
    scope: ScopeModel,
    task: Seq<char>,
    l: DelegationLifecycle,
    now_ms: u64,
    closed: Result<(), String>,
) -> ResumeModel {
    let detail = expired_detail(scope.scope_id);
    ResumeModel::Lost(
        ended_worker(scope, task, l),
        ObservationModel {
            state: DelegationTerminalState::Lost,
            detail: Some(detail),
            terminal_ms: Some(now_ms),
            task_result: None,
        },
        SessionModel {
            retained: false,
            closed: closed is Ok,
            expired: true,
            lease_expires_ms: l.lease_expires_ms,
            error: match closed {
                Ok(_) => None,
                Err(m) => Some(detail + "; tab close failed: "@ + m@),
            },
        },
    )
}

/// What is done with a worker whose lease expired: the reservation is given back, the
/// lease ended, the scope unregistered and the page closed.
pub open spec fn expired_next(
    scope: ScopeModel,
    task: Seq<char>,
    l: DelegationLifecycle,
    now_ms: u64,
    seen: ResumeSeen,
) -> ResumeModel {
    if !seen.given_back {
        ResumeModel::GiveBack
    } else {
        match seen.released {
            None => ResumeModel::EndLease,
            Some(Err(m)) => ResumeModel::Failed(m@),
            Some(Ok(_)) => match seen.removed {
                None => ResumeModel::Unregister,
                Some(Err(m)) => ResumeModel::Failed(m@),
                Some(Ok(_)) => match seen.closed {
                    None => ResumeModel::ClosePage,
                    Some(c) => expired_end(scope, task, l, now_ms, c),
                },
            },
        }
    }
}

/// What is done with a worker whose page is gone for good: a generation is started and
/// ended as lost, and the scope and the page are given up.
pub open spec fn gone_next(
    scope: ScopeModel,
    page: Seq<char>,
    task: Seq<char>,
    error: Seq<char>,
    seen: ResumeSeen,
) -> ResumeModel {
    let detail = gone_detail(page, error);
    match seen.next {
        None => ResumeModel::NextGeneration(false),
        Some(Err(m)) => ResumeModel::Failed(m@),
        Some(Ok(next)) => match seen.ended {
            None => ResumeModel::RecordEnd(DelegationTerminalState::Lost, detail),
            Some(Err(m)) => ResumeModel::Failed(m@),
            Some(Ok(end)) => match seen.closed {
                None => ResumeModel::Abandon,
                Some(closed) => ResumeModel::Lost(
                    staged_worker(scope, Some(page), None, task, next, true, true),
                    ObservationModel {
                        state: match end.terminal_state {
                            Some(s) => s,
                            None => DelegationTerminalState::Lost,
                        },
                        detail: opt_text(end.terminal_detail),
                        terminal_ms: end.terminal_ms,
                        task_result: None,
                    },
                    SessionModel {
                        retained: false,
                        closed: closed is Ok,
                        expired: false,
                        lease_expires_ms: None,
                        error: Some(
                            match closed {
                                Ok(_) => detail,
                                Err(m) => detail + "; tab close failed: "@ + m@,
                            },
                        ),
                    },
                ),
            },
        },
    }
}

/// What is done with a worker whose page is there: the next generation is started, and
/// the reservation bound to its scope.
pub open spec fn live_next(
    scope: ScopeModel,
    page: Seq<char>,
    task: Seq<char>,
    l: DelegationLifecycle,
    reservation: RouteReservation,
    seen: ResumeSeen,
) -> ResumeModel {
    match seen.next {
        None => ResumeModel::NextGeneration(
            l.terminal_state == Some(DelegationTerminalState::Blocked),
        ),
        Some(Err(m)) => if !seen.given_back {
            ResumeModel::GiveBack
        } else {
            ResumeModel::Failed(m@)
        },
        Some(Ok(next)) => match seen.bound {
            None => ResumeModel::Bind,
            Some(Err(m)) => if !seen.given_back {
                ResumeModel::GiveBack
            } else if seen.ended is None {
                ResumeModel::RecordEnd(DelegationTerminalState::Failed, bind_detail(m@))
            } else {
                ResumeModel::Failed(bind_detail(m@))
            },
            Some(Ok(_)) => ResumeModel::Ready(
                StagedModel {
                    pooled: true,
                    route_reservation: Some(reservation),
                    ..staged_worker(scope, Some(page), None, task, next, true, true)
                },
            ),
        },
    }
}

/// What is done with a worker whose account is reserved.
pub open spec fn reserved_next(
    scope: ScopeModel,
    page: Seq<char>,
    task: Seq<char>,
    l: DelegationLifecycle,
    now_ms: u64,
    reservation: RouteReservation,
    seen: ResumeSeen,
) -> ResumeModel {
    if scope.browser is Some && scope.browser->0.instance != reservation.account.browser.instance@ {
        if !seen.given_back {
            ResumeModel::GiveBack
        } else {
            ResumeModel::Failed(drift_text(scope.browser->0, reservation))
        }
    } else {
        match seen.expired {
            None => ResumeModel::CheckExpiry,
            Some(true) => expired_next(scope, task, l, now_ms, seen),
            Some(false) => match seen.verified {
                None => ResumeModel::Verify,
                Some(Ok(_)) => live_next(scope, page, task, l, reservation, seen),
                Some(Err(e)) => if !seen.given_back {
                    ResumeModel::GiveBack
                } else if is_definitive_failure(e@) {
                    gone_next(scope, page, task, e@, seen)
                } else {
                    ResumeModel::FailedWith(transient_json(scope.scope_id, page, l, e@))
                },
            },
        }
    }
}

/// What is done next to give the kept worker of a scope a further task.
pub open spec fn resume_next(
    mux: WorkspaceMux,
    scope_id: Seq<char>,
    task: Seq<char>,
    now_ms: u64,
    seen: ResumeSeen,
) -> ResumeModel {
    match seen.locked {
        None => ResumeModel::Lock,
        Some(Err(m)) => ResumeModel::Failed(m@),
        Some(Ok(_)) => match seen.record {
            None => ResumeModel::ReadRecord,
            Some(record) => match resumable_fault(mux, scope_id, record) {
                Some(m) => ResumeModel::Failed(m),
                None => {
                    let scope = mux.found(scope_id)->Ok_0;
                    if scope.page() is None {
                        ResumeModel::Failed("retained scope has no browser page id"@)
                    } else if scope.browser is Some && seen.target is None {
                        ResumeModel::FindTarget(scope.browser->0)
                    } else if scope.browser is Some && seen.target->0 is Err {
                        ResumeModel::FailedWith(
                            unavailable_json(scope.browser->0, seen.target->0->Err_0@),
                        )
                    } else {
                        match seen.reservation {
                            None => ResumeModel::Reserve(scope.account()),
                            Some(Err(m)) => ResumeModel::Failed(m@),
                            Some(Ok(r)) => reserved_next(
                                scope,
                                scope.page()->0,
                                task,
                                record->Found_0,
                                now_ms,
                                r,
                                seen,
                            ),
                        }
                    }
                },
            },
        },
    }
}

fn step_expired(
    scope: &WorkspaceScope,
    task: &str,
    l: &DelegationLifecycle,
    now_ms: u64,
    seen: &ResumeSeen,
) -> (r: ResumeStep)
    ensures
        r@ == expired_next(scope@, task@, *l, now_ms, *seen),
{
    if !seen.given_back {
        return ResumeStep::GiveBack;
    }
    match &seen.released {
        None => {
            return ResumeStep::EndLease;
        },
        Some(Err(m)) => {
            return ResumeStep::Failed(m.clone());
        },
        Some(Ok(_)) => {},
    }
    match &seen.removed {
        None => {
            return ResumeStep::Unregister;
        },
        Some(Err(m)) => {
            return ResumeStep::Failed(m.clone());
        },
        Some(Ok(_)) => {},
    }
    let closed = match &seen.closed {
        None => {
            return ResumeStep::ClosePage;
        },
        Some(c) => c,
    };
    let detail = "retained Web session lease expired before resume: ".to_owned().concat(
        scope.scope_id.as_str(),
    );
    let error = match closed {
        Ok(_) => None,
        Err(m) => Some(detail.clone().concat("; tab close failed: ").concat(m.as_str())),
    };
    ResumeStep::Lost(
        staged_from_existing_terminal(scope, task, l),
        TerminalObservation {
            state: DelegationTerminalState::Lost,
            detail: Some(detail),
            terminal_ms: Some(now_ms),
            task_result: None,
        },
        SessionDisposition {
            retained: false,
            closed: closed.is_ok(),
            expired: true,
            lease_expires_ms: l.lease_expires_ms,
            error,
        },
    )
}

fn step_gone(scope: &WorkspaceScope, page: &str, task: &str, error: &str, seen: &ResumeSeen) -> (r:
    ResumeStep)
    requires
        has_title(task@),
    ensures
        r@ == gone_next(scope@, page@, task@, error@, *seen),
{
    let detail = "retained browser page ".to_owned().concat(page).concat(
        " is definitively unavailable: ",
    ).concat(error);
    let next = match &seen.next {
        None => {
            return ResumeStep::NextGeneration(false);
        },
        Some(Err(m)) => {
            return ResumeStep::Failed(m.clone());
        },
        Some(Ok(l)) => l,
    };
    let end = match &seen.ended {
        None => {
            return ResumeStep::RecordEnd(DelegationTerminalState::Lost, detail);
        },
        Some(Err(m)) => {
            return ResumeStep::Failed(m.clone());
        },
        Some(Ok(l)) => l,
    };
    let closed = match &seen.closed {
        None => {
            return ResumeStep::Abandon;
        },
        Some(c) => c,
    };
    let text = match closed {
        Ok(_) => detail,
        Err(m) => detail.concat("; tab close failed: ").concat(m.as_str()),
    };
    ResumeStep::Lost(
        build_staged_delegation(scope, Some(page.to_owned()), &None, task, next, true, true),
        TerminalObservation {
            state: match end.terminal_state {
                Some(s) => s,
                None => DelegationTerminalState::Lost,
            },
            detail: copy_opt(&end.terminal_detail),
            terminal_ms: end.terminal_ms,
            task_result: None,
        },
        SessionDisposition {
            retained: false,
            closed: closed.is_ok(),
            expired: false,
            lease_expires_ms: None,
            error: Some(text),
        },
    )
}

fn step_live(
    scope: &WorkspaceScope,
    page: &str,
    task: &str,
    l: &DelegationLifecycle,
    reservation: &RouteReservation,
    seen: &ResumeSeen,
) -> (r: ResumeStep)
    requires
        has_title(task@),
    ensures
        r@ == live_next(scope@, page@, task@, *l, *reservation, *seen),
{
    let next = match &seen.next {
        None => {
            let blocked = match l.terminal_state {
                Some(s) => s == DelegationTerminalState::Blocked,
                None => false,
            };
            return ResumeStep::NextGeneration(blocked);
        },
        Some(Err(m)) => {
            return if !seen.given_back {
                ResumeStep::GiveBack
            } else {
                ResumeStep::Failed(m.clone())
            };
        },
        Some(Ok(x)) => x,
    };
    match &seen.bound {
        None => {
            return ResumeStep::Bind;
        },
        Some(Err(m)) => {
            if !seen.given_back {
                return ResumeStep::GiveBack;
            }
            let detail = "failed to bind retained account reservation to scope: ".to_owned().concat(
                m.as_str(),
            );
            return if seen.ended.is_none() {
                ResumeStep::RecordEnd(DelegationTerminalState::Failed, detail)
            } else {
                ResumeStep::Failed(detail)
            };
        },
        Some(Ok(_)) => {},
    }
    let mut item = build_staged_delegation(
        scope,
        Some(page.to_owned()),
        &None,
        task,
        next,
        true,
        true,
    );
    item.pooled = true;
    item.route_reservation = Some(reservation.clone());
    ResumeStep::Ready(item)
}

fn step_reserved(
    scope: &WorkspaceScope,
    page: &str,
    task: &str,
    l: &DelegationLifecycle,
    now_ms: u64,
    reservation: &RouteReservation,
    seen: &ResumeSeen,
) -> (r: ResumeStep)
    requires
        has_title(task@),
    ensures
        r@ == reserved_next(scope@, page@, task@, *l, now_ms, *reservation, *seen),
{
    if let Some(b) = &scope.browser {
        if !same_text(b.instance.as_str(), reservation.account.browser.instance.as_str()) {
            if !seen.given_back {
                return ResumeStep::GiveBack;
            }
            return ResumeStep::Failed(
                "retained scope browser instance ".to_owned().concat(b.instance.as_str()).concat(
                    " no longer matches configured instance ",
                ).concat(reservation.account.browser.instance.as_str()).concat(
                    " for account ",
                ).concat(reservation.account.id.as_str()),
            );
        }
    }
    match seen.expired {
        None => {
            return ResumeStep::CheckExpiry;
        },
        Some(true) => {
            return step_expired(scope, task, l, now_ms, seen);
        },
        Some(false) => {},
    }
    match &seen.verified {
        None => ResumeStep::Verify,
        Some(Ok(_)) => step_live(scope, page, task, l, reservation, seen),
        Some(Err(e)) => if !seen.given_back {
            ResumeStep::GiveBack
        } else if browser_verify_failure_is_definitive(e.as_str()) {
            step_gone(scope, page, task, e.as_str(), seen)
        } else {
            ResumeStep::FailedWith(
                transient_value(scope.scope_id.as_str(), page, l, e.as_str()),
            )
        },
    }
}

/// Decides what is done next to give the kept worker of a scope a further task.
pub fn stage_resume_delegation(
    mux: &WorkspaceMux,
    scope_id: &str,
    task: &str,
    now_ms: u64,
    seen: &ResumeSeen,
) -> (r: ResumeStep)
    requires
        has_title(task@),
    ensures
        r@ == resume_next(*mux, scope_id@, task@, now_ms, *seen),
{
    match &seen.locked {
        None => {
            return ResumeStep::Lock;
        },
        Some(Err(m)) => {
            return ResumeStep::Failed(m.clone());
        },
        Some(Ok(_)) => {},
    }
    let record = match &seen.record {
        None => {
            return ResumeStep::ReadRecord;
        },
        Some(x) => x,
    };
    let (scope, l) = match load_resumable_scope(mux, scope_id, record) {
        Ok(x) => x,
        Err(m) => {
            return ResumeStep::Failed(m);
        },
    };
    let page = match owned(scope.page_id()) {
        Some(p) => p,
        None => {
            return ResumeStep::Failed("retained scope has no browser page id".to_owned());
        },
    };
    if let Some(b) = &scope.browser {
        match &seen.target {
            None => {
                return ResumeStep::FindTarget(b.clone());
            },
            Some(Err(m)) => {
                return ResumeStep::FailedWith(unavailable_value(b, m.as_str()));
            },
            Some(Ok(_)) => {},
        }
    }
    match &seen.reservation {
        None => ResumeStep::Reserve(scope.account_id().to_owned()),
        Some(Err(m)) => ResumeStep::Failed(m.clone()),
        Some(Ok(r)) => step_reserved(&scope, page.as_str(), task, &l, now_ms, r, seen),
    }
}

/// A further task goes to the page and the workspace that the scope carries and to no
/// others, and only to a worker that was kept after the end of its task and whose page was
/// verified.
pub proof fn lemma_resume_goes_to_stored_page(
    mux: WorkspaceMux,
    scope_id: Seq<char>,
    task: Seq<char>,
    now_ms: u64,
    seen: ResumeSeen,
)
    ensures
        resume_next(mux, scope_id, task, now_ms, seen) matches ResumeModel::Ready(item) ==> {
            &&& mux.found(scope_id) matches Ok(scope)
            &&& item.browser_page_id == scope.page()
            &&& item.workspace == scope.workspace
            &&& item.account_id == scope.account()
            &&& item.resumed
            &&& seen.record matches Some(LifecycleSeen::Found(l))
            &&& l.session_retained
            &&& l.terminal_state is Some
            &&& seen.verified matches Some(Ok(_))
            &&& seen.bound matches Some(Ok(_))
        },
{
}

/// Whenever resuming does not end with a staged worker after its account was reserved,
/// the reservation has been given back.
pub proof fn lemma_failed_resume_gives_back(
    mux: WorkspaceMux,
    scope_id: Seq<char>,
    task: Seq<char>,
    now_ms: u64,
    seen: ResumeSeen,
)
    requires
        seen.reservation matches Some(Ok(_)),
        resumable_fault(mux, scope_id, seen.record->0) is None,
        seen.locked matches Some(Ok(_)),
        seen.record is Some,
        mux.found(scope_id)->Ok_0.page() is Some,
        mux.found(scope_id)->Ok_0.browser is Some ==> (seen.target matches Some(Ok(_))),
    ensures
        ({
            let step = resume_next(mux, scope_id, task, now_ms, seen);
            step is Failed || step is FailedWith || step is Lost ==> seen.given_back
        }),
{
}

} // verus!
