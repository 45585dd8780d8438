//! What becomes of a worker's page after the end of its task: it is kept for another
//! task, or closed.
use crate::browser_pool::{browser_verify_failure_is_definitive, is_definitive_failure};
use crate::delegate::control::should_retain_terminal;
use crate::delegate::observe::{load_resumable_scope, resumable_fault};
use crate::delegate::report::{SessionDisposition, SessionModel, StagedDelegation, StagedModel,
    TerminalObservation};
use crate::json::{field_models, no_fields, put, Json, JsonModel};
use crate::security::workspace::{copy_binding, opt_binding, BindingModel, BrowserBinding,
    WorkspaceMux};
use crate::task_state::{DelegationTerminalState, LifecycleSeen};
use crate::text::opt_text;
use vstd::prelude::*;

verus! {

/// How the page of a worker is reached.
#[derive(Debug)]
pub enum PageRoute {
    /// Through the browsers of the accounts.
    Pool(BrowserBinding),
    /// Through the driver of a bridge without configured accounts.
    Driver(String),
    Nowhere,
}

/// The mathematical value of a [`PageRoute`].
pub enum RouteModel {
    Pool(BindingModel),
    Driver(Seq<char>),
    Nowhere,
}

impl View for PageRoute {
    type V = RouteModel;

    open spec fn view(&self) -> RouteModel {
        match *self {
            PageRoute::Pool(b) => RouteModel::Pool(b@),
            PageRoute::Driver(p) => RouteModel::Driver(p@),
            PageRoute::Nowhere => RouteModel::Nowhere,
        }
    }
}

/// How the page of a worker is reached.
pub open spec fn route_of(item: StagedModel) -> RouteModel {
    if item.pooled && item.browser_binding is Some {
        RouteModel::Pool(item.browser_binding->0)
    } else {
        match item.browser_page_id {
            Some(p) => RouteModel::Driver(p),
            None => RouteModel::Nowhere,
        }
    }
}

/// How the page of a worker is reached.
pub fn item_route(item: &StagedDelegation) -> (r: PageRoute)
    ensures
        r@ == route_of(item@),
{
    if item.pooled {
        if let Some(b) = &item.browser_binding {
            return PageRoute::Pool(b.clone());
        }
    }
    match &item.browser_page_id {
        Some(p) => PageRoute::Driver(p.clone()),
        None => PageRoute::Nowhere,
    }
}

/// How the page of a scope is reached: through the browsers of the accounts where the scope is
/// bound to one.
pub open spec fn route_to(binding: Option<BindingModel>, page: Seq<char>) -> RouteModel {
    match binding {
        Some(b) => RouteModel::Pool(b),
        None => RouteModel::Driver(page),
    }
}

/// How the page of a scope is reached.
pub fn page_route(binding: Option<BrowserBinding>, page: String) -> (r: PageRoute)
    ensures
        r@ == route_to(opt_binding(binding), page@),
{
    match binding {
        Some(b) => PageRoute::Pool(b),
        None => PageRoute::Driver(page),
    }
}

/// How the page of a registered scope is reached; that of a scope which cannot be looked up is
/// reached nowhere.
pub fn scope_route(mux: &WorkspaceMux, scope_id: &str) -> (r: PageRoute)
    ensures
        r@ == match mux.found(scope_id@) {
            Ok(scope) => route_to(
                scope.browser,
                match scope.page() {
                    Some(p) => p,
                    None => ""@,
                },
            ),
            Err(_) => RouteModel::Nowhere,
        },
{
    match mux.lookup(scope_id) {
        Ok(scope) => {
            let page = match scope.page_id() {
                Some(p) => p.to_owned(),
                None => "".to_owned(),
            };
            page_route(scope.browser, page)
        },
        Err(_) => PageRoute::Nowhere,
    }
}

pub const NO_PAGE_TO_CLOSE: &'static str = "delegation has no browser page binding to close";

/// Whether a worker's page is kept after the end of its task; a worker of whose end
/// nothing is known is not.
pub fn keeps_page(end: Option<&TerminalObservation>, close_on_terminal: bool) -> (r: bool)
    ensures
        r == (end matches Some(e) && !close_on_terminal && e.state != DelegationTerminalState::Lost),
{
    match end {
        Some(e) => should_retain_terminal(e.state, close_on_terminal),
        None => false,
    }
}

/// What is known so far while a page is being kept.
#[derive(Debug)]
pub struct RetainSeen {
    /// Taking the lock of the scope.
    pub locked: Option<Result<(), String>>,
    /// Resolving the workspace of the scope.
    pub resolved: Option<Result<(), String>>,
    /// Verifying the page.
    pub verified: Option<Result<(), String>>,
    /// Putting the lease on record, with the time at which it expires.
    pub leased: Option<Result<Option<u64>, String>>,
    /// Closing a page that is gone for good.
    pub closed: Option<Result<(), String>>,
}

/// What is done next to keep a page.
#[derive(Debug)]
pub enum RetainStep {
    Lock,
    Resolve,
    Verify,
    Lease,
    /// End the lease, unregister the scope, let its lock go and close the page.
    Abandon,
    Done(SessionDisposition),
}

/// The mathematical value of a [`RetainStep`].
pub enum RetainModel {
    Lock,
    Resolve,
    Verify,
    Lease,
    Abandon,
    Done(SessionModel),
}

impl View for RetainStep {
    type V = RetainModel;

    open spec fn view(&self) -> RetainModel {
        match *self {
            RetainStep::Lock => RetainModel::Lock,
            RetainStep::Resolve => RetainModel::Resolve,
            RetainStep::Verify => RetainModel::Verify,
            RetainStep::Lease => RetainModel::Lease,
            RetainStep::Abandon => RetainModel::Abandon,
            RetainStep::Done(d) => RetainModel::Done(d@),
        }
    }
}

/// A page that is not kept, with the reason.
pub open spec fn not_kept(closed: bool, error: Seq<char>) -> SessionModel {
    SessionModel {
        retained: false,
        closed,
        expired: false,
        lease_expires_ms: None,
        error: Some(error),
    }
}

/// A page that is kept.
pub open spec fn kept(lease: Option<u64>, error: Option<Seq<char>>) -> SessionModel {
    SessionModel {
        retained: true,
        closed: false,
        expired: false,
        lease_expires_ms: lease,
        error,
    }
}

fn unkept(closed: bool, error: String) -> (r: SessionDisposition)
    ensures
        r@ == not_kept(closed, error@),
{
    SessionDisposition {
        retained: false,
        closed,
        expired: false,
        lease_expires_ms: None,
        error: Some(error),
    }
}

/// The end of keeping a page whose verification failed for now.
pub open spec fn transient_end(error: Seq<char>, leased: Result<Option<u64>, String>) -> SessionModel {
    match leased {
        Ok(lease) => kept(
            lease,
            Some("browser verification temporarily failed; retained for retry: "@ + error),
        ),
        Err(m) => not_kept(
            false,
            "browser verification temporarily failed and retained-session lease could not be refreshed; scope/tab preserved: "@
                + error + "; lease error: "@ + m@,
        ),
    }
}

/// The end of keeping a page that is gone for good.
pub open spec fn gone_end(error: Seq<char>, closed: Result<(), String>) -> SessionModel {
    match closed {
        Ok(_) => not_kept(true, "terminal browser page is definitively unavailable: "@ + error),
        Err(m) => not_kept(
            false,
            "terminal browser page is definitively unavailable: "@ + error
                + "; tab close also failed: "@ + m@,
        ),
    }
}

/// The end of keeping a page that is there.
pub open spec fn lease_end(leased: Result<Option<u64>, String>) -> SessionModel {
    match leased {
        Ok(lease) => kept(lease, None),
        Err(m) => not_kept(
            false,
            "failed to persist retained-session lease; scope/tab preserved for recovery: "@ + m@,
        ),
    }
}

/// A page is kept once its scope is locked and resolved and the page is verified, or
/// cannot be verified just now. Only a page that is gone for good is given up.
pub open spec fn retain_next(has_page: bool, seen: RetainSeen) -> RetainModel {
    if !has_page {
        RetainModel::Done(not_kept(false, "cannot retain delegation without browser_page_id"@))
    } else {
        match seen.locked {
            None => RetainModel::Lock,
            Some(Err(m)) => RetainModel::Done(
                not_kept(false, "cannot lock retained scope: "@ + m@),
            ),
            Some(Ok(_)) => match seen.resolved {
                None => RetainModel::Resolve,
                Some(Err(m)) => RetainModel::Done(
                    not_kept(false, "cannot resolve retained scope: "@ + m@),
                ),
                Some(Ok(_)) => match seen.verified {
                    None => RetainModel::Verify,
                    Some(Ok(_)) => match seen.leased {
                        None => RetainModel::Lease,
                        Some(l) => RetainModel::Done(lease_end(l)),
                    },
                    Some(Err(e)) => if is_definitive_failure(e@) {
                        match seen.closed {
                            None => RetainModel::Abandon,
                            Some(c) => RetainModel::Done(gone_end(e@, c)),
                        }
                    } else {
                        match seen.leased {
                            None => RetainModel::Lease,
                            Some(l) => RetainModel::Done(transient_end(e@, l)),
                        }
                    },
                },
            },
        }
    }
}

fn end_of_lease(leased: &Result<Option<u64>, String>) -> (r: SessionDisposition)
    ensures
        r@ == lease_end(*leased),
{
    match leased {
        Ok(lease) => SessionDisposition {
            retained: true,
            closed: false,
            expired: false,
            lease_expires_ms: *lease,
            error: None,
        },
        Err(m) => unkept(
            false,
            "failed to persist retained-session lease; scope/tab preserved for recovery: ".to_owned().concat(
            m.as_str()),
        ),
    }
}

fn end_of_transient(error: &str, leased: &Result<Option<u64>, String>) -> (r: SessionDisposition)
    ensures
        r@ == transient_end(error@, *leased),
{
    match leased {
        Ok(lease) => SessionDisposition {
            retained: true,
            closed: false,
            expired: false,
            lease_expires_ms: *lease,
            error: Some(
                "browser verification temporarily failed; retained for retry: ".to_owned().concat(
                    error,
                ),
            ),
        },
        Err(m) => unkept(
            false,
            "browser verification temporarily failed and retained-session lease could not be refreshed; scope/tab preserved: ".to_owned().concat(
            error).concat("; lease error: ").concat(m.as_str()),
        ),
    }
}

fn end_of_gone(error: &str, closed: &Result<(), String>) -> (r: SessionDisposition)
    ensures
        r@ == gone_end(error@, *closed),
{
    let text = "terminal browser page is definitively unavailable: ".to_owned().concat(error);
    match closed {
        Ok(_) => unkept(true, text),
        Err(m) => unkept(false, text.concat("; tab close also failed: ").concat(m.as_str())),
    }
}

/// Decides what is done next to keep the page of a worker whose task ended.
pub fn retain_terminal_session(item: &StagedDelegation, seen: &RetainSeen) -> (r: RetainStep)
    ensures
        r@ == retain_next(item.browser_page_id is Some, *seen),
{
    if item.browser_page_id.is_none() {
        return RetainStep::Done(
            unkept(false, "cannot retain delegation without browser_page_id".to_owned()),
        );
    }
    match &seen.locked {
        None => {
            return RetainStep::Lock;
        },
        Some(Err(m)) => {
            return RetainStep::Done(
                unkept(false, "cannot lock retained scope: ".to_owned().concat(m.as_str())),
            );
        },
        Some(Ok(_)) => {},
    }
    match &seen.resolved {
        None => {
            return RetainStep::Resolve;
        },
        Some(Err(m)) => {
            return RetainStep::Done(
                unkept(false, "cannot resolve retained scope: ".to_owned().concat(m.as_str())),
            );
        },
        Some(Ok(_)) => {},
    }
    match &seen.verified {
        None => RetainStep::Verify,
        Some(Ok(_)) => match &seen.leased {
            None => RetainStep::Lease,
            Some(l) => RetainStep::Done(end_of_lease(l)),
        },
        Some(Err(e)) => if browser_verify_failure_is_definitive(e.as_str()) {
            match &seen.closed {
                None => RetainStep::Abandon,
                Some(c) => RetainStep::Done(end_of_gone(e.as_str(), c)),
            }
        } else {
            match &seen.leased {
                None => RetainStep::Lease,
                Some(l) => RetainStep::Done(end_of_transient(e.as_str(), l)),
            }
        },
    }
}

/// A page that may still be there is never given up: only a verification that says that
/// the page is gone for good leads to closing it.
pub proof fn lemma_only_gone_pages_are_abandoned(has_page: bool, seen: RetainSeen)
    ensures
        retain_next(has_page, seen) is Abandon ==> (seen.verified matches Some(Err(e))
            && is_definitive_failure(e@)),
        retain_next(has_page, seen) matches RetainModel::Done(d) && d.closed ==> (
        seen.verified matches Some(Err(e)) && is_definitive_failure(e@)),
{
}

/// What became of a page that was closed after the end of its worker's task.
pub open spec fn closed_end(closed: Result<(), String>, removed: Result<(), String>) -> SessionModel {
    SessionModel {
        retained: false,
        closed: closed is Ok,
        expired: false,
        lease_expires_ms: None,
        error: match (closed, removed) {
            (Ok(_), Ok(_)) => None,
            (Err(c), Ok(_)) => Some("browser tab close failed: "@ + c@),
            (Ok(_), Err(x)) => Some("scope cleanup failed: "@ + x@),
            (Err(c), Err(x)) => Some(
                "browser tab close failed: "@ + c@ + "; scope cleanup failed: "@ + x@,
            ),
        },
    }
}

/// What became of a page that was closed after the end of its worker's task, from
/// closing the page and unregistering the scope.
pub fn close_terminal_session(closed: &Result<(), String>, removed: &Result<(), String>) -> (r:
    SessionDisposition)
    ensures
        r@ == closed_end(*closed, *removed),
{
    let error = match closed {
        Ok(_) => match removed {
            Ok(_) => None,
            Err(x) => Some("scope cleanup failed: ".to_owned().concat(x.as_str())),
        },
        Err(c) => {
            let text = "browser tab close failed: ".to_owned().concat(c.as_str());
            match removed {
                Ok(_) => Some(text),
                Err(x) => Some(text.concat("; scope cleanup failed: ").concat(x.as_str())),
            }
        },
    };
    SessionDisposition {
        retained: false,
        closed: closed.is_ok(),
        expired: false,
        lease_expires_ms: None,
        error,
    }
}

/// What is known so far while a kept page is being closed.
#[derive(Debug)]
pub struct CloseSeen {
    pub locked: Option<Result<(), String>>,
    pub record: Option<LifecycleSeen>,
    pub closed: Option<Result<(), String>>,
    /// Ending the lease.
    pub released: Option<Result<(), String>>,
    /// Unregistering the scope.
    pub removed: Option<Result<(), String>>,
}

/// What is done next to close a kept page.
#[derive(Debug)]
pub enum CloseStep {
    Lock,
    ReadRecord,
    ClosePage(Option<BrowserBinding>, String),
    Release,
    Remove,
    Done(Json),
    Failed(String),
}

/// The mathematical value of a [`CloseStep`].
pub enum CloseModel {
    Lock,
    ReadRecord,
    ClosePage(Option<BindingModel>, Seq<char>),
    Release,
    Remove,
    Done(JsonModel),
    Failed(Seq<char>),
}

impl View for CloseStep {
    type V = CloseModel;

    open spec fn view(&self) -> CloseModel {
        match *self {
            CloseStep::Lock => CloseModel::Lock,
            CloseStep::ReadRecord => CloseModel::ReadRecord,
            CloseStep::ClosePage(b, p) => CloseModel::ClosePage(opt_binding(b), p@),
            CloseStep::Release => CloseModel::Release,
            CloseStep::Remove => CloseModel::Remove,
            CloseStep::Done(v) => CloseModel::Done(v.model()),
            CloseStep::Failed(m) => CloseModel::Failed(m@),
        }
    }
}

/// What is reported of a kept page that was, or was not, closed.
pub open spec fn close_json(
    scope_id: Seq<char>,
    page: Seq<char>,
    generation: u64,
    error: Option<Seq<char>>,
) -> JsonModel {
    let ok = error is None;
    JsonModel::Object(
        seq![
            ("ok"@, JsonModel::Bool(ok)),
            ("closed_scope"@, JsonModel::Text(scope_id)),
            ("browser_page_id"@, JsonModel::Text(page)),
            ("generation"@, JsonModel::Unsigned(generation)),
            ("scope_removed"@, JsonModel::Bool(ok)),
            (
                "session_state"@,
                JsonModel::Text(
                    if ok {
                        "CLOSED"@
                    } else {
                        "RETAINED_CLOSE_FAILED"@
                    },
                ),
            ),
            ("session_retained"@, JsonModel::Bool(!ok)),
            ("session_closed"@, JsonModel::Bool(ok)),
            ("session_error"@, crate::json::text_or_null(error)),
        ],
    )
}

/// A kept page is closed before its lease ends and its scope is unregistered; where it
/// cannot be closed, it stays kept.
pub open spec fn close_next(mux: WorkspaceMux, scope_id: Seq<char>, seen: CloseSeen) -> CloseModel {
    match seen.locked {
        None => CloseModel::Lock,
        Some(Err(m)) => CloseModel::Failed(m@),
        Some(Ok(_)) => match seen.record {
            None => CloseModel::ReadRecord,
            Some(record) => match resumable_fault(mux, scope_id, record) {
                Some(m) => CloseModel::Failed(m),
                None => {
                    let scope = mux.found(scope_id)->Ok_0;
                    let generation = record->Found_0.generation;
                    match scope.browser_page_id {
                        None => CloseModel::Failed("retained scope has no browser_page_id"@),
                        Some(page) => match seen.closed {
                            None => CloseModel::ClosePage(scope.browser, page),
                            Some(Err(m)) => CloseModel::Done(
                                close_json(scope_id, page, generation, Some(m@)),
                            ),
                            Some(Ok(_)) => match seen.released {
                                None => CloseModel::Release,
                                Some(Err(m)) => CloseModel::Failed(m@),
                                Some(Ok(_)) => match seen.removed {
                                    None => CloseModel::Remove,
                                    Some(Err(m)) => CloseModel::Failed(m@),
                                    Some(Ok(_)) => CloseModel::Done(
                                        close_json(scope_id, page, generation, None),
                                    ),
                                },
                            },
                        },
                    }
                },
            },
        },
    }
}

fn close_value(scope_id: &str, page: &str, generation: u64, error: &Option<String>) -> (r: Json)
    ensures
        r.model() == close_json(scope_id@, page@, generation, opt_text(*error)),
{
    let ok = error.is_none();
    let state = if ok {
        "CLOSED"
    } else {
        "RETAINED_CLOSE_FAILED"
    };
    let mut f = no_fields();
    put(&mut f, "ok", Json::Bool(ok));
    put(&mut f, "closed_scope", Json::text(scope_id));
    put(&mut f, "browser_page_id", Json::text(page));
    put(&mut f, "generation", Json::Unsigned(generation));
    put(&mut f, "scope_removed", Json::Bool(ok));
    put(&mut f, "session_state", Json::text(state));
    put(&mut f, "session_retained", Json::Bool(!ok));
    put(&mut f, "session_closed", Json::Bool(ok));
    put(&mut f, "session_error", Json::opt_text(error));
    assert(field_models(f@) =~= close_json(
        scope_id@,
        page@,
        generation,
        opt_text(*error),
    )->Object_0);
    Json::Object(f)
}

/// Decides what is done next to close the kept page of a scope.
pub fn close_retained_scope(mux: &WorkspaceMux, scope_id: &str, seen: &CloseSeen) -> (r: CloseStep)
    ensures
        r@ == close_next(*mux, scope_id@, *seen),
{
    match &seen.locked {
        None => {
            return CloseStep::Lock;
        },
        Some(Err(m)) => {
            return CloseStep::Failed(m.clone());
        },
        Some(Ok(_)) => {},
    }
    let record = match &seen.record {
        None => {
            return CloseStep::ReadRecord;
        },
        Some(x) => x,
    };
    let (scope, lifecycle) = match load_resumable_scope(mux, scope_id, record) {
        Ok(x) => x,
        Err(m) => {
            return CloseStep::Failed(m);
        },
    };
    let page = match &scope.browser_page_id {
        None => {
            return CloseStep::Failed("retained scope has no browser_page_id".to_owned());
        },
        Some(p) => p.clone(),
    };
    match &seen.closed {
        None => {
            return CloseStep::ClosePage(copy_binding(&scope.browser), page);
        },
        Some(Err(m)) => {
            return CloseStep::Done(
                close_value(scope_id, page.as_str(), lifecycle.generation, &Some(m.clone())),
            );
        },
        Some(Ok(_)) => {},
    }
    match &seen.released {
        None => {
            return CloseStep::Release;
        },
        Some(Err(m)) => {
            return CloseStep::Failed(m.clone());
        },
        Some(Ok(_)) => {},
    }
    match &seen.removed {
        None => CloseStep::Remove,
        Some(Err(m)) => CloseStep::Failed(m.clone()),
        Some(Ok(_)) => CloseStep::Done(
            close_value(scope_id, page.as_str(), lifecycle.generation, &None),
        ),
    }
}

/// A scope is unregistered only after its page was closed.
pub proof fn lemma_close_before_remove(mux: WorkspaceMux, scope_id: Seq<char>, seen: CloseSeen)
    ensures
        close_next(mux, scope_id, seen) is Release || close_next(mux, scope_id, seen) is Remove
            ==> (seen.closed matches Some(Ok(_))),
{
}

/// The line for people on a kept page that was closed.
pub fn close_line(scope_id: &str, page: &Option<String>) -> (r: String)
    ensures
        r@ == "Closed retained Web scope "@ + scope_id@ + " page="@ + (match opt_text(*page) {
            Some(p) => p,
            None => "<missing>"@,
        }),
{
    let shown = match page {
        Some(p) => p.clone(),
        None => "<missing>".to_owned(),
    };
    "Closed retained Web scope ".to_owned().concat(scope_id).concat(" page=").concat(
        shown.as_str(),
    )
}

} // verus!
