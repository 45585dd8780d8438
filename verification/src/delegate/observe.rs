//! Looking at delegations without touching their workers.
use crate::delegate::control::OBSERVE_SCOPE_TIMEOUT_SECS;
use crate::delegate::report::{copy_json, opt_json, ObservationModel, SessionDisposition,
    StagedDelegation, StagedModel, TerminalObservation};
use crate::json::Json;
use crate::security::workspace::{copy_binding, ScopeModel, WorkspaceMux, WorkspaceScope};
use crate::task_state::{DelegationLifecycle, LifecycleSeen};
use crate::text::{copy_opt, decimal, decimal_of, opt_text};
use vstd::prelude::*;

verus! {

/// The owned text of an optional reference.
pub fn owned(o: Option<&str>) -> (r: Option<String>)
    ensures
        opt_text(r) == (match o {
            Some(s) => Some(s@),
            None => None,
        }),
{
    match o {
        Some(s) => Some(s.to_owned()),
        None => None,
    }
}

/// Why there is no record of a scope.
pub open spec fn record_fault(
    mux: WorkspaceMux,
    scope_id: Seq<char>,
    seen: LifecycleSeen,
    absent: Seq<char>,
) -> Option<Seq<char>> {
    match mux.found(scope_id) {
        Err(f) => Some(f.text()),
        Ok(_) => match seen {
            LifecycleSeen::Unresolved(m) => Some(m@),
            LifecycleSeen::Unreadable(m) => Some(m@),
            LifecycleSeen::Absent => Some(absent),
            LifecycleSeen::Found(_) => None,
        },
    }
}

/// A scope and its record.
fn scope_record(mux: &WorkspaceMux, scope_id: &str, seen: &LifecycleSeen, absent: String) -> (r:
    Result<(WorkspaceScope, DelegationLifecycle), String>)
    ensures
        match r {
            Ok((s, l)) => {
                &&& mux.found(scope_id@) == Ok::<ScopeModel, crate::error::Fault>(s@)
                &&& *seen == LifecycleSeen::Found(l)
            },
            Err(e) => record_fault(*mux, scope_id@, *seen, absent@) == Some(e@),
        },
{
    let scope = match mux.lookup(scope_id) {
        Ok(s) => s,
        Err(e) => {
            return Err(e.message());
        },
    };
    match seen {
        LifecycleSeen::Unresolved(m) => Err(m.clone()),
        LifecycleSeen::Unreadable(m) => Err(m.clone()),
        LifecycleSeen::Absent => Err(absent),
        LifecycleSeen::Found(l) => Ok((scope, l.clone())),
    }
}

pub open spec fn no_evidence(scope_id: Seq<char>) -> Seq<char> {
    "scope "@ + scope_id + " has no delegation lifecycle evidence"@
}

/// Why the end of a delegation cannot be reported.
pub open spec fn report_fault(
    mux: WorkspaceMux,
    scope_id: Seq<char>,
    seen: LifecycleSeen,
    result: Result<Option<Json>, String>,
) -> Option<Seq<char>> {
    if record_fault(mux, scope_id, seen, no_evidence(scope_id)) is Some {
        record_fault(mux, scope_id, seen, no_evidence(scope_id))
    } else if seen->Found_0.terminal_state is None {
        Some("scope "@ + scope_id + " is not terminal and cannot be reported"@)
    } else {
        match result {
            Err(m) => Some(m@),
            Ok(None) => Some("scope "@ + scope_id + " has no structured task result"@),
            Ok(Some(_)) => None,
        }
    }
}

/// The worker of a delegation that is only reported.
pub open spec fn reported_worker(scope: ScopeModel, l: DelegationLifecycle) -> StagedModel {
    StagedModel {
        scope_id: scope.scope_id,
        workspace: scope.workspace,
        label: None,
        browser_page_id: scope.page(),
        browser_binding: scope.browser,
        pooled: false,
        account_id: scope.account(),
        browser_instance: scope.instance(),
        routed: false,
        route_reservation: None,
        generation: l.generation,
        generation_started_ms: l.generation_started_ms,
        resumed: false,
        bootstrap_prompt: None,
        task_prompt: None,
    }
}

/// Reports the end of a delegation from its record. `result` is what the worker handed
/// in for the generation of the record.
pub fn report_terminal_scope(
    mux: &WorkspaceMux,
    scope_id: &str,
    seen: &LifecycleSeen,
    result: &Result<Option<Json>, String>,
) -> (r: Result<(StagedDelegation, TerminalObservation, SessionDisposition), String>)
    ensures
        match r {
            Ok((item, end, session)) => {
                let l = seen->Found_0;
                &&& report_fault(*mux, scope_id@, *seen, *result) is None
                &&& item@ == reported_worker(mux.found(scope_id@)->Ok_0, l)
                &&& end@ == (ObservationModel {
                    state: l.terminal_state->0,
                    detail: opt_text(l.terminal_detail),
                    terminal_ms: l.terminal_ms,
                    task_result: opt_json(result->Ok_0),
                })
                &&& session == (SessionDisposition {
                    retained: l.session_retained,
                    closed: false,
                    expired: false,
                    lease_expires_ms: l.lease_expires_ms,
                    error: None,
                })
            },
            Err(e) => report_fault(*mux, scope_id@, *seen, *result) == Some(e@),
        },
{
    let absent = "scope ".to_owned().concat(scope_id).concat(
        " has no delegation lifecycle evidence",
    );
    let (scope, l) = match scope_record(mux, scope_id, seen, absent) {
        Ok(x) => x,
        Err(e) => {
            return Err(e);
        },
    };
    let state = match l.terminal_state {
        Some(s) => s,
        None => {
            return Err(
                "scope ".to_owned().concat(scope_id).concat(
                    " is not terminal and cannot be reported",
                ),
            );
        },
    };
    let task_result = match result {
        Err(m) => {
            return Err(m.clone());
        },
        Ok(o) => {
            if o.is_none() {
                return Err(
                    "scope ".to_owned().concat(scope_id).concat(" has no structured task result"),
                );
            }
            copy_json(o)
        },
    };
    let item = StagedDelegation {
        scope_id: scope.scope_id.clone(),
        workspace: scope.workspace.clone(),
        label: None,
        browser_page_id: owned(scope.page_id()),
        browser_binding: copy_binding(&scope.browser),
        pooled: false,
        account_id: scope.account_id().to_owned(),
        browser_instance: owned(scope.browser_instance()),
        routed: false,
        route_reservation: None,
        generation: l.generation,
        generation_started_ms: l.generation_started_ms,
        resumed: false,
        bootstrap_prompt: None,
        task_prompt: None,
    };
    let end = TerminalObservation {
        state,
        detail: copy_opt(&l.terminal_detail),
        terminal_ms: l.terminal_ms,
        task_result,
    };
    let session = SessionDisposition {
        retained: l.session_retained,
        closed: false,
        expired: false,
        lease_expires_ms: l.lease_expires_ms,
        error: None,
    };
    Ok((item, end, session))
}

/// What an observer of a delegation does next.
#[derive(Debug)]
pub enum ObserveStep {
    /// The end is on record and is reported.
    Report,
    /// Look again after a pause.
    Wait,
    Failed(String),
}

/// The mathematical value of an [`ObserveStep`].
pub enum ObserveModel {
    Report,
    Wait,
    Failed(Seq<char>),
}

impl View for ObserveStep {
    type V = ObserveModel;

    open spec fn view(&self) -> ObserveModel {
        match *self {
            ObserveStep::Report => ObserveModel::Report,
            ObserveStep::Wait => ObserveModel::Wait,
            ObserveStep::Failed(m) => ObserveModel::Failed(m@),
        }
    }
}

/// An observer reports an end once it is on record, and gives up at its deadline; the
/// delegation is left alone.
pub open spec fn observation_step(
    mux: WorkspaceMux,
    scope_id: Seq<char>,
    seen: LifecycleSeen,
    past_deadline: bool,
) -> ObserveModel {
    if record_fault(mux, scope_id, seen, no_evidence(scope_id)) is Some {
        ObserveModel::Failed(record_fault(mux, scope_id, seen, no_evidence(scope_id))->0)
    } else if seen->Found_0.terminal_state is Some {
        ObserveModel::Report
    } else if past_deadline {
        ObserveModel::Failed(
            "timed out observing nonterminal scope "@ + scope_id + " after "@ + decimal(
                OBSERVE_SCOPE_TIMEOUT_SECS as nat,
            )
                + " seconds; scope/session preserved for later --observe-scope or --report-scope"@,
        )
    } else {
        ObserveModel::Wait
    }
}

/// Decides what an observer of a delegation does next.
pub fn observe_terminal_scope(
    mux: &WorkspaceMux,
    scope_id: &str,
    seen: &LifecycleSeen,
    past_deadline: bool,
) -> (r: ObserveStep)
    ensures
        r@ == observation_step(*mux, scope_id@, *seen, past_deadline),
{
    let absent = "scope ".to_owned().concat(scope_id).concat(
        " has no delegation lifecycle evidence",
    );
    match scope_record(mux, scope_id, seen, absent) {
        Err(e) => ObserveStep::Failed(e),
        Ok((_, l)) => if l.terminal_state.is_some() {
            ObserveStep::Report
        } else if past_deadline {
            ObserveStep::Failed(
                "timed out observing nonterminal scope ".to_owned().concat(scope_id).concat(
                    " after ",
                ).concat(decimal_of(OBSERVE_SCOPE_TIMEOUT_SECS).as_str()).concat(
                    " seconds; scope/session preserved for later --observe-scope or --report-scope",
                ),
            )
        } else {
            ObserveStep::Wait
        },
    }
}

pub const NO_RETAINED_EVIDENCE: &'static str =
    "retained scope has no delegation lifecycle evidence";

/// Why no further task can be handed to the worker of a scope.
pub open spec fn resumable_fault(mux: WorkspaceMux, scope_id: Seq<char>, seen: LifecycleSeen) -> Option<
    Seq<char>,
> {
    if record_fault(mux, scope_id, seen, NO_RETAINED_EVIDENCE@) is Some {
        record_fault(mux, scope_id, seen, NO_RETAINED_EVIDENCE@)
    } else if !seen->Found_0.session_retained {
        Some(
            "scope "@ + scope_id + " is not retained/resumable or its lease has been released"@,
        )
    } else if seen->Found_0.terminal_state is None {
        Some(
            "scope "@ + scope_id + " is not terminal yet and cannot be resumed concurrently"@,
        )
    } else {
        None
    }
}

/// A scope whose worker ended its task and is kept for another, with its record.
pub fn load_resumable_scope(mux: &WorkspaceMux, scope_id: &str, seen: &LifecycleSeen) -> (r: Result<
    (WorkspaceScope, DelegationLifecycle),
    String,
>)
    ensures
        match r {
            Ok((s, l)) => {
                &&& resumable_fault(*mux, scope_id@, *seen) is None
                &&& mux.found(scope_id@) == Ok::<ScopeModel, crate::error::Fault>(s@)
                &&& *seen == LifecycleSeen::Found(l)
            },
            Err(e) => resumable_fault(*mux, scope_id@, *seen) == Some(e@),
        },
{
    let (scope, l) = match scope_record(mux, scope_id, seen, NO_RETAINED_EVIDENCE.to_owned()) {
        Ok(x) => x,
        Err(e) => {
            return Err(e);
        },
    };
    if !l.session_retained {
        return Err(
            "scope ".to_owned().concat(scope_id).concat(
                " is not retained/resumable or its lease has been released",
            ),
        );
    }
    if l.terminal_state.is_none() {
        return Err(
            "scope ".to_owned().concat(scope_id).concat(
                " is not terminal yet and cannot be resumed concurrently",
            ),
        );
    }
    Ok((scope, l))
}

/// What is reported of a delegation is what its record says: nothing can be reported
/// before the end is on record, and an observer reports as soon as it is.
pub proof fn lemma_report_needs_end(
    mux: WorkspaceMux,
    scope_id: Seq<char>,
    seen: LifecycleSeen,
    result: Result<Option<Json>, String>,
    past_deadline: bool,
)
    ensures
        report_fault(mux, scope_id, seen, result) is None ==> observation_step(
            mux,
            scope_id,
            seen,
            past_deadline,
        ) is Report,
        observation_step(mux, scope_id, seen, past_deadline) is Report && (result matches Ok(Some(_)))
            ==> report_fault(mux, scope_id, seen, result) is None,
{
}

/// No delegation can be resumed and observed as unfinished at once: a worker gets a
/// further task only after the end of the one before.
pub proof fn lemma_resume_needs_end(
    mux: WorkspaceMux,
    scope_id: Seq<char>,
    seen: LifecycleSeen,
    past_deadline: bool,
)
    requires
        resumable_fault(mux, scope_id, seen) is None,
    ensures
        observation_step(mux, scope_id, seen, past_deadline) is Report,
{
}

} // verus!
