//! What is on record about a delegation: its generations, its readiness and its end.
use crate::json::{field_models, no_fields, number_or_null, put, text_or_null, Json, JsonModel};
use crate::text::opt_text;
use vstd::prelude::*;

verus! {

/// How the work of a generation ended.
#[derive(Clone, Copy, Debug, PartialEq, Eq, Structural)]
pub enum DelegationTerminalState {
    Completed,
    Blocked,
    Failed,
    Lost,
}

/// The name of an end in records and results.
pub open spec fn terminal_name(state: DelegationTerminalState) -> Seq<char> {
    match state {
        DelegationTerminalState::Completed => "COMPLETED"@,
        DelegationTerminalState::Blocked => "BLOCKED"@,
        DelegationTerminalState::Failed => "FAILED"@,
        DelegationTerminalState::Lost => "LOST"@,
    }
}

/// The word for an end in messages.
pub open spec fn terminal_word(state: DelegationTerminalState) -> Seq<char> {
    match state {
        DelegationTerminalState::Completed => "Completed"@,
        DelegationTerminalState::Blocked => "Blocked"@,
        DelegationTerminalState::Failed => "Failed"@,
        DelegationTerminalState::Lost => "Lost"@,
    }
}

impl DelegationTerminalState {
    /// The name of the end in records and results.
    pub fn name(self) -> (r: &'static str)
        ensures
            r@ == terminal_name(self),
    {
        match self {
            DelegationTerminalState::Completed => "COMPLETED",
            DelegationTerminalState::Blocked => "BLOCKED",
            DelegationTerminalState::Failed => "FAILED",
            DelegationTerminalState::Lost => "LOST",
        }
    }

    /// The word for the end in messages.
    pub fn word(self) -> (r: &'static str)
        ensures
            r@ == terminal_word(self),
    {
        match self {
            DelegationTerminalState::Completed => "Completed",
            DelegationTerminalState::Blocked => "Blocked",
            DelegationTerminalState::Failed => "Failed",
            DelegationTerminalState::Lost => "Lost",
        }
    }
}

/// An optional end as JSON.
pub open spec fn terminal_or_null(state: Option<DelegationTerminalState>) -> JsonModel {
    match state {
        Some(s) => JsonModel::Text(terminal_name(s)),
        None => JsonModel::Null,
    }
}

/// An optional end as JSON.
pub fn terminal_json(state: Option<DelegationTerminalState>) -> (r: Json)
    ensures
        r.model() == terminal_or_null(state),
{
    match state {
        Some(s) => Json::text(s.name()),
        None => Json::Null,
    }
}

/// The record of a delegation.
#[derive(Debug)]
pub struct DelegationLifecycle {
    pub scope_id: String,
    /// Counts the tasks that the delegation has been given; the first is 1.
    pub generation: u64,
    pub generation_started_ms: u64,
    /// When the worker last showed that it is ready.
    pub ready_ms: Option<u64>,
    pub terminal_state: Option<DelegationTerminalState>,
    pub terminal_detail: Option<String>,
    pub terminal_ms: Option<u64>,
    /// Whether the worker's page is kept for another task.
    pub session_retained: bool,
    pub lease_expires_ms: Option<u64>,
}

impl Clone for DelegationLifecycle {
    fn clone(&self) -> (r: Self)
        ensures
            r == *self,
    {
        DelegationLifecycle {
            scope_id: self.scope_id.clone(),
            generation: self.generation,
            generation_started_ms: self.generation_started_ms,
            ready_ms: self.ready_ms,
            terminal_state: self.terminal_state,
            terminal_detail: self.terminal_detail.clone(),
            terminal_ms: self.terminal_ms,
            session_retained: self.session_retained,
            lease_expires_ms: self.lease_expires_ms,
        }
    }
}

/// The JSON of a record.
pub open spec fn lifecycle_json(l: DelegationLifecycle) -> JsonModel {
    JsonModel::Object(
        seq![
            ("scope_id"@, JsonModel::Text(l.scope_id@)),
            ("generation"@, JsonModel::Unsigned(l.generation)),
            ("generation_started_ms"@, JsonModel::Unsigned(l.generation_started_ms)),
            ("ready_ms"@, number_or_null(l.ready_ms)),
            ("terminal_state"@, terminal_or_null(l.terminal_state)),
            ("terminal_detail"@, text_or_null(opt_text(l.terminal_detail))),
            ("terminal_ms"@, number_or_null(l.terminal_ms)),
            ("session_retained"@, JsonModel::Bool(l.session_retained)),
            ("lease_expires_ms"@, number_or_null(l.lease_expires_ms)),
        ],
    )
}

impl DelegationLifecycle {
    /// The record as JSON.
    pub fn to_json(&self) -> (r: Json)
        ensures
            r.model() == lifecycle_json(*self),
    {
        let mut f = no_fields();
        put(&mut f, "scope_id", Json::text(self.scope_id.as_str()));
        put(&mut f, "generation", Json::Unsigned(self.generation));
        put(&mut f, "generation_started_ms", Json::Unsigned(self.generation_started_ms));
        put(&mut f, "ready_ms", Json::opt_number(self.ready_ms));
        put(&mut f, "terminal_state", terminal_json(self.terminal_state));
        put(&mut f, "terminal_detail", Json::opt_text(&self.terminal_detail));
        put(&mut f, "terminal_ms", Json::opt_number(self.terminal_ms));
        put(&mut f, "session_retained", Json::Bool(self.session_retained));
        put(&mut f, "lease_expires_ms", Json::opt_number(self.lease_expires_ms));
        assert(field_models(f@) =~= lifecycle_json(*self)->Object_0);
        Json::Object(f)
    }
}

/// What a look at the record of a delegation found.
#[derive(Debug)]
pub enum LifecycleSeen {
    /// The workspace of the scope cannot be resolved, for this reason.
    Unresolved(String),
    /// The record cannot be read, for this reason.
    Unreadable(String),
    /// There is no record.
    Absent,
    Found(DelegationLifecycle),
}

} // verus!
