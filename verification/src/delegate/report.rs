//! What becomes known of delegations: staged workers, their ends, and the results that
//! a caller gets.
use crate::delegate::control::DelegateOptions;
use crate::fresh_dispatch::FreshDispatchClaim;
use crate::json::{append_value, field_models, models, no_fields, no_values, number_or_null, or_null,
    put, text_or_null, Json, JsonField, JsonModel};
use crate::router::RouteReservation;
use crate::security::workspace::{opt_binding, BindingModel, BrowserBinding, ScopeModel,
    WorkspaceMux, WorkspaceScope};
use crate::shelf::{find_slot, slot_value, Slot};
use crate::task_state::{lifecycle_json, terminal_json, terminal_name, terminal_or_null,
    DelegationLifecycle, DelegationTerminalState, LifecycleSeen};
use crate::text::{copy_opt, decimal, decimal_of, join, joined, opt_text, push_text, texts};
use vstd::prelude::*;

verus! {

/// A worker that has a scope and is about to get, or has got, its task.
#[derive(Debug)]
pub struct StagedDelegation {
    pub scope_id: String,
    pub workspace: String,
    pub label: Option<String>,
    pub browser_page_id: Option<String>,
    pub browser_binding: Option<BrowserBinding>,
    /// Whether the page is reached through the browsers of the accounts.
    pub pooled: bool,
    pub account_id: String,
    pub browser_instance: Option<String>,
    /// Whether the account's state is kept by the account router.
    pub routed: bool,
    pub route_reservation: Option<RouteReservation>,
    pub generation: u64,
    pub generation_started_ms: u64,
    pub resumed: bool,
    pub bootstrap_prompt: Option<String>,
    pub task_prompt: Option<String>,
}

/// The mathematical value of a [`StagedDelegation`].
pub struct StagedModel {
    pub scope_id: Seq<char>,
    pub workspace: Seq<char>,
    pub label: Option<Seq<char>>,
    pub browser_page_id: Option<Seq<char>>,
    pub browser_binding: Option<BindingModel>,
    pub pooled: bool,
    pub account_id: Seq<char>,
    pub browser_instance: Option<Seq<char>>,
    pub routed: bool,
    pub route_reservation: Option<RouteReservation>,
    pub generation: u64,
    pub generation_started_ms: u64,
    pub resumed: bool,
    pub bootstrap_prompt: Option<Seq<char>>,
    pub task_prompt: Option<Seq<char>>,
}

impl View for StagedDelegation {
    type V = StagedModel;

    open spec fn view(&self) -> StagedModel {
        StagedModel {
            scope_id: self.scope_id@,
            workspace: self.workspace@,
            label: opt_text(self.label),
            browser_page_id: opt_text(self.browser_page_id),
            browser_binding: opt_binding(self.browser_binding),
            pooled: self.pooled,
            account_id: self.account_id@,
            browser_instance: opt_text(self.browser_instance),
            routed: self.routed,
            route_reservation: self.route_reservation,
            generation: self.generation,
            generation_started_ms: self.generation_started_ms,
            resumed: self.resumed,
            bootstrap_prompt: opt_text(self.bootstrap_prompt),
            task_prompt: opt_text(self.task_prompt),
        }
    }
}

/// The end of a worker's task, as far as it is known.
#[derive(Debug)]
pub struct TerminalObservation {
    pub state: DelegationTerminalState,
    pub detail: Option<String>,
    pub terminal_ms: Option<u64>,
    /// The result that the worker handed in.
    pub task_result: Option<Json>,
}

/// The mathematical value of a [`TerminalObservation`].
pub struct ObservationModel {
    pub state: DelegationTerminalState,
    pub detail: Option<Seq<char>>,
    pub terminal_ms: Option<u64>,
    pub task_result: Option<JsonModel>,
}

/// The value of an optional JSON.
pub open spec fn opt_json(o: Option<Json>) -> Option<JsonModel> {
    match o {
        Some(v) => Some(v.model()),
        None => None,
    }
}

impl View for TerminalObservation {
    type V = ObservationModel;

    open spec fn view(&self) -> ObservationModel {
        ObservationModel {
            state: self.state,
            detail: opt_text(self.detail),
            terminal_ms: self.terminal_ms,
            task_result: opt_json(self.task_result),
        }
    }
}

impl TerminalObservation {
    /// An observation with the same value.
    pub fn copy(&self) -> (r: Self)
        ensures
            r@ == self@,
    {
        TerminalObservation {
            state: self.state,
            detail: copy_opt(&self.detail),
            terminal_ms: self.terminal_ms,
            task_result: copy_json(&self.task_result),
        }
    }
}

/// A copy of an optional JSON value.
pub fn copy_json(o: &Option<Json>) -> (r: Option<Json>)
    ensures
        opt_json(r) == opt_json(*o),
{
    match o {
        Some(v) => Some(v.copy()),
        None => None,
    }
}

/// What became of a worker's page after the end of its task.
#[derive(Debug)]
pub struct SessionDisposition {
    pub retained: bool,
    pub closed: bool,
    pub expired: bool,
    pub lease_expires_ms: Option<u64>,
    pub error: Option<String>,
}

/// The mathematical value of a [`SessionDisposition`].
pub struct SessionModel {
    pub retained: bool,
    pub closed: bool,
    pub expired: bool,
    pub lease_expires_ms: Option<u64>,
    pub error: Option<Seq<char>>,
}

impl View for SessionDisposition {
    type V = SessionModel;

    open spec fn view(&self) -> SessionModel {
        SessionModel {
            retained: self.retained,
            closed: self.closed,
            expired: self.expired,
            lease_expires_ms: self.lease_expires_ms,
            error: opt_text(self.error),
        }
    }
}

impl Default for SessionDisposition {
    fn default() -> (r: Self)
        ensures
            r == no_session(),
    {
        SessionDisposition {
            retained: false,
            closed: false,
            expired: false,
            lease_expires_ms: None,
            error: None,
        }
    }
}

/// A page of which nothing is known.
pub open spec fn no_session() -> SessionDisposition {
    SessionDisposition {
        retained: false,
        closed: false,
        expired: false,
        lease_expires_ms: None,
        error: None,
    }
}

/// What came of a request.
#[derive(Debug)]
pub struct BatchOutcome {
    pub readiness_complete: bool,
    pub terminal_complete: bool,
    pub actual_sent: Vec<bool>,
    pub terminal: Vec<TerminalObservation>,
    pub sessions: Vec<SessionDisposition>,
}

impl Default for BatchOutcome {
    fn default() -> (r: Self)
        ensures
            !r.readiness_complete,
            !r.terminal_complete,
            r.actual_sent@.len() == 0,
            r.terminal@.len() == 0,
            r.sessions@.len() == 0,
    {
        BatchOutcome {
            readiness_complete: false,
            terminal_complete: false,
            actual_sent: Vec::new(),
            terminal: Vec::new(),
            sessions: Vec::new(),
        }
    }
}

impl BatchOutcome {
    /// The end of a worker, if it is known.
    pub open spec fn end_of(self, index: int) -> Option<ObservationModel> {
        if 0 <= index < self.terminal@.len() {
            Some(self.terminal@[index]@)
        } else {
            None
        }
    }

    /// What became of a worker's page.
    pub open spec fn session_of(self, index: int) -> SessionDisposition {
        if 0 <= index < self.sessions@.len() {
            self.sessions@[index]
        } else {
            no_session()
        }
    }

    /// Whether a worker got its task.
    pub open spec fn sent_to(self, index: int) -> bool {
        0 <= index < self.actual_sent@.len() && self.actual_sent@[index]
    }

    /// All of some workers finished their tasks.
    pub open spec fn all_completed(self, count: int) -> bool {
        &&& self.terminal_complete
        &&& self.terminal@.len() == count
        &&& forall|i: int|
            0 <= i < count ==> (#[trigger] self.terminal@[i]).state
                == DelegationTerminalState::Completed
    }

    /// All of some workers got their tasks, and there are any.
    pub open spec fn all_sent(self, count: int) -> bool {
        &&& self.actual_sent@.len() > 0
        &&& self.actual_sent@.len() == count
        &&& forall|i: int| 0 <= i < count ==> #[trigger] self.actual_sent@[i]
    }

    /// Nothing went wrong with the pages of some workers.
    pub open spec fn sessions_ok(self, count: int) -> bool {
        ||| self.sessions@.len() == 0
        ||| self.sessions@.len() == count && forall|i: int|
            0 <= i < count ==> (#[trigger] self.sessions@[i]).error is None
    }

    fn is_completed(&self, count: usize) -> (r: bool)
        ensures
            r == self.all_completed(count as int),
    {
        if !self.terminal_complete || self.terminal.len() != count {
            return false;
        }
        let mut i: usize = 0;
        while i < self.terminal.len()
            invariant
                i <= self.terminal@.len(),
                self.terminal@.len() == count,
                forall|j: int|
                    0 <= j < i ==> (#[trigger] self.terminal@[j]).state
                        == DelegationTerminalState::Completed,
            decreases self.terminal@.len() - i,
        {
            if self.terminal[i].state != DelegationTerminalState::Completed {
                assert(self.terminal@[i as int].state != DelegationTerminalState::Completed);
                return false;
            }
            i += 1;
        }
        true
    }

    fn is_sent(&self, count: usize) -> (r: bool)
        ensures
            r == self.all_sent(count as int),
    {
        if self.actual_sent.len() == 0 || self.actual_sent.len() != count {
            return false;
        }
        let mut i: usize = 0;
        while i < self.actual_sent.len()
            invariant
                i <= self.actual_sent@.len(),
                self.actual_sent@.len() == count,
                forall|j: int| 0 <= j < i ==> #[trigger] self.actual_sent@[j],
            decreases self.actual_sent@.len() - i,
        {
            if !self.actual_sent[i] {
                assert(!self.actual_sent@[i as int]);
                return false;
            }
            i += 1;
        }
        true
    }

    fn are_sessions_ok(&self, count: usize) -> (r: bool)
        ensures
            r == self.sessions_ok(count as int),
    {
        if self.sessions.len() == 0 {
            return true;
        }
        if self.sessions.len() != count {
            return false;
        }
        let mut i: usize = 0;
        while i < self.sessions.len()
            invariant
                i <= self.sessions@.len(),
                self.sessions@.len() == count,
                count > 0,
                forall|j: int| 0 <= j < i ==> (#[trigger] self.sessions@[j]).error is None,
            decreases self.sessions@.len() - i,
        {
            if self.sessions[i].error.is_some() {
                assert(self.sessions@[i as int].error is Some);
                return false;
            }
            i += 1;
        }
        true
    }
}

/// The name of what became of a worker's page.
pub open spec fn session_state(s: SessionDisposition) -> Seq<char> {
    if s.retained {
        "IDLE_RETAINED"@
    } else if s.closed {
        "CLOSED"@
    } else {
        "UNAVAILABLE"@
    }
}

fn session_name(retained: bool, closed: bool) -> (r: &'static str)
    ensures
        r@ == (if retained {
            "IDLE_RETAINED"@
        } else if closed {
            "CLOSED"@
        } else {
            "UNAVAILABLE"@
        }),
{
    if retained {
        "IDLE_RETAINED"
    } else if closed {
        "CLOSED"
    } else {
        "UNAVAILABLE"
    }
}

/// Some fields of a JSON object.
pub type Fields = Seq<(Seq<char>, JsonModel)>;

/// What the result says of a worker itself.
pub open spec fn worker_fields(index: int, item: StagedModel, ready: bool, sent: bool) -> Fields {
    seq![
        ("index"@, JsonModel::Unsigned((index + 1) as u64)),
        ("label"@, text_or_null(item.label)),
        ("scope_id"@, JsonModel::Text(item.scope_id)),
        ("workspace"@, JsonModel::Text(item.workspace)),
        ("browser_page_id"@, text_or_null(item.browser_page_id)),
        ("account_id"@, JsonModel::Text(item.account_id)),
        ("browser_instance"@, text_or_null(item.browser_instance)),
        ("generation"@, JsonModel::Unsigned(item.generation)),
        ("resumed"@, JsonModel::Bool(item.resumed)),
        ("ready"@, JsonModel::Bool(ready)),
        ("actual_task_sent"@, JsonModel::Bool(sent)),
    ]
}

/// What the result says of the end of a worker's task.
pub open spec fn end_fields(end: Option<ObservationModel>) -> Fields {
    match end {
        Some(e) => seq![
            ("terminal_state"@, JsonModel::Text(terminal_name(e.state))),
            ("terminal_detail"@, text_or_null(e.detail)),
            ("terminal_ms"@, number_or_null(e.terminal_ms)),
            ("task_result"@, or_null(e.task_result)),
        ],
        None => seq![
            ("terminal_state"@, JsonModel::Null),
            ("terminal_detail"@, JsonModel::Null),
            ("terminal_ms"@, JsonModel::Null),
            ("task_result"@, JsonModel::Null),
        ],
    }
}

/// What the result says of a worker's page.
pub open spec fn session_fields(session: SessionDisposition) -> Fields {
    seq![
        ("session_state"@, JsonModel::Text(session_state(session))),
        ("session_retained"@, JsonModel::Bool(session.retained)),
        ("session_closed"@, JsonModel::Bool(session.closed)),
        ("session_expired"@, JsonModel::Bool(session.expired)),
        ("lease_expires_ms"@, number_or_null(session.lease_expires_ms)),
        ("session_error"@, text_or_null(opt_text(session.error))),
        ("resumable"@, JsonModel::Bool(session.retained)),
    ]
}

/// What the result says of one worker.
pub open spec fn delegation_json(index: int, item: StagedModel, o: BatchOutcome) -> JsonModel {
    JsonModel::Object(
        worker_fields(index, item, o.readiness_complete, o.sent_to(index)) + end_fields(
            o.end_of(index),
        ) + session_fields(o.session_of(index)),
    )
}

fn json_or_null(o: &Option<Json>) -> (r: Json)
    ensures
        r.model() == or_null(opt_json(*o)),
{
    match o {
        Some(v) => v.copy(),
        None => Json::Null,
    }
}

fn put_worker(index: usize, item: &StagedDelegation, ready: bool, sent: bool) -> (r: Vec<JsonField>)
    requires
        index < usize::MAX,
    ensures
        field_models(r@) == worker_fields(index as int, item@, ready, sent),
{
    let mut f = no_fields();
    put(&mut f, "index", Json::Unsigned((index + 1) as u64));
    put(&mut f, "label", Json::opt_text(&item.label));
    put(&mut f, "scope_id", Json::text(item.scope_id.as_str()));
    put(&mut f, "workspace", Json::text(item.workspace.as_str()));
    put(&mut f, "browser_page_id", Json::opt_text(&item.browser_page_id));
    put(&mut f, "account_id", Json::text(item.account_id.as_str()));
    put(&mut f, "browser_instance", Json::opt_text(&item.browser_instance));
    put(&mut f, "generation", Json::Unsigned(item.generation));
    put(&mut f, "resumed", Json::Bool(item.resumed));
    put(&mut f, "ready", Json::Bool(ready));
    put(&mut f, "actual_task_sent", Json::Bool(sent));
    assert(field_models(f@) =~= worker_fields(index as int, item@, ready, sent));
    f
}

fn put_end(f: &mut Vec<JsonField>, end: Option<&TerminalObservation>)
    ensures
        field_models(final(f)@) == field_models(old(f)@) + end_fields(
            match end {
                Some(e) => Some(e@),
                None => None,
            },
        ),
{
    if let Some(e) = end {
        put(f, "terminal_state", Json::text(e.state.name()));
        put(f, "terminal_detail", Json::opt_text(&e.detail));
        put(f, "terminal_ms", Json::opt_number(e.terminal_ms));
        put(f, "task_result", json_or_null(&e.task_result));
        assert(field_models(f@) =~= field_models(old(f)@) + end_fields(Some(e@)));
    } else {
        put(f, "terminal_state", Json::Null);
        put(f, "terminal_detail", Json::Null);
        put(f, "terminal_ms", Json::Null);
        put(f, "task_result", Json::Null);
        assert(field_models(f@) =~= field_models(old(f)@) + end_fields(None));
    }
}

fn put_session(f: &mut Vec<JsonField>, session: &SessionDisposition)
    ensures
        field_models(final(f)@) == field_models(old(f)@) + session_fields(*session),
{
    put(f, "session_state", Json::text(session_name(session.retained, session.closed)));
    put(f, "session_retained", Json::Bool(session.retained));
    put(f, "session_closed", Json::Bool(session.closed));
    put(f, "session_expired", Json::Bool(session.expired));
    put(f, "lease_expires_ms", Json::opt_number(session.lease_expires_ms));
    put(f, "session_error", Json::opt_text(&session.error));
    put(f, "resumable", Json::Bool(session.retained));
    assert(field_models(f@) =~= field_models(old(f)@) + session_fields(*session));
}

fn delegation_value(index: usize, item: &StagedDelegation, o: &BatchOutcome) -> (r: Json)
    requires
        index < usize::MAX,
    ensures
        r.model() == delegation_json(index as int, item@, *o),
{
    let sent = index < o.actual_sent.len() && o.actual_sent[index];
    let mut f = put_worker(index, item, o.readiness_complete, sent);
    if index < o.terminal.len() {
        put_end(&mut f, Some(&o.terminal[index]));
    } else {
        put_end(&mut f, None);
    }
    if index < o.sessions.len() {
        put_session(&mut f, &o.sessions[index]);
    } else {
        put_session(&mut f, &SessionDisposition::default());
    }
    Json::Object(f)
}

/// What the result says of the workers.
pub open spec fn delegations_json(staged: Seq<StagedDelegation>, o: BatchOutcome) -> JsonModel {
    JsonModel::Array(Seq::new(staged.len(), |i: int| delegation_json(i, staged[i]@, o)))
}

/// The result of a request. It succeeded where every worker got its task and finished
/// it, and always where it was only rehearsed.
pub open spec fn result_json(
    opts: DelegateOptions,
    max_new: usize,
    max_concurrent: usize,
    scope_dir: Seq<char>,
    bridge_url: Seq<char>,
    staged: Seq<StagedDelegation>,
    o: BatchOutcome,
) -> JsonModel {
    let n = staged.len() as int;
    JsonModel::Object(
        seq![
            ("ok"@, JsonModel::Bool(opts.dry_run || (o.all_completed(n) && o.all_sent(n)))),
            ("sent"@, JsonModel::Bool(o.all_sent(n))),
            ("ready"@, JsonModel::Bool(o.readiness_complete)),
            ("terminal"@, JsonModel::Bool(o.terminal_complete)),
            ("session_ok"@, JsonModel::Bool(o.sessions_ok(n))),
            (
                "session_policy"@,
                JsonModel::Text(
                    if opts.close_on_terminal {
                        "CLOSE_ON_TERMINAL"@
                    } else {
                        "IDLE_RETAINED"@
                    },
                ),
            ),
            ("session_ttl_minutes"@, JsonModel::Unsigned(opts.session_ttl_minutes)),
            ("parallel_count"@, JsonModel::Unsigned(n as u64)),
            ("max_parallel"@, JsonModel::Unsigned(max_new as u64)),
            ("max_concurrent"@, JsonModel::Unsigned(max_concurrent as u64)),
            ("scope_dir"@, JsonModel::Text(scope_dir)),
            ("bridge_url"@, JsonModel::Text(bridge_url)),
            ("delegations"@, delegations_json(staged, o)),
        ],
    )
}

/// The result of a request, as JSON.
pub fn result_value(
    opts: &DelegateOptions,
    max_new: usize,
    max_concurrent: usize,
    scope_dir: &str,
    bridge_url: &str,
    staged: &Vec<StagedDelegation>,
    o: &BatchOutcome,
) -> (r: Json)
    ensures
        r.model() == result_json(
            *opts,
            max_new,
            max_concurrent,
            scope_dir@,
            bridge_url@,
            staged@,
            *o,
        ),
{
    let mut list = no_values();
    let mut i: usize = 0;
    while i < staged.len()
        invariant
            i <= staged@.len(),
            models(list@) =~= Seq::new(i as nat, |j: int| delegation_json(j, staged@[j]@, *o)),
        decreases staged@.len() - i,
    {
        append_value(&mut list, delegation_value(i, &staged[i], o));
        i += 1;
    }
    let n = staged.len();
    let sent = o.is_sent(n);
    let mut f = no_fields();
    put(&mut f, "ok", Json::Bool(opts.dry_run || (o.is_completed(n) && sent)));
    put(&mut f, "sent", Json::Bool(sent));
    put(&mut f, "ready", Json::Bool(o.readiness_complete));
    put(&mut f, "terminal", Json::Bool(o.terminal_complete));
    put(&mut f, "session_ok", Json::Bool(o.are_sessions_ok(n)));
    let policy = if opts.close_on_terminal {
        "CLOSE_ON_TERMINAL"
    } else {
        "IDLE_RETAINED"
    };
    put(&mut f, "session_policy", Json::text(policy));
    put(&mut f, "session_ttl_minutes", Json::Unsigned(opts.session_ttl_minutes));
    put(&mut f, "parallel_count", Json::Unsigned(n as u64));
    put(&mut f, "max_parallel", Json::Unsigned(max_new as u64));
    put(&mut f, "max_concurrent", Json::Unsigned(max_concurrent as u64));
    put(&mut f, "scope_dir", Json::text(scope_dir));
    put(&mut f, "bridge_url", Json::text(bridge_url));
    put(&mut f, "delegations", Json::Array(list));
    assert(field_models(f@) =~= result_json(
        *opts,
        max_new,
        max_concurrent,
        scope_dir@,
        bridge_url@,
        staged@,
        *o,
    )->Object_0);
    Json::Object(f)
}

/// A text, or other words where there is none.
pub open spec fn text_or(o: Option<Seq<char>>, other: Seq<char>) -> Seq<char> {
    match o {
        Some(s) => s,
        None => other,
    }
}

fn string_or(o: &Option<String>, other: &str) -> (r: String)
    ensures
        r@ == text_or(opt_text(*o), other@),
{
    match o {
        Some(s) => s.clone(),
        None => other.to_owned(),
    }
}

/// The line on one worker.
pub open spec fn worker_line(dry_run: bool, index: int, item: StagedModel, o: BatchOutcome) -> Seq<char> {
    let head = decimal((index + 1) as nat) + ". scope="@ + item.scope_id;
    if dry_run {
        head + " workspace="@ + item.workspace + " page=<dry-run>"@
    } else {
        head + " account="@ + item.account_id + " instance="@ + text_or(
            item.browser_instance,
            "<legacy>"@,
        ) + " generation="@ + decimal(item.generation as nat) + " page="@ + text_or(
            item.browser_page_id,
            "<missing>"@,
        ) + " terminal="@ + (match o.end_of(index) {
            Some(e) => terminal_name(e.state),
            None => "LOST"@,
        }) + " session="@ + session_state(o.session_of(index))
    }
}

/// The lines of a result for people.
pub open spec fn result_text(dry_run: bool, staged: Seq<StagedDelegation>, o: BatchOutcome) -> Seq<Seq<char>> {
    seq![
        (if dry_run {
            "Prepared "@
        } else {
            "Finished "@
        }) + decimal(staged.len()) + " ChatGPT Web worker(s)"@,
    ] + Seq::new(staged.len(), |i: int| worker_line(dry_run, i, staged[i]@, o))
}

fn line_of_worker(dry_run: bool, index: usize, item: &StagedDelegation, o: &BatchOutcome) -> (r:
    String)
    requires
        index < usize::MAX,
    ensures
        r@ == worker_line(dry_run, index as int, item@, *o),
{
    let head = decimal_of((index + 1) as u64).concat(". scope=").concat(item.scope_id.as_str());
    if dry_run {
        return head.concat(" workspace=").concat(item.workspace.as_str()).concat(" page=<dry-run>");
    }
    let end = if index < o.terminal.len() {
        o.terminal[index].state.name()
    } else {
        "LOST"
    };
    let known = index < o.sessions.len();
    let session = session_name(
        known && o.sessions[index].retained,
        known && o.sessions[index].closed,
    );
    head.concat(" account=").concat(item.account_id.as_str()).concat(" instance=").concat(
        string_or(&item.browser_instance, "<legacy>").as_str(),
    ).concat(" generation=").concat(decimal_of(item.generation).as_str()).concat(" page=").concat(
        string_or(&item.browser_page_id, "<missing>").as_str(),
    ).concat(" terminal=").concat(end).concat(" session=").concat(session)
}

/// The lines of a result for people.
pub fn result_lines(dry_run: bool, staged: &Vec<StagedDelegation>, o: &BatchOutcome) -> (r: Vec<
    String,
>)
    ensures
        texts(r@) == result_text(dry_run, staged@, *o),
{
    let mut out: Vec<String> = Vec::new();
    let verb = if dry_run {
        "Prepared "
    } else {
        "Finished "
    };
    let first = verb.to_owned().concat(decimal_of(staged.len() as u64).as_str()).concat(
        " ChatGPT Web worker(s)",
    );
    let ghost head = first@;
    push_text(&mut out, first.as_str());
    assert(texts(out@) =~= seq![head]);
    let mut i: usize = 0;
    while i < staged.len()
        invariant
            i <= staged@.len(),
            texts(out@) =~= seq![head] + Seq::new(
                i as nat,
                |j: int| worker_line(dry_run, j, staged@[j]@, *o),
            ),
        decreases staged@.len() - i,
    {
        push_text(&mut out, line_of_worker(dry_run, i, &staged[i], o).as_str());
        i += 1;
    }
    assert(texts(out@) =~= result_text(dry_run, staged@, *o));
    out
}

/// What the note on dispatched work says of one worker.
pub open spec fn dispatched_json(index: int, item: StagedModel) -> JsonModel {
    JsonModel::Object(
        seq![
            ("index"@, JsonModel::Unsigned((index + 1) as u64)),
            ("label"@, text_or_null(item.label)),
            ("scope_id"@, JsonModel::Text(item.scope_id)),
            ("workspace"@, JsonModel::Text(item.workspace)),
            ("browser_page_id"@, JsonModel::Text(item.browser_page_id->0)),
            ("account_id"@, JsonModel::Text(item.account_id)),
            ("browser_instance"@, text_or_null(item.browser_instance)),
            ("generation"@, JsonModel::Unsigned(item.generation)),
            ("ready"@, JsonModel::Bool(true)),
            ("actual_task_sent"@, JsonModel::Bool(true)),
        ],
    )
}

/// The note that all workers got their tasks.
pub open spec fn dispatched_note(bridge_url: Seq<char>, staged: Seq<StagedDelegation>) -> JsonModel {
    JsonModel::Object(
        seq![
            ("event"@, JsonModel::Text("dispatched"@)),
            ("bridge_url"@, JsonModel::Text(bridge_url)),
            ("parallel_count"@, JsonModel::Unsigned(staged.len() as u64)),
            (
                "delegations"@,
                JsonModel::Array(
                    Seq::new(staged.len(), |i: int| dispatched_json(i, staged[i]@)),
                ),
            ),
        ],
    )
}

/// Every worker has a page.
pub open spec fn all_have_pages(staged: Seq<StagedDelegation>) -> bool {
    forall|i: int| 0 <= i < staged.len() ==> (#[trigger] staged[i]).browser_page_id is Some
}

fn dispatched_value(index: usize, item: &StagedDelegation, page: &str) -> (r: Json)
    requires
        index < usize::MAX,
        opt_text(item.browser_page_id) == Some(page@),
    ensures
        r.model() == dispatched_json(index as int, item@),
{
    let mut f = no_fields();
    put(&mut f, "index", Json::Unsigned((index + 1) as u64));
    put(&mut f, "label", Json::opt_text(&item.label));
    put(&mut f, "scope_id", Json::text(item.scope_id.as_str()));
    put(&mut f, "workspace", Json::text(item.workspace.as_str()));
    put(&mut f, "browser_page_id", Json::text(page));
    put(&mut f, "account_id", Json::text(item.account_id.as_str()));
    put(&mut f, "browser_instance", Json::opt_text(&item.browser_instance));
    put(&mut f, "generation", Json::Unsigned(item.generation));
    put(&mut f, "ready", Json::Bool(true));
    put(&mut f, "actual_task_sent", Json::Bool(true));
    assert(field_models(f@) =~= dispatched_json(index as int, item@)->Object_0);
    Json::Object(f)
}

/// The note that all workers got their tasks; each must have a page.
pub fn dispatched_progress_event(bridge_url: &str, staged: &Vec<StagedDelegation>) -> (r: Result<
    Json,
    String,
>)
    ensures
        match r {
            Ok(v) => all_have_pages(staged@) && v.model() == dispatched_note(bridge_url@, staged@),
            Err(e) => !all_have_pages(staged@) && e@ == "dispatched worker has no browser_page_id"@,
        },
{
    let mut list = no_values();
    let mut i: usize = 0;
    while i < staged.len()
        invariant
            i <= staged@.len(),
            models(list@) =~= Seq::new(i as nat, |j: int| dispatched_json(j, staged@[j]@)),
            forall|j: int| 0 <= j < i ==> (#[trigger] staged@[j]).browser_page_id is Some,
        decreases staged@.len() - i,
    {
        match &staged[i].browser_page_id {
            None => {
                assert(staged@[i as int].browser_page_id is None);
                return Err("dispatched worker has no browser_page_id".to_owned());
            },
            Some(page) => {
                append_value(&mut list, dispatched_value(i, &staged[i], page.as_str()));
            },
        }
        i += 1;
    }
    let mut f = no_fields();
    put(&mut f, "event", Json::text("dispatched"));
    put(&mut f, "bridge_url", Json::text(bridge_url));
    put(&mut f, "parallel_count", Json::Unsigned(staged.len() as u64));
    put(&mut f, "delegations", Json::Array(list));
    assert(field_models(f@) =~= dispatched_note(bridge_url@, staged@)->Object_0);
    Ok(Json::Object(f))
}

/// The note that all workers got their tasks, where the caller wants notes and it is so.
pub fn dispatched_progress(
    wanted: bool,
    bridge_url: &str,
    staged: &Vec<StagedDelegation>,
    sent: &Vec<bool>,
) -> (r: Option<Json>)
    ensures
        ({
            let all = sent@.len() == staged@.len() && forall|i: int|
                0 <= i < sent@.len() ==> #[trigger] sent@[i];
            match r {
                Some(v) => wanted && all && all_have_pages(staged@) && v.model() == dispatched_note(
                    bridge_url@,
                    staged@,
                ),
                None => !(wanted && all && all_have_pages(staged@)),
            }
        }),
{
    if !wanted || sent.len() != staged.len() {
        return None;
    }
    let mut i: usize = 0;
    while i < sent.len()
        invariant
            i <= sent@.len(),
            forall|j: int| 0 <= j < i ==> #[trigger] sent@[j],
        decreases sent@.len() - i,
    {
        if !sent[i] {
            assert(!sent@[i as int]);
            return None;
        }
        i += 1;
    }
    match dispatched_progress_event(bridge_url, staged) {
        Ok(v) => Some(v),
        Err(_) => None,
    }
}

/// The note that a worker's task ended.
pub open spec fn terminal_note(
    bridge_url: Seq<char>,
    index: int,
    item: StagedModel,
    end: ObservationModel,
) -> JsonModel {
    JsonModel::Object(
        seq![
            ("event"@, JsonModel::Text("terminal"@)),
            ("bridge_url"@, JsonModel::Text(bridge_url)),
            ("index"@, JsonModel::Unsigned((index + 1) as u64)),
            ("label"@, text_or_null(item.label)),
            ("scope_id"@, JsonModel::Text(item.scope_id)),
            ("browser_page_id"@, text_or_null(item.browser_page_id)),
            ("account_id"@, JsonModel::Text(item.account_id)),
            ("browser_instance"@, text_or_null(item.browser_instance)),
            ("generation"@, JsonModel::Unsigned(item.generation)),
        ] + end_fields(Some(end)),
    )
}

/// The note that a worker's task ended; `index` counts from 0.
pub fn terminal_progress_event(
    bridge_url: &str,
    index: usize,
    item: &StagedDelegation,
    end: &TerminalObservation,
) -> (r: Json)
    requires
        index < usize::MAX,
    ensures
        r.model() == terminal_note(bridge_url@, index as int, item@, end@),
{
    let mut f = no_fields();
    put(&mut f, "event", Json::text("terminal"));
    put(&mut f, "bridge_url", Json::text(bridge_url));
    put(&mut f, "index", Json::Unsigned((index + 1) as u64));
    put(&mut f, "label", Json::opt_text(&item.label));
    put(&mut f, "scope_id", Json::text(item.scope_id.as_str()));
    put(&mut f, "browser_page_id", Json::opt_text(&item.browser_page_id));
    put(&mut f, "account_id", Json::text(item.account_id.as_str()));
    put(&mut f, "browser_instance", Json::opt_text(&item.browser_instance));
    put(&mut f, "generation", Json::Unsigned(item.generation));
    put_end(&mut f, Some(end));
    assert(field_models(f@) =~= terminal_note(bridge_url@, index as int, item@, end@)->Object_0);
    Json::Object(f)
}

pub const DUPLICATE_DETAIL: &'static str =
    "A fresh ChatGPT Web request for this workspace/task ownership domain already has a browser-bound nonterminal scope; observe that exact scope instead of opening another worker.";

/// The record that a look found, if it found one.
pub open spec fn seen_lifecycle(seen: LifecycleSeen) -> Option<DelegationLifecycle> {
    match seen {
        LifecycleSeen::Found(l) => Some(l),
        _ => None,
    }
}

/// What is said of a scope in which the work of a claim goes on.
pub open spec fn claimed_scope_json(
    scope_id: Seq<char>,
    scope: ScopeModel,
    lifecycle: Option<DelegationLifecycle>,
) -> JsonModel {
    let ended = lifecycle is Some && lifecycle->0.terminal_state is Some;
    JsonModel::Object(
        seq![
            ("scope_id"@, JsonModel::Text(scope_id)),
            ("workspace"@, JsonModel::Text(scope.workspace)),
            ("browser_page_id"@, text_or_null(scope.page())),
            ("account_id"@, JsonModel::Text(scope.account())),
            ("browser_instance"@, text_or_null(scope.instance())),
            (
                "generation"@,
                match lifecycle {
                    Some(l) => JsonModel::Unsigned(l.generation),
                    None => JsonModel::Null,
                },
            ),
            (
                "terminal_state"@,
                match lifecycle {
                    Some(l) => terminal_or_null(l.terminal_state),
                    None => JsonModel::Null,
                },
            ),
            (
                "terminal_detail"@,
                match lifecycle {
                    Some(l) => text_or_null(opt_text(l.terminal_detail)),
                    None => JsonModel::Null,
                },
            ),
            (
                "session_state"@,
                JsonModel::Text(
                    if ended {
                        "TERMINAL"@
                    } else {
                        "ACTIVE"@
                    },
                ),
            ),
            (
                "lifecycle"@,
                match lifecycle {
                    Some(l) => lifecycle_json(l),
                    None => JsonModel::Null,
                },
            ),
        ],
    )
}

/// What is said of a scope of a claim; nothing of one that cannot be looked up or
/// whose workspace is gone.
pub open spec fn claimed_entry(
    mux: WorkspaceMux,
    seen: Seq<Slot<LifecycleSeen>>,
    scope_id: Seq<char>,
) -> Option<JsonModel> {
    match mux.found(scope_id) {
        Err(_) => None,
        Ok(scope) => match slot_value(seen, scope_id) {
            None => None,
            Some(LifecycleSeen::Unresolved(_)) => None,
            Some(s) => Some(claimed_scope_json(scope_id, scope, seen_lifecycle(s))),
        },
    }
}

pub open spec fn claimed_entries(
    mux: WorkspaceMux,
    seen: Seq<Slot<LifecycleSeen>>,
    ids: Seq<String>,
) -> Seq<JsonModel>
    decreases ids.len(),
{
    if ids.len() == 0 {
        Seq::empty()
    } else {
        let before = claimed_entries(mux, seen, ids.drop_last());
        match claimed_entry(mux, seen, ids.last()@) {
            Some(j) => before.push(j),
            None => before,
        }
    }
}

/// The answer to a request for work that goes on already.
pub open spec fn duplicate_json(
    scope_dir: Seq<char>,
    bridge_url: Seq<char>,
    mux: WorkspaceMux,
    seen: Seq<Slot<LifecycleSeen>>,
    claim: FreshDispatchClaim,
) -> JsonModel {
    JsonModel::Object(
        seq![
            ("ok"@, JsonModel::Bool(false)),
            ("sent"@, JsonModel::Bool(false)),
            ("ready"@, JsonModel::Bool(false)),
            ("terminal"@, JsonModel::Bool(true)),
            ("duplicate"@, JsonModel::Bool(true)),
            ("code"@, JsonModel::Text("DUPLICATE_ACTIVE_DISPATCH"@)),
            ("detail"@, JsonModel::Text(DUPLICATE_DETAIL@)),
            ("dispatch_key"@, JsonModel::Text(claim.dispatch_key@)),
            ("scope_dir"@, JsonModel::Text(scope_dir)),
            ("bridge_url"@, JsonModel::Text(bridge_url)),
            ("delegations"@, JsonModel::Array(claimed_entries(mux, seen, claim.scope_ids@))),
        ],
    )
}

fn str_or_null(o: Option<&str>) -> (r: Json)
    ensures
        r.model() == (match o {
            Some(s) => JsonModel::Text(s@),
            None => JsonModel::Null,
        }),
{
    match o {
        Some(s) => Json::text(s),
        None => Json::Null,
    }
}

fn claimed_scope_value(scope_id: &str, scope: &WorkspaceScope, lifecycle: Option<&DelegationLifecycle>)
    -> (r: Json)
    ensures
        r.model() == claimed_scope_json(
            scope_id@,
            scope@,
            match lifecycle {
                Some(l) => Some(*l),
                None => None,
            },
        ),
{
    let mut f = no_fields();
    put(&mut f, "scope_id", Json::text(scope_id));
    put(&mut f, "workspace", Json::text(scope.workspace.as_str()));
    put(&mut f, "browser_page_id", str_or_null(scope.page_id()));
    put(&mut f, "account_id", Json::text(scope.account_id()));
    put(&mut f, "browser_instance", str_or_null(scope.browser_instance()));
    if let Some(l) = lifecycle {
        put(&mut f, "generation", Json::Unsigned(l.generation));
        put(&mut f, "terminal_state", terminal_json(l.terminal_state));
        put(&mut f, "terminal_detail", Json::opt_text(&l.terminal_detail));
        let state = if l.terminal_state.is_some() {
            "TERMINAL"
        } else {
            "ACTIVE"
        };
        put(&mut f, "session_state", Json::text(state));
        put(&mut f, "lifecycle", l.to_json());
        assert(field_models(f@) =~= claimed_scope_json(scope_id@, scope@, Some(*l))->Object_0);
    } else {
        put(&mut f, "generation", Json::Null);
        put(&mut f, "terminal_state", Json::Null);
        put(&mut f, "terminal_detail", Json::Null);
        put(&mut f, "session_state", Json::text("ACTIVE"));
        put(&mut f, "lifecycle", Json::Null);
        assert(field_models(f@) =~= claimed_scope_json(scope_id@, scope@, None)->Object_0);
    }
    Json::Object(f)
}

fn entry_of_claim(mux: &WorkspaceMux, seen: &Vec<Slot<LifecycleSeen>>, scope_id: &str) -> (r: Option<
    Json,
>)
    ensures
        opt_json(r) == claimed_entry(*mux, seen@, scope_id@),
{
    let scope = match mux.lookup(scope_id) {
        Ok(s) => s,
        Err(_) => {
            return None;
        },
    };
    let at = find_slot(seen, scope_id);
    if at == seen.len() {
        return None;
    }
    match &seen[at].value {
        LifecycleSeen::Unresolved(_) => None,
        LifecycleSeen::Found(l) => Some(claimed_scope_value(scope_id, &scope, Some(l))),
        _ => Some(claimed_scope_value(scope_id, &scope, None)),
    }
}

/// The answer to a request for work that goes on already. `seen` is what a look at the
/// records of the claim's scopes found.
pub fn duplicate_dispatch_value(
    scope_dir: &str,
    bridge_url: &str,
    mux: &WorkspaceMux,
    seen: &Vec<Slot<LifecycleSeen>>,
    claim: &FreshDispatchClaim,
) -> (r: Json)
    ensures
        r.model() == duplicate_json(scope_dir@, bridge_url@, *mux, seen@, *claim),
{
    let mut list = no_values();
    let mut i: usize = 0;
    while i < claim.scope_ids.len()
        invariant
            i <= claim.scope_ids@.len(),
            models(list@) == claimed_entries(*mux, seen@, claim.scope_ids@.subrange(0, i as int)),
        decreases claim.scope_ids@.len() - i,
    {
        proof {
            let next = claim.scope_ids@.subrange(0, i + 1);
            assert(next.drop_last() =~= claim.scope_ids@.subrange(0, i as int));
        }
        if let Some(j) = entry_of_claim(mux, seen, claim.scope_ids[i].as_str()) {
            append_value(&mut list, j);
        }
        i += 1;
    }
    assert(claim.scope_ids@.subrange(0, claim.scope_ids@.len() as int) =~= claim.scope_ids@);
    let mut f = no_fields();
    put(&mut f, "ok", Json::Bool(false));
    put(&mut f, "sent", Json::Bool(false));
    put(&mut f, "ready", Json::Bool(false));
    put(&mut f, "terminal", Json::Bool(true));
    put(&mut f, "duplicate", Json::Bool(true));
    put(&mut f, "code", Json::text("DUPLICATE_ACTIVE_DISPATCH"));
    put(&mut f, "detail", Json::text(DUPLICATE_DETAIL));
    put(&mut f, "dispatch_key", Json::text(claim.dispatch_key.as_str()));
    put(&mut f, "scope_dir", Json::text(scope_dir));
    put(&mut f, "bridge_url", Json::text(bridge_url));
    put(&mut f, "delegations", Json::Array(list));
    assert(field_models(f@) =~= duplicate_json(
        scope_dir@,
        bridge_url@,
        *mux,
        seen@,
        *claim,
    )->Object_0);
    Json::Object(f)
}

/// The line for people on work that goes on already.
pub fn duplicate_line(claim: &FreshDispatchClaim) -> (r: String)
    ensures
        r@ == "Fresh Web task domain already active; existing scope(s): "@ + joined(
            texts(claim.scope_ids@),
            ", "@,
        ),
{
    "Fresh Web task domain already active; existing scope(s): ".to_owned().concat(
        join(&claim.scope_ids, ", ").as_str(),
    )
}

} // verus!
