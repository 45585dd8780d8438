//! What holds of requests: what options ask for, what becomes of tasks, and of workers that are kept,
//! resumed, watched and closed.
use crate::browser_pool::is_definitive_failure;
use crate::cli::IpNumber;
use crate::delegate::control::{control_fault, count_fault, request_of, setting, DelegateOptions,
    RequestModel, CLOSE_SCOPE_ALONE, KEEP_AND_CLOSE, NO_RESUME_REHEARSAL};
use crate::delegate::input::{directory_fault, health_fault, port_outcome, prepared, request_text,
    task_fault, tasks_fault, words_fault, BatchTask, NamedPlace};
use crate::delegate::observe::{no_evidence, observation_step, record_fault, report_fault,
    reported_worker, resumable_fault};
use crate::delegate::report::StagedModel;
use crate::delegate::resume::{resume_next, transient_json, unavailable_json, ResumeModel,
    ResumeSeen};
use crate::delegate::sessions::{close_json, close_next, closed_end, retain_next, route_of, route_to,
    CloseModel, CloseSeen, RetainModel, RetainSeen, RouteModel};
use crate::dotenv::{assignment, is_denied, supplied, unquoted};
use crate::fresh_dispatch::ClaimModel;
use crate::json::{lemma_first_field_is_held, lemma_held_value_is_read,
    lemma_lacking_value_is_not_read, lemma_read_value_is_held, number_or_null, object_holds,
    object_lacks, text_or_null, Json, JsonModel};
use crate::laws::delegation::{lemma_worker_gets_its_own_task, went_well};
use crate::laws::texts::{lemma_cut_parts_give_the_text, lemma_part_stands};
use crate::outside::parsed_url;
use crate::security::workspace::{BindingModel, PathState, ScopeModel, WorkspaceMux};
use crate::shelf::{slot_position, slot_put, slot_value, Slot};
use crate::task_state::{lifecycle_json, terminal_name, terminal_or_null, DelegationLifecycle,
    DelegationTerminalState, LifecycleSeen};
use crate::text::{contains_text, decimal, has_prefix, has_suffix, is_space, joined, opt_text, texts,
    trimmed};
use crate::workers::{activities, ended, ActivityModel, ScopeLook};
use vstd::prelude::*;

verus! {

/// Which options do not go together: to keep a page and to close it; to close, report or watch a
/// scope and anything besides; to resume a scope and a workspace or a batch.
pub proof fn lemma_options_that_exclude_each_other(o: DelegateOptions)
    ensures
        ({
            let work = o.task@.len() > 0 || o.batch_stdin || o.stdin || o.workspace is Some || o.dry_run;
            let session = o.keep_session || o.close_on_terminal;
            let fault = control_fault(o);
            &&& fault is None <==> {
                &&& !(o.keep_session && o.close_on_terminal)
                &&& o.close_scope is Some ==> !work
                &&& o.report_scope is Some ==> !work && !session && o.resume_scope is None
                    && o.close_scope is None
                &&& o.observe_scope is Some ==> !work && !session && o.resume_scope is None
                    && o.close_scope is None && o.report_scope is None
                &&& o.resume_scope is Some ==> o.workspace is None && !o.batch_stdin
            }
            &&& o.keep_session && o.close_on_terminal ==> fault == Some(KEEP_AND_CLOSE@)
            &&& !(o.keep_session && o.close_on_terminal) && o.close_scope is Some && work ==> fault
                == Some(CLOSE_SCOPE_ALONE@)
        }),
{
}

/// Options that go together ask for what they name: a report, a watch or a close of the scope that
/// they give, a further task for it, a rehearsal, or fresh work.
pub proof fn lemma_options_ask_for_what_they_name(o: DelegateOptions)
    requires
        control_fault(o) is None,
    ensures
        o.report_scope matches Some(s) ==> request_of(o) == Ok::<RequestModel, Seq<char>>(
            RequestModel::Report(s@),
        ),
        o.observe_scope matches Some(s) ==> request_of(o) == Ok::<RequestModel, Seq<char>>(
            RequestModel::Observe(s@),
        ),
        o.report_scope is None && o.observe_scope is None && o.close_scope is Some ==> request_of(o)
            == Ok::<RequestModel, Seq<char>>(RequestModel::Close(o.close_scope->0@)),
        o.report_scope is None && o.observe_scope is None && o.close_scope is None
            && o.resume_scope is Some ==> request_of(o) == (if o.dry_run {
            Err::<RequestModel, Seq<char>>(NO_RESUME_REHEARSAL@)
        } else {
            Ok(RequestModel::Resume(o.resume_scope->0@))
        }),
        o.report_scope is None && o.observe_scope is None && o.close_scope is None
            && o.resume_scope is None ==> request_of(o) == Ok::<RequestModel, Seq<char>>(
            if o.dry_run {
                RequestModel::Rehearse
            } else {
                RequestModel::Fresh
            },
        ),
{
}

/// A positive number among the host's settings counts; anything else leaves the built-in limit.
pub proof fn lemma_settings_are_read(config: JsonModel, key: Seq<char>, limit: u64, n: u64)
    ensures
        object_holds(config, key, JsonModel::Unsigned(n)) && n > 0 ==> setting(
            Some(config),
            key,
            limit,
        ) == n,
        object_holds(config, key, JsonModel::Unsigned(0)) ==> setting(Some(config), key, limit)
            == limit,
        object_lacks(config, key) ==> setting(Some(config), key, limit) == limit,
        setting(None, key, limit) == limit,
{
    if object_holds(config, key, JsonModel::Unsigned(n)) {
        lemma_held_value_is_read(config, key, JsonModel::Unsigned(n));
    }
    if object_holds(config, key, JsonModel::Unsigned(0)) {
        lemma_held_value_is_read(config, key, JsonModel::Unsigned(0));
    }
    if object_lacks(config, key) {
        lemma_lacking_value_is_not_read(config, key);
    }
}

/// A request has at least one task and no more than are allowed; a refusal tells both numbers.
pub proof fn lemma_tasks_are_counted(count: usize, max: usize)
    ensures
        count_fault(count, max) is None <==> 1 <= count <= max,
        count > max && count > 0 ==> {
            &&& contains_text(count_fault(count, max)->0, decimal(max as nat))
            &&& has_suffix(count_fault(count, max)->0, decimal(count as nat))
        },
{
    if count > max && count > 0 {
        let head = "parallel Web delegation is limited to "@;
        let mid = " newly spawned workers per batch; received "@;
        let text = count_fault(count, max)->0;
        assert(text =~= head + decimal(max as nat) + (mid + decimal(count as nat)));
        lemma_part_stands(head, decimal(max as nat), mid + decimal(count as nat));
        assert(text.subrange(text.len() - decimal(count as nat).len(), text.len() as int)
            =~= decimal(count as nat));
    }
}

/// The only task of a request is what was read where it was to be read, and else the words behind
/// the command with a blank between each two.
pub proof fn lemma_task_is_what_was_given(o: DelegateOptions, read: Seq<char>)
    ensures
        o.stdin ==> request_text(o, read) == read,
        !o.stdin && o.task@.len() == 0 ==> request_text(o, read).len() == 0,
        !o.stdin && o.task@.len() == 1 ==> request_text(o, read) == o.task@[0]@,
        !o.stdin && o.task@.len() == 2 ==> request_text(o, read) == o.task@[0]@ + " "@ + o.task@[1]@,
        words_fault(o) is None <==> o.task@.len() == 0 || (!o.batch_stdin && !o.stdin),
{
    reveal_with_fuel(joined, 3);
    if !o.stdin && o.task@.len() == 2 {
        let parts = texts(o.task@);
        assert(parts.drop_last().len() == 1);
        assert(parts.drop_last()[0] == o.task@[0]@);
    }
}

/// A task is handed to its worker whole, but for white space around it, in the workspace that it
/// names or else the default one; a label of white space is none.
pub proof fn lemma_prepared_task_is_whole(raw: BatchTask, default: Seq<char>)
    ensures
        prepared(raw, default).task == trimmed(raw.task@),
        (raw.task@.len() > 0 && !is_space(raw.task@[0]) && !is_space(raw.task@.last())) ==> prepared(
            raw,
            default,
        ).task == raw.task@,
        raw.workspace is None ==> prepared(raw, default).workspace == default,
        (raw.workspace matches Some(at) && at.state is Directory) ==> prepared(raw, default).workspace
            == raw.workspace->0.state->Directory_0@,
        raw.label is None ==> prepared(raw, default).label is None,
        raw.label matches Some(l) ==> prepared(raw, default).label == (if trimmed(l@).len() > 0 {
            Some(trimmed(l@))
        } else {
            None
        }),
{
}

/// A task is refused exactly where it is white space or names a workspace that is no directory, and
/// the first refused task is told by its number.
pub proof fn lemma_tasks_that_are_refused(raw: Seq<BatchTask>, from: int, i: int)
    requires
        0 <= from <= i < raw.len(),
        forall|j: int| from <= j < i ==> task_fault(#[trigger] raw[j], j) is None,
    ensures
        task_fault(raw[i], i) is Some <==> trimmed(raw[i].task@).len() == 0 || (
        raw[i].workspace is Some && raw[i].workspace->0.state !is Directory),
        task_fault(raw[i], i) is Some ==> tasks_fault(raw, from) == task_fault(raw[i], i),
        task_fault(raw[i], i) matches Some(lines) ==> lines.len() > 0 && contains_text(
            lines[0],
            decimal((i + 1) as nat),
        ),
    decreases i - from,
{
    if from < i {
        assert(task_fault(raw[from], from) is None);
        lemma_tasks_that_are_refused(raw, from + 1, i);
    } else if task_fault(raw[i], i) is Some {
        let n = decimal((i + 1) as nat);
        if trimmed(raw[i].task@).len() == 0 {
            lemma_part_stands("batch task "@, n, " is empty"@);
        } else {
            lemma_part_stands("invalid workspace for batch task "@, n, Seq::empty());
            assert("invalid workspace for batch task "@ + n + Seq::<char>::empty()
                =~= "invalid workspace for batch task "@ + n);
        }
    }
}

/// A place is a workspace exactly where it is a directory; a refusal names the place.
pub proof fn lemma_workspaces_are_directories(at: NamedPlace)
    ensures
        directory_fault(at) is None <==> at.state is Directory,
        at.state matches PathState::Unresolved(m) ==> directory_fault(at) == Some(
            seq!["failed to canonicalize "@ + at.path@, m@],
        ),
        at.state matches PathState::File(p) ==> directory_fault(at) == Some(
            seq!["workspace is not a directory: "@ + p@],
        ),
{
}

/// The port of a bridge is the one in its URL; the ports of plain web servers stand for its own.
pub proof fn lemma_port_of_a_bridge(url: Seq<char>, port: u16)
    ensures
        parsed_url(url) is Err ==> port_outcome(url) is Err,
        (parsed_url(url) is Ok && parsed_url(url)->Ok_0.port is None) ==> port_outcome(url) is Err,
        (parsed_url(url) is Ok && parsed_url(url)->Ok_0.port == Some(port) && port != 80 && port
            != 443) ==> port_outcome(url) == Ok::<u16, Seq<Seq<char>>>(port),
        (parsed_url(url) is Ok && (parsed_url(url)->Ok_0.port == Some(80u16) || parsed_url(
            url,
        )->Ok_0.port == Some(443u16))) ==> port_outcome(url) == Ok::<u16, Seq<Seq<char>>>(18800),
{
}

/// A bridge takes delegations exactly where it answers under its name and multiplexes scopes.
pub proof fn lemma_bridges_that_take_delegations(
    answer: JsonModel,
    base_url: Seq<char>,
    shown: Seq<char>,
)
    ensures
        health_fault(answer, base_url, shown) is None <==> {
            &&& object_holds(answer, "service"@, JsonModel::Text("gpt2omo"@))
            &&& object_holds(answer, "workspace_mode"@, JsonModel::Text("multiplexed_scopes"@))
        },
{
    lemma_read_value_is_held(answer, "service"@);
    lemma_read_value_is_held(answer, "workspace_mode"@);
    if object_holds(answer, "service"@, JsonModel::Text("gpt2omo"@)) {
        lemma_held_value_is_read(answer, "service"@, JsonModel::Text("gpt2omo"@));
    }
    if object_holds(answer, "workspace_mode"@, JsonModel::Text("multiplexed_scopes"@)) {
        lemma_held_value_is_read(
            answer,
            "workspace_mode"@,
            JsonModel::Text("multiplexed_scopes"@),
        );
    }
}

/// A delegation is reported once its end is on record with a result; it is watched while it goes on,
/// until the watch is over; it can be resumed where it has ended and was kept.
pub proof fn lemma_what_can_be_done_with_a_delegation(
    mux: WorkspaceMux,
    scope_id: Seq<char>,
    seen: LifecycleSeen,
    result: Result<Option<Json>, String>,
    past_deadline: bool,
)
    ensures
        ({
            let there = mux.found(scope_id) is Ok && seen is Found;
            let over = seen->Found_0.terminal_state is Some;
            let step = observation_step(mux, scope_id, seen, past_deadline);
            &&& report_fault(mux, scope_id, seen, result) is None <==> there && over && result is Ok
                && result->Ok_0 is Some
            &&& step is Report <==> there && over
            &&& step is Wait <==> there && !over && !past_deadline
            &&& step is Failed <==> !there || (!over && past_deadline)
            &&& resumable_fault(mux, scope_id, seen) is None <==> there && over
                && seen->Found_0.session_retained
            &&& record_fault(mux, scope_id, seen, no_evidence(scope_id)) is None <==> there
        }),
{
}

/// A worker that is only reported is that of its scope and record, and gets no prompt.
pub proof fn lemma_reported_worker(scope: ScopeModel, l: DelegationLifecycle)
    ensures
        ({
            let w = reported_worker(scope, l);
            &&& w.scope_id == scope.scope_id
            &&& w.workspace == scope.workspace
            &&& w.browser_page_id == scope.page()
            &&& w.browser_binding == scope.browser
            &&& w.account_id == scope.account()
            &&& w.generation == l.generation
            &&& w.generation_started_ms == l.generation_started_ms
            &&& w.task_prompt is None && w.bootstrap_prompt is None
            &&& !w.resumed && !w.routed && !w.pooled
        }),
{
}

/// A kept worker is resumed in this order: its scope is locked and its record read, its browser is
/// found, its account reserved, the lease looked at and the page verified; then comes the next
/// generation and the binding of the reservation.
pub proof fn lemma_resuming_goes_in_order(
    mux: WorkspaceMux,
    scope_id: Seq<char>,
    task: Seq<char>,
    now_ms: u64,
    seen: ResumeSeen,
)
    ensures
        ({
            let step = resume_next(mux, scope_id, task, now_ms, seen);
            let reserved = seen.reservation is Some && seen.reservation->0 is Ok;
            let reopened = seen.record is Some && seen.record->0 is Found
                && seen.record->0->Found_0.terminal_state == Some(DelegationTerminalState::Blocked);
            &&& step is Lock <==> seen.locked is None
            &&& step is ReadRecord <==> went_well(seen.locked) && seen.record is None
            &&& step is FindTarget ==> went_well(seen.locked) && seen.target is None
            &&& step matches ResumeModel::Reserve(a) ==> went_well(seen.locked) && seen.reservation
                is None && a == mux.found(scope_id)->Ok_0.account()
            &&& step is CheckExpiry ==> reserved && seen.expired is None
            &&& step is Verify ==> reserved && seen.expired == Some(false) && seen.verified is None
            &&& step is EndLease ==> reserved && seen.expired == Some(true) && seen.given_back
                && seen.released is None
            &&& step is Unregister ==> seen.expired == Some(true) && went_well(seen.released)
                && seen.removed is None
            &&& step is ClosePage ==> seen.expired == Some(true) && went_well(seen.removed)
                && seen.closed is None
            &&& step matches ResumeModel::NextGeneration(b) ==> {
                &&& reserved && seen.expired == Some(false) && seen.next is None
                &&& went_well(seen.verified) ==> b == reopened
                &&& !went_well(seen.verified) ==> !b && seen.given_back
            }
            &&& step is Bind ==> went_well(seen.verified) && went_well(seen.next) && seen.bound is None
            &&& step is Abandon ==> seen.verified is Some && seen.verified->0 is Err
                && is_definitive_failure(seen.verified->0->Err_0@) && went_well(seen.ended)
            &&& step matches ResumeModel::RecordEnd(s, _) ==> {
                &&& went_well(seen.next) && seen.ended is None
                &&& went_well(seen.verified) ==> s is Failed && seen.bound is Some && seen.bound->0
                    is Err
                &&& !went_well(seen.verified) ==> s is Lost
            }
            &&& step is Ready ==> went_well(seen.verified) && went_well(seen.next) && went_well(
                seen.bound,
            ) && seen.expired == Some(false)
        }),
{
}

/// A resumed worker gets the further task whole, in the next generation of its scope, on its page
/// and for the reservation that was made for it.
pub proof fn lemma_resumed_worker_gets_the_task(
    mux: WorkspaceMux,
    scope_id: Seq<char>,
    task: Seq<char>,
    now_ms: u64,
    seen: ResumeSeen,
)
    ensures
        resume_next(mux, scope_id, task, now_ms, seen) matches ResumeModel::Ready(w) ==> {
            let scope = mux.found(scope_id)->Ok_0;
            &&& w.task_prompt is Some && has_suffix(w.task_prompt->0, task)
            &&& w.resumed && w.pooled && w.routed
            &&& w.route_reservation == Some(seen.reservation->0->Ok_0)
            &&& w.generation == seen.next->0->Ok_0.generation
            &&& w.generation_started_ms == seen.next->0->Ok_0.generation_started_ms
            &&& w.scope_id == scope.scope_id
            &&& w.workspace == scope.workspace
            &&& w.browser_page_id == scope.page()
            &&& w.account_id == scope.account()
        },
{
    if let ResumeModel::Ready(w) = resume_next(mux, scope_id, task, now_ms, seen) {
        let scope = mux.found(scope_id)->Ok_0;
        lemma_worker_gets_its_own_task(
            scope,
            Some(scope.page()->0),
            None,
            task,
            seen.next->0->Ok_0,
            true,
            true,
        );
    }
}

/// A worker that is lost on resuming says why: its lease expired, or its page is gone for good. It is
/// not kept, and whether its page was closed is what closing it came to.
pub proof fn lemma_lost_worker_says_why(
    mux: WorkspaceMux,
    scope_id: Seq<char>,
    task: Seq<char>,
    now_ms: u64,
    seen: ResumeSeen,
)
    ensures
        resume_next(mux, scope_id, task, now_ms, seen) matches ResumeModel::Lost(w, o, s) ==> {
            &&& !s.retained
            &&& s.closed <==> went_well(seen.closed)
            &&& s.expired <==> seen.expired == Some(true)
            &&& o.task_result is None
            &&& s.expired ==> {
                &&& o.state is Lost
                &&& o.terminal_ms == Some(now_ms)
                &&& w.task_prompt == Some(task)
                &&& s.error is None <==> s.closed
            }
            &&& !s.expired ==> {
                &&& s.error is Some
                &&& o.terminal_ms == seen.ended->0->Ok_0.terminal_ms
                &&& o.detail == opt_text(seen.ended->0->Ok_0.terminal_detail)
                &&& s.lease_expires_ms is None
            }
        },
{
}

/// The failure of a scope whose browser cannot be had names its account and instance.
pub proof fn lemma_unavailable_browser_is_told(b: BindingModel, detail: Seq<char>)
    ensures
        ({
            let v = unavailable_json(b, detail);
            &&& object_holds(v, "code"@, JsonModel::Text("BROWSER_ACCOUNT_UNAVAILABLE"@))
            &&& object_holds(v, "account_id"@, JsonModel::Text(b.account_id))
            &&& object_holds(v, "instance"@, JsonModel::Text(b.instance))
            &&& object_holds(v, "detail"@, JsonModel::Text(detail))
        }),
{
    reveal_strlit("code");
    reveal_strlit("account_id");
    reveal_strlit("instance");
    reveal_strlit("detail");
    assert("code"@.len() == 4);
    assert("account_id"@.len() == 10);
    assert("instance"@.len() == 8);
    assert("detail"@.len() == 6);
    let fields = unavailable_json(b, detail)->Object_0;
    assert(fields[0].0 == "code"@);
    assert(fields[1].0 == "account_id"@);
    assert(fields[2].0 == "instance"@);
    assert(fields[3].0 == "detail"@);
    lemma_first_field_is_held(fields, 0, "code"@, JsonModel::Text("BROWSER_ACCOUNT_UNAVAILABLE"@));
    lemma_first_field_is_held(fields, 1, "account_id"@, JsonModel::Text(b.account_id));
    lemma_first_field_is_held(fields, 2, "instance"@, JsonModel::Text(b.instance));
    lemma_first_field_is_held(fields, 3, "detail"@, JsonModel::Text(detail));
}

/// The failure of a page that cannot be verified just now says that its worker stays kept, and until
/// when.
pub proof fn lemma_transient_failure_is_told(
    scope_id: Seq<char>,
    page: Seq<char>,
    l: DelegationLifecycle,
    detail: Seq<char>,
)
    ensures
        ({
            let v = transient_json(scope_id, page, l, detail);
            &&& object_holds(v, "code"@, JsonModel::Text("RETAINED_BROWSER_VERIFY_TRANSIENT"@))
            &&& object_holds(v, "scope_id"@, JsonModel::Text(scope_id))
            &&& object_holds(v, "browser_page_id"@, JsonModel::Text(page))
            &&& object_holds(v, "session_retained"@, JsonModel::Bool(l.session_retained))
            &&& object_holds(v, "lease_expires_ms"@, number_or_null(l.lease_expires_ms))
            &&& object_holds(v, "detail"@, JsonModel::Text(detail))
        }),
{
    reveal_strlit("code");
    reveal_strlit("scope_id");
    reveal_strlit("browser_page_id");
    reveal_strlit("session_retained");
    reveal_strlit("lease_expires_ms");
    reveal_strlit("detail");
    assert("code"@.len() == 4);
    assert("scope_id"@.len() == 8);
    assert("browser_page_id"@.len() == 15);
    assert("session_retained"@.len() == 16);
    assert("lease_expires_ms"@.len() == 16);
    assert("detail"@.len() == 6);
    assert("session_retained"@[0] != "lease_expires_ms"@[0]);
    let fields = transient_json(scope_id, page, l, detail)->Object_0;
    assert(fields[0].0 == "code"@);
    assert(fields[1].0 == "scope_id"@);
    assert(fields[2].0 == "browser_page_id"@);
    assert(fields[3].0 == "session_retained"@);
    assert(fields[4].0 == "lease_expires_ms"@);
    assert(fields[5].0 == "detail"@);
    lemma_first_field_is_held(fields, 0, "code"@, JsonModel::Text("RETAINED_BROWSER_VERIFY_TRANSIENT"@));
    lemma_first_field_is_held(fields, 1, "scope_id"@, JsonModel::Text(scope_id));
    lemma_first_field_is_held(fields, 2, "browser_page_id"@, JsonModel::Text(page));
    lemma_first_field_is_held(fields, 3, "session_retained"@, JsonModel::Bool(l.session_retained));
    lemma_first_field_is_held(fields, 4, "lease_expires_ms"@, number_or_null(l.lease_expires_ms));
    lemma_first_field_is_held(fields, 5, "detail"@, JsonModel::Text(detail));
}

/// What is reported of a kept page that was closed, or could not be: then it stays kept.
pub proof fn lemma_closed_page_is_told(
    scope_id: Seq<char>,
    page: Seq<char>,
    generation: u64,
    error: Option<Seq<char>>,
)
    ensures
        ({
            let v = close_json(scope_id, page, generation, error);
            &&& object_holds(v, "ok"@, JsonModel::Bool(error is None))
            &&& object_holds(v, "closed_scope"@, JsonModel::Text(scope_id))
            &&& object_holds(v, "browser_page_id"@, JsonModel::Text(page))
            &&& object_holds(v, "generation"@, JsonModel::Unsigned(generation))
            &&& object_holds(v, "scope_removed"@, JsonModel::Bool(error is None))
            &&& object_holds(v, "session_state"@, JsonModel::Text(if error is None { "CLOSED"@ } else { "RETAINED_CLOSE_FAILED"@ }))
            &&& object_holds(v, "session_retained"@, JsonModel::Bool(error is Some))
            &&& object_holds(v, "session_closed"@, JsonModel::Bool(error is None))
            &&& object_holds(v, "session_error"@, text_or_null(error))
        }),
{
    reveal_strlit("ok");
    reveal_strlit("closed_scope");
    reveal_strlit("browser_page_id");
    reveal_strlit("generation");
    reveal_strlit("scope_removed");
    reveal_strlit("session_state");
    reveal_strlit("session_retained");
    reveal_strlit("session_closed");
    reveal_strlit("session_error");
    assert("ok"@.len() == 2);
    assert("closed_scope"@.len() == 12);
    assert("browser_page_id"@.len() == 15);
    assert("generation"@.len() == 10);
    assert("scope_removed"@.len() == 13);
    assert("session_state"@.len() == 13);
    assert("session_retained"@.len() == 16);
    assert("session_closed"@.len() == 14);
    assert("session_error"@.len() == 13);
    assert("scope_removed"@[1] != "session_state"@[1]);
    assert("scope_removed"@[1] != "session_error"@[1]);
    assert("session_state"@[8] != "session_error"@[8]);
    let fields = close_json(scope_id, page, generation, error)->Object_0;
    assert(fields[0].0 == "ok"@);
    assert(fields[1].0 == "closed_scope"@);
    assert(fields[2].0 == "browser_page_id"@);
    assert(fields[3].0 == "generation"@);
    assert(fields[4].0 == "scope_removed"@);
    assert(fields[5].0 == "session_state"@);
    assert(fields[6].0 == "session_retained"@);
    assert(fields[7].0 == "session_closed"@);
    assert(fields[8].0 == "session_error"@);
    lemma_first_field_is_held(fields, 0, "ok"@, JsonModel::Bool(error is None));
    lemma_first_field_is_held(fields, 1, "closed_scope"@, JsonModel::Text(scope_id));
    lemma_first_field_is_held(fields, 2, "browser_page_id"@, JsonModel::Text(page));
    lemma_first_field_is_held(fields, 3, "generation"@, JsonModel::Unsigned(generation));
    lemma_first_field_is_held(fields, 4, "scope_removed"@, JsonModel::Bool(error is None));
    lemma_first_field_is_held(fields, 5, "session_state"@, JsonModel::Text(if error is None { "CLOSED"@ } else { "RETAINED_CLOSE_FAILED"@ }));
    lemma_first_field_is_held(fields, 6, "session_retained"@, JsonModel::Bool(error is Some));
    lemma_first_field_is_held(fields, 7, "session_closed"@, JsonModel::Bool(error is None));
    lemma_first_field_is_held(fields, 8, "session_error"@, text_or_null(error));
}

/// A record is written with all that it says.
pub proof fn lemma_record_is_written(l: DelegationLifecycle)
    ensures
        ({
            let v = lifecycle_json(l);
            &&& object_holds(v, "scope_id"@, JsonModel::Text(l.scope_id@))
            &&& object_holds(v, "generation"@, JsonModel::Unsigned(l.generation))
            &&& object_holds(v, "generation_started_ms"@, JsonModel::Unsigned(l.generation_started_ms))
            &&& object_holds(v, "ready_ms"@, number_or_null(l.ready_ms))
            &&& object_holds(v, "terminal_state"@, terminal_or_null(l.terminal_state))
            &&& object_holds(v, "terminal_detail"@, text_or_null(opt_text(l.terminal_detail)))
            &&& object_holds(v, "terminal_ms"@, number_or_null(l.terminal_ms))
            &&& object_holds(v, "session_retained"@, JsonModel::Bool(l.session_retained))
            &&& object_holds(v, "lease_expires_ms"@, number_or_null(l.lease_expires_ms))
        }),
{
    reveal_strlit("scope_id");
    reveal_strlit("generation");
    reveal_strlit("generation_started_ms");
    reveal_strlit("ready_ms");
    reveal_strlit("terminal_state");
    reveal_strlit("terminal_detail");
    reveal_strlit("terminal_ms");
    reveal_strlit("session_retained");
    reveal_strlit("lease_expires_ms");
    assert("scope_id"@.len() == 8);
    assert("generation"@.len() == 10);
    assert("generation_started_ms"@.len() == 21);
    assert("ready_ms"@.len() == 8);
    assert("terminal_state"@.len() == 14);
    assert("terminal_detail"@.len() == 15);
    assert("terminal_ms"@.len() == 11);
    assert("session_retained"@.len() == 16);
    assert("lease_expires_ms"@.len() == 16);
    assert("scope_id"@[0] != "ready_ms"@[0]);
    assert("session_retained"@[0] != "lease_expires_ms"@[0]);
    let fields = lifecycle_json(l)->Object_0;
    assert(fields[0].0 == "scope_id"@);
    assert(fields[1].0 == "generation"@);
    assert(fields[2].0 == "generation_started_ms"@);
    assert(fields[3].0 == "ready_ms"@);
    assert(fields[4].0 == "terminal_state"@);
    assert(fields[5].0 == "terminal_detail"@);
    assert(fields[6].0 == "terminal_ms"@);
    assert(fields[7].0 == "session_retained"@);
    assert(fields[8].0 == "lease_expires_ms"@);
    lemma_first_field_is_held(fields, 0, "scope_id"@, JsonModel::Text(l.scope_id@));
    lemma_first_field_is_held(fields, 1, "generation"@, JsonModel::Unsigned(l.generation));
    lemma_first_field_is_held(fields, 2, "generation_started_ms"@, JsonModel::Unsigned(l.generation_started_ms));
    lemma_first_field_is_held(fields, 3, "ready_ms"@, number_or_null(l.ready_ms));
    lemma_first_field_is_held(fields, 4, "terminal_state"@, terminal_or_null(l.terminal_state));
    lemma_first_field_is_held(fields, 5, "terminal_detail"@, text_or_null(opt_text(l.terminal_detail)));
    lemma_first_field_is_held(fields, 6, "terminal_ms"@, number_or_null(l.terminal_ms));
    lemma_first_field_is_held(fields, 7, "session_retained"@, JsonModel::Bool(l.session_retained));
    lemma_first_field_is_held(fields, 8, "lease_expires_ms"@, number_or_null(l.lease_expires_ms));
}

/// The four ends go by four names.
pub proof fn lemma_ends_have_names(a: DelegationTerminalState, b: DelegationTerminalState)
    ensures
        terminal_name(a) == terminal_name(b) ==> a == b,
        terminal_name(DelegationTerminalState::Completed) == "COMPLETED"@,
        terminal_name(DelegationTerminalState::Blocked) == "BLOCKED"@,
        terminal_name(DelegationTerminalState::Failed) == "FAILED"@,
        terminal_name(DelegationTerminalState::Lost) == "LOST"@,
        terminal_or_null(Some(a)) == JsonModel::Text(terminal_name(a)),
        terminal_or_null(None) == JsonModel::Null,
{
    reveal_strlit("COMPLETED");
    reveal_strlit("BLOCKED");
    reveal_strlit("FAILED");
    reveal_strlit("LOST");
    assert("COMPLETED"@.len() == 9);
    assert("BLOCKED"@.len() == 7);
    assert("FAILED"@.len() == 6);
    assert("LOST"@.len() == 4);
}

/// A page is kept in this order: its scope is locked, resolved, the page verified and the lease
/// written. A page is kept exactly where the lease was; what is gone for good is given up.
pub proof fn lemma_keeping_goes_in_order(has_page: bool, seen: RetainSeen)
    ensures
        ({
            let step = retain_next(has_page, seen);
            let gone = seen.verified is Some && seen.verified->0 is Err && is_definitive_failure(
                seen.verified->0->Err_0@,
            );
            let ready = has_page && went_well(seen.locked) && went_well(seen.resolved)
                && seen.verified is Some;
            &&& step is Lock <==> has_page && seen.locked is None
            &&& step is Resolve <==> has_page && went_well(seen.locked) && seen.resolved is None
            &&& step is Verify <==> has_page && went_well(seen.locked) && went_well(seen.resolved)
                && seen.verified is None
            &&& step is Lease <==> ready && !gone && seen.leased is None
            &&& step is Abandon <==> ready && gone && seen.closed is None
            &&& !has_page ==> step is Done
            &&& step matches RetainModel::Done(d) ==> {
                &&& !d.expired
                &&& d.retained <==> ready && !gone && went_well(seen.leased)
                &&& d.retained ==> d.lease_expires_ms == seen.leased->0->Ok_0
                &&& d.closed <==> ready && gone && went_well(seen.closed)
                &&& d.error is None <==> d.retained && went_well(seen.verified)
            }
        }),
{
}

/// What became of a page that was closed: closed where closing it went well, and an error names each
/// of the two things that failed.
pub proof fn lemma_closing_tells_what_failed(closed: Result<(), String>, removed: Result<(), String>)
    ensures
        ({
            let s = closed_end(closed, removed);
            &&& !s.retained && !s.expired && s.lease_expires_ms is None
            &&& s.closed <==> closed is Ok
            &&& s.error is None <==> closed is Ok && removed is Ok
            &&& closed is Err ==> contains_text(s.error->0, closed->Err_0@)
            &&& removed is Err ==> has_suffix(s.error->0, removed->Err_0@)
        }),
{
    let s = closed_end(closed, removed);
    if closed is Err {
        if removed is Err {
            lemma_part_stands(
                "browser tab close failed: "@,
                closed->Err_0@,
                "; scope cleanup failed: "@ + removed->Err_0@,
            );
            assert(s.error->0 =~= "browser tab close failed: "@ + closed->Err_0@ + (
            "; scope cleanup failed: "@ + removed->Err_0@));
        } else {
            lemma_part_stands("browser tab close failed: "@, closed->Err_0@, Seq::empty());
            assert(s.error->0 =~= "browser tab close failed: "@ + closed->Err_0@
                + Seq::<char>::empty());
        }
    }
    if removed is Err {
        let e = s.error->0;
        assert(e.subrange(e.len() - removed->Err_0@.len(), e.len() as int) =~= removed->Err_0@);
    }
}

/// A kept page is closed in this order: its scope is locked, its record read, the page of the scope
/// closed, the lease ended, the scope unregistered. It is reported closed only after all of it.
pub proof fn lemma_closing_goes_in_order(mux: WorkspaceMux, scope_id: Seq<char>, seen: CloseSeen)
    ensures
        ({
            let step = close_next(mux, scope_id, seen);
            let fit = went_well(seen.locked) && seen.record is Some && resumable_fault(
                mux,
                scope_id,
                seen.record->0,
            ) is None;
            let scope = mux.found(scope_id)->Ok_0;
            let paged = fit && scope.browser_page_id is Some;
            let generation = seen.record->0->Found_0.generation;
            &&& step is Lock <==> seen.locked is None
            &&& step is ReadRecord <==> went_well(seen.locked) && seen.record is None
            &&& step is ClosePage <==> paged && seen.closed is None
            &&& step matches CloseModel::ClosePage(b, p) ==> b == scope.browser && Some(p)
                == scope.browser_page_id
            &&& step is Release <==> paged && went_well(seen.closed) && seen.released is None
            &&& step is Remove <==> paged && went_well(seen.closed) && went_well(seen.released)
                && seen.removed is None
            &&& step is Done <==> paged && seen.closed is Some && (seen.closed->0 is Err || (
            went_well(seen.released) && went_well(seen.removed)))
            &&& step matches CloseModel::Done(v) ==> v == close_json(
                scope_id,
                scope.browser_page_id->0,
                generation,
                if seen.closed->0 is Err {
                    Some(seen.closed->0->Err_0@)
                } else {
                    None
                },
            )
        }),
{
}

/// The page of a worker is reached through the browsers of the accounts where it came from there,
/// and else through the driver; a worker without a page is not reached.
pub proof fn lemma_pages_are_reached(item: StagedModel, binding: BindingModel, page: Seq<char>)
    ensures
        item.pooled && item.browser_binding == Some(binding) ==> route_of(item) == RouteModel::Pool(
            binding,
        ),
        !item.pooled && item.browser_page_id == Some(page) ==> route_of(item) == RouteModel::Driver(
            page,
        ),
        !item.pooled && item.browser_page_id is None ==> route_of(item) == RouteModel::Nowhere,
        route_to(Some(binding), page) == RouteModel::Pool(binding),
        route_to(None, page) == RouteModel::Driver(page),
{
}

/// What is known of the worker of a scope: its record says whether its delegation has ended; a scope
/// without a record has none, and one that cannot be read is not known.
pub proof fn lemma_what_is_known_of_a_worker(mux: WorkspaceMux, scope_id: Seq<char>, look: ScopeLook)
    ensures
        mux.found(scope_id) is Err ==> ended(mux, scope_id, look) is Err,
        mux.found(scope_id) is Ok ==> {
            &&& look.lifecycle is Absent ==> ended(mux, scope_id, look) == Ok::<
                Option<bool>,
                Seq<char>,
            >(None)
            &&& look.lifecycle matches LifecycleSeen::Found(l) ==> ended(mux, scope_id, look) == Ok::<
                Option<bool>,
                Seq<char>,
            >(Some(l.terminal_state is Some))
            &&& look.lifecycle is Unreadable || look.lifecycle is Unresolved ==> ended(
                mux,
                scope_id,
                look,
            ) is Err
        },
{
}

/// Every scope of which something is known is told, with its account and its lock; one of which
/// nothing is known is passed over where that is allowed, and else ends the look.
pub proof fn lemma_scopes_are_looked_at(
    mux: WorkspaceMux,
    looks: Seq<ScopeLook>,
    scopes: Seq<ScopeModel>,
    s: ScopeModel,
    lenient: bool,
)
    requires
        activities(mux, looks, scopes, lenient) is Ok,
    ensures
        ({
            let before = activities(mux, looks, scopes, lenient)->Ok_0;
            let all = activities(mux, looks, scopes.push(s), lenient);
            let look = looks[scopes.len() as int];
            &&& ended(mux, s.scope_id, look) matches Ok(t) ==> all == Ok::<
                Seq<ActivityModel>,
                Seq<char>,
            >(
                before.push(
                    ActivityModel {
                        scope_id: s.scope_id,
                        account_id: s.account(),
                        terminal: t,
                        lock: look.lock,
                    },
                ),
            )
            &&& ended(mux, s.scope_id, look) is Err && lenient ==> all == Ok::<
                Seq<ActivityModel>,
                Seq<char>,
            >(before)
            &&& ended(mux, s.scope_id, look) is Err && !lenient ==> all is Err
        }),
{
    assert(scopes.push(s).drop_last() =~= scopes);
}

/// A fresh claim is for its piece of work and for no scope yet; a scope is noted in it once, behind
/// the others.
pub proof fn lemma_scopes_are_noted_once(claim: ClaimModel, key: Seq<char>, scope_id: Seq<char>, now_ms: u64)
    ensures
        ClaimModel::fresh(key, now_ms).dispatch_key == key,
        ClaimModel::fresh(key, now_ms).created_ms == now_ms,
        ClaimModel::fresh(key, now_ms).updated_ms == now_ms,
        ClaimModel::fresh(key, now_ms).scope_ids.len() == 0,
        claim.with_scope(scope_id, now_ms).scope_ids.contains(scope_id),
        claim.scope_ids.contains(scope_id) ==> claim.with_scope(scope_id, now_ms) == claim,
        !claim.scope_ids.contains(scope_id) ==> {
            let after = claim.with_scope(scope_id, now_ms);
            &&& after.scope_ids == claim.scope_ids.push(scope_id)
            &&& after.updated_ms == now_ms
            &&& after.created_ms == claim.created_ms
            &&& after.dispatch_key == claim.dispatch_key
        },
{
    let after = claim.with_scope(scope_id, now_ms);
    if !claim.scope_ids.contains(scope_id) {
        assert(after.scope_ids[after.scope_ids.len() - 1] == scope_id);
    }
}

proof fn lemma_slot_position<T>(slots: Seq<Slot<T>>, name: Seq<char>)
    ensures
        0 <= slot_position(slots, name) <= slots.len(),
        slot_position(slots, name) < slots.len() ==> slots[slot_position(slots, name)].name@ == name,
        forall|j: int| 0 <= j < slot_position(slots, name) ==> (#[trigger] slots[j]).name@ != name,
    decreases slots.len(),
{
    if slots.len() > 0 && slots[0].name@ != name {
        let t = slots.drop_first();
        lemma_slot_position(t, name);
        assert forall|j: int| 0 <= j < slot_position(slots, name) implies (
        #[trigger] slots[j]).name@ != name by {
            if j > 0 {
                assert(slots[j] == t[j - 1]);
            }
        }
        if slot_position(t, name) < t.len() {
            assert(slots[slot_position(t, name) + 1] == t[slot_position(t, name)]);
        }
    }
}

/// What was put under a name is found there, and what stands under any other name stays.
pub proof fn lemma_what_was_put_is_found<T>(
    before: Seq<Slot<T>>,
    after: Seq<Slot<T>>,
    name: Seq<char>,
    value: T,
    other: Seq<char>,
)
    requires
        slot_put(before, after, name, value),
        other != name,
    ensures
        slot_value(after, name) == Some(value),
        slot_value(after, other) == slot_value(before, other),
{
    lemma_slot_position(before, name);
    lemma_slot_position(after, name);
    lemma_slot_position(before, other);
    lemma_slot_position(after, other);
    let i = slot_position(before, name);
    let p = slot_position(after, name);
    if p < i {
        assert(after[p] == before[p]);
    }
    if i < p {
        assert(after[i].name@ != name);
    }
    let q = slot_position(before, other);
    let r = slot_position(after, other);
    if q < before.len() {
        assert(after[q].name@ == other) by {
            assert(q != i);
            assert(after[q] == before[q]);
        }
        if r < q {
            assert(r != i);
            assert(after[r] == before[r]);
        }
        assert(r <= q) by {
            if q < r {
                assert(after[q].name@ != other);
            }
        }
    } else if r < after.len() {
        assert(r != i);
        assert(after[r] == before[r]);
        assert(before[r].name@ != other);
    }
}

/// A line of a settings file gives the setting that it names the value behind the first equals sign,
/// without one pair of quotes around it.
pub proof fn lemma_lines_assign_settings(key: Seq<char>, value: Seq<char>)
    requires
        has_prefix(key, "OMO_"@),
        !is_space(key.last()),
        !key.contains('='),
        !key.contains('\0'),
        value.len() > 0 && !is_space(value[0]) && !is_space(value.last()),
        !value.contains('\0'),
    ensures
        ({
            let line = key + seq!['='] + value;
            &&& assignment(line) == Some((key, unquoted(value)))
            &&& !is_denied(key) ==> supplied(line) == Some((key, unquoted(value)))
            &&& is_denied(key) ==> supplied(line) is None
        }),
{
    reveal_strlit("OMO_");
    let line = key + seq!['='] + value;
    assert(key.subrange(0, 4)[0] == key[0]);
    assert(key[0] == 'O');
    assert(line[0] == key[0]);
    assert(line.last() == value.last());
    assert(trimmed(line) == line);
    assert(trimmed(key) == key);
    assert(trimmed(value) == value);
    lemma_cut_parts_give_the_text(line, '=');
    assert(line[key.len() as int] == '=');
    assert(line.contains('='));
    let p = crate::text::cut_once(line, '=')->0;
    assert(p.0.len() == key.len()) by {
        if p.0.len() < key.len() {
            assert(line[p.0.len() as int] == (p.0 + seq!['='] + p.1)[p.0.len() as int]);
            assert(key[p.0.len() as int] == '=');
        }
        if p.0.len() > key.len() {
            assert((p.0 + seq!['='] + p.1)[key.len() as int] == p.0[key.len() as int]);
        }
    }
    assert(p.0 =~= key) by {
        assert forall|k: int| 0 <= k < key.len() implies p.0[k] == key[k] by {
            assert((p.0 + seq!['='] + p.1)[k] == line[k]);
        }
    }
    assert(p.1 =~= value) by {
        assert(p.1.len() == value.len());
        assert forall|k: int| 0 <= k < value.len() implies p.1[k] == value[k] by {
            assert((p.0 + seq!['='] + p.1)[key.len() + 1 + k] == line[key.len() + 1 + k]);
        }
    }
    if unquoted(value).contains('\0') {
        let u = unquoted(value);
        let k = choose|k: int| 0 <= k < u.len() && u[k] == '\0';
        if u.len() != value.len() {
            assert(value[k + 1] == '\0');
        }
    }
}

/// One pair of quotes around a value is taken off, and a value without one stays as it is.
pub proof fn lemma_quotes_are_taken_off(value: Seq<char>)
    ensures
        unquoted(seq!['"'] + value + seq!['"']) == value,
        unquoted(seq!['\''] + value + seq!['\'']) == value,
        (value.len() > 0 && value[0] != '"' && value[0] != '\'') ==> unquoted(value) == value,
{
    assert(unquoted(seq!['"'] + value + seq!['"']) =~= value);
    assert(unquoted(seq!['\''] + value + seq!['\'']) =~= value);
}

/// The settings that decide on tokens, commands, scopes and binaries cannot come from a file.
pub proof fn lemma_settings_that_no_file_supplies()
    ensures
        is_denied("OMO_BRIDGE_TOKEN"@),
        is_denied("OMO_BRIDGE_TOKEN_FILE"@),
        is_denied("OMO_BRIDGE_INSECURE_NO_AUTH"@),
        is_denied("OMO_BRIDGE_ALLOW_ARBITRARY_COMMANDS"@),
        is_denied("OMO_BRIDGE_READ_ONLY"@),
        is_denied("OMO_SCOPE_DIR"@),
        is_denied("OMO_ALLOWED_BINARIES"@),
        is_denied("ALLOWED_BINARIES"@),
        !is_denied("OMO_BRIDGE_PORT"@),
{
    reveal_strlit("OMO_BRIDGE_TOKEN");
    reveal_strlit("OMO_BRIDGE_TOKEN_FILE");
    reveal_strlit("OMO_BRIDGE_INSECURE_NO_AUTH");
    reveal_strlit("OMO_BRIDGE_ALLOW_ARBITRARY_COMMANDS");
    reveal_strlit("OMO_BRIDGE_READ_ONLY");
    reveal_strlit("OMO_SCOPE_DIR");
    reveal_strlit("OMO_ALLOWED_BINARIES");
    reveal_strlit("ALLOWED_BINARIES");
    reveal_strlit("OMO_BRIDGE_PORT");
    assert("OMO_BRIDGE_TOKEN"@.len() == 16);
    assert("OMO_BRIDGE_TOKEN_FILE"@.len() == 21);
    assert("OMO_BRIDGE_INSECURE_NO_AUTH"@.len() == 27);
    assert("OMO_BRIDGE_ALLOW_ARBITRARY_COMMANDS"@.len() == 35);
    assert("OMO_BRIDGE_READ_ONLY"@.len() == 20);
    assert("OMO_SCOPE_DIR"@.len() == 13);
    assert("OMO_ALLOWED_BINARIES"@.len() == 20);
    assert("ALLOWED_BINARIES"@.len() == 16);
    assert("OMO_BRIDGE_PORT"@.len() == 15);
    assert("OMO_BRIDGE_TOKEN"@[0] != "ALLOWED_BINARIES"@[0]);
    assert("OMO_BRIDGE_READ_ONLY"@[4] != "OMO_ALLOWED_BINARIES"@[4]);
}

/// The addresses of the local machine: all that begin with 127, and the one of the newer protocol.
pub proof fn lemma_local_addresses(a: u8, rest: u32)
    requires
        rest < 0x100_0000,
    ensures
        IpNumber::V4((a * 0x100_0000 + rest) as u32).is_local() <==> a == 127,
        IpNumber::V6(1).is_local(),
        forall|n: u128| #[trigger] IpNumber::V6(n).is_local() ==> n == 1,
{
    let n: int = a * 0x100_0000 + rest;
    assert(n / 0x100_0000 == a) by (nonlinear_arith)
        requires
            n == a * 0x100_0000 + rest,
            0 <= rest < 0x100_0000,
    ;
}

} // verus!
