//! What holds of what is reported: of delegations, and of accounts.
use crate::account_diagnostics::{diagnostic_head, diagnostic_json, health_name, next_slot,
    noted_health, routing_state, routing_state_name, stale_positions, with_number, with_text,
    AccountDiagnostic, AccountRoutingState};
use crate::account_state::{AccountHealth, StateModel};
use crate::accounts::{AccountConfig, AccountsConfig};
use crate::arith::{least, lemma_least, seconds_ms};
use crate::browser_pool::{login_name, reachability_name, BrowserHealth};
use crate::delegate::control::DelegateOptions;
use crate::delegate::report::{claimed_entries, claimed_scope_json, delegation_json,
    delegations_json, dispatched_json, dispatched_note, duplicate_json, result_json, result_text,
    session_state, terminal_note, worker_line, BatchOutcome, ObservationModel, SessionDisposition,
    StagedDelegation, StagedModel, DUPLICATE_DETAIL};
use crate::fresh_dispatch::FreshDispatchClaim;
use crate::json::{lemma_first_field_is_held, number_or_null, object_holds, object_lacks, or_null,
    text_or_null, JsonModel};
use crate::laws::texts::{lemma_ends_of_a_text, lemma_part_stands};
use crate::orca::BrowserDriverKind;
use crate::router::{account_now, count_for, exhaustion_json, reserved_active, AccountRouter,
    ExhaustionModel, LoadModel};
use crate::security::workspace::{ScopeModel, WorkspaceMux};
use crate::shelf::{slot_value, Slot};
use crate::task_state::{lifecycle_json, terminal_name, terminal_or_null, DelegationLifecycle,
    LifecycleSeen};
use crate::text::{contains_text, decimal, has_prefix, has_suffix, opt_text};
use vstd::prelude::*;

verus! {

/// The result says of every worker who it is, whether it got its task, how it ended and what became of
/// its page.
pub proof fn lemma_worker_is_reported(index: int, item: StagedModel, o: BatchOutcome)
    ensures
        ({
            let v = delegation_json(index, item, o);
            &&& object_holds(v, "index"@, JsonModel::Unsigned((index + 1) as u64))
            &&& object_holds(v, "label"@, text_or_null(item.label))
            &&& object_holds(v, "scope_id"@, JsonModel::Text(item.scope_id))
            &&& object_holds(v, "workspace"@, JsonModel::Text(item.workspace))
            &&& object_holds(v, "browser_page_id"@, text_or_null(item.browser_page_id))
            &&& object_holds(v, "account_id"@, JsonModel::Text(item.account_id))
            &&& object_holds(v, "browser_instance"@, text_or_null(item.browser_instance))
            &&& object_holds(v, "generation"@, JsonModel::Unsigned(item.generation))
            &&& object_holds(v, "resumed"@, JsonModel::Bool(item.resumed))
            &&& object_holds(v, "ready"@, JsonModel::Bool(o.readiness_complete))
            &&& object_holds(v, "actual_task_sent"@, JsonModel::Bool(o.sent_to(index)))
            &&& object_holds(v, "terminal_state"@, match o.end_of(index) { Some(e) => JsonModel::Text(terminal_name(e.state)), None => JsonModel::Null })
            &&& object_holds(v, "terminal_detail"@, match o.end_of(index) { Some(e) => text_or_null(e.detail), None => JsonModel::Null })
            &&& object_holds(v, "terminal_ms"@, match o.end_of(index) { Some(e) => number_or_null(e.terminal_ms), None => JsonModel::Null })
            &&& object_holds(v, "task_result"@, match o.end_of(index) { Some(e) => or_null(e.task_result), None => JsonModel::Null })
            &&& object_holds(v, "session_state"@, JsonModel::Text(session_state(o.session_of(index))))
            &&& object_holds(v, "session_retained"@, JsonModel::Bool(o.session_of(index).retained))
            &&& object_holds(v, "session_closed"@, JsonModel::Bool(o.session_of(index).closed))
            &&& object_holds(v, "session_expired"@, JsonModel::Bool(o.session_of(index).expired))
            &&& object_holds(v, "lease_expires_ms"@, number_or_null(o.session_of(index).lease_expires_ms))
            &&& object_holds(v, "session_error"@, text_or_null(opt_text(o.session_of(index).error)))
            &&& object_holds(v, "resumable"@, JsonModel::Bool(o.session_of(index).retained))
        }),
{
    reveal_strlit("index");
    reveal_strlit("label");
    reveal_strlit("scope_id");
    reveal_strlit("workspace");
    reveal_strlit("browser_page_id");
    reveal_strlit("account_id");
    reveal_strlit("browser_instance");
    reveal_strlit("generation");
    reveal_strlit("resumed");
    reveal_strlit("ready");
    reveal_strlit("actual_task_sent");
    reveal_strlit("terminal_state");
    reveal_strlit("terminal_detail");
    reveal_strlit("terminal_ms");
    reveal_strlit("task_result");
    reveal_strlit("session_state");
    reveal_strlit("session_retained");
    reveal_strlit("session_closed");
    reveal_strlit("session_expired");
    reveal_strlit("lease_expires_ms");
    reveal_strlit("session_error");
    reveal_strlit("resumable");
    assert("index"@.len() == 5);
    assert("label"@.len() == 5);
    assert("scope_id"@.len() == 8);
    assert("workspace"@.len() == 9);
    assert("browser_page_id"@.len() == 15);
    assert("account_id"@.len() == 10);
    assert("browser_instance"@.len() == 16);
    assert("generation"@.len() == 10);
    assert("resumed"@.len() == 7);
    assert("ready"@.len() == 5);
    assert("actual_task_sent"@.len() == 16);
    assert("terminal_state"@.len() == 14);
    assert("terminal_detail"@.len() == 15);
    assert("terminal_ms"@.len() == 11);
    assert("task_result"@.len() == 11);
    assert("session_state"@.len() == 13);
    assert("session_retained"@.len() == 16);
    assert("session_closed"@.len() == 14);
    assert("session_expired"@.len() == 15);
    assert("lease_expires_ms"@.len() == 16);
    assert("session_error"@.len() == 13);
    assert("resumable"@.len() == 9);
    assert("index"@[0] != "label"@[0]);
    assert("index"@[0] != "ready"@[0]);
    assert("label"@[0] != "ready"@[0]);
    assert("workspace"@[0] != "resumable"@[0]);
    assert("browser_page_id"@[0] != "terminal_detail"@[0]);
    assert("browser_page_id"@[0] != "session_expired"@[0]);
    assert("account_id"@[0] != "generation"@[0]);
    assert("browser_instance"@[0] != "actual_task_sent"@[0]);
    assert("browser_instance"@[0] != "session_retained"@[0]);
    assert("browser_instance"@[0] != "lease_expires_ms"@[0]);
    assert("actual_task_sent"@[0] != "session_retained"@[0]);
    assert("actual_task_sent"@[0] != "lease_expires_ms"@[0]);
    assert("terminal_state"@[0] != "session_closed"@[0]);
    assert("terminal_detail"@[0] != "session_expired"@[0]);
    assert("terminal_ms"@[1] != "task_result"@[1]);
    assert("session_state"@[8] != "session_error"@[8]);
    assert("session_retained"@[0] != "lease_expires_ms"@[0]);
    let fields = delegation_json(index, item, o)->Object_0;
    assert(fields[0].0 == "index"@);
    assert(fields[1].0 == "label"@);
    assert(fields[2].0 == "scope_id"@);
    assert(fields[3].0 == "workspace"@);
    assert(fields[4].0 == "browser_page_id"@);
    assert(fields[5].0 == "account_id"@);
    assert(fields[6].0 == "browser_instance"@);
    assert(fields[7].0 == "generation"@);
    assert(fields[8].0 == "resumed"@);
    assert(fields[9].0 == "ready"@);
    assert(fields[10].0 == "actual_task_sent"@);
    assert(fields[11].0 == "terminal_state"@);
    assert(fields[12].0 == "terminal_detail"@);
    assert(fields[13].0 == "terminal_ms"@);
    assert(fields[14].0 == "task_result"@);
    assert(fields[15].0 == "session_state"@);
    assert(fields[16].0 == "session_retained"@);
    assert(fields[17].0 == "session_closed"@);
    assert(fields[18].0 == "session_expired"@);
    assert(fields[19].0 == "lease_expires_ms"@);
    assert(fields[20].0 == "session_error"@);
    assert(fields[21].0 == "resumable"@);
    lemma_first_field_is_held(fields, 0, "index"@, JsonModel::Unsigned((index + 1) as u64));
    lemma_first_field_is_held(fields, 1, "label"@, text_or_null(item.label));
    lemma_first_field_is_held(fields, 2, "scope_id"@, JsonModel::Text(item.scope_id));
    lemma_first_field_is_held(fields, 3, "workspace"@, JsonModel::Text(item.workspace));
    lemma_first_field_is_held(fields, 4, "browser_page_id"@, text_or_null(item.browser_page_id));
    lemma_first_field_is_held(fields, 5, "account_id"@, JsonModel::Text(item.account_id));
    lemma_first_field_is_held(fields, 6, "browser_instance"@, text_or_null(item.browser_instance));
    lemma_first_field_is_held(fields, 7, "generation"@, JsonModel::Unsigned(item.generation));
    lemma_first_field_is_held(fields, 8, "resumed"@, JsonModel::Bool(item.resumed));
    lemma_first_field_is_held(fields, 9, "ready"@, JsonModel::Bool(o.readiness_complete));
    lemma_first_field_is_held(fields, 10, "actual_task_sent"@, JsonModel::Bool(o.sent_to(index)));
    lemma_first_field_is_held(fields, 11, "terminal_state"@, match o.end_of(index) { Some(e) => JsonModel::Text(terminal_name(e.state)), None => JsonModel::Null });
    lemma_first_field_is_held(fields, 12, "terminal_detail"@, match o.end_of(index) { Some(e) => text_or_null(e.detail), None => JsonModel::Null });
    lemma_first_field_is_held(fields, 13, "terminal_ms"@, match o.end_of(index) { Some(e) => number_or_null(e.terminal_ms), None => JsonModel::Null });
    lemma_first_field_is_held(fields, 14, "task_result"@, match o.end_of(index) { Some(e) => or_null(e.task_result), None => JsonModel::Null });
    lemma_first_field_is_held(fields, 15, "session_state"@, JsonModel::Text(session_state(o.session_of(index))));
    lemma_first_field_is_held(fields, 16, "session_retained"@, JsonModel::Bool(o.session_of(index).retained));
    lemma_first_field_is_held(fields, 17, "session_closed"@, JsonModel::Bool(o.session_of(index).closed));
    lemma_first_field_is_held(fields, 18, "session_expired"@, JsonModel::Bool(o.session_of(index).expired));
    lemma_first_field_is_held(fields, 19, "lease_expires_ms"@, number_or_null(o.session_of(index).lease_expires_ms));
    lemma_first_field_is_held(fields, 20, "session_error"@, text_or_null(opt_text(o.session_of(index).error)));
    lemma_first_field_is_held(fields, 21, "resumable"@, JsonModel::Bool(o.session_of(index).retained));
}

/// What became of a page goes by three names: kept, closed, or not known.
pub proof fn lemma_pages_have_states(s: SessionDisposition)
    ensures
        s.retained ==> session_state(s) == "IDLE_RETAINED"@,
        !s.retained && s.closed ==> session_state(s) == "CLOSED"@,
        !s.retained && !s.closed ==> session_state(s) == "UNAVAILABLE"@,
{
}

/// A worker got its task, has an end and has a page where the outcome says so under its number.
pub proof fn lemma_outcome_is_read_by_number(o: BatchOutcome, index: int)
    ensures
        0 <= index < o.actual_sent@.len() ==> o.sent_to(index) == o.actual_sent@[index],
        index >= o.actual_sent@.len() ==> !o.sent_to(index),
        0 <= index < o.terminal@.len() ==> o.end_of(index) == Some(o.terminal@[index]@),
        index >= o.terminal@.len() ==> o.end_of(index) is None,
        0 <= index < o.sessions@.len() ==> o.session_of(index) == o.sessions@[index],
        index >= o.sessions@.len() ==> !o.session_of(index).retained && !o.session_of(index).closed
            && o.session_of(index).error is None,
{
}

/// The result of a request says how it was set up and how it came out, and has one entry for each
/// worker, in their order.
pub proof fn lemma_result_is_reported(
    opts: DelegateOptions,
    max_new: usize,
    max_concurrent: usize,
    scope_dir: Seq<char>,
    bridge_url: Seq<char>,
    staged: Seq<StagedDelegation>,
    o: BatchOutcome,
)
    ensures
        ({
            let v = result_json(opts, max_new, max_concurrent, scope_dir, bridge_url, staged, o);
            &&& object_holds(v, "ok"@, JsonModel::Bool(opts.dry_run || (o.all_completed(staged.len() as int) && o.all_sent(staged.len() as int))))
            &&& object_holds(v, "sent"@, JsonModel::Bool(o.all_sent(staged.len() as int)))
            &&& object_holds(v, "ready"@, JsonModel::Bool(o.readiness_complete))
            &&& object_holds(v, "terminal"@, JsonModel::Bool(o.terminal_complete))
            &&& object_holds(v, "session_ok"@, JsonModel::Bool(o.sessions_ok(staged.len() as int)))
            &&& object_holds(v, "session_policy"@, JsonModel::Text(if opts.close_on_terminal { "CLOSE_ON_TERMINAL"@ } else { "IDLE_RETAINED"@ }))
            &&& object_holds(v, "session_ttl_minutes"@, JsonModel::Unsigned(opts.session_ttl_minutes))
            &&& object_holds(v, "parallel_count"@, JsonModel::Unsigned(staged.len() as u64))
            &&& object_holds(v, "max_parallel"@, JsonModel::Unsigned(max_new as u64))
            &&& object_holds(v, "max_concurrent"@, JsonModel::Unsigned(max_concurrent as u64))
            &&& object_holds(v, "scope_dir"@, JsonModel::Text(scope_dir))
            &&& object_holds(v, "bridge_url"@, JsonModel::Text(bridge_url))
            &&& object_holds(v, "delegations"@, delegations_json(staged, o))
        }),
{
    reveal_strlit("ok");
    reveal_strlit("sent");
    reveal_strlit("ready");
    reveal_strlit("terminal");
    reveal_strlit("session_ok");
    reveal_strlit("session_policy");
    reveal_strlit("session_ttl_minutes");
    reveal_strlit("parallel_count");
    reveal_strlit("max_parallel");
    reveal_strlit("max_concurrent");
    reveal_strlit("scope_dir");
    reveal_strlit("bridge_url");
    reveal_strlit("delegations");
    assert("ok"@.len() == 2);
    assert("sent"@.len() == 4);
    assert("ready"@.len() == 5);
    assert("terminal"@.len() == 8);
    assert("session_ok"@.len() == 10);
    assert("session_policy"@.len() == 14);
    assert("session_ttl_minutes"@.len() == 19);
    assert("parallel_count"@.len() == 14);
    assert("max_parallel"@.len() == 12);
    assert("max_concurrent"@.len() == 14);
    assert("scope_dir"@.len() == 9);
    assert("bridge_url"@.len() == 10);
    assert("delegations"@.len() == 11);
    assert("session_ok"@[0] != "bridge_url"@[0]);
    assert("session_policy"@[0] != "parallel_count"@[0]);
    assert("session_policy"@[0] != "max_concurrent"@[0]);
    assert("parallel_count"@[0] != "max_concurrent"@[0]);
    let fields = result_json(opts, max_new, max_concurrent, scope_dir, bridge_url, staged, o)->Object_0;
    assert(fields[0].0 == "ok"@);
    assert(fields[1].0 == "sent"@);
    assert(fields[2].0 == "ready"@);
    assert(fields[3].0 == "terminal"@);
    assert(fields[4].0 == "session_ok"@);
    assert(fields[5].0 == "session_policy"@);
    assert(fields[6].0 == "session_ttl_minutes"@);
    assert(fields[7].0 == "parallel_count"@);
    assert(fields[8].0 == "max_parallel"@);
    assert(fields[9].0 == "max_concurrent"@);
    assert(fields[10].0 == "scope_dir"@);
    assert(fields[11].0 == "bridge_url"@);
    assert(fields[12].0 == "delegations"@);
    lemma_first_field_is_held(fields, 0, "ok"@, JsonModel::Bool(opts.dry_run || (o.all_completed(staged.len() as int) && o.all_sent(staged.len() as int))));
    lemma_first_field_is_held(fields, 1, "sent"@, JsonModel::Bool(o.all_sent(staged.len() as int)));
    lemma_first_field_is_held(fields, 2, "ready"@, JsonModel::Bool(o.readiness_complete));
    lemma_first_field_is_held(fields, 3, "terminal"@, JsonModel::Bool(o.terminal_complete));
    lemma_first_field_is_held(fields, 4, "session_ok"@, JsonModel::Bool(o.sessions_ok(staged.len() as int)));
    lemma_first_field_is_held(fields, 5, "session_policy"@, JsonModel::Text(if opts.close_on_terminal { "CLOSE_ON_TERMINAL"@ } else { "IDLE_RETAINED"@ }));
    lemma_first_field_is_held(fields, 6, "session_ttl_minutes"@, JsonModel::Unsigned(opts.session_ttl_minutes));
    lemma_first_field_is_held(fields, 7, "parallel_count"@, JsonModel::Unsigned(staged.len() as u64));
    lemma_first_field_is_held(fields, 8, "max_parallel"@, JsonModel::Unsigned(max_new as u64));
    lemma_first_field_is_held(fields, 9, "max_concurrent"@, JsonModel::Unsigned(max_concurrent as u64));
    lemma_first_field_is_held(fields, 10, "scope_dir"@, JsonModel::Text(scope_dir));
    lemma_first_field_is_held(fields, 11, "bridge_url"@, JsonModel::Text(bridge_url));
    lemma_first_field_is_held(fields, 12, "delegations"@, delegations_json(staged, o));
}

/// A request succeeded where all of its workers got their tasks and finished them; there is at least
/// one, and no other way.
pub proof fn lemma_success_means_all_finished(o: BatchOutcome, count: int)
    requires
        count >= 0,
    ensures
        o.all_completed(count) <==> {
            &&& o.terminal_complete
            &&& o.terminal@.len() == count
            &&& forall|i: int| 0 <= i < count ==> (#[trigger] o.terminal@[i]).state is Completed
        },
        o.all_sent(count) <==> {
            &&& count > 0
            &&& o.actual_sent@.len() == count
            &&& forall|i: int| 0 <= i < count ==> #[trigger] o.actual_sent@[i]
        },
        o.sessions_ok(count) <==> o.sessions@.len() == 0 || (o.sessions@.len() == count && forall|
            i: int,
        |
            0 <= i < count ==> (#[trigger] o.sessions@[i]).error is None),
{
}

/// The entries of a result are those of its workers.
pub proof fn lemma_every_worker_has_an_entry(staged: Seq<StagedDelegation>, o: BatchOutcome, i: int)
    requires
        0 <= i < staged.len(),
    ensures
        delegations_json(staged, o)->Array_0.len() == staged.len(),
        delegations_json(staged, o)->Array_0[i] == delegation_json(i, staged[i]@, o),
{
}

/// What the note on dispatched work says of a worker.
pub proof fn lemma_dispatched_worker_is_told(index: int, item: StagedModel)
    ensures
        ({
            let v = dispatched_json(index, item);
            &&& object_holds(v, "index"@, JsonModel::Unsigned((index + 1) as u64))
            &&& object_holds(v, "label"@, text_or_null(item.label))
            &&& object_holds(v, "scope_id"@, JsonModel::Text(item.scope_id))
            &&& object_holds(v, "workspace"@, JsonModel::Text(item.workspace))
            &&& object_holds(v, "browser_page_id"@, JsonModel::Text(item.browser_page_id->0))
            &&& object_holds(v, "account_id"@, JsonModel::Text(item.account_id))
            &&& object_holds(v, "browser_instance"@, text_or_null(item.browser_instance))
            &&& object_holds(v, "generation"@, JsonModel::Unsigned(item.generation))
            &&& object_holds(v, "ready"@, JsonModel::Bool(true))
            &&& object_holds(v, "actual_task_sent"@, JsonModel::Bool(true))
        }),
{
    reveal_strlit("index");
    reveal_strlit("label");
    reveal_strlit("scope_id");
    reveal_strlit("workspace");
    reveal_strlit("browser_page_id");
    reveal_strlit("account_id");
    reveal_strlit("browser_instance");
    reveal_strlit("generation");
    reveal_strlit("ready");
    reveal_strlit("actual_task_sent");
    assert("index"@.len() == 5);
    assert("label"@.len() == 5);
    assert("scope_id"@.len() == 8);
    assert("workspace"@.len() == 9);
    assert("browser_page_id"@.len() == 15);
    assert("account_id"@.len() == 10);
    assert("browser_instance"@.len() == 16);
    assert("generation"@.len() == 10);
    assert("ready"@.len() == 5);
    assert("actual_task_sent"@.len() == 16);
    assert("index"@[0] != "label"@[0]);
    assert("index"@[0] != "ready"@[0]);
    assert("label"@[0] != "ready"@[0]);
    assert("account_id"@[0] != "generation"@[0]);
    assert("browser_instance"@[0] != "actual_task_sent"@[0]);
    let fields = dispatched_json(index, item)->Object_0;
    assert(fields[0].0 == "index"@);
    assert(fields[1].0 == "label"@);
    assert(fields[2].0 == "scope_id"@);
    assert(fields[3].0 == "workspace"@);
    assert(fields[4].0 == "browser_page_id"@);
    assert(fields[5].0 == "account_id"@);
    assert(fields[6].0 == "browser_instance"@);
    assert(fields[7].0 == "generation"@);
    assert(fields[8].0 == "ready"@);
    assert(fields[9].0 == "actual_task_sent"@);
    lemma_first_field_is_held(fields, 0, "index"@, JsonModel::Unsigned((index + 1) as u64));
    lemma_first_field_is_held(fields, 1, "label"@, text_or_null(item.label));
    lemma_first_field_is_held(fields, 2, "scope_id"@, JsonModel::Text(item.scope_id));
    lemma_first_field_is_held(fields, 3, "workspace"@, JsonModel::Text(item.workspace));
    lemma_first_field_is_held(fields, 4, "browser_page_id"@, JsonModel::Text(item.browser_page_id->0));
    lemma_first_field_is_held(fields, 5, "account_id"@, JsonModel::Text(item.account_id));
    lemma_first_field_is_held(fields, 6, "browser_instance"@, text_or_null(item.browser_instance));
    lemma_first_field_is_held(fields, 7, "generation"@, JsonModel::Unsigned(item.generation));
    lemma_first_field_is_held(fields, 8, "ready"@, JsonModel::Bool(true));
    lemma_first_field_is_held(fields, 9, "actual_task_sent"@, JsonModel::Bool(true));
}

/// The note on dispatched work has one entry for each worker, in their order.
pub proof fn lemma_dispatched_work_is_told(
    bridge_url: Seq<char>,
    staged: Seq<StagedDelegation>,
    i: int,
)
    requires
        0 <= i < staged.len(),
    ensures
        ({
            let v = dispatched_note(bridge_url, staged);
            &&& object_holds(v, "event"@, JsonModel::Text("dispatched"@))
            &&& object_holds(v, "bridge_url"@, JsonModel::Text(bridge_url))
            &&& object_holds(v, "parallel_count"@, JsonModel::Unsigned(staged.len() as u64))
            &&& v.field("delegations"@) matches Some(JsonModel::Array(all))
            &&& all.len() == staged.len()
            &&& all[i] == dispatched_json(i, staged[i]@)
        }),
{
    reveal_strlit("event");
    reveal_strlit("bridge_url");
    reveal_strlit("parallel_count");
    reveal_strlit("delegations");
    assert("event"@.len() == 5);
    assert("bridge_url"@.len() == 10);
    assert("parallel_count"@.len() == 14);
    assert("delegations"@.len() == 11);
    let fields = dispatched_note(bridge_url, staged)->Object_0;
    assert(fields[0].0 == "event"@);
    assert(fields[1].0 == "bridge_url"@);
    assert(fields[2].0 == "parallel_count"@);
    lemma_first_field_is_held(fields, 0, "event"@, JsonModel::Text("dispatched"@));
    lemma_first_field_is_held(fields, 1, "bridge_url"@, JsonModel::Text(bridge_url));
    lemma_first_field_is_held(
        fields,
        2,
        "parallel_count"@,
        JsonModel::Unsigned(staged.len() as u64),
    );
    lemma_first_field_is_held(fields, 3, "delegations"@, fields[3].1);
}

/// The note that a worker's task ended says whose, and how.
pub proof fn lemma_end_of_a_worker_is_told(
    bridge_url: Seq<char>,
    index: int,
    item: StagedModel,
    end: ObservationModel,
)
    ensures
        ({
            let v = terminal_note(bridge_url, index, item, end);
            &&& object_holds(v, "event"@, JsonModel::Text("terminal"@))
            &&& object_holds(v, "bridge_url"@, JsonModel::Text(bridge_url))
            &&& object_holds(v, "index"@, JsonModel::Unsigned((index + 1) as u64))
            &&& object_holds(v, "label"@, text_or_null(item.label))
            &&& object_holds(v, "scope_id"@, JsonModel::Text(item.scope_id))
            &&& object_holds(v, "browser_page_id"@, text_or_null(item.browser_page_id))
            &&& object_holds(v, "account_id"@, JsonModel::Text(item.account_id))
            &&& object_holds(v, "browser_instance"@, text_or_null(item.browser_instance))
            &&& object_holds(v, "generation"@, JsonModel::Unsigned(item.generation))
            &&& object_holds(v, "terminal_state"@, JsonModel::Text(terminal_name(end.state)))
            &&& object_holds(v, "terminal_detail"@, text_or_null(end.detail))
            &&& object_holds(v, "terminal_ms"@, number_or_null(end.terminal_ms))
            &&& object_holds(v, "task_result"@, or_null(end.task_result))
        }),
{
    reveal_strlit("event");
    reveal_strlit("bridge_url");
    reveal_strlit("index");
    reveal_strlit("label");
    reveal_strlit("scope_id");
    reveal_strlit("browser_page_id");
    reveal_strlit("account_id");
    reveal_strlit("browser_instance");
    reveal_strlit("generation");
    reveal_strlit("terminal_state");
    reveal_strlit("terminal_detail");
    reveal_strlit("terminal_ms");
    reveal_strlit("task_result");
    assert("event"@.len() == 5);
    assert("bridge_url"@.len() == 10);
    assert("index"@.len() == 5);
    assert("label"@.len() == 5);
    assert("scope_id"@.len() == 8);
    assert("browser_page_id"@.len() == 15);
    assert("account_id"@.len() == 10);
    assert("browser_instance"@.len() == 16);
    assert("generation"@.len() == 10);
    assert("terminal_state"@.len() == 14);
    assert("terminal_detail"@.len() == 15);
    assert("terminal_ms"@.len() == 11);
    assert("task_result"@.len() == 11);
    assert("event"@[0] != "index"@[0]);
    assert("event"@[0] != "label"@[0]);
    assert("bridge_url"@[0] != "account_id"@[0]);
    assert("bridge_url"@[0] != "generation"@[0]);
    assert("index"@[0] != "label"@[0]);
    assert("browser_page_id"@[0] != "terminal_detail"@[0]);
    assert("account_id"@[0] != "generation"@[0]);
    assert("terminal_ms"@[1] != "task_result"@[1]);
    let fields = terminal_note(bridge_url, index, item, end)->Object_0;
    assert(fields[0].0 == "event"@);
    assert(fields[1].0 == "bridge_url"@);
    assert(fields[2].0 == "index"@);
    assert(fields[3].0 == "label"@);
    assert(fields[4].0 == "scope_id"@);
    assert(fields[5].0 == "browser_page_id"@);
    assert(fields[6].0 == "account_id"@);
    assert(fields[7].0 == "browser_instance"@);
    assert(fields[8].0 == "generation"@);
    assert(fields[9].0 == "terminal_state"@);
    assert(fields[10].0 == "terminal_detail"@);
    assert(fields[11].0 == "terminal_ms"@);
    assert(fields[12].0 == "task_result"@);
    lemma_first_field_is_held(fields, 0, "event"@, JsonModel::Text("terminal"@));
    lemma_first_field_is_held(fields, 1, "bridge_url"@, JsonModel::Text(bridge_url));
    lemma_first_field_is_held(fields, 2, "index"@, JsonModel::Unsigned((index + 1) as u64));
    lemma_first_field_is_held(fields, 3, "label"@, text_or_null(item.label));
    lemma_first_field_is_held(fields, 4, "scope_id"@, JsonModel::Text(item.scope_id));
    lemma_first_field_is_held(fields, 5, "browser_page_id"@, text_or_null(item.browser_page_id));
    lemma_first_field_is_held(fields, 6, "account_id"@, JsonModel::Text(item.account_id));
    lemma_first_field_is_held(fields, 7, "browser_instance"@, text_or_null(item.browser_instance));
    lemma_first_field_is_held(fields, 8, "generation"@, JsonModel::Unsigned(item.generation));
    lemma_first_field_is_held(fields, 9, "terminal_state"@, JsonModel::Text(terminal_name(end.state)));
    lemma_first_field_is_held(fields, 10, "terminal_detail"@, text_or_null(end.detail));
    lemma_first_field_is_held(fields, 11, "terminal_ms"@, number_or_null(end.terminal_ms));
    lemma_first_field_is_held(fields, 12, "task_result"@, or_null(end.task_result));
}

/// What is said of a scope in which claimed work goes on is what the scope and its record say.
pub proof fn lemma_claimed_scope_is_told(
    scope_id: Seq<char>,
    scope: ScopeModel,
    lifecycle: Option<DelegationLifecycle>,
)
    ensures
        ({
            let v = claimed_scope_json(scope_id, scope, lifecycle);
            &&& object_holds(v, "scope_id"@, JsonModel::Text(scope_id))
            &&& object_holds(v, "workspace"@, JsonModel::Text(scope.workspace))
            &&& object_holds(v, "browser_page_id"@, text_or_null(scope.page()))
            &&& object_holds(v, "account_id"@, JsonModel::Text(scope.account()))
            &&& object_holds(v, "browser_instance"@, text_or_null(scope.instance()))
            &&& object_holds(v, "generation"@, match lifecycle { Some(l) => JsonModel::Unsigned(l.generation), None => JsonModel::Null })
            &&& object_holds(v, "terminal_state"@, match lifecycle { Some(l) => terminal_or_null(l.terminal_state), None => JsonModel::Null })
            &&& object_holds(v, "terminal_detail"@, match lifecycle { Some(l) => text_or_null(opt_text(l.terminal_detail)), None => JsonModel::Null })
            &&& object_holds(v, "session_state"@, JsonModel::Text(if lifecycle is Some && lifecycle->0.terminal_state is Some { "TERMINAL"@ } else { "ACTIVE"@ }))
            &&& object_holds(v, "lifecycle"@, match lifecycle { Some(l) => lifecycle_json(l), None => JsonModel::Null })
        }),
{
    reveal_strlit("scope_id");
    reveal_strlit("workspace");
    reveal_strlit("browser_page_id");
    reveal_strlit("account_id");
    reveal_strlit("browser_instance");
    reveal_strlit("generation");
    reveal_strlit("terminal_state");
    reveal_strlit("terminal_detail");
    reveal_strlit("session_state");
    reveal_strlit("lifecycle");
    assert("scope_id"@.len() == 8);
    assert("workspace"@.len() == 9);
    assert("browser_page_id"@.len() == 15);
    assert("account_id"@.len() == 10);
    assert("browser_instance"@.len() == 16);
    assert("generation"@.len() == 10);
    assert("terminal_state"@.len() == 14);
    assert("terminal_detail"@.len() == 15);
    assert("session_state"@.len() == 13);
    assert("lifecycle"@.len() == 9);
    assert("workspace"@[0] != "lifecycle"@[0]);
    assert("browser_page_id"@[0] != "terminal_detail"@[0]);
    assert("account_id"@[0] != "generation"@[0]);
    let fields = claimed_scope_json(scope_id, scope, lifecycle)->Object_0;
    assert(fields[0].0 == "scope_id"@);
    assert(fields[1].0 == "workspace"@);
    assert(fields[2].0 == "browser_page_id"@);
    assert(fields[3].0 == "account_id"@);
    assert(fields[4].0 == "browser_instance"@);
    assert(fields[5].0 == "generation"@);
    assert(fields[6].0 == "terminal_state"@);
    assert(fields[7].0 == "terminal_detail"@);
    assert(fields[8].0 == "session_state"@);
    assert(fields[9].0 == "lifecycle"@);
    lemma_first_field_is_held(fields, 0, "scope_id"@, JsonModel::Text(scope_id));
    lemma_first_field_is_held(fields, 1, "workspace"@, JsonModel::Text(scope.workspace));
    lemma_first_field_is_held(fields, 2, "browser_page_id"@, text_or_null(scope.page()));
    lemma_first_field_is_held(fields, 3, "account_id"@, JsonModel::Text(scope.account()));
    lemma_first_field_is_held(fields, 4, "browser_instance"@, text_or_null(scope.instance()));
    lemma_first_field_is_held(fields, 5, "generation"@, match lifecycle { Some(l) => JsonModel::Unsigned(l.generation), None => JsonModel::Null });
    lemma_first_field_is_held(fields, 6, "terminal_state"@, match lifecycle { Some(l) => terminal_or_null(l.terminal_state), None => JsonModel::Null });
    lemma_first_field_is_held(fields, 7, "terminal_detail"@, match lifecycle { Some(l) => text_or_null(opt_text(l.terminal_detail)), None => JsonModel::Null });
    lemma_first_field_is_held(fields, 8, "session_state"@, JsonModel::Text(if lifecycle is Some && lifecycle->0.terminal_state is Some { "TERMINAL"@ } else { "ACTIVE"@ }));
    lemma_first_field_is_held(fields, 9, "lifecycle"@, match lifecycle { Some(l) => lifecycle_json(l), None => JsonModel::Null });
}

/// A request for work that goes on already is refused, and the work that goes on is named.
pub proof fn lemma_duplicate_request_is_told(
    scope_dir: Seq<char>,
    bridge_url: Seq<char>,
    mux: WorkspaceMux,
    seen: Seq<Slot<LifecycleSeen>>,
    claim: FreshDispatchClaim,
)
    ensures
        ({
            let v = duplicate_json(scope_dir, bridge_url, mux, seen, claim);
            &&& object_holds(v, "ok"@, JsonModel::Bool(false))
            &&& object_holds(v, "sent"@, JsonModel::Bool(false))
            &&& object_holds(v, "ready"@, JsonModel::Bool(false))
            &&& object_holds(v, "terminal"@, JsonModel::Bool(true))
            &&& object_holds(v, "duplicate"@, JsonModel::Bool(true))
            &&& object_holds(v, "code"@, JsonModel::Text("DUPLICATE_ACTIVE_DISPATCH"@))
            &&& object_holds(v, "detail"@, JsonModel::Text(DUPLICATE_DETAIL@))
            &&& object_holds(v, "dispatch_key"@, JsonModel::Text(claim.dispatch_key@))
            &&& object_holds(v, "scope_dir"@, JsonModel::Text(scope_dir))
            &&& object_holds(v, "bridge_url"@, JsonModel::Text(bridge_url))
            &&& object_holds(v, "delegations"@, JsonModel::Array(claimed_entries(mux, seen, claim.scope_ids@)))
        }),
{
    reveal_strlit("ok");
    reveal_strlit("sent");
    reveal_strlit("ready");
    reveal_strlit("terminal");
    reveal_strlit("duplicate");
    reveal_strlit("code");
    reveal_strlit("detail");
    reveal_strlit("dispatch_key");
    reveal_strlit("scope_dir");
    reveal_strlit("bridge_url");
    reveal_strlit("delegations");
    assert("ok"@.len() == 2);
    assert("sent"@.len() == 4);
    assert("ready"@.len() == 5);
    assert("terminal"@.len() == 8);
    assert("duplicate"@.len() == 9);
    assert("code"@.len() == 4);
    assert("detail"@.len() == 6);
    assert("dispatch_key"@.len() == 12);
    assert("scope_dir"@.len() == 9);
    assert("bridge_url"@.len() == 10);
    assert("delegations"@.len() == 11);
    assert("sent"@[0] != "code"@[0]);
    assert("duplicate"@[0] != "scope_dir"@[0]);
    let fields = duplicate_json(scope_dir, bridge_url, mux, seen, claim)->Object_0;
    assert(fields[0].0 == "ok"@);
    assert(fields[1].0 == "sent"@);
    assert(fields[2].0 == "ready"@);
    assert(fields[3].0 == "terminal"@);
    assert(fields[4].0 == "duplicate"@);
    assert(fields[5].0 == "code"@);
    assert(fields[6].0 == "detail"@);
    assert(fields[7].0 == "dispatch_key"@);
    assert(fields[8].0 == "scope_dir"@);
    assert(fields[9].0 == "bridge_url"@);
    assert(fields[10].0 == "delegations"@);
    lemma_first_field_is_held(fields, 0, "ok"@, JsonModel::Bool(false));
    lemma_first_field_is_held(fields, 1, "sent"@, JsonModel::Bool(false));
    lemma_first_field_is_held(fields, 2, "ready"@, JsonModel::Bool(false));
    lemma_first_field_is_held(fields, 3, "terminal"@, JsonModel::Bool(true));
    lemma_first_field_is_held(fields, 4, "duplicate"@, JsonModel::Bool(true));
    lemma_first_field_is_held(fields, 5, "code"@, JsonModel::Text("DUPLICATE_ACTIVE_DISPATCH"@));
    lemma_first_field_is_held(fields, 6, "detail"@, JsonModel::Text(DUPLICATE_DETAIL@));
    lemma_first_field_is_held(fields, 7, "dispatch_key"@, JsonModel::Text(claim.dispatch_key@));
    lemma_first_field_is_held(fields, 8, "scope_dir"@, JsonModel::Text(scope_dir));
    lemma_first_field_is_held(fields, 9, "bridge_url"@, JsonModel::Text(bridge_url));
    lemma_first_field_is_held(fields, 10, "delegations"@, JsonModel::Array(claimed_entries(mux, seen, claim.scope_ids@)));
}

/// Of the scopes of a claim those are told that can be looked up and were looked at, in their order;
/// one whose workspace is gone is not.
pub proof fn lemma_claimed_scopes_are_told(
    mux: WorkspaceMux,
    seen: Seq<Slot<LifecycleSeen>>,
    ids: Seq<String>,
    last: String,
)
    ensures
        claimed_entries(mux, seen, Seq::empty()) == Seq::<JsonModel>::empty(),
        (mux.found(last@) is Ok && slot_value(seen, last@) is Some && slot_value(seen, last@)->0
            !is Unresolved) ==> claimed_entries(mux, seen, ids.push(last)) == claimed_entries(
            mux,
            seen,
            ids,
        ).push(
            claimed_scope_json(
                last@,
                mux.found(last@)->Ok_0,
                match slot_value(seen, last@)->0 {
                    LifecycleSeen::Found(l) => Some(l),
                    _ => None,
                },
            ),
        ),
        (mux.found(last@) is Err || slot_value(seen, last@) is None || slot_value(seen, last@)->0
            is Unresolved) ==> claimed_entries(mux, seen, ids.push(last)) == claimed_entries(
            mux,
            seen,
            ids,
        ),
{
    assert(ids.push(last).drop_last() =~= ids);
}

/// The result for people has a line for each worker, which begins with its number and its scope and,
/// unless it was only rehearsed, ends with what became of its page.
pub proof fn lemma_result_has_a_line_for_each_worker(
    dry_run: bool,
    staged: Seq<StagedDelegation>,
    o: BatchOutcome,
    i: int,
)
    requires
        0 <= i < staged.len(),
    ensures
        ({
            let lines = result_text(dry_run, staged, o);
            let item = staged[i]@;
            &&& lines.len() == staged.len() + 1
            &&& has_prefix(lines[i + 1], decimal((i + 1) as nat) + ". scope="@ + item.scope_id)
            &&& contains_text(lines[0], decimal(staged.len()))
            &&& dry_run ==> has_suffix(
                lines[i + 1],
                " workspace="@ + item.workspace + " page=<dry-run>"@,
            )
            &&& !dry_run ==> {
                &&& has_suffix(lines[i + 1], " session="@ + session_state(o.session_of(i)))
                &&& contains_text(lines[i + 1], " account="@ + item.account_id)
                &&& contains_text(lines[i + 1], " generation="@ + decimal(item.generation as nat))
                &&& item.browser_page_id matches Some(p) ==> contains_text(
                    lines[i + 1],
                    " page="@ + p,
                )
                &&& o.end_of(i) matches Some(e) ==> contains_text(
                    lines[i + 1],
                    " terminal="@ + terminal_name(e.state),
                )
            }
        }),
{
    let lines = result_text(dry_run, staged, o);
    let item = staged[i]@;
    let line = worker_line(dry_run, i, item, o);
    assert(lines[i + 1] == line);
    lemma_part_stands(
        if dry_run {
            "Prepared "@
        } else {
            "Finished "@
        },
        decimal(staged.len()),
        " ChatGPT Web worker(s)"@,
    );
    let head = decimal((i + 1) as nat) + ". scope="@ + item.scope_id;
    if dry_run {
        let tail = " workspace="@ + item.workspace + " page=<dry-run>"@;
        assert(line =~= head + tail);
        lemma_ends_of_a_text(head, tail);
    } else {
        let instance = match item.browser_instance {
            Some(s) => s,
            None => "<legacy>"@,
        };
        let page = match item.browser_page_id {
            Some(p) => p,
            None => "<missing>"@,
        };
        let ended = match o.end_of(i) {
            Some(e) => terminal_name(e.state),
            None => "LOST"@,
        };
        let a = " account="@ + item.account_id;
        let b = " instance="@ + instance;
        let c = " generation="@ + decimal(item.generation as nat);
        let d = " page="@ + page;
        let e = " terminal="@ + ended;
        let f = " session="@ + session_state(o.session_of(i));
        lemma_grouped(head, " account="@, item.account_id);
        lemma_grouped(head + a, " instance="@, instance);
        lemma_grouped(head + a + b, " generation="@, decimal(item.generation as nat));
        lemma_grouped(head + a + b + c, " page="@, page);
        lemma_grouped(head + a + b + c + d, " terminal="@, ended);
        lemma_grouped(head + a + b + c + d + e, " session="@, session_state(o.session_of(i)));
        assert(line == head + a + b + c + d + e + f);
        lemma_parts_stand(head, a, b, c, d, e, f);
    }
}

proof fn lemma_grouped(x: Seq<char>, y: Seq<char>, z: Seq<char>)
    ensures
        x + y + z == x + (y + z),
{
    assert(x + y + z =~= x + (y + z));
}

proof fn lemma_parts_stand(
    head: Seq<char>,
    a: Seq<char>,
    b: Seq<char>,
    c: Seq<char>,
    d: Seq<char>,
    e: Seq<char>,
    f: Seq<char>,
)
    ensures
        has_prefix(head + a + b + c + d + e + f, head),
        has_suffix(head + a + b + c + d + e + f, f),
        contains_text(head + a + b + c + d + e + f, a),
        contains_text(head + a + b + c + d + e + f, c),
        contains_text(head + a + b + c + d + e + f, d),
        contains_text(head + a + b + c + d + e + f, e),
{
    lemma_ends_of_a_text(head + a + b + c + d + e, f);
    lemma_part_stands(head + a + b + c + d, e, f);
    lemma_grouped(head + a + b + c + d, e, f);
    lemma_part_stands(head + a + b + c, d, e + f);
    lemma_grouped(head + a + b + c, d, e + f);
    lemma_part_stands(head + a + b, c, d + (e + f));
    lemma_grouped(head + a + b, c, d + (e + f));
    lemma_grouped(head + a, b, c + (d + (e + f)));
    lemma_part_stands(head, a, b + (c + (d + (e + f))));
    lemma_grouped(head, a, b + (c + (d + (e + f))));
    lemma_ends_of_a_text(head, a + (b + (c + (d + (e + f)))));
}

/// Why an account takes no fresh work is told in this order: it is disabled, it drains, it needs a
/// login, it is degraded, it rests, its window is full, its places are taken.
pub proof fn lemma_state_of_an_account_is_told(
    account: AccountConfig,
    state: StateModel,
    load: LoadModel,
    now_ms: u64,
)
    ensures
        ({
            let r = routing_state(account, state, load, now_ms);
            let open = account.enabled && !account.draining;
            let healthy = open && state.health is Ready;
            let resting = state.cooldown_until_ms matches Some(t) && t > now_ms;
            let full = state.dispatches_ms.len() + state.reservations.len()
                >= account.limits.max_dispatches;
            let taken = count_for(load.counts, account.id@) + reserved_active(
                state.reservations,
                load.scope_ids,
            ) >= account.limits.max_active_workers;
            &&& r is Disabled <==> !account.enabled
            &&& r is Draining <==> account.enabled && account.draining
            &&& r is AuthenticationRequired <==> open && state.health is AuthRequired
            &&& r is Degraded <==> open && state.health is Degraded
            &&& r is Cooldown <==> healthy && resting
            &&& r is DispatchWindowFull <==> healthy && !resting && full
            &&& r is ActiveWorkersFull <==> healthy && !resting && !full && taken
            &&& r is Ready <==> healthy && !resting && !full && !taken
        }),
{
}

/// When an account takes work again: at the end of its rest where nothing else is in the way, at no
/// known time where a switch or its health is, and not at all where nothing is.
pub proof fn lemma_next_slot_of_an_account(
    account: AccountConfig,
    state: StateModel,
    load: LoadModel,
    now_ms: u64,
)
    ensures
        ({
            let r = next_slot(account, state, load, now_ms);
            let resting = state.cooldown_until_ms matches Some(t) && t > now_ms;
            let full = state.dispatches_ms.len() + state.reservations.len()
                >= account.limits.max_dispatches;
            let taken = count_for(load.counts, account.id@) + reserved_active(
                state.reservations,
                load.scope_ids,
            ) >= account.limits.max_active_workers;
            &&& !account.enabled || account.draining || state.health !is Ready ==> r is None
            &&& !resting && !full && !taken ==> r is None
            &&& (account.enabled && !account.draining && state.health is Ready && resting && !full
                && !taken) ==> r == state.cooldown_until_ms
            &&& resting && r is Some ==> r->0 >= state.cooldown_until_ms->0
            &&& count_for(load.counts, account.id@) >= account.limits.max_active_workers ==> r is None
        }),
{
}

/// A full window opens with the first dispatch that leaves it or the first reservation that expires:
/// no earlier, and no later than any of them where nothing else is in the way.
pub proof fn lemma_window_opens_with_the_first(
    account: AccountConfig,
    state: StateModel,
    load: LoadModel,
    now_ms: u64,
)
    requires
        account.enabled && !account.draining && state.health is Ready,
        state.cooldown_until_ms is None,
        state.dispatches_ms.len() + state.reservations.len() >= account.limits.max_dispatches,
        count_for(load.counts, account.id@) + reserved_active(state.reservations, load.scope_ids)
            < account.limits.max_active_workers,
        forall|i: int|
            0 <= i < state.dispatches_ms.len() ==> (#[trigger] state.dispatches_ms[i]) + seconds_ms(
                account.limits.window_seconds,
            ) <= u64::MAX,
    ensures
        ({
            let r = next_slot(account, state, load, now_ms);
            let window_ms = seconds_ms(account.limits.window_seconds);
            &&& forall|i: int|
                0 <= i < state.reservations.len() ==> r is Some && r->0 <= (
                #[trigger] state.reservations[i]).expires_ms
            &&& forall|i: int|
                0 <= i < state.dispatches_ms.len() ==> r is Some && r->0 <= (
                #[trigger] state.dispatches_ms[i]) + window_ms
            &&& r is Some ==> (exists|i: int|
                0 <= i < state.reservations.len() && (#[trigger] state.reservations[i]).expires_ms
                    == r->0) || (exists|i: int|
                0 <= i < state.dispatches_ms.len() && (#[trigger] state.dispatches_ms[i]) + window_ms
                    == r->0)
        }),
{
    let r = next_slot(account, state, load, now_ms);
    let ends = crate::account_state::expiries(state.reservations);
    let window_ms = seconds_ms(account.limits.window_seconds);
    lemma_least(ends);
    lemma_least(state.dispatches_ms);
    assert forall|i: int| 0 <= i < state.reservations.len() implies r is Some && r->0 <= (
    #[trigger] state.reservations[i]).expires_ms by {
        assert(ends[i] == state.reservations[i].expires_ms);
    }
    if r is Some {
        if least(ends) == r {
            let k = choose|k: int| 0 <= k < ends.len() && ends[k] == r->0;
            assert(state.reservations[k].expires_ms == r->0);
        } else {
            let d = least(state.dispatches_ms)->0;
            let k = choose|k: int| 0 <= k < state.dispatches_ms.len() && state.dispatches_ms[k] == d;
            assert(state.dispatches_ms[k] + window_ms == r->0);
        }
    }
}

/// No field has a key.
pub open spec fn lacks_key(fields: Seq<(Seq<char>, JsonModel)>, key: Seq<char>) -> bool {
    forall|j: int| 0 <= j < fields.len() ==> (#[trigger] fields[j]).0 != key
}

proof fn lemma_push_adds_a_field(
    fields: Seq<(Seq<char>, JsonModel)>,
    key: Seq<char>,
    value: JsonModel,
)
    requires
        lacks_key(fields, key),
    ensures
        object_holds(JsonModel::Object(fields.push((key, value))), key, value),
{
    let all = fields.push((key, value));
    assert forall|j: int| 0 <= j < fields.len() implies (#[trigger] all[j]).0 != key by {
        assert(all[j] == fields[j]);
    }
    lemma_first_field_is_held(all, fields.len() as int, key, value);
}

proof fn lemma_push_keeps_fields(
    fields: Seq<(Seq<char>, JsonModel)>,
    field: (Seq<char>, JsonModel),
    key: Seq<char>,
)
    ensures
        forall|v: JsonModel| #[trigger]
            object_holds(JsonModel::Object(fields), key, v) ==> object_holds(
                JsonModel::Object(fields.push(field)),
                key,
                v,
            ),
        lacks_key(fields, key) && field.0 != key ==> lacks_key(fields.push(field), key),
{
    let all = fields.push(field);
    assert forall|v: JsonModel| #[trigger]
        object_holds(JsonModel::Object(fields), key, v) implies object_holds(
        JsonModel::Object(all),
        key,
        v,
    ) by {
        let w = JsonModel::Object(fields);
        let i = choose|i: int|
            {
                &&& 0 <= i < w->Object_0.len()
                &&& #[trigger] w->Object_0[i] == (key, v)
                &&& forall|j: int| 0 <= j < i ==> (#[trigger] w->Object_0[j]).0 != key
            };
        assert forall|j: int| 0 <= j < i implies (#[trigger] all[j]).0 != key by {
            assert(all[j] == w->Object_0[j]);
        }
        lemma_first_field_is_held(all, i, key, v);
    }
    if lacks_key(fields, key) && field.0 != key {
        assert forall|j: int| 0 <= j < all.len() implies (#[trigger] all[j]).0 != key by {
            if j < fields.len() {
                assert(all[j] == fields[j]);
            }
        }
    }
}

/// What is told of an account is what its diagnosis says; times that are not known are left out.
pub proof fn lemma_diagnosis_is_told(d: AccountDiagnostic)
    ensures
        ({
            let v = diagnostic_json(d);
            &&& object_holds(v, "account_id"@, JsonModel::Text(d.account_id@))
            &&& object_holds(v, "enabled"@, JsonModel::Bool(d.enabled))
            &&& object_holds(v, "draining"@, JsonModel::Bool(d.draining))
            &&& object_holds(v, "routing_state"@, JsonModel::Text(routing_state_name(d.routing_state)))
            &&& object_holds(v, "scheduler_health"@, JsonModel::Text(health_name(d.scheduler_health)))
            &&& object_holds(v, "active_workers"@, JsonModel::Unsigned(d.active_workers as u64))
            &&& object_holds(v, "reserved_workers"@, JsonModel::Unsigned(d.reserved_workers as u64))
            &&& object_holds(v, "dispatches_in_window"@, JsonModel::Unsigned(d.dispatches_in_window as u64))
            &&& object_holds(v, "reserved_dispatches"@, JsonModel::Unsigned(d.reserved_dispatches as u64))
            &&& object_holds(v, "max_active_workers"@, JsonModel::Unsigned(d.max_active_workers as u64))
            &&& object_holds(v, "max_dispatches"@, JsonModel::Unsigned(d.max_dispatches as u64))
            &&& object_holds(v, "window_seconds"@, JsonModel::Unsigned(d.window_seconds))
            &&& object_holds(v, "browser_instance"@, JsonModel::Text(d.browser_instance@))
            &&& object_holds(
                v,
                "browser_reachability"@,
                JsonModel::Text(reachability_name(d.browser_reachability)),
            )
            &&& object_holds(
                v,
                "browser_login_state"@,
                JsonModel::Text(login_name(d.browser_login_state)),
            )
            &&& d.next_slot_ms matches Some(t) ==> object_holds(
                v,
                "next_slot_ms"@,
                JsonModel::Unsigned(t),
            )
            &&& d.cooldown_until_ms matches Some(t) ==> object_holds(
                v,
                "cooldown_until_ms"@,
                JsonModel::Unsigned(t),
            )
            &&& d.cooldown_reason matches Some(t) ==> object_holds(
                v,
                "cooldown_reason"@,
                JsonModel::Text(t@),
            )
            &&& d.next_slot_ms is None ==> object_lacks(v, "next_slot_ms"@)
            &&& d.cooldown_until_ms is None ==> object_lacks(v, "cooldown_until_ms"@)
            &&& d.cooldown_reason is None ==> object_lacks(v, "cooldown_reason"@)
        }),
{
    lemma_diagnosis_names();
    lemma_diagnosis_head(d);
    let a = diagnostic_head(d);
    let b = with_number(a, "next_slot_ms"@, d.next_slot_ms);
    let c = with_number(b, "cooldown_until_ms"@, d.cooldown_until_ms);
    let e = with_text(c, "cooldown_reason"@, opt_text(d.cooldown_reason));
    let instance = ("browser_instance"@, JsonModel::Text(d.browser_instance@));
    let reach = (
        "browser_reachability"@,
        JsonModel::Text(reachability_name(d.browser_reachability)),
    );
    let login = ("browser_login_state"@, JsonModel::Text(login_name(d.browser_login_state)));
    let f = e.push(instance);
    let g = f.push(reach);
    let h = g.push(login);
    if d.next_slot_ms is Some {
        lemma_push_adds_a_field(a, "next_slot_ms"@, JsonModel::Unsigned(d.next_slot_ms->0));
        lemma_push_keeps_fields(a, ("next_slot_ms"@, JsonModel::Unsigned(d.next_slot_ms->0)), "account_id"@);
        lemma_push_keeps_fields(a, ("next_slot_ms"@, JsonModel::Unsigned(d.next_slot_ms->0)), "enabled"@);
        lemma_push_keeps_fields(a, ("next_slot_ms"@, JsonModel::Unsigned(d.next_slot_ms->0)), "draining"@);
        lemma_push_keeps_fields(a, ("next_slot_ms"@, JsonModel::Unsigned(d.next_slot_ms->0)), "routing_state"@);
        lemma_push_keeps_fields(a, ("next_slot_ms"@, JsonModel::Unsigned(d.next_slot_ms->0)), "scheduler_health"@);
        lemma_push_keeps_fields(a, ("next_slot_ms"@, JsonModel::Unsigned(d.next_slot_ms->0)), "active_workers"@);
        lemma_push_keeps_fields(a, ("next_slot_ms"@, JsonModel::Unsigned(d.next_slot_ms->0)), "reserved_workers"@);
        lemma_push_keeps_fields(a, ("next_slot_ms"@, JsonModel::Unsigned(d.next_slot_ms->0)), "dispatches_in_window"@);
        lemma_push_keeps_fields(a, ("next_slot_ms"@, JsonModel::Unsigned(d.next_slot_ms->0)), "reserved_dispatches"@);
        lemma_push_keeps_fields(a, ("next_slot_ms"@, JsonModel::Unsigned(d.next_slot_ms->0)), "max_active_workers"@);
        lemma_push_keeps_fields(a, ("next_slot_ms"@, JsonModel::Unsigned(d.next_slot_ms->0)), "max_dispatches"@);
        lemma_push_keeps_fields(a, ("next_slot_ms"@, JsonModel::Unsigned(d.next_slot_ms->0)), "window_seconds"@);
        lemma_push_keeps_fields(a, ("next_slot_ms"@, JsonModel::Unsigned(d.next_slot_ms->0)), "next_slot_ms"@);
        lemma_push_keeps_fields(a, ("next_slot_ms"@, JsonModel::Unsigned(d.next_slot_ms->0)), "cooldown_until_ms"@);
        lemma_push_keeps_fields(a, ("next_slot_ms"@, JsonModel::Unsigned(d.next_slot_ms->0)), "cooldown_reason"@);
        lemma_push_keeps_fields(a, ("next_slot_ms"@, JsonModel::Unsigned(d.next_slot_ms->0)), "browser_instance"@);
        lemma_push_keeps_fields(a, ("next_slot_ms"@, JsonModel::Unsigned(d.next_slot_ms->0)), "browser_reachability"@);
        lemma_push_keeps_fields(a, ("next_slot_ms"@, JsonModel::Unsigned(d.next_slot_ms->0)), "browser_login_state"@);
    }
    if d.cooldown_until_ms is Some {
        let field = ("cooldown_until_ms"@, JsonModel::Unsigned(d.cooldown_until_ms->0));
        lemma_push_adds_a_field(b, field.0, field.1);
        lemma_push_keeps_fields(b, field, "account_id"@);
        lemma_push_keeps_fields(b, field, "enabled"@);
        lemma_push_keeps_fields(b, field, "draining"@);
        lemma_push_keeps_fields(b, field, "routing_state"@);
        lemma_push_keeps_fields(b, field, "scheduler_health"@);
        lemma_push_keeps_fields(b, field, "active_workers"@);
        lemma_push_keeps_fields(b, field, "reserved_workers"@);
        lemma_push_keeps_fields(b, field, "dispatches_in_window"@);
        lemma_push_keeps_fields(b, field, "reserved_dispatches"@);
        lemma_push_keeps_fields(b, field, "max_active_workers"@);
        lemma_push_keeps_fields(b, field, "max_dispatches"@);
        lemma_push_keeps_fields(b, field, "window_seconds"@);
        lemma_push_keeps_fields(b, field, "next_slot_ms"@);
        lemma_push_keeps_fields(b, field, "cooldown_until_ms"@);
        lemma_push_keeps_fields(b, field, "cooldown_reason"@);
        lemma_push_keeps_fields(b, field, "browser_instance"@);
        lemma_push_keeps_fields(b, field, "browser_reachability"@);
        lemma_push_keeps_fields(b, field, "browser_login_state"@);
    }
    if d.cooldown_reason is Some {
        let field = ("cooldown_reason"@, JsonModel::Text(d.cooldown_reason->0@));
        lemma_push_adds_a_field(c, field.0, field.1);
        lemma_push_keeps_fields(c, field, "account_id"@);
        lemma_push_keeps_fields(c, field, "enabled"@);
        lemma_push_keeps_fields(c, field, "draining"@);
        lemma_push_keeps_fields(c, field, "routing_state"@);
        lemma_push_keeps_fields(c, field, "scheduler_health"@);
        lemma_push_keeps_fields(c, field, "active_workers"@);
        lemma_push_keeps_fields(c, field, "reserved_workers"@);
        lemma_push_keeps_fields(c, field, "dispatches_in_window"@);
        lemma_push_keeps_fields(c, field, "reserved_dispatches"@);
        lemma_push_keeps_fields(c, field, "max_active_workers"@);
        lemma_push_keeps_fields(c, field, "max_dispatches"@);
        lemma_push_keeps_fields(c, field, "window_seconds"@);
        lemma_push_keeps_fields(c, field, "next_slot_ms"@);
        lemma_push_keeps_fields(c, field, "cooldown_until_ms"@);
        lemma_push_keeps_fields(c, field, "cooldown_reason"@);
        lemma_push_keeps_fields(c, field, "browser_instance"@);
        lemma_push_keeps_fields(c, field, "browser_reachability"@);
        lemma_push_keeps_fields(c, field, "browser_login_state"@);
    }
    lemma_push_adds_a_field(e, instance.0, instance.1);
    lemma_push_keeps_fields(e, instance, "account_id"@);
    lemma_push_keeps_fields(e, instance, "enabled"@);
    lemma_push_keeps_fields(e, instance, "draining"@);
    lemma_push_keeps_fields(e, instance, "routing_state"@);
    lemma_push_keeps_fields(e, instance, "scheduler_health"@);
    lemma_push_keeps_fields(e, instance, "active_workers"@);
    lemma_push_keeps_fields(e, instance, "reserved_workers"@);
    lemma_push_keeps_fields(e, instance, "dispatches_in_window"@);
    lemma_push_keeps_fields(e, instance, "reserved_dispatches"@);
    lemma_push_keeps_fields(e, instance, "max_active_workers"@);
    lemma_push_keeps_fields(e, instance, "max_dispatches"@);
    lemma_push_keeps_fields(e, instance, "window_seconds"@);
    lemma_push_keeps_fields(e, instance, "next_slot_ms"@);
    lemma_push_keeps_fields(e, instance, "cooldown_until_ms"@);
    lemma_push_keeps_fields(e, instance, "cooldown_reason"@);
    lemma_push_keeps_fields(e, instance, "browser_instance"@);
    lemma_push_keeps_fields(e, instance, "browser_reachability"@);
    lemma_push_keeps_fields(e, instance, "browser_login_state"@);
    lemma_push_adds_a_field(f, reach.0, reach.1);
    lemma_push_keeps_fields(f, reach, "account_id"@);
    lemma_push_keeps_fields(f, reach, "enabled"@);
    lemma_push_keeps_fields(f, reach, "draining"@);
    lemma_push_keeps_fields(f, reach, "routing_state"@);
    lemma_push_keeps_fields(f, reach, "scheduler_health"@);
    lemma_push_keeps_fields(f, reach, "active_workers"@);
    lemma_push_keeps_fields(f, reach, "reserved_workers"@);
    lemma_push_keeps_fields(f, reach, "dispatches_in_window"@);
    lemma_push_keeps_fields(f, reach, "reserved_dispatches"@);
    lemma_push_keeps_fields(f, reach, "max_active_workers"@);
    lemma_push_keeps_fields(f, reach, "max_dispatches"@);
    lemma_push_keeps_fields(f, reach, "window_seconds"@);
    lemma_push_keeps_fields(f, reach, "next_slot_ms"@);
    lemma_push_keeps_fields(f, reach, "cooldown_until_ms"@);
    lemma_push_keeps_fields(f, reach, "cooldown_reason"@);
    lemma_push_keeps_fields(f, reach, "browser_instance"@);
    lemma_push_keeps_fields(f, reach, "browser_reachability"@);
    lemma_push_keeps_fields(f, reach, "browser_login_state"@);
    lemma_push_adds_a_field(g, login.0, login.1);
    lemma_push_keeps_fields(g, login, "account_id"@);
    lemma_push_keeps_fields(g, login, "enabled"@);
    lemma_push_keeps_fields(g, login, "draining"@);
    lemma_push_keeps_fields(g, login, "routing_state"@);
    lemma_push_keeps_fields(g, login, "scheduler_health"@);
    lemma_push_keeps_fields(g, login, "active_workers"@);
    lemma_push_keeps_fields(g, login, "reserved_workers"@);
    lemma_push_keeps_fields(g, login, "dispatches_in_window"@);
    lemma_push_keeps_fields(g, login, "reserved_dispatches"@);
    lemma_push_keeps_fields(g, login, "max_active_workers"@);
    lemma_push_keeps_fields(g, login, "max_dispatches"@);
    lemma_push_keeps_fields(g, login, "window_seconds"@);
    lemma_push_keeps_fields(g, login, "next_slot_ms"@);
    lemma_push_keeps_fields(g, login, "cooldown_until_ms"@);
    lemma_push_keeps_fields(g, login, "cooldown_reason"@);
    lemma_push_keeps_fields(g, login, "browser_instance"@);
    lemma_push_keeps_fields(g, login, "browser_reachability"@);
    lemma_push_keeps_fields(g, login, "browser_login_state"@);
    assert(diagnostic_json(d) == JsonModel::Object(h));
}

proof fn lemma_diagnosis_names()
    ensures
        "account_id"@ != "enabled"@,
        "account_id"@ != "draining"@,
        "account_id"@ != "routing_state"@,
        "account_id"@ != "scheduler_health"@,
        "account_id"@ != "active_workers"@,
        "account_id"@ != "reserved_workers"@,
        "account_id"@ != "dispatches_in_window"@,
        "account_id"@ != "reserved_dispatches"@,
        "account_id"@ != "max_active_workers"@,
        "account_id"@ != "max_dispatches"@,
        "account_id"@ != "window_seconds"@,
        "account_id"@ != "next_slot_ms"@,
        "account_id"@ != "cooldown_until_ms"@,
        "account_id"@ != "cooldown_reason"@,
        "account_id"@ != "browser_instance"@,
        "account_id"@ != "browser_reachability"@,
        "account_id"@ != "browser_login_state"@,
        "enabled"@ != "draining"@,
        "enabled"@ != "routing_state"@,
        "enabled"@ != "scheduler_health"@,
        "enabled"@ != "active_workers"@,
        "enabled"@ != "reserved_workers"@,
        "enabled"@ != "dispatches_in_window"@,
        "enabled"@ != "reserved_dispatches"@,
        "enabled"@ != "max_active_workers"@,
        "enabled"@ != "max_dispatches"@,
        "enabled"@ != "window_seconds"@,
        "enabled"@ != "next_slot_ms"@,
        "enabled"@ != "cooldown_until_ms"@,
        "enabled"@ != "cooldown_reason"@,
        "enabled"@ != "browser_instance"@,
        "enabled"@ != "browser_reachability"@,
        "enabled"@ != "browser_login_state"@,
        "draining"@ != "routing_state"@,
        "draining"@ != "scheduler_health"@,
        "draining"@ != "active_workers"@,
        "draining"@ != "reserved_workers"@,
        "draining"@ != "dispatches_in_window"@,
        "draining"@ != "reserved_dispatches"@,
        "draining"@ != "max_active_workers"@,
        "draining"@ != "max_dispatches"@,
        "draining"@ != "window_seconds"@,
        "draining"@ != "next_slot_ms"@,
        "draining"@ != "cooldown_until_ms"@,
        "draining"@ != "cooldown_reason"@,
        "draining"@ != "browser_instance"@,
        "draining"@ != "browser_reachability"@,
        "draining"@ != "browser_login_state"@,
        "routing_state"@ != "scheduler_health"@,
        "routing_state"@ != "active_workers"@,
        "routing_state"@ != "reserved_workers"@,
        "routing_state"@ != "dispatches_in_window"@,
        "routing_state"@ != "reserved_dispatches"@,
        "routing_state"@ != "max_active_workers"@,
        "routing_state"@ != "max_dispatches"@,
        "routing_state"@ != "window_seconds"@,
        "routing_state"@ != "next_slot_ms"@,
        "routing_state"@ != "cooldown_until_ms"@,
        "routing_state"@ != "cooldown_reason"@,
        "routing_state"@ != "browser_instance"@,
        "routing_state"@ != "browser_reachability"@,
        "routing_state"@ != "browser_login_state"@,
        "scheduler_health"@ != "active_workers"@,
        "scheduler_health"@ != "reserved_workers"@,
        "scheduler_health"@ != "dispatches_in_window"@,
        "scheduler_health"@ != "reserved_dispatches"@,
        "scheduler_health"@ != "max_active_workers"@,
        "scheduler_health"@ != "max_dispatches"@,
        "scheduler_health"@ != "window_seconds"@,
        "scheduler_health"@ != "next_slot_ms"@,
        "scheduler_health"@ != "cooldown_until_ms"@,
        "scheduler_health"@ != "cooldown_reason"@,
        "scheduler_health"@ != "browser_instance"@,
        "scheduler_health"@ != "browser_reachability"@,
        "scheduler_health"@ != "browser_login_state"@,
        "active_workers"@ != "reserved_workers"@,
        "active_workers"@ != "dispatches_in_window"@,
        "active_workers"@ != "reserved_dispatches"@,
        "active_workers"@ != "max_active_workers"@,
        "active_workers"@ != "max_dispatches"@,
        "active_workers"@ != "window_seconds"@,
        "active_workers"@ != "next_slot_ms"@,
        "active_workers"@ != "cooldown_until_ms"@,
        "active_workers"@ != "cooldown_reason"@,
        "active_workers"@ != "browser_instance"@,
        "active_workers"@ != "browser_reachability"@,
        "active_workers"@ != "browser_login_state"@,
        "reserved_workers"@ != "dispatches_in_window"@,
        "reserved_workers"@ != "reserved_dispatches"@,
        "reserved_workers"@ != "max_active_workers"@,
        "reserved_workers"@ != "max_dispatches"@,
        "reserved_workers"@ != "window_seconds"@,
        "reserved_workers"@ != "next_slot_ms"@,
        "reserved_workers"@ != "cooldown_until_ms"@,
        "reserved_workers"@ != "cooldown_reason"@,
        "reserved_workers"@ != "browser_instance"@,
        "reserved_workers"@ != "browser_reachability"@,
        "reserved_workers"@ != "browser_login_state"@,
        "dispatches_in_window"@ != "reserved_dispatches"@,
        "dispatches_in_window"@ != "max_active_workers"@,
        "dispatches_in_window"@ != "max_dispatches"@,
        "dispatches_in_window"@ != "window_seconds"@,
        "dispatches_in_window"@ != "next_slot_ms"@,
        "dispatches_in_window"@ != "cooldown_until_ms"@,
        "dispatches_in_window"@ != "cooldown_reason"@,
        "dispatches_in_window"@ != "browser_instance"@,
        "dispatches_in_window"@ != "browser_reachability"@,
        "dispatches_in_window"@ != "browser_login_state"@,
        "reserved_dispatches"@ != "max_active_workers"@,
        "reserved_dispatches"@ != "max_dispatches"@,
        "reserved_dispatches"@ != "window_seconds"@,
        "reserved_dispatches"@ != "next_slot_ms"@,
        "reserved_dispatches"@ != "cooldown_until_ms"@,
        "reserved_dispatches"@ != "cooldown_reason"@,
        "reserved_dispatches"@ != "browser_instance"@,
        "reserved_dispatches"@ != "browser_reachability"@,
        "reserved_dispatches"@ != "browser_login_state"@,
        "max_active_workers"@ != "max_dispatches"@,
        "max_active_workers"@ != "window_seconds"@,
        "max_active_workers"@ != "next_slot_ms"@,
        "max_active_workers"@ != "cooldown_until_ms"@,
        "max_active_workers"@ != "cooldown_reason"@,
        "max_active_workers"@ != "browser_instance"@,
        "max_active_workers"@ != "browser_reachability"@,
        "max_active_workers"@ != "browser_login_state"@,
        "max_dispatches"@ != "window_seconds"@,
        "max_dispatches"@ != "next_slot_ms"@,
        "max_dispatches"@ != "cooldown_until_ms"@,
        "max_dispatches"@ != "cooldown_reason"@,
        "max_dispatches"@ != "browser_instance"@,
        "max_dispatches"@ != "browser_reachability"@,
        "max_dispatches"@ != "browser_login_state"@,
        "window_seconds"@ != "next_slot_ms"@,
        "window_seconds"@ != "cooldown_until_ms"@,
        "window_seconds"@ != "cooldown_reason"@,
        "window_seconds"@ != "browser_instance"@,
        "window_seconds"@ != "browser_reachability"@,
        "window_seconds"@ != "browser_login_state"@,
        "next_slot_ms"@ != "cooldown_until_ms"@,
        "next_slot_ms"@ != "cooldown_reason"@,
        "next_slot_ms"@ != "browser_instance"@,
        "next_slot_ms"@ != "browser_reachability"@,
        "next_slot_ms"@ != "browser_login_state"@,
        "cooldown_until_ms"@ != "cooldown_reason"@,
        "cooldown_until_ms"@ != "browser_instance"@,
        "cooldown_until_ms"@ != "browser_reachability"@,
        "cooldown_until_ms"@ != "browser_login_state"@,
        "cooldown_reason"@ != "browser_instance"@,
        "cooldown_reason"@ != "browser_reachability"@,
        "cooldown_reason"@ != "browser_login_state"@,
        "browser_instance"@ != "browser_reachability"@,
        "browser_instance"@ != "browser_login_state"@,
        "browser_reachability"@ != "browser_login_state"@,
{
    reveal_strlit("account_id");
    reveal_strlit("enabled");
    reveal_strlit("draining");
    reveal_strlit("routing_state");
    reveal_strlit("scheduler_health");
    reveal_strlit("active_workers");
    reveal_strlit("reserved_workers");
    reveal_strlit("dispatches_in_window");
    reveal_strlit("reserved_dispatches");
    reveal_strlit("max_active_workers");
    reveal_strlit("max_dispatches");
    reveal_strlit("window_seconds");
    reveal_strlit("next_slot_ms");
    reveal_strlit("cooldown_until_ms");
    reveal_strlit("cooldown_reason");
    reveal_strlit("browser_instance");
    reveal_strlit("browser_reachability");
    reveal_strlit("browser_login_state");
    assert("account_id"@.len() == 10);
    assert("enabled"@.len() == 7);
    assert("draining"@.len() == 8);
    assert("routing_state"@.len() == 13);
    assert("scheduler_health"@.len() == 16);
    assert("active_workers"@.len() == 14);
    assert("reserved_workers"@.len() == 16);
    assert("dispatches_in_window"@.len() == 20);
    assert("reserved_dispatches"@.len() == 19);
    assert("max_active_workers"@.len() == 18);
    assert("max_dispatches"@.len() == 14);
    assert("window_seconds"@.len() == 14);
    assert("next_slot_ms"@.len() == 12);
    assert("cooldown_until_ms"@.len() == 17);
    assert("cooldown_reason"@.len() == 15);
    assert("browser_instance"@.len() == 16);
    assert("browser_reachability"@.len() == 20);
    assert("browser_login_state"@.len() == 19);
    assert("scheduler_health"@[0] != "reserved_workers"@[0]);
    assert("scheduler_health"@[0] != "browser_instance"@[0]);
    assert("active_workers"@[0] != "max_dispatches"@[0]);
    assert("active_workers"@[0] != "window_seconds"@[0]);
    assert("reserved_workers"@[0] != "browser_instance"@[0]);
    assert("dispatches_in_window"@[0] != "browser_reachability"@[0]);
    assert("reserved_dispatches"@[0] != "browser_login_state"@[0]);
    assert("max_dispatches"@[0] != "window_seconds"@[0]);
}

proof fn lemma_diagnosis_head(d: AccountDiagnostic)
    ensures
        object_holds(JsonModel::Object(diagnostic_head(d)), "account_id"@, JsonModel::Text(d.account_id@)),
        object_holds(JsonModel::Object(diagnostic_head(d)), "enabled"@, JsonModel::Bool(d.enabled)),
        object_holds(JsonModel::Object(diagnostic_head(d)), "draining"@, JsonModel::Bool(d.draining)),
        object_holds(JsonModel::Object(diagnostic_head(d)), "routing_state"@, JsonModel::Text(routing_state_name(d.routing_state))),
        object_holds(JsonModel::Object(diagnostic_head(d)), "scheduler_health"@, JsonModel::Text(health_name(d.scheduler_health))),
        object_holds(JsonModel::Object(diagnostic_head(d)), "active_workers"@, JsonModel::Unsigned(d.active_workers as u64)),
        object_holds(JsonModel::Object(diagnostic_head(d)), "reserved_workers"@, JsonModel::Unsigned(d.reserved_workers as u64)),
        object_holds(JsonModel::Object(diagnostic_head(d)), "dispatches_in_window"@, JsonModel::Unsigned(d.dispatches_in_window as u64)),
        object_holds(JsonModel::Object(diagnostic_head(d)), "reserved_dispatches"@, JsonModel::Unsigned(d.reserved_dispatches as u64)),
        object_holds(JsonModel::Object(diagnostic_head(d)), "max_active_workers"@, JsonModel::Unsigned(d.max_active_workers as u64)),
        object_holds(JsonModel::Object(diagnostic_head(d)), "max_dispatches"@, JsonModel::Unsigned(d.max_dispatches as u64)),
        object_holds(JsonModel::Object(diagnostic_head(d)), "window_seconds"@, JsonModel::Unsigned(d.window_seconds)),
        lacks_key(diagnostic_head(d), "next_slot_ms"@),
        lacks_key(diagnostic_head(d), "cooldown_until_ms"@),
        lacks_key(diagnostic_head(d), "cooldown_reason"@),
        lacks_key(diagnostic_head(d), "browser_instance"@),
        lacks_key(diagnostic_head(d), "browser_reachability"@),
        lacks_key(diagnostic_head(d), "browser_login_state"@),
{
    lemma_diagnosis_names();
    let fields = diagnostic_head(d);
    assert(fields[0].0 == "account_id"@);
    assert(fields[1].0 == "enabled"@);
    assert(fields[2].0 == "draining"@);
    assert(fields[3].0 == "routing_state"@);
    assert(fields[4].0 == "scheduler_health"@);
    assert(fields[5].0 == "active_workers"@);
    assert(fields[6].0 == "reserved_workers"@);
    assert(fields[7].0 == "dispatches_in_window"@);
    assert(fields[8].0 == "reserved_dispatches"@);
    assert(fields[9].0 == "max_active_workers"@);
    assert(fields[10].0 == "max_dispatches"@);
    assert(fields[11].0 == "window_seconds"@);
    lemma_first_field_is_held(fields, 0, "account_id"@, JsonModel::Text(d.account_id@));
    lemma_first_field_is_held(fields, 1, "enabled"@, JsonModel::Bool(d.enabled));
    lemma_first_field_is_held(fields, 2, "draining"@, JsonModel::Bool(d.draining));
    lemma_first_field_is_held(fields, 3, "routing_state"@, JsonModel::Text(routing_state_name(d.routing_state)));
    lemma_first_field_is_held(fields, 4, "scheduler_health"@, JsonModel::Text(health_name(d.scheduler_health)));
    lemma_first_field_is_held(fields, 5, "active_workers"@, JsonModel::Unsigned(d.active_workers as u64));
    lemma_first_field_is_held(fields, 6, "reserved_workers"@, JsonModel::Unsigned(d.reserved_workers as u64));
    lemma_first_field_is_held(fields, 7, "dispatches_in_window"@, JsonModel::Unsigned(d.dispatches_in_window as u64));
    lemma_first_field_is_held(fields, 8, "reserved_dispatches"@, JsonModel::Unsigned(d.reserved_dispatches as u64));
    lemma_first_field_is_held(fields, 9, "max_active_workers"@, JsonModel::Unsigned(d.max_active_workers as u64));
    lemma_first_field_is_held(fields, 10, "max_dispatches"@, JsonModel::Unsigned(d.max_dispatches as u64));
    lemma_first_field_is_held(fields, 11, "window_seconds"@, JsonModel::Unsigned(d.window_seconds));
}

/// The names of the states of an account tell them apart.
pub proof fn lemma_states_of_accounts_have_names(
    a: AccountRoutingState,
    b: AccountRoutingState,
    x: AccountHealth,
    y: AccountHealth,
)
    ensures
        routing_state_name(a) == routing_state_name(b) ==> a == b,
        health_name(x) == health_name(y) ==> x == y,
        routing_state_name(AccountRoutingState::Ready) == "ready"@,
        routing_state_name(AccountRoutingState::Cooldown) == "cooldown"@,
        health_name(AccountHealth::Ready) == "ready"@,
        health_name(AccountHealth::AuthRequired) == "auth_required"@,
        health_name(AccountHealth::Degraded) == "degraded"@,
{
    reveal_strlit("ready");
    reveal_strlit("disabled");
    reveal_strlit("draining");
    reveal_strlit("authentication_required");
    reveal_strlit("degraded");
    reveal_strlit("cooldown");
    reveal_strlit("dispatch_window_full");
    reveal_strlit("active_workers_full");
    reveal_strlit("auth_required");
    assert("ready"@.len() == 5);
    assert("disabled"@.len() == 8);
    assert("draining"@.len() == 8);
    assert("authentication_required"@.len() == 23);
    assert("degraded"@.len() == 8);
    assert("cooldown"@.len() == 8);
    assert("dispatch_window_full"@.len() == 20);
    assert("active_workers_full"@.len() == 19);
    assert("auth_required"@.len() == 13);
    assert("disabled"@[1] != "draining"@[1]);
    assert("disabled"@[1] != "degraded"@[1]);
    assert("disabled"@[0] != "cooldown"@[0]);
    assert("draining"@[1] != "degraded"@[1]);
    assert("draining"@[0] != "cooldown"@[0]);
    assert("degraded"@[0] != "cooldown"@[0]);
}

/// A look at a browser notes that its account is ready or needs a login, as the page says; where the
/// page says neither, only a browser behind the older driver that answers clears a noted block.
pub proof fn lemma_health_is_noted_as_seen(b: BrowserHealth)
    ensures
        b.login_state is Ready ==> noted_health(b) == Some(AccountHealth::Ready),
        b.login_state is AuthenticationRequired ==> noted_health(b) == Some(
            AccountHealth::AuthRequired,
        ),
        b.login_state is Unknown ==> (noted_health(b) == (if b.reachability is Reachable && b.driver
            == Some(BrowserDriverKind::Cmux) {
            Some(AccountHealth::Ready)
        } else {
            None
        })),
{
}

/// The accounts to look at again are those whose noted health is not ready, each once.
pub proof fn lemma_blocked_accounts_are_looked_at(
    config: AccountsConfig,
    router: AccountRouter,
    now_ms: u64,
    n: int,
    i: int,
)
    requires
        0 <= i < n <= config.accounts@.len(),
        config.accounts@.len() <= usize::MAX,
    ensures
        stale_positions(config, router, now_ms, n).contains(i as usize) <==> {
            let s = account_now(config, router.store, config.accounts@[i].id@, now_ms);
            s is Some && s->0.health !is Ready
        },
    decreases n,
{
    lemma_stale_bound(config, router, now_ms, n - 1);
    let all = stale_positions(config, router, now_ms, n);
    let before = stale_positions(config, router, now_ms, n - 1);
    if i < n - 1 {
        lemma_blocked_accounts_are_looked_at(config, router, now_ms, n - 1, i);
        if before.contains(i as usize) {
            let k = choose|k: int| 0 <= k < before.len() && before[k] == i as usize;
            assert(all[k] == i as usize);
        }
        if all.contains(i as usize) {
            let k = choose|k: int| 0 <= k < all.len() && all[k] == i as usize;
            assert(k < before.len());
            assert(before[k] == i as usize);
        }
    } else {
        let s = account_now(config, router.store, config.accounts@[i].id@, now_ms);
        if s is Some && s->0.health !is Ready {
            assert(all[all.len() - 1] == i as usize);
        } else if all.contains(i as usize) {
            let k = choose|k: int| 0 <= k < all.len() && all[k] == i as usize;
            assert(before[k] < n - 1);
        }
    }
}

proof fn lemma_stale_bound(config: AccountsConfig, router: AccountRouter, now_ms: u64, n: int)
    requires
        n <= config.accounts@.len() <= usize::MAX,
    ensures
        forall|k: int|
            0 <= k < stale_positions(config, router, now_ms, n).len() ==> #[trigger] stale_positions(
                config,
                router,
                now_ms,
                n,
            )[k] < n,
    decreases n,
{
    if n > 0 {
        lemma_stale_bound(config, router, now_ms, n - 1);
        let all = stale_positions(config, router, now_ms, n);
        let before = stale_positions(config, router, now_ms, n - 1);
        assert forall|k: int| 0 <= k < all.len() implies #[trigger] all[k] < n by {
            if k < before.len() {
                assert(all[k] == before[k]);
            }
        }
    }
}

/// An account that cannot take work is told with its id, its reason and, where it is known, the time
/// to ask again.
pub proof fn lemma_refusal_is_told(e: ExhaustionModel)
    ensures
        object_holds(exhaustion_json(e), "account_id"@, JsonModel::Text(e.account_id)),
        object_holds(exhaustion_json(e), "reason"@, JsonModel::Text(e.reason)),
        e.retry_at_ms matches Some(t) ==> object_holds(
            exhaustion_json(e),
            "retry_at_ms"@,
            JsonModel::Unsigned(t),
        ),
        e.retry_at_ms is None ==> object_lacks(exhaustion_json(e), "retry_at_ms"@),
{
    reveal_strlit("account_id");
    reveal_strlit("reason");
    reveal_strlit("retry_at_ms");
    assert("account_id"@.len() == 10);
    assert("reason"@.len() == 6);
    assert("retry_at_ms"@.len() == 11);
    let fields = exhaustion_json(e)->Object_0;
    assert(fields[0].0 == "account_id"@);
    assert(fields[1].0 == "reason"@);
    lemma_first_field_is_held(fields, 0, "account_id"@, JsonModel::Text(e.account_id));
    lemma_first_field_is_held(fields, 1, "reason"@, JsonModel::Text(e.reason));
    if e.retry_at_ms is Some {
        lemma_first_field_is_held(
            fields,
            2,
            "retry_at_ms"@,
            JsonModel::Unsigned(e.retry_at_ms->0),
        );
    }
}

} // verus!
