//! What holds of starting workers: what is booked when the readiness prompt is sent, what is said of
//! those that fail, and what a rehearsal and a claim of work leave.
use crate::account_state::stored;
use crate::accounts::{account_position, AccountsConfig};
use crate::arith::seconds_ms;
use crate::delegate::claims::{claim_run, domain_key, has_overlap, verdict, Domain, Outcome,
    Verdict};
use crate::delegate::input::PreparedTask;
use crate::delegate::readiness::{bootstrap_reported, bootstrap_settled, bootstrap_text, commit_text,
    numbers, probe_or_decide, retry_text, retry_texts, timeout_text, BootstrapReport,
    ReadinessModel, RetryFailure};
use crate::delegate::report::{StagedDelegation, StagedModel};
use crate::delegate::stage::rehearsal;
use crate::delegate::terminal::{code_detail, code_name, limit_detail, plain_note, recorded_end,
    ProbeSchedule, StructuredTerminalCode};
use crate::fresh_dispatch::FreshDispatchClaims;
use crate::json::JsonModel;
use crate::laws::reservations::{holds_reservation, lemma_committed_work_is_noted,
    lemma_released_reservation_is_gone};
use crate::laws::texts::{lemma_ends_of_a_text, lemma_part_stands};
use crate::orca::{reason_name, ChatgptRateLimitReason};
use crate::router::{commit_outcome, release_outcome, AccountRouter, RouterError};
use crate::security::workspace::{PathState, WorkspaceMux};
use crate::shelf::{slot_value, Slot};
use crate::task_state::{DelegationLifecycle, LifecycleSeen};
use crate::telemetry::{TelemetryErrorCode, TelemetryEventType};
use crate::text::{contains_text, decimal, has_prefix, has_suffix, joined, opt_text};
use vstd::prelude::*;

verus! {

proof fn lemma_bootstrap_text_holds(index: int, m: Seq<char>, scope_id: Seq<char>, terminal: bool)
    ensures
        contains_text(bootstrap_text(index, m, scope_id, terminal), m),
        contains_text(bootstrap_text(index, m, scope_id, terminal), scope_id),
        has_prefix(bootstrap_text(index, m, scope_id, terminal), "worker "@ + decimal((index + 1) as nat)),
        terminal ==> has_suffix(
            bootstrap_text(index, m, scope_id, terminal),
            "left with authoritative terminal lifecycle evidence"@,
        ),
        !terminal ==> has_suffix(
            bootstrap_text(index, m, scope_id, terminal),
            "preserved nonterminal because bootstrap delivery is ambiguous"@,
        ),
{
    let t = bootstrap_text(index, m, scope_id, terminal);
    let head = "worker "@ + decimal((index + 1) as nat);
    let a = head + ": "@;
    let mid = "; browser-bound scope "@;
    let w = " was "@;
    let end = if terminal {
        "left with authoritative terminal lifecycle evidence"@
    } else {
        "preserved nonterminal because bootstrap delivery is ambiguous"@
    };
    let rest = mid + scope_id + w + end;
    assert(t =~= a + m + rest);
    lemma_part_stands(a, m, rest);
    let front = a + m + mid;
    assert(t =~= front + scope_id + (w + end));
    lemma_part_stands(front, scope_id, w + end);
    assert(t =~= head + (": "@ + m + rest));
    lemma_ends_of_a_text(head, ": "@ + m + rest);
    let before_end = a + m + mid + scope_id + w;
    assert(t =~= before_end + end);
    lemma_ends_of_a_text(before_end, end);
}

proof fn lemma_commit_text_holds(index: int, error: Seq<char>, scope_id: Seq<char>)
    ensures
        contains_text(commit_text(index, error, scope_id), error),
        contains_text(commit_text(index, error, scope_id), scope_id),
        has_prefix(commit_text(index, error, scope_id), "worker "@ + decimal((index + 1) as nat)),
{
    let t = commit_text(index, error, scope_id);
    let head = "worker "@ + decimal((index + 1) as nat);
    let a = head + " account reservation commit failed after Web dispatch: "@;
    let mid = "; browser-bound scope "@;
    let end = " was preserved nonterminal because bootstrap delivery already succeeded"@;
    assert(t =~= a + error + (mid + scope_id + end));
    lemma_part_stands(a, error, mid + scope_id + end);
    let front = a + error + mid;
    assert(t =~= front + scope_id + end);
    lemma_part_stands(front, scope_id, end);
    let rest = " account reservation commit failed after Web dispatch: "@ + error + mid + scope_id + end;
    assert(t =~= head + rest);
    lemma_ends_of_a_text(head, rest);
}

/// A worker to which the readiness prompt went is booked on its account, and it counts as dispatched
/// where that succeeded. One to which it did not go is reported with the failure and its scope; what it
/// had reserved is given back only where it surely has ended, and else counts as used. Without a
/// reservation no account changes.
pub proof fn lemma_sent_prompts_are_booked(
    item: StagedDelegation,
    index: int,
    sent: Result<(), String>,
    terminal: bool,
    config: AccountsConfig,
    now_ms: u64,
    before: AccountRouter,
    after: AccountRouter,
    r: BootstrapReport,
)
    requires
        bootstrap_settled(item, index, sent, terminal, config, now_ms, before, after, r),
    ensures
        ({
            let reserved = item.routed && item.route_reservation is Some;
            let x = item.route_reservation->0;
            let id = x.account.id@;
            let at = account_position(config.accounts@, id);
            let was = before.store.loaded(id)->0.reconciled(
                now_ms,
                seconds_ms(config.accounts@[at].limits.window_seconds),
            );
            let now = stored(after.store.accounts@, id)->0;
            let there = at < config.accounts@.len() && before.store.loaded(id) is Some;
            let held = there && holds_reservation(
                before.store.loaded(id)->0,
                x.reservation_id@,
                now_ms,
            );
            &&& !reserved ==> after.store == before.store
            &&& sent is Ok ==> {
                &&& r.failure is None <==> !reserved || held
                &&& r.failure is None ==> r.note is Some && r.note->0.event_type is Dispatched
                    && r.note->0.error_code is Dispatched && r.note->0.reset_after_seconds is None
                &&& r.failure is Some ==> r.note is None && contains_text(
                    r.failure->0@,
                    item.scope_id@,
                ) && after.store == before.store
                &&& reserved && held ==> now.dispatches_ms == was.dispatches_ms.push(now_ms)
            }
            &&& sent matches Err(m) ==> {
                &&& r.failure is Some
                &&& contains_text(r.failure->0@, m@)
                &&& contains_text(r.failure->0@, item.scope_id@)
                &&& has_prefix(r.failure->0@, "worker "@ + decimal((index + 1) as nat))
                &&& r.note is Some
                &&& r.note->0.event_type is ReadinessBootstrapFailed
                &&& r.note->0.error_code is BootstrapFailed
                &&& reserved && there && terminal ==> now.dispatches_ms == was.dispatches_ms
                &&& reserved && held && !terminal ==> now.dispatches_ms == was.dispatches_ms.push(
                    now_ms,
                )
            }
        }),
{
    let reserved = item.routed && item.route_reservation is Some;
    let x = item.route_reservation->0;
    let id = x.account.id@;
    let other = id.push('x');
    assert(other.len() != id.len());
    match sent {
        Ok(_) => {
            if reserved {
                let c = choose|c: Result<(), RouterError>|
                    {
                        &&& #[trigger] commit_outcome(config, x, now_ms, before.store, after.store, c)
                        &&& match c {
                            Ok(_) => r.failure is None && r.note == Some(
                                plain_note(
                                    TelemetryEventType::Dispatched,
                                    TelemetryErrorCode::Dispatched,
                                ),
                            ),
                            Err(e) => r.note is None && opt_text(r.failure) == Some(
                                commit_text(index, e.text(""@), item.scope_id@),
                            ),
                        }
                    };
                lemma_committed_work_is_noted(
                    config,
                    x,
                    now_ms,
                    before.store,
                    after.store,
                    c,
                    other,
                );
                if c is Err {
                    lemma_commit_text_holds(index, c->Err_0.text(""@), item.scope_id@);
                } else {
                    let now = stored(after.store.accounts@, id)->0;
                    assert(now.dispatches_ms =~= now.dispatches_ms.drop_last().push(now_ms));
                }
            }
        },
        Err(m) => {
            lemma_bootstrap_text_holds(index, m@, item.scope_id@, terminal);
            if reserved && terminal {
                let c = choose|c: Result<(), RouterError>| #[trigger]
                    release_outcome(config, x, now_ms, before.store, after.store, c);
                lemma_released_reservation_is_gone(
                    config,
                    x,
                    now_ms,
                    before.store,
                    after.store,
                    c,
                    other,
                );
            }
            if reserved && !terminal {
                let c = choose|c: Result<(), RouterError>| #[trigger]
                    commit_outcome(config, x, now_ms, before.store, after.store, c);
                lemma_committed_work_is_noted(
                    config,
                    x,
                    now_ms,
                    before.store,
                    after.store,
                    c,
                    other,
                );
                if c is Ok {
                    let now = stored(after.store.accounts@, id)->0;
                    assert(now.dispatches_ms =~= now.dispatches_ms.drop_last().push(now_ms));
                }
            }
        },
    }
}

/// What is reported of a worker tells what went wrong, in which scope, and which worker it is; a worker
/// of which nothing went wrong counts as dispatched.
pub proof fn lemma_failed_starts_are_told(
    item: StagedDelegation,
    index: int,
    sent: Result<(), String>,
    terminal: bool,
    booking: Result<(), Seq<char>>,
    r: BootstrapReport,
)
    requires
        bootstrap_reported(item, index, sent, terminal, booking, r),
    ensures
        r.failure is None <==> sent is Ok && booking is Ok,
        r.failure is None ==> r.note is Some && r.note->0.event_type is Dispatched,
        r.failure is Some ==> contains_text(r.failure->0@, item.scope_id@) && has_prefix(
            r.failure->0@,
            "worker "@ + decimal((index + 1) as nat),
        ),
        sent matches Err(m) ==> r.failure is Some && contains_text(r.failure->0@, m@) && r.note is Some
            && r.note->0.event_type is ReadinessBootstrapFailed,
        (sent is Ok && booking is Err) ==> r.failure is Some && contains_text(
            r.failure->0@,
            booking->Err_0,
        ) && r.note is None,
{
    if sent is Err {
        lemma_bootstrap_text_holds(index, sent->Err_0@, item.scope_id@, terminal);
    } else if booking is Err {
        lemma_commit_text_holds(index, booking->Err_0, item.scope_id@);
    }
}

/// Each worker to which the prompt could not be sent again is told of once, in their order, with what
/// went wrong.
pub proof fn lemma_failed_retries_are_told(
    pending: Seq<usize>,
    outcomes: Seq<Option<RetryFailure>>,
    upto: int,
)
    requires
        0 <= upto < outcomes.len(),
    ensures
        retry_texts(pending, outcomes, 0) == Seq::<Seq<char>>::empty(),
        outcomes[upto] is None ==> retry_texts(pending, outcomes, upto + 1) == retry_texts(
            pending,
            outcomes,
            upto,
        ),
        outcomes[upto] matches Some(f) ==> {
            let all = retry_texts(pending, outcomes, upto + 1);
            &&& all.len() == retry_texts(pending, outcomes, upto).len() + 1
            &&& all.drop_last() == retry_texts(pending, outcomes, upto)
            &&& contains_text(all.last(), f.error@)
            &&& has_prefix(all.last(), "worker "@ + decimal((pending[upto] + 1) as nat))
            &&& f.terminal ==> has_suffix(all.last(), "terminal from authoritative UI evidence"@)
            &&& !f.terminal ==> has_suffix(all.last(), "browser-bound and nonterminal"@)
        },
{
    if outcomes[upto] is Some {
        let f = outcomes[upto]->0;
        let t = retry_text(pending[upto], f);
        let before = retry_texts(pending, outcomes, upto);
        assert(before.push(t).drop_last() =~= before);
        let head = "worker "@ + decimal((pending[upto] + 1) as nat);
        let left = "; retry observation left scope "@;
        let end = if f.terminal {
            "terminal from authoritative UI evidence"@
        } else {
            "browser-bound and nonterminal"@
        };
        assert(t =~= (head + ": "@) + f.error@ + (left + end));
        lemma_part_stands(head + ": "@, f.error@, left + end);
        assert(t =~= head + (": "@ + f.error@ + left + end));
        lemma_ends_of_a_text(head, ": "@ + f.error@ + left + end);
        assert(t =~= (head + ": "@ + f.error@ + left) + end);
        lemma_ends_of_a_text(head + ": "@ + f.error@ + left, end);
    }
}

/// A wait that ran out is told with its seconds and with the workers that it waited for, all of them,
/// counted from one.
pub proof fn lemma_waits_that_ran_out_are_told(timeout_ms: u64, pending: Seq<usize>, seconds: u64)
    requires
        timeout_ms == seconds * 1000,
    ensures
        has_prefix(
            timeout_text(timeout_ms, pending),
            "readiness timeout after "@ + decimal(seconds as nat) + "s; "@,
        ),
        exists|list: Seq<Seq<char>>| #[trigger]
            has_suffix(timeout_text(timeout_ms, pending), joined(list, ", "@)) && list.len()
                == pending.len() && forall|i: int|
                0 <= i < list.len() ==> #[trigger] list[i] == decimal((pending[i] + 1) as nat),
{
    reveal_strlit("s; ");
    reveal_strlit("s; unready/stale worker(s): ");
    reveal_strlit("unready/stale worker(s): ");
    let t = timeout_text(timeout_ms, pending);
    let head = "readiness timeout after "@ + decimal(seconds as nat) + "s; "@;
    let list = numbers(pending);
    assert("s; unready/stale worker(s): "@ =~= "s; "@ + "unready/stale worker(s): "@);
    assert(t =~= head + ("unready/stale worker(s): "@ + joined(list, ", "@)));
    lemma_ends_of_a_text(head, "unready/stale worker(s): "@ + joined(list, ", "@));
    let front = head + "unready/stale worker(s): "@;
    assert(t =~= front + joined(list, ", "@));
    lemma_ends_of_a_text(front, joined(list, ", "@));
    assert(has_suffix(t, joined(list, ", "@)));
}

/// The page that is looked at next is the first whose time has come; only where none is due is it
/// decided how to go on.
pub proof fn lemma_next_page_is_the_first_due(probes: ProbeSchedule, from: int, now_ms: u64, k: int)
    requires
        0 <= from <= k <= probes.next_ms@.len(),
        probes.next_ms@.len() <= usize::MAX,
        forall|j: int|
            from <= j < k ==> (#[trigger] probes.disabled@[j] || probes.next_ms@[j] > now_ms),
        k < probes.next_ms@.len() ==> !probes.disabled@[k] && probes.next_ms@[k] <= now_ms,
    ensures
        k < probes.next_ms@.len() ==> probe_or_decide(probes, from, now_ms)
            == ReadinessModel::Probe(k as usize),
        k == probes.next_ms@.len() ==> probe_or_decide(probes, from, now_ms) is Decide,
    decreases k - from,
{
    if from < k {
        assert(probes.disabled@[from] || probes.next_ms@[from] > now_ms);
        lemma_next_page_is_the_first_due(probes, from + 1, now_ms, k);
    }
}

/// The codes of the ends of workers have their own names, which stand on record.
pub proof fn lemma_codes_of_ends_have_names(
    a: StructuredTerminalCode,
    b: StructuredTerminalCode,
    reason: ChatgptRateLimitReason,
    reset: Option<u64>,
)
    ensures
        code_name(a) == code_name(b) ==> a == b,
        code_name(StructuredTerminalCode::ReadinessInvalid) == "READINESS_INVALID"@,
        code_name(StructuredTerminalCode::ActualDispatchFailed) == "ACTUAL_DISPATCH_FAILED"@,
        code_name(StructuredTerminalCode::AuthenticationRequired) == "CHATGPT_AUTHENTICATION_REQUIRED"@,
        code_name(StructuredTerminalCode::DeliveryError) == "CHATGPT_DELIVERY_ERROR"@,
        contains_text(code_detail(a), code_name(a)),
        contains_text(limit_detail(reason, reset), reason_name(reason)),
        contains_text(limit_detail(reason, reset), "CHATGPT_RATE_LIMIT"@),
        reset matches Some(n) ==> has_suffix(limit_detail(reason, reset), ":"@ + decimal(n as nat) + "}"@),
        reset is None ==> has_suffix(limit_detail(reason, reset), ":null}"@),
{
    reveal_strlit("READINESS_INVALID");
    reveal_strlit("ACTUAL_DISPATCH_FAILED");
    reveal_strlit("CHATGPT_AUTHENTICATION_REQUIRED");
    reveal_strlit("CHATGPT_DELIVERY_ERROR");
    assert("READINESS_INVALID"@.len() == 17);
    assert("ACTUAL_DISPATCH_FAILED"@.len() == 22);
    assert("CHATGPT_AUTHENTICATION_REQUIRED"@.len() == 31);
    assert("CHATGPT_DELIVERY_ERROR"@.len() == 22);
    assert("ACTUAL_DISPATCH_FAILED"@[0] != "CHATGPT_DELIVERY_ERROR"@[0]);
    lemma_part_stands("{\"code\":\""@, code_name(a), "\"}"@);
    let t = limit_detail(reason, reset);
    let head = "{\"code\":\"CHATGPT_RATE_LIMIT\",\"reason\":\""@;
    let mid = "\",\"reset_after_seconds\":"@;
    let value = match reset {
        Some(n) => decimal(n as nat),
        None => "null"@,
    };
    assert(t =~= head + reason_name(reason) + (mid + value + "}"@));
    lemma_part_stands(head, reason_name(reason), mid + value + "}"@);
    reveal_strlit("{\"code\":\"CHATGPT_RATE_LIMIT\",\"reason\":\"");
    reveal_strlit("CHATGPT_RATE_LIMIT");
    reveal_strlit("{\"code\":\"");
    reveal_strlit("\",\"reason\":\"");
    assert(head =~= "{\"code\":\""@ + "CHATGPT_RATE_LIMIT"@ + "\",\"reason\":\""@);
    let behind = "\",\"reason\":\""@ + reason_name(reason) + mid + value + "}"@;
    assert(t =~= "{\"code\":\""@ + "CHATGPT_RATE_LIMIT"@ + behind);
    lemma_part_stands("{\"code\":\""@, "CHATGPT_RATE_LIMIT"@, behind);
    reveal_strlit("\",\"reset_after_seconds\":");
    reveal_strlit(":");
    reveal_strlit("}");
    reveal_strlit("null");
    reveal_strlit(":null}");
    let front = head + reason_name(reason) + mid.drop_last();
    assert(mid =~= mid.drop_last() + ":"@);
    assert(t =~= front + (":"@ + value + "}"@));
    lemma_ends_of_a_text(front, ":"@ + value + "}"@);
    assert(":null}"@ =~= ":"@ + "null"@ + "}"@);
}

/// The end that is told of a worker is the one on record; one without an end on record is lost.
pub proof fn lemma_end_on_record_is_told(l: DelegationLifecycle, result: Option<JsonModel>)
    ensures
        l.terminal_state matches Some(s) ==> recorded_end(l, result).state == s,
        l.terminal_state is None ==> recorded_end(l, result).state is Lost,
        recorded_end(l, result).detail == opt_text(l.terminal_detail),
        recorded_end(l, result).terminal_ms == l.terminal_ms,
        recorded_end(l, result).task_result == result,
{
}

/// A note says what happened, and why, and promises no time.
pub proof fn lemma_notes_say_what_happened(e: TelemetryEventType, c: TelemetryErrorCode)
    ensures
        plain_note(e, c).event_type == e,
        plain_note(e, c).error_code == c,
        plain_note(e, c).reset_after_seconds is None,
{
}

/// A rehearsal gives one worker for each task, in their order, with its label and in its directory; the
/// first directory that is refused ends it.
pub proof fn lemma_rehearsal_has_a_worker_for_each_task(
    tasks: Seq<PreparedTask>,
    places: Seq<PathState>,
    from: int,
    now_ms: u64,
    before: WorkspaceMux,
    after: WorkspaceMux,
    r: Result<Seq<StagedModel>, Seq<char>>,
)
    requires
        0 <= from <= tasks.len(),
        places.len() == tasks.len(),
        rehearsal(tasks, places, from, now_ms, before, after, r),
    ensures
        r is Ok <==> forall|i: int| from <= i < tasks.len() ==> before.refusal(#[trigger] places[i]) is None,
        r matches Ok(v) ==> {
            &&& v.len() == tasks.len() - from
            &&& forall|k: int|
                0 <= k < v.len() ==> {
                    &&& (#[trigger] v[k]).label == opt_text(tasks[from + k].label)
                    &&& v[k].workspace == places[from + k]->Directory_0@
                    &&& v[k].browser_page_id is None
                    &&& v[k].route_reservation is None
                    &&& v[k].generation_started_ms == now_ms
                }
        },
        r matches Err(m) ==> exists|i: int|
            {
                &&& from <= i < tasks.len()
                &&& before.refusal(#[trigger] places[i]) is Some
                &&& m == before.refusal(places[i])->0.text()
                &&& forall|j: int| from <= j < i ==> before.refusal(#[trigger] places[j]) is None
            },
    decreases tasks.len() - from,
{
    if from < tasks.len() {
        if before.refusal(places[from]) is Some {
            assert(from <= from < tasks.len());
        } else {
            let (mid, scope) = choose|mid: WorkspaceMux, scope: crate::security::workspace::ScopeModel|
                {
                    &&& #[trigger] mid.stored(before, scope, places[from])
                    &&& crate::outside::is_hyphenated(scope.scope_id)
                    &&& scope == crate::security::workspace::new_scope(
                        scope.scope_id,
                        places[from]->Directory_0@,
                        None,
                        None,
                        now_ms,
                    )
                    &&& match r {
                        Err(m) => rehearsal(tasks, places, from + 1, now_ms, mid, after, r),
                        Ok(v) => {
                            &&& v.len() > 0
                            &&& v[0] == crate::delegate::stage::rehearsed_worker(
                                scope,
                                opt_text(tasks[from].label),
                            )
                            &&& rehearsal(
                                tasks,
                                places,
                                from + 1,
                                now_ms,
                                mid,
                                after,
                                Ok(v.drop_first()),
                            )
                        },
                    }
                };
            assert(forall|p: PathState| #[trigger] mid.refusal(p) == before.refusal(p));
            match r {
                Err(_) => {
                    lemma_rehearsal_has_a_worker_for_each_task(
                        tasks,
                        places,
                        from + 1,
                        now_ms,
                        mid,
                        after,
                        r,
                    );
                },
                Ok(v) => {
                    let rest = v.drop_first();
                    lemma_rehearsal_has_a_worker_for_each_task(
                        tasks,
                        places,
                        from + 1,
                        now_ms,
                        mid,
                        after,
                        Ok(rest),
                    );
                    assert forall|k: int| 0 <= k < v.len() implies {
                        &&& (#[trigger] v[k]).label == opt_text(tasks[from + k].label)
                        &&& v[k].workspace == places[from + k]->Directory_0@
                        &&& v[k].browser_page_id is None
                        &&& v[k].route_reservation is None
                        &&& v[k].generation_started_ms == now_ms
                    } by {
                        if k > 0 {
                            assert(rest[k - 1] == v[k]);
                            assert((from + 1) + (k - 1) == from + k);
                        }
                    }
                },
            }
        }
    }
}

/// Two tasks for the same work overlap, whichever comes first; tasks that are all for different work do
/// not.
pub proof fn lemma_same_work_overlaps(scope_dir: Seq<char>, tasks: Seq<PreparedTask>, i: int, j: int)
    requires
        0 <= i < tasks.len(),
        0 <= j < tasks.len(),
        i != j,
    ensures
        domain_key(scope_dir, tasks[i]@) == domain_key(scope_dir, tasks[j]@) ==> has_overlap(
            scope_dir,
            tasks,
        ),
        (forall|a: int, b: int|
            0 <= a < tasks.len() && 0 <= b < tasks.len() && a != b ==> domain_key(
                scope_dir,
                (#[trigger] tasks[a])@,
            ) != domain_key(scope_dir, (#[trigger] tasks[b])@)) ==> !has_overlap(scope_dir, tasks),
{
    if i < j {
        assert(tasks[i] == tasks[i] && tasks[j] == tasks[j]);
    } else {
        assert(tasks[j] == tasks[j] && tasks[i] == tasks[i]);
    }
}

/// Work that was claimed is held: each of its claims stands under its key, made now and with no scope
/// yet.
pub proof fn lemma_claimed_work_is_held(
    domains: Seq<Domain>,
    from: int,
    before: FreshDispatchClaims,
    after: FreshDispatchClaims,
    mux: WorkspaceMux,
    seen: Seq<Slot<LifecycleSeen>>,
    now_ms: u64,
    outcome: Outcome,
    i: int,
)
    requires
        0 <= from <= i < domains.len(),
        forall|a: int, b: int|
            from <= a < b < domains.len() ==> (#[trigger] domains[a]).key@ != (
            #[trigger] domains[b]).key@,
        claim_run(domains, from, before, after, mux, seen, now_ms, outcome),
        outcome is Owned,
    ensures
        verdict(before, mux, seen, domains[from].key@) is Free,
        ({
            let held = slot_value(after.files@, domains[i].key@ + ".json"@);
            &&& held is Some
            &&& held->0 is Parsed
            &&& held->0->Parsed_0@.dispatch_key == domains[i].key@
            &&& held->0->Parsed_0@.created_ms == now_ms
            &&& held->0->Parsed_0@.scope_ids.len() == 0
        }),
    decreases domains.len() - from,
{
    let key = domains[from].key@;
    let mid = choose|mid: FreshDispatchClaims| #[trigger]
        mid.wrote(before, crate::fresh_dispatch::ClaimModel::fresh(key, now_ms)) && claim_run(
            domains,
            from + 1,
            mid,
            after,
            mux,
            seen,
            now_ms,
            outcome,
        );
    if i > from {
        lemma_claimed_work_is_held(domains, from + 1, mid, after, mux, seen, now_ms, outcome, i);
    } else {
        lemma_other_claims_stay(domains, from + 1, mid, after, mux, seen, now_ms, outcome, key);
    }
}

proof fn lemma_other_claims_stay(
    domains: Seq<Domain>,
    from: int,
    before: FreshDispatchClaims,
    after: FreshDispatchClaims,
    mux: WorkspaceMux,
    seen: Seq<Slot<LifecycleSeen>>,
    now_ms: u64,
    outcome: Outcome,
    key: Seq<char>,
)
    requires
        0 <= from <= domains.len(),
        forall|a: int| from <= a < domains.len() ==> (#[trigger] domains[a]).key@ != key,
        claim_run(domains, from, before, after, mux, seen, now_ms, outcome),
    ensures
        slot_value(after.files@, key + ".json"@) == slot_value(before.files@, key + ".json"@),
    decreases domains.len() - from,
{
    if from < domains.len() {
        if verdict(before, mux, seen, domains[from].key@) is Free {
            let other = domains[from].key@;
            let mid = choose|mid: FreshDispatchClaims| #[trigger]
                mid.wrote(before, crate::fresh_dispatch::ClaimModel::fresh(other, now_ms)) && claim_run(
                    domains,
                    from + 1,
                    mid,
                    after,
                    mux,
                    seen,
                    now_ms,
                    outcome,
                );
            lemma_other_claims_stay(
                domains,
                from + 1,
                mid,
                after,
                mux,
                seen,
                now_ms,
                outcome,
                key,
            );
            assert(key + ".json"@ != other + ".json"@) by {
                if key + ".json"@ == other + ".json"@ {
                    let a = key + ".json"@;
                    let b = other + ".json"@;
                    assert(a.len() == b.len());
                    assert(a.subrange(0, key.len() as int) =~= key);
                    assert(b.subrange(0, other.len() as int) =~= other);
                }
            }
        }
    }
}

/// Work that someone else has at hand is not claimed, and the claim that stands is told.
pub proof fn lemma_taken_work_is_told(
    domains: Seq<Domain>,
    from: int,
    before: FreshDispatchClaims,
    after: FreshDispatchClaims,
    mux: WorkspaceMux,
    seen: Seq<Slot<LifecycleSeen>>,
    now_ms: u64,
    outcome: Outcome,
)
    requires
        0 <= from < domains.len(),
        claim_run(domains, from, before, after, mux, seen, now_ms, outcome),
        verdict(before, mux, seen, domains[from].key@) !is Free,
    ensures
        after == before,
        outcome !is Owned,
        verdict(before, mux, seen, domains[from].key@) matches Verdict::Taken(c) ==> outcome
            == Outcome::Taken(c),
{
}

} // verus!
