//! What holds of workers: what they are given, when they are ready, and how they end.
use crate::account_state::StateModel;
use crate::accounts::AccountsConfig;
use crate::delegate::claims::{any_active, scope_active, verdict, Verdict};
use crate::delegate::input::PreparedModel;
use crate::delegate::prompts::{lemma_prompt_ends_with_the_task, lemma_prompt_names_its_scope,
    lemma_readiness_prompt_names_its_scope, named_scope};
use crate::delegate::readiness::{dispatch_plan, failures_of, fresh_readiness, is_ready,
    may_get_task, poll_fault, ready_fault, unready, BootstrapReport};
use crate::delegate::report::{StagedDelegation, StagedModel, TerminalObservation};
use crate::delegate::stage::{ended_worker, fresh_worker, rehearsed_worker, stage_next,
    staged_worker, StageModel, StageSeen};
use crate::delegate::terminal::{condition_claim, first_due, item_driver, lifecycle_end, state_after,
    untold, TerminalWatch};
use crate::fresh_dispatch::FreshDispatchClaims;
use crate::json::JsonModel;
use crate::laws::texts::{lemma_ends_of_a_text, lemma_part_stands};
use crate::orca::{BrowserDriverKind, ChatgptRateLimitReason, ChatgptUiCondition};
use crate::router::RouteReservation;
use crate::security::workspace::{BindingModel, ScopeModel, WorkspaceMux};
use crate::shelf::{slot_value, Slot};
use crate::task_state::{DelegationLifecycle, LifecycleSeen};
use crate::text::{contains_text, decimal, has_prefix, has_suffix, opt_text};
use vstd::prelude::*;

verus! {

/// A worker is staged for its own scope: its prompts name that scope, its workspace and its
/// generation, and the task prompt ends with the task itself.
pub proof fn lemma_worker_gets_its_own_task(
    scope: ScopeModel,
    page: Option<Seq<char>>,
    label: Option<Seq<char>>,
    task: Seq<char>,
    l: DelegationLifecycle,
    resumed: bool,
    routed: bool,
)
    ensures
        ({
            let w = staged_worker(scope, page, label, task, l, resumed, routed);
            &&& w.scope_id == scope.scope_id
            &&& w.workspace == scope.workspace
            &&& w.label == label
            &&& w.browser_page_id == page
            &&& w.browser_binding == scope.browser
            &&& w.account_id == scope.account()
            &&& w.browser_instance == scope.instance()
            &&& w.routed == routed
            &&& w.resumed == resumed
            &&& !w.pooled
            &&& w.route_reservation is None
            &&& w.generation == l.generation
            &&& w.generation_started_ms == l.generation_started_ms
            &&& w.task_prompt is Some
            &&& has_suffix(w.task_prompt->0, task)
            &&& has_prefix(
                w.task_prompt->0,
                named_scope(
                    "[GPT2OMO DELEGATION]"@,
                    scope.scope_id,
                    scope.workspace,
                    l.generation,
                ),
            )
            &&& w.bootstrap_prompt is Some
            &&& contains_text(
                w.bootstrap_prompt->0,
                named_scope(
                    "[GPT2OMO READINESS BOOTSTRAP]"@,
                    scope.scope_id,
                    scope.workspace,
                    l.generation,
                ) + (if resumed {
                    crate::delegate::prompts::RESUME_HANDSHAKE@
                } else {
                    crate::delegate::prompts::FRESH_HANDSHAKE@
                }),
            )
        }),
{
    lemma_prompt_ends_with_the_task(scope.scope_id, scope.workspace, l.generation, resumed, task);
    lemma_prompt_names_its_scope(scope.scope_id, scope.workspace, l.generation, resumed, task);
    lemma_readiness_prompt_names_its_scope(
        scope.scope_id,
        scope.workspace,
        l.generation,
        resumed,
        label,
        task,
    );
}

/// A fresh worker works on its own page and for its own reservation; in all else it is staged like
/// any other.
pub proof fn lemma_fresh_worker_holds_its_page_and_reservation(
    scope: ScopeModel,
    binding: BindingModel,
    task: PreparedModel,
    l: DelegationLifecycle,
    reservation: RouteReservation,
)
    ensures
        ({
            let w = fresh_worker(scope, binding, task, l, reservation);
            &&& w.browser_page_id == Some(binding.page_id)
            &&& w.browser_binding == Some(binding)
            &&& w.route_reservation == Some(reservation)
            &&& w.pooled
            &&& w.routed
            &&& !w.resumed
            &&& w.label == task.label
            &&& w.scope_id == scope.scope_id
            &&& w.workspace == scope.workspace
            &&& w.account_id == scope.account()
            &&& w.generation == l.generation
            &&& w.generation_started_ms == l.generation_started_ms
            &&& w.task_prompt is Some
            &&& has_suffix(w.task_prompt->0, task.task)
        }),
{
    lemma_worker_gets_its_own_task(
        scope,
        Some(binding.page_id),
        task.label,
        task.task,
        l,
        false,
        true,
    );
}

/// A worker that cannot take its follow-up keeps the task as it was given, and gets no prompt for
/// readiness; one that is only rehearsed gets no prompt and no page at all.
pub proof fn lemma_workers_without_work(
    scope: ScopeModel,
    task: Seq<char>,
    l: DelegationLifecycle,
    label: Option<Seq<char>>,
)
    ensures
        ({
            let w = ended_worker(scope, task, l);
            &&& w.task_prompt == Some(task)
            &&& w.bootstrap_prompt is None
            &&& w.resumed
            &&& w.scope_id == scope.scope_id
            &&& w.workspace == scope.workspace
            &&& w.browser_page_id == scope.browser_page_id
            &&& w.generation == l.generation
            &&& !w.routed
        }),
        ({
            let w = rehearsed_worker(scope, label);
            &&& w.task_prompt is None
            &&& w.bootstrap_prompt is None
            &&& w.browser_page_id is None
            &&& w.browser_binding is None
            &&& w.scope_id == scope.scope_id
            &&& w.workspace == scope.workspace
            &&& w.label == label
            &&& w.generation == 0
            &&& w.generation_started_ms == scope.created_ms
            &&& !w.routed && !w.resumed
        }),
{
}

/// How far the staging of a worker got.
pub open spec fn went_well<T>(step: Option<Result<T, String>>) -> bool {
    step matches Some(r) && r is Ok
}

/// A worker is staged in this order, each step once the one before it went well: page, scope, claim,
/// lock, workspace, record, reservation. It is staged exactly where all of them went well.
pub proof fn lemma_staging_goes_in_order(
    staged: Seq<StagedDelegation>,
    task: PreparedModel,
    reservation: RouteReservation,
    seen: StageSeen,
)
    ensures
        ({
            let next = stage_next(staged, task, reservation, seen);
            &&& next is CreatePage <==> seen.page is None
            &&& next is RegisterScope <==> went_well(seen.page) && seen.scope is None
            &&& next is ClaimScope <==> went_well(seen.page) && went_well(seen.scope)
                && seen.claimed is None
            &&& next is LockScope <==> went_well(seen.page) && went_well(seen.scope) && went_well(
                seen.claimed,
            ) && seen.locked is None
            &&& next is ResolveScope <==> went_well(seen.page) && went_well(seen.scope) && went_well(
                seen.claimed,
            ) && went_well(seen.locked) && seen.resolved is None
            &&& next is StartLifecycle <==> went_well(seen.page) && went_well(seen.scope)
                && went_well(seen.claimed) && went_well(seen.locked) && went_well(seen.resolved)
                && seen.lifecycle is None
            &&& next is BindReservation <==> went_well(seen.page) && went_well(seen.scope)
                && went_well(seen.claimed) && went_well(seen.locked) && went_well(seen.resolved)
                && went_well(seen.lifecycle) && seen.bound is None
            &&& next is Staged <==> went_well(seen.page) && went_well(seen.scope) && went_well(
                seen.claimed,
            ) && went_well(seen.locked) && went_well(seen.resolved) && went_well(seen.lifecycle)
                && went_well(seen.bound)
            &&& next matches StageModel::RegisterScope(b) ==> b == seen.page->0->Ok_0@
            &&& next matches StageModel::ClaimScope(id) ==> id == seen.scope->0->Ok_0.scope_id@
            &&& next matches StageModel::LockScope(id) ==> id == seen.scope->0->Ok_0.scope_id@
            &&& next matches StageModel::ResolveScope(id) ==> id == seen.scope->0->Ok_0.scope_id@
            &&& next matches StageModel::StartLifecycle(id) ==> id == seen.scope->0->Ok_0.scope_id@
            &&& next matches StageModel::BindReservation(id) ==> id == seen.scope->0->Ok_0.scope_id@
            &&& next matches StageModel::Staged(w) ==> {
                &&& w.scope_id == seen.scope->0->Ok_0@.scope_id
                &&& w.browser_page_id == Some(seen.page->0->Ok_0@.page_id)
                &&& w.route_reservation == Some(reservation)
                &&& w.generation == seen.lifecycle->0->Ok_0.generation
                &&& has_suffix(w.task_prompt->0, task.task)
            }
        }),
{
    if went_well(seen.page) && went_well(seen.scope) && went_well(seen.lifecycle) {
        lemma_fresh_worker_holds_its_page_and_reservation(
            seen.scope->0->Ok_0@,
            seen.page->0->Ok_0@,
            task,
            seen.lifecycle->0->Ok_0,
            reservation,
        );
    }
}

/// A step that fails undoes what was done before it and nothing else: the page that was opened, the
/// scope that was registered, the record that was started, and the workers staged before.
pub proof fn lemma_failed_staging_is_undone(
    staged: Seq<StagedDelegation>,
    task: PreparedModel,
    reservation: RouteReservation,
    seen: StageSeen,
)
    ensures
        stage_next(staged, task, reservation, seen) matches StageModel::Abort(c) ==> {
            &&& c.page == (if went_well(seen.page) {
                Some(seen.page->0->Ok_0@)
            } else {
                None
            })
            &&& c.scope == (if went_well(seen.page) && went_well(seen.scope) {
                Some(seen.scope->0->Ok_0.scope_id@)
            } else {
                None
            })
            &&& went_well(seen.page) && went_well(seen.scope) && went_well(seen.claimed)
                && went_well(seen.locked) && went_well(seen.resolved) && went_well(seen.lifecycle)
                ==> c.lifecycle == Some(seen.scope->0->Ok_0.scope_id@)
            &&& c.lifecycle is Some ==> went_well(seen.lifecycle)
            &&& c.staged.len() == staged.len()
            &&& forall|i: int|
                0 <= i < staged.len() ==> (#[trigger] c.staged[i]).0 == staged[i].scope_id@
            &&& c.failure.len() > 0
        },
{
}

/// A worker is ready where its record is of its present task, says when it became ready, and that
/// was after the task began, is not in the future, and is at most four minutes ago.
pub proof fn lemma_readiness_is_fresh(item: StagedModel, l: DelegationLifecycle, now_ms: u64)
    ensures
        fresh_readiness(item, l, now_ms) <==> (l.ready_ms matches Some(t) && {
            &&& t >= item.generation_started_ms
            &&& t <= now_ms
            &&& now_ms - t <= 240_000
            &&& l.generation == item.generation
            &&& l.generation_started_ms == item.generation_started_ms
        }),
        is_ready(item, LifecycleSeen::Found(l), now_ms) <==> fresh_readiness(item, l, now_ms),
        !is_ready(item, LifecycleSeen::Absent, now_ms),
{
}

/// A worker gets its task only while it is ready and its work has not ended.
pub proof fn lemma_only_ready_workers_get_tasks(item: StagedModel, seen: LifecycleSeen, now_ms: u64)
    ensures
        may_get_task(item, seen, now_ms) <==> is_ready(item, seen, now_ms) && (seen matches
            LifecycleSeen::Found(l) ==> l.terminal_state is None),
{
}

/// A record of another generation or with an end means that the worker cannot become ready; one
/// that cannot be found means nothing.
pub proof fn lemma_workers_that_cannot_become_ready(
    item: StagedModel,
    seen: LifecycleSeen,
    index: int,
)
    requires
        index >= 0,
    ensures
        ready_fault(item, LifecycleSeen::Absent, index) is None,
        seen matches LifecycleSeen::Found(l) ==> (ready_fault(item, seen, index) is Some
            <==> l.generation != item.generation || l.terminal_state is Some),
        seen matches LifecycleSeen::Unresolved(m) ==> ready_fault(item, seen, index) == Some(m@),
        seen matches LifecycleSeen::Unreadable(m) ==> ready_fault(item, seen, index) == Some(m@),
        seen is Found && ready_fault(item, seen, index) is Some ==> has_prefix(
            ready_fault(item, seen, index)->0,
            "worker "@ + decimal((index + 1) as nat),
        ),
{
    if seen is Found && ready_fault(item, seen, index) is Some {
        let text = ready_fault(item, seen, index)->0;
        let head = "worker "@ + decimal((index + 1) as nat);
        assert(text.subrange(0, head.len() as int) =~= head);
    }
}

/// The first worker that cannot become ready speaks for all.
pub proof fn lemma_first_fault_is_told(
    items: Seq<StagedDelegation>,
    seen: Seq<LifecycleSeen>,
    from: int,
    i: int,
)
    requires
        0 <= from <= i < items.len(),
        ready_fault(items[i]@, seen[i], i) is Some,
        forall|j: int| from <= j < i ==> #[trigger] ready_fault(items[j]@, seen[j], j) is None,
    ensures
        poll_fault(items, seen, from) == ready_fault(items[i]@, seen[i], i),
    decreases i - from,
{
    if from < i {
        assert(ready_fault(items[from]@, seen[from], from) is None);
        lemma_first_fault_is_told(items, seen, from + 1, i);
    }
}

/// Where every worker can still become ready, there is no fault.
pub proof fn lemma_no_fault_is_made_up(
    items: Seq<StagedDelegation>,
    seen: Seq<LifecycleSeen>,
    from: int,
)
    requires
        0 <= from <= items.len(),
        forall|j: int|
            from <= j < items.len() ==> #[trigger] ready_fault(items[j]@, seen[j], j) is None,
    ensures
        poll_fault(items, seen, from) is None,
    decreases items.len() - from,
{
    if from < items.len() {
        assert(ready_fault(items[from]@, seen[from], from) is None);
        lemma_no_fault_is_made_up(items, seen, from + 1);
    }
}

/// The workers that are not ready are exactly those, each once and in their order.
pub proof fn lemma_unready_workers_are_named(
    items: Seq<StagedDelegation>,
    seen: Seq<LifecycleSeen>,
    now_ms: u64,
    upto: int,
)
    requires
        0 <= upto <= items.len(),
        items.len() <= usize::MAX,
    ensures
        forall|i: int|
            0 <= i < upto ==> (#[trigger] unready(items, seen, now_ms, upto).contains(i as usize)
                <==> !is_ready(items[i]@, seen[i], now_ms)),
        forall|k: int|
            0 <= k < unready(items, seen, now_ms, upto).len() ==> 0 <= #[trigger] unready(
                items,
                seen,
                now_ms,
                upto,
            )[k] < upto,
        forall|j: int, k: int|
            0 <= j < k < unready(items, seen, now_ms, upto).len() ==> #[trigger] unready(
                items,
                seen,
                now_ms,
                upto,
            )[j] < #[trigger] unready(items, seen, now_ms, upto)[k],
    decreases upto,
{
    let all = unready(items, seen, now_ms, upto);
    if upto > 0 {
        let before = unready(items, seen, now_ms, upto - 1);
        lemma_unready_workers_are_named(items, seen, now_ms, upto - 1);
        let last = (upto - 1) as usize;
        assert forall|i: int| 0 <= i < upto implies (#[trigger] all.contains(i as usize)
            <==> !is_ready(items[i]@, seen[i], now_ms)) by {
            if i < upto - 1 {
                assert(before.contains(i as usize) <==> !is_ready(items[i]@, seen[i], now_ms));
                if before.contains(i as usize) {
                    let k = choose|k: int| 0 <= k < before.len() && before[k] == i as usize;
                    assert(all[k] == i as usize);
                }
                if all.contains(i as usize) {
                    let k = choose|k: int| 0 <= k < all.len() && all[k] == i as usize;
                    assert(k < before.len());
                    assert(before[k] == i as usize);
                }
            } else {
                if !is_ready(items[i]@, seen[i], now_ms) {
                    assert(all[all.len() - 1] == last);
                } else if all.contains(last) {
                    let k = choose|k: int| 0 <= k < all.len() && all[k] == last;
                    assert(before[k] < upto - 1);
                }
            }
        }
        assert forall|k: int| 0 <= k < all.len() implies 0 <= #[trigger] all[k] < upto by {
            if k < before.len() {
                assert(all[k] == before[k]);
            }
        }
        assert forall|j: int, k: int| 0 <= j < k < all.len() implies #[trigger] all[j]
            < #[trigger] all[k] by {
            assert(all[j] == before[j]);
            if k < before.len() {
                assert(all[k] == before[k]);
            }
        }
    }
}

/// Tasks go to all workers or to none: where they are sent, every worker may get its task, and each
/// page gets the task prompt of the worker that works on it.
pub proof fn lemma_every_page_gets_its_own_prompt(
    items: Seq<StagedDelegation>,
    seen: Seq<LifecycleSeen>,
    now_ms: u64,
    from: int,
    i: int,
)
    requires
        0 <= from <= i < items.len(),
        dispatch_plan(items, seen, now_ms, from) is Send,
    ensures
        ({
            let sent = dispatch_plan(items, seen, now_ms, from)->Send_0;
            &&& sent.len() == items.len() - from
            &&& may_get_task(items[i]@, seen[i], now_ms)
            &&& Some(sent[i - from].0) == items[i]@.browser_page_id
            &&& Some(sent[i - from].1) == items[i]@.task_prompt
        }),
    decreases i - from,
{
    lemma_plan_length(items, seen, now_ms, from);
    if from < i {
        let sent = dispatch_plan(items, seen, now_ms, from)->Send_0;
        let rest = dispatch_plan(items, seen, now_ms, from + 1)->Send_0;
        lemma_every_page_gets_its_own_prompt(items, seen, now_ms, from + 1, i);
        assert(sent[i - from] == rest[i - from - 1]);
    }
}

proof fn lemma_plan_length(
    items: Seq<StagedDelegation>,
    seen: Seq<LifecycleSeen>,
    now_ms: u64,
    from: int,
)
    requires
        0 <= from <= items.len(),
        dispatch_plan(items, seen, now_ms, from) is Send,
    ensures
        dispatch_plan(items, seen, now_ms, from)->Send_0.len() == items.len() - from,
    decreases items.len() - from,
{
    if from < items.len() {
        lemma_plan_length(items, seen, now_ms, from + 1);
    }
}

/// Where every worker may get its task and has a page and a prompt, all tasks are sent.
pub proof fn lemma_ready_workers_all_get_tasks(
    items: Seq<StagedDelegation>,
    seen: Seq<LifecycleSeen>,
    now_ms: u64,
    from: int,
)
    requires
        0 <= from <= items.len(),
        forall|i: int|
            from <= i < items.len() ==> #[trigger] may_get_task(items[i]@, seen[i], now_ms),
        forall|i: int|
            from <= i < items.len() ==> (#[trigger] items[i])@.browser_page_id is Some
                && items[i]@.task_prompt is Some,
    ensures
        dispatch_plan(items, seen, now_ms, from) is Send,
    decreases items.len() - from,
{
    if from < items.len() {
        assert(may_get_task(items[from]@, seen[from], now_ms));
        assert(items[from]@.browser_page_id is Some && items[from]@.task_prompt is Some);
        lemma_ready_workers_all_get_tasks(items, seen, now_ms, from + 1);
    }
}

/// One worker that is not ready holds all tasks back, where those before it may get theirs.
pub proof fn lemma_one_unready_worker_holds_all_back(
    items: Seq<StagedDelegation>,
    seen: Seq<LifecycleSeen>,
    now_ms: u64,
    from: int,
    i: int,
)
    requires
        0 <= from <= i < items.len(),
        !may_get_task(items[i]@, seen[i], now_ms),
    ensures
        dispatch_plan(items, seen, now_ms, from) !is Send,
    decreases i - from,
{
    if from < i {
        lemma_one_unready_worker_holds_all_back(items, seen, now_ms, from + 1, i);
    }
}

/// What a page shows ends the work exactly where it is a rate limit, a login that is needed, or a
/// failed delivery that cannot be made good. A rate limit blocks the work, and says for how long;
/// anything else fails it.
pub proof fn lemma_ends_that_a_page_shows(c: ChatgptUiCondition)
    ensures
        condition_claim(c) is Some <==> c is RateLimited || c is AuthenticationRequired || (c matches
            ChatgptUiCondition::DeliveryError { recoverable } && !recoverable),
        c is RateLimited ==> {
            let e = condition_claim(c)->0;
            &&& e.state is Blocked
            &&& e.note.event_type is RateLimited
            &&& e.note.error_code is RateLimited
            &&& e.note.reset_after_seconds == c->reset_after_seconds
            &&& e.note_failure
        },
        c is AuthenticationRequired ==> {
            let e = condition_claim(c)->0;
            &&& e.state is Failed
            &&& e.note.event_type is AuthenticationRequired
            &&& e.note.error_code is AuthenticationRequired
            &&& e.note.reset_after_seconds is None
            &&& !e.note_failure
            &&& e.detail == "{\"code\":\""@ + "CHATGPT_AUTHENTICATION_REQUIRED"@ + "\"}"@
        },
        c is DeliveryError && condition_claim(c) is Some ==> {
            let e = condition_claim(c)->0;
            &&& e.state is Failed
            &&& e.note.event_type is DeliveryError
            &&& e.note.error_code is DeliveryError
            &&& e.note.reset_after_seconds is None
            &&& !e.note_failure
            &&& e.detail == "{\"code\":\""@ + "CHATGPT_DELIVERY_ERROR"@ + "\"}"@
        },
{
}

/// The record of a rate limit names its reason and, where it is known, its length in seconds.
pub proof fn lemma_rate_limit_is_on_record(c: ChatgptUiCondition)
    requires
        c is RateLimited,
    ensures
        ({
            let detail = condition_claim(c)->0.detail;
            &&& contains_text(
                detail,
                match c->reason {
                    ChatgptRateLimitReason::UsageLimit => "usage_limit"@,
                    ChatgptRateLimitReason::TooManyRequests => "too_many_requests"@,
                    ChatgptRateLimitReason::Capacity => "capacity"@,
                    ChatgptRateLimitReason::ModelQuota => "model_quota"@,
                },
            )
            &&& c->reset_after_seconds matches Some(n) ==> has_suffix(
                detail,
                "\",\"reset_after_seconds\":"@ + decimal(n as nat) + "}"@,
            )
            &&& c->reset_after_seconds is None ==> has_suffix(
                detail,
                "\",\"reset_after_seconds\":"@ + "null"@ + "}"@,
            )
        }),
{
    let detail = condition_claim(c)->0.detail;
    let head = "{\"code\":\"CHATGPT_RATE_LIMIT\",\"reason\":\""@;
    let name = crate::orca::reason_name(c->reason);
    let number = match c->reset_after_seconds {
        Some(n) => decimal(n as nat),
        None => "null"@,
    };
    let tail = "\",\"reset_after_seconds\":"@ + number + "}"@;
    assert(detail =~= head + name + tail);
    lemma_part_stands(head, name, tail);
    lemma_ends_of_a_text(head + name, tail);
}

/// A rate limit lets the account rest for the time that the page gave; a needed login marks it; a
/// failed delivery lets it rest for the time that is set for that. Nothing that is booked changes.
pub proof fn lemma_account_rests_as_the_page_says(
    config: AccountsConfig,
    c: ChatgptUiCondition,
    now: StateModel,
    now_ms: u64,
)
    ensures
        ({
            let after = state_after(config, c, now, now_ms);
            let failure = config.defaults.cooldown.delivery_failure_seconds;
            &&& after.dispatches_ms == now.dispatches_ms
            &&& after.reservations == now.reservations
            &&& after.account_id == now.account_id
            &&& after.last_selected_ms == now.last_selected_ms
            &&& (c is RateLimited && c->reset_after_seconds is Some && c->reset_after_seconds->0
                >= 1 && now_ms + c->reset_after_seconds->0 * 1000 <= u64::MAX) ==> {
                &&& after.cooldown_until_ms == Some(
                    (now_ms + c->reset_after_seconds->0 * 1000) as u64,
                )
                &&& after.health == now.health
            }
            &&& c is RateLimited ==> after.cooldown_until_ms is Some && after.cooldown_reason
                == Some(crate::orca::reason_name(c->reason))
            &&& c is AuthenticationRequired ==> {
                &&& after.health is AuthRequired
                &&& after.cooldown_until_ms == now.cooldown_until_ms
                &&& after.cooldown_reason == now.cooldown_reason
            }
            &&& (c is DeliveryError && now_ms + failure * 1000 <= u64::MAX) ==> {
                &&& after.cooldown_until_ms == Some((now_ms + failure * 1000) as u64)
                &&& after.cooldown_reason == Some("delivery_failure"@)
                &&& after.health == now.health
            }
        }),
{
}

/// What a record says of a worker's end: what it was, why and when; a record without an end says
/// nothing; one of another generation, or one that cannot be read, means that the worker is lost.
pub proof fn lemma_end_is_that_of_the_record(
    item: StagedModel,
    seen: LifecycleSeen,
    task_result: Option<JsonModel>,
    now_ms: u64,
)
    ensures
        ({
            let end = lifecycle_end(item, seen, task_result, now_ms);
            &&& seen is Absent ==> end is None
            &&& (seen matches LifecycleSeen::Found(l) && l.generation == item.generation) ==> {
                let l = seen->Found_0;
                &&& end is Some <==> l.terminal_state is Some
                &&& end is Some ==> {
                    &&& end->0.state == l.terminal_state->0
                    &&& end->0.detail == opt_text(l.terminal_detail)
                    &&& end->0.terminal_ms == l.terminal_ms
                    &&& end->0.task_result == task_result
                }
            }
            &&& (seen matches LifecycleSeen::Found(l) && l.generation != item.generation) || seen
                is Unresolved || seen is Unreadable ==> {
                &&& end is Some
                &&& end->0.state is Lost
                &&& end->0.terminal_ms == Some(now_ms)
                &&& end->0.task_result is None
                &&& end->0.detail is Some
            }
            &&& (seen matches LifecycleSeen::Unreadable(m)) ==> has_suffix(
                end->0.detail->0,
                seen->Unreadable_0@,
            )
            &&& (seen matches LifecycleSeen::Unresolved(m)) ==> has_suffix(
                end->0.detail->0,
                seen->Unresolved_0@,
            )
            &&& (seen matches LifecycleSeen::Found(l) && l.generation != item.generation)
                ==> has_suffix(
                end->0.detail->0,
                decimal(item.generation as nat) + " to "@ + decimal(
                    seen->Found_0.generation as nat,
                ),
            )
        }),
{
    match seen {
        LifecycleSeen::Unreadable(m) => {
            lemma_ends_of_a_text("lifecycle evidence became unreadable: "@, m@);
        },
        LifecycleSeen::Unresolved(m) => {
            lemma_ends_of_a_text("lifecycle evidence became unreadable: "@, m@);
        },
        LifecycleSeen::Found(l) => {
            if l.generation != item.generation {
                let head = "lifecycle generation changed unexpectedly from "@;
                let tail = decimal(item.generation as nat) + " to "@ + decimal(l.generation as nat);
                lemma_ends_of_a_text(head, tail);
                let end = lifecycle_end(item, seen, task_result, now_ms);
                assert(end->0.detail->0 =~= head + tail);
            }
        },
        LifecycleSeen::Absent => {},
    }
}

/// The driver of a worker is the one that its page is bound to, and else the built-in one.
pub proof fn lemma_driver_of_a_worker(item: StagedModel)
    ensures
        item.browser_binding matches Some(b) ==> item_driver(item) == b.driver,
        item.browser_binding is None ==> item_driver(item) == BrowserDriverKind::Orca,
{
}

/// The next page to look at is the first that is due, of a worker whose end is not known.
pub proof fn lemma_first_page_that_is_due(watch: TerminalWatch, from: int, now_ms: u64)
    requires
        0 <= from,
    ensures
        ({
            let due = |i: int|
                watch.observed@[i] is None && !watch.probes.disabled@[i] && watch.probes.next_ms@[i]
                    <= now_ms;
            &&& first_due(watch, from, now_ms) matches Some(i) ==> {
                &&& from <= i < watch.observed@.len()
                &&& due(i)
                &&& forall|j: int| from <= j < i ==> !#[trigger] due(j)
            }
            &&& first_due(watch, from, now_ms) is None ==> forall|j: int|
                from <= j < watch.observed@.len() ==> !#[trigger] due(j)
        }),
    decreases watch.observed@.len() - from,
{
    if from < watch.observed@.len() {
        if !(watch.observed@[from] is None && watch.probes.is_due(from, now_ms)) {
            lemma_first_page_that_is_due(watch, from + 1, now_ms);
        }
    }
}

/// The ends to tell of are those that are known and have not been told of.
pub proof fn lemma_untold_ends_are_told(
    observed: Seq<Option<TerminalObservation>>,
    notified: Seq<bool>,
    upto: int,
    i: int,
)
    requires
        0 <= i < upto <= observed.len(),
        observed.len() == notified.len(),
        observed.len() <= usize::MAX,
    ensures
        untold(observed, notified, upto).contains(i as usize) <==> observed[i] is Some && !notified[i],
    decreases upto,
{
    lemma_untold_bound(observed, notified, upto - 1);
    let all = untold(observed, notified, upto);
    let before = untold(observed, notified, upto - 1);
    if i < upto - 1 {
        lemma_untold_ends_are_told(observed, notified, upto - 1, i);
        if before.contains(i as usize) {
            let k = choose|k: int| 0 <= k < before.len() && before[k] == i as usize;
            assert(all[k] == i as usize);
        }
        if all.contains(i as usize) {
            let k = choose|k: int| 0 <= k < all.len() && all[k] == i as usize;
            assert(k < before.len());
            assert(before[k] == i as usize);
        }
    } else {
        if observed[i] is Some && !notified[i] {
            assert(all[all.len() - 1] == i as usize);
        } else if all.contains(i as usize) {
            let k = choose|k: int| 0 <= k < all.len() && all[k] == i as usize;
            assert(before[k] < upto - 1);
        }
    }
}

proof fn lemma_untold_bound(
    observed: Seq<Option<TerminalObservation>>,
    notified: Seq<bool>,
    upto: int,
)
    requires
        upto <= observed.len() <= usize::MAX,
    ensures
        forall|k: int|
            0 <= k < untold(observed, notified, upto).len() ==> #[trigger] untold(
                observed,
                notified,
                upto,
            )[k] < upto,
    decreases upto,
{
    if upto > 0 {
        lemma_untold_bound(observed, notified, upto - 1);
        let all = untold(observed, notified, upto);
        let before = untold(observed, notified, upto - 1);
        assert forall|k: int| 0 <= k < all.len() implies #[trigger] all[k] < upto by {
            if k < before.len() {
                assert(all[k] == before[k]);
            }
        }
    }
}

/// Work goes on in a scope that is there, has a page, and whose record has no end; a record that was
/// not looked at, or that is not there, counts as work that goes on.
pub proof fn lemma_work_goes_on_without_an_end(
    mux: WorkspaceMux,
    seen: Seq<Slot<LifecycleSeen>>,
    id: Seq<char>,
)
    ensures
        mux.found(id) is Err ==> scope_active(mux, seen, id) == Ok::<
            bool,
            crate::error::Fault,
        >(false),
        mux.found(id) matches Ok(scope) ==> {
            &&& scope.page() is None ==> scope_active(mux, seen, id) == Ok::<
                bool,
                crate::error::Fault,
            >(false)
            &&& scope.page() is Some ==> {
                let r = scope_active(mux, seen, id);
                &&& slot_value(seen, id) is None ==> r is Ok && r->Ok_0
                &&& slot_value(seen, id) matches Some(s) ==> {
                    &&& s is Absent ==> r is Ok && r->Ok_0
                    &&& s is Unresolved ==> r is Ok && !r->Ok_0
                    &&& s is Unreadable ==> r is Err
                    &&& s matches LifecycleSeen::Found(l) ==> r is Ok && (r->Ok_0
                        <==> l.terminal_state is None)
                }
            }
        },
{
}

/// Work goes on in some scopes exactly where it goes on in one of them, as long as all of their
/// records can be read.
pub proof fn lemma_any_scope_keeps_the_claim(
    mux: WorkspaceMux,
    seen: Seq<Slot<LifecycleSeen>>,
    ids: Seq<Seq<char>>,
)
    requires
        forall|i: int| 0 <= i < ids.len() ==> #[trigger] scope_active(mux, seen, ids[i]) is Ok,
    ensures
        any_active(mux, seen, ids) is Ok,
        any_active(mux, seen, ids)->Ok_0 <==> exists|i: int|
            0 <= i < ids.len() && (#[trigger] scope_active(mux, seen, ids[i]))->Ok_0,
    decreases ids.len(),
{
    if ids.len() > 0 {
        let rest = ids.drop_first();
        assert(scope_active(mux, seen, ids[0]) is Ok);
        assert forall|i: int| 0 <= i < rest.len() implies #[trigger] scope_active(
            mux,
            seen,
            rest[i],
        ) is Ok by {
            assert(rest[i] == ids[i + 1]);
            assert(scope_active(mux, seen, ids[i + 1]) is Ok);
        }
        lemma_any_scope_keeps_the_claim(mux, seen, rest);
        if scope_active(mux, seen, ids[0])->Ok_0 {
        } else {
            if exists|i: int| 0 <= i < rest.len() && (#[trigger] scope_active(mux, seen, rest[i]))->Ok_0 {
                let i = choose|i: int|
                    0 <= i < rest.len() && (#[trigger] scope_active(mux, seen, rest[i]))->Ok_0;
                assert(scope_active(mux, seen, ids[i + 1])->Ok_0);
            }
            if exists|i: int| 0 <= i < ids.len() && (#[trigger] scope_active(mux, seen, ids[i]))->Ok_0 {
                let i = choose|i: int|
                    0 <= i < ids.len() && (#[trigger] scope_active(mux, seen, ids[i]))->Ok_0;
                assert(rest[i - 1] == ids[i]);
                assert(scope_active(mux, seen, rest[i - 1])->Ok_0);
            }
        }
    }
}

/// A piece of fresh work is free where nobody claimed it, or nothing goes on any more in the scopes
/// of the claim; else the claim that is there stands.
pub proof fn lemma_claim_stands_while_work_goes_on(
    claims: FreshDispatchClaims,
    mux: WorkspaceMux,
    seen: Seq<Slot<LifecycleSeen>>,
    key: Seq<char>,
)
    ensures
        ({
            let v = verdict(claims, mux, seen, key);
            &&& claims.existing(key) is Err ==> v is Refused
            &&& claims.existing(key) matches Ok(found) ==> {
                &&& found is None ==> v is Free
                &&& found matches Some(c) ==> {
                    let going = any_active(mux, seen, c.scope_ids);
                    &&& going is Err ==> v is Refused
                    &&& going is Ok && going->Ok_0 ==> v == Verdict::Taken(c)
                    &&& going is Ok && !going->Ok_0 ==> v is Free
                }
            }
        }),
{
}

/// What is said where something went wrong is what the reports say, and a report without a failure
/// adds nothing.
pub proof fn lemma_failures_are_those_reported(reports: Seq<BootstrapReport>, last: BootstrapReport)
    ensures
        failures_of(Seq::empty()) == Seq::<Seq<char>>::empty(),
        opt_text(last.failure) matches Some(t) ==> failures_of(reports.push(last)) == failures_of(
            reports,
        ).push(t),
        last.failure is None ==> failures_of(reports.push(last)) == failures_of(reports),
{
    assert(reports.push(last).drop_last() =~= reports);
}

} // verus!
