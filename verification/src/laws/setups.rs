//! What holds of batches of work, of bringing accounts in, and of installing.
use crate::browser_pool::{health_json, BrowserHealth};
use crate::install::{action_of, coordinator_text, installed_json, matches_text, result_json,
    shell_quoted, skill_text, targets_of, told_lines, FileText, InstallResult, NOT_INSTALLED};
use crate::json::{lemma_first_field_is_held, lemma_held_value_is_read,
    lemma_lacking_value_is_not_read, object_holds, object_lacks, texts_model, JsonModel};
use crate::laws::texts::{lemma_decimal_is_read_back, lemma_ends_of_a_text, lemma_part_stands};
use crate::mass_ulw_web::{batch_fault, evidence_lines, fan_in_prompt, first_fault, flag,
    label_position, manifest, named_end, task_json, task_jsons, DelegateWebDelegationResult,
    DelegateWebResult, WebFault, WebTask, FAN_IN_HEAD, FAN_IN_TAIL, NO_FEEDBACK};
use crate::onboarding::{activated_json, all_ready, blocker_kind, blockers, candidate_json,
    entry_json, onboarding_account, ports_fault, prepare_fault, prepare_json, prepared_json,
    ready_accounts, status_json, usual_defaults_json, usual_routing_json, LegacyScopeBlockerKind,
    OnboardingAccount, OnboardingModel, PreparedAccount, LOGIN_NEXT_STEP, LOGIN_URL,
    PENDING_ACCOUNTS_FILE};
use crate::outside::json_quoted;
use crate::paths::joined_path;
use crate::security::workspace::{ScopeModel, WorkspaceMux};
use crate::shelf::{slot_value, Slot};
use crate::task_state::{terminal_name, DelegationTerminalState, LifecycleSeen};
use crate::text::{contains_text, decimal, has_prefix, has_suffix, joined, occurs_at, opt_text,
    texts, trimmed};
use vstd::prelude::*;

verus! {

/// A task can be handed over where it has a label and words.
pub proof fn lemma_tasks_have_labels_and_words(t: WebTask)
    ensures
        t.fault() is None <==> trimmed(t.label@).len() > 0 && trimmed(t.task@).len() > 0,
        trimmed(t.label@).len() == 0 ==> t.fault() == Some(WebFault::EmptyLabel),
        trimmed(t.label@).len() > 0 && trimmed(t.task@).len() == 0 ==> t.fault() == Some(
            WebFault::EmptyTask,
        ),
{
}

/// A batch has one or two tasks of which each can be handed over.
pub proof fn lemma_batches_that_are_accepted(v: Seq<WebTask>)
    ensures
        batch_fault(v) is None <==> 1 <= v.len() <= 2 && forall|i: int|
            0 <= i < v.len() ==> (#[trigger] v[i]).fault() is None,
{
    lemma_first_fault_of_a_batch(v, 0);
}

proof fn lemma_first_fault_of_a_batch(v: Seq<WebTask>, from: int)
    requires
        0 <= from <= v.len(),
    ensures
        first_fault(v, from) is None <==> forall|i: int|
            from <= i < v.len() ==> (#[trigger] v[i]).fault() is None,
    decreases v.len() - from,
{
    if from < v.len() {
        lemma_first_fault_of_a_batch(v, from + 1);
    }
}

/// A task is written with its label, its words and, where it names one, its workspace, each as it is.
pub proof fn lemma_task_is_written_whole(t: WebTask)
    ensures
        has_prefix(task_json(t), "{\"label\":"@ + json_quoted(t.label@)),
        contains_text(task_json(t), ",\"task\":"@ + json_quoted(t.task@)),
        t.workspace matches Some(w) ==> has_suffix(
            task_json(t),
            ",\"workspace\":"@ + json_quoted(w@) + "}"@,
        ),
        t.workspace is None ==> has_suffix(
            task_json(t),
            ",\"task\":"@ + json_quoted(t.task@) + "}"@,
        ),
{
    let a = "{\"label\":"@ + json_quoted(t.label@);
    let b = ",\"task\":"@ + json_quoted(t.task@);
    let c = match t.workspace {
        Some(w) => ",\"workspace\":"@ + json_quoted(w@),
        None => Seq::empty(),
    };
    let text = task_json(t);
    assert(text =~= a + b + (c + "}"@));
    lemma_part_stands(a, b, c + "}"@);
    assert(text =~= a + (b + c + "}"@));
    lemma_ends_of_a_text(a, b + c + "}"@);
    lemma_ends_of_a_text(a + b, c + "}"@);
    if t.workspace is None {
        assert(text =~= a + (b + "}"@));
        lemma_ends_of_a_text(a, b + "}"@);
    }
}

proof fn lemma_joined_part(parts: Seq<Seq<char>>, sep: Seq<char>, i: int)
    requires
        0 <= i < parts.len(),
    ensures
        contains_text(joined(parts, sep), parts[i]),
    decreases parts.len(),
{
    let whole = joined(parts, sep);
    if parts.len() == 1 {
        assert(whole.subrange(0, whole.len() as int) =~= parts[i]);
        assert(occurs_at(whole, parts[i], 0));
    } else if i == parts.len() - 1 {
        let at = whole.len() - parts[i].len();
        assert(whole.subrange(at, at + parts[i].len()) =~= parts[i]);
        assert(occurs_at(whole, parts[i], at));
    } else {
        let front = joined(parts.drop_last(), sep);
        lemma_joined_part(parts.drop_last(), sep, i);
        let at = choose|at: int| occurs_at(front, parts[i], at);
        assert(parts.drop_last()[i] == parts[i]);
        assert(whole.subrange(at, at + parts[i].len()) =~= front.subrange(
            at,
            at + parts[i].len(),
        ));
        assert(occurs_at(whole, parts[i], at));
    }
}

proof fn lemma_contained(before: Seq<char>, mid: Seq<char>, after: Seq<char>, part: Seq<char>)
    requires
        contains_text(mid, part),
    ensures
        contains_text(before + mid + after, part),
{
    let at = choose|at: int| occurs_at(mid, part, at);
    let whole = before + mid + after;
    let there = before.len() + at;
    assert(whole.subrange(there, there + part.len()) =~= mid.subrange(at, at + part.len()));
    assert(occurs_at(whole, part, there));
}

/// The manifest of a batch holds every one of its tasks.
pub proof fn lemma_manifest_holds_every_task(v: Seq<WebTask>, i: int)
    requires
        0 <= i < v.len(),
    ensures
        contains_text(manifest(v), task_json(v[i])),
{
    lemma_joined_part(task_jsons(v), ","@, i);
    lemma_contained("{\"tasks\":["@, joined(task_jsons(v), ","@), "]}"@, task_json(v[i]));
}

/// The task that brings the work together holds the goal, what is known of every worker's end, and
/// the feedback or the words that there is none.
pub proof fn lemma_all_ends_are_brought_together(
    goal: Seq<char>,
    v: Seq<DelegateWebDelegationResult>,
    feedback: Seq<char>,
    i: int,
)
    requires
        0 <= i < v.len(),
    ensures
        has_prefix(fan_in_prompt(goal, v, feedback), FAN_IN_HEAD@ + trimmed(goal)),
        contains_text(fan_in_prompt(goal, v, feedback), v[i].evidence()),
        has_suffix(
            fan_in_prompt(goal, v, feedback),
            "\n\nLocal verification feedback:\n"@ + (if trimmed(feedback).len() > 0 {
                trimmed(feedback)
            } else {
                NO_FEEDBACK@
            }) + FAN_IN_TAIL@,
        ),
{
    let head = FAN_IN_HEAD@ + trimmed(goal);
    let mid = "\n\nParallel terminal evidence:\n"@;
    let all = joined(evidence_lines(v), "\n"@);
    let tail = "\n\nLocal verification feedback:\n"@ + (if trimmed(feedback).len() > 0 {
        trimmed(feedback)
    } else {
        NO_FEEDBACK@
    }) + FAN_IN_TAIL@;
    let text = fan_in_prompt(goal, v, feedback);
    assert(text =~= (head + mid) + all + tail);
    lemma_joined_part(evidence_lines(v), "\n"@, i);
    lemma_contained(head + mid, all, tail, v[i].evidence());
    lemma_ends_of_a_text(head + mid + all, tail);
    assert(text =~= head + (mid + all + tail));
    lemma_ends_of_a_text(head, mid + all + tail);
}

/// What is said of a worker's end names the worker, its end and the detail.
pub proof fn lemma_evidence_names_the_worker(d: DelegateWebDelegationResult)
    ensures
        d.label matches Some(l) ==> has_prefix(d.evidence(), "- "@ + l@),
        d.terminal_state matches Some(s) ==> contains_text(
            d.evidence(),
            ": terminal="@ + terminal_name(s),
        ),
        d.terminal_detail matches Some(t) ==> has_suffix(d.evidence(), "; detail="@ + t@),
{
    let a = "- "@ + (match d.label {
        Some(l) => l@,
        None => "unlabeled"@,
    });
    let b = ": terminal="@ + (match d.terminal_state {
        Some(s) => terminal_name(s),
        None => "UNKNOWN"@,
    });
    let c = "; detail="@ + (match d.terminal_detail {
        Some(t) => t@,
        None => "none"@,
    });
    assert(d.evidence() =~= a + b + c);
    lemma_part_stands(a, b, c);
    lemma_ends_of_a_text(a + b, c);
    assert(d.evidence() =~= a + (b + c));
    lemma_ends_of_a_text(a, b + c);
}

/// The scope for a label is that of the first worker with it, where that worker is kept and can be
/// resumed.
pub proof fn lemma_scope_for_a_label(r: DelegateWebResult, label: Seq<char>, i: int)
    requires
        0 <= i <= r.delegations@.len(),
        i < r.delegations@.len() ==> opt_text(r.delegations@[i].label) == Some(label),
        forall|j: int|
            0 <= j < i ==> opt_text((#[trigger] r.delegations@[j]).label) != Some(label),
    ensures
        i == r.delegations@.len() ==> r.scope_for(label) == Err::<Seq<char>, WebFault>(
            WebFault::MissingLabel(label),
        ),
        i < r.delegations@.len() ==> {
            let d = r.delegations@[i];
            let kept = d.session_retained && d.resumable && trimmed(d.scope_id@).len() > 0;
            &&& kept ==> r.scope_for(label) == Ok::<Seq<char>, WebFault>(d.scope_id@)
            &&& !kept ==> r.scope_for(label) == Err::<Seq<char>, WebFault>(
                WebFault::ScopeNotResumable(label),
            )
        },
{
    lemma_label_position(r.delegations@, label, i);
}

proof fn lemma_label_position(v: Seq<DelegateWebDelegationResult>, label: Seq<char>, i: int)
    requires
        0 <= i <= v.len(),
        i < v.len() ==> opt_text(v[i].label) == Some(label),
        forall|j: int| 0 <= j < i ==> opt_text((#[trigger] v[j]).label) != Some(label),
    ensures
        label_position(v, label) == i,
    decreases v.len(),
{
    if v.len() > 0 && i > 0 {
        assert(opt_text(v[0].label) != Some(label));
        let t = v.drop_first();
        assert forall|j: int| 0 <= j < i - 1 implies opt_text((#[trigger] t[j]).label) != Some(
            label,
        ) by {
            assert(t[j] == v[j + 1]);
        }
        lemma_label_position(t, label, i - 1);
    }
}

/// A flag that is missing counts as no; an end is read by its name, and no other name stands for one.
pub proof fn lemma_flags_and_ends_are_read(v: JsonModel, key: Seq<char>, b: bool, name: Seq<char>)
    ensures
        object_lacks(v, key) ==> flag(v, key) == Some(false),
        object_holds(v, key, JsonModel::Bool(b)) ==> flag(v, key) == Some(b),
        named_end(name) matches Some(s) ==> terminal_name(s) == name,
        named_end("COMPLETED"@) == Some(DelegationTerminalState::Completed),
        named_end("BLOCKED"@) == Some(DelegationTerminalState::Blocked),
        named_end("FAILED"@) == Some(DelegationTerminalState::Failed),
        named_end("LOST"@) == Some(DelegationTerminalState::Lost),
{
    reveal_strlit("COMPLETED");
    reveal_strlit("BLOCKED");
    reveal_strlit("FAILED");
    reveal_strlit("LOST");
    assert("COMPLETED"@.len() == 9);
    assert("BLOCKED"@.len() == 7);
    assert("FAILED"@.len() == 6);
    assert("LOST"@.len() == 4);
    if object_lacks(v, key) {
        lemma_lacking_value_is_not_read(v, key);
    }
    if object_holds(v, key, JsonModel::Bool(b)) {
        lemma_held_value_is_read(v, key, JsonModel::Bool(b));
    }
}

/// An account that is brought in has a browser, a profile and a port of its own: no two accounts
/// share any of them.
pub proof fn lemma_accounts_share_nothing(
    bridge_dir: Seq<char>,
    id: Seq<char>,
    port: int,
    other: Seq<char>,
    other_port: int,
    worktree: Seq<char>,
)
    requires
        id != other,
        0 <= port,
        0 <= other_port,
        port != other_port,
    ensures
        ({
            let a = onboarding_account(bridge_dir, id, port, worktree);
            let b = onboarding_account(bridge_dir, other, other_port, worktree);
            &&& a.id == id && a.worktree == worktree
            &&& a.instance == "chatgpt-"@ + id
            &&& a.cdp_endpoint == "http://127.0.0.1:"@ + decimal(port as nat)
            &&& a.user_data_dir == joined_path(joined_path(bridge_dir, "browser-profiles"@), id)
            &&& a.instance != b.instance
            &&& a.cdp_endpoint != b.cdp_endpoint
        }),
{
    let a = onboarding_account(bridge_dir, id, port, worktree);
    let b = onboarding_account(bridge_dir, other, other_port, worktree);
    let n = "chatgpt-"@.len() as int;
    assert(a.instance.subrange(n, a.instance.len() as int) =~= id);
    assert(b.instance.subrange(n, b.instance.len() as int) =~= other);
    lemma_decimal_is_read_back(port as nat);
    lemma_decimal_is_read_back(other_port as nat);
    let m = "http://127.0.0.1:"@.len() as int;
    assert(a.cdp_endpoint.subrange(m, a.cdp_endpoint.len() as int) =~= decimal(port as nat));
    assert(b.cdp_endpoint.subrange(m, b.cdp_endpoint.len() as int) =~= decimal(other_port as nat));
}

/// There is a port for every account as long as the last of them is a port.
pub proof fn lemma_ports_fit(start: u16, count: int, from: int)
    requires
        0 <= from <= count,
    ensures
        ports_fault(start, count, from) is None <==> from == count || start + count - 1 <= u16::MAX,
    decreases count - from,
{
    if from < count {
        lemma_ports_fit(start, count, from + 1);
    }
}

/// A configuration is prepared for at least one account, where none is live, none waits or may be
/// replaced, and there are ports.
pub proof fn lemma_preparations_that_are_accepted(
    bridge_dir: Seq<char>,
    count: int,
    start: u16,
    live_exists: bool,
    pending_exists: bool,
    replace_pending: bool,
)
    requires
        count >= 0,
    ensures
        prepare_fault(
            bridge_dir,
            count,
            start,
            live_exists,
            pending_exists,
            replace_pending,
        ) is None <==> count > 0 && !live_exists && (!pending_exists || replace_pending) && start
            + count - 1 <= u16::MAX,
{
    lemma_ports_fit(start, count, 0);
}

/// The entry of an account in the configuration is enabled, does not drain, and names its browser.
pub proof fn lemma_entry_of_an_account(a: OnboardingModel)
    ensures
        ({
            let v = entry_json(a);
            &&& object_holds(v, "id"@, JsonModel::Text(a.id))
            &&& object_holds(v, "enabled"@, JsonModel::Bool(true))
            &&& object_holds(v, "draining"@, JsonModel::Bool(false))
            &&& v.field2("browser"@, "instance"@) == Some(JsonModel::Text(a.instance))
            &&& v.field2("browser"@, "user_data_dir"@) == Some(JsonModel::Text(a.user_data_dir))
            &&& v.field2("browser"@, "cdp_endpoint"@) == Some(JsonModel::Text(a.cdp_endpoint))
            &&& v.field2("browser"@, "worktree"@) == Some(JsonModel::Text(a.worktree))
        }),
{
    reveal_strlit("id");
    reveal_strlit("enabled");
    reveal_strlit("draining");
    reveal_strlit("browser");
    reveal_strlit("instance");
    reveal_strlit("user_data_dir");
    reveal_strlit("cdp_endpoint");
    reveal_strlit("worktree");
    assert("id"@.len() == 2);
    assert("enabled"@.len() == 7);
    assert("draining"@.len() == 8);
    assert("browser"@.len() == 7);
    assert("instance"@.len() == 8);
    assert("user_data_dir"@.len() == 13);
    assert("cdp_endpoint"@.len() == 12);
    assert("worktree"@.len() == 8);
    assert("enabled"@[0] != "browser"@[0]);
    assert("draining"@[0] != "instance"@[0]);
    assert("draining"@[0] != "worktree"@[0]);
    assert("instance"@[0] != "worktree"@[0]);
    let fields = entry_json(a)->Object_0;
    assert(fields[0].0 == "id"@);
    assert(fields[1].0 == "enabled"@);
    assert(fields[2].0 == "draining"@);
    lemma_first_field_is_held(fields, 0, "id"@, JsonModel::Text(a.id));
    lemma_first_field_is_held(fields, 1, "enabled"@, JsonModel::Bool(true));
    lemma_first_field_is_held(fields, 2, "draining"@, JsonModel::Bool(false));
    lemma_first_field_is_held(fields, 3, "browser"@, fields[3].1);
    let browser = fields[3].1->Object_0;
    assert(browser[0].0 == "instance"@);
    assert(browser[1].0 == "user_data_dir"@);
    assert(browser[2].0 == "cdp_endpoint"@);
    lemma_first_field_is_held(browser, 0, "instance"@, JsonModel::Text(a.instance));
    lemma_first_field_is_held(browser, 1, "user_data_dir"@, JsonModel::Text(a.user_data_dir));
    lemma_first_field_is_held(browser, 2, "cdp_endpoint"@, JsonModel::Text(a.cdp_endpoint));
    lemma_first_field_is_held(browser, 3, "worktree"@, JsonModel::Text(a.worktree));
}

/// The configuration has an entry for each account, in their order.
pub proof fn lemma_configuration_is_written(accounts: Seq<OnboardingAccount>)
    ensures
        ({
            let v = candidate_json(accounts);
            &&& object_holds(v, "version"@, JsonModel::Unsigned(1))
            &&& object_holds(v, "routing"@, usual_routing_json())
            &&& object_holds(v, "defaults"@, usual_defaults_json())
            &&& object_holds(v, "accounts"@, JsonModel::Array(Seq::new(accounts.len(), |i: int| entry_json(accounts[i]@))))
        }),
{
    reveal_strlit("version");
    reveal_strlit("routing");
    reveal_strlit("defaults");
    reveal_strlit("accounts");
    assert("version"@.len() == 7);
    assert("routing"@.len() == 7);
    assert("defaults"@.len() == 8);
    assert("accounts"@.len() == 8);
    assert("version"@[0] != "routing"@[0]);
    assert("defaults"@[0] != "accounts"@[0]);
    let fields = candidate_json(accounts)->Object_0;
    assert(fields[0].0 == "version"@);
    assert(fields[1].0 == "routing"@);
    assert(fields[2].0 == "defaults"@);
    assert(fields[3].0 == "accounts"@);
    lemma_first_field_is_held(fields, 0, "version"@, JsonModel::Unsigned(1));
    lemma_first_field_is_held(fields, 1, "routing"@, usual_routing_json());
    lemma_first_field_is_held(fields, 2, "defaults"@, usual_defaults_json());
    lemma_first_field_is_held(fields, 3, "accounts"@, JsonModel::Array(Seq::new(accounts.len(), |i: int| entry_json(accounts[i]@))));
}

/// The usual routing goes round the accounts and holds a reservation for two minutes.
pub proof fn lemma_usual_routing_is_written()
    ensures
        ({
            let v = usual_routing_json();
            &&& object_holds(v, "strategy"@, JsonModel::Text("round_robin"@))
            &&& object_holds(v, "reservation_ttl_seconds"@, JsonModel::Unsigned(120))
            &&& object_holds(v, "selection_failure_backoff_seconds"@, JsonModel::Unsigned(30))
        }),
{
    reveal_strlit("strategy");
    reveal_strlit("reservation_ttl_seconds");
    reveal_strlit("selection_failure_backoff_seconds");
    assert("strategy"@.len() == 8);
    assert("reservation_ttl_seconds"@.len() == 23);
    assert("selection_failure_backoff_seconds"@.len() == 33);
    let fields = usual_routing_json()->Object_0;
    assert(fields[0].0 == "strategy"@);
    assert(fields[1].0 == "reservation_ttl_seconds"@);
    assert(fields[2].0 == "selection_failure_backoff_seconds"@);
    lemma_first_field_is_held(fields, 0, "strategy"@, JsonModel::Text("round_robin"@));
    lemma_first_field_is_held(fields, 1, "reservation_ttl_seconds"@, JsonModel::Unsigned(120));
    lemma_first_field_is_held(fields, 2, "selection_failure_backoff_seconds"@, JsonModel::Unsigned(30));
}

/// A scope of the old account is in the way while it is kept, goes on, or cannot be judged; one of
/// another account never is.
pub proof fn lemma_scopes_that_are_in_the_way(scope: ScopeModel, seen: Option<LifecycleSeen>)
    ensures
        ({
            let k = blocker_kind(scope, seen);
            let old = scope.account() == crate::accounts::LEGACY_ACCOUNT_ID@;
            &&& !old ==> k is None
            &&& old && (seen matches Some(LifecycleSeen::Found(l)) && l.session_retained) ==> k
                == Some(LegacyScopeBlockerKind::Retained)
            &&& old && (seen matches Some(LifecycleSeen::Found(l)) && !l.session_retained
                && l.terminal_state is None) ==> k == Some(LegacyScopeBlockerKind::Active)
            &&& old && (seen matches Some(LifecycleSeen::Found(l)) && !l.session_retained
                && l.terminal_state is Some) ==> k is None
            &&& old && (seen matches Some(s) && s is Absent) ==> (k is Some <==> scope.page() is Some)
            &&& old && (seen matches Some(s) && (s is Unreadable || s is Unresolved)) ==> k == Some(
                LegacyScopeBlockerKind::Unknown,
            )
            &&& old && seen is None ==> k == Some(LegacyScopeBlockerKind::Unknown)
        }),
{
}

/// Every scope that is in the way is named, and no other.
pub proof fn lemma_scopes_in_the_way_are_named(
    mux: WorkspaceMux,
    seen: Seq<Slot<LifecycleSeen>>,
    scopes: Seq<ScopeModel>,
    s: ScopeModel,
)
    requires
        blockers(mux, seen, scopes) is Ok,
        mux.found(s.scope_id) is Ok,
    ensures
        ({
            let before = blockers(mux, seen, scopes)->Ok_0;
            let all = blockers(mux, seen, scopes.push(s));
            let k = blocker_kind(s, slot_value(seen, s.scope_id));
            &&& all is Ok
            &&& k is Some ==> all->Ok_0 == before.push((s.scope_id, k->0))
            &&& k is None ==> all->Ok_0 == before
        }),
{
    assert(scopes.push(s).drop_last() =~= scopes);
}

/// The accounts that are logged in are those whose browser says so, in order.
pub proof fn lemma_accounts_that_are_logged_in(health: Seq<BrowserHealth>, h: BrowserHealth)
    ensures
        ready_accounts(Seq::empty()) == Seq::<(Seq<char>, Seq<char>)>::empty(),
        h.login_state is Ready ==> ready_accounts(health.push(h)) == ready_accounts(health).push(
            (h.account_id@, h.instance@),
        ),
        h.login_state !is Ready ==> ready_accounts(health.push(h)) == ready_accounts(health),
        all_ready(health) <==> forall|i: int|
            0 <= i < health.len() ==> (#[trigger] health[i]).login_state is Ready,
{
    assert(health.push(h).drop_last() =~= health);
}

/// What is told of a prepared account: its browser, and the page in which to log in.
pub proof fn lemma_prepared_account_is_told(a: PreparedAccount)
    ensures
        ({
            let v = prepared_json(a);
            &&& object_holds(v, "account_id"@, JsonModel::Text(a.account_id@))
            &&& object_holds(v, "browser_instance"@, JsonModel::Text(a.browser_instance@))
            &&& object_holds(v, "browser_page_id"@, JsonModel::Text(a.browser_page_id@))
            &&& object_holds(v, "login_url"@, JsonModel::Text(LOGIN_URL@))
        }),
{
    reveal_strlit("account_id");
    reveal_strlit("browser_instance");
    reveal_strlit("browser_page_id");
    reveal_strlit("login_url");
    assert("account_id"@.len() == 10);
    assert("browser_instance"@.len() == 16);
    assert("browser_page_id"@.len() == 15);
    assert("login_url"@.len() == 9);
    let fields = prepared_json(a)->Object_0;
    assert(fields[0].0 == "account_id"@);
    assert(fields[1].0 == "browser_instance"@);
    assert(fields[2].0 == "browser_page_id"@);
    assert(fields[3].0 == "login_url"@);
    lemma_first_field_is_held(fields, 0, "account_id"@, JsonModel::Text(a.account_id@));
    lemma_first_field_is_held(fields, 1, "browser_instance"@, JsonModel::Text(a.browser_instance@));
    lemma_first_field_is_held(fields, 2, "browser_page_id"@, JsonModel::Text(a.browser_page_id@));
    lemma_first_field_is_held(fields, 3, "login_url"@, JsonModel::Text(LOGIN_URL@));
}

/// What is told of a preparation: where the configuration waits, and every account.
pub proof fn lemma_preparation_is_told(bridge_dir: Seq<char>, accounts: Seq<PreparedAccount>)
    ensures
        ({
            let v = prepare_json(bridge_dir, accounts);
            &&& object_holds(v, "pending_config"@, JsonModel::Text(joined_path(bridge_dir, PENDING_ACCOUNTS_FILE@)))
            &&& object_holds(v, "accounts"@, JsonModel::Array(accounts.map_values(|a: PreparedAccount| prepared_json(a))))
            &&& object_holds(v, "next_step"@, JsonModel::Text(LOGIN_NEXT_STEP@))
        }),
{
    reveal_strlit("pending_config");
    reveal_strlit("accounts");
    reveal_strlit("next_step");
    assert("pending_config"@.len() == 14);
    assert("accounts"@.len() == 8);
    assert("next_step"@.len() == 9);
    let fields = prepare_json(bridge_dir, accounts)->Object_0;
    assert(fields[0].0 == "pending_config"@);
    assert(fields[1].0 == "accounts"@);
    assert(fields[2].0 == "next_step"@);
    lemma_first_field_is_held(fields, 0, "pending_config"@, JsonModel::Text(joined_path(bridge_dir, PENDING_ACCOUNTS_FILE@)));
    lemma_first_field_is_held(fields, 1, "accounts"@, JsonModel::Array(accounts.map_values(|a: PreparedAccount| prepared_json(a))));
    lemma_first_field_is_held(fields, 2, "next_step"@, JsonModel::Text(LOGIN_NEXT_STEP@));
}

/// The accounts may go live where every one of them is logged in.
pub proof fn lemma_status_is_told(bridge_dir: Seq<char>, health: Seq<BrowserHealth>)
    ensures
        ({
            let v = status_json(bridge_dir, health);
            &&& object_holds(v, "pending_config"@, JsonModel::Text(joined_path(bridge_dir, PENDING_ACCOUNTS_FILE@)))
            &&& object_holds(v, "accounts"@, JsonModel::Array(health.map_values(|h: BrowserHealth| health_json(h@))))
            &&& object_holds(v, "ready_for_activation"@, JsonModel::Bool(all_ready(health)))
        }),
{
    reveal_strlit("pending_config");
    reveal_strlit("accounts");
    reveal_strlit("ready_for_activation");
    assert("pending_config"@.len() == 14);
    assert("accounts"@.len() == 8);
    assert("ready_for_activation"@.len() == 20);
    let fields = status_json(bridge_dir, health)->Object_0;
    assert(fields[0].0 == "pending_config"@);
    assert(fields[1].0 == "accounts"@);
    assert(fields[2].0 == "ready_for_activation"@);
    lemma_first_field_is_held(fields, 0, "pending_config"@, JsonModel::Text(joined_path(bridge_dir, PENDING_ACCOUNTS_FILE@)));
    lemma_first_field_is_held(fields, 1, "accounts"@, JsonModel::Array(health.map_values(|h: BrowserHealth| health_json(h@))));
    lemma_first_field_is_held(fields, 2, "ready_for_activation"@, JsonModel::Bool(all_ready(health)));
}

/// What is told of an activation: where the live configuration is, and its accounts.
pub proof fn lemma_activation_is_told(bridge_dir: Seq<char>, ids: Seq<Seq<char>>)
    ensures
        ({
            let v = activated_json(bridge_dir, ids);
            &&& object_holds(v, "active_config"@, JsonModel::Text(joined_path(bridge_dir, "accounts.json"@)))
            &&& object_holds(v, "account_ids"@, texts_model(ids))
        }),
{
    reveal_strlit("active_config");
    reveal_strlit("account_ids");
    assert("active_config"@.len() == 13);
    assert("account_ids"@.len() == 11);
    let fields = activated_json(bridge_dir, ids)->Object_0;
    assert(fields[0].0 == "active_config"@);
    assert(fields[1].0 == "account_ids"@);
    lemma_first_field_is_held(fields, 0, "active_config"@, JsonModel::Text(joined_path(bridge_dir, "accounts.json"@)));
    lemma_first_field_is_held(fields, 1, "account_ids"@, texts_model(ids));
}

/// A file is left alone where files are only compared or it holds what it should; else it is made
/// where it is missing, and replaced where it holds something else.
pub proof fn lemma_what_is_done_about_a_file(
    check: bool,
    found: FileText,
    path: Seq<char>,
    expected: Seq<char>,
)
    ensures
        ({
            let r = action_of(check, found, path, expected);
            &&& check ==> r is Ok && r->Ok_0 is Leave
            &&& !check && found is Unreadable ==> r is Err
            &&& !check && found is Missing ==> r is Ok && r->Ok_0 is Create
            &&& !check && found is Bytes ==> r is Ok && r->Ok_0 is Replace
            &&& !check && (found matches FileText::Text(t) && t@ == expected) ==> r is Ok && r->Ok_0
                is Leave
            &&& !check && (found matches FileText::Text(t) && t@ != expected) ==> r is Ok && r->Ok_0
                is Replace
            &&& matches_text(found, path, expected) matches Ok(same) ==> (same <==> (found matches
                FileText::Text(t) && t@ == expected))
        }),
{
}

/// The four files are installed at their places, and the instructions call the command by the name
/// that it was given.
pub proof fn lemma_files_that_are_installed(
    config_root: Seq<char>,
    omo_agent_dir: Seq<char>,
    delegate_bin: Seq<char>,
)
    ensures
        ({
            let t = targets_of(config_root, omo_agent_dir, delegate_bin);
            &&& t.len() == 4
            &&& t[0].dir == joined_path(config_root, "command"@) && t[0].name == "delegate-web.md"@
            &&& t[1].dir == joined_path(config_root, "skill/delegate-web"@) && t[1].name
                == "SKILL.md"@
            &&& t[2].dir == joined_path(omo_agent_dir, "prompts"@) && t[2].name
                == "delegate-web.md"@
            &&& t[3].dir == joined_path(omo_agent_dir, "skills/delegate-web"@) && t[3].name
                == "SKILL.md"@
            &&& t[1].content == t[3].content
            &&& contains_text(t[0].content, shell_quoted(delegate_bin))
            &&& contains_text(t[1].content, delegate_bin)
            &&& contains_text(t[2].content, shell_quoted(delegate_bin))
        }),
{
    let t = targets_of(config_root, omo_agent_dir, delegate_bin);
    let bin = shell_quoted(delegate_bin);
    let text = coordinator_text(delegate_bin);
    let a = crate::install::COORDINATOR_A@;
    let rest = text.subrange((a.len() + bin.len()) as int, text.len() as int);
    assert(text =~= a + bin + rest);
    lemma_part_stands(a, bin, rest);
    lemma_contained(crate::install::COMMAND_HEAD@, text, "\n"@, bin);
    lemma_contained(crate::install::PROMPT_HEAD@, text, "\n"@, bin);
    let skill = skill_text(delegate_bin);
    let s = crate::install::SKILL_A@;
    let tail = skill.subrange((s.len() + delegate_bin.len()) as int, skill.len() as int);
    assert(skill =~= s + delegate_bin + tail);
    lemma_part_stands(s, delegate_bin, tail);
}

/// What is told of an installation: it went well where each of the four files holds what it should.
pub proof fn lemma_installation_is_told(r: InstallResult)
    ensures
        ({
            let v = result_json(r);
            &&& object_holds(v, "ok"@, JsonModel::Bool(r.command.1 && r.skill.1 && r.prompt.1 && r.omo_skill.1))
            &&& object_holds(v, "check_only"@, JsonModel::Bool(r.check_only))
            &&& object_holds(v, "delegate_bin"@, JsonModel::Text(r.delegate_bin@))
            &&& object_holds(v, "open_code_command"@, installed_json(r.command))
            &&& object_holds(v, "open_code_skill"@, installed_json(r.skill))
            &&& object_holds(v, "omo_prompt"@, installed_json(r.prompt))
            &&& object_holds(v, "omo_skill"@, installed_json(r.omo_skill))
            &&& object_holds(v, "backups"@, texts_model(texts(r.backups@)))
        }),
{
    reveal_strlit("ok");
    reveal_strlit("check_only");
    reveal_strlit("delegate_bin");
    reveal_strlit("open_code_command");
    reveal_strlit("open_code_skill");
    reveal_strlit("omo_prompt");
    reveal_strlit("omo_skill");
    reveal_strlit("backups");
    assert("ok"@.len() == 2);
    assert("check_only"@.len() == 10);
    assert("delegate_bin"@.len() == 12);
    assert("open_code_command"@.len() == 17);
    assert("open_code_skill"@.len() == 15);
    assert("omo_prompt"@.len() == 10);
    assert("omo_skill"@.len() == 9);
    assert("backups"@.len() == 7);
    assert("check_only"@[0] != "omo_prompt"@[0]);
    let fields = result_json(r)->Object_0;
    assert(fields[0].0 == "ok"@);
    assert(fields[1].0 == "check_only"@);
    assert(fields[2].0 == "delegate_bin"@);
    assert(fields[3].0 == "open_code_command"@);
    assert(fields[4].0 == "open_code_skill"@);
    assert(fields[5].0 == "omo_prompt"@);
    assert(fields[6].0 == "omo_skill"@);
    assert(fields[7].0 == "backups"@);
    lemma_first_field_is_held(fields, 0, "ok"@, JsonModel::Bool(r.command.1 && r.skill.1 && r.prompt.1 && r.omo_skill.1));
    lemma_first_field_is_held(fields, 1, "check_only"@, JsonModel::Bool(r.check_only));
    lemma_first_field_is_held(fields, 2, "delegate_bin"@, JsonModel::Text(r.delegate_bin@));
    lemma_first_field_is_held(fields, 3, "open_code_command"@, installed_json(r.command));
    lemma_first_field_is_held(fields, 4, "open_code_skill"@, installed_json(r.skill));
    lemma_first_field_is_held(fields, 5, "omo_prompt"@, installed_json(r.prompt));
    lemma_first_field_is_held(fields, 6, "omo_skill"@, installed_json(r.omo_skill));
    lemma_first_field_is_held(fields, 7, "backups"@, texts_model(texts(r.backups@)));
}

/// What is told of a file: where it is, and whether it holds what it should. People are told of an
/// installation only where all four do.
pub proof fn lemma_installed_file_is_told(f: (String, bool), r: InstallResult)
    ensures
        object_holds(installed_json(f), "path"@, JsonModel::Text(f.0@)),
        object_holds(installed_json(f), "matches"@, JsonModel::Bool(f.1)),
        told_lines(r) is Ok <==> r.command.1 && r.skill.1 && r.prompt.1 && r.omo_skill.1,
        told_lines(r) is Err ==> told_lines(r)->Err_0 == NOT_INSTALLED@,
        told_lines(r) is Ok && !r.check_only ==> {
            &&& told_lines(r)->Ok_0.len() == 5
            &&& has_suffix(told_lines(r)->Ok_0[1], r.command.0@)
            &&& has_suffix(told_lines(r)->Ok_0[2], r.skill.0@)
            &&& has_suffix(told_lines(r)->Ok_0[3], r.prompt.0@)
            &&& has_suffix(told_lines(r)->Ok_0[4], r.omo_skill.0@)
        },
{
    reveal_strlit("path");
    reveal_strlit("matches");
    assert("path"@.len() == 4 && "matches"@.len() == 7);
    let fields = installed_json(f)->Object_0;
    assert(fields[0].0 == "path"@);
    lemma_first_field_is_held(fields, 0, "path"@, JsonModel::Text(f.0@));
    lemma_first_field_is_held(fields, 1, "matches"@, JsonModel::Bool(f.1));
    lemma_ends_of_a_text("OpenCode command: "@, r.command.0@);
    lemma_ends_of_a_text("OpenCode skill: "@, r.skill.0@);
    lemma_ends_of_a_text("OMO prompt: "@, r.prompt.0@);
    lemma_ends_of_a_text("OMO skill: "@, r.omo_skill.0@);
}

} // verus!
