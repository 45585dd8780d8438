//! What holds of smaller choices: which browser and page serve an account, what is read of a worker's
//! report, how a task is headed, what is published, and when several accounts may be used.
use crate::account_diagnostics::first_lost;
use crate::account_state::AccountStateStore;
use crate::accounts::{AccountConfig, AccountsConfig, AccountsFile, LEGACY_ACCOUNT_ID};
use crate::browser_pool::{eval_fault_text, eval_timeout_text, inspection_rank, is_inspection_choice,
    is_page_id, is_target_of, isolation_fault, isolation_holds, probe_fault_text, BrowserHealth,
    BrowserLaunchMode, BrowserTarget, CdpTarget, EvalReply, EvalWait};
use crate::delegate::prompts::{shortened, title_line};
use crate::delegate::sessions::{closed_end, gone_end, lease_end, transient_end};
use crate::error::BridgeError;
use crate::events::{EventBus, EventModel};
use crate::json::{lemma_held_value_is_read, lemma_lacking_value_is_not_read, object_holds,
    object_lacks, JsonModel};
use crate::laws::texts::{lemma_ends_of_a_text, lemma_part_stands};
use crate::mass_ulw_web::{common, label_position, read_worker, scope_outcome,
    DelegateWebDelegationResult};
use crate::onboarding::{activation_fault, all_blockers, expected_accounts, is_candidate, kind_name,
    ready_accounts, LegacyScopeBlockerKind, OnboardingAccount};
use crate::orca::{page_fault_text, PageProbeFault};
use crate::router::{account_now, AccountRouter};
use crate::security::workspace::WorkspaceMux;
use crate::server::notices::{all_published, runs_commands, Notice};
use crate::shelf::Slot;
use crate::task_state::LifecycleSeen;
use crate::text::{contains_text, has_prefix, has_suffix, opt_text, trimmed};
use vstd::prelude::*;

verus! {

/// The browser of an account is the one that the account is configured with.
pub proof fn lemma_browser_is_that_of_the_account(
    target: BrowserTarget,
    account: AccountConfig,
    bridge_dir: Seq<char>,
    mode: BrowserLaunchMode,
)
    requires
        is_target_of(target, account, bridge_dir, mode),
    ensures
        target.account_id@ == account.id@,
        target.instance@ == account.browser.instance@,
        target.worktree@ == account.browser.worktree@,
        target.launch_mode == mode,
        account.browser.driver is Some ==> target.driver == account.browser.driver->0,
        account.browser.driver is None ==> target.driver is Chrome,
        account.browser.cdp_endpoint is Some <==> target.cdp_endpoint is Some,
        account.browser.cdp_endpoint is Some ==> target.cdp_endpoint->0@
            == account.browser.cdp_endpoint->0@,
        account.browser.user_data_dir is Some ==> target.user_data_dir is Some
            && target.user_data_dir->0@ == account.browser.user_data_dir->0@,
{
}

/// The page that is inspected is a page of the site where there is one, else any page, else whatever
/// there is; of equals the first.
pub proof fn lemma_page_that_is_inspected(v: Seq<CdpTarget>, i: int, j: int)
    requires
        is_inspection_choice(v, i),
        0 <= j < v.len(),
    ensures
        ({
            let is_page = v[j].target_type@ == "page"@;
            let on_site = is_page && contains_text(v[j].url@, "chatgpt.com"@);
            &&& on_site ==> v[i].target_type@ == "page"@ && contains_text(v[i].url@, "chatgpt.com"@)
                && i <= j
            &&& is_page ==> v[i].target_type@ == "page"@
            &&& is_page && !contains_text(v[i].url@, "chatgpt.com"@) ==> i <= j
            &&& v[i].target_type@ != "page"@ ==> i == 0
        }),
{
    if i > 0 {
        assert(inspection_rank(v[0]) < inspection_rank(v[i]));
    }
    if j < i {
        assert(inspection_rank(v[j]) < inspection_rank(v[i]));
    }
    if j > i {
        assert(inspection_rank(v[j]) <= inspection_rank(v[i]));
    }
}

/// The id of a page is short and made of letters, digits and a few marks; none of them can lead out of
/// a path.
pub proof fn lemma_ids_of_pages(s: Seq<char>, i: int)
    requires
        is_page_id(s),
        0 <= i < s.len(),
    ensures
        1 <= s.len() <= 256,
        s[i] != '/' && s[i] != '\\' && s[i] != '?' && s[i] != '#' && s[i] != ' ' && s[i] != '%',
{
}

/// Letters, digits, hyphens and underscores make the id of a page.
pub proof fn lemma_plain_ids_are_ids_of_pages(s: Seq<char>)
    requires
        1 <= s.len() <= 256,
        forall|i: int|
            0 <= i < s.len() ==> ('a' <= (#[trigger] s[i]) && s[i] <= 'z') || ('A' <= s[i] && s[i] <= 'Z')
                || ('0' <= s[i] && s[i] <= '9') || s[i] == '-' || s[i] == '_' || s[i] == '.' || s[i] == ':',
    ensures
        is_page_id(s),
{
}

/// Why accounts are not kept apart is told with the account.
pub proof fn lemma_missing_isolation_is_told(accounts: Seq<AccountConfig>, target: BrowserTarget)
    ensures
        isolation_fault(accounts, target) is None <==> isolation_holds(accounts, target),
        isolation_fault(accounts, target) matches Some(m) ==> contains_text(m, target.account_id@),
{
    lemma_part_stands(
        "multi-account browser isolation requires every enabled account to configure a distinct browser.cdp_endpoint plus browser.user_data_dir for managed_local ownership; account '"@,
        target.account_id@,
        "' is incomplete"@,
    );
}

/// What went wrong with a page is told as what it is.
pub proof fn lemma_faults_of_pages_are_told(reply: EvalReply, wait: EvalWait, shown: Seq<char>, url: Seq<char>)
    ensures
        eval_fault_text(reply, shown) is Some <==> reply is Failed || reply is Threw || reply is NoResult,
        reply is Failed || reply is Threw ==> has_suffix(eval_fault_text(reply, shown)->0, shown),
        reply is Failed ==> has_prefix(
            eval_fault_text(reply, shown)->0,
            "CDP Runtime.evaluate failed: "@,
        ),
        reply is Threw ==> has_prefix(eval_fault_text(reply, shown)->0, "CDP JavaScript exception: "@),
        has_suffix(eval_timeout_text(wait, shown), shown),
        has_suffix(page_fault_text(PageProbeFault::InvalidUrl, url), url),
        page_fault_text(PageProbeFault::Inactive, url) == "ChatGPT Web interface is not active on page"@,
        probe_fault_text(PageProbeFault::Inactive, url) == "ChatGPT Web interface is not active on page"@,
        page_fault_text(PageProbeFault::NoUrl, url) == "ChatGPT page probe has no url"@,
        probe_fault_text(PageProbeFault::NoUrl, url) == "ChatGPT page probe has no url"@,
{
    lemma_ends_of_a_text("CDP Runtime.evaluate failed: "@, shown);
    lemma_ends_of_a_text("CDP JavaScript exception: "@, shown);
    lemma_ends_of_a_text("invalid ChatGPT page URL: "@, url);
    lemma_ends_of_a_text("timed out connecting to CDP websocket for "@, shown);
    lemma_ends_of_a_text("timed out sending CDP Runtime.evaluate request for "@, shown);
    lemma_ends_of_a_text("timed out waiting for CDP Runtime.evaluate response for "@, shown);
}

/// What is read of a worker is what its report says; what it does not say counts as not kept.
pub proof fn lemma_report_of_a_worker_is_read(v: JsonModel, scope_id: Seq<char>, t: Seq<char>, b: bool)
    requires
        read_worker(v) is Some,
    ensures
        object_holds(v, "scope_id"@, JsonModel::Text(scope_id)) ==> read_worker(v)->0.scope_id == scope_id,
        object_holds(v, "label"@, JsonModel::Text(t)) ==> read_worker(v)->0.label == Some(t),
        object_lacks(v, "label"@) ==> read_worker(v)->0.label is None,
        object_holds(v, "terminal_detail"@, JsonModel::Text(t)) ==> read_worker(v)->0.terminal_detail
            == Some(t),
        object_lacks(v, "terminal_detail"@) ==> read_worker(v)->0.terminal_detail is None,
        object_lacks(v, "terminal_state"@) ==> read_worker(v)->0.terminal_state is None,
        object_holds(v, "session_retained"@, JsonModel::Bool(b)) ==> read_worker(v)->0.session_retained
            == b,
        object_lacks(v, "session_retained"@) ==> !read_worker(v)->0.session_retained,
        object_holds(v, "resumable"@, JsonModel::Bool(b)) ==> read_worker(v)->0.resumable == b,
        object_lacks(v, "resumable"@) ==> !read_worker(v)->0.resumable,
{
    if object_holds(v, "scope_id"@, JsonModel::Text(scope_id)) {
        lemma_held_value_is_read(v, "scope_id"@, JsonModel::Text(scope_id));
    }
    if object_holds(v, "label"@, JsonModel::Text(t)) {
        lemma_held_value_is_read(v, "label"@, JsonModel::Text(t));
    }
    if object_holds(v, "terminal_detail"@, JsonModel::Text(t)) {
        lemma_held_value_is_read(v, "terminal_detail"@, JsonModel::Text(t));
    }
    if object_holds(v, "session_retained"@, JsonModel::Bool(b)) {
        lemma_held_value_is_read(v, "session_retained"@, JsonModel::Bool(b));
    }
    if object_holds(v, "resumable"@, JsonModel::Bool(b)) {
        lemma_held_value_is_read(v, "resumable"@, JsonModel::Bool(b));
    }
    if object_lacks(v, "label"@) {
        lemma_lacking_value_is_not_read(v, "label"@);
    }
    if object_lacks(v, "terminal_detail"@) {
        lemma_lacking_value_is_not_read(v, "terminal_detail"@);
    }
    if object_lacks(v, "terminal_state"@) {
        lemma_lacking_value_is_not_read(v, "terminal_state"@);
    }
    if object_lacks(v, "session_retained"@) {
        lemma_lacking_value_is_not_read(v, "session_retained"@);
    }
    if object_lacks(v, "resumable"@) {
        lemma_lacking_value_is_not_read(v, "resumable"@);
    }
}

/// A report without a scope is none.
pub proof fn lemma_report_without_a_scope(v: JsonModel)
    requires
        object_lacks(v, "scope_id"@),
    ensures
        read_worker(v) is None,
{
    lemma_lacking_value_is_not_read(v, "scope_id"@);
}

/// A worker can be resumed where its session was kept and can be, and it has a scope; then its scope is
/// given.
pub proof fn lemma_workers_that_can_be_resumed(d: DelegateWebDelegationResult)
    ensures
        scope_outcome(d) is Ok <==> d.session_retained && d.resumable && trimmed(d.scope_id@).len() > 0,
        scope_outcome(d) matches Ok(s) ==> s == d.scope_id@,
{
}

/// A worker is found by its label, the first of that label.
pub proof fn lemma_worker_is_found_by_label(v: Seq<DelegateWebDelegationResult>, label: Seq<char>)
    ensures
        ({
            let i = label_position(v, label);
            &&& 0 <= i <= v.len()
            &&& i < v.len() ==> v[i].label is Some && v[i].label->0@ == label
            &&& forall|j: int| 0 <= j < i ==> opt_text((#[trigger] v[j]).label) != Some(label)
        }),
    decreases v.len(),
{
    if v.len() > 0 && opt_text(v[0].label) != Some(label) {
        let t = v.drop_first();
        lemma_worker_is_found_by_label(t, label);
        assert forall|j: int| 0 <= j < label_position(v, label) implies opt_text((#[trigger] v[j]).label)
            != Some(label) by {
            if j > 0 {
                assert(t[j - 1] == v[j]);
            }
        }
        if label_position(t, label) < t.len() {
            assert(v[label_position(t, label) + 1] == t[label_position(t, label)]);
        }
    }
}

/// A bridge that is named is passed on; without one nothing is.
pub proof fn lemma_bridge_is_passed_on(url: Seq<char>)
    ensures
        common(Some(url)) == seq!["--bridge-url"@, url],
        common(None).len() == 0,
{
}

/// A title is kept as it is up to eighty characters, and else cut to its beginning and three dots.
pub proof fn lemma_long_titles_are_cut(s: Seq<char>)
    ensures
        s.len() <= 80 ==> shortened(s) == s,
        shortened(s).len() <= 80,
        s.len() > 80 ==> {
            &&& shortened(s).len() == 80
            &&& has_suffix(shortened(s), "..."@)
            &&& shortened(s).subrange(0, 77) == s.subrange(0, 77)
        },
{
    reveal_strlit("...");
    if s.len() > 80 {
        lemma_ends_of_a_text(s.subrange(0, 77), "..."@);
        assert(shortened(s).subrange(0, 77) =~= s.subrange(0, 77));
    }
}

/// A task is headed by its label and its title, whichever it has; one with neither has no heading.
pub proof fn lemma_headings_of_tasks(label: Option<Seq<char>>, title: Seq<char>)
    ensures
        ({
            let t = title_line(label, title);
            let named = label is Some && trimmed(label->0).len() > 0;
            &&& named ==> contains_text(t, trimmed(label->0)) && has_prefix(t, "# [Task: "@)
            &&& title.len() > 0 ==> contains_text(t, title) && has_suffix(t, "\n\n"@)
            &&& !named && title.len() > 0 ==> has_prefix(t, "# [Task] "@)
            &&& !named && title.len() == 0 ==> t.len() == 0
        }),
{
    let t = title_line(label, title);
    let gap = "\n\n"@;
    if label is Some && trimmed(label->0).len() > 0 {
        let l = trimmed(label->0);
        let head = "# [Task: "@;
        if title.len() > 0 {
            assert(t =~= head + l + ("] "@ + title + gap));
            lemma_part_stands(head, l, "] "@ + title + gap);
            assert(t =~= head + (l + "] "@ + title + gap));
            lemma_ends_of_a_text(head, l + "] "@ + title + gap);
            assert(t =~= (head + l + "] "@) + title + gap);
            lemma_part_stands(head + l + "] "@, title, gap);
            lemma_ends_of_a_text(head + l + "] "@ + title, gap);
        } else {
            lemma_part_stands(head, l, "]\n\n"@);
            assert(t =~= head + (l + "]\n\n"@));
            lemma_ends_of_a_text(head, l + "]\n\n"@);
        }
    } else if title.len() > 0 {
        lemma_part_stands("# [Task] "@, title, gap);
        assert(t =~= "# [Task] "@ + (title + gap));
        lemma_ends_of_a_text("# [Task] "@, title + gap);
        lemma_ends_of_a_text("# [Task] "@ + title, gap);
    }
}

/// The notices of a call are all published, in their order, under numbers that follow each other, with
/// their own data.
pub proof fn lemma_notices_are_all_published(
    notices: Seq<Notice>,
    from: int,
    before: EventBus,
    after: EventBus,
    now_ms: u64,
    events: Seq<EventModel>,
    i: int,
)
    requires
        0 <= from <= notices.len(),
        all_published(notices, from, before, after, now_ms, events),
        before.next_seq + notices.len() <= u64::MAX,
        from <= i < notices.len(),
    ensures
        events.len() == notices.len() - from,
        events[i - from].kind == notices[i].kind@,
        events[i - from].data == notices[i].data.model(),
        events[i - from].timestamp_ms == now_ms,
        events[i - from].workspace == before.workspace@,
        events[i - from].seq == before.next_seq + (i - from),
    decreases notices.len() - from,
{
    let mid = choose|mid: EventBus|
        {
            &&& #[trigger] crate::events::published(
                before,
                mid,
                notices[from].kind@,
                notices[from].data.model(),
                now_ms,
                events[0],
            )
            &&& all_published(notices, from + 1, mid, after, now_ms, events.drop_first())
        };
    lemma_publications_are_counted(notices, from + 1, mid, after, now_ms, events.drop_first());
    if i > from {
        lemma_notices_follow(notices, from + 1, mid, after, now_ms, events.drop_first(), i, before.next_seq + 1);
        assert(events[i - from] == events.drop_first()[i - from - 1]);
    }
}

proof fn lemma_publications_are_counted(
    notices: Seq<Notice>,
    from: int,
    before: EventBus,
    after: EventBus,
    now_ms: u64,
    events: Seq<EventModel>,
)
    requires
        0 <= from <= notices.len(),
        all_published(notices, from, before, after, now_ms, events),
    ensures
        events.len() == notices.len() - from,
    decreases notices.len() - from,
{
    if from < notices.len() {
        let mid = choose|mid: EventBus|
            {
                &&& #[trigger] crate::events::published(
                    before,
                    mid,
                    notices[from].kind@,
                    notices[from].data.model(),
                    now_ms,
                    events[0],
                )
                &&& all_published(notices, from + 1, mid, after, now_ms, events.drop_first())
            };
        lemma_publications_are_counted(notices, from + 1, mid, after, now_ms, events.drop_first());
    }
}

proof fn lemma_notices_follow(
    notices: Seq<Notice>,
    from: int,
    before: EventBus,
    after: EventBus,
    now_ms: u64,
    events: Seq<EventModel>,
    i: int,
    first: int,
)
    requires
        0 <= from <= i < notices.len(),
        all_published(notices, from, before, after, now_ms, events),
        before.next_seq == first,
        first + (notices.len() - from) <= u64::MAX,
    ensures
        events.len() == notices.len() - from,
        events[i - from].kind == notices[i].kind@,
        events[i - from].data == notices[i].data.model(),
        events[i - from].timestamp_ms == now_ms,
        events[i - from].workspace == before.workspace@,
        events[i - from].seq == first + (i - from),
    decreases notices.len() - from,
{
    let mid = choose|mid: EventBus|
        {
            &&& #[trigger] crate::events::published(
                before,
                mid,
                notices[from].kind@,
                notices[from].data.model(),
                now_ms,
                events[0],
            )
            &&& all_published(notices, from + 1, mid, after, now_ms, events.drop_first())
        };
    lemma_publications_are_counted(notices, from, before, after, now_ms, events);
    if i > from {
        lemma_notices_follow(
            notices,
            from + 1,
            mid,
            after,
            now_ms,
            events.drop_first(),
            i,
            first + 1,
        );
        assert(events[i - from] == events.drop_first()[i - from - 1]);
    }
}

/// The calls that run commands are those that start, ask after and end one.
pub proof fn lemma_calls_that_run_commands(name: Seq<char>)
    ensures
        runs_commands(name) <==> name == "run_command"@ || name == "poll_command"@ || name
            == "cancel_command"@,
{
}

/// The configuration that is prepared for several accounts has each of them, in their order, enabled and
/// with its own browser, and takes them in turn.
pub proof fn lemma_prepared_configuration_has_the_accounts(
    f: AccountsFile,
    accounts: Seq<OnboardingAccount>,
    i: int,
)
    requires
        is_candidate(f, accounts),
        0 <= i < accounts.len(),
    ensures
        f.version == 1,
        f.accounts@.len() == accounts.len(),
        f.routing.strategy is RoundRobin,
        f.routing.reservation_ttl_seconds == 120,
        f.routing.selection_failure_backoff_seconds == 30,
        f.defaults.limits.window_seconds == 3600,
        f.defaults.limits.max_dispatches == 12,
        f.defaults.limits.max_active_workers == 3,
        f.defaults.cooldown.unknown_rate_limit_seconds == 900,
        f.defaults.cooldown.delivery_failure_seconds == 30,
        f.accounts@[i].id@ == accounts[i]@.id,
        f.accounts@[i].enabled,
        !f.accounts@[i].draining,
        f.accounts@[i].browser.instance@ == accounts[i]@.instance,
        f.accounts@[i].browser.worktree@ == accounts[i]@.worktree,
        f.accounts@[i].browser.user_data_dir is Some,
        f.accounts@[i].browser.user_data_dir->0@ == accounts[i]@.user_data_dir,
        f.accounts@[i].browser.cdp_endpoint is Some,
        f.accounts@[i].browser.cdp_endpoint->0@ == accounts[i]@.cdp_endpoint,
{
    let raw = f.accounts@[i];
}

/// Several accounts are not used while one of them is not logged in, while work of the old kind goes on or
/// is kept, while the old account holds a reservation, or where they are in use already; each of these is
/// told, in this order.
pub proof fn lemma_why_accounts_are_not_used(
    config: AccountsConfig,
    mux: WorkspaceMux,
    seen: Seq<Slot<LifecycleSeen>>,
    store: AccountStateStore,
    health: Seq<BrowserHealth>,
    live_exists: bool,
    e: BridgeError,
)
    requires
        activation_fault(config, mux, seen, store, health, live_exists, e),
    ensures
        ({
            let all_in = ready_accounts(health) == expected_accounts(config);
            let blocked = all_blockers(mux, seen);
            let old_account = store.loaded(LEGACY_ACCOUNT_ID@);
            &&& !all_in ==> e@.kind is Precondition && has_prefix(
                e@.detail,
                "cannot activate multi-account routing until every pending account is logged in; ready accounts: "@,
            )
            &&& all_in && blocked is Ok && blocked->Ok_0.len() > 0 ==> e@.kind is Precondition
                && has_prefix(
                e@.detail,
                "cannot activate multi-account routing while legacy scopes remain: "@,
            )
            &&& all_in && blocked is Err ==> e@ == blocked->Err_0
            &&& all_in && blocked is Ok && blocked->Ok_0.len() == 0 && old_account is Some ==> {
                &&& old_account->0.reservations.len() > 0 || live_exists
                &&& old_account->0.reservations.len() > 0 ==> e@.detail
                    == "cannot activate multi-account routing while a legacy account reservation remains"@
            }
        }),
{
    lemma_ends_of_a_text(
        "cannot activate multi-account routing until every pending account is logged in; ready accounts: "@,
        crate::text::joined(crate::onboarding::firsts(ready_accounts(health)), ", "@),
    );
    if all_blockers(mux, seen) is Ok {
        lemma_ends_of_a_text(
            "cannot activate multi-account routing while legacy scopes remain: "@,
            crate::text::joined(
                crate::onboarding::blocker_texts(all_blockers(mux, seen)->Ok_0),
                ", "@,
            ),
        );
    }
}

/// The kinds of work that keep several accounts from being used have their own names.
pub proof fn lemma_kinds_of_blockers_have_names(a: LegacyScopeBlockerKind, b: LegacyScopeBlockerKind)
    ensures
        kind_name(a) == kind_name(b) ==> a == b,
        kind_name(LegacyScopeBlockerKind::Active) == "Active"@,
        kind_name(LegacyScopeBlockerKind::Retained) == "Retained"@,
{
    reveal_strlit("Active");
    reveal_strlit("Retained");
    reveal_strlit("Unknown");
    assert("Active"@.len() == 6);
    assert("Retained"@.len() == 8);
    assert("Unknown"@.len() == 7);
}

/// A page that could not be looked at is kept where its lease could be renewed; one that is gone is not,
/// and one whose lease could not be kept is not either. What went wrong is told.
pub proof fn lemma_sessions_that_are_kept(
    error: Seq<char>,
    leased: Result<Option<u64>, String>,
    closed: Result<(), String>,
)
    ensures
        transient_end(error, leased).retained <==> leased is Ok,
        leased matches Ok(t) ==> transient_end(error, leased).lease_expires_ms == t,
        transient_end(error, leased).error is Some,
        contains_text(transient_end(error, leased).error->0, error),
        !transient_end(error, leased).closed,
        !gone_end(error, closed).retained,
        gone_end(error, closed).closed <==> closed is Ok,
        gone_end(error, closed).error is Some,
        contains_text(gone_end(error, closed).error->0, error),
        closed matches Err(m) ==> has_suffix(gone_end(error, closed).error->0, m@),
        lease_end(leased).retained <==> leased is Ok,
        lease_end(leased).error is Some <==> leased is Err,
        leased matches Ok(t) ==> lease_end(leased).lease_expires_ms == t,
        leased matches Err(m) ==> has_suffix(lease_end(leased).error->0, m@),
{
    let none = Seq::<char>::empty();
    let a = "browser verification temporarily failed; retained for retry: "@;
    assert(a + error =~= a + error + none);
    lemma_part_stands(a, error, none);
    let g = "terminal browser page is definitively unavailable: "@;
    assert(g + error =~= g + error + none);
    lemma_part_stands(g, error, none);
    if leased is Err {
        let m = leased->Err_0@;
        let b = "browser verification temporarily failed and retained-session lease could not be refreshed; scope/tab preserved: "@;
        let c = "; lease error: "@;
        assert(b + error + c + m =~= b + error + (c + m));
        lemma_part_stands(b, error, c + m);
        lemma_ends_of_a_text(
            "failed to persist retained-session lease; scope/tab preserved for recovery: "@,
            m,
        );
    }
    if closed is Err {
        let m = closed->Err_0@;
        let c = "; tab close also failed: "@;
        assert(g + error + c + m =~= g + error + (c + m));
        lemma_part_stands(g, error, c + m);
        lemma_ends_of_a_text(g + error + c, m);
    }
}

/// The message of a failure tells its kind first.
pub proof fn lemma_failures_tell_their_kind(e: BridgeError)
    ensures
        e is Io ==> e.prefix() == "I/O error: "@,
        e is Path ==> e.prefix() == "Path error: "@,
        e is Security ==> e.prefix() == "Security violation: "@,
        e is Precondition ==> e.prefix() == "Precondition failed: "@,
        e is Command ==> e.prefix() == "Command execution error: "@,
        e is Serialization ==> e.prefix() == "Serialization error: "@,
{
}

/// A session that is closed is not kept and holds no lease; what went wrong in closing its page and in
/// taking its scope away is told, each.
pub proof fn lemma_sessions_that_are_closed(closed: Result<(), String>, removed: Result<(), String>)
    ensures
        ({
            let s = closed_end(closed, removed);
            &&& !s.retained
            &&& !s.expired
            &&& s.lease_expires_ms is None
            &&& s.closed <==> closed is Ok
            &&& s.error is None <==> closed is Ok && removed is Ok
            &&& closed matches Err(m) ==> contains_text(s.error->0, m@)
            &&& removed matches Err(m) ==> has_suffix(s.error->0, m@)
        }),
{
    let none = Seq::<char>::empty();
    let a = "browser tab close failed: "@;
    let b = "; scope cleanup failed: "@;
    if closed is Err {
        let m = closed->Err_0@;
        assert(a + m =~= a + m + none);
        lemma_part_stands(a, m, none);
        if removed is Err {
            let x = removed->Err_0@;
            assert(a + m + b + x =~= a + m + (b + x));
            lemma_part_stands(a, m, b + x);
            lemma_ends_of_a_text(a + m + b, x);
        }
    }
    if removed is Err {
        lemma_ends_of_a_text("scope cleanup failed: "@, removed->Err_0@);
    }
}

/// Whether work of the old kind is left is only known where every scope could be read.
pub proof fn lemma_old_work_needs_every_scope(mux: WorkspaceMux, seen: Seq<Slot<LifecycleSeen>>)
    ensures
        mux.listed(true) matches Err(f) ==> all_blockers(mux, seen) is Err && all_blockers(
            mux,
            seen,
        )->Err_0 == f,
{
}

/// The account that is told of is the first whose state cannot be read.
pub proof fn lemma_first_account_that_is_lost(
    config: AccountsConfig,
    router: AccountRouter,
    now_ms: u64,
    i: int,
)
    requires
        0 <= i < config.accounts@.len(),
        account_now(config, router.store, config.accounts@[i].id@, now_ms) is None,
        forall|j: int|
            0 <= j < i ==> account_now(
                config,
                router.store,
                (#[trigger] config.accounts@[j]).id@,
                now_ms,
            ) is Some,
    ensures
        first_lost(config, router, now_ms, i),
        forall|k: int| #[trigger] first_lost(config, router, now_ms, k) ==> k == i,
{
    assert forall|k: int| #[trigger] first_lost(config, router, now_ms, k) implies k == i by {
        if k < i {
            assert(account_now(config, router.store, config.accounts@[k].id@, now_ms) is Some);
        }
        if i < k {
            assert(account_now(config, router.store, config.accounts@[i].id@, now_ms) is Some);
        }
    }
}

} // verus!
