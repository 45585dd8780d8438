//! What holds of the records that the bridge keeps and reads: its configuration, the diagnosis of an
//! account, the rows of telemetry, the events that wait, and the values that go into a reply.
use crate::account_diagnostics::{is_diagnostic, is_recoverable_legacy, noted_state, recoveries,
    unbound_expiries, AccountDiagnostic};
use crate::account_state::{is_account_id, AccountStateStore, ReservationModel, StateModel,
    ROUTER_STATE_VERSION};
use crate::accounts::{config_outcome, id_fault, AccountConfig, AccountsConfig, AccountsFile,
    LegacyAccountConfig, ProfileFacts, LEGACY_ACCOUNT_ID};
use crate::arith::{lesser, sat_add, sat_mul, sat_sub};
use crate::browser_pool::BrowserHealth;
use crate::error::BridgeError;
use crate::events::{waiting, HarnessEvent};
use crate::fresh_dispatch::{claim_outcome, key_fault, FreshDispatchClaims, FreshDispatchDecision};
use crate::json::{field_of, lemma_first_field_is_held, lemma_held_value_is_read,
    lemma_read_value_is_held, object_holds, object_lacks, JsonModel};
use crate::laws::texts::{lemma_ends_of_a_text, lemma_part_stands};
use crate::onboarding::{blockers, usual_defaults_json};
use crate::orca::{close_args, cmux_workspace, command_failure, command_not_json, driver_key,
    has_eval, is_chatgpt_url, BrowserDriverKind, CommandOutput};
use crate::outside::{parsed_url, UrlModel};
use crate::relay::{frame_message, port_of_events, FrameModel};
use crate::router::{account_now, count_for, reserved_active, AccountRouter, LoadModel};
use crate::security::workspace::{ScopeModel, WorkspaceMux};
use crate::server::calls::{command_timeout, with_field};
use crate::server::notices::{blocker_lines, text_lines, NOT_READY};
use crate::shelf::Slot;
use crate::task_state::LifecycleSeen;
use crate::telemetry::{event_json, event_name, hint_name, recent_rows, without_repeats,
    TelemetryEvent, TelemetryEventType, TelemetryModel, TelemetryModelHint};
use crate::text::{after_prefix, contains_text, has_prefix, has_suffix, joined, opt_text, trimmed};
use crate::workers::{is_running, running, ActivityModel};
use vstd::prelude::*;

verus! {

/// A configuration that is read from a file has the file's accounts, all of them and in their order,
/// each with its own limits where the file gives some and with the file's defaults where it does not.
pub proof fn lemma_configuration_is_that_of_the_file(
    file: AccountsFile,
    bridge_dir: Seq<char>,
    mount_root: Seq<char>,
    facts: Seq<ProfileFacts>,
    legacy: LegacyAccountConfig,
    r: Result<AccountsConfig, BridgeError>,
    i: int,
)
    requires
        config_outcome(Some(&file), bridge_dir, mount_root, facts, legacy, r),
        0 <= i < file.accounts@.len(),
    ensures
        r matches Ok(c) ==> {
            let own = file.accounts@[i].limits;
            &&& c.version == file.version
            &&& c.routing == file.routing
            &&& c.defaults == file.defaults
            &&& !c.legacy_fallback
            &&& c.accounts@.len() == file.accounts@.len()
            &&& c.accounts@[i].id == file.accounts@[i].id
            &&& c.accounts@[i].enabled == file.accounts@[i].enabled
            &&& c.accounts@[i].draining == file.accounts@[i].draining
            &&& c.accounts@[i].browser == file.accounts@[i].browser
            &&& own.window_seconds is None ==> c.accounts@[i].limits.window_seconds
                == file.defaults.limits.window_seconds
            &&& own.window_seconds is Some ==> c.accounts@[i].limits.window_seconds
                == own.window_seconds->0
            &&& own.max_dispatches is None ==> c.accounts@[i].limits.max_dispatches
                == file.defaults.limits.max_dispatches
            &&& own.max_dispatches is Some ==> c.accounts@[i].limits.max_dispatches
                == own.max_dispatches->0
            &&& own.max_active_workers is None ==> c.accounts@[i].limits.max_active_workers
                == file.defaults.limits.max_active_workers
            &&& own.max_active_workers is Some ==> c.accounts@[i].limits.max_active_workers
                == own.max_active_workers->0
        },
        r matches Err(e) ==> e is Precondition && has_prefix(e.detail(), "accounts configuration: "@),
{
    match r {
        Ok(c) => {
            let a = c.accounts@[i];
        },
        Err(e) => {
            let words = crate::accounts::file_fault(file, facts, bridge_dir, mount_root)->0;
            lemma_ends_of_a_text("accounts configuration: "@, words);
        },
    }
}

/// Without a file there is one account, the one that was there before there were several.
pub proof fn lemma_configuration_without_a_file(
    bridge_dir: Seq<char>,
    mount_root: Seq<char>,
    facts: Seq<ProfileFacts>,
    legacy: LegacyAccountConfig,
    r: Result<AccountsConfig, BridgeError>,
)
    requires
        config_outcome(None, bridge_dir, mount_root, facts, legacy, r),
    ensures
        r matches Ok(c) ==> {
            &&& c.legacy_fallback
            &&& c.accounts@.len() == 1
            &&& c.accounts@[0].id@ == LEGACY_ACCOUNT_ID@
            &&& c.accounts@[0].enabled
            &&& !c.accounts@[0].draining
            &&& c.accounts@[0].browser == legacy.browser
            &&& c.accounts@[0].limits == legacy.limits
            &&& c.defaults.limits == legacy.limits
            &&& c.defaults.cooldown == legacy.cooldown
            &&& c.routing == legacy.routing
        },
{
}

/// An id that is no account's is told as it is.
pub proof fn lemma_wrong_id_is_told(id: Seq<char>)
    ensures
        id_fault(id) is None <==> is_account_id(id),
        id_fault(id) matches Some(m) ==> contains_text(m, id),
{
    if !is_account_id(id) {
        lemma_part_stands(
            "invalid account id '"@,
            id,
            "'; use 1-128 ASCII letters, digits, '.', '_' or '-'"@,
        );
    }
}

/// The diagnosis of an account shows its configuration, what is booked on it, and what its browser
/// shows.
pub proof fn lemma_diagnosis_shows_the_account(
    d: AccountDiagnostic,
    account: AccountConfig,
    state: StateModel,
    browser: BrowserHealth,
    load: LoadModel,
    now_ms: u64,
)
    requires
        is_diagnostic(d, account, state, browser, load, now_ms),
    ensures
        d.account_id@ == account.id@,
        d.enabled == account.enabled,
        d.draining == account.draining,
        d.max_active_workers == account.limits.max_active_workers,
        d.max_dispatches == account.limits.max_dispatches,
        d.window_seconds == account.limits.window_seconds,
        d.scheduler_health == state.health,
        d.dispatches_in_window == state.dispatches_ms.len(),
        d.reserved_dispatches == state.reservations.len(),
        d.active_workers == count_for(load.counts, account.id@),
        d.reserved_workers == reserved_active(state.reservations, load.scope_ids),
        (state.cooldown_until_ms is Some && state.cooldown_until_ms->0 > now_ms)
            ==> d.cooldown_until_ms == state.cooldown_until_ms && opt_text(d.cooldown_reason)
            == state.cooldown_reason,
        (state.cooldown_until_ms is None || state.cooldown_until_ms->0 <= now_ms)
            ==> d.cooldown_until_ms is None && d.cooldown_reason is None,
        d.browser_instance@ == browser.instance@,
        d.browser_reachability == browser.reachability,
        d.browser_login_state == browser.login_state,
{
}

/// The reservations that wait for a scope run out at their times, in their order.
pub proof fn lemma_times_of_waiting_reservations(rs: Seq<ReservationModel>, x: ReservationModel)
    ensures
        unbound_expiries(Seq::empty()) == Seq::<u64>::empty(),
        x.scope_id is None ==> unbound_expiries(rs.push(x)) == unbound_expiries(rs).push(x.expires_ms),
        x.scope_id is Some ==> unbound_expiries(rs.push(x)) == unbound_expiries(rs),
{
    assert(rs.push(x).drop_last() =~= rs);
}

/// A browser of the old kind recovers its account by being reached; what is seen of a login is noted on
/// the account, and an account of which nothing was seen keeps what is stored.
pub proof fn lemma_seen_logins_are_noted(
    config: AccountsConfig,
    before: AccountRouter,
    id: Seq<char>,
    b: BrowserHealth,
    now_ms: u64,
)
    ensures
        is_recoverable_legacy(b) <==> b.login_state is Unknown && b.reachability is Reachable && b.driver
            == Some(BrowserDriverKind::Cmux),
        ({
            let now = account_now(config, before.store, id, now_ms)->0;
            let noted = noted_state(config, before, id, b, now_ms);
            &&& b.login_state is Ready || is_recoverable_legacy(b) ==> noted is Some && noted->0.health
                is Ready && noted->0.reservations == now.reservations && noted->0.dispatches_ms
                == now.dispatches_ms
            &&& b.login_state is AuthenticationRequired ==> noted is Some && noted->0.health
                is AuthRequired && noted->0.reservations == now.reservations
                && noted->0.dispatches_ms == now.dispatches_ms
            &&& b.login_state is Unknown && !is_recoverable_legacy(b) ==> noted
                == crate::account_state::stored(before.store.accounts@, id)
        }),
{
}

/// The accounts that recovered are counted: those whose browser is logged in, or of the old kind and
/// reached.
pub proof fn lemma_recovered_accounts_are_counted(v: Seq<BrowserHealth>, b: BrowserHealth)
    ensures
        recoveries(Seq::empty()) == 0,
        (b.login_state is Ready || is_recoverable_legacy(b)) ==> recoveries(v.push(b)) == recoveries(v) + 1,
        !(b.login_state is Ready || is_recoverable_legacy(b)) ==> recoveries(v.push(b)) == recoveries(v),
{
    reveal(Seq::filter);
    assert(v.push(b).drop_last() =~= v);
}

/// The rows of a file that count are read from its end: rows in the future are passed over, as are
/// lines that are no rows, and a row before the start ends the reading.
pub proof fn lemma_rows_that_count(
    rows: Seq<Option<TelemetryEvent>>,
    e: TelemetryEvent,
    cutoff: u64,
    now_ms: u64,
)
    ensures
        recent_rows(Seq::empty(), cutoff, now_ms) == Seq::<TelemetryEvent>::empty(),
        recent_rows(rows.push(None), cutoff, now_ms) == recent_rows(rows, cutoff, now_ms),
        e.timestamp_ms < cutoff ==> recent_rows(rows.push(Some(e)), cutoff, now_ms) == Seq::<
            TelemetryEvent,
        >::empty(),
        cutoff <= e.timestamp_ms <= now_ms ==> recent_rows(rows.push(Some(e)), cutoff, now_ms) == seq![e]
            + recent_rows(rows, cutoff, now_ms),
        cutoff <= e.timestamp_ms && e.timestamp_ms > now_ms ==> recent_rows(
            rows.push(Some(e)),
            cutoff,
            now_ms,
        ) == recent_rows(rows, cutoff, now_ms),
{
    assert(rows.push(None).drop_last() =~= rows);
    assert(rows.push(Some(e)).drop_last() =~= rows);
}

/// No row that counts is older than the start or in the future.
pub proof fn lemma_counted_rows_are_recent(
    rows: Seq<Option<TelemetryEvent>>,
    cutoff: u64,
    now_ms: u64,
    i: int,
)
    requires
        0 <= i < recent_rows(rows, cutoff, now_ms).len(),
    ensures
        cutoff <= recent_rows(rows, cutoff, now_ms)[i].timestamp_ms <= now_ms,
        rows.contains(Some(recent_rows(rows, cutoff, now_ms)[i])),
    decreases rows.len(),
{
    let kept = recent_rows(rows, cutoff, now_ms);
    let front = rows.drop_last();
    let rest = recent_rows(front, cutoff, now_ms);
    let x = kept[i];
    if rows.last() is Some && cutoff <= rows.last()->0.timestamp_ms <= now_ms && i == 0 {
        assert(rows[rows.len() - 1] == Some(x));
    } else {
        let j = if rows.last() is Some && cutoff <= rows.last()->0.timestamp_ms <= now_ms {
            i - 1
        } else {
            i
        };
        lemma_counted_rows_are_recent(front, cutoff, now_ms, j);
        assert(rest[j] == x);
        let k = choose|k: int| 0 <= k < front.len() && front[k] == Some(x);
        assert(rows[k] == Some(x));
    }
}

/// A row that comes twice in a run counts once.
pub proof fn lemma_repeated_rows_count_once(s: Seq<TelemetryEvent>, e: TelemetryEvent)
    ensures
        without_repeats(Seq::empty()) == Seq::<TelemetryEvent>::empty(),
        without_repeats(s.push(e)).len() > 0,
        without_repeats(s.push(e)).last()@ == e@,
        s.len() == 0 ==> without_repeats(s.push(e)) == seq![e],
        (s.len() > 0 && s.last()@ == e@) ==> without_repeats(s.push(e)) == without_repeats(s),
        (s.len() > 0 && s.last()@ != e@) ==> without_repeats(s.push(e)) == without_repeats(s).push(e),
    decreases s.len(),
{
    assert(s.push(e).drop_last() =~= s);
    if s.len() > 0 {
        let front = s.drop_last();
        lemma_repeated_rows_count_once(front, s.last());
        assert(front.push(s.last()) =~= s);
    } else {
        assert(without_repeats(s) =~= Seq::<TelemetryEvent>::empty());
        assert(without_repeats(s.push(e)) =~= seq![e]);
    }
}

/// The kinds of rows, and of models, have their own names.
pub proof fn lemma_kinds_of_rows_have_names(
    a: TelemetryEventType,
    b: TelemetryEventType,
    x: TelemetryModelHint,
    y: TelemetryModelHint,
)
    ensures
        event_name(a) == event_name(b) ==> a == b,
        hint_name(x) == hint_name(y) ==> x == y,
        event_name(TelemetryEventType::Dispatched) == "dispatched"@,
        event_name(TelemetryEventType::RateLimited) == "rate_limited"@,
        event_name(TelemetryEventType::DeliveryError) == "delivery_error"@,
        event_name(TelemetryEventType::AuthenticationRequired) == "authentication_required"@,
        event_name(TelemetryEventType::ReadinessInvalid) == "readiness_invalid"@,
        event_name(TelemetryEventType::DispatchFailed) == "dispatch_failed"@,
        hint_name(TelemetryModelHint::Unknown) == "unknown"@,
        hint_name(TelemetryModelHint::Auto) == "auto"@,
{
    reveal_strlit("dispatched");
    reveal_strlit("rate_limited");
    reveal_strlit("delivery_error");
    reveal_strlit("delivery_retry_attempted");
    reveal_strlit("authentication_required");
    reveal_strlit("probe_unsupported");
    reveal_strlit("probe_unknown");
    reveal_strlit("readiness_bootstrap_failed");
    reveal_strlit("readiness_handshake_failed");
    reveal_strlit("readiness_invalid");
    reveal_strlit("dispatch_failed");
    reveal_strlit("terminal_claim_failed");
    assert("dispatched"@.len() == 10);
    assert("rate_limited"@.len() == 12);
    assert("delivery_error"@.len() == 14);
    assert("delivery_retry_attempted"@.len() == 24);
    assert("authentication_required"@.len() == 23);
    assert("probe_unsupported"@.len() == 17);
    assert("probe_unknown"@.len() == 13);
    assert("readiness_bootstrap_failed"@.len() == 26);
    assert("readiness_handshake_failed"@.len() == 26);
    assert("readiness_invalid"@.len() == 17);
    assert("dispatch_failed"@.len() == 15);
    assert("terminal_claim_failed"@.len() == 21);
    assert("probe_unsupported"@[0] != "readiness_invalid"@[0]);
    assert("readiness_bootstrap_failed"@[10] != "readiness_handshake_failed"@[10]);
    reveal_strlit("unknown");
    reveal_strlit("auto");
    reveal_strlit("gpt5_family");
    assert("unknown"@.len() == 7);
    assert("auto"@.len() == 4);
    assert("gpt5_family"@.len() == 11);
}

/// Workers that run are counted: those whose delegation goes on, unless its lock is free.
pub proof fn lemma_running_workers_are_counted(v: Seq<ActivityModel>, x: ActivityModel)
    ensures
        running(Seq::empty()) == 0,
        (x.terminal == Some(false) && x.lock !is Free) ==> running(v.push(x)) == running(v) + 1,
        !(x.terminal == Some(false) && x.lock !is Free) ==> running(v.push(x)) == running(v),
        is_running(x) <==> x.terminal == Some(false) && x.lock !is Free,
{
    assert(v.push(x).drop_last() =~= v);
}

/// The events that wait in a directory are those of its workspace that ask for a continuation of a
/// scope, each with its number and its place.
pub proof fn lemma_waiting_events(
    files: Seq<Slot<Option<HarnessEvent>>>,
    workspace: Seq<char>,
    n: int,
)
    requires
        0 <= n < files.len(),
        files.len() <= usize::MAX,
    ensures
        waiting(files, workspace, 0).len() == 0,
        ({
            let file = files[n];
            let taken = waiting(files, workspace, n + 1);
            let before = waiting(files, workspace, n);
            &&& taken == before || {
                &&& taken.len() == before.len() + 1
                &&& taken.drop_last() == before
                &&& taken.last().at == n
                &&& file.value is Some
                &&& taken.last().seq == file.value->0.seq
                &&& file.value->0.workspace@ == workspace
                &&& file.value->0.kind@ == "continuation_required"@
                &&& has_suffix(file.name@, ".json"@)
            }
            &&& (file.value is None || file.value->0.workspace@ != workspace || file.value->0.kind@
                != "continuation_required"@ || !has_suffix(file.name@, ".json"@)) ==> taken == before
            &&& (file.value is Some && file.value->0.workspace@ == workspace && file.value->0.kind@
                == "continuation_required"@ && has_suffix(file.name@, ".json"@) && file.name@.len() > 5
                && crate::events::scope_of(file.value->0@.data) is Some) ==> taken.len()
                == before.len() + 1
        }),
{
    let taken = waiting(files, workspace, n + 1);
    let before = waiting(files, workspace, n);
    if taken.len() > before.len() {
        assert(taken.drop_last() =~= before);
    }
}

/// A frame that says nothing is no message; any other is one, with its lines joined.
pub proof fn lemma_frames_that_are_messages(f: FrameModel, line: Seq<char>)
    ensures
        frame_message(f) is None <==> f.event.len() == 0 && f.data.len() == 0,
        frame_message(f) matches Some(m) ==> m.event == f.event && m.id == f.id && m.data == joined(
            f.data,
            "\n"@,
        ),
        (frame_message(f) is Some && f.data == seq![line]) ==> frame_message(f)->0.data == line,
{
}

/// The port of the events is that of their URL.
pub proof fn lemma_port_of_the_events(url: Seq<char>)
    ensures
        port_of_events(url) is Ok <==> parsed_url(url) is Ok && parsed_url(url)->Ok_0.port is Some,
        port_of_events(url) matches Ok(p) ==> parsed_url(url)->Ok_0.port == Some(p),
        port_of_events(url) matches Err(m) ==> m.len() > 0 && has_suffix(m[0], url),
{
    lemma_ends_of_a_text("invalid events URL for scope routing: "@, url);
    lemma_ends_of_a_text("events URL has no resolvable port: "@, url);
}

/// A page is on the site where its URL is one of its host, over a secure connection.
pub proof fn lemma_pages_on_the_site(u: UrlModel)
    ensures
        is_chatgpt_url(u) <==> u.scheme == "https"@ && u.host == Some("chatgpt.com"@),
{
}

/// A command that failed is told with its program, its arguments and what it wrote.
pub proof fn lemma_failed_commands_are_told(c: CommandOutput)
    ensures
        contains_text(command_failure(c), c.program@),
        contains_text(command_failure(c), c.shown_args@),
        contains_text(command_failure(c), c.shown_status@),
        contains_text(command_failure(c), trimmed(c.stdout@)),
        has_suffix(command_failure(c), trimmed(c.stderr@)),
        contains_text(command_not_json(c), c.program@),
        has_suffix(command_not_json(c), trimmed(c.stdout@)),
{
    let t = command_failure(c);
    let p = c.program@;
    let a = c.shown_args@;
    let s = c.shown_status@;
    let x = trimmed(c.stdout@);
    let y = trimmed(c.stderr@);
    let f = " failed ("@;
    let g = "): "@;
    let r1 = " "@ + a + f + s + g + x + " "@ + y;
    assert(t =~= "command "@ + p + r1);
    lemma_part_stands("command "@, p, r1);
    let h2 = "command "@ + p + " "@;
    let r2 = f + s + g + x + " "@ + y;
    assert(t =~= h2 + a + r2);
    lemma_part_stands(h2, a, r2);
    let h3 = h2 + a + f;
    let r3 = g + x + " "@ + y;
    assert(t =~= h3 + s + r3);
    lemma_part_stands(h3, s, r3);
    let h4 = h3 + s + g;
    let r4 = " "@ + y;
    assert(t =~= h4 + x + r4);
    lemma_part_stands(h4, x, r4);
    let h5 = h4 + x + " "@;
    assert(t =~= h5 + y);
    lemma_ends_of_a_text(h5, y);
    let u = command_not_json(c);
    let m = " returned invalid JSON: "@;
    assert(u =~= "command "@ + p + (m + x));
    lemma_part_stands("command "@, p, m + x);
    assert(u =~= ("command "@ + p + m) + x);
    lemma_ends_of_a_text("command "@ + p + m, x);
}

/// A workspace is named to the driver unless it is the active one.
pub proof fn lemma_workspaces_are_named(worktree: Seq<char>)
    ensures
        trimmed(worktree) == "active"@ ==> cmux_workspace(worktree).len() == 0,
        trimmed(worktree) != "active"@ ==> cmux_workspace(worktree) == seq!["--workspace"@, worktree],
        forall|k: BrowserDriverKind| #[trigger]
            has_eval(k) <==> k is Orca || k is AgentBrowser || k is Cmux,
{
}

proof fn lemma_set_field_is_read(
    fields: Seq<(Seq<char>, JsonModel)>,
    key: Seq<char>,
    value: JsonModel,
    other: Seq<char>,
)
    requires
        other != key,
    ensures
        field_of(with_field(fields, key, value), key) == Some(value),
        field_of(with_field(fields, key, value), other) == field_of(fields, other),
    decreases fields.len(),
{
    let all = with_field(fields, key, value);
    if fields.len() == 0 {
        assert(all.drop_first() =~= Seq::<(Seq<char>, JsonModel)>::empty());
        assert(all[0] == (key, value));
    } else {
        let t = fields.drop_first();
        if fields[0].0 == key {
            assert(all.drop_first() =~= t);
            assert(all[0] == (key, value));
        } else {
            lemma_set_field_is_read(t, key, value, other);
            assert(all.drop_first() =~= with_field(t, key, value));
            assert(all[0] == fields[0]);
        }
    }
}

/// A field that is set is held with its new value, whether it was there before or not, and every other
/// field is what it was.
pub proof fn lemma_set_field_is_held(
    fields: Seq<(Seq<char>, JsonModel)>,
    key: Seq<char>,
    value: JsonModel,
    other: Seq<char>,
    x: JsonModel,
)
    requires
        other != key,
    ensures
        object_holds(JsonModel::Object(with_field(fields, key, value)), key, value),
        object_holds(JsonModel::Object(with_field(fields, key, value)), other, x) <==> object_holds(
            JsonModel::Object(fields),
            other,
            x,
        ),
{
    let old_value = JsonModel::Object(fields);
    let new_value = JsonModel::Object(with_field(fields, key, value));
    lemma_set_field_is_read(fields, key, value, other);
    lemma_read_value_is_held(new_value, key);
    lemma_read_value_is_held(new_value, other);
    lemma_read_value_is_held(old_value, other);
    if object_holds(new_value, other, x) {
        lemma_held_value_is_read(new_value, other, x);
    }
    if object_holds(old_value, other, x) {
        lemma_held_value_is_read(old_value, other, x);
    }
}

/// A command may take as long as it asks for, up to the limit, and at least a second; one that does not
/// ask gets the limit.
pub proof fn lemma_time_of_a_command(asked: u64, limit: u64)
    requires
        limit >= 1,
    ensures
        1 <= asked <= limit ==> command_timeout(Some(asked), limit) == asked,
        asked > limit ==> command_timeout(Some(asked), limit) == limit,
        asked == 0 ==> command_timeout(Some(asked), limit) == 1,
        command_timeout(None, limit) == limit,
        command_timeout(Some(asked), 0) == 1,
        command_timeout(None, 0) == 1,
{
}

/// Sums, differences and products are exact where they fit, and else stay at the end that they ran over;
/// of two times the earlier counts.
pub proof fn lemma_bounded_arithmetic(a: u64, b: u64)
    ensures
        a + b <= u64::MAX ==> sat_add(a, b) == a + b,
        a + b > u64::MAX ==> sat_add(a, b) == u64::MAX,
        a >= b ==> sat_sub(a, b) == a - b,
        a < b ==> sat_sub(a, b) == 0,
        a * b <= u64::MAX ==> sat_mul(a, b) == a * b,
        a * b > u64::MAX ==> sat_mul(a, b) == u64::MAX,
        a <= b ==> lesser(Some(a), Some(b)) == Some(a) && lesser(Some(b), Some(a)) == Some(a),
        lesser(Some(a), None) == Some(a),
        lesser(None, Some(a)) == Some(a),
        lesser(None, None) is None,
{
}

/// What is behind the beginning of a text is the rest of it.
pub proof fn lemma_text_behind_its_beginning(p: Seq<char>, rest: Seq<char>, s: Seq<char>)
    ensures
        after_prefix(p + rest, p) == Some(rest),
        after_prefix(s, p) matches Some(r) ==> s == p + r,
{
    lemma_ends_of_a_text(p, rest);
    let whole = p + rest;
    assert(whole.subrange(p.len() as int, whole.len() as int) =~= rest);
    if after_prefix(s, p) is Some {
        assert(s =~= p + s.subrange(p.len() as int, s.len() as int));
    }
}

/// A row of telemetry tells each thing under its own name.
pub proof fn lemma_row_is_told(e: TelemetryModel)
    ensures
        ({
            let v = event_json(e);
            &&& object_holds(v, "timestamp_ms"@, JsonModel::Unsigned(e.timestamp_ms))
            &&& object_holds(v, "scope_id"@, JsonModel::Text(e.scope_id))
            &&& e.account_id matches Some(a) ==> object_holds(v, "account_id"@, JsonModel::Text(a))
            &&& e.account_id is None ==> object_lacks(v, "account_id"@)
            &&& object_holds(v, "generation"@, JsonModel::Unsigned(e.generation))
            &&& object_holds(v, "driver"@, JsonModel::Text(driver_key(e.driver)))
            &&& object_holds(v, "model_hint"@, JsonModel::Text(hint_name(e.model_hint)))
            &&& object_holds(v, "event_type"@, JsonModel::Text(event_name(e.event_type)))
            &&& e.reset_after_seconds matches Some(n) ==> object_holds(
                v,
                "reset_after_seconds"@,
                JsonModel::Unsigned(n),
            )
            &&& e.reset_after_seconds is None ==> object_holds(
                v,
                "reset_after_seconds"@,
                JsonModel::Null,
            )
        }),
{
    reveal_strlit("timestamp_ms");
    reveal_strlit("scope_id");
    reveal_strlit("account_id");
    reveal_strlit("generation");
    reveal_strlit("driver");
    reveal_strlit("model_hint");
    reveal_strlit("event_type");
    reveal_strlit("reset_after_seconds");
    reveal_strlit("error_code");
    assert("timestamp_ms"@.len() == 12);
    assert("scope_id"@.len() == 8);
    assert("account_id"@.len() == 10);
    assert("generation"@.len() == 10);
    assert("driver"@.len() == 6);
    assert("model_hint"@.len() == 10);
    assert("event_type"@.len() == 10);
    assert("reset_after_seconds"@.len() == 19);
    assert("error_code"@.len() == 10);
    assert("account_id"@[0] != "generation"@[0]);
    assert("account_id"@[0] != "model_hint"@[0]);
    assert("account_id"@[0] != "event_type"@[0]);
    assert("account_id"@[0] != "error_code"@[0]);
    assert("generation"@[0] != "model_hint"@[0]);
    assert("generation"@[0] != "event_type"@[0]);
    assert("generation"@[0] != "error_code"@[0]);
    assert("model_hint"@[0] != "event_type"@[0]);
    assert("model_hint"@[0] != "error_code"@[0]);
    assert("event_type"@[1] != "error_code"@[1]);
    let fields = event_json(e)->Object_0;
    let k: int = if e.account_id is Some {
        1
    } else {
        0
    };
    assert(fields[0].0 == "timestamp_ms"@);
    assert(fields[1].0 == "scope_id"@);
    if e.account_id is Some {
        assert(fields[2].0 == "account_id"@);
        lemma_first_field_is_held(fields, 2, "account_id"@, JsonModel::Text(e.account_id->0));
    }
    assert(fields[2 + k].0 == "generation"@);
    assert(fields[3 + k].0 == "driver"@);
    assert(fields[4 + k].0 == "model_hint"@);
    assert(fields[5 + k].0 == "event_type"@);
    assert(fields[6 + k].0 == "reset_after_seconds"@);
    assert(fields[7 + k].0 == "error_code"@);
    assert(fields.len() == 8 + k);
    lemma_first_field_is_held(fields, 0, "timestamp_ms"@, JsonModel::Unsigned(e.timestamp_ms));
    lemma_first_field_is_held(fields, 1, "scope_id"@, JsonModel::Text(e.scope_id));
    lemma_first_field_is_held(fields, 2 + k, "generation"@, JsonModel::Unsigned(e.generation));
    lemma_first_field_is_held(fields, 3 + k, "driver"@, JsonModel::Text(driver_key(e.driver)));
    lemma_first_field_is_held(fields, 4 + k, "model_hint"@, JsonModel::Text(hint_name(e.model_hint)));
    lemma_first_field_is_held(fields, 5 + k, "event_type"@, JsonModel::Text(event_name(e.event_type)));
    lemma_first_field_is_held(fields, 6 + k, "reset_after_seconds"@, fields[6 + k].1);
}

/// The page that a driver is told to close is the one that is meant, in the words of that driver.
pub proof fn lemma_drivers_close_pages(worktree: Seq<char>, page: Seq<char>)
    ensures
        close_args(BrowserDriverKind::Orca, worktree, page) == seq![
            "tab"@,
            "close"@,
            "--page"@,
            page,
            "--json"@,
        ],
        close_args(BrowserDriverKind::AgentBrowser, worktree, page) == seq![
            "--session"@,
            page,
            "close"@,
            "--json"@,
        ],
        close_args(BrowserDriverKind::Maho, worktree, page) == seq!["tab"@, "close"@, page, "--json"@],
{
}

/// Work is claimed where nobody has it at hand: where there is no claim, or where none of the scopes of
/// the claim is active. A claim that stands is told and stays as it is.
pub proof fn lemma_work_is_claimed_once(
    before: FreshDispatchClaims,
    after: FreshDispatchClaims,
    key: Seq<char>,
    now_ms: u64,
    active: Result<bool, BridgeError>,
    r: Result<FreshDispatchDecision, BridgeError>,
)
    requires
        claim_outcome(before, after, key, now_ms, active, r),
        key_fault(key) is None,
        before.existing(key) is Ok,
    ensures
        ({
            let held = before.existing(key)->Ok_0;
            let taken = r is Ok && r->Ok_0 is Acquired;
            let told = r is Ok && r->Ok_0 is Duplicate;
            &&& held is None ==> taken || told
            &&& held is None ==> !told
            &&& held is Some && active == Ok::<bool, BridgeError>(true) ==> told && r->Ok_0->Duplicate_0@
                == held->0
            &&& held is Some && active == Ok::<bool, BridgeError>(false) ==> taken
            &&& held is Some && active is Err ==> r is Err
            &&& taken ==> r->Ok_0->Acquired_0.claim@.dispatch_key == key
                && r->Ok_0->Acquired_0.claim@.created_ms == now_ms
                && r->Ok_0->Acquired_0.claim@.scope_ids.len() == 0
            &&& !taken ==> after == before
        }),
{
}

/// A router that was never used starts at the first account.
pub proof fn lemma_unused_router_starts_at_the_first(store: AccountStateStore)
    ensures
        store.router is None ==> store.loaded_router().round_robin_cursor == 0
            && store.loaded_router().updated_ms == 0 && store.loaded_router().version
            == ROUTER_STATE_VERSION,
        store.router matches Some(s) ==> store.loaded_router() == s,
{
}

/// What keeps work from being ready is told in lines, or else that it is not ready.
pub proof fn lemma_blockers_are_told(v: Seq<JsonModel>)
    ensures
        joined(text_lines(v), "\n"@).len() > 0 ==> blocker_lines(JsonModel::Array(v)) == joined(
            text_lines(v),
            "\n"@,
        ),
        joined(text_lines(v), "\n"@).len() == 0 ==> blocker_lines(JsonModel::Array(v)) == NOT_READY@,
        blocker_lines(JsonModel::Null) == NOT_READY@,
{
}

/// An account of the old kind whose scope cannot be read keeps several accounts from being used.
pub proof fn lemma_unreadable_old_scope_is_told(
    mux: WorkspaceMux,
    seen: Seq<Slot<LifecycleSeen>>,
    scopes: Seq<ScopeModel>,
    s: ScopeModel,
)
    requires
        blockers(mux, seen, scopes) is Ok,
    ensures
        (s.account() == LEGACY_ACCOUNT_ID@ && mux.found(s.scope_id) is Err) ==> blockers(
            mux,
            seen,
            scopes.push(s),
        ) is Err,
        (s.account() != LEGACY_ACCOUNT_ID@ || mux.found(s.scope_id) is Ok) ==> blockers(
            mux,
            seen,
            scopes.push(s),
        ) is Ok,
{
    assert(scopes.push(s).drop_last() =~= scopes);
}

/// The limits that several accounts start with are told under their names.
pub proof fn lemma_usual_limits_are_told()
    ensures
        ({
            let v = usual_defaults_json();
            &&& v.field2("limits"@, "window_seconds"@) == Some(JsonModel::Unsigned(3600))
            &&& v.field2("limits"@, "max_dispatches"@) == Some(JsonModel::Unsigned(12))
            &&& v.field2("limits"@, "max_active_workers"@) == Some(JsonModel::Unsigned(3))
            &&& v.field2("cooldown"@, "unknown_rate_limit_seconds"@) == Some(JsonModel::Unsigned(900))
            &&& v.field2("cooldown"@, "delivery_failure_seconds"@) == Some(JsonModel::Unsigned(30))
        }),
{
    reveal_strlit("limits");
    reveal_strlit("cooldown");
    assert("limits"@.len() == 6);
    assert("cooldown"@.len() == 8);
    reveal_strlit("window_seconds");
    reveal_strlit("max_dispatches");
    reveal_strlit("max_active_workers");
    assert("window_seconds"@.len() == 14);
    assert("max_dispatches"@.len() == 14);
    assert("max_active_workers"@.len() == 18);
    assert("window_seconds"@[0] != "max_dispatches"@[0]);
    reveal_strlit("unknown_rate_limit_seconds");
    reveal_strlit("delivery_failure_seconds");
    assert("unknown_rate_limit_seconds"@.len() == 26);
    assert("delivery_failure_seconds"@.len() == 24);
    let fields = usual_defaults_json()->Object_0;
    assert(fields[0].0 == "limits"@);
    lemma_first_field_is_held(fields, 0, "limits"@, fields[0].1);
    lemma_first_field_is_held(fields, 1, "cooldown"@, fields[1].1);
    let a = fields[0].1->Object_0;
    let b = fields[1].1->Object_0;
    assert(a[0].0 == "window_seconds"@);
    assert(a[1].0 == "max_dispatches"@);
    lemma_first_field_is_held(a, 0, "window_seconds"@, JsonModel::Unsigned(3600));
    lemma_first_field_is_held(a, 1, "max_dispatches"@, JsonModel::Unsigned(12));
    lemma_first_field_is_held(a, 2, "max_active_workers"@, JsonModel::Unsigned(3));
    assert(b[0].0 == "unknown_rate_limit_seconds"@);
    lemma_first_field_is_held(b, 0, "unknown_rate_limit_seconds"@, JsonModel::Unsigned(900));
    lemma_first_field_is_held(b, 1, "delivery_failure_seconds"@, JsonModel::Unsigned(30));
}

} // verus!
