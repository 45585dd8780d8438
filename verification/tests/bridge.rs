use gpt2omo::account_state::AccountStateStore;
use gpt2omo::accounts::{
    AccountDefaults, AccountLimits, AccountsFile, BrowserInstanceConfig, CooldownConfig,
    LegacyAccountConfig, PartialAccountLimits, ProfileFacts, RawAccountConfig, RoutingConfig,
    RoutingStrategy, LEGACY_ACCOUNT_ID,
};
use gpt2omo::browser_pool::{BrowserHealth, BrowserLoginState, BrowserPool, BrowserReachability};
use gpt2omo::events::{event_scope_id, load_pending_events, EventBus, HarnessEvent};
use gpt2omo::fresh_dispatch::{FreshDispatchClaims, FreshDispatchDecision};
use gpt2omo::json::{Json, JsonField};
use gpt2omo::mass_ulw_web::{
    workspace_display, DelegateWebConfig, DelegateWebDelegationResult, DelegateWebResult,
    MassUlwWebError, WebTask,
};
use gpt2omo::onboarding::{
    activate_pending_accounts_config, activated_result, activation_blocking_scope_ids,
    legacy_scope_blockers, load_pending_accounts_config, login_wait, pending_accounts_path,
    prepare_pending_accounts_config, prepare_result, ready_for_activation, status_result,
    wait_durations, LegacyScopeBlocker, LegacyScopeBlockerKind, LoginWait, PendingConfig,
    PreparedAccount,
};
use gpt2omo::orca::{BrowserDriverConfig, BrowserDriverKind, MAX_RESET_AFTER_SECONDS};
use gpt2omo::relay::parse_continuation;
use gpt2omo::security::workspace::{BrowserBinding, PathState, WorkspaceMux};
use gpt2omo::server::calls::{dispatch_tool, patched_data, ToolRequest};
use gpt2omo::server::notices::{call_command, publish_specialized_events, specialized_notices};
use gpt2omo::server::protocol::{
    call_response, error_body, finished_data, fresh_call_id, healthz, initialize_result,
    lagged_data, mcp_step, route_call, started_data, tool_event_metadata, verify_auth, CallRoute,
    JsonRpcRequest, RpcStep, ToolCall, ToolCallResult,
};
use gpt2omo::server::tools::tool_definitions;
use gpt2omo::shelf::Slot;
use gpt2omo::task_state::{DelegationLifecycle, DelegationTerminalState, LifecycleSeen};
use gpt2omo::telemetry::{
    active_rate_limit_lockout, append_row, read_recent_events,
    read_recent_rows, recent_dispatches_in_window, telemetry_candidate_paths, ReverseLines,
    TelemetryErrorCode, TelemetryEvent, TelemetryEventInput, TelemetryEventType,
    TelemetryModelHint, TELEMETRY_MAX_BYTES,
};
use serde_json::Value;

const BRIDGE: &str = "/root-dir/bridge";
const MOUNT: &str = "/root-dir/mount";

fn json_of(v: &Value) -> Json {
    match v {
        Value::Null => Json::Null,
        Value::Bool(b) => Json::Bool(*b),
        Value::Number(n) => match (n.as_u64(), n.as_i64()) {
            (Some(u), _) => Json::Unsigned(u),
            (None, Some(i)) => Json::Negative(i),
            _ => Json::Decimal(n.to_string()),
        },
        Value::String(s) => Json::Text(s.clone()),
        Value::Array(a) => Json::Array(a.iter().map(json_of).collect()),
        Value::Object(o) => Json::Object(
            o.iter()
                .map(|(k, v)| JsonField { key: k.clone(), value: json_of(v) })
                .collect(),
        ),
    }
}

fn json(text: &str) -> Json {
    json_of(&serde_json::from_str(text).unwrap())
}

fn value_of(j: &Json) -> Value {
    match j {
        Json::Null => Value::Null,
        Json::Bool(b) => Value::Bool(*b),
        Json::Unsigned(u) => Value::from(*u),
        Json::Negative(i) => Value::from(*i),
        Json::Decimal(s) => serde_json::from_str(s).unwrap(),
        Json::Text(s) => Value::from(s.as_str()),
        Json::Array(a) => Value::Array(a.iter().map(value_of).collect()),
        Json::Object(o) => {
            Value::Object(o.iter().map(|f| (f.key.clone(), value_of(&f.value))).collect())
        }
    }
}

fn number(v: Option<&Value>, other: u64) -> u64 {
    v.and_then(Value::as_u64).unwrap_or(other)
}

fn text(v: Option<&Value>) -> Option<String> {
    v.and_then(Value::as_str).map(str::to_string)
}

fn limits_of(v: Option<&Value>) -> AccountLimits {
    let d = AccountLimits::default();
    match v {
        None => d,
        Some(v) => AccountLimits {
            window_seconds: number(v.get("window_seconds"), d.window_seconds),
            max_dispatches: number(v.get("max_dispatches"), d.max_dispatches as u64) as usize,
            max_active_workers: number(v.get("max_active_workers"), d.max_active_workers as u64)
                as usize,
        },
    }
}

fn accounts_file(content: &str) -> AccountsFile {
    let v: Value = serde_json::from_str(content).unwrap();
    let routing = match v.get("routing") {
        None => RoutingConfig::default(),
        Some(r) => {
            let d = RoutingConfig::default();
            RoutingConfig {
                strategy: match r.get("strategy").and_then(Value::as_str) {
                    Some("least_loaded") => RoutingStrategy::LeastLoaded,
                    _ => RoutingStrategy::RoundRobin,
                },
                reservation_ttl_seconds: number(
                    r.get("reservation_ttl_seconds"),
                    d.reservation_ttl_seconds,
                ),
                selection_failure_backoff_seconds: number(
                    r.get("selection_failure_backoff_seconds"),
                    d.selection_failure_backoff_seconds,
                ),
            }
        }
    };
    let defaults = v.get("defaults");
    let c = CooldownConfig::default();
    let cooldown = match defaults.and_then(|d| d.get("cooldown")) {
        None => c,
        Some(x) => CooldownConfig {
            unknown_rate_limit_seconds: number(
                x.get("unknown_rate_limit_seconds"),
                c.unknown_rate_limit_seconds,
            ),
            delivery_failure_seconds: number(
                x.get("delivery_failure_seconds"),
                c.delivery_failure_seconds,
            ),
        },
    };
    let accounts = v["accounts"]
        .as_array()
        .unwrap()
        .iter()
        .map(|a| RawAccountConfig {
            id: text(a.get("id")).unwrap(),
            enabled: a.get("enabled").and_then(Value::as_bool).unwrap_or(true),
            draining: a.get("draining").and_then(Value::as_bool).unwrap_or(false),
            limits: match a.get("limits") {
                None => PartialAccountLimits::default(),
                Some(l) => PartialAccountLimits {
                    window_seconds: l.get("window_seconds").and_then(Value::as_u64),
                    max_dispatches: l
                        .get("max_dispatches")
                        .and_then(Value::as_u64)
                        .map(|n| n as usize),
                    max_active_workers: l
                        .get("max_active_workers")
                        .and_then(Value::as_u64)
                        .map(|n| n as usize),
                },
            },
            browser: BrowserInstanceConfig {
                driver: text(a["browser"].get("driver"))
                    .map(|d| BrowserDriverKind::from_name(&d).unwrap()),
                instance: text(a["browser"].get("instance")).unwrap(),
                user_data_dir: text(a["browser"].get("user_data_dir")),
                cdp_endpoint: text(a["browser"].get("cdp_endpoint")),
                worktree: text(a["browser"].get("worktree")).unwrap_or("active".to_string()),
            },
        })
        .collect();
    AccountsFile {
        version: v["version"].as_u64().unwrap() as u32,
        routing,
        defaults: AccountDefaults { limits: limits_of(defaults.and_then(|d| d.get("limits"))), cooldown },
        accounts,
    }
}

/// What a file system without links says of the profiles.
fn facts_of(file: &AccountsFile, bridge: &str, mount: &str) -> Vec<ProfileFacts> {
    file.accounts
        .iter()
        .map(|a| ProfileFacts {
            bridge_real: Ok(bridge.to_string()),
            profile_real: Ok(a.browser.user_data_dir.clone().unwrap_or_default()),
            relative_mount: Err("the mount root is absolute".to_string()),
            mount_real: Some(mount.to_string()),
        })
        .collect()
}

const SCOPE: &str = "33333333-3333-4333-8333-333333333333";

fn continuation(scope_id: &str) -> Json {
    json(&format!(
        r#"{{"scope_id":"{scope_id}","prompt":"continue","relay_to_same_chat":true}}"#
    ))
}

#[test]
fn publishes_monotonic_events_to_subscribers() {
    let mut bus = EventBus::new("/tmp/workspace");
    let first = bus.publish("tool_started", json(r#"{"tool":"read_file"}"#), 1);
    let second = bus.publish("tool_finished", json(r#"{"tool":"read_file"}"#), 2);

    assert_eq!(first.seq, 1);
    assert_eq!(second.seq, 2);
    assert_eq!(bus.latest_seq(), 2);
    assert_eq!(first.kind, "tool_started");
    assert_eq!(second.kind, "tool_finished");
}

#[test]
fn connection_event_does_not_advance_sequence() {
    let bus = EventBus::new("workspace");
    let hello = bus.connection_event(1);
    assert_eq!(hello.seq, 0);
    assert_eq!(hello.kind, "connected");
    assert_eq!(bus.latest_seq(), 0);
}

#[test]
fn pending_continuation_is_replayed_to_reconnected_subscriber_and_cleared_on_ready() {
    let mut bus = EventBus::new_persistent("workspace", vec![]);
    let event = bus.publish("continuation_required", continuation(SCOPE), 1);
    assert_eq!(load_pending_events(bus.pending.as_ref().unwrap(), "workspace").len(), 1);

    let replayed = bus.pending_events();
    assert_eq!(replayed.len(), 1);
    assert_eq!(replayed[0].seq, event.seq);
    assert_eq!(replayed[0].kind, "continuation_required");

    bus.publish("completion", json(&format!(r#"{{"scope_id":"{SCOPE}","ready":true}}"#)), 2);
    assert!(load_pending_events(bus.pending.as_ref().unwrap(), "workspace").is_empty());
}

#[test]
fn an_order_replaces_the_former_of_its_scope() {
    let mut bus = EventBus::new_persistent("workspace", vec![]);
    bus.publish("continuation_required", continuation(SCOPE), 1);
    let second = bus.publish("continuation_required", continuation(SCOPE), 2);
    let replayed = bus.pending_events();
    assert_eq!(replayed.len(), 1);
    assert_eq!(replayed[0].seq, second.seq);
    assert_eq!(bus.pending.as_ref().unwrap().len(), 1);
}

#[test]
fn an_unready_completion_keeps_the_continuation() {
    let mut bus = EventBus::new_persistent("workspace", vec![]);
    bus.publish("continuation_required", continuation(SCOPE), 1);
    bus.publish("completion", json(&format!(r#"{{"scope_id":"{SCOPE}","ready":false}}"#)), 2);
    assert_eq!(bus.pending_events().len(), 1);
}

#[test]
fn pending_events_from_other_workspaces_are_not_replayed() {
    let mut other = EventBus::new_persistent("other-workspace", vec![]);
    other.publish("continuation_required", continuation(SCOPE), 1);
    let files = other.pending.unwrap();

    let bus = EventBus::new_persistent("workspace", files);
    assert_eq!(load_pending_events(bus.pending.as_ref().unwrap(), "other-workspace").len(), 1);
    assert!(load_pending_events(bus.pending.as_ref().unwrap(), "workspace").is_empty());
    assert!(bus.pending_events().is_empty());
}

#[test]
fn persistent_bus_advances_sequence_past_replayed_events_after_restart() {
    let mut first = EventBus::new_persistent("workspace", vec![]);
    let pending = first.publish("continuation_required", continuation(SCOPE), 1);
    let mut restarted = EventBus::new_persistent("workspace", first.pending.unwrap());
    let next = restarted.publish("tool_started", json("{}"), 2);
    assert!(next.seq > pending.seq);
}

#[test]
fn events_are_values() {
    let mut bus = EventBus::new("workspace");
    let event: HarnessEvent = bus.publish("lagged", lagged_data(3), 7);
    let value = value_of(&event.to_json());
    assert_eq!(value["seq"], 1);
    assert_eq!(value["kind"], "lagged");
    assert_eq!(value["timestamp_ms"], 7);
    assert_eq!(event_scope_id(&event), None);
    let named = bus.publish("x", continuation(SCOPE), 8);
    assert_eq!(event_scope_id(&named).as_deref(), Some(SCOPE));
}

fn claim(claims: &mut FreshDispatchClaims, key: &str, now_ms: u64) -> FreshDispatchDecision {
    let live = claims.load_claim(key).unwrap().is_some_and(|c| !c.scope_ids.is_empty());
    claims.claim(key, now_ms, Ok(live)).unwrap()
}

#[test]
fn concurrent_identical_claim_has_one_owner() {
    let mut claims = FreshDispatchClaims::new(BRIDGE);
    let key = "a".repeat(64);
    let mut acquired = 0;
    for (scope, now) in [
        ("11111111-1111-4111-8111-111111111111", 1),
        ("22222222-2222-4222-8222-222222222222", 3),
    ] {
        match claim(&mut claims, &key, now) {
            FreshDispatchDecision::Acquired(mut guard) => {
                guard.register_scope(&mut claims, scope, now + 1).unwrap();
                acquired += 1;
            }
            FreshDispatchDecision::Duplicate(claim) => assert_eq!(claim.scope_ids.len(), 1),
        }
    }
    assert_eq!(acquired, 1);
}

#[test]
fn inactive_claim_is_replaced_for_intentional_fresh_work() {
    let mut claims = FreshDispatchClaims::new(BRIDGE);
    let key = "b".repeat(64);
    let mut guard = match claims.claim(&key, 1, Ok(false)).unwrap() {
        FreshDispatchDecision::Acquired(guard) => guard,
        FreshDispatchDecision::Duplicate(_) => panic!("first claim was duplicate"),
    };
    guard
        .register_scope(&mut claims, "22222222-2222-4222-8222-222222222222", 2)
        .unwrap();
    match claims.claim(&key, 3, Ok(false)).unwrap() {
        FreshDispatchDecision::Acquired(_) => {}
        FreshDispatchDecision::Duplicate(_) => panic!("inactive claim blocked fresh work"),
    }
}

#[test]
fn active_claim_is_not_replaced_by_task_rewording_attempt() {
    let mut claims = FreshDispatchClaims::new(BRIDGE);
    let key = "c".repeat(64);
    let mut guard = match claims.claim(&key, 1, Ok(false)).unwrap() {
        FreshDispatchDecision::Acquired(guard) => guard,
        FreshDispatchDecision::Duplicate(_) => panic!("first claim was duplicate"),
    };
    guard
        .register_scope(&mut claims, "33333333-3333-4333-8333-333333333333", 2)
        .unwrap();
    let claim = match claim(&mut claims, &key, 3) {
        FreshDispatchDecision::Duplicate(claim) => claim,
        FreshDispatchDecision::Acquired(_) => panic!("active claim was replaced"),
    };
    assert_eq!(claim.scope_ids, vec!["33333333-3333-4333-8333-333333333333"]);
    assert!(claims.claim("../escape", 1, Ok(false)).is_err());
}

fn mux() -> WorkspaceMux {
    WorkspaceMux::new(
        &PathState::Directory(MOUNT.to_string()),
        &Ok("/root-dir/scopes".to_string()),
        None,
        BRIDGE,
    )
    .unwrap()
}

fn facts(ids: &[String]) -> Vec<ProfileFacts> {
    ids.iter()
        .map(|id| ProfileFacts {
            bridge_real: Ok(BRIDGE.to_string()),
            profile_real: Ok(format!("{BRIDGE}/browser-profiles/{id}")),
            relative_mount: Err("the mount root is absolute".to_string()),
            mount_real: Some(MOUNT.to_string()),
        })
        .collect()
}

fn prepare(ids: &[&str]) -> PendingConfig {
    let ids: Vec<String> = ids.iter().map(|id| id.to_string()).collect();
    prepare_pending_accounts_config(
        BRIDGE, MOUNT, &ids, 9223, "active", false, false, false, &facts(&ids),
    )
    .unwrap()
}

#[test]
fn prepare_creates_valid_pending_config_without_live_routing() {
    let config = prepare(&["primary", "secondary"]).config;
    assert_eq!(config.accounts.len(), 2);
    assert!(config.accounts.iter().all(|account| account.browser.driver.is_none()));
    assert_eq!(pending_accounts_path(BRIDGE), "/root-dir/bridge/accounts.pending.json");
    assert_eq!(
        config.accounts[0].browser.cdp_endpoint.as_deref(),
        Some("http://127.0.0.1:9223")
    );
    assert_eq!(
        config.accounts[1].browser.cdp_endpoint.as_deref(),
        Some("http://127.0.0.1:9224")
    );
    let ids = vec!["primary".to_string()];
    for (live, pending) in [(true, false), (false, true)] {
        assert!(prepare_pending_accounts_config(
            BRIDGE, MOUNT, &ids, 9223, "active", false, live, pending, &facts(&ids),
        )
        .is_err());
    }
}

fn ready_health(instance: &str) -> Vec<BrowserHealth> {
    vec![BrowserHealth {
        account_id: "primary".into(),
        instance: instance.into(),
        driver: None,
        reachability: BrowserReachability::Reachable,
        login_state: BrowserLoginState::Ready,
        login_required: false,
        detail: None,
    }]
}

fn activate(
    mux: &WorkspaceMux,
    seen: &Vec<Slot<LifecycleSeen>>,
    health: &Vec<BrowserHealth>,
) -> Result<gpt2omo::accounts::AccountsConfig, gpt2omo::error::BridgeError> {
    let content = value_of(&prepare(&["primary"]).content).to_string();
    let file = accounts_file(&content);
    activate_pending_accounts_config(
        Some(&file),
        BRIDGE,
        MOUNT,
        &facts(&["primary".to_string()]),
        LegacyAccountConfig::default(),
        mux,
        seen,
        &AccountStateStore::new(BRIDGE),
        health,
        false,
    )
}

fn legacy_scope(mux: &mut WorkspaceMux) -> String {
    mux.register_browser_binding(
        PathState::Directory(format!("{MOUNT}/project")),
        BrowserBinding::new(LEGACY_ACCOUNT_ID, BrowserDriverKind::Orca, "legacy", "page-1"),
        1,
    )
    .unwrap()
    .scope_id
}

fn record(scope_id: &str, ended: bool, retained: bool) -> Vec<Slot<LifecycleSeen>> {
    vec![Slot {
        name: scope_id.to_string(),
        value: LifecycleSeen::Found(DelegationLifecycle {
            scope_id: scope_id.to_string(),
            generation: 1,
            generation_started_ms: 1,
            ready_ms: None,
            terminal_state: if ended { Some(DelegationTerminalState::Completed) } else { None },
            terminal_detail: None,
            terminal_ms: None,
            session_retained: retained,
            lease_expires_ms: None,
        }),
    }]
}

#[test]
fn activation_refuses_legacy_scopes_before_replacing_routing() {
    let mut mux = mux();
    let scope = legacy_scope(&mut mux);
    assert!(activate(&mux, &record(&scope, true, true), &ready_health("chatgpt-primary"))
        .unwrap_err()
        .message()
        .contains("legacy scopes remain"));
}

#[test]
fn activation_promotes_ready_pending_config() {
    let config = activate(&mux(), &vec![], &ready_health("chatgpt-primary")).unwrap();
    assert_eq!(config.accounts[0].id, "primary");
    let value = value_of(&activated_result(BRIDGE, &config));
    assert_eq!(value["active_config"], "/root-dir/bridge/accounts.json");
    assert_eq!(value["account_ids"][0], "primary");
}

#[test]
fn activation_rejects_ready_health_for_a_different_browser_instance() {
    assert!(activate(&mux(), &vec![], &ready_health("different-instance"))
        .unwrap_err()
        .message()
        .contains("every pending account is logged in"));
}

#[test]
fn terminal_non_retained_legacy_scope_does_not_block_activation() {
    let mut mux = mux();
    let scope = legacy_scope(&mut mux);
    assert!(legacy_scope_blockers(&mux, &record(&scope, true, false)).unwrap().is_empty());
}

#[test]
fn active_legacy_scope_blocks_activation() {
    let mut mux = mux();
    let scope = legacy_scope(&mut mux);
    assert_eq!(
        legacy_scope_blockers(&mux, &record(&scope, false, false)).unwrap(),
        vec![LegacyScopeBlocker { scope_id: scope, kind: LegacyScopeBlockerKind::Active }]
    );
}

#[test]
fn blocking_scopes_are_named() {
    let mut mux = mux();
    let scope = legacy_scope(&mut mux);
    let going = record(&scope, false, false);
    assert_eq!(activation_blocking_scope_ids(&mux, &going).unwrap(), vec![scope.clone()]);
    let over = record(&scope, true, false);
    assert!(activation_blocking_scope_ids(&mux, &over).unwrap().is_empty());
}

#[test]
fn browser_bound_legacy_scope_without_lifecycle_blocks_activation() {
    let mut mux = mux();
    let scope = legacy_scope(&mut mux);
    let seen = vec![Slot { name: scope.clone(), value: LifecycleSeen::Absent }];
    assert_eq!(
        legacy_scope_blockers(&mux, &seen).unwrap(),
        vec![LegacyScopeBlocker { scope_id: scope, kind: LegacyScopeBlockerKind::Unknown }]
    );
}

#[test]
fn pending_pool_uses_its_staged_configuration() {
    let content = value_of(&prepare(&["primary"]).content).to_string();
    let file = accounts_file(&content);
    let pool = BrowserPool::with_config_path(
        BRIDGE,
        MOUNT,
        LegacyAccountConfig::default(),
        BrowserDriverConfig::with_driver(Some(BrowserDriverKind::Cmux), None, "active", None),
        &pending_accounts_path(BRIDGE),
    );
    assert_eq!(pool.config_path.as_deref(), Some("/root-dir/bridge/accounts.pending.json"));
    let config = pool.load_config(Some(&file), &facts(&["primary".to_string()])).unwrap();
    assert_eq!(config.accounts[0].id, "primary");
    assert!(load_pending_accounts_config(
        None,
        BRIDGE,
        MOUNT,
        &vec![],
        LegacyAccountConfig::default()
    )
    .is_err());
}

#[test]
fn wait_rejects_zero_timeout_or_poll_interval() {
    assert!(wait_durations(0, 1).is_err());
    assert!(wait_durations(1, 0).is_err());
    assert_eq!(wait_durations(5, 2).unwrap(), (5, 2));
    assert_eq!(login_wait(true, 0, 1), LoginWait::Done);
    assert_eq!(login_wait(false, 0, 1), LoginWait::TimedOut);
    assert_eq!(login_wait(false, 500, 2_000), LoginWait::Sleep(500));
    assert_eq!(login_wait(false, 5_000, 2_000), LoginWait::Sleep(2_000));
}

#[test]
fn onboarding_is_told() {
    let health = ready_health("chatgpt-primary");
    assert!(ready_for_activation(&health));
    let value = value_of(&status_result(BRIDGE, &health));
    assert_eq!(value["ready_for_activation"], true);
    assert_eq!(value["accounts"][0]["login_state"], "ready");
    let pages = vec![PreparedAccount {
        account_id: "primary".into(),
        browser_instance: "chatgpt-primary".into(),
        browser_page_id: "p".into(),
    }];
    let value = value_of(&prepare_result(BRIDGE, &pages));
    assert_eq!(value["accounts"][0]["login_url"], "https://chatgpt.com");
    assert_eq!(value["pending_config"], "/root-dir/bridge/accounts.pending.json");
}

#[test]
fn initialize_advertises_single_agent_coding_instructions() {
    let init = value_of(&initialize_result());
    let instructions = init["instructions"].as_str().unwrap();
    assert!(instructions.contains("directly responsible for coding"));
    assert!(instructions.contains("completion_check"));
    assert!(instructions.contains("untrusted advisory"));
    assert!(instructions.contains("at most 15 seconds"));
    assert!(instructions.contains("stale_revision"));
    assert!(instructions.contains("list_commands"));
    assert_eq!(init["serverInfo"]["version"], "0.7.0");
}

fn tools(subagent: bool) -> Vec<Value> {
    tool_definitions(subagent).iter().map(value_of).collect()
}

#[test]
fn tools_list_contains_harness_tools_and_original_tools() {
    let tools = tools(false);
    let names: Vec<&str> = tools.iter().filter_map(|tool| tool["name"].as_str()).collect();
    for required in [
        "read_file",
        "patch_file",
        "list_files",
        "run_command",
        "poll_command",
        "list_commands",
        "cancel_command",
        "git_status_diff",
        "search_text",
        "ast_grep",
        "lsp_diagnostics",
        "lsp_definition",
        "lsp_references",
        "lsp_symbols",
        "task_plan",
        "task_update",
        "task_state",
        "completion_check",
    ] {
        assert!(names.contains(&required), "missing tool: {}", required);
    }
    assert_eq!(names.len(), 18);
    assert!(!names.contains(&"query_subagent"));
}

#[test]
fn command_schemas_expose_async_recovery_contract() {
    let tools = tools(false);
    let run = tools.iter().find(|tool| tool["name"] == "run_command").unwrap();
    assert!(run["inputSchema"]["properties"]["client_request_id"].is_object());
    assert!(run["description"].as_str().unwrap().contains("15 seconds"));
    let poll = tools.iter().find(|tool| tool["name"] == "poll_command").unwrap();
    assert_eq!(poll["inputSchema"]["properties"]["wait_timeout_ms"]["maximum"], 15000);
}

#[test]
fn query_subagent_schema_is_conditional_and_scoped() {
    let tools = tools(true);
    let tool = tools
        .iter()
        .find(|tool| tool["name"] == "query_subagent")
        .expect("query_subagent should be advertised when enabled");
    assert!(tool["inputSchema"]["properties"]["prompt"].is_object());
    assert!(tool["inputSchema"]["properties"]["scope_id"].is_object());
    let required = tool["inputSchema"]["required"].as_array().unwrap();
    assert!(required.iter().any(|value| value == "prompt"));
    assert!(required.iter().any(|value| value == "scope_id"));
}

#[test]
fn patch_event_metadata_does_not_include_file_content() {
    let metadata = value_of(&tool_event_metadata(
        "patch_file",
        &json(r#"{"path":"src/lib.rs","expected_sha256":"abc","content":"super secret source"}"#),
    ));
    let serialized = metadata.to_string();
    assert!(!serialized.contains("super secret source"));
    assert_eq!(metadata["path"], "src/lib.rs");
    assert_eq!(metadata["content_bytes"], 19);
}

#[test]
fn subagent_event_metadata_does_not_include_prompt() {
    let metadata = value_of(&tool_event_metadata(
        "query_subagent",
        &json(r#"{"prompt":"private advisory prompt","timeout_ms":1234}"#),
    ));
    let serialized = metadata.to_string();
    assert!(!serialized.contains("private advisory prompt"));
    assert_eq!(metadata["prompt_bytes"], 23);
    assert_eq!(metadata["timeout_ms"], 1234);
}

#[test]
fn published_continuation_is_an_order_for_the_relay() {
    let mut events = EventBus::new("workspace");
    let result = ToolCallResult::ok(json(r#"{"ready":false,"blockers":["tests are failing"]}"#));
    let published = publish_specialized_events(
        &mut events,
        SCOPE,
        "completion_check",
        &json("{}"),
        &result,
        false,
        1,
    );
    let order = parse_continuation(&published[1].to_json()).unwrap();
    assert_eq!(order.seq, published[1].seq);
    assert_eq!(order.scope_id, SCOPE);
    assert_eq!(order.prompt, value_of(&published[1].data)["prompt"]);
    assert!(parse_continuation(&published[0].to_json()).is_none());
}

#[test]
fn incomplete_completion_publishes_continuation_prompt() {
    let mut events = EventBus::new("workspace");
    let result = ToolCallResult::ok(json(
        r#"{"ready":false,"blockers":["tests are failing","T2 is pending"],"verification_evidence":null,"workspace_revision":3}"#,
    ));
    let published = publish_specialized_events(
        &mut events,
        SCOPE,
        "completion_check",
        &json("{}"),
        &result,
        false,
        1,
    );
    assert_eq!(published.len(), 2);
    assert_eq!(published[0].kind, "completion");
    assert_eq!(published[1].kind, "continuation_required");
    let continuation = value_of(&published[1].data);
    assert_eq!(continuation["relay_to_same_chat"], true);
    assert_eq!(continuation["scope_id"], SCOPE);
    let prompt = continuation["prompt"].as_str().unwrap();
    assert!(prompt.contains("- tests are failing\n- T2 is pending"));
    assert!(prompt.contains("list_commands"));
    assert!(prompt.contains("completion_check returns ready=true"));
}

#[test]
fn verifications_are_made_known() {
    let result = ToolCallResult::ok(json(
        r#"{"command":"cargo test","command_success":true,"elapsed_ms":12,"exit_code":0}"#,
    ));
    let args = json(r#"{"command":"other"}"#);
    assert_eq!(call_command(&args, &result), "cargo test");
    assert_eq!(call_command(&args, &ToolCallResult::err("no")), "other");
    let notices = specialized_notices(SCOPE, "run_command", &args, &result, true);
    assert_eq!(notices.len(), 1);
    let data = value_of(&notices[0].data);
    assert_eq!(data["duration_ms"], 12);
    assert_eq!(data["command_success"], true);
    assert_eq!(data["timed_out"], false);
    assert!(specialized_notices(SCOPE, "run_command", &args, &result, false).is_empty());
    assert!(specialized_notices(SCOPE, "read_file", &args, &result, true).is_empty());
    let done = ToolCallResult::ok(json(r#"{"ready":true}"#));
    assert_eq!(specialized_notices(SCOPE, "completion_check", &args, &done, false).len(), 1);
}

#[test]
fn requests_carry_the_token() {
    let token = Some("secret".to_string());
    assert!(verify_auth(&None, None).is_ok());
    assert!(verify_auth(&token, Some("Bearer secret")).is_ok());
    assert_eq!(
        verify_auth(&token, Some("Bearer other")).unwrap_err().http_reply().0,
        401
    );
    assert!(verify_auth(&token, None).is_err());
    assert_eq!(value_of(&healthz("/m"))["service"], "omo-bridge");
    assert_eq!(value_of(&healthz("/m"))["workspace_mode"], "multiplexed_scopes");
    assert_eq!(value_of(&error_body("no"))["error"], "no");
}

fn request(method: &str, params: &str) -> JsonRpcRequest {
    JsonRpcRequest {
        jsonrpc: "2.0".into(),
        id: Some(Json::Unsigned(9)),
        method: method.into(),
        params: Some(json(params)),
    }
}

#[test]
fn requests_are_answered() {
    match mcp_step(&request("tools/list", "{}"), true) {
        RpcStep::Respond(r) => {
            assert_eq!(r.id, Some(Json::Unsigned(9)));
            assert_eq!(value_of(&r.result.unwrap())["tools"].as_array().unwrap().len(), 19);
        }
        other => panic!("{other:?}"),
    }
    match mcp_step(&request("nonsense", "{}"), false) {
        RpcStep::Respond(r) => assert_eq!(value_of(&r.error.unwrap())["code"], -32601),
        other => panic!("{other:?}"),
    }
    let call = match mcp_step(
        &request(
            "tools/call",
            &format!(r#"{{"name":"read_file","arguments":{{"scope_id":"{SCOPE}","path":"a"}}}}"#),
        ),
        false,
    ) {
        RpcStep::Call(call) => call,
        other => panic!("{other:?}"),
    };
    assert_eq!(call.scope_id, SCOPE);
    assert!(matches!(route_call(&mux(), 10, 20, &call), CallRoute::Refused(_)));
    let unscoped = ToolCall { tool: "read_file".into(), arguments: json("{}"), scope_id: "".into() };
    assert!(matches!(
        route_call(&mux(), 10, 20, &unscoped),
        CallRoute::Refused(e) if e == "scope_id is required for every omo-bridge tool call"
    ));
    let mut mux = mux();
    let scope = legacy_scope(&mut mux);
    let scoped = ToolCall {
        tool: "read_file".into(),
        arguments: json(r#"{"path":"a","max_lines":3}"#),
        scope_id: scope,
    };
    match route_call(&mux, 10, 20, &scoped) {
        CallRoute::Tool(ToolRequest::ReadFile { path, max_lines, max_file_bytes, .. }) => {
            assert_eq!(path, "a");
            assert_eq!(max_lines, Some(3));
            assert_eq!(max_file_bytes, 10);
        }
        other => panic!("{other:?}"),
    }
    let id = fresh_call_id();
    assert_ne!(id, fresh_call_id());
    let started = value_of(&started_data(&id, &scoped));
    assert_eq!(started["tool"], "read_file");
    let finished = value_of(&finished_data(&id, &scoped, &ToolCallResult::err("no"), 7));
    assert_eq!(finished["success"], false);
    let response = call_response(&Some(Json::Unsigned(9)), "text", false);
    assert_eq!(value_of(&response.result.unwrap())["isError"], true);
}

#[test]
fn tool_calls_are_read() {
    match dispatch_tool(10, 20, "run_command", &json(r#"{"command":"ls"}"#)) {
        ToolRequest::RunCommand { command, timeout_ms, .. } => {
            assert_eq!(command, "ls");
            assert_eq!(timeout_ms, 20);
        }
        other => panic!("{other:?}"),
    }
    assert!(matches!(dispatch_tool(10, 20, "no_tool", &json("{}")), ToolRequest::Refused(_)));
    assert!(matches!(dispatch_tool(10, 20, "task_state", &json("{}")), ToolRequest::TaskState));
    let patched = patched_data(Some(json(r#"{"a":1}"#)), 4).unwrap();
    assert_eq!(value_of(&patched)["workspace_revision"], 4);
}

fn telemetry(timestamp_ms: u64, event_type: TelemetryEventType) -> TelemetryEvent {
    TelemetryEvent::new(
        SCOPE,
        1,
        BrowserDriverKind::Orca,
        TelemetryModelHint::Unknown,
        event_type,
        Some(90),
        TelemetryErrorCode::RateLimited,
        timestamp_ms,
    )
    .unwrap()
}

fn event_at(timestamp_ms: u64) -> TelemetryEvent {
    telemetry(timestamp_ms, TelemetryEventType::RateLimited)
}

fn row(event: &TelemetryEvent) -> String {
    value_of(&event.to_json()).to_string()
}

#[test]
fn schema_is_fixed_and_invalid_reset_is_discarded() {
    let event = TelemetryEvent::new(
        SCOPE,
        7,
        BrowserDriverKind::AgentBrowser,
        TelemetryModelHint::Auto,
        TelemetryEventType::ProbeUnknown,
        Some(MAX_RESET_AFTER_SECONDS + 1),
        TelemetryErrorCode::ProbeUnknown,
        5,
    )
    .unwrap();
    let value = value_of(&event.to_json());
    let mut keys: Vec<String> = value.as_object().unwrap().keys().cloned().collect();
    keys.sort();
    let mut expected = vec![
        "timestamp_ms",
        "scope_id",
        "generation",
        "driver",
        "model_hint",
        "event_type",
        "reset_after_seconds",
        "error_code",
    ];
    expected.sort();
    assert_eq!(keys, expected);
    assert!(value["reset_after_seconds"].is_null());
    assert_eq!(value["driver"], "agent_browser");
    assert!(TelemetryEvent::new(
        "not-a-scope",
        1,
        BrowserDriverKind::Orca,
        TelemetryModelHint::Unknown,
        TelemetryEventType::ProbeUnknown,
        None,
        TelemetryErrorCode::ProbeUnknown,
        5,
    )
    .is_none());
}

#[test]
fn account_id_is_optional_but_serialized_when_present() {
    let event = TelemetryEvent::from_input(
        TelemetryEventInput {
            scope_id: SCOPE,
            generation: 2,
            account_id: Some("web-a"),
            driver: BrowserDriverKind::Orca,
            model_hint: TelemetryModelHint::Unknown,
            event_type: TelemetryEventType::Dispatched,
            reset_after_seconds: None,
            error_code: TelemetryErrorCode::Dispatched,
        },
        5,
    )
    .unwrap();
    assert_eq!(value_of(&event.to_json())["account_id"], "web-a");
}

fn parsed(line: &[u8]) -> Option<TelemetryEvent> {
    let value: Value = serde_json::from_slice(line).ok()?;
    TelemetryEvent::from_json(&json_of(&value))
}

#[test]
fn telemetry_rows_are_read_back() {
    for account_id in [None, Some("web-a")] {
        for reset_after_seconds in [None, Some(90)] {
            let event = TelemetryEvent::from_input(
                TelemetryEventInput {
                    scope_id: SCOPE,
                    generation: 3,
                    account_id,
                    driver: BrowserDriverKind::AgentBrowser,
                    model_hint: TelemetryModelHint::Gpt5Family,
                    event_type: TelemetryEventType::ReadinessHandshakeFailed,
                    reset_after_seconds,
                    error_code: TelemetryErrorCode::ReadinessTimeout,
                },
                77,
            )
            .unwrap();
            let read = TelemetryEvent::from_json(&event.to_json()).unwrap();
            assert!(read.same(&event));
        }
    }
    let row = value_of(&event_at(5).to_json());
    for key in ["timestamp_ms", "scope_id", "generation", "driver", "model_hint", "event_type", "error_code"] {
        let mut broken = row.clone();
        broken[key] = Value::Bool(true);
        assert!(TelemetryEvent::from_json(&json_of(&broken)).is_none(), "{key}");
    }
    let mut renamed = row.clone();
    renamed["event_type"] = Value::String("elsewhere".into());
    assert!(TelemetryEvent::from_json(&json_of(&renamed)).is_none());
    let mut longer = row.clone();
    longer["more"] = Value::Null;
    assert!(TelemetryEvent::from_json(&json_of(&longer)).is_some());
}

#[test]
fn reverse_read_returns_recent_events_without_deserializing_older_rows() {
    let content = format!(
        "{}\nnot-json\n{}\n{}\n",
        row(&event_at(1_000)),
        row(&event_at(9_000)),
        row(&event_at(11_000)),
    )
    .into_bytes();
    for chunk in [1, 7, 64, 4096] {
        let mut lines = ReverseLines::new();
        let mut rows = Vec::new();
        let mut position = content.len();
        while position > 0 {
            let from = position.saturating_sub(chunk);
            for line in lines.feed(content[from..position].to_vec()).iter().rev() {
                rows.push(parsed(line));
            }
            position = from;
        }
        rows.push(parsed(&lines.finish()));
        rows.reverse();
        let events = read_recent_rows(&rows, 8_000, 10_000);
        assert_eq!(events.len(), 1);
        assert_eq!(events[0].timestamp_ms, 9_000);
    }
}

#[test]
fn temp_fallback_path_is_per_user() {
    let paths = telemetry_candidate_paths(Some("/home/someone"), "/tmp", Some(1000));
    assert!(paths.last().unwrap().starts_with("/tmp/omo-telemetry-1000/"));
    assert!(paths[0].starts_with("/home/someone/"));
}

#[test]
fn append_enforces_size_cap_and_keeps_newest_event() {
    let oldest = row(&event_at(1_000));
    let filler = row(&event_at(2_000));
    let mut seed = String::with_capacity(TELEMETRY_MAX_BYTES + 8192);
    seed.push_str(&oldest);
    seed.push('\n');
    while seed.len() < TELEMETRY_MAX_BYTES + 4096 {
        seed.push_str(&filler);
        seed.push('\n');
    }
    let newest = row(&event_at(9_999));
    let file = append_row(seed.into_bytes(), &newest.clone().into_bytes());
    assert!(file.len() <= TELEMETRY_MAX_BYTES);

    let content = String::from_utf8(file).unwrap();
    let lines = content.lines().collect::<Vec<_>>();
    assert_eq!(*lines.last().unwrap(), newest);
    assert!(parsed(lines.first().unwrap().as_bytes()).is_some(), "compaction must keep whole lines");
    assert!(!content.contains(&oldest), "oldest events must be discarded first");
}

#[test]
fn limits_and_dispatches_are_read_off_the_log() {
    let files = vec![
        vec![Some(event_at(2_000)), Some(telemetry(3_000, TelemetryEventType::Dispatched))],
        vec![
            Some(telemetry(1_000, TelemetryEventType::Dispatched)),
            None,
            Some(event_at(2_000)),
            Some(telemetry(20_000, TelemetryEventType::Dispatched)),
        ],
    ];
    let events = read_recent_events(&files, 60_000, 12_000);
    assert_eq!(events.len(), 3);
    assert_eq!(recent_dispatches_in_window(&files, 60_000, 12_000), 2);
    assert_eq!(events[0].timestamp_ms, 1_000);
    let lockout = active_rate_limit_lockout(&files, 12_000).unwrap();
    assert_eq!(lockout, (2_000, Some(80)));
    assert_eq!(active_rate_limit_lockout(&files, 1_000_000), None);
}

#[test]
fn events_outside_the_window_are_left_out() {
    let files = vec![vec![
        Some(event_at(1_000)),
        Some(telemetry(2_000, TelemetryEventType::Dispatched)),
        None,
        Some(event_at(3_000)),
        Some(event_at(5_000)),
    ]];
    let times = |window, now| {
        read_recent_events(&files, window, now)
            .iter()
            .map(|event| event.timestamp_ms)
            .collect::<Vec<_>>()
    };
    assert_eq!(times(2_000, 4_000), vec![2_000, 3_000]);
    assert_eq!(times(9_000, 4_000), vec![1_000, 2_000, 3_000]);
    assert_eq!(times(0, 3_000), vec![3_000]);
    assert_eq!(recent_dispatches_in_window(&files, 2_000, 4_000), 1);
    assert_eq!(recent_dispatches_in_window(&files, 1_000, 4_000), 0);
    let old = vec![vec![Some(event_at(1_000))]];
    assert_eq!(active_rate_limit_lockout(&old, 3_602_000), None);
    let long = 50 * 60 * 1_000;
    assert_eq!(active_rate_limit_lockout(&old, long), None);
    assert_eq!(active_rate_limit_lockout(&old, 61_000), Some((1_000, Some(30))));
}

#[test]
fn web_invocations_are_built() {
    let config = DelegateWebConfig::new("/bin/delegate").with_bridge_url("http://b");
    let one = WebTask::new("a", "do it").with_workspace("/w");
    let single = config.single(&one).unwrap();
    assert_eq!(single.argv()[0], "/bin/delegate");
    assert!(single.args.contains(&"--json".to_string()));
    assert_eq!(
        config.single(&WebTask::new("a", " ")).unwrap_err(),
        MassUlwWebError::EmptyTask
    );
    assert_eq!(
        config.single(&WebTask::new(" ", "x")).unwrap_err(),
        MassUlwWebError::EmptyLabel
    );
    let pair = config.parallel_pair(&one, &WebTask::new("b", "and \"that\"")).unwrap();
    let batch: Value = serde_json::from_str(pair.stdin.as_ref().unwrap()).unwrap();
    assert_eq!(batch["tasks"][1]["task"], "and \"that\"");
    assert_eq!(batch["tasks"][0]["workspace"], "/w");
    assert!(matches!(
        config.batch(&vec![]).unwrap_err(),
        MassUlwWebError::InvalidBatchSize { count: 0, .. }
    ));
    assert!(config.resume("s", "go on").unwrap().args.contains(&"--resume-scope".to_string()));
    assert_eq!(config.resume(" ", "go on").unwrap_err(), MassUlwWebError::EmptyScope);
    assert!(config.close_scope("s").unwrap().args.contains(&"--close-scope".to_string()));
    assert!(!MassUlwWebError::EmptyTask.message().is_empty());
}

fn delegation(label: &str, scope: &str, resumable: bool) -> DelegateWebDelegationResult {
    DelegateWebDelegationResult {
        label: Some(label.into()),
        scope_id: scope.into(),
        terminal_state: Some(DelegationTerminalState::Completed),
        terminal_detail: Some("done".into()),
        session_retained: resumable,
        resumable,
    }
}

#[test]
fn web_results_are_handed_on() {
    let result = DelegateWebResult {
        ok: true,
        sent: true,
        ready: true,
        terminal: true,
        delegations: vec![delegation("a", "s1", true), delegation("b", "s2", false)],
    };
    assert_eq!(result.retained_scope_for_label("a").unwrap(), "s1");
    assert_eq!(
        result.retained_scope_for_label("b").unwrap_err(),
        MassUlwWebError::ScopeNotResumable("b".into())
    );
    assert_eq!(
        result.retained_scope_for_label("c").unwrap_err(),
        MassUlwWebError::MissingLabel("c".into())
    );
    assert_eq!(
        result.single_retained_scope().unwrap_err(),
        MassUlwWebError::SingleDelegationExpected(2)
    );
    let handoff = result.fan_in_handoff("a", "merge it", "all green").unwrap();
    assert_eq!(handoff.primary_scope_id, "s1");
    assert!(handoff.resume_prompt.contains("merge it"));
    let invocation = handoff.resume_invocation(&DelegateWebConfig::new("d")).unwrap();
    assert!(invocation.args.contains(&"s1".to_string()));
    let open = DelegateWebResult { terminal: false, ..result };
    assert_eq!(
        open.fan_in_handoff("a", "merge it", "").unwrap_err(),
        MassUlwWebError::ResultNotTerminal
    );
}

#[test]
fn workspaces_are_shown_as_they_are() {
    assert_eq!(workspace_display("/work/one"), "/work/one");
}

#[test]
fn telemetry_is_compacted_only_after_much_was_written() {
    let row = vec![b'x'; 1023];
    let mut file: Vec<u8> = Vec::new();
    for _ in 0..1024 {
        file = append_row(file, &row);
    }
    assert_eq!(file.len(), 1024 * 1024);
    file = append_row(file, &row);
    assert_eq!(file.len(), 511 * 1024);
    let kept = file.clone();
    for _ in 0..512 {
        file = append_row(file, &row);
    }
    assert_eq!(file.len(), kept.len() + 512 * 1024);
    assert!(file.starts_with(&kept));
}
