use gpt2omo::accounts::{
    parse_accounts_config, AccountDefaults, AccountLimits, AccountsConfig, AccountsFile,
    BrowserInstanceConfig, CooldownConfig, LegacyAccountConfig, PartialAccountLimits,
    ProfileFacts, RawAccountConfig, RoutingConfig, RoutingStrategy,
};
use gpt2omo::browser_pool::browser_verify_failure_is_definitive;
use gpt2omo::delegate::claims::{
    claim_fresh_dispatch_domains, fresh_claim_has_active_scope, fresh_dispatch_domain_key,
    FreshDomainClaimDecision,
};
use gpt2omo::delegate::control::{
    bridge_base_url, cleanup_exclusion, legacy_account_config, legacy_browser_config, request_kind,
    runtime_policy, runtime_policy_fits, session_ttl_ms, should_retain_terminal,
    validate_control_mode, validate_parallel_count, DelegateOptions, RequestKind, RuntimePolicy,
    LIFECYCLE_POLL_INTERVAL_MS, MAX_INPUT_BYTES, MAX_NEW_DISPATCH_WORKERS,
    OBSERVE_SCOPE_TIMEOUT_SECS, READINESS_RETRY_AFTER_MS, UI_PROBE_INTERVAL_MS,
};
use gpt2omo::delegate::input::{
    bridge_port, check_input_size, discover_workspace_from, git_root, git_root_in, prepare_resume_task,
    prepare_tasks, validate_bridge_health, BatchTask, NamedPlace, PreparedTask,
};
use gpt2omo::delegate::observe::{
    load_resumable_scope, observe_terminal_scope, report_terminal_scope, ObserveStep,
};
use gpt2omo::delegate::prompts::{
    build_bootstrap_prompt, build_delegation_prompt, extract_clean_task_title, title_can_be_cut,
};
use gpt2omo::delegate::readiness::{
    actual_dispatch_plan, bootstrap_outcome, bootstrap_report, has_fresh_readiness, sent_flags, settle_bootstrap,
    ReadinessAction, ReadinessWatch,
};
use gpt2omo::delegate::report::{
    dispatched_progress, dispatched_progress_event, duplicate_dispatch_value, duplicate_line,
    result_lines, result_value, terminal_progress_event, BatchOutcome, SessionDisposition,
    StagedDelegation, TerminalObservation,
};
use gpt2omo::delegate::resume::{stage_resume_delegation, ResumeSeen, ResumeStep};
use gpt2omo::delegate::sessions::{
    close_line, close_retained_scope, close_terminal_session, keeps_page, page_route,
    retain_terminal_session, scope_route, CloseSeen, CloseStep, PageRoute, RetainSeen, RetainStep,
};
use gpt2omo::delegate::stage::{
    check_claim_count, stage_browser_delegation, stage_dry_run, stagger_before, StageSeen,
    StageStep,
};
use gpt2omo::delegate::terminal::{
    account_is_told, apply_ui_condition, item_event, rate_limit_terminal_detail, settle_claim,
    structured_terminal_detail, unsupported_note, worker_verdict, StructuredTerminalCode,
    TerminalWatch, UiProbeAction, UiVerdict,
};
use gpt2omo::fresh_dispatch::{FreshDispatchClaims, FreshDispatchDecision};
use gpt2omo::json::{Json, JsonField};
use gpt2omo::mass_ulw_web::{DelegateWebResult, MassUlwWebError};
use gpt2omo::orca::{BrowserDriverKind, ChatgptRateLimitReason, ChatgptUiCondition};
use gpt2omo::router::{AccountRouter, LockProbe, WorkerLoad};
use gpt2omo::security::workspace::{
    default_scope_dir, BrowserBinding, PathState, WorkspaceMux, WorkspaceScope,
};
use gpt2omo::shelf::Slot;
use gpt2omo::task_state::{DelegationLifecycle, DelegationTerminalState, LifecycleSeen};
use gpt2omo::workers::{
    count_active_in_flight_workers, count_active_in_flight_workers_by_account, count_live_workers,
    ScopeLook,
};
use serde_json::Value;

const BRIDGE: &str = "/root-dir/bridge";
const MOUNT: &str = "/root-dir/mount";
const SCOPES: &str = "/root-dir/scopes";
const PROJECT: &str = "/root-dir/mount/project";

fn json_of(v: &Value) -> Json {
    match v {
        Value::Null => Json::Null,
        Value::Bool(b) => Json::Bool(*b),
        Value::Number(n) => match (n.as_u64(), n.as_i64()) {
            (Some(u), _) => Json::Unsigned(u),
            (None, Some(i)) => Json::Negative(i),
            _ => Json::Decimal(n.to_string()),
        },
        Value::String(s) => Json::Text(s.clone()),
        Value::Array(a) => Json::Array(a.iter().map(json_of).collect()),
        Value::Object(o) => Json::Object(
            o.iter()
                .map(|(k, v)| JsonField { key: k.clone(), value: json_of(v) })
                .collect(),
        ),
    }
}

fn json(text: &str) -> Json {
    json_of(&serde_json::from_str(text).unwrap())
}

fn value_of(j: &Json) -> Value {
    match j {
        Json::Null => Value::Null,
        Json::Bool(b) => Value::Bool(*b),
        Json::Unsigned(u) => Value::from(*u),
        Json::Negative(i) => Value::from(*i),
        Json::Decimal(s) => serde_json::from_str(s).unwrap(),
        Json::Text(s) => Value::from(s.as_str()),
        Json::Array(a) => Value::Array(a.iter().map(value_of).collect()),
        Json::Object(o) => {
            Value::Object(o.iter().map(|f| (f.key.clone(), value_of(&f.value))).collect())
        }
    }
}

fn number(v: Option<&Value>, other: u64) -> u64 {
    v.and_then(Value::as_u64).unwrap_or(other)
}

fn text(v: Option<&Value>) -> Option<String> {
    v.and_then(Value::as_str).map(str::to_string)
}

fn limits_of(v: Option<&Value>) -> AccountLimits {
    let d = AccountLimits::default();
    match v {
        None => d,
        Some(v) => AccountLimits {
            window_seconds: number(v.get("window_seconds"), d.window_seconds),
            max_dispatches: number(v.get("max_dispatches"), d.max_dispatches as u64) as usize,
            max_active_workers: number(v.get("max_active_workers"), d.max_active_workers as u64)
                as usize,
        },
    }
}

fn accounts_file(content: &str) -> AccountsFile {
    let v: Value = serde_json::from_str(content).unwrap();
    let routing = match v.get("routing") {
        None => RoutingConfig::default(),
        Some(r) => {
            let d = RoutingConfig::default();
            RoutingConfig {
                strategy: match r.get("strategy").and_then(Value::as_str) {
                    Some("least_loaded") => RoutingStrategy::LeastLoaded,
                    _ => RoutingStrategy::RoundRobin,
                },
                reservation_ttl_seconds: number(
                    r.get("reservation_ttl_seconds"),
                    d.reservation_ttl_seconds,
                ),
                selection_failure_backoff_seconds: number(
                    r.get("selection_failure_backoff_seconds"),
                    d.selection_failure_backoff_seconds,
                ),
            }
        }
    };
    let defaults = v.get("defaults");
    let c = CooldownConfig::default();
    let cooldown = match defaults.and_then(|d| d.get("cooldown")) {
        None => c,
        Some(x) => CooldownConfig {
            unknown_rate_limit_seconds: number(
                x.get("unknown_rate_limit_seconds"),
                c.unknown_rate_limit_seconds,
            ),
            delivery_failure_seconds: number(
                x.get("delivery_failure_seconds"),
                c.delivery_failure_seconds,
            ),
        },
    };
    let accounts = v["accounts"]
        .as_array()
        .unwrap()
        .iter()
        .map(|a| RawAccountConfig {
            id: text(a.get("id")).unwrap(),
            enabled: a.get("enabled").and_then(Value::as_bool).unwrap_or(true),
            draining: a.get("draining").and_then(Value::as_bool).unwrap_or(false),
            limits: match a.get("limits") {
                None => PartialAccountLimits::default(),
                Some(l) => PartialAccountLimits {
                    window_seconds: l.get("window_seconds").and_then(Value::as_u64),
                    max_dispatches: l
                        .get("max_dispatches")
                        .and_then(Value::as_u64)
                        .map(|n| n as usize),
                    max_active_workers: l
                        .get("max_active_workers")
                        .and_then(Value::as_u64)
                        .map(|n| n as usize),
                },
            },
            browser: BrowserInstanceConfig {
                driver: text(a["browser"].get("driver"))
                    .map(|d| BrowserDriverKind::from_name(&d).unwrap()),
                instance: text(a["browser"].get("instance")).unwrap(),
                user_data_dir: text(a["browser"].get("user_data_dir")),
                cdp_endpoint: text(a["browser"].get("cdp_endpoint")),
                worktree: text(a["browser"].get("worktree")).unwrap_or("active".to_string()),
            },
        })
        .collect();
    AccountsFile {
        version: v["version"].as_u64().unwrap() as u32,
        routing,
        defaults: AccountDefaults { limits: limits_of(defaults.and_then(|d| d.get("limits"))), cooldown },
        accounts,
    }
}

/// What a file system without links says of the profiles.
fn facts_of(file: &AccountsFile, bridge: &str, mount: &str) -> Vec<ProfileFacts> {
    file.accounts
        .iter()
        .map(|a| ProfileFacts {
            bridge_real: Ok(bridge.to_string()),
            profile_real: Ok(a.browser.user_data_dir.clone().unwrap_or_default()),
            relative_mount: Err("the mount root is absolute".to_string()),
            mount_real: Some(mount.to_string()),
        })
        .collect()
}

fn dir(path: &str) -> PathState {
    PathState::Directory(path.to_string())
}

fn mux() -> WorkspaceMux {
    WorkspaceMux::new(&dir(MOUNT), &Ok(SCOPES.to_string()), None, BRIDGE).unwrap()
}

fn options() -> DelegateOptions {
    DelegateOptions::default()
}

/// The record of a delegation that has just begun.
fn begun(scope_id: &str) -> DelegationLifecycle {
    DelegationLifecycle {
        scope_id: scope_id.to_string(),
        generation: 1,
        generation_started_ms: 1_000,
        ready_ms: None,
        terminal_state: None,
        terminal_detail: None,
        terminal_ms: None,
        session_retained: false,
        lease_expires_ms: None,
    }
}

/// The record of a delegation that has ended.
fn ended(scope_id: &str, state: DelegationTerminalState, detail: &str) -> DelegationLifecycle {
    DelegationLifecycle {
        terminal_state: Some(state),
        terminal_detail: Some(detail.to_string()),
        terminal_ms: Some(2_000),
        ..begun(scope_id)
    }
}

fn ready(scope_id: &str, at_ms: u64) -> DelegationLifecycle {
    DelegationLifecycle { ready_ms: Some(at_ms), ..begun(scope_id) }
}

fn slot(scope_id: &str, value: LifecycleSeen) -> Slot<LifecycleSeen> {
    Slot { name: scope_id.to_string(), value }
}

fn summary(text: &str) -> Json {
    json(&format!(r#"{{"summary":"{text}"}}"#))
}

fn staged_for_scope(
    scope: &WorkspaceScope,
    lifecycle: &DelegationLifecycle,
    resumed: bool,
) -> StagedDelegation {
    StagedDelegation {
        scope_id: scope.scope_id.clone(),
        workspace: scope.workspace.clone(),
        label: None,
        browser_page_id: scope.browser_page_id.clone(),
        browser_binding: gpt2omo::security::workspace::copy_binding(&scope.browser),
        pooled: false,
        account_id: scope.account_id().to_string(),
        browser_instance: scope.browser_instance().map(str::to_string),
        routed: false,
        route_reservation: None,
        generation: lifecycle.generation,
        generation_started_ms: lifecycle.generation_started_ms,
        resumed,
        bootstrap_prompt: Some("bootstrap".into()),
        task_prompt: Some("actual-task".into()),
    }
}

fn prepared(task: &str, label: Option<&str>) -> PreparedTask {
    PreparedTask {
        task: task.to_string(),
        workspace: PROJECT.to_string(),
        label: label.map(str::to_string),
    }
}

#[test]
fn browser_verify_failure_classification_is_conservative() {
    assert!(browser_verify_failure_is_definitive(
        "CDP target 'abc' does not exist on configured browser instance"
    ));
    assert!(browser_verify_failure_is_definitive("browser page is not on https://chatgpt.com"));
    assert!(!browser_verify_failure_is_definitive(
        "timed out waiting for CDP Runtime.evaluate response"
    ));
    assert!(!browser_verify_failure_is_definitive("browser CDP endpoint is unreachable"));
}

#[test]
fn observe_scope_timeout_is_bounded() {
    assert_eq!(OBSERVE_SCOPE_TIMEOUT_SECS, 30 * 60);
}

#[test]
fn flag_free_delegation_uses_browser_auto_detection() {
    let o = DelegateOptions { dry_run: true, task: vec!["smoke".into()], ..options() };
    assert_eq!(o.browser_driver, None);
    assert_eq!(o.orca_bin, "orca");
}

#[test]
fn flag_free_delegation_does_not_pin_orca_binary() {
    let o = DelegateOptions { dry_run: true, task: vec!["smoke".into()], ..options() };
    let browser = legacy_browser_config(&o);
    assert_eq!(browser.driver, None);
    assert_eq!(browser.binary, None);
}

#[test]
fn delegation_allows_explicit_orca_override() {
    let o = DelegateOptions {
        browser_driver: Some(BrowserDriverKind::Orca),
        orca_bin: "orca".into(),
        ..options()
    };
    let browser = legacy_browser_config(&o);
    assert_eq!(browser.driver, Some(BrowserDriverKind::Orca));
    assert_eq!(browser.binary.as_deref(), Some("orca"));
}

#[test]
fn fresh_dispatch_domain_key_survives_rewording_and_preserves_disjoint_labels() {
    let task = |task: &str, label: Option<&str>| PreparedTask {
        task: task.into(),
        workspace: "/workspace".into(),
        label: label.map(str::to_string),
    };
    let scope_dir = "/scopes-18800";
    let original = task("Audit the browser plan", Some("browser-plan"));
    let reworded =
        task("Implement the browser plan with the same ownership", Some("browser-plan"));
    let disjoint = task("Work on the backend", Some("backend"));
    let unlabeled_a = task("First unlabeled task", None);
    let unlabeled_b = task("Second unlabeled task", None);

    assert_eq!(
        fresh_dispatch_domain_key(scope_dir, &original),
        fresh_dispatch_domain_key(scope_dir, &reworded)
    );
    assert_ne!(
        fresh_dispatch_domain_key(scope_dir, &original),
        fresh_dispatch_domain_key(scope_dir, &disjoint)
    );
    assert_eq!(
        fresh_dispatch_domain_key(scope_dir, &unlabeled_a),
        fresh_dispatch_domain_key(scope_dir, &unlabeled_b)
    );
    assert_ne!(
        fresh_dispatch_domain_key(scope_dir, &original),
        fresh_dispatch_domain_key("/scopes-18801", &original)
    );
}

fn acquire(
    claims: &mut FreshDispatchClaims,
    mux: &WorkspaceMux,
    seen: &Vec<Slot<LifecycleSeen>>,
    key: &str,
    now_ms: u64,
) -> FreshDispatchDecision {
    let ids = match claims.load_claim(key).unwrap() {
        Some(claim) => claim.scope_ids,
        None => vec![],
    };
    let active = fresh_claim_has_active_scope(mux, seen, &ids);
    claims.claim(key, now_ms, active).unwrap()
}

#[test]
fn helper_death_live_scope_blocks_reworded_fresh_request_and_reports_exact_lifecycle() {
    let mut mux = mux();
    let mut claims = FreshDispatchClaims::new(BRIDGE);
    let original = prepared("Investigate duplicate fresh tab race", Some("duplicate-root"));
    let retry =
        prepared("Fix the same duplicate race after helper exit", Some("duplicate-root"));
    let key = fresh_dispatch_domain_key(SCOPES, &original);
    let mut guard = match acquire(&mut claims, &mux, &vec![], &key, 1) {
        FreshDispatchDecision::Acquired(guard) => guard,
        FreshDispatchDecision::Duplicate(_) => panic!("first domain claim was duplicate"),
    };
    let scope = mux.register_browser(dir(PROJECT), "surface:143", 1).unwrap();
    let lifecycle = begun(&scope.scope_id);
    guard.register_scope(&mut claims, &scope.scope_id, 2).unwrap();
    let seen = vec![slot(&scope.scope_id, LifecycleSeen::Found(lifecycle.clone()))];

    let retry_key = fresh_dispatch_domain_key(SCOPES, &retry);
    assert_eq!(key, retry_key);
    let duplicate = match acquire(&mut claims, &mux, &seen, &retry_key, 3) {
        FreshDispatchDecision::Duplicate(claim) => claim,
        FreshDispatchDecision::Acquired(_) => panic!("helper-death live scope was duplicated"),
    };
    assert_eq!(duplicate.scope_ids, vec![scope.scope_id.clone()]);
    let value = value_of(&duplicate_dispatch_value(
        SCOPES,
        "http://127.0.0.1:18800",
        &mux,
        &seen,
        &duplicate,
    ));
    assert_eq!(value["terminal"], true);
    assert_eq!(value["duplicate"], true);
    assert_eq!(value["delegations"][0]["scope_id"], scope.scope_id);
    assert_eq!(value["delegations"][0]["browser_page_id"], "surface:143");
    assert_eq!(value["delegations"][0]["generation"], lifecycle.generation);
    assert_eq!(value["delegations"][0]["session_state"], "ACTIVE");
    assert_eq!(
        value["delegations"][0]["lifecycle"]["generation_started_ms"],
        lifecycle.generation_started_ms
    );
    assert!(value["delegations"][0]["lifecycle"]["terminal_state"].is_null());
    assert!(duplicate_line(&duplicate).contains(&scope.scope_id));
}

#[test]
fn claimed_scope_that_was_not_looked_at_counts_as_active() {
    let mut mux = mux();
    let scope = mux.register_browser(dir(PROJECT), "surface:9", 1).unwrap();
    let ids = vec![scope.scope_id.clone()];
    assert!(fresh_claim_has_active_scope(&mux, &vec![], &ids).unwrap());
    assert!(!fresh_claim_has_active_scope(&mux, &vec![], &vec!["gone".to_string()]).unwrap());
    let absent = vec![slot(&scope.scope_id, LifecycleSeen::Absent)];
    assert!(fresh_claim_has_active_scope(&mux, &absent, &ids).unwrap());
}

#[test]
fn concurrent_same_domain_requests_have_one_owner_and_one_duplicate() {
    let mut mux = mux();
    let mut claims = FreshDispatchClaims::new(BRIDGE);
    let task = prepared("Concurrent duplicate domain", Some("shared-domain"));
    let key = fresh_dispatch_domain_key(SCOPES, &task);
    let scope = mux.register_browser(dir(PROJECT), "surface:concurrent", 1).unwrap();
    let seen = vec![slot(&scope.scope_id, LifecycleSeen::Found(begun(&scope.scope_id)))];
    let mut outcomes = Vec::new();
    for now in [1, 2] {
        match acquire(&mut claims, &mux, &seen, &key, now) {
            FreshDispatchDecision::Acquired(mut guard) => {
                guard.register_scope(&mut claims, &scope.scope_id, now).unwrap();
                outcomes.push("owner");
            }
            FreshDispatchDecision::Duplicate(claim) => {
                assert_eq!(claim.scope_ids, vec![scope.scope_id.clone()]);
                outcomes.push("duplicate");
            }
        }
    }
    outcomes.sort_unstable();
    assert_eq!(outcomes, vec!["duplicate", "owner"]);
}

#[test]
fn terminal_retained_scope_permits_intentional_new_fresh_request() {
    let mut mux = mux();
    let mut claims = FreshDispatchClaims::new(BRIDGE);
    let task = prepared("Complete domain work", Some("domain-a"));
    let key = fresh_dispatch_domain_key(SCOPES, &task);
    let mut guard = match acquire(&mut claims, &mux, &vec![], &key, 1) {
        FreshDispatchDecision::Acquired(guard) => guard,
        FreshDispatchDecision::Duplicate(_) => panic!("first domain claim was duplicate"),
    };
    let scope = mux.register_browser(dir(PROJECT), "surface:200", 1).unwrap();
    guard.register_scope(&mut claims, &scope.scope_id, 2).unwrap();
    let retained = DelegationLifecycle {
        session_retained: true,
        lease_expires_ms: Some(62_000),
        ..ended(&scope.scope_id, DelegationTerminalState::Completed, "done")
    };
    let seen = vec![slot(&scope.scope_id, LifecycleSeen::Found(retained))];
    match acquire(&mut claims, &mux, &seen, &key, 3) {
        FreshDispatchDecision::Acquired(_) => {}
        FreshDispatchDecision::Duplicate(_) => {
            panic!("terminal retained work incorrectly blocked intentional fresh request")
        }
    }
    assert_eq!(scope.page_id(), Some("surface:200"));
}

#[test]
fn one_taken_domain_stops_the_whole_request() {
    let mut mux = mux();
    let mut claims = FreshDispatchClaims::new(BRIDGE);
    let tasks = vec![prepared("one", Some("a")), prepared("two", Some("b"))];
    let scope = mux.register_browser(dir(PROJECT), "surface:1", 1).unwrap();
    match claim_fresh_dispatch_domains(&mut claims, &mux, &vec![], SCOPES, &tasks, 1).unwrap() {
        FreshDomainClaimDecision::Acquired(mut guards) => {
            assert_eq!(guards.len(), 2);
            guards[1].register_scope(&mut claims, &scope.scope_id, 2).unwrap();
        }
        FreshDomainClaimDecision::Duplicate(_) => panic!("fresh domains were taken"),
    }
    let seen = vec![slot(&scope.scope_id, LifecycleSeen::Found(begun(&scope.scope_id)))];
    match claim_fresh_dispatch_domains(&mut claims, &mux, &seen, SCOPES, &tasks, 3).unwrap() {
        FreshDomainClaimDecision::Duplicate(claim) => {
            assert_eq!(claim.scope_ids, vec![scope.scope_id.clone()])
        }
        FreshDomainClaimDecision::Acquired(_) => panic!("live work was duplicated"),
    }
}

#[test]
fn default_session_policy_is_idle_retained() {
    let o = options();
    assert!(!o.close_on_terminal);
    assert_eq!(o.session_ttl_minutes, 120);
    assert!(should_retain_terminal(DelegationTerminalState::Completed, o.close_on_terminal));
    assert!(should_retain_terminal(DelegationTerminalState::Blocked, o.close_on_terminal));
    assert!(should_retain_terminal(DelegationTerminalState::Failed, o.close_on_terminal));
    assert!(!should_retain_terminal(DelegationTerminalState::Lost, o.close_on_terminal));
}

#[test]
fn explicit_close_on_terminal_overrides_retention() {
    for state in [
        DelegationTerminalState::Completed,
        DelegationTerminalState::Blocked,
        DelegationTerminalState::Failed,
        DelegationTerminalState::Lost,
    ] {
        assert!(!should_retain_terminal(state, true));
    }
}

fn completed(scope_id: &str) -> LifecycleSeen {
    LifecycleSeen::Found(ended(
        scope_id,
        DelegationTerminalState::Completed,
        "completion_check ready=true",
    ))
}

#[test]
fn report_scope_replays_completed_result_without_resuming_worker() {
    let mut mux = mux();
    let scope = mux.register_browser(dir(PROJECT), "surface:report", 1).unwrap();
    let (item, terminal, session) = report_terminal_scope(
        &mux,
        &scope.scope_id,
        &completed(&scope.scope_id),
        &Ok(Some(summary("Recovered terminal result"))),
    )
    .unwrap();
    assert_eq!(item.scope_id, scope.scope_id);
    assert_eq!(terminal.state, DelegationTerminalState::Completed);
    assert_eq!(
        terminal.task_result.unwrap().text_field("summary").as_deref(),
        Some("Recovered terminal result")
    );
    assert!(!session.retained);
}

#[test]
fn observe_scope_returns_persisted_terminal_result_without_browser_access() {
    let mut mux = mux();
    let scope = mux.register_browser(dir(PROJECT), "surface:observe", 1).unwrap();
    let seen = completed(&scope.scope_id);
    assert!(matches!(
        observe_terminal_scope(&mux, &scope.scope_id, &seen, false),
        ObserveStep::Report
    ));
    let (item, terminal, _) = report_terminal_scope(
        &mux,
        &scope.scope_id,
        &seen,
        &Ok(Some(summary("Observed terminal result"))),
    )
    .unwrap();
    assert_eq!(item.browser_page_id.as_deref(), Some("surface:observe"));
    assert_eq!(terminal.state, DelegationTerminalState::Completed);
    assert_eq!(
        terminal.task_result.unwrap().text_field("summary").as_deref(),
        Some("Observed terminal result")
    );
}

#[test]
fn observing_goes_on_until_the_deadline() {
    let mut mux = mux();
    let scope = mux.register_browser(dir(PROJECT), "surface:observe", 1).unwrap();
    let seen = LifecycleSeen::Found(begun(&scope.scope_id));
    assert!(matches!(
        observe_terminal_scope(&mux, &scope.scope_id, &seen, false),
        ObserveStep::Wait
    ));
    assert!(matches!(
        observe_terminal_scope(&mux, &scope.scope_id, &seen, true),
        ObserveStep::Failed(_)
    ));
}

#[test]
fn report_scope_rejects_nonterminal_worker() {
    let mut mux = mux();
    let scope = mux.register_browser(dir(PROJECT), "surface:active", 1).unwrap();
    let error = match report_terminal_scope(
        &mux,
        &scope.scope_id,
        &LifecycleSeen::Found(begun(&scope.scope_id)),
        &Ok(None),
    ) {
        Ok(_) => panic!("nonterminal worker was reported"),
        Err(error) => error,
    };
    assert!(error.contains("is not terminal"));
}

#[test]
fn report_scope_rejects_terminal_worker_without_result() {
    let mut mux = mux();
    let scope = mux.register_browser(dir(PROJECT), "surface:no-result", 1).unwrap();
    let error = match report_terminal_scope(
        &mux,
        &scope.scope_id,
        &completed(&scope.scope_id),
        &Ok(None),
    ) {
        Ok(_) => panic!("result-less terminal worker was reported"),
        Err(error) => error,
    };
    assert!(error.contains("has no structured task result"));
}

fn plain_staged(scope: &str, label: &str, page: &str) -> StagedDelegation {
    StagedDelegation {
        scope_id: scope.into(),
        workspace: "/workspace".into(),
        label: Some(label.into()),
        browser_page_id: Some(page.into()),
        browser_binding: None,
        pooled: false,
        account_id: "default".into(),
        browser_instance: Some("legacy".into()),
        routed: false,
        route_reservation: None,
        generation: 1,
        generation_started_ms: 1,
        resumed: false,
        bootstrap_prompt: None,
        task_prompt: None,
    }
}

#[test]
fn dispatched_progress_reports_distinct_ready_browser_workers() {
    let staged = vec![
        plain_staged("scope-a", "frontend", "surface:71"),
        plain_staged("scope-b", "backend", "surface:72"),
    ];
    let value = value_of(&dispatched_progress_event("https://bridge.example", &staged).unwrap());
    assert_eq!(value["event"], "dispatched");
    assert_eq!(value["parallel_count"], 2);
    assert_eq!(value["delegations"][0]["scope_id"], "scope-a");
    assert_eq!(value["delegations"][1]["scope_id"], "scope-b");
    assert_eq!(value["delegations"][0]["browser_page_id"], "surface:71");
    assert_eq!(value["delegations"][1]["browser_page_id"], "surface:72");
    assert!(value["delegations"]
        .as_array()
        .unwrap()
        .iter()
        .all(|item| item["ready"] == true && item["actual_task_sent"] == true));
    assert!(dispatched_progress(false, "u", &staged, &vec![true, true]).is_none());
    assert!(dispatched_progress(true, "u", &staged, &vec![true, false]).is_none());
    assert!(dispatched_progress(true, "u", &staged, &vec![true, true]).is_some());
    let end = TerminalObservation {
        state: DelegationTerminalState::Completed,
        detail: None,
        terminal_ms: None,
        task_result: None,
    };
    let told = value_of(&terminal_progress_event("u", 1, &staged[1], &end));
    assert_eq!(told["event"], "terminal");
}

#[test]
fn polling_cadences_are_decoupled() {
    assert_eq!(LIFECYCLE_POLL_INTERVAL_MS, 250);
    assert!(UI_PROBE_INTERVAL_MS >= 1_000);
    assert!(UI_PROBE_INTERVAL_MS <= 2_000);
    assert!(UI_PROBE_INTERVAL_MS > LIFECYCLE_POLL_INTERVAL_MS);
}

#[test]
fn rate_limit_terminal_detail_is_structured_and_contains_no_raw_ui_text() {
    let detail = rate_limit_terminal_detail(ChatgptRateLimitReason::UsageLimit, Some(90));
    let value: Value = serde_json::from_str(&detail).unwrap();
    assert_eq!(value["code"], "CHATGPT_RATE_LIMIT");
    assert_eq!(value["reason"], "usage_limit");
    assert_eq!(value["reset_after_seconds"], 90);
    assert_eq!(value.as_object().unwrap().len(), 3);
    let other: Value =
        serde_json::from_str(&structured_terminal_detail(StructuredTerminalCode::DeliveryError))
            .unwrap();
    assert!(other["code"].is_string());
}

#[test]
fn ttl_validation_is_bounded() {
    assert_eq!(session_ttl_ms(120).unwrap(), 7_200_000);
    assert!(session_ttl_ms(0).is_err());
    assert!(session_ttl_ms(u64::MAX).is_err());
}

#[test]
fn rejects_more_than_max_parallel_tasks() {
    assert!(validate_parallel_count(2, MAX_NEW_DISPATCH_WORKERS).is_ok());
    let error = validate_parallel_count(3, MAX_NEW_DISPATCH_WORKERS).unwrap_err();
    assert!(error.contains("limited to 2 newly spawned workers"));
}

fn looks(mux: &WorkspaceMux, of: &dyn Fn(&str) -> (LifecycleSeen, LockProbe)) -> Vec<ScopeLook> {
    mux.list_scopes()
        .unwrap()
        .iter()
        .map(|s| {
            let (lifecycle, lock) = of(&s.scope_id);
            ScopeLook { lifecycle, lock }
        })
        .collect()
}

#[test]
fn active_in_flight_workers_are_counted_correctly() {
    let mut mux = mux();
    let s1 = mux.register_browser(dir(PROJECT), "page-1", 1).unwrap();
    mux.register_browser(dir(PROJECT), "page-2", 2).unwrap();

    let both = looks(&mux, &|id| (LifecycleSeen::Found(begun(id)), LockProbe::Held));
    assert_eq!(count_active_in_flight_workers(&mux, &both).unwrap(), 2);
    let load = count_active_in_flight_workers_by_account(&mux, &both).unwrap();
    assert_eq!(load.workers(s1.account_id()), 2);
    assert_eq!(load.workers("another"), 0);

    let one_done = |lock: LockProbe| {
        move |id: &str| {
            if id == s1.scope_id {
                let end = ended(id, DelegationTerminalState::Completed, "done");
                (LifecycleSeen::Found(end), LockProbe::Held)
            } else {
                (LifecycleSeen::Found(begun(id)), lock)
            }
        }
    };
    let held = one_done.clone()(LockProbe::Held);
    assert_eq!(count_active_in_flight_workers(&mux, &looks(&mux, &held)).unwrap(), 1);

    // Ghost scope whose owning process died (file lock released) is excluded from active count
    let free = one_done(LockProbe::Free);
    assert_eq!(count_active_in_flight_workers(&mux, &looks(&mux, &free)).unwrap(), 0);
}

#[test]
fn an_unreadable_record_fails_the_strict_count_only() {
    let mut mux = mux();
    mux.register_browser(dir(PROJECT), "page-1", 1).unwrap();
    let seen = looks(&mux, &|_| (LifecycleSeen::Unreadable("torn".into()), LockProbe::Held));
    assert_eq!(count_active_in_flight_workers(&mux, &seen).unwrap(), 0);
    assert_eq!(count_live_workers(&mux, &seen).unwrap_err(), "torn");
    let running = looks(&mux, &|id| (LifecycleSeen::Found(begun(id)), LockProbe::Failed));
    assert_eq!(count_live_workers(&mux, &running).unwrap().workers("default"), 1);
}

#[test]
fn resumed_scope_uses_exact_stored_browser_page_id() {
    let mut mux = mux();
    let scope = mux.register_browser(dir(PROJECT), "retained-browser-page", 1).unwrap();
    let retained = DelegationLifecycle {
        session_retained: true,
        lease_expires_ms: Some(62_000),
        ..ended(&scope.scope_id, DelegationTerminalState::Completed, "done")
    };
    let (loaded, lifecycle) =
        load_resumable_scope(&mux, &scope.scope_id, &LifecycleSeen::Found(retained)).unwrap();
    assert_eq!(loaded.browser_page_id.as_deref(), Some("retained-browser-page"));
    assert!(lifecycle.session_retained);
    assert!(lifecycle.lease_expires_ms.is_some());
}

#[test]
fn readiness_observer_timeout_preserves_browser_bound_nonterminal_scope() {
    let mut mux = mux();
    let scope = mux.register_browser(dir(PROJECT), "surface:timeout-live", 1).unwrap();
    let lifecycle = begun(&scope.scope_id);
    let staged = vec![staged_for_scope(&scope, &lifecycle, false)];
    let seen = vec![LifecycleSeen::Found(lifecycle.clone())];
    let mut watch = ReadinessWatch::new(1, 1_000, 1);
    let mut action = watch.on_lifecycles(&staged, &seen, 1_500, 1_500);
    if let ReadinessAction::Probe(i) = action {
        action = watch.on_probed(i, 1_500, &Ok(UiProbeAction::Disable));
    }
    if let ReadinessAction::Decide = action {
        action = watch.decide(1_500);
    }
    match action {
        ReadinessAction::TimedOut(error, _) => assert!(error.contains("readiness timeout")),
        other => panic!("{other:?}"),
    }
    assert_eq!(lifecycle.terminal_state, None);
    assert_eq!(mux.lookup(&scope.scope_id).unwrap().page_id(), scope.page_id());
}

#[test]
fn all_ready_workers_end_the_wait() {
    let mut mux = mux();
    let scope = mux.register_browser(dir(PROJECT), "surface:ready", 1).unwrap();
    let lifecycle = ready(&scope.scope_id, 1_200);
    let staged = vec![staged_for_scope(&scope, &lifecycle, false)];
    let seen = vec![LifecycleSeen::Found(lifecycle)];
    let mut watch = ReadinessWatch::new(1, 1_000, 180_000);
    match watch.on_lifecycles(&staged, &seen, 1_500, 1_500) {
        ReadinessAction::Probe(0) => {}
        other => panic!("{other:?}"),
    }
    assert!(matches!(
        watch.on_probed(0, 1_500, &Ok(UiProbeAction::Continue)),
        ReadinessAction::Decide
    ));
    assert!(matches!(watch.decide(1_500), ReadinessAction::Ready));
}

#[test]
fn the_readiness_prompt_is_sent_once_more() {
    let mut mux = mux();
    let scope = mux.register_browser(dir(PROJECT), "surface:slow", 1).unwrap();
    let staged = vec![staged_for_scope(&scope, &begun(&scope.scope_id), false)];
    let seen = vec![LifecycleSeen::Found(begun(&scope.scope_id))];
    let mut watch = ReadinessWatch::new(1, 0, 180_000);
    let late = READINESS_RETRY_AFTER_MS + 1;
    let mut action = watch.on_lifecycles(&staged, &seen, late, late);
    if let ReadinessAction::Probe(i) = action {
        action = watch.on_probed(i, late, &Ok(UiProbeAction::Continue));
    }
    if let ReadinessAction::Decide = action {
        action = watch.decide(late);
    }
    match action {
        ReadinessAction::SendBootstraps(which) => assert_eq!(which, vec![0]),
        other => panic!("{other:?}"),
    }
    assert!(matches!(watch.on_retried(&vec![None]), ReadinessAction::Poll));
}

#[test]
fn stale_generation_readiness_means_zero_actual_task_dispatches() {
    let mut mux = mux();
    let scope = mux.register_browser(dir(PROJECT), "page-1", 1).unwrap();
    let staged = vec![staged_for_scope(&scope, &begun(&scope.scope_id), false)];
    let next = DelegationLifecycle {
        generation: 2,
        generation_started_ms: 3_000,
        ready_ms: None,
        ..begun(&scope.scope_id)
    };
    let plan = actual_dispatch_plan(&staged, &vec![LifecycleSeen::Found(next)], 3_100).unwrap();
    assert!(plan.is_empty());
}

#[test]
fn one_unready_worker_means_zero_actual_task_dispatches_for_whole_batch() {
    let mut mux = mux();
    let mut staged = Vec::new();
    let mut seen = Vec::new();
    let mut all = Vec::new();
    for (index, page) in ["page-1", "page-2", "page-3"].iter().enumerate() {
        let scope = mux.register_browser(dir(PROJECT), page, 1).unwrap();
        staged.push(staged_for_scope(&scope, &begun(&scope.scope_id), false));
        seen.push(LifecycleSeen::Found(if index == 1 {
            begun(&scope.scope_id)
        } else {
            ready(&scope.scope_id, 1_100)
        }));
        all.push(LifecycleSeen::Found(ready(&scope.scope_id, 1_100)));
    }
    assert!(actual_dispatch_plan(&staged, &seen, 1_200).unwrap().is_empty());
    let plan = actual_dispatch_plan(&staged, &all, 1_200).unwrap();
    assert_eq!(plan.len(), 3);
    assert_eq!(plan[2].page, "page-3");
    assert_eq!(plan[0].prompt, "actual-task");
    assert_eq!(sent_flags(&vec![Ok(()), Err("gone".into())]), vec![true, false]);
}

#[test]
fn readiness_grows_old() {
    let mut mux = mux();
    let scope = mux.register_browser(dir(PROJECT), "page-1", 1).unwrap();
    let item = staged_for_scope(&scope, &begun(&scope.scope_id), false);
    let record = ready(&scope.scope_id, 1_100);
    assert!(has_fresh_readiness(&item, Some(&record), 1_200));
    assert!(!has_fresh_readiness(&item, Some(&record), 1_000_000));
    assert!(!has_fresh_readiness(&item, None, 1_200));
}

fn watch_ends(
    staged: &Vec<StagedDelegation>,
    seen: &Vec<LifecycleSeen>,
    results: &Vec<Option<Json>>,
) -> (Vec<usize>, Vec<TerminalObservation>) {
    let mut watch = TerminalWatch::new(staged.len(), 2_000);
    watch.on_lifecycles(staged, seen, results, 2_100);
    let told = watch.take_untold();
    assert!(watch.take_untold().is_empty());
    assert!(watch.is_done());
    (told, watch.finish())
}

#[test]
fn completed_terminal_state_is_observed_for_omo_batch_result() {
    let mut mux = mux();
    let scope = mux.register_browser(dir(PROJECT), "page-complete", 1).unwrap();
    let staged = vec![staged_for_scope(&scope, &begun(&scope.scope_id), false)];
    let (_, terminal) = watch_ends(
        &staged,
        &vec![completed(&scope.scope_id)],
        &vec![Some(summary("Completed worker"))],
    );
    assert_eq!(terminal.len(), 1);
    assert_eq!(terminal[0].state, DelegationTerminalState::Completed);
    assert_eq!(
        terminal[0].task_result.as_ref().unwrap().text_field("summary").as_deref(),
        Some("Completed worker")
    );
}

#[test]
fn blocked_terminal_state_is_observed_for_omo_batch_result() {
    let mut mux = mux();
    let scope = mux.register_browser(dir(PROJECT), "page-blocked", 1).unwrap();
    let staged = vec![staged_for_scope(&scope, &begun(&scope.scope_id), false)];
    let blocked = ended(&scope.scope_id, DelegationTerminalState::Blocked, "external blocker");
    let (_, terminal) = watch_ends(&staged, &vec![LifecycleSeen::Found(blocked)], &vec![None]);
    assert_eq!(terminal.len(), 1);
    assert_eq!(terminal[0].state, DelegationTerminalState::Blocked);
}

#[test]
fn terminal_progress_notifies_each_completed_worker_once() {
    let mut mux = mux();
    let first = mux.register_browser(dir(PROJECT), "page-first", 1).unwrap();
    let second = mux.register_browser(dir(PROJECT), "page-second", 2).unwrap();
    let staged = vec![
        staged_for_scope(&first, &begun(&first.scope_id), false),
        staged_for_scope(&second, &begun(&second.scope_id), false),
    ];
    let (notified, terminal) = watch_ends(
        &staged,
        &vec![completed(&first.scope_id), completed(&second.scope_id)],
        &vec![Some(summary("First completed worker")), Some(summary("Second completed worker"))],
    );
    assert_eq!(terminal.len(), 2);
    assert_eq!(notified, vec![0, 1]);
    assert_eq!(terminal[0].state, DelegationTerminalState::Completed);
    assert_eq!(terminal[1].state, DelegationTerminalState::Completed);
    assert_eq!(
        terminal[0].task_result.as_ref().unwrap().text_field("summary").as_deref(),
        Some("First completed worker")
    );
    assert_eq!(
        terminal[1].task_result.as_ref().unwrap().text_field("summary").as_deref(),
        Some("Second completed worker")
    );
    assert_ne!(staged[0].scope_id, staged[1].scope_id);
}

#[test]
fn bootstrap_and_followup_prompts_encode_generation_and_resume_contract() {
    let scope = "44444444-4444-4444-8444-444444444444";
    let bootstrap = build_bootstrap_prompt(
        scope,
        "/tmp/project",
        2,
        true,
        &Some("test-task".to_string()),
        "fix tests and verify output",
    );
    assert!(bootstrap.starts_with("# [Task: test-task] fix tests and verify output\n\n"));
    assert!(bootstrap.contains("GENERATION: 2"));
    assert!(bootstrap.contains("resume readiness handshake"));
    assert!(bootstrap.contains("task_state"));
    assert!(bootstrap.contains("minimal connector/tool discovery"));
    assert!(bootstrap.contains("[GPT2OMO READINESS BOOTSTRAP]"));

    let task = build_delegation_prompt(scope, "/tmp/project", 2, true, "fix tests");
    assert!(task.contains("GENERATION: 2"));
    assert!(task.contains("same retained ChatGPT Web conversation"));
    assert!(task.contains("fix tests"));
    assert!(task.contains("completion_check"));
    assert!(task.contains("task_result"));
    assert!(task.contains("optional Pattern B advisory call only"));
    assert!(task.contains("trust: \"untrusted_advisory\""));
    assert!(task.contains("remain the sole coding agent"));
}

#[test]
fn titles_are_cut_out_of_tasks() {
    assert!(title_can_be_cut("TASK: fix the parser"));
    assert_eq!(extract_clean_task_title("fix the parser\nmore"), "fix the parser");
    assert_eq!(extract_clean_task_title(""), "");
    assert!(extract_clean_task_title(&"word ".repeat(100)).chars().count() < 100);
}

fn place(path: &str) -> NamedPlace {
    NamedPlace { path: path.to_string(), state: dir(path) }
}

#[test]
fn discovers_git_root_before_current_subdirectory() {
    let git = git_root(&Some("/repo\n".to_string())).map(|p| place(&p));
    let discovered = discover_workspace_from(&None, &git, &place("/repo/a/b")).unwrap();
    assert_eq!(discovered, "/repo");
}

#[test]
fn falls_back_to_current_directory_outside_git() {
    let discovered = discover_workspace_from(&None, &None, &place("/plain")).unwrap();
    assert_eq!(discovered, "/plain");
}

#[test]
fn explicit_workspace_overrides_git_discovery() {
    let discovered =
        discover_workspace_from(&Some(place("/chosen")), &Some(place("/repo")), &place("/repo"))
            .unwrap();
    assert_eq!(discovered, "/chosen");
}

#[test]
fn failures_keep_what_they_came_from() {
    let gone = || NamedPlace {
        path: "/gone".into(),
        state: PathState::Unresolved("No such file".into()),
    };
    let file = NamedPlace { path: "/f".into(), state: PathState::File("/f".into()) };
    assert_eq!(
        discover_workspace_from(&Some(gone()), &None, &place("/c")).unwrap_err().words,
        vec!["invalid --workspace /gone", "failed to canonicalize /gone", "No such file"]
    );
    assert_eq!(
        discover_workspace_from(&None, &Some(file), &place("/c")).unwrap_err().words,
        vec!["git returned an invalid worktree root", "workspace is not a directory: /f"]
    );
    assert_eq!(
        discover_workspace_from(&None, &None, &gone()).unwrap_err().words,
        vec!["failed to canonicalize /gone", "No such file"]
    );
    let batch = vec![BatchTask { task: "do".into(), workspace: Some(gone()), label: None }];
    let o = DelegateOptions { batch_stdin: true, task: vec![], ..options() };
    assert_eq!(
        prepare_tasks(&o, &Ok("/w".into()), "", &Ok(batch), 2).unwrap_err().words,
        vec![
            "invalid workspace for batch task 1",
            "failed to canonicalize /gone",
            "No such file"
        ]
    );
    let refused = bridge_port("no url").unwrap_err();
    assert_eq!(refused.words[0], "invalid bridge URL: no url");
    assert_eq!(refused.words[1], "relative URL without a base");
    let printed = Some(b" /repo \n".to_vec());
    assert_eq!(git_root_in(&printed).as_deref(), Some("/repo"));
    assert_eq!(git_root_in(&Some(vec![0xff])).as_deref(), Some("\u{fffd}"));
    assert_eq!(git_root_in(&Some(b"\n".to_vec())), None);
}

#[test]
fn pages_of_scopes_are_reached_by_their_binding() {
    let mut mux = mux();
    let bound = mux.register_browser(dir(PROJECT), "surface:9", 1).unwrap();
    match scope_route(&mux, &bound.scope_id) {
        PageRoute::Pool(binding) => assert_eq!(binding.page_id, "surface:9"),
        other => panic!("{other:?}"),
    }
    let bare = mux.register(dir(PROJECT), None, 1).unwrap();
    assert!(matches!(scope_route(&mux, &bare.scope_id), PageRoute::Driver(p) if p.is_empty()));
    assert!(matches!(scope_route(&mux, "gone"), PageRoute::Nowhere));
    assert!(matches!(page_route(None, "p".into()), PageRoute::Driver(p) if p == "p"));
}

#[test]
fn accepts_multiplexed_bridge_health_shape() {
    let current = json(
        r#"{"service":"gpt2omo","version":"0.7.0","workspace_mode":"multiplexed_scopes"}"#,
    );
    validate_bridge_health(&current, "http://127.0.0.1:18800", "").unwrap();
    let other = json(r#"{"service":"other","workspace_mode":"multiplexed_scopes"}"#);
    assert!(validate_bridge_health(&other, "http://127.0.0.1:18800", "").is_err());
}

#[test]
fn derives_default_scope_dir_from_bridge_port() {
    let port = bridge_port("http://127.0.0.1:18800").unwrap();
    assert_eq!(port, 18800);
    assert!(default_scope_dir("/home/someone/.omo/bridge", port).contains("scopes-18800"));
    assert_eq!(bridge_port("http://bridge.example").unwrap(), 18800);
    assert!(bridge_port("no url").is_err());
}

fn two_accounts() -> AccountsConfig {
    let file = accounts_file(
        r#"{
          "version":1,
          "routing":{"strategy":"round_robin","reservation_ttl_seconds":10,"selection_failure_backoff_seconds":5},
          "defaults":{"limits":{"window_seconds":600,"max_dispatches":10,"max_active_workers":3}},
          "accounts":[
            {"id":"a","browser":{"instance":"instance-a"}},
            {"id":"b","browser":{"instance":"instance-b"}}
          ]
        }"#,
    );
    let facts = facts_of(&file, BRIDGE, MOUNT);
    parse_accounts_config(&file, BRIDGE, MOUNT, &facts).unwrap()
}

#[test]
fn rate_limit_probe_cools_down_only_bound_account() {
    let config = two_accounts();
    let mut router = AccountRouter::new(BRIDGE, MOUNT, LegacyAccountConfig::default());
    let mut mux = mux();
    let scope = mux
        .register_browser_binding(
            dir(PROJECT),
            BrowserBinding::new("a", BrowserDriverKind::Orca, "instance-a", "page-a"),
            1,
        )
        .unwrap();
    let mut staged = staged_for_scope(&scope, &begun(&scope.scope_id), false);
    staged.routed = true;

    let now = 5_000;
    let verdict = apply_ui_condition(
        &mut router,
        &config,
        &staged,
        ChatgptUiCondition::RateLimited {
            reason: ChatgptRateLimitReason::TooManyRequests,
            reset_after_seconds: Some(60),
        },
        now,
    );
    let claim = match verdict {
        UiVerdict::Claim(claim) => claim,
        other => panic!("{other:?}"),
    };
    let record = ended(&scope.scope_id, claim.state, &claim.detail);
    let (action, _) = settle_claim(&claim, &Ok(record), &None);
    assert!(matches!(action.unwrap(), UiProbeAction::Terminal(_)));

    let a = router.state_for_account(&config, "a", now).unwrap();
    let b = router.state_for_account(&config, "b", now).unwrap();
    assert_eq!(a.cooldown_reason.as_deref(), Some("too_many_requests"));
    assert!(a.cooldown_until_ms.is_some_and(|until| until > now));
    assert_eq!(b.cooldown_until_ms, None);
    assert_eq!(b.cooldown_reason, None);
    assert!(item_event(&staged, unsupported_note(), now).is_some());
}

#[test]
fn only_ends_are_told_to_the_account() {
    let mut staged = plain_staged("scope-a", "frontend", "surface:71");
    let limited = ChatgptUiCondition::RateLimited {
        reason: ChatgptRateLimitReason::TooManyRequests,
        reset_after_seconds: Some(30),
    };
    assert!(!account_is_told(&staged, limited));
    staged.routed = true;
    assert!(account_is_told(&staged, limited));
    assert!(account_is_told(&staged, ChatgptUiCondition::AuthenticationRequired));
    assert!(account_is_told(&staged, ChatgptUiCondition::DeliveryError { recoverable: false }));
    for condition in [
        ChatgptUiCondition::Healthy,
        ChatgptUiCondition::Generating,
        ChatgptUiCondition::Unknown,
        ChatgptUiCondition::DeliveryError { recoverable: true },
    ] {
        assert!(!account_is_told(&staged, condition));
        assert!(matches!(worker_verdict(condition), UiVerdict::Continue));
    }
    assert!(matches!(worker_verdict(ChatgptUiCondition::Unsupported), UiVerdict::Disable));
    match worker_verdict(limited) {
        UiVerdict::Claim(claim) => assert_eq!(claim.state, DelegationTerminalState::Blocked),
        other => panic!("{other:?}"),
    }
}

#[test]
fn bootstrap_whose_reservation_is_not_booked_is_reported() {
    let staged = plain_staged("scope-a", "frontend", "surface:71");
    let report = bootstrap_report(&staged, 0, &Ok(()), false, &Err("no lock".into()));
    assert_eq!(
        report.failure.as_deref(),
        Some("worker 1 account reservation commit failed after Web dispatch: no lock; browser-bound scope scope-a was preserved nonterminal because bootstrap delivery already succeeded")
    );
    assert!(report.note.is_none());
    let unclear = bootstrap_report(&staged, 1, &Err("closed".into()), false, &Err("no lock".into()));
    assert_eq!(
        unclear.failure.as_deref(),
        Some("worker 2: closed; browser-bound scope scope-a was preserved nonterminal because bootstrap delivery is ambiguous")
    );
    assert!(bootstrap_report(&staged, 0, &Ok(()), false, &Ok(())).failure.is_none());
}

#[test]
fn a_bootstrap_that_arrived_is_a_dispatch() {
    let config = two_accounts();
    let mut router = AccountRouter::new(BRIDGE, MOUNT, LegacyAccountConfig::default());
    let mut staged = plain_staged("scope-a", "frontend", "surface:71");
    let reservation = router.reserve_one(&config, &WorkerLoad::idle(), 1_000).unwrap();
    staged.routed = true;
    staged.route_reservation = Some(reservation);
    let report = settle_bootstrap(&mut router, &config, &staged, 0, &Ok(()), false, 1_001);
    assert!(report.failure.is_none());
    assert_eq!(
        router.state_for_account(&config, "a", 1_002).unwrap().dispatches_ms,
        vec![1_001]
    );
    let failed = settle_bootstrap(
        &mut router,
        &config,
        &plain_staged("scope-b", "backend", "surface:72"),
        1,
        &Err("closed".into()),
        true,
        1_003,
    );
    assert_eq!(
        bootstrap_outcome(&vec![report, failed]).unwrap_err(),
        "one or more ChatGPT Web readiness bootstraps failed: worker 2: closed; browser-bound scope scope-b was left with authoritative terminal lifecycle evidence"
    );
}

#[test]
fn options_that_do_not_go_together_are_refused() {
    assert!(validate_control_mode(&options()).is_ok());
    let o = DelegateOptions { keep_session: true, close_on_terminal: true, ..options() };
    assert!(validate_control_mode(&o).is_err());
    let o = DelegateOptions { close_scope: Some("s".into()), stdin: true, ..options() };
    assert!(validate_control_mode(&o).is_err());
    let o = DelegateOptions { report_scope: Some("s".into()), dry_run: true, ..options() };
    assert!(validate_control_mode(&o).is_err());
    let o = DelegateOptions { observe_scope: Some("s".into()), dry_run: true, ..options() };
    assert!(validate_control_mode(&o).is_err());
    let o = DelegateOptions {
        resume_scope: Some("s".into()),
        workspace: Some("/w".into()),
        ..options()
    };
    assert!(validate_control_mode(&o).is_err());
    let o = DelegateOptions { resume_scope: Some("s".into()), batch_stdin: true, ..options() };
    assert!(validate_control_mode(&o).is_err());
}

#[test]
fn options_say_what_is_asked_for() {
    assert!(matches!(request_kind(&options()).unwrap(), RequestKind::Fresh));
    let o = DelegateOptions { dry_run: true, ..options() };
    assert!(matches!(request_kind(&o).unwrap(), RequestKind::Rehearse));
    let o = DelegateOptions { report_scope: Some("s".into()), ..options() };
    assert!(matches!(request_kind(&o).unwrap(), RequestKind::Report(_)));
    let o = DelegateOptions { observe_scope: Some("s".into()), ..options() };
    assert!(matches!(request_kind(&o).unwrap(), RequestKind::Observe(_)));
    let o = DelegateOptions { close_scope: Some("s".into()), ..options() };
    assert!(matches!(request_kind(&o).unwrap(), RequestKind::Close(_)));
    assert_eq!(cleanup_exclusion(&o).as_deref(), Some("s"));
    let o = DelegateOptions { resume_scope: Some("s".into()), ..options() };
    assert!(matches!(request_kind(&o).unwrap(), RequestKind::Resume(_)));
    let o = DelegateOptions { resume_scope: Some("s".into()), dry_run: true, ..options() };
    assert!(request_kind(&o).unwrap_err().starts_with("--dry-run is not supported"));
    let o = DelegateOptions { bridge_url: "http://b//".into(), ..options() };
    assert_eq!(bridge_base_url(&o), "http://b");
}

#[test]
fn host_settings_bound_the_workers() {
    let usual = runtime_policy(None);
    assert_eq!(
        usual,
        RuntimePolicy { max_new: 2, max_concurrent: 3, window_ms: 3_600_000, max_dispatches: 12 }
    );
    let config = json(r#"{"max_new_dispatch_workers":1,"window_minutes":0}"#);
    assert!(runtime_policy_fits(Some(&config)));
    let policy = runtime_policy(Some(&config));
    assert_eq!(policy.max_new, 1);
    assert_eq!(policy.window_ms, 3_600_000);
    assert!(!runtime_policy_fits(Some(&json(r#"{"window_minutes":18446744073709551615}"#))));
    assert_eq!(legacy_account_config(&options(), &policy).limits.max_dispatches, 12);
}

#[test]
fn tasks_are_prepared() {
    let o = DelegateOptions { task: vec!["fix".into(), "it".into()], ..options() };
    let tasks = prepare_tasks(&o, &Ok("/w".into()), "", &Ok(vec![]), 2).unwrap();
    assert_eq!(tasks.len(), 1);
    assert_eq!(tasks[0].task, "fix it");
    assert_eq!(tasks[0].workspace, "/w");
    let o = DelegateOptions { batch_stdin: true, ..options() };
    let batch = vec![
        BatchTask { task: "a".into(), workspace: None, label: Some("l".into()) },
        BatchTask { task: "b".into(), workspace: Some(place("/x")), label: None },
    ];
    let tasks = prepare_tasks(&o, &Ok("/w".into()), "", &Ok(batch), 2).unwrap();
    assert_eq!(tasks[1].workspace, "/x");
    assert!(prepare_tasks(&options(), &Ok("/w".into()), "", &Ok(vec![]), 2).is_err());
    assert!(check_input_size(MAX_INPUT_BYTES).is_ok());
    assert!(check_input_size(MAX_INPUT_BYTES + 1).is_err());
    let o = DelegateOptions { stdin: true, ..options() };
    assert_eq!(prepare_resume_task(&o, " go on \n").unwrap().trim(), "go on");
    assert!(prepare_resume_task(&o, "  ").is_err());
}

#[test]
fn results_are_told() {
    let staged = vec![plain_staged("scope-a", "frontend", "surface:71")];
    let outcome = BatchOutcome {
        readiness_complete: true,
        terminal_complete: true,
        actual_sent: vec![true],
        terminal: vec![TerminalObservation {
            state: DelegationTerminalState::Completed,
            detail: Some("done".into()),
            terminal_ms: Some(5),
            task_result: None,
        }],
        sessions: vec![SessionDisposition {
            retained: true,
            closed: false,
            expired: false,
            lease_expires_ms: Some(9),
            error: None,
        }],
    };
    let value =
        value_of(&result_value(&options(), 2, 3, SCOPES, "http://b", &staged, &outcome));
    assert_eq!(value["ok"], true);
    assert_eq!(value["terminal"], true);
    assert_eq!(value["delegations"][0]["session_state"], "IDLE_RETAINED");
    assert_eq!(value["delegations"][0]["terminal_state"], "COMPLETED");
    assert_eq!(value["delegations"][0]["lease_expires_ms"], 9);
    assert!(!result_lines(false, &staged, &outcome).is_empty());

    let written = result_value(&options(), 2, 3, SCOPES, "http://b", &staged, &outcome);
    let read = DelegateWebResult::parse(Some(&written), "").unwrap();
    assert!(read.ok && read.sent && read.ready && read.terminal);
    assert_eq!(read.delegations.len(), 1);
    assert_eq!(read.delegations[0].label, staged[0].label);
    assert_eq!(read.delegations[0].scope_id, staged[0].scope_id);
    assert_eq!(read.delegations[0].terminal_state, Some(DelegationTerminalState::Completed));
    assert_eq!(read.delegations[0].terminal_detail, outcome.terminal[0].detail);
    assert!(read.delegations[0].session_retained && read.delegations[0].resumable);
    assert_eq!(read.single_retained_scope().unwrap(), staged[0].scope_id);
}

#[test]
fn results_are_read_with_their_defaults() {
    let read = |text: &str| {
        let value = json_of(&serde_json::from_str(text).unwrap());
        DelegateWebResult::parse(Some(&value), "missing field")
    };
    let bare = read(r#"{"ok":false,"more":1}"#).unwrap();
    assert!(!bare.ok && !bare.sent && !bare.ready && !bare.terminal);
    assert!(bare.delegations.is_empty());
    let worker = read(
        r#"{"ok":true,"delegations":[{"scope_id":"s","label":null,"terminal_state":"LOST"}]}"#,
    )
    .unwrap();
    assert_eq!(worker.delegations[0].scope_id, "s");
    assert_eq!(worker.delegations[0].label, None);
    assert_eq!(worker.delegations[0].terminal_state, Some(DelegationTerminalState::Lost));
    assert_eq!(worker.delegations[0].terminal_detail, None);
    assert!(!worker.delegations[0].session_retained && !worker.delegations[0].resumable);
    for text in [
        "{}",
        "true",
        r#"{"ok":1}"#,
        r#"{"ok":true,"sent":null}"#,
        r#"{"ok":true,"delegations":{}}"#,
        r#"{"ok":true,"delegations":[{}]}"#,
        r#"{"ok":true,"delegations":[{"scope_id":"s","label":1}]}"#,
        r#"{"ok":true,"delegations":[{"scope_id":"s","terminal_state":"DONE"}]}"#,
    ] {
        assert!(matches!(read(text), Err(MassUlwWebError::Json(m)) if m == "missing field"), "{text}");
    }
    let refusal = serde_json::from_str::<Value>("{").unwrap_err().to_string();
    assert_eq!(
        DelegateWebResult::parse(None, &refusal).unwrap_err(),
        MassUlwWebError::Json(refusal)
    );
}

#[test]
fn sessions_are_kept_or_closed() {
    let item = plain_staged("scope-a", "frontend", "surface:71");
    let mut seen = RetainSeen {
        locked: None,
        resolved: None,
        verified: None,
        leased: None,
        closed: None,
    };
    assert!(matches!(retain_terminal_session(&item, &seen), RetainStep::Lock));
    seen.locked = Some(Ok(()));
    assert!(matches!(retain_terminal_session(&item, &seen), RetainStep::Resolve));
    seen.resolved = Some(Ok(()));
    assert!(matches!(retain_terminal_session(&item, &seen), RetainStep::Verify));
    seen.verified = Some(Ok(()));
    assert!(matches!(retain_terminal_session(&item, &seen), RetainStep::Lease));
    seen.leased = Some(Ok(Some(9)));
    match retain_terminal_session(&item, &seen) {
        RetainStep::Done(d) => {
            assert!(d.retained);
            assert_eq!(d.lease_expires_ms, Some(9));
        }
        other => panic!("{other:?}"),
    }
    let closed = close_terminal_session(&Ok(()), &Ok(()));
    assert!(closed.closed && !closed.retained && closed.error.is_none());
    assert!(close_terminal_session(&Err("gone".into()), &Ok(())).error.is_some());
    assert!(!keeps_page(None, false));
    assert_eq!(
        close_line("s", &Some("p".to_string())),
        "Closed retained Web scope s page=p"
    );
}

#[test]
fn a_retained_scope_is_closed_before_it_is_forgotten() {
    let mut mux = mux();
    let scope = mux.register_browser(dir(PROJECT), "page", 1).unwrap();
    let mut seen =
        CloseSeen { locked: None, record: None, closed: None, released: None, removed: None };
    assert!(matches!(close_retained_scope(&mux, &scope.scope_id, &seen), CloseStep::Lock));
    seen.locked = Some(Ok(()));
    assert!(matches!(close_retained_scope(&mux, &scope.scope_id, &seen), CloseStep::ReadRecord));
    seen.record = Some(LifecycleSeen::Found(DelegationLifecycle {
        session_retained: true,
        ..ended(&scope.scope_id, DelegationTerminalState::Completed, "done")
    }));
    assert!(matches!(
        close_retained_scope(&mux, &scope.scope_id, &seen),
        CloseStep::ClosePage(_, page) if page == "page"
    ));
    seen.closed = Some(Ok(()));
    assert!(matches!(close_retained_scope(&mux, &scope.scope_id, &seen), CloseStep::Release));
    seen.released = Some(Ok(()));
    assert!(matches!(close_retained_scope(&mux, &scope.scope_id, &seen), CloseStep::Remove));
    seen.removed = Some(Ok(()));
    assert!(matches!(close_retained_scope(&mux, &scope.scope_id, &seen), CloseStep::Done(_)));
}

fn no_stage() -> StageSeen {
    StageSeen {
        page: None,
        scope: None,
        claimed: None,
        locked: None,
        resolved: None,
        lifecycle: None,
        bound: None,
    }
}

#[test]
fn a_worker_is_staged_or_undone() {
    let config = two_accounts();
    let mut router = AccountRouter::new(BRIDGE, MOUNT, LegacyAccountConfig::default());
    let reservation = router.reserve_one(&config, &WorkerLoad::idle(), 1_000).unwrap();
    let task = prepared("do it", Some("l"));
    let binding = || BrowserBinding::new("a", BrowserDriverKind::Orca, "instance-a", "page-a");
    let mut mux = mux();
    let mut seen = no_stage();
    let step = |seen: &StageSeen| stage_browser_delegation(&vec![], &task, &reservation, seen);
    assert!(matches!(step(&seen), StageStep::CreatePage));
    seen.page = Some(Ok(binding()));
    assert!(matches!(step(&seen), StageStep::RegisterScope(_)));
    let scope = mux.register_browser_binding(dir(PROJECT), binding(), 1).unwrap();
    let id = scope.scope_id.clone();
    seen.scope = Some(Ok(scope));
    assert!(matches!(step(&seen), StageStep::ClaimScope(s) if s == id));
    seen.claimed = Some(Ok(()));
    assert!(matches!(step(&seen), StageStep::LockScope(s) if s == id));
    seen.locked = Some(Ok(()));
    assert!(matches!(step(&seen), StageStep::ResolveScope(s) if s == id));
    seen.resolved = Some(Ok(()));
    assert!(matches!(step(&seen), StageStep::StartLifecycle(s) if s == id));
    seen.lifecycle = Some(Ok(begun(&id)));
    assert!(matches!(step(&seen), StageStep::BindReservation(s) if s == id));
    seen.bound = Some(Err("gone".into()));
    match step(&seen) {
        StageStep::Abort(cleanup) => {
            assert_eq!(cleanup.scope.as_deref(), Some(id.as_str()));
            assert_eq!(
                cleanup.failure.message(),
                "failed to bind account reservation to active scope"
            );
            assert_eq!(cleanup.failure.words.len(), 2);
        }
        other => panic!("{other:?}"),
    }
    seen.bound = Some(Ok(()));
    match step(&seen) {
        StageStep::Staged(item) => {
            assert_eq!(item.scope_id, id);
            assert_eq!(item.browser_page_id.as_deref(), Some("page-a"));
        }
        other => panic!("{other:?}"),
    }
    assert!(check_claim_count(1, 1).is_ok());
    assert!(check_claim_count(1, 2).is_err());
    assert_eq!(stagger_before(0), None);
    assert!(stagger_before(1).is_some());
}

#[test]
fn a_rehearsal_registers_scopes_without_pages() {
    let mut mux = mux();
    let tasks = vec![prepared("do it", Some("l"))];
    let staged = stage_dry_run(&mut mux, &tasks, &vec![dir(PROJECT)], 1).unwrap();
    assert_eq!(staged.len(), 1);
    assert_eq!(staged[0].browser_page_id, None);
    assert!(stage_dry_run(&mut mux, &tasks, &vec![dir("/outside")], 1).is_err());
}

#[test]
fn resuming_starts_with_the_lock_and_the_record() {
    let mut mux = mux();
    let scope = mux.register_browser(dir(PROJECT), "page", 1).unwrap();
    let mut seen = ResumeSeen {
        locked: None,
        record: None,
        target: None,
        reservation: None,
        expired: None,
        verified: None,
        given_back: false,
        released: None,
        removed: None,
        closed: None,
        next: None,
        ended: None,
        bound: None,
    };
    let step = |seen: &ResumeSeen| {
        stage_resume_delegation(&mux, &scope.scope_id, "go on", 3_000, seen)
    };
    assert!(matches!(step(&seen), ResumeStep::Lock));
    seen.locked = Some(Ok(()));
    assert!(matches!(step(&seen), ResumeStep::ReadRecord));
    seen.record = Some(LifecycleSeen::Found(begun(&scope.scope_id)));
    assert!(matches!(step(&seen), ResumeStep::Failed(_)));
    seen.record = Some(LifecycleSeen::Found(DelegationLifecycle {
        session_retained: true,
        lease_expires_ms: Some(62_000),
        ..ended(&scope.scope_id, DelegationTerminalState::Completed, "done")
    }));
    assert!(!matches!(step(&seen), ResumeStep::Failed(_)));
}
