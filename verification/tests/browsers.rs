use gpt2omo::accounts::{
    load_accounts_config, parse_accounts_config, AccountDefaults, AccountLimits, AccountsConfig,
    AccountsFile, BrowserInstanceConfig, CooldownConfig, LegacyAccountConfig,
    PartialAccountLimits, ProfileFacts, RawAccountConfig, RoutingConfig, RoutingStrategy,
};
use gpt2omo::browser_pool::{
    account_inspection, browser_account_unavailable, cdp_identity_matches_profile, cdp_probe_condition,
    cdp_url_within_limit, chromium_launch_args, created_page_id, debugger_url,
    discover_chromium_executable, ensure_browser_instance, eval_fault, eval_timeout, evaluate_request, new_page_url,
    page_closed, pick_inspection_target, read_eval_reply, read_inspection,
    rebase_cdp_websocket_url, rebase_within_limit, retry_clicked, validate_loopback_ws,
    validate_page_id, validate_probe, BrowserHealth, BrowserLaunchMode, BrowserLoginState,
    BrowserPool, BrowserReachability, BrowserTarget, CdpTarget, EvalReply, EvalWait, ExecutableCandidate,
    HealthSeen, HealthStep, InstanceSeen, InstanceStep, LeaseStep, OpenSeen, OpenStep, PageRoute,
    ReachSeen, ReachStep, RetrySeen, RetryStep, CDP_SEND_EXPRESSION, CDP_WS_CONNECT_TIMEOUT_SECS,
    CDP_WS_RESPONSE_TIMEOUT_SECS, PAGE_READY_TIMEOUT_SECS,
};
use gpt2omo::json::{Json, JsonField};
use gpt2omo::orca::{
    automatic_browser_driver_priority, classify_chatgpt_ui_snapshot, close_page_args,
    close_browser_page, cmux_close_surface_args, cmux_new_browser_surface_args, cmux_surface_ref,
    create_chatgpt_tab, create_tab_args, decode_eval_value, eval_command_args, eval_program,
    fresh_tab_id, idle_wait_step, insert_prompt_expression, orca_page_id, output_fits,
    parse_command_json,
    probe_chatgpt_ui_condition, prompt_wait_step, read_eval, resolve_terminal, resolve_terminal_for_marker, send_chatgpt_prompt,
    send_prompt, terminal_list_args, terminal_read_args, terminal_send_args, terminal_show_args,
    validate_chatgpt_page_probe, validate_reset_after_seconds, verify_chatgpt_page,
    BrowserDriverConfig, BrowserDriverKind, ChatgptRateLimitReason, ChatgptUiCondition,
    CommandOutput, SendSeen, SendStep, ShownReply, TabSeen, TabStep, TerminalStep, TerminalSurvey, WaitStep, CHATGPT_SEND_EXPRESSION, CHATGPT_UI_PROBE_EXPRESSION,
    MAX_COMMAND_OUTPUT_BYTES, MAX_RESET_AFTER_SECONDS,
};
use gpt2omo::security::workspace::BrowserBinding;
use serde_json::Value;

const BRIDGE: &str = "/root-dir/bridge";
const MOUNT: &str = "/root-dir/mount";

fn json_of(v: &Value) -> Json {
    match v {
        Value::Null => Json::Null,
        Value::Bool(b) => Json::Bool(*b),
        Value::Number(n) => match (n.as_u64(), n.as_i64()) {
            (Some(u), _) => Json::Unsigned(u),
            (None, Some(i)) => Json::Negative(i),
            _ => Json::Decimal(n.to_string()),
        },
        Value::String(s) => Json::Text(s.clone()),
        Value::Array(a) => Json::Array(a.iter().map(json_of).collect()),
        Value::Object(o) => Json::Object(
            o.iter()
                .map(|(k, v)| JsonField { key: k.clone(), value: json_of(v) })
                .collect(),
        ),
    }
}

fn json(text: &str) -> Json {
    json_of(&serde_json::from_str(text).unwrap())
}

fn value_of(j: &Json) -> Value {
    match j {
        Json::Null => Value::Null,
        Json::Bool(b) => Value::Bool(*b),
        Json::Unsigned(u) => Value::from(*u),
        Json::Negative(i) => Value::from(*i),
        Json::Decimal(s) => serde_json::from_str(s).unwrap(),
        Json::Text(s) => Value::from(s.as_str()),
        Json::Array(a) => Value::Array(a.iter().map(value_of).collect()),
        Json::Object(o) => {
            Value::Object(o.iter().map(|f| (f.key.clone(), value_of(&f.value))).collect())
        }
    }
}

fn number(v: Option<&Value>, other: u64) -> u64 {
    v.and_then(Value::as_u64).unwrap_or(other)
}

fn text(v: Option<&Value>) -> Option<String> {
    v.and_then(Value::as_str).map(str::to_string)
}

fn limits_of(v: Option<&Value>) -> AccountLimits {
    let d = AccountLimits::default();
    match v {
        None => d,
        Some(v) => AccountLimits {
            window_seconds: number(v.get("window_seconds"), d.window_seconds),
            max_dispatches: number(v.get("max_dispatches"), d.max_dispatches as u64) as usize,
            max_active_workers: number(v.get("max_active_workers"), d.max_active_workers as u64)
                as usize,
        },
    }
}

fn accounts_file(content: &str) -> AccountsFile {
    let v: Value = serde_json::from_str(content).unwrap();
    let routing = match v.get("routing") {
        None => RoutingConfig::default(),
        Some(r) => {
            let d = RoutingConfig::default();
            RoutingConfig {
                strategy: match r.get("strategy").and_then(Value::as_str) {
                    Some("least_loaded") => RoutingStrategy::LeastLoaded,
                    _ => RoutingStrategy::RoundRobin,
                },
                reservation_ttl_seconds: number(
                    r.get("reservation_ttl_seconds"),
                    d.reservation_ttl_seconds,
                ),
                selection_failure_backoff_seconds: number(
                    r.get("selection_failure_backoff_seconds"),
                    d.selection_failure_backoff_seconds,
                ),
            }
        }
    };
    let defaults = v.get("defaults");
    let c = CooldownConfig::default();
    let cooldown = match defaults.and_then(|d| d.get("cooldown")) {
        None => c,
        Some(x) => CooldownConfig {
            unknown_rate_limit_seconds: number(
                x.get("unknown_rate_limit_seconds"),
                c.unknown_rate_limit_seconds,
            ),
            delivery_failure_seconds: number(
                x.get("delivery_failure_seconds"),
                c.delivery_failure_seconds,
            ),
        },
    };
    let accounts = v["accounts"]
        .as_array()
        .unwrap()
        .iter()
        .map(|a| RawAccountConfig {
            id: text(a.get("id")).unwrap(),
            enabled: a.get("enabled").and_then(Value::as_bool).unwrap_or(true),
            draining: a.get("draining").and_then(Value::as_bool).unwrap_or(false),
            limits: match a.get("limits") {
                None => PartialAccountLimits::default(),
                Some(l) => PartialAccountLimits {
                    window_seconds: l.get("window_seconds").and_then(Value::as_u64),
                    max_dispatches: l
                        .get("max_dispatches")
                        .and_then(Value::as_u64)
                        .map(|n| n as usize),
                    max_active_workers: l
                        .get("max_active_workers")
                        .and_then(Value::as_u64)
                        .map(|n| n as usize),
                },
            },
            browser: BrowserInstanceConfig {
                driver: text(a["browser"].get("driver"))
                    .map(|d| BrowserDriverKind::from_name(&d).unwrap()),
                instance: text(a["browser"].get("instance")).unwrap(),
                user_data_dir: text(a["browser"].get("user_data_dir")),
                cdp_endpoint: text(a["browser"].get("cdp_endpoint")),
                worktree: text(a["browser"].get("worktree")).unwrap_or("active".to_string()),
            },
        })
        .collect();
    AccountsFile {
        version: v["version"].as_u64().unwrap() as u32,
        routing,
        defaults: AccountDefaults { limits: limits_of(defaults.and_then(|d| d.get("limits"))), cooldown },
        accounts,
    }
}

/// What a file system without links says of the profiles.
fn facts_of(file: &AccountsFile, bridge: &str, mount: &str) -> Vec<ProfileFacts> {
    file.accounts
        .iter()
        .map(|a| ProfileFacts {
            bridge_real: Ok(bridge.to_string()),
            profile_real: Ok(a.browser.user_data_dir.clone().unwrap_or_default()),
            relative_mount: Err("the mount root is absolute".to_string()),
            mount_real: Some(mount.to_string()),
        })
        .collect()
}

fn legacy() -> LegacyAccountConfig {
    LegacyAccountConfig {
        routing: RoutingConfig::default(),
        limits: AccountLimits::default(),
        cooldown: CooldownConfig::default(),
        browser: BrowserInstanceConfig::legacy("active"),
    }
}

fn driver(binary: Option<&str>) -> BrowserDriverConfig {
    BrowserDriverConfig::with_driver(
        Some(BrowserDriverKind::Orca),
        binary.map(str::to_string),
        "active",
        None,
    )
}

fn pool_with_config(content: &str) -> (AccountsConfig, BrowserPool) {
    let file = accounts_file(content);
    let facts = facts_of(&file, BRIDGE, MOUNT);
    let config = parse_accounts_config(&file, BRIDGE, MOUNT, &facts).unwrap();
    (config, BrowserPool::new(BRIDGE, MOUNT, legacy(), driver(Some("orca"))))
}

const MODE: BrowserLaunchMode = BrowserLaunchMode::ManagedLocal;

fn target(profile: Option<&str>, endpoint: Option<&str>) -> BrowserTarget {
    BrowserTarget {
        account_id: "a".into(),
        instance: "ia".into(),
        driver: BrowserDriverKind::Orca,
        user_data_dir: profile.map(str::to_string),
        cdp_endpoint: endpoint.map(str::to_string),
        launch_mode: MODE,
        worktree: "active".into(),
    }
}

#[test]
fn missing_accounts_config_defaults_to_a_managed_chrome_profile() {
    let config = load_accounts_config(None, BRIDGE, MOUNT, &vec![], legacy()).unwrap();
    let pool =
        BrowserPool::new(BRIDGE, MOUNT, legacy(), BrowserDriverConfig::new("active", None, "orca"));
    let target = pool.target_for_account(&config, "default", false, MODE).unwrap();

    assert_eq!(target.driver, BrowserDriverKind::Chrome);
    assert_eq!(target.cdp_endpoint.as_deref(), Some("http://127.0.0.1:9222"));
    assert_eq!(
        target.user_data_dir.as_deref(),
        Some("/root-dir/bridge/browser-profiles/default")
    );
}

#[test]
fn draining_account_is_unavailable_for_fresh_browser_work_but_binding_resolves() {
    let (config, pool) = pool_with_config(
        r#"{"version":1,"accounts":[{"id":"a","enabled":true,"draining":true,"browser":{"driver":"orca","instance":"ia"}}]}"#,
    );
    assert!(pool
        .target_for_account(&config, "a", false, MODE)
        .unwrap_err()
        .contains("draining for new work"));
    let binding = BrowserBinding::new("a", BrowserDriverKind::Orca, "ia", "page");
    assert!(pool.target_for_binding(&config, &binding, MODE).is_ok());
}

#[test]
fn multi_account_creation_requires_endpoint_and_profile_isolation() {
    let (config, pool) = pool_with_config(
        r#"{"version":1,"accounts":[
          {"id":"a","browser":{"instance":"ia"}},
          {"id":"b","browser":{"instance":"ib"}}
        ]}"#,
    );
    let target = pool.target_for_account(&config, "a", false, MODE).unwrap();
    let error = BrowserPool::validate_creation_isolation(&config, &target).unwrap_err();
    assert!(error.contains("distinct browser.cdp_endpoint"));
    assert!(error.contains("managed_local ownership"));
    assert!(matches!(
        pool.create_chatgpt_page(&config, &target, &OpenSeen::nothing()),
        OpenStep::Failed(e) if e == error
    ));
}

fn profile(id: &str) -> String {
    format!("{BRIDGE}/browser-profiles/{id}")
}

#[test]
fn identical_page_ids_remain_bound_to_distinct_instances() {
    let (config, pool) = pool_with_config(&format!(
        r#"{{"version":1,"accounts":[
          {{"id":"a","browser":{{"driver":"orca","instance":"ia","user_data_dir":"{}","cdp_endpoint":"http://127.0.0.1:9223"}}}},
          {{"id":"b","browser":{{"driver":"orca","instance":"ib","user_data_dir":"{}","cdp_endpoint":"http://127.0.0.1:9224"}}}}
        ]}}"#,
        profile("a"),
        profile("b")
    ));
    let a = BrowserBinding::new("a", BrowserDriverKind::Orca, "ia", "same-page");
    let b = BrowserBinding::new("b", BrowserDriverKind::Orca, "ib", "same-page");
    let at = pool.target_for_binding(&config, &a, MODE).unwrap();
    let bt = pool.target_for_binding(&config, &b, MODE).unwrap();
    assert_eq!(at.cdp_endpoint.as_deref().map(|e| e.trim_end_matches('/')), Some("http://127.0.0.1:9223"));
    assert_eq!(bt.cdp_endpoint.as_deref().map(|e| e.trim_end_matches('/')), Some("http://127.0.0.1:9224"));
    assert_ne!(at.instance, bt.instance);
    assert_eq!(pool.provision_profiles(&config), vec![profile("a"), profile("b")]);
}

#[test]
fn binding_rejects_instance_drift() {
    let (config, pool) = pool_with_config(&format!(
        r#"{{"version":1,"accounts":[{{"id":"a","browser":{{"driver":"orca","instance":"new","user_data_dir":"{}","cdp_endpoint":"http://127.0.0.1:9223"}}}}]}}"#,
        profile("a")
    ));
    let binding = BrowserBinding::new("a", BrowserDriverKind::Orca, "old", "page");
    assert!(pool
        .target_for_binding(&config, &binding, MODE)
        .unwrap_err()
        .contains("instance changed"));
}

#[test]
fn profile_lease_is_held_for_browser_pool_lifetime() {
    let mut pool = BrowserPool::new(BRIDGE, MOUNT, legacy(), driver(None));
    let target = target(Some("/p"), Some("http://127.0.0.1:9223"));
    match pool.lease_step(&target) {
        LeaseStep::Take(profile) => pool.hold_lease(&profile),
        other => panic!("{other:?}"),
    }
    assert!(matches!(pool.lease_step(&target), LeaseStep::Held));
    let same = BrowserTarget { user_data_dir: Some("/p/".into()), ..target.clone() };
    assert!(matches!(pool.lease_step(&same), LeaseStep::Held));
    let other = BrowserTarget { user_data_dir: Some("/p/q".into()), ..target.clone() };
    assert!(matches!(pool.lease_step(&other), LeaseStep::Take(p) if p == "/p/q"));
    let bare = BrowserTarget { user_data_dir: None, ..target };
    assert!(matches!(pool.lease_step(&bare), LeaseStep::NotNeeded));
}

#[test]
fn cdp_identity_must_match_the_configured_profile() {
    let foreign = json(
        r#"{"Browser":"Chrome/120.0.0.0","webSocketDebuggerUrl":"ws://127.0.0.1:9223/devtools/browser/abc","userDataDir":"/tmp/omo-profile-b"}"#,
    );
    assert!(
        cdp_identity_matches_profile(&foreign, "/tmp/omo-profile-a").is_err(),
        "a CDP endpoint served by a different user-data-dir must be refused, not trusted because it merely answered"
    );
    let owned = json(
        r#"{"Browser":"Chrome/120.0.0.0","webSocketDebuggerUrl":"ws://127.0.0.1:9223/devtools/browser/abc","userDataDir":"/tmp/omo-profile-a"}"#,
    );
    assert!(
        cdp_identity_matches_profile(&owned, "/tmp/omo-profile-a").is_ok(),
        "the configured profile's own browser must still be accepted"
    );
}

#[test]
fn isolated_browser_launch_arguments_bind_exact_profile_and_loopback_port() {
    let target = BrowserTarget {
        instance: "instance-a".into(),
        ..target(Some("/root-dir/profile-a"), Some("http://127.0.0.1:19223"))
    };
    let args = chromium_launch_args(&target).unwrap();
    assert!(args.iter().any(|arg| arg == "--remote-debugging-address=127.0.0.1"));
    assert!(args.iter().any(|arg| arg == "--remote-debugging-port=19223"));
    assert!(args.iter().any(|arg| arg == "--user-data-dir=/root-dir/profile-a"));
    assert!(args.iter().all(|arg| !arg.contains("cookie")));
    let bare = BrowserTarget { user_data_dir: None, ..target };
    assert!(chromium_launch_args(&bare).is_err());
}

#[test]
fn cdp_websocket_must_be_loopback() {
    assert!(validate_loopback_ws("ws://127.0.0.1:9222/devtools/page/abc").is_ok());
    assert!(validate_loopback_ws("ws://[::1]:9222/devtools/page/abc").is_ok());
    assert!(validate_loopback_ws("ws://192.0.2.8:9222/devtools/page/abc").is_err());
}

#[test]
fn attach_only_rebases_remote_debugger_websocket_to_local_forward() {
    let rebased = rebase_cdp_websocket_url(
        "ws://127.0.0.1:9223/devtools/page/target-1?token=abc",
        "http://127.0.0.1:19223",
    )
    .unwrap();
    assert_eq!(rebased, "ws://127.0.0.1:19223/devtools/page/target-1?token=abc");
}

#[test]
fn attach_only_rebases_secure_debugger_websocket_to_secure_local_forward() {
    let rebased = rebase_cdp_websocket_url(
        "ws://127.0.0.1:9223/devtools/page/target-1",
        "https://127.0.0.1:19223",
    )
    .unwrap();
    assert_eq!(rebased, "wss://127.0.0.1:19223/devtools/page/target-1");
    assert_eq!(
        rebase_within_limit(
            "ws://127.0.0.1:9223/devtools/page/target-1",
            "https://127.0.0.1:19223"
        ),
        Some(Ok("wss://127.0.0.1:19223/devtools/page/target-1".to_string()))
    );
    assert!(rebase_within_limit("nothing", "https://127.0.0.1:19223").unwrap().is_err());
}

#[test]
fn cdp_websocket_timeouts_are_bounded() {
    assert!(CDP_WS_CONNECT_TIMEOUT_SECS <= 10);
    assert!(CDP_WS_RESPONSE_TIMEOUT_SECS <= 15);
    assert!(CDP_WS_CONNECT_TIMEOUT_SECS < PAGE_READY_TIMEOUT_SECS);
    assert!(CDP_WS_RESPONSE_TIMEOUT_SECS < PAGE_READY_TIMEOUT_SECS);
}

#[test]
fn devtools_resources_have_addresses() {
    assert_eq!(
        cdp_url_within_limit("http://127.0.0.1:9222/x?y#z", "json/version"),
        Some(Ok("http://127.0.0.1:9222/json/version".to_string()))
    );
    assert!(cdp_url_within_limit("nothing", "json").unwrap().is_err());
    assert!(new_page_url("http://127.0.0.1:9222/json/new")
        .unwrap()
        .starts_with("http://127.0.0.1:9222/json/new?https"));
    assert_eq!(created_page_id(&json(r#"{"id":"p"}"#)).as_deref(), Some("p"));
    assert_eq!(created_page_id(&json("{}")), None);
    assert!(page_closed(200));
    assert!(page_closed(404));
    assert!(!page_closed(500));
    assert!(validate_page_id("ABC-1_2").is_ok());
    assert!(validate_page_id("a/b").is_err());
}

fn cdp_target(id: &str, kind: &str, url: &str) -> CdpTarget {
    CdpTarget {
        id: id.into(),
        url: url.into(),
        target_type: kind.into(),
        web_socket_debugger_url: format!("ws://127.0.0.1:9222/devtools/page/{id}"),
    }
}

#[test]
fn pages_are_found_among_targets() {
    let targets = vec![
        cdp_target("w", "worker", "https://chatgpt.com/sw"),
        cdp_target("p", "page", "about:blank"),
        cdp_target("c", "page", "https://chatgpt.com/c/1"),
    ];
    assert_eq!(pick_inspection_target(&targets, "a").unwrap(), 2);
    assert_eq!(pick_inspection_target(&targets[..2].iter().map(|t| cdp_target(&t.id, &t.target_type, &t.url)).collect(), "a").unwrap(), 1);
    assert_eq!(
        pick_inspection_target(&vec![], "a").unwrap_err(),
        "no browser target found for account 'a'"
    );
    assert_eq!(
        debugger_url(&targets, "p").unwrap(),
        "ws://127.0.0.1:9222/devtools/page/p"
    );
    assert!(debugger_url(&targets, "x").is_err());
}

#[test]
fn evaluations_are_asked_and_answered() {
    let request = value_of(&evaluate_request("1+1"));
    assert_eq!(request["method"], "Runtime.evaluate");
    assert_eq!(request["params"]["expression"], "1+1");
    let id = request["id"].as_u64().unwrap();
    let reply = |body: &str| read_eval_reply(&json(&format!(r#"{{"id":{id},{body}}}"#)));
    assert!(matches!(
        reply(r#""result":{"result":{"type":"number","value":2}}"#),
        EvalReply::Value(Json::Unsigned(2))
    ));
    assert!(matches!(
        reply(r#""result":{"result":{"type":"object","subtype":"null"}}"#),
        EvalReply::Value(Json::Null)
    ));
    assert!(matches!(reply(r#""error":{"message":"no"}"#), EvalReply::Failed(_)));
    assert!(matches!(reply(r#""result":{"exceptionDetails":{}}"#), EvalReply::Threw(_)));
    assert!(matches!(reply(r#""result":{}"#), EvalReply::NoResult));
    assert!(matches!(read_eval_reply(&json(r#"{"id":77777}"#)), EvalReply::Unrelated));
    assert!(retry_clicked(&json(r#"{"clicked":true}"#)));
    assert_eq!(cdp_probe_condition(None), ChatgptUiCondition::Unknown);
}

#[test]
fn probes_are_read() {
    let page = json(
        r#"{"url":"https://chatgpt.com/c/1","title":"t","hasPrompt":true,"ready":true,"generating":true}"#,
    );
    if let Ok(probe) = validate_probe(&page) {
        assert_eq!(probe.url, "https://chatgpt.com/c/1");
        assert!(probe.generating);
    }
    let elsewhere = json(r#"{"url":"https://example.com/","ready":true}"#);
    assert_eq!(
        validate_probe(&elsewhere).unwrap_err(),
        "browser page is not on https://chatgpt.com"
    );
    assert!(validate_chatgpt_page_probe(&json("{}")).is_err());
    let seen = read_inspection(&json(
        r#"{"url":"u","composer_visible":true,"turn_count":3,"alerts":["a",1],"rate_limit_reason":"capacity","reset_after_seconds":5}"#,
    ));
    assert_eq!(seen.turn_count, 3);
    assert_eq!(seen.alerts, vec!["a"]);
    assert_eq!(
        seen.condition,
        ChatgptUiCondition::RateLimited {
            reason: ChatgptRateLimitReason::Capacity,
            reset_after_seconds: Some(5)
        }
    );
}

#[test]
fn a_browser_is_started_once_and_checked() {
    let target = target(Some("/p"), Some("http://127.0.0.1:9223"));
    let mut seen = InstanceSeen {
        lease: None,
        version: None,
        executable: None,
        started: None,
        answered: None,
        past_deadline: false,
    };
    assert!(matches!(ensure_browser_instance(&target, &seen), InstanceStep::TakeLease));
    seen.lease = Some(Ok(()));
    assert!(matches!(ensure_browser_instance(&target, &seen), InstanceStep::AskVersion));
    seen.version = Some(Some(json(r#"{"userDataDir":"/other"}"#)));
    assert!(matches!(ensure_browser_instance(&target, &seen), InstanceStep::Fail(_)));
    seen.version = Some(None);
    assert!(matches!(ensure_browser_instance(&target, &seen), InstanceStep::FindExecutable));
    seen.executable = Some(Some("/usr/bin/chrome".into()));
    assert!(matches!(
        ensure_browser_instance(&target, &seen),
        InstanceStep::Start(bin, _) if bin == "/usr/bin/chrome"
    ));
    seen.started = Some(Ok(()));
    seen.answered = Some(true);
    assert!(matches!(ensure_browser_instance(&target, &seen), InstanceStep::Ready));
    let usual = vec![
        ExecutableCandidate { path: "/no".into(), is_file: false },
        ExecutableCandidate { path: "/yes".into(), is_file: true },
    ];
    assert_eq!(discover_chromium_executable(&None, &usual).as_deref(), Some("/yes"));
    assert!(browser_account_unavailable("gone").message().contains("gone"));
}

#[test]
fn the_health_of_a_browser_is_found_out() {
    let mut seen = HealthSeen {
        target: None,
        lease: None,
        reachable: None,
        targets: None,
        condition: None,
        driver: None,
    };
    assert!(matches!(BrowserPool::health("a", &seen), HealthStep::ResolveTarget));
    seen.target = Some(Ok(target(Some("/p"), Some("http://127.0.0.1:9223"))));
    assert!(matches!(BrowserPool::health("a", &seen), HealthStep::TakeLease));
    seen.lease = Some(Ok(()));
    assert!(matches!(BrowserPool::health("a", &seen), HealthStep::Reach));
    seen.reachable = Some(Ok(()));
    assert!(matches!(BrowserPool::health("a", &seen), HealthStep::ListTargets));
    seen.targets = Some(Ok(vec![cdp_target("c", "page", "https://chatgpt.com/")]));
    assert!(matches!(BrowserPool::health("a", &seen), HealthStep::Probe(p) if p == "c"));
    seen.condition = Some(ChatgptUiCondition::Healthy);
    match BrowserPool::health("a", &seen) {
        HealthStep::Report(h) => {
            assert_eq!(h.reachability, BrowserReachability::Reachable);
            assert_eq!(h.login_state, BrowserLoginState::Ready);
        }
        other => panic!("{other:?}"),
    }
    let told = BrowserHealth {
        account_id: "a".into(),
        instance: "ia".into(),
        driver: Some(BrowserDriverKind::AgentBrowser),
        reachability: BrowserReachability::Unreachable,
        login_state: BrowserLoginState::Unknown,
        login_required: false,
        detail: None,
    };
    let value = value_of(&told.to_json());
    assert_eq!(value["driver"], "agent_browser");
    assert_eq!(value["reachability"], "unreachable");
    assert_eq!(value.get("detail"), None);
}

#[test]
fn a_page_that_never_becomes_ready_is_closed() {
    let (config, pool) = pool_with_config(&format!(
        r#"{{"version":1,"accounts":[{{"id":"a","browser":{{"driver":"orca","instance":"ia","user_data_dir":"{}","cdp_endpoint":"http://127.0.0.1:9223"}}}}]}}"#,
        profile("a")
    ));
    let target = pool.target_for_account(&config, "a", false, MODE).unwrap();
    let mut seen = OpenSeen::nothing();
    let step = |seen: &OpenSeen| pool.create_chatgpt_page(&config, &target, seen);
    assert!(matches!(step(&seen), OpenStep::EnsureInstance));
    seen.instance = Some(Ok(()));
    assert!(matches!(step(&seen), OpenStep::CreateAt(_)));
    seen.created = Some(Ok("p".into()));
    assert!(matches!(step(&seen), OpenStep::AwaitPrompt(p) if p == "p"));
    assert!(matches!(
        pool.open_chatgpt_login_page(&config, &target, &seen),
        OpenStep::Opened(h) if h.page_id == "p"
    ));
    seen.ready = Some(Err("slow".into()));
    assert!(matches!(step(&seen), OpenStep::Close(p) if p == "p"));
    seen.closed = true;
    assert!(matches!(step(&seen), OpenStep::Failed(e) if e == "slow"));
    seen.ready = Some(Ok(()));
    match step(&seen) {
        OpenStep::Opened(h) => assert_eq!(h.binding().account_id, "a"),
        other => panic!("{other:?}"),
    }
    assert!(matches!(pool.page_route(&target), PageRoute::Endpoint(_)));
}

fn shown(text: &str) -> Option<Result<ShownReply, String>> {
    Some(Ok(ShownReply { value: json(text), shown: text.to_string() }))
}

#[test]
fn a_prompt_is_filled_in_and_sent() {
    let target = target(Some("/p"), Some("http://127.0.0.1:9223"));
    let mut seen = SendSeen::nothing();
    assert!(matches!(
        BrowserPool::send(&target, "  ", &seen),
        SendStep::Failed(e) if e == "ChatGPT Web prompt cannot be empty"
    ));
    assert!(matches!(BrowserPool::send(&target, "say \"hi\"", &seen), SendStep::AwaitIdle));
    seen.idle = Some(Ok(()));
    match BrowserPool::send(&target, "say \"hi\"", &seen) {
        SendStep::Insert(e) => assert!(e.contains(r#""say \"hi\"""#)),
        other => panic!("{other:?}"),
    }
    seen.inserted = shown(r#"{"ok":false}"#);
    assert!(matches!(
        BrowserPool::send(&target, "hi", &seen),
        SendStep::Failed(e) if e == r#"unable to fill ChatGPT prompt box: {"ok":false}"#
    ));
    seen.inserted = shown(r#"{"ok":true}"#);
    assert!(matches!(
        BrowserPool::send(&target, "hi", &seen),
        SendStep::Press(e) if e == CDP_SEND_EXPRESSION
    ));
    assert!(matches!(
        send_chatgpt_prompt("hi", &seen),
        SendStep::Press(e) if e == CHATGPT_SEND_EXPRESSION
    ));
    seen.pressed = shown(r#"{"ok":true}"#);
    assert!(matches!(BrowserPool::send(&target, "hi", &seen), SendStep::Sent));
}

#[test]
fn automatic_driver_priority_prefers_cmux_then_orca() {
    assert_eq!(
        automatic_browser_driver_priority(),
        [
            (BrowserDriverKind::Cmux, "cmux"),
            (BrowserDriverKind::Orca, "orca"),
            (BrowserDriverKind::Maho, "maho"),
            (BrowserDriverKind::AgentBrowser, "agent-browser"),
            (BrowserDriverKind::Aside, "aside"),
        ]
    );
}

#[test]
fn parses_browser_driver_kinds() {
    assert_eq!("maho".parse::<BrowserDriverKind>().unwrap(), BrowserDriverKind::Maho);
    assert_eq!("orca".parse::<BrowserDriverKind>().unwrap(), BrowserDriverKind::Orca);
    assert_eq!(
        "agent-browser".parse::<BrowserDriverKind>().unwrap(),
        BrowserDriverKind::AgentBrowser
    );
    assert_eq!("aside".parse::<BrowserDriverKind>().unwrap(), BrowserDriverKind::Aside);
    assert_eq!("cmux".parse::<BrowserDriverKind>().unwrap(), BrowserDriverKind::Cmux);
}

const NOTHING_FOUND: [bool; 5] = [false; 5];

#[test]
fn explicit_cmux_driver_uses_cmux_binary() {
    let mut config = BrowserDriverConfig::with_driver(
        Some(BrowserDriverKind::Cmux),
        None,
        "workspace:6",
        None,
    );
    assert_eq!(
        config.detect(&None, &NOTHING_FOUND.to_vec()),
        (BrowserDriverKind::Cmux, "cmux".to_string())
    );
}

#[test]
fn detect_caches_resolved_driver_and_binary() {
    let mut config = BrowserDriverConfig::with_driver(
        Some(BrowserDriverKind::Orca),
        Some("/custom/orca".to_string()),
        "worktree",
        None,
    );
    assert!(config.resolved.is_none());
    let first = config.detect(&None, &NOTHING_FOUND.to_vec());
    let second = config.detect(&None, &NOTHING_FOUND.to_vec());
    assert_eq!(first, (BrowserDriverKind::Orca, "/custom/orca".to_string()));
    assert_eq!(first, second);
    assert_eq!(
        config.resolved,
        Some((BrowserDriverKind::Orca, "/custom/orca".to_string()))
    );
}

#[test]
fn first_detection_counts_whatever_is_found_later() {
    let mut config = BrowserDriverConfig::new("worktree", None, "orca");
    let mut found = NOTHING_FOUND.to_vec();
    found[1] = true;
    assert_eq!(config.detect(&None, &found), (BrowserDriverKind::Orca, "orca".to_string()));
    found[0] = true;
    let later = config.detect(&Some("/helper/maho".to_string()), &found);
    assert_eq!(later, (BrowserDriverKind::Orca, "orca".to_string()));
    let fresh = config.detect_uncached(&None, &found);
    assert_eq!(fresh, (BrowserDriverKind::Cmux, "cmux".to_string()));
}

#[test]
fn prompts_are_quoted_as_json() {
    let prompt = "a\"b\\c\u{8}\t\n\u{c}\r\u{1}\u{1f}\u{7f}\u{e9}/";
    let expression = insert_prompt_expression(prompt).unwrap();
    let literal = "\"a\\\"b\\\\c\\b\\t\\n\\f\\r\\u0001\\u001f\u{7f}\u{e9}/\"";
    assert!(expression.contains(literal), "{expression}");
}

#[test]
fn driver_names_are_read_back() {
    for kind in [
        BrowserDriverKind::Maho,
        BrowserDriverKind::Orca,
        BrowserDriverKind::Cmux,
        BrowserDriverKind::AgentBrowser,
        BrowserDriverKind::Aside,
    ] {
        for name in [kind.name(), kind.key()] {
            let written = format!("\u{a0} \t{}\n\u{3000}", name.to_uppercase());
            assert_eq!(BrowserDriverKind::from_name(&written), Ok(kind));
            assert_eq!(written.parse::<BrowserDriverKind>(), Ok(kind));
        }
    }
    assert_eq!(
        BrowserDriverKind::from_name(" FireFox ").unwrap_err(),
        "unsupported browser driver 'firefox'; supported: maho, orca, cmux, agent-browser, aside"
    );
    assert_eq!(
        "Chrome".parse::<BrowserDriverKind>().unwrap_err(),
        "unsupported browser driver 'chrome'; supported: maho, orca, cmux, agent-browser, aside"
    );
}

fn command(success: bool, stdout: &str, stderr: &str) -> CommandOutput {
    CommandOutput {
        program: "/bin/orca".into(),
        shown_args: "[\"tab\", \"list\"]".into(),
        shown_status: "exit status: 1".into(),
        success,
        stdout: stdout.into(),
        stderr: stderr.into(),
    }
}

#[test]
fn command_output_is_text_whatever_its_bytes() {
    let read = CommandOutput::read(
        "/bin/orca",
        "[]".into(),
        "exit status: 0".into(),
        true,
        &vec![b' ', b'{', 0xff, b'}'],
        &vec![b'e'],
    );
    assert_eq!(read.json_text(), "{\u{fffd}}");
    assert_eq!(read.stderr, "e");
    assert!(read.success);
}

#[test]
fn evaluation_failures_are_told() {
    let words = || Json::Text("gone".into());
    let told = |reply: EvalReply| eval_fault(&reply, "\"gone\"");
    assert_eq!(
        told(EvalReply::Failed(words())).as_deref(),
        Some("CDP Runtime.evaluate failed: \"gone\"")
    );
    assert_eq!(
        told(EvalReply::Threw(words())).as_deref(),
        Some("CDP JavaScript exception: \"gone\"")
    );
    assert_eq!(
        told(EvalReply::NoResult).as_deref(),
        Some("CDP Runtime.evaluate returned no result object")
    );
    assert_eq!(told(EvalReply::Unrelated), None);
    assert_eq!(told(EvalReply::Value(words())), None);
    assert_eq!(
        eval_timeout(EvalWait::Connection, "a"),
        "timed out connecting to CDP websocket for a"
    );
    assert_eq!(
        eval_timeout(EvalWait::Request, "a"),
        "timed out sending CDP Runtime.evaluate request for a"
    );
    assert_eq!(
        eval_timeout(EvalWait::Response, "a"),
        "timed out waiting for CDP Runtime.evaluate response for a"
    );
}

#[test]
fn command_replies_are_read() {
    let good = command(true, "\n {\"ok\":true} \n", "noise");
    assert_eq!(good.json_text(), "{\"ok\":true}");
    let value = json(&good.json_text());
    assert_eq!(parse_command_json(&good, Some(value)).unwrap(), json("{\"ok\":true}"));
    let bare = command(true, " oops ", "noise");
    assert_eq!(
        parse_command_json(&bare, None).unwrap_err(),
        "command /bin/orca returned invalid JSON: oops"
    );
    let failed = command(false, " {} \n", " gone\n");
    assert_eq!(
        parse_command_json(&failed, Some(json("{}"))).unwrap_err(),
        "command /bin/orca [\"tab\", \"list\"] failed (exit status: 1): {} gone"
    );
}

#[test]
fn retry_button_is_clicked_only_where_it_may_be() {
    let pool = BrowserPool::new(BRIDGE, MOUNT, legacy(), driver(Some("/bin/orca")));
    let mut seen = RetrySeen::nothing();
    assert!(matches!(pool.click_retry(&seen), RetryStep::FindTarget));
    seen.target = Some(Err("no account".into()));
    assert!(matches!(pool.click_retry(&seen), RetryStep::Failed(m) if m == "no account"));

    seen.target = Some(Ok(target(Some("/p"), None)));
    match pool.click_retry(&seen) {
        RetryStep::ClickThrough(config) => assert_eq!(config.binary.as_deref(), Some("/bin/orca")),
        other => panic!("{other:?}"),
    }
    seen.clicked = Some(true);
    assert!(matches!(pool.click_retry(&seen), RetryStep::Done(true)));

    let endpoint = "http://127.0.0.1:9223";
    seen = RetrySeen::nothing();
    seen.target = Some(Ok(target(Some("/p"), Some(endpoint))));
    assert!(matches!(pool.click_retry(&seen), RetryStep::TakeLease));
    seen.lease = Some(Err("held elsewhere".into()));
    seen.reply = Some(Ok(json(r#"{"clicked":true}"#)));
    assert!(matches!(pool.click_retry(&seen), RetryStep::Done(false)));
    seen.lease = Some(Ok(()));
    seen.reply = None;
    assert!(matches!(pool.click_retry(&seen), RetryStep::ClickAt(e) if e == endpoint));
    seen.reply = Some(Ok(json(r#"{"clicked":true}"#)));
    assert!(matches!(pool.click_retry(&seen), RetryStep::Done(true)));
    seen.reply = Some(Ok(json("{}")));
    assert!(matches!(pool.click_retry(&seen), RetryStep::Done(false)));
    seen.reply = Some(Err("page gone".into()));
    assert!(matches!(pool.click_retry(&seen), RetryStep::Failed(m) if m == "page gone"));
}

#[test]
fn cmux_surface_creation_requires_a_surface_reference() {
    let result = shown_reply(r#"{"surface":{"ref":"surface:42"}}"#);
    assert_eq!(cmux_surface_ref(&result).unwrap(), "surface:42");

    let missing_ref = shown_reply(r#"{"surface":{"ref":"browser:42"}}"#);
    assert_eq!(
        cmux_surface_ref(&missing_ref).unwrap_err(),
        r#"cmux browser surface creation returned no surface ref: {"surface":{"ref":"browser:42"}}"#
    );
}

#[test]
fn cmux_active_workspace_uses_the_current_workspace() {
    let args = cmux_new_browser_surface_args("active");
    assert!(!args.iter().any(|argument| argument == "--workspace"));
    assert_eq!(
        args,
        vec![
            "--json",
            "new-surface",
            "--type",
            "browser",
            "--url",
            "https://chatgpt.com",
            "--focus",
            "true",
        ]
    );
}

#[test]
fn cmux_explicit_workspace_is_forwarded_to_surface_creation() {
    let args = cmux_new_browser_surface_args("workspace:7");
    assert_eq!(
        args,
        vec![
            "--json",
            "new-surface",
            "--type",
            "browser",
            "--url",
            "https://chatgpt.com",
            "--workspace",
            "workspace:7",
            "--focus",
            "true",
        ]
    );
}

#[test]
fn cmux_surface_close_uses_its_configured_workspace() {
    assert_eq!(
        cmux_close_surface_args("workspace:7", "surface:43"),
        vec![
            "--json",
            "close-surface",
            "--workspace",
            "workspace:7",
            "--surface",
            "surface:43",
        ]
    );
}

#[test]
fn ui_probe_expression_strictly_excludes_conversation_content() {
    assert!(CHATGPT_UI_PROBE_EXPRESSION.contains("[data-message-author-role]"));
    assert!(CHATGPT_UI_PROBE_EXPRESSION.contains("article"));
    assert!(CHATGPT_UI_PROBE_EXPRESSION.contains("conversation-turn"));
    assert!(CHATGPT_UI_PROBE_EXPRESSION.contains("isConversationRegion"));
    assert!(CHATGPT_UI_PROBE_EXPRESSION.contains("firstVisible"));
    assert!(!CHATGPT_UI_PROBE_EXPRESSION.contains("document.body"));
}

#[test]
fn conversation_limit_text_is_not_a_rate_limit_snapshot_signal() {
    let snapshot = json(
        r#"{
        "ready": true,
        "generating": false,
        "composer_disabled": false,
        "rate_limited": false,
        "rate_limit_reason": null,
        "reset_after_seconds": null,
        "delivery_error": false,
        "delivery_recoverable": false,
        "authentication_required": false,
        "conversation_fixture": "the user prompt contains the word limit and rate limit"
    }"#,
    );
    assert_eq!(classify_chatgpt_ui_snapshot(&snapshot), ChatgptUiCondition::Healthy);
}

#[test]
fn valid_rate_limit_banner_snapshot_is_typed_and_reset_is_validated() {
    let snapshot = json(
        r#"{
        "ready": true,
        "generating": false,
        "composer_disabled": true,
        "rate_limited": true,
        "rate_limit_reason": "usage_limit",
        "reset_after_seconds": 90,
        "delivery_error": false,
        "delivery_recoverable": false,
        "authentication_required": false
    }"#,
    );
    assert_eq!(
        classify_chatgpt_ui_snapshot(&snapshot),
        ChatgptUiCondition::RateLimited {
            reason: ChatgptRateLimitReason::UsageLimit,
            reset_after_seconds: Some(90)
        }
    );

    let invalid_reset = json(&format!(
        r#"{{
        "ready": true,
        "generating": false,
        "rate_limited": true,
        "rate_limit_reason": "too_many_requests",
        "reset_after_seconds": {},
        "delivery_error": false,
        "authentication_required": false
    }}"#,
        MAX_RESET_AFTER_SECONDS + 1
    ));
    assert_eq!(
        classify_chatgpt_ui_snapshot(&invalid_reset),
        ChatgptUiCondition::RateLimited {
            reason: ChatgptRateLimitReason::TooManyRequests,
            reset_after_seconds: None
        }
    );
}

#[test]
fn other_snapshots_are_told_apart() {
    let classify = |text: &str| classify_chatgpt_ui_snapshot(&json(text));
    assert_eq!(
        classify(r#"{"authentication_required":true}"#),
        ChatgptUiCondition::AuthenticationRequired
    );
    assert_eq!(
        classify(r#"{"delivery_error":true,"delivery_recoverable":true}"#),
        ChatgptUiCondition::DeliveryError { recoverable: true }
    );
    assert_eq!(classify(r#"{"generating":true}"#), ChatgptUiCondition::Generating);
    assert_eq!(classify("{}"), ChatgptUiCondition::Unknown);
    assert_eq!(
        classify(r#"{"rate_limited":true,"rate_limit_reason":"other"}"#),
        ChatgptUiCondition::Unknown
    );
}

#[test]
fn drivers_without_dom_eval_return_unsupported_without_running_binary() {
    for driver in [BrowserDriverKind::Maho, BrowserDriverKind::Aside] {
        assert_eq!(
            probe_chatgpt_ui_condition("page-1", Some(driver), None),
            ChatgptUiCondition::Unsupported
        );
    }
    assert_eq!(
        probe_chatgpt_ui_condition("page-1", Some(BrowserDriverKind::Orca), None),
        ChatgptUiCondition::Unknown
    );
}

#[test]
fn reset_validation_rejects_zero_and_unbounded_values() {
    assert_eq!(validate_reset_after_seconds(0), None);
    assert_eq!(validate_reset_after_seconds(1), Some(1));
    assert_eq!(
        validate_reset_after_seconds(MAX_RESET_AFTER_SECONDS),
        Some(MAX_RESET_AFTER_SECONDS)
    );
    assert_eq!(validate_reset_after_seconds(MAX_RESET_AFTER_SECONDS + 1), None);
}

#[test]
fn prompt_json_escapes_properly() {
    let prompt = "test prompt with \"quotes\" and \n newlines";
    let expression = insert_prompt_expression(prompt).unwrap();
    assert!(expression.contains(r#""test prompt with \"quotes\" and \n newlines""#));
    assert!(insert_prompt_expression(" \n ").is_err());
}

#[test]
fn cmux_send_expression_contains_valid_object_braces() {
    assert!(!CHATGPT_SEND_EXPRESSION.contains("{{"));
    assert!(!CHATGPT_SEND_EXPRESSION.contains("}}"));
}

#[test]
fn driver_commands_and_replies() {
    assert_eq!(
        create_tab_args(BrowserDriverKind::Orca, "active", "s"),
        ["tab", "create", "--url", "https://chatgpt.com", "--worktree", "active", "--json"]
    );
    assert_eq!(
        create_tab_args(BrowserDriverKind::AgentBrowser, "active", "s"),
        ["--session", "s", "open", "https://chatgpt.com", "--json"]
    );
    assert_eq!(
        close_page_args(BrowserDriverKind::Orca, "active", "p"),
        ["tab", "close", "--page", "p", "--json"]
    );
    assert_eq!(
        eval_command_args(BrowserDriverKind::Orca, "p", "1+1"),
        ["eval", "--page", "p", "--expression", "1+1", "--json"]
    );
    assert!(orca_page_id(&json("{}")).is_none());
    assert_eq!(decode_eval_value(&Json::Text("x".into()), Some(&Json::Bool(true))), Json::Bool(true));
    assert_eq!(idle_wait_step(Some(false), true), WaitStep::Done);
    assert_eq!(idle_wait_step(Some(true), true), WaitStep::TimedOut);
    assert_eq!(idle_wait_step(None, true), WaitStep::Fail);
    assert_eq!(idle_wait_step(None, false), WaitStep::Again);
    assert_eq!(prompt_wait_step(Some(&Json::Bool(true)), false), WaitStep::Done);
    assert_eq!(prompt_wait_step(None, true), WaitStep::TimedOut);
    assert!(output_fits(0, MAX_COMMAND_OUTPUT_BYTES));
    assert!(!output_fits(1, MAX_COMMAND_OUTPUT_BYTES));
}

fn output(text: &str) -> Result<Json, String> {
    Ok(json(&format!(r#"{{"result":{{"output":"{text}"}}}}"#)))
}

const LIST: &str = r#"{"result":{"terminals":[{"handle":"t1","title":"shell"},{"title":"none"},{"handle":"t2","title":"OMO main"},{"handle":"t3","title":"OpenCode"}]}}"#;

#[test]
fn the_terminal_that_looks_most_like_the_orchestrators_is_taken() {
    let config = BrowserDriverConfig::new("wt", Some("set".into()), "orca");
    let mut survey = TerminalSurvey::nothing();
    assert!(matches!(
        resolve_terminal(&config, None, &survey),
        TerminalStep::Show(t) if t == "set"
    ));
    assert!(matches!(
        resolve_terminal(&config, Some(true), &survey),
        TerminalStep::Found(t) if t == "set"
    ));
    let step = |survey: &TerminalSurvey| resolve_terminal(&config, Some(false), survey);
    assert!(matches!(step(&survey), TerminalStep::List));
    survey.listed = Some(Ok(json("{}")));
    assert!(matches!(
        step(&survey),
        TerminalStep::Failed(e) if e == "terminal list returned no terminals"
    ));
    survey.listed = Some(Ok(json(LIST)));
    assert!(matches!(step(&survey), TerminalStep::Read(t, 60) if t == "t1"));
    survey.outputs.push(output("plain"));
    assert!(matches!(step(&survey), TerminalStep::Read(t, 60) if t == "t2"));
    survey.outputs.push(output("also plain"));
    survey.outputs.push(output("still plain"));
    assert!(matches!(step(&survey), TerminalStep::Found(t) if t == "t3"));
    survey.outputs[0] = output("[GPT2OMO DELEGATION]");
    assert!(matches!(step(&survey), TerminalStep::Found(t) if t == "t1"));
    survey.outputs[1] = Err("gone".into());
    assert!(matches!(step(&survey), TerminalStep::Failed(e) if e == "gone"));
    survey.listed = Some(Ok(json(r#"{"result":{"terminals":[]}}"#)));
    assert!(matches!(
        step(&survey),
        TerminalStep::Failed(e)
            if e == "no active coding orchestrator terminal found in worktree 'wt'"
    ));
}

#[test]
fn the_terminal_that_shows_a_mark_is_taken_first() {
    let config = BrowserDriverConfig::new("wt", None, "orca");
    let nothing = TerminalSurvey::nothing();
    let mut marked = TerminalSurvey::nothing();
    marked.listed = Some(Ok(json(LIST)));
    marked.outputs.push(output("no"));
    let step =
        |marked: &TerminalSurvey| resolve_terminal_for_marker(&config, "mark", marked, None, &nothing);
    assert!(matches!(step(&marked), TerminalStep::Read(t, 40) if t == "t2"));
    marked.outputs.push(output("the mark is here"));
    assert!(matches!(step(&marked), TerminalStep::Found(t) if t == "t2"));
    marked.outputs[1] = output("no");
    marked.outputs.push(output("no"));
    assert!(matches!(step(&marked), TerminalStep::List));
}

#[test]
fn terminal_commands() {
    assert_eq!(terminal_list_args("wt"), ["terminal", "list", "--worktree", "wt", "--json"]);
    assert_eq!(
        terminal_read_args("t", 40),
        ["terminal", "read", "--terminal", "t", "--limit", "40", "--json"]
    );
    assert_eq!(terminal_show_args("t"), ["terminal", "show", "--terminal", "t", "--json"]);
    assert_eq!(
        terminal_send_args("t"),
        ["terminal", "send", "--terminal", "t", "--enter", "--json"]
    );
    assert!(send_prompt(&json(r#"{"ok":true}"#), "").is_ok());
    assert_eq!(send_prompt(&json("{}"), "{}").unwrap_err(), "terminal send failed: {}");
}

fn shown_reply(text: &str) -> ShownReply {
    ShownReply { value: json(text), shown: text.to_string() }
}

#[test]
fn closing_a_page_depends_on_the_driver() {
    let failed: Result<ShownReply, String> = Err("gone".into());
    assert!(close_browser_page(BrowserDriverKind::Orca, &Ok(shown_reply(r#"{"ok":true}"#))).is_ok());
    assert_eq!(
        close_browser_page(BrowserDriverKind::Orca, &Ok(shown_reply(r#"{"ok":false}"#))),
        Err(r#"orca tab close failed: {"ok":false}"#.to_string())
    );
    assert_eq!(close_browser_page(BrowserDriverKind::Orca, &failed), Err("gone".to_string()));
    assert_eq!(close_browser_page(BrowserDriverKind::Cmux, &failed), Err("gone".to_string()));
    assert!(close_browser_page(BrowserDriverKind::Cmux, &Ok(shown_reply("{}"))).is_ok());
    assert!(close_browser_page(BrowserDriverKind::Maho, &failed).is_ok());
    assert!(close_browser_page(BrowserDriverKind::Aside, &failed).is_ok());
}

#[test]
fn expressions_are_evaluated_by_the_driver_or_by_orca() {
    assert_eq!(eval_program(BrowserDriverKind::Cmux, "/bin/cmux", false), Ok("/bin/cmux".into()));
    assert_eq!(eval_program(BrowserDriverKind::Maho, "maho", true), Ok("orca".into()));
    assert_eq!(
        eval_program(BrowserDriverKind::Aside, "aside", false),
        Err("DOM evaluation is unsupported by this browser driver".into())
    );
    let reply = shown_reply(r#"{"value":7}"#);
    assert_eq!(read_eval(BrowserDriverKind::Cmux, &reply), Ok(&Json::Unsigned(7)));
    assert_eq!(
        read_eval(BrowserDriverKind::Orca, &reply),
        Err("orca eval returned no result".to_string())
    );
    assert_eq!(
        read_eval(BrowserDriverKind::Cmux, &shown_reply("{}")),
        Err("cmux browser eval returned no result: {}".to_string())
    );
    assert_eq!(
        read_eval(BrowserDriverKind::Maho, &shown_reply("{}")),
        Err("orca eval compatibility path returned no result".to_string())
    );
}

#[test]
fn looking_at_a_page_needs_its_id_and_a_reply() {
    let live = Ok(json(r#"{"url":"https://chatgpt.com/c/1","ready":true,"title":"T"}"#));
    let probe = verify_chatgpt_page("page-1", &live).unwrap();
    assert_eq!(probe.url, "https://chatgpt.com/c/1");
    assert_eq!(probe.title, "T");
    assert!(!probe.generating);
    assert_eq!(
        verify_chatgpt_page("  ", &live).unwrap_err(),
        "browser_page_id cannot be empty"
    );
    assert_eq!(
        verify_chatgpt_page("page-1", &Err("no reply".to_string())).unwrap_err(),
        "no reply"
    );
}

#[test]
fn opening_a_tab_waits_for_its_prompt_box() {
    let mut seen = TabSeen::nothing();
    let next = |seen: &TabSeen| create_chatgpt_tab(BrowserDriverKind::Orca, "active", "id", seen);
    assert!(matches!(next(&seen), TabStep::Run(args) if args[1] == "create"));
    seen.reply = Some(Ok(shown_reply(r#"{"result":{"browserPageId":"p1"}}"#)));
    assert!(matches!(next(&seen), TabStep::AwaitPrompt(page) if page == "p1"));
    seen.ready = Some(Ok(()));
    assert!(matches!(next(&seen), TabStep::Opened(page) if page == "p1"));
    seen.ready = Some(Err("no prompt".into()));
    assert!(matches!(next(&seen), TabStep::Close(page) if page == "p1"));
    seen.closed = true;
    assert!(matches!(next(&seen), TabStep::Failed(error) if error == "no prompt"));
    seen.reply = Some(Ok(shown_reply("{}")));
    assert!(matches!(
        next(&seen),
        TabStep::Failed(error) if error == "orca tab create returned no browserPageId: {}"
    ));
}

#[test]
fn a_failing_maho_gives_way_to_orca() {
    let mut seen = TabSeen::nothing();
    let next = |seen: &TabSeen| create_chatgpt_tab(BrowserDriverKind::Maho, "active", "id", seen);
    assert!(matches!(next(&seen), TabStep::Run(args) if args[1] == "new"));
    seen.reply = Some(Err("no maho".into()));
    assert!(matches!(next(&seen), TabStep::LookForOrca));
    seen.orca = Some(false);
    assert!(matches!(next(&seen), TabStep::AwaitPrompt(page) if page == "id"));
    seen.orca = Some(true);
    assert!(matches!(next(&seen), TabStep::RunOrca(args) if args[1] == "create"));
    seen.orca_reply = Some(Err("no orca".into()));
    assert!(matches!(next(&seen), TabStep::Failed(error) if error == "no orca"));
    seen.reply = Some(Ok(shown_reply(r#"{"result":{"tab":{"id":12}}}"#)));
    assert!(matches!(next(&seen), TabStep::AwaitPrompt(page) if page == "12"));
}

#[test]
fn sessions_are_named_by_a_fresh_id() {
    let mut seen = TabSeen::nothing();
    seen.reply = Some(Err("no browser".into()));
    assert!(matches!(
        create_chatgpt_tab(BrowserDriverKind::Aside, "active", "id", &seen),
        TabStep::Opened(page) if page == "chatgpt-id"
    ));
    assert!(matches!(
        create_chatgpt_tab(BrowserDriverKind::AgentBrowser, "active", "id", &seen),
        TabStep::Failed(error) if error == "no browser"
    ));
    let id = fresh_tab_id();
    assert_eq!(id.len(), 36);
    assert_ne!(id, fresh_tab_id());
}

#[test]
fn a_page_behind_an_endpoint_needs_the_lease_of_its_profile() {
    let (_, pool) = pool_with_config(
        r#"{"version":1,"accounts":[{"id":"a","browser":{"instance":"ia"}}]}"#,
    );
    let mut seen = ReachSeen::nothing();
    assert!(matches!(pool.reach(&seen), ReachStep::FindTarget));
    seen.target = Some(Err("no such account".into()));
    assert!(matches!(pool.reach(&seen), ReachStep::Failed(e) if e == "no such account"));
    seen.target = Some(Ok(target(Some("/p"), Some("http://127.0.0.1:9223"))));
    assert!(matches!(pool.reach(&seen), ReachStep::TakeLease));
    seen.lease = Some(Err("leased elsewhere".into()));
    assert!(matches!(pool.reach(&seen), ReachStep::Failed(e) if e == "leased elsewhere"));
    seen.lease = Some(Ok(()));
    assert!(matches!(
        pool.reach(&seen),
        ReachStep::Through(PageRoute::Endpoint(e)) if e == "http://127.0.0.1:9223"
    ));
    seen.target = Some(Ok(target(None, None)));
    seen.lease = None;
    assert!(matches!(pool.reach(&seen), ReachStep::Through(PageRoute::Driver(_))));
}

#[test]
fn driver_options_and_views_have_their_defaults() {
    let plain = BrowserDriverConfig::orca_legacy("active", None, "orca");
    assert_eq!(plain.driver, None);
    assert_eq!(plain.binary, None);
    let other = BrowserDriverConfig::orca_legacy("w", Some("t".into()), "/bin/orca");
    assert_eq!(other.binary.as_deref(), Some("/bin/orca"));
    assert_eq!(other.worktree, "w");
    assert_eq!(other.terminal.as_deref(), Some("t"));

    let seen = account_inspection(ChatgptUiCondition::Healthy);
    assert_eq!(seen.title, "ChatGPT");
    assert!(matches!(seen.condition, ChatgptUiCondition::Healthy));
    assert!(seen.composer_visible && !seen.composer_disabled && !seen.generating);
    assert_eq!(seen.turn_count, 0);
    assert!(seen.alerts.is_empty());
}
