use gpt2omo::account_diagnostics::{
    build_account_diagnostic, can_recover_legacy_cmux_auth, AccountRoutingState,
};
use gpt2omo::account_state::{
    AccountHealth, AccountReservation, AccountRuntimeState, AccountStateStore, RouterRuntimeState,
    StoredAccount,
};
use gpt2omo::accounts::{
    load_accounts_config, normalize_absolute, parse_accounts_config, validate_account_id,
    validate_loopback_endpoint, AccountConfig, AccountDefaults, AccountLimits, AccountsConfig,
    AccountsFile, BrowserInstanceConfig, CooldownConfig, LegacyAccountConfig,
    PartialAccountLimits, ProfileFacts, RawAccountConfig, RoutingConfig, RoutingStrategy,
    LEGACY_ACCOUNT_ID,
};
use gpt2omo::browser_pool::{BrowserHealth, BrowserLoginState, BrowserReachability};
use gpt2omo::error::BridgeError;
use gpt2omo::json::Json;
use gpt2omo::orca::BrowserDriverKind;
use gpt2omo::router::{AccountCount, WorkerLoad};
use serde_json::Value;

const BRIDGE: &str = "/root-dir/control/bridge";
const MOUNT: &str = "/root-dir/workspaces";

fn value_of(j: &Json) -> Value {
    match j {
        Json::Null => Value::Null,
        Json::Bool(b) => Value::Bool(*b),
        Json::Unsigned(u) => Value::from(*u),
        Json::Negative(i) => Value::from(*i),
        Json::Decimal(s) => serde_json::from_str(s).unwrap(),
        Json::Text(s) => Value::from(s.as_str()),
        Json::Array(a) => Value::Array(a.iter().map(value_of).collect()),
        Json::Object(o) => {
            Value::Object(o.iter().map(|f| (f.key.clone(), value_of(&f.value))).collect())
        }
    }
}

fn number(v: Option<&Value>, other: u64) -> u64 {
    v.and_then(Value::as_u64).unwrap_or(other)
}

fn text(v: Option<&Value>) -> Option<String> {
    v.and_then(Value::as_str).map(str::to_string)
}

fn limits_of(v: Option<&Value>) -> AccountLimits {
    let d = AccountLimits::default();
    match v {
        None => d,
        Some(v) => AccountLimits {
            window_seconds: number(v.get("window_seconds"), d.window_seconds),
            max_dispatches: number(v.get("max_dispatches"), d.max_dispatches as u64) as usize,
            max_active_workers: number(v.get("max_active_workers"), d.max_active_workers as u64)
                as usize,
        },
    }
}

fn accounts_file(content: &str) -> AccountsFile {
    let v: Value = serde_json::from_str(content).unwrap();
    let routing = match v.get("routing") {
        None => RoutingConfig::default(),
        Some(r) => {
            let d = RoutingConfig::default();
            RoutingConfig {
                strategy: match r.get("strategy").and_then(Value::as_str) {
                    Some("least_loaded") => RoutingStrategy::LeastLoaded,
                    _ => RoutingStrategy::RoundRobin,
                },
                reservation_ttl_seconds: number(
                    r.get("reservation_ttl_seconds"),
                    d.reservation_ttl_seconds,
                ),
                selection_failure_backoff_seconds: number(
                    r.get("selection_failure_backoff_seconds"),
                    d.selection_failure_backoff_seconds,
                ),
            }
        }
    };
    let defaults = v.get("defaults");
    let c = CooldownConfig::default();
    let cooldown = match defaults.and_then(|d| d.get("cooldown")) {
        None => c,
        Some(x) => CooldownConfig {
            unknown_rate_limit_seconds: number(
                x.get("unknown_rate_limit_seconds"),
                c.unknown_rate_limit_seconds,
            ),
            delivery_failure_seconds: number(
                x.get("delivery_failure_seconds"),
                c.delivery_failure_seconds,
            ),
        },
    };
    let accounts = v["accounts"]
        .as_array()
        .unwrap()
        .iter()
        .map(|a| RawAccountConfig {
            id: text(a.get("id")).unwrap(),
            enabled: a.get("enabled").and_then(Value::as_bool).unwrap_or(true),
            draining: a.get("draining").and_then(Value::as_bool).unwrap_or(false),
            limits: match a.get("limits") {
                None => PartialAccountLimits::default(),
                Some(l) => PartialAccountLimits {
                    window_seconds: l.get("window_seconds").and_then(Value::as_u64),
                    max_dispatches: l
                        .get("max_dispatches")
                        .and_then(Value::as_u64)
                        .map(|n| n as usize),
                    max_active_workers: l
                        .get("max_active_workers")
                        .and_then(Value::as_u64)
                        .map(|n| n as usize),
                },
            },
            browser: BrowserInstanceConfig {
                driver: text(a["browser"].get("driver"))
                    .map(|d| BrowserDriverKind::from_name(&d).unwrap()),
                instance: text(a["browser"].get("instance")).unwrap(),
                user_data_dir: text(a["browser"].get("user_data_dir")),
                cdp_endpoint: text(a["browser"].get("cdp_endpoint")),
                worktree: text(a["browser"].get("worktree")).unwrap_or("active".to_string()),
            },
        })
        .collect();
    AccountsFile {
        version: v["version"].as_u64().unwrap() as u32,
        routing,
        defaults: AccountDefaults { limits: limits_of(defaults.and_then(|d| d.get("limits"))), cooldown },
        accounts,
    }
}

/// What a file system without links says of the profiles.
fn facts_of(file: &AccountsFile, bridge: &str, mount: &str) -> Vec<ProfileFacts> {
    file.accounts
        .iter()
        .map(|a| ProfileFacts {
            bridge_real: Ok(bridge.to_string()),
            profile_real: Ok(a.browser.user_data_dir.clone().unwrap_or_default()),
            relative_mount: Err("the mount root is absolute".to_string()),
            mount_real: Some(mount.to_string()),
        })
        .collect()
}

fn parse(content: &str, bridge: &str, mount: &str) -> Result<AccountsConfig, BridgeError> {
    let file = accounts_file(content);
    let facts = facts_of(&file, bridge, mount);
    parse_accounts_config(&file, bridge, mount, &facts)
}

fn profile(bridge: &str, id: &str) -> String {
    format!("{bridge}/browser-profiles/{id}")
}

fn account() -> AccountConfig {
    AccountConfig {
        id: "alpha".into(),
        enabled: true,
        draining: false,
        limits: AccountLimits {
            window_seconds: 10,
            max_dispatches: 2,
            max_active_workers: 2,
        },
        browser: BrowserInstanceConfig {
            driver: Some(BrowserDriverKind::Orca),
            instance: "alpha-browser".into(),
            user_data_dir: None,
            cdp_endpoint: None,
            worktree: "active".into(),
        },
    }
}

fn browser() -> BrowserHealth {
    BrowserHealth {
        account_id: "alpha".into(),
        instance: "alpha-browser".into(),
        driver: Some(BrowserDriverKind::Orca),
        reachability: BrowserReachability::Reachable,
        login_state: BrowserLoginState::Ready,
        login_required: false,
        detail: Some("this field must not enter diagnostics".into()),
    }
}

fn load(workers: usize, scopes: Vec<String>) -> WorkerLoad {
    WorkerLoad {
        counts: vec![AccountCount { account_id: "alpha".into(), workers }],
        scope_ids: Some(scopes),
    }
}

fn no_load() -> WorkerLoad {
    WorkerLoad { counts: vec![], scope_ids: Some(vec![]) }
}

#[test]
fn only_reachable_unknown_cmux_health_recovers_stale_auth() {
    let cmux_unknown = BrowserHealth {
        driver: Some(BrowserDriverKind::Cmux),
        login_state: BrowserLoginState::Unknown,
        ..browser()
    };
    assert!(can_recover_legacy_cmux_auth(&cmux_unknown));

    let cmux_unreachable = BrowserHealth {
        reachability: BrowserReachability::Unreachable,
        ..cmux_unknown.clone()
    };
    assert!(!can_recover_legacy_cmux_auth(&cmux_unreachable));

    let explicit_auth_required = BrowserHealth {
        login_state: BrowserLoginState::AuthenticationRequired,
        ..cmux_unknown
    };
    assert!(!can_recover_legacy_cmux_auth(&explicit_auth_required));

    let orca_unknown = BrowserHealth {
        login_state: BrowserLoginState::Unknown,
        ..browser()
    };
    assert!(!can_recover_legacy_cmux_auth(&orca_unknown));
}

#[test]
fn report_contains_capacity_without_scope_page_or_secret_material() {
    let mut state = AccountRuntimeState::new("alpha");
    state.dispatches_ms.push(1_000);
    state.reservations.push(AccountReservation {
        reservation_id: "reservation-secret".into(),
        scope_id: Some("scope-secret".into()),
        created_ms: 2_000,
        expires_ms: 5_000,
    });
    let live = load(1, vec!["scope-secret".into()]);

    let diagnostic = build_account_diagnostic(&account(), &state, &browser(), &live, 2_500);
    assert_eq!(diagnostic.active_workers, 1);
    assert_eq!(diagnostic.reserved_workers, 0);
    assert_eq!(diagnostic.reserved_dispatches, 1);
    let json = value_of(&diagnostic.to_json()).to_string();
    assert!(json.contains("\"browser_instance\":\"alpha-browser\""));
    for forbidden in [
        "scope_id",
        "scope-secret",
        "page_id",
        "cdp_endpoint",
        "user_data_dir",
        "reservation-secret",
        "cookie",
        "email",
        "token",
        "this field must not enter diagnostics",
    ] {
        assert!(!json.contains(forbidden), "diagnostics leaked {forbidden}");
    }
}

#[test]
fn next_slot_is_maximum_of_current_blocking_gate_release_times() {
    let mut state = AccountRuntimeState::new("alpha");
    state.dispatches_ms.extend([1_000, 2_000]);
    state.cooldown_until_ms = Some(15_000);
    state.cooldown_reason = Some("capacity".into());
    let diagnostic = build_account_diagnostic(&account(), &state, &browser(), &no_load(), 5_000);
    assert_eq!(diagnostic.routing_state, AccountRoutingState::Cooldown);
    // Window first frees at 11s, but cooldown is the later blocking gate.
    assert_eq!(diagnostic.next_slot_ms, Some(15_000));
}

#[test]
fn active_live_worker_saturation_has_no_invented_completion_time() {
    let diagnostic = build_account_diagnostic(
        &account(),
        &AccountRuntimeState::new("alpha"),
        &browser(),
        &load(2, vec![]),
        1_000,
    );
    assert_eq!(diagnostic.routing_state, AccountRoutingState::ActiveWorkersFull);
    assert_eq!(diagnostic.next_slot_ms, None);
}

#[test]
fn diagnostic_of_an_idle_account_is_ready_now() {
    let diagnostic = build_account_diagnostic(
        &account(),
        &AccountRuntimeState::new("alpha"),
        &browser(),
        &no_load(),
        1_000,
    );
    assert_eq!(diagnostic.routing_state, AccountRoutingState::Ready);
    assert_eq!(diagnostic.next_slot_ms, None);
    let value = value_of(&diagnostic.to_json());
    assert_eq!(value["routing_state"], "ready");
    assert_eq!(value["scheduler_health"], "ready");
    assert_eq!(value["browser_reachability"], "reachable");
    assert_eq!(value["browser_login_state"], "ready");
    assert_eq!(value.get("cooldown_reason"), None);
}

#[test]
fn reconcile_expires_window_boundary_reservations_and_cooldown() {
    let mut state = AccountRuntimeState::new("web-a");
    state.dispatches_ms = vec![899, 900, 901, 1_100];
    state.reservations = vec![
        AccountReservation {
            reservation_id: "expired".into(),
            scope_id: None,
            created_ms: 900,
            expires_ms: 1_000,
        },
        AccountReservation {
            reservation_id: "live".into(),
            scope_id: None,
            created_ms: 999,
            expires_ms: 1_001,
        },
    ];
    state.cooldown_until_ms = Some(1_000);
    state.cooldown_reason = Some("rate_limit".into());

    state.reconcile(1_000, 100);
    assert_eq!(state.dispatches_ms, vec![901, 1_100]);
    assert_eq!(state.reservations.len(), 1);
    assert_eq!(state.reservations[0].reservation_id, "live");
    assert_eq!(state.cooldown_until_ms, None);
    assert_eq!(state.cooldown_reason, None);
}

#[test]
fn reconciling_twice_is_reconciling_once() {
    let mut state = AccountRuntimeState::new("web-a");
    state.dispatches_ms = vec![899, 900, 901, 1_100];
    state.cooldown_until_ms = Some(2_000);
    state.reconcile(1_000, 100);
    let once = state.copy();
    state.reconcile(1_000, 100);
    assert_eq!(state.dispatches_ms, once.dispatches_ms);
    assert_eq!(state.cooldown_until_ms, Some(2_000));
    assert_eq!(state.retry_after_window_ms(100), Some(1_001));
}

#[test]
fn state_round_trips_and_corruption_fails_closed() {
    let mut store = AccountStateStore::new("/bridge");
    let mut state = AccountRuntimeState::new("web-a");
    state.dispatches_ms.push(42);
    state.cooldown_until_ms = Some(100);
    store.save_account(&state).unwrap();
    let loaded = store.load_account("web-a").unwrap();
    assert_eq!(loaded.account_id, "web-a");
    assert_eq!(loaded.dispatches_ms, vec![42]);
    assert_eq!(loaded.cooldown_until_ms, Some(100));
    assert_eq!(store.account_state_path("web-a"), "/bridge/account-state/web-a.json");

    store.accounts[0].state.version = 99;
    assert!(store.load_account("web-a").is_err());
    store.accounts = vec![StoredAccount {
        file_id: "web-a".into(),
        state: AccountRuntimeState::new("web-b"),
    }];
    assert!(store.load_account("web-a").is_err());
}

#[test]
fn state_account_id_cannot_escape_state_directory() {
    let store = AccountStateStore::new("/bridge");
    assert!(store.load_account("../escape").is_err());
    assert!(store.load_account("").is_err());
    assert!(store.load_account("web-a").is_ok());
}

#[test]
fn router_state_round_trips() {
    let mut store = AccountStateStore::new("/bridge");
    assert_eq!(store.load_router().unwrap(), RouterRuntimeState::default());
    let state = RouterRuntimeState { round_robin_cursor: 3, ..RouterRuntimeState::default() };
    store.save_router(&state).unwrap();
    assert_eq!(store.load_router().unwrap(), state);
    store.router = Some(RouterRuntimeState { version: 99, ..state });
    assert!(store.load_router().is_err());
}

#[test]
fn removing_a_reservation_returns_it() {
    let mut state = AccountRuntimeState::new("web-a");
    state.reservations.push(AccountReservation {
        reservation_id: "r".into(),
        scope_id: None,
        created_ms: 1,
        expires_ms: 2,
    });
    assert!(state.remove_reservation("other").is_none());
    assert_eq!(state.reserved(), 1);
    assert_eq!(state.remove_reservation("r").unwrap().expires_ms, 2);
    assert_eq!(state.reserved(), 0);
    assert_eq!(state.health, AccountHealth::Ready);
    assert_eq!(state.window_used(), 0);
}

#[test]
fn missing_accounts_file_synthesizes_legacy_default() {
    let legacy = LegacyAccountConfig {
        limits: AccountLimits {
            window_seconds: 120,
            max_dispatches: 7,
            max_active_workers: 2,
        },
        browser: BrowserInstanceConfig::legacy("legacy-worktree"),
        ..LegacyAccountConfig::default()
    };
    let config = load_accounts_config(None, BRIDGE, MOUNT, &vec![], legacy).unwrap();
    assert!(config.legacy_fallback);
    assert_eq!(config.accounts.len(), 1);
    assert_eq!(config.accounts[0].id, LEGACY_ACCOUNT_ID);
    assert_eq!(config.accounts[0].limits.max_dispatches, 7);
    assert_eq!(config.accounts[0].browser.worktree, "legacy-worktree");
}

#[test]
fn parses_inheritance_and_account_limit_overrides() {
    let json = format!(
        r#"{{
          "version": 1,
          "routing": {{"strategy":"least_loaded","reservation_ttl_seconds":45,"selection_failure_backoff_seconds":5}},
          "defaults": {{
            "limits": {{"window_seconds":600,"max_dispatches":10,"max_active_workers":4}},
            "cooldown": {{"unknown_rate_limit_seconds":90,"delivery_failure_seconds":11}}
          }},
          "accounts": [
            {{"id":"web-a","enabled":true,"limits":{{"max_dispatches":3}},"browser":{{"driver":"orca","instance":"a","user_data_dir":"{}","cdp_endpoint":"http://127.0.0.1:9223","worktree":"active"}}}},
            {{"id":"web-b","browser":{{"driver":"orca","instance":"b","user_data_dir":"{}","cdp_endpoint":"http://[::1]:9224"}}}}
          ]
        }}"#,
        profile(BRIDGE, "a"),
        profile(BRIDGE, "b")
    );
    let config = parse(&json, BRIDGE, MOUNT).unwrap();
    assert!(!config.legacy_fallback);
    assert_eq!(config.routing.strategy, RoutingStrategy::LeastLoaded);
    assert_eq!(config.accounts[0].limits.max_dispatches, 3);
    assert_eq!(config.accounts[0].limits.window_seconds, 600);
    assert_eq!(config.accounts[1].limits.max_dispatches, 10);
    assert_eq!(config.accounts[1].browser.worktree, "active");
}

#[test]
fn parses_explicit_draining_state_without_disabling_retained_configuration() {
    let bridge = "/root-dir/bridge";
    let mount = "/root-dir/mount";
    let profile = "/root-dir/bridge/browser-profiles/a";
    let config = parse(
        &format!(
            r#"{{"version":1,"accounts":[{{"id":"a","enabled":true,"draining":true,"browser":{{"instance":"a","user_data_dir":"{profile}","cdp_endpoint":"http://127.0.0.1:9223"}}}}]}}"#
        ),
        bridge,
        mount,
    )
    .unwrap();
    assert!(config.accounts[0].enabled);
    assert!(config.accounts[0].draining);
}

#[test]
fn rejects_duplicate_ids_and_zero_limits() {
    let duplicate = r#"{
      "version":1,
      "accounts":[
        {"id":"a","browser":{"instance":"one"}},
        {"id":"a","browser":{"instance":"two"}}
      ]
    }"#;
    assert!(parse(duplicate, BRIDGE, MOUNT)
        .unwrap_err()
        .message()
        .contains("duplicate account id"));

    let zero = r#"{
      "version":1,
      "defaults":{"limits":{"window_seconds":3600,"max_dispatches":0,"max_active_workers":1}},
      "accounts":[{"id":"a","browser":{"instance":"one"}}]
    }"#;
    assert!(parse(zero, BRIDGE, MOUNT).unwrap_err().message().contains("max_dispatches"));
}

#[test]
fn rejects_non_loopback_and_duplicate_enabled_browser_targets() {
    let remote = r#"{
      "version":1,
      "accounts":[{"id":"a","browser":{"instance":"one","cdp_endpoint":"http://192.0.2.1:9222"}}]
    }"#;
    assert!(parse(remote, BRIDGE, MOUNT).unwrap_err().message().contains("loopback-only"));

    let duplicate = r#"{
      "version":1,
      "accounts":[
        {"id":"a","browser":{"instance":"same","cdp_endpoint":"http://127.0.0.1:9222"}},
        {"id":"b","browser":{"instance":"same","cdp_endpoint":"http://127.0.0.1:9222"}}
      ]
    }"#;
    assert!(parse(duplicate, BRIDGE, MOUNT)
        .unwrap_err()
        .message()
        .contains("reuses browser.instance"));
}

#[test]
fn rejects_profile_outside_control_dir_or_inside_mount() {
    let outside_json = r#"{"version":1,"accounts":[{"id":"a","browser":{"instance":"a","user_data_dir":"/root-dir/outside-profile"}}]}"#;
    assert!(parse(outside_json, BRIDGE, MOUNT)
        .unwrap_err()
        .message()
        .contains("inside bridge control directory"));

    let nested_bridge = "/root-dir/workspaces/bridge";
    let nested_json = r#"{"version":1,"accounts":[{"id":"a","browser":{"instance":"a","user_data_dir":"/root-dir/workspaces/bridge/profiles/a"}}]}"#;
    assert!(parse(nested_json, nested_bridge, MOUNT)
        .unwrap_err()
        .message()
        .contains("outside delegated mount root"));
}

#[test]
fn rejects_unknown_versions_and_empty_files() {
    assert!(parse(r#"{"version":2,"accounts":[]}"#, BRIDGE, MOUNT).is_err());
    assert!(parse(r#"{"version":1,"accounts":[]}"#, BRIDGE, MOUNT).is_err());
}

#[test]
fn endpoints_are_loopback_and_plain() {
    assert!(validate_loopback_endpoint("a", "http://127.0.0.1:9222").is_ok());
    assert!(validate_loopback_endpoint("a", "http://localhost:9222").is_ok());
    assert!(validate_loopback_endpoint("a", "http://[::1]:9222").is_ok());
    assert!(validate_loopback_endpoint("a", "http://192.0.2.1:9222").is_err());
    assert!(validate_loopback_endpoint("a", "http://user@127.0.0.1:9222").is_err());
    assert!(validate_loopback_endpoint("a", "ftp://127.0.0.1:9222").is_err());
    assert!(validate_loopback_endpoint("a", "not a url").is_err());
}

#[test]
fn absolute_paths_are_normalized() {
    assert_eq!(normalize_absolute("/a/./b//c").unwrap(), "/a/b/c");
    assert!(normalize_absolute("/a/../c").is_err());
    assert!(normalize_absolute("a/b").is_err());
}

#[test]
fn account_ids_are_plain_names() {
    assert!(validate_account_id("web-a_1").is_ok());
    assert!(validate_account_id("").is_err());
    assert!(validate_account_id("../escape").is_err());
}
