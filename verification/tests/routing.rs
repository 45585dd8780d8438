use gpt2omo::accounts::{
    load_accounts_config, parse_accounts_config, AccountDefaults, AccountLimits, AccountsConfig,
    AccountsFile, BrowserInstanceConfig, CooldownConfig, LegacyAccountConfig,
    PartialAccountLimits, ProfileFacts, RawAccountConfig, RoutingConfig, RoutingStrategy,
};
use gpt2omo::account_diagnostics::{
    collect_account_diagnostics, recover_stale_account_health, stale_accounts,
};
use gpt2omo::account_state::{
    AccountHealth, AccountReservation, AccountRuntimeState, StoredAccount,
};
use gpt2omo::browser_pool::{BrowserHealth, BrowserLoginState, BrowserReachability};
use gpt2omo::orca::BrowserDriverKind;
use gpt2omo::router::{
    count_active_workers_by_account, AccountCount, AccountRouter, LockProbe, RouterError,
    ScopeActivity, WorkerLoad,
};
use serde_json::Value;

const BRIDGE: &str = "/root-dir/bridge";
const MOUNT: &str = "/root-dir/mount";

fn number(v: Option<&Value>, other: u64) -> u64 {
    v.and_then(Value::as_u64).unwrap_or(other)
}

fn text(v: Option<&Value>) -> Option<String> {
    v.and_then(Value::as_str).map(str::to_string)
}

fn limits_of(v: Option<&Value>) -> AccountLimits {
    let d = AccountLimits::default();
    match v {
        None => d,
        Some(v) => AccountLimits {
            window_seconds: number(v.get("window_seconds"), d.window_seconds),
            max_dispatches: number(v.get("max_dispatches"), d.max_dispatches as u64) as usize,
            max_active_workers: number(v.get("max_active_workers"), d.max_active_workers as u64)
                as usize,
        },
    }
}

fn accounts_file(content: &str) -> AccountsFile {
    let v: Value = serde_json::from_str(content).unwrap();
    let routing = match v.get("routing") {
        None => RoutingConfig::default(),
        Some(r) => {
            let d = RoutingConfig::default();
            RoutingConfig {
                strategy: match r.get("strategy").and_then(Value::as_str) {
                    Some("least_loaded") => RoutingStrategy::LeastLoaded,
                    _ => RoutingStrategy::RoundRobin,
                },
                reservation_ttl_seconds: number(
                    r.get("reservation_ttl_seconds"),
                    d.reservation_ttl_seconds,
                ),
                selection_failure_backoff_seconds: number(
                    r.get("selection_failure_backoff_seconds"),
                    d.selection_failure_backoff_seconds,
                ),
            }
        }
    };
    let defaults = v.get("defaults");
    let c = CooldownConfig::default();
    let cooldown = match defaults.and_then(|d| d.get("cooldown")) {
        None => c,
        Some(x) => CooldownConfig {
            unknown_rate_limit_seconds: number(
                x.get("unknown_rate_limit_seconds"),
                c.unknown_rate_limit_seconds,
            ),
            delivery_failure_seconds: number(
                x.get("delivery_failure_seconds"),
                c.delivery_failure_seconds,
            ),
        },
    };
    let accounts = v["accounts"]
        .as_array()
        .unwrap()
        .iter()
        .map(|a| RawAccountConfig {
            id: text(a.get("id")).unwrap(),
            enabled: a.get("enabled").and_then(Value::as_bool).unwrap_or(true),
            draining: a.get("draining").and_then(Value::as_bool).unwrap_or(false),
            limits: match a.get("limits") {
                None => PartialAccountLimits::default(),
                Some(l) => PartialAccountLimits {
                    window_seconds: l.get("window_seconds").and_then(Value::as_u64),
                    max_dispatches: l
                        .get("max_dispatches")
                        .and_then(Value::as_u64)
                        .map(|n| n as usize),
                    max_active_workers: l
                        .get("max_active_workers")
                        .and_then(Value::as_u64)
                        .map(|n| n as usize),
                },
            },
            browser: BrowserInstanceConfig {
                driver: text(a["browser"].get("driver"))
                    .map(|d| BrowserDriverKind::from_name(&d).unwrap()),
                instance: text(a["browser"].get("instance")).unwrap(),
                user_data_dir: text(a["browser"].get("user_data_dir")),
                cdp_endpoint: text(a["browser"].get("cdp_endpoint")),
                worktree: text(a["browser"].get("worktree")).unwrap_or("active".to_string()),
            },
        })
        .collect();
    AccountsFile {
        version: v["version"].as_u64().unwrap() as u32,
        routing,
        defaults: AccountDefaults { limits: limits_of(defaults.and_then(|d| d.get("limits"))), cooldown },
        accounts,
    }
}

/// What a file system without links says of the profiles.
fn facts_of(file: &AccountsFile, bridge: &str, mount: &str) -> Vec<ProfileFacts> {
    file.accounts
        .iter()
        .map(|a| ProfileFacts {
            bridge_real: Ok(bridge.to_string()),
            profile_real: Ok(a.browser.user_data_dir.clone().unwrap_or_default()),
            relative_mount: Err("the mount root is absolute".to_string()),
            mount_real: Some(mount.to_string()),
        })
        .collect()
}

fn setup_router(strategy: RoutingStrategy, accounts_json: &str) -> (AccountsConfig, AccountRouter) {
    let content = accounts_json.replace(
        "__STRATEGY__",
        match strategy {
            RoutingStrategy::RoundRobin => "round_robin",
            RoutingStrategy::LeastLoaded => "least_loaded",
        },
    );
    let file = accounts_file(&content);
    let facts = facts_of(&file, BRIDGE, MOUNT);
    let config = parse_accounts_config(&file, BRIDGE, MOUNT, &facts).unwrap();
    (config, AccountRouter::new(BRIDGE, MOUNT, LegacyAccountConfig::default()))
}

fn two_accounts_json() -> &'static str {
    r#"{
      "version":1,
      "routing":{"strategy":"__STRATEGY__","reservation_ttl_seconds":10,"selection_failure_backoff_seconds":5},
      "defaults":{"limits":{"window_seconds":100,"max_dispatches":10,"max_active_workers":3}},
      "accounts":[
        {"id":"a","browser":{"instance":"instance-a"}},
        {"id":"b","browser":{"instance":"instance-b"}}
      ]
    }"#
}

fn only_account_json(ttl: u64) -> String {
    format!(
        r#"{{
      "version":1,
      "routing":{{"strategy":"round_robin","reservation_ttl_seconds":{ttl},"selection_failure_backoff_seconds":5}},
      "defaults":{{"limits":{{"window_seconds":100,"max_dispatches":1,"max_active_workers":1}}}},
      "accounts":[{{"id":"only","browser":{{"instance":"only-instance"}}}}]
    }}"#
    )
}

fn idle() -> WorkerLoad {
    WorkerLoad::idle()
}

#[test]
fn round_robin_advances_after_selected_account_even_when_skipping() {
    let (config, mut router) = setup_router(RoutingStrategy::RoundRobin, two_accounts_json());
    let first = router.reserve_one(&config, &idle(), 1_000).unwrap();
    let second = router.reserve_one(&config, &idle(), 1_001).unwrap();
    assert_eq!(first.account.id, "a");
    assert_eq!(second.account.id, "b");
    router.release(&config, &first, 1_002).unwrap();
    router.release(&config, &second, 1_002).unwrap();
    let third = router.reserve_one(&config, &idle(), 1_003).unwrap();
    assert_eq!(third.account.id, "a");
}

#[test]
fn least_loaded_uses_active_ratio_then_window_ratio() {
    let (config, mut router) = setup_router(RoutingStrategy::LeastLoaded, two_accounts_json());
    let active = WorkerLoad {
        counts: vec![
            AccountCount { account_id: "a".to_string(), workers: 1 },
            AccountCount { account_id: "b".to_string(), workers: 0 },
        ],
        scope_ids: None,
    };
    let selected = router.reserve_one(&config, &active, 1_000).unwrap();
    assert_eq!(selected.account.id, "b");
    router.release(&config, &selected, 1_001).unwrap();

    let mut a = router.store.load_account("a").unwrap();
    let mut b = router.store.load_account("b").unwrap();
    a.dispatches_ms = vec![950];
    b.dispatches_ms = vec![951, 952, 953, 954, 955];
    router.store.save_account(&a).unwrap();
    router.store.save_account(&b).unwrap();

    let selected = router.reserve_one(&config, &idle(), 1_010).unwrap();
    assert_eq!(selected.account.id, "a");
}

#[test]
fn reservations_prevent_concurrent_overbooking() {
    let (config, mut router) = setup_router(RoutingStrategy::RoundRobin, &only_account_json(10));
    let results = [
        router.reserve_one(&config, &idle(), 1_000),
        router.reserve_one(&config, &idle(), 1_000),
    ];
    assert_eq!(results.iter().filter(|result| result.is_ok()).count(), 1);
    assert_eq!(
        results
            .iter()
            .filter(|result| matches!(result, Err(RouterError::Exhausted(_))))
            .count(),
        1
    );
}

#[test]
fn expired_reservation_is_reclaimed_at_exact_ttl_boundary() {
    let (config, mut router) = setup_router(RoutingStrategy::RoundRobin, &only_account_json(1));
    let first = router.reserve_one(&config, &idle(), 1_000).unwrap();
    assert!(router.reserve_one(&config, &idle(), 1_999).is_err());
    let second = router.reserve_one(&config, &idle(), 2_000).unwrap();
    assert_ne!(first.reservation_id, second.reservation_id);
}

#[test]
fn cooldown_and_auth_health_are_isolated_to_one_account() {
    let (config, mut router) = setup_router(RoutingStrategy::RoundRobin, two_accounts_json());
    router.apply_rate_limit(&config, "a", "too_many_requests", Some(60), 1_000).unwrap();
    let selected = router.reserve_one(&config, &idle(), 1_001).unwrap();
    assert_eq!(selected.account.id, "b");
    router.release(&config, &selected, 1_002).unwrap();

    router.mark_auth_required(&config, "b", 1_003).unwrap();
    let exhausted = router.reserve_one(&config, &idle(), 1_004).unwrap_err();
    let RouterError::Exhausted(exhausted) = exhausted else {
        panic!("expected structured exhaustion");
    };
    assert_eq!(exhausted.accounts.len(), 2);
    assert!(exhausted
        .accounts
        .iter()
        .any(|entry| entry.account_id == "a" && entry.reason == "too_many_requests"));
    assert!(exhausted
        .accounts
        .iter()
        .any(|entry| entry.account_id == "b" && entry.reason == "auth_required"));
    router.mark_ready(&config, "b", 1_005).unwrap();
    assert_eq!(router.reserve_one(&config, &idle(), 1_006).unwrap().account.id, "b");
}

#[test]
fn retained_affinity_ignores_disabled_for_new_assignment_but_never_migrates() {
    let json = r#"{
      "version":1,
      "routing":{"strategy":"round_robin","reservation_ttl_seconds":10,"selection_failure_backoff_seconds":5},
      "defaults":{"limits":{"window_seconds":100,"max_dispatches":10,"max_active_workers":3}},
      "accounts":[
        {"id":"a","enabled":false,"browser":{"instance":"instance-a"}},
        {"id":"b","enabled":true,"browser":{"instance":"instance-b"}}
      ]
    }"#;
    let (config, mut router) = setup_router(RoutingStrategy::RoundRobin, json);
    let fresh = router.reserve_one(&config, &idle(), 1_000).unwrap();
    assert_eq!(fresh.account.id, "b");
    router.release(&config, &fresh, 1_001).unwrap();
    let resumed = router.reserve_for_account(&config, "a", &idle(), 1_002).unwrap();
    assert_eq!(resumed.account.id, "a");
    assert!(matches!(
        router.reserve_for_account(&config, "missing", &idle(), 1_003),
        Err(RouterError::AccountUnavailable(id)) if id == "missing"
    ));
}

#[test]
fn draining_account_skips_fresh_work_but_forced_retained_affinity_remains_allowed() {
    let (config, mut router) = setup_router(
        RoutingStrategy::RoundRobin,
        r#"{"version":1,"accounts":[{"id":"drain","enabled":true,"draining":true,"browser":{"instance":"drain"}},{"id":"ready","browser":{"instance":"ready"}}]}"#,
    );
    let fresh = router.reserve_one(&config, &idle(), 1_000).unwrap();
    assert_eq!(fresh.account.id, "ready");
    router.release(&config, &fresh, 1_000).unwrap();
    let retained = router.reserve_for_account(&config, "drain", &idle(), 1_000).unwrap();
    assert_eq!(retained.account.id, "drain");
}

#[test]
fn legacy_fallback_routes_to_default_account() {
    let legacy = || LegacyAccountConfig {
        routing: RoutingConfig {
            strategy: RoutingStrategy::RoundRobin,
            reservation_ttl_seconds: 5,
            selection_failure_backoff_seconds: 5,
        },
        limits: AccountLimits { window_seconds: 60, max_dispatches: 2, max_active_workers: 1 },
        cooldown: CooldownConfig::default(),
        browser: BrowserInstanceConfig::legacy("legacy-worktree"),
    };
    let config = load_accounts_config(None, BRIDGE, MOUNT, &vec![], legacy()).unwrap();
    let mut router = AccountRouter::new(BRIDGE, MOUNT, legacy());
    let reservation = router.reserve_one(&config, &idle(), 1_000).unwrap();
    assert_eq!(reservation.account.id, "default");
    assert_eq!(reservation.account.browser.worktree, "legacy-worktree");
}

#[test]
fn committing_turns_a_reservation_into_a_dispatch() {
    let (config, mut router) = setup_router(RoutingStrategy::RoundRobin, &only_account_json(10));
    let reservation = router.reserve_one(&config, &idle(), 1_000).unwrap();
    router.bind_scope(&config, &reservation, "77777777-7777-4777-8777-777777777777", 1_001).unwrap();
    assert!(router.bind_scope(&config, &reservation, "no id", 1_001).is_err());
    router.commit(&config, &reservation, 1_002).unwrap();
    let state = router.state_for_account(&config, "only", 1_003).unwrap();
    assert_eq!(state.reservations.len(), 0);
    assert_eq!(state.dispatches_ms, vec![1_002]);
    assert!(router.reserve_one(&config, &idle(), 1_004).is_err());
    assert!(router.reserve_one(&config, &idle(), 101_002).is_ok());
}

#[test]
fn releasing_gives_the_slot_back() {
    let (config, mut router) = setup_router(RoutingStrategy::RoundRobin, &only_account_json(10));
    let reservation = router.reserve_one(&config, &idle(), 1_000).unwrap();
    router.release(&config, &reservation, 1_001).unwrap();
    assert!(router.reserve_one(&config, &idle(), 1_002).is_ok());
}

#[test]
fn delivery_failures_cool_an_account_down() {
    let (config, mut router) = setup_router(RoutingStrategy::RoundRobin, two_accounts_json());
    assert_eq!(router.apply_delivery_failure(&config, "a", 1_000).unwrap(), 31_000);
    let state = router.state_for_account(&config, "a", 1_001).unwrap();
    assert_eq!(state.cooldown_until_ms, Some(31_000));
    assert_eq!(state.cooldown_reason.as_deref(), Some("delivery_failure"));
    assert_eq!(
        router.apply_rate_limit(&config, "b", "capacity", None, 1_000).unwrap(),
        6_000
    );
    assert_eq!(
        router.apply_rate_limit(&config, "b", "usage_limit", None, 1_000).unwrap(),
        901_000
    );
}

fn activity(scope: &str, account: &str, terminal: Option<bool>, lock: LockProbe) -> ScopeActivity {
    ScopeActivity {
        scope_id: scope.to_string(),
        account_id: account.to_string(),
        terminal,
        lock,
    }
}

#[test]
fn only_running_workers_are_counted() {
    let scopes = vec![
        activity("1", "a", Some(false), LockProbe::Held),
        activity("2", "a", Some(false), LockProbe::Free),
        activity("3", "a", Some(true), LockProbe::Held),
        activity("4", "b", Some(false), LockProbe::Failed),
        activity("5", "b", None, LockProbe::Held),
    ];
    let load = count_active_workers_by_account(&scopes);
    assert_eq!(load.workers("a"), 1);
    assert_eq!(load.workers("b"), 1);
    assert_eq!(load.workers("c"), 0);
    assert_eq!(load.scope_ids, Some(vec!["1".to_string(), "4".to_string()]));
    let (config, mut router) = setup_router(RoutingStrategy::LeastLoaded, two_accounts_json());
    let batch = router.reserve_batch_for_mux(&config, &scopes, 2, 1_000).unwrap();
    assert_eq!(batch.len(), 2);
    assert_ne!(batch[0].account.id, batch[1].account.id);
}

#[test]
fn a_batch_is_reserved_whole_or_not_at_all() {
    let (config, mut router) = setup_router(RoutingStrategy::RoundRobin, &only_account_json(10));
    assert!(router.reserve_batch(&config, &idle(), 2, 1_000).is_err());
    let state = router.state_for_account(&config, "only", 1_000).unwrap();
    assert_eq!(state.reservations.len(), 0);
    assert_eq!(router.reserve_batch(&config, &idle(), 0, 1_000).unwrap().len(), 0);
    assert_eq!(router.reserve_batch(&config, &idle(), 1, 1_000).unwrap().len(), 1);
}

#[test]
fn a_bound_reservation_of_a_running_worker_counts_once() {
    let (_, mut router) = setup_router(RoutingStrategy::RoundRobin, two_accounts_json());
    let mut state = AccountRuntimeState::new("a");
    state.reservations.push(AccountReservation {
        reservation_id: "r".into(),
        scope_id: Some("scope-1".into()),
        created_ms: 1,
        expires_ms: 100_000,
    });
    let counted = gpt2omo::router::count_reserved_active(&state, &Some(vec!["scope-1".to_string()]));
    assert_eq!(counted, 0);
    assert_eq!(gpt2omo::router::count_reserved_active(&state, &None), 1);
    router.store.save_account(&state).unwrap();
}

fn health(id: &str, driver: BrowserDriverKind, login_state: BrowserLoginState) -> BrowserHealth {
    BrowserHealth {
        account_id: id.into(),
        instance: format!("instance-{id}"),
        driver: Some(driver),
        reachability: BrowserReachability::Reachable,
        login_state,
        login_required: false,
        detail: None,
    }
}

#[test]
fn stale_health_is_recovered_where_the_browser_is_ready() {
    let (config, mut router) = setup_router(RoutingStrategy::RoundRobin, two_accounts_json());
    router.mark_auth_required(&config, "a", 1_000).unwrap();
    router.mark_auth_required(&config, "b", 1_000).unwrap();
    let stale = stale_accounts(&router, &config, 1_001).unwrap();
    assert_eq!(stale, vec![0, 1]);
    let browsers = vec![
        health("a", BrowserDriverKind::Orca, BrowserLoginState::Ready),
        health("b", BrowserDriverKind::Orca, BrowserLoginState::AuthenticationRequired),
    ];
    assert_eq!(
        recover_stale_account_health(&mut router, &config, &stale, &browsers, 1_002),
        1
    );
    assert_eq!(
        router.state_for_account(&config, "a", 1_003).unwrap().health,
        AccountHealth::Ready
    );
    assert_eq!(
        router.state_for_account(&config, "b", 1_003).unwrap().health,
        AccountHealth::AuthRequired
    );
    let report =
        collect_account_diagnostics(&router, &config, &browsers, &idle(), 1_004).unwrap();
    assert_eq!(report.accounts.len(), 2);
    assert_eq!(report.generated_ms, 1_004);
    assert_eq!(router.store.accounts.len(), 2);
}

#[test]
fn a_slot_in_one_account_is_reserved_under_its_id() {
    let (config, mut router) = setup_router(RoutingStrategy::RoundRobin, two_accounts_json());
    let held = router.reserve_for_account_as(&config, "b", &idle(), "slot-1", 1_000).unwrap();
    assert_eq!(held.reservation_id, "slot-1");
    assert_eq!(held.account.id, "b");
    let state = router.state_for_account(&config, "b", 1_000).unwrap();
    assert_eq!(state.reservations[0].reservation_id, "slot-1");
    assert!(router.state_for_account(&config, "a", 1_000).unwrap().reservations.is_empty());
}

#[test]
fn lost_account_states_are_told_with_their_cause() {
    let (config, mut router) = setup_router(RoutingStrategy::RoundRobin, two_accounts_json());
    router.store.accounts.push(StoredAccount {
        file_id: "b".into(),
        state: AccountRuntimeState::new("a"),
    });
    let cause = "Precondition failed: invalid account runtime state for 'b'";
    assert_eq!(
        stale_accounts(&router, &config, 1_000).unwrap_err().words,
        vec!["failed to inspect account health for 'b'", cause]
    );
    let browsers = vec![
        health("a", BrowserDriverKind::Orca, BrowserLoginState::Ready),
        health("b", BrowserDriverKind::Orca, BrowserLoginState::Ready),
    ];
    assert_eq!(
        collect_account_diagnostics(&router, &config, &browsers, &idle(), 1_000)
            .unwrap_err()
            .words,
        vec!["failed to load account state for 'b'", cause]
    );
}
