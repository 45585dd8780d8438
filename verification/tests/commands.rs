use gpt2omo::cli::{
    default_mount_root, generate_secure_token, mount_root_in, parse_nonempty_trimmed, token_of, Cli,
    IpNumber,
};
use gpt2omo::delegate::control::DEFAULT_SESSION_TTL_MINUTES;
use gpt2omo::dotenv::{
    dotenv_key_is_importable, dotenv_line, parse_dotenv_assignment, DotenvLine, DOTENV_DENIED_KEYS,
};
use gpt2omo::install::{
    canonical_file, default_config_root, default_omo_agent_dir, delegate_bin_beside, file_matches,
    install_action, install_targets, render_coordinator_prompt, render_omo_prompt,
    render_open_code_command, render_skill, shell_single_quote, FilePlace, FileText, InstallAction,
    InstallResult,
};
use gpt2omo::json::{Json, JsonField};
use gpt2omo::relay::{
    check_content_type, continuation_scope, events_port, handle_event, last_event_after,
    relay_continuation, resume_from, EventAction, RelayLog, RelayOptions, RelaySeen, RelayStep,
    SseStream,
};
use gpt2omo::security::workspace::{PathState, WorkspaceMux};
use serde_json::Value;

fn json_of(v: &Value) -> Json {
    match v {
        Value::Null => Json::Null,
        Value::Bool(b) => Json::Bool(*b),
        Value::Number(n) => match (n.as_u64(), n.as_i64()) {
            (Some(u), _) => Json::Unsigned(u),
            (None, Some(i)) => Json::Negative(i),
            _ => Json::Decimal(n.to_string()),
        },
        Value::String(s) => Json::Text(s.clone()),
        Value::Array(a) => Json::Array(a.iter().map(json_of).collect()),
        Value::Object(o) => Json::Object(
            o.iter()
                .map(|(k, v)| JsonField { key: k.clone(), value: json_of(v) })
                .collect(),
        ),
    }
}

fn json(text: &str) -> Json {
    json_of(&serde_json::from_str(text).unwrap())
}

fn value_of(j: &Json) -> Value {
    match j {
        Json::Null => Value::Null,
        Json::Bool(b) => Value::Bool(*b),
        Json::Unsigned(u) => Value::from(*u),
        Json::Negative(i) => Value::from(*i),
        Json::Decimal(s) => serde_json::from_str(s).unwrap(),
        Json::Text(s) => Value::from(s.as_str()),
        Json::Array(a) => Value::Array(a.iter().map(value_of).collect()),
        Json::Object(o) => {
            Value::Object(o.iter().map(|f| (f.key.clone(), value_of(&f.value))).collect())
        }
    }
}

fn dir(path: &str) -> PathState {
    PathState::Directory(path.to_string())
}

fn mux() -> WorkspaceMux {
    WorkspaceMux::new(&dir("/mount"), &Ok("/state/scopes".to_string()), None, "/state/bridge")
        .unwrap()
}

fn cli() -> Cli {
    Cli::with_mount_root("/work")
}

#[test]
fn subagent_string_parser_trims_and_rejects_empty_values() {
    assert_eq!(
        parse_nonempty_trimmed(" http://127.0.0.1:8000 ").unwrap(),
        "http://127.0.0.1:8000"
    );
    assert!(parse_nonempty_trimmed("").is_err());
    assert!(parse_nonempty_trimmed("   ").is_err());
}

#[test]
fn default_mount_root_is_git_worktree_or_home() {
    let git = Some("/work/tree".to_string());
    let home = Some("/home/someone".to_string());
    assert_eq!(default_mount_root(&git, &home), "/work/tree");
    assert_eq!(default_mount_root(&None, &home), "/home/someone");
    assert_ne!(default_mount_root(&None, &None), "/");
    assert_eq!(Cli::with_mount_root("/work/tree").mount_root, "/work/tree");
}

#[test]
fn loads_token_from_file_when_token_is_none() {
    let mut cli = cli();
    cli.token_file = Some("/etc/token.txt".to_string());
    assert_eq!(cli.token, None);
    assert_eq!(cli.token_file_to_read(), Some("/etc/token.txt".to_string()));

    cli.load_token_file("  secret-token-123 \n\n");
    assert_eq!(cli.token, Some("secret-token-123".to_string()));
}

#[test]
fn direct_token_takes_precedence_over_token_file() {
    let mut cli = cli();
    cli.token = Some("cli-token".to_string());
    cli.token_file = Some("/etc/token.txt".to_string());
    assert_eq!(cli.token_file_to_read(), None);
    cli.load_token_file("file-token");
    assert_eq!(cli.token, Some("cli-token".to_string()));
}

#[test]
fn remote_bind_requires_effective_bearer_and_read_only_mode() {
    let remote = IpNumber::V4(0);
    let local = IpNumber::V4(0x7f00_0001);
    let mut cli = cli();
    cli.insecure_no_auth = true;
    assert!(cli.validate_bind_security(local).is_ok());
    assert!(cli.validate_bind_security(IpNumber::V6(1)).is_ok());
    assert!(cli.validate_bind_security(remote).is_err());

    cli.token = Some("configured".into());
    assert!(cli.validate_bind_security(remote).is_err());

    cli.read_only = true;
    assert!(cli.validate_bind_security(remote).is_ok());
}

#[test]
fn ensure_auth_generates_token_and_sets_mode_0600() {
    let mut cli = cli();
    let file = cli.ensure_auth_in("/state/bridge", None).expect("should return token path");
    assert_eq!(file.path, "/state/bridge/token");

    let token = cli.token.expect("token should be generated");
    assert_eq!(token.len(), 64); // 32 bytes in hex is 64 hex characters
    assert!(hex::decode(&token).is_ok());
    assert_eq!(file.content.trim(), token);
}

#[test]
fn ensure_auth_insecure_no_auth_leaves_token_none() {
    let mut cli = cli();
    cli.insecure_no_auth = true;
    assert!(cli.ensure_auth(None, Some("/home/someone"), "/tmp", None).is_none());
    assert!(cli.token.is_none());
}

#[test]
fn ensure_auth_respects_existing_token() {
    let mut cli = cli();
    cli.token = Some("preconfigured-token".to_string());
    assert!(cli.ensure_auth(None, Some("/home/someone"), "/tmp", None).is_none());
    assert_eq!(cli.token.as_deref(), Some("preconfigured-token"));
}

#[test]
fn token_file_counts_before_a_fresh_token_and_before_no_token() {
    for insecure in [false, true] {
        let mut cli = cli();
        cli.token_file = Some("/etc/token.txt".to_string());
        cli.insecure_no_auth = insecure;
        assert!(cli.ensure_auth_in("/state/bridge", Some(" from-file \n")).is_none());
        assert_eq!(cli.token.as_deref(), Some("from-file"));
    }
    let mut given = cli();
    given.token = Some("given".to_string());
    given.token_file = Some("/etc/token.txt".to_string());
    assert!(given.ensure_auth(None, None, "/tmp", Some("from-file")).is_none());
    assert_eq!(given.token.as_deref(), Some("given"));
}

#[test]
fn tokens_are_not_reused() {
    assert_ne!(generate_secure_token(), generate_secure_token());
    let token = generate_secure_token();
    assert_ne!(token[..32], token[32..]);
    assert_eq!(token_of(&vec![0, 255], &vec![16]), "00ff10");
}

#[test]
fn defaults_are_guarded() {
    let cli = cli();
    assert!(!cli.read_only);
    assert!(!cli.allow_arbitrary_commands);
    assert!(!cli.insecure_no_auth);
    assert!(cli.validate_bind_security(IpNumber::V4(0x7f00_0001)).is_ok());
}

#[test]
fn dotenv_denies_security_critical_keys_and_allows_ordinary_omo_keys() {
    assert!(!dotenv_key_is_importable("OMO_BRIDGE_INSECURE_NO_AUTH"));
    for key in DOTENV_DENIED_KEYS {
        assert!(!dotenv_key_is_importable(key), "{key} must stay denied");
    }
    assert!(dotenv_key_is_importable("OMO_SUBAGENT_MODEL"));
    assert!(dotenv_key_is_importable("OMO_BRIDGE_URL"));
}

fn pair(key: &str, value: &str) -> Option<(String, String)> {
    Some((key.to_string(), value.to_string()))
}

#[test]
fn dotenv_assignment_parses_plain_and_quoted_omo_values() {
    assert_eq!(
        parse_dotenv_assignment(" OMO_SCOPE_DIR = scopes "),
        pair("OMO_SCOPE_DIR", "scopes")
    );
    assert_eq!(
        parse_dotenv_assignment("OMO_BRIDGE_URL=\"http://127.0.0.1:18800\""),
        pair("OMO_BRIDGE_URL", "http://127.0.0.1:18800")
    );
    assert_eq!(
        parse_dotenv_assignment("OMO_SUBAGENT_MODEL='mock model'"),
        pair("OMO_SUBAGENT_MODEL", "mock model")
    );
}

#[test]
fn dotenv_assignment_rejects_unrelated_keys_and_nul_without_panicking() {
    assert_eq!(parse_dotenv_assignment("="), None);
    assert_eq!(parse_dotenv_assignment("PATH=/untrusted/bin"), None);
    assert_eq!(parse_dotenv_assignment("RUST_LOG=trace"), None);
    assert_eq!(parse_dotenv_assignment("OMO_BAD\0KEY=value"), None);
    assert_eq!(parse_dotenv_assignment("OMO_KEY=bad\0value"), None);
    assert_eq!(parse_dotenv_assignment("# comment"), None);
}

#[test]
fn dotenv_assignment_handles_unmatched_quote_as_literal() {
    assert_eq!(parse_dotenv_assignment("OMO_KEY=\""), pair("OMO_KEY", "\""));
    assert_eq!(parse_dotenv_assignment("OMO_KEY='"), pair("OMO_KEY", "'"));
}

#[test]
fn dotenv_lines_are_sorted_out() {
    assert_eq!(dotenv_line("# comment"), DotenvLine::Skip);
    assert_eq!(
        dotenv_line("OMO_BRIDGE_INSECURE_NO_AUTH=1"),
        DotenvLine::Denied("OMO_BRIDGE_INSECURE_NO_AUTH".to_string())
    );
    assert_eq!(
        dotenv_line("OMO_BRIDGE_URL=x"),
        DotenvLine::Import("OMO_BRIDGE_URL".to_string(), "x".to_string())
    );
}

const BIN: &str = "/tmp/delegate_to_chatgpt_web";

#[test]
fn coordinator_enforces_three_worker_cap_and_forbids_subagents() {
    let prompt = render_coordinator_prompt(BIN);
    assert!(prompt.contains("hard maximum 2"));
    assert!(prompt.contains("Choose exactly 1 or 2 workers"));
    assert!(prompt.contains("--batch-stdin --json"));
    assert!(prompt.contains("Do not call Task/background/subagent/team tools"));
    assert!(prompt.contains("OMO owns repository/worktree selection"));
}

#[test]
fn coordinator_documents_default_idle_retention_and_ttl() {
    let prompt = render_coordinator_prompt(BIN);
    assert!(prompt.contains("IDLE_RETAINED"));
    assert!(prompt.contains("--close-on-terminal"));
    assert!(prompt.contains("--resume-scope '<exact-scope-id>'"));
    assert!(prompt.contains("--close-scope '<exact-scope-id>'"));
    assert!(prompt.contains("Scope-level filesystem locks"));
    assert!(prompt.contains("TTL is a safety net"));
}

#[test]
fn coordinator_documents_authoritative_readiness_and_terminal_results() {
    let prompt = render_coordinator_prompt(BIN);
    assert!(prompt.contains("bootstrap-only prompt first"));
    assert!(prompt.contains("scoped MCP `task_state`"));
    assert!(prompt.contains("`completion_check.ready=true`"));
    assert!(prompt.contains("`\"terminal\":true`"));
}

#[test]
fn coordinator_documents_daemon_owned_command_recovery() {
    let prompt = render_coordinator_prompt(BIN);
    assert!(prompt.contains("run_command` call waits at most 15 seconds"));
    assert!(prompt.contains("status:\"detached_running\""));
    assert!(prompt.contains("poll_command"));
    assert!(prompt.contains("list_commands"));
    assert!(prompt.contains("client_request_id"));
    assert!(prompt.contains("workspace_revision"));
    assert!(prompt.contains("stale_revision"));
}

#[test]
fn coordinator_documents_pattern_b_advisory_boundary() {
    let prompt = render_coordinator_prompt(BIN);
    assert!(prompt.contains("bounded Pattern B second opinion"));
    assert!(prompt.contains("trust: \"untrusted_advisory\""));
    assert!(prompt.contains("never implementation delegation"));
    assert!(prompt.contains("coordinator itself still must not call subagent tools"));
}

#[test]
fn coordinator_quotes_the_helper() {
    let prompt = render_coordinator_prompt("/tmp/a'b");
    assert!(prompt.contains("| '/tmp/a'\\''b' --batch-stdin --json\n{\"tasks\":[{\"label\""));
    assert!(!prompt.contains("{{"));
}

#[test]
fn open_code_command_disables_subtask_mode() {
    let command = render_open_code_command("body");
    assert!(command.contains("subtask: false"));
    assert!(command.contains("body"));
}

#[test]
fn omo_prompt_exposes_delegate_web_arguments() {
    let prompt = render_omo_prompt("body");
    assert!(prompt.contains("argument-hint: <task>"));
    assert!(prompt.contains("body"));
}

#[test]
fn skill_documents_retained_session_lifecycle() {
    let skill = render_skill(BIN);
    assert!(skill.contains("name: delegate-web"));
    assert!(skill.contains("**1–2 parallel ChatGPT Web workers**"));
    assert!(skill.contains("IDLE_RETAINED by default"));
    assert!(skill.contains("--close-on-terminal"));
    assert!(skill.contains("--resume-scope '<scope-id>'"));
    assert!(skill.contains("--close-scope '<scope-id>'"));
    assert!(skill.contains("lease_expires_ms"));
    assert!(skill.contains("filesystem locks"));
    assert!(skill.contains("opencode/slash: \"false\""));
    assert!(skill.contains("daemon-owned"));
    assert!(skill.contains("detached_running"));
    assert!(skill.contains("stale_revision"));
    assert!(skill.contains("bounded Pattern B second opinion"));
    assert!(skill.contains("untrusted_advisory"));
}

#[test]
fn atomic_install_round_trip() {
    let targets = install_targets("/config", "/omo", BIN);
    let paths: Vec<String> = targets.iter().map(|t| t.path()).collect();
    assert_eq!(
        paths,
        vec![
            "/config/command/delegate-web.md",
            "/config/skill/delegate-web/SKILL.md",
            "/omo/prompts/delegate-web.md",
            "/omo/skills/delegate-web/SKILL.md",
        ]
    );
    let prompt = &targets[2];
    assert_eq!(prompt.content, render_omo_prompt(&render_coordinator_prompt(BIN)));
    assert_eq!(
        install_action(false, &FileText::Missing, prompt).unwrap(),
        InstallAction::Create
    );
    let written = FileText::Text(prompt.content.clone());
    assert!(file_matches(&written, &prompt.path(), &prompt.content).unwrap());
    assert_eq!(install_action(false, &written, prompt).unwrap(), InstallAction::Leave);
}

#[test]
fn installing_keeps_what_stood_there() {
    let targets = install_targets("/config", "/omo", BIN);
    let other = FileText::Text("other".to_string());
    assert_eq!(install_action(false, &other, &targets[0]).unwrap(), InstallAction::Replace);
    assert_eq!(install_action(false, &FileText::Bytes, &targets[0]).unwrap(), InstallAction::Replace);
    assert_eq!(install_action(true, &other, &targets[0]).unwrap(), InstallAction::Leave);
    assert_eq!(
        install_action(false, &FileText::Unreadable("denied".into()), &targets[0])
            .unwrap_err()
            .words,
        vec!["failed to read /config/command/delegate-web.md", "denied"]
    );
    assert_eq!(targets[0].backup_path(42), "/config/command/delegate-web.md.bak-42");
    assert_eq!(targets[0].temp_path_of("x"), "/config/command/.delegate-web-x.tmp");
    let temp = targets[0].temp_path();
    assert!(temp.starts_with("/config/command/.delegate-web-"));
    assert!(temp.ends_with(".tmp"));
    assert_ne!(temp, targets[0].temp_path());
}

fn install_result(matches: bool, check_only: bool) -> InstallResult {
    InstallResult {
        check_only,
        delegate_bin: BIN.to_string(),
        command: ("/a".to_string(), true),
        skill: ("/b".to_string(), true),
        prompt: ("/c".to_string(), matches),
        omo_skill: ("/d".to_string(), true),
        backups: vec!["/a.bak-1".to_string()],
    }
}

#[test]
fn installation_is_told() {
    assert_eq!(install_result(true, false).lines().unwrap()[1], "OpenCode command: /a");
    assert_eq!(
        install_result(true, true).lines().unwrap(),
        vec!["delegate-web installation is current for OpenCode and OMO"]
    );
    assert_eq!(
        install_result(false, true).lines().unwrap_err(),
        "delegate-web installation does not match expected OpenCode/OMO resources"
    );
    let value = value_of(&install_result(false, true).to_json());
    assert_eq!(value["ok"], false);
    assert_eq!(value["omo_prompt"]["matches"], false);
    assert_eq!(value["backups"][0], "/a.bak-1");
}

#[test]
fn installer_finds_its_directories() {
    assert_eq!(default_config_root(Some("/x"), Some("/h")).unwrap(), "/x/opencode");
    assert_eq!(default_config_root(None, Some("/h")).unwrap(), "/h/.config/opencode");
    assert_eq!(default_config_root(None, None).unwrap_err(), "HOME is not set");
    assert_eq!(default_omo_agent_dir(Some("/x"), None).unwrap(), "/x");
    assert_eq!(default_omo_agent_dir(None, Some("/h")).unwrap(), "/h/.omo/agent");
    assert_eq!(default_omo_agent_dir(None, None).unwrap_err(), "HOME is not set");
    assert_eq!(delegate_bin_beside(Some("/bin")).unwrap(), BIN.replace("/tmp", "/bin"));
    assert!(delegate_bin_beside(None).is_err());
    assert_eq!(canonical_file("b", &FilePlace::File("/r/b".into())).unwrap(), "/r/b");
    assert_eq!(
        canonical_file("b", &FilePlace::Other("/r".into())).unwrap_err().words,
        vec!["not a file: /r"]
    );
    assert_eq!(
        canonical_file("b", &FilePlace::Unresolved("gone".into())).unwrap_err().words,
        vec!["failed to canonicalize b", "gone"]
    );
}

#[test]
fn shell_quote_handles_single_quote() {
    assert_eq!(shell_single_quote("/tmp/a'b"), "'/tmp/a'\\''b'");
}

#[test]
fn parses_scoped_continuation_payload_shape() {
    let payload = json(
        r#"{
        "seq": 42,
        "kind": "continuation_required",
        "data": {
            "scope_id": "55555555-5555-4555-8555-555555555555",
            "prompt": "continue",
            "relay_to_same_chat": true
        }
    }"#,
    );
    let order = gpt2omo::relay::parse_continuation(&payload).unwrap();
    assert_eq!(order.seq, 42);
    assert_eq!(order.scope_id, "55555555-5555-4555-8555-555555555555");
    assert_eq!(order.prompt, "continue");
    let kept = json(r#"{"data":{"scope_id":"s","prompt":"continue","relay_to_same_chat":false}}"#);
    assert!(gpt2omo::relay::parse_continuation(&kept).is_none());
}

#[test]
fn continuation_scope_routes_each_scope_to_its_exact_browser_page_id() {
    let mut mux = mux();
    let first = mux.register_browser(dir("/mount/project"), "browser-page-a", 1).unwrap();
    let second = mux.register_browser(dir("/mount/project"), "browser-page-b", 2).unwrap();

    assert_eq!(
        continuation_scope(&mux, &first.scope_id).unwrap().browser_page_id.as_deref(),
        Some("browser-page-a")
    );
    assert_eq!(
        continuation_scope(&mux, &second.scope_id).unwrap().browser_page_id.as_deref(),
        Some("browser-page-b")
    );
}

#[test]
fn mount_root_is_read_off_the_bytes_of_git() {
    let home = Some("/home/someone".to_string());
    assert_eq!(mount_root_in(&Some(b" /repo\n".to_vec()), &home), "/repo");
    assert_eq!(mount_root_in(&Some(vec![b'/', 0xff]), &home), "/\u{fffd}");
    assert_eq!(mount_root_in(&Some(b"\n".to_vec()), &home), "/home/someone");
    assert_eq!(mount_root_in(&None, &None), ".");
}

#[test]
fn derives_scope_port_from_events_url() {
    assert_eq!(events_port("http://127.0.0.1:18800/events").unwrap(), 18800);
    assert_eq!(events_port("https://127.0.0.1/events").unwrap(), 443);
    assert!(events_port("not a url").is_err());
    assert_eq!(
        events_port("unix:/run/events").unwrap_err().words,
        vec!["events URL has no resolvable port: unix:/run/events"]
    );
    let refused = events_port("not a url").unwrap_err();
    assert_eq!(refused.message(), "invalid events URL for scope routing: not a url");
    assert_eq!(refused.words[1], "relative URL without a base");
}

fn relay_options(ttl: u64) -> RelayOptions {
    RelayOptions {
        events_url: "http://127.0.0.1:18800/events".into(),
        mount_root: "/".into(),
        scope_dir: None,
        worktree: "active".into(),
        terminal: Some("term".into()),
        orca_bin: "orca".into(),
        token: Some("secret".into()),
        resolve_only: false,
        dry_run: false,
        reconnect_ms: 5,
        session_ttl_minutes: ttl,
        session_gc_interval_secs: 60,
    }
}

#[test]
fn relay_uses_same_two_hour_default_session_ttl() {
    assert_eq!(DEFAULT_SESSION_TTL_MINUTES, 120);
    assert_eq!(
        relay_options(DEFAULT_SESSION_TTL_MINUTES).checked_ttl_ms().unwrap(),
        7_200_000
    );
    assert!(relay_options(0).checked_ttl_ms().is_err());
    assert!(relay_options(u64::MAX).checked_ttl_ms().is_err());
}

#[test]
fn relay_subscribes_with_its_token() {
    let options = relay_options(120);
    assert_eq!(options.authorization().as_deref(), Some("Bearer secret"));
    assert_eq!(options.reconnect_delay_ms(), 100);
    assert_eq!(options.orca().terminal.as_deref(), Some("term"));
    assert_eq!(options.orca().binary, None);
    assert_eq!(resume_from(0), None);
    assert_eq!(resume_from(17).as_deref(), Some("17"));
    assert_eq!(last_event_after(5, Some(9)), 9);
    assert_eq!(last_event_after(5, Some(3)), 5);
    assert_eq!(last_event_after(5, None), 5);
    assert!(check_content_type("text/event-stream; charset=utf-8").is_ok());
    assert_eq!(
        check_content_type("text/html").unwrap_err(),
        "events endpoint is not SSE: text/html"
    );
    let idle = RelayOptions { session_gc_interval_secs: 0, ..relay_options(120) };
    assert_eq!(
        idle.checked_ttl_ms().unwrap_err(),
        "--session-gc-interval-secs must be greater than zero"
    );
}

const STREAM: &str = ": hello\r\nid: 7\r\nevent: completion\r\ndata: {\"a\":1,\r\ndata: \"b\":\"ü\"}\r\n\r\nevent: lagged\n\n";

#[test]
fn event_stream_is_read_whatever_its_chunks() {
    let bytes = STREAM.as_bytes().to_vec();
    let mut whole = SseStream::new();
    let read = whole.feed(&bytes);
    assert_eq!(read.len(), 2);
    assert_eq!(read[0].event, "completion");
    assert_eq!(read[0].id, Some(7));
    assert_eq!(read[0].data, "{\"a\":1,\n\"b\":\"ü\"}");
    assert_eq!(read[1].event, "lagged");
    assert_eq!(read[1].id, None);

    for cut in 0..bytes.len() {
        let mut parts = SseStream::new();
        let mut got = parts.feed(&bytes[..cut].to_vec());
        got.extend(parts.feed(&bytes[cut..].to_vec()));
        assert_eq!(got.len(), 2);
        assert_eq!(got[0].data, read[0].data);
    }
}

#[test]
fn broken_bytes_are_replaced() {
    let mut stream = SseStream::new();
    let read = stream.feed(&b"data: \xff\n\n".to_vec());
    assert_eq!(read[0].data, "\u{fffd}");
}

#[test]
fn events_are_told_apart() {
    let payload = json(r#"{"seq":3,"data":{"scope_id":"s","ready":true}}"#);
    assert!(matches!(handle_event("connected", &payload), EventAction::NoteConnected(Some(3))));
    match handle_event("completion", &payload) {
        EventAction::NoteCompletion(scope, ready) => {
            assert_eq!(scope, "s");
            assert!(ready);
        }
        other => panic!("{other:?}"),
    }
    assert!(matches!(handle_event("continuation_required", &payload), EventAction::Continue));
    assert!(matches!(handle_event("lagged", &payload), EventAction::WarnLagged));
    assert!(matches!(handle_event("other", &payload), EventAction::Nothing));
}

fn order(scope_id: &str, seq: u64) -> Json {
    json(&format!(
        r#"{{"seq":{seq},"data":{{"scope_id":"{scope_id}","prompt":"go on","relay_to_same_chat":true}}}}"#
    ))
}

#[test]
fn an_order_is_followed_once_on_its_page() {
    let mut mux = mux();
    let scope = mux.register_browser(dir("/mount/project"), "page-a", 1).unwrap();
    let mut log = RelayLog::new();
    let mut seen = RelaySeen::nothing();
    let payload = order(&scope.scope_id, 4);
    match relay_continuation(&mux, &log, false, &payload, &seen) {
        RelayStep::SendToPage(page) => assert_eq!(page, "page-a"),
        other => panic!("{other:?}"),
    }
    seen.page_sent = Some(Err("closed".into()));
    match relay_continuation(&mux, &log, false, &payload, &seen) {
        RelayStep::Failed(e) => assert_eq!(
            e,
            format!(
                "failed to relay continuation directly to ChatGPT Web page page-a for scope {}",
                scope.scope_id
            )
        ),
        other => panic!("{other:?}"),
    }
    seen.page_sent = Some(Ok(()));
    assert!(matches!(
        relay_continuation(&mux, &log, false, &payload, &seen),
        RelayStep::Followed
    ));
    log.followed(&scope.scope_id, 4);
    assert!(matches!(
        relay_continuation(&mux, &log, false, &payload, &RelaySeen::nothing()),
        RelayStep::Duplicate
    ));
    assert!(matches!(
        relay_continuation(&mux, &log, true, &order(&scope.scope_id, 5), &RelaySeen::nothing()),
        RelayStep::Followed
    ));
    assert!(matches!(
        relay_continuation(&mux, &log, false, &json("{}"), &RelaySeen::nothing()),
        RelayStep::Incomplete
    ));
}

#[test]
fn a_scope_without_a_page_is_reached_in_its_terminal() {
    let mut mux = mux();
    let scope = mux.register(dir("/mount/project"), Some("old".into()), 1).unwrap();
    let log = RelayLog::new();
    let payload = order(&scope.scope_id, 1);
    let step = |seen: &RelaySeen| relay_continuation(&mux, &log, false, &payload, seen);
    let mut seen = RelaySeen::nothing();
    assert!(matches!(step(&seen), RelayStep::FindTerminal));
    seen.found = Some(Err("none".into()));
    assert!(matches!(step(&seen), RelayStep::SendToTerminal(t) if t == "old"));
    seen.found = Some(Ok("new".into()));
    assert!(matches!(step(&seen), RelayStep::NoteTerminal(t) if t == "new"));
    seen.noted = Some(Ok(()));
    assert!(matches!(step(&seen), RelayStep::SendToTerminal(t) if t == "new"));
    seen.sent = Some(Err("busy".into()));
    assert!(matches!(step(&seen), RelayStep::FindTerminalAgain));
    seen.found_again = Some(Ok("third".into()));
    assert!(matches!(step(&seen), RelayStep::SendAgain(t) if t == "third"));
    seen.sent_again = Some(Ok(()));
    assert!(matches!(step(&seen), RelayStep::NoteTerminalAgain(t) if t == "third"));
    seen.noted_again = Some(Ok(()));
    assert!(matches!(step(&seen), RelayStep::Followed));
    seen.sent_again = Some(Err("gone".into()));
    assert!(matches!(step(&seen), RelayStep::Failed(_)));
    let unknown = order("66666666-6666-4666-8666-666666666666", 1);
    assert!(matches!(
        relay_continuation(&mux, &log, false, &unknown, &RelaySeen::nothing()),
        RelayStep::Failed(_)
    ));
}
