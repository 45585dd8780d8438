use gpt2omo::accounts::LEGACY_ACCOUNT_ID;
use gpt2omo::orca::BrowserDriverKind;
use gpt2omo::security::path::PathPolicy;
use gpt2omo::security::workspace::{
    absolute_control_path, default_bridge_base_dir, default_scope_dir, BrowserBinding,
    PathState, ResolvedPath, ScopeContent, ScopeFile, Workspace, WorkspaceMux, WorkspaceScope,
};

fn dir(path: &str) -> PathState {
    PathState::Directory(path.to_string())
}

fn mux() -> WorkspaceMux {
    WorkspaceMux::new(
        &dir("/mount"),
        &Ok("/state/scopes".to_string()),
        Some("/home/someone".to_string()),
        "/state/bridge",
    )
    .unwrap()
}

fn at_ancestor(path: &str) -> ResolvedPath {
    ResolvedPath { ancestor: Some(Ok(path.to_string())), target: None }
}

#[test]
fn test_valid_paths() {
    assert!(PathPolicy::sanitize_relative_path("src/main.rs").is_ok());
    assert!(PathPolicy::sanitize_relative_path("tests/foo/bar.js").is_ok());
    assert!(PathPolicy::sanitize_relative_path("./Cargo.toml").is_ok());
    assert!(PathPolicy::sanitize_relative_path(".omo/plans/my-plan.md").is_ok());
    assert!(PathPolicy::sanitize_relative_path(".github/workflows/ci.yml").is_ok());
    assert!(PathPolicy::sanitize_relative_path(".vscode/settings.json").is_ok());
    assert!(PathPolicy::sanitize_relative_path(".cargo/config.toml").is_ok());
    assert!(PathPolicy::sanitize_relative_path(".gitignore").is_ok());
    assert!(PathPolicy::sanitize_relative_path(".env.example").is_ok());
}

#[test]
fn test_path_traversal_denied() {
    assert!(PathPolicy::sanitize_relative_path("../secret.txt").is_err());
    assert!(PathPolicy::sanitize_relative_path("src/../../etc/passwd").is_err());
    assert!(PathPolicy::sanitize_relative_path("/etc/passwd").is_err());
}

#[test]
fn test_secret_files_denied() {
    assert!(PathPolicy::sanitize_relative_path(".git/config").is_err());
    assert!(PathPolicy::sanitize_relative_path(".env").is_err());
    assert!(PathPolicy::sanitize_relative_path(".env.local").is_err());
    assert!(PathPolicy::sanitize_relative_path(".omo/auth.json").is_err());
    assert!(PathPolicy::sanitize_relative_path("certs/server.pem").is_err());
    assert!(PathPolicy::sanitize_relative_path("certs/SERVER.PEM").is_err());
    assert!(PathPolicy::sanitize_relative_path("keys/CLIENT.KEY").is_err());
    assert!(PathPolicy::sanitize_relative_path("id_rsa").is_err());
    assert!(PathPolicy::sanitize_relative_path("ID_RSA").is_err());
    assert!(PathPolicy::sanitize_relative_path(".ssh/id_ed25519").is_err());
}

#[test]
fn sanitized_paths_are_normalized() {
    assert_eq!(PathPolicy::sanitize_relative_path("./a//b/./c").unwrap(), "a/b/c");
}

#[test]
fn test_resolved_target_policy_follows_symlink_alias() {
    let err = PathPolicy::ensure_resolved_target_allowed("/work", Some("/work/.env")).unwrap_err();
    assert!(err.message().contains("denied"), "got: {}", err.message());
    assert!(PathPolicy::ensure_resolved_target_allowed("/work", Some("/work/real.txt")).is_ok());
    assert!(PathPolicy::ensure_resolved_target_allowed("/work", None).is_ok());
}

#[test]
fn test_workspace_capability() {
    let ws = Workspace::open(&dir("/work")).unwrap();
    assert_eq!(ws.root(), "/work");
    assert!(ws.resolve_relative("src/lib.rs", &at_ancestor("/work")).is_ok());
    assert!(ws.resolve_relative("../outside.txt", &at_ancestor("/work")).is_err());
    assert!(Workspace::open(&PathState::File("/work/a".to_string())).is_err());
    assert!(Workspace::open(&PathState::Unresolved("gone".to_string())).is_err());
}

#[test]
fn test_symlink_escape_denied_for_existing_and_new_targets() {
    let ws = Workspace::open(&dir("/work")).unwrap();
    let existing = ResolvedPath {
        ancestor: Some(Ok("/outside".to_string())),
        target: Some(Ok("/outside/secret.txt".to_string())),
    };
    assert!(ws.resolve_relative("escape/secret.txt", &existing).is_err());
    assert!(ws.resolve_relative("escape/new.txt", &at_ancestor("/outside")).is_err());
}

#[test]
fn mux_registers_independent_scopes_without_switching_global_state() {
    let mut mux = mux();
    let a = mux.register(dir("/mount/first"), Some("term-a".into()), 1).unwrap();
    let b = mux.register_browser(dir("/mount/second"), "page-b", 2).unwrap();

    assert_ne!(a.scope_id, b.scope_id);
    assert_eq!(mux.resolve(&a.scope_id).unwrap().root(), "/mount/first");
    assert_eq!(mux.resolve(&b.scope_id).unwrap().root(), "/mount/second");
    assert_eq!(mux.lookup(&a.scope_id).unwrap().terminal.as_deref(), Some("term-a"));
    assert_eq!(mux.lookup(&b.scope_id).unwrap().browser_page_id.as_deref(), Some("page-b"));
    assert_eq!(mux.lookup(&b.scope_id).unwrap().account_id(), "default");
}

#[test]
fn a_scope_has_one_file_at_its_own_place() {
    let mut mux = mux();
    let a = mux.register(dir("/mount/first"), None, 1).unwrap();
    let b = mux.register(dir("/mount/second"), None, 2).unwrap();
    mux.update_terminal(&b.scope_id, "term-b", 3).unwrap();
    assert_eq!(mux.files.len(), 2);
    assert_eq!(mux.list_scopes().unwrap().len(), 2);
    assert_eq!(mux.resolve(&a.scope_id).unwrap().root(), "/mount/first");
    assert_eq!(mux.resolve(&b.scope_id).unwrap().root(), "/mount/second");
    mux.remove(&a.scope_id).unwrap();
    assert_eq!(mux.files.len(), 1);
    assert_eq!(mux.list_scopes_strict().unwrap().len(), 1);
    assert_eq!(mux.resolve(&b.scope_id).unwrap().root(), "/mount/second");
    assert!(mux.resolve(&a.scope_id).is_err());
}

#[test]
fn v2_browser_binding_persists_account_affinity_without_legacy_scalar() {
    let mut mux = mux();
    let scope = mux
        .register_browser_binding(
            dir("/mount/project"),
            BrowserBinding::new("web-a", BrowserDriverKind::Orca, "instance-a", "same-page"),
            1,
        )
        .unwrap();
    assert_eq!(mux.files.len(), 1);
    match &mux.files[0].content {
        ScopeContent::Parsed(raw) => {
            assert_eq!(raw.browser.as_ref().unwrap().account_id, "web-a");
            assert_eq!(raw.browser_page_id, None);
        }
        other => panic!("{other:?}"),
    }

    let loaded = mux.lookup(&scope.scope_id).unwrap();
    assert_eq!(loaded.version, 2);
    assert_eq!(loaded.account_id(), "web-a");
    assert_eq!(loaded.browser_instance(), Some("instance-a"));
    assert_eq!(loaded.page_id(), Some("same-page"));
    assert_eq!(loaded.browser_page_id.as_deref(), Some("same-page"));
}

#[test]
fn v1_scope_migrates_logically_to_legacy_default_account() {
    let mut mux = mux();
    let scope_id = "11111111-1111-4111-8111-111111111111";
    mux.files.push(ScopeFile {
        name: format!("{scope_id}.json"),
        name_valid: true,
        content: ScopeContent::Parsed(WorkspaceScope {
            version: 1,
            scope_id: scope_id.to_string(),
            workspace: "/mount/project".to_string(),
            terminal: None,
            browser: None,
            browser_page_id: Some("legacy-page".to_string()),
            created_ms: 1,
            updated_ms: 1,
        }),
        place: dir("/mount/project"),
    });
    let loaded = mux.lookup(scope_id).unwrap();
    assert_eq!(loaded.account_id(), LEGACY_ACCOUNT_ID);
    assert_eq!(loaded.page_id(), Some("legacy-page"));
}

fn stray(name: &str, content: ScopeContent) -> ScopeFile {
    ScopeFile { name: name.to_string(), name_valid: true, content, place: dir("/mount/project") }
}

#[test]
fn mux_lists_only_persisted_scope_files() {
    let mut mux = mux();
    let first = mux.register_browser(dir("/mount/project"), "page-a", 1).unwrap();
    let second = mux.register_browser(dir("/mount/project"), "page-b", 2).unwrap();
    mux.files.push(stray("not-a-scope.txt", ScopeContent::Malformed("ignore".into())));

    let scopes = mux.list_scopes().unwrap();
    assert_eq!(scopes.len(), 2);
    assert!(scopes.iter().any(|scope| scope.scope_id == first.scope_id));
    assert!(scopes.iter().any(|scope| scope.scope_id == second.scope_id));
}

#[test]
fn mux_lists_scopes_skipping_corrupted_files() {
    let mut mux = mux();
    let valid = mux.register_browser(dir("/mount/project"), "page-a", 1).unwrap();
    let corrupted_id = "22222222-2222-4222-8222-222222222222";
    mux.files.push(stray(
        &format!("{corrupted_id}.json"),
        ScopeContent::Malformed("{ corrupted json".into()),
    ));

    let scopes = mux.list_scopes().unwrap();
    assert_eq!(scopes.len(), 1);
    assert_eq!(scopes[0].scope_id, valid.scope_id);
    assert!(mux.list_scopes_strict().is_err());
}

#[test]
fn mux_lists_scopes_by_id() {
    let mut mux = mux();
    mux.register_browser(dir("/mount/project"), "page-a", 9).unwrap();
    mux.register_browser(dir("/mount/project"), "page-b", 3).unwrap();
    mux.register_browser(dir("/mount/project"), "page-c", 6).unwrap();
    let ids: Vec<String> =
        mux.list_scopes_strict().unwrap().into_iter().map(|s| s.scope_id).collect();
    assert_eq!(ids.len(), 3);
    assert!(ids[0] < ids[1] && ids[1] < ids[2]);
}

#[test]
fn mux_can_remove_a_scope() {
    let mut mux = mux();
    let scope = mux.register_browser(dir("/mount/project"), "page", 1).unwrap();
    assert!(mux.lookup(&scope.scope_id).is_ok());
    mux.remove(&scope.scope_id).unwrap();
    assert!(mux.lookup(&scope.scope_id).is_err());
    mux.remove(&scope.scope_id).unwrap();
}

#[test]
fn mux_notes_the_terminal_of_a_scope() {
    let mut mux = mux();
    let scope = mux.register(dir("/mount/project"), None, 1).unwrap();
    let updated = mux.update_terminal(&scope.scope_id, "term-z", 5).unwrap();
    assert_eq!(updated.terminal.as_deref(), Some("term-z"));
    assert_eq!(mux.lookup(&scope.scope_id).unwrap().updated_ms, 5);
    assert!(mux.update_terminal("33333333-3333-4333-8333-333333333333", "t", 6).is_err());
}

#[test]
fn mux_rejects_workspace_that_contains_or_enters_scope_control_plane() {
    let mut mux = WorkspaceMux::new(
        &dir("/mount"),
        &Ok("/mount/control/scopes".to_string()),
        None,
        "/state/bridge",
    )
    .unwrap();
    let broad = mux.register(dir("/mount"), None, 1).unwrap_err().message();
    assert!(broad.contains("overlaps"));
    let nested =
        mux.register(dir("/mount/control/scopes/nested"), None, 1).unwrap_err().message();
    assert!(nested.contains("overlaps"));
}

#[test]
fn mux_rejects_scope_outside_mount_root() {
    assert!(mux().register(dir("/outside"), None, 1).is_err());
    assert!(mux().register(PathState::File("/mount/a".into()), None, 1).is_err());
    assert!(mux().register(PathState::Unresolved("gone".into()), None, 1).is_err());
}

#[test]
fn machine_root_mount_refuses_root_as_scoped_workspace() {
    let mut mux =
        WorkspaceMux::new(&dir("/"), &Ok("/state/scopes".to_string()), None, "/state/bridge")
            .unwrap();
    assert!(mux.register(dir("/"), None, 1).is_err());
}

#[test]
fn home_refuses_to_be_a_scoped_workspace() {
    let mut mux = WorkspaceMux::new(
        &dir("/"),
        &Ok("/state/scopes".to_string()),
        Some("/home/someone".to_string()),
        "/state/bridge",
    )
    .unwrap();
    assert!(mux.register(dir("/home/someone"), None, 1).is_err());
    assert!(mux.register(dir("/home/someone/project"), None, 1).is_ok());
}

#[test]
fn invalid_scope_ids_are_rejected_before_filesystem_lookup() {
    assert!(mux().lookup("../escape").is_err());
    assert!(mux().lock_path("../escape").is_err());
    assert_eq!(
        mux().lock_path("44444444-4444-4444-8444-444444444444").unwrap(),
        "/state/scopes/.locks/44444444-4444-4444-8444-444444444444.lock"
    );
}

#[test]
fn mux_needs_a_mount_root_and_a_scope_directory() {
    let scopes = Ok("/state/scopes".to_string());
    assert!(WorkspaceMux::new(&PathState::File("/a".into()), &scopes, None, "/b").is_err());
    assert!(WorkspaceMux::new(&PathState::Unresolved("gone".into()), &scopes, None, "/b").is_err());
    assert!(WorkspaceMux::new(&dir("/a"), &Err("gone".into()), None, "/b").is_err());
}

#[test]
fn control_directories_have_fixed_places() {
    assert_eq!(default_bridge_base_dir(Some("/b"), Some("/h"), "/tmp"), "/b");
    assert_eq!(default_bridge_base_dir(None, Some("/h"), "/tmp"), "/h/.omo/bridge");
    assert_eq!(default_scope_dir("/b", 18800), "/b/scopes-18800");
    assert_eq!(absolute_control_path("/x", None, Some("/cwd")), "/x");
    assert_eq!(absolute_control_path("x", None, Some("/cwd")), "/cwd/x");
    assert_eq!(absolute_control_path("x", Some("/real/x".into()), Some("/cwd")), "/real/x");
}
