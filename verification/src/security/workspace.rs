//! Workspaces, and the scopes that delegated work runs in.
use crate::account_state::{account_id_ok, is_account_id};
use crate::accounts::LEGACY_ACCOUNT_ID;
use crate::error::{BridgeError, ErrorKind, Fault};
use crate::orca::BrowserDriverKind;
use crate::outside::{fresh_uuid, is_hyphenated, is_uuid, uuid_accepts};
use crate::paths::{absolute, components, components_of, is_absolute, is_within, join_path,
    joined_path, within};
use crate::security::path::{sanitize_fault, sanitized, PathPolicy};
use crate::text::{chars_of, copy_opt, decimal, decimal_of, ends_with, has_suffix, is_blank,
    lemma_text_le_trans, lemma_text_lt_asym, opt_text, same_text, string_of, text_before, text_le,
    text_lt, texts, trim, trimmed};
use vstd::prelude::*;

verus! {

/// What stands at a path on disk.
#[derive(Debug)]
pub enum PathState {
    /// The path cannot be resolved, for this reason.
    Unresolved(String),
    /// The path resolves to something that is no directory.
    File(String),
    /// The path resolves to a directory, whose real path this is.
    Directory(String),
}

/// A directory that work is confined to.
#[derive(Debug)]
pub struct Workspace {
    pub root: String,
}

/// Why a path cannot be a workspace.
pub open spec fn open_fault(at: PathState) -> Option<Fault> {
    match at {
        PathState::Unresolved(m) => Some(
            Fault {
                kind: ErrorKind::Path,
                detail: "Failed to canonicalize workspace: "@ + m@,
            },
        ),
        PathState::File(_) => Some(
            Fault { kind: ErrorKind::Path, detail: "Workspace root must be a directory"@ },
        ),
        PathState::Directory(_) => None,
    }
}

/// A real path that lies outside of a workspace is denied.
pub open spec fn escape_fault(place: Seq<char>, root: Seq<char>) -> Option<Fault> {
    if is_within(place, root) {
        None
    } else {
        Some(
            Fault {
                kind: ErrorKind::Security,
                detail: "Resolved path escapes workspace through a symlink: "@ + place,
            },
        )
    }
}

/// What a path inside a workspace resolves to.
#[derive(Debug)]
pub struct ResolvedPath {
    /// The real path of the nearest ancestor that exists, or why it cannot be had;
    /// nothing where no ancestor exists.
    pub ancestor: Option<Result<String, String>>,
    /// The real path of the path itself, or why it cannot be had; nothing where it
    /// does not exist.
    pub target: Option<Result<String, String>>,
}

/// Why what a path resolves to is denied.
pub open spec fn resolution_fault(seen: ResolvedPath, root: Seq<char>) -> Option<Fault> {
    match seen.ancestor {
        None => Some(
            Fault {
                kind: ErrorKind::Security,
                detail: "Path has no existing ancestor inside workspace"@,
            },
        ),
        Some(Err(m)) => Some(
            Fault {
                kind: ErrorKind::Path,
                detail: "Failed to canonicalize path ancestor: "@ + m@,
            },
        ),
        Some(Ok(a)) => match escape_fault(a@, root) {
            Some(f) => Some(f),
            None => match seen.target {
                None => None,
                Some(Err(m)) => Some(
                    Fault { kind: ErrorKind::Path, detail: "Failed to canonicalize path: "@ + m@ },
                ),
                Some(Ok(t)) => escape_fault(t@, root),
            },
        },
    }
}

impl Workspace {
    /// The workspace at a path.
    pub fn open(at: &PathState) -> (r: Result<Self, BridgeError>)
        ensures
            match r {
                Ok(w) => at matches PathState::Directory(p) && w.root@ == p@,
                Err(e) => open_fault(*at) == Some(e@),
            },
    {
        match at {
            PathState::Unresolved(m) => Err(
                BridgeError::Path("Failed to canonicalize workspace: ".to_owned().concat(m.as_str())),
            ),
            PathState::File(_) => Err(
                BridgeError::Path("Workspace root must be a directory".to_owned()),
            ),
            PathState::Directory(p) => Ok(Workspace { root: p.clone() }),
        }
    }

    pub fn root(&self) -> (r: &str)
        ensures
            r@ == self.root@,
    {
        self.root.as_str()
    }

    fn ensure_inside(&self, place: &str) -> (r: Result<(), BridgeError>)
        ensures
            match r {
                Ok(_) => escape_fault(place@, self.root@) is None,
                Err(e) => escape_fault(place@, self.root@) == Some(e@),
            },
    {
        if within(place, self.root.as_str()) {
            Ok(())
        } else {
            Err(
                BridgeError::Security(
                    "Resolved path escapes workspace through a symlink: ".to_owned().concat(place),
                ),
            )
        }
    }

    /// The path that a relative path names, once its name passes the rules.
    pub fn candidate(&self, rel: &str) -> (r: Result<String, BridgeError>)
        ensures
            match r {
                Ok(p) => sanitized(rel@) is Some && p@ == joined_path(
                    self.root@,
                    sanitized(rel@)->0,
                ),
                Err(e) => sanitize_fault(rel@) == Some(e@),
            },
    {
        match PathPolicy::sanitize_relative_path(rel) {
            Ok(clean) => Ok(join_path(self.root.as_str(), clean.as_str())),
            Err(e) => Err(e),
        }
    }

    /// The path that a relative path names, once its name passes the rules and what it
    /// resolves to lies inside the workspace.
    pub fn resolve_relative(&self, rel: &str, seen: &ResolvedPath) -> (r: Result<
        String,
        BridgeError,
    >)
        ensures
            match r {
                Ok(p) => {
                    &&& sanitized(rel@) is Some
                    &&& resolution_fault(*seen, self.root@) is None
                    &&& p@ == joined_path(self.root@, sanitized(rel@)->0)
                },
                Err(e) => Some(e@) == match sanitize_fault(rel@) {
                    Some(f) => Some(f),
                    None => resolution_fault(*seen, self.root@),
                },
            },
    {
        let path = match self.candidate(rel) {
            Ok(p) => p,
            Err(e) => {
                return Err(e);
            },
        };
        match &seen.ancestor {
            None => {
                return Err(
                    BridgeError::Security(
                        "Path has no existing ancestor inside workspace".to_owned(),
                    ),
                );
            },
            Some(Err(m)) => {
                return Err(
                    BridgeError::Path(
                        "Failed to canonicalize path ancestor: ".to_owned().concat(m.as_str()),
                    ),
                );
            },
            Some(Ok(a)) => {
                if let Err(e) = self.ensure_inside(a.as_str()) {
                    return Err(e);
                }
            },
        }
        match &seen.target {
            None => {},
            Some(Err(m)) => {
                return Err(
                    BridgeError::Path("Failed to canonicalize path: ".to_owned().concat(m.as_str())),
                );
            },
            Some(Ok(t)) => {
                if let Err(e) = self.ensure_inside(t.as_str()) {
                    return Err(e);
                }
            },
        }
        Ok(path)
    }
}

/// The browser page in which a scope's worker runs.
#[derive(Debug, PartialEq, Eq)]
pub struct BrowserBinding {
    pub account_id: String,
    pub driver: BrowserDriverKind,
    pub instance: String,
    pub page_id: String,
}

/// The mathematical value of a [`BrowserBinding`].
pub struct BindingModel {
    pub account_id: Seq<char>,
    pub driver: BrowserDriverKind,
    pub instance: Seq<char>,
    pub page_id: Seq<char>,
}

impl View for BrowserBinding {
    type V = BindingModel;

    open spec fn view(&self) -> BindingModel {
        BindingModel {
            account_id: self.account_id@,
            driver: self.driver,
            instance: self.instance@,
            page_id: self.page_id@,
        }
    }
}

impl Clone for BrowserBinding {
    fn clone(&self) -> (r: Self)
        ensures
            r == *self,
    {
        BrowserBinding {
            account_id: self.account_id.clone(),
            driver: self.driver,
            instance: self.instance.clone(),
            page_id: self.page_id.clone(),
        }
    }
}

impl BrowserBinding {
    pub fn new(account_id: &str, driver: BrowserDriverKind, instance: &str, page_id: &str) -> (r:
        Self)
        ensures
            r@ == (BindingModel {
                account_id: account_id@,
                driver,
                instance: instance@,
                page_id: page_id@,
            }),
    {
        BrowserBinding {
            account_id: account_id.to_owned(),
            driver,
            instance: instance.to_owned(),
            page_id: page_id.to_owned(),
        }
    }
}

/// A workspace that was registered for delegated work.
#[derive(Debug)]
pub struct WorkspaceScope {
    pub version: u32,
    pub scope_id: String,
    pub workspace: String,
    pub terminal: Option<String>,
    pub browser: Option<BrowserBinding>,
    /// The page of the browser binding; scopes of version 1 have only this.
    pub browser_page_id: Option<String>,
    pub created_ms: u64,
    pub updated_ms: u64,
}

/// The mathematical value of a [`WorkspaceScope`].
pub struct ScopeModel {
    pub version: u32,
    pub scope_id: Seq<char>,
    pub workspace: Seq<char>,
    pub terminal: Option<Seq<char>>,
    pub browser: Option<BindingModel>,
    pub browser_page_id: Option<Seq<char>>,
    pub created_ms: u64,
    pub updated_ms: u64,
}

pub open spec fn opt_binding(b: Option<BrowserBinding>) -> Option<BindingModel> {
    match b {
        Some(x) => Some(x@),
        None => None,
    }
}

impl View for WorkspaceScope {
    type V = ScopeModel;

    open spec fn view(&self) -> ScopeModel {
        ScopeModel {
            version: self.version,
            scope_id: self.scope_id@,
            workspace: self.workspace@,
            terminal: opt_text(self.terminal),
            browser: opt_binding(self.browser),
            browser_page_id: opt_text(self.browser_page_id),
            created_ms: self.created_ms,
            updated_ms: self.updated_ms,
        }
    }
}

impl ScopeModel {
    /// The account of the scope: that of its browser binding, or the legacy account.
    pub open spec fn account(self) -> Seq<char> {
        match self.browser {
            Some(b) => b.account_id,
            None => LEGACY_ACCOUNT_ID@,
        }
    }

    /// The page of the scope: that of its browser binding, or the one it carries
    /// without a binding.
    pub open spec fn page(self) -> Option<Seq<char>> {
        match self.browser {
            Some(b) => Some(b.page_id),
            None => self.browser_page_id,
        }
    }

    /// The browser instance of the scope, if it is bound to one.
    pub open spec fn instance(self) -> Option<Seq<char>> {
        match self.browser {
            Some(b) => Some(b.instance),
            None => None,
        }
    }

    /// The scope as callers see it: a bound scope shows the page of its binding.
    pub open spec fn shown(self) -> ScopeModel {
        if self.version == 2 && self.browser is Some {
            ScopeModel { browser_page_id: Some(self.browser->0.page_id), ..self }
        } else {
            self
        }
    }

    /// The scope as it is stored: without the page that is shown.
    pub open spec fn persisted(self) -> ScopeModel {
        ScopeModel { browser_page_id: None, ..self }
    }
}

/// A copy of an optional binding.
pub fn copy_binding(b: &Option<BrowserBinding>) -> (r: Option<BrowserBinding>)
    ensures
        r == *b,
{
    match b {
        Some(x) => Some(x.clone()),
        None => None,
    }
}

impl Clone for WorkspaceScope {
    fn clone(&self) -> (r: Self)
        ensures
            r == *self,
    {
        WorkspaceScope {
            version: self.version,
            scope_id: self.scope_id.clone(),
            workspace: self.workspace.clone(),
            terminal: copy_opt(&self.terminal),
            browser: copy_binding(&self.browser),
            browser_page_id: copy_opt(&self.browser_page_id),
            created_ms: self.created_ms,
            updated_ms: self.updated_ms,
        }
    }
}

impl WorkspaceScope {
    /// The account of the scope.
    pub fn account_id(&self) -> (r: &str)
        ensures
            r@ == self@.account(),
    {
        match &self.browser {
            Some(b) => b.account_id.as_str(),
            None => LEGACY_ACCOUNT_ID,
        }
    }

    /// The browser instance of the scope, if it is bound to one.
    pub fn browser_instance(&self) -> (r: Option<&str>)
        ensures
            match r {
                Some(s) => self.browser is Some && s@ == self.browser->0.instance@,
                None => self.browser is None,
            },
    {
        match &self.browser {
            Some(b) => Some(b.instance.as_str()),
            None => None,
        }
    }

    /// The page of the scope.
    pub fn page_id(&self) -> (r: Option<&str>)
        ensures
            match r {
                Some(s) => self@.page() == Some(s@),
                None => self@.page() is None,
            },
    {
        match &self.browser {
            Some(b) => Some(b.page_id.as_str()),
            None => match &self.browser_page_id {
                Some(p) => Some(p.as_str()),
                None => None,
            },
        }
    }
}

/// Why a browser binding is refused.
pub open spec fn binding_fault(b: BindingModel) -> Option<Fault> {
    if !is_account_id(b.account_id) {
        Some(Fault { kind: ErrorKind::Security, detail: "Invalid browser binding account id"@ })
    } else if trimmed(b.instance).len() == 0 || trimmed(b.page_id).len() == 0 {
        Some(
            Fault {
                kind: ErrorKind::Precondition,
                detail: "Browser binding instance and page_id must be non-empty"@,
            },
        )
    } else {
        None
    }
}

/// Whether a browser binding can be used.
pub fn validate_browser_binding(binding: &BrowserBinding) -> (r: Result<(), BridgeError>)
    ensures
        match r {
            Ok(_) => binding_fault(binding@) is None,
            Err(e) => binding_fault(binding@) == Some(e@),
        },
{
    if !account_id_ok(binding.account_id.as_str()) {
        return Err(BridgeError::Security("Invalid browser binding account id".to_owned()));
    }
    if is_blank(binding.instance.as_str()) || is_blank(binding.page_id.as_str()) {
        return Err(
            BridgeError::Precondition(
                "Browser binding instance and page_id must be non-empty".to_owned(),
            ),
        );
    }
    Ok(())
}

/// Why a text cannot name a scope.
pub open spec fn scope_id_fault(scope_id: Seq<char>) -> Option<Fault> {
    if is_uuid(scope_id) {
        None
    } else {
        Some(Fault { kind: ErrorKind::Security, detail: "Invalid workspace scope id"@ })
    }
}

/// Whether a text can name a scope.
pub fn validate_scope_id(scope_id: &str) -> (r: Result<(), BridgeError>)
    ensures
        match r {
            Ok(_) => scope_id_fault(scope_id@) is None,
            Err(e) => scope_id_fault(scope_id@) == Some(e@),
        },
{
    if uuid_accepts(scope_id) {
        Ok(())
    } else {
        Err(BridgeError::Security("Invalid workspace scope id".to_owned()))
    }
}

/// Why the stored state of a scope is refused.
pub open spec fn state_fault(scope: ScopeModel, scope_id: Seq<char>) -> Option<Fault> {
    if (scope.version != 1 && scope.version != 2) || scope.scope_id != scope_id {
        Some(
            Fault { kind: ErrorKind::Path, detail: "Invalid workspace scope state for "@ + scope_id },
        )
    } else if scope.version == 1 {
        if scope.browser is Some {
            Some(
                Fault {
                    kind: ErrorKind::Path,
                    detail: "Invalid V1 workspace scope browser binding for "@ + scope_id,
                },
            )
        } else {
            None
        }
    } else {
        match scope.browser {
            Some(b) => if binding_fault(b) is Some {
                binding_fault(b)
            } else if scope.browser_page_id is Some && scope.browser_page_id->0 != b.page_id {
                Some(
                    Fault {
                        kind: ErrorKind::Path,
                        detail: "Conflicting browser page ids in workspace scope "@ + scope_id,
                    },
                )
            } else {
                None
            },
            None => if scope.browser_page_id is Some {
                Some(
                    Fault {
                        kind: ErrorKind::Path,
                        detail: "V2 workspace scope "@ + scope_id
                            + " contains legacy browser_page_id without browser binding"@,
                    },
                )
            } else {
                None
            },
        }
    }
}

/// Checks the stored state of a scope and shows the page of its binding.
pub fn check_scope_state(scope: &WorkspaceScope, scope_id: &str) -> (r: Result<
    WorkspaceScope,
    BridgeError,
>)
    ensures
        match r {
            Ok(s) => state_fault(scope@, scope_id@) is None && s@ == scope@.shown(),
            Err(e) => state_fault(scope@, scope_id@) == Some(e@),
        },
{
    if (scope.version != 1 && scope.version != 2) || !same_text(scope.scope_id.as_str(), scope_id) {
        return Err(
            BridgeError::Path("Invalid workspace scope state for ".to_owned().concat(scope_id)),
        );
    }
    let mut out = scope.clone();
    if scope.version == 1 {
        if scope.browser.is_some() {
            return Err(
                BridgeError::Path(
                    "Invalid V1 workspace scope browser binding for ".to_owned().concat(scope_id),
                ),
            );
        }
        return Ok(out);
    }
    match &scope.browser {
        Some(b) => {
            if let Err(e) = validate_browser_binding(b) {
                return Err(e);
            }
            if let Some(page) = &scope.browser_page_id {
                if !same_text(page.as_str(), b.page_id.as_str()) {
                    return Err(
                        BridgeError::Path(
                            "Conflicting browser page ids in workspace scope ".to_owned().concat(
                                scope_id,
                            ),
                        ),
                    );
                }
            }
            out.browser_page_id = Some(b.page_id.clone());
        },
        None => {
            if scope.browser_page_id.is_some() {
                return Err(
                    BridgeError::Path(
                        "V2 workspace scope ".to_owned().concat(scope_id).concat(
                            " contains legacy browser_page_id without browser binding",
                        ),
                    ),
                );
            }
        },
    }
    Ok(out)
}

/// What the file of a scope holds.
#[derive(Debug)]
pub enum ScopeContent {
    /// The file cannot be read, for this reason.
    Unreadable(String),
    /// The file holds no scope, for this reason.
    Malformed(String),
    Parsed(WorkspaceScope),
}

/// A file of the scope directory.
#[derive(Debug)]
pub struct ScopeFile {
    pub name: String,
    /// Whether the name is valid Unicode; else `name` is its nearest text.
    pub name_valid: bool,
    pub content: ScopeContent,
    /// What stands at the path of the scope's workspace.
    pub place: PathState,
}

/// The scopes of a bridge, over what its scope directory holds.
#[derive(Debug)]
pub struct WorkspaceMux {
    /// The real path below which workspaces must lie.
    pub mount_root: String,
    /// The real path of the scope directory.
    pub scope_dir: String,
    /// The real path of the user's home directory, if it has one.
    pub home: Option<String>,
    /// The absolute path of the bridge's control directory.
    pub bridge_dir: String,
    pub files: Vec<ScopeFile>,
}

/// The position of the first file with this name, or the number of files.
pub open spec fn file_position(files: Seq<ScopeFile>, name: Seq<char>) -> int
    decreases files.len(),
{
    if files.len() == 0 || files[0].name@ == name {
        0
    } else {
        1 + file_position(files.drop_first(), name)
    }
}

/// What a file with a scope and a place says, for the scope with this id.
pub open spec fn file_scope(content: ScopeContent, scope_id: Seq<char>) -> Result<ScopeModel, Fault> {
    match content {
        ScopeContent::Unreadable(m) => Err(Fault { kind: ErrorKind::Io, detail: m@ }),
        ScopeContent::Malformed(m) => Err(Fault { kind: ErrorKind::Serialization, detail: m@ }),
        ScopeContent::Parsed(s) => match state_fault(s@, scope_id) {
            Some(f) => Err(f),
            None => Ok(s@.shown()),
        },
    }
}

/// Why a workspace cannot be registered, given where it really is.
pub open spec fn place_fault(
    mount_root: Seq<char>,
    scope_dir: Seq<char>,
    home: Option<Seq<char>>,
    bridge_dir: Seq<char>,
    root: Seq<char>,
) -> Option<Fault> {
    if !is_within(root, mount_root) {
        Some(
            Fault {
                kind: ErrorKind::Security,
                detail: "Workspace "@ + root + " is outside mount root "@ + mount_root,
            },
        )
    } else if components(root).len() == 0 {
        Some(
            Fault {
                kind: ErrorKind::Security,
                detail: "Refusing to register the filesystem root itself as a workspace scope"@,
            },
        )
    } else if home is Some && is_within(home->0, root) {
        Some(
            Fault {
                kind: ErrorKind::Security,
                detail: "Refusing a workspace root that is $HOME or a broader ancestor"@,
            },
        )
    } else if overlaps(scope_dir, root) {
        Some(overlap_fault(root, "workspace scope control directory"@, scope_dir))
    } else if overlaps(bridge_dir, root) {
        Some(overlap_fault(root, "bridge control directory"@, bridge_dir))
    } else {
        None
    }
}

/// One of two paths lies within the other.
pub open spec fn overlaps(a: Seq<char>, b: Seq<char>) -> bool {
    is_within(a, b) || is_within(b, a)
}

pub open spec fn overlap_fault(root: Seq<char>, label: Seq<char>, control: Seq<char>) -> Fault {
    Fault {
        kind: ErrorKind::Security,
        detail: "Refusing workspace "@ + root + " because it overlaps the "@ + label + " "@ + control,
    }
}

/// The scope id in the name of a scope file: what stands before `.json`.
pub open spec fn json_stem(name: Seq<char>) -> Option<Seq<char>> {
    if has_suffix(name, ".json"@) && name.len() > 5 {
        Some(name.subrange(0, name.len() - 5))
    } else {
        None
    }
}

/// The scope with its place in a list that is ordered by scope id, behind those with
/// the same id.
pub open spec fn inserted(list: Seq<ScopeModel>, x: ScopeModel) -> Seq<ScopeModel>
    decreases list.len(),
{
    if list.len() == 0 || !text_lt(x.scope_id, list.last().scope_id) {
        list.push(x)
    } else {
        inserted(list.drop_last(), x).push(list.last())
    }
}

/// A list of scopes, ordered by scope id.
pub open spec fn ordered(list: Seq<ScopeModel>) -> Seq<ScopeModel>
    decreases list.len(),
{
    if list.len() == 0 {
        Seq::empty()
    } else {
        inserted(ordered(list.drop_last()), list.last())
    }
}

pub open spec fn scope_models(v: Seq<WorkspaceScope>) -> Seq<ScopeModel> {
    v.map_values(|s: WorkspaceScope| s@)
}

impl WorkspaceMux {
    /// Why a place cannot be the workspace of a scope.
    pub open spec fn refusal(self, at: PathState) -> Option<Fault> {
        match open_fault(at) {
            Some(f) => Some(f),
            None => place_fault(
                self.mount_root@,
                self.scope_dir@,
                opt_text(self.home),
                self.bridge_dir@,
                at->Directory_0@,
            ),
        }
    }

    /// What looking up a scope gives.
    pub open spec fn found(self, scope_id: Seq<char>) -> Result<ScopeModel, Fault> {
        let i = file_position(self.files@, scope_id + ".json"@);
        match scope_id_fault(scope_id) {
            Some(f) => Err(f),
            None => if i == self.files@.len() {
                Err(
                    Fault {
                        kind: ErrorKind::Path,
                        detail: "Unknown or expired workspace scope: "@ + scope_id,
                    },
                )
            } else {
                match file_scope(self.files@[i].content, scope_id) {
                    Err(f) => Err(f),
                    Ok(s) => match self.refusal(self.files@[i].place) {
                        Some(f) => Err(f),
                        None => Ok(s),
                    },
                }
            },
        }
    }

    /// `self` is `before` but for its files.
    pub open spec fn same_but_files(self, before: WorkspaceMux) -> bool {
        &&& self.mount_root == before.mount_root
        &&& self.scope_dir == before.scope_dir
        &&& self.home == before.home
        &&& self.bridge_dir == before.bridge_dir
    }

    /// What a file adds to a listing: nothing, a scope, or a failure of a strict one.
    pub open spec fn file_entry(self, file: ScopeFile) -> Result<Option<ScopeModel>, Fault> {
        match json_stem(file.name@) {
            None => Ok(None),
            Some(stem) => if !file.name_valid {
                Err(
                    Fault {
                        kind: ErrorKind::Precondition,
                        detail: "invalid scope state filename: "@ + joined_path(
                            self.scope_dir@,
                            file.name@,
                        ),
                    },
                )
            } else if !is_uuid(stem) {
                Err(
                    Fault {
                        kind: ErrorKind::Precondition,
                        detail: "invalid scope state id: "@ + stem,
                    },
                )
            } else {
                match self.found(stem) {
                    Ok(s) => Ok(Some(s)),
                    Err(f) => Err(f),
                }
            },
        }
    }

    /// The scopes of some files, in their order; a strict listing ends at the first
    /// failure, another passes over it.
    pub open spec fn collected(self, files: Seq<ScopeFile>, strict: bool) -> Result<
        Seq<ScopeModel>,
        Fault,
    >
        decreases files.len(),
    {
        if files.len() == 0 {
            Ok(Seq::empty())
        } else {
            match self.collected(files.drop_last(), strict) {
                Err(f) => Err(f),
                Ok(list) => match self.file_entry(files.last()) {
                    Ok(Some(s)) => Ok(list.push(s)),
                    Ok(None) => Ok(list),
                    Err(f) => if strict {
                        Err(f)
                    } else {
                        Ok(list)
                    },
                },
            }
        }
    }

    /// What listing the scopes gives: they are ordered by scope id.
    pub open spec fn listed(self, strict: bool) -> Result<Seq<ScopeModel>, Fault> {
        match self.collected(self.files@, strict) {
            Ok(list) => Ok(ordered(list)),
            Err(f) => Err(f),
        }
    }

    /// The scopes of a bridge whose scope directory holds nothing.
    pub fn new(
        mount_root: &PathState,
        scope_dir: &Result<String, String>,
        home: Option<String>,
        bridge_dir: &str,
    ) -> (r: Result<Self, BridgeError>)
        ensures
            match r {
                Ok(m) => {
                    &&& mount_root matches PathState::Directory(p)
                    &&& m.mount_root@ == p@
                    &&& scope_dir matches Ok(d)
                    &&& m.scope_dir@ == d@
                    &&& m.home == home
                    &&& m.bridge_dir@ == bridge_dir@
                    &&& m.files@.len() == 0
                },
                Err(e) => e is Path && match (*mount_root, *scope_dir) {
                    (PathState::Unresolved(m), _) => e.detail()
                        == "Failed to canonicalize mount root: "@ + m@,
                    (PathState::File(_), _) => e.detail() == "Mount root must be a directory"@,
                    (PathState::Directory(_), Err(m)) => e.detail()
                        == "Failed to canonicalize scope directory: "@ + m@,
                    (PathState::Directory(_), Ok(_)) => false,
                },
            },
    {
        let root = match mount_root {
            PathState::Unresolved(m) => {
                return Err(
                    BridgeError::Path(
                        "Failed to canonicalize mount root: ".to_owned().concat(m.as_str()),
                    ),
                );
            },
            PathState::File(_) => {
                return Err(BridgeError::Path("Mount root must be a directory".to_owned()));
            },
            PathState::Directory(p) => p.clone(),
        };
        let dir = match scope_dir {
            Ok(d) => d.clone(),
            Err(m) => {
                return Err(
                    BridgeError::Path(
                        "Failed to canonicalize scope directory: ".to_owned().concat(m.as_str()),
                    ),
                );
            },
        };
        Ok(
            WorkspaceMux {
                mount_root: root,
                scope_dir: dir,
                home,
                bridge_dir: bridge_dir.to_owned(),
                files: Vec::new(),
            },
        )
    }

    pub fn mount_root(&self) -> (r: &str)
        ensures
            r@ == self.mount_root@,
    {
        self.mount_root.as_str()
    }

    pub fn scope_dir(&self) -> (r: &str)
        ensures
            r@ == self.scope_dir@,
    {
        self.scope_dir.as_str()
    }

    /// Where the state of a scope is kept.
    pub fn scope_path(&self, scope_id: &str) -> (r: String)
        ensures
            r@ == joined_path(self.scope_dir@, scope_id@ + ".json"@),
    {
        let name = scope_id.to_owned().concat(".json");
        join_path(self.scope_dir.as_str(), name.as_str())
    }

    /// Where the lock of a scope is kept.
    pub fn lock_path(&self, scope_id: &str) -> (r: Result<String, BridgeError>)
        ensures
            match r {
                Ok(p) => scope_id_fault(scope_id@) is None && p@ == joined_path(
                    joined_path(self.scope_dir@, ".locks"@),
                    scope_id@ + ".lock"@,
                ),
                Err(e) => scope_id_fault(scope_id@) == Some(e@),
            },
    {
        if let Err(e) = validate_scope_id(scope_id) {
            return Err(e);
        }
        let dir = join_path(self.scope_dir.as_str(), ".locks");
        let name = scope_id.to_owned().concat(".lock");
        Ok(join_path(dir.as_str(), name.as_str()))
    }

    fn ensure_within_mount(&self, root: &str) -> (r: Result<(), BridgeError>)
        ensures
            match r {
                Ok(_) => is_within(root@, self.mount_root@),
                Err(e) => !is_within(root@, self.mount_root@) && e@ == (Fault {
                    kind: ErrorKind::Security,
                    detail: "Workspace "@ + root@ + " is outside mount root "@ + self.mount_root@,
                }),
            },
    {
        if within(root, self.mount_root.as_str()) {
            return Ok(());
        }
        Err(
            BridgeError::Security(
                "Workspace ".to_owned().concat(root).concat(" is outside mount root ").concat(
                    self.mount_root.as_str(),
                ),
            ),
        )
    }

    fn overlap(root: &str, label: &str, control: &str) -> (r: Option<BridgeError>)
        ensures
            match r {
                Some(e) => overlaps(control@, root@) && e@ == overlap_fault(
                    root@,
                    label@,
                    control@,
                ),
                None => !overlaps(control@, root@),
            },
    {
        if within(control, root) || within(root, control) {
            Some(
                BridgeError::Security(
                    "Refusing workspace ".to_owned().concat(root).concat(
                        " because it overlaps the ",
                    ).concat(label).concat(" ").concat(control),
                ),
            )
        } else {
            None
        }
    }

    fn ensure_safe_workspace_root(&self, root: &str) -> (r: Result<(), BridgeError>)
        requires
            is_within(root@, self.mount_root@),
        ensures
            ({
                let fault = place_fault(
                    self.mount_root@,
                    self.scope_dir@,
                    opt_text(self.home),
                    self.bridge_dir@,
                    root@,
                );
                match r {
                    Ok(_) => fault is None,
                    Err(e) => fault == Some(e@),
                }
            }),
    {
        let parts = components_of(root);
        assert(texts(parts@).len() == parts@.len());
        if parts.len() == 0 {
            return Err(
                BridgeError::Security(
                    "Refusing to register the filesystem root itself as a workspace scope".to_owned(),
                ),
            );
        }
        if let Some(home) = &self.home {
            if within(home.as_str(), root) {
                return Err(
                    BridgeError::Security(
                        "Refusing a workspace root that is $HOME or a broader ancestor".to_owned(),
                    ),
                );
            }
        }
        if let Some(e) = Self::overlap(
            root,
            "workspace scope control directory",
            self.scope_dir.as_str(),
        ) {
            return Err(e);
        }
        if let Some(e) = Self::overlap(root, "bridge control directory", self.bridge_dir.as_str()) {
            return Err(e);
        }
        Ok(())
    }

    /// The workspace at a place, once the place passes the rules.
    fn take_place(&self, at: &PathState) -> (r: Result<Workspace, BridgeError>)
        ensures
            match r {
                Ok(w) => {
                    &&& self.refusal(*at) is None
                    &&& at matches PathState::Directory(p)
                    &&& w.root@ == p@
                },
                Err(e) => self.refusal(*at) == Some(e@),
            },
    {
        let workspace = match Workspace::open(at) {
            Ok(w) => w,
            Err(e) => {
                return Err(e);
            },
        };
        if let Err(e) = self.ensure_within_mount(workspace.root.as_str()) {
            return Err(e);
        }
        if let Err(e) = self.ensure_safe_workspace_root(workspace.root.as_str()) {
            return Err(e);
        }
        Ok(workspace)
    }

    /// The position of the first file with this name, or the number of files.
    fn position(&self, name: &str) -> (r: usize)
        ensures
            r == file_position(self.files@, name@),
            r <= self.files@.len(),
            r < self.files@.len() ==> self.files@[r as int].name@ == name@,
            forall|j: int| 0 <= j < r ==> (#[trigger] self.files@[j]).name@ != name@,
    {
        let ghost all = self.files@;
        let mut i: usize = 0;
        assert(all.subrange(0, all.len() as int) =~= all);
        while i < self.files.len()
            invariant
                i <= self.files@.len(),
                all == self.files@,
                file_position(all, name@) == i + file_position(
                    all.subrange(i as int, all.len() as int),
                    name@,
                ),
                forall|j: int| 0 <= j < i ==> (#[trigger] all[j]).name@ != name@,
            decreases self.files@.len() - i,
        {
            if same_text(self.files[i].name.as_str(), name) {
                return i;
            }
            assert(all.subrange(i as int, all.len() as int).drop_first() =~= all.subrange(
                i + 1,
                all.len() as int,
            ));
            i += 1;
        }
        i
    }

    /// Looks up a scope.
    pub fn lookup(&self, scope_id: &str) -> (r: Result<WorkspaceScope, BridgeError>)
        ensures
            match r {
                Ok(s) => self.found(scope_id@) == Ok::<ScopeModel, Fault>(s@),
                Err(e) => self.found(scope_id@) == Err::<ScopeModel, Fault>(e@),
            },
    {
        if let Err(e) = validate_scope_id(scope_id) {
            return Err(e);
        }
        let name = scope_id.to_owned().concat(".json");
        let i = self.position(name.as_str());
        if i == self.files.len() {
            return Err(
                BridgeError::Path("Unknown or expired workspace scope: ".to_owned().concat(scope_id)),
            );
        }
        let scope = match &self.files[i].content {
            ScopeContent::Unreadable(m) => {
                return Err(BridgeError::Io(m.clone()));
            },
            ScopeContent::Malformed(m) => {
                return Err(BridgeError::Serialization(m.clone()));
            },
            ScopeContent::Parsed(s) => match check_scope_state(s, scope_id) {
                Ok(s) => s,
                Err(e) => {
                    return Err(e);
                },
            },
        };
        if let Err(e) = self.take_place(&self.files[i].place) {
            return Err(e);
        }
        Ok(scope)
    }
}

proof fn lemma_position_bounds(files: Seq<ScopeFile>, name: Seq<char>)
    ensures
        0 <= file_position(files, name) <= files.len(),
        file_position(files, name) < files.len() ==> files[file_position(files, name)].name@ == name,
    decreases files.len(),
{
    if files.len() > 0 && files[0].name@ != name {
        lemma_position_bounds(files.drop_first(), name);
        let k = file_position(files.drop_first(), name);
        if k < files.drop_first().len() {
            assert(files.drop_first()[k] == files[k + 1]);
        }
    }
}

proof fn lemma_position_update(files: Seq<ScopeFile>, i: int, new: ScopeFile, name: Seq<char>)
    requires
        0 <= i < files.len(),
        files[i].name@ == new.name@,
    ensures
        file_position(files.update(i, new), name) == file_position(files, name),
    decreases files.len(),
{
    let u = files.update(i, new);
    if i > 0 {
        assert(u.drop_first() =~= files.drop_first().update(i - 1, new));
        lemma_position_update(files.drop_first(), i - 1, new, name);
    } else {
        assert(u.drop_first() =~= files.drop_first());
    }
}

proof fn lemma_position_push(files: Seq<ScopeFile>, new: ScopeFile, name: Seq<char>)
    ensures
        file_position(files.push(new), name) == (if file_position(files, name) < files.len() {
            file_position(files, name)
        } else if new.name@ == name {
            files.len() as int
        } else {
            files.len() as int + 1
        }),
    decreases files.len(),
{
    let u = files.push(new);
    if files.len() > 0 {
        assert(u.drop_first() =~= files.drop_first().push(new));
        lemma_position_push(files.drop_first(), new, name);
        lemma_position_bounds(files.drop_first(), name);
    } else {
        assert(u.drop_first() =~= files);
        reveal_with_fuel(file_position, 2);
    }
}

/// The files without those of a name.
pub open spec fn files_without(files: Seq<ScopeFile>, name: Seq<char>) -> Seq<ScopeFile> {
    files.filter(|f: ScopeFile| f.name@ != name)
}

proof fn lemma_position_without(files: Seq<ScopeFile>, gone: Seq<char>, name: Seq<char>)
    ensures
        ({
            let left = files_without(files, gone);
            let i = file_position(files, name);
            let k = file_position(left, name);
            if name == gone || i == files.len() {
                k == left.len()
            } else {
                k < left.len() && left[k] == files[i]
            }
        }),
    decreases files.len(),
{
    let keep = |f: ScopeFile| f.name@ != gone;
    let left = files_without(files, gone);
    reveal(Seq::filter);
    if files.len() == 0 {
        assert(left =~= Seq::<ScopeFile>::empty());
    } else {
        let front = files.drop_last();
        let last = files.last();
        lemma_position_without(front, gone, name);
        lemma_position_bounds(front, name);
        assert(files =~= front.push(last));
        lemma_position_push(front, last, name);
        let rest = files_without(front, gone);
        lemma_position_bounds(rest, name);
        if keep(last) {
            assert(left == rest.push(last));
            lemma_position_push(rest, last, name);
        }
    }
}

proof fn lemma_suffix_distinct(a: Seq<char>, b: Seq<char>, suffix: Seq<char>)
    requires
        a + suffix == b + suffix,
    ensures
        a == b,
{
    let both = a + suffix;
    assert(both.len() == a.len() + suffix.len());
    assert((b + suffix).len() == b.len() + suffix.len());
    assert(a =~= both.subrange(0, a.len() as int));
    assert(b =~= (b + suffix).subrange(0, b.len() as int));
}

/// The scope that registering makes.
pub open spec fn new_scope(
    scope_id: Seq<char>,
    workspace: Seq<char>,
    terminal: Option<Seq<char>>,
    browser: Option<BindingModel>,
    now_ms: u64,
) -> ScopeModel {
    ScopeModel {
        version: 2,
        scope_id,
        workspace,
        terminal,
        browser,
        browser_page_id: match browser {
            Some(b) => Some(b.page_id),
            None => None,
        },
        created_ms: now_ms,
        updated_ms: now_ms,
    }
}

impl WorkspaceMux {
    /// `self` is `before` with a scope stored under its id, its workspace at a place: the
    /// file of the scope takes the place of the one that was there, or stands behind the
    /// others, and no other file changes.
    pub open spec fn stored(self, before: WorkspaceMux, scope: ScopeModel, place: PathState) -> bool {
        let i = file_position(before.files@, scope.scope_id + ".json"@);
        let file = self.files@[i];
        &&& self.same_but_files(before)
        &&& file.name@ == scope.scope_id + ".json"@
        &&& file.name_valid
        &&& file.place == place
        &&& (file.content matches ScopeContent::Parsed(s) && s@ == scope.persisted())
        &&& self.files@ == (if i < before.files@.len() {
            before.files@.update(i, file)
        } else {
            before.files@.push(file)
        })
        &&& self.found(scope.scope_id) == Ok::<ScopeModel, Fault>(scope.persisted().shown())
        &&& forall|id: Seq<char>|
            id != scope.scope_id ==> #[trigger] self.found(id) == before.found(id)
    }

    /// Stores a scope whose workspace is at a place.
    fn persist(&mut self, scope: &WorkspaceScope, place: PathState)
        requires
            scope_id_fault(scope.scope_id@) is None,
            state_fault(scope@.persisted(), scope.scope_id@) is None,
            old(self).refusal(place) is None,
        ensures
            final(self).stored(*old(self), scope@, place),
    {
        let ghost id = scope.scope_id@;
        let ghost before = *self;
        let name = scope.scope_id.clone().concat(".json");
        let i = self.position(name.as_str());
        let mut kept = scope.clone();
        kept.browser_page_id = None;
        assert(kept@ =~= scope@.persisted());
        let file = ScopeFile {
            name,
            name_valid: true,
            content: ScopeContent::Parsed(kept),
            place,
        };
        let ghost new = file;
        if i < self.files.len() {
            self.files.set(i, file);
            proof {
                assert forall|n: Seq<char>| #[trigger] file_position(self.files@, n)
                    == file_position(before.files@, n) by {
                    lemma_position_update(before.files@, i as int, new, n);
                }
            }
        } else {
            self.files.push(file);
            proof {
                assert forall|n: Seq<char>| n != new.name@ implies (#[trigger] file_position(
                    self.files@,
                    n,
                ) == self.files@.len()) == (file_position(before.files@, n) == before.files@.len())
                    && (file_position(before.files@, n) < before.files@.len() ==> file_position(
                    self.files@,
                    n,
                ) == file_position(before.files@, n)) by {
                    lemma_position_push(before.files@, new, n);
                    lemma_position_bounds(before.files@, n);
                }
                lemma_position_push(before.files@, new, new.name@);
            }
        }
        proof {
            assert(file_position(self.files@, new.name@) == i);
            assert(self.files@[i as int] == new);
            assert(self.refusal(new.place) == before.refusal(new.place));
            assert forall|other: Seq<char>| other != id implies #[trigger] self.found(other)
                == before.found(other) by {
                let n = other + ".json"@;
                if n == new.name@ {
                    lemma_suffix_distinct(other, id, ".json"@);
                }
                lemma_position_bounds(before.files@, n);
                lemma_position_bounds(self.files@, n);
                let k = file_position(before.files@, n);
                if k < before.files@.len() {
                    assert(before.files@[k].name@ == n);
                    assert(self.files@[k] == before.files@[k]);
                    assert(self.refusal(self.files@[k].place) == before.refusal(
                        before.files@[k].place,
                    ));
                }
            }
        }
    }

    /// Why a scope cannot be registered.
    pub open spec fn register_fault(
        self,
        scope_id: Seq<char>,
        at: PathState,
        browser: Option<BindingModel>,
    ) -> Option<Fault> {
        if scope_id_fault(scope_id) is Some {
            scope_id_fault(scope_id)
        } else if self.refusal(at) is Some {
            self.refusal(at)
        } else if browser is Some {
            binding_fault(browser->0)
        } else {
            None
        }
    }

    /// Registers the workspace at a place under an id.
    pub fn register_with_id(
        &mut self,
        scope_id: &str,
        at: PathState,
        terminal: Option<String>,
        browser: Option<BrowserBinding>,
        now_ms: u64,
    ) -> (r: Result<WorkspaceScope, BridgeError>)
        ensures
            match r {
                Ok(s) => {
                    &&& old(self).register_fault(scope_id@, at, opt_binding(browser)) is None
                    &&& s@ == new_scope(
                        scope_id@,
                        at->Directory_0@,
                        opt_text(terminal),
                        opt_binding(browser),
                        now_ms,
                    )
                    &&& final(self).stored(*old(self), s@, at)
                },
                Err(e) => {
                    &&& *final(self) == *old(self)
                    &&& old(self).register_fault(scope_id@, at, opt_binding(browser)) == Some(e@)
                },
            },
    {
        if let Err(e) = validate_scope_id(scope_id) {
            return Err(e);
        }
        let workspace = match self.take_place(&at) {
            Ok(w) => w,
            Err(e) => {
                return Err(e);
            },
        };
        let page: Option<String> = match &browser {
            Some(b) => {
                if let Err(e) = validate_browser_binding(b) {
                    return Err(e);
                }
                Some(b.page_id.clone())
            },
            None => None,
        };
        let scope = WorkspaceScope {
            version: 2,
            scope_id: scope_id.to_owned(),
            workspace: workspace.root,
            terminal,
            browser,
            browser_page_id: page,
            created_ms: now_ms,
            updated_ms: now_ms,
        };
        self.persist(&scope, at);
        Ok(scope)
    }

    /// Registers a workspace under a fresh id, for work in a terminal.
    pub fn register(&mut self, at: PathState, terminal: Option<String>, now_ms: u64) -> (r: Result<
        WorkspaceScope,
        BridgeError,
    >)
        ensures
            match r {
                Ok(s) => {
                    &&& old(self).refusal(at) is None
                    &&& is_hyphenated(s.scope_id@)
                    &&& s@ == new_scope(
                        s.scope_id@,
                        at->Directory_0@,
                        opt_text(terminal),
                        None,
                        now_ms,
                    )
                    &&& final(self).stored(*old(self), s@, at)
                },
                Err(e) => *final(self) == *old(self) && old(self).refusal(at) == Some(e@),
            },
    {
        let scope_id = fresh_uuid();
        self.register_with_id(scope_id.as_str(), at, terminal, None, now_ms)
    }

    /// Registers a workspace under a fresh id, for work in a browser page.
    pub fn register_browser_binding(
        &mut self,
        at: PathState,
        browser: BrowserBinding,
        now_ms: u64,
    ) -> (r: Result<WorkspaceScope, BridgeError>)
        ensures
            match r {
                Ok(s) => {
                    &&& binding_fault(browser@) is None
                    &&& old(self).refusal(at) is None
                    &&& is_hyphenated(s.scope_id@)
                    &&& s@ == new_scope(
                        s.scope_id@,
                        at->Directory_0@,
                        None,
                        Some(browser@),
                        now_ms,
                    )
                    &&& final(self).stored(*old(self), s@, at)
                },
                Err(e) => *final(self) == *old(self) && Some(e@) == match binding_fault(browser@) {
                    Some(f) => Some(f),
                    None => old(self).refusal(at),
                },
            },
    {
        if let Err(e) = validate_browser_binding(&browser) {
            return Err(e);
        }
        let scope_id = fresh_uuid();
        self.register_with_id(scope_id.as_str(), at, None, Some(browser), now_ms)
    }

    /// Registers a workspace under a fresh id, for work in a page of the legacy account.
    pub fn register_browser(&mut self, at: PathState, browser_page_id: &str, now_ms: u64) -> (r:
        Result<WorkspaceScope, BridgeError>)
        ensures
            ({
                let browser = BindingModel {
                    account_id: LEGACY_ACCOUNT_ID@,
                    driver: BrowserDriverKind::Orca,
                    instance: "legacy"@,
                    page_id: browser_page_id@,
                };
                match r {
                    Ok(s) => {
                        &&& binding_fault(browser) is None
                        &&& old(self).refusal(at) is None
                        &&& is_hyphenated(s.scope_id@)
                        &&& s@ == new_scope(
                            s.scope_id@,
                            at->Directory_0@,
                            None,
                            Some(browser),
                            now_ms,
                        )
                        &&& final(self).stored(*old(self), s@, at)
                    },
                    Err(e) => *final(self) == *old(self) && Some(e@) == match binding_fault(
                        browser,
                    ) {
                        Some(f) => Some(f),
                        None => old(self).refusal(at),
                    },
                }
            }),
    {
        let browser = BrowserBinding::new(
            LEGACY_ACCOUNT_ID,
            BrowserDriverKind::Orca,
            "legacy",
            browser_page_id,
        );
        self.register_browser_binding(at, browser, now_ms)
    }

    /// The root of the workspace of a scope.
    pub open spec fn resolved(self, scope_id: Seq<char>) -> Result<Seq<char>, Fault> {
        match self.found(scope_id) {
            Ok(_) => Ok(
                self.files@[file_position(self.files@, scope_id + ".json"@)].place->Directory_0@,
            ),
            Err(f) => Err(f),
        }
    }

    /// The workspace of a scope.
    pub fn resolve(&self, scope_id: &str) -> (r: Result<Workspace, BridgeError>)
        ensures
            match r {
                Ok(w) => self.resolved(scope_id@) == Ok::<Seq<char>, Fault>(w.root@),
                Err(e) => self.resolved(scope_id@) == Err::<Seq<char>, Fault>(e@),
            },
    {
        if let Err(e) = self.lookup(scope_id) {
            return Err(e);
        }
        let name = scope_id.to_owned().concat(".json");
        let i = self.position(name.as_str());
        Workspace::open(&self.files[i].place)
    }

    /// Notes the terminal in which the worker of a scope runs.
    pub fn update_terminal(&mut self, scope_id: &str, terminal: &str, now_ms: u64) -> (r: Result<
        WorkspaceScope,
        BridgeError,
    >)
        ensures
            match r {
                Ok(s) => {
                    let i = file_position(old(self).files@, scope_id@ + ".json"@);
                    &&& old(self).found(scope_id@) matches Ok(before)
                    &&& s@ == (ScopeModel {
                        terminal: Some(terminal@),
                        updated_ms: now_ms,
                        ..before
                    })
                    &&& final(self).stored(*old(self), s@, old(self).files@[i].place)
                },
                Err(e) => {
                    &&& *final(self) == *old(self)
                    &&& old(self).found(scope_id@) == Err::<ScopeModel, Fault>(e@)
                },
            },
    {
        let mut scope = match self.lookup(scope_id) {
            Ok(s) => s,
            Err(e) => {
                return Err(e);
            },
        };
        let ghost before = scope@;
        let name = scope_id.to_owned().concat(".json");
        let i = self.position(name.as_str());
        let place = self.files[i].place.copy();
        scope.terminal = Some(terminal.to_owned());
        scope.updated_ms = now_ms;
        assert(scope@ =~= ScopeModel { terminal: Some(terminal@), updated_ms: now_ms, ..before });
        self.persist(&scope, place);
        Ok(scope)
    }

    /// Forgets a scope; one that is not there stays away.
    pub fn remove(&mut self, scope_id: &str) -> (r: Result<(), BridgeError>)
        ensures
            match r {
                Ok(_) => {
                    &&& scope_id_fault(scope_id@) is None
                    &&& final(self).same_but_files(*old(self))
                    &&& final(self).files@ == files_without(old(self).files@, scope_id@ + ".json"@)
                    &&& final(self).found(scope_id@) == Err::<ScopeModel, Fault>(
                        Fault {
                            kind: ErrorKind::Path,
                            detail: "Unknown or expired workspace scope: "@ + scope_id@,
                        },
                    )
                    &&& forall|id: Seq<char>|
                        id != scope_id@ ==> #[trigger] final(self).found(id) == old(self).found(id)
                },
                Err(e) => *final(self) == *old(self) && scope_id_fault(scope_id@) == Some(e@),
            },
    {
        if let Err(e) = validate_scope_id(scope_id) {
            return Err(e);
        }
        let name = scope_id.to_owned().concat(".json");
        let ghost before = *self;
        let ghost gone = name@;
        let mut i: usize = 0;
        proof {
            reveal(Seq::filter);
            assert(before.files@.subrange(0, 0) =~= Seq::<ScopeFile>::empty());
            assert(before.files@.subrange(0, before.files@.len() as int) =~= before.files@);
            assert(self.files@.subrange(0, 0) =~= Seq::<ScopeFile>::empty());
            assert(self.files@ =~= Seq::<ScopeFile>::empty() + before.files@);
        }
        let ghost mut taken: int = 0;
        while i < self.files.len()
            invariant
                i <= self.files@.len(),
                gone == name@,
                self.same_but_files(before),
                0 <= taken <= before.files@.len(),
                self.files@ == files_without(before.files@.subrange(0, taken), gone)
                    + before.files@.subrange(taken, before.files@.len() as int),
                i == files_without(before.files@.subrange(0, taken), gone).len(),
            decreases self.files@.len() - i,
        {
            let ghost head = before.files@.subrange(0, taken);
            let ghost more = before.files@.subrange(0, taken + 1);
            let ghost tail = before.files@.subrange(taken, before.files@.len() as int);
            let ghost now = self.files@;
            proof {
                reveal(Seq::filter);
                assert(now[i as int] == tail[0]);
                assert(tail[0] == before.files@[taken]);
                assert(more.drop_last() =~= head);
            }
            if same_text(self.files[i].name.as_str(), name.as_str()) {
                let _ = self.files.remove(i);
                assert(self.files@ =~= files_without(more, gone) + before.files@.subrange(
                    taken + 1,
                    before.files@.len() as int,
                ));
            } else {
                i += 1;
                assert(self.files@ =~= files_without(more, gone) + before.files@.subrange(
                    taken + 1,
                    before.files@.len() as int,
                ));
            }
            proof {
                taken = taken + 1;
            }
        }
        proof {
            assert(before.files@.subrange(0, taken) =~= before.files@);
            assert(self.files@ =~= files_without(before.files@, gone));
            lemma_position_without(before.files@, gone, gone);
            assert forall|id: Seq<char>| id != scope_id@ implies #[trigger] self.found(id)
                == before.found(id) by {
                let n = id + ".json"@;
                if n == gone {
                    lemma_suffix_distinct(id, scope_id@, ".json"@);
                }
                lemma_position_without(before.files@, gone, n);
                lemma_position_bounds(before.files@, n);
                lemma_position_bounds(self.files@, n);
                let k = file_position(before.files@, n);
                if k < before.files@.len() {
                    assert(self.refusal(before.files@[k].place) == before.refusal(
                        before.files@[k].place,
                    ));
                }
            }
        }
        Ok(())
    }
}

/// Each scope has its own workspace: a scope that was registered resolves to the directory
/// that it was registered with, and every other scope resolves as before.
pub proof fn lemma_scope_has_its_own_workspace(
    before: WorkspaceMux,
    after: WorkspaceMux,
    scope: ScopeModel,
    at: PathState,
)
    requires
        after.stored(before, scope, at),
    ensures
        after.resolved(scope.scope_id) == Ok::<Seq<char>, Fault>(at->Directory_0@),
        forall|id: Seq<char>|
            id != scope.scope_id ==> #[trigger] after.resolved(id) == before.resolved(id),
{
    let name = scope.scope_id + ".json"@;
    let i = file_position(before.files@, name);
    let file = after.files@[i];
    lemma_position_bounds(before.files@, name);
    if i < before.files@.len() {
        lemma_position_update(before.files@, i, file, name);
    } else {
        lemma_position_push(before.files@, file, name);
    }
    assert forall|id: Seq<char>| id != scope.scope_id implies #[trigger] after.resolved(id)
        == before.resolved(id) by {
        let n = id + ".json"@;
        if n == name {
            lemma_suffix_distinct(id, scope.scope_id, ".json"@);
        }
        assert(after.found(id) == before.found(id));
        lemma_position_bounds(before.files@, n);
        if i < before.files@.len() {
            lemma_position_update(before.files@, i, file, n);
        } else {
            lemma_position_push(before.files@, file, n);
        }
    }
}

/// Forgetting a scope leaves the workspaces of the others where they are.
pub proof fn lemma_removal_keeps_workspaces(
    before: WorkspaceMux,
    after: WorkspaceMux,
    scope_id: Seq<char>,
    id: Seq<char>,
)
    requires
        after.same_but_files(before),
        after.files@ == files_without(before.files@, scope_id + ".json"@),
        id != scope_id,
    ensures
        after.resolved(id) == before.resolved(id),
{
    let n = id + ".json"@;
    let gone = scope_id + ".json"@;
    if n == gone {
        lemma_suffix_distinct(id, scope_id, ".json"@);
    }
    lemma_position_without(before.files@, gone, n);
    lemma_position_bounds(before.files@, n);
    let k = file_position(before.files@, n);
    if k < before.files@.len() {
        assert(after.refusal(before.files@[k].place) == before.refusal(before.files@[k].place));
    }
}

/// No two files have the same name.
pub open spec fn names_differ(files: Seq<ScopeFile>) -> bool {
    forall|i: int, j: int|
        0 <= i < j < files.len() ==> (#[trigger] files[i]).name@ != (#[trigger] files[j]).name@
}

/// A scope has one file, so that it is listed once: storing a scope and forgetting one make
/// no second file of a name.
pub proof fn lemma_scope_has_one_file(
    before: WorkspaceMux,
    after: WorkspaceMux,
    scope: ScopeModel,
    place: PathState,
    gone: Seq<char>,
)
    requires
        names_differ(before.files@),
        after.stored(before, scope, place) || after.files@ == files_without(before.files@, gone),
    ensures
        names_differ(after.files@),
{
    if after.stored(before, scope, place) {
        let name = scope.scope_id + ".json"@;
        lemma_position_bounds(before.files@, name);
        lemma_position_first(before.files@, name);
    } else {
        lemma_without_keeps_names(before.files@, gone);
    }
}

proof fn lemma_position_first(files: Seq<ScopeFile>, name: Seq<char>)
    ensures
        forall|j: int| 0 <= j < file_position(files, name) ==> (#[trigger] files[j]).name@ != name,
    decreases files.len(),
{
    if files.len() > 0 && files[0].name@ != name {
        let rest = files.drop_first();
        lemma_position_first(rest, name);
        lemma_position_bounds(rest, name);
        assert forall|j: int| 0 <= j < file_position(files, name) implies (
        #[trigger] files[j]).name@ != name by {
            if j > 0 {
                assert(rest[j - 1] == files[j]);
            }
        }
    }
}

proof fn lemma_without_keeps_names(files: Seq<ScopeFile>, gone: Seq<char>)
    requires
        names_differ(files),
    ensures
        names_differ(files_without(files, gone)),
        forall|k: int|
            0 <= k < files_without(files, gone).len() ==> files.contains(
                #[trigger] files_without(files, gone)[k],
            ),
    decreases files.len(),
{
    reveal(Seq::filter);
    if files.len() > 0 {
        let front = files.drop_last();
        assert forall|i: int, j: int| 0 <= i < j < front.len() implies (
        #[trigger] front[i]).name@ != (#[trigger] front[j]).name@ by {
            assert(front[i] == files[i] && front[j] == files[j]);
        }
        lemma_without_keeps_names(front, gone);
        let rest = files_without(front, gone);
        let left = files_without(files, gone);
        assert forall|k: int| 0 <= k < left.len() implies files.contains(#[trigger] left[k]) by {
            if k < rest.len() {
                assert(front.contains(rest[k]));
                let t = choose|t: int| 0 <= t < front.len() && front[t] == rest[k];
                assert(files[t] == left[k]);
            } else {
                assert(files[files.len() - 1] == left[k]);
            }
        }
        assert forall|i: int, j: int| 0 <= i < j < left.len() implies (#[trigger] left[i]).name@
            != (#[trigger] left[j]).name@ by {
            assert(left[i] == rest[i]);
            if j < rest.len() {
                assert(left[j] == rest[j]);
            } else {
                assert(front.contains(rest[i]));
                let t = choose|t: int| 0 <= t < front.len() && front[t] == rest[i];
                assert(files[t].name@ != files[files.len() - 1].name@);
            }
        }
    }
}

impl PathState {
    /// A state with the same value.
    pub fn copy(&self) -> (r: Self)
        ensures
            r == *self,
    {
        match self {
            PathState::Unresolved(m) => PathState::Unresolved(m.clone()),
            PathState::File(p) => PathState::File(p.clone()),
            PathState::Directory(p) => PathState::Directory(p.clone()),
        }
    }
}

/// The scope id in the name of a scope file.
fn stem_of(name: &str) -> (r: Option<String>)
    ensures
        opt_text(r) == json_stem(name@),
{
    proof {
        reveal_strlit(".json");
    }
    let v = chars_of(name);
    if v.len() > 5 && ends_with(name, ".json") {
        Some(string_of(&v, 0, v.len() - 5))
    } else {
        None
    }
}

/// Puts a scope in its place in an ordered list.
fn insert_scope(list: &mut Vec<WorkspaceScope>, x: WorkspaceScope)
    ensures
        scope_models(final(list)@) == inserted(scope_models(old(list)@), x@),
{
    let ghost before = list@;
    let ghost m = scope_models(before);
    let mut i: usize = list.len();
    let ghost mut tail = Seq::<ScopeModel>::empty();
    assert(m.subrange(0, m.len() as int) =~= m);
    assert(m + tail =~= m);
    assert(inserted(m, x@) =~= inserted(m, x@) + tail);
    while i > 0 && text_before(x.scope_id.as_str(), list[i - 1].scope_id.as_str())
        invariant
            i <= list@.len(),
            list@ == before,
            m == scope_models(before),
            tail == m.subrange(i as int, m.len() as int),
            inserted(m, x@) == inserted(m.subrange(0, i as int), x@) + tail,
        decreases i,
    {
        proof {
            let head = m.subrange(0, i as int);
            assert(head.last() == m[i - 1]);
            assert(m[i - 1] == list@[i - 1]@);
            assert(head.drop_last() =~= m.subrange(0, i - 1));
            let next = m.subrange(i - 1, m.len() as int);
            assert(inserted(m.subrange(0, i - 1), x@).push(m[i - 1]) + tail =~= inserted(
                m.subrange(0, i - 1),
                x@,
            ) + next);
            tail = next;
        }
        i -= 1;
    }
    let ghost model = x@;
    proof {
        let head = m.subrange(0, i as int);
        if i > 0 {
            assert(head.last() == m[i - 1]);
            assert(m[i - 1] == list@[i - 1]@);
        }
        assert(inserted(head, model) == head.push(model));
    }
    list.insert(i, x);
    proof {
        assert(scope_models(list@) =~= m.subrange(0, i as int).push(model) + m.subrange(
            i as int,
            m.len() as int,
        ));
    }
}

impl WorkspaceMux {
    fn list_scopes_impl(&self, strict: bool) -> (r: Result<Vec<WorkspaceScope>, BridgeError>)
        ensures
            match r {
                Ok(v) => self.listed(strict) == Ok::<Seq<ScopeModel>, Fault>(scope_models(v@)),
                Err(e) => strict && self.listed(strict) == Err::<Seq<ScopeModel>, Fault>(e@),
            },
    {
        let mut out: Vec<WorkspaceScope> = Vec::new();
        let mut i: usize = 0;
        let ghost all = self.files@;
        let ghost mut list = Seq::<ScopeModel>::empty();
        proof {
            assert(all.subrange(0, 0) =~= Seq::<ScopeFile>::empty());
            assert(scope_models(out@) =~= ordered(list));
        }
        while i < self.files.len()
            invariant
                i <= self.files@.len(),
                all == self.files@,
                self.collected(all.subrange(0, i as int), strict) == Ok::<
                    Seq<ScopeModel>,
                    Fault,
                >(list),
                scope_models(out@) == ordered(list),
            decreases self.files@.len() - i,
        {
            let file = &self.files[i];
            let ghost more = all.subrange(0, i + 1);
            proof {
                assert(more.drop_last() =~= all.subrange(0, i as int));
                assert(more.last() == *file);
            }
            let entry: Result<Option<WorkspaceScope>, BridgeError> = match stem_of(
                file.name.as_str(),
            ) {
                None => Ok(None),
                Some(stem) => if !file.name_valid {
                    Err(
                        BridgeError::Precondition(
                            "invalid scope state filename: ".to_owned().concat(
                                join_path(self.scope_dir.as_str(), file.name.as_str()).as_str(),
                            ),
                        ),
                    )
                } else if !uuid_accepts(stem.as_str()) {
                    Err(
                        BridgeError::Precondition(
                            "invalid scope state id: ".to_owned().concat(stem.as_str()),
                        ),
                    )
                } else {
                    match self.lookup(stem.as_str()) {
                        Ok(s) => Ok(Some(s)),
                        Err(e) => Err(e),
                    }
                },
            };
            match entry {
                Ok(Some(s)) => {
                    proof {
                        let longer = list.push(s@);
                        assert(longer.drop_last() =~= list);
                        list = longer;
                    }
                    insert_scope(&mut out, s);
                },
                Ok(None) => {},
                Err(e) => {
                    if strict {
                        proof {
                            assert(self.collected(more, strict) == Err::<Seq<ScopeModel>, Fault>(
                                e@,
                            ));
                            self.lemma_failure_stays(all, i + 1);
                        }
                        return Err(e);
                    }
                },
            }
            i += 1;
        }
        assert(all.subrange(0, all.len() as int) =~= all);
        Ok(out)
    }

    proof fn lemma_failure_stays(self, files: Seq<ScopeFile>, k: int)
        requires
            0 <= k <= files.len(),
            self.collected(files.subrange(0, k), true) is Err,
        ensures
            self.collected(files, true) == self.collected(files.subrange(0, k), true),
        decreases files.len(),
    {
        if k == files.len() {
            assert(files.subrange(0, k) =~= files);
        } else {
            assert(files.drop_last().subrange(0, k) =~= files.subrange(0, k));
            self.lemma_failure_stays(files.drop_last(), k);
        }
    }

    /// The scopes, ordered by id, without those that cannot be looked up.
    pub fn list_scopes(&self) -> (r: Result<Vec<WorkspaceScope>, BridgeError>)
        ensures
            r is Ok,
            self.listed(false) == Ok::<Seq<ScopeModel>, Fault>(scope_models(r->Ok_0@)),
    {
        self.list_scopes_impl(false)
    }

    /// The scopes, ordered by id, or the first failure to look one up.
    pub fn list_scopes_strict(&self) -> (r: Result<Vec<WorkspaceScope>, BridgeError>)
        ensures
            match r {
                Ok(v) => self.listed(true) == Ok::<Seq<ScopeModel>, Fault>(scope_models(v@)),
                Err(e) => self.listed(true) == Err::<Seq<ScopeModel>, Fault>(e@),
            },
    {
        self.list_scopes_impl(true)
    }
}

/// The absolute path of a control directory: its real path where it has one, else the
/// path itself, below the current directory if it is relative.
pub fn absolute_control_path(path: &str, resolved: Option<String>, current_dir: Option<&str>) -> (r:
    String)
    ensures
        r@ == match resolved {
            Some(p) => p@,
            None => if is_absolute(path@) {
                path@
            } else {
                joined_path(
                    match current_dir {
                        Some(d) => d@,
                        None => "/"@,
                    },
                    path@,
                )
            },
        },
{
    if let Some(p) = resolved {
        return p;
    }
    if absolute(path) {
        return path.to_owned();
    }
    match current_dir {
        Some(d) => join_path(d, path),
        None => join_path("/", path),
    }
}

/// The value of a variable of the environment that is set and not blank, trimmed.
pub open spec fn set_value(value: Option<&str>) -> Option<Seq<char>> {
    match value {
        Some(v) => if trimmed(v@).len() > 0 {
            Some(trimmed(v@))
        } else {
            None
        },
        None => None,
    }
}

/// The directory that a bridge keeps its state in: `OMO_BRIDGE_HOME`, or `.omo/bridge`
/// in the home directory, or `gpt2omo` in the directory for temporary files.
pub open spec fn bridge_base(
    bridge_home: Option<&str>,
    home: Option<&str>,
    temp_dir: Seq<char>,
) -> Seq<char> {
    match set_value(bridge_home) {
        Some(p) => p,
        None => match set_value(home) {
            Some(h) => joined_path(joined_path(h, ".omo"@), "bridge"@),
            None => joined_path(temp_dir, "gpt2omo"@),
        },
    }
}

/// The directory that a bridge keeps its state in, from the variables
/// `OMO_BRIDGE_HOME` and `HOME` and the directory for temporary files.
pub fn default_bridge_base_dir(
    bridge_home: Option<&str>,
    home: Option<&str>,
    temp_dir: &str,
) -> (r: String)
    ensures
        r@ == bridge_base(bridge_home, home, temp_dir@),
{
    if let Some(p) = bridge_home {
        if !is_blank(p) {
            return trim(p);
        }
    }
    if let Some(h) = home {
        if !is_blank(h) {
            let base = join_path(trim(h).as_str(), ".omo");
            return join_path(base.as_str(), "bridge");
        }
    }
    join_path(temp_dir, "gpt2omo")
}

/// The scope directory of the bridge that listens on a port.
pub fn default_scope_dir(base_dir: &str, port: u16) -> (r: String)
    ensures
        r@ == joined_path(base_dir@, "scopes-"@ + decimal(port as nat)),
{
    let name = "scopes-".to_owned().concat(decimal_of(port as u64).as_str());
    join_path(base_dir, name.as_str())
}

/// The scopes in a list are ordered by id.
pub open spec fn is_ordered(list: Seq<ScopeModel>) -> bool {
    forall|i: int, j: int|
        0 <= i < j < list.len() ==> text_le(
            (#[trigger] list[i]).scope_id,
            (#[trigger] list[j]).scope_id,
        )
}

proof fn lemma_inserted(list: Seq<ScopeModel>, x: ScopeModel)
    requires
        is_ordered(list),
    ensures
        is_ordered(inserted(list, x)),
        inserted(list, x).to_multiset() == list.to_multiset().insert(x),
        inserted(list, x).len() == list.len() + 1,
        forall|i: int|
            0 <= i < inserted(list, x).len() ==> #[trigger] inserted(list, x)[i] == x
                || list.contains(inserted(list, x)[i]),
    decreases list.len(),
{
    broadcast use vstd::seq_lib::group_to_multiset_ensures;

    if list.len() == 0 || !text_lt(x.scope_id, list.last().scope_id) {
        let r = list.push(x);
        assert forall|i: int, j: int| 0 <= i < j < r.len() implies text_le(
            (#[trigger] r[i]).scope_id,
            (#[trigger] r[j]).scope_id,
        ) by {
            if j == list.len() {
                if i < list.len() - 1 {
                    assert(text_le(list[i].scope_id, list[list.len() - 1].scope_id));
                    lemma_text_le_trans(list[i].scope_id, list.last().scope_id, x.scope_id);
                }
            } else {
                assert(list[i] == r[i] && list[j] == r[j]);
            }
        }
        assert forall|i: int| 0 <= i < r.len() implies #[trigger] r[i] == x || list.contains(
            r[i],
        ) by {
            if i < list.len() {
                assert(list[i] == r[i]);
            }
        }
    } else {
        let front = list.drop_last();
        let last = list.last();
        assert forall|i: int, j: int| 0 <= i < j < front.len() implies text_le(
            (#[trigger] front[i]).scope_id,
            (#[trigger] front[j]).scope_id,
        ) by {
            assert(list[i] == front[i] && list[j] == front[j]);
        }
        lemma_inserted(front, x);
        let inner = inserted(front, x);
        let r = inner.push(last);
        assert(list =~= front.push(last));
        assert forall|i: int, j: int| 0 <= i < j < r.len() implies text_le(
            (#[trigger] r[i]).scope_id,
            (#[trigger] r[j]).scope_id,
        ) by {
            if j == inner.len() {
                lemma_text_lt_asym(x.scope_id, last.scope_id);
                if inner[i] != x {
                    let k = choose|k: int| 0 <= k < front.len() && front[k] == inner[i];
                    assert(list[k] == front[k]);
                    assert(text_le(list[k].scope_id, list[list.len() - 1].scope_id));
                }
            } else {
                assert(inner[i] == r[i] && inner[j] == r[j]);
            }
        }
        assert forall|i: int| 0 <= i < r.len() implies #[trigger] r[i] == x || list.contains(
            r[i],
        ) by {
            if i < inner.len() {
                if inner[i] != x {
                    let k = choose|k: int| 0 <= k < front.len() && front[k] == inner[i];
                    assert(list[k] == front[k]);
                }
            } else {
                assert(list[list.len() - 1] == last);
            }
        }
    }
}

/// Ordering a list of scopes by id keeps its scopes, each as often as it stood there.
pub proof fn lemma_ordered(list: Seq<ScopeModel>)
    ensures
        is_ordered(ordered(list)),
        ordered(list).to_multiset() == list.to_multiset(),
    decreases list.len(),
{
    broadcast use vstd::seq_lib::group_to_multiset_ensures;

    if list.len() > 0 {
        lemma_ordered(list.drop_last());
        lemma_inserted(ordered(list.drop_last()), list.last());
        assert(list =~= list.drop_last().push(list.last()));
    } else {
        assert(ordered(list) =~= list);
    }
}

/// Each scope that is collected stands in a file of its own name, and each file gives at most
/// one.
proof fn lemma_collected(mux: WorkspaceMux, files: Seq<ScopeFile>, strict: bool)
    requires
        names_differ(files),
        mux.collected(files, strict) is Ok,
    ensures
        ({
            let list = mux.collected(files, strict)->Ok_0;
            &&& forall|k: int|
                0 <= k < list.len() ==> exists|f: int|
                    0 <= f < files.len() && (#[trigger] files[f]).name@ == (
                    #[trigger] list[k]).scope_id + ".json"@
            &&& forall|i: int, j: int|
                0 <= i < j < list.len() ==> (#[trigger] list[i]).scope_id != (
                #[trigger] list[j]).scope_id
        }),
    decreases files.len(),
{
    if files.len() > 0 {
        let front = files.drop_last();
        let last: int = files.len() - 1;
        assert forall|i: int, j: int| 0 <= i < j < front.len() implies (
        #[trigger] front[i]).name@ != (#[trigger] front[j]).name@ by {
            assert(front[i] == files[i] && front[j] == files[j]);
        }
        lemma_collected(mux, front, strict);
        let before = mux.collected(front, strict)->Ok_0;
        let list = mux.collected(files, strict)->Ok_0;
        let entry = mux.file_entry(files.last());
        if entry is Ok && entry->Ok_0 is Some {
            let name = files.last().name@;
            reveal_strlit(".json");
            assert(".json"@.len() == 5);
            assert(name.subrange(name.len() - 5, name.len() as int) == ".json"@);
            assert(name =~= name.subrange(0, name.len() - 5) + name.subrange(
                name.len() - 5,
                name.len() as int,
            ));
            assert(entry->Ok_0->0.scope_id == name.subrange(0, name.len() - 5));
        }
        assert forall|k: int| 0 <= k < list.len() implies exists|f: int|
            0 <= f < files.len() && (#[trigger] files[f]).name@ == (#[trigger] list[k]).scope_id
                + ".json"@ by {
            if k < before.len() {
                assert(list[k] == before[k]);
                let f = choose|f: int|
                    0 <= f < front.len() && (#[trigger] front[f]).name@ == before[k].scope_id
                        + ".json"@;
                assert(files[f] == front[f]);
            } else {
                assert(files[last].name@ == list[k].scope_id + ".json"@);
            }
        }
        assert forall|i: int, j: int| 0 <= i < j < list.len() implies (
        #[trigger] list[i]).scope_id != (#[trigger] list[j]).scope_id by {
            assert(list[i] == before[i]);
            if j < before.len() {
                assert(list[j] == before[j]);
            } else {
                let f = choose|f: int|
                    0 <= f < front.len() && (#[trigger] front[f]).name@ == before[i].scope_id
                        + ".json"@;
                assert(files[f].name@ != files[last].name@);
            }
        }
    }
}

/// Where no two files have one name, no scope is listed twice.
pub proof fn lemma_scopes_are_listed_once(mux: WorkspaceMux, strict: bool)
    requires
        names_differ(mux.files@),
        mux.listed(strict) is Ok,
    ensures
        forall|i: int, j: int|
            0 <= i < j < mux.listed(strict)->Ok_0.len() ==> (#[trigger] mux.listed(
                strict,
            )->Ok_0[i]).scope_id != (#[trigger] mux.listed(strict)->Ok_0[j]).scope_id,
{
    broadcast use vstd::seq_lib::group_to_multiset_ensures;

    let list = mux.collected(mux.files@, strict)->Ok_0;
    let shown = ordered(list);
    lemma_collected(mux, mux.files@, strict);
    lemma_ordered(list);
    assert(list.no_duplicates());
    list.lemma_multiset_has_no_duplicates();
    assert forall|x: ScopeModel| shown.to_multiset().contains(x) implies shown.to_multiset().count(
        x,
    ) == 1 by {
        assert(list.to_multiset().contains(x));
    }
    shown.lemma_multiset_has_no_duplicates_conv();
    assert forall|i: int, j: int| 0 <= i < j < shown.len() implies (#[trigger] shown[i]).scope_id
        != (#[trigger] shown[j]).scope_id by {
        let x = shown[i];
        let y = shown[j];
        assert(x != y);
        assert(shown.contains(x) && shown.contains(y));
        assert(shown.to_multiset().count(x) > 0 && shown.to_multiset().count(y) > 0);
        assert(list.contains(x) && list.contains(y));
        let a = choose|a: int| 0 <= a < list.len() && list[a] == x;
        let b = choose|b: int| 0 <= b < list.len() && list[b] == y;
        assert(a != b);
        if a < b {
            assert(list[a].scope_id != list[b].scope_id);
        } else {
            assert(list[b].scope_id != list[a].scope_id);
        }
    }
}

/// A registered workspace lies below the mount root, is neither the root of the file
/// system nor an ancestor of the home directory, and overlaps no control directory.
pub proof fn lemma_found_scope_is_confined(mux: WorkspaceMux, scope_id: Seq<char>)
    requires
        mux.found(scope_id) is Ok,
    ensures
        ({
            let i = file_position(mux.files@, scope_id + ".json"@);
            let root = mux.files@[i].place->Directory_0@;
            &&& is_within(root, mux.mount_root@)
            &&& components(root).len() > 0
            &&& mux.home is Some ==> !is_within(mux.home->0@, root)
            &&& !overlaps(mux.scope_dir@, root)
            &&& !overlaps(mux.bridge_dir@, root)
        }),
{
}

/// A scope that was registered is found as it was made, with the page to which it is
/// bound, and the other scopes are found as before.
pub proof fn lemma_registered_scope_is_found(
    before: WorkspaceMux,
    after: WorkspaceMux,
    scope_id: Seq<char>,
    workspace: Seq<char>,
    terminal: Option<Seq<char>>,
    browser: Option<BindingModel>,
    now_ms: u64,
    at: PathState,
)
    requires
        after.stored(before, new_scope(scope_id, workspace, terminal, browser, now_ms), at),
    ensures
        after.found(scope_id) == Ok::<ScopeModel, Fault>(
            new_scope(scope_id, workspace, terminal, browser, now_ms),
        ),
        browser matches Some(b) ==> after.found(scope_id)->Ok_0.browser_page_id == Some(b.page_id),
        forall|id: Seq<char>| id != scope_id ==> #[trigger] after.found(id) == before.found(id),
{
}

/// A path that a workspace resolves lies inside the workspace, and nothing behind the
/// workspace's own path climbs to a parent or names a secret file.
pub proof fn lemma_resolved_path_is_inside(root: Seq<char>, rel: Seq<char>)
    requires
        root.len() > 0,
        sanitized(rel) is Some,
    ensures
        is_within(joined_path(root, sanitized(rel)->0), root),
        forall|i: int|
            components(root).len() <= i < components(joined_path(root, sanitized(rel)->0)).len()
                ==> {
                let c = #[trigger] components(joined_path(root, sanitized(rel)->0))[i];
                c != ".."@ && !crate::security::path::is_secret_name(c)
            },
{
    let clean = sanitized(rel)->0;
    let p = joined_path(root, clean);
    crate::security::path::lemma_sanitized_is_safe(rel);
    crate::paths::lemma_components_of_joined_path(root, clean);
    assert(components(p).subrange(0, components(root).len() as int) =~= components(root));
    assert forall|i: int| components(root).len() <= i < components(p).len() implies {
        let c = #[trigger] components(p)[i];
        c != ".."@ && !crate::security::path::is_secret_name(c)
    } by {
        assert(components(p)[i] == components(clean)[i - components(root).len()]);
    }
}

} // verus!
