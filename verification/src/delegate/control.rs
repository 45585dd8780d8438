//! What a caller of the delegation command asks for, and the limits it is held to.
use crate::accounts::{AccountLimits, BrowserInstanceConfig, CooldownConfig, LegacyAccountConfig,
    RoutingConfig, RoutingStrategy, LEGACY_CDP_ENDPOINT};
use crate::json::{opt_model, u64_of, Json, JsonModel};
use crate::orca::{BrowserDriverConfig, BrowserDriverKind};
use crate::task_state::DelegationTerminalState;
use crate::text::{copy_opt, decimal, decimal_of, opt_text, same_text, trim_end_char,
    without_trailing};
use vstd::prelude::*;

verus! {

/// How many workers one request may start.
pub const MAX_NEW_DISPATCH_WORKERS: usize = 2;

/// How many workers may run at a time.
pub const MAX_CONCURRENT_IN_FLIGHT_WORKERS: usize = 3;

/// How much input the command reads.
pub const MAX_INPUT_BYTES: usize = 1024 * 1024;

/// How long the command waits between two workers that it starts.
pub const SPAWN_STAGGER_SECS: u64 = 10;

/// How long workers have to become ready.
pub const READINESS_TIMEOUT_MS: u64 = 180_000;

/// After how long the readiness prompt is sent once more.
pub const READINESS_RETRY_AFTER_MS: u64 = 45_000;

/// For how long a worker that showed that it is ready counts as ready.
pub const READINESS_FRESHNESS_MS: u64 = 240_000;

/// How often the records of the workers are read.
pub const LIFECYCLE_POLL_INTERVAL_MS: u64 = 250;

/// How long an observer waits for the end of a delegation.
pub const OBSERVE_SCOPE_TIMEOUT_SECS: u64 = 1800;

/// How often the page of a worker is looked at.
pub const UI_PROBE_INTERVAL_MS: u64 = 1_500;

/// For how many minutes an idle worker's page is kept.
pub const DEFAULT_SESSION_TTL_MINUTES: u64 = 120;

/// The options of the delegation command.
#[derive(Debug)]
pub struct DelegateOptions {
    pub task: Vec<String>,
    pub stdin: bool,
    pub label: Option<String>,
    pub batch_stdin: bool,
    pub resume_scope: Option<String>,
    pub close_scope: Option<String>,
    pub report_scope: Option<String>,
    pub observe_scope: Option<String>,
    pub keep_session: bool,
    pub close_on_terminal: bool,
    pub session_ttl_minutes: u64,
    pub workspace: Option<String>,
    pub mount_root: String,
    pub bridge_url: String,
    pub scope_dir: Option<String>,
    pub worktree: String,
    pub terminal: Option<String>,
    pub orca_bin: String,
    pub browser_driver: Option<BrowserDriverKind>,
    pub token: Option<String>,
    pub dry_run: bool,
    pub json: bool,
    pub progress_json: bool,
}

impl Default for DelegateOptions {
    fn default() -> (r: Self)
        ensures
            r.task@.len() == 0,
            !r.stdin && !r.batch_stdin && !r.keep_session && !r.close_on_terminal && !r.dry_run
                && !r.json && !r.progress_json,
            r.label is None && r.resume_scope is None && r.close_scope is None
                && r.report_scope is None && r.observe_scope is None && r.workspace is None
                && r.scope_dir is None && r.terminal is None && r.browser_driver is None
                && r.token is None,
            r.session_ttl_minutes == DEFAULT_SESSION_TTL_MINUTES,
            r.mount_root@ == "."@,
            r.bridge_url@ == "http://127.0.0.1:18800"@,
            r.worktree@ == "active"@,
            r.orca_bin@ == "orca"@,
    {
        DelegateOptions {
            task: Vec::new(),
            stdin: false,
            label: None,
            batch_stdin: false,
            resume_scope: None,
            close_scope: None,
            report_scope: None,
            observe_scope: None,
            keep_session: false,
            close_on_terminal: false,
            session_ttl_minutes: DEFAULT_SESSION_TTL_MINUTES,
            workspace: None,
            mount_root: ".".to_owned(),
            bridge_url: "http://127.0.0.1:18800".to_owned(),
            scope_dir: None,
            worktree: "active".to_owned(),
            terminal: None,
            orca_bin: "orca".to_owned(),
            browser_driver: None,
            token: None,
            dry_run: false,
            json: false,
            progress_json: false,
        }
    }
}

pub const KEEP_AND_CLOSE: &'static str =
    "--keep-session is retained only for backward compatibility and cannot be combined with --close-on-terminal";

pub const CLOSE_SCOPE_ALONE: &'static str =
    "--close-scope cannot be combined with a task, stdin/batch input, --workspace, or --dry-run";

pub const REPORT_SCOPE_ALONE: &'static str =
    "--report-scope cannot be combined with a task, workspace, session control, stdin, or --dry-run";

pub const OBSERVE_SCOPE_ALONE: &'static str =
    "--observe-scope cannot be combined with a task, workspace, session control, stdin, or --dry-run";

pub const RESUME_WORKSPACE: &'static str =
    "--resume-scope uses the authoritative workspace stored in that scope and cannot be combined with --workspace";

pub const RESUME_BATCH: &'static str = "--resume-scope cannot be combined with --batch-stdin";

/// The options hand a task over, name a workspace or only rehearse.
pub open spec fn has_work(o: DelegateOptions) -> bool {
    o.task@.len() > 0 || o.batch_stdin || o.stdin || o.workspace is Some || o.dry_run
}

/// The options say what becomes of the worker's page.
pub open spec fn has_session_control(o: DelegateOptions) -> bool {
    o.keep_session || o.close_on_terminal
}

/// Why options do not go together.
pub open spec fn control_fault(o: DelegateOptions) -> Option<Seq<char>> {
    if o.keep_session && o.close_on_terminal {
        Some(KEEP_AND_CLOSE@)
    } else if o.close_scope is Some && has_work(o) {
        Some(CLOSE_SCOPE_ALONE@)
    } else if o.report_scope is Some && (has_work(o) || has_session_control(o) || o.resume_scope is Some
        || o.close_scope is Some) {
        Some(REPORT_SCOPE_ALONE@)
    } else if o.observe_scope is Some && (has_work(o) || has_session_control(o) || o.resume_scope is Some
        || o.close_scope is Some || o.report_scope is Some) {
        Some(OBSERVE_SCOPE_ALONE@)
    } else if o.resume_scope is Some && o.workspace is Some {
        Some(RESUME_WORKSPACE@)
    } else if o.resume_scope is Some && o.batch_stdin {
        Some(RESUME_BATCH@)
    } else {
        None
    }
}

/// Whether options go together.
pub fn validate_control_mode(o: &DelegateOptions) -> (r: Result<(), String>)
    ensures
        match r {
            Ok(_) => control_fault(*o) is None,
            Err(e) => control_fault(*o) == Some(e@),
        },
{
    let work = o.task.len() > 0 || o.batch_stdin || o.stdin || o.workspace.is_some() || o.dry_run;
    let session = o.keep_session || o.close_on_terminal;
    if o.keep_session && o.close_on_terminal {
        return Err(KEEP_AND_CLOSE.to_owned());
    }
    if o.close_scope.is_some() && work {
        return Err(CLOSE_SCOPE_ALONE.to_owned());
    }
    if o.report_scope.is_some() && (work || session || o.resume_scope.is_some()
        || o.close_scope.is_some()) {
        return Err(REPORT_SCOPE_ALONE.to_owned());
    }
    if o.observe_scope.is_some() && (work || session || o.resume_scope.is_some()
        || o.close_scope.is_some() || o.report_scope.is_some()) {
        return Err(OBSERVE_SCOPE_ALONE.to_owned());
    }
    if o.resume_scope.is_some() {
        if o.workspace.is_some() {
            return Err(RESUME_WORKSPACE.to_owned());
        }
        if o.batch_stdin {
            return Err(RESUME_BATCH.to_owned());
        }
    }
    Ok(())
}

/// The milliseconds for which an idle worker's page is kept.
pub fn session_ttl_ms(minutes: u64) -> (r: Result<u64, String>)
    ensures
        match r {
            Ok(ms) => 0 < minutes && ms == minutes * 60_000,
            Err(e) => if minutes == 0 {
                e@ == "--session-ttl-minutes must be greater than zero"@
            } else {
                minutes * 60_000 > u64::MAX && e@ == "--session-ttl-minutes is too large"@
            },
        },
{
    if minutes == 0 {
        return Err("--session-ttl-minutes must be greater than zero".to_owned());
    }
    match minutes.checked_mul(60_000) {
        Some(ms) => Ok(ms),
        None => Err("--session-ttl-minutes is too large".to_owned()),
    }
}

/// The browser driver for a bridge without configured accounts: the command counts
/// where a driver is chosen or the command is not the usual one.
pub fn legacy_browser_config(o: &DelegateOptions) -> (r: BrowserDriverConfig)
    ensures
        r.driver == o.browser_driver,
        opt_text(r.binary) == (if o.browser_driver is Some || o.orca_bin@ != "orca"@ {
            Some(o.orca_bin@)
        } else {
            None
        }),
        r.worktree@ == o.worktree@,
        opt_text(r.terminal) == opt_text(o.terminal),
        r.resolved is None,
{
    let binary = if o.browser_driver.is_some() || !same_text(o.orca_bin.as_str(), "orca") {
        Some(o.orca_bin.clone())
    } else {
        None
    };
    BrowserDriverConfig::with_driver(
        o.browser_driver,
        binary,
        o.worktree.as_str(),
        copy_opt(&o.terminal),
    )
}

/// The limits that the host sets for delegations.
#[derive(Clone, Copy, Debug, PartialEq, Eq, Structural)]
pub struct RuntimePolicy {
    /// How many workers one request may start.
    pub max_new: usize,
    /// How many workers may run at a time.
    pub max_concurrent: usize,
    /// The window in which dispatches are counted.
    pub window_ms: u64,
    pub max_dispatches: usize,
}

/// A positive number in a field of the host's settings, or the built-in limit.
pub open spec fn setting(config: Option<JsonModel>, key: Seq<char>, limit: u64) -> u64 {
    match config {
        Some(c) => match u64_of(c.field(key)) {
            Some(n) => if n > 0 {
                n
            } else {
                limit
            },
            None => limit,
        },
        None => limit,
    }
}

fn read_setting(config: Option<&Json>, key: &str, limit: u64) -> (r: u64)
    ensures
        r == setting(opt_model(config), key@, limit),
{
    match config {
        Some(c) => match c.u64_field(key) {
            Some(n) => if n > 0 {
                n
            } else {
                limit
            },
            None => limit,
        },
        None => limit,
    }
}

/// The limits of the host's settings can be held: the window in milliseconds, and the
/// counts of workers and dispatches.
pub open spec fn policy_fits(config: Option<JsonModel>) -> bool {
    &&& setting(config, "window_minutes"@, 60) * 60_000 <= u64::MAX
    &&& setting(config, "max_new_dispatch_workers"@, 2) <= usize::MAX
    &&& setting(config, "max_concurrent_in_flight_workers"@, 3) <= usize::MAX
    &&& setting(config, "max_dispatches_per_window"@, 12) <= usize::MAX
}

/// Whether the limits of the host's settings can be held.
pub fn runtime_policy_fits(config: Option<&Json>) -> (r: bool)
    ensures
        r == policy_fits(opt_model(config)),
{
    let window: u64 = read_setting(config, "window_minutes", 60);
    let most: u64 = usize::MAX as u64;
    window.checked_mul(60_000).is_some() && read_setting(config, "max_new_dispatch_workers", 2)
        <= most && read_setting(config, "max_concurrent_in_flight_workers", 3) <= most
        && read_setting(config, "max_dispatches_per_window", 12) <= most
}

/// The limits in the host's settings; without settings, or for a limit that is not a
/// positive number there, the built-in ones.
pub fn runtime_policy(config: Option<&Json>) -> (r: RuntimePolicy)
    requires
        policy_fits(opt_model(config)),
    ensures
        ({
            let c = opt_model(config);
            &&& r.max_new == setting(c, "max_new_dispatch_workers"@, 2)
            &&& r.max_concurrent == setting(c, "max_concurrent_in_flight_workers"@, 3)
            &&& r.window_ms == setting(c, "window_minutes"@, 60) * 60_000
            &&& r.max_dispatches == setting(c, "max_dispatches_per_window"@, 12)
        }),
{
    let window: u64 = read_setting(config, "window_minutes", 60);
    RuntimePolicy {
        max_new: read_setting(
            config,
            "max_new_dispatch_workers",
            MAX_NEW_DISPATCH_WORKERS as u64,
        ) as usize,
        max_concurrent: read_setting(
            config,
            "max_concurrent_in_flight_workers",
            MAX_CONCURRENT_IN_FLIGHT_WORKERS as u64,
        ) as usize,
        window_ms: window * 60_000,
        max_dispatches: read_setting(config, "max_dispatches_per_window", 12) as usize,
    }
}

/// The account of a bridge without configured accounts.
pub fn legacy_account_config(o: &DelegateOptions, policy: &RuntimePolicy) -> (r: LegacyAccountConfig)
    ensures
        r.limits == (AccountLimits {
            window_seconds: if policy.window_ms / 1000 < 1 {
                1
            } else {
                policy.window_ms / 1000
            },
            max_dispatches: policy.max_dispatches,
            max_active_workers: policy.max_concurrent,
        }),
        r.routing == (RoutingConfig {
            strategy: RoutingStrategy::RoundRobin,
            reservation_ttl_seconds: 120,
            selection_failure_backoff_seconds: 30,
        }),
        r.cooldown == (CooldownConfig {
            unknown_rate_limit_seconds: 900,
            delivery_failure_seconds: 30,
        }),
        r.browser.driver is None,
        r.browser.instance@ == "legacy"@,
        r.browser.user_data_dir is None,
        opt_text(r.browser.cdp_endpoint) == Some(LEGACY_CDP_ENDPOINT@),
        r.browser.worktree@ == o.worktree@,
{
    let seconds: u64 = policy.window_ms / 1000;
    let defaults = LegacyAccountConfig::default();
    LegacyAccountConfig {
        routing: defaults.routing,
        limits: AccountLimits {
            window_seconds: if seconds < 1 {
                1
            } else {
                seconds
            },
            max_dispatches: policy.max_dispatches,
            max_active_workers: policy.max_concurrent,
        },
        cooldown: defaults.cooldown,
        browser: BrowserInstanceConfig::legacy(o.worktree.as_str()),
    }
}

/// Why a request cannot have this many tasks.
pub open spec fn count_fault(count: usize, max: usize) -> Option<Seq<char>> {
    if count == 0 {
        Some("at least one Web delegation task is required"@)
    } else if count > max {
        Some(
            "parallel Web delegation is limited to "@ + decimal(max as nat)
                + " newly spawned workers per batch; received "@ + decimal(count as nat),
        )
    } else {
        None
    }
}

/// Whether a request may have this many tasks.
pub fn validate_parallel_count(count: usize, max: usize) -> (r: Result<(), String>)
    ensures
        match r {
            Ok(_) => count_fault(count, max) is None,
            Err(e) => count_fault(count, max) == Some(e@),
        },
{
    if count == 0 {
        return Err("at least one Web delegation task is required".to_owned());
    }
    if count > max {
        return Err(
            "parallel Web delegation is limited to ".to_owned().concat(
                decimal_of(max as u64).as_str(),
            ).concat(" newly spawned workers per batch; received ").concat(
                decimal_of(count as u64).as_str(),
            ),
        );
    }
    Ok(())
}

/// A worker's page is kept after the end of its work, unless the worker was lost or the
/// caller wants it closed.
pub fn should_retain_terminal(state: DelegationTerminalState, close_on_terminal: bool) -> (r: bool)
    ensures
        r == (!close_on_terminal && state != DelegationTerminalState::Lost),
{
    !close_on_terminal && state != DelegationTerminalState::Lost
}

/// What the options ask for.
#[derive(Debug)]
pub enum RequestKind {
    /// Tell how the delegation of a scope ended.
    Report(String),
    /// Wait for the end of the delegation of a scope and tell it.
    Observe(String),
    /// Close the page that is kept for a scope.
    Close(String),
    /// Hand the worker of a scope more work.
    Resume(String),
    /// Go through what fresh workers would get, and start none.
    Rehearse,
    /// Start fresh workers.
    Fresh,
}

pub enum RequestModel {
    Report(Seq<char>),
    Observe(Seq<char>),
    Close(Seq<char>),
    Resume(Seq<char>),
    Rehearse,
    Fresh,
}

impl View for RequestKind {
    type V = RequestModel;

    open spec fn view(&self) -> RequestModel {
        match *self {
            RequestKind::Report(s) => RequestModel::Report(s@),
            RequestKind::Observe(s) => RequestModel::Observe(s@),
            RequestKind::Close(s) => RequestModel::Close(s@),
            RequestKind::Resume(s) => RequestModel::Resume(s@),
            RequestKind::Rehearse => RequestModel::Rehearse,
            RequestKind::Fresh => RequestModel::Fresh,
        }
    }
}

pub const NO_RESUME_REHEARSAL: &'static str =
    "--dry-run is not supported with --resume-scope because resume requires authoritative browser-page liveness verification";

/// What options ask for, a look at a scope first, or why they ask for nothing.
pub open spec fn request_of(o: DelegateOptions) -> Result<RequestModel, Seq<char>> {
    match control_fault(o) {
        Some(e) => Err(e),
        None => match (o.report_scope, o.observe_scope, o.close_scope, o.resume_scope) {
            (Some(s), _, _, _) => Ok(RequestModel::Report(s@)),
            (_, Some(s), _, _) => Ok(RequestModel::Observe(s@)),
            (_, _, Some(s), _) => Ok(RequestModel::Close(s@)),
            (_, _, _, Some(s)) => if o.dry_run {
                Err(NO_RESUME_REHEARSAL@)
            } else {
                Ok(RequestModel::Resume(s@))
            },
            _ => if o.dry_run {
                Ok(RequestModel::Rehearse)
            } else {
                Ok(RequestModel::Fresh)
            },
        },
    }
}

/// What options ask for.
pub fn request_kind(o: &DelegateOptions) -> (r: Result<RequestKind, String>)
    ensures
        match r {
            Ok(k) => request_of(*o) == Ok::<RequestModel, Seq<char>>(k@),
            Err(e) => request_of(*o) == Err::<RequestModel, Seq<char>>(e@),
        },
{
    if let Err(e) = validate_control_mode(o) {
        return Err(e);
    }
    if let Some(s) = &o.report_scope {
        return Ok(RequestKind::Report(s.clone()));
    }
    if let Some(s) = &o.observe_scope {
        return Ok(RequestKind::Observe(s.clone()));
    }
    if let Some(s) = &o.close_scope {
        return Ok(RequestKind::Close(s.clone()));
    }
    if let Some(s) = &o.resume_scope {
        return if o.dry_run {
            Err(NO_RESUME_REHEARSAL.to_owned())
        } else {
            Ok(RequestKind::Resume(s.clone()))
        };
    }
    Ok(
        if o.dry_run {
            RequestKind::Rehearse
        } else {
            RequestKind::Fresh
        },
    )
}

/// The scope that a clean-up of expired pages leaves alone: the one that the options
/// resume, or else the one that they close.
pub fn cleanup_exclusion(o: &DelegateOptions) -> (r: Option<String>)
    ensures
        opt_text(r) == (if o.resume_scope is Some {
            opt_text(o.resume_scope)
        } else {
            opt_text(o.close_scope)
        }),
{
    if o.resume_scope.is_some() {
        copy_opt(&o.resume_scope)
    } else {
        copy_opt(&o.close_scope)
    }
}

/// The address of the bridge without the slashes at its end.
pub fn bridge_base_url(o: &DelegateOptions) -> (r: String)
    ensures
        r@ == without_trailing(o.bridge_url@, '/'),
{
    trim_end_char(o.bridge_url.as_str(), '/')
}

/// A rehearsal starts no worker and touches none: of the requests with a dry run only
/// the rehearsal of fresh workers is accepted.
pub proof fn lemma_dry_run_only_rehearses(o: DelegateOptions)
    requires
        o.dry_run,
    ensures
        request_of(o) matches Ok(k) ==> k == RequestModel::Rehearse,
{
}

} // verus!
