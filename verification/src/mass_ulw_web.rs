//! Invocations of the delegation command for orchestrators that fan work out and in.
use crate::delegate::control::{count_fault, DelegateOptions};
use crate::delegate::input::{prepared, task_fault, tasks_fault, BatchTask};
use crate::delegate::report::{delegation_json, delegations_json, result_json, BatchOutcome,
    StagedDelegation};
use crate::json::{lemma_field_at, maybe_text, models, without_key, Json, JsonModel};
use crate::outside::{json_quote, json_quoted};
use crate::task_state::{terminal_name, DelegationTerminalState};
use crate::text::{decimal, decimal_of, is_blank, join, joined, no_texts, opt_text, push_text,
    same_text, texts, trim, trimmed};
use vstd::prelude::*;

verus! {

/// How many fresh workers one invocation may start. The delegation command itself holds
/// to the limit, too.
pub const DELEGATE_WEB_MAX_WORKERS: usize = 2;

/// How long the delegation command waits before it starts the second worker. Callers do
/// not wait themselves.
pub const DELEGATE_WEB_SPAWN_STAGGER_SECS: u64 = 10;

pub const DEFAULT_DELEGATE_WEB_BINARY: &'static str = "delegate_to_chatgpt_web";

/// Why an invocation cannot be built, or a result not be used.
#[derive(Debug, PartialEq, Eq)]
pub enum MassUlwWebError {
    EmptyTask,
    EmptyLabel,
    EmptyScope,
    InvalidBatchSize { count: usize, max: usize },
    ResultNotTerminal,
    MissingLabel(String),
    ScopeNotResumable(String),
    SingleDelegationExpected(usize),
    Json(String),
}

/// The mathematical value of a [`MassUlwWebError`].
pub enum WebFault {
    EmptyTask,
    EmptyLabel,
    EmptyScope,
    InvalidBatchSize(usize, usize),
    ResultNotTerminal,
    MissingLabel(Seq<char>),
    ScopeNotResumable(Seq<char>),
    SingleDelegationExpected(usize),
    Json(Seq<char>),
}

impl View for MassUlwWebError {
    type V = WebFault;

    open spec fn view(&self) -> WebFault {
        match *self {
            MassUlwWebError::EmptyTask => WebFault::EmptyTask,
            MassUlwWebError::EmptyLabel => WebFault::EmptyLabel,
            MassUlwWebError::EmptyScope => WebFault::EmptyScope,
            MassUlwWebError::InvalidBatchSize { count, max } => WebFault::InvalidBatchSize(
                count,
                max,
            ),
            MassUlwWebError::ResultNotTerminal => WebFault::ResultNotTerminal,
            MassUlwWebError::MissingLabel(l) => WebFault::MissingLabel(l@),
            MassUlwWebError::ScopeNotResumable(l) => WebFault::ScopeNotResumable(l@),
            MassUlwWebError::SingleDelegationExpected(n) => WebFault::SingleDelegationExpected(n),
            MassUlwWebError::Json(m) => WebFault::Json(m@),
        }
    }
}

impl WebFault {
    /// The text of the failure.
    pub open spec fn text(self) -> Seq<char> {
        match self {
            WebFault::EmptyTask => "Web delegation task must not be empty"@,
            WebFault::EmptyLabel => "Web delegation label must not be empty"@,
            WebFault::EmptyScope => "retained scope id must not be empty"@,
            WebFault::InvalidBatchSize(count, max) => "Web batch requires 1..="@ + decimal(
                max as nat,
            ) + " tasks; received "@ + decimal(count as nat),
            WebFault::ResultNotTerminal => "delegate result is not terminal yet"@,
            WebFault::MissingLabel(l) => "delegate result does not contain label `"@ + l + "`"@,
            WebFault::ScopeNotResumable(l) => "delegation `"@ + l + "` is not retained/resumable"@,
            WebFault::SingleDelegationExpected(n) =>
            "delegate result must contain exactly one delegation; received "@ + decimal(n as nat),
            WebFault::Json(m) => "failed to encode/decode delegate JSON: "@ + m,
        }
    }
}

impl MassUlwWebError {
    /// The text of the failure.
    pub fn message(&self) -> (r: String)
        ensures
            r@ == self@.text(),
    {
        match self {
            MassUlwWebError::EmptyTask => "Web delegation task must not be empty".to_owned(),
            MassUlwWebError::EmptyLabel => "Web delegation label must not be empty".to_owned(),
            MassUlwWebError::EmptyScope => "retained scope id must not be empty".to_owned(),
            MassUlwWebError::InvalidBatchSize { count, max } => "Web batch requires 1..=".to_owned().concat(
            decimal_of(*max as u64).as_str()).concat(" tasks; received ").concat(
                decimal_of(*count as u64).as_str(),
            ),
            MassUlwWebError::ResultNotTerminal => "delegate result is not terminal yet".to_owned(),
            MassUlwWebError::MissingLabel(
                l,
            ) => "delegate result does not contain label `".to_owned().concat(l.as_str()).concat("`"),
            MassUlwWebError::ScopeNotResumable(l) => "delegation `".to_owned().concat(
                l.as_str(),
            ).concat("` is not retained/resumable"),
            MassUlwWebError::SingleDelegationExpected(
                n,
            ) => "delegate result must contain exactly one delegation; received ".to_owned().concat(
                decimal_of(*n as u64).as_str(),
            ),
            MassUlwWebError::Json(m) => "failed to encode/decode delegate JSON: ".to_owned().concat(
                m.as_str(),
            ),
        }
    }
}

/// A task for a fresh worker.
#[derive(Debug, PartialEq, Eq)]
pub struct WebTask {
    pub label: String,
    pub task: String,
    pub workspace: Option<String>,
}

impl Clone for WebTask {
    fn clone(&self) -> (r: Self)
        ensures
            r == *self,
    {
        WebTask {
            label: self.label.clone(),
            task: self.task.clone(),
            workspace: self.workspace.clone(),
        }
    }
}

impl WebTask {
    /// A task in the workspace of the caller.
    pub fn new(label: &str, task: &str) -> (r: Self)
        ensures
            r.label@ == label@,
            r.task@ == task@,
            r.workspace is None,
    {
        WebTask { label: label.to_owned(), task: task.to_owned(), workspace: None }
    }

    /// The task in another workspace.
    pub fn with_workspace(self, workspace: &str) -> (r: Self)
        ensures
            r.label == self.label,
            r.task == self.task,
            opt_text(r.workspace) == Some(workspace@),
    {
        WebTask {
            label: self.label,
            task: self.task,
            workspace: Some(workspace.to_owned()),
        }
    }

    /// Why the task cannot be handed over.
    pub open spec fn fault(self) -> Option<WebFault> {
        if trimmed(self.label@).len() == 0 {
            Some(WebFault::EmptyLabel)
        } else if trimmed(self.task@).len() == 0 {
            Some(WebFault::EmptyTask)
        } else {
            None
        }
    }

    /// Whether the task can be handed over.
    pub fn validate(&self) -> (r: Result<(), MassUlwWebError>)
        ensures
            match r {
                Ok(_) => self.fault() is None,
                Err(e) => self.fault() == Some(e@),
            },
    {
        if is_blank(self.label.as_str()) {
            return Err(MassUlwWebError::EmptyLabel);
        }
        if is_blank(self.task.as_str()) {
            return Err(MassUlwWebError::EmptyTask);
        }
        Ok(())
    }
}

/// A command with its arguments and its input. The input is no argument, so the text of a
/// task needs no quoting for a shell.
#[derive(Debug, PartialEq, Eq)]
pub struct DelegateWebInvocation {
    pub program: String,
    pub args: Vec<String>,
    pub stdin: Option<String>,
}

impl DelegateWebInvocation {
    /// The invocation is this program with these arguments and this input.
    pub open spec fn is_call(self, program: Seq<char>, args: Seq<Seq<char>>, stdin: Option<Seq<char>>) -> bool {
        &&& self.program@ == program
        &&& texts(self.args@) == args
        &&& opt_text(self.stdin) == stdin
    }

    /// The program and its arguments.
    pub fn argv(&self) -> (r: Vec<String>)
        ensures
            texts(r@) == seq![self.program@] + texts(self.args@),
    {
        let mut out = no_texts();
        push_text(&mut out, self.program.as_str());
        let ghost head = texts(out@);
        assert(head =~= seq![self.program@]);
        let mut i: usize = 0;
        while i < self.args.len()
            invariant
                i <= self.args@.len(),
                texts(out@) =~= head + texts(self.args@.subrange(0, i as int)),
            decreases self.args@.len() - i,
        {
            push_text(&mut out, self.args[i].as_str());
            i += 1;
        }
        assert(self.args@.subrange(0, self.args@.len() as int) =~= self.args@);
        out
    }
}

/// What every invocation has in common. Workers, pauses and retries are up to the
/// delegation command.
#[derive(Debug, PartialEq, Eq)]
pub struct DelegateWebConfig {
    pub binary: String,
    pub bridge_url: Option<String>,
}

impl Default for DelegateWebConfig {
    fn default() -> (r: Self)
        ensures
            r.binary@ == DEFAULT_DELEGATE_WEB_BINARY@,
            r.bridge_url is None,
    {
        DelegateWebConfig { binary: DEFAULT_DELEGATE_WEB_BINARY.to_owned(), bridge_url: None }
    }
}

/// The arguments of every invocation.
pub open spec fn common(bridge_url: Option<Seq<char>>) -> Seq<Seq<char>> {
    match bridge_url {
        Some(u) => seq!["--bridge-url"@, u],
        None => Seq::empty(),
    }
}

/// The JSON object of a task.
pub open spec fn task_json(t: WebTask) -> Seq<char> {
    "{\"label\":"@ + json_quoted(t.label@) + ",\"task\":"@ + json_quoted(t.task@) + (
    match t.workspace {
        Some(w) => ",\"workspace\":"@ + json_quoted(w@),
        None => Seq::empty(),
    }) + "}"@
}

pub open spec fn task_jsons(v: Seq<WebTask>) -> Seq<Seq<char>> {
    v.map_values(|t: WebTask| task_json(t))
}

/// The JSON text of a batch.
pub open spec fn manifest(v: Seq<WebTask>) -> Seq<char> {
    "{\"tasks\":["@ + joined(task_jsons(v), ","@) + "]}"@
}

/// The first fault among some tasks.
pub open spec fn first_fault(v: Seq<WebTask>, from: int) -> Option<WebFault>
    decreases v.len() - from,
{
    if from < 0 || from >= v.len() {
        None
    } else if v[from].fault() is Some {
        v[from].fault()
    } else {
        first_fault(v, from + 1)
    }
}

/// Why some tasks cannot go into one batch.
pub open spec fn batch_fault(v: Seq<WebTask>) -> Option<WebFault> {
    if v.len() == 0 || v.len() > DELEGATE_WEB_MAX_WORKERS {
        Some(WebFault::InvalidBatchSize(v.len() as usize, DELEGATE_WEB_MAX_WORKERS))
    } else {
        first_fault(v, 0)
    }
}

fn json_of_task(t: &WebTask) -> (r: String)
    ensures
        r@ == task_json(*t),
{
    let head = "{\"label\":".to_owned().concat(json_quote(t.label.as_str()).as_str()).concat(
        ",\"task\":",
    ).concat(json_quote(t.task.as_str()).as_str());
    let r = match &t.workspace {
        Some(w) => head.concat(",\"workspace\":").concat(json_quote(w.as_str()).as_str()).concat("}"),
        None => head.concat("}"),
    };
    assert(r@ =~= task_json(*t));
    r
}

impl DelegateWebConfig {
    /// Invocations of another program.
    pub fn new(binary: &str) -> (r: Self)
        ensures
            r.binary@ == binary@,
            r.bridge_url is None,
    {
        DelegateWebConfig { binary: binary.to_owned(), bridge_url: None }
    }

    /// Invocations for the bridge at a URL; a blank URL names none.
    pub fn with_bridge_url(self, bridge_url: &str) -> (r: Self)
        ensures
            r.binary == self.binary,
            opt_text(r.bridge_url) == (if trimmed(bridge_url@).len() > 0 {
                Some(bridge_url@)
            } else {
                None
            }),
    {
        DelegateWebConfig {
            binary: self.binary,
            bridge_url: if is_blank(bridge_url) {
                None
            } else {
                Some(bridge_url.to_owned())
            },
        }
    }

    fn common_args(&self) -> (r: Vec<String>)
        ensures
            texts(r@) == common(opt_text(self.bridge_url)),
    {
        let mut args = no_texts();
        if let Some(u) = &self.bridge_url {
            push_text(&mut args, "--bridge-url");
            push_text(&mut args, u.as_str());
        }
        assert(texts(args@) =~= common(opt_text(self.bridge_url)));
        args
    }

    /// Hands one task to a fresh worker, whose page is kept.
    pub fn single(&self, item: &WebTask) -> (r: Result<DelegateWebInvocation, MassUlwWebError>)
        ensures
            match r {
                Ok(c) => item.fault() is None && c.is_call(
                    self.binary@,
                    common(opt_text(self.bridge_url)) + (match item.workspace {
                        Some(w) => seq!["--workspace"@, w@],
                        None => Seq::empty(),
                    }) + seq!["--stdin"@, "--json"@],
                    Some(trimmed(item.task@)),
                ),
                Err(e) => item.fault() == Some(e@),
            },
    {
        if let Err(e) = item.validate() {
            return Err(e);
        }
        let mut args = self.common_args();
        if let Some(w) = &item.workspace {
            push_text(&mut args, "--workspace");
            push_text(&mut args, w.as_str());
        }
        push_text(&mut args, "--stdin");
        push_text(&mut args, "--json");
        assert(texts(args@) =~= common(opt_text(self.bridge_url)) + (match item.workspace {
            Some(w) => seq!["--workspace"@, w@],
            None => Seq::empty(),
        }) + seq!["--stdin"@, "--json"@]);
        Ok(
            DelegateWebInvocation {
                program: self.binary.clone(),
                args,
                stdin: Some(trim(item.task.as_str())),
            },
        )
    }

    /// Hands one or two tasks to fresh workers.
    pub fn batch(&self, items: &Vec<WebTask>) -> (r: Result<DelegateWebInvocation, MassUlwWebError>)
        ensures
            match r {
                Ok(c) => batch_fault(items@) is None && c.is_call(
                    self.binary@,
                    common(opt_text(self.bridge_url)) + seq!["--batch-stdin"@, "--json"@],
                    Some(manifest(items@)),
                ),
                Err(e) => batch_fault(items@) == Some(e@),
            },
    {
        if items.len() == 0 || items.len() > DELEGATE_WEB_MAX_WORKERS {
            return Err(
                MassUlwWebError::InvalidBatchSize {
                    count: items.len(),
                    max: DELEGATE_WEB_MAX_WORKERS,
                },
            );
        }
        let mut parts = no_texts();
        let mut i: usize = 0;
        while i < items.len()
            invariant
                i <= items@.len(),
                items@.len() <= DELEGATE_WEB_MAX_WORKERS,
                items@.len() > 0,
                first_fault(items@, 0) == first_fault(items@, i as int),
                texts(parts@) =~= task_jsons(items@.subrange(0, i as int)),
            decreases items@.len() - i,
        {
            if let Err(e) = items[i].validate() {
                return Err(e);
            }
            push_text(&mut parts, json_of_task(&items[i]).as_str());
            assert(task_jsons(items@.subrange(0, i + 1)) =~= task_jsons(
                items@.subrange(0, i as int),
            ).push(task_json(items@[i as int])));
            i += 1;
        }
        assert(items@.subrange(0, items@.len() as int) =~= items@);
        let stdin = "{\"tasks\":[".to_owned().concat(join(&parts, ",").as_str()).concat("]}");
        let mut args = self.common_args();
        push_text(&mut args, "--batch-stdin");
        push_text(&mut args, "--json");
        assert(texts(args@) =~= common(opt_text(self.bridge_url)) + seq![
            "--batch-stdin"@,
            "--json"@,
        ]);
        Ok(DelegateWebInvocation { program: self.binary.clone(), args, stdin: Some(stdin) })
    }

    /// Hands two tasks to fresh workers.
    pub fn parallel_pair(&self, first: &WebTask, second: &WebTask) -> (r: Result<
        DelegateWebInvocation,
        MassUlwWebError,
    >)
        ensures
            ({
                let items = seq![*first, *second];
                match r {
                    Ok(c) => batch_fault(items) is None && c.is_call(
                        self.binary@,
                        common(opt_text(self.bridge_url)) + seq!["--batch-stdin"@, "--json"@],
                        Some(manifest(items)),
                    ),
                    Err(e) => batch_fault(items) == Some(e@),
                }
            }),
    {
        let mut items: Vec<WebTask> = Vec::new();
        items.push(first.clone());
        items.push(second.clone());
        assert(items@ =~= seq![*first, *second]);
        self.batch(&items)
    }

    /// Why a follow-up cannot be handed over.
    pub open spec fn resume_fault(scope_id: Seq<char>, follow_up: Seq<char>) -> Option<WebFault> {
        if trimmed(scope_id).len() == 0 {
            Some(WebFault::EmptyScope)
        } else if trimmed(follow_up).len() == 0 {
            Some(WebFault::EmptyTask)
        } else {
            None
        }
    }

    /// Hands a follow-up to the kept worker of a scope.
    pub fn resume(&self, scope_id: &str, follow_up: &str) -> (r: Result<
        DelegateWebInvocation,
        MassUlwWebError,
    >)
        ensures
            match r {
                Ok(c) => DelegateWebConfig::resume_fault(scope_id@, follow_up@) is None
                    && c.is_call(
                    self.binary@,
                    common(opt_text(self.bridge_url)) + seq![
                        "--resume-scope"@,
                        trimmed(scope_id@),
                        "--stdin"@,
                        "--json"@,
                    ],
                    Some(trimmed(follow_up@)),
                ),
                Err(e) => DelegateWebConfig::resume_fault(scope_id@, follow_up@) == Some(e@),
            },
    {
        let scope = trim(scope_id);
        if scope.as_str().is_empty() {
            return Err(MassUlwWebError::EmptyScope);
        }
        let task = trim(follow_up);
        if task.as_str().is_empty() {
            return Err(MassUlwWebError::EmptyTask);
        }
        let mut args = self.common_args();
        push_text(&mut args, "--resume-scope");
        push_text(&mut args, scope.as_str());
        push_text(&mut args, "--stdin");
        push_text(&mut args, "--json");
        assert(texts(args@) =~= common(opt_text(self.bridge_url)) + seq![
            "--resume-scope"@,
            trimmed(scope_id@),
            "--stdin"@,
            "--json"@,
        ]);
        Ok(DelegateWebInvocation { program: self.binary.clone(), args, stdin: Some(task) })
    }

    /// Closes the kept page of a scope.
    pub fn close_scope(&self, scope_id: &str) -> (r: Result<DelegateWebInvocation, MassUlwWebError>)
        ensures
            match r {
                Ok(c) => trimmed(scope_id@).len() > 0 && c.is_call(
                    self.binary@,
                    common(opt_text(self.bridge_url)) + seq![
                        "--close-scope"@,
                        trimmed(scope_id@),
                        "--json"@,
                    ],
                    None,
                ),
                Err(e) => trimmed(scope_id@).len() == 0 && e@ == WebFault::EmptyScope,
            },
    {
        let scope = trim(scope_id);
        if scope.as_str().is_empty() {
            return Err(MassUlwWebError::EmptyScope);
        }
        let mut args = self.common_args();
        push_text(&mut args, "--close-scope");
        push_text(&mut args, scope.as_str());
        push_text(&mut args, "--json");
        assert(texts(args@) =~= common(opt_text(self.bridge_url)) + seq![
            "--close-scope"@,
            trimmed(scope_id@),
            "--json"@,
        ]);
        Ok(DelegateWebInvocation { program: self.binary.clone(), args, stdin: None })
    }
}

/// What the delegation command reports of one worker.
#[derive(Debug, PartialEq, Eq)]
pub struct DelegateWebDelegationResult {
    pub label: Option<String>,
    pub scope_id: String,
    pub terminal_state: Option<DelegationTerminalState>,
    pub terminal_detail: Option<String>,
    pub session_retained: bool,
    pub resumable: bool,
}

/// What the delegation command reports.
#[derive(Debug, PartialEq, Eq)]
pub struct DelegateWebResult {
    pub ok: bool,
    pub sent: bool,
    pub ready: bool,
    pub terminal: bool,
    pub delegations: Vec<DelegateWebDelegationResult>,
}

impl DelegateWebDelegationResult {
    /// The worker is kept for another task.
    pub open spec fn is_retained(self) -> bool {
        self.session_retained && self.resumable && trimmed(self.scope_id@).len() > 0
    }

    /// What the worker goes by.
    pub open spec fn name(self) -> Seq<char> {
        match self.label {
            Some(l) => l@,
            None => self.scope_id@,
        }
    }

    /// What is said of the worker's end.
    pub open spec fn evidence(self) -> Seq<char> {
        "- "@ + (match self.label {
            Some(l) => l@,
            None => "unlabeled"@,
        }) + ": terminal="@ + (match self.terminal_state {
            Some(s) => terminal_name(s),
            None => "UNKNOWN"@,
        }) + "; detail="@ + (match self.terminal_detail {
            Some(d) => d@,
            None => "none"@,
        })
    }

    fn evidence_line(&self) -> (r: String)
        ensures
            r@ == self.evidence(),
    {
        let label = match &self.label {
            Some(l) => l.clone(),
            None => "unlabeled".to_owned(),
        };
        let state = match self.terminal_state {
            Some(s) => s.name(),
            None => "UNKNOWN",
        };
        let detail = match &self.terminal_detail {
            Some(d) => d.clone(),
            None => "none".to_owned(),
        };
        "- ".to_owned().concat(label.as_str()).concat(": terminal=").concat(state).concat(
            "; detail=",
        ).concat(detail.as_str())
    }
}

/// The scope of a worker that is kept, or the failure of one that is not.
pub open spec fn scope_outcome(d: DelegateWebDelegationResult) -> Result<Seq<char>, WebFault> {
    if d.is_retained() {
        Ok(d.scope_id@)
    } else {
        Err(WebFault::ScopeNotResumable(d.name()))
    }
}

fn retained_scope(d: &DelegateWebDelegationResult) -> (r: Result<&str, MassUlwWebError>)
    ensures
        match r {
            Ok(s) => scope_outcome(*d) == Ok::<Seq<char>, WebFault>(s@),
            Err(e) => scope_outcome(*d) == Err::<Seq<char>, WebFault>(e@),
        },
{
    if d.session_retained && d.resumable && !is_blank(d.scope_id.as_str()) {
        return Ok(d.scope_id.as_str());
    }
    let name = match &d.label {
        Some(l) => l.clone(),
        None => d.scope_id.clone(),
    };
    Err(MassUlwWebError::ScopeNotResumable(name))
}

/// The place of the first worker with a label, or the number of workers.
pub open spec fn label_position(v: Seq<DelegateWebDelegationResult>, label: Seq<char>) -> int
    decreases v.len(),
{
    if v.len() == 0 || opt_text(v[0].label) == Some(label) {
        0
    } else {
        1 + label_position(v.drop_first(), label)
    }
}

/// The lines on the ends of some workers.
pub open spec fn evidence_lines(v: Seq<DelegateWebDelegationResult>) -> Seq<Seq<char>> {
    v.map_values(|d: DelegateWebDelegationResult| d.evidence())
}

pub const FAN_IN_HEAD: &'static str =
    "Fan-in integration pass. Both parallel Web workers are terminal. Continue in this same retained session; do not create another Web worker.\n\nIntegration goal:\n";

pub const FAN_IN_TAIL: &'static str =
    "\n\nInspect the current workspace state independently, reconcile both domains, fix integration defects, run the required local verification, and finish only after authoritative completion_check is ready=true.";

pub const NO_FEEDBACK: &'static str = "No additional local verification feedback was supplied.";

/// The task with which one worker brings the work of all together.
pub open spec fn fan_in_prompt(goal: Seq<char>, v: Seq<DelegateWebDelegationResult>, feedback: Seq<char>) -> Seq<
    char,
> {
    FAN_IN_HEAD@ + trimmed(goal) + "\n\nParallel terminal evidence:\n"@ + joined(
        evidence_lines(v),
        "\n"@,
    ) + "\n\nLocal verification feedback:\n"@ + (if trimmed(feedback).len() > 0 {
        trimmed(feedback)
    } else {
        NO_FEEDBACK@
    }) + FAN_IN_TAIL@
}

impl DelegateWebResult {
    /// The scope of the worker with a label, or why there is none that is kept.
    pub open spec fn scope_for(self, label: Seq<char>) -> Result<Seq<char>, WebFault> {
        let i = label_position(self.delegations@, label);
        if i < self.delegations@.len() {
            scope_outcome(self.delegations@[i])
        } else {
            Err(WebFault::MissingLabel(label))
        }
    }

    /// The scope of the kept worker with a label.
    pub fn retained_scope_for_label(&self, label: &str) -> (r: Result<&str, MassUlwWebError>)
        ensures
            match r {
                Ok(s) => self.scope_for(label@) == Ok::<Seq<char>, WebFault>(s@),
                Err(e) => self.scope_for(label@) == Err::<Seq<char>, WebFault>(e@),
            },
    {
        let ghost all = self.delegations@;
        let mut i: usize = 0;
        assert(all.subrange(0, all.len() as int) =~= all);
        while i < self.delegations.len()
            invariant
                i <= self.delegations@.len(),
                all == self.delegations@,
                label_position(all, label@) == i + label_position(
                    all.subrange(i as int, all.len() as int),
                    label@,
                ),
            decreases self.delegations@.len() - i,
        {
            let ghost rest = all.subrange(i as int, all.len() as int);
            assert(rest[0] == all[i as int]);
            assert(rest.drop_first() =~= all.subrange(i + 1, all.len() as int));
            if let Some(l) = &self.delegations[i].label {
                if same_text(l.as_str(), label) {
                    return retained_scope(&self.delegations[i]);
                }
            }
            i += 1;
        }
        Err(MassUlwWebError::MissingLabel(label.to_owned()))
    }

    /// The scope of the only worker, which must be kept.
    pub fn single_retained_scope(&self) -> (r: Result<&str, MassUlwWebError>)
        ensures
            ({
                let outcome = if self.delegations@.len() != 1 {
                    Err(WebFault::SingleDelegationExpected(self.delegations@.len() as usize))
                } else {
                    scope_outcome(self.delegations@[0])
                };
                match r {
                    Ok(s) => outcome == Ok::<Seq<char>, WebFault>(s@),
                    Err(e) => outcome == Err::<Seq<char>, WebFault>(e@),
                }
            }),
    {
        if self.delegations.len() != 1 {
            return Err(MassUlwWebError::SingleDelegationExpected(self.delegations.len()));
        }
        retained_scope(&self.delegations[0])
    }

    /// The hand-over of all work to one kept worker, once every worker ended.
    pub fn fan_in_handoff(
        &self,
        primary_label: &str,
        integration_goal: &str,
        local_verification_feedback: &str,
    ) -> (r: Result<FanInHandoff, MassUlwWebError>)
        ensures
            match r {
                Ok(h) => {
                    &&& self.terminal
                    &&& self.scope_for(primary_label@) == Ok::<Seq<char>, WebFault>(
                        h.primary_scope_id@,
                    )
                    &&& h.resume_prompt@ == fan_in_prompt(
                        integration_goal@,
                        self.delegations@,
                        local_verification_feedback@,
                    )
                },
                Err(e) => if !self.terminal {
                    e@ == WebFault::ResultNotTerminal
                } else {
                    self.scope_for(primary_label@) == Err::<Seq<char>, WebFault>(e@)
                },
            },
    {
        if !self.terminal {
            return Err(MassUlwWebError::ResultNotTerminal);
        }
        let primary_scope_id = match self.retained_scope_for_label(primary_label) {
            Ok(s) => s.to_owned(),
            Err(e) => {
                return Err(e);
            },
        };
        let mut lines = no_texts();
        let mut i: usize = 0;
        while i < self.delegations.len()
            invariant
                i <= self.delegations@.len(),
                texts(lines@) =~= evidence_lines(self.delegations@.subrange(0, i as int)),
            decreases self.delegations@.len() - i,
        {
            push_text(&mut lines, self.delegations[i].evidence_line().as_str());
            assert(evidence_lines(self.delegations@.subrange(0, i + 1)) =~= evidence_lines(
                self.delegations@.subrange(0, i as int),
            ).push(self.delegations@[i as int].evidence()));
            i += 1;
        }
        assert(self.delegations@.subrange(0, self.delegations@.len() as int)
            =~= self.delegations@);
        let given = trim(local_verification_feedback);
        let feedback = if given.as_str().is_empty() {
            NO_FEEDBACK.to_owned()
        } else {
            given
        };
        let resume_prompt = FAN_IN_HEAD.to_owned().concat(trim(integration_goal).as_str()).concat(
            "\n\nParallel terminal evidence:\n",
        ).concat(join(&lines, "\n").as_str()).concat("\n\nLocal verification feedback:\n").concat(
            feedback.as_str(),
        ).concat(FAN_IN_TAIL);
        Ok(FanInHandoff { primary_scope_id, resume_prompt })
    }
}

/// The hand-over of all work to one kept worker.
#[derive(Debug, PartialEq, Eq)]
pub struct FanInHandoff {
    pub primary_scope_id: String,
    pub resume_prompt: String,
}

impl FanInHandoff {
    /// Hands the work over.
    pub fn resume_invocation(&self, config: &DelegateWebConfig) -> (r: Result<
        DelegateWebInvocation,
        MassUlwWebError,
    >)
        ensures
            ({
                let fault = DelegateWebConfig::resume_fault(
                    self.primary_scope_id@,
                    self.resume_prompt@,
                );
                match r {
                    Ok(c) => fault is None && c.is_call(
                        config.binary@,
                        common(opt_text(config.bridge_url)) + seq![
                            "--resume-scope"@,
                            trimmed(self.primary_scope_id@),
                            "--stdin"@,
                            "--json"@,
                        ],
                        Some(trimmed(self.resume_prompt@)),
                    ),
                    Err(e) => fault == Some(e@),
                }
            }),
    {
        config.resume(self.primary_scope_id.as_str(), self.resume_prompt.as_str())
    }
}

/// The text of a workspace path.
pub fn workspace_display(path: &str) -> (r: String)
    ensures
        r@ == path@,
{
    path.to_owned()
}

/// No invocation starts more fresh workers than the limit allows.
pub proof fn lemma_batch_respects_limit(items: Seq<WebTask>)
    requires
        batch_fault(items) is None,
    ensures
        1 <= items.len() <= DELEGATE_WEB_MAX_WORKERS,
        forall|i: int|
            0 <= i < items.len() ==> (#[trigger] items[i]).fault() is None,
{
    lemma_no_fault(items, 0);
}

proof fn lemma_no_fault(items: Seq<WebTask>, from: int)
    requires
        0 <= from <= items.len(),
        first_fault(items, from) is None,
    ensures
        forall|i: int| from <= i < items.len() ==> (#[trigger] items[i]).fault() is None,
    decreases items.len() - from,
{
    if from < items.len() {
        lemma_no_fault(items, from + 1);
    }
}

/// What a result says of one worker.
pub struct WorkerReport {
    pub label: Option<Seq<char>>,
    pub scope_id: Seq<char>,
    pub terminal_state: Option<DelegationTerminalState>,
    pub terminal_detail: Option<Seq<char>>,
    pub session_retained: bool,
    pub resumable: bool,
}

impl View for DelegateWebDelegationResult {
    type V = WorkerReport;

    open spec fn view(&self) -> WorkerReport {
        WorkerReport {
            label: opt_text(self.label),
            scope_id: self.scope_id@,
            terminal_state: self.terminal_state,
            terminal_detail: opt_text(self.terminal_detail),
            session_retained: self.session_retained,
            resumable: self.resumable,
        }
    }
}

/// The mathematical value of a [`DelegateWebResult`].
pub struct ReportModel {
    pub ok: bool,
    pub sent: bool,
    pub ready: bool,
    pub terminal: bool,
    pub delegations: Seq<WorkerReport>,
}

impl View for DelegateWebResult {
    type V = ReportModel;

    open spec fn view(&self) -> ReportModel {
        ReportModel {
            ok: self.ok,
            sent: self.sent,
            ready: self.ready,
            terminal: self.terminal,
            delegations: self.delegations@.map_values(|d: DelegateWebDelegationResult| d@),
        }
    }
}

/// A flag that may be missing, which counts as no.
pub open spec fn flag(v: JsonModel, key: Seq<char>) -> Option<bool> {
    match v.field(key) {
        None => Some(false),
        Some(JsonModel::Bool(b)) => Some(b),
        Some(_) => None,
    }
}

/// The end with a name.
pub open spec fn named_end(name: Seq<char>) -> Option<DelegationTerminalState> {
    if name == "COMPLETED"@ {
        Some(DelegationTerminalState::Completed)
    } else if name == "BLOCKED"@ {
        Some(DelegationTerminalState::Blocked)
    } else if name == "FAILED"@ {
        Some(DelegationTerminalState::Failed)
    } else if name == "LOST"@ {
        Some(DelegationTerminalState::Lost)
    } else {
        None
    }
}

/// An end that may be missing or null.
pub open spec fn maybe_end(v: JsonModel, key: Seq<char>) -> Option<Option<DelegationTerminalState>> {
    match maybe_text(v, key) {
        None => None,
        Some(None) => Some(None),
        Some(Some(name)) => match named_end(name) {
            Some(end) => Some(Some(end)),
            None => None,
        },
    }
}

/// What an object says of one worker; nothing where a field is not what it should be.
pub open spec fn read_worker(v: JsonModel) -> Option<WorkerReport> {
    let label = maybe_text(v, "label"@);
    let end = maybe_end(v, "terminal_state"@);
    let detail = maybe_text(v, "terminal_detail"@);
    let retained = flag(v, "session_retained"@);
    let resumable = flag(v, "resumable"@);
    match v.field("scope_id"@) {
        Some(JsonModel::Text(scope_id)) => if label is Some && end is Some && detail is Some
            && retained is Some && resumable is Some {
            Some(
                WorkerReport {
                    label: label->0,
                    scope_id,
                    terminal_state: end->0,
                    terminal_detail: detail->0,
                    session_retained: retained->0,
                    resumable: resumable->0,
                },
            )
        } else {
            None
        },
        _ => None,
    }
}

/// What some objects say of workers; nothing where one says nothing.
pub open spec fn read_workers(v: Seq<JsonModel>) -> Option<Seq<WorkerReport>>
    decreases v.len(),
{
    if v.len() == 0 {
        Some(Seq::empty())
    } else {
        match (read_workers(v.drop_last()), read_worker(v.last())) {
            (Some(before), Some(last)) => Some(before.push(last)),
            _ => None,
        }
    }
}

/// The workers of a result; a result may leave them out.
pub open spec fn workers_of(v: JsonModel) -> Option<Seq<WorkerReport>> {
    match v.field("delegations"@) {
        None => Some(Seq::empty()),
        Some(JsonModel::Array(workers)) => read_workers(workers),
        Some(_) => None,
    }
}

/// The result that an object writes; nothing where a field is not what it should be.
pub open spec fn read_report(v: JsonModel) -> Option<ReportModel> {
    let sent = flag(v, "sent"@);
    let ready = flag(v, "ready"@);
    let terminal = flag(v, "terminal"@);
    let delegations = workers_of(v);
    match v.field("ok"@) {
        Some(JsonModel::Bool(ok)) => if sent is Some && ready is Some && terminal is Some
            && delegations is Some {
            Some(
                ReportModel {
                    ok,
                    sent: sent->0,
                    ready: ready->0,
                    terminal: terminal->0,
                    delegations: delegations->0,
                },
            )
        } else {
            None
        },
        _ => None,
    }
}

fn flag_in(v: &Json, key: &str) -> (r: Option<bool>)
    ensures
        r == flag(v.model(), key@),
{
    match v.get(key) {
        None => Some(false),
        Some(Json::Bool(b)) => Some(*b),
        Some(_) => None,
    }
}

fn text_in(v: &Json, key: &str) -> (r: Option<Option<String>>)
    ensures
        match r {
            Some(o) => maybe_text(v.model(), key@) == Some(opt_text(o)),
            None => maybe_text(v.model(), key@) is None,
        },
{
    match v.get(key) {
        None => Some(None),
        Some(Json::Null) => Some(None),
        Some(Json::Text(s)) => Some(Some(s.clone())),
        Some(_) => None,
    }
}

fn end_in(v: &Json, key: &str) -> (r: Option<Option<DelegationTerminalState>>)
    ensures
        r == maybe_end(v.model(), key@),
{
    match text_in(v, key) {
        None => None,
        Some(None) => Some(None),
        Some(Some(name)) => if same_text(name.as_str(), "COMPLETED") {
            Some(Some(DelegationTerminalState::Completed))
        } else if same_text(name.as_str(), "BLOCKED") {
            Some(Some(DelegationTerminalState::Blocked))
        } else if same_text(name.as_str(), "FAILED") {
            Some(Some(DelegationTerminalState::Failed))
        } else if same_text(name.as_str(), "LOST") {
            Some(Some(DelegationTerminalState::Lost))
        } else {
            None
        },
    }
}

impl DelegateWebDelegationResult {
    /// What an object says of one worker.
    fn read(v: &Json) -> (r: Option<Self>)
        ensures
            match r {
                Some(d) => read_worker(v.model()) == Some(d@),
                None => read_worker(v.model()) is None,
            },
    {
        let scope_id = match v.get("scope_id") {
            Some(Json::Text(s)) => s.clone(),
            _ => return None,
        };
        match (
            text_in(v, "label"),
            end_in(v, "terminal_state"),
            text_in(v, "terminal_detail"),
            flag_in(v, "session_retained"),
            flag_in(v, "resumable"),
        ) {
            (
                Some(label),
                Some(terminal_state),
                Some(terminal_detail),
                Some(session_retained),
                Some(resumable),
            ) => Some(
                DelegateWebDelegationResult {
                    label,
                    scope_id,
                    terminal_state,
                    terminal_detail,
                    session_retained,
                    resumable,
                },
            ),
            _ => None,
        }
    }
}

fn workers_in(v: &Json) -> (r: Option<Vec<DelegateWebDelegationResult>>)
    ensures
        match r {
            Some(w) => workers_of(v.model()) == Some(
                w@.map_values(|d: DelegateWebDelegationResult| d@),
            ),
            None => workers_of(v.model()) is None,
        },
{
    let mut out: Vec<DelegateWebDelegationResult> = Vec::new();
    let values = match v.get("delegations") {
        None => {
            assert(out@.map_values(|d: DelegateWebDelegationResult| d@) =~= Seq::empty());
            return Some(out);
        },
        Some(Json::Array(values)) => values,
        Some(_) => return None,
    };
    let ghost all = models(values@);
    let mut i: usize = 0;
    assert(all.subrange(0, 0) =~= Seq::empty());
    while i < values.len()
        invariant
            i <= values@.len(),
            all == models(values@),
            workers_of(v.model()) == read_workers(all),
            read_workers(all.subrange(0, i as int)) == Some(
                out@.map_values(|d: DelegateWebDelegationResult| d@),
            ),
        decreases values@.len() - i,
    {
        proof {
            assert(all.subrange(0, i + 1).drop_last() =~= all.subrange(0, i as int));
            assert(all.subrange(0, i + 1).last() == values@[i as int].model());
        }
        match DelegateWebDelegationResult::read(&values[i]) {
            Some(d) => {
                let ghost before = out@;
                out.push(d);
                assert(out@.map_values(|d: DelegateWebDelegationResult| d@) =~= before.map_values(
                    |d: DelegateWebDelegationResult| d@,
                ).push(d@));
            },
            None => {
                proof {
                    lemma_unread_worker(all, i + 1);
                }
                return None;
            },
        }
        i += 1;
    }
    assert(all.subrange(0, all.len() as int) =~= all);
    Some(out)
}

/// Objects of which some in front cannot be read cannot be read.
proof fn lemma_unread_worker(v: Seq<JsonModel>, n: int)
    requires
        0 <= n <= v.len(),
        read_workers(v.subrange(0, n)) is None,
    ensures
        read_workers(v) is None,
    decreases v.len() - n,
{
    if n == v.len() {
        assert(v.subrange(0, n) =~= v);
    } else {
        assert(v.subrange(0, n + 1).drop_last() =~= v.subrange(0, n));
        lemma_unread_worker(v, n + 1);
    }
}

impl DelegateWebResult {
    /// Reads the result that the delegation command wrote. Fields that the result does not
    /// know are passed over; flags and workers may be left out. There is no value where what
    /// the command wrote is no JSON; `refusal` says what a reader of the text finds wrong
    /// with it.
    pub fn parse(value: Option<&Json>, refusal: &str) -> (r: Result<Self, MassUlwWebError>)
        ensures
            match r {
                Ok(report) => value is Some && read_report(value->0.model()) == Some(report@),
                Err(e) => {
                    &&& value is None || read_report(value->0.model()) is None
                    &&& e@ == WebFault::Json(refusal@)
                },
            },
    {
        let value = match value {
            Some(value) => value,
            None => return Err(MassUlwWebError::Json(refusal.to_owned())),
        };
        let ok = match value.get("ok") {
            Some(Json::Bool(b)) => *b,
            _ => return Err(MassUlwWebError::Json(refusal.to_owned())),
        };
        match (
            flag_in(value, "sent"),
            flag_in(value, "ready"),
            flag_in(value, "terminal"),
            workers_in(value),
        ) {
            (Some(sent), Some(ready), Some(terminal), Some(delegations)) => Ok(
                DelegateWebResult { ok, sent, ready, terminal, delegations },
            ),
            _ => Err(MassUlwWebError::Json(refusal.to_owned())),
        }
    }
}

/// What a result says of a worker that was staged.
pub open spec fn staged_report(index: int, item: StagedDelegation, o: BatchOutcome) -> WorkerReport {
    WorkerReport {
        label: opt_text(item.label),
        scope_id: item.scope_id@,
        terminal_state: match o.end_of(index) {
            Some(end) => Some(end.state),
            None => None,
        },
        terminal_detail: match o.end_of(index) {
            Some(end) => end.detail,
            None => None,
        },
        session_retained: o.session_of(index).retained,
        resumable: o.session_of(index).retained,
    }
}

/// An end is found by its name.
proof fn lemma_named_end(end: DelegationTerminalState)
    ensures
        named_end(terminal_name(end)) == Some(end),
{
    reveal_strlit("COMPLETED");
    reveal_strlit("BLOCKED");
    reveal_strlit("FAILED");
    reveal_strlit("LOST");
    assert("COMPLETED"@.len() == 9);
    assert("BLOCKED"@.len() == 7);
    assert("FAILED"@.len() == 6);
    assert("LOST"@.len() == 4);
}

#[verifier::rlimit(40)]
proof fn lemma_worker_is_read_back(index: int, item: StagedDelegation, o: BatchOutcome)
    ensures
        read_worker(delegation_json(index, item@, o)) == Some(staged_report(index, item, o)),
{
    reveal_strlit("index");
    reveal_strlit("label");
    reveal_strlit("scope_id");
    reveal_strlit("workspace");
    reveal_strlit("browser_page_id");
    reveal_strlit("account_id");
    reveal_strlit("browser_instance");
    reveal_strlit("generation");
    reveal_strlit("resumed");
    reveal_strlit("ready");
    reveal_strlit("actual_task_sent");
    reveal_strlit("terminal_state");
    reveal_strlit("terminal_detail");
    reveal_strlit("terminal_ms");
    reveal_strlit("task_result");
    reveal_strlit("session_state");
    reveal_strlit("session_retained");
    reveal_strlit("session_closed");
    reveal_strlit("session_expired");
    reveal_strlit("lease_expires_ms");
    reveal_strlit("session_error");
    reveal_strlit("resumable");
    let fields = delegation_json(index, item@, o)->Object_0;
    assert(fields.len() == 22);
    assert(fields.subrange(0, 22) =~= fields);
    assert(fields[0].0 == "index"@);
    assert(fields[1].0 == "label"@);
    assert(fields[2].0 == "scope_id"@);
    assert(fields[3].0 == "workspace"@);
    assert(fields[4].0 == "browser_page_id"@);
    assert(fields[5].0 == "account_id"@);
    assert(fields[6].0 == "browser_instance"@);
    assert(fields[7].0 == "generation"@);
    assert(fields[8].0 == "resumed"@);
    assert(fields[9].0 == "ready"@);
    assert(fields[10].0 == "actual_task_sent"@);
    assert(fields[11].0 == "terminal_state"@);
    assert(fields[12].0 == "terminal_detail"@);
    assert(fields[13].0 == "terminal_ms"@);
    assert(fields[14].0 == "task_result"@);
    assert(fields[15].0 == "session_state"@);
    assert(fields[16].0 == "session_retained"@);
    assert(fields[17].0 == "session_closed"@);
    assert(fields[18].0 == "session_expired"@);
    assert(fields[19].0 == "lease_expires_ms"@);
    assert(fields[20].0 == "session_error"@);
    assert(fields[21].0 == "resumable"@);
    reveal_with_fuel(without_key, 22);
    assert("index"@[0] != "label"@[0]);
    assert(without_key(fields, 1, "label"@));
    lemma_field_at(fields, 0, 1, "label"@);
    assert(without_key(fields, 2, "scope_id"@));
    lemma_field_at(fields, 0, 2, "scope_id"@);
    assert(without_key(fields, 11, "terminal_state"@));
    lemma_field_at(fields, 0, 11, "terminal_state"@);
    assert("browser_page_id"@[0] != "terminal_detail"@[0]);
    assert(without_key(fields, 12, "terminal_detail"@));
    lemma_field_at(fields, 0, 12, "terminal_detail"@);
    assert("browser_instance"@[0] != "session_retained"@[0]);
    assert("actual_task_sent"@[0] != "session_retained"@[0]);
    assert(without_key(fields, 16, "session_retained"@));
    lemma_field_at(fields, 0, 16, "session_retained"@);
    assert("workspace"@[0] != "resumable"@[0]);
    assert(without_key(fields, 21, "resumable"@));
    lemma_field_at(fields, 0, 21, "resumable"@);
    let v = delegation_json(index, item@, o);
    let report = staged_report(index, item, o);
    assert(maybe_text(v, "label"@) == Some(report.label));
    if o.end_of(index) is Some {
        lemma_named_end(o.end_of(index)->0.state);
        assert(fields[11].1 == JsonModel::Text(terminal_name(o.end_of(index)->0.state)));
    }
    assert(maybe_end(v, "terminal_state"@) == Some(report.terminal_state));
    assert(maybe_text(v, "terminal_detail"@) == Some(report.terminal_detail));
    assert(flag(v, "session_retained"@) == Some(report.session_retained));
    assert(flag(v, "resumable"@) == Some(report.resumable));
}

/// Objects that can be read one by one can be read together.
proof fn lemma_all_workers_read(v: Seq<JsonModel>, w: Seq<WorkerReport>)
    requires
        v.len() == w.len(),
        forall|i: int| 0 <= i < v.len() ==> read_worker(#[trigger] v[i]) == Some(w[i]),
    ensures
        read_workers(v) == Some(w),
    decreases v.len(),
{
    if v.len() > 0 {
        lemma_all_workers_read(v.drop_last(), w.drop_last());
        assert(read_worker(v[v.len() - 1]) == Some(w[v.len() - 1]));
        assert(w.drop_last().push(w.last()) =~= w);
    } else {
        assert(w =~= Seq::empty());
    }
}

/// What the delegation command reports is read back: whether the request succeeded, whether
/// all tasks were sent, whether all workers were ready and ended, and of every worker its
/// label, its scope, its end and whether it is kept.
pub proof fn lemma_report_is_read_back(
    opts: DelegateOptions,
    max_new: usize,
    max_concurrent: usize,
    scope_dir: Seq<char>,
    bridge_url: Seq<char>,
    staged: Seq<StagedDelegation>,
    o: BatchOutcome,
)
    ensures
        read_report(
            result_json(opts, max_new, max_concurrent, scope_dir, bridge_url, staged, o),
        ) == Some(
            ReportModel {
                ok: opts.dry_run || (o.all_completed(staged.len() as int) && o.all_sent(
                    staged.len() as int,
                )),
                sent: o.all_sent(staged.len() as int),
                ready: o.readiness_complete,
                terminal: o.terminal_complete,
                delegations: Seq::new(staged.len(), |i: int| staged_report(i, staged[i], o)),
            },
        ),
{
    reveal_strlit("ok");
    reveal_strlit("sent");
    reveal_strlit("ready");
    reveal_strlit("terminal");
    reveal_strlit("session_ok");
    reveal_strlit("session_policy");
    reveal_strlit("session_ttl_minutes");
    reveal_strlit("parallel_count");
    reveal_strlit("max_parallel");
    reveal_strlit("max_concurrent");
    reveal_strlit("scope_dir");
    reveal_strlit("bridge_url");
    reveal_strlit("delegations");
    let report = result_json(opts, max_new, max_concurrent, scope_dir, bridge_url, staged, o);
    let fields = report->Object_0;
    assert(fields.len() == 13);
    assert(fields.subrange(0, 13) =~= fields);
    assert(fields[0].0 == "ok"@);
    assert(fields[1].0 == "sent"@);
    assert(fields[2].0 == "ready"@);
    assert(fields[3].0 == "terminal"@);
    assert(fields[4].0 == "session_ok"@);
    assert(fields[5].0 == "session_policy"@);
    assert(fields[6].0 == "session_ttl_minutes"@);
    assert(fields[7].0 == "parallel_count"@);
    assert(fields[8].0 == "max_parallel"@);
    assert(fields[9].0 == "max_concurrent"@);
    assert(fields[10].0 == "scope_dir"@);
    assert(fields[11].0 == "bridge_url"@);
    assert(fields[12].0 == "delegations"@);
    reveal_with_fuel(without_key, 13);
    assert(without_key(fields, 0, "ok"@));
    lemma_field_at(fields, 0, 0, "ok"@);
    assert(without_key(fields, 1, "sent"@));
    lemma_field_at(fields, 0, 1, "sent"@);
    assert(without_key(fields, 2, "ready"@));
    lemma_field_at(fields, 0, 2, "ready"@);
    assert(without_key(fields, 3, "terminal"@));
    lemma_field_at(fields, 0, 3, "terminal"@);
    assert(without_key(fields, 12, "delegations"@));
    lemma_field_at(fields, 0, 12, "delegations"@);
    let workers = delegations_json(staged, o)->Array_0;
    let reports = Seq::new(staged.len(), |i: int| staged_report(i, staged[i], o));
    assert forall|i: int| 0 <= i < workers.len() implies read_worker(#[trigger] workers[i]) == Some(
        reports[i],
    ) by {
        lemma_worker_is_read_back(i, staged[i], o);
    }
    lemma_all_workers_read(workers, reports);
}

/// Some tasks as the delegation command reads them out of the manifest of a batch: the same
/// words, and the workspaces that they name are directories.
pub open spec fn is_manifest_of(raw: Seq<BatchTask>, items: Seq<WebTask>) -> bool {
    &&& raw.len() == items.len()
    &&& forall|i: int|
        #![trigger raw[i]]
        0 <= i < raw.len() ==> {
            &&& raw[i].task@ == items[i].task@
            &&& opt_text(raw[i].label) == Some(items[i].label@)
            &&& raw[i].workspace is Some <==> items[i].workspace is Some
            &&& raw[i].workspace is Some ==> raw[i].workspace->0.path@ == items[i].workspace->0@
                && raw[i].workspace->0.state is Directory
        }
}

proof fn lemma_no_task_fault(raw: Seq<BatchTask>, from: int)
    requires
        0 <= from <= raw.len(),
        forall|i: int| from <= i < raw.len() ==> task_fault(#[trigger] raw[i], i) is None,
    ensures
        tasks_fault(raw, from) is None,
    decreases raw.len() - from,
{
    if from < raw.len() {
        lemma_no_task_fault(raw, from + 1);
    }
}

/// A batch that can be built here is one that the delegation command takes, where it may
/// start as many workers, and every task keeps its label.
pub proof fn lemma_batch_is_taken(
    items: Seq<WebTask>,
    raw: Seq<BatchTask>,
    default: Seq<char>,
    max: usize,
)
    requires
        batch_fault(items) is None,
        is_manifest_of(raw, items),
        max >= DELEGATE_WEB_MAX_WORKERS,
    ensures
        count_fault(raw.len() as usize, max) is None,
        tasks_fault(raw, 0) is None,
        forall|i: int|
            #![trigger raw[i]]
            0 <= i < raw.len() ==> {
                &&& prepared(raw[i], default).task == trimmed(items[i].task@)
                &&& prepared(raw[i], default).label == Some(trimmed(items[i].label@))
            },
{
    lemma_no_fault(items, 0);
    assert forall|i: int| 0 <= i < raw.len() implies task_fault(#[trigger] raw[i], i) is None by {
        assert(items[i].fault() is None);
    }
    lemma_no_task_fault(raw, 0);
    assert forall|i: int| #![trigger raw[i]] 0 <= i < raw.len() implies prepared(
        raw[i],
        default,
    ).label == Some(trimmed(items[i].label@)) by {
        assert(items[i].fault() is None);
    }
}

} // verus!
