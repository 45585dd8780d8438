//! What is delegated: the tasks of a request and the workspaces they are for.
use crate::delegate::control::{count_fault, validate_parallel_count, DelegateOptions,
    MAX_INPUT_BYTES};
use crate::error::Failure;
use crate::json::{text_of, Json, JsonModel};
use crate::outside::{parsed_url, url_parts};
use crate::security::workspace::PathState;
use crate::text::{copy_opt, decimal, decimal_of, join, joined, lossy, lossy_text, opt_text,
    same_text, texts, trim, trimmed};
use vstd::prelude::*;

verus! {

/// Whether input of this many bytes is short enough to be read.
pub fn check_input_size(bytes: usize) -> (r: Result<(), String>)
    ensures
        r is Ok <==> bytes <= MAX_INPUT_BYTES,
        r is Err ==> r->Err_0@ == "delegation input exceeds 1 MiB"@,
{
    if bytes > MAX_INPUT_BYTES {
        Err("delegation input exceeds 1 MiB".to_owned())
    } else {
        Ok(())
    }
}

/// The text of a request's only task: what was read, or the words behind the command.
pub open spec fn request_text(o: DelegateOptions, read: Seq<char>) -> Seq<char> {
    if o.stdin {
        read
    } else {
        joined(texts(o.task@), " "@)
    }
}

fn text_of_request(o: &DelegateOptions, read: &str) -> (r: String)
    ensures
        r@ == request_text(*o, read@),
{
    if o.stdin {
        read.to_owned()
    } else {
        join(&o.task, " ")
    }
}

pub const WORDS_AND_STDIN: &'static str = "TASK arguments cannot be combined with --stdin";

pub const WORDS_AND_BATCH: &'static str = "TASK arguments cannot be combined with --batch-stdin";

pub const NO_FOLLOW_UP: &'static str = "--resume-scope requires one non-empty follow-up task";

/// The follow-up task of a request; `read` is what was read where the task is read.
pub fn prepare_resume_task(o: &DelegateOptions, read: &str) -> (r: Result<String, String>)
    ensures
        match r {
            Ok(t) => {
                &&& !(o.task@.len() > 0 && o.stdin)
                &&& t@ == trimmed(request_text(*o, read@))
                &&& t@.len() > 0
            },
            Err(e) => if o.task@.len() > 0 && o.stdin {
                e@ == WORDS_AND_STDIN@
            } else {
                trimmed(request_text(*o, read@)).len() == 0 && e@ == NO_FOLLOW_UP@
            },
        },
{
    if o.task.len() > 0 && o.stdin {
        return Err(WORDS_AND_STDIN.to_owned());
    }
    let task = trim(text_of_request(o, read).as_str());
    if task.as_str().is_empty() {
        return Err(NO_FOLLOW_UP.to_owned());
    }
    Ok(task)
}

/// A path and what stands there.
#[derive(Debug)]
pub struct NamedPlace {
    pub path: String,
    pub state: PathState,
}

/// A task of a request, as it was handed over.
#[derive(Debug)]
pub struct BatchTask {
    pub task: String,
    pub workspace: Option<NamedPlace>,
    pub label: Option<String>,
}

/// A task that is ready to be handed to a worker.
#[derive(Debug)]
pub struct PreparedTask {
    pub task: String,
    pub workspace: String,
    pub label: Option<String>,
}

/// The mathematical value of a [`PreparedTask`].
pub struct PreparedModel {
    pub task: Seq<char>,
    pub workspace: Seq<char>,
    pub label: Option<Seq<char>>,
}

impl View for PreparedTask {
    type V = PreparedModel;

    open spec fn view(&self) -> PreparedModel {
        PreparedModel {
            task: self.task@,
            workspace: self.workspace@,
            label: opt_text(self.label),
        }
    }
}

/// Why a place is no workspace.
pub open spec fn directory_fault(at: NamedPlace) -> Option<Seq<Seq<char>>> {
    match at.state {
        PathState::Unresolved(m) => Some(seq!["failed to canonicalize "@ + at.path@, m@]),
        PathState::File(p) => Some(seq!["workspace is not a directory: "@ + p@]),
        PathState::Directory(_) => None,
    }
}

/// The real path of a directory.
pub fn canonical_directory(at: &NamedPlace) -> (r: Result<String, Failure>)
    ensures
        match r {
            Ok(p) => at.state is Directory && p@ == at.state->Directory_0@,
            Err(e) => directory_fault(*at) == Some(e@),
        },
{
    match &at.state {
        PathState::Unresolved(m) => Err(
            Failure::caused(
                "failed to canonicalize ".to_owned().concat(at.path.as_str()),
                m.as_str(),
            ),
        ),
        PathState::File(p) => Err(
            Failure::new("workspace is not a directory: ".to_owned().concat(p.as_str())),
        ),
        PathState::Directory(p) => Ok(p.clone()),
    }
}

/// The root that git names, if it names one; `output` is what it printed where it
/// succeeded.
pub fn git_root(output: &Option<String>) -> (r: Option<String>)
    ensures
        opt_text(r) == (match *output {
            Some(t) => if trimmed(t@).len() > 0 {
                Some(trimmed(t@))
            } else {
                None
            },
            None => None,
        }),
{
    match output {
        Some(t) => {
            let root = trim(t.as_str());
            if root.as_str().is_empty() {
                None
            } else {
                Some(root)
            }
        },
        None => None,
    }
}

/// The root that git names, out of the bytes that it printed where it succeeded: see
/// [`git_root`].
pub fn git_root_in(output: &Option<Vec<u8>>) -> (r: Option<String>)
    ensures
        opt_text(r) == (match *output {
            Some(b) => if trimmed(lossy(b@)).len() > 0 {
                Some(trimmed(lossy(b@)))
            } else {
                None
            },
            None => None,
        }),
{
    match output {
        Some(b) => git_root(&Some(lossy_text(b))),
        None => None,
    }
}

/// The workspace of a request: the one that it names, or the root of the git worktree,
/// or the current directory.
pub fn discover_workspace_from(
    explicit: &Option<NamedPlace>,
    git: &Option<NamedPlace>,
    current: &NamedPlace,
) -> (r: Result<String, Failure>)
    ensures
        match *explicit {
            Some(at) => match r {
                Ok(p) => at.state is Directory && p@ == at.state->Directory_0@,
                Err(e) => directory_fault(at) is Some && e@ == seq![
                    "invalid --workspace "@ + at.path@,
                ] + directory_fault(at)->0,
            },
            None => match *git {
                Some(at) => match r {
                    Ok(p) => at.state is Directory && p@ == at.state->Directory_0@,
                    Err(e) => directory_fault(at) is Some && e@ == seq![
                        "git returned an invalid worktree root"@,
                    ] + directory_fault(at)->0,
                },
                None => match r {
                    Ok(p) => current.state is Directory && p@ == current.state->Directory_0@,
                    Err(e) => directory_fault(*current) == Some(e@),
                },
            },
        },
{
    if let Some(at) = explicit {
        return match canonical_directory(at) {
            Ok(p) => Ok(p),
            Err(e) => Err(e.under("invalid --workspace ".to_owned().concat(at.path.as_str()))),
        };
    }
    if let Some(at) = git {
        return match canonical_directory(at) {
            Ok(p) => Ok(p),
            Err(e) => Err(e.under("git returned an invalid worktree root".to_owned())),
        };
    }
    canonical_directory(current)
}

/// A label that says something, without the white space around it.
pub open spec fn clean_label(label: Option<Seq<char>>) -> Option<Seq<char>> {
    match label {
        Some(l) => if trimmed(l).len() > 0 {
            Some(trimmed(l))
        } else {
            None
        },
        None => None,
    }
}

/// Why a task cannot be handed to a worker; `index` counts from 0.
pub open spec fn task_fault(raw: BatchTask, index: int) -> Option<Seq<Seq<char>>> {
    if trimmed(raw.task@).len() == 0 {
        Some(seq!["batch task "@ + decimal((index + 1) as nat) + " is empty"@])
    } else if raw.workspace is Some && !(raw.workspace->0.state is Directory) {
        Some(
            seq!["invalid workspace for batch task "@ + decimal((index + 1) as nat)]
                + directory_fault(raw.workspace->0)->0,
        )
    } else {
        None
    }
}

/// The task that a worker gets.
pub open spec fn prepared(raw: BatchTask, default: Seq<char>) -> PreparedModel {
    PreparedModel {
        task: trimmed(raw.task@),
        workspace: match raw.workspace {
            Some(at) => at.state->Directory_0@,
            None => default,
        },
        label: clean_label(opt_text(raw.label)),
    }
}

/// The first fault among some tasks.
pub open spec fn tasks_fault(raw: Seq<BatchTask>, from: int) -> Option<Seq<Seq<char>>>
    decreases raw.len() - from,
{
    if from < 0 || from >= raw.len() {
        None
    } else if task_fault(raw[from], from) is Some {
        task_fault(raw[from], from)
    } else {
        tasks_fault(raw, from + 1)
    }
}

fn prepare_task(raw: &BatchTask, index: usize, default: &str) -> (r: Result<PreparedTask, Failure>)
    requires
        index < usize::MAX,
    ensures
        match r {
            Ok(t) => task_fault(*raw, index as int) is None && t@ == prepared(*raw, default@),
            Err(e) => task_fault(*raw, index as int) == Some(e@),
        },
{
    let task = trim(raw.task.as_str());
    let number = decimal_of((index + 1) as u64);
    if task.as_str().is_empty() {
        return Err(
            Failure::new("batch task ".to_owned().concat(number.as_str()).concat(" is empty")),
        );
    }
    let workspace = match &raw.workspace {
        Some(at) => match canonical_directory(at) {
            Ok(p) => p,
            Err(e) => {
                return Err(
                    e.under("invalid workspace for batch task ".to_owned().concat(number.as_str())),
                );
            },
        },
        None => default.to_owned(),
    };
    let mut label: Option<String> = None;
    if let Some(l) = &raw.label {
        let t = trim(l.as_str());
        if !t.as_str().is_empty() {
            label = Some(t);
        }
    }
    Ok(PreparedTask { task, workspace, label })
}

/// The tasks of a request can be handed to workers.
pub open spec fn tasks_prepared(raw: Seq<BatchTask>, default: Seq<char>, r: Seq<PreparedTask>) -> bool {
    &&& r.len() == raw.len()
    &&& forall|i: int| 0 <= i < r.len() ==> (#[trigger] r[i])@ == prepared(raw[i], default)
}

/// Prepares the tasks of a batch, at most `max`. `default` is the workspace of a task
/// that names none.
pub fn prepare_batch(raw: &Vec<BatchTask>, default: &str, max: usize) -> (r: Result<
    Vec<PreparedTask>,
    Failure,
>)
    ensures
        match r {
            Ok(v) => {
                &&& count_fault(raw@.len() as usize, max) is None
                &&& tasks_fault(raw@, 0) is None
                &&& tasks_prepared(raw@, default@, v@)
            },
            Err(e) => if count_fault(raw@.len() as usize, max) is Some {
                e@ == seq![count_fault(raw@.len() as usize, max)->0]
            } else {
                tasks_fault(raw@, 0) == Some(e@)
            },
        },
{
    if let Err(e) = validate_parallel_count(raw.len(), max) {
        return Err(Failure::new(e));
    }
    let mut out: Vec<PreparedTask> = Vec::new();
    let mut i: usize = 0;
    while i < raw.len()
        invariant
            i <= raw@.len(),
            out@.len() == i,
            count_fault(raw@.len() as usize, max) is None,
            tasks_fault(raw@, 0) == tasks_fault(raw@, i as int),
            forall|j: int| 0 <= j < i ==> (#[trigger] out@[j])@ == prepared(raw@[j], default@),
        decreases raw@.len() - i,
    {
        match prepare_task(&raw[i], i, default) {
            Ok(t) => out.push(t),
            Err(e) => {
                return Err(e);
            },
        }
        i += 1;
    }
    Ok(out)
}

/// Why words behind the command do not go with the rest of the request.
pub open spec fn words_fault(o: DelegateOptions) -> Option<Seq<char>> {
    if o.batch_stdin && o.task@.len() > 0 {
        Some(WORDS_AND_BATCH@)
    } else if o.stdin && o.task@.len() > 0 {
        Some(WORDS_AND_STDIN@)
    } else {
        None
    }
}

/// Checks whether the words behind the command go with the rest of the request.
pub fn check_words(o: &DelegateOptions) -> (r: Result<(), String>)
    ensures
        match r {
            Ok(_) => words_fault(*o) is None,
            Err(e) => words_fault(*o) == Some(e@),
        },
{
    if o.batch_stdin && o.task.len() > 0 {
        return Err(WORDS_AND_BATCH.to_owned());
    }
    if o.stdin && o.task.len() > 0 {
        return Err(WORDS_AND_STDIN.to_owned());
    }
    Ok(())
}

/// The tasks of a request. `read` is what was read where the task is read, `batch` the
/// manifest of a batch or why it cannot be read, `workspace` what the search for the
/// workspace found.
pub fn prepare_tasks(
    o: &DelegateOptions,
    workspace: &Result<String, Failure>,
    read: &str,
    batch: &Result<Vec<BatchTask>, Failure>,
    max: usize,
) -> (r: Result<Vec<PreparedTask>, Failure>)
    ensures
        match r {
            Ok(v) => {
                &&& words_fault(*o) is None
                &&& *workspace is Ok
                &&& if o.batch_stdin {
                    &&& *batch is Ok
                    &&& count_fault(batch->Ok_0@.len() as usize, max) is None
                    &&& tasks_fault(batch->Ok_0@, 0) is None
                    &&& tasks_prepared(batch->Ok_0@, workspace->Ok_0@, v@)
                } else {
                    &&& max >= 1
                    &&& v@.len() == 1
                    &&& v@[0].task@ == trimmed(request_text(*o, read@))
                    &&& v@[0].task@.len() > 0
                    &&& v@[0].workspace@ == workspace->Ok_0@
                    &&& opt_text(v@[0].label) == clean_label(opt_text(o.label))
                }
            },
            Err(e) => if words_fault(*o) is Some {
                e@ == seq![words_fault(*o)->0]
            } else if *workspace is Err {
                e@ == workspace->Err_0@
            } else if o.batch_stdin {
                if *batch is Err {
                    e@ == batch->Err_0@
                } else if count_fault(batch->Ok_0@.len() as usize, max) is Some {
                    e@ == seq![count_fault(batch->Ok_0@.len() as usize, max)->0]
                } else {
                    tasks_fault(batch->Ok_0@, 0) == Some(e@)
                }
            } else if count_fault(1, max) is Some {
                e@ == seq![count_fault(1, max)->0]
            } else {
                trimmed(request_text(*o, read@)).len() == 0 && e@ == seq![
                    "batch task "@ + decimal(1) + " is empty"@,
                ]
            },
        },
{
    if let Err(e) = check_words(o) {
        return Err(Failure::new(e));
    }
    let default = match workspace {
        Ok(w) => w.clone(),
        Err(e) => {
            return Err(e.copy());
        },
    };
    if o.batch_stdin {
        return match batch {
            Ok(raw) => prepare_batch(raw, default.as_str(), max),
            Err(e) => Err(e.copy()),
        };
    }
    let mut raw: Vec<BatchTask> = Vec::new();
    raw.push(
        BatchTask {
            task: text_of_request(o, read),
            workspace: None,
            label: copy_opt(&o.label),
        },
    );
    let r = prepare_batch(&raw, default.as_str(), max);
    proof {
        reveal_with_fuel(tasks_fault, 2);
        assert(raw@.len() == 1);
        if r is Ok {
            let v = r->Ok_0;
            assert(v@[0]@ == prepared(raw@[0], default@));
        }
    }
    r
}

/// Why no port can be had from the URL of a bridge.
pub open spec fn port_outcome(url: Seq<char>) -> Result<u16, Seq<Seq<char>>> {
    match parsed_url(url) {
        Err(cause) => Err(seq!["invalid bridge URL: "@ + url, cause]),
        Ok(parts) => match parts.port {
            None => Err(seq!["bridge URL has no resolvable port: "@ + url]),
            Some(port) => Ok(
                if port == 80 || port == 443 {
                    18800
                } else {
                    port
                },
            ),
        },
    }
}

/// The port that names the scopes of a bridge: that of its URL, or the usual one where
/// the URL has the usual port of the web.
pub fn bridge_port(base_url: &str) -> (r: Result<u16, Failure>)
    ensures
        match r {
            Ok(p) => port_outcome(base_url@) == Ok::<u16, Seq<Seq<char>>>(p),
            Err(e) => port_outcome(base_url@) == Err::<u16, Seq<Seq<char>>>(e@),
        },
{
    match url_parts(base_url) {
        Err(cause) => Err(
            Failure::caused("invalid bridge URL: ".to_owned().concat(base_url), cause.as_str()),
        ),
        Ok(parts) => scope_port(parts.port, base_url),
    }
}

/// The port that names the scopes of a bridge, from the port of its URL.
pub fn scope_port(port: Option<u16>, base_url: &str) -> (r: Result<u16, Failure>)
    ensures
        match r {
            Ok(p) => port is Some && p == (if port->0 == 80 || port->0 == 443 {
                18800
            } else {
                port->0
            }),
            Err(e) => port is None && e@ == seq![
                "bridge URL has no resolvable port: "@ + base_url@,
            ],
        },
{
    match port {
        None => Err(
            Failure::new("bridge URL has no resolvable port: ".to_owned().concat(base_url)),
        ),
        Some(p) => Ok(
            if p == 80 || p == 443 {
                18800
            } else {
                p
            },
        ),
    }
}

/// Why what answers at a URL is no bridge that can take delegations; `shown` is its
/// answer in full.
pub open spec fn health_fault(answer: JsonModel, base_url: Seq<char>, shown: Seq<char>) -> Option<Seq<char>> {
    if text_of(answer.field("service"@)) != Some("gpt2omo"@) {
        Some("unexpected service at "@ + base_url + ": "@ + shown)
    } else if text_of(answer.field("workspace_mode"@)) != Some("multiplexed_scopes"@) {
        Some(
            "gpt2omo at "@ + base_url
                + " does not support multiplexed workspace scopes; rebuild/restart the v0.6+ daemon before delegating"@,
        )
    } else {
        None
    }
}

fn field_says(value: &Json, key: &str, expected: &str) -> (r: bool)
    ensures
        r == (text_of(value.model().field(key@)) == Some(expected@)),
{
    match value.text_field(key) {
        Some(s) => same_text(s.as_str(), expected),
        None => false,
    }
}

/// Whether what answers at a URL is a bridge that can take delegations.
pub fn validate_bridge_health(value: &Json, base_url: &str, shown: &str) -> (r: Result<(), String>)
    ensures
        match r {
            Ok(_) => health_fault(value.model(), base_url@, shown@) is None,
            Err(e) => health_fault(value.model(), base_url@, shown@) == Some(e@),
        },
{
    if !field_says(value, "service", "gpt2omo") {
        return Err(
            "unexpected service at ".to_owned().concat(base_url).concat(": ").concat(shown),
        );
    }
    if !field_says(value, "workspace_mode", "multiplexed_scopes") {
        return Err(
            "gpt2omo at ".to_owned().concat(base_url).concat(
                " does not support multiplexed workspace scopes; rebuild/restart the v0.6+ daemon before delegating",
            ),
        );
    }
    Ok(())
}

} // verus!
