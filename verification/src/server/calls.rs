//! What a tool call asks for.
use crate::json::{array_of, bool_of, field_models, models, put, text_of, u64_of, Json, JsonField,
    JsonModel};
use crate::server::arguments::{carried, gives, is_request_of,
    lemma_advertised_arguments_are_carried, lemma_tools_are_told_apart};
use crate::text::{no_texts, opt_text, push_text, same_text, texts};
use vstd::prelude::*;

verus! {

/// The questions that a language server is asked.
#[derive(Clone, Copy, Debug, PartialEq, Eq, Structural)]
pub enum LspOperation {
    Diagnostics,
    Definition,
    References,
    Symbols,
}

/// What a tool call asks for.
#[allow(inconsistent_fields)]
#[derive(Debug)]
pub enum ToolRequest {
    ReadFile {
        path: String,
        start_line: Option<u64>,
        max_lines: Option<u64>,
        max_file_bytes: usize,
    },
    ListFiles { path: Option<String>, max_depth: Option<u64>, limit: Option<u64> },
    SearchText {
        query: String,
        path: Option<String>,
        case_sensitive: Option<bool>,
        max_results: Option<u64>,
    },
    AstGrep {
        pattern: String,
        path: Option<String>,
        language: Option<String>,
        max_results: Option<u64>,
    },
    Lsp {
        operation: LspOperation,
        path: String,
        line: Option<u64>,
        character: Option<u64>,
        timeout_ms: Option<u64>,
    },
    PatchFile { path: String, expected_sha256: Option<String>, content: String },
    RunCommand { command: String, timeout_ms: u64, client_request_id: Option<String> },
    PollCommand { command_id: String, wait_timeout_ms: Option<u64> },
    ListCommands,
    CancelCommand { command_id: String },
    GitStatus,
    TaskPlan { goal: String, items: Vec<String> },
    TaskUpdate { item_id: String, status: String, note: Option<String> },
    /// Finished commands are taken into account before the state is shown.
    TaskState,
    CompletionCheck {
        require_task_plan: Option<bool>,
        require_verification: Option<bool>,
        require_changes: Option<bool>,
    },
    /// The call cannot be made, for this reason.
    Refused(String),
}

/// The mathematical value of a [`ToolRequest`].
#[allow(inconsistent_fields)]
pub enum RequestModel {
    ReadFile {
        path: Seq<char>,
        start_line: Option<u64>,
        max_lines: Option<u64>,
        max_file_bytes: usize,
    },
    ListFiles { path: Option<Seq<char>>, max_depth: Option<u64>, limit: Option<u64> },
    SearchText {
        query: Seq<char>,
        path: Option<Seq<char>>,
        case_sensitive: Option<bool>,
        max_results: Option<u64>,
    },
    AstGrep {
        pattern: Seq<char>,
        path: Option<Seq<char>>,
        language: Option<Seq<char>>,
        max_results: Option<u64>,
    },
    Lsp {
        operation: LspOperation,
        path: Seq<char>,
        line: Option<u64>,
        character: Option<u64>,
        timeout_ms: Option<u64>,
    },
    PatchFile { path: Seq<char>, expected_sha256: Option<Seq<char>>, content: Seq<char> },
    RunCommand { command: Seq<char>, timeout_ms: u64, client_request_id: Option<Seq<char>> },
    PollCommand { command_id: Seq<char>, wait_timeout_ms: Option<u64> },
    ListCommands,
    CancelCommand { command_id: Seq<char> },
    GitStatus,
    TaskPlan { goal: Seq<char>, items: Seq<Seq<char>> },
    TaskUpdate { item_id: Seq<char>, status: Seq<char>, note: Option<Seq<char>> },
    TaskState,
    CompletionCheck {
        require_task_plan: Option<bool>,
        require_verification: Option<bool>,
        require_changes: Option<bool>,
    },
    Refused(Seq<char>),
}

impl View for ToolRequest {
    type V = RequestModel;

    open spec fn view(&self) -> RequestModel {
        match *self {
            ToolRequest::ReadFile { path, start_line, max_lines, max_file_bytes } => {
                RequestModel::ReadFile { path: path@, start_line, max_lines, max_file_bytes }
            },
            ToolRequest::ListFiles { path, max_depth, limit } => RequestModel::ListFiles {
                path: opt_text(path),
                max_depth,
                limit,
            },
            ToolRequest::SearchText { query, path, case_sensitive, max_results } => {
                RequestModel::SearchText {
                    query: query@,
                    path: opt_text(path),
                    case_sensitive,
                    max_results,
                }
            },
            ToolRequest::AstGrep { pattern, path, language, max_results } => RequestModel::AstGrep {
                pattern: pattern@,
                path: opt_text(path),
                language: opt_text(language),
                max_results,
            },
            ToolRequest::Lsp { operation, path, line, character, timeout_ms } => RequestModel::Lsp {
                operation,
                path: path@,
                line,
                character,
                timeout_ms,
            },
            ToolRequest::PatchFile { path, expected_sha256, content } => RequestModel::PatchFile {
                path: path@,
                expected_sha256: opt_text(expected_sha256),
                content: content@,
            },
            ToolRequest::RunCommand { command, timeout_ms, client_request_id } => {
                RequestModel::RunCommand {
                    command: command@,
                    timeout_ms,
                    client_request_id: opt_text(client_request_id),
                }
            },
            ToolRequest::PollCommand { command_id, wait_timeout_ms } => RequestModel::PollCommand {
                command_id: command_id@,
                wait_timeout_ms,
            },
            ToolRequest::ListCommands => RequestModel::ListCommands,
            ToolRequest::CancelCommand { command_id } => RequestModel::CancelCommand {
                command_id: command_id@,
            },
            ToolRequest::GitStatus => RequestModel::GitStatus,
            ToolRequest::TaskPlan { goal, items } => RequestModel::TaskPlan {
                goal: goal@,
                items: texts(items@),
            },
            ToolRequest::TaskUpdate { item_id, status, note } => RequestModel::TaskUpdate {
                item_id: item_id@,
                status: status@,
                note: opt_text(note),
            },
            ToolRequest::TaskState => RequestModel::TaskState,
            ToolRequest::CompletionCheck {
                require_task_plan,
                require_verification,
                require_changes,
            } => RequestModel::CompletionCheck {
                require_task_plan,
                require_verification,
                require_changes,
            },
            ToolRequest::Refused(m) => RequestModel::Refused(m@),
        }
    }
}

/// The text argument of a call, empty where there is none.
pub open spec fn text_arg(args: JsonModel, key: Seq<char>) -> Seq<char> {
    match text_of(args.field(key)) {
        Some(s) => s,
        None => ""@,
    }
}

fn text_argument(args: &Json, key: &str) -> (r: String)
    ensures
        r@ == text_arg(args.model(), key@),
{
    match args.text_field(key) {
        Some(s) => s,
        None => "".to_owned(),
    }
}

/// How long a command may run: as long as the call asks for, at least one millisecond
/// and at most as long as the bridge lets commands run.
pub open spec fn command_timeout(asked: Option<u64>, limit: u64) -> u64 {
    let most = if limit < 1 {
        1
    } else {
        limit
    };
    let wanted = match asked {
        Some(n) => n,
        None => limit,
    };
    if wanted < 1 {
        1
    } else if wanted > most {
        most
    } else {
        wanted
    }
}

fn clamp_timeout(asked: Option<u64>, limit: u64) -> (r: u64)
    ensures
        r == command_timeout(asked, limit),
{
    let most: u64 = if limit < 1 {
        1
    } else {
        limit
    };
    let wanted: u64 = match asked {
        Some(n) => n,
        None => limit,
    };
    if wanted < 1 {
        1
    } else if wanted > most {
        most
    } else {
        wanted
    }
}

/// Every value is a text.
pub open spec fn all_texts(v: Seq<JsonModel>) -> bool {
    forall|i: int| 0 <= i < v.len() ==> #[trigger] v[i] is Text
}

pub open spec fn texts_in(v: Seq<JsonModel>) -> Seq<Seq<char>> {
    v.map_values(|m: JsonModel| m->Text_0)
}

/// A plan is asked for.
pub open spec fn plan_request(args: JsonModel) -> RequestModel {
    match array_of(args.field("items"@)) {
        None => RequestModel::Refused("items must be an array of strings"@),
        Some(v) => if all_texts(v) {
            RequestModel::TaskPlan { goal: text_arg(args, "goal"@), items: texts_in(v) }
        } else {
            RequestModel::Refused("items must contain only strings"@)
        },
    }
}

/// A position in a file is asked about.
pub open spec fn position_request(args: JsonModel, operation: LspOperation) -> RequestModel {
    RequestModel::Lsp {
        operation,
        path: text_arg(args, "path"@),
        line: u64_of(args.field("line"@)),
        character: u64_of(args.field("character"@)),
        timeout_ms: u64_of(args.field("timeout_ms"@)),
    }
}

/// A whole file is asked about.
pub open spec fn file_request(args: JsonModel, operation: LspOperation) -> RequestModel {
    RequestModel::Lsp {
        operation,
        path: text_arg(args, "path"@),
        line: None,
        character: None,
        timeout_ms: u64_of(args.field("timeout_ms"@)),
    }
}

/// What a call of a tool asks for.
pub open spec fn tool_request(
    max_file_bytes: usize,
    command_timeout_ms: u64,
    name: Seq<char>,
    args: JsonModel,
) -> RequestModel {
    if name == "read_file"@ {
        RequestModel::ReadFile {
            path: text_arg(args, "path"@),
            start_line: u64_of(args.field("start_line"@)),
            max_lines: u64_of(args.field("max_lines"@)),
            max_file_bytes,
        }
    } else if name == "list_files"@ {
        RequestModel::ListFiles {
            path: text_of(args.field("path"@)),
            max_depth: u64_of(args.field("max_depth"@)),
            limit: u64_of(args.field("limit"@)),
        }
    } else if name == "search_text"@ {
        RequestModel::SearchText {
            query: text_arg(args, "query"@),
            path: text_of(args.field("path"@)),
            case_sensitive: bool_of(args.field("case_sensitive"@)),
            max_results: u64_of(args.field("max_results"@)),
        }
    } else if name == "ast_grep"@ {
        RequestModel::AstGrep {
            pattern: text_arg(args, "pattern"@),
            path: text_of(args.field("path"@)),
            language: text_of(args.field("language"@)),
            max_results: u64_of(args.field("max_results"@)),
        }
    } else if name == "lsp_diagnostics"@ {
        file_request(args, LspOperation::Diagnostics)
    } else if name == "lsp_definition"@ {
        position_request(args, LspOperation::Definition)
    } else if name == "lsp_references"@ {
        position_request(args, LspOperation::References)
    } else if name == "lsp_symbols"@ {
        file_request(args, LspOperation::Symbols)
    } else if name == "patch_file"@ {
        RequestModel::PatchFile {
            path: text_arg(args, "path"@),
            expected_sha256: text_of(args.field("expected_sha256"@)),
            content: text_arg(args, "content"@),
        }
    } else if name == "run_command"@ {
        RequestModel::RunCommand {
            command: text_arg(args, "command"@),
            timeout_ms: command_timeout(u64_of(args.field("timeout_ms"@)), command_timeout_ms),
            client_request_id: text_of(args.field("client_request_id"@)),
        }
    } else if name == "poll_command"@ {
        RequestModel::PollCommand {
            command_id: text_arg(args, "command_id"@),
            wait_timeout_ms: u64_of(args.field("wait_timeout_ms"@)),
        }
    } else if name == "list_commands"@ {
        RequestModel::ListCommands
    } else if name == "cancel_command"@ {
        RequestModel::CancelCommand { command_id: text_arg(args, "command_id"@) }
    } else if name == "git_status_diff"@ {
        RequestModel::GitStatus
    } else if name == "task_plan"@ {
        plan_request(args)
    } else if name == "task_update"@ {
        RequestModel::TaskUpdate {
            item_id: text_arg(args, "item_id"@),
            status: text_arg(args, "status"@),
            note: text_of(args.field("note"@)),
        }
    } else if name == "task_state"@ {
        RequestModel::TaskState
    } else if name == "completion_check"@ {
        RequestModel::CompletionCheck {
            require_task_plan: bool_of(args.field("require_task_plan"@)),
            require_verification: bool_of(args.field("require_verification"@)),
            require_changes: bool_of(args.field("require_changes"@)),
        }
    } else {
        RequestModel::Refused("Unknown tool: "@ + name)
    }
}

fn request_of_plan(args: &Json) -> (r: ToolRequest)
    ensures
        r@ == plan_request(args.model()),
{
    let list = match args.get("items") {
        Some(Json::Array(v)) => v,
        _ => {
            return ToolRequest::Refused("items must be an array of strings".to_owned());
        },
    };
    let ghost all = models(list@);
    assert(array_of(args.model().field("items"@)) == Some(all));
    let mut items = no_texts();
    let mut i: usize = 0;
    while i < list.len()
        invariant
            i <= list@.len(),
            all == models(list@),
            array_of(args.model().field("items"@)) == Some(all),
            texts(items@) =~= texts_in(all.subrange(0, i as int)),
            forall|j: int| 0 <= j < i ==> #[trigger] all[j] is Text,
        decreases list@.len() - i,
    {
        assert(all[i as int] == list@[i as int].model());
        match &list[i] {
            Json::Text(s) => {
                push_text(&mut items, s.as_str());
                assert(texts_in(all.subrange(0, i + 1)) =~= texts_in(
                    all.subrange(0, i as int),
                ).push(all[i as int]->Text_0));
            },
            _ => {
                assert(!(all[i as int] is Text));
                return ToolRequest::Refused("items must contain only strings".to_owned());
            },
        }
        i += 1;
    }
    assert(all.subrange(0, all.len() as int) =~= all);
    ToolRequest::TaskPlan { goal: text_argument(args, "goal"), items }
}

fn request_of_position(args: &Json, operation: LspOperation) -> (r: ToolRequest)
    ensures
        r@ == position_request(args.model(), operation),
{
    ToolRequest::Lsp {
        operation,
        path: text_argument(args, "path"),
        line: args.u64_field("line"),
        character: args.u64_field("character"),
        timeout_ms: args.u64_field("timeout_ms"),
    }
}

fn request_of_file(args: &Json, operation: LspOperation) -> (r: ToolRequest)
    ensures
        r@ == file_request(args.model(), operation),
{
    ToolRequest::Lsp {
        operation,
        path: text_argument(args, "path"),
        line: None,
        character: None,
        timeout_ms: args.u64_field("timeout_ms"),
    }
}

/// What a call of a tool asks for.
pub fn dispatch_tool(max_file_bytes: usize, command_timeout_ms: u64, name: &str, args: &Json) -> (r:
    ToolRequest)
    ensures
        r@ == tool_request(max_file_bytes, command_timeout_ms, name@, args.model()),
        is_request_of(name@, max_file_bytes, r@),
        forall|i: int, key: Seq<char>, value: JsonModel| #[trigger]
            gives(command_timeout_ms, i, name@, args.model(), key, value) ==> carried(r@, key)
                == Some(value),
{
    proof {
        lemma_tools_are_told_apart(max_file_bytes, command_timeout_ms, name@, args.model());
        assert forall|i: int, key: Seq<char>, value: JsonModel| #[trigger]
            gives(command_timeout_ms, i, name@, args.model(), key, value) implies carried(
            tool_request(max_file_bytes, command_timeout_ms, name@, args.model()),
            key,
        ) == Some(value) by {
            lemma_advertised_arguments_are_carried(
                max_file_bytes,
                command_timeout_ms,
                i,
                name@,
                args.model(),
                key,
                value,
            );
        }
    }
    if same_text(name, "read_file") {
        ToolRequest::ReadFile {
            path: text_argument(args, "path"),
            start_line: args.u64_field("start_line"),
            max_lines: args.u64_field("max_lines"),
            max_file_bytes,
        }
    } else if same_text(name, "list_files") {
        ToolRequest::ListFiles {
            path: args.text_field("path"),
            max_depth: args.u64_field("max_depth"),
            limit: args.u64_field("limit"),
        }
    } else if same_text(name, "search_text") {
        ToolRequest::SearchText {
            query: text_argument(args, "query"),
            path: args.text_field("path"),
            case_sensitive: args.bool_field("case_sensitive"),
            max_results: args.u64_field("max_results"),
        }
    } else if same_text(name, "ast_grep") {
        ToolRequest::AstGrep {
            pattern: text_argument(args, "pattern"),
            path: args.text_field("path"),
            language: args.text_field("language"),
            max_results: args.u64_field("max_results"),
        }
    } else if same_text(name, "lsp_diagnostics") {
        request_of_file(args, LspOperation::Diagnostics)
    } else if same_text(name, "lsp_definition") {
        request_of_position(args, LspOperation::Definition)
    } else if same_text(name, "lsp_references") {
        request_of_position(args, LspOperation::References)
    } else if same_text(name, "lsp_symbols") {
        request_of_file(args, LspOperation::Symbols)
    } else if same_text(name, "patch_file") {
        ToolRequest::PatchFile {
            path: text_argument(args, "path"),
            expected_sha256: args.text_field("expected_sha256"),
            content: text_argument(args, "content"),
        }
    } else if same_text(name, "run_command") {
        ToolRequest::RunCommand {
            command: text_argument(args, "command"),
            timeout_ms: clamp_timeout(args.u64_field("timeout_ms"), command_timeout_ms),
            client_request_id: args.text_field("client_request_id"),
        }
    } else if same_text(name, "poll_command") {
        ToolRequest::PollCommand {
            command_id: text_argument(args, "command_id"),
            wait_timeout_ms: args.u64_field("wait_timeout_ms"),
        }
    } else if same_text(name, "list_commands") {
        ToolRequest::ListCommands
    } else if same_text(name, "cancel_command") {
        ToolRequest::CancelCommand { command_id: text_argument(args, "command_id") }
    } else if same_text(name, "git_status_diff") {
        ToolRequest::GitStatus
    } else if same_text(name, "task_plan") {
        request_of_plan(args)
    } else if same_text(name, "task_update") {
        ToolRequest::TaskUpdate {
            item_id: text_argument(args, "item_id"),
            status: text_argument(args, "status"),
            note: args.text_field("note"),
        }
    } else if same_text(name, "task_state") {
        ToolRequest::TaskState
    } else if same_text(name, "completion_check") {
        ToolRequest::CompletionCheck {
            require_task_plan: args.bool_field("require_task_plan"),
            require_verification: args.bool_field("require_verification"),
            require_changes: args.bool_field("require_changes"),
        }
    } else {
        ToolRequest::Refused("Unknown tool: ".to_owned().concat(name))
    }
}

/// A command never runs longer than the bridge lets commands run, unless that is no time
/// at all.
pub proof fn lemma_timeout_is_bounded(asked: Option<u64>, limit: u64)
    ensures
        1 <= command_timeout(asked, limit),
        limit >= 1 ==> command_timeout(asked, limit) <= limit,
        limit == 0 ==> command_timeout(asked, limit) == 1,
{
}

/// The fields with one set: in its place where it is there, else behind the others.
pub open spec fn with_field(
    fields: Seq<(Seq<char>, JsonModel)>,
    key: Seq<char>,
    value: JsonModel,
) -> Seq<(Seq<char>, JsonModel)>
    decreases fields.len(),
{
    if fields.len() == 0 {
        seq![(key, value)]
    } else if fields[0].0 == key {
        seq![(key, value)] + fields.drop_first()
    } else {
        seq![fields[0]] + with_field(fields.drop_first(), key, value)
    }
}

fn set_field(fields: &mut Vec<JsonField>, from: usize, key: &str, value: Json)
    requires
        from <= old(fields)@.len(),
    ensures
        field_models(final(fields)@) == field_models(old(fields)@).subrange(0, from as int)
            + with_field(
            field_models(old(fields)@).subrange(from as int, old(fields)@.len() as int),
            key@,
            value.model(),
        ),
    decreases old(fields)@.len() - from,
{
    let ghost before = fields@;
    let ghost all = field_models(fields@);
    let ghost m = value.model();
    let ghost rest = all.subrange(from as int, all.len() as int);
    if from == fields.len() {
        put(fields, key, value);
        assert(field_models(fields@) =~= all.subrange(0, from as int) + with_field(rest, key@, m));
        return;
    }
    assert(rest[0] == (before[from as int].key@, before[from as int].value.model()));
    if same_text(fields[from].key.as_str(), key) {
        fields.set(from, JsonField { key: key.to_owned(), value });
        assert(field_models(fields@) =~= all.subrange(0, from as int) + with_field(rest, key@, m));
        return;
    }
    set_field(fields, from + 1, key, value);
    assert(rest.drop_first() =~= all.subrange(from + 1, all.len() as int));
    assert(all.subrange(0, from + 1) =~= all.subrange(0, from as int) + seq![rest[0]]);
    assert(field_models(fields@) =~= all.subrange(0, from as int) + with_field(rest, key@, m));
}

/// The data of a patch that worked, with the revision of the workspace that it made.
pub fn patched_data(data: Option<Json>, revision: u64) -> (r: Option<Json>)
    ensures
        match data {
            Some(Json::Object(f)) => {
                &&& r is Some
                &&& r->0.model() == JsonModel::Object(
                    with_field(
                        field_models(f@),
                        "workspace_revision"@,
                        JsonModel::Unsigned(revision),
                    ),
                )
            },
            _ => r == data,
        },
{
    match data {
        Some(Json::Object(f)) => {
            let mut fields = f;
            let ghost all = field_models(fields@);
            set_field(&mut fields, 0, "workspace_revision", Json::Unsigned(revision));
            proof {
                assert(all.subrange(0, all.len() as int) =~= all);
                assert(all.subrange(0, 0) =~= Seq::empty());
                let w = with_field(all, "workspace_revision"@, JsonModel::Unsigned(revision));
                assert(Seq::<(Seq<char>, JsonModel)>::empty() + w =~= w);
            }
            Some(Json::Object(fields))
        },
        other => other,
    }
}

} // verus!
