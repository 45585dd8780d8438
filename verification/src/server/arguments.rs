//! What becomes of the arguments of a tool call: every argument that a tool advertises is handed on,
//! and nothing else is.
use crate::json::{array_of, field_of, lemma_first_field_is_held, lemma_held_value_is_read,
    lemma_read_value_is_held, object_holds, text_of, texts_model, JsonModel};
use crate::server::calls::{all_texts, texts_in, tool_request, RequestModel};
use crate::server::tools::{ABOUT_AST_GREP, ABOUT_CANCEL_COMMAND, ABOUT_COMPLETION_CHECK,
    ABOUT_GIT_STATUS_DIFF, ABOUT_LIST_COMMANDS, ABOUT_LIST_FILES, ABOUT_LSP_DEFINITION,
    ABOUT_LSP_DIAGNOSTICS, ABOUT_LSP_REFERENCES, ABOUT_LSP_SYMBOLS, ABOUT_PATCH_FILE,
    ABOUT_POLL_COMMAND, ABOUT_QUERY_SUBAGENT, ABOUT_READ_FILE, ABOUT_RUN_COMMAND, ABOUT_SCOPE_ID,
    ABOUT_SEARCH_TEXT, ABOUT_TASK_PLAN, ABOUT_TASK_STATE, ABOUT_TASK_UPDATE, all_tools,
    ast_grep_tool, boolean_schema, cancel_command_tool, completion_check_tool,
    git_status_diff_tool, integer_schema, items_schema, list_commands_tool, list_files_tool,
    lsp_definition_tool, lsp_diagnostics_tool, lsp_references_tool, lsp_symbols_tool,
    patch_file_tool, poll_command_tool, query_subagent_tool, read_file_tool, run_command_tool,
    search_text_tool, status_schema, string_schema, task_plan_tool, task_state_tool,
    task_update_tool, tool_json};
use vstd::prelude::*;

verus! {

pub open spec fn maybe_text_value(o: Option<Seq<char>>) -> Option<JsonModel> {
    match o {
        Some(t) => Some(JsonModel::Text(t)),
        None => None,
    }
}

pub open spec fn maybe_number(o: Option<u64>) -> Option<JsonModel> {
    match o {
        Some(n) => Some(JsonModel::Unsigned(n)),
        None => None,
    }
}

pub open spec fn maybe_flag(o: Option<bool>) -> Option<JsonModel> {
    match o {
        Some(b) => Some(JsonModel::Bool(b)),
        None => None,
    }
}

/// The value that a request carries for an argument, where it carries one.
pub open spec fn carried(r: RequestModel, key: Seq<char>) -> Option<JsonModel> {
    match r {
        RequestModel::ReadFile { path, start_line, max_lines, .. } => if key == "path"@ {
            Some(JsonModel::Text(path))
        } else if key == "start_line"@ {
            maybe_number(start_line)
        } else if key == "max_lines"@ {
            maybe_number(max_lines)
        } else {
            None
        },
        RequestModel::PatchFile { path, expected_sha256, content } => if key == "path"@ {
            Some(JsonModel::Text(path))
        } else if key == "expected_sha256"@ {
            maybe_text_value(expected_sha256)
        } else if key == "content"@ {
            Some(JsonModel::Text(content))
        } else {
            None
        },
        RequestModel::ListFiles { path, max_depth, limit } => if key == "path"@ {
            maybe_text_value(path)
        } else if key == "max_depth"@ {
            maybe_number(max_depth)
        } else if key == "limit"@ {
            maybe_number(limit)
        } else {
            None
        },
        RequestModel::SearchText { query, path, case_sensitive, max_results } => if key == "query"@ {
            Some(JsonModel::Text(query))
        } else if key == "path"@ {
            maybe_text_value(path)
        } else if key == "case_sensitive"@ {
            maybe_flag(case_sensitive)
        } else if key == "max_results"@ {
            maybe_number(max_results)
        } else {
            None
        },
        RequestModel::AstGrep { pattern, path, language, max_results } => if key == "pattern"@ {
            Some(JsonModel::Text(pattern))
        } else if key == "path"@ {
            maybe_text_value(path)
        } else if key == "language"@ {
            maybe_text_value(language)
        } else if key == "max_results"@ {
            maybe_number(max_results)
        } else {
            None
        },
        RequestModel::Lsp { path, line, character, timeout_ms, .. } => if key == "path"@ {
            Some(JsonModel::Text(path))
        } else if key == "line"@ {
            maybe_number(line)
        } else if key == "character"@ {
            maybe_number(character)
        } else if key == "timeout_ms"@ {
            maybe_number(timeout_ms)
        } else {
            None
        },
        RequestModel::RunCommand { command, timeout_ms, client_request_id } => if key == "command"@ {
            Some(JsonModel::Text(command))
        } else if key == "timeout_ms"@ {
            Some(JsonModel::Unsigned(timeout_ms))
        } else if key == "client_request_id"@ {
            maybe_text_value(client_request_id)
        } else {
            None
        },
        RequestModel::PollCommand { command_id, wait_timeout_ms } => if key == "command_id"@ {
            Some(JsonModel::Text(command_id))
        } else if key == "wait_timeout_ms"@ {
            maybe_number(wait_timeout_ms)
        } else {
            None
        },
        RequestModel::CancelCommand { command_id } => if key == "command_id"@ {
            Some(JsonModel::Text(command_id))
        } else {
            None
        },
        RequestModel::TaskPlan { goal, items } => if key == "goal"@ {
            Some(JsonModel::Text(goal))
        } else if key == "items"@ {
            Some(texts_model(items))
        } else {
            None
        },
        RequestModel::TaskUpdate { item_id, status, note } => if key == "item_id"@ {
            Some(JsonModel::Text(item_id))
        } else if key == "status"@ {
            Some(JsonModel::Text(status))
        } else if key == "note"@ {
            maybe_text_value(note)
        } else {
            None
        },
        RequestModel::CompletionCheck { require_task_plan, require_verification, require_changes } => if key == "require_task_plan"@ {
            maybe_flag(require_task_plan)
        } else if key == "require_verification"@ {
            maybe_flag(require_verification)
        } else if key == "require_changes"@ {
            maybe_flag(require_changes)
        } else {
            None
        },
        _ => None,
    }
}

/// A value is of the type that a schema names.
pub open spec fn fits(schema: JsonModel, value: JsonModel) -> bool {
    let kind = text_of(schema.field("type"@));
    &&& kind == Some("string"@) ==> value is Text
    &&& kind == Some("integer"@) ==> value is Unsigned
    &&& kind == Some("boolean"@) ==> value is Bool
    &&& kind == Some("array"@) ==> value is Array && all_texts(value->Array_0)
}

/// The schema that a tool advertises for an argument.
pub open spec fn advertised(tool: JsonModel, key: Seq<char>) -> Option<JsonModel> {
    tool.field3("inputSchema"@, "properties"@, key)
}

/// The request is of the kind that the tool stands for.
pub open spec fn is_request_of(name: Seq<char>, max_file_bytes: usize, r: RequestModel) -> bool {
    &&& name == "read_file"@ ==> r is ReadFile && r->max_file_bytes == max_file_bytes
    &&& name == "patch_file"@ ==> r is PatchFile
    &&& name == "list_files"@ ==> r is ListFiles
    &&& name == "search_text"@ ==> r is SearchText
    &&& name == "ast_grep"@ ==> r is AstGrep
    &&& name == "lsp_diagnostics"@ ==> r is Lsp && r->operation is Diagnostics
    &&& name == "lsp_definition"@ ==> r is Lsp && r->operation is Definition
    &&& name == "lsp_references"@ ==> r is Lsp && r->operation is References
    &&& name == "lsp_symbols"@ ==> r is Lsp && r->operation is Symbols
    &&& name == "run_command"@ ==> r is RunCommand
    &&& name == "poll_command"@ ==> r is PollCommand
    &&& name == "list_commands"@ ==> r is ListCommands
    &&& name == "cancel_command"@ ==> r is CancelCommand
    &&& name == "git_status_diff"@ ==> r is GitStatus
    &&& name == "task_plan"@ ==> r is TaskPlan || r is Refused
    &&& name == "task_update"@ ==> r is TaskUpdate
    &&& name == "task_state"@ ==> r is TaskState
    &&& name == "completion_check"@ ==> r is CompletionCheck
}

proof fn lemma_tool_names()
    ensures
        "read_file"@ != "patch_file"@,
        "read_file"@ != "list_files"@,
        "read_file"@ != "search_text"@,
        "read_file"@ != "ast_grep"@,
        "read_file"@ != "lsp_diagnostics"@,
        "read_file"@ != "lsp_definition"@,
        "read_file"@ != "lsp_references"@,
        "read_file"@ != "lsp_symbols"@,
        "read_file"@ != "run_command"@,
        "read_file"@ != "poll_command"@,
        "read_file"@ != "list_commands"@,
        "read_file"@ != "cancel_command"@,
        "read_file"@ != "git_status_diff"@,
        "read_file"@ != "task_plan"@,
        "read_file"@ != "task_update"@,
        "read_file"@ != "task_state"@,
        "read_file"@ != "completion_check"@,
        "patch_file"@ != "list_files"@,
        "patch_file"@ != "search_text"@,
        "patch_file"@ != "ast_grep"@,
        "patch_file"@ != "lsp_diagnostics"@,
        "patch_file"@ != "lsp_definition"@,
        "patch_file"@ != "lsp_references"@,
        "patch_file"@ != "lsp_symbols"@,
        "patch_file"@ != "run_command"@,
        "patch_file"@ != "poll_command"@,
        "patch_file"@ != "list_commands"@,
        "patch_file"@ != "cancel_command"@,
        "patch_file"@ != "git_status_diff"@,
        "patch_file"@ != "task_plan"@,
        "patch_file"@ != "task_update"@,
        "patch_file"@ != "task_state"@,
        "patch_file"@ != "completion_check"@,
        "list_files"@ != "search_text"@,
        "list_files"@ != "ast_grep"@,
        "list_files"@ != "lsp_diagnostics"@,
        "list_files"@ != "lsp_definition"@,
        "list_files"@ != "lsp_references"@,
        "list_files"@ != "lsp_symbols"@,
        "list_files"@ != "run_command"@,
        "list_files"@ != "poll_command"@,
        "list_files"@ != "list_commands"@,
        "list_files"@ != "cancel_command"@,
        "list_files"@ != "git_status_diff"@,
        "list_files"@ != "task_plan"@,
        "list_files"@ != "task_update"@,
        "list_files"@ != "task_state"@,
        "list_files"@ != "completion_check"@,
        "search_text"@ != "ast_grep"@,
        "search_text"@ != "lsp_diagnostics"@,
        "search_text"@ != "lsp_definition"@,
        "search_text"@ != "lsp_references"@,
        "search_text"@ != "lsp_symbols"@,
        "search_text"@ != "run_command"@,
        "search_text"@ != "poll_command"@,
        "search_text"@ != "list_commands"@,
        "search_text"@ != "cancel_command"@,
        "search_text"@ != "git_status_diff"@,
        "search_text"@ != "task_plan"@,
        "search_text"@ != "task_update"@,
        "search_text"@ != "task_state"@,
        "search_text"@ != "completion_check"@,
        "ast_grep"@ != "lsp_diagnostics"@,
        "ast_grep"@ != "lsp_definition"@,
        "ast_grep"@ != "lsp_references"@,
        "ast_grep"@ != "lsp_symbols"@,
        "ast_grep"@ != "run_command"@,
        "ast_grep"@ != "poll_command"@,
        "ast_grep"@ != "list_commands"@,
        "ast_grep"@ != "cancel_command"@,
        "ast_grep"@ != "git_status_diff"@,
        "ast_grep"@ != "task_plan"@,
        "ast_grep"@ != "task_update"@,
        "ast_grep"@ != "task_state"@,
        "ast_grep"@ != "completion_check"@,
        "lsp_diagnostics"@ != "lsp_definition"@,
        "lsp_diagnostics"@ != "lsp_references"@,
        "lsp_diagnostics"@ != "lsp_symbols"@,
        "lsp_diagnostics"@ != "run_command"@,
        "lsp_diagnostics"@ != "poll_command"@,
        "lsp_diagnostics"@ != "list_commands"@,
        "lsp_diagnostics"@ != "cancel_command"@,
        "lsp_diagnostics"@ != "git_status_diff"@,
        "lsp_diagnostics"@ != "task_plan"@,
        "lsp_diagnostics"@ != "task_update"@,
        "lsp_diagnostics"@ != "task_state"@,
        "lsp_diagnostics"@ != "completion_check"@,
        "lsp_definition"@ != "lsp_references"@,
        "lsp_definition"@ != "lsp_symbols"@,
        "lsp_definition"@ != "run_command"@,
        "lsp_definition"@ != "poll_command"@,
        "lsp_definition"@ != "list_commands"@,
        "lsp_definition"@ != "cancel_command"@,
        "lsp_definition"@ != "git_status_diff"@,
        "lsp_definition"@ != "task_plan"@,
        "lsp_definition"@ != "task_update"@,
        "lsp_definition"@ != "task_state"@,
        "lsp_definition"@ != "completion_check"@,
        "lsp_references"@ != "lsp_symbols"@,
        "lsp_references"@ != "run_command"@,
        "lsp_references"@ != "poll_command"@,
        "lsp_references"@ != "list_commands"@,
        "lsp_references"@ != "cancel_command"@,
        "lsp_references"@ != "git_status_diff"@,
        "lsp_references"@ != "task_plan"@,
        "lsp_references"@ != "task_update"@,
        "lsp_references"@ != "task_state"@,
        "lsp_references"@ != "completion_check"@,
        "lsp_symbols"@ != "run_command"@,
        "lsp_symbols"@ != "poll_command"@,
        "lsp_symbols"@ != "list_commands"@,
        "lsp_symbols"@ != "cancel_command"@,
        "lsp_symbols"@ != "git_status_diff"@,
        "lsp_symbols"@ != "task_plan"@,
        "lsp_symbols"@ != "task_update"@,
        "lsp_symbols"@ != "task_state"@,
        "lsp_symbols"@ != "completion_check"@,
        "run_command"@ != "poll_command"@,
        "run_command"@ != "list_commands"@,
        "run_command"@ != "cancel_command"@,
        "run_command"@ != "git_status_diff"@,
        "run_command"@ != "task_plan"@,
        "run_command"@ != "task_update"@,
        "run_command"@ != "task_state"@,
        "run_command"@ != "completion_check"@,
        "poll_command"@ != "list_commands"@,
        "poll_command"@ != "cancel_command"@,
        "poll_command"@ != "git_status_diff"@,
        "poll_command"@ != "task_plan"@,
        "poll_command"@ != "task_update"@,
        "poll_command"@ != "task_state"@,
        "poll_command"@ != "completion_check"@,
        "list_commands"@ != "cancel_command"@,
        "list_commands"@ != "git_status_diff"@,
        "list_commands"@ != "task_plan"@,
        "list_commands"@ != "task_update"@,
        "list_commands"@ != "task_state"@,
        "list_commands"@ != "completion_check"@,
        "cancel_command"@ != "git_status_diff"@,
        "cancel_command"@ != "task_plan"@,
        "cancel_command"@ != "task_update"@,
        "cancel_command"@ != "task_state"@,
        "cancel_command"@ != "completion_check"@,
        "git_status_diff"@ != "task_plan"@,
        "git_status_diff"@ != "task_update"@,
        "git_status_diff"@ != "task_state"@,
        "git_status_diff"@ != "completion_check"@,
        "task_plan"@ != "task_update"@,
        "task_plan"@ != "task_state"@,
        "task_plan"@ != "completion_check"@,
        "task_update"@ != "task_state"@,
        "task_update"@ != "completion_check"@,
        "task_state"@ != "completion_check"@,
{
    reveal_strlit("read_file");
    reveal_strlit("patch_file");
    reveal_strlit("list_files");
    reveal_strlit("search_text");
    reveal_strlit("ast_grep");
    reveal_strlit("lsp_diagnostics");
    reveal_strlit("lsp_definition");
    reveal_strlit("lsp_references");
    reveal_strlit("lsp_symbols");
    reveal_strlit("run_command");
    reveal_strlit("poll_command");
    reveal_strlit("list_commands");
    reveal_strlit("cancel_command");
    reveal_strlit("git_status_diff");
    reveal_strlit("task_plan");
    reveal_strlit("task_update");
    reveal_strlit("task_state");
    reveal_strlit("completion_check");
    assert("read_file"@.len() == 9);
    assert("patch_file"@.len() == 10);
    assert("list_files"@.len() == 10);
    assert("search_text"@.len() == 11);
    assert("ast_grep"@.len() == 8);
    assert("lsp_diagnostics"@.len() == 15);
    assert("lsp_definition"@.len() == 14);
    assert("lsp_references"@.len() == 14);
    assert("lsp_symbols"@.len() == 11);
    assert("run_command"@.len() == 11);
    assert("poll_command"@.len() == 12);
    assert("list_commands"@.len() == 13);
    assert("cancel_command"@.len() == 14);
    assert("git_status_diff"@.len() == 15);
    assert("task_plan"@.len() == 9);
    assert("task_update"@.len() == 11);
    assert("task_state"@.len() == 10);
    assert("completion_check"@.len() == 16);
    assert("read_file"@[0] != "task_plan"@[0]);
    assert("patch_file"@[0] != "list_files"@[0]);
    assert("patch_file"@[0] != "task_state"@[0]);
    assert("list_files"@[0] != "task_state"@[0]);
    assert("search_text"@[0] != "lsp_symbols"@[0]);
    assert("search_text"@[0] != "run_command"@[0]);
    assert("search_text"@[0] != "task_update"@[0]);
    assert("lsp_diagnostics"@[0] != "git_status_diff"@[0]);
    assert("lsp_definition"@[4] != "lsp_references"@[4]);
    assert("lsp_definition"@[0] != "cancel_command"@[0]);
    assert("lsp_references"@[0] != "cancel_command"@[0]);
    assert("lsp_symbols"@[0] != "run_command"@[0]);
    assert("lsp_symbols"@[0] != "task_update"@[0]);
    assert("run_command"@[0] != "task_update"@[0]);
}

proof fn lemma_argument_names()
    ensures
        "prompt"@ != "scope_id"@,
        "path"@ != "start_line"@,
        "max_lines"@ != "path"@,
        "path"@ != "scope_id"@,
        "max_lines"@ != "start_line"@,
        "scope_id"@ != "start_line"@,
        "max_lines"@ != "scope_id"@,
        "expected_sha256"@ != "path"@,
        "content"@ != "path"@,
        "content"@ != "expected_sha256"@,
        "expected_sha256"@ != "scope_id"@,
        "content"@ != "scope_id"@,
        "max_depth"@ != "path"@,
        "limit"@ != "path"@,
        "limit"@ != "max_depth"@,
        "max_depth"@ != "scope_id"@,
        "limit"@ != "scope_id"@,
        "path"@ != "query"@,
        "case_sensitive"@ != "query"@,
        "max_results"@ != "query"@,
        "query"@ != "scope_id"@,
        "case_sensitive"@ != "path"@,
        "max_results"@ != "path"@,
        "case_sensitive"@ != "max_results"@,
        "case_sensitive"@ != "scope_id"@,
        "max_results"@ != "scope_id"@,
        "path"@ != "pattern"@,
        "language"@ != "pattern"@,
        "max_results"@ != "pattern"@,
        "pattern"@ != "scope_id"@,
        "language"@ != "path"@,
        "language"@ != "max_results"@,
        "language"@ != "scope_id"@,
        "path"@ != "timeout_ms"@,
        "scope_id"@ != "timeout_ms"@,
        "line"@ != "path"@,
        "character"@ != "path"@,
        "character"@ != "line"@,
        "line"@ != "timeout_ms"@,
        "line"@ != "scope_id"@,
        "character"@ != "timeout_ms"@,
        "character"@ != "scope_id"@,
        "command"@ != "timeout_ms"@,
        "client_request_id"@ != "command"@,
        "command"@ != "scope_id"@,
        "client_request_id"@ != "timeout_ms"@,
        "client_request_id"@ != "scope_id"@,
        "command_id"@ != "wait_timeout_ms"@,
        "command_id"@ != "scope_id"@,
        "scope_id"@ != "wait_timeout_ms"@,
        "goal"@ != "items"@,
        "goal"@ != "scope_id"@,
        "items"@ != "scope_id"@,
        "item_id"@ != "status"@,
        "item_id"@ != "note"@,
        "item_id"@ != "scope_id"@,
        "note"@ != "status"@,
        "scope_id"@ != "status"@,
        "note"@ != "scope_id"@,
        "require_task_plan"@ != "require_verification"@,
        "require_changes"@ != "require_task_plan"@,
        "require_task_plan"@ != "scope_id"@,
        "require_changes"@ != "require_verification"@,
        "require_verification"@ != "scope_id"@,
        "require_changes"@ != "scope_id"@,
{
    reveal_strlit("case_sensitive");
    reveal_strlit("character");
    reveal_strlit("client_request_id");
    reveal_strlit("command");
    reveal_strlit("command_id");
    reveal_strlit("content");
    reveal_strlit("expected_sha256");
    reveal_strlit("goal");
    reveal_strlit("item_id");
    reveal_strlit("items");
    reveal_strlit("language");
    reveal_strlit("limit");
    reveal_strlit("line");
    reveal_strlit("max_depth");
    reveal_strlit("max_lines");
    reveal_strlit("max_results");
    reveal_strlit("note");
    reveal_strlit("path");
    reveal_strlit("pattern");
    reveal_strlit("prompt");
    reveal_strlit("query");
    reveal_strlit("require_changes");
    reveal_strlit("require_task_plan");
    reveal_strlit("require_verification");
    reveal_strlit("scope_id");
    reveal_strlit("start_line");
    reveal_strlit("status");
    reveal_strlit("timeout_ms");
    reveal_strlit("wait_timeout_ms");
    assert("case_sensitive"@.len() == 14);
    assert("character"@.len() == 9);
    assert("client_request_id"@.len() == 17);
    assert("command"@.len() == 7);
    assert("command_id"@.len() == 10);
    assert("content"@.len() == 7);
    assert("expected_sha256"@.len() == 15);
    assert("goal"@.len() == 4);
    assert("item_id"@.len() == 7);
    assert("items"@.len() == 5);
    assert("language"@.len() == 8);
    assert("limit"@.len() == 5);
    assert("line"@.len() == 4);
    assert("max_depth"@.len() == 9);
    assert("max_lines"@.len() == 9);
    assert("max_results"@.len() == 11);
    assert("note"@.len() == 4);
    assert("path"@.len() == 4);
    assert("pattern"@.len() == 7);
    assert("prompt"@.len() == 6);
    assert("query"@.len() == 5);
    assert("require_changes"@.len() == 15);
    assert("require_task_plan"@.len() == 17);
    assert("require_verification"@.len() == 20);
    assert("scope_id"@.len() == 8);
    assert("start_line"@.len() == 10);
    assert("status"@.len() == 6);
    assert("timeout_ms"@.len() == 10);
    assert("wait_timeout_ms"@.len() == 15);
    assert("language"@[0] != "scope_id"@[0]);
    assert("line"@[0] != "path"@[0]);
}

proof fn lemma_tool_parts(
    name: Seq<char>,
    description: Seq<char>,
    properties: Seq<(Seq<char>, JsonModel)>,
    required: Seq<Seq<char>>,
    key: Seq<char>,
)
    ensures
        tool_json(name, description, properties, required).field("name"@) == Some(
            JsonModel::Text(name),
        ),
        advertised(tool_json(name, description, properties, required), key) == field_of(
            properties.push(("scope_id"@, string_schema(ABOUT_SCOPE_ID@))),
            key,
        ),
        tool_json(name, description, properties, required).field2(
            "inputSchema"@,
            "required"@,
        ) == Some(texts_model(required.push("scope_id"@))),
{
    reveal_strlit("name");
    reveal_strlit("description");
    reveal_strlit("inputSchema");
    reveal_strlit("type");
    reveal_strlit("properties");
    reveal_strlit("required");
    assert("name"@.len() == 4);
    assert("description"@.len() == 11);
    assert("inputSchema"@.len() == 11);
    assert("type"@.len() == 4);
    assert("properties"@.len() == 10);
    assert("required"@.len() == 8);
    assert("name"@[0] != "type"@[0]);
    assert("description"@[0] != "inputSchema"@[0]);
    let tool = tool_json(name, description, properties, required);
    let arguments = JsonModel::Object(
        properties.push(("scope_id"@, string_schema(ABOUT_SCOPE_ID@))),
    );
    let schema = JsonModel::Object(
        seq![
            ("type"@, JsonModel::Text("object"@)),
            ("properties"@, arguments),
            ("required"@, texts_model(required.push("scope_id"@))),
        ],
    );
    assert(tool->Object_0[0].0 == "name"@);
    assert(tool->Object_0[1].0 == "description"@);
    lemma_first_field_is_held(tool->Object_0, 0, "name"@, JsonModel::Text(name));
    lemma_first_field_is_held(tool->Object_0, 2, "inputSchema"@, schema);
    assert(schema->Object_0[0].0 == "type"@);
    assert(schema->Object_0[1].0 == "properties"@);
    lemma_first_field_is_held(schema->Object_0, 1, "properties"@, arguments);
    lemma_first_field_is_held(
        schema->Object_0,
        2,
        "required"@,
        texts_model(required.push("scope_id"@)),
    );
}

proof fn lemma_schema_types(description: Seq<char>, low: Option<u64>, high: Option<u64>, about: Option<Seq<char>>)
    ensures
        text_of(string_schema(description).field("type"@)) == Some("string"@),
        text_of(boolean_schema(description).field("type"@)) == Some("boolean"@),
        text_of(items_schema(description).field("type"@)) == Some("array"@),
        text_of(status_schema().field("type"@)) == Some("string"@),
        text_of(integer_schema(low, high, about).field("type"@)) == Some("integer"@),
{
    reveal_with_fuel(field_of, 2);
    assert(integer_schema(low, high, about)->Object_0[0] == ("type"@, JsonModel::Text("integer"@)));
}

proof fn lemma_read_file_arguments(key: Seq<char>, schema: JsonModel)
    requires
        advertised(read_file_tool(), key) == Some(schema),
    ensures
        read_file_tool().field("name"@) == Some(JsonModel::Text("read_file"@)),
        key == "scope_id"@ || (key == "path"@ && text_of(schema.field("type"@)) == Some("string"@)) || (key == "start_line"@ && text_of(schema.field("type"@)) == Some("integer"@)) || (key == "max_lines"@ && text_of(schema.field("type"@)) == Some("integer"@)),
{
    let properties = seq![
            ("path"@, string_schema("Workspace-relative file path"@)),
            ("start_line"@, integer_schema(Some(1), None, Some("Start line (1-indexed)"@))),
            ("max_lines"@, integer_schema(Some(1), None, Some("Maximum lines to read"@))),
        ];
    lemma_tool_parts("read_file"@, ABOUT_READ_FILE@, properties, seq!["path"@], key);
    lemma_argument_names();
    lemma_schema_types("Workspace-relative file path"@, None, None, None);
    lemma_schema_types(""@, Some(1), None, Some("Start line (1-indexed)"@));
    lemma_schema_types(""@, Some(1), None, Some("Maximum lines to read"@));
    reveal_with_fuel(field_of, 5);
}

proof fn lemma_patch_file_arguments(key: Seq<char>, schema: JsonModel)
    requires
        advertised(patch_file_tool(), key) == Some(schema),
    ensures
        patch_file_tool().field("name"@) == Some(JsonModel::Text("patch_file"@)),
        key == "scope_id"@ || (key == "path"@ && text_of(schema.field("type"@)) == Some("string"@)) || (key == "expected_sha256"@ && text_of(schema.field("type"@)) == Some("string"@)) || (key == "content"@ && text_of(schema.field("type"@)) == Some("string"@)),
{
    let properties = seq![
            ("path"@, string_schema("Workspace-relative file path"@)),
            ("expected_sha256"@, string_schema("Expected SHA256 of the existing file before modification"@)),
            ("content"@, string_schema("Complete new file content"@)),
        ];
    lemma_tool_parts("patch_file"@, ABOUT_PATCH_FILE@, properties, seq!["path"@, "content"@], key);
    lemma_argument_names();
    lemma_schema_types("Workspace-relative file path"@, None, None, None);
    lemma_schema_types("Expected SHA256 of the existing file before modification"@, None, None, None);
    lemma_schema_types("Complete new file content"@, None, None, None);
    reveal_with_fuel(field_of, 5);
}

proof fn lemma_list_files_arguments(key: Seq<char>, schema: JsonModel)
    requires
        advertised(list_files_tool(), key) == Some(schema),
    ensures
        list_files_tool().field("name"@) == Some(JsonModel::Text("list_files"@)),
        key == "scope_id"@ || (key == "path"@ && text_of(schema.field("type"@)) == Some("string"@)) || (key == "max_depth"@ && text_of(schema.field("type"@)) == Some("integer"@)) || (key == "limit"@ && text_of(schema.field("type"@)) == Some("integer"@)),
{
    let properties = seq![
            ("path"@, string_schema("Optional workspace-relative subdirectory"@)),
            ("max_depth"@, integer_schema(Some(1), None, Some("Maximum traversal depth"@))),
            ("limit"@, integer_schema(Some(1), None, Some("Maximum returned entries"@))),
        ];
    lemma_tool_parts("list_files"@, ABOUT_LIST_FILES@, properties, Seq::empty(), key);
    lemma_argument_names();
    lemma_schema_types("Optional workspace-relative subdirectory"@, None, None, None);
    lemma_schema_types(""@, Some(1), None, Some("Maximum traversal depth"@));
    lemma_schema_types(""@, Some(1), None, Some("Maximum returned entries"@));
    reveal_with_fuel(field_of, 5);
}

proof fn lemma_search_text_arguments(key: Seq<char>, schema: JsonModel)
    requires
        advertised(search_text_tool(), key) == Some(schema),
    ensures
        search_text_tool().field("name"@) == Some(JsonModel::Text("search_text"@)),
        key == "scope_id"@ || (key == "query"@ && text_of(schema.field("type"@)) == Some("string"@)) || (key == "path"@ && text_of(schema.field("type"@)) == Some("string"@)) || (key == "case_sensitive"@ && text_of(schema.field("type"@)) == Some("boolean"@)) || (key == "max_results"@ && text_of(schema.field("type"@)) == Some("integer"@)),
{
    let properties = seq![
            ("query"@, string_schema("Literal text to search for"@)),
            ("path"@, string_schema("Optional workspace-relative file or directory scope"@)),
            ("case_sensitive"@, boolean_schema("Whether matching is case-sensitive (default false)"@)),
            ("max_results"@, integer_schema(Some(1), Some(500), Some("Maximum matches (default 80)"@))),
        ];
    lemma_tool_parts("search_text"@, ABOUT_SEARCH_TEXT@, properties, seq!["query"@], key);
    lemma_argument_names();
    lemma_schema_types("Literal text to search for"@, None, None, None);
    lemma_schema_types("Optional workspace-relative file or directory scope"@, None, None, None);
    lemma_schema_types("Whether matching is case-sensitive (default false)"@, None, None, None);
    lemma_schema_types(""@, Some(1), Some(500), Some("Maximum matches (default 80)"@));
    reveal_with_fuel(field_of, 6);
}

proof fn lemma_ast_grep_arguments(key: Seq<char>, schema: JsonModel)
    requires
        advertised(ast_grep_tool(), key) == Some(schema),
    ensures
        ast_grep_tool().field("name"@) == Some(JsonModel::Text("ast_grep"@)),
        key == "scope_id"@ || (key == "pattern"@ && text_of(schema.field("type"@)) == Some("string"@)) || (key == "path"@ && text_of(schema.field("type"@)) == Some("string"@)) || (key == "language"@ && text_of(schema.field("type"@)) == Some("string"@)) || (key == "max_results"@ && text_of(schema.field("type"@)) == Some("integer"@)),
{
    let properties = seq![
            ("pattern"@, string_schema("ast-grep pattern such as console.log($A) or function $F($$$ARGS) { $$$BODY }"@)),
            ("path"@, string_schema("Optional workspace-relative search scope; default '.'"@)),
            ("language"@, string_schema("Optional ast-grep language override such as js, ts, rust, python"@)),
            ("max_results"@, integer_schema(Some(1), Some(1000), Some("Maximum parsed matches; default 100"@))),
        ];
    lemma_tool_parts("ast_grep"@, ABOUT_AST_GREP@, properties, seq!["pattern"@], key);
    lemma_argument_names();
    lemma_schema_types("ast-grep pattern such as console.log($A) or function $F($$$ARGS) { $$$BODY }"@, None, None, None);
    lemma_schema_types("Optional workspace-relative search scope; default '.'"@, None, None, None);
    lemma_schema_types("Optional ast-grep language override such as js, ts, rust, python"@, None, None, None);
    lemma_schema_types(""@, Some(1), Some(1000), Some("Maximum parsed matches; default 100"@));
    reveal_with_fuel(field_of, 6);
}

proof fn lemma_lsp_diagnostics_arguments(key: Seq<char>, schema: JsonModel)
    requires
        advertised(lsp_diagnostics_tool(), key) == Some(schema),
    ensures
        lsp_diagnostics_tool().field("name"@) == Some(JsonModel::Text("lsp_diagnostics"@)),
        key == "scope_id"@ || (key == "path"@ && text_of(schema.field("type"@)) == Some("string"@)) || (key == "timeout_ms"@ && text_of(schema.field("type"@)) == Some("integer"@)),
{
    let properties = seq![
            ("path"@, string_schema("Workspace-relative source file"@)),
            ("timeout_ms"@, integer_schema(Some(1000), Some(60000), Some("Language-server timeout; default 15000"@))),
        ];
    lemma_tool_parts("lsp_diagnostics"@, ABOUT_LSP_DIAGNOSTICS@, properties, seq!["path"@], key);
    lemma_argument_names();
    lemma_schema_types("Workspace-relative source file"@, None, None, None);
    lemma_schema_types(""@, Some(1000), Some(60000), Some("Language-server timeout; default 15000"@));
    reveal_with_fuel(field_of, 4);
}

proof fn lemma_lsp_definition_arguments(key: Seq<char>, schema: JsonModel)
    requires
        advertised(lsp_definition_tool(), key) == Some(schema),
    ensures
        lsp_definition_tool().field("name"@) == Some(JsonModel::Text("lsp_definition"@)),
        key == "scope_id"@ || (key == "path"@ && text_of(schema.field("type"@)) == Some("string"@)) || (key == "line"@ && text_of(schema.field("type"@)) == Some("integer"@)) || (key == "character"@ && text_of(schema.field("type"@)) == Some("integer"@)) || (key == "timeout_ms"@ && text_of(schema.field("type"@)) == Some("integer"@)),
{
    let properties = seq![
            ("path"@, string_schema("Workspace-relative source file"@)),
            ("line"@, integer_schema(Some(1), None, None)),
            ("character"@, integer_schema(Some(1), None, None)),
            ("timeout_ms"@, integer_schema(Some(1000), Some(60000), None)),
        ];
    lemma_tool_parts("lsp_definition"@, ABOUT_LSP_DEFINITION@, properties, seq!["path"@, "line"@, "character"@], key);
    lemma_argument_names();
    lemma_schema_types("Workspace-relative source file"@, None, None, None);
    lemma_schema_types(""@, Some(1), None, None);
    lemma_schema_types(""@, Some(1), None, None);
    lemma_schema_types(""@, Some(1000), Some(60000), None);
    reveal_with_fuel(field_of, 6);
}

proof fn lemma_lsp_references_arguments(key: Seq<char>, schema: JsonModel)
    requires
        advertised(lsp_references_tool(), key) == Some(schema),
    ensures
        lsp_references_tool().field("name"@) == Some(JsonModel::Text("lsp_references"@)),
        key == "scope_id"@ || (key == "path"@ && text_of(schema.field("type"@)) == Some("string"@)) || (key == "line"@ && text_of(schema.field("type"@)) == Some("integer"@)) || (key == "character"@ && text_of(schema.field("type"@)) == Some("integer"@)) || (key == "timeout_ms"@ && text_of(schema.field("type"@)) == Some("integer"@)),
{
    let properties = seq![
            ("path"@, string_schema("Workspace-relative source file"@)),
            ("line"@, integer_schema(Some(1), None, None)),
            ("character"@, integer_schema(Some(1), None, None)),
            ("timeout_ms"@, integer_schema(Some(1000), Some(60000), None)),
        ];
    lemma_tool_parts("lsp_references"@, ABOUT_LSP_REFERENCES@, properties, seq!["path"@, "line"@, "character"@], key);
    lemma_argument_names();
    lemma_schema_types("Workspace-relative source file"@, None, None, None);
    lemma_schema_types(""@, Some(1), None, None);
    lemma_schema_types(""@, Some(1), None, None);
    lemma_schema_types(""@, Some(1000), Some(60000), None);
    reveal_with_fuel(field_of, 6);
}

proof fn lemma_lsp_symbols_arguments(key: Seq<char>, schema: JsonModel)
    requires
        advertised(lsp_symbols_tool(), key) == Some(schema),
    ensures
        lsp_symbols_tool().field("name"@) == Some(JsonModel::Text("lsp_symbols"@)),
        key == "scope_id"@ || (key == "path"@ && text_of(schema.field("type"@)) == Some("string"@)) || (key == "timeout_ms"@ && text_of(schema.field("type"@)) == Some("integer"@)),
{
    let properties = seq![
            ("path"@, string_schema("Workspace-relative source file"@)),
            ("timeout_ms"@, integer_schema(Some(1000), Some(60000), None)),
        ];
    lemma_tool_parts("lsp_symbols"@, ABOUT_LSP_SYMBOLS@, properties, seq!["path"@], key);
    lemma_argument_names();
    lemma_schema_types("Workspace-relative source file"@, None, None, None);
    lemma_schema_types(""@, Some(1000), Some(60000), None);
    reveal_with_fuel(field_of, 4);
}

proof fn lemma_run_command_arguments(key: Seq<char>, schema: JsonModel)
    requires
        advertised(run_command_tool(), key) == Some(schema),
    ensures
        run_command_tool().field("name"@) == Some(JsonModel::Text("run_command"@)),
        key == "scope_id"@ || (key == "command"@ && text_of(schema.field("type"@)) == Some("string"@)) || (key == "timeout_ms"@ && text_of(schema.field("type"@)) == Some("integer"@)) || (key == "client_request_id"@ && text_of(schema.field("type"@)) == Some("string"@)),
{
    let properties = seq![
            ("command"@, string_schema("Command such as cargo test, cargo clippy -- -D warnings, npm test, pytest, vitest, go test, or git status"@)),
            ("timeout_ms"@, integer_schema(Some(1), None, Some("Optional process lifetime timeout; clamped to the daemon command timeout"@))),
            ("client_request_id"@, string_schema("Optional idempotency key scoped to (scope_id, generation); retries return the existing command_id"@)),
        ];
    lemma_tool_parts("run_command"@, ABOUT_RUN_COMMAND@, properties, seq!["command"@], key);
    lemma_argument_names();
    lemma_schema_types("Command such as cargo test, cargo clippy -- -D warnings, npm test, pytest, vitest, go test, or git status"@, None, None, None);
    lemma_schema_types(""@, Some(1), None, Some("Optional process lifetime timeout; clamped to the daemon command timeout"@));
    lemma_schema_types("Optional idempotency key scoped to (scope_id, generation); retries return the existing command_id"@, None, None, None);
    reveal_with_fuel(field_of, 5);
}

proof fn lemma_poll_command_arguments(key: Seq<char>, schema: JsonModel)
    requires
        advertised(poll_command_tool(), key) == Some(schema),
    ensures
        poll_command_tool().field("name"@) == Some(JsonModel::Text("poll_command"@)),
        key == "scope_id"@ || (key == "command_id"@ && text_of(schema.field("type"@)) == Some("string"@)) || (key == "wait_timeout_ms"@ && text_of(schema.field("type"@)) == Some("integer"@)),
{
    let properties = seq![
            ("command_id"@, string_schema("Command id returned by run_command or list_commands"@)),
            ("wait_timeout_ms"@, integer_schema(Some(0), Some(15000), Some("Optional long-poll wait; server clamps values to 15 seconds"@))),
        ];
    lemma_tool_parts("poll_command"@, ABOUT_POLL_COMMAND@, properties, seq!["command_id"@], key);
    lemma_argument_names();
    lemma_schema_types("Command id returned by run_command or list_commands"@, None, None, None);
    lemma_schema_types(""@, Some(0), Some(15000), Some("Optional long-poll wait; server clamps values to 15 seconds"@));
    reveal_with_fuel(field_of, 4);
}

proof fn lemma_list_commands_arguments(key: Seq<char>, schema: JsonModel)
    requires
        advertised(list_commands_tool(), key) == Some(schema),
    ensures
        list_commands_tool().field("name"@) == Some(JsonModel::Text("list_commands"@)),
        key == "scope_id"@,
{
    let properties = Seq::<(Seq<char>, JsonModel)>::empty();
    lemma_tool_parts("list_commands"@, ABOUT_LIST_COMMANDS@, properties, Seq::empty(), key);
    lemma_argument_names();
    reveal_with_fuel(field_of, 2);
}

proof fn lemma_cancel_command_arguments(key: Seq<char>, schema: JsonModel)
    requires
        advertised(cancel_command_tool(), key) == Some(schema),
    ensures
        cancel_command_tool().field("name"@) == Some(JsonModel::Text("cancel_command"@)),
        key == "scope_id"@ || (key == "command_id"@ && text_of(schema.field("type"@)) == Some("string"@)),
{
    let properties = seq![
            ("command_id"@, string_schema("Command id to cancel"@)),
        ];
    lemma_tool_parts("cancel_command"@, ABOUT_CANCEL_COMMAND@, properties, seq!["command_id"@], key);
    lemma_argument_names();
    lemma_schema_types("Command id to cancel"@, None, None, None);
    reveal_with_fuel(field_of, 3);
}

proof fn lemma_git_status_diff_arguments(key: Seq<char>, schema: JsonModel)
    requires
        advertised(git_status_diff_tool(), key) == Some(schema),
    ensures
        git_status_diff_tool().field("name"@) == Some(JsonModel::Text("git_status_diff"@)),
        key == "scope_id"@,
{
    let properties = Seq::<(Seq<char>, JsonModel)>::empty();
    lemma_tool_parts("git_status_diff"@, ABOUT_GIT_STATUS_DIFF@, properties, Seq::empty(), key);
    lemma_argument_names();
    reveal_with_fuel(field_of, 2);
}

proof fn lemma_task_plan_arguments(key: Seq<char>, schema: JsonModel)
    requires
        advertised(task_plan_tool(), key) == Some(schema),
    ensures
        task_plan_tool().field("name"@) == Some(JsonModel::Text("task_plan"@)),
        key == "scope_id"@ || (key == "goal"@ && text_of(schema.field("type"@)) == Some("string"@)) || (key == "items"@ && text_of(schema.field("type"@)) == Some("array"@)),
{
    let properties = seq![
            ("goal"@, string_schema("Concise task objective/acceptance target"@)),
            ("items"@, items_schema("Concrete implementation and verification steps"@)),
        ];
    lemma_tool_parts("task_plan"@, ABOUT_TASK_PLAN@, properties, seq!["goal"@, "items"@], key);
    lemma_argument_names();
    lemma_schema_types("Concise task objective/acceptance target"@, None, None, None);
    lemma_schema_types("Concrete implementation and verification steps"@, None, None, None);
    reveal_with_fuel(field_of, 4);
}

proof fn lemma_task_update_arguments(key: Seq<char>, schema: JsonModel)
    requires
        advertised(task_update_tool(), key) == Some(schema),
    ensures
        task_update_tool().field("name"@) == Some(JsonModel::Text("task_update"@)),
        key == "scope_id"@ || (key == "item_id"@ && text_of(schema.field("type"@)) == Some("string"@)) || (key == "status"@ && text_of(schema.field("type"@)) == Some("string"@)) || (key == "note"@ && text_of(schema.field("type"@)) == Some("string"@)),
{
    let properties = seq![
            ("item_id"@, string_schema("Plan item id such as T1"@)),
            ("status"@, status_schema()),
            ("note"@, string_schema("Optional evidence, result, or blocker note"@)),
        ];
    lemma_tool_parts("task_update"@, ABOUT_TASK_UPDATE@, properties, seq!["item_id"@, "status"@], key);
    lemma_argument_names();
    lemma_schema_types("Plan item id such as T1"@, None, None, None);
    lemma_schema_types(""@, None, None, None);
    lemma_schema_types("Optional evidence, result, or blocker note"@, None, None, None);
    reveal_with_fuel(field_of, 5);
}

proof fn lemma_task_state_arguments(key: Seq<char>, schema: JsonModel)
    requires
        advertised(task_state_tool(), key) == Some(schema),
    ensures
        task_state_tool().field("name"@) == Some(JsonModel::Text("task_state"@)),
        key == "scope_id"@,
{
    let properties = Seq::<(Seq<char>, JsonModel)>::empty();
    lemma_tool_parts("task_state"@, ABOUT_TASK_STATE@, properties, Seq::empty(), key);
    lemma_argument_names();
    reveal_with_fuel(field_of, 2);
}

proof fn lemma_completion_check_arguments(key: Seq<char>, schema: JsonModel)
    requires
        advertised(completion_check_tool(), key) == Some(schema),
    ensures
        completion_check_tool().field("name"@) == Some(JsonModel::Text("completion_check"@)),
        key == "scope_id"@ || (key == "require_task_plan"@ && text_of(schema.field("type"@)) == Some("boolean"@)) || (key == "require_verification"@ && text_of(schema.field("type"@)) == Some("boolean"@)) || (key == "require_changes"@ && text_of(schema.field("type"@)) == Some("boolean"@)),
{
    let properties = seq![
            ("require_task_plan"@, boolean_schema("Require an active fully-done task plan (default true)"@)),
            ("require_verification"@, boolean_schema("Require successful verification evidence matching the current workspace revision (default true)"@)),
            ("require_changes"@, boolean_schema("Require non-clean git status (default false)"@)),
        ];
    lemma_tool_parts("completion_check"@, ABOUT_COMPLETION_CHECK@, properties, Seq::empty(), key);
    lemma_argument_names();
    lemma_schema_types("Require an active fully-done task plan (default true)"@, None, None, None);
    lemma_schema_types("Require successful verification evidence matching the current workspace revision (default true)"@, None, None, None);
    lemma_schema_types("Require non-clean git status (default false)"@, None, None, None);
    reveal_with_fuel(field_of, 5);
}

/// The arguments hold the steps of a plan: a list of texts.
pub open spec fn has_steps(args: JsonModel) -> bool {
    exists|v: Seq<JsonModel>|
        all_texts(v) && #[trigger] object_holds(args, "items"@, JsonModel::Array(v))
}

proof fn lemma_read_file_carries(
    max_file_bytes: usize,
    command_timeout_ms: u64,
    args: JsonModel,
    key: Seq<char>,
    value: JsonModel,
)
    requires
        object_holds(args, key, value),
        advertised(read_file_tool(), key) matches Some(schema) && fits(schema, value),
        key != "scope_id"@,
    ensures
        carried(
            tool_request(max_file_bytes, command_timeout_ms, "read_file"@, args),
            key,
        ) == Some(value),
{
    lemma_tool_names();
    lemma_argument_names();
    lemma_read_file_arguments(key, advertised(read_file_tool(), key)->0);
    lemma_held_value_is_read(args, key, value);
}

proof fn lemma_patch_file_carries(
    max_file_bytes: usize,
    command_timeout_ms: u64,
    args: JsonModel,
    key: Seq<char>,
    value: JsonModel,
)
    requires
        object_holds(args, key, value),
        advertised(patch_file_tool(), key) matches Some(schema) && fits(schema, value),
        key != "scope_id"@,
    ensures
        carried(
            tool_request(max_file_bytes, command_timeout_ms, "patch_file"@, args),
            key,
        ) == Some(value),
{
    lemma_tool_names();
    lemma_argument_names();
    lemma_patch_file_arguments(key, advertised(patch_file_tool(), key)->0);
    lemma_held_value_is_read(args, key, value);
}

proof fn lemma_list_files_carries(
    max_file_bytes: usize,
    command_timeout_ms: u64,
    args: JsonModel,
    key: Seq<char>,
    value: JsonModel,
)
    requires
        object_holds(args, key, value),
        advertised(list_files_tool(), key) matches Some(schema) && fits(schema, value),
        key != "scope_id"@,
    ensures
        carried(
            tool_request(max_file_bytes, command_timeout_ms, "list_files"@, args),
            key,
        ) == Some(value),
{
    lemma_tool_names();
    lemma_argument_names();
    lemma_list_files_arguments(key, advertised(list_files_tool(), key)->0);
    lemma_held_value_is_read(args, key, value);
}

proof fn lemma_search_text_carries(
    max_file_bytes: usize,
    command_timeout_ms: u64,
    args: JsonModel,
    key: Seq<char>,
    value: JsonModel,
)
    requires
        object_holds(args, key, value),
        advertised(search_text_tool(), key) matches Some(schema) && fits(schema, value),
        key != "scope_id"@,
    ensures
        carried(
            tool_request(max_file_bytes, command_timeout_ms, "search_text"@, args),
            key,
        ) == Some(value),
{
    lemma_tool_names();
    lemma_argument_names();
    lemma_search_text_arguments(key, advertised(search_text_tool(), key)->0);
    lemma_held_value_is_read(args, key, value);
}

proof fn lemma_ast_grep_carries(
    max_file_bytes: usize,
    command_timeout_ms: u64,
    args: JsonModel,
    key: Seq<char>,
    value: JsonModel,
)
    requires
        object_holds(args, key, value),
        advertised(ast_grep_tool(), key) matches Some(schema) && fits(schema, value),
        key != "scope_id"@,
    ensures
        carried(
            tool_request(max_file_bytes, command_timeout_ms, "ast_grep"@, args),
            key,
        ) == Some(value),
{
    lemma_tool_names();
    lemma_argument_names();
    lemma_ast_grep_arguments(key, advertised(ast_grep_tool(), key)->0);
    lemma_held_value_is_read(args, key, value);
}

proof fn lemma_lsp_diagnostics_carries(
    max_file_bytes: usize,
    command_timeout_ms: u64,
    args: JsonModel,
    key: Seq<char>,
    value: JsonModel,
)
    requires
        object_holds(args, key, value),
        advertised(lsp_diagnostics_tool(), key) matches Some(schema) && fits(schema, value),
        key != "scope_id"@,
    ensures
        carried(
            tool_request(max_file_bytes, command_timeout_ms, "lsp_diagnostics"@, args),
            key,
        ) == Some(value),
{
    lemma_tool_names();
    lemma_argument_names();
    lemma_lsp_diagnostics_arguments(key, advertised(lsp_diagnostics_tool(), key)->0);
    lemma_held_value_is_read(args, key, value);
}

proof fn lemma_lsp_definition_carries(
    max_file_bytes: usize,
    command_timeout_ms: u64,
    args: JsonModel,
    key: Seq<char>,
    value: JsonModel,
)
    requires
        object_holds(args, key, value),
        advertised(lsp_definition_tool(), key) matches Some(schema) && fits(schema, value),
        key != "scope_id"@,
    ensures
        carried(
            tool_request(max_file_bytes, command_timeout_ms, "lsp_definition"@, args),
            key,
        ) == Some(value),
{
    lemma_tool_names();
    lemma_argument_names();
    lemma_lsp_definition_arguments(key, advertised(lsp_definition_tool(), key)->0);
    lemma_held_value_is_read(args, key, value);
}

proof fn lemma_lsp_references_carries(
    max_file_bytes: usize,
    command_timeout_ms: u64,
    args: JsonModel,
    key: Seq<char>,
    value: JsonModel,
)
    requires
        object_holds(args, key, value),
        advertised(lsp_references_tool(), key) matches Some(schema) && fits(schema, value),
        key != "scope_id"@,
    ensures
        carried(
            tool_request(max_file_bytes, command_timeout_ms, "lsp_references"@, args),
            key,
        ) == Some(value),
{
    lemma_tool_names();
    lemma_argument_names();
    lemma_lsp_references_arguments(key, advertised(lsp_references_tool(), key)->0);
    lemma_held_value_is_read(args, key, value);
}

proof fn lemma_lsp_symbols_carries(
    max_file_bytes: usize,
    command_timeout_ms: u64,
    args: JsonModel,
    key: Seq<char>,
    value: JsonModel,
)
    requires
        object_holds(args, key, value),
        advertised(lsp_symbols_tool(), key) matches Some(schema) && fits(schema, value),
        key != "scope_id"@,
    ensures
        carried(
            tool_request(max_file_bytes, command_timeout_ms, "lsp_symbols"@, args),
            key,
        ) == Some(value),
{
    lemma_tool_names();
    lemma_argument_names();
    lemma_lsp_symbols_arguments(key, advertised(lsp_symbols_tool(), key)->0);
    lemma_held_value_is_read(args, key, value);
}

proof fn lemma_run_command_carries(
    max_file_bytes: usize,
    command_timeout_ms: u64,
    args: JsonModel,
    key: Seq<char>,
    value: JsonModel,
)
    requires
        object_holds(args, key, value),
        advertised(run_command_tool(), key) matches Some(schema) && fits(schema, value),
        key != "scope_id"@,
        key == "timeout_ms"@ ==> 1 <= value->Unsigned_0 <= command_timeout_ms,
    ensures
        carried(
            tool_request(max_file_bytes, command_timeout_ms, "run_command"@, args),
            key,
        ) == Some(value),
{
    lemma_tool_names();
    lemma_argument_names();
    lemma_run_command_arguments(key, advertised(run_command_tool(), key)->0);
    lemma_held_value_is_read(args, key, value);
}

proof fn lemma_poll_command_carries(
    max_file_bytes: usize,
    command_timeout_ms: u64,
    args: JsonModel,
    key: Seq<char>,
    value: JsonModel,
)
    requires
        object_holds(args, key, value),
        advertised(poll_command_tool(), key) matches Some(schema) && fits(schema, value),
        key != "scope_id"@,
    ensures
        carried(
            tool_request(max_file_bytes, command_timeout_ms, "poll_command"@, args),
            key,
        ) == Some(value),
{
    lemma_tool_names();
    lemma_argument_names();
    lemma_poll_command_arguments(key, advertised(poll_command_tool(), key)->0);
    lemma_held_value_is_read(args, key, value);
}

proof fn lemma_cancel_command_carries(
    max_file_bytes: usize,
    command_timeout_ms: u64,
    args: JsonModel,
    key: Seq<char>,
    value: JsonModel,
)
    requires
        object_holds(args, key, value),
        advertised(cancel_command_tool(), key) matches Some(schema) && fits(schema, value),
        key != "scope_id"@,
    ensures
        carried(
            tool_request(max_file_bytes, command_timeout_ms, "cancel_command"@, args),
            key,
        ) == Some(value),
{
    lemma_tool_names();
    lemma_argument_names();
    lemma_cancel_command_arguments(key, advertised(cancel_command_tool(), key)->0);
    lemma_held_value_is_read(args, key, value);
}

proof fn lemma_task_plan_carries(
    max_file_bytes: usize,
    command_timeout_ms: u64,
    args: JsonModel,
    key: Seq<char>,
    value: JsonModel,
)
    requires
        object_holds(args, key, value),
        advertised(task_plan_tool(), key) matches Some(schema) && fits(schema, value),
        key != "scope_id"@,
        has_steps(args),
    ensures
        carried(
            tool_request(max_file_bytes, command_timeout_ms, "task_plan"@, args),
            key,
        ) == Some(value),
{
    lemma_tool_names();
    lemma_argument_names();
    lemma_task_plan_arguments(key, advertised(task_plan_tool(), key)->0);
    lemma_held_value_is_read(args, key, value);
    let v = choose|v: Seq<JsonModel>|
        all_texts(v) && #[trigger] object_holds(args, "items"@, JsonModel::Array(v));
    lemma_held_value_is_read(args, "items"@, JsonModel::Array(v));
    assert(texts_model(texts_in(v)) == JsonModel::Array(v)) by {
        assert(texts_model(texts_in(v))->Array_0 =~= v);
    }
}

proof fn lemma_task_update_carries(
    max_file_bytes: usize,
    command_timeout_ms: u64,
    args: JsonModel,
    key: Seq<char>,
    value: JsonModel,
)
    requires
        object_holds(args, key, value),
        advertised(task_update_tool(), key) matches Some(schema) && fits(schema, value),
        key != "scope_id"@,
    ensures
        carried(
            tool_request(max_file_bytes, command_timeout_ms, "task_update"@, args),
            key,
        ) == Some(value),
{
    lemma_tool_names();
    lemma_argument_names();
    lemma_task_update_arguments(key, advertised(task_update_tool(), key)->0);
    lemma_held_value_is_read(args, key, value);
}

proof fn lemma_completion_check_carries(
    max_file_bytes: usize,
    command_timeout_ms: u64,
    args: JsonModel,
    key: Seq<char>,
    value: JsonModel,
)
    requires
        object_holds(args, key, value),
        advertised(completion_check_tool(), key) matches Some(schema) && fits(schema, value),
        key != "scope_id"@,
    ensures
        carried(
            tool_request(max_file_bytes, command_timeout_ms, "completion_check"@, args),
            key,
        ) == Some(value),
{
    lemma_tool_names();
    lemma_argument_names();
    lemma_completion_check_arguments(key, advertised(completion_check_tool(), key)->0);
    lemma_held_value_is_read(args, key, value);
}

/// A call gives a tool, the one at a place in the list, a value for an argument that it advertises
/// besides the scope: one of the type that the tool asks for. The time of a command is within the
/// bridge's own limit, and the steps of a plan are texts.
pub open spec fn gives(
    command_timeout_ms: u64,
    i: int,
    name: Seq<char>,
    args: JsonModel,
    key: Seq<char>,
    value: JsonModel,
) -> bool {
    &&& 0 <= i < all_tools(false).len()
    &&& object_holds(all_tools(false)[i], "name"@, JsonModel::Text(name))
    &&& advertised(all_tools(false)[i], key) matches Some(schema) && fits(schema, value)
    &&& key != "scope_id"@
    &&& object_holds(args, key, value)
    &&& name == "run_command"@ && key == "timeout_ms"@ ==> 1 <= value->Unsigned_0
        <= command_timeout_ms
    &&& name == "task_plan"@ ==> has_steps(args)
}

/// Every argument that a tool advertises is handed on as the call gives it.
pub proof fn lemma_advertised_arguments_are_carried(
    max_file_bytes: usize,
    command_timeout_ms: u64,
    i: int,
    name: Seq<char>,
    args: JsonModel,
    key: Seq<char>,
    value: JsonModel,
)
    requires
        gives(command_timeout_ms, i, name, args, key, value),
    ensures
        carried(tool_request(max_file_bytes, command_timeout_ms, name, args), key) == Some(value),
{
    lemma_held_value_is_read(all_tools(false)[i], "name"@, JsonModel::Text(name));
    let schema = advertised(all_tools(false)[i], key)->0;
    if i == 0 {
        lemma_read_file_arguments(key, schema);
        lemma_read_file_carries(max_file_bytes, command_timeout_ms, args, key, value);
    } else if i == 1 {
        lemma_patch_file_arguments(key, schema);
        lemma_patch_file_carries(max_file_bytes, command_timeout_ms, args, key, value);
    } else if i == 2 {
        lemma_list_files_arguments(key, schema);
        lemma_list_files_carries(max_file_bytes, command_timeout_ms, args, key, value);
    } else if i == 3 {
        lemma_search_text_arguments(key, schema);
        lemma_search_text_carries(max_file_bytes, command_timeout_ms, args, key, value);
    } else if i == 4 {
        lemma_ast_grep_arguments(key, schema);
        lemma_ast_grep_carries(max_file_bytes, command_timeout_ms, args, key, value);
    } else if i == 5 {
        lemma_lsp_diagnostics_arguments(key, schema);
        lemma_lsp_diagnostics_carries(max_file_bytes, command_timeout_ms, args, key, value);
    } else if i == 6 {
        lemma_lsp_definition_arguments(key, schema);
        lemma_lsp_definition_carries(max_file_bytes, command_timeout_ms, args, key, value);
    } else if i == 7 {
        lemma_lsp_references_arguments(key, schema);
        lemma_lsp_references_carries(max_file_bytes, command_timeout_ms, args, key, value);
    } else if i == 8 {
        lemma_lsp_symbols_arguments(key, schema);
        lemma_lsp_symbols_carries(max_file_bytes, command_timeout_ms, args, key, value);
    } else if i == 9 {
        lemma_run_command_arguments(key, schema);
        lemma_run_command_carries(max_file_bytes, command_timeout_ms, args, key, value);
    } else if i == 10 {
        lemma_poll_command_arguments(key, schema);
        lemma_poll_command_carries(max_file_bytes, command_timeout_ms, args, key, value);
    } else if i == 11 {
        lemma_list_commands_arguments(key, schema);
    } else if i == 12 {
        lemma_cancel_command_arguments(key, schema);
        lemma_cancel_command_carries(max_file_bytes, command_timeout_ms, args, key, value);
    } else if i == 13 {
        lemma_git_status_diff_arguments(key, schema);
    } else if i == 14 {
        lemma_task_plan_arguments(key, schema);
        lemma_task_plan_carries(max_file_bytes, command_timeout_ms, args, key, value);
    } else if i == 15 {
        lemma_task_update_arguments(key, schema);
        lemma_task_update_carries(max_file_bytes, command_timeout_ms, args, key, value);
    } else if i == 16 {
        lemma_task_state_arguments(key, schema);
    } else if i == 17 {
        lemma_completion_check_arguments(key, schema);
        lemma_completion_check_carries(max_file_bytes, command_timeout_ms, args, key, value);
    }
}

/// Two calls of a tool that differ in an argument that it advertises ask for different things.
pub proof fn lemma_calls_with_other_arguments_differ(
    max_file_bytes: usize,
    command_timeout_ms: u64,
    i: int,
    name: Seq<char>,
    a: JsonModel,
    b: JsonModel,
    key: Seq<char>,
    first: JsonModel,
    second: JsonModel,
)
    requires
        gives(command_timeout_ms, i, name, a, key, first),
        gives(command_timeout_ms, i, name, b, key, second),
        first != second,
    ensures
        tool_request(max_file_bytes, command_timeout_ms, name, a) != tool_request(
            max_file_bytes,
            command_timeout_ms,
            name,
            b,
        ),
{
    lemma_advertised_arguments_are_carried(
        max_file_bytes,
        command_timeout_ms,
        i,
        name,
        a,
        key,
        first,
    );
    lemma_advertised_arguments_are_carried(
        max_file_bytes,
        command_timeout_ms,
        i,
        name,
        b,
        key,
        second,
    );
}

/// A request makes nothing up: what it carries for an argument is what the call holds there. Only
/// a text that the tool cannot do without is empty where the call gives none, and the time of a
/// command is within the bridge's limit.
pub proof fn lemma_requests_carry_nothing_else(
    max_file_bytes: usize,
    command_timeout_ms: u64,
    name: Seq<char>,
    args: JsonModel,
    key: Seq<char>,
    value: JsonModel,
)
    requires
        carried(tool_request(max_file_bytes, command_timeout_ms, name, args), key) == Some(value),
    ensures
        name == "run_command"@ && key == "timeout_ms"@ || object_holds(args, key, value) || (value
            == JsonModel::Text(""@) && forall|t: Seq<char>|
            !#[trigger] object_holds(args, key, JsonModel::Text(t))),
{
    lemma_argument_names();
    lemma_read_value_is_held(args, key);
    assert forall|t: Seq<char>| #[trigger] object_holds(args, key, JsonModel::Text(t)) implies
        args.field(key) == Some(JsonModel::Text(t)) by {
        lemma_held_value_is_read(args, key, JsonModel::Text(t));
    }
    if name == "task_plan"@ {
        match array_of(args.field("items"@)) {
            Some(v) => {
                if all_texts(v) {
                    assert(texts_model(texts_in(v))->Array_0 =~= v);
                }
            },
            None => {},
        }
    }
}

/// A tool is asked for by its name, and nothing else is.
pub proof fn lemma_tools_are_told_apart(
    max_file_bytes: usize,
    command_timeout_ms: u64,
    name: Seq<char>,
    args: JsonModel,
)
    ensures
        is_request_of(
            name,
            max_file_bytes,
            tool_request(max_file_bytes, command_timeout_ms, name, args),
        ),
        name != "task_plan"@ ==> (tool_request(
            max_file_bytes,
            command_timeout_ms,
            name,
            args,
        ) is Refused <==> forall|i: int|
            0 <= i < all_tools(false).len() ==> !object_holds(
                #[trigger] all_tools(false)[i],
                "name"@,
                JsonModel::Text(name),
            )),
        name == "task_plan"@ ==> (tool_request(
            max_file_bytes,
            command_timeout_ms,
            name,
            args,
        ) is Refused <==> !has_steps(args)),
{
    lemma_tool_names();
    let request = tool_request(max_file_bytes, command_timeout_ms, name, args);
    assert forall|i: int| 0 <= i < all_tools(false).len() implies object_holds(
        #[trigger] all_tools(false)[i],
        "name"@,
        JsonModel::Text(name),
    ) == (tool_name(i) == name) by {
        lemma_tool_named(i);
        lemma_read_value_is_held(all_tools(false)[i], "name"@);
        if object_holds(all_tools(false)[i], "name"@, JsonModel::Text(name)) {
            lemma_held_value_is_read(all_tools(false)[i], "name"@, JsonModel::Text(name));
        }
    }
    if name == "task_plan"@ {
        lemma_read_value_is_held(args, "items"@);
        if has_steps(args) {
            let v = choose|v: Seq<JsonModel>|
                all_texts(v) && #[trigger] object_holds(args, "items"@, JsonModel::Array(v));
            lemma_held_value_is_read(args, "items"@, JsonModel::Array(v));
        }
    } else if request !is Refused {
        if name == "read_file"@ {
            assert(tool_name(0) == name);
            assert(0 <= 0 < all_tools(false).len());
            assert(object_holds(all_tools(false)[0], "name"@, JsonModel::Text(name)));
        } else if name == "patch_file"@ {
            assert(tool_name(1) == name);
            assert(0 <= 1 < all_tools(false).len());
            assert(object_holds(all_tools(false)[1], "name"@, JsonModel::Text(name)));
        } else if name == "list_files"@ {
            assert(tool_name(2) == name);
            assert(0 <= 2 < all_tools(false).len());
            assert(object_holds(all_tools(false)[2], "name"@, JsonModel::Text(name)));
        } else if name == "search_text"@ {
            assert(tool_name(3) == name);
            assert(0 <= 3 < all_tools(false).len());
            assert(object_holds(all_tools(false)[3], "name"@, JsonModel::Text(name)));
        } else if name == "ast_grep"@ {
            assert(tool_name(4) == name);
            assert(0 <= 4 < all_tools(false).len());
            assert(object_holds(all_tools(false)[4], "name"@, JsonModel::Text(name)));
        } else if name == "lsp_diagnostics"@ {
            assert(tool_name(5) == name);
            assert(0 <= 5 < all_tools(false).len());
            assert(object_holds(all_tools(false)[5], "name"@, JsonModel::Text(name)));
        } else if name == "lsp_definition"@ {
            assert(tool_name(6) == name);
            assert(0 <= 6 < all_tools(false).len());
            assert(object_holds(all_tools(false)[6], "name"@, JsonModel::Text(name)));
        } else if name == "lsp_references"@ {
            assert(tool_name(7) == name);
            assert(0 <= 7 < all_tools(false).len());
            assert(object_holds(all_tools(false)[7], "name"@, JsonModel::Text(name)));
        } else if name == "lsp_symbols"@ {
            assert(tool_name(8) == name);
            assert(0 <= 8 < all_tools(false).len());
            assert(object_holds(all_tools(false)[8], "name"@, JsonModel::Text(name)));
        } else if name == "run_command"@ {
            assert(tool_name(9) == name);
            assert(0 <= 9 < all_tools(false).len());
            assert(object_holds(all_tools(false)[9], "name"@, JsonModel::Text(name)));
        } else if name == "poll_command"@ {
            assert(tool_name(10) == name);
            assert(0 <= 10 < all_tools(false).len());
            assert(object_holds(all_tools(false)[10], "name"@, JsonModel::Text(name)));
        } else if name == "list_commands"@ {
            assert(tool_name(11) == name);
            assert(0 <= 11 < all_tools(false).len());
            assert(object_holds(all_tools(false)[11], "name"@, JsonModel::Text(name)));
        } else if name == "cancel_command"@ {
            assert(tool_name(12) == name);
            assert(0 <= 12 < all_tools(false).len());
            assert(object_holds(all_tools(false)[12], "name"@, JsonModel::Text(name)));
        } else if name == "git_status_diff"@ {
            assert(tool_name(13) == name);
            assert(0 <= 13 < all_tools(false).len());
            assert(object_holds(all_tools(false)[13], "name"@, JsonModel::Text(name)));
        } else if name == "task_plan"@ {
            assert(tool_name(14) == name);
            assert(0 <= 14 < all_tools(false).len());
            assert(object_holds(all_tools(false)[14], "name"@, JsonModel::Text(name)));
        } else if name == "task_update"@ {
            assert(tool_name(15) == name);
            assert(0 <= 15 < all_tools(false).len());
            assert(object_holds(all_tools(false)[15], "name"@, JsonModel::Text(name)));
        } else if name == "task_state"@ {
            assert(tool_name(16) == name);
            assert(0 <= 16 < all_tools(false).len());
            assert(object_holds(all_tools(false)[16], "name"@, JsonModel::Text(name)));
        } else if name == "completion_check"@ {
            assert(tool_name(17) == name);
            assert(0 <= 17 < all_tools(false).len());
            assert(object_holds(all_tools(false)[17], "name"@, JsonModel::Text(name)));
        }
    }
}

spec fn takes_scope(tool: JsonModel) -> bool {
    &&& advertised(tool, "scope_id"@) == Some(string_schema(ABOUT_SCOPE_ID@))
    &&& tool.field2("inputSchema"@, "required"@) matches Some(JsonModel::Array(v)) && v.contains(
        JsonModel::Text("scope_id"@),
    )
}

proof fn lemma_scope_last(properties: Seq<(Seq<char>, JsonModel)>, required: Seq<Seq<char>>)
    requires
        forall|j: int| 0 <= j < properties.len() ==> (#[trigger] properties[j]).0 != "scope_id"@,
    ensures
        field_of(
            properties.push(("scope_id"@, string_schema(ABOUT_SCOPE_ID@))),
            "scope_id"@,
        ) == Some(string_schema(ABOUT_SCOPE_ID@)),
        texts_model(required.push("scope_id"@))->Array_0.contains(JsonModel::Text("scope_id"@)),
{
    let all = properties.push(("scope_id"@, string_schema(ABOUT_SCOPE_ID@)));
    let last: int = properties.len() as int;
    assert(all[last] == ("scope_id"@, string_schema(ABOUT_SCOPE_ID@)));
    assert forall|j: int| 0 <= j < last implies (#[trigger] all[j]).0 != "scope_id"@ by {
        assert(all[j] == properties[j]);
    }
    lemma_first_field_is_held(all, last, "scope_id"@, string_schema(ABOUT_SCOPE_ID@));
    let names = texts_model(required.push("scope_id"@))->Array_0;
    assert(names[required.len() as int] == JsonModel::Text("scope_id"@));
}

proof fn lemma_read_file_scoped()
    ensures
        read_file_tool().field("name"@) == Some(JsonModel::Text("read_file"@)),
        takes_scope(read_file_tool()),
{
    let properties = seq![
            ("path"@, string_schema("Workspace-relative file path"@)),
            ("start_line"@, integer_schema(Some(1), None, Some("Start line (1-indexed)"@))),
            ("max_lines"@, integer_schema(Some(1), None, Some("Maximum lines to read"@))),
        ];
    let required = seq!["path"@];
    lemma_tool_parts("read_file"@, ABOUT_READ_FILE@, properties, required, "scope_id"@);
    lemma_argument_names();
    lemma_scope_last(properties, required);
}

proof fn lemma_patch_file_scoped()
    ensures
        patch_file_tool().field("name"@) == Some(JsonModel::Text("patch_file"@)),
        takes_scope(patch_file_tool()),
{
    let properties = seq![
            ("path"@, string_schema("Workspace-relative file path"@)),
            ("expected_sha256"@, string_schema("Expected SHA256 of the existing file before modification"@)),
            ("content"@, string_schema("Complete new file content"@)),
        ];
    let required = seq!["path"@, "content"@];
    lemma_tool_parts("patch_file"@, ABOUT_PATCH_FILE@, properties, required, "scope_id"@);
    lemma_argument_names();
    lemma_scope_last(properties, required);
}

proof fn lemma_list_files_scoped()
    ensures
        list_files_tool().field("name"@) == Some(JsonModel::Text("list_files"@)),
        takes_scope(list_files_tool()),
{
    let properties = seq![
            ("path"@, string_schema("Optional workspace-relative subdirectory"@)),
            ("max_depth"@, integer_schema(Some(1), None, Some("Maximum traversal depth"@))),
            ("limit"@, integer_schema(Some(1), None, Some("Maximum returned entries"@))),
        ];
    let required = Seq::<Seq<char>>::empty();
    lemma_tool_parts("list_files"@, ABOUT_LIST_FILES@, properties, required, "scope_id"@);
    lemma_argument_names();
    lemma_scope_last(properties, required);
}

proof fn lemma_search_text_scoped()
    ensures
        search_text_tool().field("name"@) == Some(JsonModel::Text("search_text"@)),
        takes_scope(search_text_tool()),
{
    let properties = seq![
            ("query"@, string_schema("Literal text to search for"@)),
            ("path"@, string_schema("Optional workspace-relative file or directory scope"@)),
            ("case_sensitive"@, boolean_schema("Whether matching is case-sensitive (default false)"@)),
            ("max_results"@, integer_schema(Some(1), Some(500), Some("Maximum matches (default 80)"@))),
        ];
    let required = seq!["query"@];
    lemma_tool_parts("search_text"@, ABOUT_SEARCH_TEXT@, properties, required, "scope_id"@);
    lemma_argument_names();
    lemma_scope_last(properties, required);
}

proof fn lemma_ast_grep_scoped()
    ensures
        ast_grep_tool().field("name"@) == Some(JsonModel::Text("ast_grep"@)),
        takes_scope(ast_grep_tool()),
{
    let properties = seq![
            ("pattern"@, string_schema("ast-grep pattern such as console.log($A) or function $F($$$ARGS) { $$$BODY }"@)),
            ("path"@, string_schema("Optional workspace-relative search scope; default '.'"@)),
            ("language"@, string_schema("Optional ast-grep language override such as js, ts, rust, python"@)),
            ("max_results"@, integer_schema(Some(1), Some(1000), Some("Maximum parsed matches; default 100"@))),
        ];
    let required = seq!["pattern"@];
    lemma_tool_parts("ast_grep"@, ABOUT_AST_GREP@, properties, required, "scope_id"@);
    lemma_argument_names();
    lemma_scope_last(properties, required);
}

proof fn lemma_lsp_diagnostics_scoped()
    ensures
        lsp_diagnostics_tool().field("name"@) == Some(JsonModel::Text("lsp_diagnostics"@)),
        takes_scope(lsp_diagnostics_tool()),
{
    let properties = seq![
            ("path"@, string_schema("Workspace-relative source file"@)),
            ("timeout_ms"@, integer_schema(Some(1000), Some(60000), Some("Language-server timeout; default 15000"@))),
        ];
    let required = seq!["path"@];
    lemma_tool_parts("lsp_diagnostics"@, ABOUT_LSP_DIAGNOSTICS@, properties, required, "scope_id"@);
    lemma_argument_names();
    lemma_scope_last(properties, required);
}

proof fn lemma_lsp_definition_scoped()
    ensures
        lsp_definition_tool().field("name"@) == Some(JsonModel::Text("lsp_definition"@)),
        takes_scope(lsp_definition_tool()),
{
    let properties = seq![
            ("path"@, string_schema("Workspace-relative source file"@)),
            ("line"@, integer_schema(Some(1), None, None)),
            ("character"@, integer_schema(Some(1), None, None)),
            ("timeout_ms"@, integer_schema(Some(1000), Some(60000), None)),
        ];
    let required = seq!["path"@, "line"@, "character"@];
    lemma_tool_parts("lsp_definition"@, ABOUT_LSP_DEFINITION@, properties, required, "scope_id"@);
    lemma_argument_names();
    lemma_scope_last(properties, required);
}

proof fn lemma_lsp_references_scoped()
    ensures
        lsp_references_tool().field("name"@) == Some(JsonModel::Text("lsp_references"@)),
        takes_scope(lsp_references_tool()),
{
    let properties = seq![
            ("path"@, string_schema("Workspace-relative source file"@)),
            ("line"@, integer_schema(Some(1), None, None)),
            ("character"@, integer_schema(Some(1), None, None)),
            ("timeout_ms"@, integer_schema(Some(1000), Some(60000), None)),
        ];
    let required = seq!["path"@, "line"@, "character"@];
    lemma_tool_parts("lsp_references"@, ABOUT_LSP_REFERENCES@, properties, required, "scope_id"@);
    lemma_argument_names();
    lemma_scope_last(properties, required);
}

proof fn lemma_lsp_symbols_scoped()
    ensures
        lsp_symbols_tool().field("name"@) == Some(JsonModel::Text("lsp_symbols"@)),
        takes_scope(lsp_symbols_tool()),
{
    let properties = seq![
            ("path"@, string_schema("Workspace-relative source file"@)),
            ("timeout_ms"@, integer_schema(Some(1000), Some(60000), None)),
        ];
    let required = seq!["path"@];
    lemma_tool_parts("lsp_symbols"@, ABOUT_LSP_SYMBOLS@, properties, required, "scope_id"@);
    lemma_argument_names();
    lemma_scope_last(properties, required);
}

proof fn lemma_run_command_scoped()
    ensures
        run_command_tool().field("name"@) == Some(JsonModel::Text("run_command"@)),
        takes_scope(run_command_tool()),
{
    let properties = seq![
            ("command"@, string_schema("Command such as cargo test, cargo clippy -- -D warnings, npm test, pytest, vitest, go test, or git status"@)),
            ("timeout_ms"@, integer_schema(Some(1), None, Some("Optional process lifetime timeout; clamped to the daemon command timeout"@))),
            ("client_request_id"@, string_schema("Optional idempotency key scoped to (scope_id, generation); retries return the existing command_id"@)),
        ];
    let required = seq!["command"@];
    lemma_tool_parts("run_command"@, ABOUT_RUN_COMMAND@, properties, required, "scope_id"@);
    lemma_argument_names();
    lemma_scope_last(properties, required);
}

proof fn lemma_poll_command_scoped()
    ensures
        poll_command_tool().field("name"@) == Some(JsonModel::Text("poll_command"@)),
        takes_scope(poll_command_tool()),
{
    let properties = seq![
            ("command_id"@, string_schema("Command id returned by run_command or list_commands"@)),
            ("wait_timeout_ms"@, integer_schema(Some(0), Some(15000), Some("Optional long-poll wait; server clamps values to 15 seconds"@))),
        ];
    let required = seq!["command_id"@];
    lemma_tool_parts("poll_command"@, ABOUT_POLL_COMMAND@, properties, required, "scope_id"@);
    lemma_argument_names();
    lemma_scope_last(properties, required);
}

proof fn lemma_list_commands_scoped()
    ensures
        list_commands_tool().field("name"@) == Some(JsonModel::Text("list_commands"@)),
        takes_scope(list_commands_tool()),
{
    let properties = Seq::<(Seq<char>, JsonModel)>::empty();
    let required = Seq::<Seq<char>>::empty();
    lemma_tool_parts("list_commands"@, ABOUT_LIST_COMMANDS@, properties, required, "scope_id"@);
    lemma_argument_names();
    lemma_scope_last(properties, required);
}

proof fn lemma_cancel_command_scoped()
    ensures
        cancel_command_tool().field("name"@) == Some(JsonModel::Text("cancel_command"@)),
        takes_scope(cancel_command_tool()),
{
    let properties = seq![
            ("command_id"@, string_schema("Command id to cancel"@)),
        ];
    let required = seq!["command_id"@];
    lemma_tool_parts("cancel_command"@, ABOUT_CANCEL_COMMAND@, properties, required, "scope_id"@);
    lemma_argument_names();
    lemma_scope_last(properties, required);
}

proof fn lemma_git_status_diff_scoped()
    ensures
        git_status_diff_tool().field("name"@) == Some(JsonModel::Text("git_status_diff"@)),
        takes_scope(git_status_diff_tool()),
{
    let properties = Seq::<(Seq<char>, JsonModel)>::empty();
    let required = Seq::<Seq<char>>::empty();
    lemma_tool_parts("git_status_diff"@, ABOUT_GIT_STATUS_DIFF@, properties, required, "scope_id"@);
    lemma_argument_names();
    lemma_scope_last(properties, required);
}

proof fn lemma_task_plan_scoped()
    ensures
        task_plan_tool().field("name"@) == Some(JsonModel::Text("task_plan"@)),
        takes_scope(task_plan_tool()),
{
    let properties = seq![
            ("goal"@, string_schema("Concise task objective/acceptance target"@)),
            ("items"@, items_schema("Concrete implementation and verification steps"@)),
        ];
    let required = seq!["goal"@, "items"@];
    lemma_tool_parts("task_plan"@, ABOUT_TASK_PLAN@, properties, required, "scope_id"@);
    lemma_argument_names();
    lemma_scope_last(properties, required);
}

proof fn lemma_task_update_scoped()
    ensures
        task_update_tool().field("name"@) == Some(JsonModel::Text("task_update"@)),
        takes_scope(task_update_tool()),
{
    let properties = seq![
            ("item_id"@, string_schema("Plan item id such as T1"@)),
            ("status"@, status_schema()),
            ("note"@, string_schema("Optional evidence, result, or blocker note"@)),
        ];
    let required = seq!["item_id"@, "status"@];
    lemma_tool_parts("task_update"@, ABOUT_TASK_UPDATE@, properties, required, "scope_id"@);
    lemma_argument_names();
    lemma_scope_last(properties, required);
}

proof fn lemma_task_state_scoped()
    ensures
        task_state_tool().field("name"@) == Some(JsonModel::Text("task_state"@)),
        takes_scope(task_state_tool()),
{
    let properties = Seq::<(Seq<char>, JsonModel)>::empty();
    let required = Seq::<Seq<char>>::empty();
    lemma_tool_parts("task_state"@, ABOUT_TASK_STATE@, properties, required, "scope_id"@);
    lemma_argument_names();
    lemma_scope_last(properties, required);
}

proof fn lemma_completion_check_scoped()
    ensures
        completion_check_tool().field("name"@) == Some(JsonModel::Text("completion_check"@)),
        takes_scope(completion_check_tool()),
{
    let properties = seq![
            ("require_task_plan"@, boolean_schema("Require an active fully-done task plan (default true)"@)),
            ("require_verification"@, boolean_schema("Require successful verification evidence matching the current workspace revision (default true)"@)),
            ("require_changes"@, boolean_schema("Require non-clean git status (default false)"@)),
        ];
    let required = Seq::<Seq<char>>::empty();
    lemma_tool_parts("completion_check"@, ABOUT_COMPLETION_CHECK@, properties, required, "scope_id"@);
    lemma_argument_names();
    lemma_scope_last(properties, required);
}

proof fn lemma_query_subagent_scoped()
    ensures
        query_subagent_tool().field("name"@) == Some(JsonModel::Text("query_subagent"@)),
        takes_scope(query_subagent_tool()),
{
    let properties = seq![
            ("prompt"@, string_schema("Advisory question or context; maximum 32 KiB UTF-8"@)),
            ("timeout_ms"@, integer_schema(None, None, Some("Optional request timeout in milliseconds; values are clamped to 1000-60000, default 30000"@))),
        ];
    let required = seq!["prompt"@];
    lemma_tool_parts("query_subagent"@, ABOUT_QUERY_SUBAGENT@, properties, required, "scope_id"@);
    lemma_argument_names();
    lemma_scope_last(properties, required);
}

spec fn tool_name(i: int) -> Seq<char> {
    if i == 0 {
        "read_file"@
    } else if i == 1 {
        "patch_file"@
    } else if i == 2 {
        "list_files"@
    } else if i == 3 {
        "search_text"@
    } else if i == 4 {
        "ast_grep"@
    } else if i == 5 {
        "lsp_diagnostics"@
    } else if i == 6 {
        "lsp_definition"@
    } else if i == 7 {
        "lsp_references"@
    } else if i == 8 {
        "lsp_symbols"@
    } else if i == 9 {
        "run_command"@
    } else if i == 10 {
        "poll_command"@
    } else if i == 11 {
        "list_commands"@
    } else if i == 12 {
        "cancel_command"@
    } else if i == 13 {
        "git_status_diff"@
    } else if i == 14 {
        "task_plan"@
    } else if i == 15 {
        "task_update"@
    } else if i == 16 {
        "task_state"@
    } else if i == 17 {
        "completion_check"@
    } else {
        ""@
    }
}

proof fn lemma_tool_named(i: int)
    requires
        0 <= i < all_tools(false).len(),
    ensures
        all_tools(false)[i].field("name"@) == Some(JsonModel::Text(tool_name(i))),
{
    assert(all_tools(false)[i].field("name"@) == Some(JsonModel::Text(tool_name(i)))) by {
        if i == 0 {
            lemma_read_file_scoped();
        } else if i == 1 {
            lemma_patch_file_scoped();
        } else if i == 2 {
            lemma_list_files_scoped();
        } else if i == 3 {
            lemma_search_text_scoped();
        } else if i == 4 {
            lemma_ast_grep_scoped();
        } else if i == 5 {
            lemma_lsp_diagnostics_scoped();
        } else if i == 6 {
            lemma_lsp_definition_scoped();
        } else if i == 7 {
            lemma_lsp_references_scoped();
        } else if i == 8 {
            lemma_lsp_symbols_scoped();
        } else if i == 9 {
            lemma_run_command_scoped();
        } else if i == 10 {
            lemma_poll_command_scoped();
        } else if i == 11 {
            lemma_list_commands_scoped();
        } else if i == 12 {
            lemma_cancel_command_scoped();
        } else if i == 13 {
            lemma_git_status_diff_scoped();
        } else if i == 14 {
            lemma_task_plan_scoped();
        } else if i == 15 {
            lemma_task_update_scoped();
        } else if i == 16 {
            lemma_task_state_scoped();
        } else if i == 17 {
            lemma_completion_check_scoped();
        }
    }
}

/// Every tool takes the id of a scope, a text, and cannot do without it.
pub proof fn lemma_every_tool_takes_a_scope(i: int)
    requires
        0 <= i < all_tools(true).len(),
    ensures
        advertised(all_tools(true)[i], "scope_id"@) matches Some(schema) && object_holds(
            schema,
            "type"@,
            JsonModel::Text("string"@),
        ),
        all_tools(true)[i].field2("inputSchema"@, "required"@) matches Some(JsonModel::Array(v))
            && v.contains(JsonModel::Text("scope_id"@)),
{
    if i == 0 {
        lemma_read_file_scoped();
    } else if i == 1 {
        lemma_patch_file_scoped();
    } else if i == 2 {
        lemma_list_files_scoped();
    } else if i == 3 {
        lemma_search_text_scoped();
    } else if i == 4 {
        lemma_ast_grep_scoped();
    } else if i == 5 {
        lemma_lsp_diagnostics_scoped();
    } else if i == 6 {
        lemma_lsp_definition_scoped();
    } else if i == 7 {
        lemma_lsp_references_scoped();
    } else if i == 8 {
        lemma_lsp_symbols_scoped();
    } else if i == 9 {
        lemma_run_command_scoped();
    } else if i == 10 {
        lemma_poll_command_scoped();
    } else if i == 11 {
        lemma_list_commands_scoped();
    } else if i == 12 {
        lemma_cancel_command_scoped();
    } else if i == 13 {
        lemma_git_status_diff_scoped();
    } else if i == 14 {
        lemma_task_plan_scoped();
    } else if i == 15 {
        lemma_task_update_scoped();
    } else if i == 16 {
        lemma_task_state_scoped();
    } else if i == 17 {
        lemma_completion_check_scoped();
    } else if i == 18 {
        lemma_query_subagent_scoped();
    }
    lemma_schema_types(ABOUT_SCOPE_ID@, None, None, None);
    lemma_read_value_is_held(advertised(all_tools(true)[i], "scope_id"@)->0, "type"@);
}

proof fn lemma_read_file_advertises(key: Seq<char>)
    requires
        key == "path"@ || key == "start_line"@ || key == "max_lines"@,
    ensures
        advertised(read_file_tool(), key) is Some,
        read_file_tool().field("name"@) == Some(JsonModel::Text("read_file"@)),
{
    let properties = seq![
            ("path"@, string_schema("Workspace-relative file path"@)),
            ("start_line"@, integer_schema(Some(1), None, Some("Start line (1-indexed)"@))),
            ("max_lines"@, integer_schema(Some(1), None, Some("Maximum lines to read"@))),
        ];
    lemma_tool_parts("read_file"@, ABOUT_READ_FILE@, properties, seq!["path"@], key);
    lemma_argument_names();
    reveal_with_fuel(field_of, 4);
}

proof fn lemma_patch_file_advertises(key: Seq<char>)
    requires
        key == "path"@ || key == "expected_sha256"@ || key == "content"@,
    ensures
        advertised(patch_file_tool(), key) is Some,
        patch_file_tool().field("name"@) == Some(JsonModel::Text("patch_file"@)),
{
    let properties = seq![
            ("path"@, string_schema("Workspace-relative file path"@)),
            ("expected_sha256"@, string_schema("Expected SHA256 of the existing file before modification"@)),
            ("content"@, string_schema("Complete new file content"@)),
        ];
    lemma_tool_parts("patch_file"@, ABOUT_PATCH_FILE@, properties, seq!["path"@, "content"@], key);
    lemma_argument_names();
    reveal_with_fuel(field_of, 4);
}

proof fn lemma_list_files_advertises(key: Seq<char>)
    requires
        key == "path"@ || key == "max_depth"@ || key == "limit"@,
    ensures
        advertised(list_files_tool(), key) is Some,
        list_files_tool().field("name"@) == Some(JsonModel::Text("list_files"@)),
{
    let properties = seq![
            ("path"@, string_schema("Optional workspace-relative subdirectory"@)),
            ("max_depth"@, integer_schema(Some(1), None, Some("Maximum traversal depth"@))),
            ("limit"@, integer_schema(Some(1), None, Some("Maximum returned entries"@))),
        ];
    lemma_tool_parts("list_files"@, ABOUT_LIST_FILES@, properties, Seq::<Seq<char>>::empty(), key);
    lemma_argument_names();
    reveal_with_fuel(field_of, 4);
}

proof fn lemma_search_text_advertises(key: Seq<char>)
    requires
        key == "query"@ || key == "path"@ || key == "case_sensitive"@ || key == "max_results"@,
    ensures
        advertised(search_text_tool(), key) is Some,
        search_text_tool().field("name"@) == Some(JsonModel::Text("search_text"@)),
{
    let properties = seq![
            ("query"@, string_schema("Literal text to search for"@)),
            ("path"@, string_schema("Optional workspace-relative file or directory scope"@)),
            ("case_sensitive"@, boolean_schema("Whether matching is case-sensitive (default false)"@)),
            ("max_results"@, integer_schema(Some(1), Some(500), Some("Maximum matches (default 80)"@))),
        ];
    lemma_tool_parts("search_text"@, ABOUT_SEARCH_TEXT@, properties, seq!["query"@], key);
    lemma_argument_names();
    reveal_with_fuel(field_of, 5);
}

proof fn lemma_ast_grep_advertises(key: Seq<char>)
    requires
        key == "pattern"@ || key == "path"@ || key == "language"@ || key == "max_results"@,
    ensures
        advertised(ast_grep_tool(), key) is Some,
        ast_grep_tool().field("name"@) == Some(JsonModel::Text("ast_grep"@)),
{
    let properties = seq![
            ("pattern"@, string_schema("ast-grep pattern such as console.log($A) or function $F($$$ARGS) { $$$BODY }"@)),
            ("path"@, string_schema("Optional workspace-relative search scope; default '.'"@)),
            ("language"@, string_schema("Optional ast-grep language override such as js, ts, rust, python"@)),
            ("max_results"@, integer_schema(Some(1), Some(1000), Some("Maximum parsed matches; default 100"@))),
        ];
    lemma_tool_parts("ast_grep"@, ABOUT_AST_GREP@, properties, seq!["pattern"@], key);
    lemma_argument_names();
    reveal_with_fuel(field_of, 5);
}

proof fn lemma_lsp_diagnostics_advertises(key: Seq<char>)
    requires
        key == "path"@ || key == "timeout_ms"@,
    ensures
        advertised(lsp_diagnostics_tool(), key) is Some,
        lsp_diagnostics_tool().field("name"@) == Some(JsonModel::Text("lsp_diagnostics"@)),
{
    let properties = seq![
            ("path"@, string_schema("Workspace-relative source file"@)),
            ("timeout_ms"@, integer_schema(Some(1000), Some(60000), Some("Language-server timeout; default 15000"@))),
        ];
    lemma_tool_parts("lsp_diagnostics"@, ABOUT_LSP_DIAGNOSTICS@, properties, seq!["path"@], key);
    lemma_argument_names();
    reveal_with_fuel(field_of, 3);
}

proof fn lemma_lsp_definition_advertises(key: Seq<char>)
    requires
        key == "path"@ || key == "line"@ || key == "character"@ || key == "timeout_ms"@,
    ensures
        advertised(lsp_definition_tool(), key) is Some,
        lsp_definition_tool().field("name"@) == Some(JsonModel::Text("lsp_definition"@)),
{
    let properties = seq![
            ("path"@, string_schema("Workspace-relative source file"@)),
            ("line"@, integer_schema(Some(1), None, None)),
            ("character"@, integer_schema(Some(1), None, None)),
            ("timeout_ms"@, integer_schema(Some(1000), Some(60000), None)),
        ];
    lemma_tool_parts("lsp_definition"@, ABOUT_LSP_DEFINITION@, properties, seq!["path"@, "line"@, "character"@], key);
    lemma_argument_names();
    reveal_with_fuel(field_of, 5);
}

proof fn lemma_lsp_references_advertises(key: Seq<char>)
    requires
        key == "path"@ || key == "line"@ || key == "character"@ || key == "timeout_ms"@,
    ensures
        advertised(lsp_references_tool(), key) is Some,
        lsp_references_tool().field("name"@) == Some(JsonModel::Text("lsp_references"@)),
{
    let properties = seq![
            ("path"@, string_schema("Workspace-relative source file"@)),
            ("line"@, integer_schema(Some(1), None, None)),
            ("character"@, integer_schema(Some(1), None, None)),
            ("timeout_ms"@, integer_schema(Some(1000), Some(60000), None)),
        ];
    lemma_tool_parts("lsp_references"@, ABOUT_LSP_REFERENCES@, properties, seq!["path"@, "line"@, "character"@], key);
    lemma_argument_names();
    reveal_with_fuel(field_of, 5);
}

proof fn lemma_lsp_symbols_advertises(key: Seq<char>)
    requires
        key == "path"@ || key == "timeout_ms"@,
    ensures
        advertised(lsp_symbols_tool(), key) is Some,
        lsp_symbols_tool().field("name"@) == Some(JsonModel::Text("lsp_symbols"@)),
{
    let properties = seq![
            ("path"@, string_schema("Workspace-relative source file"@)),
            ("timeout_ms"@, integer_schema(Some(1000), Some(60000), None)),
        ];
    lemma_tool_parts("lsp_symbols"@, ABOUT_LSP_SYMBOLS@, properties, seq!["path"@], key);
    lemma_argument_names();
    reveal_with_fuel(field_of, 3);
}

proof fn lemma_run_command_advertises(key: Seq<char>)
    requires
        key == "command"@ || key == "timeout_ms"@ || key == "client_request_id"@,
    ensures
        advertised(run_command_tool(), key) is Some,
        run_command_tool().field("name"@) == Some(JsonModel::Text("run_command"@)),
{
    let properties = seq![
            ("command"@, string_schema("Command such as cargo test, cargo clippy -- -D warnings, npm test, pytest, vitest, go test, or git status"@)),
            ("timeout_ms"@, integer_schema(Some(1), None, Some("Optional process lifetime timeout; clamped to the daemon command timeout"@))),
            ("client_request_id"@, string_schema("Optional idempotency key scoped to (scope_id, generation); retries return the existing command_id"@)),
        ];
    lemma_tool_parts("run_command"@, ABOUT_RUN_COMMAND@, properties, seq!["command"@], key);
    lemma_argument_names();
    reveal_with_fuel(field_of, 4);
}

proof fn lemma_poll_command_advertises(key: Seq<char>)
    requires
        key == "command_id"@ || key == "wait_timeout_ms"@,
    ensures
        advertised(poll_command_tool(), key) is Some,
        poll_command_tool().field("name"@) == Some(JsonModel::Text("poll_command"@)),
{
    let properties = seq![
            ("command_id"@, string_schema("Command id returned by run_command or list_commands"@)),
            ("wait_timeout_ms"@, integer_schema(Some(0), Some(15000), Some("Optional long-poll wait; server clamps values to 15 seconds"@))),
        ];
    lemma_tool_parts("poll_command"@, ABOUT_POLL_COMMAND@, properties, seq!["command_id"@], key);
    lemma_argument_names();
    reveal_with_fuel(field_of, 3);
}

proof fn lemma_cancel_command_advertises(key: Seq<char>)
    requires
        key == "command_id"@,
    ensures
        advertised(cancel_command_tool(), key) is Some,
        cancel_command_tool().field("name"@) == Some(JsonModel::Text("cancel_command"@)),
{
    let properties = seq![
            ("command_id"@, string_schema("Command id to cancel"@)),
        ];
    lemma_tool_parts("cancel_command"@, ABOUT_CANCEL_COMMAND@, properties, seq!["command_id"@], key);
    lemma_argument_names();
    reveal_with_fuel(field_of, 2);
}

proof fn lemma_task_plan_advertises(key: Seq<char>)
    requires
        key == "goal"@ || key == "items"@,
    ensures
        advertised(task_plan_tool(), key) is Some,
        task_plan_tool().field("name"@) == Some(JsonModel::Text("task_plan"@)),
{
    let properties = seq![
            ("goal"@, string_schema("Concise task objective/acceptance target"@)),
            ("items"@, items_schema("Concrete implementation and verification steps"@)),
        ];
    lemma_tool_parts("task_plan"@, ABOUT_TASK_PLAN@, properties, seq!["goal"@, "items"@], key);
    lemma_argument_names();
    reveal_with_fuel(field_of, 3);
}

proof fn lemma_task_update_advertises(key: Seq<char>)
    requires
        key == "item_id"@ || key == "status"@ || key == "note"@,
    ensures
        advertised(task_update_tool(), key) is Some,
        task_update_tool().field("name"@) == Some(JsonModel::Text("task_update"@)),
{
    let properties = seq![
            ("item_id"@, string_schema("Plan item id such as T1"@)),
            ("status"@, status_schema()),
            ("note"@, string_schema("Optional evidence, result, or blocker note"@)),
        ];
    lemma_tool_parts("task_update"@, ABOUT_TASK_UPDATE@, properties, seq!["item_id"@, "status"@], key);
    lemma_argument_names();
    reveal_with_fuel(field_of, 4);
}

proof fn lemma_completion_check_advertises(key: Seq<char>)
    requires
        key == "require_task_plan"@ || key == "require_verification"@ || key == "require_changes"@,
    ensures
        advertised(completion_check_tool(), key) is Some,
        completion_check_tool().field("name"@) == Some(JsonModel::Text("completion_check"@)),
{
    let properties = seq![
            ("require_task_plan"@, boolean_schema("Require an active fully-done task plan (default true)"@)),
            ("require_verification"@, boolean_schema("Require successful verification evidence matching the current workspace revision (default true)"@)),
            ("require_changes"@, boolean_schema("Require non-clean git status (default false)"@)),
        ];
    lemma_tool_parts("completion_check"@, ABOUT_COMPLETION_CHECK@, properties, Seq::<Seq<char>>::empty(), key);
    lemma_argument_names();
    reveal_with_fuel(field_of, 4);
}

/// The tool at a place in the list has a name, and advertises an argument.
pub open spec fn takes(i: int, name: Seq<char>, key: Seq<char>) -> bool {
    &&& 0 <= i < all_tools(false).len()
    &&& object_holds(all_tools(false)[i], "name"@, JsonModel::Text(name))
    &&& advertised(all_tools(false)[i], key) is Some
}

/// What a request carries is an argument that its tool advertises.
pub proof fn lemma_carried_arguments_are_advertised(
    max_file_bytes: usize,
    command_timeout_ms: u64,
    name: Seq<char>,
    args: JsonModel,
    key: Seq<char>,
)
    requires
        carried(tool_request(max_file_bytes, command_timeout_ms, name, args), key) is Some,
    ensures
        exists|i: int| takes(i, name, key),
{
    lemma_tool_names();
    if name == "read_file"@ {
        lemma_read_file_advertises(key);
        lemma_read_value_is_held(all_tools(false)[0], "name"@);
        assert(takes(0, name, key));
    } else if name == "patch_file"@ {
        lemma_patch_file_advertises(key);
        lemma_read_value_is_held(all_tools(false)[1], "name"@);
        assert(takes(1, name, key));
    } else if name == "list_files"@ {
        lemma_list_files_advertises(key);
        lemma_read_value_is_held(all_tools(false)[2], "name"@);
        assert(takes(2, name, key));
    } else if name == "search_text"@ {
        lemma_search_text_advertises(key);
        lemma_read_value_is_held(all_tools(false)[3], "name"@);
        assert(takes(3, name, key));
    } else if name == "ast_grep"@ {
        lemma_ast_grep_advertises(key);
        lemma_read_value_is_held(all_tools(false)[4], "name"@);
        assert(takes(4, name, key));
    } else if name == "lsp_diagnostics"@ {
        lemma_lsp_diagnostics_advertises(key);
        lemma_read_value_is_held(all_tools(false)[5], "name"@);
        assert(takes(5, name, key));
    } else if name == "lsp_definition"@ {
        lemma_lsp_definition_advertises(key);
        lemma_read_value_is_held(all_tools(false)[6], "name"@);
        assert(takes(6, name, key));
    } else if name == "lsp_references"@ {
        lemma_lsp_references_advertises(key);
        lemma_read_value_is_held(all_tools(false)[7], "name"@);
        assert(takes(7, name, key));
    } else if name == "lsp_symbols"@ {
        lemma_lsp_symbols_advertises(key);
        lemma_read_value_is_held(all_tools(false)[8], "name"@);
        assert(takes(8, name, key));
    } else if name == "run_command"@ {
        lemma_run_command_advertises(key);
        lemma_read_value_is_held(all_tools(false)[9], "name"@);
        assert(takes(9, name, key));
    } else if name == "poll_command"@ {
        lemma_poll_command_advertises(key);
        lemma_read_value_is_held(all_tools(false)[10], "name"@);
        assert(takes(10, name, key));
    } else if name == "cancel_command"@ {
        lemma_cancel_command_advertises(key);
        lemma_read_value_is_held(all_tools(false)[12], "name"@);
        assert(takes(12, name, key));
    } else if name == "task_plan"@ {
        lemma_task_plan_advertises(key);
        lemma_read_value_is_held(all_tools(false)[14], "name"@);
        assert(takes(14, name, key));
    } else if name == "task_update"@ {
        lemma_task_update_advertises(key);
        lemma_read_value_is_held(all_tools(false)[15], "name"@);
        assert(takes(15, name, key));
    } else if name == "completion_check"@ {
        lemma_completion_check_advertises(key);
        lemma_read_value_is_held(all_tools(false)[17], "name"@);
        assert(takes(17, name, key));
    }
}

} // verus!
