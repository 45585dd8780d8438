//! What holds of the answers of the bridge and of what it makes known.
use crate::json::{array_of, lemma_first_field_is_held, lemma_held_value_is_read,
    lemma_lacking_value_is_not_read, number_or_null, object_holds, object_lacks, or_null, text_of,
    text_or_null, JsonModel};
use crate::security::workspace::WorkspaceMux;
use crate::server::calls::tool_request;
use crate::server::notices::{blockers_of, call_notices, command_of, completion_json,
    continuation_json, continuation_prompt, data_field, is_ready, text_lines, verification_json};
use crate::server::protocol::{bytes_or_null, call_json, call_of, call_route, count_or_null,
    finished_json, health_json, initialize_json, is_authorized, metadata, rpc_next, started_json,
    CallModel, BRIDGE_VERSION, CODING_AGENT_INSTRUCTIONS};
use crate::server::tools::all_tools;
use crate::text::{contains_text, joined, occurs_at};
use vstd::prelude::*;

verus! {

/// A bridge without a token serves every request; one with a token serves a request exactly where
/// its header is the word for a bearer and the token.
pub proof fn lemma_bearer_is_served(token: Seq<char>, header: Option<Seq<char>>)
    ensures
        is_authorized(None, header),
        is_authorized(Some(token), header) <==> header == Some("Bearer "@ + token),
{
}

/// Where a value is missing, null stands for it.
pub proof fn lemma_null_stands_for_nothing(v: JsonModel, t: Seq<char>, n: u64, key: Seq<char>)
    ensures
        or_null(Some(v)) == v,
        or_null(None) == JsonModel::Null,
        text_or_null(Some(t)) == JsonModel::Text(t),
        text_or_null(None) == JsonModel::Null,
        number_or_null(Some(n)) == JsonModel::Unsigned(n),
        number_or_null(None) == JsonModel::Null,
        data_field(Some(v), key) == v.field(key),
        data_field(None, key) is None,
{
}

/// What the bridge says of itself: that it is well, which version it is and what it mounts.
pub proof fn lemma_health_is_shown(mount_root: Seq<char>)
    ensures
        ({
            let v = health_json(mount_root);
            &&& object_holds(v, "status"@, JsonModel::Text("ok"@))
            &&& object_holds(v, "service"@, JsonModel::Text("omo-bridge"@))
            &&& object_holds(v, "version"@, JsonModel::Text(BRIDGE_VERSION@))
            &&& object_holds(v, "events"@, JsonModel::Text("/events"@))
            &&& object_holds(v, "workspace_mode"@, JsonModel::Text("multiplexed_scopes"@))
            &&& object_holds(v, "command_mode"@, JsonModel::Text("daemon_owned_async"@))
            &&& object_holds(v, "mount_root"@, JsonModel::Text(mount_root))
        }),
{
    reveal_strlit("status");
    reveal_strlit("service");
    reveal_strlit("version");
    reveal_strlit("events");
    reveal_strlit("workspace_mode");
    reveal_strlit("command_mode");
    reveal_strlit("mount_root");
    assert("status"@.len() == 6);
    assert("service"@.len() == 7);
    assert("version"@.len() == 7);
    assert("events"@.len() == 6);
    assert("workspace_mode"@.len() == 14);
    assert("command_mode"@.len() == 12);
    assert("mount_root"@.len() == 10);
    assert("status"@[0] != "events"@[0]);
    assert("service"@[0] != "version"@[0]);
    let fields = health_json(mount_root)->Object_0;
    assert(fields[0].0 == "status"@);
    assert(fields[1].0 == "service"@);
    assert(fields[2].0 == "version"@);
    assert(fields[3].0 == "events"@);
    assert(fields[4].0 == "workspace_mode"@);
    assert(fields[5].0 == "command_mode"@);
    assert(fields[6].0 == "mount_root"@);
    lemma_first_field_is_held(fields, 0, "status"@, JsonModel::Text("ok"@));
    lemma_first_field_is_held(fields, 1, "service"@, JsonModel::Text("omo-bridge"@));
    lemma_first_field_is_held(fields, 2, "version"@, JsonModel::Text(BRIDGE_VERSION@));
    lemma_first_field_is_held(fields, 3, "events"@, JsonModel::Text("/events"@));
    lemma_first_field_is_held(fields, 4, "workspace_mode"@, JsonModel::Text("multiplexed_scopes"@));
    lemma_first_field_is_held(fields, 5, "command_mode"@, JsonModel::Text("daemon_owned_async"@));
    lemma_first_field_is_held(fields, 6, "mount_root"@, JsonModel::Text(mount_root));
}

/// A worker that introduces itself is told the version of the protocol and how to work.
pub proof fn lemma_introduction_is_answered()
    ensures
        ({
            let v = initialize_json();
            &&& object_holds(v, "protocolVersion"@, JsonModel::Text("2024-11-05"@))
            &&& object_holds(v, "instructions"@, JsonModel::Text(CODING_AGENT_INSTRUCTIONS@))
        }),
{
    reveal_strlit("protocolVersion");
    reveal_strlit("capabilities");
    reveal_strlit("serverInfo");
    reveal_strlit("instructions");
    assert("protocolVersion"@.len() == 15);
    assert("capabilities"@.len() == 12);
    assert("serverInfo"@.len() == 10);
    assert("instructions"@.len() == 12);
    assert("capabilities"@[0] != "instructions"@[0]);
    let fields = initialize_json()->Object_0;
    assert(fields[0].0 == "protocolVersion"@);
    assert(fields[1].0 == "capabilities"@);
    assert(fields[2].0 == "serverInfo"@);
    assert(fields[3].0 == "instructions"@);
    lemma_first_field_is_held(fields, 0, "protocolVersion"@, JsonModel::Text("2024-11-05"@));
    lemma_first_field_is_held(fields, 3, "instructions"@, JsonModel::Text(CODING_AGENT_INSTRUCTIONS@));
}

/// What is told when a call starts: which call it is, in which scope, of which tool.
pub proof fn lemma_start_of_a_call_is_told(call_id: Seq<char>, call: CallModel)
    ensures
        ({
            let v = started_json(call_id, call);
            &&& object_holds(v, "call_id"@, JsonModel::Text(call_id))
            &&& object_holds(v, "scope_id"@, JsonModel::Text(call.scope_id))
            &&& object_holds(v, "tool"@, JsonModel::Text(call.tool))
            &&& object_holds(v, "arguments"@, JsonModel::Object(metadata(call.tool, call.arguments)))
        }),
{
    reveal_strlit("call_id");
    reveal_strlit("scope_id");
    reveal_strlit("tool");
    reveal_strlit("arguments");
    assert("call_id"@.len() == 7);
    assert("scope_id"@.len() == 8);
    assert("tool"@.len() == 4);
    assert("arguments"@.len() == 9);
    let fields = started_json(call_id, call)->Object_0;
    assert(fields[0].0 == "call_id"@);
    assert(fields[1].0 == "scope_id"@);
    assert(fields[2].0 == "tool"@);
    assert(fields[3].0 == "arguments"@);
    lemma_first_field_is_held(fields, 0, "call_id"@, JsonModel::Text(call_id));
    lemma_first_field_is_held(fields, 1, "scope_id"@, JsonModel::Text(call.scope_id));
    lemma_first_field_is_held(fields, 2, "tool"@, JsonModel::Text(call.tool));
    lemma_first_field_is_held(fields, 3, "arguments"@, JsonModel::Object(metadata(call.tool, call.arguments)));
}

/// What is told when a call ends: how it came out, and how long it took.
pub proof fn lemma_end_of_a_call_is_told(
    call_id: Seq<char>,
    call: CallModel,
    success: bool,
    error: Option<Seq<char>>,
    elapsed_ms: u64,
)
    ensures
        ({
            let v = finished_json(call_id, call, success, error, elapsed_ms);
            &&& object_holds(v, "call_id"@, JsonModel::Text(call_id))
            &&& object_holds(v, "scope_id"@, JsonModel::Text(call.scope_id))
            &&& object_holds(v, "tool"@, JsonModel::Text(call.tool))
            &&& object_holds(v, "success"@, JsonModel::Bool(success))
            &&& object_holds(v, "error"@, text_or_null(error))
            &&& object_holds(v, "duration_ms"@, JsonModel::Unsigned(elapsed_ms))
        }),
{
    reveal_strlit("call_id");
    reveal_strlit("scope_id");
    reveal_strlit("tool");
    reveal_strlit("success");
    reveal_strlit("error");
    reveal_strlit("duration_ms");
    assert("call_id"@.len() == 7);
    assert("scope_id"@.len() == 8);
    assert("tool"@.len() == 4);
    assert("success"@.len() == 7);
    assert("error"@.len() == 5);
    assert("duration_ms"@.len() == 11);
    assert("call_id"@[0] != "success"@[0]);
    let fields = finished_json(call_id, call, success, error, elapsed_ms)->Object_0;
    assert(fields[0].0 == "call_id"@);
    assert(fields[1].0 == "scope_id"@);
    assert(fields[2].0 == "tool"@);
    assert(fields[3].0 == "success"@);
    assert(fields[4].0 == "error"@);
    assert(fields[5].0 == "duration_ms"@);
    lemma_first_field_is_held(fields, 0, "call_id"@, JsonModel::Text(call_id));
    lemma_first_field_is_held(fields, 1, "scope_id"@, JsonModel::Text(call.scope_id));
    lemma_first_field_is_held(fields, 2, "tool"@, JsonModel::Text(call.tool));
    lemma_first_field_is_held(fields, 3, "success"@, JsonModel::Bool(success));
    lemma_first_field_is_held(fields, 4, "error"@, text_or_null(error));
    lemma_first_field_is_held(fields, 5, "duration_ms"@, JsonModel::Unsigned(elapsed_ms));
}

/// The result of a call is one piece of text, the text that it came to, and is marked as an error
/// exactly where the call failed.
pub proof fn lemma_result_of_a_call_is_shown(shown: Seq<char>, success: bool)
    ensures
        ({
            let v = call_json(shown, success);
            &&& object_holds(v, "isError"@, JsonModel::Bool(!success))
            &&& v.field("content"@) matches Some(JsonModel::Array(parts))
            &&& parts.len() == 1
            &&& object_holds(parts[0], "type"@, JsonModel::Text("text"@))
            &&& object_holds(parts[0], "text"@, JsonModel::Text(shown))
        }),
{
    reveal_strlit("content");
    reveal_strlit("isError");
    reveal_strlit("type");
    reveal_strlit("text");
    assert("content"@[0] != "isError"@[0]);
    assert("type"@[1] != "text"@[1]);
    let fields = call_json(shown, success)->Object_0;
    assert(fields[0].0 == "content"@);
    lemma_first_field_is_held(fields, 0, "content"@, fields[0].1);
    lemma_first_field_is_held(fields, 1, "isError"@, JsonModel::Bool(!success));
    let part = fields[0].1->Array_0[0]->Object_0;
    assert(part[0].0 == "type"@);
    lemma_first_field_is_held(part, 0, "type"@, JsonModel::Text("text"@));
    lemma_first_field_is_held(part, 1, "text"@, JsonModel::Text(shown));
}

/// Every request but a call is answered under its own id, with a result or an error and never
/// both; only a method that there is not gets an error, and the error names the method.
pub proof fn lemma_requests_are_answered(
    method: Seq<char>,
    id: Option<JsonModel>,
    params: Option<JsonModel>,
    subagent_enabled: bool,
)
    ensures
        ({
            let step = rpc_next(method, id, params, subagent_enabled);
            let known = method == "initialize"@ || method == "tools/list"@ || method == "ping"@
                || method == "notifications/initialized"@;
            &&& step is Call <==> method == "tools/call"@
            &&& step is Respond ==> {
                let r = step->Respond_0;
                &&& r.jsonrpc == "2.0"@
                &&& r.id == id
                &&& r.result is Some <==> known
                &&& r.error is Some <==> !known
                &&& method == "initialize"@ ==> r.result == Some(initialize_json())
                &&& method == "tools/list"@ ==> object_holds(
                    r.result->0,
                    "tools"@,
                    JsonModel::Array(all_tools(subagent_enabled)),
                )
                &&& !known ==> {
                    &&& object_holds(r.error->0, "code"@, JsonModel::Negative((-32601) as i64))
                    &&& object_holds(
                        r.error->0,
                        "message"@,
                        JsonModel::Text("Method '"@ + method + "' not found"@),
                    )
                }
            }
        }),
{
    reveal_strlit("initialize");
    reveal_strlit("tools/list");
    reveal_strlit("tools/call");
    reveal_strlit("ping");
    reveal_strlit("notifications/initialized");
    assert("initialize"@.len() == 10);
    assert("tools/list"@.len() == 10);
    assert("tools/call"@.len() == 10);
    assert("ping"@.len() == 4);
    assert("notifications/initialized"@.len() == 25);
    assert("initialize"@[0] != "tools/list"@[0]);
    assert("initialize"@[0] != "tools/call"@[0]);
    assert("tools/list"@[6] != "tools/call"@[6]);
    reveal_strlit("code");
    reveal_strlit("message");
    assert("code"@.len() == 4 && "message"@.len() == 7);
    let step = rpc_next(method, id, params, subagent_enabled);
    if step is Respond {
        let r = step->Respond_0;
        if method == "tools/list"@ {
            lemma_first_field_is_held(
                r.result->0->Object_0,
                0,
                "tools"@,
                JsonModel::Array(all_tools(subagent_enabled)),
            );
        } else if r.error is Some {
            let fields = r.error->0->Object_0;
            assert(fields[0].0 == "code"@);
            lemma_first_field_is_held(fields, 0, "code"@, JsonModel::Negative((-32601) as i64));
            lemma_first_field_is_held(
                fields,
                1,
                "message"@,
                JsonModel::Text("Method '"@ + method + "' not found"@),
            );
        }
    }
}

/// A call asks for the tool, with the arguments and in the scope, that its parameters hold; where
/// they hold none, it has no name, no arguments and no scope.
pub proof fn lemma_calls_are_read(
    params: JsonModel,
    name: Seq<char>,
    args: JsonModel,
    scope_id: Seq<char>,
)
    ensures
        object_holds(params, "name"@, JsonModel::Text(name)) ==> call_of(Some(params)).tool == name,
        object_lacks(params, "name"@) ==> call_of(Some(params)).tool == ""@,
        object_holds(params, "arguments"@, args) ==> {
            &&& call_of(Some(params)).arguments == args
            &&& object_holds(args, "scope_id"@, JsonModel::Text(scope_id)) ==> call_of(
                Some(params),
            ).scope_id == scope_id
            &&& object_lacks(args, "scope_id"@) ==> call_of(Some(params)).scope_id == ""@
        },
        object_lacks(params, "arguments"@) ==> {
            &&& call_of(Some(params)).arguments == JsonModel::Object(Seq::empty())
            &&& call_of(Some(params)).scope_id == ""@
        },
        call_of(None).tool == ""@ && call_of(None).scope_id == ""@,
{
    if object_holds(params, "name"@, JsonModel::Text(name)) {
        lemma_held_value_is_read(params, "name"@, JsonModel::Text(name));
    }
    if object_lacks(params, "name"@) {
        lemma_lacking_value_is_not_read(params, "name"@);
    }
    if object_holds(params, "arguments"@, args) {
        lemma_held_value_is_read(params, "arguments"@, args);
        if object_holds(args, "scope_id"@, JsonModel::Text(scope_id)) {
            lemma_held_value_is_read(args, "scope_id"@, JsonModel::Text(scope_id));
        }
        if object_lacks(args, "scope_id"@) {
            lemma_lacking_value_is_not_read(args, "scope_id"@);
        }
    }
    if object_lacks(params, "arguments"@) {
        lemma_lacking_value_is_not_read(params, "arguments"@);
    }
    let none = JsonModel::Object(Seq::<(Seq<char>, JsonModel)>::empty());
    lemma_lacking_value_is_not_read(none, "scope_id"@);
    lemma_lacking_value_is_not_read(JsonModel::Null, "name"@);
    lemma_lacking_value_is_not_read(JsonModel::Null, "arguments"@);
}

/// In a known scope a call goes where its tool says: a question to the advisory model goes there
/// with its own words and time, and every other call to its tool.
pub proof fn lemma_calls_go_to_their_tool(
    mux: WorkspaceMux,
    max_file_bytes: usize,
    command_timeout_ms: u64,
    call: CallModel,
)
    requires
        call.scope_id.len() > 0,
        mux.found(call.scope_id) is Ok,
    ensures
        ({
            let r = call_route(mux, max_file_bytes, command_timeout_ms, call);
            &&& r is Subagent <==> call.tool == "query_subagent"@
            &&& r is Tool <==> call.tool != "query_subagent"@
            &&& r is Tool ==> r->Tool_0 == tool_request(
                max_file_bytes,
                command_timeout_ms,
                call.tool,
                call.arguments,
            )
            &&& r is Subagent ==> {
                &&& forall|p: Seq<char>| #[trigger]
                    object_holds(call.arguments, "prompt"@, JsonModel::Text(p)) ==> r->prompt
                        == Some(p)
                &&& forall|t: JsonModel| #[trigger]
                    object_holds(call.arguments, "timeout_ms"@, t) ==> r->timeout_ms == Some(t)
                &&& object_lacks(call.arguments, "prompt"@) ==> r->prompt is None
                &&& object_lacks(call.arguments, "timeout_ms"@) ==> r->timeout_ms is None
            }
        }),
{
    assert forall|p: Seq<char>| #[trigger]
        object_holds(call.arguments, "prompt"@, JsonModel::Text(p)) implies call.arguments.field(
        "prompt"@,
    ) == Some(JsonModel::Text(p)) by {
        lemma_held_value_is_read(call.arguments, "prompt"@, JsonModel::Text(p));
    }
    assert forall|t: JsonModel| #[trigger]
        object_holds(call.arguments, "timeout_ms"@, t) implies call.arguments.field("timeout_ms"@)
        == Some(t) by {
        lemma_held_value_is_read(call.arguments, "timeout_ms"@, t);
    }
    if object_lacks(call.arguments, "prompt"@) {
        lemma_lacking_value_is_not_read(call.arguments, "prompt"@);
    }
    if object_lacks(call.arguments, "timeout_ms"@) {
        lemma_lacking_value_is_not_read(call.arguments, "timeout_ms"@);
    }
}

/// Some arguments of a call are told as they are: under the same name, with the same value.
pub open spec fn tells(name: Seq<char>, args: JsonModel, key: Seq<char>) -> bool {
    object_holds(JsonModel::Object(metadata(name, args)), key, or_null(args.field(key)))
}

proof fn lemma_told_names()
    ensures
        "read_file"@ != "list_files"@,
        "read_file"@ != "search_text"@,
        "read_file"@ != "ast_grep"@,
        "read_file"@ != "lsp_diagnostics"@,
        "read_file"@ != "lsp_symbols"@,
        "read_file"@ != "lsp_definition"@,
        "read_file"@ != "lsp_references"@,
        "read_file"@ != "run_command"@,
        "read_file"@ != "poll_command"@,
        "read_file"@ != "cancel_command"@,
        "read_file"@ != "completion_check"@,
        "read_file"@ != "patch_file"@,
        "read_file"@ != "task_plan"@,
        "read_file"@ != "task_update"@,
        "read_file"@ != "query_subagent"@,
        "list_files"@ != "search_text"@,
        "list_files"@ != "ast_grep"@,
        "list_files"@ != "lsp_diagnostics"@,
        "list_files"@ != "lsp_symbols"@,
        "list_files"@ != "lsp_definition"@,
        "list_files"@ != "lsp_references"@,
        "list_files"@ != "run_command"@,
        "list_files"@ != "poll_command"@,
        "list_files"@ != "cancel_command"@,
        "list_files"@ != "completion_check"@,
        "list_files"@ != "patch_file"@,
        "list_files"@ != "task_plan"@,
        "list_files"@ != "task_update"@,
        "list_files"@ != "query_subagent"@,
        "search_text"@ != "ast_grep"@,
        "search_text"@ != "lsp_diagnostics"@,
        "search_text"@ != "lsp_symbols"@,
        "search_text"@ != "lsp_definition"@,
        "search_text"@ != "lsp_references"@,
        "search_text"@ != "run_command"@,
        "search_text"@ != "poll_command"@,
        "search_text"@ != "cancel_command"@,
        "search_text"@ != "completion_check"@,
        "search_text"@ != "patch_file"@,
        "search_text"@ != "task_plan"@,
        "search_text"@ != "task_update"@,
        "search_text"@ != "query_subagent"@,
        "ast_grep"@ != "lsp_diagnostics"@,
        "ast_grep"@ != "lsp_symbols"@,
        "ast_grep"@ != "lsp_definition"@,
        "ast_grep"@ != "lsp_references"@,
        "ast_grep"@ != "run_command"@,
        "ast_grep"@ != "poll_command"@,
        "ast_grep"@ != "cancel_command"@,
        "ast_grep"@ != "completion_check"@,
        "ast_grep"@ != "patch_file"@,
        "ast_grep"@ != "task_plan"@,
        "ast_grep"@ != "task_update"@,
        "ast_grep"@ != "query_subagent"@,
        "lsp_diagnostics"@ != "lsp_symbols"@,
        "lsp_diagnostics"@ != "lsp_definition"@,
        "lsp_diagnostics"@ != "lsp_references"@,
        "lsp_diagnostics"@ != "run_command"@,
        "lsp_diagnostics"@ != "poll_command"@,
        "lsp_diagnostics"@ != "cancel_command"@,
        "lsp_diagnostics"@ != "completion_check"@,
        "lsp_diagnostics"@ != "patch_file"@,
        "lsp_diagnostics"@ != "task_plan"@,
        "lsp_diagnostics"@ != "task_update"@,
        "lsp_diagnostics"@ != "query_subagent"@,
        "lsp_symbols"@ != "lsp_definition"@,
        "lsp_symbols"@ != "lsp_references"@,
        "lsp_symbols"@ != "run_command"@,
        "lsp_symbols"@ != "poll_command"@,
        "lsp_symbols"@ != "cancel_command"@,
        "lsp_symbols"@ != "completion_check"@,
        "lsp_symbols"@ != "patch_file"@,
        "lsp_symbols"@ != "task_plan"@,
        "lsp_symbols"@ != "task_update"@,
        "lsp_symbols"@ != "query_subagent"@,
        "lsp_definition"@ != "lsp_references"@,
        "lsp_definition"@ != "run_command"@,
        "lsp_definition"@ != "poll_command"@,
        "lsp_definition"@ != "cancel_command"@,
        "lsp_definition"@ != "completion_check"@,
        "lsp_definition"@ != "patch_file"@,
        "lsp_definition"@ != "task_plan"@,
        "lsp_definition"@ != "task_update"@,
        "lsp_definition"@ != "query_subagent"@,
        "lsp_references"@ != "run_command"@,
        "lsp_references"@ != "poll_command"@,
        "lsp_references"@ != "cancel_command"@,
        "lsp_references"@ != "completion_check"@,
        "lsp_references"@ != "patch_file"@,
        "lsp_references"@ != "task_plan"@,
        "lsp_references"@ != "task_update"@,
        "lsp_references"@ != "query_subagent"@,
        "run_command"@ != "poll_command"@,
        "run_command"@ != "cancel_command"@,
        "run_command"@ != "completion_check"@,
        "run_command"@ != "patch_file"@,
        "run_command"@ != "task_plan"@,
        "run_command"@ != "task_update"@,
        "run_command"@ != "query_subagent"@,
        "poll_command"@ != "cancel_command"@,
        "poll_command"@ != "completion_check"@,
        "poll_command"@ != "patch_file"@,
        "poll_command"@ != "task_plan"@,
        "poll_command"@ != "task_update"@,
        "poll_command"@ != "query_subagent"@,
        "cancel_command"@ != "completion_check"@,
        "cancel_command"@ != "patch_file"@,
        "cancel_command"@ != "task_plan"@,
        "cancel_command"@ != "task_update"@,
        "cancel_command"@ != "query_subagent"@,
        "completion_check"@ != "patch_file"@,
        "completion_check"@ != "task_plan"@,
        "completion_check"@ != "task_update"@,
        "completion_check"@ != "query_subagent"@,
        "patch_file"@ != "task_plan"@,
        "patch_file"@ != "task_update"@,
        "patch_file"@ != "query_subagent"@,
        "task_plan"@ != "task_update"@,
        "task_plan"@ != "query_subagent"@,
        "task_update"@ != "query_subagent"@,
{
    reveal_strlit("read_file");
    reveal_strlit("list_files");
    reveal_strlit("search_text");
    reveal_strlit("ast_grep");
    reveal_strlit("lsp_diagnostics");
    reveal_strlit("lsp_symbols");
    reveal_strlit("lsp_definition");
    reveal_strlit("lsp_references");
    reveal_strlit("run_command");
    reveal_strlit("poll_command");
    reveal_strlit("cancel_command");
    reveal_strlit("completion_check");
    reveal_strlit("patch_file");
    reveal_strlit("task_plan");
    reveal_strlit("task_update");
    reveal_strlit("query_subagent");
    assert("read_file"@.len() == 9);
    assert("list_files"@.len() == 10);
    assert("search_text"@.len() == 11);
    assert("ast_grep"@.len() == 8);
    assert("lsp_diagnostics"@.len() == 15);
    assert("lsp_symbols"@.len() == 11);
    assert("lsp_definition"@.len() == 14);
    assert("lsp_references"@.len() == 14);
    assert("run_command"@.len() == 11);
    assert("poll_command"@.len() == 12);
    assert("cancel_command"@.len() == 14);
    assert("completion_check"@.len() == 16);
    assert("patch_file"@.len() == 10);
    assert("task_plan"@.len() == 9);
    assert("task_update"@.len() == 11);
    assert("query_subagent"@.len() == 14);
    assert("read_file"@[0] != "task_plan"@[0]);
    assert("list_files"@[0] != "patch_file"@[0]);
    assert("search_text"@[0] != "lsp_symbols"@[0]);
    assert("search_text"@[0] != "run_command"@[0]);
    assert("search_text"@[0] != "task_update"@[0]);
    assert("lsp_symbols"@[0] != "run_command"@[0]);
    assert("lsp_symbols"@[0] != "task_update"@[0]);
    assert("lsp_definition"@[4] != "lsp_references"@[4]);
    assert("lsp_definition"@[0] != "cancel_command"@[0]);
    assert("lsp_definition"@[0] != "query_subagent"@[0]);
    assert("lsp_references"@[0] != "cancel_command"@[0]);
    assert("lsp_references"@[0] != "query_subagent"@[0]);
    assert("run_command"@[0] != "task_update"@[0]);
    assert("cancel_command"@[0] != "query_subagent"@[0]);
}

proof fn lemma_read_file_is_told(args: JsonModel)
    ensures
        tells("read_file"@, args, "path"@),
        tells("read_file"@, args, "start_line"@),
        tells("read_file"@, args, "max_lines"@),
        metadata("read_file"@, args).len() == 3,
{
    lemma_told_names();
    reveal_strlit("path");
    reveal_strlit("start_line");
    reveal_strlit("max_lines");
    assert("path"@.len() == 4);
    assert("start_line"@.len() == 10);
    assert("max_lines"@.len() == 9);
    let fields = metadata("read_file"@, args);
    assert(fields[0].0 == "path"@);
    assert(fields[1].0 == "start_line"@);
    assert(fields[2].0 == "max_lines"@);
    lemma_first_field_is_held(fields, 0, "path"@, or_null(args.field("path"@)));
    lemma_first_field_is_held(fields, 1, "start_line"@, or_null(args.field("start_line"@)));
    lemma_first_field_is_held(fields, 2, "max_lines"@, or_null(args.field("max_lines"@)));
}

proof fn lemma_list_files_is_told(args: JsonModel)
    ensures
        tells("list_files"@, args, "path"@),
        tells("list_files"@, args, "max_depth"@),
        tells("list_files"@, args, "limit"@),
        metadata("list_files"@, args).len() == 3,
{
    lemma_told_names();
    reveal_strlit("path");
    reveal_strlit("max_depth");
    reveal_strlit("limit");
    assert("path"@.len() == 4);
    assert("max_depth"@.len() == 9);
    assert("limit"@.len() == 5);
    let fields = metadata("list_files"@, args);
    assert(fields[0].0 == "path"@);
    assert(fields[1].0 == "max_depth"@);
    assert(fields[2].0 == "limit"@);
    lemma_first_field_is_held(fields, 0, "path"@, or_null(args.field("path"@)));
    lemma_first_field_is_held(fields, 1, "max_depth"@, or_null(args.field("max_depth"@)));
    lemma_first_field_is_held(fields, 2, "limit"@, or_null(args.field("limit"@)));
}

proof fn lemma_search_text_is_told(args: JsonModel)
    ensures
        tells("search_text"@, args, "query"@),
        tells("search_text"@, args, "path"@),
        tells("search_text"@, args, "case_sensitive"@),
        tells("search_text"@, args, "max_results"@),
        metadata("search_text"@, args).len() == 4,
{
    lemma_told_names();
    reveal_strlit("query");
    reveal_strlit("path");
    reveal_strlit("case_sensitive");
    reveal_strlit("max_results");
    assert("query"@.len() == 5);
    assert("path"@.len() == 4);
    assert("case_sensitive"@.len() == 14);
    assert("max_results"@.len() == 11);
    let fields = metadata("search_text"@, args);
    assert(fields[0].0 == "query"@);
    assert(fields[1].0 == "path"@);
    assert(fields[2].0 == "case_sensitive"@);
    assert(fields[3].0 == "max_results"@);
    lemma_first_field_is_held(fields, 0, "query"@, or_null(args.field("query"@)));
    lemma_first_field_is_held(fields, 1, "path"@, or_null(args.field("path"@)));
    lemma_first_field_is_held(fields, 2, "case_sensitive"@, or_null(args.field("case_sensitive"@)));
    lemma_first_field_is_held(fields, 3, "max_results"@, or_null(args.field("max_results"@)));
}

proof fn lemma_ast_grep_is_told(args: JsonModel)
    ensures
        tells("ast_grep"@, args, "pattern"@),
        tells("ast_grep"@, args, "path"@),
        tells("ast_grep"@, args, "language"@),
        tells("ast_grep"@, args, "max_results"@),
        metadata("ast_grep"@, args).len() == 4,
{
    lemma_told_names();
    reveal_strlit("pattern");
    reveal_strlit("path");
    reveal_strlit("language");
    reveal_strlit("max_results");
    assert("pattern"@.len() == 7);
    assert("path"@.len() == 4);
    assert("language"@.len() == 8);
    assert("max_results"@.len() == 11);
    let fields = metadata("ast_grep"@, args);
    assert(fields[0].0 == "pattern"@);
    assert(fields[1].0 == "path"@);
    assert(fields[2].0 == "language"@);
    assert(fields[3].0 == "max_results"@);
    lemma_first_field_is_held(fields, 0, "pattern"@, or_null(args.field("pattern"@)));
    lemma_first_field_is_held(fields, 1, "path"@, or_null(args.field("path"@)));
    lemma_first_field_is_held(fields, 2, "language"@, or_null(args.field("language"@)));
    lemma_first_field_is_held(fields, 3, "max_results"@, or_null(args.field("max_results"@)));
}

proof fn lemma_lsp_diagnostics_is_told(args: JsonModel)
    ensures
        tells("lsp_diagnostics"@, args, "path"@),
        tells("lsp_diagnostics"@, args, "timeout_ms"@),
        metadata("lsp_diagnostics"@, args).len() == 2,
{
    lemma_told_names();
    reveal_strlit("path");
    reveal_strlit("timeout_ms");
    assert("path"@.len() == 4);
    assert("timeout_ms"@.len() == 10);
    let fields = metadata("lsp_diagnostics"@, args);
    assert(fields[0].0 == "path"@);
    assert(fields[1].0 == "timeout_ms"@);
    lemma_first_field_is_held(fields, 0, "path"@, or_null(args.field("path"@)));
    lemma_first_field_is_held(fields, 1, "timeout_ms"@, or_null(args.field("timeout_ms"@)));
}

proof fn lemma_lsp_symbols_is_told(args: JsonModel)
    ensures
        tells("lsp_symbols"@, args, "path"@),
        tells("lsp_symbols"@, args, "timeout_ms"@),
        metadata("lsp_symbols"@, args).len() == 2,
{
    lemma_told_names();
    reveal_strlit("path");
    reveal_strlit("timeout_ms");
    assert("path"@.len() == 4);
    assert("timeout_ms"@.len() == 10);
    let fields = metadata("lsp_symbols"@, args);
    assert(fields[0].0 == "path"@);
    assert(fields[1].0 == "timeout_ms"@);
    lemma_first_field_is_held(fields, 0, "path"@, or_null(args.field("path"@)));
    lemma_first_field_is_held(fields, 1, "timeout_ms"@, or_null(args.field("timeout_ms"@)));
}

proof fn lemma_lsp_definition_is_told(args: JsonModel)
    ensures
        tells("lsp_definition"@, args, "path"@),
        tells("lsp_definition"@, args, "line"@),
        tells("lsp_definition"@, args, "character"@),
        tells("lsp_definition"@, args, "timeout_ms"@),
        metadata("lsp_definition"@, args).len() == 4,
{
    lemma_told_names();
    reveal_strlit("path");
    reveal_strlit("line");
    reveal_strlit("character");
    reveal_strlit("timeout_ms");
    assert("path"@.len() == 4);
    assert("line"@.len() == 4);
    assert("character"@.len() == 9);
    assert("timeout_ms"@.len() == 10);
    assert("path"@[0] != "line"@[0]);
    let fields = metadata("lsp_definition"@, args);
    assert(fields[0].0 == "path"@);
    assert(fields[1].0 == "line"@);
    assert(fields[2].0 == "character"@);
    assert(fields[3].0 == "timeout_ms"@);
    lemma_first_field_is_held(fields, 0, "path"@, or_null(args.field("path"@)));
    lemma_first_field_is_held(fields, 1, "line"@, or_null(args.field("line"@)));
    lemma_first_field_is_held(fields, 2, "character"@, or_null(args.field("character"@)));
    lemma_first_field_is_held(fields, 3, "timeout_ms"@, or_null(args.field("timeout_ms"@)));
}

proof fn lemma_lsp_references_is_told(args: JsonModel)
    ensures
        tells("lsp_references"@, args, "path"@),
        tells("lsp_references"@, args, "line"@),
        tells("lsp_references"@, args, "character"@),
        tells("lsp_references"@, args, "timeout_ms"@),
        metadata("lsp_references"@, args).len() == 4,
{
    lemma_told_names();
    reveal_strlit("path");
    reveal_strlit("line");
    reveal_strlit("character");
    reveal_strlit("timeout_ms");
    assert("path"@.len() == 4);
    assert("line"@.len() == 4);
    assert("character"@.len() == 9);
    assert("timeout_ms"@.len() == 10);
    assert("path"@[0] != "line"@[0]);
    let fields = metadata("lsp_references"@, args);
    assert(fields[0].0 == "path"@);
    assert(fields[1].0 == "line"@);
    assert(fields[2].0 == "character"@);
    assert(fields[3].0 == "timeout_ms"@);
    lemma_first_field_is_held(fields, 0, "path"@, or_null(args.field("path"@)));
    lemma_first_field_is_held(fields, 1, "line"@, or_null(args.field("line"@)));
    lemma_first_field_is_held(fields, 2, "character"@, or_null(args.field("character"@)));
    lemma_first_field_is_held(fields, 3, "timeout_ms"@, or_null(args.field("timeout_ms"@)));
}

proof fn lemma_run_command_is_told(args: JsonModel)
    ensures
        tells("run_command"@, args, "command"@),
        tells("run_command"@, args, "timeout_ms"@),
        tells("run_command"@, args, "client_request_id"@),
        metadata("run_command"@, args).len() == 3,
{
    lemma_told_names();
    reveal_strlit("command");
    reveal_strlit("timeout_ms");
    reveal_strlit("client_request_id");
    assert("command"@.len() == 7);
    assert("timeout_ms"@.len() == 10);
    assert("client_request_id"@.len() == 17);
    let fields = metadata("run_command"@, args);
    assert(fields[0].0 == "command"@);
    assert(fields[1].0 == "timeout_ms"@);
    assert(fields[2].0 == "client_request_id"@);
    lemma_first_field_is_held(fields, 0, "command"@, or_null(args.field("command"@)));
    lemma_first_field_is_held(fields, 1, "timeout_ms"@, or_null(args.field("timeout_ms"@)));
    lemma_first_field_is_held(fields, 2, "client_request_id"@, or_null(args.field("client_request_id"@)));
}

proof fn lemma_poll_command_is_told(args: JsonModel)
    ensures
        tells("poll_command"@, args, "command_id"@),
        tells("poll_command"@, args, "wait_timeout_ms"@),
        metadata("poll_command"@, args).len() == 2,
{
    lemma_told_names();
    reveal_strlit("command_id");
    reveal_strlit("wait_timeout_ms");
    assert("command_id"@.len() == 10);
    assert("wait_timeout_ms"@.len() == 15);
    let fields = metadata("poll_command"@, args);
    assert(fields[0].0 == "command_id"@);
    assert(fields[1].0 == "wait_timeout_ms"@);
    lemma_first_field_is_held(fields, 0, "command_id"@, or_null(args.field("command_id"@)));
    lemma_first_field_is_held(fields, 1, "wait_timeout_ms"@, or_null(args.field("wait_timeout_ms"@)));
}

proof fn lemma_cancel_command_is_told(args: JsonModel)
    ensures
        tells("cancel_command"@, args, "command_id"@),
        metadata("cancel_command"@, args).len() == 1,
{
    lemma_told_names();
    reveal_strlit("command_id");
    assert("command_id"@.len() == 10);
    let fields = metadata("cancel_command"@, args);
    assert(fields[0].0 == "command_id"@);
    lemma_first_field_is_held(fields, 0, "command_id"@, or_null(args.field("command_id"@)));
}

proof fn lemma_completion_check_is_told(args: JsonModel)
    ensures
        tells("completion_check"@, args, "require_task_plan"@),
        tells("completion_check"@, args, "require_verification"@),
        tells("completion_check"@, args, "require_changes"@),
        metadata("completion_check"@, args).len() == 3,
{
    lemma_told_names();
    reveal_strlit("require_task_plan");
    reveal_strlit("require_verification");
    reveal_strlit("require_changes");
    assert("require_task_plan"@.len() == 17);
    assert("require_verification"@.len() == 20);
    assert("require_changes"@.len() == 15);
    let fields = metadata("completion_check"@, args);
    assert(fields[0].0 == "require_task_plan"@);
    assert(fields[1].0 == "require_verification"@);
    assert(fields[2].0 == "require_changes"@);
    lemma_first_field_is_held(fields, 0, "require_task_plan"@, or_null(args.field("require_task_plan"@)));
    lemma_first_field_is_held(fields, 1, "require_verification"@, or_null(args.field("require_verification"@)));
    lemma_first_field_is_held(fields, 2, "require_changes"@, or_null(args.field("require_changes"@)));
}

/// What is told of the arguments of a call: where the tool looks and how much it may return, which
/// command runs, and what completion asks for.
pub proof fn lemma_arguments_are_told(args: JsonModel)
    ensures
        tells("read_file"@, args, "path"@),
        tells("read_file"@, args, "start_line"@),
        tells("read_file"@, args, "max_lines"@),
        tells("list_files"@, args, "path"@),
        tells("list_files"@, args, "max_depth"@),
        tells("list_files"@, args, "limit"@),
        tells("search_text"@, args, "query"@),
        tells("search_text"@, args, "path"@),
        tells("search_text"@, args, "case_sensitive"@),
        tells("search_text"@, args, "max_results"@),
        tells("ast_grep"@, args, "pattern"@),
        tells("ast_grep"@, args, "path"@),
        tells("ast_grep"@, args, "language"@),
        tells("ast_grep"@, args, "max_results"@),
        tells("lsp_diagnostics"@, args, "path"@),
        tells("lsp_diagnostics"@, args, "timeout_ms"@),
        tells("lsp_symbols"@, args, "path"@),
        tells("lsp_symbols"@, args, "timeout_ms"@),
        tells("lsp_definition"@, args, "path"@),
        tells("lsp_definition"@, args, "line"@),
        tells("lsp_definition"@, args, "character"@),
        tells("lsp_definition"@, args, "timeout_ms"@),
        tells("lsp_references"@, args, "path"@),
        tells("lsp_references"@, args, "line"@),
        tells("lsp_references"@, args, "character"@),
        tells("lsp_references"@, args, "timeout_ms"@),
        tells("run_command"@, args, "command"@),
        tells("run_command"@, args, "timeout_ms"@),
        tells("run_command"@, args, "client_request_id"@),
        tells("poll_command"@, args, "command_id"@),
        tells("poll_command"@, args, "wait_timeout_ms"@),
        tells("cancel_command"@, args, "command_id"@),
        tells("completion_check"@, args, "require_task_plan"@),
        tells("completion_check"@, args, "require_verification"@),
        tells("completion_check"@, args, "require_changes"@),
{
    lemma_read_file_is_told(args);
    lemma_list_files_is_told(args);
    lemma_search_text_is_told(args);
    lemma_ast_grep_is_told(args);
    lemma_lsp_diagnostics_is_told(args);
    lemma_lsp_symbols_is_told(args);
    lemma_lsp_definition_is_told(args);
    lemma_lsp_references_is_told(args);
    lemma_run_command_is_told(args);
    lemma_poll_command_is_told(args);
    lemma_cancel_command_is_told(args);
    lemma_completion_check_is_told(args);
}

/// What is told of a patch, a plan, an update and a question: no words, only whether and how much.
pub proof fn lemma_contents_are_counted(args: JsonModel)
    ensures
        tells("patch_file"@, args, "path"@),
        tells("task_plan"@, args, "goal"@),
        tells("task_update"@, args, "item_id"@),
        tells("task_update"@, args, "status"@),
        tells("query_subagent"@, args, "timeout_ms"@),
        object_holds(
            JsonModel::Object(metadata("patch_file"@, args)),
            "has_precondition"@,
            JsonModel::Bool(args.field("expected_sha256"@) is Some),
        ),
        object_holds(
            JsonModel::Object(metadata("patch_file"@, args)),
            "content_bytes"@,
            bytes_or_null(args, "content"@),
        ),
        object_holds(
            JsonModel::Object(metadata("task_plan"@, args)),
            "item_count"@,
            count_or_null(args, "items"@),
        ),
        object_holds(
            JsonModel::Object(metadata("task_update"@, args)),
            "has_note"@,
            JsonModel::Bool(args.field("note"@) is Some),
        ),
        object_holds(
            JsonModel::Object(metadata("query_subagent"@, args)),
            "prompt_bytes"@,
            bytes_or_null(args, "prompt"@),
        ),
        forall|k: Seq<char>, t: Seq<char>| #[trigger]
            object_holds(args, k, JsonModel::Text(t)) ==> bytes_or_null(args, k)
                == JsonModel::Unsigned(vstd::utf8::encode_utf8(t).len() as u64),
        forall|k: Seq<char>, v: Seq<JsonModel>| #[trigger]
            object_holds(args, k, JsonModel::Array(v)) ==> count_or_null(args, k)
                == JsonModel::Unsigned(v.len() as u64),
{
    lemma_told_names();
    reveal_strlit("path");
    reveal_strlit("has_precondition");
    reveal_strlit("content_bytes");
    reveal_strlit("goal");
    reveal_strlit("item_count");
    reveal_strlit("item_id");
    reveal_strlit("status");
    reveal_strlit("has_note");
    reveal_strlit("prompt_bytes");
    reveal_strlit("timeout_ms");
    assert("path"@.len() == 4);
    assert("has_precondition"@.len() == 16);
    assert("content_bytes"@.len() == 13);
    assert("goal"@.len() == 4);
    assert("item_count"@.len() == 10);
    assert("item_id"@.len() == 7);
    assert("status"@.len() == 6);
    assert("has_note"@.len() == 8);
    assert("prompt_bytes"@.len() == 12);
    assert("timeout_ms"@.len() == 10);
    assert("path"@[0] != "goal"@[0]);
    assert("item_count"@[0] != "timeout_ms"@[0]);
    let file = metadata("patch_file"@, args);
    assert(file[0].0 == "path"@);
    assert(file[1].0 == "has_precondition"@);
    assert(file[2].0 == "content_bytes"@);
    lemma_first_field_is_held(file, 0, "path"@, or_null(args.field("path"@)));
    lemma_first_field_is_held(file, 1, "has_precondition"@, JsonModel::Bool(args.field("expected_sha256"@) is Some));
    lemma_first_field_is_held(file, 2, "content_bytes"@, bytes_or_null(args, "content"@));
    let plan = metadata("task_plan"@, args);
    assert(plan[0].0 == "goal"@);
    assert(plan[1].0 == "item_count"@);
    lemma_first_field_is_held(plan, 0, "goal"@, or_null(args.field("goal"@)));
    lemma_first_field_is_held(plan, 1, "item_count"@, count_or_null(args, "items"@));
    let update = metadata("task_update"@, args);
    assert(update[0].0 == "item_id"@);
    assert(update[1].0 == "status"@);
    assert(update[2].0 == "has_note"@);
    lemma_first_field_is_held(update, 0, "item_id"@, or_null(args.field("item_id"@)));
    lemma_first_field_is_held(update, 1, "status"@, or_null(args.field("status"@)));
    lemma_first_field_is_held(update, 2, "has_note"@, JsonModel::Bool(args.field("note"@) is Some));
    let subagent = metadata("query_subagent"@, args);
    assert(subagent[0].0 == "prompt_bytes"@);
    assert(subagent[1].0 == "timeout_ms"@);
    lemma_first_field_is_held(subagent, 0, "prompt_bytes"@, bytes_or_null(args, "prompt"@));
    lemma_first_field_is_held(subagent, 1, "timeout_ms"@, or_null(args.field("timeout_ms"@)));
    assert forall|k: Seq<char>, t: Seq<char>| #[trigger]
        object_holds(args, k, JsonModel::Text(t)) implies text_of(args.field(k)) == Some(t) by {
        lemma_held_value_is_read(args, k, JsonModel::Text(t));
    }
    assert forall|k: Seq<char>, v: Seq<JsonModel>| #[trigger]
        object_holds(args, k, JsonModel::Array(v)) implies array_of(args.field(k)) == Some(v) by {
        lemma_held_value_is_read(args, k, JsonModel::Array(v));
    }
}

/// What is made known of a command that verifies the work: what ran, and how it came out.
pub proof fn lemma_verification_is_told(
    scope_id: Seq<char>,
    command: Seq<char>,
    data: Option<JsonModel>,
    error: Option<Seq<char>>,
)
    ensures
        ({
            let v = verification_json(scope_id, command, data, error);
            &&& object_holds(v, "scope_id"@, JsonModel::Text(scope_id))
            &&& object_holds(v, "command_id"@, or_null(data_field(data, "command_id"@)))
            &&& object_holds(v, "command"@, JsonModel::Text(command))
            &&& object_holds(v, "status"@, or_null(data_field(data, "status"@)))
            &&& object_holds(v, "command_success"@, JsonModel::Bool(data_field(data, "command_success"@) == Some(JsonModel::Bool(true))))
            &&& object_holds(v, "exit_code"@, or_null(data_field(data, "exit_code"@)))
            &&& object_holds(v, "duration_ms"@, or_null(data_field(data, "elapsed_ms"@)))
            &&& object_holds(v, "timed_out"@, JsonModel::Bool(data_field(data, "timed_out"@) == Some(JsonModel::Bool(true))))
            &&& object_holds(v, "workspace_revision"@, or_null(data_field(data, "workspace_revision"@)))
            &&& object_holds(v, "evidence_status"@, or_null(data_field(data, "evidence_status"@)))
            &&& object_holds(v, "tool_error"@, text_or_null(error))
        }),
{
    reveal_strlit("scope_id");
    reveal_strlit("command_id");
    reveal_strlit("command");
    reveal_strlit("status");
    reveal_strlit("command_success");
    reveal_strlit("exit_code");
    reveal_strlit("duration_ms");
    reveal_strlit("timed_out");
    reveal_strlit("workspace_revision");
    reveal_strlit("evidence_status");
    reveal_strlit("tool_error");
    assert("scope_id"@.len() == 8);
    assert("command_id"@.len() == 10);
    assert("command"@.len() == 7);
    assert("status"@.len() == 6);
    assert("command_success"@.len() == 15);
    assert("exit_code"@.len() == 9);
    assert("duration_ms"@.len() == 11);
    assert("timed_out"@.len() == 9);
    assert("workspace_revision"@.len() == 18);
    assert("evidence_status"@.len() == 15);
    assert("tool_error"@.len() == 10);
    assert("command_id"@[0] != "tool_error"@[0]);
    assert("command_success"@[0] != "evidence_status"@[0]);
    assert("exit_code"@[0] != "timed_out"@[0]);
    let fields = verification_json(scope_id, command, data, error)->Object_0;
    assert(fields[0].0 == "scope_id"@);
    assert(fields[1].0 == "command_id"@);
    assert(fields[2].0 == "command"@);
    assert(fields[3].0 == "status"@);
    assert(fields[4].0 == "command_success"@);
    assert(fields[5].0 == "exit_code"@);
    assert(fields[6].0 == "duration_ms"@);
    assert(fields[7].0 == "timed_out"@);
    assert(fields[8].0 == "workspace_revision"@);
    assert(fields[9].0 == "evidence_status"@);
    assert(fields[10].0 == "tool_error"@);
    lemma_first_field_is_held(fields, 0, "scope_id"@, JsonModel::Text(scope_id));
    lemma_first_field_is_held(fields, 1, "command_id"@, or_null(data_field(data, "command_id"@)));
    lemma_first_field_is_held(fields, 2, "command"@, JsonModel::Text(command));
    lemma_first_field_is_held(fields, 3, "status"@, or_null(data_field(data, "status"@)));
    lemma_first_field_is_held(fields, 4, "command_success"@, JsonModel::Bool(data_field(data, "command_success"@) == Some(JsonModel::Bool(true))));
    lemma_first_field_is_held(fields, 5, "exit_code"@, or_null(data_field(data, "exit_code"@)));
    lemma_first_field_is_held(fields, 6, "duration_ms"@, or_null(data_field(data, "elapsed_ms"@)));
    lemma_first_field_is_held(fields, 7, "timed_out"@, JsonModel::Bool(data_field(data, "timed_out"@) == Some(JsonModel::Bool(true))));
    lemma_first_field_is_held(fields, 8, "workspace_revision"@, or_null(data_field(data, "workspace_revision"@)));
    lemma_first_field_is_held(fields, 9, "evidence_status"@, or_null(data_field(data, "evidence_status"@)));
    lemma_first_field_is_held(fields, 10, "tool_error"@, text_or_null(error));
}

/// What is made known of a check for completion: whether the work is ready, and what is in its way.
pub proof fn lemma_completion_is_told(
    scope_id: Seq<char>,
    data: Option<JsonModel>,
    success: bool,
    error: Option<Seq<char>>,
)
    ensures
        ({
            let v = completion_json(scope_id, data, success, error);
            &&& object_holds(v, "scope_id"@, JsonModel::Text(scope_id))
            &&& object_holds(v, "ready"@, JsonModel::Bool(data_field(data, "ready"@) == Some(JsonModel::Bool(true))))
            &&& object_holds(v, "blockers"@, blockers_of(data))
            &&& object_holds(v, "workspace_revision"@, or_null(data_field(data, "workspace_revision"@)))
            &&& object_holds(v, "verification_evidence"@, or_null(data_field(data, "verification_evidence"@)))
            &&& object_holds(v, "tool_success"@, JsonModel::Bool(success))
            &&& object_holds(v, "tool_error"@, text_or_null(error))
        }),
{
    reveal_strlit("scope_id");
    reveal_strlit("ready");
    reveal_strlit("blockers");
    reveal_strlit("workspace_revision");
    reveal_strlit("verification_evidence");
    reveal_strlit("tool_success");
    reveal_strlit("tool_error");
    assert("scope_id"@.len() == 8);
    assert("ready"@.len() == 5);
    assert("blockers"@.len() == 8);
    assert("workspace_revision"@.len() == 18);
    assert("verification_evidence"@.len() == 21);
    assert("tool_success"@.len() == 12);
    assert("tool_error"@.len() == 10);
    assert("scope_id"@[0] != "blockers"@[0]);
    let fields = completion_json(scope_id, data, success, error)->Object_0;
    assert(fields[0].0 == "scope_id"@);
    assert(fields[1].0 == "ready"@);
    assert(fields[2].0 == "blockers"@);
    assert(fields[3].0 == "workspace_revision"@);
    assert(fields[4].0 == "verification_evidence"@);
    assert(fields[5].0 == "tool_success"@);
    assert(fields[6].0 == "tool_error"@);
    lemma_first_field_is_held(fields, 0, "scope_id"@, JsonModel::Text(scope_id));
    lemma_first_field_is_held(fields, 1, "ready"@, JsonModel::Bool(data_field(data, "ready"@) == Some(JsonModel::Bool(true))));
    lemma_first_field_is_held(fields, 2, "blockers"@, blockers_of(data));
    lemma_first_field_is_held(fields, 3, "workspace_revision"@, or_null(data_field(data, "workspace_revision"@)));
    lemma_first_field_is_held(fields, 4, "verification_evidence"@, or_null(data_field(data, "verification_evidence"@)));
    lemma_first_field_is_held(fields, 5, "tool_success"@, JsonModel::Bool(success));
    lemma_first_field_is_held(fields, 6, "tool_error"@, text_or_null(error));
}

/// What is made known of a worker that has to go on: its scope, the prompt that it gets in the same
/// chat, and what is in its way.
pub proof fn lemma_continuation_is_told(scope_id: Seq<char>, blockers: JsonModel)
    ensures
        ({
            let v = continuation_json(scope_id, blockers);
            &&& object_holds(v, "scope_id"@, JsonModel::Text(scope_id))
            &&& object_holds(v, "prompt"@, JsonModel::Text(continuation_prompt(scope_id, blockers)))
            &&& object_holds(v, "blockers"@, blockers)
            &&& object_holds(v, "relay_to_same_chat"@, JsonModel::Bool(true))
        }),
{
    reveal_strlit("scope_id");
    reveal_strlit("prompt");
    reveal_strlit("blockers");
    reveal_strlit("relay_to_same_chat");
    assert("scope_id"@.len() == 8);
    assert("prompt"@.len() == 6);
    assert("blockers"@.len() == 8);
    assert("relay_to_same_chat"@.len() == 18);
    assert("scope_id"@[0] != "blockers"@[0]);
    let fields = continuation_json(scope_id, blockers)->Object_0;
    assert(fields[0].0 == "scope_id"@);
    assert(fields[1].0 == "prompt"@);
    assert(fields[2].0 == "blockers"@);
    assert(fields[3].0 == "relay_to_same_chat"@);
    lemma_first_field_is_held(fields, 0, "scope_id"@, JsonModel::Text(scope_id));
    lemma_first_field_is_held(fields, 1, "prompt"@, JsonModel::Text(continuation_prompt(scope_id, blockers)));
    lemma_first_field_is_held(fields, 2, "blockers"@, blockers);
    lemma_first_field_is_held(fields, 3, "relay_to_same_chat"@, JsonModel::Bool(true));
}

/// What is in the way is what the data of the check say, or else nothing.
pub proof fn lemma_blockers_are_those_of_the_data(d: JsonModel, b: JsonModel)
    ensures
        object_holds(d, "blockers"@, b) ==> blockers_of(Some(d)) == b,
        object_lacks(d, "blockers"@) ==> blockers_of(Some(d)) == JsonModel::Array(Seq::empty()),
        blockers_of(None) == JsonModel::Array(Seq::empty()),
        is_ready(Some(d)) <==> d.field("ready"@) == Some(JsonModel::Bool(true)),
        !is_ready(None),
{
    if object_holds(d, "blockers"@, b) {
        lemma_held_value_is_read(d, "blockers"@, b);
    }
    if object_lacks(d, "blockers"@) {
        lemma_lacking_value_is_not_read(d, "blockers"@);
    }
}

proof fn lemma_text_line_stands(v: Seq<JsonModel>, i: int)
    requires
        0 <= i < v.len(),
        v[i] is Text,
    ensures
        text_lines(v).contains("- "@ + v[i]->Text_0),
    decreases v.len(),
{
    let lines = text_lines(v);
    if i == v.len() - 1 {
        assert(lines[lines.len() - 1] == "- "@ + v[i]->Text_0);
    } else {
        lemma_text_line_stands(v.drop_last(), i);
        let before = text_lines(v.drop_last());
        let k = choose|k: int| 0 <= k < before.len() && before[k] == "- "@ + v[i]->Text_0;
        assert(lines[k] == before[k]);
    }
}

proof fn lemma_joined_holds(parts: Seq<Seq<char>>, sep: Seq<char>, i: int)
    requires
        0 <= i < parts.len(),
    ensures
        contains_text(joined(parts, sep), parts[i]),
    decreases parts.len(),
{
    let whole = joined(parts, sep);
    if parts.len() == 1 {
        assert(whole.subrange(0, whole.len() as int) =~= parts[i]);
        assert(occurs_at(whole, parts[i], 0));
    } else if i == parts.len() - 1 {
        let at = whole.len() - parts[i].len();
        assert(whole.subrange(at, at + parts[i].len()) =~= parts[i]);
        assert(occurs_at(whole, parts[i], at));
    } else {
        let front = joined(parts.drop_last(), sep);
        lemma_joined_holds(parts.drop_last(), sep, i);
        let at = choose|at: int| occurs_at(front, parts[i], at);
        assert(parts.drop_last()[i] == parts[i]);
        assert(whole.subrange(at, at + parts[i].len()) =~= front.subrange(
            at,
            at + parts[i].len(),
        ));
        assert(occurs_at(whole, parts[i], at));
    }
}

/// A worker that is sent back to work is told its scope and, on a line of its own, every text among
/// what is in its way.
pub proof fn lemma_worker_is_told_what_is_missing(
    scope_id: Seq<char>,
    blockers: Seq<JsonModel>,
    i: int,
)
    requires
        0 <= i < blockers.len(),
        blockers[i] is Text,
    ensures
        contains_text(
            continuation_prompt(scope_id, JsonModel::Array(blockers)),
            "- "@ + blockers[i]->Text_0,
        ),
        contains_text(
            continuation_prompt(scope_id, JsonModel::Array(blockers)),
            "\n\nUse scope_id "@ + scope_id,
        ),
{
    let line = "- "@ + blockers[i]->Text_0;
    let lines = text_lines(blockers);
    lemma_text_line_stands(blockers, i);
    let k = choose|k: int| 0 <= k < lines.len() && lines[k] == line;
    lemma_joined_holds(lines, "\n"@, k);
    let all = joined(lines, "\n"@);
    reveal_strlit("- ");
    let at = choose|at: int| occurs_at(all, line, at);
    assert(line.len() >= 2);
    assert(all.len() > 0);
    let prompt = continuation_prompt(scope_id, JsonModel::Array(blockers));
    let front = crate::server::notices::CONTINUE_HEAD@ + scope_id
        + crate::server::notices::CONTINUE_BODY@;
    let there = front.len() + at;
    assert(prompt.subrange(there, there + line.len()) =~= all.subrange(at, at + line.len()));
    assert(occurs_at(prompt, line, there));
    let use_scope = "\n\nUse scope_id "@ + scope_id;
    let then: int = (front + all).len() as int;
    assert(prompt.subrange(then, then + use_scope.len()) =~= use_scope);
    assert(occurs_at(prompt, use_scope, then));
}

/// What is made known of a call: of a command that verifies the work, the verification; of a check
/// for completion, the completion, and the order to go on where it is not ready; else nothing.
pub proof fn lemma_notices_of_a_call(
    scope_id: Seq<char>,
    name: Seq<char>,
    args: JsonModel,
    data: Option<JsonModel>,
    success: bool,
    error: Option<Seq<char>>,
    verifies: bool,
)
    ensures
        ({
            let n = call_notices(scope_id, name, args, data, success, error, verifies);
            let command = name == "run_command"@ || name == "poll_command"@ || name
                == "cancel_command"@;
            let check = name == "completion_check"@;
            &&& n.len() == (if command {
                if verifies {
                    1int
                } else {
                    0
                }
            } else if check {
                if data_field(data, "ready"@) == Some(JsonModel::Bool(true)) {
                    1
                } else {
                    2
                }
            } else {
                0
            })
            &&& command && verifies ==> n[0].0 == "verification"@ && n[0].1 == verification_json(
                scope_id,
                command_of(args, data),
                data,
                error,
            )
            &&& check ==> n[0].0 == "completion"@ && n[0].1 == completion_json(
                scope_id,
                data,
                success,
                error,
            )
            &&& n.len() == 2 ==> n[1].0 == "continuation_required"@ && n[1].1 == continuation_json(
                scope_id,
                blockers_of(data),
            )
        }),
{
    reveal_strlit("run_command");
    reveal_strlit("poll_command");
    reveal_strlit("cancel_command");
    reveal_strlit("completion_check");
    assert("run_command"@.len() == 11);
    assert("poll_command"@.len() == 12);
    assert("cancel_command"@.len() == 14);
    assert("completion_check"@.len() == 16);
}

/// The command of a call is the one in the data that came back, and else the one that was asked for.
pub proof fn lemma_command_of_a_call(
    args: JsonModel,
    data: JsonModel,
    done: Seq<char>,
    asked: Seq<char>,
)
    ensures
        object_holds(data, "command"@, JsonModel::Text(done)) ==> command_of(args, Some(data))
            == done,
        object_lacks(data, "command"@) && object_holds(args, "command"@, JsonModel::Text(asked))
            ==> command_of(args, Some(data)) == asked,
        object_holds(args, "command"@, JsonModel::Text(asked)) ==> command_of(args, None) == asked,
        object_lacks(args, "command"@) ==> command_of(args, None) == ""@,
{
    if object_holds(data, "command"@, JsonModel::Text(done)) {
        lemma_held_value_is_read(data, "command"@, JsonModel::Text(done));
    }
    if object_lacks(data, "command"@) {
        lemma_lacking_value_is_not_read(data, "command"@);
    }
    if object_holds(args, "command"@, JsonModel::Text(asked)) {
        lemma_held_value_is_read(args, "command"@, JsonModel::Text(asked));
    }
    if object_lacks(args, "command"@) {
        lemma_lacking_value_is_not_read(args, "command"@);
    }
}

} // verus!
