//! The tools that the bridge offers to a worker.
use crate::json::{append_value, field_models, models, no_fields, no_values, put, texts_model, Json,
    JsonField, JsonModel};
use crate::text::{no_texts, push_text, texts};
use vstd::prelude::*;

verus! {

/// The schema of a text argument.
pub open spec fn string_schema(description: Seq<char>) -> JsonModel {
    JsonModel::Object(
        seq![
            ("type"@, JsonModel::Text("string"@)),
            ("description"@, JsonModel::Text(description)),
        ],
    )
}

fn string_value(description: &str) -> (r: Json)
    ensures
        r.model() == string_schema(description@),
{
    let mut f = no_fields();
    put(&mut f, "type", Json::text("string"));
    put(&mut f, "description", Json::text(description));
    assert(field_models(f@) =~= string_schema(description@)->Object_0);
    Json::Object(f)
}

/// The schema of a yes-or-no argument.
pub open spec fn boolean_schema(description: Seq<char>) -> JsonModel {
    JsonModel::Object(
        seq![
            ("type"@, JsonModel::Text("boolean"@)),
            ("description"@, JsonModel::Text(description)),
        ],
    )
}

fn boolean_value(description: &str) -> (r: Json)
    ensures
        r.model() == boolean_schema(description@),
{
    let mut f = no_fields();
    put(&mut f, "type", Json::text("boolean"));
    put(&mut f, "description", Json::text(description));
    assert(field_models(f@) =~= boolean_schema(description@)->Object_0);
    Json::Object(f)
}

/// A field with a bound, where there is one.
pub open spec fn bound_field(key: Seq<char>, bound: Option<u64>) -> Seq<(Seq<char>, JsonModel)> {
    match bound {
        Some(n) => seq![(key, JsonModel::Unsigned(n))],
        None => Seq::empty(),
    }
}

/// The schema of a whole-number argument.
pub open spec fn integer_schema(
    minimum: Option<u64>,
    maximum: Option<u64>,
    description: Option<Seq<char>>,
) -> JsonModel {
    JsonModel::Object(
        seq![("type"@, JsonModel::Text("integer"@))] + bound_field("minimum"@, minimum)
            + bound_field("maximum"@, maximum) + (match description {
            Some(d) => seq![("description"@, JsonModel::Text(d))],
            None => Seq::empty(),
        }),
    )
}

fn integer_value(minimum: Option<u64>, maximum: Option<u64>, description: Option<&str>) -> (r: Json)
    ensures
        r.model() == integer_schema(
            minimum,
            maximum,
            match description {
                Some(d) => Some(d@),
                None => None,
            },
        ),
{
    let mut f = no_fields();
    put(&mut f, "type", Json::text("integer"));
    if let Some(n) = minimum {
        put(&mut f, "minimum", Json::Unsigned(n));
    }
    if let Some(n) = maximum {
        put(&mut f, "maximum", Json::Unsigned(n));
    }
    if let Some(d) = description {
        put(&mut f, "description", Json::text(d));
    }
    assert(field_models(f@) =~= integer_schema(
        minimum,
        maximum,
        match description {
            Some(d) => Some(d@),
            None => None,
        },
    )->Object_0);
    Json::Object(f)
}

/// The schema of the steps of a plan.
pub open spec fn items_schema(description: Seq<char>) -> JsonModel {
    JsonModel::Object(
        seq![
            ("type"@, JsonModel::Text("array"@)),
            ("minItems"@, JsonModel::Unsigned(1)),
            ("maxItems"@, JsonModel::Unsigned(100)),
            ("items"@, JsonModel::Object(seq![("type"@, JsonModel::Text("string"@))])),
            ("description"@, JsonModel::Text(description)),
        ],
    )
}

fn items_value(description: &str) -> (r: Json)
    ensures
        r.model() == items_schema(description@),
{
    let mut e = no_fields();
    put(&mut e, "type", Json::text("string"));
    assert(field_models(e@) =~= seq![("type"@, JsonModel::Text("string"@))]);
    let mut f = no_fields();
    put(&mut f, "type", Json::text("array"));
    put(&mut f, "minItems", Json::Unsigned(1));
    put(&mut f, "maxItems", Json::Unsigned(100));
    put(&mut f, "items", Json::Object(e));
    put(&mut f, "description", Json::text(description));
    assert(field_models(f@) =~= items_schema(description@)->Object_0);
    Json::Object(f)
}

/// The states of a step of a plan.
pub open spec fn step_states() -> Seq<Seq<char>> {
    seq!["pending"@, "in_progress"@, "done"@, "blocked"@]
}

/// The schema of the state of a step of a plan.
pub open spec fn status_schema() -> JsonModel {
    JsonModel::Object(
        seq![
            ("type"@, JsonModel::Text("string"@)),
            ("enum"@, texts_model(step_states())),
        ],
    )
}

fn status_value() -> (r: Json)
    ensures
        r.model() == status_schema(),
{
    let mut states = no_texts();
    push_text(&mut states, "pending");
    push_text(&mut states, "in_progress");
    push_text(&mut states, "done");
    push_text(&mut states, "blocked");
    assert(texts(states@) =~= step_states());
    let mut f = no_fields();
    put(&mut f, "type", Json::text("string"));
    put(&mut f, "enum", Json::texts(&states));
    assert(field_models(f@) =~= status_schema()->Object_0);
    Json::Object(f)
}

pub const ABOUT_SCOPE_ID: &'static str =
    "Per-delegation workspace scope id supplied by the OMO delegation prompt";

/// A tool: besides its own arguments it takes, and asks for, the id of a scope.
pub open spec fn tool_json(
    name: Seq<char>,
    description: Seq<char>,
    properties: Seq<(Seq<char>, JsonModel)>,
    required: Seq<Seq<char>>,
) -> JsonModel {
    JsonModel::Object(
        seq![
            ("name"@, JsonModel::Text(name)),
            ("description"@, JsonModel::Text(description)),
            (
                "inputSchema"@,
                JsonModel::Object(
                    seq![
                        ("type"@, JsonModel::Text("object"@)),
                        (
                            "properties"@,
                            JsonModel::Object(
                                properties.push(("scope_id"@, string_schema(ABOUT_SCOPE_ID@))),
                            ),
                        ),
                        ("required"@, texts_model(required.push("scope_id"@))),
                    ],
                ),
            ),
        ],
    )
}

fn tool_definition(
    name: &str,
    description: &str,
    properties: Vec<JsonField>,
    required: Vec<String>,
) -> (r: Json)
    ensures
        r.model() == tool_json(
            name@,
            description@,
            field_models(properties@),
            texts(required@),
        ),
{
    let ghost props = field_models(properties@);
    let ghost names = texts(required@);
    let mut p = properties;
    put(&mut p, "scope_id", string_value(ABOUT_SCOPE_ID));
    let mut q = required;
    push_text(&mut q, "scope_id");
    let mut s = no_fields();
    put(&mut s, "type", Json::text("object"));
    put(&mut s, "properties", Json::Object(p));
    put(&mut s, "required", Json::texts(&q));
    assert(field_models(s@) =~= seq![
        ("type"@, JsonModel::Text("object"@)),
        (
            "properties"@,
            JsonModel::Object(props.push(("scope_id"@, string_schema(ABOUT_SCOPE_ID@)))),
        ),
        ("required"@, texts_model(names.push("scope_id"@))),
    ]);
    let mut f = no_fields();
    put(&mut f, "name", Json::text(name));
    put(&mut f, "description", Json::text(description));
    put(&mut f, "inputSchema", Json::Object(s));
    assert(field_models(f@) =~= tool_json(name@, description@, props, names)->Object_0);
    Json::Object(f)
}

pub const ABOUT_READ_FILE: &'static str =
    "Read a UTF-8 file in the delegation workspace. Returns SHA256 plus line-sliced content; use the SHA256 as patch_file's optimistic precondition before replacing an existing file.";

/// The tool `read_file`.
pub open spec fn read_file_tool() -> JsonModel {
    tool_json(
        "read_file"@,
        ABOUT_READ_FILE@,
        seq![
            ("path"@, string_schema("Workspace-relative file path"@)),
            ("start_line"@, integer_schema(Some(1), None, Some("Start line (1-indexed)"@))),
            ("max_lines"@, integer_schema(Some(1), None, Some("Maximum lines to read"@))),
        ],
        seq!["path"@],
    )
}

fn read_file_value() -> (r: Json)
    ensures
        r.model() == read_file_tool(),
{
    let mut p = no_fields();
    put(&mut p, "path", string_value("Workspace-relative file path"));
    put(&mut p, "start_line", integer_value(Some(1), None, Some("Start line (1-indexed)")));
    put(&mut p, "max_lines", integer_value(Some(1), None, Some("Maximum lines to read")));
    let mut q = no_texts();
    push_text(&mut q, "path");
    assert(field_models(p@) =~= seq![
        ("path"@, string_schema("Workspace-relative file path"@)),
        ("start_line"@, integer_schema(Some(1), None, Some("Start line (1-indexed)"@))),
        ("max_lines"@, integer_schema(Some(1), None, Some("Maximum lines to read"@))),
    ]);
    assert(texts(q@) =~= seq!["path"@]);
    tool_definition("read_file", ABOUT_READ_FILE, p, q)
}

pub const ABOUT_PATCH_FILE: &'static str =
    "Atomically create or replace one workspace file. For existing files, pass expected_sha256 from the latest read_file to prevent stale overwrites. Every successful patch increments workspace_revision and invalidates in-flight verification evidence from older revisions.";

/// The tool `patch_file`.
pub open spec fn patch_file_tool() -> JsonModel {
    tool_json(
        "patch_file"@,
        ABOUT_PATCH_FILE@,
        seq![
            ("path"@, string_schema("Workspace-relative file path"@)),
            ("expected_sha256"@, string_schema("Expected SHA256 of the existing file before modification"@)),
            ("content"@, string_schema("Complete new file content"@)),
        ],
        seq!["path"@, "content"@],
    )
}

fn patch_file_value() -> (r: Json)
    ensures
        r.model() == patch_file_tool(),
{
    let mut p = no_fields();
    put(&mut p, "path", string_value("Workspace-relative file path"));
    put(&mut p, "expected_sha256", string_value("Expected SHA256 of the existing file before modification"));
    put(&mut p, "content", string_value("Complete new file content"));
    let mut q = no_texts();
    push_text(&mut q, "path");
    push_text(&mut q, "content");
    assert(field_models(p@) =~= seq![
        ("path"@, string_schema("Workspace-relative file path"@)),
        ("expected_sha256"@, string_schema("Expected SHA256 of the existing file before modification"@)),
        ("content"@, string_schema("Complete new file content"@)),
    ]);
    assert(texts(q@) =~= seq!["path"@, "content"@]);
    tool_definition("patch_file", ABOUT_PATCH_FILE, p, q)
}

pub const ABOUT_LIST_FILES: &'static str =
    "List workspace files/directories while respecting .gitignore and hiding secret dotfiles. Omit path or use '.' for the workspace root.";

/// The tool `list_files`.
pub open spec fn list_files_tool() -> JsonModel {
    tool_json(
        "list_files"@,
        ABOUT_LIST_FILES@,
        seq![
            ("path"@, string_schema("Optional workspace-relative subdirectory"@)),
            ("max_depth"@, integer_schema(Some(1), None, Some("Maximum traversal depth"@))),
            ("limit"@, integer_schema(Some(1), None, Some("Maximum returned entries"@))),
        ],
        Seq::empty(),
    )
}

fn list_files_value() -> (r: Json)
    ensures
        r.model() == list_files_tool(),
{
    let mut p = no_fields();
    put(&mut p, "path", string_value("Optional workspace-relative subdirectory"));
    put(&mut p, "max_depth", integer_value(Some(1), None, Some("Maximum traversal depth")));
    put(&mut p, "limit", integer_value(Some(1), None, Some("Maximum returned entries")));
    let q = no_texts();
    assert(field_models(p@) =~= seq![
        ("path"@, string_schema("Optional workspace-relative subdirectory"@)),
        ("max_depth"@, integer_schema(Some(1), None, Some("Maximum traversal depth"@))),
        ("limit"@, integer_schema(Some(1), None, Some("Maximum returned entries"@))),
    ]);
    assert(texts(q@) =~= Seq::<Seq<char>>::empty());
    tool_definition("list_files", ABOUT_LIST_FILES, p, q)
}

pub const ABOUT_SEARCH_TEXT: &'static str =
    "Search UTF-8 source files for literal text across the delegation workspace. Returns file, line, column and preview. Prefer this before broad file reads when locating symbols, tests, routes, or configuration.";

/// The tool `search_text`.
pub open spec fn search_text_tool() -> JsonModel {
    tool_json(
        "search_text"@,
        ABOUT_SEARCH_TEXT@,
        seq![
            ("query"@, string_schema("Literal text to search for"@)),
            ("path"@, string_schema("Optional workspace-relative file or directory scope"@)),
            ("case_sensitive"@, boolean_schema("Whether matching is case-sensitive (default false)"@)),
            ("max_results"@, integer_schema(Some(1), Some(500), Some("Maximum matches (default 80)"@))),
        ],
        seq!["query"@],
    )
}

fn search_text_value() -> (r: Json)
    ensures
        r.model() == search_text_tool(),
{
    let mut p = no_fields();
    put(&mut p, "query", string_value("Literal text to search for"));
    put(&mut p, "path", string_value("Optional workspace-relative file or directory scope"));
    put(&mut p, "case_sensitive", boolean_value("Whether matching is case-sensitive (default false)"));
    put(&mut p, "max_results", integer_value(Some(1), Some(500), Some("Maximum matches (default 80)")));
    let mut q = no_texts();
    push_text(&mut q, "query");
    assert(field_models(p@) =~= seq![
        ("query"@, string_schema("Literal text to search for"@)),
        ("path"@, string_schema("Optional workspace-relative file or directory scope"@)),
        ("case_sensitive"@, boolean_schema("Whether matching is case-sensitive (default false)"@)),
        ("max_results"@, integer_schema(Some(1), Some(500), Some("Maximum matches (default 80)"@))),
    ]);
    assert(texts(q@) =~= seq!["query"@]);
    tool_definition("search_text", ABOUT_SEARCH_TEXT, p, q)
}

pub const ABOUT_AST_GREP: &'static str =
    "Run structural AST pattern search with ast-grep/sg inside the delegation workspace. Use this for syntax-aware call/import/class/function patterns when literal search_text is insufficient.";

/// The tool `ast_grep`.
pub open spec fn ast_grep_tool() -> JsonModel {
    tool_json(
        "ast_grep"@,
        ABOUT_AST_GREP@,
        seq![
            ("pattern"@, string_schema("ast-grep pattern such as console.log($A) or function $F($$$ARGS) { $$$BODY }"@)),
            ("path"@, string_schema("Optional workspace-relative search scope; default '.'"@)),
            ("language"@, string_schema("Optional ast-grep language override such as js, ts, rust, python"@)),
            ("max_results"@, integer_schema(Some(1), Some(1000), Some("Maximum parsed matches; default 100"@))),
        ],
        seq!["pattern"@],
    )
}

fn ast_grep_value() -> (r: Json)
    ensures
        r.model() == ast_grep_tool(),
{
    let mut p = no_fields();
    put(&mut p, "pattern", string_value("ast-grep pattern such as console.log($A) or function $F($$$ARGS) { $$$BODY }"));
    put(&mut p, "path", string_value("Optional workspace-relative search scope; default '.'"));
    put(&mut p, "language", string_value("Optional ast-grep language override such as js, ts, rust, python"));
    put(&mut p, "max_results", integer_value(Some(1), Some(1000), Some("Maximum parsed matches; default 100")));
    let mut q = no_texts();
    push_text(&mut q, "pattern");
    assert(field_models(p@) =~= seq![
        ("pattern"@, string_schema("ast-grep pattern such as console.log($A) or function $F($$$ARGS) { $$$BODY }"@)),
        ("path"@, string_schema("Optional workspace-relative search scope; default '.'"@)),
        ("language"@, string_schema("Optional ast-grep language override such as js, ts, rust, python"@)),
        ("max_results"@, integer_schema(Some(1), Some(1000), Some("Maximum parsed matches; default 100"@))),
    ]);
    assert(texts(q@) =~= seq!["pattern"@]);
    tool_definition("ast_grep", ABOUT_AST_GREP, p, q)
}

pub const ABOUT_LSP_DIAGNOSTICS: &'static str =
    "Open one source file in its installed language server and return publishDiagnostics. Supported mappings include Rust/rust-analyzer, JS/TS/typescript-language-server, Python/pyright-langserver, and Go/gopls when installed.";

/// The tool `lsp_diagnostics`.
pub open spec fn lsp_diagnostics_tool() -> JsonModel {
    tool_json(
        "lsp_diagnostics"@,
        ABOUT_LSP_DIAGNOSTICS@,
        seq![
            ("path"@, string_schema("Workspace-relative source file"@)),
            ("timeout_ms"@, integer_schema(Some(1000), Some(60000), Some("Language-server timeout; default 15000"@))),
        ],
        seq!["path"@],
    )
}

fn lsp_diagnostics_value() -> (r: Json)
    ensures
        r.model() == lsp_diagnostics_tool(),
{
    let mut p = no_fields();
    put(&mut p, "path", string_value("Workspace-relative source file"));
    put(&mut p, "timeout_ms", integer_value(Some(1000), Some(60000), Some("Language-server timeout; default 15000")));
    let mut q = no_texts();
    push_text(&mut q, "path");
    assert(field_models(p@) =~= seq![
        ("path"@, string_schema("Workspace-relative source file"@)),
        ("timeout_ms"@, integer_schema(Some(1000), Some(60000), Some("Language-server timeout; default 15000"@))),
    ]);
    assert(texts(q@) =~= seq!["path"@]);
    tool_definition("lsp_diagnostics", ABOUT_LSP_DIAGNOSTICS, p, q)
}

pub const ABOUT_LSP_DEFINITION: &'static str =
    "Resolve the definition for the symbol at a 1-indexed line and character using the file's language server.";

/// The tool `lsp_definition`.
pub open spec fn lsp_definition_tool() -> JsonModel {
    tool_json(
        "lsp_definition"@,
        ABOUT_LSP_DEFINITION@,
        seq![
            ("path"@, string_schema("Workspace-relative source file"@)),
            ("line"@, integer_schema(Some(1), None, None)),
            ("character"@, integer_schema(Some(1), None, None)),
            ("timeout_ms"@, integer_schema(Some(1000), Some(60000), None)),
        ],
        seq!["path"@, "line"@, "character"@],
    )
}

fn lsp_definition_value() -> (r: Json)
    ensures
        r.model() == lsp_definition_tool(),
{
    let mut p = no_fields();
    put(&mut p, "path", string_value("Workspace-relative source file"));
    put(&mut p, "line", integer_value(Some(1), None, None));
    put(&mut p, "character", integer_value(Some(1), None, None));
    put(&mut p, "timeout_ms", integer_value(Some(1000), Some(60000), None));
    let mut q = no_texts();
    push_text(&mut q, "path");
    push_text(&mut q, "line");
    push_text(&mut q, "character");
    assert(field_models(p@) =~= seq![
        ("path"@, string_schema("Workspace-relative source file"@)),
        ("line"@, integer_schema(Some(1), None, None)),
        ("character"@, integer_schema(Some(1), None, None)),
        ("timeout_ms"@, integer_schema(Some(1000), Some(60000), None)),
    ]);
    assert(texts(q@) =~= seq!["path"@, "line"@, "character"@]);
    tool_definition("lsp_definition", ABOUT_LSP_DEFINITION, p, q)
}

pub const ABOUT_LSP_REFERENCES: &'static str =
    "Find references, including the declaration, for the symbol at a 1-indexed line and character using the file's language server.";

/// The tool `lsp_references`.
pub open spec fn lsp_references_tool() -> JsonModel {
    tool_json(
        "lsp_references"@,
        ABOUT_LSP_REFERENCES@,
        seq![
            ("path"@, string_schema("Workspace-relative source file"@)),
            ("line"@, integer_schema(Some(1), None, None)),
            ("character"@, integer_schema(Some(1), None, None)),
            ("timeout_ms"@, integer_schema(Some(1000), Some(60000), None)),
        ],
        seq!["path"@, "line"@, "character"@],
    )
}

fn lsp_references_value() -> (r: Json)
    ensures
        r.model() == lsp_references_tool(),
{
    let mut p = no_fields();
    put(&mut p, "path", string_value("Workspace-relative source file"));
    put(&mut p, "line", integer_value(Some(1), None, None));
    put(&mut p, "character", integer_value(Some(1), None, None));
    put(&mut p, "timeout_ms", integer_value(Some(1000), Some(60000), None));
    let mut q = no_texts();
    push_text(&mut q, "path");
    push_text(&mut q, "line");
    push_text(&mut q, "character");
    assert(field_models(p@) =~= seq![
        ("path"@, string_schema("Workspace-relative source file"@)),
        ("line"@, integer_schema(Some(1), None, None)),
        ("character"@, integer_schema(Some(1), None, None)),
        ("timeout_ms"@, integer_schema(Some(1000), Some(60000), None)),
    ]);
    assert(texts(q@) =~= seq!["path"@, "line"@, "character"@]);
    tool_definition("lsp_references", ABOUT_LSP_REFERENCES, p, q)
}

pub const ABOUT_LSP_SYMBOLS: &'static str =
    "Return document symbols for one source file using its language server; useful for code navigation before broad reads.";

/// The tool `lsp_symbols`.
pub open spec fn lsp_symbols_tool() -> JsonModel {
    tool_json(
        "lsp_symbols"@,
        ABOUT_LSP_SYMBOLS@,
        seq![
            ("path"@, string_schema("Workspace-relative source file"@)),
            ("timeout_ms"@, integer_schema(Some(1000), Some(60000), None)),
        ],
        seq!["path"@],
    )
}

fn lsp_symbols_value() -> (r: Json)
    ensures
        r.model() == lsp_symbols_tool(),
{
    let mut p = no_fields();
    put(&mut p, "path", string_value("Workspace-relative source file"));
    put(&mut p, "timeout_ms", integer_value(Some(1000), Some(60000), None));
    let mut q = no_texts();
    push_text(&mut q, "path");
    assert(field_models(p@) =~= seq![
        ("path"@, string_schema("Workspace-relative source file"@)),
        ("timeout_ms"@, integer_schema(Some(1000), Some(60000), None)),
    ]);
    assert(texts(q@) =~= seq!["path"@]);
    tool_definition("lsp_symbols", ABOUT_LSP_SYMBOLS, p, q)
}

pub const ABOUT_RUN_COMMAND: &'static str =
    "Spawn a whitelisted build/test/verification command through the daemon-owned CommandManager. The MCP request waits at most 15 seconds; longer work returns status=detached_running with command_id and bounded partial output. Verification evidence is revision-aware.";

/// The tool `run_command`.
pub open spec fn run_command_tool() -> JsonModel {
    tool_json(
        "run_command"@,
        ABOUT_RUN_COMMAND@,
        seq![
            ("command"@, string_schema("Command such as cargo test, cargo clippy -- -D warnings, npm test, pytest, vitest, go test, or git status"@)),
            ("timeout_ms"@, integer_schema(Some(1), None, Some("Optional process lifetime timeout; clamped to the daemon command timeout"@))),
            ("client_request_id"@, string_schema("Optional idempotency key scoped to (scope_id, generation); retries return the existing command_id"@)),
        ],
        seq!["command"@],
    )
}

fn run_command_value() -> (r: Json)
    ensures
        r.model() == run_command_tool(),
{
    let mut p = no_fields();
    put(&mut p, "command", string_value("Command such as cargo test, cargo clippy -- -D warnings, npm test, pytest, vitest, go test, or git status"));
    put(&mut p, "timeout_ms", integer_value(Some(1), None, Some("Optional process lifetime timeout; clamped to the daemon command timeout")));
    put(&mut p, "client_request_id", string_value("Optional idempotency key scoped to (scope_id, generation); retries return the existing command_id"));
    let mut q = no_texts();
    push_text(&mut q, "command");
    assert(field_models(p@) =~= seq![
        ("command"@, string_schema("Command such as cargo test, cargo clippy -- -D warnings, npm test, pytest, vitest, go test, or git status"@)),
        ("timeout_ms"@, integer_schema(Some(1), None, Some("Optional process lifetime timeout; clamped to the daemon command timeout"@))),
        ("client_request_id"@, string_schema("Optional idempotency key scoped to (scope_id, generation); retries return the existing command_id"@)),
    ]);
    assert(texts(q@) =~= seq!["command"@]);
    tool_definition("run_command", ABOUT_RUN_COMMAND, p, q)
}

pub const ABOUT_POLL_COMMAND: &'static str =
    "Poll a daemon-owned command and return status, exit code, stdout/stderr deltas, command_success, and revision-aware evidence_status. Optional long-poll wait is clamped to 15 seconds.";

/// The tool `poll_command`.
pub open spec fn poll_command_tool() -> JsonModel {
    tool_json(
        "poll_command"@,
        ABOUT_POLL_COMMAND@,
        seq![
            ("command_id"@, string_schema("Command id returned by run_command or list_commands"@)),
            ("wait_timeout_ms"@, integer_schema(Some(0), Some(15000), Some("Optional long-poll wait; server clamps values to 15 seconds"@))),
        ],
        seq!["command_id"@],
    )
}

fn poll_command_value() -> (r: Json)
    ensures
        r.model() == poll_command_tool(),
{
    let mut p = no_fields();
    put(&mut p, "command_id", string_value("Command id returned by run_command or list_commands"));
    put(&mut p, "wait_timeout_ms", integer_value(Some(0), Some(15000), Some("Optional long-poll wait; server clamps values to 15 seconds")));
    let mut q = no_texts();
    push_text(&mut q, "command_id");
    assert(field_models(p@) =~= seq![
        ("command_id"@, string_schema("Command id returned by run_command or list_commands"@)),
        ("wait_timeout_ms"@, integer_schema(Some(0), Some(15000), Some("Optional long-poll wait; server clamps values to 15 seconds"@))),
    ]);
    assert(texts(q@) =~= seq!["command_id"@]);
    tool_definition("poll_command", ABOUT_POLL_COMMAND, p, q)
}

pub const ABOUT_LIST_COMMANDS: &'static str =
    "List active and recent daemon-owned commands for this scope, including generation, workspace revision, status, and verification evidence status. Use after context recovery before starting duplicate work.";

/// The tool `list_commands`.
pub open spec fn list_commands_tool() -> JsonModel {
    tool_json(
        "list_commands"@,
        ABOUT_LIST_COMMANDS@,
        Seq::empty(),
        Seq::empty(),
    )
}

fn list_commands_value() -> (r: Json)
    ensures
        r.model() == list_commands_tool(),
{
    let p = no_fields();
    let q = no_texts();
    assert(field_models(p@) =~= Seq::<(Seq<char>, JsonModel)>::empty());
    assert(texts(q@) =~= Seq::<Seq<char>>::empty());
    tool_definition("list_commands", ABOUT_LIST_COMMANDS, p, q)
}

pub const ABOUT_CANCEL_COMMAND: &'static str =
    "Cancel a running daemon-owned command. On Unix the command process group receives SIGTERM, then SIGKILL after a bounded grace period so descendants are not orphaned.";

/// The tool `cancel_command`.
pub open spec fn cancel_command_tool() -> JsonModel {
    tool_json(
        "cancel_command"@,
        ABOUT_CANCEL_COMMAND@,
        seq![
            ("command_id"@, string_schema("Command id to cancel"@)),
        ],
        seq!["command_id"@],
    )
}

fn cancel_command_value() -> (r: Json)
    ensures
        r.model() == cancel_command_tool(),
{
    let mut p = no_fields();
    put(&mut p, "command_id", string_value("Command id to cancel"));
    let mut q = no_texts();
    push_text(&mut q, "command_id");
    assert(field_models(p@) =~= seq![
        ("command_id"@, string_schema("Command id to cancel"@)),
    ]);
    assert(texts(q@) =~= seq!["command_id"@]);
    tool_definition("cancel_command", ABOUT_CANCEL_COMMAND, p, q)
}

pub const ABOUT_GIT_STATUS_DIFF: &'static str =
    "Inspect git porcelain status, diff stat, bounded staged/unstaged unified diff, and git diff --check results before completion.";

/// The tool `git_status_diff`.
pub open spec fn git_status_diff_tool() -> JsonModel {
    tool_json(
        "git_status_diff"@,
        ABOUT_GIT_STATUS_DIFF@,
        Seq::empty(),
        Seq::empty(),
    )
}

fn git_status_diff_value() -> (r: Json)
    ensures
        r.model() == git_status_diff_tool(),
{
    let p = no_fields();
    let q = no_texts();
    assert(field_models(p@) =~= Seq::<(Seq<char>, JsonModel)>::empty());
    assert(texts(q@) =~= Seq::<Seq<char>>::empty());
    tool_definition("git_status_diff", ABOUT_GIT_STATUS_DIFF, p, q)
}

pub const ABOUT_TASK_PLAN: &'static str =
    "Create or replace the persistent implementation plan for a non-trivial coding task. State is stored outside the repository and survives Chat context compaction and bridge restarts while temporary state remains available.";

/// The tool `task_plan`.
pub open spec fn task_plan_tool() -> JsonModel {
    tool_json(
        "task_plan"@,
        ABOUT_TASK_PLAN@,
        seq![
            ("goal"@, string_schema("Concise task objective/acceptance target"@)),
            ("items"@, items_schema("Concrete implementation and verification steps"@)),
        ],
        seq!["goal"@, "items"@],
    )
}

fn task_plan_value() -> (r: Json)
    ensures
        r.model() == task_plan_tool(),
{
    let mut p = no_fields();
    put(&mut p, "goal", string_value("Concise task objective/acceptance target"));
    put(&mut p, "items", items_value("Concrete implementation and verification steps"));
    let mut q = no_texts();
    push_text(&mut q, "goal");
    push_text(&mut q, "items");
    assert(field_models(p@) =~= seq![
        ("goal"@, string_schema("Concise task objective/acceptance target"@)),
        ("items"@, items_schema("Concrete implementation and verification steps"@)),
    ]);
    assert(texts(q@) =~= seq!["goal"@, "items"@]);
    tool_definition("task_plan", ABOUT_TASK_PLAN, p, q)
}

pub const ABOUT_TASK_UPDATE: &'static str =
    "Update one persistent task-plan item as work progresses. Do not mark an item done until its acceptance condition has evidence.";

/// The tool `task_update`.
pub open spec fn task_update_tool() -> JsonModel {
    tool_json(
        "task_update"@,
        ABOUT_TASK_UPDATE@,
        seq![
            ("item_id"@, string_schema("Plan item id such as T1"@)),
            ("status"@, status_schema()),
            ("note"@, string_schema("Optional evidence, result, or blocker note"@)),
        ],
        seq!["item_id"@, "status"@],
    )
}

fn task_update_value() -> (r: Json)
    ensures
        r.model() == task_update_tool(),
{
    let mut p = no_fields();
    put(&mut p, "item_id", string_value("Plan item id such as T1"));
    put(&mut p, "status", status_value());
    put(&mut p, "note", string_value("Optional evidence, result, or blocker note"));
    let mut q = no_texts();
    push_text(&mut q, "item_id");
    push_text(&mut q, "status");
    assert(field_models(p@) =~= seq![
        ("item_id"@, string_schema("Plan item id such as T1"@)),
        ("status"@, status_schema()),
        ("note"@, string_schema("Optional evidence, result, or blocker note"@)),
    ]);
    assert(texts(q@) =~= seq!["item_id"@, "status"@]);
    tool_definition("task_update", ABOUT_TASK_UPDATE, p, q)
}

pub const ABOUT_TASK_STATE: &'static str =
    "Recover the current persistent goal, checklist, latest bridge mutation, and recorded verification history. Completed daemon commands are reconciled before the state is returned. Use after context compaction or when resuming work.";

/// The tool `task_state`.
pub open spec fn task_state_tool() -> JsonModel {
    tool_json(
        "task_state"@,
        ABOUT_TASK_STATE@,
        Seq::empty(),
        Seq::empty(),
    )
}

fn task_state_value() -> (r: Json)
    ensures
        r.model() == task_state_tool(),
{
    let p = no_fields();
    let q = no_texts();
    assert(field_models(p@) =~= Seq::<(Seq<char>, JsonModel)>::empty());
    assert(texts(q@) =~= Seq::<Seq<char>>::empty());
    tool_definition("task_state", ABOUT_TASK_STATE, p, q)
}

pub const ABOUT_COMPLETION_CHECK: &'static str =
    "Deterministic completion audit for direct ChatGPT coding. Reconciles daemon commands under the CommandManager lock and requires successful verification evidence from the current workspace revision/generation, plus task-plan and git diff checks. If ready=false, continue working.";

/// The tool `completion_check`.
pub open spec fn completion_check_tool() -> JsonModel {
    tool_json(
        "completion_check"@,
        ABOUT_COMPLETION_CHECK@,
        seq![
            ("require_task_plan"@, boolean_schema("Require an active fully-done task plan (default true)"@)),
            ("require_verification"@, boolean_schema("Require successful verification evidence matching the current workspace revision (default true)"@)),
            ("require_changes"@, boolean_schema("Require non-clean git status (default false)"@)),
        ],
        Seq::empty(),
    )
}

fn completion_check_value() -> (r: Json)
    ensures
        r.model() == completion_check_tool(),
{
    let mut p = no_fields();
    put(&mut p, "require_task_plan", boolean_value("Require an active fully-done task plan (default true)"));
    put(&mut p, "require_verification", boolean_value("Require successful verification evidence matching the current workspace revision (default true)"));
    put(&mut p, "require_changes", boolean_value("Require non-clean git status (default false)"));
    let q = no_texts();
    assert(field_models(p@) =~= seq![
        ("require_task_plan"@, boolean_schema("Require an active fully-done task plan (default true)"@)),
        ("require_verification"@, boolean_schema("Require successful verification evidence matching the current workspace revision (default true)"@)),
        ("require_changes"@, boolean_schema("Require non-clean git status (default false)"@)),
    ]);
    assert(texts(q@) =~= Seq::<Seq<char>>::empty());
    tool_definition("completion_check", ABOUT_COMPLETION_CHECK, p, q)
}

pub const ABOUT_QUERY_SUBAGENT: &'static str =
    "Request one bounded second-opinion response from the configured OpenAI-compatible advisory model. Advice is untrusted, generation-scoped, quota-limited, and never completion evidence.";

/// The tool `query_subagent`.
pub open spec fn query_subagent_tool() -> JsonModel {
    tool_json(
        "query_subagent"@,
        ABOUT_QUERY_SUBAGENT@,
        seq![
            ("prompt"@, string_schema("Advisory question or context; maximum 32 KiB UTF-8"@)),
            ("timeout_ms"@, integer_schema(None, None, Some("Optional request timeout in milliseconds; values are clamped to 1000-60000, default 30000"@))),
        ],
        seq!["prompt"@],
    )
}

fn query_subagent_value() -> (r: Json)
    ensures
        r.model() == query_subagent_tool(),
{
    let mut p = no_fields();
    put(&mut p, "prompt", string_value("Advisory question or context; maximum 32 KiB UTF-8"));
    put(&mut p, "timeout_ms", integer_value(None, None, Some("Optional request timeout in milliseconds; values are clamped to 1000-60000, default 30000")));
    let mut q = no_texts();
    push_text(&mut q, "prompt");
    assert(field_models(p@) =~= seq![
        ("prompt"@, string_schema("Advisory question or context; maximum 32 KiB UTF-8"@)),
        ("timeout_ms"@, integer_schema(None, None, Some("Optional request timeout in milliseconds; values are clamped to 1000-60000, default 30000"@))),
    ]);
    assert(texts(q@) =~= seq!["prompt"@]);
    tool_definition("query_subagent", ABOUT_QUERY_SUBAGENT, p, q)
}

/// The tools of the bridge; the advisory model is one only where it is configured.
pub open spec fn all_tools(subagent_enabled: bool) -> Seq<JsonModel> {
    let tools = seq![
        read_file_tool(),
        patch_file_tool(),
        list_files_tool(),
        search_text_tool(),
        ast_grep_tool(),
        lsp_diagnostics_tool(),
        lsp_definition_tool(),
        lsp_references_tool(),
        lsp_symbols_tool(),
        run_command_tool(),
        poll_command_tool(),
        list_commands_tool(),
        cancel_command_tool(),
        git_status_diff_tool(),
        task_plan_tool(),
        task_update_tool(),
        task_state_tool(),
        completion_check_tool(),
    ];
    if subagent_enabled {
        tools.push(query_subagent_tool())
    } else {
        tools
    }
}

/// The tools of the bridge, as JSON; every one takes a scope id and asks for it.
pub fn tool_definitions(subagent_enabled: bool) -> (r: Vec<Json>)
    ensures
        models(r@) == all_tools(subagent_enabled),
{
    let mut tools = no_values();
    append_value(&mut tools, read_file_value());
    append_value(&mut tools, patch_file_value());
    append_value(&mut tools, list_files_value());
    append_value(&mut tools, search_text_value());
    append_value(&mut tools, ast_grep_value());
    append_value(&mut tools, lsp_diagnostics_value());
    append_value(&mut tools, lsp_definition_value());
    append_value(&mut tools, lsp_references_value());
    append_value(&mut tools, lsp_symbols_value());
    append_value(&mut tools, run_command_value());
    append_value(&mut tools, poll_command_value());
    append_value(&mut tools, list_commands_value());
    append_value(&mut tools, cancel_command_value());
    append_value(&mut tools, git_status_diff_value());
    append_value(&mut tools, task_plan_value());
    append_value(&mut tools, task_update_value());
    append_value(&mut tools, task_state_value());
    append_value(&mut tools, completion_check_value());
    if subagent_enabled {
        append_value(&mut tools, query_subagent_value());
    }
    assert(models(tools@) =~= all_tools(subagent_enabled));
    tools
}

/// The tool takes the id of a scope besides its own arguments, and asks for it.
pub open spec fn is_scoped(tool: JsonModel) -> bool {
    exists|
        name: Seq<char>,
        description: Seq<char>,
        properties: Seq<(Seq<char>, JsonModel)>,
        required: Seq<Seq<char>>,
    | tool == #[trigger] tool_json(name, description, properties, required)
}

/// Every tool works in the scope that its call names.
pub proof fn lemma_every_tool_is_scoped(subagent_enabled: bool, i: int)
    requires
        0 <= i < all_tools(subagent_enabled).len(),
    ensures
        is_scoped(all_tools(subagent_enabled)[i]),
{
    assert(is_scoped(read_file_tool()));
    assert(is_scoped(patch_file_tool()));
    assert(is_scoped(list_files_tool()));
    assert(is_scoped(search_text_tool()));
    assert(is_scoped(ast_grep_tool()));
    assert(is_scoped(lsp_diagnostics_tool()));
    assert(is_scoped(lsp_definition_tool()));
    assert(is_scoped(lsp_references_tool()));
    assert(is_scoped(lsp_symbols_tool()));
    assert(is_scoped(run_command_tool()));
    assert(is_scoped(poll_command_tool()));
    assert(is_scoped(list_commands_tool()));
    assert(is_scoped(cancel_command_tool()));
    assert(is_scoped(git_status_diff_tool()));
    assert(is_scoped(task_plan_tool()));
    assert(is_scoped(task_update_tool()));
    assert(is_scoped(task_state_tool()));
    assert(is_scoped(completion_check_tool()));
    assert(is_scoped(query_subagent_tool()));
}

} // verus!
