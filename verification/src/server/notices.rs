//! What the bridge makes known of tool calls beyond that they started and ended.
use crate::events::{published, EventBus, EventModel, HarnessEvent};
use crate::json::{bool_of, field_models, no_fields, or_null, put, text_of, text_or_null, Json,
    JsonModel};
use crate::server::protocol::{opt_value, ToolCallResult};
use crate::text::{join, joined, no_texts, opt_text, push_text, same_text, texts};
use vstd::prelude::*;

verus! {

/// Something to make known.
#[derive(Debug)]
pub struct Notice {
    pub kind: &'static str,
    pub data: Json,
}

/// The kinds and the data of some notices.
pub open spec fn notices_of(v: Seq<Notice>) -> Seq<(Seq<char>, JsonModel)> {
    v.map_values(|n: Notice| (n.kind@, n.data.model()))
}

/// The field of the data that a tool returned.
pub open spec fn data_field(data: Option<JsonModel>, key: Seq<char>) -> Option<JsonModel> {
    match data {
        Some(d) => d.field(key),
        None => None,
    }
}

fn get_field<'a>(data: &'a Option<Json>, key: &str) -> (r: Option<&'a Json>)
    ensures
        crate::json::opt_model(r) == data_field(opt_value(*data), key@),
{
    match data {
        Some(d) => d.get(key),
        None => None,
    }
}

fn flag(o: Option<&Json>) -> (r: bool)
    ensures
        r == (bool_of(crate::json::opt_model(o)) == Some(true)),
{
    match o {
        Some(Json::Bool(b)) => *b,
        _ => false,
    }
}

/// The tool runs commands.
pub open spec fn runs_commands(name: Seq<char>) -> bool {
    name == "run_command"@ || name == "poll_command"@ || name == "cancel_command"@
}

/// The command that a call is about: the one in the data that came back, or the one in
/// the arguments, or none.
pub open spec fn command_of(args: JsonModel, data: Option<JsonModel>) -> Seq<char> {
    match text_of(data_field(data, "command"@)) {
        Some(c) => c,
        None => match text_of(args.field("command"@)) {
            Some(c) => c,
            None => ""@,
        },
    }
}

/// The command that a call is about.
pub fn call_command(args: &Json, result: &ToolCallResult) -> (r: String)
    ensures
        r@ == command_of(args.model(), opt_value(result.data)),
{
    if let Some(Json::Text(s)) = get_field(&result.data, "command") {
        return s.clone();
    }
    match args.text_field("command") {
        Some(s) => s,
        None => "".to_owned(),
    }
}

/// What is made known of a command that verifies the work.
pub open spec fn verification_json(
    scope_id: Seq<char>,
    command: Seq<char>,
    data: Option<JsonModel>,
    error: Option<Seq<char>>,
) -> JsonModel {
    JsonModel::Object(
        seq![
            ("scope_id"@, JsonModel::Text(scope_id)),
            ("command_id"@, or_null(data_field(data, "command_id"@))),
            ("command"@, JsonModel::Text(command)),
            ("status"@, or_null(data_field(data, "status"@))),
            (
                "command_success"@,
                JsonModel::Bool(bool_of(data_field(data, "command_success"@)) == Some(true)),
            ),
            ("exit_code"@, or_null(data_field(data, "exit_code"@))),
            ("duration_ms"@, or_null(data_field(data, "elapsed_ms"@))),
            (
                "timed_out"@,
                JsonModel::Bool(bool_of(data_field(data, "timed_out"@)) == Some(true)),
            ),
            ("workspace_revision"@, or_null(data_field(data, "workspace_revision"@))),
            ("evidence_status"@, or_null(data_field(data, "evidence_status"@))),
            ("tool_error"@, text_or_null(error)),
        ],
    )
}

fn verification_value(scope_id: &str, command: &str, result: &ToolCallResult) -> (r: Json)
    ensures
        r.model() == verification_json(
            scope_id@,
            command@,
            opt_value(result.data),
            opt_text(result.error),
        ),
{
    let d = &result.data;
    let mut f = no_fields();
    put(&mut f, "scope_id", Json::text(scope_id));
    put(&mut f, "command_id", Json::opt_copy(get_field(d, "command_id")));
    put(&mut f, "command", Json::text(command));
    put(&mut f, "status", Json::opt_copy(get_field(d, "status")));
    put(&mut f, "command_success", Json::Bool(flag(get_field(d, "command_success"))));
    put(&mut f, "exit_code", Json::opt_copy(get_field(d, "exit_code")));
    put(&mut f, "duration_ms", Json::opt_copy(get_field(d, "elapsed_ms")));
    put(&mut f, "timed_out", Json::Bool(flag(get_field(d, "timed_out"))));
    put(&mut f, "workspace_revision", Json::opt_copy(get_field(d, "workspace_revision")));
    put(&mut f, "evidence_status", Json::opt_copy(get_field(d, "evidence_status")));
    put(&mut f, "tool_error", Json::opt_text(&result.error));
    assert(field_models(f@) =~= verification_json(
        scope_id@,
        command@,
        opt_value(result.data),
        opt_text(result.error),
    )->Object_0);
    Json::Object(f)
}

/// The work is complete, as far as the data of the check says.
pub open spec fn is_ready(data: Option<JsonModel>) -> bool {
    bool_of(data_field(data, "ready"@)) == Some(true)
}

/// What stands in the way of completion.
pub open spec fn blockers_of(data: Option<JsonModel>) -> JsonModel {
    match data_field(data, "blockers"@) {
        Some(b) => b,
        None => JsonModel::Array(Seq::empty()),
    }
}

fn blockers_value(data: &Option<Json>) -> (r: Json)
    ensures
        r.model() == blockers_of(opt_value(*data)),
{
    match get_field(data, "blockers") {
        Some(b) => b.copy(),
        None => Json::Array(crate::json::no_values()),
    }
}

/// What is made known of a check for completion.
pub open spec fn completion_json(
    scope_id: Seq<char>,
    data: Option<JsonModel>,
    success: bool,
    error: Option<Seq<char>>,
) -> JsonModel {
    JsonModel::Object(
        seq![
            ("scope_id"@, JsonModel::Text(scope_id)),
            ("ready"@, JsonModel::Bool(is_ready(data))),
            ("blockers"@, blockers_of(data)),
            ("workspace_revision"@, or_null(data_field(data, "workspace_revision"@))),
            ("verification_evidence"@, or_null(data_field(data, "verification_evidence"@))),
            ("tool_success"@, JsonModel::Bool(success)),
            ("tool_error"@, text_or_null(error)),
        ],
    )
}

fn completion_value(scope_id: &str, result: &ToolCallResult) -> (r: Json)
    ensures
        r.model() == completion_json(
            scope_id@,
            opt_value(result.data),
            result.success,
            opt_text(result.error),
        ),
{
    let d = &result.data;
    let mut f = no_fields();
    put(&mut f, "scope_id", Json::text(scope_id));
    put(&mut f, "ready", Json::Bool(flag(get_field(d, "ready"))));
    put(&mut f, "blockers", blockers_value(d));
    put(&mut f, "workspace_revision", Json::opt_copy(get_field(d, "workspace_revision")));
    put(&mut f, "verification_evidence", Json::opt_copy(get_field(d, "verification_evidence")));
    put(&mut f, "tool_success", Json::Bool(result.success));
    put(&mut f, "tool_error", Json::opt_text(&result.error));
    assert(field_models(f@) =~= completion_json(
        scope_id@,
        opt_value(result.data),
        result.success,
        opt_text(result.error),
    )->Object_0);
    Json::Object(f)
}

/// The lines on the texts among some values.
pub open spec fn text_lines(v: Seq<JsonModel>) -> Seq<Seq<char>>
    decreases v.len(),
{
    if v.len() == 0 {
        Seq::empty()
    } else {
        let before = text_lines(v.drop_last());
        match v.last() {
            JsonModel::Text(s) => before.push("- "@ + s),
            _ => before,
        }
    }
}

pub const NOT_READY: &'static str = "- completion_check did not return ready=true";

/// The lines on what stands in the way of completion.
pub open spec fn blocker_lines(blockers: JsonModel) -> Seq<char> {
    match blockers {
        JsonModel::Array(v) => if joined(text_lines(v), "\n"@).len() > 0 {
            joined(text_lines(v), "\n"@)
        } else {
            NOT_READY@
        },
        _ => NOT_READY@,
    }
}

fn lines_of_blockers(blockers: &Json) -> (r: String)
    ensures
        r@ == blocker_lines(blockers.model()),
{
    let list = match blockers {
        Json::Array(v) => v,
        _ => {
            return NOT_READY.to_owned();
        },
    };
    let ghost all = crate::json::models(list@);
    let mut lines = no_texts();
    let mut i: usize = 0;
    assert(all.subrange(0, 0) =~= Seq::empty());
    while i < list.len()
        invariant
            i <= list@.len(),
            all == crate::json::models(list@),
            texts(lines@) == text_lines(all.subrange(0, i as int)),
        decreases list@.len() - i,
    {
        proof {
            let next = all.subrange(0, i + 1);
            assert(next.drop_last() =~= all.subrange(0, i as int));
            assert(next.last() == list@[i as int].model());
        }
        if let Json::Text(s) = &list[i] {
            push_text(&mut lines, "- ".to_owned().concat(s.as_str()).as_str());
        }
        i += 1;
    }
    assert(all.subrange(0, all.len() as int) =~= all);
    let text = join(&lines, "\n");
    if text.as_str().is_empty() {
        NOT_READY.to_owned()
    } else {
        text
    }
}

pub const CONTINUE_HEAD: &'static str = "The coding task for scope ";

pub const CONTINUE_BODY: &'static str =
    " is not complete. Continue working in this same ChatGPT conversation.\n\nCompletion blockers:\n";

pub const CONTINUE_TAIL: &'static str =
    " on every omo-bridge tool call. Recover task_state and list_commands if context was compacted, resolve every blocker, poll or cancel any outstanding commands, rerun revision-fresh verification, inspect git_status_diff, and call completion_check again. Do not stop until completion_check returns ready=true unless an external blocker makes progress impossible.";

/// The prompt with which a worker is sent back to work.
pub open spec fn continuation_prompt(scope_id: Seq<char>, blockers: JsonModel) -> Seq<char> {
    CONTINUE_HEAD@ + scope_id + CONTINUE_BODY@ + blocker_lines(blockers) + "\n\nUse scope_id "@
        + scope_id + CONTINUE_TAIL@
}

/// What is made known of a worker that has to go on.
pub open spec fn continuation_json(scope_id: Seq<char>, blockers: JsonModel) -> JsonModel {
    JsonModel::Object(
        seq![
            ("scope_id"@, JsonModel::Text(scope_id)),
            ("prompt"@, JsonModel::Text(continuation_prompt(scope_id, blockers))),
            ("blockers"@, blockers),
            ("relay_to_same_chat"@, JsonModel::Bool(true)),
        ],
    )
}

fn continuation_value(scope_id: &str, blockers: &Json) -> (r: Json)
    ensures
        r.model() == continuation_json(scope_id@, blockers.model()),
{
    let prompt = CONTINUE_HEAD.to_owned().concat(scope_id).concat(CONTINUE_BODY).concat(
        lines_of_blockers(blockers).as_str(),
    ).concat("\n\nUse scope_id ").concat(scope_id).concat(CONTINUE_TAIL);
    let mut f = no_fields();
    put(&mut f, "scope_id", Json::text(scope_id));
    put(&mut f, "prompt", Json::Text(prompt));
    put(&mut f, "blockers", blockers.copy());
    put(&mut f, "relay_to_same_chat", Json::Bool(true));
    assert(field_models(f@) =~= continuation_json(scope_id@, blockers.model())->Object_0);
    Json::Object(f)
}

/// What is made known of a call; `verifies` says whether its command verifies the work.
/// A check for completion that does not come out ready sends the worker back to work.
pub open spec fn call_notices(
    scope_id: Seq<char>,
    name: Seq<char>,
    args: JsonModel,
    data: Option<JsonModel>,
    success: bool,
    error: Option<Seq<char>>,
    verifies: bool,
) -> Seq<(Seq<char>, JsonModel)> {
    if runs_commands(name) {
        if verifies {
            seq![
                (
                    "verification"@,
                    verification_json(scope_id, command_of(args, data), data, error),
                ),
            ]
        } else {
            Seq::empty()
        }
    } else if name == "completion_check"@ {
        let completion = ("completion"@, completion_json(scope_id, data, success, error));
        if is_ready(data) {
            seq![completion]
        } else {
            seq![
                completion,
                ("continuation_required"@, continuation_json(scope_id, blockers_of(data))),
            ]
        }
    } else {
        Seq::empty()
    }
}

proof fn lemma_completion_runs_nothing()
    ensures
        !runs_commands("completion_check"@),
{
    reveal_strlit("completion_check");
    reveal_strlit("run_command");
    reveal_strlit("poll_command");
    reveal_strlit("cancel_command");
    assert("completion_check"@.len() == 16);
    assert("run_command"@.len() == 11);
    assert("poll_command"@.len() == 12);
    assert("cancel_command"@.len() == 14);
}

/// What is made known of a call.
pub fn specialized_notices(
    scope_id: &str,
    name: &str,
    args: &Json,
    result: &ToolCallResult,
    verifies: bool,
) -> (r: Vec<Notice>)
    ensures
        notices_of(r@) == call_notices(
            scope_id@,
            name@,
            args.model(),
            opt_value(result.data),
            result.success,
            opt_text(result.error),
            verifies,
        ),
{
    let mut out: Vec<Notice> = Vec::new();
    proof {
        lemma_completion_runs_nothing();
        assert(notices_of(out@) =~= Seq::empty());
    }
    if same_text(name, "run_command") || same_text(name, "poll_command") || same_text(
        name,
        "cancel_command",
    ) {
        if verifies {
            let command = call_command(args, result);
            let data = verification_value(scope_id, command.as_str(), result);
            let ghost m = data.model();
            out.push(Notice { kind: "verification", data });
            assert(notices_of(out@) =~= seq![("verification"@, m)]);
        }
        return out;
    }
    if same_text(name, "completion_check") {
        let data = completion_value(scope_id, result);
        let ghost m = data.model();
        out.push(Notice { kind: "completion", data });
        assert(notices_of(out@) =~= seq![("completion"@, m)]);
        if !flag(get_field(&result.data, "ready")) {
            let blockers = blockers_value(&result.data);
            let more = continuation_value(scope_id, &blockers);
            let ghost n = more.model();
            out.push(Notice { kind: "continuation_required", data: more });
            assert(notices_of(out@) =~= seq![("completion"@, m), ("continuation_required"@, n)]);
        }
    }
    out
}

/// Making some notices known one after the other leads from one state of a bus to
/// another.
pub open spec fn all_published(
    notices: Seq<Notice>,
    from: int,
    before: EventBus,
    after: EventBus,
    now_ms: u64,
    events: Seq<EventModel>,
) -> bool
    decreases notices.len() - from,
{
    if from < 0 || from >= notices.len() {
        after == before && events.len() == 0
    } else {
        &&& events.len() > 0
        &&& exists|mid: EventBus|
            {
                &&& #[trigger] published(
                    before,
                    mid,
                    notices[from].kind@,
                    notices[from].data.model(),
                    now_ms,
                    events[0],
                )
                &&& all_published(notices, from + 1, mid, after, now_ms, events.drop_first())
            }
    }
}

pub open spec fn event_models(v: Seq<HarnessEvent>) -> Seq<EventModel> {
    v.map_values(|e: HarnessEvent| e@)
}

fn publish_from(events: &mut EventBus, notices: &Vec<Notice>, from: usize, now_ms: u64) -> (r: Vec<
    HarnessEvent,
>)
    requires
        from <= notices@.len(),
    ensures
        all_published(
            notices@,
            from as int,
            *old(events),
            *final(events),
            now_ms,
            event_models(r@),
        ),
    decreases notices@.len() - from,
{
    if from == notices.len() {
        return Vec::new();
    }
    let first = events.publish(notices[from].kind, notices[from].data.copy(), now_ms);
    let ghost e = first@;
    assert(published(
        *old(events),
        *events,
        notices@[from as int].kind@,
        notices@[from as int].data.model(),
        now_ms,
        e,
    ));
    let mut rest = publish_from(events, notices, from + 1, now_ms);
    let ghost tail = event_models(rest@);
    rest.insert(0, first);
    assert(event_models(rest@).drop_first() =~= tail);
    assert(event_models(rest@)[0] == e);
    rest
}

/// Makes known what there is to make known of a call, and returns the events.
pub fn publish_specialized_events(
    events: &mut EventBus,
    scope_id: &str,
    name: &str,
    args: &Json,
    result: &ToolCallResult,
    verifies: bool,
    now_ms: u64,
) -> (r: Vec<HarnessEvent>)
    ensures
        exists|notices: Seq<Notice>|
            {
                &&& notices_of(notices) == call_notices(
                    scope_id@,
                    name@,
                    args.model(),
                    opt_value(result.data),
                    result.success,
                    opt_text(result.error),
                    verifies,
                )
                &&& #[trigger] all_published(
                    notices,
                    0,
                    *old(events),
                    *final(events),
                    now_ms,
                    event_models(r@),
                )
            },
{
    let notices = specialized_notices(scope_id, name, args, result, verifies);
    let r = publish_from(events, &notices, 0, now_ms);
    assert(all_published(notices@, 0, *old(events), *events, now_ms, event_models(r@)));
    r
}

/// A worker is sent back to work exactly where its check for completion did not come out
/// ready.
pub proof fn lemma_unready_check_continues(
    scope_id: Seq<char>,
    args: JsonModel,
    data: Option<JsonModel>,
    success: bool,
    error: Option<Seq<char>>,
    verifies: bool,
)
    ensures
        ({
            let n = call_notices(
                scope_id,
                "completion_check"@,
                args,
                data,
                success,
                error,
                verifies,
            );
            &&& n[0] == ("completion"@, completion_json(scope_id, data, success, error))
            &&& n.len() == (if is_ready(data) {
                1int
            } else {
                2int
            })
            &&& !is_ready(data) ==> n[1] == (
                "continuation_required"@,
                continuation_json(scope_id, blockers_of(data)),
            )
        }),
{
    lemma_completion_runs_nothing();
}

} // verus!
