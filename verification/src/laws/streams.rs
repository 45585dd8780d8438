//! What holds of events: how they are numbered, kept, read and followed, and of the log of what
//! happened.
use crate::events::{event_object, first_seq, last_waiting, pending_after, published, scope_of,
    EventBus, EventModel, HarnessEvent, Waiting};
use crate::json::{lemma_first_field_is_held, lemma_held_value_is_read,
    lemma_lacking_value_is_not_read, lemma_read_value_is_held, object_holds, object_lacks,
    JsonModel};
use crate::laws::texts::lemma_ends_of_a_text;
use crate::orca::BrowserDriverKind;
use crate::outside::is_uuid;
use crate::relay::{after_line, continuation_of, event_action, fed, last_followed, line_bytes,
    relay_next, ActionModel, FrameModel, MessageModel, RelayLog, RelaySeen, StepModel, StreamModel};
use crate::security::workspace::WorkspaceMux;
use crate::shelf::Slot;
use crate::telemetry::{appended, event_of, fallback_dir, lockout, window_start, TelemetryErrorCode,
    TelemetryEvent, TelemetryEventType, TelemetryModelHint};
use crate::text::{decimal, has_prefix, joined, lossy, parsed_u64, trimmed, trimmed_front};
use vstd::prelude::*;

verus! {

/// A line of an event says what it is: its kind, its number or a line of its data. A line that
/// begins with a colon says nothing, and none of these ends the event.
pub proof fn lemma_lines_of_an_event(f: FrameModel, v: Seq<char>)
    ensures
        after_line(f, "event:"@ + v) == (
            FrameModel { event: trimmed(v), ..f },
            None::<crate::relay::MessageModel>,
        ),
        after_line(f, "id:"@ + v) == (
            FrameModel { id: parsed_u64(trimmed(v)), ..f },
            None::<crate::relay::MessageModel>,
        ),
        after_line(f, "data:"@ + v) == (
            FrameModel { data: f.data.push(trimmed_front(v)), ..f },
            None::<crate::relay::MessageModel>,
        ),
        after_line(f, ":"@ + v) == (f, None::<crate::relay::MessageModel>),
{
    reveal_strlit("event:");
    reveal_strlit("id:");
    reveal_strlit("data:");
    reveal_strlit(":");
    lemma_ends_of_a_text("event:"@, v);
    lemma_ends_of_a_text("id:"@, v);
    lemma_ends_of_a_text("data:"@, v);
    lemma_ends_of_a_text(":"@, v);
    lemma_first_mark("event:"@ + v, 'e');
    lemma_first_mark("id:"@ + v, 'i');
    lemma_first_mark("data:"@ + v, 'd');
    let e = "event:"@ + v;
    let i = "id:"@ + v;
    let d = "data:"@ + v;
    assert(e.subrange(6, e.len() as int) =~= v);
    assert(i.subrange(3, i.len() as int) =~= v);
    assert(d.subrange(5, d.len() as int) =~= v);
}

proof fn lemma_first_mark(s: Seq<char>, c: char)
    requires
        s.len() > 0,
        s[0] == c,
    ensures
        c != ':' ==> !has_prefix(s, ":"@),
        c != 'e' ==> !has_prefix(s, "event:"@),
        c != 'i' ==> !has_prefix(s, "id:"@),
        c != 'd' ==> !has_prefix(s, "data:"@),
{
    reveal_strlit("event:");
    reveal_strlit("id:");
    reveal_strlit("data:");
    reveal_strlit(":");
    if has_prefix(s, ":"@) {
        assert(s.subrange(0, 1)[0] == s[0]);
    }
    if has_prefix(s, "event:"@) {
        assert(s.subrange(0, 6)[0] == s[0]);
    }
    if has_prefix(s, "id:"@) {
        assert(s.subrange(0, 3)[0] == s[0]);
    }
    if has_prefix(s, "data:"@) {
        assert(s.subrange(0, 5)[0] == s[0]);
    }
}

/// A blank line ends the event that was read: it has the kind and the number that its lines gave,
/// and its data are their lines. Then nothing of it is left.
pub proof fn lemma_blank_line_ends_an_event(f: FrameModel)
    ensures
        f.event.len() > 0 || f.data.len() > 0 ==> {
            let (next, m) = after_line(f, Seq::empty());
            &&& next.event.len() == 0 && next.id is None && next.data.len() == 0
            &&& m is Some
            &&& m->0.event == f.event
            &&& m->0.id == f.id
            &&& m->0.data == joined(f.data, "\n"@)
        },
        f.event.len() == 0 && f.data.len() == 0 ==> after_line(f, Seq::empty()) == (
            f,
            None::<crate::relay::MessageModel>,
        ),
{
}

/// The relay acts on four kinds of events: a connection, a completion, an order to go on, and a
/// warning that events were missed.
pub proof fn lemma_events_that_the_relay_acts_on(event: Seq<char>, payload: JsonModel)
    ensures
        event_action(event, payload) is NoteConnected <==> event == "connected"@,
        event_action(event, payload) is NoteCompletion <==> event == "completion"@,
        event_action(event, payload) is Continue <==> event == "continuation_required"@,
        event_action(event, payload) is WarnLagged <==> event == "lagged"@,
        forall|n: u64|
            event == "connected"@ && #[trigger] object_holds(
                payload,
                "seq"@,
                JsonModel::Unsigned(n),
            ) ==> event_action(event, payload) == ActionModel::NoteConnected(Some(n)),
{
    reveal_strlit("connected");
    reveal_strlit("completion");
    reveal_strlit("continuation_required");
    reveal_strlit("lagged");
    assert("connected"@.len() == 9);
    assert("completion"@.len() == 10);
    assert("continuation_required"@.len() == 21);
    assert("lagged"@.len() == 6);
    assert forall|n: u64| #[trigger]
        object_holds(payload, "seq"@, JsonModel::Unsigned(n)) implies payload.field("seq"@) == Some(
        JsonModel::Unsigned(n),
    ) by {
        lemma_held_value_is_read(payload, "seq"@, JsonModel::Unsigned(n));
    }
}

/// A completion is noted for the scope that its data name, as ready only where they say so.
pub proof fn lemma_completion_is_noted(payload: JsonModel, data: JsonModel, scope_id: Seq<char>)
    requires
        object_holds(payload, "data"@, data),
        object_holds(data, "scope_id"@, JsonModel::Text(scope_id)),
    ensures
        event_action("completion"@, payload) == ActionModel::NoteCompletion(
            scope_id,
            object_holds(data, "ready"@, JsonModel::Bool(true)),
        ),
{
    reveal_strlit("connected");
    reveal_strlit("completion");
    assert("connected"@.len() == 9);
    assert("completion"@.len() == 10);
    lemma_held_value_is_read(payload, "data"@, data);
    lemma_held_value_is_read(data, "scope_id"@, JsonModel::Text(scope_id));
    lemma_read_value_is_held(data, "ready"@);
    if object_holds(data, "ready"@, JsonModel::Bool(true)) {
        lemma_held_value_is_read(data, "ready"@, JsonModel::Bool(true));
    }
}

/// An order names a scope and a prompt, each more than white space, and says that the prompt goes to
/// the same chat; else it is none. It has the number of its event.
pub proof fn lemma_orders_are_read(
    payload: JsonModel,
    data: JsonModel,
    scope_id: Seq<char>,
    prompt: Seq<char>,
    seq: u64,
)
    requires
        object_holds(payload, "data"@, data),
        object_holds(data, "scope_id"@, JsonModel::Text(scope_id)),
        object_holds(data, "prompt"@, JsonModel::Text(prompt)),
    ensures
        continuation_of(payload) is Some <==> {
            &&& trimmed(scope_id).len() > 0
            &&& trimmed(prompt).len() > 0
            &&& object_holds(data, "relay_to_same_chat"@, JsonModel::Bool(true))
        },
        continuation_of(payload) matches Some(c) ==> {
            &&& c.scope_id == trimmed(scope_id)
            &&& c.prompt == trimmed(prompt)
            &&& object_holds(payload, "seq"@, JsonModel::Unsigned(seq)) ==> c.seq == seq
            &&& object_lacks(payload, "seq"@) ==> c.seq == 0
        },
{
    lemma_held_value_is_read(payload, "data"@, data);
    lemma_held_value_is_read(data, "scope_id"@, JsonModel::Text(scope_id));
    lemma_held_value_is_read(data, "prompt"@, JsonModel::Text(prompt));
    lemma_read_value_is_held(data, "relay_to_same_chat"@);
    if object_holds(data, "relay_to_same_chat"@, JsonModel::Bool(true)) {
        lemma_held_value_is_read(data, "relay_to_same_chat"@, JsonModel::Bool(true));
    }
    if object_holds(payload, "seq"@, JsonModel::Unsigned(seq)) {
        lemma_held_value_is_read(payload, "seq"@, JsonModel::Unsigned(seq));
    }
    if object_lacks(payload, "seq"@) {
        lemma_lacking_value_is_not_read(payload, "seq"@);
    }
}

/// An order is passed over only where it is none, or where an order with its number or a later one
/// was followed for its scope; one without a number is always followed. A scope that is not known
/// fails it.
pub proof fn lemma_new_orders_are_followed(
    mux: WorkspaceMux,
    log: RelayLog,
    dry_run: bool,
    payload: JsonModel,
    seen: RelaySeen,
)
    ensures
        ({
            let step = relay_next(mux, log, dry_run, payload, seen);
            &&& step is Incomplete <==> continuation_of(payload) is None
            &&& step is Duplicate <==> (continuation_of(payload) matches Some(c) && 0 < c.seq
                <= last_followed(log, c.scope_id))
            &&& (continuation_of(payload) is Some && step !is Duplicate && mux.found(
                continuation_of(payload)->0.scope_id,
            ) is Err) ==> step is Failed
        }),
{
}

/// An order for a scope with a page is sent to that page once, and is followed where that went well;
/// one that is only rehearsed is followed without being sent.
pub proof fn lemma_page_gets_the_order(
    mux: WorkspaceMux,
    log: RelayLog,
    dry_run: bool,
    payload: JsonModel,
    seen: RelaySeen,
    page: Seq<char>,
)
    requires
        continuation_of(payload) is Some,
        continuation_of(payload)->0.seq == 0 || continuation_of(payload)->0.seq > last_followed(
            log,
            continuation_of(payload)->0.scope_id,
        ),
        mux.found(continuation_of(payload)->0.scope_id) is Ok,
        mux.found(continuation_of(payload)->0.scope_id)->Ok_0.browser_page_id == Some(page),
    ensures
        ({
            let step = relay_next(mux, log, dry_run, payload, seen);
            &&& dry_run ==> step is Followed
            &&& !dry_run && seen.page_sent is None ==> step == StepModel::SendToPage(page)
            &&& !dry_run && (seen.page_sent matches Some(r) && r is Ok) ==> step is Followed
            &&& !dry_run && (seen.page_sent matches Some(r) && r is Err) ==> step is Failed
        }),
{
}

/// An order for a scope without a page goes to the terminal that shows the scope's mark, once that
/// is noted, or else to the one that was noted before; where it does not arrive, the terminal is
/// looked for once more. Without any terminal it fails.
pub proof fn lemma_terminal_gets_the_order(
    mux: WorkspaceMux,
    log: RelayLog,
    payload: JsonModel,
    seen: RelaySeen,
)
    requires
        continuation_of(payload) is Some,
        continuation_of(payload)->0.seq == 0 || continuation_of(payload)->0.seq > last_followed(
            log,
            continuation_of(payload)->0.scope_id,
        ),
        mux.found(continuation_of(payload)->0.scope_id) is Ok,
        mux.found(continuation_of(payload)->0.scope_id)->Ok_0.browser_page_id is None,
    ensures
        ({
            let step = relay_next(mux, log, false, payload, seen);
            let noted = mux.found(continuation_of(payload)->0.scope_id)->Ok_0.terminal;
            let found = seen.found is Some && seen.found->0 is Ok;
            let missed = seen.found is Some && seen.found->0 is Err;
            let fresh = seen.found->0->Ok_0@;
            let settled = noted == Some(fresh) || (seen.noted is Some && seen.noted->0 is Ok);
            &&& seen.found is None ==> step is FindTerminal
            &&& found && noted != Some(fresh) && seen.noted is None ==> step
                == StepModel::NoteTerminal(fresh)
            &&& found && settled && seen.sent is None ==> step == StepModel::SendToTerminal(fresh)
            &&& missed && noted is None ==> step is Failed
            &&& missed && noted is Some && seen.sent is None ==> step == StepModel::SendToTerminal(
                noted->0,
            )
            &&& ((found && settled) || (missed && noted is Some)) && seen.sent is Some ==> {
                &&& seen.sent->0 is Ok ==> step is Followed
                &&& seen.sent->0 is Err && seen.found_again is None ==> step is FindTerminalAgain
                &&& seen.sent->0 is Err && (seen.found_again matches Some(r) && r is Err)
                    ==> step is Failed
                &&& seen.sent->0 is Err && (seen.found_again matches Some(r) && r is Ok) ==> {
                    let again = seen.found_again->0->Ok_0@;
                    &&& seen.sent_again is None ==> step == StepModel::SendAgain(again)
                    &&& (seen.sent_again matches Some(r) && r is Err) ==> step is Failed
                    &&& (seen.sent_again matches Some(r) && r is Ok) && seen.noted_again is None
                        ==> step == StepModel::NoteTerminalAgain(again)
                    &&& (seen.sent_again matches Some(r) && r is Ok) && (seen.noted_again matches
                        Some(r) && r is Ok) ==> step is Followed
                }
            }
        }),
{
}

/// An event is written with all that it says.
pub proof fn lemma_event_is_written(e: EventModel)
    ensures
        ({
            let v = event_object(e);
            &&& object_holds(v, "seq"@, JsonModel::Unsigned(e.seq))
            &&& object_holds(v, "kind"@, JsonModel::Text(e.kind))
            &&& object_holds(v, "timestamp_ms"@, JsonModel::Unsigned(e.timestamp_ms))
            &&& object_holds(v, "workspace"@, JsonModel::Text(e.workspace))
            &&& object_holds(v, "data"@, e.data)
        }),
{
    reveal_strlit("seq");
    reveal_strlit("kind");
    reveal_strlit("timestamp_ms");
    reveal_strlit("workspace");
    reveal_strlit("data");
    assert("seq"@.len() == 3);
    assert("kind"@.len() == 4);
    assert("timestamp_ms"@.len() == 12);
    assert("workspace"@.len() == 9);
    assert("data"@.len() == 4);
    assert("kind"@[0] != "data"@[0]);
    let fields = event_object(e)->Object_0;
    assert(fields[0].0 == "seq"@);
    assert(fields[1].0 == "kind"@);
    assert(fields[2].0 == "timestamp_ms"@);
    assert(fields[3].0 == "workspace"@);
    assert(fields[4].0 == "data"@);
    lemma_first_field_is_held(fields, 0, "seq"@, JsonModel::Unsigned(e.seq));
    lemma_first_field_is_held(fields, 1, "kind"@, JsonModel::Text(e.kind));
    lemma_first_field_is_held(fields, 2, "timestamp_ms"@, JsonModel::Unsigned(e.timestamp_ms));
    lemma_first_field_is_held(fields, 3, "workspace"@, JsonModel::Text(e.workspace));
    lemma_first_field_is_held(fields, 4, "data"@, e.data);
}

/// An event that is published says what it was given, in the workspace of the bus; the next one has
/// the next number.
pub proof fn lemma_events_are_numbered(
    before: EventBus,
    mid: EventBus,
    after: EventBus,
    kind: Seq<char>,
    data: JsonModel,
    now_ms: u64,
    event: EventModel,
    next_kind: Seq<char>,
    next_data: JsonModel,
    next_ms: u64,
    next: EventModel,
)
    requires
        published(before, mid, kind, data, now_ms, event),
        published(mid, after, next_kind, next_data, next_ms, next),
    ensures
        event.kind == kind,
        event.data == data,
        event.timestamp_ms == now_ms,
        event.workspace == before.workspace@,
        event.seq == before.next_seq,
        next.workspace == event.workspace,
        event.seq < u64::MAX ==> next.seq == event.seq + 1,
        event.seq == u64::MAX ==> next.seq == 0,
        event.seq < u64::MAX ==> mid.latest() == event.seq,
{
}

/// Only an order to go on and the completion of a ready scope change what waits; every other event
/// leaves it as it is.
pub proof fn lemma_other_events_leave_the_wait(
    before: Seq<Slot<Option<HarnessEvent>>>,
    after: Seq<Slot<Option<HarnessEvent>>>,
    event: EventModel,
)
    requires
        pending_after(before, after, event),
        scope_of(event.data) is None || (event.kind != "continuation_required"@ && event.kind
            != "completion"@) || (event.kind == "completion"@ && event.data.field("ready"@) != Some(
            JsonModel::Bool(true),
        )),
    ensures
        after == before,
{
    reveal_strlit("continuation_required");
    reveal_strlit("completion");
    assert("continuation_required"@.len() == 21);
    assert("completion"@.len() == 10);
}

/// The scope of an event is the one that its data name, where that is the id of one.
pub proof fn lemma_scope_of_an_event(data: JsonModel, id: Seq<char>)
    ensures
        object_holds(data, "scope_id"@, JsonModel::Text(id)) ==> scope_of(data) == (if is_uuid(id) {
            Some(id)
        } else {
            None
        }),
        object_lacks(data, "scope_id"@) ==> scope_of(data) is None,
{
    if object_holds(data, "scope_id"@, JsonModel::Text(id)) {
        lemma_held_value_is_read(data, "scope_id"@, JsonModel::Text(id));
    }
    if object_lacks(data, "scope_id"@) {
        lemma_lacking_value_is_not_read(data, "scope_id"@);
    }
}

/// A bus that finds waiting events counts on from the last of them.
pub proof fn lemma_numbers_go_on(w: Seq<Waiting>, i: int)
    requires
        0 <= i < w.len(),
        w[i].seq < u64::MAX,
    ensures
        w[i].seq <= last_waiting(w),
        first_seq(w) > w[i].seq,
        first_seq(Seq::empty()) == 1,
    decreases w.len(),
{
    if i < w.len() - 1 {
        lemma_numbers_go_on(w.drop_last(), i);
        assert(w.drop_last()[i] == w[i]);
    }
}

/// A row of the log says what it was given; a delay is kept where it counts. No row is made for
/// generation zero, for an id that names no scope, or for an account without a name.
pub proof fn lemma_row_says_what_it_was_given(
    scope_id: Seq<char>,
    generation: u64,
    account_id: Option<Seq<char>>,
    driver: BrowserDriverKind,
    model_hint: TelemetryModelHint,
    event_type: TelemetryEventType,
    reset_after_seconds: Option<u64>,
    error_code: TelemetryErrorCode,
    now_ms: u64,
)
    ensures
        ({
            let row = event_of(
                scope_id,
                generation,
                account_id,
                driver,
                model_hint,
                event_type,
                reset_after_seconds,
                error_code,
                now_ms,
            );
            &&& row is Some <==> generation > 0 && is_uuid(scope_id) && (account_id matches Some(a)
                ==> a.len() > 0)
            &&& row matches Some(e) ==> {
                &&& e.timestamp_ms == now_ms
                &&& e.scope_id == scope_id
                &&& e.account_id == account_id
                &&& e.generation == generation
                &&& e.driver == driver
                &&& e.model_hint == model_hint
                &&& e.event_type == event_type
                &&& e.error_code == error_code
                &&& reset_after_seconds is None ==> e.reset_after_seconds is None
                &&& reset_after_seconds matches Some(s) ==> e.reset_after_seconds == (if 1 <= s
                    <= 31 * 24 * 60 * 60 {
                    Some(s)
                } else {
                    None
                })
            }
        }),
{
    if account_id matches Some(a) && a.len() == 0 {
        assert(account_id->0 =~= Seq::<char>::empty());
    }
}

/// A row is put at the end of the log, on a line of its own; a log that stays within a mebibyte
/// loses nothing by it.
pub proof fn lemma_rows_are_added_at_the_end(file: Seq<u8>, row: Seq<u8>)
    requires
        file.len() + row.len() + 1 <= 1_048_576,
    ensures
        appended(file, row) == file + row + seq![10u8],
{
    assert(appended(file, row) =~= file + row + seq![10u8]);
}

/// A rate limit locks out until its delay is over, or for a quarter of an hour where it gave none;
/// the last one that is not over counts, and what is left of it is told in whole seconds.
pub proof fn lemma_last_rate_limit_locks_out(
    events: Seq<TelemetryEvent>,
    e: TelemetryEvent,
    now_ms: u64,
)
    ensures
        lockout(Seq::empty(), now_ms) is None,
        e.event_type !is RateLimited ==> lockout(events.push(e), now_ms) == lockout(events, now_ms),
        (e.event_type is RateLimited && e.reset_after_seconds is Some) ==> {
            let end = e.timestamp_ms + e.reset_after_seconds->0 * 1000;
            &&& end <= now_ms ==> lockout(events.push(e), now_ms) == lockout(events, now_ms)
            &&& now_ms < end <= u64::MAX ==> lockout(events.push(e), now_ms) == Some(
                (e.timestamp_ms, Some(((end - now_ms) / 1000) as u64)),
            )
        },
        (e.event_type is RateLimited && e.reset_after_seconds is None) ==> {
            let end = e.timestamp_ms + 15 * 60 * 1000;
            &&& end <= now_ms ==> lockout(events.push(e), now_ms) == lockout(events, now_ms)
            &&& now_ms < end <= u64::MAX ==> lockout(events.push(e), now_ms) == Some(
                (e.timestamp_ms, Some(((end - now_ms) / 1000) as u64)),
            )
        },
{
    assert(events.push(e).drop_last() =~= events);
}

/// A window reaches back from now as far as it is long.
pub proof fn lemma_window_reaches_back(window_ms: u64, now_ms: u64, t: u64)
    requires
        t <= now_ms,
    ensures
        t >= window_start(window_ms, now_ms) <==> now_ms - t <= window_ms,
{
}

/// Two users never share a directory for the log.
pub proof fn lemma_users_have_their_own_log(a: u32, b: u32)
    requires
        a != b,
    ensures
        fallback_dir(Some(a)) != fallback_dir(Some(b)),
        fallback_dir(Some(a)) != fallback_dir(None),
{
    crate::laws::texts::lemma_decimal_is_read_back(a as nat);
    crate::laws::texts::lemma_decimal_is_read_back(b as nat);
    reveal_strlit("omo-telemetry-");
    reveal_strlit("omo-telemetry");
    let x = fallback_dir(Some(a));
    let y = fallback_dir(Some(b));
    assert(x.subrange(14, x.len() as int) =~= decimal(a as nat));
    assert(y.subrange(14, y.len() as int) =~= decimal(b as nat));
    assert(fallback_dir(None).len() == 13);
}

/// A byte waits for the end of its line; the end of a line hands the line on.
pub proof fn lemma_bytes_wait_for_their_line(s: StreamModel, b: u8)
    ensures
        fed(s, Seq::empty()) == (s, Seq::<MessageModel>::empty()),
        b != 10 ==> {
            let (t, out) = fed(s, seq![b]);
            t.pending == s.pending.push(b) && t.frame == s.frame && out.len() == 0
        },
        b == 10 ==> {
            let (t, out) = fed(s, seq![b]);
            let (frame, message) = after_line(s.frame, lossy(line_bytes(s.pending)));
            &&& t.pending.len() == 0
            &&& t.frame == frame
            &&& message matches Some(m) ==> out == seq![m]
            &&& message is None ==> out.len() == 0
        },
{
    reveal_with_fuel(fed, 2);
    assert(seq![b].drop_last() =~= Seq::<u8>::empty());
    if b == 10 {
        let (frame, message) = after_line(s.frame, lossy(line_bytes(s.pending)));
        if message is Some {
            assert(fed(s, seq![b]).1 =~= seq![message->0]);
        }
    }
}

/// The mark before the end of a line, where there is one, is no part of the line.
pub proof fn lemma_lines_end_before_their_mark(line: Seq<u8>, b: u8)
    ensures
        line_bytes(line.push(13u8)) == line,
        b != 13 ==> line_bytes(line.push(b)) == line.push(b),
        line_bytes(Seq::empty()) == Seq::<u8>::empty(),
{
    assert(line.push(13u8).drop_last() =~= line);
}

} // verus!
