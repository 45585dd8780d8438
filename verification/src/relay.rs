//! The relay: reads the bridge's events and sends workers back to their chats.
use crate::delegate::control::session_ttl_ms;
use crate::error::{Failure, Fault};
use crate::events::{event_object, EventModel};
use crate::json::{bool_of, lemma_field_at, opt_model, text_of, u64_of, without_key, Json,
    JsonModel};
use crate::orca::OrcaConfig;
use crate::outside::{parsed_url, url_parts};
use crate::security::workspace::{ScopeModel, WorkspaceMux, WorkspaceScope};
use crate::server::notices::{continuation_json, continuation_prompt};
use crate::shelf::{find_slot, put_slot, slot_value, Slot};
use crate::text::{after_prefix, copy_opt, decimal, decimal_of, has_prefix, join, joined,
    lemma_trim_keeps_words, lossy, lossy_text, no_texts, opt_text, parse_u64, parsed_u64, push_text,
    same_text, starts_with, strip_prefix, texts, trim, trim_start, trimmed, trimmed_front};
use vstd::prelude::*;

verus! {

pub const DEFAULT_SESSION_GC_INTERVAL_SECS: u64 = 60;

/// The options of the relay.
#[derive(Debug)]
pub struct RelayOptions {
    pub events_url: String,
    pub mount_root: String,
    pub scope_dir: Option<String>,
    pub worktree: String,
    pub terminal: Option<String>,
    pub orca_bin: String,
    pub token: Option<String>,
    pub resolve_only: bool,
    pub dry_run: bool,
    pub reconnect_ms: u64,
    pub session_ttl_minutes: u64,
    pub session_gc_interval_secs: u64,
}

impl RelayOptions {
    /// The browser command that the options name.
    pub fn orca(&self) -> (r: OrcaConfig)
        ensures
            r.driver is None,
            opt_text(r.binary) == (if self.orca_bin@.len() == 0 || self.orca_bin@ == "orca"@ {
                None
            } else {
                Some(self.orca_bin@)
            }),
            r.worktree@ == self.worktree@,
            opt_text(r.terminal) == opt_text(self.terminal),
            r.resolved is None,
    {
        OrcaConfig::new(self.worktree.as_str(), copy_opt(&self.terminal), self.orca_bin.as_str())
    }

    /// The milliseconds for which an idle worker's page is kept, if the options can be
    /// followed.
    pub fn checked_ttl_ms(&self) -> (r: Result<u64, String>)
        ensures
            match r {
                Ok(ms) => {
                    &&& self.session_gc_interval_secs > 0
                    &&& self.session_ttl_minutes > 0
                    &&& ms == self.session_ttl_minutes * 60_000
                },
                Err(e) => if self.session_ttl_minutes == 0 {
                    e@ == "--session-ttl-minutes must be greater than zero"@
                } else if self.session_ttl_minutes * 60_000 > u64::MAX {
                    e@ == "--session-ttl-minutes is too large"@
                } else {
                    self.session_gc_interval_secs == 0 && e@
                        == "--session-gc-interval-secs must be greater than zero"@
                },
            },
    {
        match session_ttl_ms(self.session_ttl_minutes) {
            Err(e) => Err(e),
            Ok(ms) => if self.session_gc_interval_secs == 0 {
                Err("--session-gc-interval-secs must be greater than zero".to_owned())
            } else {
                Ok(ms)
            },
        }
    }

    /// How long the relay waits before it subscribes anew.
    pub fn reconnect_delay_ms(&self) -> (r: u64)
        ensures
            r == (if self.reconnect_ms < 100 {
                100
            } else {
                self.reconnect_ms
            }),
    {
        if self.reconnect_ms < 100 {
            100
        } else {
            self.reconnect_ms
        }
    }

    /// The value of the authorization header of a subscription.
    pub fn authorization(&self) -> (r: Option<String>)
        ensures
            opt_text(r) == (match opt_text(self.token) {
                Some(t) => Some("Bearer "@ + t),
                None => None,
            }),
    {
        match &self.token {
            Some(t) => Some("Bearer ".to_owned().concat(t.as_str())),
            None => None,
        }
    }
}

/// The number of the last event that a subscription names, if there was one.
pub fn resume_from(last_event_id: u64) -> (r: Option<String>)
    ensures
        opt_text(r) == (if last_event_id > 0 {
            Some(decimal(last_event_id as nat))
        } else {
            None
        }),
{
    if last_event_id > 0 {
        Some(decimal_of(last_event_id))
    } else {
        None
    }
}

/// The number of the last event after one more.
pub fn last_event_after(last_event_id: u64, id: Option<u64>) -> (r: u64)
    ensures
        r == (match id {
            Some(n) => if n > last_event_id {
                n
            } else {
                last_event_id
            },
            None => last_event_id,
        }),
{
    match id {
        Some(n) => if n > last_event_id {
            n
        } else {
            last_event_id
        },
        None => last_event_id,
    }
}

/// Whether an answer is a stream of events; an absent type counts as an empty one.
pub fn check_content_type(content_type: &str) -> (r: Result<(), String>)
    ensures
        match r {
            Ok(_) => has_prefix(content_type@, "text/event-stream"@),
            Err(e) => !has_prefix(content_type@, "text/event-stream"@) && e@
                == "events endpoint is not SSE: "@ + content_type@,
        },
{
    if starts_with(content_type, "text/event-stream") {
        Ok(())
    } else {
        Err("events endpoint is not SSE: ".to_owned().concat(content_type))
    }
}

/// The port of the events' address, or why there is none.
pub open spec fn port_of_events(events_url: Seq<char>) -> Result<u16, Seq<Seq<char>>> {
    match parsed_url(events_url) {
        Err(cause) => Err(seq!["invalid events URL for scope routing: "@ + events_url, cause]),
        Ok(u) => match u.port {
            Some(p) => Ok(p),
            None => Err(seq!["events URL has no resolvable port: "@ + events_url]),
        },
    }
}

/// The port of the events' address.
pub fn events_port(events_url: &str) -> (r: Result<u16, Failure>)
    ensures
        match r {
            Ok(p) => port_of_events(events_url@) == Ok::<u16, Seq<Seq<char>>>(p),
            Err(e) => port_of_events(events_url@) == Err::<u16, Seq<Seq<char>>>(e@),
        },
{
    match url_parts(events_url) {
        Err(cause) => Err(
            Failure::caused(
                "invalid events URL for scope routing: ".to_owned().concat(events_url),
                cause.as_str(),
            ),
        ),
        Ok(u) => resolved_port(u.port, events_url),
    }
}

/// The port of a parsed address.
pub fn resolved_port(port: Option<u16>, events_url: &str) -> (r: Result<u16, Failure>)
    ensures
        match r {
            Ok(p) => port == Some(p),
            Err(e) => port is None && e@ == seq![
                "events URL has no resolvable port: "@ + events_url@,
            ],
        },
{
    match port {
        Some(p) => Ok(p),
        None => Err(
            Failure::new("events URL has no resolvable port: ".to_owned().concat(events_url)),
        ),
    }
}

// ---------------------------------------------------------------------------------
// Reading events.
// ---------------------------------------------------------------------------------

/// What has been read of an event.
#[derive(Debug)]
pub struct SseFrame {
    pub event: String,
    pub id: Option<u64>,
    pub data: Vec<String>,
}

#[verifier::ext_equal]
pub struct FrameModel {
    pub event: Seq<char>,
    pub id: Option<u64>,
    pub data: Seq<Seq<char>>,
}

impl View for SseFrame {
    type V = FrameModel;

    open spec fn view(&self) -> FrameModel {
        FrameModel { event: self.event@, id: self.id, data: texts(self.data@) }
    }
}

/// An event as it was read: its kind, the lines of its data, and its number.
#[derive(Debug)]
pub struct SseMessage {
    pub event: String,
    pub data: String,
    pub id: Option<u64>,
}

pub struct MessageModel {
    pub event: Seq<char>,
    pub data: Seq<char>,
    pub id: Option<u64>,
}

impl View for SseMessage {
    type V = MessageModel;

    open spec fn view(&self) -> MessageModel {
        MessageModel { event: self.event@, data: self.data@, id: self.id }
    }
}

pub open spec fn message_models(v: Seq<SseMessage>) -> Seq<MessageModel> {
    v.map_values(|m: SseMessage| m@)
}

/// Nothing has been read of an event.
pub open spec fn blank_frame() -> FrameModel {
    FrameModel { event: Seq::empty(), id: None, data: Seq::empty() }
}

/// The event that a blank line ends; a frame without a kind and without data is none.
pub open spec fn frame_message(f: FrameModel) -> Option<MessageModel> {
    if f.event.len() == 0 && f.data.len() == 0 {
        None
    } else {
        Some(MessageModel { event: f.event, data: joined(f.data, "\n"@), id: f.id })
    }
}

/// What has been read of an event after one more line, and the event that the line
/// ends.
pub open spec fn after_line(f: FrameModel, line: Seq<char>) -> (FrameModel, Option<MessageModel>) {
    if line.len() == 0 {
        match frame_message(f) {
            Some(m) => (blank_frame(), Some(m)),
            None => (f, None),
        }
    } else if has_prefix(line, ":"@) {
        (f, None)
    } else {
        match (
            after_prefix(line, "event:"@),
            after_prefix(line, "id:"@),
            after_prefix(line, "data:"@),
        ) {
            (Some(v), _, _) => (FrameModel { event: trimmed(v), ..f }, None),
            (_, Some(v), _) => (FrameModel { id: parsed_u64(trimmed(v)), ..f }, None),
            (_, _, Some(v)) => (FrameModel { data: f.data.push(trimmed_front(v)), ..f }, None),
            _ => (f, None),
        }
    }
}

impl SseFrame {
    pub fn new() -> (r: Self)
        ensures
            r@ == blank_frame(),
    {
        let r = SseFrame { event: "".to_owned(), id: None, data: no_texts() };
        proof {
            reveal_strlit("");
            assert(r@ =~= blank_frame());
        }
        r
    }

    /// Forgets what has been read.
    pub fn clear(&mut self)
        ensures
            final(self)@ == blank_frame(),
    {
        *self = SseFrame::new();
    }

    /// Takes the event out of the frame.
    pub fn take_message(&mut self) -> (r: Option<SseMessage>)
        ensures
            match r {
                Some(m) => frame_message(old(self)@) == Some(m@) && final(self)@ == blank_frame(),
                None => frame_message(old(self)@) is None && *final(self) == *old(self),
            },
    {
        assert(texts(self.data@).len() == self.data@.len());
        if self.event.as_str().is_empty() && self.data.len() == 0 {
            return None;
        }
        let m = SseMessage {
            event: self.event.clone(),
            data: join(&self.data, "\n"),
            id: self.id,
        };
        self.clear();
        Some(m)
    }

    /// Reads one more line.
    pub fn read_line(&mut self, line: &str) -> (r: Option<SseMessage>)
        ensures
            ({
                let (f, m) = after_line(old(self)@, line@);
                &&& final(self)@ == f
                &&& match r {
                    Some(x) => m == Some(x@),
                    None => m is None,
                }
            }),
    {
        if line.is_empty() {
            return self.take_message();
        }
        if starts_with(line, ":") {
            return None;
        }
        let ghost f = self@;
        if let Some(v) = strip_prefix(line, "event:") {
            self.event = trim(v.as_str());
            assert(self@ =~= (FrameModel { event: trimmed(v@), ..f }));
        } else if let Some(v) = strip_prefix(line, "id:") {
            self.id = parse_u64(trim(v.as_str()).as_str());
            assert(self@ =~= (FrameModel { id: parsed_u64(trimmed(v@)), ..f }));
        } else if let Some(v) = strip_prefix(line, "data:") {
            push_text(&mut self.data, trim_start(v.as_str()).as_str());
            assert(self@ =~= (FrameModel { data: f.data.push(trimmed_front(v@)), ..f }));
        }
        None
    }
}

/// The bytes of a line without a carriage return at its end.
pub open spec fn line_bytes(pending: Seq<u8>) -> Seq<u8> {
    if pending.len() > 0 && pending.last() == 13u8 {
        pending.drop_last()
    } else {
        pending
    }
}

/// A stream of events that is being read: the bytes of the line that is not over, and
/// the event that is not over.
#[derive(Debug)]
pub struct SseStream {
    pub pending: Vec<u8>,
    pub frame: SseFrame,
}

#[verifier::ext_equal]
pub struct StreamModel {
    pub pending: Seq<u8>,
    pub frame: FrameModel,
}

impl View for SseStream {
    type V = StreamModel;

    open spec fn view(&self) -> StreamModel {
        StreamModel { pending: self.pending@, frame: self.frame@ }
    }
}

/// A stream of which some more bytes are read, and the events that they end: a line ends
/// with a newline, and an event with a blank line.
pub open spec fn fed(s: StreamModel, bytes: Seq<u8>) -> (StreamModel, Seq<MessageModel>)
    decreases bytes.len(),
{
    if bytes.len() == 0 {
        (s, Seq::empty())
    } else {
        let (t, out) = fed(s, bytes.drop_last());
        if bytes.last() != 10u8 {
            (StreamModel { pending: t.pending.push(bytes.last()), ..t }, out)
        } else {
            let (frame, message) = after_line(t.frame, lossy(line_bytes(t.pending)));
            (
                StreamModel { pending: Seq::empty(), frame },
                match message {
                    Some(m) => out.push(m),
                    None => out,
                },
            )
        }
    }
}

/// How a stream is cut into chunks does not matter.
pub proof fn lemma_chunks_do_not_matter(s: StreamModel, a: Seq<u8>, b: Seq<u8>)
    ensures
        ({
            let (t, first) = fed(s, a);
            let (u, second) = fed(t, b);
            fed(s, a + b) == (u, first + second)
        }),
    decreases b.len(),
{
    let (t, first) = fed(s, a);
    if b.len() == 0 {
        assert(a + b =~= a);
        assert(first + Seq::empty() =~= first);
    } else {
        assert((a + b).drop_last() =~= a + b.drop_last());
        lemma_chunks_do_not_matter(s, a, b.drop_last());
        let (v, more) = fed(t, b.drop_last());
        let (u, second) = fed(t, b);
        assert((a + b).last() == b.last());
        if second.len() > more.len() {
            assert(first + second =~= (first + more).push(second.last()));
        }
    }
}

impl SseStream {
    pub fn new() -> (r: Self)
        ensures
            r@ == (StreamModel { pending: Seq::empty(), frame: blank_frame() }),
    {
        let r = SseStream { pending: Vec::new(), frame: SseFrame::new() };
        assert(r@ =~= (StreamModel { pending: Seq::empty(), frame: blank_frame() }));
        r
    }

    /// Ends the line that is being read.
    fn end_line(&mut self) -> (r: Option<SseMessage>)
        ensures
            ({
                let (f, m) = after_line(old(self).frame@, lossy(line_bytes(old(self).pending@)));
                &&& final(self).frame@ == f
                &&& final(self).pending@.len() == 0
                &&& match r {
                    Some(x) => m == Some(x@),
                    None => m is None,
                }
            }),
    {
        let ghost before = self.pending@;
        if self.pending.len() > 0 && self.pending[self.pending.len() - 1] == 13u8 {
            let _ = self.pending.pop();
            assert(self.pending@ =~= line_bytes(before));
        }
        let line = lossy_text(&self.pending);
        self.pending = Vec::new();
        self.frame.read_line(line.as_str())
    }

    /// Reads some more bytes.
    pub fn feed(&mut self, bytes: &Vec<u8>) -> (r: Vec<SseMessage>)
        ensures
            fed(old(self)@, bytes@) == (final(self)@, message_models(r@)),
    {
        let ghost before = self@;
        let mut out: Vec<SseMessage> = Vec::new();
        let mut i: usize = 0;
        proof {
            assert(bytes@.subrange(0, 0) =~= Seq::empty());
            assert(message_models(out@) =~= Seq::empty());
        }
        while i < bytes.len()
            invariant
                i <= bytes@.len(),
                fed(before, bytes@.subrange(0, i as int)) == (self@, message_models(out@)),
            decreases bytes@.len() - i,
        {
            let ghost t = self@;
            let ghost done = message_models(out@);
            proof {
                let next = bytes@.subrange(0, i + 1);
                assert(next.drop_last() =~= bytes@.subrange(0, i as int));
                assert(next.last() == bytes@[i as int]);
            }
            if bytes[i] != 10u8 {
                self.pending.push(bytes[i]);
                assert(self@ =~= StreamModel { pending: t.pending.push(bytes@[i as int]), ..t });
            } else {
                let ended = self.end_line();
                assert(self@.pending =~= Seq::empty());
                if let Some(m) = ended {
                    let ghost x = m@;
                    out.push(m);
                    assert(message_models(out@) =~= done.push(x));
                }
            }
            i += 1;
        }
        assert(bytes@.subrange(0, bytes@.len() as int) =~= bytes@);
        out
    }
}

// ---------------------------------------------------------------------------------
// What an event asks of the relay.
// ---------------------------------------------------------------------------------

/// What the relay does about an event.
#[derive(Debug)]
pub enum EventAction {
    /// Note that the bridge has answered, with the number of its last event.
    NoteConnected(Option<u64>),
    /// Note whether the work of a scope is complete.
    NoteCompletion(String, bool),
    /// Send a worker back to work.
    Continue,
    /// Warn that events were missed.
    WarnLagged,
    Nothing,
}

pub enum ActionModel {
    NoteConnected(Option<u64>),
    NoteCompletion(Seq<char>, bool),
    Continue,
    WarnLagged,
    Nothing,
}

impl View for EventAction {
    type V = ActionModel;

    open spec fn view(&self) -> ActionModel {
        match *self {
            EventAction::NoteConnected(n) => ActionModel::NoteConnected(n),
            EventAction::NoteCompletion(s, b) => ActionModel::NoteCompletion(s@, b),
            EventAction::Continue => ActionModel::Continue,
            EventAction::WarnLagged => ActionModel::WarnLagged,
            EventAction::Nothing => ActionModel::Nothing,
        }
    }
}

/// What the relay does about an event.
pub open spec fn event_action(event: Seq<char>, payload: JsonModel) -> ActionModel {
    if event == "connected"@ {
        ActionModel::NoteConnected(u64_of(payload.field("seq"@)))
    } else if event == "completion"@ {
        ActionModel::NoteCompletion(
            match text_of(payload.field2("data"@, "scope_id"@)) {
                Some(s) => s,
                None => "<missing>"@,
            },
            bool_of(payload.field2("data"@, "ready"@)) == Some(true),
        )
    } else if event == "continuation_required"@ {
        ActionModel::Continue
    } else if event == "lagged"@ {
        ActionModel::WarnLagged
    } else {
        ActionModel::Nothing
    }
}

fn text_or(o: Option<&Json>, other: &str) -> (r: String)
    ensures
        r@ == (match text_of(opt_model(o)) {
            Some(s) => s,
            None => other@,
        }),
{
    match o {
        Some(Json::Text(s)) => s.clone(),
        _ => other.to_owned(),
    }
}

fn flag(o: Option<&Json>) -> (r: bool)
    ensures
        r == (bool_of(opt_model(o)) == Some(true)),
{
    match o {
        Some(Json::Bool(b)) => *b,
        _ => false,
    }
}

/// What the relay does about an event.
pub fn handle_event(event: &str, payload: &Json) -> (r: EventAction)
    ensures
        r@ == event_action(event@, payload.model()),
{
    if same_text(event, "connected") {
        EventAction::NoteConnected(payload.u64_field("seq"))
    } else if same_text(event, "completion") {
        EventAction::NoteCompletion(
            text_or(payload.get2("data", "scope_id"), "<missing>"),
            flag(payload.get2("data", "ready")),
        )
    } else if same_text(event, "continuation_required") {
        EventAction::Continue
    } else if same_text(event, "lagged") {
        EventAction::WarnLagged
    } else {
        EventAction::Nothing
    }
}

// ---------------------------------------------------------------------------------
// Sending workers back to work.
// ---------------------------------------------------------------------------------

/// An order to send the worker of a scope back to work.
#[derive(Debug)]
pub struct Continuation {
    pub seq: u64,
    pub scope_id: String,
    pub prompt: String,
}

pub struct ContinuationModel {
    pub seq: u64,
    pub scope_id: Seq<char>,
    pub prompt: Seq<char>,
}

impl View for Continuation {
    type V = ContinuationModel;

    open spec fn view(&self) -> ContinuationModel {
        ContinuationModel { seq: self.seq, scope_id: self.scope_id@, prompt: self.prompt@ }
    }
}

pub open spec fn trimmed_or_empty(o: Option<JsonModel>) -> Seq<char> {
    trimmed(
        match text_of(o) {
            Some(s) => s,
            None => ""@,
        },
    )
}

/// The order in an event: it names a scope and a prompt, and says that the prompt goes to
/// the same chat. An event without a number counts as number zero.
pub open spec fn continuation_of(payload: JsonModel) -> Option<ContinuationModel> {
    let scope_id = trimmed_or_empty(payload.field2("data"@, "scope_id"@));
    let prompt = trimmed_or_empty(payload.field2("data"@, "prompt"@));
    let relay = bool_of(payload.field2("data"@, "relay_to_same_chat"@)) == Some(true);
    if scope_id.len() == 0 || !relay || prompt.len() == 0 {
        None
    } else {
        Some(
            ContinuationModel {
                seq: match u64_of(payload.field("seq"@)) {
                    Some(n) => n,
                    None => 0,
                },
                scope_id,
                prompt,
            },
        )
    }
}

/// The order in an event.
pub fn parse_continuation(payload: &Json) -> (r: Option<Continuation>)
    ensures
        match r {
            Some(c) => continuation_of(payload.model()) == Some(c@),
            None => continuation_of(payload.model()) is None,
        },
{
    let scope_id = trim(text_or(payload.get2("data", "scope_id"), "").as_str());
    let prompt = trim(text_or(payload.get2("data", "prompt"), "").as_str());
    let relay = flag(payload.get2("data", "relay_to_same_chat"));
    if scope_id.as_str().is_empty() || !relay || prompt.as_str().is_empty() {
        return None;
    }
    let seq: u64 = match payload.u64_field("seq") {
        Some(n) => n,
        None => 0,
    };
    Some(Continuation { seq, scope_id, prompt })
}

/// The scope that an order names.
pub fn continuation_scope(mux: &WorkspaceMux, scope_id: &str) -> (r: Result<
    WorkspaceScope,
    String,
>)
    ensures
        match r {
            Ok(s) => mux.found(scope_id@) == Ok::<ScopeModel, Fault>(s@),
            Err(e) => mux.found(scope_id@) is Err && e@ == mux.found(scope_id@)->Err_0.text(),
        },
{
    match mux.lookup(scope_id) {
        Ok(s) => Ok(s),
        Err(e) => Err(e.message()),
    }
}

/// The number of the last order that was followed for each scope.
#[derive(Debug)]
pub struct RelayLog {
    pub last: Vec<Slot<u64>>,
}

/// The number of the last order that was followed for a scope, or zero.
pub open spec fn last_followed(log: RelayLog, scope_id: Seq<char>) -> u64 {
    match slot_value(log.last@, scope_id) {
        Some(n) => n,
        None => 0,
    }
}

impl RelayLog {
    pub fn new() -> (r: Self)
        ensures
            forall|s: Seq<char>| #[trigger] last_followed(r, s) == 0,
    {
        RelayLog { last: Vec::new() }
    }

    /// The number of the last order that was followed for a scope.
    pub fn last_for(&self, scope_id: &str) -> (r: u64)
        ensures
            r == last_followed(*self, scope_id@),
    {
        let i = find_slot(&self.last, scope_id);
        if i < self.last.len() {
            self.last[i].value
        } else {
            0
        }
    }

    /// Notes that an order was followed.
    pub fn followed(&mut self, scope_id: &str, seq: u64)
        ensures
            last_followed(*final(self), scope_id@) == (if seq > last_followed(
                *old(self),
                scope_id@,
            ) {
                seq
            } else {
                last_followed(*old(self), scope_id@)
            }),
            forall|s: Seq<char>|
                s != scope_id@ ==> #[trigger] last_followed(*final(self), s) == last_followed(
                    *old(self),
                    s,
                ),
    {
        let last: u64 = self.last_for(scope_id);
        put_slot(
            &mut self.last,
            scope_id,
            if seq > last {
                seq
            } else {
                last
            },
        );
    }
}

/// What has come of the steps that were asked for so far.
#[derive(Debug)]
pub struct RelaySeen {
    /// Whether the prompt was sent to the page.
    pub page_sent: Option<Result<(), String>>,
    /// The terminal that shows the mark of the scope.
    pub found: Option<Result<String, String>>,
    /// Whether that terminal was noted.
    pub noted: Option<Result<(), String>>,
    /// Whether the prompt was sent to the terminal.
    pub sent: Option<Result<(), String>>,
    /// The terminal that shows the mark of the scope when it is looked for again.
    pub found_again: Option<Result<String, String>>,
    /// Whether the prompt was sent to that terminal.
    pub sent_again: Option<Result<(), String>>,
    /// Whether that terminal was noted.
    pub noted_again: Option<Result<(), String>>,
}

impl RelaySeen {
    /// No step has been taken.
    pub fn nothing() -> (r: Self)
        ensures
            r.page_sent is None && r.found is None && r.noted is None && r.sent is None
                && r.found_again is None && r.sent_again is None && r.noted_again is None,
    {
        RelaySeen {
            page_sent: None,
            found: None,
            noted: None,
            sent: None,
            found_again: None,
            sent_again: None,
            noted_again: None,
        }
    }
}

/// What comes next for an event that orders a worker back to work.
#[derive(Debug)]
pub enum RelayStep {
    /// The event does not say where to send what.
    Incomplete,
    /// The order was followed before.
    Duplicate,
    /// Send the prompt to the page.
    SendToPage(String),
    /// Look for the terminal that shows the mark of the scope.
    FindTerminal,
    /// Note the terminal of the scope.
    NoteTerminal(String),
    /// Send the prompt to the terminal.
    SendToTerminal(String),
    /// Look for the terminal once more.
    FindTerminalAgain,
    /// Send the prompt to the terminal that was found then.
    SendAgain(String),
    /// Note that terminal.
    NoteTerminalAgain(String),
    /// The order was followed.
    Followed,
    Failed(String),
}

pub enum StepModel {
    Incomplete,
    Duplicate,
    SendToPage(Seq<char>),
    FindTerminal,
    NoteTerminal(Seq<char>),
    SendToTerminal(Seq<char>),
    FindTerminalAgain,
    SendAgain(Seq<char>),
    NoteTerminalAgain(Seq<char>),
    Followed,
    Failed(Seq<char>),
}

impl View for RelayStep {
    type V = StepModel;

    open spec fn view(&self) -> StepModel {
        match *self {
            RelayStep::Incomplete => StepModel::Incomplete,
            RelayStep::Duplicate => StepModel::Duplicate,
            RelayStep::SendToPage(s) => StepModel::SendToPage(s@),
            RelayStep::FindTerminal => StepModel::FindTerminal,
            RelayStep::NoteTerminal(s) => StepModel::NoteTerminal(s@),
            RelayStep::SendToTerminal(s) => StepModel::SendToTerminal(s@),
            RelayStep::FindTerminalAgain => StepModel::FindTerminalAgain,
            RelayStep::SendAgain(s) => StepModel::SendAgain(s@),
            RelayStep::NoteTerminalAgain(s) => StepModel::NoteTerminalAgain(s@),
            RelayStep::Followed => StepModel::Followed,
            RelayStep::Failed(e) => StepModel::Failed(e@),
        }
    }
}

/// What follows a prompt that did not reach its terminal: the terminal is looked for once
/// more, the prompt is sent there, and the terminal is noted.
pub open spec fn second_try(scope_id: Seq<char>, seen: RelaySeen) -> StepModel {
    match seen.found_again {
        None => StepModel::FindTerminalAgain,
        Some(Err(e)) => StepModel::Failed(e@),
        Some(Ok(fresh)) => match seen.sent_again {
            None => StepModel::SendAgain(fresh@),
            Some(Err(_)) => StepModel::Failed(
                "failed to relay legacy scope "@ + scope_id + " after terminal rediscovery"@,
            ),
            Some(Ok(_)) => match seen.noted_again {
                None => StepModel::NoteTerminalAgain(fresh@),
                Some(Err(e)) => StepModel::Failed(e@),
                Some(Ok(_)) => StepModel::Followed,
            },
        },
    }
}

/// What follows once the terminal is known.
pub open spec fn terminal_next(
    scope_id: Seq<char>,
    terminal: Seq<char>,
    dry_run: bool,
    seen: RelaySeen,
) -> StepModel {
    if dry_run {
        StepModel::Followed
    } else {
        match seen.sent {
            None => StepModel::SendToTerminal(terminal),
            Some(Ok(_)) => StepModel::Followed,
            Some(Err(_)) => second_try(scope_id, seen),
        }
    }
}

/// What comes next for a scope without a page: its prompt goes to the terminal that shows
/// its mark, which is noted where it is a new one, or to the one that was noted.
pub open spec fn legacy_next(
    scope_id: Seq<char>,
    stored: Option<Seq<char>>,
    dry_run: bool,
    seen: RelaySeen,
) -> StepModel {
    match seen.found {
        None => StepModel::FindTerminal,
        Some(Ok(fresh)) => if stored == Some(fresh@) {
            terminal_next(scope_id, fresh@, dry_run, seen)
        } else {
            match seen.noted {
                None => StepModel::NoteTerminal(fresh@),
                Some(Err(e)) => StepModel::Failed(e@),
                Some(Ok(_)) => terminal_next(scope_id, fresh@, dry_run, seen),
            }
        },
        Some(Err(_)) => match stored {
            Some(t) => terminal_next(scope_id, t, dry_run, seen),
            None => StepModel::Failed(
                "scope has neither browser page nor stored terminal fallback"@,
            ),
        },
    }
}

/// What comes next for a scope with a page: its prompt goes to exactly that page.
pub open spec fn page_next(
    scope_id: Seq<char>,
    page: Seq<char>,
    dry_run: bool,
    seen: RelaySeen,
) -> StepModel {
    if dry_run {
        StepModel::Followed
    } else {
        match seen.page_sent {
            None => StepModel::SendToPage(page),
            Some(Ok(_)) => StepModel::Followed,
            Some(Err(_)) => StepModel::Failed(
                "failed to relay continuation directly to ChatGPT Web page "@ + page
                    + " for scope "@ + scope_id,
            ),
        }
    }
}

/// What comes next for an event that orders a worker back to work.
pub open spec fn relay_next(
    mux: WorkspaceMux,
    log: RelayLog,
    dry_run: bool,
    payload: JsonModel,
    seen: RelaySeen,
) -> StepModel {
    match continuation_of(payload) {
        None => StepModel::Incomplete,
        Some(c) => if c.seq != 0 && c.seq <= last_followed(log, c.scope_id) {
            StepModel::Duplicate
        } else {
            match mux.found(c.scope_id) {
                Err(e) => StepModel::Failed(e.text()),
                Ok(scope) => match scope.browser_page_id {
                    Some(page) => page_next(c.scope_id, page, dry_run, seen),
                    None => legacy_next(c.scope_id, scope.terminal, dry_run, seen),
                },
            }
        },
    }
}

fn step_second_try(scope_id: &str, seen: &RelaySeen) -> (r: RelayStep)
    ensures
        r@ == second_try(scope_id@, *seen),
{
    match &seen.found_again {
        None => RelayStep::FindTerminalAgain,
        Some(Err(e)) => RelayStep::Failed(e.clone()),
        Some(Ok(fresh)) => match &seen.sent_again {
            None => RelayStep::SendAgain(fresh.clone()),
            Some(Err(_)) => RelayStep::Failed(
                "failed to relay legacy scope ".to_owned().concat(scope_id).concat(
                    " after terminal rediscovery",
                ),
            ),
            Some(Ok(_)) => match &seen.noted_again {
                None => RelayStep::NoteTerminalAgain(fresh.clone()),
                Some(Err(e)) => RelayStep::Failed(e.clone()),
                Some(Ok(_)) => RelayStep::Followed,
            },
        },
    }
}

fn step_terminal(scope_id: &str, terminal: &str, dry_run: bool, seen: &RelaySeen) -> (r: RelayStep)
    ensures
        r@ == terminal_next(scope_id@, terminal@, dry_run, *seen),
{
    if dry_run {
        return RelayStep::Followed;
    }
    match &seen.sent {
        None => RelayStep::SendToTerminal(terminal.to_owned()),
        Some(Ok(_)) => RelayStep::Followed,
        Some(Err(_)) => step_second_try(scope_id, seen),
    }
}

fn step_legacy(scope_id: &str, stored: &Option<String>, dry_run: bool, seen: &RelaySeen) -> (r:
    RelayStep)
    ensures
        r@ == legacy_next(scope_id@, opt_text(*stored), dry_run, *seen),
{
    match &seen.found {
        None => RelayStep::FindTerminal,
        Some(Ok(fresh)) => {
            let same = match stored {
                Some(t) => same_text(t.as_str(), fresh.as_str()),
                None => false,
            };
            if same {
                return step_terminal(scope_id, fresh.as_str(), dry_run, seen);
            }
            match &seen.noted {
                None => RelayStep::NoteTerminal(fresh.clone()),
                Some(Err(e)) => RelayStep::Failed(e.clone()),
                Some(Ok(_)) => step_terminal(scope_id, fresh.as_str(), dry_run, seen),
            }
        },
        Some(Err(_)) => match stored {
            Some(t) => step_terminal(scope_id, t.as_str(), dry_run, seen),
            None => RelayStep::Failed(
                "scope has neither browser page nor stored terminal fallback".to_owned(),
            ),
        },
    }
}

/// What comes next for an event that orders a worker back to work.
pub fn relay_continuation(
    mux: &WorkspaceMux,
    log: &RelayLog,
    dry_run: bool,
    payload: &Json,
    seen: &RelaySeen,
) -> (r: RelayStep)
    ensures
        r@ == relay_next(*mux, *log, dry_run, payload.model(), *seen),
{
    let c = match parse_continuation(payload) {
        Some(c) => c,
        None => {
            return RelayStep::Incomplete;
        },
    };
    if c.seq != 0 && c.seq <= log.last_for(c.scope_id.as_str()) {
        return RelayStep::Duplicate;
    }
    let scope = match continuation_scope(mux, c.scope_id.as_str()) {
        Ok(s) => s,
        Err(e) => {
            return RelayStep::Failed(e);
        },
    };
    match &scope.browser_page_id {
        Some(page) => {
            if dry_run {
                return RelayStep::Followed;
            }
            match &seen.page_sent {
                None => RelayStep::SendToPage(page.clone()),
                Some(Ok(_)) => RelayStep::Followed,
                Some(Err(_)) => RelayStep::Failed(
                    "failed to relay continuation directly to ChatGPT Web page ".to_owned().concat(
                        page.as_str(),
                    ).concat(" for scope ").concat(c.scope_id.as_str()),
                ),
            }
        },
        None => step_legacy(c.scope_id.as_str(), &scope.terminal, dry_run, seen),
    }
}

/// An order that was followed is not followed again: once its number, or a later one, is
/// noted for its scope, it is a duplicate whatever has been seen.
pub proof fn lemma_order_is_followed_once(
    mux: WorkspaceMux,
    log: RelayLog,
    dry_run: bool,
    payload: JsonModel,
    seen: RelaySeen,
)
    requires
        continuation_of(payload) matches Some(c) && 0 < c.seq <= last_followed(log, c.scope_id),
    ensures
        relay_next(mux, log, dry_run, payload, seen) == StepModel::Duplicate,
{
}

/// A prompt goes to the page that its scope stores and to no other, and a scope with a
/// page has nothing sent to a terminal.
pub proof fn lemma_prompt_goes_to_stored_page(
    mux: WorkspaceMux,
    log: RelayLog,
    dry_run: bool,
    payload: JsonModel,
    seen: RelaySeen,
)
    ensures
        ({
            let step = relay_next(mux, log, dry_run, payload, seen);
            let c = continuation_of(payload)->0;
            &&& step matches StepModel::SendToPage(page) ==> (mux.found(c.scope_id) matches Ok(s)
                && s.browser_page_id == Some(page))
            &&& (step is SendToTerminal || step is SendAgain) ==> (mux.found(c.scope_id) matches Ok(
                s,
            ) && s.browser_page_id is None)
        }),
{
}

/// A rehearsal sends nothing.
pub proof fn lemma_dry_run_sends_nothing(
    mux: WorkspaceMux,
    log: RelayLog,
    payload: JsonModel,
    seen: RelaySeen,
)
    ensures
        ({
            let step = relay_next(mux, log, true, payload, seen);
            !(step is SendToPage) && !(step is SendToTerminal) && !(step is SendAgain)
        }),
{
}


/// The event by which the bridge sends a worker back to work is an order that the relay
/// reads, with the number of the event, the scope of the worker and the prompt, but for
/// white space around either; it goes to the page of the scope, where the scope has one
/// and the order is new.
pub proof fn lemma_bridge_order_is_followed(
    e: EventModel,
    scope_id: Seq<char>,
    blockers: JsonModel,
    mux: WorkspaceMux,
    log: RelayLog,
    seen: RelaySeen,
)
    requires
        e.data == continuation_json(scope_id, blockers),
        trimmed(scope_id).len() > 0,
    ensures
        continuation_of(event_object(e)) == Some(
            ContinuationModel {
                seq: e.seq,
                scope_id: trimmed(scope_id),
                prompt: trimmed(continuation_prompt(scope_id, blockers)),
            },
        ),
        (mux.found(trimmed(scope_id)) matches Ok(scope) && scope.browser_page_id is Some && e.seq
            > last_followed(log, trimmed(scope_id)) && seen.page_sent is None) ==> relay_next(
            mux,
            log,
            false,
            event_object(e),
            seen,
        ) == StepModel::SendToPage(mux.found(trimmed(scope_id))->Ok_0.browser_page_id->0),
{
    reveal_strlit("seq");
    reveal_strlit("kind");
    reveal_strlit("timestamp_ms");
    reveal_strlit("workspace");
    reveal_strlit("data");
    reveal_strlit("scope_id");
    reveal_strlit("prompt");
    reveal_strlit("blockers");
    reveal_strlit("relay_to_same_chat");
    let fields = event_object(e)->Object_0;
    let data = e.data->Object_0;
    assert(fields.subrange(0, 5) =~= fields);
    assert(data.subrange(0, 4) =~= data);
    assert(fields[0].0 == "seq"@);
    assert(fields[1].0 == "kind"@);
    assert(fields[2].0 == "timestamp_ms"@);
    assert(fields[3].0 == "workspace"@);
    assert(fields[4].0 == "data"@);
    assert(data[0].0 == "scope_id"@);
    assert(data[1].0 == "prompt"@);
    assert(data[2].0 == "blockers"@);
    assert(data[3].0 == "relay_to_same_chat"@);
    reveal_with_fuel(without_key, 5);
    assert(without_key(fields, 0, "seq"@));
    lemma_field_at(fields, 0, 0, "seq"@);
    assert("kind"@[0] != "data"@[0]);
    assert(without_key(fields, 4, "data"@));
    lemma_field_at(fields, 0, 4, "data"@);
    assert(without_key(data, 0, "scope_id"@));
    lemma_field_at(data, 0, 0, "scope_id"@);
    assert(without_key(data, 1, "prompt"@));
    lemma_field_at(data, 0, 1, "prompt"@);
    assert(without_key(data, 3, "relay_to_same_chat"@));
    lemma_field_at(data, 0, 3, "relay_to_same_chat"@);
    let prompt = continuation_prompt(scope_id, blockers);
    reveal_strlit("The coding task for scope ");
    assert(prompt[0] == 'T');
    lemma_trim_keeps_words(prompt);
}

} // verus!
