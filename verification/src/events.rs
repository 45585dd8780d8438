//! The event bus: numbered events, and those that wait for somebody to act on them.
use crate::json::{bool_of, no_fields, put, text_of, Json, JsonModel};
use crate::outside::{is_uuid, uuid_accepts};
use crate::shelf::{drop_slot, lemma_slot_position, lemma_slots_without, put_slot, slot_position,
    slot_put, slots_differ, slots_without, Slot};
use crate::sort::{in_order, sort_items, Sortable};
use crate::text::{ends_with, has_suffix, same_text};
use vstd::prelude::*;

verus! {

/// How many events a slow subscriber may fall behind.
pub const EVENT_BUFFER: usize = 512;

/// An event of the bridge.
pub struct HarnessEvent {
    pub seq: u64,
    pub kind: String,
    pub timestamp_ms: u64,
    pub workspace: String,
    pub data: Json,
}

/// The mathematical value of a [`HarnessEvent`].
pub struct EventModel {
    pub seq: u64,
    pub kind: Seq<char>,
    pub timestamp_ms: u64,
    pub workspace: Seq<char>,
    pub data: JsonModel,
}

impl View for HarnessEvent {
    type V = EventModel;

    open spec fn view(&self) -> EventModel {
        EventModel {
            seq: self.seq,
            kind: self.kind@,
            timestamp_ms: self.timestamp_ms,
            workspace: self.workspace@,
            data: self.data.model(),
        }
    }
}

/// The scope that an event is about, if its data name one.
pub open spec fn scope_of(data: JsonModel) -> Option<Seq<char>> {
    match text_of(data.field("scope_id"@)) {
        Some(id) => if is_uuid(id) {
            Some(id)
        } else {
            None
        },
        None => None,
    }
}

impl HarnessEvent {
    /// An event with the same value.
    pub fn copy(&self) -> (r: Self)
        ensures
            r@ == self@,
    {
        HarnessEvent {
            seq: self.seq,
            kind: self.kind.clone(),
            timestamp_ms: self.timestamp_ms,
            workspace: self.workspace.clone(),
            data: self.data.copy(),
        }
    }

    /// The event as JSON.
    pub fn to_json(&self) -> (r: Json)
        ensures
            r.model() == event_object(self@),
    {
        let mut f = no_fields();
        put(&mut f, "seq", Json::Unsigned(self.seq));
        put(&mut f, "kind", Json::text(self.kind.as_str()));
        put(&mut f, "timestamp_ms", Json::Unsigned(self.timestamp_ms));
        put(&mut f, "workspace", Json::text(self.workspace.as_str()));
        put(&mut f, "data", self.data.copy());
        assert(crate::json::field_models(f@) =~= event_object(self@)->Object_0);
        Json::Object(f)
    }
}

/// The JSON of an event.
pub open spec fn event_object(e: EventModel) -> JsonModel {
    JsonModel::Object(
        seq![
            ("seq"@, JsonModel::Unsigned(e.seq)),
            ("kind"@, JsonModel::Text(e.kind)),
            ("timestamp_ms"@, JsonModel::Unsigned(e.timestamp_ms)),
            ("workspace"@, JsonModel::Text(e.workspace)),
            ("data"@, e.data),
        ],
    )
}

/// The scope that an event is about, if its data name one.
pub fn event_scope_id(event: &HarnessEvent) -> (r: Option<String>)
    ensures
        crate::text::opt_text(r) == scope_of(event@.data),
{
    match event.data.text_field("scope_id") {
        Some(id) => if uuid_accepts(id.as_str()) {
            Some(id)
        } else {
            None
        },
        None => None,
    }
}

/// What the directory of waiting events holds: files with an event, or with nothing
/// that can be read as one.
pub type PendingFiles = Vec<Slot<Option<HarnessEvent>>>;

/// A waiting event by its number and its place.
#[derive(Debug)]
pub struct Waiting {
    pub seq: u64,
    pub at: usize,
}

/// Waiting events are ordered by their numbers.
impl Sortable for Waiting {
    open spec fn before(self, other: Self) -> bool {
        self.seq < other.seq
    }

    proof fn lemma_asym(a: Self, b: Self) {
    }

    proof fn lemma_trans(a: Self, b: Self, c: Self) {
    }

    fn is_before(&self, other: &Self) -> (r: bool) {
        self.seq < other.seq
    }
}

/// A file holds an event of a workspace that waits for a continuation.
pub open spec fn is_waiting(file: Slot<Option<HarnessEvent>>, workspace: Seq<char>) -> bool {
    &&& has_suffix(file.name@, ".json"@)
    &&& file.name@.len() > 5
    &&& file.value matches Some(e)
    &&& e.workspace@ == workspace
    &&& e.kind@ == "continuation_required"@
    &&& scope_of(e@.data) is Some
}

/// The waiting events among the first `n` files.
pub open spec fn waiting(
    files: Seq<Slot<Option<HarnessEvent>>>,
    workspace: Seq<char>,
    n: int,
) -> Seq<Waiting>
    decreases n,
{
    if n <= 0 {
        Seq::empty()
    } else {
        let front = waiting(files, workspace, n - 1);
        if is_waiting(files[n - 1], workspace) {
            front.push(Waiting { seq: files[n - 1].value->0.seq, at: (n - 1) as usize })
        } else {
            front
        }
    }
}

/// The greatest number of the waiting events, or zero.
pub open spec fn last_waiting(w: Seq<Waiting>) -> u64
    decreases w.len(),
{
    if w.len() == 0 {
        0
    } else {
        let m = last_waiting(w.drop_last());
        if w.last().seq > m {
            w.last().seq
        } else {
            m
        }
    }
}

/// `events` are the waiting events of a workspace, in the order of their numbers.
pub open spec fn are_pending(
    events: Seq<HarnessEvent>,
    files: Seq<Slot<Option<HarnessEvent>>>,
    workspace: Seq<char>,
) -> bool {
    let order = in_order(waiting(files, workspace, files.len() as int));
    &&& events.len() == order.len()
    &&& forall|k: int|
        0 <= k < order.len() ==> (#[trigger] events[k])@ == files[order[k].at as int].value->0@
}

fn find_waiting(files: &PendingFiles, workspace: &str) -> (r: Vec<Waiting>)
    ensures
        r@ == waiting(files@, workspace@, files@.len() as int),
        forall|k: int|
            0 <= k < r@.len() ==> (#[trigger] r@[k]).at < files@.len()
                && files@[r@[k].at as int].value is Some,
{
    let mut out: Vec<Waiting> = Vec::new();
    let mut i: usize = 0;
    proof {
        reveal_strlit(".json");
    }
    while i < files.len()
        invariant
            i <= files@.len(),
            ".json"@.len() == 5,
            out@ == waiting(files@, workspace@, i as int),
            forall|k: int|
                0 <= k < out@.len() ==> (#[trigger] out@[k]).at < i
                    && files@[out@[k].at as int].value is Some,
        decreases files@.len() - i,
    {
        let name = files[i].name.as_str();
        if ends_with(name, ".json") && !same_text(name, ".json") {
            proof {
                assert(name@.len() >= 5);
                if name@.len() == 5 {
                    assert(name@ =~= ".json"@) by {
                        assert(name@.subrange(0, 5) =~= name@);
                    }
                }
            }
            if let Some(e) = &files[i].value {
                if same_text(e.workspace.as_str(), workspace) && same_text(
                    e.kind.as_str(),
                    "continuation_required",
                ) && event_scope_id(e).is_some() {
                    out.push(Waiting { seq: e.seq, at: i });
                }
            }
        }
        i += 1;
    }
    out
}

/// The waiting events of a workspace, in the order of their numbers.
pub fn load_pending_events(files: &PendingFiles, workspace: &str) -> (r: Vec<HarnessEvent>)
    ensures
        are_pending(r@, files@, workspace@),
{
    let found = find_waiting(files, workspace);
    let ghost w = found@;
    let order = sort_items(found);
    proof {
        lemma_order_places(w, files@.len() as int, files@);
    }
    let mut out: Vec<HarnessEvent> = Vec::new();
    let mut k: usize = 0;
    while k < order.len()
        invariant
            k <= order@.len(),
            out@.len() == k,
            forall|j: int|
                0 <= j < order@.len() ==> (#[trigger] order@[j]).at < files@.len()
                    && files@[order@[j].at as int].value is Some,
            forall|j: int|
                0 <= j < k ==> (#[trigger] out@[j])@ == files@[order@[j].at as int].value->0@,
        decreases order@.len() - k,
    {
        let at: usize = order[k].at;
        assert(order@[k as int].at < files@.len());
        if let Some(e) = &files[at].value {
            out.push(e.copy());
        }
        k += 1;
    }
    out
}

proof fn lemma_order_places(w: Seq<Waiting>, n: int, files: Seq<Slot<Option<HarnessEvent>>>)
    requires
        forall|k: int|
            0 <= k < w.len() ==> (#[trigger] w[k]).at < n && files[w[k].at as int].value is Some,
    ensures
        forall|k: int|
            0 <= k < in_order(w).len() ==> (#[trigger] in_order(w)[k]).at < n && files[in_order(
                w,
            )[k].at as int].value is Some,
{
    broadcast use vstd::seq_lib::group_to_multiset_ensures;

    crate::sort::lemma_in_order(w);
    assert forall|k: int| 0 <= k < in_order(w).len() implies (#[trigger] in_order(w)[k]).at < n
        && files[in_order(w)[k].at as int].value is Some by {
        let x = in_order(w)[k];
        assert(in_order(w).contains(x));
        assert(in_order(w).to_multiset().count(x) > 0);
        assert(w.to_multiset().count(x) > 0);
        assert(w.contains(x));
        let j = choose|j: int| 0 <= j < w.len() && w[j] == x;
        assert(w[j] == x);
    }
}

/// The events of a workspace.
pub struct EventBus {
    pub next_seq: u64,
    pub workspace: String,
    /// The waiting events, where they are kept.
    pub pending: Option<PendingFiles>,
}

/// Publishing an event leads from one state of a bus to another: the event has the next
/// number, and the waiting events change with it.
pub open spec fn published(
    before: EventBus,
    after: EventBus,
    kind: Seq<char>,
    data: JsonModel,
    now_ms: u64,
    event: EventModel,
) -> bool {
    &&& event == (EventModel {
        seq: before.next_seq,
        kind,
        timestamp_ms: now_ms,
        workspace: before.workspace@,
        data,
    })
    &&& after.next_seq == (if before.next_seq == u64::MAX {
        0
    } else {
        (before.next_seq + 1) as u64
    })
    &&& after.workspace == before.workspace
    &&& match before.pending {
        None => after.pending is None,
        Some(files) => after.pending is Some && pending_after(files@, after.pending->0@, event),
    }
}

/// The first number of a bus: one more than that of any waiting event.
pub open spec fn first_seq(w: Seq<Waiting>) -> u64 {
    let m = last_waiting(w);
    if m == u64::MAX {
        u64::MAX
    } else {
        (m + 1) as u64
    }
}

/// What the files of waiting events become when an event is published: a continuation
/// that is asked for waits under its scope, and the completion of a scope that is ready
/// ends the wait.
pub open spec fn pending_after(
    before: Seq<Slot<Option<HarnessEvent>>>,
    after: Seq<Slot<Option<HarnessEvent>>>,
    event: EventModel,
) -> bool {
    let scope = scope_of(event.data);
    if event.kind == "continuation_required"@ && scope is Some {
        let name = scope->0 + ".json"@;
        let value = after[slot_position(before, name)].value;
        &&& slot_put(before, after, name, value)
        &&& value matches Some(e)
        &&& e@ == event
    } else if event.kind == "completion"@ && bool_of(event.data.field("ready"@)) == Some(true)
        && scope is Some {
        after == slots_without(before, scope->0 + ".json"@)
    } else {
        after == before
    }
}

impl EventBus {
    /// A bus that keeps no waiting events.
    pub fn new(workspace: &str) -> (r: Self)
        ensures
            r.next_seq == 1,
            r.workspace@ == workspace@,
            r.pending is None,
    {
        EventBus { next_seq: 1, workspace: workspace.to_owned(), pending: None }
    }

    /// A bus over what the directory of waiting events holds; it goes on behind their
    /// numbers.
    pub fn new_persistent(workspace: &str, pending: PendingFiles) -> (r: Self)
        ensures
            r.next_seq == first_seq(waiting(pending@, workspace@, pending@.len() as int)),
            r.workspace@ == workspace@,
            r.pending == Some(pending),
            forall|k: int|
                0 <= k < pending@.len() && is_waiting(#[trigger] pending@[k], workspace@)
                    ==> pending@[k].value->0.seq < r.next_seq || r.next_seq == u64::MAX,
    {
        let found = find_waiting(&pending, workspace);
        let ghost w = found@;
        let mut last: u64 = 0;
        let mut i: usize = 0;
        assert(w.subrange(0, 0) =~= Seq::<Waiting>::empty());
        while i < found.len()
            invariant
                i <= found@.len(),
                w == found@,
                last == last_waiting(w.subrange(0, i as int)),
            decreases found@.len() - i,
        {
            assert(w.subrange(0, i + 1).drop_last() =~= w.subrange(0, i as int));
            if found[i].seq > last {
                last = found[i].seq;
            }
            i += 1;
        }
        proof {
            assert(w.subrange(0, w.len() as int) =~= w);
            lemma_last_waiting(w);
            assert forall|k: int|
                0 <= k < pending@.len() && is_waiting(
                    #[trigger] pending@[k],
                    workspace@,
                ) implies pending@[k].value->0.seq <= last by {
                lemma_waiting_holds(pending@, workspace@, pending@.len() as int, k);
            }
        }
        let next_seq: u64 = last.saturating_add(1);
        EventBus { next_seq, workspace: workspace.to_owned(), pending: Some(pending) }
    }

    /// The events that wait, for somebody who subscribes now.
    pub fn pending_events(&self) -> (r: Vec<HarnessEvent>)
        ensures
            match self.pending {
                Some(files) => are_pending(r@, files@, self.workspace@),
                None => r@.len() == 0,
            },
    {
        match &self.pending {
            Some(files) => load_pending_events(files, self.workspace.as_str()),
            None => Vec::new(),
        }
    }

    /// Publishes an event under the next number.
    pub fn publish(&mut self, kind: &str, data: Json, now_ms: u64) -> (r: HarnessEvent)
        ensures
            published(*old(self), *final(self), kind@, data.model(), now_ms, r@),
    {
        let event = HarnessEvent {
            seq: self.next_seq,
            kind: kind.to_owned(),
            timestamp_ms: now_ms,
            workspace: self.workspace.clone(),
            data,
        };
        self.next_seq = self.next_seq.wrapping_add(1);
        let files: Option<PendingFiles> = self.pending.take();
        match files {
            None => {
                self.pending = None;
            },
            Some(files) => {
                let mut files = files;
                if let Some(scope_id) = event_scope_id(&event) {
                    let name = scope_id.concat(".json");
                    if same_text(kind, "continuation_required") {
                        put_slot(&mut files, name.as_str(), Some(event.copy()));
                    } else if same_text(kind, "completion") {
                        if let Some(true) = event.data.bool_field("ready") {
                            drop_slot(&mut files, name.as_str());
                        }
                    }
                }
                self.pending = Some(files);
            },
        }
        event
    }

    /// The greeting of a new subscriber; it takes no number.
    pub fn connection_event(&self, now_ms: u64) -> (r: HarnessEvent)
        ensures
            r@ == (EventModel {
                seq: self.latest(),
                kind: "connected"@,
                timestamp_ms: now_ms,
                workspace: self.workspace@,
                data: JsonModel::Object(
                    seq![
                        ("buffer_capacity"@, JsonModel::Unsigned(EVENT_BUFFER as u64)),
                        ("transport"@, JsonModel::Text("sse"@)),
                        ("durable_continuation_replay"@, JsonModel::Bool(self.pending is Some)),
                    ],
                ),
            }),
    {
        let mut f = no_fields();
        put(&mut f, "buffer_capacity", Json::Unsigned(EVENT_BUFFER as u64));
        put(&mut f, "transport", Json::text("sse"));
        put(&mut f, "durable_continuation_replay", Json::Bool(self.pending.is_some()));
        assert(crate::json::field_models(f@) =~= seq![
            ("buffer_capacity"@, JsonModel::Unsigned(EVENT_BUFFER as u64)),
            ("transport"@, JsonModel::Text("sse"@)),
            ("durable_continuation_replay"@, JsonModel::Bool(self.pending is Some)),
        ]);
        HarnessEvent {
            seq: self.latest_seq(),
            kind: "connected".to_owned(),
            timestamp_ms: now_ms,
            workspace: self.workspace.clone(),
            data: Json::Object(f),
        }
    }

    /// The number of the last event.
    pub open spec fn latest(self) -> u64 {
        if self.next_seq == 0 {
            0
        } else {
            (self.next_seq - 1) as u64
        }
    }

    /// The number of the last event.
    pub fn latest_seq(&self) -> (r: u64)
        ensures
            r == self.latest(),
    {
        self.next_seq.saturating_sub(1)
    }
}

proof fn lemma_last_waiting(w: Seq<Waiting>)
    ensures
        forall|k: int| 0 <= k < w.len() ==> (#[trigger] w[k]).seq <= last_waiting(w),
    decreases w.len(),
{
    if w.len() > 0 {
        lemma_last_waiting(w.drop_last());
        assert forall|k: int| 0 <= k < w.len() implies (#[trigger] w[k]).seq <= last_waiting(w) by {
            if k < w.len() - 1 {
                assert(w.drop_last()[k] == w[k]);
            }
        }
    }
}

proof fn lemma_waiting_holds(
    files: Seq<Slot<Option<HarnessEvent>>>,
    workspace: Seq<char>,
    n: int,
    k: int,
)
    requires
        0 <= k < n <= files.len(),
        is_waiting(files[k], workspace),
    ensures
        exists|j: int|
            0 <= j < waiting(files, workspace, n).len() && (#[trigger] waiting(
                files,
                workspace,
                n,
            )[j]).seq == files[k].value->0.seq,
    decreases n,
{
    let w = waiting(files, workspace, n);
    if k == n - 1 {
        assert(w[w.len() - 1].seq == files[k].value->0.seq);
    } else {
        lemma_waiting_holds(files, workspace, n - 1, k);
        let front = waiting(files, workspace, n - 1);
        let j = choose|j: int| 0 <= j < front.len() && (#[trigger] front[j]).seq
            == files[k].value->0.seq;
        assert(w[j] == front[j]);
    }
}

/// A continuation that is asked for waits until its scope completes: once the
/// completion of a ready scope is published, nothing waits under that scope.
pub proof fn lemma_completion_ends_wait(
    before: Seq<Slot<Option<HarnessEvent>>>,
    after: Seq<Slot<Option<HarnessEvent>>>,
    event: EventModel,
)
    requires
        pending_after(before, after, event),
        event.kind == "completion"@,
        bool_of(event.data.field("ready"@)) == Some(true),
        scope_of(event.data) is Some,
    ensures
        forall|k: int|
            0 <= k < after.len() ==> (#[trigger] after[k]).name@ != scope_of(event.data)->0
                + ".json"@,
{
    reveal_strlit("completion");
    reveal_strlit("continuation_required");
    let gone = scope_of(event.data)->0 + ".json"@;
    assert("completion"@.len() != "continuation_required"@.len());
    lemma_slots_without(before, gone);
}

/// Each entry of the waiting events stands for a file that holds one.
proof fn lemma_waiting_entries(
    files: Seq<Slot<Option<HarnessEvent>>>,
    workspace: Seq<char>,
    n: int,
)
    requires
        n <= files.len() <= usize::MAX,
    ensures
        forall|j: int|
            0 <= j < waiting(files, workspace, n).len() ==> (#[trigger] waiting(
                files,
                workspace,
                n,
            )[j]).at < n && is_waiting(files[waiting(files, workspace, n)[j].at as int], workspace),
        forall|k: int|
            0 <= k < n && is_waiting(#[trigger] files[k], workspace) ==> waiting(
                files,
                workspace,
                n,
            ).contains(Waiting { seq: files[k].value->0.seq, at: k as usize }),
    decreases n,
{
    if n > 0 {
        lemma_waiting_entries(files, workspace, n - 1);
        let front = waiting(files, workspace, n - 1);
        let w = waiting(files, workspace, n);
        assert forall|k: int| 0 <= k < n && is_waiting(#[trigger] files[k], workspace) implies w.contains(
            Waiting { seq: files[k].value->0.seq, at: k as usize },
        ) by {
            let entry = Waiting { seq: files[k].value->0.seq, at: k as usize };
            if k < n - 1 {
                assert(front.contains(entry));
                let j = choose|j: int| 0 <= j < front.len() && front[j] == entry;
                assert(w[j] == entry);
            } else {
                assert(w[w.len() - 1] == entry);
            }
        }
    }
}

/// What is replayed to a subscriber are orders to continue that were published in the
/// subscriber's own workspace.
pub proof fn lemma_replay_stays_in_workspace(
    events: Seq<HarnessEvent>,
    files: Seq<Slot<Option<HarnessEvent>>>,
    workspace: Seq<char>,
)
    requires
        files.len() <= usize::MAX,
        are_pending(events, files, workspace),
    ensures
        forall|k: int|
            0 <= k < events.len() ==> {
                &&& (#[trigger] events[k])@.workspace == workspace
                &&& events[k]@.kind == "continuation_required"@
                &&& scope_of(events[k]@.data) is Some
            },
{
    broadcast use vstd::seq_lib::group_to_multiset_ensures;

    let w = waiting(files, workspace, files.len() as int);
    let order = in_order(w);
    lemma_waiting_entries(files, workspace, files.len() as int);
    crate::sort::lemma_in_order(w);
    assert forall|k: int| 0 <= k < events.len() implies {
        &&& (#[trigger] events[k])@.workspace == workspace
        &&& events[k]@.kind == "continuation_required"@
        &&& scope_of(events[k]@.data) is Some
    } by {
        let x = order[k];
        assert(order.contains(x));
        assert(order.to_multiset().count(x) > 0);
        assert(w.contains(x));
        let j = choose|j: int| 0 <= j < w.len() && w[j] == x;
        assert(is_waiting(files[w[j].at as int], workspace));
    }
}

/// An order to continue that was published is replayed to whoever subscribes then.
pub proof fn lemma_order_is_replayed(
    before: EventBus,
    after: EventBus,
    data: JsonModel,
    now_ms: u64,
    event: EventModel,
    events: Seq<HarnessEvent>,
)
    requires
        published(before, after, "continuation_required"@, data, now_ms, event),
        scope_of(data) is Some,
        before.pending is Some,
        after.pending->0@.len() <= usize::MAX,
        are_pending(events, after.pending->0@, after.workspace@),
    ensures
        exists|k: int| 0 <= k < events.len() && (#[trigger] events[k])@ == event,
{
    broadcast use vstd::seq_lib::group_to_multiset_ensures;

    let files = after.pending->0@;
    let name = scope_of(data)->0 + ".json"@;
    reveal_strlit(".json");
    lemma_slot_position(before.pending->0@, name);
    let at = slot_position(before.pending->0@, name);
    assert(name.subrange(name.len() - 5, name.len() as int) =~= ".json"@);
    assert(is_waiting(files[at], after.workspace@));
    let w = waiting(files, after.workspace@, files.len() as int);
    let order = in_order(w);
    let entry = Waiting { seq: files[at].value->0.seq, at: at as usize };
    lemma_waiting_entries(files, after.workspace@, files.len() as int);
    assert(w.contains(entry));
    crate::sort::lemma_in_order(w);
    assert(w.to_multiset().count(entry) > 0);
    assert(order.contains(entry));
    let k = choose|k: int| 0 <= k < order.len() && order[k] == entry;
    assert(events[k]@ == event);
}

/// The waiting events keep the order of their files, so each file is replayed once.
proof fn lemma_waiting_places(files: Seq<Slot<Option<HarnessEvent>>>, workspace: Seq<char>, n: int)
    requires
        n <= files.len() <= usize::MAX,
    ensures
        forall|i: int, j: int|
            0 <= i < j < waiting(files, workspace, n).len() ==> (#[trigger] waiting(
                files,
                workspace,
                n,
            )[i]).at < (#[trigger] waiting(files, workspace, n)[j]).at,
    decreases n,
{
    if n > 0 {
        lemma_waiting_places(files, workspace, n - 1);
        lemma_waiting_entries(files, workspace, n - 1);
        let front = waiting(files, workspace, n - 1);
        let w = waiting(files, workspace, n);
        assert forall|i: int, j: int| 0 <= i < j < w.len() implies (#[trigger] w[i]).at < (
        #[trigger] w[j]).at by {
            assert(w[i] == front[i]);
            if j < front.len() {
                assert(w[j] == front[j]);
            }
        }
    }
}

/// The file that an event which is replayed comes from; different events come from different
/// files.
pub open spec fn replay_place(
    files: Seq<Slot<Option<HarnessEvent>>>,
    workspace: Seq<char>,
    k: int,
) -> int {
    in_order(waiting(files, workspace, files.len() as int))[k].at as int
}

proof fn lemma_replay_places(files: Seq<Slot<Option<HarnessEvent>>>, workspace: Seq<char>)
    requires
        files.len() <= usize::MAX,
    ensures
        ({
            let n = in_order(waiting(files, workspace, files.len() as int)).len();
            &&& forall|k: int|
                0 <= k < n ==> 0 <= #[trigger] replay_place(files, workspace, k) < files.len()
                    && is_waiting(files[replay_place(files, workspace, k)], workspace)
            &&& forall|i: int, j: int|
                0 <= i < j < n ==> #[trigger] replay_place(files, workspace, i)
                    != #[trigger] replay_place(files, workspace, j)
        }),
{
    broadcast use vstd::seq_lib::group_to_multiset_ensures;

    let w = waiting(files, workspace, files.len() as int);
    let order = in_order(w);
    lemma_waiting_entries(files, workspace, files.len() as int);
    lemma_waiting_places(files, workspace, files.len() as int);
    crate::sort::lemma_in_order(w);
    assert(w.no_duplicates());
    w.lemma_multiset_has_no_duplicates();
    assert forall|x: Waiting| order.to_multiset().contains(x) implies order.to_multiset().count(x)
        == 1 by {
        assert(w.to_multiset().contains(x));
    }
    order.lemma_multiset_has_no_duplicates_conv();
    assert forall|k: int| 0 <= k < order.len() implies 0 <= #[trigger] replay_place(
        files,
        workspace,
        k,
    ) < files.len() && is_waiting(files[replay_place(files, workspace, k)], workspace) by {
        let x = order[k];
        assert(order.contains(x));
        assert(order.to_multiset().count(x) > 0);
        assert(w.contains(x));
        let j = choose|j: int| 0 <= j < w.len() && w[j] == x;
        assert(is_waiting(files[w[j].at as int], workspace));
    }
    assert forall|i: int, j: int| 0 <= i < j < order.len() implies #[trigger] replay_place(
        files,
        workspace,
        i,
    ) != #[trigger] replay_place(files, workspace, j) by {
        let x = order[i];
        let y = order[j];
        assert(x != y);
        assert(order.contains(x) && order.contains(y));
        assert(order.to_multiset().count(x) > 0 && order.to_multiset().count(y) > 0);
        assert(w.contains(x) && w.contains(y));
        let a = choose|a: int| 0 <= a < w.len() && w[a] == x;
        let b = choose|b: int| 0 <= b < w.len() && w[b] == y;
        assert(a != b);
    }
}

/// Each file of a waiting event bears the name of the event's scope, and no two files have
/// one name. A directory that only buses write holds this.
pub open spec fn files_fit(files: Seq<Slot<Option<HarnessEvent>>>) -> bool {
    &&& slots_differ(files)
    &&& forall|k: int|
        0 <= k < files.len() && (#[trigger] files[k]).value is Some ==> scope_of(
            files[k].value->0@.data,
        ) is Some && files[k].name@ == scope_of(files[k].value->0@.data)->0 + ".json"@
}

/// Publishing keeps each waiting event in the one file of its scope.
pub proof fn lemma_publishing_keeps_files_fit(
    before: Seq<Slot<Option<HarnessEvent>>>,
    after: Seq<Slot<Option<HarnessEvent>>>,
    event: EventModel,
)
    requires
        files_fit(before),
        pending_after(before, after, event),
    ensures
        files_fit(after),
{
    if after != before {
        let name = scope_of(event.data)->0 + ".json"@;
        let i = slot_position(before, name);
        lemma_slot_position(before, name);
        crate::shelf::lemma_one_slot_each(before, after, name, after[i].value);
        if event.kind == "continuation_required"@ {
        } else {
            crate::shelf::lemma_without_keeps_names(before, name);
            assert forall|k: int| 0 <= k < after.len() && (
            #[trigger] after[k]).value is Some implies scope_of(after[k].value->0@.data) is Some
                && after[k].name@ == scope_of(after[k].value->0@.data)->0 + ".json"@ by {
                assert(before.contains(slots_without(before, name)[k]));
                let t = choose|t: int| 0 <= t < before.len() && before[t] == after[k];
                assert(before[t].value is Some);
            }
        }
    }
}

/// An order to continue is replayed once and replaces its scope's former order: of all that
/// is replayed behind it, it alone is about its scope.
pub proof fn lemma_order_replaces_the_former(
    before: EventBus,
    after: EventBus,
    data: JsonModel,
    now_ms: u64,
    event: EventModel,
    events: Seq<HarnessEvent>,
)
    requires
        published(before, after, "continuation_required"@, data, now_ms, event),
        scope_of(data) is Some,
        before.pending is Some,
        files_fit(before.pending->0@),
        after.pending->0@.len() <= usize::MAX,
        are_pending(events, after.pending->0@, after.workspace@),
    ensures
        exists|k: int| 0 <= k < events.len() && (#[trigger] events[k])@ == event,
        forall|k: int|
            0 <= k < events.len() && scope_of((#[trigger] events[k])@.data) == scope_of(data)
                ==> events[k]@ == event,
        forall|j: int, k: int|
            0 <= j < k < events.len() && scope_of((#[trigger] events[j])@.data) == scope_of(data)
                ==> scope_of((#[trigger] events[k])@.data) != scope_of(data),
{
    let files = after.pending->0@;
    let name = scope_of(data)->0 + ".json"@;
    let at = slot_position(before.pending->0@, name);
    lemma_slot_position(before.pending->0@, name);
    lemma_order_is_replayed(before, after, data, now_ms, event, events);
    lemma_publishing_keeps_files_fit(before.pending->0@, files, event);
    lemma_replay_places(files, after.workspace@);
    assert forall|k: int|
        0 <= k < events.len() && scope_of((#[trigger] events[k])@.data) == scope_of(
            data,
        ) implies replay_place(files, after.workspace@, k) == at by {
        let p = replay_place(files, after.workspace@, k);
        assert(is_waiting(files[p], after.workspace@));
        assert(files[p].value is Some);
        assert(files[p].name@ == name);
        assert(files[at].name@ == name);
    }
    assert forall|k: int|
        0 <= k < events.len() && scope_of((#[trigger] events[k])@.data) == scope_of(
            data,
        ) implies events[k]@ == event by {
        assert(replay_place(files, after.workspace@, k) == at);
    }
    assert forall|j: int, k: int|
        0 <= j < k < events.len() && scope_of((#[trigger] events[j])@.data) == scope_of(
            data,
        ) implies scope_of((#[trigger] events[k])@.data) != scope_of(data) by {
        assert(replay_place(files, after.workspace@, j) != replay_place(
            files,
            after.workspace@,
            k,
        ));
    }
}

} // verus!
