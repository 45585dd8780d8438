//! The telemetry log: what its rows say and how it keeps its size.
use crate::json::{lemma_field_at, lemma_no_field, maybe_text, no_fields, number_or_null, put, text_of,
    u64_of, without_key, Json, JsonModel};
use crate::orca::{driver_key, valid_reset, validate_reset_after_seconds, BrowserDriverKind};
use crate::outside::{is_uuid, uuid_accepts};
use crate::paths::{join_path, joined_path};
use crate::sort::{in_order, is_in_order, lemma_in_order, sort_items, Sortable};
use crate::text::{copy_opt, decimal, decimal_of, lemma_text_le_trans, lemma_text_lt_asym, opt_str,
    opt_text, same_text, text_before, text_lt, texts};
use vstd::prelude::*;

verus! {

pub const TELEMETRY_FILE_NAME: &'static str = "gpt2omo.jsonl";

/// The log never stays larger than this many bytes.
pub const TELEMETRY_MAX_BYTES: usize = 1_048_576;

/// How many bytes of the newest rows are kept when the log grows too large. Keeping
/// well below the limit makes rewriting rare.
pub const TELEMETRY_RETAIN_BYTES: usize = 524_288;

/// How many bytes of the log are read at a time, from its end.
pub const TELEMETRY_READ_CHUNK_BYTES: usize = 65_536;

/// The byte that ends a row.
pub const NEWLINE: u8 = 10;

#[derive(Clone, Copy, Debug, PartialEq, Eq, Structural)]
pub enum TelemetryModelHint {
    Unknown,
    Auto,
    Gpt5Family,
}

#[derive(Clone, Copy, Debug, PartialEq, Eq, Structural)]
pub enum TelemetryEventType {
    Dispatched,
    RateLimited,
    DeliveryError,
    DeliveryRetryAttempted,
    AuthenticationRequired,
    ProbeUnsupported,
    ProbeUnknown,
    ReadinessBootstrapFailed,
    ReadinessHandshakeFailed,
    ReadinessInvalid,
    DispatchFailed,
    TerminalClaimFailed,
}

#[derive(Clone, Copy, Debug, PartialEq, Eq, Structural)]
pub enum TelemetryErrorCode {
    NoError,
    Dispatched,
    RateLimited,
    DeliveryError,
    AuthenticationRequired,
    ProbeUnsupported,
    ProbeUnknown,
    BootstrapFailed,
    ReadinessTimeout,
    ReadinessFailed,
    DispatchFailed,
    TerminalClaimFailed,
}

pub open spec fn hint_name(x: TelemetryModelHint) -> Seq<char> {
    match x {
        TelemetryModelHint::Unknown => "unknown"@,
        TelemetryModelHint::Auto => "auto"@,
        TelemetryModelHint::Gpt5Family => "gpt5_family"@,
    }
}

pub open spec fn event_name(x: TelemetryEventType) -> Seq<char> {
    match x {
        TelemetryEventType::Dispatched => "dispatched"@,
        TelemetryEventType::RateLimited => "rate_limited"@,
        TelemetryEventType::DeliveryError => "delivery_error"@,
        TelemetryEventType::DeliveryRetryAttempted => "delivery_retry_attempted"@,
        TelemetryEventType::AuthenticationRequired => "authentication_required"@,
        TelemetryEventType::ProbeUnsupported => "probe_unsupported"@,
        TelemetryEventType::ProbeUnknown => "probe_unknown"@,
        TelemetryEventType::ReadinessBootstrapFailed => "readiness_bootstrap_failed"@,
        TelemetryEventType::ReadinessHandshakeFailed => "readiness_handshake_failed"@,
        TelemetryEventType::ReadinessInvalid => "readiness_invalid"@,
        TelemetryEventType::DispatchFailed => "dispatch_failed"@,
        TelemetryEventType::TerminalClaimFailed => "terminal_claim_failed"@,
    }
}

pub open spec fn code_name(x: TelemetryErrorCode) -> Seq<char> {
    match x {
        TelemetryErrorCode::NoError => "none"@,
        TelemetryErrorCode::Dispatched => "dispatched"@,
        TelemetryErrorCode::RateLimited => "rate_limited"@,
        TelemetryErrorCode::DeliveryError => "delivery_error"@,
        TelemetryErrorCode::AuthenticationRequired => "authentication_required"@,
        TelemetryErrorCode::ProbeUnsupported => "probe_unsupported"@,
        TelemetryErrorCode::ProbeUnknown => "probe_unknown"@,
        TelemetryErrorCode::BootstrapFailed => "bootstrap_failed"@,
        TelemetryErrorCode::ReadinessTimeout => "readiness_timeout"@,
        TelemetryErrorCode::ReadinessFailed => "readiness_failed"@,
        TelemetryErrorCode::DispatchFailed => "dispatch_failed"@,
        TelemetryErrorCode::TerminalClaimFailed => "terminal_claim_failed"@,
    }
}

impl TelemetryModelHint {
    pub fn name(self) -> (r: &'static str)
        ensures
            r@ == hint_name(self),
    {
        match self {
            TelemetryModelHint::Unknown => "unknown",
            TelemetryModelHint::Auto => "auto",
            TelemetryModelHint::Gpt5Family => "gpt5_family",
        }
    }
}

impl TelemetryEventType {
    pub fn name(self) -> (r: &'static str)
        ensures
            r@ == event_name(self),
    {
        match self {
            TelemetryEventType::Dispatched => "dispatched",
            TelemetryEventType::RateLimited => "rate_limited",
            TelemetryEventType::DeliveryError => "delivery_error",
            TelemetryEventType::DeliveryRetryAttempted => "delivery_retry_attempted",
            TelemetryEventType::AuthenticationRequired => "authentication_required",
            TelemetryEventType::ProbeUnsupported => "probe_unsupported",
            TelemetryEventType::ProbeUnknown => "probe_unknown",
            TelemetryEventType::ReadinessBootstrapFailed => "readiness_bootstrap_failed",
            TelemetryEventType::ReadinessHandshakeFailed => "readiness_handshake_failed",
            TelemetryEventType::ReadinessInvalid => "readiness_invalid",
            TelemetryEventType::DispatchFailed => "dispatch_failed",
            TelemetryEventType::TerminalClaimFailed => "terminal_claim_failed",
        }
    }
}

impl TelemetryErrorCode {
    pub fn name(self) -> (r: &'static str)
        ensures
            r@ == code_name(self),
    {
        match self {
            TelemetryErrorCode::NoError => "none",
            TelemetryErrorCode::Dispatched => "dispatched",
            TelemetryErrorCode::RateLimited => "rate_limited",
            TelemetryErrorCode::DeliveryError => "delivery_error",
            TelemetryErrorCode::AuthenticationRequired => "authentication_required",
            TelemetryErrorCode::ProbeUnsupported => "probe_unsupported",
            TelemetryErrorCode::ProbeUnknown => "probe_unknown",
            TelemetryErrorCode::BootstrapFailed => "bootstrap_failed",
            TelemetryErrorCode::ReadinessTimeout => "readiness_timeout",
            TelemetryErrorCode::ReadinessFailed => "readiness_failed",
            TelemetryErrorCode::DispatchFailed => "dispatch_failed",
            TelemetryErrorCode::TerminalClaimFailed => "terminal_claim_failed",
        }
    }
}

/// A row of the log.
#[derive(Debug)]
pub struct TelemetryEvent {
    pub timestamp_ms: u64,
    pub scope_id: String,
    pub account_id: Option<String>,
    pub generation: u64,
    pub driver: BrowserDriverKind,
    pub model_hint: TelemetryModelHint,
    pub event_type: TelemetryEventType,
    pub reset_after_seconds: Option<u64>,
    pub error_code: TelemetryErrorCode,
}

/// The mathematical value of a [`TelemetryEvent`].
pub struct TelemetryModel {
    pub timestamp_ms: u64,
    pub scope_id: Seq<char>,
    pub account_id: Option<Seq<char>>,
    pub generation: u64,
    pub driver: BrowserDriverKind,
    pub model_hint: TelemetryModelHint,
    pub event_type: TelemetryEventType,
    pub reset_after_seconds: Option<u64>,
    pub error_code: TelemetryErrorCode,
}

impl View for TelemetryEvent {
    type V = TelemetryModel;

    open spec fn view(&self) -> TelemetryModel {
        TelemetryModel {
            timestamp_ms: self.timestamp_ms,
            scope_id: self.scope_id@,
            account_id: opt_text(self.account_id),
            generation: self.generation,
            driver: self.driver,
            model_hint: self.model_hint,
            event_type: self.event_type,
            reset_after_seconds: self.reset_after_seconds,
            error_code: self.error_code,
        }
    }
}

impl Clone for TelemetryEvent {
    fn clone(&self) -> (r: Self)
        ensures
            r == *self,
    {
        TelemetryEvent {
            timestamp_ms: self.timestamp_ms,
            scope_id: self.scope_id.clone(),
            account_id: copy_opt(&self.account_id),
            generation: self.generation,
            driver: self.driver,
            model_hint: self.model_hint,
            event_type: self.event_type,
            reset_after_seconds: self.reset_after_seconds,
            error_code: self.error_code,
        }
    }
}

/// What a row is made of.
#[derive(Clone, Copy, Debug)]
pub struct TelemetryEventInput<'a> {
    pub scope_id: &'a str,
    pub generation: u64,
    pub account_id: Option<&'a str>,
    pub driver: BrowserDriverKind,
    pub model_hint: TelemetryModelHint,
    pub event_type: TelemetryEventType,
    pub reset_after_seconds: Option<u64>,
    pub error_code: TelemetryErrorCode,
}

/// A reset delay that counts.
pub open spec fn sound_reset(reset: Option<u64>) -> Option<u64> {
    match reset {
        Some(s) => valid_reset(s),
        None => None,
    }
}

/// The row that an input makes: none for generation zero, an id that names no scope or
/// an empty account.
pub open spec fn event_of(
    scope_id: Seq<char>,
    generation: u64,
    account_id: Option<Seq<char>>,
    driver: BrowserDriverKind,
    model_hint: TelemetryModelHint,
    event_type: TelemetryEventType,
    reset_after_seconds: Option<u64>,
    error_code: TelemetryErrorCode,
    now_ms: u64,
) -> Option<TelemetryModel> {
    if generation == 0 || !is_uuid(scope_id) || account_id == Some(Seq::<char>::empty()) {
        None
    } else {
        Some(
            TelemetryModel {
                timestamp_ms: now_ms,
                scope_id,
                account_id,
                generation,
                driver,
                model_hint,
                event_type,
                reset_after_seconds: sound_reset(reset_after_seconds),
                error_code,
            },
        )
    }
}

pub open spec fn opt_event(o: Option<TelemetryEvent>) -> Option<TelemetryModel> {
    match o {
        Some(e) => Some(e@),
        None => None,
    }
}

/// The JSON of a row; an absent account is left out.
pub open spec fn event_json(e: TelemetryModel) -> JsonModel {
    let head = seq![
        ("timestamp_ms"@, JsonModel::Unsigned(e.timestamp_ms)),
        ("scope_id"@, JsonModel::Text(e.scope_id)),
    ];
    let named = match e.account_id {
        Some(a) => head.push(("account_id"@, JsonModel::Text(a))),
        None => head,
    };
    JsonModel::Object(
        named + seq![
            ("generation"@, JsonModel::Unsigned(e.generation)),
            ("driver"@, JsonModel::Text(driver_key(e.driver))),
            ("model_hint"@, JsonModel::Text(hint_name(e.model_hint))),
            ("event_type"@, JsonModel::Text(event_name(e.event_type))),
            ("reset_after_seconds"@, number_or_null(e.reset_after_seconds)),
            ("error_code"@, JsonModel::Text(code_name(e.error_code))),
        ],
    )
}

impl TelemetryEvent {
    /// The row of an event that belongs to no account.
    pub fn new(
        scope_id: &str,
        generation: u64,
        driver: BrowserDriverKind,
        model_hint: TelemetryModelHint,
        event_type: TelemetryEventType,
        reset_after_seconds: Option<u64>,
        error_code: TelemetryErrorCode,
        now_ms: u64,
    ) -> (r: Option<Self>)
        ensures
            opt_event(r) == event_of(
                scope_id@,
                generation,
                None,
                driver,
                model_hint,
                event_type,
                reset_after_seconds,
                error_code,
                now_ms,
            ),
    {
        Self::from_input(
            TelemetryEventInput {
                scope_id,
                generation,
                account_id: None,
                driver,
                model_hint,
                event_type,
                reset_after_seconds,
                error_code,
            },
            now_ms,
        )
    }

    /// The row that an input makes now.
    pub fn from_input(input: TelemetryEventInput<'_>, now_ms: u64) -> (r: Option<Self>)
        ensures
            opt_event(r) == event_of(
                input.scope_id@,
                input.generation,
                opt_str(input.account_id),
                input.driver,
                input.model_hint,
                input.event_type,
                input.reset_after_seconds,
                input.error_code,
                now_ms,
            ),
    {
        if input.generation == 0 || !uuid_accepts(input.scope_id) {
            return None;
        }
        let account_id: Option<String> = match input.account_id {
            Some(a) => {
                if a.is_empty() {
                    assert(a@ =~= Seq::<char>::empty());
                    return None;
                }
                Some(a.to_owned())
            },
            None => None,
        };
        let reset_after_seconds: Option<u64> = match input.reset_after_seconds {
            Some(s) => validate_reset_after_seconds(s),
            None => None,
        };
        Some(
            TelemetryEvent {
                timestamp_ms: now_ms,
                scope_id: input.scope_id.to_owned(),
                account_id,
                generation: input.generation,
                driver: input.driver,
                model_hint: input.model_hint,
                event_type: input.event_type,
                reset_after_seconds,
                error_code: input.error_code,
            },
        )
    }

    /// The row as JSON.
    pub fn to_json(&self) -> (r: Json)
        ensures
            r.model() == event_json(self@),
    {
        let mut f = no_fields();
        put(&mut f, "timestamp_ms", Json::Unsigned(self.timestamp_ms));
        put(&mut f, "scope_id", Json::text(self.scope_id.as_str()));
        if let Some(a) = &self.account_id {
            put(&mut f, "account_id", Json::text(a.as_str()));
        }
        put(&mut f, "generation", Json::Unsigned(self.generation));
        put(&mut f, "driver", Json::text(self.driver.key()));
        put(&mut f, "model_hint", Json::text(self.model_hint.name()));
        put(&mut f, "event_type", Json::text(self.event_type.name()));
        put(&mut f, "reset_after_seconds", Json::opt_number(self.reset_after_seconds));
        put(&mut f, "error_code", Json::text(self.error_code.name()));
        assert(crate::json::field_models(f@) =~= event_json(self@)->Object_0);
        Json::Object(f)
    }

    /// Whether two rows say the same.
    pub fn same(&self, other: &TelemetryEvent) -> (r: bool)
        ensures
            r == (self@ == other@),
    {
        let accounts = match (&self.account_id, &other.account_id) {
            (Some(a), Some(b)) => same_text(a.as_str(), b.as_str()),
            (None, None) => true,
            _ => false,
        };
        let resets = match (self.reset_after_seconds, other.reset_after_seconds) {
            (Some(a), Some(b)) => a == b,
            (None, None) => true,
            _ => false,
        };
        self.timestamp_ms == other.timestamp_ms && same_text(
            self.scope_id.as_str(),
            other.scope_id.as_str(),
        ) && accounts && self.generation == other.generation && self.driver == other.driver
            && self.model_hint == other.model_hint && self.event_type == other.event_type && resets
            && self.error_code == other.error_code
    }
}

/// Rows are ordered by time, then by scope, then by generation.
impl Sortable for TelemetryEvent {
    open spec fn before(self, other: Self) -> bool {
        ||| self.timestamp_ms < other.timestamp_ms
        ||| self.timestamp_ms == other.timestamp_ms && (text_lt(self.scope_id@, other.scope_id@) || (
        !text_lt(other.scope_id@, self.scope_id@) && self.generation < other.generation))
    }

    proof fn lemma_asym(a: Self, b: Self) {
        lemma_text_lt_asym(a.scope_id@, b.scope_id@);
    }

    proof fn lemma_trans(a: Self, b: Self, c: Self) {
        let x = a.scope_id@;
        let y = b.scope_id@;
        let z = c.scope_id@;
        lemma_text_lt_asym(x, y);
        lemma_text_lt_asym(y, z);
        lemma_text_lt_asym(x, z);
        if !text_lt(y, x) && !text_lt(z, y) {
            lemma_text_le_trans(x, y, z);
        }
        if !text_lt(z, x) && !text_lt(y, z) {
            lemma_text_le_trans(x, z, y);
        }
        if !text_lt(x, z) {
            if !text_lt(z, y) {
                lemma_text_le_trans(y, z, x);
            }
            if !text_lt(y, x) {
                lemma_text_le_trans(z, x, y);
            }
        }
        if !text_lt(x, y) && !text_lt(y, z) {
            lemma_text_le_trans(z, y, x);
        }
        if !text_lt(y, x) && !text_lt(x, z) {
            lemma_text_le_trans(z, x, y);
        }
    }

    fn is_before(&self, other: &Self) -> (r: bool) {
        if self.timestamp_ms != other.timestamp_ms {
            return self.timestamp_ms < other.timestamp_ms;
        }
        if text_before(self.scope_id.as_str(), other.scope_id.as_str()) {
            return true;
        }
        !text_before(other.scope_id.as_str(), self.scope_id.as_str()) && self.generation
            < other.generation
    }
}

/// The rows of a log file that are no older than `cutoff`, last first: the file is read
/// from its end up to the first older row; rows that cannot be read and rows from the
/// future are passed over.
pub open spec fn recent_rows(rows: Seq<Option<TelemetryEvent>>, cutoff: u64, now_ms: u64) -> Seq<
    TelemetryEvent,
>
    decreases rows.len(),
{
    if rows.len() == 0 {
        Seq::empty()
    } else {
        let rest = recent_rows(rows.drop_last(), cutoff, now_ms);
        match rows.last() {
            None => rest,
            Some(e) => if e.timestamp_ms < cutoff {
                Seq::empty()
            } else if e.timestamp_ms <= now_ms {
                seq![e] + rest
            } else {
                rest
            },
        }
    }
}

/// Takes the rows of a log file that are no older than `cutoff`: see [`recent_rows`].
pub fn read_recent_rows(rows: &Vec<Option<TelemetryEvent>>, cutoff: u64, now_ms: u64) -> (r: Vec<
    TelemetryEvent,
>)
    ensures
        r@ == recent_rows(rows@, cutoff, now_ms),
{
    let mut out: Vec<TelemetryEvent> = Vec::new();
    let mut i: usize = rows.len();
    assert(rows@.subrange(0, rows@.len() as int) =~= rows@);
    assert(out@ + recent_rows(rows@, cutoff, now_ms) =~= recent_rows(rows@, cutoff, now_ms));
    while i > 0
        invariant
            i <= rows@.len(),
            recent_rows(rows@, cutoff, now_ms) == out@ + recent_rows(
                rows@.subrange(0, i as int),
                cutoff,
                now_ms,
            ),
        decreases i,
    {
        proof {
            let head = rows@.subrange(0, i as int);
            assert(head.drop_last() =~= rows@.subrange(0, i - 1));
            assert(head.last() == rows@[i - 1]);
        }
        match &rows[i - 1] {
            None => {},
            Some(e) => {
                if e.timestamp_ms < cutoff {
                    assert(out@ + Seq::<TelemetryEvent>::empty() =~= out@);
                    return out;
                }
                if e.timestamp_ms <= now_ms {
                    let ghost before = out@;
                    out.push(e.clone());
                    assert(before + (seq![*e] + recent_rows(
                        rows@.subrange(0, i - 1),
                        cutoff,
                        now_ms,
                    )) =~= out@ + recent_rows(rows@.subrange(0, i - 1), cutoff, now_ms));
                }
            },
        }
        i -= 1;
    }
    assert(rows@.subrange(0, 0) =~= Seq::<Option<TelemetryEvent>>::empty());
    assert(out@ + Seq::<TelemetryEvent>::empty() =~= out@);
    out
}

/// A list without the rows that say the same as the row before them.
pub open spec fn without_repeats(s: Seq<TelemetryEvent>) -> Seq<TelemetryEvent>
    decreases s.len(),
{
    if s.len() == 0 {
        Seq::empty()
    } else {
        let front = without_repeats(s.drop_last());
        if front.len() > 0 && front.last()@ == s.last()@ {
            front
        } else {
            front.push(s.last())
        }
    }
}

fn drop_repeats(v: Vec<TelemetryEvent>) -> (r: Vec<TelemetryEvent>)
    ensures
        r@ == without_repeats(v@),
{
    let mut out: Vec<TelemetryEvent> = Vec::new();
    let mut i: usize = 0;
    assert(v@.subrange(0, 0) =~= Seq::<TelemetryEvent>::empty());
    while i < v.len()
        invariant
            i <= v@.len(),
            out@ == without_repeats(v@.subrange(0, i as int)),
        decreases v@.len() - i,
    {
        assert(v@.subrange(0, i + 1).drop_last() =~= v@.subrange(0, i as int));
        let n: usize = out.len();
        let repeats = n > 0 && out[n - 1].same(&v[i]);
        if !repeats {
            out.push(v[i].clone());
        }
        i += 1;
    }
    assert(v@.subrange(0, v@.len() as int) =~= v@);
    out
}

/// The earliest time in a window of some length.
pub open spec fn window_start(window_ms: u64, now_ms: u64) -> u64 {
    if window_ms <= now_ms {
        (now_ms - window_ms) as u64
    } else {
        0
    }
}

/// The rows of the log files that lie in a window, one file behind the other.
pub open spec fn window_rows(
    files: Seq<Vec<Option<TelemetryEvent>>>,
    window_ms: u64,
    now_ms: u64,
) -> Seq<TelemetryEvent>
    decreases files.len(),
{
    if files.len() == 0 {
        Seq::empty()
    } else {
        window_rows(files.drop_last(), window_ms, now_ms) + recent_rows(
            files.last()@,
            window_start(window_ms, now_ms),
            now_ms,
        )
    }
}

/// What the log files say of a window: their rows in order, each once.
pub open spec fn recent_events(
    files: Seq<Vec<Option<TelemetryEvent>>>,
    window_ms: u64,
    now_ms: u64,
) -> Seq<TelemetryEvent> {
    without_repeats(in_order(window_rows(files, window_ms, now_ms)))
}

/// The rows of all log files that lie in a window, in order, each once. A file is given by
/// its rows from the first to the last; a row that cannot be read is `None`.
pub fn read_recent_events(
    files: &Vec<Vec<Option<TelemetryEvent>>>,
    window_ms: u64,
    now_ms: u64,
) -> (r: Vec<TelemetryEvent>)
    ensures
        r@ == recent_events(files@, window_ms, now_ms),
        forall|i: int|
            0 <= i < r@.len() ==> window_start(window_ms, now_ms) <= (
            #[trigger] r@[i]).timestamp_ms <= now_ms,
{
    let cutoff: u64 = if window_ms <= now_ms {
        now_ms - window_ms
    } else {
        0
    };
    let mut all: Vec<TelemetryEvent> = Vec::new();
    let mut i: usize = 0;
    assert(files@.subrange(0, 0) =~= Seq::<Vec<Option<TelemetryEvent>>>::empty());
    while i < files.len()
        invariant
            i <= files@.len(),
            cutoff == window_start(window_ms, now_ms),
            all@ == window_rows(files@.subrange(0, i as int), window_ms, now_ms),
        decreases files@.len() - i,
    {
        proof {
            assert(files@.subrange(0, i + 1).drop_last() =~= files@.subrange(0, i as int));
        }
        let mut rows = read_recent_rows(&files[i], cutoff, now_ms);
        all.append(&mut rows);
        i += 1;
    }
    assert(files@.subrange(0, files@.len() as int) =~= files@);
    proof {
        lemma_recent_events_are_in_order(files@, window_ms, now_ms);
    }
    drop_repeats(sort_items(all))
}

/// How long a rate limit counts that named no end: a quarter of an hour.
pub const DEFAULT_LOCKOUT_MS: u64 = 900_000;

/// How far back rate limits are looked for: an hour.
pub const LOCKOUT_WINDOW_MS: u64 = 3_600_000;

/// When a rate limit ends.
pub open spec fn lockout_end(e: TelemetryEvent) -> int {
    match e.reset_after_seconds {
        Some(s) => e.timestamp_ms + s * 1000,
        None => e.timestamp_ms + DEFAULT_LOCKOUT_MS,
    }
}

/// The last rate limit that is not over.
pub open spec fn lockout(events: Seq<TelemetryEvent>, now_ms: u64) -> Option<(u64, Option<u64>)>
    decreases events.len(),
{
    if events.len() == 0 {
        None
    } else {
        let e = events.last();
        if e.event_type == TelemetryEventType::RateLimited && lockout_end(e) > now_ms {
            Some((e.timestamp_ms, Some(((lockout_end(e) - now_ms) / 1000) as u64)))
        } else {
            lockout(events.drop_last(), now_ms)
        }
    }
}

/// The rate limits on the way to the last one that is not over end at times that fit in a
/// `u64`.
pub open spec fn lockouts_fit(events: Seq<TelemetryEvent>, now_ms: u64) -> bool
    decreases events.len(),
{
    if events.len() == 0 {
        true
    } else if events.last().event_type == TelemetryEventType::RateLimited {
        &&& lockout_end(events.last()) <= u64::MAX
        &&& lockout_end(events.last()) > now_ms || lockouts_fit(events.drop_last(), now_ms)
    } else {
        lockouts_fit(events.drop_last(), now_ms)
    }
}

fn last_lockout(events: &Vec<TelemetryEvent>, now_ms: u64) -> (r: Option<(u64, Option<u64>)>)
    requires
        lockouts_fit(events@, now_ms),
    ensures
        r == lockout(events@, now_ms),
{
    let mut i: usize = events.len();
    assert(events@.subrange(0, events@.len() as int) =~= events@);
    while i > 0
        invariant
            i <= events@.len(),
            lockouts_fit(events@.subrange(0, i as int), now_ms),
            lockout(events@, now_ms) == lockout(events@.subrange(0, i as int), now_ms),
        decreases i,
    {
        let e = &events[i - 1];
        proof {
            let head = events@.subrange(0, i as int);
            assert(head.drop_last() =~= events@.subrange(0, i - 1));
            assert(head.last() == events@[i - 1]);
        }
        if e.event_type == TelemetryEventType::RateLimited {
            assert(lockout_end(*e) <= u64::MAX);
            let end: u64 = match e.reset_after_seconds {
                Some(s) => e.timestamp_ms + s * 1000,
                None => e.timestamp_ms + DEFAULT_LOCKOUT_MS,
            };
            if end > now_ms {
                let left: u64 = (end - now_ms) / 1000;
                return Some((e.timestamp_ms, Some(left)));
            }
        }
        i -= 1;
    }
    None
}

/// When the last rate limit of the past hour that is not over was noted, and how many
/// seconds of it are left.
pub fn active_rate_limit_lockout(files: &Vec<Vec<Option<TelemetryEvent>>>, now_ms: u64) -> (r: Option<
    (u64, Option<u64>),
>)
    requires
        lockouts_fit(recent_events(files@, LOCKOUT_WINDOW_MS, now_ms), now_ms),
    ensures
        r == lockout(recent_events(files@, LOCKOUT_WINDOW_MS, now_ms), now_ms),
{
    let events = read_recent_events(files, LOCKOUT_WINDOW_MS, now_ms);
    last_lockout(&events, now_ms)
}

/// How many dispatches the log files note in a window.
pub fn recent_dispatches_in_window(
    files: &Vec<Vec<Option<TelemetryEvent>>>,
    window_ms: u64,
    now_ms: u64,
) -> (r: usize)
    ensures
        r == recent_events(files@, window_ms, now_ms).filter(
            |e: TelemetryEvent| e.event_type == TelemetryEventType::Dispatched,
        ).len(),
{
    let events = read_recent_events(files, window_ms, now_ms);
    let ghost keep = |e: TelemetryEvent| e.event_type == TelemetryEventType::Dispatched;
    let mut n: usize = 0;
    let mut i: usize = 0;
    proof {
        reveal(Seq::filter);
        assert(events@.subrange(0, 0) =~= Seq::<TelemetryEvent>::empty());
    }
    while i < events.len()
        invariant
            i <= events@.len(),
            keep == (|e: TelemetryEvent| e.event_type == TelemetryEventType::Dispatched),
            n <= i,
            n == events@.subrange(0, i as int).filter(keep).len(),
        decreases events@.len() - i,
    {
        proof {
            reveal(Seq::filter);
            assert(events@.subrange(0, i + 1).drop_last() =~= events@.subrange(0, i as int));
        }
        if events[i].event_type == TelemetryEventType::Dispatched {
            n += 1;
        }
        i += 1;
    }
    assert(events@.subrange(0, events@.len() as int) =~= events@);
    n
}

/// The name of the log's directory among the temporary files. That directory may be
/// shared, so the name carries the user's number where the system has one.
pub open spec fn fallback_dir(uid: Option<u32>) -> Seq<char> {
    match uid {
        Some(n) => "omo-telemetry-"@ + decimal(n as nat),
        None => "omo-telemetry"@,
    }
}

/// Where the log may be kept, best place first: in the home directory if it is known,
/// and among the temporary files.
pub fn telemetry_candidate_paths(home: Option<&str>, temp_dir: &str, uid: Option<u32>) -> (r: Vec<
    String,
>)
    ensures
        ({
            let fallback = joined_path(
                joined_path(temp_dir@, fallback_dir(uid)),
                TELEMETRY_FILE_NAME@,
            );
            let usual = joined_path(
                joined_path(joined_path(home->0@, ".omo"@), "telemetry"@),
                TELEMETRY_FILE_NAME@,
            );
            texts(r@) == (if home is Some && home->0@.len() > 0 && usual != fallback {
                seq![usual, fallback]
            } else {
                seq![fallback]
            })
        }),
{
    let name = match uid {
        Some(n) => "omo-telemetry-".to_owned().concat(decimal_of(n as u64).as_str()),
        None => "omo-telemetry".to_owned(),
    };
    let fallback = join_path(
        join_path(temp_dir, name.as_str()).as_str(),
        TELEMETRY_FILE_NAME,
    );
    let mut out = crate::text::no_texts();
    if let Some(h) = home {
        if !h.is_empty() {
            let base = join_path(join_path(h, ".omo").as_str(), "telemetry");
            let usual = join_path(base.as_str(), TELEMETRY_FILE_NAME);
            if !same_text(usual.as_str(), fallback.as_str()) {
                crate::text::push_text(&mut out, usual.as_str());
            }
        }
    }
    let ghost before = texts(out@);
    crate::text::push_text(&mut out, fallback.as_str());
    proof {
        assert(texts(out@) =~= before.push(fallback@));
        if before.len() == 0 {
            assert(texts(out@) =~= seq![fallback@]);
        } else {
            assert(texts(out@) =~= seq![before[0], fallback@]);
        }
    }
    out
}

/// The position behind the first newline, or the length.
pub open spec fn behind_first_newline(s: Seq<u8>) -> int
    decreases s.len(),
{
    if s.len() == 0 {
        0
    } else if s[0] == NEWLINE {
        1
    } else {
        1 + behind_first_newline(s.drop_first())
    }
}

/// The position behind the last newline, or zero.
pub open spec fn behind_last_newline(s: Seq<u8>) -> int
    decreases s.len(),
{
    if s.len() == 0 {
        0
    } else if s.last() == NEWLINE {
        s.len() as int
    } else {
        behind_last_newline(s.drop_last())
    }
}

/// Where the last row begins; a newline at the very end belongs to it.
pub open spec fn last_row_start(s: Seq<u8>) -> int {
    if s.len() == 0 {
        0
    } else {
        behind_last_newline(s.drop_last())
    }
}

/// Where the kept part of the end of a log begins: at its first whole row, but never
/// behind the start of its last row.
pub open spec fn kept_from(tail: Seq<u8>) -> int {
    if behind_first_newline(tail) <= last_row_start(tail) {
        behind_first_newline(tail)
    } else {
        last_row_start(tail)
    }
}

fn find_first_newline(v: &Vec<u8>) -> (r: usize)
    ensures
        r == behind_first_newline(v@),
        r <= v@.len(),
{
    let mut i: usize = 0;
    assert(v@.subrange(0, v@.len() as int) =~= v@);
    while i < v.len()
        invariant
            i <= v@.len(),
            behind_first_newline(v@) == i + behind_first_newline(
                v@.subrange(i as int, v@.len() as int),
            ),
        decreases v@.len() - i,
    {
        if v[i] == NEWLINE {
            return i + 1;
        }
        assert(v@.subrange(i as int, v@.len() as int).drop_first() =~= v@.subrange(
            i + 1,
            v@.len() as int,
        ));
        i += 1;
    }
    i
}

fn find_last_row(v: &Vec<u8>) -> (r: usize)
    ensures
        r == last_row_start(v@),
        r <= v@.len(),
{
    if v.len() == 0 {
        return 0;
    }
    let ghost s = v@.drop_last();
    let mut i: usize = v.len() - 1;
    assert(s.subrange(0, s.len() as int) =~= s);
    while i > 0
        invariant
            i <= s.len(),
            s.len() < v@.len(),
            s == v@.drop_last(),
            behind_last_newline(s) == behind_last_newline(s.subrange(0, i as int)),
        decreases i,
    {
        proof {
            assert(s.subrange(0, i as int).last() == v@[i - 1]);
            assert(s.subrange(0, i as int).drop_last() =~= s.subrange(0, i - 1));
        }
        if v[i - 1] == NEWLINE {
            return i;
        }
        i -= 1;
    }
    assert(s.subrange(0, 0) =~= Seq::<u8>::empty());
    0
}

/// What is left of a log that grew too large: the rows in its last bytes.
pub open spec fn compacted(file: Seq<u8>) -> Seq<u8> {
    let tail = file.subrange(file.len() - TELEMETRY_RETAIN_BYTES, file.len() as int);
    tail.subrange(kept_from(tail), tail.len() as int)
}

/// The log after a row was added: it ends with the row, and is compacted if it grew too
/// large.
pub open spec fn appended(file: Seq<u8>, row: Seq<u8>) -> Seq<u8> {
    let grown = file + row.push(NEWLINE);
    if grown.len() > TELEMETRY_MAX_BYTES {
        compacted(grown)
    } else {
        grown
    }
}

fn copy_bytes(v: &Vec<u8>, from: usize) -> (r: Vec<u8>)
    requires
        from <= v@.len(),
    ensures
        r@ == v@.subrange(from as int, v@.len() as int),
{
    let mut out: Vec<u8> = Vec::new();
    let mut i: usize = from;
    while i < v.len()
        invariant
            from <= i <= v@.len(),
            out@ =~= v@.subrange(from as int, i as int),
        decreases v@.len() - i,
    {
        out.push(v[i]);
        i += 1;
    }
    out
}

/// What is left of a log that grew too large.
pub fn compact_to_retain_limit(file: &Vec<u8>) -> (r: Vec<u8>)
    requires
        file@.len() > TELEMETRY_MAX_BYTES,
    ensures
        r@ == compacted(file@),
{
    let tail = copy_bytes(file, file.len() - TELEMETRY_RETAIN_BYTES);
    let first = find_first_newline(&tail);
    let last = find_last_row(&tail);
    if first <= last {
        copy_bytes(&tail, first)
    } else {
        copy_bytes(&tail, last)
    }
}

/// Adds a row to a log.
pub fn append_row(file: Vec<u8>, row: &Vec<u8>) -> (r: Vec<u8>)
    ensures
        r@ == appended(file@, row@),
{
    let mut grown = file;
    let ghost before = grown@;
    let mut i: usize = 0;
    assert(before + row@.subrange(0, 0) =~= before);
    while i < row.len()
        invariant
            i <= row@.len(),
            grown@ == before + row@.subrange(0, i as int),
        decreases row@.len() - i,
    {
        grown.push(row[i]);
        assert(grown@ =~= before + row@.subrange(0, i + 1));
        i += 1;
    }
    grown.push(NEWLINE);
    assert(grown@ =~= before + row@.push(NEWLINE));
    if grown.len() > TELEMETRY_MAX_BYTES {
        return compact_to_retain_limit(&grown);
    }
    grown
}

proof fn lemma_behind_first_newline(s: Seq<u8>)
    ensures
        0 <= behind_first_newline(s) <= s.len(),
        s.len() > 0 ==> behind_first_newline(s) > 0,
        behind_first_newline(s) < s.len() ==> s[behind_first_newline(s) - 1] == NEWLINE,
        s.contains(NEWLINE) ==> s[behind_first_newline(s) - 1] == NEWLINE,
    decreases s.len(),
{
    if s.len() > 0 && s[0] != NEWLINE {
        let t = s.drop_first();
        lemma_behind_first_newline(t);
        if s.contains(NEWLINE) {
            let k = choose|k: int| 0 <= k < s.len() && s[k] == NEWLINE;
            assert(t[k - 1] == NEWLINE);
        }
    }
}

proof fn lemma_behind_last_newline(s: Seq<u8>)
    ensures
        0 <= behind_last_newline(s) <= s.len(),
        behind_last_newline(s) > 0 ==> s[behind_last_newline(s) - 1] == NEWLINE,
        forall|i: int| behind_last_newline(s) <= i < s.len() ==> #[trigger] s[i] != NEWLINE,
    decreases s.len(),
{
    if s.len() > 0 && s.last() != NEWLINE {
        let t = s.drop_last();
        lemma_behind_last_newline(t);
        assert forall|i: int| behind_last_newline(s) <= i < s.len() implies #[trigger] s[i]
            != NEWLINE by {
            if i < t.len() {
                assert(t[i] == s[i]);
            }
        }
        if behind_last_newline(t) > 0 {
            assert(t[behind_last_newline(t) - 1] == s[behind_last_newline(t) - 1]);
        }
    }
}

/// The log never stays larger than its limit, and its end is what was last written.
pub proof fn lemma_append_keeps_limit(file: Seq<u8>, row: Seq<u8>)
    ensures
        appended(file, row).len() <= TELEMETRY_MAX_BYTES,
        appended(file, row).len() <= file.len() + row.len() + 1,
        ({
            let grown = file + row.push(NEWLINE);
            let n = appended(file, row).len() as int;
            appended(file, row) == grown.subrange(grown.len() - n, grown.len() as int)
        }),
{
    let grown = file + row.push(NEWLINE);
    let tail = grown.subrange(grown.len() - TELEMETRY_RETAIN_BYTES, grown.len() as int);
    lemma_behind_first_newline(tail);
    if grown.len() > TELEMETRY_MAX_BYTES {
        lemma_behind_last_newline(tail.drop_last());
        let k = kept_from(tail);
        let n = tail.len() - k;
        assert(appended(file, row) =~= grown.subrange(grown.len() - n, grown.len() as int));
    } else {
        assert(grown =~= grown.subrange(0, grown.len() as int));
    }
}

/// A row without a newline that is not longer than what compaction keeps survives the
/// compaction that its own writing causes, and the compacted log begins with a whole
/// row.
pub proof fn lemma_compaction_keeps_whole_rows(file: Seq<u8>, row: Seq<u8>)
    requires
        !row.contains(NEWLINE),
        row.len() + 1 <= TELEMETRY_RETAIN_BYTES,
        file.len() > 0 ==> file.last() == NEWLINE,
        (file + row.push(NEWLINE)).len() > TELEMETRY_MAX_BYTES,
    ensures
        ({
            let grown = file + row.push(NEWLINE);
            let kept = appended(file, row);
            &&& kept.len() >= row.len() + 1
            &&& kept.subrange(kept.len() - row.len() - 1, kept.len() as int) == row.push(NEWLINE)
            &&& kept.len() < grown.len()
            &&& grown[grown.len() - kept.len() - 1] == NEWLINE
        }),
{
    let grown = file + row.push(NEWLINE);
    let kept = appended(file, row);
    let start = grown.len() - TELEMETRY_RETAIN_BYTES;
    let tail = grown.subrange(start, grown.len() as int);
    let line = row.len() + 1;
    lemma_behind_first_newline(tail);
    lemma_behind_last_newline(tail.drop_last());
    let at = tail.len() - line;
    assert(grown[start + at - 1] == file[file.len() - 1]);
    if at > 0 {
        assert(tail[at - 1] == grown[start + at - 1]);
        assert(tail.contains(NEWLINE));
    }
    let last = last_row_start(tail);
    assert(last <= at) by {
        if last > at {
            assert(tail.drop_last()[last - 1] == NEWLINE);
            assert(tail[last - 1] == grown[start + last - 1]);
            assert(grown[start + last - 1] == row[last - 1 - at]);
            assert(row.contains(NEWLINE));
        }
    }
    assert(last >= at) by {
        if last < at {
            assert(tail.drop_last()[at - 1] != NEWLINE);
        }
    }
    let k = kept_from(tail);
    assert(k <= last);
    assert(kept == tail.subrange(k, tail.len() as int));
    assert(kept.subrange(kept.len() - line, kept.len() as int) =~= row.push(NEWLINE));
    if at > 0 {
        assert(k > 0);
        assert(tail[k - 1] == NEWLINE);
        assert(grown[grown.len() - kept.len() - 1] == tail[k - 1]);
    }
}

/// The bytes in front of the first newline.
pub open spec fn first_line(s: Seq<u8>) -> Seq<u8>
    decreases s.len(),
{
    if s.len() == 0 || s[0] == NEWLINE {
        Seq::empty()
    } else {
        seq![s[0]] + first_line(s.drop_first())
    }
}

/// The lines behind the first newline.
pub open spec fn later_lines(s: Seq<u8>) -> Seq<Seq<u8>>
    decreases s.len(), 0nat,
{
    if s.len() == 0 {
        Seq::empty()
    } else if s[0] == NEWLINE {
        lines_of(s.drop_first())
    } else {
        later_lines(s.drop_first())
    }
}

/// Bytes cut at every newline.
pub open spec fn lines_of(s: Seq<u8>) -> Seq<Seq<u8>>
    decreases s.len(), 1nat,
{
    seq![first_line(s)] + later_lines(s)
}

pub open spec fn byte_lines(v: Seq<Vec<u8>>) -> Seq<Seq<u8>> {
    v.map_values(|l: Vec<u8>| l@)
}

/// Reads the lines of a file from its end, chunk by chunk.
pub struct ReverseLines {
    /// The bytes that were read and whose line may begin further to the front.
    pub pending: Vec<u8>,
}

impl ReverseLines {
    /// A reader that has read nothing.
    pub fn new() -> (r: Self)
        ensures
            r.pending@.len() == 0,
    {
        ReverseLines { pending: Vec::new() }
    }

    /// Takes the chunk in front of what was read and hands out the lines that are now
    /// whole, in the order of the file; what may begin further to the front stays.
    pub fn feed(&mut self, chunk: Vec<u8>) -> (r: Vec<Vec<u8>>)
        ensures
            seq![final(self).pending@] + byte_lines(r@) == lines_of(chunk@ + old(self).pending@),
    {
        let mut all = chunk;
        let ghost before = all@;
        let ghost held = self.pending@;
        let mut i: usize = 0;
        assert(before + held.subrange(0, 0) =~= before);
        while i < self.pending.len()
            invariant
                i <= self.pending@.len(),
                self.pending@ == held,
                all@ == before + held.subrange(0, i as int),
            decreases self.pending@.len() - i,
        {
            all.push(self.pending[i]);
            assert(all@ =~= before + held.subrange(0, i + 1));
            i += 1;
        }
        assert(held.subrange(0, held.len() as int) =~= held);
        let ghost s = all@;
        let mut lines: Vec<Vec<u8>> = Vec::new();
        let mut cur: Vec<u8> = Vec::new();
        let mut k: usize = 0;
        proof {
            assert(s.subrange(0, s.len() as int) =~= s);
            assert(cur@ + first_line(s) =~= first_line(s));
            assert(byte_lines(lines@) + (seq![cur@ + first_line(s)] + later_lines(s)) =~= lines_of(
                s,
            ));
        }
        while k < all.len()
            invariant
                k <= all@.len(),
                s == all@,
                lines_of(s) == byte_lines(lines@) + (seq![
                    cur@ + first_line(s.subrange(k as int, s.len() as int)),
                ] + later_lines(s.subrange(k as int, s.len() as int))),
            decreases all@.len() - k,
        {
            let ghost rest = s.subrange(k as int, s.len() as int);
            let ghost next = s.subrange(k + 1, s.len() as int);
            let ghost so_far = byte_lines(lines@);
            proof {
                assert(rest.drop_first() =~= next);
                assert(rest[0] == s[k as int]);
            }
            if all[k] == NEWLINE {
                let ghost line = cur@;
                assert(line + first_line(rest) =~= line);
                lines.push(cur);
                cur = Vec::new();
                proof {
                    assert(byte_lines(lines@) =~= so_far.push(line));
                    assert(cur@ + first_line(next) =~= first_line(next));
                    assert(so_far + (seq![line] + lines_of(next)) =~= so_far.push(line) + (seq![
                        cur@ + first_line(next),
                    ] + later_lines(next)));
                }
            } else {
                let ghost line = cur@;
                cur.push(all[k]);
                assert(line + first_line(rest) =~= cur@ + first_line(next));
            }
            k += 1;
        }
        let ghost last = cur@;
        let ghost so_far = byte_lines(lines@);
        lines.push(cur);
        proof {
            let rest = s.subrange(s.len() as int, s.len() as int);
            assert(rest.len() == 0);
            assert(last + first_line(rest) =~= last);
            assert(byte_lines(lines@) =~= so_far.push(last));
            assert(so_far + (seq![last] + Seq::<Seq<u8>>::empty()) =~= so_far.push(last));
            assert(byte_lines(lines@) == lines_of(s));
        }
        let ghost full = byte_lines(lines@);
        self.pending = lines.remove(0);
        assert(seq![self.pending@] + byte_lines(lines@) =~= full);
        lines
    }

    /// What stands at the front of the file when all of it was read.
    pub fn finish(self) -> (r: Vec<u8>)
        ensures
            r@ == self.pending@,
    {
        self.pending
    }
}

proof fn lemma_first_line_of_concat(a: Seq<u8>, b: Seq<u8>)
    ensures
        lines_of(a + b) == lines_of(a).drop_last() + (seq![lines_of(a).last() + first_line(b)]
            + later_lines(b)),
        lines_of(a).len() > 0,
    decreases a.len(),
{
    if a.len() == 0 {
        assert(a + b =~= b);
        assert(lines_of(a) =~= seq![Seq::<u8>::empty()]);
        assert(Seq::<u8>::empty() + first_line(b) =~= first_line(b));
        assert(lines_of(a).drop_last() + (seq![first_line(b)] + later_lines(b)) =~= lines_of(b));
    } else {
        let t = a.drop_first();
        lemma_first_line_of_concat(t, b);
        assert((a + b).drop_first() =~= t + b);
        assert((a + b)[0] == a[0]);
        let tail = seq![lines_of(t).last() + first_line(b)] + later_lines(b);
        if a[0] == NEWLINE {
            assert(lines_of(a) =~= seq![Seq::<u8>::empty()] + lines_of(t));
            assert(lines_of(a + b) =~= seq![Seq::<u8>::empty()] + lines_of(t + b));
            assert(lines_of(a).last() == lines_of(t).last());
            assert(lines_of(a).drop_last() =~= seq![Seq::<u8>::empty()] + lines_of(t).drop_last());
            assert(lines_of(a + b) =~= lines_of(a).drop_last() + tail);
        } else {
            let x = seq![a[0]];
            assert(lines_of(t)[0] == first_line(t));
            assert(lines_of(t + b)[0] == first_line(t + b));
            assert(lines_of(t + b) =~= seq![first_line(t + b)] + later_lines(t + b));
            if later_lines(t).len() == 0 {
                assert(lines_of(t) =~= seq![first_line(t)]);
                assert(lines_of(t).drop_last() =~= Seq::<Seq<u8>>::empty());
                assert(lines_of(t + b) =~= tail);
                assert(first_line(t + b) == tail[0]);
                assert(later_lines(t + b) =~= later_lines(b)) by {
                    assert(lines_of(t + b).drop_first() =~= later_lines(t + b));
                    assert(tail.drop_first() =~= later_lines(b));
                }
                assert(lines_of(a) =~= seq![x + first_line(t)]);
                assert(lines_of(a).drop_last() =~= Seq::<Seq<u8>>::empty());
                assert(x + (first_line(t) + first_line(b)) =~= (x + first_line(t)) + first_line(b));
                assert(lines_of(a + b) =~= lines_of(a).drop_last() + (seq![
                    lines_of(a).last() + first_line(b),
                ] + later_lines(b)));
            } else {
                let mid = later_lines(t);
                assert(lines_of(t).last() == mid.last());
                assert(lines_of(t).drop_last() =~= seq![first_line(t)] + mid.drop_last());
                assert(first_line(t + b) == first_line(t)) by {
                    assert((lines_of(t).drop_last() + tail)[0] == first_line(t));
                }
                assert(later_lines(t + b) =~= mid.drop_last() + tail) by {
                    assert(lines_of(t + b).drop_first() =~= later_lines(t + b));
                    assert((lines_of(t).drop_last() + tail).drop_first() =~= mid.drop_last() + tail);
                }
                assert(lines_of(a) =~= seq![x + first_line(t)] + mid);
                assert(lines_of(a).last() == mid.last());
                assert(lines_of(a).drop_last() =~= seq![x + first_line(t)] + mid.drop_last());
                assert(lines_of(a + b) =~= lines_of(a).drop_last() + tail);
            }
        }
    }
}

/// Reading a file from its end in two parts hands out its lines: those of the rear part
/// behind its first newline, then those of the front part with what was held back.
pub proof fn lemma_reverse_reading_finds_all_lines(front: Seq<u8>, rear: Seq<u8>)
    ensures
        lines_of(front + first_line(rear)) + later_lines(rear) == lines_of(front + rear),
{
    lemma_first_line_of_concat(front, rear);
    lemma_first_line_of_concat(front, first_line(rear));
    lemma_first_line_has_no_newline(rear);
    let f = first_line(rear);
    assert(first_line(f) == f && later_lines(f) == Seq::<Seq<u8>>::empty());
    assert(lines_of(front + f) + later_lines(rear) =~= lines_of(front + rear));
}

proof fn lemma_first_line_has_no_newline(s: Seq<u8>)
    ensures
        first_line(first_line(s)) == first_line(s),
        later_lines(first_line(s)) == Seq::<Seq<u8>>::empty(),
    decreases s.len(),
{
    if s.len() > 0 && s[0] != NEWLINE {
        lemma_first_line_has_no_newline(s.drop_first());
        let f = first_line(s);
        assert(f.drop_first() =~= first_line(s.drop_first()));
        assert(f[0] == s[0]);
        assert(first_line(f) =~= f);
    }
}

proof fn lemma_kept_rows(s: Seq<TelemetryEvent>, i: int)
    requires
        0 <= i < without_repeats(s).len(),
    ensures
        s.contains(without_repeats(s)[i]),
    decreases s.len(),
{
    let front = without_repeats(s.drop_last());
    if i < front.len() {
        lemma_kept_rows(s.drop_last(), i);
        let t = choose|t: int| 0 <= t < s.drop_last().len() && s.drop_last()[t] == front[i];
        assert(s[t] == front[i]);
    } else {
        assert(s[s.len() - 1] == s.last());
    }
}

proof fn lemma_kept_order(s: Seq<TelemetryEvent>, i: int, j: int)
    requires
        is_in_order(s),
        0 <= i < j < without_repeats(s).len(),
    ensures
        !without_repeats(s)[j].before(without_repeats(s)[i]),
        j == i + 1 ==> without_repeats(s)[i]@ != without_repeats(s)[j]@,
    decreases s.len(),
{
    let front = without_repeats(s.drop_last());
    if j < front.len() {
        assert forall|a: int, b: int| 0 <= a < b < s.drop_last().len() implies !(
        #[trigger] s.drop_last()[b]).before(#[trigger] s.drop_last()[a]) by {
            assert(s.drop_last()[a] == s[a] && s.drop_last()[b] == s[b]);
        }
        lemma_kept_order(s.drop_last(), i, j);
    } else {
        lemma_kept_rows(s.drop_last(), i);
        let t = choose|t: int| 0 <= t < s.drop_last().len() && s.drop_last()[t] == front[i];
        assert(s[t] == front[i] && s[s.len() - 1] == s.last());
    }
}

/// The place of a row that says the same as the row at `i`.
proof fn kept_row(s: Seq<TelemetryEvent>, i: int) -> (k: int)
    requires
        0 <= i < s.len(),
    ensures
        0 <= k < without_repeats(s).len(),
        without_repeats(s)[k]@ == s[i]@,
    decreases s.len(),
{
    if i < s.len() - 1 {
        let k = kept_row(s.drop_last(), i);
        assert(s.drop_last()[i] == s[i]);
        k
    } else {
        without_repeats(s).len() - 1
    }
}

/// The place of a row that says the same as the row at `t`, once the rows are sorted and
/// freed of repeats.
proof fn sorted_row(all: Seq<TelemetryEvent>, t: int) -> (k: int)
    requires
        0 <= t < all.len(),
    ensures
        0 <= k < without_repeats(in_order(all)).len(),
        without_repeats(in_order(all))[k]@ == all[t]@,
{
    broadcast use vstd::seq_lib::group_to_multiset_ensures;

    let s = in_order(all);
    lemma_in_order(all);
    assert(all.contains(all[t]));
    assert(all.to_multiset().count(all[t]) > 0);
    assert(s.contains(all[t]));
    let at = choose|i: int| 0 <= i < s.len() && s[i] == all[t];
    kept_row(s, at)
}

/// Rows that are sorted and freed of repeats stand in order, and no row says the same as the
/// row before it.
proof fn lemma_sorted_rows(all: Seq<TelemetryEvent>)
    ensures
        ({
            let r = without_repeats(in_order(all));
            &&& forall|i: int, j: int|
                0 <= i < j < r.len() ==> !(#[trigger] r[j]).before(#[trigger] r[i])
            &&& forall|i: int, j: int|
                0 <= i && j == i + 1 && j < r.len() ==> (#[trigger] r[i])@ != (#[trigger] r[j])@
            &&& forall|i: int| 0 <= i < r.len() ==> all.contains(#[trigger] r[i])
        }),
{
    broadcast use vstd::seq_lib::group_to_multiset_ensures;

    let s = in_order(all);
    let r = without_repeats(s);
    lemma_in_order(all);
    assert forall|i: int, j: int| 0 <= i < j < r.len() implies !(#[trigger] r[j]).before(
        #[trigger] r[i],
    ) by {
        lemma_kept_order(s, i, j);
    }
    assert forall|i: int, j: int| 0 <= i && j == i + 1 && j < r.len() implies (#[trigger] r[i])@
        != (#[trigger] r[j])@ by {
        lemma_kept_order(s, i, j);
    }
    assert forall|i: int| 0 <= i < r.len() implies all.contains(#[trigger] r[i]) by {
        lemma_kept_rows(s, i);
        assert(s.to_multiset().count(r[i]) > 0);
    }
}

/// The rows that are read of a file lie between its cutoff and now.
proof fn lemma_recent_row(rows: Seq<Option<TelemetryEvent>>, cutoff: u64, now_ms: u64, i: int)
    requires
        0 <= i < recent_rows(rows, cutoff, now_ms).len(),
    ensures
        cutoff <= recent_rows(rows, cutoff, now_ms)[i].timestamp_ms <= now_ms,
        rows.contains(Some(recent_rows(rows, cutoff, now_ms)[i])),
    decreases rows.len(),
{
    let rest = recent_rows(rows.drop_last(), cutoff, now_ms);
    let back: int = recent_rows(rows, cutoff, now_ms).len() - rest.len();
    assert(rows[rows.len() - 1] == rows.last());
    if i >= back {
        lemma_recent_row(rows.drop_last(), cutoff, now_ms, i - back);
        let front = rows.drop_last();
        let k = choose|k: int| 0 <= k < front.len() && front[k] == Some(rest[i - back]);
        assert(rows[k] == Some(rest[i - back]));
    }
}

/// The rows of a window lie in it, and each stands in one of the files.
proof fn lemma_window_row(
    files: Seq<Vec<Option<TelemetryEvent>>>,
    window_ms: u64,
    now_ms: u64,
    i: int,
) -> (f: int)
    requires
        0 <= i < window_rows(files, window_ms, now_ms).len(),
    ensures
        window_start(window_ms, now_ms) <= window_rows(files, window_ms, now_ms)[i].timestamp_ms
            <= now_ms,
        0 <= f < files.len(),
        files[f]@.contains(Some(window_rows(files, window_ms, now_ms)[i])),
    decreases files.len(),
{
    let front = window_rows(files.drop_last(), window_ms, now_ms);
    if i < front.len() {
        lemma_window_row(files.drop_last(), window_ms, now_ms, i)
    } else {
        lemma_recent_row(
            files.last()@,
            window_start(window_ms, now_ms),
            now_ms,
            i - front.len(),
        );
        files.len() - 1
    }
}

/// A row stands in one of some files.
pub open spec fn stands_in(files: Seq<Vec<Option<TelemetryEvent>>>, e: TelemetryEvent) -> bool {
    exists|f: int| 0 <= f < files.len() && (#[trigger] files[f])@.contains(Some(e))
}

/// What is read of the log lies in the window and stands in the order of its times, scopes
/// and generations; no row says the same as the row before it, and each row stands in one of
/// the files.
pub proof fn lemma_recent_events_are_in_order(
    files: Seq<Vec<Option<TelemetryEvent>>>,
    window_ms: u64,
    now_ms: u64,
)
    ensures
        ({
            let r = recent_events(files, window_ms, now_ms);
            &&& forall|i: int|
                0 <= i < r.len() ==> window_start(window_ms, now_ms) <= (
                #[trigger] r[i]).timestamp_ms <= now_ms
            &&& forall|i: int, j: int|
                0 <= i < j < r.len() ==> (#[trigger] r[i]).timestamp_ms <= (
                #[trigger] r[j]).timestamp_ms
            &&& forall|i: int, j: int|
                0 <= i < j < r.len() ==> !(#[trigger] r[j]).before(#[trigger] r[i])
            &&& forall|i: int, j: int|
                0 <= i && j == i + 1 && j < r.len() ==> (#[trigger] r[i])@ != (#[trigger] r[j])@
            &&& forall|i: int| 0 <= i < r.len() ==> stands_in(files, #[trigger] r[i])
        }),
{
    let all = window_rows(files, window_ms, now_ms);
    let r = recent_events(files, window_ms, now_ms);
    lemma_sorted_rows(all);
    assert forall|i: int| 0 <= i < r.len() implies window_start(window_ms, now_ms) <= (
    #[trigger] r[i]).timestamp_ms <= now_ms && stands_in(files, r[i]) by {
        assert(all.contains(r[i]));
        let t = choose|t: int| 0 <= t < all.len() && all[t] == r[i];
        let f = lemma_window_row(files, window_ms, now_ms, t);
        assert(files[f]@.contains(Some(r[i])));
    }
    assert forall|i: int, j: int| 0 <= i < j < r.len() implies (#[trigger] r[i]).timestamp_ms <= (
    #[trigger] r[j]).timestamp_ms by {
        assert(!r[j].before(r[i]));
    }
}

/// The rows of a file that can be read stand in the order of their times.
pub open spec fn rows_in_order(rows: Seq<Option<TelemetryEvent>>) -> bool {
    forall|i: int, j: int|
        0 <= i < j < rows.len() && (#[trigger] rows[i]) is Some && (#[trigger] rows[j]) is Some
            ==> rows[i]->0.timestamp_ms <= rows[j]->0.timestamp_ms
}

proof fn lemma_ordered_row_is_recent(
    rows: Seq<Option<TelemetryEvent>>,
    cutoff: u64,
    now_ms: u64,
    k: int,
)
    requires
        rows_in_order(rows),
        0 <= k < rows.len(),
        rows[k] matches Some(e) && cutoff <= e.timestamp_ms <= now_ms,
    ensures
        recent_rows(rows, cutoff, now_ms).contains(rows[k]->0),
    decreases rows.len(),
{
    let all = recent_rows(rows, cutoff, now_ms);
    let last: int = rows.len() - 1;
    assert(rows[last] == rows.last());
    if k == last {
        assert(all[0] == rows[k]->0);
    } else {
        let front = rows.drop_last();
        assert forall|i: int, j: int|
            0 <= i < j < front.len() && (#[trigger] front[i]) is Some && (
            #[trigger] front[j]) is Some implies front[i]->0.timestamp_ms
            <= front[j]->0.timestamp_ms by {
            assert(front[i] == rows[i] && front[j] == rows[j]);
        }
        lemma_ordered_row_is_recent(front, cutoff, now_ms, k);
        let rest = recent_rows(front, cutoff, now_ms);
        let t = choose|t: int| 0 <= t < rest.len() && rest[t] == rows[k]->0;
        let back: int = all.len() - rest.len();
        assert(all[t + back] == rest[t]);
    }
}

proof fn lemma_window_keeps_file(
    files: Seq<Vec<Option<TelemetryEvent>>>,
    window_ms: u64,
    now_ms: u64,
    f: int,
    e: TelemetryEvent,
)
    requires
        0 <= f < files.len(),
        recent_rows(files[f]@, window_start(window_ms, now_ms), now_ms).contains(e),
    ensures
        window_rows(files, window_ms, now_ms).contains(e),
    decreases files.len(),
{
    let all = window_rows(files, window_ms, now_ms);
    let front = window_rows(files.drop_last(), window_ms, now_ms);
    if f == files.len() - 1 {
        let rows = recent_rows(files[f]@, window_start(window_ms, now_ms), now_ms);
        let t = choose|t: int| 0 <= t < rows.len() && rows[t] == e;
        assert(all[front.len() + t] == e);
    } else {
        lemma_window_keeps_file(files.drop_last(), window_ms, now_ms, f, e);
        let t = choose|t: int| 0 <= t < front.len() && front[t] == e;
        assert(all[t] == e);
    }
}

/// Of a file whose rows stand in the order of their times, every row that can be read and
/// lies in the window is read.
pub proof fn lemma_window_is_read_whole(
    files: Seq<Vec<Option<TelemetryEvent>>>,
    window_ms: u64,
    now_ms: u64,
    f: int,
    k: int,
)
    requires
        0 <= f < files.len(),
        rows_in_order(files[f]@),
        0 <= k < files[f]@.len(),
        files[f]@[k] matches Some(e) && window_start(window_ms, now_ms) <= e.timestamp_ms
            <= now_ms,
    ensures
        exists|i: int|
            0 <= i < recent_events(files, window_ms, now_ms).len() && (#[trigger] recent_events(
                files,
                window_ms,
                now_ms,
            )[i])@ == files[f]@[k]->0@,
{
    let e = files[f]@[k]->0;
    let all = window_rows(files, window_ms, now_ms);
    lemma_ordered_row_is_recent(files[f]@, window_start(window_ms, now_ms), now_ms, k);
    lemma_window_keeps_file(files, window_ms, now_ms, f, e);
    let t = choose|t: int| 0 <= t < all.len() && all[t] == e;
    let i = sorted_row(all, t);
    assert(recent_events(files, window_ms, now_ms)[i]@ == e@);
}

/// Some rows as they stand in a log.
pub open spec fn written(rows: Seq<Seq<u8>>) -> Seq<u8>
    decreases rows.len(),
{
    if rows.len() == 0 {
        Seq::empty()
    } else {
        written(rows.drop_last()) + rows.last().push(NEWLINE)
    }
}

/// The log after some rows were added, one after the other.
pub open spec fn appended_all(file: Seq<u8>, rows: Seq<Seq<u8>>) -> Seq<u8>
    decreases rows.len(),
{
    if rows.len() == 0 {
        file
    } else {
        appended(appended_all(file, rows.drop_last()), rows.last())
    }
}

/// Once a log was compacted, at least as many bytes as lie between its limit and what
/// compaction keeps must be written before it is compacted again: until then every row
/// stands behind the others, and nothing is dropped.
pub proof fn lemma_compactions_are_rare(grown: Seq<u8>, rows: Seq<Seq<u8>>)
    requires
        grown.len() > TELEMETRY_MAX_BYTES,
        written(rows).len() <= TELEMETRY_MAX_BYTES - TELEMETRY_RETAIN_BYTES,
    ensures
        compacted(grown).len() <= TELEMETRY_RETAIN_BYTES,
        appended_all(compacted(grown), rows) == compacted(grown) + written(rows),
    decreases rows.len(),
{
    let tail = grown.subrange(grown.len() - TELEMETRY_RETAIN_BYTES, grown.len() as int);
    lemma_behind_first_newline(tail);
    lemma_behind_last_newline(tail.drop_last());
    if rows.len() == 0 {
        assert(compacted(grown) + written(rows) =~= compacted(grown));
    } else {
        lemma_compactions_are_rare(grown, rows.drop_last());
        assert((compacted(grown) + written(rows.drop_last())) + rows.last().push(NEWLINE)
            =~= compacted(grown) + written(rows));
    }
}


/// The model hint with a name.
pub open spec fn hint_named(name: Seq<char>) -> Option<TelemetryModelHint> {
    if name == "unknown"@ {
        Some(TelemetryModelHint::Unknown)
    } else if name == "auto"@ {
        Some(TelemetryModelHint::Auto)
    } else if name == "gpt5_family"@ {
        Some(TelemetryModelHint::Gpt5Family)
    } else {
        None
    }
}

fn hint_in(name: &str) -> (r: Option<TelemetryModelHint>)
    ensures
        r == hint_named(name@),
{
    if same_text(name, "unknown") {
        Some(TelemetryModelHint::Unknown)
    } else if same_text(name, "auto") {
        Some(TelemetryModelHint::Auto)
    } else if same_text(name, "gpt5_family") {
        Some(TelemetryModelHint::Gpt5Family)
    } else {
        None
    }
}

proof fn lemma_hint_named(x: TelemetryModelHint)
    ensures
        hint_named(hint_name(x)) == Some(x),
{
    reveal_strlit("unknown");
    reveal_strlit("auto");
    reveal_strlit("gpt5_family");
    assert("unknown"@.len() == 7);
    assert("auto"@.len() == 4);
    assert("gpt5_family"@.len() == 11);
}

/// The type of event with a name.
pub open spec fn event_named(name: Seq<char>) -> Option<TelemetryEventType> {
    if name == "dispatched"@ {
        Some(TelemetryEventType::Dispatched)
    } else if name == "rate_limited"@ {
        Some(TelemetryEventType::RateLimited)
    } else if name == "delivery_error"@ {
        Some(TelemetryEventType::DeliveryError)
    } else if name == "delivery_retry_attempted"@ {
        Some(TelemetryEventType::DeliveryRetryAttempted)
    } else if name == "authentication_required"@ {
        Some(TelemetryEventType::AuthenticationRequired)
    } else if name == "probe_unsupported"@ {
        Some(TelemetryEventType::ProbeUnsupported)
    } else if name == "probe_unknown"@ {
        Some(TelemetryEventType::ProbeUnknown)
    } else if name == "readiness_bootstrap_failed"@ {
        Some(TelemetryEventType::ReadinessBootstrapFailed)
    } else if name == "readiness_handshake_failed"@ {
        Some(TelemetryEventType::ReadinessHandshakeFailed)
    } else if name == "readiness_invalid"@ {
        Some(TelemetryEventType::ReadinessInvalid)
    } else if name == "dispatch_failed"@ {
        Some(TelemetryEventType::DispatchFailed)
    } else if name == "terminal_claim_failed"@ {
        Some(TelemetryEventType::TerminalClaimFailed)
    } else {
        None
    }
}

fn event_in(name: &str) -> (r: Option<TelemetryEventType>)
    ensures
        r == event_named(name@),
{
    if same_text(name, "dispatched") {
        Some(TelemetryEventType::Dispatched)
    } else if same_text(name, "rate_limited") {
        Some(TelemetryEventType::RateLimited)
    } else if same_text(name, "delivery_error") {
        Some(TelemetryEventType::DeliveryError)
    } else if same_text(name, "delivery_retry_attempted") {
        Some(TelemetryEventType::DeliveryRetryAttempted)
    } else if same_text(name, "authentication_required") {
        Some(TelemetryEventType::AuthenticationRequired)
    } else if same_text(name, "probe_unsupported") {
        Some(TelemetryEventType::ProbeUnsupported)
    } else if same_text(name, "probe_unknown") {
        Some(TelemetryEventType::ProbeUnknown)
    } else if same_text(name, "readiness_bootstrap_failed") {
        Some(TelemetryEventType::ReadinessBootstrapFailed)
    } else if same_text(name, "readiness_handshake_failed") {
        Some(TelemetryEventType::ReadinessHandshakeFailed)
    } else if same_text(name, "readiness_invalid") {
        Some(TelemetryEventType::ReadinessInvalid)
    } else if same_text(name, "dispatch_failed") {
        Some(TelemetryEventType::DispatchFailed)
    } else if same_text(name, "terminal_claim_failed") {
        Some(TelemetryEventType::TerminalClaimFailed)
    } else {
        None
    }
}

proof fn lemma_event_named(x: TelemetryEventType)
    ensures
        event_named(event_name(x)) == Some(x),
{
    reveal_strlit("dispatched");
    reveal_strlit("rate_limited");
    reveal_strlit("delivery_error");
    reveal_strlit("delivery_retry_attempted");
    reveal_strlit("authentication_required");
    reveal_strlit("probe_unsupported");
    reveal_strlit("probe_unknown");
    reveal_strlit("readiness_bootstrap_failed");
    reveal_strlit("readiness_handshake_failed");
    reveal_strlit("readiness_invalid");
    reveal_strlit("dispatch_failed");
    reveal_strlit("terminal_claim_failed");
    assert("dispatched"@.len() == 10);
    assert("rate_limited"@.len() == 12);
    assert("delivery_error"@.len() == 14);
    assert("delivery_retry_attempted"@.len() == 24);
    assert("authentication_required"@.len() == 23);
    assert("probe_unsupported"@.len() == 17);
    assert("probe_unknown"@.len() == 13);
    assert("readiness_bootstrap_failed"@.len() == 26);
    assert("readiness_handshake_failed"@.len() == 26);
    assert("readiness_invalid"@.len() == 17);
    assert("dispatch_failed"@.len() == 15);
    assert("terminal_claim_failed"@.len() == 21);
    assert("readiness_bootstrap_failed"@[10] != "readiness_handshake_failed"@[10]);
    assert("probe_unsupported"@[0] != "readiness_invalid"@[0]);
}

/// The error code with a name.
pub open spec fn code_named(name: Seq<char>) -> Option<TelemetryErrorCode> {
    if name == "none"@ {
        Some(TelemetryErrorCode::NoError)
    } else if name == "dispatched"@ {
        Some(TelemetryErrorCode::Dispatched)
    } else if name == "rate_limited"@ {
        Some(TelemetryErrorCode::RateLimited)
    } else if name == "delivery_error"@ {
        Some(TelemetryErrorCode::DeliveryError)
    } else if name == "authentication_required"@ {
        Some(TelemetryErrorCode::AuthenticationRequired)
    } else if name == "probe_unsupported"@ {
        Some(TelemetryErrorCode::ProbeUnsupported)
    } else if name == "probe_unknown"@ {
        Some(TelemetryErrorCode::ProbeUnknown)
    } else if name == "bootstrap_failed"@ {
        Some(TelemetryErrorCode::BootstrapFailed)
    } else if name == "readiness_timeout"@ {
        Some(TelemetryErrorCode::ReadinessTimeout)
    } else if name == "readiness_failed"@ {
        Some(TelemetryErrorCode::ReadinessFailed)
    } else if name == "dispatch_failed"@ {
        Some(TelemetryErrorCode::DispatchFailed)
    } else if name == "terminal_claim_failed"@ {
        Some(TelemetryErrorCode::TerminalClaimFailed)
    } else {
        None
    }
}

fn code_in(name: &str) -> (r: Option<TelemetryErrorCode>)
    ensures
        r == code_named(name@),
{
    if same_text(name, "none") {
        Some(TelemetryErrorCode::NoError)
    } else if same_text(name, "dispatched") {
        Some(TelemetryErrorCode::Dispatched)
    } else if same_text(name, "rate_limited") {
        Some(TelemetryErrorCode::RateLimited)
    } else if same_text(name, "delivery_error") {
        Some(TelemetryErrorCode::DeliveryError)
    } else if same_text(name, "authentication_required") {
        Some(TelemetryErrorCode::AuthenticationRequired)
    } else if same_text(name, "probe_unsupported") {
        Some(TelemetryErrorCode::ProbeUnsupported)
    } else if same_text(name, "probe_unknown") {
        Some(TelemetryErrorCode::ProbeUnknown)
    } else if same_text(name, "bootstrap_failed") {
        Some(TelemetryErrorCode::BootstrapFailed)
    } else if same_text(name, "readiness_timeout") {
        Some(TelemetryErrorCode::ReadinessTimeout)
    } else if same_text(name, "readiness_failed") {
        Some(TelemetryErrorCode::ReadinessFailed)
    } else if same_text(name, "dispatch_failed") {
        Some(TelemetryErrorCode::DispatchFailed)
    } else if same_text(name, "terminal_claim_failed") {
        Some(TelemetryErrorCode::TerminalClaimFailed)
    } else {
        None
    }
}

proof fn lemma_code_named(x: TelemetryErrorCode)
    ensures
        code_named(code_name(x)) == Some(x),
{
    reveal_strlit("none");
    reveal_strlit("dispatched");
    reveal_strlit("rate_limited");
    reveal_strlit("delivery_error");
    reveal_strlit("authentication_required");
    reveal_strlit("probe_unsupported");
    reveal_strlit("probe_unknown");
    reveal_strlit("bootstrap_failed");
    reveal_strlit("readiness_timeout");
    reveal_strlit("readiness_failed");
    reveal_strlit("dispatch_failed");
    reveal_strlit("terminal_claim_failed");
    assert("none"@.len() == 4);
    assert("dispatched"@.len() == 10);
    assert("rate_limited"@.len() == 12);
    assert("delivery_error"@.len() == 14);
    assert("authentication_required"@.len() == 23);
    assert("probe_unsupported"@.len() == 17);
    assert("probe_unknown"@.len() == 13);
    assert("bootstrap_failed"@.len() == 16);
    assert("readiness_timeout"@.len() == 17);
    assert("readiness_failed"@.len() == 16);
    assert("dispatch_failed"@.len() == 15);
    assert("terminal_claim_failed"@.len() == 21);
    assert("probe_unsupported"@[0] != "readiness_timeout"@[0]);
    assert("bootstrap_failed"@[0] != "readiness_failed"@[0]);
}

/// The driver with a key.
pub open spec fn driver_keyed(name: Seq<char>) -> Option<BrowserDriverKind> {
    if name == "maho"@ {
        Some(BrowserDriverKind::Maho)
    } else if name == "orca"@ {
        Some(BrowserDriverKind::Orca)
    } else if name == "cmux"@ {
        Some(BrowserDriverKind::Cmux)
    } else if name == "agent_browser"@ {
        Some(BrowserDriverKind::AgentBrowser)
    } else if name == "aside"@ {
        Some(BrowserDriverKind::Aside)
    } else if name == "chrome"@ {
        Some(BrowserDriverKind::Chrome)
    } else {
        None
    }
}

fn driver_in(name: &str) -> (r: Option<BrowserDriverKind>)
    ensures
        r == driver_keyed(name@),
{
    if same_text(name, "maho") {
        Some(BrowserDriverKind::Maho)
    } else if same_text(name, "orca") {
        Some(BrowserDriverKind::Orca)
    } else if same_text(name, "cmux") {
        Some(BrowserDriverKind::Cmux)
    } else if same_text(name, "agent_browser") {
        Some(BrowserDriverKind::AgentBrowser)
    } else if same_text(name, "aside") {
        Some(BrowserDriverKind::Aside)
    } else if same_text(name, "chrome") {
        Some(BrowserDriverKind::Chrome)
    } else {
        None
    }
}

proof fn lemma_driver_keyed(x: BrowserDriverKind)
    ensures
        driver_keyed(driver_key(x)) == Some(x),
{
    reveal_strlit("maho");
    reveal_strlit("orca");
    reveal_strlit("cmux");
    reveal_strlit("agent_browser");
    reveal_strlit("aside");
    reveal_strlit("chrome");
    assert("maho"@.len() == 4);
    assert("orca"@.len() == 4);
    assert("cmux"@.len() == 4);
    assert("agent_browser"@.len() == 13);
    assert("aside"@.len() == 5);
    assert("chrome"@.len() == 6);
    assert("maho"@[0] != "orca"@[0]);
    assert("maho"@[0] != "cmux"@[0]);
    assert("orca"@[0] != "cmux"@[0]);
}

/// A number that may be missing or null.
pub open spec fn maybe_number(o: Option<JsonModel>) -> Option<Option<u64>> {
    match o {
        None => Some(None),
        Some(JsonModel::Null) => Some(None),
        Some(JsonModel::Unsigned(n)) => Some(Some(n)),
        Some(_) => None,
    }
}

/// The event that a row writes; nothing where a field is not what it should be.
pub open spec fn read_event(v: JsonModel) -> Option<TelemetryModel> {
    let timestamp_ms = u64_of(v.field("timestamp_ms"@));
    let scope_id = text_of(v.field("scope_id"@));
    let account_id = maybe_text(v, "account_id"@);
    let generation = u64_of(v.field("generation"@));
    let driver = text_of(v.field("driver"@));
    let hint = text_of(v.field("model_hint"@));
    let event = text_of(v.field("event_type"@));
    let reset = maybe_number(v.field("reset_after_seconds"@));
    let code = text_of(v.field("error_code"@));
    if timestamp_ms is Some && scope_id is Some && account_id is Some && generation is Some
        && driver is Some && hint is Some && event is Some && reset is Some && code is Some
        && driver_keyed(driver->0) is Some && hint_named(hint->0) is Some && event_named(event->0)
        is Some && code_named(code->0) is Some {
        Some(
            TelemetryModel {
                timestamp_ms: timestamp_ms->0,
                scope_id: scope_id->0,
                account_id: account_id->0,
                generation: generation->0,
                driver: driver_keyed(driver->0)->0,
                model_hint: hint_named(hint->0)->0,
                event_type: event_named(event->0)->0,
                reset_after_seconds: reset->0,
                error_code: code_named(code->0)->0,
            },
        )
    } else {
        None
    }
}

impl TelemetryEvent {
    /// Reads a row. Fields that a row does not have are passed over; the account and the
    /// reset time may be left out.
    pub fn from_json(v: &Json) -> (r: Option<Self>)
        ensures
            opt_event(r) == read_event(v.model()),
    {
        let account_id = match v.get("account_id") {
            None => None,
            Some(Json::Null) => None,
            Some(Json::Text(s)) => Some(s.clone()),
            Some(_) => return None,
        };
        let reset_after_seconds = match v.get("reset_after_seconds") {
            None => None,
            Some(Json::Null) => None,
            Some(Json::Unsigned(n)) => Some(*n),
            Some(_) => return None,
        };
        match (
            v.u64_field("timestamp_ms"),
            v.text_field("scope_id"),
            v.u64_field("generation"),
            v.text_field("driver"),
            v.text_field("model_hint"),
            v.text_field("event_type"),
            v.text_field("error_code"),
        ) {
            (
                Some(timestamp_ms),
                Some(scope_id),
                Some(generation),
                Some(driver),
                Some(hint),
                Some(event),
                Some(code),
            ) => match (
                driver_in(driver.as_str()),
                hint_in(hint.as_str()),
                event_in(event.as_str()),
                code_in(code.as_str()),
            ) {
                (Some(driver), Some(model_hint), Some(event_type), Some(error_code)) => Some(
                    TelemetryEvent {
                        timestamp_ms,
                        scope_id,
                        account_id,
                        generation,
                        driver,
                        model_hint,
                        event_type,
                        reset_after_seconds,
                        error_code,
                    },
                ),
                _ => None,
            },
            _ => None,
        }
    }
}

/// What a row says is read back as it was written.
#[verifier::rlimit(40)]
pub proof fn lemma_row_is_read_back(e: TelemetryModel)
    ensures
        read_event(event_json(e)) == Some(e),
{
    reveal_strlit("timestamp_ms");
    reveal_strlit("scope_id");
    reveal_strlit("account_id");
    reveal_strlit("generation");
    reveal_strlit("driver");
    reveal_strlit("model_hint");
    reveal_strlit("event_type");
    reveal_strlit("reset_after_seconds");
    reveal_strlit("error_code");
    assert("account_id"@[0] != "generation"@[0]);
    assert("account_id"@[0] != "model_hint"@[0]);
    assert("generation"@[0] != "model_hint"@[0]);
    assert("account_id"@[0] != "event_type"@[0]);
    assert("generation"@[0] != "event_type"@[0]);
    assert("model_hint"@[0] != "event_type"@[0]);
    assert("account_id"@[0] != "error_code"@[0]);
    assert("generation"@[0] != "error_code"@[0]);
    assert("model_hint"@[0] != "error_code"@[0]);
    assert("event_type"@[1] != "error_code"@[1]);
    lemma_driver_keyed(e.driver);
    lemma_hint_named(e.model_hint);
    lemma_event_named(e.event_type);
    lemma_code_named(e.error_code);
    let fields = event_json(e)->Object_0;
    reveal_with_fuel(without_key, 10);
    if e.account_id is Some {
        assert(fields.len() == 9);
        assert(fields.subrange(0, 9) =~= fields);
        assert(fields[0].0 == "timestamp_ms"@);
        assert(fields[1].0 == "scope_id"@);
        assert(fields[2].0 == "account_id"@);
        assert(fields[3].0 == "generation"@);
        assert(fields[4].0 == "driver"@);
        assert(fields[5].0 == "model_hint"@);
        assert(fields[6].0 == "event_type"@);
        assert(fields[7].0 == "reset_after_seconds"@);
        assert(fields[8].0 == "error_code"@);
        assert(without_key(fields, 0, "timestamp_ms"@));
        lemma_field_at(fields, 0, 0, "timestamp_ms"@);
        assert(without_key(fields, 1, "scope_id"@));
        lemma_field_at(fields, 0, 1, "scope_id"@);
        assert(without_key(fields, 2, "account_id"@));
        lemma_field_at(fields, 0, 2, "account_id"@);
        assert(without_key(fields, 3, "generation"@));
        lemma_field_at(fields, 0, 3, "generation"@);
        assert(without_key(fields, 4, "driver"@));
        lemma_field_at(fields, 0, 4, "driver"@);
        assert(without_key(fields, 5, "model_hint"@));
        lemma_field_at(fields, 0, 5, "model_hint"@);
        assert(without_key(fields, 6, "event_type"@));
        lemma_field_at(fields, 0, 6, "event_type"@);
        assert(without_key(fields, 7, "reset_after_seconds"@));
        lemma_field_at(fields, 0, 7, "reset_after_seconds"@);
        assert(without_key(fields, 8, "error_code"@));
        lemma_field_at(fields, 0, 8, "error_code"@);
    } else {
        assert(fields.len() == 8);
        assert(fields.subrange(0, 8) =~= fields);
        assert(fields[0].0 == "timestamp_ms"@);
        assert(fields[1].0 == "scope_id"@);
        assert(fields[2].0 == "generation"@);
        assert(fields[3].0 == "driver"@);
        assert(fields[4].0 == "model_hint"@);
        assert(fields[5].0 == "event_type"@);
        assert(fields[6].0 == "reset_after_seconds"@);
        assert(fields[7].0 == "error_code"@);
        assert(without_key(fields, 0, "timestamp_ms"@));
        lemma_field_at(fields, 0, 0, "timestamp_ms"@);
        assert(without_key(fields, 1, "scope_id"@));
        lemma_field_at(fields, 0, 1, "scope_id"@);
        assert(without_key(fields, 2, "generation"@));
        lemma_field_at(fields, 0, 2, "generation"@);
        assert(without_key(fields, 3, "driver"@));
        lemma_field_at(fields, 0, 3, "driver"@);
        assert(without_key(fields, 4, "model_hint"@));
        lemma_field_at(fields, 0, 4, "model_hint"@);
        assert(without_key(fields, 5, "event_type"@));
        lemma_field_at(fields, 0, 5, "event_type"@);
        assert(without_key(fields, 6, "reset_after_seconds"@));
        lemma_field_at(fields, 0, 6, "reset_after_seconds"@);
        assert(without_key(fields, 7, "error_code"@));
        lemma_field_at(fields, 0, 7, "error_code"@);
        assert(without_key(fields, 8, "account_id"@));
        lemma_no_field(fields, 0, "account_id"@);
    }
}

} // verus!
