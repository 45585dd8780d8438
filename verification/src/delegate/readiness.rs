//! Workers get their tasks only after every one of them has shown that it is ready.
use crate::accounts::AccountsConfig;
use crate::delegate::control::{READINESS_FRESHNESS_MS, READINESS_RETRY_AFTER_MS,
    UI_PROBE_INTERVAL_MS};
use crate::delegate::report::{StagedDelegation, StagedModel};
use crate::delegate::terminal::{plain_note, ProbeSchedule, TelemetryNote, UiProbeAction};
use crate::router::{commit_outcome, release_outcome, AccountRouter, RouterError};
use crate::task_state::{terminal_word, DelegationLifecycle, LifecycleSeen};
use crate::telemetry::{TelemetryErrorCode, TelemetryEventType};
use crate::text::{decimal, decimal_of, join, joined, opt_text, push_text, texts};
use vstd::prelude::*;

verus! {

/// The record shows that the worker is ready for its present task, and has been for no
/// longer than readiness lasts.
pub open spec fn fresh_readiness(item: StagedModel, l: DelegationLifecycle, now_ms: u64) -> bool {
    &&& l.ready_ms is Some
    &&& l.generation == item.generation
    &&& l.generation_started_ms == item.generation_started_ms
    &&& item.generation_started_ms <= l.ready_ms->0 <= now_ms
    &&& now_ms - l.ready_ms->0 <= READINESS_FRESHNESS_MS
}

/// Whether a worker is ready.
pub fn has_fresh_readiness(
    item: &StagedDelegation,
    lifecycle: Option<&DelegationLifecycle>,
    now_ms: u64,
) -> (r: bool)
    ensures
        r == (lifecycle matches Some(l) && fresh_readiness(item@, *l, now_ms)),
{
    match lifecycle {
        None => false,
        Some(l) => match l.ready_ms {
            None => false,
            Some(ready_ms) => l.generation == item.generation && l.generation_started_ms
                == item.generation_started_ms && ready_ms >= item.generation_started_ms && now_ms
                >= ready_ms && now_ms - ready_ms <= READINESS_FRESHNESS_MS,
        },
    }
}

/// The worker is ready by what a look at its record showed.
pub open spec fn is_ready(item: StagedModel, seen: LifecycleSeen, now_ms: u64) -> bool {
    match seen {
        LifecycleSeen::Found(l) => fresh_readiness(item, l, now_ms),
        _ => false,
    }
}

/// Why a worker cannot become ready any more; `index` counts from 0.
pub open spec fn ready_fault(item: StagedModel, seen: LifecycleSeen, index: int) -> Option<Seq<char>> {
    match seen {
        LifecycleSeen::Unresolved(m) => Some(m@),
        LifecycleSeen::Unreadable(m) => Some(m@),
        LifecycleSeen::Absent => None,
        LifecycleSeen::Found(l) => if l.generation != item.generation {
            Some(
                "worker "@ + decimal((index + 1) as nat) + " lifecycle generation changed from "@
                    + decimal(item.generation as nat) + " to "@ + decimal(l.generation as nat)
                    + " before dispatch"@,
            )
        } else {
            match l.terminal_state {
                Some(s) => Some(
                    "worker "@ + decimal((index + 1) as nat) + " entered terminal state "@
                        + terminal_word(s) + " before actual task dispatch"@,
                ),
                None => None,
            }
        },
    }
}

/// Why the first of some workers that cannot become ready cannot.
pub open spec fn poll_fault(items: Seq<StagedDelegation>, seen: Seq<LifecycleSeen>, from: int) -> Option<
    Seq<char>,
>
    decreases items.len() - from,
{
    if from < 0 || from >= items.len() {
        None
    } else if ready_fault(items[from]@, seen[from], from) is Some {
        ready_fault(items[from]@, seen[from], from)
    } else {
        poll_fault(items, seen, from + 1)
    }
}

/// The workers up to some place that are not ready.
pub open spec fn unready(
    items: Seq<StagedDelegation>,
    seen: Seq<LifecycleSeen>,
    now_ms: u64,
    upto: int,
) -> Seq<usize>
    decreases upto,
{
    if upto <= 0 {
        Seq::empty()
    } else {
        let before = unready(items, seen, now_ms, upto - 1);
        if is_ready(items[upto - 1]@, seen[upto - 1], now_ms) {
            before
        } else {
            before.push((upto - 1) as usize)
        }
    }
}

fn check_worker(item: &StagedDelegation, seen: &LifecycleSeen, index: usize) -> (r: Result<(), String>)
    requires
        index < usize::MAX,
    ensures
        match r {
            Ok(_) => ready_fault(item@, *seen, index as int) is None,
            Err(e) => ready_fault(item@, *seen, index as int) == Some(e@),
        },
{
    match seen {
        LifecycleSeen::Unresolved(m) => Err(m.clone()),
        LifecycleSeen::Unreadable(m) => Err(m.clone()),
        LifecycleSeen::Absent => Ok(()),
        LifecycleSeen::Found(l) => {
            let worker = "worker ".to_owned().concat(decimal_of((index + 1) as u64).as_str());
            if l.generation != item.generation {
                return Err(
                    worker.concat(" lifecycle generation changed from ").concat(
                        decimal_of(item.generation).as_str(),
                    ).concat(" to ").concat(decimal_of(l.generation).as_str()).concat(
                        " before dispatch",
                    ),
                );
            }
            match l.terminal_state {
                Some(s) => Err(
                    worker.concat(" entered terminal state ").concat(s.word()).concat(
                        " before actual task dispatch",
                    ),
                ),
                None => Ok(()),
            }
        },
    }
}

fn seen_is_ready(item: &StagedDelegation, seen: &LifecycleSeen, now_ms: u64) -> (r: bool)
    ensures
        r == is_ready(item@, *seen, now_ms),
{
    match seen {
        LifecycleSeen::Found(l) => has_fresh_readiness(item, Some(l), now_ms),
        _ => false,
    }
}

fn poll(items: &Vec<StagedDelegation>, seen: &Vec<LifecycleSeen>, now_ms: u64) -> (r: Result<
    Vec<usize>,
    String,
>)
    requires
        seen@.len() == items@.len(),
    ensures
        match r {
            Ok(v) => poll_fault(items@, seen@, 0) is None && v@ == unready(
                items@,
                seen@,
                now_ms,
                items@.len() as int,
            ),
            Err(e) => poll_fault(items@, seen@, 0) == Some(e@),
        },
{
    let mut pending: Vec<usize> = Vec::new();
    let mut i: usize = 0;
    while i < items.len()
        invariant
            i <= items@.len(),
            seen@.len() == items@.len(),
            poll_fault(items@, seen@, 0) == poll_fault(items@, seen@, i as int),
            pending@ == unready(items@, seen@, now_ms, i as int),
        decreases items@.len() - i,
    {
        if let Err(e) = check_worker(&items[i], &seen[i], i) {
            return Err(e);
        }
        if !seen_is_ready(&items[i], &seen[i], now_ms) {
            pending.push(i);
        }
        i += 1;
    }
    Ok(pending)
}

/// What the wait for readiness does next.
#[derive(Debug)]
pub enum ReadinessAction {
    /// Read the records of the workers.
    Poll,
    /// Look at the page of a worker.
    Probe(usize),
    /// Read the clock and decide.
    Decide,
    /// Send the readiness prompt to some workers once more.
    SendBootstraps(Vec<usize>),
    Sleep,
    /// Every worker is ready.
    Ready,
    /// Some workers did not become ready in time.
    TimedOut(String, Vec<usize>),
    Failed(String),
}

/// The mathematical value of a [`ReadinessAction`].
pub enum ReadinessModel {
    Poll,
    Probe(usize),
    Decide,
    SendBootstraps(Seq<usize>),
    Sleep,
    Ready,
    TimedOut(Seq<char>, Seq<usize>),
    Failed(Seq<char>),
}

impl View for ReadinessAction {
    type V = ReadinessModel;

    open spec fn view(&self) -> ReadinessModel {
        match *self {
            ReadinessAction::Poll => ReadinessModel::Poll,
            ReadinessAction::Probe(i) => ReadinessModel::Probe(i),
            ReadinessAction::Decide => ReadinessModel::Decide,
            ReadinessAction::SendBootstraps(v) => ReadinessModel::SendBootstraps(v@),
            ReadinessAction::Sleep => ReadinessModel::Sleep,
            ReadinessAction::Ready => ReadinessModel::Ready,
            ReadinessAction::TimedOut(m, v) => ReadinessModel::TimedOut(m@, v@),
            ReadinessAction::Failed(m) => ReadinessModel::Failed(m@),
        }
    }
}

/// The first worker from some place on whose page is to be looked at; a decision where
/// there is none.
pub open spec fn probe_or_decide(probes: ProbeSchedule, from: int, now_ms: u64) -> ReadinessModel
    decreases probes.next_ms@.len() - from,
{
    if from < 0 || from >= probes.next_ms@.len() {
        ReadinessModel::Decide
    } else if probes.is_due(from, now_ms) {
        ReadinessModel::Probe(from as usize)
    } else {
        probe_or_decide(probes, from + 1, now_ms)
    }
}

/// The numbers of some workers, as people count.
pub open spec fn numbers(v: Seq<usize>) -> Seq<Seq<char>> {
    v.map_values(|i: usize| decimal((i + 1) as nat))
}

fn worker_numbers(v: &Vec<usize>) -> (r: Vec<String>)
    requires
        forall|i: int| 0 <= i < v@.len() ==> #[trigger] v@[i] < usize::MAX,
    ensures
        texts(r@) == numbers(v@),
{
    let mut out: Vec<String> = Vec::new();
    let mut i: usize = 0;
    while i < v.len()
        invariant
            i <= v@.len(),
            forall|j: int| 0 <= j < v@.len() ==> #[trigger] v@[j] < usize::MAX,
            texts(out@) =~= numbers(v@.subrange(0, i as int)),
        decreases v@.len() - i,
    {
        assert(v@[i as int] < usize::MAX);
        push_text(&mut out, decimal_of((v[i] + 1) as u64).as_str());
        assert(numbers(v@.subrange(0, i + 1)) =~= numbers(v@.subrange(0, i as int)).push(
            decimal((v@[i as int] + 1) as nat),
        ));
        i += 1;
    }
    assert(v@.subrange(0, v@.len() as int) =~= v@);
    out
}

/// The failure of workers that did not become ready in time.
pub open spec fn timeout_text(timeout_ms: u64, pending: Seq<usize>) -> Seq<char> {
    "readiness timeout after "@ + decimal((timeout_ms / 1000) as nat)
        + "s; unready/stale worker(s): "@ + joined(numbers(pending), ", "@)
}

/// The wait for the readiness of some workers.
#[derive(Debug)]
pub struct ReadinessWatch {
    pub started_ms: u64,
    pub timeout_ms: u64,
    /// Whether the readiness prompt was sent once more.
    pub retried: bool,
    pub probes: ProbeSchedule,
    /// The workers that the last look at the records did not show ready.
    pub pending: Vec<usize>,
    /// When the records were last read.
    pub loop_ms: u64,
}

/// How sending the readiness prompt to a worker once more failed.
#[derive(Debug)]
pub struct RetryFailure {
    pub error: String,
    /// Whether the worker's page showed the end of the worker.
    pub terminal: bool,
}

/// What is said of a worker to which the prompt could not be sent once more.
pub open spec fn retry_text(index: usize, f: RetryFailure) -> Seq<char> {
    "worker "@ + decimal((index + 1) as nat) + ": "@ + f.error@ + "; retry observation left scope "@
        + (if f.terminal {
        "terminal from authoritative UI evidence"@
    } else {
        "browser-bound and nonterminal"@
    })
}

/// What is said of the first workers to which the prompt could not be sent once more.
pub open spec fn retry_texts(
    pending: Seq<usize>,
    outcomes: Seq<Option<RetryFailure>>,
    upto: int,
) -> Seq<Seq<char>>
    decreases upto,
{
    if upto <= 0 {
        Seq::empty()
    } else {
        let before = retry_texts(pending, outcomes, upto - 1);
        match outcomes[upto - 1] {
            Some(f) => before.push(retry_text(pending[upto - 1], f)),
            None => before,
        }
    }
}

impl ReadinessWatch {
    /// The watch is over this many workers.
    pub open spec fn wf(self, count: int) -> bool {
        &&& self.probes.covers(count)
        &&& count <= usize::MAX
        &&& self.started_ms + self.timeout_ms <= u64::MAX
        &&& forall|i: int| 0 <= i < self.pending@.len() ==> #[trigger] self.pending@[i] < count
    }

    /// Everything but the schedule of looks, the unready workers and the time of the last
    /// look is as before.
    pub open spec fn same_wait(self, before: ReadinessWatch) -> bool {
        &&& self.started_ms == before.started_ms
        &&& self.timeout_ms == before.timeout_ms
        &&& self.retried == before.retried
    }

    /// Starts to wait.
    pub fn new(count: usize, started_ms: u64, timeout_ms: u64) -> (r: Self)
        requires
            started_ms + timeout_ms <= u64::MAX,
        ensures
            r.wf(count as int),
            r.started_ms == started_ms,
            r.timeout_ms == timeout_ms,
            !r.retried,
            r.pending@.len() == 0,
            forall|i: int| 0 <= i < count ==> #[trigger] r.probes.is_due(i, started_ms),
    {
        let probes = ProbeSchedule::new(count, started_ms);
        assert forall|i: int| 0 <= i < count implies #[trigger] probes.is_due(i, started_ms) by {
            assert(probes.next_ms@[i] == started_ms);
        }
        ReadinessWatch {
            started_ms,
            timeout_ms,
            retried: false,
            probes,
            pending: Vec::new(),
            loop_ms: started_ms,
        }
    }

    fn probe_from(&self, from: usize) -> (r: ReadinessAction)
        requires
            from <= self.probes.next_ms@.len(),
            self.probes.next_ms@.len() == self.probes.disabled@.len(),
        ensures
            r@ == probe_or_decide(self.probes, from as int, self.loop_ms),
            r@ matches ReadinessModel::Probe(i) ==> i < self.probes.next_ms@.len(),
    {
        let mut i: usize = from;
        while i < self.probes.next_ms.len()
            invariant
                from <= i <= self.probes.next_ms@.len(),
                self.probes.next_ms@.len() == self.probes.disabled@.len(),
                probe_or_decide(self.probes, from as int, self.loop_ms) == probe_or_decide(
                    self.probes,
                    i as int,
                    self.loop_ms,
                ),
            decreases self.probes.next_ms@.len() - i,
        {
            if !self.probes.disabled[i] && self.probes.next_ms[i] <= self.loop_ms {
                return ReadinessAction::Probe(i);
            }
            i += 1;
        }
        ReadinessAction::Decide
    }

    /// Takes note of what a look at the records showed. The wait fails where a worker
    /// cannot become ready any more; otherwise the pages that are due are looked at.
    pub fn on_lifecycles(
        &mut self,
        items: &Vec<StagedDelegation>,
        seen: &Vec<LifecycleSeen>,
        epoch_ms: u64,
        loop_ms: u64,
    ) -> (r: ReadinessAction)
        requires
            old(self).wf(items@.len() as int),
            seen@.len() == items@.len(),
        ensures
            final(self).wf(items@.len() as int),
            final(self).same_wait(*old(self)),
            final(self).probes == old(self).probes,
            match poll_fault(items@, seen@, 0) {
                Some(m) => r@ == ReadinessModel::Failed(m),
                None => {
                    &&& final(self).pending@ == unready(
                        items@,
                        seen@,
                        epoch_ms,
                        items@.len() as int,
                    )
                    &&& final(self).loop_ms == loop_ms
                    &&& r@ == probe_or_decide(old(self).probes, 0, loop_ms)
                },
            },
    {
        match poll(items, seen, epoch_ms) {
            Err(e) => ReadinessAction::Failed(e),
            Ok(pending) => {
                proof {
                    assert forall|k: int| 0 <= k < pending@.len() implies #[trigger] pending@[k]
                        < items@.len() by {
                        lemma_unready_bound(items@, seen@, epoch_ms, items@.len() as int, k);
                    }
                }
                self.pending = pending;
                self.loop_ms = loop_ms;
                self.probe_from(0)
            },
        }
    }

    /// Takes note of what a look at a worker's page led to. The wait fails where the
    /// worker ended.
    pub fn on_probed(&mut self, index: usize, at_ms: u64, action: &Result<UiProbeAction, String>) -> (r:
        ReadinessAction)
        requires
            old(self).wf(old(self).probes.next_ms@.len() as int),
            index < old(self).probes.next_ms@.len(),
            at_ms + UI_PROBE_INTERVAL_MS <= u64::MAX,
        ensures
            final(self).wf(old(self).probes.next_ms@.len() as int),
            final(self).same_wait(*old(self)),
            final(self).pending@ == old(self).pending@,
            final(self).loop_ms == old(self).loop_ms,
            final(self).probes.next_ms@ == old(self).probes.next_ms@.update(
                index as int,
                (at_ms + UI_PROBE_INTERVAL_MS) as u64,
            ),
            final(self).probes.disabled@ == (if *action matches Ok(UiProbeAction::Disable) {
                old(self).probes.disabled@.update(index as int, true)
            } else {
                old(self).probes.disabled@
            }),
            r@ == (match *action {
                Err(e) => ReadinessModel::Failed(e@),
                Ok(UiProbeAction::Terminal(o)) => ReadinessModel::Failed(
                    "worker "@ + decimal((index + 1) as nat)
                        + " entered fail-fast terminal UI state "@ + terminal_word(o.state)
                        + " during readiness"@,
                ),
                _ => probe_or_decide(final(self).probes, index + 1, old(self).loop_ms),
            }),
    {
        self.probes.started(index, at_ms);
        match action {
            Err(e) => ReadinessAction::Failed(e.clone()),
            Ok(UiProbeAction::Terminal(o)) => ReadinessAction::Failed(
                "worker ".to_owned().concat(decimal_of((index + 1) as u64).as_str()).concat(
                    " entered fail-fast terminal UI state ",
                ).concat(o.state.word()).concat(" during readiness"),
            ),
            Ok(UiProbeAction::Disable) => {
                self.probes.disable(index);
                self.probe_from(index + 1)
            },
            Ok(UiProbeAction::Continue) => self.probe_from(index + 1),
        }
    }

    /// Decides once all pages that were due have been looked at: the workers are ready,
    /// or time is up, or the readiness prompt is sent to the unready ones once more, or
    /// the wait goes on.
    pub fn decide(&self, now_ms: u64) -> (r: ReadinessAction)
        requires
            self.wf(self.probes.next_ms@.len() as int),
            now_ms >= self.started_ms,
        ensures
            r@ == (if self.pending@.len() == 0 {
                ReadinessModel::Ready
            } else if now_ms >= self.started_ms + self.timeout_ms {
                ReadinessModel::TimedOut(timeout_text(self.timeout_ms, self.pending@), self.pending@)
            } else if !self.retried && now_ms - self.started_ms >= READINESS_RETRY_AFTER_MS {
                ReadinessModel::SendBootstraps(self.pending@)
            } else {
                ReadinessModel::Sleep
            }),
    {
        if self.pending.len() == 0 {
            return ReadinessAction::Ready;
        }
        if now_ms >= self.started_ms + self.timeout_ms {
            let message = "readiness timeout after ".to_owned().concat(
                decimal_of(self.timeout_ms / 1000).as_str(),
            ).concat("s; unready/stale worker(s): ").concat(
                join(&worker_numbers(&self.pending), ", ").as_str(),
            );
            return ReadinessAction::TimedOut(message, copy_numbers(&self.pending));
        }
        if !self.retried && now_ms - self.started_ms >= READINESS_RETRY_AFTER_MS {
            return ReadinessAction::SendBootstraps(copy_numbers(&self.pending));
        }
        ReadinessAction::Sleep
    }

    /// Takes note of how sending the readiness prompt once more went, for each unready
    /// worker in order.
    pub fn on_retried(&mut self, outcomes: &Vec<Option<RetryFailure>>) -> (r: ReadinessAction)
        requires
            old(self).wf(old(self).probes.next_ms@.len() as int),
            outcomes@.len() == old(self).pending@.len(),
        ensures
            final(self).wf(old(self).probes.next_ms@.len() as int),
            ({
                let failures = retry_texts(
                    old(self).pending@,
                    outcomes@,
                    outcomes@.len() as int,
                );
                if failures.len() == 0 {
                    &&& r@ is Poll
                    &&& *final(self) == (ReadinessWatch { retried: true, ..*old(self) })
                } else {
                    &&& r@ == ReadinessModel::Failed(
                        "one or more pending readiness bootstrap retries failed: "@ + joined(
                            failures,
                            "; "@,
                        ),
                    )
                    &&& *final(self) == *old(self)
                }
            }),
    {
        let mut failures: Vec<String> = Vec::new();
        let mut i: usize = 0;
        assert(texts(failures@) =~= Seq::<Seq<char>>::empty());
        while i < outcomes.len()
            invariant
                i <= outcomes@.len(),
                *self == *old(self),
                outcomes@.len() == self.pending@.len(),
                old(self).wf(old(self).probes.next_ms@.len() as int),
                texts(failures@) == retry_texts(self.pending@, outcomes@, i as int),
            decreases outcomes@.len() - i,
        {
            if let Some(f) = &outcomes[i] {
                let index: usize = self.pending[i];
                assert(self.pending@[i as int] < usize::MAX);
                let left = if f.terminal {
                    "terminal from authoritative UI evidence"
                } else {
                    "browser-bound and nonterminal"
                };
                let text = "worker ".to_owned().concat(
                    decimal_of((index + 1) as u64).as_str(),
                ).concat(": ").concat(f.error.as_str()).concat(
                    "; retry observation left scope ",
                ).concat(left);
                push_text(&mut failures, text.as_str());
            }
            i += 1;
        }
        assert(failures@.len() == texts(failures@).len());
        if failures.len() > 0 {
            return ReadinessAction::Failed(
                "one or more pending readiness bootstrap retries failed: ".to_owned().concat(
                    join(&failures, "; ").as_str(),
                ),
            );
        }
        self.retried = true;
        ReadinessAction::Poll
    }
}

fn copy_numbers(v: &Vec<usize>) -> (r: Vec<usize>)
    ensures
        r@ == v@,
{
    let mut out: Vec<usize> = Vec::new();
    let mut i: usize = 0;
    while i < v.len()
        invariant
            i <= v@.len(),
            out@ =~= v@.subrange(0, i as int),
        decreases v@.len() - i,
    {
        out.push(v[i]);
        i += 1;
    }
    assert(out@ =~= v@);
    out
}

proof fn lemma_unready_bound(
    items: Seq<StagedDelegation>,
    seen: Seq<LifecycleSeen>,
    now_ms: u64,
    upto: int,
    k: int,
)
    requires
        0 <= upto <= items.len(),
        upto <= usize::MAX,
        0 <= k < unready(items, seen, now_ms, upto).len(),
    ensures
        unready(items, seen, now_ms, upto)[k] < upto,
    decreases upto,
{
    if upto > 0 {
        let before = unready(items, seen, now_ms, upto - 1);
        if k < before.len() {
            lemma_unready_bound(items, seen, now_ms, upto - 1, k);
        }
    }
}

proof fn lemma_unready_empty(
    items: Seq<StagedDelegation>,
    seen: Seq<LifecycleSeen>,
    now_ms: u64,
    upto: int,
)
    requires
        0 <= upto <= items.len(),
        unready(items, seen, now_ms, upto).len() == 0,
    ensures
        forall|i: int|
            0 <= i < upto ==> is_ready((#[trigger] items[i])@, seen[i], now_ms),
    decreases upto,
{
    if upto > 0 {
        lemma_unready_empty(items, seen, now_ms, upto - 1);
    }
}

/// The wait ends well only where every worker's record shows it ready for its present
/// task: with one unready worker the batch is not ready.
pub proof fn lemma_ready_means_all_ready(
    watch: ReadinessWatch,
    items: Seq<StagedDelegation>,
    seen: Seq<LifecycleSeen>,
    epoch_ms: u64,
)
    requires
        watch.pending@ == unready(items, seen, epoch_ms, items.len() as int),
        watch.pending@.len() == 0,
    ensures
        forall|i: int|
            0 <= i < items.len() ==> is_ready((#[trigger] items[i])@, seen[i], epoch_ms),
{
    lemma_unready_empty(items, seen, epoch_ms, items.len() as int);
}

/// A page and the prompt that is sent to it.
#[derive(Debug)]
pub struct PlannedPrompt {
    pub page: String,
    pub prompt: String,
}

/// What comes of planning to send the tasks.
pub enum Plan {
    /// Every task is sent: the pages with their prompts.
    Send(Seq<(Seq<char>, Seq<char>)>),
    /// A worker is not ready, so no task is sent.
    Hold,
    Failed(Seq<char>),
}

/// A worker may get its task: its record is of its present task, has no end, and shows
/// it ready.
pub open spec fn may_get_task(item: StagedModel, seen: LifecycleSeen, now_ms: u64) -> bool {
    match seen {
        LifecycleSeen::Found(l) => {
            &&& l.generation == item.generation
            &&& l.terminal_state is None
            &&& fresh_readiness(item, l, now_ms)
        },
        _ => false,
    }
}

/// Tasks are sent to all workers or to none.
pub open spec fn dispatch_plan(
    items: Seq<StagedDelegation>,
    seen: Seq<LifecycleSeen>,
    now_ms: u64,
    from: int,
) -> Plan
    decreases items.len() - from,
{
    if from < 0 || from >= items.len() {
        Plan::Send(Seq::empty())
    } else {
        let item = items[from]@;
        match seen[from] {
            LifecycleSeen::Unresolved(m) => Plan::Failed(m@),
            LifecycleSeen::Unreadable(m) => Plan::Failed(m@),
            _ => if !may_get_task(item, seen[from], now_ms) {
                Plan::Hold
            } else if item.browser_page_id is None {
                Plan::Failed("staged live worker has no browser_page_id"@)
            } else if item.task_prompt is None {
                Plan::Failed("staged live worker has no actual task prompt"@)
            } else {
                match dispatch_plan(items, seen, now_ms, from + 1) {
                    Plan::Send(rest) => Plan::Send(
                        seq![(item.browser_page_id->0, item.task_prompt->0)] + rest,
                    ),
                    other => other,
                }
            },
        }
    }
}

pub open spec fn planned(v: Seq<PlannedPrompt>) -> Seq<(Seq<char>, Seq<char>)> {
    v.map_values(|p: PlannedPrompt| (p.page@, p.prompt@))
}

/// The plan behind a first part that is fixed.
pub open spec fn plan_behind(head: Seq<(Seq<char>, Seq<char>)>, rest: Plan) -> Plan {
    match rest {
        Plan::Send(tail) => Plan::Send(head + tail),
        other => other,
    }
}

/// The tasks that are sent: those of all workers, or none where a worker is not ready.
pub fn actual_dispatch_plan(items: &Vec<StagedDelegation>, seen: &Vec<LifecycleSeen>, now_ms: u64)
    -> (r: Result<Vec<PlannedPrompt>, String>)
    requires
        seen@.len() == items@.len(),
    ensures
        match dispatch_plan(items@, seen@, now_ms, 0) {
            Plan::Send(v) => r is Ok && planned(r->Ok_0@) == v,
            Plan::Hold => r is Ok && r->Ok_0@.len() == 0,
            Plan::Failed(m) => r is Err && r->Err_0@ == m,
        },
{
    let mut plan: Vec<PlannedPrompt> = Vec::new();
    let mut i: usize = 0;
    proof {
        let whole = dispatch_plan(items@, seen@, now_ms, 0);
        assert(planned(plan@) =~= Seq::empty());
        if let Plan::Send(v) = whole {
            assert(Seq::<(Seq<char>, Seq<char>)>::empty() + v =~= v);
        }
    }
    while i < items.len()
        invariant
            i <= items@.len(),
            seen@.len() == items@.len(),
            dispatch_plan(items@, seen@, now_ms, 0) == plan_behind(
                planned(plan@),
                dispatch_plan(items@, seen@, now_ms, i as int),
            ),
        decreases items@.len() - i,
    {
        let item = &items[i];
        let ready = match &seen[i] {
            LifecycleSeen::Unresolved(m) => {
                return Err(m.clone());
            },
            LifecycleSeen::Unreadable(m) => {
                return Err(m.clone());
            },
            LifecycleSeen::Absent => false,
            LifecycleSeen::Found(l) => l.generation == item.generation && l.terminal_state.is_none()
                && has_fresh_readiness(item, Some(l), now_ms),
        };
        if !ready {
            return Ok(Vec::new());
        }
        let page = match &item.browser_page_id {
            Some(p) => p.clone(),
            None => {
                return Err("staged live worker has no browser_page_id".to_owned());
            },
        };
        let prompt = match &item.task_prompt {
            Some(p) => p.clone(),
            None => {
                return Err("staged live worker has no actual task prompt".to_owned());
            },
        };
        let ghost before = planned(plan@);
        let ghost pair = (page@, prompt@);
        plan.push(PlannedPrompt { page, prompt });
        proof {
            assert(planned(plan@) =~= before + seq![pair]);
            if let Plan::Send(rest) = dispatch_plan(items@, seen@, now_ms, i + 1) {
                assert(before + (seq![pair] + rest) =~= (before + seq![pair]) + rest);
            }
        }
        i += 1;
    }
    proof {
        assert(planned(plan@) + Seq::<(Seq<char>, Seq<char>)>::empty() =~= planned(plan@));
    }
    Ok(plan)
}

pub const READINESS_GATE: &'static str =
    "all-worker readiness gate was not satisfied immediately before actual dispatch";

/// Tasks are sent to every worker of a batch or to none, and to every one only where
/// every one may get its task.
pub proof fn lemma_all_or_none(
    items: Seq<StagedDelegation>,
    seen: Seq<LifecycleSeen>,
    now_ms: u64,
    from: int,
)
    requires
        0 <= from <= items.len(),
    ensures
        dispatch_plan(items, seen, now_ms, from) matches Plan::Send(v) ==> {
            &&& v.len() == items.len() - from
            &&& forall|i: int|
                from <= i < items.len() ==> may_get_task((#[trigger] items[i])@, seen[i], now_ms)
                    && v[i - from] == (
                    items[i]@.browser_page_id->0,
                    items[i]@.task_prompt->0,
                )
        },
    decreases items.len() - from,
{
    if from < items.len() {
        lemma_all_or_none(items, seen, now_ms, from + 1);
        if let Plan::Send(v) = dispatch_plan(items, seen, now_ms, from) {
            let rest = dispatch_plan(items, seen, now_ms, from + 1)->Send_0;
            assert(v =~= seq![v[0]] + rest);
            assert forall|i: int| from <= i < items.len() implies may_get_task(
                (#[trigger] items[i])@,
                seen[i],
                now_ms,
            ) && v[i - from] == (items[i]@.browser_page_id->0, items[i]@.task_prompt->0) by {
                if i > from {
                    assert(v[i - from] == rest[i - from - 1]);
                }
            }
        }
    }
}

/// One unready worker means that no worker of the batch gets its task.
pub proof fn lemma_one_unready_holds_all(
    items: Seq<StagedDelegation>,
    seen: Seq<LifecycleSeen>,
    now_ms: u64,
    index: int,
)
    requires
        0 <= index < items.len(),
        !may_get_task(items[index]@, seen[index], now_ms),
    ensures
        !(dispatch_plan(items, seen, now_ms, 0) is Send),
{
    lemma_all_or_none(items, seen, now_ms, 0);
    assert(items[index] == items[index]);
}

/// Which of some sends worked.
pub fn sent_flags(results: &Vec<Result<(), String>>) -> (r: Vec<bool>)
    ensures
        r@.len() == results@.len(),
        forall|i: int| 0 <= i < r@.len() ==> #[trigger] r@[i] == (results@[i] is Ok),
{
    let mut out: Vec<bool> = Vec::new();
    let mut i: usize = 0;
    while i < results.len()
        invariant
            i <= results@.len(),
            out@.len() == i,
            forall|j: int| 0 <= j < i ==> #[trigger] out@[j] == (results@[j] is Ok),
        decreases results@.len() - i,
    {
        out.push(results[i].is_ok());
        i += 1;
    }
    out
}

/// What sending the readiness prompt to a worker led to.
#[derive(Debug)]
pub struct BootstrapReport {
    /// What is said of the worker if something went wrong.
    pub failure: Option<String>,
    pub note: Option<TelemetryNote>,
}

/// What is said of a worker whose reservation could not be turned into a dispatch.
pub open spec fn commit_text(index: int, error: Seq<char>, scope_id: Seq<char>) -> Seq<char> {
    "worker "@ + decimal((index + 1) as nat)
        + " account reservation commit failed after Web dispatch: "@ + error
        + "; browser-bound scope "@ + scope_id
        + " was preserved nonterminal because bootstrap delivery already succeeded"@
}

/// What is said of a worker to which the readiness prompt could not be sent.
pub open spec fn bootstrap_text(index: int, error: Seq<char>, scope_id: Seq<char>, terminal: bool) -> Seq<
    char,
> {
    "worker "@ + decimal((index + 1) as nat) + ": "@ + error + "; browser-bound scope "@ + scope_id
        + " was "@ + (if terminal {
        "left with authoritative terminal lifecycle evidence"@
    } else {
        "preserved nonterminal because bootstrap delivery is ambiguous"@
    })
}

/// Sending the readiness prompt worked, or whether it did is unclear: the reservation of
/// the worker's account has become a dispatch. Where the page showed the worker's end,
/// the reservation is given back.
pub open spec fn bootstrap_settled(
    item: StagedDelegation,
    index: int,
    sent: Result<(), String>,
    terminal: bool,
    config: AccountsConfig,
    now_ms: u64,
    before: AccountRouter,
    after: AccountRouter,
    r: BootstrapReport,
) -> bool {
    let reserved = item.routed && item.route_reservation is Some;
    &&& after.same_but_store(before)
    &&& !reserved ==> after.store == before.store
    &&& match sent {
        Ok(_) => if reserved {
            exists|c: Result<(), RouterError>|
                {
                    &&& #[trigger] commit_outcome(
                        config,
                        item.route_reservation->0,
                        now_ms,
                        before.store,
                        after.store,
                        c,
                    )
                    &&& match c {
                        Ok(_) => r.failure is None && r.note == Some(
                            plain_note(
                                TelemetryEventType::Dispatched,
                                TelemetryErrorCode::Dispatched,
                            ),
                        ),
                        Err(e) => r.note is None && opt_text(r.failure) == Some(
                            commit_text(index, e.text(""@), item.scope_id@),
                        ),
                    }
                }
        } else {
            r.failure is None && r.note == Some(
                plain_note(TelemetryEventType::Dispatched, TelemetryErrorCode::Dispatched),
            )
        },
        Err(m) => {
            &&& r.note == Some(
                plain_note(
                    TelemetryEventType::ReadinessBootstrapFailed,
                    TelemetryErrorCode::BootstrapFailed,
                ),
            )
            &&& opt_text(r.failure) == Some(bootstrap_text(index, m@, item.scope_id@, terminal))
            &&& reserved && terminal ==> exists|c: Result<(), RouterError>| #[trigger]
                release_outcome(
                    config,
                    item.route_reservation->0,
                    now_ms,
                    before.store,
                    after.store,
                    c,
                )
            &&& reserved && !terminal ==> exists|c: Result<(), RouterError>| #[trigger]
                commit_outcome(
                    config,
                    item.route_reservation->0,
                    now_ms,
                    before.store,
                    after.store,
                    c,
                )
        },
    }
}

/// What sending the readiness prompt to a worker comes to. `booked` says whether the
/// reservation of the worker's account could become a dispatch.
pub open spec fn bootstrap_reported(
    item: StagedDelegation,
    index: int,
    sent: Result<(), String>,
    terminal: bool,
    booked: Result<(), Seq<char>>,
    r: BootstrapReport,
) -> bool {
    match sent {
        Ok(_) => match booked {
            Ok(_) => r.failure is None && r.note == Some(
                plain_note(TelemetryEventType::Dispatched, TelemetryErrorCode::Dispatched),
            ),
            Err(e) => r.note is None && opt_text(r.failure) == Some(
                commit_text(index, e, item.scope_id@),
            ),
        },
        Err(m) => {
            &&& r.note == Some(
                plain_note(
                    TelemetryEventType::ReadinessBootstrapFailed,
                    TelemetryErrorCode::BootstrapFailed,
                ),
            )
            &&& opt_text(r.failure) == Some(bootstrap_text(index, m@, item.scope_id@, terminal))
        },
    }
}

/// What sending the readiness prompt to a worker comes to. `terminal` says whether, after a
/// failure, its page showed the worker's end; `booked` says whether the reservation of the
/// worker's account could become a dispatch.
pub fn bootstrap_report(
    item: &StagedDelegation,
    index: usize,
    sent: &Result<(), String>,
    terminal: bool,
    booked: &Result<(), String>,
) -> (r: BootstrapReport)
    requires
        index < usize::MAX,
    ensures
        bootstrap_reported(
            *item,
            index as int,
            *sent,
            terminal,
            match *booked {
                Ok(_) => Ok(()),
                Err(e) => Err(e@),
            },
            r,
        ),
{
    let number = decimal_of((index + 1) as u64);
    match sent {
        Ok(_) => match booked {
            Ok(_) => BootstrapReport {
                failure: None,
                note: Some(
                    TelemetryNote {
                        event_type: TelemetryEventType::Dispatched,
                        reset_after_seconds: None,
                        error_code: TelemetryErrorCode::Dispatched,
                    },
                ),
            },
            Err(e) => {
                let text = "worker ".to_owned().concat(number.as_str()).concat(
                    " account reservation commit failed after Web dispatch: ",
                ).concat(e.as_str()).concat("; browser-bound scope ").concat(
                    item.scope_id.as_str(),
                ).concat(" was preserved nonterminal because bootstrap delivery already succeeded");
                BootstrapReport { failure: Some(text), note: None }
            },
        },
        Err(m) => {
            let left = if terminal {
                "left with authoritative terminal lifecycle evidence"
            } else {
                "preserved nonterminal because bootstrap delivery is ambiguous"
            };
            let text = "worker ".to_owned().concat(number.as_str()).concat(": ").concat(
                m.as_str(),
            ).concat("; browser-bound scope ").concat(item.scope_id.as_str()).concat(" was ").concat(
                left,
            );
            BootstrapReport {
                failure: Some(text),
                note: Some(
                    TelemetryNote {
                        event_type: TelemetryEventType::ReadinessBootstrapFailed,
                        reset_after_seconds: None,
                        error_code: TelemetryErrorCode::BootstrapFailed,
                    },
                ),
            }
        },
    }
}

/// Draws the consequences of sending the readiness prompt to a worker; `terminal` says
/// whether, after a failure, its page showed the worker's end.
pub fn settle_bootstrap(
    router: &mut AccountRouter,
    config: &AccountsConfig,
    item: &StagedDelegation,
    index: usize,
    sent: &Result<(), String>,
    terminal: bool,
    now_ms: u64,
) -> (r: BootstrapReport)
    requires
        index < usize::MAX,
    ensures
        bootstrap_settled(
            *item,
            index as int,
            *sent,
            terminal,
            *config,
            now_ms,
            *old(router),
            *final(router),
            r,
        ),
{
    let mut booked: Result<(), String> = Ok(());
    if item.routed {
        if let Some(reservation) = &item.route_reservation {
            if sent.is_err() && terminal {
                let c = router.release(config, reservation, now_ms);
                assert(release_outcome(
                    *config,
                    item.route_reservation->0,
                    now_ms,
                    old(router).store,
                    router.store,
                    c,
                ));
            } else {
                let c = router.commit(config, reservation, now_ms);
                let ghost done = c;
                assert(commit_outcome(
                    *config,
                    item.route_reservation->0,
                    now_ms,
                    old(router).store,
                    router.store,
                    done,
                ));
                if let Err(e) = c {
                    booked = Err(e.message(""));
                }
            }
        }
    }
    bootstrap_report(item, index, sent, terminal, &booked)
}

/// What is said of the workers where something went wrong.
pub open spec fn failures_of(reports: Seq<BootstrapReport>) -> Seq<Seq<char>>
    decreases reports.len(),
{
    if reports.len() == 0 {
        Seq::empty()
    } else {
        let before = failures_of(reports.drop_last());
        match opt_text(reports.last().failure) {
            Some(t) => before.push(t),
            None => before,
        }
    }
}

/// Whether the readiness prompt was sent to all workers, from what it led to for each.
pub fn bootstrap_outcome(reports: &Vec<BootstrapReport>) -> (r: Result<(), String>)
    ensures
        ({
            let failures = failures_of(reports@);
            match r {
                Ok(_) => failures.len() == 0,
                Err(e) => failures.len() > 0 && e@
                    == "one or more ChatGPT Web readiness bootstraps failed: "@ + joined(
                    failures,
                    "; "@,
                ),
            }
        }),
{
    let mut failures: Vec<String> = Vec::new();
    let mut i: usize = 0;
    assert(texts(failures@) =~= Seq::<Seq<char>>::empty());
    while i < reports.len()
        invariant
            i <= reports@.len(),
            texts(failures@) == failures_of(reports@.subrange(0, i as int)),
        decreases reports@.len() - i,
    {
        proof {
            let next = reports@.subrange(0, i + 1);
            assert(next.drop_last() =~= reports@.subrange(0, i as int));
        }
        if let Some(t) = &reports[i].failure {
            push_text(&mut failures, t.as_str());
        }
        i += 1;
    }
    assert(reports@.subrange(0, reports@.len() as int) =~= reports@);
    assert(failures@.len() == texts(failures@).len());
    if failures.len() == 0 {
        Ok(())
    } else {
        Err(
            "one or more ChatGPT Web readiness bootstraps failed: ".to_owned().concat(
                join(&failures, "; ").as_str(),
            ),
        )
    }
}

} // verus!
