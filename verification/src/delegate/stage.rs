//! Getting workers ready for their tasks: fresh ones, and one that is kept from an
//! earlier task.
use crate::delegate::control::SPAWN_STAGGER_SECS;
use crate::delegate::input::{PreparedModel, PreparedTask};
use crate::delegate::observe::owned;
use crate::delegate::prompts::{bootstrap_prompt, build_bootstrap_prompt, build_delegation_prompt,
    delegation_prompt, has_title};
use crate::delegate::report::{StagedDelegation, StagedModel};
use crate::delegate::sessions::{item_route, route_of, PageRoute, RouteModel};
use crate::error::Failure;
use crate::outside::is_hyphenated;
use crate::router::RouteReservation;
use crate::security::workspace::{copy_binding, new_scope, opt_binding, BindingModel, BrowserBinding,
    PathState, ScopeModel, WorkspaceMux, WorkspaceScope};
use crate::task_state::DelegationLifecycle;
use crate::text::{copy_opt, opt_text};
use vstd::prelude::*;

verus! {

/// The worker of a scope, with the prompts for its task.
pub open spec fn staged_worker(
    scope: ScopeModel,
    page: Option<Seq<char>>,
    label: Option<Seq<char>>,
    task: Seq<char>,
    l: DelegationLifecycle,
    resumed: bool,
    routed: bool,
) -> StagedModel {
    StagedModel {
        scope_id: scope.scope_id,
        workspace: scope.workspace,
        label,
        browser_page_id: page,
        browser_binding: scope.browser,
        pooled: false,
        account_id: scope.account(),
        browser_instance: scope.instance(),
        routed,
        route_reservation: None,
        generation: l.generation,
        generation_started_ms: l.generation_started_ms,
        resumed,
        bootstrap_prompt: Some(
            bootstrap_prompt(
                scope.scope_id,
                scope.workspace,
                l.generation,
                resumed,
                label,
                task,
            ),
        ),
        task_prompt: Some(
            delegation_prompt(scope.scope_id, scope.workspace, l.generation, resumed, task),
        ),
    }
}

/// The worker of a scope, with the prompts for its task.
pub fn build_staged_delegation(
    scope: &WorkspaceScope,
    page: Option<String>,
    label: &Option<String>,
    task: &str,
    lifecycle: &DelegationLifecycle,
    resumed: bool,
    routed: bool,
) -> (r: StagedDelegation)
    requires
        has_title(task@),
    ensures
        r@ == staged_worker(
            scope@,
            opt_text(page),
            opt_text(*label),
            task@,
            *lifecycle,
            resumed,
            routed,
        ),
{
    StagedDelegation {
        scope_id: scope.scope_id.clone(),
        workspace: scope.workspace.clone(),
        label: copy_opt(label),
        browser_page_id: page,
        browser_binding: copy_binding(&scope.browser),
        pooled: false,
        account_id: scope.account_id().to_owned(),
        browser_instance: owned(scope.browser_instance()),
        routed,
        route_reservation: None,
        generation: lifecycle.generation,
        generation_started_ms: lifecycle.generation_started_ms,
        resumed,
        bootstrap_prompt: Some(
            build_bootstrap_prompt(
                scope.scope_id.as_str(),
                scope.workspace.as_str(),
                lifecycle.generation,
                resumed,
                label,
                task,
            ),
        ),
        task_prompt: Some(
            build_delegation_prompt(
                scope.scope_id.as_str(),
                scope.workspace.as_str(),
                lifecycle.generation,
                resumed,
                task,
            ),
        ),
    }
}

/// The worker of a scope that cannot take its follow-up task.
pub open spec fn ended_worker(scope: ScopeModel, task: Seq<char>, l: DelegationLifecycle) -> StagedModel {
    StagedModel {
        scope_id: scope.scope_id,
        workspace: scope.workspace,
        label: None,
        browser_page_id: scope.browser_page_id,
        browser_binding: scope.browser,
        pooled: false,
        account_id: scope.account(),
        browser_instance: scope.instance(),
        routed: false,
        route_reservation: None,
        generation: l.generation,
        generation_started_ms: l.generation_started_ms,
        resumed: true,
        bootstrap_prompt: None,
        task_prompt: Some(task),
    }
}

/// The worker of a scope that cannot take its follow-up task.
pub fn staged_from_existing_terminal(
    scope: &WorkspaceScope,
    task: &str,
    lifecycle: &DelegationLifecycle,
) -> (r: StagedDelegation)
    ensures
        r@ == ended_worker(scope@, task@, *lifecycle),
{
    StagedDelegation {
        scope_id: scope.scope_id.clone(),
        workspace: scope.workspace.clone(),
        label: None,
        browser_page_id: copy_opt(&scope.browser_page_id),
        browser_binding: copy_binding(&scope.browser),
        pooled: false,
        account_id: scope.account_id().to_owned(),
        browser_instance: owned(scope.browser_instance()),
        routed: false,
        route_reservation: None,
        generation: lifecycle.generation,
        generation_started_ms: lifecycle.generation_started_ms,
        resumed: true,
        bootstrap_prompt: None,
        task_prompt: Some(task.to_owned()),
    }
}

/// The worker of a rehearsed task.
pub open spec fn rehearsed_worker(scope: ScopeModel, label: Option<Seq<char>>) -> StagedModel {
    StagedModel {
        scope_id: scope.scope_id,
        workspace: scope.workspace,
        label,
        browser_page_id: None,
        browser_binding: None,
        pooled: false,
        account_id: scope.account(),
        browser_instance: scope.instance(),
        routed: false,
        route_reservation: None,
        generation: 0,
        generation_started_ms: scope.created_ms,
        resumed: false,
        bootstrap_prompt: None,
        task_prompt: None,
    }
}

/// Rehearsing tasks one after the other registers a scope under a fresh id for each, up
/// to the first whose workspace is refused.
pub open spec fn rehearsal(
    tasks: Seq<PreparedTask>,
    places: Seq<PathState>,
    from: int,
    now_ms: u64,
    before: WorkspaceMux,
    after: WorkspaceMux,
    r: Result<Seq<StagedModel>, Seq<char>>,
) -> bool
    decreases tasks.len() - from,
{
    if from < 0 || from >= tasks.len() {
        after == before && r == Ok::<Seq<StagedModel>, Seq<char>>(Seq::empty())
    } else {
        match before.refusal(places[from]) {
            Some(f) => after == before && r == Err::<Seq<StagedModel>, Seq<char>>(f.text()),
            None => exists|mid: WorkspaceMux, scope: ScopeModel|
                {
                    &&& #[trigger] mid.stored(before, scope, places[from])
                    &&& is_hyphenated(scope.scope_id)
                    &&& scope == new_scope(
                        scope.scope_id,
                        places[from]->Directory_0@,
                        None,
                        None,
                        now_ms,
                    )
                    &&& match r {
                        Err(m) => rehearsal(tasks, places, from + 1, now_ms, mid, after, r),
                        Ok(v) => {
                            &&& v.len() > 0
                            &&& v[0] == rehearsed_worker(scope, opt_text(tasks[from].label))
                            &&& rehearsal(
                                tasks,
                                places,
                                from + 1,
                                now_ms,
                                mid,
                                after,
                                Ok(v.drop_first()),
                            )
                        },
                    }
                },
        }
    }
}

pub open spec fn staged_models(v: Seq<StagedDelegation>) -> Seq<StagedModel> {
    v.map_values(|d: StagedDelegation| d@)
}

pub open spec fn rehearsal_result(r: Result<Vec<StagedDelegation>, String>) -> Result<
    Seq<StagedModel>,
    Seq<char>,
> {
    match r {
        Ok(v) => Ok(staged_models(v@)),
        Err(e) => Err(e@),
    }
}

fn rehearse_from(
    mux: &mut WorkspaceMux,
    tasks: &Vec<PreparedTask>,
    places: &Vec<PathState>,
    from: usize,
    now_ms: u64,
) -> (r: Result<Vec<StagedDelegation>, String>)
    requires
        from <= tasks@.len(),
        places@.len() == tasks@.len(),
    ensures
        rehearsal(
            tasks@,
            places@,
            from as int,
            now_ms,
            *old(mux),
            *final(mux),
            rehearsal_result(r),
        ),
    decreases tasks@.len() - from,
{
    if from == tasks.len() {
        let out: Vec<StagedDelegation> = Vec::new();
        assert(staged_models(out@) =~= Seq::empty());
        return Ok(out);
    }
    let scope = match mux.register(places[from].copy(), None, now_ms) {
        Ok(s) => s,
        Err(e) => {
            return Err(e.message());
        },
    };
    let ghost mid = *mux;
    assert(mid.stored(*old(mux), scope@, places@[from as int]));
    let item = StagedDelegation {
        scope_id: scope.scope_id.clone(),
        workspace: scope.workspace.clone(),
        label: copy_opt(&tasks[from].label),
        browser_page_id: None,
        browser_binding: None,
        pooled: false,
        account_id: scope.account_id().to_owned(),
        browser_instance: owned(scope.browser_instance()),
        routed: false,
        route_reservation: None,
        generation: 0,
        generation_started_ms: scope.created_ms,
        resumed: false,
        bootstrap_prompt: None,
        task_prompt: None,
    };
    let ghost first = item@;
    assert(first == rehearsed_worker(scope@, opt_text(tasks@[from as int].label)));
    match rehearse_from(mux, tasks, places, from + 1, now_ms) {
        Err(e) => Err(e),
        Ok(mut rest) => {
            let ghost tail = staged_models(rest@);
            rest.insert(0, item);
            assert(staged_models(rest@).drop_first() =~= tail);
            assert(staged_models(rest@)[0] == first);
            Ok(rest)
        },
    }
}

/// Registers a scope for each task without handing any to a worker. `places` says what
/// stands at the workspaces of the tasks.
pub fn stage_dry_run(
    mux: &mut WorkspaceMux,
    tasks: &Vec<PreparedTask>,
    places: &Vec<PathState>,
    now_ms: u64,
) -> (r: Result<Vec<StagedDelegation>, String>)
    requires
        places@.len() == tasks@.len(),
    ensures
        rehearsal(tasks@, places@, 0, now_ms, *old(mux), *final(mux), rehearsal_result(r)),
{
    rehearse_from(mux, tasks, places, 0, now_ms)
}

/// Whether every task of a request has its claim.
pub fn check_claim_count(claims: usize, tasks: usize) -> (r: Result<(), String>)
    ensures
        r is Ok <==> claims == tasks,
        r is Err ==> r->Err_0@
            == "fresh dispatch domain claim count does not match task count"@,
{
    if claims == tasks {
        Ok(())
    } else {
        Err("fresh dispatch domain claim count does not match task count".to_owned())
    }
}

/// The pause, in seconds, before a worker is started.
pub fn stagger_before(index: usize) -> (r: Option<u64>)
    ensures
        r == (if index > 0 {
            Some(SPAWN_STAGGER_SECS)
        } else {
            None
        }),
{
    if index > 0 {
        Some(SPAWN_STAGGER_SECS)
    } else {
        None
    }
}

/// What is known so far while a fresh worker is being staged.
#[derive(Debug)]
pub struct StageSeen {
    /// Opening a page for the worker.
    pub page: Option<Result<BrowserBinding, String>>,
    /// Registering a scope for the worker.
    pub scope: Option<Result<WorkspaceScope, String>>,
    /// Noting the scope in the claim on the work.
    pub claimed: Option<Result<(), String>>,
    pub locked: Option<Result<(), String>>,
    pub resolved: Option<Result<(), String>>,
    /// Starting the record of the delegation.
    pub lifecycle: Option<Result<DelegationLifecycle, String>>,
    /// Binding the account's reservation to the scope.
    pub bound: Option<Result<(), String>>,
}

/// A staged worker that has to be undone.
#[derive(Debug)]
pub struct CleanupItem {
    pub scope_id: String,
    pub route: PageRoute,
}

/// What has to be undone when a worker cannot be staged: the record, the page and the
/// scope of this worker, as far as there are any, then the reservations of the whole
/// request, then the records, pages and scopes of the workers before it.
#[derive(Debug)]
pub struct StageCleanup {
    pub failure: Failure,
    pub lifecycle: Option<String>,
    pub page: Option<BrowserBinding>,
    pub scope: Option<String>,
    pub staged: Vec<CleanupItem>,
}

/// The mathematical value of a [`StageCleanup`].
pub struct CleanupModel {
    pub failure: Seq<Seq<char>>,
    pub lifecycle: Option<Seq<char>>,
    pub page: Option<BindingModel>,
    pub scope: Option<Seq<char>>,
    pub staged: Seq<(Seq<char>, RouteModel)>,
}

impl View for StageCleanup {
    type V = CleanupModel;

    open spec fn view(&self) -> CleanupModel {
        CleanupModel {
            failure: self.failure@,
            lifecycle: opt_text(self.lifecycle),
            page: opt_binding(self.page),
            scope: opt_text(self.scope),
            staged: self.staged@.map_values(|c: CleanupItem| (c.scope_id@, c.route@)),
        }
    }
}

/// What is done next to stage a fresh worker.
#[derive(Debug)]
pub enum StageStep {
    CreatePage,
    RegisterScope(BrowserBinding),
    ClaimScope(String),
    LockScope(String),
    ResolveScope(String),
    StartLifecycle(String),
    BindReservation(String),
    Staged(StagedDelegation),
    Abort(StageCleanup),
}

/// The mathematical value of a [`StageStep`].
pub enum StageModel {
    CreatePage,
    RegisterScope(BindingModel),
    ClaimScope(Seq<char>),
    LockScope(Seq<char>),
    ResolveScope(Seq<char>),
    StartLifecycle(Seq<char>),
    BindReservation(Seq<char>),
    Staged(StagedModel),
    Abort(CleanupModel),
}

impl View for StageStep {
    type V = StageModel;

    open spec fn view(&self) -> StageModel {
        match *self {
            StageStep::CreatePage => StageModel::CreatePage,
            StageStep::RegisterScope(b) => StageModel::RegisterScope(b@),
            StageStep::ClaimScope(s) => StageModel::ClaimScope(s@),
            StageStep::LockScope(s) => StageModel::LockScope(s@),
            StageStep::ResolveScope(s) => StageModel::ResolveScope(s@),
            StageStep::StartLifecycle(s) => StageModel::StartLifecycle(s@),
            StageStep::BindReservation(s) => StageModel::BindReservation(s@),
            StageStep::Staged(d) => StageModel::Staged(d@),
            StageStep::Abort(c) => StageModel::Abort(c@),
        }
    }
}

/// The workers of a request that were staged before.
pub open spec fn staged_before(staged: Seq<StagedDelegation>) -> Seq<(Seq<char>, RouteModel)> {
    staged.map_values(|d: StagedDelegation| (d.scope_id@, route_of(d@)))
}

/// Undoing what was done for a worker, with the reason.
pub open spec fn undo(
    staged: Seq<StagedDelegation>,
    failure: Seq<Seq<char>>,
    page: Option<BindingModel>,
    scope: Option<Seq<char>>,
    lifecycle: Option<Seq<char>>,
) -> StageModel {
    StageModel::Abort(
        CleanupModel { failure, lifecycle, page, scope, staged: staged_before(staged) },
    )
}

/// A staged fresh worker: it is reached through the browsers of the accounts and holds
/// the reservation of its account.
pub open spec fn fresh_worker(
    scope: ScopeModel,
    binding: BindingModel,
    task: PreparedModel,
    l: DelegationLifecycle,
    reservation: RouteReservation,
) -> StagedModel {
    StagedModel {
        browser_binding: Some(binding),
        pooled: true,
        route_reservation: Some(reservation),
        ..staged_worker(scope, Some(binding.page_id), task.label, task.task, l, false, true)
    }
}

/// A fresh worker is staged in steps: its page, its scope, the note in the claim, the
/// lock, the workspace, the record and the reservation. The first step that fails undoes
/// all before it.
pub open spec fn stage_next(
    staged: Seq<StagedDelegation>,
    task: PreparedModel,
    reservation: RouteReservation,
    seen: StageSeen,
) -> StageModel {
    match seen.page {
        None => StageModel::CreatePage,
        Some(Err(m)) => undo(
            staged,
            seq!["failed to create a fresh ChatGPT Web worker tab"@, m@],
            None,
            None,
            None,
        ),
        Some(Ok(binding)) => match seen.scope {
            None => StageModel::RegisterScope(binding@),
            Some(Err(m)) => undo(staged, seq![m@], Some(binding@), None, None),
            Some(Ok(scope)) => {
                let id = scope.scope_id@;
                match seen.claimed {
                    None => StageModel::ClaimScope(id),
                    Some(Err(m)) => undo(staged, seq![m@], Some(binding@), Some(id), None),
                    Some(Ok(_)) => match seen.locked {
                        None => StageModel::LockScope(id),
                        Some(Err(m)) => undo(staged, seq![m@], Some(binding@), Some(id), None),
                        Some(Ok(_)) => match seen.resolved {
                            None => StageModel::ResolveScope(id),
                            Some(Err(m)) => undo(staged, seq![m@], Some(binding@), Some(id), None),
                            Some(Ok(_)) => match seen.lifecycle {
                                None => StageModel::StartLifecycle(id),
                                Some(Err(m)) => undo(staged, seq![m@], Some(binding@), Some(id), None),
                                Some(Ok(l)) => match seen.bound {
                                    None => StageModel::BindReservation(id),
                                    Some(Err(m)) => undo(
                                        staged,
                                        seq![
                                            "failed to bind account reservation to active scope"@,
                                            m@,
                                        ],
                                        Some(binding@),
                                        Some(id),
                                        Some(id),
                                    ),
                                    Some(Ok(_)) => StageModel::Staged(
                                        fresh_worker(scope@, binding@, task, l, reservation),
                                    ),
                                },
                            },
                        },
                    },
                }
            },
        },
    }
}

fn undo_stage(
    staged: &Vec<StagedDelegation>,
    failure: Failure,
    page: Option<BrowserBinding>,
    scope: Option<String>,
    lifecycle: Option<String>,
) -> (r: StageStep)
    ensures
        r@ == undo(
            staged@,
            failure@,
            opt_binding(page),
            opt_text(scope),
            opt_text(lifecycle),
        ),
{
    let mut items: Vec<CleanupItem> = Vec::new();
    let mut i: usize = 0;
    while i < staged.len()
        invariant
            i <= staged@.len(),
            items@.len() == i,
            forall|j: int|
                0 <= j < i ==> (#[trigger] items@[j]).scope_id@ == staged@[j].scope_id@
                    && items@[j].route@ == route_of(staged@[j]@),
        decreases staged@.len() - i,
    {
        items.push(
            CleanupItem { scope_id: staged[i].scope_id.clone(), route: item_route(&staged[i]) },
        );
        i += 1;
    }
    let c = StageCleanup { failure, lifecycle, page, scope, staged: items };
    assert(c@.staged =~= staged_before(staged@));
    StageStep::Abort(c)
}

/// Decides what is done next to stage a fresh worker. `staged` are the workers of the
/// request that were staged before.
pub fn stage_browser_delegation(
    staged: &Vec<StagedDelegation>,
    task: &PreparedTask,
    reservation: &RouteReservation,
    seen: &StageSeen,
) -> (r: StageStep)
    requires
        has_title(task.task@),
    ensures
        r@ == stage_next(staged@, task@, *reservation, *seen),
{
    let binding = match &seen.page {
        None => {
            return StageStep::CreatePage;
        },
        Some(Err(m)) => {
            return undo_stage(
                staged,
                Failure::caused(
                    "failed to create a fresh ChatGPT Web worker tab".to_owned(),
                    m.as_str(),
                ),
                None,
                None,
                None,
            );
        },
        Some(Ok(b)) => b,
    };
    let scope = match &seen.scope {
        None => {
            return StageStep::RegisterScope(binding.clone());
        },
        Some(Err(m)) => {
            return undo_stage(staged, Failure::new(m.clone()), Some(binding.clone()), None, None);
        },
        Some(Ok(s)) => s,
    };
    let id = scope.scope_id.clone();
    match &seen.claimed {
        None => {
            return StageStep::ClaimScope(id);
        },
        Some(Err(m)) => {
            return undo_stage(staged, Failure::new(m.clone()), Some(binding.clone()), Some(id), None);
        },
        Some(Ok(_)) => {},
    }
    match &seen.locked {
        None => {
            return StageStep::LockScope(id);
        },
        Some(Err(m)) => {
            return undo_stage(staged, Failure::new(m.clone()), Some(binding.clone()), Some(id), None);
        },
        Some(Ok(_)) => {},
    }
    match &seen.resolved {
        None => {
            return StageStep::ResolveScope(id);
        },
        Some(Err(m)) => {
            return undo_stage(staged, Failure::new(m.clone()), Some(binding.clone()), Some(id), None);
        },
        Some(Ok(_)) => {},
    }
    let lifecycle = match &seen.lifecycle {
        None => {
            return StageStep::StartLifecycle(id);
        },
        Some(Err(m)) => {
            return undo_stage(staged, Failure::new(m.clone()), Some(binding.clone()), Some(id), None);
        },
        Some(Ok(l)) => l,
    };
    match &seen.bound {
        None => {
            return StageStep::BindReservation(id);
        },
        Some(Err(m)) => {
            return undo_stage(
                staged,
                Failure::caused(
                    "failed to bind account reservation to active scope".to_owned(),
                    m.as_str(),
                ),
                Some(binding.clone()),
                Some(id.clone()),
                Some(id),
            );
        },
        Some(Ok(_)) => {},
    }
    let mut item = build_staged_delegation(
        scope,
        Some(binding.page_id.clone()),
        &task.label,
        task.task.as_str(),
        lifecycle,
        false,
        true,
    );
    item.browser_binding = Some(binding.clone());
    item.pooled = true;
    item.route_reservation = Some(reservation.clone());
    StageStep::Staged(item)
}

/// Where a worker cannot be staged, everything that was done for the request is undone:
/// the page and the scope of this worker if there are any, its record if it was started,
/// and every worker that was staged before, in order.
pub proof fn lemma_abort_undoes_all(
    staged: Seq<StagedDelegation>,
    task: PreparedModel,
    reservation: RouteReservation,
    seen: StageSeen,
)
    ensures
        stage_next(staged, task, reservation, seen) matches StageModel::Abort(c) ==> {
            &&& c.page == (match seen.page {
                Some(Ok(b)) => Some(b@),
                _ => None,
            })
            &&& c.scope is Some <==> (seen.page matches Some(Ok(_)) && seen.scope matches Some(Ok(_)))
            &&& c.scope is Some ==> c.scope->0 == seen.scope->0->Ok_0.scope_id@
            &&& c.lifecycle is Some ==> c.lifecycle == c.scope && (seen.lifecycle matches Some(Ok(_)))
            &&& c.staged.len() == staged.len()
            &&& forall|i: int|
                0 <= i < staged.len() ==> (#[trigger] c.staged[i]) == (
                    staged[i].scope_id@,
                    route_of(staged[i]@),
                )
        },
{
}

/// A worker counts as staged only once every step worked.
pub proof fn lemma_staged_means_bound(
    staged: Seq<StagedDelegation>,
    task: PreparedModel,
    reservation: RouteReservation,
    seen: StageSeen,
)
    requires
        stage_next(staged, task, reservation, seen) is Staged,
    ensures
        seen.page matches Some(Ok(_)),
        seen.scope matches Some(Ok(_)),
        seen.claimed matches Some(Ok(_)),
        seen.locked matches Some(Ok(_)),
        seen.resolved matches Some(Ok(_)),
        seen.lifecycle matches Some(Ok(_)),
        seen.bound matches Some(Ok(_)),
{
}

} // verus!
