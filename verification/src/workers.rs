//! Which workers run: the scopes whose delegations go on and whose processes live.
use crate::error::Fault;
use crate::router::{count_active_workers_by_account, is_live_load, live_scope_ids, LoadModel,
    LockProbe, ScopeActivity, WorkerLoad};
use crate::security::workspace::{scope_models, ScopeModel, WorkspaceMux};
use crate::task_state::LifecycleSeen;
use vstd::prelude::*;

verus! {

/// What a look at a scope found: its record, and whether its lock is held.
#[derive(Debug)]
pub struct ScopeLook {
    pub lifecycle: LifecycleSeen,
    pub lock: LockProbe,
}

pub struct ActivityModel {
    pub scope_id: Seq<char>,
    pub account_id: Seq<char>,
    pub terminal: Option<bool>,
    pub lock: LockProbe,
}

pub open spec fn activity_model(a: ScopeActivity) -> ActivityModel {
    ActivityModel {
        scope_id: a.scope_id@,
        account_id: a.account_id@,
        terminal: a.terminal,
        lock: a.lock,
    }
}

pub open spec fn activity_models(v: Seq<ScopeActivity>) -> Seq<ActivityModel> {
    v.map_values(|a: ScopeActivity| activity_model(a))
}

/// Whether the delegation of a scope has ended, where it has one, or why that is not
/// known.
pub open spec fn ended(mux: WorkspaceMux, scope_id: Seq<char>, look: ScopeLook) -> Result<
    Option<bool>,
    Seq<char>,
> {
    match mux.found(scope_id) {
        Err(f) => Err(f.text()),
        Ok(_) => match look.lifecycle {
            LifecycleSeen::Unresolved(e) => Err(e@),
            LifecycleSeen::Unreadable(e) => Err(e@),
            LifecycleSeen::Absent => Ok(None),
            LifecycleSeen::Found(l) => Ok(Some(l.terminal_state is Some)),
        },
    }
}

/// What is known of the workers of some scopes. A scope of which nothing can be known is
/// a failure, or is passed over where `lenient`.
pub open spec fn activities(
    mux: WorkspaceMux,
    looks: Seq<ScopeLook>,
    scopes: Seq<ScopeModel>,
    lenient: bool,
) -> Result<Seq<ActivityModel>, Seq<char>>
    decreases scopes.len(),
{
    if scopes.len() == 0 {
        Ok(Seq::empty())
    } else {
        let s = scopes.last();
        let look = looks[scopes.len() - 1];
        match activities(mux, looks, scopes.drop_last(), lenient) {
            Err(e) => Err(e),
            Ok(before) => match ended(mux, s.scope_id, look) {
                Err(e) => if lenient {
                    Ok(before)
                } else {
                    Err(e)
                },
                Ok(terminal) => Ok(
                    before.push(
                        ActivityModel {
                            scope_id: s.scope_id,
                            account_id: s.account(),
                            terminal,
                            lock: look.lock,
                        },
                    ),
                ),
            },
        }
    }
}

/// What is known of the workers of all scopes, or why it is not.
pub open spec fn all_activities(
    mux: WorkspaceMux,
    looks: Seq<ScopeLook>,
    lenient: bool,
) -> Result<Seq<ActivityModel>, Seq<char>> {
    match mux.listed(false) {
        Err(f) => Err(f.text()),
        Ok(scopes) => activities(mux, looks, scopes, lenient),
    }
}

/// There is a look for each scope, in the order in which the scopes are listed.
pub open spec fn looks_match(mux: WorkspaceMux, looks: Seq<ScopeLook>) -> bool {
    mux.listed(false) matches Ok(scopes) ==> looks.len() == scopes.len()
}

proof fn lemma_activities_fail(
    mux: WorkspaceMux,
    looks: Seq<ScopeLook>,
    scopes: Seq<ScopeModel>,
    upto: int,
    e: Seq<char>,
)
    requires
        0 <= upto <= scopes.len(),
        activities(mux, looks, scopes.subrange(0, upto), false) == Err::<
            Seq<ActivityModel>,
            Seq<char>,
        >(e),
    ensures
        activities(mux, looks, scopes, false) == Err::<Seq<ActivityModel>, Seq<char>>(e),
    decreases scopes.len() - upto,
{
    if upto < scopes.len() {
        assert(scopes.subrange(0, upto + 1).drop_last() =~= scopes.subrange(0, upto));
        lemma_activities_fail(mux, looks, scopes, upto + 1, e);
    } else {
        assert(scopes.subrange(0, upto) =~= scopes);
    }
}

fn has_ended(mux: &WorkspaceMux, scope_id: &str, look: &ScopeLook) -> (r: Result<
    Option<bool>,
    String,
>)
    ensures
        match r {
            Ok(t) => ended(*mux, scope_id@, *look) == Ok::<Option<bool>, Seq<char>>(t),
            Err(e) => ended(*mux, scope_id@, *look) == Err::<Option<bool>, Seq<char>>(e@),
        },
{
    if let Err(e) = mux.resolve(scope_id) {
        return Err(e.message());
    }
    match &look.lifecycle {
        LifecycleSeen::Unresolved(e) => Err(e.clone()),
        LifecycleSeen::Unreadable(e) => Err(e.clone()),
        LifecycleSeen::Absent => Ok(None),
        LifecycleSeen::Found(l) => Ok(Some(l.terminal_state.is_some())),
    }
}

/// What is known of the workers of all scopes.
pub fn scope_activities(mux: &WorkspaceMux, looks: &Vec<ScopeLook>, lenient: bool) -> (r: Result<
    Vec<ScopeActivity>,
    String,
>)
    requires
        looks_match(*mux, looks@),
    ensures
        match r {
            Ok(v) => all_activities(*mux, looks@, lenient) == Ok::<Seq<ActivityModel>, Seq<char>>(
                activity_models(v@),
            ),
            Err(e) => all_activities(*mux, looks@, lenient) == Err::<
                Seq<ActivityModel>,
                Seq<char>,
            >(e@),
        },
{
    let scopes = match mux.list_scopes() {
        Ok(v) => v,
        Err(e) => {
            return Err(e.message());
        },
    };
    let ghost all = scope_models(scopes@);
    let mut out: Vec<ScopeActivity> = Vec::new();
    let mut i: usize = 0;
    assert(all.subrange(0, 0) =~= Seq::empty());
    assert(activity_models(out@) =~= Seq::empty());
    while i < scopes.len()
        invariant
            i <= scopes@.len(),
            looks@.len() == scopes@.len(),
            all == scope_models(scopes@),
            mux.listed(false) == Ok::<Seq<ScopeModel>, Fault>(all),
            activities(*mux, looks@, all.subrange(0, i as int), lenient) == Ok::<
                Seq<ActivityModel>,
                Seq<char>,
            >(activity_models(out@)),
        decreases scopes@.len() - i,
    {
        let ghost next = all.subrange(0, i + 1);
        assert(next.drop_last() =~= all.subrange(0, i as int));
        assert(next.last() == scopes@[i as int]@);
        match has_ended(mux, scopes[i].scope_id.as_str(), &looks[i]) {
            Err(e) => {
                if !lenient {
                    proof {
                        lemma_activities_fail(*mux, looks@, all, i + 1, e@);
                    }
                    return Err(e);
                }
            },
            Ok(terminal) => {
                let a = ScopeActivity {
                    scope_id: scopes[i].scope_id.clone(),
                    account_id: scopes[i].account_id().to_owned(),
                    terminal,
                    lock: looks[i].lock,
                };
                let ghost before = activity_models(out@);
                let ghost m = activity_model(a);
                out.push(a);
                assert(activity_models(out@) =~= before.push(m));
            },
        }
        i += 1;
    }
    assert(all.subrange(0, all.len() as int) =~= all);
    Ok(out)
}

/// `load` is the load of the workers of all scopes.
pub open spec fn is_load_of(
    mux: WorkspaceMux,
    looks: Seq<ScopeLook>,
    lenient: bool,
    load: LoadModel,
) -> bool {
    exists|v: Seq<ScopeActivity>|
        all_activities(mux, looks, lenient) == Ok::<Seq<ActivityModel>, Seq<char>>(
            activity_models(v),
        ) && #[trigger] is_live_load(load, v)
}

/// Counts the running workers of each account; every scope must be known.
pub fn count_live_workers(mux: &WorkspaceMux, looks: &Vec<ScopeLook>) -> (r: Result<
    WorkerLoad,
    String,
>)
    requires
        looks_match(*mux, looks@),
    ensures
        match r {
            Ok(load) => is_load_of(*mux, looks@, false, load@),
            Err(e) => all_activities(*mux, looks@, false) == Err::<Seq<ActivityModel>, Seq<char>>(
                e@,
            ),
        },
{
    match scope_activities(mux, looks, false) {
        Err(e) => Err(e),
        Ok(v) => Ok(count_active_workers_by_account(&v)),
    }
}

/// Counts the running workers of each account among the scopes that are known.
pub fn count_active_in_flight_workers_by_account(
    mux: &WorkspaceMux,
    looks: &Vec<ScopeLook>,
) -> (r: Result<WorkerLoad, String>)
    requires
        looks_match(*mux, looks@),
    ensures
        match r {
            Ok(load) => is_load_of(*mux, looks@, true, load@),
            Err(e) => all_activities(*mux, looks@, true) == Err::<Seq<ActivityModel>, Seq<char>>(
                e@,
            ),
        },
{
    match scope_activities(mux, looks, true) {
        Err(e) => Err(e),
        Ok(v) => Ok(count_active_workers_by_account(&v)),
    }
}

/// An activity counts as a running worker.
pub open spec fn is_running(a: ActivityModel) -> bool {
    a.terminal == Some(false) && a.lock != LockProbe::Free
}

/// How many of some activities are running workers.
pub open spec fn running(v: Seq<ActivityModel>) -> nat
    decreases v.len(),
{
    if v.len() == 0 {
        0
    } else {
        running(v.drop_last()) + (if is_running(v.last()) {
            1nat
        } else {
            0nat
        })
    }
}

proof fn lemma_running(v: Seq<ScopeActivity>)
    ensures
        live_scope_ids(v).len() == running(activity_models(v)),
    decreases v.len(),
{
    reveal(Seq::filter);
    if v.len() > 0 {
        lemma_running(v.drop_last());
        assert(activity_models(v).drop_last() =~= activity_models(v.drop_last()));
        assert(activity_models(v).last() == activity_model(v.last()));
    }
}

/// Counts the running workers among the scopes that are known.
pub fn count_active_in_flight_workers(mux: &WorkspaceMux, looks: &Vec<ScopeLook>) -> (r: Result<
    usize,
    String,
>)
    requires
        looks_match(*mux, looks@),
    ensures
        match r {
            Ok(n) => all_activities(*mux, looks@, true) matches Ok(v) && n == running(v),
            Err(e) => all_activities(*mux, looks@, true) == Err::<Seq<ActivityModel>, Seq<char>>(
                e@,
            ),
        },
{
    match scope_activities(mux, looks, true) {
        Err(e) => Err(e),
        Ok(v) => {
            let load = count_active_workers_by_account(&v);
            proof {
                lemma_running(v@);
            }
            match &load.scope_ids {
                Some(ids) => {
                    assert(load@.scope_ids == Some(live_scope_ids(v@)));
                    assert(crate::text::texts(ids@).len() == ids@.len());
                    Ok(ids.len())
                },
                None => Ok(0),
            }
        },
    }
}

/// A scope whose lock nobody holds counts as no running worker, and one whose lock
/// cannot be probed counts as one as long as its delegation goes on.
pub proof fn lemma_doubt_counts(a: ActivityModel)
    ensures
        a.lock == LockProbe::Free ==> !is_running(a),
        a.lock == LockProbe::Failed && a.terminal == Some(false) ==> is_running(a),
{
}

} // verus!
