//! Who owns a piece of fresh work: one request for each scope directory, workspace and
//! label, whatever the words of its task.
use crate::delegate::input::{PreparedModel, PreparedTask};
use crate::error::{BridgeError, ErrorKind, Fault};
use crate::fresh_dispatch::{key_fault, ClaimModel, FreshDispatchClaim, FreshDispatchClaimGuard,
    FreshDispatchClaims, FreshDispatchDecision};
use crate::outside::{hex_encode, hex_text, json_escaped, json_quote, json_quoted,
    lemma_quoted_is_told, sha256, sha256_digest};
use crate::security::workspace::WorkspaceMux;
use crate::shelf::{find_slot, slot_value, Slot};
use crate::sort::{in_order, sort_items, Sortable};
use crate::task_state::LifecycleSeen;
use crate::text::{lemma_text_le_trans, lemma_text_lt_asym, same_text, text_before, text_lt, texts,
    trim, trimmed};
use vstd::prelude::*;

verus! {

/// The text that tells one piece of fresh work from another.
pub open spec fn domain_text(scope_dir: Seq<char>, task: PreparedModel) -> Seq<char> {
    "{\"version\":1,\"scope_dir\":"@ + json_quoted(scope_dir) + ",\"workspace\":"@ + json_quoted(
        task.workspace,
    ) + ",\"label\":"@ + label_text(task.label) + "}"@
}

/// The key of a piece of fresh work: the SHA-256 digest of its text.
pub open spec fn domain_key(scope_dir: Seq<char>, task: PreparedModel) -> Seq<char> {
    hex_text(sha256(vstd::utf8::encode_utf8(domain_text(scope_dir, task))))
}

/// The key of a piece of fresh work.
pub fn fresh_dispatch_domain_key(scope_dir: &str, task: &PreparedTask) -> (r: String)
    ensures
        r@ == domain_key(scope_dir@, task@),
        key_fault(r@) is None,
{
    let label = match &task.label {
        Some(l) => json_quote(trim(l.as_str()).as_str()),
        None => "null".to_owned(),
    };
    let text = "{\"version\":1,\"scope_dir\":".to_owned().concat(
        json_quote(scope_dir).as_str(),
    ).concat(",\"workspace\":").concat(json_quote(task.workspace.as_str()).as_str()).concat(
        ",\"label\":",
    ).concat(label.as_str()).concat("}");
    let digest = sha256_digest(text.as_str().as_bytes());
    proof {
        lemma_hex_is_key(digest@);
    }
    hex_encode(&digest)
}

/// The words of a task do not matter for who owns it: tasks with the same workspace and
/// label, up to white space, have one key.
pub proof fn lemma_rewording_keeps_key(scope_dir: Seq<char>, a: PreparedModel, b: PreparedModel)
    requires
        a.workspace == b.workspace,
        a.label is Some <==> b.label is Some,
        a.label is Some ==> trimmed(a.label->0) == trimmed(b.label->0),
    ensures
        domain_key(scope_dir, a) == domain_key(scope_dir, b),
{
}

proof fn lemma_same_back(front: Seq<char>, a: Seq<char>, b: Seq<char>)
    requires
        front + a == front + b,
    ensures
        a == b,
{
    let s = front + a;
    assert(a =~= s.subrange(front.len() as int, s.len() as int));
    assert(b =~= s.subrange(front.len() as int, s.len() as int));
}

/// The label of a piece of fresh work in its text.
pub open spec fn label_text(label: Option<Seq<char>>) -> Seq<char> {
    match label {
        Some(l) => json_quoted(trimmed(l)),
        None => "null"@,
    }
}

proof fn lemma_label_is_told(a: Option<Seq<char>>, b: Option<Seq<char>>)
    requires
        label_text(a) == label_text(b),
    ensures
        a is Some <==> b is Some,
        a is Some ==> trimmed(a->0) == trimmed(b->0),
{
    reveal_strlit("null");
    assert(a is None ==> label_text(a)[0] == 'n');
    assert(b is None ==> label_text(b)[0] == 'n');
    assert(a is Some ==> label_text(a)[0] == '"');
    assert(b is Some ==> label_text(b)[0] == '"');
    if a is Some {
        let (k, l) = (trimmed(a->0), trimmed(b->0));
        let none = Seq::<char>::empty();
        assert(json_quoted(k) =~= seq!['"'] + (json_escaped(k) + seq!['"'] + none));
        assert(json_quoted(l) =~= seq!['"'] + (json_escaped(l) + seq!['"'] + none));
        lemma_same_back(
            seq!['"'],
            json_escaped(k) + seq!['"'] + none,
            json_escaped(l) + seq!['"'] + none,
        );
        lemma_quoted_is_told(k, l, none, none);
    }
}

proof fn lemma_same_front(a: Seq<char>, b: Seq<char>, back: Seq<char>)
    requires
        a + back == b + back,
    ensures
        a == b,
{
    let s = a + back;
    assert(a =~= s.subrange(0, s.len() - back.len()));
    assert(b =~= s.subrange(0, s.len() - back.len()));
}

proof fn lemma_together(a: Seq<char>, b: Seq<char>, c: Seq<char>)
    ensures
        a + b + c == a + (b + c),
{
    assert(a + b + c =~= a + (b + c));
}

spec fn behind_workspace(task: PreparedModel) -> Seq<char> {
    ",\"label\":"@ + (label_text(task.label) + "}"@)
}

spec fn behind_scope(task: PreparedModel) -> Seq<char> {
    ",\"workspace\":"@ + seq!['"'] + (json_escaped(task.workspace) + seq!['"'] + behind_workspace(
        task,
    ))
}

/// A literal between two texts.
proof fn lemma_quoted_between(front: Seq<char>, s: Seq<char>, back: Seq<char>)
    ensures
        front + json_quoted(s) + back == front + seq!['"'] + (json_escaped(s) + seq!['"'] + back),
{
    assert(front + json_quoted(s) + back =~= front + seq!['"'] + (json_escaped(s) + seq!['"']
        + back));
}

proof fn lemma_text_in_parts(scope_dir: Seq<char>, task: PreparedModel)
    ensures
        domain_text(scope_dir, task) == "{\"version\":1,\"scope_dir\":"@ + seq!['"'] + (
        json_escaped(scope_dir) + seq!['"'] + behind_scope(task)),
{
    let head = "{\"version\":1,\"scope_dir\":"@;
    let middle = ",\"workspace\":"@;
    let last = ",\"label\":"@;
    let label = label_text(task.label);
    let q = json_quoted(scope_dir);
    let w = json_quoted(task.workspace);
    // Everything behind the workspace moves to the right, then all behind the scope.
    lemma_together(head + q + middle + w + last, label, "}"@);
    lemma_together(head + q + middle + w, last, label + "}"@);
    let tail = behind_workspace(task);
    lemma_together(head + q + middle, w, tail);
    lemma_together(head + q, middle, w + tail);
    lemma_together(middle, w, tail);
    lemma_quoted_between(middle, task.workspace, tail);
    lemma_quoted_between(head, scope_dir, behind_scope(task));
}

/// Different pieces of fresh work are told apart by the texts of which their keys are the
/// digests: two such texts are the same only where the scope directory, the workspace and
/// the label, up to white space, are.
pub proof fn lemma_disjoint_work_has_its_own_text(
    scope_dir: Seq<char>,
    a: PreparedModel,
    other_dir: Seq<char>,
    b: PreparedModel,
)
    requires
        domain_text(scope_dir, a) == domain_text(other_dir, b),
    ensures
        scope_dir == other_dir,
        a.workspace == b.workspace,
        a.label is Some <==> b.label is Some,
        a.label is Some ==> trimmed(a.label->0) == trimmed(b.label->0),
{
    let head = "{\"version\":1,\"scope_dir\":"@ + seq!['"'];
    let middle = ",\"workspace\":"@ + seq!['"'];
    let last = ",\"label\":"@;
    lemma_text_in_parts(scope_dir, a);
    lemma_text_in_parts(other_dir, b);
    lemma_same_back(
        head,
        json_escaped(scope_dir) + seq!['"'] + behind_scope(a),
        json_escaped(other_dir) + seq!['"'] + behind_scope(b),
    );
    lemma_quoted_is_told(scope_dir, other_dir, behind_scope(a), behind_scope(b));
    lemma_same_back(
        middle,
        json_escaped(a.workspace) + seq!['"'] + behind_workspace(a),
        json_escaped(b.workspace) + seq!['"'] + behind_workspace(b),
    );
    lemma_quoted_is_told(a.workspace, b.workspace, behind_workspace(a), behind_workspace(b));
    lemma_same_back(last, label_text(a.label) + "}"@, label_text(b.label) + "}"@);
    lemma_same_front(label_text(a.label), label_text(b.label), "}"@);
    lemma_label_is_told(a.label, b.label);
}

/// A piece of fresh work of a request: its key and the place of its task.
#[derive(Debug)]
pub struct Domain {
    pub key: String,
    pub index: usize,
}

impl Sortable for Domain {
    open spec fn before(self, other: Self) -> bool {
        text_lt(self.key@, other.key@)
    }

    proof fn lemma_asym(a: Self, b: Self) {
        lemma_text_lt_asym(a.key@, b.key@);
    }

    proof fn lemma_trans(a: Self, b: Self, c: Self) {
        lemma_text_le_trans(a.key@, b.key@, c.key@);
    }

    fn is_before(&self, other: &Self) -> (r: bool) {
        text_before(self.key.as_str(), other.key.as_str())
    }
}

/// Two tasks of a request are the same piece of fresh work.
pub open spec fn has_overlap(scope_dir: Seq<char>, tasks: Seq<PreparedTask>) -> bool {
    exists|i: int, j: int|
        0 <= i < j < tasks.len() && domain_key(scope_dir, (#[trigger] tasks[i])@) == domain_key(
            scope_dir,
            (#[trigger] tasks[j])@,
        )
}

/// The pieces of fresh work of a request, in the order of its tasks.
pub open spec fn is_domains(scope_dir: Seq<char>, tasks: Seq<PreparedTask>, d: Seq<Domain>) -> bool {
    &&& d.len() == tasks.len()
    &&& forall|i: int|
        0 <= i < d.len() ==> (#[trigger] d[i]).index == i && d[i].key@ == domain_key(
            scope_dir,
            tasks[i]@,
        )
}

/// The sorted pieces of work are those of the tasks, each once.
proof fn lemma_sorted_domains(scope_dir: Seq<char>, tasks: Seq<PreparedTask>, d: Seq<Domain>)
    requires
        is_domains(scope_dir, tasks, d),
    ensures
        in_order(d).len() == tasks.len(),
        crate::sort::is_in_order(in_order(d)),
        forall|k: int|
            0 <= k < tasks.len() ==> {
                let x = #[trigger] in_order(d)[k];
                x.index < tasks.len() && x.key@ == domain_key(scope_dir, tasks[x.index as int]@)
            },
        forall|i: int|
            0 <= i < tasks.len() ==> exists|k: int|
                0 <= k < tasks.len() && (#[trigger] in_order(d)[k]) == #[trigger] d[i],
        forall|k: int, m: int|
            0 <= k < m < tasks.len() ==> (#[trigger] in_order(d)[k]).index != (#[trigger] in_order(
                d,
            )[m]).index,
{
    broadcast use vstd::seq_lib::group_to_multiset_ensures;

    crate::sort::lemma_in_order(d);
    let s = in_order(d);
    assert forall|k: int| 0 <= k < s.len() implies d.contains(#[trigger] s[k]) by {
        assert(s.contains(s[k]));
        assert(s.to_multiset().contains(s[k]));
    }
    assert forall|i: int| 0 <= i < d.len() implies s.contains(#[trigger] d[i]) by {
        assert(d.contains(d[i]));
        assert(d.to_multiset().contains(d[i]));
    }
    assert(d.no_duplicates());
    d.lemma_multiset_has_no_duplicates();
    s.lemma_multiset_has_no_duplicates_conv();
    assert forall|k: int, m: int| 0 <= k < m < s.len() implies (#[trigger] s[k]).index != (
    #[trigger] s[m]).index by {
        if s[k].index == s[m].index {
            let a = choose|a: int| 0 <= a < d.len() && d[a] == s[k];
            let b = choose|b: int| 0 <= b < d.len() && d[b] == s[m];
            assert(d.contains(s[k]) && d.contains(s[m]));
            assert(a == b);
            assert(s[k] == s[m]);
        }
    }
}

proof fn lemma_text_lt_total(a: Seq<char>, b: Seq<char>)
    requires
        !text_lt(a, b),
        !text_lt(b, a),
    ensures
        a == b,
    decreases a.len(),
{
    if a.len() > 0 && b.len() > 0 {
        lemma_text_lt_total(a.drop_first(), b.drop_first());
        assert(a =~= seq![a[0]] + a.drop_first());
        assert(b =~= seq![b[0]] + b.drop_first());
    } else {
        assert(a =~= b);
    }
}

/// Two neighbours in a list have one key.
pub open spec fn has_equal_neighbours(s: Seq<Domain>) -> bool {
    exists|k: int| 0 <= k && k + 1 < s.len() && (#[trigger] s[k]).key@ == s[k + 1].key@
}

proof fn lemma_overlap_is_adjacent(scope_dir: Seq<char>, tasks: Seq<PreparedTask>, d: Seq<Domain>)
    requires
        is_domains(scope_dir, tasks, d),
    ensures
        has_overlap(scope_dir, tasks) <==> has_equal_neighbours(in_order(d)),
{
    lemma_sorted_domains(scope_dir, tasks, d);
    let s = in_order(d);
    if has_equal_neighbours(s) {
        let k = choose|k: int| 0 <= k && k + 1 < s.len() && (#[trigger] s[k]).key@ == s[k + 1].key@;
        let i = s[k].index as int;
        let j = s[k + 1].index as int;
        assert(i != j);
        if i < j {
            assert(domain_key(scope_dir, tasks[i]@) == domain_key(scope_dir, tasks[j]@));
        } else {
            assert(domain_key(scope_dir, tasks[j]@) == domain_key(scope_dir, tasks[i]@));
        }
    }
    if has_overlap(scope_dir, tasks) {
        let (i, j) = choose|i: int, j: int|
            0 <= i < j < tasks.len() && domain_key(scope_dir, (#[trigger] tasks[i])@) == domain_key(
                scope_dir,
                (#[trigger] tasks[j])@,
            );
        assert(d[i].index == i && d[j].index == j);
        let p = choose|k: int| 0 <= k < tasks.len() && (#[trigger] s[k]) == d[i];
        let q = choose|k: int| 0 <= k < tasks.len() && (#[trigger] s[k]) == d[j];
        assert(p != q);
        let lo = if p < q {
            p
        } else {
            q
        };
        let hi = if p < q {
            q
        } else {
            p
        };
        assert(s[lo].key@ == s[hi].key@);
        if lo + 1 < hi {
            assert(!s[lo + 1].before(s[lo]));
            assert(!s[hi].before(s[lo + 1]));
            lemma_text_lt_total(s[lo + 1].key@, s[lo].key@);
        }
        assert(s[lo].key@ == s[lo + 1].key@);
    }
}

fn equal_neighbours(s: &Vec<Domain>) -> (r: bool)
    ensures
        r == has_equal_neighbours(s@),
{
    let mut k: usize = 0;
    while k < s.len() && s.len() - k > 1
        invariant
            k <= s@.len(),
            forall|j: int|
                0 <= j < k && j + 1 < s@.len() ==> (#[trigger] s@[j]).key@ != s@[j + 1].key@,
        decreases s@.len() - k,
    {
        if same_text(s[k].key.as_str(), s[k + 1].key.as_str()) {
            assert(s@[k as int].key@ == s@[k + 1].key@);
            return true;
        }
        k += 1;
    }
    false
}

/// The work in a scope goes on, as far as its record says; a scope that is gone, has no
/// page or has no workspace left holds no work. A scope whose record was not looked at
/// counts as one whose work goes on.
pub open spec fn scope_active(mux: WorkspaceMux, seen: Seq<Slot<LifecycleSeen>>, id: Seq<char>) -> Result<
    bool,
    Fault,
> {
    match mux.found(id) {
        Err(_) => Ok(false),
        Ok(scope) => if scope.page() is None {
            Ok(false)
        } else {
            match slot_value(seen, id) {
                None => Ok(true),
                Some(LifecycleSeen::Unresolved(_)) => Ok(false),
                Some(LifecycleSeen::Unreadable(m)) => Err(
                    Fault { kind: ErrorKind::Precondition, detail: m@ },
                ),
                Some(LifecycleSeen::Absent) => Ok(true),
                Some(LifecycleSeen::Found(l)) => Ok(l.terminal_state is None),
            }
        },
    }
}

/// Work goes on in one of some scopes; the first scope that has work, or whose record
/// cannot be read, decides.
pub open spec fn any_active(
    mux: WorkspaceMux,
    seen: Seq<Slot<LifecycleSeen>>,
    ids: Seq<Seq<char>>,
) -> Result<bool, Fault>
    decreases ids.len(),
{
    if ids.len() == 0 {
        Ok(false)
    } else {
        match scope_active(mux, seen, ids[0]) {
            Ok(false) => any_active(mux, seen, ids.drop_first()),
            other => other,
        }
    }
}

fn is_scope_active(mux: &WorkspaceMux, seen: &Vec<Slot<LifecycleSeen>>, id: &str) -> (r: Result<
    bool,
    BridgeError,
>)
    ensures
        match r {
            Ok(b) => scope_active(*mux, seen@, id@) == Ok::<bool, Fault>(b),
            Err(e) => scope_active(*mux, seen@, id@) == Err::<bool, Fault>(e@),
        },
{
    let scope = match mux.lookup(id) {
        Ok(s) => s,
        Err(_) => {
            return Ok(false);
        },
    };
    if scope.page_id().is_none() {
        return Ok(false);
    }
    let at = find_slot(seen, id);
    if at == seen.len() {
        return Ok(true);
    }
    match &seen[at].value {
        LifecycleSeen::Unresolved(_) => Ok(false),
        LifecycleSeen::Unreadable(m) => Err(BridgeError::Precondition(m.clone())),
        LifecycleSeen::Absent => Ok(true),
        LifecycleSeen::Found(l) => Ok(l.terminal_state.is_none()),
    }
}

/// Whether work goes on in one of the scopes of a claim. `seen` is what a look at the
/// records of the scopes found.
pub fn fresh_claim_has_active_scope(
    mux: &WorkspaceMux,
    seen: &Vec<Slot<LifecycleSeen>>,
    scope_ids: &Vec<String>,
) -> (r: Result<bool, BridgeError>)
    ensures
        match r {
            Ok(b) => any_active(*mux, seen@, texts(scope_ids@)) == Ok::<bool, Fault>(b),
            Err(e) => any_active(*mux, seen@, texts(scope_ids@)) == Err::<bool, Fault>(e@),
        },
{
    let ghost all = texts(scope_ids@);
    let mut i: usize = 0;
    assert(all.subrange(0, all.len() as int) =~= all);
    while i < scope_ids.len()
        invariant
            i <= scope_ids@.len(),
            all == texts(scope_ids@),
            any_active(*mux, seen@, all) == any_active(
                *mux,
                seen@,
                all.subrange(i as int, all.len() as int),
            ),
        decreases scope_ids@.len() - i,
    {
        let ghost rest = all.subrange(i as int, all.len() as int);
        assert(rest[0] == scope_ids@[i as int]@);
        assert(rest.drop_first() =~= all.subrange(i + 1, all.len() as int));
        match is_scope_active(mux, seen, scope_ids[i].as_str()) {
            Err(e) => {
                return Err(e);
            },
            Ok(true) => {
                return Ok(true);
            },
            Ok(false) => {},
        }
        i += 1;
    }
    Ok(false)
}

/// Who owns the pieces of fresh work of a request after it asked for them.
#[derive(Debug)]
pub enum FreshDomainClaimDecision {
    /// The request owns all of them; the claims stand in the order of its tasks.
    Acquired(Vec<FreshDispatchClaimGuard>),
    /// The work of one goes on already.
    Duplicate(FreshDispatchClaim),
}

/// What comes of asking for one piece of fresh work.
pub enum Verdict {
    Free,
    Taken(ClaimModel),
    Refused(Fault),
}

pub open spec fn verdict(
    claims: FreshDispatchClaims,
    mux: WorkspaceMux,
    seen: Seq<Slot<LifecycleSeen>>,
    key: Seq<char>,
) -> Verdict {
    match claims.existing(key) {
        Err(f) => Verdict::Refused(f),
        Ok(None) => Verdict::Free,
        Ok(Some(c)) => match any_active(mux, seen, c.scope_ids) {
            Err(f) => Verdict::Refused(f),
            Ok(true) => Verdict::Taken(c),
            Ok(false) => Verdict::Free,
        },
    }
}

/// What comes of asking for some pieces of fresh work.
pub enum Outcome {
    Owned,
    Taken(ClaimModel),
    Failed(Seq<char>),
}

/// Asking for pieces of fresh work one after the other, in the order of their keys, up
/// to the first that is not free, leads from one state of the claims to another. Every
/// piece that was free has a fresh claim afterwards.
pub open spec fn claim_run(
    domains: Seq<Domain>,
    from: int,
    before: FreshDispatchClaims,
    after: FreshDispatchClaims,
    mux: WorkspaceMux,
    seen: Seq<Slot<LifecycleSeen>>,
    now_ms: u64,
    outcome: Outcome,
) -> bool
    decreases domains.len() - from,
{
    if from < 0 || from >= domains.len() {
        after == before && outcome is Owned
    } else {
        match verdict(before, mux, seen, domains[from].key@) {
            Verdict::Refused(f) => after == before && outcome == Outcome::Failed(f.text()),
            Verdict::Taken(c) => after == before && outcome == Outcome::Taken(c),
            Verdict::Free => exists|mid: FreshDispatchClaims| #[trigger]
                mid.wrote(before, ClaimModel::fresh(domains[from].key@, now_ms)) && claim_run(
                    domains,
                    from + 1,
                    mid,
                    after,
                    mux,
                    seen,
                    now_ms,
                    outcome,
                ),
        }
    }
}

proof fn lemma_hex_is_key(b: Seq<u8>)
    requires
        b.len() == 32,
    ensures
        key_fault(hex_text(b)) is None,
{
    let k = hex_text(b);
    assert forall|i: int| 0 <= i < 64 implies crate::text::is_hex_digit(#[trigger] k[i]) by {
        assert(k[i] == crate::outside::hex_digit(
            if i % 2 == 0 {
                b[i / 2] as int / 16
            } else {
                b[i / 2] as int % 16
            },
        ));
    }
}

/// What asking for some pieces of fresh work came to.
pub open spec fn run_outcome(r: Result<Option<FreshDispatchClaim>, String>) -> Outcome {
    match r {
        Ok(None) => Outcome::Owned,
        Ok(Some(c)) => Outcome::Taken(c@),
        Err(e) => Outcome::Failed(e@),
    }
}

pub open spec fn opt_claim(g: Option<FreshDispatchClaimGuard>) -> Option<ClaimModel> {
    match g {
        Some(g) => Some(g.claim@),
        None => None,
    }
}

fn claim_from(
    claims: &mut FreshDispatchClaims,
    mux: &WorkspaceMux,
    seen: &Vec<Slot<LifecycleSeen>>,
    domains: &Vec<Domain>,
    from: usize,
    now_ms: u64,
    guards: &mut Vec<Option<FreshDispatchClaimGuard>>,
) -> (r: Result<Option<FreshDispatchClaim>, String>)
    requires
        from <= domains@.len(),
        forall|k: int|
            0 <= k < domains@.len() ==> key_fault((#[trigger] domains@[k]).key@) is None
                && domains@[k].index < old(guards)@.len(),
        forall|k: int, m: int|
            0 <= k < m < domains@.len() ==> (#[trigger] domains@[k]).index != (
            #[trigger] domains@[m]).index,
    ensures
        claim_run(
            domains@,
            from as int,
            *old(claims),
            *final(claims),
            *mux,
            seen@,
            now_ms,
            run_outcome(r),
        ),
        final(guards)@.len() == old(guards)@.len(),
        forall|i: int|
            0 <= i < old(guards)@.len() && (forall|k: int|
                from <= k < domains@.len() ==> (#[trigger] domains@[k]).index != i)
                ==> #[trigger] final(guards)@[i] == old(guards)@[i],
        r matches Ok(None) ==> forall|k: int|
            from <= k < domains@.len() ==> opt_claim(
                final(guards)@[(#[trigger] domains@[k]).index as int],
            ) == Some(ClaimModel::fresh(domains@[k].key@, now_ms)),
    decreases domains@.len() - from,
{
    if from == domains.len() {
        return Ok(None);
    }
    let key: &str = domains[from].key.as_str();
    let present = match claims.load_claim(key) {
        Ok(c) => c,
        Err(e) => {
            return Err(e.message());
        },
    };
    let active = match &present {
        None => Ok(false),
        Some(c) => fresh_claim_has_active_scope(mux, seen, &c.scope_ids),
    };
    let ghost before = *claims;
    match claims.claim(key, now_ms, active) {
        Err(e) => Err(e.message()),
        Ok(FreshDispatchDecision::Duplicate(c)) => Ok(Some(c)),
        Ok(FreshDispatchDecision::Acquired(g)) => {
            assert(claims.wrote(before, ClaimModel::fresh(domains@[from as int].key@, now_ms)));
            let at: usize = domains[from].index;
            guards.set(at, Some(g));
            let r = claim_from(claims, mux, seen, domains, from + 1, now_ms, guards);
            proof {
                assert(forall|k: int|
                    from + 1 <= k < domains@.len() ==> (#[trigger] domains@[k]).index != at);
            }
            r
        },
    }
}

pub const OVERLAP: &'static str =
    "fresh batch contains overlapping workspace/task ownership domains; assign distinct labels to intentionally independent tasks";

/// What asking for the fresh work of a request came to.
pub open spec fn decision_outcome(r: Result<FreshDomainClaimDecision, String>) -> Outcome {
    match r {
        Ok(FreshDomainClaimDecision::Acquired(_)) => Outcome::Owned,
        Ok(FreshDomainClaimDecision::Duplicate(c)) => Outcome::Taken(c@),
        Err(e) => Outcome::Failed(e@),
    }
}

/// The request asks for its pieces of fresh work in the order of their keys.
pub open spec fn asks_in_order(
    scope_dir: Seq<char>,
    tasks: Seq<PreparedTask>,
    before: FreshDispatchClaims,
    after: FreshDispatchClaims,
    mux: WorkspaceMux,
    seen: Seq<Slot<LifecycleSeen>>,
    now_ms: u64,
    outcome: Outcome,
) -> bool {
    exists|d: Seq<Domain>| #[trigger]
        is_domains(scope_dir, tasks, d) && claim_run(
            in_order(d),
            0,
            before,
            after,
            mux,
            seen,
            now_ms,
            outcome,
        )
}

/// Asks for the fresh work of a request. Tasks that are the same piece of work are
/// refused before anything is claimed; a request that gets all its pieces has a claim
/// on each, in the order of its tasks.
pub fn claim_fresh_dispatch_domains(
    claims: &mut FreshDispatchClaims,
    mux: &WorkspaceMux,
    seen: &Vec<Slot<LifecycleSeen>>,
    scope_dir: &str,
    tasks: &Vec<PreparedTask>,
    now_ms: u64,
) -> (r: Result<FreshDomainClaimDecision, String>)
    ensures
        if has_overlap(scope_dir@, tasks@) {
            *final(claims) == *old(claims) && r is Err && r->Err_0@ == OVERLAP@
        } else {
            asks_in_order(
                scope_dir@,
                tasks@,
                *old(claims),
                *final(claims),
                *mux,
                seen@,
                now_ms,
                decision_outcome(r),
            )
        },
        r matches Ok(FreshDomainClaimDecision::Acquired(g)) ==> g@.len() == tasks@.len() && forall|
            i: int,
        |
            0 <= i < g@.len() ==> (#[trigger] g@[i]).claim@ == ClaimModel::fresh(
                domain_key(scope_dir@, tasks@[i]@),
                now_ms,
            ),
{
    let mut list: Vec<Domain> = Vec::new();
    let mut guards: Vec<Option<FreshDispatchClaimGuard>> = Vec::new();
    let mut i: usize = 0;
    while i < tasks.len()
        invariant
            i <= tasks@.len(),
            list@.len() == i,
            guards@.len() == i,
            forall|j: int|
                0 <= j < i ==> (#[trigger] list@[j]).index == j && list@[j].key@ == domain_key(
                    scope_dir@,
                    tasks@[j]@,
                ) && key_fault(list@[j].key@) is None,
        decreases tasks@.len() - i,
    {
        list.push(Domain { key: fresh_dispatch_domain_key(scope_dir, &tasks[i]), index: i });
        guards.push(None);
        i += 1;
    }
    let ghost d = list@;
    assert(is_domains(scope_dir@, tasks@, d));
    proof {
        lemma_sorted_domains(scope_dir@, tasks@, d);
        lemma_overlap_is_adjacent(scope_dir@, tasks@, d);
    }
    let domains = sort_items(list);
    if equal_neighbours(&domains) {
        return Err(OVERLAP.to_owned());
    }
    assert forall|k: int| 0 <= k < domains@.len() implies key_fault(
        (#[trigger] domains@[k]).key@,
    ) is None by {
        let x = domains@[k];
        assert(d[x.index as int].key@ == x.key@);
    }
    match claim_from(claims, mux, seen, &domains, 0, now_ms, &mut guards) {
        Err(e) => Err(e),
        Ok(Some(c)) => Ok(FreshDomainClaimDecision::Duplicate(c)),
        Ok(None) => {
            assert forall|t: int| 0 <= t < tasks@.len() implies opt_claim(
                #[trigger] guards@[t],
            ) == Some(ClaimModel::fresh(domain_key(scope_dir@, tasks@[t]@), now_ms)) by {
                assert(d[t].index == t);
                let k = choose|k: int|
                    0 <= k < tasks@.len() && (#[trigger] in_order(d)[k]) == d[t];
                assert(domains@[k] == d[t]);
            }
            let mut out: Vec<FreshDispatchClaimGuard> = Vec::new();
            while guards.len() > 0
                invariant
                    guards@.len() + out@.len() == tasks@.len(),
                    forall|t: int|
                        0 <= t < guards@.len() ==> opt_claim(#[trigger] guards@[t]) == Some(
                            ClaimModel::fresh(domain_key(scope_dir@, tasks@[t]@), now_ms),
                        ),
                    forall|t: int|
                        0 <= t < out@.len() ==> (#[trigger] out@[t]).claim@ == ClaimModel::fresh(
                            domain_key(scope_dir@, tasks@[guards@.len() + t]@),
                            now_ms,
                        ),
                decreases guards@.len(),
            {
                let ghost last = guards@[guards@.len() - 1];
                assert(opt_claim(last) is Some);
                if let Some(Some(g)) = guards.pop() {
                    out.insert(0, g);
                }
            }
            Ok(FreshDomainClaimDecision::Acquired(out))
        },
    }
}

/// Work that goes on blocks a request for the same work in other words, whoever makes
/// it: the request finds the claim that was written for the work.
pub proof fn lemma_live_work_blocks(
    claims: FreshDispatchClaims,
    before: FreshDispatchClaims,
    claim: ClaimModel,
    mux: WorkspaceMux,
    seen: Seq<Slot<LifecycleSeen>>,
    scope_dir: Seq<char>,
    first: PreparedModel,
    second: PreparedModel,
)
    requires
        claims.wrote(before, claim),
        claim.version == crate::fresh_dispatch::FRESH_DISPATCH_VERSION,
        claim.dispatch_key == domain_key(scope_dir, first),
        key_fault(claim.dispatch_key) is None,
        any_active(mux, seen, claim.scope_ids) == Ok::<bool, Fault>(true),
        first.workspace == second.workspace,
        first.label == second.label,
    ensures
        verdict(claims, mux, seen, domain_key(scope_dir, second)) == Verdict::Taken(claim),
{
    lemma_rewording_keeps_key(scope_dir, first, second);
    crate::fresh_dispatch::lemma_registered_claim_is_found(claims, before, claim);
}

/// Work that ended blocks nothing: where the record of every scope of a claim says that
/// its work ended, the same work can be asked for again.
pub proof fn lemma_ended_work_is_free(
    claims: FreshDispatchClaims,
    mux: WorkspaceMux,
    seen: Seq<Slot<LifecycleSeen>>,
    key: Seq<char>,
)
    requires
        claims.existing(key) is Ok,
        claims.existing(key)->Ok_0 is Some ==> forall|i: int|
            0 <= i < claims.existing(key)->Ok_0->0.scope_ids.len() ==> {
                &&& slot_value(
                    seen,
                    #[trigger] claims.existing(key)->Ok_0->0.scope_ids[i],
                ) matches Some(LifecycleSeen::Found(l))
                &&& l.terminal_state is Some
            },
    ensures
        verdict(claims, mux, seen, key) is Free,
{
    if claims.existing(key)->Ok_0 is Some {
        lemma_none_active(mux, seen, claims.existing(key)->Ok_0->0.scope_ids);
    }
}

proof fn lemma_none_active(mux: WorkspaceMux, seen: Seq<Slot<LifecycleSeen>>, ids: Seq<Seq<char>>)
    requires
        forall|i: int|
            0 <= i < ids.len() ==> {
                &&& slot_value(seen, #[trigger] ids[i]) matches Some(LifecycleSeen::Found(l))
                &&& l.terminal_state is Some
            },
    ensures
        any_active(mux, seen, ids) == Ok::<bool, Fault>(false),
    decreases ids.len(),
{
    if ids.len() > 0 {
        assert(ids[0] == ids[0]);
        lemma_none_active(mux, seen, ids.drop_first());
    }
}

} // verus!
