//! Claims on fresh work: one owner at a time for each piece.
use crate::error::{BridgeError, ErrorKind, Fault};
use crate::outside::{is_uuid, uuid_accepts};
use crate::paths::{join_path, joined_path};
use crate::shelf::{find_slot, put_slot, slot_put, slot_value, Slot};
use crate::text::{chars_of, copy_strings, decimal, decimal_of, holds, is_hex_char, is_hex_digit,
    push_text, texts};
use vstd::prelude::*;

verus! {

pub const FRESH_DISPATCH_VERSION: u32 = 1;

/// A claim on a piece of fresh work.
#[derive(Debug)]
pub struct FreshDispatchClaim {
    pub version: u32,
    pub dispatch_key: String,
    pub created_ms: u64,
    pub updated_ms: u64,
    pub scope_ids: Vec<String>,
}

/// The mathematical value of a [`FreshDispatchClaim`].
#[verifier::ext_equal]
pub struct ClaimModel {
    pub version: u32,
    pub dispatch_key: Seq<char>,
    pub created_ms: u64,
    pub updated_ms: u64,
    pub scope_ids: Seq<Seq<char>>,
}

impl View for FreshDispatchClaim {
    type V = ClaimModel;

    open spec fn view(&self) -> ClaimModel {
        ClaimModel {
            version: self.version,
            dispatch_key: self.dispatch_key@,
            created_ms: self.created_ms,
            updated_ms: self.updated_ms,
            scope_ids: texts(self.scope_ids@),
        }
    }
}

impl FreshDispatchClaim {
    /// A claim with the same value.
    pub fn copy(&self) -> (r: Self)
        ensures
            r@ == self@,
    {
        FreshDispatchClaim {
            version: self.version,
            dispatch_key: self.dispatch_key.clone(),
            created_ms: self.created_ms,
            updated_ms: self.updated_ms,
            scope_ids: copy_strings(&self.scope_ids),
        }
    }
}

impl ClaimModel {
    /// A claim that was just made.
    pub open spec fn fresh(dispatch_key: Seq<char>, now_ms: u64) -> ClaimModel {
        ClaimModel {
            version: FRESH_DISPATCH_VERSION,
            dispatch_key,
            created_ms: now_ms,
            updated_ms: now_ms,
            scope_ids: Seq::empty(),
        }
    }

    /// The claim with a scope in which the work goes on.
    pub open spec fn with_scope(self, scope_id: Seq<char>, now_ms: u64) -> ClaimModel {
        if self.scope_ids.contains(scope_id) {
            self
        } else {
            ClaimModel {
                scope_ids: self.scope_ids.push(scope_id),
                updated_ms: now_ms,
                ..self
            }
        }
    }
}

/// What the file of a claim holds.
#[derive(Debug)]
pub enum ClaimContent {
    /// The file cannot be read, for this reason.
    Unreadable(String),
    /// The file holds no claim, for this reason.
    Malformed(String),
    Parsed(FreshDispatchClaim),
}

/// Who owns a piece of work after somebody asked for it.
#[derive(Debug)]
pub enum FreshDispatchDecision {
    Acquired(FreshDispatchClaimGuard),
    Duplicate(FreshDispatchClaim),
}

/// The ownership of a piece of work.
#[derive(Debug)]
pub struct FreshDispatchClaimGuard {
    pub claim: FreshDispatchClaim,
}

/// The claims of a bridge, over what their directory holds.
#[derive(Debug)]
pub struct FreshDispatchClaims {
    pub dir: String,
    pub files: Vec<Slot<ClaimContent>>,
}

/// 64 hexadecimal digits.
pub open spec fn is_dispatch_key(key: Seq<char>) -> bool {
    &&& key.len() == 64
    &&& forall|i: int| 0 <= i < 64 ==> is_hex_digit(#[trigger] key[i])
}

pub open spec fn key_fault(key: Seq<char>) -> Option<Fault> {
    if is_dispatch_key(key) {
        None
    } else {
        Some(Fault { kind: ErrorKind::Security, detail: "invalid fresh dispatch key"@ })
    }
}

/// Whether a text can name a piece of work.
pub fn validate_dispatch_key(key: &str) -> (r: Result<(), BridgeError>)
    ensures
        match r {
            Ok(_) => key_fault(key@) is None,
            Err(e) => key_fault(key@) == Some(e@),
        },
{
    let v = chars_of(key);
    let mut ok = v.len() == 64;
    let mut i: usize = 0;
    while ok && i < v.len()
        invariant
            i <= v@.len(),
            v@ == key@,
            ok ==> v@.len() == 64,
            ok ==> forall|j: int| 0 <= j < i ==> is_hex_digit(#[trigger] v@[j]),
            !ok ==> !is_dispatch_key(key@),
        decreases v@.len() - i + (if ok { 1int } else { 0int }),
    {
        if is_hex_char(v[i]) {
            i += 1;
        } else {
            assert(!is_hex_digit(key@[i as int]));
            ok = false;
        }
    }
    if ok {
        Ok(())
    } else {
        Err(BridgeError::Security("invalid fresh dispatch key".to_owned()))
    }
}

/// The claim that a file holds, if it holds a sound one.
pub open spec fn content_claim(content: ClaimContent) -> Result<ClaimModel, Fault> {
    match content {
        ClaimContent::Unreadable(m) => Err(Fault { kind: ErrorKind::Io, detail: m@ }),
        ClaimContent::Malformed(m) => Err(Fault { kind: ErrorKind::Serialization, detail: m@ }),
        ClaimContent::Parsed(c) => if c.version != FRESH_DISPATCH_VERSION {
            Err(
                Fault {
                    kind: ErrorKind::Precondition,
                    detail: "unsupported fresh dispatch claim version "@ + decimal(c.version as nat),
                },
            )
        } else {
            match key_fault(c.dispatch_key@) {
                Some(f) => Err(f),
                None => Ok(c@),
            }
        },
    }
}

/// What claiming a piece of work returns and leaves behind.
pub open spec fn claim_outcome(
    before: FreshDispatchClaims,
    after: FreshDispatchClaims,
    key: Seq<char>,
    now_ms: u64,
    active: Result<bool, BridgeError>,
    r: Result<FreshDispatchDecision, BridgeError>,
) -> bool {
    let present = before.existing(key);
    match r {
        Ok(FreshDispatchDecision::Duplicate(c)) => {
            &&& after == before
            &&& key_fault(key) is None
            &&& present == Ok::<Option<ClaimModel>, Fault>(Some(c@))
            &&& active matches Ok(true)
        },
        Ok(FreshDispatchDecision::Acquired(g)) => {
            &&& key_fault(key) is None
            &&& present is Ok
            &&& present->Ok_0 is None || (active matches Ok(false))
            &&& g.claim@ == ClaimModel::fresh(key, now_ms)
            &&& after.wrote(before, g.claim@)
        },
        Err(e) => {
            &&& after == before
            &&& if key_fault(key) is Some {
                key_fault(key) == Some(e@)
            } else if present is Err {
                present == Err::<Option<ClaimModel>, Fault>(e@)
            } else {
                present->Ok_0 is Some && active is Err && e == active->Err_0
            }
        },
    }
}

impl FreshDispatchClaims {
    /// The claim on a piece of work, if there is one.
    pub open spec fn existing(self, key: Seq<char>) -> Result<Option<ClaimModel>, Fault> {
        match slot_value(self.files@, key + ".json"@) {
            None => Ok(None),
            Some(content) => match content_claim(content) {
                Ok(c) => Ok(Some(c)),
                Err(f) => Err(f),
            },
        }
    }

    /// `self` is `before` with a claim written.
    pub open spec fn wrote(self, before: FreshDispatchClaims, claim: ClaimModel) -> bool {
        let name = claim.dispatch_key + ".json"@;
        &&& self.dir == before.dir
        &&& slot_value(self.files@, name) matches Some(content)
        &&& slot_put(before.files@, self.files@, name, content)
        &&& (content matches ClaimContent::Parsed(c) && c@ == claim)
        &&& forall|n: Seq<char>|
            n != name ==> #[trigger] slot_value(self.files@, n) == slot_value(before.files@, n)
    }

    /// The claims of a bridge whose directory holds none.
    pub fn new(bridge_dir: &str) -> (r: Self)
        ensures
            r.dir@ == joined_path(bridge_dir@, "fresh-dispatch"@),
            r.files@.len() == 0,
    {
        FreshDispatchClaims { dir: join_path(bridge_dir, "fresh-dispatch"), files: Vec::new() }
    }

    /// Where the claim on a piece of work is kept.
    pub fn claim_path(&self, key: &str) -> (r: String)
        ensures
            r@ == joined_path(self.dir@, key@ + ".json"@),
    {
        join_path(self.dir.as_str(), key.to_owned().concat(".json").as_str())
    }

    /// Where the lock on a piece of work is kept.
    pub fn lock_path(&self, key: &str) -> (r: String)
        ensures
            r@ == joined_path(self.dir@, key@ + ".lock"@),
    {
        join_path(self.dir.as_str(), key.to_owned().concat(".lock").as_str())
    }

    /// The claim on a piece of work, if there is one.
    pub fn load_claim(&self, key: &str) -> (r: Result<Option<FreshDispatchClaim>, BridgeError>)
        ensures
            match r {
                Ok(Some(c)) => self.existing(key@) == Ok::<Option<ClaimModel>, Fault>(Some(c@)),
                Ok(None) => self.existing(key@) == Ok::<Option<ClaimModel>, Fault>(None),
                Err(e) => self.existing(key@) == Err::<Option<ClaimModel>, Fault>(e@),
            },
    {
        let name = key.to_owned().concat(".json");
        let i = find_slot(&self.files, name.as_str());
        if i == self.files.len() {
            return Ok(None);
        }
        match &self.files[i].value {
            ClaimContent::Unreadable(m) => Err(BridgeError::Io(m.clone())),
            ClaimContent::Malformed(m) => Err(BridgeError::Serialization(m.clone())),
            ClaimContent::Parsed(c) => {
                if c.version != FRESH_DISPATCH_VERSION {
                    return Err(
                        BridgeError::Precondition(
                            "unsupported fresh dispatch claim version ".to_owned().concat(
                                decimal_of(c.version as u64).as_str(),
                            ),
                        ),
                    );
                }
                if let Err(e) = validate_dispatch_key(c.dispatch_key.as_str()) {
                    return Err(e);
                }
                Ok(Some(c.copy()))
            },
        }
    }

    fn write_claim(&mut self, claim: &FreshDispatchClaim)
        ensures
            final(self).wrote(*old(self), claim@),
    {
        let name = claim.dispatch_key.clone().concat(".json");
        let copy = claim.copy();
        put_slot(&mut self.files, name.as_str(), ClaimContent::Parsed(copy));
    }

    /// Claims a piece of work. `active` says whether the work of the present claim goes
    /// on; it counts only where there is a claim. A claim whose work goes on stays as it
    /// is, and any other is replaced.
    pub fn claim(&mut self, dispatch_key: &str, now_ms: u64, active: Result<bool, BridgeError>) -> (r:
        Result<FreshDispatchDecision, BridgeError>)
        ensures
            claim_outcome(*old(self), *final(self), dispatch_key@, now_ms, active, r),
    {
        if let Err(e) = validate_dispatch_key(dispatch_key) {
            return Err(e);
        }
        match self.load_claim(dispatch_key) {
            Err(e) => {
                return Err(e);
            },
            Ok(None) => {},
            Ok(Some(existing)) => match active {
                Err(e) => {
                    return Err(e);
                },
                Ok(true) => {
                    return Ok(FreshDispatchDecision::Duplicate(existing));
                },
                Ok(false) => {},
            },
        }
        let claim = FreshDispatchClaim {
            version: FRESH_DISPATCH_VERSION,
            dispatch_key: dispatch_key.to_owned(),
            created_ms: now_ms,
            updated_ms: now_ms,
            scope_ids: Vec::new(),
        };
        assert(claim@ =~= ClaimModel::fresh(dispatch_key@, now_ms));
        self.write_claim(&claim);
        Ok(FreshDispatchDecision::Acquired(FreshDispatchClaimGuard { claim }))
    }
}

impl FreshDispatchClaimGuard {
    /// Notes a scope in which the work goes on; one that is noted already changes
    /// nothing.
    pub fn register_scope(&mut self, claims: &mut FreshDispatchClaims, scope_id: &str, now_ms: u64)
        -> (r: Result<(), BridgeError>)
        ensures
            match r {
                Ok(_) => {
                    &&& is_uuid(scope_id@)
                    &&& final(self).claim@ == old(self).claim@.with_scope(scope_id@, now_ms)
                    &&& if old(self).claim@.scope_ids.contains(scope_id@) {
                        *final(claims) == *old(claims)
                    } else {
                        final(claims).wrote(*old(claims), final(self).claim@)
                    }
                },
                Err(e) => {
                    &&& !is_uuid(scope_id@)
                    &&& *final(self) == *old(self)
                    &&& *final(claims) == *old(claims)
                    &&& e is Security
                    &&& e.detail() == "invalid scope id for fresh dispatch claim"@
                },
            },
    {
        if !uuid_accepts(scope_id) {
            return Err(
                BridgeError::Security("invalid scope id for fresh dispatch claim".to_owned()),
            );
        }
        if !holds(&self.claim.scope_ids, scope_id) {
            push_text(&mut self.claim.scope_ids, scope_id);
            self.claim.updated_ms = now_ms;
            assert(self.claim@ =~= old(self).claim@.with_scope(scope_id@, now_ms));
            claims.write_claim(&self.claim);
        }
        Ok(())
    }
}

/// Once a piece of work is claimed and a scope is noted for it, whoever asks for it next
/// finds that claim with that scope, as long as no other claim on it is written.
pub proof fn lemma_registered_claim_is_found(
    claims: FreshDispatchClaims,
    before: FreshDispatchClaims,
    claim: ClaimModel,
)
    requires
        claims.wrote(before, claim),
        claim.version == FRESH_DISPATCH_VERSION,
        is_dispatch_key(claim.dispatch_key),
    ensures
        claims.existing(claim.dispatch_key) == Ok::<Option<ClaimModel>, Fault>(Some(claim)),
{
}

/// A piece of work has one owner: while the work of whoever claimed it goes on, whoever
/// claims it next is told of that claim, and nothing changes.
pub proof fn lemma_work_has_one_owner(
    before: FreshDispatchClaims,
    between: FreshDispatchClaims,
    after: FreshDispatchClaims,
    key: Seq<char>,
    first_ms: u64,
    second_ms: u64,
    first_active: Result<bool, BridgeError>,
    first: Result<FreshDispatchDecision, BridgeError>,
    second: Result<FreshDispatchDecision, BridgeError>,
)
    requires
        claim_outcome(before, between, key, first_ms, first_active, first),
        first matches Ok(FreshDispatchDecision::Acquired(_)),
        claim_outcome(between, after, key, second_ms, Ok(true), second),
    ensures
        second matches Ok(FreshDispatchDecision::Duplicate(c)) && c@
            == first->Ok_0->Acquired_0.claim@,
        after == between,
{
    lemma_registered_claim_is_found(between, before, first->Ok_0->Acquired_0.claim@);
}

} // verus!
