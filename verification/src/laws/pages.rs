//! What holds of the reading of a page.
use crate::json::{lemma_held_value_is_read, lemma_read_value_is_held, object_holds, JsonModel};
use crate::orca::{reason_of, ui_condition, valid_reset, ChatgptRateLimitReason, ChatgptUiCondition};
use vstd::prelude::*;

verus! {

/// A snapshot says that something is the case.
pub open spec fn says(v: JsonModel, key: Seq<char>) -> bool {
    object_holds(v, key, JsonModel::Bool(true))
}

/// A snapshot names a reason for a rate limit.
pub open spec fn names_reason(v: JsonModel, name: Seq<char>) -> bool {
    object_holds(v, "rate_limit_reason"@, JsonModel::Text(name))
}

/// A snapshot is classified right: a login that is needed comes first, a rate limit next, a failed
/// delivery next, an answer under way next; a page is healthy only where it says that it is ready
/// and none of the four is the case.
pub open spec fn is_right_condition(v: JsonModel, c: ChatgptUiCondition) -> bool {
    let login = says(v, "authentication_required"@);
    let limited = says(v, "rate_limited"@);
    let failed = says(v, "delivery_error"@);
    let busy = says(v, "generating"@);
    let ready = says(v, "ready"@);
    &&& c is AuthenticationRequired <==> login
    &&& c is RateLimited ==> limited && !login
    &&& c is Healthy <==> ready && !login && !limited && !failed && !busy
    &&& c is DeliveryError <==> failed && !login && !limited
    &&& c is DeliveryError ==> (c->recoverable <==> says(v, "delivery_recoverable"@))
    &&& c is Generating <==> busy && !login && !limited && !failed
    &&& c !is Unsupported
    &&& limited && !login ==> {
        &&& names_reason(v, "usage_limit"@) ==> c is RateLimited && c->reason is UsageLimit
        &&& names_reason(v, "too_many_requests"@) ==> c is RateLimited
            && c->reason is TooManyRequests
        &&& names_reason(v, "capacity"@) ==> c is RateLimited && c->reason is Capacity
        &&& names_reason(v, "model_quota"@) ==> c is RateLimited && c->reason is ModelQuota
        &&& c is RateLimited ==> {
            ||| names_reason(v, "usage_limit"@)
            ||| names_reason(v, "too_many_requests"@)
            ||| names_reason(v, "capacity"@)
            ||| names_reason(v, "model_quota"@)
        }
    }
    &&& c is RateLimited ==> forall|s: u64| #[trigger]
        object_holds(v, "reset_after_seconds"@, JsonModel::Unsigned(s)) ==> c->reset_after_seconds
            == (if 1 <= s <= 2_678_400 {
            Some(s)
        } else {
            None
        })
    &&& (c is RateLimited && c->reset_after_seconds is Some) ==> object_holds(
        v,
        "reset_after_seconds"@,
        JsonModel::Unsigned(c->reset_after_seconds->0),
    )
}

/// Every snapshot is classified by what it says, in the order of what is worse.
pub proof fn lemma_snapshots_are_classified_by_what_they_say(v: JsonModel)
    ensures
        is_right_condition(v, ui_condition(v)),
{
    let c = ui_condition(v);
    lemma_says(v, "authentication_required"@);
    lemma_says(v, "rate_limited"@);
    lemma_says(v, "delivery_error"@);
    lemma_says(v, "delivery_recoverable"@);
    lemma_says(v, "generating"@);
    lemma_says(v, "ready"@);
    lemma_read_value_is_held(v, "rate_limit_reason"@);
    lemma_read_value_is_held(v, "reset_after_seconds"@);
    assert forall|s: u64| #[trigger]
        object_holds(v, "reset_after_seconds"@, JsonModel::Unsigned(s)) implies v.field(
        "reset_after_seconds"@,
    ) == Some(JsonModel::Unsigned(s)) by {
        lemma_held_value_is_read(v, "reset_after_seconds"@, JsonModel::Unsigned(s));
    }
    lemma_reasons_are_read(v, "usage_limit"@);
    lemma_reasons_are_read(v, "too_many_requests"@);
    lemma_reasons_are_read(v, "capacity"@);
    lemma_reasons_are_read(v, "model_quota"@);
    lemma_reasons_have_names();
}

proof fn lemma_says(v: JsonModel, key: Seq<char>)
    ensures
        says(v, key) <==> v.field(key) == Some(JsonModel::Bool(true)),
{
    lemma_read_value_is_held(v, key);
    if says(v, key) {
        lemma_held_value_is_read(v, key, JsonModel::Bool(true));
    }
}

proof fn lemma_reasons_are_read(v: JsonModel, name: Seq<char>)
    ensures
        names_reason(v, name) <==> v.field("rate_limit_reason"@) == Some(JsonModel::Text(name)),
{
    lemma_read_value_is_held(v, "rate_limit_reason"@);
    if names_reason(v, name) {
        lemma_held_value_is_read(v, "rate_limit_reason"@, JsonModel::Text(name));
    }
}

/// The four reasons for a rate limit go by four names, and no other name stands for one.
pub proof fn lemma_reasons_have_names()
    ensures
        reason_of("usage_limit"@) == Some(ChatgptRateLimitReason::UsageLimit),
        reason_of("too_many_requests"@) == Some(ChatgptRateLimitReason::TooManyRequests),
        reason_of("capacity"@) == Some(ChatgptRateLimitReason::Capacity),
        reason_of("model_quota"@) == Some(ChatgptRateLimitReason::ModelQuota),
        forall|name: Seq<char>| #[trigger]
            reason_of(name) is Some ==> name == "usage_limit"@ || name == "too_many_requests"@
                || name == "capacity"@ || name == "model_quota"@,
{
    reveal_strlit("usage_limit");
    reveal_strlit("too_many_requests");
    reveal_strlit("capacity");
    reveal_strlit("model_quota");
    assert("usage_limit"@.len() == 11 && "too_many_requests"@.len() == 17);
    assert("capacity"@.len() == 8 && "model_quota"@.len() == 11);
    assert("usage_limit"@[0] != "model_quota"@[0]);
}

/// A delay counts up to a month, and is then what it was.
pub proof fn lemma_delay_counts_up_to_a_month(seconds: u64)
    ensures
        1 <= seconds <= 31 * 24 * 60 * 60 ==> valid_reset(seconds) == Some(seconds),
        seconds == 0 || seconds > 31 * 24 * 60 * 60 ==> valid_reset(seconds) is None,
{
}

} // verus!
