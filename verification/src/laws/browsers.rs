//! What holds of the browsers of the accounts: which one serves an account, what its pages show, and how
//! it is started, reached and judged.
use crate::accounts::{account_position, AccountConfig, AccountsConfig};
use crate::browser_pool::{binding_target_fault, cdp_resource, chatgpt_position, driver_for,
    driver_of_account, eval_meaning, evaluate_message, first_executable, health_json, health_step,
    identity_fault, inspected_condition, inspection, instance_step, is_definitive_failure,
    is_live_account, isolation_holds, launch_args, launch_fault, live_profiles, login_name,
    login_of, open_next, profile_of_account, reachability_name, rebased_socket, remote_value,
    retry_next, socket_fault, socket_scheme, target_fault, target_position, texts_among,
    BrowserLaunchMode, BrowserLoginState, BrowserReachability, BrowserTarget, CdpTarget, EvalModel,
    ExecutableCandidate, HealthModel, HealthSeen, HealthStepModel, InstanceSeen, InstanceStepModel,
    OpenModel, OpenSeen, RetryModel, RetrySeen};
use crate::json::{lemma_first_field_is_held, lemma_held_value_is_read,
    lemma_lacking_value_is_not_read, lemma_read_value_is_held, object_holds, object_lacks,
    JsonModel};
use crate::laws::delegation::went_well;
use crate::laws::pages::{lemma_reasons_have_names, says};
use crate::orca::{driver_key, ChatgptUiCondition, DriverModel};
use crate::outside::{is_loopback_host, parsed_url, url_with_host, url_with_path, url_with_port,
    url_with_query, url_with_scheme, url_without_fragment};
use crate::paths::{joined_path, same_path};
use crate::security::workspace::BindingModel;
use crate::text::{ascii_lower, contains_text, decimal, has_prefix, occurs_at};
use vstd::prelude::*;

verus! {

proof fn lemma_says_is_read(v: JsonModel, key: Seq<char>)
    ensures
        says(v, key) <==> v.field(key) == Some(JsonModel::Bool(true)),
{
    lemma_read_value_is_held(v, key);
    if says(v, key) {
        lemma_held_value_is_read(v, key, JsonModel::Bool(true));
    }
}

/// An inspected page shows a rate limit where it names a reason, then a login that is needed, then a
/// failed delivery, then an answer under way, and is healthy only where none of these is the case and
/// its prompt box shows.
pub proof fn lemma_inspected_pages_are_classified(v: JsonModel, reason: Seq<char>, seconds: u64)
    ensures
        ({
            let c = inspected_condition(v);
            let login = says(v, "authentication_required"@);
            let failed = says(v, "delivery_error"@);
            let busy = says(v, "generating"@);
            &&& object_holds(v, "rate_limit_reason"@, JsonModel::Text(reason)) ==> {
                &&& c is RateLimited
                &&& reason == "usage_limit"@ ==> c->reason is UsageLimit
                &&& reason == "too_many_requests"@ ==> c->reason is TooManyRequests
                &&& reason == "capacity"@ ==> c->reason is Capacity
                &&& reason == "model_quota"@ ==> c->reason is ModelQuota
                &&& object_holds(v, "reset_after_seconds"@, JsonModel::Unsigned(seconds))
                    ==> c->reset_after_seconds == Some(seconds)
                &&& object_lacks(v, "reset_after_seconds"@) ==> c->reset_after_seconds is None
            }
            &&& object_lacks(v, "rate_limit_reason"@) ==> {
                &&& c is AuthenticationRequired <==> login
                &&& c is DeliveryError <==> failed && !login
                &&& c is DeliveryError ==> c->recoverable
                &&& c is Generating <==> busy && !login && !failed
                &&& c is Healthy <==> says(v, "composer_visible"@) && !login && !failed && !busy
                &&& c !is RateLimited
            }
        }),
{
    lemma_says_is_read(v, "authentication_required"@);
    lemma_says_is_read(v, "delivery_error"@);
    lemma_says_is_read(v, "generating"@);
    lemma_says_is_read(v, "composer_visible"@);
    lemma_reasons_have_names();
    if object_holds(v, "rate_limit_reason"@, JsonModel::Text(reason)) {
        lemma_held_value_is_read(v, "rate_limit_reason"@, JsonModel::Text(reason));
    }
    if object_lacks(v, "rate_limit_reason"@) {
        lemma_lacking_value_is_not_read(v, "rate_limit_reason"@);
    }
    if object_holds(v, "reset_after_seconds"@, JsonModel::Unsigned(seconds)) {
        lemma_held_value_is_read(v, "reset_after_seconds"@, JsonModel::Unsigned(seconds));
    }
    if object_lacks(v, "reset_after_seconds"@) {
        lemma_lacking_value_is_not_read(v, "reset_after_seconds"@);
    }
}

/// What an inspection tells is what the page said.
pub proof fn lemma_inspection_tells_what_the_page_said(
    v: JsonModel,
    t: Seq<char>,
    n: u64,
    list: Seq<JsonModel>,
)
    ensures
        ({
            let r = inspection(v);
            &&& r.condition == inspected_condition(v)
            &&& r.generating <==> says(v, "generating"@)
            &&& r.composer_visible <==> says(v, "composer_visible"@)
            &&& r.composer_disabled <==> says(v, "composer_disabled"@)
            &&& object_holds(v, "url"@, JsonModel::Text(t)) ==> r.url == t
            &&& object_holds(v, "title"@, JsonModel::Text(t)) ==> r.title == t
            &&& object_holds(v, "last_turn_role"@, JsonModel::Text(t)) ==> r.last_turn_role == Some(t)
            &&& object_holds(v, "last_turn_text"@, JsonModel::Text(t)) ==> r.last_turn_text == Some(t)
            &&& object_holds(v, "rate_limit_reason"@, JsonModel::Text(t)) ==> r.rate_limit_reason
                == Some(t)
            &&& object_holds(v, "turn_count"@, JsonModel::Unsigned(n)) && n <= usize::MAX
                ==> r.turn_count == n
            &&& object_lacks(v, "turn_count"@) ==> r.turn_count == 0
            &&& object_holds(v, "alerts"@, JsonModel::Array(list)) ==> r.alerts == texts_among(list)
            &&& object_lacks(v, "alerts"@) ==> r.alerts.len() == 0
            &&& object_lacks(v, "last_turn_text"@) ==> r.last_turn_text is None
        }),
{
    lemma_says_is_read(v, "generating"@);
    lemma_says_is_read(v, "composer_visible"@);
    lemma_says_is_read(v, "composer_disabled"@);
    lemma_text_is_read(v, "url"@, t);
    lemma_text_is_read(v, "title"@, t);
    lemma_text_is_read(v, "last_turn_role"@, t);
    lemma_text_is_read(v, "last_turn_text"@, t);
    lemma_text_is_read(v, "rate_limit_reason"@, t);
    if object_holds(v, "turn_count"@, JsonModel::Unsigned(n)) {
        lemma_held_value_is_read(v, "turn_count"@, JsonModel::Unsigned(n));
    }
    if object_lacks(v, "turn_count"@) {
        lemma_lacking_value_is_not_read(v, "turn_count"@);
    }
    if object_holds(v, "alerts"@, JsonModel::Array(list)) {
        lemma_held_value_is_read(v, "alerts"@, JsonModel::Array(list));
    }
    if object_lacks(v, "alerts"@) {
        lemma_lacking_value_is_not_read(v, "alerts"@);
    }
    if object_lacks(v, "last_turn_text"@) {
        lemma_lacking_value_is_not_read(v, "last_turn_text"@);
    }
}

proof fn lemma_text_is_read(v: JsonModel, key: Seq<char>, t: Seq<char>)
    ensures
        object_holds(v, key, JsonModel::Text(t)) ==> v.field(key) == Some(JsonModel::Text(t)),
{
    if object_holds(v, key, JsonModel::Text(t)) {
        lemma_held_value_is_read(v, key, JsonModel::Text(t));
    }
}

/// The texts among some values are all of them, in their order.
pub proof fn lemma_texts_among_values(list: Seq<JsonModel>, last: JsonModel)
    ensures
        texts_among(Seq::empty()) == Seq::<Seq<char>>::empty(),
        last matches JsonModel::Text(t) ==> texts_among(list.push(last)) == texts_among(list).push(t),
        last !is Text ==> texts_among(list.push(last)) == texts_among(list),
{
    assert(list.push(last).drop_last() =~= list);
}

/// A page tells whether its account is logged in only where it asks for a login or works.
pub proof fn lemma_login_that_a_page_tells(c: ChatgptUiCondition)
    ensures
        login_of(c) is AuthenticationRequired <==> c is AuthenticationRequired,
        login_of(c) is Ready <==> c is Healthy || c is Generating,
{
}

/// The page that is looked at is the first on the ChatGPT site; a page is found by its id.
pub proof fn lemma_page_that_is_looked_at(v: Seq<CdpTarget>, id: Seq<char>)
    ensures
        ({
            let i = chatgpt_position(v);
            &&& 0 <= i <= v.len()
            &&& i < v.len() ==> has_prefix(v[i].url@, "https://chatgpt.com"@)
            &&& forall|j: int| 0 <= j < i ==> !has_prefix((#[trigger] v[j]).url@, "https://chatgpt.com"@)
        }),
        ({
            let i = target_position(v, id);
            &&& 0 <= i <= v.len()
            &&& i < v.len() ==> v[i].id@ == id
            &&& forall|j: int| 0 <= j < i ==> (#[trigger] v[j]).id@ != id
        }),
    decreases v.len(),
{
    if v.len() > 0 {
        let t = v.drop_first();
        lemma_page_that_is_looked_at(t, id);
        assert forall|j: int| 0 <= j < chatgpt_position(v) implies !has_prefix(
            (#[trigger] v[j]).url@,
            "https://chatgpt.com"@,
        ) by {
            if j > 0 {
                assert(t[j - 1] == v[j]);
            }
        }
        assert forall|j: int| 0 <= j < target_position(v, id) implies (#[trigger] v[j]).id@ != id by {
            if j > 0 {
                assert(t[j - 1] == v[j]);
            }
        }
        if chatgpt_position(v) > 0 && chatgpt_position(t) < t.len() {
            assert(v[chatgpt_position(t) + 1] == t[chatgpt_position(t)]);
        }
        if target_position(v, id) > 0 && target_position(t, id) < t.len() {
            assert(v[target_position(t, id) + 1] == t[target_position(t, id)]);
        }
    }
}

/// The health of a browser behind an endpoint is found out in this order: its profile is leased, it is
/// reached, its pages are listed, and the first page on the site is looked at. The report is on the
/// account, and calls for a login exactly where that page does.
pub proof fn lemma_health_is_found_out_in_order(
    account_id: Seq<char>,
    seen: HealthSeen,
    target: BrowserTarget,
)
    requires
        seen.target is Some,
        seen.target->0 is Ok,
        seen.target->0->Ok_0 == target,
        target.cdp_endpoint is Some,
    ensures
        ({
            let step = health_step(account_id, seen);
            let listed = went_well(seen.lease) && went_well(seen.reachable) && went_well(
                seen.targets,
            );
            let pages = seen.targets->0->Ok_0@;
            let at = chatgpt_position(pages);
            &&& step is TakeLease <==> seen.lease is None
            &&& step is Reach <==> went_well(seen.lease) && seen.reachable is None
            &&& step is ListTargets <==> went_well(seen.lease) && went_well(seen.reachable)
                && seen.targets is None
            &&& step is Probe <==> listed && at != pages.len() && seen.condition is None
            &&& step matches HealthStepModel::Probe(p) ==> p == pages[at].id@
            &&& step matches HealthStepModel::Report(h) ==> {
                &&& h.account_id == target.account_id@
                &&& h.instance == target.instance@
                &&& h.driver == Some(target.driver)
                &&& h.reachability is Reachable <==> went_well(seen.lease) && went_well(seen.reachable)
                &&& h.login_required <==> h.login_state is AuthenticationRequired
                &&& h.login_state !is Unknown ==> listed && at != pages.len() && seen.condition is Some
                    && h.login_state == login_of(seen.condition->0)
                &&& listed && at != pages.len() && seen.condition is Some ==> h.login_state
                    == login_of(seen.condition->0) && h.detail is None
            }
        }),
{
}

/// Without an endpoint only the driver is asked, and nothing is known of the login.
pub proof fn lemma_health_without_an_endpoint(
    account_id: Seq<char>,
    seen: HealthSeen,
    target: BrowserTarget,
)
    requires
        seen.target is Some,
        seen.target->0 is Ok,
        seen.target->0->Ok_0 == target,
        target.cdp_endpoint is None,
    ensures
        ({
            let step = health_step(account_id, seen);
            &&& step is DetectDriver <==> seen.driver is None
            &&& step matches HealthStepModel::Report(h) ==> {
                &&& h.reachability is Reachable <==> went_well(seen.driver)
                &&& h.login_state is Unknown && !h.login_required
                &&& h.account_id == target.account_id@
            }
        }),
{
}

/// An account has a browser for work where it is configured and, for new work, enabled and not
/// draining.
pub proof fn lemma_accounts_with_a_browser(
    config: AccountsConfig,
    account_id: Seq<char>,
    allow_disabled: bool,
)
    ensures
        ({
            let at = account_position(config.accounts@, account_id);
            target_fault(config, account_id, allow_disabled) is None <==> at
                != config.accounts@.len() && (allow_disabled || (config.accounts@[at].enabled
                && !config.accounts@[at].draining))
        }),
{
}

/// The browser of an account is the one that it is configured with: its driver or Chrome, and its own
/// profile; the old account has one below the bridge's directory where the bridge starts it.
pub proof fn lemma_browser_of_an_account(
    account: AccountConfig,
    bridge_dir: Seq<char>,
    launch_mode: BrowserLaunchMode,
)
    ensures
        account.browser.driver matches Some(d) ==> driver_of_account(account) == d,
        account.browser.driver is None ==> driver_of_account(account) is Chrome,
        account.browser.user_data_dir matches Some(p) ==> profile_of_account(
            account,
            bridge_dir,
            launch_mode,
        ) == Some(p@),
        (account.browser.user_data_dir is None && account.id@ != crate::accounts::LEGACY_ACCOUNT_ID@)
            ==> profile_of_account(account, bridge_dir, launch_mode) is None,
        (account.browser.user_data_dir is None && launch_mode is AttachOnly) ==> profile_of_account(
            account,
            bridge_dir,
            launch_mode,
        ) is None,
        (account.browser.user_data_dir is None && account.id@ == crate::accounts::LEGACY_ACCOUNT_ID@
            && account.browser.driver is None && launch_mode is ManagedLocal) ==> profile_of_account(
            account,
            bridge_dir,
            launch_mode,
        ) == Some(joined_path(bridge_dir, "browser-profiles/default"@)),
{
}

/// The browser that a scope is bound to is still its account's: the account is configured, with the same
/// instance and driver.
pub proof fn lemma_bindings_that_still_hold(config: AccountsConfig, binding: BindingModel)
    ensures
        ({
            let at = account_position(config.accounts@, binding.account_id);
            binding_target_fault(config, binding) is None <==> at != config.accounts@.len()
                && config.accounts@[at].browser.instance@ == binding.instance && driver_of_account(
                config.accounts@[at],
            ) == binding.driver
        }),
{
}

/// The profiles that may be in use are those of the accounts that are enabled or drain.
pub proof fn lemma_profiles_in_use(accounts: Seq<AccountConfig>, a: AccountConfig)
    ensures
        live_profiles(Seq::empty()) == Seq::<Seq<char>>::empty(),
        ((a.enabled || a.draining) && a.browser.user_data_dir is Some) ==> live_profiles(
            accounts.push(a),
        ) == live_profiles(accounts).push(a.browser.user_data_dir->0@),
        (!(a.enabled || a.draining) || a.browser.user_data_dir is None) ==> live_profiles(
            accounts.push(a),
        ) == live_profiles(accounts),
{
    assert(accounts.push(a).drop_last() =~= accounts);
}

/// Two accounts that may run at once each need an endpoint and, where the bridge starts the browser, a
/// profile.
pub proof fn lemma_accounts_are_kept_apart(
    a: AccountConfig,
    b: AccountConfig,
    target: BrowserTarget,
)
    ensures
        (is_live_account(a) && is_live_account(b)) ==> (isolation_holds(seq![a, b], target) <==> {
            &&& target.cdp_endpoint is Some
            &&& target.launch_mode is ManagedLocal ==> target.user_data_dir is Some
        }),
        (!is_live_account(a) || !is_live_account(b)) ==> isolation_holds(seq![a, b], target),
        isolation_holds(seq![a], target),
        is_live_account(a) <==> a.enabled || a.draining,
{
    reveal(Seq::filter);
    let live = |x: AccountConfig| is_live_account(x);
    let two = seq![a, b];
    let one = seq![a];
    assert(two.drop_last() =~= one);
    assert(one.drop_last() =~= Seq::<AccountConfig>::empty());
    assert(Seq::<AccountConfig>::empty().filter(live).len() == 0);
    assert(one.last() == a && two.last() == b);
    assert(one.filter(live).len() == (if live(a) {
        1int
    } else {
        0
    }));
    assert(two.filter(live).len() == one.filter(live).len() + (if live(b) {
        1int
    } else {
        0
    }));
}

/// The driver command for a browser runs in its work tree, under its driver.
pub proof fn lemma_driver_of_a_browser(legacy: DriverModel, target: BrowserTarget)
    ensures
        driver_for(legacy, target).driver == Some(target.driver),
        driver_for(legacy, target).worktree == target.worktree@,
        driver_for(legacy, target).binary == legacy.binary,
        driver_for(legacy, target).resolved is None,
{
}

/// The socket of a page is one of the local machine.
pub proof fn lemma_sockets_that_are_accepted(url: Seq<char>, endpoint: Seq<char>, path: Seq<char>)
    ensures
        socket_fault(url) is None <==> {
            &&& parsed_url(url) is Ok
            &&& parsed_url(url)->Ok_0.scheme == "ws"@ || parsed_url(url)->Ok_0.scheme == "wss"@
            &&& is_loopback_host(parsed_url(url)->Ok_0)
        },
        rebased_socket(url, endpoint) is Ok ==> socket_fault(url) is None && parsed_url(endpoint) is Ok
            && (parsed_url(endpoint)->Ok_0.scheme == "http"@ || parsed_url(endpoint)->Ok_0.scheme
            == "https"@) && parsed_url(endpoint)->Ok_0.host is Some,
        cdp_resource(endpoint, path) is Ok ==> parsed_url(endpoint) is Ok && (parsed_url(
            endpoint,
        )->Ok_0.scheme == "http"@ || parsed_url(endpoint)->Ok_0.scheme == "https"@),
        socket_scheme("http"@) == "ws"@,
        socket_scheme("https"@) == "wss"@,
{
    reveal_strlit("http");
    reveal_strlit("https");
    assert("http"@.len() != "https"@.len());
}

/// A request carries the expression that it evaluates, whole, and asks for the value itself.
pub proof fn lemma_request_carries_the_expression(expression: Seq<char>)
    ensures
        ({
            let v = evaluate_message(expression);
            &&& object_holds(v, "id"@, JsonModel::Unsigned(1))
            &&& object_holds(v, "method"@, JsonModel::Text("Runtime.evaluate"@))
            &&& v.field2("params"@, "expression"@) == Some(JsonModel::Text(expression))
            &&& v.field2("params"@, "returnByValue"@) == Some(JsonModel::Bool(true))
            &&& v.field2("params"@, "awaitPromise"@) == Some(JsonModel::Bool(true))
            &&& v.field2("params"@, "userGesture"@) == Some(JsonModel::Bool(true))
        }),
{
    reveal_strlit("id");
    reveal_strlit("method");
    reveal_strlit("params");
    assert("id"@.len() == 2);
    assert("method"@.len() == 6);
    assert("params"@.len() == 6);
    assert("method"@[0] != "params"@[0]);
    reveal_strlit("expression");
    reveal_strlit("returnByValue");
    reveal_strlit("awaitPromise");
    reveal_strlit("userGesture");
    assert("expression"@.len() == 10);
    assert("returnByValue"@.len() == 13);
    assert("awaitPromise"@.len() == 12);
    assert("userGesture"@.len() == 11);
    let fields = evaluate_message(expression)->Object_0;
    assert(fields[0].0 == "id"@);
    assert(fields[1].0 == "method"@);
    lemma_first_field_is_held(fields, 0, "id"@, JsonModel::Unsigned(1));
    lemma_first_field_is_held(fields, 1, "method"@, JsonModel::Text("Runtime.evaluate"@));
    lemma_first_field_is_held(fields, 2, "params"@, fields[2].1);
    let params = fields[2].1->Object_0;
    assert(params[0].0 == "expression"@);
    assert(params[1].0 == "returnByValue"@);
    assert(params[2].0 == "awaitPromise"@);
    lemma_first_field_is_held(params, 0, "expression"@, JsonModel::Text(expression));
    lemma_first_field_is_held(params, 1, "returnByValue"@, JsonModel::Bool(true));
    lemma_first_field_is_held(params, 2, "awaitPromise"@, JsonModel::Bool(true));
    lemma_first_field_is_held(params, 3, "userGesture"@, JsonModel::Bool(true));
}

/// A message on a socket is the answer where it bears the number of the request; an error comes before
/// an exception, and that before the value, which is handed on as it is.
pub proof fn lemma_answers_are_told_apart(v: JsonModel, x: JsonModel)
    ensures
        ({
            let r = eval_meaning(v);
            let mine = object_holds(v, "id"@, JsonModel::Unsigned(1));
            &&& r is Unrelated <==> !mine
            &&& mine && object_holds(v, "error"@, x) ==> r == EvalModel::Failed(x)
            &&& mine && object_lacks(v, "error"@) && v.field2("result"@, "exceptionDetails"@) == Some(
                x,
            ) ==> r == EvalModel::Threw(x)
            &&& mine && object_lacks(v, "error"@) && v.field2("result"@, "exceptionDetails"@) is None
                && v.field2("result"@, "result"@) is None ==> r is NoResult
            &&& mine && object_lacks(v, "error"@) && v.field2("result"@, "exceptionDetails"@) is None
                && v.field2("result"@, "result"@) is Some && v.field3(
                "result"@,
                "result"@,
                "value"@,
            ) == Some(x) ==> r == EvalModel::Value(x)
        }),
        object_holds(v, "value"@, x) ==> remote_value(v) == x,
        object_lacks(v, "value"@) && object_lacks(v, "description"@) ==> remote_value(v) is Null,
{
    lemma_read_value_is_held(v, "id"@);
    if object_holds(v, "id"@, JsonModel::Unsigned(1)) {
        lemma_held_value_is_read(v, "id"@, JsonModel::Unsigned(1));
    }
    if object_holds(v, "error"@, x) {
        lemma_held_value_is_read(v, "error"@, x);
    }
    if object_lacks(v, "error"@) {
        lemma_lacking_value_is_not_read(v, "error"@);
    }
    if object_holds(v, "value"@, x) {
        lemma_held_value_is_read(v, "value"@, x);
    }
    if object_lacks(v, "value"@) {
        lemma_lacking_value_is_not_read(v, "value"@);
    }
    if object_lacks(v, "description"@) {
        lemma_lacking_value_is_not_read(v, "description"@);
    }
}

/// A browser is the one of a profile exactly where it reports that profile.
pub proof fn lemma_browser_serves_its_profile(
    version: JsonModel,
    profile: Seq<char>,
    reported: Seq<char>,
)
    ensures
        object_holds(version, "userDataDir"@, JsonModel::Text(reported)) ==> (identity_fault(
            version,
            profile,
        ) is None <==> same_path(reported, profile)),
        object_lacks(version, "userDataDir"@) ==> identity_fault(version, profile) is Some,
{
    if object_holds(version, "userDataDir"@, JsonModel::Text(reported)) {
        lemma_held_value_is_read(version, "userDataDir"@, JsonModel::Text(reported));
    }
    if object_lacks(version, "userDataDir"@) {
        lemma_lacking_value_is_not_read(version, "userDataDir"@);
    }
}

/// The bridge starts a browser only on a profile of its own and at a plain endpoint with a port on the
/// local machine.
pub proof fn lemma_browsers_that_are_started(target: BrowserTarget)
    ensures
        launch_fault(target) is None <==> {
            &&& target.user_data_dir is Some
            &&& target.cdp_endpoint is Some
            &&& parsed_url(target.cdp_endpoint->0@) is Ok
            &&& parsed_url(target.cdp_endpoint->0@)->Ok_0.scheme == "http"@
            &&& is_loopback_host(parsed_url(target.cdp_endpoint->0@)->Ok_0)
            &&& parsed_url(target.cdp_endpoint->0@)->Ok_0.port is Some
        },
{
}

/// A browser is started on its profile, with its tools on the local machine and at its port, on a blank
/// page.
pub proof fn lemma_arguments_of_a_browser(profile: Seq<char>, port: u16)
    ensures
        ({
            let args = launch_args(profile, port);
            &&& args.len() == 6
            &&& args[0] == "--user-data-dir="@ + profile
            &&& args.contains("--remote-debugging-address=127.0.0.1"@)
            &&& args.contains("--remote-debugging-port="@ + decimal(port as nat))
            &&& args.contains("--no-first-run"@)
            &&& args.contains("--no-default-browser-check"@)
            &&& args.last() == "about:blank"@
        }),
{
    let args = launch_args(profile, port);
    assert(args[1] == "--remote-debugging-address=127.0.0.1"@);
    assert(args[2] == "--remote-debugging-port="@ + decimal(port as nat));
    assert(args[3] == "--no-first-run"@);
    assert(args[4] == "--no-default-browser-check"@);
}

/// The browser that is started is the first candidate that is a file.
pub proof fn lemma_first_browser_that_is_there(v: Seq<ExecutableCandidate>, i: int)
    requires
        0 <= i <= v.len(),
        forall|j: int| 0 <= j < i ==> !(#[trigger] v[j]).is_file,
    ensures
        i < v.len() && v[i].is_file ==> first_executable(v) == Some(v[i].path@),
        i == v.len() ==> first_executable(v) is None,
    decreases v.len(),
{
    if v.len() > 0 && i > 0 {
        let t = v.drop_first();
        assert(!v[0].is_file);
        assert forall|j: int| 0 <= j < i - 1 implies !(#[trigger] t[j]).is_file by {
            assert(t[j] == v[j + 1]);
        }
        lemma_first_browser_that_is_there(t, i - 1);
    }
}

/// A browser runs after these steps: its profile is leased where the bridge starts it, its endpoint is
/// asked; one that answers must serve the profile, and one that does not is found, started and asked
/// again until it answers or it is too late.
pub proof fn lemma_browser_is_started_in_order(
    target: BrowserTarget,
    seen: InstanceSeen,
)
    requires
        target.cdp_endpoint is Some,
    ensures
        ({
            let step = instance_step(target, seen);
            let managed = target.launch_mode is ManagedLocal;
            let leased = !managed || went_well(seen.lease);
            let silent = leased && seen.version is Some && seen.version->0 is None;
            let found = silent && managed && seen.executable is Some && seen.executable->0 is Some
                && launch_fault(target) is None;
            &&& step is TakeLease <==> managed && seen.lease is None
            &&& step is AskVersion <==> leased && seen.version is None
            &&& step is FindExecutable <==> silent && managed && seen.executable is None
            &&& step is Start <==> found && seen.started is None
            &&& step matches InstanceStepModel::Start(e, a) ==> {
                &&& e == seen.executable->0->0@
                &&& a == launch_args(
                    target.user_data_dir->0@,
                    parsed_url(target.cdp_endpoint->0@)->Ok_0.port->0,
                )
            }
            &&& step is AskAgain <==> found && went_well(seen.started) && seen.answered != Some(true)
                && !(seen.answered == Some(false) && seen.past_deadline)
            &&& silent && !managed ==> step is Fail
            &&& found && went_well(seen.started) && seen.answered == Some(true) ==> step is Ready
            &&& (leased && seen.version is Some && seen.version->0 is Some) ==> (step is Ready <==> (
            target.user_data_dir is None || identity_fault(
                seen.version->0->0.model(),
                target.user_data_dir->0@,
            ) is None))
        }),
{
}

proof fn lemma_occurs_lowered(error: Seq<char>, words: Seq<char>)
    requires
        contains_text(error, words),
        ascii_lower(words) == words,
    ensures
        contains_text(ascii_lower(error), words),
{
    let at = choose|at: int| occurs_at(error, words, at);
    let low = ascii_lower(error);
    assert(low.subrange(at, at + words.len()) =~= ascii_lower(error.subrange(at, at + words.len())));
    assert(occurs_at(low, words, at));
}

/// A page is gone for good where the failure says that it does not exist, is elsewhere, or was closed.
pub proof fn lemma_pages_that_are_gone(error: Seq<char>)
    ensures
        contains_text(error, "does not exist on configured browser instance"@)
            ==> is_definitive_failure(error),
        contains_text(error, "no such target"@) ==> is_definitive_failure(error),
        contains_text(error, "target closed"@) ==> is_definitive_failure(error),
        contains_text(error, "browser page is not on https://chatgpt.com"@) ==> is_definitive_failure(
            error,
        ),
        is_definitive_failure(error) ==> contains_text(
            ascii_lower(error),
            "does not exist on configured browser instance"@,
        ) || contains_text(ascii_lower(error), "no such target"@) || contains_text(
            ascii_lower(error),
            "target closed"@,
        ) || contains_text(ascii_lower(error), "browser page is not on https://chatgpt.com"@),
{
    reveal_strlit("does not exist on configured browser instance");
    reveal_strlit("no such target");
    reveal_strlit("target closed");
    reveal_strlit("browser page is not on https://chatgpt.com");
    assert(ascii_lower("does not exist on configured browser instance"@)
        =~= "does not exist on configured browser instance"@);
    assert(ascii_lower("no such target"@) =~= "no such target"@);
    assert(ascii_lower("target closed"@) =~= "target closed"@);
    assert(ascii_lower("browser page is not on https://chatgpt.com"@)
        =~= "browser page is not on https://chatgpt.com"@);
    if contains_text(error, "does not exist on configured browser instance"@) {
        lemma_occurs_lowered(error, "does not exist on configured browser instance"@);
    }
    if contains_text(error, "no such target"@) {
        lemma_occurs_lowered(error, "no such target"@);
    }
    if contains_text(error, "target closed"@) {
        lemma_occurs_lowered(error, "target closed"@);
    }
    if contains_text(error, "browser page is not on https://chatgpt.com"@) {
        lemma_occurs_lowered(error, "browser page is not on https://chatgpt.com"@);
    }
}

/// A page is opened behind an endpoint in this order: the browser runs, the page is made, and, unless
/// it is for a login, its prompt box is awaited; then it is handed out, in its own browser.
pub proof fn lemma_page_is_opened_in_order(
    accounts: Seq<AccountConfig>,
    legacy: DriverModel,
    target: BrowserTarget,
    login: bool,
    seen: OpenSeen,
)
    requires
        isolation_holds(accounts, target),
    ensures
        ({
            let step = open_next(accounts, legacy, target, login, seen);
            let direct = target.cdp_endpoint is Some;
            let made = went_well(seen.created) && (!direct || went_well(seen.instance));
            &&& step is EnsureInstance <==> direct && seen.instance is None
            &&& step is CreateAt <==> direct && went_well(seen.instance) && seen.created is None
            &&& step matches OpenModel::CreateAt(e) ==> e == target.cdp_endpoint->0@
            &&& step is CreateTab <==> !direct && seen.created is None
            &&& step matches OpenModel::CreateTab(d) ==> d == driver_for(legacy, target)
            &&& step is AwaitPrompt <==> direct && made && !login && seen.ready is None
            &&& step is Opened <==> made && (!direct || login || went_well(seen.ready))
            &&& step matches OpenModel::Opened(t, p) ==> t == target && p == seen.created->0->Ok_0@
            &&& step matches OpenModel::AwaitPrompt(p) ==> p == seen.created->0->Ok_0@
            &&& step matches OpenModel::Close(p) ==> p == seen.created->0->Ok_0@
            &&& step is Close <==> direct && made && !login && seen.ready is Some && seen.ready->0
                is Err && !seen.closed
        }),
{
}

/// The button to try again is pressed through the driver where there is no endpoint, and else in the
/// page once its profile is leased; it was pressed where the page says so.
pub proof fn lemma_retry_is_pressed_in_order(legacy: DriverModel, seen: RetrySeen, target: BrowserTarget)
    requires
        seen.target is Some,
        seen.target->0 is Ok,
        seen.target->0->Ok_0 == target,
    ensures
        ({
            let step = retry_next(legacy, seen);
            let direct = target.cdp_endpoint is Some;
            &&& step is ClickThrough <==> !direct && seen.clicked is None
            &&& step matches RetryModel::ClickThrough(d) ==> d == driver_for(legacy, target)
            &&& !direct && seen.clicked is Some ==> step == RetryModel::Done(seen.clicked->0)
            &&& step is TakeLease <==> direct && seen.lease is None
            &&& step is ClickAt <==> direct && went_well(seen.lease) && seen.reply is None
            &&& step matches RetryModel::ClickAt(e) ==> e == target.cdp_endpoint->0@
            &&& direct && seen.lease is Some && seen.lease->0 is Err ==> step == RetryModel::Done(
                false,
            )
            &&& direct && went_well(seen.lease) && seen.reply is Some && seen.reply->0 is Ok ==> step
                == RetryModel::Done(says(seen.reply->0->Ok_0.model(), "clicked"@))
            &&& direct && went_well(seen.lease) && seen.reply is Some && seen.reply->0 is Err ==> step
                is Failed
        }),
{
    if seen.reply is Some && seen.reply->0 is Ok {
        lemma_says_is_read(seen.reply->0->Ok_0.model(), "clicked"@);
    }
}

/// What is known of a browser is told as it is.
pub proof fn lemma_health_is_told(h: HealthModel)
    ensures
        ({
            let v = health_json(h);
            &&& object_holds(v, "account_id"@, JsonModel::Text(h.account_id))
            &&& object_holds(v, "instance"@, JsonModel::Text(h.instance))
            &&& h.driver matches Some(k) ==> object_holds(
                v,
                "driver"@,
                JsonModel::Text(driver_key(k)),
            )
            &&& h.driver is None ==> object_holds(v, "driver"@, JsonModel::Null)
            &&& object_holds(
                v,
                "reachability"@,
                JsonModel::Text(reachability_name(h.reachability)),
            )
            &&& object_holds(v, "login_state"@, JsonModel::Text(login_name(h.login_state)))
            &&& object_holds(v, "login_required"@, JsonModel::Bool(h.login_required))
            &&& h.detail matches Some(d) ==> object_holds(v, "detail"@, JsonModel::Text(d))
            &&& h.detail is None ==> object_lacks(v, "detail"@)
        }),
{
    reveal_strlit("account_id");
    reveal_strlit("instance");
    reveal_strlit("driver");
    reveal_strlit("reachability");
    reveal_strlit("login_state");
    reveal_strlit("login_required");
    reveal_strlit("detail");
    assert("account_id"@.len() == 10);
    assert("instance"@.len() == 8);
    assert("driver"@.len() == 6);
    assert("reachability"@.len() == 12);
    assert("login_state"@.len() == 11);
    assert("login_required"@.len() == 14);
    assert("detail"@.len() == 6);
    assert("driver"@[1] != "detail"@[1]);
    let fields = health_json(h)->Object_0;
    assert(fields[0].0 == "account_id"@);
    assert(fields[1].0 == "instance"@);
    assert(fields[2].0 == "driver"@);
    assert(fields[3].0 == "reachability"@);
    assert(fields[4].0 == "login_state"@);
    assert(fields[5].0 == "login_required"@);
    lemma_first_field_is_held(fields, 0, "account_id"@, JsonModel::Text(h.account_id));
    lemma_first_field_is_held(fields, 1, "instance"@, JsonModel::Text(h.instance));
    lemma_first_field_is_held(fields, 2, "driver"@, fields[2].1);
    lemma_first_field_is_held(
        fields,
        3,
        "reachability"@,
        JsonModel::Text(reachability_name(h.reachability)),
    );
    lemma_first_field_is_held(fields, 4, "login_state"@, JsonModel::Text(login_name(h.login_state)));
    lemma_first_field_is_held(fields, 5, "login_required"@, JsonModel::Bool(h.login_required));
    if h.detail is Some {
        lemma_first_field_is_held(fields, 6, "detail"@, JsonModel::Text(h.detail->0));
    }
}

/// The names of the states of a browser tell them apart.
pub proof fn lemma_states_of_browsers_have_names(
    a: BrowserReachability,
    b: BrowserReachability,
    x: BrowserLoginState,
    y: BrowserLoginState,
)
    ensures
        reachability_name(a) == reachability_name(b) ==> a == b,
        login_name(x) == login_name(y) ==> x == y,
        reachability_name(BrowserReachability::Reachable) == "reachable"@,
        login_name(BrowserLoginState::Ready) == "ready"@,
        login_name(BrowserLoginState::AuthenticationRequired) == "authentication_required"@,
{
    reveal_strlit("reachable");
    reveal_strlit("unreachable");
    reveal_strlit("unknown");
    reveal_strlit("ready");
    reveal_strlit("authentication_required");
    assert("reachable"@.len() == 9);
    assert("unreachable"@.len() == 11);
    assert("unknown"@.len() == 7);
    assert("ready"@.len() == 5);
    assert("authentication_required"@.len() == 23);
}

/// A resource of a browser is its endpoint with the path of the resource and nothing behind it; the socket
/// of a page is reached at the host and the port of the endpoint, over a connection as safe as that.
pub proof fn lemma_addresses_in_a_browser(
    url: Seq<char>,
    endpoint: Seq<char>,
    path: Seq<char>,
    a: Seq<char>,
    b: Seq<char>,
    c: Seq<char>,
)
    requires
        parsed_url(endpoint) is Ok,
        parsed_url(endpoint)->Ok_0.scheme == "http"@ || parsed_url(endpoint)->Ok_0.scheme == "https"@,
    ensures
        (url_with_path(endpoint, "/"@ + path) == Some(a) && url_with_query(a, None) == Some(b)
            && url_without_fragment(b) == Some(c)) ==> cdp_resource(endpoint, path) == Ok::<
            Seq<char>,
            Seq<char>,
        >(c),
        ({
            let at = parsed_url(endpoint)->Ok_0;
            let safe = at.scheme == "https"@;
            (socket_fault(url) is None && at.host is Some && url_with_host(url, at.host->0) == Some(a)
                && url_with_port(a, at.port) == Some(b) && url_with_scheme(
                b,
                if safe {
                    "wss"@
                } else {
                    "ws"@
                },
            ) == Some(c)) ==> rebased_socket(url, endpoint) == Ok::<Seq<char>, Seq<char>>(c)
        }),
{
    reveal_strlit("http");
    reveal_strlit("https");
    assert("http"@.len() != "https"@.len());
}

} // verus!
