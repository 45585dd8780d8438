//! The browsers of the accounts: which page belongs to whom, and how to speak to it.
use crate::accounts::{account_position, config_outcome, load_accounts_config, AccountConfig,
    AccountsConfig, AccountsFile, LegacyAccountConfig, ProfileFacts, LEGACY_ACCOUNT_ID};
use crate::error::BridgeError;
use crate::json::{array_of, bool_of, no_fields, put, text_of, u64_of, Json, JsonModel};
use crate::orca::{classify_chatgpt_ui_snapshot, driver_key, driver_name, is_true, page_fault,
    read_page_probe, reason_of, send_chatgpt_prompt, send_next, send_step, ui_condition,
    BrowserDriverConfig, BrowserDriverKind, ChatgptPageProbe, ChatgptRateLimitReason,
    ChatgptUiCondition, DriverModel, PageProbeFault, SendSeen, SendStep, CHATGPT_SEND_EXPRESSION,
    CHATGPT_URL, INSERT_PROMPT_HEAD, INSERT_PROMPT_TAIL};
use crate::outside::{drop_url_fragment, host_is_loopback, is_loopback_host, json_quote, json_quoted,
    parsed_url, set_url_host, set_url_path, set_url_port, set_url_query, set_url_scheme,
    simplified_path, url_parts, url_with_host, url_with_path, url_with_port, url_with_query,
    url_with_scheme, url_without_fragment, URL_TEXT_LIMIT};
use crate::paths::{join_path, joined_path, paths_equal, same_path};
use crate::security::workspace::{BindingModel, BrowserBinding};
use crate::text::{ascii_lower, chars_of, contains, contains_text, copy_opt, decimal, decimal_of,
    has_prefix, is_alnum, is_alnum_char, is_blank, no_texts, opt_text, push_text, same_text,
    starts_with, texts, to_ascii_lower, trimmed};
use vstd::prelude::*;

verus! {

/// How long a page may take to show its prompt box, in seconds.
pub const PAGE_READY_TIMEOUT_SECS: u64 = 60;

/// How long an answer under way may keep a prompt waiting, in seconds.
pub const GENERATION_IDLE_TIMEOUT_SECS: u64 = 300;

/// How long a browser may take to start, in seconds.
pub const BROWSER_STARTUP_TIMEOUT_SECS: u64 = 20;

/// How often a starting browser is asked, in milliseconds.
pub const BROWSER_STARTUP_POLL_MS: u64 = 250;

/// How long connecting to a page may take, in seconds.
pub const CDP_WS_CONNECT_TIMEOUT_SECS: u64 = 5;

/// How long a page may take to answer, in seconds.
pub const CDP_WS_RESPONSE_TIMEOUT_SECS: u64 = 10;

/// Asks whether the prompt box is there.
pub const CDP_PROMPT_READY_EXPRESSION: &'static str = r#"(() => !!document.querySelector('#prompt-textarea, [data-testid=\"composer-text-input\"], textarea[placeholder], [contenteditable=\"true\"]'))()"#;

/// Asks where a page is and whether it is ready or busy.
pub const CDP_VERIFY_EXPRESSION: &'static str = r#"(() => ({
  ready: !!(document.querySelector('#prompt-textarea') || document.querySelector('[contenteditable=\"true\"]')),
  generating: !!document.querySelector('button[data-testid=\"stop-button\"], button[aria-label=\"Stop generating\"], button[aria-label=\"Stop answering\"]'),
  url: location.href,
  title: document.title
}))()"#;

/// Asks what a page shows.
pub const CDP_PROBE_EXPRESSION: &'static str = r#"(() => {
  const MSG='[data-message-author-role], article, [data-testid^=\"conversation-turn\"], [data-message-id]';
  const SYS='[data-testid*=\"rate-limit\"], [data-testid*=\"modal\"], [role=\"alert\"], [role=\"dialog\"], [data-sonner-toast], [data-testid*=\"toast\"], [data-testid*=\"notification\"], [class*=\"banner\"], [class*=\"alert\"], [class*=\"notice\"], [data-testid*=\"error\"]';
  const visible=(el)=>{if(!el)return false;const s=getComputedStyle(el),r=el.getBoundingClientRect();return s.display!=='none'&&s.visibility!=='hidden'&&Number(s.opacity)!==0&&r.width>0&&r.height>0};
  const isMsg=(el)=>!!el.closest(MSG)||!!el.querySelector(MSG);
  const sysEls=Array.from(document.querySelectorAll(SYS)).filter(el=>visible(el)&&!isMsg(el));
  const leafEls=Array.from(document.querySelectorAll('div, p, span')).filter(el=>el.children.length===0&&visible(el)&&!isMsg(el)&&/\blimit\b|\brate\b|\btoo many\b/i.test(el.textContent||''));
  const texts=Array.from(new Set([...sysEls, ...leafEls])).map(el=>(el.innerText||el.textContent||'').trim().toLowerCase()).filter(Boolean);
  const composer=Array.from(document.querySelectorAll('#prompt-textarea, [data-testid=\"composer-text-input\"], textarea[placeholder], [contenteditable=\"true\"]')).find(visible);
  const stop=document.querySelector('button[data-testid=\"stop-button\"], button[aria-label=\"Stop generating\"], button[aria-label=\"Stop answering\"]');
  const rate=(t)=>/too many (requests|messages)|rate limit|making requests too quickly|wait a few minutes/.test(t)?'too_many_requests':/(at|over) capacity|capacity limit/.test(t)?'capacity':/(model|gpt)[^.\n]{0,80}(usage )?limit/.test(t)?'model_quota':/(?:you(?:'ve| have)? )?(?:reached|hit) (?:the |your )?(?:current )?(?:usage |message )?limit|usage limit|limit reached|hit your limit/.test(t)?'usage_limit':null;
  const reset=(t)=>{const m=t.match(/(?:try again|reset(?:s)?|available again|wait)[^0-9]{0,48}(\d+(?:\.\d+)?)\s*(seconds?|secs?|minutes?|mins?|hours?|hrs?|days?)/i);if(!m)return null;const n=Number(m[1]),u=m[2].toLowerCase(),k=u.startsWith('min')?60:(u.startsWith('hour')||u.startsWith('hr'))?3600:u.startsWith('day')?86400:1,s=Math.ceil(n*k);return Number.isSafeInteger(s)&&s>=1&&s<=2678400?s:null};
  let rr=null,rs=null; for(const t of texts){rr=rate(t);if(rr){rs=reset(t);break}}
  const auth=texts.some(t=>/\b(log in|login|sign in|authentication required|session expired|please authenticate)\b/.test(t));
  const lastTurnEl=Array.from(document.querySelectorAll('[data-message-author-role]')).filter(visible).pop();
  const lastTurn=lastTurnEl?((lastTurnEl.innerText||'').toLowerCase().slice(-4000)):'';
  const DELIV=/\b(something went wrong|error generating|network error|failed to send|message failed|unable to load conversation|delivery failed|delivery timed out)\b/;
  const delivery=[...texts, lastTurn].find(t=>DELIV.test(t))||null;
  return {ready:!!composer,generating:!!stop&&visible(stop),rate_limited:rr!==null,rate_limit_reason:rr,reset_after_seconds:rs,delivery_error:delivery!==null,delivery_recoverable:!!delivery&&/retry|try again|network|temporary/.test(delivery),authentication_required:auth};
})()"#;

/// Asks for all that an inspection reports.
pub const CDP_INSPECT_EXPRESSION: &'static str = r#"(() => {
  const visible = (el) => {
    if (!el) return false;
    const s = getComputedStyle(el), r = el.getBoundingClientRect();
    return s.display !== 'none' && s.visibility !== 'hidden' && Number(s.opacity) !== 0 && r.width > 0 && r.height > 0;
  };

  const url = location.href;
  const title = document.title;

  const composerEl = Array.from(document.querySelectorAll('#prompt-textarea, [data-testid="composer-text-input"], textarea[placeholder], [contenteditable="true"]')).find(visible);
  const composer_visible = !!composerEl;
  const composer_disabled = composerEl ? (composerEl.hasAttribute('disabled') || composerEl.getAttribute('contenteditable') === 'false') : false;

  const stopBtn = Array.from(document.querySelectorAll('button[data-testid="stop-button"], button[aria-label="Stop generating"], button[aria-label="Stop answering"]')).find(visible);
  const generating = !!stopBtn;

  const turns = Array.from(document.querySelectorAll('[data-message-author-role], [data-testid^="conversation-turn"]'));
  const turn_count = turns.length;
  let last_turn_role = null;
  let last_turn_text = null;
  if (turns.length > 0) {
    const last = turns[turns.length - 1];
    last_turn_role = last.getAttribute('data-message-author-role') || (last.querySelector('[data-message-author-role]')?.getAttribute('data-message-author-role')) || 'unknown';
    last_turn_text = (last.innerText || '').slice(-4000);
  }

  const alertEls = Array.from(document.querySelectorAll('[role="alert"], [data-testid*="rate-limit"], [role="dialog"], [data-sonner-toast], [data-testid*="toast"], [data-testid*="notification"], [class*="banner"], [class*="alert"], [data-testid*="error"]')).filter(visible);
  const alerts = alertEls.map(el => (el.innerText || '').trim()).filter(t => t.length > 0 && t.length < 500);

  const texts = [last_turn_text || '', ...alerts].join(' ').toLowerCase();
  let rate_limit_reason = null;
  let reset_after_seconds = null;
  if (/too many (requests|messages)|rate limit|making requests too quickly|wait a few minutes/.test(texts)) {
    rate_limit_reason = 'too_many_requests';
  } else if (/(at|over) capacity|capacity limit/.test(texts)) {
    rate_limit_reason = 'capacity';
  } else if (/(model|gpt)[^.\n]{0,80}(usage )?limit/.test(texts)) {
    rate_limit_reason = 'model_quota';
  } else if (/(?:you(?:'ve| have)? )?(?:reached|hit) (?:the |your )?(?:current )?(?:usage |message )?limit|usage limit|limit reached|hit your limit/.test(texts)) {
    rate_limit_reason = 'usage_limit';
  }

  const m = texts.match(/try again in (?:(\d+) hours? )?(?:(\d+) minutes? )?(?:(\d+) seconds?|(\d+)s|(\d+)m)/);
  if (m) {
    reset_after_seconds = (Number(m[1]||0)*3600) + (Number(m[2]||0)*60) + Number(m[3]||m[4]||0) + (Number(m[5]||0)*60);
  }

  const auth = /sign in|log in|session expired|authentication required/.test(texts);
  const delivery = /(something went wrong|error generating|network error|failed to send|message failed|delivery failed|delivery timed out|unable to load conversation)/.test(texts);

  return {
    url,
    title,
    generating,
    composer_visible,
    composer_disabled,
    turn_count,
    last_turn_role,
    last_turn_text,
    alerts: alerts.slice(0, 5),
    rate_limit_reason,
    reset_after_seconds,
    authentication_required: auth,
    delivery_error: delivery
  };
})()"#;

/// Fills the prompt box; the prompt's JSON text stands between this and the tail.
pub const CDP_INSERT_PROMPT_HEAD: &'static str = r#"(() => {
 const el=document.querySelector('#prompt-textarea')||document.querySelector('[contenteditable=\"true\"]');
 if(!el)return {ok:false,error:'no_textbox'};el.focus();document.execCommand('selectAll',false,null);document.execCommand('delete',false,null);document.execCommand('insertText',false,"#;

/// What follows the prompt in the expression that fills the prompt box.
pub const CDP_INSERT_PROMPT_TAIL: &'static str = r#");el.dispatchEvent(new Event('input',{bubbles:true}));return {ok:true};
})()"#;

/// Presses the send button.
pub const CDP_SEND_EXPRESSION: &'static str = r#"(() => {const btn=document.querySelector('button[data-testid=\"send-button\"], button[aria-label=\"Send prompt\"], #composer-submit-button');if(!btn||btn.disabled)return {ok:false,error:'no_send_button'};btn.click();return {ok:true};})()"#;

/// Who starts the browser of an account.
#[derive(Clone, Copy, Debug, PartialEq, Eq, Structural)]
pub enum BrowserLaunchMode {
    /// The bridge starts it, on a profile of its own.
    ManagedLocal,
    /// Somebody else does; the bridge only attaches to it.
    AttachOnly,
}

/// The browser that an account works in.
#[derive(Debug)]
pub struct BrowserTarget {
    pub account_id: String,
    pub instance: String,
    pub driver: BrowserDriverKind,
    pub user_data_dir: Option<String>,
    pub cdp_endpoint: Option<String>,
    pub launch_mode: BrowserLaunchMode,
    pub worktree: String,
}

impl Clone for BrowserTarget {
    fn clone(&self) -> (r: Self)
        ensures
            r == *self,
    {
        BrowserTarget {
            account_id: self.account_id.clone(),
            instance: self.instance.clone(),
            driver: self.driver,
            user_data_dir: copy_opt(&self.user_data_dir),
            cdp_endpoint: copy_opt(&self.cdp_endpoint),
            launch_mode: self.launch_mode,
            worktree: self.worktree.clone(),
        }
    }
}

/// A page in the browser of an account.
#[derive(Debug)]
pub struct PageHandle {
    pub target: BrowserTarget,
    pub page_id: String,
}

impl PageHandle {
    /// The binding of a scope to the page.
    pub fn binding(&self) -> (r: BrowserBinding)
        ensures
            r@ == (BindingModel {
                account_id: self.target.account_id@,
                driver: self.target.driver,
                instance: self.target.instance@,
                page_id: self.page_id@,
            }),
    {
        BrowserBinding::new(
            self.target.account_id.as_str(),
            self.target.driver,
            self.target.instance.as_str(),
            self.page_id.as_str(),
        )
    }
}

/// What an inspection of a page found.
#[derive(Debug)]
pub struct PageInspection {
    pub url: String,
    pub title: String,
    pub condition: ChatgptUiCondition,
    pub generating: bool,
    pub composer_visible: bool,
    pub composer_disabled: bool,
    pub turn_count: usize,
    pub last_turn_role: Option<String>,
    pub last_turn_text: Option<String>,
    pub alerts: Vec<String>,
    pub rate_limit_reason: Option<String>,
}

/// The mathematical value of a [`PageInspection`].
pub struct InspectionModel {
    pub url: Seq<char>,
    pub title: Seq<char>,
    pub condition: ChatgptUiCondition,
    pub generating: bool,
    pub composer_visible: bool,
    pub composer_disabled: bool,
    pub turn_count: usize,
    pub last_turn_role: Option<Seq<char>>,
    pub last_turn_text: Option<Seq<char>>,
    pub alerts: Seq<Seq<char>>,
    pub rate_limit_reason: Option<Seq<char>>,
}

impl View for PageInspection {
    type V = InspectionModel;

    open spec fn view(&self) -> InspectionModel {
        InspectionModel {
            url: self.url@,
            title: self.title@,
            condition: self.condition,
            generating: self.generating,
            composer_visible: self.composer_visible,
            composer_disabled: self.composer_disabled,
            turn_count: self.turn_count,
            last_turn_role: opt_text(self.last_turn_role),
            last_turn_text: opt_text(self.last_turn_text),
            alerts: texts(self.alerts@),
            rate_limit_reason: opt_text(self.rate_limit_reason),
        }
    }
}

pub open spec fn or_empty(o: Option<Seq<char>>) -> Seq<char> {
    match o {
        Some(s) => s,
        None => Seq::empty(),
    }
}

/// The texts among some values, in their order.
pub open spec fn texts_among(v: Seq<JsonModel>) -> Seq<Seq<char>>
    decreases v.len(),
{
    if v.len() == 0 {
        Seq::empty()
    } else {
        let front = texts_among(v.drop_last());
        match v.last() {
            JsonModel::Text(s) => front.push(s),
            _ => front,
        }
    }
}

/// The reason that an inspection names; one that is not known counts as a usage limit.
pub open spec fn inspected_reason(name: Seq<char>) -> ChatgptRateLimitReason {
    match reason_of(name) {
        Some(r) => r,
        None => ChatgptRateLimitReason::UsageLimit,
    }
}

/// What an inspected page shows, read in this order: a rate limit, a login that is
/// needed, a delivery error, an answer under way, a visible prompt box.
pub open spec fn inspected_condition(v: JsonModel) -> ChatgptUiCondition {
    match text_of(v.field("rate_limit_reason"@)) {
        Some(name) => ChatgptUiCondition::RateLimited {
            reason: inspected_reason(name),
            reset_after_seconds: u64_of(v.field("reset_after_seconds"@)),
        },
        None => if bool_of(v.field("authentication_required"@)) == Some(true) {
            ChatgptUiCondition::AuthenticationRequired
        } else if bool_of(v.field("delivery_error"@)) == Some(true) {
            ChatgptUiCondition::DeliveryError { recoverable: true }
        } else if bool_of(v.field("generating"@)) == Some(true) {
            ChatgptUiCondition::Generating
        } else if bool_of(v.field("composer_visible"@)) == Some(true) {
            ChatgptUiCondition::Healthy
        } else {
            ChatgptUiCondition::Unknown
        },
    }
}

/// What the reply to an inspection says.
pub open spec fn inspection(v: JsonModel) -> InspectionModel {
    InspectionModel {
        url: or_empty(text_of(v.field("url"@))),
        title: or_empty(text_of(v.field("title"@))),
        condition: inspected_condition(v),
        generating: bool_of(v.field("generating"@)) == Some(true),
        composer_visible: bool_of(v.field("composer_visible"@)) == Some(true),
        composer_disabled: bool_of(v.field("composer_disabled"@)) == Some(true),
        turn_count: match u64_of(v.field("turn_count"@)) {
            Some(n) => n as usize,
            None => 0,
        },
        last_turn_role: text_of(v.field("last_turn_role"@)),
        last_turn_text: text_of(v.field("last_turn_text"@)),
        alerts: match array_of(v.field("alerts"@)) {
            Some(list) => texts_among(list),
            None => Seq::empty(),
        },
        rate_limit_reason: text_of(v.field("rate_limit_reason"@)),
    }
}

fn text_or_empty(o: Option<String>) -> (r: String)
    ensures
        r@ == or_empty(opt_text(o)),
{
    match o {
        Some(s) => s,
        None => String::new(),
    }
}

fn collect_texts(v: &Vec<Json>) -> (r: Vec<String>)
    ensures
        texts(r@) == texts_among(crate::json::models(v@)),
{
    let mut out: Vec<String> = no_texts();
    let ghost m = crate::json::models(v@);
    let mut i: usize = 0;
    assert(m.subrange(0, 0) =~= Seq::<JsonModel>::empty());
    while i < v.len()
        invariant
            i <= v@.len(),
            m == crate::json::models(v@),
            texts(out@) == texts_among(m.subrange(0, i as int)),
        decreases v@.len() - i,
    {
        proof {
            assert(m.subrange(0, i + 1).drop_last() =~= m.subrange(0, i as int));
            assert(m.subrange(0, i + 1).last() == v@[i as int].model());
        }
        if let Json::Text(s) = &v[i] {
            push_text(&mut out, s.as_str());
        }
        i += 1;
    }
    assert(m.subrange(0, m.len() as int) =~= m);
    out
}

/// Reads the reply to an inspection.
pub fn read_inspection(value: &Json) -> (r: PageInspection)
    ensures
        r@ == inspection(value.model()),
{
    let generating = is_true(value.bool_field("generating"));
    let composer_visible = is_true(value.bool_field("composer_visible"));
    let composer_disabled = is_true(value.bool_field("composer_disabled"));
    let turn_count: usize = match value.u64_field("turn_count") {
        Some(n) => n as usize,
        None => 0,
    };
    let alerts: Vec<String> = match value.get("alerts") {
        Some(Json::Array(v)) => collect_texts(v),
        _ => no_texts(),
    };
    let rate_limit_reason = value.text_field("rate_limit_reason");
    let condition = match &rate_limit_reason {
        Some(name) => {
            let reason = match ChatgptRateLimitReason::parse(name.as_str()) {
                Some(reason) => reason,
                None => ChatgptRateLimitReason::UsageLimit,
            };
            ChatgptUiCondition::RateLimited {
                reason,
                reset_after_seconds: value.u64_field("reset_after_seconds"),
            }
        },
        None => if is_true(value.bool_field("authentication_required")) {
            ChatgptUiCondition::AuthenticationRequired
        } else if is_true(value.bool_field("delivery_error")) {
            ChatgptUiCondition::DeliveryError { recoverable: true }
        } else if generating {
            ChatgptUiCondition::Generating
        } else if composer_visible {
            ChatgptUiCondition::Healthy
        } else {
            ChatgptUiCondition::Unknown
        },
    };
    let r = PageInspection {
        url: text_or_empty(value.text_field("url")),
        title: text_or_empty(value.text_field("title")),
        condition,
        generating,
        composer_visible,
        composer_disabled,
        turn_count,
        last_turn_role: value.text_field("last_turn_role"),
        last_turn_text: value.text_field("last_turn_text"),
        alerts,
        rate_limit_reason,
    };
    assert(r@.alerts =~= inspection(value.model()).alerts);
    r
}

/// What is known of a page through a driver that can only probe it.
pub fn driver_inspection(probe: ChatgptPageProbe, condition: ChatgptUiCondition) -> (r:
    PageInspection)
    ensures
        r@ == (InspectionModel {
            url: probe.url@,
            title: probe.title@,
            condition,
            generating: probe.generating,
            composer_visible: !probe.generating,
            composer_disabled: false,
            turn_count: 0,
            last_turn_role: None,
            last_turn_text: None,
            alerts: Seq::empty(),
            rate_limit_reason: None,
        }),
{
    PageInspection {
        url: probe.url,
        title: probe.title,
        condition,
        generating: probe.generating,
        composer_visible: !probe.generating,
        composer_disabled: false,
        turn_count: 0,
        last_turn_role: None,
        last_turn_text: None,
        alerts: no_texts(),
        rate_limit_reason: None,
    }
}

/// What is known of the browser of an account through a driver that can only probe it.
pub fn account_inspection(condition: ChatgptUiCondition) -> (r: PageInspection)
    ensures
        r@ == (InspectionModel {
            url: CHATGPT_URL@,
            title: "ChatGPT"@,
            condition,
            generating: false,
            composer_visible: true,
            composer_disabled: false,
            turn_count: 0,
            last_turn_role: None,
            last_turn_text: None,
            alerts: Seq::empty(),
            rate_limit_reason: None,
        }),
{
    PageInspection {
        url: CHATGPT_URL.to_owned(),
        title: "ChatGPT".to_owned(),
        condition,
        generating: false,
        composer_visible: true,
        composer_disabled: false,
        turn_count: 0,
        last_turn_role: None,
        last_turn_text: None,
        alerts: no_texts(),
        rate_limit_reason: None,
    }
}

/// Whether a browser answers.
#[derive(Clone, Copy, Debug, PartialEq, Eq, Structural)]
pub enum BrowserReachability {
    Reachable,
    Unreachable,
}

/// Whether a browser is logged in.
#[derive(Clone, Copy, Debug, PartialEq, Eq, Structural)]
pub enum BrowserLoginState {
    Unknown,
    Ready,
    AuthenticationRequired,
}

/// What is known of the browser of an account.
#[derive(Debug)]
pub struct BrowserHealth {
    pub account_id: String,
    pub instance: String,
    pub driver: Option<BrowserDriverKind>,
    pub reachability: BrowserReachability,
    pub login_state: BrowserLoginState,
    pub login_required: bool,
    pub detail: Option<String>,
}

/// The mathematical value of a [`BrowserHealth`].
pub struct HealthModel {
    pub account_id: Seq<char>,
    pub instance: Seq<char>,
    pub driver: Option<BrowserDriverKind>,
    pub reachability: BrowserReachability,
    pub login_state: BrowserLoginState,
    pub login_required: bool,
    pub detail: Option<Seq<char>>,
}

impl View for BrowserHealth {
    type V = HealthModel;

    open spec fn view(&self) -> HealthModel {
        HealthModel {
            account_id: self.account_id@,
            instance: self.instance@,
            driver: self.driver,
            reachability: self.reachability,
            login_state: self.login_state,
            login_required: self.login_required,
            detail: opt_text(self.detail),
        }
    }
}

impl Clone for BrowserHealth {
    fn clone(&self) -> (r: Self)
        ensures
            r == *self,
    {
        BrowserHealth {
            account_id: self.account_id.clone(),
            instance: self.instance.clone(),
            driver: self.driver,
            reachability: self.reachability,
            login_state: self.login_state,
            login_required: self.login_required,
            detail: copy_opt(&self.detail),
        }
    }
}

/// A target that a browser lists.
#[derive(Debug)]
pub struct CdpTarget {
    pub id: String,
    pub url: String,
    pub target_type: String,
    pub web_socket_debugger_url: String,
}

/// What has been found out of the health of a browser so far.
#[derive(Debug)]
pub struct HealthSeen {
    pub target: Option<Result<BrowserTarget, String>>,
    pub lease: Option<Result<(), String>>,
    pub reachable: Option<Result<(), String>>,
    pub targets: Option<Result<Vec<CdpTarget>, String>>,
    pub condition: Option<ChatgptUiCondition>,
    pub driver: Option<Result<(), String>>,
}

/// What to find out next of the health of a browser.
#[derive(Debug)]
pub enum HealthStep {
    ResolveTarget,
    TakeLease,
    Reach,
    ListTargets,
    /// Probe the page with this id.
    Probe(String),
    DetectDriver,
    Report(BrowserHealth),
}

/// The mathematical value of a [`HealthStep`].
pub enum HealthStepModel {
    ResolveTarget,
    TakeLease,
    Reach,
    ListTargets,
    Probe(Seq<char>),
    DetectDriver,
    Report(HealthModel),
}

impl View for HealthStep {
    type V = HealthStepModel;

    open spec fn view(&self) -> HealthStepModel {
        match *self {
            HealthStep::ResolveTarget => HealthStepModel::ResolveTarget,
            HealthStep::TakeLease => HealthStepModel::TakeLease,
            HealthStep::Reach => HealthStepModel::Reach,
            HealthStep::ListTargets => HealthStepModel::ListTargets,
            HealthStep::Probe(p) => HealthStepModel::Probe(p@),
            HealthStep::DetectDriver => HealthStepModel::DetectDriver,
            HealthStep::Report(h) => HealthStepModel::Report(h@),
        }
    }
}

/// The position of the first target on the ChatGPT site, or the number of targets.
pub open spec fn chatgpt_position(v: Seq<CdpTarget>) -> int
    decreases v.len(),
{
    if v.len() == 0 || has_prefix(v[0].url@, "https://chatgpt.com"@) {
        0
    } else {
        1 + chatgpt_position(v.drop_first())
    }
}

/// What a page says of the login.
pub open spec fn login_of(condition: ChatgptUiCondition) -> BrowserLoginState {
    match condition {
        ChatgptUiCondition::AuthenticationRequired => BrowserLoginState::AuthenticationRequired,
        ChatgptUiCondition::Healthy => BrowserLoginState::Ready,
        ChatgptUiCondition::Generating => BrowserLoginState::Ready,
        _ => BrowserLoginState::Unknown,
    }
}

/// A browser of which the login is not known.
pub open spec fn unsure_health(
    target: BrowserTarget,
    reachability: BrowserReachability,
    detail: Seq<char>,
) -> HealthModel {
    HealthModel {
        account_id: target.account_id@,
        instance: target.instance@,
        driver: Some(target.driver),
        reachability,
        login_state: BrowserLoginState::Unknown,
        login_required: false,
        detail: Some(detail),
    }
}

/// The health of a browser behind a DevTools endpoint: its profile must be leased, it
/// must answer and list its pages, and one of them must be on the ChatGPT site.
pub open spec fn endpoint_health(target: BrowserTarget, seen: HealthSeen) -> HealthStepModel {
    match seen.lease {
        None => HealthStepModel::TakeLease,
        Some(Err(m)) => HealthStepModel::Report(
            unsure_health(target, BrowserReachability::Unreachable, m@),
        ),
        Some(Ok(_)) => match seen.reachable {
            None => HealthStepModel::Reach,
            Some(Err(m)) => HealthStepModel::Report(
                unsure_health(target, BrowserReachability::Unreachable, m@),
            ),
            Some(Ok(_)) => match seen.targets {
                None => HealthStepModel::ListTargets,
                Some(Err(m)) => HealthStepModel::Report(
                    unsure_health(
                        target,
                        BrowserReachability::Reachable,
                        "CDP reachable but target listing failed: "@ + m@,
                    ),
                ),
                Some(Ok(v)) => if chatgpt_position(v@) == v@.len() {
                    HealthStepModel::Report(
                        unsure_health(
                            target,
                            BrowserReachability::Reachable,
                            "no live ChatGPT page is available to determine login state"@,
                        ),
                    )
                } else {
                    match seen.condition {
                        None => HealthStepModel::Probe(v@[chatgpt_position(v@)].id@),
                        Some(c) => HealthStepModel::Report(
                            HealthModel {
                                account_id: target.account_id@,
                                instance: target.instance@,
                                driver: Some(target.driver),
                                reachability: BrowserReachability::Reachable,
                                login_state: login_of(c),
                                login_required: login_of(c)
                                    == BrowserLoginState::AuthenticationRequired,
                                detail: None,
                            },
                        ),
                    }
                },
            },
        },
    }
}

/// The next step in finding out the health of the browser of an account, or what was
/// found.
pub open spec fn health_step(account_id: Seq<char>, seen: HealthSeen) -> HealthStepModel {
    match seen.target {
        None => HealthStepModel::ResolveTarget,
        Some(Err(m)) => HealthStepModel::Report(
            HealthModel {
                account_id,
                instance: Seq::empty(),
                driver: None,
                reachability: BrowserReachability::Unreachable,
                login_state: BrowserLoginState::Unknown,
                login_required: false,
                detail: Some(m@),
            },
        ),
        Some(Ok(target)) => if target.cdp_endpoint is Some {
            endpoint_health(target, seen)
        } else {
            match seen.driver {
                None => HealthStepModel::DetectDriver,
                Some(Ok(_)) => HealthStepModel::Report(
                    unsure_health(
                        target,
                        BrowserReachability::Reachable,
                        "legacy driver reachability only; login state requires a page probe"@,
                    ),
                ),
                Some(Err(m)) => HealthStepModel::Report(
                    unsure_health(target, BrowserReachability::Unreachable, m@),
                ),
            }
        },
    }
}

fn report_unsure(target: &BrowserTarget, reachability: BrowserReachability, detail: &str) -> (r:
    HealthStep)
    ensures
        r@ == HealthStepModel::Report(unsure_health(*target, reachability, detail@)),
{
    HealthStep::Report(
        BrowserHealth {
            account_id: target.account_id.clone(),
            instance: target.instance.clone(),
            driver: Some(target.driver),
            reachability,
            login_state: BrowserLoginState::Unknown,
            login_required: false,
            detail: Some(detail.to_owned()),
        },
    )
}

fn find_chatgpt(v: &Vec<CdpTarget>) -> (r: usize)
    ensures
        r == chatgpt_position(v@),
        r <= v@.len(),
{
    let mut i: usize = 0;
    assert(v@.subrange(0, v@.len() as int) =~= v@);
    while i < v.len()
        invariant
            i <= v@.len(),
            chatgpt_position(v@) == i + chatgpt_position(v@.subrange(i as int, v@.len() as int)),
        decreases v@.len() - i,
    {
        if starts_with(v[i].url.as_str(), "https://chatgpt.com") {
            return i;
        }
        assert(v@.subrange(i as int, v@.len() as int).drop_first() =~= v@.subrange(
            i + 1,
            v@.len() as int,
        ));
        i += 1;
    }
    i
}

fn step_endpoint_health(target: &BrowserTarget, seen: &HealthSeen) -> (r: HealthStep)
    ensures
        r@ == endpoint_health(*target, *seen),
{
    match &seen.lease {
        None => {
            return HealthStep::TakeLease;
        },
        Some(Err(m)) => {
            return report_unsure(target, BrowserReachability::Unreachable, m.as_str());
        },
        Some(Ok(_)) => {},
    }
    match &seen.reachable {
        None => {
            return HealthStep::Reach;
        },
        Some(Err(m)) => {
            return report_unsure(target, BrowserReachability::Unreachable, m.as_str());
        },
        Some(Ok(_)) => {},
    }
    let targets = match &seen.targets {
        None => {
            return HealthStep::ListTargets;
        },
        Some(Err(m)) => {
            let detail = "CDP reachable but target listing failed: ".to_owned().concat(m.as_str());
            return report_unsure(target, BrowserReachability::Reachable, detail.as_str());
        },
        Some(Ok(v)) => v,
    };
    let i = find_chatgpt(targets);
    if i == targets.len() {
        return report_unsure(
            target,
            BrowserReachability::Reachable,
            "no live ChatGPT page is available to determine login state",
        );
    }
    let condition = match seen.condition {
        None => {
            return HealthStep::Probe(targets[i].id.clone());
        },
        Some(c) => c,
    };
    let login_state = match condition {
        ChatgptUiCondition::AuthenticationRequired => BrowserLoginState::AuthenticationRequired,
        ChatgptUiCondition::Healthy => BrowserLoginState::Ready,
        ChatgptUiCondition::Generating => BrowserLoginState::Ready,
        _ => BrowserLoginState::Unknown,
    };
    HealthStep::Report(
        BrowserHealth {
            account_id: target.account_id.clone(),
            instance: target.instance.clone(),
            driver: Some(target.driver),
            reachability: BrowserReachability::Reachable,
            login_state,
            login_required: login_state == BrowserLoginState::AuthenticationRequired,
            detail: None,
        },
    )
}

/// A health report never calls for a login without having seen a page that asks for
/// one, and knows the login only of a browser that answered.
pub proof fn lemma_health_is_seen(account_id: Seq<char>, seen: HealthSeen)
    ensures
        health_step(account_id, seen) matches HealthStepModel::Report(h) ==> {
            &&& h.login_required <==> h.login_state == BrowserLoginState::AuthenticationRequired
            &&& h.login_state != BrowserLoginState::Unknown ==> h.reachability
                == BrowserReachability::Reachable && seen.condition is Some && h.login_state
                == login_of(seen.condition->0)
            &&& h.reachability == BrowserReachability::Unreachable ==> h.detail is Some
        },
{
}

/// The browsers of a bridge.
#[derive(Debug)]
pub struct BrowserPool {
    pub bridge_dir: String,
    pub mount_root: String,
    /// Where the account configuration is, if not in the bridge directory.
    pub config_path: Option<String>,
    pub legacy: LegacyAccountConfig,
    pub legacy_driver: BrowserDriverConfig,
    /// The profiles that this pool has leased.
    pub leases: Vec<String>,
}

/// Why an account has no browser for a piece of work.
pub open spec fn target_fault(
    config: AccountsConfig,
    account_id: Seq<char>,
    allow_disabled: bool,
) -> Option<Seq<char>> {
    let at = account_position(config.accounts@, account_id);
    if at == config.accounts@.len() {
        Some(
            "BROWSER_ACCOUNT_UNAVAILABLE: account '"@ + account_id
                + "' is missing from accounts.json"@,
        )
    } else {
        let account = config.accounts@[at];
        if !allow_disabled && (!account.enabled || account.draining) {
            Some(
                "BROWSER_ACCOUNT_UNAVAILABLE: account '"@ + account_id + "' is "@ + (
                if account.draining {
                    "draining"@
                } else {
                    "disabled"@
                }) + " for new work"@,
            )
        } else {
            None
        }
    }
}

/// The driver of an account: the configured one, or Chrome.
pub open spec fn driver_of_account(account: AccountConfig) -> BrowserDriverKind {
    match account.browser.driver {
        Some(d) => d,
        None => BrowserDriverKind::Chrome,
    }
}

/// The profile of an account: the configured one; the legacy account has one below the
/// bridge directory where the bridge starts its Chrome.
pub open spec fn profile_of_account(
    account: AccountConfig,
    bridge_dir: Seq<char>,
    launch_mode: BrowserLaunchMode,
) -> Option<Seq<char>> {
    match account.browser.user_data_dir {
        Some(p) => Some(p@),
        None => if account.id@ == LEGACY_ACCOUNT_ID@ && driver_of_account(account)
            == BrowserDriverKind::Chrome && launch_mode == BrowserLaunchMode::ManagedLocal {
            Some(joined_path(bridge_dir, "browser-profiles/default"@))
        } else {
            None
        },
    }
}

/// `target` is the browser of an account.
pub open spec fn is_target_of(
    target: BrowserTarget,
    account: AccountConfig,
    bridge_dir: Seq<char>,
    launch_mode: BrowserLaunchMode,
) -> bool {
    &&& target.account_id@ == account.id@
    &&& target.instance@ == account.browser.instance@
    &&& target.driver == driver_of_account(account)
    &&& opt_text(target.user_data_dir) == profile_of_account(account, bridge_dir, launch_mode)
    &&& opt_text(target.cdp_endpoint) == opt_text(account.browser.cdp_endpoint)
    &&& target.launch_mode == launch_mode
    &&& target.worktree@ == account.browser.worktree@
}

/// Why a scope's browser binding no longer leads to its browser.
pub open spec fn binding_target_fault(config: AccountsConfig, binding: BindingModel) -> Option<
    Seq<char>,
> {
    match target_fault(config, binding.account_id, true) {
        Some(m) => Some(m),
        None => {
            let account = config.accounts@[account_position(config.accounts@, binding.account_id)];
            if account.browser.instance@ != binding.instance {
                Some(
                    "BROWSER_ACCOUNT_UNAVAILABLE: account '"@ + binding.account_id
                        + "' browser instance changed from '"@ + binding.instance + "' to '"@
                        + account.browser.instance@ + "'"@,
                )
            } else if driver_of_account(account) != binding.driver {
                Some(
                    "BROWSER_ACCOUNT_UNAVAILABLE: account '"@ + binding.account_id
                        + "' browser driver changed from '"@ + driver_name(binding.driver)
                        + "' to '"@ + driver_name(driver_of_account(account)) + "'"@,
                )
            } else {
                None
            }
        },
    }
}

/// An account whose browser may be running.
pub open spec fn is_live_account(account: AccountConfig) -> bool {
    account.enabled || account.draining
}

/// The profiles of the accounts whose browsers may be running.
pub open spec fn live_profiles(accounts: Seq<AccountConfig>) -> Seq<Seq<char>>
    decreases accounts.len(),
{
    if accounts.len() == 0 {
        Seq::empty()
    } else {
        let front = live_profiles(accounts.drop_last());
        let last = accounts.last();
        if is_live_account(last) && last.browser.user_data_dir is Some {
            front.push(last.browser.user_data_dir->0@)
        } else {
            front
        }
    }
}

/// Where several browsers may be running, each needs an endpoint of its own and, if
/// the bridge starts it, a profile of its own.
pub open spec fn isolation_holds(accounts: Seq<AccountConfig>, target: BrowserTarget) -> bool {
    accounts.filter(|a: AccountConfig| is_live_account(a)).len() <= 1 || (target.cdp_endpoint is Some
        && (target.launch_mode == BrowserLaunchMode::ManagedLocal ==> target.user_data_dir is Some))
}

/// What stands between a pool and the profile of a target.
#[derive(Debug)]
pub enum LeaseStep {
    /// The target has no profile to lease.
    NotNeeded,
    /// The pool holds the lease.
    Held,
    /// The lease of this profile must be taken.
    Take(String),
}

/// How a page of a target is reached.
#[derive(Debug)]
pub enum PageRoute {
    /// Through this DevTools endpoint, once the profile is leased.
    Endpoint(String),
    /// Through a driver command.
    Driver(BrowserDriverConfig),
}

/// The driver command for a target: that of the legacy account, in the target's work tree.
pub open spec fn driver_for(legacy_driver: DriverModel, target: BrowserTarget) -> DriverModel {
    DriverModel {
        driver: Some(target.driver),
        binary: legacy_driver.binary,
        worktree: target.worktree@,
        terminal: legacy_driver.terminal,
        resolved: None,
    }
}

impl BrowserPool {
    pub fn new(
        bridge_dir: &str,
        mount_root: &str,
        legacy: LegacyAccountConfig,
        legacy_driver: BrowserDriverConfig,
    ) -> (r: Self)
        ensures
            r.bridge_dir@ == bridge_dir@,
            r.mount_root@ == mount_root@,
            r.config_path is None,
            r.legacy == legacy,
            r.legacy_driver == legacy_driver,
            r.leases@.len() == 0,
    {
        BrowserPool {
            bridge_dir: bridge_dir.to_owned(),
            mount_root: mount_root.to_owned(),
            config_path: None,
            legacy,
            legacy_driver,
            leases: Vec::new(),
        }
    }

    /// A pool whose account configuration stands in a file of its own.
    pub fn with_config_path(
        bridge_dir: &str,
        mount_root: &str,
        legacy: LegacyAccountConfig,
        legacy_driver: BrowserDriverConfig,
        config_path: &str,
    ) -> (r: Self)
        ensures
            r.bridge_dir@ == bridge_dir@,
            r.mount_root@ == mount_root@,
            opt_text(r.config_path) == Some(config_path@),
            r.legacy == legacy,
            r.legacy_driver == legacy_driver,
            r.leases@.len() == 0,
    {
        BrowserPool {
            bridge_dir: bridge_dir.to_owned(),
            mount_root: mount_root.to_owned(),
            config_path: Some(config_path.to_owned()),
            legacy,
            legacy_driver,
            leases: Vec::new(),
        }
    }

    /// The configuration of the bridge.
    pub fn load_config(&self, file: Option<&AccountsFile>, facts: &Vec<ProfileFacts>) -> (r: Result<
        AccountsConfig,
        BridgeError,
    >)
        requires
            file is Some ==> facts@.len() == file->0.accounts@.len(),
        ensures
            config_outcome(file, self.bridge_dir@, self.mount_root@, facts@, self.legacy, r),
    {
        load_accounts_config(
            file,
            self.bridge_dir.as_str(),
            self.mount_root.as_str(),
            facts,
            self.legacy.clone(),
        )
    }

    /// The browser of an account, for fresh work or, if `allow_disabled`, for any.
    pub fn target_for_account(
        &self,
        config: &AccountsConfig,
        account_id: &str,
        allow_disabled: bool,
        launch_mode: BrowserLaunchMode,
    ) -> (r: Result<BrowserTarget, String>)
        ensures
            match r {
                Ok(t) => {
                    let at = account_position(config.accounts@, account_id@);
                    &&& target_fault(*config, account_id@, allow_disabled) is None
                    &&& config.accounts@[at].id@ == account_id@
                    &&& is_target_of(t, config.accounts@[at], self.bridge_dir@, launch_mode)
                },
                Err(m) => target_fault(*config, account_id@, allow_disabled) == Some(m@),
            },
    {
        let account = match config.account(account_id) {
            Some(a) => a,
            None => {
                return Err(
                    "BROWSER_ACCOUNT_UNAVAILABLE: account '".to_owned().concat(account_id).concat(
                        "' is missing from accounts.json",
                    ),
                );
            },
        };
        if !allow_disabled && (!account.enabled || account.draining) {
            let state = if account.draining {
                "draining"
            } else {
                "disabled"
            };
            return Err(
                "BROWSER_ACCOUNT_UNAVAILABLE: account '".to_owned().concat(account_id).concat(
                    "' is ",
                ).concat(state).concat(" for new work"),
            );
        }
        Ok(self.target_from_account(account, launch_mode))
    }

    /// The browser of an account.
    pub fn target_from_account(&self, account: &AccountConfig, launch_mode: BrowserLaunchMode) -> (r:
        BrowserTarget)
        ensures
            is_target_of(r, *account, self.bridge_dir@, launch_mode),
    {
        let driver = match account.browser.driver {
            Some(d) => d,
            None => BrowserDriverKind::Chrome,
        };
        let user_data_dir: Option<String> = match &account.browser.user_data_dir {
            Some(p) => Some(p.clone()),
            None => if same_text(account.id.as_str(), LEGACY_ACCOUNT_ID) && driver
                == BrowserDriverKind::Chrome && launch_mode == BrowserLaunchMode::ManagedLocal {
                Some(join_path(self.bridge_dir.as_str(), "browser-profiles/default"))
            } else {
                None
            },
        };
        BrowserTarget {
            account_id: account.id.clone(),
            instance: account.browser.instance.clone(),
            driver,
            user_data_dir,
            cdp_endpoint: copy_opt(&account.browser.cdp_endpoint),
            launch_mode,
            worktree: account.browser.worktree.clone(),
        }
    }

    /// The browser that a scope is bound to, as long as the account still has it.
    pub fn target_for_binding(
        &self,
        config: &AccountsConfig,
        binding: &BrowserBinding,
        launch_mode: BrowserLaunchMode,
    ) -> (r: Result<BrowserTarget, String>)
        ensures
            match r {
                Ok(t) => {
                    let at = account_position(config.accounts@, binding.account_id@);
                    &&& binding_target_fault(*config, binding@) is None
                    &&& is_target_of(t, config.accounts@[at], self.bridge_dir@, launch_mode)
                    &&& t.account_id@ == binding.account_id@
                    &&& t.instance@ == binding.instance@
                    &&& t.driver == binding.driver
                },
                Err(m) => binding_target_fault(*config, binding@) == Some(m@),
            },
    {
        let id = binding.account_id.as_str();
        let target = match self.target_for_account(config, id, true, launch_mode) {
            Ok(t) => t,
            Err(m) => {
                return Err(m);
            },
        };
        if !same_text(target.instance.as_str(), binding.instance.as_str()) {
            return Err(
                "BROWSER_ACCOUNT_UNAVAILABLE: account '".to_owned().concat(id).concat(
                    "' browser instance changed from '",
                ).concat(binding.instance.as_str()).concat("' to '").concat(
                    target.instance.as_str(),
                ).concat("'"),
            );
        }
        if target.driver != binding.driver {
            return Err(
                "BROWSER_ACCOUNT_UNAVAILABLE: account '".to_owned().concat(id).concat(
                    "' browser driver changed from '",
                ).concat(binding.driver.name()).concat("' to '").concat(
                    target.driver.name(),
                ).concat("'"),
            );
        }
        Ok(target)
    }

    /// The profiles that must be there before browsers start.
    pub fn provision_profiles(&self, config: &AccountsConfig) -> (r: Vec<String>)
        ensures
            texts(r@) == live_profiles(config.accounts@),
    {
        let mut out = no_texts();
        let mut i: usize = 0;
        let ghost all = config.accounts@;
        assert(all.subrange(0, 0) =~= Seq::<AccountConfig>::empty());
        while i < config.accounts.len()
            invariant
                i <= config.accounts@.len(),
                all == config.accounts@,
                texts(out@) == live_profiles(all.subrange(0, i as int)),
            decreases config.accounts@.len() - i,
        {
            let account = &config.accounts[i];
            proof {
                assert(all.subrange(0, i + 1).drop_last() =~= all.subrange(0, i as int));
                assert(all.subrange(0, i + 1).last() == *account);
            }
            if account.enabled || account.draining {
                if let Some(profile) = &account.browser.user_data_dir {
                    push_text(&mut out, profile.as_str());
                }
            }
            i += 1;
        }
        assert(all.subrange(0, all.len() as int) =~= all);
        out
    }

    /// Where the lock of a target's profile is kept, if the target has a profile.
    pub fn profile_lock_path(target: &BrowserTarget) -> (r: Option<String>)
        ensures
            opt_text(r) == match target.user_data_dir {
                Some(p) => Some(joined_path(p@, ".gpt2omo-profile.lock"@)),
                None => None,
            },
    {
        match &target.user_data_dir {
            Some(p) => Some(join_path(p.as_str(), ".gpt2omo-profile.lock")),
            None => None,
        }
    }

    /// What stands between the pool and the profile of a target. A lease counts however
    /// its path is written.
    pub fn lease_step(&self, target: &BrowserTarget) -> (r: LeaseStep)
        ensures
            match target.user_data_dir {
                None => r is NotNeeded,
                Some(p) => if exists|i: int|
                    0 <= i < self.leases@.len() && same_path((#[trigger] self.leases@[i])@, p@) {
                    r is Held
                } else {
                    r matches LeaseStep::Take(q) && q@ == p@
                },
            },
    {
        match &target.user_data_dir {
            None => LeaseStep::NotNeeded,
            Some(p) => {
                let mut i: usize = 0;
                while i < self.leases.len()
                    invariant
                        i <= self.leases@.len(),
                        target.user_data_dir == Some(*p),
                        forall|j: int|
                            0 <= j < i ==> !same_path((#[trigger] self.leases@[j])@, p@),
                    decreases self.leases@.len() - i,
                {
                    if paths_equal(self.leases[i].as_str(), p.as_str()) {
                        return LeaseStep::Held;
                    }
                    i += 1;
                }
                LeaseStep::Take(p.clone())
            },
        }
    }

    /// Notes that the pool holds the lease of a profile, until it is dropped.
    pub fn hold_lease(&mut self, profile: &str)
        ensures
            texts(final(self).leases@) == texts(old(self).leases@).push(profile@),
            final(self).bridge_dir == old(self).bridge_dir,
            final(self).mount_root == old(self).mount_root,
            final(self).config_path == old(self).config_path,
            final(self).legacy == old(self).legacy,
            final(self).legacy_driver == old(self).legacy_driver,
    {
        push_text(&mut self.leases, profile);
    }

    /// Whether a page may be created in a browser, among the configured accounts.
    pub fn validate_creation_isolation(config: &AccountsConfig, target: &BrowserTarget) -> (r:
        Result<(), String>)
        ensures
            match r {
                Ok(_) => isolation_holds(config.accounts@, *target),
                Err(m) => !isolation_holds(config.accounts@, *target) && m@
                    == "multi-account browser isolation requires every enabled account to configure a distinct browser.cdp_endpoint plus browser.user_data_dir for managed_local ownership; account '"@
                    + target.account_id@ + "' is incomplete"@,
            },
    {
        let ghost all = config.accounts@;
        let ghost live = |a: AccountConfig| is_live_account(a);
        let mut n: usize = 0;
        let mut i: usize = 0;
        proof {
            reveal(Seq::filter);
            assert(all.subrange(0, 0) =~= Seq::<AccountConfig>::empty());
        }
        while i < config.accounts.len()
            invariant
                i <= config.accounts@.len(),
                all == config.accounts@,
                live == (|a: AccountConfig| is_live_account(a)),
                n <= i,
                n == all.subrange(0, i as int).filter(live).len(),
            decreases config.accounts@.len() - i,
        {
            proof {
                reveal(Seq::filter);
                assert(all.subrange(0, i + 1).drop_last() =~= all.subrange(0, i as int));
                assert(all.subrange(0, i + 1).last() == all[i as int]);
            }
            if config.accounts[i].enabled || config.accounts[i].draining {
                n += 1;
            }
            i += 1;
        }
        assert(all.subrange(0, all.len() as int) =~= all);
        let bare = target.cdp_endpoint.is_none() || (target.launch_mode
            == BrowserLaunchMode::ManagedLocal && target.user_data_dir.is_none());
        if n > 1 && bare {
            return Err(
                "multi-account browser isolation requires every enabled account to configure a distinct browser.cdp_endpoint plus browser.user_data_dir for managed_local ownership; account '".to_owned().concat(
                target.account_id.as_str()).concat("' is incomplete"),
            );
        }
        Ok(())
    }

    /// The driver command for a target: that of the legacy account, in the target's
    /// work tree.
    pub fn driver_config(&self, target: &BrowserTarget) -> (r: BrowserDriverConfig)
        ensures
            r@ == driver_for(self.legacy_driver@, *target),
    {
        BrowserDriverConfig::with_driver(
            Some(target.driver),
            copy_opt(&self.legacy_driver.binary),
            target.worktree.as_str(),
            copy_opt(&self.legacy_driver.terminal),
        )
    }

    /// How the pages of a target are reached.
    pub fn page_route(&self, target: &BrowserTarget) -> (r: PageRoute)
        ensures
            match target.cdp_endpoint {
                Some(e) => r matches PageRoute::Endpoint(x) && x@ == e@,
                None => r matches PageRoute::Driver(d) && d@ == driver_for(
                    self.legacy_driver@,
                    *target,
                ),
            },
    {
        match &target.cdp_endpoint {
            Some(e) => PageRoute::Endpoint(e.clone()),
            None => PageRoute::Driver(self.driver_config(target)),
        }
    }

    /// The next step in finding out the health of the browser of an account, or what
    /// was found.
    pub fn health(account_id: &str, seen: &HealthSeen) -> (r: HealthStep)
        ensures
            r@ == health_step(account_id@, *seen),
    {
        let target = match &seen.target {
            None => {
                return HealthStep::ResolveTarget;
            },
            Some(Err(m)) => {
                let r = HealthStep::Report(
                    BrowserHealth {
                        account_id: account_id.to_owned(),
                        instance: String::new(),
                        driver: None,
                        reachability: BrowserReachability::Unreachable,
                        login_state: BrowserLoginState::Unknown,
                        login_required: false,
                        detail: Some(m.clone()),
                    },
                );
                return r;
            },
            Some(Ok(t)) => t,
        };
        if target.cdp_endpoint.is_some() {
            return step_endpoint_health(target, seen);
        }
        match &seen.driver {
            None => HealthStep::DetectDriver,
            Some(Ok(_)) => report_unsure(
                target,
                BrowserReachability::Reachable,
                "legacy driver reachability only; login state requires a page probe",
            ),
            Some(Err(m)) => report_unsure(target, BrowserReachability::Unreachable, m.as_str()),
        }
    }
}

pub open spec fn fits(s: Seq<char>) -> bool {
    s.len() <= URL_TEXT_LIMIT
}

fn text_fits(s: &str) -> (r: bool)
    ensures
        r == fits(s@),
{
    chars_of(s).len() <= URL_TEXT_LIMIT
}

/// The text of an endpoint of an unsuitable scheme.
pub open spec fn wrong_scheme(scheme: Seq<char>) -> Seq<char> {
    "direct CDP browser backend requires an http(s) endpoint, got '"@ + scheme + "'"@
}

pub open spec fn is_http(scheme: Seq<char>) -> bool {
    scheme == "http"@ || scheme == "https"@
}

fn http_scheme(scheme: &str) -> (r: bool)
    ensures
        r == is_http(scheme@),
{
    same_text(scheme, "http") || same_text(scheme, "https")
}

/// A URL with a path, and neither query nor fragment.
pub open spec fn bare_url(url: Seq<char>, path: Seq<char>) -> Option<Seq<char>> {
    match url_with_path(url, path) {
        None => None,
        Some(a) => match url_with_query(a, None) {
            None => None,
            Some(b) => url_without_fragment(b),
        },
    }
}

/// The texts on the way to a bare URL keep within the limit.
pub open spec fn bare_url_fits(url: Seq<char>, path: Seq<char>) -> bool {
    &&& fits(url)
    &&& fits(path)
    &&& url_with_path(url, path) matches Some(a) ==> {
        &&& fits(a)
        &&& url_with_query(a, None) matches Some(b) ==> fits(b)
    }
}

/// The URL of a resource of a DevTools endpoint, or why there is none.
pub open spec fn cdp_resource(endpoint: Seq<char>, path: Seq<char>) -> Result<Seq<char>, Seq<char>> {
    match parsed_url(endpoint) {
        Err(_) => Err("invalid configured CDP endpoint"@),
        Ok(u) => if !is_http(u.scheme) {
            Err(wrong_scheme(u.scheme))
        } else {
            match bare_url(endpoint, "/"@ + path) {
                Some(r) => Ok(r),
                None => Err("invalid configured CDP endpoint"@),
            }
        },
    }
}

/// The URL of a resource of a DevTools endpoint.
pub fn cdp_url(endpoint: &str, path: &str) -> (r: Result<String, String>)
    requires
        bare_url_fits(endpoint@, "/"@ + path@),
    ensures
        match r {
            Ok(u) => cdp_resource(endpoint@, path@) == Ok::<Seq<char>, Seq<char>>(u@),
            Err(m) => cdp_resource(endpoint@, path@) == Err::<Seq<char>, Seq<char>>(m@),
        },
{
    let parts = match url_parts(endpoint) {
        Ok(p) => p,
        Err(_) => {
            return Err("invalid configured CDP endpoint".to_owned());
        },
    };
    if !http_scheme(parts.scheme.as_str()) {
        return Err(
            "direct CDP browser backend requires an http(s) endpoint, got '".to_owned().concat(
                parts.scheme.as_str(),
            ).concat("'"),
        );
    }
    let full = "/".to_owned().concat(path);
    let a = match set_url_path(endpoint, full.as_str()) {
        Some(a) => a,
        None => {
            return Err("invalid configured CDP endpoint".to_owned());
        },
    };
    let b = match set_url_query(a.as_str(), None) {
        Some(b) => b,
        None => {
            return Err("invalid configured CDP endpoint".to_owned());
        },
    };
    match drop_url_fragment(b.as_str()) {
        Some(c) => Ok(c),
        None => Err("invalid configured CDP endpoint".to_owned()),
    }
}

/// The URL of a resource of a DevTools endpoint; nothing where a text on the way to it
/// is beyond the limit.
pub fn cdp_url_within_limit(endpoint: &str, path: &str) -> (r: Option<Result<String, String>>)
    ensures
        match r {
            Some(x) => {
                &&& bare_url_fits(endpoint@, "/"@ + path@)
                &&& match x {
                    Ok(u) => cdp_resource(endpoint@, path@) == Ok::<Seq<char>, Seq<char>>(u@),
                    Err(m) => cdp_resource(endpoint@, path@) == Err::<Seq<char>, Seq<char>>(m@),
                }
            },
            None => !bare_url_fits(endpoint@, "/"@ + path@),
        },
{
    let full = "/".to_owned().concat(path);
    if !text_fits(endpoint) || !text_fits(full.as_str()) {
        return None;
    }
    if let Some(a) = set_url_path(endpoint, full.as_str()) {
        if !text_fits(a.as_str()) {
            return None;
        }
        if let Some(b) = set_url_query(a.as_str(), None) {
            if !text_fits(b.as_str()) {
                return None;
            }
        }
    }
    Some(cdp_url(endpoint, path))
}

/// The URL that opens a page on the ChatGPT site, from that of the resource for new
/// pages; nothing where it is beyond the limit or no URL.
pub fn new_page_url(resource: &str) -> (r: Option<String>)
    ensures
        opt_text(r) == (if fits(resource@) {
            url_with_query(resource@, Some(CHATGPT_URL@))
        } else {
            None
        }),
{
    proof {
        reveal_strlit("https://chatgpt.com");
    }
    if !text_fits(resource) {
        return None;
    }
    set_url_query(resource, Some(CHATGPT_URL.to_owned()))
}

/// The id of a page that was opened, as the reply names it.
pub fn created_page_id(reply: &Json) -> (r: Option<String>)
    ensures
        opt_text(r) == text_of(
            match reply.model().field("id"@) {
                Some(v) => Some(v),
                None => reply.model().field("targetId"@),
            },
        ),
{
    let id = match reply.get("id") {
        Some(v) => Some(v),
        None => reply.get("targetId"),
    };
    match id {
        Some(Json::Text(s)) => Some(s.clone()),
        _ => None,
    }
}

/// Whether a page is closed after a reply with this status: a page that is gone already
/// counts as closed.
pub fn page_closed(status: u16) -> (r: bool)
    ensures
        r == (status == 404 || status == 410 || 200 <= status < 300),
{
    status == 404 || status == 410 || (200 <= status && status < 300)
}

pub open spec fn is_page_char(c: char) -> bool {
    is_alnum(c) || c == '-' || c == '_' || c == '.' || c == ':'
}

/// One to 256 ASCII letters, digits, hyphens, underscores, full stops and colons.
pub open spec fn is_page_id(s: Seq<char>) -> bool {
    &&& 1 <= s.len() <= 256
    &&& forall|i: int| 0 <= i < s.len() ==> is_page_char(#[trigger] s[i])
}

/// Whether a text can name a page.
pub fn validate_page_id(page_id: &str) -> (r: Result<(), String>)
    ensures
        match r {
            Ok(_) => is_page_id(page_id@),
            Err(m) => !is_page_id(page_id@) && m@ == "invalid browser page id"@,
        },
{
    let v = chars_of(page_id);
    if v.len() == 0 || v.len() > 256 {
        return Err("invalid browser page id".to_owned());
    }
    let mut i: usize = 0;
    while i < v.len()
        invariant
            i <= v@.len(),
            v@ == page_id@,
            forall|j: int| 0 <= j < i ==> is_page_char(#[trigger] v@[j]),
        decreases v@.len() - i,
    {
        let c: char = v[i];
        if !(is_alnum_char(c) || c == '-' || c == '_' || c == '.' || c == ':') {
            assert(!is_page_char(page_id@[i as int]));
            return Err("invalid browser page id".to_owned());
        }
        i += 1;
    }
    Ok(())
}

/// Why a URL is not that of a page on this machine.
pub open spec fn socket_fault(url: Seq<char>) -> Option<Seq<char>> {
    match parsed_url(url) {
        Err(_) => Some("invalid CDP websocket URL"@),
        Ok(u) => if u.scheme != "ws"@ && u.scheme != "wss"@ {
            Some("CDP target websocket must use ws or wss"@)
        } else if !is_loopback_host(u) {
            Some("CDP target websocket must remain loopback-only"@)
        } else {
            None
        },
    }
}

/// Whether a URL is that of a page on this machine.
pub fn validate_loopback_ws(value: &str) -> (r: Result<(), String>)
    ensures
        match r {
            Ok(_) => socket_fault(value@) is None,
            Err(m) => socket_fault(value@) == Some(m@),
        },
{
    let parts = match url_parts(value) {
        Ok(p) => p,
        Err(_) => {
            return Err("invalid CDP websocket URL".to_owned());
        },
    };
    if !same_text(parts.scheme.as_str(), "ws") && !same_text(parts.scheme.as_str(), "wss") {
        return Err("CDP target websocket must use ws or wss".to_owned());
    }
    if !host_is_loopback(&parts) {
        return Err("CDP target websocket must remain loopback-only".to_owned());
    }
    Ok(())
}

/// The URL of a page with the host, the port and the security of an endpoint, or why
/// there is none.
pub open spec fn rebased_socket(url: Seq<char>, endpoint: Seq<char>) -> Result<Seq<char>, Seq<char>> {
    match socket_fault(url) {
        Some(m) => Err(m),
        None => match parsed_url(endpoint) {
            Err(_) => Err("invalid configured CDP endpoint"@),
            Ok(c) => if !is_http(c.scheme) {
                Err(wrong_scheme(c.scheme))
            } else {
                match c.host {
                    None => Err("configured CDP endpoint has no host"@),
                    Some(host) => match url_with_host(url, host) {
                        None => Err("configured CDP endpoint has an invalid host"@),
                        Some(a) => match url_with_port(a, c.port) {
                            None => Err("configured CDP endpoint has an invalid port"@),
                            Some(b) => match url_with_scheme(b, socket_scheme(c.scheme)) {
                                None => Err("configured CDP endpoint has an invalid scheme"@),
                                Some(r) => Ok(r),
                            },
                        },
                    },
                }
            },
        },
    }
}

/// The scheme of the sockets of an endpoint.
pub open spec fn socket_scheme(scheme: Seq<char>) -> Seq<char> {
    if scheme == "http"@ {
        "ws"@
    } else {
        "wss"@
    }
}

/// The texts on the way to a rebased URL keep within the limit.
pub open spec fn rebase_fits(url: Seq<char>, endpoint: Seq<char>) -> bool {
    &&& fits(url)
    &&& parsed_url(endpoint) matches Ok(c) ==> {
        c.host matches Some(host) ==> {
            &&& fits(host)
            &&& url_with_host(url, host) matches Some(a) ==> {
                &&& fits(a)
                &&& url_with_port(a, c.port) matches Some(b) ==> fits(b)
            }
        }
    }
}

/// The URL of a page as it is reached through an endpoint: only a page on this machine
/// is taken, and the endpoint's host, port and security replace its own.
pub fn rebase_cdp_websocket_url(debugger_url: &str, endpoint: &str) -> (r: Result<String, String>)
    requires
        rebase_fits(debugger_url@, endpoint@),
    ensures
        match r {
            Ok(u) => rebased_socket(debugger_url@, endpoint@) == Ok::<Seq<char>, Seq<char>>(u@),
            Err(m) => rebased_socket(debugger_url@, endpoint@) == Err::<Seq<char>, Seq<char>>(m@),
        },
{
    if let Err(m) = validate_loopback_ws(debugger_url) {
        return Err(m);
    }
    let configured = match url_parts(endpoint) {
        Ok(p) => p,
        Err(_) => {
            return Err("invalid configured CDP endpoint".to_owned());
        },
    };
    if !http_scheme(configured.scheme.as_str()) {
        return Err(
            "direct CDP browser backend requires an http(s) endpoint, got '".to_owned().concat(
                configured.scheme.as_str(),
            ).concat("'"),
        );
    }
    let host = match &configured.host {
        Some(h) => h,
        None => {
            return Err("configured CDP endpoint has no host".to_owned());
        },
    };
    let a = match set_url_host(debugger_url, host.as_str()) {
        Some(a) => a,
        None => {
            return Err("configured CDP endpoint has an invalid host".to_owned());
        },
    };
    let b = match set_url_port(a.as_str(), configured.port) {
        Some(b) => b,
        None => {
            return Err("configured CDP endpoint has an invalid port".to_owned());
        },
    };
    let scheme = if same_text(configured.scheme.as_str(), "http") {
        "ws"
    } else {
        "wss"
    };
    proof {
        reveal_strlit("ws");
        reveal_strlit("wss");
    }
    match set_url_scheme(b.as_str(), scheme) {
        Some(c) => Ok(c),
        None => Err("configured CDP endpoint has an invalid scheme".to_owned()),
    }
}

/// The URL of a page as it is reached through an endpoint; nothing where a text on the
/// way to it is beyond the limit.
pub fn rebase_within_limit(debugger_url: &str, endpoint: &str) -> (r: Option<
    Result<String, String>,
>)
    ensures
        match r {
            Some(x) => {
                &&& rebase_fits(debugger_url@, endpoint@)
                &&& match x {
                    Ok(u) => rebased_socket(debugger_url@, endpoint@) == Ok::<
                        Seq<char>,
                        Seq<char>,
                    >(u@),
                    Err(m) => rebased_socket(debugger_url@, endpoint@) == Err::<
                        Seq<char>,
                        Seq<char>,
                    >(m@),
                }
            },
            None => !rebase_fits(debugger_url@, endpoint@),
        },
{
    if !text_fits(debugger_url) {
        return None;
    }
    if let Ok(c) = url_parts(endpoint) {
        if let Some(host) = &c.host {
            if !text_fits(host.as_str()) {
                return None;
            }
            if let Some(a) = set_url_host(debugger_url, host.as_str()) {
                if !text_fits(a.as_str()) {
                    return None;
                }
                if let Some(b) = set_url_port(a.as_str(), c.port) {
                    if !text_fits(b.as_str()) {
                        return None;
                    }
                }
            }
        }
    }
    Some(rebase_cdp_websocket_url(debugger_url, endpoint))
}

/// The position of the first target with this id, or the number of targets.
pub open spec fn target_position(v: Seq<CdpTarget>, id: Seq<char>) -> int
    decreases v.len(),
{
    if v.len() == 0 || v[0].id@ == id {
        0
    } else {
        1 + target_position(v.drop_first(), id)
    }
}

/// The debugger URL of the target with this id.
pub fn debugger_url<'a>(targets: &'a Vec<CdpTarget>, page_id: &str) -> (r: Result<&'a str, String>)
    ensures
        match r {
            Ok(u) => {
                let i = target_position(targets@, page_id@);
                &&& is_page_id(page_id@)
                &&& i < targets@.len()
                &&& u@ == targets@[i].web_socket_debugger_url@
            },
            Err(m) => if !is_page_id(page_id@) {
                m@ == "invalid browser page id"@
            } else {
                &&& target_position(targets@, page_id@) == targets@.len()
                &&& m@ == "CDP target '"@ + page_id@
                    + "' does not exist on configured browser instance"@
            },
        },
{
    if let Err(m) = validate_page_id(page_id) {
        return Err(m);
    }
    let ghost all = targets@;
    let mut i: usize = 0;
    assert(all.subrange(0, all.len() as int) =~= all);
    while i < targets.len()
        invariant
            i <= targets@.len(),
            all == targets@,
            is_page_id(page_id@),
            target_position(all, page_id@) == i + target_position(
                all.subrange(i as int, all.len() as int),
                page_id@,
            ),
        decreases targets@.len() - i,
    {
        if same_text(targets[i].id.as_str(), page_id) {
            return Ok(targets[i].web_socket_debugger_url.as_str());
        }
        assert(all.subrange(i as int, all.len() as int).drop_first() =~= all.subrange(
            i + 1,
            all.len() as int,
        ));
        i += 1;
    }
    Err(
        "CDP target '".to_owned().concat(page_id).concat(
            "' does not exist on configured browser instance",
        ),
    )
}

/// How well a target suits an inspection of an account: a page on the ChatGPT site
/// best, then any page, then anything.
pub open spec fn inspection_rank(t: CdpTarget) -> int {
    if t.target_type@ == "page"@ && contains_text(t.url@, "chatgpt.com"@) {
        2
    } else if t.target_type@ == "page"@ {
        1
    } else {
        0
    }
}

/// `i` is the first target of the best rank.
pub open spec fn is_inspection_choice(v: Seq<CdpTarget>, i: int) -> bool {
    &&& 0 <= i < v.len()
    &&& forall|j: int| 0 <= j < i ==> inspection_rank(#[trigger] v[j]) < inspection_rank(v[i])
    &&& forall|j: int| i < j < v.len() ==> inspection_rank(#[trigger] v[j]) <= inspection_rank(v[i])
}

fn rank_of(t: &CdpTarget) -> (r: u8)
    ensures
        r == inspection_rank(*t),
{
    if same_text(t.target_type.as_str(), "page") {
        if contains(t.url.as_str(), "chatgpt.com") {
            2
        } else {
            1
        }
    } else {
        0
    }
}

/// The target by which an account is inspected.
pub fn pick_inspection_target(targets: &Vec<CdpTarget>, account_id: &str) -> (r: Result<
    usize,
    String,
>)
    ensures
        match r {
            Ok(i) => is_inspection_choice(targets@, i as int),
            Err(m) => targets@.len() == 0 && m@ == "no browser target found for account '"@
                + account_id@ + "'"@,
        },
{
    if targets.len() == 0 {
        return Err(
            "no browser target found for account '".to_owned().concat(account_id).concat("'"),
        );
    }
    let mut best: usize = 0;
    let mut rank: u8 = rank_of(&targets[0]);
    let mut i: usize = 1;
    while i < targets.len()
        invariant
            1 <= i <= targets@.len(),
            best < i,
            rank == inspection_rank(targets@[best as int]),
            forall|j: int| 0 <= j < best ==> inspection_rank(#[trigger] targets@[j]) < rank,
            forall|j: int| best < j < i ==> inspection_rank(#[trigger] targets@[j]) <= rank,
        decreases targets@.len() - i,
    {
        let k: u8 = rank_of(&targets[i]);
        if k > rank {
            best = i;
            rank = k;
        }
        i += 1;
    }
    Ok(best)
}

/// The number of every request on a page's socket.
pub const CDP_REQUEST_ID: u64 = 1;

/// The request that evaluates an expression in a page.
pub open spec fn evaluate_message(expression: Seq<char>) -> JsonModel {
    JsonModel::Object(
        seq![
            ("id"@, JsonModel::Unsigned(CDP_REQUEST_ID)),
            ("method"@, JsonModel::Text("Runtime.evaluate"@)),
            (
                "params"@,
                JsonModel::Object(
                    seq![
                        ("expression"@, JsonModel::Text(expression)),
                        ("returnByValue"@, JsonModel::Bool(true)),
                        ("awaitPromise"@, JsonModel::Bool(true)),
                        ("userGesture"@, JsonModel::Bool(true)),
                    ],
                ),
            ),
        ],
    )
}

/// The request that evaluates an expression in a page.
pub fn evaluate_request(expression: &str) -> (r: Json)
    ensures
        r.model() == evaluate_message(expression@),
{
    let mut p = no_fields();
    put(&mut p, "expression", Json::text(expression));
    put(&mut p, "returnByValue", Json::Bool(true));
    put(&mut p, "awaitPromise", Json::Bool(true));
    put(&mut p, "userGesture", Json::Bool(true));
    assert(crate::json::field_models(p@) =~= seq![
        ("expression"@, JsonModel::Text(expression@)),
        ("returnByValue"@, JsonModel::Bool(true)),
        ("awaitPromise"@, JsonModel::Bool(true)),
        ("userGesture"@, JsonModel::Bool(true)),
    ]);
    let mut f = no_fields();
    put(&mut f, "id", Json::Unsigned(CDP_REQUEST_ID));
    put(&mut f, "method", Json::text("Runtime.evaluate"));
    put(&mut f, "params", Json::Object(p));
    assert(crate::json::field_models(f@) =~= evaluate_message(expression@)->Object_0);
    Json::Object(f)
}

/// What a message on a page's socket means to the waiting request.
pub enum EvalReply {
    /// It answers something else.
    Unrelated,
    /// The request failed, for this reason.
    Failed(Json),
    /// The expression threw this.
    Threw(Json),
    /// It answers the request without a result.
    NoResult,
    /// The expression has this value.
    Value(Json),
}

/// The mathematical value of an [`EvalReply`].
pub enum EvalModel {
    Unrelated,
    Failed(JsonModel),
    Threw(JsonModel),
    NoResult,
    Value(JsonModel),
}

impl View for EvalReply {
    type V = EvalModel;

    open spec fn view(&self) -> EvalModel {
        match *self {
            EvalReply::Unrelated => EvalModel::Unrelated,
            EvalReply::Failed(v) => EvalModel::Failed(v.model()),
            EvalReply::Threw(v) => EvalModel::Threw(v.model()),
            EvalReply::NoResult => EvalModel::NoResult,
            EvalReply::Value(v) => EvalModel::Value(v.model()),
        }
    }
}

/// The value in the result of an evaluation: the value itself, null, or the
/// description of what has no value.
pub open spec fn remote_value(remote: JsonModel) -> JsonModel {
    match remote.field("value"@) {
        Some(v) => v,
        None => if text_of(remote.field("subtype"@)) == Some("null"@) {
            JsonModel::Null
        } else {
            match text_of(remote.field("description"@)) {
                Some(d) => JsonModel::Text(d),
                None => JsonModel::Null,
            }
        },
    }
}

/// What a message on a page's socket means to the waiting request.
pub open spec fn eval_meaning(v: JsonModel) -> EvalModel {
    if u64_of(v.field("id"@)) != Some(CDP_REQUEST_ID) {
        EvalModel::Unrelated
    } else {
        match v.field("error"@) {
            Some(e) => EvalModel::Failed(e),
            None => match v.field2("result"@, "exceptionDetails"@) {
                Some(x) => EvalModel::Threw(x),
                None => match v.field2("result"@, "result"@) {
                    None => EvalModel::NoResult,
                    Some(remote) => EvalModel::Value(remote_value(remote)),
                },
            },
        }
    }
}

/// Reads a message on a page's socket.
pub fn read_eval_reply(value: &Json) -> (r: EvalReply)
    ensures
        r@ == eval_meaning(value.model()),
{
    match value.u64_field("id") {
        Some(n) => {
            if n != CDP_REQUEST_ID {
                return EvalReply::Unrelated;
            }
        },
        None => {
            return EvalReply::Unrelated;
        },
    }
    if let Some(e) = value.get("error") {
        return EvalReply::Failed(e.copy());
    }
    if let Some(x) = value.get2("result", "exceptionDetails") {
        return EvalReply::Threw(x.copy());
    }
    let remote = match value.get2("result", "result") {
        Some(r) => r,
        None => {
            return EvalReply::NoResult;
        },
    };
    if let Some(v) = remote.get("value") {
        return EvalReply::Value(v.copy());
    }
    let is_null = match remote.text_field("subtype") {
        Some(s) => same_text(s.as_str(), "null"),
        None => false,
    };
    if is_null {
        return EvalReply::Value(Json::Null);
    }
    match remote.text_field("description") {
        Some(d) => EvalReply::Value(Json::Text(d)),
        None => EvalReply::Value(Json::Null),
    }
}

/// What a probe of a page comes to; nothing is known where there was no reply.
pub fn cdp_probe_condition(reply: Option<&Json>) -> (r: ChatgptUiCondition)
    ensures
        r == match reply {
            Some(v) => ui_condition(v.model()),
            None => ChatgptUiCondition::Unknown,
        },
{
    match reply {
        Some(v) => classify_chatgpt_ui_snapshot(v),
        None => ChatgptUiCondition::Unknown,
    }
}

/// The words in which a page behind a DevTools endpoint is turned down.
pub open spec fn probe_fault_text(f: PageProbeFault, url: Seq<char>) -> Seq<char> {
    match f {
        PageProbeFault::NoUrl => "ChatGPT page probe has no url"@,
        PageProbeFault::InvalidUrl => parsed_url(url)->Err_0,
        PageProbeFault::OtherOrigin => "browser page is not on https://chatgpt.com"@,
        PageProbeFault::Inactive => "ChatGPT Web interface is not active on page"@,
    }
}

/// Reads a probe of a page behind a DevTools endpoint, or says what speaks against the
/// page.
pub fn validate_probe(value: &Json) -> (r: Result<ChatgptPageProbe, String>)
    ensures
        match r {
            Ok(p) => {
                &&& page_fault(value.model()) is None
                &&& text_of(value.model().field("url"@)) == Some(p.url@)
                &&& p.title@ == or_empty(text_of(value.model().field("title"@)))
                &&& p.generating == (bool_of(value.model().field("generating"@)) == Some(true))
            },
            Err(m) => {
                &&& page_fault(value.model()) is Some
                &&& m@ == probe_fault_text(
                    page_fault(value.model())->0,
                    or_empty(text_of(value.model().field("url"@))),
                )
            },
        },
{
    match read_page_probe(value) {
        Ok(p) => Ok(p),
        Err(PageProbeFault::NoUrl) => Err("ChatGPT page probe has no url".to_owned()),
        Err(PageProbeFault::InvalidUrl) => {
            let url = text_or_empty(value.text_field("url"));
            match url_parts(url.as_str()) {
                Ok(_) => Err(String::new()),
                Err(m) => Err(m),
            }
        },
        Err(PageProbeFault::OtherOrigin) => Err(
            "browser page is not on https://chatgpt.com".to_owned(),
        ),
        Err(PageProbeFault::Inactive) => Err(
            "ChatGPT Web interface is not active on page".to_owned(),
        ),
    }
}

/// Why an evaluation gave no value.
pub open spec fn eval_fault_text(reply: EvalReply, shown: Seq<char>) -> Option<Seq<char>> {
    match reply {
        EvalReply::Failed(_) => Some("CDP Runtime.evaluate failed: "@ + shown),
        EvalReply::Threw(_) => Some("CDP JavaScript exception: "@ + shown),
        EvalReply::NoResult => Some("CDP Runtime.evaluate returned no result object"@),
        _ => None,
    }
}

/// Why an evaluation gave no value; `shown` is the failure or the exception as it is shown in
/// messages.
pub fn eval_fault(reply: &EvalReply, shown: &str) -> (r: Option<String>)
    ensures
        opt_text(r) == eval_fault_text(*reply, shown@),
{
    match reply {
        EvalReply::Failed(_) => Some("CDP Runtime.evaluate failed: ".to_owned().concat(shown)),
        EvalReply::Threw(_) => Some("CDP JavaScript exception: ".to_owned().concat(shown)),
        EvalReply::NoResult => Some("CDP Runtime.evaluate returned no result object".to_owned()),
        _ => None,
    }
}

/// What an evaluation waits for.
#[derive(Clone, Copy, Debug, PartialEq, Eq, Structural)]
pub enum EvalWait {
    Connection,
    Request,
    Response,
}

/// What is said of an evaluation that waited too long.
pub open spec fn eval_timeout_text(wait: EvalWait, instance: Seq<char>) -> Seq<char> {
    (match wait {
        EvalWait::Connection => "timed out connecting to CDP websocket for "@,
        EvalWait::Request => "timed out sending CDP Runtime.evaluate request for "@,
        EvalWait::Response => "timed out waiting for CDP Runtime.evaluate response for "@,
    }) + instance
}

/// What is said of an evaluation that waited too long.
pub fn eval_timeout(wait: EvalWait, instance: &str) -> (r: String)
    ensures
        r@ == eval_timeout_text(wait, instance@),
{
    let head = match wait {
        EvalWait::Connection => "timed out connecting to CDP websocket for ",
        EvalWait::Request => "timed out sending CDP Runtime.evaluate request for ",
        EvalWait::Response => "timed out waiting for CDP Runtime.evaluate response for ",
    };
    head.to_owned().concat(instance)
}

/// Whether a reply says that something was clicked.
pub fn retry_clicked(reply: &Json) -> (r: bool)
    ensures
        r == (bool_of(reply.model().field("clicked"@)) == Some(true)),
{
    is_true(reply.bool_field("clicked"))
}

/// The expression that fills the prompt box of a page behind a DevTools endpoint; a
/// blank prompt has none.
pub fn cdp_insert_expression(prompt: &str) -> (r: Result<String, String>)
    ensures
        match r {
            Ok(e) => trimmed(prompt@).len() > 0 && e@ == CDP_INSERT_PROMPT_HEAD@ + json_quoted(
                prompt@,
            ) + CDP_INSERT_PROMPT_TAIL@,
            Err(m) => trimmed(prompt@).len() == 0 && m@ == "ChatGPT Web prompt cannot be empty"@,
        },
{
    if is_blank(prompt) {
        return Err("ChatGPT Web prompt cannot be empty".to_owned());
    }
    Ok(
        CDP_INSERT_PROMPT_HEAD.to_owned().concat(json_quote(prompt).as_str()).concat(
            CDP_INSERT_PROMPT_TAIL,
        ),
    )
}

/// A path that is taken as it is written on every system.
pub open spec fn is_plain_path(path: Seq<char>) -> bool {
    !has_prefix(path, "\\\\?\\"@)
}

/// Why the browser behind an endpoint is not the one of a profile. A browser that
/// answers is not thereby the right one: its profile must be the configured one.
pub open spec fn identity_fault(version: JsonModel, profile: Seq<char>) -> Option<Seq<char>> {
    match text_of(version.field("userDataDir"@)) {
        None => Some(
            "browser CDP endpoint did not report a userDataDir, so its profile identity cannot be confirmed for "@
                + profile,
        ),
        Some(reported) => if !same_path(reported, profile) {
            Some(
                "browser CDP endpoint is serving profile "@ + reported
                    + " but this account is configured for "@ + profile
                    + "; refusing to use another profile's browser"@,
            )
        } else {
            None
        },
    }
}

/// Whether the browser behind an endpoint is the one of a profile, by what the browser
/// reports. Nothing is stated of paths with the Windows verbatim prefix, which are
/// simplified differently on different systems.
pub fn cdp_identity_matches_profile(version: &Json, expected_profile: &str) -> (r: Result<
    (),
    String,
>)
    ensures
        (is_plain_path(expected_profile@) && (text_of(
            version.model().field("userDataDir"@),
        ) matches Some(p) ==> is_plain_path(p))) ==> match r {
            Ok(_) => identity_fault(version.model(), expected_profile@) is None,
            Err(m) => identity_fault(version.model(), expected_profile@) == Some(m@),
        },
        text_of(version.model().field("userDataDir"@)) is None ==> r is Err,
{
    let reported = match version.text_field("userDataDir") {
        Some(p) => p,
        None => {
            return Err(
                "browser CDP endpoint did not report a userDataDir, so its profile identity cannot be confirmed for ".to_owned().concat(
                expected_profile),
            );
        },
    };
    let reported_path = simplified_path(reported.as_str());
    let expected_path = simplified_path(expected_profile);
    if !paths_equal(reported_path.as_str(), expected_path.as_str()) {
        return Err(
            "browser CDP endpoint is serving profile ".to_owned().concat(
                reported_path.as_str(),
            ).concat(" but this account is configured for ").concat(expected_path.as_str()).concat(
                "; refusing to use another profile's browser",
            ),
        );
    }
    Ok(())
}

/// Why the bridge cannot start the browser of a target.
pub open spec fn launch_fault(target: BrowserTarget) -> Option<Seq<char>> {
    if target.user_data_dir is None {
        Some(
            "account '"@ + target.account_id@
                + "' cannot launch an isolated browser without browser.user_data_dir"@,
        )
    } else if target.cdp_endpoint is None {
        Some(
            "account '"@ + target.account_id@
                + "' cannot launch an isolated browser without browser.cdp_endpoint"@,
        )
    } else {
        match parsed_url(target.cdp_endpoint->0@) {
            Err(_) => Some("invalid configured CDP endpoint"@),
            Ok(u) => if u.scheme != "http"@ {
                Some("automatic Chromium startup requires an http loopback CDP endpoint"@)
            } else if !is_loopback_host(u) {
                Some("automatic Chromium startup requires a loopback CDP host"@)
            } else if u.port is None {
                Some("configured CDP endpoint has no port"@)
            } else {
                None
            },
        }
    }
}

/// The arguments that start a browser on a profile, with its DevTools on a port of this
/// machine.
pub open spec fn launch_args(profile: Seq<char>, port: u16) -> Seq<Seq<char>> {
    seq![
        "--user-data-dir="@ + profile,
        "--remote-debugging-address=127.0.0.1"@,
        "--remote-debugging-port="@ + decimal(port as nat),
        "--no-first-run"@,
        "--no-default-browser-check"@,
        "about:blank"@,
    ]
}

/// The arguments that start the browser of a target.
pub fn chromium_launch_args(target: &BrowserTarget) -> (r: Result<Vec<String>, String>)
    ensures
        match r {
            Ok(v) => {
                &&& launch_fault(*target) is None
                &&& texts(v@) == launch_args(
                    target.user_data_dir->0@,
                    parsed_url(target.cdp_endpoint->0@)->Ok_0.port->0,
                )
            },
            Err(m) => launch_fault(*target) == Some(m@),
        },
{
    let profile = match &target.user_data_dir {
        Some(p) => p,
        None => {
            return Err(
                "account '".to_owned().concat(target.account_id.as_str()).concat(
                    "' cannot launch an isolated browser without browser.user_data_dir",
                ),
            );
        },
    };
    let endpoint = match &target.cdp_endpoint {
        Some(e) => e,
        None => {
            return Err(
                "account '".to_owned().concat(target.account_id.as_str()).concat(
                    "' cannot launch an isolated browser without browser.cdp_endpoint",
                ),
            );
        },
    };
    let url = match url_parts(endpoint.as_str()) {
        Ok(u) => u,
        Err(_) => {
            return Err("invalid configured CDP endpoint".to_owned());
        },
    };
    if !same_text(url.scheme.as_str(), "http") {
        return Err(
            "automatic Chromium startup requires an http loopback CDP endpoint".to_owned(),
        );
    }
    if !host_is_loopback(&url) {
        return Err("automatic Chromium startup requires a loopback CDP host".to_owned());
    }
    let port: u16 = match url.port {
        Some(p) => p,
        None => {
            return Err("configured CDP endpoint has no port".to_owned());
        },
    };
    let mut v = no_texts();
    push_text(&mut v, "--user-data-dir=".to_owned().concat(profile.as_str()).as_str());
    push_text(&mut v, "--remote-debugging-address=127.0.0.1");
    push_text(
        &mut v,
        "--remote-debugging-port=".to_owned().concat(decimal_of(port as u64).as_str()).as_str(),
    );
    push_text(&mut v, "--no-first-run");
    push_text(&mut v, "--no-default-browser-check");
    push_text(&mut v, "about:blank");
    assert(texts(v@) =~= launch_args(profile@, port));
    Ok(v)
}

/// A place where a browser may be installed, and whether a file is there.
#[derive(Debug)]
pub struct ExecutableCandidate {
    pub path: String,
    pub is_file: bool,
}

/// The first candidate that is a file.
pub open spec fn first_executable(v: Seq<ExecutableCandidate>) -> Option<Seq<char>>
    decreases v.len(),
{
    if v.len() == 0 {
        None
    } else if v[0].is_file {
        Some(v[0].path@)
    } else {
        first_executable(v.drop_first())
    }
}

/// The browser to start: the one that was asked for, if it is a file, or the first of
/// the usual places that is one.
pub fn discover_chromium_executable(
    explicit: &Option<ExecutableCandidate>,
    usual: &Vec<ExecutableCandidate>,
) -> (r: Option<String>)
    ensures
        opt_text(r) == (if explicit is Some && explicit->0.is_file {
            Some(explicit->0.path@)
        } else {
            first_executable(usual@)
        }),
{
    if let Some(c) = explicit {
        if c.is_file {
            return Some(c.path.clone());
        }
    }
    let mut i: usize = 0;
    assert(usual@.subrange(0, usual@.len() as int) =~= usual@);
    while i < usual.len()
        invariant
            i <= usual@.len(),
            first_executable(usual@) == first_executable(
                usual@.subrange(i as int, usual@.len() as int),
            ),
            !(explicit is Some && explicit->0.is_file),
        decreases usual@.len() - i,
    {
        if usual[i].is_file {
            return Some(usual[i].path.clone());
        }
        assert(usual@.subrange(i as int, usual@.len() as int).drop_first() =~= usual@.subrange(
            i + 1,
            usual@.len() as int,
        ));
        i += 1;
    }
    None
}

/// What has been found out of a browser that must run.
pub struct InstanceSeen {
    pub lease: Option<Result<(), String>>,
    /// What the endpoint reports of its browser, or nothing where it did not answer.
    pub version: Option<Option<Json>>,
    /// The browser to start, or nothing where none was found.
    pub executable: Option<Option<String>>,
    pub started: Option<Result<(), String>>,
    /// Whether the started browser answered the last time it was asked.
    pub answered: Option<bool>,
    pub past_deadline: bool,
}

/// What to do next so that a browser runs.
#[derive(Debug)]
pub enum InstanceStep {
    TakeLease,
    AskVersion,
    FindExecutable,
    /// Start this executable with these arguments.
    Start(String, Vec<String>),
    /// Ask the started browser, after a pause if it was asked before.
    AskAgain,
    Ready,
    Fail(String),
}

/// The mathematical value of an [`InstanceStep`].
pub enum InstanceStepModel {
    TakeLease,
    AskVersion,
    FindExecutable,
    Start(Seq<char>, Seq<Seq<char>>),
    AskAgain,
    Ready,
    Fail(Seq<char>),
}

impl View for InstanceStep {
    type V = InstanceStepModel;

    open spec fn view(&self) -> InstanceStepModel {
        match *self {
            InstanceStep::TakeLease => InstanceStepModel::TakeLease,
            InstanceStep::AskVersion => InstanceStepModel::AskVersion,
            InstanceStep::FindExecutable => InstanceStepModel::FindExecutable,
            InstanceStep::Start(e, a) => InstanceStepModel::Start(e@, texts(a@)),
            InstanceStep::AskAgain => InstanceStepModel::AskAgain,
            InstanceStep::Ready => InstanceStepModel::Ready,
            InstanceStep::Fail(m) => InstanceStepModel::Fail(m@),
        }
    }
}

/// `browser instance '..' for account '..'`, as failures name a browser.
pub open spec fn instance_name(target: BrowserTarget) -> Seq<char> {
    "browser instance '"@ + target.instance@ + "' for account '"@ + target.account_id@ + "'"@
}

/// The next step for a browser that did not answer: the bridge starts it if it may,
/// and waits until it answers.
pub open spec fn start_step(
    target: BrowserTarget,
    endpoint: Seq<char>,
    seen: InstanceSeen,
) -> InstanceStepModel {
    if target.launch_mode == BrowserLaunchMode::AttachOnly {
        InstanceStepModel::Fail(
            "attach_only "@ + instance_name(target) + " is unreachable at "@ + endpoint
                + "; gpt2omo will not start a local Chromium"@,
        )
    } else {
        match seen.executable {
            None => InstanceStepModel::FindExecutable,
            Some(None) => InstanceStepModel::Fail(
                instance_name(target) + " is unreachable at "@ + endpoint
                    + " and no Chromium executable was found; start that profile manually or set OMO_CHROMIUM_BIN"@,
            ),
            Some(Some(path)) => match launch_fault(target) {
                Some(m) => InstanceStepModel::Fail(m),
                None => match seen.started {
                    None => InstanceStepModel::Start(
                        path@,
                        launch_args(
                            target.user_data_dir->0@,
                            parsed_url(target.cdp_endpoint->0@)->Ok_0.port->0,
                        ),
                    ),
                    Some(Err(_)) => InstanceStepModel::Fail(
                        "failed to start Chromium '"@ + path@ + "' for account '"@
                            + target.account_id@ + "'"@,
                    ),
                    Some(Ok(_)) => if seen.answered == Some(true) {
                        InstanceStepModel::Ready
                    } else if seen.answered == Some(false) && seen.past_deadline {
                        InstanceStepModel::Fail(
                            instance_name(target) + " did not expose CDP at "@ + endpoint
                                + " after startup"@,
                        )
                    } else {
                        InstanceStepModel::AskAgain
                    },
                },
            },
        }
    }
}

/// The next step so that the browser of a target runs: the profile is leased if the
/// bridge starts the browser, a browser that answers must serve the target's profile,
/// and one that does not answer is started.
pub open spec fn instance_step(target: BrowserTarget, seen: InstanceSeen) -> InstanceStepModel {
    match target.cdp_endpoint {
        None => InstanceStepModel::Fail("browser target has no CDP endpoint"@),
        Some(endpoint) => {
            let managed = target.launch_mode == BrowserLaunchMode::ManagedLocal;
            if managed && seen.lease is None {
                InstanceStepModel::TakeLease
            } else if managed && seen.lease->0 is Err {
                InstanceStepModel::Fail(seen.lease->0->Err_0@)
            } else {
                match seen.version {
                    None => InstanceStepModel::AskVersion,
                    Some(Some(version)) => if target.user_data_dir is Some && identity_fault(
                        version.model(),
                        target.user_data_dir->0@,
                    ) is Some {
                        InstanceStepModel::Fail(
                            instance_name(target) + " at "@ + endpoint@
                                + " failed profile identity verification"@,
                        )
                    } else {
                        InstanceStepModel::Ready
                    },
                    Some(None) => start_step(target, endpoint@, seen),
                }
            }
        },
    }
}

/// The profile of a target and the one that its browser reports are plain paths.
pub open spec fn plain_profiles(target: BrowserTarget, seen: InstanceSeen) -> bool {
    &&& target.user_data_dir matches Some(p) ==> is_plain_path(p@)
    &&& seen.version matches Some(Some(v)) ==> (text_of(
        v.model().field("userDataDir"@),
    ) matches Some(p) ==> is_plain_path(p))
}

fn instance_label(target: &BrowserTarget) -> (r: String)
    ensures
        r@ == instance_name(*target),
{
    "browser instance '".to_owned().concat(target.instance.as_str()).concat("' for account '").concat(
        target.account_id.as_str()).concat("'")
}

fn step_start(target: &BrowserTarget, endpoint: &str, seen: &InstanceSeen) -> (r: InstanceStep)
    ensures
        r@ == start_step(*target, endpoint@, *seen),
{
    if target.launch_mode == BrowserLaunchMode::AttachOnly {
        return InstanceStep::Fail(
            "attach_only ".to_owned().concat(instance_label(target).as_str()).concat(
                " is unreachable at ",
            ).concat(endpoint).concat("; gpt2omo will not start a local Chromium"),
        );
    }
    let path = match &seen.executable {
        None => {
            return InstanceStep::FindExecutable;
        },
        Some(None) => {
            return InstanceStep::Fail(
                instance_label(target).concat(" is unreachable at ").concat(endpoint).concat(
                    " and no Chromium executable was found; start that profile manually or set OMO_CHROMIUM_BIN",
                ),
            );
        },
        Some(Some(p)) => p,
    };
    let args = match chromium_launch_args(target) {
        Ok(a) => a,
        Err(m) => {
            return InstanceStep::Fail(m);
        },
    };
    match &seen.started {
        None => {
            return InstanceStep::Start(path.clone(), args);
        },
        Some(Err(_)) => {
            return InstanceStep::Fail(
                "failed to start Chromium '".to_owned().concat(path.as_str()).concat(
                    "' for account '",
                ).concat(target.account_id.as_str()).concat("'"),
            );
        },
        Some(Ok(_)) => {},
    }
    match seen.answered {
        Some(true) => InstanceStep::Ready,
        Some(false) => if seen.past_deadline {
            InstanceStep::Fail(
                instance_label(target).concat(" did not expose CDP at ").concat(endpoint).concat(
                    " after startup",
                ),
            )
        } else {
            InstanceStep::AskAgain
        },
        None => InstanceStep::AskAgain,
    }
}

/// The next step so that the browser of a target runs. Where a profile has the Windows
/// verbatim prefix, nothing is stated of the comparison of profiles.
pub fn ensure_browser_instance(target: &BrowserTarget, seen: &InstanceSeen) -> (r: InstanceStep)
    ensures
        plain_profiles(*target, *seen) ==> r@ == instance_step(*target, *seen),
        !(seen.version matches Some(Some(_))) ==> r@ == instance_step(*target, *seen),
{
    let endpoint = match &target.cdp_endpoint {
        Some(e) => e,
        None => {
            return InstanceStep::Fail("browser target has no CDP endpoint".to_owned());
        },
    };
    if target.launch_mode == BrowserLaunchMode::ManagedLocal {
        match &seen.lease {
            None => {
                return InstanceStep::TakeLease;
            },
            Some(Err(m)) => {
                return InstanceStep::Fail(m.clone());
            },
            Some(Ok(_)) => {},
        }
    }
    match &seen.version {
        None => InstanceStep::AskVersion,
        Some(Some(version)) => {
            if let Some(profile) = &target.user_data_dir {
                if cdp_identity_matches_profile(version, profile.as_str()).is_err() {
                    return InstanceStep::Fail(
                        instance_label(target).concat(" at ").concat(endpoint.as_str()).concat(
                            " failed profile identity verification",
                        ),
                    );
                }
            }
            InstanceStep::Ready
        },
        Some(None) => step_start(target, endpoint.as_str(), seen),
    }
}

/// A browser that answers is taken for a target with a profile only if it reports that
/// profile.
pub proof fn lemma_ready_browser_serves_profile(target: BrowserTarget, seen: InstanceSeen)
    requires
        instance_step(target, seen) is Ready,
        seen.version matches Some(Some(_)),
        target.user_data_dir is Some,
    ensures
        text_of(seen.version->0->0.model().field("userDataDir"@)) is Some,
        same_path(
            text_of(seen.version->0->0.model().field("userDataDir"@))->0,
            target.user_data_dir->0@,
        ),
{
}

/// A browser that others start is never started by the bridge.
pub proof fn lemma_attach_only_never_starts(target: BrowserTarget, seen: InstanceSeen)
    requires
        target.launch_mode == BrowserLaunchMode::AttachOnly,
    ensures
        !(instance_step(target, seen) is Start),
        !(instance_step(target, seen) is TakeLease),
{
}

/// The failure of an account whose browser cannot be used.
pub fn browser_account_unavailable(error: &str) -> (r: BridgeError)
    ensures
        r is Precondition,
        r.detail() == "BROWSER_ACCOUNT_UNAVAILABLE: "@ + error@,
{
    BridgeError::Precondition("BROWSER_ACCOUNT_UNAVAILABLE: ".to_owned().concat(error))
}

/// A failure that says that a page is gone for good, in whatever case it is written.
pub open spec fn is_definitive_failure(error: Seq<char>) -> bool {
    let detail = ascii_lower(error);
    ||| contains_text(detail, "does not exist on configured browser instance"@)
    ||| contains_text(detail, "browser page is not on https://chatgpt.com"@)
    ||| contains_text(detail, "no such target"@)
    ||| contains_text(detail, "target closed"@)
}

/// Whether a failure to verify a page says that the page is gone for good.
pub fn browser_verify_failure_is_definitive(error: &str) -> (r: bool)
    ensures
        r == is_definitive_failure(error@),
{
    let lowered = to_ascii_lower(error);
    let detail: &str = lowered.as_str();
    contains(detail, "does not exist on configured browser instance") || contains(
        detail,
        "browser page is not on https://chatgpt.com",
    ) || contains(detail, "no such target") || contains(detail, "target closed")
}

// ---------------------------------------------------------------------------------
// Opening pages and sending prompts.
// ---------------------------------------------------------------------------------

/// What has come of the steps of opening a page.
#[derive(Debug)]
pub struct OpenSeen {
    /// Whether the browser runs.
    pub instance: Option<Result<(), String>>,
    /// The page that was created.
    pub created: Option<Result<String, String>>,
    /// Whether the page shows its prompt box.
    pub ready: Option<Result<(), String>>,
    /// The page was closed again, or could not be.
    pub closed: bool,
}

impl OpenSeen {
    /// No step has been taken.
    pub fn nothing() -> (r: Self)
        ensures
            r.instance is None && r.created is None && r.ready is None && !r.closed,
    {
        OpenSeen { instance: None, created: None, ready: None, closed: false }
    }
}

/// What opening a page does next.
#[derive(Debug)]
pub enum OpenStep {
    /// See to it that the browser runs.
    EnsureInstance,
    /// Create a page through this endpoint.
    CreateAt(String),
    /// Create a page through a driver command.
    CreateTab(BrowserDriverConfig),
    /// Wait for the prompt box of this page.
    AwaitPrompt(String),
    /// Close this page again.
    Close(String),
    Opened(PageHandle),
    Failed(String),
}

pub enum OpenModel {
    EnsureInstance,
    CreateAt(Seq<char>),
    CreateTab(DriverModel),
    AwaitPrompt(Seq<char>),
    Close(Seq<char>),
    Opened(BrowserTarget, Seq<char>),
    Failed(Seq<char>),
}

impl View for OpenStep {
    type V = OpenModel;

    open spec fn view(&self) -> OpenModel {
        match *self {
            OpenStep::EnsureInstance => OpenModel::EnsureInstance,
            OpenStep::CreateAt(s) => OpenModel::CreateAt(s@),
            OpenStep::CreateTab(d) => OpenModel::CreateTab(d@),
            OpenStep::AwaitPrompt(s) => OpenModel::AwaitPrompt(s@),
            OpenStep::Close(s) => OpenModel::Close(s@),
            OpenStep::Opened(h) => OpenModel::Opened(h.target, h.page_id@),
            OpenStep::Failed(e) => OpenModel::Failed(e@),
        }
    }
}

/// Why no page may be created in a browser.
pub open spec fn isolation_fault(accounts: Seq<AccountConfig>, target: BrowserTarget) -> Option<
    Seq<char>,
> {
    if isolation_holds(accounts, target) {
        None
    } else {
        Some(
            "multi-account browser isolation requires every enabled account to configure a distinct browser.cdp_endpoint plus browser.user_data_dir for managed_local ownership; account '"@
                + target.account_id@ + "' is incomplete"@,
        )
    }
}

/// What opening a page behind an endpoint does next: the browser is started, the page is
/// created, and unless it is for a login, its prompt box is awaited; a page that never
/// shows one is closed again.
pub open spec fn endpoint_open(
    target: BrowserTarget,
    endpoint: Seq<char>,
    login: bool,
    seen: OpenSeen,
) -> OpenModel {
    match (seen.instance, seen.created) {
        (None, _) => OpenModel::EnsureInstance,
        (Some(Err(e)), _) => OpenModel::Failed(e@),
        (_, None) => OpenModel::CreateAt(endpoint),
        (_, Some(Err(e))) => OpenModel::Failed(e@),
        (_, Some(Ok(page))) => if login {
            OpenModel::Opened(target, page@)
        } else {
            match seen.ready {
                None => OpenModel::AwaitPrompt(page@),
                Some(Ok(_)) => OpenModel::Opened(target, page@),
                Some(Err(e)) => if seen.closed {
                    OpenModel::Failed(e@)
                } else {
                    OpenModel::Close(page@)
                },
            }
        },
    }
}

/// What opening a page does next.
pub open spec fn open_next(
    accounts: Seq<AccountConfig>,
    legacy_driver: DriverModel,
    target: BrowserTarget,
    login: bool,
    seen: OpenSeen,
) -> OpenModel {
    match isolation_fault(accounts, target) {
        Some(e) => OpenModel::Failed(e),
        None => match target.cdp_endpoint {
            Some(endpoint) => endpoint_open(target, endpoint@, login, seen),
            None => match seen.created {
                None => OpenModel::CreateTab(driver_for(legacy_driver, target)),
                Some(Err(e)) => OpenModel::Failed(e@),
                Some(Ok(page)) => OpenModel::Opened(target, page@),
            },
        },
    }
}

fn step_endpoint_open(target: &BrowserTarget, endpoint: &str, login: bool, seen: &OpenSeen) -> (r:
    OpenStep)
    ensures
        r@ == endpoint_open(*target, endpoint@, login, *seen),
{
    match &seen.instance {
        None => {
            return OpenStep::EnsureInstance;
        },
        Some(Err(e)) => {
            return OpenStep::Failed(e.clone());
        },
        Some(Ok(_)) => {},
    }
    let page = match &seen.created {
        None => {
            return OpenStep::CreateAt(endpoint.to_owned());
        },
        Some(Err(e)) => {
            return OpenStep::Failed(e.clone());
        },
        Some(Ok(p)) => p,
    };
    if login {
        return OpenStep::Opened(PageHandle { target: target.clone(), page_id: page.clone() });
    }
    match &seen.ready {
        None => OpenStep::AwaitPrompt(page.clone()),
        Some(Ok(_)) => OpenStep::Opened(
            PageHandle { target: target.clone(), page_id: page.clone() },
        ),
        Some(Err(e)) => if seen.closed {
            OpenStep::Failed(e.clone())
        } else {
            OpenStep::Close(page.clone())
        },
    }
}

impl BrowserPool {
    fn open_step(
        &self,
        config: &AccountsConfig,
        target: &BrowserTarget,
        login: bool,
        seen: &OpenSeen,
    ) -> (r: OpenStep)
        ensures
            r@ == open_next(config.accounts@, self.legacy_driver@, *target, login, *seen),
    {
        if let Err(e) = BrowserPool::validate_creation_isolation(config, target) {
            return OpenStep::Failed(e);
        }
        match &target.cdp_endpoint {
            Some(endpoint) => step_endpoint_open(target, endpoint.as_str(), login, seen),
            None => match &seen.created {
                None => OpenStep::CreateTab(self.driver_config(target)),
                Some(Err(e)) => OpenStep::Failed(e.clone()),
                Some(Ok(page)) => OpenStep::Opened(
                    PageHandle { target: target.clone(), page_id: page.clone() },
                ),
            },
        }
    }

    /// What opening a page for a worker does next.
    pub fn create_chatgpt_page(
        &self,
        config: &AccountsConfig,
        target: &BrowserTarget,
        seen: &OpenSeen,
    ) -> (r: OpenStep)
        ensures
            r@ == open_next(config.accounts@, self.legacy_driver@, *target, false, *seen),
    {
        self.open_step(config, target, false, seen)
    }

    /// What opening a page for a login does next.
    pub fn open_chatgpt_login_page(
        &self,
        config: &AccountsConfig,
        target: &BrowserTarget,
        seen: &OpenSeen,
    ) -> (r: OpenStep)
        ensures
            r@ == open_next(config.accounts@, self.legacy_driver@, *target, true, *seen),
    {
        self.open_step(config, target, true, seen)
    }

    /// What sending a prompt to a page of a target does next.
    pub fn send(target: &BrowserTarget, prompt: &str, seen: &SendSeen) -> (r: SendStep)
        ensures
            r@ == (if target.cdp_endpoint is Some {
                send_next(
                    prompt@,
                    CDP_INSERT_PROMPT_HEAD@ + json_quoted(prompt@) + CDP_INSERT_PROMPT_TAIL@,
                    CDP_SEND_EXPRESSION@,
                    *seen,
                )
            } else {
                send_next(
                    prompt@,
                    INSERT_PROMPT_HEAD@ + json_quoted(prompt@) + INSERT_PROMPT_TAIL@,
                    CHATGPT_SEND_EXPRESSION@,
                    *seen,
                )
            }),
    {
        if target.cdp_endpoint.is_some() {
            send_step(cdp_insert_expression(prompt), CDP_SEND_EXPRESSION, seen, Ghost(prompt@))
        } else {
            send_chatgpt_prompt(prompt, seen)
        }
    }
}

/// A page that was created and never became ready is not left behind: it is closed
/// before the failure is told.
pub proof fn lemma_unready_page_is_closed(
    accounts: Seq<AccountConfig>,
    legacy_driver: DriverModel,
    target: BrowserTarget,
    seen: OpenSeen,
)
    requires
        target.cdp_endpoint is Some,
        isolation_holds(accounts, target),
        seen.instance matches Some(Ok(_)),
        seen.created matches Some(Ok(_)),
        seen.ready matches Some(Err(_)),
    ensures
        !seen.closed ==> open_next(accounts, legacy_driver, target, false, seen)
            == OpenModel::Close(seen.created->0->Ok_0@),
        seen.closed ==> open_next(accounts, legacy_driver, target, false, seen) is Failed,
{
}

/// Without a browser of its own an account gets no page where several accounts are
/// served, whatever has been seen.
pub proof fn lemma_no_page_without_isolation(
    accounts: Seq<AccountConfig>,
    legacy_driver: DriverModel,
    target: BrowserTarget,
    login: bool,
    seen: OpenSeen,
)
    requires
        !isolation_holds(accounts, target),
    ensures
        open_next(accounts, legacy_driver, target, login, seen) is Failed,
{
}

pub open spec fn reachability_name(x: BrowserReachability) -> Seq<char> {
    match x {
        BrowserReachability::Reachable => "reachable"@,
        BrowserReachability::Unreachable => "unreachable"@,
    }
}

pub open spec fn login_name(s: BrowserLoginState) -> Seq<char> {
    match s {
        BrowserLoginState::Unknown => "unknown"@,
        BrowserLoginState::Ready => "ready"@,
        BrowserLoginState::AuthenticationRequired => "authentication_required"@,
    }
}

impl BrowserReachability {
    pub fn name(self) -> (r: &'static str)
        ensures
            r@ == reachability_name(self),
    {
        match self {
            BrowserReachability::Reachable => "reachable",
            BrowserReachability::Unreachable => "unreachable",
        }
    }
}

impl BrowserLoginState {
    pub fn name(self) -> (r: &'static str)
        ensures
            r@ == login_name(self),
    {
        match self {
            BrowserLoginState::Unknown => "unknown",
            BrowserLoginState::Ready => "ready",
            BrowserLoginState::AuthenticationRequired => "authentication_required",
        }
    }
}

/// What is known of the browser of an account, as a value; a missing detail is left out.
pub open spec fn health_json(h: HealthModel) -> JsonModel {
    let head = seq![
        ("account_id"@, JsonModel::Text(h.account_id)),
        ("instance"@, JsonModel::Text(h.instance)),
        (
            "driver"@,
            match h.driver {
                Some(k) => JsonModel::Text(driver_key(k)),
                None => JsonModel::Null,
            },
        ),
        ("reachability"@, JsonModel::Text(reachability_name(h.reachability))),
        ("login_state"@, JsonModel::Text(login_name(h.login_state))),
        ("login_required"@, JsonModel::Bool(h.login_required)),
    ];
    JsonModel::Object(
        match h.detail {
            Some(d) => head.push(("detail"@, JsonModel::Text(d))),
            None => head,
        },
    )
}

impl BrowserHealth {
    pub fn to_json(&self) -> (r: Json)
        ensures
            r.model() == health_json(self@),
    {
        let mut f = no_fields();
        put(&mut f, "account_id", Json::text(self.account_id.as_str()));
        put(&mut f, "instance", Json::text(self.instance.as_str()));
        put(
            &mut f,
            "driver",
            match self.driver {
                Some(k) => Json::text(k.key()),
                None => Json::Null,
            },
        );
        put(&mut f, "reachability", Json::text(self.reachability.name()));
        put(&mut f, "login_state", Json::text(self.login_state.name()));
        put(&mut f, "login_required", Json::Bool(self.login_required));
        if let Some(d) = &self.detail {
            put(&mut f, "detail", Json::text(d.as_str()));
        }
        assert(crate::json::field_models(f@) =~= health_json(self@)->Object_0);
        Json::Object(f)
    }
}

/// What has come of the steps of reaching a page that is bound to an account.
#[derive(Debug)]
pub struct ReachSeen {
    pub target: Option<Result<BrowserTarget, String>>,
    /// Whether the profile is leased.
    pub lease: Option<Result<(), String>>,
}

impl ReachSeen {
    /// Nothing has been done yet.
    pub fn nothing() -> (r: Self)
        ensures
            r == (ReachSeen { target: None, lease: None }),
    {
        ReachSeen { target: None, lease: None }
    }
}

/// What reaching a bound page does next.
#[derive(Debug)]
pub enum ReachStep {
    /// Find the target that the page is bound to.
    FindTarget,
    /// Lease the profile of the target.
    TakeLease,
    /// The page is reached in this way.
    Through(PageRoute),
    Failed(String),
}

impl BrowserPool {
    /// What reaching a bound page does next.
    pub fn reach(&self, seen: &ReachSeen) -> (r: ReachStep)
        ensures
            match seen.target {
                None => r is FindTarget,
                Some(Err(e)) => r matches ReachStep::Failed(m) && m@ == e@,
                Some(Ok(t)) => match t.cdp_endpoint {
                    Some(endpoint) => match seen.lease {
                        None => r is TakeLease,
                        Some(Err(e)) => r matches ReachStep::Failed(m) && m@ == e@,
                        Some(Ok(_)) => r matches ReachStep::Through(PageRoute::Endpoint(x)) && x@
                            == endpoint@,
                    },
                    None => r matches ReachStep::Through(PageRoute::Driver(d)) && d@ == driver_for(
                        self.legacy_driver@,
                        t,
                    ),
                },
            },
            // A page behind an endpoint is not touched before its profile is leased.
            r matches ReachStep::Through(PageRoute::Endpoint(_)) ==> seen.lease matches Some(Ok(_)),
    {
        let target = match &seen.target {
            None => {
                return ReachStep::FindTarget;
            },
            Some(Err(e)) => {
                return ReachStep::Failed(e.clone());
            },
            Some(Ok(t)) => t,
        };
        if target.cdp_endpoint.is_some() {
            match &seen.lease {
                None => {
                    return ReachStep::TakeLease;
                },
                Some(Err(e)) => {
                    return ReachStep::Failed(e.clone());
                },
                Some(Ok(_)) => {},
            }
        }
        ReachStep::Through(self.page_route(target))
    }
}

/// What has come of the steps of clicking the retry button of a bound page.
#[derive(Debug)]
pub struct RetrySeen {
    pub target: Option<Result<BrowserTarget, String>>,
    /// Whether the driver command clicked the button.
    pub clicked: Option<bool>,
    /// Whether the profile is leased.
    pub lease: Option<Result<(), String>>,
    /// What the page behind the endpoint answered.
    pub reply: Option<Result<Json, String>>,
}

impl RetrySeen {
    /// Nothing has been done yet.
    pub fn nothing() -> (r: Self)
        ensures
            r == (RetrySeen { target: None, clicked: None, lease: None, reply: None }),
    {
        RetrySeen { target: None, clicked: None, lease: None, reply: None }
    }
}

/// What clicking the retry button does next.
#[derive(Debug)]
pub enum RetryStep {
    /// Find the target that the page is bound to.
    FindTarget,
    /// Click the button through a driver command.
    ClickThrough(BrowserDriverConfig),
    /// Lease the profile of the target.
    TakeLease,
    /// Click the button in the page behind this endpoint.
    ClickAt(String),
    /// Whether the button was clicked.
    Done(bool),
    Failed(String),
}

/// The mathematical value of a [`RetryStep`].
pub enum RetryModel {
    FindTarget,
    ClickThrough(DriverModel),
    TakeLease,
    ClickAt(Seq<char>),
    Done(bool),
    Failed(Seq<char>),
}

impl View for RetryStep {
    type V = RetryModel;

    open spec fn view(&self) -> RetryModel {
        match *self {
            RetryStep::FindTarget => RetryModel::FindTarget,
            RetryStep::ClickThrough(d) => RetryModel::ClickThrough(d@),
            RetryStep::TakeLease => RetryModel::TakeLease,
            RetryStep::ClickAt(e) => RetryModel::ClickAt(e@),
            RetryStep::Done(b) => RetryModel::Done(b),
            RetryStep::Failed(m) => RetryModel::Failed(m@),
        }
    }
}

/// What clicking the retry button does next. Without an endpoint the driver command clicks,
/// and what it says counts. Behind an endpoint the page is asked once its profile is
/// leased; where the lease is not to be had nothing is clicked, and that is no failure.
pub open spec fn retry_next(legacy_driver: DriverModel, seen: RetrySeen) -> RetryModel {
    match seen.target {
        None => RetryModel::FindTarget,
        Some(Err(e)) => RetryModel::Failed(e@),
        Some(Ok(target)) => match target.cdp_endpoint {
            None => match seen.clicked {
                None => RetryModel::ClickThrough(driver_for(legacy_driver, target)),
                Some(b) => RetryModel::Done(b),
            },
            Some(endpoint) => match (seen.lease, seen.reply) {
                (None, _) => RetryModel::TakeLease,
                (Some(Err(_)), _) => RetryModel::Done(false),
                (Some(Ok(_)), None) => RetryModel::ClickAt(endpoint@),
                (Some(Ok(_)), Some(Err(e))) => RetryModel::Failed(e@),
                (Some(Ok(_)), Some(Ok(reply))) => RetryModel::Done(
                    bool_of(reply.model().field("clicked"@)) == Some(true),
                ),
            },
        },
    }
}

impl BrowserPool {
    /// What clicking the retry button of a bound page does next.
    pub fn click_retry(&self, seen: &RetrySeen) -> (r: RetryStep)
        ensures
            r@ == retry_next(self.legacy_driver@, *seen),
    {
        let target = match &seen.target {
            None => {
                return RetryStep::FindTarget;
            },
            Some(Err(e)) => {
                return RetryStep::Failed(e.clone());
            },
            Some(Ok(t)) => t,
        };
        let endpoint = match &target.cdp_endpoint {
            None => {
                return match seen.clicked {
                    None => RetryStep::ClickThrough(self.driver_config(target)),
                    Some(b) => RetryStep::Done(b),
                };
            },
            Some(e) => e,
        };
        match &seen.lease {
            None => {
                return RetryStep::TakeLease;
            },
            Some(Err(_)) => {
                return RetryStep::Done(false);
            },
            Some(Ok(_)) => {},
        }
        match &seen.reply {
            None => RetryStep::ClickAt(endpoint.clone()),
            Some(Err(e)) => RetryStep::Failed(e.clone()),
            Some(Ok(reply)) => RetryStep::Done(retry_clicked(reply)),
        }
    }
}

/// The page of a browser whose profile is not leased is never clicked.
pub proof fn lemma_no_click_without_lease(legacy_driver: DriverModel, seen: RetrySeen)
    requires
        seen.target matches Some(Ok(t)) && t.cdp_endpoint is Some,
        !(seen.lease matches Some(Ok(_))),
    ensures
        !(retry_next(legacy_driver, seen) is ClickAt),
        !(retry_next(legacy_driver, seen) is ClickThrough),
{
}

} // verus!
