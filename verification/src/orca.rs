//! Browser drivers: which one to run, with which arguments, and what its replies say.
use crate::json::{array_of, bool_of, opt_model, text_of, u64_of, Json, JsonModel};
use crate::laws::pages::{is_right_condition, lemma_snapshots_are_classified_by_what_they_say};
use crate::outside::{json_quote, json_quoted, parsed_url, url_parts, UrlModel};
use crate::text::{self, contains, contains_text, copy_opt, decimal, decimal_of, has_prefix,
    is_blank, opt_text, same_text, starts_with, texts, trim, trimmed};
use vstd::prelude::*;

verus! {

/// How long a driver command may run, in seconds.
pub const COMMAND_TIMEOUT_SECS: u64 = 20;

pub const MAX_RESET_AFTER_SECONDS: u64 = 31 * 24 * 60 * 60;

/// The most bytes that one output stream of a driver command may hold.
pub const MAX_COMMAND_OUTPUT_BYTES: usize = 4 * 1024 * 1024;

pub const CHATGPT_URL: &'static str = "https://chatgpt.com";

/// Reads the state of the ChatGPT page out of its system regions, never out of the
/// conversation.
pub const CHATGPT_UI_PROBE_EXPRESSION: &'static str = r#"(() => {
  const MESSAGE_SELECTOR = '[data-message-author-role], article, [data-testid^="conversation-turn"], [data-message-id]';
  const SYSTEM_SELECTOR = '[data-testid*="rate-limit"], [data-testid*="modal"], [role="alert"], [role="dialog"], [data-sonner-toast], [data-testid*="toast"], [data-testid*="notification"], [class~="toast"], [class~="notification"], [class*="modal"], [class*="popover"]';
  const isVisible = (el) => {
    if (!el || !(el instanceof Element)) return false;
    const style = window.getComputedStyle(el);
    if (style.display === 'none' || style.visibility === 'hidden' || Number(style.opacity) === 0) return false;
    const rect = el.getBoundingClientRect();
    return rect.width > 0 && rect.height > 0;
  };
  const isConversationRegion = (el) =>
    !!el.closest(MESSAGE_SELECTOR) || !!el.querySelector(MESSAGE_SELECTOR);
  const systemRegions = Array.from(document.querySelectorAll(SYSTEM_SELECTOR))
    .filter((el) => isVisible(el) && !isConversationRegion(el));
  const systemTexts = systemRegions
    .map((el) => (el.innerText || el.textContent || '').trim().toLowerCase())
    .filter(Boolean);

  const firstVisible = (selector) => Array.from(document.querySelectorAll(selector)).find(isVisible) || null;
  const composer = firstVisible('#prompt-textarea, [data-testid="composer-text-input"], textarea[placeholder], [contenteditable="true"]');
  const sendButton = firstVisible('button[data-testid="send-button"], button[aria-label="Send prompt"], #composer-submit-button');
  const stopButton = firstVisible('button[data-testid="stop-button"], button[aria-label="Stop generating"], button[aria-label="Stop answering"]');
  const composerDisabled = !!(
    (composer && (composer.disabled || composer.getAttribute('aria-disabled') === 'true')) ||
    (sendButton && (sendButton.disabled || sendButton.getAttribute('aria-disabled') === 'true'))
  );
  const generating = !!stopButton;
  const ready = !!composer;

  const rateReason = (text) => {
    if (/\btoo many (?:requests|messages)\b|\brate limit(?:ed| reached)?\b|\bmaking requests too quickly\b|\btemporarily limited access\b|\blimited access to your conversations\b|\bwait a few minutes before trying again\b/.test(text)) return 'too_many_requests';
    if (/\b(?:at|over) capacity\b|\bcapacity (?:limit|reached)\b/.test(text)) return 'capacity';
    if (/\b(?:model|gpt[-\w]*)[^.\n]{0,80}\b(?:usage )?limit\b|\blimit[^.\n]{0,80}\b(?:model|gpt[-\w]*)\b/.test(text)) return 'model_quota';
    if (/\b(?:you(?:'ve| have)? )?(?:reached|hit) (?:the )?(?:current )?(?:usage |message )?limit\b|\busage limit\b|\blimit reached\b/.test(text)) return 'usage_limit';
    return null;
  };
  const resetSeconds = (text) => {
    const match = text.match(/(?:try again|reset(?:s)?|available again|wait)[^0-9]{0,48}(\d+(?:\.\d+)?)\s*(seconds?|secs?|minutes?|mins?|hours?|hrs?|days?)/i);
    if (!match) return null;
    const amount = Number(match[1]);
    if (!Number.isFinite(amount) || amount <= 0) return null;
    const unit = match[2].toLowerCase();
    let multiplier = 1;
    if (unit.startsWith('min')) multiplier = 60;
    else if (unit.startsWith('hour') || unit.startsWith('hr')) multiplier = 3600;
    else if (unit.startsWith('day')) multiplier = 86400;
    const seconds = Math.ceil(amount * multiplier);
    return Number.isSafeInteger(seconds) && seconds >= 1 && seconds <= 2678400 ? seconds : null;
  };

  let rate_limit_reason = null;
  let reset_after_seconds = null;
  for (const text of systemTexts) {
    const reason = rateReason(text);
    if (reason) {
      rate_limit_reason = reason;
      reset_after_seconds = resetSeconds(text);
      break;
    }
  }

  const authRequired = systemTexts.some((text) =>
    /\b(?:log in|login|sign in|authentication required|session expired|please authenticate)\b/.test(text)
  );
  const deliveryText = systemTexts.find((text) =>
    /\b(?:something went wrong|error generating|network error|failed to send|message failed|unable to load conversation|delivery failed)\b/.test(text)
  ) || null;
  const deliveryRecoverable = !!deliveryText && /\b(?:retry|try again|network|temporary|temporarily)\b/.test(deliveryText);

  return {
    ready,
    generating,
    composer_disabled: composerDisabled,
    rate_limited: rate_limit_reason !== null,
    rate_limit_reason,
    reset_after_seconds,
    delivery_error: deliveryText !== null,
    delivery_recoverable: deliveryRecoverable,
    authentication_required: authRequired
  };
})()"#;

/// Presses the send button.
pub const CHATGPT_SEND_EXPRESSION: &'static str = r#"(() => {
  const visible = (candidate) => {
    if (!candidate || !(candidate instanceof Element)) return false;
    const style = window.getComputedStyle(candidate);
    const rect = candidate.getBoundingClientRect();
    return style.display !== 'none' && style.visibility !== 'hidden' && Number(style.opacity) !== 0 && rect.width > 0 && rect.height > 0;
  };
  const btn = Array.from(document.querySelectorAll('button[data-testid="send-button"], button[aria-label="Send prompt"], #composer-submit-button')).find(visible);
  if (!btn || btn.disabled) return { ok: false, error: 'no_send_button' };
  btn.click();
  return { ok: true };
})()"#;

/// Reads where a page is and whether it can take a prompt.
pub const CHATGPT_PAGE_EXPRESSION: &'static str = r#"(() => {
  const visible = (el) => {
    if (!el || !(el instanceof Element)) return false;
    const style = window.getComputedStyle(el);
    const rect = el.getBoundingClientRect();
    return style.display !== 'none' && style.visibility !== 'hidden' && Number(style.opacity) !== 0 && rect.width > 0 && rect.height > 0;
  };
  const composer = Array.from(document.querySelectorAll('#prompt-textarea, [data-testid="composer-text-input"], textarea[placeholder], [contenteditable="true"]')).find(visible);
  return {
  ready: !!composer,
  generating: !!document.querySelector('button[data-testid="stop-button"], button[aria-label="Stop generating"], button[aria-label="Stop answering"]'),
  url: location.href,
  title: document.title
};
})()"#;

/// Reads whether the prompt box is visible.
pub const CHATGPT_PROMPT_READY_EXPRESSION: &'static str = r#"(() => {
        const visible = (candidate) => {
            if (!candidate || !(candidate instanceof Element)) return false;
            const style = window.getComputedStyle(candidate);
            const rect = candidate.getBoundingClientRect();
            return style.display !== 'none' && style.visibility !== 'hidden' && Number(style.opacity) !== 0 && rect.width > 0 && rect.height > 0;
        };
        return Array.from(document.querySelectorAll('#prompt-textarea, [data-testid="composer-text-input"], textarea[placeholder], [contenteditable="true"]')).some(visible);
    })()"#;

/// The expression that fills the prompt box, up to the prompt's string literal.
pub const INSERT_PROMPT_HEAD: &'static str = r#"(() => {
  const visible = (candidate) => {
    if (!candidate || !(candidate instanceof Element)) return false;
    const style = window.getComputedStyle(candidate);
    const rect = candidate.getBoundingClientRect();
    return style.display !== 'none' && style.visibility !== 'hidden' && Number(style.opacity) !== 0 && rect.width > 0 && rect.height > 0;
  };
  const el = Array.from(document.querySelectorAll('#prompt-textarea, [data-testid="composer-text-input"], textarea[placeholder], [contenteditable="true"]')).find(visible);
  if (!el) return { ok: false, error: 'no_textbox' };
  el.focus();
  document.execCommand('selectAll', false, null);
  document.execCommand('delete', false, null);
  document.execCommand('insertText', false, "#;

/// The expression that fills the prompt box, behind the prompt's string literal.
pub const INSERT_PROMPT_TAIL: &'static str = r#");
  el.dispatchEvent(new Event('input', { bubbles: true }));
  return { ok: true };
})()"#;

/// The programs that can drive a browser.
#[derive(Clone, Copy, Debug, PartialEq, Eq, Structural)]
pub enum BrowserDriverKind {
    Maho,
    Orca,
    Cmux,
    AgentBrowser,
    Aside,
    /// A Chrome reached over its DevTools endpoint.
    Chrome,
}

/// The name that stands for a driver in stored values.
pub open spec fn driver_key(kind: BrowserDriverKind) -> Seq<char> {
    match kind {
        BrowserDriverKind::Maho => "maho"@,
        BrowserDriverKind::Orca => "orca"@,
        BrowserDriverKind::Cmux => "cmux"@,
        BrowserDriverKind::AgentBrowser => "agent_browser"@,
        BrowserDriverKind::Aside => "aside"@,
        BrowserDriverKind::Chrome => "chrome"@,
    }
}

/// The name of a driver.
pub open spec fn driver_name(kind: BrowserDriverKind) -> Seq<char> {
    match kind {
        BrowserDriverKind::Maho => "maho"@,
        BrowserDriverKind::Orca => "orca"@,
        BrowserDriverKind::Cmux => "cmux"@,
        BrowserDriverKind::AgentBrowser => "agent-browser"@,
        BrowserDriverKind::Aside => "aside"@,
        BrowserDriverKind::Chrome => "chrome"@,
    }
}

/// The driver that a lower-case name stands for.
pub open spec fn driver_of(name: Seq<char>) -> Option<BrowserDriverKind> {
    if name == "maho"@ {
        Some(BrowserDriverKind::Maho)
    } else if name == "orca"@ {
        Some(BrowserDriverKind::Orca)
    } else if name == "cmux"@ {
        Some(BrowserDriverKind::Cmux)
    } else if name == "agent-browser"@ || name == "agent_browser"@ {
        Some(BrowserDriverKind::AgentBrowser)
    } else if name == "aside"@ {
        Some(BrowserDriverKind::Aside)
    } else {
        None
    }
}

/// What the driver that a text names is called: the text without the white space around it,
/// in lower case.
pub open spec fn lowered_name(s: Seq<char>) -> Seq<char> {
    text::unicode_lower(trimmed(s))
}

/// Why a text names no driver.
pub open spec fn unknown_driver(s: Seq<char>) -> Seq<char> {
    "unsupported browser driver '"@ + lowered_name(s)
        + "'; supported: maho, orca, cmux, agent-browser, aside"@
}

/// A text is the name of a driver, or the name that stands for it in stored values, in
/// whatever case and with white space around it. A Chrome is configured and not named.
pub open spec fn names_driver(s: Seq<char>, kind: BrowserDriverKind) -> bool {
    &&& kind != BrowserDriverKind::Chrome
    &&& text::ascii_lower(trimmed(s)) == driver_name(kind) || text::ascii_lower(trimmed(s))
        == driver_key(kind)
}

impl BrowserDriverKind {
    /// Whether the driver can evaluate scripts in a page.
    pub fn supports_chatgpt_dom_probe(self) -> (r: bool)
        ensures
            r == (self == BrowserDriverKind::Orca || self == BrowserDriverKind::Cmux || self
                == BrowserDriverKind::AgentBrowser),
    {
        matches!(self, BrowserDriverKind::Orca | BrowserDriverKind::Cmux | BrowserDriverKind::AgentBrowser)
    }

    /// The name of the driver.
    pub fn name(self) -> (r: &'static str)
        ensures
            r@ == driver_name(self),
    {
        match self {
            BrowserDriverKind::Maho => "maho",
            BrowserDriverKind::Orca => "orca",
            BrowserDriverKind::Cmux => "cmux",
            BrowserDriverKind::AgentBrowser => "agent-browser",
            BrowserDriverKind::Aside => "aside",
            BrowserDriverKind::Chrome => "chrome",
        }
    }

    /// The name that stands for the driver in stored values.
    pub fn key(self) -> (r: &'static str)
        ensures
            r@ == driver_key(self),
    {
        match self {
            BrowserDriverKind::Maho => "maho",
            BrowserDriverKind::Orca => "orca",
            BrowserDriverKind::Cmux => "cmux",
            BrowserDriverKind::AgentBrowser => "agent_browser",
            BrowserDriverKind::Aside => "aside",
            BrowserDriverKind::Chrome => "chrome",
        }
    }

    /// The driver that a text names, in whatever case and with white space around it.
    pub fn from_name(s: &str) -> (r: Result<BrowserDriverKind, String>)
        ensures
            match r {
                Ok(kind) => driver_of(lowered_name(s@)) == Some(kind),
                Err(m) => driver_of(lowered_name(s@)) is None && m@ == unknown_driver(s@),
            },
            forall|kind: BrowserDriverKind| #[trigger]
                names_driver(s@, kind) ==> r == Ok::<BrowserDriverKind, String>(kind),
            vstd::utf8::is_ascii_chars(trimmed(s@)) ==> lowered_name(s@) == text::ascii_lower(
                trimmed(s@),
            ),
    {
        let word = trim(s);
        let name = text::lowercase(word.as_str());
        proof {
            assert forall|kind: BrowserDriverKind| #[trigger]
                names_driver(s@, kind) implies driver_of(lowered_name(s@)) == Some(kind) by {
                lemma_driver_words(kind);
                lemma_driver_word_is_ascii(kind, trimmed(s@));
            }
        }
        if same_text(name.as_str(), "maho") {
            Ok(BrowserDriverKind::Maho)
        } else if same_text(name.as_str(), "orca") {
            Ok(BrowserDriverKind::Orca)
        } else if same_text(name.as_str(), "cmux") {
            Ok(BrowserDriverKind::Cmux)
        } else if same_text(name.as_str(), "agent-browser") || same_text(name.as_str(), "agent_browser") {
            Ok(BrowserDriverKind::AgentBrowser)
        } else if same_text(name.as_str(), "aside") {
            Ok(BrowserDriverKind::Aside)
        } else {
            Err(
                "unsupported browser driver '".to_owned().concat(name.as_str()).concat(
                    "'; supported: maho, orca, cmux, agent-browser, aside",
                ),
            )
        }
    }
}

impl std::str::FromStr for BrowserDriverKind {
    type Err = String;

    fn from_str(s: &str) -> (r: Result<Self, String>)
        ensures
            match r {
                Ok(kind) => driver_of(lowered_name(s@)) == Some(kind),
                Err(m) => driver_of(lowered_name(s@)) is None && m@ == unknown_driver(s@),
            },
            forall|kind: BrowserDriverKind| #[trigger]
                names_driver(s@, kind) ==> r == Ok::<BrowserDriverKind, String>(kind),
            vstd::utf8::is_ascii_chars(trimmed(s@)) ==> lowered_name(s@) == text::ascii_lower(
                trimmed(s@),
            ),
    {
        BrowserDriverKind::from_name(s)
    }
}

/// The name of a driver, and the name that stands for it in stored values, name that driver,
/// whatever the case of their letters and the white space around them.
pub proof fn lemma_driver_name_reads_back(
    kind: BrowserDriverKind,
    before: Seq<char>,
    written: Seq<char>,
    after: Seq<char>,
)
    requires
        kind != BrowserDriverKind::Chrome,
        forall|i: int| 0 <= i < before.len() ==> text::is_space(#[trigger] before[i]),
        forall|i: int| 0 <= i < after.len() ==> text::is_space(#[trigger] after[i]),
        text::ascii_lower(written) == driver_name(kind) || text::ascii_lower(written)
            == driver_key(kind),
    ensures
        names_driver(before + written + after, kind),
{
    let word = text::ascii_lower(written);
    lemma_driver_words(kind);
    assert(word.len() == written.len());
    assert(word[0] == text::lower_char(written[0]));
    assert(word.last() == text::lower_char(written.last()));
    text::lemma_trim_frees_word(before, written, after);
}

proof fn lemma_driver_word_is_ascii(kind: BrowserDriverKind, written: Seq<char>)
    requires
        text::ascii_lower(written) == driver_name(kind) || text::ascii_lower(written)
            == driver_key(kind),
    ensures
        vstd::utf8::is_ascii_chars(written),
{
    let word = text::ascii_lower(written);
    lemma_words_are_ascii();
    assert forall|i: int| 0 <= i < written.len() implies '\0' <= #[trigger] written[i]
        <= '\u{7f}' by {
        assert(word[i] == text::lower_char(written[i]));
        assert('\0' <= word[i] <= '\u{7f}');
    }
}

proof fn lemma_words_are_ascii()
    ensures
        vstd::utf8::is_ascii_chars("maho"@),
        vstd::utf8::is_ascii_chars("orca"@),
        vstd::utf8::is_ascii_chars("cmux"@),
        vstd::utf8::is_ascii_chars("agent-browser"@),
        vstd::utf8::is_ascii_chars("agent_browser"@),
        vstd::utf8::is_ascii_chars("aside"@),
        vstd::utf8::is_ascii_chars("chrome"@),
{
    reveal_strlit("maho");
    assert("maho"@.len() == 4);
    assert("maho"@[0] == 'm' && "maho"@[1] == 'a' && "maho"@[2] == 'h');
    assert("maho"@[3] == 'o');
    reveal_strlit("orca");
    assert("orca"@.len() == 4);
    assert("orca"@[0] == 'o' && "orca"@[1] == 'r' && "orca"@[2] == 'c');
    assert("orca"@[3] == 'a');
    reveal_strlit("cmux");
    assert("cmux"@.len() == 4);
    assert("cmux"@[0] == 'c' && "cmux"@[1] == 'm' && "cmux"@[2] == 'u');
    assert("cmux"@[3] == 'x');
    reveal_strlit("agent-browser");
    assert("agent-browser"@.len() == 13);
    assert("agent-browser"@[0] == 'a' && "agent-browser"@[1] == 'g' && "agent-browser"@[2] == 'e');
    assert("agent-browser"@[3] == 'n' && "agent-browser"@[4] == 't' && "agent-browser"@[5] == '-');
    assert("agent-browser"@[6] == 'b' && "agent-browser"@[7] == 'r' && "agent-browser"@[8] == 'o');
    assert("agent-browser"@[9] == 'w' && "agent-browser"@[10] == 's' && "agent-browser"@[11] == 'e');
    assert("agent-browser"@[12] == 'r');
    reveal_strlit("agent_browser");
    assert("agent_browser"@.len() == 13);
    assert("agent_browser"@[0] == 'a' && "agent_browser"@[1] == 'g' && "agent_browser"@[2] == 'e');
    assert("agent_browser"@[3] == 'n' && "agent_browser"@[4] == 't' && "agent_browser"@[5] == '_');
    assert("agent_browser"@[6] == 'b' && "agent_browser"@[7] == 'r' && "agent_browser"@[8] == 'o');
    assert("agent_browser"@[9] == 'w' && "agent_browser"@[10] == 's' && "agent_browser"@[11] == 'e');
    assert("agent_browser"@[12] == 'r');
    reveal_strlit("aside");
    assert("aside"@.len() == 5);
    assert("aside"@[0] == 'a' && "aside"@[1] == 's' && "aside"@[2] == 'i');
    assert("aside"@[3] == 'd' && "aside"@[4] == 'e');
    reveal_strlit("chrome");
    assert("chrome"@.len() == 6);
    assert("chrome"@[0] == 'c' && "chrome"@[1] == 'h' && "chrome"@[2] == 'r');
    assert("chrome"@[3] == 'o' && "chrome"@[4] == 'm' && "chrome"@[5] == 'e');
}

proof fn lemma_driver_words(kind: BrowserDriverKind)
    ensures
        kind != BrowserDriverKind::Chrome ==> driver_of(driver_name(kind)) == Some(kind),
        kind != BrowserDriverKind::Chrome ==> driver_of(driver_key(kind)) == Some(kind),
        driver_name(kind).len() > 0,
        !text::is_space(driver_name(kind)[0]),
        !text::is_space(driver_name(kind).last()),
        driver_key(kind).len() > 0,
        !text::is_space(driver_key(kind)[0]),
        !text::is_space(driver_key(kind).last()),
{
    reveal_strlit("maho");
    reveal_strlit("orca");
    reveal_strlit("cmux");
    reveal_strlit("agent-browser");
    reveal_strlit("agent_browser");
    reveal_strlit("aside");
    reveal_strlit("chrome");
    assert("maho"@.len() == 4 && "orca"@.len() == 4 && "cmux"@.len() == 4);
    assert("aside"@.len() == 5 && "chrome"@.len() == 6);
    assert("agent-browser"@.len() == 13 && "agent_browser"@.len() == 13);
    assert("maho"@[0] == 'm' && "orca"@[0] == 'o' && "cmux"@[0] == 'c');
    assert("aside"@[0] == 'a' && "chrome"@[0] == 'c');
    assert("agent-browser"@[0] == 'a' && "agent_browser"@[0] == 'a');
}

/// Why ChatGPT refuses more messages.
#[derive(Clone, Copy, Debug, PartialEq, Eq, Structural)]
pub enum ChatgptRateLimitReason {
    UsageLimit,
    TooManyRequests,
    Capacity,
    ModelQuota,
}

pub open spec fn reason_name(reason: ChatgptRateLimitReason) -> Seq<char> {
    match reason {
        ChatgptRateLimitReason::UsageLimit => "usage_limit"@,
        ChatgptRateLimitReason::TooManyRequests => "too_many_requests"@,
        ChatgptRateLimitReason::Capacity => "capacity"@,
        ChatgptRateLimitReason::ModelQuota => "model_quota"@,
    }
}

pub open spec fn reason_of(name: Seq<char>) -> Option<ChatgptRateLimitReason> {
    if name == "usage_limit"@ {
        Some(ChatgptRateLimitReason::UsageLimit)
    } else if name == "too_many_requests"@ {
        Some(ChatgptRateLimitReason::TooManyRequests)
    } else if name == "capacity"@ {
        Some(ChatgptRateLimitReason::Capacity)
    } else if name == "model_quota"@ {
        Some(ChatgptRateLimitReason::ModelQuota)
    } else {
        None
    }
}

impl ChatgptRateLimitReason {
    /// The reason that a name stands for.
    pub fn parse(value: &str) -> (r: Option<ChatgptRateLimitReason>)
        ensures
            r == reason_of(value@),
    {
        if same_text(value, "usage_limit") {
            Some(ChatgptRateLimitReason::UsageLimit)
        } else if same_text(value, "too_many_requests") {
            Some(ChatgptRateLimitReason::TooManyRequests)
        } else if same_text(value, "capacity") {
            Some(ChatgptRateLimitReason::Capacity)
        } else if same_text(value, "model_quota") {
            Some(ChatgptRateLimitReason::ModelQuota)
        } else {
            None
        }
    }

    /// The name of the reason.
    pub fn name(self) -> (r: &'static str)
        ensures
            r@ == reason_name(self),
    {
        match self {
            ChatgptRateLimitReason::UsageLimit => "usage_limit",
            ChatgptRateLimitReason::TooManyRequests => "too_many_requests",
            ChatgptRateLimitReason::Capacity => "capacity",
            ChatgptRateLimitReason::ModelQuota => "model_quota",
        }
    }
}

/// Every reason is the one that its name stands for.
pub proof fn lemma_reason_round_trip(reason: ChatgptRateLimitReason)
    ensures
        reason_of(reason_name(reason)) == Some(reason),
{
    reveal_strlit("usage_limit");
    reveal_strlit("too_many_requests");
    reveal_strlit("capacity");
    reveal_strlit("model_quota");
    assert("usage_limit"@.len() == 11 && "too_many_requests"@.len() == 17 && "capacity"@.len() == 8
        && "model_quota"@.len() == 11);
    assert("usage_limit"@[0] == 'u' && "model_quota"@[0] == 'm');
}

/// What the ChatGPT page shows.
#[derive(Clone, Copy, Debug, PartialEq, Eq, Structural)]
pub enum ChatgptUiCondition {
    Healthy,
    Generating,
    RateLimited { reason: ChatgptRateLimitReason, reset_after_seconds: Option<u64> },
    DeliveryError { recoverable: bool },
    AuthenticationRequired,
    Unsupported,
    Unknown,
}

impl ChatgptUiCondition {
    /// When a rate limit ends, if the page said so.
    pub fn reset_after_seconds(&self) -> (r: Option<u64>)
        ensures
            r == match *self {
                ChatgptUiCondition::RateLimited { reason, reset_after_seconds } => reset_after_seconds,
                _ => None,
            },
    {
        match self {
            ChatgptUiCondition::RateLimited { reset_after_seconds, .. } => *reset_after_seconds,
            _ => None,
        }
    }
}

/// A reset delay counts from one second to 31 days.
pub open spec fn valid_reset(value: u64) -> Option<u64> {
    if 1 <= value <= MAX_RESET_AFTER_SECONDS {
        Some(value)
    } else {
        None
    }
}

/// The delay itself where it counts.
pub fn validate_reset_after_seconds(value: u64) -> (r: Option<u64>)
    ensures
        r == valid_reset(value),
{
    if 1 <= value && value <= MAX_RESET_AFTER_SECONDS {
        Some(value)
    } else {
        None
    }
}

/// How to reach the browser that an account uses.
#[derive(Debug)]
pub struct BrowserDriverConfig {
    pub driver: Option<BrowserDriverKind>,
    pub binary: Option<String>,
    pub worktree: String,
    pub terminal: Option<String>,
    /// The driver and the command that the first detection came to.
    pub resolved: Option<(BrowserDriverKind, String)>,
}

/// The mathematical value of a [`BrowserDriverConfig`].
pub struct DriverModel {
    pub driver: Option<BrowserDriverKind>,
    pub binary: Option<Seq<char>>,
    pub worktree: Seq<char>,
    pub terminal: Option<Seq<char>>,
    pub resolved: Option<(BrowserDriverKind, Seq<char>)>,
}

impl View for BrowserDriverConfig {
    type V = DriverModel;

    open spec fn view(&self) -> DriverModel {
        DriverModel {
            driver: self.driver,
            binary: opt_text(self.binary),
            worktree: self.worktree@,
            terminal: opt_text(self.terminal),
            resolved: resolved_text(self.resolved),
        }
    }
}

pub type OrcaConfig = BrowserDriverConfig;

/// The drivers in the order in which they are looked for, with their commands.
pub fn automatic_browser_driver_priority() -> (r: Vec<(BrowserDriverKind, &'static str)>)
    ensures
        r@.len() == 5,
        r@[0].0 == BrowserDriverKind::Cmux && r@[0].1@ == "cmux"@,
        r@[1].0 == BrowserDriverKind::Orca && r@[1].1@ == "orca"@,
        r@[2].0 == BrowserDriverKind::Maho && r@[2].1@ == "maho"@,
        r@[3].0 == BrowserDriverKind::AgentBrowser && r@[3].1@ == "agent-browser"@,
        r@[4].0 == BrowserDriverKind::Aside && r@[4].1@ == "aside"@,
{
    vec![
        (BrowserDriverKind::Cmux, "cmux"),
        (BrowserDriverKind::Orca, "orca"),
        (BrowserDriverKind::Maho, "maho"),
        (BrowserDriverKind::AgentBrowser, "agent-browser"),
        (BrowserDriverKind::Aside, "aside"),
    ]
}

/// The driver that is looked for at a place of the order, from zero.
pub open spec fn priority_driver(i: int) -> BrowserDriverKind {
    if i == 0 {
        BrowserDriverKind::Cmux
    } else if i == 1 {
        BrowserDriverKind::Orca
    } else if i == 2 {
        BrowserDriverKind::Maho
    } else if i == 3 {
        BrowserDriverKind::AgentBrowser
    } else {
        BrowserDriverKind::Aside
    }
}

/// The driver and the command that a configuration stands for. `found` says of each
/// driver of the automatic order whether its command is on the search path, and
/// `helper` is where the Maho application keeps its own command.
pub open spec fn detected(
    driver: Option<BrowserDriverKind>,
    binary: Option<Seq<char>>,
    helper: Option<Seq<char>>,
    found: Seq<bool>,
) -> (BrowserDriverKind, Seq<char>) {
    let maho = match helper {
        Some(h) => h,
        None => "maho"@,
    };
    match driver {
        Some(kind) => match binary {
            Some(b) => (kind, b),
            None => if kind == BrowserDriverKind::Maho {
                (kind, maho)
            } else {
                (kind, driver_name(kind))
            },
        },
        None => if exists|i: int| 0 <= i < 5 && #[trigger] found[i] {
            let i = first_found(found, 0);
            (priority_driver(i), driver_name(priority_driver(i)))
        } else {
            (BrowserDriverKind::Maho, maho)
        },
    }
}

/// The first place from `from` on that holds true.
pub open spec fn first_found(found: Seq<bool>, from: int) -> int
    decreases found.len() - from,
{
    if from < 0 || from >= found.len() || found[from] {
        from
    } else {
        first_found(found, from + 1)
    }
}

impl BrowserDriverConfig {
    /// A configuration without a fixed driver; the command `orca`, or none, leaves the
    /// command open too.
    pub fn new(worktree: &str, terminal: Option<String>, orca_bin: &str) -> (r: Self)
        ensures
            r.driver is None,
            opt_text(r.binary) == (if orca_bin@.len() == 0 || orca_bin@ == "orca"@ {
                None
            } else {
                Some(orca_bin@)
            }),
            r.worktree@ == worktree@,
            r.terminal == terminal,
            r.resolved is None,
    {
        BrowserDriverConfig {
            driver: None,
            binary: if orca_bin.is_empty() || same_text(orca_bin, "orca") {
                None
            } else {
                Some(orca_bin.to_owned())
            },
            worktree: worktree.to_owned(),
            terminal,
            resolved: None,
        }
    }

    /// A configuration from its parts.
    pub fn with_driver(
        driver: Option<BrowserDriverKind>,
        binary: Option<String>,
        worktree: &str,
        terminal: Option<String>,
    ) -> (r: Self)
        ensures
            r.driver == driver,
            r.binary == binary,
            r.worktree@ == worktree@,
            r.terminal == terminal,
            r.resolved is None,
    {
        BrowserDriverConfig {
            driver,
            binary,
            worktree: worktree.to_owned(),
            terminal,
            resolved: None,
        }
    }

    /// The same as [`BrowserDriverConfig::new`].
    pub fn orca_legacy(worktree: &str, terminal: Option<String>, orca_bin: &str) -> (r: Self)
        ensures
            r.driver is None,
            opt_text(r.binary) == (if orca_bin@.len() == 0 || orca_bin@ == "orca"@ {
                None
            } else {
                Some(orca_bin@)
            }),
            r.worktree@ == worktree@,
            r.terminal == terminal,
            r.resolved is None,
    {
        Self::new(worktree, terminal, orca_bin)
    }

    /// The driver and the command that the configuration stands for. The first detection
    /// goes by what is on the search path; its result is kept and given again.
    pub fn detect(&mut self, helper: &Option<String>, found: &Vec<bool>) -> (r: (
        BrowserDriverKind,
        String,
    ))
        requires
            old(self).resolved is None ==> found@.len() == 5,
        ensures
            (r.0, r.1@) == kept_or_detected(
                resolved_text(old(self).resolved),
                old(self).driver,
                opt_text(old(self).binary),
                opt_text(*helper),
                found@,
            ),
            resolved_text(final(self).resolved) == Some((r.0, r.1@)),
            final(self).driver == old(self).driver,
            final(self).binary == old(self).binary,
            final(self).worktree == old(self).worktree,
            final(self).terminal == old(self).terminal,
    {
        if let Some(kept) = &self.resolved {
            return (kept.0, kept.1.clone());
        }
        let fresh = self.detect_uncached(helper, found);
        self.resolved = Some((fresh.0, fresh.1.clone()));
        fresh
    }

    /// The driver and the command that the configuration stands for, given what is on
    /// the search path: see [`detected`].
    pub fn detect_uncached(&self, helper: &Option<String>, found: &Vec<bool>) -> (r: (
        BrowserDriverKind,
        String,
    ))
        requires
            found@.len() == 5,
        ensures
            (r.0, r.1@) == detected(self.driver, opt_text(self.binary), opt_text(*helper), found@),
    {
        if let Some(kind) = self.driver {
            if let Some(b) = &self.binary {
                return (kind, b.clone());
            }
            if kind == BrowserDriverKind::Maho {
                let bin = match copy_opt(helper) {
                    Some(h) => h,
                    None => "maho".to_owned(),
                };
                return (kind, bin);
            }
            return (kind, kind.name().to_owned());
        }
        let order = automatic_browser_driver_priority();
        let mut i: usize = 0;
        while i < 5
            invariant
                i <= 5,
                found@.len() == 5,
                order@.len() == 5,
                self.driver is None,
                forall|j: int| 0 <= j < 5 ==> (#[trigger] order@[j]).0 == priority_driver(j),
                forall|j: int| 0 <= j < i ==> !#[trigger] found@[j],
                first_found(found@, 0) == first_found(found@, i as int),
            decreases 5 - i,
        {
            if found[i] {
                let kind = order[i].0;
                assert(found@[i as int]);
                return (kind, kind.name().to_owned());
            }
            i += 1;
        }
        let bin = match copy_opt(helper) {
            Some(h) => h,
            None => "maho".to_owned(),
        };
        (BrowserDriverKind::Maho, bin)
    }

    /// A configuration with the same parts.
    pub fn copy(&self) -> (r: Self)
        ensures
            r == *self,
    {
        BrowserDriverConfig {
            driver: self.driver,
            binary: copy_opt(&self.binary),
            worktree: self.worktree.clone(),
            terminal: copy_opt(&self.terminal),
            resolved: match &self.resolved {
                Some(kept) => Some((kept.0, kept.1.clone())),
                None => None,
            },
        }
    }
}

/// What a detection came to, by its texts.
pub open spec fn resolved_text(resolved: Option<(BrowserDriverKind, String)>) -> Option<
    (BrowserDriverKind, Seq<char>),
> {
    match resolved {
        Some(kept) => Some((kept.0, kept.1@)),
        None => None,
    }
}

/// What a detection comes to: what an earlier one came to, if there was one, else what
/// is on the search path.
pub open spec fn kept_or_detected(
    resolved: Option<(BrowserDriverKind, Seq<char>)>,
    driver: Option<BrowserDriverKind>,
    binary: Option<Seq<char>>,
    helper: Option<Seq<char>>,
    found: Seq<bool>,
) -> (BrowserDriverKind, Seq<char>) {
    match resolved {
        Some(kept) => kept,
        None => detected(driver, binary, helper, found),
    }
}

/// Detection keeps its first result, whatever is on the search path later.
pub proof fn lemma_detection_keeps_its_first_result(
    driver: Option<BrowserDriverKind>,
    binary: Option<Seq<char>>,
    helper: Option<Seq<char>>,
    found: Seq<bool>,
    later_helper: Option<Seq<char>>,
    later_found: Seq<bool>,
)
    ensures
        kept_or_detected(
            Some(kept_or_detected(None, driver, binary, helper, found)),
            driver,
            binary,
            later_helper,
            later_found,
        ) == detected(driver, binary, helper, found),
{
}

/// Where a page is and whether it is busy.
#[derive(Debug)]
pub struct ChatgptPageProbe {
    pub url: String,
    pub title: String,
    pub generating: bool,
}

/// What a page reports of itself, read in this order: a login that is needed, a rate
/// limit (unknown without a known reason), a delivery error, an answer under way, a
/// visible prompt box.
pub open spec fn ui_condition(v: JsonModel) -> ChatgptUiCondition {
    if bool_of(v.field("authentication_required"@)) == Some(true) {
        ChatgptUiCondition::AuthenticationRequired
    } else if bool_of(v.field("rate_limited"@)) == Some(true) {
        match text_of(v.field("rate_limit_reason"@)) {
            Some(name) => match reason_of(name) {
                Some(reason) => ChatgptUiCondition::RateLimited {
                    reason,
                    reset_after_seconds: match u64_of(v.field("reset_after_seconds"@)) {
                        Some(s) => valid_reset(s),
                        None => None,
                    },
                },
                None => ChatgptUiCondition::Unknown,
            },
            None => ChatgptUiCondition::Unknown,
        }
    } else if bool_of(v.field("delivery_error"@)) == Some(true) {
        ChatgptUiCondition::DeliveryError {
            recoverable: bool_of(v.field("delivery_recoverable"@)) == Some(true),
        }
    } else if bool_of(v.field("generating"@)) == Some(true) {
        ChatgptUiCondition::Generating
    } else if bool_of(v.field("ready"@)) == Some(true) {
        ChatgptUiCondition::Healthy
    } else {
        ChatgptUiCondition::Unknown
    }
}

/// Whether an optional boolean is there and true.
pub fn is_true(o: Option<bool>) -> (r: bool)
    ensures
        r == (o == Some(true)),
{
    match o {
        Some(b) => b,
        None => false,
    }
}

/// Classifies what a page reports of itself.
pub fn classify_chatgpt_ui_snapshot(value: &Json) -> (r: ChatgptUiCondition)
    ensures
        r == ui_condition(value.model()),
        is_right_condition(value.model(), r),
{
    proof {
        lemma_snapshots_are_classified_by_what_they_say(value.model());
    }
    if is_true(value.bool_field("authentication_required")) {
        return ChatgptUiCondition::AuthenticationRequired;
    }
    if is_true(value.bool_field("rate_limited")) {
        let reason = match value.text_field("rate_limit_reason") {
            Some(name) => ChatgptRateLimitReason::parse(name.as_str()),
            None => None,
        };
        return match reason {
            Some(reason) => {
                let reset_after_seconds = match value.u64_field("reset_after_seconds") {
                    Some(s) => validate_reset_after_seconds(s),
                    None => None,
                };
                ChatgptUiCondition::RateLimited { reason, reset_after_seconds }
            },
            None => ChatgptUiCondition::Unknown,
        };
    }
    if is_true(value.bool_field("delivery_error")) {
        return ChatgptUiCondition::DeliveryError {
            recoverable: is_true(value.bool_field("delivery_recoverable")),
        };
    }
    if is_true(value.bool_field("generating")) {
        return ChatgptUiCondition::Generating;
    }
    if is_true(value.bool_field("ready")) {
        return ChatgptUiCondition::Healthy;
    }
    ChatgptUiCondition::Unknown
}

/// What a probe of a page comes to: nothing is known of an unnamed page or where
/// there was no reply, a driver that cannot look into pages is unsupported, and any
/// other reply is classified.
pub fn probe_chatgpt_ui_condition(
    page: &str,
    kind: Option<BrowserDriverKind>,
    reply: Option<&Json>,
) -> (r: ChatgptUiCondition)
    ensures
        r == (if trimmed(page@).len() == 0 || kind is None {
            ChatgptUiCondition::Unknown
        } else if kind->0 != BrowserDriverKind::Orca && kind->0 != BrowserDriverKind::Cmux && kind->0
            != BrowserDriverKind::AgentBrowser {
            ChatgptUiCondition::Unsupported
        } else {
            match reply {
                Some(v) => ui_condition(v.model()),
                None => ChatgptUiCondition::Unknown,
            }
        }),
{
    if is_blank(page) {
        return ChatgptUiCondition::Unknown;
    }
    match kind {
        None => ChatgptUiCondition::Unknown,
        Some(k) => if !k.supports_chatgpt_dom_probe() {
            ChatgptUiCondition::Unsupported
        } else {
            match reply {
                Some(v) => classify_chatgpt_ui_snapshot(v),
                None => ChatgptUiCondition::Unknown,
            }
        },
    }
}

/// The arguments that name a cmux workspace; the active one needs none.
pub open spec fn cmux_workspace(worktree: Seq<char>) -> Seq<Seq<char>> {
    if trimmed(worktree) != "active"@ {
        seq!["--workspace"@, worktree]
    } else {
        seq![]
    }
}

/// The arguments that open a browser surface with cmux.
pub fn cmux_new_browser_surface_args(worktree: &str) -> (r: Vec<String>)
    ensures
        texts(r@) == seq![
            "--json"@,
            "new-surface"@,
            "--type"@,
            "browser"@,
            "--url"@,
            "https://chatgpt.com"@,
        ] + cmux_workspace(worktree@) + seq!["--focus"@, "true"@],
{
    let mut args = text::no_texts();
    text::push_text(&mut args, "--json");
    text::push_text(&mut args, "new-surface");
    text::push_text(&mut args, "--type");
    text::push_text(&mut args, "browser");
    text::push_text(&mut args, "--url");
    text::push_text(&mut args, "https://chatgpt.com");
    if !same_text(trim(worktree).as_str(), "active") {
        text::push_text(&mut args, "--workspace");
        text::push_text(&mut args, worktree);
    }
    text::push_text(&mut args, "--focus");
    text::push_text(&mut args, "true");
    assert(texts(args@) =~= seq![
        "--json"@,
        "new-surface"@,
        "--type"@,
        "browser"@,
        "--url"@,
        "https://chatgpt.com"@,
    ] + cmux_workspace(worktree@) + seq!["--focus"@, "true"@]);
    args
}

/// The arguments that close a surface with cmux.
pub fn cmux_close_surface_args(worktree: &str, page: &str) -> (r: Vec<String>)
    ensures
        texts(r@) == seq!["--json"@, "close-surface"@] + cmux_workspace(worktree@) + seq![
            "--surface"@,
            page@,
        ],
{
    let mut args = text::no_texts();
    text::push_text(&mut args, "--json");
    text::push_text(&mut args, "close-surface");
    if !same_text(trim(worktree).as_str(), "active") {
        text::push_text(&mut args, "--workspace");
        text::push_text(&mut args, worktree);
    }
    text::push_text(&mut args, "--surface");
    text::push_text(&mut args, page);
    assert(texts(args@) =~= seq!["--json"@, "close-surface"@] + cmux_workspace(worktree@) + seq![
        "--surface"@,
        page@,
    ]);
    args
}

/// The arguments with which each driver opens a ChatGPT tab; `session` names the
/// session that the agent browser opens.
pub open spec fn tab_args(
    kind: BrowserDriverKind,
    worktree: Seq<char>,
    session: Seq<char>,
) -> Seq<Seq<char>> {
    match kind {
        BrowserDriverKind::Orca => seq![
            "tab"@,
            "create"@,
            "--url"@,
            "https://chatgpt.com"@,
            "--worktree"@,
            worktree,
            "--json"@,
        ],
        BrowserDriverKind::Cmux => seq![
            "--json"@,
            "new-surface"@,
            "--type"@,
            "browser"@,
            "--url"@,
            "https://chatgpt.com"@,
        ] + cmux_workspace(worktree) + seq!["--focus"@, "true"@],
        BrowserDriverKind::AgentBrowser => seq![
            "--session"@,
            session,
            "open"@,
            "https://chatgpt.com"@,
            "--json"@,
        ],
        _ => seq!["tab"@, "new"@, "--url"@, "https://chatgpt.com"@, "--json"@],
    }
}

/// The arguments with which a driver opens a ChatGPT tab.
pub fn create_tab_args(kind: BrowserDriverKind, worktree: &str, session: &str) -> (r: Vec<String>)
    ensures
        texts(r@) == tab_args(kind, worktree@, session@),
{
    let mut args = text::no_texts();
    match kind {
        BrowserDriverKind::Orca => {
            text::push_text(&mut args, "tab");
            text::push_text(&mut args, "create");
            text::push_text(&mut args, "--url");
            text::push_text(&mut args, "https://chatgpt.com");
            text::push_text(&mut args, "--worktree");
            text::push_text(&mut args, worktree);
            text::push_text(&mut args, "--json");
        },
        BrowserDriverKind::Cmux => {
            return cmux_new_browser_surface_args(worktree);
        },
        BrowserDriverKind::AgentBrowser => {
            text::push_text(&mut args, "--session");
            text::push_text(&mut args, session);
            text::push_text(&mut args, "open");
            text::push_text(&mut args, "https://chatgpt.com");
            text::push_text(&mut args, "--json");
        },
        _ => {
            text::push_text(&mut args, "tab");
            text::push_text(&mut args, "new");
            text::push_text(&mut args, "--url");
            text::push_text(&mut args, "https://chatgpt.com");
            text::push_text(&mut args, "--json");
        },
    }
    assert(texts(args@) =~= tab_args(kind, worktree@, session@));
    args
}

/// The arguments with which each driver closes a page.
pub open spec fn close_args(
    kind: BrowserDriverKind,
    worktree: Seq<char>,
    page: Seq<char>,
) -> Seq<Seq<char>> {
    match kind {
        BrowserDriverKind::Orca => seq!["tab"@, "close"@, "--page"@, page, "--json"@],
        BrowserDriverKind::Cmux => seq!["--json"@, "close-surface"@] + cmux_workspace(worktree)
            + seq!["--surface"@, page],
        BrowserDriverKind::AgentBrowser => seq!["--session"@, page, "close"@, "--json"@],
        _ => seq!["tab"@, "close"@, page, "--json"@],
    }
}

/// The arguments with which a driver closes a page.
pub fn close_page_args(kind: BrowserDriverKind, worktree: &str, page: &str) -> (r: Vec<String>)
    ensures
        texts(r@) == close_args(kind, worktree@, page@),
{
    let mut args = text::no_texts();
    match kind {
        BrowserDriverKind::Orca => {
            text::push_text(&mut args, "tab");
            text::push_text(&mut args, "close");
            text::push_text(&mut args, "--page");
            text::push_text(&mut args, page);
            text::push_text(&mut args, "--json");
        },
        BrowserDriverKind::Cmux => {
            return cmux_close_surface_args(worktree, page);
        },
        BrowserDriverKind::AgentBrowser => {
            text::push_text(&mut args, "--session");
            text::push_text(&mut args, page);
            text::push_text(&mut args, "close");
            text::push_text(&mut args, "--json");
        },
        _ => {
            text::push_text(&mut args, "tab");
            text::push_text(&mut args, "close");
            text::push_text(&mut args, page);
            text::push_text(&mut args, "--json");
        },
    }
    assert(texts(args@) =~= close_args(kind, worktree@, page@));
    args
}

/// Whether a reply says that its command went well.
pub open spec fn says_ok(reply: JsonModel) -> bool {
    bool_of(reply.field("ok"@)) == Some(true)
}

pub fn reply_ok(reply: &Json) -> (r: bool)
    ensures
        r == says_ok(reply.model()),
{
    is_true(reply.bool_field("ok"))
}

/// The digits of a negative number behind a minus sign.
pub open spec fn signed_decimal(n: i64) -> Seq<char> {
    if n < 0 {
        seq!['-'] + decimal((-(n as int)) as nat)
    } else {
        decimal(n as nat)
    }
}

/// The text of a value that can name something: a string or a number.
pub open spec fn identifier(v: JsonModel) -> Option<Seq<char>> {
    match v {
        JsonModel::Text(s) => Some(s),
        JsonModel::Unsigned(n) => Some(decimal(n as nat)),
        JsonModel::Negative(n) => Some(signed_decimal(n)),
        JsonModel::Decimal(s) => Some(s),
        _ => None,
    }
}

/// The text of a value that can name something.
pub fn value_as_identifier(value: &Json) -> (r: Option<String>)
    ensures
        opt_text(r) == identifier(value.model()),
{
    match value {
        Json::Text(s) => Some(s.clone()),
        Json::Unsigned(n) => Some(decimal_of(*n)),
        Json::Negative(n) => {
            let n: i64 = *n;
            if n >= 0 {
                return Some(decimal_of(n as u64));
            }
            let m: u64 = if n == i64::MIN {
                0x8000_0000_0000_0000
            } else {
                (-n) as u64
            };
            let mut out: String = String::new();
            out.push('-');
            assert(out@ =~= seq!['-']);
            out.append(decimal_of(m).as_str());
            Some(out)
        },
        Json::Decimal(s) => Some(s.clone()),
        _ => None,
    }
}

/// The id of the tab in Maho's reply: the first of three places that is there.
pub open spec fn maho_tab(reply: JsonModel) -> Option<Seq<char>> {
    let place = if reply.field3("result"@, "tab"@, "id"@) is Some {
        reply.field3("result"@, "tab"@, "id"@)
    } else if reply.field2("result"@, "id"@) is Some {
        reply.field2("result"@, "id"@)
    } else {
        reply.field2("result"@, "tab_id"@)
    };
    match place {
        Some(v) => identifier(v),
        None => None,
    }
}

/// The id of the tab in Maho's reply.
pub fn maho_tab_id(reply: &Json) -> (r: Option<String>)
    ensures
        opt_text(r) == maho_tab(reply.model()),
{
    let place = match reply.get3("result", "tab", "id") {
        Some(v) => Some(v),
        None => match reply.get2("result", "id") {
            Some(v) => Some(v),
            None => reply.get2("result", "tab_id"),
        },
    };
    match place {
        Some(v) => value_as_identifier(v),
        None => None,
    }
}

/// A random UUID, under which a tab is known whose driver gives it no id.
pub fn fresh_tab_id() -> (r: String)
    ensures
        crate::outside::is_hyphenated(r@),
{
    crate::outside::fresh_uuid()
}

/// The id of the page in Orca's reply.
pub fn orca_page_id(reply: &Json) -> (r: Option<String>)
    ensures
        opt_text(r) == text_of(reply.model().field2("result"@, "browserPageId"@)),
{
    match reply.get2("result", "browserPageId") {
        Some(Json::Text(s)) => Some(s.clone()),
        _ => None,
    }
}

/// The surface in cmux's reply: the first of four places that is there, if it holds
/// a text that begins with `surface:`.
pub open spec fn surface_ref(reply: JsonModel) -> Option<Seq<char>> {
    let place = if reply.field2("surface"@, "ref"@) is Some {
        reply.field2("surface"@, "ref"@)
    } else if reply.field3("result"@, "surface"@, "ref"@) is Some {
        reply.field3("result"@, "surface"@, "ref"@)
    } else if reply.field("surface_ref"@) is Some {
        reply.field("surface_ref"@)
    } else {
        reply.field2("result"@, "surface_ref"@)
    };
    match text_of(place) {
        Some(s) => if has_prefix(s, "surface:"@) {
            Some(s)
        } else {
            None
        },
        None => None,
    }
}

/// The surface in cmux's reply.
pub fn cmux_surface_ref(shown_reply: &ShownReply) -> (r: Result<String, String>)
    ensures
        match r {
            Ok(s) => surface_ref(shown_reply.value.model()) == Some(s@),
            Err(m) => surface_ref(shown_reply.value.model()) is None && m@
                == "cmux browser surface creation returned no surface ref: "@
                + shown_reply.shown@,
        },
{
    let reply = &shown_reply.value;
    let place = match reply.get2("surface", "ref") {
        Some(v) => Some(v),
        None => match reply.get3("result", "surface", "ref") {
            Some(v) => Some(v),
            None => match reply.get("surface_ref") {
                Some(v) => Some(v),
                None => reply.get2("result", "surface_ref"),
            },
        },
    };
    if let Some(Json::Text(s)) = place {
        if starts_with(s.as_str(), "surface:") {
            return Ok(s.clone());
        }
    }
    Err(
        "cmux browser surface creation returned no surface ref: ".to_owned().concat(
            shown_reply.shown.as_str(),
        ),
    )
}

/// The arguments with which each driver evaluates an expression in a page; Maho and
/// Aside go through Orca.
pub open spec fn eval_args(
    kind: BrowserDriverKind,
    page: Seq<char>,
    expression: Seq<char>,
) -> Seq<Seq<char>> {
    match kind {
        BrowserDriverKind::AgentBrowser => seq!["--session"@, page, "eval"@, expression, "--json"@],
        BrowserDriverKind::Cmux => seq!["--json"@, "browser"@, page, "eval"@, expression],
        _ => seq!["eval"@, "--page"@, page, "--expression"@, expression, "--json"@],
    }
}

/// The arguments with which a driver evaluates an expression in a page.
pub fn eval_command_args(kind: BrowserDriverKind, page: &str, expression: &str) -> (r: Vec<String>)
    ensures
        texts(r@) == eval_args(kind, page@, expression@),
{
    let mut args = text::no_texts();
    match kind {
        BrowserDriverKind::AgentBrowser => {
            text::push_text(&mut args, "--session");
            text::push_text(&mut args, page);
            text::push_text(&mut args, "eval");
            text::push_text(&mut args, expression);
            text::push_text(&mut args, "--json");
        },
        BrowserDriverKind::Cmux => {
            text::push_text(&mut args, "--json");
            text::push_text(&mut args, "browser");
            text::push_text(&mut args, page);
            text::push_text(&mut args, "eval");
            text::push_text(&mut args, expression);
        },
        _ => {
            text::push_text(&mut args, "eval");
            text::push_text(&mut args, "--page");
            text::push_text(&mut args, page);
            text::push_text(&mut args, "--expression");
            text::push_text(&mut args, expression);
            text::push_text(&mut args, "--json");
        },
    }
    assert(texts(args@) =~= eval_args(kind, page@, expression@));
    args
}

/// Where each driver's reply to an evaluation holds the value.
pub open spec fn eval_place(kind: BrowserDriverKind, reply: JsonModel) -> Option<JsonModel> {
    match kind {
        BrowserDriverKind::AgentBrowser => if reply.field2("data"@, "result"@) is Some {
            reply.field2("data"@, "result"@)
        } else {
            reply.field("result"@)
        },
        BrowserDriverKind::Cmux => if reply.field("result"@) is Some {
            reply.field("result"@)
        } else if reply.field("value"@) is Some {
            reply.field("value"@)
        } else {
            reply.field2("data"@, "result"@)
        },
        _ => reply.field2("result"@, "result"@),
    }
}

/// The value in a driver's reply to an evaluation.
pub fn eval_result(kind: BrowserDriverKind, reply: &Json) -> (r: Option<&Json>)
    ensures
        opt_model(r) == eval_place(kind, reply.model()),
{
    match kind {
        BrowserDriverKind::AgentBrowser => match reply.get2("data", "result") {
            Some(v) => Some(v),
            None => reply.get("result"),
        },
        BrowserDriverKind::Cmux => match reply.get("result") {
            Some(v) => Some(v),
            None => match reply.get("value") {
                Some(v) => Some(v),
                None => reply.get2("data", "result"),
            },
        },
        _ => reply.get2("result", "result"),
    }
}

/// The value of an evaluation: a string that is itself JSON stands for what it
/// writes (`inner`), any other value for itself.
pub fn decode_eval_value(raw: &Json, inner: Option<&Json>) -> (r: Json)
    ensures
        r.model() == (if raw.model() is Text && inner is Some {
            inner->0.model()
        } else {
            raw.model()
        }),
{
    match raw {
        Json::Text(_) => match inner {
            Some(v) => v.copy(),
            None => raw.copy(),
        },
        _ => raw.copy(),
    }
}

/// What speaks against a page that was probed.
#[derive(Clone, Copy, Debug, PartialEq, Eq, Structural)]
pub enum PageProbeFault {
    NoUrl,
    InvalidUrl,
    OtherOrigin,
    Inactive,
}

pub open spec fn is_chatgpt_url(u: UrlModel) -> bool {
    u.scheme == "https"@ && u.host == Some("chatgpt.com"@)
}

/// What speaks against a page, checked in this order: no URL, one that does not
/// parse, another origin, an interface that is neither ready nor busy.
pub open spec fn page_fault(v: JsonModel) -> Option<PageProbeFault> {
    match text_of(v.field("url"@)) {
        None => Some(PageProbeFault::NoUrl),
        Some(url) => match parsed_url(url) {
            Err(_) => Some(PageProbeFault::InvalidUrl),
            Ok(u) => if !is_chatgpt_url(u) {
                Some(PageProbeFault::OtherOrigin)
            } else if bool_of(v.field("ready"@)) != Some(true) && bool_of(v.field("generating"@))
                != Some(true) {
                Some(PageProbeFault::Inactive)
            } else {
                None
            },
        },
    }
}

/// Whether the URL of a page is on the ChatGPT origin.
pub fn chatgpt_origin(parts: &crate::outside::UrlParts) -> (r: bool)
    ensures
        r == is_chatgpt_url(parts@),
{
    let host_ok = match &parts.host {
        Some(h) => same_text(h.as_str(), "chatgpt.com"),
        None => false,
    };
    same_text(parts.scheme.as_str(), "https") && host_ok
}

/// Reads a page probe.
pub fn read_page_probe(value: &Json) -> (r: Result<ChatgptPageProbe, PageProbeFault>)
    ensures
        match r {
            Ok(p) => {
                &&& page_fault(value.model()) is None
                &&& text_of(value.model().field("url"@)) == Some(p.url@)
                &&& p.title@ == match text_of(value.model().field("title"@)) {
                    Some(t) => t,
                    None => Seq::empty(),
                }
                &&& p.generating == (bool_of(value.model().field("generating"@)) == Some(true))
            },
            Err(f) => page_fault(value.model()) == Some(f),
        },
{
    let url = match value.text_field("url") {
        Some(u) => u,
        None => {
            return Err(PageProbeFault::NoUrl);
        },
    };
    let parts = match url_parts(url.as_str()) {
        Ok(p) => p,
        Err(_) => {
            return Err(PageProbeFault::InvalidUrl);
        },
    };
    if !chatgpt_origin(&parts) {
        return Err(PageProbeFault::OtherOrigin);
    }
    let ready = is_true(value.bool_field("ready"));
    let generating = is_true(value.bool_field("generating"));
    if !ready && !generating {
        return Err(PageProbeFault::Inactive);
    }
    let title = match value.text_field("title") {
        Some(t) => t,
        None => String::new(),
    };
    Ok(ChatgptPageProbe { url, title, generating })
}

/// The words in which a page is turned down.
pub open spec fn page_fault_text(f: PageProbeFault, url: Seq<char>) -> Seq<char> {
    match f {
        PageProbeFault::NoUrl => "ChatGPT page probe has no url"@,
        PageProbeFault::InvalidUrl => "invalid ChatGPT page URL: "@ + url,
        PageProbeFault::OtherOrigin => "browser page is not on the expected https://chatgpt.com origin"@,
        PageProbeFault::Inactive => "ChatGPT Web interface is not active on page"@,
    }
}

/// Reads a page probe, or says what speaks against the page.
pub fn validate_chatgpt_page_probe(value: &Json) -> (r: Result<ChatgptPageProbe, String>)
    ensures
        match r {
            Ok(p) => {
                &&& page_fault(value.model()) is None
                &&& text_of(value.model().field("url"@)) == Some(p.url@)
                &&& p.title@ == match text_of(value.model().field("title"@)) {
                    Some(t) => t,
                    None => Seq::empty(),
                }
                &&& p.generating == (bool_of(value.model().field("generating"@)) == Some(true))
            },
            Err(m) => {
                &&& page_fault(value.model()) is Some
                &&& m@ == page_fault_text(
                    page_fault(value.model())->0,
                    match text_of(value.model().field("url"@)) {
                        Some(u) => u,
                        None => Seq::empty(),
                    },
                )
            },
        },
{
    match read_page_probe(value) {
        Ok(p) => Ok(p),
        Err(PageProbeFault::NoUrl) => Err("ChatGPT page probe has no url".to_owned()),
        Err(PageProbeFault::InvalidUrl) => {
            let url = match value.text_field("url") {
                Some(u) => u,
                None => String::new(),
            };
            Err("invalid ChatGPT page URL: ".to_owned().concat(url.as_str()))
        },
        Err(PageProbeFault::OtherOrigin) => Err(
            "browser page is not on the expected https://chatgpt.com origin".to_owned(),
        ),
        Err(PageProbeFault::Inactive) => Err(
            "ChatGPT Web interface is not active on page".to_owned(),
        ),
    }
}

/// The expression that fills the prompt box with a prompt; a blank prompt has none.
pub fn insert_prompt_expression(prompt: &str) -> (r: Result<String, String>)
    ensures
        match r {
            Ok(e) => trimmed(prompt@).len() > 0 && e@ == INSERT_PROMPT_HEAD@ + json_quoted(prompt@)
                + INSERT_PROMPT_TAIL@,
            Err(m) => trimmed(prompt@).len() == 0 && m@ == "ChatGPT Web prompt cannot be empty"@,
        },
{
    if is_blank(prompt) {
        return Err("ChatGPT Web prompt cannot be empty".to_owned());
    }
    Ok(
        INSERT_PROMPT_HEAD.to_owned().concat(json_quote(prompt).as_str()).concat(
            INSERT_PROMPT_TAIL,
        ),
    )
}

/// What to do while waiting for a page.
#[derive(Clone, Copy, Debug, PartialEq, Eq, Structural)]
pub enum WaitStep {
    Done,
    /// Give up with the failure of the last probe.
    Fail,
    TimedOut,
    Again,
}

/// The next step while waiting for a page to stop generating: `generating` is what
/// the last probe said, or nothing where it failed.
pub fn idle_wait_step(generating: Option<bool>, past_deadline: bool) -> (r: WaitStep)
    ensures
        r == (if generating == Some(false) {
            WaitStep::Done
        } else if !past_deadline {
            WaitStep::Again
        } else if generating is None {
            WaitStep::Fail
        } else {
            WaitStep::TimedOut
        }),
{
    match generating {
        Some(false) => WaitStep::Done,
        Some(true) => if past_deadline {
            WaitStep::TimedOut
        } else {
            WaitStep::Again
        },
        None => if past_deadline {
            WaitStep::Fail
        } else {
            WaitStep::Again
        },
    }
}

/// The next step while waiting for the prompt box: `reply` is what the last probe
/// said, or nothing where it failed.
pub fn prompt_wait_step(reply: Option<&Json>, past_deadline: bool) -> (r: WaitStep)
    ensures
        r == (if reply is Some && reply->0.model() == JsonModel::Bool(true) {
            WaitStep::Done
        } else if past_deadline {
            WaitStep::TimedOut
        } else {
            WaitStep::Again
        }),
{
    if let Some(Json::Bool(true)) = reply {
        return WaitStep::Done;
    }
    if past_deadline {
        WaitStep::TimedOut
    } else {
        WaitStep::Again
    }
}

/// Whether an output stream may take more bytes.
pub fn output_fits(held: usize, more: usize) -> (r: bool)
    ensures
        r == (held + more <= MAX_COMMAND_OUTPUT_BYTES),
{
    more <= MAX_COMMAND_OUTPUT_BYTES && held <= MAX_COMMAND_OUTPUT_BYTES - more
}

/// How a command ended and what it wrote. The arguments and the status are given as they
/// are shown in messages.
#[derive(Debug)]
pub struct CommandOutput {
    pub program: String,
    pub shown_args: String,
    pub shown_status: String,
    pub success: bool,
    pub stdout: String,
    pub stderr: String,
}

/// The words for a command that failed.
pub open spec fn command_failure(out: CommandOutput) -> Seq<char> {
    "command "@ + out.program@ + " "@ + out.shown_args@ + " failed ("@ + out.shown_status@ + "): "@
        + trimmed(out.stdout@) + " "@ + trimmed(out.stderr@)
}

/// The words for a command that wrote no JSON.
pub open spec fn command_not_json(out: CommandOutput) -> Seq<char> {
    "command "@ + out.program@ + " returned invalid JSON: "@ + trimmed(out.stdout@)
}

impl CommandOutput {
    /// What a command wrote, out of the bytes of its two streams.
    pub fn read(
        program: &str,
        shown_args: String,
        shown_status: String,
        success: bool,
        stdout: &Vec<u8>,
        stderr: &Vec<u8>,
    ) -> (r: Self)
        ensures
            r.program@ == program@,
            r.shown_args == shown_args,
            r.shown_status == shown_status,
            r.success == success,
            r.stdout@ == text::lossy(stdout@),
            r.stderr@ == text::lossy(stderr@),
    {
        CommandOutput {
            program: program.to_owned(),
            shown_args,
            shown_status,
            success,
            stdout: text::lossy_text(stdout),
            stderr: text::lossy_text(stderr),
        }
    }

    /// The text that is read as JSON: what the command wrote, without the white space
    /// around it.
    pub fn json_text(&self) -> (r: String)
        ensures
            r@ == trimmed(self.stdout@),
    {
        trim(self.stdout.as_str())
    }
}

/// The reply of a command. `parsed` is what its [`CommandOutput::json_text`] was read as,
/// if it is JSON; of a command that failed it is not looked at.
pub fn parse_command_json(out: &CommandOutput, parsed: Option<Json>) -> (r: Result<Json, String>)
    ensures
        match r {
            Ok(value) => out.success && parsed == Some(value),
            Err(m) => if out.success {
                parsed is None && m@ == command_not_json(*out)
            } else {
                m@ == command_failure(*out)
            },
        },
{
    let stdout = out.json_text();
    if !out.success {
        let stderr = trim(out.stderr.as_str());
        return Err(
            "command ".to_owned().concat(out.program.as_str()).concat(" ").concat(
                out.shown_args.as_str(),
            ).concat(" failed (").concat(out.shown_status.as_str()).concat("): ").concat(
                stdout.as_str(),
            ).concat(" ").concat(stderr.as_str()),
        );
    }
    match parsed {
        Some(value) => Ok(value),
        None => Err(
            "command ".to_owned().concat(out.program.as_str()).concat(
                " returned invalid JSON: ",
            ).concat(stdout.as_str()),
        ),
    }
}

// ---------------------------------------------------------------------------------
// Terminals.
// ---------------------------------------------------------------------------------

/// How much output of a terminal is read where its mark is looked for.
pub const MARKER_LINES: u64 = 40;

/// How much output of a terminal is read where its looks are weighed.
pub const SCORE_LINES: u64 = 60;

/// The command that lists the terminals of a work tree.
pub fn terminal_list_args(worktree: &str) -> (r: Vec<String>)
    ensures
        texts(r@) == seq!["terminal"@, "list"@, "--worktree"@, worktree@, "--json"@],
{
    let r = vec![
        "terminal".to_owned(),
        "list".to_owned(),
        "--worktree".to_owned(),
        worktree.to_owned(),
        "--json".to_owned(),
    ];
    assert(texts(r@) =~= seq!["terminal"@, "list"@, "--worktree"@, worktree@, "--json"@]);
    r
}

/// The command that reads the last lines of a terminal.
pub fn terminal_read_args(handle: &str, lines: u64) -> (r: Vec<String>)
    ensures
        texts(r@) == seq![
            "terminal"@,
            "read"@,
            "--terminal"@,
            handle@,
            "--limit"@,
            decimal(lines as nat),
            "--json"@,
        ],
{
    let r = vec![
        "terminal".to_owned(),
        "read".to_owned(),
        "--terminal".to_owned(),
        handle.to_owned(),
        "--limit".to_owned(),
        decimal_of(lines),
        "--json".to_owned(),
    ];
    assert(texts(r@) =~= seq![
        "terminal"@,
        "read"@,
        "--terminal"@,
        handle@,
        "--limit"@,
        decimal(lines as nat),
        "--json"@,
    ]);
    r
}

/// The command that asks whether a terminal is there.
pub fn terminal_show_args(handle: &str) -> (r: Vec<String>)
    ensures
        texts(r@) == seq!["terminal"@, "show"@, "--terminal"@, handle@, "--json"@],
{
    let r = vec![
        "terminal".to_owned(),
        "show".to_owned(),
        "--terminal".to_owned(),
        handle.to_owned(),
        "--json".to_owned(),
    ];
    assert(texts(r@) =~= seq!["terminal"@, "show"@, "--terminal"@, handle@, "--json"@]);
    r
}

/// The command that sends what it reads to a terminal.
pub fn terminal_send_args(handle: &str) -> (r: Vec<String>)
    ensures
        texts(r@) == seq!["terminal"@, "send"@, "--terminal"@, handle@, "--enter"@, "--json"@],
{
    let r = vec![
        "terminal".to_owned(),
        "send".to_owned(),
        "--terminal".to_owned(),
        handle.to_owned(),
        "--enter".to_owned(),
        "--json".to_owned(),
    ];
    assert(texts(r@) =~= seq![
        "terminal"@,
        "send"@,
        "--terminal"@,
        handle@,
        "--enter"@,
        "--json"@,
    ]);
    r
}

/// Whether a prompt reached its terminal; `shown` is the reply as a text.
pub fn send_prompt(reply: &Json, shown: &str) -> (r: Result<(), String>)
    ensures
        match r {
            Ok(_) => says_ok(reply.model()),
            Err(e) => !says_ok(reply.model()) && e@ == "terminal send failed: "@ + shown@,
        },
{
    if reply_ok(reply) {
        Ok(())
    } else {
        Err("terminal send failed: ".to_owned().concat(shown))
    }
}

/// The text of a field, or nothing.
pub open spec fn field_text(v: JsonModel, key: Seq<char>) -> Seq<char> {
    match text_of(v.field(key)) {
        Some(s) => s,
        None => ""@,
    }
}

fn read_field_text(v: &Json, key: &str) -> (r: String)
    ensures
        r@ == field_text(v.model(), key@),
{
    match v.text_field(key) {
        Some(s) => s,
        None => "".to_owned(),
    }
}

/// The handles and titles of the terminals in a list; terminals without a handle are
/// passed over.
pub open spec fn handles(list: Seq<JsonModel>) -> Seq<(Seq<char>, Seq<char>)>
    decreases list.len(),
{
    if list.len() == 0 {
        Seq::empty()
    } else {
        let before = handles(list.drop_last());
        let handle = field_text(list.last(), "handle"@);
        if handle.len() == 0 {
            before
        } else {
            before.push((handle, field_text(list.last(), "title"@)))
        }
    }
}

/// The terminals that a reply lists, or that it lists none.
pub open spec fn listed_handles(reply: JsonModel) -> Result<
    Seq<(Seq<char>, Seq<char>)>,
    Seq<char>,
> {
    match array_of(reply.field2("result"@, "terminals"@)) {
        None => Err("terminal list returned no terminals"@),
        Some(list) => Ok(handles(list)),
    }
}

/// A terminal in a list.
#[derive(Debug)]
pub struct ListedTerminal {
    pub handle: String,
    pub title: String,
}

pub open spec fn listed_models(v: Seq<ListedTerminal>) -> Seq<(Seq<char>, Seq<char>)> {
    v.map_values(|t: ListedTerminal| (t.handle@, t.title@))
}

/// The terminals that a reply lists.
pub fn listed_terminals(reply: &Json) -> (r: Result<Vec<ListedTerminal>, String>)
    ensures
        match r {
            Ok(v) => listed_handles(reply.model()) == Ok::<Seq<(Seq<char>, Seq<char>)>, Seq<char>>(
                listed_models(v@),
            ),
            Err(e) => listed_handles(reply.model()) == Err::<
                Seq<(Seq<char>, Seq<char>)>,
                Seq<char>,
            >(e@),
        },
{
    let list = match reply.get2("result", "terminals") {
        Some(Json::Array(v)) => v,
        _ => {
            return Err("terminal list returned no terminals".to_owned());
        },
    };
    let ghost all = crate::json::models(list@);
    let mut out: Vec<ListedTerminal> = Vec::new();
    let mut i: usize = 0;
    assert(all.subrange(0, 0) =~= Seq::empty());
    assert(listed_models(out@) =~= Seq::empty());
    while i < list.len()
        invariant
            i <= list@.len(),
            all == crate::json::models(list@),
            listed_models(out@) == handles(all.subrange(0, i as int)),
        decreases list@.len() - i,
    {
        proof {
            let next = all.subrange(0, i + 1);
            assert(next.drop_last() =~= all.subrange(0, i as int));
            assert(next.last() == list@[i as int].model());
        }
        let handle = read_field_text(&list[i], "handle");
        if !handle.as_str().is_empty() {
            let title = read_field_text(&list[i], "title");
            let ghost before = listed_models(out@);
            let ghost pair = (handle@, title@);
            out.push(ListedTerminal { handle, title });
            assert(listed_models(out@) =~= before.push(pair));
        }
        i += 1;
    }
    assert(all.subrange(0, all.len() as int) =~= all);
    Ok(out)
}

/// The output in a reply.
pub open spec fn output_of(reply: JsonModel) -> Seq<char> {
    match text_of(reply.field2("result"@, "output"@)) {
        Some(s) => s,
        None => ""@,
    }
}

fn read_output(reply: &Json) -> (r: String)
    ensures
        r@ == output_of(reply.model()),
{
    match reply.get2("result", "output") {
        Some(Json::Text(s)) => s.clone(),
        _ => "".to_owned(),
    }
}

/// What has been seen of the terminals of a work tree: their list, and what was read of
/// them so far, in the order of the list.
#[derive(Debug)]
pub struct TerminalSurvey {
    pub listed: Option<Result<Json, String>>,
    pub outputs: Vec<Result<Json, String>>,
}

impl TerminalSurvey {
    /// Nothing has been seen.
    pub fn nothing() -> (r: Self)
        ensures
            r.listed is None,
            r.outputs@.len() == 0,
    {
        TerminalSurvey { listed: None, outputs: Vec::new() }
    }
}

/// What the search for a terminal does next.
#[derive(Debug)]
pub enum TerminalStep {
    /// Ask whether this terminal is there.
    Show(String),
    /// List the terminals.
    List,
    /// Read this many lines of this terminal.
    Read(String, u64),
    Found(String),
    Failed(String),
}

pub enum TerminalModel {
    Show(Seq<char>),
    List,
    Read(Seq<char>, u64),
    Found(Seq<char>),
    Failed(Seq<char>),
}

impl View for TerminalStep {
    type V = TerminalModel;

    open spec fn view(&self) -> TerminalModel {
        match *self {
            TerminalStep::Show(s) => TerminalModel::Show(s@),
            TerminalStep::List => TerminalModel::List,
            TerminalStep::Read(s, n) => TerminalModel::Read(s@, n),
            TerminalStep::Found(s) => TerminalModel::Found(s@),
            TerminalStep::Failed(e) => TerminalModel::Failed(e@),
        }
    }
}

/// How much a terminal with this title and output looks like the orchestrator's.
pub open spec fn looks_score(title: Seq<char>, output: Seq<char>) -> int {
    let lower = text::unicode_lower(title);
    let by_title: int = if contains_text(lower, "omo"@) || contains_text(lower, "opencode"@) {
        50
    } else {
        0
    };
    let by_bridge: int = if contains_text(output, "[GPT2OMO"@) || contains_text(
        output,
        "gpt2omo"@,
    ) {
        100
    } else {
        0
    };
    let by_task: int = if contains_text(output, "task_state"@) || contains_text(
        output,
        "completion_check"@,
    ) {
        80
    } else {
        0
    };
    by_title + by_bridge + by_task
}

/// How much a terminal looks like the orchestrator's.
pub fn score_terminal(title: &str, output: &str) -> (r: i64)
    ensures
        r == looks_score(title@, output@),
{
    let lower = text::lowercase(title);
    let mut score: i64 = 0;
    if contains(lower.as_str(), "omo") || contains(lower.as_str(), "opencode") {
        score = score + 50;
    }
    if contains(output, "[GPT2OMO") || contains(output, "gpt2omo") {
        score = score + 100;
    }
    if contains(output, "task_state") || contains(output, "completion_check") {
        score = score + 80;
    }
    score
}

/// The place of the last terminal with the greatest score, or -1 where there is none.
pub open spec fn best_terminal(scores: Seq<int>) -> int
    decreases scores.len(),
{
    if scores.len() == 0 {
        -1
    } else {
        let b = best_terminal(scores.drop_last());
        if b < 0 || scores.last() >= scores[b] {
            scores.len() - 1
        } else {
            b
        }
    }
}

/// A terminal with the greatest score is picked, and of equal ones the last.
pub proof fn lemma_best_terminal(scores: Seq<int>)
    ensures
        -1 <= best_terminal(scores) < scores.len(),
        best_terminal(scores) < 0 <==> scores.len() == 0,
        forall|i: int|
            0 <= i < scores.len() ==> {
                &&& #[trigger] scores[i] <= scores[best_terminal(scores)]
                &&& i > best_terminal(scores) ==> scores[i] < scores[best_terminal(scores)]
            },
    decreases scores.len(),
{
    if scores.len() > 0 {
        let front = scores.drop_last();
        lemma_best_terminal(front);
        assert(forall|i: int| 0 <= i < front.len() ==> front[i] == #[trigger] scores[i]);
    }
}

/// The scores of the terminals from the first on, as far as their outputs were read.
pub open spec fn scores_of(list: Seq<(Seq<char>, Seq<char>)>, outputs: Seq<Result<Json, String>>, n: int) -> Seq<
    int,
>
    decreases n,
{
    if n <= 0 {
        Seq::empty()
    } else {
        scores_of(list, outputs, n - 1).push(
            looks_score(list[n - 1].1, output_of(outputs[n - 1]->Ok_0.model())),
        )
    }
}

/// What comes next in weighing the terminals from one on: each is read, and then the one
/// that looks most like the orchestrator's is taken.
pub open spec fn weigh_from(
    worktree: Seq<char>,
    list: Seq<(Seq<char>, Seq<char>)>,
    outputs: Seq<Result<Json, String>>,
    k: int,
) -> TerminalModel
    decreases list.len() - k,
{
    if k < 0 || k >= list.len() {
        let best = best_terminal(scores_of(list, outputs, list.len() as int));
        if best < 0 {
            TerminalModel::Failed(
                "no active coding orchestrator terminal found in worktree '"@ + worktree + "'"@,
            )
        } else {
            TerminalModel::Found(list[best].0)
        }
    } else if k >= outputs.len() {
        TerminalModel::Read(list[k].0, SCORE_LINES)
    } else {
        match outputs[k] {
            Err(e) => TerminalModel::Failed(e@),
            Ok(_) => weigh_from(worktree, list, outputs, k + 1),
        }
    }
}

/// What comes next in the search for the orchestrator's terminal.
pub open spec fn uncached_next(worktree: Seq<char>, survey: TerminalSurvey) -> TerminalModel {
    match survey.listed {
        None => TerminalModel::List,
        Some(Err(e)) => TerminalModel::Failed(e@),
        Some(Ok(reply)) => match listed_handles(reply.model()) {
            Err(e) => TerminalModel::Failed(e),
            Ok(list) => weigh_from(worktree, list, survey.outputs@, 0),
        },
    }
}

/// What comes next in the search for the orchestrator's terminal.
pub fn resolve_terminal_uncached(worktree: &str, survey: &TerminalSurvey) -> (r: TerminalStep)
    ensures
        r@ == uncached_next(worktree@, *survey),
{
    let reply = match &survey.listed {
        None => {
            return TerminalStep::List;
        },
        Some(Err(e)) => {
            return TerminalStep::Failed(e.clone());
        },
        Some(Ok(v)) => v,
    };
    let list = match listed_terminals(reply) {
        Ok(v) => v,
        Err(e) => {
            return TerminalStep::Failed(e);
        },
    };
    let ghost all = listed_models(list@);
    let ghost outs = survey.outputs@;
    let mut best: usize = 0;
    let mut top: i64 = 0;
    let mut k: usize = 0;
    while k < list.len()
        invariant
            k <= list@.len(),
            k <= outs.len(),
            all == listed_models(list@),
            outs == survey.outputs@,
            uncached_next(worktree@, *survey) == weigh_from(worktree@, all, outs, k as int),
            scores_of(all, outs, k as int).len() == k,
            k == 0 ==> best_terminal(scores_of(all, outs, k as int)) < 0,
            k > 0 ==> best < k && best_terminal(scores_of(all, outs, k as int)) == best && top
                == scores_of(all, outs, k as int)[best as int],
        decreases list@.len() - k,
    {
        if k >= survey.outputs.len() {
            return TerminalStep::Read(list[k].handle.clone(), SCORE_LINES);
        }
        match &survey.outputs[k] {
            Err(e) => {
                return TerminalStep::Failed(e.clone());
            },
            Ok(v) => {
                let output = read_output(v);
                let score = score_terminal(list[k].title.as_str(), output.as_str());
                proof {
                    let now = scores_of(all, outs, k as int);
                    let next = scores_of(all, outs, k + 1);
                    assert(next.drop_last() =~= now);
                    assert(next.last() == score);
                    if k > 0 {
                        assert(next[best as int] == now[best as int]);
                    }
                }
                if k == 0 || score >= top {
                    best = k;
                    top = score;
                }
            },
        }
        k += 1;
    }
    if list.len() == 0 {
        TerminalStep::Failed(
            "no active coding orchestrator terminal found in worktree '".to_owned().concat(
                worktree,
            ).concat("'"),
        )
    } else {
        TerminalStep::Found(list[best].handle.clone())
    }
}

/// What comes next in the search for a terminal: the one that is set, if it is there, or
/// else the orchestrator's.
pub open spec fn resolve_next(
    terminal: Option<Seq<char>>,
    worktree: Seq<char>,
    shown: Option<bool>,
    survey: TerminalSurvey,
) -> TerminalModel {
    match (terminal, shown) {
        (Some(t), None) => TerminalModel::Show(t),
        (Some(t), Some(true)) => TerminalModel::Found(t),
        _ => uncached_next(worktree, survey),
    }
}

/// What comes next in the search for a terminal. `shown` says whether the one that is
/// set was there, once that was asked.
pub fn resolve_terminal(
    config: &BrowserDriverConfig,
    shown: Option<bool>,
    survey: &TerminalSurvey,
) -> (r: TerminalStep)
    ensures
        r@ == resolve_next(opt_text(config.terminal), config.worktree@, shown, *survey),
{
    if let Some(t) = &config.terminal {
        match shown {
            None => {
                return TerminalStep::Show(t.clone());
            },
            Some(true) => {
                return TerminalStep::Found(t.clone());
            },
            Some(false) => {},
        }
    }
    resolve_terminal_uncached(config.worktree.as_str(), survey)
}

/// What comes next in looking for a mark in the terminals from one on, or nothing where
/// none of them shows it.
pub open spec fn mark_from(
    marker: Seq<char>,
    list: Seq<(Seq<char>, Seq<char>)>,
    outputs: Seq<Result<Json, String>>,
    k: int,
) -> Option<TerminalModel>
    decreases list.len() - k,
{
    if k < 0 || k >= list.len() {
        None
    } else if k >= outputs.len() {
        Some(TerminalModel::Read(list[k].0, MARKER_LINES))
    } else {
        match outputs[k] {
            Err(e) => Some(TerminalModel::Failed(e@)),
            Ok(v) => if contains_text(output_of(v.model()), marker) {
                Some(TerminalModel::Found(list[k].0))
            } else {
                mark_from(marker, list, outputs, k + 1)
            },
        }
    }
}

/// What comes next in looking for a mark in the terminals.
pub open spec fn marker_next(marker: Seq<char>, marked: TerminalSurvey) -> Option<TerminalModel> {
    match marked.listed {
        None => Some(TerminalModel::List),
        Some(Err(e)) => Some(TerminalModel::Failed(e@)),
        Some(Ok(reply)) => match listed_handles(reply.model()) {
            Err(e) => Some(TerminalModel::Failed(e)),
            Ok(list) => mark_from(marker, list, marked.outputs@, 0),
        },
    }
}

fn look_for_mark(marker: &str, marked: &TerminalSurvey) -> (r: Option<TerminalStep>)
    ensures
        match r {
            Some(s) => marker_next(marker@, *marked) == Some(s@),
            None => marker_next(marker@, *marked) is None,
        },
{
    let reply = match &marked.listed {
        None => {
            return Some(TerminalStep::List);
        },
        Some(Err(e)) => {
            return Some(TerminalStep::Failed(e.clone()));
        },
        Some(Ok(v)) => v,
    };
    let list = match listed_terminals(reply) {
        Ok(v) => v,
        Err(e) => {
            return Some(TerminalStep::Failed(e));
        },
    };
    let ghost all = listed_models(list@);
    let mut k: usize = 0;
    while k < list.len()
        invariant
            k <= list@.len(),
            all == listed_models(list@),
            marker_next(marker@, *marked) == mark_from(
                marker@,
                all,
                marked.outputs@,
                k as int,
            ),
        decreases list@.len() - k,
    {
        if k >= marked.outputs.len() {
            return Some(TerminalStep::Read(list[k].handle.clone(), MARKER_LINES));
        }
        match &marked.outputs[k] {
            Err(e) => {
                return Some(TerminalStep::Failed(e.clone()));
            },
            Ok(v) => {
                if contains(read_output(v).as_str(), marker) {
                    return Some(TerminalStep::Found(list[k].handle.clone()));
                }
            },
        }
        k += 1;
    }
    None
}

/// What comes next in the search for the terminal that shows a mark: the first that
/// shows it is taken, and where none does, the one that would be taken without a mark.
pub fn resolve_terminal_for_marker(
    config: &BrowserDriverConfig,
    marker: &str,
    marked: &TerminalSurvey,
    shown: Option<bool>,
    survey: &TerminalSurvey,
) -> (r: TerminalStep)
    ensures
        r@ == (match marker_next(marker@, *marked) {
            Some(step) => step,
            None => resolve_next(opt_text(config.terminal), config.worktree@, shown, *survey),
        }),
{
    match look_for_mark(marker, marked) {
        Some(s) => s,
        None => resolve_terminal(config, shown, survey),
    }
}

// ---------------------------------------------------------------------------------
// Sending a prompt.
// ---------------------------------------------------------------------------------

/// A reply, and the reply as a text.
#[derive(Debug)]
pub struct ShownReply {
    pub value: Json,
    pub shown: String,
}

/// What has come of the steps of sending a prompt.
#[derive(Debug)]
pub struct SendSeen {
    /// Whether the page came to rest.
    pub idle: Option<Result<(), String>>,
    /// What filling the prompt box came to.
    pub inserted: Option<Result<ShownReply, String>>,
    /// What pressing the button came to.
    pub pressed: Option<Result<ShownReply, String>>,
}

impl SendSeen {
    /// No step has been taken.
    pub fn nothing() -> (r: Self)
        ensures
            r.idle is None && r.inserted is None && r.pressed is None,
    {
        SendSeen { idle: None, inserted: None, pressed: None }
    }
}

/// What sending a prompt does next.
#[derive(Debug)]
pub enum SendStep {
    /// Wait until no answer is under way.
    AwaitIdle,
    /// Fill the prompt box with this expression.
    Insert(String),
    /// Press the button with this expression.
    Press(&'static str),
    Sent,
    Failed(String),
}

pub enum SendModel {
    AwaitIdle,
    Insert(Seq<char>),
    Press(Seq<char>),
    Sent,
    Failed(Seq<char>),
}

impl View for SendStep {
    type V = SendModel;

    open spec fn view(&self) -> SendModel {
        match *self {
            SendStep::AwaitIdle => SendModel::AwaitIdle,
            SendStep::Insert(s) => SendModel::Insert(s@),
            SendStep::Press(s) => SendModel::Press(s@),
            SendStep::Sent => SendModel::Sent,
            SendStep::Failed(e) => SendModel::Failed(e@),
        }
    }
}

/// What sending a prompt does next: it waits, fills the box and presses the button, and
/// goes on only after a step that went well.
pub open spec fn send_next(
    prompt: Seq<char>,
    insert: Seq<char>,
    press: Seq<char>,
    seen: SendSeen,
) -> SendModel {
    if trimmed(prompt).len() == 0 {
        SendModel::Failed("ChatGPT Web prompt cannot be empty"@)
    } else {
        match (seen.idle, seen.inserted, seen.pressed) {
            (None, _, _) => SendModel::AwaitIdle,
            (Some(Err(e)), _, _) => SendModel::Failed(e@),
            (_, None, _) => SendModel::Insert(insert),
            (_, Some(Err(e)), _) => SendModel::Failed(e@),
            (_, Some(Ok(v)), pressed) => if !says_ok(v.value.model()) {
                SendModel::Failed("unable to fill ChatGPT prompt box: "@ + v.shown@)
            } else {
                match pressed {
                    None => SendModel::Press(press),
                    Some(Err(e)) => SendModel::Failed(e@),
                    Some(Ok(w)) => if says_ok(w.value.model()) {
                        SendModel::Sent
                    } else {
                        SendModel::Failed("unable to send ChatGPT prompt: "@ + w.shown@)
                    },
                }
            },
        }
    }
}

/// What sending a prompt does next, with the expressions that fill the box and press the
/// button.
pub(crate) fn send_step(
    insert: Result<String, String>,
    press: &'static str,
    seen: &SendSeen,
    Ghost(prompt): Ghost<Seq<char>>,
) -> (r: SendStep)
    requires
        insert is Err <==> trimmed(prompt).len() == 0,
        insert is Err ==> insert->Err_0@ == "ChatGPT Web prompt cannot be empty"@,
    ensures
        r@ == send_next(prompt, insert->Ok_0@, press@, *seen),
{
    let expression = match insert {
        Ok(e) => e,
        Err(e) => {
            return SendStep::Failed(e);
        },
    };
    match &seen.idle {
        None => {
            return SendStep::AwaitIdle;
        },
        Some(Err(e)) => {
            return SendStep::Failed(e.clone());
        },
        Some(Ok(_)) => {},
    }
    match &seen.inserted {
        None => {
            return SendStep::Insert(expression);
        },
        Some(Err(e)) => {
            return SendStep::Failed(e.clone());
        },
        Some(Ok(v)) => {
            if !reply_ok(&v.value) {
                return SendStep::Failed(
                    "unable to fill ChatGPT prompt box: ".to_owned().concat(v.shown.as_str()),
                );
            }
        },
    }
    match &seen.pressed {
        None => SendStep::Press(press),
        Some(Err(e)) => SendStep::Failed(e.clone()),
        Some(Ok(w)) => if reply_ok(&w.value) {
            SendStep::Sent
        } else {
            SendStep::Failed(
                "unable to send ChatGPT prompt: ".to_owned().concat(w.shown.as_str()),
            )
        },
    }
}

/// What sending a prompt through a driver does next.
pub fn send_chatgpt_prompt(prompt: &str, seen: &SendSeen) -> (r: SendStep)
    ensures
        r@ == send_next(
            prompt@,
            INSERT_PROMPT_HEAD@ + json_quoted(prompt@) + INSERT_PROMPT_TAIL@,
            CHATGPT_SEND_EXPRESSION@,
            *seen,
        ),
{
    send_step(insert_prompt_expression(prompt), CHATGPT_SEND_EXPRESSION, seen, Ghost(prompt@))
}

/// The button is pressed only after the page came to rest and took the whole prompt.
pub proof fn lemma_press_follows_insert(
    prompt: Seq<char>,
    insert: Seq<char>,
    press: Seq<char>,
    seen: SendSeen,
)
    ensures
        (send_next(prompt, insert, press, seen) is Press || send_next(
            prompt,
            insert,
            press,
            seen,
        ) is Sent) ==> {
            &&& trimmed(prompt).len() > 0
            &&& seen.idle matches Some(Ok(_))
            &&& seen.inserted matches Some(Ok(v)) && says_ok(v.value.model())
        },
{
}

/// What closing a page through a driver comes to, given the outcome of the driver's
/// command: Orca must say that it went well, cmux must not fail, and of the other drivers
/// every outcome will do.
pub open spec fn close_outcome(
    kind: BrowserDriverKind,
    reply: Result<ShownReply, String>,
) -> Result<(), Seq<char>> {
    match (kind, reply) {
        (BrowserDriverKind::Orca, Err(e)) => Err(e@),
        (BrowserDriverKind::Orca, Ok(v)) => if says_ok(v.value.model()) {
            Ok(())
        } else {
            Err("orca tab close failed: "@ + v.shown@)
        },
        (BrowserDriverKind::Cmux, Err(e)) => Err(e@),
        _ => Ok(()),
    }
}

/// What closing a page through a driver comes to.
pub fn close_browser_page(kind: BrowserDriverKind, reply: &Result<ShownReply, String>) -> (r: Result<
    (),
    String,
>)
    ensures
        match r {
            Ok(_) => close_outcome(kind, *reply) is Ok,
            Err(e) => close_outcome(kind, *reply) == Err::<(), Seq<char>>(e@),
        },
{
    match (kind, reply) {
        (BrowserDriverKind::Orca, Err(e)) => Err(e.clone()),
        (BrowserDriverKind::Orca, Ok(v)) => if reply_ok(&v.value) {
            Ok(())
        } else {
            Err("orca tab close failed: ".to_owned().concat(v.shown.as_str()))
        },
        (BrowserDriverKind::Cmux, Err(e)) => Err(e.clone()),
        _ => Ok(()),
    }
}

/// Whether a driver evaluates expressions with a command of its own.
pub open spec fn has_eval(kind: BrowserDriverKind) -> bool {
    kind == BrowserDriverKind::Orca || kind == BrowserDriverKind::AgentBrowser || kind
        == BrowserDriverKind::Cmux
}

pub const NO_EVAL: &'static str = "DOM evaluation is unsupported by this browser driver";

/// The command that evaluates expressions for a driver whose command is `bin`: a driver
/// that has none borrows Orca's, where that is installed.
pub fn eval_program(kind: BrowserDriverKind, bin: &str, orca: bool) -> (r: Result<String, String>)
    ensures
        match r {
            Ok(b) => if has_eval(kind) {
                b@ == bin@
            } else {
                orca && b@ == "orca"@
            },
            Err(e) => !has_eval(kind) && !orca && e@ == NO_EVAL@,
        },
{
    if kind.supports_chatgpt_dom_probe() {
        Ok(bin.to_owned())
    } else if orca {
        Ok("orca".to_owned())
    } else {
        Err(NO_EVAL.to_owned())
    }
}

/// What is said where the reply to an evaluation holds no value.
pub open spec fn no_value_text(kind: BrowserDriverKind, shown: Seq<char>) -> Seq<char> {
    match kind {
        BrowserDriverKind::Orca => "orca eval returned no result"@,
        BrowserDriverKind::AgentBrowser => "agent-browser eval returned no result"@,
        BrowserDriverKind::Cmux => "cmux browser eval returned no result: "@ + shown,
        _ => "orca eval compatibility path returned no result"@,
    }
}

/// The value that the reply to an evaluation holds.
pub fn read_eval<'a>(kind: BrowserDriverKind, reply: &'a ShownReply) -> (r: Result<&'a Json, String>)
    ensures
        match r {
            Ok(v) => eval_place(kind, reply.value.model()) == Some(v.model()),
            Err(e) => eval_place(kind, reply.value.model()) is None && e@ == no_value_text(
                kind,
                reply.shown@,
            ),
        },
{
    match eval_result(kind, &reply.value) {
        Some(v) => Ok(v),
        None => match kind {
            BrowserDriverKind::Orca => Err("orca eval returned no result".to_owned()),
            BrowserDriverKind::AgentBrowser => Err(
                "agent-browser eval returned no result".to_owned(),
            ),
            BrowserDriverKind::Cmux => Err(
                "cmux browser eval returned no result: ".to_owned().concat(reply.shown.as_str()),
            ),
            _ => Err("orca eval compatibility path returned no result".to_owned()),
        },
    }
}

pub const NO_PAGE_ID: &'static str = "browser_page_id cannot be empty";

/// What looking at a page through a driver comes to, given the outcome of evaluating
/// the expression that looks.
pub fn verify_chatgpt_page(page: &str, reply: &Result<Json, String>) -> (r: Result<
    ChatgptPageProbe,
    String,
>)
    ensures
        match r {
            Ok(p) => {
                &&& trimmed(page@).len() > 0
                &&& reply is Ok
                &&& page_fault(reply->Ok_0.model()) is None
                &&& text_of(reply->Ok_0.model().field("url"@)) == Some(p.url@)
                &&& p.title@ == text_or_empty(text_of(reply->Ok_0.model().field("title"@)))
                &&& p.generating == (bool_of(reply->Ok_0.model().field("generating"@)) == Some(
                    true,
                ))
            },
            Err(e) => if trimmed(page@).len() == 0 {
                e@ == NO_PAGE_ID@
            } else {
                match *reply {
                    Err(m) => e@ == m@,
                    Ok(v) => page_fault(v.model()) is Some && e@ == page_fault_text(
                        page_fault(v.model())->0,
                        text_or_empty(text_of(v.model().field("url"@))),
                    ),
                }
            },
        },
{
    if is_blank(page) {
        return Err(NO_PAGE_ID.to_owned());
    }
    match reply {
        Err(m) => Err(m.clone()),
        Ok(v) => validate_chatgpt_page_probe(v),
    }
}

/// A text, or the empty text in place of none.
pub open spec fn text_or_empty(o: Option<Seq<char>>) -> Seq<char> {
    match o {
        Some(t) => t,
        None => Seq::empty(),
    }
}

/// What has come of the steps of opening a tab through a driver.
#[derive(Debug)]
pub struct TabSeen {
    /// The outcome of the driver's command.
    pub reply: Option<Result<ShownReply, String>>,
    /// Whether Orca's command is installed.
    pub orca: Option<bool>,
    /// The outcome of Orca's command in place of the driver's.
    pub orca_reply: Option<Result<ShownReply, String>>,
    /// Whether the prompt box showed.
    pub ready: Option<Result<(), String>>,
    /// The tab was closed again, or could not be.
    pub closed: bool,
}

impl TabSeen {
    /// Nothing has been done yet.
    pub fn nothing() -> (r: Self)
        ensures
            r == (TabSeen { reply: None, orca: None, orca_reply: None, ready: None, closed: false }),
    {
        TabSeen { reply: None, orca: None, orca_reply: None, ready: None, closed: false }
    }
}

/// What opening a tab through a driver does next.
#[derive(Debug)]
pub enum TabStep {
    /// Run the driver's command with these arguments.
    Run(Vec<String>),
    /// Find out whether Orca's command is installed.
    LookForOrca,
    /// Run Orca's command with these arguments.
    RunOrca(Vec<String>),
    /// Wait for the prompt box of this tab.
    AwaitPrompt(String),
    /// Close this tab again.
    Close(String),
    Opened(String),
    Failed(String),
}

pub enum TabModel {
    Run(Seq<Seq<char>>),
    LookForOrca,
    RunOrca(Seq<Seq<char>>),
    AwaitPrompt(Seq<char>),
    Close(Seq<char>),
    Opened(Seq<char>),
    Failed(Seq<char>),
}

impl View for TabStep {
    type V = TabModel;

    open spec fn view(&self) -> TabModel {
        match *self {
            TabStep::Run(v) => TabModel::Run(texts(v@)),
            TabStep::LookForOrca => TabModel::LookForOrca,
            TabStep::RunOrca(v) => TabModel::RunOrca(texts(v@)),
            TabStep::AwaitPrompt(s) => TabModel::AwaitPrompt(s@),
            TabStep::Close(s) => TabModel::Close(s@),
            TabStep::Opened(s) => TabModel::Opened(s@),
            TabStep::Failed(s) => TabModel::Failed(s@),
        }
    }
}

/// The session that a driver opens for a tab.
pub open spec fn session_of(fresh: Seq<char>) -> Seq<char> {
    "chatgpt-"@ + fresh
}

/// What follows once a tab is there: it is opened when its prompt box shows, and closed
/// again when it does not.
pub open spec fn tab_there(page: Seq<char>, seen: TabSeen) -> TabModel {
    match seen.ready {
        None => TabModel::AwaitPrompt(page),
        Some(Ok(_)) => TabModel::Opened(page),
        Some(Err(e)) => if seen.closed {
            TabModel::Failed(e@)
        } else {
            TabModel::Close(page)
        },
    }
}

/// What follows Orca's command.
pub open spec fn orca_tab(reply: Result<ShownReply, String>, seen: TabSeen) -> TabModel {
    match reply {
        Err(e) => TabModel::Failed(e@),
        Ok(v) => match text_of(v.value.model().field2("result"@, "browserPageId"@)) {
            Some(page) => tab_there(page, seen),
            None => TabModel::Failed("orca tab create returned no browserPageId: "@ + v.shown@),
        },
    }
}

/// What opening a tab through a driver does next. `fresh` is a random id.
///
/// Where Maho's command fails, Orca's is run in its place if it is installed. The agent
/// browser and Aside are not waited for.
pub open spec fn tab_next(
    kind: BrowserDriverKind,
    worktree: Seq<char>,
    fresh: Seq<char>,
    seen: TabSeen,
) -> TabModel {
    match seen.reply {
        None => TabModel::Run(tab_args(kind, worktree, session_of(fresh))),
        Some(reply) => match kind {
            BrowserDriverKind::Orca => orca_tab(reply, seen),
            BrowserDriverKind::Cmux => match reply {
                Err(e) => TabModel::Failed(e@),
                Ok(v) => match surface_ref(v.value.model()) {
                    Some(page) => tab_there(page, seen),
                    None => TabModel::Failed(
                        "cmux browser surface creation returned no surface ref: "@ + v.shown@,
                    ),
                },
            },
            BrowserDriverKind::Maho => match reply {
                Ok(v) => match maho_tab(v.value.model()) {
                    Some(page) => tab_there(page, seen),
                    None => tab_there(fresh, seen),
                },
                Err(_) => match seen.orca {
                    None => TabModel::LookForOrca,
                    Some(false) => tab_there(fresh, seen),
                    Some(true) => match seen.orca_reply {
                        None => TabModel::RunOrca(
                            tab_args(BrowserDriverKind::Orca, worktree, session_of(fresh)),
                        ),
                        Some(r) => orca_tab(r, seen),
                    },
                },
            },
            BrowserDriverKind::AgentBrowser => match reply {
                Err(e) => TabModel::Failed(e@),
                Ok(_) => TabModel::Opened(session_of(fresh)),
            },
            _ => TabModel::Opened(session_of(fresh)),
        },
    }
}

fn tab_there_step(page: String, seen: &TabSeen) -> (r: TabStep)
    ensures
        r@ == tab_there(page@, *seen),
{
    match &seen.ready {
        None => TabStep::AwaitPrompt(page),
        Some(Ok(_)) => TabStep::Opened(page),
        Some(Err(e)) => if seen.closed {
            TabStep::Failed(e.clone())
        } else {
            TabStep::Close(page)
        },
    }
}

fn orca_tab_step(reply: &Result<ShownReply, String>, seen: &TabSeen) -> (r: TabStep)
    ensures
        r@ == orca_tab(*reply, *seen),
{
    match reply {
        Err(e) => TabStep::Failed(e.clone()),
        Ok(v) => match orca_page_id(&v.value) {
            Some(page) => tab_there_step(page, seen),
            None => TabStep::Failed(
                "orca tab create returned no browserPageId: ".to_owned().concat(v.shown.as_str()),
            ),
        },
    }
}

fn maho_tab_step(
    worktree: &str,
    fresh: &str,
    reply: &Result<ShownReply, String>,
    seen: &TabSeen,
) -> (r: TabStep)
    requires
        seen.reply == Some(*reply),
    ensures
        r@ == tab_next(BrowserDriverKind::Maho, worktree@, fresh@, *seen),
{
    match reply {
        Ok(v) => match maho_tab_id(&v.value) {
            Some(page) => tab_there_step(page, seen),
            None => tab_there_step(fresh.to_owned(), seen),
        },
        Err(_) => match seen.orca {
            None => TabStep::LookForOrca,
            Some(false) => tab_there_step(fresh.to_owned(), seen),
            Some(true) => match &seen.orca_reply {
                None => {
                    let session = "chatgpt-".to_owned().concat(fresh);
                    TabStep::RunOrca(
                        create_tab_args(BrowserDriverKind::Orca, worktree, session.as_str()),
                    )
                },
                Some(r) => orca_tab_step(r, seen),
            },
        },
    }
}

/// What opening a tab through a driver does next. `fresh` is a random id.
pub fn create_chatgpt_tab(kind: BrowserDriverKind, worktree: &str, fresh: &str, seen: &TabSeen) -> (r:
    TabStep)
    ensures
        r@ == tab_next(kind, worktree@, fresh@, *seen),
{
    let session = "chatgpt-".to_owned().concat(fresh);
    let reply = match &seen.reply {
        None => {
            return TabStep::Run(create_tab_args(kind, worktree, session.as_str()));
        },
        Some(reply) => reply,
    };
    match kind {
        BrowserDriverKind::Orca => orca_tab_step(reply, seen),
        BrowserDriverKind::Cmux => match reply {
            Err(e) => TabStep::Failed(e.clone()),
            Ok(v) => match cmux_surface_ref(v) {
                Ok(page) => tab_there_step(page, seen),
                Err(e) => TabStep::Failed(e),
            },
        },
        BrowserDriverKind::Maho => maho_tab_step(worktree, fresh, reply, seen),
        BrowserDriverKind::AgentBrowser => match reply {
            Err(e) => TabStep::Failed(e.clone()),
            Ok(_) => TabStep::Opened(session),
        },
        _ => TabStep::Opened(session),
    }
}

/// A tab that was there and whose prompt box did not show is closed before the opening
/// fails, and it is never handed out.
pub proof fn lemma_unready_tab_is_closed(
    kind: BrowserDriverKind,
    worktree: Seq<char>,
    fresh: Seq<char>,
    before: TabSeen,
    after: TabSeen,
)
    requires
        tab_next(kind, worktree, fresh, before) is AwaitPrompt,
        after == (TabSeen { ready: after.ready, closed: after.closed, ..before }),
        after.ready matches Some(Err(_)),
    ensures
        !after.closed ==> tab_next(kind, worktree, fresh, after) == TabModel::Close(
            tab_next(kind, worktree, fresh, before)->AwaitPrompt_0,
        ),
        after.closed ==> tab_next(kind, worktree, fresh, after) is Failed,
{
}

} // verus!
