//! What holds of the drivers of a browser: which one runs, with which arguments, and what becomes of
//! its replies.
use crate::json::{lemma_held_value_is_read, lemma_lacking_value_is_not_read,
    lemma_read_value_is_held, object_holds, object_lacks, text_of, Json, JsonModel};
use crate::laws::delegation::went_well;
use crate::laws::pages::says;
use crate::orca::{best_terminal, close_args, close_outcome, cmux_workspace, detected, eval_args,
    eval_place, field_text, first_found, handles, identifier, looks_score, maho_tab, mark_from,
    output_of, page_fault, resolve_next, says_ok, scores_of, send_next, surface_ref, tab_args,
    tab_next, weigh_from, BrowserDriverKind, PageProbeFault, SendModel, SendSeen, ShownReply,
    TabModel, TabSeen, TerminalModel, TerminalSurvey};
use crate::outside::parsed_url;
use crate::text::{contains_text, decimal, has_prefix, trimmed, unicode_lower};
use vstd::prelude::*;

verus! {

/// A driver that is set runs, with the command that is set or the one of its name; where none is set
/// the first whose command is there does, in the order cmux, Orca, Maho, agent browser, Aside; and
/// where none is there, Maho does.
pub proof fn lemma_driver_that_runs(
    driver: Option<BrowserDriverKind>,
    binary: Option<Seq<char>>,
    helper: Option<Seq<char>>,
    found: Seq<bool>,
)
    requires
        found.len() == 5,
    ensures
        ({
            let r = detected(driver, binary, helper, found);
            &&& driver is Some ==> r.0 == driver->0
            &&& driver is Some && binary is Some ==> r.1 == binary->0
            &&& driver == Some(BrowserDriverKind::Maho) && binary is None && helper is Some ==> r.1
                == helper->0
            &&& driver == Some(BrowserDriverKind::Orca) && binary is None ==> r.1 == "orca"@
            &&& driver == Some(BrowserDriverKind::Cmux) && binary is None ==> r.1 == "cmux"@
            &&& driver == Some(BrowserDriverKind::AgentBrowser) && binary is None ==> r.1
                == "agent-browser"@
            &&& driver is None && found[0] ==> r == (BrowserDriverKind::Cmux, "cmux"@)
            &&& driver is None && !found[0] && found[1] ==> r == (BrowserDriverKind::Orca, "orca"@)
            &&& driver is None && !found[0] && !found[1] && found[2] ==> r == (
                BrowserDriverKind::Maho,
                "maho"@,
            )
            &&& driver is None && !found[0] && !found[1] && !found[2] && found[3] ==> r == (
                BrowserDriverKind::AgentBrowser,
                "agent-browser"@,
            )
            &&& driver is None && !found[0] && !found[1] && !found[2] && !found[3] && found[4] ==> r
                == (BrowserDriverKind::Aside, "aside"@)
            &&& driver is None && !found[0] && !found[1] && !found[2] && !found[3] && !found[4] ==> {
                &&& r.0 is Maho
                &&& helper is Some ==> r.1 == helper->0
                &&& helper is None ==> r.1 == "maho"@
            }
        }),
{
    reveal_with_fuel(first_found, 6);
    assert(found[0] || found[1] || found[2] || found[3] || found[4] || !(exists|i: int|
        0 <= i < 5 && #[trigger] found[i]));
}

/// Two arguments stand next to each other.
pub open spec fn stand_together(args: Seq<Seq<char>>, first: Seq<char>, second: Seq<char>) -> bool {
    exists|i: int| 0 <= i && i + 1 < args.len() && #[trigger] args[i] == first && args[i + 1] == second
}

/// Every driver opens the ChatGPT site, Orca in the work tree that is set, cmux in the workspace that
/// is set unless that is the active one, and the agent browser in a session of its own.
pub proof fn lemma_tabs_are_opened_on_the_site(
    kind: BrowserDriverKind,
    worktree: Seq<char>,
    session: Seq<char>,
)
    ensures
        ({
            let args = tab_args(kind, worktree, session);
            &&& args.contains("https://chatgpt.com"@)
            &&& args.contains("--json"@)
            &&& kind is Orca ==> stand_together(args, "--worktree"@, worktree)
            &&& kind is Cmux && trimmed(worktree) != "active"@ ==> stand_together(
                args,
                "--workspace"@,
                worktree,
            )
            &&& kind is AgentBrowser ==> stand_together(args, "--session"@, session)
        }),
{
    let args = tab_args(kind, worktree, session);
    match kind {
        BrowserDriverKind::Orca => {
            assert(args[3] == "https://chatgpt.com"@);
            assert(args[4] == "--worktree"@ && args[5] == worktree);
            assert(args[6] == "--json"@);
        },
        BrowserDriverKind::Cmux => {
            assert(args[5] == "https://chatgpt.com"@);
            assert(args[0] == "--json"@);
            if trimmed(worktree) != "active"@ {
                assert(args[6] == "--workspace"@ && args[7] == worktree);
            }
        },
        BrowserDriverKind::AgentBrowser => {
            assert(args[0] == "--session"@ && args[1] == session);
            assert(args[3] == "https://chatgpt.com"@);
            assert(args[4] == "--json"@);
        },
        _ => {
            assert(args[3] == "https://chatgpt.com"@);
            assert(args[4] == "--json"@);
        },
    }
}

/// Every driver closes the page that it was told, and no two pages are closed by one command.
pub proof fn lemma_page_that_is_closed(
    kind: BrowserDriverKind,
    worktree: Seq<char>,
    page: Seq<char>,
    other: Seq<char>,
)
    ensures
        ({
            let args = close_args(kind, worktree, page);
            &&& args.contains(page)
            &&& kind is Orca ==> stand_together(args, "--page"@, page)
            &&& kind is Cmux ==> stand_together(args, "--surface"@, page)
            &&& kind is AgentBrowser ==> stand_together(args, "--session"@, page)
            &&& page != other ==> args != close_args(kind, worktree, other)
        }),
{
    let args = close_args(kind, worktree, page);
    let others = close_args(kind, worktree, other);
    match kind {
        BrowserDriverKind::Orca => {
            assert(args[2] == "--page"@ && args[3] == page && others[3] == other);
        },
        BrowserDriverKind::Cmux => {
            let n: int = cmux_workspace(worktree).len() as int;
            assert(args[2 + n] == "--surface"@ && args[3 + n] == page && others[3 + n] == other);
        },
        BrowserDriverKind::AgentBrowser => {
            assert(args[0] == "--session"@ && args[1] == page && others[1] == other);
        },
        _ => {
            assert(args[2] == page && others[2] == other);
        },
    }
}

/// Every driver evaluates the expression that it was given, whole, in the page that it was told.
pub proof fn lemma_expression_that_is_evaluated(
    kind: BrowserDriverKind,
    page: Seq<char>,
    expression: Seq<char>,
)
    ensures
        ({
            let args = eval_args(kind, page, expression);
            &&& args.contains(page)
            &&& args.contains(expression)
            &&& kind is AgentBrowser ==> stand_together(args, "--session"@, page) && stand_together(
                args,
                "eval"@,
                expression,
            )
            &&& kind is Cmux ==> stand_together(args, "browser"@, page) && stand_together(
                args,
                "eval"@,
                expression,
            )
            &&& kind !is AgentBrowser && kind !is Cmux ==> stand_together(args, "--page"@, page)
                && stand_together(args, "--expression"@, expression)
        }),
{
    let args = eval_args(kind, page, expression);
    match kind {
        BrowserDriverKind::AgentBrowser => {
            assert(args[0] == "--session"@ && args[1] == page);
            assert(args[2] == "eval"@ && args[3] == expression);
        },
        BrowserDriverKind::Cmux => {
            assert(args[1] == "browser"@ && args[2] == page);
            assert(args[3] == "eval"@ && args[4] == expression);
        },
        _ => {
            assert(args[1] == "--page"@ && args[2] == page);
            assert(args[3] == "--expression"@ && args[4] == expression);
        },
    }
}

/// A command went well exactly where its reply says so.
pub proof fn lemma_reply_says_that_it_went_well(reply: JsonModel)
    ensures
        says_ok(reply) <==> says(reply, "ok"@),
{
    lemma_read_value_is_held(reply, "ok"@);
    if says(reply, "ok"@) {
        lemma_held_value_is_read(reply, "ok"@, JsonModel::Bool(true));
    }
}

/// A tab goes by a text or a number, as it is written.
pub proof fn lemma_names_of_tabs(t: Seq<char>, n: u64, m: i64)
    ensures
        identifier(JsonModel::Text(t)) == Some(t),
        identifier(JsonModel::Unsigned(n)) == Some(decimal(n as nat)),
        m < 0 ==> identifier(JsonModel::Negative(m)) == Some(seq!['-'] + decimal((-m) as nat)),
        identifier(JsonModel::Null) is None,
        identifier(JsonModel::Bool(true)) is None,
{
}

/// The tab in a reply of Maho is looked for at its full place, and then at two others.
pub proof fn lemma_tab_of_maho(reply: JsonModel, t: Seq<char>)
    ensures
        reply.field3("result"@, "tab"@, "id"@) == Some(JsonModel::Text(t)) ==> maho_tab(reply) == Some(
            t,
        ),
        reply.field3("result"@, "tab"@, "id"@) is None && reply.field2("result"@, "id"@) == Some(
            JsonModel::Text(t),
        ) ==> maho_tab(reply) == Some(t),
        reply.field3("result"@, "tab"@, "id"@) is None && reply.field2("result"@, "id"@) is None
            && reply.field2("result"@, "tab_id"@) == Some(JsonModel::Text(t)) ==> maho_tab(reply)
            == Some(t),
        object_lacks(reply, "result"@) ==> maho_tab(reply) is None,
{
    if object_lacks(reply, "result"@) {
        lemma_lacking_value_is_not_read(reply, "result"@);
    }
}

/// The surface in a reply of cmux is the first of four places that is there, and is one only where it
/// goes by the name of a surface.
pub proof fn lemma_surface_of_cmux(reply: JsonModel, s: Seq<char>)
    ensures
        reply.field2("surface"@, "ref"@) == Some(JsonModel::Text(s)) ==> surface_ref(reply) == (
        if has_prefix(s, "surface:"@) {
            Some(s)
        } else {
            None
        }),
        reply.field2("surface"@, "ref"@) is None && reply.field3("result"@, "surface"@, "ref"@)
            == Some(JsonModel::Text(s)) && has_prefix(s, "surface:"@) ==> surface_ref(reply) == Some(s),
        surface_ref(reply) matches Some(t) ==> has_prefix(t, "surface:"@),
{
}

/// The value of an evaluation is where the driver puts it.
pub proof fn lemma_value_of_an_evaluation(reply: JsonModel, v: JsonModel)
    ensures
        reply.field2("result"@, "result"@) == Some(v) ==> eval_place(BrowserDriverKind::Orca, reply)
            == Some(v),
        reply.field2("data"@, "result"@) == Some(v) ==> eval_place(
            BrowserDriverKind::AgentBrowser,
            reply,
        ) == Some(v),
        object_holds(reply, "result"@, v) ==> eval_place(BrowserDriverKind::Cmux, reply) == Some(v),
        object_lacks(reply, "result"@) && object_holds(reply, "value"@, v) ==> eval_place(
            BrowserDriverKind::Cmux,
            reply,
        ) == Some(v),
{
    if object_holds(reply, "result"@, v) {
        lemma_held_value_is_read(reply, "result"@, v);
    }
    if object_lacks(reply, "result"@) {
        lemma_lacking_value_is_not_read(reply, "result"@);
    }
    if object_holds(reply, "value"@, v) {
        lemma_held_value_is_read(reply, "value"@, v);
    }
}

/// A page is accepted exactly where it is on the ChatGPT site, over a safe connection, and is ready or
/// busy.
pub proof fn lemma_pages_that_are_accepted(v: JsonModel, url: Seq<char>)
    ensures
        object_holds(v, "url"@, JsonModel::Text(url)) ==> (page_fault(v) is None <==> {
            &&& parsed_url(url) is Ok
            &&& parsed_url(url)->Ok_0.scheme == "https"@
            &&& parsed_url(url)->Ok_0.host == Some("chatgpt.com"@)
            &&& says(v, "ready"@) || says(v, "generating"@)
        }),
        object_lacks(v, "url"@) ==> page_fault(v) == Some(PageProbeFault::NoUrl),
{
    if object_holds(v, "url"@, JsonModel::Text(url)) {
        lemma_held_value_is_read(v, "url"@, JsonModel::Text(url));
    }
    if object_lacks(v, "url"@) {
        lemma_lacking_value_is_not_read(v, "url"@);
    }
    lemma_read_value_is_held(v, "ready"@);
    lemma_read_value_is_held(v, "generating"@);
    if says(v, "ready"@) {
        lemma_held_value_is_read(v, "ready"@, JsonModel::Bool(true));
    }
    if says(v, "generating"@) {
        lemma_held_value_is_read(v, "generating"@, JsonModel::Bool(true));
    }
}

/// The terminals of a list are those with a handle, each with its title, in their order.
pub proof fn lemma_terminals_of_a_list(list: Seq<JsonModel>, last: JsonModel, handle: Seq<char>)
    ensures
        handles(Seq::empty()) == Seq::<(Seq<char>, Seq<char>)>::empty(),
        (object_holds(last, "handle"@, JsonModel::Text(handle)) && handle.len() > 0) ==> handles(
            list.push(last),
        ) == handles(list).push((handle, field_text(last, "title"@))),
        object_lacks(last, "handle"@) ==> handles(list.push(last)) == handles(list),
        forall|t: Seq<char>| #[trigger]
            object_holds(last, "title"@, JsonModel::Text(t)) ==> field_text(last, "title"@) == t,
{
    assert(list.push(last).drop_last() =~= list);
    if object_holds(last, "handle"@, JsonModel::Text(handle)) {
        lemma_held_value_is_read(last, "handle"@, JsonModel::Text(handle));
    }
    if object_lacks(last, "handle"@) {
        lemma_lacking_value_is_not_read(last, "handle"@);
        reveal_strlit("");
    }
    assert forall|t: Seq<char>| #[trigger]
        object_holds(last, "title"@, JsonModel::Text(t)) implies text_of(last.field("title"@)) == Some(
        t,
    ) by {
        lemma_held_value_is_read(last, "title"@, JsonModel::Text(t));
    }
}

/// A terminal looks like the orchestrator's by its title and by what it shows: the bridge counts most,
/// its tools next, its title least, and they add up.
pub proof fn lemma_looks_of_a_terminal(title: Seq<char>, output: Seq<char>)
    ensures
        ({
            let named = contains_text(unicode_lower(title), "omo"@) || contains_text(
                unicode_lower(title),
                "opencode"@,
            );
            let bridge = contains_text(output, "[GPT2OMO"@) || contains_text(output, "gpt2omo"@);
            let tools = contains_text(output, "task_state"@) || contains_text(
                output,
                "completion_check"@,
            );
            let score = looks_score(title, output);
            &&& !named && !bridge && !tools ==> score == 0
            &&& named && !bridge && !tools ==> score == 50
            &&& !named && !bridge && tools ==> score == 80
            &&& !named && bridge && !tools ==> score == 100
            &&& named && !bridge && tools ==> score == 130
            &&& named && bridge && !tools ==> score == 150
            &&& !named && bridge && tools ==> score == 180
            &&& named && bridge && tools ==> score == 230
        }),
{
}

proof fn lemma_scores(
    list: Seq<(Seq<char>, Seq<char>)>,
    outputs: Seq<Result<Json, String>>,
    n: int,
    i: int,
)
    requires
        0 <= i < n,
    ensures
        scores_of(list, outputs, n).len() == n,
        scores_of(list, outputs, n)[i] == looks_score(
            list[i].1,
            output_of(outputs[i]->Ok_0.model()),
        ),
    decreases n,
{
    reveal_with_fuel(scores_of, 2);
    if n > 1 {
        if i < n - 1 {
            lemma_scores(list, outputs, n - 1, i);
        } else {
            lemma_scores(list, outputs, n - 1, 0);
        }
    }
}

/// Once every terminal was read, the one is taken that looks most like the orchestrator's.
pub proof fn lemma_likeliest_terminal_is_taken(
    worktree: Seq<char>,
    list: Seq<(Seq<char>, Seq<char>)>,
    outputs: Seq<Result<Json, String>>,
    k: int,
)
    requires
        0 <= k <= list.len(),
        outputs.len() == list.len(),
        list.len() > 0,
        forall|i: int| k <= i < outputs.len() ==> (#[trigger] outputs[i]) is Ok,
    ensures
        ({
            let step = weigh_from(worktree, list, outputs, k);
            &&& step is Found
            &&& exists|b: int|
                {
                    &&& 0 <= b < list.len()
                    &&& step == TerminalModel::Found(list[b].0)
                    &&& forall|i: int|
                        0 <= i < list.len() ==> looks_score(
                            (#[trigger] list[i]).1,
                            output_of(outputs[i]->Ok_0.model()),
                        ) <= looks_score(list[b].1, output_of(outputs[b]->Ok_0.model()))
                }
        }),
    decreases list.len() - k,
{
    if k < list.len() {
        assert(outputs[k] is Ok);
        lemma_likeliest_terminal_is_taken(worktree, list, outputs, k + 1);
    } else {
        let n = list.len() as int;
        let scores = scores_of(list, outputs, n);
        lemma_scores(list, outputs, n, 0);
        crate::orca::lemma_best_terminal(scores);
        let b = best_terminal(scores);
        lemma_scores(list, outputs, n, b);
        assert forall|i: int| 0 <= i < list.len() implies looks_score(
            (#[trigger] list[i]).1,
            output_of(outputs[i]->Ok_0.model()),
        ) <= looks_score(list[b].1, output_of(outputs[b]->Ok_0.model())) by {
            lemma_scores(list, outputs, n, i);
            assert(scores[i] <= scores[b]);
        }
    }
}

/// The terminal that shows a mark is the first that shows it; the terminals before it were read and do
/// not.
pub proof fn lemma_marked_terminal_is_found(
    marker: Seq<char>,
    list: Seq<(Seq<char>, Seq<char>)>,
    outputs: Seq<Result<Json, String>>,
    k: int,
    i: int,
)
    requires
        0 <= k <= i < list.len(),
        i < outputs.len(),
        outputs[i] is Ok,
        contains_text(output_of(outputs[i]->Ok_0.model()), marker),
        forall|j: int|
            k <= j < i ==> (#[trigger] outputs[j]) is Ok && !contains_text(
                output_of(outputs[j]->Ok_0.model()),
                marker,
            ),
    ensures
        mark_from(marker, list, outputs, k) == Some(TerminalModel::Found(list[i].0)),
    decreases i - k,
{
    if k < i {
        assert(outputs[k] is Ok);
        lemma_marked_terminal_is_found(marker, list, outputs, k + 1, i);
    }
}

/// The terminal that is set is used where it is there, after a look; else the orchestrator's is looked
/// for among those that are listed.
pub proof fn lemma_terminal_that_is_used(
    terminal: Option<Seq<char>>,
    worktree: Seq<char>,
    shown: Option<bool>,
    survey: TerminalSurvey,
)
    ensures
        ({
            let step = resolve_next(terminal, worktree, shown, survey);
            &&& terminal is Some && shown is None ==> step == TerminalModel::Show(terminal->0)
            &&& terminal is Some && shown == Some(true) ==> step == TerminalModel::Found(terminal->0)
            &&& (terminal is None || shown == Some(false)) && survey.listed is None ==> step is List
            &&& (terminal is None || shown == Some(false)) && survey.listed is Some
                && survey.listed->0 is Err ==> step is Failed
        }),
{
}

/// A prompt is sent in three steps, each after the one before it went well: the page comes to rest, the
/// box is filled, the button is pressed. It is sent exactly where all three went well.
pub proof fn lemma_prompt_is_sent_in_steps(
    prompt: Seq<char>,
    insert: Seq<char>,
    press: Seq<char>,
    seen: SendSeen,
)
    requires
        trimmed(prompt).len() > 0,
    ensures
        ({
            let step = send_next(prompt, insert, press, seen);
            let rested = went_well(seen.idle);
            let filled = rested && seen.inserted is Some && seen.inserted->0 is Ok && says(
                seen.inserted->0->Ok_0.value.model(),
                "ok"@,
            );
            &&& step is AwaitIdle <==> seen.idle is None
            &&& step is Insert <==> rested && seen.inserted is None
            &&& step matches SendModel::Insert(e) ==> e == insert
            &&& step is Press <==> filled && seen.pressed is None
            &&& step matches SendModel::Press(e) ==> e == press
            &&& step is Sent <==> filled && seen.pressed is Some && seen.pressed->0 is Ok && says(
                seen.pressed->0->Ok_0.value.model(),
                "ok"@,
            )
        }),
{
    if seen.inserted is Some && seen.inserted->0 is Ok {
        lemma_reply_says_that_it_went_well(seen.inserted->0->Ok_0.value.model());
    }
    if seen.pressed is Some && seen.pressed->0 is Ok {
        lemma_reply_says_that_it_went_well(seen.pressed->0->Ok_0.value.model());
    }
}

/// A page is closed through Orca where its reply says so, through cmux where its command did not fail,
/// and through the others in any case.
pub proof fn lemma_when_a_page_is_closed(kind: BrowserDriverKind, reply: Result<ShownReply, String>)
    ensures
        close_outcome(kind, reply) is Ok <==> {
            &&& kind is Orca ==> reply is Ok && says(reply->Ok_0.value.model(), "ok"@)
            &&& kind is Cmux ==> reply is Ok
        },
{
    if reply is Ok {
        lemma_reply_says_that_it_went_well(reply->Ok_0.value.model());
    }
}

/// A tab is opened by its driver's own command; then the page that the reply names is awaited. The
/// agent browser and Aside answer for a session of their own.
pub proof fn lemma_tab_that_is_opened(
    kind: BrowserDriverKind,
    worktree: Seq<char>,
    fresh: Seq<char>,
    seen: TabSeen,
    page: Seq<char>,
)
    ensures
        ({
            let step = tab_next(kind, worktree, fresh, seen);
            let replied = seen.reply is Some && seen.reply->0 is Ok;
            let reply = seen.reply->0->Ok_0.value.model();
            &&& seen.reply is None ==> step == TabModel::Run(
                tab_args(kind, worktree, "chatgpt-"@ + fresh),
            )
            &&& kind is Orca && replied && reply.field2("result"@, "browserPageId"@) == Some(
                JsonModel::Text(page),
            ) ==> {
                &&& seen.ready is None ==> step == TabModel::AwaitPrompt(page)
                &&& went_well(seen.ready) ==> step == TabModel::Opened(page)
                &&& (seen.ready matches Some(r) && r is Err) && !seen.closed ==> step
                    == TabModel::Close(page)
                &&& (seen.ready matches Some(r) && r is Err) && seen.closed ==> step is Failed
            }
            &&& kind is Cmux && replied && surface_ref(reply) == Some(page) ==> {
                &&& seen.ready is None ==> step == TabModel::AwaitPrompt(page)
                &&& went_well(seen.ready) ==> step == TabModel::Opened(page)
            }
            &&& kind is Maho && replied && maho_tab(reply) == Some(page) && went_well(seen.ready)
                ==> step == TabModel::Opened(page)
            &&& kind is AgentBrowser && replied ==> step == TabModel::Opened("chatgpt-"@ + fresh)
            &&& (kind is Orca || kind is Cmux || kind is AgentBrowser) && seen.reply is Some
                && seen.reply->0 is Err ==> step is Failed
            &&& kind is Maho && seen.reply is Some && seen.reply->0 is Err && seen.orca is None
                ==> step is LookForOrca
            &&& kind is Maho && seen.reply is Some && seen.reply->0 is Err && seen.orca == Some(true)
                && seen.orca_reply is None ==> step == TabModel::RunOrca(
                tab_args(BrowserDriverKind::Orca, worktree, "chatgpt-"@ + fresh),
            )
        }),
{
}

} // verus!
