//! What holds of words, paths and names: where one stands in another, what is trimmed off, which names a
//! driver or a way into a workspace may have.
use crate::account_state::{is_account_id, AccountStateStore};
use crate::accounts::{account_position, AccountsConfig};
use crate::delegate::claims::label_text;
use crate::delegate::input::{prepared, tasks_prepared, BatchTask, PreparedTask};
use crate::install::{coordinator_text, shell_quoted, skill_text};
use crate::json::{array_of, Json};
use crate::laws::texts::lemma_part_stands;
use crate::orca::{driver_of, listed_handles, marker_next, uncached_next, unknown_driver,
    BrowserDriverKind, TerminalModel, TerminalSurvey};
use crate::outside::{hex_digit, json_quoted, uuid_text};
use crate::paths::{components, is_absolute, is_within, joined_path, lemma_components_of_joined_path,
    same_path};
use crate::router::{is_account_error, RouterError};
use crate::security::path::{component_denial, first_denial, first_resolved_denial, is_secret_name,
    name_denial, sanitize_fault, sanitized};
use crate::task_state::{terminal_word, DelegationTerminalState};
use crate::text::{ascii_lower, contains_text, has_prefix, has_suffix, is_alnum, is_space, joined,
    occurs_at, trimmed, trimmed_back, trimmed_front};
use vstd::prelude::*;

verus! {

/// A text begins with what it is a continuation of, ends with what it leads to, and holds what it is
/// put round.
pub proof fn lemma_beginnings_ends_and_parts(s: Seq<char>, p: Seq<char>)
    ensures
        has_prefix(s, p) <==> exists|rest: Seq<char>| s == #[trigger] (p + rest),
        has_suffix(s, p) <==> exists|front: Seq<char>| s == #[trigger] (front + p),
        contains_text(s, p) <==> exists|a: Seq<char>, b: Seq<char>| s == #[trigger] (a + p + b),
{
    if has_prefix(s, p) {
        assert(s =~= p + s.subrange(p.len() as int, s.len() as int));
    }
    if exists|rest: Seq<char>| s == #[trigger] (p + rest) {
        let rest = choose|rest: Seq<char>| s == #[trigger] (p + rest);
        assert((p + rest).subrange(0, p.len() as int) =~= p);
    }
    if has_suffix(s, p) {
        assert(s =~= s.subrange(0, s.len() - p.len()) + p);
    }
    if exists|front: Seq<char>| s == #[trigger] (front + p) {
        let front = choose|front: Seq<char>| s == #[trigger] (front + p);
        assert((front + p).subrange(front.len() as int, s.len() as int) =~= p);
    }
    if contains_text(s, p) {
        let i = choose|i: int| #[trigger] occurs_at(s, p, i);
        let a = s.subrange(0, i);
        let b = s.subrange(i + p.len(), s.len() as int);
        assert(s =~= a + p + b);
    }
    if exists|a: Seq<char>, b: Seq<char>| s == #[trigger] (a + p + b) {
        let (a, b) = choose|a: Seq<char>, b: Seq<char>| s == #[trigger] (a + p + b);
        lemma_part_stands(a, p, b);
    }
}

/// Blanks, tabs and line ends are space; letters, digits and marks are not.
pub proof fn lemma_what_space_is(c: char)
    ensures
        is_space(' ') && is_space('\t') && is_space('\n') && is_space('\r'),
        '!' <= c && c <= '~' ==> !is_space(c),
{
}

proof fn lemma_front_is_trimmed(s: Seq<char>)
    ensures
        trimmed_front(s).len() <= s.len(),
        s.subrange(s.len() - trimmed_front(s).len(), s.len() as int) == trimmed_front(s),
        forall|i: int| 0 <= i < s.len() - trimmed_front(s).len() ==> is_space(#[trigger] s[i]),
        trimmed_front(s).len() > 0 ==> !is_space(trimmed_front(s)[0]),
    decreases s.len(),
{
    if s.len() > 0 && is_space(s[0]) {
        let t = s.drop_first();
        lemma_front_is_trimmed(t);
        let n = trimmed_front(t).len();
        assert(s.subrange(s.len() - n, s.len() as int) =~= t.subrange(t.len() - n, t.len() as int));
        assert forall|i: int| 0 <= i < s.len() - n implies is_space(#[trigger] s[i]) by {
            if i > 0 {
                assert(t[i - 1] == s[i]);
            }
        }
    } else {
        assert(s.subrange(0, s.len() as int) =~= s);
    }
}

proof fn lemma_back_is_trimmed(s: Seq<char>)
    ensures
        trimmed_back(s).len() <= s.len(),
        s.subrange(0, trimmed_back(s).len() as int) == trimmed_back(s),
        forall|i: int| trimmed_back(s).len() <= i < s.len() ==> is_space(#[trigger] s[i]),
        trimmed_back(s).len() > 0 ==> !is_space(trimmed_back(s).last()),
    decreases s.len(),
{
    if s.len() > 0 && is_space(s.last()) {
        let t = s.drop_last();
        lemma_back_is_trimmed(t);
        let n = trimmed_back(t).len() as int;
        assert(s.subrange(0, n) =~= t.subrange(0, n));
        assert forall|i: int| n <= i < s.len() implies is_space(#[trigger] s[i]) by {
            if i < s.len() - 1 {
                assert(t[i] == s[i]);
            }
        }
    } else {
        assert(s.subrange(0, s.len() as int) =~= s);
    }
}

/// Trimming takes space off both ends, all of it, and nothing else.
pub proof fn lemma_trimming_takes_off_space(s: Seq<char>)
    ensures
        exists|a: Seq<char>, b: Seq<char>|
            {
                &&& s == #[trigger] (a + trimmed(s) + b)
                &&& forall|i: int| 0 <= i < a.len() ==> is_space(#[trigger] a[i])
                &&& forall|i: int| 0 <= i < b.len() ==> is_space(#[trigger] b[i])
            },
        trimmed(s).len() > 0 ==> !is_space(trimmed(s)[0]) && !is_space(trimmed(s).last()),
        (s.len() == 0 || (!is_space(s[0]) && !is_space(s.last()))) ==> trimmed(s) == s,
{
    let f = trimmed_front(s);
    lemma_front_is_trimmed(s);
    lemma_back_is_trimmed(f);
    let t = trimmed(s);
    let k = s.len() - f.len();
    let a = s.subrange(0, k);
    let b = f.subrange(t.len() as int, f.len() as int);
    assert(s =~= a + f);
    assert(f =~= t + b);
    assert(s =~= a + t + b);
    assert forall|i: int| 0 <= i < a.len() implies is_space(#[trigger] a[i]) by {
        assert(a[i] == s[i]);
    }
    assert forall|i: int| 0 <= i < b.len() implies is_space(#[trigger] b[i]) by {
        assert(b[i] == f[t.len() + i]);
    }
    if t.len() > 0 {
        assert(t[0] == f[0]);
    }
}

/// Lowering a text changes its capital letters to small ones, one for one, and nothing else.
pub proof fn lemma_lowering_changes_capitals(s: Seq<char>, i: int)
    requires
        0 <= i < s.len(),
    ensures
        ascii_lower(s).len() == s.len(),
        ('A' <= s[i] && s[i] <= 'Z') ==> ascii_lower(s)[i] as int == s[i] as int + 32,
        !('A' <= s[i] && s[i] <= 'Z') ==> ascii_lower(s)[i] == s[i],
        ascii_lower(ascii_lower(s)) == ascii_lower(s),
        is_alnum(s[i]) <==> ('0' <= s[i] && s[i] <= '9') || ('a' <= s[i] && s[i] <= 'z') || ('A' <= s[i]
            && s[i] <= 'Z'),
{
    assert(ascii_lower(ascii_lower(s)) =~= ascii_lower(s));
}

/// A path below another is that path and the way on from it; an absolute one stands for itself.
pub proof fn lemma_path_below_another(base: Seq<char>, rel: Seq<char>)
    ensures
        is_absolute(rel) ==> joined_path(base, rel) == rel,
        !is_absolute(rel) && base.len() > 0 ==> {
            &&& has_prefix(joined_path(base, rel), base)
            &&& has_suffix(joined_path(base, rel), rel)
            &&& is_within(joined_path(base, rel), base)
            &&& components(joined_path(base, rel)) == components(base) + components(rel)
            &&& joined_path(base, rel).len() <= base.len() + 1 + rel.len()
        },
        is_absolute(rel) <==> rel.len() > 0 && rel[0] == '/',
{
    if !is_absolute(rel) && base.len() > 0 {
        let j = joined_path(base, rel);
        lemma_components_of_joined_path(base, rel);
        let c = components(base) + components(rel);
        assert(c.subrange(0, components(base).len() as int) =~= components(base));
        assert(j.subrange(0, base.len() as int) =~= base);
        assert(j.subrange(j.len() - rel.len(), j.len() as int) =~= rel);
    }
}

/// A path is within itself and within whatever a path that it is within is within; two paths that are
/// within each other have the same parts.
pub proof fn lemma_paths_within_each_other(a: Seq<char>, b: Seq<char>, c: Seq<char>)
    ensures
        is_within(a, a),
        is_within(a, b) && is_within(b, c) ==> is_within(a, c),
        is_within(a, b) && is_within(b, a) ==> components(a) == components(b),
        is_within(a, b) ==> is_absolute(a) == is_absolute(b),
        same_path(a, a),
        same_path(a, b) ==> same_path(b, a) && is_within(a, b) && is_within(b, a),
        same_path(a, b) && same_path(b, c) ==> same_path(a, c),
{
    let x = components(a);
    let y = components(b);
    let z = components(c);
    assert(x.subrange(0, x.len() as int) =~= x);
    assert(y.subrange(0, y.len() as int) =~= y);
    if is_within(a, b) && is_within(b, c) {
        assert(x.subrange(0, z.len() as int) =~= y.subrange(0, z.len() as int)) by {
            assert forall|i: int| 0 <= i < z.len() implies x[i] == y[i] by {
                assert(x.subrange(0, y.len() as int)[i] == x[i]);
            }
        }
    }
}

/// A path is denied where one of its parts is, whichever it is, and else let through.
pub proof fn lemma_one_denied_part_denies_the_path(parts: Seq<Seq<char>>)
    ensures
        first_denial(parts) is None <==> forall|i: int|
            0 <= i < parts.len() ==> component_denial(#[trigger] parts[i]) is None,
        first_resolved_denial(parts) is None <==> forall|i: int|
            0 <= i < parts.len() ==> (#[trigger] parts[i] == ".."@ || component_denial(parts[i]) is None),
    decreases parts.len(),
{
    if parts.len() > 0 {
        let t = parts.drop_first();
        lemma_one_denied_part_denies_the_path(t);
        assert(forall|i: int| 0 <= i < t.len() ==> #[trigger] t[i] == parts[i + 1]);
        if first_denial(parts) is None {
            assert forall|i: int| 0 <= i < parts.len() implies component_denial(
                #[trigger] parts[i],
            ) is None by {
                if i > 0 {
                    assert(t[i - 1] == parts[i]);
                }
            }
        }
        if forall|i: int| 0 <= i < parts.len() ==> component_denial(#[trigger] parts[i]) is None {
            assert(component_denial(parts[0]) is None);
            assert forall|i: int| 0 <= i < t.len() implies component_denial(#[trigger] t[i]) is None by {
                assert(t[i] == parts[i + 1]);
            }
        }
        if first_resolved_denial(parts) is None {
            assert forall|i: int| 0 <= i < parts.len() implies (#[trigger] parts[i] == ".."@
                || component_denial(parts[i]) is None) by {
                if i > 0 {
                    assert(t[i - 1] == parts[i]);
                }
            }
        }
        if forall|i: int|
            0 <= i < parts.len() ==> (#[trigger] parts[i] == ".."@ || component_denial(
                parts[i],
            ) is None) {
            assert(parts[0] == ".."@ || component_denial(parts[0]) is None);
            assert forall|i: int| 0 <= i < t.len() implies (#[trigger] t[i] == ".."@ || component_denial(
                t[i],
            ) is None) by {
                assert(t[i] == parts[i + 1]);
            }
        }
    }
}

/// A way into a workspace is taken where it is relative, names something, and none of its parts is
/// denied; it never leads up. Why it is not taken is told.
pub proof fn lemma_ways_into_a_workspace(input: Seq<char>, i: int)
    ensures
        sanitized(input) is Some <==> {
            &&& !is_absolute(input)
            &&& components(input).len() > 0
            &&& forall|k: int|
                0 <= k < components(input).len() ==> component_denial(
                    #[trigger] components(input)[k],
                ) is None
        },
        (sanitized(input) is Some && 0 <= i < components(input).len()) ==> components(input)[i] != ".."@,
        sanitized(input) matches Some(p) ==> p == joined(components(input), "/"@),
        is_absolute(input) ==> sanitize_fault(input) is Some && sanitize_fault(input)->0.kind is Security
            && sanitize_fault(input)->0.detail == "Absolute paths are forbidden"@,
        (!is_absolute(input) && components(input).len() == 0) ==> sanitize_fault(input) is Some
            && sanitize_fault(input)->0.kind is Path,
        (sanitize_fault(input) is Some && components(input).len() > 0) ==> sanitize_fault(input)->0.kind
            is Security,
{
    lemma_one_denied_part_denies_the_path(components(input));
    if sanitized(input) is Some && 0 <= i < components(input).len() {
        assert(component_denial(components(input)[i]) is None);
    }
}

/// A name that is denied is told.
pub proof fn lemma_denied_names_are_told(name: Seq<char>, suffix: Seq<char>)
    ensures
        name_denial(name, suffix) matches Some(m) ==> contains_text(m, name) && has_suffix(m, suffix),
        is_secret_name(name) ==> name_denial(name, suffix) is Some,
{
    let a = "Hidden/dotfile access denied: "@;
    let b = "Secret key file access denied: "@;
    lemma_part_stands(a, name, suffix);
    lemma_part_stands(b, name, suffix);
    crate::laws::texts::lemma_ends_of_a_text(a + name, suffix);
    crate::laws::texts::lemma_ends_of_a_text(b + name, suffix);
}

/// Each driver is found by its name, and no other name finds one.
pub proof fn lemma_drivers_are_found_by_name(name: Seq<char>)
    ensures
        driver_of("maho"@) == Some(BrowserDriverKind::Maho),
        driver_of("orca"@) == Some(BrowserDriverKind::Orca),
        driver_of("cmux"@) == Some(BrowserDriverKind::Cmux),
        driver_of("agent-browser"@) == Some(BrowserDriverKind::AgentBrowser),
        driver_of("agent_browser"@) == Some(BrowserDriverKind::AgentBrowser),
        driver_of("aside"@) == Some(BrowserDriverKind::Aside),
        driver_of(name) is Some <==> name == "maho"@ || name == "orca"@ || name == "cmux"@ || name
            == "agent-browser"@ || name == "agent_browser"@ || name == "aside"@,
        contains_text(unknown_driver(name), crate::text::unicode_lower(trimmed(name))),
{
    reveal_strlit("maho");
    reveal_strlit("orca");
    reveal_strlit("cmux");
    reveal_strlit("agent-browser");
    reveal_strlit("agent_browser");
    reveal_strlit("aside");
    assert("maho"@.len() == 4);
    assert("orca"@.len() == 4);
    assert("cmux"@.len() == 4);
    assert("agent-browser"@.len() == 13);
    assert("agent_browser"@.len() == 13);
    assert("aside"@.len() == 5);
    assert("maho"@[0] != "orca"@[0]);
    assert("maho"@[0] != "cmux"@[0]);
    assert("orca"@[0] != "cmux"@[0]);
    assert("agent-browser"@[5] != "agent_browser"@[5]);
    lemma_part_stands(
        "unsupported browser driver '"@,
        crate::text::unicode_lower(trimmed(name)),
        "'; supported: maho, orca, cmux, agent-browser, aside"@,
    );
}

/// The ends of a delegation have their own words.
pub proof fn lemma_ends_have_words(a: DelegationTerminalState, b: DelegationTerminalState)
    ensures
        terminal_word(a) == terminal_word(b) ==> a == b,
        terminal_word(DelegationTerminalState::Completed) == "Completed"@,
        terminal_word(DelegationTerminalState::Blocked) == "Blocked"@,
        terminal_word(DelegationTerminalState::Failed) == "Failed"@,
        terminal_word(DelegationTerminalState::Lost) == "Lost"@,
{
    reveal_strlit("Completed");
    reveal_strlit("Blocked");
    reveal_strlit("Failed");
    reveal_strlit("Lost");
    assert("Completed"@.len() == 9);
    assert("Blocked"@.len() == 7);
    assert("Failed"@.len() == 6);
    assert("Lost"@.len() == 4);
}

/// The instructions for the coordinator hold the program that it calls, quoted; those for the skill hold
/// it as it is.
pub proof fn lemma_instructions_name_the_program(bin: Seq<char>)
    ensures
        contains_text(coordinator_text(bin), shell_quoted(bin)),
        contains_text(skill_text(bin), bin),
{
    let q = shell_quoted(bin);
    let a = crate::install::COORDINATOR_A@;
    let rest = crate::install::COORDINATOR_B@ + q + crate::install::COORDINATOR_C@ + q
        + crate::install::COORDINATOR_D@ + q + crate::install::COORDINATOR_E@;
    assert(coordinator_text(bin) =~= a + q + rest);
    lemma_part_stands(a, q, rest);
    let s = crate::install::SKILL_A@;
    let more = crate::install::SKILL_B@ + bin + crate::install::SKILL_C@ + bin + crate::install::SKILL_D@;
    assert(skill_text(bin) =~= s + bin + more);
    lemma_part_stands(s, bin, more);
}

/// Every task of a batch is prepared, in its place: without the space round it, in its own workspace or
/// else the one of the batch, and with its label where that says something.
pub proof fn lemma_every_task_is_prepared(
    raw: Seq<BatchTask>,
    default: Seq<char>,
    r: Seq<PreparedTask>,
    i: int,
)
    requires
        tasks_prepared(raw, default, r),
        0 <= i < raw.len(),
    ensures
        r.len() == raw.len(),
        r[i]@.task == trimmed(raw[i].task@),
        raw[i].workspace is None ==> r[i]@.workspace == default,
        raw[i].workspace is Some ==> r[i]@.workspace == raw[i].workspace->0.state->Directory_0@,
        raw[i].label is None ==> r[i]@.label is None,
        (raw[i].label is Some && trimmed(raw[i].label->0@).len() == 0) ==> r[i]@.label is None,
        (raw[i].label is Some && trimmed(raw[i].label->0@).len() > 0) ==> r[i]@.label == Some(
            trimmed(raw[i].label->0@),
        ),
{
    assert(r[i]@ == prepared(raw[i], default));
}

/// Terminals are listed before anything else, and what goes wrong with that is told.
pub proof fn lemma_terminals_are_listed_first(
    worktree: Seq<char>,
    marker: Seq<char>,
    survey: TerminalSurvey,
)
    ensures
        uncached_next(worktree, survey) is List <==> survey.listed is None,
        (survey.listed is Some && survey.listed->0 is Err) ==> uncached_next(worktree, survey)
            == TerminalModel::Failed(survey.listed->0->Err_0@) && marker_next(marker, survey) == Some(
            TerminalModel::Failed(survey.listed->0->Err_0@),
        ),
        survey.listed is None ==> marker_next(marker, survey) == Some(TerminalModel::List),
        (survey.listed is Some && survey.listed->0 is Ok && array_of(
            survey.listed->0->Ok_0.model().field2("result"@, "terminals"@),
        ) is None) ==> uncached_next(worktree, survey) is Failed && marker_next(marker, survey) is Some
            && marker_next(marker, survey)->0 is Failed,
{
    if survey.listed is Some && survey.listed->0 is Ok {
        let reply = survey.listed->0->Ok_0.model();
        if listed_handles(reply) is Ok {
            lemma_weighing_never_lists(worktree, listed_handles(reply)->Ok_0, survey.outputs@, 0);
        }
    }
}

proof fn lemma_weighing_never_lists(
    worktree: Seq<char>,
    list: Seq<(Seq<char>, Seq<char>)>,
    outputs: Seq<Result<Json, String>>,
    k: int,
)
    requires
        0 <= k,
    ensures
        crate::orca::weigh_from(worktree, list, outputs, k) !is List,
    decreases list.len() - k,
{
    if k < list.len() && k < outputs.len() && outputs[k] is Ok {
        lemma_weighing_never_lists(worktree, list, outputs, k + 1);
    }
}

/// An account that is not configured is told by its id; one whose state cannot be read is told as that.
pub proof fn lemma_missing_accounts_are_told(
    config: AccountsConfig,
    store: AccountStateStore,
    id: Seq<char>,
    e: RouterError,
)
    requires
        is_account_error(config, store, id, e),
    ensures
        account_position(config.accounts@, id) >= config.accounts@.len() ==> e is AccountUnavailable
            && e->AccountUnavailable_0@ == id,
        account_position(config.accounts@, id) < config.accounts@.len() ==> e is State && contains_text(
            e->State_0.detail(),
            id,
        ) && (e->State_0 is Security || e->State_0 is Precondition),
{
    lemma_part_stands("invalid account id for runtime state: '"@, id, "'"@);
    lemma_part_stands("invalid account runtime state for '"@, id, "'"@);
}

/// An id is written with all the digits of its number, in groups.
pub proof fn lemma_ids_show_their_number(b: Seq<u8>, i: int)
    requires
        b.len() == 16,
        0 <= i < 4,
    ensures
        ({
            let t = uuid_text(b);
            &&& t.len() == 36
            &&& t[8] == '-' && t[13] == '-' && t[18] == '-' && t[23] == '-'
            &&& t[2 * i] == hex_digit(b[i] as int / 16)
            &&& t[2 * i + 1] == hex_digit(b[i] as int % 16)
            &&& t[34] == hex_digit(b[15] as int / 16)
            &&& t[35] == hex_digit(b[15] as int % 16)
            &&& t[9] == hex_digit(b[4] as int / 16)
            &&& t[14] == hex_digit(b[6] as int / 16)
            &&& t[19] == hex_digit(b[8] as int / 16)
            &&& t[24] == hex_digit(b[10] as int / 16)
        }),
{
}

/// The parts of a path say something, and are not the place itself; a separator stands in none of them.
pub proof fn lemma_parts_of_a_path(path: Seq<char>, i: int)
    requires
        0 <= i < components(path).len(),
    ensures
        components(path)[i].len() > 0,
        components(path)[i] != "."@,
        !components(path)[i].contains('/'),
{
    crate::paths::lemma_components_are_parts(path);
}

/// The id of an account is made of letters, digits and three marks, and is not too long.
pub proof fn lemma_ids_of_accounts(s: Seq<char>)
    ensures
        is_account_id(s) <==> {
            &&& 1 <= s.len() <= 128
            &&& forall|i: int|
                0 <= i < s.len() ==> ('a' <= (#[trigger] s[i]) && s[i] <= 'z') || ('A' <= s[i] && s[i]
                    <= 'Z') || ('0' <= s[i] && s[i] <= '9') || s[i] == '-' || s[i] == '_' || s[i] == '.'
        },
{
}

/// A label is written as a value of its own; where there is none, that is written.
pub proof fn lemma_labels_are_written(l: Seq<char>)
    ensures
        label_text(None) == "null"@,
        label_text(Some(l)) == json_quoted(trimmed(l)),
{
}

} // verus!
