//! What holds of texts: of cutting them up and putting them together, and of numbers in them.
use crate::text::{char_position, contains_text, cut_once, decimal, digits_value, has_prefix,
    has_suffix, is_digit, joined, occurs_at, parsed_u64, pieces, without_trailing};
use vstd::prelude::*;

verus! {

/// A part of a text stands in it.
pub proof fn lemma_part_stands(before: Seq<char>, part: Seq<char>, after: Seq<char>)
    ensures
        contains_text(before + part + after, part),
{
    let whole = before + part + after;
    let at = before.len() as int;
    assert(whole.subrange(at, at + part.len()) =~= part);
    assert(occurs_at(whole, part, at));
}

/// A text begins with its first part and ends with its last.
pub proof fn lemma_ends_of_a_text(first: Seq<char>, last: Seq<char>)
    ensures
        has_prefix(first + last, first),
        has_suffix(first + last, last),
{
    let whole = first + last;
    assert(whole.subrange(0, first.len() as int) =~= first);
    assert(whole.subrange(whole.len() - last.len(), whole.len() as int) =~= last);
}

/// The pieces of a text between the places of a mark give the text again with the mark between
/// them, and none of them holds the mark.
pub proof fn lemma_pieces_give_the_text(s: Seq<char>, sep: char)
    ensures
        joined(pieces(s, sep), seq![sep]) == s,
        pieces(s, sep).len() > 0,
        forall|i: int, j: int|
            0 <= i < pieces(s, sep).len() && 0 <= j < pieces(s, sep)[i].len() ==> #[trigger] pieces(
                s,
                sep,
            )[i][j] != sep,
    decreases s.len(),
{
    let parts = pieces(s, sep);
    reveal_with_fuel(joined, 2);
    if s.len() == 0 {
        assert(joined(parts, seq![sep]) =~= s);
    } else {
        let front = s.drop_last();
        let before = pieces(front, sep);
        lemma_pieces_give_the_text(front, sep);
        assert(s =~= front.push(s.last()));
        if s.last() == sep {
            assert(parts.drop_last() =~= before);
            assert(joined(parts, seq![sep]) =~= s);
            assert forall|i: int, j: int|
                0 <= i < parts.len() && 0 <= j < parts[i].len() implies #[trigger] parts[i][j]
                != sep by {
                if i < before.len() {
                    assert(parts[i] == before[i]);
                    assert(before[i][j] != sep);
                }
            }
        } else {
            let last = before.last().push(s.last());
            assert(parts.drop_last() =~= before.drop_last());
            assert(parts.last() == last);
            assert(joined(parts, seq![sep]) =~= joined(before, seq![sep]).push(s.last()));
            assert forall|i: int, j: int|
                0 <= i < parts.len() && 0 <= j < parts[i].len() implies #[trigger] parts[i][j]
                != sep by {
                if i < before.len() - 1 {
                    assert(parts[i] == before[i]);
                    assert(before[i][j] != sep);
                } else {
                    assert(parts[i] == last);
                    if j < last.len() - 1 {
                        assert(before[i][j] == last[j]);
                        assert(before[i][j] != sep);
                    }
                }
            }
        }
    }
}

/// The number that is written in decimal digits is the number that was written, so that different
/// numbers are written differently.
pub proof fn lemma_decimal_is_read_back(n: nat)
    ensures
        decimal(n).len() > 0,
        forall|i: int| 0 <= i < decimal(n).len() ==> is_digit(#[trigger] decimal(n)[i]),
        digits_value(decimal(n)) == n,
    decreases n,
{
    reveal_with_fuel(digits_value, 2);
    if n < 10 {
        assert(decimal(n).drop_last() =~= Seq::<char>::empty());
    } else {
        lemma_decimal_is_read_back(n / 10);
        assert(decimal(n).drop_last() =~= decimal(n / 10));
    }
}

/// A number that fits is read back from its decimal digits.
pub proof fn lemma_number_is_parsed(n: u64)
    ensures
        parsed_u64(decimal(n as nat)) == Some(n),
{
    lemma_decimal_is_read_back(n as nat);
    assert(!has_prefix(decimal(n as nat), "+"@)) by {
        reveal_strlit("+");
        if has_prefix(decimal(n as nat), "+"@) {
            assert(decimal(n as nat).subrange(0, 1)[0] == '+');
        }
    }
}

/// A text is cut at the first place of a mark: what stands before it holds no mark, and both parts
/// with the mark between them are the text.
pub proof fn lemma_cut_parts_give_the_text(s: Seq<char>, c: char)
    ensures
        cut_once(s, c) is Some <==> s.contains(c),
        cut_once(s, c) matches Some(p) ==> {
            &&& p.0 + seq![c] + p.1 == s
            &&& !p.0.contains(c)
        },
{
    lemma_char_position(s, c);
    let i = char_position(s, c);
    if i < s.len() {
        let p = cut_once(s, c)->0;
        assert(p.0 + seq![c] + p.1 =~= s);
        assert(s[i] == c);
        if p.0.contains(c) {
            let j = choose|j: int| 0 <= j < p.0.len() && p.0[j] == c;
            assert(s[j] == c);
        }
    } else if s.contains(c) {
        let j = choose|j: int| 0 <= j < s.len() && s[j] == c;
        assert(s[j] != c);
    }
}

proof fn lemma_char_position(s: Seq<char>, c: char)
    ensures
        0 <= char_position(s, c) <= s.len(),
        char_position(s, c) < s.len() ==> s[char_position(s, c)] == c,
        forall|j: int| 0 <= j < char_position(s, c) ==> #[trigger] s[j] != c,
    decreases s.len(),
{
    if s.len() > 0 && s[0] != c {
        let t = s.drop_first();
        lemma_char_position(t, c);
        assert forall|j: int| 0 <= j < char_position(s, c) implies #[trigger] s[j] != c by {
            if j > 0 {
                assert(t[j - 1] == s[j]);
            }
        }
        if char_position(t, c) < t.len() {
            assert(s[char_position(t, c) + 1] == t[char_position(t, c)]);
        }
    }
}

/// Marks are taken off the end of a text as long as it ends with one, and nothing else is.
pub proof fn lemma_trailing_marks_are_taken_off(s: Seq<char>, c: char)
    ensures
        ({
            let t = without_trailing(s, c);
            &&& t.len() <= s.len()
            &&& t == s.subrange(0, t.len() as int)
            &&& t.len() > 0 ==> t.last() != c
            &&& forall|i: int| t.len() <= i < s.len() ==> #[trigger] s[i] == c
        }),
    decreases s.len(),
{
    if s.len() > 0 && s.last() == c {
        lemma_trailing_marks_are_taken_off(s.drop_last(), c);
        let t = without_trailing(s, c);
        assert(s.drop_last().subrange(0, t.len() as int) =~= s.subrange(0, t.len() as int));
        assert forall|i: int| t.len() <= i < s.len() implies #[trigger] s[i] == c by {
            if i < s.len() - 1 {
                assert(s.drop_last()[i] == s[i]);
            }
        }
    } else {
        assert(s.subrange(0, s.len() as int) =~= s);
    }
}

} // verus!
