//! Unix path texts: their components and how they nest.
use crate::text::{chars_of, has_prefix, joined, same_text, starts_with, texts};
use vstd::prelude::*;

verus! {

/// The pieces of a text that a separator closes.
pub open spec fn closed_pieces(s: Seq<char>, sep: char) -> Seq<Seq<char>>
    decreases s.len(),
{
    if s.len() == 0 {
        Seq::empty()
    } else if s.last() == sep {
        closed_pieces(s.drop_last(), sep).push(open_piece(s.drop_last(), sep))
    } else {
        closed_pieces(s.drop_last(), sep)
    }
}

/// What stands behind the last separator of a text.
pub open spec fn open_piece(s: Seq<char>, sep: char) -> Seq<char>
    decreases s.len(),
{
    if s.len() == 0 || s.last() == sep {
        Seq::empty()
    } else {
        open_piece(s.drop_last(), sep).push(s.last())
    }
}

/// A text cut at every separator.
pub open spec fn pieces(s: Seq<char>, sep: char) -> Seq<Seq<char>> {
    closed_pieces(s, sep).push(open_piece(s, sep))
}

pub open spec fn is_component(p: Seq<char>) -> bool {
    p.len() > 0 && p != "."@
}

/// The components of a path: its pieces without empty ones and without `.`.
pub open spec fn components(path: Seq<char>) -> Seq<Seq<char>> {
    pieces(path, '/').filter(|p: Seq<char>| is_component(p))
}

pub open spec fn is_absolute(path: Seq<char>) -> bool {
    path.len() > 0 && path[0] == '/'
}

/// `path` is `base` or lies below it, by whole components.
pub open spec fn is_within(path: Seq<char>, base: Seq<char>) -> bool {
    &&& is_absolute(path) == is_absolute(base)
    &&& components(base).len() <= components(path).len()
    &&& components(path).subrange(0, components(base).len() as int) == components(base)
}

/// The absolute path with these components.
pub open spec fn absolute_path(parts: Seq<Seq<char>>) -> Seq<char> {
    seq!['/'] + joined(parts, seq!['/'])
}

/// `base` with `rel` behind it: an absolute `rel` replaces `base`, and one slash
/// stands between the two unless `base` is empty or ends with one.
pub open spec fn joined_path(base: Seq<char>, rel: Seq<char>) -> Seq<char> {
    if is_absolute(rel) || base.len() == 0 {
        rel
    } else if base.last() == '/' {
        base + rel
    } else {
        base + seq!['/'] + rel
    }
}

/// Cuts a text at every separator.
pub fn split(s: &str, sep: char) -> (r: Vec<String>)
    ensures
        texts(r@) == pieces(s@, sep),
{
    let v = chars_of(s);
    let mut out: Vec<String> = Vec::new();
    let mut cur: String = String::new();
    let mut i: usize = 0;
    assert(v@.subrange(0, 0) =~= Seq::<char>::empty());
    assert(texts(out@) =~= Seq::<Seq<char>>::empty());
    while i < v.len()
        invariant
            i <= v@.len(),
            texts(out@) == closed_pieces(v@.subrange(0, i as int), sep),
            cur@ == open_piece(v@.subrange(0, i as int), sep),
        decreases v@.len() - i,
    {
        assert(v@.subrange(0, i + 1).drop_last() =~= v@.subrange(0, i as int));
        if v[i] == sep {
            let ghost before = out@;
            let ghost c = cur;
            out.push(cur);
            assert(texts(out@) =~= texts(before).push(c@));
            cur = String::new();
        } else {
            cur.push(v[i]);
        }
        i += 1;
    }
    assert(v@.subrange(0, v@.len() as int) =~= v@);
    let ghost before = out@;
    let ghost c = cur;
    out.push(cur);
    assert(texts(out@) =~= texts(before).push(c@));
    out
}

/// The components of a path.
pub fn components_of(path: &str) -> (r: Vec<String>)
    ensures
        texts(r@) == components(path@),
{
    let all = split(path, '/');
    let ghost keep = |p: Seq<char>| is_component(p);
    let mut out: Vec<String> = Vec::new();
    let mut i: usize = 0;
    proof {
        reveal(Seq::filter);
        assert(texts(all@).subrange(0, 0) =~= Seq::<Seq<char>>::empty());
        assert(texts(out@) =~= Seq::<Seq<char>>::empty());
    }
    while i < all.len()
        invariant
            i <= all@.len(),
            keep == (|p: Seq<char>| is_component(p)),
            texts(out@) == texts(all@).subrange(0, i as int).filter(keep),
        decreases all@.len() - i,
    {
        let ghost before = out@;
        proof {
            reveal(Seq::filter);
            assert(texts(all@).subrange(0, i + 1).drop_last() =~= texts(all@).subrange(0, i as int));
        }
        if !all[i].as_str().is_empty() && !same_text(all[i].as_str(), ".") {
            out.push(all[i].clone());
            assert(texts(out@) =~= texts(before).push(all@[i as int]@));
        }
        i += 1;
    }
    assert(texts(all@).subrange(0, all@.len() as int) =~= texts(all@));
    out
}

pub fn absolute(path: &str) -> (r: bool)
    ensures
        r == is_absolute(path@),
{
    let v = chars_of(path);
    v.len() > 0 && v[0] == '/'
}

/// Whether `path` is `base` or lies below it.
pub fn within(path: &str, base: &str) -> (r: bool)
    ensures
        r == is_within(path@, base@),
{
    let p = components_of(path);
    let b = components_of(base);
    if absolute(path) != absolute(base) || b.len() > p.len() {
        proof {
            assert(texts(p@).len() == p@.len() && texts(b@).len() == b@.len());
        }
        return false;
    }
    let mut i: usize = 0;
    while i < b.len()
        invariant
            i <= b@.len(),
            b@.len() <= p@.len(),
            texts(p@) == components(path@),
            texts(b@) == components(base@),
            is_absolute(path@) == is_absolute(base@),
            forall|j: int| 0 <= j < i ==> texts(p@)[j] == texts(b@)[j],
        decreases b@.len() - i,
    {
        if !same_text(p[i].as_str(), b[i].as_str()) {
            assert(texts(p@).subrange(0, b@.len() as int)[i as int] != texts(b@)[i as int]);
            return false;
        }
        assert(texts(p@)[i as int] == texts(b@)[i as int]);
        i += 1;
    }
    assert(texts(p@).subrange(0, b@.len() as int) =~= texts(b@));
    true
}

/// `base` with `rel` behind it.
pub fn join_path(base: &str, rel: &str) -> (r: String)
    ensures
        r@ == joined_path(base@, rel@),
{
    let b = chars_of(base);
    if absolute(rel) || b.len() == 0 {
        return rel.to_owned();
    }
    let mut out: String = base.to_owned();
    if b[b.len() - 1] != '/' {
        out.push('/');
        assert(out@ =~= base@ + seq!['/']);
    }
    out.append(rel);
    out
}

/// The absolute path with these components.
pub fn absolute_of(parts: &Vec<String>) -> (r: String)
    ensures
        r@ == absolute_path(texts(parts@)),
{
    let mut out: String = String::new();
    out.push('/');
    assert(out@ =~= seq!['/']);
    proof {
        reveal_strlit("/");
        assert("/"@ =~= seq!['/']);
    }
    out.append(crate::text::join(parts, "/").as_str());
    out
}

proof fn lemma_pieces_behind(a: Seq<char>, b: Seq<char>, sep: char)
    requires
        !b.contains(sep),
    ensures
        pieces(a + seq![sep] + b, sep) == pieces(a, sep).push(b),
    decreases b.len(),
{
    let s = a + seq![sep] + b;
    if b.len() == 0 {
        assert(s.drop_last() =~= a);
        assert(s.last() == sep);
        assert(open_piece(s, sep) =~= b);
    } else {
        let c = b.drop_last();
        assert(s.drop_last() =~= a + seq![sep] + c);
        assert(s.last() == b.last());
        assert(b[b.len() - 1] != sep);
        assert(!c.contains(sep)) by {
            if c.contains(sep) {
                let i = choose|i: int| 0 <= i < c.len() && c[i] == sep;
                assert(b[i] == sep);
            }
        }
        lemma_pieces_behind(a, c, sep);
        let p = pieces(s.drop_last(), sep);
        assert(p.last() == open_piece(s.drop_last(), sep));
        assert(p.drop_last() =~= closed_pieces(s.drop_last(), sep));
        assert(pieces(a, sep).push(c).drop_last() =~= pieces(a, sep));
        assert(c.push(b.last()) =~= b);
        assert(pieces(s, sep) =~= pieces(a, sep).push(b));
    }
}

proof fn lemma_pieces_of_one(b: Seq<char>, sep: char)
    requires
        !b.contains(sep),
    ensures
        pieces(b, sep) == seq![b],
    decreases b.len(),
{
    if b.len() == 0 {
        assert(b =~= Seq::<char>::empty());
        assert(pieces(b, sep) =~= seq![b]);
    } else {
        let c = b.drop_last();
        assert(b[b.len() - 1] != sep);
        assert(!c.contains(sep)) by {
            if c.contains(sep) {
                let i = choose|i: int| 0 <= i < c.len() && c[i] == sep;
                assert(b[i] == sep);
            }
        }
        lemma_pieces_of_one(c, sep);
        assert(pieces(c, sep).last() == open_piece(c, sep));
        assert(pieces(c, sep).drop_last() =~= closed_pieces(c, sep));
        assert(seq![c].drop_last() =~= Seq::<Seq<char>>::empty());
        assert(c.push(b.last()) =~= b);
        assert(pieces(b, sep) =~= seq![b]);
    }
}

/// Parts that can be components of a path: not empty, not `.`, and without a slash.
pub open spec fn are_parts(parts: Seq<Seq<char>>) -> bool {
    forall|i: int| 0 <= i < parts.len() ==> is_component(#[trigger] parts[i]) && !parts[i].contains('/')
}

/// Components joined with slashes are the components of the joined path.
pub proof fn lemma_components_of_joined(parts: Seq<Seq<char>>)
    requires
        parts.len() > 0,
        are_parts(parts),
    ensures
        components(joined(parts, seq!['/'])) == parts,
    decreases parts.len(),
{
    let keep = |p: Seq<char>| is_component(p);
    let last = parts.last();
    assert(parts[parts.len() - 1] == last);
    if parts.len() == 1 {
        lemma_pieces_of_one(last, '/');
        assert(seq![last].drop_last() =~= Seq::<Seq<char>>::empty());
        assert(seq![last].filter(keep) =~= seq![last]) by {
            reveal_with_fuel(Seq::filter, 2);
            assert(seq![last].drop_last().filter(keep) =~= Seq::<Seq<char>>::empty());
        }
        assert(parts =~= seq![last]);
    } else {
        let front = parts.drop_last();
        assert forall|i: int| 0 <= i < front.len() implies is_component(#[trigger] front[i])
            && !front[i].contains('/') by {
            assert(front[i] == parts[i]);
        }
        lemma_components_of_joined(front);
        let a = joined(front, seq!['/']);
        lemma_pieces_behind(a, last, '/');
        let p = pieces(a, '/').push(last);
        assert(p.drop_last() =~= pieces(a, '/'));
        assert(p.filter(keep) =~= pieces(a, '/').filter(keep).push(last)) by {
            reveal_with_fuel(Seq::filter, 2);
        }
        assert(front.push(last) =~= parts);
    }
}

proof fn lemma_pieces_have_no_separator(s: Seq<char>, sep: char)
    ensures
        forall|i: int| 0 <= i < closed_pieces(s, sep).len() ==> !(#[trigger] closed_pieces(s, sep)[i]).contains(sep),
        !open_piece(s, sep).contains(sep),
    decreases s.len(),
{
    if s.len() > 0 {
        let front = s.drop_last();
        lemma_pieces_have_no_separator(front, sep);
        assert forall|i: int| 0 <= i < closed_pieces(s, sep).len() implies !(
        #[trigger] closed_pieces(s, sep)[i]).contains(sep) by {
            if i < closed_pieces(front, sep).len() {
                assert(closed_pieces(s, sep)[i] == closed_pieces(front, sep)[i]);
            }
        }
        if s.last() != sep {
            let o = open_piece(front, sep);
            assert(!o.push(s.last()).contains(sep)) by {
                if o.push(s.last()).contains(sep) {
                    let k = choose|k: int| 0 <= k < o.len() + 1 && o.push(s.last())[k] == sep;
                    assert(o[k] == sep);
                }
            }
        }
    }
}

/// The components of a path can be components of a path.
pub proof fn lemma_components_are_parts(path: Seq<char>)
    ensures
        are_parts(components(path)),
{
    let keep = |p: Seq<char>| is_component(p);
    let all = pieces(path, '/');
    lemma_pieces_have_no_separator(path, '/');
    assert forall|i: int| 0 <= i < components(path).len() implies is_component(
        #[trigger] components(path)[i],
    ) && !components(path)[i].contains('/') by {
        let c = components(path)[i];
        all.lemma_filter_pred(keep, i);
        all.lemma_filter_contains_rev(keep, c);
        let j = choose|j: int| 0 <= j < all.len() && all[j] == c;
        if j < closed_pieces(path, '/').len() {
            assert(closed_pieces(path, '/')[j] == c);
        }
    }
}

/// A relative path that begins with the component `.`.
pub open spec fn starts_here(path: Seq<char>) -> bool {
    path == "."@ || has_prefix(path, "./"@)
}

/// Two texts write the same path: they agree in being absolute, in beginning with `.`,
/// and in their components.
pub open spec fn same_path(a: Seq<char>, b: Seq<char>) -> bool {
    &&& is_absolute(a) == is_absolute(b)
    &&& starts_here(a) == starts_here(b)
    &&& components(a) == components(b)
}

/// Whether two texts write the same path.
pub fn paths_equal(a: &str, b: &str) -> (r: bool)
    ensures
        r == same_path(a@, b@),
{
    let p = components_of(a);
    let q = components_of(b);
    let here_a = same_text(a, ".") || starts_with(a, "./");
    let here_b = same_text(b, ".") || starts_with(b, "./");
    if absolute(a) != absolute(b) || here_a != here_b {
        return false;
    }
    if p.len() != q.len() {
        assert(texts(p@).len() == p@.len() && texts(q@).len() == q@.len());
        return false;
    }
    let mut i: usize = 0;
    while i < p.len()
        invariant
            i <= p@.len(),
            p@.len() == q@.len(),
            texts(p@) == components(a@),
            texts(q@) == components(b@),
            forall|j: int| 0 <= j < i ==> texts(p@)[j] == texts(q@)[j],
        decreases p@.len() - i,
    {
        if !same_text(p[i].as_str(), q[i].as_str()) {
            assert(texts(p@)[i as int] != texts(q@)[i as int]);
            return false;
        }
        assert(texts(p@)[i as int] == texts(q@)[i as int]);
        i += 1;
    }
    assert(texts(p@) =~= texts(q@));
    true
}

/// Two texts with a separator between them are cut into the pieces of both.
proof fn lemma_pieces_of_two(a: Seq<char>, b: Seq<char>, sep: char)
    ensures
        closed_pieces(a + seq![sep] + b, sep) == pieces(a, sep) + closed_pieces(b, sep),
        open_piece(a + seq![sep] + b, sep) == open_piece(b, sep),
        pieces(a + seq![sep] + b, sep) == pieces(a, sep) + pieces(b, sep),
    decreases b.len(),
{
    let s = a + seq![sep] + b;
    if b.len() == 0 {
        assert(s.drop_last() =~= a);
        assert(s.last() == sep);
        assert(closed_pieces(s, sep) =~= pieces(a, sep) + closed_pieces(b, sep));
    } else {
        assert(s.drop_last() =~= a + seq![sep] + b.drop_last());
        lemma_pieces_of_two(a, b.drop_last(), sep);
        assert(closed_pieces(s, sep) =~= pieces(a, sep) + closed_pieces(b, sep));
    }
    assert(pieces(s, sep) =~= pieces(a, sep) + pieces(b, sep));
}

/// The components of a path behind another are those of both.
pub proof fn lemma_components_of_joined_path(base: Seq<char>, rel: Seq<char>)
    requires
        !is_absolute(rel),
        base.len() > 0,
    ensures
        components(joined_path(base, rel)) == components(base) + components(rel),
        is_absolute(joined_path(base, rel)) == is_absolute(base),
{
    let keep = |p: Seq<char>| is_component(p);
    if base.last() == '/' {
        let c = base.drop_last();
        assert(base =~= c + seq!['/'] + Seq::<char>::empty());
        assert(base + rel =~= c + seq!['/'] + rel);
        lemma_pieces_of_two(c, Seq::empty(), '/');
        lemma_pieces_of_two(c, rel, '/');
        let none = pieces(Seq::<char>::empty(), '/');
        assert(none =~= seq![Seq::<char>::empty()]);
        assert(none.filter(keep) =~= Seq::<Seq<char>>::empty()) by {
            reveal_with_fuel(Seq::filter, 2);
            assert(none.drop_last() =~= Seq::<Seq<char>>::empty());
        }
        Seq::filter_distributes_over_add(pieces(c, '/'), none, keep);
        Seq::filter_distributes_over_add(pieces(c, '/'), pieces(rel, '/'), keep);
        assert(components(base) =~= pieces(c, '/').filter(keep));
    } else {
        lemma_pieces_of_two(base, rel, '/');
        Seq::filter_distributes_over_add(pieces(base, '/'), pieces(rel, '/'), keep);
    }
    assert(joined_path(base, rel)[0] == base[0]);
}

} // verus!
