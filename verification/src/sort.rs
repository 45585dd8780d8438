//! Stable sorting by a strict order.
use vstd::prelude::*;

verus! {

/// Values with a strict order in which lists of them are sorted.
pub trait Sortable: Sized {
    /// `self` stands before `other`.
    spec fn before(self, other: Self) -> bool;

    /// Of two values at most one stands before the other.
    proof fn lemma_asym(a: Self, b: Self)
        ensures
            !(a.before(b) && b.before(a)),
    ;

    /// Not standing behind is transitive.
    proof fn lemma_trans(a: Self, b: Self, c: Self)
        requires
            !b.before(a),
            !c.before(b),
        ensures
            !c.before(a),
    ;

    /// Whether `self` stands before `other`.
    fn is_before(&self, other: &Self) -> (r: bool)
        ensures
            r == self.before(*other),
    ;
}

/// A value put in its place in an ordered list, behind those that it does not stand
/// before.
pub open spec fn put_in<T: Sortable>(s: Seq<T>, x: T) -> Seq<T>
    decreases s.len(),
{
    if s.len() == 0 || !x.before(s.last()) {
        s.push(x)
    } else {
        put_in(s.drop_last(), x).push(s.last())
    }
}

/// The values of a list in order; those that stand before neither of each other keep
/// their places.
pub open spec fn in_order<T: Sortable>(s: Seq<T>) -> Seq<T>
    decreases s.len(),
{
    if s.len() == 0 {
        Seq::empty()
    } else {
        put_in(in_order(s.drop_last()), s.last())
    }
}

/// No value of a list stands before one to its left.
pub open spec fn is_in_order<T: Sortable>(s: Seq<T>) -> bool {
    forall|i: int, j: int|
        0 <= i < j < s.len() ==> !(#[trigger] s[j]).before(#[trigger] s[i])
}

fn insert_item<T: Sortable>(v: &mut Vec<T>, x: T)
    ensures
        final(v)@ == put_in(old(v)@, x),
{
    let ghost m = v@;
    let mut i: usize = v.len();
    assert(m.subrange(0, m.len() as int) =~= m);
    assert(m.subrange(m.len() as int, m.len() as int) =~= Seq::<T>::empty());
    assert(put_in(m, x) =~= put_in(m, x) + Seq::<T>::empty());
    while i > 0 && x.is_before(&v[i - 1])
        invariant
            i <= v@.len(),
            v@ == m,
            put_in(m, x) == put_in(m.subrange(0, i as int), x) + m.subrange(
                i as int,
                m.len() as int,
            ),
        decreases i,
    {
        proof {
            let head = m.subrange(0, i as int);
            assert(head.last() == m[i - 1]);
            assert(head.drop_last() =~= m.subrange(0, i - 1));
            assert(put_in(m.subrange(0, i - 1), x).push(m[i - 1]) + m.subrange(
                i as int,
                m.len() as int,
            ) =~= put_in(m.subrange(0, i - 1), x) + m.subrange(i - 1, m.len() as int));
        }
        i -= 1;
    }
    proof {
        let head = m.subrange(0, i as int);
        if i > 0 {
            assert(head.last() == m[i - 1]);
        }
        assert(put_in(head, x) == head.push(x));
    }
    v.insert(i, x);
    assert(v@ =~= m.subrange(0, i as int).push(x) + m.subrange(i as int, m.len() as int));
}

/// Sorts a list.
pub fn sort_items<T: Sortable>(v: Vec<T>) -> (r: Vec<T>)
    ensures
        r@ == in_order(v@),
{
    let ghost all = v@;
    let mut rest = v;
    let mut out: Vec<T> = Vec::new();
    let ghost mut taken: int = 0;
    assert(all.subrange(0, 0) =~= Seq::<T>::empty());
    assert(all.subrange(0, all.len() as int) =~= all);
    while rest.len() > 0
        invariant
            0 <= taken <= all.len(),
            rest@ == all.subrange(taken, all.len() as int),
            out@ == in_order(all.subrange(0, taken)),
        decreases rest@.len(),
    {
        let x = rest.remove(0);
        proof {
            assert(all.subrange(0, taken + 1).drop_last() =~= all.subrange(0, taken));
            assert(all.subrange(0, taken + 1).last() == all[taken]);
            assert(rest@ =~= all.subrange(taken + 1, all.len() as int));
            taken = taken + 1;
        }
        insert_item(&mut out, x);
    }
    assert(all.subrange(0, taken) =~= all);
    out
}

proof fn lemma_put_in<T: Sortable>(s: Seq<T>, x: T)
    requires
        is_in_order(s),
    ensures
        is_in_order(put_in(s, x)),
        put_in(s, x).to_multiset() == s.to_multiset().insert(x),
        put_in(s, x).len() == s.len() + 1,
        forall|i: int|
            0 <= i < put_in(s, x).len() ==> #[trigger] put_in(s, x)[i] == x || s.contains(
                put_in(s, x)[i],
            ),
    decreases s.len(),
{
    broadcast use vstd::seq_lib::group_to_multiset_ensures;

    if s.len() == 0 || !x.before(s.last()) {
        let r = s.push(x);
        assert forall|i: int, j: int| 0 <= i < j < r.len() implies !(#[trigger] r[j]).before(
            #[trigger] r[i],
        ) by {
            if j == s.len() {
                if i < s.len() - 1 {
                    assert(!s[s.len() - 1].before(s[i]));
                    T::lemma_trans(s[i], s.last(), x);
                }
            } else {
                assert(s[i] == r[i] && s[j] == r[j]);
            }
        }
        assert forall|i: int| 0 <= i < r.len() implies #[trigger] r[i] == x || s.contains(r[i]) by {
            if i < s.len() {
                assert(s[i] == r[i]);
            }
        }
    } else {
        let front = s.drop_last();
        let last = s.last();
        assert forall|i: int, j: int| 0 <= i < j < front.len() implies !(
        #[trigger] front[j]).before(#[trigger] front[i]) by {
            assert(s[i] == front[i] && s[j] == front[j]);
        }
        lemma_put_in(front, x);
        let inner = put_in(front, x);
        let r = inner.push(last);
        assert(s =~= front.push(last));
        assert forall|i: int, j: int| 0 <= i < j < r.len() implies !(#[trigger] r[j]).before(
            #[trigger] r[i],
        ) by {
            if j == inner.len() {
                T::lemma_asym(x, last);
                if inner[i] != x {
                    let k = choose|k: int| 0 <= k < front.len() && front[k] == inner[i];
                    assert(s[k] == front[k]);
                    assert(!s[s.len() - 1].before(s[k]));
                }
            } else {
                assert(inner[i] == r[i] && inner[j] == r[j]);
            }
        }
        assert forall|i: int| 0 <= i < r.len() implies #[trigger] r[i] == x || s.contains(r[i]) by {
            if i < inner.len() {
                if inner[i] != x {
                    let k = choose|k: int| 0 <= k < front.len() && front[k] == inner[i];
                    assert(s[k] == front[k]);
                }
            } else {
                assert(s[s.len() - 1] == last);
            }
        }
    }
}

/// Sorting puts the values of a list in order and keeps each as often as it stood
/// there.
pub proof fn lemma_in_order<T: Sortable>(s: Seq<T>)
    ensures
        is_in_order(in_order(s)),
        in_order(s).to_multiset() == s.to_multiset(),
        in_order(s).len() == s.len(),
    decreases s.len(),
{
    broadcast use vstd::seq_lib::group_to_multiset_ensures;

    if s.len() > 0 {
        lemma_in_order(s.drop_last());
        lemma_put_in(in_order(s.drop_last()), s.last());
        assert(s =~= s.drop_last().push(s.last()));
    } else {
        assert(in_order(s) =~= s);
    }
}

} // verus!
