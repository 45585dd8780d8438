//! Saturating arithmetic and minima.
use crate::sort::Sortable;
use vstd::prelude::*;

verus! {

pub open spec fn sat_add(a: u64, b: u64) -> u64 {
    if a + b > u64::MAX {
        u64::MAX
    } else {
        (a + b) as u64
    }
}

pub open spec fn sat_sub(a: u64, b: u64) -> u64 {
    if a < b {
        0
    } else {
        (a - b) as u64
    }
}

pub open spec fn sat_mul(a: u64, b: u64) -> u64 {
    if a * b > u64::MAX {
        u64::MAX
    } else {
        (a * b) as u64
    }
}

pub fn saturating_mul(a: u64, b: u64) -> (r: u64)
    ensures
        r == sat_mul(a, b),
{
    match a.checked_mul(b) {
        Some(n) => n,
        None => u64::MAX,
    }
}

/// A count of seconds as milliseconds.
pub open spec fn seconds_ms(seconds: u64) -> u64 {
    sat_mul(seconds, 1000)
}

/// The least number of a list, if there is one.
pub open spec fn least(s: Seq<u64>) -> Option<u64>
    decreases s.len(),
{
    if s.len() == 0 {
        None
    } else {
        match least(s.drop_last()) {
            Some(m) => if m <= s.last() {
                Some(m)
            } else {
                Some(s.last())
            },
            None => Some(s.last()),
        }
    }
}

/// The lesser of two optional numbers; an absent one does not count.
pub open spec fn lesser(a: Option<u64>, b: Option<u64>) -> Option<u64> {
    match (a, b) {
        (Some(x), Some(y)) => if x <= y {
            Some(x)
        } else {
            Some(y)
        },
        (Some(x), None) => Some(x),
        (None, Some(y)) => Some(y),
        (None, None) => None,
    }
}

/// The greatest number of a list, if there is one.
pub open spec fn greatest(s: Seq<u64>) -> Option<u64>
    decreases s.len(),
{
    if s.len() == 0 {
        None
    } else {
        match greatest(s.drop_last()) {
            Some(m) => if m >= s.last() {
                Some(m)
            } else {
                Some(s.last())
            },
            None => Some(s.last()),
        }
    }
}

pub fn least_of(v: &Vec<u64>) -> (r: Option<u64>)
    ensures
        r == least(v@),
{
    let mut best: Option<u64> = None;
    let mut i: usize = 0;
    while i < v.len()
        invariant
            i <= v@.len(),
            best == least(v@.subrange(0, i as int)),
        decreases v@.len() - i,
    {
        assert(v@.subrange(0, i + 1).drop_last() =~= v@.subrange(0, i as int));
        best = match best {
            Some(m) => if m <= v[i] {
                Some(m)
            } else {
                Some(v[i])
            },
            None => Some(v[i]),
        };
        i += 1;
    }
    assert(v@.subrange(0, v@.len() as int) =~= v@);
    best
}

/// The lesser of two optional numbers; an absent one does not count.
pub fn min_option(left: Option<u64>, right: Option<u64>) -> (r: Option<u64>)
    ensures
        r == lesser(left, right),
{
    match (left, right) {
        (Some(x), Some(y)) => if x <= y {
            Some(x)
        } else {
            Some(y)
        },
        (Some(x), None) => Some(x),
        (None, Some(y)) => Some(y),
        (None, None) => None,
    }
}

/// The least number of a list is one of its numbers and none is less.
pub proof fn lemma_least(s: Seq<u64>)
    ensures
        least(s) is None <==> s.len() == 0,
        least(s) is Some ==> s.contains(least(s)->0),
        forall|i: int| 0 <= i < s.len() ==> least(s)->0 <= #[trigger] s[i],
    decreases s.len(),
{
    if s.len() > 0 {
        let t = s.drop_last();
        lemma_least(t);
        if t.len() > 0 && least(t)->0 <= s.last() {
            let k = choose|k: int| 0 <= k < t.len() && t[k] == least(t)->0;
            assert(s[k] == least(s)->0);
        } else {
            assert(s[s.len() - 1] == least(s)->0);
        }
        assert forall|i: int| 0 <= i < s.len() implies least(s)->0 <= #[trigger] s[i] by {
            if i < t.len() {
                assert(t[i] == s[i]);
            }
        }
    }
}

/// The greatest number of a list is one of its numbers and none is greater.
pub proof fn lemma_greatest(s: Seq<u64>)
    ensures
        greatest(s) is None <==> s.len() == 0,
        greatest(s) is Some ==> s.contains(greatest(s)->0),
        forall|i: int| 0 <= i < s.len() ==> greatest(s)->0 >= #[trigger] s[i],
    decreases s.len(),
{
    if s.len() > 0 {
        let t = s.drop_last();
        lemma_greatest(t);
        if t.len() > 0 && greatest(t)->0 >= s.last() {
            let k = choose|k: int| 0 <= k < t.len() && t[k] == greatest(t)->0;
            assert(s[k] == greatest(s)->0);
        } else {
            assert(s[s.len() - 1] == greatest(s)->0);
        }
        assert forall|i: int| 0 <= i < s.len() implies greatest(s)->0 >= #[trigger] s[i] by {
            if i < t.len() {
                assert(t[i] == s[i]);
            }
        }
    }
}

impl Sortable for u64 {
    open spec fn before(self, other: Self) -> bool {
        self < other
    }

    proof fn lemma_asym(a: Self, b: Self) {
    }

    proof fn lemma_trans(a: Self, b: Self, c: Self) {
    }

    fn is_before(&self, other: &Self) -> (r: bool) {
        *self < *other
    }
}

} // verus!
