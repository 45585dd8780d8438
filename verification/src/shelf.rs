//! Named slots: what a directory of small state files holds.
use crate::text::same_text;
use vstd::prelude::*;

verus! {

/// A value under a name.
#[derive(Debug)]
pub struct Slot<T> {
    pub name: String,
    pub value: T,
}

/// The position of the first slot with this name, or the number of slots.
pub open spec fn slot_position<T>(slots: Seq<Slot<T>>, name: Seq<char>) -> int
    decreases slots.len(),
{
    if slots.len() == 0 || slots[0].name@ == name {
        0
    } else {
        1 + slot_position(slots.drop_first(), name)
    }
}

/// The value of the first slot with this name.
pub open spec fn slot_value<T>(slots: Seq<Slot<T>>, name: Seq<char>) -> Option<T> {
    let i = slot_position(slots, name);
    if i < slots.len() {
        Some(slots[i].value)
    } else {
        None
    }
}

/// A value was put under a name: its slot takes the place of the first of that name, or
/// stands behind the others, and no other slot changes.
pub open spec fn slot_put<T>(
    before: Seq<Slot<T>>,
    after: Seq<Slot<T>>,
    name: Seq<char>,
    value: T,
) -> bool {
    let i = slot_position(before, name);
    &&& after[i].name@ == name
    &&& after[i].value == value
    &&& after == (if i < before.len() {
        before.update(i, after[i])
    } else {
        before.push(after[i])
    })
}

/// No two slots have the same name.
pub open spec fn slots_differ<T>(slots: Seq<Slot<T>>) -> bool {
    forall|i: int, j: int|
        0 <= i < j < slots.len() ==> (#[trigger] slots[i]).name@ != (#[trigger] slots[j]).name@
}

/// The slots without those of a name.
pub open spec fn slots_without<T>(slots: Seq<Slot<T>>, name: Seq<char>) -> Seq<Slot<T>> {
    slots.filter(|s: Slot<T>| s.name@ != name)
}

/// The position of the first slot with this name, or the number of slots.
pub fn find_slot<T>(slots: &Vec<Slot<T>>, name: &str) -> (r: usize)
    ensures
        r == slot_position(slots@, name@),
        r <= slots@.len(),
        r < slots@.len() ==> slots@[r as int].name@ == name@ && slot_value(slots@, name@) == Some(
            slots@[r as int].value,
        ),
        r == slots@.len() ==> slot_value(slots@, name@) is None,
{
    let ghost all = slots@;
    let mut i: usize = 0;
    assert(all.subrange(0, all.len() as int) =~= all);
    while i < slots.len()
        invariant
            i <= slots@.len(),
            all == slots@,
            slot_position(all, name@) == i + slot_position(
                all.subrange(i as int, all.len() as int),
                name@,
            ),
        decreases slots@.len() - i,
    {
        if same_text(slots[i].name.as_str(), name) {
            return i;
        }
        assert(all.subrange(i as int, all.len() as int).drop_first() =~= all.subrange(
            i + 1,
            all.len() as int,
        ));
        i += 1;
    }
    i
}

pub(crate) proof fn lemma_slot_position<T>(slots: Seq<Slot<T>>, name: Seq<char>)
    ensures
        0 <= slot_position(slots, name) <= slots.len(),
        slot_position(slots, name) < slots.len() ==> slots[slot_position(slots, name)].name@ == name,
    decreases slots.len(),
{
    if slots.len() > 0 && slots[0].name@ != name {
        lemma_slot_position(slots.drop_first(), name);
    }
}

proof fn lemma_slot_update<T>(slots: Seq<Slot<T>>, i: int, new: Slot<T>, name: Seq<char>)
    requires
        0 <= i < slots.len(),
        slots[i].name@ == new.name@,
    ensures
        slot_position(slots.update(i, new), name) == slot_position(slots, name),
    decreases slots.len(),
{
    let u = slots.update(i, new);
    if i > 0 {
        assert(u.drop_first() =~= slots.drop_first().update(i - 1, new));
        lemma_slot_update(slots.drop_first(), i - 1, new, name);
    } else {
        assert(u.drop_first() =~= slots.drop_first());
    }
}

proof fn lemma_slot_push<T>(slots: Seq<Slot<T>>, new: Slot<T>, name: Seq<char>)
    ensures
        slot_position(slots.push(new), name) == (if slot_position(slots, name) < slots.len() {
            slot_position(slots, name)
        } else if new.name@ == name {
            slots.len() as int
        } else {
            slots.len() as int + 1
        }),
    decreases slots.len(),
{
    let u = slots.push(new);
    lemma_slot_position(slots, name);
    if slots.len() > 0 {
        assert(u.drop_first() =~= slots.drop_first().push(new));
        lemma_slot_push(slots.drop_first(), new, name);
        lemma_slot_position(slots.drop_first(), name);
    } else {
        assert(u.drop_first() =~= slots);
        reveal_with_fuel(slot_position, 2);
    }
}

/// Puts a value under a name, in place of the one that was there.
pub fn put_slot<T>(slots: &mut Vec<Slot<T>>, name: &str, value: T)
    ensures
        slot_put(old(slots)@, final(slots)@, name@, value),
        slot_value(final(slots)@, name@) == Some(value),
        forall|n: Seq<char>|
            n != name@ ==> #[trigger] slot_value(final(slots)@, n) == slot_value(old(slots)@, n),
{
    let ghost before = slots@;
    let i = find_slot(slots, name);
    let slot = Slot { name: name.to_owned(), value };
    let ghost new = slot;
    if i < slots.len() {
        slots.set(i, slot);
        proof {
            assert forall|n: Seq<char>| #[trigger] slot_position(slots@, n) == slot_position(
                before,
                n,
            ) by {
                lemma_slot_update(before, i as int, new, n);
            }
            assert forall|n: Seq<char>| n != name@ implies #[trigger] slot_value(slots@, n)
                == slot_value(before, n) by {
                lemma_slot_position(before, n);
                assert(slot_position(slots@, n) == slot_position(before, n));
            }
            assert(slot_position(slots@, name@) == i);
        }
    } else {
        slots.push(slot);
        proof {
            assert forall|n: Seq<char>| n != name@ implies #[trigger] slot_value(slots@, n)
                == slot_value(before, n) by {
                lemma_slot_push(before, new, n);
                lemma_slot_position(before, n);
            }
            lemma_slot_push(before, new, name@);
        }
    }
}

proof fn lemma_slot_without<T>(slots: Seq<Slot<T>>, gone: Seq<char>, name: Seq<char>)
    ensures
        ({
            let left = slots_without(slots, gone);
            if name == gone {
                slot_value(left, name) is None
            } else {
                slot_value(left, name) == slot_value(slots, name)
            }
        }),
    decreases slots.len(),
{
    let left = slots_without(slots, gone);
    reveal(Seq::filter);
    if slots.len() == 0 {
        assert(left =~= Seq::<Slot<T>>::empty());
    } else {
        let front = slots.drop_last();
        let last = slots.last();
        lemma_slot_without(front, gone, name);
        lemma_slot_position(front, name);
        assert(slots =~= front.push(last));
        lemma_slot_push(front, last, name);
        let rest = slots_without(front, gone);
        lemma_slot_position(rest, name);
        if last.name@ != gone {
            assert(left == rest.push(last));
            lemma_slot_push(rest, last, name);
        }
    }
}

/// Empties the slots of a name.
pub fn drop_slot<T>(slots: &mut Vec<Slot<T>>, name: &str)
    ensures
        final(slots)@ == slots_without(old(slots)@, name@),
        slot_value(final(slots)@, name@) is None,
        forall|n: Seq<char>|
            n != name@ ==> #[trigger] slot_value(final(slots)@, n) == slot_value(old(slots)@, n),
{
    let ghost before = slots@;
    let ghost gone = name@;
    let ghost mut taken: int = 0;
    let mut i: usize = 0;
    proof {
        reveal(Seq::filter);
        assert(before.subrange(0, 0) =~= Seq::<Slot<T>>::empty());
        assert(before.subrange(0, before.len() as int) =~= before);
        assert(slots@ =~= Seq::<Slot<T>>::empty() + before);
    }
    while i < slots.len()
        invariant
            i <= slots@.len(),
            gone == name@,
            0 <= taken <= before.len(),
            slots@ == slots_without(before.subrange(0, taken), gone) + before.subrange(
                taken,
                before.len() as int,
            ),
            i == slots_without(before.subrange(0, taken), gone).len(),
        decreases slots@.len() - i,
    {
        let ghost head = before.subrange(0, taken);
        let ghost more = before.subrange(0, taken + 1);
        let ghost tail = before.subrange(taken, before.len() as int);
        let ghost now = slots@;
        proof {
            reveal(Seq::filter);
            assert(now[i as int] == tail[0]);
            assert(tail[0] == before[taken]);
            assert(more.drop_last() =~= head);
        }
        if same_text(slots[i].name.as_str(), name) {
            let _ = slots.remove(i);
            assert(slots@ =~= slots_without(more, gone) + before.subrange(
                taken + 1,
                before.len() as int,
            ));
        } else {
            i += 1;
            assert(slots@ =~= slots_without(more, gone) + before.subrange(
                taken + 1,
                before.len() as int,
            ));
        }
        proof {
            taken = taken + 1;
        }
    }
    proof {
        assert(before.subrange(0, taken) =~= before);
        assert(slots@ =~= slots_without(before, gone));
        lemma_slot_without(before, gone, gone);
        assert forall|n: Seq<char>| n != gone implies #[trigger] slot_value(slots@, n)
            == slot_value(before, n) by {
            lemma_slot_without(before, gone, n);
        }
    }
}

/// Putting a value under a name and emptying the slots of a name make no second slot of a
/// name.
pub proof fn lemma_one_slot_each<T>(
    before: Seq<Slot<T>>,
    after: Seq<Slot<T>>,
    name: Seq<char>,
    value: T,
)
    requires
        slots_differ(before),
        slot_put(before, after, name, value) || after == slots_without(before, name),
    ensures
        slots_differ(after),
{
    if slot_put(before, after, name, value) {
        lemma_slot_position(before, name);
        lemma_slot_first(before, name);
    } else {
        lemma_without_keeps_names(before, name);
    }
}

proof fn lemma_slot_first<T>(slots: Seq<Slot<T>>, name: Seq<char>)
    ensures
        forall|j: int| 0 <= j < slot_position(slots, name) ==> (#[trigger] slots[j]).name@ != name,
    decreases slots.len(),
{
    if slots.len() > 0 && slots[0].name@ != name {
        let rest = slots.drop_first();
        lemma_slot_first(rest, name);
        lemma_slot_position(rest, name);
        assert forall|j: int| 0 <= j < slot_position(slots, name) implies (
        #[trigger] slots[j]).name@ != name by {
            if j > 0 {
                assert(rest[j - 1] == slots[j]);
            }
        }
    }
}

pub(crate) proof fn lemma_without_keeps_names<T>(slots: Seq<Slot<T>>, gone: Seq<char>)
    requires
        slots_differ(slots),
    ensures
        slots_differ(slots_without(slots, gone)),
        forall|k: int|
            0 <= k < slots_without(slots, gone).len() ==> slots.contains(
                #[trigger] slots_without(slots, gone)[k],
            ),
    decreases slots.len(),
{
    reveal(Seq::filter);
    if slots.len() > 0 {
        let front = slots.drop_last();
        assert forall|i: int, j: int| 0 <= i < j < front.len() implies (
        #[trigger] front[i]).name@ != (#[trigger] front[j]).name@ by {
            assert(front[i] == slots[i] && front[j] == slots[j]);
        }
        lemma_without_keeps_names(front, gone);
        let rest = slots_without(front, gone);
        let left = slots_without(slots, gone);
        assert forall|k: int| 0 <= k < left.len() implies slots.contains(#[trigger] left[k]) by {
            if k < rest.len() {
                assert(front.contains(rest[k]));
                let t = choose|t: int| 0 <= t < front.len() && front[t] == rest[k];
                assert(slots[t] == left[k]);
            } else {
                assert(slots[slots.len() - 1] == left[k]);
            }
        }
        assert forall|i: int, j: int| 0 <= i < j < left.len() implies (#[trigger] left[i]).name@
            != (#[trigger] left[j]).name@ by {
            assert(left[i] == rest[i]);
            if j < rest.len() {
                assert(left[j] == rest[j]);
            } else {
                assert(front.contains(rest[i]));
                let t = choose|t: int| 0 <= t < front.len() && front[t] == rest[i];
                assert(slots[t].name@ != slots[slots.len() - 1].name@);
            }
        }
    }
}

/// No slot of the name is left.
pub proof fn lemma_slots_without<T>(slots: Seq<Slot<T>>, name: Seq<char>)
    ensures
        forall|k: int|
            0 <= k < slots_without(slots, name).len() ==> (#[trigger] slots_without(
                slots,
                name,
            )[k]).name@ != name,
    decreases slots.len(),
{
    reveal(Seq::filter);
    if slots.len() > 0 {
        lemma_slots_without(slots.drop_last(), name);
        let rest = slots_without(slots.drop_last(), name);
        let left = slots_without(slots, name);
        assert forall|k: int| 0 <= k < left.len() implies (#[trigger] left[k]).name@ != name by {
            if k < rest.len() {
                assert(left[k] == rest[k]);
            }
        }
    }
}

/// A value that was put under a name is found under it, in place of the one that was there, and every
/// other name finds what it found.
pub proof fn lemma_put_value_is_found<T>(
    before: Seq<Slot<T>>,
    after: Seq<Slot<T>>,
    name: Seq<char>,
    value: T,
    other: Seq<char>,
)
    requires
        slot_put(before, after, name, value),
        other != name,
    ensures
        slot_value(after, name) == Some(value),
        slot_value(after, other) == slot_value(before, other),
{
    let i = slot_position(before, name);
    lemma_slot_position(before, name);
    lemma_slot_position(before, other);
    if i < before.len() {
        lemma_slot_update(before, i, after[i], name);
        lemma_slot_update(before, i, after[i], other);
    } else {
        lemma_slot_push(before, after[i], name);
        lemma_slot_push(before, after[i], other);
    }
}

/// What is found under a name is the first value that has it.
pub proof fn lemma_first_of_a_name_is_found<T>(slots: Seq<Slot<T>>, name: Seq<char>, i: int)
    requires
        0 <= i <= slots.len(),
        forall|j: int| 0 <= j < i ==> (#[trigger] slots[j]).name@ != name,
    ensures
        i < slots.len() && slots[i].name@ == name ==> slot_value(slots, name) == Some(slots[i].value),
        i == slots.len() ==> slot_value(slots, name) is None,
{
    lemma_slot_position(slots, name);
    lemma_slot_first(slots, name);
    let k = slot_position(slots, name);
    if k < i {
        assert(slots[k].name@ != name);
    }
    if i < slots.len() && slots[i].name@ == name && i < k {
        assert(slots[i].name@ != name);
    }
}

} // verus!
