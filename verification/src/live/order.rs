//! The order in which the contents of a block are listed.

use vstd::prelude::*;

verus! {

/// What an entry is listed by: compared from the left, the first difference decides.
pub type OrderKey = (u8, u64, u64, u64);

/// `a` is listed before `b`.
pub open spec fn key_before(a: OrderKey, b: OrderKey) -> bool {
    ||| a.0 < b.0
    ||| a.0 == b.0 && a.1 < b.1
    ||| a.0 == b.0 && a.1 == b.1 && a.2 < b.2
    ||| a.0 == b.0 && a.1 == b.1 && a.2 == b.2 && a.3 < b.3
}

fn is_before(a: OrderKey, b: OrderKey) -> (before: bool)
    ensures
        before == key_before(a, b),
{
    a.0 < b.0 || (a.0 == b.0 && (a.1 < b.1 || (a.1 == b.1 && (a.2 < b.2 || (a.2 == b.2 && a.3
        < b.3)))))
}

/// The numbers ascend, so that none occurs twice.
pub open spec fn ascends(numbers: Seq<u64>) -> bool {
    forall|i: int, j: int| 0 <= i < j < numbers.len() ==> numbers[i] < numbers[j]
}

/// Puts `number` where it belongs among ascending `numbers`, unless it is there.
pub(crate) fn insert_number(numbers: &mut Vec<u64>, number: u64)
    requires
        ascends(old(numbers)@),
    ensures
        ascends(final(numbers)@),
        forall|other: u64| #[trigger]
            final(numbers)@.contains(other) <==> old(numbers)@.contains(other) || other == number,
{
    let mut at: usize = 0;
    while at < numbers.len() && numbers[at] < number
        invariant
            at <= numbers.len(),
            forall|i: int| 0 <= i < at ==> numbers@[i] < number,
        decreases numbers.len() - at,
    {
        at += 1;
    }
    let ghost before = numbers@;
    if at < numbers.len() && numbers[at] == number {
        assert(before.contains(before[at as int]));
        return;
    }
    numbers.insert(at, number);
    proof {
        let after = numbers@;
        assert forall|other: u64| #[trigger]
            after.contains(other) <==> before.contains(other) || other == number by {
            if before.contains(other) {
                let i = choose|i: int| 0 <= i < before.len() && before[i] == other;
                assert(after[if i < at { i } else { i + 1 }] == other);
            }
            if after.contains(other) {
                let i = choose|i: int| 0 <= i < after.len() && after[i] == other;
                if i != at {
                    assert(before[if i < at { i } else { i - 1 }] == other);
                }
            }
            assert(after[at as int] == number);
        }
    }
}

/// What can be listed in a block.
pub trait Listed {
    spec fn key(&self) -> OrderKey;

    fn order_key(&self) -> (key: OrderKey)
        ensures
            key == self.key(),
    ;
}

/// Every item is listed before those that follow it.
pub open spec fn listed_in_order<T: Listed>(items: Seq<T>) -> bool {
    forall|i: int, j: int|
        0 <= i < j < items.len() ==> key_before((#[trigger] items[i]).key(), (#[trigger] items[j]).key())
}

/// The items that references point to.
pub open spec fn items_of<T>(references: Seq<&T>) -> Seq<T> {
    references.map_values(|item: &T| *item)
}

/// Puts `item` where its key belongs among `items`.
pub(crate) fn insert_in_order<'a, T: Listed>(items: &mut Vec<&'a T>, item: &'a T)
    requires
        listed_in_order(items_of(old(items)@)),
        forall|i: int| 0 <= i < old(items)@.len() ==> (#[trigger] old(items)@[i]).key() != item.key(),
    ensures
        listed_in_order(items_of(final(items)@)),
        exists|at: int|
            0 <= at <= old(items)@.len() && final(items)@ == #[trigger] old(items)@.insert(at, item),
{
    let key = item.order_key();
    let mut at: usize = 0;
    let ghost before = items_of(items@);
    while at < items.len() && is_before(items[at].order_key(), key)
        invariant
            at <= items.len(),
            before == items_of(items@),
            key == item.key(),
            forall|i: int| 0 <= i < at ==> key_before((#[trigger] before[i]).key(), key),
        decreases items.len() - at,
    {
        assert(before[at as int] == *items@[at as int]);
        at += 1;
    }
    let ghost old_items = items@;
    proof {
        assert forall|i: int| at <= i < before.len() implies key_before(
            key,
            (#[trigger] before[i]).key(),
        ) by {
            assert(before[at as int] == *old_items[at as int]);
            assert(old_items[at as int].key() != item.key());
            if at < i {
                assert(key_before(before[at as int].key(), before[i].key()));
            }
        }
    }
    items.insert(at, item);
    proof {
        let after = items_of(items@);
        assert(items@ == old_items.insert(at as int, item));
        assert forall|i: int, j: int| 0 <= i < j < after.len() implies key_before(
            (#[trigger] after[i]).key(),
            (#[trigger] after[j]).key(),
        ) by {
            if i < at {
                assert(after[i] == before[i]);
            } else if i > at {
                assert(after[i] == before[i - 1]);
            }
            if j < at {
                assert(after[j] == before[j]);
            } else if j > at {
                assert(after[j] == before[j - 1]);
            }
        }
    }
}

/// Two listings of the same items are the same listing.
pub proof fn lemma_listing_is_unique<T: Listed>(a: Seq<T>, b: Seq<T>)
    requires
        listed_in_order(a),
        listed_in_order(b),
        forall|item: T| #[trigger] a.contains(item) <==> b.contains(item),
    ensures
        a == b,
    decreases a.len(),
{
    if a.len() == 0 {
        if b.len() > 0 {
            assert(b.contains(b[0]));
            assert(a.contains(b[0]));
        }
        assert(a =~= b);
    } else {
        assert(a.contains(a.last()));
        let last = a.last();
        let at = choose|i: int| 0 <= i < b.len() && b[i] == last;
        assert(b.contains(b.last()));
        assert(a.contains(b.last()));
        let back = choose|i: int| 0 <= i < a.len() && a[i] == b.last();
        if at < b.len() - 1 {
            assert(key_before(b[at].key(), b[b.len() - 1].key()));
            if back < a.len() - 1 {
                assert(key_before(a[back].key(), a[a.len() - 1].key()));
            }
            assert(false);
        }
        let a0 = a.drop_last();
        let b0 = b.drop_last();
        assert(listed_in_order(a0));
        assert(listed_in_order(b0));
        assert forall|item: T| #[trigger] a0.contains(item) <==> b0.contains(item) by {
            if a0.contains(item) {
                let i = choose|i: int| 0 <= i < a0.len() && a0[i] == item;
                assert(a[i] == item);
                assert(a.contains(item));
                let j = choose|j: int| 0 <= j < b.len() && b[j] == item;
                if j == b.len() - 1 {
                    assert(key_before(a[i].key(), a[a.len() - 1].key()));
                }
                assert(b0[j] == item);
            }
            if b0.contains(item) {
                let j = choose|j: int| 0 <= j < b0.len() && b0[j] == item;
                assert(b[j] == item);
                assert(b.contains(item));
                assert(a.contains(item));
                let i = choose|i: int| 0 <= i < a.len() && a[i] == item;
                if i == a.len() - 1 {
                    assert(key_before(b[j].key(), b[b.len() - 1].key()));
                }
                assert(a0[i] == item);
            }
        }
        lemma_listing_is_unique(a0, b0);
        assert(a =~= a0.push(last));
        assert(b =~= b0.push(b.last()));
    }
}

} // verus!
