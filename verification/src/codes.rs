//! Sets of exit codes and their ascending order.

use vstd::prelude::*;
use vstd::std_specs::iter::IteratorSpec;
use std::collections::BTreeSet;

verus! {

broadcast use vstd::std_specs::btree::group_btree_axioms;

/// Whether the codes ascend without repetition.
pub open spec fn codes_ascend(codes: Seq<u32>) -> bool {
    forall|i: int, j: int| 0 <= i < j < codes.len() ==> #[trigger] codes[i] < #[trigger] codes[j]
}

/// The codes of a set in ascending order.
pub open spec fn ascending_codes(codes: Set<u32>) -> Seq<u32> {
    choose|order: Seq<u32>| codes_ascend(order) && #[trigger] order.to_set() == codes
}

/// A set has only one ascending order.
pub proof fn lemma_ascending_order_is_unique(a: Seq<u32>, b: Seq<u32>)
    requires
        codes_ascend(a),
        codes_ascend(b),
        a.to_set() == b.to_set(),
    ensures
        a == b,
    decreases a.len(),
{
    if a.len() == 0 {
        if b.len() > 0 {
            assert(b.to_set().contains(b[0]));
            assert(a.to_set().contains(b[0]));
        }
        assert(a =~= b);
    } else {
        assert(a.to_set().contains(a.last()));
        assert(b.to_set().contains(a.last()));
        let k = choose|k: int| 0 <= k < b.len() && b[k] == a.last();
        assert(b.to_set().contains(b.last()));
        assert(a.to_set().contains(b.last()));
        let m = choose|m: int| 0 <= m < a.len() && a[m] == b.last();
        assert(a[m] <= a.last());
        assert(b[k] <= b.last());
        assert(a.last() == b.last());
        let rest_a = a.drop_last();
        let rest_b = b.drop_last();
        assert forall|code: u32| rest_a.to_set().contains(code) == rest_b.to_set().contains(
            code,
        ) by {
            if rest_a.contains(code) {
                let i = choose|i: int| 0 <= i < rest_a.len() && rest_a[i] == code;
                assert(a[i] == code);
                assert(a[i] < a[a.len() - 1]);
                assert(a.to_set().contains(code));
                assert(b.to_set().contains(code));
                let j = choose|j: int| 0 <= j < b.len() && b[j] == code;
                assert(rest_b[j] == code);
            }
            if rest_b.contains(code) {
                let i = choose|i: int| 0 <= i < rest_b.len() && rest_b[i] == code;
                assert(b[i] == code);
                assert(b[i] < b[b.len() - 1]);
                assert(b.to_set().contains(code));
                assert(a.to_set().contains(code));
                let j = choose|j: int| 0 <= j < a.len() && a[j] == code;
                assert(rest_a[j] == code);
            }
        }
        assert(rest_a.to_set() =~= rest_b.to_set());
        lemma_ascending_order_is_unique(rest_a, rest_b);
        assert(a =~= rest_a.push(a.last()));
        assert(b =~= rest_b.push(b.last()));
    }
}

/// Puts a code in its place.
fn place_code(order: &mut Vec<u32>, code: u32)
    requires
        codes_ascend(old(order)@),
    ensures
        codes_ascend(final(order)@),
        final(order)@.to_set() == old(order)@.to_set().insert(code),
{
    let ghost before = order@;
    let mut index: usize = order.len();
    while index > 0 && order[index - 1] > code
        invariant
            index <= order.len(),
            order@ == before,
            codes_ascend(before),
            forall|i: int| index <= i < before.len() ==> code < #[trigger] before[i],
        decreases index,
    {
        index -= 1;
    }
    if index > 0 && order[index - 1] == code {
        assert(before.to_set().contains(before[index - 1]));
        assert(before.to_set() =~= before.to_set().insert(code));
        return ;
    }
    order.insert(index, code);
    proof {
        let after = order@;
        assert(after == before.insert(index as int, code));
        assert forall|i: int| 0 <= i < index implies #[trigger] before[i] < code by {
            assert(before[i] <= before[index - 1]);
        }
        assert forall|i: int, j: int| 0 <= i < j < after.len() implies #[trigger] after[i]
            < #[trigger] after[j] by {
            let a = if i < index {
                i
            } else {
                i - 1
            };
            let b = if j < index {
                j
            } else {
                j - 1
            };
            if i != index && j != index {
                assert(before[a] < before[b]);
            } else if i == index {
                assert(code < before[b]);
            } else {
                assert(before[a] < code);
            }
        }
        assert forall|c: u32| after.to_set().contains(c) == before.to_set().insert(
            code,
        ).contains(c) by {
            if after.contains(c) {
                let i = choose|i: int| 0 <= i < after.len() && after[i] == c;
                if i < index {
                    assert(before[i] == c);
                } else if i > index {
                    assert(before[i - 1] == c);
                }
            }
            if before.contains(c) {
                let i = choose|i: int| 0 <= i < before.len() && before[i] == c;
                if i < index {
                    assert(after[i] == c);
                } else {
                    assert(after[i + 1] == c);
                }
            }
            if c == code {
                assert(after[index as int] == c);
            }
        }
        assert(after.to_set() =~= before.to_set().insert(code));
    }
}

/// The codes of a set in ascending order.
pub fn list_codes(codes: &BTreeSet<u32>) -> (order: Vec<u32>)
    ensures
        codes_ascend(order@),
        order@.to_set() == codes@,
        order@ == ascending_codes(codes@),
{
    let mut order: Vec<u32> = Vec::new();
    assert(order@.to_set() =~= Set::<u32>::empty());
    for code in iter: codes.iter()
        invariant
            iter.seq() == codes.iter().remaining(),
            codes_ascend(order@),
            order@.to_set() == iter.seq().unref().take(iter.index() as int).to_set(),
    {
        let ghost done = iter.seq().unref().take(iter.index() as int);
        let ghost more = iter.seq().unref().take(iter.index() + 1);
        place_code(&mut order, *code);
        proof {
            assert(more =~= done.push(*code));
            assert forall|c: u32| more.to_set().contains(c) == done.to_set().insert(
                *code,
            ).contains(c) by {
                if more.contains(c) {
                    let i = choose|i: int| 0 <= i < more.len() && more[i] == c;
                    if i < done.len() {
                        assert(done[i] == c);
                    }
                }
                if done.contains(c) {
                    let i = choose|i: int| 0 <= i < done.len() && done[i] == c;
                    assert(more[i] == c);
                }
                assert(more[done.len() as int] == *code);
            }
            assert(more.to_set() =~= done.to_set().insert(*code));
        }
    }
    proof {
        let all = codes.iter().remaining().unref();
        assert(all.take(all.len() as int) =~= all);
        lemma_ascending_order_is_unique(order@, ascending_codes(codes@));
    }
    order
}

/// The set of some codes.
pub fn collect_codes(list: &Vec<u32>) -> (codes: BTreeSet<u32>)
    ensures
        codes@ == list@.to_set(),
{
    let mut codes: BTreeSet<u32> = BTreeSet::new();
    let mut index: usize = 0;
    assert(list@.take(0).to_set() =~= Set::<u32>::empty());
    while index < list.len()
        invariant
            index <= list.len(),
            codes@ == list@.take(index as int).to_set(),
        decreases list.len() - index,
    {
        codes.insert(list[index]);
        proof {
            let done = list@.take(index as int);
            let more = list@.take(index + 1);
            assert(more =~= done.push(list@[index as int]));
            assert forall|c: u32| more.to_set().contains(c) == done.to_set().insert(
                list@[index as int],
            ).contains(c) by {
                if more.contains(c) {
                    let i = choose|i: int| 0 <= i < more.len() && more[i] == c;
                    if i < done.len() {
                        assert(done[i] == c);
                    }
                }
                if done.contains(c) {
                    let i = choose|i: int| 0 <= i < done.len() && done[i] == c;
                    assert(more[i] == c);
                }
                assert(more[done.len() as int] == list@[index as int]);
            }
            assert(more.to_set() =~= done.to_set().insert(list@[index as int]));
        }
        index += 1;
    }
    assert(list@.take(index as int) =~= list@);
    codes
}

} // verus!
