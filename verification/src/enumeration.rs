//! An enumeration is a sequence of ids together with a reverse index that
//! tells where each id stands. Ids are appended at the end and removed from
//! anywhere, both in constant time.

use crate::primitives::H256;
use crate::state::swap_and_pop;
use crate::store::HashStore;
use vstd::prelude::*;

verus! {

/// `index` tells of every entry of `items` where it stands.
pub open spec fn indexed(items: Seq<H256>, index: Map<H256, u64>) -> bool {
    forall|i: int|
        0 <= i < items.len() ==> index.contains_key(#[trigger] items[i]) && index[items[i]] == i
}

/// The reverse index after the entry at `idx` left `items` by swap-and-pop:
/// the entry that was last now stands at `idx`, and the removed one is gone.
pub open spec fn index_after_removal(items: Seq<H256>, index: Map<H256, u64>, idx: int) -> Map<
    H256,
    u64,
> {
    if idx == items.len() - 1 {
        index.remove(items[idx])
    } else {
        index.insert(items.last(), idx as u64).remove(items[idx])
    }
}

/// An indexed sequence holds no id twice, and holds an id exactly where the
/// index says.
pub proof fn lemma_indexed(items: Seq<H256>, index: Map<H256, u64>)
    requires
        indexed(items, index),
    ensures
        items.no_duplicates(),
        forall|id: H256| #[trigger]
            items.contains(id) ==> index.contains_key(id) && index[id] < items.len()
                && items[index[id] as int] == id,
{
    assert forall|i: int, j: int|
        0 <= i < items.len() && 0 <= j < items.len() && i != j implies items[i] != items[j] by {
        assert(index[items[i]] == i);
        assert(index[items[j]] == j);
    }
    assert forall|id: H256| #[trigger] items.contains(id) implies index.contains_key(id)
        && index[id] < items.len() && items[index[id] as int] == id by {
        let i = choose|i: int| 0 <= i < items.len() && items[i] == id;
        assert(index[items[i]] == i);
    }
}

/// Appending an id that the index does not know keeps the sequence indexed.
pub proof fn lemma_append_indexed(items: Seq<H256>, index: Map<H256, u64>, id: H256)
    requires
        indexed(items, index),
        !index.contains_key(id),
        items.len() < u64::MAX,
    ensures
        indexed(items.push(id), index.insert(id, items.len() as u64)),
{
    let pushed = items.push(id);
    let index_2 = index.insert(id, items.len() as u64);
    assert forall|i: int| 0 <= i < pushed.len() implies index_2.contains_key(#[trigger] pushed[i])
        && index_2[pushed[i]] == i by {
        if i < items.len() {
            assert(index.contains_key(items[i]));
        }
    }
}

/// Removing by swap-and-pop keeps the sequence indexed.
pub proof fn lemma_removal_indexed(items: Seq<H256>, index: Map<H256, u64>, idx: int)
    requires
        indexed(items, index),
        0 <= idx < items.len(),
        items.len() <= u64::MAX,
    ensures
        indexed(swap_and_pop(items, idx), index_after_removal(items, index, idx)),
{
    lemma_indexed(items, index);
    let popped = swap_and_pop(items, idx);
    let index_2 = index_after_removal(items, index, idx);
    assert forall|i: int| 0 <= i < popped.len() implies index_2.contains_key(#[trigger] popped[i])
        && index_2[popped[i]] == i by {
        if i == idx {
            assert(popped[i] == items[items.len() - 1]);
        } else {
            assert(popped[i] == items[i]);
            assert(index[items[i]] == i);
        }
    }
}

/// A sequence stays indexed when the index changes only at ids that the
/// sequence does not hold.
pub proof fn lemma_indexed_frame(items: Seq<H256>, index: Map<H256, u64>, index_2: Map<H256, u64>)
    requires
        indexed(items, index),
        forall|id: H256| #[trigger]
            items.contains(id) ==> index_2.contains_key(id) && index_2[id] == index[id],
    ensures
        indexed(items, index_2),
{
    assert forall|i: int| 0 <= i < items.len() implies index_2.contains_key(#[trigger] items[i])
        && index_2[items[i]] == i by {
        assert(items.contains(items[i]));
    }
}

/// Appends `id` to `items` and records its position in `index`.
pub fn append(items: &mut Vec<H256>, index: &mut HashStore<u64>, id: H256)
    requires
        old(index).wf(),
        old(items)@.len() < u64::MAX,
    ensures
        final(index).wf(),
        final(items)@ == old(items)@.push(id),
        final(index)@ == old(index)@.insert(id, old(items)@.len() as u64),
{
    let at: u64 = items.len() as u64;
    items.push(id);
    index.insert(id, at);
}

/// Removes `id` from `items` in constant time: the last entry moves into
/// its slot, the reverse index follows, and the trailing slot is dropped.
pub fn remove(items: &mut Vec<H256>, index: &mut HashStore<u64>, id: H256)
    requires
        old(index).wf(),
        indexed(old(items)@, old(index)@),
        old(items)@.contains(id),
    ensures
        final(index).wf(),
        final(items)@ == swap_and_pop(old(items)@, old(index)@[id] as int),
        final(index)@ == index_after_removal(old(items)@, old(index)@, old(index)@[id] as int),
{
    proof {
        lemma_indexed(items@, index@);
    }
    let idx: usize = match index.get(&id) {
        Some(i) => i as usize,
        None => {
            return;
        },
    };
    let last: usize = items.len() - 1;
    if idx != last {
        let last_id = items[last];
        items[idx] = last_id;
        index.insert(last_id, idx as u64);
    }
    items.pop();
    index.remove(&id);
    proof {
        assert(items@ =~= swap_and_pop(old(items)@, idx as int));
    }
}

} // verus!
