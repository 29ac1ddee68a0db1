//! Facts that hold across calls of the pool and the block.
use crate::block::BlockView;
use crate::pool::admits;
use vstd::prelude::*;

verus! {

/// The records of a pool that started empty and then took the first `n` of
/// `keys`, each with the record at the same place in `blocks`.
pub open spec fn filled(keys: Seq<Seq<char>>, blocks: Seq<BlockView>, n: nat) -> Map<
    Seq<char>,
    BlockView,
>
    decreases n,
{
    if n == 0 {
        Map::empty()
    } else {
        filled(keys, blocks, (n - 1) as nat).insert(keys[n - 1], blocks[n - 1])
    }
}

/// No key occurs twice in `keys`.
pub open spec fn distinct(keys: Seq<Seq<char>>) -> bool {
    forall|i: int, j: int| 0 <= i < keys.len() && 0 <= j < keys.len() && i != j ==> keys[i] != keys[j]
}

proof fn lemma_filled_keys(keys: Seq<Seq<char>>, blocks: Seq<BlockView>, n: nat)
    requires
        distinct(keys),
        n <= keys.len(),
        n <= blocks.len(),
    ensures
        filled(keys, blocks, n).dom().finite(),
        filled(keys, blocks, n).len() == n,
        forall|k: Seq<char>|
            #[trigger] filled(keys, blocks, n).contains_key(k) <==> exists|i: int|
                0 <= i < n && keys[i] == k,
    decreases n,
{
    if n > 0 {
        let m = (n - 1) as nat;
        lemma_filled_keys(keys, blocks, m);
        let k = keys[m as int];
        assert(!filled(keys, blocks, m).contains_key(k));
        assert forall|x: Seq<char>| #[trigger] filled(keys, blocks, n).contains_key(x) <==> exists|i: int|
            0 <= i < n && keys[i] == x by {
            if x == k {
                assert(0 <= m < n && keys[m as int] == x);
            }
            if exists|i: int| 0 <= i < n && keys[i] == x {
                let i = choose|i: int| 0 <= i < n && keys[i] == x;
                if i < m {
                    assert(filled(keys, blocks, m).contains_key(x));
                }
            }
        }
    }
}

/// A pool of capacity `capacity` takes `capacity` allocations under distinct
/// keys, one after the other, and then holds `capacity` blocks and refuses the
/// next allocation, whatever its key.
pub proof fn lemma_fill_to_capacity(capacity: nat, keys: Seq<Seq<char>>, blocks: Seq<BlockView>)
    requires
        keys.len() == capacity,
        blocks.len() == capacity,
        distinct(keys),
    ensures
        forall|n: nat| n < capacity ==> admits(#[trigger] filled(keys, blocks, n), capacity),
        filled(keys, blocks, capacity).len() == capacity,
        !admits(filled(keys, blocks, capacity), capacity),
{
    assert forall|n: nat| n < capacity implies admits(#[trigger] filled(keys, blocks, n), capacity) by {
        lemma_filled_keys(keys, blocks, n);
    }
    lemma_filled_keys(keys, blocks, capacity);
}

/// Allocating under a key that is already there replaces its block and leaves
/// the number of blocks as it was.
pub proof fn lemma_reallocation_replaces(
    entries: Map<Seq<char>, BlockView>,
    key: Seq<char>,
    block: BlockView,
)
    requires
        entries.dom().finite(),
        entries.contains_key(key),
    ensures
        entries.insert(key, block).len() == entries.len(),
        entries.insert(key, block)[key] == block,
        entries.insert(key, block).remove(key) == entries.remove(key),
{
    assert(entries.insert(key, block).remove(key) =~= entries.remove(key));
    assert(entries.insert(key, block).dom() =~= entries.dom());
}

/// Taking a block out of a pool makes room for an allocation, even in a full
/// pool: the key can be allocated again at once.
pub proof fn lemma_deallocation_makes_room(
    entries: Map<Seq<char>, BlockView>,
    capacity: nat,
    key: Seq<char>,
)
    requires
        entries.dom().finite(),
        entries.len() <= capacity,
        entries.contains_key(key),
    ensures
        admits(entries.remove(key), capacity),
{
}

/// After `n` accesses a block has counted `n` more, and its creation time and
/// tag are as they were.
pub proof fn lemma_access_counts(b: BlockView, n: nat)
    ensures
        b.accessed_times(n) == (BlockView { access_count: b.access_count + n, ..b }),
    decreases n,
{
    if n > 0 {
        lemma_access_counts(b, (n - 1) as nat);
    }
}

/// A block made at `created_at` under `tag` has, after `n` accesses, an access
/// count of `n`, and still its creation time and tag.
pub proof fn lemma_fresh_block_accesses(created_at: u64, tag: Seq<char>, n: nat)
    ensures
        BlockView::fresh(created_at, tag).accessed_times(n).access_count == n,
        BlockView::fresh(created_at, tag).accessed_times(n).created_at == created_at,
        BlockView::fresh(created_at, tag).accessed_times(n).tag == tag,
{
    lemma_access_counts(BlockView::fresh(created_at, tag), n);
}

} // verus!
