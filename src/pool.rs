//! A bounded, keyed collection of blocks.
use crate::block::{BlockView, SafeBlock};
use crate::clock::{unix_nanos, unix_seconds};
use crate::tag::{block_tag, format_tag};
use vstd::prelude::*;

verus! {

/// The error that `allocate` returns when the pool is full.
pub const CAPACITY_EXCEEDED: &'static str = "Memory pool capacity exceeded";

/// The error that `allocate` returns when the wall clock reads before the Unix
/// epoch, so that no block can be stamped; callers are to treat it as fatal.
pub const CLOCK_BEFORE_EPOCH: &'static str = "System clock reads before the Unix epoch";

/// Whether a pool that holds `entries` and has room for `capacity` blocks
/// takes one more allocation.
pub open spec fn admits(entries: Map<Seq<char>, BlockView>, capacity: nat) -> bool {
    entries.len() < capacity
}

/// Whether `key` is the key of one of `blocks`.
spec fn stored<T>(blocks: Seq<(String, SafeBlock<T>)>, key: Seq<char>) -> bool {
    exists|i: int| 0 <= i < blocks.len() && blocks[i].0@ == key
}

/// Every key of the model is the key of a stored block.
spec fn keys_stored<T>(entries: Map<Seq<char>, BlockView>, blocks: Seq<(String, SafeBlock<T>)>) -> bool {
    forall|k: Seq<char>| #[trigger] entries.contains_key(k) ==> stored(blocks, k)
}

/// A change that keeps the key of every block other than one under `key`, and
/// adds to the model no key but `key`, keeps every key of the model stored,
/// provided `key` stays stored wherever the model keeps it.
proof fn lemma_keys_carried<T>(
    entries: Map<Seq<char>, BlockView>,
    blocks: Seq<(String, SafeBlock<T>)>,
    new_entries: Map<Seq<char>, BlockView>,
    new_blocks: Seq<(String, SafeBlock<T>)>,
    key: Seq<char>,
)
    requires
        keys_stored(entries, blocks),
        forall|x: Seq<char>| #[trigger] new_entries.contains_key(x) ==> x == key || entries.contains_key(x),
        forall|j: int|
            0 <= j < blocks.len() && blocks[j].0@ != key ==> stored(new_blocks, #[trigger] blocks[j].0@),
        new_entries.contains_key(key) ==> stored(new_blocks, key),
    ensures
        keys_stored(new_entries, new_blocks),
{
    assert forall|x: Seq<char>| #[trigger] new_entries.contains_key(x) implies stored(new_blocks, x) by {
        if x != key {
            assert(entries.contains_key(x));
            let j = choose|j: int| 0 <= j < blocks.len() && blocks[j].0@ == x;
            assert(blocks[j].0@ == x);
        }
    }
}

/// At most `capacity` blocks under unique string keys.
///
/// The pool has no lock of its own: `allocate` and `deallocate` take
/// `&mut self`, so callers that share a pool between threads hold it behind
/// one exclusive guard, which serializes these calls. Each block's payload has
/// its own lock.
pub struct MemoryPool<T> {
    blocks: Vec<(String, SafeBlock<T>)>,
    capacity: usize,
    entries: Ghost<Map<Seq<char>, BlockView>>,
}

impl<T> View for MemoryPool<T> {
    type V = Map<Seq<char>, BlockView>;

    /// The record of each block, by key.
    closed spec fn view(&self) -> Map<Seq<char>, BlockView> {
        self.entries@
    }
}

impl<T> MemoryPool<T> {
    /// The number of blocks the pool can hold.
    pub closed spec fn spec_capacity(&self) -> nat {
        self.capacity as nat
    }

    /// The blocks are stored once each, under distinct keys, as the model
    /// says, and there are no more of them than the capacity.
    pub closed spec fn wf(&self) -> bool {
        &&& self.entries@.dom().finite()
        &&& self.entries@.len() == self.blocks@.len()
        &&& self.blocks@.len() <= self.capacity
        &&& forall|i: int, j: int|
            0 <= i < self.blocks@.len() && 0 <= j < self.blocks@.len() && i != j
                ==> self.blocks@[i].0@ != self.blocks@[j].0@
        &&& forall|i: int|
            0 <= i < self.blocks@.len() ==> {
                &&& self.entries@.contains_key(#[trigger] self.blocks@[i].0@)
                &&& self.entries@[self.blocks@[i].0@] == self.blocks@[i].1@
            }
        &&& keys_stored(self.entries@, self.blocks@)
    }

    /// A well-formed pool holds finitely many blocks, and never more than its
    /// capacity.
    pub proof fn lemma_within_capacity(&self)
        requires
            self.wf(),
        ensures
            self@.dom().finite(),
            self@.len() <= self.spec_capacity(),
    {
    }

    /// An empty pool with room for `capacity` blocks; a capacity of zero
    /// makes a pool that is full from the start.
    pub fn new(capacity: usize) -> (r: Self)
        ensures
            r.wf(),
            r@ == Map::<Seq<char>, BlockView>::empty(),
            r.spec_capacity() == capacity,
    {
        MemoryPool { blocks: Vec::new(), capacity, entries: Ghost(Map::empty()) }
    }

    /// The number of blocks in the pool.
    pub fn len(&self) -> (r: usize)
        requires
            self.wf(),
        ensures
            r == self@.len(),
    {
        self.blocks.len()
    }

    /// The number of blocks the pool can hold.
    pub fn capacity(&self) -> (r: usize)
        ensures
            r == self.spec_capacity(),
    {
        self.capacity
    }

    /// Where the block under `key` is stored, if there is one.
    fn position(&self, key: &String) -> (r: Option<usize>)
        requires
            self.wf(),
        ensures
            match r {
                Some(i) => i < self.blocks@.len() && self.blocks@[i as int].0@ == key@,
                None => !self@.contains_key(key@),
            },
    {
        let mut i: usize = 0;
        while i < self.blocks.len()
            invariant
                self.wf(),
                i <= self.blocks@.len(),
                forall|j: int| 0 <= j < i ==> self.blocks@[j].0@ != key@,
            decreases self.blocks@.len() - i,
        {
            if self.blocks[i].0 == *key {
                return Some(i);
            }
            i = i + 1;
        }
        None
    }

    /// Stores `block` under `key`, in place of any block already there.
    fn put(&mut self, key: String, block: SafeBlock<T>)
        requires
            old(self).wf(),
            admits(old(self)@, old(self).spec_capacity()),
        ensures
            final(self).wf(),
            final(self)@ == old(self)@.insert(key@, block@),
            final(self).spec_capacity() == old(self).spec_capacity(),
    {
        let ghost k = key@;
        let ghost b = block@;
        let ghost before = self.blocks@;
        match self.position(&key) {
            Some(i) => {
                self.blocks.set(i, (key, block));
                assert(self.blocks@[i as int].0@ == k);
            },
            None => {
                self.blocks.push((key, block));
                assert(self.blocks@[before.len() as int].0@ == k);
            },
        }
        let ghost entries = self.entries@;
        self.entries = Ghost(entries.insert(k, b));
        assert forall|j: int| 0 <= j < before.len() && before[j].0@ != k implies stored(
            self.blocks@,
            #[trigger] before[j].0@,
        ) by {
            assert(self.blocks@[j].0@ == before[j].0@);
        }
        proof {
            lemma_keys_carried(entries, before, self.entries@, self.blocks@, k);
        }
    }

    /// Makes a block that holds `data` and stores it under `key`.
    ///
    /// The capacity is checked against the number of blocks before the call:
    /// a full pool refuses, and changes nothing, even where `key` is already
    /// there. Otherwise a new block, with an opaque tag made from `key` and a
    /// reading of the clock, takes the place of any block under `key`. A clock
    /// that reads before the Unix epoch gives neither tag nor timestamp: the
    /// call then fails with `CLOCK_BEFORE_EPOCH` and changes nothing.
    pub fn allocate(&mut self, key: String, data: T) -> (r: Result<(), &'static str>)
        requires
            old(self).wf(),
        ensures
            final(self).wf(),
            final(self).spec_capacity() == old(self).spec_capacity(),
            r == Err::<(), &'static str>(CAPACITY_EXCEEDED) <==> !admits(
                old(self)@,
                old(self).spec_capacity(),
            ),
            r is Ok ==> {
                let b = final(self)@[key@];
                &&& final(self)@ == old(self)@.insert(key@, BlockView::fresh(b.created_at, b.tag))
                &&& exists|stamp: nat| b.tag == block_tag(key@, stamp)
            },
            r is Err ==> final(self)@ == old(self)@,
            r is Err && admits(old(self)@, old(self).spec_capacity()) ==> r == Err::<
                (),
                &'static str,
            >(CLOCK_BEFORE_EPOCH),
    {
        if self.blocks.len() >= self.capacity {
            return Err(CAPACITY_EXCEEDED);
        }
        let stamp = match unix_nanos() {
            Some(stamp) => stamp,
            None => return Err(CLOCK_BEFORE_EPOCH),
        };
        let created_at = match unix_seconds() {
            Some(created_at) => created_at,
            None => return Err(CLOCK_BEFORE_EPOCH),
        };
        let signature = format_tag(key.as_str(), stamp);
        self.allocate_stamped(key, data, signature, created_at)
    }

    /// Makes a block that holds `data`, with the tag `signature` and the
    /// creation time `created_at`, and stores it under `key`, in place of any
    /// block there; a full pool refuses, and changes nothing.
    pub fn allocate_stamped(&mut self, key: String, data: T, signature: String, created_at: u64) -> (r:
        Result<(), &'static str>)
        requires
            old(self).wf(),
        ensures
            final(self).wf(),
            final(self).spec_capacity() == old(self).spec_capacity(),
            r is Ok <==> admits(old(self)@, old(self).spec_capacity()),
            r is Ok ==> final(self)@ == old(self)@.insert(
                key@,
                BlockView::fresh(created_at, signature@),
            ),
            r is Err ==> final(self)@ == old(self)@ && r == Err::<(), &'static str>(
                CAPACITY_EXCEEDED,
            ),
    {
        if self.blocks.len() >= self.capacity {
            return Err(CAPACITY_EXCEEDED);
        }
        let block = SafeBlock::with_timestamp(data, signature, created_at);
        self.put(key, block);
        Ok(())
    }

    /// Takes the block under `key` out of the pool and hands it to the
    /// caller; where there is none, returns `None` and leaves the pool as it
    /// was.
    pub fn deallocate(&mut self, key: &str) -> (r: Option<SafeBlock<T>>)
        requires
            old(self).wf(),
        ensures
            final(self).wf(),
            final(self).spec_capacity() == old(self).spec_capacity(),
            final(self)@ == old(self)@.remove(key@),
            match r {
                Some(b) => old(self)@.contains_key(key@) && b@ == old(self)@[key@],
                None => !old(self)@.contains_key(key@) && final(self)@ == old(self)@,
            },
    {
        let wanted = key.to_owned();
        match self.position(&wanted) {
            Some(i) => {
                let ghost before = self.blocks@;
                let (_, block) = self.blocks.remove(i);
                let ghost entries = self.entries@;
                self.entries = Ghost(entries.remove(key@));
                assert forall|j: int| 0 <= j < before.len() && before[j].0@ != key@ implies stored(
                    self.blocks@,
                    #[trigger] before[j].0@,
                ) by {
                    if j < i {
                        assert(self.blocks@[j].0@ == before[j].0@);
                    } else {
                        assert(j != i);
                        assert(self.blocks@[j - 1].0@ == before[j].0@);
                    }
                }
                proof {
                    lemma_keys_carried(entries, before, self.entries@, self.blocks@, key@);
                }
                Some(block)
            },
            None => {
                assert(self@.remove(key@) =~= self@);
                None
            },
        }
    }
}

} // verus!
