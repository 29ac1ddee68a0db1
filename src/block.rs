//! A payload behind an exclusive lock, with its usage record.
use crate::clock::unix_seconds;
use std::sync::Arc;
use vstd::prelude::*;
use vstd::rwlock::{RwLock, RwLockPredicate};

verus! {

/// The lock invariant of a payload: any value of the payload type may be held.
struct AnyPayload;

impl<T> RwLockPredicate<T> for AnyPayload {
    open spec fn inv(self, v: T) -> bool {
        true
    }
}

/// What a block records about itself: the payload stays behind its lock and
/// is not part of this view.
pub ghost struct BlockView {
    /// Seconds since the Unix epoch when the block was made.
    pub created_at: u64,
    /// How many `access` calls this handle has completed.
    pub access_count: nat,
    /// The opaque tag given at construction.
    pub tag: Seq<char>,
}

impl BlockView {
    /// The record of a block made at `created_at` with `tag`.
    pub open spec fn fresh(created_at: u64, tag: Seq<char>) -> BlockView {
        BlockView { created_at, access_count: 0, tag }
    }

    /// The record after one more completed access.
    pub open spec fn accessed(self) -> BlockView {
        BlockView { access_count: self.access_count + 1, ..self }
    }

    /// The record after `n` more completed accesses.
    pub open spec fn accessed_times(self, n: nat) -> BlockView
        decreases n,
    {
        if n == 0 {
            self
        } else {
            self.accessed_times((n - 1) as nat).accessed()
        }
    }
}

/// One payload behind an exclusive lock, with the time it was made, the number
/// of completed accesses and an opaque tag.
///
/// A clone shares the payload and its lock with the original, but keeps a
/// counter of its own: each handle counts only the accesses made through it.
#[derive(Clone)]
pub struct SafeBlock<T> {
    data: Arc<RwLock<T, AnyPayload>>,
    timestamp: u64,
    access_count: usize,
    signature: String,
}

impl<T> View for SafeBlock<T> {
    type V = BlockView;

    closed spec fn view(&self) -> BlockView {
        BlockView {
            created_at: self.timestamp,
            access_count: self.access_count as nat,
            tag: self.signature@,
        }
    }
}

impl<T> SafeBlock<T> {
    /// Makes a block that holds `data` under the tag `signature`, stamped with
    /// the current wall-clock time in whole seconds since the Unix epoch.
    ///
    /// A clock that reads before the epoch gives no valid timestamp: the call
    /// then makes no block and returns `None`, and the caller is to treat
    /// that as fatal.
    pub fn new(data: T, signature: String) -> (r: Option<Self>)
        ensures
            r matches Some(b) ==> b@ == BlockView::fresh(b@.created_at, signature@),
    {
        match unix_seconds() {
            Some(timestamp) => Some(SafeBlock::with_timestamp(data, signature, timestamp)),
            None => None,
        }
    }

    /// Makes a block that holds `data` under the tag `signature`, stamped with
    /// `created_at` seconds since the Unix epoch.
    pub fn with_timestamp(data: T, signature: String, created_at: u64) -> (r: Self)
        ensures
            r@ == BlockView::fresh(created_at, signature@),
    {
        SafeBlock {
            data: Arc::new(RwLock::new(data, Ghost(AnyPayload))),
            timestamp: created_at,
            access_count: 0,
            signature,
        }
    }

    /// Runs `f` with exclusive access to the payload and returns what it
    /// returns; the access counter of this handle goes up by one.
    ///
    /// The call waits while another holder has the lock. A mutator that
    /// panics leaves the lock held, and the block can then not be accessed
    /// again: later calls never return.
    pub fn access<F, R>(&mut self, f: F) -> (r: R)
        where
            F: FnOnce(&mut T) -> R,
        requires
            old(self)@.access_count < usize::MAX,
            forall|v: &mut T| f.requires((v,)),
        ensures
            final(self)@ == old(self)@.accessed(),
            final(self)@.created_at == old(self)@.created_at,
            exists|v: &mut T| f.ensures((v,), r),
    {
        let (mut value, handle) = self.data.acquire_write();
        self.access_count = self.access_count + 1;
        let r = f(&mut value);
        handle.release_write(value);
        r
    }

    /// The creation time and the access count of this handle.
    pub fn get_metrics(&self) -> (r: (u64, usize))
        ensures
            r.0 == self@.created_at,
            r.1 == self@.access_count,
    {
        (self.timestamp, self.access_count)
    }

    /// The tag given at construction.
    pub fn signature(&self) -> (r: &str)
        ensures
            r@ == self@.tag,
    {
        self.signature.as_str()
    }
}

} // verus!
