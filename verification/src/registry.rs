//! The handle registry: the process-wide table that owns one record per
//! loaded plugin, keyed by an opaque numeric handle.

use vstd::prelude::*;
use crate::state::LifecycleState;
use crate::state::NativeCall;
use crate::state::teardown_calls;

verus! {

/// Status code a `process` command reports when the record was not in
/// `Processing`, so that no native call was made.
pub const PROCESS_STATUS_ERROR: u32 = 0;

/// A caller referenced a handle that was never assigned or whose record was
/// already removed.
#[derive(Clone, Copy, Debug, PartialEq, Eq, Structural)]
pub enum BridgeError {
    InvalidHandle,
}

/// The bookkeeping this crate keeps for one loaded plugin. The native
/// resources themselves (the open library and the raw instance) are owned by
/// the embedding layer under the same handle; this record decides what may be
/// done with them.
pub struct PluginRecord {
    id: u32,
    source_path: String,
    state: LifecycleState,
}

/// The spec-level value of a `PluginRecord`.
pub ghost struct RecordView {
    pub id: u32,
    pub source_path: Seq<char>,
    pub state: LifecycleState,
}

impl View for PluginRecord {
    type V = RecordView;

    closed spec fn view(&self) -> RecordView {
        RecordView { id: self.id, source_path: self.source_path@, state: self.state }
    }
}

impl PluginRecord {
    /// The handle under which this record was registered.
    pub fn id(&self) -> (r: u32)
        ensures
            r == self@.id,
    {
        self.id
    }

    /// The filesystem path the plugin was loaded from (diagnostic only).
    pub fn source_path(&self) -> (r: &String)
        ensures
            r@ == self@.source_path,
    {
        &self.source_path
    }

    /// The record's current lifecycle state.
    pub fn state(&self) -> (r: LifecycleState)
        ensures
            r == self@.state,
    {
        self.state
    }
}

/// The process-wide table from handle to plugin record, with the monotonic
/// next-handle counter. Its view is the map from live handle to record view.
pub struct Registry {
    next_id: u32,
    records: Vec<PluginRecord>,
    issued: Ghost<Seq<u32>>,
}

impl Registry {
    /// The handle the next successful load will be assigned.
    pub closed spec fn next_handle(self) -> u32 {
        self.next_id
    }

    /// Every handle this registry has ever assigned, oldest first; removal
    /// never strikes a handle from this history.
    pub closed spec fn issued_handles(self) -> Seq<u32> {
        self.issued@
    }

    /// How many records are currently live.
    pub closed spec fn live_count(self) -> nat {
        self.records@.len()
    }

    spec fn index_for(self, handle: u32) -> int {
        choose|i: int|
            0 <= i < self.records@.len() && self.records@[i].id == handle
    }

    spec fn has_handle(self, handle: u32) -> bool {
        exists|i: int| 0 <= i < self.records@.len() && self.records@[i].id == handle
    }

    /// Well-formedness: handles are unique, below the next-handle counter,
    /// and the issue history is strictly increasing and likewise below it.
    pub closed spec fn wf(self) -> bool {
        &&& self.next_id >= 1
        &&& (forall|i: int|
            0 <= i < self.records@.len() ==> (#[trigger] self.records@[i]).id < self.next_id)
        &&& (forall|i: int, j: int|
            #![trigger self.records@[i].id, self.records@[j].id]
            0 <= i < j < self.records@.len() ==> self.records@[i].id != self.records@[j].id)
        &&& (forall|i: int|
            0 <= i < self.issued@.len() ==> #[trigger] self.issued@[i] < self.next_id)
        &&& (forall|i: int, j: int|
            #![trigger self.issued@[i], self.issued@[j]]
            0 <= i < j < self.issued@.len() ==> self.issued@[i] < self.issued@[j])
    }

    /// In a well-formed registry a handle found at index `i` is found nowhere
    /// else, so the view maps it to exactly that record.
    proof fn lemma_found_index(r: Registry, handle: u32, i: int)
        requires
            r.wf(),
            0 <= i < r.records@.len(),
            r.records@[i].id == handle,
        ensures
            r.has_handle(handle),
            r.index_for(handle) == i,
            r@.dom().contains(handle),
            r@[handle] == r.records@[i]@,
    {
        assert(r.has_handle(handle));
        let j = r.index_for(handle);
        assert(0 <= j < r.records@.len() && r.records@[j].id == handle);
        if i != j {
            assert(r.records@[i].id != r.records@[j].id);
        }
    }

    /// A handle no record carries is not in the view's domain.
    proof fn lemma_absent_handle(r: Registry, handle: u32)
        requires
            forall|i: int|
                0 <= i < r.records@.len() ==> (#[trigger] r.records@[i]).id != handle,
        ensures
            !r@.dom().contains(handle),
    {
        if r.has_handle(handle) {
            let i = choose|i: int|
                0 <= i < r.records@.len() && r.records@[i].id == handle;
            assert(r.records@[i].id != handle);
        }
    }

    /// Index of the record registered under `handle`, if any.
    fn find_index(&self, handle: u32) -> (r: Option<usize>)
        ensures
            match r {
                Some(i) => i < self.records@.len() && self.records@[i as int].id == handle,
                None => forall|j: int|
                    0 <= j < self.records@.len() ==> (#[trigger] self.records@[j]).id != handle,
            },
    {
        let n = self.records.len();
        let mut i: usize = 0;
        while i < n
            invariant
                n == self.records@.len(),
                i <= n,
                forall|j: int| 0 <= j < i ==> (#[trigger] self.records@[j]).id != handle,
            decreases n - i,
        {
            if self.records[i].id == handle {
                return Some(i);
            }
            i = i + 1;
        }
        None
    }

    /// Read access to a live record's state; fails `InvalidHandle` exactly
    /// when the handle is unknown or its record was already removed.
    pub fn lookup(&self, handle: u32) -> (r: Result<LifecycleState, BridgeError>)
        requires
            self.wf(),
        ensures
            self@.dom().contains(handle) ==> r == Ok::<LifecycleState, BridgeError>(
                self@[handle].state,
            ),
            !self@.dom().contains(handle) ==> r == Err::<LifecycleState, BridgeError>(
                BridgeError::InvalidHandle,
            ),
    {
        match self.find_index(handle) {
            Some(i) => {
                proof {
                    Self::lemma_found_index(*self, handle, i as int);
                }
                Ok(self.records[i].state)
            },
            None => {
                proof {
                    Self::lemma_absent_handle(*self, handle);
                }
                Err(BridgeError::InvalidHandle)
            },
        }
    }

    /// Register a newly loaded plugin under the next monotonic handle: the
    /// fresh record starts in `Loaded`, every already-assigned handle is
    /// strictly below the new one, and no existing record moves or changes.
    ///
    /// The embedding layer calls this only after the library was opened, the
    /// entry symbol resolved and the factory produced an instance (see
    /// `loader::load_outcome`); a failed load attempt never reaches the
    /// registry.
    pub fn load_plugin(&mut self, source_path: String) -> (handle: u32)
        requires
            old(self).wf(),
            old(self).next_handle() < u32::MAX,
        ensures
            final(self).wf(),
            handle == old(self).next_handle(),
            !old(self)@.dom().contains(handle),
            forall|k: u32| old(self)@.dom().contains(k) ==> k < handle,
            final(self)@ == old(self)@.insert(
                handle,
                RecordView {
                    id: handle,
                    source_path: source_path@,
                    state: LifecycleState::Loaded,
                },
            ),
            final(self).next_handle() == handle + 1,
            final(self).issued_handles() == old(self).issued_handles().push(handle),
            final(self).live_count() == old(self).live_count() + 1,
    {
        let handle = self.next_id;
        self.next_id = self.next_id + 1;
        let record = PluginRecord {
            id: handle,
            source_path,
            state: LifecycleState::Loaded,
        };
        self.records.push(record);
        proof {
            self.issued@ = self.issued@.push(handle);
            let pre = *old(self);
            let post = *self;
            let n = pre.records@.len() as int;
            let rv = RecordView {
                id: handle,
                source_path: post.records@[n]@.source_path,
                state: LifecycleState::Loaded,
            };
            assert forall|k: u32| pre@.dom().contains(k) implies k < handle by {
                let i = choose|i: int|
                    0 <= i < pre.records@.len() && pre.records@[i].id == k;
                assert(pre.records@[i].id < pre.next_id);
            }
            Self::lemma_absent_handle(pre, handle);
            assert(post.wf());
            assert(post@ =~= pre@.insert(handle, rv)) by {
                assert forall|k: u32| #[trigger] post@.dom().contains(k) implies pre@.insert(
                    handle,
                    rv,
                ).dom().contains(k) && post@[k] == pre@.insert(handle, rv)[k] by {
                    let i = choose|i: int|
                        0 <= i < post.records@.len() && post.records@[i].id == k;
                    Self::lemma_found_index(post, k, i);
                    if i == n {
                        assert(k == handle);
                        assert(post@[k] == post.records@[n]@);
                    } else {
                        assert(pre.records@[i] == post.records@[i]);
                        Self::lemma_found_index(pre, k, i);
                        assert(k != handle);
                    }
                }
                assert forall|k: u32| pre@.insert(handle, rv).dom().contains(
                    k,
                ) implies post@.dom().contains(k) by {
                    if k == handle {
                        Self::lemma_found_index(post, handle, n);
                    } else {
                        assert(pre@.dom().contains(k));
                        let i = choose|i: int|
                            0 <= i < pre.records@.len() && pre.records@[i].id == k;
                        Self::lemma_found_index(post, k, i);
                    }
                }
            }
        }
        handle
    }

    /// Replacing the record at index `i` by one with the same handle touches
    /// exactly that handle's entry in the view.
    proof fn lemma_view_after_update(pre: Registry, post: Registry, i: int)
        requires
            pre.wf(),
            0 <= i < pre.records@.len(),
            post.records@.len() == pre.records@.len(),
            forall|j: int|
                0 <= j < pre.records@.len() && j != i ==> post.records@[j] == pre.records@[j],
            post.records@[i].id == pre.records@[i].id,
            post.next_id == pre.next_id,
            post.issued@ == pre.issued@,
        ensures
            post.wf(),
            post@ == pre@.insert(pre.records@[i].id, post.records@[i]@),
    {
        let h = pre.records@[i].id;
        assert forall|j: int| 0 <= j < post.records@.len() implies (#[trigger] post.records@[j]).id
            == pre.records@[j].id by {}
        assert(post.wf());
        let target = pre@.insert(h, post.records@[i]@);
        assert(post@ =~= target) by {
            assert forall|k: u32| #[trigger] post@.dom().contains(k) implies target.dom().contains(
                k,
            ) && post@[k] == target[k] by {
                let j = choose|j: int|
                    0 <= j < post.records@.len() && post.records@[j].id == k;
                Self::lemma_found_index(post, k, j);
                if j == i {
                    assert(k == h);
                } else {
                    Self::lemma_found_index(pre, k, j);
                    assert(k != h);
                }
            }
            assert forall|k: u32| target.dom().contains(k) implies post@.dom().contains(k) by {
                if k == h {
                    Self::lemma_found_index(post, h, i);
                } else {
                    let j = choose|j: int|
                        0 <= j < pre.records@.len() && pre.records@[j].id == k;
                    Self::lemma_found_index(post, k, j);
                }
            }
        }
    }

    /// Move the record at index `i` to `new_state`, leaving everything else
    /// in place.
    fn set_state(&mut self, i: usize, new_state: LifecycleState)
        requires
            old(self).wf(),
            i < old(self).records@.len(),
        ensures
            final(self).wf(),
            final(self).next_handle() == old(self).next_handle(),
            final(self).issued_handles() == old(self).issued_handles(),
            final(self).live_count() == old(self).live_count(),
            final(self)@ == old(self)@.insert(
                old(self).records@[i as int].id,
                RecordView {
                    id: old(self).records@[i as int]@.id,
                    source_path: old(self).records@[i as int]@.source_path,
                    state: new_state,
                },
            ),
    {
        let mut rec = self.records.remove(i);
        rec.state = new_state;
        self.records.insert(i, rec);
        proof {
            let pre = *old(self);
            let post = *self;
            let ii = i as int;
            pre.records@.remove_ensures(ii);
            pre.records@.remove(ii).insert_ensures(ii, post.records@[ii]);
            assert forall|j: int|
                0 <= j < pre.records@.len() && j != ii implies post.records@[j]
                == pre.records@[j] by {
                let mid = pre.records@.remove(ii);
                if j < ii {
                    assert(post.records@[j] == mid[j]);
                } else {
                    assert(post.records@[j] == mid[j - 1]);
                    assert(mid[j - 1] == pre.records@[j]);
                }
            }
            Self::lemma_view_after_update(pre, post, ii);
        }
    }

    /// Commit the outcome of the native `init` call: from `Loaded`, success
    /// moves the record to `Initialized` and failure leaves it `Loaded`. In
    /// any other state nothing changes and the result is `false` — the
    /// embedding layer makes the native call only when `lookup` reported
    /// `Loaded`, and `native_ok` is ignored otherwise.
    pub fn initialize(&mut self, handle: u32, native_ok: bool) -> (r: Result<bool, BridgeError>)
        requires
            old(self).wf(),
        ensures
            final(self).wf(),
            final(self).next_handle() == old(self).next_handle(),
            final(self).issued_handles() == old(self).issued_handles(),
            final(self).live_count() == old(self).live_count(),
            !old(self)@.dom().contains(handle) ==> r == Err::<bool, BridgeError>(
                BridgeError::InvalidHandle,
            ) && final(self)@ == old(self)@,
            old(self)@.dom().contains(handle) && old(self)@[handle].state == LifecycleState::Loaded
                && native_ok ==> r == Ok::<bool, BridgeError>(true) && final(self)@ == old(
                self,
            )@.insert(
                handle,
                RecordView {
                    id: handle,
                    source_path: old(self)@[handle].source_path,
                    state: LifecycleState::Initialized,
                },
            ),
            old(self)@.dom().contains(handle) && !(old(self)@[handle].state
                == LifecycleState::Loaded && native_ok) ==> r == Ok::<bool, BridgeError>(false)
                && final(self)@ == old(self)@,
    {
        match self.find_index(handle) {
            None => {
                proof {
                    Self::lemma_absent_handle(*self, handle);
                }
                Err(BridgeError::InvalidHandle)
            },
            Some(i) => {
                proof {
                    Self::lemma_found_index(*self, handle, i as int);
                }
                if self.records[i].state == LifecycleState::Loaded && native_ok {
                    self.set_state(i, LifecycleState::Initialized);
                    Ok(true)
                } else {
                    Ok(false)
                }
            },
        }
    }

    /// Commit the outcome of the native `activate` call: from `Initialized`,
    /// success moves the record to `Activated` and failure leaves it
    /// unchanged. In any other state nothing changes and the result is
    /// `false`. The audio configuration (sample rate, frame bounds) travels
    /// with the native call itself, which the embedding layer makes only when
    /// `lookup` reported `Initialized`; `native_ok` is ignored otherwise.
    pub fn activate(&mut self, handle: u32, native_ok: bool) -> (r: Result<bool, BridgeError>)
        requires
            old(self).wf(),
        ensures
            final(self).wf(),
            final(self).next_handle() == old(self).next_handle(),
            final(self).issued_handles() == old(self).issued_handles(),
            final(self).live_count() == old(self).live_count(),
            !old(self)@.dom().contains(handle) ==> r == Err::<bool, BridgeError>(
                BridgeError::InvalidHandle,
            ) && final(self)@ == old(self)@,
            old(self)@.dom().contains(handle) && old(self)@[handle].state
                == LifecycleState::Initialized && native_ok ==> r == Ok::<bool, BridgeError>(true)
                && final(self)@ == old(self)@.insert(
                handle,
                RecordView {
                    id: handle,
                    source_path: old(self)@[handle].source_path,
                    state: LifecycleState::Activated,
                },
            ),
            old(self)@.dom().contains(handle) && !(old(self)@[handle].state
                == LifecycleState::Initialized && native_ok) ==> r == Ok::<bool, BridgeError>(false)
                && final(self)@ == old(self)@,
    {
        match self.find_index(handle) {
            None => {
                proof {
                    Self::lemma_absent_handle(*self, handle);
                }
                Err(BridgeError::InvalidHandle)
            },
            Some(i) => {
                proof {
                    Self::lemma_found_index(*self, handle, i as int);
                }
                if self.records[i].state == LifecycleState::Initialized && native_ok {
                    self.set_state(i, LifecycleState::Activated);
                    Ok(true)
                } else {
                    Ok(false)
                }
            },
        }
    }

    /// Commit the outcome of the native `start_processing` call: from
    /// `Activated`, success moves the record to `Processing` and failure
    /// leaves it unchanged. In any other state nothing changes and the result
    /// is `false` — the embedding layer makes the native call only when
    /// `lookup` reported `Activated`, and `native_ok` is ignored otherwise.
    pub fn start_processing(&mut self, handle: u32, native_ok: bool) -> (r: Result<
        bool,
        BridgeError,
    >)
        requires
            old(self).wf(),
        ensures
            final(self).wf(),
            final(self).next_handle() == old(self).next_handle(),
            final(self).issued_handles() == old(self).issued_handles(),
            final(self).live_count() == old(self).live_count(),
            !old(self)@.dom().contains(handle) ==> r == Err::<bool, BridgeError>(
                BridgeError::InvalidHandle,
            ) && final(self)@ == old(self)@,
            old(self)@.dom().contains(handle) && old(self)@[handle].state
                == LifecycleState::Activated && native_ok ==> r == Ok::<bool, BridgeError>(true)
                && final(self)@ == old(self)@.insert(
                handle,
                RecordView {
                    id: handle,
                    source_path: old(self)@[handle].source_path,
                    state: LifecycleState::Processing,
                },
            ),
            old(self)@.dom().contains(handle) && !(old(self)@[handle].state
                == LifecycleState::Activated && native_ok) ==> r == Ok::<bool, BridgeError>(false)
                && final(self)@ == old(self)@,
    {
        match self.find_index(handle) {
            None => {
                proof {
                    Self::lemma_absent_handle(*self, handle);
                }
                Err(BridgeError::InvalidHandle)
            },
            Some(i) => {
                proof {
                    Self::lemma_found_index(*self, handle, i as int);
                }
                if self.records[i].state == LifecycleState::Activated && native_ok {
                    self.set_state(i, LifecycleState::Processing);
                    Ok(true)
                } else {
                    Ok(false)
                }
            },
        }
    }

    /// Commit a stop of processing: a record in `Processing` returns to
    /// `Activated`; in any other state this is a no-op. The native
    /// `stop_processing` call has no failure mode, and the embedding layer
    /// issues it exactly when `lookup` reported `Processing`.
    pub fn stop_processing(&mut self, handle: u32) -> (r: Result<(), BridgeError>)
        requires
            old(self).wf(),
        ensures
            final(self).wf(),
            final(self).next_handle() == old(self).next_handle(),
            final(self).issued_handles() == old(self).issued_handles(),
            final(self).live_count() == old(self).live_count(),
            !old(self)@.dom().contains(handle) ==> r == Err::<(), BridgeError>(
                BridgeError::InvalidHandle,
            ) && final(self)@ == old(self)@,
            old(self)@.dom().contains(handle) && old(self)@[handle].state
                == LifecycleState::Processing ==> r == Ok::<(), BridgeError>(()) && final(self)@
                == old(self)@.insert(
                handle,
                RecordView {
                    id: handle,
                    source_path: old(self)@[handle].source_path,
                    state: LifecycleState::Activated,
                },
            ),
            old(self)@.dom().contains(handle) && old(self)@[handle].state
                != LifecycleState::Processing ==> r == Ok::<(), BridgeError>(()) && final(self)@
                == old(self)@,
    {
        match self.find_index(handle) {
            None => {
                proof {
                    Self::lemma_absent_handle(*self, handle);
                }
                Err(BridgeError::InvalidHandle)
            },
            Some(i) => {
                proof {
                    Self::lemma_found_index(*self, handle, i as int);
                }
                if self.records[i].state == LifecycleState::Processing {
                    self.set_state(i, LifecycleState::Activated);
                }
                Ok(())
            },
        }
    }

    /// Commit a deactivation: a record in `Activated` or `Processing` returns
    /// to `Initialized`; in any other state this is a no-op. The native
    /// `deactivate` call has no failure mode, and the embedding layer issues
    /// it exactly when `lookup` reported `Activated` or `Processing`.
    pub fn deactivate(&mut self, handle: u32) -> (r: Result<(), BridgeError>)
        requires
            old(self).wf(),
        ensures
            final(self).wf(),
            final(self).next_handle() == old(self).next_handle(),
            final(self).issued_handles() == old(self).issued_handles(),
            final(self).live_count() == old(self).live_count(),
            !old(self)@.dom().contains(handle) ==> r == Err::<(), BridgeError>(
                BridgeError::InvalidHandle,
            ) && final(self)@ == old(self)@,
            old(self)@.dom().contains(handle) && (old(self)@[handle].state
                == LifecycleState::Activated || old(self)@[handle].state
                == LifecycleState::Processing) ==> r == Ok::<(), BridgeError>(()) && final(self)@
                == old(self)@.insert(
                handle,
                RecordView {
                    id: handle,
                    source_path: old(self)@[handle].source_path,
                    state: LifecycleState::Initialized,
                },
            ),
            old(self)@.dom().contains(handle) && !(old(self)@[handle].state
                == LifecycleState::Activated || old(self)@[handle].state
                == LifecycleState::Processing) ==> r == Ok::<(), BridgeError>(()) && final(self)@
                == old(self)@,
    {
        match self.find_index(handle) {
            None => {
                proof {
                    Self::lemma_absent_handle(*self, handle);
                }
                Err(BridgeError::InvalidHandle)
            },
            Some(i) => {
                proof {
                    Self::lemma_found_index(*self, handle, i as int);
                }
                let s = self.records[i].state;
                if s == LifecycleState::Activated || s == LifecycleState::Processing {
                    self.set_state(i, LifecycleState::Initialized);
                }
                Ok(())
            },
        }
    }

    /// Striking the record at index `i` removes exactly its handle from the
    /// view and leaves every other record in place.
    proof fn lemma_view_after_remove(pre: Registry, post: Registry, i: int)
        requires
            pre.wf(),
            0 <= i < pre.records@.len(),
            post.records@ == pre.records@.remove(i),
            post.next_id == pre.next_id,
            post.issued@ == pre.issued@,
        ensures
            post.wf(),
            post@ == pre@.remove(pre.records@[i].id),
    {
        let h = pre.records@[i].id;
        pre.records@.remove_ensures(i);
        assert(post.records@.len() == pre.records@.len() - 1);
        assert forall|j: int| 0 <= j < post.records@.len() implies #[trigger] post.records@[j]
            == pre.records@[if j < i { j } else { j + 1 }] by {}
        assert forall|j: int, k: int|
            #![trigger post.records@[j].id, post.records@[k].id]
            0 <= j < k < post.records@.len() implies post.records@[j].id
            != post.records@[k].id by {
            let j1 = if j < i { j } else { j + 1 };
            let k1 = if k < i { k } else { k + 1 };
            assert(pre.records@[j1].id != pre.records@[k1].id);
        }
        assert(post.wf());
        let target = pre@.remove(h);
        assert(post@ =~= target) by {
            assert forall|k: u32| #[trigger] post@.dom().contains(k) implies target.dom().contains(
                k,
            ) && post@[k] == target[k] by {
                let j = choose|j: int|
                    0 <= j < post.records@.len() && post.records@[j].id == k;
                Self::lemma_found_index(post, k, j);
                let j1 = if j < i { j } else { j + 1 };
                assert(pre.records@[j1] == post.records@[j]);
                Self::lemma_found_index(pre, k, j1);
                assert(pre.records@[j1].id != pre.records@[i].id || j1 == i);
                assert(k != h);
            }
            assert forall|k: u32| target.dom().contains(k) implies post@.dom().contains(k) by {
                assert(pre@.dom().contains(k) && k != h);
                let j1 = choose|j1: int|
                    0 <= j1 < pre.records@.len() && pre.records@[j1].id == k;
                assert(j1 != i);
                let j = if j1 < i { j1 } else { j1 - 1 };
                assert(post.records@[j] == pre.records@[j1]);
                Self::lemma_found_index(post, k, j);
            }
        }
    }

    /// Remove the record and hand its ownership back, together with the exact
    /// sequence of native calls the embedding layer must now issue: a forced
    /// stop if the plugin was still processing, a forced deactivate if it was
    /// still activated, then the one destroy — never out of that order. A
    /// second unload of the same handle fails `InvalidHandle`, since the
    /// record is already gone.
    pub fn unload_plugin(&mut self, handle: u32) -> (r: Result<
        (PluginRecord, Vec<NativeCall>),
        BridgeError,
    >)
        requires
            old(self).wf(),
        ensures
            final(self).wf(),
            final(self).next_handle() == old(self).next_handle(),
            final(self).issued_handles() == old(self).issued_handles(),
            !old(self)@.dom().contains(handle) ==> r == Err::<
                (PluginRecord, Vec<NativeCall>),
                BridgeError,
            >(BridgeError::InvalidHandle) && final(self)@ == old(self)@ && final(self).live_count()
                == old(self).live_count(),
            old(self)@.dom().contains(handle) ==> (r matches Ok(p) && p.0@ == old(self)@[handle]
                && p.1@ == teardown_calls(old(self)@[handle].state) && final(self)@ == old(
                self,
            )@.remove(handle) && final(self).live_count() + 1 == old(self).live_count()),
    {
        match self.find_index(handle) {
            None => {
                proof {
                    Self::lemma_absent_handle(*self, handle);
                }
                Err(BridgeError::InvalidHandle)
            },
            Some(i) => {
                proof {
                    Self::lemma_found_index(*self, handle, i as int);
                }
                let rec = self.records.remove(i);
                proof {
                    Self::lemma_view_after_remove(*old(self), *self, i as int);
                }
                let s = rec.state;
                let mut plan: Vec<NativeCall> = Vec::new();
                if s == LifecycleState::Processing {
                    plan.push(NativeCall::StopProcessing);
                    plan.push(NativeCall::Deactivate);
                } else if s == LifecycleState::Activated {
                    plan.push(NativeCall::Deactivate);
                }
                plan.push(NativeCall::Destroy);
                proof {
                    assert(plan@ =~= teardown_calls(s));
                }
                Ok((rec, plan))
            },
        }
    }

    /// Outcome of a process command. The native `process` call is made by the
    /// embedding layer only when the record is in `Processing`, and
    /// `native_status` is its status code; in any other live state no native
    /// call is made and the reported status is `PROCESS_STATUS_ERROR`.
    pub fn process(&self, handle: u32, native_status: u32) -> (r: Result<u32, BridgeError>)
        requires
            self.wf(),
        ensures
            !self@.dom().contains(handle) ==> r == Err::<u32, BridgeError>(
                BridgeError::InvalidHandle,
            ),
            self@.dom().contains(handle) && self@[handle].state == LifecycleState::Processing ==> r
                == Ok::<u32, BridgeError>(native_status),
            self@.dom().contains(handle) && self@[handle].state != LifecycleState::Processing ==> r
                == Ok::<u32, BridgeError>(PROCESS_STATUS_ERROR),
    {
        match self.lookup(handle) {
            Err(e) => Err(e),
            Ok(s) => if s == LifecycleState::Processing {
                Ok(native_status)
            } else {
                Ok(PROCESS_STATUS_ERROR)
            },
        }
    }

    /// Whether the parameter accessors may call into the native instance:
    /// only once the record has left `Loaded`, i.e. the instance was
    /// initialized.
    pub fn parameters_accessible(&self, handle: u32) -> (r: Result<bool, BridgeError>)
        requires
            self.wf(),
        ensures
            !self@.dom().contains(handle) ==> r == Err::<bool, BridgeError>(
                BridgeError::InvalidHandle,
            ),
            self@.dom().contains(handle) ==> r == Ok::<bool, BridgeError>(
                self@[handle].state != LifecycleState::Loaded,
            ),
    {
        match self.lookup(handle) {
            Err(e) => Err(e),
            Ok(s) => Ok(s != LifecycleState::Loaded),
        }
    }

    /// Outcome of a parameter-count query. The native count call is made by
    /// the embedding layer only when the parameters are accessible, and
    /// `native_count` is its result; a record still in `Loaded` reports zero
    /// parameters without any native call.
    pub fn get_parameter_count(&self, handle: u32, native_count: u32) -> (r: Result<
        u32,
        BridgeError,
    >)
        requires
            self.wf(),
        ensures
            !self@.dom().contains(handle) ==> r == Err::<u32, BridgeError>(
                BridgeError::InvalidHandle,
            ),
            self@.dom().contains(handle) && self@[handle].state != LifecycleState::Loaded ==> r
                == Ok::<u32, BridgeError>(native_count),
            self@.dom().contains(handle) && self@[handle].state == LifecycleState::Loaded ==> r
                == Ok::<u32, BridgeError>(0),
    {
        match self.parameters_accessible(handle) {
            Err(e) => Err(e),
            Ok(true) => Ok(native_count),
            Ok(false) => Ok(0),
        }
    }
}

/// Law: assigned handles are unique and strictly increasing. The issue
/// history records every handle a load ever returned, in order; in every
/// reachable registry it is strictly increasing (hence free of duplicates),
/// every entry lies below the next-handle counter, and so does every handle
/// still live — so a future load can collide with nothing, not even with a
/// handle whose record was removed long ago.
pub proof fn lemma_issued_handles_strictly_increase(r: Registry)
    requires
        r.wf(),
    ensures
        forall|i: int, j: int|
            0 <= i < j < r.issued_handles().len() ==> r.issued_handles()[i]
                < r.issued_handles()[j],
        forall|i: int, j: int|
            0 <= i < j < r.issued_handles().len() ==> r.issued_handles()[i]
                != r.issued_handles()[j],
        forall|i: int|
            0 <= i < r.issued_handles().len() ==> r.issued_handles()[i] < r.next_handle(),
        forall|k: u32| #[trigger] r@.dom().contains(k) ==> k < r.next_handle(),
{
    assert forall|k: u32| #[trigger] r@.dom().contains(k) implies k < r.next_handle() by {
        let i = choose|i: int| 0 <= i < r.records@.len() && r.records@[i].id == k;
        assert(r.records@[i].id < r.next_id);
    }
}

/// Law: the registry neither loses nor aliases a record. Its live handles
/// form a finite set holding exactly one handle per live record, and each
/// live handle maps to the one record that was registered under it.
pub proof fn lemma_live_handles_exact(r: Registry)
    requires
        r.wf(),
    ensures
        r@.dom().finite(),
        r@.dom().len() == r.live_count(),
        forall|k: u32| #[trigger] r@.dom().contains(k) ==> r@[k].id == k,
{
    broadcast use vstd::seq_lib::seq_to_set_is_finite;

    let ids = r.records@.map_values(|rec: PluginRecord| rec.id);
    assert(ids.no_duplicates()) by {
        assert forall|i: int, j: int|
            0 <= i < ids.len() && 0 <= j < ids.len() && i != j implies #[trigger] ids[i]
            != #[trigger] ids[j] by {
            if i < j {
                assert(r.records@[i].id != r.records@[j].id);
            } else {
                assert(r.records@[j].id != r.records@[i].id);
            }
        }
    }
    assert(r@.dom() =~= ids.to_set()) by {
        assert forall|k: u32| #[trigger] r@.dom().contains(k) implies ids.to_set().contains(k) by {
            let i = choose|i: int| 0 <= i < r.records@.len() && r.records@[i].id == k;
            assert(ids[i] == k);
            assert(ids.contains(k));
        }
        assert forall|k: u32| #[trigger] ids.to_set().contains(k) implies r@.dom().contains(k) by {
            let i = choose|i: int| 0 <= i < ids.len() && ids[i] == k;
            assert(r.records@[i].id == k);
        }
    }
    ids.unique_seq_to_set();
    assert forall|k: u32| #[trigger] r@.dom().contains(k) implies r@[k].id == k by {
        let i = choose|i: int| 0 <= i < r.records@.len() && r.records@[i].id == k;
        Registry::lemma_found_index(r, k, i);
    }
}

impl View for Registry {
    type V = Map<u32, RecordView>;

    closed spec fn view(&self) -> Map<u32, RecordView> {
        Map::new(|h: u32| self.has_handle(h), |h: u32| self.records@[self.index_for(h)]@)
    }
}

/// A fresh, empty registry whose first assigned handle will be 1.
pub fn init_registry() -> (r: Registry)
    ensures
        r.wf(),
        r@ == Map::<u32, RecordView>::empty(),
        r.next_handle() == 1,
        r.issued_handles() == Seq::<u32>::empty(),
        r.live_count() == 0,
{
    let r = Registry { next_id: 1, records: Vec::new(), issued: Ghost(Seq::empty()) };
    proof {
        assert(r@ =~= Map::<u32, RecordView>::empty());
    }
    r
}

} // verus!
