//! Typed asset storage indexed by generational handles, with per-asset load
//! state and path deduplication.
use crate::handle::{accounts_for, allocation, release, Handle, HandleAllocator};
use crate::error::KaadanError;
use crate::loader::{AssetLoader, AssetResolver};
use crate::strmap::StrMap;
use vstd::prelude::*;

verus! {

/// Lifecycle state of an asset tracked by the asset server.
#[derive(Debug, Clone, Copy, PartialEq, Eq, Structural)]
pub enum LoadState {
    Queued,
    Loading,
    Loaded,
    Failed,
}

/// Stores assets of a specific type, indexed by `Handle`.
pub struct AssetStorage<T> {
    allocator: HandleAllocator<T>,
    /// Asset of each slot, if one is stored.
    assets: Vec<Option<T>>,
    /// Load state of each slot, if one is recorded.
    states: Vec<Option<LoadState>>,
    path_to_handle: StrMap<Handle<T>>,
}

impl<T> AssetStorage<T> {
    /// The handle allocator behind the storage.
    pub closed spec fn handles(&self) -> HandleAllocator<T> {
        self.allocator
    }

    /// The asset stored in slot `i`, if any.
    pub closed spec fn asset_at(&self, i: u32) -> Option<T> {
        if i < self.assets@.len() {
            self.assets@[i as int]
        } else {
            None
        }
    }

    /// The load state recorded for slot `i`, if any.
    pub closed spec fn state_at(&self, i: u32) -> Option<LoadState> {
        if i < self.states@.len() {
            self.states@[i as int]
        } else {
            None
        }
    }

    /// Paths registered for deduplication, and the handle each maps to.
    pub closed spec fn paths(&self) -> Map<Seq<char>, Handle<T>> {
        self.path_to_handle.map()
    }

    /// Internal consistency: one asset and one state entry per slot; a dead
    /// slot holds neither; a live slot always has a state.
    pub closed spec fn wf(&self) -> bool {
        &&& self.allocator.wf()
        &&& self.assets@.len() == self.allocator@.0.len()
        &&& self.states@.len() == self.allocator@.0.len()
        &&& forall|i: int|
            0 <= i < self.allocator@.0.len() ==> (#[trigger] self.allocator@.0[i]).1 == (
            self.states@[i] is Some)
        &&& forall|i: int|
            0 <= i < self.allocator@.0.len() && !(#[trigger] self.allocator@.0[i]).1
                ==> self.assets@[i] is None
    }

    pub open spec fn valid(&self, h: Handle<T>) -> bool {
        self.handles().valid_id(h@.0, h@.1)
    }

    /// The state `state` reports for `h`.
    pub open spec fn spec_state(&self, h: Handle<T>) -> Option<LoadState> {
        if self.valid(h) {
            self.state_at(h@.0)
        } else {
            None
        }
    }

    /// The asset `get` returns for `h`.
    pub open spec fn spec_get(&self, h: Handle<T>) -> Option<T> {
        if self.valid(h) {
            self.asset_at(h@.0)
        } else {
            None
        }
    }

    pub open spec fn spec_len(&self) -> nat {
        self.handles().spec_live_count()
    }

    /// Every slot other than `i` holds the same asset and state in `self` and `other`.
    pub open spec fn same_except(&self, other: &Self, i: u32) -> bool {
        &&& forall|j: u32| j != i ==> #[trigger] self.asset_at(j) == other.asset_at(j)
        &&& forall|j: u32| j != i ==> #[trigger] self.state_at(j) == other.state_at(j)
    }

    /// Every handle other than `h` has the same state and asset in `self` as
    /// in `other`.
    pub open spec fn others_kept(&self, other: &Self, h: Handle<T>) -> bool {
        forall|g: Handle<T>|
            g != h ==> #[trigger] self.spec_state(g) == other.spec_state(g) && self.spec_get(g)
                == other.spec_get(g)
    }

    /// Every live handle is settled: Loaded with its asset, or Failed with
    /// none. Storage changed only by `load_from` stays so.
    pub open spec fn settled(&self) -> bool {
        forall|h: Handle<T>|
            #[trigger] self.valid(h) ==> (self.spec_state(h) == Some(LoadState::Loaded)
                && self.spec_get(h) is Some) || (self.spec_state(h) == Some(LoadState::Failed)
                && self.spec_get(h) is None)
    }

    /// Two steps that each leave every slot but `i` alone leave every slot
    /// but `i` alone.
    proof fn lemma_same_except_trans(a: Self, b: Self, c: Self, i: u32)
        requires
            b.same_except(&a, i),
            c.same_except(&b, i),
        ensures
            c.same_except(&a, i),
    {
    }

    /// A fresh allocation touches no other handle's state or asset.
    proof fn lemma_allocation_keeps_others(pre: Self, post: Self, h: Handle<T>)
        requires
            pre.wf(),
            allocation(pre.handles(), post.handles(), h),
            post.same_except(&pre, h@.0),
        ensures
            post.others_kept(&pre, h),
            pre.spec_state(h) is None,
            pre.spec_get(h) is None,
    {
        assert forall|g: Handle<T>| g != h implies #[trigger] post.spec_state(g) == pre.spec_state(g)
            && post.spec_get(g) == pre.spec_get(g) by {
            Handle::<T>::lemma_view_injective(g, h);
            if g@.0 == h@.0 {
                if pre.handles()@.1.len() > 0 {
                    assert(pre.handles()@.1[pre.handles()@.1.len() - 1] < pre.handles()@.0.len());
                }
                assert(!pre.valid(g));
                assert(!post.valid(g));
            } else {
                assert(post.state_at(g@.0) == pre.state_at(g@.0));
                assert(post.asset_at(g@.0) == pre.asset_at(g@.0));
                assert(post.valid(g) == pre.valid(g));
            }
        }
    }

    /// Freeing `h` touches no other handle's state or asset.
    proof fn lemma_release_keeps_others(pre: Self, post: Self, h: Handle<T>)
        requires
            pre.wf(),
            release(pre.handles(), post.handles(), h, pre.valid(h)),
            post.same_except(&pre, h@.0),
            !pre.valid(h) ==> post == pre,
        ensures
            post.others_kept(&pre, h),
    {
        assert forall|g: Handle<T>| g != h implies #[trigger] post.spec_state(g) == pre.spec_state(g)
            && post.spec_get(g) == pre.spec_get(g) by {
            Handle::<T>::lemma_view_injective(g, h);
            if pre.valid(h) {
                if g@.0 == h@.0 {
                    assert(!pre.valid(g));
                    assert(!post.valid(g));
                } else {
                    assert(post.valid(g) == pre.valid(g));
                }
            } else {
                assert(post.valid(g) == pre.valid(g));
            }
        }
    }

    pub fn new() -> (s: Self)
        ensures
            s.wf(),
            s.handles()@.0 == Seq::<(u32, bool)>::empty(),
            s.handles()@.1 == Seq::<u32>::empty(),
            s.paths() == Map::<Seq<char>, Handle<T>>::empty(),
            s.spec_len() == 0,
            s.settled(),
    {
        AssetStorage {
            allocator: HandleAllocator::new(),
            assets: Vec::new(),
            states: Vec::new(),
            path_to_handle: StrMap::new(),
        }
    }

    /// Allocate a slot whose state is `state` and which holds no asset.
    fn allocate_with_state(&mut self, state: LoadState) -> (h: Handle<T>)
        requires
            old(self).wf(),
            old(self).handles().can_allocate(),
        ensures
            final(self).wf(),
            allocation(old(self).handles(), final(self).handles(), h),
            final(self).state_at(h@.0) == Some(state),
            final(self).asset_at(h@.0) is None,
            final(self).same_except(old(self), h@.0),
            final(self).paths() == old(self).paths(),
    {
        let h = self.allocator.allocate();
        let i = h.index() as usize;
        if i == self.states.len() {
            self.states.push(Some(state));
            self.assets.push(None);
        } else {
            proof {
                assert(!old(self).allocator@.0[i as int].1);
            }
            self.states.set(i, Some(state));
        }
        proof {
            let sl = self.allocator@.0;
            assert forall|j: int| 0 <= j < sl.len() implies (#[trigger] sl[j]).1 == (self.states@[j] is Some) by {
                if j != i {
                    assert(sl[j] == old(self).allocator@.0[j]);
                }
            }
            assert forall|j: int| 0 <= j < sl.len() && !(#[trigger] sl[j]).1 implies self.assets@[j] is None by {
                assert(j != i);
                assert(sl[j] == old(self).allocator@.0[j]);
            }
        }
        h
    }

    /// Insert an asset and return its handle (state = Loaded).
    pub fn insert(&mut self, asset: T) -> (h: Handle<T>)
        requires
            old(self).wf(),
            old(self).handles().can_allocate(),
        ensures
            final(self).wf(),
            allocation(old(self).handles(), final(self).handles(), h),
            final(self).spec_get(h) == Some(asset),
            final(self).spec_state(h) == Some(LoadState::Loaded),
            final(self).same_except(old(self), h@.0),
            final(self).others_kept(old(self), h),
            old(self).spec_state(h) is None,
            final(self).paths() == old(self).paths(),
            final(self).spec_len() == old(self).spec_len() + 1,
    {
        let h = self.allocate_with_state(LoadState::Loaded);
        let ghost mid = *self;
        self.assets.set(h.index() as usize, Some(asset));
        proof {
            Self::lemma_same_except_trans(*old(self), mid, *self, h@.0);
            Self::lemma_allocation_keeps_others(*old(self), *self, h);
        }
        h
    }

    /// Insert with a path for deduplication (state = Loaded).
    pub fn insert_with_path(&mut self, path: &str, asset: T) -> (h: Handle<T>)
        requires
            old(self).wf(),
            old(self).handles().can_allocate(),
        ensures
            final(self).wf(),
            allocation(old(self).handles(), final(self).handles(), h),
            final(self).spec_get(h) == Some(asset),
            final(self).spec_state(h) == Some(LoadState::Loaded),
            final(self).same_except(old(self), h@.0),
            final(self).others_kept(old(self), h),
            old(self).spec_state(h) is None,
            final(self).paths() == old(self).paths().insert(path@, h),
            final(self).spec_len() == old(self).spec_len() + 1,
    {
        let h = self.insert(asset);
        let ghost mid = *self;
        self.path_to_handle.insert(path.to_owned(), h);
        proof {
            Self::lemma_same_except_trans(*old(self), mid, *self, h@.0);
            Self::lemma_allocation_keeps_others(*old(self), *self, h);
        }
        h
    }

    /// Reserve a handle for a path whose load failed (state = Failed, no asset).
    pub fn insert_failed(&mut self, path: &str) -> (h: Handle<T>)
        requires
            old(self).wf(),
            old(self).handles().can_allocate(),
        ensures
            final(self).wf(),
            allocation(old(self).handles(), final(self).handles(), h),
            final(self).spec_get(h) is None,
            final(self).spec_state(h) == Some(LoadState::Failed),
            final(self).same_except(old(self), h@.0),
            final(self).others_kept(old(self), h),
            old(self).spec_state(h) is None,
            final(self).paths() == old(self).paths().insert(path@, h),
            final(self).spec_len() == old(self).spec_len() + 1,
    {
        let h = self.allocate_with_state(LoadState::Failed);
        let ghost mid = *self;
        self.path_to_handle.insert(path.to_owned(), h);
        proof {
            Self::lemma_same_except_trans(*old(self), mid, *self, h@.0);
            Self::lemma_allocation_keeps_others(*old(self), *self, h);
        }
        h
    }

    /// Reserve a handle for a path that is being loaded asynchronously. The
    /// asset is not present yet; the state starts at `Queued`.
    pub fn reserve(&mut self, path: &str) -> (h: Handle<T>)
        requires
            old(self).wf(),
            old(self).handles().can_allocate(),
        ensures
            final(self).wf(),
            allocation(old(self).handles(), final(self).handles(), h),
            final(self).spec_get(h) is None,
            final(self).spec_state(h) == Some(LoadState::Queued),
            final(self).same_except(old(self), h@.0),
            final(self).others_kept(old(self), h),
            old(self).spec_state(h) is None,
            final(self).paths() == old(self).paths().insert(path@, h),
            final(self).spec_len() == old(self).spec_len() + 1,
    {
        let h = self.allocate_with_state(LoadState::Queued);
        let ghost mid = *self;
        self.path_to_handle.insert(path.to_owned(), h);
        proof {
            Self::lemma_same_except_trans(*old(self), mid, *self, h@.0);
            Self::lemma_allocation_keeps_others(*old(self), *self, h);
        }
        h
    }

    /// Update the load state for a handle without touching its asset.
    /// Returns false, changing nothing, if the handle is no longer valid.
    pub fn set_state(&mut self, handle: Handle<T>, state: LoadState) -> (ok: bool)
        requires
            old(self).wf(),
        ensures
            final(self).wf(),
            ok == old(self).valid(handle),
            final(self).handles() == old(self).handles(),
            final(self).paths() == old(self).paths(),
            ok ==> final(self).state_at(handle@.0) == Some(state),
            ok ==> final(self).asset_at(handle@.0) == old(self).asset_at(handle@.0),
            !ok ==> final(self).state_at(handle@.0) == old(self).state_at(handle@.0)
                && final(self).asset_at(handle@.0) == old(self).asset_at(handle@.0),
            final(self).same_except(old(self), handle@.0),
    {
        if self.allocator.is_valid(handle) {
            self.states.set(handle.index() as usize, Some(state));
            true
        } else {
            false
        }
    }

    /// Store an asset at an already-reserved handle and mark it Loaded.
    /// Returns false, changing nothing, if the handle is no longer valid.
    pub fn fulfill(&mut self, handle: Handle<T>, asset: T) -> (ok: bool)
        requires
            old(self).wf(),
        ensures
            final(self).wf(),
            ok == old(self).valid(handle),
            final(self).handles() == old(self).handles(),
            final(self).paths() == old(self).paths(),
            ok ==> final(self).spec_get(handle) == Some(asset),
            ok ==> final(self).spec_state(handle) == Some(LoadState::Loaded),
            !ok ==> final(self).state_at(handle@.0) == old(self).state_at(handle@.0)
                && final(self).asset_at(handle@.0) == old(self).asset_at(handle@.0),
            final(self).same_except(old(self), handle@.0),
    {
        if self.allocator.is_valid(handle) {
            let i = handle.index() as usize;
            self.assets.set(i, Some(asset));
            self.states.set(i, Some(LoadState::Loaded));
            true
        } else {
            false
        }
    }

    /// Current load state for a handle.
    pub fn state(&self, handle: Handle<T>) -> (s: Option<LoadState>)
        ensures
            s == self.spec_state(handle),
    {
        let i = handle.index() as usize;
        if self.allocator.is_valid(handle) && i < self.states.len() {
            self.states[i]
        } else {
            None
        }
    }

    /// Get by handle.
    pub fn get(&self, handle: Handle<T>) -> (r: Option<&T>)
        ensures
            r is Some <==> self.spec_get(handle) is Some,
            r is Some ==> *r->0 == self.spec_get(handle)->0,
    {
        let i = handle.index() as usize;
        if self.allocator.is_valid(handle) && i < self.assets.len() {
            self.assets[i].as_ref()
        } else {
            None
        }
    }

    /// Get mutable by handle.
    pub fn get_mut(&mut self, handle: Handle<T>) -> (r: Option<&mut T>)
        requires
            old(self).wf(),
        ensures
            r is Some <==> old(self).spec_get(handle) is Some,
            r is Some ==> *r->0 == old(self).spec_get(handle)->0,
            r is Some ==> final(self).spec_get(handle) == Some(*final(r->0)),
            r is None ==> *final(self) == *old(self),
            final(self).wf(),
            final(self).handles() == old(self).handles(),
            final(self).paths() == old(self).paths(),
            final(self).same_except(old(self), handle@.0),
            final(self).state_at(handle@.0) == old(self).state_at(handle@.0),
    {
        if self.allocator.is_valid(handle) {
            let i = handle.index() as usize;
            if self.assets[i].is_some() {
                let slot = &mut self.assets[i];
                slot.as_mut()
            } else {
                None
            }
        } else {
            None
        }
    }

    /// Look up a handle by path.
    pub fn handle_for_path(&self, path: &str) -> (r: Option<Handle<T>>)
        ensures
            r == (if self.paths().contains_key(path@) {
                Some(self.paths()[path@])
            } else {
                None
            }),
    {
        match self.path_to_handle.get(path) {
            Some(h) => Some(*h),
            None => None,
        }
    }

    /// Remove an asset: free its handle and drop its state. Returns the asset
    /// if the handle was valid and held one.
    pub fn remove(&mut self, handle: Handle<T>) -> (r: Option<T>)
        requires
            old(self).wf(),
        ensures
            final(self).wf(),
            release(old(self).handles(), final(self).handles(), handle, old(self).valid(handle)),
            r == old(self).spec_get(handle),
            old(self).valid(handle) ==> final(self).asset_at(handle@.0) is None
                && final(self).state_at(handle@.0) is None,
            !old(self).valid(handle) ==> *final(self) == *old(self),
            final(self).same_except(old(self), handle@.0),
            final(self).others_kept(old(self), handle),
            final(self).paths() == old(self).paths(),
            old(self).valid(handle) ==> final(self).spec_len() + 1 == old(self).spec_len(),
    {
        if self.allocator.is_valid(handle) {
            self.allocator.free(handle);
            let i = handle.index() as usize;
            self.states.set(i, None);
            let mut taken: Option<T> = None;
            std::mem::swap(&mut taken, &mut self.assets[i]);
            proof {
                let sl = self.allocator@.0;
                assert forall|j: int| 0 <= j < sl.len() implies (#[trigger] sl[j]).1 == (self.states@[j] is Some) by {
                    if j != i {
                        assert(sl[j] == old(self).allocator@.0[j]);
                    }
                }
                assert forall|j: int| 0 <= j < sl.len() && !(#[trigger] sl[j]).1 implies self.assets@[j] is None by {
                    if j != i {
                        assert(sl[j] == old(self).allocator@.0[j]);
                    }
                }
            }
            proof {
                Self::lemma_release_keeps_others(*old(self), *self, handle);
            }
            taken
        } else {
            None
        }
    }

    pub fn len(&self) -> (n: usize)
        ensures
            n == self.spec_len(),
    {
        self.allocator.live_count()
    }

    pub fn is_empty(&self) -> (b: bool)
        ensures
            b == (self.spec_len() == 0),
    {
        self.len() == 0
    }

    /// Whether another handle can be allocated without overflow.
    pub fn has_room(&self) -> (b: bool)
        requires
            self.wf(),
        ensures
            b == self.handles().can_allocate(),
    {
        self.allocator.has_room()
    }

    /// Record the outcome of loading `path`: the asset under a Loaded handle,
    /// or a Failed handle holding nothing. Either way `path` maps to the handle.
    pub fn complete_load(&mut self, path: &str, result: Result<T, KaadanError>) -> (h: Handle<T>)
        requires
            old(self).wf(),
            old(self).handles().can_allocate(),
        ensures
            final(self).wf(),
            allocation(old(self).handles(), final(self).handles(), h),
            final(self).paths() == old(self).paths().insert(path@, h),
            final(self).same_except(old(self), h@.0),
            final(self).others_kept(old(self), h),
            old(self).spec_state(h) is None,
            final(self).spec_len() == old(self).spec_len() + 1,
            match result {
                Ok(asset) => final(self).spec_get(h) == Some(asset) && final(self).spec_state(h)
                    == Some(LoadState::Loaded),
                Err(_) => final(self).spec_get(h) is None && final(self).spec_state(h) == Some(
                    LoadState::Failed,
                ),
            },
    {
        let h = match result {
            Ok(asset) => self.insert_with_path(path, asset),
            Err(_) => self.insert_failed(path),
        };
        proof {
            Self::lemma_allocation_keeps_others(*old(self), *self, h);
        }
        h
    }

    /// `h` holds the outcome of a load: the asset, Loaded, when it is `Ok`;
    /// nothing, Failed, when it is an error.
    pub open spec fn holds_outcome(&self, h: Handle<T>, outcome: Result<T, KaadanError>) -> bool {
        match outcome {
            Ok(asset) => self.spec_get(h) == Some(asset) && self.spec_state(h) == Some(LoadState::Loaded),
            Err(_) => self.spec_get(h) is None && self.spec_state(h) == Some(LoadState::Failed),
        }
    }

    /// What loading a new path through `resolver` and `loader` leaves under
    /// `h`: `resolver` reads the path; on bytes, `loader` loads those bytes
    /// for the path and `h` holds what it gave; on a read error, `h` holds
    /// that error (Failed) and the loader is not asked.
    pub open spec fn loaded_through<R: AssetResolver + ?Sized, L: AssetLoader<Output = T>>(
        &self,
        h: Handle<T>,
        resolver: &R,
        path: Seq<char>,
        loader: &L,
    ) -> bool {
        exists|read: Result<Seq<u8>, KaadanError>, loaded: Result<T, KaadanError>|
            #![trigger resolver.reads(path, read), self.holds_outcome(h, loaded)]
            resolver.reads(path, read) && match read {
                Ok(bytes) => loader.loads(bytes, path, loaded),
                Err(e) => loaded == Err::<T, KaadanError>(e),
            } && self.holds_outcome(h, loaded)
    }

    /// Load `path` through `resolver` and `loader`, deduplicating by path: a
    /// path requested before gives back its handle and changes nothing, without
    /// reading or loading again; a new path gets a fresh handle, Loaded with
    /// the loader's asset if reading and loading both succeed, else Failed.
    pub fn load_from<R: AssetResolver + ?Sized, L: AssetLoader<Output = T>>(
        &mut self,
        resolver: &R,
        path: &str,
        loader: &L,
    ) -> (h: Handle<T>)
        requires
            old(self).wf(),
            !old(self).paths().contains_key(path@) ==> old(self).handles().can_allocate(),
        ensures
            final(self).wf(),
            old(self).paths().contains_key(path@) ==> h == old(self).paths()[path@] && *final(self)
                == *old(self),
            old(self).paths().submap_of(final(self).paths()),
            old(self).settled() ==> final(self).settled(),
            !old(self).paths().contains_key(path@) ==> {
                &&& allocation(old(self).handles(), final(self).handles(), h)
                &&& final(self).paths() == old(self).paths().insert(path@, h)
                &&& final(self).same_except(old(self), h@.0)
                &&& final(self).others_kept(old(self), h)
                &&& old(self).spec_state(h) is None
                &&& final(self).spec_len() == old(self).spec_len() + 1
                &&& final(self).loaded_through(h, resolver, path@, loader)
            },
    {
        if let Some(existing) = self.handle_for_path(path) {
            return existing;
        }
        let h = match resolver.read_bytes(path) {
            Ok(bytes) => {
                let slice = bytes.as_slice();
                let loaded = loader.load(slice, path);
                let ghost lg = loaded;
                let h = self.complete_load(path, loaded);
                proof {
                    assert(slice@ == bytes@);
                    assert(loader.loads(bytes@, path@, lg));
                    assert(self.holds_outcome(h, lg));
                    let read = Ok::<Seq<u8>, KaadanError>(bytes@);
                    assert(resolver.reads(path@, read));
                    assert(self.loaded_through(h, resolver, path@, loader));
                }
                h
            },
            Err(e) => {
                let ghost eg = e;
                let h = self.complete_load(path, Err(e));
                proof {
                    let read = Err::<Seq<u8>, KaadanError>(eg);
                    assert(resolver.reads(path@, read));
                    assert(self.holds_outcome(h, Err::<T, KaadanError>(eg)));
                    assert(self.loaded_through(h, resolver, path@, loader));
                }
                h
            },
        };
        proof {
            if old(self).settled() {
                assert forall|g: Handle<T>| #[trigger] self.valid(g) implies (self.spec_state(g)
                    == Some(LoadState::Loaded) && self.spec_get(g) is Some) || (self.spec_state(g)
                    == Some(LoadState::Failed) && self.spec_get(g) is None) by {
                    if g != h {
                        assert(self.spec_state(g) == old(self).spec_state(g));
                        assert(old(self).valid(g));
                    }
                }
            }
        }
        h
    }

    /// Read after write: once `insert(asset)` (or `insert_with_path`, or a
    /// successful `fulfill`) has put `asset` under `h`, `get(h)` yields it and
    /// `remove(h)` gives it back, leaving `h` without asset or state.
    pub proof fn lemma_write_then_read_and_remove(s1: Self, s2: Self, h: Handle<T>, asset: T)
        requires
            s1.wf(),
            s1.spec_get(h) == Some(asset),
            s2.wf(),
            release(s1.handles(), s2.handles(), h, s1.valid(h)),
            s2.same_except(&s1, h@.0),
        ensures
            s1.valid(h),
            s1.spec_state(h) is Some,
            !s2.valid(h),
            s2.spec_get(h) is None,
            s2.spec_state(h) is None,
            s2.spec_len() + 1 == s1.spec_len(),
    {
    }

    /// A handle has a load state exactly while it is valid.
    pub proof fn lemma_state_iff_valid(&self, h: Handle<T>)
        requires
            self.wf(),
        ensures
            self.spec_state(h) is Some <==> self.valid(h),
    {
    }

    /// A well-formed storage has a well-formed handle allocator.
    pub proof fn lemma_wf_handles(&self)
        requires
            self.wf(),
        ensures
            self.handles().wf(),
    {
    }

    /// Over a history of calls: with `issued` the handles that `insert`,
    /// `insert_with_path`, `insert_failed`, `reserve`, `complete_load` and
    /// `load_from` have handed out, and `freed` those that `remove` found
    /// valid, a handle has a state exactly while it was issued and not freed,
    /// it has an asset only if it has a state, and `len` is the number issued
    /// less the number freed (Queued and Failed entries count too).
    pub proof fn lemma_state_iff_issued(&self, h: Handle<T>, issued: Set<(u32, u32)>, freed: Set<(u32, u32)>)
        requires
            self.wf(),
            accounts_for(self.handles(), issued, freed),
        ensures
            self.spec_state(h) is Some <==> issued.contains(h@) && !freed.contains(h@),
            self.spec_get(h) is Some ==> self.spec_state(h) is Some,
            self.spec_len() + freed.len() == issued.len(),
    {
    }

    /// Repeated loads: once `path` maps to `h`, every later storage in a run
    /// whose steps each keep the earlier paths (as `load_from` does) still
    /// maps `path` to `h`, so loading `path` again gives back `h` and changes
    /// nothing, whether the first load succeeded or failed.
    pub proof fn lemma_path_kept(runs: Seq<Self>, path: Seq<char>, h: Handle<T>)
        requires
            runs.len() > 0,
            runs[0].paths().contains_key(path),
            runs[0].paths()[path] == h,
            forall|i: int|
                0 <= i < runs.len() - 1 ==> #[trigger] runs[i].paths().submap_of(runs[i + 1].paths()),
        ensures
            runs.last().paths().contains_key(path),
            runs.last().paths()[path] == h,
        decreases runs.len(),
    {
        if runs.len() > 1 {
            let front = runs.drop_last();
            assert forall|i: int| 0 <= i < front.len() - 1 implies #[trigger] front[i].paths().submap_of(
                front[i + 1].paths(),
            ) by {
                assert(runs[i].paths().submap_of(runs[i + 1].paths()));
            }
            Self::lemma_path_kept(front, path, h);
            let k = runs.len() - 2;
            assert(runs[k].paths().submap_of(runs[k + 1].paths()));
            assert(front.last() == runs[k]);
        }
    }

    /// A removed handle never yields an asset or a state again, whatever
    /// later operations do: it is retired, and retired handles are invalid.
    pub proof fn lemma_retired_handle_is_empty(&self, h: Handle<T>)
        requires
            self.wf(),
            self.handles().retired_id(h@.0, h@.1),
        ensures
            self.spec_get(h) is None,
            self.spec_state(h) is None,
    {
    }
}

} // verus!
