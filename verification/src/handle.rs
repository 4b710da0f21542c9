//! Generational handles and the allocator that hands them out.
//!
//! A handle names a slot and the generation the slot had when the handle was
//! made. Freeing a slot retires every handle to it: the slot's generation only
//! grows, so a retired handle never becomes valid again, even after the slot
//! is reused.
use std::marker::PhantomData;
use vstd::prelude::*;

verus! {

/// A type-safe handle to a resource with a generational index.
#[derive(Debug)]
pub struct Handle<T> {
    index: u32,
    generation: u32,
    _marker: PhantomData<T>,
}

impl<T> View for Handle<T> {
    /// `(index, generation)`.
    type V = (u32, u32);

    closed spec fn view(&self) -> (u32, u32) {
        (self.index, self.generation)
    }
}

impl<T> Clone for Handle<T> {
    fn clone(&self) -> (res: Self)
        ensures
            res == *self,
    {
        *self
    }
}

impl<T> Copy for Handle<T> {

}

impl<T> PartialEq for Handle<T> {
    fn eq(&self, other: &Self) -> (res: bool) {
        self.index == other.index && self.generation == other.generation
    }
}

impl<T> vstd::std_specs::cmp::PartialEqSpecImpl for Handle<T> {
    open spec fn obeys_eq_spec() -> bool {
        true
    }

    open spec fn eq_spec(&self, other: &Self) -> bool {
        self@ == other@
    }
}

impl<T> Eq for Handle<T> {

}

impl<T> std::hash::Hash for Handle<T> {
    /// Hashes the index and then the generation (`u32::hash` on each), so
    /// handles that compare equal hash equally whatever `T` is.
    #[verifier::external_body]
    fn hash<H: std::hash::Hasher>(&self, state: &mut H) {
        self.index.hash(state);
        self.generation.hash(state);
    }
}

impl<T> Handle<T> {
    /// Two handles are the same value exactly when their views agree.
    pub proof fn lemma_view_injective(a: Handle<T>, b: Handle<T>)
        ensures
            (a@ == b@) <==> a == b,
    {
    }

    pub(crate) fn from_parts(index: u32, generation: u32) -> (h: Handle<T>)
        ensures
            h@ == (index, generation),
    {
        Handle { index, generation, _marker: PhantomData }
    }

    pub fn index(&self) -> (i: u32)
        ensures
            i == self@.0,
    {
        self.index
    }

    pub fn generation(&self) -> (g: u32)
        ensures
            g == self@.1,
    {
        self.generation
    }
}

/// Entry in the allocator's slot array.
struct Slot {
    generation: u32,
    is_live: bool,
}

/// Number of live slots in `slots`.
pub open spec fn count_live(slots: Seq<(u32, bool)>) -> nat
    decreases slots.len(),
{
    if slots.len() == 0 {
        0
    } else {
        count_live(slots.drop_last()) + if slots.last().1 {
            1nat
        } else {
            0nat
        }
    }
}

/// Changing one slot changes the live count by the change in that slot's liveness.
pub proof fn lemma_count_live_update(slots: Seq<(u32, bool)>, i: int, s: (u32, bool))
    requires
        0 <= i < slots.len(),
    ensures
        count_live(slots.update(i, s)) + (if slots[i].1 {
            1int
        } else {
            0int
        }) == count_live(slots) + (if s.1 {
            1int
        } else {
            0int
        }),
    decreases slots.len(),
{
    if i == slots.len() - 1 {
        assert(slots.update(i, s).drop_last() =~= slots.drop_last());
    } else {
        lemma_count_live_update(slots.drop_last(), i, s);
        assert(slots.update(i, s).drop_last() =~= slots.drop_last().update(i, s));
    }
}

/// Appending a slot adds its liveness to the count.
pub proof fn lemma_count_live_push(slots: Seq<(u32, bool)>, s: (u32, bool))
    ensures
        count_live(slots.push(s)) == count_live(slots) + (if s.1 {
            1nat
        } else {
            0nat
        }),
{
    assert(slots.push(s).drop_last() =~= slots);
}

/// What `allocate` does: `h` is the reused last free slot with its generation
/// bumped, or a fresh slot at generation 0; it was not valid before and is valid
/// now; every previously valid handle stays valid; every retired handle stays
/// retired; one more handle is live.
pub open spec fn allocation<T>(pre: HandleAllocator<T>, post: HandleAllocator<T>, h: Handle<T>) -> bool {
    &&& pre@.1.len() > 0 ==> {
        let i = pre@.1.last();
        &&& h@ == (i, (pre@.0[i as int].0 + 1) as u32)
        &&& post@.0 == pre@.0.update(i as int, (h@.1, true))
        &&& post@.1 == pre@.1.drop_last()
    }
    &&& pre@.1.len() == 0 ==> {
        &&& h@ == (pre@.0.len() as u32, 0u32)
        &&& post@.0 == pre@.0.push((0u32, true))
        &&& post@.1 == pre@.1
    }
    &&& post.valid_id(h@.0, h@.1)
    &&& !pre.valid_id(h@.0, h@.1)
    &&& post.spec_live_count() == pre.spec_live_count() + 1
    &&& forall|i: u32, g: u32| #[trigger] pre.valid_id(i, g) ==> post.valid_id(i, g)
    &&& forall|i: u32, g: u32| #[trigger] pre.retired_id(i, g) ==> post.retired_id(i, g)
}

/// What `free` does: it succeeds exactly on a valid handle, which it retires
/// (its slot goes dead and onto the free list); otherwise nothing changes.
/// Every other valid handle stays valid and every retired handle stays retired.
pub open spec fn release<T>(pre: HandleAllocator<T>, post: HandleAllocator<T>, h: Handle<T>, freed: bool) -> bool {
    &&& freed == pre.valid_id(h@.0, h@.1)
    &&& freed ==> post@.0 == pre@.0.update(h@.0 as int, (h@.1, false)) && post@.1 == pre@.1.push(h@.0)
    &&& freed ==> post.spec_live_count() + 1 == pre.spec_live_count()
    &&& freed ==> post.retired_id(h@.0, h@.1)
    &&& !freed ==> post@ == pre@
    &&& forall|i: u32, g: u32| #[trigger] pre.retired_id(i, g) ==> post.retired_id(i, g)
    &&& forall|i: u32, g: u32| #[trigger] pre.valid_id(i, g) && i != h@.0 ==> post.valid_id(i, g)
}

/// The handles `a` has handed out (`issued`) and those of them it has freed
/// again (`freed`), as `(index, generation)` pairs, agree with its state: a
/// handle is valid exactly when it was issued and not freed since, every issued
/// handle names an existing slot at or below that slot's generation, and the
/// live count is the number issued less the number freed.
pub open spec fn accounts_for<T>(a: HandleAllocator<T>, issued: Set<(u32, u32)>, freed: Set<(u32, u32)>) -> bool {
    &&& issued.finite()
    &&& freed.subset_of(issued)
    &&& forall|id: (u32, u32)| #[trigger] issued.contains(id) ==> id.0 < a@.0.len() && id.1 <= a@.0[id.0 as int].0
    &&& forall|id: (u32, u32)|
        #![trigger a.valid_id(id.0, id.1)]
        #![trigger issued.contains(id)]
        a.valid_id(id.0, id.1) <==> issued.contains(id) && !freed.contains(id)
    &&& a.spec_live_count() + freed.len() == issued.len()
}

/// A new allocator has handed out nothing.
pub proof fn lemma_accounts_start<T>(a: HandleAllocator<T>)
    requires
        a@.0 == Seq::<(u32, bool)>::empty(),
    ensures
        accounts_for(a, Set::empty(), Set::empty()),
{
}

/// Allocation over a history: the handle `allocate` returns differs from every
/// handle returned before, and recording it as issued keeps the account.
pub proof fn lemma_accounts_allocate<T>(
    pre: HandleAllocator<T>,
    post: HandleAllocator<T>,
    h: Handle<T>,
    issued: Set<(u32, u32)>,
    freed: Set<(u32, u32)>,
)
    requires
        pre.wf(),
        pre.can_allocate(),
        accounts_for(pre, issued, freed),
        allocation(pre, post, h),
    ensures
        !issued.contains(h@),
        accounts_for(post, issued.insert(h@), freed),
{
    let i = h@.0;
    if issued.contains(h@) {
        if pre@.1.len() > 0 {
            assert(pre@.1[pre@.1.len() - 1] < pre@.0.len());
        }
        assert(false);
    }
    let issued2 = issued.insert(h@);
    assert forall|id: (u32, u32)| #[trigger] issued2.contains(id) implies id.0 < post@.0.len() && id.1
        <= post@.0[id.0 as int].0 by {
        if id != h@ {
            assert(issued.contains(id));
        }
    }
    assert forall|id: (u32, u32)| #[trigger] issued2.contains(id) && !freed.contains(id) implies post.valid_id(
        id.0,
        id.1,
    ) by {
        if id != h@ {
            assert(issued.contains(id));
            assert(pre.valid_id(id.0, id.1));
        }
    }
    assert forall|id: (u32, u32)| post.valid_id(id.0, id.1) implies #[trigger] issued2.contains(id)
        && !freed.contains(id) by {
        if id != h@ {
            if id.0 == i {
                if pre@.1.len() > 0 {
                    assert(pre@.1[pre@.1.len() - 1] < pre@.0.len());
                }
                assert(false);
            }
            assert(pre.valid_id(id.0, id.1));
        }
    }
    assert(freed.subset_of(issued2));
}

/// Freeing over a history: a successful `free` moves its handle to the freed
/// ones, a failed one changes nothing, and either way the account is kept.
pub proof fn lemma_accounts_free<T>(
    pre: HandleAllocator<T>,
    post: HandleAllocator<T>,
    h: Handle<T>,
    ok: bool,
    issued: Set<(u32, u32)>,
    freed: Set<(u32, u32)>,
)
    requires
        pre.wf(),
        accounts_for(pre, issued, freed),
        release(pre, post, h, ok),
    ensures
        ok ==> issued.contains(h@) && !freed.contains(h@),
        accounts_for(post, issued, if ok { freed.insert(h@) } else { freed }),
{
    if ok {
        assert(pre.valid_id(h@.0, h@.1));
        let freed2 = freed.insert(h@);
        assert forall|id: (u32, u32)| #[trigger] issued.contains(id) implies id.0 < post@.0.len() && id.1
            <= post@.0[id.0 as int].0 by {
        }
        assert forall|id: (u32, u32)| post.valid_id(id.0, id.1) implies #[trigger] issued.contains(id)
            && !freed2.contains(id) by {
            assert(pre.valid_id(id.0, id.1));
        }
        assert forall|id: (u32, u32)| #[trigger] issued.contains(id) && !freed2.contains(id) implies post.valid_id(
            id.0,
            id.1,
        ) by {
            assert(pre.valid_id(id.0, id.1));
        }
        assert(freed2.subset_of(issued));
        assert(freed2.len() == freed.len() + 1);
    } else {
        assert forall|id: (u32, u32)| #[trigger] post.valid_id(id.0, id.1) == pre.valid_id(id.0, id.1) by {
        }
    }
}

/// Allocates and validates `Handle<T>` instances.
pub struct HandleAllocator<T> {
    slots: Vec<Slot>,
    free_list: Vec<u32>,
    _marker: PhantomData<T>,
}

impl<T> View for HandleAllocator<T> {
    /// The slots as `(generation, live)` pairs, and the free list (last entry reused first).
    type V = (Seq<(u32, bool)>, Seq<u32>);

    closed spec fn view(&self) -> (Seq<(u32, bool)>, Seq<u32>) {
        (self.slots@.map_values(|s: Slot| (s.generation, s.is_live)), self.free_list@)
    }
}

impl<T> HandleAllocator<T> {
    /// The allocator's internal consistency: the free list holds exactly the
    /// dead slots, each once, and every slot index fits in a `u32`.
    pub open spec fn wf(&self) -> bool {
        let slots = self@.0;
        let free = self@.1;
        &&& slots.len() <= u32::MAX
        &&& forall|k: int| 0 <= k < free.len() ==> #[trigger] free[k] < slots.len()
        &&& forall|k: int|
            0 <= k < free.len() ==> !(#[trigger] slots[free[k] as int]).1
        &&& forall|i: int| 0 <= i < slots.len() && !(#[trigger] slots[i]).1 ==> free.contains(i as u32)
        &&& forall|k: int, l: int| 0 <= k < l < free.len() ==> #[trigger] free[k] != #[trigger] free[l]
    }

    /// A handle with this index and generation refers to a live slot.
    pub open spec fn valid_id(&self, index: u32, generation: u32) -> bool {
        &&& index < self@.0.len()
        &&& self@.0[index as int].1
        &&& self@.0[index as int].0 == generation
    }

    /// A handle with this index and generation has been freed: its slot has
    /// moved on to a later generation, or sits dead at the handle's generation.
    pub open spec fn retired_id(&self, index: u32, generation: u32) -> bool {
        &&& index < self@.0.len()
        &&& (self@.0[index as int].0 > generation || (self@.0[index as int].0 == generation
            && !self@.0[index as int].1))
    }

    pub open spec fn spec_live_count(&self) -> nat {
        count_live(self@.0)
    }

    /// Whether `allocate` can run without a generation or index overflow.
    pub open spec fn can_allocate(&self) -> bool {
        if self@.1.len() > 0 {
            self@.0[self@.1.last() as int].0 < u32::MAX
        } else {
            self@.0.len() < u32::MAX
        }
    }

    pub fn new() -> (a: Self)
        ensures
            a.wf(),
            a@.0 == Seq::<(u32, bool)>::empty(),
            a@.1 == Seq::<u32>::empty(),
    {
        let a = HandleAllocator { slots: Vec::new(), free_list: Vec::new(), _marker: PhantomData };
        assert(a@.0 =~= Seq::<(u32, bool)>::empty());
        a
    }

    /// Allocate a new handle: reuse the most recently freed slot with its
    /// generation bumped, or append a fresh slot at generation 0.
    pub fn allocate(&mut self) -> (h: Handle<T>)
        requires
            old(self).wf(),
            old(self).can_allocate(),
        ensures
            final(self).wf(),
            allocation(*old(self), *final(self), h),
    {
        let ghost old_slots = self@.0;
        if let Some(index) = self.free_list.pop() {
            proof {
                assert(self.free_list@.len() + 1 == old(self)@.1.len());
                assert(index == old(self)@.1.last());
            }
            let generation = self.slots[index as usize].generation + 1;
            self.slots.set(index as usize, Slot { generation, is_live: true });
            proof {
                assert(self@.0 =~= old_slots.update(index as int, (generation, true)));
                lemma_count_live_update(old_slots, index as int, (generation, true));
                let free = self@.1;
                assert forall|i: int| 0 <= i < self@.0.len() && !(#[trigger] self@.0[i]).1 implies free.contains(
                    i as u32,
                ) by {
                    assert(old(self)@.1.contains(i as u32));
                    let k = choose|k: int| 0 <= k < old(self)@.1.len() && old(self)@.1[k] == i as u32;
                    if k == old(self)@.1.len() - 1 {
                        assert(false);
                    }
                    assert(free[k] == i as u32);
                }
            }
            Handle { index, generation, _marker: PhantomData }
        } else {
            let index = self.slots.len() as u32;
            self.slots.push(Slot { generation: 0, is_live: true });
            proof {
                assert(self@.0 =~= old_slots.push((0u32, true)));
                lemma_count_live_push(old_slots, (0u32, true));
            }
            Handle { index, generation: 0, _marker: PhantomData }
        }
    }

    /// Free a handle's slot for reuse. Returns true if the handle was valid.
    pub fn free(&mut self, handle: Handle<T>) -> (freed: bool)
        requires
            old(self).wf(),
        ensures
            final(self).wf(),
            release(*old(self), *final(self), handle, freed),
    {
        if self.is_valid(handle) {
            let ghost old_slots = self@.0;
            let generation = self.slots[handle.index as usize].generation;
            self.slots.set(handle.index as usize, Slot { generation, is_live: false });
            self.free_list.push(handle.index);
            proof {
                assert(self@.0 =~= old_slots.update(handle.index as int, (handle.generation, false)));
                lemma_count_live_update(old_slots, handle.index as int, (handle.generation, false));
                let free = self@.1;
                let slots = self@.0;
                assert(free =~= old(self)@.1.push(handle.index));
                assert forall|k: int| 0 <= k < free.len() implies #[trigger] free[k] < slots.len()
                    && !slots[free[k] as int].1 by {
                    if k < free.len() - 1 {
                        assert(free[k] == old(self)@.1[k]);
                        assert(!old_slots[free[k] as int].1);
                    }
                }
                assert forall|k: int, l: int| 0 <= k < l < free.len() implies #[trigger] free[k]
                    != #[trigger] free[l] by {
                    assert(free[k] == old(self)@.1[k]);
                    if l == free.len() - 1 {
                        assert(!old_slots[free[k] as int].1);
                    } else {
                        assert(free[l] == old(self)@.1[l]);
                    }
                }
                assert forall|i: int| 0 <= i < self@.0.len() && !(#[trigger] self@.0[i]).1 implies free.contains(
                    i as u32,
                ) by {
                    if i == handle.index as int {
                        assert(free[free.len() - 1] == handle.index);
                    } else {
                        let k = choose|k: int| 0 <= k < old(self)@.1.len() && old(self)@.1[k] == i as u32;
                        assert(free[k] == i as u32);
                    }
                }
            }
            true
        } else {
            false
        }
    }

    /// Whether `allocate` can run without a generation or index overflow.
    pub fn has_room(&self) -> (b: bool)
        requires
            self.wf(),
        ensures
            b == self.can_allocate(),
    {
        if self.free_list.len() > 0 {
            let i = self.free_list[self.free_list.len() - 1];
            proof {
                assert(self@.1[self@.1.len() - 1] < self@.0.len());
            }
            self.slots[i as usize].generation < u32::MAX
        } else {
            self.slots.len() < u32::MAX as usize
        }
    }

    /// Check if a handle still refers to a live resource.
    pub fn is_valid(&self, handle: Handle<T>) -> (valid: bool)
        ensures
            valid == self.valid_id(handle@.0, handle@.1),
    {
        if (handle.index as usize) < self.slots.len() {
            let slot = &self.slots[handle.index as usize];
            slot.is_live && slot.generation == handle.generation
        } else {
            false
        }
    }

    /// Number of currently live handles.
    pub fn live_count(&self) -> (n: usize)
        ensures
            n == self.spec_live_count(),
    {
        let mut n: usize = 0;
        let mut i: usize = 0;
        while i < self.slots.len()
            invariant
                i <= self.slots.len(),
                n == count_live(self@.0.take(i as int)),
                n <= i,
            decreases self.slots.len() - i,
        {
            proof {
                assert(self@.0.take(i as int + 1).drop_last() =~= self@.0.take(i as int));
            }
            if self.slots[i].is_live {
                n = n + 1;
            }
            i = i + 1;
        }
        proof {
            assert(self@.0.take(i as int) =~= self@.0);
        }
        n
    }

    /// A freed handle is never valid again: retirement excludes validity, and
    /// `allocate` and `free` keep every retired handle retired.
    pub proof fn lemma_retired_is_invalid(&self, index: u32, generation: u32)
        requires
            self.retired_id(index, generation),
        ensures
            !self.valid_id(index, generation),
    {
    }

    /// Two valid handles on the same slot are the same handle.
    pub proof fn lemma_valid_unique(&self, a: Handle<T>, b: Handle<T>)
        requires
            self.valid_id(a@.0, a@.1),
            self.valid_id(b@.0, b@.1),
            a@.0 == b@.0,
        ensures
            a == b,
    {
        Handle::<T>::lemma_view_injective(a, b);
    }
}

} // verus!
