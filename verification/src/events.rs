//! Minimal double-buffered event queue.
//!
//! Events stay readable for the frame they were sent in plus the next one:
//! `update`, called once per frame, drops the older buffer.
use vstd::prelude::*;

verus! {

/// The queue as `(older, newer)`: events sent before the last `update`, and
/// events sent since.
pub open spec fn readable<T>(v: (Seq<T>, Seq<T>)) -> Seq<T> {
    v.0 + v.1
}

/// The queue after one `update`: the newer buffer becomes the older one.
pub open spec fn after_update<T>(v: (Seq<T>, Seq<T>)) -> (Seq<T>, Seq<T>) {
    (v.1, Seq::empty())
}

/// The queue after sending `e`.
pub open spec fn after_send<T>(v: (Seq<T>, Seq<T>), e: T) -> (Seq<T>, Seq<T>) {
    (v.0, v.1.push(e))
}

/// A double-buffered queue of events of type `T`.
pub struct Events<T> {
    buffer_a: Vec<T>,
    buffer_b: Vec<T>,
    /// Which buffer receives new events: 0 for `buffer_a`, otherwise `buffer_b`.
    write: usize,
}

impl<T> View for Events<T> {
    type V = (Seq<T>, Seq<T>);

    closed spec fn view(&self) -> (Seq<T>, Seq<T>) {
        if self.write == 0 {
            (self.buffer_b@, self.buffer_a@)
        } else {
            (self.buffer_a@, self.buffer_b@)
        }
    }
}

impl<T> Events<T> {
    pub fn new() -> (e: Self)
        ensures
            e@ == (Seq::<T>::empty(), Seq::<T>::empty()),
    {
        Events { buffer_a: Vec::new(), buffer_b: Vec::new(), write: 0 }
    }

    /// Queue an event.
    pub fn send(&mut self, event: T)
        ensures
            final(self)@ == after_send(old(self)@, event),
    {
        if self.write == 0 {
            self.buffer_a.push(event);
        } else {
            self.buffer_b.push(event);
        }
    }

    /// Advance the buffers: the oldest buffer is cleared and becomes the new
    /// write target. Call once per frame.
    pub fn update(&mut self)
        ensures
            final(self)@ == after_update(old(self)@),
    {
        self.write = if self.write == 0 {
            1
        } else {
            0
        };
        if self.write == 0 {
            self.buffer_a.clear();
        } else {
            self.buffer_b.clear();
        }
    }

    /// All currently-readable events (last frame's, then this frame's), oldest first.
    pub fn iter(&self) -> (r: Vec<&T>)
        ensures
            r@.len() == readable(self@).len(),
            forall|i: int| 0 <= i < r@.len() ==> *#[trigger] r@[i] == readable(self@)[i],
    {
        let (read, write) = if self.write == 0 {
            (&self.buffer_b, &self.buffer_a)
        } else {
            (&self.buffer_a, &self.buffer_b)
        };
        let mut out: Vec<&T> = Vec::new();
        let mut i: usize = 0;
        while i < read.len()
            invariant
                i <= read@.len(),
                out@.len() == i,
                forall|k: int| 0 <= k < i ==> *#[trigger] out@[k] == read@[k],
            decreases read.len() - i,
        {
            out.push(&read[i]);
            i = i + 1;
        }
        let mut j: usize = 0;
        while j < write.len()
            invariant
                j <= write@.len(),
                out@.len() == read@.len() + j,
                forall|k: int| 0 <= k < read@.len() ==> *#[trigger] out@[k] == read@[k],
                forall|k: int| 0 <= k < j ==> *#[trigger] out@[read@.len() + k] == write@[k],
            decreases write.len() - j,
        {
            out.push(&write[j]);
            j = j + 1;
        }
        proof {
            let rd = readable(self@);
            assert forall|k: int| 0 <= k < out@.len() implies *#[trigger] out@[k] == rd[k] by {
                if k >= read@.len() {
                    assert(out@[read@.len() + (k - read@.len())] == out@[k]);
                }
            }
        }
        out
    }

    pub fn is_empty(&self) -> (b: bool)
        ensures
            b == (readable(self@).len() == 0),
    {
        self.buffer_a.len() == 0 && self.buffer_b.len() == 0
    }

    pub fn len(&self) -> (n: usize)
        requires
            readable(self@).len() <= usize::MAX,
        ensures
            n == readable(self@).len(),
    {
        self.buffer_a.len() + self.buffer_b.len()
    }

    /// Events expire after two updates: whatever the queue holds, two
    /// `update`s with no `send` between them leave nothing readable.
    pub proof fn lemma_expire_after_two_updates(v: (Seq<T>, Seq<T>))
        ensures
            readable(after_update(after_update(v))).len() == 0,
    {
    }

    /// A sent event is still readable after one `update`, and is the last
    /// readable event when nothing was sent after it.
    pub proof fn lemma_readable_for_one_more_frame(v: (Seq<T>, Seq<T>), e: T)
        ensures
            readable(after_update(after_send(v, e))).len() > 0,
            readable(after_update(after_send(v, e))).last() == e,
            readable(after_send(v, e)).last() == e,
    {
    }
}

} // verus!
