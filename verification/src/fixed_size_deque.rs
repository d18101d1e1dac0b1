//! A double-ended queue over a fixed-size ring of five slots, so that it
//! never reallocates.  Elements are kept oldest first; pushing on a full
//! ring is refused rather than overwriting.

use vstd::prelude::*;

verus! {

/// Number of slots in the ring.
pub const FIXED_SIZE: usize = 5;

/// A fixed-capacity double-ended queue.
#[derive(Clone, Debug)]
pub struct FixedSizeDeque<T: Copy + Default> {
    /// The ring slots; only the live region is meaningful.
    pub data: Vec<T>,
    /// Slot of the oldest element.
    pub head: usize,
    /// Slot one past the newest element.
    pub tail: usize,
    /// Distinguishes the full ring from the empty one when the two
    /// cursors coincide.
    pub at_cap: bool,
}

impl<T: Copy + Default> FixedSizeDeque<T> {
    /// The ring has its five slots and both cursors inside them, and the
    /// full flag is raised only when the cursors coincide.
    pub open spec fn wf(self) -> bool {
        &&& self.data@.len() == FIXED_SIZE
        &&& self.head < FIXED_SIZE
        &&& self.tail < FIXED_SIZE
        &&& (self.at_cap ==> self.head == self.tail)
    }

    /// Number of live elements.
    pub open spec fn spec_len(self) -> nat {
        if self.head == self.tail {
            if self.at_cap {
                FIXED_SIZE as nat
            } else {
                0
            }
        } else {
            (((self.tail + FIXED_SIZE) - self.head) % (FIXED_SIZE as int)) as nat
        }
    }

    /// The live elements, oldest first.
    pub open spec fn view(self) -> Seq<T> {
        Seq::new(
            self.spec_len(),
            |i: int| self.data@[((self.head + i) % (FIXED_SIZE as int)) as int],
        )
    }

    /// An empty deque.
    pub fn new() -> (d: FixedSizeDeque<T>)
        ensures
            d.wf(),
            d.view() == Seq::<T>::empty(),
    {
        let mut data: Vec<T> = Vec::new();
        let mut k: usize = 0;
        while k < FIXED_SIZE
            invariant
                k <= FIXED_SIZE,
                data@.len() == k,
            decreases FIXED_SIZE - k,
        {
            data.push(T::default());
            k = k + 1;
        }
        let d = FixedSizeDeque { data, head: 0, tail: 0, at_cap: false };
        proof {
            assert(d.view() =~= Seq::<T>::empty());
        }
        d
    }

    /// Number of live elements.
    pub fn len(&self) -> (n: usize)
        requires
            self.wf(),
        ensures
            n == self.view().len(),
    {
        if self.head > self.tail {
            (self.tail + FIXED_SIZE) - self.head
        } else if self.head < self.tail {
            self.tail - self.head
        } else if self.at_cap {
            FIXED_SIZE
        } else {
            0
        }
    }

    /// The newest element, if any.
    pub fn back(&self) -> (r: Option<T>)
        requires
            self.wf(),
        ensures
            self.view().len() == 0 ==> r is None,
            self.view().len() > 0 ==> r == Some(self.view().last()),
    {
        if self.len() == 0 {
            None
        } else {
            let last = (self.tail + (FIXED_SIZE - 1)) % FIXED_SIZE;
            proof {
                assert(self.view().last() == self.data@[
                    ((self.head + (self.view().len() - 1)) % (FIXED_SIZE as int)) as int
                ]);
                assert(((self.head + (self.view().len() - 1)) % (FIXED_SIZE as int)) as int == ((
                self.tail + (FIXED_SIZE as int - 1)) % (FIXED_SIZE as int)) as int);
            }
            Some(self.data[last])
        }
    }

    /// Number of slots in the ring.
    pub fn capacity(&self) -> (n: usize)
        ensures
            n == FIXED_SIZE,
    {
        FIXED_SIZE
    }

    /// Appends an element at the newest end; reports whether there was
    /// room.
    pub fn push_back(&mut self, t: T) -> (ok: bool)
        requires
            old(self).wf(),
        ensures
            final(self).wf(),
            old(self).view().len() == FIXED_SIZE ==> !ok && *final(self) == *old(self),
            old(self).view().len() < FIXED_SIZE ==> ok && final(self).view() == old(
                self,
            ).view().push(t),
    {
        if self.at_cap {
            return false;
        }
        self.data.set(self.tail, t);
        self.tail = (self.tail + 1) % FIXED_SIZE;
        self.at_cap = self.head == self.tail;
        proof {
            assert(self.view() =~= old(self).view().push(t));
        }
        true
    }

    /// Removes and returns the oldest element, if any.
    pub fn pop_front(&mut self) -> (r: Option<T>)
        requires
            old(self).wf(),
        ensures
            final(self).wf(),
            old(self).view().len() == 0 ==> r is None && *final(self) == *old(self),
            old(self).view().len() > 0 ==> r == Some(old(self).view()[0]) && final(self).view()
                == old(self).view().subrange(1, old(self).view().len() as int),
    {
        if self.len() == 0 {
            return None;
        }
        let out = self.data[self.head];
        self.head = (self.head + 1) % FIXED_SIZE;
        self.at_cap = false;
        proof {
            assert(self.view() =~= old(self).view().subrange(
                1,
                old(self).view().len() as int,
            ));
        }
        Some(out)
    }

    /// Keeps only the `len` oldest elements; a `len` at or beyond the
    /// current length changes nothing.
    pub fn truncate(&mut self, len: usize)
        requires
            old(self).wf(),
        ensures
            final(self).wf(),
            len >= old(self).view().len() ==> *final(self) == *old(self),
            len < old(self).view().len() ==> final(self).view() == old(self).view().subrange(
                0,
                len as int,
            ),
    {
        if len >= self.len() {
            return;
        }
        self.tail = (self.head + len) % FIXED_SIZE;
        self.at_cap = false;
        proof {
            assert(self.view() =~= old(self).view().subrange(0, len as int));
        }
    }

    /// Removes every element.
    pub fn clear(&mut self)
        requires
            old(self).wf(),
        ensures
            final(self).wf(),
            final(self).view() == Seq::<T>::empty(),
    {
        self.truncate(0);
        proof {
            assert(self.view() =~= Seq::<T>::empty());
        }
    }

    /// Prepends an element at the oldest end; reports whether there was
    /// room.
    pub fn push_front(&mut self, t: T) -> (ok: bool)
        requires
            old(self).wf(),
        ensures
            final(self).wf(),
            old(self).view().len() == FIXED_SIZE ==> !ok && *final(self) == *old(self),
            old(self).view().len() < FIXED_SIZE ==> ok && final(self).view() == Seq::<
                T,
            >::empty().push(t) + old(self).view(),
    {
        if self.at_cap {
            return false;
        }
        self.head = if self.head == 0 {
            FIXED_SIZE - 1
        } else {
            self.head - 1
        };
        self.data.set(self.head, t);
        self.at_cap = self.head == self.tail;
        proof {
            assert(self.view() =~= Seq::<T>::empty().push(t) + old(self).view());
        }
        true
    }
}

} // verus!
