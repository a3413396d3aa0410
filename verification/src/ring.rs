//! A fixed-capacity FIFO ring buffer with an overwrite-on-full push, used for
//! the debug event trail.
//!
//! The buffer is modelled as the sequence of items it currently holds, oldest
//! first. `push_overwrite` never fails: when the buffer is full it discards
//! the oldest item to make room for the newest.

use vstd::prelude::*;

verus! {

#[derive(Debug, Clone, Copy, PartialEq, Eq, Structural)]
pub enum RingBufferError {
    Full,
    Empty,
}

#[derive(Debug, Clone)]
pub struct RingBuffer<T> {
    buf: Vec<T>,
    cap: usize,
    read: usize,
    write: usize,
    full: bool,
}

impl<T> View for RingBuffer<T> {
    type V = Seq<T>;

    /// The items currently held, oldest first.
    closed spec fn view(&self) -> Seq<T> {
        Seq::new(
            self.spec_len(),
            |i: int|
                self.buf@[
                    if self.read + i < self.cap {
                        self.read + i
                    } else {
                        self.read + i - self.cap
                    }
                ],
        )
    }
}

impl<T> RingBuffer<T> {
    /// Number of items currently held.
    pub closed spec fn spec_len(&self) -> nat {
        if self.full {
            self.cap as nat
        } else if self.write >= self.read {
            (self.write - self.read) as nat
        } else {
            (self.write + self.cap - self.read) as nat
        }
    }

    /// The fixed capacity the buffer was created with.
    pub closed spec fn spec_cap(&self) -> nat {
        self.cap as nat
    }

    /// Structural well-formedness: the storage never exceeds the capacity and
    /// the cursors stay inside it. The storage grows lazily: until the buffer
    /// has wrapped around once, the write cursor sits at the end of the
    /// storage.
    pub closed spec fn wf(&self) -> bool {
        &&& self.cap >= 1
        &&& self.buf@.len() <= self.cap
        &&& if self.buf@.len() < self.cap {
            self.write == self.buf@.len() && self.read <= self.write && !self.full
        } else {
            self.read < self.cap && self.write < self.cap
        }
        &&& self.full ==> self.read == self.write
    }
}

/// One overwriting push at the model level: append, discarding the oldest
/// item first if the buffer is at capacity.
pub open spec fn push_over<T>(s: Seq<T>, x: T, cap: nat) -> Seq<T> {
    if s.len() < cap {
        s.push(x)
    } else {
        s.subrange(1, s.len() as int).push(x)
    }
}

/// A whole sequence of overwriting pushes at the model level, oldest first.
pub open spec fn push_over_all<T>(s: Seq<T>, xs: Seq<T>, cap: nat) -> Seq<T>
    decreases xs.len(),
{
    if xs.len() == 0 {
        s
    } else {
        push_over_all(push_over(s, xs[0], cap), xs.subrange(1, xs.len() as int), cap)
    }
}

/// After any number of overwriting pushes the buffer holds exactly the most
/// recent `min(cap, total)` items, in FIFO order: the result is the suffix of
/// that length of everything ever pushed. In particular the contents never
/// exceed the capacity, the newest item is never lost, and a pop afterwards
/// returns the oldest retained item.
pub proof fn lemma_push_over_all_is_suffix<T>(s: Seq<T>, xs: Seq<T>, cap: nat)
    requires
        cap >= 1,
        s.len() <= cap,
    ensures
        push_over_all(s, xs, cap).len() == if s.len() + xs.len() <= cap {
            s.len() + xs.len()
        } else {
            cap
        },
        push_over_all(s, xs, cap) == (s + xs).subrange(
            s.len() + xs.len() - push_over_all(s, xs, cap).len(),
            (s.len() + xs.len()) as int,
        ),
    decreases xs.len(),
{
    if xs.len() == 0 {
        assert(push_over_all(s, xs, cap) == s);
        assert((s + xs).subrange(0, s.len() as int) =~= s);
    } else {
        let s1 = push_over(s, xs[0], cap);
        let rest = xs.subrange(1, xs.len() as int);
        assert(s1.len() <= cap);
        lemma_push_over_all_is_suffix(s1, rest, cap);
        let r = push_over_all(s1, rest, cap);
        assert(push_over_all(s, xs, cap) == r);
        assert(s1 + rest =~= if s.len() < cap {
            s + xs
        } else {
            (s + xs).subrange(1, (s.len() + xs.len()) as int)
        });
        assert(r == (s1 + rest).subrange(
            s1.len() + rest.len() - r.len(),
            (s1.len() + rest.len()) as int,
        ));
        assert(push_over_all(s, xs, cap) =~= (s + xs).subrange(
            s.len() + xs.len() - push_over_all(s, xs, cap).len(),
            (s.len() + xs.len()) as int,
        ));
    }
}

impl<T: Copy> RingBuffer<T> {
    /// Create an empty buffer that can hold up to `size` items.
    pub fn new(size: usize) -> (r: RingBuffer<T>)
        requires
            size >= 1,
        ensures
            r.wf(),
            r@ == Seq::<T>::empty(),
            r.spec_cap() == size,
    {
        let r = RingBuffer { buf: Vec::new(), cap: size, read: 0, write: 0, full: false };
        proof {
            assert(r@ =~= Seq::<T>::empty());
        }
        r
    }

    /// Append `item`; fails without changing anything when the buffer is
    /// full.
    pub fn push(&mut self, item: T) -> (r: Result<(), RingBufferError>)
        requires
            old(self).wf(),
        ensures
            final(self).wf(),
            final(self).spec_cap() == old(self).spec_cap(),
            old(self)@.len() == old(self).spec_cap() ==> r == Err::<(), RingBufferError>(
                RingBufferError::Full,
            ) && final(self)@ == old(self)@,
            old(self)@.len() < old(self).spec_cap() ==> r == Ok::<(), RingBufferError>(())
                && final(self)@ == old(self)@.push(item),
    {
        if self.full {
            return Err(RingBufferError::Full);
        }
        let ghost prev = *self;
        if self.buf.len() < self.cap {
            self.buf.push(item);
        } else {
            self.buf.set(self.write, item);
        }
        self.write = if self.write + 1 == self.cap {
            0
        } else {
            self.write + 1
        };
        if self.write == self.read {
            self.full = true;
        }
        proof {
            assert(self@ =~= prev@.push(item));
        }
        Ok(())
    }

    /// Remove and return the oldest item; fails when the buffer is empty.
    pub fn pop(&mut self) -> (r: Result<T, RingBufferError>)
        requires
            old(self).wf(),
        ensures
            final(self).wf(),
            final(self).spec_cap() == old(self).spec_cap(),
            old(self)@.len() == 0 ==> r == Err::<T, RingBufferError>(RingBufferError::Empty)
                && final(self)@ == old(self)@,
            old(self)@.len() > 0 ==> r == Ok::<T, RingBufferError>(old(self)@[0]) && final(self)@
                == old(self)@.subrange(1, old(self)@.len() as int),
    {
        if self.is_empty() {
            return Err(RingBufferError::Empty);
        }
        let ghost prev = *self;
        let item = self.buf[self.read];
        self.read = if self.read + 1 == self.cap {
            0
        } else {
            self.read + 1
        };
        self.full = false;
        proof {
            assert(self@ =~= prev@.subrange(1, prev@.len() as int));
        }
        Ok(item)
    }

    /// Append `item`, discarding the oldest item first when the buffer is
    /// full. Never fails; the newest item is always retained.
    pub fn push_overwrite(&mut self, item: T)
        requires
            old(self).wf(),
        ensures
            final(self).wf(),
            final(self).spec_cap() == old(self).spec_cap(),
            final(self)@ == push_over(old(self)@, item, old(self).spec_cap()),
            final(self)@.len() <= old(self).spec_cap(),
    {
        let ghost prev = *self;
        if self.buf.len() < self.cap {
            self.buf.push(item);
        } else {
            self.buf.set(self.write, item);
        }
        self.write = if self.write + 1 == self.cap {
            0
        } else {
            self.write + 1
        };
        if self.full {
            self.read = self.write;
        } else if self.write == self.read {
            self.full = true;
        }
        proof {
            if prev@.len() < prev.spec_cap() {
                assert(self@ =~= prev@.push(item));
            } else {
                assert(self@ =~= prev@.subrange(1, prev@.len() as int).push(item));
            }
        }
    }

    /// Whether the buffer currently holds no items.
    pub fn is_empty(&self) -> (r: bool)
        requires
            self.wf(),
        ensures
            r == (self@.len() == 0),
    {
        !self.full && self.read == self.write
    }

    /// Whether the buffer is at capacity, so that a plain `push` would fail.
    pub fn is_full(&self) -> (r: bool)
        requires
            self.wf(),
        ensures
            r == (self@.len() == self.spec_cap()),
    {
        self.full
    }

    /// The fixed capacity the buffer was created with.
    pub fn capacity(&self) -> (r: usize)
        requires
            self.wf(),
        ensures
            r == self.spec_cap(),
    {
        self.cap
    }

    /// The number of items currently held.
    pub fn len(&self) -> (r: usize)
        requires
            self.wf(),
        ensures
            r == self@.len(),
    {
        if self.full {
            self.cap
        } else if self.write >= self.read {
            self.write - self.read
        } else {
            self.cap - (self.read - self.write)
        }
    }
}

} // verus!
