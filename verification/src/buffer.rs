//! A growable byte region that carries bytes over between a producer and a
//! consumer.

use vstd::prelude::*;
use vstd::slice::{slice_subrange, slice_to_vec};
use core::ops::Bound;

verus! {

/// `core::ops::Bound`, one end of a range: unbounded, or an index that is
/// included or excluded.
#[verifier::external_type_specification]
#[verifier::reject_recursive_types(T)]
pub struct ExBound<T>(Bound<T>);

/// A byte region with a read offset and a live length.
///
/// The bytes of interest are `buf[offset .. offset + len]`; everything else in
/// the backing vector is scratch space.
pub struct Buffer {
    buf: Vec<u8>,
    offset: usize,
    len: usize,
    initial_capacity: usize,
}

impl View for Buffer {
    type V = Seq<u8>;

    /// The live bytes, oldest first.
    closed spec fn view(&self) -> Seq<u8> {
        self.buf@.subrange(self.offset as int, self.offset + self.len)
    }
}

impl core::ops::Deref for Buffer {
    type Target = [u8];

    /// The live bytes.
    fn deref(&self) -> (res: &[u8])
        ensures
            res@ == self@,
    {
        proof {
            use_type_invariant(self);
        }
        slice_subrange(self.buf.as_slice(), self.offset, self.offset + self.len)
    }
}

impl Buffer {
    /// The live window lies inside the backing vector.
    #[verifier::type_invariant]
    closed spec fn wf(&self) -> bool {
        self.offset + self.len <= self.buf.len()
    }

    /// The capacity the buffer was created with.
    pub closed spec fn initial_capacity(&self) -> nat {
        self.initial_capacity as nat
    }

    /// The number of bytes in front of the live window.
    pub closed spec fn head_room(&self) -> nat {
        self.offset as nat
    }

    /// The size of the backing vector.
    pub closed spec fn capacity(&self) -> nat {
        self.buf@.len()
    }

    /// The number of bytes behind the live window.
    pub closed spec fn tail_room(&self) -> nat {
        (self.buf@.len() - self.offset - self.len) as nat
    }

    /// An empty buffer over `capacity` bytes of scratch space.
    pub fn with_capacity(capacity: usize) -> (res: Self)
        ensures
            res@ == Seq::<u8>::empty(),
            res.initial_capacity() == capacity,
            res.head_room() == 0,
            res.tail_room() == capacity,
            res.capacity() == capacity,
    {
        let buf = vec![0u8; capacity];
        Buffer { buf, offset: 0, len: 0, initial_capacity: capacity }
    }

    /// The offset at which a window that starts at the bound `start` begins.
    pub open spec fn window_start(start: Bound<usize>) -> int {
        match start {
            Bound::Unbounded => 0,
            Bound::Included(i) => i as int,
            Bound::Excluded(i) => i + 1,
        }
    }

    /// The length of the window that begins at `offset` and ends at the bound
    /// `end` in a vector of `size` bytes: an included bound `i` gives `i -
    /// offset` bytes, an excluded bound `i` one byte less, and no bound all
    /// bytes from `offset` on.
    pub open spec fn window_len(end: Bound<usize>, offset: int, size: int) -> int {
        match end {
            Bound::Unbounded => size - offset,
            Bound::Included(i) => i - offset,
            Bound::Excluded(i) => i - offset - 1,
        }
    }

    /// A buffer over `vec` whose live bytes are the window that begins at
    /// `window_start(start)` and has `window_len(end, ..)` bytes. The window
    /// has to lie inside `vec`.
    pub fn wrap(vec: Vec<u8>, start: Bound<usize>, end: Bound<usize>) -> (res: Self)
        requires
            Self::window_start(start) <= usize::MAX,
            0 <= Self::window_len(end, Self::window_start(start), vec@.len() as int),
            Self::window_start(start) + Self::window_len(
                end,
                Self::window_start(start),
                vec@.len() as int,
            ) <= vec@.len(),
        ensures
            res@ == vec@.subrange(
                Self::window_start(start),
                Self::window_start(start) + Self::window_len(
                    end,
                    Self::window_start(start),
                    vec@.len() as int,
                ),
            ),
            res.initial_capacity() == vec@.len(),
            res.head_room() == Self::window_start(start),
    {
        let offset: usize = match start {
            Bound::Unbounded => 0,
            Bound::Included(i) => i,
            Bound::Excluded(i) => i + 1,
        };
        let len: usize = match end {
            Bound::Unbounded => vec.len() - offset,
            Bound::Included(i) => i - offset,
            Bound::Excluded(i) => i - offset - 1,
        };
        let size = vec.len();
        Buffer { buf: vec, offset, len, initial_capacity: size }
    }

    /// The number of live bytes.
    pub fn len(&self) -> (res: usize)
        ensures
            res == self@.len(),
    {
        proof {
            use_type_invariant(self);
        }
        self.len
    }

    /// Whether no live byte is left.
    pub fn is_empty(&self) -> (res: bool)
        ensures
            res == (self@.len() == 0),
    {
        proof {
            use_type_invariant(self);
        }
        self.len == 0
    }
}

impl Buffer {
    /// Hands out the live bytes and empties the buffer.
    pub fn as_slice(&mut self) -> (res: &[u8])
        ensures
            res@ == old(self)@,
            final(self)@ == Seq::<u8>::empty(),
    {
        proof {
            use_type_invariant(&*self);
        }
        let start = self.offset;
        let end = self.offset + self.len;
        self.offset = 0;
        self.len = 0;
        slice_subrange(self.buf.as_slice(), start, end)
    }

    /// Copies up to `dst.len()` bytes from the head of the buffer into the
    /// front of `dst` and removes them from the buffer.
    pub fn drain_into(&mut self, dst: &mut [u8]) -> (size: usize)
        ensures
            size == if old(dst)@.len() <= old(self)@.len() { old(dst)@.len() } else { old(self)@.len() },
            final(dst)@ == old(self)@.take(size as int) + old(dst)@.skip(size as int),
            final(self)@ == old(self)@.skip(size as int),
    {
        proof {
            use_type_invariant(&*self);
        }
        let size = if dst.len() <= self.len { dst.len() } else { self.len };
        let mut i: usize = 0;
        while i < size
            invariant
                i <= size,
                size <= self.len,
                size <= dst@.len(),
                self.offset + self.len <= self.buf.len(),
                dst@.len() == old(dst)@.len(),
                forall|k: int| 0 <= k < i ==> dst@[k] == self.buf@[self.offset + k],
                forall|k: int| i <= k < dst@.len() ==> dst@[k] == old(dst)@[k],
            decreases size - i,
        {
            dst[i] = self.buf[self.offset + i];
            i += 1;
        }
        self.len -= size;
        self.offset += size;
        size
    }

    /// Appends `data` behind the live bytes.
    ///
    /// The live bytes stay where they are when `data` fits behind them. They
    /// are moved to the front of the backing vector only when it does not, and
    /// the backing vector grows only when `data` does not fit even then.
    pub fn put(&mut self, data: &[u8])
        requires
            old(self)@.len() + data@.len() <= usize::MAX,
        ensures
            final(self)@ == old(self)@ + data@,
            final(self).head_room() == if data@.len() <= old(self).tail_room() {
                old(self).head_room()
            } else {
                0
            },
            final(self).capacity() == if data@.len() <= old(self).tail_room() + old(
                self,
            ).head_room() {
                old(self).capacity()
            } else {
                old(self)@.len() + data@.len()
            },
            final(self).initial_capacity() == old(self).initial_capacity(),
    {
        proof {
            use_type_invariant(&*self);
        }
        let ghost live = self@;
        let mut room: usize = self.buf.len() - (self.offset + self.len);
        if data.len() > room {
            self.compact();
            room = self.buf.len() - self.len;
        }
        if data.len() > room {
            let kept: usize = self.len;
            let mut grown: Vec<u8> = Vec::new();
            self.len = 0;
            core::mem::swap(&mut self.buf, &mut grown);
            grown.resize(kept + data.len(), 0);
            core::mem::swap(&mut self.buf, &mut grown);
            self.len = kept;
        }
        let base: usize = self.offset + self.len;
        let ghost before = *self;
        let mut i: usize = 0;
        while i < data.len()
            invariant
                i <= data@.len(),
                self.offset == before.offset,
                self.len == before.len,
                self.initial_capacity == before.initial_capacity,
                self.buf.len() == before.buf.len(),
                base == self.offset + self.len,
                base + data@.len() <= self.buf.len(),
                self.buf@.subrange(self.offset as int, base as int) == live,
                forall|k: int| 0 <= k < i ==> self.buf@[base + k] == data@[k],
            decreases data@.len() - i,
        {
            self.buf[base + i] = data[i];
            i += 1;
            assert(self.buf@.subrange(self.offset as int, base as int) =~= live);
        }
        self.len += data.len();
        assert(self@ =~= live + data@);
    }

    /// Moves the live bytes to the front of the backing vector.
    fn compact(&mut self)
        ensures
            final(self)@ == old(self)@,
            final(self).offset == 0,
            final(self).len == old(self).len,
            final(self).buf.len() == old(self).buf.len(),
            final(self).initial_capacity == old(self).initial_capacity,
    {
        proof {
            use_type_invariant(&*self);
        }
        let ghost live = self@;
        let from: usize = self.offset;
        let mut i: usize = 0;
        while i < self.len
            invariant
                i <= self.len,
                from == self.offset,
                self.len == old(self).len,
                self.initial_capacity == old(self).initial_capacity,
                self.buf.len() == old(self).buf.len(),
                from + self.len <= self.buf.len(),
                live.len() == self.len,
                forall|k: int| 0 <= k < i ==> self.buf@[k] == live[k],
                forall|k: int| i <= k < self.len ==> self.buf@[from + k] == live[k],
            decreases self.len - i,
        {
            self.buf[i] = self.buf[from + i];
            i += 1;
        }
        self.offset = 0;
        assert(self@ =~= live);
    }

    /// A copy of the live bytes.
    pub fn to_vec(&self) -> (res: Vec<u8>)
        ensures
            res@ == self@,
    {
        proof {
            use_type_invariant(self);
        }
        slice_to_vec(slice_subrange(self.buf.as_slice(), self.offset, self.offset + self.len))
    }
}

} // verus!
