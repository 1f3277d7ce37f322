//! Linear memory: a growable, zero-initialised byte region with a hard maximum.
//! Every access is checked against the current size before a byte is touched.

use vstd::prelude::*;
use crate::trap::{MemoryError, Trap};

verus! {

/// Bytes in one page.
pub const PAGE_SIZE: usize = 65536;

/// The largest number of pages any memory may be configured with.
pub const MAX_PAGES: u32 = 1024;

/// `n` zero bytes.
pub open spec fn zeros(n: nat) -> Seq<u8> {
    Seq::new(n, |i: int| 0u8)
}

/// `base` with `bytes` copied over the positions starting at `offset`.
pub open spec fn overwrite(base: Seq<u8>, offset: int, bytes: Seq<u8>) -> Seq<u8> {
    Seq::new(
        base.len(),
        |i: int| if offset <= i < offset + bytes.len() { bytes[i - offset] } else { base[i] },
    )
}

/// Whether the range `offset .. offset + length` lies inside a memory of `size` bytes.
pub open spec fn in_bounds(size: nat, offset: int, length: int) -> bool {
    0 <= offset && 0 <= length && offset + length <= size
}

pub struct LinearMemory {
    data: Vec<u8>,
    max_pages: u32,
}

impl View for LinearMemory {
    type V = Seq<u8>;

    closed spec fn view(&self) -> Seq<u8> {
        self.data@
    }
}

fn push_zeros(data: &mut Vec<u8>, count: usize)
    requires
        old(data)@.len() + count <= usize::MAX,
    ensures
        final(data)@ == old(data)@ + zeros(count as nat),
{
    let mut done: usize = 0;
    while done < count
        invariant
            done <= count,
            data@ == old(data)@ + zeros(done as nat),
        decreases count - done,
    {
        data.push(0u8);
        done = done + 1;
        assert(data@ =~= old(data)@ + zeros(done as nat));
    }
    assert(data@ =~= old(data)@ + zeros(count as nat));
}

impl LinearMemory {
    /// The configured maximum, in pages.
    pub closed spec fn limit(&self) -> nat {
        self.max_pages as nat
    }

    /// The current size, in pages.
    pub open spec fn pages(&self) -> nat {
        self@.len() / (PAGE_SIZE as nat)
    }

    /// The size is a whole number of pages and never above the maximum.
    pub open spec fn wf(&self) -> bool {
        &&& self@.len() == self.pages() * PAGE_SIZE
        &&& self.pages() <= self.limit()
        &&& self.limit() <= MAX_PAGES
    }

    /// A zero-filled memory of `initial_pages` pages that may grow to `max_pages`.
    pub fn new(initial_pages: u32, max_pages: u32) -> (r: Result<LinearMemory, MemoryError>)
        ensures
            r is Ok <==> initial_pages <= max_pages <= MAX_PAGES,
            r matches Ok(m) ==> m.wf() && m.limit() == max_pages && m@ == zeros(
                (initial_pages * PAGE_SIZE) as nat,
            ),
    {
        if initial_pages > max_pages || max_pages > MAX_PAGES {
            return Err(MemoryError::LimitExceeded);
        }
        let mut data: Vec<u8> = Vec::new();
        let count: usize = initial_pages as usize * PAGE_SIZE;
        push_zeros(&mut data, count);
        assert(data@ =~= zeros(count as nat));
        let m = LinearMemory { data, max_pages };
        assert(m@.len() / (PAGE_SIZE as nat) == initial_pages as nat);
        Ok(m)
    }

    /// The current size in bytes.
    pub fn size(&self) -> (r: usize)
        ensures
            r == self@.len(),
    {
        self.data.len()
    }

    /// The current size in pages.
    pub fn size_pages(&self) -> (r: u32)
        requires
            self.wf(),
        ensures
            r == self.pages(),
    {
        (self.data.len() / PAGE_SIZE) as u32
    }

    /// The configured maximum in pages.
    pub fn max_pages(&self) -> (r: u32)
        ensures
            r == self.limit(),
    {
        self.max_pages
    }

    /// Copies `length` bytes starting at `offset` out of the memory.
    pub fn read(&self, offset: u64, length: u64) -> (r: Result<Vec<u8>, Trap>)
        ensures
            r is Ok <==> in_bounds(self@.len(), offset as int, length as int),
            r matches Ok(bytes) ==> bytes@ == self@.subrange(
                offset as int,
                offset as int + length as int,
            ),
            r matches Err(t) ==> t == Trap::OutOfBoundsMemoryAccess,
    {
        let size: usize = self.data.len();
        if length > size as u64 || offset > size as u64 - length {
            return Err(Trap::OutOfBoundsMemoryAccess);
        }
        let start: usize = offset as usize;
        let count: usize = length as usize;
        let mut out: Vec<u8> = Vec::new();
        let mut i: usize = 0;
        while i < count
            invariant
                i <= count,
                start + count <= self.data@.len() == size,
                out@ == self.data@.subrange(start as int, start + i),
            decreases count - i,
        {
            out.push(self.data[start + i]);
            i = i + 1;
            assert(out@ =~= self.data@.subrange(start as int, start + i));
        }
        Ok(out)
    }

    /// Copies `bytes` into the memory starting at `offset`, or changes nothing.
    pub fn write(&mut self, offset: u64, bytes: &[u8]) -> (r: Result<(), Trap>)
        ensures
            r is Ok <==> in_bounds(old(self)@.len(), offset as int, bytes@.len() as int),
            r is Ok ==> final(self)@ == overwrite(old(self)@, offset as int, bytes@),
            r is Err ==> *final(self) == *old(self),
            r matches Err(t) ==> t == Trap::OutOfBoundsMemoryAccess,
            final(self).limit() == old(self).limit(),
            final(self)@.len() == old(self)@.len(),
    {
        let size: usize = self.data.len();
        let count: usize = bytes.len();
        if count > size || offset > (size - count) as u64 {
            return Err(Trap::OutOfBoundsMemoryAccess);
        }
        let start: usize = offset as usize;
        let mut i: usize = 0;
        while i < count
            invariant
                i <= count,
                count == bytes@.len(),
                start + count <= self.data@.len() == size,
                self.data@.len() == old(self).data@.len(),
                self.max_pages == old(self).max_pages,
                self.data@ == overwrite(old(self).data@, start as int, bytes@.subrange(0, i as int)),
            decreases count - i,
        {
            self.data.set(start + i, bytes[i]);
            i = i + 1;
            assert(self.data@ =~= overwrite(
                old(self).data@,
                start as int,
                bytes@.subrange(0, i as int),
            ));
        }
        assert(bytes@.subrange(0, count as int) =~= bytes@);
        Ok(())
    }

    /// Appends `delta` zero-filled pages and returns the new size in pages,
    /// or changes nothing where that size would pass the maximum.
    pub fn grow(&mut self, delta: u32) -> (r: Result<u32, MemoryError>)
        requires
            old(self).wf(),
        ensures
            final(self).wf(),
            final(self).limit() == old(self).limit(),
            r is Ok <==> old(self).pages() + delta <= old(self).limit(),
            r matches Ok(n) ==> n == old(self).pages() + delta && final(self)@ == old(self)@ + zeros(
                (delta * PAGE_SIZE) as nat,
            ),
            r is Err ==> *final(self) == *old(self),
    {
        let current: u32 = self.size_pages();
        if delta > self.max_pages - current {
            return Err(MemoryError::LimitExceeded);
        }
        let count: usize = delta as usize * PAGE_SIZE;
        push_zeros(&mut self.data, count);
        let total: u32 = current + delta;
        assert(self@.len() == total * PAGE_SIZE);
        assert(self@.len() / (PAGE_SIZE as nat) == total as nat);
        Ok(total)
    }
}

} // verus!
