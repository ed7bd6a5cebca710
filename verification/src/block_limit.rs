use crate::error::Result;
use crate::traits::{ReadAt, WriteAt};
use vstd::prelude::*;
use vstd::slice::slice_subrange;

verus! {

/// Limit the amount of data accepted in a single call to `WriteAt` (`ReadAt`
/// is unaffected).
///
/// This is primarily useful for testing that handling of incomplete writes
/// works properly.
#[derive(Debug, PartialEq, Eq)]
pub struct BlockLimitWrite<T: WriteAt> {
    max_per_block: usize,
    inner: T,
}

impl<T: WriteAt> BlockLimitWrite<T> {
    /// The most bytes one write passes on.
    pub closed spec fn block_limit(&self) -> usize {
        self.max_per_block
    }

    /// The wrapped value.
    pub closed spec fn wrapped(&self) -> T {
        self.inner
    }

    /// Wraps `v` so that each write passes on at most `max_per_block` bytes.
    pub fn new(v: T, max_per_block: usize) -> (b: Self)
        ensures
            b.block_limit() == max_per_block,
            b.wrapped() == v,
    {
        BlockLimitWrite { max_per_block: max_per_block, inner: v }
    }
}

impl<T: WriteAt + ReadAt> ReadAt for BlockLimitWrite<T> {
    open spec fn obeys_read_view() -> bool {
        T::obeys_read_view()
    }

    open spec fn read_view(&self) -> Seq<u8> {
        self.wrapped().read_view()
    }

    /// Reads as the wrapped value reads.
    open spec fn reads_as(&self, before: Seq<u8>, offs: u64, after: Seq<u8>, r: Result<usize>) -> bool {
        T::reads_as(&self.wrapped(), before, offs, after, r)
    }

    /// Reads from the wrapped value as it is.
    fn read_at(&self, buf: &mut [u8], offs: u64) -> (r: Result<usize>) {
        self.inner.read_at(buf, offs)
    }
}

impl<T: WriteAt> WriteAt for BlockLimitWrite<T> {
    open spec fn obeys_write_view() -> bool {
        T::obeys_write_view()
    }

    open spec fn write_view(&self) -> Seq<u8> {
        self.wrapped().write_view()
    }

    /// Writes as the wrapped value writes the first `min(bytes.len(),
    /// max_per_block)` bytes, keeping the limit.
    open spec fn writes_as(&self, bytes: Seq<u8>, offs: u64, after: &Self, r: Result<usize>) -> bool {
        let k = if bytes.len() <= self.block_limit() { bytes.len() as int } else { self.block_limit() as int };
        &&& after.block_limit() == self.block_limit()
        &&& T::writes_as(&self.wrapped(), bytes.take(k), offs, &after.wrapped(), r)
    }

    /// Writes the first `min(buf.len(), max_per_block)` bytes of `buf` to the
    /// wrapped value and returns what it returns.
    fn write_at(&mut self, buf: &[u8], offs: u64) -> (r: Result<usize>)
        ensures
            final(self).block_limit() == old(self).block_limit(),
            r matches Ok(n) ==> n <= old(self).block_limit(),
    {
        let k = if buf.len() <= self.max_per_block { buf.len() } else { self.max_per_block };
        let head = slice_subrange(buf, 0, k);
        let ghost before: T = self.inner;
        let r = self.inner.write_at(head, offs);
        proof {
            assert(head@ =~= buf@.take(k as int));
            assert(T::writes_as(&before, head@, offs, &self.inner, r));
            assert(Self::writes_as(&*old(self), buf@, offs, &*self, r));
            if let Ok(n) = r {
                assert(head@.take(n as int) =~= buf@.take(n as int));
            }
        }
        r
    }
}

impl<T: WriteAt> core::ops::Deref for BlockLimitWrite<T> {
    type Target = T;

    fn deref(&self) -> (r: &T)
        ensures
            *r == self.wrapped(),
    {
        &self.inner
    }
}

impl<T: WriteAt> core::ops::DerefMut for BlockLimitWrite<T> {
    fn deref_mut(&mut self) -> (r: &mut T)
        ensures
            *r == old(self).wrapped(),
            final(self).wrapped() == *final(r),
            final(self).block_limit() == old(self).block_limit(),
    {
        &mut self.inner
    }
}

/// A `BlockLimitWrite` is determined by its block limit and the value it wraps.
pub proof fn law_block_limit_write_determined_by_parts<T: WriteAt>(a: BlockLimitWrite<T>, b: BlockLimitWrite<T>)
    ensures
        a == b <==> (a.block_limit() == b.block_limit() && a.wrapped() == b.wrapped()),
{
}

} // verus!
