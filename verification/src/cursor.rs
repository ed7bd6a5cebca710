use crate::bytes::{overwrite, window};
use crate::error::Result;
use crate::traits::{ReadAt, WriteAt};
use vstd::prelude::*;

verus! {

/// Adapt a `WriteAt` and/or `ReadAt` to sequential reads and writes by
/// tracking a single internal offset and advancing it by what each call
/// transfers.
#[derive(Debug, PartialEq, Eq)]
pub struct Cursor<T> {
    offs: u64,
    inner: T,
}

impl<T> Cursor<T> {
    /// The offset of the next read or write.
    pub closed spec fn spec_position(&self) -> u64 {
        self.offs
    }

    /// The wrapped value.
    pub closed spec fn wrapped(&self) -> T {
        self.inner
    }

    /// A cursor over `v` whose first access is at `first_offs`.
    pub fn new(v: T, first_offs: u64) -> (c: Self)
        ensures
            c.spec_position() == first_offs,
            c.wrapped() == v,
    {
        Cursor { inner: v, offs: first_offs }
    }

    /// The offset of the next read or write.
    #[verifier::when_used_as_spec(spec_position)]
    pub fn position(&self) -> (p: u64)
        ensures
            p == self.spec_position(),
    {
        self.offs
    }
}

impl<T: WriteAt> Cursor<T> {
    /// Writes `buf` at the cursor's offset and, when that succeeds, moves the
    /// offset past the bytes written. The new offset must fit in a `u64` for
    /// every count the wrapped value's write may report.
    pub fn write(&mut self, buf: &[u8]) -> (r: Result<usize>)
        requires
            forall|after: T, n: usize|
                n <= buf@.len() && #[trigger] T::writes_as(
                    &old(self).wrapped(),
                    buf@,
                    old(self).position(),
                    &after,
                    Ok::<usize, crate::error::Error>(n),
                ) ==> old(self).position() + n <= u64::MAX,
        ensures
            T::writes_as(&old(self).wrapped(), buf@, old(self).position(), &final(self).wrapped(), r),
            match r {
                Ok(n) => n <= buf@.len() && final(self).position() == old(self).position() + n,
                Err(_) => final(self).position() == old(self).position(),
            },
            T::obeys_write_view() ==> match r {
                Ok(n) => final(self).wrapped().write_view() == overwrite(
                    old(self).wrapped().write_view(),
                    old(self).position() as int,
                    buf@.take(n as int),
                ),
                Err(_) => final(self).wrapped().write_view() == old(self).wrapped().write_view(),
            },
    {
        let ghost inner_before: T = self.inner;
        let r = self.inner.write_at(buf, self.offs);
        if let Ok(v) = r {
            assert(inner_before == old(self).wrapped());
            assert(T::writes_as(&old(self).wrapped(), buf@, old(self).position(), &self.inner, Ok::<usize, crate::error::Error>(v)));
            self.offs = self.offs + v as u64;
        }
        r
    }

    /// Writes are passed on at once; there is nothing to flush.
    pub fn flush(&mut self) -> (r: Result<()>)
        ensures
            r is Ok,
            *final(self) == *old(self),
    {
        Ok(())
    }
}

impl<T: ReadAt> Cursor<T> {
    /// Reads into `buf` at the cursor's offset and, when that succeeds, moves
    /// the offset past the bytes read. The new offset must fit in a `u64` for
    /// every count the wrapped value's read may report.
    pub fn read(&mut self, buf: &mut [u8]) -> (r: Result<usize>)
        requires
            forall|after: Seq<u8>, n: usize|
                n <= old(buf)@.len() && #[trigger] T::reads_as(
                    &old(self).wrapped(),
                    old(buf)@,
                    old(self).position(),
                    after,
                    Ok::<usize, crate::error::Error>(n),
                ) ==> old(self).position() + n <= u64::MAX,
        ensures
            T::reads_as(&old(self).wrapped(), old(buf)@, old(self).position(), final(buf)@, r),
            final(self).wrapped() == old(self).wrapped(),
            final(buf)@.len() == old(buf)@.len(),
            match r {
                Ok(n) => n <= old(buf)@.len() && final(self).position() == old(self).position() + n,
                Err(_) => final(self).position() == old(self).position(),
            },
            T::obeys_read_view() ==> (r matches Ok(n) ==> {
                &&& final(buf)@.take(n as int) == window(
                    old(self).wrapped().read_view(),
                    old(self).position() as int,
                    n as int,
                )
                &&& final(buf)@.skip(n as int) == old(buf)@.skip(n as int)
            }),
    {
        let ghost buf_before = buf@;
        let r = self.inner.read_at(buf, self.offs);
        if let Ok(v) = r {
            assert(buf_before == old(buf)@);
            assert(T::reads_as(&old(self).wrapped(), old(buf)@, old(self).position(), buf@, Ok::<usize, crate::error::Error>(v)));
            self.offs = self.offs + v as u64;
        }
        r
    }
}

/// A `Cursor` is determined by its offset and the value it wraps.
pub proof fn law_cursor_determined_by_parts<T>(a: Cursor<T>, b: Cursor<T>)
    ensures
        a == b <==> (a.spec_position() == b.spec_position() && a.wrapped() == b.wrapped()),
{
}

} // verus!
