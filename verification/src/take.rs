use crate::bytes::overwrite;
use crate::error::{Error, Result};
use crate::traits::{ReadAt, WriteAt};
use vstd::prelude::*;
use vstd::slice::slice_subrange;

verus! {

/// Limit the maximum offset of a `WriteAt` and/or `ReadAt`.
///
/// No read or write through a `Take` reaches at or past its limit; the part
/// of an access below the limit is worked out without adding the buffer's
/// length to the offset, so no offset is too large. This can
/// be useful when trying to simulate a fixed size item (like a block device)
/// with a normal file.
#[derive(Debug, PartialEq, Eq)]
pub struct Take<T> {
    max_offs: u64,
    inner: T,
}

impl<T> Take<T> {
    /// The offset that no access reaches.
    pub closed spec fn limit(&self) -> u64 {
        self.max_offs
    }

    /// The wrapped value.
    pub closed spec fn wrapped(&self) -> T {
        self.inner
    }

    /// Wraps `v` so that no access reaches at or past `max_offs`.
    pub fn new(v: T, max_offs: u64) -> (t: Self)
        ensures
            t.limit() == max_offs,
            t.wrapped() == v,
    {
        Take { max_offs: max_offs, inner: v }
    }

    /// The limit this `Take` was made with.
    pub fn len(&self) -> (n: u64)
        ensures
            n == self.limit(),
    {
        self.max_offs
    }
}

impl<T> core::ops::Deref for Take<T> {
    type Target = T;

    fn deref(&self) -> (r: &T)
        ensures
            *r == self.wrapped(),
    {
        &self.inner
    }
}

impl<T> core::ops::DerefMut for Take<T> {
    fn deref_mut(&mut self) -> (r: &mut T)
        ensures
            *r == old(self).wrapped(),
            final(self).wrapped() == *final(r),
            final(self).limit() == old(self).limit(),
    {
        &mut self.inner
    }
}

/// How many bytes of a buffer of `len` bytes an access at `offs` passes on
/// below the limit `max_offs`: as many as fit between `offs` and the limit.
pub open spec fn clip(max_offs: u64, offs: u64, len: int) -> int {
    if len <= max_offs - offs {
        len
    } else {
        max_offs - offs
    }
}

impl<T: ReadAt> ReadAt for Take<T> {
    open spec fn obeys_read_view() -> bool {
        T::obeys_read_view()
    }

    open spec fn read_view(&self) -> Seq<u8> {
        self.wrapped().read_view()
    }

    /// Past the limit, reads nothing and returns `Ok(0)`; otherwise reads as
    /// the wrapped value reads into the first `clip(..)` bytes of the buffer,
    /// leaving the rest of it as it was.
    open spec fn reads_as(&self, before: Seq<u8>, offs: u64, after: Seq<u8>, r: Result<usize>) -> bool {
        if offs > self.limit() {
            r == Ok::<usize, Error>(0) && after == before
        } else {
            let k = clip(self.limit(), offs, before.len() as int);
            &&& after.len() == before.len()
            &&& T::reads_as(&self.wrapped(), before.take(k), offs, after.take(k), r)
            &&& after.skip(k) == before.skip(k)
        }
    }

    /// Past the limit, reads nothing and returns `Ok(0)` without reading from
    /// the wrapped value; otherwise reads into the first `clip(..)` bytes of
    /// `buf` from the wrapped value and returns what it returns.
    fn read_at(&self, buf: &mut [u8], offs: u64) -> (r: Result<usize>)
        ensures
            offs > self.limit() ==> r == Ok::<usize, Error>(0) && final(buf)@ == old(buf)@,
            r matches Ok(n) ==> offs <= self.limit() ==> n <= clip(self.limit(), offs, old(buf)@.len() as int),
            r matches Ok(n) ==> n > 0 ==> offs + n <= self.limit(),
    {
        if offs > self.max_offs {
            assert(self.reads_as(buf@, offs, buf@, Ok::<usize, Error>(0)));
            return Ok(0);
        }
        let room = self.max_offs - offs;
        let k: usize = if (buf.len() as u64) <= room { buf.len() } else { room as usize };
        let ghost before = buf@;
        let (head, tail) = buf.split_at_mut(k);
        let ghost head_before = head@;
        let r = self.inner.read_at(head, offs);
        proof {
            // `buf` now holds what the read left in `head`, then `tail` untouched.
            assert(head_before =~= before.take(k as int));
            assert(buf@.take(k as int) =~= head@);
            assert(buf@.skip(k as int) =~= before.skip(k as int));
            assert(self.reads_as(before, offs, buf@, r));
            if T::obeys_read_view() && r is Ok {
                let n = r->Ok_0;
                assert(buf@.take(n as int) =~= head@.take(n as int));
                assert forall|i: int| n <= i < buf@.len() implies #[trigger] buf@[i] == before[i] by {
                    if i < k {
                        assert(head@.skip(n as int)[i - n] == head_before.skip(n as int)[i - n]);
                    } else {
                        assert(tail@[i - k] == before[i]);
                    }
                }
                assert(buf@.skip(n as int) =~= before.skip(n as int));
            }
        }
        r
    }
}

impl<T: WriteAt> WriteAt for Take<T> {
    open spec fn obeys_write_view() -> bool {
        T::obeys_write_view()
    }

    open spec fn write_view(&self) -> Seq<u8> {
        self.wrapped().write_view()
    }

    /// Past the limit, writes nothing and returns `Ok(0)`; otherwise writes
    /// as the wrapped value writes the first `clip(..)` bytes. The limit
    /// stays.
    open spec fn writes_as(&self, bytes: Seq<u8>, offs: u64, after: &Self, r: Result<usize>) -> bool {
        &&& after.limit() == self.limit()
        &&& if offs > self.limit() {
            r == Ok::<usize, Error>(0) && after.wrapped() == self.wrapped()
        } else {
            T::writes_as(&self.wrapped(), bytes.take(clip(self.limit(), offs, bytes.len() as int)), offs, &after.wrapped(), r)
        }
    }

    /// Past the limit, writes nothing and returns `Ok(0)` without writing to
    /// the wrapped value; otherwise writes the first `clip(..)` bytes of
    /// `buf` to the wrapped value and returns what it returns.
    fn write_at(&mut self, buf: &[u8], offs: u64) -> (r: Result<usize>)
        ensures
            final(self).limit() == old(self).limit(),
            offs > old(self).limit() ==> r == Ok::<usize, Error>(0) && *final(self) == *old(self),
            r matches Ok(n) ==> offs <= old(self).limit() ==> n <= clip(old(self).limit(), offs, buf@.len() as int),
            r matches Ok(n) ==> n > 0 ==> offs + n <= old(self).limit(),
    {
        if offs > self.max_offs {
            proof {
                assert(buf@.take(0) =~= Seq::<u8>::empty());
                assert(Self::writes_as(&*old(self), buf@, offs, &*self, Ok::<usize, Error>(0)));
            }
            return Ok(0);
        }
        let room = self.max_offs - offs;
        let k: usize = if (buf.len() as u64) <= room { buf.len() } else { room as usize };
        let head = slice_subrange(buf, 0, k);
        let ghost before: T = self.inner;
        let r = self.inner.write_at(head, offs);
        proof {
            assert(head@ =~= buf@.take(k as int));
            assert(T::writes_as(&before, head@, offs, &self.inner, r));
            assert(Self::writes_as(&*old(self), buf@, offs, &*self, r));
            if let Ok(n) = r {
                assert(head@.take(n as int) =~= buf@.take(n as int));
            }
        }
        r
    }
}

/// A `Take` is determined by its limit and the value it wraps.
pub proof fn law_take_determined_by_parts<T>(a: Take<T>, b: Take<T>)
    ensures
        a == b <==> (a.limit() == b.limit() && a.wrapped() == b.wrapped()),
{
}

} // verus!
