use crate::bytes::{overwrite, read_into, span, window};
use crate::error::{Error, Result};
use crate::traits::{ReadAt, WriteAt};
use vstd::prelude::*;

verus! {

/// Converts an offset to `usize`, clamping offsets that do not fit to
/// `usize::MAX`.
pub fn as_usize(v: u64) -> (r: usize)
    ensures
        v <= usize::MAX ==> r == v,
        v > usize::MAX ==> r == usize::MAX,
{
    if v > usize::MAX as u64 {
        usize::MAX
    } else {
        v as usize
    }
}

/// Copies into `buf` the bytes of `src` from offset `offs` on, as many as fit
/// in `buf` and exist in `src`, and returns how many it copied.
pub fn read_from_slice(src: &[u8], buf: &mut [u8], offs: u64) -> (n: usize)
    ensures
        n == span(src@.len() as int, offs as int, old(buf)@.len() as int),
        final(buf)@.len() == old(buf)@.len(),
        final(buf)@.take(n as int) =~= window(src@, offs as int, n as int),
        final(buf)@.skip(n as int) =~= old(buf)@.skip(n as int),
{
    let len = src.len();
    let start = as_usize(offs);
    if start > len {
        return 0;
    }
    let n = if buf.len() <= len - start { buf.len() } else { len - start };
    let mut i: usize = 0;
    while i < n
        invariant
            0 <= i <= n,
            start + n <= src@.len(),
            src@.len() == len,
            n <= old(buf)@.len(),
            buf@.len() == old(buf)@.len(),
            forall|j: int| 0 <= j < i ==> buf@[j] == src@[start + j],
            forall|j: int| i <= j < buf@.len() ==> buf@[j] == old(buf)@[j],
        decreases n - i,
    {
        buf[i] = src[start + i];
        i = i + 1;
    }
    n
}

/// Copies into `dst` from offset `offs` on the first bytes of `buf`, as many
/// as fit in `dst`, and returns how many it copied.
pub fn write_into_slice(dst: &mut [u8], buf: &[u8], offs: u64) -> (n: usize)
    ensures
        n == span(old(dst)@.len() as int, offs as int, buf@.len() as int),
        final(dst)@ == overwrite(old(dst)@, offs as int, buf@.take(n as int)),
{
    let len = dst.len();
    let start = as_usize(offs);
    if start > len {
        return 0;
    }
    let n = if buf.len() <= len - start { buf.len() } else { len - start };
    let mut i: usize = 0;
    while i < n
        invariant
            0 <= i <= n,
            start + n <= old(dst)@.len(),
            old(dst)@.len() == len,
            n <= buf@.len(),
            dst@.len() == old(dst)@.len(),
            forall|j: int| 0 <= j < dst@.len() ==> dst@[j] == (if start <= j < start + i { buf@[j - start] } else { old(dst)@[j] }),
        decreases n - i,
    {
        dst[start + i] = buf[i];
        i = i + 1;
    }
    proof {
        if n > 0 {
            assert(dst@ =~= overwrite(old(dst)@, offs as int, buf@.take(n as int)));
        }
    }
    n
}

/// A slice is storage of a fixed size: a read reaches up to the end of the
/// slice, whatever was written before, so bytes never written read as what
/// the slice held to begin with (not as the end of the data).
impl<'a> ReadAt for &'a [u8] {
    open spec fn obeys_read_view() -> bool {
        true
    }

    open spec fn read_view(&self) -> Seq<u8> {
        (**self)@
    }

    /// A read always succeeds and copies what `read_from_slice` copies.
    open spec fn reads_as(&self, before: Seq<u8>, offs: u64, after: Seq<u8>, r: Result<usize>) -> bool {
        &&& r == Ok::<usize, Error>(span((**self)@.len() as int, offs as int, before.len() as int) as usize)
        &&& after == read_into((**self)@, offs, before)
    }

    fn read_at(&self, buf: &mut [u8], offs: u64) -> (r: Result<usize>)
        ensures
            r == Ok::<usize, Error>(
                span(self.read_view().len() as int, offs as int, old(buf)@.len() as int) as usize,
            ),
    {
        let n = read_from_slice(*self, buf, offs);
        assert(buf@ =~= buf@.take(n as int) + buf@.skip(n as int));
        Ok(n)
    }
}

/// A mutable slice reads like a slice: up to its own end, whatever was
/// written before.
impl<'a> ReadAt for &'a mut [u8] {
    open spec fn obeys_read_view() -> bool {
        true
    }

    open spec fn read_view(&self) -> Seq<u8> {
        (**self)@
    }

    /// A read always succeeds and copies what `read_from_slice` copies.
    open spec fn reads_as(&self, before: Seq<u8>, offs: u64, after: Seq<u8>, r: Result<usize>) -> bool {
        &&& r == Ok::<usize, Error>(span((**self)@.len() as int, offs as int, before.len() as int) as usize)
        &&& after == read_into((**self)@, offs, before)
    }

    fn read_at(&self, buf: &mut [u8], offs: u64) -> (r: Result<usize>)
        ensures
            r == Ok::<usize, Error>(
                span(self.read_view().len() as int, offs as int, old(buf)@.len() as int) as usize,
            ),
    {
        let n = read_from_slice(&**self, buf, offs);
        assert(buf@ =~= buf@.take(n as int) + buf@.skip(n as int));
        Ok(n)
    }
}

/// A mutable slice takes as much of a write as fits before its end; it
/// never grows.
impl<'a> WriteAt for &'a mut [u8] {
    open spec fn obeys_write_view() -> bool {
        true
    }

    open spec fn write_view(&self) -> Seq<u8> {
        (**self)@
    }

    /// A write always succeeds and copies what `write_into_slice` copies.
    open spec fn writes_as(&self, bytes: Seq<u8>, offs: u64, after: &Self, r: Result<usize>) -> bool {
        let n = span((**self)@.len() as int, offs as int, bytes.len() as int);
        &&& r == Ok::<usize, Error>(n as usize)
        &&& (**after)@ == overwrite((**self)@, offs as int, bytes.take(n))
    }

    fn write_at(&mut self, buf: &[u8], offs: u64) -> (r: Result<usize>)
        ensures
            r == Ok::<usize, Error>(
                span(old(self)@.len() as int, offs as int, buf@.len() as int) as usize,
            ),
    {
        let ghost before = (**self)@;
        let n = write_into_slice(&mut **self, buf, offs);
        assert((**self)@ == overwrite(before, offs as int, buf@.take(n as int)));
        assert(Self::writes_as(&*old(self), buf@, offs, &*self, Ok::<usize, Error>(n)));
        Ok(n)
    }
}

} // verus!
