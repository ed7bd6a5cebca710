use crate::bytes::{overwrite, read_into, span};
use crate::error::{Error, Result};
use crate::slice::{as_usize, read_from_slice, write_into_slice};
use crate::traits::{ReadAt, WriteAt};
use vstd::prelude::*;
use vstd::slice::slice_subrange;

verus! {

/// A vector reads like the slice of its bytes.
impl ReadAt for Vec<u8> {
    open spec fn obeys_read_view() -> bool {
        true
    }

    open spec fn read_view(&self) -> Seq<u8> {
        self@
    }

    /// A read always succeeds and copies what a read of its slice copies.
    open spec fn reads_as(&self, before: Seq<u8>, offs: u64, after: Seq<u8>, r: Result<usize>) -> bool {
        &&& r == Ok::<usize, Error>(span(self@.len() as int, offs as int, before.len() as int) as usize)
        &&& after == read_into(self@, offs, before)
    }

    fn read_at(&self, buf: &mut [u8], offs: u64) -> (r: Result<usize>)
        ensures
            r == Ok::<usize, Error>(
                span(self@.len() as int, offs as int, old(buf)@.len() as int) as usize,
            ),
    {
        let n = read_from_slice(self.as_slice(), buf, offs);
        assert(buf@ =~= buf@.take(n as int) + buf@.skip(n as int));
        Ok(n)
    }
}

/// A vector accepts every write whole: bytes past its end extend it, and a
/// write that starts past its end first fills the gap with zeros.
impl WriteAt for Vec<u8> {
    open spec fn obeys_write_view() -> bool {
        true
    }

    open spec fn write_view(&self) -> Seq<u8> {
        self@
    }

    /// A write always succeeds whole.
    open spec fn writes_as(&self, bytes: Seq<u8>, offs: u64, after: &Self, r: Result<usize>) -> bool {
        &&& r == Ok::<usize, Error>(bytes.len() as usize)
        &&& after@ == overwrite(self@, offs as int, bytes)
    }

    fn write_at(&mut self, buf: &[u8], offs: u64) -> (r: Result<usize>)
        ensures
            r == Ok::<usize, Error>(buf@.len() as usize),
            final(self)@ == overwrite(old(self)@, offs as int, buf@),
    {
        let start = as_usize(offs);
        if buf.len() == 0 {
            assert(overwrite(old(self)@, offs as int, buf@) == self@);
            assert(Self::writes_as(&*old(self), buf@, offs, &*self, Ok::<usize, Error>(0)));
            return Ok(0);
        }
        if start > self.len() {
            self.resize(start, 0);
            let ghost mid = self@;
            assert(forall|i: int| old(self)@.len() <= i < start ==> #[trigger] mid[i] == 0u8);
            self.extend_from_slice(buf);
            // The new length is a `usize`, so the offset was not clamped.
            assert(self.len() <= usize::MAX);
            assert(offs == start);
            assert forall|i: int| 0 <= i < self@.len() implies #[trigger] self@[i] == overwrite(old(self)@, offs as int, buf@)[i] by {
                if i < start {
                    assert(mid[i] == self@[i]);
                    if i < old(self)@.len() {
                        assert(mid.subrange(0, old(self)@.len() as int)[i] == old(self)@[i]);
                    }
                }
            }
            assert(self@ =~= overwrite(old(self)@, offs as int, buf@));
        } else {
            let l = write_into_slice(self.as_mut_slice(), buf, start as u64);
            let ghost mid = self@;
            if l < buf.len() {
                self.extend_from_slice(slice_subrange(buf, l, buf.len()));
            }
            // The new length is a `usize`, so the offset was not clamped.
            assert(self.len() <= usize::MAX);
            assert(offs == start);
            assert forall|i: int| 0 <= i < self@.len() implies #[trigger] self@[i] == overwrite(old(self)@, offs as int, buf@)[i] by {
                if i < mid.len() {
                    assert(mid[i] == self@[i]);
                }
            }
            assert(self@ =~= overwrite(old(self)@, offs as int, buf@));
        }
        assert(Self::writes_as(&*old(self), buf@, offs, &*self, Ok::<usize, Error>(buf.len())));
        Ok(buf.len())
    }
}

} // verus!
