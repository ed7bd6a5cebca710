use crate::error::Result;
use crate::traits::{ReadAt, WriteAt};
use vstd::prelude::*;

verus! {

/// Given a type `T` that implements `WriteAt`, `&mut T` writes through to it.
impl<'a, T: WriteAt> WriteAt for &'a mut T {
    open spec fn obeys_write_view() -> bool {
        T::obeys_write_view()
    }

    open spec fn write_view(&self) -> Seq<u8> {
        (**self).write_view()
    }

    /// Writes as `T` writes.
    open spec fn writes_as(&self, bytes: Seq<u8>, offs: u64, after: &Self, r: Result<usize>) -> bool {
        T::writes_as(&**self, bytes, offs, &**after, r)
    }

    fn write_at(&mut self, buf: &[u8], offs: u64) -> (r: Result<usize>) {
        let ghost before: T = **self;
        let r = (**self).write_at(buf, offs);
        assert(T::writes_as(&before, buf@, offs, &**self, r));
        assert(Self::writes_as(&*old(self), buf@, offs, &*self, r));
        r
    }
}

/// Given a type `T` that implements `ReadAt`, `&mut T` reads from it.
impl<'a, T: ReadAt> ReadAt for &'a mut T {
    open spec fn obeys_read_view() -> bool {
        T::obeys_read_view()
    }

    open spec fn read_view(&self) -> Seq<u8> {
        (**self).read_view()
    }

    /// Reads as `T` reads.
    open spec fn reads_as(&self, before: Seq<u8>, offs: u64, after: Seq<u8>, r: Result<usize>) -> bool {
        T::reads_as(&**self, before, offs, after, r)
    }

    fn read_at(&self, buf: &mut [u8], offs: u64) -> (r: Result<usize>) {
        let src: &T = &**self;
        src.read_at(buf, offs)
    }
}

/// Given a type `T` that implements `ReadAt`, `&T` reads from it.
impl<'a, T: ReadAt> ReadAt for &'a T {
    open spec fn obeys_read_view() -> bool {
        T::obeys_read_view()
    }

    open spec fn read_view(&self) -> Seq<u8> {
        (**self).read_view()
    }

    /// Reads as `T` reads.
    open spec fn reads_as(&self, before: Seq<u8>, offs: u64, after: Seq<u8>, r: Result<usize>) -> bool {
        T::reads_as(&**self, before, offs, after, r)
    }

    fn read_at(&self, buf: &mut [u8], offs: u64) -> (r: Result<usize>) {
        (**self).read_at(buf, offs)
    }
}

} // verus!
