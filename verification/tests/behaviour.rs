use io_at::{
    into_io_result, ov, overlapped_io_result, read_from_slice, write_all_step, write_into_slice,
    BlockLimitWrite, Cursor, Error, ErrorKind, ReadAt, Take, WriteAllStep, WriteAt,
};

#[test]
fn slice_reads_from_offset() {
    let src = [1u8, 2, 3, 4, 5];
    let mut buf = [9u8; 3];
    assert_eq!(read_from_slice(&src, &mut buf, 1), 3);
    assert_eq!(buf, [2, 3, 4]);
    let mut buf = [9u8; 4];
    assert_eq!(read_from_slice(&src, &mut buf, 3), 2);
    assert_eq!(buf, [4, 5, 9, 9]);
    assert_eq!(read_from_slice(&src, &mut buf, 5), 0);
    assert_eq!(read_from_slice(&src, &mut buf, 6), 0);
    assert_eq!(read_from_slice(&src, &mut buf, u64::MAX), 0);
    assert_eq!(buf, [4, 5, 9, 9]);
}

#[test]
fn slice_writes_clipped_to_its_length() {
    let mut dst = [0u8; 4];
    assert_eq!(write_into_slice(&mut dst, &[7, 8, 9], 2), 2);
    assert_eq!(dst, [0, 0, 7, 8]);
    assert_eq!(write_into_slice(&mut dst, &[1], 4), 0);
    assert_eq!(write_into_slice(&mut dst, &[1], 10), 0);
    assert_eq!(dst, [0, 0, 7, 8]);
}

#[test]
fn slice_impls_read_and_write_at() {
    let mut x = [0u8; 8];
    {
        let mut s: &mut [u8] = &mut x[..];
        s.write_all_at(&[1, 4, 9, 5], 0).unwrap();
        let mut res = [0u8; 4];
        assert_eq!(s.read_at(&mut res, 1).unwrap(), 4);
        assert_eq!(res, [4, 9, 5, 0]);
        assert_eq!(s.write_at(&[6, 6, 6], 6).unwrap(), 2);
        assert_eq!(s.write_all_at(&[6, 6, 6], 6).unwrap_err().kind(), ErrorKind::WriteZero);
    }
    let r: &[u8] = &x[..];
    let mut res = [0u8; 2];
    assert_eq!(r.read_at(&mut res, 7).unwrap(), 1);
    assert_eq!(res, [6, 0]);
}

#[test]
fn vec_write_past_end_fills_with_zeros() {
    let mut v: Vec<u8> = vec![1, 2];
    assert_eq!(v.write_at(&[9, 9], 4).unwrap(), 2);
    assert_eq!(v, vec![1, 2, 0, 0, 9, 9]);
    assert_eq!(v.write_at(&[5, 6, 7], 5).unwrap(), 3);
    assert_eq!(v, vec![1, 2, 0, 0, 9, 5, 6, 7]);
    assert_eq!(v.write_at(&[], 100).unwrap(), 0);
    assert_eq!(v.len(), 8);
}

#[test]
fn vec_read_back_what_was_written() {
    let mut v: Vec<u8> = Vec::new();
    v.write_at(&[3, 1, 4, 1, 5], 2).unwrap();
    let mut res = [0u8; 5];
    assert_eq!(v.read_at(&mut res, 2).unwrap(), 5);
    assert_eq!(res, [3, 1, 4, 1, 5]);
    assert_eq!(v.read_at(&mut res, 0).unwrap(), 5);
    assert_eq!(res, [0, 0, 3, 1, 4]);
    assert_eq!(v.read_at(&mut res, 7).unwrap(), 0);
}

#[test]
fn later_write_hides_earlier_one() {
    let mut v: Vec<u8> = Vec::new();
    v.write_at(&[1, 2, 3], 1).unwrap();
    v.write_at(&[7, 8, 9, 10], 1).unwrap();
    assert_eq!(v, vec![0, 7, 8, 9, 10]);
}

#[test]
fn take_never_reaches_its_limit() {
    let mut t = Take::new(vec![1u8, 2, 3, 4, 5, 6], 4);
    assert_eq!(t.len(), 4);
    let mut res = [0u8; 6];
    assert_eq!(t.read_at(&mut res, 1).unwrap(), 3);
    assert_eq!(res, [2, 3, 4, 0, 0, 0]);
    assert_eq!(t.write_at(&[9, 9, 9], 2).unwrap(), 2);
    assert_eq!(*t, vec![1, 2, 9, 9, 5, 6]);
    t.push(7);
    assert_eq!(t.len(), 4);
    assert_eq!(t.write_all_at(&[8, 8], 3).unwrap_err().kind(), ErrorKind::WriteZero);
}

#[test]
fn block_limit_splits_write_all() {
    let mut b = BlockLimitWrite::new(Vec::<u8>::new(), 3);
    assert_eq!(b.write_at(&[1, 2, 3, 4, 5], 0).unwrap(), 3);
    b.write_all_at(&[6, 7, 8, 9, 10, 11, 12], 1).unwrap();
    assert_eq!(*b, vec![1, 6, 7, 8, 9, 10, 11, 12]);
    let mut res = [0u8; 2];
    assert_eq!(b.read_at(&mut res, 7).unwrap(), 1);
    assert_eq!(res, [12, 0]);
}

#[test]
fn block_limit_of_zero_fails_write_all() {
    let mut b = BlockLimitWrite::new(Vec::<u8>::new(), 0);
    assert_eq!(b.write_at(&[1], 0).unwrap(), 0);
    let e = b.write_all_at(&[1], 0).unwrap_err();
    assert_eq!(e.kind(), ErrorKind::WriteZero);
    assert_eq!(e.raw_os_error(), None);
    assert_eq!(b.write_all_at(&[], 0), Ok(()));
}

struct Flaky {
    data: Vec<u8>,
    interruptions: u32,
    fail_with: Option<Error>,
    calls: Vec<(usize, u64)>,
}

impl WriteAt for Flaky {
    fn write_at(&mut self, buf: &[u8], offs: u64) -> io_at::Result<usize> {
        self.calls.push((buf.len(), offs));
        if self.interruptions > 0 {
            self.interruptions -= 1;
            return Err(Error::new(ErrorKind::Interrupted));
        }
        if let Some(e) = self.fail_with {
            return Err(e);
        }
        let n = if buf.len() > 2 { 2 } else { buf.len() };
        self.data.write_at(&buf[..n], offs)
    }
}

#[test]
fn write_all_retries_interrupted_writes() {
    let mut f = Flaky { data: Vec::new(), interruptions: 3, fail_with: None, calls: Vec::new() };
    f.write_all_at(&[1, 2, 3, 4, 5], 1).unwrap();
    assert_eq!(f.data, vec![0, 1, 2, 3, 4, 5]);
    assert_eq!(f.calls, vec![(5, 1), (5, 1), (5, 1), (5, 1), (3, 3), (1, 5)]);
}

#[test]
fn write_all_returns_other_errors() {
    let e = Error::from_os(ErrorKind::Other, 5);
    let mut f = Flaky { data: Vec::new(), interruptions: 0, fail_with: Some(e), calls: Vec::new() };
    assert_eq!(f.write_all_at(&[1, 2, 3], 0), Err(e));
    assert_eq!(f.data, Vec::<u8>::new());
    assert_eq!(f.calls, vec![(3, 0)]);
}

#[test]
fn write_all_of_nothing_makes_no_call() {
    let e = Error::new(ErrorKind::Other);
    let mut f = Flaky { data: vec![7], interruptions: 0, fail_with: Some(e), calls: Vec::new() };
    assert_eq!(f.write_all_at(&[], 3), Ok(()));
    assert!(f.calls.is_empty());
    assert_eq!(f.data, vec![7]);
}

#[test]
fn write_all_steps() {
    assert_eq!(write_all_step(Ok(0), 0), WriteAllStep::Stop(Error::new(ErrorKind::WriteZero)));
    assert_eq!(write_all_step(Ok(3), 7), WriteAllStep::Advance(3));
    let intr = Error::from_os(ErrorKind::Interrupted, 4);
    assert_eq!(write_all_step(Err(intr), 0), WriteAllStep::Retry);
    assert_eq!(write_all_step(Err(intr), u64::MAX - 1), WriteAllStep::Retry);
    assert_eq!(write_all_step(Err(intr), u64::MAX), WriteAllStep::Stop(intr));
    let other = Error::from_os(ErrorKind::BrokenPipe, 32);
    assert_eq!(write_all_step(Err(other), 0), WriteAllStep::Stop(other));
}

#[test]
fn take_write_all_past_limit_keeps_accepted_byte() {
    let mut at = Take::new(Vec::<u8>::new(), 5);
    let e = at.write_all_at(&[11u8, 2, 3, 4], 4).unwrap_err();
    assert_eq!(e.kind(), ErrorKind::WriteZero);
    assert_eq!(*at, vec![0u8, 0, 0, 0, 11]);
    assert_eq!(at.len(), 5);
}

#[test]
fn block_limit_write_all_same_as_plain() {
    let mut b = BlockLimitWrite::new(vec![8u8, 8, 8], 2);
    let mut v = vec![8u8, 8, 8];
    assert_eq!(b.write_all_at(&[1u8, 4, 9, 5], 1), Ok(()));
    assert_eq!(v.write_all_at(&[1u8, 4, 9, 5], 1), Ok(()));
    assert_eq!(*b, v);
    assert_eq!(v, vec![8u8, 1, 4, 9, 5]);
}

#[test]
fn cursor_at_last_offset_over_take() {
    let mut c = Cursor::new(Take::new(Vec::<u8>::new(), 5), u64::MAX);
    assert_eq!(c.write(&[1, 2, 3]).unwrap(), 0);
    assert_eq!(c.position(), u64::MAX);
    let mut buf = [0u8; 3];
    assert_eq!(c.read(&mut buf).unwrap(), 0);
    assert_eq!(c.position(), u64::MAX);
}

#[test]
fn cursors_equal_by_parts() {
    assert_eq!(Cursor::new(vec![1u8], 3), Cursor::new(vec![1u8], 3));
    assert_ne!(Cursor::new(vec![1u8], 3), Cursor::new(vec![1u8], 4));
    assert_ne!(Cursor::new(vec![1u8], 3), Cursor::new(vec![2u8], 3));
    assert_eq!(Take::new(vec![1u8], 3), Take::new(vec![1u8], 3));
    assert_ne!(Take::new(vec![1u8], 3), Take::new(vec![1u8], 2));
    assert_eq!(BlockLimitWrite::new(vec![1u8], 3), BlockLimitWrite::new(vec![1u8], 3));
    assert_ne!(BlockLimitWrite::new(vec![1u8], 3), BlockLimitWrite::new(vec![1u8], 1));
}

#[test]
fn overlapped_io_result_splits_on_success_flag() {
    let e = Error::from_os(ErrorKind::Other, 38);
    assert_eq!(overlapped_io_result(1, 7, e), Ok(7));
    assert_eq!(overlapped_io_result(0, 7, e), Err(e));
}

#[test]
fn cursor_advances_by_what_it_transfers() {
    let mut c = Cursor::new(Vec::<u8>::new(), 2);
    assert_eq!(c.write(&[1, 2, 3]).unwrap(), 3);
    assert_eq!(c.position(), 5);
    assert_eq!(c.write(&[4]).unwrap(), 1);
    assert_eq!(c.position(), 6);
    assert_eq!(c.flush(), Ok(()));
    let mut r = Cursor::new(vec![0u8, 0, 1, 2, 3, 4], 3);
    let mut buf = [0u8; 2];
    assert_eq!(r.read(&mut buf).unwrap(), 2);
    assert_eq!(buf, [2, 3]);
    assert_eq!(r.position(), 5);
    assert_eq!(r.read(&mut buf).unwrap(), 1);
    assert_eq!(buf, [4, 3]);
    assert_eq!(r.position(), 6);
    assert_eq!(r.read(&mut buf).unwrap(), 0);
    assert_eq!(r.position(), 6);
}

#[test]
fn refs_pass_through() {
    let mut v: Vec<u8> = vec![1, 2, 3];
    {
        let mut w = &mut v;
        assert_eq!(w.write_at(&[9], 1).unwrap(), 1);
        let mut res = [0u8; 3];
        assert_eq!(w.read_at(&mut res, 0).unwrap(), 3);
        assert_eq!(res, [1, 9, 3]);
    }
    let r = &v;
    let mut res = [0u8; 1];
    assert_eq!(r.read_at(&mut res, 2).unwrap(), 1);
    assert_eq!(res, [3]);
}

#[test]
fn into_io_result_splits_on_sign() {
    let e = Error::from_os(ErrorKind::Interrupted, 4);
    assert_eq!(into_io_result(7, e), Ok(7));
    assert_eq!(into_io_result(0, e), Ok(0));
    assert_eq!(into_io_result(-1, e), Err(e));
}

#[test]
fn ov_splits_offset_in_halves() {
    let o = ov(0x1234_5678_9abc_def0);
    assert_eq!(o.offset, 0x9abc_def0);
    assert_eq!(o.offset_high, 0x1234_5678);
    let o = ov(5);
    assert_eq!((o.offset, o.offset_high), (5, 0));
    let o = ov(u64::MAX);
    assert_eq!((o.offset, o.offset_high), (u32::MAX, u32::MAX));
}
