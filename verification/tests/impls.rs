use io_at::{BlockLimitWrite, Cursor, ReadAt, Take, WriteAt};

fn test_impl<T: ReadAt + WriteAt>(mut at: T) {
    let x = [1u8, 4, 9, 5];

    /* write at start */
    at.write_all_at(&x, 0).unwrap();
    let mut res = [0u8; 4];

    /* read at start */
    assert_eq!(at.read_at(&mut res, 0).unwrap(), 4);
    assert_eq!(&res, &x);

    /* read at middle */
    assert_eq!(at.read_at(&mut res, 1).unwrap(), 3);
    assert_eq!(&res[..3], &x[1..]);

    /* write at middle */
    at.write_all_at(&x, 1).unwrap();

    assert_eq!(at.read_at(&mut res, 0).unwrap(), 4);
    assert_eq!(&res, &[1u8, 1, 4, 9]);

    assert_eq!(at.read_at(&mut res, 4).unwrap(), 1);
    assert_eq!(&res[..1], &[5u8]);
}

/* A slice is storage of a fixed size: reads reach its end, not the end of
 * what was written, so the same writes as in `test_impl` read back longer. */
#[test]
fn slice_reads_to_its_end() {
    let mut x = [0u8; 128];
    let mut at = &mut x[..];
    let w = [1u8, 4, 9, 5];

    at.write_all_at(&w, 0).unwrap();
    let mut res = [0u8; 4];
    assert_eq!(at.read_at(&mut res, 0).unwrap(), 4);
    assert_eq!(&res, &w);

    assert_eq!(at.read_at(&mut res, 1).unwrap(), 4);
    assert_eq!(&res, &[4u8, 9, 5, 0]);

    at.write_all_at(&w, 1).unwrap();
    assert_eq!(at.read_at(&mut res, 0).unwrap(), 4);
    assert_eq!(&res, &[1u8, 1, 4, 9]);

    assert_eq!(at.read_at(&mut res, 4).unwrap(), 4);
    assert_eq!(&res, &[5u8, 0, 0, 0]);

    assert_eq!(at.read_at(&mut res, 126).unwrap(), 2);
    assert_eq!(at.read_at(&mut res, 128).unwrap(), 0);
    assert_eq!(at.write_all_at(&w, 126).unwrap_err().kind(), io_at::ErrorKind::WriteZero);
}

#[test]
fn vec_do_t() {
    let x = vec![];
    test_impl(x);
}

#[test]
fn do_t_cursor() {
    let _at = Cursor::new(Vec::<u8>::new(), 5);
}

#[test]
fn do_t_take() {
    let at = Take::new(Vec::<u8>::new(), 5);
    test_impl(at);

    /* Partial write */
    let mut at = Take::new(Vec::<u8>::new(), 5);
    assert_eq!(at.write_at(&[11u8, 2, 3, 4], 4).unwrap(), 1);

    /* Partial read */
    let mut res = [0u8; 4];
    assert_eq!(at.read_at(&mut res, 4).unwrap(), 1);
    assert_eq!(&res[..1], &[11]);

    /* At the end none write */
    assert_eq!(at.write_at(&[12u8, 13], 5).unwrap(), 0);

    /* At the end none read */
    assert_eq!(at.read_at(&mut res, 5).unwrap(), 0);

    /* Past the end none write */
    assert_eq!(at.write_at(&[12u8, 13], 6).unwrap(), 0);

    /* Past the end none read */
    assert_eq!(at.read_at(&mut res, 6).unwrap(), 0);
}

#[test]
fn do_t_block_limit() {
    let at = BlockLimitWrite::new(Vec::<u8>::new(), 2);
    test_impl(at);

    let mut at = BlockLimitWrite::new(Vec::<u8>::new(), 2);
    assert_eq!(at.write_at(&[1u8, 2, 3], 0).unwrap(), 2);
}
