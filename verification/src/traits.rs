use crate::bytes::{overwrite, window};
use crate::error::Result;
use crate::laws::law_adjacent_writes_join;
use crate::write_all::{
    run_result, run_so_far, run_stopped, step_in_run, step_of, write_all_run, write_all_step,
    WriteAllStep,
};
use vstd::prelude::*;
use vstd::slice::slice_subrange;

verus! {

/// Read data at an offset.
///
/// Compared to a reader with a cursor, `read_at` takes `&self`: it needs no
/// internal position to change. Every implementation keeps the buffer's
/// length and reports at most as many bytes as the buffer holds.
/// Implementations that model their contents as a sequence of bytes,
/// `read_view`, say so with `obeys_read_view`; for them a successful read of
/// `n` bytes at `offs` fills the first `n` bytes of the buffer with the
/// contents from `offs` on and leaves the rest of the buffer as it was.
pub trait ReadAt {
    /// Whether this type's reads follow `read_view` (see `read_at`).
    open spec fn obeys_read_view() -> bool {
        false
    }

    /// The bytes that a read can see. It describes nothing unless
    /// `obeys_read_view` holds.
    open spec fn read_view(&self) -> Seq<u8> {
        vstd::pervasive::arbitrary()
    }

    /// Whether a read at `offs` into a buffer holding `before` may leave it
    /// holding `after` and return `r`. Implementations say here what their
    /// reads do; one that does not allows every outcome that the other
    /// clauses of `read_at` allow.
    open spec fn reads_as(&self, before: Seq<u8>, offs: u64, after: Seq<u8>, r: Result<usize>) -> bool {
        true
    }

    fn read_at(&self, buf: &mut [u8], offs: u64) -> (r: Result<usize>)
        ensures
            self.reads_as(old(buf)@, offs, final(buf)@, r),
            final(buf)@.len() == old(buf)@.len(),
            r matches Ok(n) ==> n <= old(buf)@.len(),
            Self::obeys_read_view() ==> (r matches Ok(n) ==> {
                &&& n > 0 ==> offs + n <= self.read_view().len()
                &&& final(buf)@.take(n as int) =~= window(self.read_view(), offs as int, n as int)
                &&& final(buf)@.skip(n as int) =~= old(buf)@.skip(n as int)
            }),
    ;
}

/// Write data at an offset.
///
/// Every implementation reports at most as many bytes as the buffer holds.
/// Implementations that model their contents as a sequence of bytes,
/// `write_view`, say so with `obeys_write_view`; for them a successful write
/// of `n` bytes stores the first `n` bytes of the buffer at `offs` (see
/// `overwrite`), and a failed write changes nothing.
pub trait WriteAt {
    /// Whether this type's writes follow `write_view` (see `write_at`).
    open spec fn obeys_write_view() -> bool {
        false
    }

    /// The bytes that writes change. It describes nothing unless
    /// `obeys_write_view` holds.
    open spec fn write_view(&self) -> Seq<u8> {
        vstd::pervasive::arbitrary()
    }

    /// Whether a write of `bytes` at `offs` may turn this value into `after`
    /// and return `r`. Implementations say here what their writes do; one
    /// that does not allows every outcome that the other clauses of
    /// `write_at` allow.
    open spec fn writes_as(&self, bytes: Seq<u8>, offs: u64, after: &Self, r: Result<usize>) -> bool {
        true
    }

    fn write_at(&mut self, buf: &[u8], offs: u64) -> (r: Result<usize>)
        ensures
            Self::writes_as(&*old(self), buf@, offs, &*final(self), r),
            r matches Ok(n) ==> n <= buf@.len(),
            Self::obeys_write_view() ==> match r {
                Ok(n) => final(self).write_view() == overwrite(old(self).write_view(), offs as int, buf@.take(n as int)),
                Err(_) => final(self).write_view() == old(self).write_view(),
            },
    ;

    /// Writes the whole buffer at `offs` by calling `write_at` on the rest of
    /// it, at the offset where the rest starts, until every byte is accepted.
    /// After each call it takes the step `write_all_step` decides: a write
    /// that accepts no byte ends it with a `WriteZero` error; an `Interrupted`
    /// error is retried with the same call (at most `u64::MAX` times in a
    /// row); any other error is returned as it is. An empty buffer is written
    /// without any call. The whole run is described by `write_all_run`.
    fn write_all_at(&mut self, buf: &[u8], offs: u64) -> (r: Result<()>) where Self: Sized
        requires
            offs + buf@.len() <= u64::MAX,
        ensures
            buf@.len() == 0 ==> r == Ok::<(), crate::error::Error>(()) && *final(self) == *old(self),
            exists|states: Seq<Self>, results: Seq<Result<usize>>, dones: Seq<int>, retries: Seq<u64>|
                #![trigger write_all_run(buf@.len() as int, results, dones, retries), states.len()]
                {
                    &&& write_all_run(buf@.len() as int, results, dones, retries)
                    &&& states.len() == results.len() + 1
                    &&& states[0] == *old(self)
                    &&& states.last() == *final(self)
                    &&& forall|k: int|
                        0 <= k < results.len() ==> Self::writes_as(
                            &#[trigger] states[k],
                            buf@.skip(dones[k]),
                            (offs + dones[k]) as u64,
                            &states[k + 1],
                            results[k],
                        )
                    &&& r == run_result(results, retries)
                },
            Self::obeys_write_view() ==> (r is Ok ==> Self::write_view(&*final(self)) == overwrite(
                Self::write_view(&*old(self)),
                offs as int,
                buf@,
            )),
            Self::obeys_write_view() ==> (r is Err ==> exists|k: int|
                0 <= k <= buf@.len() && Self::write_view(&*final(self)) == #[trigger] overwrite(
                    Self::write_view(&*old(self)),
                    offs as int,
                    buf@.take(k),
                )),
    {
        let mut rest: &[u8] = buf;
        let mut offs_now: u64 = offs;
        let mut retries: u64 = 0;
        let ghost mut done: int = 0;
        let ghost mut states: Seq<Self> = seq![*self];
        let ghost mut results: Seq<Result<usize>> = Seq::empty();
        let ghost mut dones: Seq<int> = seq![0int];
        let ghost mut retry_counts: Seq<u64> = seq![0u64];
        assert(buf@.take(0) =~= Seq::<u8>::empty());
        while !rest.is_empty()
            invariant
                0 <= done <= buf@.len(),
                rest@ == buf@.skip(done),
                offs_now == offs + done,
                offs + buf@.len() <= u64::MAX,
                Self::obeys_write_view() ==> Self::write_view(&*self) == overwrite(
                    Self::write_view(&*old(self)),
                    offs as int,
                    buf@.take(done),
                ),
                run_so_far(buf@.len() as int, results, dones, retry_counts),
                states.len() == results.len() + 1,
                forall|k: int|
                    0 <= k < results.len() ==> Self::writes_as(
                        &#[trigger] states[k],
                        buf@.skip(dones[k]),
                        (offs + dones[k]) as u64,
                        &states[k + 1],
                        results[k],
                    ),
                !run_stopped(results, retry_counts),
                states[0] == *old(self),
                states.last() == *self,
                dones.last() == done,
                retry_counts.last() == retries,
            decreases buf@.len() - done, u64::MAX - retries,
        {
            let ghost before: Self = *self;
            let r = self.write_at(rest, offs_now);
            let step = write_all_step(r, retries);
            proof {
                let m = results.len();
                let ghost done2: int = match step {
                    WriteAllStep::Advance(n) => done + n,
                    _ => done,
                };
                let ghost retries2: u64 = match step {
                    WriteAllStep::Advance(_) => 0u64,
                    WriteAllStep::Retry => (retries + 1) as u64,
                    WriteAllStep::Stop(_) => retries,
                };
                assert(step_in_run(buf@.len() as int, r, done, done2, retries, retries2));
                let states2 = states.push(*self);
                let results2 = results.push(r);
                let dones2 = dones.push(done2);
                let retries_seq2 = retry_counts.push(retries2);
                assert forall|k: int| 0 <= k < m + 1 implies #[trigger] step_in_run(
                    buf@.len() as int,
                    results2[k],
                    dones2[k],
                    dones2[k + 1],
                    retries_seq2[k],
                    retries_seq2[k + 1],
                ) by {
                    if k < m {
                        assert(step_in_run(
                            buf@.len() as int,
                            results[k],
                            dones[k],
                            dones[k + 1],
                            retry_counts[k],
                            retry_counts[k + 1],
                        ));
                    }
                }
                assert forall|k: int| 0 <= k < m + 1 implies Self::writes_as(
                    &#[trigger] states2[k],
                    buf@.skip(dones2[k]),
                    (offs + dones2[k]) as u64,
                    &states2[k + 1],
                    results2[k],
                ) by {
                    if k < m {
                        assert(states2[k] == states[k]);
                        assert(states2[k + 1] == states[k + 1]);
                    } else {
                        assert(states2[k] == before);
                    }
                }
                assert forall|k: int| 0 <= k < m implies !(#[trigger] step_of(results2[k], retries_seq2[k]) is Stop) by {
                    if k == m - 1 {
                        assert(results2[k] == results.last());
                    }
                }
                states = states2;
                results = results2;
                dones = dones2;
                retry_counts = retries_seq2;
                assert(run_so_far(buf@.len() as int, results, dones, retry_counts));
            }
            match step {
                WriteAllStep::Stop(e) => {
                    proof {
                        assert(run_stopped(results, retry_counts));
                        assert(write_all_run(buf@.len() as int, results, dones, retry_counts));
                        assert(states.len() == results.len() + 1);
                        assert(Err::<(), crate::error::Error>(e) == run_result(results, retry_counts));
                    }
                    return Err(e);
                },
                WriteAllStep::Advance(n) => {
                    proof {
                        law_adjacent_writes_join(
                            Self::write_view(&*old(self)),
                            offs as int,
                            buf@.take(done),
                            rest@.take(n as int),
                        );
                        assert(buf@.take(done) + rest@.take(n as int) =~= buf@.take(done + n));
                        done = done + n;
                    }
                    rest = slice_subrange(rest, n, rest.len());
                    offs_now = offs_now + n as u64;
                    retries = 0;
                    assert(rest@ =~= buf@.skip(done));
                },
                WriteAllStep::Retry => {
                    retries = retries + 1;
                },
            }
        }
        proof {
            assert(buf@.take(done) =~= buf@);
            assert(write_all_run(buf@.len() as int, results, dones, retry_counts));
            assert(states.len() == results.len() + 1);
            if buf@.len() == 0 && results.len() > 0 {
                assert(step_in_run(buf@.len() as int, results[0], dones[0], dones[1], retry_counts[0], retry_counts[1]));
            }
        }
        Ok(())
    }
}

} // verus!
