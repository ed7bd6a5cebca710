//! Properties of positioned access that hold across calls.
use crate::bytes::{overwrite, span, window};
use crate::block_limit::BlockLimitWrite;
use crate::take::{clip, Take};
use crate::traits::{ReadAt, WriteAt};
use crate::write_all::{
    advances, run_result, run_so_far, run_stopped, step_in_run, step_of, write_all_run, WriteAllStep,
};
use crate::error::{Error, ErrorKind, Result};
use vstd::prelude::*;

verus! {

/// A read of as many bytes as were written, at the offset they were written
/// to, reaches all of them and gives them back.
pub proof fn law_read_back_written(data: Seq<u8>, offs: int, bytes: Seq<u8>)
    requires
        0 <= offs,
        bytes.len() > 0,
    ensures
        span(overwrite(data, offs, bytes).len() as int, offs, bytes.len() as int) == bytes.len(),
        window(overwrite(data, offs, bytes), offs, bytes.len() as int) == bytes,
{
    assert(window(overwrite(data, offs, bytes), offs, bytes.len() as int) =~= bytes);
}

/// A write leaves every existing byte outside the written range as it was.
pub proof fn law_write_keeps_other_bytes(data: Seq<u8>, offs: int, bytes: Seq<u8>, i: int)
    requires
        0 <= offs,
        0 <= i < data.len(),
        !(offs <= i < offs + bytes.len()),
    ensures
        overwrite(data, offs, bytes)[i] == data[i],
{
}

/// A write makes the contents long enough to hold it and no longer: a write
/// that starts past the end leaves zeros in the gap before it.
pub proof fn law_write_length_and_gap(data: Seq<u8>, offs: int, bytes: Seq<u8>, i: int)
    requires
        0 <= offs,
        bytes.len() > 0,
    ensures
        overwrite(data, offs, bytes).len() == if offs + bytes.len() > data.len() {
            offs + bytes.len()
        } else {
            data.len() as int
        },
        data.len() <= i < offs ==> overwrite(data, offs, bytes)[i] == 0u8,
{
}

/// A write that fits inside the contents keeps their length.
pub proof fn law_write_inside_keeps_length(data: Seq<u8>, offs: int, bytes: Seq<u8>)
    requires
        0 <= offs,
        offs + bytes.len() <= data.len(),
    ensures
        overwrite(data, offs, bytes).len() == data.len(),
{
}

/// A later write over the whole range of an earlier one hides it entirely.
pub proof fn law_last_write_wins(data: Seq<u8>, offs: int, first: Seq<u8>, second: Seq<u8>)
    requires
        0 <= offs,
        first.len() <= second.len(),
    ensures
        overwrite(overwrite(data, offs, first), offs, second) == overwrite(data, offs, second),
{
    if first.len() > 0 {
        assert(overwrite(overwrite(data, offs, first), offs, second) =~= overwrite(data, offs, second));
    }
}

/// A read reaches nothing at or past the end of the contents, and never more
/// than is wanted or more than lies between the offset and the end.
pub proof fn law_span_bounds(len: int, offs: int, want: int)
    requires
        0 <= len,
        0 <= offs,
        0 <= want,
    ensures
        offs >= len ==> span(len, offs, want) == 0,
        0 <= span(len, offs, want) <= want,
        span(len, offs, want) > 0 ==> offs + span(len, offs, want) <= len,
        offs + want <= len ==> span(len, offs, want) == want,
        offs < len && want > len - offs ==> span(len, offs, want) == len - offs,
{
}

/// Writing `a` at `offs` and then `b` right after it leaves the same contents
/// as writing `a` followed by `b` at `offs` in one go.
pub proof fn law_adjacent_writes_join(data: Seq<u8>, offs: int, a: Seq<u8>, b: Seq<u8>)
    requires
        0 <= offs,
    ensures
        overwrite(overwrite(data, offs, a), offs + a.len(), b) == overwrite(data, offs, a + b),
{
    if a.len() == 0 {
        assert(a + b =~= b);
    } else if b.len() == 0 {
        assert(a + b =~= a);
    } else {
        let lhs = overwrite(overwrite(data, offs, a), offs + a.len(), b);
        let rhs = overwrite(data, offs, a + b);
        assert(lhs.len() == rhs.len());
        assert forall|i: int| 0 <= i < lhs.len() implies lhs[i] == rhs[i] by {
            if offs <= i < offs + a.len() {
                assert((a + b)[i - offs] == a[i - offs]);
            } else if offs + a.len() <= i < offs + a.len() + b.len() {
                assert((a + b)[i - offs] == b[i - offs - a.len()]);
            }
        }
        assert(lhs =~= rhs);
    }
}

/// Below its limit, a `Take` passes on an access that ends by the limit
/// whole, and clips any other one so that it ends exactly at the limit.
pub proof fn law_clip_ends_by_limit(max_offs: u64, offs: u64, len: int)
    requires
        offs <= max_offs,
        0 <= len,
    ensures
        0 <= clip(max_offs, offs, len) <= len,
        offs + clip(max_offs, offs, len) <= max_offs,
        offs + len <= max_offs ==> clip(max_offs, offs, len) == len,
        offs + len > max_offs ==> offs + clip(max_offs, offs, len) == max_offs,
{
}

/// The calls of a run of `write_all_at` over `buf` at `offs` by a writer
/// of type `W`: call `k` writes the rest of `buf` from `dones[k]` on at
/// `offs + dones[k]`, turning `states[k]` into `states[k + 1]` with the
/// result `results[k]`.
pub open spec fn calls_in_run<W: WriteAt>(
    buf: Seq<u8>,
    offs: u64,
    states: Seq<W>,
    results: Seq<Result<usize>>,
    dones: Seq<int>,
) -> bool {
    &&& states.len() == results.len() + 1
    &&& forall|k: int|
        0 <= k < results.len() ==> W::writes_as(
            &#[trigger] states[k],
            buf.skip(dones[k]),
            (offs + dones[k]) as u64,
            &states[k + 1],
            results[k],
        )
}

/// `write_all_at` on a vector always succeeds: each write accepts all that
/// is left, so no run stops.
pub proof fn law_write_all_vec_succeeds(
    buf: Seq<u8>,
    offs: u64,
    states: Seq<Vec<u8>>,
    results: Seq<Result<usize>>,
    dones: Seq<int>,
    retries: Seq<u64>,
)
    requires
        buf.len() <= usize::MAX,
        write_all_run(buf.len() as int, results, dones, retries),
        calls_in_run(buf, offs, states, results, dones),
    ensures
        run_result(results, retries) == Ok::<(), Error>(()),
{
    let m = results.len() as int;
    if m > 0 {
        assert(step_in_run(buf.len() as int, results[m - 1], dones[m - 1], dones[m], retries[m - 1], retries[m]));
        assert(Vec::<u8>::writes_as(
            &states[m - 1],
            buf.skip(dones[m - 1]),
            (offs + dones[m - 1]) as u64,
            &states[m],
            results[m - 1],
        ));
    }
}

/// Every value a `BlockLimitWrite` takes during a run of `write_all_at` has
/// the block limit it started with.
pub proof fn law_write_all_keeps_block_limit<T: WriteAt>(
    buf: Seq<u8>,
    offs: u64,
    states: Seq<BlockLimitWrite<T>>,
    results: Seq<Result<usize>>,
    dones: Seq<int>,
    j: int,
)
    requires
        calls_in_run(buf, offs, states, results, dones),
        0 <= j < states.len(),
    ensures
        states[j].block_limit() == states[0].block_limit(),
    decreases j,
{
    if j > 0 {
        law_write_all_keeps_block_limit(buf, offs, states, results, dones, j - 1);
        assert(BlockLimitWrite::<T>::writes_as(
            &states[j - 1],
            buf.skip(dones[j - 1]),
            (offs + dones[j - 1]) as u64,
            &states[j],
            results[j - 1],
        ));
    }
}

/// `write_all_at` on a `BlockLimitWrite` over a vector with a block limit
/// above zero always succeeds, so it leaves the same contents as on the
/// vector itself: splitting the writes into blocks does not show.
pub proof fn law_write_all_block_limit_vec_succeeds(
    buf: Seq<u8>,
    offs: u64,
    states: Seq<BlockLimitWrite<Vec<u8>>>,
    results: Seq<Result<usize>>,
    dones: Seq<int>,
    retries: Seq<u64>,
)
    requires
        write_all_run(buf.len() as int, results, dones, retries),
        calls_in_run(buf, offs, states, results, dones),
        states[0].block_limit() > 0,
    ensures
        run_result(results, retries) == Ok::<(), Error>(()),
{
    let m = results.len() as int;
    if m > 0 {
        law_write_all_keeps_block_limit(buf, offs, states, results, dones, m - 1);
        assert(step_in_run(buf.len() as int, results[m - 1], dones[m - 1], dones[m], retries[m - 1], retries[m]));
        assert(BlockLimitWrite::<Vec<u8>>::writes_as(
            &states[m - 1],
            buf.skip(dones[m - 1]),
            (offs + dones[m - 1]) as u64,
            &states[m],
            results[m - 1],
        ));
    }
}

/// Every value a `Take` takes during a run of `write_all_at` has the limit
/// it started with.
pub proof fn law_write_all_keeps_take_limit<T: WriteAt>(
    buf: Seq<u8>,
    offs: u64,
    states: Seq<Take<T>>,
    results: Seq<Result<usize>>,
    dones: Seq<int>,
    j: int,
)
    requires
        calls_in_run(buf, offs, states, results, dones),
        0 <= j < states.len(),
    ensures
        states[j].limit() == states[0].limit(),
    decreases j,
{
    if j > 0 {
        law_write_all_keeps_take_limit(buf, offs, states, results, dones, j - 1);
        assert(Take::<T>::writes_as(
            &states[j - 1],
            buf.skip(dones[j - 1]),
            (offs + dones[j - 1]) as u64,
            &states[j],
            results[j - 1],
        ));
    }
}

/// A vector behind a `Take` that starts no longer than the limit stays no
/// longer than the limit through a run of `write_all_at`: no byte at or past
/// the limit reaches it.
pub proof fn law_write_all_take_vec_within_limit(
    buf: Seq<u8>,
    offs: u64,
    states: Seq<Take<Vec<u8>>>,
    results: Seq<Result<usize>>,
    dones: Seq<int>,
    j: int,
)
    requires
        calls_in_run(buf, offs, states, results, dones),
        states[0].wrapped()@.len() <= states[0].limit(),
        0 <= j < states.len(),
    ensures
        states[j].wrapped()@.len() <= states[0].limit(),
    decreases j,
{
    if j > 0 {
        law_write_all_take_vec_within_limit(buf, offs, states, results, dones, j - 1);
        law_write_all_keeps_take_limit(buf, offs, states, results, dones, j - 1);
        assert(Take::<Vec<u8>>::writes_as(
            &states[j - 1],
            buf.skip(dones[j - 1]),
            (offs + dones[j - 1]) as u64,
            &states[j],
            results[j - 1],
        ));
    }
}

/// In a run of `write_all_at` over a buffer of `len` bytes, the calls among
/// the first `j` that accepted bytes are no more than the bytes written by
/// then, which are at most `len`.
pub proof fn law_write_all_calls_bounded(
    len: int,
    results: Seq<Result<usize>>,
    dones: Seq<int>,
    retries: Seq<u64>,
    j: int,
)
    requires
        0 <= len,
        run_so_far(len, results, dones, retries),
        0 <= j <= results.len(),
    ensures
        advances(results, retries, j) <= dones[j] <= len,
    decreases j,
{
    if j > 0 {
        let k = j - 1;
        law_write_all_calls_bounded(len, results, dones, retries, k);
        assert(step_in_run(len, results[k], dones[k], dones[k + 1], retries[k], retries[k + 1]));
    }
}

/// A slice keeps its length through a run of `write_all_at`.
pub proof fn law_write_all_keeps_slice_length<'a>(
    buf: Seq<u8>,
    offs: u64,
    states: Seq<&'a mut [u8]>,
    results: Seq<Result<usize>>,
    dones: Seq<int>,
    j: int,
)
    requires
        calls_in_run(buf, offs, states, results, dones),
        0 <= j < states.len(),
    ensures
        states[j]@.len() == states[0]@.len(),
    decreases j,
{
    if j > 0 {
        let k = j - 1;
        law_write_all_keeps_slice_length(buf, offs, states, results, dones, k);
        assert(<&'a mut [u8] as WriteAt>::writes_as(
            &states[k],
            buf.skip(dones[k]),
            (offs + dones[k]) as u64,
            &states[k + 1],
            results[k],
        ));
    }
}

/// `write_all_at` on a slice succeeds when the whole buffer fits in the
/// slice at `offs`.
pub proof fn law_write_all_slice_succeeds<'a>(
    buf: Seq<u8>,
    offs: u64,
    states: Seq<&'a mut [u8]>,
    results: Seq<Result<usize>>,
    dones: Seq<int>,
    retries: Seq<u64>,
)
    requires
        offs + buf.len() <= states[0]@.len(),
        offs + buf.len() <= u64::MAX,
        buf.len() <= usize::MAX,
        write_all_run(buf.len() as int, results, dones, retries),
        calls_in_run(buf, offs, states, results, dones),
    ensures
        run_result(results, retries) == Ok::<(), Error>(()),
{
    let m = results.len() as int;
    if m > 0 {
        let k = m - 1;
        law_write_all_keeps_slice_length(buf, offs, states, results, dones, k);
        assert(step_in_run(buf.len() as int, results[k], dones[k], dones[k + 1], retries[k], retries[k + 1]));
        assert(<&'a mut [u8] as WriteAt>::writes_as(
            &states[k],
            buf.skip(dones[k]),
            (offs + dones[k]) as u64,
            &states[k + 1],
            results[k],
        ));
    }
}

/// `write_all_at` on a `Take` over a vector succeeds when the whole buffer
/// ends by the limit at `offs`.
pub proof fn law_write_all_take_vec_succeeds(
    buf: Seq<u8>,
    offs: u64,
    states: Seq<Take<Vec<u8>>>,
    results: Seq<Result<usize>>,
    dones: Seq<int>,
    retries: Seq<u64>,
)
    requires
        offs + buf.len() <= states[0].limit(),
        offs + buf.len() <= u64::MAX,
        buf.len() <= usize::MAX,
        write_all_run(buf.len() as int, results, dones, retries),
        calls_in_run(buf, offs, states, results, dones),
    ensures
        run_result(results, retries) == Ok::<(), Error>(()),
{
    let m = results.len() as int;
    if m > 0 {
        let k = m - 1;
        law_write_all_keeps_take_limit(buf, offs, states, results, dones, k);
        assert(step_in_run(buf.len() as int, results[k], dones[k], dones[k + 1], retries[k], retries[k + 1]));
        assert(Take::<Vec<u8>>::writes_as(
            &states[k],
            buf.skip(dones[k]),
            (offs + dones[k]) as u64,
            &states[k + 1],
            results[k],
        ));
    }
}

/// The step `write_all_at` takes on each result of `write_at`: a write that
/// accepted nothing stops it with a `WriteZero` error; one that accepted `n`
/// bytes advances by exactly `n`; an `Interrupted` error is retried while
/// fewer than `u64::MAX` retries were made in a row and otherwise returned;
/// every other error is returned at once, unchanged.
pub proof fn law_write_all_steps(r: Result<usize>, retries: u64)
    ensures
        r == Ok::<usize, Error>(0) ==> (step_of(r, retries) matches WriteAllStep::Stop(e) && e.kind
            == ErrorKind::WriteZero && e.os_code is None),
        r matches Ok(n) ==> (n > 0 ==> step_of(r, retries) == WriteAllStep::Advance(n)),
        r matches Err(e) ==> (e.kind != ErrorKind::Interrupted ==> step_of(r, retries)
            == WriteAllStep::Stop(e)),
        r matches Err(e) ==> (e.kind == ErrorKind::Interrupted ==> (if retries < u64::MAX {
            step_of(r, retries) == WriteAllStep::Retry
        } else {
            step_of(r, retries) == WriteAllStep::Stop(e)
        })),
{
}

/// A read through a `Take` over a vector at or below the limit reads as many
/// bytes as fit in the buffer, below the limit and before the end of the
/// vector, and fills the buffer's front with them; past the limit it reads
/// nothing.
pub proof fn law_take_vec_read(
    t: Take<Vec<u8>>,
    before: Seq<u8>,
    offs: u64,
    after: Seq<u8>,
    r: Result<usize>,
)
    requires
        before.len() <= usize::MAX,
        t.reads_as(before, offs, after, r),
    ensures
        offs > t.limit() ==> r == Ok::<usize, Error>(0) && after == before,
        offs <= t.limit() ==> ({
            let data = t.wrapped()@;
            let room = t.limit() - offs;
            let fits = if before.len() <= room { before.len() as int } else { room };
            let n = if offs >= data.len() {
                0
            } else if fits <= data.len() - offs {
                fits
            } else {
                data.len() - offs
            };
            &&& r == Ok::<usize, Error>(n as usize)
            &&& after.len() == before.len()
            &&& forall|i: int| 0 <= i < n ==> after[i] == data[offs + i]
            &&& forall|i: int| n <= i < before.len() ==> after[i] == before[i]
        }),
{
    if offs <= t.limit() {
        let data = t.wrapped()@;
        let k = clip(t.limit(), offs, before.len() as int);
        let n = span(data.len() as int, offs as int, k);
        assert(Vec::<u8>::reads_as(&t.wrapped(), before.take(k), offs, after.take(k), r));
        assert forall|i: int| 0 <= i < n implies after[i] == data[offs + i] by {
            assert(after.take(k)[i] == after[i]);
        }
        assert forall|i: int| n <= i < before.len() implies after[i] == before[i] by {
            if i < k {
                assert(after.take(k)[i] == after[i]);
                assert(before.take(k)[i] == before[i]);
            } else {
                assert(after.skip(k)[i - k] == before.skip(k)[i - k]);
            }
        }
    }
}

/// A write through a `Take` over a vector at or below the limit stores as
/// many bytes as fit below the limit and reports that count; past the limit
/// it stores nothing and reports zero. The limit stays.
pub proof fn law_take_vec_write(
    t: Take<Vec<u8>>,
    bytes: Seq<u8>,
    offs: u64,
    after: Take<Vec<u8>>,
    r: Result<usize>,
)
    requires
        bytes.len() <= usize::MAX,
        t.writes_as(bytes, offs, &after, r),
    ensures
        after.limit() == t.limit(),
        offs > t.limit() ==> r == Ok::<usize, Error>(0) && after.wrapped() == t.wrapped(),
        offs <= t.limit() ==> ({
            let room = t.limit() - offs;
            let n = if bytes.len() <= room { bytes.len() as int } else { room };
            &&& r == Ok::<usize, Error>(n as usize)
            &&& offs + n <= t.limit()
            &&& after.wrapped()@ == overwrite(t.wrapped()@, offs as int, bytes.take(n))
        }),
{
}

/// A write through a `BlockLimitWrite` over a vector stores as many bytes as
/// the block limit allows, wherever it starts, and reports that count.
pub proof fn law_block_limit_vec_write(
    b: BlockLimitWrite<Vec<u8>>,
    bytes: Seq<u8>,
    offs: u64,
    after: BlockLimitWrite<Vec<u8>>,
    r: Result<usize>,
)
    requires
        bytes.len() <= usize::MAX,
        b.writes_as(bytes, offs, &after, r),
    ensures
        after.block_limit() == b.block_limit(),
        ({
            let n = if bytes.len() <= b.block_limit() { bytes.len() as int } else { b.block_limit() as int };
            &&& r == Ok::<usize, Error>(n as usize)
            &&& after.wrapped()@ == overwrite(b.wrapped()@, offs as int, bytes.take(n))
        }),
{
}

/// A run of `write_all_at` returns `Ok(())` exactly when it wrote every byte
/// without being stopped, and otherwise the error of the step that stopped
/// it, which was its last call; every earlier call either accepted bytes or
/// was a retried `Interrupted` error.
pub proof fn law_write_all_run_result(
    len: int,
    results: Seq<Result<usize>>,
    dones: Seq<int>,
    retries: Seq<u64>,
)
    requires
        write_all_run(len, results, dones, retries),
    ensures
        run_result(results, retries) is Ok <==> !run_stopped(results, retries),
        run_result(results, retries) is Ok ==> dones.last() == len,
        run_stopped(results, retries) ==> step_of(results.last(), retries[results.len() - 1])
            == WriteAllStep::Stop(run_result(results, retries)->Err_0),
        forall|k: int|
            0 <= k < results.len() - 1 ==> (#[trigger] step_of(results[k], retries[k]) is Advance
                || (results[k] matches Err(e) && e.kind == ErrorKind::Interrupted)),
{
    assert forall|k: int| 0 <= k < results.len() - 1 implies (#[trigger] step_of(results[k], retries[k]) is Advance
        || (results[k] matches Err(e) && e.kind == ErrorKind::Interrupted)) by {
        assert(!(step_of(results[k], retries[k]) is Stop));
    }
}

} // verus!
