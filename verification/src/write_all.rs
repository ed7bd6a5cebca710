//! The decisions that `write_all_at` takes on each result of `write_at`, and
//! the record of a whole run of it.
use crate::error::{Error, ErrorKind, Result};
use vstd::prelude::*;

verus! {

/// What `write_all_at` does after one call of `write_at`.
#[derive(Debug, Clone, Copy, PartialEq, Eq, Structural)]
pub enum WriteAllStep {
    /// That many bytes were accepted: go on after them.
    Advance(usize),
    /// The call was interrupted: make the same call again.
    Retry,
    /// Stop and return this error.
    Stop(Error),
}

/// The error that ends `write_all_at` when a write accepts no byte.
pub open spec fn write_zero_error() -> Error {
    Error { kind: ErrorKind::WriteZero, os_code: None }
}

/// The step taken on the result `r` of a write, after `retries` interrupted
/// writes in a row: a write that accepted no byte stops with a `WriteZero`
/// error; one that accepted `n` bytes advances by them; an `Interrupted`
/// error is retried unless `retries` has reached `u64::MAX`; any other error
/// stops with that error.
pub open spec fn step_of(r: Result<usize>, retries: u64) -> WriteAllStep {
    match r {
        Ok(n) => if n == 0 {
            WriteAllStep::Stop(write_zero_error())
        } else {
            WriteAllStep::Advance(n)
        },
        Err(e) => if e.kind == ErrorKind::Interrupted && retries < u64::MAX {
            WriteAllStep::Retry
        } else {
            WriteAllStep::Stop(e)
        },
    }
}

/// Decides the step that `write_all_at` takes on the result `r` of a write,
/// after `retries` interrupted writes in a row.
pub fn write_all_step(r: Result<usize>, retries: u64) -> (s: WriteAllStep)
    ensures
        s == step_of(r, retries),
{
    match r {
        Ok(0) => WriteAllStep::Stop(Error::new(ErrorKind::WriteZero)),
        Ok(n) => WriteAllStep::Advance(n),
        Err(e) => match e.kind {
            ErrorKind::Interrupted => if retries < u64::MAX {
                WriteAllStep::Retry
            } else {
                WriteAllStep::Stop(e)
            },
            _ => WriteAllStep::Stop(e),
        },
    }
}

/// One step of a run of `write_all_at` over a buffer of `len` bytes: with
/// `done` bytes written and `retries` interrupted writes in a row, bytes
/// remain, the call made returns `r`, and `done2` and `retries2` are the
/// counts after the step taken on `r`.
pub open spec fn step_in_run(len: int, r: Result<usize>, done: int, done2: int, retries: u64, retries2: u64) -> bool {
    &&& 0 <= done < len
    &&& match step_of(r, retries) {
        WriteAllStep::Advance(n) => done2 == done + n && done2 <= len && retries2 == 0,
        WriteAllStep::Retry => done2 == done && retries2 == retries + 1,
        WriteAllStep::Stop(_) => done2 == done && retries2 == retries,
    }
}

/// A run of `write_all_at` over a buffer of `len` bytes so far: the result of
/// each call of `write_at` (`results`), and the bytes written (`dones`) and
/// interrupted writes in a row (`retries`) before each call and at the end.
/// The call at step `k` writes the last `len - dones[k]` bytes of the buffer
/// at the offset plus `dones[k]`. Every call but the last went on.
pub open spec fn run_so_far(len: int, results: Seq<Result<usize>>, dones: Seq<int>, retries: Seq<u64>) -> bool {
    let m = results.len();
    &&& dones.len() == m + 1
    &&& retries.len() == m + 1
    &&& dones[0] == 0
    &&& retries[0] == 0
    &&& forall|k: int|
        0 <= k < m ==> #[trigger] step_in_run(len, results[k], dones[k], dones[k + 1], retries[k], retries[k + 1])
    &&& forall|k: int| 0 <= k < m - 1 ==> !(#[trigger] step_of(results[k], retries[k]) is Stop)
}

/// Whether the last call of a run stopped it.
pub open spec fn run_stopped(results: Seq<Result<usize>>, retries: Seq<u64>) -> bool {
    results.len() > 0 && step_of(results.last(), retries[results.len() - 1]) is Stop
}

/// What a finished run returns: the error that stopped it, or `Ok(())`.
pub open spec fn run_result(results: Seq<Result<usize>>, retries: Seq<u64>) -> Result<()> {
    if run_stopped(results, retries) {
        Err(step_of(results.last(), retries[results.len() - 1])->Stop_0)
    } else {
        Ok(())
    }
}

/// A whole run of `write_all_at` over a buffer of `len` bytes: a run so far
/// that either stopped or wrote every byte.
pub open spec fn write_all_run(len: int, results: Seq<Result<usize>>, dones: Seq<int>, retries: Seq<u64>) -> bool {
    &&& run_so_far(len, results, dones, retries)
    &&& !run_stopped(results, retries) ==> dones.last() == len
}

/// How many of the first `j` calls of a run accepted bytes.
pub open spec fn advances(results: Seq<Result<usize>>, retries: Seq<u64>, j: int) -> int
    decreases j,
{
    if j <= 0 {
        0
    } else {
        advances(results, retries, j - 1) + if step_of(results[j - 1], retries[j - 1]) is Advance {
            1int
        } else {
            0int
        }
    }
}

} // verus!
