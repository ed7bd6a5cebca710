//! Positioned reads and writes: traits for reading and writing data at an
//! offset, implementations for in-memory buffers, and adaptors that clip,
//! split or sequence such accesses.
mod block_limit;
mod bytes;
mod cursor;
mod error;
mod laws;
mod os;
mod slice;
mod refs;
mod take;
mod traits;
mod vec;
mod write_all;

pub use bytes::{overwrite, span, window};
pub use error::{Error, ErrorKind, Result};
pub use slice::{read_from_slice, write_into_slice};
pub use traits::{ReadAt, WriteAt};
pub use take::{clip, law_take_determined_by_parts, Take};
pub use block_limit::{law_block_limit_write_determined_by_parts, BlockLimitWrite};
pub use cursor::{law_cursor_determined_by_parts, Cursor};
pub use os::{into_io_result, overlapped_io_result, ov, OverlappedOffset};
pub use laws::{
    law_write_all_run_result,
    law_block_limit_vec_write, law_take_vec_read, law_take_vec_write, law_write_all_steps,
    law_write_all_keeps_slice_length, law_write_all_slice_succeeds, law_write_all_take_vec_succeeds,
    law_write_all_calls_bounded,
    calls_in_run, law_write_all_block_limit_vec_succeeds, law_write_all_keeps_block_limit,
    law_write_all_keeps_take_limit, law_write_all_take_vec_within_limit, law_write_all_vec_succeeds,
    law_adjacent_writes_join, law_clip_ends_by_limit, law_last_write_wins, law_read_back_written, law_span_bounds, law_write_inside_keeps_length,
    law_write_keeps_other_bytes, law_write_length_and_gap,
};
pub use write_all::{
    advances, run_result, run_so_far, run_stopped, step_in_run, step_of, write_all_run, write_all_step,
    write_zero_error, WriteAllStep,
};
