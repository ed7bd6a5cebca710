use vstd::prelude::*;

verus! {

/// How many bytes an access of `want` bytes at offset `offs` reaches inside
/// a region of `len` bytes: none from the end of the region on, otherwise as
/// many as are wanted and fit.
pub open spec fn span(len: int, offs: int, want: int) -> int {
    if offs >= len {
        0
    } else if want <= len - offs {
        want
    } else {
        len - offs
    }
}

/// The contents `data` after `bytes` are written at offset `offs`. Writing
/// no bytes changes nothing; a write that starts past the end first fills
/// the gap with zeros, and one that runs past the end extends the contents.
pub open spec fn overwrite(data: Seq<u8>, offs: int, bytes: Seq<u8>) -> Seq<u8> {
    if bytes.len() == 0 {
        data
    } else {
        let end = offs + bytes.len();
        let new_len = if end > data.len() { end } else { data.len() as int };
        Seq::new(
            new_len as nat,
            |i: int|
                if offs <= i < end {
                    bytes[i - offs]
                } else if i < data.len() {
                    data[i]
                } else {
                    0u8
                },
        )
    }
}

/// The `n` bytes of `data` from offset `offs` on; empty when `n` is zero.
pub open spec fn window(data: Seq<u8>, offs: int, n: int) -> Seq<u8> {
    if n <= 0 {
        Seq::empty()
    } else {
        data.subrange(offs, offs + n)
    }
}

/// A buffer holding `before` after a read of `data` at offset `offs` into
/// it: the bytes the read reaches, then the rest of the buffer unchanged.
pub open spec fn read_into(data: Seq<u8>, offs: u64, before: Seq<u8>) -> Seq<u8> {
    let n = span(data.len() as int, offs as int, before.len() as int);
    window(data, offs as int, n) + before.skip(n)
}

} // verus!
