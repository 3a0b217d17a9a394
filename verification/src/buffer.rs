//! The deterministic byte buffer that the throughput workloads consume.

use vstd::prelude::*;

verus! {

/// Length of the buffer that the throughput workloads consume.
pub const BUFFER_LEN: usize = 10000;

/// The bytes `0, 1, .., 255, 0, 1, ..`, `len` of them.
pub open spec fn pattern(len: nat) -> Seq<u8> {
    Seq::new(len, |i: int| (i % 256) as u8)
}

/// A buffer of `len` bytes whose byte at `i` is `i mod 256`.
pub fn pattern_buffer(len: usize) -> (data: Vec<u8>)
    ensures
        data@ == pattern(len as nat),
{
    let mut data: Vec<u8> = vec![0u8; len];
    for i in 0..len
        invariant
            data@.len() == len,
            forall|k: int| 0 <= k < i ==> #[trigger] data@[k] == (k % 256) as u8,
    {
        data.set(i, (i % 256) as u8);
    }
    data
}

} // verus!
