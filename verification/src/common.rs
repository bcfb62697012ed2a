//! Small things that several parts of the kernel share.

use vstd::prelude::*;

verus! {

/// `len` bytes that are all zero.
pub open spec fn zeros(len: usize) -> Seq<u8> {
    Seq::new(len as nat, |i: int| 0u8)
}

/// A buffer of `len` bytes that are all zero.
pub fn zeroed(len: usize) -> (buffer: Vec<u8>)
    ensures
        buffer@ == zeros(len),
{
    let mut buffer: Vec<u8> = Vec::new();
    let mut i: usize = 0;
    while i < len
        invariant
            i <= len,
            buffer@ == zeros(i),
        decreases len - i,
    {
        buffer.push(0);
        i = i + 1;
        assert(buffer@ =~= zeros(i));
    }
    buffer
}

} // verus!
