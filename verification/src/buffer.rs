//! Copying bytes between buffers.

use vstd::prelude::*;

verus! {

/// Copies `N` bytes of `input`, from `start` on.
pub fn read_array<const N: usize>(input: &[u8], start: usize) -> (r: [u8; N])
    requires
        start + N <= input@.len(),
    ensures
        r@ == input@.subrange(start as int, start + N),
{
    let mut out: [u8; N] = [0u8; N];
    let len: usize = input.len();
    let mut i: usize = 0;
    while i < N
        invariant
            len == input@.len(),
            start + N <= input@.len(),
            i <= N,
            forall|j: int| 0 <= j < i ==> out@[j] == input@[start + j],
        decreases N - i,
    {
        out[i] = input[start + i];
        i += 1;
    }
    proof {
        assert(out@ =~= input@.subrange(start as int, start + N));
    }
    out
}

/// Writes `bytes` into `dst`, from `start` on.
pub fn write_bytes(dst: &mut Vec<u8>, start: usize, bytes: &[u8])
    requires
        start + bytes@.len() <= old(dst)@.len(),
    ensures
        final(dst)@ == old(dst)@.subrange(0, start as int) + bytes@ + old(dst)@.subrange(
            start + bytes@.len(),
            old(dst)@.len() as int,
        ),
{
    let len: usize = dst.len();
    let mut i: usize = 0;
    while i < bytes.len()
        invariant
            len == old(dst)@.len(),
            start + bytes@.len() <= old(dst)@.len(),
            i <= bytes@.len(),
            dst@.len() == old(dst)@.len(),
            forall|j: int| 0 <= j < i ==> dst@[start + j] == bytes@[j],
            forall|j: int|
                0 <= j < dst@.len() && !(start <= j < start + i) ==> dst@[j] == old(dst)@[j],
        decreases bytes@.len() - i,
    {
        dst.set(start + i, bytes[i]);
        i += 1;
    }
    proof {
        assert(dst@ =~= old(dst)@.subrange(0, start as int) + bytes@ + old(dst)@.subrange(
            start + bytes@.len(),
            old(dst)@.len() as int,
        ));
    }
}

/// Copies the bytes of `input` from `start` up to `end`.
pub fn copy_range(input: &[u8], start: usize, end: usize) -> (r: Vec<u8>)
    requires
        start <= end <= input@.len(),
    ensures
        r@ == input@.subrange(start as int, end as int),
{
    let mut out: Vec<u8> = Vec::new();
    let mut i: usize = start;
    while i < end
        invariant
            start <= i <= end <= input@.len(),
            out@ == input@.subrange(start as int, i as int),
        decreases end - i,
    {
        out.push(input[i]);
        proof {
            assert(input@.subrange(start as int, i + 1) =~= input@.subrange(
                start as int,
                i as int,
            ).push(input@[i as int]));
        }
        i += 1;
    }
    out
}

/// Appends `bytes` to `out`.
pub fn append_bytes(out: &mut Vec<u8>, bytes: &[u8])
    ensures
        final(out)@ == old(out)@ + bytes@,
{
    let mut i: usize = 0;
    while i < bytes.len()
        invariant
            i <= bytes@.len(),
            out@ == old(out)@ + bytes@.subrange(0, i as int),
        decreases bytes@.len() - i,
    {
        out.push(bytes[i]);
        proof {
            assert(bytes@.subrange(0, i + 1) =~= bytes@.subrange(0, i as int).push(bytes@[i as int]));
        }
        i += 1;
    }
    proof {
        assert(bytes@.subrange(0, i as int) =~= bytes@);
    }
}

} // verus!
