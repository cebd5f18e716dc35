//! Copying runs of bytes.
//!
//! Loading the font, loading a program and moving registers to and from
//! memory are all the same operation: a run of bytes is written over part of
//! a longer one.

use vstd::prelude::*;

verus! {

/// `bytes` written over `memory` from position `at` on; the rest of `memory`
/// is kept.
pub open spec fn overwrite(memory: Seq<u8>, at: int, bytes: Seq<u8>) -> Seq<u8> {
    Seq::new(
        memory.len(),
        |a: int|
            if at <= a < at + bytes.len() {
                bytes[a - at]
            } else {
                memory[a]
            },
    )
}

/// Copies `count` bytes of `source`, starting at `from`, over `target`,
/// starting at `at`.
pub fn copy_bytes<const N: usize>(
    target: &mut [u8; N],
    at: usize,
    source: &[u8],
    from: usize,
    count: usize,
)
    requires
        at + count <= N,
        from + count <= source.len(),
    ensures
        final(target)@ == overwrite(
            old(target)@,
            at as int,
            source@.subrange(from as int, from + count),
        ),
    no_unwind
{
    let mut i: usize = 0;
    while i < count
        invariant
            i <= count,
            at + count <= N,
            from + count <= source.len(),
            target@ == overwrite(old(target)@, at as int, source@.subrange(from as int, from + i)),
        decreases count - i,
    {
        target[at + i] = source[from + i];
        assert(target@ =~= overwrite(
            old(target)@,
            at as int,
            source@.subrange(from as int, from + i + 1),
        ));
        i = i + 1;
    }
}

} // verus!
