//! Copying byte ranges into a growing buffer.

use vstd::prelude::*;

verus! {

/// Appends the bytes `source[from..to]` to `out`.
pub fn append_range(out: &mut Vec<u8>, source: &[u8], from: usize, to: usize)
    requires
        from <= to <= source@.len(),
    ensures
        final(out)@ == old(out)@ + source@.subrange(from as int, to as int),
{
    let ghost before = out@;
    let mut i: usize = from;
    assert(out@ =~= before + source@.subrange(from as int, i as int));
    while i < to
        invariant
            from <= i <= to <= source@.len(),
            out@ == before + source@.subrange(from as int, i as int),
        decreases to - i,
    {
        out.push(source[i]);
        assert(out@ =~= before + source@.subrange(from as int, i + 1));
        i += 1;
    }
}

} // verus!
