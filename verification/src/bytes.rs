use vstd::prelude::*;
use vstd::utf8::encode_utf8;

verus! {

/// Appends every byte of `bytes` to `out`, in order.
pub fn append_bytes(out: &mut Vec<u8>, bytes: &[u8])
    ensures
        final(out)@ == old(out)@ + bytes@,
{
    let n = bytes.len();
    let mut i: usize = 0;
    while i < n
        invariant
            n == bytes@.len(),
            i <= n,
            out@ == old(out)@ + bytes@.subrange(0, i as int),
        decreases n - i,
    {
        out.push(bytes[i]);
        i = i + 1;
        assert(bytes@.subrange(0, i as int) == bytes@.subrange(0, (i - 1) as int).push(bytes@[i - 1]));
    }
    assert(bytes@.subrange(0, n as int) == bytes@);
}

/// Appends the UTF-8 encoding of `s` to `out`.
pub fn append_str(out: &mut Vec<u8>, s: &str)
    ensures
        final(out)@ == old(out)@ + encode_utf8(s@),
{
    append_bytes(out, s.as_bytes());
}

} // verus!
