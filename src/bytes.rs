use vstd::prelude::*;

verus! {

/// Copies `s[lo..hi]` into a new vector.
pub(crate) fn copy_range(s: &[u8], lo: usize, hi: usize) -> (r: Vec<u8>)
    requires
        lo <= hi <= s@.len(),
    ensures
        r@ == s@.subrange(lo as int, hi as int),
{
    let mut r: Vec<u8> = Vec::new();
    let mut i: usize = lo;
    while i < hi
        invariant
            lo <= i <= hi <= s@.len(),
            r@ == s@.subrange(lo as int, i as int),
        decreases hi - i,
    {
        r.push(s[i]);
        proof {
            assert(s@.subrange(lo as int, i + 1) == s@.subrange(lo as int, i as int).push(s@[i as int]));
        }
        i = i + 1;
    }
    r
}

/// Appends all of `s` to `v`.
pub(crate) fn push_all(v: &mut Vec<u8>, s: &[u8])
    ensures
        final(v)@ == old(v)@ + s@,
{
    let mut i: usize = 0;
    while i < s.len()
        invariant
            i <= s@.len(),
            v@ == old(v)@ + s@.subrange(0, i as int),
        decreases s@.len() - i,
    {
        v.push(s[i]);
        proof {
            assert(s@.subrange(0, i + 1) == s@.subrange(0, i as int).push(s@[i as int]));
        }
        i = i + 1;
    }
    proof {
        assert(s@.subrange(0, s@.len() as int) == s@);
    }
}

} // verus!
