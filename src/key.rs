use vstd::prelude::*;

verus! {

/// Whether two 32-byte identifiers are the same.
pub fn same_key(a: &[u8; 32], b: &[u8; 32]) -> (r: bool)
    ensures
        r == (a@ == b@),
{
    let mut i: usize = 0;
    while i < 32
        invariant
            0 <= i <= 32,
            a@.len() == 32,
            b@.len() == 32,
            forall|j: int| 0 <= j < i ==> a@[j] == b@[j],
        decreases 32 - i,
    {
        if a[i] != b[i] {
            return false;
        }
        i = i + 1;
    }
    assert(a@ =~= b@);
    true
}

/// Copies the 32 bytes of `data` from `start` into an identifier.
pub fn read_key(data: &[u8], start: usize) -> (r: [u8; 32])
    requires
        start + 32 <= data@.len(),
    ensures
        r@ == data@.subrange(start as int, start + 32),
{
    let len: usize = data.len();
    let mut k: [u8; 32] = [0u8; 32];
    let mut i: usize = 0;
    while i < 32
        invariant
            0 <= i <= 32,
            start + 32 <= data@.len(),
            data@.len() == len,
            k@.len() == 32,
            forall|j: int| 0 <= j < i ==> k@[j] == data@[start + j],
        decreases 32 - i,
    {
        k[i] = data[start + i];
        i = i + 1;
    }
    assert(k@ =~= data@.subrange(start as int, start + 32));
    k
}

/// Appends the 32 bytes of `k` to `out`.
pub fn push_key(out: &mut Vec<u8>, k: &[u8; 32])
    ensures
        final(out)@ == old(out)@ + k@,
{
    let mut i: usize = 0;
    while i < 32
        invariant
            0 <= i <= 32,
            k@.len() == 32,
            out@ == old(out)@ + k@.subrange(0, i as int),
        decreases 32 - i,
    {
        out.push(k[i]);
        i = i + 1;
        assert(out@ =~= old(out)@ + k@.subrange(0, i as int));
    }
    assert(k@.subrange(0, 32) =~= k@);
}

} // verus!
