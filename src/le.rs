use vstd::prelude::*;

verus! {

/// The unsigned value of `s` read as little-endian bytes.
pub open spec fn le_value(s: Seq<u8>) -> nat
    decreases s.len(),
{
    if s.len() == 0 {
        0
    } else {
        s[0] as nat + 256 * le_value(s.drop_first())
    }
}

/// The `n` low-order little-endian bytes of `x`.
pub open spec fn le_bytes(x: nat, n: nat) -> Seq<u8>
    decreases n,
{
    if n == 0 {
        Seq::empty()
    } else {
        seq![(x % 256) as u8] + le_bytes(x / 256, (n - 1) as nat)
    }
}

pub open spec fn pow256(n: nat) -> nat
    decreases n,
{
    if n == 0 {
        1
    } else {
        256 * pow256((n - 1) as nat)
    }
}

pub proof fn lemma_le_bytes_len(x: nat, n: nat)
    ensures
        le_bytes(x, n).len() == n,
    decreases n,
{
    if n > 0 {
        lemma_le_bytes_len(x / 256, (n - 1) as nat);
    }
}

/// Reading back the bytes of a value that fits in `n` bytes gives the value.
pub proof fn lemma_le_value_of_bytes(x: nat, n: nat)
    requires
        x < pow256(n),
    ensures
        le_value(le_bytes(x, n)) == x,
    decreases n,
{
    if n > 0 {
        let rest = le_bytes(x / 256, (n - 1) as nat);
        assert(x / 256 < pow256((n - 1) as nat)) by (nonlinear_arith)
            requires
                x < 256 * pow256((n - 1) as nat),
        ;
        lemma_le_value_of_bytes(x / 256, (n - 1) as nat);
        assert(le_bytes(x, n).drop_first() =~= rest);
    }
}

/// A byte sequence is the encoding of the value it reads as.
pub proof fn lemma_le_bytes_of_value(s: Seq<u8>)
    ensures
        le_bytes(le_value(s), s.len()) == s,
    decreases s.len(),
{
    if s.len() > 0 {
        let t = s.drop_first();
        lemma_le_bytes_of_value(t);
        let v = le_value(s);
        assert(v % 256 == s[0] as nat && v / 256 == le_value(t)) by (nonlinear_arith)
            requires
                v == s[0] as nat + 256 * le_value(t),
                s[0] < 256,
        ;
        assert(le_bytes(v, s.len()) =~= s);
    }
}

/// Every `n` bytes read as a value under `256^n`.
pub proof fn lemma_le_value_bound(s: Seq<u8>)
    ensures
        le_value(s) < pow256(s.len()),
    decreases s.len(),
{
    if s.len() > 0 {
        let t = s.drop_first();
        lemma_le_value_bound(t);
        let p = pow256(t.len());
        let w = le_value(t);
        assert(s[0] as nat + 256 * w < 256 * p) by (nonlinear_arith)
            requires
                w < p,
                s[0] < 256,
        ;
    }
}

pub proof fn lemma_pow256_16()
    ensures
        pow256(16) == u128::MAX + 1,
{
    reveal_with_fuel(pow256, 17);
}

/// Reads the 16 bytes of `data` from `start` as a little-endian `u128`.
pub fn read_u128_le(data: &[u8], start: usize) -> (r: u128)
    requires
        start + 16 <= data@.len(),
    ensures
        r == le_value(data@.subrange(start as int, start + 16)),
{
    let ghost s = data@.subrange(start as int, start + 16);
    let len: usize = data.len();
    let mut acc: u128 = 0;
    let mut i: usize = 16;
    proof {
        lemma_pow256_16();
    }
    while i > 0
        invariant
            0 <= i <= 16,
            start + 16 <= data@.len(),
            start + 16 <= usize::MAX,
            s == data@.subrange(start as int, start + 16),
            pow256(16) == u128::MAX + 1,
            acc == le_value(s.subrange(i as int, 16)),
        decreases i,
    {
        let ghost tail = s.subrange(i as int, 16);
        i = i - 1;
        let b: u8 = data[start + i];
        let ghost next = s.subrange(i as int, 16);
        assert(next.drop_first() =~= tail);
        proof {
            lemma_le_value_bound(next);
            lemma_pow256_mono(next.len(), 16);
        }
        assert(acc * 256 + b <= u128::MAX) by (nonlinear_arith)
            requires
                b as nat + 256 * acc < pow256(next.len()),
                pow256(next.len()) <= u128::MAX + 1,
        ;
        acc = acc * 256 + b as u128;
    }
    assert(s.subrange(0, 16) =~= s);
    acc
}

pub proof fn lemma_pow256_mono(m: nat, n: nat)
    requires
        m <= n,
    ensures
        pow256(m) <= pow256(n),
    decreases n,
{
    if m < n {
        lemma_pow256_mono(m, (n - 1) as nat);
    }
}

/// Appends the 16 little-endian bytes of `x` to `out`.
pub fn push_u128_le(out: &mut Vec<u8>, x: u128)
    ensures
        final(out)@ == old(out)@ + le_bytes(x as nat, 16),
{
    let mut rest: u128 = x;
    let mut i: usize = 0;
    while i < 16
        invariant
            0 <= i <= 16,
            out@ + le_bytes(rest as nat, (16 - i) as nat) == old(out)@ + le_bytes(x as nat, 16),
        decreases 16 - i,
    {
        let ghost before = out@;
        let ghost tail = le_bytes(rest as nat, (16 - i) as nat);
        let b: u8 = (rest % 256) as u8;
        assert(tail == seq![b] + le_bytes((rest / 256) as nat, (16 - i - 1) as nat));
        out.push(b);
        rest = rest / 256;
        i = i + 1;
        assert(out@ + le_bytes(rest as nat, (16 - i) as nat) =~= before + tail);
    }
    assert(le_bytes(rest as nat, 0) =~= Seq::<u8>::empty());
    assert(out@ + le_bytes(rest as nat, 0) =~= out@);
}

} // verus!
