use vstd::prelude::*;

verus! {

/// The unsigned integer that the bytes `d` spell, most significant first.
pub open spec fn be_uint(d: Seq<u8>) -> nat
    decreases d.len(),
{
    if d.len() == 0 {
        0
    } else {
        (be_uint(d.drop_last()) * 256 + d.last()) as nat
    }
}

/// `256` raised to the power `n`.
pub open spec fn pow256(n: nat) -> nat
    decreases n,
{
    if n == 0 {
        1
    } else {
        256 * pow256((n - 1) as nat)
    }
}

proof fn lemma_be_uint_bound(d: Seq<u8>)
    ensures
        be_uint(d) < pow256(d.len()),
    decreases d.len(),
{
    if d.len() > 0 {
        lemma_be_uint_bound(d.drop_last());
        let x = be_uint(d.drop_last());
        let p = pow256(d.drop_last().len());
        assert(x * 256 + d.last() < p * 256) by (nonlinear_arith)
            requires
                x < p,
                d.last() < 256,
        ;
    }
}

/// The 128-bit identifier that the 16 bytes `d` hold, most significant first;
/// the nil identifier is zero.
pub fn uuid_from_bytes(d: &[u8]) -> (r: u128)
    requires
        d@.len() == 16,
    ensures
        r == be_uint(d@),
{
    let mut acc: u128 = 0;
    let mut i: usize = 0;
    proof {
        reveal_with_fuel(pow256, 17);
        assert(pow256(16) == 0x1_0000_0000_0000_0000_0000_0000_0000_0000);
        assert(d@.take(0) =~= Seq::<u8>::empty());
    }
    while i < 16
        invariant
            d@.len() == 16,
            i <= 16,
            acc == be_uint(d@.take(i as int)),
            pow256(16) == 0x1_0000_0000_0000_0000_0000_0000_0000_0000,
        decreases 16 - i,
    {
        proof {
            lemma_be_uint_bound(d@.take(i as int));
            lemma_pow256_monotonic(i as nat, 15);
            assert(d@.take(i + 1).drop_last() =~= d@.take(i as int));
            assert(acc * 256 + 255 < pow256(16)) by (nonlinear_arith)
                requires
                    acc < pow256(i as nat),
                    pow256(i as nat) <= pow256(15),
                    pow256(16) == 256 * pow256(15),
            ;
        }
        acc = acc * 256 + d[i] as u128;
        i = i + 1;
    }
    assert(d@.take(16) =~= d@);
    acc
}

proof fn lemma_pow256_monotonic(a: nat, b: nat)
    requires
        a <= b,
    ensures
        pow256(a) <= pow256(b),
    decreases b - a,
{
    if a < b {
        lemma_pow256_monotonic(a, (b - 1) as nat);
    }
}

} // verus!
