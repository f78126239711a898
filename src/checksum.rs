//! Ones-complement checksum arithmetic of the IPv4 header.
use vstd::prelude::*;

verus! {

/// Ones-complement reduction of a sum of 16-bit words to 16 bits: the
/// value modulo 0xffff, represented in 1..=0xffff when the sum is non-zero.
pub open spec fn fold16(x: nat) -> nat {
    if x == 0 {
        0
    } else {
        ((x - 1) as nat % 65535) + 1
    }
}

/// The checksum field for a header whose words, with the field zeroed,
/// sum to `x`: the complement of the folded sum.
pub open spec fn csum_of(x: nat) -> u16 {
    (65535 - fold16(x)) as u16
}

proof fn lemma_fold16_bound(x: nat)
    ensures
        fold16(x) <= 65535,
        x > 0 ==> fold16(x) > 0,
        x <= 65535 ==> fold16(x) == x,
{
}

/// One folding step, `low + high`, keeps the reduced value.
proof fn lemma_fold_step(x: u64)
    requires
        (x >> 16u64) > 0,
    ensures
        fold16(((x & 0xffffu64) + (x >> 16u64)) as nat) == fold16(x as nat),
{
    assert(x & 0xffffu64 == x % 65536) by (bit_vector);
    assert(x >> 16u64 == x / 65536) by (bit_vector);
    let a = (x / 65536) as int;
    let b = (x % 65536) as int;
    assert(x as int == 65536 * a + b) by (nonlinear_arith)
        requires
            a == x as int / 65536,
            b == x as int % 65536,
    ;
    let y = a + b;
    assert(y > 0);
    assert(x as int - 1 == (y - 1) + 65535 * a);
    assert((x as int - 1) % 65535 == (y - 1) % 65535) by (nonlinear_arith)
        requires
            x as int - 1 == (y - 1) + 65535 * a,
            y - 1 >= 0,
            a >= 0,
    {
        vstd::arithmetic::div_mod::lemma_mod_multiples_vanish(a, y - 1, 65535);
    }
}

/// Adding the checksum computed for a sum to that sum gives a sum that
/// folds to all ones.
pub proof fn lemma_fold_with_checksum(x: nat)
    ensures
        fold16((x + (65535 - fold16(x))) as nat) == 65535,
{
    if x > 0 {
        let m = ((x - 1) as nat % 65535) as int;
        let q = ((x - 1) as nat / 65535) as int;
        assert(x - 1 == q * 65535 + m) by (nonlinear_arith)
            requires
                m == (x - 1) % 65535,
                q == (x - 1) / 65535,
                x >= 1,
        ;
        let y = (x + 65534 - m) as int;
        assert(y == (q + 1) * 65535) by (nonlinear_arith)
            requires
                x - 1 == q * 65535 + m,
                y == x + 65534 - m,
        ;
        assert(q >= 0) by (nonlinear_arith)
            requires
                q == (x - 1) / 65535,
                x >= 1,
        ;
        assert((y - 1) % 65535 == 65534) by (nonlinear_arith)
            requires
                y == (q + 1) * 65535,
                q >= 0,
        {
            vstd::arithmetic::div_mod::lemma_fundamental_div_mod_converse(y - 1, 65535, q, 65534);
        }
    }
}

/// Folds a checksum accumulator into the 16-bit ones-complement checksum:
/// four rounds of `low + high`, then the complement of the low 16 bits.
/// Four rounds reduce any 64-bit accumulator fully.
pub fn csum_fold_helper(csum: u64) -> (r: u16)
    ensures
        r == csum_of(csum as nat),
        r as nat == 65535 - fold16(csum as nat),
{
    let ghost orig = csum;
    let mut csum = csum;
    let mut i: usize = 0;
    while i < 4
        invariant
            i <= 4,
            fold16(csum as nat) == fold16(orig as nat),
            i >= 1 ==> csum <= 0x1_0000_0000_fffeu64,
            i >= 2 ==> csum <= 0x1_0000_fffeu64,
            i >= 3 ==> csum <= 0x1fffeu64,
            i >= 4 ==> csum <= 0xffffu64,
        decreases 4 - i,
    {
        if (csum >> 16u64) > 0 {
            proof {
                lemma_fold_step(csum);
            }
            let c = csum;
            assert((c & 0xffffu64) + (c >> 16u64) <= 0x1_0000_0000_fffeu64) by (bit_vector);
            assert(c <= 0x1_0000_0000_fffeu64 ==> (c & 0xffffu64) + (c >> 16u64)
                <= 0x1_0000_fffeu64) by (bit_vector);
            assert(c <= 0x1_0000_fffeu64 ==> (c & 0xffffu64) + (c >> 16u64) <= 0x1fffeu64)
                by (bit_vector);
            assert(c <= 0x1fffeu64 ==> (c & 0xffffu64) + (c >> 16u64) <= 0xffffu64)
                by (bit_vector);
            csum = (csum & 0xffff) + (csum >> 16u64);
        } else {
            let c = csum;
            assert((c >> 16u64) == 0 ==> c <= 0xffffu64) by (bit_vector);
        }
        i = i + 1;
    }
    proof {
        lemma_fold16_bound(csum as nat);
        lemma_fold16_bound(orig as nat);
    }
    let low = csum as u16;
    assert(low == csum);
    let r = !low;
    assert(!low == 0xffffu16 - low) by (bit_vector);
    r
}

} // verus!
