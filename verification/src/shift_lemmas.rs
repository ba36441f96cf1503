//! Facts that tie the shifts and masks on `i64` used by the fixed-point type
//! to division and remainder by powers of two.
use vstd::prelude::*;
use vstd::arithmetic::div_mod::*;
use vstd::arithmetic::power2::*;
use vstd::bits::*;

verus! {

/// `1 << p` is `2^p` while it stays positive.
pub proof fn lemma_one_shl(p: u8)
    requires
        p < 63,
    ensures
        (1i64 << p) as int == scale(p),
        pow2(p as nat) <= 0x4000_0000_0000_0000,
{
    let q = p as u64;
    assert((1i64 << p) as u64 == 1u64 << q && (1i64 << p) >= 0) by (bit_vector)
        requires
            p < 63,
            q == p as u64,
    ;
    lemma_u64_pow2_no_overflow(p as nat);
    lemma2_to64_rest();
    if p < 62 {
        lemma_pow2_strictly_increases(p as nat, 62);
    }
    lemma_u64_shl_is_mul(1u64, q);
}

/// Arithmetic shift right by `p` is floor division by `2^p`.
pub proof fn lemma_shr_floor(x: i64, p: u8)
    requires
        p < 64,
    ensures
        (x >> p) as int == (x as int) / scale(p),
{
    let q = p as u64;
    lemma_pow2_pos(p as nat);
    if x >= 0 {
        let ux = x as u64;
        assert((x >> p) as u64 == ux >> q && (x >> p) >= 0) by (bit_vector)
            requires
                x >= 0,
                p < 64,
                q == p as u64,
                ux == x as u64,
        ;
        lemma_u64_shr_is_div(ux, q);
    } else {
        let y: i64 = !x;
        let uy = y as u64;
        assert(y >= 0 && y as int == -(x as int) - 1) by (bit_vector)
            requires
                x < 0,
                y == !x,
        ;
        assert((x >> p) == !((uy >> q) as i64) && (uy >> q) <= 0x7fff_ffff_ffff_ffff) by (bit_vector)
            requires
                x < 0,
                p < 64,
                q == p as u64,
                y == !x,
                uy == y as u64,
        ;
        lemma_u64_shr_is_div(uy, q);
        let d = pow2(p as nat) as int;
        let s = (uy >> q) as i64;
        assert(!s == -(s as int) - 1) by (bit_vector);
        let qq = (y as int) / d;
        let r = (y as int) % d;
        lemma_fundamental_div_mod(y as int, d);
        lemma_mod_bound(y as int, d);
        // x = -(qq + 1) * d + (d - r - 1) with 0 <= d - r - 1 < d
        assert(x as int == (-(qq + 1)) * d + (d - r - 1)) by (nonlinear_arith)
            requires
                y as int == d * qq + r,
                y as int == -(x as int) - 1,
        ;
        lemma_fundamental_div_mod_converse(x as int, d, -(qq + 1), d - r - 1);
    }
}

/// `2^p` as an integer.
pub open spec fn scale(p: u8) -> int {
    pow2(p as nat) as int
}

/// The `i64` whose low `p` bits are set.
pub open spec fn low_mask(p: u8) -> i64 {
    ((1i64 << p) - 1) as i64
}

/// Masking with the low `p` bits is the (non-negative) remainder modulo `2^p`,
/// and clearing them leaves the rest.
pub proof fn lemma_low_mask(x: i64, p: u8)
    requires
        p < 63,
    ensures
        (x & low_mask(p)) as int == (x as int) % scale(p),
        (x & !low_mask(p)) as int == (x as int) - (x as int) % scale(p),
        (x & !low_mask(p)) + (x & low_mask(p)) == x,
{
    lemma_one_shl(p);
    let m: i64 = low_mask(p);
    let um = m as u64;
    let ux = x as u64;
    let q = p as u64;
    assert((x & m) as u64 == ux & um && (x & m) >= 0 && um == (1u64 << q) - 1) by (bit_vector)
        requires
            p < 63,
            q == p as u64,
            m == ((1i64 << p) - 1) as i64,
            um == m as u64,
            ux == x as u64,
    ;
    assert((x & !m) + (x & m) == x) by (bit_vector);
    lemma_u64_pow2_no_overflow(p as nat);
    lemma_u64_shl_is_mul(1u64, q);
    assert(low_bits_mask(p as nat) == um as nat);
    lemma_u64_low_bits_mask_is_mod(ux, p as nat);
    let d = pow2(p as nat) as int;
    lemma_pow2_pos(p as nat);
    // (x as u64) differs from x by a multiple of 2^64, which is a multiple of d
    if x < 0 {
        let k: nat = (64 - p) as nat;
        lemma_pow2_adds(p as nat, k);
        assert(p as nat + k == 64);
        lemma2_to64_rest();
        assert(ux as int == x as int + pow2(64)) by {
            assert(ux as int == x as int + 0x1_0000_0000_0000_0000) by (bit_vector)
                requires x < 0, ux == x as u64;
        }
        let e = pow2(k) as int;
        assert(pow2(64) == d * e);
        lemma_mod_multiples_vanish(e, x as int, d);
        assert(d * e + x as int == ux as int);
    }
}

} // verus!
