//! What holds of the fixed-point operations for every precision and every value.
use vstd::prelude::*;
use vstd::arithmetic::div_mod::*;
use vstd::arithmetic::power2::*;
use vstd::std_specs::ops::{AddSpec, NegSpec, SubSpec};
use crate::fixedpoint::FP;
use crate::shift_lemmas::{scale, lemma_one_shl, lemma_shr_floor, lemma_low_mask};

verus! {

/// Two halves make one.
pub proof fn law_half_plus_half_is_one<const P: u8>()
    requires
        1 <= P <= 62,
    ensures
        FP::<P>::half_spec().0 + FP::<P>::half_spec().0 == FP::<P>::one_spec().0,
{
    lemma_one_shl((P - 1) as u8);
    lemma_one_shl(P);
    lemma_pow2_unfold(P as nat);
}

/// One and one make two.
pub proof fn law_one_plus_one_is_two<const P: u8>()
    requires
        P <= 61,
    ensures
        FP::<P>::one_spec().0 + FP::<P>::one_spec().0 == FP::<P>::two_spec().0,
{
    lemma_one_shl(P);
    lemma_one_shl((P + 1) as u8);
    lemma_pow2_unfold((P + 1) as nat);
}

/// Two and two make four.
pub proof fn law_two_plus_two_is_four<const P: u8>()
    requires
        P <= 60,
    ensures
        FP::<P>::two_spec().0 + FP::<P>::two_spec().0 == FP::<P>::four_spec().0,
{
    lemma_one_shl((P + 1) as u8);
    lemma_one_shl((P + 2) as u8);
    lemma_pow2_unfold((P + 2) as nat);
}

/// A number is its truncation plus its fraction; the fraction lies in `[0, 1)`
/// and the truncation is a whole number.
pub proof fn law_trunc_plus_fract<const P: u8>(x: FP<P>)
    requires
        P < 63,
    ensures
        x.trunc_spec().0 + x.fract_spec().0 == x.0,
        0 <= x.fract_spec().0 < FP::<P>::one_spec().0,
        x.trunc_spec().num() % scale(P) == 0,
{
    lemma_low_mask(x.0, P);
    lemma_one_shl(P);
    lemma_pow2_pos(P as nat);
    lemma_mod_bound(x.0 as int, scale(P));
    lemma_fundamental_div_mod(x.0 as int, scale(P));
    let q = x.0 as int / scale(P);
    assert(x.trunc_spec().num() == scale(P) * q);
    lemma_mod_multiples_basic(q, scale(P));
    assert(q * scale(P) == scale(P) * q) by (nonlinear_arith);
}

/// The integer part times one, plus the fraction, is the number.
pub proof fn law_int_part_and_fract<const P: u8>(x: FP<P>)
    requires
        P < 63,
    ensures
        (x.0 >> P) * scale(P) + x.fract_spec().0 == x.0,
        (x.0 >> P) * scale(P) == x.trunc_spec().0,
{
    lemma_low_mask(x.0, P);
    lemma_shr_floor(x.0, P);
    lemma_pow2_pos(P as nat);
    lemma_fundamental_div_mod(x.0 as int, scale(P));
    assert((x.0 >> P) * scale(P) == scale(P) * (x.0 as int / scale(P))) by (nonlinear_arith)
        requires (x.0 >> P) as int == x.0 as int / scale(P);
}

/// A whole number made from an integer gives that integer back, and has no fraction.
pub proof fn law_int_part_of_from_i64<const P: u8>(n: i64)
    requires
        P < 63,
        i64::MIN <= n * scale(P) <= i64::MAX,
    ensures
        (n << P) >> P == n,
        FP::<P>(n << P).fract_spec().0 == 0,
{
    crate::fixedpoint::lemma_shl_is_mul(n, P);
    let v: i64 = n << P;
    lemma_shr_floor(v, P);
    lemma_pow2_pos(P as nat);
    lemma_div_multiples_vanish(n as int, scale(P));
    assert(v as int == scale(P) * n) by (nonlinear_arith)
        requires v as int == n as int * scale(P);
    lemma_low_mask(v, P);
    lemma_mod_multiples_basic(n as int, scale(P));
}

/// The integer part never decreases as the number grows.
pub proof fn law_int_part_monotone<const P: u8>(a: FP<P>, b: FP<P>)
    requires
        P < 64,
        a.0 <= b.0,
    ensures
        a.0 >> P <= b.0 >> P,
{
    lemma_shr_floor(a.0, P);
    lemma_shr_floor(b.0, P);
    lemma_pow2_pos(P as nat);
    lemma_div_is_ordered(a.0 as int, b.0 as int, scale(P));
}

/// Negating twice gives the number back, and a number and its negation have
/// the same absolute value.
pub proof fn law_neg_neg<const P: u8>(x: FP<P>)
    requires
        x.0 != i64::MIN,
    ensures
        x.neg_spec().neg_req(),
        x.neg_spec().neg_spec() == x,
        x.neg_spec().abs_spec() == x.abs_spec(),
{
}

/// The tolerances grow from the first to the fourth.
pub proof fn law_biases_ordered<const P: u8>()
    requires
        P < 63,
    ensures
        0 <= scale(P) / 1_000_000 <= scale(P) / 100_000 <= scale(P) / 10_000 <= scale(P) / 1_000,
{
    lemma_pow2_pos(P as nat);
    lemma_div_is_ordered_by_denominator(scale(P), 100_000, 1_000_000);
    lemma_div_is_ordered_by_denominator(scale(P), 10_000, 100_000);
    lemma_div_is_ordered_by_denominator(scale(P), 1_000, 10_000);
    lemma_div_pos_is_pos(scale(P), 1_000_000);
}

/// Of two numbers, the smaller is at most the larger, and together they are
/// the two numbers.
pub proof fn law_min_max<const P: u8>(a: FP<P>, b: FP<P>)
    ensures
        a.min_spec(b).0 <= a.max_spec(b).0,
        a.min_spec(b).0 + a.max_spec(b).0 == a.0 + b.0,
        a.min_spec(b) == b.min_spec(a),
        a.max_spec(b) == b.max_spec(a),
{
}

/// Zero, one half, one, two and four come in that order.
pub proof fn law_constants_ordered<const P: u8>()
    requires
        1 <= P <= 60,
    ensures
        0 < FP::<P>::half_spec().0 < FP::<P>::one_spec().0 < FP::<P>::two_spec().0 < FP::<P>::four_spec().0,
{
    law_half_plus_half_is_one::<P>();
    law_one_plus_one_is_two::<P>();
    law_two_plus_two_is_four::<P>();
    lemma_one_shl((P - 1) as u8);
    lemma_pow2_pos((P - 1) as nat);
}

/// Subtraction undoes addition and is addition of the negation: `(a - b) + b`
/// is `a`, `a - b` is `-(b - a)`, and the raw value of `a - b` is the signed
/// difference of the raw values.
pub proof fn law_sub_undoes_add<const P: u8>(a: FP<P>, b: FP<P>)
    requires
        a.sub_req(b),
        b.sub_req(a),
    ensures
        a.sub_spec(b).num() == a.num() - b.num(),
        a.sub_spec(b).add_req(b),
        a.sub_spec(b).add_spec(b) == a,
        b.sub_spec(a).neg_req(),
        a.sub_spec(b) == b.sub_spec(a).neg_spec(),
        a.num() < b.num() ==> a.sub_spec(b).num() < 0,
{
}

/// Addition is the sum of the values, and order does not matter.
pub proof fn law_add_is_sum<const P: u8>(a: FP<P>, b: FP<P>)
    requires
        a.add_req(b),
    ensures
        a.add_spec(b).num() == a.num() + b.num(),
        b.add_req(a),
        a.add_spec(b) == b.add_spec(a),
{
}

} // verus!
