use rustray::fixedpoint::FP as FPG;

type FP = FPG<32>;

/// Division as the number type does it: through `f64`.
fn div(a: FP, b: FP) -> FP {
    let s = FP::scaling() as f64;
    FPG::<32>((((a.0 as f64) / s) / ((b.0 as f64) / s) * s) as i64)
}

#[test]
fn mask() {
    type FP8 = FPG<8>;
    assert_eq!(FP8::mask(), 255);
    assert_eq!(FP8::scaling(), 0x100);
}

#[test]
fn zero() {
    let zero = FP::zero();
    assert_eq!(zero.0, 0);
}

#[test]
fn add() {
    assert_eq!(FP::half() + FP::half(), FP::one());
    assert_eq!(FP::one() + FP::one(), FP::two());
    assert_eq!(FP::two() + FP::two(), FP::four());
}

#[test]
fn int_part() {
    assert_eq!(FP::zero().int_part(), 0);
    assert_eq!(FP::one().int_part(), 1);
    assert_eq!(FP::two().int_part(), 2);
    assert_eq!(FP::four().int_part(), 4);
    assert_eq!(FP::from_u32(1337).int_part(), 1337);
}

#[test]
fn fract() {
    assert_eq!(FP::zero().fract(), FP::zero());
    assert_eq!(FP::one().fract(), FP::zero());
    assert_eq!(FP::two().fract(), FP::zero());
    assert_eq!(div(FP::one(), FP::two()), FP::half());
    assert_eq!(div(FP::from_u32(9), FP::four()).fract(), div(FP::half(), FP::two()));
}

#[test]
fn abs() {
    let one = FP::one();
    assert_eq!(one.abs(), FP::one());

    let negone = -FP::one();
    assert_eq!(negone.abs(), FP::one());

    let negtwo = -FP::two();
    assert_eq!(negtwo.abs(), FP::two());
}

#[test]
fn ord() {
    assert!(FP::zero() < FP::half());
    assert!(FP::half() < FP::one());
    assert!(FP::one() < FP::two());
    assert!(FP::two() < FP::four());

    assert!(FP::bias() <= FP::bias2());
    assert!(FP::bias2() <= FP::bias3());
    assert!(FP::bias3() <= FP::bias4());
}

#[test]
fn neg() {
    assert_eq!((-FP::zero()).int_part(), 0);
    assert_eq!((-FP::one()).int_part(), -1);
    assert_eq!((-(-FP::one())).int_part(), 1);
}

#[test]
fn min() {
    assert_eq!(FP::one().min(FP::two()), FP::one());
    assert_eq!(FP::two().min(FP::one()), FP::one());
}

#[test]
fn max() {
    assert_eq!(FP::one().max(FP::two()), FP::two());
    assert_eq!(FP::two().max(FP::one()), FP::two());
}

#[test]
fn atan2() {}

#[test]
fn fixed_trunc_plus_fract_is_whole() {
    let x = FPG::<32>(-(3i64 << 31)); // -1.5
    assert_eq!(x.trunc(), FP::from_i64(-2));
    assert_eq!(x.fract(), FP::half());
    assert_eq!(x.trunc() + x.fract(), x);
    assert_eq!(x.int_part(), -2);
}

#[test]
fn fixed_int_part_rounds_down() {
    assert_eq!(FPG::<32>(1).int_part(), 0);
    assert_eq!(FPG::<32>(-1).int_part(), -1);
    assert_eq!(FP::from_i64(-7).int_part(), -7);
    assert_eq!(FP::from_i64(-7).fract(), FP::zero());
}

#[test]
fn fixed_integer_conversions() {
    assert_eq!(FP::from_i32(-3).0, -3i64 << 32);
    assert_eq!(FP::from_usize(5).0, 5i64 << 32);
    assert_eq!(FP::from_i64(1i64 << 40).0, 0);
    assert_eq!(FPG::<32>(-1).to_i64(), Some(-1));
    assert_eq!(FPG::<32>(-1).to_u64(), None);
    assert_eq!(FP::from_u32(7).to_u64(), Some(7));
}

#[test]
fn fixed_constants() {
    assert_eq!(FP::one().0, 1i64 << 32);
    assert_eq!(FP::half().0, 1i64 << 31);
    assert_eq!(FP::two().0, 1i64 << 33);
    assert_eq!(FP::four().0, 1i64 << 34);
    assert_eq!(FP::bias().0, 4294);
    assert_eq!(FP::bias2().0, 42949);
    assert_eq!(FP::bias3().0, 429496);
    assert_eq!(FP::bias4().0, 4294967);
    assert_eq!(FP::max_value().0, i64::MAX);
    assert_eq!(FP::default(), FP::zero());
    assert!(FP::zero().is_zero());
    assert!(FP::one().non_zero());
}

#[test]
fn fixed_clamp_and_assign() {
    assert_eq!(FP::four().clamp(FP::zero(), FP::two()), FP::two());
    assert_eq!((-FP::four()).clamp(FP::zero(), FP::two()), FP::zero());
    assert_eq!(FP::one().clamp(FP::zero(), FP::two()), FP::one());
    let mut x = FP::one();
    x += FP::two();
    assert_eq!(x.int_part(), 3);
    x -= FP::four();
    assert_eq!(x, -FP::one());
    assert_eq!(FP::four() - FP::one() - FP::one(), FP::two());
}

#[test]
fn fixed_other_precision() {
    type FP8 = FPG<8>;
    assert_eq!(FP8::one().0, 256);
    assert_eq!(FPG::<8>(0x1_80).trunc().0, 0x100);
    assert_eq!(FPG::<8>(0x1_80).fract().0, 0x80);
    assert_eq!(FPG::<8>(-0x1_80).fract().0, 0x80);
}

#[test]
fn fixed_biases_at_full_precision() {
    type FP63 = FPG<63>;
    assert_eq!(FP63::bias().0, -9_223_372_036_854);
    assert_eq!(FP63::bias4().0, -9_223_372_036_854_775);
}
