//! Tests for the numeric formats: fixed-point conversion and rounding,
//! masked-float bit windows, posit conversion, and the exact rational.

use fractal_farlands::fixedpoint::{FixedPoint, I11F5, I13F3, I15F1};
use fractal_farlands::masked::MaskedFloat;
use fractal_farlands::number::{FractalNumber, FromRational, MandelbrotNumber};
use fractal_farlands::posit::{P16, P32, P8};
use fractal_farlands::rational::Rational;
use num::ToPrimitive;

fn fixed_bits<const W: u32, const F: u32>(v: FixedPoint<W, F>) -> i32 {
    v.to_bits()
}

#[test]
fn it_works() {
}

#[test]
fn test_fixed_i16f3() {
    type T = I13F3;

    let x0: T = T::zero();
    assert_eq!(fixed_bits(x0), fixed::types::I13F3::unwrapped_from_num(0).to_bits() as i32);
    let x4: T = T::four();
    assert_eq!(fixed_bits(x4), fixed::types::I13F3::unwrapped_from_num(4).to_bits() as i32);

    let x1p5: T = T::from_bigrational(&Rational::new(3, 2)).unwrap();
    assert_eq!(fixed_bits(x1p5), fixed::types::I13F3::unwrapped_from_num(1.5).to_bits() as i32);

    let x11eigths: T = T::from_bigrational(&Rational::new(11, 8)).unwrap();
    assert_eq!(
        fixed_bits(x11eigths),
        fixed::types::I13F3::unwrapped_from_num(1.375).to_bits() as i32
    );

    let neg11eigths: T = T::from_bigrational(&Rational::new(-11, 8)).unwrap();
    assert_eq!(
        fixed_bits(neg11eigths),
        fixed::types::I13F3::unwrapped_from_num(-1.375).to_bits() as i32
    );
}

#[test]
fn number_test_fixed_i16f3() {
    type T = I13F3;

    let x0: T = T::from_i32(0);
    assert_eq!(fixed_bits(x0), fixed::types::I13F3::unwrapped_from_num(0).to_bits() as i32);
    let x4: T = T::from_i32(4);
    assert_eq!(fixed_bits(x4), fixed::types::I13F3::unwrapped_from_num(4).to_bits() as i32);

    let x1p5: T = T::from_bigrational(&Rational::new(3, 2)).unwrap();
    assert_eq!(fixed_bits(x1p5), fixed::types::I13F3::unwrapped_from_num(1.5).to_bits() as i32);

    let x11eigths: T = T::from_bigrational(&Rational::new(11, 8)).unwrap();
    assert_eq!(
        fixed_bits(x11eigths),
        fixed::types::I13F3::unwrapped_from_num(1.375).to_bits() as i32
    );

    let neg11eigths: T = T::from_bigrational(&Rational::new(-11, 8)).unwrap();
    assert_eq!(
        fixed_bits(neg11eigths),
        fixed::types::I13F3::unwrapped_from_num(-1.375).to_bits() as i32
    );
}

#[test]
fn test_fixed_rounding() {
    type T = I15F1;

    let x0: T = T::zero();
    assert_eq!(fixed_bits(x0), fixed::types::I15F1::unwrapped_from_num(0).to_bits() as i32);
    let x4: T = T::four();
    assert_eq!(fixed_bits(x4), fixed::types::I15F1::unwrapped_from_num(4).to_bits() as i32);

    let x1p5: T = T::from_bigrational(&Rational::new(3, 2)).unwrap();
    assert_eq!(fixed_bits(x1p5), fixed::types::I15F1::unwrapped_from_num(1.5).to_bits() as i32);

    // Needs to round, we only have a half-bit of precision.
    let x11eigths: T = T::from_bigrational(&Rational::new(11, 8)).unwrap();
    assert_eq!(fixed_bits(x11eigths), fixed::types::I15F1::unwrapped_from_num(1.5).to_bits() as i32);
}

#[test]
fn number_test_fixed_rounding() {
    type T = I15F1;

    let x0: T = T::from_i32(0);
    assert_eq!(fixed_bits(x0), fixed::types::I15F1::unwrapped_from_num(0).to_bits() as i32);
    let x4: T = T::from_i32(4);
    assert_eq!(fixed_bits(x4), fixed::types::I15F1::unwrapped_from_num(4).to_bits() as i32);
    let x1p5: T = T::from_bigrational(&Rational::new(3, 2)).unwrap();
    assert_eq!(fixed_bits(x1p5), fixed::types::I15F1::unwrapped_from_num(1.5).to_bits() as i32);

    // Needs to round, we only have a half-bit of precision.
    let x11eigths: T = T::from_bigrational(&Rational::new(11, 8)).unwrap();
    assert_eq!(fixed_bits(x11eigths), fixed::types::I15F1::unwrapped_from_num(1.5).to_bits() as i32);
}

#[test]
fn test_fixed_out_of_range() {
    // The integer part exceeds I11F5's capacity: the conversion is rejected
    // rather than wrapped.
    let too_big = Rational::new(100_000, 1);
    assert!(I11F5::from_bigrational(&too_big).is_err());
    let fits = Rational::new(100, 1);
    assert!(I11F5::from_bigrational(&fits).is_ok());
}

#[test]
fn test_masked_float_small() {
    // Define small positive and negative rational values.
    let small_positive = num::BigRational::new(1.into(), 5000.into());
    let small_negative = num::BigRational::new((-1).into(), 5000.into());

    // Create MaskedFloat<3, 50> instances from those values.
    let positive_mf = MaskedFloat::<3, 50>::new(small_positive.to_f64().unwrap().to_bits());
    let negative_mf = MaskedFloat::<3, 50>::new(small_negative.to_f64().unwrap().to_bits());

    // Assert that they are negations of each other.
    assert_eq!(
        f64::from_bits(positive_mf.to_bits()),
        -f64::from_bits(negative_mf.to_bits())
    );
}

#[test]
fn number_test_masked_float_small() {
    let small_positive = num::BigRational::new(1.into(), 5000.into());
    let small_negative = num::BigRational::new((-1).into(), 5000.into());

    let positive_mf = MaskedFloat::<3, 50>::new(small_positive.to_f64().unwrap().to_bits());
    let negative_mf = MaskedFloat::<3, 50>::new(small_negative.to_f64().unwrap().to_bits());

    assert_eq!(
        f64::from_bits(positive_mf.to_bits()),
        -f64::from_bits(negative_mf.to_bits())
    );
}

#[test]
fn test_masking_big() {
    // Shouldn't be able to represent 2^64 with 6 bits of exponent.
    let f = f64::powf(2.1, 64.0);
    let too_big = MaskedFloat::<6, 50>::new(f.to_bits());
    assert!(f64::from_bits(too_big.to_bits()) < f);

    // Should be able to represent 2^64 with 8 bits of exponent.
    let ok = MaskedFloat::<8, 50>::new(f.to_bits());
    assert!(f64::from_bits(ok.to_bits()) - f < 0.001);
}

#[test]
fn test_masking_small() {
    // Shouldn't be able to represent 2^-64 with 6 bits of exponent.
    let f = f64::powf(2.1, -64.0);
    let too_small = MaskedFloat::<6, 50>::new(f.to_bits());
    assert!(f64::from_bits(too_small.to_bits()) > f);

    // Should be able to represent 2^-64 with 8 bits of exponent.
    let ok = MaskedFloat::<8, 50>::new(f.to_bits());
    assert!(f64::from_bits(ok.to_bits()) - f < 0.001);
}

#[test]
fn test_zero() {
    type T = MaskedFloat<3, 50>;

    assert_eq!(T::new(0.0f64.to_bits()).to_bits(), 0.0f64.to_bits());
    assert_eq!(T::new((-0.0f64).to_bits()).to_bits(), (-0.0f64).to_bits());
}

#[test]
fn test_bigint_deserialize() {
    let v = num::BigInt::from(1i8).to_signed_bytes_le();
    assert_eq!(&v, &[1u8]);
    let v = num::BigInt::from(-1i8).to_signed_bytes_le();
    assert_eq!(&v, &[0xffu8]);
}

#[test]
fn test_p32_constants() {
    let zero_p: softposit::P32 = softposit::P32::from_f32(0.0);
    let one_p: softposit::P32 = softposit::P32::from_f32(1.0);
    let neg_p: softposit::P32 = softposit::P32::from_f32(-1.0);
    let zero = Rational::new(0, 1);
    let one = Rational::new(1, 1);
    let neg = Rational::new(-1, 1);
    assert_eq!(P32::from_bigrational(&zero).unwrap().bits, zero_p.to_bits());
    assert_eq!(P32::from_bigrational(&one).unwrap().bits, one_p.to_bits());
    assert_eq!(P32::from_bigrational(&neg).unwrap().bits, neg_p.to_bits());
}

#[test]
fn test_p16_p8_narrowing() {
    // Conversions into the narrow posit widths agree with converting at 32
    // bits and narrowing through the real softposit crate.
    for (n, d) in [(0i64, 1i64), (1, 1), (-1, 1), (3, 2), (1, 16), (100, 7)] {
        let r = Rational::new(n, d);
        let wide = softposit::P32::from_bits(P32::from_bigrational(&r).unwrap().bits);
        let narrow16: softposit::P16 = wide.into();
        let narrow8: softposit::P8 = wide.into();
        assert_eq!(P16::from_bigrational(&r).unwrap().bits, narrow16.to_bits());
        assert_eq!(P8::from_bigrational(&r).unwrap().bits, narrow8.to_bits());
    }
    // Zero converts to each narrow format's own additive identity.
    let zero = Rational::new(0, 1);
    assert_eq!(P16::from_bigrational(&zero).unwrap().bits, 0);
    assert_eq!(P8::from_bigrational(&zero).unwrap().bits, 0);
}

#[test]
fn test_p32_small() {
    let small_p: softposit::P32 = softposit::P32::from_f32(1.0 / 16.0);
    let small = Rational::new(1, 16);
    assert_eq!(P32::from_bigrational(&small).unwrap().bits, small_p.to_bits());
}

#[test]
fn test_zero_converts_to_additive_identity() {
    // The exact rational zero converts to each format's own zero.
    let zero = Rational::new(0, 1);

    let r = Rational::from_bigrational(&zero).unwrap();
    assert!(r.is_zero());

    let fx = I11F5::from_bigrational(&zero).unwrap();
    assert_eq!(fx.to_bits(), I11F5::zero().to_bits());

    let p = P32::from_bigrational(&zero).unwrap();
    assert_eq!(p.bits, P32::zero().bits);

    // An unreduced representation of zero converts the same way.
    let zero_over_five = Rational::new(0, 5);
    let fx2 = I11F5::from_bigrational(&zero_over_five).unwrap();
    assert_eq!(fx2.to_bits(), 0);
}

#[test]
fn test_rational_arithmetic_exact() {
    let a = Rational::new(1, 2);
    let b = Rational::new(1, 3);
    let sum = a.add(b);
    assert!(sum.eq_value(&Rational::new(5, 6)));
    let product = a.mul(b);
    assert!(product.eq_value(&Rational::new(1, 6)));
    let quotient = a.div(b);
    assert!(quotient.eq_value(&Rational::new(3, 2)));
    let difference = a.sub(b);
    assert!(difference.eq_value(&Rational::new(1, 6)));
    assert!(b.lt(&a));
    assert!(!a.lt(&b));
}
