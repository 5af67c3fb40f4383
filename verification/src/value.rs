//! Stored samples and the physical values they stand for.
//!
//! A sample is stored as a whole number; its value is that number times a
//! scale factor such as 0.01. Both the factor and the value are decimal
//! fractions, held exactly.

use vstd::prelude::*;

verus! {

/// A scale factor: `mantissa / 10^places`.
#[derive(Debug, Clone, Copy, PartialEq, Eq, Structural)]
pub struct Scale {
    pub mantissa: i32,
    pub places: u8,
}

/// A physical value: `mantissa / 10^places`.
#[derive(Debug, Clone, Copy, PartialEq, Eq, Structural)]
pub struct Decimal {
    pub mantissa: i64,
    pub places: u8,
}

/// The factor 0.01 of samples stored as hundredths.
pub fn hundredths() -> (scale: Scale)
    ensures
        scale == (Scale { mantissa: 1, places: 2 }),
{
    Scale { mantissa: 1, places: 2 }
}

/// The mantissa of `raw` times the scale factor.
pub open spec fn scaled_mantissa(raw: int, scale: Scale) -> int {
    raw * scale.mantissa
}

/// The value of a stored sample: `raw` times the scale factor.
pub open spec fn scaled(raw: i32, scale: Scale) -> Decimal {
    Decimal { mantissa: scaled_mantissa(raw as int, scale) as i64, places: scale.places }
}

/// The value of a stored sample: `raw` times the scale factor.
pub fn decode_value(raw: i32, scale: Scale) -> (value: Decimal)
    ensures
        value.mantissa == raw * scale.mantissa,
        value.places == scale.places,
        value == scaled(raw, scale),
{
    proof {
        lemma_mantissa_fits(raw as int, scale);
    }
    Decimal { mantissa: raw as i64 * scale.mantissa as i64, places: scale.places }
}

/// The values of a series of stored samples, in their order.
pub open spec fn scaled_series(raw: Seq<i32>, scale: Scale) -> Seq<Decimal> {
    Seq::new(raw.len(), |i: int| scaled(raw[i], scale))
}

/// The values of a series of stored samples, in their order.
pub fn decode_series(raw: &Vec<i32>, scale: Scale) -> (values: Vec<Decimal>)
    ensures
        values@ == scaled_series(raw@, scale),
{
    let mut values: Vec<Decimal> = Vec::new();
    let mut i: usize = 0;
    while i < raw.len()
        invariant
            i <= raw.len(),
            values@ == scaled_series(raw@.take(i as int), scale),
        decreases raw.len() - i,
    {
        values.push(decode_value(raw[i], scale));
        i += 1;
        assert(values@ =~= scaled_series(raw@.take(i as int), scale));
    }
    assert(raw@.take(i as int) =~= raw@);
    values
}

/// Decoding is linear in the stored sample: twice a sample, where that is a
/// sample too, has twice the value, and so for every multiple and every sum,
/// at the same number of places.
pub proof fn lemma_decode_is_linear(raw: i32, other: i32, factor: int, scale: Scale)
    ensures
        i32::MIN <= 2 * raw <= i32::MAX ==> scaled((2 * raw) as i32, scale).mantissa == 2 * scaled(
            raw,
            scale,
        ).mantissa,
        i32::MIN <= factor * raw <= i32::MAX ==> scaled((factor * raw) as i32, scale).mantissa
            == factor * scaled(raw, scale).mantissa,
        i32::MIN <= raw + other <= i32::MAX ==> scaled((raw + other) as i32, scale).mantissa
            == scaled(raw, scale).mantissa + scaled(other, scale).mantissa,
        scaled(raw, scale).places == scale.places,
{
    let m = scale.mantissa as int;
    lemma_mantissa_fits(raw as int, scale);
    lemma_mantissa_fits(other as int, scale);
    lemma_mantissa_fits(2 * raw, scale);
    lemma_mantissa_fits(factor * raw, scale);
    lemma_mantissa_fits(raw + other, scale);
    assert((factor * raw) * m == factor * (raw * m)) by (nonlinear_arith);
    assert((2 * raw) * m == 2 * (raw * m)) by (nonlinear_arith);
    assert((raw + other) * m == raw * m + other * m) by (nonlinear_arith);
}

/// The product of a sample and the mantissa of a scale factor fits 64 bits.
proof fn lemma_mantissa_fits(raw: int, scale: Scale)
    ensures
        i32::MIN <= raw <= i32::MAX ==> i64::MIN <= scaled_mantissa(raw, scale) <= i64::MAX,
{
    let m = scale.mantissa as int;
    if i32::MIN <= raw <= i32::MAX {
        assert(-0x8000_0000 * 0x8000_0000 <= raw * m <= 0x8000_0000 * 0x8000_0000)
            by (nonlinear_arith)
            requires
                -0x8000_0000 <= raw <= 0x8000_0000,
                -0x8000_0000 <= m <= 0x8000_0000,
        ;
    }
}

} // verus!
