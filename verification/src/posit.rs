//! The 32-bit software posit format.
//!
//! Conversion from an exact rational lands on the quire's accumulator grid:
//! multiply by the reciprocal of the squared minimum-positive posit value,
//! truncate to an integer, express that integer sign-extended at the
//! accumulator's fixed 512-bit width, pack it into the accumulator's word
//! order — most significant word first, reversed relative to naive byte
//! order — and collapse the accumulator to the nearest posit.

use vstd::arithmetic::power2::pow2;
use vstd::prelude::*;

use crate::number::{FractalNumber, FromRational, MandelbrotNumber};
use crate::rational::Rational;

verus! {

/// A 32-bit posit value, carried as its bit pattern.
#[derive(Clone, Copy, Debug, PartialEq, Eq, Structural)]
pub struct P32 {
    pub bits: u32,
}

/// What the posit addition routine returns for two bit patterns.
pub uninterp spec fn p32_add(a: u32, b: u32) -> u32;

/// What the posit subtraction routine returns for two bit patterns.
pub uninterp spec fn p32_sub(a: u32, b: u32) -> u32;

/// What the posit multiplication routine returns for two bit patterns.
pub uninterp spec fn p32_mul(a: u32, b: u32) -> u32;

/// What the posit division routine returns for two bit patterns.
pub uninterp spec fn p32_div(a: u32, b: u32) -> u32;

/// What the posit integer conversion returns for a small constant.
pub uninterp spec fn p32_from_int(i: int) -> u32;

/// What collapsing a 512-bit quire accumulator (words most significant
/// first) to the nearest posit returns.
pub uninterp spec fn posit_of_quire(words: Seq<u64>) -> u32;

/// Truncating division: the quotient rounded toward zero.
pub open spec fn trunc_div(a: int, b: int) -> int {
    if a >= 0 {
        a / b
    } else {
        -((-a) / b)
    }
}

/// The integer the conversion lands on: the value scaled by the reciprocal
/// of the squared minimum-positive posit (2^-240 for this format), rounded
/// toward zero.
pub open spec fn quire_quotient(r: Rational) -> int {
    trunc_div(r.n() * pow2(240), r.d())
}

/// Byte i of the 512-bit two's-complement little-endian form of q.
pub open spec fn tc_byte(q: int, i: int) -> int {
    ((q % (pow2(512) as int)) / (pow2((8 * i) as nat) as int)) % 256
}

/// The 64 bytes of the 512-bit two's-complement little-endian form of q.
pub open spec fn tc_bytes(q: int) -> Seq<u8> {
    Seq::new(64, |i: int| tc_byte(q, i) as u8)
}

/// Accumulator word j, most significant first: an eight-byte little-endian
/// load of the bytes at offset 8·(7−j).
pub open spec fn word_spec(bytes: Seq<u8>, j: int) -> int {
    word_partial(bytes, j, 8)
}

/// The first k bytes of accumulator word j.
pub open spec fn word_partial(bytes: Seq<u8>, j: int, k: int) -> int
    decreases k,
{
    if k <= 0 {
        0
    } else {
        word_partial(bytes, j, k - 1) + bytes[8 * (7 - j) + (k - 1)] * pow2((8 * (k - 1)) as nat)
    }
}

/// The accumulator's eight words for the 512-bit integer held in `bytes`.
pub open spec fn pack_words(bytes: Seq<u8>) -> Seq<u64> {
    Seq::new(8, |j: int| word_spec(bytes, j) as u64)
}

/// What conversion from an exact rational returns: the quire landing
/// pipeline, which never fails (posits saturate).
pub open spec fn p32_conv(r: Rational) -> P32 {
    P32 { bits: posit_of_quire(pack_words(tc_bytes(quire_quotient(r)))) }
}

/// Relies on num's BigInt shift, truncating division and
/// `to_signed_bytes_le`: returns the 64 bytes of the 512-bit
/// two's-complement little-endian form of trunc(n·2^240 / d).
#[verifier::external_body]
fn quotient_bytes(n: i64, d: i64) -> (r: Vec<u8>)
    requires
        d >= 1,
    ensures
        r@.len() == 64,
        forall|i: int|
            0 <= i < 64 ==> (#[trigger] r@[i]) as int == tc_byte(
                trunc_div(n as int * pow2(240), d as int),
                i,
            ),
{
    let q: num::BigInt = (num::BigInt::from(n) << 240u32) / num::BigInt::from(d);
    let sign: u8 = if q.sign() == num::bigint::Sign::Minus {
        0xff
    } else {
        0x0
    };
    let mut bytes: Vec<u8> = q.to_signed_bytes_le();
    bytes.resize(64, sign);
    bytes
}

/// Relies on softposit's `Q32::from_bits` and `Q32::to_posit`: collapses a
/// 512-bit quire accumulator, words most significant first, to the nearest
/// 32-bit posit. A zero accumulator collapses to the posit zero (bits 0).
#[verifier::external_body]
fn quire_collapse(words: &Vec<u64>) -> (r: u32)
    requires
        words@.len() == 8,
    ensures
        r == posit_of_quire(words@),
        (forall|j: int| 0 <= j < 8 ==> words@[j] == 0u64) ==> r == 0u32,
{
    let mut arr = [0u64; 8];
    arr.copy_from_slice(words.as_slice());
    softposit::Q32::from_bits(arr).to_posit().to_bits()
}

/// Relies on softposit's `P32::add`: posit addition on bit patterns.
#[verifier::external_body]
fn p32_add_exec(a: u32, b: u32) -> (r: u32)
    ensures
        r == p32_add(a, b),
{
    (softposit::P32::from_bits(a) + softposit::P32::from_bits(b)).to_bits()
}

/// Relies on softposit's `P32::sub`: posit subtraction on bit patterns.
#[verifier::external_body]
fn p32_sub_exec(a: u32, b: u32) -> (r: u32)
    ensures
        r == p32_sub(a, b),
{
    (softposit::P32::from_bits(a) - softposit::P32::from_bits(b)).to_bits()
}

/// Relies on softposit's `P32::mul`: posit multiplication on bit patterns.
#[verifier::external_body]
fn p32_mul_exec(a: u32, b: u32) -> (r: u32)
    ensures
        r == p32_mul(a, b),
{
    (softposit::P32::from_bits(a) * softposit::P32::from_bits(b)).to_bits()
}

/// Relies on softposit's `P32::div`: posit division on bit patterns.
#[verifier::external_body]
fn p32_div_exec(a: u32, b: u32) -> (r: u32)
    ensures
        r == p32_div(a, b),
{
    (softposit::P32::from_bits(a) / softposit::P32::from_bits(b)).to_bits()
}

/// Relies on softposit's `P32::from_i32`: the posit nearest the given
/// integer. Zero converts to bits 0 and only zero does (small nonzero
/// magnitudes land on nonzero patterns, saturating ones on the extreme
/// nonzero patterns).
#[verifier::external_body]
fn p32_from_i32_exec(i: i32) -> (r: u32)
    ensures
        r == p32_from_int(i as int),
        (r == 0u32) == (i == 0),
{
    softposit::P32::from_i32(i).to_bits()
}

/// An accumulator word over all-zero bytes is zero.
proof fn lemma_word_partial_zero(bytes: Seq<u8>, j: int, k: int)
    requires
        bytes.len() == 64,
        forall|i: int| 0 <= i < 64 ==> bytes[i] == 0,
        0 <= j < 8,
        0 <= k <= 8,
    ensures
        word_partial(bytes, j, k) == 0,
    decreases k,
{
    if k > 0 {
        lemma_word_partial_zero(bytes, j, k - 1);
    }
}

impl FromRational for P32 {
    /// Conversion goes through the quire accumulator and never fails.
    open spec fn from_rational_spec(r: Rational) -> Option<Self> {
        Some(p32_conv(r))
    }

    open spec fn valid(self) -> bool {
        true
    }

    /// The exact rational zero lands on a zero quire, which collapses to
    /// the posit zero: converting zero yields the format's own additive
    /// identity.
    fn from_bigrational(r: &Rational) -> (res: Result<Self, String>)
        ensures
            r.spec_is_zero() ==> (res matches Ok(v) && v.is_zero_spec()),
    {
        let bytes = quotient_bytes(r.numer(), r.denom());
        let ghost q = quire_quotient(*r);

        // Pack the sign-extended little-endian bytes into the accumulator's
        // words; the accumulator keeps its most significant word first, so
        // the word order is reversed relative to the byte order.
        let mut words: Vec<u64> = Vec::new();
        let mut j: usize = 0;
        while j < 8
            invariant
                bytes@.len() == 64,
                forall|i: int| 0 <= i < 64 ==> (#[trigger] bytes@[i]) as int == tc_byte(q, i),
                0 <= j <= 8,
                words@.len() == j,
                forall|t: int| 0 <= t < j ==> (#[trigger] words@[t]) as int == word_spec(
                    tc_bytes(q),
                    t,
                ),
            decreases 8 - j,
        {
            let base: usize = 8 * (7 - j);
            let mut w: u64 = 0;
            let mut factor: u64 = 1;
            let mut k: usize = 0;
            proof {
                vstd::arithmetic::power2::lemma2_to64();
            }
            while k < 8
                invariant
                    bytes@.len() == 64,
                    forall|i: int| 0 <= i < 64 ==> (#[trigger] bytes@[i]) as int == tc_byte(q, i),
                    0 <= j < 8,
                    base == 8 * (7 - j),
                    0 <= k <= 8,
                    k < 8 ==> factor as int == pow2((8 * k) as nat),
                    w as int == word_partial(tc_bytes(q), j as int, k as int),
                    (w as int) < pow2((8 * k) as nat),
                decreases 8 - k,
            {
                proof {
                    vstd::arithmetic::power2::lemma_pow2_adds((8 * k) as nat, 8);
                    vstd::arithmetic::power2::lemma2_to64();
                    vstd::arithmetic::power2::lemma2_to64_rest();
                    if 8 * k < 56 {
                        vstd::arithmetic::power2::lemma_pow2_strictly_increases(
                            (8 * k) as nat,
                            56,
                        );
                    }
                    assert(factor <= pow2(56));
                    assert(tc_bytes(q)[8 * (7 - j as int) + k as int] == bytes@[base + k]);
                    assert(w + bytes@[base + k] * factor < factor * 256) by (nonlinear_arith)
                        requires
                            w < factor,
                            bytes@[base + k] <= 255,
                            factor >= 1,
                    ;
                    assert(factor * 256 == pow2((8 * (k + 1)) as nat));
                }
                let b = bytes[base + k];
                w = w + (b as u64) * factor;
                k = k + 1;
                if k < 8 {
                    proof {
                        vstd::arithmetic::power2::lemma_pow2_adds((8 * (k - 1)) as nat, 8);
                        vstd::arithmetic::power2::lemma2_to64();
                        vstd::arithmetic::power2::lemma2_to64_rest();
                        if 8 * (k - 1) < 48 {
                            vstd::arithmetic::power2::lemma_pow2_strictly_increases(
                                (8 * (k - 1)) as nat,
                                48,
                            );
                        }
                    }
                    factor = factor * 256;
                }
            }
            words.push(w);
            j = j + 1;
        }
        proof {
            assert(words@ =~= pack_words(tc_bytes(q)));
        }
        let bits = quire_collapse(&words);
        proof {
            if r.spec_is_zero() {
                vstd::arithmetic::div_mod::lemma_fundamental_div_mod_converse_div(0, r.d(), 0, 0);
                assert(q == 0);
                assert forall|i: int| 0 <= i < 64 implies tc_bytes(0)[i] == 0u8 by {
                    vstd::arithmetic::power2::lemma_pow2_pos((8 * i) as nat);
                    vstd::arithmetic::power2::lemma_pow2_pos(512);
                    vstd::arithmetic::div_mod::lemma_fundamental_div_mod_converse_mod(
                        0,
                        pow2(512) as int,
                        0,
                        0,
                    );
                    vstd::arithmetic::div_mod::lemma_fundamental_div_mod_converse_div(
                        0,
                        pow2((8 * i) as nat) as int,
                        0,
                        0,
                    );
                    vstd::arithmetic::div_mod::lemma_fundamental_div_mod_converse_mod(0, 256, 0, 0);
                }
                assert forall|t: int| 0 <= t < 8 implies words@[t] == 0u64 by {
                    lemma_word_partial_zero(tc_bytes(0), t, 8);
                }
                assert(bits == 0u32);
            }
        }
        Ok(P32 { bits })
    }
}

impl FractalNumber for P32 {
    open spec fn fmt_ok() -> bool {
        true
    }

    open spec fn from_i32_spec(i: int) -> Self {
        P32 { bits: p32_from_int(i) }
    }

    open spec fn add_spec(a: Self, b: Self) -> Self {
        P32 { bits: p32_add(a.bits, b.bits) }
    }

    open spec fn sub_spec(a: Self, b: Self) -> Self {
        P32 { bits: p32_sub(a.bits, b.bits) }
    }

    open spec fn mul_spec(a: Self, b: Self) -> Self {
        P32 { bits: p32_mul(a.bits, b.bits) }
    }

    open spec fn div_spec(a: Self, b: Self) -> Self {
        P32 { bits: p32_div(a.bits, b.bits) }
    }

    /// Posit bit patterns order as signed machine integers.
    open spec fn lt_spec(a: Self, b: Self) -> bool {
        (a.bits as i32) < (b.bits as i32)
    }

    open spec fn is_zero_spec(self) -> bool {
        self.bits == 0
    }

    /// Posit arithmetic saturates by design and never degrades.
    open spec fn degraded_spec(self) -> bool {
        false
    }

    fn from_i32(i: i32) -> (r: Self) {
        P32 { bits: p32_from_i32_exec(i) }
    }

    fn add(self, o: Self) -> (r: Self) {
        P32 { bits: p32_add_exec(self.bits, o.bits) }
    }

    fn sub(self, o: Self) -> (r: Self) {
        P32 { bits: p32_sub_exec(self.bits, o.bits) }
    }

    fn mul(self, o: Self) -> (r: Self) {
        P32 { bits: p32_mul_exec(self.bits, o.bits) }
    }

    fn div(self, o: Self) -> (r: Self) {
        P32 { bits: p32_div_exec(self.bits, o.bits) }
    }

    fn lt(&self, o: &Self) -> (r: bool) {
        (self.bits as i32) < (o.bits as i32)
    }

    fn is_zero(&self) -> (r: bool) {
        self.bits == 0
    }

    fn is_degraded(&self) -> (r: bool) {
        false
    }
}

impl MandelbrotNumber for P32 {

}

} // verus!

verus! {

/// A 16-bit posit value, carried as its bit pattern.
#[derive(Clone, Copy, Debug, PartialEq, Eq, Structural)]
pub struct P16 {
    pub bits: u16,
}

/// An 8-bit posit value, carried as its bit pattern.
#[derive(Clone, Copy, Debug, PartialEq, Eq, Structural)]
pub struct P8 {
    pub bits: u8,
}

/// What the 16-bit posit addition routine returns for two bit patterns.
pub uninterp spec fn p16_add(a: u16, b: u16) -> u16;

/// What the 16-bit posit subtraction routine returns for two bit patterns.
pub uninterp spec fn p16_sub(a: u16, b: u16) -> u16;

/// What the 16-bit posit multiplication routine returns for two bit
/// patterns.
pub uninterp spec fn p16_mul(a: u16, b: u16) -> u16;

/// What the 16-bit posit division routine returns for two bit patterns.
pub uninterp spec fn p16_div(a: u16, b: u16) -> u16;

/// What the 16-bit posit integer conversion returns for a small constant.
pub uninterp spec fn p16_from_int(i: int) -> u16;

/// What narrowing a 32-bit posit to 16 bits returns.
pub uninterp spec fn p16_of_p32(a: u32) -> u16;

/// What the 8-bit posit addition routine returns for two bit patterns.
pub uninterp spec fn p8_add(a: u8, b: u8) -> u8;

/// What the 8-bit posit subtraction routine returns for two bit patterns.
pub uninterp spec fn p8_sub(a: u8, b: u8) -> u8;

/// What the 8-bit posit multiplication routine returns for two bit
/// patterns.
pub uninterp spec fn p8_mul(a: u8, b: u8) -> u8;

/// What the 8-bit posit division routine returns for two bit patterns.
pub uninterp spec fn p8_div(a: u8, b: u8) -> u8;

/// What the 8-bit posit integer conversion returns for a small constant.
pub uninterp spec fn p8_from_int(i: int) -> u8;

/// What narrowing a 32-bit posit to 8 bits returns.
pub uninterp spec fn p8_of_p32(a: u32) -> u8;

/// Relies on softposit's `P16::add`: posit addition on bit patterns.
#[verifier::external_body]
fn p16_add_exec(a: u16, b: u16) -> (r: u16)
    ensures
        r == p16_add(a, b),
{
    (softposit::P16::from_bits(a) + softposit::P16::from_bits(b)).to_bits()
}

/// Relies on softposit's `P16::sub`: posit subtraction on bit patterns.
#[verifier::external_body]
fn p16_sub_exec(a: u16, b: u16) -> (r: u16)
    ensures
        r == p16_sub(a, b),
{
    (softposit::P16::from_bits(a) - softposit::P16::from_bits(b)).to_bits()
}

/// Relies on softposit's `P16::mul`: posit multiplication on bit patterns.
#[verifier::external_body]
fn p16_mul_exec(a: u16, b: u16) -> (r: u16)
    ensures
        r == p16_mul(a, b),
{
    (softposit::P16::from_bits(a) * softposit::P16::from_bits(b)).to_bits()
}

/// Relies on softposit's `P16::div`: posit division on bit patterns.
#[verifier::external_body]
fn p16_div_exec(a: u16, b: u16) -> (r: u16)
    ensures
        r == p16_div(a, b),
{
    (softposit::P16::from_bits(a) / softposit::P16::from_bits(b)).to_bits()
}

/// Relies on softposit's `P16::from_i32`: the posit nearest the given
/// integer. Zero converts to bits 0 and only zero does.
#[verifier::external_body]
fn p16_from_i32_exec(i: i32) -> (r: u16)
    ensures
        r == p16_from_int(i as int),
        (r == 0u16) == (i == 0),
{
    softposit::P16::from_i32(i).to_bits()
}

/// Relies on softposit's `P16E1::from_p32e2`: the 16-bit posit nearest a
/// 32-bit posit. The zero pattern narrows to the zero pattern and only it
/// does (nonzero magnitudes clamp to nonzero patterns; NaR stays NaR).
#[verifier::external_body]
fn p16_from_p32_exec(a: u32) -> (r: u16)
    ensures
        r == p16_of_p32(a),
        (r == 0u16) == (a == 0u32),
{
    let wide: softposit::P16 = softposit::P32::from_bits(a).into();
    wide.to_bits()
}

/// Relies on softposit's `P8::add`: posit addition on bit patterns.
#[verifier::external_body]
fn p8_add_exec(a: u8, b: u8) -> (r: u8)
    ensures
        r == p8_add(a, b),
{
    (softposit::P8::from_bits(a) + softposit::P8::from_bits(b)).to_bits()
}

/// Relies on softposit's `P8::sub`: posit subtraction on bit patterns.
#[verifier::external_body]
fn p8_sub_exec(a: u8, b: u8) -> (r: u8)
    ensures
        r == p8_sub(a, b),
{
    (softposit::P8::from_bits(a) - softposit::P8::from_bits(b)).to_bits()
}

/// Relies on softposit's `P8::mul`: posit multiplication on bit patterns.
#[verifier::external_body]
fn p8_mul_exec(a: u8, b: u8) -> (r: u8)
    ensures
        r == p8_mul(a, b),
{
    (softposit::P8::from_bits(a) * softposit::P8::from_bits(b)).to_bits()
}

/// Relies on softposit's `P8::div`: posit division on bit patterns.
#[verifier::external_body]
fn p8_div_exec(a: u8, b: u8) -> (r: u8)
    ensures
        r == p8_div(a, b),
{
    (softposit::P8::from_bits(a) / softposit::P8::from_bits(b)).to_bits()
}

/// Relies on softposit's `P8::from_i32`: the posit nearest the given
/// integer. Zero converts to bits 0 and only zero does.
#[verifier::external_body]
fn p8_from_i32_exec(i: i32) -> (r: u8)
    ensures
        r == p8_from_int(i as int),
        (r == 0u8) == (i == 0),
{
    softposit::P8::from_i32(i).to_bits()
}

/// Relies on softposit's `P8E0::from_p32e2`: the 8-bit posit nearest a
/// 32-bit posit. The zero pattern narrows to the zero pattern and only it
/// does (nonzero magnitudes clamp to nonzero patterns; NaR stays NaR).
#[verifier::external_body]
fn p8_from_p32_exec(a: u32) -> (r: u8)
    ensures
        r == p8_of_p32(a),
        (r == 0u8) == (a == 0u32),
{
    let narrow: softposit::P8 = softposit::P32::from_bits(a).into();
    narrow.to_bits()
}

impl FromRational for P16 {
    /// Conversion lands on the 32-bit quire grid, then narrows; it never
    /// fails (posits saturate).
    open spec fn from_rational_spec(r: Rational) -> Option<Self> {
        Some(P16 { bits: p16_of_p32(p32_conv(r).bits) })
    }

    open spec fn valid(self) -> bool {
        true
    }

    /// Zero lands on the posit zero at 32 bits and narrows to the posit
    /// zero: converting zero yields the format's own additive identity.
    fn from_bigrational(r: &Rational) -> (res: Result<Self, String>)
        ensures
            r.spec_is_zero() ==> (res matches Ok(v) && v.is_zero_spec()),
    {
        let wide = match P32::from_bigrational(r) {
            Ok(v) => v,
            Err(e) => {
                return Err(e);
            },
        };
        Ok(P16 { bits: p16_from_p32_exec(wide.bits) })
    }
}

impl FractalNumber for P16 {
    open spec fn fmt_ok() -> bool {
        true
    }

    open spec fn from_i32_spec(i: int) -> Self {
        P16 { bits: p16_from_int(i) }
    }

    open spec fn add_spec(a: Self, b: Self) -> Self {
        P16 { bits: p16_add(a.bits, b.bits) }
    }

    open spec fn sub_spec(a: Self, b: Self) -> Self {
        P16 { bits: p16_sub(a.bits, b.bits) }
    }

    open spec fn mul_spec(a: Self, b: Self) -> Self {
        P16 { bits: p16_mul(a.bits, b.bits) }
    }

    open spec fn div_spec(a: Self, b: Self) -> Self {
        P16 { bits: p16_div(a.bits, b.bits) }
    }

    /// Posit bit patterns order as signed machine integers.
    open spec fn lt_spec(a: Self, b: Self) -> bool {
        (a.bits as i16) < (b.bits as i16)
    }

    open spec fn is_zero_spec(self) -> bool {
        self.bits == 0
    }

    /// Posit arithmetic saturates by design and never degrades.
    open spec fn degraded_spec(self) -> bool {
        false
    }

    fn from_i32(i: i32) -> (r: Self) {
        P16 { bits: p16_from_i32_exec(i) }
    }

    fn add(self, o: Self) -> (r: Self) {
        P16 { bits: p16_add_exec(self.bits, o.bits) }
    }

    fn sub(self, o: Self) -> (r: Self) {
        P16 { bits: p16_sub_exec(self.bits, o.bits) }
    }

    fn mul(self, o: Self) -> (r: Self) {
        P16 { bits: p16_mul_exec(self.bits, o.bits) }
    }

    fn div(self, o: Self) -> (r: Self) {
        P16 { bits: p16_div_exec(self.bits, o.bits) }
    }

    fn lt(&self, o: &Self) -> (r: bool) {
        (self.bits as i16) < (o.bits as i16)
    }

    fn is_zero(&self) -> (r: bool) {
        self.bits == 0
    }

    fn is_degraded(&self) -> (r: bool) {
        false
    }
}

impl MandelbrotNumber for P16 {

}

impl FromRational for P8 {
    /// Conversion lands on the 32-bit quire grid, then narrows; it never
    /// fails (posits saturate).
    open spec fn from_rational_spec(r: Rational) -> Option<Self> {
        Some(P8 { bits: p8_of_p32(p32_conv(r).bits) })
    }

    open spec fn valid(self) -> bool {
        true
    }

    /// Zero lands on the posit zero at 32 bits and narrows to the posit
    /// zero: converting zero yields the format's own additive identity.
    fn from_bigrational(r: &Rational) -> (res: Result<Self, String>)
        ensures
            r.spec_is_zero() ==> (res matches Ok(v) && v.is_zero_spec()),
    {
        let wide = match P32::from_bigrational(r) {
            Ok(v) => v,
            Err(e) => {
                return Err(e);
            },
        };
        Ok(P8 { bits: p8_from_p32_exec(wide.bits) })
    }
}

impl FractalNumber for P8 {
    open spec fn fmt_ok() -> bool {
        true
    }

    open spec fn from_i32_spec(i: int) -> Self {
        P8 { bits: p8_from_int(i) }
    }

    open spec fn add_spec(a: Self, b: Self) -> Self {
        P8 { bits: p8_add(a.bits, b.bits) }
    }

    open spec fn sub_spec(a: Self, b: Self) -> Self {
        P8 { bits: p8_sub(a.bits, b.bits) }
    }

    open spec fn mul_spec(a: Self, b: Self) -> Self {
        P8 { bits: p8_mul(a.bits, b.bits) }
    }

    open spec fn div_spec(a: Self, b: Self) -> Self {
        P8 { bits: p8_div(a.bits, b.bits) }
    }

    /// Posit bit patterns order as signed machine integers.
    open spec fn lt_spec(a: Self, b: Self) -> bool {
        (a.bits as i8) < (b.bits as i8)
    }

    open spec fn is_zero_spec(self) -> bool {
        self.bits == 0
    }

    /// Posit arithmetic saturates by design and never degrades.
    open spec fn degraded_spec(self) -> bool {
        false
    }

    fn from_i32(i: i32) -> (r: Self) {
        P8 { bits: p8_from_i32_exec(i) }
    }

    fn add(self, o: Self) -> (r: Self) {
        P8 { bits: p8_add_exec(self.bits, o.bits) }
    }

    fn sub(self, o: Self) -> (r: Self) {
        P8 { bits: p8_sub_exec(self.bits, o.bits) }
    }

    fn mul(self, o: Self) -> (r: Self) {
        P8 { bits: p8_mul_exec(self.bits, o.bits) }
    }

    fn div(self, o: Self) -> (r: Self) {
        P8 { bits: p8_div_exec(self.bits, o.bits) }
    }

    fn lt(&self, o: &Self) -> (r: bool) {
        (self.bits as i8) < (o.bits as i8)
    }

    fn is_zero(&self) -> (r: bool) {
        self.bits == 0
    }

    fn is_degraded(&self) -> (r: bool) {
        false
    }
}

impl MandelbrotNumber for P8 {

}

} // verus!
