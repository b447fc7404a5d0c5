//! Decimal numbers as `rust_decimal` represents them: a signed mantissa of
//! at most 96 bits, a scale of at most 28 decimal places and a sign flag
//! (which zero may carry too). The arithmetic and the text form come from
//! `rust_decimal` itself.

use vstd::prelude::*;

verus! {

/// Largest mantissa magnitude that `rust_decimal` represents (2^96 - 1).
pub const MAX_MANTISSA: i128 = 0xFFFF_FFFF_FFFF_FFFF_FFFF_FFFFi128;

/// Largest scale that `rust_decimal` represents.
pub const MAX_SCALE: u32 = 28;

/// A decimal number: `mantissa / 10^scale`, negative when `negative` is set.
#[derive(Clone, Copy, Debug)]
pub struct DecimalValue {
    pub mantissa: i128,
    pub scale: u32,
    pub negative: bool,
}

impl View for DecimalValue {
    type V = (i128, u32, bool);

    open spec fn view(&self) -> (i128, u32, bool) {
        (self.mantissa, self.scale, self.negative)
    }
}

/// True when the parts describe a decimal that `rust_decimal` can hold.
pub open spec fn decimal_parts_valid(d: (i128, u32, bool)) -> bool {
    &&& -MAX_MANTISSA <= d.0 <= MAX_MANTISSA
    &&& d.1 <= MAX_SCALE
    &&& d.0 > 0 ==> !d.2
    &&& d.0 < 0 ==> d.2
}

impl DecimalValue {
    /// True when the value is a decimal that `rust_decimal` can hold.
    pub open spec fn wf(&self) -> bool {
        decimal_parts_valid(self@)
    }

    /// The decimal that an integer converts to: the integer as mantissa,
    /// scale zero.
    pub open spec fn spec_from_integer(value: int) -> (i128, u32, bool) {
        (value as i128, 0u32, value < 0)
    }

    /// The decimal that an integer converts to.
    pub fn from_integer(value: i128) -> (d: DecimalValue)
        requires
            -MAX_MANTISSA <= value <= MAX_MANTISSA,
        ensures
            d@ == Self::spec_from_integer(value as int),
            d.wf(),
    {
        DecimalValue { mantissa: value, scale: 0, negative: value < 0 }
    }
}

/// 10 to the power `n`.
pub open spec fn pow10(n: nat) -> nat
    decreases n,
{
    if n == 0 {
        1
    } else {
        10 * pow10((n - 1) as nat)
    }
}

/// The integer part of a non-negative decimal as a `u16`, when it fits; no
/// value for a decimal with its sign flag set.
pub open spec fn decimal_to_u16_spec(d: (i128, u32, bool)) -> Option<u16> {
    if d.2 {
        None
    } else if (d.0 as int) / (pow10(d.1 as nat) as int) <= u16::MAX {
        Some(((d.0 as int) / (pow10(d.1 as nat) as int)) as u16)
    } else {
        None
    }
}

/// The product that `rust_decimal`'s `Decimal::checked_mul` computes, with
/// its rounding to 96 bits; no value when the product overflows.
pub uninterp spec fn decimal_product(a: (i128, u32, bool), b: (i128, u32, bool)) -> Option<(i128, u32, bool)>;

/// The decimal digit `d` (0 to 9) as a character.
pub open spec fn digit_char(d: int) -> char {
    (d + 48) as char
}

/// The decimal digits of `n`, most significant first, with no leading zero;
/// none for zero.
pub open spec fn digits_of(n: nat) -> Seq<char>
    decreases n,
{
    if n == 0 {
        Seq::empty()
    } else {
        digits_of(n / 10).push(digit_char((n % 10) as int))
    }
}

/// `s` with zeros put in front until it has at least `width` characters.
pub open spec fn zero_padded(s: Seq<char>, width: nat) -> Seq<char> {
    if s.len() >= width {
        s
    } else {
        Seq::new((width - s.len()) as nat, |_i: int| '0') + s
    }
}

/// The text that `rust_decimal`'s `Display` writes for a decimal, without
/// a width or precision: a `-` when the sign flag is set (zero included);
/// then the digits of the mantissa's magnitude, padded with zeros to at
/// least `scale` digits, with a point before the last `scale` of them and a
/// `0` before the point when no digit is left in front of it; `0` for a
/// zero of scale zero.
pub open spec fn decimal_text(d: (i128, u32, bool)) -> Seq<char> {
    let magnitude = (if d.0 < 0 {
        -d.0
    } else {
        d.0 as int
    }) as nat;
    let digits = zero_padded(digits_of(magnitude), d.1 as nat);
    let whole = digits.len() - d.1;
    let body = if d.1 == 0 {
        if digits.len() == 0 {
            seq!['0']
        } else {
            digits
        }
    } else {
        (if whole == 0 {
            seq!['0']
        } else {
            digits.take(whole)
        }) + seq!['.'] + digits.skip(whole)
    };
    (if d.2 {
        seq!['-']
    } else {
        Seq::empty()
    }) + body
}

/// `rust_decimal::Decimal::checked_mul` on the decimals that the parts
/// describe. The contract claims that the result is the named product of the
/// two arguments and that a product, when there is one, is a valid decimal.
#[verifier::external_body]
pub(crate) fn decimal_checked_mul(a: &DecimalValue, b: &DecimalValue) -> (r: Option<DecimalValue>)
    requires
        a.wf(),
        b.wf(),
    ensures
        r matches Some(p) ==> p.wf() && decimal_product(a@, b@) == Some(p@),
        r is None ==> decimal_product(a@, b@) is None,
{
    let mut x = rust_decimal::Decimal::from_i128_with_scale(a.mantissa, a.scale);
    x.set_sign_negative(a.negative);
    let mut y = rust_decimal::Decimal::from_i128_with_scale(b.mantissa, b.scale);
    y.set_sign_negative(b.negative);
    match x.checked_mul(y) {
        Some(p) => Some(DecimalValue { mantissa: p.mantissa(), scale: p.scale(), negative: p.is_sign_negative() }),
        None => None,
    }
}

/// `Display` of `rust_decimal::Decimal` (through `to_string`). The contract
/// claims that the text is the one [`decimal_text`] describes.
#[verifier::external_body]
pub(crate) fn decimal_to_text(a: &DecimalValue) -> (r: String)
    requires
        a.wf(),
    ensures
        r@ == decimal_text(a@),
{
    let mut x = rust_decimal::Decimal::from_i128_with_scale(a.mantissa, a.scale);
    x.set_sign_negative(a.negative);
    x.to_string()
}

/// `TryFrom<Decimal> for u16` of `rust_decimal`: the integer part, truncated
/// toward zero, when the sign flag is clear and the integer part fits.
#[verifier::external_body]
pub(crate) fn decimal_to_u16(a: &DecimalValue) -> (r: Option<u16>)
    requires
        a.wf(),
    ensures
        r == decimal_to_u16_spec(a@),
{
    let mut x = rust_decimal::Decimal::from_i128_with_scale(a.mantissa, a.scale);
    x.set_sign_negative(a.negative);
    match u16::try_from(x) {
        Ok(v) => Some(v),
        Err(_) => None,
    }
}

} // verus!
