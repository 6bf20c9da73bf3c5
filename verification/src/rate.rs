//! Frame rates as exact decimal numbers.
//!
//! A frame rate is read from text such as `25` or `23.98`. It is kept as
//! written: a whole number, the mantissa, and the number of its digits that
//! stand behind the decimal point, the scale. Nine digits behind the point are
//! kept; what is written finer than that is cut off.

use crate::text::{
    all_digits, append_bytes, ascii, digits_of, digits_value, find_byte, is_digit,
    lemma_digits_hold_no, lemma_digits_of, lemma_leading_zeros, lemma_next_byte, next_byte,
    number_text, number_written, only_digits, parse_number,
};
use vstd::prelude::*;
use vstd::slice::slice_subrange;
use vstd::string::*;

verus! {

/// A decimal number: `mantissa` divided by ten to the power `scale`.
pub struct Decimal {
    pub mantissa: nat,
    pub scale: nat,
}

/// The largest scale of a frame rate: nine digits behind the point.
pub const MAX_SCALE: u8 = 9;

/// The decimal point.
pub const POINT: u8 = 46;

/// A frame rate in frames per second. Its scale is at most `MAX_SCALE`.
#[derive(Clone, Copy, Debug, PartialEq, Eq)]
pub struct FrameRate {
    mantissa: u64,
    scale: u8,
}

impl View for FrameRate {
    type V = Decimal;

    closed spec fn view(&self) -> Decimal {
        Decimal { mantissa: self.mantissa as nat, scale: self.scale as nat }
    }
}

/// The digits behind the point that are kept: the first `MAX_SCALE` of them.
pub open spec fn kept_fraction(fraction: Seq<u8>) -> Seq<u8> {
    if fraction.len() > MAX_SCALE {
        fraction.take(MAX_SCALE as int)
    } else {
        fraction
    }
}

/// The decimal number that `token` writes. It is written in digits, with or
/// without one point among them: `25`, `23.98`, `5.` and `.5` are numbers, a
/// point alone is none. No sign, no exponent, no space. The scale is the
/// number of digits behind the point; of more than `MAX_SCALE` of them the
/// first `MAX_SCALE` are kept and the rest is cut off.
pub open spec fn decimal_written(token: Seq<u8>) -> Option<Decimal> {
    let point = next_byte(token, POINT, 0);
    if point >= token.len() {
        match number_written(token) {
            Some(value) => Some(Decimal { mantissa: value, scale: 0 }),
            None => None,
        }
    } else {
        let whole = token.take(point);
        let fraction = token.skip(point + 1);
        if all_digits(whole) && all_digits(fraction) && whole.len() + fraction.len() > 0 {
            Some(
                Decimal {
                    mantissa: digits_value(whole + kept_fraction(fraction)),
                    scale: kept_fraction(fraction).len(),
                },
            )
        } else {
            None
        }
    }
}

/// Twice a decimal number, written with the same scale.
pub open spec fn twice(d: Decimal) -> Decimal {
    Decimal { mantissa: 2 * d.mantissa, scale: d.scale }
}

/// `digits` with zeros before them, as many as bring them to `width`.
pub open spec fn padded(digits: Seq<char>, width: nat) -> Seq<char> {
    if digits.len() >= width {
        digits
    } else {
        Seq::new((width - digits.len()) as nat, |i: int| '0') + digits
    }
}

/// The text that writes a decimal number: its digits, with the point before
/// the last `scale` of them and at least one digit before the point. A number
/// of scale zero is written without a point.
pub open spec fn decimal_text(d: Decimal) -> Seq<char> {
    let digits = padded(digits_of(d.mantissa), d.scale + 1);
    let whole = digits.len() - d.scale;
    if d.scale == 0 {
        digits
    } else {
        digits.take(whole) + seq!['.'] + digits.skip(whole)
    }
}

/// The target rate of a job that names none: `60.0`.
pub open spec fn default_target_rate() -> Decimal {
    Decimal { mantissa: 600, scale: 1 }
}

/// Whether a decimal number can be held as a frame rate.
pub open spec fn representable(d: Decimal) -> bool {
    d.scale <= MAX_SCALE && d.mantissa <= u64::MAX
}

/// The digits of a decimal number's text, as bytes: digits, more than the
/// scale, that write the mantissa.
proof fn lemma_padded_digits(d: Decimal)
    ensures
        padded(digits_of(d.mantissa), d.scale + 1).len() >= d.scale + 1,
        all_digits(ascii(padded(digits_of(d.mantissa), d.scale + 1))),
        digits_value(ascii(padded(digits_of(d.mantissa), d.scale + 1))) == d.mantissa,
{
    let plain = digits_of(d.mantissa);
    let width = d.scale + 1;
    lemma_digits_of(d.mantissa);
    if plain.len() < width {
        let zeros = (width - plain.len()) as nat;
        lemma_leading_zeros(zeros, ascii(plain));
        assert(ascii(padded(plain, width)) =~= Seq::new(zeros, |i: int| 48u8) + ascii(plain));
    }
}

/// What is written reads back: the text of a decimal number writes that
/// number, mantissa and scale, as long as its scale is one that is kept. This
/// holds of the text's characters taken as bytes, which is also how UTF-8
/// encodes them.
pub proof fn law_text_reads_back(d: Decimal)
    requires
        d.scale <= MAX_SCALE,
    ensures
        decimal_written(ascii(decimal_text(d))) == Some(d),
        vstd::utf8::encode_utf8(decimal_text(d)) == ascii(decimal_text(d)),
{
    let digits = padded(digits_of(d.mantissa), d.scale + 1);
    let bytes = ascii(digits);
    let text = ascii(decimal_text(d));
    lemma_padded_digits(d);
    if d.scale == 0 {
        assert(text =~= bytes);
        lemma_digits_hold_no(bytes, POINT, 0);
    } else {
        let cut = digits.len() - d.scale;
        let whole = bytes.take(cut);
        let fraction = bytes.skip(cut);
        assert(text =~= whole + seq![POINT] + fraction);
        assert forall|i: int| 0 <= i < whole.len() implies is_digit(
            #[trigger] whole[i],
        ) by {
            assert(whole[i] == bytes[i]);
        }
        assert forall|i: int| 0 <= i < fraction.len() implies is_digit(
            #[trigger] fraction[i],
        ) by {
            assert(fraction[i] == bytes[cut + i]);
        }
        lemma_next_byte(text, POINT, 0);
        let found = next_byte(text, POINT, 0);
        if found < cut {
            assert(text[found] == whole[found]);
        }
        assert(text[cut] == POINT);
        assert(found == cut);
        assert(text.take(cut) =~= whole);
        assert(text.skip(cut + 1) =~= fraction);
        assert(whole + fraction =~= bytes);
    }
    let chars = decimal_text(d);
    let plain = digits_of(d.mantissa);
    lemma_digits_of(d.mantissa);
    assert forall|i: int| 0 <= i < digits.len() implies '0' <= #[trigger] digits[i] <= '9' by {
        if plain.len() < d.scale + 1 && i >= d.scale + 1 - plain.len() {
            assert(digits[i] == plain[i - (d.scale + 1 - plain.len())]);
        }
    }
    assert forall|i: int| 0 <= i < chars.len() implies '\0' <= #[trigger] chars[i]
        <= '\u{7f}' by {
        if d.scale == 0 {
            assert(chars[i] == digits[i]);
        } else {
            let cut = digits.len() - d.scale;
            if i < cut {
                assert(chars[i] == digits[i]);
            } else if i > cut {
                assert(chars[i] == digits[i - 1]);
            }
        }
    }
    vstd::utf8::is_ascii_chars_encode_utf8(chars);
    assert(vstd::utf8::encode_utf8(chars) =~= text);
}

/// A frame rate is its mantissa and its scale and nothing more: two rates
/// that stand for the same decimal number, written the same way, are equal.
pub proof fn law_view_decides(a: FrameRate, b: FrameRate)
    requires
        a@ == b@,
    ensures
        a == b,
{
}

impl FrameRate {
    #[verifier::type_invariant]
    spec fn within_scale(self) -> bool {
        self.scale <= MAX_SCALE
    }

    /// The frame rate `mantissa / 10^scale`; `None` where `scale` is above
    /// `MAX_SCALE`.
    pub fn new(mantissa: u64, scale: u8) -> (rate: Option<FrameRate>)
        ensures
            rate is Some <==> scale <= MAX_SCALE,
            rate is Some ==> rate->0@ == (Decimal { mantissa: mantissa as nat, scale: scale as nat }),
    {
        if scale <= MAX_SCALE {
            Some(FrameRate { mantissa, scale })
        } else {
            None
        }
    }

    /// The rate of no frames at all, written `0`.
    pub fn zero() -> (rate: FrameRate)
        ensures
            rate@ == (Decimal { mantissa: 0, scale: 0 }),
    {
        FrameRate { mantissa: 0, scale: 0 }
    }

    /// The target rate of a job that names none: 60 frames per second,
    /// written `60.0`.
    pub fn default_target() -> (rate: FrameRate)
        ensures
            rate@ == default_target_rate(),
    {
        FrameRate { mantissa: 600, scale: 1 }
    }

    /// Whether the rate is zero, however it is written.
    pub fn is_zero(&self) -> (zero: bool)
        ensures
            zero == (self@.mantissa == 0),
    {
        self.mantissa == 0
    }

    /// The rate's digits as one whole number.
    pub fn mantissa(&self) -> (mantissa: u64)
        ensures
            mantissa == self@.mantissa,
    {
        self.mantissa
    }

    /// How many of the rate's digits stand behind the decimal point.
    pub fn scale(&self) -> (scale: u8)
        ensures
            scale == self@.scale,
            scale <= MAX_SCALE,
    {
        proof {
            use_type_invariant(self);
        }
        self.scale
    }

    /// Twice the rate, where a frame rate can hold it.
    pub closed spec fn twofold(self) -> Option<FrameRate> {
        if 2 * self.mantissa <= u64::MAX {
            Some(FrameRate { mantissa: (2 * self.mantissa) as u64, scale: self.scale })
        } else {
            None
        }
    }

    /// What `twofold` is in decimal numbers: twice the rate, unless its
    /// mantissa would be above `u64::MAX`.
    pub proof fn lemma_twofold(self)
        ensures
            self.twofold() is Some <==> 2 * self@.mantissa <= u64::MAX,
            self.twofold() is Some ==> self.twofold()->0@ == twice(self@),
    {
    }

    /// Twice the rate; `None` where its mantissa would be above `u64::MAX`.
    pub fn doubled(&self) -> (rate: Option<FrameRate>)
        ensures
            rate == self.twofold(),
            rate is Some <==> 2 * self@.mantissa <= u64::MAX,
            rate is Some ==> rate->0@ == twice(self@),
    {
        proof {
            use_type_invariant(self);
        }
        match self.mantissa.checked_mul(2) {
            Some(mantissa) => Some(FrameRate { mantissa, scale: self.scale }),
            None => None,
        }
    }

    /// Writes the rate as the toolkit reads it: `25`, `23.98`, `0.5`.
    pub fn to_text(&self) -> (text: String)
        ensures
            text@ == decimal_text(self@),
    {
        proof {
            use_type_invariant(self);
            reveal_strlit("0");
            reveal_strlit(".");
        }
        let digits = number_text(self.mantissa);
        if self.scale == 0 {
            return digits;
        }
        let scale = self.scale as usize;
        let written = digits.as_str().unicode_len();
        let mut all = String::new();
        let mut width: usize = written;
        while width < scale + 1
            invariant
                scale <= MAX_SCALE,
                written <= width,
                width > written ==> width <= scale + 1,
                all@ == Seq::new((width - written) as nat, |i: int| '0'),
            decreases scale + 1 - width,
        {
            proof {
                reveal_strlit("0");
            }
            all.append("0");
            width = width + 1;
            assert(all@ =~= Seq::new((width - written) as nat, |i: int| '0'));
        }
        all.append(digits.as_str());
        assert(all@ =~= padded(digits@, (scale + 1) as nat));
        let whole = width - scale;
        let mut text = all.as_str().substring_char(0, whole).to_owned();
        text.append(".");
        text.append(all.as_str().substring_char(whole, width));
        assert(text@ =~= all@.take(whole as int) + seq!['.'] + all@.skip(whole as int));
        text
    }

    /// Reads a frame rate from the text that writes it. `None` where `token`
    /// writes no decimal number, and where its digits, taken as one number,
    /// are above `u64::MAX`.
    pub fn parse(token: &[u8]) -> (rate: Option<FrameRate>)
        ensures
            rate is Some <==> decimal_written(token@) is Some && representable(
                decimal_written(token@)->0,
            ),
            rate is Some ==> rate->0@ == decimal_written(token@)->0,
    {
        let point = find_byte(token, POINT, 0);
        proof {
            lemma_next_byte(token@, POINT, 0);
        }
        if point >= token.len() {
            return match parse_number(token) {
                Some(mantissa) => Some(FrameRate { mantissa, scale: 0 }),
                None => None,
            };
        }
        let whole = slice_subrange(token, 0, point);
        let fraction = slice_subrange(token, point + 1, token.len());
        if !only_digits(whole) || !only_digits(fraction) {
            return None;
        }
        if whole.len() == 0 && fraction.len() == 0 {
            return None;
        }
        let scale: u8 = if fraction.len() > MAX_SCALE as usize {
            MAX_SCALE
        } else {
            fraction.len() as u8
        };
        let kept = slice_subrange(fraction, 0, scale as usize);
        assert(kept@ =~= kept_fraction(fraction@));
        let mut digits: Vec<u8> = Vec::new();
        append_bytes(&mut digits, whole);
        append_bytes(&mut digits, kept);
        assert(digits@ =~= whole@ + kept@);
        assert forall|i: int| 0 <= i < digits@.len() implies is_digit(#[trigger] digits@[i]) by {
            if i < whole@.len() {
                assert(digits@[i] == whole@[i]);
            } else {
                assert(digits@[i] == fraction@[i - whole@.len()]);
            }
        }
        match parse_number(digits.as_slice()) {
            Some(mantissa) => Some(FrameRate { mantissa, scale }),
            None => None,
        }
    }
}

} // verus!
