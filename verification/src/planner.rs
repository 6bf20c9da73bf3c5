//! How many frames the interpolation is to produce.
//!
//! DAIN renders the frames that the source's duration takes at the target
//! rate: `frames / source * target`, rounded to the nearest whole number, a
//! half upwards. RIFE doubles the frames it is given, whatever the rates. A
//! count is held in 32 bits; one that is larger is planned as the largest.

use crate::framework::{framework_named, Framework};
use crate::rate::{Decimal, FrameRate, MAX_SCALE};
use vstd::arithmetic::div_mod::{
    lemma_div_is_ordered, lemma_div_multiples_vanish, lemma_div_multiples_vanish_quotient,
    lemma_fundamental_div_mod, lemma_fundamental_div_mod_converse_div,
};
use vstd::prelude::*;

verus! {

/// Ten to the power `exponent`.
pub open spec fn pow10(exponent: nat) -> nat
    decreases exponent,
{
    if exponent == 0 {
        1
    } else {
        10 * pow10((exponent - 1) as nat)
    }
}

/// `num / den` rounded to the nearest whole number, a half upwards.
pub open spec fn rounded_quotient(num: nat, den: nat) -> nat {
    (2 * num + den) / (2 * den)
}

/// The frames that `frames` source frames become when a video at the rate
/// `source` is brought to the rate `target`: `frames / source * target`,
/// rounded. With the rates written as `a / 10^p` and `b / 10^q` this is the
/// quotient of `frames * b * 10^p` by `a * 10^q`.
pub open spec fn retimed_frames(source: Decimal, frames: nat, target: Decimal) -> nat {
    rounded_quotient(
        frames * target.mantissa * pow10(source.scale),
        source.mantissa * pow10(target.scale),
    )
}

/// A frame count as its type holds it: the count itself, or the largest
/// count where it is above that.
pub open spec fn counted(frames: nat) -> u32 {
    if frames <= u32::MAX {
        frames as u32
    } else {
        u32::MAX
    }
}

/// What DAIN's count comes to where the source's rate is zero, so that the
/// source has no duration to speak of: no frames or no target rate give the
/// count zero, anything else is beyond every count and gives the largest.
pub open spec fn unbounded(frames: nat, target: Decimal) -> u32 {
    if frames * target.mantissa == 0 {
        0
    } else {
        u32::MAX
    }
}

/// The number of frames that the interpolation is to produce.
pub open spec fn planned(source: Decimal, frames: nat, target: Decimal, framework: Framework)
    -> u32 {
    match framework {
        Framework::Dain => if source.mantissa == 0 {
            unbounded(frames, target)
        } else {
            counted(retimed_frames(source, frames, target))
        },
        Framework::Rife => counted(2 * frames),
    }
}

/// Rounding splits into the whole quotient and a step upwards where the
/// remainder is at least half the divisor.
pub proof fn lemma_rounded_quotient(num: nat, den: nat)
    requires
        den > 0,
    ensures
        rounded_quotient(num, den) == num / den + if 2 * (num % den) >= den {
            1nat
        } else {
            0nat
        },
{
    let whole = (num / den) as int;
    let rest = (num % den) as int;
    lemma_fundamental_div_mod(num as int, den as int);
    assert(0 <= rest < den);
    assert(2 * (den * whole) == (2 * den) * whole) by (nonlinear_arith);
    if 2 * rest >= den {
        assert(2 * num + den == (whole + 1) * (2 * den) + (2 * rest - den)) by (nonlinear_arith)
            requires
                num == den * whole + rest,
        ;
        lemma_fundamental_div_mod_converse_div(
            (2 * num + den) as int,
            (2 * den) as int,
            whole + 1,
            2 * rest - den,
        );
    } else {
        assert(2 * num + den == whole * (2 * den) + (2 * rest + den)) by (nonlinear_arith)
            requires
                num == den * whole + rest,
        ;
        lemma_fundamental_div_mod_converse_div(
            (2 * num + den) as int,
            (2 * den) as int,
            whole,
            2 * rest + den,
        );
    }
}

/// The rounded quotient is the whole number nearest to `num / den`, the upper
/// one of two that are equally near: it lies within a half of the quotient,
/// below it by no more than a half and above it by less.
pub proof fn law_rounded_quotient_is_nearest(num: nat, den: nat)
    requires
        den > 0,
    ensures
        2 * den * rounded_quotient(num, den) <= 2 * num + den,
        2 * num + den < 2 * den * (rounded_quotient(num, den) + 1),
{
    let rounded = rounded_quotient(num, den) as int;
    let shifted = (2 * num + den) as int;
    let twice = (2 * den) as int;
    lemma_fundamental_div_mod(shifted, twice);
    assert(0 <= shifted % twice < twice);
    assert(twice * (rounded + 1) == twice * rounded + twice) by (nonlinear_arith);
}

/// A zero more behind the point changes no rate, and so no count: `25` and
/// `25.0` give the same frames, as a source rate and as a target rate.
pub proof fn law_count_goes_by_value(source: Decimal, frames: nat, target: Decimal)
    requires
        source.mantissa > 0,
    ensures
        retimed_frames(
            Decimal { mantissa: 10 * source.mantissa, scale: source.scale + 1 },
            frames,
            target,
        ) == retimed_frames(source, frames, target),
        retimed_frames(
            source,
            frames,
            Decimal { mantissa: 10 * target.mantissa, scale: target.scale + 1 },
        ) == retimed_frames(source, frames, target),
{
    let num = frames * target.mantissa * pow10(source.scale);
    let den = source.mantissa * pow10(target.scale);
    lemma_pow10_positive(target.scale);
    assert(den > 0) by (nonlinear_arith)
        requires
            den == source.mantissa * pow10(target.scale),
            source.mantissa > 0,
            pow10(target.scale) > 0,
    ;
    assert(frames * target.mantissa * pow10(source.scale + 1) == 10 * num) by (nonlinear_arith)
        requires
            num == frames * target.mantissa * pow10(source.scale),
            pow10(source.scale + 1) == 10 * pow10(source.scale),
    ;
    assert((10 * source.mantissa) * pow10(target.scale) == 10 * den) by (nonlinear_arith)
        requires
            den == source.mantissa * pow10(target.scale),
    ;
    assert(frames * (10 * target.mantissa) * pow10(source.scale) == 10 * num) by (nonlinear_arith)
        requires
            num == frames * target.mantissa * pow10(source.scale),
    ;
    assert(source.mantissa * pow10(target.scale + 1) == 10 * den) by (nonlinear_arith)
        requires
            den == source.mantissa * pow10(target.scale),
            pow10(target.scale + 1) == 10 * pow10(target.scale),
    ;
    lemma_div_multiples_vanish_quotient(10, (2 * num + den) as int, (2 * den) as int);
    assert(2 * (10 * num) + 10 * den == 10 * (2 * num + den));
    assert(2 * (10 * den) == 10 * (2 * den));
}

/// A power of ten is above zero.
proof fn lemma_pow10_positive(exponent: nat)
    ensures
        pow10(exponent) > 0,
    decreases exponent,
{
    if exponent > 0 {
        lemma_pow10_positive((exponent - 1) as nat);
    }
}

/// With a source rate above zero, DAIN's count is the rounded value of
/// `frames / source * target`, for every frame count and every target rate,
/// as long as it fits the count's type.
pub proof fn law_dain_retimes(source: Decimal, frames: nat, target: Decimal)
    requires
        source.mantissa > 0,
        retimed_frames(source, frames, target) <= u32::MAX,
    ensures
        planned(source, frames, target, Framework::Dain) == retimed_frames(
            source,
            frames,
            target,
        ),
{
}

/// A source rate of zero fails no plan. DAIN's count is then zero where there
/// are no frames or no target rate, and the largest count otherwise, never a
/// count in between.
pub proof fn law_zero_rate_plans(source: Decimal, frames: nat, target: Decimal)
    requires
        source.mantissa == 0,
    ensures
        frames == 0 || target.mantissa == 0 ==> planned(source, frames, target, Framework::Dain)
            == 0,
        frames > 0 && target.mantissa > 0 ==> planned(source, frames, target, Framework::Dain)
            == u32::MAX,
{
    if frames > 0 && target.mantissa > 0 {
        assert(frames * target.mantissa > 0) by (nonlinear_arith)
            requires
                frames > 0,
                target.mantissa > 0,
        ;
    } else {
        assert(frames * target.mantissa == 0) by (nonlinear_arith)
            requires
                frames == 0 || target.mantissa == 0,
        ;
    }
}

/// RIFE's count is twice the source's frames, whatever the two rates are.
pub proof fn law_rife_doubles(
    source: Decimal,
    target: Decimal,
    other_source: Decimal,
    other_target: Decimal,
    frames: nat,
)
    ensures
        planned(source, frames, target, Framework::Rife) == planned(
            other_source,
            frames,
            other_target,
            Framework::Rife,
        ),
        2 * frames <= u32::MAX ==> planned(source, frames, target, Framework::Rife) == 2
            * frames,
        2 * frames > u32::MAX ==> planned(source, frames, target, Framework::Rife) == u32::MAX,
{
}

/// The largest power of ten that scales a frame rate.
pub const MAX_POWER: u64 = 1_000_000_000;

/// Ten to the power `exponent`, for the scales of a frame rate.
fn power_of_ten(exponent: u8) -> (power: u64)
    requires
        exponent <= MAX_SCALE,
    ensures
        power == pow10(exponent as nat),
        1 <= power <= MAX_POWER,
{
    proof {
        reveal_with_fuel(pow10, 10);
    }
    match exponent {
        0 => 1,
        1 => 10,
        2 => 100,
        3 => 1_000,
        4 => 10_000,
        5 => 100_000,
        6 => 1_000_000,
        7 => 10_000_000,
        8 => 100_000_000,
        _ => 1_000_000_000,
    }
}

/// A quotient is at least as large as a factor by which the dividend exceeds
/// the divisor.
proof fn lemma_quotient_at_least(num: nat, den: nat, factor: nat)
    requires
        den > 0,
        num >= den * factor,
    ensures
        num / den >= factor,
{
    lemma_div_multiples_vanish(factor as int, den as int);
    lemma_div_is_ordered((den * factor) as int, num as int, den as int);
}

/// DAIN's frame count: `frames / source * target`, rounded.
fn retime(source: FrameRate, frames: usize, target: FrameRate) -> (count: u32)
    ensures
        count == planned(source@, frames as nat, target@, Framework::Dain),
{
    let per_second = source.mantissa();
    let wanted = target.mantissa();
    if per_second == 0 {
        assert(frames * wanted == 0 <==> frames == 0 || wanted == 0) by (nonlinear_arith);
        return if frames == 0 || wanted == 0 {
            0
        } else {
            u32::MAX
        };
    }
    let up = power_of_ten(source.scale());
    let down = power_of_ten(target.scale());
    assert(per_second * down <= 0xffff_ffff_ffff_ffff * 1_000_000_000) by (nonlinear_arith)
        requires
            per_second <= 0xffff_ffff_ffff_ffff,
            down <= 1_000_000_000,
    ;
    let den: u128 = per_second as u128 * down as u128;
    assert(den > 0) by (nonlinear_arith)
        requires
            den == per_second * down,
            per_second > 0,
            down > 0,
    ;
    assert(frames * wanted <= 0xffff_ffff_ffff_ffff * 0xffff_ffff_ffff_ffff) by (nonlinear_arith)
        requires
            frames <= 0xffff_ffff_ffff_ffff,
            wanted <= 0xffff_ffff_ffff_ffff,
    ;
    let scaled: u128 = frames as u128 * wanted as u128;
    let ghost exact = retimed_frames(source@, frames as nat, target@);
    proof {
        lemma_rounded_quotient((scaled * up) as nat, den as nat);
    }
    match scaled.checked_mul(up as u128) {
        None => {
            proof {
                assert(den * 0x1_0000_0000 <= scaled * up) by (nonlinear_arith)
                    requires
                        den <= 0xffff_ffff_ffff_ffff * 1_000_000_000,
                        scaled * up > u128::MAX,
                ;
                lemma_quotient_at_least((scaled * up) as nat, den as nat, 0x1_0000_0000);
            }
            u32::MAX
        },
        Some(num) => {
            let whole = num / den;
            let rest = num % den;
            if whole > u32::MAX as u128 {
                return u32::MAX;
            }
            let rounded = if rest >= den - rest {
                whole + 1
            } else {
                whole
            };
            if rounded > u32::MAX as u128 {
                u32::MAX
            } else {
                rounded as u32
            }
        },
    }
}

/// Plans the number of frames that the interpolation is to produce from
/// `framecount` source frames at the rate `fps`. For DAIN it is the rounded
/// value of `framecount / fps * target_framerate`; where `fps` is zero it is
/// zero or the largest count. For RIFE it is twice `framecount`, and the
/// rates are not looked at. A count above `u32::MAX` is planned as `u32::MAX`.
pub fn calculate_frame_count(
    fps: FrameRate,
    framecount: usize,
    target_framerate: FrameRate,
    framework: Framework,
) -> (count: u32)
    ensures
        count == planned(fps@, framecount as nat, target_framerate@, framework),
{
    match framework {
        Framework::Dain => retime(fps, framecount, target_framerate),
        Framework::Rife => {
            if framecount <= 0x7fff_ffff {
                (framecount * 2) as u32
            } else {
                u32::MAX
            }
        },
    }
}

/// The planned count for an engine given by name; for a name that is no
/// engine's the count is zero.
pub open spec fn planned_for_name(
    source: Decimal,
    frames: nat,
    target: Decimal,
    name: Seq<char>,
) -> u32 {
    match framework_named(name) {
        Some(framework) => planned(source, frames, target, framework),
        None => 0,
    }
}

/// Plans the frame count for the engine that `framework` names. A name that is
/// no engine's gives the count zero: it is for the caller to turn such a name
/// away before anything runs.
pub fn calculate_frame_count_for(
    fps: FrameRate,
    framecount: usize,
    target_framerate: FrameRate,
    framework: &str,
) -> (count: u32)
    ensures
        count == planned_for_name(fps@, framecount as nat, target_framerate@, framework@),
{
    match Framework::from_name(framework) {
        Some(known) => calculate_frame_count(fps, framecount, target_framerate, known),
        None => 0,
    }
}

} // verus!
