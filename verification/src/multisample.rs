//! Multisample support query: choose the richest sample count that is both
//! requested and supported, together with the image description to allocate.
//!
//! Sample counts are bitmasks with one bit per power-of-two count.  The
//! query intersects the requested set with the set the device supports for
//! the format and picks the highest common bit; requesting only the
//! single-sample count, or having no common bit, yields no multisample
//! target at all.

use vstd::prelude::*;

verus! {

/// Sample-count bit for one sample per pixel.
pub const SAMPLE_COUNT_1: u32 = 0x1;

/// Sample-count bit for two samples per pixel.
pub const SAMPLE_COUNT_2: u32 = 0x2;

/// Sample-count bit for four samples per pixel.
pub const SAMPLE_COUNT_4: u32 = 0x4;

/// Sample-count bit for eight samples per pixel.
pub const SAMPLE_COUNT_8: u32 = 0x8;

/// Image-usage bit for color attachments.
pub const USAGE_COLOR_ATTACHMENT: u32 = 0x10;

/// Image-usage bit for transient attachments.
pub const USAGE_TRANSIENT_ATTACHMENT: u32 = 0x40;

/// Description of the multisample image to create: dimensions and mip count
/// of the presentation images, the chosen sample-count bit, and the usage
/// the caller asked for.
#[derive(Clone, Copy, Debug, PartialEq, Eq, Structural)]
pub struct ImageDescription {
    pub format: i32,
    pub width: u32,
    pub height: u32,
    pub mip_levels: u32,
    pub samples: u32,
    pub usage: u32,
}

/// The highest set bit of `x` as a value (the largest power of two not
/// exceeding `x`); zero for zero.
pub open spec fn spec_high_bit(x: u32) -> nat
    decreases x,
{
    if x <= 1 {
        x as nat
    } else {
        2 * spec_high_bit(x / 2)
    }
}

/// A power of two.
pub open spec fn spec_is_pow2(n: nat) -> bool
    decreases n,
{
    if n == 0 {
        false
    } else if n == 1 {
        true
    } else {
        n % 2 == 0 && spec_is_pow2(n / 2)
    }
}

/// The high bit lies in `(x/2, x]`, so it is the largest power of two not
/// exceeding `x`.
pub proof fn lemma_high_bit_bounds(x: u32)
    requires
        x > 0,
    ensures
        1 <= spec_high_bit(x) <= x,
        x < 2 * spec_high_bit(x),
        spec_is_pow2(spec_high_bit(x)),
    decreases x,
{
    if x > 1 {
        lemma_high_bit_bounds(x / 2);
    }
}

/// The high bit is a set bit of `x`.
pub proof fn lemma_high_bit_set(x: u32)
    requires
        x > 0,
    ensures
        x & (spec_high_bit(x) as u32) == spec_high_bit(x) as u32,
    decreases x,
{
    lemma_high_bit_bounds(x);
    if x <= 1 {
        assert(1u32 & 1u32 == 1u32) by (bit_vector);
    } else {
        lemma_high_bit_set(x / 2);
        lemma_high_bit_bounds(x / 2);
        let h = spec_high_bit(x / 2) as u32;
        let h2 = (2 * spec_high_bit(x / 2)) as u32;
        assert(h2 == h + h);
        assert(x / 2 == x >> 1u32) by (bit_vector);
        assert(((x >> 1u32) & h == h && h < 0x8000_0000u32 && h2 == h + h) ==> x & h2 == h2)
            by (bit_vector);
    }
}

/// Among powers of two, a strictly smaller one is at most half the larger.
proof fn lemma_pow2_ordering(a: nat, b: nat)
    requires
        spec_is_pow2(a),
        spec_is_pow2(b),
        a < b,
    ensures
        2 * a <= b,
    decreases b,
{
    if a == 1 {
    } else {
        lemma_pow2_ordering(a / 2, b / 2);
    }
}

/// Any power-of-two bit set in `x` is at most the high bit: the chosen
/// sample count really is the highest common bit.
pub proof fn lemma_high_bit_is_highest(x: u32, b: u32)
    requires
        x > 0,
        spec_is_pow2(b as nat),
        x & b == b,
    ensures
        b as nat <= spec_high_bit(x),
{
    lemma_high_bit_bounds(x);
    assert(x & b == b ==> b <= x) by (bit_vector);
    if (b as nat) > spec_high_bit(x) {
        lemma_pow2_ordering(spec_high_bit(x), b as nat);
    }
}

/// Compute the highest set bit of a non-empty mask.
pub fn high_bit(x: u32) -> (r: u32)
    requires
        x > 0,
    ensures
        r as nat == spec_high_bit(x),
{
    proof {
        lemma_high_bit_bounds(x);
    }
    let mut b: u32 = x;
    let mut r: u32 = 1;
    while b > 1
        invariant
            1 <= b,
            spec_high_bit(x) == r as nat * spec_high_bit(b),
            spec_high_bit(x) <= x,
        decreases b,
    {
        proof {
            lemma_high_bit_bounds(b);
            lemma_high_bit_bounds(b / 2);
            assert(spec_high_bit(b) == 2 * spec_high_bit(b / 2));
            assert(r as nat * (2 * spec_high_bit(b / 2)) == (2 * r as nat) * spec_high_bit(b / 2))
                by (nonlinear_arith);
            assert(r as nat * spec_high_bit(b) >= r as nat * 2) by (nonlinear_arith)
                requires
                    spec_high_bit(b) >= 2,
            ;
        }
        r = r * 2;
        b = b / 2;
    }
    proof {
        assert(spec_high_bit(b) == 1);
        assert(r as nat * 1 == r as nat) by (nonlinear_arith);
    }
    r
}

/// The sample count the query picks really is the highest common bit: it is
/// a power-of-two bit of both the requested and the supported set, and no
/// common power-of-two bit exceeds it.
pub proof fn lemma_multisample_choice_is_highest_common(samples: u32, supported_samples: u32)
    requires
        samples & supported_samples != 0,
    ensures
        ({
            let common = samples & supported_samples;
            let chosen = spec_high_bit(common) as u32;
            &&& common & chosen == chosen
            &&& spec_is_pow2(chosen as nat)
            &&& forall|b: u32|
                spec_is_pow2(b as nat) && common & b == b ==> b as nat <= chosen as nat
        }),
{
    let common = samples & supported_samples;
    lemma_high_bit_bounds(common);
    lemma_high_bit_set(common);
    assert forall|b: u32| spec_is_pow2(b as nat) && common & b == b implies b as nat
        <= spec_high_bit(common) by {
        lemma_high_bit_is_highest(common, b);
    }
}

/// The multisample decision: nothing for a single-sample or empty request,
/// nothing when request and support share no bit, otherwise the image
/// description carrying the highest common sample-count bit.
pub open spec fn spec_query_multisample(
    samples: u32,
    supported_samples: u32,
    format: i32,
    width: u32,
    height: u32,
    mip_levels: u32,
    usage: u32,
) -> Option<ImageDescription> {
    if samples == 0 || samples == SAMPLE_COUNT_1 {
        None
    } else if samples & supported_samples == 0 {
        None
    } else {
        Some(
            ImageDescription {
                format,
                width,
                height,
                mip_levels,
                samples: spec_high_bit(samples & supported_samples) as u32,
                usage,
            },
        )
    }
}

/// Query whether a multisample target should be created.  `samples` is the
/// requested sample-count set, `supported_samples` the set the device
/// reports for the format and usage; the remaining arguments describe the
/// image to allocate.  Requesting only single-sampling always returns
/// `None`; otherwise the highest sample-count bit both requested and
/// supported wins, and `None` is returned when there is none.
pub fn query_multisample_support(
    samples: u32,
    supported_samples: u32,
    format: i32,
    width: u32,
    height: u32,
    mip_levels: u32,
    usage: u32,
) -> (r: Option<ImageDescription>)
    ensures
        r == spec_query_multisample(
            samples,
            supported_samples,
            format,
            width,
            height,
            mip_levels,
            usage,
        ),
        samples == 0 || samples == SAMPLE_COUNT_1 ==> r is None,
{
    if samples == 0 || samples == SAMPLE_COUNT_1 {
        return None;
    }
    let inter = samples & supported_samples;
    if inter == 0 {
        return None;
    }
    let chosen = high_bit(inter);
    proof {
        lemma_high_bit_bounds(inter);
    }
    Some(ImageDescription { format, width, height, mip_levels, samples: chosen, usage })
}

} // verus!
