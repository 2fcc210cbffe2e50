//! Image formats and surface-format selection.
//!
//! Formats and color spaces are carried as their raw wire codes at the
//! target graphics API's fixed version, so the depth/stencil classification
//! and the format-selection policy are plain decidable functions.

use vstd::prelude::*;

verus! {

/// Raw format code of `D16_UNORM`.
pub const FORMAT_D16_UNORM: i32 = 124;

/// Raw format code of `X8_D24_UNORM_PACK32`.
pub const FORMAT_X8_D24_UNORM_PACK32: i32 = 125;

/// Raw format code of `D32_SFLOAT`.
pub const FORMAT_D32_SFLOAT: i32 = 126;

/// Raw format code of `S8_UINT`.
pub const FORMAT_S8_UINT: i32 = 127;

/// Raw format code of `D16_UNORM_S8_UINT`.
pub const FORMAT_D16_UNORM_S8_UINT: i32 = 128;

/// Raw format code of `D24_UNORM_S8_UINT`.
pub const FORMAT_D24_UNORM_S8_UINT: i32 = 129;

/// Raw format code of `D32_SFLOAT_S8_UINT`.
pub const FORMAT_D32_SFLOAT_S8_UINT: i32 = 130;

/// Raw code of the `SRGB_NONLINEAR` color space, the default presentation
/// color space.
pub const COLOR_SPACE_SRGB_NONLINEAR: u32 = 0;

/// Image-aspect bit for color images.
pub const ASPECT_COLOR: u32 = 0x1;

/// Image-aspect bit for depth images.
pub const ASPECT_DEPTH: u32 = 0x2;

/// Image-aspect bit for stencil images.
pub const ASPECT_STENCIL: u32 = 0x4;

/// The format carries a depth component.
pub open spec fn spec_is_depth_format(format: i32) -> bool {
    ||| format == FORMAT_D16_UNORM
    ||| format == FORMAT_D16_UNORM_S8_UINT
    ||| format == FORMAT_D24_UNORM_S8_UINT
    ||| format == FORMAT_D32_SFLOAT
    ||| format == FORMAT_D32_SFLOAT_S8_UINT
    ||| format == FORMAT_X8_D24_UNORM_PACK32
}

/// The format carries a stencil component.
pub open spec fn spec_is_stencil_format(format: i32) -> bool {
    ||| format == FORMAT_S8_UINT
    ||| format == FORMAT_D16_UNORM_S8_UINT
    ||| format == FORMAT_D24_UNORM_S8_UINT
    ||| format == FORMAT_D32_SFLOAT_S8_UINT
}

/// A format suitable for color presentation: neither depth nor stencil.
pub open spec fn spec_is_color_format(format: i32) -> bool {
    !spec_is_depth_format(format) && !spec_is_stencil_format(format)
}

/// Check if the image format is for a depth buffer.
pub fn is_depth_format(format: i32) -> (r: bool)
    ensures
        r == spec_is_depth_format(format),
{
    format == FORMAT_D16_UNORM || format == FORMAT_D16_UNORM_S8_UINT
        || format == FORMAT_D24_UNORM_S8_UINT || format == FORMAT_D32_SFLOAT
        || format == FORMAT_D32_SFLOAT_S8_UINT || format == FORMAT_X8_D24_UNORM_PACK32
}

/// Check if the image format is for a stencil buffer.
pub fn is_stencil_format(format: i32) -> (r: bool)
    ensures
        r == spec_is_stencil_format(format),
{
    format == FORMAT_S8_UINT || format == FORMAT_D16_UNORM_S8_UINT
        || format == FORMAT_D24_UNORM_S8_UINT || format == FORMAT_D32_SFLOAT_S8_UINT
}

/// The image-view aspect a format calls for: depth wins over stencil, every
/// other format is viewed as color.
pub fn image_aspect_for_format(format: i32) -> (r: u32)
    ensures
        r == if spec_is_depth_format(format) {
            ASPECT_DEPTH
        } else if spec_is_stencil_format(format) {
            ASPECT_STENCIL
        } else {
            ASPECT_COLOR
        },
{
    if is_depth_format(format) {
        ASPECT_DEPTH
    } else if is_stencil_format(format) {
        ASPECT_STENCIL
    } else {
        ASPECT_COLOR
    }
}

/// One supported surface format: a format code paired with a color space.
#[derive(Clone, Copy, Debug, PartialEq, Eq, Structural)]
pub struct SurfaceFormat {
    pub format: i32,
    pub color_space: u32,
}

/// First-pass match: the exact preferred format when one is named, any color
/// format otherwise, always at the wanted color space.
pub open spec fn format_matches_preference(
    f: SurfaceFormat,
    preferred_format: Option<i32>,
    color_space: u32,
) -> bool {
    (match preferred_format {
        Some(fmt) => f.format == fmt,
        None => spec_is_color_format(f.format),
    }) && f.color_space == color_space
}

/// The first listed format matching the preference, scanning in order.
pub open spec fn first_preferred_format(
    s: Seq<SurfaceFormat>,
    preferred_format: Option<i32>,
    color_space: u32,
) -> Option<SurfaceFormat>
    decreases s.len(),
{
    if s.len() == 0 {
        None
    } else if format_matches_preference(s[0], preferred_format, color_space) {
        Some(s[0])
    } else {
        first_preferred_format(s.drop_first(), preferred_format, color_space)
    }
}

/// The first listed color format, scanning in order.
pub open spec fn first_color_format(s: Seq<SurfaceFormat>) -> Option<SurfaceFormat>
    decreases s.len(),
{
    if s.len() == 0 {
        None
    } else if spec_is_color_format(s[0].format) {
        Some(s[0])
    } else {
        first_color_format(s.drop_first())
    }
}

/// The surface format a new swapchain uses, given the formats the surface
/// supports in their listed order: prefer an exact match of the requested
/// format (or, with no format requested, any color format) at the requested
/// color space, else fall back to the first color format; `None` only when
/// the surface lists no color format and the first pass found nothing.
pub open spec fn spec_choose_surface_format(
    s: Seq<SurfaceFormat>,
    preferred_format: Option<i32>,
    preferred_color_space: Option<u32>,
) -> Option<SurfaceFormat> {
    let cs = match preferred_color_space {
        Some(c) => c,
        None => COLOR_SPACE_SRGB_NONLINEAR,
    };
    match first_preferred_format(s, preferred_format, cs) {
        Some(f) => Some(f),
        None => first_color_format(s),
    }
}

/// Choose the surface format for a new swapchain.
#[verifier::loop_isolation(false)]
pub fn choose_surface_format(
    supported_formats: &Vec<SurfaceFormat>,
    preferred_format: Option<i32>,
    preferred_color_space: Option<u32>,
) -> (r: Option<SurfaceFormat>)
    ensures
        r == spec_choose_surface_format(
            supported_formats@,
            preferred_format,
            preferred_color_space,
        ),
{
    let cs = match preferred_color_space {
        Some(c) => c,
        None => COLOR_SPACE_SRGB_NONLINEAR,
    };
    let mut j: usize = 0;
    while j < supported_formats.len()
        invariant
            j <= supported_formats@.len(),
            forall|k: int|
                0 <= k < j ==> !format_matches_preference(
                    #[trigger] supported_formats@[k],
                    preferred_format,
                    cs,
                ),
        decreases supported_formats@.len() - j,
    {
        let f = supported_formats[j];
        let matches_format = match preferred_format {
            Some(fmt) => f.format == fmt,
            None => is_depth_format(f.format) == false && is_stencil_format(f.format) == false,
        };
        if matches_format && f.color_space == cs {
            proof {
                lemma_first_preferred_found(supported_formats@, preferred_format, cs, j as int);
            }
            return Some(f);
        }
        j += 1;
    }
    proof {
        lemma_first_preferred_none(supported_formats@, preferred_format, cs);
    }
    let mut j: usize = 0;
    while j < supported_formats.len()
        invariant
            j <= supported_formats@.len(),
            forall|k: int|
                0 <= k < j ==> !spec_is_color_format(#[trigger] supported_formats@[k].format),
        decreases supported_formats@.len() - j,
    {
        let f = supported_formats[j];
        if !is_depth_format(f.format) && !is_stencil_format(f.format) {
            proof {
                lemma_first_color_found(supported_formats@, j as int);
            }
            return Some(f);
        }
        j += 1;
    }
    proof {
        lemma_first_color_none(supported_formats@);
    }
    None
}

/// The scan position of the first preference match determines the spec's
/// answer.
proof fn lemma_first_preferred_found(
    s: Seq<SurfaceFormat>,
    preferred_format: Option<i32>,
    color_space: u32,
    j: int,
)
    requires
        0 <= j < s.len(),
        format_matches_preference(s[j], preferred_format, color_space),
        forall|k: int|
            0 <= k < j ==> !format_matches_preference(#[trigger] s[k], preferred_format,
            color_space),
    ensures
        first_preferred_format(s, preferred_format, color_space) == Some(s[j]),
    decreases j,
{
    if j > 0 {
        assert(forall|k: int| 0 <= k < s.drop_first().len() ==> #[trigger] s.drop_first()[k] == s[
            k + 1
        ]);
        lemma_first_preferred_found(s.drop_first(), preferred_format, color_space, j - 1);
    }
}

/// With no element matching the preference, the first pass finds nothing.
proof fn lemma_first_preferred_none(
    s: Seq<SurfaceFormat>,
    preferred_format: Option<i32>,
    color_space: u32,
)
    requires
        forall|k: int|
            0 <= k < s.len() ==> !format_matches_preference(#[trigger] s[k], preferred_format,
            color_space),
    ensures
        first_preferred_format(s, preferred_format, color_space) is None,
    decreases s.len(),
{
    if s.len() > 0 {
        assert(forall|k: int| 0 <= k < s.drop_first().len() ==> #[trigger] s.drop_first()[k] == s[
            k + 1
        ]);
        lemma_first_preferred_none(s.drop_first(), preferred_format, color_space);
    }
}

/// The scan position of the first color format determines the spec's answer.
proof fn lemma_first_color_found(s: Seq<SurfaceFormat>, j: int)
    requires
        0 <= j < s.len(),
        spec_is_color_format(s[j].format),
        forall|k: int| 0 <= k < j ==> !spec_is_color_format(#[trigger] s[k].format),
    ensures
        first_color_format(s) == Some(s[j]),
    decreases j,
{
    if j > 0 {
        assert(forall|k: int| 0 <= k < s.drop_first().len() ==> #[trigger] s.drop_first()[k] == s[
            k + 1
        ]);
        lemma_first_color_found(s.drop_first(), j - 1);
    }
}

/// With no color format listed, the fallback finds nothing.
proof fn lemma_first_color_none(s: Seq<SurfaceFormat>)
    requires
        forall|k: int| 0 <= k < s.len() ==> !spec_is_color_format(#[trigger] s[k].format),
    ensures
        first_color_format(s) is None,
    decreases s.len(),
{
    if s.len() > 0 {
        assert(forall|k: int| 0 <= k < s.drop_first().len() ==> #[trigger] s.drop_first()[k] == s[
            k + 1
        ]);
        lemma_first_color_none(s.drop_first());
    }
}

} // verus!
