//! Surface capabilities and the swapchain configuration decisions: present
//! mode, image count, composite alpha, extent, and the assembled plan.

use vstd::prelude::*;

use crate::format::SurfaceFormat;
use crate::format::spec_choose_surface_format;
use crate::format::choose_surface_format;

verus! {

/// A two-dimensional pixel extent.
#[derive(Clone, Copy, Debug, PartialEq, Eq, Structural)]
pub struct Extent {
    pub width: u32,
    pub height: u32,
}

/// The presentation policies a surface can offer.  `Other` carries the raw
/// code of a mode this engine assigns no canonical image count.
#[derive(Clone, Copy, Debug, PartialEq, Eq, Structural)]
pub enum PresentMode {
    Immediate,
    Mailbox,
    Fifo,
    FifoRelaxed,
    Other(u32),
}

/// What a surface reports about itself: image-count bounds (zero maximum
/// meaning unbounded), the current/minimum/maximum extents, and whether it
/// supports post-multiplied alpha blending.
#[derive(Clone, Copy, Debug, PartialEq, Eq, Structural)]
pub struct SurfaceCapabilities {
    pub min_image_count: u32,
    pub max_image_count: u32,
    pub current_extent: Extent,
    pub min_image_extent: Extent,
    pub max_image_extent: Extent,
    pub supports_post_multiplied_alpha: bool,
}

impl SurfaceCapabilities {
    /// Bounds a surface is guaranteed to report: ordered extent bounds and
    /// ordered image-count bounds whenever a maximum exists.
    pub open spec fn wf(&self) -> bool {
        &&& self.min_image_extent.width <= self.max_image_extent.width
        &&& self.min_image_extent.height <= self.max_image_extent.height
        &&& (self.max_image_count != 0 ==> self.min_image_count <= self.max_image_count)
    }
}

/// Soft preferences for the image and behavior used with a new swapchain.
#[derive(Clone, Copy, Debug, PartialEq, Eq, Structural)]
pub struct SwapchainPreferences {
    pub format: Option<i32>,
    pub color_space: Option<u32>,
    pub present_mode: Option<PresentMode>,
    pub color_samples: Option<u32>,
    /// The preferred extent to use if and only if the surface wants the
    /// caller to specify an extent to use.
    pub preferred_extent: Option<Extent>,
}

impl Default for SwapchainPreferences {
    /// No preference at all: every decision falls to the surface's defaults.
    fn default() -> (r: Self)
        ensures
            r == (SwapchainPreferences {
                format: None::<i32>,
                color_space: None::<u32>,
                present_mode: None::<PresentMode>,
                color_samples: None::<u32>,
                preferred_extent: None::<Extent>,
            }),
    {
        SwapchainPreferences {
            format: None,
            color_space: None,
            present_mode: None,
            color_samples: None,
            preferred_extent: None,
        }
    }
}

/// Composite-alpha bit for opaque composition.
pub const COMPOSITE_ALPHA_OPAQUE: u32 = 0x1;

/// Composite-alpha bit for post-multiplied blending.
pub const COMPOSITE_ALPHA_POST_MULTIPLIED: u32 = 0x4;

/// The canonical image count of a present mode: one image for immediate
/// presentation, three for the vsynced and low-latency modes, nothing for
/// modes this engine does not size.
pub open spec fn spec_canonical_image_count(mode: PresentMode) -> Option<u32> {
    match mode {
        PresentMode::Immediate => Some(1u32),
        PresentMode::Mailbox => Some(3u32),
        PresentMode::Fifo => Some(3u32),
        PresentMode::FifoRelaxed => Some(3u32),
        PresentMode::Other(..) => None,
    }
}

/// The present mode a new swapchain uses, with its canonical image count:
/// the preferred mode (default FIFO) when the surface supports it and the
/// engine can size it, else FIFO with three images.
pub open spec fn spec_choose_present_mode(
    supported_modes: Seq<PresentMode>,
    preferred: Option<PresentMode>,
) -> (PresentMode, u32) {
    let pref = match preferred {
        Some(p) => p,
        None => PresentMode::Fifo,
    };
    if supported_modes.contains(pref) {
        match spec_canonical_image_count(pref) {
            Some(count) => (pref, count),
            None => (PresentMode::Fifo, 3u32),
        }
    } else {
        (PresentMode::Fifo, 3u32)
    }
}

/// Choose the present mode and its canonical image count.
pub fn choose_present_mode(
    supported_modes: &Vec<PresentMode>,
    preferred: Option<PresentMode>,
) -> (r: (PresentMode, u32))
    ensures
        r == spec_choose_present_mode(supported_modes@, preferred),
{
    let pref = match preferred {
        Some(p) => p,
        None => PresentMode::Fifo,
    };
    let mut supported = false;
    let mut j: usize = 0;
    while j < supported_modes.len()
        invariant
            j <= supported_modes@.len(),
            supported == exists|k: int| 0 <= k < j && supported_modes@[k] == pref,
        decreases supported_modes@.len() - j,
    {
        if supported_modes[j] == pref {
            supported = true;
        }
        j += 1;
    }
    proof {
        assert(supported == supported_modes@.contains(pref));
    }
    if supported {
        match pref {
            PresentMode::Immediate => (pref, 1),
            PresentMode::Mailbox => (pref, 3),
            PresentMode::Fifo => (pref, 3),
            PresentMode::FifoRelaxed => (pref, 3),
            PresentMode::Other(..) => (PresentMode::Fifo, 3),
        }
    } else {
        (PresentMode::Fifo, 3)
    }
}

/// An image count clamped into a surface's bounds; a zero maximum means the
/// surface names no upper bound.
pub open spec fn spec_clamp_image_count(count: u32, min_images: u32, max_images: u32) -> u32 {
    if count < min_images {
        min_images
    } else if max_images != 0 && count > max_images {
        max_images
    } else {
        count
    }
}

/// Clamp an image count into the bounds a surface reports.
pub fn clamp_image_count(count: u32, min_images: u32, max_images: u32) -> (r: u32)
    ensures
        r == spec_clamp_image_count(count, min_images, max_images),
{
    if count < min_images {
        min_images
    } else if max_images != 0 && count > max_images {
        max_images
    } else {
        count
    }
}

/// The composite-alpha mode a new swapchain uses: post-multiplied blending
/// when the surface advertises it, opaque otherwise.
pub fn choose_composite_alpha(supports_post_multiplied: bool) -> (r: u32)
    ensures
        r == if supports_post_multiplied {
            COMPOSITE_ALPHA_POST_MULTIPLIED
        } else {
            COMPOSITE_ALPHA_OPAQUE
        },
{
    if supports_post_multiplied {
        COMPOSITE_ALPHA_POST_MULTIPLIED
    } else {
        COMPOSITE_ALPHA_OPAQUE
    }
}

/// The sentinel extent by which a surface signals that the application must
/// choose the extent itself.
pub open spec fn spec_is_special_extent(e: Extent) -> bool {
    e.width == u32::MAX && e.height == u32::MAX
}

/// Whether the surface reported the "caller decides" sentinel extent.
pub fn is_special_surface_extent(e: &Extent) -> (r: bool)
    ensures
        r == spec_is_special_extent(*e),
{
    e.width == u32::MAX && e.height == u32::MAX
}

/// A value clamped into an inclusive range.
pub open spec fn spec_clamp(v: u32, lo: u32, hi: u32) -> u32 {
    if v < lo {
        lo
    } else if v > hi {
        hi
    } else {
        v
    }
}

/// The extent a new swapchain uses: the surface's current extent, or — when
/// the surface leaves the choice to the caller — the preferred extent or
/// else the surface minimum; always clamped into the surface bounds.
pub open spec fn spec_choose_extent(caps: SurfaceCapabilities, preferred: Option<Extent>) -> Extent {
    let base = if spec_is_special_extent(caps.current_extent) {
        match preferred {
            Some(e) => e,
            None => caps.min_image_extent,
        }
    } else {
        caps.current_extent
    };
    Extent {
        width: spec_clamp(base.width, caps.min_image_extent.width, caps.max_image_extent.width),
        height: spec_clamp(
            base.height,
            caps.min_image_extent.height,
            caps.max_image_extent.height,
        ),
    }
}

/// Choose the extent of a new swapchain.
pub fn choose_extent(caps: &SurfaceCapabilities, preferred: Option<Extent>) -> (r: Extent)
    ensures
        r == spec_choose_extent(*caps, preferred),
{
    let base = if is_special_surface_extent(&caps.current_extent) {
        match preferred {
            Some(e) => e,
            None => caps.min_image_extent,
        }
    } else {
        caps.current_extent
    };
    let width = if base.width < caps.min_image_extent.width {
        caps.min_image_extent.width
    } else if base.width > caps.max_image_extent.width {
        caps.max_image_extent.width
    } else {
        base.width
    };
    let height = if base.height < caps.min_image_extent.height {
        caps.min_image_extent.height
    } else if base.height > caps.max_image_extent.height {
        caps.max_image_extent.height
    } else {
        base.height
    };
    Extent { width, height }
}

/// The number of frame-in-flight slots for a given image count: one per
/// image but never fewer than two, so a new frame can be recorded while
/// another retires even on a single-image swapchain.
pub fn frames_in_flight_count(image_count: u32) -> (r: usize)
    ensures
        r >= 2,
        r == if image_count < 2 {
            2int
        } else {
            image_count as int
        },
{
    if image_count < 2 {
        2
    } else {
        image_count as usize
    }
}

/// Configuration errors that end swapchain creation before any resource
/// exists.
#[derive(Clone, Copy, Debug, PartialEq, Eq, Structural)]
pub enum SwapchainConfigError {
    /// The surface lists no color format usable for presentation.
    NoSuitableFormat,
    /// The surface reports a zero-sized maximum extent (a minimized window):
    /// creation would be invalid until the surface is usable again.
    ZeroSurfaceExtent,
}

/// Everything decided before any swapchain resource is created.
#[derive(Clone, Copy, Debug, PartialEq, Eq, Structural)]
pub struct SwapchainPlan {
    pub present_mode: PresentMode,
    pub image_count: u32,
    pub format: i32,
    pub color_space: u32,
    pub composite_alpha: u32,
    pub extent: Extent,
    pub frames_in_flight: usize,
}

/// Assemble the full swapchain configuration from what the surface reports
/// and what the caller prefers.  `mode_image_bounds` carries the per-mode
/// image-count bounds when the extended-surface-capabilities path is
/// available for the chosen mode; otherwise the surface's global bounds
/// clamp the count.  Fails with `NoSuitableFormat` when the surface lists no
/// usable format, and with `ZeroSurfaceExtent` when the surface's maximum
/// extent has a zero side.
pub fn plan_swapchain(
    caps: &SurfaceCapabilities,
    supported_modes: &Vec<PresentMode>,
    supported_formats: &Vec<SurfaceFormat>,
    preferences: &SwapchainPreferences,
    mode_image_bounds: Option<(u32, u32)>,
) -> (r: Result<SwapchainPlan, SwapchainConfigError>)
    ensures
        match r {
            Ok(plan) => {
                &&& spec_choose_surface_format(
                    supported_formats@,
                    preferences.format,
                    preferences.color_space,
                ) == Some(SurfaceFormat { format: plan.format, color_space: plan.color_space })
                &&& caps.max_image_extent.width > 0
                &&& caps.max_image_extent.height > 0
                &&& plan.present_mode == spec_choose_present_mode(
                    supported_modes@,
                    preferences.present_mode,
                ).0
                &&& plan.image_count == (match mode_image_bounds {
                    Some((lo, hi)) => spec_clamp_image_count(
                        spec_choose_present_mode(supported_modes@, preferences.present_mode).1,
                        lo,
                        hi,
                    ),
                    None => spec_clamp_image_count(
                        spec_choose_present_mode(supported_modes@, preferences.present_mode).1,
                        caps.min_image_count,
                        caps.max_image_count,
                    ),
                })
                &&& plan.composite_alpha == (if caps.supports_post_multiplied_alpha {
                    COMPOSITE_ALPHA_POST_MULTIPLIED
                } else {
                    COMPOSITE_ALPHA_OPAQUE
                })
                &&& plan.extent == spec_choose_extent(*caps, preferences.preferred_extent)
                &&& plan.frames_in_flight == (if plan.image_count < 2 {
                    2int
                } else {
                    plan.image_count as int
                })
                &&& plan.frames_in_flight >= 2
            },
            Err(e) => {
                ||| (e == SwapchainConfigError::NoSuitableFormat && spec_choose_surface_format(
                    supported_formats@,
                    preferences.format,
                    preferences.color_space,
                ) is None)
                ||| (e == SwapchainConfigError::ZeroSurfaceExtent && spec_choose_surface_format(
                    supported_formats@,
                    preferences.format,
                    preferences.color_space,
                ) is Some && (caps.max_image_extent.width == 0 || caps.max_image_extent.height
                    == 0))
            },
        },
{
    let (present_mode, canonical_count) = choose_present_mode(
        supported_modes,
        preferences.present_mode,
    );
    let image_count = match mode_image_bounds {
        Some((lo, hi)) => clamp_image_count(canonical_count, lo, hi),
        None => clamp_image_count(canonical_count, caps.min_image_count, caps.max_image_count),
    };
    let chosen_format = match choose_surface_format(
        supported_formats,
        preferences.format,
        preferences.color_space,
    ) {
        Some(f) => f,
        None => {
            return Err(SwapchainConfigError::NoSuitableFormat);
        },
    };
    if caps.max_image_extent.width == 0 || caps.max_image_extent.height == 0 {
        return Err(SwapchainConfigError::ZeroSurfaceExtent);
    }
    let composite_alpha = choose_composite_alpha(caps.supports_post_multiplied_alpha);
    let extent = choose_extent(caps, preferences.preferred_extent);
    let frames_in_flight = frames_in_flight_count(image_count);
    Ok(
        SwapchainPlan {
            present_mode,
            image_count,
            format: chosen_format.format,
            color_space: chosen_format.color_space,
            composite_alpha,
            extent,
            frames_in_flight,
        },
    )
}

} // verus!
