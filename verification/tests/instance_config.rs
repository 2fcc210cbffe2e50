//! Instance-extension negotiation and format classification.

use pompeii::format::{
    choose_surface_format, image_aspect_for_format, is_depth_format, is_stencil_format,
    SurfaceFormat, ASPECT_COLOR, ASPECT_DEPTH, ASPECT_STENCIL, COLOR_SPACE_SRGB_NONLINEAR,
    FORMAT_D16_UNORM, FORMAT_D24_UNORM_S8_UINT, FORMAT_D32_SFLOAT, FORMAT_S8_UINT,
};
use pompeii::instance::{VulkanCore, VulkanCoreError, VULKAN_API_VERSION};

fn names(list: &[&str]) -> Vec<String> {
    list.iter().map(|s| (*s).to_owned()).collect()
}

#[test]
fn missing_required_extension_is_reported_first() {
    let required = names(&["VK_KHR_surface", "VK_KHR_xlib_surface"]);
    let available = names(&["VK_KHR_surface"]);
    let err = VulkanCore::new(&required, &names(&[]), &available).unwrap_err();
    assert_eq!(err, VulkanCoreError::MissingExtension("VK_KHR_xlib_surface".to_owned()));
}

#[test]
fn enabled_extensions_follow_request_order() {
    let required = names(&["VK_KHR_surface", "VK_KHR_xlib_surface"]);
    let optional = names(&["VK_EXT_debug_utils", "VK_EXT_not_there"]);
    let available = names(&[
        "VK_KHR_surface",
        "VK_KHR_xlib_surface",
        "VK_EXT_debug_utils",
    ]);
    let core = VulkanCore::new(&required, &optional, &available).unwrap();
    assert_eq!(core.version, VULKAN_API_VERSION);
    assert_eq!(
        core.enabled_instance_extensions,
        names(&["VK_KHR_surface", "VK_KHR_xlib_surface", "VK_EXT_debug_utils"])
    );
    assert!(core.enabled_instance_extension(&"VK_EXT_debug_utils".to_owned()));
    assert!(!core.enabled_instance_extension(&"VK_EXT_not_there".to_owned()));
}

#[test]
fn surface_helpers_enabled_automatically() {
    let required = names(&["VK_KHR_surface"]);
    let available = names(&[
        "VK_KHR_surface",
        "VK_EXT_swapchain_colorspace",
        "VK_KHR_get_surface_capabilities2",
        "VK_EXT_surface_maintenance1",
    ]);
    let core = VulkanCore::new(&required, &names(&[]), &available).unwrap();
    assert_eq!(
        core.enabled_instance_extensions,
        names(&[
            "VK_KHR_surface",
            "VK_EXT_swapchain_colorspace",
            "VK_KHR_get_surface_capabilities2",
            "VK_EXT_surface_maintenance1",
        ])
    );
}

#[test]
fn surface_helpers_need_both_halves_and_a_surface_request() {
    // Without the surface extension required, nothing is auto-enabled.
    let available = names(&["VK_KHR_surface", "VK_EXT_swapchain_colorspace"]);
    let core = VulkanCore::new(&names(&[]), &names(&[]), &available).unwrap();
    assert!(core.enabled_instance_extensions.is_empty());
    // With only one half of the capabilities pair available, neither half
    // is enabled.
    let available = names(&["VK_KHR_surface", "VK_KHR_get_surface_capabilities2"]);
    let core = VulkanCore::new(&names(&["VK_KHR_surface"]), &names(&[]), &available).unwrap();
    assert_eq!(core.enabled_instance_extensions, names(&["VK_KHR_surface"]));
}

#[test]
fn depth_and_stencil_classification() {
    assert!(is_depth_format(FORMAT_D16_UNORM));
    assert!(is_depth_format(FORMAT_D32_SFLOAT));
    assert!(!is_depth_format(FORMAT_S8_UINT));
    assert!(is_stencil_format(FORMAT_S8_UINT));
    assert!(is_stencil_format(FORMAT_D24_UNORM_S8_UINT));
    assert!(!is_stencil_format(FORMAT_D32_SFLOAT));
    let color = 50;
    assert!(!is_depth_format(color) && !is_stencil_format(color));
}

#[test]
fn view_aspect_follows_format_class() {
    assert_eq!(image_aspect_for_format(FORMAT_D32_SFLOAT), ASPECT_DEPTH);
    assert_eq!(image_aspect_for_format(FORMAT_S8_UINT), ASPECT_STENCIL);
    assert_eq!(image_aspect_for_format(50), ASPECT_COLOR);
    // Depth wins over stencil for combined formats.
    assert_eq!(image_aspect_for_format(FORMAT_D24_UNORM_S8_UINT), ASPECT_DEPTH);
}

#[test]
fn format_choice_prefers_exact_match_then_first_color() {
    let formats = vec![
        SurfaceFormat { format: FORMAT_D32_SFLOAT, color_space: COLOR_SPACE_SRGB_NONLINEAR },
        SurfaceFormat { format: 44, color_space: COLOR_SPACE_SRGB_NONLINEAR },
        SurfaceFormat { format: 50, color_space: COLOR_SPACE_SRGB_NONLINEAR },
        SurfaceFormat { format: 50, color_space: 7 },
    ];
    // An exact format request at the default color space.
    let f = choose_surface_format(&formats, Some(50), None).unwrap();
    assert_eq!((f.format, f.color_space), (50, COLOR_SPACE_SRGB_NONLINEAR));
    // A format request at a specific color space.
    let f = choose_surface_format(&formats, Some(50), Some(7)).unwrap();
    assert_eq!((f.format, f.color_space), (50, 7));
    // No format preference: the first color format at the color space.
    let f = choose_surface_format(&formats, None, None).unwrap();
    assert_eq!((f.format, f.color_space), (44, COLOR_SPACE_SRGB_NONLINEAR));
    // An unsatisfiable pair falls back to the first color format.
    let f = choose_surface_format(&formats, Some(99), Some(3)).unwrap();
    assert_eq!((f.format, f.color_space), (44, COLOR_SPACE_SRGB_NONLINEAR));
    // Only depth/stencil formats: no usable format at all.
    let depth_only = vec![SurfaceFormat {
        format: FORMAT_D32_SFLOAT,
        color_space: COLOR_SPACE_SRGB_NONLINEAR,
    }];
    assert!(choose_surface_format(&depth_only, None, None).is_none());
}
