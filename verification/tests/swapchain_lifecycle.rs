//! Swapchain planning, the acquire/present cycle, recreation and
//! destruction.

use pompeii::format::{SurfaceFormat, COLOR_SPACE_SRGB_NONLINEAR, FORMAT_D32_SFLOAT};
use pompeii::surface::{
    choose_composite_alpha, choose_extent, choose_present_mode, clamp_image_count,
    frames_in_flight_count, is_special_surface_extent, plan_swapchain, Extent, PresentMode,
    SurfaceCapabilities, SwapchainConfigError, SwapchainPreferences, COMPOSITE_ALPHA_OPAQUE,
    COMPOSITE_ALPHA_POST_MULTIPLIED,
};
use pompeii::swapchain::{
    AcquireOutcome, DestroyCommand, FrameInFlightSync, MultiSampleAntiAliasing, PresentOutcome,
    QuiescePlan, Swapchain, SwapchainError,
};
use pompeii::FIVE_SECONDS_IN_NANOSECONDS;

const FORMAT_B8G8R8A8_SRGB: i32 = 50;

fn caps() -> SurfaceCapabilities {
    SurfaceCapabilities {
        min_image_count: 2,
        max_image_count: 8,
        current_extent: Extent { width: 800, height: 600 },
        min_image_extent: Extent { width: 1, height: 1 },
        max_image_extent: Extent { width: 4096, height: 4096 },
        supports_post_multiplied_alpha: false,
    }
}

fn srgb(format: i32) -> SurfaceFormat {
    SurfaceFormat { format, color_space: COLOR_SPACE_SRGB_NONLINEAR }
}

#[test]
fn present_mode_falls_back_to_fifo() {
    let supported = vec![PresentMode::Fifo, PresentMode::Mailbox];
    assert_eq!(
        choose_present_mode(&supported, Some(PresentMode::Immediate)),
        (PresentMode::Fifo, 3)
    );
    assert_eq!(
        choose_present_mode(&supported, Some(PresentMode::Mailbox)),
        (PresentMode::Mailbox, 3)
    );
    assert_eq!(choose_present_mode(&supported, None), (PresentMode::Fifo, 3));
    let with_immediate = vec![PresentMode::Immediate, PresentMode::Fifo];
    assert_eq!(
        choose_present_mode(&with_immediate, Some(PresentMode::Immediate)),
        (PresentMode::Immediate, 1)
    );
}

#[test]
fn image_count_clamps_into_surface_bounds() {
    assert_eq!(clamp_image_count(3, 2, 8), 3);
    assert_eq!(clamp_image_count(1, 2, 8), 2);
    assert_eq!(clamp_image_count(9, 2, 8), 8);
    // A zero maximum means the surface names no upper bound.
    assert_eq!(clamp_image_count(100, 2, 0), 100);
}

#[test]
fn combined_mode_and_count_choice() {
    let supported = vec![PresentMode::Immediate, PresentMode::Fifo];
    let (mode, count) = Swapchain::choose_present_mode_and_image_count(
        &supported,
        Some(PresentMode::Immediate),
        2,
        8,
    );
    assert_eq!(mode, PresentMode::Immediate);
    // Canonical count 1 clamped up to the surface minimum.
    assert_eq!(count, 2);
}

#[test]
fn composite_alpha_prefers_post_multiplied() {
    assert_eq!(choose_composite_alpha(true), COMPOSITE_ALPHA_POST_MULTIPLIED);
    assert_eq!(choose_composite_alpha(false), COMPOSITE_ALPHA_OPAQUE);
}

#[test]
fn extent_uses_current_unless_surface_defers_to_caller() {
    let c = caps();
    assert_eq!(choose_extent(&c, None), Extent { width: 800, height: 600 });
    let mut deferred = caps();
    deferred.current_extent = Extent { width: u32::MAX, height: u32::MAX };
    assert!(is_special_surface_extent(&deferred.current_extent));
    assert_eq!(
        choose_extent(&deferred, Some(Extent { width: 1024, height: 768 })),
        Extent { width: 1024, height: 768 }
    );
    // Without a preference the surface minimum is used.
    assert_eq!(choose_extent(&deferred, None), Extent { width: 1, height: 1 });
    // Always clamped into the surface bounds.
    assert_eq!(
        choose_extent(&deferred, Some(Extent { width: 10_000, height: 0 })),
        Extent { width: 4096, height: 1 }
    );
}

#[test]
fn frame_ring_is_at_least_double_buffered() {
    assert_eq!(frames_in_flight_count(0), 2);
    assert_eq!(frames_in_flight_count(1), 2);
    assert_eq!(frames_in_flight_count(2), 2);
    assert_eq!(frames_in_flight_count(3), 3);
}

#[test]
fn plan_assembles_all_decisions() {
    let mut c = caps();
    c.min_image_count = 1;
    let formats = vec![srgb(FORMAT_D32_SFLOAT), srgb(FORMAT_B8G8R8A8_SRGB)];
    let modes = vec![PresentMode::Immediate, PresentMode::Fifo];
    let mut prefs = SwapchainPreferences::default();
    prefs.present_mode = Some(PresentMode::Immediate);
    let plan = plan_swapchain(&c, &modes, &formats, &prefs, None).unwrap();
    assert_eq!(plan.present_mode, PresentMode::Immediate);
    // Immediate's canonical single image, allowed by the surface bounds...
    assert_eq!(plan.image_count, 1);
    // ...still yields a double-buffered frame ring.
    assert_eq!(plan.frames_in_flight, 2);
    // The depth format is skipped: the first color format wins.
    assert_eq!(plan.format, FORMAT_B8G8R8A8_SRGB);
    assert_eq!(plan.color_space, COLOR_SPACE_SRGB_NONLINEAR);
    assert_eq!(plan.composite_alpha, COMPOSITE_ALPHA_OPAQUE);
    assert_eq!(plan.extent, Extent { width: 800, height: 600 });
}

#[test]
fn plan_uses_mode_specific_bounds_when_available() {
    let formats = vec![srgb(FORMAT_B8G8R8A8_SRGB)];
    let modes = vec![PresentMode::Fifo];
    let prefs = SwapchainPreferences::default();
    let plan = plan_swapchain(&caps(), &modes, &formats, &prefs, Some((4, 6))).unwrap();
    assert_eq!(plan.image_count, 4);
}

#[test]
fn plan_fails_without_a_color_format() {
    let formats = vec![srgb(FORMAT_D32_SFLOAT)];
    let modes = vec![PresentMode::Fifo];
    let prefs = SwapchainPreferences::default();
    let e = plan_swapchain(&caps(), &modes, &formats, &prefs, None).unwrap_err();
    assert_eq!(e, SwapchainConfigError::NoSuitableFormat);
}

#[test]
fn plan_fails_on_zero_sized_surface() {
    let mut c = caps();
    c.min_image_extent = Extent { width: 0, height: 0 };
    c.max_image_extent = Extent { width: 0, height: 0 };
    let formats = vec![srgb(FORMAT_B8G8R8A8_SRGB)];
    let modes = vec![PresentMode::Fifo];
    let prefs = SwapchainPreferences::default();
    let e = plan_swapchain(&c, &modes, &formats, &prefs, None).unwrap_err();
    assert_eq!(e, SwapchainConfigError::ZeroSurfaceExtent);
}

fn sync(base: u64) -> FrameInFlightSync {
    FrameInFlightSync {
        image_available: base,
        image_rendered: base + 1,
        present_complete: base + 2,
    }
}

fn chain(handle: u64, multisample: bool) -> Swapchain {
    let multisample = if multisample {
        Some(MultiSampleAntiAliasing {
            samples: 4,
            images: vec![700, 701],
            allocations: vec![800, 801],
            image_views: vec![900, 901],
        })
    } else {
        None
    };
    Swapchain::new(
        handle,
        vec![500, 501],
        vec![600, 601],
        FORMAT_B8G8R8A8_SRGB,
        COLOR_SPACE_SRGB_NONLINEAR,
        PresentMode::Fifo,
        Extent { width: 800, height: 600 },
        vec![sync(100), sync(200), sync(300)],
        multisample,
        true,
    )
}

#[test]
fn acquire_then_present_advances_frame_cursor_modulo_ring() {
    let mut sc = chain(1, false);
    let expected = [0usize, 1, 2, 0, 1, 2];
    for (i, want) in expected.iter().enumerate() {
        assert_eq!(sc.current_frame(), *want);
        let next = sc
            .acquire_next_image(AcquireOutcome::Success {
                image_index: (i % 2) as u32,
                suboptimal: false,
            })
            .unwrap();
        assert_eq!(next.image_index, (i % 2) as u32);
        assert_eq!(next.image_view, 600 + (i as u64 % 2));
        let suboptimal = sc.present(PresentOutcome::Success { suboptimal: false }).unwrap();
        assert!(!suboptimal);
    }
    assert_eq!(sc.current_frame(), 0);
}

#[test]
fn present_request_names_current_frame_handles() {
    let mut sc = chain(1, false);
    sc.acquire_next_image(AcquireOutcome::Success { image_index: 1, suboptimal: false })
        .unwrap();
    let req = sc.present_request(true);
    assert_eq!(req.wait_semaphore, 101);
    assert_eq!(req.image_index, 1);
    assert_eq!(req.present_fence, Some(102));
    let req_no_fence = sc.present_request(false);
    assert_eq!(req_no_fence.present_fence, None);
}

#[test]
fn acquire_timeout_surfaces_as_error_not_a_hang() {
    // A stand-in for a device that never signals the image-available
    // semaphore: every bounded wait elapses.
    struct NeverSignalingDevice;
    impl NeverSignalingDevice {
        fn acquire(&self, timeout_ns: u64) -> AcquireOutcome {
            assert_eq!(timeout_ns, FIVE_SECONDS_IN_NANOSECONDS);
            AcquireOutcome::Timeout
        }
    }
    let device = NeverSignalingDevice;
    let mut sc = chain(1, false);
    let outcome = device.acquire(FIVE_SECONDS_IN_NANOSECONDS);
    let err = sc.acquire_next_image(outcome).unwrap_err();
    assert_eq!(err, SwapchainError::Timeout);
    // The failed acquire left the state untouched.
    assert_eq!(sc.current_frame(), 0);
    assert!(sc
        .acquire_next_image(AcquireOutcome::Success { image_index: 0, suboptimal: false })
        .is_ok());
}

#[test]
fn acquire_and_present_report_recreation_signals() {
    let mut sc = chain(1, false);
    assert_eq!(
        sc.acquire_next_image(AcquireOutcome::OutOfDate).unwrap_err(),
        SwapchainError::OutOfDate
    );
    let next = sc
        .acquire_next_image(AcquireOutcome::Success { image_index: 0, suboptimal: true })
        .unwrap();
    assert!(next.suboptimal);
    // Present reports the device's verdict but still advances the cursor.
    assert_eq!(
        sc.present(PresentOutcome::OutOfDate).unwrap_err(),
        SwapchainError::OutOfDate
    );
    assert_eq!(sc.current_frame(), 1);
}

#[test]
fn device_errors_pass_through_with_their_code() {
    let mut sc = chain(1, false);
    assert_eq!(
        sc.acquire_next_image(AcquireOutcome::DeviceError(-13)).unwrap_err(),
        SwapchainError::DeviceError(-13)
    );
    sc.acquire_next_image(AcquireOutcome::Success { image_index: 0, suboptimal: false })
        .unwrap();
    assert_eq!(
        sc.present(PresentOutcome::DeviceError(-4)).unwrap_err(),
        SwapchainError::DeviceError(-4)
    );
}

#[test]
fn plan_honors_preferred_format_and_mode() {
    let formats = vec![
        srgb(44),
        srgb(FORMAT_B8G8R8A8_SRGB),
        SurfaceFormat { format: FORMAT_B8G8R8A8_SRGB, color_space: 9 },
    ];
    let modes = vec![PresentMode::Mailbox, PresentMode::Fifo];
    let mut prefs = SwapchainPreferences::default();
    prefs.format = Some(FORMAT_B8G8R8A8_SRGB);
    prefs.color_space = Some(9);
    prefs.present_mode = Some(PresentMode::Mailbox);
    let plan = plan_swapchain(&caps(), &modes, &formats, &prefs, None).unwrap();
    assert_eq!(plan.present_mode, PresentMode::Mailbox);
    assert_eq!(plan.image_count, 3);
    assert_eq!(plan.format, FORMAT_B8G8R8A8_SRGB);
    assert_eq!(plan.color_space, 9);
}

#[test]
fn accessors_reflect_configuration() {
    let sc = chain(7, true);
    assert_eq!(sc.extent(), Extent { width: 800, height: 600 });
    assert_eq!(sc.image_format(), FORMAT_B8G8R8A8_SRGB);
    assert_eq!(sc.present_mode(), PresentMode::Fifo);
    assert_eq!(sc.frames_in_flight(), 3);
    assert_eq!(sc.frame_syncs().len(), 3);
    assert_eq!(sc.image_available(), 100);
    assert_eq!(sc.image_rendered(), 101);
    assert_eq!(sc.present_complete(), 102);
    assert_eq!(sc.images(), &[500, 501]);
    assert_eq!(sc.image_views(), &[600, 601]);
    assert_eq!(sc.multisample_count(), Some(4));
    assert_eq!(sc.multisample_views().unwrap(), &[900, 901]);
    let plain = chain(8, false);
    assert_eq!(plain.multisample_count(), None);
    assert!(plain.multisample_views().is_none());
}

#[test]
fn recreation_swaps_in_place_and_quiesces_the_retired_chain() {
    let mut sc = chain(1, false);
    let mut replacement = chain(2, false);
    replacement.extent = Extent { width: 1024, height: 768 };
    let retired = sc.recreate_swapchain(replacement);
    // The caller's handle now reflects the new configuration...
    assert_eq!(sc.handle, 2);
    assert_eq!(sc.extent(), Extent { width: 1024, height: 768 });
    // ...and the retired instance is the old one, handed back for teardown.
    assert_eq!(retired.handle, 1);
    match retired.quiesce_plan() {
        QuiescePlan::WaitForFences { fences, timeout_ns } => {
            assert_eq!(fences, vec![102, 202, 302]);
            assert_eq!(timeout_ns, FIVE_SECONDS_IN_NANOSECONDS);
        }
        QuiescePlan::DeviceWaitIdle => panic!("present fences were enabled"),
    }
    let mut no_maintenance = chain(3, false);
    no_maintenance.enabled_swapchain_maintenance1 = false;
    assert!(matches!(no_maintenance.quiesce_plan(), QuiescePlan::DeviceWaitIdle));
}

#[test]
fn destruction_destroys_each_owned_resource_exactly_once() {
    let sc = chain(1, true);
    let presentation_images = vec![500u64, 501];
    let commands = sc.destroy();
    // Reverse-creation order: sync objects, swapchain views, multisample
    // views, multisample images with their allocations, then the handle.
    assert_eq!(
        commands,
        vec![
            DestroyCommand::DestroySemaphore(100),
            DestroyCommand::DestroySemaphore(101),
            DestroyCommand::DestroyFence(102),
            DestroyCommand::DestroySemaphore(200),
            DestroyCommand::DestroySemaphore(201),
            DestroyCommand::DestroyFence(202),
            DestroyCommand::DestroySemaphore(300),
            DestroyCommand::DestroySemaphore(301),
            DestroyCommand::DestroyFence(302),
            DestroyCommand::DestroyImageView(600),
            DestroyCommand::DestroyImageView(601),
            DestroyCommand::DestroyImageView(900),
            DestroyCommand::DestroyImageView(901),
            DestroyCommand::DestroyImage(700),
            DestroyCommand::FreeAllocation(800),
            DestroyCommand::DestroyImage(701),
            DestroyCommand::FreeAllocation(801),
            DestroyCommand::DestroySwapchain(1),
        ]
    );
    // A destruction-tracking double: count every step, expect no repeats.
    let mut seen: std::collections::HashMap<DestroyCommand, u32> = std::collections::HashMap::new();
    for c in &commands {
        *seen.entry(*c).or_insert(0) += 1;
    }
    assert!(seen.values().all(|&n| n == 1));
    // The platform-owned presentation images are never destroyed.
    for image in presentation_images {
        assert!(!commands.contains(&DestroyCommand::DestroyImage(image)));
    }
}
