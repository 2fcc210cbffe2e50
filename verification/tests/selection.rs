//! Device, feature and queue selection behavior.

use pompeii::device::{
    get_sorted_physical_devices, score_device_type, PhysicalDeviceCandidate, PhysicalDeviceType,
};
use pompeii::extensions_list_contains;
use pompeii::features::EnginePhysicalDeviceFeatures;
use pompeii::multisample::query_multisample_support;
use pompeii::queue::{
    family_score, get_queue_families, get_queue_family_index, max_family_queue_count,
    plan_device_queues, popcount, QueueFamilyInfo, QUEUE_COMPUTE, QUEUE_GRAPHICS, QUEUE_TRANSFER,
};

fn features(
    acceleration_structure: bool,
    ray_query: bool,
    ray_tracing: bool,
) -> EnginePhysicalDeviceFeatures {
    EnginePhysicalDeviceFeatures {
        acceleration_structure,
        buffer_device_address: false,
        descriptor_indexing: false,
        dynamic_rendering: false,
        pageable_device_local_memory: false,
        ray_query,
        ray_tracing,
        synchronization2: false,
    }
}

#[test]
fn probe_remask_is_idempotent() {
    let hardware = EnginePhysicalDeviceFeatures {
        acceleration_structure: true,
        buffer_device_address: true,
        descriptor_indexing: false,
        dynamic_rendering: true,
        pageable_device_local_memory: false,
        ray_query: true,
        ray_tracing: false,
        synchronization2: true,
    };
    let request = EnginePhysicalDeviceFeatures {
        acceleration_structure: true,
        buffer_device_address: false,
        descriptor_indexing: true,
        dynamic_rendering: true,
        pageable_device_local_memory: true,
        ray_query: false,
        ray_tracing: true,
        synchronization2: true,
    };
    let probed = hardware.masked(&request);
    let reprobed = probed.masked(&request);
    assert_eq!(probed, reprobed);
    // Only requested-and-supported flags survive.
    assert!(probed.acceleration_structure());
    assert!(!probed.buffer_device_address());
    assert!(probed.dynamic_rendering());
    assert!(!probed.pageable_device_local_memory());
    assert!(!probed.ray_query());
    assert!(!probed.ray_tracing());
    assert!(probed.synchronization2());
}

#[test]
fn contains_mask_checks_every_flag_but_descriptor_indexing() {
    let support = features(true, true, false);
    let mask_ok = features(true, false, false);
    let mask_missing = features(true, false, true);
    assert!(support.contains_mask(&mask_ok));
    assert!(!support.contains_mask(&mask_missing));
    // descriptor_indexing carries only sub-properties and is not checked.
    let mut mask_di = EnginePhysicalDeviceFeatures::default();
    mask_di.descriptor_indexing = true;
    let no_support = EnginePhysicalDeviceFeatures::default();
    assert!(no_support.contains_mask(&mask_di));
}

#[test]
fn rtx_needs_all_three_features() {
    assert!(features(true, true, true).supports_rtx());
    assert!(!features(true, true, false).supports_rtx());
    assert!(!features(false, true, true).supports_rtx());
}

#[test]
fn extension_list_membership() {
    let list = vec!["VK_KHR_surface".to_owned(), "VK_KHR_swapchain".to_owned()];
    assert!(extensions_list_contains(&list, &"VK_KHR_swapchain".to_owned()));
    assert!(!extensions_list_contains(&list, &"VK_EXT_debug_utils".to_owned()));
}

#[test]
fn device_type_scores() {
    assert_eq!(score_device_type(PhysicalDeviceType::DiscreteGpu), 4);
    assert_eq!(score_device_type(PhysicalDeviceType::IntegratedGpu), 3);
    assert_eq!(score_device_type(PhysicalDeviceType::VirtualGpu), 2);
    assert_eq!(score_device_type(PhysicalDeviceType::Cpu), 1);
    assert_eq!(score_device_type(PhysicalDeviceType::Other), 0);
}

fn candidate(
    handle: u64,
    device_type: PhysicalDeviceType,
    api_version: u32,
    max_push_constants_size: u32,
    extensions: Vec<String>,
) -> PhysicalDeviceCandidate {
    PhysicalDeviceCandidate {
        handle,
        device_type,
        api_version,
        max_push_constants_size,
        features: EnginePhysicalDeviceFeatures::default(),
        extensions,
    }
}

#[test]
fn ranking_prefers_discrete_then_push_constants_then_enumeration_order() {
    let devices = vec![
        candidate(1, PhysicalDeviceType::IntegratedGpu, 10, 128, vec![]),
        candidate(2, PhysicalDeviceType::DiscreteGpu, 10, 128, vec![]),
        candidate(3, PhysicalDeviceType::DiscreteGpu, 10, 256, vec![]),
        candidate(4, PhysicalDeviceType::DiscreteGpu, 10, 128, vec![]),
        candidate(5, PhysicalDeviceType::Cpu, 10, 512, vec![]),
    ];
    let sorted = get_sorted_physical_devices(
        devices,
        10,
        &vec![],
        &EnginePhysicalDeviceFeatures::default(),
    );
    let handles: Vec<u64> = sorted.iter().map(|c| c.handle).collect();
    // Discrete first; among them 256 beats 128; the tied 128s keep their
    // enumeration order (2 before 4); then integrated, then CPU.
    assert_eq!(handles, vec![3, 2, 4, 1, 5]);
}

#[test]
fn ranking_filters_version_features_and_extensions() {
    let rt = "VK_KHR_ray_tracing_pipeline".to_owned();
    let mut with_rt = candidate(1, PhysicalDeviceType::DiscreteGpu, 13, 128, vec![rt.clone()]);
    with_rt.features = features(true, true, true);
    let old_api = candidate(2, PhysicalDeviceType::DiscreteGpu, 9, 128, vec![rt.clone()]);
    let mut no_ext = candidate(3, PhysicalDeviceType::DiscreteGpu, 13, 128, vec![]);
    no_ext.features = features(true, true, true);
    let weak = candidate(4, PhysicalDeviceType::DiscreteGpu, 13, 128, vec![rt.clone()]);

    let sorted = get_sorted_physical_devices(
        vec![with_rt, old_api, no_ext, weak],
        13,
        &vec![rt],
        &features(true, true, true),
    );
    let handles: Vec<u64> = sorted.iter().map(|c| c.handle).collect();
    assert_eq!(handles, vec![1]);
}

#[test]
fn ranking_empty_when_no_device_fits() {
    let sorted = get_sorted_physical_devices(
        vec![candidate(1, PhysicalDeviceType::DiscreteGpu, 9, 128, vec![])],
        13,
        &vec![],
        &EnginePhysicalDeviceFeatures::default(),
    );
    assert!(sorted.is_empty());
}

#[test]
fn popcount_and_score_formulas() {
    assert_eq!(popcount(0), 0);
    assert_eq!(popcount(0b1011), 3);
    assert_eq!(popcount(u32::MAX), 32);
    // 2 * |flags & prefer| - |flags & !prefer|
    assert_eq!(family_score(0b1011, 0b0011), 2 * 2 - 1);
    assert_eq!(family_score(0b1000, 0b0011), -1);
}

#[test]
fn classification_by_role_in_ascending_order() {
    let families = vec![
        QueueFamilyInfo { queue_flags: QUEUE_GRAPHICS | QUEUE_COMPUTE, queue_count: 4, present_support: true },
        QueueFamilyInfo { queue_flags: QUEUE_TRANSFER, queue_count: 2, present_support: false },
        QueueFamilyInfo { queue_flags: QUEUE_COMPUTE | QUEUE_TRANSFER, queue_count: 1, present_support: true },
    ];
    let qf = get_queue_families(families);
    assert_eq!(qf.graphics, vec![0]);
    assert_eq!(qf.compute, vec![0, 2]);
    assert_eq!(qf.transfer, vec![1, 2]);
    assert_eq!(qf.present, vec![0, 2]);
    assert_eq!(qf.queue_families.len(), 3);
}

#[test]
fn selection_prefers_shared_bits_and_penalizes_extras() {
    // One bit standing for presentation support in the preference mask.
    let present_bit: u32 = 0x8;
    let families = vec![
        QueueFamilyInfo {
            queue_flags: QUEUE_GRAPHICS | present_bit,
            queue_count: 1,
            present_support: true,
        },
        QueueFamilyInfo {
            queue_flags: QUEUE_GRAPHICS | present_bit | QUEUE_COMPUTE | QUEUE_TRANSFER,
            queue_count: 1,
            present_support: true,
        },
    ];
    let qf = get_queue_families(families);
    // required = {graphics}, prefer = {present}: the lean family wins over
    // the one that also carries compute and transfer.
    let chosen = get_queue_family_index(QUEUE_GRAPHICS, present_bit, &qf);
    assert_eq!(chosen, 0);
    // The chosen index lies in the classified graphics candidate set.
    assert!(qf.graphics.contains(&chosen));
}

#[test]
fn selection_takes_last_index_on_score_ties() {
    let families = vec![
        QueueFamilyInfo { queue_flags: QUEUE_GRAPHICS, queue_count: 1, present_support: false },
        QueueFamilyInfo { queue_flags: QUEUE_GRAPHICS, queue_count: 1, present_support: false },
    ];
    let qf = get_queue_families(families);
    assert_eq!(get_queue_family_index(QUEUE_GRAPHICS, 0, &qf), 1);
}

#[test]
fn queue_plan_counts_roles_and_caps_by_family_size() {
    let families = vec![
        // graphics + compute + present: three roles, but only 2 queues.
        QueueFamilyInfo {
            queue_flags: QUEUE_GRAPHICS | QUEUE_COMPUTE,
            queue_count: 2,
            present_support: true,
        },
        // transfer only: no role among graphics/compute/present requests it.
        QueueFamilyInfo { queue_flags: QUEUE_TRANSFER, queue_count: 4, present_support: false },
        // compute only with plenty of queues: one role, one queue.
        QueueFamilyInfo { queue_flags: QUEUE_COMPUTE, queue_count: 8, present_support: false },
    ];
    let qf = get_queue_families(families);
    let plan = plan_device_queues(&qf);
    assert_eq!(plan.len(), 2);
    assert_eq!(plan[0].family_index, 0);
    assert_eq!(plan[0].queue_count, 2);
    assert_eq!(plan[1].family_index, 2);
    assert_eq!(plan[1].queue_count, 1);
}

#[test]
fn max_queue_count_over_families() {
    assert_eq!(max_family_queue_count(&vec![]), 0);
    let families = vec![
        QueueFamilyInfo { queue_flags: 0, queue_count: 2, present_support: false },
        QueueFamilyInfo { queue_flags: 0, queue_count: 7, present_support: false },
        QueueFamilyInfo { queue_flags: 0, queue_count: 1, present_support: false },
    ];
    assert_eq!(max_family_queue_count(&families), 7);
}

#[test]
fn multisample_single_sample_request_yields_none() {
    assert!(query_multisample_support(0x1, 0x7, 50, 640, 480, 1, 0x50).is_none());
    assert!(query_multisample_support(0, 0x7, 50, 640, 480, 1, 0x50).is_none());
}

#[test]
fn multisample_highest_common_bit_wins() {
    // Request {4x, 8x} against support {1x, 2x, 4x}: 4x is the answer.
    let d = query_multisample_support(0xC, 0x7, 50, 640, 480, 1, 0x50).unwrap();
    assert_eq!(d.samples, 0x4);
    assert_eq!(d.format, 50);
    assert_eq!(d.width, 640);
    assert_eq!(d.height, 480);
    assert_eq!(d.mip_levels, 1);
    assert_eq!(d.usage, 0x50);
}

#[test]
fn multisample_no_common_bit_yields_none() {
    assert!(query_multisample_support(0x8, 0x7, 50, 640, 480, 1, 0x50).is_none());
}
