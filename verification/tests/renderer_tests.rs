use dfsph::device::{
    best_device, check_device_extension_support, confirm_device, find_queue_families,
    rate_device_suitability, unique_queue_families, DeviceError, DeviceKind, DeviceTraits,
    QueueFamily, QueueFamilyIndices,
};
use dfsph::gpu_sort::{dispatch_count, sort_buffer_len, sort_passes, SortConstants};
use dfsph::swapchain::{
    choose_image_count, choose_swap_extent, choose_swap_present_mode, choose_swap_surface_format,
    next_frame, Extent, PresentMode, SurfaceFormat, COLOR_SPACE_SRGB_NONLINEAR,
    FORMAT_B8G8R8A8_SRGB, MAX_FRAMES_IN_FLIGHT,
};

fn traits(kind: DeviceKind) -> DeviceTraits {
    DeviceTraits {
        kind,
        geometry_shader: true,
        sampler_anisotropy: true,
        max_image_dimension_2d: 16384,
        max_image_dimension_3d: 2048,
        max_viewport_width: 16384,
    }
}

#[test]
fn device_score_exact_values() {
    assert_eq!(rate_device_suitability(&traits(DeviceKind::Discrete)), 100000 + 163 + 40 + 16384);
    assert_eq!(rate_device_suitability(&traits(DeviceKind::Integrated)), 5000 + 163 + 40 + 16384);
    assert_eq!(rate_device_suitability(&traits(DeviceKind::Other)), 163 + 40 + 16384);
}

#[test]
fn device_without_required_features_scores_zero() {
    let mut no_geometry = traits(DeviceKind::Discrete);
    no_geometry.geometry_shader = false;
    assert_eq!(rate_device_suitability(&no_geometry), 0);
    let mut no_anisotropy = traits(DeviceKind::Discrete);
    no_anisotropy.sampler_anisotropy = false;
    assert_eq!(rate_device_suitability(&no_anisotropy), 0);
}

#[test]
fn device_score_does_not_overflow() {
    let mut huge = traits(DeviceKind::Discrete);
    huge.max_image_dimension_2d = u32::MAX;
    huge.max_image_dimension_3d = u32::MAX;
    huge.max_viewport_width = u32::MAX;
    let expected = 100000u64 + (u32::MAX / 100) as u64 + (u32::MAX / 50) as u64 + u32::MAX as u64;
    assert_eq!(rate_device_suitability(&huge), expected);
}

#[test]
fn queue_families_take_the_last_of_each_kind() {
    let families = [
        QueueFamily { graphics: true, present: true },
        QueueFamily { graphics: false, present: true },
        QueueFamily { graphics: true, present: false },
        QueueFamily { graphics: false, present: false },
    ];
    let found = find_queue_families(&families).ok().unwrap();
    assert_eq!(found.graphics_family, Some(2));
    assert_eq!(found.present_family, Some(1));
}

#[test]
fn queue_families_missing_a_kind_fail() {
    let only_graphics = [QueueFamily { graphics: true, present: false }];
    assert_eq!(find_queue_families(&only_graphics).err(), Some(DeviceError::QueueFamilyNotFound));
    let only_present = [QueueFamily { graphics: false, present: true }];
    assert_eq!(find_queue_families(&only_present).err(), Some(DeviceError::QueueFamilyNotFound));
    assert_eq!(find_queue_families(&[]).err(), Some(DeviceError::QueueFamilyNotFound));
}

#[test]
fn unique_families_drop_the_repeat() {
    let same = QueueFamilyIndices { graphics_family: Some(3), present_family: Some(3) };
    assert_eq!(unique_queue_families(&same), vec![3]);
    let two = QueueFamilyIndices { graphics_family: Some(0), present_family: Some(2) };
    assert_eq!(unique_queue_families(&two), vec![0, 2]);
}

#[test]
fn best_device_is_the_last_maximum() {
    assert_eq!(best_device(&[]), Err(DeviceError::NoSuitableGpuFound));
    assert_eq!(best_device(&[7]), Ok(0));
    assert_eq!(best_device(&[1, 9, 3]), Ok(1));
    assert_eq!(best_device(&[9, 1, 9, 3]), Ok(2));
    assert_eq!(best_device(&[0, 0, 0]), Ok(2));
}

#[test]
fn usable_device_needs_everything() {
    assert_eq!(confirm_device(1, true, 1, 1), Ok(()));
    assert_eq!(confirm_device(0, true, 1, 1), Err(DeviceError::NoSuitableGpuFound));
    assert_eq!(confirm_device(1, false, 1, 1), Err(DeviceError::NoSuitableGpuFound));
    assert_eq!(confirm_device(1, true, 0, 1), Err(DeviceError::NoSuitableGpuFound));
    assert_eq!(confirm_device(1, true, 1, 0), Err(DeviceError::NoSuitableGpuFound));
}

#[test]
fn swap_extent_follows_surface_or_window() {
    let min = Extent { width: 100, height: 200 };
    let max = Extent { width: 1000, height: 2000 };
    let fixed = Extent { width: 640, height: 480 };
    assert_eq!(choose_swap_extent(fixed, min, max, Extent { width: 1, height: 1 }), fixed);
    let free = Extent { width: u32::MAX, height: 0 };
    let window = Extent { width: 1280, height: 150 };
    assert_eq!(choose_swap_extent(free, min, max, window), Extent { width: 1000, height: 200 });
    let inside = Extent { width: 500, height: 700 };
    assert_eq!(choose_swap_extent(free, min, max, inside), inside);
}

#[test]
fn surface_format_prefers_srgb() {
    let preferred =
        SurfaceFormat { format: FORMAT_B8G8R8A8_SRGB, color_space: COLOR_SPACE_SRGB_NONLINEAR };
    let other = SurfaceFormat { format: 44, color_space: COLOR_SPACE_SRGB_NONLINEAR };
    let wrong_space = SurfaceFormat { format: FORMAT_B8G8R8A8_SRGB, color_space: 7 };
    assert_eq!(choose_swap_surface_format(&[other, wrong_space, preferred]), preferred);
    assert_eq!(choose_swap_surface_format(&[other, wrong_space]), other);
    assert_eq!(choose_swap_surface_format(&[wrong_space]), wrong_space);
}

#[test]
fn present_mode_prefers_mailbox() {
    assert_eq!(
        choose_swap_present_mode(&[PresentMode::Fifo, PresentMode::Mailbox]),
        PresentMode::Mailbox
    );
    assert_eq!(
        choose_swap_present_mode(&[PresentMode::Immediate, PresentMode::FifoRelaxed]),
        PresentMode::Fifo
    );
    assert_eq!(choose_swap_present_mode(&[]), PresentMode::Fifo);
}

#[test]
fn dispatch_count_rounds_up() {
    assert_eq!(dispatch_count(0), 0);
    assert_eq!(dispatch_count(1), 1);
    assert_eq!(dispatch_count(256), 1);
    assert_eq!(dispatch_count(257), 2);
    assert_eq!(dispatch_count(u32::MAX), 16777216);
}

#[test]
fn sort_buffer_len_is_next_power_of_two() {
    assert_eq!(sort_buffer_len(0), 1);
    assert_eq!(sort_buffer_len(1), 1);
    assert_eq!(sort_buffer_len(2), 2);
    assert_eq!(sort_buffer_len(3), 4);
    assert_eq!(sort_buffer_len(1000), 1024);
    assert_eq!(sort_buffer_len(1024), 1024);
    assert_eq!(sort_buffer_len(0x8000_0000), 0x8000_0000);
}

fn pass(n: u32, h: u32, s: u32) -> SortConstants {
    SortConstants { num_entries: n, block_height: h, block_step: s }
}

#[test]
fn sort_passes_of_small_buffers() {
    assert_eq!(sort_passes(1), vec![]);
    assert_eq!(sort_passes(2), vec![pass(2, 2, 1)]);
    assert_eq!(
        sort_passes(8),
        vec![pass(8, 2, 1), pass(8, 4, 2), pass(8, 4, 1), pass(8, 8, 4), pass(8, 8, 2), pass(8, 8, 1)]
    );
}

#[test]
fn sort_passes_of_the_largest_buffer() {
    let passes = sort_passes(0x8000_0000);
    assert_eq!(passes.len(), 31 * 32 / 2);
    assert_eq!(passes[0], pass(0x8000_0000, 2, 1));
    assert_eq!(passes[passes.len() - 1], pass(0x8000_0000, 0x8000_0000, 1));
}

#[test]
fn image_count_is_one_above_minimum_within_the_maximum() {
    assert_eq!(choose_image_count(2, 0), 3);
    assert_eq!(choose_image_count(2, 8), 3);
    assert_eq!(choose_image_count(2, 3), 3);
    assert_eq!(choose_image_count(2, 2), 2);
    assert_eq!(choose_image_count(5, 2), 2);
    assert_eq!(choose_image_count(u32::MAX, 7), 7);
    assert_eq!(choose_image_count(0, 0), 1);
}

#[test]
fn frames_in_flight_go_round() {
    assert_eq!(MAX_FRAMES_IN_FLIGHT, 2);
    assert_eq!(next_frame(0), 1);
    assert_eq!(next_frame(1), 0);
}

fn names(list: &[&str]) -> Vec<Vec<u8>> {
    list.iter().map(|n| n.as_bytes().to_vec()).collect()
}

#[test]
fn extensions_are_supported_when_all_are_offered() {
    let offered = names(&["VK_KHR_surface", "VK_KHR_swapchain", "VK_EXT_debug_utils"]);
    assert!(check_device_extension_support(&names(&["VK_KHR_swapchain"]), &offered));
    assert!(check_device_extension_support(
        &names(&["VK_EXT_debug_utils", "VK_KHR_surface"]),
        &offered
    ));
    assert!(check_device_extension_support(&[], &offered));
    assert!(check_device_extension_support(&[], &[]));
}

#[test]
fn extensions_are_unsupported_when_one_is_missing() {
    let offered = names(&["VK_KHR_surface", "VK_KHR_swapchain"]);
    assert!(!check_device_extension_support(&names(&["VK_KHR_swapchain", "VK_NV_x"]), &offered));
    assert!(!check_device_extension_support(&names(&["VK_KHR_swapchai"]), &offered));
    assert!(!check_device_extension_support(&names(&["VK_KHR_swapchain2"]), &offered));
    assert!(!check_device_extension_support(&names(&["a"]), &[]));
}
