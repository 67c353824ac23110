use vk_bootstrap::device::DeviceDetails;
use vk_bootstrap::swapchain::{
    image_sharing, image_view_plan, plan_swapchain, ComponentMapping, Extent2D, ImageSharing, SurfaceCapabilities,
    SurfaceFormat, SwapChainSupportDetails, COLOR_SPACE_SRGB_NONLINEAR, FORMAT_B8G8R8A8_UNORM,
    FORMAT_R8G8B8A8_UNORM, FORMAT_UNDEFINED, PRESENT_MODE_FIFO, PRESENT_MODE_IMMEDIATE,
    PRESENT_MODE_MAILBOX,
};

fn caps(min_count: u32, max_count: u32, current: (u32, u32), min: (u32, u32), max: (u32, u32)) -> SurfaceCapabilities {
    SurfaceCapabilities {
        min_image_count: min_count,
        max_image_count: max_count,
        current_extent: Extent2D { width: current.0, height: current.1 },
        min_image_extent: Extent2D { width: min.0, height: min.1 },
        max_image_extent: Extent2D { width: max.0, height: max.1 },
        current_transform: 1,
    }
}

fn support(formats: Vec<SurfaceFormat>, modes: Vec<i32>) -> SwapChainSupportDetails {
    SwapChainSupportDetails::new(caps(2, 0, (1024, 768), (1, 1), (4096, 4096)), formats, modes)
}

fn details(graphics: u32, present: u32) -> DeviceDetails {
    DeviceDetails { name: "gpu".to_string(), graphics_queue_index: graphics, present_queue_index: present }
}

#[test]
fn undefined_format_falls_back_to_preferred() {
    let s = support(vec![SurfaceFormat { format: FORMAT_UNDEFINED, color_space: 7 }], vec![PRESENT_MODE_FIFO]);
    assert_eq!(
        s.choose_swapchain_surface_format(),
        SurfaceFormat { format: FORMAT_B8G8R8A8_UNORM, color_space: COLOR_SPACE_SRGB_NONLINEAR }
    );
}

#[test]
fn sole_format_without_preferred_is_kept() {
    let only = SurfaceFormat { format: FORMAT_R8G8B8A8_UNORM, color_space: COLOR_SPACE_SRGB_NONLINEAR };
    let s = support(vec![only], vec![PRESENT_MODE_FIFO]);
    assert_eq!(s.choose_swapchain_surface_format(), only);
}

#[test]
fn preferred_format_wins_over_first() {
    let first = SurfaceFormat { format: FORMAT_R8G8B8A8_UNORM, color_space: COLOR_SPACE_SRGB_NONLINEAR };
    let preferred = SurfaceFormat { format: FORMAT_B8G8R8A8_UNORM, color_space: COLOR_SPACE_SRGB_NONLINEAR };
    let s = support(vec![first, preferred], vec![PRESENT_MODE_FIFO]);
    assert_eq!(s.choose_swapchain_surface_format(), preferred);
}

#[test]
fn preferred_format_needs_matching_color_space() {
    let first = SurfaceFormat { format: FORMAT_R8G8B8A8_UNORM, color_space: 0 };
    let other_space = SurfaceFormat { format: FORMAT_B8G8R8A8_UNORM, color_space: 1000104001 };
    let s = support(vec![first, other_space], vec![PRESENT_MODE_FIFO]);
    assert_eq!(s.choose_swapchain_surface_format(), first);
}

#[test]
fn undefined_among_several_is_not_the_sentinel() {
    let undefined = SurfaceFormat { format: FORMAT_UNDEFINED, color_space: 0 };
    let second = SurfaceFormat { format: FORMAT_R8G8B8A8_UNORM, color_space: 0 };
    let s = support(vec![undefined, second], vec![PRESENT_MODE_FIFO]);
    assert_eq!(s.choose_swapchain_surface_format(), undefined);
}

#[test]
fn fifo_chosen_without_mailbox() {
    let s = support(vec![SurfaceFormat { format: FORMAT_R8G8B8A8_UNORM, color_space: 0 }], vec![PRESENT_MODE_FIFO, PRESENT_MODE_IMMEDIATE]);
    assert_eq!(s.choose_swapchain_surface_present_mode(), PRESENT_MODE_FIFO);
}

#[test]
fn immediate_chosen_when_alone() {
    let s = support(vec![SurfaceFormat { format: FORMAT_R8G8B8A8_UNORM, color_space: 0 }], vec![PRESENT_MODE_IMMEDIATE]);
    assert_eq!(s.choose_swapchain_surface_present_mode(), PRESENT_MODE_IMMEDIATE);
}

#[test]
fn mailbox_preferred_over_everything() {
    let s = support(
        vec![SurfaceFormat { format: FORMAT_R8G8B8A8_UNORM, color_space: 0 }],
        vec![PRESENT_MODE_IMMEDIATE, PRESENT_MODE_FIFO, PRESENT_MODE_MAILBOX],
    );
    assert_eq!(s.choose_swapchain_surface_present_mode(), PRESENT_MODE_MAILBOX);
}

#[test]
fn extent_inside_bounds_is_default_size() {
    let s = SwapChainSupportDetails::new(caps(2, 3, (u32::MAX, u32::MAX), (400, 300), (1920, 1080)), vec![], vec![]);
    assert_eq!(s.choose_swapchain_extent(), Extent2D { width: 800, height: 600 });
}

#[test]
fn extent_clamped_to_max() {
    let s = SwapChainSupportDetails::new(caps(2, 3, (u32::MAX, u32::MAX), (400, 300), (640, 480)), vec![], vec![]);
    assert_eq!(s.choose_swapchain_extent(), Extent2D { width: 640, height: 480 });
}

#[test]
fn extent_raised_to_min() {
    let s = SwapChainSupportDetails::new(caps(2, 3, (u32::MAX, u32::MAX), (1000, 700), (1920, 1080)), vec![], vec![]);
    assert_eq!(s.choose_swapchain_extent(), Extent2D { width: 1000, height: 700 });
}

#[test]
fn current_extent_used_verbatim() {
    let s = SwapChainSupportDetails::new(caps(2, 3, (1280, 720), (400, 300), (640, 480)), vec![], vec![]);
    assert_eq!(s.choose_swapchain_extent(), Extent2D { width: 1280, height: 720 });
}

#[test]
fn image_count_clamped_to_max() {
    let s = SwapChainSupportDetails::new(caps(2, 2, (800, 600), (1, 1), (800, 600)), vec![], vec![]);
    assert_eq!(s.choose_swapchain_image_count(), 2);
}

#[test]
fn image_count_unbounded_is_min_plus_one() {
    let s = SwapChainSupportDetails::new(caps(2, 0, (800, 600), (1, 1), (800, 600)), vec![], vec![]);
    assert_eq!(s.choose_swapchain_image_count(), 3);
}

#[test]
fn image_count_below_max_is_min_plus_one() {
    let s = SwapChainSupportDetails::new(caps(3, 8, (800, 600), (1, 1), (800, 600)), vec![], vec![]);
    assert_eq!(s.choose_swapchain_image_count(), 4);
}

#[test]
fn sharing_concurrent_for_distinct_families() {
    assert_eq!(
        image_sharing(&details(0, 2)),
        ImageSharing::Concurrent { graphics_family: 0, present_family: 2 }
    );
}

#[test]
fn sharing_exclusive_for_one_family() {
    assert_eq!(image_sharing(&details(1, 1)), ImageSharing::Exclusive);
}

#[test]
fn swapchain_plan_collects_the_negotiation() {
    let s = SwapChainSupportDetails::new(
        caps(2, 0, (u32::MAX, u32::MAX), (400, 300), (640, 480)),
        vec![SurfaceFormat { format: FORMAT_UNDEFINED, color_space: 0 }],
        vec![PRESENT_MODE_FIFO, PRESENT_MODE_MAILBOX],
    );
    let plan = plan_swapchain(&s, &details(0, 1));
    assert_eq!(plan.min_image_count, 3);
    assert_eq!(plan.format, SurfaceFormat { format: FORMAT_B8G8R8A8_UNORM, color_space: COLOR_SPACE_SRGB_NONLINEAR });
    assert_eq!(plan.extent, Extent2D { width: 640, height: 480 });
    assert_eq!(plan.image_array_layers, 1);
    assert_eq!(plan.image_usage, 0x10);
    assert_eq!(plan.sharing, ImageSharing::Concurrent { graphics_family: 0, present_family: 1 });
    assert_eq!(plan.pre_transform, 1);
    assert_eq!(plan.composite_alpha, 0x1);
    assert_eq!(plan.present_mode, PRESENT_MODE_MAILBOX);
    assert!(plan.clipped);
}

#[test]
fn image_view_plan_is_single_color_2d() {
    let plan = image_view_plan(FORMAT_B8G8R8A8_UNORM);
    assert_eq!(plan.view_type, 1);
    assert_eq!(plan.format, FORMAT_B8G8R8A8_UNORM);
    assert_eq!(plan.components, ComponentMapping { r: 0, g: 0, b: 0, a: 0 });
    assert_eq!(plan.aspect_mask, 1);
    assert_eq!((plan.base_mip_level, plan.level_count), (0, 1));
    assert_eq!((plan.base_array_layer, plan.layer_count), (0, 1));
}
