use vk_bootstrap::device::{
    devices_extension_support, devices_queue_family_support, devices_swapchain_adequate,
    physical_devices, pick_physical_device, queue_create_families, select_device, CandidateDevice,
    DeviceDetails, QueueFamily, SuitableDevice,
};
use vk_bootstrap::error::{FilterStage, SetupError};
use vk_bootstrap::swapchain::{SurfaceFormat, PRESENT_MODE_FIFO};

fn family(queue_count: u32, graphics: bool, present_support: bool) -> QueueFamily {
    QueueFamily { queue_count, graphics, present_support }
}

fn device(handle: u64, extensions: &[&str], adequate: bool, families: Vec<QueueFamily>) -> CandidateDevice {
    CandidateDevice {
        handle,
        name: format!("gpu{}", handle),
        extensions: extensions.iter().map(|e| e.to_string()).collect(),
        formats: if adequate { vec![SurfaceFormat { format: 44, color_space: 0 }] } else { vec![] },
        present_modes: if adequate { vec![PRESENT_MODE_FIFO] } else { vec![] },
        queue_families: families,
    }
}

fn required() -> Vec<String> {
    vec!["VK_KHR_swapchain".to_string()]
}

fn good(handle: u64) -> CandidateDevice {
    device(handle, &["VK_KHR_swapchain"], true, vec![family(1, true, true)])
}

fn handles(devices: &[CandidateDevice]) -> Vec<u64> {
    devices.iter().map(|d| d.handle).collect()
}

#[test]
fn extension_filter_keeps_devices_with_all_extensions() {
    let devices = vec![
        device(1, &["VK_KHR_swapchain", "VK_KHR_other"], true, vec![]),
        device(2, &["VK_KHR_other"], true, vec![]),
        device(3, &["VK_KHR_swapchain"], false, vec![]),
    ];
    let two = vec!["VK_KHR_swapchain".to_string(), "VK_KHR_other".to_string()];
    assert_eq!(handles(&devices_extension_support(devices, &two)), vec![1]);
}

#[test]
fn extension_filter_keeps_order() {
    let devices = vec![good(5), device(6, &[], true, vec![]), good(7)];
    assert_eq!(handles(&devices_extension_support(devices, &required())), vec![5, 7]);
}

#[test]
fn adequacy_filter_needs_formats_and_modes() {
    let mut no_modes = good(2);
    no_modes.present_modes.clear();
    let mut no_formats = good(3);
    no_formats.formats.clear();
    let devices = vec![good(1), no_modes, no_formats, good(4)];
    assert_eq!(handles(&devices_swapchain_adequate(devices)), vec![1, 4]);
}

#[test]
fn queue_families_first_of_each_role() {
    let d = device(
        9,
        &[],
        true,
        vec![family(0, true, true), family(4, false, true), family(2, true, false), family(1, true, true)],
    );
    let out = devices_queue_family_support(vec![d]);
    assert_eq!(out.len(), 1);
    assert_eq!(out[0].handle, 9);
    assert_eq!(out[0].details.name, "gpu9");
    assert_eq!(out[0].details.graphics_queue_index, 2);
    assert_eq!(out[0].details.present_queue_index, 1);
}

#[test]
fn queue_families_shared_family() {
    let d = device(3, &[], true, vec![family(2, true, true), family(1, true, true)]);
    let out = devices_queue_family_support(vec![d]);
    assert_eq!(out[0].details.graphics_queue_index, 0);
    assert_eq!(out[0].details.present_queue_index, 0);
}

#[test]
fn queue_families_dropped_without_both_roles() {
    let graphics_only = device(1, &[], true, vec![family(1, true, false)]);
    let present_only = device(2, &[], true, vec![family(1, false, true)]);
    let empty_family = device(3, &[], true, vec![family(0, true, true)]);
    let both = device(4, &[], true, vec![family(1, true, false), family(1, false, true)]);
    let out = devices_queue_family_support(vec![graphics_only, present_only, empty_family, both]);
    assert_eq!(out.len(), 1);
    assert_eq!(out[0].handle, 4);
}

#[test]
fn filter_order_does_not_change_selection() {
    let make = || {
        vec![
            device(1, &["VK_KHR_swapchain"], false, vec![family(1, true, true)]),
            device(2, &[], true, vec![family(1, true, true)]),
            good(3),
            device(4, &["VK_KHR_swapchain"], true, vec![family(1, true, false)]),
            good(5),
        ]
    };
    let a = devices_queue_family_support(devices_swapchain_adequate(devices_extension_support(make(), &required())));
    let b = devices_queue_family_support(devices_extension_support(devices_swapchain_adequate(make()), &required()));
    let ha: Vec<u64> = a.iter().map(|s| s.handle).collect();
    let hb: Vec<u64> = b.iter().map(|s| s.handle).collect();
    assert_eq!(ha, vec![3, 5]);
    assert_eq!(ha, hb);
}

#[test]
fn no_devices_found() {
    assert!(matches!(physical_devices(vec![]), Err(SetupError::NoDevicesFound)));
    assert!(matches!(select_device(vec![], &required()), Err(SetupError::NoDevicesFound)));
}

#[test]
fn physical_devices_passes_list_through() {
    let out = physical_devices(vec![good(1), good(2)]).unwrap();
    assert_eq!(handles(&out), vec![1, 2]);
}

#[test]
fn selection_reports_extension_stage() {
    let r = select_device(vec![device(1, &[], true, vec![family(1, true, true)])], &required());
    assert!(matches!(r, Err(SetupError::NoSuitableDevice { stage: FilterStage::ExtensionSupport })));
}

#[test]
fn selection_reports_presentation_stage() {
    let r = select_device(vec![device(1, &["VK_KHR_swapchain"], false, vec![family(1, true, true)])], &required());
    assert!(matches!(r, Err(SetupError::NoSuitableDevice { stage: FilterStage::PresentationAdequacy })));
}

#[test]
fn selection_reports_queue_family_stage() {
    let r = select_device(vec![device(1, &["VK_KHR_swapchain"], true, vec![family(1, true, false)])], &required());
    assert!(matches!(r, Err(SetupError::NoSuitableDevice { stage: FilterStage::QueueFamilySupport })));
}

#[test]
fn selection_picks_first_survivor() {
    let devices = vec![device(1, &[], true, vec![family(1, true, true)]), good(2), good(3)];
    let chosen = select_device(devices, &required()).unwrap();
    assert_eq!(chosen.handle, 2);
    assert_eq!(chosen.details.name, "gpu2");
}

#[test]
fn pick_first_device() {
    let list = vec![
        SuitableDevice { handle: 7, details: DeviceDetails { name: "a".to_string(), graphics_queue_index: 1, present_queue_index: 2 } },
        SuitableDevice { handle: 8, details: DeviceDetails { name: "b".to_string(), graphics_queue_index: 0, present_queue_index: 0 } },
    ];
    let (handle, details) = pick_physical_device(&list).unwrap();
    assert_eq!(handle, 7);
    assert_eq!(details.name, "a");
    assert_eq!((details.graphics_queue_index, details.present_queue_index), (1, 2));
}

#[test]
fn pick_from_empty_fails() {
    let err = pick_physical_device(&vec![]).unwrap_err();
    assert_eq!(err.description(), "No supported physical devices to choose from!");
}

#[test]
fn queue_requests_deduplicated() {
    let shared = DeviceDetails { name: "x".to_string(), graphics_queue_index: 3, present_queue_index: 3 };
    assert_eq!(queue_create_families(&shared), vec![3]);
    let split = DeviceDetails { name: "x".to_string(), graphics_queue_index: 0, present_queue_index: 2 };
    assert_eq!(queue_create_families(&split), vec![0, 2]);
}
