use vk_bootstrap::capability::{check_validation_layer_support, get_extension_names, instance_settings, PipelineConfig};
use vk_bootstrap::diagnostics::{debug_message_level, debug_messenger_settings, LogLevel};
use vk_bootstrap::error::{AppError, SetupError};

fn strings(names: &[&str]) -> Vec<String> {
    names.iter().map(|n| n.to_string()).collect()
}

#[test]
fn all_layers_present() {
    let available = strings(&["VK_LAYER_A", "VK_LAYER_KHRONOS_validation"]);
    assert!(check_validation_layer_support(&available, &strings(&["VK_LAYER_KHRONOS_validation"])).is_ok());
}

#[test]
fn missing_layers_all_listed() {
    let available = strings(&["VK_LAYER_B"]);
    let required = strings(&["VK_LAYER_A", "VK_LAYER_B", "VK_LAYER_C"]);
    match check_validation_layer_support(&available, &required) {
        Err(SetupError::MissingCapability { missing }) => assert_eq!(missing, strings(&["VK_LAYER_A", "VK_LAYER_C"])),
        other => panic!("unexpected {:?}", other),
    }
}

#[test]
fn nothing_required_nothing_missing() {
    assert!(check_validation_layer_support(&vec![], &vec![]).is_ok());
}

#[test]
fn baseline_extensions_without_platform() {
    assert_eq!(get_extension_names(None), strings(&["VK_KHR_surface", "VK_EXT_debug_utils"]));
}

#[test]
fn platform_extensions_joined_without_duplicates() {
    let platform = strings(&["VK_KHR_surface", "VK_KHR_xlib_surface"]);
    assert_eq!(
        get_extension_names(Some(platform)),
        strings(&["VK_KHR_surface", "VK_KHR_xlib_surface", "VK_EXT_debug_utils"])
    );
}

#[test]
fn standard_config_names() {
    let config = PipelineConfig::standard();
    assert_eq!(config.required_layers, strings(&["VK_LAYER_KHRONOS_validation"]));
    assert_eq!(config.required_device_extensions, strings(&["VK_KHR_swapchain"]));
}

#[test]
fn instance_settings_version_one_zero() {
    let config = PipelineConfig::standard();
    let settings = instance_settings(&config, Some(strings(&["VK_KHR_wayland_surface"])));
    assert_eq!(settings.api_version, 1 << 22);
    assert_eq!(settings.api_version, 4194304);
    assert_eq!(settings.engine_version, 4194304);
    assert_eq!(settings.application_name, "Tutorial Vulkan Application");
    assert_eq!(settings.engine_name, "No Engine");
    assert_eq!(settings.layers, strings(&["VK_LAYER_KHRONOS_validation"]));
    assert_eq!(
        settings.extensions,
        strings(&["VK_KHR_wayland_surface", "VK_KHR_surface", "VK_EXT_debug_utils"])
    );
}

#[test]
fn severity_levels() {
    assert_eq!(debug_message_level(0x1), LogLevel::Debug);
    assert_eq!(debug_message_level(0x10), LogLevel::Info);
    assert_eq!(debug_message_level(0x100), LogLevel::Warn);
    assert_eq!(debug_message_level(0x1000), LogLevel::Error);
    assert_eq!(debug_message_level(0x11), LogLevel::Error);
}

#[test]
fn messenger_masks() {
    let s = debug_messenger_settings();
    assert_eq!(s.severity_mask, 0x1110);
    assert_eq!(s.type_mask, 0x7);
}

#[test]
fn app_error_keeps_message() {
    let e = AppError::new("Missing Validation Layers");
    assert_eq!(e.description(), "Missing Validation Layers");
}

#[test]
fn only_missing_window_is_not_fatal() {
    assert!(!SetupError::WindowHandleUnavailable.is_fatal());
    assert!(SetupError::NoDevicesFound.is_fatal());
    assert!(SetupError::ConnectionCreationFailed { code: -3 }.is_fatal());
    assert!(SetupError::SurfaceBindingFailed { code: -7 }.is_fatal());
    assert!(SetupError::LogicalDeviceCreationFailed { code: -3 }.is_fatal());
    assert!(SetupError::SwapChainCreationFailed { code: -4 }.is_fatal());
    assert!(SetupError::ImageViewCreationFailed { code: -2 }.is_fatal());
    assert!(SetupError::MissingCapability { missing: vec![] }.is_fatal());
}
