//! Capability negotiation, init-info defaults, instance extension control,
//! the application builder and the logging sink.

use rvm::builder::{ApplicationBuilder, Platform};
use rvm::capability::{confirm, CapabilityError, CapabilitySet};
use rvm::errors::{AppInitError, LogError, RendererInitError};
use rvm::init_info::{
    DeviceInitInfo, InstanceInitInfo, KHR_GET_PHYSICAL_DEVICE_PROPERTIES2,
    KHR_GET_SURFACE_CAPABILITIES2, KHR_SURFACE, KHR_SWAPCHAIN, KHR_WIN32_SURFACE,
};
use rvm::instance::{
    ApiVersion, InstExtControlCreateResult, InstanceExtensionsControl, VulkanInstance,
};
use rvm::logging::{init_log, last_message, log_error, log_info, log_warn, Logger};

fn set_of(caps: &[u64]) -> CapabilitySet {
    let mut s = CapabilitySet::empty();
    for &c in caps {
        s.enable(c);
    }
    s
}

#[test]
fn confirm_required_subset_with_empty_preferred() {
    // required = {surface, win32_surface}, preferred = {},
    // supported = {surface, win32_surface, get_physical_device_properties2}
    let required = set_of(&[KHR_SURFACE, KHR_WIN32_SURFACE]);
    let preferred = CapabilitySet::empty();
    let supported = set_of(&[
        KHR_SURFACE,
        KHR_WIN32_SURFACE,
        KHR_GET_PHYSICAL_DEVICE_PROPERTIES2,
    ]);
    let confirmed = confirm(&required, &preferred, &supported).unwrap();
    assert_eq!(confirmed, required);
}

#[test]
fn confirm_missing_required_capability() {
    // required = {surface}, supported = {}
    let required = set_of(&[KHR_SURFACE]);
    let preferred = CapabilitySet::empty();
    let supported = CapabilitySet::empty();
    let result = confirm(&required, &preferred, &supported);
    assert_eq!(result, Err(CapabilityError::MissingRequiredCapability));
}

#[test]
fn confirm_keeps_supported_preferred_and_drops_the_rest() {
    let required = set_of(&[0]);
    let preferred = set_of(&[1, 2]);
    let supported = set_of(&[0, 2, 3]);
    let confirmed = confirm(&required, &preferred, &supported).unwrap();
    // required ∪ (supported ∩ preferred) = {0} ∪ {2}
    assert_eq!(confirmed, set_of(&[0, 2]));
}

#[test]
fn confirm_twice_gives_identical_sets() {
    let required = set_of(&[0, 5]);
    let preferred = set_of(&[1, 6]);
    let supported = set_of(&[0, 1, 5, 63]);
    let first = confirm(&required, &preferred, &supported).unwrap();
    let second = confirm(&required, &preferred, &supported).unwrap();
    assert_eq!(first, second);
    assert_eq!(first.bits, second.bits);
}

#[test]
fn confirm_with_the_full_vocabulary() {
    let mut all = CapabilitySet::empty();
    for c in 0..64 {
        all.enable(c);
    }
    let confirmed = confirm(&all, &CapabilitySet::empty(), &all).unwrap();
    assert_eq!(confirmed, all);
    assert_eq!(confirmed.bits, u64::MAX);
    let with_preferred = confirm(&CapabilitySet::empty(), &all, &all).unwrap();
    assert_eq!(with_preferred, all);
}

#[test]
fn instance_init_info_default_negotiates_its_requirements() {
    let info = InstanceInitInfo::default();
    let supported = set_of(&[
        KHR_SURFACE,
        KHR_WIN32_SURFACE,
        KHR_GET_SURFACE_CAPABILITIES2,
        KHR_GET_PHYSICAL_DEVICE_PROPERTIES2,
    ]);
    let confirmed = info.confirm_extensions(&supported).unwrap();
    assert_eq!(
        confirmed,
        set_of(&[KHR_SURFACE, KHR_WIN32_SURFACE, KHR_GET_SURFACE_CAPABILITIES2])
    );
    let too_little = set_of(&[KHR_SURFACE]);
    assert!(info.confirm_extensions(&too_little).is_err());
}

#[test]
fn device_init_info_default_negotiates_extensions_and_features() {
    let info = DeviceInitInfo::default();
    let supported_ext = set_of(&[KHR_SWAPCHAIN, rvm::init_info::KHR_DEVICE_GROUP]);
    let confirmed = info.confirm_extensions(&supported_ext).unwrap();
    assert_eq!(
        confirmed,
        set_of(&[KHR_SWAPCHAIN, rvm::init_info::KHR_DEVICE_GROUP])
    );
    // no features are required, so an empty supported set still succeeds
    let features = info.confirm_features(&CapabilitySet::empty()).unwrap();
    assert_eq!(features, CapabilitySet::empty());
    assert!(info.confirm_extensions(&CapabilitySet::empty()).is_err());
}

#[test]
fn minimal_instance_extension_check() {
    let supported = set_of(&[KHR_SURFACE, KHR_WIN32_SURFACE, KHR_GET_SURFACE_CAPABILITIES2]);
    match InstanceExtensionsControl::new_windows_minimal(&supported) {
        InstExtControlCreateResult::Complete(c) => {
            assert_eq!(*c.current_extensions(), supported);
            assert_eq!(*c.minimal_extensions(), supported);
            assert_eq!(*c.preferred_extensions(), CapabilitySet::empty());
        }
        _ => panic!("minimal set is supported, the check must succeed"),
    }
    let missing = set_of(&[KHR_SURFACE]);
    assert!(matches!(
        InstanceExtensionsControl::new_windows_minimal(&missing),
        InstExtControlCreateResult::MinExtNotSupported
    ));
}

#[test]
fn full_instance_extension_check_reports_missing_preferred() {
    let minimal_only = set_of(&[KHR_SURFACE, KHR_WIN32_SURFACE, KHR_GET_SURFACE_CAPABILITIES2]);
    match InstanceExtensionsControl::new_windows(&minimal_only) {
        InstExtControlCreateResult::PreferredExtNotSupported(c) => {
            assert_eq!(*c.current_extensions(), minimal_only);
            assert_eq!(
                c.missing_extensions(),
                set_of(&[KHR_GET_PHYSICAL_DEVICE_PROPERTIES2])
            );
        }
        _ => panic!("a missing preferred extension must be reported"),
    }
    let everything = set_of(&[
        KHR_SURFACE,
        KHR_WIN32_SURFACE,
        KHR_GET_SURFACE_CAPABILITIES2,
        KHR_GET_PHYSICAL_DEVICE_PROPERTIES2,
    ]);
    match InstanceExtensionsControl::new_windows(&everything) {
        InstExtControlCreateResult::Complete(c) => {
            assert_eq!(*c.current_extensions(), everything);
            assert_eq!(c.missing_extensions(), CapabilitySet::empty());
        }
        _ => panic!("everything is supported, the check must succeed"),
    }
}

#[test]
fn vulkan_instance_validates_enabled_extensions() {
    let supported = set_of(&[KHR_SURFACE, KHR_WIN32_SURFACE, KHR_GET_SURFACE_CAPABILITIES2]);
    let control = match InstanceExtensionsControl::new_windows_minimal(&supported) {
        InstExtControlCreateResult::Complete(c) => c,
        _ => panic!("minimal set is supported"),
    };
    let version = ApiVersion { major: 1, minor: 3, patch: 201 };
    // the driver enabled fewer extensions than asked for
    let refused = VulkanInstance::new(version, set_of(&[KHR_SURFACE]), control);
    assert!(matches!(
        refused,
        Err(RendererInitError::InstanceExtNotSupported)
    ));
    let vi = VulkanInstance::new(version, supported, control).unwrap();
    assert_eq!(vi.api_version(), version);
    assert_eq!(*vi.current_extensions(), supported);
    assert_eq!(vi.missing_extensions(), CapabilitySet::empty());
}

#[test]
fn builder_selects_the_platform_path() {
    let builder = ApplicationBuilder::new();
    assert!(matches!(
        builder.select_platform(true, false, "windows"),
        Ok(Platform::Windows)
    ));
    assert!(matches!(
        builder.select_platform(false, true, "android"),
        Ok(Platform::Android)
    ));
    match builder.select_platform(false, false, "linux") {
        Err(AppInitError::OSNotSupported(name)) => assert_eq!(name, "linux"),
        _ => panic!("an unsupported OS must be reported by name"),
    }
}

#[test]
fn logger_records_the_last_message_and_level() {
    let mut logger = Logger::new();
    assert_eq!(logger.last_message(), "");
    logger.log_info("starting up");
    assert_eq!(logger.last_message(), "starting up");
    logger.log_error("device lost");
    assert_eq!(logger.last_message(), "device lost");
}

#[test]
fn log_slot_lifecycle() {
    let mut slot: Option<Logger> = None;
    assert_eq!(last_message(&slot), Err(LogError::NotInitialized));
    log_info(&mut slot, "dropped on the floor");
    assert!(slot.is_none());
    assert_eq!(init_log(&mut slot), Ok(()));
    assert!(slot.is_some());
    log_info(&mut slot, "first");
    log_warn(&mut slot, "second");
    assert_eq!(last_message(&slot), Ok(String::from("second")));
    log_error(&mut slot, "third");
    assert_eq!(last_message(&slot), Ok(String::from("third")));
    // initializing again keeps the logger and its state
    assert_eq!(init_log(&mut slot), Ok(()));
    assert_eq!(last_message(&slot), Ok(String::from("third")));
}
