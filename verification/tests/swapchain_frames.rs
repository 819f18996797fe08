//! Device selection, swapchain policy, per-frame resources, the frame
//! loop's state machine and the input control state.

use rvm::device::{
    create_device_connection, find_correct_physical_devices, get_device_queue_create_infos,
    get_physical_device_local_memory, get_right_devices, sort_physical_devices_by_device_type,
    DeviceType, MemoryHeap, PhysicalDeviceCandidate, Queue, QueueFamily,
};
use rvm::capability::CapabilitySet;
use rvm::errors::{BuildError, DeviceCreationError, SwapchainError};
use rvm::frame_loop::{
    AcquireOutcome, FrameLoopDriver, FrameState, PresentOutcome, SubmitOutcome,
};
use rvm::init_info::{DeviceInitInfo, KHR_SWAPCHAIN};
use rvm::input::{
    ButtonState, InputControlState, PAN_BUTTON, TOGGLE_FULLSCREEN_SCANCODE,
    TOGGLE_OVERLAY_SCANCODE, ZOOM_BUTTON,
};
use rvm::resources::{build_per_frame_resources, SharedParameterBuffer};
use rvm::swapchain::{
    choose_image_count, choose_storage_format, choose_surface_format, create_swapchain,
    recreate_swapchain, Extent, FormatInfo, SurfaceCapabilities,
};

fn set_of(caps: &[u64]) -> CapabilitySet {
    let mut s = CapabilitySet::empty();
    for &c in caps {
        s.enable(c);
    }
    s
}

fn candidate(index: u32, device_type: DeviceType, extensions: &[u64]) -> PhysicalDeviceCandidate {
    PhysicalDeviceCandidate {
        enumeration_index: index,
        device_type,
        supported_extensions: set_of(extensions),
        supported_features: CapabilitySet::empty(),
        local_memory: 0,
    }
}

#[test]
fn ranking_is_a_stable_partition() {
    let devices = vec![
        candidate(0, DeviceType::IntegratedGpu, &[KHR_SWAPCHAIN]),
        candidate(1, DeviceType::DiscreteGpu, &[KHR_SWAPCHAIN]),
        candidate(2, DeviceType::Other, &[KHR_SWAPCHAIN]),
        candidate(3, DeviceType::DiscreteGpu, &[KHR_SWAPCHAIN]),
    ];
    let ranked = sort_physical_devices_by_device_type(devices);
    let order: Vec<u32> = ranked.iter().map(|d| d.enumeration_index).collect();
    // discrete devices first, both groups in enumeration order
    assert_eq!(order, vec![1, 3, 0, 2]);
}

#[test]
fn selector_filters_by_required_capabilities() {
    let info = DeviceInitInfo::default();
    let devices = vec![
        candidate(0, DeviceType::DiscreteGpu, &[]),
        candidate(1, DeviceType::IntegratedGpu, &[KHR_SWAPCHAIN]),
        candidate(2, DeviceType::DiscreteGpu, &[KHR_SWAPCHAIN]),
    ];
    let suitable = find_correct_physical_devices(&devices, &info);
    let order: Vec<u32> = suitable.iter().map(|d| d.enumeration_index).collect();
    assert_eq!(order, vec![1, 2]);

    let ranked_and_filtered = get_right_devices(
        vec![
            candidate(0, DeviceType::DiscreteGpu, &[]),
            candidate(1, DeviceType::IntegratedGpu, &[KHR_SWAPCHAIN]),
            candidate(2, DeviceType::DiscreteGpu, &[KHR_SWAPCHAIN]),
        ],
        &info,
    )
    .unwrap();
    let order: Vec<u32> = ranked_and_filtered.iter().map(|d| d.enumeration_index).collect();
    assert_eq!(order, vec![2, 1]);

    let none = get_right_devices(vec![candidate(0, DeviceType::DiscreteGpu, &[])], &info);
    assert!(none.is_err());
    assert!(get_right_devices(Vec::new(), &info).is_err());
}

#[test]
fn local_memory_sums_device_local_heaps() {
    let heaps = vec![
        MemoryHeap { size: 4096, device_local: true },
        MemoryHeap { size: 1024, device_local: false },
        MemoryHeap { size: 2048, device_local: true },
    ];
    assert_eq!(get_physical_device_local_memory(&heaps), 6144);
}

#[test]
fn queue_requests_take_families_with_compute_and_transfer() {
    let families = vec![
        QueueFamily { graphics: true, compute: false, transfer: true },
        QueueFamily { graphics: false, compute: true, transfer: true },
        QueueFamily { graphics: true, compute: true, transfer: true },
    ];
    let infos = get_device_queue_create_infos(&families).unwrap();
    let indices: Vec<u32> = infos.iter().map(|i| i.queue_family_index).collect();
    assert_eq!(indices, vec![1, 2]);

    let unusable = vec![QueueFamily { graphics: true, compute: false, transfer: true }];
    assert_eq!(
        get_device_queue_create_infos(&unusable),
        Err(DeviceCreationError::NoQueueFamilyAvailable)
    );
}

#[test]
fn device_connection_negotiates_and_returns_queues() {
    let info = DeviceInitInfo::default();
    let device = candidate(0, DeviceType::DiscreteGpu, &[KHR_SWAPCHAIN]);
    let families = vec![
        QueueFamily { graphics: true, compute: false, transfer: true },
        QueueFamily { graphics: false, compute: true, transfer: true },
    ];
    let (handle, queues) = create_device_connection(&device, &families, &info).unwrap();
    assert_eq!(handle.enabled_extensions, set_of(&[KHR_SWAPCHAIN]));
    assert_eq!(handle.enabled_features, CapabilitySet::empty());
    assert_eq!(
        queues,
        vec![Queue { queue_family_index: 1, index_within_family: 0 }]
    );

    let bare = candidate(1, DeviceType::DiscreteGpu, &[]);
    assert_eq!(
        create_device_connection(&bare, &families, &info),
        Err(DeviceCreationError::ExtensionNotPresent)
    );
    let mut feature_hungry = info;
    feature_hungry.required_features = set_of(&[0]);
    assert_eq!(
        create_device_connection(&device, &families, &feature_hungry),
        Err(DeviceCreationError::FeatureNotPresent)
    );
}

#[test]
fn image_count_prefers_triple_buffering() {
    // min = 2, no maximum: triple buffering
    assert_eq!(choose_image_count(2, None), 3);
    // min = 2, max = 2: clamped down despite the preference
    assert_eq!(choose_image_count(2, Some(2)), 2);
    assert_eq!(choose_image_count(3, Some(10)), 3);
    assert_eq!(choose_image_count(5, None), 5);
    assert_eq!(choose_image_count(1, Some(2)), 2);
    assert_eq!(choose_image_count(4, Some(4)), 4);
}

#[test]
fn surface_format_prefers_exact_match() {
    let formats = vec![
        FormatInfo { format: 10, srgb: false, storage_supported: true },
        FormatInfo { format: 50, srgb: true, storage_supported: false },
    ];
    assert_eq!(choose_surface_format(&formats, 50).format, 50);
    // no exact match: the first reported format
    assert_eq!(choose_surface_format(&formats, 7).format, 10);
}

#[test]
fn storage_format_chain() {
    let linear = FormatInfo { format: 10, srgb: false, storage_supported: true };
    let srgb = FormatInfo { format: 50, srgb: true, storage_supported: true };
    let other_storage = FormatInfo { format: 77, srgb: false, storage_supported: true };
    let plain = FormatInfo { format: 99, srgb: false, storage_supported: false };
    assert_eq!(
        choose_storage_format(&vec![plain, srgb, linear], 10, 50).format,
        10
    );
    assert_eq!(choose_storage_format(&vec![plain, srgb], 10, 50).format, 50);
    assert_eq!(
        choose_storage_format(&vec![plain, other_storage], 10, 50).format,
        77
    );
    assert_eq!(choose_storage_format(&vec![plain], 10, 50).format, 99);
}

#[test]
fn swapchain_creation_applies_the_policy() {
    let caps = SurfaceCapabilities {
        min_image_count: 2,
        max_image_count: None,
        current_extent: Some(Extent { width: 800, height: 600 }),
    };
    let formats = vec![FormatInfo { format: 44, srgb: true, storage_supported: false }];
    let (sc, images) = create_swapchain(&caps, &formats, 44).unwrap();
    assert_eq!(sc.image_count, 3);
    assert_eq!(sc.format.format, 44);
    assert_eq!(sc.extent, Extent { width: 800, height: 600 });
    assert_eq!(sc.generation, 0);
    assert!(sc.usage.transfer_dst && sc.usage.color_attachment);
    assert_eq!(images.len(), 3);
    for (i, img) in images.iter().enumerate() {
        assert_eq!(img.image_index as usize, i);
        assert_eq!(img.generation, 0);
    }
    assert_eq!(
        create_swapchain(&caps, &Vec::new(), 44).map(|_| ()),
        Err(SwapchainError::NoSurfaceFormats)
    );
}

#[test]
fn resize_recreates_and_rebuilds_per_frame_resources() {
    // the window grows from 800x600 to 1024x768 mid-run
    let caps = SurfaceCapabilities {
        min_image_count: 2,
        max_image_count: None,
        current_extent: Some(Extent { width: 800, height: 600 }),
    };
    let formats = vec![FormatInfo { format: 44, srgb: true, storage_supported: false }];
    let (sc, _) = create_swapchain(&caps, &formats, 44).unwrap();
    let (sc2, images2) = recreate_swapchain(&sc, Extent { width: 1024, height: 768 }).unwrap();
    assert_eq!(sc2.extent, Extent { width: 1024, height: 768 });
    assert_eq!(sc2.generation, sc.generation + 1);
    assert_eq!(sc2.image_count, sc.image_count);
    assert_eq!(images2.len() as u32, sc2.image_count);

    let buffer = SharedParameterBuffer { buffer_id: 7 };
    let set = build_per_frame_resources(&sc2, &images2, buffer).unwrap();
    assert_eq!(set.views.len() as u32, sc2.image_count);
    assert_eq!(set.descriptor_sets.len() as u32, sc2.image_count);
    assert_eq!(set.command_buffers.len() as u32, sc2.image_count);
    assert_eq!(set.generation, sc2.generation);
    for (i, cb) in set.command_buffers.iter().enumerate() {
        assert_eq!(cb.image_index as usize, i);
        // ceil(1024 / 16) and ceil(768 / 16)
        assert_eq!(cb.dispatch_x, 64);
        assert_eq!(cb.dispatch_y, 48);
        assert_eq!(cb.dispatch_z, 1);
        assert!(cb.copies_to_presentable);
    }
    for (i, ds) in set.descriptor_sets.iter().enumerate() {
        assert_eq!(ds.image_view.image_index as usize, i);
        assert_eq!(ds.parameter_buffer, buffer);
    }

    // an uneven extent rounds its dispatch up
    let (sc3, images3) = recreate_swapchain(&sc2, Extent { width: 1000, height: 500 }).unwrap();
    let set3 = build_per_frame_resources(&sc3, &images3, buffer).unwrap();
    assert_eq!(set3.command_buffers[0].dispatch_x, 63);
    assert_eq!(set3.command_buffers[0].dispatch_y, 32);

    // a degenerate extent is refused and the old swapchain stays usable
    assert_eq!(
        recreate_swapchain(&sc3, Extent { width: 0, height: 500 }).map(|_| ()),
        Err(SwapchainError::ExtentOutOfBounds)
    );
    assert_eq!(sc3.extent, Extent { width: 1000, height: 500 });
}

#[test]
fn stale_resources_are_refused_by_the_builder() {
    let caps = SurfaceCapabilities {
        min_image_count: 3,
        max_image_count: Some(3),
        current_extent: Some(Extent { width: 64, height: 64 }),
    };
    let formats = vec![FormatInfo { format: 44, srgb: true, storage_supported: false }];
    let (sc, images) = create_swapchain(&caps, &formats, 44).unwrap();
    let buffer = SharedParameterBuffer { buffer_id: 1 };

    let mut short = images.clone();
    short.pop();
    assert_eq!(
        build_per_frame_resources(&sc, &short, buffer).map(|_| ()),
        Err(BuildError::ImageCountMismatch)
    );

    let (sc2, _) = recreate_swapchain(&sc, Extent { width: 32, height: 32 }).unwrap();
    // images of the old generation against the new swapchain
    assert_eq!(
        build_per_frame_resources(&sc2, &images, buffer).map(|_| ()),
        Err(BuildError::GenerationMismatch)
    );
}

#[test]
fn frame_loop_out_of_date_acquire_drops_the_frame() {
    let mut driver = FrameLoopDriver::new(0);
    assert!(driver.begin_frame());
    assert_eq!(driver.state, FrameState::Acquiring);
    driver.on_acquire(AcquireOutcome::OutOfDate);
    // back to idle, nothing written to the shared parameter buffer
    assert_eq!(driver.state, FrameState::Idle);
    assert_eq!(driver.parameter_writes, 0);
    assert!(driver.needs_rebuild);
    // no frame starts until the swapchain and resources are rebuilt
    assert!(!driver.begin_frame());
    driver.note_swapchain_recreated(1);
    driver.note_resources_rebuilt(1);
    assert!(!driver.needs_rebuild);
    assert!(driver.begin_frame());
}

#[test]
fn frame_loop_writes_parameters_only_after_presentation() {
    let mut driver = FrameLoopDriver::new(0);
    assert!(driver.begin_frame());
    driver.on_acquire(AcquireOutcome::Image { image_index: 2, suboptimal: false });
    assert_eq!(driver.state, FrameState::Rendering);
    assert_eq!(driver.pending_image, Some(2));
    driver.on_submit(SubmitOutcome::Submitted);
    assert_eq!(driver.state, FrameState::Presenting);
    driver.on_present(PresentOutcome::Presented);
    assert_eq!(driver.state, FrameState::Idle);
    assert_eq!(driver.parameter_writes, 1);

    // an out-of-date present drops the frame without a write
    assert!(driver.begin_frame());
    driver.on_acquire(AcquireOutcome::Image { image_index: 0, suboptimal: true });
    driver.on_submit(SubmitOutcome::Submitted);
    driver.on_present(PresentOutcome::OutOfDate);
    assert_eq!(driver.state, FrameState::Idle);
    assert_eq!(driver.parameter_writes, 1);
    assert!(driver.needs_rebuild);
}

#[test]
fn frame_loop_failures() {
    let mut driver = FrameLoopDriver::new(0);
    assert!(driver.begin_frame());
    driver.on_acquire(AcquireOutcome::Image { image_index: 1, suboptimal: false });
    // a failed submission skips the frame without touching shared state
    driver.on_submit(SubmitOutcome::SubmitFailed);
    assert_eq!(driver.state, FrameState::Idle);
    assert_eq!(driver.parameter_writes, 0);

    assert!(driver.begin_frame());
    driver.on_acquire(AcquireOutcome::DeviceError);
    assert_eq!(driver.state, FrameState::Fatal);

    let mut other = FrameLoopDriver::new(0);
    assert!(other.begin_frame());
    other.on_acquire(AcquireOutcome::Image { image_index: 0, suboptimal: false });
    other.on_submit(SubmitOutcome::Submitted);
    other.on_present(PresentOutcome::DeviceError);
    assert_eq!(other.state, FrameState::Fatal);
}

#[test]
fn input_toggles_and_mouse_modes() {
    let mut input = InputControlState::new();
    assert!(!input.show_diagnostics && !input.fullscreen);

    input.handle_key(TOGGLE_OVERLAY_SCANCODE, ButtonState::Pressed);
    assert!(!input.show_diagnostics);
    input.handle_key(TOGGLE_OVERLAY_SCANCODE, ButtonState::Released);
    assert!(input.show_diagnostics);
    input.handle_key(TOGGLE_OVERLAY_SCANCODE, ButtonState::Released);
    assert!(!input.show_diagnostics);

    input.handle_key(TOGGLE_FULLSCREEN_SCANCODE, ButtonState::Released);
    assert!(input.fullscreen);
    input.handle_key(9, ButtonState::Released);
    assert!(input.fullscreen);

    input.handle_mouse_button(PAN_BUTTON, ButtonState::Pressed);
    assert!(input.pan_active && !input.zoom_active);
    input.handle_mouse_button(PAN_BUTTON, ButtonState::Released);
    assert!(!input.pan_active);
    input.handle_mouse_button(ZOOM_BUTTON, ButtonState::Pressed);
    assert!(input.zoom_active && !input.pan_active);
    input.handle_mouse_button(7, ButtonState::Pressed);
    assert!(!input.zoom_active && !input.pan_active);
}
