use wgpu_bindings::command::DeviceError;
use wgpu_bindings::error::{ErrorBuffer, ErrorBufferType};
use wgpu_bindings::global::{BufferDescriptor, CreateBufferError, Global};
use wgpu_bindings::id::{Backend, Id};
use wgpu_bindings::message::{access_error_message, Operation};
use wgpu_bindings::registry::InvalidResourceError;
use wgpu_bindings::resource::{
    Device, Limits, BUFFER_USAGE_COPY_DST, BUFFER_USAGE_COPY_SRC, BUFFER_USAGE_MAP_READ,
    BUFFER_USAGE_MAP_WRITE, BUFFER_USAGE_STORAGE, BUFFER_USAGE_UNIFORM,
};
use wgpu_bindings::server::{
    buffer_map_status, find_modifier, is_hardware, restrict_limits, select_memory_type,
    wgpu_server_buffer_destroy,
    wgpu_server_buffer_drop, wgpu_server_buffer_map, wgpu_server_buffer_unmap,
    wgpu_server_device_create_buffer,
    wgpu_vkimage_get_dma_buf_info, BufferAccessError, HostMap, BufferMapAsyncStatus, DeviceType,
    MemoryProperties, NSOperatingSystemVersion, SubresourceLayout, MAX_BUFFER_SIZE,
};

fn id(index: u32) -> Id {
    Id::zip(index, 1, Backend::Vulkan)
}

fn limits() -> Limits {
    Limits {
        max_texture_dimension_1d: 65536,
        max_texture_dimension_2d: 16384,
        max_texture_dimension_3d: 2048,
        max_bind_groups: 8,
        max_sampled_textures_per_shader_stage: 1 << 20,
        max_samplers_per_shader_stage: 16,
        max_storage_buffers_per_shader_stage: 96,
        max_storage_textures_per_shader_stage: 64,
        max_uniform_buffers_per_shader_stage: 12,
        max_uniform_buffer_binding_size: 65536,
        max_storage_buffer_binding_size: u32::MAX,
        max_buffer_size: 1 << 40,
        max_push_constant_size: 128,
        min_storage_buffer_offset_alignment: 256,
        max_compute_workgroups_per_dimension: 65535,
        max_non_sampler_bindings: 1_000_000,
    }
}

fn setup() -> (Global, Id) {
    let mut g = Global::new(Backend::Vulkan);
    let device = g
        .create_device(
            Device {
                limits: limits(),
                features: 0,
                indirect_execution: true,
                indirect_validation: true,
                discard_labels: false,
                valid: true,
            },
            Some(id(0)),
        )
        .unwrap();
    (g, device)
}

fn kind_of(buf: &ErrorBuffer) -> Option<ErrorBufferType> {
    buf.error.as_ref().map(|e| e.kind)
}

fn message_of(buf: &ErrorBuffer) -> Option<&str> {
    buf.error.as_ref().map(|e| e.message.as_str())
}

#[test]
fn buffer_of_size_zero_is_a_validation_error() {
    let (mut g, device) = setup();
    let mut error = ErrorBuffer::new();
    wgpu_server_device_create_buffer(
        &mut g,
        device,
        id(1),
        0,
        BUFFER_USAGE_UNIFORM,
        false,
        false,
        &mut error,
    );
    assert_eq!(kind_of(&error), Some(ErrorBufferType::Validation));
    assert_eq!(message_of(&error), Some("size is zero"));
    // No buffer came to be, and no tracker index was used.
    assert!(g.buffers.get(id(1)).is_err());
    assert_eq!(g.tracker_indices.size(), 0);
    assert!(g.buffer_slots.is_empty());
    // The placeholder can be dropped.
    assert!(g.buffers.contains(id(1)));
    wgpu_server_buffer_drop(&mut g, id(1));
    assert!(!g.buffers.contains(id(1)));
}

#[test]
fn buffer_beyond_the_cap_is_out_of_memory_with_a_placeholder() {
    let (mut g, device) = setup();
    let mut error = ErrorBuffer::new();
    wgpu_server_device_create_buffer(
        &mut g,
        device,
        id(3),
        MAX_BUFFER_SIZE + 1,
        BUFFER_USAGE_STORAGE,
        false,
        false,
        &mut error,
    );
    assert_eq!(kind_of(&error), Some(ErrorBufferType::OutOfMemory));
    assert_eq!(message_of(&error), Some("Out of memory"));
    assert!(g.buffers.contains(id(3)));
    assert_eq!(g.buffers.get(id(3)), Err(InvalidResourceError { id: id(3) }));
    assert_eq!(g.tracker_indices.size(), 0);
    wgpu_server_buffer_destroy(&mut g, id(3));
    wgpu_server_buffer_drop(&mut g, id(3));
    assert!(!g.buffers.contains(id(3)));
    // Dropping again is harmless.
    wgpu_server_buffer_drop(&mut g, id(3));
}

#[test]
fn buffer_at_the_cap_is_created() {
    let (mut g, device) = setup();
    let mut error = ErrorBuffer::new();
    wgpu_server_device_create_buffer(
        &mut g,
        device,
        id(3),
        MAX_BUFFER_SIZE,
        BUFFER_USAGE_STORAGE,
        false,
        false,
        &mut error,
    );
    assert_eq!(kind_of(&error), None);
    let b = *g.buffers.get(id(3)).unwrap();
    assert_eq!(b.size, MAX_BUFFER_SIZE);
    assert_eq!(b.usage, BUFFER_USAGE_STORAGE);
    assert_eq!(b.device, device);
    assert_eq!(b.id, id(3));
    assert!(g.is_buffer_alive(&b));
}

#[test]
fn failed_shared_memory_is_out_of_memory() {
    let (mut g, device) = setup();
    let mut error = ErrorBuffer::new();
    wgpu_server_device_create_buffer(
        &mut g,
        device,
        id(2),
        64,
        BUFFER_USAGE_STORAGE,
        true,
        true,
        &mut error,
    );
    assert_eq!(kind_of(&error), Some(ErrorBufferType::OutOfMemory));
    assert!(g.buffers.contains(id(2)));
    assert!(g.buffers.get(id(2)).is_err());
}

#[test]
fn identifier_in_use_is_an_internal_error() {
    let (mut g, device) = setup();
    let mut error = ErrorBuffer::new();
    wgpu_server_device_create_buffer(&mut g, device, id(2), 64, BUFFER_USAGE_STORAGE, false, false, &mut error);
    assert_eq!(kind_of(&error), None);
    let mut error = ErrorBuffer::new();
    wgpu_server_device_create_buffer(&mut g, device, id(2), 128, BUFFER_USAGE_STORAGE, false, false, &mut error);
    assert_eq!(kind_of(&error), Some(ErrorBufferType::Internal));
    assert_eq!(g.buffers.get(id(2)).unwrap().size, 64);
}

#[test]
fn buffer_descriptions_are_checked_in_order() {
    let (mut g, device) = setup();
    let cases: Vec<(BufferDescriptor, CreateBufferError)> = vec![
        (
            BufferDescriptor { size: 0, usage: 0, mapped_at_creation: true },
            CreateBufferError::ZeroSize,
        ),
        (
            BufferDescriptor { size: 8, usage: 0, mapped_at_creation: false },
            CreateBufferError::InvalidUsage(0),
        ),
        (
            BufferDescriptor { size: 8, usage: 0x400, mapped_at_creation: false },
            CreateBufferError::InvalidUsage(0x400),
        ),
        (
            BufferDescriptor {
                size: 8,
                usage: BUFFER_USAGE_MAP_READ | BUFFER_USAGE_STORAGE,
                mapped_at_creation: false,
            },
            CreateBufferError::UsageMismatch(BUFFER_USAGE_MAP_READ | BUFFER_USAGE_STORAGE),
        ),
        (
            BufferDescriptor {
                size: 8,
                usage: BUFFER_USAGE_MAP_WRITE | BUFFER_USAGE_COPY_DST,
                mapped_at_creation: false,
            },
            CreateBufferError::UsageMismatch(BUFFER_USAGE_MAP_WRITE | BUFFER_USAGE_COPY_DST),
        ),
        (
            BufferDescriptor {
                size: (1 << 40) + 4,
                usage: BUFFER_USAGE_STORAGE,
                mapped_at_creation: false,
            },
            CreateBufferError::MaxBufferSize { requested: (1 << 40) + 4, maximum: 1 << 40 },
        ),
        (
            BufferDescriptor { size: 6, usage: BUFFER_USAGE_STORAGE, mapped_at_creation: true },
            CreateBufferError::UnalignedSize,
        ),
    ];
    for (desc, expected) in cases {
        let (got, e) = g.device_create_buffer(device, &desc, None);
        assert_eq!(e, Some(expected));
        let got = got.unwrap();
        assert!(g.buffers.contains(got));
        assert!(g.buffers.get(got).is_err());
    }
    let (_, e) = g.device_create_buffer(
        id(9),
        &BufferDescriptor { size: 8, usage: BUFFER_USAGE_STORAGE, mapped_at_creation: false },
        None,
    );
    assert_eq!(e, Some(CreateBufferError::InvalidDevice(InvalidResourceError { id: id(9) })));
    g.devices.replace(
        device,
        Device {
            limits: limits(),
            features: 0,
            indirect_execution: true,
            indirect_validation: true,
            discard_labels: false,
            valid: false,
        },
    );
    let (_, e) = g.device_create_buffer(
        device,
        &BufferDescriptor { size: 8, usage: BUFFER_USAGE_STORAGE, mapped_at_creation: false },
        None,
    );
    assert_eq!(e, Some(CreateBufferError::Device(DeviceError::Lost)));
    assert_eq!(g.tracker_indices.size(), 0);
}

#[test]
fn mappable_buffers_go_with_copies() {
    let (mut g, device) = setup();
    let (_, e) = g.device_create_buffer(
        device,
        &BufferDescriptor {
            size: 8,
            usage: BUFFER_USAGE_MAP_READ | BUFFER_USAGE_COPY_DST,
            mapped_at_creation: false,
        },
        None,
    );
    assert_eq!(e, None);
    let (_, e) = g.device_create_buffer(
        device,
        &BufferDescriptor {
            size: 8,
            usage: BUFFER_USAGE_MAP_WRITE | BUFFER_USAGE_COPY_SRC,
            mapped_at_creation: true,
        },
        None,
    );
    assert_eq!(e, None);
}

#[test]
fn dropped_buffer_gives_its_tracker_index_back() {
    let (mut g, device) = setup();
    let desc = BufferDescriptor { size: 16, usage: BUFFER_USAGE_STORAGE, mapped_at_creation: false };
    let (a, _) = g.device_create_buffer(device, &desc, None);
    let (b, _) = g.device_create_buffer(device, &desc, None);
    let (a, b) = (a.unwrap(), b.unwrap());
    let handle_a = *g.buffers.get(a).unwrap();
    let handle_b = *g.buffers.get(b).unwrap();
    assert_ne!(handle_a.tracker_index, handle_b.tracker_index);
    g.buffer_drop(a);
    assert!(!g.is_buffer_alive(&handle_a));
    assert!(g.is_buffer_alive(&handle_b));
    let (c, _) = g.device_create_buffer(device, &desc, None);
    let c = c.unwrap();
    let handle_c = *g.buffers.get(c).unwrap();
    assert_eq!(handle_c.tracker_index, handle_a.tracker_index);
    assert_ne!(c, a);
    // The old handle stays dead though its tracker index lives on.
    assert!(!g.is_buffer_alive(&handle_a));
    assert!(g.is_buffer_alive(&handle_c));
    assert!(g.buffers.get(a).is_err());
}

#[test]
fn devices_the_runtime_cannot_work_with_are_refused() {
    let mut g = Global::new(Backend::Vulkan);
    let mut l = limits();
    l.min_storage_buffer_offset_alignment = 4;
    let odd = Device {
        limits: l,
        features: 0,
        indirect_execution: true,
        indirect_validation: true,
        discard_labels: false,
        valid: true,
    };
    assert_eq!(g.create_device(odd, Some(id(0))), None);
    assert_eq!(g.create_device(Device { indirect_validation: false, ..odd }, Some(id(0))), Some(id(0)));
}

#[test]
fn limits_are_capped() {
    let r = restrict_limits(limits());
    assert_eq!(r.max_buffer_size, 1 << 30);
    assert_eq!(r.max_texture_dimension_1d, 32767);
    assert_eq!(r.max_texture_dimension_2d, 16384);
    assert_eq!(r.max_texture_dimension_3d, 2048);
    assert_eq!(r.max_sampled_textures_per_shader_stage, 64);
    assert_eq!(r.max_samplers_per_shader_stage, 16);
    assert_eq!(r.max_storage_textures_per_shader_stage, 64);
    assert_eq!(r.max_uniform_buffers_per_shader_stage, 12);
    assert_eq!(r.max_storage_buffers_per_shader_stage, 64);
    assert_eq!(r.max_uniform_buffer_binding_size, 65536);
    assert_eq!(r.max_storage_buffer_binding_size, 1 << 30);
    assert_eq!(r.max_non_sampler_bindings, 500_000);
    assert_eq!(r.max_bind_groups, 8);
    assert_eq!(r.max_push_constant_size, 128);
    assert_eq!(r.min_storage_buffer_offset_alignment, 256);
    assert_eq!(r.max_compute_workgroups_per_dimension, 65535);
    assert_eq!(restrict_limits(r), r);
}

#[test]
fn version_comparison_goes_by_major_then_minor() {
    let v = NSOperatingSystemVersion { major: 10, minor: 14, patch: 0 };
    assert!(v.at_least((10, 14), (12, 0), true));
    assert!(!v.at_least((10, 14), (12, 0), false));
    assert!(!v.at_least((10, 15), (9, 0), true));
    assert!(v.at_least((10, 15), (9, 99), false));
    assert!(v.at_least((9, 99), (12, 0), true));
}

#[test]
fn hardware_adapters() {
    assert!(is_hardware(DeviceType::IntegratedGpu));
    assert!(is_hardware(DeviceType::DiscreteGpu));
    assert!(!is_hardware(DeviceType::Cpu));
    assert!(!is_hardware(DeviceType::VirtualGpu));
    assert!(!is_hardware(DeviceType::Other));
}

#[test]
fn map_status_of_each_outcome() {
    let missing = InvalidResourceError { id: id(1) };
    assert_eq!(buffer_map_status(Ok(())), BufferMapAsyncStatus::Success);
    assert_eq!(
        buffer_map_status(Err(BufferAccessError::Device(DeviceError::Lost))),
        BufferMapAsyncStatus::ContextLost
    );
    assert_eq!(
        buffer_map_status(Err(BufferAccessError::InvalidResource(missing))),
        BufferMapAsyncStatus::Invalid
    );
    assert_eq!(
        buffer_map_status(Err(BufferAccessError::DestroyedResource(id(1)))),
        BufferMapAsyncStatus::Invalid
    );
    assert_eq!(
        buffer_map_status(Err(BufferAccessError::AlreadyMapped)),
        BufferMapAsyncStatus::AlreadyMapped
    );
    assert_eq!(
        buffer_map_status(Err(BufferAccessError::MapAlreadyPending)),
        BufferMapAsyncStatus::MapAlreadyPending
    );
    assert_eq!(
        buffer_map_status(Err(BufferAccessError::MissingBufferUsage)),
        BufferMapAsyncStatus::InvalidUsageFlags
    );
    assert_eq!(
        buffer_map_status(Err(BufferAccessError::UnalignedOffset { offset: 3 })),
        BufferMapAsyncStatus::InvalidAlignment
    );
    assert_eq!(
        buffer_map_status(Err(BufferAccessError::NegativeRange { start: 8, end: 4 })),
        BufferMapAsyncStatus::InvalidRange
    );
    assert_eq!(buffer_map_status(Err(BufferAccessError::MapAborted)), BufferMapAsyncStatus::Error);
    assert_eq!(
        buffer_map_status(Err(BufferAccessError::InvalidBufferId)),
        BufferMapAsyncStatus::Invalid
    );
}

#[test]
fn unmapping_reports_every_failure() {
    let (mut g, device) = setup();
    let mut error = ErrorBuffer::new();
    wgpu_server_device_create_buffer(
        &mut g,
        device,
        id(1),
        64,
        BUFFER_USAGE_MAP_READ | BUFFER_USAGE_COPY_DST,
        false,
        false,
        &mut error,
    );
    wgpu_server_device_create_buffer(&mut g, device, id(2), 64, BUFFER_USAGE_COPY_DST, false, false, &mut error);
    assert!(!error.is_set());
    // A buffer that is mapped is unmapped, once.
    assert_eq!(
        wgpu_server_buffer_map(&mut g, id(1), 0, 64, HostMap::Read, &mut error),
        BufferMapAsyncStatus::Success
    );
    assert_eq!(wgpu_server_buffer_unmap(&mut g, id(1), &mut error), Ok(()));
    assert!(!error.is_set());
    assert_eq!(
        wgpu_server_buffer_unmap(&mut g, id(1), &mut error),
        Err(BufferAccessError::NotMapped)
    );
    assert_eq!(error.kind(), Some(ErrorBufferType::Validation));
    assert_eq!(message_of(&error), Some("In the unmapping of a buffer: the buffer is not mapped"));
    let mut error = ErrorBuffer::new();
    // A buffer that never was is reported like any other failure.
    assert_eq!(
        wgpu_server_buffer_unmap(&mut g, id(4), &mut error),
        Err(BufferAccessError::InvalidResource(InvalidResourceError { id: id(4) }))
    );
    assert_eq!(error.kind(), Some(ErrorBufferType::Validation));
    assert_eq!(message_of(&error), Some("In the unmapping of a buffer: the buffer does not exist"));
    // So is one that was dropped.
    wgpu_server_buffer_drop(&mut g, id(2));
    let mut error = ErrorBuffer::new();
    assert!(wgpu_server_buffer_unmap(&mut g, id(2), &mut error).is_err());
    assert_eq!(error.kind(), Some(ErrorBufferType::Validation));
    assert_eq!(message_of(&error), Some("In the unmapping of a buffer: the buffer does not exist"));
    // One whose native buffer was destroyed.
    wgpu_server_buffer_destroy(&mut g, id(1));
    let mut error = ErrorBuffer::new();
    assert_eq!(
        wgpu_server_buffer_unmap(&mut g, id(1), &mut error),
        Err(BufferAccessError::DestroyedResource(id(1)))
    );
    assert_eq!(error.kind(), Some(ErrorBufferType::Validation));
    assert_eq!(
        message_of(&error),
        Some("In the unmapping of a buffer: the buffer has been destroyed")
    );
    // One whose device is lost.
    wgpu_server_device_create_buffer(&mut g, device, id(3), 64, BUFFER_USAGE_COPY_DST, false, false, &mut ErrorBuffer::new());
    g.device_destroy(device);
    let mut error = ErrorBuffer::new();
    assert_eq!(
        wgpu_server_buffer_unmap(&mut g, id(3), &mut error),
        Err(BufferAccessError::Device(DeviceError::Lost))
    );
    assert_eq!(error.kind(), Some(ErrorBufferType::DeviceLost));
    assert_eq!(message_of(&error), Some("In the unmapping of a buffer: the device is lost"));
    // The messages of the failures that the host finds.
    assert_eq!(
        access_error_message(Operation::UnmapBuffer, BufferAccessError::NotMapped),
        "In the unmapping of a buffer: the buffer is not mapped"
    );
    assert_eq!(
        access_error_message(Operation::MapBuffer, BufferAccessError::AlreadyMapped),
        "In the mapping of a buffer: the buffer is mapped already"
    );
}

#[test]
fn dma_buf_info_lists_the_planes() {
    let info = wgpu_vkimage_get_dma_buf_info(
        77,
        &vec![
            SubresourceLayout { offset: 0, row_pitch: 1024 },
            SubresourceLayout { offset: 4096, row_pitch: 512 },
        ],
    );
    assert!(info.is_valid);
    assert_eq!(info.modifier, 77);
    assert_eq!(info.plane_count, 2);
    assert_eq!(info.offsets, [0, 4096, 0]);
    assert_eq!(info.strides, [1024, 512, 0]);
}

#[test]
fn memory_type_selection_takes_the_first_fit() {
    let props = MemoryProperties { memory_type_count: 4, memory_types: vec![0b001, 0b011, 0b111, 0b011, 0b111] };
    assert_eq!(select_memory_type(&props, 0b010, None), Some(1));
    assert_eq!(select_memory_type(&props, 0b110, None), Some(2));
    assert_eq!(select_memory_type(&props, 0b010, Some(0b1000)), Some(3));
    assert_eq!(select_memory_type(&props, 0b100, Some(0b1011)), None);
    assert_eq!(select_memory_type(&props, 0b1000, None), None);
    assert_eq!(select_memory_type(&props, 0, Some(0b0100)), Some(2));
    assert_eq!(select_memory_type(&props, 0, None), Some(0));
    assert_eq!(select_memory_type(&props, 0b111, Some(0b10000)), None);
}

#[test]
fn mapping_is_answered_with_what_the_runtime_knows() {
    let (mut g, device) = setup();
    let mut error = ErrorBuffer::new();
    wgpu_server_device_create_buffer(
        &mut g,
        device,
        id(1),
        64,
        BUFFER_USAGE_MAP_READ | BUFFER_USAGE_COPY_DST,
        false,
        false,
        &mut error,
    );
    assert!(!error.is_set());
    assert_eq!(g.buffer_access(id(1)), Ok(()));
    assert_eq!(wgpu_server_buffer_map(&mut g, id(1), 0, 64, HostMap::Read, &mut error), BufferMapAsyncStatus::Success);
    assert!(!error.is_set());
    // A buffer that does not exist.
    assert_eq!(
        g.buffer_access(id(2)),
        Err(BufferAccessError::InvalidResource(InvalidResourceError { id: id(2) }))
    );
    assert_eq!(wgpu_server_buffer_map(&mut g, id(2), 0, 64, HostMap::Read, &mut error), BufferMapAsyncStatus::Invalid);
    assert_eq!(kind_of(&error), Some(ErrorBufferType::Validation));
    assert_eq!(message_of(&error), Some("In the mapping of a buffer: the buffer does not exist"));
    // A buffer whose native buffer was destroyed.
    wgpu_server_buffer_destroy(&mut g, id(1));
    assert_eq!(g.buffer_access(id(1)), Err(BufferAccessError::DestroyedResource(id(1))));
    let mut error = ErrorBuffer::new();
    assert_eq!(wgpu_server_buffer_map(&mut g, id(1), 0, 64, HostMap::Read, &mut error), BufferMapAsyncStatus::Invalid);
    assert_eq!(kind_of(&error), Some(ErrorBufferType::Validation));
    // A buffer of a device that is lost.
    let mut error = ErrorBuffer::new();
    wgpu_server_device_create_buffer(&mut g, device, id(3), 64, BUFFER_USAGE_COPY_DST, false, false, &mut error);
    g.device_destroy(device);
    assert_eq!(g.buffer_access(id(3)), Err(BufferAccessError::Device(DeviceError::Lost)));
    assert_eq!(wgpu_server_buffer_map(&mut g, id(3), 0, 64, HostMap::Read, &mut error), BufferMapAsyncStatus::ContextLost);
    assert_eq!(kind_of(&error), Some(ErrorBufferType::DeviceLost));
    // Unmapping reports the same; a buffer that was dropped or never was
    // is reported too.
    let mut error = ErrorBuffer::new();
    let _ = wgpu_server_buffer_unmap(&mut g, id(2), &mut error);
    assert_eq!(kind_of(&error), Some(ErrorBufferType::Validation));
    let mut error = ErrorBuffer::new();
    wgpu_server_buffer_drop(&mut g, id(1));
    let _ = wgpu_server_buffer_unmap(&mut g, id(1), &mut error);
    assert_eq!(kind_of(&error), Some(ErrorBufferType::Validation));
    assert_eq!(message_of(&error), Some("In the unmapping of a buffer: the buffer does not exist"));
    let mut error = ErrorBuffer::new();
    let _ = wgpu_server_buffer_unmap(&mut g, id(3), &mut error);
    assert_eq!(kind_of(&error), Some(ErrorBufferType::DeviceLost));
}

#[test]
fn modifier_is_found_at_its_first_place() {
    assert_eq!(find_modifier(&vec![7, 9, 7], 7), Some(0));
    assert_eq!(find_modifier(&vec![7, 9, 7], 9), Some(1));
    assert_eq!(find_modifier(&vec![7, 9, 7], 8), None);
    assert_eq!(find_modifier(&vec![], 0), None);
    assert_eq!(find_modifier(&vec![u64::MAX], u64::MAX), Some(0));
}

#[test]
fn mapping_is_held_to_its_rules_in_order() {
    let (mut g, device) = setup();
    let mut error = ErrorBuffer::new();
    wgpu_server_device_create_buffer(
        &mut g,
        device,
        id(1),
        64,
        BUFFER_USAGE_MAP_READ | BUFFER_USAGE_COPY_DST,
        false,
        false,
        &mut error,
    );
    wgpu_server_device_create_buffer(
        &mut g,
        device,
        id(2),
        64,
        BUFFER_USAGE_MAP_WRITE | BUFFER_USAGE_COPY_SRC,
        false,
        false,
        &mut error,
    );
    assert!(!error.is_set());
    assert_eq!(g.buffer_map_check(id(1), HostMap::Read, 0, 64), Ok(()));
    assert_eq!(g.buffer_map_check(id(1), HostMap::Read, 8, 56), Ok(()));
    assert_eq!(g.buffer_map_check(id(1), HostMap::Read, 64, 0), Ok(()));
    assert_eq!(g.buffer_map_check(id(2), HostMap::Write, 16, 4), Ok(()));
    // The start is a multiple of eight, the size of four.
    assert_eq!(
        g.buffer_map_check(id(1), HostMap::Read, 4, 8),
        Err(BufferAccessError::UnalignedOffset { offset: 4 })
    );
    assert_eq!(
        g.buffer_map_check(id(1), HostMap::Read, 8, 6),
        Err(BufferAccessError::UnalignedRangeSize { range_size: 6 })
    );
    // The alignment comes before the usage, the usage before the range.
    assert_eq!(
        g.buffer_map_check(id(1), HostMap::Write, 4, 6),
        Err(BufferAccessError::UnalignedOffset { offset: 4 })
    );
    assert_eq!(
        g.buffer_map_check(id(1), HostMap::Write, 0, 128),
        Err(BufferAccessError::MissingBufferUsage)
    );
    assert_eq!(
        g.buffer_map_check(id(2), HostMap::Read, 0, 8),
        Err(BufferAccessError::MissingBufferUsage)
    );
    assert_eq!(
        g.buffer_map_check(id(1), HostMap::Read, 8, 60),
        Err(BufferAccessError::OutOfBoundsOverrun { index: 68, max: 64 })
    );
    assert_eq!(
        g.buffer_map_check(id(1), HostMap::Read, 72, 0),
        Err(BufferAccessError::OutOfBoundsOverrun { index: 72, max: 64 })
    );
    assert_eq!(
        g.buffer_map_check(id(1), HostMap::Read, u64::MAX - 7, 16),
        Err(BufferAccessError::OutOfBoundsOverrun { index: u64::MAX, max: 64 })
    );
    assert_eq!(
        g.buffer_map_check(id(9), HostMap::Read, 3, 3),
        Err(BufferAccessError::InvalidResource(InvalidResourceError { id: id(9) }))
    );
    // Each failure has its status and its message.
    let mut error = ErrorBuffer::new();
    assert_eq!(
        wgpu_server_buffer_map(&mut g, id(1), 4, 8, HostMap::Read, &mut error),
        BufferMapAsyncStatus::InvalidAlignment
    );
    assert_eq!(message_of(&error), Some("In the mapping of a buffer: the offset is no multiple of eight"));
    let mut error = ErrorBuffer::new();
    assert_eq!(
        wgpu_server_buffer_map(&mut g, id(1), 0, 8, HostMap::Write, &mut error),
        BufferMapAsyncStatus::InvalidUsageFlags
    );
    assert_eq!(kind_of(&error), Some(ErrorBufferType::Validation));
    let mut error = ErrorBuffer::new();
    assert_eq!(
        wgpu_server_buffer_map(&mut g, id(1), 0, 72, HostMap::Read, &mut error),
        BufferMapAsyncStatus::InvalidRange
    );
    assert_eq!(message_of(&error), Some("In the mapping of a buffer: the range reaches beyond the buffer"));
    // A buffer that was destroyed, after every rule on the request.
    wgpu_server_buffer_destroy(&mut g, id(1));
    assert_eq!(
        g.buffer_map_check(id(1), HostMap::Read, 0, 64),
        Err(BufferAccessError::DestroyedResource(id(1)))
    );
    assert_eq!(
        g.buffer_map_check(id(1), HostMap::Read, 0, 72),
        Err(BufferAccessError::OutOfBoundsOverrun { index: 72, max: 64 })
    );
    // Destroying a second time leaves what one call leaves.
    let slots = g.buffer_slots.clone();
    wgpu_server_buffer_destroy(&mut g, id(1));
    assert_eq!(g.buffer_slots, slots);
    assert!(g.buffers.get(id(1)).is_ok());
    assert!(g.buffers.get(id(2)).is_ok());
    assert_eq!(g.buffer_map_check(id(2), HostMap::Write, 0, 64), Ok(()));
}

#[test]
fn creation_and_drop_touch_no_native_buffer_but_their_own() {
    let (mut g, device) = setup();
    let mut error = ErrorBuffer::new();
    wgpu_server_device_create_buffer(&mut g, device, id(1), 64, BUFFER_USAGE_COPY_DST, false, false, &mut error);
    wgpu_server_device_create_buffer(&mut g, device, id(2), 64, BUFFER_USAGE_COPY_SRC, false, false, &mut error);
    assert!(!error.is_set());
    let first = *g.buffers.get(id(1)).unwrap();
    let second = *g.buffers.get(id(2)).unwrap();
    assert_ne!(first.tracker_index, second.tracker_index);
    assert!(g.is_buffer_alive(&first));
    assert!(g.is_buffer_alive(&second));
    let slots = g.buffer_slots.clone();
    let indices = g.tracker_indices.size();
    // A creation that is turned down makes no native buffer: size zero,
    // a size beyond the cap, shared memory that could not be had, an
    // identifier in use.
    for (at, size, failed) in [(3, 0, false), (4, MAX_BUFFER_SIZE + 1, false), (5, 64, true), (1, 64, false)] {
        let mut error = ErrorBuffer::new();
        wgpu_server_device_create_buffer(&mut g, device, id(at), size, BUFFER_USAGE_COPY_DST, false, failed, &mut error);
        assert!(error.is_set());
        assert_eq!(g.buffer_slots, slots);
        assert_eq!(g.tracker_indices.size(), indices);
    }
    // The placeholders can be dropped, and that touches no slot either.
    for at in [3, 4, 5] {
        assert!(g.buffers.contains(id(at)));
        wgpu_server_buffer_drop(&mut g, id(at));
        assert!(!g.buffers.contains(id(at)));
        assert_eq!(g.buffer_slots, slots);
    }
    // A creation that succeeds takes a slot of its own.
    let mut error = ErrorBuffer::new();
    wgpu_server_device_create_buffer(&mut g, device, id(6), 64, BUFFER_USAGE_COPY_DST, false, false, &mut error);
    assert!(!error.is_set());
    let third = *g.buffers.get(id(6)).unwrap();
    assert!(g.is_buffer_alive(&third));
    assert_eq!(g.buffer_slots[first.tracker_index as usize], slots[first.tracker_index as usize]);
    assert_eq!(g.buffer_slots[second.tracker_index as usize], slots[second.tracker_index as usize]);
    assert!(g.is_buffer_alive(&first) && g.is_buffer_alive(&second));
    // The drop of a buffer empties its slot and no other.
    let before = g.buffer_slots.clone();
    wgpu_server_buffer_drop(&mut g, id(1));
    for (at, slot) in g.buffer_slots.iter().enumerate() {
        if at == first.tracker_index as usize {
            assert_eq!(slot.owner, None);
            assert!(!slot.destroyed);
        } else {
            assert_eq!(*slot, before[at]);
        }
    }
    assert!(!g.is_buffer_alive(&first));
    assert!(g.is_buffer_alive(&second) && g.is_buffer_alive(&third));
}

#[test]
fn mapping_and_unmapping_take_turns() {
    let (mut g, device) = setup();
    let mut error = ErrorBuffer::new();
    wgpu_server_device_create_buffer(
        &mut g,
        device,
        id(1),
        64,
        BUFFER_USAGE_MAP_WRITE | BUFFER_USAGE_COPY_SRC,
        false,
        false,
        &mut error,
    );
    // A buffer that is mapped at its creation.
    wgpu_server_device_create_buffer(
        &mut g,
        device,
        id(2),
        64,
        BUFFER_USAGE_MAP_WRITE | BUFFER_USAGE_COPY_SRC,
        true,
        false,
        &mut error,
    );
    assert!(!error.is_set());
    let first = *g.buffers.get(id(1)).unwrap();
    let second = *g.buffers.get(id(2)).unwrap();
    assert!(!g.is_buffer_mapped(&first));
    assert!(g.is_buffer_mapped(&second));
    assert_eq!(g.buffer_unmap_check(id(1)), Err(BufferAccessError::NotMapped));
    assert_eq!(g.buffer_map_check(id(2), HostMap::Write, 0, 8), Err(BufferAccessError::AlreadyMapped));
    // Mapping a second time is refused and changes nothing.
    assert_eq!(
        wgpu_server_buffer_map(&mut g, id(1), 0, 64, HostMap::Write, &mut error),
        BufferMapAsyncStatus::Success
    );
    assert!(g.is_buffer_mapped(&first));
    let slots = g.buffer_slots.clone();
    assert_eq!(
        wgpu_server_buffer_map(&mut g, id(1), 8, 8, HostMap::Write, &mut error),
        BufferMapAsyncStatus::AlreadyMapped
    );
    assert_eq!(kind_of(&error), Some(ErrorBufferType::Validation));
    assert_eq!(message_of(&error), Some("In the mapping of a buffer: the buffer is mapped already"));
    assert_eq!(g.buffer_slots, slots);
    // A rule on the request comes before the state of the buffer.
    assert_eq!(
        g.buffer_map_check(id(1), HostMap::Write, 4, 8),
        Err(BufferAccessError::UnalignedOffset { offset: 4 })
    );
    // Unmapping touches the one buffer.
    let mut error = ErrorBuffer::new();
    assert_eq!(wgpu_server_buffer_unmap(&mut g, id(1), &mut error), Ok(()));
    assert!(!g.is_buffer_mapped(&first));
    assert!(g.is_buffer_mapped(&second));
    assert!(g.is_buffer_alive(&first));
    assert_eq!(wgpu_server_buffer_unmap(&mut g, id(2), &mut error), Ok(()));
    assert!(!error.is_set());
    assert_eq!(
        wgpu_server_buffer_map(&mut g, id(2), 0, 64, HostMap::Write, &mut error),
        BufferMapAsyncStatus::Success
    );
    // Destroying a buffer unmaps it.
    wgpu_server_buffer_destroy(&mut g, id(2));
    assert!(!g.is_buffer_mapped(&second));
    assert_eq!(g.buffer_unmap_check(id(2)), Err(BufferAccessError::DestroyedResource(id(2))));
}
