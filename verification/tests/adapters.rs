use wgpu_bindings::global::Global;
use wgpu_bindings::id::{Backend, Id};
use wgpu_bindings::instance::{
    bit_of_backend, check_limits, get_order, request_adapter, select_backends, Adapter,
    AdapterInfo, DeviceDescriptor, PowerPreference, RequestAdapterError, RequestAdapterOptions,
    RequestDeviceError, BACKENDS_DX12, BACKENDS_GL, BACKENDS_METAL, BACKENDS_PRIMARY,
    BACKENDS_VULKAN,
};
use wgpu_bindings::resource::{Limits, Queue};
use wgpu_bindings::error::{ErrorBuffer, ErrorBufferType};
use wgpu_bindings::server::{
    decimal_string, restrict_limits, select_queue_family, trace_choice, trace_directory,
    wgpu_server_adapter_pack_info,
    wgpu_server_adapter_request_device, wgpu_server_instance_request_adapter, AdapterDetails,
    DeviceType, NSOperatingSystemVersion, NativeDevice, Platform,
};
use wgpu_bindings::wire_adapter::{
    read_adapter_information, read_device_descriptor, read_limits, write_device_descriptor,
    write_limits,
};

fn limits() -> Limits {
    Limits {
        max_texture_dimension_1d: 8192,
        max_texture_dimension_2d: 8192,
        max_texture_dimension_3d: 2048,
        max_bind_groups: 4,
        max_sampled_textures_per_shader_stage: 16,
        max_samplers_per_shader_stage: 16,
        max_storage_buffers_per_shader_stage: 8,
        max_storage_textures_per_shader_stage: 4,
        max_uniform_buffers_per_shader_stage: 12,
        max_uniform_buffer_binding_size: 65536,
        max_storage_buffer_binding_size: 1 << 27,
        max_buffer_size: 1 << 28,
        max_push_constant_size: 16,
        min_storage_buffer_offset_alignment: 256,
        max_compute_workgroups_per_dimension: 65535,
        max_non_sampler_bindings: 1_000_000,
    }
}

fn info(backend: Backend, device_type: DeviceType) -> AdapterInfo {
    AdapterInfo { backend, device_type }
}

fn options(power_preference: PowerPreference, force_fallback_adapter: bool) -> RequestAdapterOptions {
    RequestAdapterOptions { power_preference, force_fallback_adapter }
}

#[test]
fn backends_come_from_the_preference() {
    assert_eq!(select_backends("", false), BACKENDS_PRIMARY);
    assert_eq!(select_backends("", true), BACKENDS_DX12);
    assert_eq!(select_backends("vulkan", true), BACKENDS_VULKAN);
    assert_eq!(select_backends("Vulkan, GL", false), BACKENDS_VULKAN | BACKENDS_GL);
    assert_eq!(select_backends("mtl,d3d12", false), BACKENDS_METAL | BACKENDS_DX12);
    assert_eq!(select_backends("nonsense", false), 0);
}

#[test]
fn backend_bits() {
    assert_eq!(bit_of_backend(Backend::Noop), 1);
    assert_eq!(bit_of_backend(Backend::Vulkan), 2);
    assert_eq!(bit_of_backend(Backend::Metal), 4);
    assert_eq!(bit_of_backend(Backend::Dx12), 8);
    assert_eq!(bit_of_backend(Backend::Gl), 16);
    assert_eq!(bit_of_backend(Backend::BrowserWebGpu), 32);
    assert_eq!(BACKENDS_PRIMARY, 2 | 4 | 8 | 32);
}

#[test]
fn ranks_of_adapter_kinds() {
    assert_eq!(get_order(DeviceType::DiscreteGpu, false), 1);
    assert_eq!(get_order(DeviceType::IntegratedGpu, false), 2);
    assert_eq!(get_order(DeviceType::DiscreteGpu, true), 2);
    assert_eq!(get_order(DeviceType::IntegratedGpu, true), 1);
    assert_eq!(get_order(DeviceType::Other, true), 3);
    assert_eq!(get_order(DeviceType::VirtualGpu, false), 4);
    assert_eq!(get_order(DeviceType::Cpu, false), 5);
}

#[test]
fn adapter_is_chosen_by_preference_then_by_order() {
    let adapters = vec![
        info(Backend::Gl, DeviceType::DiscreteGpu),
        info(Backend::Vulkan, DeviceType::Cpu),
        info(Backend::Vulkan, DeviceType::IntegratedGpu),
        info(Backend::Vulkan, DeviceType::DiscreteGpu),
        info(Backend::Vulkan, DeviceType::DiscreteGpu),
        info(Backend::Dx12, DeviceType::IntegratedGpu),
    ];
    let primary = BACKENDS_PRIMARY;
    assert_eq!(request_adapter(&adapters, &options(PowerPreference::Unspecified, false), primary), Ok(1));
    assert_eq!(request_adapter(&adapters, &options(PowerPreference::HighPerformance, false), primary), Ok(3));
    assert_eq!(request_adapter(&adapters, &options(PowerPreference::LowPower, false), primary), Ok(2));
    assert_eq!(request_adapter(&adapters, &options(PowerPreference::LowPower, false), BACKENDS_DX12), Ok(5));
    assert_eq!(request_adapter(&adapters, &options(PowerPreference::HighPerformance, true), primary), Ok(1));
    assert_eq!(
        request_adapter(&adapters, &options(PowerPreference::HighPerformance, false), BACKENDS_GL | BACKENDS_VULKAN),
        Ok(0)
    );
}

#[test]
fn missing_adapter_is_explained() {
    let adapters = vec![
        info(Backend::Vulkan, DeviceType::DiscreteGpu),
        info(Backend::Gl, DeviceType::Cpu),
    ];
    assert_eq!(
        request_adapter(&adapters, &options(PowerPreference::Unspecified, false), BACKENDS_METAL | BACKENDS_DX12),
        Err(RequestAdapterError {
            requested_backends: BACKENDS_METAL | BACKENDS_DX12,
            no_fallback_backends: 0,
            no_adapter_backends: BACKENDS_METAL | BACKENDS_DX12,
        })
    );
    assert_eq!(
        request_adapter(&adapters, &options(PowerPreference::Unspecified, true), BACKENDS_VULKAN | BACKENDS_DX12),
        Err(RequestAdapterError {
            requested_backends: BACKENDS_VULKAN | BACKENDS_DX12,
            no_fallback_backends: BACKENDS_VULKAN,
            no_adapter_backends: BACKENDS_DX12,
        })
    );
    assert_eq!(
        request_adapter(&vec![], &options(PowerPreference::LowPower, false), 0),
        Err(RequestAdapterError { requested_backends: 0, no_fallback_backends: 0, no_adapter_backends: 0 })
    );
}

#[test]
fn device_is_opened_within_what_the_adapter_offers() {
    let mut g = Global::new(Backend::Vulkan);
    let adapter = Adapter {
        info: info(Backend::Vulkan, DeviceType::DiscreteGpu),
        features: 0b0110,
        limits: limits(),
    };
    let mut desc = DeviceDescriptor {
        required_features: 0b0100,
        required_limits: limits(),
        indirect_validation: true,
        discard_labels: false,
    };
    let id = Id::zip(3, 1, Backend::Vulkan);
    let queue = Id::zip(4, 1, Backend::Vulkan);
    assert_eq!(g.adapter_request_device(&adapter, &desc, Some(id), Some(queue)), Ok((id, queue)));
    assert_eq!(*g.queues.get(queue).unwrap(), Queue { id: queue, device: id });
    // A queue identifier that is taken: nothing is opened.
    let next = Id::zip(5, 1, Backend::Vulkan);
    assert_eq!(
        g.adapter_request_device(&adapter, &desc, Some(next), Some(queue)),
        Err(RequestDeviceError::Identity)
    );
    assert!(!g.devices.contains(next));
    let d = *g.devices.get(id).unwrap();
    assert!(d.valid);
    assert_eq!(d.features, 0b0100);
    assert_eq!(d.limits, limits());
    assert_eq!(g.adapter_request_device(&adapter, &desc, Some(id), None), Err(RequestDeviceError::Identity));
    desc.required_features = 0b1101;
    assert_eq!(
        g.adapter_request_device(&adapter, &desc, None, None),
        Err(RequestDeviceError::UnsupportedFeature(0b1001))
    );
    desc.required_features = 0;
    desc.required_limits.max_bind_groups = 5;
    assert_eq!(g.adapter_request_device(&adapter, &desc, None, None), Err(RequestDeviceError::LimitsExceeded));
    desc.required_limits = limits();
    desc.required_limits.min_storage_buffer_offset_alignment = 128;
    assert_eq!(g.adapter_request_device(&adapter, &desc, None, None), Err(RequestDeviceError::LimitsExceeded));
    desc.required_limits.min_storage_buffer_offset_alignment = 1 << 31;
    assert_eq!(g.adapter_request_device(&adapter, &desc, None, None), Err(RequestDeviceError::Unsupported));
    desc.indirect_validation = false;
    assert!(g.adapter_request_device(&adapter, &desc, None, None).is_ok());
    g.device_destroy(id);
    assert!(!g.devices.get(id).unwrap().valid);
    g.device_drop(id);
    assert!(g.devices.get(id).is_err());
}

#[test]
fn limits_are_compared_field_by_field() {
    let allowed = limits();
    let mut r = limits();
    assert!(check_limits(&r, &allowed));
    r.max_buffer_size -= 1;
    r.min_storage_buffer_offset_alignment = 512;
    assert!(check_limits(&r, &allowed));
    r.max_compute_workgroups_per_dimension += 1;
    assert!(!check_limits(&r, &allowed));
}

#[test]
fn client_gets_the_best_adapter_on_a_first_tier_backend() {
    let listed = vec![
        info(Backend::Gl, DeviceType::DiscreteGpu),
        info(Backend::Vulkan, DeviceType::IntegratedGpu),
        info(Backend::Vulkan, DeviceType::DiscreteGpu),
    ];
    let wanted = options(PowerPreference::HighPerformance, false);
    let mut error = ErrorBuffer::new();
    // OpenGL is no first-tier backend, whatever the instance looks at.
    assert_eq!(
        wgpu_server_instance_request_adapter(&listed, &wanted, BACKENDS_GL | BACKENDS_VULKAN, &mut error),
        Some(2)
    );
    assert!(!error.is_set());
    assert_eq!(wgpu_server_instance_request_adapter(&listed, &wanted, BACKENDS_GL, &mut error), None);
    assert_eq!(error.kind(), Some(ErrorBufferType::Validation));
    assert_eq!(error.error.as_ref().unwrap().message, "No suitable adapter found");
    let mut error = ErrorBuffer::new();
    assert_eq!(wgpu_server_instance_request_adapter(&vec![], &wanted, BACKENDS_PRIMARY, &mut error), None);
    assert!(error.is_set());
}

fn bytes_of(desc: &DeviceDescriptor) -> Vec<u8> {
    let mut out = Vec::new();
    write_device_descriptor(&mut out, desc);
    out
}

#[test]
fn client_opens_a_device_at_its_identifier() {
    let mut g = Global::new(Backend::Vulkan);
    let adapter = Adapter {
        info: info(Backend::Vulkan, DeviceType::DiscreteGpu),
        features: 0b0110,
        limits: limits(),
    };
    let desc = DeviceDescriptor {
        required_features: 0b0100,
        required_limits: limits(),
        indirect_validation: false,
        discard_labels: true,
    };
    let at = Id::zip(3, 1, Backend::Vulkan);
    let queue_at = Id::zip(8, 1, Backend::Vulkan);
    // The host could not create the device that it wanted.
    let mut error = ErrorBuffer::new();
    wgpu_server_adapter_request_device(&mut g, &adapter, &bytes_of(&desc), at, queue_at, NativeDevice::Failed, None, 0, false, &mut error);
    assert_eq!(error.kind(), Some(ErrorBufferType::Internal));
    assert_eq!(error.error.as_ref().unwrap().message, "Failed to create ash::Device");
    assert!(!g.devices.contains(at));
    // A feature that the adapter lacks.
    let mut error = ErrorBuffer::new();
    let greedy = DeviceDescriptor { required_features: 0b1001, ..desc };
    wgpu_server_adapter_request_device(&mut g, &adapter, &bytes_of(&greedy), at, queue_at, NativeDevice::Ordinary, None, 0, false, &mut error);
    assert_eq!(error.kind(), Some(ErrorBufferType::Validation));
    assert_eq!(error.error.as_ref().unwrap().message, "Unsupported features were requested");
    assert!(!g.devices.contains(at));
    // A limit beyond what the adapter offers.
    let mut error = ErrorBuffer::new();
    let mut more = limits();
    more.max_bind_groups = 5;
    let greedy = DeviceDescriptor { required_limits: more, ..desc };
    wgpu_server_adapter_request_device(&mut g, &adapter, &bytes_of(&greedy), at, queue_at, NativeDevice::Shared, None, 0, false, &mut error);
    assert_eq!(error.kind(), Some(ErrorBufferType::Validation));
    assert_eq!(
        error.error.as_ref().unwrap().message,
        "Some of the requested device limits are not supported"
    );
    // Bytes that are no description, or a description and more.
    let mut error = ErrorBuffer::new();
    let mut longer = bytes_of(&desc);
    longer.push(0);
    wgpu_server_adapter_request_device(&mut g, &adapter, &longer, at, queue_at, NativeDevice::Shared, None, 0, false, &mut error);
    assert_eq!(error.kind(), Some(ErrorBufferType::Internal));
    assert_eq!(error.error.as_ref().unwrap().message, "Malformed description");
    assert!(!g.devices.contains(at));
    let mut error = ErrorBuffer::new();
    let mut switch = bytes_of(&desc);
    let last = switch.len() - 1;
    switch[last] = 2;
    wgpu_server_adapter_request_device(&mut g, &adapter, &switch, at, queue_at, NativeDevice::Shared, None, 0, false, &mut error);
    assert_eq!(error.kind(), Some(ErrorBufferType::Internal));
    // The device is opened, with what was required and no more.
    let mut error = ErrorBuffer::new();
    wgpu_server_adapter_request_device(&mut g, &adapter, &bytes_of(&desc), at, queue_at, NativeDevice::Shared, None, 0, false, &mut error);
    assert!(!error.is_set());
    let device = *g.devices.get(at).unwrap();
    assert_eq!(*g.queues.get(queue_at).unwrap(), Queue { id: queue_at, device: at });
    assert_eq!(device.features, 0b0100);
    assert_eq!(device.limits, limits());
    assert!(device.discard_labels);
    assert!(!device.indirect_validation);
    assert!(device.valid);
    // The identifier is taken now.
    wgpu_server_adapter_request_device(&mut g, &adapter, &bytes_of(&desc), at, queue_at, NativeDevice::Ordinary, None, 0, false, &mut error);
    assert_eq!(error.kind(), Some(ErrorBufferType::Internal));
    assert_eq!(error.error.as_ref().unwrap().message, "The identifier is in use");
}

#[test]
fn description_of_a_device_survives_the_wire() {
    let mut odd = limits();
    odd.max_buffer_size = 0x0102_0304_0506_0708;
    odd.max_non_sampler_bindings = 0xa1b2_c3d4;
    let desc = DeviceDescriptor {
        required_features: 0xfedc_ba98_7654_3210,
        required_limits: odd,
        indirect_validation: true,
        discard_labels: false,
    };
    let bytes = bytes_of(&desc);
    assert_eq!(bytes.len(), 78);
    assert_eq!(read_device_descriptor(&bytes, 0), Some((desc, 78)));
    assert_eq!(read_device_descriptor(&bytes[..77], 0), None);
    assert_eq!(read_limits(&bytes, 8), Some((odd, 76)));
    assert_eq!(read_limits(&bytes, 11), None);
    // The same bytes as bincode gives for the same fields.
    let l = odd;
    let twin: Vec<u8> = bincode::serialize(&(
        desc.required_features,
        (
            (
                l.max_texture_dimension_1d,
                l.max_texture_dimension_2d,
                l.max_texture_dimension_3d,
                l.max_bind_groups,
                l.max_sampled_textures_per_shader_stage,
                l.max_samplers_per_shader_stage,
                l.max_storage_buffers_per_shader_stage,
                l.max_storage_textures_per_shader_stage,
            ),
            (
                l.max_uniform_buffers_per_shader_stage,
                l.max_uniform_buffer_binding_size,
                l.max_storage_buffer_binding_size,
                l.max_buffer_size,
                l.max_push_constant_size,
                l.min_storage_buffer_offset_alignment,
                l.max_compute_workgroups_per_dimension,
                l.max_non_sampler_bindings,
            ),
        ),
        true,
        false,
    ))
    .unwrap();
    assert_eq!(bytes, twin);
}

fn details(backend: Backend, device_type: DeviceType, extensions: bool) -> AdapterDetails {
    let mut wide = limits();
    wide.max_buffer_size = 1 << 40;
    AdapterDetails {
        id: Id::zip(7, 2, backend),
        info: info(backend, device_type),
        limits: wide,
        features: 0x30,
        name: "GPU \u{e9}".to_string(),
        vendor: 0x1002,
        device: 0x73bf,
        driver: "drv".to_string(),
        driver_info: String::new(),
        has_required_extensions: extensions,
        version: NSOperatingSystemVersion { major: 10, minor: 15, patch: 0 },
    }
}

#[test]
fn client_is_told_of_an_adapter() {
    let a = details(Backend::Vulkan, DeviceType::DiscreteGpu, true);
    let bytes = wgpu_server_adapter_pack_info(Some(&a), Platform::Linux);
    let l = restrict_limits(a.limits);
    assert!(l.max_buffer_size < a.limits.max_buffer_size);
    let mut expected = Vec::new();
    expected.extend_from_slice(&[7, 0, 0, 0, 2, 0, 0, 0, 1]);
    write_limits(&mut expected, &l);
    expected.extend_from_slice(&0x30u64.to_le_bytes());
    // Six bytes: the last letter takes two.
    expected.extend_from_slice(&[6, 0, 0, 0, 0, 0, 0, 0, b'G', b'P', b'U', b' ', 0xc3, 0xa9]);
    expected.extend_from_slice(&0x1002u32.to_le_bytes());
    expected.extend_from_slice(&0x73bfu32.to_le_bytes());
    expected.extend_from_slice(&[2, 0, 0, 0]);
    expected.extend_from_slice(&[3, 0, 0, 0, 0, 0, 0, 0, b'd', b'r', b'v']);
    expected.extend_from_slice(&[0, 0, 0, 0, 0, 0, 0, 0]);
    expected.extend_from_slice(&[1, 0, 0, 0]);
    expected.push(1);
    assert_eq!(bytes, expected);
    // Without the extensions nothing is shared on Linux.
    let b = details(Backend::Vulkan, DeviceType::DiscreteGpu, false);
    assert_eq!(*wgpu_server_adapter_pack_info(Some(&b), Platform::Linux).last().unwrap(), 0);
    // Metal shares on hardware from 10.14 on.
    let c = details(Backend::Metal, DeviceType::IntegratedGpu, false);
    assert_eq!(*wgpu_server_adapter_pack_info(Some(&c), Platform::MacOs).last().unwrap(), 1);
    let d = details(Backend::Metal, DeviceType::Cpu, false);
    assert_eq!(*wgpu_server_adapter_pack_info(Some(&d), Platform::MacOs).last().unwrap(), 0);
    assert_eq!(*wgpu_server_adapter_pack_info(Some(&c), Platform::Windows).last().unwrap(), 0);
    // No adapter: a zero.
    assert_eq!(wgpu_server_adapter_pack_info(None, Platform::Linux), vec![0u8; 8]);
}

#[test]
fn queue_family_is_the_first_that_does_all() {
    let graphics = 1;
    let compute = 2;
    assert_eq!(select_queue_family(&vec![compute, 4, graphics | compute, graphics], graphics), Some(2));
    assert_eq!(select_queue_family(&vec![compute, 4, graphics | compute], graphics | compute), Some(2));
    assert_eq!(select_queue_family(&vec![graphics], graphics), Some(0));
    assert_eq!(select_queue_family(&vec![compute, 4], graphics), None);
    assert_eq!(select_queue_family(&vec![], graphics), None);
    // Nothing is wanted of the family.
    assert_eq!(select_queue_family(&vec![0], 0), Some(0));
}

#[test]
fn recording_goes_to_a_numbered_directory_that_could_be_made() {
    assert_eq!(decimal_string(0), "0");
    assert_eq!(decimal_string(7), "7");
    assert_eq!(decimal_string(10), "10");
    assert_eq!(decimal_string(409), "409");
    assert_eq!(decimal_string(1_000_000), "1000000");
    assert_eq!(decimal_string(u32::MAX), "4294967295");
    assert_eq!(trace_directory("/tmp/traces", 12), "/tmp/traces/12");
    assert_eq!(trace_directory("", 0), "/0");
    assert_eq!(trace_choice(Some("dir".to_string()), 3, true), Some("dir/3".to_string()));
    // The directory could not be made.
    assert_eq!(trace_choice(Some("dir".to_string()), 3, false), None);
    // Recordings are not asked for.
    assert_eq!(trace_choice(None, 3, true), None);
    assert_eq!(trace_choice(None, 3, false), None);
}

#[test]
fn opened_device_is_recorded_where_the_choice_says() {
    let mut g = Global::new(Backend::Vulkan);
    let adapter = Adapter {
        info: info(Backend::Vulkan, DeviceType::DiscreteGpu),
        features: 0,
        limits: limits(),
    };
    let desc = DeviceDescriptor {
        required_features: 0,
        required_limits: limits(),
        indirect_validation: false,
        discard_labels: false,
    };
    let at = |index: u32| Id::zip(index, 1, Backend::Vulkan);
    let env = || Some("traces".to_string());
    let mut error = ErrorBuffer::new();
    let trace = wgpu_server_adapter_request_device(
        &mut g, &adapter, &bytes_of(&desc), at(0), at(0), NativeDevice::Ordinary, env(), 5, true, &mut error,
    );
    assert!(!error.is_set());
    assert_eq!(trace, Some("traces/5".to_string()));
    assert!(g.devices.get(at(0)).is_ok());
    assert_eq!(g.queues.get(at(0)).unwrap().device, at(0));
    // The directory could not be made: the device is opened and not recorded.
    let trace = wgpu_server_adapter_request_device(
        &mut g, &adapter, &bytes_of(&desc), at(1), at(1), NativeDevice::Ordinary, env(), 6, false, &mut error,
    );
    assert!(!error.is_set());
    assert_eq!(trace, None);
    assert!(g.devices.get(at(1)).is_ok());
    // A device that is not opened is not recorded: the queue identifier is taken.
    let trace = wgpu_server_adapter_request_device(
        &mut g, &adapter, &bytes_of(&desc), at(2), at(1), NativeDevice::Ordinary, env(), 7, true, &mut error,
    );
    assert_eq!(error.kind(), Some(ErrorBufferType::Internal));
    assert_eq!(trace, None);
    assert!(!g.devices.contains(at(2)));
    // The queue goes when it is dropped, and not with its device.
    g.device_drop(at(0));
    assert!(g.queues.contains(at(0)));
    g.queue_drop(at(0));
    assert!(!g.queues.contains(at(0)));
    g.queue_drop(at(0));
}

#[test]
fn what_is_told_of_an_adapter_survives_the_wire() {
    let a = details(Backend::Metal, DeviceType::IntegratedGpu, false);
    let bytes = wgpu_server_adapter_pack_info(Some(&a), Platform::MacOs);
    let (back, end) = read_adapter_information(&bytes, 0).unwrap();
    assert_eq!(end, bytes.len());
    assert_eq!(back.id, a.id);
    assert_eq!(back.limits, restrict_limits(a.limits));
    assert_eq!(back.features, a.features);
    assert_eq!(back.name, a.name);
    assert_eq!((back.vendor, back.device), (a.vendor, a.device));
    assert_eq!(back.device_type, DeviceType::IntegratedGpu);
    assert_eq!(back.driver, a.driver);
    assert_eq!(back.driver_info, a.driver_info);
    assert_eq!(back.backend, Backend::Metal);
    assert!(back.support_use_external_texture_in_swap_chain);
    // Wherever the bytes stand.
    let mut shifted = vec![0xeeu8; 5];
    shifted.extend_from_slice(&bytes);
    let (back, end) = read_adapter_information(&shifted, 5).unwrap();
    assert_eq!(end, shifted.len());
    assert_eq!(back.name, a.name);
    // Bytes that end too early, a kind or a backend that does not exist.
    assert!(read_adapter_information(&bytes[..bytes.len() - 1], 0).is_none());
    assert!(read_adapter_information(&[], 0).is_none());
    let mut odd = bytes.clone();
    let n = odd.len();
    odd[n - 5] = 9;
    assert!(read_adapter_information(&odd, 0).is_none());
    let mut switch = bytes.clone();
    switch[n - 1] = 2;
    assert!(read_adapter_information(&switch, 0).is_none());
    // No adapter: the zero is no adapter.
    assert!(read_adapter_information(&wgpu_server_adapter_pack_info(None, Platform::Linux), 0).is_none());
}
