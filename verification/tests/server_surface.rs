use wgpu_bindings::action::{ActionOutcome, DeviceAction};
use wgpu_bindings::command::DeviceError;
use wgpu_bindings::encoder::NativeCommand;
use wgpu_bindings::error::{message_len_that_fits, ErrMsg, ErrorBuffer, ErrorBufferType};
use wgpu_bindings::global::{BufferDescriptor, Global};
use wgpu_bindings::id::{Backend, Id};
use wgpu_bindings::queue::QueueSubmitError;
use wgpu_bindings::registry::InvalidResourceError;
use wgpu_bindings::resource::{Device, Limits, BUFFER_USAGE_COPY_DST, BUFFER_USAGE_COPY_SRC};
use wgpu_bindings::server::{
    len_utf16, support_use_external_texture_in_swap_chain, supports_extensions,
    wgpu_server_device_action, wgpu_server_device_actions, wgpu_server_device_create_encoder,
    wgpu_server_encoder_finish, wgpu_server_queue_submit, NSOperatingSystemVersion, Platform,
    TraceCounter,
    ShaderModuleCompilationMessage, SourceLocation,
};
use wgpu_bindings::wire::{encode_batch, write_action};

fn id(index: u32) -> Id {
    Id::zip(index, 1, Backend::Vulkan)
}

fn limits() -> Limits {
    Limits {
        max_texture_dimension_1d: 8192,
        max_texture_dimension_2d: 4096,
        max_texture_dimension_3d: 2048,
        max_bind_groups: 4,
        max_sampled_textures_per_shader_stage: 16,
        max_samplers_per_shader_stage: 16,
        max_storage_buffers_per_shader_stage: 8,
        max_storage_textures_per_shader_stage: 4,
        max_uniform_buffers_per_shader_stage: 12,
        max_uniform_buffer_binding_size: 65536,
        max_storage_buffer_binding_size: 1 << 27,
        max_buffer_size: 1 << 28,
        max_push_constant_size: 16,
        min_storage_buffer_offset_alignment: 256,
        max_compute_workgroups_per_dimension: 65535,
        max_non_sampler_bindings: 1_000_000,
    }
}

fn device() -> Device {
    Device {
        limits: limits(),
        features: 0,
        indirect_execution: true,
        indirect_validation: false,
        discard_labels: false,
        valid: true,
    }
}

fn finished_encoder(g: &mut Global, device: Id, index: u32, copy_size: u64) -> Id {
    let (src, _) = g.device_create_buffer(
        device,
        &BufferDescriptor { size: 64, usage: BUFFER_USAGE_COPY_SRC, mapped_at_creation: false },
        None,
    );
    let (dst, _) = g.device_create_buffer(
        device,
        &BufferDescriptor { size: 64, usage: BUFFER_USAGE_COPY_DST, mapped_at_creation: false },
        None,
    );
    let (enc, e) = g.device_create_command_encoder(device, Some(id(index)));
    assert_eq!(e, None);
    let enc = enc.unwrap();
    g.command_encoder_copy_buffer_to_buffer(enc, src.unwrap(), 0, dst.unwrap(), 0, copy_size).unwrap();
    g.command_encoder_finish(enc).unwrap();
    enc
}

#[test]
fn submission_index_grows_and_encoders_are_used_up() {
    let mut g = Global::new(Backend::Vulkan);
    let d = g.create_device(device(), Some(id(0))).unwrap();
    // The queue goes by the number of its device.
    assert_eq!(g.create_queue(d, Some(d)), Some(d));
    let a = finished_encoder(&mut g, d, 0, 8);
    let b = finished_encoder(&mut g, d, 1, 16);
    let c = finished_encoder(&mut g, d, 2, 24);
    let (index, lists) = g.queue_submit(d, &[b, a]).unwrap();
    assert_eq!(index, 1);
    assert_eq!(lists.len(), 2);
    assert!(matches!(lists[0].commands[0], NativeCommand::CopyBufferToBuffer { size: 16, .. }));
    assert!(matches!(lists[1].commands[0], NativeCommand::CopyBufferToBuffer { size: 8, .. }));
    assert!(!g.command_encoders.contains(a));
    assert!(!g.command_encoders.contains(b));
    assert!(g.command_encoders.contains(c));
    // Submitting what was submitted fails and changes nothing.
    assert_eq!(
        g.queue_submit(d, &[c, a]).err(),
        Some(QueueSubmitError::InvalidResource(InvalidResourceError { id: a }))
    );
    assert!(g.command_encoders.contains(c));
    assert_eq!(g.submission_index, 1);
    let (index, lists) = g.queue_submit(d, &[]).unwrap();
    assert_eq!(index, 2);
    assert!(lists.is_empty());
    let (index, lists) = g.queue_submit(d, &[c]).unwrap();
    assert_eq!(index, 3);
    assert_eq!(lists.len(), 1);
}

#[test]
fn submission_is_checked() {
    let mut g = Global::new(Backend::Vulkan);
    let d = g.create_device(device(), Some(id(0))).unwrap();
    let other = g.create_device(device(), Some(id(1))).unwrap();
    assert_eq!(g.create_queue(d, Some(d)), Some(d));
    assert_eq!(g.create_queue(other, Some(other)), Some(other));
    // A queue needs a device, and an identifier of its own.
    assert_eq!(g.create_queue(id(7), Some(id(7))), None);
    assert_eq!(g.create_queue(d, Some(d)), None);
    let a = finished_encoder(&mut g, d, 0, 8);
    let (open, _) = g.device_create_command_encoder(d, Some(id(5)));
    let open = open.unwrap();
    assert_eq!(g.queue_submit(d, &[a, open]).err(), Some(QueueSubmitError::Unfinished(open)));
    assert_eq!(g.queue_submit(d, &[a, a]).err(), Some(QueueSubmitError::Duplicate(a)));
    assert_eq!(
        g.queue_submit(other, &[a]).err(),
        Some(QueueSubmitError::Device(DeviceError::DeviceMismatch))
    );
    assert_eq!(
        g.queue_submit(id(9), &[a]).err(),
        Some(QueueSubmitError::InvalidQueue(InvalidResourceError { id: id(9) }))
    );
    g.device_destroy(d);
    assert_eq!(g.queue_submit(d, &[a]).err(), Some(QueueSubmitError::Device(DeviceError::Lost)));
    assert_eq!(g.submission_index, 0);
    assert!(g.command_encoders.contains(a));
}

#[test]
fn action_is_carried_out_from_its_bytes() {
    let mut g = Global::new(Backend::Vulkan);
    let d = g.create_device(device(), Some(id(0))).unwrap();
    let mut bytes = Vec::new();
    write_action(&mut bytes, &DeviceAction::CreateCommandEncoder(id(4)));
    let mut error = ErrorBuffer::new();
    assert_eq!(wgpu_server_device_action(&mut g, d, &bytes, false, &mut error), ActionOutcome::Done);
    assert!(!error.is_set());
    assert!(g.command_encoders.get(id(4)).is_ok());
    bytes.push(0);
    assert_eq!(wgpu_server_device_action(&mut g, d, &bytes, false, &mut error), ActionOutcome::Done);
    assert_eq!(error.kind(), Some(ErrorBufferType::Internal));
    let mut error = ErrorBuffer::new();
    wgpu_server_device_action(&mut g, d, &[1, 2, 3], false, &mut error);
    assert_eq!(error.kind(), Some(ErrorBufferType::Internal));
}

#[test]
fn error_buffer_keeps_the_first_error() {
    let mut error = ErrorBuffer::new();
    assert!(!error.is_set());
    assert_eq!(error.kind(), None);
    error.init(ErrMsg { message: "first".to_string(), kind: ErrorBufferType::Validation });
    error.init(ErrMsg { message: "second".to_string(), kind: ErrorBufferType::DeviceLost });
    assert!(error.is_set());
    assert_eq!(error.kind(), Some(ErrorBufferType::Validation));
    assert_eq!(error.error.unwrap().message, "first");
}

#[test]
fn shader_messages_count_in_utf16() {
    // "a😀\nbé" then "xyz": the emoji is four bytes and two units, é two bytes and one unit.
    let source = "a\u{1f600}\nb\u{e9}xyz".as_bytes();
    assert_eq!(source.len(), 12);
    assert_eq!(len_utf16(source, 0, source.len()), 9);
    assert_eq!(len_utf16(source, 1, 5), 2);
    assert_eq!(len_utf16(source, 7, 9), 1);
    let mut m = ShaderModuleCompilationMessage {
        line_number: 9,
        line_pos: 9,
        utf16_offset: 9,
        utf16_length: 9,
        message: String::new(),
    };
    m.set_error(
        Some(SourceLocation { line_number: 2, offset: 9, length: 3 }),
        "unknown identifier".to_string(),
        source,
    );
    assert_eq!(m.line_number, 2);
    assert_eq!(m.utf16_offset, 6);
    assert_eq!(m.utf16_length, 3);
    assert_eq!(m.line_pos, 3);
    assert_eq!(m.message, "unknown identifier");
    m.set_error(Some(SourceLocation { line_number: 1, offset: 1, length: 4 }), "x".to_string(), source);
    assert_eq!((m.line_number, m.line_pos, m.utf16_offset, m.utf16_length), (1, 2, 1, 2));
    m.set_error(None, "device lost".to_string(), source);
    assert_eq!((m.line_number, m.line_pos, m.utf16_offset, m.utf16_length), (0, 0, 0, 0));
    assert_eq!(m.message, "device lost");
}

#[test]
fn shared_swap_chain_textures_by_platform() {
    let old = NSOperatingSystemVersion { major: 10, minor: 13, patch: 6 };
    let new = NSOperatingSystemVersion { major: 11, minor: 0, patch: 0 };
    let f = support_use_external_texture_in_swap_chain;
    assert!(f(Platform::Windows, Backend::Dx12, true, false, &old));
    assert!(!f(Platform::Windows, Backend::Dx12, false, true, &new));
    assert!(!f(Platform::Windows, Backend::Vulkan, true, true, &new));
    assert!(f(Platform::Linux, Backend::Vulkan, false, true, &old));
    assert!(!f(Platform::Linux, Backend::Vulkan, true, false, &new));
    assert!(!f(Platform::Linux, Backend::Gl, true, true, &new));
    assert!(f(Platform::MacOs, Backend::Metal, true, false, &new));
    assert!(!f(Platform::MacOs, Backend::Metal, true, true, &old));
    assert!(!f(Platform::MacOs, Backend::Metal, false, true, &new));
    assert!(!f(Platform::MacOs, Backend::Vulkan, true, true, &new));
    assert!(!f(Platform::Other, Backend::Vulkan, true, true, &new));
}

#[test]
fn required_extensions_must_all_be_there() {
    let name = |s: &str| s.as_bytes().to_vec();
    let required = vec![name("VK_KHR_external_memory_fd"), name("VK_EXT_external_memory_dma_buf")];
    let all = vec![name("VK_KHR_swapchain"), name("VK_EXT_external_memory_dma_buf"), name("VK_KHR_external_memory_fd")];
    assert!(supports_extensions(&required, &all));
    assert!(!supports_extensions(&required, &all[..2].to_vec()));
    assert!(supports_extensions(&vec![], &vec![]));
    assert!(!supports_extensions(&required, &vec![]));
}

#[test]
fn batch_is_carried_out_from_its_bytes() {
    let mut g = Global::new(Backend::Vulkan);
    let d = g.create_device(device(), Some(id(0))).unwrap();
    let bytes = encode_batch(&vec![
        DeviceAction::CreateCommandEncoder(id(4)),
        DeviceAction::CreateCommandEncoder(id(4)),
        DeviceAction::Error { message: "late".to_string(), kind: ErrorBufferType::DeviceLost },
        DeviceAction::CreateBindGroupLayout(id(2), 1),
    ]);
    let mut error = ErrorBuffer::new();
    let outcomes = wgpu_server_device_actions(&mut g, d, &bytes, false, &mut error);
    assert_eq!(outcomes, vec![ActionOutcome::Done; 4]);
    // The identifier was taken by the first action: the second fails first.
    assert_eq!(error.kind(), Some(ErrorBufferType::Internal));
    assert_eq!(error.error.as_ref().unwrap().message, "The identifier is in use");
    assert!(g.command_encoders.get(id(4)).is_ok());
    assert_eq!(g.bind_group_layouts.get(id(2)).unwrap().dynamic_count, 1);
    // Bytes that are no batch change nothing.
    let mut error = ErrorBuffer::new();
    let mut longer = bytes.clone();
    longer.push(7);
    assert!(wgpu_server_device_actions(&mut g, d, &longer, false, &mut error).is_empty());
    assert_eq!(error.kind(), Some(ErrorBufferType::Internal));
    assert_eq!(error.error.as_ref().unwrap().message, "Malformed batch");
    assert!(!g.bind_group_layouts.contains(id(3)));
}

#[test]
fn client_records_finishes_and_submits() {
    let mut g = Global::new(Backend::Vulkan);
    let d = g.create_device(device(), Some(id(0))).unwrap();
    assert_eq!(g.create_queue(d, Some(d)), Some(d));
    let mut error = ErrorBuffer::new();
    wgpu_server_device_create_encoder(&mut g, d, id(1), &mut error);
    assert!(!error.is_set());
    assert!(g.command_encoders.get(id(1)).is_ok());
    // The identifier is taken.
    wgpu_server_device_create_encoder(&mut g, d, id(1), &mut error);
    assert_eq!(error.kind(), Some(ErrorBufferType::Internal));
    // An encoder that is not finished cannot be submitted.
    let mut error = ErrorBuffer::new();
    let (index, lists) = wgpu_server_queue_submit(&mut g, d, &[id(1)], &mut error);
    assert_eq!((index, lists.len()), (0, 0));
    assert_eq!(error.kind(), Some(ErrorBufferType::Validation));
    assert_eq!(
        error.error.as_ref().unwrap().message,
        "In a submission: a command encoder is not finished"
    );
    assert_eq!(g.submission_index, 0);
    let mut error = ErrorBuffer::new();
    wgpu_server_encoder_finish(&mut g, id(1), &mut error);
    assert!(!error.is_set());
    // An encoder finishes once.
    wgpu_server_encoder_finish(&mut g, id(1), &mut error);
    assert_eq!(error.kind(), Some(ErrorBufferType::Validation));
    assert_eq!(
        error.error.as_ref().unwrap().message,
        "In the finishing of a command encoder: the command encoder is finished"
    );
    let mut error = ErrorBuffer::new();
    wgpu_server_encoder_finish(&mut g, id(7), &mut error);
    assert_eq!(error.kind(), Some(ErrorBufferType::Validation));
    let mut error = ErrorBuffer::new();
    let (index, lists) = wgpu_server_queue_submit(&mut g, d, &[id(1)], &mut error);
    assert_eq!(index, 1);
    assert!(lists.is_empty());
    assert!(!error.is_set());
    assert!(!g.command_encoders.contains(id(1)));
    // On a device that is lost nothing is submitted.
    let e = finished_encoder(&mut g, d, 2, 8);
    g.device_destroy(d);
    let (index, _) = wgpu_server_queue_submit(&mut g, d, &[e], &mut error);
    assert_eq!(index, 0);
    assert_eq!(error.kind(), Some(ErrorBufferType::DeviceLost));
    assert!(g.command_encoders.contains(e));
}

#[test]
fn message_is_cut_to_fit_without_splitting_a_character() {
    // Room for the whole message and its terminator.
    assert_eq!(message_len_that_fits("size is zero", 13), 12);
    assert_eq!(message_len_that_fits("size is zero", 100), 12);
    // One byte short.
    assert_eq!(message_len_that_fits("size is zero", 12), 11);
    assert_eq!(message_len_that_fits("size is zero", 1), 0);
    assert_eq!(message_len_that_fits("", 1), 0);
    assert_eq!(message_len_that_fits("", 64), 0);
    // The two letters after "gr" take two bytes each.
    let text = "gr\u{fc}\u{df}e";
    assert_eq!(text.len(), 7);
    assert_eq!(message_len_that_fits(text, 8), 7);
    assert_eq!(message_len_that_fits(text, 7), 6);
    assert_eq!(message_len_that_fits(text, 6), 4);
    assert_eq!(message_len_that_fits(text, 5), 4);
    assert_eq!(message_len_that_fits(text, 4), 2);
    assert_eq!(message_len_that_fits(text, 3), 2);
    // A character of four bytes goes in whole or not at all.
    assert_eq!(message_len_that_fits("\u{1f600}", 4), 0);
    assert_eq!(message_len_that_fits("\u{1f600}", 5), 4);
}

#[test]
fn recordings_are_numbered_in_turn() {
    let mut counter = TraceCounter::new();
    assert_eq!(counter.take(), 0);
    assert_eq!(counter.take(), 1);
    assert_eq!(counter.take(), 2);
    // Two counters count apart.
    let mut other = TraceCounter::new();
    assert_eq!(other.take(), 0);
    assert_eq!(counter.take(), 3);
    // After the last number the count starts over.
    let mut late = TraceCounter { next: u32::MAX };
    assert_eq!(late.take(), u32::MAX);
    assert_eq!(late.take(), 0);
}
