use wgpu_bindings::action::{CommandEncoderAction, DeviceAction};
use wgpu_bindings::command::{BasePass, ComputeCommand};
use wgpu_bindings::device::{BindGroupDescriptor, PipelineLayoutDescriptor};
use wgpu_bindings::encoder::{CommandEncoderStatus, NativeCommand};
use wgpu_bindings::error::{ErrorBuffer, ErrorBufferType};
use wgpu_bindings::global::{BufferDescriptor, Global};
use wgpu_bindings::id::{Backend, Id};
use wgpu_bindings::resource::{
    BindingKind, BufferBinding, Device, Limits, BUFFER_USAGE_COPY_DST, BUFFER_USAGE_COPY_SRC,
    BUFFER_USAGE_STORAGE,
};
use wgpu_bindings::server::{wgpu_server_command_encoder_action, wgpu_server_compute_pass};
use wgpu_bindings::wire_pass::{
    read_encoder_action, read_pass, write_encoder_action, write_pass,
};

fn id(index: u32) -> Id {
    Id::zip(index, 1, Backend::Vulkan)
}

fn limits() -> Limits {
    Limits {
        max_texture_dimension_1d: 8192,
        max_texture_dimension_2d: 4096,
        max_texture_dimension_3d: 2048,
        max_bind_groups: 4,
        max_sampled_textures_per_shader_stage: 16,
        max_samplers_per_shader_stage: 16,
        max_storage_buffers_per_shader_stage: 8,
        max_storage_textures_per_shader_stage: 4,
        max_uniform_buffers_per_shader_stage: 12,
        max_uniform_buffer_binding_size: 65536,
        max_storage_buffer_binding_size: 1 << 27,
        max_buffer_size: 1 << 28,
        max_push_constant_size: 16,
        min_storage_buffer_offset_alignment: 256,
        max_compute_workgroups_per_dimension: 65535,
        max_non_sampler_bindings: 1_000_000,
    }
}

fn setup() -> (Global, Id) {
    let mut g = Global::new(Backend::Vulkan);
    let device = g
        .create_device(
            Device {
                limits: limits(),
                features: 0,
                indirect_execution: true,
                indirect_validation: false,
                discard_labels: false,
                valid: true,
            },
            Some(id(0)),
        )
        .unwrap();
    (g, device)
}

fn buffer(g: &mut Global, device: Id, index: u32, usage: u32) -> Id {
    let (b, e) = g.device_create_buffer(
        device,
        &BufferDescriptor { size: 64, usage, mapped_at_creation: false },
        Some(id(index)),
    );
    assert_eq!(e, None);
    b.unwrap()
}

fn transcript() -> BasePass<ComputeCommand> {
    BasePass {
        label: Some("p\u{e4}ss".to_string()),
        commands: vec![
            ComputeCommand::PushDebugGroup { color: 0xff00_00ff, len: 3 },
            ComputeCommand::SetPipeline(id(0)),
            ComputeCommand::SetBindGroup { index: 0, num_dynamic_offsets: 2, bind_group_id: Some(id(0)) },
            ComputeCommand::SetBindGroup { index: 1, num_dynamic_offsets: 0, bind_group_id: None },
            ComputeCommand::SetPushConstant { offset: 4, size_bytes: 8, values_offset: 0 },
            ComputeCommand::Dispatch { x: 8, y: 2, z: 1 },
            ComputeCommand::DispatchIndirect { buffer_id: id(3), offset: 0x0102_0304_0506 },
            ComputeCommand::InsertDebugMarker { color: 1, len: 2 },
            ComputeCommand::PopDebugGroup,
        ],
        dynamic_offsets: vec![256, 512],
        string_data: b"abcde".to_vec(),
        push_constant_data: vec![0xdead_beef, 7],
    }
}

fn same_pass(a: &BasePass<ComputeCommand>, b: &BasePass<ComputeCommand>) -> bool {
    a.label == b.label
        && a.commands == b.commands
        && a.dynamic_offsets == b.dynamic_offsets
        && a.string_data == b.string_data
        && a.push_constant_data == b.push_constant_data
}

fn same_action(a: &CommandEncoderAction, b: &CommandEncoderAction) -> bool {
    match (a, b) {
        (
            CommandEncoderAction::CopyBufferToBuffer { src, src_offset, dst, dst_offset, size },
            CommandEncoderAction::CopyBufferToBuffer {
                src: s,
                src_offset: so,
                dst: d,
                dst_offset: d_o,
                size: z,
            },
        ) => src == s && src_offset == so && dst == d && dst_offset == d_o && size == z,
        (
            CommandEncoderAction::RunComputePass { base: x },
            CommandEncoderAction::RunComputePass { base: y },
        ) => same_pass(x, y),
        (CommandEncoderAction::PushDebugGroup(x), CommandEncoderAction::PushDebugGroup(y)) => x == y,
        (CommandEncoderAction::PopDebugGroup, CommandEncoderAction::PopDebugGroup) => true,
        (CommandEncoderAction::InsertDebugMarker(x), CommandEncoderAction::InsertDebugMarker(y)) => {
            x == y
        }
        _ => false,
    }
}

fn bytes_of(action: &CommandEncoderAction) -> Vec<u8> {
    let mut out = Vec::new();
    write_encoder_action(&mut out, action);
    out
}

#[test]
fn encoder_actions_survive_the_wire() {
    let actions = vec![
        CommandEncoderAction::CopyBufferToBuffer {
            src: id(1),
            src_offset: 8,
            dst: Id::zip(2, 5, Backend::Metal),
            dst_offset: u64::MAX,
            size: 16,
        },
        CommandEncoderAction::RunComputePass { base: transcript() },
        CommandEncoderAction::RunComputePass {
            base: BasePass {
                label: None,
                commands: vec![],
                dynamic_offsets: vec![],
                string_data: vec![],
                push_constant_data: vec![],
            },
        },
        CommandEncoderAction::PushDebugGroup("gr\u{fc}\u{df}e".to_string()),
        CommandEncoderAction::PopDebugGroup,
        CommandEncoderAction::InsertDebugMarker(String::new()),
    ];
    for action in &actions {
        let bytes = bytes_of(action);
        let (back, end) = read_encoder_action(&bytes, 0).unwrap();
        assert_eq!(end, bytes.len());
        assert!(same_action(action, &back));
        assert_eq!(bytes_of(&back), bytes);
        // The bytes are read wherever they stand.
        let mut shifted = vec![9u8; 3];
        shifted.extend_from_slice(&bytes);
        shifted.push(1);
        let (back, end) = read_encoder_action(&shifted, 3).unwrap();
        assert_eq!(end, shifted.len() - 1);
        assert!(same_action(action, &back));
        // Bytes that end too early hold no action.
        if !bytes.is_empty() {
            assert!(read_encoder_action(&bytes[..bytes.len() - 1], 0).is_none());
        }
    }
}

#[test]
fn transcript_layout_is_tags_lengths_and_little_endian() {
    let base = BasePass {
        label: Some("hi".to_string()),
        commands: vec![
            ComputeCommand::SetBindGroup {
                index: 1,
                num_dynamic_offsets: 2,
                bind_group_id: Some(Id::zip(0x0102_0304, 5, Backend::Dx12)),
            },
            ComputeCommand::Dispatch { x: 1, y: 2, z: 3 },
            ComputeCommand::PopDebugGroup,
        ],
        dynamic_offsets: vec![256],
        string_data: vec![0xaa, 0xbb],
        push_constant_data: vec![],
    };
    let mut bytes = Vec::new();
    write_pass(&mut bytes, &base);
    let mut expected: Vec<u8> = vec![1];
    expected.extend_from_slice(&[2, 0, 0, 0, 0, 0, 0, 0, b'h', b'i']);
    expected.extend_from_slice(&[3, 0, 0, 0, 0, 0, 0, 0]);
    expected.extend_from_slice(&[0, 0, 0, 0, 1, 0, 0, 0, 2, 0, 0, 0, 0, 0, 0, 0]);
    expected.extend_from_slice(&[1, 4, 3, 2, 1, 5, 0, 0, 0, 3]);
    expected.extend_from_slice(&[3, 0, 0, 0, 1, 0, 0, 0, 2, 0, 0, 0, 3, 0, 0, 0]);
    expected.extend_from_slice(&[6, 0, 0, 0]);
    expected.extend_from_slice(&[1, 0, 0, 0, 0, 0, 0, 0, 0, 1, 0, 0]);
    expected.extend_from_slice(&[2, 0, 0, 0, 0, 0, 0, 0, 0xaa, 0xbb]);
    expected.extend_from_slice(&[0, 0, 0, 0, 0, 0, 0, 0]);
    assert_eq!(bytes, expected);
    // The same bytes as bincode gives for the same fields.
    let twin: Vec<u8> = bincode::serialize(&(
        Some("hi".to_string()),
        (
            3u64,
            (0u32, 1u32, 2u64, Some((0x0102_0304u32, 5u32, 3u8))),
            (3u32, 1u32, 2u32, 3u32),
            6u32,
        ),
        vec![256u32],
        vec![0xaau8, 0xbb],
        Vec::<u32>::new(),
    ))
    .unwrap();
    assert_eq!(bytes, twin);
    let (back, end) = read_pass(&bytes, 0).unwrap();
    assert_eq!(end, bytes.len());
    assert!(same_pass(&base, &back));
}

#[test]
fn malformed_encoder_actions_are_refused() {
    assert!(read_encoder_action(&[], 0).is_none());
    // A tag that does not exist.
    assert!(read_encoder_action(&[5, 0, 0, 0], 0).is_none());
    // A place beyond the bytes.
    assert!(read_encoder_action(&[3, 0, 0, 0], 1).is_none());
    assert!(read_encoder_action(&[3, 0, 0, 0], 9).is_none());
    // A command tag that does not exist.
    let mut bytes = vec![1u8, 0, 0, 0, 0];
    bytes.extend_from_slice(&[1, 0, 0, 0, 0, 0, 0, 0]);
    bytes.extend_from_slice(&[8, 0, 0, 0]);
    assert!(read_encoder_action(&bytes, 0).is_none());
    // A label flag that is neither there nor not.
    assert!(read_pass(&[2, 0, 0, 0, 0, 0, 0, 0, 0], 0).is_none());
    // A count that promises more than there is.
    let mut bytes = vec![0u8];
    bytes.extend_from_slice(&[0xff; 8]);
    assert!(read_pass(&bytes, 0).is_none());
    // A marker that is not UTF-8.
    let mut bytes = bytes_of(&CommandEncoderAction::PushDebugGroup("ab".to_string()));
    let n = bytes.len();
    bytes[n - 1] = 0xff;
    assert!(read_encoder_action(&bytes, 0).is_none());
}

#[test]
fn encoder_action_is_carried_out_from_its_bytes() {
    let (mut g, device) = setup();
    let src = buffer(&mut g, device, 1, BUFFER_USAGE_COPY_SRC);
    let dst = buffer(&mut g, device, 2, BUFFER_USAGE_COPY_DST);
    let mut error = ErrorBuffer::new();
    g.device_action(device, DeviceAction::CreateCommandEncoder(id(0)), false, &mut error);
    let copy = CommandEncoderAction::CopyBufferToBuffer {
        src,
        src_offset: 0,
        dst,
        dst_offset: 16,
        size: 32,
    };
    wgpu_server_command_encoder_action(&mut g, id(0), &bytes_of(&copy), &mut error);
    assert!(!error.is_set());
    {
        let e = g.command_encoders.get(id(0)).unwrap();
        let open = e.current.as_ref().unwrap();
        assert!(matches!(
            open.commands.last(),
            Some(NativeCommand::CopyBufferToBuffer { src_offset: 0, dst_offset: 16, size: 32, .. })
        ));
    }
    // The other way round the buffers lack the usages.
    let back = CommandEncoderAction::CopyBufferToBuffer {
        src: dst,
        src_offset: 0,
        dst: src,
        dst_offset: 0,
        size: 4,
    };
    wgpu_server_command_encoder_action(&mut g, id(0), &bytes_of(&back), &mut error);
    assert_eq!(error.kind(), Some(ErrorBufferType::Validation));
    assert_eq!(
        error.error.as_ref().unwrap().message,
        "In a copy between buffers: a buffer lacks the usage that is needed"
    );
    // Bytes that are no action, or an action and more.
    let mut error = ErrorBuffer::new();
    let mut longer = bytes_of(&CommandEncoderAction::PopDebugGroup);
    longer.push(0);
    wgpu_server_command_encoder_action(&mut g, id(0), &longer, &mut error);
    assert_eq!(error.kind(), Some(ErrorBufferType::Internal));
    assert_eq!(error.error.as_ref().unwrap().message, "Malformed action");
    // Debug groups are counted.
    let mut error = ErrorBuffer::new();
    wgpu_server_command_encoder_action(
        &mut g,
        id(0),
        &bytes_of(&CommandEncoderAction::PushDebugGroup("group".to_string())),
        &mut error,
    );
    wgpu_server_command_encoder_action(
        &mut g,
        id(0),
        &bytes_of(&CommandEncoderAction::PopDebugGroup),
        &mut error,
    );
    assert!(!error.is_set());
    wgpu_server_command_encoder_action(
        &mut g,
        id(0),
        &bytes_of(&CommandEncoderAction::PopDebugGroup),
        &mut error,
    );
    assert_eq!(error.kind(), Some(ErrorBufferType::Validation));
}

#[test]
fn whole_pass_runs_from_its_bytes() {
    let (mut g, device) = setup();
    let b = buffer(&mut g, device, 1, BUFFER_USAGE_STORAGE);
    let mut error = ErrorBuffer::new();
    g.device_actions(
        device,
        &vec![
            DeviceAction::CreateBindGroupLayout(id(0), 0),
            DeviceAction::CreatePipelineLayout(
                id(0),
                PipelineLayoutDescriptor { bind_group_layouts: vec![id(0)], push_constant_size: 0 },
            ),
            DeviceAction::CreateBindGroup(
                id(0),
                BindGroupDescriptor {
                    layout: id(0),
                    entries: vec![BufferBinding { buffer: b, kind: BindingKind::StorageReadWrite }],
                },
            ),
            DeviceAction::CreateComputePipeline(id(0), id(0)),
            DeviceAction::CreateCommandEncoder(id(0)),
        ],
        false,
        &mut error,
    );
    assert!(!error.is_set());
    let base = BasePass {
        label: Some("pass".to_string()),
        commands: vec![
            ComputeCommand::SetPipeline(id(0)),
            ComputeCommand::SetBindGroup { index: 0, num_dynamic_offsets: 0, bind_group_id: Some(id(0)) },
            ComputeCommand::Dispatch { x: 4, y: 1, z: 1 },
        ],
        dynamic_offsets: vec![],
        string_data: vec![],
        push_constant_data: vec![],
    };
    let mut bytes = Vec::new();
    write_pass(&mut bytes, &base);
    wgpu_server_compute_pass(&mut g, id(0), &bytes, &mut error);
    assert!(!error.is_set());
    {
        let e = g.command_encoders.get(id(0)).unwrap();
        assert_eq!(e.status, CommandEncoderStatus::Recording);
        assert_eq!(e.list.len(), 2);
        assert_eq!(
            e.list[1].commands,
            vec![
                NativeCommand::BeginComputePass,
                NativeCommand::SetComputePipeline(id(0)),
                NativeCommand::SetBindGroup { index: 0, bind_group: id(0), num_dynamic_offsets: 0 },
                NativeCommand::Dispatch { x: 4, y: 1, z: 1 },
                NativeCommand::EndComputePass,
            ]
        );
    }
    // A pass without a pipeline fails, and the encoder records on.
    let mut bytes = Vec::new();
    write_pass(
        &mut bytes,
        &BasePass {
            label: None,
            commands: vec![ComputeCommand::Dispatch { x: 1, y: 1, z: 1 }],
            dynamic_offsets: vec![],
            string_data: vec![],
            push_constant_data: vec![],
        },
    );
    wgpu_server_compute_pass(&mut g, id(0), &bytes, &mut error);
    assert_eq!(error.kind(), Some(ErrorBufferType::Validation));
    assert_eq!(error.error.as_ref().unwrap().message, "In a dispatch command: no pipeline is set");
    assert_eq!(g.command_encoders.get(id(0)).unwrap().status, CommandEncoderStatus::Recording);
    assert_eq!(g.command_encoders.get(id(0)).unwrap().list.len(), 2);
    // Bytes that are no transcript.
    let mut error = ErrorBuffer::new();
    bytes.pop();
    wgpu_server_compute_pass(&mut g, id(0), &bytes, &mut error);
    assert_eq!(error.kind(), Some(ErrorBufferType::Internal));
    assert_eq!(error.error.as_ref().unwrap().message, "Malformed pass");
}

#[test]
fn lost_device_refuses_what_is_asked_of_its_encoders() {
    let (mut g, device) = setup();
    let src = buffer(&mut g, device, 1, BUFFER_USAGE_COPY_SRC);
    let dst = buffer(&mut g, device, 2, BUFFER_USAGE_COPY_DST);
    let mut error = ErrorBuffer::new();
    g.device_action(device, DeviceAction::CreateCommandEncoder(id(0)), false, &mut error);
    assert!(!error.is_set());
    g.device_destroy(device);
    let copy = CommandEncoderAction::CopyBufferToBuffer {
        src,
        src_offset: 0,
        dst,
        dst_offset: 0,
        size: 4,
    };
    wgpu_server_command_encoder_action(&mut g, id(0), &bytes_of(&copy), &mut error);
    assert_eq!(error.kind(), Some(ErrorBufferType::DeviceLost));
    assert!(g.command_encoders.get(id(0)).unwrap().current.is_none());
    let mut error = ErrorBuffer::new();
    wgpu_server_command_encoder_action(
        &mut g,
        id(0),
        &bytes_of(&CommandEncoderAction::InsertDebugMarker("m".to_string())),
        &mut error,
    );
    assert_eq!(error.kind(), Some(ErrorBufferType::DeviceLost));
    // A pass is begun, and fails when it ends.
    let mut bytes = Vec::new();
    write_pass(
        &mut bytes,
        &BasePass {
            label: None,
            commands: vec![],
            dynamic_offsets: vec![],
            string_data: vec![],
            push_constant_data: vec![],
        },
    );
    let mut error = ErrorBuffer::new();
    wgpu_server_compute_pass(&mut g, id(0), &bytes, &mut error);
    assert_eq!(error.kind(), Some(ErrorBufferType::DeviceLost));
    assert_eq!(g.command_encoders.get(id(0)).unwrap().status, CommandEncoderStatus::Recording);
    assert!(g.command_encoders.get(id(0)).unwrap().list.is_empty());
    // The encoder cannot be finished either.
    assert!(g.command_encoder_finish(id(0)).is_err());
    assert_eq!(g.command_encoders.get(id(0)).unwrap().status, CommandEncoderStatus::Recording);
    // It can still be dropped.
    g.command_encoder_drop(id(0));
    assert!(!g.command_encoders.contains(id(0)));
}

fn bound_pass(g: &mut Global, device: Id) {
    let b = buffer(g, device, 1, BUFFER_USAGE_STORAGE);
    let mut error = ErrorBuffer::new();
    g.device_actions(
        device,
        &vec![
            DeviceAction::CreateBindGroupLayout(id(0), 1),
            DeviceAction::CreatePipelineLayout(
                id(0),
                PipelineLayoutDescriptor { bind_group_layouts: vec![id(0)], push_constant_size: 8 },
            ),
            DeviceAction::CreateBindGroup(
                id(0),
                BindGroupDescriptor {
                    layout: id(0),
                    entries: vec![BufferBinding { buffer: b, kind: BindingKind::StorageReadWrite }],
                },
            ),
            DeviceAction::CreateComputePipeline(id(0), id(0)),
            DeviceAction::CreateCommandEncoder(id(0)),
        ],
        false,
        &mut error,
    );
    assert!(!error.is_set());
}

fn bindings_of(g: &Global) -> Vec<NativeCommand> {
    let e = g.command_encoders.get(id(0)).unwrap();
    e.list
        .last()
        .unwrap()
        .commands
        .iter()
        .filter(|c| matches!(c, NativeCommand::SetBindGroup { .. }))
        .copied()
        .collect()
}

fn bind(count: usize) -> ComputeCommand {
    ComputeCommand::SetBindGroup { index: 0, num_dynamic_offsets: count, bind_group_id: Some(id(0)) }
}

#[test]
fn delivered_pass_passes_over_a_repeated_binding() {
    let (mut g, device) = setup();
    bound_pass(&mut g, device);
    let mut bytes = Vec::new();
    write_pass(
        &mut bytes,
        &BasePass {
            label: None,
            commands: vec![
                ComputeCommand::SetPipeline(id(0)),
                bind(1),
                bind(1),
                ComputeCommand::SetPipeline(id(0)),
                ComputeCommand::Dispatch { x: 1, y: 1, z: 1 },
            ],
            dynamic_offsets: vec![256, 256],
            string_data: vec![],
            push_constant_data: vec![],
        },
    );
    let mut error = ErrorBuffer::new();
    wgpu_server_compute_pass(&mut g, id(0), &bytes, &mut error);
    assert!(!error.is_set());
    // One binding and one pipeline reach the native commands.
    assert_eq!(
        g.command_encoders.get(id(0)).unwrap().list.last().unwrap().commands,
        vec![
            NativeCommand::BeginComputePass,
            NativeCommand::SetComputePipeline(id(0)),
            // The push constants of the layout start out as zeros.
            NativeCommand::SetPushConstants { offset: 0, size_words: 2 },
            NativeCommand::SetBindGroup { index: 0, bind_group: id(0), num_dynamic_offsets: 1 },
            NativeCommand::Dispatch { x: 1, y: 1, z: 1 },
            NativeCommand::EndComputePass,
        ]
    );
    assert_eq!(bindings_of(&g).len(), 1);
    assert_eq!(g.command_encoders.get(id(0)).unwrap().list.last().unwrap().dynamic_offsets, vec![256]);
    assert_eq!(g.command_encoders.get(id(0)).unwrap().status, CommandEncoderStatus::Recording);
}

#[test]
fn delivered_pass_keeps_bindings_with_other_offsets() {
    let (mut g, device) = setup();
    bound_pass(&mut g, device);
    let mut bytes = Vec::new();
    write_pass(
        &mut bytes,
        &BasePass {
            label: None,
            commands: vec![
                ComputeCommand::SetPipeline(id(0)),
                bind(1),
                bind(1),
                ComputeCommand::Dispatch { x: 1, y: 1, z: 1 },
            ],
            dynamic_offsets: vec![256, 512],
            string_data: vec![],
            push_constant_data: vec![],
        },
    );
    let mut error = ErrorBuffer::new();
    wgpu_server_compute_pass(&mut g, id(0), &bytes, &mut error);
    assert!(!error.is_set());
    assert_eq!(bindings_of(&g).len(), 2);
    assert_eq!(
        g.command_encoders.get(id(0)).unwrap().list.last().unwrap().dynamic_offsets,
        vec![256, 512]
    );
}

#[test]
fn delivered_pass_takes_its_data_from_the_tables() {
    let (mut g, device) = setup();
    bound_pass(&mut g, device);
    let mut bytes = Vec::new();
    write_pass(
        &mut bytes,
        &BasePass {
            label: Some("delivered".to_string()),
            commands: vec![
                ComputeCommand::PushDebugGroup { color: 0, len: 2 },
                ComputeCommand::SetPipeline(id(0)),
                ComputeCommand::SetPushConstant { offset: 0, size_bytes: 8, values_offset: 1 },
                ComputeCommand::InsertDebugMarker { color: 0, len: 3 },
                ComputeCommand::PopDebugGroup,
            ],
            dynamic_offsets: vec![],
            string_data: b"abcde".to_vec(),
            push_constant_data: vec![9, 0x0403_0201, 0xdead_beef],
        },
    );
    let mut error = ErrorBuffer::new();
    wgpu_server_compute_pass(&mut g, id(0), &bytes, &mut error);
    assert!(!error.is_set());
    {
        let e = g.command_encoders.get(id(0)).unwrap();
        let body = e.list.last().unwrap();
        assert_eq!(body.label.as_deref(), Some("delivered"));
        assert_eq!(body.string_data, b"abcde".to_vec());
        // Zeros for the layout, then the words that the command names.
        assert_eq!(body.push_constant_data, vec![0, 0, 0x0403_0201, 0xdead_beef]);
        assert_eq!(
            body.commands,
            vec![
                NativeCommand::BeginComputePass,
                NativeCommand::BeginDebugMarker { len: 2 },
                NativeCommand::SetComputePipeline(id(0)),
                NativeCommand::SetPushConstants { offset: 0, size_words: 2 },
                NativeCommand::SetPushConstants { offset: 0, size_words: 2 },
                NativeCommand::InsertDebugMarker { len: 3 },
                NativeCommand::EndDebugMarker,
                NativeCommand::EndComputePass,
            ]
        );
    }
    // A command whose data the tables lack ends the replay; the encoder
    // records on, and nothing of the pass is kept.
    let lists = g.command_encoders.get(id(0)).unwrap().list.len();
    for short in [
        vec![bind(1)],
        vec![ComputeCommand::InsertDebugMarker { color: 0, len: 1 }],
        vec![ComputeCommand::SetPushConstant { offset: 0, size_bytes: 4, values_offset: 0 }],
        vec![ComputeCommand::SetPushConstant { offset: 0, size_bytes: 6, values_offset: 0 }],
    ] {
        let mut bytes = Vec::new();
        write_pass(
            &mut bytes,
            &BasePass {
                label: None,
                commands: short,
                dynamic_offsets: vec![],
                string_data: vec![],
                push_constant_data: vec![],
            },
        );
        let mut error = ErrorBuffer::new();
        wgpu_server_compute_pass(&mut g, id(0), &bytes, &mut error);
        assert_eq!(error.kind(), Some(ErrorBufferType::Internal));
        let e = g.command_encoders.get(id(0)).unwrap();
        assert_eq!(e.status, CommandEncoderStatus::Recording);
        assert_eq!(e.list.len(), lists);
    }
    // A resource that does not exist is reported with the command that names it.
    let mut bytes = Vec::new();
    write_pass(
        &mut bytes,
        &BasePass {
            label: None,
            commands: vec![ComputeCommand::SetPipeline(id(5))],
            dynamic_offsets: vec![],
            string_data: vec![],
            push_constant_data: vec![],
        },
    );
    let mut error = ErrorBuffer::new();
    wgpu_server_compute_pass(&mut g, id(0), &bytes, &mut error);
    assert_eq!(error.kind(), Some(ErrorBufferType::Validation));
    assert_eq!(
        error.error.as_ref().unwrap().message,
        "In a set_pipeline command: a resource does not exist"
    );
    assert_eq!(g.command_encoders.get(id(0)).unwrap().status, CommandEncoderStatus::Recording);
    // An encoder that is locked, or does not exist.
    let mut error = ErrorBuffer::new();
    wgpu_server_compute_pass(&mut g, id(9), &bytes, &mut error);
    assert_eq!(
        error.error.as_ref().unwrap().message,
        "In the beginning of a compute pass: the command encoder does not exist"
    );
}
