use wgpu_bindings::command::{
    ArcComputeCommand, BinderError, ComputePass, ComputePassError, ComputePassErrorInner,
    DeviceError, DispatchError, EncoderStateError, MissingBufferUsageError, PassErrorScope,
};
use wgpu_bindings::compute::CommandEncoderError;
use wgpu_bindings::device::{BindGroupDescriptor, CreateError, PipelineLayoutDescriptor};
use wgpu_bindings::encoder::{CommandEncoderStatus, NativeCommand};
use wgpu_bindings::global::{BufferDescriptor, Global};
use wgpu_bindings::id::{Backend, Id};
use wgpu_bindings::registry::InvalidResourceError;
use wgpu_bindings::resource::{
    BindingKind, BufferBinding, Device, Limits, BUFFER_USAGE_COPY_DST, BUFFER_USAGE_INDIRECT,
    BUFFER_USAGE_STORAGE, BUFFER_USAGE_UNIFORM,
};
use wgpu_bindings::usage::{
    PendingTransition, ResourceUsageCompatibilityError, INDIRECT, STORAGE_READ_ONLY,
    STORAGE_READ_WRITE, UNIFORM,
};

fn id(index: u32) -> Id {
    Id::zip(index, 1, Backend::Vulkan)
}

fn limits() -> Limits {
    Limits {
        max_texture_dimension_1d: 8192,
        max_texture_dimension_2d: 8192,
        max_texture_dimension_3d: 2048,
        max_bind_groups: 4,
        max_sampled_textures_per_shader_stage: 16,
        max_samplers_per_shader_stage: 16,
        max_storage_buffers_per_shader_stage: 8,
        max_storage_textures_per_shader_stage: 4,
        max_uniform_buffers_per_shader_stage: 12,
        max_uniform_buffer_binding_size: 65536,
        max_storage_buffer_binding_size: 1 << 27,
        max_buffer_size: 1 << 28,
        max_push_constant_size: 16,
        min_storage_buffer_offset_alignment: 256,
        max_compute_workgroups_per_dimension: 65535,
        max_non_sampler_bindings: 1_000_000,
    }
}

fn device(indirect_validation: bool, discard_labels: bool) -> Device {
    Device {
        limits: limits(),
        features: 0,
        indirect_execution: true,
        indirect_validation,
        discard_labels,
        valid: true,
    }
}

struct World {
    g: Global,
    device: Id,
    buffer: Id,
    tracker_index: u32,
    layout: Id,
    pipeline_layout: Id,
    pipeline: Id,
    write_group: Id,
    read_group: Id,
    encoder: Id,
}

fn world_with(dev: Device) -> World {
    let mut g = Global::new(Backend::Vulkan);
    let device = g.create_device(dev, Some(id(0))).unwrap();
    let (buffer, e) = g.device_create_buffer(
        device,
        &BufferDescriptor {
            size: 1024,
            usage: BUFFER_USAGE_STORAGE | BUFFER_USAGE_INDIRECT | BUFFER_USAGE_UNIFORM,
            mapped_at_creation: false,
        },
        Some(id(0)),
    );
    assert_eq!(e, None);
    let buffer = buffer.unwrap();
    let tracker_index = g.buffers.get(buffer).unwrap().tracker_index;
    let (layout, e) = g.device_create_bind_group_layout(device, 0, Some(id(0)));
    assert_eq!(e, None);
    let layout = layout.unwrap();
    let (pipeline_layout, e) = g.device_create_pipeline_layout(
        device,
        &PipelineLayoutDescriptor { bind_group_layouts: vec![layout], push_constant_size: 8 },
        Some(id(0)),
    );
    assert_eq!(e, None);
    let pipeline_layout = pipeline_layout.unwrap();
    let (pipeline, e) = g.device_create_compute_pipeline(device, pipeline_layout, Some(id(0)));
    assert_eq!(e, None);
    let pipeline = pipeline.unwrap();
    let (write_group, e) = g.device_create_bind_group(
        device,
        &BindGroupDescriptor {
            layout,
            entries: vec![BufferBinding { buffer, kind: BindingKind::StorageReadWrite }],
        },
        Some(id(0)),
    );
    assert_eq!(e, None);
    let (read_group, e) = g.device_create_bind_group(
        device,
        &BindGroupDescriptor {
            layout,
            entries: vec![BufferBinding { buffer, kind: BindingKind::Uniform }],
        },
        Some(id(1)),
    );
    assert_eq!(e, None);
    let (encoder, e) = g.device_create_command_encoder(device, Some(id(0)));
    assert_eq!(e, None);
    World {
        g,
        device,
        buffer,
        tracker_index,
        layout,
        pipeline_layout,
        pipeline,
        write_group: write_group.unwrap(),
        read_group: read_group.unwrap(),
        encoder: encoder.unwrap(),
    }
}

fn world() -> World {
    world_with(device(false, false))
}

fn pass_error(scope: PassErrorScope, inner: ComputePassErrorInner) -> Result<(), ComputePassError> {
    Err(ComputePassError { scope, inner })
}

fn begin(w: &mut World) -> ComputePass {
    let (pass, e) = w.g.command_encoder_begin_compute_pass(w.encoder, None);
    assert_eq!(e, None);
    pass
}

fn commands_of(pass: &ComputePass) -> usize {
    pass.base.as_ref().map(|b| b.commands.len()).unwrap_or(0)
}

#[test]
fn begin_pass_locks_the_encoder() {
    let mut w = world();
    let pass = begin(&mut w);
    assert_eq!(pass.parent, Some(w.encoder));
    assert_eq!(w.g.command_encoders.get(w.encoder).unwrap().status, CommandEncoderStatus::Locked);
    let (second, e) = w.g.command_encoder_begin_compute_pass(w.encoder, None);
    assert_eq!(e, Some(CommandEncoderError::EncoderState(EncoderStateError::Locked)));
    assert_eq!(second.parent, None);
    let (third, e) = w.g.command_encoder_begin_compute_pass(id(77), None);
    assert_eq!(
        e,
        Some(CommandEncoderError::InvalidResource(InvalidResourceError { id: id(77) }))
    );
    assert_eq!(third.parent, None);
}

#[test]
fn pass_without_parent_cannot_be_ended() {
    let mut w = world();
    let (mut orphan, _) = w.g.command_encoder_begin_compute_pass(id(77), None);
    assert_eq!(w.g.compute_pass_dispatch_workgroups(&mut orphan, 1, 1, 1), Ok(()));
    assert_eq!(
        w.g.compute_pass_end(&mut orphan),
        pass_error(PassErrorScope::Pass, ComputePassErrorInner::InvalidParentEncoder)
    );
}

#[test]
fn ending_twice_yields_pass_ended() {
    let mut w = world();
    let mut pass = begin(&mut w);
    assert_eq!(w.g.compute_pass_end(&mut pass), Ok(()));
    let lists_after_first = w.g.command_encoders.get(w.encoder).unwrap().list.len();
    assert_eq!(lists_after_first, 2);
    assert_eq!(
        w.g.compute_pass_end(&mut pass),
        pass_error(PassErrorScope::Pass, ComputePassErrorInner::PassEnded)
    );
    let e = w.g.command_encoders.get(w.encoder).unwrap();
    assert_eq!(e.list.len(), lists_after_first);
    assert_eq!(e.status, CommandEncoderStatus::Recording);
}

#[test]
fn recording_after_end_yields_pass_ended() {
    let mut w = world();
    let mut pass = begin(&mut w);
    assert_eq!(w.g.compute_pass_end(&mut pass), Ok(()));
    let ended = ComputePassErrorInner::PassEnded;
    assert_eq!(
        w.g.compute_pass_set_bind_group(&mut pass, 0, Some(w.write_group), &[]),
        pass_error(PassErrorScope::SetBindGroup, ended)
    );
    assert_eq!(
        w.g.compute_pass_set_pipeline(&mut pass, w.pipeline),
        pass_error(PassErrorScope::SetPipelineCompute, ended)
    );
    assert_eq!(
        w.g.compute_pass_set_push_constants(&mut pass, 0, &[0, 0, 0, 0]),
        pass_error(PassErrorScope::SetPushConstant, ended)
    );
    assert_eq!(
        w.g.compute_pass_dispatch_workgroups(&mut pass, 1, 1, 1),
        pass_error(PassErrorScope::Dispatch { indirect: false }, ended)
    );
    assert_eq!(
        w.g.compute_pass_dispatch_workgroups_indirect(&mut pass, w.buffer, 0),
        pass_error(PassErrorScope::Dispatch { indirect: true }, ended)
    );
    assert_eq!(
        w.g.compute_pass_push_debug_group(&mut pass, "x", 0),
        pass_error(PassErrorScope::PushDebugGroup, ended)
    );
    assert_eq!(
        w.g.compute_pass_pop_debug_group(&mut pass),
        pass_error(PassErrorScope::PopDebugGroup, ended)
    );
    assert_eq!(
        w.g.compute_pass_insert_debug_marker(&mut pass, "x", 0),
        pass_error(PassErrorScope::InsertDebugMarker, ended)
    );
}

#[test]
fn same_bind_group_twice_is_recorded_once() {
    let mut w = world();
    let mut pass = begin(&mut w);
    assert_eq!(w.g.compute_pass_set_bind_group(&mut pass, 0, Some(w.write_group), &[]), Ok(()));
    assert_eq!(commands_of(&pass), 1);
    assert_eq!(w.g.compute_pass_set_bind_group(&mut pass, 0, Some(w.write_group), &[]), Ok(()));
    assert_eq!(commands_of(&pass), 1);
    // Another slot, another group, or other offsets are recorded.
    assert_eq!(w.g.compute_pass_set_bind_group(&mut pass, 1, Some(w.write_group), &[]), Ok(()));
    assert_eq!(commands_of(&pass), 2);
    assert_eq!(w.g.compute_pass_set_bind_group(&mut pass, 0, Some(w.read_group), &[]), Ok(()));
    assert_eq!(commands_of(&pass), 3);
    assert_eq!(w.g.compute_pass_set_bind_group(&mut pass, 0, Some(w.read_group), &[256]), Ok(()));
    assert_eq!(commands_of(&pass), 4);
    assert_eq!(w.g.compute_pass_set_bind_group(&mut pass, 0, Some(w.read_group), &[256]), Ok(()));
    assert_eq!(commands_of(&pass), 4);
    assert_eq!(pass.base.as_ref().unwrap().dynamic_offsets, vec![256]);
}

#[test]
fn same_pipeline_twice_is_recorded_once() {
    let mut w = world();
    let mut pass = begin(&mut w);
    assert_eq!(w.g.compute_pass_set_pipeline(&mut pass, w.pipeline), Ok(()));
    assert_eq!(w.g.compute_pass_set_pipeline(&mut pass, w.pipeline), Ok(()));
    assert_eq!(commands_of(&pass), 1);
}

#[test]
fn recording_resolves_ids() {
    let mut w = world();
    let mut pass = begin(&mut w);
    let missing = InvalidResourceError { id: id(50) };
    assert_eq!(
        w.g.compute_pass_set_bind_group(&mut pass, 0, Some(id(50)), &[]),
        pass_error(PassErrorScope::SetBindGroup, ComputePassErrorInner::InvalidResource(missing))
    );
    assert_eq!(
        w.g.compute_pass_set_pipeline(&mut pass, id(50)),
        pass_error(
            PassErrorScope::SetPipelineCompute,
            ComputePassErrorInner::InvalidResource(missing)
        )
    );
    assert_eq!(
        w.g.compute_pass_dispatch_workgroups_indirect(&mut pass, id(50), 0),
        pass_error(
            PassErrorScope::Dispatch { indirect: true },
            ComputePassErrorInner::InvalidResource(missing)
        )
    );
    assert_eq!(commands_of(&pass), 0);
    // A failed call does not count as the last binding.
    assert_eq!(w.g.compute_pass_set_bind_group(&mut pass, 0, None, &[]), Ok(()));
    assert_eq!(commands_of(&pass), 1);
}

#[test]
fn push_constants_are_recorded_as_words() {
    let mut w = world();
    let mut pass = begin(&mut w);
    assert_eq!(
        w.g.compute_pass_set_push_constants(&mut pass, 2, &[0; 4]),
        pass_error(
            PassErrorScope::SetPushConstant,
            ComputePassErrorInner::PushConstantOffsetAlignment
        )
    );
    assert_eq!(
        w.g.compute_pass_set_push_constants(&mut pass, 4, &[0; 3]),
        pass_error(PassErrorScope::SetPushConstant, ComputePassErrorInner::PushConstantSizeAlignment)
    );
    assert_eq!(
        w.g.compute_pass_set_push_constants(&mut pass, 4, &[0x78, 0x56, 0x34, 0x12]),
        Ok(())
    );
    let base = pass.base.as_ref().unwrap();
    assert_eq!(base.push_constant_data, vec![0x1234_5678]);
    assert!(matches!(
        base.commands[0],
        ArcComputeCommand::SetPushConstant { offset: 4, size_bytes: 4, values_offset: 0 }
    ));
}

#[test]
fn dispatch_without_pipeline_fails_and_encoder_stays_usable() {
    let mut w = world();
    let mut pass = begin(&mut w);
    assert_eq!(w.g.compute_pass_dispatch_workgroups(&mut pass, 1, 1, 1), Ok(()));
    assert_eq!(
        w.g.compute_pass_end(&mut pass),
        pass_error(
            PassErrorScope::Dispatch { indirect: false },
            ComputePassErrorInner::Dispatch(DispatchError::MissingPipeline)
        )
    );
    {
        let e = w.g.command_encoders.get(w.encoder).unwrap();
        assert_eq!(e.status, CommandEncoderStatus::Recording);
        assert!(e.list.is_empty());
        assert!(e.current.is_none());
    }
    // The next pass on the same encoder works.
    let mut next = begin(&mut w);
    w.g.compute_pass_set_pipeline(&mut next, w.pipeline).unwrap();
    w.g.compute_pass_set_bind_group(&mut next, 0, Some(w.write_group), &[]).unwrap();
    w.g.compute_pass_dispatch_workgroups(&mut next, 4, 2, 1).unwrap();
    assert_eq!(w.g.compute_pass_end(&mut next), Ok(()));
    let e = w.g.command_encoders.get(w.encoder).unwrap();
    assert_eq!(e.list.len(), 2);
    assert_eq!(
        e.list[1].commands,
        vec![
            NativeCommand::BeginComputePass,
            NativeCommand::SetComputePipeline(w.pipeline),
            NativeCommand::SetPushConstants { offset: 0, size_words: 2 },
            NativeCommand::SetBindGroup { index: 0, bind_group: w.write_group, num_dynamic_offsets: 0 },
            NativeCommand::Dispatch { x: 4, y: 2, z: 1 },
            NativeCommand::EndComputePass,
        ]
    );
    assert_eq!(e.list[1].push_constant_data, vec![0, 0]);
    assert!(e.list[0].commands.is_empty());
    assert_eq!(e.list[0].label.as_deref(), Some("Pre Pass"));
}

#[test]
fn second_pass_gets_a_barrier_for_the_buffer() {
    let mut w = world();
    let mut first = begin(&mut w);
    w.g.compute_pass_set_pipeline(&mut first, w.pipeline).unwrap();
    w.g.compute_pass_set_bind_group(&mut first, 0, Some(w.write_group), &[]).unwrap();
    w.g.compute_pass_dispatch_workgroups(&mut first, 1, 1, 1).unwrap();
    // Within the pass, the write is followed by a read in another dispatch.
    w.g.compute_pass_set_bind_group(&mut first, 0, Some(w.read_group), &[]).unwrap();
    w.g.compute_pass_dispatch_workgroups(&mut first, 1, 1, 1).unwrap();
    assert_eq!(w.g.compute_pass_end(&mut first), Ok(()));
    let mut second = begin(&mut w);
    w.g.compute_pass_set_pipeline(&mut second, w.pipeline).unwrap();
    w.g.compute_pass_set_bind_group(&mut second, 0, Some(w.write_group), &[]).unwrap();
    w.g.compute_pass_dispatch_workgroups(&mut second, 1, 1, 1).unwrap();
    w.g.compute_pass_dispatch_workgroups_indirect(&mut second, w.buffer, 16).unwrap();
    let r = w.g.compute_pass_end(&mut second);
    // The indirect read conflicts with the bound storage write in one dispatch.
    assert_eq!(
        r,
        pass_error(
            PassErrorScope::Dispatch { indirect: true },
            ComputePassErrorInner::ResourceUsageCompatibility(ResourceUsageCompatibilityError {
                index: w.tracker_index,
                current_state: INDIRECT,
                new_state: STORAGE_READ_WRITE,
            })
        )
    );
    let mut third = begin(&mut w);
    w.g.compute_pass_set_pipeline(&mut third, w.pipeline).unwrap();
    w.g.compute_pass_set_bind_group(&mut third, 0, Some(w.write_group), &[]).unwrap();
    w.g.compute_pass_dispatch_workgroups(&mut third, 1, 1, 1).unwrap();
    assert_eq!(w.g.compute_pass_end(&mut third), Ok(()));
    let e = w.g.command_encoders.get(w.encoder).unwrap();
    assert_eq!(e.list.len(), 4);
    // First pass: nothing was known of the buffer, so no barrier before it,
    // and one barrier inside it between the write and the read.
    assert!(e.list[0].commands.is_empty());
    assert!(e.list[1].commands.contains(&NativeCommand::TransitionBuffer(PendingTransition {
        index: w.tracker_index,
        from: STORAGE_READ_WRITE,
        to: UNIFORM,
    })));
    // Third pass: the buffer was left as a uniform buffer and is written.
    assert_eq!(
        e.list[2].commands,
        vec![NativeCommand::TransitionBuffer(PendingTransition {
            index: w.tracker_index,
            from: UNIFORM,
            to: STORAGE_READ_WRITE,
        })]
    );
    assert_eq!(e.list[2].label.as_deref(), Some("Pre Pass"));
    assert_eq!(e.trackers.get(w.tracker_index), Some(STORAGE_READ_WRITE));
}

#[test]
fn indirect_dispatch_needs_the_indirect_usage() {
    let mut w = world();
    let (plain, e) = w.g.device_create_buffer(
        w.device,
        &BufferDescriptor { size: 64, usage: BUFFER_USAGE_COPY_DST, mapped_at_creation: false },
        Some(id(1)),
    );
    assert_eq!(e, None);
    let plain = plain.unwrap();
    let mut pass = begin(&mut w);
    w.g.compute_pass_set_pipeline(&mut pass, w.pipeline).unwrap();
    w.g.compute_pass_set_bind_group(&mut pass, 0, Some(w.read_group), &[]).unwrap();
    w.g.compute_pass_dispatch_workgroups_indirect(&mut pass, plain, 0).unwrap();
    assert_eq!(
        w.g.compute_pass_end(&mut pass),
        pass_error(
            PassErrorScope::Dispatch { indirect: true },
            ComputePassErrorInner::MissingBufferUsage(MissingBufferUsageError {
                buffer: plain,
                actual: BUFFER_USAGE_COPY_DST,
                expected: BUFFER_USAGE_INDIRECT,
            })
        )
    );
    assert!(w.g.command_encoders.get(w.encoder).unwrap().list.is_empty());
    // A bind group cannot be created over a missing usage either.
    let (_, e) = w.g.device_create_bind_group(
        w.device,
        &BindGroupDescriptor {
            layout: w.layout,
            entries: vec![BufferBinding { buffer: plain, kind: BindingKind::Uniform }],
        },
        Some(id(5)),
    );
    assert_eq!(
        e,
        Some(CreateError::MissingBufferUsage(MissingBufferUsageError {
            buffer: plain,
            actual: BUFFER_USAGE_COPY_DST,
            expected: BUFFER_USAGE_UNIFORM,
        }))
    );
}

#[test]
fn indirect_dispatch_checks_offset_and_range() {
    let mut w = world();
    for (offset, expected) in [
        (2u64, ComputePassErrorInner::UnalignedIndirectBufferOffset(2)),
        (
            1016,
            ComputePassErrorInner::IndirectBufferOverrun {
                offset: 1016,
                end_offset: 1028,
                buffer_size: 1024,
            },
        ),
        (
            u64::MAX - 3,
            ComputePassErrorInner::IndirectBufferOverrun {
                offset: u64::MAX - 3,
                end_offset: u64::MAX,
                buffer_size: 1024,
            },
        ),
    ] {
        let mut pass = begin(&mut w);
        w.g.compute_pass_set_pipeline(&mut pass, w.pipeline).unwrap();
        w.g.compute_pass_set_bind_group(&mut pass, 0, None, &[]).unwrap();
        w.g.compute_pass_dispatch_workgroups_indirect(&mut pass, w.buffer, offset).unwrap();
        assert_eq!(
            w.g.compute_pass_end(&mut pass),
            pass_error(PassErrorScope::Dispatch { indirect: true }, ComputePassErrorInner::Dispatch(
                DispatchError::IncompatibleBindGroup(BinderError::MissingBindGroup { index: 0 })
            ))
        );
        let mut pass = begin(&mut w);
        w.g.compute_pass_set_pipeline(&mut pass, w.pipeline).unwrap();
        w.g.compute_pass_set_bind_group(&mut pass, 0, Some(w.read_group), &[]).unwrap();
        w.g.compute_pass_dispatch_workgroups_indirect(&mut pass, w.buffer, offset).unwrap();
        assert_eq!(
            w.g.compute_pass_end(&mut pass),
            pass_error(PassErrorScope::Dispatch { indirect: true }, expected)
        );
    }
}

#[test]
fn indirect_dispatch_is_recorded_with_its_barrier() {
    let mut w = world();
    let mut pass = begin(&mut w);
    w.g.compute_pass_set_pipeline(&mut pass, w.pipeline).unwrap();
    w.g.compute_pass_set_bind_group(&mut pass, 0, Some(w.write_group), &[]).unwrap();
    w.g.compute_pass_dispatch_workgroups(&mut pass, 1, 1, 1).unwrap();
    w.g.compute_pass_set_bind_group(&mut pass, 0, Some(w.read_group), &[]).unwrap();
    w.g.compute_pass_dispatch_workgroups_indirect(&mut pass, w.buffer, 1012).unwrap();
    assert_eq!(w.g.compute_pass_end(&mut pass), Ok(()));
    let e = w.g.command_encoders.get(w.encoder).unwrap();
    let body = &e.list[1].commands;
    let n = body.len();
    assert_eq!(body[n - 1], NativeCommand::EndComputePass);
    assert_eq!(body[n - 2], NativeCommand::DispatchIndirect { buffer: w.buffer, offset: 1012 });
    assert_eq!(
        body[n - 3],
        NativeCommand::TransitionBuffer(PendingTransition {
            index: w.tracker_index,
            from: STORAGE_READ_WRITE,
            to: UNIFORM | INDIRECT,
        })
    );
    assert_eq!(e.trackers.get(w.tracker_index), Some(UNIFORM | INDIRECT));
}

#[test]
fn validated_indirect_dispatch_checks_arguments_first() {
    let mut w = world_with(device(true, false));
    let mut pass = begin(&mut w);
    w.g.compute_pass_set_pipeline(&mut pass, w.pipeline).unwrap();
    w.g.compute_pass_set_bind_group(&mut pass, 0, Some(w.read_group), &[]).unwrap();
    w.g.compute_pass_set_push_constants(&mut pass, 0, &[1, 0, 0, 0, 2, 0, 0, 0]).unwrap();
    w.g.compute_pass_dispatch_workgroups_indirect(&mut pass, w.buffer, 1012).unwrap();
    assert_eq!(w.g.compute_pass_end(&mut pass), Ok(()));
    let e = w.g.command_encoders.get(w.encoder).unwrap();
    let body = &e.list[1];
    // alignment 256, size 1024: the binding has 512 bytes and starts at 512,
    // so the arguments at 1012 lie 500 bytes into it.
    assert_eq!(
        body.commands,
        vec![
            NativeCommand::BeginComputePass,
            NativeCommand::SetComputePipeline(w.pipeline),
            NativeCommand::SetPushConstants { offset: 0, size_words: 2 },
            NativeCommand::SetBindGroup { index: 0, bind_group: w.read_group, num_dynamic_offsets: 0 },
            NativeCommand::SetPushConstants { offset: 0, size_words: 2 },
            NativeCommand::SetValidationPipeline,
            NativeCommand::SetPushConstants { offset: 0, size_words: 1 },
            NativeCommand::SetValidationBindGroups { src: w.buffer, aligned_offset: 512 },
            NativeCommand::TransitionScratch { from: INDIRECT, to: STORAGE_READ_WRITE },
            NativeCommand::Dispatch { x: 1, y: 1, z: 1 },
            NativeCommand::SetComputePipeline(w.pipeline),
            NativeCommand::SetPushConstants { offset: 0, size_words: 2 },
            NativeCommand::SetBindGroup { index: 0, bind_group: w.read_group, num_dynamic_offsets: 0 },
            NativeCommand::TransitionScratch { from: STORAGE_READ_WRITE, to: INDIRECT },
            NativeCommand::TransitionBuffer(PendingTransition {
                index: w.tracker_index,
                from: STORAGE_READ_ONLY,
                to: UNIFORM,
            }),
            NativeCommand::DispatchIndirectValidated,
            NativeCommand::EndComputePass,
        ]
    );
    assert_eq!(body.push_constant_data, vec![0, 0, 1, 2, 125, 1, 2]);
}

#[test]
fn replay_checks_limits_and_bindings() {
    let mut w = world();
    // Group counts beyond the limit.
    let mut pass = begin(&mut w);
    w.g.compute_pass_set_pipeline(&mut pass, w.pipeline).unwrap();
    w.g.compute_pass_set_bind_group(&mut pass, 0, Some(w.read_group), &[]).unwrap();
    w.g.compute_pass_dispatch_workgroups(&mut pass, 1, 65536, 1).unwrap();
    assert_eq!(
        w.g.compute_pass_end(&mut pass),
        pass_error(
            PassErrorScope::Dispatch { indirect: false },
            ComputePassErrorInner::Dispatch(DispatchError::InvalidGroupSize {
                x: 1,
                y: 65536,
                z: 1,
                limit: 65535
            })
        )
    );
    // A slot beyond the device's limit.
    let mut pass = begin(&mut w);
    w.g.compute_pass_set_bind_group(&mut pass, 4, Some(w.read_group), &[]).unwrap();
    assert_eq!(
        w.g.compute_pass_end(&mut pass),
        pass_error(
            PassErrorScope::SetBindGroup,
            ComputePassErrorInner::BindGroupIndexOutOfRange { index: 4, max: 4 }
        )
    );
    // Push constants beyond what the layout has.
    let mut pass = begin(&mut w);
    w.g.compute_pass_set_pipeline(&mut pass, w.pipeline).unwrap();
    w.g.compute_pass_set_push_constants(&mut pass, 8, &[0; 4]).unwrap();
    assert!(matches!(
        w.g.compute_pass_end(&mut pass),
        Err(ComputePassError {
            scope: PassErrorScope::SetPushConstant,
            inner: ComputePassErrorInner::PushConstants(_)
        })
    ));
    // Popping a debug group that was not pushed.
    let mut pass = begin(&mut w);
    w.g.compute_pass_pop_debug_group(&mut pass).unwrap();
    assert_eq!(
        w.g.compute_pass_end(&mut pass),
        pass_error(PassErrorScope::PopDebugGroup, ComputePassErrorInner::InvalidPopDebugGroup)
    );
    assert!(w.g.command_encoders.get(w.encoder).unwrap().list.is_empty());
}

#[test]
fn destroyed_buffer_fails_the_pass() {
    let mut w = world();
    let mut pass = begin(&mut w);
    w.g.compute_pass_set_pipeline(&mut pass, w.pipeline).unwrap();
    w.g.compute_pass_set_bind_group(&mut pass, 0, Some(w.read_group), &[]).unwrap();
    w.g.compute_pass_dispatch_workgroups(&mut pass, 1, 1, 1).unwrap();
    w.g.buffer_destroy(w.buffer);
    w.g.buffer_destroy(w.buffer);
    assert_eq!(
        w.g.compute_pass_end(&mut pass),
        pass_error(
            PassErrorScope::SetBindGroup,
            ComputePassErrorInner::DestroyedResource(w.buffer)
        )
    );
    assert_eq!(w.g.command_encoders.get(w.encoder).unwrap().status, CommandEncoderStatus::Recording);
}

#[test]
fn lost_device_fails_the_pass() {
    let mut w = world();
    let mut pass = begin(&mut w);
    w.g.devices.replace(w.device, Device { valid: false, ..device(false, false) });
    assert_eq!(
        w.g.compute_pass_end(&mut pass),
        pass_error(PassErrorScope::Pass, ComputePassErrorInner::Device(DeviceError::Lost))
    );
}

#[test]
fn debug_labels_reach_the_native_encoder_unless_discarded() {
    let mut w = world();
    let mut pass = begin(&mut w);
    w.g.compute_pass_push_debug_group(&mut pass, "outer", 0).unwrap();
    w.g.compute_pass_insert_debug_marker(&mut pass, "mark", 0).unwrap();
    w.g.compute_pass_pop_debug_group(&mut pass).unwrap();
    assert_eq!(pass.base.as_ref().unwrap().string_data, b"outermark".to_vec());
    assert_eq!(w.g.compute_pass_end(&mut pass), Ok(()));
    let e = w.g.command_encoders.get(w.encoder).unwrap();
    assert_eq!(
        e.list[1].commands,
        vec![
            NativeCommand::BeginComputePass,
            NativeCommand::BeginDebugMarker { len: 5 },
            NativeCommand::InsertDebugMarker { len: 4 },
            NativeCommand::EndDebugMarker,
            NativeCommand::EndComputePass,
        ]
    );
    assert_eq!(e.list[1].string_data, b"outermark".to_vec());

    let mut quiet = world_with(device(false, true));
    let mut pass = begin(&mut quiet);
    quiet.g.compute_pass_push_debug_group(&mut pass, "outer", 0).unwrap();
    quiet.g.compute_pass_pop_debug_group(&mut pass).unwrap();
    assert_eq!(quiet.g.compute_pass_end(&mut pass), Ok(()));
    let e = quiet.g.command_encoders.get(quiet.encoder).unwrap();
    assert_eq!(
        e.list[1].commands,
        vec![NativeCommand::BeginComputePass, NativeCommand::EndComputePass]
    );
}

#[test]
fn pipeline_layout_creation_is_checked() {
    let mut w = world();
    let (_, e) = w.g.device_create_pipeline_layout(
        w.device,
        &PipelineLayoutDescriptor { bind_group_layouts: vec![w.layout; 5], push_constant_size: 0 },
        Some(id(3)),
    );
    assert_eq!(e, Some(CreateError::TooManyGroups { actual: 5, max: 4 }));
    assert!(w.g.pipeline_layouts.contains(id(3)));
    assert!(w.g.pipeline_layouts.get(id(3)).is_err());
    let (_, e) = w.g.device_create_pipeline_layout(
        w.device,
        &PipelineLayoutDescriptor { bind_group_layouts: vec![], push_constant_size: 20 },
        Some(id(4)),
    );
    assert_eq!(e, Some(CreateError::PushConstantRangeTooLarge { size: 20, max: 16 }));
    let (_, e) = w.g.device_create_pipeline_layout(
        w.device,
        &PipelineLayoutDescriptor { bind_group_layouts: vec![id(9)], push_constant_size: 6 },
        Some(id(5)),
    );
    assert_eq!(e, Some(CreateError::MisalignedPushConstantRange { size: 6 }));
    let (_, e) = w.g.device_create_pipeline_layout(
        w.device,
        &PipelineLayoutDescriptor { bind_group_layouts: vec![id(9)], push_constant_size: 4 },
        Some(id(6)),
    );
    assert_eq!(e, Some(CreateError::InvalidResource(InvalidResourceError { id: id(9) })));
    let (none, e) = w.g.device_create_pipeline_layout(
        w.device,
        &PipelineLayoutDescriptor { bind_group_layouts: vec![], push_constant_size: 4 },
        Some(w.pipeline_layout),
    );
    assert_eq!(none, None);
    assert_eq!(e, Some(CreateError::Identity));
}
