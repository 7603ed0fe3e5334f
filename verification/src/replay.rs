//! Replaying a compute pass: the transcript is turned, command by command,
//! into native commands, while every rule that can only be checked against
//! what is bound is checked, and the barriers that the dispatches need are
//! put in front of them.

use vstd::prelude::*;
use crate::binder::{
    expect_layouts, first_changed, incompatibility, rebind_range, entry_active, Binder,
    BinderEntry, BoundGroup,
};
use crate::command::{
    append_range_u32, append_range_u8, append_zeros, label_view, overwrite_u32, ArcComputeCommand,
    BasePass, BindError, ComputePassError, ComputePassErrorInner, DeviceError, DispatchError,
    MissingBufferUsageError, PassErrorScope, PushConstantUploadError, TranscriptView,
};
use crate::device::group_limit;
use crate::encoder::NativeCommand;
use crate::global::{BufferSlot, Global};
use crate::id::Id;
use crate::resource::{
    device_supported, BindGroupInfo, Buffer, ComputePipeline, Device, BUFFER_USAGE_INDIRECT,
    MAX_BIND_GROUPS,
};
use crate::track::{
    merge_one, merge_prefix, move_sparse, track, used_indices, BufferTracker, BufferUsageScope,
    MergeOutcome, SparseOutcome, TrackerState, UsedBuffer,
};
use crate::usage::{
    skip_barrier, PendingTransition, INDIRECT, STORAGE_READ_ONLY, STORAGE_READ_WRITE,
};

verus! {

/// What a replay reads and never changes.
pub struct Env {
    /// The device of the encoder.
    pub device: Device,
    /// The identifier of that device.
    pub device_id: Id,
    /// The native buffer of each tracker index.
    pub slots: Seq<BufferSlot>,
    /// The tables of the transcript.
    pub dynamic_offsets: Seq<u32>,
    pub string_data: Seq<u8>,
    pub push_constant_data: Seq<u32>,
    pub used: Seq<UsedBuffer>,
}

/// What a replay has come to after some commands.
pub struct StateView {
    /// The pipeline layout that the binder goes by.
    pub layout: Option<Id>,
    /// The bytes of push constants that this layout lets shaders see.
    pub push_constant_size: u32,
    pub entries: Seq<BinderEntry>,
    pub pipeline: Option<ComputePipeline>,
    /// The usages since the last dispatch.
    pub scope: Map<u32, u16>,
    pub debug_scope_depth: u32,
    /// The state of every buffer that a dispatch of the pass has used.
    pub intermediate: TrackerState,
    /// How much of each table of the transcript is used up.
    pub dynamic_offset_count: usize,
    pub string_offset: usize,
    pub used_offset: usize,
    /// The push constants as they stand.
    pub push_constants: Seq<u32>,
    /// The native commands so far.
    pub raw: TranscriptView<NativeCommand>,
}

/// Whether the native buffer of a used buffer is there.
pub open spec fn used_alive(slots: Seq<BufferSlot>, u: UsedBuffer) -> bool {
    &&& (u.index as int) < slots.len()
    &&& slots[u.index as int].owner == Some(u.buffer)
    &&& !slots[u.index as int].destroyed
}

/// The first of the used buffers from `i` on whose native buffer is gone.
pub open spec fn first_dead(slots: Seq<BufferSlot>, used: Seq<UsedBuffer>, i: int) -> Option<Id>
    decreases used.len() - i,
{
    if i < 0 || i >= used.len() {
        None
    } else if !used_alive(slots, used[i]) {
        Some(used[i].buffer)
    } else {
        first_dead(slots, used, i + 1)
    }
}

/// What a bound group uses.
pub open spec fn group_uses(used: Seq<UsedBuffer>, g: BoundGroup) -> Seq<UsedBuffer> {
    used.subrange(g.used_start as int, g.used_start + g.used_len)
}

/// The native commands that bind anew the groups bound at the slots
/// `start..end`; with `active_only`, only at slots where the pipeline
/// expects a group.
pub open spec fn rebind(
    raw: TranscriptView<NativeCommand>,
    entries: Seq<BinderEntry>,
    table: Seq<u32>,
    start: int,
    end: int,
    active_only: bool,
) -> TranscriptView<NativeCommand>
    decreases end - start,
{
    if start >= end {
        raw
    } else {
        let before = rebind(raw, entries, table, start, end - 1, active_only);
        let e = entries[end - 1];
        if e.assigned is Some && (!active_only || e.expected is Some) {
            let g = e.assigned->0;
            TranscriptView {
                commands: before.commands.push(
                    NativeCommand::SetBindGroup {
                        index: (end - 1) as u32,
                        bind_group: g.info.id,
                        num_dynamic_offsets: g.offsets_len,
                    },
                ),
                dynamic_offsets: before.dynamic_offsets + table.subrange(
                    g.offsets_start as int,
                    g.offsets_start + g.offsets_len,
                ),
                ..before
            }
        } else {
            before
        }
    }
}

/// A transcript with one more command.
pub open spec fn pushed(raw: TranscriptView<NativeCommand>, c: NativeCommand) -> TranscriptView<
    NativeCommand,
> {
    TranscriptView { commands: raw.commands.push(c), ..raw }
}

/// The native commands that record the given barriers.
pub open spec fn barrier_commands(pending: Seq<PendingTransition>) -> Seq<NativeCommand> {
    Seq::new(pending.len(), |i: int| NativeCommand::TransitionBuffer(pending[i]))
}

/// Merges into a scope what the active groups at the slots below `n` use,
/// slot by slot, stopping at the first conflict.
pub open spec fn flush_merge(
    scope: Map<u32, u16>,
    entries: Seq<BinderEntry>,
    used: Seq<UsedBuffer>,
    n: nat,
) -> MergeOutcome
    decreases n,
{
    if n == 0 {
        MergeOutcome { uses: scope, error: None }
    } else {
        let before = flush_merge(scope, entries, used, (n - 1) as nat);
        let e = entries[n - 1];
        if before.error is Some || !entry_active(e) {
            before
        } else {
            let g = e.assigned->0;
            merge_prefix(before.uses, group_uses(used, g), g.used_len as nat)
        }
    }
}

/// Moves from a scope to a tracker what the active groups at the slots
/// below `n` use, slot by slot.
pub open spec fn flush_move(
    t: TrackerState,
    scope: Map<u32, u16>,
    entries: Seq<BinderEntry>,
    used: Seq<UsedBuffer>,
    n: nat,
) -> SparseOutcome
    decreases n,
{
    if n == 0 {
        SparseOutcome { tracker: t, scope }
    } else {
        let before = flush_move(t, scope, entries, used, (n - 1) as nat);
        let e = entries[n - 1];
        if !entry_active(e) {
            before
        } else {
            let g = e.assigned->0;
            move_sparse(
                before.tracker,
                before.scope,
                used_indices(group_uses(used, g)),
                g.used_len as nat,
            )
        }
    }
}

/// What happens before a dispatch: what the active bind groups use, and
/// the indirect buffer if there is one, goes from the scope of the pass to
/// its tracker, and the barriers this takes are recorded. Fails when a
/// buffer is used in ways that do not go together.
pub open spec fn flush_spec(s: StateView, env: Env, indirect: Option<u32>) -> Result<
    StateView,
    ComputePassErrorInner,
> {
    let merged = flush_merge(s.scope, s.entries, env.used, 8);
    if merged.error is Some {
        Err(ComputePassErrorInner::ResourceUsageCompatibility(merged.error->0))
    } else {
        let moved = flush_move(s.intermediate, merged.uses, s.entries, env.used, 8);
        let last = match indirect {
            Some(i) => move_sparse(moved.tracker, moved.scope, seq![i], 1),
            None => moved,
        };
        Ok(
            StateView {
                scope: last.scope,
                intermediate: TrackerState { pending: Seq::empty(), ..last.tracker },
                raw: TranscriptView {
                    commands: s.raw.commands + barrier_commands(last.tracker.pending),
                    ..s.raw
                },
                ..s
            },
        )
    }
}

/// Replays `SetBindGroup`.
pub open spec fn set_bind_group_step(
    s: StateView,
    env: Env,
    index: u32,
    num_dynamic_offsets: usize,
    bind_group: Option<BindGroupInfo>,
    num_used: usize,
) -> Result<StateView, ComputePassErrorInner> {
    if index as int >= group_limit(env.device) {
        Err(
            ComputePassErrorInner::BindGroupIndexOutOfRange {
                index,
                max: group_limit(env.device) as u32,
            },
        )
    } else if s.dynamic_offset_count + num_dynamic_offsets > env.dynamic_offsets.len()
        || s.used_offset + num_used > env.used.len() {
        Err(ComputePassErrorInner::MalformedTranscript)
    } else {
        let advanced = StateView {
            dynamic_offset_count: (s.dynamic_offset_count + num_dynamic_offsets) as usize,
            used_offset: (s.used_offset + num_used) as usize,
            ..s
        };
        match bind_group {
            None => Ok(advanced),
            Some(info) => {
                let g = BoundGroup {
                    info,
                    used_start: s.used_offset,
                    used_len: num_used,
                    offsets_start: s.dynamic_offset_count,
                    offsets_len: num_dynamic_offsets,
                };
                if info.device != env.device_id {
                    Err(ComputePassErrorInner::Device(DeviceError::DeviceMismatch))
                } else if num_dynamic_offsets != info.dynamic_count {
                    Err(
                        ComputePassErrorInner::Bind(
                            BindError::MismatchedDynamicOffsetCount {
                                group: index,
                                expected: info.dynamic_count as usize,
                                actual: num_dynamic_offsets,
                            },
                        ),
                    )
                } else if first_dead(env.slots, group_uses(env.used, g), 0) is Some {
                    Err(
                        ComputePassErrorInner::DestroyedResource(
                            first_dead(env.slots, group_uses(env.used, g), 0)->0,
                        ),
                    )
                } else {
                    let entries = s.entries.update(
                        index as int,
                        BinderEntry {
                            assigned: Some(g),
                            expected: s.entries[index as int].expected,
                        },
                    );
                    let range = rebind_range(entries, index as int);
                    Ok(
                        StateView {
                            entries,
                            raw: if s.layout is Some {
                                rebind(
                                    s.raw,
                                    entries,
                                    env.dynamic_offsets,
                                    range.0,
                                    range.1,
                                    false,
                                )
                            } else {
                                s.raw
                            },
                            ..advanced
                        },
                    )
                }
            },
        }
    }
}

/// Replays `SetPipeline`.
pub open spec fn set_pipeline_step(s: StateView, env: Env, pipeline: ComputePipeline) -> Result<
    StateView,
    ComputePassErrorInner,
> {
    if pipeline.layout.group_count > MAX_BIND_GROUPS {
        Err(ComputePassErrorInner::MalformedTranscript)
    } else if pipeline.device != env.device_id {
        Err(ComputePassErrorInner::Device(DeviceError::DeviceMismatch))
    } else {
        let raw = pushed(s.raw, NativeCommand::SetComputePipeline(pipeline.id));
        if s.layout == Some(pipeline.layout.id) {
            Ok(StateView { pipeline: Some(pipeline), raw, ..s })
        } else {
            let layouts = pipeline.layout.layouts();
            let entries = expect_layouts(s.entries, layouts);
            let range = rebind_range(entries, first_changed(s.entries, layouts, 0));
            let bound = rebind(raw, entries, env.dynamic_offsets, range.0, range.1, false);
            let words = (pipeline.layout.push_constant_size / 4) as nat;
            let zeros = Seq::new(words, |i: int| 0u32);
            Ok(
                StateView {
                    pipeline: Some(pipeline),
                    layout: Some(pipeline.layout.id),
                    push_constant_size: pipeline.layout.push_constant_size,
                    entries,
                    push_constants: zeros,
                    raw: if words > 0 {
                        TranscriptView {
                            commands: bound.commands.push(
                                NativeCommand::SetPushConstants {
                                    offset: 0,
                                    size_words: words as usize,
                                },
                            ),
                            push_constant_data: bound.push_constant_data + zeros,
                            ..bound
                        }
                    } else {
                        bound
                    },
                    ..s
                },
            )
        }
    }
}

/// Replays `SetPushConstant`.
pub open spec fn set_push_constant_step(
    s: StateView,
    env: Env,
    offset: u32,
    size_bytes: u32,
    values_offset: u32,
) -> Result<StateView, ComputePassErrorInner> {
    if offset % 4 != 0 {
        Err(ComputePassErrorInner::PushConstantOffsetAlignment)
    } else if size_bytes % 4 != 0 {
        Err(ComputePassErrorInner::PushConstantSizeAlignment)
    } else if values_offset + size_bytes / 4 > env.push_constant_data.len() {
        Err(ComputePassErrorInner::MalformedTranscript)
    } else if s.layout is None {
        Err(ComputePassErrorInner::Dispatch(DispatchError::MissingPipeline))
    } else if offset + size_bytes > s.push_constant_size {
        Err(
            ComputePassErrorInner::PushConstants(
                PushConstantUploadError::TooLarge { offset, size_bytes, max: s.push_constant_size },
            ),
        )
    } else {
        let data = env.push_constant_data.subrange(
            values_offset as int,
            values_offset + size_bytes / 4,
        );
        Ok(
            StateView {
                push_constants: s.push_constants.subrange(0, offset as int / 4) + data
                    + s.push_constants.subrange(
                    (offset + size_bytes) / 4,
                    s.push_constants.len() as int,
                ),
                raw: TranscriptView {
                    commands: s.raw.commands.push(
                        NativeCommand::SetPushConstants {
                            offset,
                            size_words: (size_bytes / 4) as usize,
                        },
                    ),
                    push_constant_data: s.raw.push_constant_data + data,
                    ..s.raw
                },
                ..s
            },
        )
    }
}

/// What keeps a dispatch from running: no pipeline is set, or what is
/// bound does not fit it.
pub open spec fn readiness(s: StateView) -> Option<DispatchError> {
    if s.pipeline is None {
        Some(DispatchError::MissingPipeline)
    } else if incompatibility(s.entries, 0) is Some {
        Some(DispatchError::IncompatibleBindGroup(incompatibility(s.entries, 0)->0))
    } else {
        None
    }
}

/// Replays `Dispatch`.
pub open spec fn dispatch_step(s: StateView, env: Env, x: u32, y: u32, z: u32) -> Result<
    StateView,
    ComputePassErrorInner,
> {
    let limit = env.device.limits.max_compute_workgroups_per_dimension;
    if readiness(s) is Some {
        Err(ComputePassErrorInner::Dispatch(readiness(s)->0))
    } else if flush_spec(s, env, None) is Err {
        Err(flush_spec(s, env, None)->Err_0)
    } else if x > limit || y > limit || z > limit {
        Err(
            ComputePassErrorInner::Dispatch(DispatchError::InvalidGroupSize { x, y, z, limit }),
        )
    } else {
        let flushed = flush_spec(s, env, None)->Ok_0;
        Ok(StateView { raw: pushed(flushed.raw, NativeCommand::Dispatch { x, y, z }), ..flushed })
    }
}

/// Where the bytes of an indirect dispatch end, or the largest offset
/// there is if they end beyond it.
pub open spec fn indirect_end(offset: u64) -> u64 {
    if offset + 12 > u64::MAX {
        u64::MAX
    } else {
        (offset + 12) as u64
    }
}

/// The rules an indirect dispatch is held to before anything is recorded,
/// in the order they are tried.
pub open spec fn indirect_check(s: StateView, env: Env, buffer: Buffer, offset: u64) -> Option<
    ComputePassErrorInner,
> {
    if buffer.device != env.device_id {
        Some(ComputePassErrorInner::Device(DeviceError::DeviceMismatch))
    } else if readiness(s) is Some {
        Some(ComputePassErrorInner::Dispatch(readiness(s)->0))
    } else if !env.device.indirect_execution {
        Some(ComputePassErrorInner::MissingDownlevelFlags)
    } else if buffer.usage & BUFFER_USAGE_INDIRECT == 0 {
        Some(
            ComputePassErrorInner::MissingBufferUsage(
                MissingBufferUsageError {
                    buffer: buffer.id,
                    actual: buffer.usage,
                    expected: BUFFER_USAGE_INDIRECT,
                },
            ),
        )
    } else if !Global::buffer_alive(env.slots, buffer) {
        Some(ComputePassErrorInner::DestroyedResource(buffer.id))
    } else if offset % 4 != 0 {
        Some(ComputePassErrorInner::UnalignedIndirectBufferOffset(offset))
    } else if offset + 12 > buffer.size {
        Some(
            ComputePassErrorInner::IndirectBufferOverrun {
                offset,
                end_offset: indirect_end(offset),
                buffer_size: buffer.size,
            },
        )
    } else {
        None
    }
}

/// Where the binding of an indirect buffer for the check of its arguments
/// starts, and how far into the binding the arguments lie.
pub struct ValidationParams {
    pub aligned_offset: u64,
    pub offset_remainder: u64,
}

/// The bytes of the indirect buffer that are bound for the check: enough
/// to reach every run of twelve bytes from an aligned start, and no more
/// than the buffer has.
pub open spec fn validation_binding_size(alignment: u64, buffer_size: u64) -> int {
    let wanted = 2 * alignment + buffer_size % alignment;
    if wanted < buffer_size {
        wanted
    } else {
        buffer_size as int
    }
}

/// The binding for the check of the arguments at `offset`: it starts at
/// the multiple of the alignment below `offset`, or earlier where the
/// binding would else reach beyond the buffer.
pub open spec fn validation_params(alignment: u64, offset: u64, buffer_size: u64)
    -> ValidationParams {
    let down = offset - offset % alignment;
    let last = buffer_size - validation_binding_size(alignment, buffer_size);
    let aligned = if down < last {
        down
    } else {
        last
    };
    ValidationParams {
        aligned_offset: aligned as u64,
        offset_remainder: (offset - aligned) as u64,
    }
}

/// Replays `DispatchIndirect`.
pub open spec fn dispatch_indirect_step(s: StateView, env: Env, buffer: Buffer, offset: u64)
    -> Result<StateView, ComputePassErrorInner> {
    if indirect_check(s, env, buffer, offset) is Some {
        Err(indirect_check(s, env, buffer, offset)->0)
    } else if env.device.indirect_validation {
        let params = validation_params(
            env.device.limits.min_storage_buffer_offset_alignment as u64,
            offset,
            buffer.size,
        );
        let known = s.intermediate.end.contains_key(buffer.tracker_index);
        let seen = track(
            s.intermediate,
            buffer.tracker_index,
            STORAGE_READ_ONLY,
            STORAGE_READ_ONLY,
        );
        let intermediate = TrackerState { pending: s.intermediate.pending, ..seen };
        let check = TranscriptView {
            commands: s.raw.commands.push(NativeCommand::SetValidationPipeline).push(
                NativeCommand::SetPushConstants { offset: 0, size_words: 1 },
            ).push(
                NativeCommand::SetValidationBindGroups {
                    src: buffer.id,
                    aligned_offset: params.aligned_offset,
                },
            ) + (if known && !skip_barrier(
                s.intermediate.end[buffer.tracker_index],
                STORAGE_READ_ONLY,
            ) {
                seq![
                    NativeCommand::TransitionBuffer(
                        PendingTransition {
                            index: buffer.tracker_index,
                            from: s.intermediate.end[buffer.tracker_index],
                            to: STORAGE_READ_ONLY,
                        },
                    ),
                ]
            } else {
                Seq::empty()
            }) + seq![
                NativeCommand::TransitionScratch { from: INDIRECT, to: STORAGE_READ_WRITE },
                NativeCommand::Dispatch { x: 1, y: 1, z: 1 },
                NativeCommand::SetComputePipeline(s.pipeline->0.id),
            ],
            push_constant_data: s.raw.push_constant_data.push(
                (params.offset_remainder / 4) as u32,
            ),
            ..s.raw
        };
        let restored = if s.push_constants.len() > 0 {
            TranscriptView {
                commands: check.commands.push(
                    NativeCommand::SetPushConstants {
                        offset: 0,
                        size_words: s.push_constants.len() as usize,
                    },
                ),
                push_constant_data: check.push_constant_data + s.push_constants,
                ..check
            }
        } else {
            check
        };
        let rebound = rebind(restored, s.entries, env.dynamic_offsets, 0, 8, true);
        let ready = StateView {
            intermediate,
            raw: pushed(
                rebound,
                NativeCommand::TransitionScratch { from: STORAGE_READ_WRITE, to: INDIRECT },
            ),
            ..s
        };
        match flush_spec(ready, env, None) {
            Err(e) => Err(e),
            Ok(flushed) => Ok(
                StateView {
                    raw: pushed(flushed.raw, NativeCommand::DispatchIndirectValidated),
                    ..flushed
                },
            ),
        }
    } else {
        let merged = merge_one(s.scope, buffer.tracker_index, INDIRECT);
        if merged.error is Some {
            Err(ComputePassErrorInner::ResourceUsageCompatibility(merged.error->0))
        } else {
            match flush_spec(
                StateView { scope: merged.uses, ..s },
                env,
                Some(buffer.tracker_index),
            ) {
                Err(e) => Err(e),
                Ok(flushed) => Ok(
                    StateView {
                        raw: pushed(
                            flushed.raw,
                            NativeCommand::DispatchIndirect { buffer: buffer.id, offset },
                        ),
                        ..flushed
                    },
                ),
            }
        }
    }
}

/// Replays `PushDebugGroup` (with `depth_change` 1) and `InsertDebugMarker`
/// (with `depth_change` 0): the label is taken from the table of strings
/// and, unless the device discards labels, handed to the native encoder.
pub open spec fn label_step(s: StateView, env: Env, len: usize, group: bool) -> Result<
    StateView,
    ComputePassErrorInner,
> {
    if group && s.debug_scope_depth == u32::MAX {
        Err(ComputePassErrorInner::MalformedTranscript)
    } else if s.string_offset + len > env.string_data.len() {
        Err(ComputePassErrorInner::MalformedTranscript)
    } else {
        let label = env.string_data.subrange(s.string_offset as int, s.string_offset + len);
        Ok(
            StateView {
                debug_scope_depth: if group {
                    (s.debug_scope_depth + 1) as u32
                } else {
                    s.debug_scope_depth
                },
                string_offset: (s.string_offset + len) as usize,
                raw: if env.device.discard_labels {
                    s.raw
                } else {
                    TranscriptView {
                        commands: s.raw.commands.push(
                            if group {
                                NativeCommand::BeginDebugMarker { len }
                            } else {
                                NativeCommand::InsertDebugMarker { len }
                            },
                        ),
                        string_data: s.raw.string_data + label,
                        ..s.raw
                    }
                },
                ..s
            },
        )
    }
}

/// Replays `PopDebugGroup`.
pub open spec fn pop_debug_group_step(s: StateView, env: Env) -> Result<
    StateView,
    ComputePassErrorInner,
> {
    if s.debug_scope_depth == 0 {
        Err(ComputePassErrorInner::InvalidPopDebugGroup)
    } else {
        Ok(
            StateView {
                debug_scope_depth: (s.debug_scope_depth - 1) as u32,
                raw: if env.device.discard_labels {
                    s.raw
                } else {
                    pushed(s.raw, NativeCommand::EndDebugMarker)
                },
                ..s
            },
        )
    }
}

/// The operation that a command is replayed as.
pub open spec fn scope_of(c: ArcComputeCommand) -> PassErrorScope {
    match c {
        ArcComputeCommand::SetBindGroup { .. } => PassErrorScope::SetBindGroup,
        ArcComputeCommand::SetPipeline(_) => PassErrorScope::SetPipelineCompute,
        ArcComputeCommand::SetPushConstant { .. } => PassErrorScope::SetPushConstant,
        ArcComputeCommand::Dispatch { .. } => PassErrorScope::Dispatch { indirect: false },
        ArcComputeCommand::DispatchIndirect { .. } => PassErrorScope::Dispatch { indirect: true },
        ArcComputeCommand::PushDebugGroup { .. } => PassErrorScope::PushDebugGroup,
        ArcComputeCommand::PopDebugGroup => PassErrorScope::PopDebugGroup,
        ArcComputeCommand::InsertDebugMarker { .. } => PassErrorScope::InsertDebugMarker,
    }
}

/// Replays one command.
pub open spec fn step(s: StateView, env: Env, c: ArcComputeCommand) -> Result<
    StateView,
    ComputePassErrorInner,
> {
    match c {
        ArcComputeCommand::SetBindGroup { index, num_dynamic_offsets, bind_group, num_used } => {
            set_bind_group_step(s, env, index, num_dynamic_offsets, bind_group, num_used)
        },
        ArcComputeCommand::SetPipeline(pipeline) => set_pipeline_step(s, env, pipeline),
        ArcComputeCommand::SetPushConstant { offset, size_bytes, values_offset } => {
            set_push_constant_step(s, env, offset, size_bytes, values_offset)
        },
        ArcComputeCommand::Dispatch { x, y, z } => dispatch_step(s, env, x, y, z),
        ArcComputeCommand::DispatchIndirect { buffer, offset } => dispatch_indirect_step(
            s,
            env,
            buffer,
            offset,
        ),
        ArcComputeCommand::PushDebugGroup { color, len } => label_step(s, env, len, true),
        ArcComputeCommand::PopDebugGroup => pop_debug_group_step(s, env),
        ArcComputeCommand::InsertDebugMarker { color, len } => label_step(s, env, len, false),
    }
}

/// Replays the first `n` commands, stopping at the first that fails.
pub open spec fn replay(s: StateView, env: Env, commands: Seq<ArcComputeCommand>, n: nat) -> Result<
    StateView,
    ComputePassError,
>
    decreases n,
{
    if n == 0 {
        Ok(s)
    } else {
        match replay(s, env, commands, (n - 1) as nat) {
            Err(e) => Err(e),
            Ok(before) => match step(before, env, commands[n - 1]) {
                Ok(after) => Ok(after),
                Err(inner) => Err(ComputePassError { scope: scope_of(commands[n - 1]), inner }),
            },
        }
    }
}

/// The state a replay starts in: nothing is bound, nothing was used, and
/// the native commands begin the pass.
pub open spec fn initial_state(label: Option<Seq<char>>) -> StateView {
    StateView {
        layout: None,
        push_constant_size: 0,
        entries: Seq::new(8, |i: int| BinderEntry { assigned: None, expected: None }),
        pipeline: None,
        scope: Map::empty(),
        debug_scope_depth: 0,
        intermediate: TrackerState {
            start: Map::empty(),
            end: Map::empty(),
            pending: Seq::empty(),
        },
        dynamic_offset_count: 0,
        string_offset: 0,
        used_offset: 0,
        push_constants: Seq::empty(),
        raw: TranscriptView {
            label,
            commands: seq![NativeCommand::BeginComputePass],
            dynamic_offsets: Seq::empty(),
            string_data: Seq::empty(),
            push_constant_data: Seq::empty(),
        },
    }
}

/// Whether native commands begin a pass in their first place, and neither
/// begin nor end a pass in any other.
pub open spec fn begun_once(commands: Seq<NativeCommand>) -> bool {
    &&& commands.len() >= 1
    &&& commands[0] == NativeCommand::BeginComputePass
    &&& forall|i: int|
        1 <= i < commands.len() ==> !((#[trigger] commands[i]) is BeginComputePass)
            && !(commands[i] is EndComputePass)
}

proof fn lemma_rebind_begun_once(
    raw: TranscriptView<NativeCommand>,
    entries: Seq<BinderEntry>,
    table: Seq<u32>,
    start: int,
    end: int,
    active_only: bool,
)
    requires
        begun_once(raw.commands),
    ensures
        begun_once(rebind(raw, entries, table, start, end, active_only).commands),
    decreases end - start,
{
    if start < end {
        lemma_rebind_begun_once(raw, entries, table, start, end - 1, active_only);
    }
}

proof fn lemma_flush_begun_once(s: StateView, env: Env, indirect: Option<u32>)
    requires
        begun_once(s.raw.commands),
        flush_spec(s, env, indirect) is Ok,
    ensures
        begun_once(flush_spec(s, env, indirect)->Ok_0.raw.commands),
{
}

proof fn lemma_step_begun_once(s: StateView, env: Env, c: ArcComputeCommand)
    requires
        begun_once(s.raw.commands),
        step(s, env, c) is Ok,
    ensures
        begun_once(step(s, env, c)->Ok_0.raw.commands),
{
    assert forall|
        raw: TranscriptView<NativeCommand>,
        entries: Seq<BinderEntry>,
        table: Seq<u32>,
        a: int,
        b: int,
        active: bool,
    | begun_once(raw.commands) implies begun_once(
        (#[trigger] rebind(raw, entries, table, a, b, active)).commands,
    ) by {
        lemma_rebind_begun_once(raw, entries, table, a, b, active);
    }
    assert forall|t: StateView, i: Option<u32>|
        begun_once(t.raw.commands) && (#[trigger] flush_spec(t, env, i)) is Ok implies begun_once(
        flush_spec(t, env, i)->Ok_0.raw.commands,
    ) by {
        lemma_flush_begun_once(t, env, i);
    }
}

/// A replay that succeeds begins the pass once: the native commands begin
/// the pass in their first place, and no command of the transcript begins
/// or ends a pass again.
pub proof fn law_replay_begins_once(
    label: Option<Seq<char>>,
    env: Env,
    commands: Seq<ArcComputeCommand>,
    n: nat,
)
    requires
        replay(initial_state(label), env, commands, n) is Ok,
    ensures
        begun_once(replay(initial_state(label), env, commands, n)->Ok_0.raw.commands),
    decreases n,
{
    if n > 0 {
        law_replay_begins_once(label, env, commands, (n - 1) as nat);
        lemma_step_begun_once(
            replay(initial_state(label), env, commands, (n - 1) as nat)->Ok_0,
            env,
            commands[n - 1],
        );
    }
}

/// A dispatch without a pipeline fails with `MissingPipeline`, whatever
/// else is the case.
pub proof fn law_dispatch_needs_pipeline(s: StateView, env: Env, x: u32, y: u32, z: u32)
    requires
        s.pipeline is None,
    ensures
        dispatch_step(s, env, x, y, z) == Err::<StateView, ComputePassErrorInner>(
            ComputePassErrorInner::Dispatch(DispatchError::MissingPipeline),
        ),
{
}

/// An indirect dispatch from a buffer that was not created with the
/// `INDIRECT` usage fails, whatever else is the case; and where nothing
/// else is wrong before, it fails with `MissingBufferUsage`.
pub proof fn law_indirect_needs_usage(s: StateView, env: Env, buffer: Buffer, offset: u64)
    requires
        buffer.usage & BUFFER_USAGE_INDIRECT == 0,
    ensures
        dispatch_indirect_step(s, env, buffer, offset) is Err,
        buffer.device == env.device_id && readiness(s) is None && env.device.indirect_execution
            ==> dispatch_indirect_step(s, env, buffer, offset) == Err::<
            StateView,
            ComputePassErrorInner,
        >(
            ComputePassErrorInner::MissingBufferUsage(
                MissingBufferUsageError {
                    buffer: buffer.id,
                    actual: buffer.usage,
                    expected: BUFFER_USAGE_INDIRECT,
                },
            ),
        ),
{
}

/// Once a command has failed, the replay has failed: the commands after it
/// are not replayed.
pub proof fn lemma_replay_stops(
    s: StateView,
    env: Env,
    commands: Seq<ArcComputeCommand>,
    n: nat,
    m: nat,
)
    requires
        n <= m,
        replay(s, env, commands, n) is Err,
    ensures
        replay(s, env, commands, m) == replay(s, env, commands, n),
    decreases m,
{
    if n < m {
        lemma_replay_stops(s, env, commands, n, (m - 1) as nat);
    }
}

/// What a replay reads and never changes, as the replay holds it.
pub struct ReplayEnv<'a> {
    pub device: Device,
    pub device_id: Id,
    pub slots: &'a Vec<BufferSlot>,
    pub dynamic_offsets: &'a Vec<u32>,
    pub string_data: &'a Vec<u8>,
    pub push_constant_data: &'a Vec<u32>,
    pub used: &'a Vec<UsedBuffer>,
}

impl<'a> ReplayEnv<'a> {
    pub open spec fn view(&self) -> Env {
        Env {
            device: self.device,
            device_id: self.device_id,
            slots: self.slots@,
            dynamic_offsets: self.dynamic_offsets@,
            string_data: self.string_data@,
            push_constant_data: self.push_constant_data@,
            used: self.used@,
        }
    }
}

/// The state of a replay.
pub struct State {
    pub binder: Binder,
    pub push_constant_size: u32,
    pub pipeline: Option<ComputePipeline>,
    pub scope: BufferUsageScope,
    pub debug_scope_depth: u32,
    pub intermediate_trackers: BufferTracker,
    pub dynamic_offset_count: usize,
    pub string_offset: usize,
    pub used_offset: usize,
    pub push_constants: Vec<u32>,
    pub raw: BasePass<NativeCommand>,
}

/// Whether what a replay has come to fits the tables it reads: nothing
/// points beyond them.
pub open spec fn state_fits(s: StateView, env: Env) -> bool {
    &&& s.entries.len() == MAX_BIND_GROUPS
    &&& s.dynamic_offset_count <= env.dynamic_offsets.len()
    &&& s.string_offset <= env.string_data.len()
    &&& s.used_offset <= env.used.len()
    &&& s.push_constants.len() == s.push_constant_size / 4
    &&& device_supported(env.device)
    &&& forall|i: int|
        0 <= i < 8 ==> (#[trigger] s.entries[i]).assigned is Some ==> {
            let g = s.entries[i].assigned->0;
            &&& g.used_start + g.used_len <= env.used.len()
            &&& g.offsets_start + g.offsets_len <= env.dynamic_offsets.len()
        }
}

impl State {
    pub open spec fn view(&self) -> StateView {
        StateView {
            layout: self.binder.pipeline_layout,
            push_constant_size: self.push_constant_size,
            entries: self.binder.entries@,
            pipeline: self.pipeline,
            scope: self.scope@,
            debug_scope_depth: self.debug_scope_depth,
            intermediate: self.intermediate_trackers@,
            dynamic_offset_count: self.dynamic_offset_count,
            string_offset: self.string_offset,
            used_offset: self.used_offset,
            push_constants: self.push_constants@,
            raw: self.raw@,
        }
    }

    pub open spec fn wf(&self, env: Env) -> bool {
        &&& self.binder.wf()
        &&& self.scope.wf()
        &&& self.intermediate_trackers.wf()
        &&& state_fits(self@, env)
    }

    /// The state a replay starts in.
    pub fn new(label: Option<String>) -> (state: Self)
        ensures
            state@ == initial_state(label_view(label)),
            state.binder.wf(),
            state.scope.wf(),
            state.intermediate_trackers.wf(),
    {
        let mut raw = BasePass::new(label);
        raw.commands.push(NativeCommand::BeginComputePass);
        let state = State {
            binder: Binder::new(),
            push_constant_size: 0,
            pipeline: None,
            scope: BufferUsageScope::new(),
            debug_scope_depth: 0,
            intermediate_trackers: BufferTracker::new(),
            dynamic_offset_count: 0,
            string_offset: 0,
            used_offset: 0,
            push_constants: Vec::new(),
            raw,
        };
        proof {
            let goal = initial_state(label_view(label));
            assert(state@.entries =~= goal.entries);
            assert(state@.raw.commands =~= goal.raw.commands);
            assert(state@.intermediate == goal.intermediate);
        }
        state
    }

    /// Whether everything but the native commands is as in `other`.
    pub open spec fn same_but_raw(&self, other: &State) -> bool {
        &&& self.binder == other.binder
        &&& self.push_constant_size == other.push_constant_size
        &&& self.pipeline == other.pipeline
        &&& self.scope == other.scope
        &&& self.debug_scope_depth == other.debug_scope_depth
        &&& self.intermediate_trackers == other.intermediate_trackers
        &&& self.dynamic_offset_count == other.dynamic_offset_count
        &&& self.string_offset == other.string_offset
        &&& self.used_offset == other.used_offset
        &&& self.push_constants == other.push_constants
    }

    /// Tells the native encoder anew which groups are bound at the slots
    /// `start..end`.
    fn emit_bindings(&mut self, env: &ReplayEnv, start: usize, end: usize, active_only: bool)
        requires
            old(self).wf(env@),
            start <= end <= 8,
        ensures
            final(self).wf(env@),
            final(self).same_but_raw(old(self)),
            final(self)@.raw == rebind(
                old(self)@.raw,
                old(self)@.entries,
                env@.dynamic_offsets,
                start as int,
                end as int,
                active_only,
            ),
    {
        let mut i: usize = start;
        while i < end
            invariant
                self.wf(env@),
                start <= i <= end <= 8,
                self.same_but_raw(old(self)),
                self@.raw == rebind(
                    old(self)@.raw,
                    old(self)@.entries,
                    env@.dynamic_offsets,
                    start as int,
                    i as int,
                    active_only,
                ),
            decreases end - i,
        {
            let e = self.binder.entries[i];
            match e.assigned {
                Some(g) => {
                    if !active_only || e.expected.is_some() {
                        assert(self@.entries[i as int].assigned is Some);
                        self.raw.commands.push(
                            NativeCommand::SetBindGroup {
                                index: i as u32,
                                bind_group: g.info.id,
                                num_dynamic_offsets: g.offsets_len,
                            },
                        );
                        append_range_u32(
                            &mut self.raw.dynamic_offsets,
                            env.dynamic_offsets,
                            g.offsets_start,
                            g.offsets_len,
                        );
                    }
                },
                None => {},
            }
            i += 1;
        }
    }
}

/// Finds the first used buffer of a range whose native buffer is gone.
fn find_dead(slots: &Vec<BufferSlot>, used: &Vec<UsedBuffer>, start: usize, len: usize) -> (r:
    Option<Id>)
    requires
        start + len <= used@.len(),
    ensures
        r == first_dead(slots@, used@.subrange(start as int, start + len), 0),
{
    let ghost part = used@.subrange(start as int, start + len);
    let n = used.len();
    let mut k: usize = 0;
    while k < len
        invariant
            n == used@.len(),
            start + len <= used@.len(),
            part == used@.subrange(start as int, start + len),
            k <= len,
            first_dead(slots@, part, 0) == first_dead(slots@, part, k as int),
        decreases len - k,
    {
        let u = used[start + k];
        assert(part[k as int] == u);
        let i = u.index as usize;
        let alive = if i < slots.len() {
            let slot = slots[i];
            match slot.owner {
                Some(owner) => owner == u.buffer && !slot.destroyed,
                None => false,
            }
        } else {
            false
        };
        if !alive {
            return Some(u.buffer);
        }
        k += 1;
    }
    None
}

impl State {
    /// Replays `SetBindGroup`.
    pub fn set_bind_group(
        &mut self,
        env: &ReplayEnv,
        index: u32,
        num_dynamic_offsets: usize,
        bind_group: Option<BindGroupInfo>,
        num_used: usize,
    ) -> (r: Result<(), ComputePassErrorInner>)
        requires
            old(self).wf(env@),
        ensures
            match set_bind_group_step(
                old(self)@,
                env@,
                index,
                num_dynamic_offsets,
                bind_group,
                num_used,
            ) {
                Ok(v) => r is Ok && final(self)@ == v && final(self).wf(env@),
                Err(e) => r == Err::<(), ComputePassErrorInner>(e),
            },
    {
        let max: usize = if env.device.limits.max_bind_groups >= 8 {
            8
        } else {
            env.device.limits.max_bind_groups as usize
        };
        if index as usize >= max {
            return Err(ComputePassErrorInner::BindGroupIndexOutOfRange { index, max: max as u32 });
        }
        if num_dynamic_offsets > env.dynamic_offsets.len() - self.dynamic_offset_count || num_used
            > env.used.len() - self.used_offset {
            return Err(ComputePassErrorInner::MalformedTranscript);
        }
        let g = match bind_group {
            None => {
                self.dynamic_offset_count = self.dynamic_offset_count + num_dynamic_offsets;
                self.used_offset = self.used_offset + num_used;
                return Ok(());
            },
            Some(info) => BoundGroup {
                info,
                used_start: self.used_offset,
                used_len: num_used,
                offsets_start: self.dynamic_offset_count,
                offsets_len: num_dynamic_offsets,
            },
        };
        if g.info.device != env.device_id {
            return Err(ComputePassErrorInner::Device(DeviceError::DeviceMismatch));
        }
        if num_dynamic_offsets != g.info.dynamic_count as usize {
            return Err(
                ComputePassErrorInner::Bind(
                    BindError::MismatchedDynamicOffsetCount {
                        group: index,
                        expected: g.info.dynamic_count as usize,
                        actual: num_dynamic_offsets,
                    },
                ),
            );
        }
        match find_dead(env.slots, env.used, g.used_start, g.used_len) {
            Some(dead) => {
                return Err(ComputePassErrorInner::DestroyedResource(dead));
            },
            None => {},
        }
        self.dynamic_offset_count = self.dynamic_offset_count + num_dynamic_offsets;
        self.used_offset = self.used_offset + num_used;
        let (start, end) = self.binder.assign_group(index as usize, g);
        if self.binder.pipeline_layout.is_some() {
            self.emit_bindings(env, start, end, false);
        }
        Ok(())
    }

    /// Replays `SetPipeline`.
    pub fn set_pipeline(&mut self, env: &ReplayEnv, pipeline: ComputePipeline) -> (r: Result<
        (),
        ComputePassErrorInner,
    >)
        requires
            old(self).wf(env@),
        ensures
            match set_pipeline_step(old(self)@, env@, pipeline) {
                Ok(v) => r is Ok && final(self)@ == v && final(self).wf(env@),
                Err(e) => r == Err::<(), ComputePassErrorInner>(e),
            },
    {
        if pipeline.layout.group_count > 8 {
            return Err(ComputePassErrorInner::MalformedTranscript);
        }
        if pipeline.device != env.device_id {
            return Err(ComputePassErrorInner::Device(DeviceError::DeviceMismatch));
        }
        self.pipeline = Some(pipeline);
        self.raw.commands.push(NativeCommand::SetComputePipeline(pipeline.id));
        let same = match self.binder.pipeline_layout {
            Some(current) => current == pipeline.layout.id,
            None => false,
        };
        if same {
            return Ok(());
        }
        let (start, end) = self.binder.change_pipeline_layout(&pipeline.layout);
        self.push_constant_size = pipeline.layout.push_constant_size;
        let words = (pipeline.layout.push_constant_size / 4) as usize;
        let mut zeros: Vec<u32> = Vec::new();
        append_zeros(&mut zeros, words);
        assert(zeros@ =~= Seq::new(words as nat, |i: int| 0u32));
        self.push_constants = zeros;
        self.emit_bindings(env, start, end, false);
        if words > 0 {
            self.raw.commands.push(NativeCommand::SetPushConstants { offset: 0, size_words: words });
            append_zeros(&mut self.raw.push_constant_data, words);
        }
        Ok(())
    }
}

/// Once merging has met a conflict, more slots change nothing.
pub proof fn lemma_flush_merge_stops(
    scope: Map<u32, u16>,
    entries: Seq<BinderEntry>,
    used: Seq<UsedBuffer>,
    n: nat,
    m: nat,
)
    requires
        n <= m,
        flush_merge(scope, entries, used, n).error is Some,
    ensures
        flush_merge(scope, entries, used, m) == flush_merge(scope, entries, used, n),
    decreases m,
{
    if n < m {
        lemma_flush_merge_stops(scope, entries, used, n, (m - 1) as nat);
    }
}

/// The binding for the check of indirect arguments starts at a multiple of
/// the alignment, reaches the twelve bytes of the arguments, and stays
/// within the buffer.
pub proof fn lemma_validation_params(alignment: u64, offset: u64, buffer_size: u64)
    requires
        16 <= alignment <= 0x4000_0000,
        offset + 12 <= buffer_size,
    ensures
        ({
            let p = validation_params(alignment, offset, buffer_size);
            let size = validation_binding_size(alignment, buffer_size);
            &&& p.aligned_offset % alignment == 0
            &&& p.aligned_offset + p.offset_remainder == offset
            &&& p.offset_remainder + 12 <= size
            &&& p.aligned_offset + size <= buffer_size
            &&& p.offset_remainder < 3 * alignment
        }),
{
    let a = alignment as int;
    let o = offset as int;
    let sz = buffer_size as int;
    let wanted = 2 * a + sz % a;
    let size = validation_binding_size(alignment, buffer_size);
    let down = o - o % a;
    let last = sz - size;
    vstd::arithmetic::div_mod::lemma_fundamental_div_mod(o, a);
    vstd::arithmetic::div_mod::lemma_fundamental_div_mod(sz, a);
    assert(0 <= o % a < a && 0 <= sz % a < a) by (nonlinear_arith)
        requires
            a > 0,
    ;
    assert(down == a * (o / a));
    assert(down % a == 0) by {
        vstd::arithmetic::div_mod::lemma_mod_multiples_basic(o / a, a);
        assert(a * (o / a) == (o / a) * a) by (nonlinear_arith);
    }
    if wanted < sz {
        assert(last == a * (sz / a) - 2 * a);
        assert(last == (sz / a - 2) * a) by (nonlinear_arith)
            requires
                last == a * (sz / a) - 2 * a,
        ;
        vstd::arithmetic::div_mod::lemma_mod_multiples_basic(sz / a - 2, a);
        assert(last % a == 0);
    } else {
        assert(last == 0);
        assert(0int % a == 0) by (nonlinear_arith)
            requires
                a > 0,
        ;
    }
}

/// Works out the binding for the check of indirect arguments.
pub fn compute_validation_params(alignment: u64, offset: u64, buffer_size: u64) -> (p:
    ValidationParams)
    requires
        16 <= alignment <= 0x4000_0000,
        offset + 12 <= buffer_size,
    ensures
        p == validation_params(alignment, offset, buffer_size),
        p.offset_remainder / 4 <= u32::MAX,
{
    proof {
        lemma_validation_params(alignment, offset, buffer_size);
    }
    let rest = buffer_size % alignment;
    let wanted = 2 * alignment + rest;
    let size = if wanted < buffer_size {
        wanted
    } else {
        buffer_size
    };
    let down = offset - offset % alignment;
    let last = buffer_size - size;
    let aligned = if down < last {
        down
    } else {
        last
    };
    ValidationParams { aligned_offset: aligned, offset_remainder: offset - aligned }
}

/// Records barriers as native commands.
pub fn push_barriers(raw: &mut BasePass<NativeCommand>, barriers: &Vec<PendingTransition>)
    ensures
        final(raw)@ == (TranscriptView {
            commands: old(raw)@.commands + barrier_commands(barriers@),
            ..old(raw)@
        }),
{
    let mut k: usize = 0;
    while k < barriers.len()
        invariant
            k <= barriers@.len(),
            raw@ == (TranscriptView {
                commands: old(raw)@.commands + barrier_commands(barriers@).take(k as int),
                ..old(raw)@
            }),
        decreases barriers@.len() - k,
    {
        raw.commands.push(NativeCommand::TransitionBuffer(barriers[k]));
        assert(barrier_commands(barriers@).take(k + 1) =~= barrier_commands(barriers@).take(
            k as int,
        ).push(NativeCommand::TransitionBuffer(barriers@[k as int])));
        k += 1;
    }
    assert(barrier_commands(barriers@).take(barriers@.len() as int) =~= barrier_commands(
        barriers@,
    ));
}

impl State {
    /// Replays `SetPushConstant`.
    pub fn set_push_constant(
        &mut self,
        env: &ReplayEnv,
        offset: u32,
        size_bytes: u32,
        values_offset: u32,
    ) -> (r: Result<(), ComputePassErrorInner>)
        requires
            old(self).wf(env@),
        ensures
            match set_push_constant_step(old(self)@, env@, offset, size_bytes, values_offset) {
                Ok(v) => r is Ok && final(self)@ == v && final(self).wf(env@),
                Err(e) => r == Err::<(), ComputePassErrorInner>(e),
            },
    {
        if offset % 4 != 0 {
            return Err(ComputePassErrorInner::PushConstantOffsetAlignment);
        }
        if size_bytes % 4 != 0 {
            return Err(ComputePassErrorInner::PushConstantSizeAlignment);
        }
        let words = (size_bytes / 4) as usize;
        let table = env.push_constant_data.len();
        if values_offset as usize > table || words > table - values_offset as usize {
            return Err(ComputePassErrorInner::MalformedTranscript);
        }
        if self.binder.pipeline_layout.is_none() {
            return Err(ComputePassErrorInner::Dispatch(DispatchError::MissingPipeline));
        }
        if offset > self.push_constant_size || size_bytes > self.push_constant_size - offset {
            return Err(
                ComputePassErrorInner::PushConstants(
                    PushConstantUploadError::TooLarge {
                        offset,
                        size_bytes,
                        max: self.push_constant_size,
                    },
                ),
            );
        }
        let first = (offset / 4) as usize;
        overwrite_u32(
            &mut self.push_constants,
            first,
            env.push_constant_data,
            values_offset as usize,
            words,
        );
        self.raw.commands.push(NativeCommand::SetPushConstants { offset, size_words: words });
        append_range_u32(
            &mut self.raw.push_constant_data,
            env.push_constant_data,
            values_offset as usize,
            words,
        );
        proof {
            let goal = set_push_constant_step(old(self)@, env@, offset, size_bytes, values_offset)->Ok_0;
            assert(self.push_constants@ =~= goal.push_constants);
        }
        Ok(())
    }

    /// What happens before a dispatch: what the active bind groups use, and
    /// the indirect buffer if there is one, goes from the scope of the pass
    /// to its tracker, and the barriers this takes are recorded.
    pub fn flush_states(&mut self, env: &ReplayEnv, indirect: Option<u32>) -> (r: Result<
        (),
        ComputePassErrorInner,
    >)
        requires
            old(self).wf(env@),
        ensures
            match flush_spec(old(self)@, env@, indirect) {
                Ok(v) => r is Ok && final(self)@ == v && final(self).wf(env@),
                Err(e) => r == Err::<(), ComputePassErrorInner>(e),
            },
    {
        let mut n: usize = 0;
        while n < 8
            invariant
                n <= 8,
                self.wf(env@),
                self@ == (StateView {
                    scope: flush_merge(old(self)@.scope, old(self)@.entries, env@.used, n as nat).uses,
                    ..old(self)@
                }),
                flush_merge(old(self)@.scope, old(self)@.entries, env@.used, n as nat).error is None,
            decreases 8 - n,
        {
            let e = self.binder.entries[n];
            match e.assigned {
                Some(g) => {
                    if e.expected.is_some() {
                        assert(self@.entries[n as int].assigned is Some);
                        match self.scope.merge_used_range(env.used, g.used_start, g.used_len) {
                            Ok(()) => {},
                            Err(err) => {
                                proof {
                                    lemma_flush_merge_stops(
                                        old(self)@.scope,
                                        old(self)@.entries,
                                        env@.used,
                                        (n + 1) as nat,
                                        8,
                                    );
                                }
                                return Err(ComputePassErrorInner::ResourceUsageCompatibility(err));
                            },
                        }
                    }
                },
                None => {},
            }
            n += 1;
        }
        let ghost merged = self@;
        let mut n: usize = 0;
        while n < 8
            invariant
                n <= 8,
                self.wf(env@),
                merged.entries == old(self)@.entries,
                self@ == (StateView {
                    scope: flush_move(
                        merged.intermediate,
                        merged.scope,
                        merged.entries,
                        env@.used,
                        n as nat,
                    ).scope,
                    intermediate: flush_move(
                        merged.intermediate,
                        merged.scope,
                        merged.entries,
                        env@.used,
                        n as nat,
                    ).tracker,
                    ..merged
                }),
            decreases 8 - n,
        {
            let e = self.binder.entries[n];
            match e.assigned {
                Some(g) => {
                    if e.expected.is_some() {
                        assert(self@.entries[n as int].assigned is Some);
                        self.intermediate_trackers.move_used_range(
                            &mut self.scope,
                            env.used,
                            g.used_start,
                            g.used_len,
                        );
                    }
                },
                None => {},
            }
            n += 1;
        }
        match indirect {
            Some(index) => {
                let mut one: Vec<u32> = Vec::new();
                one.push(index);
                assert(one@ =~= seq![index]);
                self.intermediate_trackers.set_and_remove_from_usage_scope_sparse(
                    &mut self.scope,
                    &one,
                );
            },
            None => {},
        }
        let barriers = self.intermediate_trackers.drain_transitions();
        push_barriers(&mut self.raw, &barriers);
        Ok(())
    }

    /// Decides what keeps a dispatch from running.
    fn is_ready(&self) -> (r: Option<DispatchError>)
        requires
            self.binder.wf(),
        ensures
            r == readiness(self@),
    {
        if self.pipeline.is_none() {
            return Some(DispatchError::MissingPipeline);
        }
        match self.binder.check_compatibility() {
            Err(e) => Some(DispatchError::IncompatibleBindGroup(e)),
            Ok(()) => None,
        }
    }

    /// Replays `Dispatch`.
    pub fn dispatch(&mut self, env: &ReplayEnv, x: u32, y: u32, z: u32) -> (r: Result<
        (),
        ComputePassErrorInner,
    >)
        requires
            old(self).wf(env@),
        ensures
            match dispatch_step(old(self)@, env@, x, y, z) {
                Ok(v) => r is Ok && final(self)@ == v && final(self).wf(env@),
                Err(e) => r == Err::<(), ComputePassErrorInner>(e),
            },
    {
        match self.is_ready() {
            Some(e) => {
                return Err(ComputePassErrorInner::Dispatch(e));
            },
            None => {},
        }
        match self.flush_states(env, None) {
            Err(e) => {
                return Err(e);
            },
            Ok(()) => {},
        }
        let limit = env.device.limits.max_compute_workgroups_per_dimension;
        if x > limit || y > limit || z > limit {
            return Err(
                ComputePassErrorInner::Dispatch(DispatchError::InvalidGroupSize { x, y, z, limit }),
            );
        }
        self.raw.commands.push(NativeCommand::Dispatch { x, y, z });
        Ok(())
    }

    /// Replays `PushDebugGroup` and `InsertDebugMarker`.
    pub fn label_command(&mut self, env: &ReplayEnv, len: usize, group: bool) -> (r: Result<
        (),
        ComputePassErrorInner,
    >)
        requires
            old(self).wf(env@),
        ensures
            match label_step(old(self)@, env@, len, group) {
                Ok(v) => r is Ok && final(self)@ == v && final(self).wf(env@),
                Err(e) => r == Err::<(), ComputePassErrorInner>(e),
            },
    {
        if group && self.debug_scope_depth == u32::MAX {
            return Err(ComputePassErrorInner::MalformedTranscript);
        }
        if len > env.string_data.len() - self.string_offset {
            return Err(ComputePassErrorInner::MalformedTranscript);
        }
        if group {
            self.debug_scope_depth = self.debug_scope_depth + 1;
        }
        if !env.device.discard_labels {
            if group {
                self.raw.commands.push(NativeCommand::BeginDebugMarker { len });
            } else {
                self.raw.commands.push(NativeCommand::InsertDebugMarker { len });
            }
            append_range_u8(&mut self.raw.string_data, env.string_data, self.string_offset, len);
        }
        self.string_offset = self.string_offset + len;
        Ok(())
    }

    /// Replays `PopDebugGroup`.
    pub fn pop_debug_group(&mut self, env: &ReplayEnv) -> (r: Result<(), ComputePassErrorInner>)
        requires
            old(self).wf(env@),
        ensures
            match pop_debug_group_step(old(self)@, env@) {
                Ok(v) => r is Ok && final(self)@ == v && final(self).wf(env@),
                Err(e) => r == Err::<(), ComputePassErrorInner>(e),
            },
    {
        if self.debug_scope_depth == 0 {
            return Err(ComputePassErrorInner::InvalidPopDebugGroup);
        }
        self.debug_scope_depth = self.debug_scope_depth - 1;
        if !env.device.discard_labels {
            self.raw.commands.push(NativeCommand::EndDebugMarker);
        }
        Ok(())
    }
}

/// Decides whether the native buffer behind a handle is there.
fn handle_alive(slots: &Vec<BufferSlot>, buffer: &Buffer) -> (alive: bool)
    ensures
        alive == Global::buffer_alive(slots@, *buffer),
{
    let i = buffer.tracker_index as usize;
    if i >= slots.len() {
        return false;
    }
    let slot = slots[i];
    match slot.owner {
        Some(owner) => owner == buffer.id && !slot.destroyed,
        None => false,
    }
}

impl State {
    /// Decides the rules an indirect dispatch is held to before anything is
    /// recorded.
    fn check_indirect(&self, env: &ReplayEnv, buffer: &Buffer, offset: u64) -> (r: Option<
        ComputePassErrorInner,
    >)
        requires
            self.wf(env@),
        ensures
            r == indirect_check(self@, env@, *buffer, offset),
    {
        if buffer.device != env.device_id {
            return Some(ComputePassErrorInner::Device(DeviceError::DeviceMismatch));
        }
        match self.is_ready() {
            Some(e) => {
                return Some(ComputePassErrorInner::Dispatch(e));
            },
            None => {},
        }
        if !env.device.indirect_execution {
            return Some(ComputePassErrorInner::MissingDownlevelFlags);
        }
        if buffer.usage & BUFFER_USAGE_INDIRECT == 0 {
            return Some(
                ComputePassErrorInner::MissingBufferUsage(
                    MissingBufferUsageError {
                        buffer: buffer.id,
                        actual: buffer.usage,
                        expected: BUFFER_USAGE_INDIRECT,
                    },
                ),
            );
        }
        if !handle_alive(env.slots, buffer) {
            return Some(ComputePassErrorInner::DestroyedResource(buffer.id));
        }
        if offset % 4 != 0 {
            return Some(ComputePassErrorInner::UnalignedIndirectBufferOffset(offset));
        }
        if offset > u64::MAX - 12 {
            return Some(
                ComputePassErrorInner::IndirectBufferOverrun {
                    offset,
                    end_offset: u64::MAX,
                    buffer_size: buffer.size,
                },
            );
        }
        if offset + 12 > buffer.size {
            return Some(
                ComputePassErrorInner::IndirectBufferOverrun {
                    offset,
                    end_offset: offset + 12,
                    buffer_size: buffer.size,
                },
            );
        }
        None
    }

    /// Replays `DispatchIndirect`.
    pub fn dispatch_indirect(&mut self, env: &ReplayEnv, buffer: Buffer, offset: u64) -> (r: Result<
        (),
        ComputePassErrorInner,
    >)
        requires
            old(self).wf(env@),
        ensures
            match dispatch_indirect_step(old(self)@, env@, buffer, offset) {
                Ok(v) => r is Ok && final(self)@ == v && final(self).wf(env@),
                Err(e) => r == Err::<(), ComputePassErrorInner>(e),
            },
    {
        match self.check_indirect(env, &buffer, offset) {
            Some(e) => {
                return Err(e);
            },
            None => {},
        }
        if env.device.indirect_validation {
            let params = compute_validation_params(
                env.device.limits.min_storage_buffer_offset_alignment as u64,
                offset,
                buffer.size,
            );
            self.raw.commands.push(NativeCommand::SetValidationPipeline);
            self.raw.commands.push(NativeCommand::SetPushConstants { offset: 0, size_words: 1 });
            self.raw.push_constant_data.push((params.offset_remainder / 4) as u32);
            self.raw.commands.push(
                NativeCommand::SetValidationBindGroups {
                    src: buffer.id,
                    aligned_offset: params.aligned_offset,
                },
            );
            match self.intermediate_trackers.set_single(buffer.tracker_index, STORAGE_READ_ONLY) {
                Some(t) => {
                    self.raw.commands.push(NativeCommand::TransitionBuffer(t));
                },
                None => {},
            }
            self.raw.commands.push(
                NativeCommand::TransitionScratch { from: INDIRECT, to: STORAGE_READ_WRITE },
            );
            self.raw.commands.push(NativeCommand::Dispatch { x: 1, y: 1, z: 1 });
            let pipeline = self.pipeline.unwrap();
            self.raw.commands.push(NativeCommand::SetComputePipeline(pipeline.id));
            let words = self.push_constants.len();
            if words > 0 {
                self.raw.commands.push(
                    NativeCommand::SetPushConstants { offset: 0, size_words: words },
                );
                append_range_u32(&mut self.raw.push_constant_data, &self.push_constants, 0, words);
                assert(self.push_constants@.subrange(0, words as int) =~= self.push_constants@);
            }
            proof {
                let s = old(self)@;
                let known = s.intermediate.end.contains_key(buffer.tracker_index);
                let check_commands = s.raw.commands.push(NativeCommand::SetValidationPipeline).push(
                    NativeCommand::SetPushConstants { offset: 0, size_words: 1 },
                ).push(
                    NativeCommand::SetValidationBindGroups {
                        src: buffer.id,
                        aligned_offset: params.aligned_offset,
                    },
                ) + (if known && !skip_barrier(
                    s.intermediate.end[buffer.tracker_index],
                    STORAGE_READ_ONLY,
                ) {
                    seq![
                        NativeCommand::TransitionBuffer(
                            PendingTransition {
                                index: buffer.tracker_index,
                                from: s.intermediate.end[buffer.tracker_index],
                                to: STORAGE_READ_ONLY,
                            },
                        ),
                    ]
                } else {
                    Seq::empty()
                }) + seq![
                    NativeCommand::TransitionScratch { from: INDIRECT, to: STORAGE_READ_WRITE },
                    NativeCommand::Dispatch { x: 1, y: 1, z: 1 },
                    NativeCommand::SetComputePipeline(s.pipeline->0.id),
                ];
                if words > 0 {
                    assert(self.raw.commands@ =~= check_commands.push(
                        NativeCommand::SetPushConstants { offset: 0, size_words: words },
                    ));
                } else {
                    assert(self.raw.commands@ =~= check_commands);
                    assert(self.push_constants@ =~= Seq::<u32>::empty());
                }
            }
            self.emit_bindings(env, 0, 8, true);
            self.raw.commands.push(
                NativeCommand::TransitionScratch { from: STORAGE_READ_WRITE, to: INDIRECT },
            );
            match self.flush_states(env, None) {
                Err(e) => {
                    return Err(e);
                },
                Ok(()) => {},
            }
            self.raw.commands.push(NativeCommand::DispatchIndirectValidated);
            Ok(())
        } else {
            match self.scope.merge_single(buffer.tracker_index, INDIRECT) {
                Err(e) => {
                    return Err(ComputePassErrorInner::ResourceUsageCompatibility(e));
                },
                Ok(()) => {},
            }
            match self.flush_states(env, Some(buffer.tracker_index)) {
                Err(e) => {
                    return Err(e);
                },
                Ok(()) => {},
            }
            self.raw.commands.push(NativeCommand::DispatchIndirect { buffer: buffer.id, offset });
            Ok(())
        }
    }

    /// Replays one command.
    pub fn run_one(&mut self, env: &ReplayEnv, c: ArcComputeCommand) -> (r: Result<
        (),
        ComputePassErrorInner,
    >)
        requires
            old(self).wf(env@),
        ensures
            match step(old(self)@, env@, c) {
                Ok(v) => r is Ok && final(self)@ == v && final(self).wf(env@),
                Err(e) => r == Err::<(), ComputePassErrorInner>(e),
            },
    {
        match c {
            ArcComputeCommand::SetBindGroup { index, num_dynamic_offsets, bind_group, num_used } => {
                self.set_bind_group(env, index, num_dynamic_offsets, bind_group, num_used)
            },
            ArcComputeCommand::SetPipeline(pipeline) => self.set_pipeline(env, pipeline),
            ArcComputeCommand::SetPushConstant { offset, size_bytes, values_offset } => {
                self.set_push_constant(env, offset, size_bytes, values_offset)
            },
            ArcComputeCommand::Dispatch { x, y, z } => self.dispatch(env, x, y, z),
            ArcComputeCommand::DispatchIndirect { buffer, offset } => self.dispatch_indirect(
                env,
                buffer,
                offset,
            ),
            ArcComputeCommand::PushDebugGroup { color, len } => self.label_command(env, len, true),
            ArcComputeCommand::PopDebugGroup => self.pop_debug_group(env),
            ArcComputeCommand::InsertDebugMarker { color, len } => self.label_command(
                env,
                len,
                false,
            ),
        }
    }

    /// Replays a transcript, stopping at the first command that fails.
    pub fn run(&mut self, env: &ReplayEnv, commands: &Vec<ArcComputeCommand>) -> (r: Result<
        (),
        ComputePassError,
    >)
        requires
            old(self).wf(env@),
        ensures
            match replay(old(self)@, env@, commands@, commands@.len()) {
                Ok(v) => r is Ok && final(self)@ == v && final(self).wf(env@),
                Err(e) => r == Err::<(), ComputePassError>(e),
            },
    {
        let mut i: usize = 0;
        while i < commands.len()
            invariant
                i <= commands@.len(),
                self.wf(env@),
                replay(old(self)@, env@, commands@, i as nat) == Ok::<StateView, ComputePassError>(
                    self@,
                ),
            decreases commands@.len() - i,
        {
            let c = commands[i];
            match self.run_one(env, c) {
                Ok(()) => {},
                Err(inner) => {
                    proof {
                        lemma_replay_stops(
                            old(self)@,
                            env@,
                            commands@,
                            (i + 1) as nat,
                            commands@.len(),
                        );
                    }
                    let scope = match c {
                        ArcComputeCommand::SetBindGroup { .. } => PassErrorScope::SetBindGroup,
                        ArcComputeCommand::SetPipeline(_) => PassErrorScope::SetPipelineCompute,
                        ArcComputeCommand::SetPushConstant { .. } => PassErrorScope::SetPushConstant,
                        ArcComputeCommand::Dispatch { .. } => PassErrorScope::Dispatch {
                            indirect: false,
                        },
                        ArcComputeCommand::DispatchIndirect { .. } => PassErrorScope::Dispatch {
                            indirect: true,
                        },
                        ArcComputeCommand::PushDebugGroup { .. } => PassErrorScope::PushDebugGroup,
                        ArcComputeCommand::PopDebugGroup => PassErrorScope::PopDebugGroup,
                        ArcComputeCommand::InsertDebugMarker { .. } => {
                            PassErrorScope::InsertDebugMarker
                        },
                    };
                    return Err(ComputePassError { scope, inner });
                },
            }
            i += 1;
        }
        Ok(())
    }
}

} // verus!
