//! The resources a device hands out, as the command stream sees them.
//!
//! Every resource is plain data that never changes after creation, so a
//! copy of it is as good as a shared handle: whoever holds one holds all
//! that recording and replay will ever read.

use vstd::prelude::*;
use crate::id::Id;

verus! {

/// How many bind groups can be bound at once.
pub const MAX_BIND_GROUPS: usize = 8;

/// Creation usage: the buffer can be mapped for reading.
pub const BUFFER_USAGE_MAP_READ: u32 = 0x001;

/// Creation usage: the buffer can be mapped for writing.
pub const BUFFER_USAGE_MAP_WRITE: u32 = 0x002;

/// Creation usage: the buffer can be the source of a copy.
pub const BUFFER_USAGE_COPY_SRC: u32 = 0x004;

/// Creation usage: the buffer can be the destination of a copy or clear.
pub const BUFFER_USAGE_COPY_DST: u32 = 0x008;

/// Creation usage: the buffer can be an index buffer.
pub const BUFFER_USAGE_INDEX: u32 = 0x010;

/// Creation usage: the buffer can be a vertex buffer.
pub const BUFFER_USAGE_VERTEX: u32 = 0x020;

/// Creation usage: the buffer can be bound as a uniform buffer.
pub const BUFFER_USAGE_UNIFORM: u32 = 0x040;

/// Creation usage: the buffer can be bound as a storage buffer.
pub const BUFFER_USAGE_STORAGE: u32 = 0x080;

/// Creation usage: the buffer can hold indirect arguments.
pub const BUFFER_USAGE_INDIRECT: u32 = 0x100;

/// Creation usage: the buffer can take resolved queries.
pub const BUFFER_USAGE_QUERY_RESOLVE: u32 = 0x200;

/// Creation usage of a texture: it can be bound as a storage texture.
pub const TEXTURE_USAGE_STORAGE_BINDING: u32 = 0x08;

/// Device feature: `Bgra8Unorm` textures can be storage textures.
pub const FEATURE_BGRA8UNORM_STORAGE: u64 = 0x0000_0000_0010_0000;

/// The limits of an adapter or a device.
#[derive(Clone, Copy, Debug, PartialEq, Eq, Structural)]
pub struct Limits {
    pub max_texture_dimension_1d: u32,
    pub max_texture_dimension_2d: u32,
    pub max_texture_dimension_3d: u32,
    pub max_bind_groups: u32,
    pub max_sampled_textures_per_shader_stage: u32,
    pub max_samplers_per_shader_stage: u32,
    pub max_storage_buffers_per_shader_stage: u32,
    pub max_storage_textures_per_shader_stage: u32,
    pub max_uniform_buffers_per_shader_stage: u32,
    pub max_uniform_buffer_binding_size: u32,
    pub max_storage_buffer_binding_size: u32,
    pub max_buffer_size: u64,
    pub max_push_constant_size: u32,
    pub min_storage_buffer_offset_alignment: u32,
    pub max_compute_workgroups_per_dimension: u32,
    pub max_non_sampler_bindings: u32,
}

/// The queue of a device: what command buffers are submitted to.
#[derive(Clone, Copy, Debug, PartialEq, Eq, Structural)]
pub struct Queue {
    pub id: Id,
    /// The device that the queue belongs to.
    pub device: Id,
}

/// A logical device.
#[derive(Clone, Copy, Debug, PartialEq, Eq, Structural)]
pub struct Device {
    pub limits: Limits,
    pub features: u64,
    /// Whether indirect dispatches can be executed at all.
    pub indirect_execution: bool,
    /// Whether indirect arguments are checked on the GPU before use.
    pub indirect_validation: bool,
    /// Whether debug labels are kept away from the native encoder.
    pub discard_labels: bool,
    /// Cleared when the device is lost or destroyed.
    pub valid: bool,
}

/// Whether the runtime can work with the device: if arguments of indirect
/// dispatches are to be checked, the alignment of storage bindings is
/// between 16 bytes and 2^30 bytes.
pub open spec fn device_supported(device: Device) -> bool {
    device.indirect_validation ==> 16 <= device.limits.min_storage_buffer_offset_alignment
        <= 0x4000_0000
}

/// Decides `device_supported`.
pub fn is_device_supported(device: &Device) -> (b: bool)
    ensures
        b == device_supported(*device),
{
    !device.indirect_validation || (16 <= device.limits.min_storage_buffer_offset_alignment
        && device.limits.min_storage_buffer_offset_alignment <= 0x4000_0000)
}

/// A buffer.
#[derive(Clone, Copy, Debug, PartialEq, Eq, Structural)]
pub struct Buffer {
    pub id: Id,
    pub device: Id,
    pub size: u64,
    /// The usages declared at creation.
    pub usage: u32,
    pub tracker_index: u32,
}

/// The pixel formats that creation rules tell apart.
#[derive(Clone, Copy, Debug, PartialEq, Eq, Structural)]
pub enum TextureFormat {
    Rgba8Unorm,
    Bgra8Unorm,
    Other,
}

/// What a texture is created from.
#[derive(Clone, Copy, Debug, PartialEq, Eq, Structural)]
pub struct TextureDescriptor {
    pub width: u32,
    pub height: u32,
    pub depth_or_array_layers: u32,
    pub format: TextureFormat,
    pub usage: u32,
}

/// A texture.
#[derive(Clone, Copy, Debug, PartialEq, Eq, Structural)]
pub struct Texture {
    pub id: Id,
    pub device: Id,
    pub desc: TextureDescriptor,
    /// Whether the texture is backed by memory shared with a swap chain.
    pub external: bool,
}

/// The layout of one bind group: how many of its bindings take a dynamic
/// offset.
#[derive(Clone, Copy, Debug, PartialEq, Eq, Structural)]
pub struct BindGroupLayout {
    pub id: Id,
    pub device: Id,
    pub dynamic_count: u32,
}

/// The layouts a pipeline expects, slot by slot.
#[derive(Clone, Copy, Debug)]
pub struct PipelineLayout {
    pub id: Id,
    pub device: Id,
    /// How many slots the layout has; at most `MAX_BIND_GROUPS`.
    pub group_count: usize,
    /// The bind group layout of each slot below `group_count`.
    pub group_layouts: [Id; 8],
    /// The bytes of push constants that compute shaders can see.
    pub push_constant_size: u32,
}

impl PipelineLayout {
    pub open spec fn wf(&self) -> bool {
        self.group_count <= MAX_BIND_GROUPS
    }

    /// The layouts of the slots the pipeline layout has.
    pub open spec fn layouts(&self) -> Seq<Id> {
        self.group_layouts@.take(self.group_count as int)
    }
}

/// A compute pipeline, together with the layout it was created with.
#[derive(Clone, Copy, Debug)]
pub struct ComputePipeline {
    pub id: Id,
    pub device: Id,
    pub layout: PipelineLayout,
}

/// A bind group without the list of what it uses.
#[derive(Clone, Copy, Debug, PartialEq, Eq, Structural)]
pub struct BindGroupInfo {
    pub id: Id,
    pub device: Id,
    pub layout: Id,
    /// How many dynamic offsets binding the group takes.
    pub dynamic_count: u32,
}

/// One buffer binding of a bind group to be created.
#[derive(Clone, Copy, Debug, PartialEq, Eq, Structural)]
pub struct BufferBinding {
    pub buffer: Id,
    pub kind: BindingKind,
}

/// How a shader sees a bound buffer.
#[derive(Clone, Copy, Debug, PartialEq, Eq, Structural)]
pub enum BindingKind {
    Uniform,
    StorageReadOnly,
    StorageReadWrite,
}

} // verus!
