//! The surface that a client process drives the runtime through: limits as
//! they are shown to clients, the creation of buffers under the safety cap,
//! the entry points that report to the client's error buffer, and the
//! plain-data side of what the native backends report.

use vstd::prelude::*;
use vstd::string::StringExecFns;
use crate::command::{BasePass, DeviceError};
use crate::encoder::{closed_list, CommandEncoderStatus, EncoderView, NativeCommand};
use crate::instance::{
    is_best, none_eligible, open_check, opened_device, request_adapter, Adapter, AdapterInfo,
    DeviceDescriptor, RequestAdapterOptions, RequestDeviceError, BACKENDS_PRIMARY,
};
use crate::queue::QueueSubmitError;
use crate::wire_adapter::{
    ser_adapter_information, write_adapter_information, AdapterInformation,
    AdapterInformationView,
};
use crate::error::{ErrMsg, ErrorBuffer, ErrorBufferType};
use crate::global::{BufferDescriptor, BufferSlot, CreateBufferError, Global};
use crate::message::{
    access_error_message, access_error_text, submit_error_message, submit_error_text, Operation,
};
use crate::id::Id;
use crate::registry::{InvalidResourceError, Status};
use crate::resource::{Limits, Queue};

verus! {

/// The largest buffer that is handed to a graphics driver: drivers have
/// trouble with sizes that do not fit a signed 32 bit integer, so larger
/// allocations fail before they reach one.
pub const MAX_BUFFER_SIZE: u64 = 0x4000_0000;

/// The largest binding size shown to clients.
pub const MAX_BUFFER_SIZE_U32: u32 = 0x4000_0000;

/// The largest texture extent shown to clients: some drivers have trouble
/// with extents that do not fit a signed 16 bit integer.
pub const MAX_TEXTURE_EXTENT: u32 = 32767;

/// The largest number of bindings per resource type and shader stage shown
/// to clients.
pub const MAX_BINDINGS_PER_RESOURCE_TYPE: u32 = 64;

/// The number of bindings that are not samplers shown to clients.
pub const MAX_NON_SAMPLER_BINDINGS: u32 = 500_000;

/// The smaller of two numbers.
pub open spec fn min_u32(a: u32, b: u32) -> u32 {
    if a < b {
        a
    } else {
        b
    }
}

/// The limits as they are shown to clients: every limit that the runtime
/// caps is the smaller of the cap and what the adapter offers, the number
/// of non-sampler bindings is fixed, and every other limit is the
/// adapter's.
pub open spec fn restricted(limits: Limits) -> Limits {
    Limits {
        max_buffer_size: if limits.max_buffer_size < MAX_BUFFER_SIZE {
            limits.max_buffer_size
        } else {
            MAX_BUFFER_SIZE
        },
        max_texture_dimension_1d: min_u32(limits.max_texture_dimension_1d, MAX_TEXTURE_EXTENT),
        max_texture_dimension_2d: min_u32(limits.max_texture_dimension_2d, MAX_TEXTURE_EXTENT),
        max_texture_dimension_3d: min_u32(limits.max_texture_dimension_3d, MAX_TEXTURE_EXTENT),
        max_sampled_textures_per_shader_stage: min_u32(
            limits.max_sampled_textures_per_shader_stage,
            MAX_BINDINGS_PER_RESOURCE_TYPE,
        ),
        max_samplers_per_shader_stage: min_u32(
            limits.max_samplers_per_shader_stage,
            MAX_BINDINGS_PER_RESOURCE_TYPE,
        ),
        max_storage_textures_per_shader_stage: min_u32(
            limits.max_storage_textures_per_shader_stage,
            MAX_BINDINGS_PER_RESOURCE_TYPE,
        ),
        max_uniform_buffers_per_shader_stage: min_u32(
            limits.max_uniform_buffers_per_shader_stage,
            MAX_BINDINGS_PER_RESOURCE_TYPE,
        ),
        max_storage_buffers_per_shader_stage: min_u32(
            limits.max_storage_buffers_per_shader_stage,
            MAX_BINDINGS_PER_RESOURCE_TYPE,
        ),
        max_uniform_buffer_binding_size: min_u32(
            limits.max_uniform_buffer_binding_size,
            MAX_BUFFER_SIZE_U32,
        ),
        max_storage_buffer_binding_size: min_u32(
            limits.max_storage_buffer_binding_size,
            MAX_BUFFER_SIZE_U32,
        ),
        max_non_sampler_bindings: MAX_NON_SAMPLER_BINDINGS,
        ..limits
    }
}

fn least(a: u32, b: u32) -> (m: u32)
    ensures
        m == min_u32(a, b),
{
    if a < b {
        a
    } else {
        b
    }
}

/// Caps the limits of an adapter to what is shown to clients.
pub fn restrict_limits(limits: Limits) -> (r: Limits)
    ensures
        r == restricted(limits),
{
    Limits {
        max_buffer_size: if limits.max_buffer_size < MAX_BUFFER_SIZE {
            limits.max_buffer_size
        } else {
            MAX_BUFFER_SIZE
        },
        max_texture_dimension_1d: least(limits.max_texture_dimension_1d, MAX_TEXTURE_EXTENT),
        max_texture_dimension_2d: least(limits.max_texture_dimension_2d, MAX_TEXTURE_EXTENT),
        max_texture_dimension_3d: least(limits.max_texture_dimension_3d, MAX_TEXTURE_EXTENT),
        max_sampled_textures_per_shader_stage: least(
            limits.max_sampled_textures_per_shader_stage,
            MAX_BINDINGS_PER_RESOURCE_TYPE,
        ),
        max_samplers_per_shader_stage: least(
            limits.max_samplers_per_shader_stage,
            MAX_BINDINGS_PER_RESOURCE_TYPE,
        ),
        max_storage_textures_per_shader_stage: least(
            limits.max_storage_textures_per_shader_stage,
            MAX_BINDINGS_PER_RESOURCE_TYPE,
        ),
        max_uniform_buffers_per_shader_stage: least(
            limits.max_uniform_buffers_per_shader_stage,
            MAX_BINDINGS_PER_RESOURCE_TYPE,
        ),
        max_storage_buffers_per_shader_stage: least(
            limits.max_storage_buffers_per_shader_stage,
            MAX_BINDINGS_PER_RESOURCE_TYPE,
        ),
        max_uniform_buffer_binding_size: least(
            limits.max_uniform_buffer_binding_size,
            MAX_BUFFER_SIZE_U32,
        ),
        max_storage_buffer_binding_size: least(
            limits.max_storage_buffer_binding_size,
            MAX_BUFFER_SIZE_U32,
        ),
        max_non_sampler_bindings: MAX_NON_SAMPLER_BINDINGS,
        max_bind_groups: limits.max_bind_groups,
        max_push_constant_size: limits.max_push_constant_size,
        min_storage_buffer_offset_alignment: limits.min_storage_buffer_offset_alignment,
        max_compute_workgroups_per_dimension: limits.max_compute_workgroups_per_dimension,
    }
}

/// Capping limits that are capped changes nothing.
pub proof fn law_restrict_limits_is_idempotent(limits: Limits)
    ensures
        restricted(restricted(limits)) == restricted(limits),
{
}

/// The version of an operating system.
#[derive(Clone, Copy, Debug, PartialEq, Eq, Structural)]
pub struct NSOperatingSystemVersion {
    pub major: usize,
    pub minor: usize,
    pub patch: usize,
}

impl NSOperatingSystemVersion {
    /// Whether this version is `mac_version` or later on a Mac, or
    /// `ios_version` or later elsewhere. Versions are compared by major
    /// number first and by minor number then.
    pub fn at_least(&self, mac_version: (usize, usize), ios_version: (usize, usize), is_mac: bool)
        -> (b: bool)
        ensures
            b == ({
                let version = if is_mac {
                    mac_version
                } else {
                    ios_version
                };
                self.major > version.0 || (self.major == version.0 && self.minor >= version.1)
            }),
    {
        let version = if is_mac {
            mac_version
        } else {
            ios_version
        };
        if self.major != version.0 {
            self.major > version.0
        } else {
            self.minor >= version.1
        }
    }
}

/// The kinds of adapter.
#[derive(Clone, Copy, Debug, PartialEq, Eq, Structural)]
pub enum DeviceType {
    Other,
    IntegratedGpu,
    DiscreteGpu,
    VirtualGpu,
    Cpu,
}

/// Whether an adapter of the kind is a piece of graphics hardware.
pub fn is_hardware(device_type: DeviceType) -> (b: bool)
    ensures
        b == (device_type == DeviceType::IntegratedGpu || device_type == DeviceType::DiscreteGpu),
{
    match device_type {
        DeviceType::IntegratedGpu => true,
        DeviceType::DiscreteGpu => true,
        _ => false,
    }
}

/// Why a buffer could not be mapped or unmapped.
#[derive(Clone, Copy, Debug, PartialEq, Eq, Structural)]
pub enum BufferAccessError {
    Device(DeviceError),
    Failed,
    InvalidResource(InvalidResourceError),
    DestroyedResource(Id),
    AlreadyMapped,
    MapAlreadyPending,
    MissingBufferUsage,
    NotMapped,
    UnalignedRange,
    UnalignedOffset { offset: u64 },
    UnalignedRangeSize { range_size: u64 },
    OutOfBoundsUnderrun { index: u64, min: u64 },
    OutOfBoundsOverrun { index: u64, max: u64 },
    NegativeRange { start: u64, end: u64 },
    MapAborted,
    InvalidBufferId,
}

/// The status code provided to the buffer mapping closure.
#[derive(Clone, Copy, Debug, PartialEq, Eq, Structural)]
pub enum BufferMapAsyncStatus {
    /// The Buffer is successfully mapped, `get_mapped_range` can be called.
    Success,
    /// The buffer is already mapped.
    AlreadyMapped,
    /// Mapping was already requested.
    MapAlreadyPending,
    /// An unknown error.
    Error,
    /// The context is Lost.
    ContextLost,
    /// The buffer is in an invalid state.
    Invalid,
    /// The range isn't fully contained in the buffer.
    InvalidRange,
    /// The range isn't properly aligned.
    InvalidAlignment,
    /// Incompatible usage flags.
    InvalidUsageFlags,
}

/// The status that the outcome of a mapping is reported with.
pub open spec fn map_status(result: Result<(), BufferAccessError>) -> BufferMapAsyncStatus {
    match result {
        Ok(_) => BufferMapAsyncStatus::Success,
        Err(BufferAccessError::Device(_)) => BufferMapAsyncStatus::ContextLost,
        Err(BufferAccessError::InvalidResource(_)) => BufferMapAsyncStatus::Invalid,
        Err(BufferAccessError::DestroyedResource(_)) => BufferMapAsyncStatus::Invalid,
        Err(BufferAccessError::AlreadyMapped) => BufferMapAsyncStatus::AlreadyMapped,
        Err(BufferAccessError::MapAlreadyPending) => BufferMapAsyncStatus::MapAlreadyPending,
        Err(BufferAccessError::MissingBufferUsage) => BufferMapAsyncStatus::InvalidUsageFlags,
        Err(BufferAccessError::UnalignedRange) => BufferMapAsyncStatus::InvalidAlignment,
        Err(BufferAccessError::UnalignedRangeSize { .. }) => BufferMapAsyncStatus::InvalidAlignment,
        Err(BufferAccessError::UnalignedOffset { .. }) => BufferMapAsyncStatus::InvalidAlignment,
        Err(BufferAccessError::OutOfBoundsUnderrun { .. }) => BufferMapAsyncStatus::InvalidRange,
        Err(BufferAccessError::OutOfBoundsOverrun { .. }) => BufferMapAsyncStatus::InvalidRange,
        Err(BufferAccessError::NegativeRange { .. }) => BufferMapAsyncStatus::InvalidRange,
        Err(BufferAccessError::Failed) => BufferMapAsyncStatus::Error,
        Err(BufferAccessError::NotMapped) => BufferMapAsyncStatus::Error,
        Err(BufferAccessError::MapAborted) => BufferMapAsyncStatus::Error,
        Err(BufferAccessError::InvalidBufferId) => BufferMapAsyncStatus::Invalid,
    }
}

/// Works out the status that the outcome of a mapping is reported with.
pub fn buffer_map_status(result: Result<(), BufferAccessError>) -> (status: BufferMapAsyncStatus)
    ensures
        status == map_status(result),
{
    match result {
        Ok(_) => BufferMapAsyncStatus::Success,
        Err(BufferAccessError::Device(_)) => BufferMapAsyncStatus::ContextLost,
        Err(BufferAccessError::InvalidResource(_)) => BufferMapAsyncStatus::Invalid,
        Err(BufferAccessError::DestroyedResource(_)) => BufferMapAsyncStatus::Invalid,
        Err(BufferAccessError::AlreadyMapped) => BufferMapAsyncStatus::AlreadyMapped,
        Err(BufferAccessError::MapAlreadyPending) => BufferMapAsyncStatus::MapAlreadyPending,
        Err(BufferAccessError::MissingBufferUsage) => BufferMapAsyncStatus::InvalidUsageFlags,
        Err(BufferAccessError::UnalignedRange) => BufferMapAsyncStatus::InvalidAlignment,
        Err(BufferAccessError::UnalignedRangeSize { .. }) => BufferMapAsyncStatus::InvalidAlignment,
        Err(BufferAccessError::UnalignedOffset { .. }) => BufferMapAsyncStatus::InvalidAlignment,
        Err(BufferAccessError::OutOfBoundsUnderrun { .. }) => BufferMapAsyncStatus::InvalidRange,
        Err(BufferAccessError::OutOfBoundsOverrun { .. }) => BufferMapAsyncStatus::InvalidRange,
        Err(BufferAccessError::NegativeRange { .. }) => BufferMapAsyncStatus::InvalidRange,
        Err(BufferAccessError::Failed) => BufferMapAsyncStatus::Error,
        Err(BufferAccessError::NotMapped) => BufferMapAsyncStatus::Error,
        Err(BufferAccessError::MapAborted) => BufferMapAsyncStatus::Error,
        Err(BufferAccessError::InvalidBufferId) => BufferMapAsyncStatus::Invalid,
    }
}

/// The kind that an error of mapping is reported as.
pub open spec fn access_error_kind(e: BufferAccessError) -> ErrorBufferType {
    match e {
        BufferAccessError::Device(DeviceError::OutOfMemory) => ErrorBufferType::OutOfMemory,
        BufferAccessError::Device(_) => ErrorBufferType::DeviceLost,
        _ => ErrorBufferType::Validation,
    }
}

impl Global {
    /// What keeps the memory of a buffer from being reached, as far as the
    /// runtime knows: the buffer does not exist, its device is gone or
    /// lost, or its native buffer was destroyed.
    pub open spec fn access_check(&self, buffer_id: Id) -> Option<BufferAccessError> {
        if !self.buffers.is_valid(buffer_id) {
            Some(BufferAccessError::InvalidResource(InvalidResourceError { id: buffer_id }))
        } else if self.device_check(self.buffers.resource(buffer_id).device) is Some {
            Some(BufferAccessError::Device(DeviceError::Lost))
        } else if !Self::buffer_alive(self.buffer_slots@, self.buffers.resource(buffer_id)) {
            Some(BufferAccessError::DestroyedResource(buffer_id))
        } else {
            None
        }
    }

    /// Decides whether the host may go on to map or unmap a buffer.
    pub fn buffer_access(&self, buffer_id: Id) -> (r: Result<(), BufferAccessError>)
        requires
            self.wf(),
        ensures
            r == match self.access_check(buffer_id) {
                Some(e) => Err::<(), BufferAccessError>(e),
                None => Ok(()),
            },
    {
        let buffer = match self.buffers.get(buffer_id) {
            Ok(buffer) => *buffer,
            Err(e) => {
                return Err(BufferAccessError::InvalidResource(e));
            },
        };
        if self.check_device(buffer.device).is_err() {
            return Err(BufferAccessError::Device(DeviceError::Lost));
        }
        if !self.is_buffer_alive(&buffer) {
            return Err(BufferAccessError::DestroyedResource(buffer_id));
        }
        Ok(())
    }
}

/// What a mapping is for.
#[derive(Clone, Copy, Debug, PartialEq, Eq, Structural)]
pub enum HostMap {
    /// The host reads the memory.
    Read,
    /// The host writes the memory.
    Write,
}

/// The usage that a buffer must have been created with to be mapped for a
/// purpose.
pub open spec fn map_usage(host: HostMap) -> u32 {
    match host {
        HostMap::Read => crate::resource::BUFFER_USAGE_MAP_READ,
        HostMap::Write => crate::resource::BUFFER_USAGE_MAP_WRITE,
    }
}

/// The multiple that the start of a mapping must be of.
pub const MAP_ALIGNMENT: u64 = 8;

/// The multiple that the size of a mapping must be of.
pub const MAP_SIZE_ALIGNMENT: u64 = 4;

impl Global {
    /// What keeps `size` bytes of a buffer from `start` on from being
    /// mapped, in the order the rules are tried: the buffer must exist,
    /// and its device must not be gone or lost; the start must be a
    /// multiple of eight and the size a multiple of four; the buffer must
    /// have been created to be mapped for the purpose; the bytes must lie
    /// within the buffer; the native buffer must not have been destroyed;
    /// and the buffer must not be mapped already.
    pub open spec fn map_check(&self, buffer_id: Id, host: HostMap, start: u64, size: u64)
        -> Option<BufferAccessError> {
        if !self.buffers.is_valid(buffer_id) {
            Some(BufferAccessError::InvalidResource(InvalidResourceError { id: buffer_id }))
        } else {
            let b = self.buffers.resource(buffer_id);
            if self.device_check(b.device) is Some {
                Some(BufferAccessError::Device(DeviceError::Lost))
            } else if start % MAP_ALIGNMENT != 0 {
                Some(BufferAccessError::UnalignedOffset { offset: start })
            } else if size % MAP_SIZE_ALIGNMENT != 0 {
                Some(BufferAccessError::UnalignedRangeSize { range_size: size })
            } else if b.usage & map_usage(host) == 0 {
                Some(BufferAccessError::MissingBufferUsage)
            } else if start + size > b.size {
                Some(
                    BufferAccessError::OutOfBoundsOverrun {
                        index: if start + size > u64::MAX {
                            u64::MAX
                        } else {
                            (start + size) as u64
                        },
                        max: b.size,
                    },
                )
            } else if self.access_check(buffer_id) is Some {
                self.access_check(buffer_id)
            } else if Self::buffer_mapped(self.buffer_slots@, b) {
                Some(BufferAccessError::AlreadyMapped)
            } else {
                None
            }
        }
    }

    /// Whether the host has the memory of a buffer mapped.
    pub open spec fn buffer_mapped(slots: Seq<BufferSlot>, b: crate::resource::Buffer) -> bool {
        &&& (b.tracker_index as int) < slots.len()
        &&& slots[b.tracker_index as int].owner == Some(b.id)
        &&& slots[b.tracker_index as int].mapped
    }

    /// Says whether the host has the memory of a buffer mapped.
    pub fn is_buffer_mapped(&self, buffer: &crate::resource::Buffer) -> (mapped: bool)
        ensures
            mapped == Self::buffer_mapped(self.buffer_slots@, *buffer),
    {
        let i = buffer.tracker_index as usize;
        if i >= self.buffer_slots.len() {
            return false;
        }
        let slot = self.buffer_slots[i];
        match slot.owner {
            Some(owner) => owner == buffer.id && slot.mapped,
            None => false,
        }
    }

    /// What keeps a buffer from being unmapped, in the order the rules are
    /// tried: the memory of the buffer must be there to be reached, and
    /// the buffer must be mapped.
    pub open spec fn unmap_check(&self, buffer_id: Id) -> Option<BufferAccessError> {
        if self.access_check(buffer_id) is Some {
            self.access_check(buffer_id)
        } else if !Self::buffer_mapped(self.buffer_slots@, self.buffers.resource(buffer_id)) {
            Some(BufferAccessError::NotMapped)
        } else {
            None
        }
    }

    /// What a mapping or an unmapping that is granted leaves behind: the
    /// slot of the buffer says whether the buffer is mapped, and nothing
    /// else has changed.
    pub open spec fn mapping_set(&self, post: &Global, buffer_id: Id, mapped: bool) -> bool {
        let index = self.buffers.resource(buffer_id).tracker_index as int;
        &&& post.buffers == self.buffers
        &&& post.tracker_indices == self.tracker_indices
        &&& post.buffer_slots@ == self.buffer_slots@.update(
            index,
            BufferSlot { mapped, ..self.buffer_slots@[index] },
        )
    }

    fn set_mapped(&mut self, buffer_id: Id, mapped: bool)
        requires
            old(self).wf(),
            old(self).buffers.is_valid(buffer_id),
        ensures
            final(self).wf(),
            final(self).same_but_buffers(old(self)),
            old(self).mapping_set(final(self), buffer_id, mapped),
    {
        let index = match self.buffers.get(buffer_id) {
            Ok(buffer) => buffer.tracker_index as usize,
            Err(_) => {
                return ;
            },
        };
        proof {
            assert(self.owns_slot(self.buffers.resource(buffer_id), buffer_id));
        }
        let slot = self.buffer_slots[index];
        self.buffer_slots.set(index, BufferSlot { mapped, ..slot });
        proof {
            assert forall|x: Id| (#[trigger] self.buffers.status(x)) is Valid implies self.owns_slot(
                self.buffers.resource(x),
                x,
            ) by {
                assert(old(self).owns_slot(old(self).buffers.resource(x), x));
            }
        }
    }

    /// Decides whether the host may go on to map bytes of a buffer.
    pub fn buffer_map_check(&self, buffer_id: Id, host: HostMap, start: u64, size: u64) -> (r:
        Result<(), BufferAccessError>)
        requires
            self.wf(),
        ensures
            r == match self.map_check(buffer_id, host, start, size) {
                Some(e) => Err::<(), BufferAccessError>(e),
                None => Ok(()),
            },
    {
        let buffer = match self.buffers.get(buffer_id) {
            Ok(buffer) => *buffer,
            Err(e) => {
                return Err(BufferAccessError::InvalidResource(e));
            },
        };
        if self.check_device(buffer.device).is_err() {
            return Err(BufferAccessError::Device(DeviceError::Lost));
        }
        if start % MAP_ALIGNMENT != 0 {
            return Err(BufferAccessError::UnalignedOffset { offset: start });
        }
        if size % MAP_SIZE_ALIGNMENT != 0 {
            return Err(BufferAccessError::UnalignedRangeSize { range_size: size });
        }
        let needed = match host {
            HostMap::Read => crate::resource::BUFFER_USAGE_MAP_READ,
            HostMap::Write => crate::resource::BUFFER_USAGE_MAP_WRITE,
        };
        if buffer.usage & needed == 0 {
            return Err(BufferAccessError::MissingBufferUsage);
        }
        if start > buffer.size || size > buffer.size - start {
            let index = if size > u64::MAX - start {
                u64::MAX
            } else {
                start + size
            };
            return Err(BufferAccessError::OutOfBoundsOverrun { index, max: buffer.size });
        }
        match self.buffer_access(buffer_id) {
            Err(e) => {
                return Err(e);
            },
            Ok(()) => {},
        }
        if self.is_buffer_mapped(&buffer) {
            return Err(BufferAccessError::AlreadyMapped);
        }
        Ok(())
    }

    /// Decides whether the host may go on to unmap a buffer.
    pub fn buffer_unmap_check(&self, buffer_id: Id) -> (r: Result<(), BufferAccessError>)
        requires
            self.wf(),
        ensures
            r == match self.unmap_check(buffer_id) {
                Some(e) => Err::<(), BufferAccessError>(e),
                None => Ok(()),
            },
    {
        match self.buffer_access(buffer_id) {
            Err(e) => {
                return Err(e);
            },
            Ok(()) => {},
        }
        let mapped = match self.buffers.get(buffer_id) {
            Ok(buffer) => self.is_buffer_mapped(buffer),
            Err(_) => false,
        };
        if !mapped {
            return Err(BufferAccessError::NotMapped);
        }
        Ok(())
    }
}

/// Answers a request to map `size` bytes of a buffer from `start` on for
/// reading or writing: the status that the client is called back with,
/// which is a success where no rule of mapping is broken. The buffer is
/// mapped from then on, until it is unmapped, destroyed or dropped; the
/// host maps the memory. What is broken is reported to the error buffer
/// as well, and changes nothing.
pub fn wgpu_server_buffer_map(
    global: &mut Global,
    buffer_id: Id,
    start: u64,
    size: u64,
    map_mode: HostMap,
    error_buf: &mut ErrorBuffer,
) -> (status: BufferMapAsyncStatus)
    requires
        old(global).wf(),
        old(error_buf).error is None,
    ensures
        final(global).wf(),
        final(global).same_but_buffers(old(global)),
        match old(global).map_check(buffer_id, map_mode, start, size) {
            None => {
                &&& status == BufferMapAsyncStatus::Success
                &&& final(error_buf).error is None
                &&& old(global).mapping_set(final(global), buffer_id, true)
            },
            Some(e) => {
                &&& status == map_status(Err(e))
                &&& *final(global) == *old(global)
                &&& final(error_buf).error is Some
                &&& final(error_buf).error->0.kind == access_error_kind(e)
                &&& final(error_buf).error->0.message@ == access_error_text(Operation::MapBuffer, e)
            },
        },
{
    let result = global.buffer_map_check(buffer_id, map_mode, start, size);
    match result {
        Ok(()) => {
            global.set_mapped(buffer_id, true);
        },
        Err(e) => {
            let kind = match e {
                BufferAccessError::Device(DeviceError::OutOfMemory) => ErrorBufferType::OutOfMemory,
                BufferAccessError::Device(_) => ErrorBufferType::DeviceLost,
                _ => ErrorBufferType::Validation,
            };
            error_buf.init(
                ErrMsg { message: access_error_message(Operation::MapBuffer, e), kind },
            );
        },
    }
    buffer_map_status(result)
}

/// Answers a request to unmap a buffer: the buffer is looked up, and where
/// it is mapped it is no longer; the host unmaps the memory. Whatever
/// keeps the buffer from being unmapped is reported, a buffer that does
/// not exist like any other failure, and changes nothing.
pub fn wgpu_server_buffer_unmap(global: &mut Global, buffer_id: Id, error_buf: &mut ErrorBuffer) -> (r:
    Result<(), BufferAccessError>)
    requires
        old(global).wf(),
        old(error_buf).error is None,
    ensures
        final(global).wf(),
        final(global).same_but_buffers(old(global)),
        r == match old(global).unmap_check(buffer_id) {
            Some(e) => Err::<(), BufferAccessError>(e),
            None => Ok(()),
        },
        match old(global).unmap_check(buffer_id) {
            None => {
                &&& final(error_buf).error is None
                &&& old(global).mapping_set(final(global), buffer_id, false)
            },
            Some(e) => {
                &&& *final(global) == *old(global)
                &&& final(error_buf).error is Some
                &&& final(error_buf).error->0.kind == access_error_kind(e)
                &&& final(error_buf).error->0.message@ == access_error_text(
                    Operation::UnmapBuffer,
                    e,
                )
            },
        },
{
    let result = global.buffer_unmap_check(buffer_id);
    match result {
        Ok(()) => {
            global.set_mapped(buffer_id, false);
        },
        Err(e) => {
            let kind = match e {
                BufferAccessError::Device(DeviceError::OutOfMemory) => ErrorBufferType::OutOfMemory,
                BufferAccessError::Device(_) => ErrorBufferType::DeviceLost,
                _ => ErrorBufferType::Validation,
            };
            error_buf.init(
                ErrMsg { message: access_error_message(Operation::UnmapBuffer, e), kind },
            );
        },
    }
    result
}

/// Mapping a buffer that is mapped fails with `AlreadyMapped`, and
/// unmapping one that is not mapped with `NotMapped`, whatever the request
/// is, as long as nothing else is wrong with it.
pub proof fn law_mapping_takes_turns(
    g: &Global,
    buffer_id: Id,
    host: HostMap,
    start: u64,
    size: u64,
)
    requires
        g.buffers.is_valid(buffer_id),
    ensures
        Global::buffer_mapped(g.buffer_slots@, g.buffers.resource(buffer_id)) ==> g.map_check(
            buffer_id,
            host,
            start,
            size,
        ) is Some,
        !Global::buffer_mapped(g.buffer_slots@, g.buffers.resource(buffer_id))
            ==> g.unmap_check(buffer_id) is Some,
        g.map_check(buffer_id, host, start, size) is None ==> g.unmap_check(buffer_id)
            == Some(BufferAccessError::NotMapped),
        g.unmap_check(buffer_id) is None && g.map_check(buffer_id, host, start, size) is Some
            && start % MAP_ALIGNMENT == 0 && size % MAP_SIZE_ALIGNMENT == 0 && g.buffers.resource(
            buffer_id,
        ).usage & map_usage(host) != 0 && start + size <= g.buffers.resource(buffer_id).size
            ==> g.map_check(buffer_id, host, start, size) == Some(
            BufferAccessError::AlreadyMapped,
        ),
{
}

/// How the planes of an image lie in its memory.
#[derive(Debug)]
pub struct DMABufInfo {
    pub is_valid: bool,
    pub modifier: u64,
    pub plane_count: u32,
    pub offsets: [u64; 3],
    pub strides: [u64; 3],
}

/// Where one plane of an image lies in its memory.
#[derive(Clone, Copy, Debug, PartialEq, Eq, Structural)]
pub struct SubresourceLayout {
    pub offset: u64,
    pub row_pitch: u64,
}

/// Describes an image of up to three planes: the offset and the stride of
/// each plane it has, and zero for the planes it lacks.
pub fn wgpu_vkimage_get_dma_buf_info(modifier: u64, layouts: &Vec<SubresourceLayout>) -> (info:
    DMABufInfo)
    requires
        layouts@.len() <= 3,
    ensures
        info.is_valid,
        info.modifier == modifier,
        info.plane_count == layouts@.len(),
        forall|i: int|
            0 <= i < 3 ==> info.offsets@[i] == if i < layouts@.len() {
                layouts@[i].offset
            } else {
                0
            },
        forall|i: int|
            0 <= i < 3 ==> info.strides@[i] == if i < layouts@.len() {
                layouts@[i].row_pitch
            } else {
                0
            },
{
    let mut offsets: [u64; 3] = [0;3];
    let mut strides: [u64; 3] = [0;3];
    let plane_count = layouts.len();
    let mut i: usize = 0;
    while i < plane_count
        invariant
            plane_count == layouts@.len(),
            plane_count <= 3,
            i <= plane_count,
            offsets@.len() == 3,
            strides@.len() == 3,
            forall|j: int|
                0 <= j < 3 ==> offsets@[j] == if j < i {
                    layouts@[j].offset
                } else {
                    0
                },
            forall|j: int|
                0 <= j < 3 ==> strides@[j] == if j < i {
                    layouts@[j].row_pitch
                } else {
                    0
                },
        decreases plane_count - i,
    {
        offsets[i] = layouts[i].offset;
        strides[i] = layouts[i].row_pitch;
        i += 1;
    }
    DMABufInfo { is_valid: true, modifier, plane_count: plane_count as u32, offsets, strides }
}

/// The kinds of memory that a physical device offers, by the flags of
/// their properties.
pub struct MemoryProperties {
    /// How many of the memory types count.
    pub memory_type_count: u32,
    pub memory_types: Vec<u32>,
}

/// Whether memory type `i` will do: it is allowed by the mask, if there is
/// one, and has all the flags asked for.
pub open spec fn memory_type_fits(
    props: MemoryProperties,
    flags: u32,
    memory_type_bits: Option<u32>,
    i: u32,
) -> bool {
    &&& i < props.memory_type_count
    &&& match memory_type_bits {
        Some(mask) => mask & (1u32 << i) != 0,
        None => true,
    }
    &&& (flags == 0 || props.memory_types@[i as int] & flags == flags)
}

/// Picks the first memory type that is allowed by the mask, if there is
/// one, and has all the flags asked for.
pub fn select_memory_type(props: &MemoryProperties, flags: u32, memory_type_bits: Option<u32>) -> (r:
    Option<u32>)
    requires
        props.memory_type_count <= 32,
        props.memory_type_count <= props.memory_types@.len(),
    ensures
        match r {
            Some(i) => memory_type_fits(*props, flags, memory_type_bits, i) && forall|j: u32|
                j < i ==> !memory_type_fits(*props, flags, memory_type_bits, j),
            None => forall|j: u32| !memory_type_fits(*props, flags, memory_type_bits, j),
        },
{
    let mut i: u32 = 0;
    while i < props.memory_type_count
        invariant
            i <= props.memory_type_count <= 32,
            props.memory_type_count <= props.memory_types@.len(),
            forall|j: u32| j < i ==> !memory_type_fits(*props, flags, memory_type_bits, j),
        decreases props.memory_type_count - i,
    {
        let allowed = match memory_type_bits {
            Some(mask) => mask & (1u32 << i) != 0,
            None => true,
        };
        if allowed && (flags == 0 || props.memory_types[i as usize] & flags == flags) {
            return Some(i);
        }
        i += 1;
    }
    None
}

/// What creating a buffer reports to the client: nothing when it
/// succeeds, out of memory when the allocation of shared memory failed or
/// the size is beyond the safety cap, and else the kind of the error.
pub open spec fn create_buffer_report(
    shm_allocation_failed: bool,
    size: u64,
    error: Option<CreateBufferError>,
) -> Option<ErrorBufferType> {
    if shm_allocation_failed || size > MAX_BUFFER_SIZE {
        Some(ErrorBufferType::OutOfMemory)
    } else {
        match error {
            None => None,
            Some(e) => Some(create_buffer_error_kind(e)),
        }
    }
}

/// The kind that an error of buffer creation is reported as.
pub open spec fn create_buffer_error_kind(e: CreateBufferError) -> ErrorBufferType {
    match e {
        CreateBufferError::Identity => ErrorBufferType::Internal,
        CreateBufferError::Device(DeviceError::OutOfMemory) => ErrorBufferType::OutOfMemory,
        CreateBufferError::Device(_) => ErrorBufferType::DeviceLost,
        _ => ErrorBufferType::Validation,
    }
}

/// The message that an error of buffer creation is reported with.
pub open spec fn create_buffer_error_text(e: CreateBufferError) -> Seq<char> {
    match e {
        CreateBufferError::Identity => "The identifier is in use"@,
        CreateBufferError::InvalidDevice(_) => "Device is invalid"@,
        CreateBufferError::Device(DeviceError::OutOfMemory) => "Out of memory"@,
        CreateBufferError::Device(DeviceError::Lost) => "Device is lost"@,
        CreateBufferError::Device(DeviceError::DeviceMismatch) => "Device mismatch"@,
        CreateBufferError::ZeroSize => "size is zero"@,
        CreateBufferError::InvalidUsage(_) => "Invalid usage flags"@,
        CreateBufferError::UsageMismatch(_) => "Usage flags do not go with mapping"@,
        CreateBufferError::MaxBufferSize { .. } => "Buffer size is greater than the maximum buffer size"@,
        CreateBufferError::UnalignedSize => "Buffers that are mapped at creation have to be aligned to 4 bytes"@,
    }
}

/// Writes the message that an error of buffer creation is reported with.
pub fn create_buffer_error_message(e: &CreateBufferError) -> (m: String)
    ensures
        m@ == create_buffer_error_text(*e),
{
    match e {
        CreateBufferError::Identity => "The identifier is in use".to_owned(),
        CreateBufferError::InvalidDevice(_) => "Device is invalid".to_owned(),
        CreateBufferError::Device(DeviceError::OutOfMemory) => "Out of memory".to_owned(),
        CreateBufferError::Device(DeviceError::Lost) => "Device is lost".to_owned(),
        CreateBufferError::Device(DeviceError::DeviceMismatch) => "Device mismatch".to_owned(),
        CreateBufferError::ZeroSize => "size is zero".to_owned(),
        CreateBufferError::InvalidUsage(_) => "Invalid usage flags".to_owned(),
        CreateBufferError::UsageMismatch(_) => "Usage flags do not go with mapping".to_owned(),
        CreateBufferError::MaxBufferSize { .. } => "Buffer size is greater than the maximum buffer size".to_owned(),
        CreateBufferError::UnalignedSize => "Buffers that are mapped at creation have to be aligned to 4 bytes".to_owned(),
    }
}

/// Creates a buffer for a client, at the identifier the client chose.
///
/// When the client could not allocate the shared memory for the buffer, or
/// the size is beyond the safety cap, the creation is not tried: out of
/// memory is reported, and a placeholder is registered at the identifier so
/// that the client can drop it. Otherwise the buffer is created as the
/// runtime creates buffers, and what fails is reported. An identifier that
/// cannot be used is reported as an internal error and registers nothing.
///
/// Whatever is reported, no native buffer was made: the slots and the
/// tracker indices are as before. Where nothing is reported, the buffer
/// is registered and alive, in a slot of its own, and no other slot and
/// no other tracker index has changed.
pub fn wgpu_server_device_create_buffer(
    global: &mut Global,
    self_id: Id,
    buffer_id: Id,
    size: u64,
    usage: u32,
    mapped_at_creation: bool,
    shm_allocation_failed: bool,
    error_buf: &mut ErrorBuffer,
)
    requires
        old(global).wf(),
        old(error_buf).error is None,
    ensures
        final(global).wf(),
        final(global).same_but_buffers(old(global)),
        ({
            let desc = BufferDescriptor { size, usage, mapped_at_creation };
            let capped = shm_allocation_failed || size > MAX_BUFFER_SIZE;
            let error = old(global).create_buffer_outcome(self_id, desc);
            if !old(global).buffers.accepts(buffer_id) {
                &&& final(global).buffers == old(global).buffers
                &&& final(error_buf).error is Some
                &&& final(error_buf).error->0.kind == if capped {
                    ErrorBufferType::OutOfMemory
                } else {
                    ErrorBufferType::Internal
                }
                &&& final(error_buf).error->0.message@ == if capped {
                    "Out of memory"@
                } else {
                    create_buffer_error_text(CreateBufferError::Identity)
                }
            } else {
                &&& final(global).buffers.evolves_but(&old(global).buffers, buffer_id)
                &&& final(global).buffers.is_registered(buffer_id)
                &&& final(global).buffers.is_valid(buffer_id) <==> !capped && error is None
                &&& match create_buffer_report(shm_allocation_failed, size, error) {
                    None => final(error_buf).error is None,
                    Some(kind) => final(error_buf).error is Some && final(error_buf).error->0.kind
                        == kind,
                }
                &&& capped ==> final(error_buf).error->0.message@ == "Out of memory"@
                &&& !capped ==> (error matches Some(e) ==> final(error_buf).error->0.message@
                    == create_buffer_error_text(e))
                &&& final(global).buffers.is_valid(buffer_id) ==> {
                    let b = final(global).buffers.resource(buffer_id);
                    b.id == buffer_id && b.device == self_id && b.size == size && b.usage == usage
                }
            }
        }),
        final(error_buf).error is Some ==> final(global).tracker_indices == old(
            global,
        ).tracker_indices && final(global).buffer_slots == old(global).buffer_slots,
        final(error_buf).error is None ==> {
            let b = final(global).buffers.resource(buffer_id);
            &&& final(global).buffers.is_valid(buffer_id)
            &&& Global::buffer_alive(final(global).buffer_slots@, b)
            &&& old(global).slot_taken(
                final(global),
                buffer_id,
                b.tracker_index,
                mapped_at_creation,
            )
        },
{
    let desc = BufferDescriptor { size, usage, mapped_at_creation };
    if shm_allocation_failed || size > MAX_BUFFER_SIZE {
        error_buf.init(
            ErrMsg { message: "Out of memory".to_owned(), kind: ErrorBufferType::OutOfMemory },
        );
        let _ = global.create_buffer_error(Some(buffer_id));
        return ;
    }
    let (_, error) = global.device_create_buffer(self_id, &desc, Some(buffer_id));
    match error {
        Some(e) => {
            let kind = match e {
                CreateBufferError::Identity => ErrorBufferType::Internal,
                CreateBufferError::Device(DeviceError::OutOfMemory) => ErrorBufferType::OutOfMemory,
                CreateBufferError::Device(_) => ErrorBufferType::DeviceLost,
                _ => ErrorBufferType::Validation,
            };
            error_buf.init(ErrMsg { message: create_buffer_error_message(&e), kind });
        },
        None => {},
    }
}

/// Destroys the native buffer of a buffer for a client. The buffer stays
/// registered until it is dropped, and no other buffer is touched.
/// Destroying a buffer twice, or one that does not exist, is no error, and
/// leaves what one call leaves.
pub fn wgpu_server_buffer_destroy(global: &mut Global, self_id: Id)
    requires
        old(global).wf(),
    ensures
        final(global).wf(),
        final(global).same_but_buffers(old(global)),
        final(global).buffers == old(global).buffers,
        final(global).tracker_indices == old(global).tracker_indices,
        !old(global).buffers.is_valid(self_id) ==> *final(global) == *old(global),
        old(global).buffers.is_valid(self_id) ==> final(global).buffer_slots@ == old(
            global,
        ).buffer_slots@.update(
            old(global).buffers.resource(self_id).tracker_index as int,
            BufferSlot { owner: Some(self_id), destroyed: true, mapped: false },
        ),
        forall|b: crate::resource::Buffer|
            #![trigger Global::buffer_alive(final(global).buffer_slots@, b)]
            Global::buffer_alive(final(global).buffer_slots@, b) <==> Global::buffer_alive(
                old(global).buffer_slots@,
                b,
            ) && !(old(global).buffers.is_valid(self_id) && old(global).buffers.resource(
                self_id,
            ).tracker_index == b.tracker_index),
{
    global.buffer_destroy(self_id);
}

/// Destroying a buffer twice leaves what destroying it once leaves: the
/// first call marks the slot of its native buffer as destroyed, and
/// marking the slot again changes nothing.
pub proof fn law_destroying_twice_is_destroying_once(slots: Seq<BufferSlot>, index: int, id: Id)
    requires
        0 <= index < slots.len(),
    ensures
        ({
            let gone = BufferSlot { owner: Some(id), destroyed: true, mapped: false };
            slots.update(index, gone).update(index, gone) == slots.update(index, gone)
        }),
{
    let gone = BufferSlot { owner: Some(id), destroyed: true, mapped: false };
    assert(slots.update(index, gone).update(index, gone) =~= slots.update(index, gone));
}

/// Drops a buffer, or the placeholder of one, for a client: the
/// identifier is retired. With a buffer its slot is emptied and its
/// tracker index given back, and no other slot or index is touched; with
/// a placeholder slots and indices stay. Dropping what is not registered
/// changes nothing.
pub fn wgpu_server_buffer_drop(global: &mut Global, self_id: Id)
    requires
        old(global).wf(),
    ensures
        final(global).wf(),
        final(global).same_but_buffers(old(global)),
        final(global).buffers.same_but(&old(global).buffers, self_id),
        !final(global).buffers.is_registered(self_id),
        old(global).buffers.is_registered(self_id) ==> final(global).buffers.status(
            self_id,
        ) is Retired,
        !old(global).buffers.is_registered(self_id) ==> *final(global) == *old(global),
        old(global).buffers.is_valid(self_id) ==> !Global::buffer_alive(
            final(global).buffer_slots@,
            old(global).buffers.resource(self_id),
        ),
        if old(global).buffers.is_valid(self_id) {
            old(global).slot_given_back(
                final(global),
                old(global).buffers.resource(self_id).tracker_index,
            )
        } else {
            &&& final(global).buffer_slots == old(global).buffer_slots
            &&& final(global).tracker_indices == old(global).tracker_indices
        },
{
    global.buffer_drop(self_id);
}

/// The platforms that differ in how textures are shared with a swap chain.
#[derive(Clone, Copy, Debug, PartialEq, Eq, Structural)]
pub enum Platform {
    Windows,
    Linux,
    MacOs,
    Other,
}

/// Whether the textures of a swap chain can share memory with it: on
/// Windows with Direct3D 12 on hardware; on Linux with Vulkan, if the
/// adapter has every extension that sharing needs; on macOS with Metal on
/// hardware from version 10.14 on; and nowhere else.
pub open spec fn external_texture_supported(
    platform: Platform,
    backend: crate::id::Backend,
    is_hardware: bool,
    has_required_extensions: bool,
    version: NSOperatingSystemVersion,
) -> bool {
    match platform {
        Platform::Windows => backend == crate::id::Backend::Dx12 && is_hardware,
        Platform::Linux => backend == crate::id::Backend::Vulkan && has_required_extensions,
        Platform::MacOs => backend == crate::id::Backend::Metal && is_hardware && (version.major
            > 10 || (version.major == 10 && version.minor >= 14)),
        Platform::Other => false,
    }
}

/// Decides `external_texture_supported`.
pub fn support_use_external_texture_in_swap_chain(
    platform: Platform,
    backend: crate::id::Backend,
    is_hardware: bool,
    has_required_extensions: bool,
    version: &NSOperatingSystemVersion,
) -> (b: bool)
    ensures
        b == external_texture_supported(
            platform,
            backend,
            is_hardware,
            has_required_extensions,
            *version,
        ),
{
    match platform {
        Platform::Windows => {
            if !matches!(backend, crate::id::Backend::Dx12) {
                return false;
            }
            is_hardware
        },
        Platform::Linux => {
            if !matches!(backend, crate::id::Backend::Vulkan) {
                return false;
            }
            has_required_extensions
        },
        Platform::MacOs => {
            if !matches!(backend, crate::id::Backend::Metal) {
                return false;
            }
            if !is_hardware {
                return false;
            }
            version.at_least((10, 14), (12, 0), true)
        },
        Platform::Other => false,
    }
}

/// Whether every name of `required` is among `supported`.
pub open spec fn has_all(required: Seq<Seq<u8>>, supported: Seq<Seq<u8>>) -> bool {
    forall|i: int| 0 <= i < required.len() ==> supported.contains(#[trigger] required[i])
}

fn same_bytes(a: &Vec<u8>, b: &Vec<u8>) -> (r: bool)
    ensures
        r == (a@ == b@),
{
    if a.len() != b.len() {
        return false;
    }
    let mut i: usize = 0;
    while i < a.len()
        invariant
            a@.len() == b@.len(),
            i <= a@.len(),
            forall|j: int| 0 <= j < i ==> a@[j] == b@[j],
        decreases a@.len() - i,
    {
        if a[i] != b[i] {
            return false;
        }
        i += 1;
    }
    assert(a@ =~= b@);
    true
}

fn contains_name(supported: &Vec<Vec<u8>>, name: &Vec<u8>) -> (found: bool)
    ensures
        found == names_of(supported@).contains(name@),
{
    let mut j: usize = 0;
    while j < supported.len()
        invariant
            j <= supported@.len(),
            forall|k: int| 0 <= k < j ==> names_of(supported@)[k] != name@,
        decreases supported@.len() - j,
    {
        if same_bytes(name, &supported[j]) {
            assert(names_of(supported@)[j as int] == name@);
            return true;
        }
        j += 1;
    }
    false
}

/// The names of a list, each as a sequence of bytes.
pub open spec fn names_of(list: Seq<Vec<u8>>) -> Seq<Seq<u8>> {
    Seq::new(list.len(), |i: int| list[i]@)
}

/// Decides whether an adapter has every extension of a list.
pub fn supports_extensions(required: &Vec<Vec<u8>>, supported: &Vec<Vec<u8>>) -> (b: bool)
    ensures
        b == has_all(names_of(required@), names_of(supported@)),
{
    let mut i: usize = 0;
    while i < required.len()
        invariant
            i <= required@.len(),
            forall|k: int|
                0 <= k < i ==> names_of(supported@).contains(#[trigger] names_of(required@)[k]),
        decreases required@.len() - i,
    {
        let found = contains_name(supported, &required[i]);
        assert(names_of(required@)[i as int] == required@[i as int]@);
        if !found {
            return false;
        }
        i += 1;
    }
    true
}

/// Where in a source text a message points to.
#[derive(Clone, Copy, Debug, PartialEq, Eq, Structural)]
pub struct SourceLocation {
    /// The line, counted from one.
    pub line_number: u32,
    /// The byte at which the part that is meant starts.
    pub offset: u32,
    /// The number of bytes of that part.
    pub length: u32,
}

/// A message of the shader compiler, with its place in UTF-16 code units
/// as script sees the source text.
pub struct ShaderModuleCompilationMessage {
    pub line_number: u64,
    pub line_pos: u64,
    pub utf16_offset: u64,
    pub utf16_length: u64,
    pub message: String,
}

/// The UTF-16 code units that one byte of UTF-8 text accounts for: a byte
/// that starts a character counts for the character, twice if the
/// character takes four bytes; a byte that continues one counts nothing.
pub open spec fn units_of_byte(b: u8) -> nat {
    if b & 0xc0 == 0x80 {
        0
    } else if b >= 0xf0 {
        2
    } else {
        1
    }
}

/// The UTF-16 code units of the bytes `from..to` of a UTF-8 text.
pub open spec fn utf16_units(source: Seq<u8>, from: int, to: int) -> nat
    decreases to - from,
{
    if to <= from {
        0
    } else {
        utf16_units(source, from, to - 1) + units_of_byte(source[to - 1])
    }
}

/// Where the line starts that byte `at` stands in: after the last line
/// feed before `at`, or at the start of the text.
pub open spec fn line_start(source: Seq<u8>, at: int) -> int
    decreases at,
{
    if at <= 0 {
        0
    } else if source[at - 1] == 0x0a {
        at
    } else {
        line_start(source, at - 1)
    }
}

/// Counts the UTF-16 code units of a part of a UTF-8 text.
pub fn len_utf16(source: &[u8], from: usize, to: usize) -> (n: u64)
    requires
        from <= to <= source@.len(),
        source@.len() <= 0x7fff_ffff_ffff_ffff,
    ensures
        n == utf16_units(source@, from as int, to as int),
        n <= 2 * (to - from),
{
    let mut n: u64 = 0;
    let mut i: usize = from;
    while i < to
        invariant
            from <= i <= to <= source@.len(),
            source@.len() <= 0x7fff_ffff_ffff_ffff,
            n == utf16_units(source@, from as int, i as int),
            n <= 2 * (i - from),
        decreases to - i,
    {
        let b = source[i];
        if b & 0xc0 == 0x80 {
        } else if b >= 0xf0 {
            n = n + 2;
        } else {
            n = n + 1;
        }
        i += 1;
    }
    n
}

fn find_line_start(source: &[u8], at: usize) -> (start: usize)
    requires
        at <= source@.len(),
    ensures
        start == line_start(source@, at as int),
        start <= at,
{
    let mut i: usize = at;
    while i > 0
        invariant
            i <= at <= source@.len(),
            line_start(source@, at as int) == line_start(source@, i as int),
        decreases i,
    {
        if source[i - 1] == 0x0a {
            return i;
        }
        i -= 1;
    }
    0
}

impl ShaderModuleCompilationMessage {
    /// Takes up an error of the shader compiler. If the error points to a
    /// part of the source text, the message gives the line, the position in
    /// the line (counted from one), and the offset and length of the part,
    /// all but the line in UTF-16 code units; else all four are zero.
    pub fn set_error(&mut self, location: Option<SourceLocation>, message: String, source: &[u8])
        requires
            source@.len() <= 0x7fff_ffff_ffff_ffff,
            location matches Some(l) ==> l.offset + l.length <= source@.len(),
        ensures
            final(self).message == message,
            match location {
                None => {
                    &&& final(self).line_number == 0
                    &&& final(self).line_pos == 0
                    &&& final(self).utf16_offset == 0
                    &&& final(self).utf16_length == 0
                },
                Some(l) => {
                    &&& final(self).line_number == l.line_number
                    &&& final(self).utf16_offset == utf16_units(source@, 0, l.offset as int)
                    &&& final(self).utf16_length == utf16_units(
                        source@,
                        l.offset as int,
                        l.offset + l.length,
                    )
                    &&& final(self).line_pos == utf16_units(
                        source@,
                        line_start(source@, l.offset as int),
                        l.offset as int,
                    ) + 1
                },
            },
    {
        match location {
            Some(l) => {
                let n = source.len();
                let start = l.offset as usize;
                let end = start + l.length as usize;
                self.utf16_offset = len_utf16(source, 0, start);
                self.utf16_length = len_utf16(source, start, end);
                self.line_number = l.line_number as u64;
                let first = find_line_start(source, start);
                self.line_pos = len_utf16(source, first, start) + 1;
            },
            None => {
                self.line_number = 0;
                self.line_pos = 0;
                self.utf16_offset = 0;
                self.utf16_length = 0;
            },
        }
        self.message = message;
    }
}

/// Carries out an action of a client on a device from its bytes: the
/// action that the bytes lay out is carried out as it would be by itself.
/// Bytes that are no action, or an action and more, are reported as an
/// internal error, and nothing is done.
pub fn wgpu_server_device_action(
    global: &mut Global,
    self_id: Id,
    byte_buf: &[u8],
    use_external_texture: bool,
    error_buf: &mut ErrorBuffer,
) -> (r: crate::action::ActionOutcome)
    requires
        old(global).wf(),
        old(error_buf).error is None,
    ensures
        final(global).wf(),
        final(global).devices == old(global).devices,
        final(global).buffers == old(global).buffers,
        final(global).buffer_slots == old(global).buffer_slots,
        final(global).tracker_indices == old(global).tracker_indices,
        match crate::wire::p_action(byte_buf@, 0) {
            Some((action, end)) if end == byte_buf@.len() => old(global).acted(
                final(global),
                self_id,
                action,
                use_external_texture,
                r,
                final(error_buf).error,
            ),
            _ => {
                &&& *final(global) == *old(global)
                &&& r == crate::action::ActionOutcome::Done
                &&& final(error_buf).error is Some
                &&& final(error_buf).error->0.kind == ErrorBufferType::Internal
                &&& final(error_buf).error->0.message@ == "Malformed action"@
            },
        },
{
    match crate::wire::read_action(byte_buf, 0) {
        Some((action, end)) => {
            if end == byte_buf.len() {
                return global.device_action(self_id, action, use_external_texture, error_buf);
            }
        },
        None => {},
    }
    error_buf.init(
        ErrMsg { message: "Malformed action".to_owned(), kind: ErrorBufferType::Internal },
    );
    crate::action::ActionOutcome::Done
}

/// Carries out a batch of actions of a client on a device from its bytes:
/// the actions that the bytes lay out are carried out one after the other,
/// and the first error among theirs is reported. Bytes that are no batch
/// of actions, or a batch and more, are reported as an internal error, and
/// nothing is done.
pub fn wgpu_server_device_actions(
    global: &mut Global,
    self_id: Id,
    byte_buf: &[u8],
    use_external_texture: bool,
    error_buf: &mut ErrorBuffer,
) -> (outcomes: Vec<crate::action::ActionOutcome>)
    requires
        old(global).wf(),
        old(error_buf).error is None,
    ensures
        final(global).wf(),
        final(global).devices == old(global).devices,
        final(global).buffers == old(global).buffers,
        final(global).buffer_slots == old(global).buffer_slots,
        final(global).tracker_indices == old(global).tracker_indices,
        final(global).submission_index == old(global).submission_index,
        match crate::wire::p_batch(byte_buf@) {
            Some(actions) => old(global).batch_acted(
                final(global),
                self_id,
                actions,
                use_external_texture,
                outcomes@,
                final(error_buf).error,
            ),
            None => {
                &&& *final(global) == *old(global)
                &&& outcomes@.len() == 0
                &&& final(error_buf).error is Some
                &&& final(error_buf).error->0.kind == ErrorBufferType::Internal
                &&& final(error_buf).error->0.message@ == "Malformed batch"@
            },
        },
{
    match crate::wire::decode_batch(byte_buf) {
        Ok(actions) => global.device_actions(self_id, &actions, use_external_texture, error_buf),
        Err(_) => {
            error_buf.init(
                ErrMsg { message: "Malformed batch".to_owned(), kind: ErrorBufferType::Internal },
            );
            Vec::new()
        },
    }
}

/// The counter that numbers the recordings of devices, one for each device
/// that is opened while recording is on. The runtime owns it, so that two
/// runtimes in one process count apart.
pub struct TraceCounter {
    pub next: u32,
}

impl TraceCounter {
    /// A counter that starts at zero.
    pub fn new() -> (c: Self)
        ensures
            c.next == 0,
    {
        TraceCounter { next: 0 }
    }

    /// Hands out the next number. After the last number there is, the
    /// counter starts over.
    pub fn take(&mut self) -> (index: u32)
        ensures
            index == old(self).next,
            final(self).next == if old(self).next == u32::MAX {
                0
            } else {
                (old(self).next + 1) as u32
            },
    {
        let index = self.next;
        self.next = if index == u32::MAX {
            0
        } else {
            index + 1
        };
        index
    }
}

/// What the host has done about the native device before a device is
/// opened on an adapter.
#[derive(Clone, Copy, Debug, PartialEq, Eq, Structural)]
pub enum NativeDevice {
    /// The adapter cannot share memory with other processes: the device is
    /// opened in the ordinary way.
    Ordinary,
    /// The host has created a native device that can share memory.
    Shared,
    /// The host has tried to create such a device and failed.
    Failed,
}

/// The kind that an error of opening a device is reported as.
pub open spec fn request_device_error_kind(e: RequestDeviceError) -> ErrorBufferType {
    match e {
        RequestDeviceError::Identity => ErrorBufferType::Internal,
        RequestDeviceError::NativeDevice => ErrorBufferType::Internal,
        _ => ErrorBufferType::Validation,
    }
}

/// The message that an error of opening a device is reported with.
pub open spec fn request_device_error_text(e: RequestDeviceError) -> Seq<char> {
    match e {
        RequestDeviceError::Identity => "The identifier is in use"@,
        RequestDeviceError::NativeDevice => "Failed to create ash::Device"@,
        RequestDeviceError::UnsupportedFeature(_) => "Unsupported features were requested"@,
        RequestDeviceError::LimitsExceeded => "Some of the requested device limits are not supported"@,
        RequestDeviceError::Unsupported => "The device cannot be worked with"@,
    }
}

/// The text of a digit.
pub open spec fn digit_text(d: nat) -> Seq<char> {
    if d == 0 {
        "0"@
    } else if d == 1 {
        "1"@
    } else if d == 2 {
        "2"@
    } else if d == 3 {
        "3"@
    } else if d == 4 {
        "4"@
    } else if d == 5 {
        "5"@
    } else if d == 6 {
        "6"@
    } else if d == 7 {
        "7"@
    } else if d == 8 {
        "8"@
    } else {
        "9"@
    }
}

/// The text of a number in decimal, without leading zeros.
pub open spec fn decimal(n: nat) -> Seq<char>
    decreases n,
{
    if n < 10 {
        digit_text(n)
    } else {
        decimal(n / 10) + digit_text(n % 10)
    }
}

fn digit_name(d: u32) -> (t: &'static str)
    requires
        d < 10,
    ensures
        t@ == digit_text(d as nat),
{
    if d == 0 {
        "0"
    } else if d == 1 {
        "1"
    } else if d == 2 {
        "2"
    } else if d == 3 {
        "3"
    } else if d == 4 {
        "4"
    } else if d == 5 {
        "5"
    } else if d == 6 {
        "6"
    } else if d == 7 {
        "7"
    } else if d == 8 {
        "8"
    } else {
        "9"
    }
}

/// Writes a number in decimal.
pub fn decimal_string(n: u32) -> (s: String)
    ensures
        s@ == decimal(n as nat),
    decreases n,
{
    if n < 10 {
        String::from_str(digit_name(n))
    } else {
        decimal_string(n / 10).concat(digit_name(n % 10))
    }
}

/// The directory that the recording with a number goes to, below the
/// directory that recordings are asked to go to.
pub open spec fn trace_path(env: Seq<char>, index: u32) -> Seq<char> {
    env + "/"@ + decimal(index as nat)
}

/// Names the directory that the recording with a number goes to.
pub fn trace_directory(env: &str, index: u32) -> (path: String)
    ensures
        path@ == trace_path(env@, index),
{
    let number = decimal_string(index);
    String::from_str(env).concat("/").concat(number.as_str())
}

/// The directory that a device is recorded to: none, unless recordings
/// are asked for and the directory for this one could be made.
pub open spec fn trace_chosen(env: Option<Seq<char>>, index: u32, created: bool) -> Option<
    Seq<char>,
> {
    if env is Some && created {
        Some(trace_path(env->0, index))
    } else {
        None
    }
}

/// The characters of a text that may be missing.
pub open spec fn text_view(text: Option<String>) -> Option<Seq<char>> {
    match text {
        Some(t) => Some(t@),
        None => None,
    }
}

/// Chooses the directory that a device is recorded to. `env` is the
/// directory that recordings are asked to go to, if they are asked for;
/// `index` is the number of this recording, and `created` says whether the
/// host could make the directory for it.
pub fn trace_choice(env: Option<String>, index: u32, created: bool) -> (r: Option<String>)
    ensures
        text_view(r) == trace_chosen(text_view(env), index, created),
{
    match env {
        Some(dir) => {
            if created {
                Some(trace_directory(dir.as_str(), index))
            } else {
                None
            }
        },
        None => None,
    }
}

/// What the opening of a device for a client leaves behind, given the
/// tables before and after and the error reported. Where the host has
/// failed to create the native device that it wanted, nothing is opened
/// and an internal error is reported. Otherwise the device is opened as
/// the runtime opens devices: on success the device and its queue are
/// registered at the two identifiers that the client chose and nothing is
/// reported; what fails is reported, and nothing changes.
pub open spec fn device_requested(
    pre: &Global,
    post: &Global,
    adapter: Adapter,
    desc: DeviceDescriptor,
    new_device_id: Id,
    new_queue_id: Id,
    native: NativeDevice,
    reported: Option<ErrMsg>,
) -> bool {
    match request_failure(pre, adapter, desc, new_device_id, new_queue_id, native) {
        Some(e) => {
            &&& *post == *pre
            &&& reported is Some
            &&& reported->0.kind == request_device_error_kind(e)
            &&& reported->0.message@ == request_device_error_text(e)
        },
        None => {
            &&& reported is None
            &&& post.devices.evolves_but(&pre.devices, new_device_id)
            &&& post.devices.status(new_device_id) == Status::Valid(opened_device(desc))
            &&& post.queues.evolves_but(&pre.queues, new_queue_id)
            &&& post.queues.status(new_queue_id) == Status::Valid(
                Queue { id: new_queue_id, device: new_device_id },
            )
        },
    }
}

/// What keeps a device from being opened for a client, in the order the
/// rules are tried.
pub open spec fn request_failure(
    pre: &Global,
    adapter: Adapter,
    desc: DeviceDescriptor,
    new_device_id: Id,
    new_queue_id: Id,
    native: NativeDevice,
) -> Option<RequestDeviceError> {
    if native == NativeDevice::Failed {
        Some(RequestDeviceError::NativeDevice)
    } else if open_check(adapter, desc) is Some {
        open_check(adapter, desc)
    } else if !pre.devices.accepts(new_device_id) || !pre.queues.accepts(new_queue_id) {
        Some(RequestDeviceError::Identity)
    } else {
        None
    }
}

/// Opens a device for a client on an adapter, at the identifiers the
/// client chose for the device and its queue, from the bytes of its
/// description. Gives the directory that the device is recorded to, which
/// is none unless recordings are asked for, the directory for this one
/// could be made, and the device was opened. Bytes that are no
/// description, or a description and more, are reported as an internal
/// error, and nothing is opened.
pub fn wgpu_server_adapter_request_device(
    global: &mut Global,
    adapter: &Adapter,
    byte_buf: &[u8],
    new_device_id: Id,
    new_queue_id: Id,
    native: NativeDevice,
    env: Option<String>,
    index: u32,
    created: bool,
    error_buf: &mut ErrorBuffer,
) -> (trace: Option<String>)
    requires
        old(global).wf(),
        old(error_buf).error is None,
    ensures
        final(global).wf(),
        final(global).same_but_devices_and_queues(old(global)),
        match crate::wire_adapter::p_device_descriptor(byte_buf@, 0) {
            Some((desc, end)) if end == byte_buf@.len() => device_requested(
                old(global),
                final(global),
                *adapter,
                desc,
                new_device_id,
                new_queue_id,
                native,
                final(error_buf).error,
            ),
            _ => {
                &&& *final(global) == *old(global)
                &&& final(error_buf).error is Some
                &&& final(error_buf).error->0.kind == ErrorBufferType::Internal
                &&& final(error_buf).error->0.message@ == "Malformed description"@
            },
        },
        text_view(trace) == if final(error_buf).error is None {
            trace_chosen(text_view(env), index, created)
        } else {
            None
        },
{
    match crate::wire_adapter::read_device_descriptor(byte_buf, 0) {
        Some((desc, end)) => {
            if end == byte_buf.len() {
                open_device(
                    global,
                    adapter,
                    &desc,
                    new_device_id,
                    new_queue_id,
                    native,
                    error_buf,
                );
                if error_buf.is_set() {
                    return None;
                }
                return trace_choice(env, index, created);
            }
        },
        None => {},
    }
    error_buf.init(
        ErrMsg { message: "Malformed description".to_owned(), kind: ErrorBufferType::Internal },
    );
    None
}

fn open_device(
    global: &mut Global,
    adapter: &Adapter,
    desc: &DeviceDescriptor,
    new_device_id: Id,
    new_queue_id: Id,
    native: NativeDevice,
    error_buf: &mut ErrorBuffer,
)
    requires
        old(global).wf(),
        old(error_buf).error is None,
    ensures
        final(global).wf(),
        final(global).same_but_devices_and_queues(old(global)),
        device_requested(
            old(global),
            final(global),
            *adapter,
            *desc,
            new_device_id,
            new_queue_id,
            native,
            final(error_buf).error,
        ),
{
    let result = if let NativeDevice::Failed = native {
        Err(RequestDeviceError::NativeDevice)
    } else {
        global.adapter_request_device(adapter, desc, Some(new_device_id), Some(new_queue_id))
    };
    match result {
        Ok(_) => {},
        Err(e) => {
            let (message, kind) = match e {
                RequestDeviceError::Identity => (
                    "The identifier is in use".to_owned(),
                    ErrorBufferType::Internal,
                ),
                RequestDeviceError::NativeDevice => (
                    "Failed to create ash::Device".to_owned(),
                    ErrorBufferType::Internal,
                ),
                RequestDeviceError::UnsupportedFeature(_) => (
                    "Unsupported features were requested".to_owned(),
                    ErrorBufferType::Validation,
                ),
                RequestDeviceError::LimitsExceeded => (
                    "Some of the requested device limits are not supported".to_owned(),
                    ErrorBufferType::Validation,
                ),
                RequestDeviceError::Unsupported => (
                    "The device cannot be worked with".to_owned(),
                    ErrorBufferType::Validation,
                ),
            };
            error_buf.init(ErrMsg { message, kind });
        },
    }
}

/// What the host knows of an adapter.
pub struct AdapterDetails {
    pub id: Id,
    pub info: AdapterInfo,
    pub limits: Limits,
    pub features: u64,
    pub name: String,
    pub vendor: u32,
    pub device: u32,
    pub driver: String,
    pub driver_info: String,
    /// Whether the adapter has every extension that sharing memory needs.
    pub has_required_extensions: bool,
    /// The version of the operating system.
    pub version: NSOperatingSystemVersion,
}

/// What a client is told of an adapter on a platform: what the host knows
/// of it, with the limits as they are shown to clients, and whether the
/// textures of a swap chain can share memory with it.
pub open spec fn told_of(a: AdapterDetails, platform: Platform) -> AdapterInformationView {
    AdapterInformationView {
        id: a.id,
        limits: restricted(a.limits),
        features: a.features,
        name: a.name@,
        vendor: a.vendor,
        device: a.device,
        device_type: a.info.device_type,
        driver: a.driver@,
        driver_info: a.driver_info@,
        backend: a.info.backend,
        support_use_external_texture_in_swap_chain: external_texture_supported(
            platform,
            a.info.backend,
            a.info.device_type == DeviceType::IntegratedGpu || a.info.device_type
                == DeviceType::DiscreteGpu,
            a.has_required_extensions,
            a.version,
        ),
    }
}

/// Lays out in bytes what a client is told of an adapter; where there is
/// no adapter, the bytes are those of a zero.
pub fn wgpu_server_adapter_pack_info(adapter: Option<&AdapterDetails>, platform: Platform) -> (bytes:
    Vec<u8>)
    ensures
        bytes@ == match adapter {
            Some(a) => ser_adapter_information(told_of(*a, platform)),
            None => crate::wire::ser_u64(0),
        },
{
    let mut data: Vec<u8> = Vec::new();
    match adapter {
        Some(a) => {
            let hardware = is_hardware(a.info.device_type);
            let info = AdapterInformation {
                id: a.id,
                limits: restrict_limits(a.limits),
                features: a.features,
                name: a.name.clone(),
                vendor: a.vendor,
                device: a.device,
                device_type: a.info.device_type,
                driver: a.driver.clone(),
                driver_info: a.driver_info.clone(),
                backend: a.info.backend,
                support_use_external_texture_in_swap_chain: support_use_external_texture_in_swap_chain(
                    platform,
                    a.info.backend,
                    hardware,
                    a.has_required_extensions,
                    &a.version,
                ),
            };
            write_adapter_information(&mut data, &info);
            assert(info@ == told_of(*a, platform));
            assert(data@ =~= ser_adapter_information(told_of(*a, platform)));
        },
        None => {
            crate::wire::write_u64(&mut data, 0);
            assert(data@ =~= crate::wire::ser_u64(0));
        },
    }
    data
}

/// Creates a command encoder for a client, at the identifier the client
/// chose, and reports what fails.
pub fn wgpu_server_device_create_encoder(
    global: &mut Global,
    self_id: Id,
    new_id: Id,
    error_buf: &mut ErrorBuffer,
)
    requires
        old(global).wf(),
        old(error_buf).error is None,
    ensures
        final(global).wf(),
        old(global).acted(
            final(global),
            self_id,
            crate::wire::ActionView::CreateCommandEncoder(new_id),
            false,
            crate::action::ActionOutcome::Done,
            final(error_buf).error,
        ),
{
    let (_, error) = global.device_create_command_encoder(self_id, Some(new_id));
    crate::action::report_create_error(error, error_buf);
}

/// Finishes a command encoder for a client, and reports what fails.
pub fn wgpu_server_encoder_finish(global: &mut Global, self_id: Id, error_buf: &mut ErrorBuffer)
    requires
        old(global).wf(),
        old(error_buf).error is None,
    ensures
        final(global).wf(),
        final(global).same_but_command_encoders(old(global)),
        crate::action::reports_command(
            Operation::FinishEncoder,
            old(global).encoder_check(self_id),
            final(error_buf).error,
        ),
        old(global).encoder_became(
            final(global),
            self_id,
            if old(global).encoder_check(self_id) is Some {
                None
            } else {
                let e = old(global).command_encoders.resource(self_id)@;
                Some(
                    EncoderView {
                        status: CommandEncoderStatus::Finished,
                        list: closed_list(e),
                        current: None,
                        ..e
                    },
                )
            },
        ),
{
    match global.command_encoder_finish(self_id) {
        Ok(()) => {},
        Err(e) => {
            crate::action::report_command_error(Operation::FinishEncoder, &e, error_buf);
        },
    }
}

/// The kind that an error of a submission is reported as.
pub open spec fn submit_error_kind(e: QueueSubmitError) -> ErrorBufferType {
    match e {
        QueueSubmitError::Device(DeviceError::OutOfMemory) => ErrorBufferType::OutOfMemory,
        QueueSubmitError::Device(DeviceError::Lost) => ErrorBufferType::DeviceLost,
        QueueSubmitError::Exhausted => ErrorBufferType::Internal,
        _ => ErrorBufferType::Validation,
    }
}

/// Submits finished command encoders to a queue for a client. Gives the
/// index of the submission with the native command buffers for the host to
/// run; where the submission fails, the error is reported, nothing changes,
/// and the index is zero.
pub fn wgpu_server_queue_submit(
    global: &mut Global,
    self_id: Id,
    command_buffer_ids: &[Id],
    error_buf: &mut ErrorBuffer,
) -> (r: (u64, Vec<BasePass<NativeCommand>>))
    requires
        old(global).wf(),
        old(error_buf).error is None,
    ensures
        final(global).wf(),
        final(global).same_but_command_encoders_and_index(old(global)),
        match old(global).queue_submit_check(self_id, command_buffer_ids@) {
            Some(e) => {
                &&& *final(global) == *old(global)
                &&& r.0 == 0
                &&& r.1@.len() == 0
                &&& final(error_buf).error is Some
                &&& final(error_buf).error->0.kind == submit_error_kind(e)
                &&& final(error_buf).error->0.message@ == submit_error_text(e)
            },
            None => {
                &&& final(error_buf).error is None
                &&& old(global).submitted_to(final(global), command_buffer_ids@, r.0, r.1@)
            },
        },
{
    match global.queue_submit(self_id, command_buffer_ids) {
        Ok(pair) => pair,
        Err(e) => {
            let kind = match e {
                QueueSubmitError::Device(DeviceError::OutOfMemory) => ErrorBufferType::OutOfMemory,
                QueueSubmitError::Device(DeviceError::Lost) => ErrorBufferType::DeviceLost,
                QueueSubmitError::Exhausted => ErrorBufferType::Internal,
                _ => ErrorBufferType::Validation,
            };
            error_buf.init(ErrMsg { message: submit_error_message(e), kind });
            (0, Vec::new())
        },
    }
}

/// Finds an adapter for a client among those that the instance lists: the
/// best one on a first-tier backend that the instance looks at. Gives its
/// place in the list; where there is none, that is reported.
pub fn wgpu_server_instance_request_adapter(
    adapters: &Vec<AdapterInfo>,
    desc: &RequestAdapterOptions,
    instance_backends: u32,
    error_buf: &mut ErrorBuffer,
) -> (r: Option<usize>)
    requires
        old(error_buf).error is None,
    ensures
        match r {
            Some(i) => {
                &&& is_best(adapters@, *desc, instance_backends & BACKENDS_PRIMARY, i as int)
                &&& final(error_buf).error is None
            },
            None => {
                &&& none_eligible(adapters@, *desc, instance_backends & BACKENDS_PRIMARY)
                &&& final(error_buf).error is Some
                &&& final(error_buf).error->0.kind == ErrorBufferType::Validation
                &&& final(error_buf).error->0.message@ == "No suitable adapter found"@
            },
        },
{
    match request_adapter(adapters, desc, instance_backends & BACKENDS_PRIMARY) {
        Ok(i) => Some(i),
        Err(_) => {
            error_buf.init(
                ErrMsg {
                    message: "No suitable adapter found".to_owned(),
                    kind: ErrorBufferType::Validation,
                },
            );
            None
        },
    }
}

/// The first queue family that can do everything that is wanted of it.
pub open spec fn first_family(flags: Seq<u32>, wanted: u32, from: int) -> Option<int>
    decreases flags.len() - from,
{
    if from < 0 || from >= flags.len() {
        None
    } else if flags[from] & wanted == wanted {
        Some(from)
    } else {
        first_family(flags, wanted, from + 1)
    }
}

/// Chooses the queue family for a device: the first one among the
/// families of the physical device whose flags hold all that are wanted.
pub fn select_queue_family(flags: &Vec<u32>, wanted: u32) -> (r: Option<u32>)
    requires
        flags@.len() <= u32::MAX,
    ensures
        match r {
            Some(i) => first_family(flags@, wanted, 0) == Some(i as int),
            None => first_family(flags@, wanted, 0) is None,
        },
{
    let mut i: usize = 0;
    while i < flags.len()
        invariant
            i <= flags@.len() <= u32::MAX,
            first_family(flags@, wanted, 0) == first_family(flags@, wanted, i as int),
        decreases flags@.len() - i,
    {
        if flags[i] & wanted == wanted {
            return Some(i as u32);
        }
        i += 1;
    }
    None
}

/// Finds the layout that an image was given among those that the format
/// supports: the place of the first modifier that is the one wanted.
pub fn find_modifier(modifiers: &Vec<u64>, wanted: u64) -> (r: Option<usize>)
    ensures
        match r {
            Some(i) => {
                &&& i < modifiers@.len()
                &&& modifiers@[i as int] == wanted
                &&& forall|j: int| 0 <= j < i ==> modifiers@[j] != wanted
            },
            None => forall|j: int| 0 <= j < modifiers@.len() ==> modifiers@[j] != wanted,
        },
{
    let mut i: usize = 0;
    while i < modifiers.len()
        invariant
            i <= modifiers@.len(),
            forall|j: int| 0 <= j < i ==> modifiers@[j] != wanted,
        decreases modifiers@.len() - i,
    {
        if modifiers[i] == wanted {
            return Some(i);
        }
        i += 1;
    }
    None
}

/// Carries out an action of a client on a command encoder from its bytes:
/// the action that the bytes lay out is carried out as it would be by
/// itself. Bytes that are no action, or an action and more, are reported
/// as an internal error, and nothing is done.
pub fn wgpu_server_command_encoder_action(
    global: &mut Global,
    self_id: Id,
    byte_buf: &[u8],
    error_buf: &mut ErrorBuffer,
)
    requires
        old(global).wf(),
        old(error_buf).error is None,
    ensures
        final(global).wf(),
        final(global).same_but_command_encoders(old(global)),
        match crate::wire_pass::p_encoder_action(byte_buf@, 0) {
            Some((action, end)) if end == byte_buf@.len() => old(global).encoder_acted(
                final(global),
                self_id,
                action,
                final(error_buf).error,
            ),
            _ => {
                &&& *final(global) == *old(global)
                &&& final(error_buf).error is Some
                &&& final(error_buf).error->0.kind == ErrorBufferType::Internal
                &&& final(error_buf).error->0.message@ == "Malformed action"@
            },
        },
{
    match crate::wire_pass::read_encoder_action(byte_buf, 0) {
        Some((action, end)) => {
            if end == byte_buf.len() {
                global.command_encoder_action(self_id, action, error_buf);
                return ;
            }
        },
        None => {},
    }
    error_buf.init(
        ErrMsg { message: "Malformed action".to_owned(), kind: ErrorBufferType::Internal },
    );
}

/// Replays a compute pass that a client has recorded on its side, from
/// the bytes of its transcript: the commands are recorded on a new pass of
/// the encoder through the recording calls, and the pass is ended. Bytes
/// that are no transcript, or a transcript and more, are reported as an
/// internal error, and nothing is done.
pub fn wgpu_server_compute_pass(
    global: &mut Global,
    encoder_id: Id,
    byte_buf: &[u8],
    error_buf: &mut ErrorBuffer,
)
    requires
        old(global).wf(),
        old(error_buf).error is None,
    ensures
        final(global).wf(),
        final(global).same_but_command_encoders(old(global)),
        match crate::wire_pass::p_pass(byte_buf@, 0) {
            Some((base, end)) if end == byte_buf@.len() => old(global).delivered_pass_acted(
                final(global),
                encoder_id,
                base,
                final(error_buf).error,
            ),
            _ => {
                &&& *final(global) == *old(global)
                &&& final(error_buf).error is Some
                &&& final(error_buf).error->0.kind == ErrorBufferType::Internal
                &&& final(error_buf).error->0.message@ == "Malformed pass"@
            },
        },
{
    match crate::wire_pass::read_pass(byte_buf, 0) {
        Some((base, end)) => {
            if end == byte_buf.len() {
                global.replay_delivered_pass(encoder_id, &base, error_buf);
                return ;
            }
        },
        None => {},
    }
    error_buf.init(ErrMsg { message: "Malformed pass".to_owned(), kind: ErrorBufferType::Internal });
}

} // verus!
