//! Creation of the resources that hang on a device: layouts, bind groups,
//! pipelines, textures and command encoders.

use vstd::prelude::*;
use crate::command::{DeviceError, MissingBufferUsageError};
use crate::encoder::{CommandEncoder, CommandEncoderStatus};
use crate::global::{BindGroup, Global};
use crate::id::Id;
use crate::registry::{InvalidResourceError, Status};
use crate::resource::{
    BindGroupInfo, BindGroupLayout, BindingKind, Buffer, BufferBinding, ComputePipeline, Device,
    PipelineLayout, Texture, TextureDescriptor, BUFFER_USAGE_STORAGE, BUFFER_USAGE_UNIFORM,
    MAX_BIND_GROUPS,
};
use crate::track::UsedBuffer;
use crate::usage::{STORAGE_READ_ONLY, STORAGE_READ_WRITE, UNIFORM};

verus! {

/// Why a resource that hangs on a device could not be created.
#[allow(inconsistent_fields)]
#[derive(Clone, Copy, Debug, PartialEq, Eq, Structural)]
pub enum CreateError {
    /// The identifier asked for cannot be used.
    Identity,
    InvalidDevice(InvalidResourceError),
    Device(DeviceError),
    /// A resource that the description names does not exist.
    InvalidResource(InvalidResourceError),
    /// The native buffer of a buffer that the description names is gone.
    DestroyedResource(Id),
    MissingBufferUsage(MissingBufferUsageError),
    /// A pipeline layout with more bind group layouts than the device, or
    /// the runtime, can bind.
    TooManyGroups { actual: usize, max: usize },
    /// Push constants beyond what the device offers.
    PushConstantRangeTooLarge { size: u32, max: u32 },
    /// A push constant size that is no multiple of four.
    MisalignedPushConstantRange { size: u32 },
    /// A texture with an extent of zero.
    ZeroSize,
    /// A texture extent beyond what the device offers.
    InvalidDimension { size: u32, max: u32 },
}

/// What a pipeline layout is created from.
pub struct PipelineLayoutDescriptor {
    pub bind_group_layouts: Vec<Id>,
    pub push_constant_size: u32,
}

/// What a bind group is created from.
pub struct BindGroupDescriptor {
    pub layout: Id,
    pub entries: Vec<BufferBinding>,
}

/// The creation usage that a binding of the kind needs.
pub open spec fn binding_usage(kind: BindingKind) -> u32 {
    match kind {
        BindingKind::Uniform => BUFFER_USAGE_UNIFORM,
        BindingKind::StorageReadOnly => BUFFER_USAGE_STORAGE,
        BindingKind::StorageReadWrite => BUFFER_USAGE_STORAGE,
    }
}

/// The state that a binding of the kind needs its buffer in.
pub open spec fn binding_state(kind: BindingKind) -> u16 {
    match kind {
        BindingKind::Uniform => UNIFORM,
        BindingKind::StorageReadOnly => STORAGE_READ_ONLY,
        BindingKind::StorageReadWrite => STORAGE_READ_WRITE,
    }
}

/// The smaller of what the device and the runtime can bind at once.
pub open spec fn group_limit(device: Device) -> usize {
    if device.limits.max_bind_groups as int >= MAX_BIND_GROUPS as int {
        MAX_BIND_GROUPS
    } else {
        device.limits.max_bind_groups as usize
    }
}

impl Global {
    /// The device rule that every creation starts with.
    pub open spec fn device_check(&self, device_id: Id) -> Option<CreateError> {
        if !self.devices.is_valid(device_id) {
            Some(CreateError::InvalidDevice(InvalidResourceError { id: device_id }))
        } else if !self.devices.resource(device_id).valid {
            Some(CreateError::Device(DeviceError::Lost))
        } else {
            None
        }
    }

    /// Decides `device_check`, and hands out the device.
    pub fn check_device(&self, device_id: Id) -> (r: Result<Device, CreateError>)
        requires
            self.wf(),
        ensures
            match r {
                Ok(d) => self.device_check(device_id) is None && d == self.devices.resource(
                    device_id,
                ),
                Err(e) => self.device_check(device_id) == Some(e),
            },
    {
        match self.devices.get(device_id) {
            Err(e) => Err(CreateError::InvalidDevice(e)),
            Ok(device) => {
                if device.valid {
                    Ok(*device)
                } else {
                    Err(CreateError::Device(DeviceError::Lost))
                }
            },
        }
    }

    /// Whether everything but the bind group layouts is as in `other`.
    pub open spec fn same_but_bind_group_layouts(&self, other: &Self) -> bool {
        &&& self.devices == other.devices
        &&& self.buffers == other.buffers
        &&& self.textures == other.textures
        &&& self.pipeline_layouts == other.pipeline_layouts
        &&& self.bind_groups == other.bind_groups
        &&& self.compute_pipelines == other.compute_pipelines
        &&& self.command_encoders == other.command_encoders
        &&& self.tracker_indices == other.tracker_indices
        &&& self.buffer_slots == other.buffer_slots
        &&& self.submission_index == other.submission_index
        &&& self.queues == other.queues
    }

    /// Whether everything but the pipeline layouts is as in `other`.
    pub open spec fn same_but_pipeline_layouts(&self, other: &Self) -> bool {
        &&& self.devices == other.devices
        &&& self.buffers == other.buffers
        &&& self.textures == other.textures
        &&& self.bind_group_layouts == other.bind_group_layouts
        &&& self.bind_groups == other.bind_groups
        &&& self.compute_pipelines == other.compute_pipelines
        &&& self.command_encoders == other.command_encoders
        &&& self.tracker_indices == other.tracker_indices
        &&& self.buffer_slots == other.buffer_slots
        &&& self.submission_index == other.submission_index
        &&& self.queues == other.queues
    }

    /// Whether everything but the bind groups is as in `other`.
    pub open spec fn same_but_bind_groups(&self, other: &Self) -> bool {
        &&& self.devices == other.devices
        &&& self.buffers == other.buffers
        &&& self.textures == other.textures
        &&& self.bind_group_layouts == other.bind_group_layouts
        &&& self.pipeline_layouts == other.pipeline_layouts
        &&& self.compute_pipelines == other.compute_pipelines
        &&& self.command_encoders == other.command_encoders
        &&& self.tracker_indices == other.tracker_indices
        &&& self.buffer_slots == other.buffer_slots
        &&& self.submission_index == other.submission_index
        &&& self.queues == other.queues
    }

    /// Whether everything but the compute pipelines is as in `other`.
    pub open spec fn same_but_compute_pipelines(&self, other: &Self) -> bool {
        &&& self.devices == other.devices
        &&& self.buffers == other.buffers
        &&& self.textures == other.textures
        &&& self.bind_group_layouts == other.bind_group_layouts
        &&& self.pipeline_layouts == other.pipeline_layouts
        &&& self.bind_groups == other.bind_groups
        &&& self.command_encoders == other.command_encoders
        &&& self.tracker_indices == other.tracker_indices
        &&& self.buffer_slots == other.buffer_slots
        &&& self.submission_index == other.submission_index
        &&& self.queues == other.queues
    }

    /// Whether everything but the command encoders is as in `other`.
    pub open spec fn same_but_command_encoders(&self, other: &Self) -> bool {
        &&& self.devices == other.devices
        &&& self.buffers == other.buffers
        &&& self.textures == other.textures
        &&& self.bind_group_layouts == other.bind_group_layouts
        &&& self.pipeline_layouts == other.pipeline_layouts
        &&& self.bind_groups == other.bind_groups
        &&& self.compute_pipelines == other.compute_pipelines
        &&& self.tracker_indices == other.tracker_indices
        &&& self.buffer_slots == other.buffer_slots
        &&& self.submission_index == other.submission_index
        &&& self.queues == other.queues
    }

    /// Whether everything but the textures is as in `other`.
    pub open spec fn same_but_textures(&self, other: &Self) -> bool {
        &&& self.devices == other.devices
        &&& self.buffers == other.buffers
        &&& self.bind_group_layouts == other.bind_group_layouts
        &&& self.pipeline_layouts == other.pipeline_layouts
        &&& self.bind_groups == other.bind_groups
        &&& self.compute_pipelines == other.compute_pipelines
        &&& self.command_encoders == other.command_encoders
        &&& self.tracker_indices == other.tracker_indices
        &&& self.buffer_slots == other.buffer_slots
        &&& self.submission_index == other.submission_index
        &&& self.queues == other.queues
    }

    /// Creates a bind group layout whose groups take `dynamic_count`
    /// dynamic offsets.
    ///
    /// When no identifier can be had, nothing changes. Otherwise the
    /// identifier is registered: with the layout if the device is fine,
    /// else with a placeholder, and the error is returned.
    pub fn device_create_bind_group_layout(
        &mut self,
        device_id: Id,
        dynamic_count: u32,
        id_in: Option<Id>,
    ) -> (r: (Option<Id>, Option<CreateError>))
        requires
            old(self).wf(),
        ensures
            final(self).wf(),
            final(self).same_but_bind_group_layouts(old(self)),
            r.0 is Some <==> match id_in {
                Some(id) => old(self).bind_group_layouts.accepts(id),
                None => old(self).bind_group_layouts.has_room(),
            },
            match r.0 {
                None => r.1 == Some(CreateError::Identity) && final(self).bind_group_layouts == old(
                    self,
                ).bind_group_layouts,
                Some(id) => {
                    &&& id_in matches Some(i) ==> id == i
                    &&& old(self).bind_group_layouts.status(id) is Unused
                    &&& final(self).bind_group_layouts.evolves_but(
                        &old(self).bind_group_layouts,
                        id,
                    )
                    &&& r.1 == old(self).device_check(device_id)
                    &&& final(self).bind_group_layouts.status(id) == if r.1 is Some {
                        Status::<BindGroupLayout>::Invalid
                    } else {
                        Status::Valid(BindGroupLayout { id, device: device_id, dynamic_count })
                    }
                },
            },
    {
        let fid = match self.bind_group_layouts.prepare(id_in) {
            Ok(fid) => fid,
            Err(_) => {
                return (None, Some(CreateError::Identity));
            },
        };
        let id = fid.id();
        match self.check_device(device_id) {
            Err(e) => {
                self.bind_group_layouts.assign_error(fid);
                (Some(id), Some(e))
            },
            Ok(_) => {
                self.bind_group_layouts.assign(
                    fid,
                    BindGroupLayout { id, device: device_id, dynamic_count },
                );
                (Some(id), None)
            },
        }
    }

    /// The first bind group layout from `i` on that a pipeline layout
    /// cannot take: one that does not exist, or one of another device.
    pub open spec fn layouts_check(
        table: crate::registry::Registry<BindGroupLayout>,
        device_id: Id,
        layouts: Seq<Id>,
        i: int,
    ) -> Option<CreateError>
        decreases layouts.len() - i,
    {
        if i < 0 || i >= layouts.len() {
            None
        } else if !table.is_valid(layouts[i]) {
            Some(CreateError::InvalidResource(InvalidResourceError { id: layouts[i] }))
        } else if table.resource(layouts[i]).device != device_id {
            Some(CreateError::Device(DeviceError::DeviceMismatch))
        } else {
            Self::layouts_check(table, device_id, layouts, i + 1)
        }
    }

    /// The rules a pipeline layout is held to, in the order they are tried.
    pub open spec fn pipeline_layout_check(
        &self,
        device_id: Id,
        layouts: Seq<Id>,
        push_constant_size: u32,
    ) -> Option<CreateError> {
        if self.device_check(device_id) is Some {
            self.device_check(device_id)
        } else {
            let device = self.devices.resource(device_id);
            if layouts.len() > group_limit(device) {
                Some(
                    CreateError::TooManyGroups {
                        actual: layouts.len() as usize,
                        max: group_limit(device),
                    },
                )
            } else if push_constant_size > device.limits.max_push_constant_size {
                Some(
                    CreateError::PushConstantRangeTooLarge {
                        size: push_constant_size,
                        max: device.limits.max_push_constant_size,
                    },
                )
            } else if push_constant_size % 4 != 0 {
                Some(CreateError::MisalignedPushConstantRange { size: push_constant_size })
            } else {
                Self::layouts_check(self.bind_group_layouts, device_id, layouts, 0)
            }
        }
    }

    fn check_pipeline_layout(&self, device_id: Id, desc: &PipelineLayoutDescriptor) -> (r: Option<
        CreateError,
    >)
        requires
            self.wf(),
        ensures
            r == self.pipeline_layout_check(
                device_id,
                desc.bind_group_layouts@,
                desc.push_constant_size,
            ),
            r is None ==> desc.bind_group_layouts@.len() <= MAX_BIND_GROUPS,
    {
        let device = match self.check_device(device_id) {
            Ok(d) => d,
            Err(e) => {
                return Some(e);
            },
        };
        let max: usize = if device.limits.max_bind_groups >= 8 {
            8
        } else {
            device.limits.max_bind_groups as usize
        };
        if desc.bind_group_layouts.len() > max {
            return Some(CreateError::TooManyGroups { actual: desc.bind_group_layouts.len(), max });
        }
        if desc.push_constant_size > device.limits.max_push_constant_size {
            return Some(
                CreateError::PushConstantRangeTooLarge {
                    size: desc.push_constant_size,
                    max: device.limits.max_push_constant_size,
                },
            );
        }
        if desc.push_constant_size % 4 != 0 {
            return Some(CreateError::MisalignedPushConstantRange { size: desc.push_constant_size });
        }
        let mut i: usize = 0;
        while i < desc.bind_group_layouts.len()
            invariant
                self.wf(),
                i <= desc.bind_group_layouts@.len(),
                desc.bind_group_layouts@.len() <= MAX_BIND_GROUPS,
                self.pipeline_layout_check(
                    device_id,
                    desc.bind_group_layouts@,
                    desc.push_constant_size,
                ) == Self::layouts_check(
                    self.bind_group_layouts,
                    device_id,
                    desc.bind_group_layouts@,
                    i as int,
                ),
            decreases desc.bind_group_layouts@.len() - i,
        {
            let layout_id = desc.bind_group_layouts[i];
            match self.bind_group_layouts.get(layout_id) {
                Err(e) => {
                    return Some(CreateError::InvalidResource(e));
                },
                Ok(layout) => {
                    if layout.device != device_id {
                        return Some(CreateError::Device(DeviceError::DeviceMismatch));
                    }
                },
            }
            i += 1;
        }
        None
    }

    /// Creates a pipeline layout.
    ///
    /// When no identifier can be had, nothing changes. Otherwise the
    /// identifier is registered: with the layout if the description passes
    /// every rule, else with a placeholder, and the error is returned.
    pub fn device_create_pipeline_layout(
        &mut self,
        device_id: Id,
        desc: &PipelineLayoutDescriptor,
        id_in: Option<Id>,
    ) -> (r: (Option<Id>, Option<CreateError>))
        requires
            old(self).wf(),
        ensures
            final(self).wf(),
            final(self).same_but_pipeline_layouts(old(self)),
            r.0 is Some <==> match id_in {
                Some(id) => old(self).pipeline_layouts.accepts(id),
                None => old(self).pipeline_layouts.has_room(),
            },
            match r.0 {
                None => r.1 == Some(CreateError::Identity) && final(self).pipeline_layouts == old(
                    self,
                ).pipeline_layouts,
                Some(id) => {
                    &&& id_in matches Some(i) ==> id == i
                    &&& old(self).pipeline_layouts.status(id) is Unused
                    &&& final(self).pipeline_layouts.evolves_but(&old(self).pipeline_layouts, id)
                    &&& r.1 == old(self).pipeline_layout_check(
                        device_id,
                        desc.bind_group_layouts@,
                        desc.push_constant_size,
                    )
                    &&& match r.1 {
                        Some(_) => final(self).pipeline_layouts.status(id) is Invalid,
                        None => {
                            let layout = final(self).pipeline_layouts.resource(id);
                            &&& final(self).pipeline_layouts.is_valid(id)
                            &&& layout.id == id
                            &&& layout.device == device_id
                            &&& layout.wf()
                            &&& layout.layouts() == desc.bind_group_layouts@
                            &&& layout.push_constant_size == desc.push_constant_size
                        },
                    }
                },
            },
    {
        let fid = match self.pipeline_layouts.prepare(id_in) {
            Ok(fid) => fid,
            Err(_) => {
                return (None, Some(CreateError::Identity));
            },
        };
        let ghost reserved = *self;
        let id = fid.id();
        match self.check_pipeline_layout(device_id, desc) {
            Some(e) => {
                self.pipeline_layouts.assign_error(fid);
                proof {
                    assert forall|x: Id|
                        (#[trigger] self.pipeline_layouts.status(x)) is Valid implies self.pipeline_layouts.resource(
                    x).wf() by {
                        assert(self.pipeline_layouts.status(x) == reserved.pipeline_layouts.status(
                            x,
                        ));
                        assert(reserved.pipeline_layouts.status(x) == old(
                            self,
                        ).pipeline_layouts.status(x));
                    }
                }
                (Some(id), Some(e))
            },
            None => {
                let mut group_layouts: [Id; 8] = [id; 8];
                let n = desc.bind_group_layouts.len();
                let mut i: usize = 0;
                while i < n
                    invariant
                        n == desc.bind_group_layouts@.len(),
                        n <= 8,
                        i <= n,
                        group_layouts@.len() == 8,
                        forall|j: int|
                            0 <= j < i ==> group_layouts@[j] == desc.bind_group_layouts@[j],
                    decreases n - i,
                {
                    group_layouts[i] = desc.bind_group_layouts[i];
                    i += 1;
                }
                let layout = PipelineLayout {
                    id,
                    device: device_id,
                    group_count: n,
                    group_layouts,
                    push_constant_size: desc.push_constant_size,
                };
                assert(layout.layouts() =~= desc.bind_group_layouts@);
                self.pipeline_layouts.assign(fid, layout);
                proof {
                    assert forall|x: Id|
                        (#[trigger] self.pipeline_layouts.status(x)) is Valid implies self.pipeline_layouts.resource(
                    x).wf() by {
                        if x != id {
                            assert(self.pipeline_layouts.status(x)
                                == reserved.pipeline_layouts.status(x));
                            assert(reserved.pipeline_layouts.status(x) == old(
                                self,
                            ).pipeline_layouts.status(x));
                        }
                    }
                }
                (Some(id), None)
            },
        }
    }

    /// The rules a compute pipeline is held to, in the order they are
    /// tried.
    pub open spec fn compute_pipeline_check(&self, device_id: Id, layout_id: Id) -> Option<
        CreateError,
    > {
        if self.device_check(device_id) is Some {
            self.device_check(device_id)
        } else if !self.pipeline_layouts.is_valid(layout_id) {
            Some(CreateError::InvalidResource(InvalidResourceError { id: layout_id }))
        } else if self.pipeline_layouts.resource(layout_id).device != device_id {
            Some(CreateError::Device(DeviceError::DeviceMismatch))
        } else {
            None
        }
    }

    /// Creates a compute pipeline with the given pipeline layout.
    ///
    /// When no identifier can be had, nothing changes. Otherwise the
    /// identifier is registered: with the pipeline, which holds a copy of
    /// its layout, if every rule is passed, else with a placeholder, and the
    /// error is returned.
    pub fn device_create_compute_pipeline(
        &mut self,
        device_id: Id,
        layout_id: Id,
        id_in: Option<Id>,
    ) -> (r: (Option<Id>, Option<CreateError>))
        requires
            old(self).wf(),
        ensures
            final(self).wf(),
            final(self).same_but_compute_pipelines(old(self)),
            r.0 is Some <==> match id_in {
                Some(id) => old(self).compute_pipelines.accepts(id),
                None => old(self).compute_pipelines.has_room(),
            },
            match r.0 {
                None => r.1 == Some(CreateError::Identity) && final(self).compute_pipelines == old(
                    self,
                ).compute_pipelines,
                Some(id) => {
                    &&& id_in matches Some(i) ==> id == i
                    &&& old(self).compute_pipelines.status(id) is Unused
                    &&& final(self).compute_pipelines.evolves_but(&old(self).compute_pipelines, id)
                    &&& r.1 == old(self).compute_pipeline_check(device_id, layout_id)
                    &&& final(self).compute_pipelines.status(id) == if r.1 is Some {
                        Status::<ComputePipeline>::Invalid
                    } else {
                        Status::Valid(
                            ComputePipeline {
                                id,
                                device: device_id,
                                layout: old(self).pipeline_layouts.resource(layout_id),
                            },
                        )
                    }
                },
            },
    {
        let fid = match self.compute_pipelines.prepare(id_in) {
            Ok(fid) => fid,
            Err(_) => {
                return (None, Some(CreateError::Identity));
            },
        };
        let ghost reserved = *self;
        let id = fid.id();
        let checked: Result<PipelineLayout, CreateError> = match self.check_device(device_id) {
            Err(e) => Err(e),
            Ok(_) => match self.pipeline_layouts.get(layout_id) {
                Err(e) => Err(CreateError::InvalidResource(e)),
                Ok(layout) => {
                    if layout.device != device_id {
                        Err(CreateError::Device(DeviceError::DeviceMismatch))
                    } else {
                        Ok(*layout)
                    }
                },
            },
        };
        match checked {
            Err(e) => {
                self.compute_pipelines.assign_error(fid);
                proof {
                    assert forall|x: Id|
                        (#[trigger] self.compute_pipelines.status(x)) is Valid implies self.compute_pipelines.resource(
                    x).layout.wf() by {
                        assert(self.compute_pipelines.status(x)
                            == reserved.compute_pipelines.status(x));
                        assert(reserved.compute_pipelines.status(x) == old(
                            self,
                        ).compute_pipelines.status(x));
                    }
                }
                (Some(id), Some(e))
            },
            Ok(layout) => {
                self.compute_pipelines.assign(fid, ComputePipeline { id, device: device_id, layout });
                proof {
                    assert forall|x: Id|
                        (#[trigger] self.compute_pipelines.status(x)) is Valid implies self.compute_pipelines.resource(
                    x).layout.wf() by {
                        if x != id {
                            assert(self.compute_pipelines.status(x)
                                == reserved.compute_pipelines.status(x));
                            assert(reserved.compute_pipelines.status(x) == old(
                                self,
                            ).compute_pipelines.status(x));
                        } else {
                            assert(old(self).pipeline_layouts.status(layout_id) is Valid);
                        }
                    }
                }
                (Some(id), None)
            },
        }
    }

    /// Creates a command encoder on a device.
    ///
    /// When no identifier can be had, nothing changes. Otherwise the
    /// identifier is registered: with an encoder that is recording and has
    /// recorded nothing if the device is fine, else with a placeholder, and
    /// the error is returned.
    pub fn device_create_command_encoder(&mut self, device_id: Id, id_in: Option<Id>) -> (r: (
        Option<Id>,
        Option<CreateError>,
    ))
        requires
            old(self).wf(),
        ensures
            final(self).wf(),
            final(self).same_but_command_encoders(old(self)),
            r.0 is Some <==> match id_in {
                Some(id) => old(self).command_encoders.accepts(id),
                None => old(self).command_encoders.has_room(),
            },
            match r.0 {
                None => r.1 == Some(CreateError::Identity) && final(self).command_encoders == old(
                    self,
                ).command_encoders,
                Some(id) => {
                    &&& id_in matches Some(i) ==> id == i
                    &&& old(self).command_encoders.status(id) is Unused
                    &&& final(self).command_encoders.evolves_but(&old(self).command_encoders, id)
                    &&& r.1 == old(self).device_check(device_id)
                    &&& match r.1 {
                        Some(_) => final(self).command_encoders.status(id) is Invalid,
                        None => {
                            let e = final(self).command_encoders.resource(id)@;
                            &&& final(self).command_encoders.is_valid(id)
                            &&& e.device == device_id
                            &&& e.status == CommandEncoderStatus::Recording
                            &&& e.list.len() == 0
                            &&& e.current is None
                            &&& e.trackers.end == Map::<u32, u16>::empty()
                        },
                    }
                },
            },
    {
        let fid = match self.command_encoders.prepare(id_in) {
            Ok(fid) => fid,
            Err(_) => {
                return (None, Some(CreateError::Identity));
            },
        };
        let ghost reserved = *self;
        let id = fid.id();
        match self.check_device(device_id) {
            Err(e) => {
                self.command_encoders.assign_error(fid);
                proof {
                    assert forall|x: Id|
                        (#[trigger] self.command_encoders.status(x)) is Valid implies self.command_encoders.resource(
                    x).wf() by {
                        assert(self.command_encoders.status(x) == reserved.command_encoders.status(
                            x,
                        ));
                        assert(reserved.command_encoders.status(x) == old(
                            self,
                        ).command_encoders.status(x));
                    }
                }
                (Some(id), Some(e))
            },
            Ok(_) => {
                self.command_encoders.assign(fid, CommandEncoder::new(device_id));
                proof {
                    assert forall|x: Id|
                        (#[trigger] self.command_encoders.status(x)) is Valid implies self.command_encoders.resource(
                    x).wf() by {
                        if x != id {
                            assert(self.command_encoders.status(x)
                                == reserved.command_encoders.status(x));
                            assert(reserved.command_encoders.status(x) == old(
                                self,
                            ).command_encoders.status(x));
                        }
                    }
                }
                (Some(id), None)
            },
        }
    }

    /// What keeps a buffer from being bound: it does not exist, belongs to
    /// another device, has lost its native buffer, or lacks the usage that
    /// the kind of binding needs.
    pub open spec fn entry_check(
        buffers: crate::registry::Registry<Buffer>,
        slots: Seq<crate::global::BufferSlot>,
        device_id: Id,
        binding: BufferBinding,
    ) -> Option<CreateError> {
        if !buffers.is_valid(binding.buffer) {
            Some(CreateError::InvalidResource(InvalidResourceError { id: binding.buffer }))
        } else {
            let b = buffers.resource(binding.buffer);
            if b.device != device_id {
                Some(CreateError::Device(DeviceError::DeviceMismatch))
            } else if !Self::buffer_alive(slots, b) {
                Some(CreateError::DestroyedResource(binding.buffer))
            } else if b.usage & binding_usage(binding.kind) == 0 {
                Some(
                    CreateError::MissingBufferUsage(
                        MissingBufferUsageError {
                            buffer: binding.buffer,
                            actual: b.usage,
                            expected: binding_usage(binding.kind),
                        },
                    ),
                )
            } else {
                None
            }
        }
    }

    /// What keeps the first binding from `i` on that cannot be bound from
    /// being bound.
    pub open spec fn entries_check(
        buffers: crate::registry::Registry<Buffer>,
        slots: Seq<crate::global::BufferSlot>,
        device_id: Id,
        entries: Seq<BufferBinding>,
        i: int,
    ) -> Option<CreateError>
        decreases entries.len() - i,
    {
        if i < 0 || i >= entries.len() {
            None
        } else if Self::entry_check(buffers, slots, device_id, entries[i]) is Some {
            Self::entry_check(buffers, slots, device_id, entries[i])
        } else {
            Self::entries_check(buffers, slots, device_id, entries, i + 1)
        }
    }

    /// The rules a bind group is held to, in the order they are tried.
    pub open spec fn bind_group_check(&self, device_id: Id, layout: Id, entries: Seq<BufferBinding>)
        -> Option<CreateError> {
        if self.device_check(device_id) is Some {
            self.device_check(device_id)
        } else if !self.bind_group_layouts.is_valid(layout) {
            Some(CreateError::InvalidResource(InvalidResourceError { id: layout }))
        } else if self.bind_group_layouts.resource(layout).device != device_id {
            Some(CreateError::Device(DeviceError::DeviceMismatch))
        } else {
            Self::entries_check(self.buffers, self.buffer_slots@, device_id, entries, 0)
        }
    }

    /// A list of bindings with one that cannot be bound cannot be bound.
    proof fn lemma_entries_check_finds(
        buffers: crate::registry::Registry<Buffer>,
        slots: Seq<crate::global::BufferSlot>,
        device_id: Id,
        entries: Seq<BufferBinding>,
        from: int,
        i: int,
    )
        requires
            0 <= from <= i < entries.len(),
            Self::entry_check(buffers, slots, device_id, entries[i]) is Some,
        ensures
            Self::entries_check(buffers, slots, device_id, entries, from) is Some,
        decreases i - from,
    {
        if from < i {
            Self::lemma_entries_check_finds(buffers, slots, device_id, entries, from + 1, i);
        }
    }

    /// A buffer that was not created with the usage that a kind of binding
    /// needs cannot be bound in that kind: whatever else is the case, no
    /// bind group with such a binding is created.
    pub proof fn law_binding_needs_usage(
        &self,
        device_id: Id,
        layout: Id,
        entries: Seq<BufferBinding>,
        i: int,
    )
        requires
            0 <= i < entries.len(),
            self.buffers.is_valid(entries[i].buffer),
            self.buffers.resource(entries[i].buffer).usage & binding_usage(entries[i].kind) == 0,
        ensures
            self.bind_group_check(device_id, layout, entries) is Some,
    {
        Self::lemma_entries_check_finds(self.buffers, self.buffer_slots@, device_id, entries, 0, i);
    }

    /// What a bind group with the given bindings uses: each buffer, by its
    /// tracker index, in the state its binding needs.
    pub open spec fn used_by(
        buffers: crate::registry::Registry<Buffer>,
        entries: Seq<BufferBinding>,
    ) -> Seq<UsedBuffer> {
        Seq::new(
            entries.len(),
            |i: int|
                UsedBuffer {
                    buffer: entries[i].buffer,
                    index: buffers.resource(entries[i].buffer).tracker_index,
                    state: binding_state(entries[i].kind),
                },
        )
    }

    fn check_bind_group(&self, device_id: Id, desc: &BindGroupDescriptor) -> (r: Result<
        BindGroup,
        CreateError,
    >)
        requires
            self.wf(),
        ensures
            match r {
                Ok(group) => {
                    &&& self.bind_group_check(device_id, desc.layout, desc.entries@) is None
                    &&& group.info.device == device_id
                    &&& group.info.layout == desc.layout
                    &&& group.info.dynamic_count == self.bind_group_layouts.resource(
                        desc.layout,
                    ).dynamic_count
                    &&& group.used@ == Self::used_by(self.buffers, desc.entries@)
                },
                Err(e) => self.bind_group_check(device_id, desc.layout, desc.entries@) == Some(e),
            },
    {
        match self.check_device(device_id) {
            Ok(_) => {},
            Err(e) => {
                return Err(e);
            },
        }
        let dynamic_count = match self.bind_group_layouts.get(desc.layout) {
            Err(e) => {
                return Err(CreateError::InvalidResource(e));
            },
            Ok(layout) => {
                if layout.device != device_id {
                    return Err(CreateError::Device(DeviceError::DeviceMismatch));
                }
                layout.dynamic_count
            },
        };
        let mut used: Vec<UsedBuffer> = Vec::new();
        let mut i: usize = 0;
        while i < desc.entries.len()
            invariant
                self.wf(),
                i <= desc.entries@.len(),
                used@.len() == i,
                forall|j: int|
                    0 <= j < i ==> used@[j] == Self::used_by(self.buffers, desc.entries@)[j],
                self.bind_group_check(device_id, desc.layout, desc.entries@) == Self::entries_check(
                    self.buffers,
                    self.buffer_slots@,
                    device_id,
                    desc.entries@,
                    i as int,
                ),
            decreases desc.entries@.len() - i,
        {
            let binding = desc.entries[i];
            let buffer = match self.buffers.get(binding.buffer) {
                Err(e) => {
                    return Err(CreateError::InvalidResource(e));
                },
                Ok(b) => *b,
            };
            if buffer.device != device_id {
                return Err(CreateError::Device(DeviceError::DeviceMismatch));
            }
            if !self.is_buffer_alive(&buffer) {
                return Err(CreateError::DestroyedResource(binding.buffer));
            }
            let (needed, state) = match binding.kind {
                BindingKind::Uniform => (BUFFER_USAGE_UNIFORM, UNIFORM),
                BindingKind::StorageReadOnly => (BUFFER_USAGE_STORAGE, STORAGE_READ_ONLY),
                BindingKind::StorageReadWrite => (BUFFER_USAGE_STORAGE, STORAGE_READ_WRITE),
            };
            if buffer.usage & needed == 0 {
                return Err(
                    CreateError::MissingBufferUsage(
                        MissingBufferUsageError {
                            buffer: binding.buffer,
                            actual: buffer.usage,
                            expected: needed,
                        },
                    ),
                );
            }
            used.push(UsedBuffer { buffer: binding.buffer, index: buffer.tracker_index, state });
            i += 1;
        }
        assert(used@ =~= Self::used_by(self.buffers, desc.entries@));
        Ok(
            BindGroup {
                info: BindGroupInfo { id: desc.layout, device: device_id, layout: desc.layout, dynamic_count },
                used,
            },
        )
    }

    /// Decides whether the native buffer behind a handle is there.
    pub fn is_buffer_alive(&self, buffer: &Buffer) -> (alive: bool)
        ensures
            alive == Self::buffer_alive(self.buffer_slots@, *buffer),
    {
        let i = buffer.tracker_index as usize;
        if i >= self.buffer_slots.len() {
            return false;
        }
        let slot = self.buffer_slots[i];
        match slot.owner {
            Some(owner) => owner == buffer.id && !slot.destroyed,
            None => false,
        }
    }

    /// Creates a bind group.
    ///
    /// When no identifier can be had, nothing changes. Otherwise the
    /// identifier is registered: with the bind group if the description
    /// passes every rule, else with a placeholder, and the error is
    /// returned. The bind group remembers every buffer it binds, and the
    /// state the binding needs it in.
    pub fn device_create_bind_group(
        &mut self,
        device_id: Id,
        desc: &BindGroupDescriptor,
        id_in: Option<Id>,
    ) -> (r: (Option<Id>, Option<CreateError>))
        requires
            old(self).wf(),
        ensures
            final(self).wf(),
            final(self).same_but_bind_groups(old(self)),
            r.0 is Some <==> match id_in {
                Some(id) => old(self).bind_groups.accepts(id),
                None => old(self).bind_groups.has_room(),
            },
            match r.0 {
                None => r.1 == Some(CreateError::Identity) && final(self).bind_groups == old(
                    self,
                ).bind_groups,
                Some(id) => {
                    &&& id_in matches Some(i) ==> id == i
                    &&& old(self).bind_groups.status(id) is Unused
                    &&& final(self).bind_groups.evolves_but(&old(self).bind_groups, id)
                    &&& r.1 == old(self).bind_group_check(device_id, desc.layout, desc.entries@)
                    &&& match r.1 {
                        Some(_) => final(self).bind_groups.status(id) is Invalid,
                        None => {
                            let group = final(self).bind_groups.resource(id);
                            &&& final(self).bind_groups.is_valid(id)
                            &&& group.info == (BindGroupInfo {
                                id,
                                device: device_id,
                                layout: desc.layout,
                                dynamic_count: old(self).bind_group_layouts.resource(
                                    desc.layout,
                                ).dynamic_count,
                            })
                            &&& group.used@ == Self::used_by(old(self).buffers, desc.entries@)
                        },
                    }
                },
            },
    {
        let fid = match self.bind_groups.prepare(id_in) {
            Ok(fid) => fid,
            Err(_) => {
                return (None, Some(CreateError::Identity));
            },
        };
        let id = fid.id();
        match self.check_bind_group(device_id, desc) {
            Err(e) => {
                self.bind_groups.assign_error(fid);
                (Some(id), Some(e))
            },
            Ok(group) => {
                let group = BindGroup {
                    info: BindGroupInfo {
                        id,
                        device: group.info.device,
                        layout: group.info.layout,
                        dynamic_count: group.info.dynamic_count,
                    },
                    used: group.used,
                };
                self.bind_groups.assign(fid, group);
                (Some(id), None)
            },
        }
    }

    /// The rules a texture is held to, in the order they are tried.
    pub open spec fn texture_check(&self, device_id: Id, desc: TextureDescriptor) -> Option<
        CreateError,
    > {
        if self.device_check(device_id) is Some {
            self.device_check(device_id)
        } else {
            let limits = self.devices.resource(device_id).limits;
            if desc.width == 0 || desc.height == 0 || desc.depth_or_array_layers == 0 {
                Some(CreateError::ZeroSize)
            } else if desc.width > limits.max_texture_dimension_2d {
                Some(
                    CreateError::InvalidDimension {
                        size: desc.width,
                        max: limits.max_texture_dimension_2d,
                    },
                )
            } else if desc.height > limits.max_texture_dimension_2d {
                Some(
                    CreateError::InvalidDimension {
                        size: desc.height,
                        max: limits.max_texture_dimension_2d,
                    },
                )
            } else if desc.depth_or_array_layers > limits.max_texture_dimension_3d {
                Some(
                    CreateError::InvalidDimension {
                        size: desc.depth_or_array_layers,
                        max: limits.max_texture_dimension_3d,
                    },
                )
            } else {
                None
            }
        }
    }

    fn check_texture(&self, device_id: Id, desc: &TextureDescriptor) -> (r: Option<CreateError>)
        requires
            self.wf(),
        ensures
            r == self.texture_check(device_id, *desc),
    {
        let device = match self.check_device(device_id) {
            Ok(d) => d,
            Err(e) => {
                return Some(e);
            },
        };
        let limits = device.limits;
        if desc.width == 0 || desc.height == 0 || desc.depth_or_array_layers == 0 {
            Some(CreateError::ZeroSize)
        } else if desc.width > limits.max_texture_dimension_2d {
            Some(
                CreateError::InvalidDimension {
                    size: desc.width,
                    max: limits.max_texture_dimension_2d,
                },
            )
        } else if desc.height > limits.max_texture_dimension_2d {
            Some(
                CreateError::InvalidDimension {
                    size: desc.height,
                    max: limits.max_texture_dimension_2d,
                },
            )
        } else if desc.depth_or_array_layers > limits.max_texture_dimension_3d {
            Some(
                CreateError::InvalidDimension {
                    size: desc.depth_or_array_layers,
                    max: limits.max_texture_dimension_3d,
                },
            )
        } else {
            None
        }
    }

    /// Creates a texture; `external` says whether its memory is shared with
    /// a swap chain.
    ///
    /// When no identifier can be had, nothing changes. Otherwise the
    /// identifier is registered: with the texture if the description passes
    /// every rule, else with a placeholder, and the error is returned.
    pub fn device_create_texture(
        &mut self,
        device_id: Id,
        desc: &TextureDescriptor,
        external: bool,
        id_in: Option<Id>,
    ) -> (r: (Option<Id>, Option<CreateError>))
        requires
            old(self).wf(),
        ensures
            final(self).wf(),
            final(self).same_but_textures(old(self)),
            r.0 is Some <==> match id_in {
                Some(id) => old(self).textures.accepts(id),
                None => old(self).textures.has_room(),
            },
            match r.0 {
                None => r.1 == Some(CreateError::Identity) && final(self).textures == old(
                    self,
                ).textures,
                Some(id) => {
                    &&& id_in matches Some(i) ==> id == i
                    &&& old(self).textures.status(id) is Unused
                    &&& final(self).textures.evolves_but(&old(self).textures, id)
                    &&& r.1 == old(self).texture_check(device_id, *desc)
                    &&& final(self).textures.status(id) == if r.1 is Some {
                        Status::<Texture>::Invalid
                    } else {
                        Status::Valid(Texture { id, device: device_id, desc: *desc, external })
                    }
                },
            },
    {
        let fid = match self.textures.prepare(id_in) {
            Ok(fid) => fid,
            Err(_) => {
                return (None, Some(CreateError::Identity));
            },
        };
        let id = fid.id();
        match self.check_texture(device_id, desc) {
            Some(e) => {
                self.textures.assign_error(fid);
                (Some(id), Some(e))
            },
            None => {
                self.textures.assign(fid, Texture { id, device: device_id, desc: *desc, external });
                (Some(id), None)
            },
        }
    }

    /// Registers a placeholder for a texture that could not be created, so
    /// that the identifier can be dropped like a texture. Returns whether
    /// the identifier could be had; if not, nothing changes.
    pub fn create_texture_error(&mut self, id_in: Option<Id>) -> (r: Option<Id>)
        requires
            old(self).wf(),
        ensures
            final(self).wf(),
            final(self).same_but_textures(old(self)),
            r is Some <==> match id_in {
                Some(id) => old(self).textures.accepts(id),
                None => old(self).textures.has_room(),
            },
            match r {
                Some(id) => {
                    &&& id_in matches Some(i) ==> id == i
                    &&& old(self).textures.status(id) is Unused
                    &&& final(self).textures.status(id) is Invalid
                    &&& final(self).textures.evolves_but(&old(self).textures, id)
                },
                None => final(self).textures == old(self).textures,
            },
    {
        match self.textures.prepare(id_in) {
            Ok(fid) => {
                let id = self.textures.assign_error(fid);
                Some(id)
            },
            Err(_) => None,
        }
    }

    /// Drops a texture or the placeholder of one. Dropping what is not
    /// registered changes nothing.
    pub fn texture_drop(&mut self, texture_id: Id)
        requires
            old(self).wf(),
        ensures
            final(self).wf(),
            final(self).same_but_textures(old(self)),
            final(self).textures.same_but(&old(self).textures, texture_id),
            !final(self).textures.is_registered(texture_id),
            old(self).textures.is_registered(texture_id) ==> final(self).textures.status(
                texture_id,
            ) is Retired,
    {
        self.textures.remove(texture_id);
    }

    /// Drops a bind group layout or the placeholder of one. Dropping what is not
    /// registered changes nothing.
    pub fn bind_group_layout_drop(&mut self, id: Id)
        requires
            old(self).wf(),
        ensures
            final(self).wf(),
            final(self).same_but_bind_group_layouts(old(self)),
            final(self).bind_group_layouts.same_but(&old(self).bind_group_layouts, id),
            !final(self).bind_group_layouts.is_registered(id),
            old(self).bind_group_layouts.is_registered(id) ==> final(self).bind_group_layouts.status(id) is Retired,
    {
        self.bind_group_layouts.remove(id);
    }

    /// Drops a pipeline layout or the placeholder of one. Dropping what is not
    /// registered changes nothing.
    pub fn pipeline_layout_drop(&mut self, id: Id)
        requires
            old(self).wf(),
        ensures
            final(self).wf(),
            final(self).same_but_pipeline_layouts(old(self)),
            final(self).pipeline_layouts.same_but(&old(self).pipeline_layouts, id),
            !final(self).pipeline_layouts.is_registered(id),
            old(self).pipeline_layouts.is_registered(id) ==> final(self).pipeline_layouts.status(id) is Retired,
    {
        self.pipeline_layouts.remove(id);
        proof {
            assert forall|x: Id| (#[trigger] self.pipeline_layouts.status(x)) is Valid implies
                self.pipeline_layouts.resource(x).wf() by {
                assert(x != id);
                assert(self.pipeline_layouts.status(x) == old(self).pipeline_layouts.status(x));
            }
        }
    }

    /// Drops a bind group or the placeholder of one. Dropping what is not
    /// registered changes nothing.
    pub fn bind_group_drop(&mut self, id: Id)
        requires
            old(self).wf(),
        ensures
            final(self).wf(),
            final(self).same_but_bind_groups(old(self)),
            final(self).bind_groups.same_but(&old(self).bind_groups, id),
            !final(self).bind_groups.is_registered(id),
            old(self).bind_groups.is_registered(id) ==> final(self).bind_groups.status(id) is Retired,
    {
        self.bind_groups.remove(id);
    }

    /// Drops a compute pipeline or the placeholder of one. Dropping what is not
    /// registered changes nothing.
    pub fn compute_pipeline_drop(&mut self, id: Id)
        requires
            old(self).wf(),
        ensures
            final(self).wf(),
            final(self).same_but_compute_pipelines(old(self)),
            final(self).compute_pipelines.same_but(&old(self).compute_pipelines, id),
            !final(self).compute_pipelines.is_registered(id),
            old(self).compute_pipelines.is_registered(id) ==> final(self).compute_pipelines.status(id) is Retired,
    {
        self.compute_pipelines.remove(id);
        proof {
            assert forall|x: Id| (#[trigger] self.compute_pipelines.status(x)) is Valid implies
                self.compute_pipelines.resource(x).layout.wf() by {
                assert(x != id);
                assert(self.compute_pipelines.status(x) == old(self).compute_pipelines.status(x));
            }
        }
    }
}

} // verus!
