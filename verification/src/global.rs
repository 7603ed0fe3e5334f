//! The hub: every resource table of the runtime, and the entry points that
//! create and drop resources.

use vstd::prelude::*;
use crate::command::DeviceError;
use crate::encoder::CommandEncoder;
use crate::id::{Backend, Id};
use crate::registry::{InvalidResourceError, Registry, Status};
use crate::resource::{
    device_supported, is_device_supported, BindGroupInfo, BindGroupLayout, Buffer, ComputePipeline,
    Device, PipelineLayout, Queue, Texture, BUFFER_USAGE_COPY_DST, BUFFER_USAGE_COPY_SRC,
    BUFFER_USAGE_MAP_READ, BUFFER_USAGE_MAP_WRITE,
};
use crate::track::{TrackerIndexAllocator, UsedBuffer};

verus! {

/// Every usage a buffer can be created with.
pub const BUFFER_USAGE_ALL: u32 = 0x3ff;

/// A bind group: its description and what it uses.
pub struct BindGroup {
    pub info: BindGroupInfo,
    /// The buffers the group binds, each with the state it must be in.
    pub used: Vec<UsedBuffer>,
}

/// What is known of the native buffer behind one tracker index.
#[derive(Clone, Copy, Debug, PartialEq, Eq, Structural)]
pub struct BufferSlot {
    /// The buffer that has the tracker index, if any has.
    pub owner: Option<Id>,
    /// Whether the native buffer was destroyed.
    pub destroyed: bool,
    /// Whether the host has the memory of the buffer mapped.
    pub mapped: bool,
}

/// What a buffer is created from.
#[derive(Clone, Copy, Debug, PartialEq, Eq, Structural)]
pub struct BufferDescriptor {
    pub size: u64,
    pub usage: u32,
    pub mapped_at_creation: bool,
}

/// Why a buffer could not be created.
#[derive(Clone, Copy, Debug, PartialEq, Eq, Structural)]
pub enum CreateBufferError {
    /// The identifier asked for cannot be used.
    Identity,
    InvalidDevice(InvalidResourceError),
    Device(DeviceError),
    ZeroSize,
    /// No usage, or a usage that does not exist.
    InvalidUsage(u32),
    /// A mappable buffer with a usage that mapping does not go with.
    UsageMismatch(u32),
    MaxBufferSize { requested: u64, maximum: u64 },
    /// Buffers mapped at creation have a size that is a multiple of four.
    UnalignedSize,
}

/// The rules a buffer description is held to, in the order they are tried.
pub open spec fn buffer_check(device: Device, desc: BufferDescriptor) -> Option<CreateBufferError> {
    if !device.valid {
        Some(CreateBufferError::Device(DeviceError::Lost))
    } else if desc.size == 0 {
        Some(CreateBufferError::ZeroSize)
    } else if desc.usage == 0 || desc.usage & !BUFFER_USAGE_ALL != 0 {
        Some(CreateBufferError::InvalidUsage(desc.usage))
    } else if desc.usage & BUFFER_USAGE_MAP_READ != 0 && desc.usage & !(BUFFER_USAGE_MAP_READ
        | BUFFER_USAGE_COPY_DST) != 0 {
        Some(CreateBufferError::UsageMismatch(desc.usage))
    } else if desc.usage & BUFFER_USAGE_MAP_WRITE != 0 && desc.usage & !(BUFFER_USAGE_MAP_WRITE
        | BUFFER_USAGE_COPY_SRC) != 0 {
        Some(CreateBufferError::UsageMismatch(desc.usage))
    } else if desc.size > device.limits.max_buffer_size {
        Some(
            CreateBufferError::MaxBufferSize {
                requested: desc.size,
                maximum: device.limits.max_buffer_size,
            },
        )
    } else if desc.mapped_at_creation && desc.size % 4 != 0 {
        Some(CreateBufferError::UnalignedSize)
    } else {
        None
    }
}

/// Decides `buffer_check`.
pub fn check_buffer(device: &Device, desc: &BufferDescriptor) -> (r: Option<CreateBufferError>)
    ensures
        r == buffer_check(*device, *desc),
{
    if !device.valid {
        Some(CreateBufferError::Device(DeviceError::Lost))
    } else if desc.size == 0 {
        Some(CreateBufferError::ZeroSize)
    } else if desc.usage == 0 || desc.usage & !BUFFER_USAGE_ALL != 0 {
        Some(CreateBufferError::InvalidUsage(desc.usage))
    } else if desc.usage & BUFFER_USAGE_MAP_READ != 0 && desc.usage & !(BUFFER_USAGE_MAP_READ
        | BUFFER_USAGE_COPY_DST) != 0 {
        Some(CreateBufferError::UsageMismatch(desc.usage))
    } else if desc.usage & BUFFER_USAGE_MAP_WRITE != 0 && desc.usage & !(BUFFER_USAGE_MAP_WRITE
        | BUFFER_USAGE_COPY_SRC) != 0 {
        Some(CreateBufferError::UsageMismatch(desc.usage))
    } else if desc.size > device.limits.max_buffer_size {
        Some(
            CreateBufferError::MaxBufferSize {
                requested: desc.size,
                maximum: device.limits.max_buffer_size,
            },
        )
    } else if desc.mapped_at_creation && desc.size % 4 != 0 {
        Some(CreateBufferError::UnalignedSize)
    } else {
        None
    }
}

/// The runtime: one table per kind of resource, and what is shared between
/// them.
pub struct Global {
    pub devices: Registry<Device>,
    /// The queues of the devices.
    pub queues: Registry<Queue>,
    pub buffers: Registry<Buffer>,
    pub textures: Registry<Texture>,
    pub bind_group_layouts: Registry<BindGroupLayout>,
    pub pipeline_layouts: Registry<PipelineLayout>,
    pub bind_groups: Registry<BindGroup>,
    pub compute_pipelines: Registry<ComputePipeline>,
    pub command_encoders: Registry<CommandEncoder>,
    /// The tracker indices of the buffers.
    pub tracker_indices: TrackerIndexAllocator,
    /// The native buffer of each tracker index.
    pub buffer_slots: Vec<BufferSlot>,
    /// The index of the latest submission; it only grows.
    pub submission_index: u64,
}

impl Global {
    /// Every table is well formed, and what the tables say of one another
    /// holds: a buffer knows its own identifier and owns its tracker index,
    /// and encoders and pipeline layouts are well formed themselves.
    pub open spec fn wf(&self) -> bool {
        &&& self.devices.wf()
        &&& self.queues.wf()
        &&& self.buffers.wf()
        &&& self.textures.wf()
        &&& self.bind_group_layouts.wf()
        &&& self.pipeline_layouts.wf()
        &&& self.bind_groups.wf()
        &&& self.compute_pipelines.wf()
        &&& self.command_encoders.wf()
        &&& self.tracker_indices.wf()
        &&& self.buffers_wf()
        &&& forall|id: Id|
            (#[trigger] self.devices.status(id)) is Valid ==> device_supported(
                self.devices.resource(id),
            )
        &&& forall|id: Id|
            (#[trigger] self.command_encoders.status(id)) is Valid
                ==> self.command_encoders.resource(id).wf()
        &&& forall|id: Id|
            (#[trigger] self.pipeline_layouts.status(id)) is Valid
                ==> self.pipeline_layouts.resource(id).wf()
        &&& forall|id: Id|
            (#[trigger] self.compute_pipelines.status(id)) is Valid
                ==> self.compute_pipelines.resource(id).layout.wf()
    }

    /// A valid buffer knows its own identifier and owns its tracker index.
    pub open spec fn buffers_wf(&self) -> bool {
        &&& self.buffer_slots@.len() >= self.tracker_indices.spec_size()
        &&& forall|id: Id|
            (#[trigger] self.buffers.status(id)) is Valid ==> self.owns_slot(
                self.buffers.resource(id),
                id,
            )
    }

    pub open spec fn owns_slot(&self, b: Buffer, id: Id) -> bool {
        &&& b.id == id
        &&& self.tracker_indices.is_allocated(b.tracker_index)
        &&& (b.tracker_index as int) < self.buffer_slots@.len()
        &&& self.buffer_slots@[b.tracker_index as int].owner == Some(id)
    }

    /// Whether the native buffer behind a handle is there: the handle's
    /// buffer still has its tracker index and was not destroyed.
    pub open spec fn buffer_alive(slots: Seq<BufferSlot>, b: Buffer) -> bool {
        &&& (b.tracker_index as int) < slots.len()
        &&& slots[b.tracker_index as int].owner == Some(b.id)
        &&& !slots[b.tracker_index as int].destroyed
    }

    /// Two valid buffers never share a tracker index.
    pub proof fn law_tracker_index_is_unique(&self, a: Id, b: Id)
        requires
            self.wf(),
            self.buffers.is_valid(a),
            self.buffers.is_valid(b),
            self.buffers.resource(a).tracker_index == self.buffers.resource(b).tracker_index,
        ensures
            a == b,
    {
    }

    /// A runtime without resources.
    pub fn new(backend: Backend) -> (g: Self)
        ensures
            g.wf(),
            g.submission_index == 0,
            forall|id: Id| !g.devices.is_registered(id),
            forall|id: Id| !g.queues.is_registered(id),
            forall|id: Id| !g.buffers.is_registered(id),
            forall|id: Id| !g.command_encoders.is_registered(id),
            forall|id: Id|
                id.generation() >= 1 && id.backend() == backend ==> g.devices.accepts(id)
                    && g.buffers.accepts(id) && g.command_encoders.accepts(id)
                    && g.bind_groups.accepts(id) && g.bind_group_layouts.accepts(id)
                    && g.pipeline_layouts.accepts(id) && g.compute_pipelines.accepts(id)
                    && g.textures.accepts(id) && g.queues.accepts(id),
    {
        let g = Global {
            devices: Registry::new(backend),
            queues: Registry::new(backend),
            buffers: Registry::new(backend),
            textures: Registry::new(backend),
            bind_group_layouts: Registry::new(backend),
            pipeline_layouts: Registry::new(backend),
            bind_groups: Registry::new(backend),
            compute_pipelines: Registry::new(backend),
            command_encoders: Registry::new(backend),
            tracker_indices: TrackerIndexAllocator::new(),
            buffer_slots: Vec::new(),
            submission_index: 0,
        };
        assert forall|id: Id|
            id.generation() >= 1 && id.backend() == backend implies g.devices.accepts(id)
            && g.buffers.accepts(id) && g.command_encoders.accepts(id) && g.bind_groups.accepts(id)
            && g.bind_group_layouts.accepts(id) && g.pipeline_layouts.accepts(id)
            && g.compute_pipelines.accepts(id) && g.textures.accepts(id) && g.queues.accepts(id) by {
            assert(g.devices.accepts(id) <==> id.generation() >= 1 && id.backend() == backend);
            assert(g.queues.accepts(id) <==> id.generation() >= 1 && id.backend() == backend);
            assert(g.buffers.accepts(id) <==> id.generation() >= 1 && id.backend() == backend);
            assert(g.command_encoders.accepts(id) <==> id.generation() >= 1 && id.backend()
                == backend);
            assert(g.bind_groups.accepts(id) <==> id.generation() >= 1 && id.backend() == backend);
            assert(g.bind_group_layouts.accepts(id) <==> id.generation() >= 1 && id.backend()
                == backend);
            assert(g.pipeline_layouts.accepts(id) <==> id.generation() >= 1 && id.backend()
                == backend);
            assert(g.compute_pipelines.accepts(id) <==> id.generation() >= 1 && id.backend()
                == backend);
            assert(g.textures.accepts(id) <==> id.generation() >= 1 && id.backend() == backend);
        }
        g
    }

    /// Registers a device. Fails, and changes nothing, when the runtime
    /// cannot work with the device or no identifier can be had.
    pub fn create_device(&mut self, device: Device, id_in: Option<Id>) -> (r: Option<Id>)
        requires
            old(self).wf(),
        ensures
            final(self).wf(),
            final(self).same_but_devices(old(self)),
            r is Some <==> device_supported(device) && match id_in {
                Some(id) => old(self).devices.accepts(id),
                None => old(self).devices.has_room(),
            },
            match r {
                Some(id) => {
                    &&& id_in matches Some(i) ==> id == i
                    &&& old(self).devices.status(id) is Unused
                    &&& final(self).devices.status(id) == Status::Valid(device)
                    &&& final(self).devices.evolves_but(&old(self).devices, id)
                },
                None => final(self).devices == old(self).devices,
            },
    {
        if !is_device_supported(&device) {
            return None;
        }
        match self.devices.prepare(id_in) {
            Ok(fid) => {
                let ghost reserved = *self;
                let id = self.devices.assign(fid, device);
                proof {
                    assert forall|x: Id|
                        (#[trigger] self.devices.status(x)) is Valid implies device_supported(
                        self.devices.resource(x),
                    ) by {
                        if x != id {
                            assert(self.devices.status(x) == reserved.devices.status(x));
                            assert(reserved.devices.status(x) == old(self).devices.status(x));
                        }
                    }
                }
                Some(id)
            },
            Err(_) => None,
        }
    }

    /// Registers the queue of a device. Fails, and changes nothing, when
    /// the device does not exist or no identifier can be had.
    pub fn create_queue(&mut self, device_id: Id, id_in: Option<Id>) -> (r: Option<Id>)
        requires
            old(self).wf(),
        ensures
            final(self).wf(),
            final(self).same_but_queues(old(self)),
            r is Some <==> old(self).devices.is_valid(device_id) && match id_in {
                Some(id) => old(self).queues.accepts(id),
                None => old(self).queues.has_room(),
            },
            match r {
                Some(id) => {
                    &&& id_in matches Some(i) ==> id == i
                    &&& old(self).queues.status(id) is Unused
                    &&& final(self).queues.status(id) == Status::Valid(
                        Queue { id, device: device_id },
                    )
                    &&& final(self).queues.evolves_but(&old(self).queues, id)
                },
                None => final(self).queues == old(self).queues,
            },
    {
        if self.devices.get(device_id).is_err() {
            return None;
        }
        match self.queues.prepare(id_in) {
            Ok(fid) => {
                let id = fid.id();
                self.queues.assign(fid, Queue { id, device: device_id });
                Some(id)
            },
            Err(_) => None,
        }
    }

    /// Drops a queue. Dropping what is not registered changes nothing.
    pub fn queue_drop(&mut self, queue_id: Id)
        requires
            old(self).wf(),
        ensures
            final(self).wf(),
            final(self).same_but_queues(old(self)),
            final(self).queues.same_but(&old(self).queues, queue_id),
            !final(self).queues.is_registered(queue_id),
            old(self).queues.is_registered(queue_id) ==> final(self).queues.status(
                queue_id,
            ) is Retired,
            !old(self).queues.is_registered(queue_id) ==> *final(self) == *old(self),
    {
        self.queues.remove(queue_id);
    }

    /// Whether everything but the queues is as in `other`.
    pub open spec fn same_but_queues(&self, other: &Self) -> bool {
        &&& self.devices == other.devices
        &&& self.buffers == other.buffers
        &&& self.textures == other.textures
        &&& self.bind_group_layouts == other.bind_group_layouts
        &&& self.pipeline_layouts == other.pipeline_layouts
        &&& self.bind_groups == other.bind_groups
        &&& self.compute_pipelines == other.compute_pipelines
        &&& self.command_encoders == other.command_encoders
        &&& self.tracker_indices == other.tracker_indices
        &&& self.buffer_slots == other.buffer_slots
        &&& self.submission_index == other.submission_index
    }

    /// Whether everything but the devices is as in `other`.
    pub open spec fn same_but_devices(&self, other: &Self) -> bool {
        &&& self.buffers == other.buffers
        &&& self.textures == other.textures
        &&& self.bind_group_layouts == other.bind_group_layouts
        &&& self.pipeline_layouts == other.pipeline_layouts
        &&& self.bind_groups == other.bind_groups
        &&& self.compute_pipelines == other.compute_pipelines
        &&& self.command_encoders == other.command_encoders
        &&& self.tracker_indices == other.tracker_indices
        &&& self.buffer_slots == other.buffer_slots
        &&& self.submission_index == other.submission_index
        &&& self.queues == other.queues
    }

    /// Whether everything but the buffers and their tracker indices is as
    /// in `other`.
    pub open spec fn same_but_buffers(&self, other: &Self) -> bool {
        &&& self.devices == other.devices
        &&& self.textures == other.textures
        &&& self.bind_group_layouts == other.bind_group_layouts
        &&& self.pipeline_layouts == other.pipeline_layouts
        &&& self.bind_groups == other.bind_groups
        &&& self.compute_pipelines == other.compute_pipelines
        &&& self.command_encoders == other.command_encoders
        &&& self.submission_index == other.submission_index
        &&& self.queues == other.queues
    }

    /// What creating a buffer is owed: the first rule that the description
    /// breaks, if it breaks one; else a lack of tracker indices, if there
    /// is one.
    pub open spec fn create_buffer_outcome(&self, device_id: Id, desc: BufferDescriptor) -> Option<
        CreateBufferError,
    > {
        if !self.devices.is_valid(device_id) {
            Some(CreateBufferError::InvalidDevice(InvalidResourceError { id: device_id }))
        } else if buffer_check(self.devices.resource(device_id), desc) is Some {
            buffer_check(self.devices.resource(device_id), desc)
        } else if !self.tracker_indices.has_room() {
            Some(CreateBufferError::Device(DeviceError::OutOfMemory))
        } else {
            None
        }
    }

    /// What the creation of a buffer leaves of the native buffers, where it
    /// succeeds: the buffer has a tracker index `t` that was free; the slot
    /// of the index holds the native buffer of the buffer, which is not
    /// destroyed, and is mapped if the buffer was to be mapped at its
    /// creation; every other slot that there was is as before, and every
    /// slot that is new is empty; and every other tracker index is in use
    /// or free as before.
    pub open spec fn slot_taken(&self, post: &Global, id: Id, t: u32, mapped: bool) -> bool {
        &&& !self.tracker_indices.is_allocated(t)
        &&& post.tracker_indices.is_allocated(t)
        &&& forall|i: u32|
            i != t ==> #[trigger] post.tracker_indices.is_allocated(i)
                == self.tracker_indices.is_allocated(i)
        &&& post.buffer_slots@.len() >= self.buffer_slots@.len()
        &&& (t as int) < post.buffer_slots@.len()
        &&& post.buffer_slots@[t as int] == (BufferSlot {
            owner: Some(id),
            destroyed: false,
            mapped,
        })
        &&& forall|j: int|
            0 <= j < self.buffer_slots@.len() && j != t ==> #[trigger] post.buffer_slots@[j]
                == self.buffer_slots@[j]
        &&& forall|j: int|
            self.buffer_slots@.len() <= j < post.buffer_slots@.len() && j != t
                ==> #[trigger] post.buffer_slots@[j] == (BufferSlot {
                owner: None,
                destroyed: false,
                mapped: false,
            })
    }

    /// What the drop of a buffer leaves of the native buffers: the slot of
    /// its tracker index `t` is empty and every other slot is as before;
    /// the index is free, and every other tracker index is in use or free
    /// as before.
    pub open spec fn slot_given_back(&self, post: &Global, t: u32) -> bool {
        &&& post.buffer_slots@ == self.buffer_slots@.update(
            t as int,
            BufferSlot { owner: None, destroyed: false, mapped: false },
        )
        &&& !post.tracker_indices.is_allocated(t)
        &&& forall|i: u32|
            i != t ==> #[trigger] post.tracker_indices.is_allocated(i)
                == self.tracker_indices.is_allocated(i)
    }

    /// A buffer that was there before another was created is alive
    /// afterwards exactly if it was alive before: a creation touches no
    /// native buffer but the new one.
    pub proof fn law_creation_keeps_others_alive(
        &self,
        post: &Global,
        id: Id,
        t: u32,
        mapped: bool,
        other: Id,
    )
        requires
            self.wf(),
            self.slot_taken(post, id, t, mapped),
            self.buffers.is_valid(other),
        ensures
            Self::buffer_alive(post.buffer_slots@, self.buffers.resource(other))
                == Self::buffer_alive(self.buffer_slots@, self.buffers.resource(other)),
    {
        let b = self.buffers.resource(other);
        assert(self.owns_slot(b, other));
        assert(b.tracker_index != t);
        assert(post.buffer_slots@[b.tracker_index as int] == self.buffer_slots@[b.tracker_index as int]);
    }

    /// A buffer that is dropped takes no other native buffer with it: any
    /// other buffer is alive afterwards exactly if it was alive before.
    pub proof fn law_drop_keeps_others_alive(&self, post: &Global, dropped: Id, other: Id)
        requires
            self.wf(),
            self.buffers.is_valid(dropped),
            self.slot_given_back(post, self.buffers.resource(dropped).tracker_index),
            self.buffers.is_valid(other),
            other != dropped,
        ensures
            Self::buffer_alive(post.buffer_slots@, self.buffers.resource(other))
                == Self::buffer_alive(self.buffer_slots@, self.buffers.resource(other)),
    {
        let b = self.buffers.resource(other);
        let d = self.buffers.resource(dropped);
        assert(self.owns_slot(b, other));
        assert(self.owns_slot(d, dropped));
        if b.tracker_index == d.tracker_index {
            self.law_tracker_index_is_unique(dropped, other);
        }
    }

    /// Creates a buffer on a device.
    ///
    /// When no identifier can be had, nothing changes and no identifier is
    /// returned. Otherwise the identifier is registered: with the buffer if
    /// the description passes every rule, else with a placeholder that can
    /// be dropped like a buffer, and the error is returned.
    pub fn device_create_buffer(
        &mut self,
        device_id: Id,
        desc: &BufferDescriptor,
        id_in: Option<Id>,
    ) -> (r: (Option<Id>, Option<CreateBufferError>))
        requires
            old(self).wf(),
        ensures
            final(self).wf(),
            final(self).same_but_buffers(old(self)),
            r.0 is Some <==> match id_in {
                Some(id) => old(self).buffers.accepts(id),
                None => old(self).buffers.has_room(),
            },
            match r.0 {
                None => {
                    &&& r.1 == Some(CreateBufferError::Identity)
                    &&& final(self).buffers == old(self).buffers
                    &&& final(self).tracker_indices == old(self).tracker_indices
                    &&& final(self).buffer_slots == old(self).buffer_slots
                },
                Some(id) => {
                    &&& id_in matches Some(i) ==> id == i
                    &&& old(self).buffers.status(id) is Unused
                    &&& final(self).buffers.evolves_but(&old(self).buffers, id)
                    &&& r.1 == old(self).create_buffer_outcome(device_id, *desc)
                    &&& match r.1 {
                        Some(_) => {
                            &&& final(self).buffers.status(id) is Invalid
                            &&& final(self).tracker_indices == old(self).tracker_indices
                            &&& final(self).buffer_slots == old(self).buffer_slots
                        },
                        None => {
                            &&& final(self).buffers.is_valid(id)
                            &&& final(self).buffers.resource(id).id == id
                            &&& final(self).buffers.resource(id).device == device_id
                            &&& final(self).buffers.resource(id).size == desc.size
                            &&& final(self).buffers.resource(id).usage == desc.usage
                            &&& !old(self).tracker_indices.is_allocated(
                                final(self).buffers.resource(id).tracker_index,
                            )
                            &&& Self::buffer_alive(
                                final(self).buffer_slots@,
                                final(self).buffers.resource(id),
                            )
                            &&& old(self).slot_taken(
                                final(self),
                                id,
                                final(self).buffers.resource(id).tracker_index,
                                desc.mapped_at_creation,
                            )
                        },
                    }
                },
            },
    {
        let fid = match self.buffers.prepare(id_in) {
            Ok(fid) => fid,
            Err(_) => {
                return (None, Some(CreateBufferError::Identity));
            },
        };
        let ghost reserved = *self;
        let id = fid.id();
        let error = match self.devices.get(device_id) {
            Err(e) => Some(CreateBufferError::InvalidDevice(e)),
            Ok(device) => check_buffer(device, desc),
        };
        if let Some(e) = error {
            let id = self.buffers.assign_error(fid);
            return (Some(id), Some(e));
        }
        let tracker_index = match self.tracker_indices.allocate() {
            Some(index) => index,
            None => {
                let id = self.buffers.assign_error(fid);
                return (Some(id), Some(CreateBufferError::Device(DeviceError::OutOfMemory)));
            },
        };
        let ghost allocated = self.tracker_indices;
        let size = self.tracker_indices.size();
        while self.buffer_slots.len() < size as usize
            invariant
                size == self.tracker_indices.spec_size(),
                self.buffers == reserved.buffers,
                self.tracker_indices == allocated,
                self.same_but_buffers(&reserved),
                self.tracker_indices.wf(),
                self.tracker_indices.spec_size() <= reserved.tracker_indices.spec_size() + 1,
                tracker_index < self.tracker_indices.spec_size(),
                self.buffer_slots@.len() >= reserved.buffer_slots@.len(),
                forall|j: int|
                    0 <= j < reserved.buffer_slots@.len() ==> self.buffer_slots@[j]
                        == reserved.buffer_slots@[j],
                forall|j: int|
                    reserved.buffer_slots@.len() <= j < self.buffer_slots@.len()
                        ==> self.buffer_slots@[j] == (BufferSlot { owner: None, destroyed: false, mapped: false }),
            decreases size as int - self.buffer_slots@.len(),
        {
            self.buffer_slots.push(BufferSlot { owner: None, destroyed: false, mapped: false });
        }
        self.buffer_slots.set(
            tracker_index as usize,
            BufferSlot { owner: Some(id), destroyed: false, mapped: desc.mapped_at_creation },
        );
        let buffer = Buffer {
            id,
            device: device_id,
            size: desc.size,
            usage: desc.usage,
            tracker_index,
        };
        let id = self.buffers.assign(fid, buffer);
        proof {
            assert forall|x: Id| (#[trigger] self.buffers.status(x)) is Valid implies self.owns_slot(
                self.buffers.resource(x),
                x,
            ) by {
                if x != id {
                    assert(self.buffers.status(x) == reserved.buffers.status(x));
                    assert(reserved.buffers.status(x) == old(self).buffers.status(x));
                    let b = old(self).buffers.resource(x);
                    assert(old(self).owns_slot(b, x));
                    assert(b.tracker_index != tracker_index);
                    assert(self.buffer_slots@[b.tracker_index as int] == old(
                        self,
                    ).buffer_slots@[b.tracker_index as int]);
                } else {
                    assert(self.buffers.resource(x) == buffer);
                }
            }
        }
        (Some(id), None)
    }

    /// Registers a placeholder for a buffer that could not be created, so
    /// that the identifier can be dropped like a buffer. Returns whether
    /// the identifier could be had; if not, nothing changes.
    pub fn create_buffer_error(&mut self, id_in: Option<Id>) -> (r: Option<Id>)
        requires
            old(self).wf(),
        ensures
            final(self).wf(),
            final(self).same_but_buffers(old(self)),
            final(self).tracker_indices == old(self).tracker_indices,
            final(self).buffer_slots == old(self).buffer_slots,
            r is Some <==> match id_in {
                Some(id) => old(self).buffers.accepts(id),
                None => old(self).buffers.has_room(),
            },
            match r {
                Some(id) => {
                    &&& id_in matches Some(i) ==> id == i
                    &&& old(self).buffers.status(id) is Unused
                    &&& final(self).buffers.status(id) is Invalid
                    &&& final(self).buffers.evolves_but(&old(self).buffers, id)
                },
                None => final(self).buffers == old(self).buffers,
            },
    {
        match self.buffers.prepare(id_in) {
            Ok(fid) => {
                let ghost reserved = *self;
                let id = self.buffers.assign_error(fid);
                proof {
                    assert forall|x: Id| (#[trigger] self.buffers.status(x)) is Valid implies self.owns_slot(
                        self.buffers.resource(x),
                        x,
                    ) by {
                        assert(self.buffers.status(x) == reserved.buffers.status(x));
                        assert(reserved.buffers.status(x) == old(self).buffers.status(x));
                        assert(old(self).owns_slot(old(self).buffers.resource(x), x));
                    }
                }
                Some(id)
            },
            Err(_) => None,
        }
    }

    /// Destroys the native buffer of a buffer. The buffer stays registered.
    /// Destroying a buffer twice, or one that does not exist, changes
    /// nothing the second time and is no error.
    pub fn buffer_destroy(&mut self, buffer_id: Id)
        requires
            old(self).wf(),
        ensures
            final(self).wf(),
            final(self).same_but_buffers(old(self)),
            final(self).buffers == old(self).buffers,
            final(self).tracker_indices == old(self).tracker_indices,
            !old(self).buffers.is_valid(buffer_id) ==> *final(self) == *old(self),
            old(self).buffers.is_valid(buffer_id) ==> final(self).buffer_slots@ == old(
                self,
            ).buffer_slots@.update(
                old(self).buffers.resource(buffer_id).tracker_index as int,
                BufferSlot { owner: Some(buffer_id), destroyed: true, mapped: false },
            ),
            final(self).buffer_slots@.len() == old(self).buffer_slots@.len(),
            forall|b: Buffer|
                #![trigger Self::buffer_alive(final(self).buffer_slots@, b)]
                Self::buffer_alive(final(self).buffer_slots@, b) <==> Self::buffer_alive(
                    old(self).buffer_slots@,
                    b,
                ) && !(old(self).buffers.is_valid(buffer_id) && old(self).buffers.resource(
                    buffer_id,
                ).tracker_index == b.tracker_index),
    {
        let tracker_index = match self.buffers.get(buffer_id) {
            Ok(buffer) => buffer.tracker_index,
            Err(_) => {
                return ;
            },
        };
        self.buffer_slots.set(
            tracker_index as usize,
            BufferSlot { owner: Some(buffer_id), destroyed: true, mapped: false },
        );
    }

    /// Drops a buffer or the placeholder of one: the identifier is retired.
    /// With a buffer its tracker index is given back and its slot is
    /// emptied, so that the native buffer is gone for whoever still holds a
    /// handle; no other slot and no other index is touched. A placeholder
    /// has no native buffer: slots and indices stay. Dropping what is not
    /// registered changes nothing.
    pub fn buffer_drop(&mut self, buffer_id: Id)
        requires
            old(self).wf(),
        ensures
            final(self).wf(),
            final(self).same_but_buffers(old(self)),
            final(self).buffers.same_but(&old(self).buffers, buffer_id),
            !final(self).buffers.is_registered(buffer_id),
            old(self).buffers.is_registered(buffer_id) ==> final(self).buffers.status(
                buffer_id,
            ) is Retired,
            !old(self).buffers.is_registered(buffer_id) ==> *final(self) == *old(self),
            old(self).buffers.is_valid(buffer_id) ==> !Self::buffer_alive(
                final(self).buffer_slots@,
                old(self).buffers.resource(buffer_id),
            ),
            if old(self).buffers.is_valid(buffer_id) {
                old(self).slot_given_back(
                    final(self),
                    old(self).buffers.resource(buffer_id).tracker_index,
                )
            } else {
                &&& final(self).buffer_slots == old(self).buffer_slots
                &&& final(self).tracker_indices == old(self).tracker_indices
            },
    {
        let tracker_index = match self.buffers.get(buffer_id) {
            Ok(buffer) => Some(buffer.tracker_index),
            Err(_) => None,
        };
        if !self.buffers.contains(buffer_id) {
            return ;
        }
        self.buffers.remove(buffer_id);
        match tracker_index {
            Some(index) => {
                self.buffer_slots.set(index as usize, BufferSlot { owner: None, destroyed: false, mapped: false });
                self.tracker_indices.free(index);
            },
            None => {},
        }
        proof {
            assert forall|x: Id| (#[trigger] self.buffers.status(x)) is Valid implies self.owns_slot(
                self.buffers.resource(x),
                x,
            ) by {
                assert(x != buffer_id);
                assert(self.buffers.status(x) == old(self).buffers.status(x));
                assert(old(self).owns_slot(old(self).buffers.resource(x), x));
            }
        }
    }
}

} // verus!
