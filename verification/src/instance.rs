//! The choice of backends and of an adapter, and the opening of a device
//! on an adapter.

use vstd::prelude::*;
use crate::global::Global;
use crate::id::{Backend, Id};
use crate::registry::Status;
use crate::resource::{device_supported, Device, Limits, Queue};
use crate::server::DeviceType;

verus! {

/// The set that holds only the backend that does nothing.
pub const BACKENDS_NOOP: u32 = 0x01;

/// The set that holds only Vulkan.
pub const BACKENDS_VULKAN: u32 = 0x02;

/// The set that holds only Metal.
pub const BACKENDS_METAL: u32 = 0x04;

/// The set that holds only Direct3D 12.
pub const BACKENDS_DX12: u32 = 0x08;

/// The set that holds only OpenGL.
pub const BACKENDS_GL: u32 = 0x10;

/// The set that holds only the WebGPU of a browser.
pub const BACKENDS_BROWSER_WEBGPU: u32 = 0x20;

/// The backends with first-tier support: Vulkan, Metal, Direct3D 12 and the
/// WebGPU of a browser.
pub const BACKENDS_PRIMARY: u32 = 0x2e;

/// Every backend there is.
pub const BACKENDS_ALL: u32 = 0x3f;

/// The set of backends that `wgpu_types::Backends::from_comma_list` makes
/// of a list of names.
pub uninterp spec fn backends_named(list: Seq<char>) -> u32;

/// `wgpu_types::Backends::from_comma_list`, with the set given by its bits.
/// The function splits the list at its commas and unites the backends
/// whose names it knows, so the set depends on the list alone and holds
/// nothing but backends.
#[verifier::external_body]
fn backends_from_comma_list(list: &str) -> (bits: u32)
    ensures
        bits == backends_named(list@),
        bits & !BACKENDS_ALL == 0,
{
    wgpu_types::Backends::from_comma_list(list).bits()
}

/// Chooses the backends to look for adapters on: those that the preference
/// names, or, without a preference, Direct3D 12 on Windows and the
/// first-tier backends elsewhere.
pub fn select_backends(preference: &str, on_windows: bool) -> (bits: u32)
    ensures
        bits == if preference@.len() == 0 {
            if on_windows {
                BACKENDS_DX12
            } else {
                BACKENDS_PRIMARY
            }
        } else {
            backends_named(preference@)
        },
        bits & !BACKENDS_ALL == 0,
{
    if preference.is_empty() {
        if on_windows {
            assert(0x08u32 & !0x3fu32 == 0) by (bit_vector);
            BACKENDS_DX12
        } else {
            assert(0x2eu32 & !0x3fu32 == 0) by (bit_vector);
            BACKENDS_PRIMARY
        }
    } else {
        backends_from_comma_list(preference)
    }
}

/// The set that holds only the given backend.
pub open spec fn backend_bit(backend: Backend) -> u32 {
    match backend {
        Backend::Noop => BACKENDS_NOOP,
        Backend::Vulkan => BACKENDS_VULKAN,
        Backend::Metal => BACKENDS_METAL,
        Backend::Dx12 => BACKENDS_DX12,
        Backend::Gl => BACKENDS_GL,
        Backend::BrowserWebGpu => BACKENDS_BROWSER_WEBGPU,
    }
}

/// Works out the set that holds only the given backend.
pub fn bit_of_backend(backend: Backend) -> (bit: u32)
    ensures
        bit == backend_bit(backend),
{
    match backend {
        Backend::Noop => BACKENDS_NOOP,
        Backend::Vulkan => BACKENDS_VULKAN,
        Backend::Metal => BACKENDS_METAL,
        Backend::Dx12 => BACKENDS_DX12,
        Backend::Gl => BACKENDS_GL,
        Backend::BrowserWebGpu => BACKENDS_BROWSER_WEBGPU,
    }
}

/// What is known of an adapter before it is opened.
#[derive(Clone, Copy, Debug, PartialEq, Eq, Structural)]
pub struct AdapterInfo {
    pub backend: Backend,
    pub device_type: DeviceType,
}

/// An adapter.
#[derive(Clone, Copy, Debug, PartialEq, Eq, Structural)]
pub struct Adapter {
    pub info: AdapterInfo,
    pub features: u64,
    pub limits: Limits,
}

/// What kind of adapter is preferred.
#[derive(Clone, Copy, Debug, PartialEq, Eq, Structural)]
pub enum PowerPreference {
    /// The adapter that is listed first.
    Unspecified,
    /// An adapter that saves power.
    LowPower,
    /// An adapter that is fast.
    HighPerformance,
}

/// What is asked of an adapter.
#[derive(Clone, Copy, Debug, PartialEq, Eq, Structural)]
pub struct RequestAdapterOptions {
    pub power_preference: PowerPreference,
    /// Whether only adapters that run on the CPU will do.
    pub force_fallback_adapter: bool,
}

/// Why no adapter was found.
#[derive(Clone, Copy, Debug, PartialEq, Eq, Structural)]
pub struct RequestAdapterError {
    /// The backends that were asked for.
    pub requested_backends: u32,
    /// Of these, the backends that have adapters, but none that runs on
    /// the CPU as was asked.
    pub no_fallback_backends: u32,
    /// Of these, the backends that have no adapter.
    pub no_adapter_backends: u32,
}

/// The rank of a kind of adapter; the lower, the better. Real hardware
/// comes first, in the order that the preference says, then adapters of
/// unknown kind, then virtual ones, then the CPU.
pub open spec fn order_of(device_type: DeviceType, prefer_integrated_gpu: bool) -> u8 {
    match device_type {
        DeviceType::DiscreteGpu => if prefer_integrated_gpu {
            2
        } else {
            1
        },
        DeviceType::IntegratedGpu => if prefer_integrated_gpu {
            1
        } else {
            2
        },
        DeviceType::Other => 3,
        DeviceType::VirtualGpu => 4,
        DeviceType::Cpu => 5,
    }
}

/// Works out the rank of a kind of adapter.
pub fn get_order(device_type: DeviceType, prefer_integrated_gpu: bool) -> (rank: u8)
    ensures
        rank == order_of(device_type, prefer_integrated_gpu),
{
    match device_type {
        DeviceType::DiscreteGpu => if prefer_integrated_gpu {
            2
        } else {
            1
        },
        DeviceType::IntegratedGpu => if prefer_integrated_gpu {
            1
        } else {
            2
        },
        DeviceType::Other => 3,
        DeviceType::VirtualGpu => 4,
        DeviceType::Cpu => 5,
    }
}

/// Whether an adapter can be chosen: its backend was asked for, and it
/// runs on the CPU if that was asked.
pub open spec fn eligible(info: AdapterInfo, desc: RequestAdapterOptions, backends: u32) -> bool {
    &&& backends & backend_bit(info.backend) != 0
    &&& desc.force_fallback_adapter ==> info.device_type == DeviceType::Cpu
}

/// The rank that adapters are compared by under the options: the rank of
/// their kind if there is a preference, else the same for all.
pub open spec fn rank_of(info: AdapterInfo, desc: RequestAdapterOptions) -> u8 {
    match desc.power_preference {
        PowerPreference::Unspecified => 0,
        PowerPreference::LowPower => order_of(info.device_type, true),
        PowerPreference::HighPerformance => order_of(info.device_type, false),
    }
}

/// The backends among those asked for of which the list holds an adapter.
pub open spec fn backends_with_adapters(adapters: Seq<AdapterInfo>, backends: u32, n: nat) -> u32
    decreases n,
{
    if n == 0 {
        0
    } else {
        backends_with_adapters(adapters, backends, (n - 1) as nat) | (backends & backend_bit(
            adapters[n - 1].backend,
        ))
    }
}

/// The backends among those asked for of which the list holds an adapter
/// that runs on the CPU.
pub open spec fn backends_with_fallback(adapters: Seq<AdapterInfo>, backends: u32, n: nat) -> u32
    decreases n,
{
    if n == 0 {
        0
    } else {
        backends_with_fallback(adapters, backends, (n - 1) as nat) | (if adapters[n
            - 1].device_type == DeviceType::Cpu {
            backends & backend_bit(adapters[n - 1].backend)
        } else {
            0
        })
    }
}

/// Whether the adapter at a place is the one to choose: it is eligible, no
/// eligible adapter has a better rank, and none of the same rank is listed
/// before it.
pub open spec fn is_best(
    adapters: Seq<AdapterInfo>,
    desc: RequestAdapterOptions,
    backends: u32,
    i: int,
) -> bool {
    &&& 0 <= i < adapters.len()
    &&& eligible(adapters[i], desc, backends)
    &&& forall|j: int|
        0 <= j < adapters.len() && eligible(#[trigger] adapters[j], desc, backends) ==> rank_of(
            adapters[j],
            desc,
        ) > rank_of(adapters[i], desc) || (rank_of(adapters[j], desc) == rank_of(adapters[i], desc)
            && j >= i)
}

/// Whether no adapter of a list is eligible.
pub open spec fn none_eligible(
    adapters: Seq<AdapterInfo>,
    desc: RequestAdapterOptions,
    backends: u32,
) -> bool {
    forall|j: int| 0 <= j < adapters.len() ==> !eligible(#[trigger] adapters[j], desc, backends)
}

/// Chooses an adapter among those that the active backends list: of the
/// eligible ones the one of the best rank, and of several of that rank the
/// one that is listed first. Fails exactly when none is eligible, and then
/// says which backends had no adapter and which had none that would do.
pub fn request_adapter(adapters: &Vec<AdapterInfo>, desc: &RequestAdapterOptions, backends: u32) -> (r:
    Result<usize, RequestAdapterError>)
    ensures
        match r {
            Ok(i) => is_best(adapters@, *desc, backends, i as int),
            Err(e) => {
                &&& none_eligible(adapters@, *desc, backends)
                &&& e.requested_backends == backends
                &&& e.no_adapter_backends == backends & !backends_with_adapters(
                    adapters@,
                    backends,
                    adapters@.len(),
                )
                &&& e.no_fallback_backends == if desc.force_fallback_adapter {
                    backends_with_adapters(adapters@, backends, adapters@.len())
                        & !backends_with_fallback(adapters@, backends, adapters@.len())
                } else {
                    0
                }
            },
        },
{
    let mut best: Option<usize> = None;
    let mut best_rank: u8 = 0;
    let mut with_adapters: u32 = 0;
    let mut with_fallback: u32 = 0;
    let mut j: usize = 0;
    while j < adapters.len()
        invariant
            j <= adapters@.len(),
            with_adapters == backends_with_adapters(adapters@, backends, j as nat),
            with_fallback == backends_with_fallback(adapters@, backends, j as nat),
            match best {
                Some(i) => {
                    &&& i < j
                    &&& eligible(adapters@[i as int], *desc, backends)
                    &&& best_rank == rank_of(adapters@[i as int], *desc)
                    &&& forall|k: int|
                        0 <= k < j && eligible(#[trigger] adapters@[k], *desc, backends) ==> rank_of(
                            adapters@[k],
                            *desc,
                        ) > best_rank || (rank_of(adapters@[k], *desc) == best_rank && k >= i)
                },
                None => forall|k: int|
                    0 <= k < j ==> !eligible(#[trigger] adapters@[k], *desc, backends),
            },
        decreases adapters@.len() - j,
    {
        let info = adapters[j];
        let bit = backends & bit_of_backend(info.backend);
        with_adapters = with_adapters | bit;
        let is_cpu = matches!(info.device_type, DeviceType::Cpu);
        if is_cpu {
            with_fallback = with_fallback | bit;
        } else {
            assert(with_fallback | 0 == with_fallback) by (bit_vector);
        }
        if bit != 0 && (!desc.force_fallback_adapter || is_cpu) {
            let rank = match desc.power_preference {
                PowerPreference::Unspecified => 0,
                PowerPreference::LowPower => get_order(info.device_type, true),
                PowerPreference::HighPerformance => get_order(info.device_type, false),
            };
            match best {
                Some(_) => {
                    if rank < best_rank {
                        best = Some(j);
                        best_rank = rank;
                    }
                },
                None => {
                    best = Some(j);
                    best_rank = rank;
                },
            }
        }
        j += 1;
    }
    match best {
        Some(i) => Ok(i),
        None => Err(
            RequestAdapterError {
                requested_backends: backends,
                no_adapter_backends: backends & !with_adapters,
                no_fallback_backends: if desc.force_fallback_adapter {
                    with_adapters & !with_fallback
                } else {
                    0
                },
            },
        ),
    }
}

/// What a device is opened with.
#[derive(Clone, Copy, Debug, PartialEq, Eq, Structural)]
pub struct DeviceDescriptor {
    pub required_features: u64,
    pub required_limits: Limits,
    pub indirect_validation: bool,
    pub discard_labels: bool,
}

/// Why a device could not be opened.
#[derive(Clone, Copy, Debug, PartialEq, Eq, Structural)]
pub enum RequestDeviceError {
    /// An identifier asked for cannot be used.
    Identity,
    /// The host could not create the native device that it wanted.
    NativeDevice,
    /// Features are required that the adapter lacks.
    UnsupportedFeature(u64),
    /// A limit is required that is better than what the adapter offers.
    LimitsExceeded,
    /// The runtime cannot work with such a device.
    Unsupported,
}

/// Whether the limits that are asked for are no better than those that are
/// allowed: no maximum is larger, and no minimum is smaller.
pub open spec fn limits_within(requested: Limits, allowed: Limits) -> bool {
    &&& requested.max_texture_dimension_1d <= allowed.max_texture_dimension_1d
    &&& requested.max_texture_dimension_2d <= allowed.max_texture_dimension_2d
    &&& requested.max_texture_dimension_3d <= allowed.max_texture_dimension_3d
    &&& requested.max_bind_groups <= allowed.max_bind_groups
    &&& requested.max_sampled_textures_per_shader_stage
        <= allowed.max_sampled_textures_per_shader_stage
    &&& requested.max_samplers_per_shader_stage <= allowed.max_samplers_per_shader_stage
    &&& requested.max_storage_buffers_per_shader_stage
        <= allowed.max_storage_buffers_per_shader_stage
    &&& requested.max_storage_textures_per_shader_stage
        <= allowed.max_storage_textures_per_shader_stage
    &&& requested.max_uniform_buffers_per_shader_stage
        <= allowed.max_uniform_buffers_per_shader_stage
    &&& requested.max_uniform_buffer_binding_size <= allowed.max_uniform_buffer_binding_size
    &&& requested.max_storage_buffer_binding_size <= allowed.max_storage_buffer_binding_size
    &&& requested.max_buffer_size <= allowed.max_buffer_size
    &&& requested.max_push_constant_size <= allowed.max_push_constant_size
    &&& requested.min_storage_buffer_offset_alignment >= allowed.min_storage_buffer_offset_alignment
    &&& requested.max_compute_workgroups_per_dimension
        <= allowed.max_compute_workgroups_per_dimension
    &&& requested.max_non_sampler_bindings <= allowed.max_non_sampler_bindings
}

/// Decides `limits_within`.
pub fn check_limits(requested: &Limits, allowed: &Limits) -> (ok: bool)
    ensures
        ok == limits_within(*requested, *allowed),
{
    requested.max_texture_dimension_1d <= allowed.max_texture_dimension_1d
        && requested.max_texture_dimension_2d <= allowed.max_texture_dimension_2d
        && requested.max_texture_dimension_3d <= allowed.max_texture_dimension_3d
        && requested.max_bind_groups <= allowed.max_bind_groups
        && requested.max_sampled_textures_per_shader_stage
        <= allowed.max_sampled_textures_per_shader_stage && requested.max_samplers_per_shader_stage
        <= allowed.max_samplers_per_shader_stage && requested.max_storage_buffers_per_shader_stage
        <= allowed.max_storage_buffers_per_shader_stage
        && requested.max_storage_textures_per_shader_stage
        <= allowed.max_storage_textures_per_shader_stage
        && requested.max_uniform_buffers_per_shader_stage
        <= allowed.max_uniform_buffers_per_shader_stage && requested.max_uniform_buffer_binding_size
        <= allowed.max_uniform_buffer_binding_size && requested.max_storage_buffer_binding_size
        <= allowed.max_storage_buffer_binding_size && requested.max_buffer_size
        <= allowed.max_buffer_size && requested.max_push_constant_size
        <= allowed.max_push_constant_size && requested.min_storage_buffer_offset_alignment
        >= allowed.min_storage_buffer_offset_alignment
        && requested.max_compute_workgroups_per_dimension
        <= allowed.max_compute_workgroups_per_dimension && requested.max_non_sampler_bindings
        <= allowed.max_non_sampler_bindings
}

/// The device that an adapter opens for a description.
pub open spec fn opened_device(desc: DeviceDescriptor) -> Device {
    Device {
        limits: desc.required_limits,
        features: desc.required_features,
        indirect_execution: true,
        indirect_validation: desc.indirect_validation,
        discard_labels: desc.discard_labels,
        valid: true,
    }
}

/// What keeps an adapter from opening a device, in the order the rules are
/// tried.
pub open spec fn open_check(adapter: Adapter, desc: DeviceDescriptor) -> Option<RequestDeviceError> {
    if desc.required_features & !adapter.features != 0 {
        Some(RequestDeviceError::UnsupportedFeature(desc.required_features & !adapter.features))
    } else if !limits_within(desc.required_limits, adapter.limits) {
        Some(RequestDeviceError::LimitsExceeded)
    } else if !device_supported(opened_device(desc)) {
        Some(RequestDeviceError::Unsupported)
    } else {
        None
    }
}

impl Global {
    /// Whether a table can hand out the identifier asked for, or one of
    /// its own choice where none is asked for.
    pub open spec fn can_place<T>(table: &crate::registry::Registry<T>, id_in: Option<Id>) -> bool {
        match id_in {
            Some(id) => table.accepts(id),
            None => table.has_room(),
        }
    }

    /// Opens a device on an adapter, with the features and limits that are
    /// required and no others, and registers the device and its queue.
    /// Fails, and changes nothing, when the adapter lacks a required
    /// feature or offers less than a required limit, when the runtime
    /// cannot work with the device, and when one of the two identifiers
    /// cannot be had.
    pub fn adapter_request_device(
        &mut self,
        adapter: &Adapter,
        desc: &DeviceDescriptor,
        id_in: Option<Id>,
        queue_id_in: Option<Id>,
    ) -> (r: Result<(Id, Id), RequestDeviceError>)
        requires
            old(self).wf(),
        ensures
            final(self).wf(),
            final(self).same_but_devices_and_queues(old(self)),
            match r {
                Ok((id, queue_id)) => {
                    &&& open_check(*adapter, *desc) is None
                    &&& id_in matches Some(i) ==> id == i
                    &&& queue_id_in matches Some(q) ==> queue_id == q
                    &&& old(self).devices.status(id) is Unused
                    &&& old(self).queues.status(queue_id) is Unused
                    &&& final(self).devices.status(id) == Status::Valid(opened_device(*desc))
                    &&& final(self).devices.evolves_but(&old(self).devices, id)
                    &&& final(self).queues.status(queue_id) == Status::Valid(
                        Queue { id: queue_id, device: id },
                    )
                    &&& final(self).queues.evolves_but(&old(self).queues, queue_id)
                },
                Err(e) => {
                    &&& *final(self) == *old(self)
                    &&& e == match open_check(*adapter, *desc) {
                        Some(x) => x,
                        None => RequestDeviceError::Identity,
                    }
                },
            },
            r is Ok <==> open_check(*adapter, *desc) is None && Self::can_place(
                &old(self).devices,
                id_in,
            ) && Self::can_place(&old(self).queues, queue_id_in),
    {
        let missing = desc.required_features & !adapter.features;
        if missing != 0 {
            return Err(RequestDeviceError::UnsupportedFeature(missing));
        }
        if !check_limits(&desc.required_limits, &adapter.limits) {
            return Err(RequestDeviceError::LimitsExceeded);
        }
        let device = Device {
            limits: desc.required_limits,
            features: desc.required_features,
            indirect_execution: true,
            indirect_validation: desc.indirect_validation,
            discard_labels: desc.discard_labels,
            valid: true,
        };
        if !crate::resource::is_device_supported(&device) {
            return Err(RequestDeviceError::Unsupported);
        }
        let device_free = match id_in {
            Some(id) => self.devices.can_accept(id),
            None => self.devices.can_prepare(),
        };
        let queue_free = match queue_id_in {
            Some(id) => self.queues.can_accept(id),
            None => self.queues.can_prepare(),
        };
        if !device_free || !queue_free {
            return Err(RequestDeviceError::Identity);
        }
        let id = match self.create_device(device, id_in) {
            Some(id) => id,
            None => {
                return Err(RequestDeviceError::Identity);
            },
        };
        match self.create_queue(id, queue_id_in) {
            Some(queue_id) => Ok((id, queue_id)),
            None => Err(RequestDeviceError::Identity),
        }
    }

    /// Whether everything but the devices and the queues is as in `other`.
    pub open spec fn same_but_devices_and_queues(&self, other: &Self) -> bool {
        &&& self.buffers == other.buffers
        &&& self.textures == other.textures
        &&& self.bind_group_layouts == other.bind_group_layouts
        &&& self.pipeline_layouts == other.pipeline_layouts
        &&& self.bind_groups == other.bind_groups
        &&& self.compute_pipelines == other.compute_pipelines
        &&& self.command_encoders == other.command_encoders
        &&& self.tracker_indices == other.tracker_indices
        &&& self.buffer_slots == other.buffer_slots
        &&& self.submission_index == other.submission_index
    }

    /// Marks a device as destroyed: whatever is asked of it afterwards
    /// fails with a lost device. A device that does not exist, or is
    /// destroyed already, is left as it is.
    pub fn device_destroy(&mut self, device_id: Id)
        requires
            old(self).wf(),
        ensures
            final(self).wf(),
            final(self).same_but_devices(old(self)),
            final(self).devices.same_but(&old(self).devices, device_id),
            old(self).devices.is_valid(device_id) ==> final(self).devices.status(device_id)
                == Status::Valid(Device { valid: false, ..old(self).devices.resource(device_id) }),
            !old(self).devices.is_valid(device_id) ==> final(self).devices == old(self).devices,
    {
        let device = match self.devices.get(device_id) {
            Ok(device) => *device,
            Err(_) => {
                return ;
            },
        };
        self.devices.replace(device_id, Device { valid: false, ..device });
        proof {
            assert forall|x: Id| (#[trigger] self.devices.status(x)) is Valid implies device_supported(
                self.devices.resource(x),
            ) by {
                if x != device_id {
                    assert(self.devices.status(x) == old(self).devices.status(x));
                } else {
                    assert(old(self).devices.status(x) is Valid);
                }
            }
        }
    }

    /// Drops a device. Dropping what is not registered changes nothing.
    pub fn device_drop(&mut self, device_id: Id)
        requires
            old(self).wf(),
        ensures
            final(self).wf(),
            final(self).same_but_devices(old(self)),
            final(self).devices.same_but(&old(self).devices, device_id),
            !final(self).devices.is_registered(device_id),
            old(self).devices.is_registered(device_id) ==> final(self).devices.status(
                device_id,
            ) is Retired,
    {
        self.devices.remove(device_id);
        proof {
            assert forall|x: Id| (#[trigger] self.devices.status(x)) is Valid implies device_supported(
                self.devices.resource(x),
            ) by {
                assert(x != device_id);
                assert(self.devices.status(x) == old(self).devices.status(x));
            }
        }
    }
}

} // verus!
