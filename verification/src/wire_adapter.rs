//! The wire form of what is said of adapters and devices: the limits, the
//! description that a device is opened with, and what a client is told of
//! an adapter. The layout goes on from that of the device actions.

use vstd::prelude::*;
use vstd::bytes::*;
use crate::id::{Backend, Id};
use crate::instance::DeviceDescriptor;
use crate::resource::Limits;
use crate::server::DeviceType;
use crate::wire::{
    backend_code, holds, lemma_id_round_trip, lemma_string_round_trip, lemma_u32_round_trip,
    lemma_u64_round_trip, lemma_u8_round_trip, p_id, p_string, p_u32, p_u64, p_u8, read_id,
    read_string, read_u32, read_u64, read_u8, ser_id, ser_string, ser_u32, ser_u64, ser_u8,
    write_id, write_string, write_u32, write_u64, write_u8,
};

verus! {

/// The number that four bytes at a place spell.
pub open spec fn u32_at(bytes: Seq<u8>, pos: int) -> u32 {
    spec_u32_from_le_bytes(bytes.subrange(pos, pos + 4))
}

/// The number that eight bytes at a place spell.
pub open spec fn u64_at(bytes: Seq<u8>, pos: int) -> u64 {
    spec_u64_from_le_bytes(bytes.subrange(pos, pos + 8))
}

/// Bytes that hold a whole hold each part of it where the part stands.
pub proof fn lemma_part_round_trip(
    bytes: Seq<u8>,
    pos: int,
    whole: Seq<u8>,
    offset: int,
    part: Seq<u8>,
)
    requires
        holds(bytes, pos, whole),
        0 <= offset,
        offset + part.len() <= whole.len(),
        whole.subrange(offset, offset + part.len()) == part,
    ensures
        holds(bytes, pos + offset, part),
{
    let found = bytes.subrange(pos + offset, pos + offset + part.len());
    assert forall|i: int| 0 <= i < part.len() implies found[i] == part[i] by {
        assert(bytes.subrange(pos, pos + whole.len())[offset + i] == whole[offset + i]);
        assert(whole.subrange(offset, offset + part.len())[i] == whole[offset + i]);
    }
    assert(found =~= part);
}

// Limits: each limit in its order, 68 bytes in all.
pub open spec fn ser_limits(l: Limits) -> Seq<u8> {
    ser_u32(l.max_texture_dimension_1d) + ser_u32(l.max_texture_dimension_2d)
        + ser_u32(l.max_texture_dimension_3d) + ser_u32(l.max_bind_groups)
        + ser_u32(l.max_sampled_textures_per_shader_stage)
        + ser_u32(l.max_samplers_per_shader_stage)
        + ser_u32(l.max_storage_buffers_per_shader_stage)
        + ser_u32(l.max_storage_textures_per_shader_stage)
        + ser_u32(l.max_uniform_buffers_per_shader_stage)
        + ser_u32(l.max_uniform_buffer_binding_size)
        + ser_u32(l.max_storage_buffer_binding_size) + ser_u64(l.max_buffer_size)
        + ser_u32(l.max_push_constant_size) + ser_u32(l.min_storage_buffer_offset_alignment)
        + ser_u32(l.max_compute_workgroups_per_dimension) + ser_u32(l.max_non_sampler_bindings)
}

pub open spec fn p_limits(bytes: Seq<u8>, pos: int) -> Option<(Limits, int)> {
    if 0 <= pos && pos + 68 <= bytes.len() {
        Some(
            (
                Limits {
                    max_texture_dimension_1d: u32_at(bytes, pos + 0),
                    max_texture_dimension_2d: u32_at(bytes, pos + 4),
                    max_texture_dimension_3d: u32_at(bytes, pos + 8),
                    max_bind_groups: u32_at(bytes, pos + 12),
                    max_sampled_textures_per_shader_stage: u32_at(bytes, pos + 16),
                    max_samplers_per_shader_stage: u32_at(bytes, pos + 20),
                    max_storage_buffers_per_shader_stage: u32_at(bytes, pos + 24),
                    max_storage_textures_per_shader_stage: u32_at(bytes, pos + 28),
                    max_uniform_buffers_per_shader_stage: u32_at(bytes, pos + 32),
                    max_uniform_buffer_binding_size: u32_at(bytes, pos + 36),
                    max_storage_buffer_binding_size: u32_at(bytes, pos + 40),
                    max_buffer_size: u64_at(bytes, pos + 44),
                    max_push_constant_size: u32_at(bytes, pos + 52),
                    min_storage_buffer_offset_alignment: u32_at(bytes, pos + 56),
                    max_compute_workgroups_per_dimension: u32_at(bytes, pos + 60),
                    max_non_sampler_bindings: u32_at(bytes, pos + 64),
                },
                pos + 68,
            ),
        )
    } else {
        None
    }
}

pub proof fn lemma_limits_round_trip(bytes: Seq<u8>, pos: int, l: Limits)
    requires
        holds(bytes, pos, ser_limits(l)),
    ensures
        p_limits(bytes, pos) == Some((l, pos + 68)),
        ser_limits(l).len() == 68,
{
    lemma_auto_spec_u32_to_from_le_bytes();
    lemma_auto_spec_u64_to_from_le_bytes();
    let whole = ser_limits(l);
    assert(whole.subrange(0, 4) =~= ser_u32(l.max_texture_dimension_1d));
    lemma_part_round_trip(bytes, pos, whole, 0, ser_u32(l.max_texture_dimension_1d));
    assert(whole.subrange(4, 8) =~= ser_u32(l.max_texture_dimension_2d));
    lemma_part_round_trip(bytes, pos, whole, 4, ser_u32(l.max_texture_dimension_2d));
    assert(whole.subrange(8, 12) =~= ser_u32(l.max_texture_dimension_3d));
    lemma_part_round_trip(bytes, pos, whole, 8, ser_u32(l.max_texture_dimension_3d));
    assert(whole.subrange(12, 16) =~= ser_u32(l.max_bind_groups));
    lemma_part_round_trip(bytes, pos, whole, 12, ser_u32(l.max_bind_groups));
    assert(whole.subrange(16, 20) =~= ser_u32(l.max_sampled_textures_per_shader_stage));
    lemma_part_round_trip(bytes, pos, whole, 16, ser_u32(l.max_sampled_textures_per_shader_stage));
    assert(whole.subrange(20, 24) =~= ser_u32(l.max_samplers_per_shader_stage));
    lemma_part_round_trip(bytes, pos, whole, 20, ser_u32(l.max_samplers_per_shader_stage));
    assert(whole.subrange(24, 28) =~= ser_u32(l.max_storage_buffers_per_shader_stage));
    lemma_part_round_trip(bytes, pos, whole, 24, ser_u32(l.max_storage_buffers_per_shader_stage));
    assert(whole.subrange(28, 32) =~= ser_u32(l.max_storage_textures_per_shader_stage));
    lemma_part_round_trip(bytes, pos, whole, 28, ser_u32(l.max_storage_textures_per_shader_stage));
    assert(whole.subrange(32, 36) =~= ser_u32(l.max_uniform_buffers_per_shader_stage));
    lemma_part_round_trip(bytes, pos, whole, 32, ser_u32(l.max_uniform_buffers_per_shader_stage));
    assert(whole.subrange(36, 40) =~= ser_u32(l.max_uniform_buffer_binding_size));
    lemma_part_round_trip(bytes, pos, whole, 36, ser_u32(l.max_uniform_buffer_binding_size));
    assert(whole.subrange(40, 44) =~= ser_u32(l.max_storage_buffer_binding_size));
    lemma_part_round_trip(bytes, pos, whole, 40, ser_u32(l.max_storage_buffer_binding_size));
    assert(whole.subrange(44, 52) =~= ser_u64(l.max_buffer_size));
    lemma_part_round_trip(bytes, pos, whole, 44, ser_u64(l.max_buffer_size));
    assert(whole.subrange(52, 56) =~= ser_u32(l.max_push_constant_size));
    lemma_part_round_trip(bytes, pos, whole, 52, ser_u32(l.max_push_constant_size));
    assert(whole.subrange(56, 60) =~= ser_u32(l.min_storage_buffer_offset_alignment));
    lemma_part_round_trip(bytes, pos, whole, 56, ser_u32(l.min_storage_buffer_offset_alignment));
    assert(whole.subrange(60, 64) =~= ser_u32(l.max_compute_workgroups_per_dimension));
    lemma_part_round_trip(bytes, pos, whole, 60, ser_u32(l.max_compute_workgroups_per_dimension));
    assert(whole.subrange(64, 68) =~= ser_u32(l.max_non_sampler_bindings));
    lemma_part_round_trip(bytes, pos, whole, 64, ser_u32(l.max_non_sampler_bindings));
}

/// Appends the bytes of limits.
pub fn write_limits(out: &mut Vec<u8>, l: &Limits)
    ensures
        final(out)@ == old(out)@ + ser_limits(*l),
{
    write_u32(out, l.max_texture_dimension_1d);
    write_u32(out, l.max_texture_dimension_2d);
    write_u32(out, l.max_texture_dimension_3d);
    write_u32(out, l.max_bind_groups);
    write_u32(out, l.max_sampled_textures_per_shader_stage);
    write_u32(out, l.max_samplers_per_shader_stage);
    write_u32(out, l.max_storage_buffers_per_shader_stage);
    write_u32(out, l.max_storage_textures_per_shader_stage);
    write_u32(out, l.max_uniform_buffers_per_shader_stage);
    write_u32(out, l.max_uniform_buffer_binding_size);
    write_u32(out, l.max_storage_buffer_binding_size);
    write_u64(out, l.max_buffer_size);
    write_u32(out, l.max_push_constant_size);
    write_u32(out, l.min_storage_buffer_offset_alignment);
    write_u32(out, l.max_compute_workgroups_per_dimension);
    write_u32(out, l.max_non_sampler_bindings);
    assert(out@ =~= old(out)@ + ser_limits(*l));
}

/// Reads limits at a place in bytes.
pub fn read_limits(bytes: &[u8], pos: usize) -> (r: Option<(Limits, usize)>)
    ensures
        match r {
            Some((v, next)) => p_limits(bytes@, pos as int) == Some((v, next as int)),
            None => p_limits(bytes@, pos as int) is None,
        },
{
    if pos > bytes.len() || bytes.len() - pos < 68 {
        return None;
    }
    let (max_texture_dimension_1d, p1) = match read_u32(bytes, pos) {
        Some(x) => x,
        None => {
            return None;
        },
    };
    let (max_texture_dimension_2d, p2) = match read_u32(bytes, p1) {
        Some(x) => x,
        None => {
            return None;
        },
    };
    let (max_texture_dimension_3d, p3) = match read_u32(bytes, p2) {
        Some(x) => x,
        None => {
            return None;
        },
    };
    let (max_bind_groups, p4) = match read_u32(bytes, p3) {
        Some(x) => x,
        None => {
            return None;
        },
    };
    let (max_sampled_textures_per_shader_stage, p5) = match read_u32(bytes, p4) {
        Some(x) => x,
        None => {
            return None;
        },
    };
    let (max_samplers_per_shader_stage, p6) = match read_u32(bytes, p5) {
        Some(x) => x,
        None => {
            return None;
        },
    };
    let (max_storage_buffers_per_shader_stage, p7) = match read_u32(bytes, p6) {
        Some(x) => x,
        None => {
            return None;
        },
    };
    let (max_storage_textures_per_shader_stage, p8) = match read_u32(bytes, p7) {
        Some(x) => x,
        None => {
            return None;
        },
    };
    let (max_uniform_buffers_per_shader_stage, p9) = match read_u32(bytes, p8) {
        Some(x) => x,
        None => {
            return None;
        },
    };
    let (max_uniform_buffer_binding_size, p10) = match read_u32(bytes, p9) {
        Some(x) => x,
        None => {
            return None;
        },
    };
    let (max_storage_buffer_binding_size, p11) = match read_u32(bytes, p10) {
        Some(x) => x,
        None => {
            return None;
        },
    };
    let (max_buffer_size, p12) = match read_u64(bytes, p11) {
        Some(x) => x,
        None => {
            return None;
        },
    };
    let (max_push_constant_size, p13) = match read_u32(bytes, p12) {
        Some(x) => x,
        None => {
            return None;
        },
    };
    let (min_storage_buffer_offset_alignment, p14) = match read_u32(bytes, p13) {
        Some(x) => x,
        None => {
            return None;
        },
    };
    let (max_compute_workgroups_per_dimension, p15) = match read_u32(bytes, p14) {
        Some(x) => x,
        None => {
            return None;
        },
    };
    let (max_non_sampler_bindings, p16) = match read_u32(bytes, p15) {
        Some(x) => x,
        None => {
            return None;
        },
    };
    Some(
        (
            Limits {
            max_texture_dimension_1d,
            max_texture_dimension_2d,
            max_texture_dimension_3d,
            max_bind_groups,
            max_sampled_textures_per_shader_stage,
            max_samplers_per_shader_stage,
            max_storage_buffers_per_shader_stage,
            max_storage_textures_per_shader_stage,
            max_uniform_buffers_per_shader_stage,
            max_uniform_buffer_binding_size,
            max_storage_buffer_binding_size,
            max_buffer_size,
            max_push_constant_size,
            min_storage_buffer_offset_alignment,
            max_compute_workgroups_per_dimension,
            max_non_sampler_bindings,
            },
            p16,
        ),
    )
}

// Switches: one byte, one for on and zero for off.
pub open spec fn ser_bool(b: bool) -> Seq<u8> {
    ser_u8(if b { 1u8 } else { 0u8 })
}

pub open spec fn p_bool(bytes: Seq<u8>, pos: int) -> Option<(bool, int)> {
    match p_u8(bytes, pos) {
        None => None,
        Some((code, a)) => if code == 0 {
            Some((false, a))
        } else if code == 1 {
            Some((true, a))
        } else {
            None
        },
    }
}

pub proof fn lemma_bool_round_trip(bytes: Seq<u8>, pos: int, b: bool)
    requires
        holds(bytes, pos, ser_bool(b)),
    ensures
        p_bool(bytes, pos) == Some((b, pos + 1)),
{
    lemma_u8_round_trip(bytes, pos, if b { 1u8 } else { 0u8 });
}

fn write_bool(out: &mut Vec<u8>, b: bool)
    ensures
        final(out)@ == old(out)@ + ser_bool(b),
{
    write_u8(out, if b { 1 } else { 0 });
}

fn read_bool(bytes: &[u8], pos: usize) -> (r: Option<(bool, usize)>)
    ensures
        match r {
            Some((v, next)) => p_bool(bytes@, pos as int) == Some((v, next as int)),
            None => p_bool(bytes@, pos as int) is None,
        },
{
    match read_u8(bytes, pos) {
        Some((code, a)) => {
            if code == 0 {
                Some((false, a))
            } else if code == 1 {
                Some((true, a))
            } else {
                None
            }
        },
        None => None,
    }
}

// What a device is opened with: the features, the limits, and the two
// switches.
pub open spec fn ser_device_descriptor(d: DeviceDescriptor) -> Seq<u8> {
    ser_u64(d.required_features) + ser_limits(d.required_limits) + ser_bool(d.indirect_validation)
        + ser_bool(d.discard_labels)
}

pub open spec fn p_device_descriptor(bytes: Seq<u8>, pos: int) -> Option<(DeviceDescriptor, int)> {
    match p_u64(bytes, pos) {
        None => None,
        Some((required_features, a)) => match p_limits(bytes, a) {
            None => None,
            Some((required_limits, b)) => match p_bool(bytes, b) {
                None => None,
                Some((indirect_validation, c)) => match p_bool(bytes, c) {
                    None => None,
                    Some((discard_labels, d)) => Some(
                        (
                            DeviceDescriptor {
                                required_features,
                                required_limits,
                                indirect_validation,
                                discard_labels,
                            },
                            d,
                        ),
                    ),
                },
            },
        },
    }
}

/// Laying the description of a device out in bytes and reading the bytes
/// back gives the same description, wherever the bytes stand.
pub proof fn law_device_descriptor_round_trip(bytes: Seq<u8>, pos: int, d: DeviceDescriptor)
    requires
        holds(bytes, pos, ser_device_descriptor(d)),
    ensures
        p_device_descriptor(bytes, pos) == Some((d, pos + ser_device_descriptor(d).len())),
{
    lemma_auto_spec_u64_to_from_le_bytes();
    let f = ser_u64(d.required_features);
    let l = ser_limits(d.required_limits);
    let v = ser_bool(d.indirect_validation);
    crate::wire::lemma_holds_both(bytes, pos, f + l + v, ser_bool(d.discard_labels));
    crate::wire::lemma_holds_both(bytes, pos, f + l, v);
    crate::wire::lemma_holds_both(bytes, pos, f, l);
    lemma_u64_round_trip(bytes, pos, d.required_features);
    lemma_limits_round_trip(bytes, pos + 8, d.required_limits);
    lemma_bool_round_trip(bytes, pos + 76, d.indirect_validation);
    lemma_bool_round_trip(bytes, pos + 77, d.discard_labels);
}

/// Appends the bytes of the description of a device.
pub fn write_device_descriptor(out: &mut Vec<u8>, d: &DeviceDescriptor)
    ensures
        final(out)@ == old(out)@ + ser_device_descriptor(*d),
{
    write_u64(out, d.required_features);
    write_limits(out, &d.required_limits);
    write_bool(out, d.indirect_validation);
    write_bool(out, d.discard_labels);
    assert(out@ =~= old(out)@ + ser_device_descriptor(*d));
}

/// Reads the description of a device at a place in bytes. Gives the
/// description and the place after it, or nothing if none stands there.
pub fn read_device_descriptor(bytes: &[u8], pos: usize) -> (r: Option<(DeviceDescriptor, usize)>)
    ensures
        match r {
            Some((v, next)) => p_device_descriptor(bytes@, pos as int) == Some((v, next as int)),
            None => p_device_descriptor(bytes@, pos as int) is None,
        },
{
    let (required_features, a) = match read_u64(bytes, pos) {
        Some(x) => x,
        None => {
            return None;
        },
    };
    let (required_limits, b) = match read_limits(bytes, a) {
        Some(x) => x,
        None => {
            return None;
        },
    };
    let (indirect_validation, c) = match read_bool(bytes, b) {
        Some(x) => x,
        None => {
            return None;
        },
    };
    match read_bool(bytes, c) {
        Some((discard_labels, d)) => Some(
            (
                DeviceDescriptor {
                    required_features,
                    required_limits,
                    indirect_validation,
                    discard_labels,
                },
                d,
            ),
        ),
        None => None,
    }
}

/// What a client is told of an adapter.
pub struct AdapterInformation {
    pub id: Id,
    pub limits: Limits,
    pub features: u64,
    pub name: String,
    pub vendor: u32,
    pub device: u32,
    pub device_type: DeviceType,
    pub driver: String,
    pub driver_info: String,
    pub backend: Backend,
    pub support_use_external_texture_in_swap_chain: bool,
}

/// What a client is told of an adapter, with the texts as their
/// characters.
pub struct AdapterInformationView {
    pub id: Id,
    pub limits: Limits,
    pub features: u64,
    pub name: Seq<char>,
    pub vendor: u32,
    pub device: u32,
    pub device_type: DeviceType,
    pub driver: Seq<char>,
    pub driver_info: Seq<char>,
    pub backend: Backend,
    pub support_use_external_texture_in_swap_chain: bool,
}

impl AdapterInformation {
    pub open spec fn view(&self) -> AdapterInformationView {
        AdapterInformationView {
            id: self.id,
            limits: self.limits,
            features: self.features,
            name: self.name@,
            vendor: self.vendor,
            device: self.device,
            device_type: self.device_type,
            driver: self.driver@,
            driver_info: self.driver_info@,
            backend: self.backend,
            support_use_external_texture_in_swap_chain: self.support_use_external_texture_in_swap_chain,
        }
    }
}

/// The number that a kind of adapter goes by on the wire.
pub open spec fn device_type_code(t: DeviceType) -> u32 {
    match t {
        DeviceType::Other => 0,
        DeviceType::IntegratedGpu => 1,
        DeviceType::DiscreteGpu => 2,
        DeviceType::VirtualGpu => 3,
        DeviceType::Cpu => 4,
    }
}

/// The number that a backend goes by in what is told of an adapter.
pub open spec fn backend_tag(b: Backend) -> u32 {
    backend_code(b) as u32
}

// What a client is told of an adapter: each field in its order.
pub open spec fn ser_adapter_information(a: AdapterInformationView) -> Seq<u8> {
    ser_id(a.id) + ser_limits(a.limits) + ser_u64(a.features) + ser_string(a.name) + ser_u32(
        a.vendor,
    ) + ser_u32(a.device) + ser_u32(device_type_code(a.device_type)) + ser_string(a.driver)
        + ser_string(a.driver_info) + ser_u32(backend_tag(a.backend)) + ser_bool(
        a.support_use_external_texture_in_swap_chain,
    )
}

/// Bytes that were appended to in two steps were appended to by both
/// parts in a row.
proof fn lemma_appended(start: Seq<u8>, acc: Seq<u8>, part: Seq<u8>, before: Seq<u8>, after: Seq<u8>)
    requires
        before == start + acc,
        after == before + part,
    ensures
        after == start + (acc + part),
{
    assert(after =~= start + (acc + part));
}

/// Appends the bytes of what a client is told of an adapter.
pub fn write_adapter_information(out: &mut Vec<u8>, a: &AdapterInformation)
    ensures
        final(out)@ == old(out)@ + ser_adapter_information(a@),
{
    let ghost start = out@;
    write_id(out, a.id);
    let ghost mut acc = ser_id(a.id);
    let ghost before = out@;
    write_limits(out, &a.limits);
    proof {
        lemma_appended(start, acc, ser_limits(a.limits), before, out@);
        acc = acc + ser_limits(a.limits);
    }
    let ghost before = out@;
    write_u64(out, a.features);
    proof {
        lemma_appended(start, acc, ser_u64(a.features), before, out@);
        acc = acc + ser_u64(a.features);
    }
    let ghost before = out@;
    write_string(out, a.name.as_str());
    proof {
        lemma_appended(start, acc, ser_string(a.name@), before, out@);
        acc = acc + ser_string(a.name@);
    }
    let ghost before = out@;
    write_u32(out, a.vendor);
    proof {
        lemma_appended(start, acc, ser_u32(a.vendor), before, out@);
        acc = acc + ser_u32(a.vendor);
    }
    let ghost before = out@;
    write_u32(out, a.device);
    proof {
        lemma_appended(start, acc, ser_u32(a.device), before, out@);
        acc = acc + ser_u32(a.device);
    }
    let ghost before = out@;
    write_u32(out, code_of_device_type(a.device_type));
    proof {
        lemma_appended(start, acc, ser_u32(device_type_code(a.device_type)), before, out@);
        acc = acc + ser_u32(device_type_code(a.device_type));
    }
    let ghost before = out@;
    write_string(out, a.driver.as_str());
    proof {
        lemma_appended(start, acc, ser_string(a.driver@), before, out@);
        acc = acc + ser_string(a.driver@);
    }
    let ghost before = out@;
    write_string(out, a.driver_info.as_str());
    proof {
        lemma_appended(start, acc, ser_string(a.driver_info@), before, out@);
        acc = acc + ser_string(a.driver_info@);
    }
    let ghost before = out@;
    write_u32(out, tag_of_backend(a.backend));
    proof {
        lemma_appended(start, acc, ser_u32(backend_tag(a.backend)), before, out@);
        acc = acc + ser_u32(backend_tag(a.backend));
    }
    let ghost before = out@;
    write_bool(out, a.support_use_external_texture_in_swap_chain);
    proof {
        lemma_appended(start, acc, ser_bool(a.support_use_external_texture_in_swap_chain), before, out@);
        acc = acc + ser_bool(a.support_use_external_texture_in_swap_chain);
    }
}

fn code_of_device_type(t: DeviceType) -> (code: u32)
    ensures
        code == device_type_code(t),
{
    match t {
        DeviceType::Other => 0,
        DeviceType::IntegratedGpu => 1,
        DeviceType::DiscreteGpu => 2,
        DeviceType::VirtualGpu => 3,
        DeviceType::Cpu => 4,
    }
}

fn tag_of_backend(b: Backend) -> (tag: u32)
    ensures
        tag == backend_tag(b),
{
    match b {
        Backend::Noop => 0,
        Backend::Vulkan => 1,
        Backend::Metal => 2,
        Backend::Dx12 => 3,
        Backend::Gl => 4,
        Backend::BrowserWebGpu => 5,
    }
}

/// The kind of adapter that a number stands for on the wire.
pub open spec fn device_type_of(code: u32) -> Option<DeviceType> {
    if code == 0 {
        Some(DeviceType::Other)
    } else if code == 1 {
        Some(DeviceType::IntegratedGpu)
    } else if code == 2 {
        Some(DeviceType::DiscreteGpu)
    } else if code == 3 {
        Some(DeviceType::VirtualGpu)
    } else if code == 4 {
        Some(DeviceType::Cpu)
    } else {
        None
    }
}

/// The backend that a number stands for in what is told of an adapter.
pub open spec fn backend_of_tag(tag: u32) -> Option<Backend> {
    if tag == 0 {
        Some(Backend::Noop)
    } else if tag == 1 {
        Some(Backend::Vulkan)
    } else if tag == 2 {
        Some(Backend::Metal)
    } else if tag == 3 {
        Some(Backend::Dx12)
    } else if tag == 4 {
        Some(Backend::Gl)
    } else if tag == 5 {
        Some(Backend::BrowserWebGpu)
    } else {
        None
    }
}

/// What stands at the start of what is told of an adapter: the
/// identifier, the limits, the features and the name.
pub struct AdapterHead {
    pub id: Id,
    pub limits: Limits,
    pub features: u64,
    pub name: Seq<char>,
}

pub open spec fn ser_adapter_head(h: AdapterHead) -> Seq<u8> {
    ser_id(h.id) + ser_limits(h.limits) + ser_u64(h.features) + ser_string(h.name)
}

pub open spec fn p_adapter_head(bytes: Seq<u8>, pos: int) -> Option<(AdapterHead, int)> {
    match p_id(bytes, pos) {
        None => None,
        Some((id, a)) => match p_limits(bytes, a) {
            None => None,
            Some((limits, b)) => match p_u64(bytes, b) {
                None => None,
                Some((features, c)) => match p_string(bytes, c) {
                    None => None,
                    Some((name, d)) => Some((AdapterHead { id, limits, features, name }, d)),
                },
            },
        },
    }
}

proof fn lemma_adapter_head_round_trip(bytes: Seq<u8>, pos: int, h: AdapterHead)
    requires
        vstd::utf8::encode_utf8(h.name).len() <= u64::MAX,
        holds(bytes, pos, ser_adapter_head(h)),
    ensures
        p_adapter_head(bytes, pos) == Some((h, pos + ser_adapter_head(h).len())),
{
    lemma_auto_spec_u64_to_from_le_bytes();
    let i = ser_id(h.id);
    let l = ser_limits(h.limits);
    let f = ser_u64(h.features);
    crate::wire::lemma_holds_both(bytes, pos, i + l + f, ser_string(h.name));
    crate::wire::lemma_holds_both(bytes, pos, i + l, f);
    crate::wire::lemma_holds_both(bytes, pos, i, l);
    lemma_id_round_trip(bytes, pos, h.id);
    lemma_limits_round_trip(bytes, pos + 9, h.limits);
    lemma_u64_round_trip(bytes, pos + 77, h.features);
    lemma_string_round_trip(bytes, pos + 85, h.name);
}

/// What stands at the end of what is told of an adapter: from the vendor
/// on.
pub struct AdapterTail {
    pub vendor: u32,
    pub device: u32,
    pub device_type: DeviceType,
    pub driver: Seq<char>,
    pub driver_info: Seq<char>,
    pub backend: Backend,
    pub support_use_external_texture_in_swap_chain: bool,
}

pub open spec fn ser_adapter_tail(t: AdapterTail) -> Seq<u8> {
    ser_u32(t.vendor) + ser_u32(t.device) + ser_u32(device_type_code(t.device_type)) + ser_string(
        t.driver,
    ) + ser_string(t.driver_info) + ser_u32(backend_tag(t.backend)) + ser_bool(
        t.support_use_external_texture_in_swap_chain,
    )
}

pub open spec fn p_adapter_tail(bytes: Seq<u8>, pos: int) -> Option<(AdapterTail, int)> {
    match p_u32(bytes, pos) {
        None => None,
        Some((vendor, a)) => match p_u32(bytes, a) {
            None => None,
            Some((device, b)) => match p_u32(bytes, b) {
                None => None,
                Some((type_code, c)) => match p_string(bytes, c) {
                    None => None,
                    Some((driver, d)) => match p_string(bytes, d) {
                        None => None,
                        Some((driver_info, e)) => match p_u32(bytes, e) {
                            None => None,
                            Some((tag, f)) => match p_bool(bytes, f) {
                                None => None,
                                Some((shares, g)) => match (
                                    device_type_of(type_code),
                                    backend_of_tag(tag),
                                ) {
                                    (Some(device_type), Some(backend)) => Some(
                                        (
                                            AdapterTail {
                                                vendor,
                                                device,
                                                device_type,
                                                driver,
                                                driver_info,
                                                backend,
                                                support_use_external_texture_in_swap_chain: shares,
                                            },
                                            g,
                                        ),
                                    ),
                                    _ => None,
                                },
                            },
                        },
                    },
                },
            },
        },
    }
}

proof fn lemma_adapter_tail_round_trip(bytes: Seq<u8>, pos: int, t: AdapterTail)
    requires
        vstd::utf8::encode_utf8(t.driver).len() <= u64::MAX,
        vstd::utf8::encode_utf8(t.driver_info).len() <= u64::MAX,
        holds(bytes, pos, ser_adapter_tail(t)),
    ensures
        p_adapter_tail(bytes, pos) == Some((t, pos + ser_adapter_tail(t).len())),
{
    lemma_auto_spec_u32_to_from_le_bytes();
    let v = ser_u32(t.vendor);
    let d = ser_u32(t.device);
    let k = ser_u32(device_type_code(t.device_type));
    let r = ser_string(t.driver);
    let i = ser_string(t.driver_info);
    let b = ser_u32(backend_tag(t.backend));
    let s = ser_bool(t.support_use_external_texture_in_swap_chain);
    crate::wire::lemma_holds_both(bytes, pos, v + d + k + r + i + b, s);
    crate::wire::lemma_holds_both(bytes, pos, v + d + k + r + i, b);
    crate::wire::lemma_holds_both(bytes, pos, v + d + k + r, i);
    crate::wire::lemma_holds_both(bytes, pos, v + d + k, r);
    crate::wire::lemma_holds_both(bytes, pos, v + d, k);
    crate::wire::lemma_holds_both(bytes, pos, v, d);
    lemma_u32_round_trip(bytes, pos, t.vendor);
    lemma_u32_round_trip(bytes, pos + 4, t.device);
    lemma_u32_round_trip(bytes, pos + 8, device_type_code(t.device_type));
    lemma_string_round_trip(bytes, pos + 12, t.driver);
    lemma_string_round_trip(bytes, pos + 12 + r.len(), t.driver_info);
    lemma_u32_round_trip(bytes, pos + 12 + r.len() + i.len(), backend_tag(t.backend));
    lemma_bool_round_trip(
        bytes,
        pos + 12 + r.len() + i.len() + 4,
        t.support_use_external_texture_in_swap_chain,
    );
}

/// The start of what is told of an adapter.
pub open spec fn head_of(a: AdapterInformationView) -> AdapterHead {
    AdapterHead { id: a.id, limits: a.limits, features: a.features, name: a.name }
}

/// The end of what is told of an adapter.
pub open spec fn tail_of(a: AdapterInformationView) -> AdapterTail {
    AdapterTail {
        vendor: a.vendor,
        device: a.device,
        device_type: a.device_type,
        driver: a.driver,
        driver_info: a.driver_info,
        backend: a.backend,
        support_use_external_texture_in_swap_chain: a.support_use_external_texture_in_swap_chain,
    }
}

/// What a client reads of an adapter from bytes at a place: each field in
/// its order.
pub open spec fn p_adapter_information(bytes: Seq<u8>, pos: int) -> Option<
    (AdapterInformationView, int),
> {
    match p_adapter_head(bytes, pos) {
        None => None,
        Some((h, a)) => match p_adapter_tail(bytes, a) {
            None => None,
            Some((t, b)) => Some(
                (
                    AdapterInformationView {
                        id: h.id,
                        limits: h.limits,
                        features: h.features,
                        name: h.name,
                        vendor: t.vendor,
                        device: t.device,
                        device_type: t.device_type,
                        driver: t.driver,
                        driver_info: t.driver_info,
                        backend: t.backend,
                        support_use_external_texture_in_swap_chain: t.support_use_external_texture_in_swap_chain,
                    },
                    b,
                ),
            ),
        },
    }
}

/// Whether what is told of an adapter can be laid out: its texts have
/// lengths that fit 64 bits.
pub open spec fn adapter_information_encodable(a: AdapterInformationView) -> bool {
    &&& vstd::utf8::encode_utf8(a.name).len() <= u64::MAX
    &&& vstd::utf8::encode_utf8(a.driver).len() <= u64::MAX
    &&& vstd::utf8::encode_utf8(a.driver_info).len() <= u64::MAX
}

/// What is told of an adapter is laid out as its start and then its end.
pub proof fn lemma_adapter_information_parts(a: AdapterInformationView)
    ensures
        ser_adapter_information(a) == ser_adapter_head(head_of(a)) + ser_adapter_tail(tail_of(a)),
{
    let h = ser_adapter_head(head_of(a));
    let v = ser_u32(a.vendor);
    let d = ser_u32(a.device);
    let k = ser_u32(device_type_code(a.device_type));
    let r = ser_string(a.driver);
    let i = ser_string(a.driver_info);
    let b = ser_u32(backend_tag(a.backend));
    let s = ser_bool(a.support_use_external_texture_in_swap_chain);
    lemma_joined(h, v, d, k, r, i, b, s);
}

proof fn lemma_joined(
    h: Seq<u8>,
    v: Seq<u8>,
    d: Seq<u8>,
    k: Seq<u8>,
    r: Seq<u8>,
    i: Seq<u8>,
    b: Seq<u8>,
    s: Seq<u8>,
)
    ensures
        h + v + d + k + r + i + b + s == h + (v + d + k + r + i + b + s),
{
    assert(h + v + d + k + r + i + b + s =~= h + (v + d + k + r + i + b + s));
}

/// Laying out what a client is told of an adapter and reading the bytes
/// back gives the same, wherever the bytes stand.
pub proof fn law_adapter_information_round_trip(
    bytes: Seq<u8>,
    pos: int,
    a: AdapterInformationView,
)
    requires
        adapter_information_encodable(a),
        holds(bytes, pos, ser_adapter_information(a)),
    ensures
        p_adapter_information(bytes, pos) == Some((a, pos + ser_adapter_information(a).len())),
{
    lemma_adapter_information_parts(a);
    let h = ser_adapter_head(head_of(a));
    let t = ser_adapter_tail(tail_of(a));
    crate::wire::lemma_holds_both(bytes, pos, h, t);
    lemma_adapter_head_round_trip(bytes, pos, head_of(a));
    lemma_adapter_tail_round_trip(bytes, pos + h.len(), tail_of(a));
}

/// Reads what a client is told of an adapter at a place in bytes. Gives
/// it and the place after it, or nothing if none stands there.
pub fn read_adapter_information(bytes: &[u8], pos: usize) -> (r: Option<(AdapterInformation, usize)>)
    ensures
        match r {
            Some((v, next)) => p_adapter_information(bytes@, pos as int) == Some(
                (v@, next as int),
            ),
            None => p_adapter_information(bytes@, pos as int) is None,
        },
{
    let (id, a) = match read_id(bytes, pos) {
        Some(x) => x,
        None => {
            return None;
        },
    };
    let (limits, b) = match read_limits(bytes, a) {
        Some(x) => x,
        None => {
            return None;
        },
    };
    let (features, c) = match read_u64(bytes, b) {
        Some(x) => x,
        None => {
            return None;
        },
    };
    let (name, d) = match read_string(bytes, c) {
        Some(x) => x,
        None => {
            return None;
        },
    };
    let (vendor, e) = match read_u32(bytes, d) {
        Some(x) => x,
        None => {
            return None;
        },
    };
    let (device, f) = match read_u32(bytes, e) {
        Some(x) => x,
        None => {
            return None;
        },
    };
    let (type_code, g) = match read_u32(bytes, f) {
        Some(x) => x,
        None => {
            return None;
        },
    };
    let (driver, h) = match read_string(bytes, g) {
        Some(x) => x,
        None => {
            return None;
        },
    };
    let (driver_info, i) = match read_string(bytes, h) {
        Some(x) => x,
        None => {
            return None;
        },
    };
    let (tag, j) = match read_u32(bytes, i) {
        Some(x) => x,
        None => {
            return None;
        },
    };
    let (shares, k) = match read_bool(bytes, j) {
        Some(x) => x,
        None => {
            return None;
        },
    };
    let device_type = if type_code == 0 {
        DeviceType::Other
    } else if type_code == 1 {
        DeviceType::IntegratedGpu
    } else if type_code == 2 {
        DeviceType::DiscreteGpu
    } else if type_code == 3 {
        DeviceType::VirtualGpu
    } else if type_code == 4 {
        DeviceType::Cpu
    } else {
        return None;
    };
    let backend = if tag == 0 {
        Backend::Noop
    } else if tag == 1 {
        Backend::Vulkan
    } else if tag == 2 {
        Backend::Metal
    } else if tag == 3 {
        Backend::Dx12
    } else if tag == 4 {
        Backend::Gl
    } else if tag == 5 {
        Backend::BrowserWebGpu
    } else {
        return None;
    };
    Some(
        (
            AdapterInformation {
                id,
                limits,
                features,
                name,
                vendor,
                device,
                device_type,
                driver,
                driver_info,
                backend,
                support_use_external_texture_in_swap_chain: shares,
            },
            k,
        ),
    )
}

} // verus!
