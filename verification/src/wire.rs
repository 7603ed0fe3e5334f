//! The wire format of device actions: how a batch of actions is laid out
//! in bytes, and how it is read back.
//!
//! Integers are little-endian and of fixed width. A variant is a 32 bit
//! tag followed by its fields, an optional value is a byte that says
//! whether it is there, and a list or a string is its length in 64 bits
//! followed by its items or its UTF-8 bytes.

use vstd::prelude::*;
use vstd::bytes::{
    lemma_auto_spec_u32_to_from_le_bytes, lemma_auto_spec_u64_to_from_le_bytes,
    spec_u32_from_le_bytes, spec_u32_to_le_bytes, spec_u64_from_le_bytes, spec_u64_to_le_bytes,
    u32_from_le_bytes, u32_to_le_bytes, u64_from_le_bytes, u64_to_le_bytes,
};
use vstd::slice::slice_subrange;
use vstd::utf8::{
    decode_utf8, encode_utf8, encode_utf8_decode_utf8, encode_utf8_valid_utf8, valid_utf8,
};
use crate::action::DeviceAction;
use crate::command::extend_u8;
use crate::device::{BindGroupDescriptor, PipelineLayoutDescriptor};
use crate::error::ErrorBufferType;
use crate::id::{Backend, Id};
use crate::resource::{BindingKind, BufferBinding, TextureDescriptor, TextureFormat};

verus! {

/// What a device action says.
pub enum ActionView {
    CreateTexture(Id, TextureDescriptor, Option<u64>),
    CreateBindGroupLayout(Id, u32),
    CreatePipelineLayout(Id, Seq<Id>, u32),
    CreateBindGroup(Id, Id, Seq<BufferBinding>),
    CreateComputePipeline(Id, Id),
    CreateCommandEncoder(Id),
    Error { message: Seq<char>, kind: ErrorBufferType },
}

impl DeviceAction {
    pub open spec fn view(&self) -> ActionView {
        match self {
            DeviceAction::CreateTexture(id, desc, swap_chain) => ActionView::CreateTexture(
                *id,
                *desc,
                *swap_chain,
            ),
            DeviceAction::CreateBindGroupLayout(id, n) => ActionView::CreateBindGroupLayout(*id, *n),
            DeviceAction::CreatePipelineLayout(id, desc) => ActionView::CreatePipelineLayout(
                *id,
                desc.bind_group_layouts@,
                desc.push_constant_size,
            ),
            DeviceAction::CreateBindGroup(id, desc) => ActionView::CreateBindGroup(
                *id,
                desc.layout,
                desc.entries@,
            ),
            DeviceAction::CreateComputePipeline(id, layout) => ActionView::CreateComputePipeline(
                *id,
                *layout,
            ),
            DeviceAction::CreateCommandEncoder(id) => ActionView::CreateCommandEncoder(*id),
            DeviceAction::Error { message, kind } => ActionView::Error {
                message: message@,
                kind: *kind,
            },
        }
    }
}

/// What a list of device actions says.
pub open spec fn actions_view(actions: Seq<DeviceAction>) -> Seq<ActionView> {
    Seq::new(actions.len(), |i: int| actions[i]@)
}

/// Why bytes could not be read as a batch of actions.
#[derive(Clone, Copy, Debug, PartialEq, Eq, Structural)]
pub enum WireError {
    /// The bytes are not a batch of actions and nothing else.
    Malformed,
}

/// Whether `bytes` holds `part` at `pos`.
pub open spec fn holds(bytes: Seq<u8>, pos: int, part: Seq<u8>) -> bool {
    &&& 0 <= pos
    &&& pos + part.len() <= bytes.len()
    &&& bytes.subrange(pos, pos + part.len()) == part
}

/// Bytes that hold two parts in a row hold each of them.
pub proof fn lemma_holds_both(bytes: Seq<u8>, pos: int, a: Seq<u8>, b: Seq<u8>)
    requires
        holds(bytes, pos, a + b),
    ensures
        holds(bytes, pos, a),
        holds(bytes, pos + a.len(), b),
{
    let whole = bytes.subrange(pos, pos + (a + b).len());
    assert forall|i: int| 0 <= i < a.len() implies bytes.subrange(pos, pos + a.len())[i] == a[i] by {
        assert(whole[i] == (a + b)[i]);
    }
    assert(bytes.subrange(pos, pos + a.len()) =~= a);
    assert forall|i: int| 0 <= i < b.len() implies bytes.subrange(
        pos + a.len(),
        pos + a.len() + b.len(),
    )[i] == b[i] by {
        assert(whole[a.len() + i] == (a + b)[a.len() + i]);
    }
    assert(bytes.subrange(pos + a.len(), pos + a.len() + b.len()) =~= b);
}

// Numbers.
pub open spec fn ser_u8(v: u8) -> Seq<u8> {
    seq![v]
}

pub open spec fn p_u8(bytes: Seq<u8>, pos: int) -> Option<(u8, int)> {
    if 0 <= pos < bytes.len() {
        Some((bytes[pos], pos + 1))
    } else {
        None
    }
}

pub open spec fn ser_u32(v: u32) -> Seq<u8> {
    spec_u32_to_le_bytes(v)
}

pub open spec fn p_u32(bytes: Seq<u8>, pos: int) -> Option<(u32, int)> {
    if 0 <= pos && pos + 4 <= bytes.len() {
        Some((spec_u32_from_le_bytes(bytes.subrange(pos, pos + 4)), pos + 4))
    } else {
        None
    }
}

pub open spec fn ser_u64(v: u64) -> Seq<u8> {
    spec_u64_to_le_bytes(v)
}

pub open spec fn p_u64(bytes: Seq<u8>, pos: int) -> Option<(u64, int)> {
    if 0 <= pos && pos + 8 <= bytes.len() {
        Some((spec_u64_from_le_bytes(bytes.subrange(pos, pos + 8)), pos + 8))
    } else {
        None
    }
}

pub proof fn lemma_u8_round_trip(bytes: Seq<u8>, pos: int, v: u8)
    requires
        holds(bytes, pos, ser_u8(v)),
    ensures
        p_u8(bytes, pos) == Some((v, pos + 1)),
{
    assert(bytes.subrange(pos, pos + 1)[0] == v);
}

pub proof fn lemma_u32_round_trip(bytes: Seq<u8>, pos: int, v: u32)
    requires
        holds(bytes, pos, ser_u32(v)),
    ensures
        p_u32(bytes, pos) == Some((v, pos + 4)),
        ser_u32(v).len() == 4,
{
    lemma_auto_spec_u32_to_from_le_bytes();
}

pub proof fn lemma_u64_round_trip(bytes: Seq<u8>, pos: int, v: u64)
    requires
        holds(bytes, pos, ser_u64(v)),
    ensures
        p_u64(bytes, pos) == Some((v, pos + 8)),
        ser_u64(v).len() == 8,
{
    lemma_auto_spec_u64_to_from_le_bytes();
}

// Small enumerations, one byte each.
pub open spec fn backend_code(b: Backend) -> u8 {
    match b {
        Backend::Noop => 0,
        Backend::Vulkan => 1,
        Backend::Metal => 2,
        Backend::Dx12 => 3,
        Backend::Gl => 4,
        Backend::BrowserWebGpu => 5,
    }
}

pub open spec fn backend_of(code: u8) -> Option<Backend> {
    if code == 0 {
        Some(Backend::Noop)
    } else if code == 1 {
        Some(Backend::Vulkan)
    } else if code == 2 {
        Some(Backend::Metal)
    } else if code == 3 {
        Some(Backend::Dx12)
    } else if code == 4 {
        Some(Backend::Gl)
    } else if code == 5 {
        Some(Backend::BrowserWebGpu)
    } else {
        None
    }
}

pub open spec fn format_code(f: TextureFormat) -> u8 {
    match f {
        TextureFormat::Rgba8Unorm => 0,
        TextureFormat::Bgra8Unorm => 1,
        TextureFormat::Other => 2,
    }
}

pub open spec fn format_of(code: u8) -> Option<TextureFormat> {
    if code == 0 {
        Some(TextureFormat::Rgba8Unorm)
    } else if code == 1 {
        Some(TextureFormat::Bgra8Unorm)
    } else if code == 2 {
        Some(TextureFormat::Other)
    } else {
        None
    }
}

pub open spec fn binding_code(k: BindingKind) -> u8 {
    match k {
        BindingKind::Uniform => 0,
        BindingKind::StorageReadOnly => 1,
        BindingKind::StorageReadWrite => 2,
    }
}

pub open spec fn binding_of(code: u8) -> Option<BindingKind> {
    if code == 0 {
        Some(BindingKind::Uniform)
    } else if code == 1 {
        Some(BindingKind::StorageReadOnly)
    } else if code == 2 {
        Some(BindingKind::StorageReadWrite)
    } else {
        None
    }
}

pub open spec fn kind_code(k: ErrorBufferType) -> u8 {
    match k {
        ErrorBufferType::DeviceLost => 0,
        ErrorBufferType::Internal => 1,
        ErrorBufferType::OutOfMemory => 2,
        ErrorBufferType::Validation => 3,
    }
}

pub open spec fn kind_of(code: u8) -> Option<ErrorBufferType> {
    if code == 0 {
        Some(ErrorBufferType::DeviceLost)
    } else if code == 1 {
        Some(ErrorBufferType::Internal)
    } else if code == 2 {
        Some(ErrorBufferType::OutOfMemory)
    } else if code == 3 {
        Some(ErrorBufferType::Validation)
    } else {
        None
    }
}

// Identifiers: index, generation, backend.
pub open spec fn ser_id(id: Id) -> Seq<u8> {
    ser_u32(id.index()) + ser_u32(id.generation()) + ser_u8(backend_code(id.backend()))
}

pub open spec fn p_id(bytes: Seq<u8>, pos: int) -> Option<(Id, int)> {
    match p_u32(bytes, pos) {
        None => None,
        Some((index, a)) => match p_u32(bytes, a) {
            None => None,
            Some((generation, b)) => match p_u8(bytes, b) {
                None => None,
                Some((code, c)) => match backend_of(code) {
                    None => None,
                    Some(backend) => Some((Id::zip_spec(index, generation, backend), c)),
                },
            },
        },
    }
}

pub proof fn lemma_id_round_trip(bytes: Seq<u8>, pos: int, id: Id)
    requires
        holds(bytes, pos, ser_id(id)),
    ensures
        p_id(bytes, pos) == Some((id, pos + 9)),
        ser_id(id).len() == 9,
{
    let a = ser_u32(id.index());
    let b = ser_u32(id.generation());
    let c = ser_u8(backend_code(id.backend()));
    lemma_auto_spec_u32_to_from_le_bytes();
    lemma_holds_both(bytes, pos, a + b, c);
    lemma_holds_both(bytes, pos, a, b);
    lemma_u32_round_trip(bytes, pos, id.index());
    lemma_u32_round_trip(bytes, pos + 4, id.generation());
    lemma_u8_round_trip(bytes, pos + 8, backend_code(id.backend()));
    id.lemma_zip_of_parts();
}

// Texture descriptions: the three extents, the format, the usage.
pub open spec fn ser_texture(d: TextureDescriptor) -> Seq<u8> {
    ser_u32(d.width) + ser_u32(d.height) + ser_u32(d.depth_or_array_layers) + ser_u8(
        format_code(d.format),
    ) + ser_u32(d.usage)
}

pub open spec fn p_texture(bytes: Seq<u8>, pos: int) -> Option<(TextureDescriptor, int)> {
    match p_u32(bytes, pos) {
        None => None,
        Some((width, a)) => match p_u32(bytes, a) {
            None => None,
            Some((height, b)) => match p_u32(bytes, b) {
                None => None,
                Some((depth_or_array_layers, c)) => match p_u8(bytes, c) {
                    None => None,
                    Some((code, d)) => match format_of(code) {
                        None => None,
                        Some(format) => match p_u32(bytes, d) {
                            None => None,
                            Some((usage, e)) => Some(
                                (
                                    TextureDescriptor {
                                        width,
                                        height,
                                        depth_or_array_layers,
                                        format,
                                        usage,
                                    },
                                    e,
                                ),
                            ),
                        },
                    },
                },
            },
        },
    }
}

pub proof fn lemma_texture_round_trip(bytes: Seq<u8>, pos: int, d: TextureDescriptor)
    requires
        holds(bytes, pos, ser_texture(d)),
    ensures
        p_texture(bytes, pos) == Some((d, pos + 17)),
        ser_texture(d).len() == 17,
{
    let a = ser_u32(d.width);
    let b = ser_u32(d.height);
    let c = ser_u32(d.depth_or_array_layers);
    let e = ser_u8(format_code(d.format));
    let f = ser_u32(d.usage);
    lemma_auto_spec_u32_to_from_le_bytes();
    lemma_holds_both(bytes, pos, a + b + c + e, f);
    lemma_holds_both(bytes, pos, a + b + c, e);
    lemma_holds_both(bytes, pos, a + b, c);
    lemma_holds_both(bytes, pos, a, b);
    lemma_u32_round_trip(bytes, pos, d.width);
    lemma_u32_round_trip(bytes, pos + 4, d.height);
    lemma_u32_round_trip(bytes, pos + 8, d.depth_or_array_layers);
    lemma_u8_round_trip(bytes, pos + 12, format_code(d.format));
    lemma_u32_round_trip(bytes, pos + 13, d.usage);
}

// Optional numbers.
pub open spec fn ser_option_u64(v: Option<u64>) -> Seq<u8> {
    match v {
        None => ser_u8(0),
        Some(x) => ser_u8(1) + ser_u64(x),
    }
}

pub open spec fn p_option_u64(bytes: Seq<u8>, pos: int) -> Option<(Option<u64>, int)> {
    match p_u8(bytes, pos) {
        None => None,
        Some((tag, a)) => if tag == 0 {
            Some((None, a))
        } else if tag == 1 {
            match p_u64(bytes, a) {
                None => None,
                Some((x, b)) => Some((Some(x), b)),
            }
        } else {
            None
        },
    }
}

pub proof fn lemma_option_u64_round_trip(bytes: Seq<u8>, pos: int, v: Option<u64>)
    requires
        holds(bytes, pos, ser_option_u64(v)),
    ensures
        p_option_u64(bytes, pos) == Some((v, pos + ser_option_u64(v).len())),
{
    lemma_auto_spec_u64_to_from_le_bytes();
    match v {
        None => {
            lemma_u8_round_trip(bytes, pos, 0);
        },
        Some(x) => {
            lemma_holds_both(bytes, pos, ser_u8(1), ser_u64(x));
            lemma_u8_round_trip(bytes, pos, 1);
            lemma_u64_round_trip(bytes, pos + 1, x);
        },
    }
}

// Lists of identifiers.
pub open spec fn ser_ids(ids: Seq<Id>, n: nat) -> Seq<u8>
    decreases n,
{
    if n == 0 {
        Seq::empty()
    } else {
        ser_ids(ids, (n - 1) as nat) + ser_id(ids[n - 1])
    }
}

pub open spec fn p_ids(bytes: Seq<u8>, pos: int, n: nat) -> Option<(Seq<Id>, int)>
    decreases n,
{
    if n == 0 {
        Some((Seq::empty(), pos))
    } else {
        match p_ids(bytes, pos, (n - 1) as nat) {
            None => None,
            Some((before, a)) => match p_id(bytes, a) {
                None => None,
                Some((id, b)) => Some((before.push(id), b)),
            },
        }
    }
}

pub open spec fn ser_id_list(ids: Seq<Id>) -> Seq<u8> {
    ser_u64(ids.len() as u64) + ser_ids(ids, ids.len())
}

pub open spec fn p_id_list(bytes: Seq<u8>, pos: int) -> Option<(Seq<Id>, int)> {
    match p_u64(bytes, pos) {
        None => None,
        Some((n, a)) => p_ids(bytes, a, n as nat),
    }
}

pub proof fn lemma_ids_round_trip(bytes: Seq<u8>, pos: int, ids: Seq<Id>, n: nat)
    requires
        n <= ids.len(),
        holds(bytes, pos, ser_ids(ids, n)),
    ensures
        p_ids(bytes, pos, n) == Some((ids.take(n as int), pos + 9 * n)),
        ser_ids(ids, n).len() == 9 * n,
    decreases n,
{
    if n == 0 {
        assert(ids.take(0) =~= Seq::<Id>::empty());
    } else {
        let m = (n - 1) as nat;
        lemma_holds_both(bytes, pos, ser_ids(ids, m), ser_id(ids[n - 1]));
        lemma_ids_round_trip(bytes, pos, ids, m);
        lemma_id_round_trip(bytes, pos + 9 * m, ids[n - 1]);
        assert(ids.take(n as int) =~= ids.take(m as int).push(ids[n - 1]));
    }
}

pub proof fn lemma_id_list_round_trip(bytes: Seq<u8>, pos: int, ids: Seq<Id>)
    requires
        ids.len() <= u64::MAX,
        holds(bytes, pos, ser_id_list(ids)),
    ensures
        p_id_list(bytes, pos) == Some((ids, pos + ser_id_list(ids).len())),
{
    lemma_auto_spec_u64_to_from_le_bytes();
    lemma_holds_both(bytes, pos, ser_u64(ids.len() as u64), ser_ids(ids, ids.len()));
    lemma_u64_round_trip(bytes, pos, ids.len() as u64);
    lemma_ids_round_trip(bytes, pos + 8, ids, ids.len());
    assert(ids.take(ids.len() as int) =~= ids);
}

// Buffer bindings: the buffer, then the kind.
pub open spec fn ser_binding(b: BufferBinding) -> Seq<u8> {
    ser_id(b.buffer) + ser_u8(binding_code(b.kind))
}

pub open spec fn p_binding(bytes: Seq<u8>, pos: int) -> Option<(BufferBinding, int)> {
    match p_id(bytes, pos) {
        None => None,
        Some((buffer, a)) => match p_u8(bytes, a) {
            None => None,
            Some((code, b)) => match binding_of(code) {
                None => None,
                Some(kind) => Some((BufferBinding { buffer, kind }, b)),
            },
        },
    }
}

pub proof fn lemma_binding_round_trip(bytes: Seq<u8>, pos: int, b: BufferBinding)
    requires
        holds(bytes, pos, ser_binding(b)),
    ensures
        p_binding(bytes, pos) == Some((b, pos + 10)),
        ser_binding(b).len() == 10,
{
    lemma_holds_both(bytes, pos, ser_id(b.buffer), ser_u8(binding_code(b.kind)));
    lemma_id_round_trip(bytes, pos, b.buffer);
    lemma_u8_round_trip(bytes, pos + 9, binding_code(b.kind));
}

pub open spec fn ser_bindings(list: Seq<BufferBinding>, n: nat) -> Seq<u8>
    decreases n,
{
    if n == 0 {
        Seq::empty()
    } else {
        ser_bindings(list, (n - 1) as nat) + ser_binding(list[n - 1])
    }
}

pub open spec fn p_bindings(bytes: Seq<u8>, pos: int, n: nat) -> Option<(Seq<BufferBinding>, int)>
    decreases n,
{
    if n == 0 {
        Some((Seq::empty(), pos))
    } else {
        match p_bindings(bytes, pos, (n - 1) as nat) {
            None => None,
            Some((before, a)) => match p_binding(bytes, a) {
                None => None,
                Some((b, c)) => Some((before.push(b), c)),
            },
        }
    }
}

pub open spec fn ser_binding_list(list: Seq<BufferBinding>) -> Seq<u8> {
    ser_u64(list.len() as u64) + ser_bindings(list, list.len())
}

pub open spec fn p_binding_list(bytes: Seq<u8>, pos: int) -> Option<(Seq<BufferBinding>, int)> {
    match p_u64(bytes, pos) {
        None => None,
        Some((n, a)) => p_bindings(bytes, a, n as nat),
    }
}

pub proof fn lemma_bindings_round_trip(bytes: Seq<u8>, pos: int, list: Seq<BufferBinding>, n: nat)
    requires
        n <= list.len(),
        holds(bytes, pos, ser_bindings(list, n)),
    ensures
        p_bindings(bytes, pos, n) == Some((list.take(n as int), pos + 10 * n)),
        ser_bindings(list, n).len() == 10 * n,
    decreases n,
{
    if n == 0 {
        assert(list.take(0) =~= Seq::<BufferBinding>::empty());
    } else {
        let m = (n - 1) as nat;
        lemma_holds_both(bytes, pos, ser_bindings(list, m), ser_binding(list[n - 1]));
        lemma_bindings_round_trip(bytes, pos, list, m);
        lemma_binding_round_trip(bytes, pos + 10 * m, list[n - 1]);
        assert(list.take(n as int) =~= list.take(m as int).push(list[n - 1]));
    }
}

pub proof fn lemma_binding_list_round_trip(bytes: Seq<u8>, pos: int, list: Seq<BufferBinding>)
    requires
        list.len() <= u64::MAX,
        holds(bytes, pos, ser_binding_list(list)),
    ensures
        p_binding_list(bytes, pos) == Some((list, pos + ser_binding_list(list).len())),
{
    lemma_auto_spec_u64_to_from_le_bytes();
    lemma_holds_both(bytes, pos, ser_u64(list.len() as u64), ser_bindings(list, list.len()));
    lemma_u64_round_trip(bytes, pos, list.len() as u64);
    lemma_bindings_round_trip(bytes, pos + 8, list, list.len());
    assert(list.take(list.len() as int) =~= list);
}

// Strings: the number of bytes, then the bytes of the UTF-8 form.
pub open spec fn ser_string(s: Seq<char>) -> Seq<u8> {
    ser_u64(encode_utf8(s).len() as u64) + encode_utf8(s)
}

pub open spec fn p_string(bytes: Seq<u8>, pos: int) -> Option<(Seq<char>, int)> {
    match p_u64(bytes, pos) {
        None => None,
        Some((n, a)) => if a + n <= bytes.len() && valid_utf8(bytes.subrange(a, a + n)) {
            Some((decode_utf8(bytes.subrange(a, a + n)), a + n))
        } else {
            None
        },
    }
}

pub proof fn lemma_string_round_trip(bytes: Seq<u8>, pos: int, s: Seq<char>)
    requires
        encode_utf8(s).len() <= u64::MAX,
        holds(bytes, pos, ser_string(s)),
    ensures
        p_string(bytes, pos) == Some((s, pos + ser_string(s).len())),
{
    lemma_auto_spec_u64_to_from_le_bytes();
    lemma_holds_both(bytes, pos, ser_u64(encode_utf8(s).len() as u64), encode_utf8(s));
    lemma_u64_round_trip(bytes, pos, encode_utf8(s).len() as u64);
    encode_utf8_valid_utf8(s);
    encode_utf8_decode_utf8(s);
}

// Actions: a tag, then the fields.
pub open spec fn ser_action(a: ActionView) -> Seq<u8> {
    match a {
        ActionView::CreateTexture(id, desc, swap_chain) => ser_u32(0) + ser_id(id) + ser_texture(
            desc,
        ) + ser_option_u64(swap_chain),
        ActionView::CreateBindGroupLayout(id, n) => ser_u32(1) + ser_id(id) + ser_u32(n),
        ActionView::CreatePipelineLayout(id, layouts, size) => ser_u32(2) + ser_id(id)
            + ser_id_list(layouts) + ser_u32(size),
        ActionView::CreateBindGroup(id, layout, entries) => ser_u32(3) + ser_id(id) + ser_id(layout)
            + ser_binding_list(entries),
        ActionView::CreateComputePipeline(id, layout) => ser_u32(4) + ser_id(id) + ser_id(layout),
        ActionView::CreateCommandEncoder(id) => ser_u32(5) + ser_id(id),
        ActionView::Error { message, kind } => ser_u32(6) + ser_string(message) + ser_u8(
            kind_code(kind),
        ),
    }
}

pub open spec fn p_action(bytes: Seq<u8>, pos: int) -> Option<(ActionView, int)> {
    match p_u32(bytes, pos) {
        None => None,
        Some((tag, a)) => if tag == 0 {
            match p_id(bytes, a) {
                None => None,
                Some((id, b)) => match p_texture(bytes, b) {
                    None => None,
                    Some((desc, c)) => match p_option_u64(bytes, c) {
                        None => None,
                        Some((swap_chain, d)) => Some(
                            (ActionView::CreateTexture(id, desc, swap_chain), d),
                        ),
                    },
                },
            }
        } else if tag == 1 {
            match p_id(bytes, a) {
                None => None,
                Some((id, b)) => match p_u32(bytes, b) {
                    None => None,
                    Some((n, c)) => Some((ActionView::CreateBindGroupLayout(id, n), c)),
                },
            }
        } else if tag == 2 {
            match p_id(bytes, a) {
                None => None,
                Some((id, b)) => match p_id_list(bytes, b) {
                    None => None,
                    Some((layouts, c)) => match p_u32(bytes, c) {
                        None => None,
                        Some((size, d)) => Some(
                            (ActionView::CreatePipelineLayout(id, layouts, size), d),
                        ),
                    },
                },
            }
        } else if tag == 3 {
            match p_id(bytes, a) {
                None => None,
                Some((id, b)) => match p_id(bytes, b) {
                    None => None,
                    Some((layout, c)) => match p_binding_list(bytes, c) {
                        None => None,
                        Some((entries, d)) => Some(
                            (ActionView::CreateBindGroup(id, layout, entries), d),
                        ),
                    },
                },
            }
        } else if tag == 4 {
            match p_id(bytes, a) {
                None => None,
                Some((id, b)) => match p_id(bytes, b) {
                    None => None,
                    Some((layout, c)) => Some((ActionView::CreateComputePipeline(id, layout), c)),
                },
            }
        } else if tag == 5 {
            match p_id(bytes, a) {
                None => None,
                Some((id, b)) => Some((ActionView::CreateCommandEncoder(id), b)),
            }
        } else if tag == 6 {
            match p_string(bytes, a) {
                None => None,
                Some((message, b)) => match p_u8(bytes, b) {
                    None => None,
                    Some((code, c)) => match kind_of(code) {
                        None => None,
                        Some(kind) => Some((ActionView::Error { message, kind }, c)),
                    },
                },
            }
        } else {
            None
        },
    }
}

/// Whether an action can be laid out: its lists and strings have lengths
/// that fit 64 bits.
pub open spec fn encodable(a: ActionView) -> bool {
    match a {
        ActionView::CreatePipelineLayout(_, layouts, _) => layouts.len() <= u64::MAX,
        ActionView::CreateBindGroup(_, _, entries) => entries.len() <= u64::MAX,
        ActionView::Error { message, .. } => encode_utf8(message).len() <= u64::MAX,
        _ => true,
    }
}

/// Reading the bytes of an action gives the action back, wherever the
/// bytes stand.
pub proof fn lemma_action_round_trip(bytes: Seq<u8>, pos: int, a: ActionView)
    requires
        encodable(a),
        holds(bytes, pos, ser_action(a)),
    ensures
        p_action(bytes, pos) == Some((a, pos + ser_action(a).len())),
{
    lemma_auto_spec_u32_to_from_le_bytes();
    match a {
        ActionView::CreateTexture(id, desc, swap_chain) => {
            let t = ser_u32(0);
            let i = ser_id(id);
            let d = ser_texture(desc);
            let s = ser_option_u64(swap_chain);
            lemma_holds_both(bytes, pos, t + i + d, s);
            lemma_holds_both(bytes, pos, t + i, d);
            lemma_holds_both(bytes, pos, t, i);
            lemma_u32_round_trip(bytes, pos, 0);
            lemma_id_round_trip(bytes, pos + 4, id);
            lemma_texture_round_trip(bytes, pos + 13, desc);
            lemma_option_u64_round_trip(bytes, pos + 30, swap_chain);
        },
        ActionView::CreateBindGroupLayout(id, n) => {
            let t = ser_u32(1);
            let i = ser_id(id);
            lemma_holds_both(bytes, pos, t + i, ser_u32(n));
            lemma_holds_both(bytes, pos, t, i);
            lemma_u32_round_trip(bytes, pos, 1);
            lemma_id_round_trip(bytes, pos + 4, id);
            lemma_u32_round_trip(bytes, pos + 13, n);
        },
        ActionView::CreatePipelineLayout(id, layouts, size) => {
            let t = ser_u32(2);
            let i = ser_id(id);
            let l = ser_id_list(layouts);
            lemma_holds_both(bytes, pos, t + i + l, ser_u32(size));
            lemma_holds_both(bytes, pos, t + i, l);
            lemma_holds_both(bytes, pos, t, i);
            lemma_u32_round_trip(bytes, pos, 2);
            lemma_id_round_trip(bytes, pos + 4, id);
            lemma_id_list_round_trip(bytes, pos + 13, layouts);
            lemma_u32_round_trip(bytes, pos + 13 + l.len(), size);
        },
        ActionView::CreateBindGroup(id, layout, entries) => {
            let t = ser_u32(3);
            let i = ser_id(id);
            let l = ser_id(layout);
            lemma_holds_both(bytes, pos, t + i + l, ser_binding_list(entries));
            lemma_holds_both(bytes, pos, t + i, l);
            lemma_holds_both(bytes, pos, t, i);
            lemma_u32_round_trip(bytes, pos, 3);
            lemma_id_round_trip(bytes, pos + 4, id);
            lemma_id_round_trip(bytes, pos + 13, layout);
            lemma_binding_list_round_trip(bytes, pos + 22, entries);
        },
        ActionView::CreateComputePipeline(id, layout) => {
            let t = ser_u32(4);
            let i = ser_id(id);
            lemma_holds_both(bytes, pos, t + i, ser_id(layout));
            lemma_holds_both(bytes, pos, t, i);
            lemma_u32_round_trip(bytes, pos, 4);
            lemma_id_round_trip(bytes, pos + 4, id);
            lemma_id_round_trip(bytes, pos + 13, layout);
        },
        ActionView::CreateCommandEncoder(id) => {
            lemma_holds_both(bytes, pos, ser_u32(5), ser_id(id));
            lemma_u32_round_trip(bytes, pos, 5);
            lemma_id_round_trip(bytes, pos + 4, id);
        },
        ActionView::Error { message, kind } => {
            let t = ser_u32(6);
            let m = ser_string(message);
            lemma_holds_both(bytes, pos, t + m, ser_u8(kind_code(kind)));
            lemma_holds_both(bytes, pos, t, m);
            lemma_u32_round_trip(bytes, pos, 6);
            lemma_string_round_trip(bytes, pos + 4, message);
            lemma_u8_round_trip(bytes, pos + 4 + m.len(), kind_code(kind));
        },
    }
}

// Batches: the number of actions, then the actions.
pub open spec fn ser_actions(list: Seq<ActionView>, n: nat) -> Seq<u8>
    decreases n,
{
    if n == 0 {
        Seq::empty()
    } else {
        ser_actions(list, (n - 1) as nat) + ser_action(list[n - 1])
    }
}

pub open spec fn p_actions(bytes: Seq<u8>, pos: int, n: nat) -> Option<(Seq<ActionView>, int)>
    decreases n,
{
    if n == 0 {
        Some((Seq::empty(), pos))
    } else {
        match p_actions(bytes, pos, (n - 1) as nat) {
            None => None,
            Some((before, a)) => match p_action(bytes, a) {
                None => None,
                Some((action, b)) => Some((before.push(action), b)),
            },
        }
    }
}

/// The bytes of a batch of actions.
pub open spec fn ser_batch(list: Seq<ActionView>) -> Seq<u8> {
    ser_u64(list.len() as u64) + ser_actions(list, list.len())
}

/// The batch of actions that the bytes are, if they are one and nothing
/// else.
pub open spec fn p_batch(bytes: Seq<u8>) -> Option<Seq<ActionView>> {
    match p_u64(bytes, 0) {
        None => None,
        Some((n, a)) => match p_actions(bytes, a, n as nat) {
            None => None,
            Some((list, b)) => if b == bytes.len() {
                Some(list)
            } else {
                None
            },
        },
    }
}

pub proof fn lemma_actions_round_trip(bytes: Seq<u8>, pos: int, list: Seq<ActionView>, n: nat)
    requires
        n <= list.len(),
        forall|i: int| 0 <= i < list.len() ==> encodable(#[trigger] list[i]),
        holds(bytes, pos, ser_actions(list, n)),
    ensures
        p_actions(bytes, pos, n) == Some((list.take(n as int), pos + ser_actions(list, n).len())),
    decreases n,
{
    if n == 0 {
        assert(list.take(0) =~= Seq::<ActionView>::empty());
    } else {
        let m = (n - 1) as nat;
        lemma_holds_both(bytes, pos, ser_actions(list, m), ser_action(list[n - 1]));
        lemma_actions_round_trip(bytes, pos, list, m);
        lemma_action_round_trip(bytes, pos + ser_actions(list, m).len(), list[n - 1]);
        assert(list.take(n as int) =~= list.take(m as int).push(list[n - 1]));
    }
}

/// Laying a batch of actions out in bytes and reading the bytes back gives
/// the same actions.
pub proof fn law_batch_round_trip(list: Seq<ActionView>)
    requires
        list.len() <= u64::MAX,
        forall|i: int| 0 <= i < list.len() ==> encodable(#[trigger] list[i]),
    ensures
        p_batch(ser_batch(list)) == Some(list),
{
    let bytes = ser_batch(list);
    lemma_auto_spec_u64_to_from_le_bytes();
    assert(bytes.subrange(0, bytes.len() as int) =~= bytes);
    lemma_holds_both(bytes, 0, ser_u64(list.len() as u64), ser_actions(list, list.len()));
    lemma_u64_round_trip(bytes, 0, list.len() as u64);
    lemma_actions_round_trip(bytes, 8, list, list.len());
    assert(list.take(list.len() as int) =~= list);
}

/// `String::from_utf8` of the standard library. It takes a vector of bytes
/// for a string if the bytes are valid UTF-8, and the string is then the
/// text that the bytes encode; it refuses any other bytes.
#[verifier::external_body]
fn string_from_utf8(bytes: Vec<u8>) -> (r: Option<String>)
    ensures
        match r {
            Some(s) => valid_utf8(bytes@) && s@ == decode_utf8(bytes@),
            None => !valid_utf8(bytes@),
        },
{
    String::from_utf8(bytes).ok()
}

pub(crate) fn write_u8(out: &mut Vec<u8>, v: u8)
    ensures
        final(out)@ == old(out)@ + ser_u8(v),
{
    out.push(v);
    assert(out@ =~= old(out)@ + ser_u8(v));
}

pub(crate) fn write_u32(out: &mut Vec<u8>, v: u32)
    ensures
        final(out)@ == old(out)@ + ser_u32(v),
{
    let mut b = u32_to_le_bytes(v);
    out.append(&mut b);
}

pub(crate) fn write_u64(out: &mut Vec<u8>, v: u64)
    ensures
        final(out)@ == old(out)@ + ser_u64(v),
{
    let mut b = u64_to_le_bytes(v);
    out.append(&mut b);
}

pub(crate) fn write_id(out: &mut Vec<u8>, id: Id)
    ensures
        final(out)@ == old(out)@ + ser_id(id),
{
    let (index, generation, backend) = id.unzip();
    write_u32(out, index);
    write_u32(out, generation);
    write_u8(
        out,
        match backend {
            Backend::Noop => 0,
            Backend::Vulkan => 1,
            Backend::Metal => 2,
            Backend::Dx12 => 3,
            Backend::Gl => 4,
            Backend::BrowserWebGpu => 5,
        },
    );
    assert(out@ =~= old(out)@ + ser_id(id));
}

fn write_texture(out: &mut Vec<u8>, d: &TextureDescriptor)
    ensures
        final(out)@ == old(out)@ + ser_texture(*d),
{
    write_u32(out, d.width);
    write_u32(out, d.height);
    write_u32(out, d.depth_or_array_layers);
    write_u8(
        out,
        match d.format {
            TextureFormat::Rgba8Unorm => 0,
            TextureFormat::Bgra8Unorm => 1,
            TextureFormat::Other => 2,
        },
    );
    write_u32(out, d.usage);
    assert(out@ =~= old(out)@ + ser_texture(*d));
}

fn write_option_u64(out: &mut Vec<u8>, v: Option<u64>)
    ensures
        final(out)@ == old(out)@ + ser_option_u64(v),
{
    match v {
        None => {
            write_u8(out, 0);
        },
        Some(x) => {
            write_u8(out, 1);
            write_u64(out, x);
            assert(out@ =~= old(out)@ + ser_option_u64(v));
        },
    }
}

fn write_id_list(out: &mut Vec<u8>, ids: &Vec<Id>)
    ensures
        final(out)@ == old(out)@ + ser_id_list(ids@),
{
    write_u64(out, ids.len() as u64);
    let ghost start = out@;
    let mut i: usize = 0;
    while i < ids.len()
        invariant
            i <= ids@.len(),
            out@ == start + ser_ids(ids@, i as nat),
        decreases ids@.len() - i,
    {
        let ghost before = out@;
        write_id(out, ids[i]);
        assert(out@ =~= start + ser_ids(ids@, (i + 1) as nat));
        i += 1;
    }
    assert(out@ =~= old(out)@ + ser_id_list(ids@));
}

fn write_binding_list(out: &mut Vec<u8>, list: &Vec<BufferBinding>)
    ensures
        final(out)@ == old(out)@ + ser_binding_list(list@),
{
    write_u64(out, list.len() as u64);
    let ghost start = out@;
    let mut i: usize = 0;
    while i < list.len()
        invariant
            i <= list@.len(),
            out@ == start + ser_bindings(list@, i as nat),
        decreases list@.len() - i,
    {
        let b = list[i];
        write_id(out, b.buffer);
        write_u8(
            out,
            match b.kind {
                BindingKind::Uniform => 0,
                BindingKind::StorageReadOnly => 1,
                BindingKind::StorageReadWrite => 2,
            },
        );
        assert(out@ =~= start + ser_bindings(list@, (i + 1) as nat));
        i += 1;
    }
    assert(out@ =~= old(out)@ + ser_binding_list(list@));
}

pub(crate) fn write_string(out: &mut Vec<u8>, s: &str)
    ensures
        final(out)@ == old(out)@ + ser_string(s@),
{
    let bytes = s.as_bytes();
    write_u64(out, bytes.len() as u64);
    extend_u8(out, bytes);
    assert(out@ =~= old(out)@ + ser_string(s@));
}

/// Appends the bytes of one action.
pub fn write_action(out: &mut Vec<u8>, action: &DeviceAction)
    ensures
        final(out)@ == old(out)@ + ser_action(action@),
{
    match action {
        DeviceAction::CreateTexture(id, desc, swap_chain) => {
            write_u32(out, 0);
            write_id(out, *id);
            write_texture(out, desc);
            write_option_u64(out, *swap_chain);
        },
        DeviceAction::CreateBindGroupLayout(id, n) => {
            write_u32(out, 1);
            write_id(out, *id);
            write_u32(out, *n);
        },
        DeviceAction::CreatePipelineLayout(id, desc) => {
            write_u32(out, 2);
            write_id(out, *id);
            write_id_list(out, &desc.bind_group_layouts);
            write_u32(out, desc.push_constant_size);
        },
        DeviceAction::CreateBindGroup(id, desc) => {
            write_u32(out, 3);
            write_id(out, *id);
            write_id(out, desc.layout);
            write_binding_list(out, &desc.entries);
        },
        DeviceAction::CreateComputePipeline(id, layout) => {
            write_u32(out, 4);
            write_id(out, *id);
            write_id(out, *layout);
        },
        DeviceAction::CreateCommandEncoder(id) => {
            write_u32(out, 5);
            write_id(out, *id);
        },
        DeviceAction::Error { message, kind } => {
            write_u32(out, 6);
            write_string(out, message.as_str());
            write_u8(
                out,
                match kind {
                    ErrorBufferType::DeviceLost => 0,
                    ErrorBufferType::Internal => 1,
                    ErrorBufferType::OutOfMemory => 2,
                    ErrorBufferType::Validation => 3,
                },
            );
        },
    }
    assert(out@ =~= old(out)@ + ser_action(action@));
}

/// Lays a batch of actions out in bytes.
pub fn encode_batch(actions: &Vec<DeviceAction>) -> (out: Vec<u8>)
    ensures
        out@ == ser_batch(actions_view(actions@)),
{
    let mut out: Vec<u8> = Vec::new();
    write_u64(&mut out, actions.len() as u64);
    let ghost start = out@;
    let ghost list = actions_view(actions@);
    let mut i: usize = 0;
    while i < actions.len()
        invariant
            i <= actions@.len(),
            list == actions_view(actions@),
            out@ == start + ser_actions(list, i as nat),
        decreases actions@.len() - i,
    {
        write_action(&mut out, &actions[i]);
        assert(list[i as int] == actions@[i as int]@);
        assert(out@ =~= start + ser_actions(list, (i + 1) as nat));
        i += 1;
    }
    assert(out@ =~= ser_batch(list));
    out
}

pub(crate) fn read_u8(bytes: &[u8], pos: usize) -> (r: Option<(u8, usize)>)
    ensures
        match r {
            Some((v, next)) => p_u8(bytes@, pos as int) == Some((v, next as int)),
            None => p_u8(bytes@, pos as int) is None,
        },
{
    if pos < bytes.len() {
        Some((bytes[pos], pos + 1))
    } else {
        None
    }
}

pub(crate) fn read_u32(bytes: &[u8], pos: usize) -> (r: Option<(u32, usize)>)
    ensures
        match r {
            Some((v, next)) => p_u32(bytes@, pos as int) == Some((v, next as int)),
            None => p_u32(bytes@, pos as int) is None,
        },
{
    if pos > bytes.len() || bytes.len() - pos < 4 {
        return None;
    }
    let part = slice_subrange(bytes, pos, pos + 4);
    Some((u32_from_le_bytes(part), pos + 4))
}

pub(crate) fn read_u64(bytes: &[u8], pos: usize) -> (r: Option<(u64, usize)>)
    ensures
        match r {
            Some((v, next)) => p_u64(bytes@, pos as int) == Some((v, next as int)),
            None => p_u64(bytes@, pos as int) is None,
        },
{
    if pos > bytes.len() || bytes.len() - pos < 8 {
        return None;
    }
    let part = slice_subrange(bytes, pos, pos + 8);
    Some((u64_from_le_bytes(part), pos + 8))
}

pub(crate) fn read_id(bytes: &[u8], pos: usize) -> (r: Option<(Id, usize)>)
    ensures
        match r {
            Some((v, next)) => p_id(bytes@, pos as int) == Some((v, next as int)),
            None => p_id(bytes@, pos as int) is None,
        },
{
    let (index, a) = match read_u32(bytes, pos) {
        Some(x) => x,
        None => {
            return None;
        },
    };
    let (generation, b) = match read_u32(bytes, a) {
        Some(x) => x,
        None => {
            return None;
        },
    };
    let (code, c) = match read_u8(bytes, b) {
        Some(x) => x,
        None => {
            return None;
        },
    };
    let backend = if code == 0 {
        Backend::Noop
    } else if code == 1 {
        Backend::Vulkan
    } else if code == 2 {
        Backend::Metal
    } else if code == 3 {
        Backend::Dx12
    } else if code == 4 {
        Backend::Gl
    } else if code == 5 {
        Backend::BrowserWebGpu
    } else {
        return None;
    };
    Some((Id::zip(index, generation, backend), c))
}

fn read_texture(bytes: &[u8], pos: usize) -> (r: Option<(TextureDescriptor, usize)>)
    ensures
        match r {
            Some((v, next)) => p_texture(bytes@, pos as int) == Some((v, next as int)),
            None => p_texture(bytes@, pos as int) is None,
        },
{
    let (width, a) = match read_u32(bytes, pos) {
        Some(x) => x,
        None => {
            return None;
        },
    };
    let (height, b) = match read_u32(bytes, a) {
        Some(x) => x,
        None => {
            return None;
        },
    };
    let (depth_or_array_layers, c) = match read_u32(bytes, b) {
        Some(x) => x,
        None => {
            return None;
        },
    };
    let (code, d) = match read_u8(bytes, c) {
        Some(x) => x,
        None => {
            return None;
        },
    };
    let format = if code == 0 {
        TextureFormat::Rgba8Unorm
    } else if code == 1 {
        TextureFormat::Bgra8Unorm
    } else if code == 2 {
        TextureFormat::Other
    } else {
        return None;
    };
    let (usage, e) = match read_u32(bytes, d) {
        Some(x) => x,
        None => {
            return None;
        },
    };
    Some((TextureDescriptor { width, height, depth_or_array_layers, format, usage }, e))
}

fn read_option_u64(bytes: &[u8], pos: usize) -> (r: Option<(Option<u64>, usize)>)
    ensures
        match r {
            Some((v, next)) => p_option_u64(bytes@, pos as int) == Some((v, next as int)),
            None => p_option_u64(bytes@, pos as int) is None,
        },
{
    let (tag, a) = match read_u8(bytes, pos) {
        Some(x) => x,
        None => {
            return None;
        },
    };
    if tag == 0 {
        Some((None, a))
    } else if tag == 1 {
        match read_u64(bytes, a) {
            Some((x, b)) => Some((Some(x), b)),
            None => None,
        }
    } else {
        None
    }
}

fn read_id_list(bytes: &[u8], pos: usize) -> (r: Option<(Vec<Id>, usize)>)
    ensures
        match r {
            Some((v, next)) => p_id_list(bytes@, pos as int) == Some((v@, next as int)),
            None => p_id_list(bytes@, pos as int) is None,
        },
{
    let (n, a) = match read_u64(bytes, pos) {
        Some(x) => x,
        None => {
            return None;
        },
    };
    let mut list: Vec<Id> = Vec::new();
    let mut at = a;
    let mut i: u64 = 0;
    while i < n
        invariant
            i <= n,
            p_u64(bytes@, pos as int) == Some((n, a as int)),
            p_ids(bytes@, a as int, i as nat) == Some((list@, at as int)),
        decreases n - i,
    {
        match read_id(bytes, at) {
            Some((id, next)) => {
                list.push(id);
                at = next;
            },
            None => {
                proof {
                    assert(p_ids(bytes@, a as int, (i + 1) as nat) is None);
                    lemma_ids_stop(bytes@, a as int, (i + 1) as nat, n as nat);
                }
                return None;
            },
        }
        i += 1;
    }
    Some((list, at))
}

/// Once an identifier cannot be read, no longer list can.
pub proof fn lemma_ids_stop(bytes: Seq<u8>, pos: int, n: nat, m: nat)
    requires
        n <= m,
        p_ids(bytes, pos, n) is None,
    ensures
        p_ids(bytes, pos, m) is None,
    decreases m,
{
    if n < m {
        lemma_ids_stop(bytes, pos, n, (m - 1) as nat);
    }
}

/// Once a binding cannot be read, no longer list can.
pub proof fn lemma_bindings_stop(bytes: Seq<u8>, pos: int, n: nat, m: nat)
    requires
        n <= m,
        p_bindings(bytes, pos, n) is None,
    ensures
        p_bindings(bytes, pos, m) is None,
    decreases m,
{
    if n < m {
        lemma_bindings_stop(bytes, pos, n, (m - 1) as nat);
    }
}

/// Once an action cannot be read, no longer batch can.
pub proof fn lemma_actions_stop(bytes: Seq<u8>, pos: int, n: nat, m: nat)
    requires
        n <= m,
        p_actions(bytes, pos, n) is None,
    ensures
        p_actions(bytes, pos, m) is None,
    decreases m,
{
    if n < m {
        lemma_actions_stop(bytes, pos, n, (m - 1) as nat);
    }
}

fn read_binding_list(bytes: &[u8], pos: usize) -> (r: Option<(Vec<BufferBinding>, usize)>)
    ensures
        match r {
            Some((v, next)) => p_binding_list(bytes@, pos as int) == Some((v@, next as int)),
            None => p_binding_list(bytes@, pos as int) is None,
        },
{
    let (n, a) = match read_u64(bytes, pos) {
        Some(x) => x,
        None => {
            return None;
        },
    };
    let mut list: Vec<BufferBinding> = Vec::new();
    let mut at = a;
    let mut i: u64 = 0;
    while i < n
        invariant
            i <= n,
            p_u64(bytes@, pos as int) == Some((n, a as int)),
            p_bindings(bytes@, a as int, i as nat) == Some((list@, at as int)),
        decreases n - i,
    {
        let item = match read_id(bytes, at) {
            None => None,
            Some((buffer, b)) => match read_u8(bytes, b) {
                None => None,
                Some((code, c)) => if code == 0 {
                    Some((BufferBinding { buffer, kind: BindingKind::Uniform }, c))
                } else if code == 1 {
                    Some((BufferBinding { buffer, kind: BindingKind::StorageReadOnly }, c))
                } else if code == 2 {
                    Some((BufferBinding { buffer, kind: BindingKind::StorageReadWrite }, c))
                } else {
                    None
                },
            },
        };
        match item {
            Some((binding, next)) => {
                list.push(binding);
                at = next;
            },
            None => {
                proof {
                    assert(p_bindings(bytes@, a as int, (i + 1) as nat) is None);
                    lemma_bindings_stop(bytes@, a as int, (i + 1) as nat, n as nat);
                }
                return None;
            },
        }
        i += 1;
    }
    Some((list, at))
}

pub(crate) fn read_string(bytes: &[u8], pos: usize) -> (r: Option<(String, usize)>)
    ensures
        match r {
            Some((v, next)) => p_string(bytes@, pos as int) == Some((v@, next as int)),
            None => p_string(bytes@, pos as int) is None,
        },
{
    let (n, a) = match read_u64(bytes, pos) {
        Some(x) => x,
        None => {
            return None;
        },
    };
    if n > (bytes.len() - a) as u64 {
        return None;
    }
    let end = a + n as usize;
    let part = vstd::slice::slice_to_vec(slice_subrange(bytes, a, end));
    match string_from_utf8(part) {
        Some(s) => Some((s, end)),
        None => None,
    }
}

/// Reads one action at a place in bytes. Gives the action and the place
/// after it, or nothing if no action stands there.
pub fn read_action(bytes: &[u8], pos: usize) -> (r: Option<(DeviceAction, usize)>)
    ensures
        match r {
            Some((v, next)) => p_action(bytes@, pos as int) == Some((v@, next as int)),
            None => p_action(bytes@, pos as int) is None,
        },
{
    let (tag, a) = match read_u32(bytes, pos) {
        Some(x) => x,
        None => {
            return None;
        },
    };
    if tag == 0 {
        let (id, b) = match read_id(bytes, a) {
            Some(x) => x,
            None => {
                return None;
            },
        };
        let (desc, c) = match read_texture(bytes, b) {
            Some(x) => x,
            None => {
                return None;
            },
        };
        match read_option_u64(bytes, c) {
            Some((swap_chain, d)) => Some((DeviceAction::CreateTexture(id, desc, swap_chain), d)),
            None => None,
        }
    } else if tag == 1 {
        let (id, b) = match read_id(bytes, a) {
            Some(x) => x,
            None => {
                return None;
            },
        };
        match read_u32(bytes, b) {
            Some((n, c)) => Some((DeviceAction::CreateBindGroupLayout(id, n), c)),
            None => None,
        }
    } else if tag == 2 {
        let (id, b) = match read_id(bytes, a) {
            Some(x) => x,
            None => {
                return None;
            },
        };
        let (bind_group_layouts, c) = match read_id_list(bytes, b) {
            Some(x) => x,
            None => {
                return None;
            },
        };
        match read_u32(bytes, c) {
            Some((push_constant_size, d)) => Some(
                (
                    DeviceAction::CreatePipelineLayout(
                        id,
                        PipelineLayoutDescriptor { bind_group_layouts, push_constant_size },
                    ),
                    d,
                ),
            ),
            None => None,
        }
    } else if tag == 3 {
        let (id, b) = match read_id(bytes, a) {
            Some(x) => x,
            None => {
                return None;
            },
        };
        let (layout, c) = match read_id(bytes, b) {
            Some(x) => x,
            None => {
                return None;
            },
        };
        match read_binding_list(bytes, c) {
            Some((entries, d)) => Some(
                (DeviceAction::CreateBindGroup(id, BindGroupDescriptor { layout, entries }), d),
            ),
            None => None,
        }
    } else if tag == 4 {
        let (id, b) = match read_id(bytes, a) {
            Some(x) => x,
            None => {
                return None;
            },
        };
        match read_id(bytes, b) {
            Some((layout, c)) => Some((DeviceAction::CreateComputePipeline(id, layout), c)),
            None => None,
        }
    } else if tag == 5 {
        match read_id(bytes, a) {
            Some((id, b)) => Some((DeviceAction::CreateCommandEncoder(id), b)),
            None => None,
        }
    } else if tag == 6 {
        let (message, b) = match read_string(bytes, a) {
            Some(x) => x,
            None => {
                return None;
            },
        };
        let (code, c) = match read_u8(bytes, b) {
            Some(x) => x,
            None => {
                return None;
            },
        };
        let kind = if code == 0 {
            ErrorBufferType::DeviceLost
        } else if code == 1 {
            ErrorBufferType::Internal
        } else if code == 2 {
            ErrorBufferType::OutOfMemory
        } else if code == 3 {
            ErrorBufferType::Validation
        } else {
            return None;
        };
        Some((DeviceAction::Error { message, kind }, c))
    } else {
        None
    }
}

/// Reads bytes as a batch of actions. Succeeds exactly on bytes that are a
/// batch of actions and nothing else, and gives the actions.
pub fn decode_batch(bytes: &[u8]) -> (r: Result<Vec<DeviceAction>, WireError>)
    ensures
        match r {
            Ok(v) => p_batch(bytes@) == Some(actions_view(v@)),
            Err(_) => p_batch(bytes@) is None,
        },
{
    let (n, a) = match read_u64(bytes, 0) {
        Some(x) => x,
        None => {
            return Err(WireError::Malformed);
        },
    };
    let mut list: Vec<DeviceAction> = Vec::new();
    let mut at = a;
    let mut i: u64 = 0;
    while i < n
        invariant
            i <= n,
            p_u64(bytes@, 0) == Some((n, a as int)),
            p_actions(bytes@, a as int, i as nat) == Some((actions_view(list@), at as int)),
        decreases n - i,
    {
        match read_action(bytes, at) {
            Some((action, next)) => {
                let ghost before = actions_view(list@);
                list.push(action);
                assert(actions_view(list@) =~= before.push(action@));
                at = next;
            },
            None => {
                proof {
                    assert(p_actions(bytes@, a as int, (i + 1) as nat) is None);
                    lemma_actions_stop(bytes@, a as int, (i + 1) as nat, n as nat);
                }
                return Err(WireError::Malformed);
            },
        }
        i += 1;
    }
    if at != bytes.len() {
        return Err(WireError::Malformed);
    }
    Ok(list)
}

} // verus!
