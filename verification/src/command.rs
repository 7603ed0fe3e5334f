//! The transcript of a compute pass and the errors of recording and replay.

use vstd::prelude::*;
use crate::id::Id;
use crate::registry::InvalidResourceError;
use crate::resource::{BindGroupInfo, Buffer, ComputePipeline};
use crate::track::UsedBuffer;
use crate::usage::ResourceUsageCompatibilityError;

verus! {

/// Push constant offsets and sizes are multiples of this many bytes.
pub const PUSH_CONSTANT_ALIGNMENT: u32 = 4;

/// The bytes that the arguments of an indirect dispatch take.
pub const DISPATCH_INDIRECT_ARGS_SIZE: u64 = 12;

/// A compute command as a client hands it over: resources by identifier.
#[allow(inconsistent_fields)]
#[derive(Clone, Copy, Debug, PartialEq, Eq, Structural)]
pub enum ComputeCommand {
    SetBindGroup { index: u32, num_dynamic_offsets: usize, bind_group_id: Option<Id> },
    SetPipeline(Id),
    /// Sets the push constants at byte `offset` to `size_bytes` bytes that
    /// start at word `values_offset` of the push constant table.
    SetPushConstant { offset: u32, size_bytes: u32, values_offset: u32 },
    Dispatch { x: u32, y: u32, z: u32 },
    DispatchIndirect { buffer_id: Id, offset: u64 },
    PushDebugGroup { color: u32, len: usize },
    PopDebugGroup,
    InsertDebugMarker { color: u32, len: usize },
}

/// A compute command after resolution: resources by handle. What a bind
/// group uses stands in the pass's table of used buffers, `num_used` entries
/// for this command.
#[allow(inconsistent_fields)]
#[derive(Clone, Copy, Debug)]
pub enum ArcComputeCommand {
    SetBindGroup {
        index: u32,
        num_dynamic_offsets: usize,
        bind_group: Option<BindGroupInfo>,
        num_used: usize,
    },
    SetPipeline(ComputePipeline),
    SetPushConstant { offset: u32, size_bytes: u32, values_offset: u32 },
    Dispatch { x: u32, y: u32, z: u32 },
    DispatchIndirect { buffer: Buffer, offset: u64 },
    PushDebugGroup { color: u32, len: usize },
    PopDebugGroup,
    InsertDebugMarker { color: u32, len: usize },
}

/// The transcript of a pass: its commands in order, and the tables that
/// hold what the commands are too small for.
pub struct BasePass<C> {
    pub label: Option<String>,
    pub commands: Vec<C>,
    /// The dynamic offsets of all `SetBindGroup` commands, in order.
    pub dynamic_offsets: Vec<u32>,
    /// The bytes of all debug labels, in order.
    pub string_data: Vec<u8>,
    /// The words of all push constant uploads, in order.
    pub push_constant_data: Vec<u32>,
}

/// The characters of a label, if there is one.
pub open spec fn label_view(label: Option<String>) -> Option<Seq<char>> {
    match label {
        Some(l) => Some(l@),
        None => None,
    }
}

/// What a transcript holds.
pub struct TranscriptView<C> {
    pub label: Option<Seq<char>>,
    pub commands: Seq<C>,
    pub dynamic_offsets: Seq<u32>,
    pub string_data: Seq<u8>,
    pub push_constant_data: Seq<u32>,
}

impl<C> BasePass<C> {
    pub open spec fn view(&self) -> TranscriptView<C> {
        TranscriptView {
            label: label_view(self.label),
            commands: self.commands@,
            dynamic_offsets: self.dynamic_offsets@,
            string_data: self.string_data@,
            push_constant_data: self.push_constant_data@,
        }
    }

    /// A transcript without commands.
    pub fn new(label: Option<String>) -> (base: Self)
        ensures
            base.label == label,
            base@ == (TranscriptView::<C> {
                label: label_view(label),
                commands: Seq::empty(),
                dynamic_offsets: Seq::empty(),
                string_data: Seq::empty(),
                push_constant_data: Seq::empty(),
            }),
    {
        BasePass {
            label,
            commands: Vec::new(),
            dynamic_offsets: Vec::new(),
            string_data: Vec::new(),
            push_constant_data: Vec::new(),
        }
    }
}

/// The operation during which a pass error came up.
#[derive(Clone, Copy, Debug, PartialEq, Eq, Structural)]
pub enum PassErrorScope {
    Pass,
    SetBindGroup,
    SetPipelineCompute,
    SetPushConstant,
    Dispatch { indirect: bool },
    PushDebugGroup,
    PopDebugGroup,
    InsertDebugMarker,
}

/// A device that can no longer be used.
#[derive(Clone, Copy, Debug, PartialEq, Eq, Structural)]
pub enum DeviceError {
    Lost,
    OutOfMemory,
    /// The resource belongs to another device.
    DeviceMismatch,
}

/// A command encoder that is not in the state an operation needs.
#[derive(Clone, Copy, Debug, PartialEq, Eq, Structural)]
pub enum EncoderStateError {
    /// The encoder is a placeholder for one that could not be created.
    Invalid,
    /// The encoder was finished.
    Ended,
    /// A pass is open on the encoder.
    Locked,
    /// No pass is open on the encoder.
    Unlocked,
}

/// Why the bind groups that are bound do not fit the pipeline.
#[derive(Clone, Copy, Debug, PartialEq, Eq, Structural)]
pub enum BinderError {
    /// The pipeline expects a bind group at the slot and none is bound.
    MissingBindGroup { index: usize },
    /// The bind group at the slot has another layout than the pipeline
    /// expects.
    IncompatibleBindGroup { index: usize, expected: Id, assigned: Id },
}

/// Why a dispatch cannot run.
#[derive(Clone, Copy, Debug, PartialEq, Eq, Structural)]
pub enum DispatchError {
    MissingPipeline,
    IncompatibleBindGroup(BinderError),
    InvalidGroupSize { x: u32, y: u32, z: u32, limit: u32 },
}

/// Why a bind group cannot be bound.
#[derive(Clone, Copy, Debug, PartialEq, Eq, Structural)]
pub enum BindError {
    MismatchedDynamicOffsetCount { group: u32, expected: usize, actual: usize },
}

/// Why push constants cannot be uploaded.
#[derive(Clone, Copy, Debug, PartialEq, Eq, Structural)]
pub enum PushConstantUploadError {
    /// The `size_bytes` bytes from `offset` on reach beyond the `max` bytes
    /// that the pipeline layout lets compute shaders see.
    TooLarge { offset: u32, size_bytes: u32, max: u32 },
}

/// A buffer that lacks a usage an operation needs.
#[derive(Clone, Copy, Debug, PartialEq, Eq, Structural)]
pub struct MissingBufferUsageError {
    pub buffer: Id,
    pub actual: u32,
    pub expected: u32,
}

/// What can go wrong in a compute pass.
#[derive(Clone, Copy, Debug, PartialEq, Eq, Structural)]
pub enum ComputePassErrorInner {
    Device(DeviceError),
    EncoderState(EncoderStateError),
    InvalidParentEncoder,
    BindGroupIndexOutOfRange { index: u32, max: u32 },
    DestroyedResource(Id),
    UnalignedIndirectBufferOffset(u64),
    IndirectBufferOverrun { offset: u64, end_offset: u64, buffer_size: u64 },
    ResourceUsageCompatibility(ResourceUsageCompatibilityError),
    MissingBufferUsage(MissingBufferUsageError),
    InvalidPopDebugGroup,
    Dispatch(DispatchError),
    Bind(BindError),
    PushConstants(PushConstantUploadError),
    PushConstantOffsetAlignment,
    PushConstantSizeAlignment,
    PushConstantOutOfMemory,
    /// Indirect dispatches are not available on the device.
    MissingDownlevelFlags,
    /// The transcript refers to table entries that it does not have.
    MalformedTranscript,
    PassEnded,
    InvalidResource(InvalidResourceError),
}

/// An error of a compute pass, with the operation it came up in.
#[derive(Clone, Copy, Debug, PartialEq, Eq, Structural)]
pub struct ComputePassError {
    pub scope: PassErrorScope,
    pub inner: ComputePassErrorInner,
}

/// What was bound last at one slot of a pass.
pub struct LastBinding {
    pub group: Option<Id>,
    pub offsets: Seq<u32>,
}

/// What a compute pass holds.
pub struct ComputePassView {
    /// Whether the pass was ended.
    pub ended: bool,
    /// The encoder the pass belongs to, if it got one.
    pub parent: Option<Id>,
    pub label: Option<Seq<char>>,
    pub commands: Seq<ArcComputeCommand>,
    pub dynamic_offsets: Seq<u32>,
    pub string_data: Seq<u8>,
    pub push_constant_data: Seq<u32>,
    /// What the bind groups of all `SetBindGroup` commands use, in order.
    pub used_buffers: Seq<UsedBuffer>,
    /// What was bound last at each slot, if anything.
    pub bound: Seq<Option<LastBinding>>,
    /// The pipeline that was set last, if any.
    pub pipeline: Option<Id>,
}

/// The binding that a pass remembers for one slot.
pub struct SlotState {
    pub set: bool,
    pub group: Option<Id>,
    pub offsets: Vec<u32>,
}

impl SlotState {
    pub open spec fn view(&self) -> Option<LastBinding> {
        if self.set {
            Some(LastBinding { group: self.group, offsets: self.offsets@ })
        } else {
            None
        }
    }
}

/// A compute pass that is being recorded, or was ended.
pub struct ComputePass {
    /// The transcript; `None` once the pass was ended.
    pub base: Option<BasePass<ArcComputeCommand>>,
    /// The encoder the pass records into; `None` if the pass never got one.
    pub parent: Option<Id>,
    /// What the bind groups of the transcript use.
    pub used_buffers: Vec<UsedBuffer>,
    /// The last binding of each slot, to leave out what changes nothing.
    pub current_bind_groups: Vec<SlotState>,
    /// The pipeline set last, to leave out what changes nothing.
    pub current_pipeline: Option<Id>,
}

impl ComputePass {
    pub open spec fn wf(&self) -> bool {
        self.current_bind_groups@.len() == crate::resource::MAX_BIND_GROUPS
    }

    pub open spec fn view(&self) -> ComputePassView {
        ComputePassView {
            ended: self.base is None,
            parent: self.parent,
            label: match self.base {
                Some(base) => label_view(base.label),
                None => None,
            },
            commands: match self.base {
                Some(base) => base.commands@,
                None => Seq::empty(),
            },
            dynamic_offsets: match self.base {
                Some(base) => base.dynamic_offsets@,
                None => Seq::empty(),
            },
            string_data: match self.base {
                Some(base) => base.string_data@,
                None => Seq::empty(),
            },
            push_constant_data: match self.base {
                Some(base) => base.push_constant_data@,
                None => Seq::empty(),
            },
            used_buffers: self.used_buffers@,
            bound: Seq::new(
                self.current_bind_groups@.len(),
                |i: int| self.current_bind_groups@[i]@,
            ),
            pipeline: self.current_pipeline,
        }
    }

    /// What a pass holds that has recorded nothing.
    pub open spec fn new_view(parent: Option<Id>, label: Option<Seq<char>>) -> ComputePassView {
        ComputePassView {
            ended: false,
            parent,
            label,
            commands: Seq::empty(),
            dynamic_offsets: Seq::empty(),
            string_data: Seq::empty(),
            push_constant_data: Seq::empty(),
            used_buffers: Seq::empty(),
            bound: Seq::new(8, |i: int| None::<LastBinding>),
            pipeline: None,
        }
    }

    /// A pass with an empty transcript. Without a parent the pass is
    /// invalid: it records, but cannot be replayed.
    pub fn new(parent: Option<Id>, label: Option<String>) -> (pass: Self)
        ensures
            pass.wf(),
            pass@ == Self::new_view(parent, label_view(label)),
    {
        let mut slots: Vec<SlotState> = Vec::new();
        while slots.len() < 8
            invariant
                slots@.len() <= 8,
                forall|i: int| 0 <= i < slots@.len() ==> !(#[trigger] slots@[i]).set,
            decreases 8 - slots@.len(),
        {
            slots.push(SlotState { set: false, group: None, offsets: Vec::new() });
        }
        let pass = ComputePass {
            base: Some(BasePass::new(label)),
            parent,
            used_buffers: Vec::new(),
            current_bind_groups: slots,
            current_pipeline: None,
        };
        assert(pass@.bound =~= Seq::new(8, |i: int| None::<LastBinding>));
        assert(pass@.used_buffers =~= Seq::<UsedBuffer>::empty());
        pass
    }

    /// The label the pass was given, while it is open.
    pub fn label(&self) -> (l: Option<&str>)
        ensures
            match l {
                Some(s) => self@.label == Some(s@),
                None => self@.label is None,
            },
    {
        match &self.base {
            Some(base) => match &base.label {
                Some(label) => Some(label.as_str()),
                None => None,
            },
            None => None,
        }
    }
}

/// Appends a slice to a vector.
pub fn extend_u32(v: &mut Vec<u32>, s: &[u32])
    ensures
        final(v)@ == old(v)@ + s@,
{
    let mut i: usize = 0;
    while i < s.len()
        invariant
            i <= s@.len(),
            v@ == old(v)@ + s@.take(i as int),
        decreases s@.len() - i,
    {
        v.push(s[i]);
        assert(s@.take(i + 1) =~= s@.take(i as int).push(s@[i as int]));
        i += 1;
    }
    assert(s@.take(s@.len() as int) =~= s@);
}

/// Appends a slice to a vector.
pub fn extend_u8(v: &mut Vec<u8>, s: &[u8])
    ensures
        final(v)@ == old(v)@ + s@,
{
    let mut i: usize = 0;
    while i < s.len()
        invariant
            i <= s@.len(),
            v@ == old(v)@ + s@.take(i as int),
        decreases s@.len() - i,
    {
        v.push(s[i]);
        assert(s@.take(i + 1) =~= s@.take(i as int).push(s@[i as int]));
        i += 1;
    }
    assert(s@.take(s@.len() as int) =~= s@);
}

/// Appends the entries `start..start + len` of a vector to another.
pub fn append_range_u32(dst: &mut Vec<u32>, src: &Vec<u32>, start: usize, len: usize)
    requires
        start + len <= src@.len(),
    ensures
        final(dst)@ == old(dst)@ + src@.subrange(start as int, start + len),
{
    let n = src.len();
    let mut k: usize = 0;
    while k < len
        invariant
            n == src@.len(),
            start + len <= src@.len(),
            k <= len,
            dst@ == old(dst)@ + src@.subrange(start as int, start + k),
        decreases len - k,
    {
        dst.push(src[start + k]);
        assert(src@.subrange(start as int, start + k + 1) =~= src@.subrange(
            start as int,
            start + k,
        ).push(src@[start + k]));
        k += 1;
    }
}

/// Appends the entries `start..start + len` of a vector to another.
pub fn append_range_u8(dst: &mut Vec<u8>, src: &Vec<u8>, start: usize, len: usize)
    requires
        start + len <= src@.len(),
    ensures
        final(dst)@ == old(dst)@ + src@.subrange(start as int, start + len),
{
    let n = src.len();
    let mut k: usize = 0;
    while k < len
        invariant
            n == src@.len(),
            start + len <= src@.len(),
            k <= len,
            dst@ == old(dst)@ + src@.subrange(start as int, start + k),
        decreases len - k,
    {
        dst.push(src[start + k]);
        assert(src@.subrange(start as int, start + k + 1) =~= src@.subrange(
            start as int,
            start + k,
        ).push(src@[start + k]));
        k += 1;
    }
}

/// Writes the entries `start..start + len` of a vector over the entries of
/// another from `at` on.
pub fn overwrite_u32(dst: &mut Vec<u32>, at: usize, src: &Vec<u32>, start: usize, len: usize)
    requires
        at + len <= old(dst)@.len(),
        start + len <= src@.len(),
    ensures
        final(dst)@ == old(dst)@.subrange(0, at as int) + src@.subrange(
            start as int,
            start + len,
        ) + old(dst)@.subrange(at + len, old(dst)@.len() as int),
{
    let n = src.len();
    let m = dst.len();
    let mut k: usize = 0;
    while k < len
        invariant
            n == src@.len(),
            m == dst@.len(),
            m == old(dst)@.len(),
            at + len <= m,
            start + len <= n,
            k <= len,
            forall|j: int| 0 <= j < at ==> dst@[j] == old(dst)@[j],
            forall|j: int| at <= j < at + k ==> dst@[j] == src@[start + j - at],
            forall|j: int| at + k <= j < m ==> dst@[j] == old(dst)@[j],
        decreases len - k,
    {
        dst.set(at + k, src[start + k]);
        k += 1;
    }
    assert(dst@ =~= old(dst)@.subrange(0, at as int) + src@.subrange(start as int, start + len)
        + old(dst)@.subrange(at + len, old(dst)@.len() as int));
}

/// Appends zeros to a vector.
pub fn append_zeros(dst: &mut Vec<u32>, count: usize)
    ensures
        final(dst)@ == old(dst)@ + Seq::new(count as nat, |i: int| 0u32),
{
    let mut k: usize = 0;
    while k < count
        invariant
            k <= count,
            dst@ == old(dst)@ + Seq::new(k as nat, |i: int| 0u32),
        decreases count - k,
    {
        dst.push(0);
        assert(Seq::new((k + 1) as nat, |i: int| 0u32) =~= Seq::new(k as nat, |i: int| 0u32).push(
            0u32,
        ));
        k += 1;
    }
}

/// Whether a slice holds exactly the values of a vector.
pub fn same_u32(v: &Vec<u32>, s: &[u32]) -> (b: bool)
    ensures
        b == (v@ == s@),
{
    if v.len() != s.len() {
        return false;
    }
    let mut i: usize = 0;
    while i < s.len()
        invariant
            v@.len() == s@.len(),
            i <= s@.len(),
            forall|j: int| 0 <= j < i ==> v@[j] == s@[j],
        decreases s@.len() - i,
    {
        if v[i] != s[i] {
            return false;
        }
        i += 1;
    }
    assert(v@ =~= s@);
    true
}

} // verus!
