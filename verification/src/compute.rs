//! Recording a compute pass: every call checks that the pass is open,
//! leaves out what would change nothing, resolves identifiers to handles,
//! and appends to the transcript.

use vstd::prelude::*;
use vstd::string::StringSliceAdditionalSpecFns;
use crate::command::{
    label_view, extend_u32, extend_u8, same_u32, ArcComputeCommand, ComputePass, ComputePassError,
    ComputePassErrorInner, ComputePassView, EncoderStateError, LastBinding, PassErrorScope,
    SlotState,
};

use crate::global::Global;
use crate::id::Id;
use crate::registry::InvalidResourceError;
use crate::resource::MAX_BIND_GROUPS;
use crate::track::UsedBuffer;

verus! {

/// Why a pass could not be begun on an encoder.
#[derive(Clone, Copy, Debug, PartialEq, Eq, Structural)]
pub enum CommandEncoderError {
    InvalidResource(InvalidResourceError),
    EncoderState(EncoderStateError),
}

/// The error of a call on a pass that was ended.
pub open spec fn pass_ended(scope: PassErrorScope) -> ComputePassError {
    ComputePassError { scope, inner: ComputePassErrorInner::PassEnded }
}

/// A pass with one more command.
pub open spec fn with_command(p: ComputePassView, c: ArcComputeCommand) -> ComputePassView {
    ComputePassView { commands: p.commands.push(c), ..p }
}

/// Whether binding the group at the slot with the offsets would change
/// nothing: the same was bound there last.
pub open spec fn redundant_binding(
    p: ComputePassView,
    index: u32,
    group: Option<Id>,
    offsets: Seq<u32>,
) -> bool {
    (index as int) < p.bound.len() && p.bound[index as int] == Some(
        LastBinding { group, offsets },
    )
}

/// The word that four bytes make, the first byte being the lowest.
pub open spec fn word_of(b0: u8, b1: u8, b2: u8, b3: u8) -> u32 {
    (b0 as int + 256 * (b1 as int) + 65536 * (b2 as int) + 16777216 * (b3 as int)) as u32
}

/// The words that bytes make, four by four.
pub open spec fn words_of(data: Seq<u8>) -> Seq<u32> {
    Seq::new(
        data.len() / 4,
        |i: int| word_of(data[4 * i], data[4 * i + 1], data[4 * i + 2], data[4 * i + 3]),
    )
}

impl Global {
    /// What recording `set_bind_group` does to a pass, and what it answers.
    pub open spec fn set_bind_group_spec(
        &self,
        p: ComputePassView,
        index: u32,
        group: Option<Id>,
        offsets: Seq<u32>,
    ) -> (ComputePassView, Result<(), ComputePassError>) {
        if p.ended {
            (p, Err(pass_ended(PassErrorScope::SetBindGroup)))
        } else if redundant_binding(p, index, group, offsets) {
            (p, Ok(()))
        } else if group is Some && !self.bind_groups.is_valid(group->0) {
            (
                p,
                Err(
                    ComputePassError {
                        scope: PassErrorScope::SetBindGroup,
                        inner: ComputePassErrorInner::InvalidResource(
                            InvalidResourceError { id: group->0 },
                        ),
                    },
                ),
            )
        } else {
            let used = match group {
                Some(id) => self.bind_groups.resource(id).used@,
                None => Seq::empty(),
            };
            (
                ComputePassView {
                    commands: p.commands.push(
                        ArcComputeCommand::SetBindGroup {
                            index,
                            num_dynamic_offsets: offsets.len() as usize,
                            bind_group: match group {
                                Some(id) => Some(self.bind_groups.resource(id).info),
                                None => None,
                            },
                            num_used: used.len() as usize,
                        },
                    ),
                    dynamic_offsets: p.dynamic_offsets + offsets,
                    used_buffers: p.used_buffers + used,
                    bound: if (index as int) < p.bound.len() {
                        p.bound.update(index as int, Some(LastBinding { group, offsets }))
                    } else {
                        p.bound
                    },
                    ..p
                },
                Ok(()),
            )
        }
    }

    /// What recording `set_pipeline` does to a pass, and what it answers.
    pub open spec fn set_pipeline_spec(&self, p: ComputePassView, pipeline: Id) -> (
        ComputePassView,
        Result<(), ComputePassError>,
    ) {
        if p.ended {
            (p, Err(pass_ended(PassErrorScope::SetPipelineCompute)))
        } else if p.pipeline == Some(pipeline) {
            (p, Ok(()))
        } else if !self.compute_pipelines.is_valid(pipeline) {
            (
                p,
                Err(
                    ComputePassError {
                        scope: PassErrorScope::SetPipelineCompute,
                        inner: ComputePassErrorInner::InvalidResource(
                            InvalidResourceError { id: pipeline },
                        ),
                    },
                ),
            )
        } else {
            (
                ComputePassView {
                    commands: p.commands.push(
                        ArcComputeCommand::SetPipeline(self.compute_pipelines.resource(pipeline)),
                    ),
                    pipeline: Some(pipeline),
                    ..p
                },
                Ok(()),
            )
        }
    }

    /// What recording an indirect dispatch does to a pass, and what it
    /// answers.
    pub open spec fn dispatch_indirect_spec(&self, p: ComputePassView, buffer: Id, offset: u64) -> (
        ComputePassView,
        Result<(), ComputePassError>,
    ) {
        if p.ended {
            (p, Err(pass_ended(PassErrorScope::Dispatch { indirect: true })))
        } else if !self.buffers.is_valid(buffer) {
            (
                p,
                Err(
                    ComputePassError {
                        scope: PassErrorScope::Dispatch { indirect: true },
                        inner: ComputePassErrorInner::InvalidResource(
                            InvalidResourceError { id: buffer },
                        ),
                    },
                ),
            )
        } else {
            (
                with_command(
                    p,
                    ArcComputeCommand::DispatchIndirect {
                        buffer: self.buffers.resource(buffer),
                        offset,
                    },
                ),
                Ok(()),
            )
        }
    }

    /// Binds a bind group, or none, at a slot of the pass.
    ///
    /// On a pass that was ended the call fails. A call that binds what was
    /// bound at the slot last, with the same offsets, records nothing. A
    /// call that names a bind group that does not exist fails. Any other
    /// call appends one command, with the offsets and with what the bind
    /// group uses. A call that fails changes nothing.
    pub fn compute_pass_set_bind_group(
        &self,
        pass: &mut ComputePass,
        index: u32,
        bind_group_id: Option<Id>,
        offsets: &[u32],
    ) -> (r: Result<(), ComputePassError>)
        requires
            self.wf(),
            old(pass).wf(),
        ensures
            final(pass).wf(),
            final(pass)@ == self.set_bind_group_spec(old(pass)@, index, bind_group_id, offsets@).0,
            r == self.set_bind_group_spec(old(pass)@, index, bind_group_id, offsets@).1,
    {
        if pass.base.is_none() {
            return Err(
                ComputePassError {
                    scope: PassErrorScope::SetBindGroup,
                    inner: ComputePassErrorInner::PassEnded,
                },
            );
        }
        if (index as usize) < 8 {
            let slot = &pass.current_bind_groups[index as usize];
            if slot.set && slot.group == bind_group_id && same_u32(&slot.offsets, offsets) {
                return Ok(());
            }
        }
        let mut info = None;
        let mut num_used: usize = 0;
        match bind_group_id {
            Some(id) => {
                match self.bind_groups.get(id) {
                    Err(e) => {
                        return Err(
                            ComputePassError {
                                scope: PassErrorScope::SetBindGroup,
                                inner: ComputePassErrorInner::InvalidResource(e),
                            },
                        );
                    },
                    Ok(group) => {
                        info = Some(group.info);
                        num_used = group.used.len();
                        let mut k: usize = 0;
                        while k < group.used.len()
                            invariant
                                k <= group.used@.len(),
                                pass.used_buffers@ == old(pass).used_buffers@ + group.used@.take(
                                    k as int,
                                ),
                                pass.base == old(pass).base,
                                pass.parent == old(pass).parent,
                                pass.current_bind_groups == old(pass).current_bind_groups,
                                pass.current_pipeline == old(pass).current_pipeline,
                            decreases group.used@.len() - k,
                        {
                            pass.used_buffers.push(group.used[k]);
                            assert(group.used@.take(k + 1) =~= group.used@.take(k as int).push(
                                group.used@[k as int],
                            ));
                            k += 1;
                        }
                        assert(group.used@.take(group.used@.len() as int) =~= group.used@);
                    },
                }
            },
            None => {
                assert(pass.used_buffers@ =~= old(pass).used_buffers@ + Seq::<UsedBuffer>::empty());
            },
        }
        let mut base = pass.base.take().unwrap();
        extend_u32(&mut base.dynamic_offsets, offsets);
        base.commands.push(
            ArcComputeCommand::SetBindGroup {
                index,
                num_dynamic_offsets: offsets.len(),
                bind_group: info,
                num_used,
            },
        );
        pass.base = Some(base);
        if (index as usize) < 8 {
            let mut copy: Vec<u32> = Vec::new();
            extend_u32(&mut copy, offsets);
            assert(copy@ =~= offsets@);
            pass.current_bind_groups.set(
                index as usize,
                SlotState { set: true, group: bind_group_id, offsets: copy },
            );
        }
        proof {
            let goal = self.set_bind_group_spec(old(pass)@, index, bind_group_id, offsets@).0;
            assert(pass@.bound =~= goal.bound);
            assert(pass@.commands =~= goal.commands);
            assert(pass@.dynamic_offsets =~= goal.dynamic_offsets);
            assert(pass@.used_buffers =~= goal.used_buffers);
        }
        Ok(())
    }

    /// Sets the pipeline of the pass.
    ///
    /// On a pass that was ended the call fails. A call that sets the
    /// pipeline that was set last records nothing. A call that names a
    /// pipeline that does not exist fails. Any other call appends one
    /// command. A call that fails changes nothing.
    pub fn compute_pass_set_pipeline(&self, pass: &mut ComputePass, pipeline_id: Id) -> (r: Result<
        (),
        ComputePassError,
    >)
        requires
            self.wf(),
            old(pass).wf(),
        ensures
            final(pass).wf(),
            final(pass)@ == self.set_pipeline_spec(old(pass)@, pipeline_id).0,
            r == self.set_pipeline_spec(old(pass)@, pipeline_id).1,
    {
        if pass.base.is_none() {
            return Err(
                ComputePassError {
                    scope: PassErrorScope::SetPipelineCompute,
                    inner: ComputePassErrorInner::PassEnded,
                },
            );
        }
        match pass.current_pipeline {
            Some(current) => {
                if current == pipeline_id {
                    return Ok(());
                }
            },
            None => {},
        }
        let pipeline = match self.compute_pipelines.get(pipeline_id) {
            Err(e) => {
                return Err(
                    ComputePassError {
                        scope: PassErrorScope::SetPipelineCompute,
                        inner: ComputePassErrorInner::InvalidResource(e),
                    },
                );
            },
            Ok(pipeline) => *pipeline,
        };
        let mut base = pass.base.take().unwrap();
        base.commands.push(ArcComputeCommand::SetPipeline(pipeline));
        pass.base = Some(base);
        pass.current_pipeline = Some(pipeline_id);
        proof {
            let goal = self.set_pipeline_spec(old(pass)@, pipeline_id).0;
            assert(pass@.bound =~= goal.bound);
        }
        Ok(())
    }

    /// Records a dispatch whose workgroup counts will be read from a
    /// buffer. Fails on a pass that was ended and on a buffer that does not
    /// exist; else appends one command. A call that fails changes nothing.
    pub fn compute_pass_dispatch_workgroups_indirect(
        &self,
        pass: &mut ComputePass,
        buffer_id: Id,
        offset: u64,
    ) -> (r: Result<(), ComputePassError>)
        requires
            self.wf(),
            old(pass).wf(),
        ensures
            final(pass).wf(),
            final(pass)@ == self.dispatch_indirect_spec(old(pass)@, buffer_id, offset).0,
            r == self.dispatch_indirect_spec(old(pass)@, buffer_id, offset).1,
    {
        if pass.base.is_none() {
            return Err(
                ComputePassError {
                    scope: PassErrorScope::Dispatch { indirect: true },
                    inner: ComputePassErrorInner::PassEnded,
                },
            );
        }
        let buffer = match self.buffers.get(buffer_id) {
            Err(e) => {
                return Err(
                    ComputePassError {
                        scope: PassErrorScope::Dispatch { indirect: true },
                        inner: ComputePassErrorInner::InvalidResource(e),
                    },
                );
            },
            Ok(buffer) => *buffer,
        };
        let mut base = pass.base.take().unwrap();
        base.commands.push(ArcComputeCommand::DispatchIndirect { buffer, offset });
        pass.base = Some(base);
        proof {
            let goal = self.dispatch_indirect_spec(old(pass)@, buffer_id, offset).0;
            assert(pass@.bound =~= goal.bound);
        }
        Ok(())
    }
}

/// What recording a command without resources does to a pass, and what it
/// answers: the command is appended unless the pass was ended.
pub open spec fn plain_command_spec(p: ComputePassView, scope: PassErrorScope, c: ArcComputeCommand)
    -> (ComputePassView, Result<(), ComputePassError>) {
    if p.ended {
        (p, Err(pass_ended(scope)))
    } else {
        (with_command(p, c), Ok(()))
    }
}

/// What recording a command with a label does to a pass, and what it
/// answers: the command is appended, and the bytes of the label with it,
/// unless the pass was ended.
pub open spec fn label_command_spec(
    p: ComputePassView,
    scope: PassErrorScope,
    c: ArcComputeCommand,
    bytes: Seq<u8>,
) -> (ComputePassView, Result<(), ComputePassError>) {
    if p.ended {
        (p, Err(pass_ended(scope)))
    } else {
        (
            ComputePassView {
                commands: p.commands.push(c),
                string_data: p.string_data + bytes,
                ..p
            },
            Ok(()),
        )
    }
}

/// What recording push constants does to a pass, and what it answers.
pub open spec fn set_push_constants_spec(p: ComputePassView, offset: u32, data: Seq<u8>) -> (
    ComputePassView,
    Result<(), ComputePassError>,
) {
    let scope = PassErrorScope::SetPushConstant;
    if p.ended {
        (p, Err(pass_ended(scope)))
    } else if offset % 4 != 0 {
        (p, Err(ComputePassError { scope, inner: ComputePassErrorInner::PushConstantOffsetAlignment }))
    } else if data.len() % 4 != 0 {
        (p, Err(ComputePassError { scope, inner: ComputePassErrorInner::PushConstantSizeAlignment }))
    } else if data.len() > u32::MAX || p.push_constant_data.len() + data.len() / 4 > u32::MAX {
        (p, Err(ComputePassError { scope, inner: ComputePassErrorInner::PushConstantOutOfMemory }))
    } else {
        (
            ComputePassView {
                commands: p.commands.push(
                    ArcComputeCommand::SetPushConstant {
                        offset,
                        size_bytes: data.len() as u32,
                        values_offset: p.push_constant_data.len() as u32,
                    },
                ),
                push_constant_data: p.push_constant_data + words_of(data),
                ..p
            },
            Ok(()),
        )
    }
}

fn record_plain(pass: &mut ComputePass, scope: PassErrorScope, c: ArcComputeCommand) -> (r: Result<
    (),
    ComputePassError,
>)
    requires
        old(pass).wf(),
    ensures
        final(pass).wf(),
        final(pass)@ == plain_command_spec(old(pass)@, scope, c).0,
        r == plain_command_spec(old(pass)@, scope, c).1,
{
    if pass.base.is_none() {
        return Err(ComputePassError { scope, inner: ComputePassErrorInner::PassEnded });
    }
    let mut base = pass.base.take().unwrap();
    base.commands.push(c);
    pass.base = Some(base);
    proof {
        let goal = plain_command_spec(old(pass)@, scope, c).0;
        assert(pass@.bound =~= goal.bound);
    }
    Ok(())
}

pub(crate) fn record_label(
    pass: &mut ComputePass,
    scope: PassErrorScope,
    c: ArcComputeCommand,
    bytes: &[u8],
) -> (r: Result<(), ComputePassError>)
    requires
        old(pass).wf(),
    ensures
        final(pass).wf(),
        final(pass)@ == label_command_spec(old(pass)@, scope, c, bytes@).0,
        r == label_command_spec(old(pass)@, scope, c, bytes@).1,
{
    if pass.base.is_none() {
        return Err(ComputePassError { scope, inner: ComputePassErrorInner::PassEnded });
    }
    let mut base = pass.base.take().unwrap();
    extend_u8(&mut base.string_data, bytes);
    base.commands.push(c);
    pass.base = Some(base);
    proof {
        let goal = label_command_spec(old(pass)@, scope, c, bytes@).0;
        assert(pass@.bound =~= goal.bound);
    }
    Ok(())
}

/// Makes a word of four bytes, the first byte being the lowest.
pub fn make_word(b0: u8, b1: u8, b2: u8, b3: u8) -> (w: u32)
    ensures
        w == word_of(b0, b1, b2, b3),
{
    (b0 as u32) + 256 * (b1 as u32) + 65536 * (b2 as u32) + 16777216 * (b3 as u32)
}

impl Global {
    /// Records an upload of push constants at byte `offset`.
    ///
    /// Fails on a pass that was ended, on an offset or a size that is no
    /// multiple of four, and when the table of push constants would outgrow
    /// 32 bits. Else the bytes are appended to the table, four to a word,
    /// and one command is appended. A call that fails changes nothing.
    pub fn compute_pass_set_push_constants(&self, pass: &mut ComputePass, offset: u32, data: &[u8])
        -> (r: Result<(), ComputePassError>)
        requires
            old(pass).wf(),
        ensures
            final(pass).wf(),
            final(pass)@ == set_push_constants_spec(old(pass)@, offset, data@).0,
            r == set_push_constants_spec(old(pass)@, offset, data@).1,
    {
        let scope = PassErrorScope::SetPushConstant;
        if pass.base.is_none() {
            return Err(ComputePassError { scope, inner: ComputePassErrorInner::PassEnded });
        }
        if offset % 4 != 0 {
            return Err(
                ComputePassError { scope, inner: ComputePassErrorInner::PushConstantOffsetAlignment },
            );
        }
        if data.len() % 4 != 0 {
            return Err(
                ComputePassError { scope, inner: ComputePassErrorInner::PushConstantSizeAlignment },
            );
        }
        let mut base = pass.base.take().unwrap();
        let words = data.len() / 4;
        let have = base.push_constant_data.len();
        if data.len() > u32::MAX as usize || have > u32::MAX as usize || words > u32::MAX as usize
            - have {
            pass.base = Some(base);
            proof {
                assert(pass@.bound =~= old(pass)@.bound);
            }
            return Err(
                ComputePassError { scope, inner: ComputePassErrorInner::PushConstantOutOfMemory },
            );
        }
        let n = data.len();
        let mut i: usize = 0;
        while i < words
            invariant
                n == data@.len(),
                words == data@.len() / 4,
                data@.len() % 4 == 0,
                i <= words,
                base.push_constant_data@ == old(pass)@.push_constant_data + words_of(data@).take(
                    i as int,
                ),
                base.commands@ == old(pass)@.commands,
                base.dynamic_offsets@ == old(pass)@.dynamic_offsets,
                base.string_data@ == old(pass)@.string_data,
                label_view(base.label) == old(pass)@.label,
            decreases words - i,
        {
            let w = make_word(data[4 * i], data[4 * i + 1], data[4 * i + 2], data[4 * i + 3]);
            base.push_constant_data.push(w);
            assert(words_of(data@).take(i + 1) =~= words_of(data@).take(i as int).push(w));
            i += 1;
        }
        assert(words_of(data@).take(words as int) =~= words_of(data@));
        base.commands.push(
            ArcComputeCommand::SetPushConstant {
                offset,
                size_bytes: data.len() as u32,
                values_offset: have as u32,
            },
        );
        pass.base = Some(base);
        proof {
            let goal = set_push_constants_spec(old(pass)@, offset, data@).0;
            assert(pass@.bound =~= goal.bound);
        }
        Ok(())
    }

    /// Records a dispatch of `groups_x * groups_y * groups_z` workgroups.
    /// Fails, and changes nothing, on a pass that was ended; else appends
    /// one command.
    pub fn compute_pass_dispatch_workgroups(
        &self,
        pass: &mut ComputePass,
        groups_x: u32,
        groups_y: u32,
        groups_z: u32,
    ) -> (r: Result<(), ComputePassError>)
        requires
            old(pass).wf(),
        ensures
            final(pass).wf(),
            final(pass)@ == plain_command_spec(
                old(pass)@,
                PassErrorScope::Dispatch { indirect: false },
                ArcComputeCommand::Dispatch { x: groups_x, y: groups_y, z: groups_z },
            ).0,
            r == plain_command_spec(
                old(pass)@,
                PassErrorScope::Dispatch { indirect: false },
                ArcComputeCommand::Dispatch { x: groups_x, y: groups_y, z: groups_z },
            ).1,
    {
        record_plain(
            pass,
            PassErrorScope::Dispatch { indirect: false },
            ArcComputeCommand::Dispatch { x: groups_x, y: groups_y, z: groups_z },
        )
    }

    /// Records the start of a debug group with the given label. Fails, and
    /// changes nothing, on a pass that was ended; else appends one command
    /// and the bytes of the label.
    pub fn compute_pass_push_debug_group(&self, pass: &mut ComputePass, label: &str, color: u32)
        -> (r: Result<(), ComputePassError>)
        requires
            old(pass).wf(),
        ensures
            final(pass).wf(),
            final(pass)@ == label_command_spec(
                old(pass)@,
                PassErrorScope::PushDebugGroup,
                ArcComputeCommand::PushDebugGroup {
                    color,
                    len: label.spec_bytes().len() as usize,
                },
                label.spec_bytes(),
            ).0,
            r == label_command_spec(
                old(pass)@,
                PassErrorScope::PushDebugGroup,
                ArcComputeCommand::PushDebugGroup {
                    color,
                    len: label.spec_bytes().len() as usize,
                },
                label.spec_bytes(),
            ).1,
    {
        let bytes = label.as_bytes();
        record_label(
            pass,
            PassErrorScope::PushDebugGroup,
            ArcComputeCommand::PushDebugGroup { color, len: bytes.len() },
            bytes,
        )
    }

    /// Records the end of the innermost debug group. Fails, and changes
    /// nothing, on a pass that was ended; else appends one command.
    pub fn compute_pass_pop_debug_group(&self, pass: &mut ComputePass) -> (r: Result<
        (),
        ComputePassError,
    >)
        requires
            old(pass).wf(),
        ensures
            final(pass).wf(),
            final(pass)@ == plain_command_spec(
                old(pass)@,
                PassErrorScope::PopDebugGroup,
                ArcComputeCommand::PopDebugGroup,
            ).0,
            r == plain_command_spec(
                old(pass)@,
                PassErrorScope::PopDebugGroup,
                ArcComputeCommand::PopDebugGroup,
            ).1,
    {
        record_plain(pass, PassErrorScope::PopDebugGroup, ArcComputeCommand::PopDebugGroup)
    }

    /// Records a debug marker with the given label. Fails, and changes
    /// nothing, on a pass that was ended; else appends one command and the
    /// bytes of the label.
    pub fn compute_pass_insert_debug_marker(&self, pass: &mut ComputePass, label: &str, color: u32)
        -> (r: Result<(), ComputePassError>)
        requires
            old(pass).wf(),
        ensures
            final(pass).wf(),
            final(pass)@ == label_command_spec(
                old(pass)@,
                PassErrorScope::InsertDebugMarker,
                ArcComputeCommand::InsertDebugMarker {
                    color,
                    len: label.spec_bytes().len() as usize,
                },
                label.spec_bytes(),
            ).0,
            r == label_command_spec(
                old(pass)@,
                PassErrorScope::InsertDebugMarker,
                ArcComputeCommand::InsertDebugMarker {
                    color,
                    len: label.spec_bytes().len() as usize,
                },
                label.spec_bytes(),
            ).1,
    {
        let bytes = label.as_bytes();
        record_label(
            pass,
            PassErrorScope::InsertDebugMarker,
            ArcComputeCommand::InsertDebugMarker { color, len: bytes.len() },
            bytes,
        )
    }

    /// Once a pass was ended, every recording call fails with `PassEnded`
    /// and leaves the pass as it is.
    pub proof fn law_ended_pass_records_nothing(
        &self,
        p: ComputePassView,
        index: u32,
        id: Id,
        group: Option<Id>,
        offsets: Seq<u32>,
        offset: u32,
        offset64: u64,
        data: Seq<u8>,
        scope: PassErrorScope,
        c: ArcComputeCommand,
    )
        requires
            p.ended,
        ensures
            self.set_bind_group_spec(p, index, group, offsets) == (
                p,
                Err::<(), ComputePassError>(pass_ended(PassErrorScope::SetBindGroup)),
            ),
            self.set_pipeline_spec(p, id) == (
                p,
                Err::<(), ComputePassError>(pass_ended(PassErrorScope::SetPipelineCompute)),
            ),
            self.dispatch_indirect_spec(p, id, offset64) == (
                p,
                Err::<(), ComputePassError>(pass_ended(PassErrorScope::Dispatch { indirect: true })),
            ),
            set_push_constants_spec(p, offset, data) == (
                p,
                Err::<(), ComputePassError>(pass_ended(PassErrorScope::SetPushConstant)),
            ),
            plain_command_spec(p, scope, c) == (p, Err::<(), ComputePassError>(pass_ended(scope))),
            label_command_spec(p, scope, c, data) == (
                p,
                Err::<(), ComputePassError>(pass_ended(scope)),
            ),
    {
    }

    /// Binding the same bind group at the same slot with the same offsets
    /// twice in a row records it once: if the first call succeeds, the
    /// second succeeds and changes nothing; and the first call appends at
    /// most one command, exactly one if it changes what is bound at the slot.
    pub proof fn law_rebinding_records_once(
        &self,
        p: ComputePassView,
        index: u32,
        group: Option<Id>,
        offsets: Seq<u32>,
    )
        requires
            p.bound.len() == MAX_BIND_GROUPS,
            (index as int) < MAX_BIND_GROUPS,
            self.set_bind_group_spec(p, index, group, offsets).1 is Ok,
        ensures
            ({
                let first = self.set_bind_group_spec(p, index, group, offsets).0;
                let second = self.set_bind_group_spec(first, index, group, offsets);
                &&& second.1 is Ok
                &&& second.0 == first
                &&& if redundant_binding(p, index, group, offsets) {
                    first.commands == p.commands
                } else {
                    first.commands.len() == p.commands.len() + 1 && first.commands.drop_last()
                        == p.commands && first.commands.last() is SetBindGroup
                }
            }),
    {
        let first = self.set_bind_group_spec(p, index, group, offsets).0;
        if !redundant_binding(p, index, group, offsets) {
            assert(first.commands.drop_last() =~= p.commands);
        }
    }
}

} // verus!
