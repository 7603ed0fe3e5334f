//! Replaying a pass that a client has recorded on its side. The commands
//! of the transcript that the client delivers are recorded on a new pass
//! one by one, each through the call that records its kind, so that what
//! the calls pass over is passed over here too; then the pass is ended.

use vstd::prelude::*;
use vstd::slice::slice_subrange;
use crate::action::RunPassError;
use crate::command::{
    ArcComputeCommand, BasePass, ComputeCommand, ComputePass, ComputePassError,
    ComputePassErrorInner, ComputePassView, DeviceError, PassErrorScope, TranscriptView,
};
use crate::compute::{
    label_command_spec, plain_command_spec, record_label, set_push_constants_spec,
    CommandEncoderError,
};
use crate::encoder::{recording_check, CommandEncoder, CommandEncoderStatus, EncoderView};
use crate::global::Global;
use crate::id::Id;
use crate::pass::encoder_after_pass;
use crate::registry::InvalidResourceError;
use crate::replay::{initial_state, replay};

verus! {

/// A byte of a word; byte 0 is the lowest.
pub open spec fn byte_of(w: u32, k: int) -> u8 {
    if k == 0 {
        (w & 0xff) as u8
    } else if k == 1 {
        ((w >> 8) & 0xff) as u8
    } else if k == 2 {
        ((w >> 16) & 0xff) as u8
    } else {
        ((w >> 24) & 0xff) as u8
    }
}

/// The bytes of words, four to a word, the lowest byte first.
pub open spec fn bytes_of_words(words: Seq<u32>) -> Seq<u8> {
    Seq::new(4 * words.len(), |i: int| byte_of(words[i / 4], i % 4))
}

/// Lays words out in bytes.
pub fn word_bytes(words: &[u32]) -> (bytes: Vec<u8>)
    ensures
        bytes@ == bytes_of_words(words@),
{
    let mut bytes: Vec<u8> = Vec::new();
    let mut i: usize = 0;
    while i < words.len()
        invariant
            i <= words@.len(),
            bytes@.len() == 4 * i,
            forall|j: int| 0 <= j < 4 * i ==> bytes@[j] == byte_of(words@[j / 4], j % 4),
        decreases words@.len() - i,
    {
        let w = words[i];
        assert(w & 0xff < 256 && (w >> 8) & 0xff < 256 && (w >> 16) & 0xff < 256 && (w >> 24)
            & 0xff < 256) by (bit_vector);
        bytes.push((w & 0xff) as u8);
        bytes.push(((w >> 8) & 0xff) as u8);
        bytes.push(((w >> 16) & 0xff) as u8);
        bytes.push(((w >> 24) & 0xff) as u8);
        i += 1;
    }
    assert(bytes@ =~= bytes_of_words(words@));
    bytes
}

/// How far the commands of a delivered transcript have been recorded.
pub struct Recorded {
    /// The pass with what was recorded so far.
    pub pass: ComputePassView,
    /// How many of the delivered dynamic offsets were taken.
    pub offsets: nat,
    /// How many of the delivered label bytes were taken.
    pub strings: nat,
    /// What the last call answered; an error ends the recording.
    pub result: Result<(), ComputePassError>,
}

/// The recording after a command whose data the delivered tables lack.
pub open spec fn malformed(r: Recorded, scope: PassErrorScope) -> Recorded {
    Recorded {
        result: Err(ComputePassError { scope, inner: ComputePassErrorInner::MalformedTranscript }),
        ..r
    }
}

impl Global {
    /// Records one delivered command through the call that records its
    /// kind. A command with dynamic offsets takes the next ones of the
    /// delivered table, a command with a label the next bytes of the
    /// delivered strings, and an upload of push constants the words that
    /// it names.
    pub open spec fn record_one(
        &self,
        r: Recorded,
        c: ComputeCommand,
        src: TranscriptView<ComputeCommand>,
    ) -> Recorded {
        match c {
            ComputeCommand::SetBindGroup { index, num_dynamic_offsets, bind_group_id } => {
                if r.offsets + num_dynamic_offsets > src.dynamic_offsets.len() {
                    malformed(r, PassErrorScope::SetBindGroup)
                } else {
                    let out = self.set_bind_group_spec(
                        r.pass,
                        index,
                        bind_group_id,
                        src.dynamic_offsets.subrange(
                            r.offsets as int,
                            r.offsets + num_dynamic_offsets,
                        ),
                    );
                    Recorded {
                        pass: out.0,
                        offsets: (r.offsets + num_dynamic_offsets) as nat,
                        result: out.1,
                        ..r
                    }
                }
            },
            ComputeCommand::SetPipeline(id) => {
                let out = self.set_pipeline_spec(r.pass, id);
                Recorded { pass: out.0, result: out.1, ..r }
            },
            ComputeCommand::SetPushConstant { offset, size_bytes, values_offset } => {
                if size_bytes % 4 != 0 || values_offset + size_bytes / 4
                    > src.push_constant_data.len() {
                    malformed(r, PassErrorScope::SetPushConstant)
                } else {
                    let out = set_push_constants_spec(
                        r.pass,
                        offset,
                        bytes_of_words(
                            src.push_constant_data.subrange(
                                values_offset as int,
                                values_offset + size_bytes / 4,
                            ),
                        ),
                    );
                    Recorded { pass: out.0, result: out.1, ..r }
                }
            },
            ComputeCommand::Dispatch { x, y, z } => {
                let out = plain_command_spec(
                    r.pass,
                    PassErrorScope::Dispatch { indirect: false },
                    ArcComputeCommand::Dispatch { x, y, z },
                );
                Recorded { pass: out.0, result: out.1, ..r }
            },
            ComputeCommand::DispatchIndirect { buffer_id, offset } => {
                let out = self.dispatch_indirect_spec(r.pass, buffer_id, offset);
                Recorded { pass: out.0, result: out.1, ..r }
            },
            ComputeCommand::PushDebugGroup { color, len } => {
                if r.strings + len > src.string_data.len() {
                    malformed(r, PassErrorScope::PushDebugGroup)
                } else {
                    let out = label_command_spec(
                        r.pass,
                        PassErrorScope::PushDebugGroup,
                        ArcComputeCommand::PushDebugGroup { color, len },
                        src.string_data.subrange(r.strings as int, r.strings + len),
                    );
                    Recorded { pass: out.0, strings: (r.strings + len) as nat, result: out.1, ..r }
                }
            },
            ComputeCommand::PopDebugGroup => {
                let out = plain_command_spec(
                    r.pass,
                    PassErrorScope::PopDebugGroup,
                    ArcComputeCommand::PopDebugGroup,
                );
                Recorded { pass: out.0, result: out.1, ..r }
            },
            ComputeCommand::InsertDebugMarker { color, len } => {
                if r.strings + len > src.string_data.len() {
                    malformed(r, PassErrorScope::InsertDebugMarker)
                } else {
                    let out = label_command_spec(
                        r.pass,
                        PassErrorScope::InsertDebugMarker,
                        ArcComputeCommand::InsertDebugMarker { color, len },
                        src.string_data.subrange(r.strings as int, r.strings + len),
                    );
                    Recorded { pass: out.0, strings: (r.strings + len) as nat, result: out.1, ..r }
                }
            },
        }
    }

    /// Records the first `n` delivered commands on a new pass of the
    /// encoder, stopping at the first call that fails.
    pub open spec fn record_prefix(
        &self,
        src: TranscriptView<ComputeCommand>,
        parent: Id,
        n: nat,
    ) -> Recorded
        decreases n,
    {
        if n == 0 {
            Recorded {
                pass: ComputePass::new_view(Some(parent), src.label),
                offsets: 0,
                strings: 0,
                result: Ok(()),
            }
        } else {
            let before = self.record_prefix(src, parent, (n - 1) as nat);
            if before.result is Err {
                before
            } else {
                self.record_one(before, src.commands[n - 1], src)
            }
        }
    }

    /// Once a call has failed, the recording stays as it is.
    pub proof fn lemma_record_stops(
        &self,
        src: TranscriptView<ComputeCommand>,
        parent: Id,
        n: nat,
        m: nat,
    )
        requires
            n <= m,
            self.record_prefix(src, parent, n).result is Err,
        ensures
            self.record_prefix(src, parent, m) == self.record_prefix(src, parent, n),
        decreases m,
    {
        if n < m {
            self.lemma_record_stops(src, parent, n, (m - 1) as nat);
        }
    }

    /// Recording leaves the pass open, and with its encoder.
    pub proof fn lemma_record_keeps_pass_open(
        &self,
        src: TranscriptView<ComputeCommand>,
        parent: Id,
        n: nat,
    )
        ensures
            !self.record_prefix(src, parent, n).pass.ended,
            self.record_prefix(src, parent, n).pass.parent == Some(parent),
        decreases n,
    {
        if n > 0 {
            self.lemma_record_keeps_pass_open(src, parent, (n - 1) as nat);
        }
    }

    /// What is recorded does not depend on the command encoders.
    pub proof fn lemma_record_frame(
        &self,
        other: &Global,
        src: TranscriptView<ComputeCommand>,
        parent: Id,
        n: nat,
    )
        requires
            self.same_but_command_encoders(other),
        ensures
            self.record_prefix(src, parent, n) == other.record_prefix(src, parent, n),
        decreases n,
    {
        if n > 0 {
            self.lemma_record_frame(other, src, parent, (n - 1) as nat);
        }
    }

    /// A delivered command that binds what the command before it has bound
    /// at the slot, with the same offsets, is passed over: the pass stays
    /// as the first of the two left it, and only the offsets of the second
    /// are taken from the delivered table.
    pub proof fn law_delivered_rebinding_is_recorded_once(
        &self,
        r: Recorded,
        src: TranscriptView<ComputeCommand>,
        index: u32,
        count: usize,
        group: Option<Id>,
    )
        requires
            r.pass.bound.len() == crate::resource::MAX_BIND_GROUPS,
            (index as int) < crate::resource::MAX_BIND_GROUPS,
            r.offsets + 2 * count <= src.dynamic_offsets.len(),
            src.dynamic_offsets.subrange(r.offsets as int, r.offsets + count)
                == src.dynamic_offsets.subrange(r.offsets + count, r.offsets + 2 * count),
            self.record_one(
                r,
                ComputeCommand::SetBindGroup {
                    index,
                    num_dynamic_offsets: count,
                    bind_group_id: group,
                },
                src,
            ).result is Ok,
        ensures
            ({
                let c = ComputeCommand::SetBindGroup {
                    index,
                    num_dynamic_offsets: count,
                    bind_group_id: group,
                };
                let first = self.record_one(r, c, src);
                let second = self.record_one(first, c, src);
                &&& second.result is Ok
                &&& second.pass == first.pass
                &&& second.offsets == r.offsets + 2 * count
                &&& first.pass.commands.len() <= r.pass.commands.len() + 1
            }),
    {
        self.law_rebinding_records_once(
            r.pass,
            index,
            group,
            src.dynamic_offsets.subrange(r.offsets as int, r.offsets + count),
        );
    }

    /// A delivered command that binds at a slot with other offsets than the
    /// command before it is kept: one more command is recorded, and the
    /// offsets in effect at the slot are those of the second.
    pub proof fn law_delivered_binding_with_other_offsets_is_kept(
        &self,
        r: Recorded,
        src: TranscriptView<ComputeCommand>,
        index: u32,
        count: usize,
        group: Option<Id>,
    )
        requires
            !r.pass.ended,
            r.pass.bound.len() == crate::resource::MAX_BIND_GROUPS,
            (index as int) < crate::resource::MAX_BIND_GROUPS,
            r.offsets + 2 * count <= src.dynamic_offsets.len(),
            src.dynamic_offsets.subrange(r.offsets as int, r.offsets + count)
                != src.dynamic_offsets.subrange(r.offsets + count, r.offsets + 2 * count),
            group matches Some(id) ==> self.bind_groups.is_valid(id),
        ensures
            ({
                let c = ComputeCommand::SetBindGroup {
                    index,
                    num_dynamic_offsets: count,
                    bind_group_id: group,
                };
                let first = self.record_one(r, c, src);
                let second = self.record_one(first, c, src);
                &&& first.result is Ok
                &&& second.result is Ok
                &&& second.pass.commands.len() == first.pass.commands.len() + 1
                &&& second.pass.commands.last() is SetBindGroup
                &&& second.pass.bound[index as int] == Some(
                    crate::command::LastBinding {
                        group,
                        offsets: src.dynamic_offsets.subrange(
                            r.offsets + count,
                            r.offsets + 2 * count,
                        ),
                    },
                )
            }),
    {
    }

    /// What replaying a delivered pass on an encoder comes to, and what
    /// the encoder holds afterwards if the call touches it. A pass that
    /// cannot be begun touches nothing. A recording call that fails ends
    /// the replay: the encoder is as it was, and records on. Else the pass
    /// is ended with what was recorded, as every pass is.
    pub open spec fn replayed_pass_spec(&self, encoder_id: Id, src: TranscriptView<ComputeCommand>)
        -> (Result<(), RunPassError>, Option<EncoderView>) {
        if !self.command_encoders.is_valid(encoder_id) {
            (
                Err(
                    RunPassError::Encoder(
                        CommandEncoderError::InvalidResource(InvalidResourceError { id: encoder_id }),
                    ),
                ),
                None,
            )
        } else {
            let e = self.command_encoders.resource(encoder_id)@;
            let recorded = self.record_prefix(src, encoder_id, src.commands.len());
            if recording_check(e.status) is Err {
                (
                    Err(
                        RunPassError::Encoder(
                            CommandEncoderError::EncoderState(recording_check(e.status)->Err_0),
                        ),
                    ),
                    None,
                )
            } else if recorded.result is Err {
                (Err(RunPassError::Pass(recorded.result->Err_0)), Some(e))
            } else if !self.devices.is_valid(e.device) || !self.devices.resource(e.device).valid {
                (
                    Err(
                        RunPassError::Pass(
                            ComputePassError {
                                scope: PassErrorScope::Pass,
                                inner: ComputePassErrorInner::Device(DeviceError::Lost),
                            },
                        ),
                    ),
                    Some(e),
                )
            } else {
                let p = recorded.pass;
                let outcome = replay(
                    initial_state(p.label),
                    self.replay_env(e.device, p),
                    p.commands,
                    p.commands.len(),
                );
                (
                    match outcome {
                        Ok(_) => Ok(()),
                        Err(err) => Err(RunPassError::Pass(err)),
                    },
                    Some(encoder_after_pass(e, outcome)),
                )
            }
        }
    }

    /// A delivered pass on a recording encoder is begun and ended exactly
    /// once, and leaves the encoder recording: where the replay succeeds,
    /// the native command buffer of the pass begins the pass in its first
    /// command, ends it in its last, and does neither in between; where
    /// it fails, no native command of the pass is kept.
    pub proof fn law_delivered_pass_is_ended_once(
        &self,
        encoder_id: Id,
        src: TranscriptView<ComputeCommand>,
    )
        requires
            self.command_encoders.is_valid(encoder_id),
            self.command_encoders.resource(encoder_id)@.status == CommandEncoderStatus::Recording,
        ensures
            ({
                let e = self.command_encoders.resource(encoder_id)@;
                let ran = self.replayed_pass_spec(encoder_id, src);
                &&& ran.1 is Some
                &&& ran.1->0.status == CommandEncoderStatus::Recording
                &&& ran.0 is Err ==> ran.1->0.list == e.list || ran.1->0.list
                    == crate::encoder::closed_list(e)
                &&& ran.0 is Ok ==> {
                    let body = ran.1->0.list.last().commands;
                    &&& body.len() >= 2
                    &&& body[0] == crate::encoder::NativeCommand::BeginComputePass
                    &&& body.last() == crate::encoder::NativeCommand::EndComputePass
                    &&& forall|i: int|
                        1 <= i < body.len() - 1 ==> !((#[trigger] body[i]) is BeginComputePass)
                            && !(body[i] is EndComputePass)
                }
            }),
    {
        let e = self.command_encoders.resource(encoder_id)@;
        let recorded = self.record_prefix(src, encoder_id, src.commands.len());
        if recorded.result is Ok && self.devices.is_valid(e.device) && self.devices.resource(
            e.device,
        ).valid {
            let p = recorded.pass;
            let env = self.replay_env(e.device, p);
            if replay(initial_state(p.label), env, p.commands, p.commands.len()) is Ok {
                Self::law_pass_begins_and_ends_once(e, p.label, env, p.commands);
            }
        }
    }

    fn record_delivered(
        &self,
        pass: &mut ComputePass,
        src: &BasePass<ComputeCommand>,
        Ghost(parent): Ghost<Id>,
    ) -> (r: Result<(), ComputePassError>)
        requires
            self.wf(),
            old(pass).wf(),
            old(pass)@ == ComputePass::new_view(Some(parent), src@.label),
        ensures
            final(pass).wf(),
            final(pass)@ == self.record_prefix(src@, parent, src@.commands.len()).pass,
            r == self.record_prefix(src@, parent, src@.commands.len()).result,
    {
        let ghost view = src@;
        let mut offsets: usize = 0;
        let mut strings: usize = 0;
        let mut i: usize = 0;
        while i < src.commands.len()
            invariant
                self.wf(),
                pass.wf(),
                view == src@,
                i <= view.commands.len(),
                offsets <= view.dynamic_offsets.len(),
                strings <= view.string_data.len(),
                self.record_prefix(view, parent, i as nat) == (Recorded {
                    pass: pass@,
                    offsets: offsets as nat,
                    strings: strings as nat,
                    result: Ok(()),
                }),
            decreases view.commands.len() - i,
        {
            let ghost before = self.record_prefix(view, parent, i as nat);
            let command = src.commands[i];
            let answer = match command {
                ComputeCommand::SetBindGroup { index, num_dynamic_offsets, bind_group_id } => {
                    if num_dynamic_offsets > src.dynamic_offsets.len() - offsets {
                        Err(
                            ComputePassError {
                                scope: PassErrorScope::SetBindGroup,
                                inner: ComputePassErrorInner::MalformedTranscript,
                            },
                        )
                    } else {
                        let part = slice_subrange(
                            src.dynamic_offsets.as_slice(),
                            offsets,
                            offsets + num_dynamic_offsets,
                        );
                        offsets = offsets + num_dynamic_offsets;
                        self.compute_pass_set_bind_group(pass, index, bind_group_id, part)
                    }
                },
                ComputeCommand::SetPipeline(id) => self.compute_pass_set_pipeline(pass, id),
                ComputeCommand::SetPushConstant { offset, size_bytes, values_offset } => {
                    let words = (size_bytes / 4) as usize;
                    let start = values_offset as usize;
                    if size_bytes % 4 != 0 || start > src.push_constant_data.len() || words
                        > src.push_constant_data.len() - start {
                        Err(
                            ComputePassError {
                                scope: PassErrorScope::SetPushConstant,
                                inner: ComputePassErrorInner::MalformedTranscript,
                            },
                        )
                    } else {
                        let data = word_bytes(
                            slice_subrange(src.push_constant_data.as_slice(), start, start + words),
                        );
                        self.compute_pass_set_push_constants(pass, offset, data.as_slice())
                    }
                },
                ComputeCommand::Dispatch { x, y, z } => self.compute_pass_dispatch_workgroups(
                    pass,
                    x,
                    y,
                    z,
                ),
                ComputeCommand::DispatchIndirect {
                    buffer_id,
                    offset,
                } => self.compute_pass_dispatch_workgroups_indirect(pass, buffer_id, offset),
                ComputeCommand::PushDebugGroup { color, len } => {
                    if len > src.string_data.len() - strings {
                        Err(
                            ComputePassError {
                                scope: PassErrorScope::PushDebugGroup,
                                inner: ComputePassErrorInner::MalformedTranscript,
                            },
                        )
                    } else {
                        let part = slice_subrange(src.string_data.as_slice(), strings, strings + len);
                        strings = strings + len;
                        record_label(
                            pass,
                            PassErrorScope::PushDebugGroup,
                            ArcComputeCommand::PushDebugGroup { color, len },
                            part,
                        )
                    }
                },
                ComputeCommand::PopDebugGroup => self.compute_pass_pop_debug_group(pass),
                ComputeCommand::InsertDebugMarker { color, len } => {
                    if len > src.string_data.len() - strings {
                        Err(
                            ComputePassError {
                                scope: PassErrorScope::InsertDebugMarker,
                                inner: ComputePassErrorInner::MalformedTranscript,
                            },
                        )
                    } else {
                        let part = slice_subrange(src.string_data.as_slice(), strings, strings + len);
                        strings = strings + len;
                        record_label(
                            pass,
                            PassErrorScope::InsertDebugMarker,
                            ArcComputeCommand::InsertDebugMarker { color, len },
                            part,
                        )
                    }
                },
            };
            proof {
                let after = self.record_prefix(view, parent, (i + 1) as nat);
                assert(after == self.record_one(before, view.commands[i as int], view));
                assert(after.result == answer);
                assert(after.pass == pass@);
            }
            match answer {
                Err(e) => {
                    proof {
                        self.lemma_record_stops(
                            view,
                            parent,
                            (i + 1) as nat,
                            view.commands.len(),
                        );
                    }
                    return Err(e);
                },
                Ok(()) => {},
            }
            i += 1;
        }
        Ok(())
    }

    /// Replays a pass that a client has recorded on its side: begins a
    /// pass on the encoder, records the delivered commands on it one by
    /// one through the recording calls, and ends the pass.
    pub fn replay_compute_pass(&mut self, encoder_id: Id, src: &BasePass<ComputeCommand>) -> (r:
        Result<(), RunPassError>)
        requires
            old(self).wf(),
        ensures
            final(self).wf(),
            final(self).same_but_command_encoders(old(self)),
            r == old(self).replayed_pass_spec(encoder_id, src@).0,
            old(self).encoder_became(
                final(self),
                encoder_id,
                old(self).replayed_pass_spec(encoder_id, src@).1,
            ),
    {
        let label = match &src.label {
            Some(l) => Some(l.clone()),
            None => None,
        };
        let (mut pass, error) = self.command_encoder_begin_compute_pass(encoder_id, label);
        match error {
            Some(e) => {
                return Err(RunPassError::Encoder(e));
            },
            None => {},
        }
        proof {
            self.lemma_record_frame(old(self), src@, encoder_id, src@.commands.len());
        }
        match self.record_delivered(&mut pass, src, Ghost(encoder_id)) {
            Err(e) => {
                self.unlock(encoder_id);
                return Err(RunPassError::Pass(e));
            },
            Ok(()) => {},
        }
        let ghost locked = *self;
        proof {
            locked.lemma_record_keeps_pass_open(src@, encoder_id, src@.commands.len());
            let before = old(self).command_encoders.resource(encoder_id)@;
            let now = locked.command_encoders.resource(encoder_id)@;
            assert(now == (EncoderView { status: CommandEncoderStatus::Locked, ..before }));
            assert(before.status == CommandEncoderStatus::Recording);
            assert(locked.replay_env(now.device, pass@) == old(self).replay_env(
                before.device,
                pass@,
            ));
        }
        match self.compute_pass_end(&mut pass) {
            Ok(()) => Ok(()),
            Err(e) => Err(RunPassError::Pass(e)),
        }
    }

    /// Lets a locked encoder record again, with nothing else changed.
    fn unlock(&mut self, encoder_id: Id)
        requires
            old(self).wf(),
            old(self).command_encoders.is_valid(encoder_id),
            old(self).command_encoders.resource(encoder_id)@.status == CommandEncoderStatus::Locked,
        ensures
            final(self).wf(),
            final(self).same_but_command_encoders(old(self)),
            final(self).command_encoders.same_but(&old(self).command_encoders, encoder_id),
            final(self).command_encoders.is_valid(encoder_id),
            final(self).command_encoders.resource(encoder_id)@ == (EncoderView {
                status: CommandEncoderStatus::Recording,
                ..old(self).command_encoders.resource(encoder_id)@
            }),
    {
        let device = match self.command_encoders.get(encoder_id) {
            Ok(encoder) => encoder.device,
            Err(_) => {
                return ;
            },
        };
        let mut encoder = self.command_encoders.swap(encoder_id, CommandEncoder::new(device));
        let _ = encoder.unlock_encoder();
        self.command_encoders.replace(encoder_id, encoder);
        proof {
            self.lemma_encoders_stay_wf(old(self), encoder_id);
        }
    }
}

} // verus!
