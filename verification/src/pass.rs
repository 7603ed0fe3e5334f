//! Beginning and ending a compute pass on a command encoder.
//!
//! A pass locks its encoder while it records. When the pass ends, its
//! transcript is replayed into a native command buffer of its own, and the
//! barriers that take every buffer from the state the encoder left it in to
//! the state the pass first needs it in are put into a second native
//! command buffer that executes right before the first.

use vstd::prelude::*;

use crate::command::{
    label_view, BasePass, ComputePass, ComputePassError, ComputePassErrorInner, ComputePassView,
    DeviceError, EncoderStateError, PassErrorScope, TranscriptView,
};
use crate::compute::CommandEncoderError;
use crate::encoder::{
    closed_list, locked_check, recording_check, CommandEncoder, CommandEncoderStatus, EncoderView,
    NativeCommand,
};
use crate::global::Global;
use crate::id::Id;
use crate::registry::InvalidResourceError;
use crate::replay::{
    barrier_commands, initial_state, push_barriers, pushed, replay, Env, ReplayEnv, State,
    StateView,
};
use crate::track::{
    absorb, lemma_absorb_barriers, lemma_absorb_states, TrackerState, INDEX_BOUND,
};
use crate::usage::{skip_barrier, PendingTransition};

verus! {

/// What ending a pass comes to.
pub struct PassEnd {
    /// What the call answers.
    pub result: Result<(), ComputePassError>,
    /// Whether the pass is ended afterwards.
    pub ended: bool,
    /// What the encoder holds afterwards, if the call touches it.
    pub encoder: Option<EncoderView>,
}

/// A pass after it was ended: its transcript is gone, and what it had
/// bound stays as it was.
pub open spec fn ended_pass(p: ComputePassView) -> ComputePassView {
    ComputePassView {
        ended: true,
        label: None,
        commands: Seq::empty(),
        dynamic_offsets: Seq::empty(),
        string_data: Seq::empty(),
        push_constant_data: Seq::empty(),
        ..p
    }
}

/// An error of the pass as a whole.
pub open spec fn pass_error(inner: ComputePassErrorInner) -> Result<(), ComputePassError> {
    Err(ComputePassError { scope: PassErrorScope::Pass, inner })
}

/// The native command buffer with the barriers of a pass.
pub open spec fn pre_pass(pending: Seq<PendingTransition>) -> TranscriptView<NativeCommand> {
    TranscriptView {
        label: Some("Pre Pass"@),
        commands: barrier_commands(pending),
        dynamic_offsets: Seq::empty(),
        string_data: Seq::empty(),
        push_constant_data: Seq::empty(),
    }
}

/// What the encoder tracks after it took over what a pass has seen.
pub open spec fn absorbed(e: EncoderView, s: StateView) -> TrackerState {
    absorb(e.trackers, s.intermediate.start, s.intermediate.end, INDEX_BOUND as nat)
}

/// The encoder after a pass on it has ended. Either way it is recording
/// again, and what was open before the pass is closed. After a replay that
/// failed, nothing of the pass is left. After one that succeeded, the
/// barriers of the pass and then its commands stand at the end of the list,
/// and the encoder tracks every buffer of the pass in the state the pass
/// left it in.
pub open spec fn encoder_after_pass(e: EncoderView, outcome: Result<StateView, ComputePassError>)
    -> EncoderView {
    match outcome {
        Err(_) => EncoderView {
            status: CommandEncoderStatus::Recording,
            list: closed_list(e),
            current: None,
            ..e
        },
        Ok(s) => EncoderView {
            status: CommandEncoderStatus::Recording,
            list: closed_list(e).push(pre_pass(absorbed(e, s).pending)).push(
                pushed(s.raw, NativeCommand::EndComputePass),
            ),
            current: None,
            trackers: TrackerState { pending: Seq::empty(), ..absorbed(e, s) },
            ..e
        },
    }
}

impl Global {
    /// What the replay of a pass on an encoder reads.
    pub open spec fn replay_env(&self, device_id: Id, p: ComputePassView) -> Env {
        Env {
            device: self.devices.resource(device_id),
            device_id,
            slots: self.buffer_slots@,
            dynamic_offsets: p.dynamic_offsets,
            string_data: p.string_data,
            push_constant_data: p.push_constant_data,
            used: p.used_buffers,
        }
    }

    /// What ending a pass comes to, case by case, in the order the cases
    /// are tried.
    pub open spec fn pass_end_spec(&self, p: ComputePassView) -> PassEnd {
        if p.parent is None {
            PassEnd {
                result: pass_error(ComputePassErrorInner::InvalidParentEncoder),
                ended: p.ended,
                encoder: None,
            }
        } else if p.ended {
            PassEnd {
                result: pass_error(ComputePassErrorInner::PassEnded),
                ended: true,
                encoder: None,
            }
        } else if !self.command_encoders.is_valid(p.parent->0) {
            PassEnd {
                result: pass_error(
                    ComputePassErrorInner::InvalidResource(InvalidResourceError { id: p.parent->0 }),
                ),
                ended: true,
                encoder: None,
            }
        } else {
            let e = self.command_encoders.resource(p.parent->0)@;
            if locked_check(e.status) is Err {
                PassEnd {
                    result: pass_error(
                        ComputePassErrorInner::EncoderState(locked_check(e.status)->Err_0),
                    ),
                    ended: true,
                    encoder: None,
                }
            } else if !self.devices.is_valid(e.device) || !self.devices.resource(e.device).valid {
                PassEnd {
                    result: pass_error(ComputePassErrorInner::Device(DeviceError::Lost)),
                    ended: true,
                    encoder: Some(EncoderView { status: CommandEncoderStatus::Recording, ..e }),
                }
            } else {
                let outcome = replay(
                    initial_state(p.label),
                    self.replay_env(e.device, p),
                    p.commands,
                    p.commands.len(),
                );
                PassEnd {
                    result: match outcome {
                        Ok(_) => Ok(()),
                        Err(err) => Err(err),
                    },
                    ended: true,
                    encoder: Some(encoder_after_pass(e, outcome)),
                }
            }
        }
    }

    /// Begins a compute pass on an encoder.
    ///
    /// The pass that is returned is always open. If the encoder exists and
    /// is recording, it is locked and the pass belongs to it. Otherwise
    /// nothing changes, the error is returned, and the pass has no parent:
    /// it records, but ending it fails.
    pub fn command_encoder_begin_compute_pass(&mut self, encoder_id: Id, label: Option<String>) -> (r:
        (ComputePass, Option<CommandEncoderError>))
        requires
            old(self).wf(),
        ensures
            final(self).wf(),
            final(self).same_but_command_encoders(old(self)),
            r.0.wf(),
            r.0@ == ComputePass::new_view(
                if r.1 is None {
                    Some(encoder_id)
                } else {
                    None
                },
                label_view(label),
            ),
            r.1 == if !old(self).command_encoders.is_valid(encoder_id) {
                Some(CommandEncoderError::InvalidResource(InvalidResourceError { id: encoder_id }))
            } else {
                match recording_check(old(self).command_encoders.resource(encoder_id)@.status) {
                    Err(e) => Some(CommandEncoderError::EncoderState(e)),
                    Ok(_) => None,
                }
            },
            r.1 is Some ==> *final(self) == *old(self),
            r.1 is None ==> {
                &&& final(self).command_encoders.same_but(&old(self).command_encoders, encoder_id)
                &&& final(self).command_encoders.is_valid(encoder_id)
                &&& final(self).command_encoders.resource(encoder_id)@ == (EncoderView {
                    status: CommandEncoderStatus::Locked,
                    ..old(self).command_encoders.resource(encoder_id)@
                })
            },
    {
        let (device, check) = match self.command_encoders.get(encoder_id) {
            Err(e) => {
                return (ComputePass::new(None, label), Some(CommandEncoderError::InvalidResource(e)));
            },
            Ok(encoder) => (encoder.device, encoder.record()),
        };
        match check {
            Err(e) => {
                return (ComputePass::new(None, label), Some(CommandEncoderError::EncoderState(e)));
            },
            Ok(()) => {},
        }
        let mut encoder = self.command_encoders.swap(encoder_id, CommandEncoder::new(device));
        let _ = encoder.lock_encoder();
        self.command_encoders.replace(encoder_id, encoder);
        proof {
            assert forall|x: Id|
                (#[trigger] self.command_encoders.status(x)) is Valid implies self.command_encoders.resource(
            x).wf() by {
                if x != encoder_id {
                    assert(old(self).command_encoders.status(x) is Valid);
                }
            }
        }
        (ComputePass::new(Some(encoder_id), label), None)
    }

    /// Ends a compute pass: replays its transcript, puts the native
    /// commands and their barriers at the end of the encoder's list, and
    /// lets the encoder record again.
    ///
    /// A pass without a parent, and a pass that was ended, fail and change
    /// nothing. A pass whose encoder is gone or is not locked fails, is
    /// ended, and changes nothing else. Otherwise the pass is ended and the
    /// encoder is unlocked, whatever comes of the replay; if the replay
    /// fails, no native command of the pass is kept.
    pub fn compute_pass_end(&mut self, pass: &mut ComputePass) -> (r: Result<(), ComputePassError>)
        requires
            old(self).wf(),
            old(pass).wf(),
        ensures
            final(self).wf(),
            final(pass).wf(),
            final(self).same_but_command_encoders(old(self)),
            r == old(self).pass_end_spec(old(pass)@).result,
            final(pass)@ == if old(self).pass_end_spec(old(pass)@).ended {
                ended_pass(old(pass)@)
            } else {
                old(pass)@
            },
            match old(self).pass_end_spec(old(pass)@).encoder {
                None => final(self).command_encoders == old(self).command_encoders,
                Some(e) => {
                    let id = old(pass)@.parent->0;
                    &&& final(self).command_encoders.same_but(&old(self).command_encoders, id)
                    &&& final(self).command_encoders.is_valid(id)
                    &&& final(self).command_encoders.resource(id)@ == e
                },
            },
    {
        let parent = match pass.parent {
            None => {
                return Err(
                    ComputePassError {
                        scope: PassErrorScope::Pass,
                        inner: ComputePassErrorInner::InvalidParentEncoder,
                    },
                );
            },
            Some(id) => id,
        };
        let base = match pass.base.take() {
            None => {
                assert(pass@.bound =~= old(pass)@.bound);
                return Err(
                    ComputePassError {
                        scope: PassErrorScope::Pass,
                        inner: ComputePassErrorInner::PassEnded,
                    },
                );
            },
            Some(base) => base,
        };
        let (device_id, check) = match self.command_encoders.get(parent) {
            Err(e) => {
                return Err(
                    ComputePassError {
                        scope: PassErrorScope::Pass,
                        inner: ComputePassErrorInner::InvalidResource(e),
                    },
                );
            },
            Ok(encoder) => (
                encoder.device,
                match encoder.status {
                    CommandEncoderStatus::Locked => Ok(()),
                    CommandEncoderStatus::Recording => Err(EncoderStateError::Unlocked),
                    CommandEncoderStatus::Finished => Err(EncoderStateError::Ended),
                },
            ),
        };
        match check {
            Err(e) => {
                return Err(
                    ComputePassError {
                        scope: PassErrorScope::Pass,
                        inner: ComputePassErrorInner::EncoderState(e),
                    },
                );
            },
            Ok(()) => {},
        }
        let ghost before = old(self).command_encoders.resource(parent)@;
        let mut encoder = self.command_encoders.swap(parent, CommandEncoder::new(device_id));
        let _ = encoder.unlock_encoder();
        let device = match self.devices.get(device_id) {
            Ok(device) => if device.valid {
                Some(*device)
            } else {
                None
            },
            Err(_) => None,
        };
        let device = match device {
            Some(device) => device,
            None => {
                self.command_encoders.replace(parent, encoder);
                proof {
                    self.lemma_encoders_stay_wf(old(self), parent);
                }
                return Err(
                    ComputePassError {
                        scope: PassErrorScope::Pass,
                        inner: ComputePassErrorInner::Device(DeviceError::Lost),
                    },
                );
            },
        };
        encoder.close_if_open();
        let BasePass { label, commands, dynamic_offsets, string_data, push_constant_data } = base;
        let env = ReplayEnv {
            device,
            device_id,
            slots: &self.buffer_slots,
            dynamic_offsets: &dynamic_offsets,
            string_data: &string_data,
            push_constant_data: &push_constant_data,
            used: &pass.used_buffers,
        };
        assert(env@ == old(self).replay_env(device_id, old(pass)@));
        let mut state = State::new(label);
        assert(old(self).devices.status(device_id) is Valid);
        let result = state.run(&env, &commands);
        match result {
            Err(e) => {
                self.command_encoders.replace(parent, encoder);
                proof {
                    self.lemma_encoders_stay_wf(old(self), parent);
                }
                Err(e)
            },
            Ok(()) => {
                let State { raw, intermediate_trackers, .. } = state;
                let mut raw = raw;
                raw.commands.push(NativeCommand::EndComputePass);
                encoder.install(raw);
                encoder.close();
                encoder.trackers.set_from_tracker(&intermediate_trackers);
                let barriers = encoder.trackers.drain_transitions();
                let mut transit = BasePass::new(Some(String::from_str("Pre Pass")));
                push_barriers(&mut transit, &barriers);
                encoder.install(transit);
                encoder.close_and_swap();
                proof {
                    let goal = old(self).pass_end_spec(old(pass)@).encoder->0;
                    assert(encoder@.list =~= goal.list);
                    assert(encoder@.trackers == goal.trackers);
                }
                self.command_encoders.replace(parent, encoder);
                proof {
                    self.lemma_encoders_stay_wf(old(self), parent);
                }
                Ok(())
            },
        }
    }

    /// The encoders stay well formed when one of them is exchanged for a
    /// well-formed one.
    pub proof fn lemma_encoders_stay_wf(&self, before: &Self, id: Id)
        requires
            before.wf(),
            self.command_encoders.same_but(&before.command_encoders, id),
            self.command_encoders.is_valid(id) ==> self.command_encoders.resource(id).wf(),
        ensures
            forall|x: Id|
                (#[trigger] self.command_encoders.status(x)) is Valid
                    ==> self.command_encoders.resource(x).wf(),
    {
        assert forall|x: Id|
            (#[trigger] self.command_encoders.status(x)) is Valid implies self.command_encoders.resource(
        x).wf() by {
            if x != id {
                assert(before.command_encoders.status(x) is Valid);
            }
        }
    }

    /// Two passes that use one buffer in ways that need a barrier get it:
    /// when a pass that succeeds has first needed a buffer in a state, and
    /// the encoder knew the buffer in a state from which that takes a
    /// barrier, then the native command buffer right before the commands of
    /// the pass holds exactly that barrier.
    pub proof fn law_pass_gets_its_barriers(e: EncoderView, s: StateView, index: u32)
        requires
            e.trackers.start.dom() == e.trackers.end.dom(),
            e.trackers.end.contains_key(index),
            s.intermediate.end.contains_key(index),
            !skip_barrier(e.trackers.end[index], s.intermediate.start[index]),
        ensures
            ({
                let after = encoder_after_pass(e, Ok(s));
                let n = after.list.len();
                &&& n >= 2
                &&& after.list[n - 1] == pushed(s.raw, NativeCommand::EndComputePass)
                &&& after.list[n - 2].commands.contains(
                    NativeCommand::TransitionBuffer(
                        PendingTransition {
                            index,
                            from: e.trackers.end[index],
                            to: s.intermediate.start[index],
                        },
                    ),
                )
                &&& after.trackers.end[index] == s.intermediate.end[index]
            }),
    {
        let p = PendingTransition {
            index,
            from: e.trackers.end[index],
            to: s.intermediate.start[index],
        };
        lemma_absorb_barriers(
            e.trackers,
            s.intermediate.start,
            s.intermediate.end,
            INDEX_BOUND as nat,
            p,
        );
        lemma_absorb_states(
            e.trackers,
            s.intermediate.start,
            s.intermediate.end,
            INDEX_BOUND as nat,
        );
        let pending = absorbed(e, s).pending;
        assert(pending.contains(p));
        let k = choose|k: int| 0 <= k < pending.len() && pending[k] == p;
        assert(barrier_commands(pending)[k] == NativeCommand::TransitionBuffer(p));
    }

    /// A pass that succeeds is begun and ended exactly once: the native
    /// command buffer that it leaves at the end of the list begins the
    /// pass in its first command, ends it in its last, and neither begins
    /// nor ends a pass in between; and the encoder is recording again, not
    /// locked.
    pub proof fn law_pass_begins_and_ends_once(
        e: EncoderView,
        label: Option<Seq<char>>,
        env: Env,
        commands: Seq<crate::command::ArcComputeCommand>,
    )
        requires
            replay(initial_state(label), env, commands, commands.len()) is Ok,
        ensures
            ({
                let s = replay(initial_state(label), env, commands, commands.len())->Ok_0;
                let after = encoder_after_pass(e, Ok(s));
                let body = after.list.last().commands;
                &&& after.status == CommandEncoderStatus::Recording
                &&& after.list.len() >= 2
                &&& body.len() >= 2
                &&& body[0] == NativeCommand::BeginComputePass
                &&& body.last() == NativeCommand::EndComputePass
                &&& forall|i: int|
                    1 <= i < body.len() - 1 ==> !((#[trigger] body[i]) is BeginComputePass)
                        && !(body[i] is EndComputePass)
            }),
    {
        crate::replay::law_replay_begins_once(label, env, commands, commands.len());
        let s = replay(initial_state(label), env, commands, commands.len())->Ok_0;
        let body = encoder_after_pass(e, Ok(s)).list.last().commands;
        assert(body == s.raw.commands.push(NativeCommand::EndComputePass));
        assert forall|i: int| 1 <= i < body.len() - 1 implies !((#[trigger] body[i])
            is BeginComputePass) && !(body[i] is EndComputePass) by {
            assert(body[i] == s.raw.commands[i]);
        }
    }

    /// A pass that fails leaves no native command behind, and its encoder
    /// can record the next pass.
    pub proof fn law_failed_pass_leaves_nothing(e: EncoderView, error: ComputePassError)
        ensures
            encoder_after_pass(e, Err(error)).list == closed_list(e),
            encoder_after_pass(e, Err(error)).current is None,
            encoder_after_pass(e, Err(error)).trackers == e.trackers,
            recording_check(encoder_after_pass(e, Err(error)).status) is Ok,
    {
    }

    /// Ending a pass twice fails with `PassEnded` the second time, and the
    /// second time touches neither the pass nor any encoder: a pass that
    /// has a parent is ended by the first call, whatever comes of it and
    /// whatever is done to the tables in between.
    pub proof fn law_ending_twice_fails(&self, later: &Global, p: ComputePassView)
        requires
            p.parent is Some,
        ensures
            self.pass_end_spec(p).ended,
            later.pass_end_spec(ended_pass(p)).result == pass_error(
                ComputePassErrorInner::PassEnded,
            ),
            later.pass_end_spec(ended_pass(p)).encoder is None,
            later.pass_end_spec(ended_pass(p)).ended,
            ended_pass(ended_pass(p)) == ended_pass(p),
    {
    }

    /// A device that is lost refuses everything that is asked of it with
    /// `Lost`: nothing is created on it, nothing is recorded on its
    /// encoders, no pass on them is replayed, and nothing is submitted to
    /// its queue.
    pub proof fn law_lost_device_refuses_everything(
        &self,
        device_id: Id,
        buffer: crate::global::BufferDescriptor,
        texture: crate::resource::TextureDescriptor,
        layouts: Seq<Id>,
        push_constant_size: u32,
        layout: Id,
        entries: Seq<crate::resource::BufferBinding>,
        encoder_id: Id,
        submitted: Seq<Id>,
        p: ComputePassView,
    )
        requires
            self.devices.is_valid(device_id),
            !self.devices.resource(device_id).valid,
        ensures
            self.device_check(device_id) == Some(
                crate::device::CreateError::Device(DeviceError::Lost),
            ),
            self.create_buffer_outcome(device_id, buffer) == Some(
                crate::global::CreateBufferError::Device(DeviceError::Lost),
            ),
            self.texture_check(device_id, texture) == self.device_check(device_id),
            self.pipeline_layout_check(device_id, layouts, push_constant_size)
                == self.device_check(device_id),
            self.bind_group_check(device_id, layout, entries) == self.device_check(device_id),
            self.compute_pipeline_check(device_id, layout) == self.device_check(device_id),
            self.device_submit_check(device_id, submitted) == Some(
                crate::queue::QueueSubmitError::Device(DeviceError::Lost),
            ),
            forall|queue: Id|
                self.queues.is_valid(queue) && self.queues.resource(queue).device == device_id
                    ==> #[trigger] self.queue_submit_check(queue, submitted) == Some(
                    crate::queue::QueueSubmitError::Device(DeviceError::Lost),
                ),
            self.command_encoders.is_valid(encoder_id) && self.command_encoders.resource(
                encoder_id,
            )@.device == device_id ==> {
                let e = self.command_encoders.resource(encoder_id)@;
                &&& e.status == CommandEncoderStatus::Recording ==> self.encoder_check(encoder_id)
                    == Some(crate::transfer::CommandError::Device(DeviceError::Lost))
                &&& e.status == CommandEncoderStatus::Locked && p.parent == Some(encoder_id)
                    && !p.ended ==> self.pass_end_spec(p).result == pass_error(
                    ComputePassErrorInner::Device(DeviceError::Lost),
                )
            },
    {
    }
}

} // verus!
