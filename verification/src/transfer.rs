//! Commands that are recorded on a command encoder outside passes: copies
//! between buffers, debug labels, and finishing the encoder.

use vstd::prelude::*;
use vstd::string::StringSliceAdditionalSpecFns;
use crate::command::{
    extend_u8, DeviceError, EncoderStateError, MissingBufferUsageError, TranscriptView,
};
use crate::encoder::{
    closed_list, recording_check, CommandEncoder, CommandEncoderStatus, EncoderView, NativeCommand,
};
use crate::global::Global;
use crate::id::Id;
use crate::registry::InvalidResourceError;
use crate::resource::{Buffer, BUFFER_USAGE_COPY_DST, BUFFER_USAGE_COPY_SRC};
use crate::track::{track, TrackerState};
use crate::usage::{PendingTransition, COPY_DST, COPY_SRC};

verus! {

/// The side of a copy.
#[derive(Clone, Copy, Debug, PartialEq, Eq, Structural)]
pub enum CopySide {
    Source,
    Destination,
}

/// Why a command could not be recorded on an encoder.
#[derive(Clone, Copy, Debug, PartialEq, Eq, Structural)]
pub enum CommandError {
    /// The encoder does not exist.
    InvalidEncoder(InvalidResourceError),
    EncoderState(EncoderStateError),
    Device(DeviceError),
    InvalidResource(InvalidResourceError),
    DestroyedResource(Id),
    SameSourceDestinationBuffer,
    MissingBufferUsage(MissingBufferUsageError),
    /// The size of a copy is no multiple of four.
    UnalignedCopySize(u64),
    /// An offset of a copy is no multiple of four.
    UnalignedBufferOffset(u64),
    /// The bytes `start_offset..start_offset + size` reach beyond the
    /// buffer.
    BufferOverrun { start_offset: u64, size: u64, buffer_size: u64, side: CopySide },
    /// More debug groups are open than can be counted.
    TooManyDebugGroups,
    InvalidPopDebugGroup,
}

/// The state of an encoder after a copy from `src` to `dst`: each buffer
/// is tracked in its state of the copy, and the open native command buffer
/// takes the barriers this needs, the source's first, and then the copy.
pub open spec fn after_copy(
    e: EncoderView,
    src: Buffer,
    src_offset: u64,
    dst: Buffer,
    dst_offset: u64,
    size: u64,
) -> EncoderView {
    let open = match e.current {
        Some(c) => c,
        None => TranscriptView {
            label: None,
            commands: Seq::empty(),
            dynamic_offsets: Seq::empty(),
            string_data: Seq::empty(),
            push_constant_data: Seq::empty(),
        },
    };
    let first = track(e.trackers, src.tracker_index, COPY_SRC, COPY_SRC);
    let second = track(first, dst.tracker_index, COPY_DST, COPY_DST);
    EncoderView {
        current: Some(
            TranscriptView {
                commands: open.commands + crate::replay::barrier_commands(
                    second.pending.subrange(e.trackers.pending.len() as int, second.pending.len() as int),
                ) + seq![
                    NativeCommand::CopyBufferToBuffer {
                        src: src.id,
                        src_offset,
                        dst: dst.id,
                        dst_offset,
                        size,
                    },
                ],
                ..open
            },
        ),
        trackers: TrackerState { pending: e.trackers.pending, ..second },
        ..e
    }
}

impl Global {
    /// What keeps commands from being recorded on an encoder: it does not
    /// exist, it is not recording, or its device is gone or lost.
    pub open spec fn encoder_check(&self, encoder_id: Id) -> Option<CommandError> {
        if !self.command_encoders.is_valid(encoder_id) {
            Some(CommandError::InvalidEncoder(InvalidResourceError { id: encoder_id }))
        } else {
            let e = self.command_encoders.resource(encoder_id)@;
            match recording_check(e.status) {
                Err(e) => Some(CommandError::EncoderState(e)),
                Ok(_) => if self.device_check(e.device) is Some {
                    Some(CommandError::Device(DeviceError::Lost))
                } else {
                    None
                },
            }
        }
    }

    /// What keeps a buffer from taking part in a copy on the given side.
    pub open spec fn copy_side_check(
        &self,
        device: Id,
        buffer_id: Id,
        offset: u64,
        size: u64,
        side: CopySide,
    ) -> Option<CommandError> {
        let needed = if side == CopySide::Source {
            BUFFER_USAGE_COPY_SRC
        } else {
            BUFFER_USAGE_COPY_DST
        };
        if !self.buffers.is_valid(buffer_id) {
            Some(CommandError::InvalidResource(InvalidResourceError { id: buffer_id }))
        } else {
            let b = self.buffers.resource(buffer_id);
            if b.device != device {
                Some(CommandError::Device(DeviceError::DeviceMismatch))
            } else if !Self::buffer_alive(self.buffer_slots@, b) {
                Some(CommandError::DestroyedResource(buffer_id))
            } else if b.usage & needed == 0 {
                Some(
                    CommandError::MissingBufferUsage(
                        MissingBufferUsageError {
                            buffer: buffer_id,
                            actual: b.usage,
                            expected: needed,
                        },
                    ),
                )
            } else if offset % 4 != 0 {
                Some(CommandError::UnalignedBufferOffset(offset))
            } else if offset + size > b.size {
                Some(
                    CommandError::BufferOverrun {
                        start_offset: offset,
                        size,
                        buffer_size: b.size,
                        side,
                    },
                )
            } else {
                None
            }
        }
    }

    /// The rules a copy between buffers is held to, in the order they are
    /// tried.
    pub open spec fn copy_check(
        &self,
        encoder_id: Id,
        src: Id,
        src_offset: u64,
        dst: Id,
        dst_offset: u64,
        size: u64,
    ) -> Option<CommandError> {
        if self.encoder_check(encoder_id) is Some {
            self.encoder_check(encoder_id)
        } else {
            let device = self.command_encoders.resource(encoder_id)@.device;
            if src == dst {
                Some(CommandError::SameSourceDestinationBuffer)
            } else if size % 4 != 0 {
                Some(CommandError::UnalignedCopySize(size))
            } else if self.copy_side_check(device, src, src_offset, size, CopySide::Source) is Some {
                self.copy_side_check(device, src, src_offset, size, CopySide::Source)
            } else {
                self.copy_side_check(device, dst, dst_offset, size, CopySide::Destination)
            }
        }
    }

    /// A copy needs a source that was created to be copied from and a
    /// destination that was created to be copied to: whatever else is the
    /// case, no copy is recorded without them.
    pub proof fn law_copy_needs_usage(
        &self,
        encoder_id: Id,
        src: Id,
        src_offset: u64,
        dst: Id,
        dst_offset: u64,
        size: u64,
    )
        requires
            (self.buffers.is_valid(src) && self.buffers.resource(src).usage & BUFFER_USAGE_COPY_SRC
                == 0) || (self.buffers.is_valid(dst) && self.buffers.resource(dst).usage
                & BUFFER_USAGE_COPY_DST == 0),
        ensures
            self.copy_check(encoder_id, src, src_offset, dst, dst_offset, size) is Some,
    {
    }

    fn check_encoder(&self, encoder_id: Id) -> (r: Result<Id, CommandError>)
        requires
            self.wf(),
        ensures
            match r {
                Ok(device) => self.encoder_check(encoder_id) is None && device
                    == self.command_encoders.resource(encoder_id)@.device,
                Err(e) => self.encoder_check(encoder_id) == Some(e),
            },
    {
        match self.command_encoders.get(encoder_id) {
            Err(e) => Err(CommandError::InvalidEncoder(e)),
            Ok(encoder) => match encoder.record() {
                Err(e) => Err(CommandError::EncoderState(e)),
                Ok(()) => {
                    if self.check_device(encoder.device).is_err() {
                        Err(CommandError::Device(DeviceError::Lost))
                    } else {
                        Ok(encoder.device)
                    }
                },
            },
        }
    }

    fn check_copy_side(&self, device: Id, buffer_id: Id, offset: u64, size: u64, side: CopySide) -> (r:
        Result<Buffer, CommandError>)
        requires
            self.wf(),
        ensures
            match r {
                Ok(b) => self.copy_side_check(device, buffer_id, offset, size, side) is None && b
                    == self.buffers.resource(buffer_id),
                Err(e) => self.copy_side_check(device, buffer_id, offset, size, side) == Some(e),
            },
    {
        let needed = match side {
            CopySide::Source => BUFFER_USAGE_COPY_SRC,
            CopySide::Destination => BUFFER_USAGE_COPY_DST,
        };
        let b = match self.buffers.get(buffer_id) {
            Err(e) => {
                return Err(CommandError::InvalidResource(e));
            },
            Ok(b) => *b,
        };
        if b.device != device {
            return Err(CommandError::Device(DeviceError::DeviceMismatch));
        }
        if !self.is_buffer_alive(&b) {
            return Err(CommandError::DestroyedResource(buffer_id));
        }
        if b.usage & needed == 0 {
            return Err(
                CommandError::MissingBufferUsage(
                    MissingBufferUsageError { buffer: buffer_id, actual: b.usage, expected: needed },
                ),
            );
        }
        if offset % 4 != 0 {
            return Err(CommandError::UnalignedBufferOffset(offset));
        }
        if offset > b.size || size > b.size - offset {
            return Err(
                CommandError::BufferOverrun { start_offset: offset, size, buffer_size: b.size, side },
            );
        }
        Ok(b)
    }

    /// Records a copy of `size` bytes from one buffer to another.
    ///
    /// The copy is recorded only if it passes every rule; what fails is
    /// returned and nothing changes. A copy of no bytes that passes every
    /// rule changes nothing either. Otherwise both buffers are tracked in
    /// their state of the copy, and the native command buffer that is open
    /// (one is opened if none is) takes the barriers and the copy.
    pub fn command_encoder_copy_buffer_to_buffer(
        &mut self,
        encoder_id: Id,
        src: Id,
        src_offset: u64,
        dst: Id,
        dst_offset: u64,
        size: u64,
    ) -> (r: Result<(), CommandError>)
        requires
            old(self).wf(),
        ensures
            final(self).wf(),
            final(self).same_but_command_encoders(old(self)),
            r == match old(self).copy_check(encoder_id, src, src_offset, dst, dst_offset, size) {
                Some(e) => Err::<(), CommandError>(e),
                None => Ok(()),
            },
            r is Err || size == 0 ==> final(self).command_encoders == old(self).command_encoders,
            r is Ok && size != 0 ==> {
                &&& final(self).command_encoders.same_but(&old(self).command_encoders, encoder_id)
                &&& final(self).command_encoders.is_valid(encoder_id)
                &&& final(self).command_encoders.resource(encoder_id)@ == after_copy(
                    old(self).command_encoders.resource(encoder_id)@,
                    old(self).buffers.resource(src),
                    src_offset,
                    old(self).buffers.resource(dst),
                    dst_offset,
                    size,
                )
            },
    {
        let device = match self.check_encoder(encoder_id) {
            Ok(device) => device,
            Err(e) => {
                return Err(e);
            },
        };
        if src == dst {
            return Err(CommandError::SameSourceDestinationBuffer);
        }
        if size % 4 != 0 {
            return Err(CommandError::UnalignedCopySize(size));
        }
        let source = match self.check_copy_side(device, src, src_offset, size, CopySide::Source) {
            Ok(b) => b,
            Err(e) => {
                return Err(e);
            },
        };
        let destination = match self.check_copy_side(
            device,
            dst,
            dst_offset,
            size,
            CopySide::Destination,
        ) {
            Ok(b) => b,
            Err(e) => {
                return Err(e);
            },
        };
        if size == 0 {
            return Ok(());
        }
        let mut encoder = self.command_encoders.swap(encoder_id, CommandEncoder::new(device));
        let ghost before = encoder@;
        encoder.open();
        let first = encoder.trackers.set_single(source.tracker_index, COPY_SRC);
        match first {
            Some(t) => {
                encoder.push(NativeCommand::TransitionBuffer(t));
            },
            None => {},
        }
        let second = encoder.trackers.set_single(destination.tracker_index, COPY_DST);
        match second {
            Some(t) => {
                encoder.push(NativeCommand::TransitionBuffer(t));
            },
            None => {},
        }
        encoder.push(
            NativeCommand::CopyBufferToBuffer {
                src: source.id,
                src_offset,
                dst: destination.id,
                dst_offset,
                size,
            },
        );
        proof {
            let goal = after_copy(before, source, src_offset, destination, dst_offset, size);
            let one = track(before.trackers, source.tracker_index, COPY_SRC, COPY_SRC);
            let two = track(one, destination.tracker_index, COPY_DST, COPY_DST);
            let added = two.pending.subrange(
                before.trackers.pending.len() as int,
                two.pending.len() as int,
            );
            assert(one.pending.len() >= before.trackers.pending.len());
            if first is Some && second is Some {
                assert(added =~= seq![first->0, second->0]);
            } else if first is Some {
                assert(added =~= seq![first->0]);
            } else if second is Some {
                assert(added =~= seq![second->0]);
            } else {
                assert(added =~= Seq::<PendingTransition>::empty());
            }
            assert(encoder@.current->0.commands =~= goal.current->0.commands);
            assert(encoder@.trackers == goal.trackers);
            assert(old(self).owns_slot(source, src));
        }
        self.command_encoders.replace(encoder_id, encoder);
        proof {
            self.lemma_encoders_stay_wf(old(self), encoder_id);
        }
        Ok(())
    }

    /// Finishes an encoder: its open native command buffer is closed and
    /// nothing can be recorded on it any more. Fails, and changes nothing,
    /// on an encoder that does not exist or is not recording, and on one
    /// whose device is lost.
    pub fn command_encoder_finish(&mut self, encoder_id: Id) -> (r: Result<(), CommandError>)
        requires
            old(self).wf(),
        ensures
            final(self).wf(),
            final(self).same_but_command_encoders(old(self)),
            r == match old(self).encoder_check(encoder_id) {
                Some(e) => Err::<(), CommandError>(e),
                None => Ok(()),
            },
            r is Err ==> final(self).command_encoders == old(self).command_encoders,
            r is Ok ==> {
                let e = old(self).command_encoders.resource(encoder_id)@;
                &&& final(self).command_encoders.same_but(&old(self).command_encoders, encoder_id)
                &&& final(self).command_encoders.is_valid(encoder_id)
                &&& final(self).command_encoders.resource(encoder_id)@ == (EncoderView {
                    status: CommandEncoderStatus::Finished,
                    list: closed_list(e),
                    current: None,
                    ..e
                })
            },
    {
        let device = match self.check_encoder(encoder_id) {
            Ok(device) => device,
            Err(e) => {
                return Err(e);
            },
        };
        let mut encoder = self.command_encoders.swap(encoder_id, CommandEncoder::new(device));
        let _ = encoder.finish();
        self.command_encoders.replace(encoder_id, encoder);
        proof {
            self.lemma_encoders_stay_wf(old(self), encoder_id);
        }
        Ok(())
    }

    /// Drops an encoder, or the placeholder of one, with all it has
    /// recorded. Dropping what is not registered changes nothing.
    pub fn command_encoder_drop(&mut self, encoder_id: Id)
        requires
            old(self).wf(),
        ensures
            final(self).wf(),
            final(self).same_but_command_encoders(old(self)),
            final(self).command_encoders.same_but(&old(self).command_encoders, encoder_id),
            !final(self).command_encoders.is_registered(encoder_id),
            old(self).command_encoders.is_registered(encoder_id)
                ==> final(self).command_encoders.status(encoder_id) is Retired,
    {
        self.command_encoders.remove(encoder_id);
        proof {
            self.lemma_encoders_stay_wf(old(self), encoder_id);
        }
    }

    /// The state of an encoder after a debug label was recorded on it:
    /// `change` is 1 for the start of a group, -1 for the end of one and 0
    /// for a marker. The native encoder is told unless the device discards
    /// labels.
    pub open spec fn after_debug(e: EncoderView, discard: bool, change: int, label: Seq<u8>)
        -> EncoderView {
        let open = match e.current {
            Some(c) => c,
            None => TranscriptView {
                label: None,
                commands: Seq::empty(),
                dynamic_offsets: Seq::empty(),
                string_data: Seq::empty(),
                push_constant_data: Seq::empty(),
            },
        };
        EncoderView {
            debug_scope_depth: (e.debug_scope_depth + change) as u32,
            current: if discard {
                e.current
            } else {
                Some(
                    TranscriptView {
                        commands: open.commands.push(
                            if change > 0 {
                                NativeCommand::BeginDebugMarker { len: label.len() as usize }
                            } else if change < 0 {
                                NativeCommand::EndDebugMarker
                            } else {
                                NativeCommand::InsertDebugMarker { len: label.len() as usize }
                            },
                        ),
                        string_data: open.string_data + label,
                        ..open
                    },
                )
            },
            ..e
        }
    }

    /// What keeps a debug label from being recorded.
    pub open spec fn debug_check(&self, encoder_id: Id, change: int) -> Option<CommandError> {
        if self.encoder_check(encoder_id) is Some {
            self.encoder_check(encoder_id)
        } else {
            let e = self.command_encoders.resource(encoder_id)@;
            if change > 0 && e.debug_scope_depth == u32::MAX {
                Some(CommandError::TooManyDebugGroups)
            } else if change < 0 && e.debug_scope_depth == 0 {
                Some(CommandError::InvalidPopDebugGroup)
            } else {
                None
            }
        }
    }

    fn record_debug(&mut self, encoder_id: Id, change: i8, label: &[u8]) -> (r: Result<
        (),
        CommandError,
    >)
        requires
            old(self).wf(),
            -1 <= change <= 1,
            change < 0 ==> label@.len() == 0,
        ensures
            final(self).wf(),
            final(self).same_but_command_encoders(old(self)),
            r == match old(self).debug_check(encoder_id, change as int) {
                Some(e) => Err::<(), CommandError>(e),
                None => Ok(()),
            },
            r is Err ==> final(self).command_encoders == old(self).command_encoders,
            r is Ok ==> {
                let e = old(self).command_encoders.resource(encoder_id)@;
                &&& final(self).command_encoders.same_but(&old(self).command_encoders, encoder_id)
                &&& final(self).command_encoders.is_valid(encoder_id)
                &&& final(self).command_encoders.resource(encoder_id)@ == Self::after_debug(
                    e,
                    old(self).devices.is_valid(e.device) && old(self).devices.resource(
                        e.device,
                    ).discard_labels,
                    change as int,
                    label@,
                )
            },
    {
        let device = match self.check_encoder(encoder_id) {
            Ok(device) => device,
            Err(e) => {
                return Err(e);
            },
        };
        let depth = match self.command_encoders.get(encoder_id) {
            Ok(encoder) => encoder.debug_scope_depth,
            Err(_) => 0,
        };
        if change > 0 && depth == u32::MAX {
            return Err(CommandError::TooManyDebugGroups);
        }
        if change < 0 && depth == 0 {
            return Err(CommandError::InvalidPopDebugGroup);
        }
        let discard = match self.devices.get(device) {
            Ok(d) => d.discard_labels,
            Err(_) => false,
        };
        let mut encoder = self.command_encoders.swap(encoder_id, CommandEncoder::new(device));
        let ghost before = encoder@;
        if change > 0 {
            encoder.debug_scope_depth = depth + 1;
        } else if change < 0 {
            encoder.debug_scope_depth = depth - 1;
        }
        assert(encoder@.list =~= before.list);
        if !discard {
            encoder.open();
            let mut current = encoder.current.take().unwrap();
            if change > 0 {
                current.commands.push(NativeCommand::BeginDebugMarker { len: label.len() });
            } else if change < 0 {
                current.commands.push(NativeCommand::EndDebugMarker);
            } else {
                current.commands.push(NativeCommand::InsertDebugMarker { len: label.len() });
            }
            extend_u8(&mut current.string_data, label);
            encoder.current = Some(current);
            assert(encoder@.list =~= before.list);
        }
        self.command_encoders.replace(encoder_id, encoder);
        proof {
            self.lemma_encoders_stay_wf(old(self), encoder_id);
        }
        Ok(())
    }

    /// Records the start of a debug group on an encoder. Fails, and changes
    /// nothing, on an encoder that does not exist or is not recording, and
    /// on one whose device is lost.
    pub fn command_encoder_push_debug_group(&mut self, encoder_id: Id, label: &str) -> (r: Result<
        (),
        CommandError,
    >)
        requires
            old(self).wf(),
        ensures
            final(self).wf(),
            final(self).same_but_command_encoders(old(self)),
            r == match old(self).debug_check(encoder_id, 1) {
                Some(e) => Err::<(), CommandError>(e),
                None => Ok(()),
            },
            r is Err ==> final(self).command_encoders == old(self).command_encoders,
            r is Ok ==> {
                let e = old(self).command_encoders.resource(encoder_id)@;
                &&& final(self).command_encoders.same_but(&old(self).command_encoders, encoder_id)
                &&& final(self).command_encoders.is_valid(encoder_id)
                &&& final(self).command_encoders.resource(encoder_id)@ == Self::after_debug(
                    e,
                    old(self).devices.is_valid(e.device) && old(self).devices.resource(
                        e.device,
                    ).discard_labels,
                    1,
                    label.spec_bytes(),
                )
            },
    {
        self.record_debug(encoder_id, 1, label.as_bytes())
    }

    /// Records the end of the innermost debug group on an encoder. Fails,
    /// and changes nothing, on an encoder that does not exist or is not
    /// recording, on one whose device is lost, and when no debug group is
    /// open.
    pub fn command_encoder_pop_debug_group(&mut self, encoder_id: Id) -> (r: Result<
        (),
        CommandError,
    >)
        requires
            old(self).wf(),
        ensures
            final(self).wf(),
            final(self).same_but_command_encoders(old(self)),
            r == match old(self).debug_check(encoder_id, -1) {
                Some(e) => Err::<(), CommandError>(e),
                None => Ok(()),
            },
            r is Err ==> final(self).command_encoders == old(self).command_encoders,
            r is Ok ==> {
                let e = old(self).command_encoders.resource(encoder_id)@;
                &&& final(self).command_encoders.same_but(&old(self).command_encoders, encoder_id)
                &&& final(self).command_encoders.is_valid(encoder_id)
                &&& final(self).command_encoders.resource(encoder_id)@ == Self::after_debug(
                    e,
                    old(self).devices.is_valid(e.device) && old(self).devices.resource(
                        e.device,
                    ).discard_labels,
                    -1,
                    Seq::empty(),
                )
            },
    {
        let none: Vec<u8> = Vec::new();
        self.record_debug(encoder_id, -1, none.as_slice())
    }

    /// Records a debug marker on an encoder. Fails, and changes nothing, on
    /// an encoder that does not exist or is not recording, and on one whose
    /// device is lost.
    pub fn command_encoder_insert_debug_marker(&mut self, encoder_id: Id, label: &str) -> (r:
        Result<(), CommandError>)
        requires
            old(self).wf(),
        ensures
            final(self).wf(),
            final(self).same_but_command_encoders(old(self)),
            r == match old(self).debug_check(encoder_id, 0) {
                Some(e) => Err::<(), CommandError>(e),
                None => Ok(()),
            },
            r is Err ==> final(self).command_encoders == old(self).command_encoders,
            r is Ok ==> {
                let e = old(self).command_encoders.resource(encoder_id)@;
                &&& final(self).command_encoders.same_but(&old(self).command_encoders, encoder_id)
                &&& final(self).command_encoders.is_valid(encoder_id)
                &&& final(self).command_encoders.resource(encoder_id)@ == Self::after_debug(
                    e,
                    old(self).devices.is_valid(e.device) && old(self).devices.resource(
                        e.device,
                    ).discard_labels,
                    0,
                    label.spec_bytes(),
                )
            },
    {
        self.record_debug(encoder_id, 0, label.as_bytes())
    }
}

} // verus!
