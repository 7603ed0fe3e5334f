//! The command encoder: the state machine that admits one pass at a time,
//! and the list of native command buffers in the order they will execute.

use vstd::prelude::*;
use crate::command::{label_view, BasePass, EncoderStateError, TranscriptView};
use crate::id::Id;
use crate::track::{BufferTracker, TrackerState};
use crate::usage::PendingTransition;

verus! {

/// A command as the native backend takes it. Variable-length arguments
/// stand in the tables of the command buffer, in the order of the commands
/// that use them.
#[allow(inconsistent_fields)]
#[derive(Clone, Copy, Debug, PartialEq, Eq, Structural)]
pub enum NativeCommand {
    BeginComputePass,
    EndComputePass,
    SetComputePipeline(Id),
    /// Binds the pipeline that checks indirect arguments.
    SetValidationPipeline,
    SetBindGroup { index: u32, bind_group: Id, num_dynamic_offsets: usize },
    /// Binds the scratch buffer, and the indirect buffer from
    /// `aligned_offset` on, for the pipeline that checks indirect arguments.
    SetValidationBindGroups { src: Id, aligned_offset: u64 },
    /// Uploads `size_words` words of the push constant table at byte
    /// `offset`.
    SetPushConstants { offset: u32, size_words: usize },
    Dispatch { x: u32, y: u32, z: u32 },
    DispatchIndirect { buffer: Id, offset: u64 },
    /// Dispatches with the checked arguments in the scratch buffer.
    DispatchIndirectValidated,
    TransitionBuffer(PendingTransition),
    /// Takes the scratch buffer of indirect validation from one state to
    /// another.
    TransitionScratch { from: u16, to: u16 },
    BeginDebugMarker { len: usize },
    EndDebugMarker,
    InsertDebugMarker { len: usize },
    CopyBufferToBuffer { src: Id, src_offset: u64, dst: Id, dst_offset: u64, size: u64 },
    ClearBuffer { dst: Id, offset: u64, size: u64 },
}

/// The states of a command encoder.
#[derive(Clone, Copy, Debug, PartialEq, Eq, Structural)]
pub enum CommandEncoderStatus {
    /// Commands can be recorded and a pass can be begun.
    Recording,
    /// A pass is open; nothing else can be recorded.
    Locked,
    /// The encoder was finished; nothing can be recorded any more.
    Finished,
}

/// What a command encoder holds.
pub struct EncoderView {
    pub device: Id,
    pub status: CommandEncoderStatus,
    /// The closed native command buffers, in execution order.
    pub list: Seq<TranscriptView<NativeCommand>>,
    /// The native command buffer that is open, if one is.
    pub current: Option<TranscriptView<NativeCommand>>,
    pub trackers: TrackerState,
    /// How many debug groups are open outside passes.
    pub debug_scope_depth: u32,
}

/// A command encoder.
pub struct CommandEncoder {
    pub device: Id,
    pub status: CommandEncoderStatus,
    pub list: Vec<BasePass<NativeCommand>>,
    pub current: Option<BasePass<NativeCommand>>,
    /// The state of every buffer the encoder's commands have touched.
    pub trackers: BufferTracker,
    pub debug_scope_depth: u32,
}

/// What `record`, `lock_encoder` and `finish` answer in each state.
pub open spec fn recording_check(status: CommandEncoderStatus) -> Result<(), EncoderStateError> {
    match status {
        CommandEncoderStatus::Recording => Ok(()),
        CommandEncoderStatus::Locked => Err(EncoderStateError::Locked),
        CommandEncoderStatus::Finished => Err(EncoderStateError::Ended),
    }
}

/// What `unlock_encoder` answers in each state.
pub open spec fn locked_check(status: CommandEncoderStatus) -> Result<(), EncoderStateError> {
    match status {
        CommandEncoderStatus::Locked => Ok(()),
        CommandEncoderStatus::Recording => Err(EncoderStateError::Unlocked),
        CommandEncoderStatus::Finished => Err(EncoderStateError::Ended),
    }
}

/// The closed command buffers after the open one, if any, was closed.
pub open spec fn closed_list(e: EncoderView) -> Seq<TranscriptView<NativeCommand>> {
    match e.current {
        Some(c) => e.list.push(c),
        None => e.list,
    }
}

impl CommandEncoder {
    pub open spec fn wf(&self) -> bool {
        self.trackers.wf()
    }

    pub open spec fn view(&self) -> EncoderView {
        EncoderView {
            device: self.device,
            status: self.status,
            list: Seq::new(self.list@.len(), |i: int| self.list@[i]@),
            current: match self.current {
                Some(c) => Some(c@),
                None => None,
            },
            trackers: self.trackers@,
            debug_scope_depth: self.debug_scope_depth,
        }
    }

    /// An encoder that has recorded nothing.
    pub fn new(device: Id) -> (e: Self)
        ensures
            e.wf(),
            e@.device == device,
            e@.status == CommandEncoderStatus::Recording,
            e@.list == Seq::<TranscriptView<NativeCommand>>::empty(),
            e@.current is None,
            e@.trackers.pending == Seq::<PendingTransition>::empty(),
            e@.trackers.start == Map::<u32, u16>::empty(),
            e@.trackers.end == Map::<u32, u16>::empty(),
            e@.debug_scope_depth == 0,
    {
        let e = CommandEncoder {
            device,
            status: CommandEncoderStatus::Recording,
            list: Vec::new(),
            current: None,
            trackers: BufferTracker::new(),
            debug_scope_depth: 0,
        };
        assert(e@.list =~= Seq::<TranscriptView<NativeCommand>>::empty());
        e
    }

    /// Whether commands can be recorded now.
    pub fn record(&self) -> (r: Result<(), EncoderStateError>)
        ensures
            r == recording_check(self@.status),
    {
        match self.status {
            CommandEncoderStatus::Recording => Ok(()),
            CommandEncoderStatus::Locked => Err(EncoderStateError::Locked),
            CommandEncoderStatus::Finished => Err(EncoderStateError::Ended),
        }
    }

    /// Locks the encoder for a pass. Only a recording encoder can be
    /// locked; any other keeps its state.
    pub fn lock_encoder(&mut self) -> (r: Result<(), EncoderStateError>)
        ensures
            r == recording_check(old(self)@.status),
            final(self)@ == (EncoderView {
                status: if r is Ok {
                    CommandEncoderStatus::Locked
                } else {
                    old(self)@.status
                },
                ..old(self)@
            }),
            old(self).wf() ==> final(self).wf(),
    {
        match self.status {
            CommandEncoderStatus::Recording => {
                self.status = CommandEncoderStatus::Locked;
                Ok(())
            },
            CommandEncoderStatus::Locked => Err(EncoderStateError::Locked),
            CommandEncoderStatus::Finished => Err(EncoderStateError::Ended),
        }
    }

    /// Unlocks the encoder when its pass ends. Only a locked encoder can be
    /// unlocked; any other keeps its state.
    pub fn unlock_encoder(&mut self) -> (r: Result<(), EncoderStateError>)
        ensures
            r == locked_check(old(self)@.status),
            final(self)@ == (EncoderView {
                status: if r is Ok {
                    CommandEncoderStatus::Recording
                } else {
                    old(self)@.status
                },
                ..old(self)@
            }),
            old(self).wf() ==> final(self).wf(),
    {
        match self.status {
            CommandEncoderStatus::Locked => {
                self.status = CommandEncoderStatus::Recording;
                Ok(())
            },
            CommandEncoderStatus::Recording => Err(EncoderStateError::Unlocked),
            CommandEncoderStatus::Finished => Err(EncoderStateError::Ended),
        }
    }

    /// Closes the open native command buffer, if there is one, and puts it
    /// at the end of the list.
    pub fn close_if_open(&mut self)
        ensures
            final(self)@ == (EncoderView { list: closed_list(old(self)@), current: None, ..old(self)@ }),
            old(self).wf() ==> final(self).wf(),
    {
        let current = self.current.take();
        match current {
            Some(c) => {
                self.list.push(c);
            },
            None => {},
        }
        assert(self@.list =~= closed_list(old(self)@));
    }

    /// Closes the open native command buffer and puts it at the end of the
    /// list.
    pub fn close(&mut self)
        requires
            old(self)@.current is Some,
        ensures
            final(self)@ == (EncoderView { list: closed_list(old(self)@), current: None, ..old(self)@ }),
            old(self).wf() ==> final(self).wf(),
    {
        self.close_if_open();
    }

    /// Closes the open native command buffer and puts it before the last
    /// one of the list, so that it executes first.
    pub fn close_and_swap(&mut self)
        requires
            old(self)@.current is Some,
            old(self)@.list.len() >= 1,
        ensures
            final(self)@ == (EncoderView {
                list: old(self)@.list.drop_last().push(old(self)@.current->0).push(
                    old(self)@.list.last(),
                ),
                current: None,
                ..old(self)@
            }),
            old(self).wf() ==> final(self).wf(),
    {
        let current = self.current.take();
        match current {
            Some(c) => {
                let n = self.list.len();
                self.list.insert(n - 1, c);
            },
            None => {},
        }
        assert(self@.list =~= old(self)@.list.drop_last().push(old(self)@.current->0).push(
            old(self)@.list.last(),
        ));
    }

    /// Opens a native command buffer for a pass.
    pub fn open_pass(&mut self, label: Option<String>)
        requires
            old(self)@.current is None,
        ensures
            final(self)@ == (EncoderView {
                current: Some(
                    TranscriptView {
                        label: label_view(label),
                        commands: Seq::empty(),
                        dynamic_offsets: Seq::empty(),
                        string_data: Seq::empty(),
                        push_constant_data: Seq::empty(),
                    },
                ),
                ..old(self)@
            }),
            old(self).wf() ==> final(self).wf(),
    {
        self.current = Some(BasePass::new(label));
        assert(self@.list =~= old(self)@.list);
    }

    /// Takes a native command buffer that was filled elsewhere as the open
    /// one.
    pub fn install(&mut self, buffer: BasePass<NativeCommand>)
        requires
            old(self)@.current is None,
        ensures
            final(self)@ == (EncoderView { current: Some(buffer@), ..old(self)@ }),
            old(self).wf() ==> final(self).wf(),
    {
        self.current = Some(buffer);
        assert(self@.list =~= old(self)@.list);
    }

    /// Opens a native command buffer unless one is open.
    pub fn open(&mut self)
        ensures
            final(self)@ == (EncoderView {
                current: match old(self)@.current {
                    Some(c) => Some(c),
                    None => Some(
                        TranscriptView {
                            label: None,
                            commands: Seq::empty(),
                            dynamic_offsets: Seq::empty(),
                            string_data: Seq::empty(),
                            push_constant_data: Seq::empty(),
                        },
                    ),
                },
                ..old(self)@
            }),
            old(self).wf() ==> final(self).wf(),
    {
        if self.current.is_none() {
            self.current = Some(BasePass::new(None));
        }
        assert(self@.list =~= old(self)@.list);
    }

    /// Throws the open native command buffer away, if there is one.
    pub fn discard(&mut self)
        ensures
            final(self)@ == (EncoderView { current: None, ..old(self)@ }),
            old(self).wf() ==> final(self).wf(),
    {
        self.current = None;
        assert(self@.list =~= old(self)@.list);
    }

    /// Appends a command to the open native command buffer.
    pub fn push(&mut self, command: NativeCommand)
        requires
            old(self)@.current is Some,
        ensures
            final(self)@ == (EncoderView {
                current: Some(
                    TranscriptView {
                        commands: old(self)@.current->0.commands.push(command),
                        ..old(self)@.current->0
                    },
                ),
                ..old(self)@
            }),
            old(self).wf() ==> final(self).wf(),
    {
        let mut c = self.current.take().unwrap();
        c.commands.push(command);
        self.current = Some(c);
        assert(self@.list =~= old(self)@.list);
    }

    /// Finishes the encoder: the open native command buffer is closed, and
    /// nothing can be recorded any more. Only a recording encoder can be
    /// finished; any other stays as it is.
    pub fn finish(&mut self) -> (r: Result<(), EncoderStateError>)
        ensures
            r == recording_check(old(self)@.status),
            final(self)@ == if r is Ok {
                EncoderView {
                    status: CommandEncoderStatus::Finished,
                    list: closed_list(old(self)@),
                    current: None,
                    ..old(self)@
                }
            } else {
                old(self)@
            },
            old(self).wf() ==> final(self).wf(),
    {
        match self.status {
            CommandEncoderStatus::Recording => {
                self.close_if_open();
                self.status = CommandEncoderStatus::Finished;
                Ok(())
            },
            CommandEncoderStatus::Locked => Err(EncoderStateError::Locked),
            CommandEncoderStatus::Finished => Err(EncoderStateError::Ended),
        }
    }
}

} // verus!
