//! Submission: finished command encoders are handed over, in order, as the
//! native command buffers they hold, under an index that only grows.

use vstd::prelude::*;
use crate::command::{BasePass, DeviceError, TranscriptView};
use crate::encoder::{CommandEncoder, CommandEncoderStatus, NativeCommand};
use crate::global::Global;
use crate::id::Id;
use crate::registry::{InvalidResourceError, Registry};

verus! {

/// Why command buffers could not be submitted.
#[derive(Clone, Copy, Debug, PartialEq, Eq, Structural)]
pub enum QueueSubmitError {
    /// The queue does not exist.
    InvalidQueue(InvalidResourceError),
    /// The device of the queue does not exist.
    InvalidDevice(InvalidResourceError),
    Device(DeviceError),
    /// A command encoder does not exist.
    InvalidResource(InvalidResourceError),
    /// A command encoder is not finished.
    Unfinished(Id),
    /// A command encoder is listed twice.
    Duplicate(Id),
    /// No submission index is left.
    Exhausted,
}

/// What keeps the command encoders from `i` on from being submitted: the
/// first that does not exist, is of another device, is not finished, or
/// was listed before.
pub open spec fn submit_check(
    encoders: Registry<CommandEncoder>,
    device: Id,
    ids: Seq<Id>,
    i: int,
) -> Option<QueueSubmitError>
    decreases ids.len() - i,
{
    if i < 0 || i >= ids.len() {
        None
    } else if !encoders.is_valid(ids[i]) {
        Some(QueueSubmitError::InvalidResource(InvalidResourceError { id: ids[i] }))
    } else if encoders.resource(ids[i])@.device != device {
        Some(QueueSubmitError::Device(DeviceError::DeviceMismatch))
    } else if encoders.resource(ids[i])@.status != CommandEncoderStatus::Finished {
        Some(QueueSubmitError::Unfinished(ids[i]))
    } else if ids.take(i).contains(ids[i]) {
        Some(QueueSubmitError::Duplicate(ids[i]))
    } else {
        submit_check(encoders, device, ids, i + 1)
    }
}

/// The native command buffers of the first `n` command encoders, in order.
pub open spec fn submitted(encoders: Registry<CommandEncoder>, ids: Seq<Id>, n: nat) -> Seq<
    TranscriptView<NativeCommand>,
>
    decreases n,
{
    if n == 0 {
        Seq::empty()
    } else {
        submitted(encoders, ids, (n - 1) as nat) + encoders.resource(ids[n - 1])@.list
    }
}

/// What the native command buffers of a list hold.
pub open spec fn lists_view(lists: Seq<BasePass<NativeCommand>>) -> Seq<
    TranscriptView<NativeCommand>,
> {
    Seq::new(lists.len(), |i: int| lists[i]@)
}

fn seen_before(ids: &[Id], i: usize) -> (seen: bool)
    requires
        i < ids@.len(),
    ensures
        seen == ids@.take(i as int).contains(ids@[i as int]),
{
    let id = ids[i];
    let mut k: usize = 0;
    while k < i
        invariant
            k <= i < ids@.len(),
            id == ids@[i as int],
            forall|j: int| 0 <= j < k ==> ids@.take(i as int)[j] != id,
        decreases i - k,
    {
        if ids[k] == id {
            assert(ids@.take(i as int)[k as int] == id);
            return true;
        }
        k += 1;
    }
    false
}

impl Global {
    /// The rules a submission to a queue is held to, in the order they are
    /// tried: the queue must exist, and then the rules of its device hold.
    pub open spec fn queue_submit_check(&self, queue: Id, ids: Seq<Id>) -> Option<
        QueueSubmitError,
    > {
        if !self.queues.is_valid(queue) {
            Some(QueueSubmitError::InvalidQueue(InvalidResourceError { id: queue }))
        } else {
            self.device_submit_check(self.queues.resource(queue).device, ids)
        }
    }

    /// The rules a submission is held to on the device of its queue, in
    /// the order they are tried.
    pub open spec fn device_submit_check(&self, device: Id, ids: Seq<Id>) -> Option<
        QueueSubmitError,
    > {
        if !self.devices.is_valid(device) {
            Some(QueueSubmitError::InvalidDevice(InvalidResourceError { id: device }))
        } else if !self.devices.resource(device).valid {
            Some(QueueSubmitError::Device(DeviceError::Lost))
        } else if self.submission_index == u64::MAX {
            Some(QueueSubmitError::Exhausted)
        } else {
            submit_check(self.command_encoders, device, ids, 0)
        }
    }

    fn check_submit(&self, device: Id, ids: &[Id]) -> (r: Option<QueueSubmitError>)
        requires
            self.wf(),
        ensures
            r == self.device_submit_check(device, ids@),
    {
        match self.devices.get(device) {
            Err(e) => {
                return Some(QueueSubmitError::InvalidDevice(e));
            },
            Ok(d) => {
                if !d.valid {
                    return Some(QueueSubmitError::Device(DeviceError::Lost));
                }
            },
        }
        if self.submission_index == u64::MAX {
            return Some(QueueSubmitError::Exhausted);
        }
        let mut i: usize = 0;
        while i < ids.len()
            invariant
                self.wf(),
                i <= ids@.len(),
                self.device_submit_check(device, ids@) == submit_check(
                    self.command_encoders,
                    device,
                    ids@,
                    i as int,
                ),
            decreases ids@.len() - i,
        {
            let id = ids[i];
            match self.command_encoders.get(id) {
                Err(e) => {
                    return Some(QueueSubmitError::InvalidResource(e));
                },
                Ok(encoder) => {
                    if encoder.device != device {
                        return Some(QueueSubmitError::Device(DeviceError::DeviceMismatch));
                    }
                    match encoder.status {
                        CommandEncoderStatus::Finished => {},
                        _ => {
                            return Some(QueueSubmitError::Unfinished(id));
                        },
                    }
                },
            }
            if seen_before(ids, i) {
                return Some(QueueSubmitError::Duplicate(id));
            }
            i += 1;
        }
        None
    }

    /// Submits finished command encoders to a queue.
    ///
    /// The submission is held to every rule first; what fails is returned
    /// and nothing changes. Otherwise the encoders are used up: their
    /// identifiers are retired, their native command buffers are handed
    /// out in the order of the submission, and the submission gets the
    /// index after the latest one.
    pub fn queue_submit(&mut self, queue: Id, command_buffer_ids: &[Id]) -> (r: Result<
        (u64, Vec<BasePass<NativeCommand>>),
        QueueSubmitError,
    >)
        requires
            old(self).wf(),
        ensures
            final(self).wf(),
            final(self).same_but_command_encoders_and_index(old(self)),
            match r {
                Err(e) => {
                    &&& old(self).queue_submit_check(queue, command_buffer_ids@) == Some(e)
                    &&& *final(self) == *old(self)
                },
                Ok((index, lists)) => {
                    &&& old(self).queue_submit_check(queue, command_buffer_ids@) is None
                    &&& old(self).submitted_to(final(self), command_buffer_ids@, index, lists@)
                },
            },
    {
        let device = match self.queues.get(queue) {
            Ok(q) => q.device,
            Err(e) => {
                return Err(QueueSubmitError::InvalidQueue(e));
            },
        };
        self.submit_on(device, command_buffer_ids)
    }

    /// Whether everything but the command encoders and the index of the
    /// latest submission is as in `other`.
    pub open spec fn same_but_command_encoders_and_index(&self, other: &Self) -> bool {
        &&& self.devices == other.devices
        &&& self.queues == other.queues
        &&& self.buffers == other.buffers
        &&& self.textures == other.textures
        &&& self.bind_group_layouts == other.bind_group_layouts
        &&& self.pipeline_layouts == other.pipeline_layouts
        &&& self.bind_groups == other.bind_groups
        &&& self.compute_pipelines == other.compute_pipelines
        &&& self.tracker_indices == other.tracker_indices
        &&& self.buffer_slots == other.buffer_slots
    }

    /// What a submission that passes every rule leaves behind: the
    /// submission has the index after the latest one, the native command
    /// buffers of the encoders are handed out in the order of the
    /// submission, and the encoders, and no others, are retired.
    pub open spec fn submitted_to(
        &self,
        post: &Global,
        ids: Seq<Id>,
        index: u64,
        lists: Seq<BasePass<NativeCommand>>,
    ) -> bool {
        &&& index == self.submission_index + 1
        &&& post.submission_index == index
        &&& lists_view(lists) == submitted(self.command_encoders, ids, ids.len())
        &&& forall|x: Id|
            #![trigger post.command_encoders.status(x)]
            if ids.contains(x) {
                post.command_encoders.status(x) is Retired
            } else {
                post.command_encoders.status(x) == self.command_encoders.status(x)
            }
    }

    fn submit_on(&mut self, device: Id, command_buffer_ids: &[Id]) -> (r: Result<
        (u64, Vec<BasePass<NativeCommand>>),
        QueueSubmitError,
    >)
        requires
            old(self).wf(),
        ensures
            final(self).wf(),
            final(self).same_but_command_encoders_and_index(old(self)),
            match r {
                Err(e) => {
                    &&& old(self).device_submit_check(device, command_buffer_ids@) == Some(e)
                    &&& *final(self) == *old(self)
                },
                Ok((index, lists)) => {
                    &&& old(self).device_submit_check(device, command_buffer_ids@) is None
                    &&& index == old(self).submission_index + 1
                    &&& final(self).submission_index == index
                    &&& lists_view(lists@) == submitted(
                        old(self).command_encoders,
                        command_buffer_ids@,
                        command_buffer_ids@.len(),
                    )
                    &&& forall|x: Id|
                        #![trigger final(self).command_encoders.status(x)]
                        if command_buffer_ids@.contains(x) {
                            final(self).command_encoders.status(x) is Retired
                        } else {
                            final(self).command_encoders.status(x) == old(
                                self,
                            ).command_encoders.status(x)
                        }
                },
            },
    {
        match self.check_submit(device, command_buffer_ids) {
            Some(e) => {
                return Err(e);
            },
            None => {},
        }
        let ghost ids = command_buffer_ids@;
        let mut lists: Vec<BasePass<NativeCommand>> = Vec::new();
        let mut i: usize = 0;
        while i < command_buffer_ids.len()
            invariant
                i <= ids.len(),
                ids == command_buffer_ids@,
                self.wf(),
                old(self).wf(),
                self.same_but_command_encoders(old(self)),
                submit_check(old(self).command_encoders, device, ids, i as int) is None,
                lists_view(lists@) == submitted(old(self).command_encoders, ids, i as nat),
                forall|x: Id|
                    #![trigger self.command_encoders.status(x)]
                    if ids.take(i as int).contains(x) {
                        self.command_encoders.status(x) is Retired
                    } else {
                        self.command_encoders.status(x) == old(self).command_encoders.status(x)
                    },
            decreases ids.len() - i,
        {
            let id = command_buffer_ids[i];
            let ghost before = *self;
            let ghost had = lists_view(lists@);
            assert(!ids.take(i as int).contains(id));
            assert(self.command_encoders.status(id) == old(self).command_encoders.status(id));
            let mut encoder = self.command_encoders.swap(id, CommandEncoder::new(device));
            let ghost taken = encoder@.list;
            lists.append(&mut encoder.list);
            assert(lists_view(lists@) =~= had + taken);
            self.command_encoders.remove(id);
            proof {
                assert forall|x: Id|
                    (#[trigger] self.command_encoders.status(x)) is Valid implies self.command_encoders.resource(
                x).wf() by {
                    assert(x != id);
                    assert(before.command_encoders.status(x) == self.command_encoders.status(x));
                }
                assert forall|x: Id| #![trigger self.command_encoders.status(x)]
                if ids.take(i + 1).contains(x) {
                    self.command_encoders.status(x) is Retired
                } else {
                    self.command_encoders.status(x) == old(self).command_encoders.status(x)
                } by {
                    assert(ids.take(i + 1) =~= ids.take(i as int).push(id));
                    if x == id {
                        assert(ids.take(i + 1)[i as int] == id);
                    } else {
                        assert(self.command_encoders.status(x) == before.command_encoders.status(x));
                        let longer = ids.take(i + 1);
                        let shorter = ids.take(i as int);
                        if longer.contains(x) {
                            let k = choose|k: int| 0 <= k < longer.len() && longer[k] == x;
                            assert(shorter[k] == x);
                        }
                        if shorter.contains(x) {
                            let k = choose|k: int| 0 <= k < shorter.len() && shorter[k] == x;
                            assert(longer[k] == x);
                        }
                    }
                }
            }
            i += 1;
        }
        assert(ids.take(ids.len() as int) =~= ids);
        self.submission_index = self.submission_index + 1;
        Ok((self.submission_index, lists))
    }
}

} // verus!
