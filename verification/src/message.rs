//! The messages that errors are reported with. Every message names the
//! operation that failed and says why it failed, so that an error can be
//! traced to where it came up.

use vstd::prelude::*;
use vstd::string::StringExecFns;
use crate::command::{
    BinderError, ComputePassError, ComputePassErrorInner, DeviceError, DispatchError,
    EncoderStateError, PassErrorScope,
};
use crate::compute::CommandEncoderError;
use crate::queue::QueueSubmitError;
use crate::server::BufferAccessError;
use crate::transfer::CommandError;

verus! {

/// The operations of a client, beside the commands of a pass, that report
/// errors of their own.
#[derive(Clone, Copy, Debug, PartialEq, Eq, Structural)]
pub enum Operation {
    CopyBufferToBuffer,
    PushDebugGroup,
    PopDebugGroup,
    InsertDebugMarker,
    FinishEncoder,
    BeginComputePass,
    MapBuffer,
    UnmapBuffer,
    Submit,
}

/// The name that an operation goes by in messages.
pub open spec fn operation_text(e: Operation) -> Seq<char> {
    match e {
        Operation::CopyBufferToBuffer => "In a copy between buffers"@,
        Operation::PushDebugGroup => "In the start of a debug group"@,
        Operation::PopDebugGroup => "In the end of a debug group"@,
        Operation::InsertDebugMarker => "In a debug marker"@,
        Operation::FinishEncoder => "In the finishing of a command encoder"@,
        Operation::BeginComputePass => "In the beginning of a compute pass"@,
        Operation::MapBuffer => "In the mapping of a buffer"@,
        Operation::UnmapBuffer => "In the unmapping of a buffer"@,
        Operation::Submit => "In a submission"@,
    }
}

/// Gives the name that an operation goes by in messages.
pub fn operation_name(e: Operation) -> (t: &'static str)
    ensures
        t@ == operation_text(e),
{
    match e {
        Operation::CopyBufferToBuffer => "In a copy between buffers",
        Operation::PushDebugGroup => "In the start of a debug group",
        Operation::PopDebugGroup => "In the end of a debug group",
        Operation::InsertDebugMarker => "In a debug marker",
        Operation::FinishEncoder => "In the finishing of a command encoder",
        Operation::BeginComputePass => "In the beginning of a compute pass",
        Operation::MapBuffer => "In the mapping of a buffer",
        Operation::UnmapBuffer => "In the unmapping of a buffer",
        Operation::Submit => "In a submission",
    }
}

/// The name that the scope of a pass error goes by in messages.
pub open spec fn scope_text(e: PassErrorScope) -> Seq<char> {
    match e {
        PassErrorScope::Pass => "In a compute pass"@,
        PassErrorScope::SetBindGroup => "In a set_bind_group command"@,
        PassErrorScope::SetPipelineCompute => "In a set_pipeline command"@,
        PassErrorScope::SetPushConstant => "In a set_push_constants command"@,
        PassErrorScope::Dispatch { indirect: false } => "In a dispatch command"@,
        PassErrorScope::Dispatch { indirect: true } => "In an indirect dispatch command"@,
        PassErrorScope::PushDebugGroup => "In a push_debug_group command"@,
        PassErrorScope::PopDebugGroup => "In a pop_debug_group command"@,
        PassErrorScope::InsertDebugMarker => "In an insert_debug_marker command"@,
    }
}

/// Gives the name that the scope of a pass error goes by in messages.
pub fn scope_name(e: PassErrorScope) -> (t: &'static str)
    ensures
        t@ == scope_text(e),
{
    match e {
        PassErrorScope::Pass => "In a compute pass",
        PassErrorScope::SetBindGroup => "In a set_bind_group command",
        PassErrorScope::SetPipelineCompute => "In a set_pipeline command",
        PassErrorScope::SetPushConstant => "In a set_push_constants command",
        PassErrorScope::Dispatch { indirect: false } => "In a dispatch command",
        PassErrorScope::Dispatch { indirect: true } => "In an indirect dispatch command",
        PassErrorScope::PushDebugGroup => "In a push_debug_group command",
        PassErrorScope::PopDebugGroup => "In a pop_debug_group command",
        PassErrorScope::InsertDebugMarker => "In an insert_debug_marker command",
    }
}

/// Why a device refuses.
pub open spec fn device_cause_text(e: DeviceError) -> Seq<char> {
    match e {
        DeviceError::Lost => "the device is lost"@,
        DeviceError::OutOfMemory => "the device is out of memory"@,
        DeviceError::DeviceMismatch => "a resource belongs to another device"@,
    }
}

/// Says why a device refuses.
pub fn device_cause(e: DeviceError) -> (t: &'static str)
    ensures
        t@ == device_cause_text(e),
{
    match e {
        DeviceError::Lost => "the device is lost",
        DeviceError::OutOfMemory => "the device is out of memory",
        DeviceError::DeviceMismatch => "a resource belongs to another device",
    }
}

/// Why a command encoder is not in the state that is needed.
pub open spec fn state_cause_text(e: EncoderStateError) -> Seq<char> {
    match e {
        EncoderStateError::Invalid => "the command encoder is invalid"@,
        EncoderStateError::Ended => "the command encoder is finished"@,
        EncoderStateError::Locked => "the command encoder is locked by a pass"@,
        EncoderStateError::Unlocked => "the command encoder is not locked by a pass"@,
    }
}

/// Says why a command encoder is not in the state that is needed.
pub fn state_cause(e: EncoderStateError) -> (t: &'static str)
    ensures
        t@ == state_cause_text(e),
{
    match e {
        EncoderStateError::Invalid => "the command encoder is invalid",
        EncoderStateError::Ended => "the command encoder is finished",
        EncoderStateError::Locked => "the command encoder is locked by a pass",
        EncoderStateError::Unlocked => "the command encoder is not locked by a pass",
    }
}

/// Why the bind groups do not fit the pipeline.
pub open spec fn binder_cause_text(e: BinderError) -> Seq<char> {
    match e {
        BinderError::MissingBindGroup { .. } => "a bind group that the pipeline expects is not bound"@,
        BinderError::IncompatibleBindGroup { .. } => "a bind group has another layout than the pipeline expects"@,
    }
}

/// Says why the bind groups do not fit the pipeline.
pub fn binder_cause(e: BinderError) -> (t: &'static str)
    ensures
        t@ == binder_cause_text(e),
{
    match e {
        BinderError::MissingBindGroup { .. } => "a bind group that the pipeline expects is not bound",
        BinderError::IncompatibleBindGroup { .. } => "a bind group has another layout than the pipeline expects",
    }
}

/// Why a dispatch cannot run.
pub open spec fn dispatch_cause_text(e: DispatchError) -> Seq<char> {
    match e {
        DispatchError::MissingPipeline => "no pipeline is set"@,
        DispatchError::IncompatibleBindGroup(b) => binder_cause_text(b),
        DispatchError::InvalidGroupSize { .. } => "a workgroup count exceeds the limit of the device"@,
    }
}

/// Says why a dispatch cannot run.
pub fn dispatch_cause(e: DispatchError) -> (t: &'static str)
    ensures
        t@ == dispatch_cause_text(e),
{
    match e {
        DispatchError::MissingPipeline => "no pipeline is set",
        DispatchError::IncompatibleBindGroup(b) => binder_cause(b),
        DispatchError::InvalidGroupSize { .. } => "a workgroup count exceeds the limit of the device",
    }
}

/// Why a command could not be recorded on an encoder.
pub open spec fn command_cause_text(e: CommandError) -> Seq<char> {
    match e {
        CommandError::InvalidEncoder(_) => "the command encoder does not exist"@,
        CommandError::EncoderState(s) => state_cause_text(s),
        CommandError::Device(d) => device_cause_text(d),
        CommandError::InvalidResource(_) => "a buffer does not exist"@,
        CommandError::DestroyedResource(_) => "a buffer has been destroyed"@,
        CommandError::SameSourceDestinationBuffer => "source and destination are the same buffer"@,
        CommandError::MissingBufferUsage(_) => "a buffer lacks the usage that is needed"@,
        CommandError::UnalignedCopySize(_) => "the size of the copy is no multiple of four"@,
        CommandError::UnalignedBufferOffset(_) => "an offset of the copy is no multiple of four"@,
        CommandError::BufferOverrun { .. } => "the copy reaches beyond a buffer"@,
        CommandError::TooManyDebugGroups => "too many debug groups are open"@,
        CommandError::InvalidPopDebugGroup => "no debug group is open"@,
    }
}

/// Says why a command could not be recorded on an encoder.
pub fn command_cause(e: CommandError) -> (t: &'static str)
    ensures
        t@ == command_cause_text(e),
{
    match e {
        CommandError::InvalidEncoder(_) => "the command encoder does not exist",
        CommandError::EncoderState(s) => state_cause(s),
        CommandError::Device(d) => device_cause(d),
        CommandError::InvalidResource(_) => "a buffer does not exist",
        CommandError::DestroyedResource(_) => "a buffer has been destroyed",
        CommandError::SameSourceDestinationBuffer => "source and destination are the same buffer",
        CommandError::MissingBufferUsage(_) => "a buffer lacks the usage that is needed",
        CommandError::UnalignedCopySize(_) => "the size of the copy is no multiple of four",
        CommandError::UnalignedBufferOffset(_) => "an offset of the copy is no multiple of four",
        CommandError::BufferOverrun { .. } => "the copy reaches beyond a buffer",
        CommandError::TooManyDebugGroups => "too many debug groups are open",
        CommandError::InvalidPopDebugGroup => "no debug group is open",
    }
}

/// Why a compute pass failed.
pub open spec fn pass_cause_text(e: ComputePassErrorInner) -> Seq<char> {
    match e {
        ComputePassErrorInner::Device(d) => device_cause_text(d),
        ComputePassErrorInner::EncoderState(s) => state_cause_text(s),
        ComputePassErrorInner::InvalidParentEncoder => "the pass has no command encoder"@,
        ComputePassErrorInner::BindGroupIndexOutOfRange { .. } => "the slot of a bind group is out of range"@,
        ComputePassErrorInner::DestroyedResource(_) => "a buffer has been destroyed"@,
        ComputePassErrorInner::UnalignedIndirectBufferOffset(_) => "the offset of the indirect arguments is no multiple of four"@,
        ComputePassErrorInner::IndirectBufferOverrun { .. } => "the indirect arguments reach beyond their buffer"@,
        ComputePassErrorInner::ResourceUsageCompatibility(_) => "a buffer is used in ways that do not go together"@,
        ComputePassErrorInner::MissingBufferUsage(_) => "a buffer lacks the usage that is needed"@,
        ComputePassErrorInner::InvalidPopDebugGroup => "no debug group is open"@,
        ComputePassErrorInner::Dispatch(d) => dispatch_cause_text(d),
        ComputePassErrorInner::Bind(_) => "the number of dynamic offsets is not what the bind group takes"@,
        ComputePassErrorInner::PushConstants(_) => "the push constants reach beyond what the pipeline layout has"@,
        ComputePassErrorInner::PushConstantOffsetAlignment => "the offset of the push constants is no multiple of four"@,
        ComputePassErrorInner::PushConstantSizeAlignment => "the size of the push constants is no multiple of four"@,
        ComputePassErrorInner::PushConstantOutOfMemory => "the table of push constants is full"@,
        ComputePassErrorInner::MissingDownlevelFlags => "the device cannot dispatch indirectly"@,
        ComputePassErrorInner::MalformedTranscript => "the transcript refers to table entries that it does not have"@,
        ComputePassErrorInner::PassEnded => "the pass was ended"@,
        ComputePassErrorInner::InvalidResource(_) => "a resource does not exist"@,
    }
}

/// Says why a compute pass failed.
pub fn pass_cause(e: ComputePassErrorInner) -> (t: &'static str)
    ensures
        t@ == pass_cause_text(e),
{
    match e {
        ComputePassErrorInner::Device(d) => device_cause(d),
        ComputePassErrorInner::EncoderState(s) => state_cause(s),
        ComputePassErrorInner::InvalidParentEncoder => "the pass has no command encoder",
        ComputePassErrorInner::BindGroupIndexOutOfRange { .. } => "the slot of a bind group is out of range",
        ComputePassErrorInner::DestroyedResource(_) => "a buffer has been destroyed",
        ComputePassErrorInner::UnalignedIndirectBufferOffset(_) => "the offset of the indirect arguments is no multiple of four",
        ComputePassErrorInner::IndirectBufferOverrun { .. } => "the indirect arguments reach beyond their buffer",
        ComputePassErrorInner::ResourceUsageCompatibility(_) => "a buffer is used in ways that do not go together",
        ComputePassErrorInner::MissingBufferUsage(_) => "a buffer lacks the usage that is needed",
        ComputePassErrorInner::InvalidPopDebugGroup => "no debug group is open",
        ComputePassErrorInner::Dispatch(d) => dispatch_cause(d),
        ComputePassErrorInner::Bind(_) => "the number of dynamic offsets is not what the bind group takes",
        ComputePassErrorInner::PushConstants(_) => "the push constants reach beyond what the pipeline layout has",
        ComputePassErrorInner::PushConstantOffsetAlignment => "the offset of the push constants is no multiple of four",
        ComputePassErrorInner::PushConstantSizeAlignment => "the size of the push constants is no multiple of four",
        ComputePassErrorInner::PushConstantOutOfMemory => "the table of push constants is full",
        ComputePassErrorInner::MissingDownlevelFlags => "the device cannot dispatch indirectly",
        ComputePassErrorInner::MalformedTranscript => "the transcript refers to table entries that it does not have",
        ComputePassErrorInner::PassEnded => "the pass was ended",
        ComputePassErrorInner::InvalidResource(_) => "a resource does not exist",
    }
}

/// Why a pass could not be begun on an encoder.
pub open spec fn encoder_cause_text(e: CommandEncoderError) -> Seq<char> {
    match e {
        CommandEncoderError::InvalidResource(_) => "the command encoder does not exist"@,
        CommandEncoderError::EncoderState(s) => state_cause_text(s),
    }
}

/// Says why a pass could not be begun on an encoder.
pub fn encoder_cause(e: CommandEncoderError) -> (t: &'static str)
    ensures
        t@ == encoder_cause_text(e),
{
    match e {
        CommandEncoderError::InvalidResource(_) => "the command encoder does not exist",
        CommandEncoderError::EncoderState(s) => state_cause(s),
    }
}

/// Why the memory of a buffer could not be reached.
pub open spec fn access_cause_text(e: BufferAccessError) -> Seq<char> {
    match e {
        BufferAccessError::Device(d) => device_cause_text(d),
        BufferAccessError::Failed => "the access failed"@,
        BufferAccessError::InvalidResource(_) => "the buffer does not exist"@,
        BufferAccessError::DestroyedResource(_) => "the buffer has been destroyed"@,
        BufferAccessError::AlreadyMapped => "the buffer is mapped already"@,
        BufferAccessError::MapAlreadyPending => "a mapping of the buffer is pending already"@,
        BufferAccessError::MissingBufferUsage => "the buffer lacks the usage that the mapping needs"@,
        BufferAccessError::NotMapped => "the buffer is not mapped"@,
        BufferAccessError::UnalignedRange => "the range is not aligned"@,
        BufferAccessError::UnalignedOffset { .. } => "the offset is no multiple of eight"@,
        BufferAccessError::UnalignedRangeSize { .. } => "the size is no multiple of four"@,
        BufferAccessError::OutOfBoundsUnderrun { .. } => "the range begins before the mapped range"@,
        BufferAccessError::OutOfBoundsOverrun { .. } => "the range reaches beyond the buffer"@,
        BufferAccessError::NegativeRange { .. } => "the range ends before it begins"@,
        BufferAccessError::MapAborted => "the mapping was aborted"@,
        BufferAccessError::InvalidBufferId => "the identifier of the buffer is invalid"@,
    }
}

/// Says why the memory of a buffer could not be reached.
pub fn access_cause(e: BufferAccessError) -> (t: &'static str)
    ensures
        t@ == access_cause_text(e),
{
    match e {
        BufferAccessError::Device(d) => device_cause(d),
        BufferAccessError::Failed => "the access failed",
        BufferAccessError::InvalidResource(_) => "the buffer does not exist",
        BufferAccessError::DestroyedResource(_) => "the buffer has been destroyed",
        BufferAccessError::AlreadyMapped => "the buffer is mapped already",
        BufferAccessError::MapAlreadyPending => "a mapping of the buffer is pending already",
        BufferAccessError::MissingBufferUsage => "the buffer lacks the usage that the mapping needs",
        BufferAccessError::NotMapped => "the buffer is not mapped",
        BufferAccessError::UnalignedRange => "the range is not aligned",
        BufferAccessError::UnalignedOffset { .. } => "the offset is no multiple of eight",
        BufferAccessError::UnalignedRangeSize { .. } => "the size is no multiple of four",
        BufferAccessError::OutOfBoundsUnderrun { .. } => "the range begins before the mapped range",
        BufferAccessError::OutOfBoundsOverrun { .. } => "the range reaches beyond the buffer",
        BufferAccessError::NegativeRange { .. } => "the range ends before it begins",
        BufferAccessError::MapAborted => "the mapping was aborted",
        BufferAccessError::InvalidBufferId => "the identifier of the buffer is invalid",
    }
}

/// Why command buffers could not be submitted.
pub open spec fn submit_cause_text(e: QueueSubmitError) -> Seq<char> {
    match e {
        QueueSubmitError::InvalidQueue(_) => "the queue does not exist"@,
        QueueSubmitError::InvalidDevice(_) => "the device of the queue does not exist"@,
        QueueSubmitError::Device(d) => device_cause_text(d),
        QueueSubmitError::InvalidResource(_) => "a command encoder does not exist"@,
        QueueSubmitError::Unfinished(_) => "a command encoder is not finished"@,
        QueueSubmitError::Duplicate(_) => "a command encoder is listed twice"@,
        QueueSubmitError::Exhausted => "no submission index is left"@,
    }
}

/// Says why command buffers could not be submitted.
pub fn submit_cause(e: QueueSubmitError) -> (t: &'static str)
    ensures
        t@ == submit_cause_text(e),
{
    match e {
        QueueSubmitError::InvalidQueue(_) => "the queue does not exist",
        QueueSubmitError::InvalidDevice(_) => "the device of the queue does not exist",
        QueueSubmitError::Device(d) => device_cause(d),
        QueueSubmitError::InvalidResource(_) => "a command encoder does not exist",
        QueueSubmitError::Unfinished(_) => "a command encoder is not finished",
        QueueSubmitError::Duplicate(_) => "a command encoder is listed twice",
        QueueSubmitError::Exhausted => "no submission index is left",
    }
}

/// The message of an error: where it came up, and why.
pub open spec fn scoped(scope: Seq<char>, cause: Seq<char>) -> Seq<char> {
    scope + ": "@ + cause
}

/// Writes the message of an error from where it came up and why.
pub fn scoped_message(scope: &str, cause: &str) -> (m: String)
    ensures
        m@ == scoped(scope@, cause@),
{
    String::from_str(scope).concat(": ").concat(cause)
}

/// The message that an error of a command on an encoder is reported with.
pub open spec fn command_error_text(op: Operation, e: CommandError) -> Seq<char> {
    scoped(operation_text(op), command_cause_text(e))
}

/// Writes the message of an error of a command on an encoder.
pub fn command_error_message(op: Operation, e: CommandError) -> (m: String)
    ensures
        m@ == command_error_text(op, e),
{
    scoped_message(operation_name(op), command_cause(e))
}

/// The message that an error of a compute pass is reported with: the
/// scope that the error carries, and its cause.
pub open spec fn pass_error_text(e: ComputePassError) -> Seq<char> {
    scoped(scope_text(e.scope), pass_cause_text(e.inner))
}

/// Writes the message of an error of a compute pass.
pub fn pass_error_message(e: ComputePassError) -> (m: String)
    ensures
        m@ == pass_error_text(e),
{
    scoped_message(scope_name(e.scope), pass_cause(e.inner))
}

/// The message that a pass that could not be begun is reported with.
pub open spec fn encoder_error_text(e: CommandEncoderError) -> Seq<char> {
    scoped(operation_text(Operation::BeginComputePass), encoder_cause_text(e))
}

/// Writes the message of a pass that could not be begun.
pub fn encoder_error_message(e: CommandEncoderError) -> (m: String)
    ensures
        m@ == encoder_error_text(e),
{
    scoped_message(operation_name(Operation::BeginComputePass), encoder_cause(e))
}

/// The message that an error of mapping or unmapping is reported with.
pub open spec fn access_error_text(op: Operation, e: BufferAccessError) -> Seq<char> {
    scoped(operation_text(op), access_cause_text(e))
}

/// Writes the message of an error of mapping or unmapping.
pub fn access_error_message(op: Operation, e: BufferAccessError) -> (m: String)
    ensures
        m@ == access_error_text(op, e),
{
    scoped_message(operation_name(op), access_cause(e))
}

/// The message that an error of a submission is reported with.
pub open spec fn submit_error_text(e: QueueSubmitError) -> Seq<char> {
    scoped(operation_text(Operation::Submit), submit_cause_text(e))
}

/// Writes the message of an error of a submission.
pub fn submit_error_message(e: QueueSubmitError) -> (m: String)
    ensures
        m@ == submit_error_text(e),
{
    scoped_message(operation_name(Operation::Submit), submit_cause(e))
}

} // verus!
