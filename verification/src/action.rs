//! The actions that a client sends: creation of resources on a device, and
//! commands for a command encoder. Each action is carried out, and what
//! fails is reported to the client's error buffer.

use vstd::prelude::*;
use vstd::utf8::encode_utf8;
use crate::command::{
    ArcComputeCommand, BasePass, ComputeCommand, ComputePassError, ComputePassErrorInner,
    ComputePassView, DeviceError, LastBinding, PassErrorScope, TranscriptView,
};
use crate::compute::CommandEncoderError;
use crate::device::{BindGroupDescriptor, CreateError, PipelineLayoutDescriptor};
use crate::encoder::{recording_check, CommandEncoderStatus, EncoderView};
use crate::error::{ErrMsg, ErrorBuffer, ErrorBufferType};
use crate::global::Global;
use crate::id::Id;
use crate::message::{
    command_error_message, command_error_text, encoder_error_message, encoder_error_text,
    pass_error_message, pass_error_text, Operation,
};
use crate::pass::encoder_after_pass;
use crate::registry::{InvalidResourceError, Registry, Status};
use crate::replay::{initial_state, replay};
use crate::resource::{
    BindGroupInfo, BindGroupLayout, ComputePipeline, Texture, TextureDescriptor, TextureFormat,
    FEATURE_BGRA8UNORM_STORAGE, TEXTURE_USAGE_STORAGE_BINDING,
};
use crate::server::MAX_TEXTURE_EXTENT;
use crate::track::UsedBuffer;
use crate::transfer::{after_copy, CommandError};
use crate::wire::{actions_view, ActionView};
use crate::wire_pass::EncoderActionView;

verus! {

/// The kind that an error of creation is reported as.
pub open spec fn create_error_kind(e: CreateError) -> ErrorBufferType {
    match e {
        CreateError::Identity => ErrorBufferType::Internal,
        CreateError::Device(DeviceError::OutOfMemory) => ErrorBufferType::OutOfMemory,
        CreateError::Device(DeviceError::Lost) => ErrorBufferType::DeviceLost,
        _ => ErrorBufferType::Validation,
    }
}

/// Works out the kind that an error of creation is reported as.
pub fn kind_of_create_error(e: &CreateError) -> (k: ErrorBufferType)
    ensures
        k == create_error_kind(*e),
{
    match e {
        CreateError::Identity => ErrorBufferType::Internal,
        CreateError::Device(DeviceError::OutOfMemory) => ErrorBufferType::OutOfMemory,
        CreateError::Device(DeviceError::Lost) => ErrorBufferType::DeviceLost,
        _ => ErrorBufferType::Validation,
    }
}

/// The message that an error of creation is reported with.
pub open spec fn create_error_text(e: CreateError) -> Seq<char> {
    match e {
        CreateError::Identity => "The identifier is in use"@,
        CreateError::InvalidDevice(_) => "Device is invalid"@,
        CreateError::Device(DeviceError::OutOfMemory) => "Out of memory"@,
        CreateError::Device(DeviceError::Lost) => "Device is lost"@,
        CreateError::Device(DeviceError::DeviceMismatch) => "Device mismatch"@,
        CreateError::InvalidResource(_) => "Resource is invalid"@,
        CreateError::DestroyedResource(_) => "Resource has been destroyed"@,
        CreateError::MissingBufferUsage(_) => "Buffer usage flags do not contain the required usage"@,
        CreateError::TooManyGroups { .. } => "Too many bind group layouts"@,
        CreateError::PushConstantRangeTooLarge { .. } => "Push constant range exceeds the limit"@,
        CreateError::MisalignedPushConstantRange { .. } => "Push constant range is not aligned to 4 bytes"@,
        CreateError::ZeroSize => "size is zero"@,
        CreateError::InvalidDimension { .. } => "Texture dimension exceeds the limit"@,
    }
}

/// Writes the message that an error of creation is reported with.
pub fn create_error_message(e: &CreateError) -> (m: String)
    ensures
        m@ == create_error_text(*e),
{
    match e {
        CreateError::Identity => "The identifier is in use".to_owned(),
        CreateError::InvalidDevice(_) => "Device is invalid".to_owned(),
        CreateError::Device(DeviceError::OutOfMemory) => "Out of memory".to_owned(),
        CreateError::Device(DeviceError::Lost) => "Device is lost".to_owned(),
        CreateError::Device(DeviceError::DeviceMismatch) => "Device mismatch".to_owned(),
        CreateError::InvalidResource(_) => "Resource is invalid".to_owned(),
        CreateError::DestroyedResource(_) => "Resource has been destroyed".to_owned(),
        CreateError::MissingBufferUsage(_) => "Buffer usage flags do not contain the required usage".to_owned(),
        CreateError::TooManyGroups { .. } => "Too many bind group layouts".to_owned(),
        CreateError::PushConstantRangeTooLarge { .. } => "Push constant range exceeds the limit".to_owned(),
        CreateError::MisalignedPushConstantRange { .. } => "Push constant range is not aligned to 4 bytes".to_owned(),
        CreateError::ZeroSize => "size is zero".to_owned(),
        CreateError::InvalidDimension { .. } => "Texture dimension exceeds the limit".to_owned(),
    }
}

/// The kind that an error of a command is reported as.
pub open spec fn command_error_kind(e: CommandError) -> ErrorBufferType {
    match e {
        CommandError::Device(DeviceError::OutOfMemory) => ErrorBufferType::OutOfMemory,
        CommandError::Device(DeviceError::Lost) => ErrorBufferType::DeviceLost,
        _ => ErrorBufferType::Validation,
    }
}

/// Whether an error buffer holds what is reported of a command on an
/// encoder: nothing where it was recorded, and else the kind of its error
/// with the message that names the command and the cause.
pub open spec fn reports_command(
    op: Operation,
    error: Option<CommandError>,
    reported: Option<ErrMsg>,
) -> bool {
    match error {
        None => reported is None,
        Some(e) => {
            &&& reported is Some
            &&& reported->0.kind == command_error_kind(e)
            &&& reported->0.message@ == command_error_text(op, e)
        },
    }
}

/// The kind that an error of a pass is reported as.
pub open spec fn pass_error_kind(e: ComputePassError) -> ErrorBufferType {
    match e.inner {
        ComputePassErrorInner::Device(DeviceError::OutOfMemory) => ErrorBufferType::OutOfMemory,
        ComputePassErrorInner::Device(DeviceError::Lost) => ErrorBufferType::DeviceLost,
        ComputePassErrorInner::MalformedTranscript => ErrorBufferType::Internal,
        _ => ErrorBufferType::Validation,
    }
}

/// Whether an error buffer holds what is reported of a creation: nothing
/// where it succeeded, and else the kind and the message of its error.
pub open spec fn reports(error: Option<CreateError>, reported: Option<ErrMsg>) -> bool {
    match error {
        None => reported is None,
        Some(e) => {
            &&& reported is Some
            &&& reported->0.kind == create_error_kind(e)
            &&& reported->0.message@ == create_error_text(e)
        },
    }
}

/// The error of a creation at an identifier that the client names: the
/// identifier must be free to be had; if it is, the check of the creation
/// decides.
pub open spec fn creation_error(accepted: bool, check: Option<CreateError>) -> Option<
    CreateError,
> {
    if accepted {
        check
    } else {
        Some(CreateError::Identity)
    }
}

/// What a creation at an identifier that the client names leaves in a
/// table. A table that cannot take the identifier stays as it is. In any
/// other table only the identifier changes: it holds a placeholder where
/// the creation failed, and a resource where it did not.
pub open spec fn placed<T>(pre: &Registry<T>, post: &Registry<T>, id: Id, failed: bool) -> bool {
    if pre.accepts(id) {
        &&& post.evolves_but(pre, id)
        &&& failed ==> post.status(id) is Invalid
        &&& !failed ==> post.is_valid(id)
    } else {
        post == pre
    }
}

/// What a client asks of a device.
pub enum DeviceAction {
    /// Creates a texture, for the swap chain named if one is named.
    CreateTexture(Id, TextureDescriptor, Option<u64>),
    /// Creates a bind group layout whose groups take so many dynamic
    /// offsets.
    CreateBindGroupLayout(Id, u32),
    CreatePipelineLayout(Id, PipelineLayoutDescriptor),
    CreateBindGroup(Id, BindGroupDescriptor),
    /// Creates a compute pipeline with the pipeline layout named.
    CreateComputePipeline(Id, Id),
    CreateCommandEncoder(Id),
    /// Reports an error that the client has found itself.
    Error { message: String, kind: ErrorBufferType },
}

/// What is left to do for the host after an action.
#[derive(Clone, Copy, Debug, PartialEq, Eq, Structural)]
pub enum ActionOutcome {
    /// Nothing.
    Done,
    /// A texture was turned down; its placeholder is registered.
    TextureRejected,
    /// The texture is to be backed by memory shared with the swap chain:
    /// the host creates it natively and reports back with
    /// `finish_external_texture`. Nothing is registered yet.
    CreateExternalTexture,
    /// The texture was created, or its creation failed, in the ordinary
    /// way; for a swap chain, the host sees to it that the texture can be
    /// read back.
    TextureCreated { ensure_readback: bool },
}

/// What the runtime decides of a texture before it is created.
#[derive(Clone, Copy, Debug, PartialEq, Eq, Structural)]
pub enum TextureVerdict {
    OutOfMemory,
    ZeroSize,
    ExceedsExternalLimit,
    BgraStorageDisabled,
    External,
    Internal,
}

/// The message that a texture is turned down with.
pub open spec fn rejection_text(verdict: TextureVerdict) -> Seq<char> {
    match verdict {
        TextureVerdict::OutOfMemory => "Out of memory"@,
        TextureVerdict::ZeroSize => "size is zero"@,
        TextureVerdict::ExceedsExternalLimit => "size exceeds limits.max_texture_dimension_2d"@,
        TextureVerdict::BgraStorageDisabled => "Bgra8Unorm with GPUStorageBinding usage with BGRA8UNORM_STORAGE disabled"@,
        _ => Seq::empty(),
    }
}

/// The swap chain that the host is asked about before a texture is
/// created: the one that the texture is for, if it is for one, and only
/// once the extent has passed the cap and is not zero.
pub open spec fn host_is_asked(desc: TextureDescriptor, swap_chain: Option<u64>) -> Option<u64> {
    if desc.width > MAX_TEXTURE_EXTENT || desc.height > MAX_TEXTURE_EXTENT
        || desc.depth_or_array_layers > MAX_TEXTURE_EXTENT {
        None
    } else if desc.width == 0 || desc.height == 0 || desc.depth_or_array_layers == 0 {
        None
    } else {
        swap_chain
    }
}

/// Says which swap chain the host is to be asked about, if any, before a
/// texture is created: whether textures of that swap chain share memory
/// with it.
pub fn swap_chain_to_ask(desc: &TextureDescriptor, swap_chain: Option<u64>) -> (r: Option<u64>)
    ensures
        r == host_is_asked(*desc, swap_chain),
{
    if desc.width > MAX_TEXTURE_EXTENT || desc.height > MAX_TEXTURE_EXTENT
        || desc.depth_or_array_layers > MAX_TEXTURE_EXTENT {
        return None;
    }
    if desc.width == 0 || desc.height == 0 || desc.depth_or_array_layers == 0 {
        return None;
    }
    swap_chain
}

impl Global {
    /// Where the host is not asked, its answer decides nothing: the
    /// texture is turned down for its extent, or is for no swap chain.
    pub proof fn law_unasked_host_decides_nothing(
        &self,
        device_id: Id,
        desc: TextureDescriptor,
        swap_chain: Option<u64>,
        answer: bool,
        other: bool,
    )
        requires
            host_is_asked(desc, swap_chain) is None,
        ensures
            self.texture_verdict(device_id, desc, swap_chain, answer) == self.texture_verdict(
                device_id,
                desc,
                swap_chain,
                other,
            ),
    {
    }

    /// What the runtime decides of a texture before it is created, in the
    /// order the rules are tried: an extent beyond the cap is out of
    /// memory; an extent of zero is invalid; a texture for a swap chain
    /// that shares memory must fit the 2D limit of the device, and cannot
    /// be a `Bgra8Unorm` storage texture unless the device has the feature
    /// for it.
    pub open spec fn texture_verdict(
        &self,
        device_id: Id,
        desc: TextureDescriptor,
        swap_chain: Option<u64>,
        use_external_texture: bool,
    ) -> TextureVerdict {
        if desc.width > MAX_TEXTURE_EXTENT || desc.height > MAX_TEXTURE_EXTENT
            || desc.depth_or_array_layers > MAX_TEXTURE_EXTENT {
            TextureVerdict::OutOfMemory
        } else if desc.width == 0 || desc.height == 0 || desc.depth_or_array_layers == 0 {
            TextureVerdict::ZeroSize
        } else if swap_chain is Some && use_external_texture && self.devices.is_valid(device_id) {
            let device = self.devices.resource(device_id);
            if desc.width > device.limits.max_texture_dimension_2d || desc.height
                > device.limits.max_texture_dimension_2d {
                TextureVerdict::ExceedsExternalLimit
            } else if desc.format == TextureFormat::Bgra8Unorm && desc.usage
                & TEXTURE_USAGE_STORAGE_BINDING != 0 && device.features & FEATURE_BGRA8UNORM_STORAGE
                == 0 {
                TextureVerdict::BgraStorageDisabled
            } else {
                TextureVerdict::External
            }
        } else {
            TextureVerdict::Internal
        }
    }

    /// What the creation of a texture for a client leaves behind, given
    /// the tables before and after, the outcome and the error reported. A
    /// texture that is turned down leaves a placeholder at its identifier,
    /// if the identifier can be had, and its error. A texture that is to
    /// share memory leaves nothing yet. Any other texture is registered, or
    /// a placeholder with the error of its creation.
    pub open spec fn texture_acted(
        &self,
        post: &Global,
        self_id: Id,
        id: Id,
        desc: TextureDescriptor,
        swap_chain: Option<u64>,
        use_external_texture: bool,
        r: ActionOutcome,
        reported: Option<ErrMsg>,
    ) -> bool {
        let verdict = self.texture_verdict(self_id, desc, swap_chain, use_external_texture);
        let accepted = self.textures.accepts(id);
        match verdict {
            TextureVerdict::External => {
                &&& r == ActionOutcome::CreateExternalTexture
                &&& post.textures == self.textures
                &&& reported is None
            },
            TextureVerdict::Internal => {
                &&& r == (ActionOutcome::TextureCreated {
                    ensure_readback: swap_chain is Some,
                })
                &&& !accepted ==> post.textures == self.textures && reports(
                    Some(CreateError::Identity),
                    reported,
                )
                &&& accepted ==> {
                    &&& post.textures.evolves_but(&self.textures, id)
                    &&& match self.texture_check(self_id, desc) {
                        None => reported is None && post.textures.status(id) == Status::Valid(
                            Texture { id, device: self_id, desc, external: false },
                        ),
                        Some(e) => reports(Some(e), reported) && post.textures.status(id) is Invalid,
                    }
                }
            },
            _ => {
                &&& r == ActionOutcome::TextureRejected
                &&& reported is Some
                &&& reported->0.kind == if verdict == TextureVerdict::OutOfMemory {
                    ErrorBufferType::OutOfMemory
                } else {
                    ErrorBufferType::Validation
                }
                &&& reported->0.message@ == rejection_text(verdict)
                &&& accepted ==> post.textures.status(id) is Invalid
                    && post.textures.evolves_but(&self.textures, id)
                &&& !accepted ==> post.textures == self.textures
            },
        }
    }

    fn decide_texture(
        &self,
        device_id: Id,
        desc: &TextureDescriptor,
        swap_chain: Option<u64>,
        use_external_texture: bool,
    ) -> (v: TextureVerdict)
        requires
            self.wf(),
        ensures
            v == self.texture_verdict(device_id, *desc, swap_chain, use_external_texture),
    {
        if desc.width > MAX_TEXTURE_EXTENT || desc.height > MAX_TEXTURE_EXTENT
            || desc.depth_or_array_layers > MAX_TEXTURE_EXTENT {
            return TextureVerdict::OutOfMemory;
        }
        if desc.width == 0 || desc.height == 0 || desc.depth_or_array_layers == 0 {
            return TextureVerdict::ZeroSize;
        }
        if swap_chain.is_some() && use_external_texture {
            match self.devices.get(device_id) {
                Ok(device) => {
                    if desc.width > device.limits.max_texture_dimension_2d || desc.height
                        > device.limits.max_texture_dimension_2d {
                        return TextureVerdict::ExceedsExternalLimit;
                    }
                    if desc.format == TextureFormat::Bgra8Unorm && desc.usage
                        & TEXTURE_USAGE_STORAGE_BINDING != 0 && device.features
                        & FEATURE_BGRA8UNORM_STORAGE == 0 {
                        return TextureVerdict::BgraStorageDisabled;
                    }
                    return TextureVerdict::External;
                },
                Err(_) => {},
            }
        }
        TextureVerdict::Internal
    }

    /// Carries out the creation of a texture for a client.
    ///
    /// `use_external_texture` is the host's answer to whether textures of
    /// the swap chain share memory with it. A texture that is turned down
    /// leaves a placeholder at its identifier and its error in the buffer.
    /// A texture that is to share memory is left to the host. Any other
    /// texture is created in the ordinary way.
    pub fn create_texture_action(
        &mut self,
        self_id: Id,
        id: Id,
        desc: &TextureDescriptor,
        swap_chain: Option<u64>,
        use_external_texture: bool,
        error_buf: &mut ErrorBuffer,
    ) -> (r: ActionOutcome)
        requires
            old(self).wf(),
            old(error_buf).error is None,
        ensures
            final(self).wf(),
            final(self).same_but_textures(old(self)),
            old(self).texture_acted(
                final(self),
                self_id,
                id,
                *desc,
                swap_chain,
                use_external_texture,
                r,
                final(error_buf).error,
            ),
    {
        match self.decide_texture(self_id, desc, swap_chain, use_external_texture) {
            TextureVerdict::OutOfMemory => {
                let _ = self.create_texture_error(Some(id));
                error_buf.init(
                    ErrMsg {
                        message: "Out of memory".to_owned(),
                        kind: ErrorBufferType::OutOfMemory,
                    },
                );
                ActionOutcome::TextureRejected
            },
            TextureVerdict::ZeroSize => {
                let _ = self.create_texture_error(Some(id));
                error_buf.init(
                    ErrMsg { message: "size is zero".to_owned(), kind: ErrorBufferType::Validation },
                );
                ActionOutcome::TextureRejected
            },
            TextureVerdict::ExceedsExternalLimit => {
                let _ = self.create_texture_error(Some(id));
                error_buf.init(
                    ErrMsg {
                        message: "size exceeds limits.max_texture_dimension_2d".to_owned(),
                        kind: ErrorBufferType::Validation,
                    },
                );
                ActionOutcome::TextureRejected
            },
            TextureVerdict::BgraStorageDisabled => {
                let _ = self.create_texture_error(Some(id));
                error_buf.init(
                    ErrMsg {
                        message: "Bgra8Unorm with GPUStorageBinding usage with BGRA8UNORM_STORAGE disabled".to_owned(),
                        kind: ErrorBufferType::Validation,
                    },
                );
                ActionOutcome::TextureRejected
            },
            TextureVerdict::External => ActionOutcome::CreateExternalTexture,
            TextureVerdict::Internal => {
                let (_, error) = self.device_create_texture(self_id, desc, false, Some(id));
                match error {
                    Some(e) => {
                        error_buf.init(
                            ErrMsg {
                                message: create_error_message(&e),
                                kind: kind_of_create_error(&e),
                            },
                        );
                    },
                    None => {},
                }
                ActionOutcome::TextureCreated { ensure_readback: swap_chain.is_some() }
            },
        }
    }

    /// Takes up the creation of a texture that was left to the host. If the
    /// host has created the texture natively, it is registered as a texture
    /// that shares memory. If not, the texture is created in the ordinary
    /// way, and the host is told to stop sharing memory with the swap chain
    /// and to see to it that the texture can be read back.
    pub fn finish_external_texture(
        &mut self,
        self_id: Id,
        id: Id,
        desc: &TextureDescriptor,
        created: bool,
        error_buf: &mut ErrorBuffer,
    ) -> (disable_external: bool)
        requires
            old(self).wf(),
            old(error_buf).error is None,
        ensures
            final(self).wf(),
            final(self).same_but_textures(old(self)),
            disable_external == !created,
            !old(self).textures.accepts(id) ==> final(self).textures == old(self).textures
                && reports(Some(CreateError::Identity), final(error_buf).error),
            old(self).textures.accepts(id) ==> {
                &&& final(self).textures.evolves_but(&old(self).textures, id)
                &&& reports(old(self).texture_check(self_id, *desc), final(error_buf).error)
                &&& final(self).textures.status(id) == if old(self).texture_check(
                    self_id,
                    *desc,
                ) is Some {
                    Status::<Texture>::Invalid
                } else {
                    Status::Valid(Texture { id, device: self_id, desc: *desc, external: created })
                }
            },
    {
        let (_, error) = self.device_create_texture(self_id, desc, created, Some(id));
        match error {
            Some(e) => {
                error_buf.init(
                    ErrMsg { message: create_error_message(&e), kind: kind_of_create_error(&e) },
                );
            },
            None => {},
        }
        !created
    }

    /// What an action of a client on a device leaves behind, given the
    /// tables before and after, the outcome and the error reported. A
    /// creation touches the table of its resource alone, and there the
    /// identifier alone; it reports the error of the creation, if there is
    /// one, by its kind; and what it registers is the resource that the
    /// action describes. An error that the client has found is reported as
    /// it is.
    pub open spec fn acted(
        &self,
        post: &Global,
        self_id: Id,
        action: ActionView,
        use_external_texture: bool,
        r: ActionOutcome,
        reported: Option<ErrMsg>,
    ) -> bool {
        match action {
            ActionView::CreateTexture(id, desc, swap_chain) => {
                &&& post.same_but_textures(self)
                &&& self.texture_acted(
                    post,
                    self_id,
                    id,
                    desc,
                    swap_chain,
                    use_external_texture,
                    r,
                    reported,
                )
            },
            ActionView::CreateBindGroupLayout(id, dynamic_count) => {
                let error = creation_error(
                    self.bind_group_layouts.accepts(id),
                    self.device_check(self_id),
                );
                &&& r == ActionOutcome::Done
                &&& post.same_but_bind_group_layouts(self)
                &&& reports(error, reported)
                &&& placed(&self.bind_group_layouts, &post.bind_group_layouts, id, error is Some)
                &&& error is None ==> post.bind_group_layouts.resource(id) == (BindGroupLayout {
                    id,
                    device: self_id,
                    dynamic_count,
                })
            },
            ActionView::CreatePipelineLayout(id, layouts, push_constant_size) => {
                let error = creation_error(
                    self.pipeline_layouts.accepts(id),
                    self.pipeline_layout_check(self_id, layouts, push_constant_size),
                );
                let made = post.pipeline_layouts.resource(id);
                &&& r == ActionOutcome::Done
                &&& post.same_but_pipeline_layouts(self)
                &&& reports(error, reported)
                &&& placed(&self.pipeline_layouts, &post.pipeline_layouts, id, error is Some)
                &&& error is None ==> {
                    &&& made.id == id
                    &&& made.device == self_id
                    &&& made.wf()
                    &&& made.layouts() == layouts
                    &&& made.push_constant_size == push_constant_size
                }
            },
            ActionView::CreateBindGroup(id, layout, entries) => {
                let error = creation_error(
                    self.bind_groups.accepts(id),
                    self.bind_group_check(self_id, layout, entries),
                );
                let made = post.bind_groups.resource(id);
                &&& r == ActionOutcome::Done
                &&& post.same_but_bind_groups(self)
                &&& reports(error, reported)
                &&& placed(&self.bind_groups, &post.bind_groups, id, error is Some)
                &&& error is None ==> {
                    &&& made.info == (BindGroupInfo {
                        id,
                        device: self_id,
                        layout,
                        dynamic_count: self.bind_group_layouts.resource(layout).dynamic_count,
                    })
                    &&& made.used@ == Self::used_by(self.buffers, entries)
                }
            },
            ActionView::CreateComputePipeline(id, layout) => {
                let error = creation_error(
                    self.compute_pipelines.accepts(id),
                    self.compute_pipeline_check(self_id, layout),
                );
                &&& r == ActionOutcome::Done
                &&& post.same_but_compute_pipelines(self)
                &&& reports(error, reported)
                &&& placed(&self.compute_pipelines, &post.compute_pipelines, id, error is Some)
                &&& error is None ==> post.compute_pipelines.resource(id) == (ComputePipeline {
                    id,
                    device: self_id,
                    layout: self.pipeline_layouts.resource(layout),
                })
            },
            ActionView::CreateCommandEncoder(id) => {
                let error = creation_error(
                    self.command_encoders.accepts(id),
                    self.device_check(self_id),
                );
                let made = post.command_encoders.resource(id)@;
                &&& r == ActionOutcome::Done
                &&& post.same_but_command_encoders(self)
                &&& reports(error, reported)
                &&& placed(&self.command_encoders, &post.command_encoders, id, error is Some)
                &&& error is None ==> {
                    &&& made.device == self_id
                    &&& made.status == CommandEncoderStatus::Recording
                    &&& made.list.len() == 0
                    &&& made.current is None
                    &&& made.trackers.end == Map::<u32, u16>::empty()
                }
            },
            ActionView::Error { message, kind } => {
                &&& r == ActionOutcome::Done
                &&& *post == *self
                &&& reported is Some
                &&& reported->0.message@ == message
                &&& reported->0.kind == kind
            },
        }
    }

    fn act(
        &mut self,
        self_id: Id,
        action: &DeviceAction,
        use_external_texture: bool,
        error_buf: &mut ErrorBuffer,
    ) -> (r: ActionOutcome)
        requires
            old(self).wf(),
            old(error_buf).error is None,
        ensures
            final(self).wf(),
            final(self).devices == old(self).devices,
            final(self).buffers == old(self).buffers,
            final(self).buffer_slots == old(self).buffer_slots,
            final(self).tracker_indices == old(self).tracker_indices,
            final(self).submission_index == old(self).submission_index,
            old(self).acted(
                final(self),
                self_id,
                action@,
                use_external_texture,
                r,
                final(error_buf).error,
            ),
    {
        match action {
            DeviceAction::CreateTexture(id, desc, swap_chain) => self.create_texture_action(
                self_id,
                *id,
                desc,
                *swap_chain,
                use_external_texture,
                error_buf,
            ),
            DeviceAction::CreateBindGroupLayout(id, dynamic_count) => {
                let (_, error) = self.device_create_bind_group_layout(
                    self_id,
                    *dynamic_count,
                    Some(*id),
                );
                report_create_error(error, error_buf);
                ActionOutcome::Done
            },
            DeviceAction::CreatePipelineLayout(id, desc) => {
                let (_, error) = self.device_create_pipeline_layout(self_id, desc, Some(*id));
                report_create_error(error, error_buf);
                ActionOutcome::Done
            },
            DeviceAction::CreateBindGroup(id, desc) => {
                let (_, error) = self.device_create_bind_group(self_id, desc, Some(*id));
                report_create_error(error, error_buf);
                ActionOutcome::Done
            },
            DeviceAction::CreateComputePipeline(id, layout) => {
                let (_, error) = self.device_create_compute_pipeline(self_id, *layout, Some(*id));
                report_create_error(error, error_buf);
                ActionOutcome::Done
            },
            DeviceAction::CreateCommandEncoder(id) => {
                let (_, error) = self.device_create_command_encoder(self_id, Some(*id));
                report_create_error(error, error_buf);
                ActionOutcome::Done
            },
            DeviceAction::Error { message, kind } => {
                error_buf.init(ErrMsg { message: message.clone(), kind: *kind });
                ActionOutcome::Done
            },
        }
    }

    /// Carries out one action of a client on a device. What fails is
    /// reported to the error buffer; the resource tables change as the
    /// creation function of the action says.
    pub fn device_action(
        &mut self,
        self_id: Id,
        action: DeviceAction,
        use_external_texture: bool,
        error_buf: &mut ErrorBuffer,
    ) -> (r: ActionOutcome)
        requires
            old(self).wf(),
            old(error_buf).error is None,
        ensures
            final(self).wf(),
            final(self).devices == old(self).devices,
            final(self).buffers == old(self).buffers,
            final(self).buffer_slots == old(self).buffer_slots,
            final(self).tracker_indices == old(self).tracker_indices,
            old(self).acted(
                final(self),
                self_id,
                action@,
                use_external_texture,
                r,
                final(error_buf).error,
            ),
    {
        self.act(self_id, &action, use_external_texture, error_buf)
    }

    /// Whether a batch of actions, carried out one after the other, leads
    /// from the tables before to the tables after: `trace` holds the tables
    /// before each action and after the last, `outcomes` what each action
    /// leaves for the host to do, and `errors` what each action reports.
    pub open spec fn ran(
        &self,
        post: &Global,
        self_id: Id,
        actions: Seq<ActionView>,
        use_external_texture: bool,
        outcomes: Seq<ActionOutcome>,
        trace: Seq<Global>,
        errors: Seq<Option<ErrMsg>>,
    ) -> bool {
        &&& trace.len() == actions.len() + 1
        &&& outcomes.len() == actions.len()
        &&& errors.len() == actions.len()
        &&& trace[0] == *self
        &&& trace[actions.len() as int] == *post
        &&& forall|i: int|
            0 <= i < actions.len() ==> (#[trigger] trace[i]).acted(
                &trace[i + 1],
                self_id,
                actions[i],
                use_external_texture,
                outcomes[i],
                errors[i],
            )
    }

    /// What a batch of actions leaves behind: the tables that the actions
    /// lead to when they are carried out one after the other, what each
    /// leaves for the host to do, and of the errors that they report the
    /// first.
    pub open spec fn batch_acted(
        &self,
        post: &Global,
        self_id: Id,
        actions: Seq<ActionView>,
        use_external_texture: bool,
        outcomes: Seq<ActionOutcome>,
        reported: Option<ErrMsg>,
    ) -> bool {
        exists|trace: Seq<Global>, errors: Seq<Option<ErrMsg>>|
            #[trigger] self.ran(
                post,
                self_id,
                actions,
                use_external_texture,
                outcomes,
                trace,
                errors,
            ) && reported == first_error(errors)
    }

    /// Carries out a batch of actions of a client on a device, in their
    /// order. Every action is carried out, whatever became of those before
    /// it; of the errors the first one alone is reported. Gives what each
    /// action leaves for the host to do.
    pub fn device_actions(
        &mut self,
        self_id: Id,
        actions: &Vec<DeviceAction>,
        use_external_texture: bool,
        error_buf: &mut ErrorBuffer,
    ) -> (outcomes: Vec<ActionOutcome>)
        requires
            old(self).wf(),
            old(error_buf).error is None,
        ensures
            final(self).wf(),
            final(self).devices == old(self).devices,
            final(self).buffers == old(self).buffers,
            final(self).buffer_slots == old(self).buffer_slots,
            final(self).tracker_indices == old(self).tracker_indices,
            final(self).submission_index == old(self).submission_index,
            old(self).batch_acted(
                final(self),
                self_id,
                actions_view(actions@),
                use_external_texture,
                outcomes@,
                final(error_buf).error,
            ),
    {
        let mut outcomes: Vec<ActionOutcome> = Vec::new();
        let ghost views = actions_view(actions@);
        let ghost mut trace: Seq<Global> = seq![*self];
        let ghost mut errors: Seq<Option<ErrMsg>> = Seq::empty();
        let mut i: usize = 0;
        while i < actions.len()
            invariant
                i <= actions@.len(),
                views == actions_view(actions@),
                self.wf(),
                self.devices == old(self).devices,
                self.buffers == old(self).buffers,
                self.buffer_slots == old(self).buffer_slots,
                self.tracker_indices == old(self).tracker_indices,
                self.submission_index == old(self).submission_index,
                trace.len() == i + 1,
                outcomes@.len() == i,
                errors.len() == i,
                trace[0] == *old(self),
                trace[i as int] == *self,
                forall|j: int|
                    0 <= j < i ==> (#[trigger] trace[j]).acted(
                        &trace[j + 1],
                        self_id,
                        views[j],
                        use_external_texture,
                        outcomes@[j],
                        errors[j],
                    ),
                error_buf.error == first_error(errors),
            decreases actions@.len() - i,
        {
            let ghost before = *self;
            let ghost reported = errors;
            let mut local = ErrorBuffer::new();
            let outcome = self.act(self_id, &actions[i], use_external_texture, &mut local);
            proof {
                assert(views[i as int] == actions@[i as int]@);
                errors = errors.push(local.error);
                trace = trace.push(*self);
                assert(errors.drop_last() =~= reported);
            }
            match local.error {
                Some(e) => {
                    error_buf.init(e);
                },
                None => {},
            }
            outcomes.push(outcome);
            i += 1;
        }
        proof {
            assert(old(self).ran(
                self,
                self_id,
                views,
                use_external_texture,
                outcomes@,
                trace,
                errors,
            ));
        }
        outcomes
    }
}

/// The error that is reported of several: the first there is.
pub open spec fn first_error(errors: Seq<Option<ErrMsg>>) -> Option<ErrMsg>
    decreases errors.len(),
{
    if errors.len() == 0 {
        None
    } else {
        match first_error(errors.drop_last()) {
            Some(e) => Some(e),
            None => errors.last(),
        }
    }
}

/// Reports an error of creation, if there is one.
pub fn report_create_error(error: Option<CreateError>, error_buf: &mut ErrorBuffer)
    requires
        old(error_buf).error is None,
    ensures
        reports(error, final(error_buf).error),
{
    match error {
        Some(e) => {
            error_buf.init(
                ErrMsg { message: create_error_message(&e), kind: kind_of_create_error(&e) },
            );
        },
        None => {},
    }
}

/// A transcript after resolution.
pub struct Resolved {
    pub commands: Seq<ArcComputeCommand>,
    /// What the bind groups of the transcript use, in order.
    pub used: Seq<UsedBuffer>,
}

/// The operation that a command is recorded as.
pub open spec fn scope_of_command(c: ComputeCommand) -> PassErrorScope {
    match c {
        ComputeCommand::SetBindGroup { .. } => PassErrorScope::SetBindGroup,
        ComputeCommand::SetPipeline(_) => PassErrorScope::SetPipelineCompute,
        ComputeCommand::SetPushConstant { .. } => PassErrorScope::SetPushConstant,
        ComputeCommand::Dispatch { .. } => PassErrorScope::Dispatch { indirect: false },
        ComputeCommand::DispatchIndirect { .. } => PassErrorScope::Dispatch { indirect: true },
        ComputeCommand::PushDebugGroup { .. } => PassErrorScope::PushDebugGroup,
        ComputeCommand::PopDebugGroup => PassErrorScope::PopDebugGroup,
        ComputeCommand::InsertDebugMarker { .. } => PassErrorScope::InsertDebugMarker,
    }
}

/// Why a transcript could not be run as a pass.
#[derive(Clone, Copy, Debug, PartialEq, Eq, Structural)]
pub enum RunPassError {
    /// The pass could not be begun.
    Encoder(CommandEncoderError),
    /// A command could not be resolved, or the replay failed.
    Pass(ComputePassError),
}

/// What a client asks of a command encoder.
pub enum CommandEncoderAction {
    CopyBufferToBuffer { src: Id, src_offset: u64, dst: Id, dst_offset: u64, size: u64 },
    /// Runs a whole compute pass from its transcript.
    RunComputePass { base: BasePass<ComputeCommand> },
    PushDebugGroup(String),
    PopDebugGroup,
    InsertDebugMarker(String),
}

impl Global {
    /// The identifier that a command names and that does not resolve, if
    /// there is one.
    pub open spec fn unresolved(&self, c: ComputeCommand) -> Option<Id> {
        match c {
            ComputeCommand::SetBindGroup { bind_group_id: Some(id), .. } => if self.bind_groups.is_valid(
                id,
            ) {
                None
            } else {
                Some(id)
            },
            ComputeCommand::SetPipeline(id) => if self.compute_pipelines.is_valid(id) {
                None
            } else {
                Some(id)
            },
            ComputeCommand::DispatchIndirect { buffer_id, .. } => if self.buffers.is_valid(
                buffer_id,
            ) {
                None
            } else {
                Some(buffer_id)
            },
            _ => None,
        }
    }

    /// The command with handles in the place of identifiers.
    pub open spec fn resolved_command(&self, c: ComputeCommand) -> ArcComputeCommand {
        match c {
            ComputeCommand::SetBindGroup { index, num_dynamic_offsets, bind_group_id } => {
                ArcComputeCommand::SetBindGroup {
                    index,
                    num_dynamic_offsets,
                    bind_group: match bind_group_id {
                        Some(id) => Some(self.bind_groups.resource(id).info),
                        None => None,
                    },
                    num_used: self.used_by_command(c).len() as usize,
                }
            },
            ComputeCommand::SetPipeline(id) => ArcComputeCommand::SetPipeline(
                self.compute_pipelines.resource(id),
            ),
            ComputeCommand::SetPushConstant {
                offset,
                size_bytes,
                values_offset,
            } => ArcComputeCommand::SetPushConstant { offset, size_bytes, values_offset },
            ComputeCommand::Dispatch { x, y, z } => ArcComputeCommand::Dispatch { x, y, z },
            ComputeCommand::DispatchIndirect { buffer_id, offset } => {
                ArcComputeCommand::DispatchIndirect {
                    buffer: self.buffers.resource(buffer_id),
                    offset,
                }
            },
            ComputeCommand::PushDebugGroup { color, len } => ArcComputeCommand::PushDebugGroup {
                color,
                len,
            },
            ComputeCommand::PopDebugGroup => ArcComputeCommand::PopDebugGroup,
            ComputeCommand::InsertDebugMarker {
                color,
                len,
            } => ArcComputeCommand::InsertDebugMarker { color, len },
        }
    }

    /// What the bind group of a command uses.
    pub open spec fn used_by_command(&self, c: ComputeCommand) -> Seq<UsedBuffer> {
        match c {
            ComputeCommand::SetBindGroup { bind_group_id: Some(id), .. } => self.bind_groups.resource(
                id,
            ).used@,
            _ => Seq::empty(),
        }
    }

    /// The first `n` commands after resolution; fails at the first command
    /// that names what does not resolve.
    pub open spec fn resolve_prefix(&self, commands: Seq<ComputeCommand>, n: nat) -> Result<
        Resolved,
        ComputePassError,
    >
        decreases n,
    {
        if n == 0 {
            Ok(Resolved { commands: Seq::empty(), used: Seq::empty() })
        } else {
            match self.resolve_prefix(commands, (n - 1) as nat) {
                Err(e) => Err(e),
                Ok(before) => {
                    let c = commands[n - 1];
                    match self.unresolved(c) {
                        Some(id) => Err(
                            ComputePassError {
                                scope: scope_of_command(c),
                                inner: ComputePassErrorInner::InvalidResource(
                                    InvalidResourceError { id },
                                ),
                            },
                        ),
                        None => Ok(
                            Resolved {
                                commands: before.commands.push(self.resolved_command(c)),
                                used: before.used + self.used_by_command(c),
                            },
                        ),
                    }
                },
            }
        }
    }

    /// Once a command has failed to resolve, the transcript has.
    pub proof fn lemma_resolve_stops(&self, commands: Seq<ComputeCommand>, n: nat, m: nat)
        requires
            n <= m,
            self.resolve_prefix(commands, n) is Err,
        ensures
            self.resolve_prefix(commands, m) == self.resolve_prefix(commands, n),
        decreases m,
    {
        if n < m {
            self.lemma_resolve_stops(commands, n, (m - 1) as nat);
        }
    }

    /// Resolves every identifier of a transcript to the handle of its
    /// resource, and lists what the bind groups use.
    pub fn resolve_compute_command_ids(&self, commands: &Vec<ComputeCommand>) -> (r: Result<
        (Vec<ArcComputeCommand>, Vec<UsedBuffer>),
        ComputePassError,
    >)
        requires
            self.wf(),
        ensures
            match r {
                Ok(pair) => self.resolve_prefix(commands@, commands@.len()) == Ok::<
                    Resolved,
                    ComputePassError,
                >(Resolved { commands: pair.0@, used: pair.1@ }),
                Err(e) => self.resolve_prefix(commands@, commands@.len()) == Err::<
                    Resolved,
                    ComputePassError,
                >(e),
            },
    {
        let mut resolved: Vec<ArcComputeCommand> = Vec::new();
        let mut used: Vec<UsedBuffer> = Vec::new();
        let mut i: usize = 0;
        while i < commands.len()
            invariant
                self.wf(),
                i <= commands@.len(),
                self.resolve_prefix(commands@, i as nat) == Ok::<Resolved, ComputePassError>(
                    Resolved { commands: resolved@, used: used@ },
                ),
            decreases commands@.len() - i,
        {
            let c = commands[i];
            let ghost before_used = used@;
            let item: Result<ArcComputeCommand, (PassErrorScope, InvalidResourceError)> = match c {
                ComputeCommand::SetBindGroup { index, num_dynamic_offsets, bind_group_id } => {
                    match bind_group_id {
                        None => {
                            assert(used@ =~= before_used + Seq::<UsedBuffer>::empty());
                            Ok(
                                ArcComputeCommand::SetBindGroup {
                                    index,
                                    num_dynamic_offsets,
                                    bind_group: None,
                                    num_used: 0,
                                },
                            )
                        },
                        Some(id) => match self.bind_groups.get(id) {
                            Err(e) => Err((PassErrorScope::SetBindGroup, e)),
                            Ok(group) => {
                                let n = group.used.len();
                                let mut k: usize = 0;
                                while k < n
                                    invariant
                                        n == group.used@.len(),
                                        k <= n,
                                        used@ == before_used + group.used@.take(k as int),
                                    decreases n - k,
                                {
                                    used.push(group.used[k]);
                                    assert(group.used@.take(k + 1) =~= group.used@.take(
                                        k as int,
                                    ).push(group.used@[k as int]));
                                    k += 1;
                                }
                                assert(group.used@.take(n as int) =~= group.used@);
                                Ok(
                                    ArcComputeCommand::SetBindGroup {
                                        index,
                                        num_dynamic_offsets,
                                        bind_group: Some(group.info),
                                        num_used: n,
                                    },
                                )
                            },
                        },
                    }
                },
                ComputeCommand::SetPipeline(id) => {
                    assert(used@ =~= before_used + Seq::<UsedBuffer>::empty());
                    match self.compute_pipelines.get(id) {
                        Err(e) => Err((PassErrorScope::SetPipelineCompute, e)),
                        Ok(pipeline) => Ok(ArcComputeCommand::SetPipeline(*pipeline)),
                    }
                },
                ComputeCommand::DispatchIndirect { buffer_id, offset } => {
                    assert(used@ =~= before_used + Seq::<UsedBuffer>::empty());
                    match self.buffers.get(buffer_id) {
                        Err(e) => Err((PassErrorScope::Dispatch { indirect: true }, e)),
                        Ok(buffer) => Ok(
                            ArcComputeCommand::DispatchIndirect { buffer: *buffer, offset },
                        ),
                    }
                },
                ComputeCommand::SetPushConstant { offset, size_bytes, values_offset } => {
                    assert(used@ =~= before_used + Seq::<UsedBuffer>::empty());
                    Ok(ArcComputeCommand::SetPushConstant { offset, size_bytes, values_offset })
                },
                ComputeCommand::Dispatch { x, y, z } => {
                    assert(used@ =~= before_used + Seq::<UsedBuffer>::empty());
                    Ok(ArcComputeCommand::Dispatch { x, y, z })
                },
                ComputeCommand::PushDebugGroup { color, len } => {
                    assert(used@ =~= before_used + Seq::<UsedBuffer>::empty());
                    Ok(ArcComputeCommand::PushDebugGroup { color, len })
                },
                ComputeCommand::PopDebugGroup => {
                    assert(used@ =~= before_used + Seq::<UsedBuffer>::empty());
                    Ok(ArcComputeCommand::PopDebugGroup)
                },
                ComputeCommand::InsertDebugMarker { color, len } => {
                    assert(used@ =~= before_used + Seq::<UsedBuffer>::empty());
                    Ok(ArcComputeCommand::InsertDebugMarker { color, len })
                },
            };
            match item {
                Err((scope, e)) => {
                    proof {
                        self.lemma_resolve_stops(commands@, (i + 1) as nat, commands@.len());
                    }
                    return Err(
                        ComputePassError {
                            scope,
                            inner: ComputePassErrorInner::InvalidResource(e),
                        },
                    );
                },
                Ok(command) => {
                    resolved.push(command);
                },
            }
            i += 1;
        }
        Ok((resolved, used))
    }

    /// What running a transcript as a pass on an encoder comes to, and
    /// what the encoder holds afterwards if the call touches it. Nothing is
    /// touched unless every command resolves and the pass can be begun.
    pub open spec fn run_pass_spec(
        &self,
        encoder_id: Id,
        label: Option<Seq<char>>,
        commands: Seq<ComputeCommand>,
        dynamic_offsets: Seq<u32>,
        string_data: Seq<u8>,
        push_constant_data: Seq<u32>,
    ) -> (Result<(), RunPassError>, Option<EncoderView>) {
        match self.resolve_prefix(commands, commands.len()) {
            Err(e) => (Err(RunPassError::Pass(e)), None),
            Ok(resolved) => {
                if !self.command_encoders.is_valid(encoder_id) {
                    (
                        Err(
                            RunPassError::Encoder(
                                CommandEncoderError::InvalidResource(
                                    InvalidResourceError { id: encoder_id },
                                ),
                            ),
                        ),
                        None,
                    )
                } else {
                    let e = self.command_encoders.resource(encoder_id)@;
                    if recording_check(e.status) is Err {
                        (
                            Err(
                                RunPassError::Encoder(
                                    CommandEncoderError::EncoderState(
                                        recording_check(e.status)->Err_0,
                                    ),
                                ),
                            ),
                            None,
                        )
                    } else if !self.devices.is_valid(e.device) || !self.devices.resource(
                        e.device,
                    ).valid {
                        (
                            Err(
                                RunPassError::Pass(
                                    ComputePassError {
                                        scope: PassErrorScope::Pass,
                                        inner: ComputePassErrorInner::Device(DeviceError::Lost),
                                    },
                                ),
                            ),
                            Some(e),
                        )
                    } else {
                        let p = ComputePassView {
                            ended: false,
                            parent: Some(encoder_id),
                            label,
                            commands: resolved.commands,
                            dynamic_offsets,
                            string_data,
                            push_constant_data,
                            used_buffers: resolved.used,
                            bound: Seq::new(8, |i: int| None::<LastBinding>),
                            pipeline: None,
                        };
                        let outcome = replay(
                            initial_state(label),
                            self.replay_env(e.device, p),
                            p.commands,
                            p.commands.len(),
                        );
                        (
                            match outcome {
                                Ok(_) => Ok(()),
                                Err(err) => Err(RunPassError::Pass(err)),
                            },
                            Some(encoder_after_pass(e, outcome)),
                        )
                    }
                }
            },
        }
    }

    /// Runs a whole compute pass from its transcript: resolves its
    /// identifiers, begins a pass on the encoder, and ends it with the
    /// transcript.
    pub fn compute_pass_end_with_unresolved_commands(
        &mut self,
        encoder_id: Id,
        base: BasePass<ComputeCommand>,
    ) -> (r: Result<(), RunPassError>)
        requires
            old(self).wf(),
        ensures
            final(self).wf(),
            final(self).same_but_command_encoders(old(self)),
            r == old(self).run_pass_spec(
                encoder_id,
                base@.label,
                base@.commands,
                base@.dynamic_offsets,
                base@.string_data,
                base@.push_constant_data,
            ).0,
            match old(self).run_pass_spec(
                encoder_id,
                base@.label,
                base@.commands,
                base@.dynamic_offsets,
                base@.string_data,
                base@.push_constant_data,
            ).1 {
                None => final(self).command_encoders == old(self).command_encoders,
                Some(e) => {
                    &&& final(self).command_encoders.same_but(
                        &old(self).command_encoders,
                        encoder_id,
                    )
                    &&& final(self).command_encoders.is_valid(encoder_id)
                    &&& final(self).command_encoders.resource(encoder_id)@ == e
                },
            },
    {
        let BasePass { label, commands, dynamic_offsets, string_data, push_constant_data } = base;
        let (resolved, used) = match self.resolve_compute_command_ids(&commands) {
            Err(e) => {
                return Err(RunPassError::Pass(e));
            },
            Ok(pair) => pair,
        };
        let (mut pass, error) = self.command_encoder_begin_compute_pass(encoder_id, None);
        match error {
            Some(e) => {
                return Err(RunPassError::Encoder(e));
            },
            None => {},
        }
        let ghost locked = *self;
        pass.base = Some(
            BasePass { label, commands: resolved, dynamic_offsets, string_data, push_constant_data },
        );
        pass.used_buffers = used;
        proof {
            assert(pass@.bound =~= Seq::new(8, |i: int| None::<LastBinding>));
        }
        match self.compute_pass_end(&mut pass) {
            Ok(()) => Ok(()),
            Err(e) => Err(RunPassError::Pass(e)),
        }
    }

    /// What an action leaves of the command encoders: they stay as they
    /// are where no encoder is given; else the encoder named alone changes,
    /// to the one given.
    pub open spec fn encoder_became(&self, post: &Global, encoder_id: Id, e: Option<EncoderView>)
        -> bool {
        match e {
            None => post.command_encoders == self.command_encoders,
            Some(e) => {
                &&& post.command_encoders.same_but(&self.command_encoders, encoder_id)
                &&& post.command_encoders.is_valid(encoder_id)
                &&& post.command_encoders.resource(encoder_id)@ == e
            },
        }
    }

    /// What a debug label that a client sends leaves behind: the error of
    /// recording it, if there is one, and else the encoder with the label
    /// recorded. `change` is 1 for the start of a group, -1 for the end of
    /// one and 0 for a marker.
    pub open spec fn debug_acted(
        &self,
        post: &Global,
        encoder_id: Id,
        change: int,
        label: Seq<u8>,
        reported: Option<ErrMsg>,
    ) -> bool {
        let error = self.debug_check(encoder_id, change);
        let e = self.command_encoders.resource(encoder_id)@;
        &&& reports_command(debug_operation(change), error, reported)
        &&& self.encoder_became(
            post,
            encoder_id,
            if error is Some {
                None
            } else {
                Some(
                    Self::after_debug(
                        e,
                        self.devices.is_valid(e.device) && self.devices.resource(
                            e.device,
                        ).discard_labels,
                        change,
                        label,
                    ),
                )
            },
        )
    }

    /// What a whole compute pass that a client sends leaves behind: the
    /// encoder as the pass leaves it, and the error of the pass, if there
    /// is one, by its kind.
    pub open spec fn pass_acted(
        &self,
        post: &Global,
        encoder_id: Id,
        base: TranscriptView<ComputeCommand>,
        reported: Option<ErrMsg>,
    ) -> bool {
        let ran = self.run_pass_spec(
            encoder_id,
            base.label,
            base.commands,
            base.dynamic_offsets,
            base.string_data,
            base.push_constant_data,
        );
        &&& self.encoder_became(post, encoder_id, ran.1)
        &&& match ran.0 {
            Ok(_) => reported is None,
            Err(RunPassError::Pass(e)) => {
                &&& reported is Some
                &&& reported->0.kind == pass_error_kind(e)
                &&& reported->0.message@ == pass_error_text(e)
            },
            Err(RunPassError::Encoder(e)) => {
                &&& reported is Some
                &&& reported->0.kind == ErrorBufferType::Validation
                &&& reported->0.message@ == encoder_error_text(e)
            },
        }
    }

    /// What a pass that a client has recorded on its side and delivers
    /// whole leaves behind: the encoder as the replay through the recording
    /// calls leaves it, and the error of the pass, if there is one, with
    /// its scope and its cause.
    pub open spec fn delivered_pass_acted(
        &self,
        post: &Global,
        encoder_id: Id,
        base: TranscriptView<ComputeCommand>,
        reported: Option<ErrMsg>,
    ) -> bool {
        let ran = self.replayed_pass_spec(encoder_id, base);
        &&& self.encoder_became(post, encoder_id, ran.1)
        &&& match ran.0 {
            Ok(_) => reported is None,
            Err(RunPassError::Pass(e)) => {
                &&& reported is Some
                &&& reported->0.kind == pass_error_kind(e)
                &&& reported->0.message@ == pass_error_text(e)
            },
            Err(RunPassError::Encoder(e)) => {
                &&& reported is Some
                &&& reported->0.kind == ErrorBufferType::Validation
                &&& reported->0.message@ == encoder_error_text(e)
            },
        }
    }

    /// Replays a pass that a client delivers whole, and reports what fails.
    pub fn replay_delivered_pass(
        &mut self,
        encoder_id: Id,
        base: &BasePass<ComputeCommand>,
        error_buf: &mut ErrorBuffer,
    )
        requires
            old(self).wf(),
            old(error_buf).error is None,
        ensures
            final(self).wf(),
            final(self).same_but_command_encoders(old(self)),
            old(self).delivered_pass_acted(
                final(self),
                encoder_id,
                base@,
                final(error_buf).error,
            ),
    {
        match self.replay_compute_pass(encoder_id, base) {
            Ok(()) => {},
            Err(RunPassError::Pass(e)) => {
                let kind = match e.inner {
                    ComputePassErrorInner::Device(DeviceError::OutOfMemory) => {
                        ErrorBufferType::OutOfMemory
                    },
                    ComputePassErrorInner::Device(DeviceError::Lost) => ErrorBufferType::DeviceLost,
                    ComputePassErrorInner::MalformedTranscript => ErrorBufferType::Internal,
                    _ => ErrorBufferType::Validation,
                };
                error_buf.init(ErrMsg { message: pass_error_message(e), kind });
            },
            Err(RunPassError::Encoder(e)) => {
                error_buf.init(
                    ErrMsg { message: encoder_error_message(e), kind: ErrorBufferType::Validation },
                );
            },
        }
    }

    /// What an action of a client on a command encoder leaves behind, given
    /// the tables before and after and the error reported: a copy, a whole
    /// compute pass or a debug label is recorded as it would be by itself,
    /// and what fails is reported by its kind.
    pub open spec fn encoder_acted(
        &self,
        post: &Global,
        self_id: Id,
        action: EncoderActionView,
        reported: Option<ErrMsg>,
    ) -> bool {
        match action {
            EncoderActionView::CopyBufferToBuffer { src, src_offset, dst, dst_offset, size } => {
                let error = self.copy_check(self_id, src, src_offset, dst, dst_offset, size);
                &&& reports_command(Operation::CopyBufferToBuffer, error, reported)
                &&& self.encoder_became(
                    post,
                    self_id,
                    if error is Some || size == 0 {
                        None
                    } else {
                        Some(
                            after_copy(
                                self.command_encoders.resource(self_id)@,
                                self.buffers.resource(src),
                                src_offset,
                                self.buffers.resource(dst),
                                dst_offset,
                                size,
                            ),
                        )
                    },
                )
            },
            EncoderActionView::RunComputePass { base } => self.pass_acted(
                post,
                self_id,
                base,
                reported,
            ),
            EncoderActionView::PushDebugGroup(marker) => self.debug_acted(
                post,
                self_id,
                1,
                encode_utf8(marker),
                reported,
            ),
            EncoderActionView::PopDebugGroup => self.debug_acted(
                post,
                self_id,
                -1,
                Seq::empty(),
                reported,
            ),
            EncoderActionView::InsertDebugMarker(marker) => self.debug_acted(
                post,
                self_id,
                0,
                encode_utf8(marker),
                reported,
            ),
        }
    }

    /// Carries out one action of a client on a command encoder: a copy, a
    /// whole compute pass or a debug label is recorded as it would be by
    /// itself, and what fails is reported to the error buffer by its kind.
    pub fn command_encoder_action(
        &mut self,
        self_id: Id,
        action: CommandEncoderAction,
        error_buf: &mut ErrorBuffer,
    )
        requires
            old(self).wf(),
            old(error_buf).error is None,
        ensures
            final(self).wf(),
            final(self).same_but_command_encoders(old(self)),
            old(self).encoder_acted(final(self), self_id, action@, final(error_buf).error),
    {
        match action {
            CommandEncoderAction::CopyBufferToBuffer { src, src_offset, dst, dst_offset, size } => {
                match self.command_encoder_copy_buffer_to_buffer(
                    self_id,
                    src,
                    src_offset,
                    dst,
                    dst_offset,
                    size,
                ) {
                    Err(e) => {
                        report_command_error(Operation::CopyBufferToBuffer, &e, error_buf);
                    },
                    Ok(()) => {},
                }
            },
            CommandEncoderAction::RunComputePass { base } => {
                match self.compute_pass_end_with_unresolved_commands(self_id, base) {
                    Ok(()) => {},
                    Err(RunPassError::Pass(e)) => {
                        let kind = match e.inner {
                            ComputePassErrorInner::Device(DeviceError::OutOfMemory) => {
                                ErrorBufferType::OutOfMemory
                            },
                            ComputePassErrorInner::Device(DeviceError::Lost) => {
                                ErrorBufferType::DeviceLost
                            },
                            ComputePassErrorInner::MalformedTranscript => ErrorBufferType::Internal,
                            _ => ErrorBufferType::Validation,
                        };
                        error_buf.init(ErrMsg { message: pass_error_message(e), kind });
                    },
                    Err(RunPassError::Encoder(e)) => {
                        error_buf.init(
                            ErrMsg {
                                message: encoder_error_message(e),
                                kind: ErrorBufferType::Validation,
                            },
                        );
                    },
                }
            },
            CommandEncoderAction::PushDebugGroup(marker) => {
                match self.command_encoder_push_debug_group(self_id, marker.as_str()) {
                    Err(e) => {
                        report_command_error(Operation::PushDebugGroup, &e, error_buf);
                    },
                    Ok(()) => {},
                }
            },
            CommandEncoderAction::PopDebugGroup => {
                match self.command_encoder_pop_debug_group(self_id) {
                    Err(e) => {
                        report_command_error(Operation::PopDebugGroup, &e, error_buf);
                    },
                    Ok(()) => {},
                }
            },
            CommandEncoderAction::InsertDebugMarker(marker) => {
                match self.command_encoder_insert_debug_marker(self_id, marker.as_str()) {
                    Err(e) => {
                        report_command_error(Operation::InsertDebugMarker, &e, error_buf);
                    },
                    Ok(()) => {},
                }
            },
        }
    }
}

/// The operation that records a debug label: `change` is 1 for the start
/// of a group, -1 for the end of one and 0 for a marker.
pub open spec fn debug_operation(change: int) -> Operation {
    if change > 0 {
        Operation::PushDebugGroup
    } else if change < 0 {
        Operation::PopDebugGroup
    } else {
        Operation::InsertDebugMarker
    }
}

/// Reports an error of a command on an encoder, with the command that it
/// came up in.
pub fn report_command_error(op: Operation, e: &CommandError, error_buf: &mut ErrorBuffer)
    requires
        old(error_buf).error is None,
    ensures
        reports_command(op, Some(*e), final(error_buf).error),
{
    let kind = match e {
        CommandError::Device(DeviceError::OutOfMemory) => ErrorBufferType::OutOfMemory,
        CommandError::Device(DeviceError::Lost) => ErrorBufferType::DeviceLost,
        _ => ErrorBufferType::Validation,
    };
    error_buf.init(ErrMsg { message: command_error_message(op, *e), kind });
}

} // verus!
