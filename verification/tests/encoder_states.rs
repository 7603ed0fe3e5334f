use wgpu_bindings::command::{BasePass, EncoderStateError};
use wgpu_bindings::encoder::{CommandEncoder, CommandEncoderStatus, NativeCommand};
use wgpu_bindings::id::{Backend, Id};
use wgpu_bindings::usage::PendingTransition;

fn device() -> Id {
    Id::zip(0, 1, Backend::Vulkan)
}

fn labels(e: &CommandEncoder) -> Vec<Option<&str>> {
    e.list.iter().map(|b| b.label.as_deref()).collect()
}

#[test]
fn encoder_goes_from_recording_to_locked_and_back_and_finishes() {
    let mut e = CommandEncoder::new(device());
    assert_eq!(e.status, CommandEncoderStatus::Recording);
    assert_eq!(e.record(), Ok(()));
    // Nothing is locked yet.
    assert_eq!(e.unlock_encoder(), Err(EncoderStateError::Unlocked));
    assert_eq!(e.status, CommandEncoderStatus::Recording);
    assert_eq!(e.lock_encoder(), Ok(()));
    assert_eq!(e.status, CommandEncoderStatus::Locked);
    // One pass at a time, and no recording beside it.
    assert_eq!(e.lock_encoder(), Err(EncoderStateError::Locked));
    assert_eq!(e.record(), Err(EncoderStateError::Locked));
    assert_eq!(e.finish(), Err(EncoderStateError::Locked));
    assert_eq!(e.status, CommandEncoderStatus::Locked);
    assert_eq!(e.unlock_encoder(), Ok(()));
    assert_eq!(e.status, CommandEncoderStatus::Recording);
    assert_eq!(e.finish(), Ok(()));
    assert_eq!(e.status, CommandEncoderStatus::Finished);
    // Finished is for good.
    assert_eq!(e.record(), Err(EncoderStateError::Ended));
    assert_eq!(e.lock_encoder(), Err(EncoderStateError::Ended));
    assert_eq!(e.unlock_encoder(), Err(EncoderStateError::Ended));
    assert_eq!(e.finish(), Err(EncoderStateError::Ended));
    assert_eq!(e.status, CommandEncoderStatus::Finished);
}

#[test]
fn native_command_buffers_close_in_the_order_they_run_in() {
    let mut e = CommandEncoder::new(device());
    // Closing without an open buffer changes nothing.
    e.close_if_open();
    assert!(e.list.is_empty());
    e.open();
    e.push(NativeCommand::ClearBuffer { dst: device(), offset: 0, size: 4 });
    // Opening again keeps what is open.
    e.open();
    assert_eq!(e.current.as_ref().unwrap().commands.len(), 1);
    e.close_if_open();
    assert_eq!(labels(&e), vec![None]);
    assert!(e.current.is_none());
    // The body of a pass.
    e.open_pass(Some("body".to_string()));
    e.push(NativeCommand::BeginComputePass);
    e.push(NativeCommand::EndComputePass);
    assert_eq!(e.current.as_ref().unwrap().label.as_deref(), Some("body"));
    e.close();
    assert_eq!(labels(&e), vec![None, Some("body")]);
    // The barriers of the pass are recorded after its body and run before it.
    e.open_pass(Some("Pre Pass".to_string()));
    e.push(NativeCommand::TransitionBuffer(PendingTransition { index: 3, from: 0x100, to: 0x80 }));
    e.close_and_swap();
    assert_eq!(labels(&e), vec![None, Some("Pre Pass"), Some("body")]);
    assert_eq!(
        e.list[1].commands,
        vec![NativeCommand::TransitionBuffer(PendingTransition { index: 3, from: 0x100, to: 0x80 })]
    );
    assert_eq!(e.list[2].commands, vec![NativeCommand::BeginComputePass, NativeCommand::EndComputePass]);
    assert!(e.current.is_none());
    // What is thrown away is never run.
    e.open_pass(Some("failed".to_string()));
    e.push(NativeCommand::BeginComputePass);
    e.discard();
    assert!(e.current.is_none());
    e.discard();
    assert_eq!(labels(&e), vec![None, Some("Pre Pass"), Some("body")]);
    // A buffer that was filled elsewhere.
    let mut filled: BasePass<NativeCommand> = BasePass::new(Some("elsewhere".to_string()));
    filled.commands.push(NativeCommand::EndDebugMarker);
    e.install(filled);
    // Finishing closes what is open.
    assert_eq!(e.finish(), Ok(()));
    assert_eq!(labels(&e), vec![None, Some("Pre Pass"), Some("body"), Some("elsewhere")]);
    assert!(e.current.is_none());
}
