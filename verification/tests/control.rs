use argos::{core_step, CoreAction, CoreEvent};
use argos::{
    command_from_read, mute_deadline, muted_at, Action, CameraFrames, CmdRes, MotorCommands,
    ReadFailure, SpeakerAudio, SpeakerGate, Voice, MUTE_TAIL_NS,
};

#[test]
fn fresh_gate_is_open() {
    let gate = SpeakerGate::new();
    assert!(!gate.is_muted());
}

#[test]
fn gate_mutes_right_after_playing() {
    let gate = SpeakerGate::new();
    gate.report_playing();
    assert!(gate.is_muted());
}

#[test]
fn mute_window_is_the_tail() {
    assert_eq!(MUTE_TAIL_NS, 100_000_000);
    let deadline = mute_deadline(5);
    assert_eq!(deadline, 100_000_005);
    assert!(muted_at(100_000_004, deadline));
    assert!(!muted_at(100_000_005, deadline));
    assert!(!muted_at(0, -1));
}

#[test]
fn mute_deadline_wraps_at_the_top() {
    assert_eq!(mute_deadline(i64::MAX), i64::MIN + MUTE_TAIL_NS - 1);
}

#[test]
fn prompt_outcomes() {
    assert!(matches!(command_from_read(Ok("sit".to_string())), CmdRes::Line(s) if s == "sit"));
    assert!(matches!(command_from_read(Err(ReadFailure::Interrupted)), CmdRes::Nothing));
    assert!(matches!(command_from_read(Err(ReadFailure::Other)), CmdRes::Nothing));
    assert!(matches!(command_from_read(Err(ReadFailure::Eof)), CmdRes::Exit));
}

#[test]
fn only_exit_ends_the_motion_loop() {
    assert!(Action::Exit.ends_run());
    assert!(!Action::Circle.ends_run());
}

#[test]
fn topic_keys_and_buffers() {
    assert_eq!(MotorCommands::KEY, "robot/motors");
    assert_eq!(MotorCommands::BUFFER, 5);
    assert_eq!(Voice::KEY, "robot/mic");
    assert_eq!(Voice::BUFFER, 5);
    assert_eq!(SpeakerAudio::KEY, "robot/speaker");
    assert_eq!(SpeakerAudio::BUFFER, 5);
    assert_eq!(CameraFrames::KEY, "robot/camera");
    assert_eq!(CameraFrames::BUFFER, 1);
}

#[test]
fn core_decisions() {
    assert!(matches!(core_step(CoreEvent::Voice(5u8)), CoreAction::AskVoice(5)));
    assert!(matches!(core_step::<u8>(CoreEvent::VoiceFailed), CoreAction::Stop));
    assert!(matches!(
        core_step::<u8>(CoreEvent::Prompt(CmdRes::Line("hi".to_string()))),
        CoreAction::AskLine(s) if s == "hi"
    ));
    assert!(matches!(core_step::<u8>(CoreEvent::Prompt(CmdRes::Nothing)), CoreAction::Reprompt));
    assert!(matches!(core_step::<u8>(CoreEvent::Prompt(CmdRes::Exit)), CoreAction::SendExit));
    assert!(matches!(core_step::<u8>(CoreEvent::PromptFailed), CoreAction::Stop));
}
