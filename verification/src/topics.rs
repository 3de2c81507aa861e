use vstd::prelude::*;

verus! {

/// The topic of motor commands: fifteen joint angles.
pub struct MotorCommands;

/// The topic of voice messages captured by the microphone.
pub struct Voice;

/// The topic of audio to play on the speaker.
pub struct SpeakerAudio;

/// The topic of camera frames.
pub struct CameraFrames;

impl MotorCommands {
    /// The bus key the topic is published under.
    pub const KEY: &'static str = "robot/motors";
    /// The size of the topic's message buffer.
    pub const BUFFER: usize = 5;
}

impl Voice {
    /// The bus key the topic is published under.
    pub const KEY: &'static str = "robot/mic";
    /// The size of the topic's message buffer.
    pub const BUFFER: usize = 5;
}

impl SpeakerAudio {
    /// The bus key the topic is published under.
    pub const KEY: &'static str = "robot/speaker";
    /// The size of the topic's message buffer.
    pub const BUFFER: usize = 5;
}

impl CameraFrames {
    /// The bus key the topic is published under.
    pub const KEY: &'static str = "robot/camera";
    /// The size of the topic's message buffer.
    pub const BUFFER: usize = 1;
}

} // verus!
