//! Verified core of the Argos robot dog: the camera topic's wire format, the
//! speaker/microphone gate, audio down-mixing, stereo playback and voice
//! segmentation, and the small decisions of the control loops.

mod audio;
mod commands;
mod error;
mod gate;
mod image_frame;
mod messages;
mod outside;
mod topics;
mod voice;
mod wire;

pub use audio::{
    collapse_channels_i16, collapse_channels_u16, div_toward_zero, duplicated, fill_from_queue,
    filled_from, frame_of, lemma_mono_downmix_is_identity, lemma_mono_i16_is_frame_mean,
    lemma_mono_u16_is_frame_mean, mono_i16, mono_u16, sum_i16, sum_u16,
    to_stereo, PlaybackSkip, CHUNK_SIZE, TARGET_SAMPLE_RATE,
};
pub use commands::{command_from_read, core_step, Action, CmdRes, CoreAction, CoreEvent, ReadFailure};
pub use error::CommsError;
pub use gate::{lemma_gate_mutes_for_tail, mute_deadline, muted_at, SpeakerGate, MUTE_TAIL_NS};
pub use image_frame::{
    image_from_frame, rgb_fits, rgb_image_pixels, rgb_image_size, FrameError, RgbFrameImage,
};
pub use messages::{
    fourcc_char, fourcc_text, fourcc_to_string, frame_from_capture, le_byte, CameraFrame,
    CameraFrameView, RG24_FOURCC,
};
pub use topics::{CameraFrames, MotorCommands, SpeakerAudio, Voice};
pub use voice::{
    concat_chunks, lemma_run_ending_in_silence_sends_all, lemma_segmentation_keeps_voice,
    lemma_silence_flushes, segment_run, segment_step, voiced_samples,
    VoiceSegmenter,
};
pub use wire::{
    camera_wire, camera_wire_decoded, decode_camera_frame, encode_camera_frame, fields_view,
    lemma_camera_wire_round_trip, lemma_camera_wire_unique, lemma_varint_unique,
    lemma_loose_layout_unique, lemma_varint_prefix_unique, lemma_wire_form_is_loose,
    loose_layout, postcard_reads_frame, read_layout, loosely_starts_with_frame, pow128, starts_with_frame,
    varint, varint_prefix,
};
