# argos

Software for the Argos robot dog. The library under `src/` is verified with
Verus; the programs under `app/` wire it to the devices and the message bus.

- `src/wire.rs` — the camera topic's wire format (postcard), with the proof
  that decoding the encoding of a frame yields the frame.
- `src/gate.rs` — a speaker gate that mutes the microphone while audio plays.
- `src/audio.rs` — down-mixing 16-bit audio to mono, mono-to-stereo playback,
  and filling the output device from the playback queue.
- `src/voice.rs` — gathering voice chunks into messages, with the proof that
  no voice sample is lost, repeated or reordered.
- `src/messages.rs`, `src/image_frame.rs` — camera frames and their images.
- `src/commands.rs`, `src/topics.rs`, `src/error.rs` — prompt outcomes, topic
  keys, bus errors.

`app/main.rs` selects a program by its first argument: `controller` (runs on
the dog), `core` (conversation and motion), `detector`, `mock`, `audio`,
`video`.
