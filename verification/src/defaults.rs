//! Default values. Seconds and levels are given in thousandths.
use vstd::prelude::*;

verus! {

/// Capacity of the channel that commands to the daemon go through.
pub const COMMAND_CHANNEL_CAPACITY: usize = 32;

/// Capacity of the channel from a recording to the dialog.
pub const UI_MESSAGE_CHANNEL_CAPACITY: usize = 128;

/// Capacity of the channel from a multi-slot handler to the dialog.
pub const HANDLER_CHANNEL_CAPACITY: usize = 32;

/// How long to wait for a chunk of audio.
pub const CHUNK_RECV_TIMEOUT_MILLIS: u64 = 100;

/// How long to wait between two looks at PulseAudio's connection.
pub const PULSE_POLL_INTERVAL_MILLIS: u64 = 10;

/// How long to wait between two looks at what PulseAudio answers.
pub const PULSE_INTROSPECT_POLL_INTERVAL_MILLIS: u64 = 100;

/// How often to look at PulseAudio's connection before giving up.
pub const PULSE_READY_MAX_ITERATIONS: u32 = 100;

/// How long to wait for Kitty to answer.
pub const KITTY_SOCKET_TIMEOUT_MILLIS: u64 = 2000;

/// How long an error is shown before the dialog closes.
pub const ERROR_DISPLAY_DURATION_MILLIS: u64 = 2000;

/// Width of the picture that shows a slot's number.
pub const SLOT_IMAGE_WIDTH: u32 = 1920;

/// Height of the picture that shows a slot's number.
pub const SLOT_IMAGE_HEIGHT: u32 = 1080;

/// Height of the digit in that picture.
pub const SLOT_IMAGE_FONT_SCALE: u32 = 400;

/// Distance of the digit from the edges of that picture.
pub const SLOT_IMAGE_CORNER_PADDING: u32 = 20;

/// Seconds of silence that end a recording.
pub const SILENCE_DURATION_MILLIS: u32 = 2000;

/// The level above which a chunk counts as speech.
pub const SILENCE_THRESHOLD_MILLIS: u32 = 2;

/// Seconds of speech that a recording needs before silence can end it.
pub const MIN_SPEECH_DURATION_MILLIS: u32 = 500;

/// Samples in a chunk.
pub const CHUNK_SIZE: usize = 1024;

/// Seconds between two transcriptions while recording.
pub const PERIODIC_TRANSCRIPTION_INTERVAL_MILLIS: u32 = 1000;

/// Seconds of audio that are confirmed at a time.
pub const TRANSCRIPTION_WINDOW_MILLIS: u32 = 5000;

/// Seconds before audio is confirmed.
pub const TRANSCRIPTION_LAG_MILLIS: u32 = 1000;

/// The Whisper model.
pub const MODEL: &'static str = "base";

/// The language to transcribe.
pub const LANGUAGE: &'static str = "en";

/// The name of the daemon's socket.
pub const SOCKET_NAME: &'static str = "stentor.sock";

/// The background colour of a Kitty window.
pub const KITTY_BASE_BACKGROUND: &'static str = "#1e1e2e";

/// The font for the number of a slot.
pub const SLOT_ID_FONT: &'static str = "monospace:bold";

} // verus!
