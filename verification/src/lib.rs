//! The logic of Stentor, a daemon for real-time voice transcription.
//!
//! Audio comes in chunks, is transcribed over a sliding window, and the text goes to
//! the windows of a terminal, to an output command or to review in a dialog. This
//! library holds the decisions; it touches no device, socket or window itself.
pub mod audio;
pub mod color;
pub mod config;
pub mod daemon;
pub mod daemon_app;
pub mod defaults;
pub mod dialog;
pub mod json;
pub mod kitty;
pub mod mic_mute;
pub mod multi_slot;
pub mod palette;
pub mod pulse;
pub mod recording;
pub mod slot_images;
pub mod spans;
pub mod text;
pub mod transcript;
pub mod transcription;
