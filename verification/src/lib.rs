//! Droid sound generation: droid and mood names, the layout of a sounds
//! directory, letter-by-letter speech planning, WAV decoding and the joining
//! of decoded clips into one audio buffer.
//!
//! The library decides which sound files a request names and what audio they
//! make; reading files, playing and writing audio is left to its caller,
//! which receives a [`Playback`] plan or hands in a file loader.

pub mod audio;
pub mod chatter;
pub mod droid;
pub mod error;
pub mod paths;
pub mod phrases;
pub mod setup;
pub mod text;
pub mod utils;

pub use audio::{AudioData, OUTPUT_BITS_PER_SAMPLE, combine_clips, decode_wav};
pub use chatter::{DroidChatter, Playback, file_plan, letter_candidates, pick_random_wav, save_audio, select_existing, speech_plan, wav_files};
pub use droid::{DroidType, Mood};
pub use error::DroidError;
pub use paths::{SoundPath, resolve};
pub use phrases::phrase_names;
pub use setup::{ArchiveEntry, ArchiveStage, archive_failure_message, archive_target, extraction_steps, is_installed, sound_package_files, sounds_installed};
pub use text::{letter_file, str_equal, strip_prefix, to_ascii_lowercase};
pub use utils::{generate_random_string, index_from_nanos, letters_from_indices, rand_idx};
