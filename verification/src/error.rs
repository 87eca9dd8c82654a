//! The library's error type.
use vstd::prelude::*;

verus! {

#[verifier::external_type_specification]
#[verifier::external_body]
pub struct ExIoError(std::io::Error);

/// What can go wrong while locating, reading or playing droid sounds.
#[derive(Debug)]
pub enum DroidError {
    /// An input/output operation failed.
    Io(std::io::Error),
    /// A droid name was not recognised.
    InvalidDroid(String),
    /// No sound file, or no audio in the sound files, was found.
    SoundNotFound(String),
    /// The sounds directory does not exist.
    NoSoundsDir,
    /// Audio could not be played, written or downloaded.
    PlaybackError(String),
}

/// The error that reports that a phrase named no sound file that exists.
pub open spec fn is_no_sound_files(e: DroidError) -> bool {
    e matches DroidError::SoundNotFound(m) && m@ == "No sound files found"@
}

/// The error that reports that the sound files held no audio.
pub open spec fn is_no_audio_data(e: DroidError) -> bool {
    e matches DroidError::SoundNotFound(m) && m@ == "No audio data"@
}

impl DroidError {
    /// The error for a phrase that names no existing sound file.
    pub fn no_sound_files() -> (e: DroidError)
        ensures
            is_no_sound_files(e),
    {
        DroidError::SoundNotFound(String::from_str("No sound files found"))
    }

    /// The error for sound files that hold no audio.
    pub fn no_audio_data() -> (e: DroidError)
        ensures
            is_no_audio_data(e),
    {
        DroidError::SoundNotFound(String::from_str("No audio data"))
    }

    /// The error's message, as the error is displayed.
    pub fn message(&self) -> (m: String)
        ensures
            match self {
                DroidError::Io(e) => exists|d: String|
                    #[trigger] vstd::string::to_string_from_display_ensures::<std::io::Error>(e, d)
                        && m@ == "IO error: "@ + d@,
                DroidError::InvalidDroid(s) => m@ == "Invalid droid type: "@ + s@,
                DroidError::SoundNotFound(s) => m@ == "Sound file not found: "@ + s@,
                DroidError::NoSoundsDir => m@ == "No sounds directory provided"@,
                DroidError::PlaybackError(s) => m@ == "Audio playback error: "@ + s@,
            },
    {
        match self {
            DroidError::Io(e) => {
                let d = e.to_string();
                let mut m = String::from_str("IO error: ");
                m.append(d.as_str());
                m
            },
            DroidError::InvalidDroid(s) => {
                let mut m = String::from_str("Invalid droid type: ");
                m.append(s.as_str());
                m
            },
            DroidError::SoundNotFound(s) => {
                let mut m = String::from_str("Sound file not found: ");
                m.append(s.as_str());
                m
            },
            DroidError::NoSoundsDir => String::from_str("No sounds directory provided"),
            DroidError::PlaybackError(s) => {
                let mut m = String::from_str("Audio playback error: ");
                m.append(s.as_str());
                m
            },
        }
    }
}

} // verus!
