use droid_chatter::{combine_clips, decode_wav, AudioData, DroidError};
use std::io::Cursor;

fn wav_bytes(samples: &[i16], sample_rate: u32, channels: u16) -> Vec<u8> {
    let spec = hound::WavSpec {
        channels,
        sample_rate,
        bits_per_sample: 16,
        sample_format: hound::SampleFormat::Int,
    };
    let mut cursor = Cursor::new(Vec::new());
    {
        let mut writer = hound::WavWriter::new(&mut cursor, spec).unwrap();
        for s in samples {
            writer.write_sample(*s).unwrap();
        }
        writer.finalize().unwrap();
    }
    cursor.into_inner()
}

#[test]
fn audio_data_new_and_frames() {
    let a = AudioData::new(vec![1, 2, 3, 4, 5], 22050, 2);
    assert_eq!(a.samples, vec![1, 2, 3, 4, 5]);
    assert_eq!(a.sample_rate, 22050);
    assert_eq!(a.channels, 2);
    assert_eq!(a.frames(), 2);
    assert_eq!(AudioData::new(vec![7; 6], 8000, 3).frames(), 2);
    assert_eq!(AudioData::new(vec![], 8000, 1).frames(), 0);
}

#[test]
fn decode_wav_reads_samples_and_format() {
    let bytes = wav_bytes(&[10, -20, 30, -40], 16000, 2);
    let a = decode_wav(&bytes).unwrap();
    assert_eq!(a.samples, vec![10, -20, 30, -40]);
    assert_eq!(a.sample_rate, 16000);
    assert_eq!(a.channels, 2);
}

#[test]
fn decode_wav_rejects_non_wav_bytes() {
    assert!(decode_wav(b"RIFF").is_none());
    assert!(decode_wav(b"").is_none());
    assert!(decode_wav(b"not a wav file at all, just text").is_none());
}

#[test]
fn combine_clips_joins_in_order_with_last_format() {
    let clips = vec![
        Some(AudioData::new(vec![1, 2], 8000, 1)),
        None,
        Some(AudioData::new(vec![3, 4, 5, 6], 22050, 2)),
        None,
    ];
    let a = combine_clips(&clips).unwrap();
    assert_eq!(a.samples, vec![1, 2, 3, 4, 5, 6]);
    assert_eq!(a.sample_rate, 22050);
    assert_eq!(a.channels, 2);
}

#[test]
fn combine_clips_takes_format_of_last_clip_even_if_silent() {
    let clips = vec![
        Some(AudioData::new(vec![1, 2], 8000, 1)),
        Some(AudioData::new(vec![], 48000, 2)),
    ];
    let a = combine_clips(&clips).unwrap();
    assert_eq!(a.samples, vec![1, 2]);
    assert_eq!(a.sample_rate, 48000);
    assert_eq!(a.channels, 2);
}

#[test]
fn combine_clips_without_samples_fails() {
    let none: Vec<Option<AudioData>> = vec![None, Some(AudioData::new(vec![], 8000, 1))];
    match combine_clips(&none) {
        Err(DroidError::SoundNotFound(m)) => assert_eq!(m, "No audio data"),
        other => panic!("unexpected {:?}", other),
    }
    match combine_clips(&Vec::new()) {
        Err(DroidError::SoundNotFound(m)) => assert_eq!(m, "No audio data"),
        other => panic!("unexpected {:?}", other),
    }
}

#[test]
fn decoded_clips_combine_to_their_concatenation() {
    let first = decode_wav(&wav_bytes(&[1, 2, 3], 44100, 1));
    let second = decode_wav(&wav_bytes(&[4, 5], 44100, 1));
    let a = combine_clips(&vec![first, None, second]).unwrap();
    assert_eq!(a.samples, vec![1, 2, 3, 4, 5]);
    assert_eq!(a.frames(), 5);
}
