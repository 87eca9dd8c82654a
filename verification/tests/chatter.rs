use droid_chatter::{letter_candidates, pick_random_wav, save_audio, select_existing, speech_plan, wav_files, AudioData, DroidChatter, DroidError, DroidType, Mood, Playback, SoundPath};
use std::collections::HashMap;
use std::io::{Cursor, Write};
use std::path::{Path, PathBuf};
use tempfile::{Builder, NamedTempFile, TempDir};

fn wav_bytes(samples: &[i16], sample_rate: u32, channels: u16) -> Vec<u8> {
    let spec = hound::WavSpec {
        channels,
        sample_rate,
        bits_per_sample: 16,
        sample_format: hound::SampleFormat::Int,
    };
    let mut cursor = Cursor::new(Vec::new());
    {
        let mut writer = hound::WavWriter::new(&mut cursor, spec).unwrap();
        for s in samples {
            writer.write_sample(*s).unwrap();
        }
        writer.finalize().unwrap();
    }
    cursor.into_inner()
}

fn make_dir(parent: &Path, name: &str) -> TempDir {
    Builder::new().prefix(name).rand_bytes(0).tempdir_in(parent).unwrap()
}

fn make_file(parent: &Path, stem: &str, suffix: &str, bytes: &[u8]) -> NamedTempFile {
    let mut f = Builder::new()
        .prefix(stem)
        .suffix(suffix)
        .rand_bytes(0)
        .tempfile_in(parent)
        .unwrap();
    f.write_all(bytes).unwrap();
    f
}

/// A sounds directory: bd1/happy holds h, e, l, o; astro holds r, d;
/// do holds hello1.wav; bb8 holds beep.wav.
struct MockSounds {
    root: TempDir,
    _dirs: Vec<TempDir>,
    _files: Vec<NamedTempFile>,
    contents: HashMap<PathBuf, Vec<u8>>,
}

fn mock_sounds() -> MockSounds {
    let root = TempDir::new().unwrap();
    let mut dirs = Vec::new();
    let mut files = Vec::new();
    let mut contents = HashMap::new();

    let bd1 = make_dir(root.path(), "bd1");
    let happy = make_dir(bd1.path(), "happy");
    for (i, letter) in ["h", "e", "l", "o"].iter().enumerate() {
        let bytes = wav_bytes(&[i as i16 * 10, i as i16 * 10 + 1], 22050, 1);
        let f = make_file(happy.path(), letter, ".wav", &bytes);
        contents.insert(f.path().to_path_buf(), bytes);
        files.push(f);
    }
    let astro = make_dir(root.path(), "astro");
    for letter in ["r", "d"] {
        let bytes = b"RIFF".to_vec();
        let f = make_file(astro.path(), letter, ".wav", &bytes);
        contents.insert(f.path().to_path_buf(), bytes);
        files.push(f);
    }
    let d_o = make_dir(root.path(), "do");
    files.push(make_file(d_o.path(), "hello1", ".wav", b"RIFF"));
    let bb8 = make_dir(root.path(), "bb8");
    files.push(make_file(bb8.path(), "beep", ".wav", b"RIFF"));

    // Directories are removed after the files in them.
    dirs.push(d_o);
    dirs.push(bb8);
    dirs.push(astro);
    dirs.push(happy);
    dirs.push(bd1);
    MockSounds { root, _dirs: dirs, _files: files, contents }
}

fn files_of(paths: &[SoundPath]) -> Vec<String> {
    paths.iter().map(|p| p.file.clone().unwrap()).collect()
}

#[test]
fn test_new_with_invalid_dir() {
    let result = DroidChatter::new(Path::new("/nonexistent/path"));
    assert!(result.is_err());
}

#[test]
fn new_reports_missing_dir_and_keeps_existing_one() {
    assert!(matches!(
        DroidChatter::new(Path::new("/nonexistent/path")),
        Err(DroidError::NoSoundsDir)
    ));
    let sounds = mock_sounds();
    let chatter = DroidChatter::new(sounds.root.path()).unwrap();
    assert_eq!(chatter.sounds_dir(), sounds.root.path());
    assert!(matches!(
        DroidChatter::from_probe(Path::new("anywhere"), false),
        Err(DroidError::NoSoundsDir)
    ));
    assert!(DroidChatter::from_probe(Path::new("anywhere"), true).is_ok());
}

#[test]
fn build_dir_and_resolve_follow_the_layout() {
    let sounds = mock_sounds();
    let chatter = DroidChatter::new(sounds.root.path()).unwrap();
    let dir = chatter.build_dir(DroidType::Bd1, Some(Mood::Happy));
    assert_eq!(chatter.resolve(&dir), sounds.root.path().join("bd1").join("happy"));
    let astro = chatter.build_dir(DroidType::Astro, None);
    assert_eq!(chatter.resolve(&astro), sounds.root.path().join("astro"));
}

#[test]
fn letter_paths_keep_existing_letters_in_order() {
    let sounds = mock_sounds();
    let chatter = DroidChatter::new(sounds.root.path()).unwrap();
    let paths = chatter.build_letter_paths("Hello, World 1!", DroidType::Bd1, Some(Mood::Happy));
    assert_eq!(files_of(&paths), vec!["h.wav", "e.wav", "l.wav", "l.wav", "o.wav", "o.wav", "l.wav"]);
    for p in &paths {
        assert_eq!(p.droid, DroidType::Bd1);
        assert_eq!(p.mood, Some(Mood::Happy));
        assert!(chatter.resolve(p).exists());
    }
    assert!(chatter.build_letter_paths("hello", DroidType::Bd1, Some(Mood::Sad)).is_empty());
    assert!(chatter.build_letter_paths("123 !?", DroidType::Bd1, Some(Mood::Happy)).is_empty());
    assert!(chatter.build_letter_paths("", DroidType::Astro, None).is_empty());
}

#[test]
fn speech_plans() {
    let sounds = mock_sounds();
    let chatter = DroidChatter::new(sounds.root.path()).unwrap();
    match chatter.astro("R2D2") {
        Playback::Sequence(v) => assert_eq!(files_of(&v), vec!["r.wav", "d.wav"]),
        _ => panic!("expected a sequence"),
    }
    assert!(matches!(chatter.astro("beep"), Playback::Silent));
    match chatter.bd1("hole", Mood::Happy) {
        Playback::Sequence(v) => assert_eq!(files_of(&v), vec!["h.wav", "o.wav", "l.wav", "e.wav"]),
        _ => panic!("expected a sequence"),
    }
    assert!(matches!(chatter.bd1("hole", Mood::Angry), Playback::Silent));
}

#[test]
fn random_speech_uses_only_existing_letters() {
    let sounds = mock_sounds();
    let chatter = DroidChatter::new(sounds.root.path()).unwrap();
    match chatter.bd1_random(30, Mood::Happy) {
        Playback::Sequence(v) => {
            assert!(v.len() <= 30);
            for f in files_of(&v) {
                assert!(["h.wav", "e.wav", "l.wav", "o.wav"].contains(&f.as_str()));
            }
        }
        Playback::Silent => {}
        _ => panic!("unexpected plan"),
    }
    assert!(matches!(chatter.astro_random(0), Playback::Silent));
    assert!(matches!(chatter.bd1_random(5, Mood::Sad), Playback::Silent));
}

#[test]
fn recorded_sounds() {
    let sounds = mock_sounds();
    let chatter = DroidChatter::new(sounds.root.path()).unwrap();
    match chatter.bb8("beep.wav") {
        Playback::Single(p) => {
            assert_eq!(p.droid, DroidType::Bb8);
            assert_eq!(p.mood, None);
            assert_eq!(p.file.as_deref(), Some("beep.wav"));
        }
        _ => panic!("expected a single file"),
    }
    assert!(matches!(chatter.bb8("boop.wav"), Playback::Silent));
    assert!(matches!(chatter.chopper("beep.wav"), Playback::Silent));
    assert!(matches!(chatter.mouse("x.wav"), Playback::Silent));
    assert!(matches!(chatter.probe("complete.wav"), Playback::Silent));
    assert!(matches!(chatter.r2("1.wav"), Playback::Silent));
    assert!(matches!(chatter.play_droid_sound(DroidType::Bb8, "beep.wav"), Playback::Single(_)));
}

#[test]
fn d_o_phrases() {
    let sounds = mock_sounds();
    let chatter = DroidChatter::new(sounds.root.path()).unwrap();
    match chatter.do_("HeLLo1") {
        Playback::Single(p) => {
            assert_eq!(p.droid, DroidType::Do);
            assert_eq!(p.file.as_deref(), Some("hello1.wav"));
        }
        _ => panic!("expected a single file"),
    }
    match chatter.do_("RANDOM") {
        Playback::RandomIn(d) => {
            assert_eq!(d.droid, DroidType::Do);
            assert_eq!(d.mood, None);
            assert!(d.file.is_none());
        }
        _ => panic!("expected a random pick"),
    }
    assert!(matches!(chatter.do_("iamdo"), Playback::Silent));
}

#[test]
fn phrase_audio_joins_letter_clips() {
    let sounds = mock_sounds();
    let chatter = DroidChatter::new(sounds.root.path()).unwrap();
    let load = |p: &PathBuf| sounds.contents.get(p).cloned();
    let a = chatter.bd1_audio("hole", Mood::Happy, load).unwrap();
    assert_eq!(a.samples, vec![0, 1, 30, 31, 20, 21, 10, 11]);
    assert_eq!(a.sample_rate, 22050);
    assert_eq!(a.channels, 1);
    assert_eq!(a.frames(), 8);
    let same = chatter
        .get_audio_data("hole", DroidType::Bd1, Some(Mood::Happy), |p: &PathBuf| sounds.contents.get(p).cloned())
        .unwrap();
    assert_eq!(same.samples, a.samples);
}

#[test]
fn phrase_audio_errors() {
    let sounds = mock_sounds();
    let chatter = DroidChatter::new(sounds.root.path()).unwrap();
    let load = |p: &PathBuf| sounds.contents.get(p).cloned();
    match chatter.astro_audio("beep", load) {
        Err(DroidError::SoundNotFound(m)) => assert_eq!(m, "No sound files found"),
        _ => panic!("expected no sound files"),
    }
    // astro's letter files exist but are no WAV files.
    match chatter.astro_audio("r2d2", |p: &PathBuf| sounds.contents.get(p).cloned()) {
        Err(DroidError::SoundNotFound(m)) => assert_eq!(m, "No audio data"),
        _ => panic!("expected no audio data"),
    }
    // A loader that reads nothing gives no audio either.
    match chatter.bd1_audio("hello", Mood::Happy, |_p: &PathBuf| None) {
        Err(DroidError::SoundNotFound(m)) => assert_eq!(m, "No audio data"),
        _ => panic!("expected no audio data"),
    }
}

#[test]
fn phrase_to_file_hands_the_phrase_audio_to_the_store() {
    let sounds = mock_sounds();
    let chatter = DroidChatter::new(sounds.root.path()).unwrap();
    let mut saved: Option<(PathBuf, Vec<i16>)> = None;
    let r = chatter.bd1_to_file(
        "eh",
        Mood::Happy,
        Path::new("out.wav"),
        |p: &PathBuf| sounds.contents.get(p).cloned(),
        |p: &Path, a: droid_chatter::AudioData| {
            saved = Some((p.to_path_buf(), a.samples));
            Ok(())
        },
    );
    assert!(r.is_ok());
    assert_eq!(saved, Some((PathBuf::from("out.wav"), vec![10, 11, 0, 1])));
}

#[test]
fn phrase_to_file_returns_store_errors_and_audio_errors() {
    let sounds = mock_sounds();
    let chatter = DroidChatter::new(sounds.root.path()).unwrap();
    let r = chatter.phrase_to_file(
        "he",
        DroidType::Bd1,
        Some(Mood::Happy),
        Path::new("out.wav"),
        |p: &PathBuf| sounds.contents.get(p).cloned(),
        |_p: &Path, _a: droid_chatter::AudioData| Err(DroidError::PlaybackError("disk full".to_string())),
    );
    assert!(matches!(r, Err(DroidError::PlaybackError(m)) if m == "disk full"));
    let mut called = false;
    let r = chatter.astro_to_file(
        "xyz",
        Path::new("out.wav"),
        |p: &PathBuf| sounds.contents.get(p).cloned(),
        |_p: &Path, _a: droid_chatter::AudioData| {
            called = true;
            Ok(())
        },
    );
    assert!(matches!(r, Err(DroidError::SoundNotFound(m)) if m == "No sound files found"));
    assert!(!called);
}

#[test]
fn file_plan_follows_the_probe() {
    let path = SoundPath { droid: DroidType::R2, mood: None, file: Some("1.wav".to_string()) };
    match droid_chatter::file_plan(path, true) {
        Playback::Single(p) => {
            assert_eq!(p.droid, DroidType::R2);
            assert_eq!(p.file.as_deref(), Some("1.wav"));
        }
        _ => panic!("expected a single file"),
    }
    let path = SoundPath { droid: DroidType::R2, mood: None, file: Some("1.wav".to_string()) };
    assert!(matches!(droid_chatter::file_plan(path, false), Playback::Silent));
}

#[test]
fn letter_candidates_name_every_letter_in_order() {
    let c = letter_candidates("Hi, R2!", DroidType::Astro, None);
    assert_eq!(files_of(&c), vec!["h.wav", "i.wav", "r.wav"]);
    assert!(c.iter().all(|p| p.droid == DroidType::Astro && p.mood.is_none()));
    assert!(letter_candidates("", DroidType::Bd1, Some(Mood::Sad)).is_empty());
}

#[test]
fn select_existing_keeps_flagged_paths_in_order() {
    let c = letter_candidates("abcd", DroidType::Bd1, Some(Mood::Happy));
    let kept = select_existing(&c, &vec![true, false, false, true]);
    assert_eq!(files_of(&kept), vec!["a.wav", "d.wav"]);
    assert!(select_existing(&c, &vec![false; 4]).is_empty());
    assert_eq!(files_of(&select_existing(&c, &vec![true; 4])), vec!["a.wav", "b.wav", "c.wav", "d.wav"]);
}

#[test]
fn probe_all_answers_per_path() {
    let sounds = mock_sounds();
    let chatter = DroidChatter::new(sounds.root.path()).unwrap();
    let c = letter_candidates("hex", DroidType::Bd1, Some(Mood::Happy));
    assert_eq!(chatter.probe_all(&c), vec![true, true, false]);
}

#[test]
fn wav_files_and_random_pick() {
    let paths = vec![
        PathBuf::from("do/a.wav"),
        PathBuf::from("do"),
        PathBuf::from("do/b.WAV"),
        PathBuf::from("do/.wav"),
        PathBuf::from("do/c.wav"),
        PathBuf::from("do/d.wav.txt"),
    ];
    assert_eq!(wav_files(paths.clone()), vec![PathBuf::from("do/a.wav"), PathBuf::from("do/c.wav")]);
    let pick = pick_random_wav(paths).unwrap();
    assert!(pick == PathBuf::from("do/a.wav") || pick == PathBuf::from("do/c.wav"));
    assert_eq!(pick_random_wav(vec![PathBuf::from("x.mp3")]), None);
    assert_eq!(pick_random_wav(Vec::new()), None);
}

#[test]
fn speech_plan_follows_found_paths() {
    assert!(matches!(speech_plan(Vec::new()), Playback::Silent));
    let found = letter_candidates("ab", DroidType::Astro, None);
    match speech_plan(found) {
        Playback::Sequence(v) => assert_eq!(files_of(&v), vec!["a.wav", "b.wav"]),
        _ => panic!("expected a sequence"),
    }
}

#[test]
fn audio_of_found_reads_the_given_paths() {
    let sounds = mock_sounds();
    let chatter = DroidChatter::new(sounds.root.path()).unwrap();
    let found = letter_candidates("oh", DroidType::Bd1, Some(Mood::Happy));
    let a = chatter.audio_of_found(&found, |p: &PathBuf| sounds.contents.get(p).cloned()).unwrap();
    assert_eq!(a.samples, vec![30, 31, 0, 1]);
    match chatter.audio_of_found(&Vec::new(), |p: &PathBuf| sounds.contents.get(p).cloned()) {
        Err(DroidError::SoundNotFound(m)) => assert_eq!(m, "No sound files found"),
        _ => panic!("expected no sound files"),
    }
    // Paths whose files the loader does not hold give no audio.
    let missing = letter_candidates("zz", DroidType::Bd1, Some(Mood::Happy));
    match chatter.audio_of_found(&missing, |p: &PathBuf| sounds.contents.get(p).cloned()) {
        Err(DroidError::SoundNotFound(m)) => assert_eq!(m, "No audio data"),
        _ => panic!("expected no audio data"),
    }
}

#[test]
fn save_audio_calls_store_only_with_audio() {
    let mut seen = None;
    let r = save_audio(Ok(AudioData::new(vec![1, 2], 8000, 1)), Path::new("o.wav"), |p: &Path, a: AudioData| {
        seen = Some((p.to_path_buf(), a.samples));
        Ok(())
    });
    assert!(r.is_ok());
    assert_eq!(seen, Some((PathBuf::from("o.wav"), vec![1, 2])));
    let mut called = false;
    let r = save_audio(Err(DroidError::NoSoundsDir), Path::new("o.wav"), |_p: &Path, _a: AudioData| {
        called = true;
        Ok(())
    });
    assert!(matches!(r, Err(DroidError::NoSoundsDir)));
    assert!(!called);
}
