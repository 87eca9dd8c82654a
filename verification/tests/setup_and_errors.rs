use droid_chatter::{archive_failure_message, archive_target, ArchiveStage, extraction_steps, is_installed, sound_package_files, sounds_installed, str_equal, strip_prefix, ArchiveEntry, DroidError};
use std::path::Path;
use tempfile::{Builder, TempDir};

#[test]
fn archive_targets() {
    assert_eq!(archive_target("package/sounds/bd1/happy/a.wav").as_deref(), Some("bd1/happy/a.wav"));
    assert_eq!(archive_target("package/sounds/").as_deref(), Some(""));
    assert_eq!(archive_target("package/README.md"), None);
    assert_eq!(archive_target("package/sound"), None);
    assert_eq!(archive_target("sounds/package/sounds/x"), None);
}

#[test]
fn installed_only_with_all_markers() {
    assert!(is_installed(true, true, true));
    assert!(!is_installed(false, true, true));
    assert!(!is_installed(true, false, true));
    assert!(!is_installed(true, true, false));
}

#[test]
fn sounds_installed_checks_the_disk() {
    assert!(!sounds_installed(Path::new("/nonexistent/path")));
    let root = TempDir::new().unwrap();
    assert!(!sounds_installed(root.path()));
    let bd1 = Builder::new().prefix("bd1").rand_bytes(0).tempdir_in(root.path()).unwrap();
    let happy = Builder::new().prefix("happy").rand_bytes(0).tempdir_in(bd1.path()).unwrap();
    let astro = Builder::new().prefix("astro").rand_bytes(0).tempdir_in(root.path()).unwrap();
    assert!(!sounds_installed(root.path()));
    let a = Builder::new().prefix("a").suffix(".wav").rand_bytes(0).tempfile_in(happy.path()).unwrap();
    assert!(sounds_installed(root.path()));
    drop(a);
    drop(astro);
    drop(happy);
    drop(bd1);
}

#[test]
fn error_messages() {
    assert_eq!(DroidError::InvalidDroid("x".to_string()).message(), "Invalid droid type: x");
    assert_eq!(DroidError::SoundNotFound("No audio data".to_string()).message(), "Sound file not found: No audio data");
    assert_eq!(DroidError::NoSoundsDir.message(), "No sounds directory provided");
    assert_eq!(DroidError::PlaybackError("boom".to_string()).message(), "Audio playback error: boom");
    let io = std::io::Error::new(std::io::ErrorKind::Other, "disk on fire");
    assert_eq!(DroidError::Io(io).message(), "IO error: disk on fire");
    assert!(matches!(DroidError::no_sound_files(), DroidError::SoundNotFound(m) if m == "No sound files found"));
    assert!(matches!(DroidError::no_audio_data(), DroidError::SoundNotFound(m) if m == "No audio data"));
}

fn tgz(entries: &[(&str, &[u8])], dirs: &[&str]) -> Vec<u8> {
    let gz = flate2::write::GzEncoder::new(Vec::new(), flate2::Compression::default());
    let mut builder = tar::Builder::new(gz);
    for d in dirs {
        let mut header = tar::Header::new_gnu();
        header.set_entry_type(tar::EntryType::Directory);
        header.set_size(0);
        header.set_mode(0o755);
        header.set_cksum();
        builder.append_data(&mut header, d, &[][..]).unwrap();
    }
    for (path, data) in entries {
        let mut header = tar::Header::new_gnu();
        header.set_size(data.len() as u64);
        header.set_mode(0o644);
        header.set_cksum();
        builder.append_data(&mut header, path, *data).unwrap();
    }
    builder.into_inner().unwrap().finish().unwrap()
}

#[test]
fn sound_package_files_keeps_sounds_in_order() {
    let bytes = tgz(
        &[
            ("package/package.json", b"{}"),
            ("package/sounds/bd1/happy/a.wav", b"RIFF-a"),
            ("package/sounds/astro/b.wav", b"RIFF-b"),
        ],
        &["package/sounds/bd1/"],
    );
    let (files, failure) = sound_package_files(&bytes);
    assert!(failure.is_none());
    let got: Vec<(String, bool, Vec<u8>)> = files.into_iter().map(|e| (e.path, e.is_file, e.data)).collect();
    assert_eq!(
        got,
        vec![
            ("bd1/".to_string(), false, vec![]),
            ("bd1/happy/a.wav".to_string(), true, b"RIFF-a".to_vec()),
            ("astro/b.wav".to_string(), true, b"RIFF-b".to_vec()),
        ]
    );
}

#[test]
fn sound_package_files_reports_bad_archives() {
    let (files, failure) = sound_package_files(b"this is not gzip");
    assert!(files.is_empty());
    let message = failure.unwrap();
    assert!(message.ends_with(message.split(": ").last().unwrap()));
    assert!(
        message.starts_with("Tar error: ") || message.starts_with("Entry error: "),
        "unexpected {}",
        message
    );
}

#[test]
fn extraction_steps_map_targets() {
    let entries = vec![
        ArchiveEntry { path: "package/sounds/r2/1.wav".to_string(), is_file: true, data: vec![1] },
        ArchiveEntry { path: "other/x".to_string(), is_file: true, data: vec![2] },
        ArchiveEntry { path: "package/sounds/do/".to_string(), is_file: false, data: vec![] },
    ];
    let steps = extraction_steps(entries);
    assert_eq!(steps.len(), 2);
    assert_eq!(steps[0].path, "r2/1.wav");
    assert_eq!(steps[0].data, vec![1]);
    assert_eq!(steps[1].path, "do/");
    assert!(!steps[1].is_file);
}

#[test]
fn string_helpers() {
    assert!(str_equal("random", "random"));
    assert!(!str_equal("random", "Random"));
    assert!(!str_equal("rand", "random"));
    assert_eq!(strip_prefix("package/sounds/a", "package/"), Some("sounds/a"));
    assert_eq!(strip_prefix("pack", "package/"), None);
    assert_eq!(strip_prefix("éa", "é"), Some("a"));
}

#[test]
fn archive_failure_messages() {
    assert_eq!(archive_failure_message(ArchiveStage::TarOpen, "bad"), "Tar error: bad");
    assert_eq!(archive_failure_message(ArchiveStage::TarEntry, "bad"), "Entry error: bad");
    assert_eq!(archive_failure_message(ArchiveStage::TarPath, "bad"), "Path error: bad");
    assert_eq!(archive_failure_message(ArchiveStage::TarContent, "bad"), "Unpack error: bad");
}
