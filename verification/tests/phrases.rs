use droid_chatter::phrase_names;
use std::io::Write;
use std::path::{Path, PathBuf};
use tempfile::{Builder, NamedTempFile, TempDir};
use walkdir::WalkDir;

fn make_file(parent: &Path, stem: &str, suffix: &str, bytes: &[u8]) -> NamedTempFile {
    let mut f = Builder::new()
        .prefix(stem)
        .suffix(suffix)
        .rand_bytes(0)
        .tempfile_in(parent)
        .unwrap();
    f.write_all(bytes).unwrap();
    f
}

/// The files below a directory, as the listing of available phrases walks
/// them.
fn files_below(dir: &Path) -> Vec<PathBuf> {
    WalkDir::new(dir)
        .into_iter()
        .filter_map(|e| e.ok())
        .filter(|e| e.path().is_file())
        .map(|e| e.into_path())
        .collect()
}

#[test]
fn lib_test_get_available_phrases() {
    let tmpdir = TempDir::new().unwrap();
    let sounds = Builder::new().prefix("sounds").rand_bytes(0).tempdir_in(tmpdir.path()).unwrap();
    let d_o = Builder::new().prefix("do").rand_bytes(0).tempdir_in(sounds.path()).unwrap();
    let _a = make_file(d_o.path(), "hello1", ".wav", b"RIFF");
    let _b = make_file(d_o.path(), "batterycharged", ".wav", b"RIFF");

    let phrases = phrase_names(&files_below(&sounds.path().join("do")));
    assert!(phrases.contains(&"hello1".to_string()));
    assert!(phrases.contains(&"batterycharged".to_string()));
}

#[test]
fn utils_test_get_available_phrases() {
    let tmpdir = TempDir::new().unwrap();
    let sounds = tmpdir.path();
    let do_dir = Builder::new().prefix("do").rand_bytes(0).tempdir_in(sounds).unwrap();
    let _a = make_file(do_dir.path(), "hello1", ".wav", b"RIFF");
    let _b = make_file(do_dir.path(), "batterycharged", ".wav", b"RIFF");

    let phrases = phrase_names(&files_below(&sounds.join("do")));
    assert!(phrases.contains(&"hello1".to_string()));
    assert!(phrases.contains(&"batterycharged".to_string()));
}

#[test]
fn phrase_names_are_file_stems_in_order() {
    let files = vec![
        PathBuf::from("do/hello1.wav"),
        PathBuf::from("do/archive.tar.gz"),
        PathBuf::from("do/.hidden"),
        PathBuf::from("do/noext"),
        PathBuf::from("/"),
    ];
    assert_eq!(phrase_names(&files), vec!["hello1", "archive.tar", ".hidden", "noext"]);
    assert!(phrase_names(&Vec::new()).is_empty());
}
