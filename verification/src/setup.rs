//! Installing the sounds: when a sounds directory is complete, and where the
//! files of the sound package go.
use flate2::read::GzDecoder;
use std::io::{Error, Read};
use tar::Archive;
use std::path::Path;
use vstd::prelude::*;

use crate::droid::{DroidType, Mood};
use crate::paths::{SoundPath, SoundPathView, probe, probe_answer, surely_absent, surely_present};
use crate::text::strip_prefix;
use self::ArchiveStage::{TarContent, TarEntry, TarOpen, TarPath};

verus! {

/// The directory of the sound package's archive that holds the sounds.
pub open spec fn package_sounds_prefix() -> Seq<char> {
    "package/sounds/"@
}

/// Where an entry of the sound package goes below the sounds directory: the
/// part of its path after "package/sounds/", or nowhere when its path does
/// not start so.
pub open spec fn archive_target_of(entry: Seq<char>) -> Option<Seq<char>> {
    let n = package_sounds_prefix().len();
    if n <= entry.len() && entry.take(n as int) == package_sounds_prefix() {
        Some(entry.skip(n as int))
    } else {
        None
    }
}

/// Where an entry of the sound package's archive is extracted to, relative
/// to the sounds directory; `None` for entries outside its sounds.
pub fn archive_target(entry_path: &str) -> (r: Option<String>)
    ensures
        match r {
            Some(t) => archive_target_of(entry_path@) == Some(t@),
            None => archive_target_of(entry_path@) is None,
        },
{
    match strip_prefix(entry_path, "package/sounds/") {
        Some(rest) => Some(String::from_str(rest)),
        None => None,
    }
}

/// Every entry below the package's sounds directory is extracted to the same
/// relative path below the sounds directory.
pub proof fn lemma_archive_target_of_prefixed(rest: Seq<char>)
    ensures
        archive_target_of(package_sounds_prefix() + rest) == Some(rest),
{
    let e = package_sounds_prefix() + rest;
    assert(e.take(package_sounds_prefix().len() as int) =~= package_sounds_prefix());
    assert(e.skip(package_sounds_prefix().len() as int) =~= rest);
}

/// An entry of the sound package's archive: its path, whether it is a
/// regular file, and its content.
pub struct ArchiveEntry {
    pub path: String,
    pub is_file: bool,
    pub data: Vec<u8>,
}

impl View for ArchiveEntry {
    type V = (Seq<char>, bool, Seq<u8>);

    open spec fn view(&self) -> (Seq<char>, bool, Seq<u8>) {
        (self.path@, self.is_file, self.data@)
    }
}

/// The entries' views, in order.
pub open spec fn entries_view(v: Seq<ArchiveEntry>) -> Seq<(Seq<char>, bool, Seq<u8>)> {
    v.map_values(|e: ArchiveEntry| e@)
}

/// Which step of reading the archive failed.
#[derive(Debug, Clone, Copy, PartialEq, Eq, Structural)]
pub enum ArchiveStage {
    /// Opening the archive's entries.
    TarOpen,
    /// Reading the next entry.
    TarEntry,
    /// Reading an entry's path.
    TarPath,
    /// Reading an entry's content.
    TarContent,
}

/// A failed step of reading the archive, with the failure's text.
pub type ArchiveFailure = (ArchiveStage, String);

/// The entries read from an archive, in order, and the failure that stopped
/// reading, if any.
pub type ArchiveRead = (Vec<ArchiveEntry>, Option<ArchiveFailure>);

/// What flate2 and tar make of a gzip-compressed tar archive: the entries
/// read, in archive order, up to the first failure, and, if reading failed,
/// the step that failed with the failure's text.
pub uninterp spec fn tgz_entries(bytes: Seq<u8>) -> (Seq<(Seq<char>, bool, Seq<u8>)>, Option<(ArchiveStage, Seq<char>)>);

/// The entries read and the failure, as values.
pub open spec fn tgz_view(r: ArchiveRead) -> (Seq<(Seq<char>, bool, Seq<u8>)>, Option<(ArchiveStage, Seq<char>)>) {
    (entries_view(r.0@), match r.1 {
        Some((st, m)) => Some((st, m@)),
        None => None,
    })
}

/// Reads a gzip-compressed tar archive held in memory with
/// `flate2::read::GzDecoder` and `tar::Archive::entries`: for each entry in
/// archive order, its path (`Entry::path`, lossily as text), its content
/// (`Read::read_to_end`) and whether it is a regular file
/// (`EntryType::is_file`), stopping at the first failure, which is returned
/// as the step that failed and the error's text (`io::Error`'s display).
/// The result is named [`tgz_entries`].
#[verifier::external_body]
fn read_tgz(bytes: &[u8]) -> (r: ArchiveRead)
    ensures
        tgz_entries(bytes@) == tgz_view(r),
{
    let mut out = Vec::new();
    let mut ar = Archive::new(GzDecoder::new(bytes));
    let failure = (|| -> Result<(), ArchiveFailure> {
        let at = |s| move |e: Error| (s, e.to_string());
        for entry in ar.entries().map_err(at(TarOpen))? {
            let mut en = entry.map_err(at(TarEntry))?;
            let path = en.path().map_err(at(TarPath))?.to_string_lossy().into();
            let mut data = vec![];
            en.read_to_end(&mut data).map_err(at(TarContent))?;
            out.push(ArchiveEntry { path, is_file: en.header().entry_type().is_file(), data });
        }
        Ok(())
    })().err();
    (out, failure)
}

/// The text that reports a failed step of reading the sound package.
pub open spec fn archive_failure_text(stage: ArchiveStage, text: Seq<char>) -> Seq<char> {
    archive_stage_prefix(stage) + text
}

/// The words that name a failed step of reading the sound package.
pub open spec fn archive_stage_prefix(stage: ArchiveStage) -> Seq<char> {
    match stage {
        ArchiveStage::TarOpen => "Tar error: "@,
        ArchiveStage::TarEntry => "Entry error: "@,
        ArchiveStage::TarPath => "Path error: "@,
        ArchiveStage::TarContent => "Unpack error: "@,
    }
}

/// Reports a failed step of reading the sound package: "Tar error: ",
/// "Entry error: ", "Path error: " or "Unpack error: " followed by the
/// failure's text.
pub fn archive_failure_message(stage: ArchiveStage, text: &str) -> (r: String)
    ensures
        r@ == archive_failure_text(stage, text@),
{
    let mut m = match stage {
        ArchiveStage::TarOpen => String::from_str("Tar error: "),
        ArchiveStage::TarEntry => String::from_str("Entry error: "),
        ArchiveStage::TarPath => String::from_str("Path error: "),
        ArchiveStage::TarContent => String::from_str("Unpack error: "),
    };
    m.append(text);
    m
}

/// What extracting the entries does, in archive order: each entry below
/// "package/sounds/" becomes an entry at its target path below the sounds
/// directory, with its kind and content; other entries are left out.
pub open spec fn extraction_of(entries: Seq<(Seq<char>, bool, Seq<u8>)>) -> Seq<(Seq<char>, bool, Seq<u8>)>
    decreases entries.len(),
{
    if entries.len() == 0 {
        Seq::empty()
    } else {
        let (path, is_file, data) = entries.last();
        extraction_of(entries.drop_last()) + match archive_target_of(path) {
            Some(t) => seq![(t, is_file, data)],
            None => Seq::empty(),
        }
    }
}

/// The entries to extract, in archive order, each with its path replaced by
/// its target below the sounds directory; entries outside the package's
/// sounds are left out.
pub fn extraction_steps(entries: Vec<ArchiveEntry>) -> (r: Vec<ArchiveEntry>)
    ensures
        entries_view(r@) == extraction_of(entries_view(entries@)),
{
    let ghost all = entries_view(entries@);
    let mut rest = entries;
    let mut out: Vec<ArchiveEntry> = Vec::new();
    let n = rest.len();
    let mut i: usize = 0;
    while rest.len() > 0
        invariant
            all.len() == n,
            i + rest@.len() == all.len(),
            entries_view(rest@) == all.skip(i as int),
            entries_view(out@) == extraction_of(all.take(i as int)),
        decreases rest.len(),
    {
        let ghost before_rest = rest@;
        let e = rest.remove(0);
        assert(entries_view(before_rest)[0] == e@);
        assert(all[i as int] == e@) by {
            assert(all.skip(i as int)[0] == all[i as int]);
        }
        assert(entries_view(rest@) =~= all.skip(i + 1)) by {
            assert(rest@ =~= before_rest.subrange(1, before_rest.len() as int));
            assert forall|k: int| 0 <= k < rest@.len() implies entries_view(rest@)[k] == all.skip(i + 1)[k] by {
                assert(entries_view(rest@)[k] == rest@[k]@);
                assert(rest@[k] == before_rest[k + 1]);
                assert(entries_view(before_rest)[k + 1] == all.skip(i as int)[k + 1]);
            }
        }
        assert(all.take(i + 1).drop_last() =~= all.take(i as int));
        assert(all.take(i + 1).last() == e@);
        match archive_target(e.path.as_str()) {
            Some(t) => {
                let ghost before = out@;
                out.push(ArchiveEntry { path: t, is_file: e.is_file, data: e.data });
                assert(entries_view(out@) =~= entries_view(before).push(out@.last()@));
            },
            None => {},
        }
        i = i + 1;
    }
    assert(all.take(i as int) =~= all);
    out
}

/// The files of the sound package held in `bytes` (a gzip-compressed tar
/// archive), in archive order, each at its target path below the sounds
/// directory, and the message of the failure that stopped reading, if any.
pub fn sound_package_files(bytes: &[u8]) -> (r: (Vec<ArchiveEntry>, Option<String>))
    ensures
        entries_view(r.0@) == extraction_of(tgz_entries(bytes@).0),
        match tgz_entries(bytes@).1 {
            Some((stage, text)) => r.1 matches Some(m) && m@ == archive_failure_text(stage, text),
            None => r.1 is None,
        },
{
    let (entries, failure) = read_tgz(bytes);
    let failure = match failure {
        Some((stage, text)) => Some(archive_failure_message(stage, text.as_str())),
        None => None,
    };
    (extraction_steps(entries), failure)
}

/// The sound paths whose presence shows that the sounds are installed: BD-1's
/// happy directory, the astromech directory, and BD-1's happy "a" letter.
pub open spec fn install_markers() -> Seq<SoundPathView> {
    seq![
        SoundPathView { droid: DroidType::Bd1, mood: Some(Mood::Happy), file: None },
        SoundPathView { droid: DroidType::Astro, mood: None, file: None },
        SoundPathView { droid: DroidType::Bd1, mood: Some(Mood::Happy), file: Some("a.wav"@) },
    ]
}

/// The sounds count as installed when all three markers are present.
pub fn is_installed(bd1_happy_dir: bool, astro_dir: bool, bd1_letter_a: bool) -> (r: bool)
    ensures
        r == (bd1_happy_dir && astro_dir && bd1_letter_a),
{
    if bd1_happy_dir && astro_dir {
        if bd1_letter_a {
            return true;
        }
    }
    false
}

/// The marker paths, in the order of [`install_markers`].
pub fn install_marker_paths() -> (r: Vec<SoundPath>)
    ensures
        r@.len() == 3,
        forall|i: int| 0 <= i < 3 ==> (#[trigger] r@[i])@ == install_markers()[i],
{
    let mut v: Vec<SoundPath> = Vec::new();
    v.push(SoundPath { droid: DroidType::Bd1, mood: Some(Mood::Happy), file: None });
    v.push(SoundPath { droid: DroidType::Astro, mood: None, file: None });
    v.push(SoundPath { droid: DroidType::Bd1, mood: Some(Mood::Happy), file: Some(String::from_str("a.wav")) });
    v
}

/// The markers are checked in order, each only while the ones before it
/// were reported present: `a`, `b` and `c` are the answers of the file
/// system for BD-1's happy directory, the astromech directory and BD-1's
/// happy "a" letter below `root` (an unasked marker counts as absent), and
/// `r` says whether all three were reported present.
pub open spec fn installed_from(root: &Path, a: bool, b: bool, c: bool, r: bool) -> bool {
    &&& probe_answer(root, install_markers()[0], a)
    &&& (a ==> probe_answer(root, install_markers()[1], b)) && (!a ==> !b)
    &&& (a && b ==> probe_answer(root, install_markers()[2], c)) && (!(a && b) ==> !c)
    &&& r == (a && b && c)
}

/// Whether the sounds below `dest_dir` are installed: the markers are looked
/// up on disk in order, and the answer is [`is_installed`] of what was found.
pub fn sounds_installed(dest_dir: &Path) -> (r: bool)
    ensures
        exists|a: bool, b: bool, c: bool| #[trigger] installed_from(dest_dir, a, b, c, r),
{
    let markers = install_marker_paths();
    let bd1_happy_dir = probe(dest_dir, &markers[0]);
    let astro_dir = if bd1_happy_dir {
        probe(dest_dir, &markers[1])
    } else {
        false
    };
    let bd1_letter_a = if bd1_happy_dir && astro_dir {
        probe(dest_dir, &markers[2])
    } else {
        false
    };
    let r = is_installed(bd1_happy_dir, astro_dir, bd1_letter_a);
    assert(installed_from(dest_dir, bd1_happy_dir, astro_dir, bd1_letter_a, r));
    r
}

/// The sounds count as installed exactly when every marker is reported
/// present; where the file system can only report the three markers
/// present, they are installed, and where it can only report BD-1's happy
/// directory absent, they are not.
pub proof fn lemma_installed_follows_disk(root: &Path, r: bool)
    requires
        exists|a: bool, b: bool, c: bool| #[trigger] installed_from(root, a, b, c, r),
    ensures
        surely_present(root, install_markers()[0]) && surely_present(root, install_markers()[1])
            && surely_present(root, install_markers()[2]) ==> r,
        surely_absent(root, install_markers()[0]) ==> !r,
{
    let (a, b, c) = choose|a: bool, b: bool, c: bool| #[trigger] installed_from(root, a, b, c, r);
    assert(probe_answer(root, install_markers()[0], a));
    if a {
        assert(probe_answer(root, install_markers()[1], b));
        if b {
            assert(probe_answer(root, install_markers()[2], c));
        }
    }
}

} // verus!
