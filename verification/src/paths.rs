//! Locations of sound files inside a sounds directory.
//!
//! Every file the library looks for lies at `root/droid[/mood][/file]`: a
//! [`SoundPath`] holds those parts as plain values, and a `PathBuf` is only
//! built from them, by `Path::to_path_buf` and `PathBuf::push`, when the
//! file system is asked about it.
use std::path::{Path, PathBuf};
use vstd::prelude::*;

use crate::droid::{DroidType, Mood, droid_name, mood_name};

verus! {

#[verifier::external_type_specification]
#[verifier::external_body]
pub struct ExPath(Path);

#[verifier::external_type_specification]
#[verifier::external_body]
pub struct ExPathBuf(PathBuf);

/// The owned copy of a path that `Path::to_path_buf` makes.
pub uninterp spec fn owned_path(p: &Path) -> PathBuf;

/// `Path::to_path_buf`: an owned copy of the path, named [`owned_path`].
#[verifier::external_body]
pub(crate) fn path_to_buf(p: &Path) -> (r: PathBuf)
    ensures
        r == owned_path(p),
{
    p.to_path_buf()
}

/// The path that `PathBuf::push` makes of `base` extended by `component`.
/// Its separator and its handling of absolute components are those of the
/// target the library is compiled for; the name stands for that result.
pub uninterp spec fn pushed(base: PathBuf, component: Seq<char>) -> PathBuf;

/// `PathBuf::push`: extends the path by one component; the new path is named
/// [`pushed`].
#[verifier::external_body]
pub(crate) fn path_push(buf: &mut PathBuf, component: &str)
    ensures
        *final(buf) == pushed(*old(buf), component@),
{
    buf.push(component)
}

/// `Path::exists` (through `PathBuf`'s dereference to `Path`): asks the file
/// system whether something is at the path. The answer depends on the disk,
/// so nothing is claimed of it.
#[verifier::external_body]
pub(crate) fn path_exists(p: &PathBuf) -> bool {
    p.exists()
}

/// A location inside a sounds directory: the droid's directory, an optional
/// mood directory below it, and an optional file name below those.
pub struct SoundPath {
    pub droid: DroidType,
    pub mood: Option<Mood>,
    pub file: Option<String>,
}

impl SoundPath {
    /// A copy of the sound path.
    pub fn duplicate(&self) -> (r: SoundPath)
        ensures
            r@ == self@,
    {
        let file = match &self.file {
            Some(f) => Some(f.clone()),
            None => None,
        };
        SoundPath { droid: self.droid, mood: self.mood, file }
    }
}

/// What a [`SoundPath`] denotes: the same three parts, the file name as text.
pub struct SoundPathView {
    pub droid: DroidType,
    pub mood: Option<Mood>,
    pub file: Option<Seq<char>>,
}

impl View for SoundPath {
    type V = SoundPathView;

    open spec fn view(&self) -> SoundPathView {
        SoundPathView {
            droid: self.droid,
            mood: self.mood,
            file: match self.file {
                Some(f) => Some(f@),
                None => None,
            },
        }
    }
}

/// The sound directory of a droid, below the mood directory when a mood is
/// given.
pub open spec fn dir_view(droid: DroidType, mood: Option<Mood>) -> SoundPathView {
    SoundPathView { droid, mood, file: None }
}

/// The sound paths' views, in order.
pub open spec fn paths_view(v: Seq<SoundPath>) -> Seq<SoundPathView> {
    v.map_values(|p: SoundPath| p@)
}

/// The full path of a sound path below the sounds directory `root`: the
/// droid's directory name, then the mood's directory name if there is a mood,
/// then the file name if there is one, pushed in that order onto an owned
/// copy of `root`.
pub open spec fn resolved(root: &Path, p: SoundPathView) -> PathBuf {
    let with_droid = pushed(owned_path(root), droid_name(p.droid));
    let with_mood = match p.mood {
        Some(m) => pushed(with_droid, mood_name(m)),
        None => with_droid,
    };
    match p.file {
        Some(f) => pushed(with_mood, f),
        None => with_mood,
    }
}

/// Joins a sound path onto the sounds directory `root`, pushing its
/// components in order, as the droid directory, mood directory and file name
/// are pushed onto a `PathBuf`.
pub fn resolve(root: &Path, p: &SoundPath) -> (r: PathBuf)
    ensures
        r == resolved(root, p@),
{
    let mut buf = path_to_buf(root);
    path_push(&mut buf, p.droid.as_str());
    if let Some(m) = p.mood {
        path_push(&mut buf, m.as_str());
    }
    if let Some(f) = &p.file {
        path_push(&mut buf, f.as_str());
    }
    buf
}


/// `answer` is an answer that the file system may give when asked, with
/// `Path::exists`, whether something is at the full path of `p` below
/// `root`. Which answer comes depends on the disk at the moment of asking;
/// an answer is possible exactly when a call of the check can return it.
pub closed spec fn probe_answer(root: &Path, p: SoundPathView, answer: bool) -> bool {
    call_ensures(path_exists, (&resolved(root, p),), answer)
}

/// `answer` is an answer that the file system may give when asked whether
/// something is at the directory `dir` itself.
pub closed spec fn dir_probe_answer(dir: &Path, answer: bool) -> bool {
    call_ensures(path_exists, (&owned_path(dir),), answer)
}

/// The file system can only answer that something is at the sound path.
pub open spec fn surely_present(root: &Path, p: SoundPathView) -> bool {
    forall|b: bool| #[trigger] probe_answer(root, p, b) ==> b
}

/// The file system can only answer that nothing is at the sound path.
pub open spec fn surely_absent(root: &Path, p: SoundPathView) -> bool {
    forall|b: bool| #[trigger] probe_answer(root, p, b) ==> !b
}

/// Asks the file system whether something is at the full path of a sound
/// path below `root`.
pub fn probe(root: &Path, p: &SoundPath) -> (r: bool)
    ensures
        probe_answer(root, p@, r),
{
    let full = resolve(root, p);
    path_exists(&full)
}

/// Asks the file system whether something is at the directory `dir`.
pub fn probe_dir(dir: &Path) -> (r: bool)
    ensures
        dir_probe_answer(dir, r),
{
    path_exists(&path_to_buf(dir))
}

} // verus!
