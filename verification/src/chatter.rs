//! The droid chatter: which sound files a request names, and what is played
//! or decoded for it.
use std::path::{Path, PathBuf};
use vstd::prelude::*;

use crate::audio::{AudioData, AudioView, clip_views, combine_clips, decode_wav, decoded_audio, joined_samples, last_format};
use crate::droid::{DroidType, Mood};
use crate::error::{DroidError, is_no_audio_data, is_no_sound_files};
use crate::paths::{SoundPath, SoundPathView, dir_view, paths_view, probe, probe_answer, probe_dir, dir_probe_answer, resolve, resolved, surely_absent, surely_present};
use crate::text::{is_alphabetic, letter_file, letter_file_name, unicode_alphabetic};

verus! {

/// The sound paths of the letters of a phrase, in order: for each character
/// with the Alphabetic property, the file named after the character in ASCII
/// lower case, in the droid's (and mood's) directory.
pub open spec fn letter_paths(phrase: Seq<char>, droid: DroidType, mood: Option<Mood>) -> Seq<SoundPathView>
    decreases phrase.len(),
{
    if phrase.len() == 0 {
        Seq::empty()
    } else {
        letter_paths(phrase.drop_last(), droid, mood) + if unicode_alphabetic(phrase.last()) {
            seq![SoundPathView { droid, mood, file: Some(letter_file_name(phrase.last())) }]
        } else {
            Seq::empty()
        }
    }
}

/// The elements of `s` whose flag in `keep` is set, in order.
pub open spec fn select<A>(s: Seq<A>, keep: Seq<bool>) -> Seq<A>
    decreases s.len(),
{
    if s.len() == 0 {
        Seq::empty()
    } else {
        select(s.drop_last(), keep.drop_last()) + if keep.last() {
            seq![s.last()]
        } else {
            Seq::empty()
        }
    }
}

/// `keep` holds, for each sound path in order, an answer the file system
/// gives when asked whether something is at its full path below `root`.
pub open spec fn probe_answers(root: &Path, paths: Seq<SoundPathView>, keep: Seq<bool>) -> bool {
    &&& keep.len() == paths.len()
    &&& forall|i: int| 0 <= i < paths.len() ==> #[trigger] probe_answer(root, paths[i], keep[i])
}

/// `found` is the letter paths of a phrase, in order, each kept exactly where
/// the file system answered that something is at its full path below `root`.
pub open spec fn letter_paths_kept(
    root: &Path,
    phrase: Seq<char>,
    droid: DroidType,
    mood: Option<Mood>,
    found: Seq<SoundPathView>,
) -> bool {
    exists|keep: Seq<bool>|
        probe_answers(root, letter_paths(phrase, droid, mood), keep) && found == #[trigger] select(
            letter_paths(phrase, droid, mood),
            keep,
        )
}

/// Speaking two phrases one after the other names the letter files of the
/// first and then those of the second: letter paths are taken character by
/// character, whatever surrounds a character.
pub proof fn lemma_letter_paths_concat(a: Seq<char>, b: Seq<char>, droid: DroidType, mood: Option<Mood>)
    ensures
        letter_paths(a + b, droid, mood) == letter_paths(a, droid, mood) + letter_paths(b, droid, mood),
    decreases b.len(),
{
    if b.len() == 0 {
        assert(a + b =~= a);
        assert(letter_paths(a, droid, mood) + letter_paths(b, droid, mood) =~= letter_paths(a, droid, mood));
    } else {
        lemma_letter_paths_concat(a, b.drop_last(), droid, mood);
        assert((a + b).drop_last() =~= a + b.drop_last());
        assert((a + b).last() == b.last());
        let tail = if unicode_alphabetic(b.last()) {
            seq![SoundPathView { droid, mood, file: Some(letter_file_name(b.last())) }]
        } else {
            Seq::<SoundPathView>::empty()
        };
        assert(letter_paths(a, droid, mood) + letter_paths(b.drop_last(), droid, mood) + tail
            =~= letter_paths(a, droid, mood) + (letter_paths(b.drop_last(), droid, mood) + tail));
    }
}

/// A character without the Alphabetic property names no letter file: adding
/// it to a phrase changes nothing.
pub proof fn lemma_non_letters_are_silent(phrase: Seq<char>, c: char, droid: DroidType, mood: Option<Mood>)
    requires
        !unicode_alphabetic(c),
    ensures
        letter_paths(phrase.push(c), droid, mood) == letter_paths(phrase, droid, mood),
{
    assert(phrase.push(c).drop_last() =~= phrase);
    assert(letter_paths(phrase.push(c), droid, mood) =~= letter_paths(phrase, droid, mood));
}

/// The characters of a phrase that have the Alphabetic property, in order.
pub open spec fn letters_only(phrase: Seq<char>) -> Seq<char>
    decreases phrase.len(),
{
    if phrase.len() == 0 {
        Seq::empty()
    } else {
        letters_only(phrase.drop_last()) + if unicode_alphabetic(phrase.last()) {
            seq![phrase.last()]
        } else {
            Seq::empty()
        }
    }
}

/// A phrase names the same letter files as its letters alone: spaces,
/// digits and punctuation name nothing and move nothing.
pub proof fn lemma_letter_paths_of_letters_only(phrase: Seq<char>, droid: DroidType, mood: Option<Mood>)
    ensures
        letter_paths(phrase, droid, mood) == letter_paths(letters_only(phrase), droid, mood),
    decreases phrase.len(),
{
    if phrase.len() > 0 {
        let init = phrase.drop_last();
        let c = phrase.last();
        lemma_letter_paths_of_letters_only(init, droid, mood);
        if unicode_alphabetic(c) {
            let lo = letters_only(init);
            assert(letters_only(phrase) == lo.push(c));
            assert(lo.push(c).drop_last() =~= lo);
            assert(lo.push(c).last() == c);
        } else {
            assert(letters_only(phrase) =~= letters_only(init));
        }
    }
}

/// Keeping some elements never yields more elements than there were.
proof fn lemma_select_len<A>(s: Seq<A>, keep: Seq<bool>)
    ensures
        select(s, keep).len() <= s.len(),
    decreases s.len(),
{
    if s.len() > 0 {
        lemma_select_len(s.drop_last(), keep.drop_last());
    }
}

/// A phrase names at most one sound file per character: what is found for a
/// phrase is never longer than the phrase.
pub proof fn lemma_found_at_most_one_per_char(
    root: &Path,
    phrase: Seq<char>,
    droid: DroidType,
    mood: Option<Mood>,
    found: Seq<SoundPathView>,
)
    requires
        letter_paths_kept(root, phrase, droid, mood, found),
    ensures
        found.len() <= phrase.len(),
{
    let keep = choose|keep: Seq<bool>|
        probe_answers(root, letter_paths(phrase, droid, mood), keep) && found == #[trigger] select(
            letter_paths(phrase, droid, mood),
            keep,
        );
    lemma_select_len(letter_paths(phrase, droid, mood), keep);
    lemma_letter_paths_len(phrase, droid, mood);
}

proof fn lemma_letter_paths_len(phrase: Seq<char>, droid: DroidType, mood: Option<Mood>)
    ensures
        letter_paths(phrase, droid, mood).len() <= phrase.len(),
    decreases phrase.len(),
{
    if phrase.len() > 0 {
        lemma_letter_paths_len(phrase.drop_last(), droid, mood);
    }
}

/// What to play for a request.
pub enum Playback {
    /// Nothing.
    Silent,
    /// One sound file.
    Single(SoundPath),
    /// Several sound files, one after the other.
    Sequence(Vec<SoundPath>),
    /// One `.wav` file chosen at random below the given directory.
    RandomIn(SoundPath),
}

/// The playback of a phrase spoken letter by letter: the letter files that
/// the file system reports below `root`, one after the other, or nothing
/// where it reports none.
pub open spec fn is_speech_plan(root: &Path, phrase: Seq<char>, droid: DroidType, mood: Option<Mood>, p: Playback) -> bool {
    match p {
        Playback::Silent => letter_paths_kept(root, phrase, droid, mood, Seq::empty()),
        Playback::Sequence(v) => v@.len() > 0 && letter_paths_kept(root, phrase, droid, mood, paths_view(v@)),
        _ => false,
    }
}

/// The playback of one pre-recorded file: the file where the file system
/// reports it below `root`, else nothing.
pub open spec fn is_file_plan(root: &Path, path: SoundPathView, p: Playback) -> bool {
    match p {
        Playback::Silent => probe_answer(root, path, false),
        Playback::Single(s) => s@ == path && probe_answer(root, path, true),
        _ => false,
    }
}

/// The path of a droid's pre-recorded sound file.
pub open spec fn recorded_path(droid: DroidType, name: Seq<char>) -> SoundPathView {
    SoundPathView { droid, mood: None, file: Some(name) }
}

/// The playback of a D-O phrase: a random D-O sound for "random" in any
/// case, otherwise the phrase's file in lower case if it exists.
pub open spec fn is_do_plan(root: &Path, phrase: Seq<char>, p: Playback) -> bool {
    let lower = crate::text::unicode_lowercase(phrase);
    if lower == "random"@ {
        p matches Playback::RandomIn(d) && d@ == dir_view(DroidType::Do, None)
    } else {
        is_file_plan(root, recorded_path(DroidType::Do, lower + ".wav"@), p)
    }
}

/// The clips that loaded files decode to: none where nothing was loaded,
/// otherwise what the bytes decode to as a WAV file.
pub open spec fn clips_of(loaded: Seq<Option<Vec<u8>>>) -> Seq<Option<AudioView>> {
    loaded.map_values(|b: Option<Vec<u8>>| match b {
        Some(bytes) => decoded_audio(bytes@),
        None => None,
    })
}

/// `loaded` holds, for each found sound path in order, an answer `load`
/// gives when asked for the path's full path below `root`.
pub open spec fn loaded_for<F: Fn(&PathBuf) -> Option<Vec<u8>>>(
    root: &Path,
    load: F,
    found: Seq<SoundPathView>,
    loaded: Seq<Option<Vec<u8>>>,
) -> bool {
    &&& loaded.len() == found.len()
    &&& forall|i: int| 0 <= i < loaded.len() ==> load.ensures((&resolved(root, found[i]),), #[trigger] loaded[i])
}

/// The audio of `found_len` found files whose loaded contents are `loaded`:
/// the error "No sound files found" where no file was found; otherwise the
/// decoded clips joined in order, in the format of the last clip, or "No
/// audio data" where they hold no samples. Every decoded clip has a channel.
pub open spec fn audio_of_loaded(found_len: nat, loaded: Seq<Option<Vec<u8>>>, r: Result<AudioData, DroidError>) -> bool {
    let clips = clips_of(loaded);
    &&& forall|i: int| 0 <= i < clips.len() ==> (#[trigger] clips[i] matches Some(a) ==> a.channels > 0)
    &&& found_len == 0 ==> (r matches Err(e) && is_no_sound_files(e))
    &&& found_len > 0 ==> match r {
        Ok(a) => {
            &&& a.samples@ == joined_samples(clips)
            &&& a.samples@.len() > 0
            &&& (a.sample_rate, a.channels) == last_format(clips)
        },
        Err(e) => joined_samples(clips).len() == 0 && is_no_audio_data(e),
    }
}

/// The audio of the found sound paths: each read with `load` at its full
/// path below `root`, decoded and joined in order.
pub open spec fn is_found_audio<F: Fn(&PathBuf) -> Option<Vec<u8>>>(
    root: &Path,
    load: F,
    found: Seq<SoundPathView>,
    r: Result<AudioData, DroidError>,
) -> bool {
    exists|loaded: Seq<Option<Vec<u8>>>|
        #[trigger] loaded_for(root, load, found, loaded) && audio_of_loaded(found.len(), loaded, r)
}

/// The audio of a phrase given which of its letter files were found and what
/// `load` returned for each found file, asked for its full path below `root`
/// in order.
pub open spec fn audio_from<F: Fn(&PathBuf) -> Option<Vec<u8>>>(
    root: &Path,
    load: F,
    phrase: Seq<char>,
    droid: DroidType,
    mood: Option<Mood>,
    found: Seq<SoundPathView>,
    loaded: Seq<Option<Vec<u8>>>,
    r: Result<AudioData, DroidError>,
) -> bool {
    &&& letter_paths_kept(root, phrase, droid, mood, found)
    &&& loaded_for(root, load, found, loaded)
    &&& audio_of_loaded(found.len(), loaded, r)
}

/// The audio of a phrase spoken letter by letter: the letter files found,
/// each read with `load` at its full path below `root`, decoded, and joined
/// in order; an error where no letter file is found or the files hold no
/// samples.
pub open spec fn is_phrase_audio<F: Fn(&PathBuf) -> Option<Vec<u8>>>(
    root: &Path,
    load: F,
    phrase: Seq<char>,
    droid: DroidType,
    mood: Option<Mood>,
    r: Result<AudioData, DroidError>,
) -> bool {
    exists|found: Seq<SoundPathView>, loaded: Seq<Option<Vec<u8>>>|
        #[trigger] audio_from(root, load, phrase, droid, mood, found, loaded, r)
}

/// The letter paths of a phrase, as sound paths.
pub fn letter_candidates(phrase: &str, droid: DroidType, mood: Option<Mood>) -> (r: Vec<SoundPath>)
    ensures
        paths_view(r@) == letter_paths(phrase@, droid, mood),
{
    let n = phrase.unicode_len();
    let mut out: Vec<SoundPath> = Vec::new();
    let mut i: usize = 0;
    while i < n
        invariant
            i <= n,
            n == phrase@.len(),
            paths_view(out@) == letter_paths(phrase@.take(i as int), droid, mood),
        decreases n - i,
    {
        let c = phrase.get_char(i);
        let ghost prefix = phrase@.take(i as int);
        assert(phrase@.take(i + 1).drop_last() =~= prefix);
        assert(phrase@.take(i + 1).last() == c);
        if is_alphabetic(c) {
            let ghost before = out@;
            out.push(SoundPath { droid, mood, file: Some(letter_file(c)) });
            assert(paths_view(out@) =~= paths_view(before).push(out@.last()@));
        } else {
            assert(letter_paths(phrase@.take(i + 1), droid, mood) =~= letter_paths(prefix, droid, mood));
        }
        i = i + 1;
    }
    assert(phrase@.take(n as int) =~= phrase@);
    out
}

/// The sound paths whose flag in `found` is set, in order.
pub fn select_existing(cands: &Vec<SoundPath>, found: &Vec<bool>) -> (r: Vec<SoundPath>)
    requires
        found@.len() == cands@.len(),
    ensures
        paths_view(r@) == select(paths_view(cands@), found@),
{
    let mut out: Vec<SoundPath> = Vec::new();
    let mut i: usize = 0;
    while i < cands.len()
        invariant
            i <= cands.len(),
            found@.len() == cands@.len(),
            paths_view(out@) == select(paths_view(cands@).take(i as int), found@.take(i as int)),
        decreases cands.len() - i,
    {
        assert(paths_view(cands@).take(i + 1).drop_last() =~= paths_view(cands@).take(i as int));
        assert(found@.take(i + 1).drop_last() =~= found@.take(i as int));
        if found[i] {
            let ghost before = out@;
            out.push(cands[i].duplicate());
            assert(paths_view(out@) =~= paths_view(before).push(out@.last()@));
        }
        i = i + 1;
    }
    assert(paths_view(cands@).take(cands.len() as int) =~= paths_view(cands@));
    assert(found@.take(cands.len() as int) =~= found@);
    out
}

/// Hands audio to `store` with the output path and returns what `store`
/// returns; an error in place of audio is returned unchanged and `store` is
/// left uncalled.
pub fn save_audio<G>(audio: Result<AudioData, DroidError>, output_path: &Path, store: G) -> (r: Result<(), DroidError>)
    where
        G: FnOnce(&Path, AudioData) -> Result<(), DroidError>,
    requires
        forall|p: &Path, a: AudioData| store.requires((p, a)),
    ensures
        match audio {
            Ok(a) => store.ensures((output_path, a), r),
            Err(e) => r == Err::<(), DroidError>(e),
        },
{
    match audio {
        Ok(a) => store(output_path, a),
        Err(e) => Err(e),
    }
}

/// The playback of the letter files found for a phrase: nothing where none
/// was found, else all of them, one after the other.
pub fn speech_plan(found: Vec<SoundPath>) -> (r: Playback)
    ensures
        found@.len() == 0 ==> r is Silent,
        found@.len() > 0 ==> (r matches Playback::Sequence(v) && paths_view(v@) == paths_view(found@)),
{
    if found.len() == 0 {
        return Playback::Silent;
    }
    Playback::Sequence(found)
}

/// The playback of a pre-recorded file, given whether the file was found:
/// the file if it was, else nothing.
pub fn file_plan(path: SoundPath, found: bool) -> (r: Playback)
    ensures
        found ==> (r matches Playback::Single(p) && p@ == path@),
        !found ==> r is Silent,
{
    if found {
        Playback::Single(path)
    } else {
        Playback::Silent
    }
}

/// The extension of a path's file name as `Path::extension` finds it, as
/// text; `None` where there is none or it is not valid text.
pub uninterp spec fn path_extension(p: PathBuf) -> Option<Seq<char>>;

/// `Path::extension` followed by `OsStr::to_str`: the extension of the
/// path's file name as text, named [`path_extension`].
#[verifier::external_body]
fn extension_of(p: &PathBuf) -> (r: Option<String>)
    ensures
        path_extension(*p) == match r {
            Some(e) => Some(e@),
            None => None,
        },
{
    match p.extension() {
        Some(e) => e.to_str().map(String::from),
        None => None,
    }
}

/// Whether a path names a `.wav` file: its extension is exactly "wav".
pub open spec fn is_wav_path(p: PathBuf) -> bool {
    path_extension(p) == Some("wav"@)
}

/// The paths that name `.wav` files, in order.
pub open spec fn wav_paths(paths: Seq<PathBuf>) -> Seq<PathBuf>
    decreases paths.len(),
{
    if paths.len() == 0 {
        Seq::empty()
    } else {
        wav_paths(paths.drop_last()) + if is_wav_path(paths.last()) {
            seq![paths.last()]
        } else {
            Seq::empty()
        }
    }
}

/// The `.wav` files among the paths, in order.
pub fn wav_files(paths: Vec<PathBuf>) -> (r: Vec<PathBuf>)
    ensures
        r@ == wav_paths(paths@),
{
    let ghost all = paths@;
    let n = paths.len();
    let mut rest = paths;
    let mut out: Vec<PathBuf> = Vec::new();
    let mut i: usize = 0;
    while rest.len() > 0
        invariant
            all.len() == n,
            i + rest@.len() == all.len(),
            rest@ == all.skip(i as int),
            out@ == wav_paths(all.take(i as int)),
        decreases rest.len(),
    {
        let ghost before_rest = rest@;
        let p = rest.remove(0);
        assert(all.skip(i as int)[0] == all[i as int]);
        assert(rest@ =~= all.skip(i + 1));
        assert(all.take(i + 1).drop_last() =~= all.take(i as int));
        assert(all.take(i + 1).last() == p);
        let wav = match extension_of(&p) {
            Some(e) => crate::text::str_equal(e.as_str(), "wav"),
            None => false,
        };
        if wav {
            out.push(p);
        }
        i = i + 1;
    }
    assert(all.take(i as int) =~= all);
    out
}

/// One `.wav` file chosen at random among the paths; `None` where there is
/// none.
pub fn pick_random_wav(paths: Vec<PathBuf>) -> (r: Option<PathBuf>)
    ensures
        wav_paths(paths@).len() == 0 <==> r is None,
        r matches Some(p) ==> wav_paths(paths@).contains(p),
{
    let wavs = wav_files(paths);
    if wavs.len() == 0 {
        return None;
    }
    let k = crate::utils::rand_idx(wavs.len());
    let mut wavs = wavs;
    let p = wavs.swap_remove(k);
    Some(p)
}

/// Generates droid sounds from the sound files below a sounds directory.
pub struct DroidChatter<'a> {
    sounds_dir: &'a Path,
}

impl<'a> DroidChatter<'a> {
    /// The sounds directory.
    pub closed spec fn root(&self) -> &'a Path {
        self.sounds_dir
    }

    /// A chatter over `sounds_dir` if the directory exists.
    pub fn new(sounds_dir: &'a Path) -> (r: Result<Self, DroidError>)
        ensures
            match r {
                Ok(c) => c.root() == sounds_dir,
                Err(e) => e is NoSoundsDir,
            },
            dir_probe_answer(sounds_dir, r is Ok),
    {
        let present = probe_dir(sounds_dir);
        Self::from_probe(sounds_dir, present)
    }

    /// A chatter over `sounds_dir`, given whether the directory exists.
    pub fn from_probe(sounds_dir: &'a Path, dir_exists: bool) -> (r: Result<Self, DroidError>)
        ensures
            r is Ok <==> dir_exists,
            match r {
                Ok(c) => c.root() == sounds_dir,
                Err(e) => e is NoSoundsDir,
            },
    {
        if !dir_exists {
            return Err(DroidError::NoSoundsDir);
        }
        Ok(DroidChatter { sounds_dir })
    }

    /// The sounds directory.
    pub fn sounds_dir(&self) -> (p: &'a Path)
        ensures
            p == self.root(),
    {
        self.sounds_dir
    }

    /// The directory of a droid's sounds, below the mood's directory when a
    /// mood is given.
    pub fn build_dir(&self, droid: DroidType, mood: Option<Mood>) -> (p: SoundPath)
        ensures
            p@ == dir_view(droid, mood),
    {
        SoundPath { droid, mood, file: None }
    }

    /// The full path of a sound path below the sounds directory.
    pub fn resolve(&self, p: &SoundPath) -> (r: PathBuf)
        ensures
            r == resolved(self.root(), p@),
    {
        resolve(self.sounds_dir, p)
    }

    /// Whether the file system holds something at the sound path's full path
    /// (asked of the disk with `Path::exists`).
    fn exists_at(&self, p: &SoundPath) -> (r: bool)
        ensures
            probe_answer(self.root(), p@, r),
    {
        probe(self.sounds_dir, p)
    }

    /// For each sound path, whether the file system holds something at its
    /// full path.
    pub fn probe_all(&self, paths: &Vec<SoundPath>) -> (r: Vec<bool>)
        ensures
            probe_answers(self.root(), paths_view(paths@), r@),
    {
        let mut out: Vec<bool> = Vec::new();
        let mut i: usize = 0;
        while i < paths.len()
            invariant
                i <= paths.len(),
                out@.len() == i,
                forall|k: int| 0 <= k < i ==> #[trigger] probe_answer(self.root(), paths_view(paths@)[k], out@[k]),
            decreases paths.len() - i,
        {
            let b = self.exists_at(&paths[i]);
            out.push(b);
            i = i + 1;
        }
        out
    }

    /// The letter files of a phrase that exist, in order: the letter
    /// candidates, each kept where the file system holds something at its
    /// full path.
    pub fn build_letter_paths(&self, phrase: &str, droid: DroidType, mood: Option<Mood>) -> (r: Vec<SoundPath>)
        ensures
            letter_paths_kept(self.root(), phrase@, droid, mood, paths_view(r@)),
    {
        let cands = letter_candidates(phrase, droid, mood);
        let found = self.probe_all(&cands);
        let r = select_existing(&cands, &found);
        assert(probe_answers(self.root(), letter_paths(phrase@, droid, mood), found@)
            && paths_view(r@) == select(letter_paths(phrase@, droid, mood), found@));
        r
    }

    /// The playback of a phrase spoken letter by letter by a droid.
    fn speak(&self, phrase: &str, droid: DroidType, mood: Option<Mood>) -> (r: Playback)
        ensures
            is_speech_plan(self.root(), phrase@, droid, mood, r),
    {
        let paths = self.build_letter_paths(phrase, droid, mood);
        if paths.len() == 0 {
            assert(paths_view(paths@) =~= Seq::empty());
        }
        speech_plan(paths)
    }

    /// BD-1 speaks a phrase in a mood: its letter files, one after the other.
    pub fn bd1(&self, phrase: &str, mood: Mood) -> (r: Playback)
        ensures
            is_speech_plan(self.root(), phrase@, DroidType::Bd1, Some(mood), r),
    {
        self.speak(phrase, DroidType::Bd1, Some(mood))
    }

    /// BD-1 speaks a random phrase of `length` letters in a mood.
    pub fn bd1_random(&self, length: usize, mood: Mood) -> (r: Playback)
        ensures
            exists|s: Seq<char>|
                crate::utils::is_random_phrase(s, length as nat) && #[trigger] is_speech_plan(
                    self.root(),
                    s,
                    DroidType::Bd1,
                    Some(mood),
                    r,
                ),
    {
        let s = crate::utils::generate_random_string(length);
        let r = self.bd1(s.as_str(), mood);
        assert(is_speech_plan(self.root(), s@, DroidType::Bd1, Some(mood), r));
        r
    }

    /// An astromech speaks a phrase: its letter files, one after the other.
    pub fn astro(&self, phrase: &str) -> (r: Playback)
        ensures
            is_speech_plan(self.root(), phrase@, DroidType::Astro, None, r),
    {
        self.speak(phrase, DroidType::Astro, None)
    }

    /// An astromech speaks a random phrase of `length` letters.
    pub fn astro_random(&self, length: usize) -> (r: Playback)
        ensures
            exists|s: Seq<char>|
                crate::utils::is_random_phrase(s, length as nat) && #[trigger] is_speech_plan(
                    self.root(),
                    s,
                    DroidType::Astro,
                    None,
                    r,
                ),
    {
        let s = crate::utils::generate_random_string(length);
        let r = self.astro(s.as_str());
        assert(is_speech_plan(self.root(), s@, DroidType::Astro, None, r));
        r
    }

    /// D-O speaks: "random" (in any case) picks one of its sounds at random;
    /// any other phrase plays the file named after the phrase in lower case,
    /// if it exists.
    pub fn do_(&self, phrase: &str) -> (r: Playback)
        ensures
            is_do_plan(self.root(), phrase@, r),
    {
        let lower = crate::text::to_lowercase(phrase);
        if crate::text::str_equal(lower.as_str(), "random") {
            return Playback::RandomIn(self.build_dir(DroidType::Do, None));
        }
        let mut name = lower;
        name.append(".wav");
        self.play_droid_sound(DroidType::Do, name.as_str())
    }

    /// A droid's pre-recorded sound: the file `sound_name` in the droid's
    /// directory, if it exists.
    pub fn play_droid_sound(&self, droid: DroidType, sound_name: &str) -> (r: Playback)
        ensures
            is_file_plan(self.root(), recorded_path(droid, sound_name@), r),
    {
        let path = SoundPath { droid, mood: None, file: Some(String::from_str(sound_name)) };
        let found = self.exists_at(&path);
        file_plan(path, found)
    }

    /// A BB-8 pre-recorded sound.
    pub fn bb8(&self, sound_name: &str) -> (r: Playback)
        ensures
            is_file_plan(self.root(), recorded_path(DroidType::Bb8, sound_name@), r),
    {
        self.play_droid_sound(DroidType::Bb8, sound_name)
    }

    /// A Chopper pre-recorded sound.
    pub fn chopper(&self, sound_name: &str) -> (r: Playback)
        ensures
            is_file_plan(self.root(), recorded_path(DroidType::Chopper, sound_name@), r),
    {
        self.play_droid_sound(DroidType::Chopper, sound_name)
    }

    /// A mouse droid pre-recorded sound.
    pub fn mouse(&self, sound_name: &str) -> (r: Playback)
        ensures
            is_file_plan(self.root(), recorded_path(DroidType::Mouse, sound_name@), r),
    {
        self.play_droid_sound(DroidType::Mouse, sound_name)
    }

    /// A probe droid pre-recorded sound.
    pub fn probe(&self, sound_name: &str) -> (r: Playback)
        ensures
            is_file_plan(self.root(), recorded_path(DroidType::Probe, sound_name@), r),
    {
        self.play_droid_sound(DroidType::Probe, sound_name)
    }

    /// An R2 unit pre-recorded sound.
    pub fn r2(&self, sound_name: &str) -> (r: Playback)
        ensures
            is_file_plan(self.root(), recorded_path(DroidType::R2, sound_name@), r),
    {
        self.play_droid_sound(DroidType::R2, sound_name)
    }

    /// The audio of a phrase spoken letter by letter: each letter file that
    /// exists is read with `load` and decoded, and the clips are joined in
    /// order. A file that `load` cannot read, or that is no WAV file, adds
    /// nothing. Fails where no letter file exists or no samples are found.
    pub fn get_audio_data<F>(&self, phrase: &str, droid: DroidType, mood: Option<Mood>, load: F) -> (r: Result<AudioData, DroidError>)
        where
            F: Fn(&PathBuf) -> Option<Vec<u8>>,
        requires
            forall|p: &PathBuf| load.requires((p,)),
        ensures
            is_phrase_audio(self.root(), load, phrase@, droid, mood, r),
    {
        let paths = self.build_letter_paths(phrase, droid, mood);
        let ghost lg = load;
        let r = self.audio_of_found(&paths, load);
        proof {
            let found = paths_view(paths@);
            let loaded = choose|loaded: Seq<Option<Vec<u8>>>|
                #[trigger] loaded_for(self.root(), lg, found, loaded) && audio_of_loaded(found.len(), loaded, r);
            assert(audio_from(self.root(), lg, phrase@, droid, mood, found, loaded, r));
        }
        r
    }

    /// The audio of found sound files: each read with `load` at its full
    /// path, decoded, and the clips joined in order. A file that `load`
    /// cannot read, or that is no WAV file, adds nothing. Fails where no file
    /// was found or no samples are found.
    pub fn audio_of_found<F>(&self, found: &Vec<SoundPath>, load: F) -> (r: Result<AudioData, DroidError>)
        where
            F: Fn(&PathBuf) -> Option<Vec<u8>>,
        requires
            forall|p: &PathBuf| load.requires((p,)),
        ensures
            is_found_audio(self.root(), load, paths_view(found@), r),
    {
        let ghost fv = paths_view(found@);
        if found.len() == 0 {
            let r = Err(DroidError::no_sound_files());
            assert(loaded_for(self.root(), load, fv, Seq::empty()) && audio_of_loaded(fv.len(), Seq::empty(), r));
            return r;
        }
        let mut clips: Vec<Option<AudioData>> = Vec::new();
        let ghost mut loaded_all: Seq<Option<Vec<u8>>> = Seq::empty();
        let mut i: usize = 0;
        while i < found.len()
            invariant
                i <= found.len(),
                clips@.len() == i,
                loaded_all.len() == i,
                fv == paths_view(found@),
                forall|p: &PathBuf| load.requires((p,)),
                forall|k: int| 0 <= k < i ==> load.ensures((&resolved(self.root(), fv[k]),), #[trigger] loaded_all[k]),
                clip_views(clips@) == clips_of(loaded_all),
                forall|k: int| 0 <= k < i ==> (#[trigger] clips_of(loaded_all)[k] matches Some(a) ==> a.channels > 0),
            decreases found.len() - i,
        {
            let full = self.resolve(&found[i]);
            let loaded = load(&full);
            let clip = match &loaded {
                Some(bytes) => decode_wav(bytes.as_slice()),
                None => None,
            };
            let ghost before_clips = clips@;
            let ghost before_loaded = loaded_all;
            proof {
                loaded_all = loaded_all.push(loaded);
            }
            clips.push(clip);
            assert(clip_views(clips@) =~= clips_of(loaded_all)) by {
                assert forall|k: int| 0 <= k < i + 1 implies clip_views(clips@)[k] == clips_of(loaded_all)[k] by {
                    if k < i {
                        assert(clip_views(clips@)[k] == clip_views(before_clips)[k]);
                        assert(clips_of(loaded_all)[k] == clips_of(before_loaded)[k]);
                    }
                }
            }
            assert forall|k: int| 0 <= k < i + 1 implies load.ensures((&resolved(self.root(), fv[k]),), #[trigger] loaded_all[k]) by {
                if k < i {
                    assert(loaded_all[k] == before_loaded[k]);
                }
            }
            assert forall|k: int| 0 <= k < i + 1 implies (#[trigger] clips_of(loaded_all)[k] matches Some(a) ==> a.channels > 0) by {
                if k < i {
                    assert(clips_of(loaded_all)[k] == clips_of(before_loaded)[k]);
                }
            }
            i = i + 1;
        }
        let r = combine_clips(&clips);
        assert(loaded_for(self.root(), load, fv, loaded_all) && audio_of_loaded(fv.len(), loaded_all, r));
        r
    }

    /// BD-1's audio for a phrase in a mood.
    pub fn bd1_audio<F>(&self, phrase: &str, mood: Mood, load: F) -> (r: Result<AudioData, DroidError>)
        where
            F: Fn(&PathBuf) -> Option<Vec<u8>>,
        requires
            forall|p: &PathBuf| load.requires((p,)),
        ensures
            is_phrase_audio(self.root(), load, phrase@, DroidType::Bd1, Some(mood), r),
    {
        self.get_audio_data(phrase, DroidType::Bd1, Some(mood), load)
    }

    /// An astromech's audio for a phrase.
    pub fn astro_audio<F>(&self, phrase: &str, load: F) -> (r: Result<AudioData, DroidError>)
        where
            F: Fn(&PathBuf) -> Option<Vec<u8>>,
        requires
            forall|p: &PathBuf| load.requires((p,)),
        ensures
            is_phrase_audio(self.root(), load, phrase@, DroidType::Astro, None, r),
    {
        self.get_audio_data(phrase, DroidType::Astro, None, load)
    }

    /// Saves the audio of a phrase to `output_path`: the audio that
    /// [`DroidChatter::get_audio_data`] makes of the phrase is handed to
    /// `store` together with the output path, and what `store` returns is
    /// returned; where no audio is made, its error is returned and `store` is
    /// not called.
    pub fn phrase_to_file<F, G>(
        &self,
        phrase: &str,
        droid: DroidType,
        mood: Option<Mood>,
        output_path: &Path,
        load: F,
        store: G,
    ) -> (r: Result<(), DroidError>)
        where
            F: Fn(&PathBuf) -> Option<Vec<u8>>,
            G: FnOnce(&Path, AudioData) -> Result<(), DroidError>,
        requires
            forall|p: &PathBuf| load.requires((p,)),
            forall|p: &Path, a: AudioData| store.requires((p, a)),
        ensures
            exists|audio: Result<AudioData, DroidError>|
                #[trigger] is_phrase_audio(self.root(), load, phrase@, droid, mood, audio) && match audio {
                    Ok(a) => store.ensures((output_path, a), r),
                    Err(e) => r == Err::<(), DroidError>(e),
                },
    {
        let audio = self.get_audio_data(phrase, droid, mood, load);
        save_audio(audio, output_path, store)
    }

    /// Saves BD-1's audio for a phrase in a mood to `output_path`.
    pub fn bd1_to_file<F, G>(&self, phrase: &str, mood: Mood, output_path: &Path, load: F, store: G) -> (r: Result<(), DroidError>)
        where
            F: Fn(&PathBuf) -> Option<Vec<u8>>,
            G: FnOnce(&Path, AudioData) -> Result<(), DroidError>,
        requires
            forall|p: &PathBuf| load.requires((p,)),
            forall|p: &Path, a: AudioData| store.requires((p, a)),
        ensures
            exists|audio: Result<AudioData, DroidError>|
                #[trigger] is_phrase_audio(self.root(), load, phrase@, DroidType::Bd1, Some(mood), audio) && match audio {
                    Ok(a) => store.ensures((output_path, a), r),
                    Err(e) => r == Err::<(), DroidError>(e),
                },
    {
        self.phrase_to_file(phrase, DroidType::Bd1, Some(mood), output_path, load, store)
    }

    /// Saves an astromech's audio for a phrase to `output_path`.
    pub fn astro_to_file<F, G>(&self, phrase: &str, output_path: &Path, load: F, store: G) -> (r: Result<(), DroidError>)
        where
            F: Fn(&PathBuf) -> Option<Vec<u8>>,
            G: FnOnce(&Path, AudioData) -> Result<(), DroidError>,
        requires
            forall|p: &PathBuf| load.requires((p,)),
            forall|p: &Path, a: AudioData| store.requires((p, a)),
        ensures
            exists|audio: Result<AudioData, DroidError>|
                #[trigger] is_phrase_audio(self.root(), load, phrase@, DroidType::Astro, None, audio) && match audio {
                    Ok(a) => store.ensures((output_path, a), r),
                    Err(e) => r == Err::<(), DroidError>(e),
                },
    {
        self.phrase_to_file(phrase, DroidType::Astro, None, output_path, load, store)
    }
}

/// Keeping every element keeps the sequence whole.
proof fn lemma_select_all<A>(s: Seq<A>, keep: Seq<bool>)
    requires
        keep.len() == s.len(),
        forall|i: int| 0 <= i < keep.len() ==> keep[i],
    ensures
        select(s, keep) == s,
    decreases s.len(),
{
    if s.len() > 0 {
        lemma_select_all(s.drop_last(), keep.drop_last());
        assert(keep.last());
        assert(s.drop_last().push(s.last()) =~= s);
    }
}

/// Keeping no element leaves nothing.
proof fn lemma_select_none<A>(s: Seq<A>, keep: Seq<bool>)
    requires
        keep.len() == s.len(),
        forall|i: int| 0 <= i < keep.len() ==> !keep[i],
    ensures
        select(s, keep).len() == 0,
    decreases s.len(),
{
    if s.len() > 0 {
        lemma_select_none(s.drop_last(), keep.drop_last());
        assert(!keep.last());
    }
}

/// Every kept element was answered "present".
proof fn lemma_select_answered(root: &Path, s: Seq<SoundPathView>, keep: Seq<bool>)
    requires
        probe_answers(root, s, keep),
    ensures
        forall|j: int| 0 <= j < select(s, keep).len() ==> #[trigger] probe_answer(root, select(s, keep)[j], true),
    decreases s.len(),
{
    if s.len() > 0 {
        assert(probe_answers(root, s.drop_last(), keep.drop_last())) by {
            assert forall|i: int| 0 <= i < s.drop_last().len() implies #[trigger] probe_answer(root, s.drop_last()[i], keep.drop_last()[i]) by {
                assert(probe_answer(root, s[i], keep[i]));
            }
        }
        lemma_select_answered(root, s.drop_last(), keep.drop_last());
        assert(probe_answer(root, s[s.len() - 1], keep[s.len() - 1]));
        let init = select(s.drop_last(), keep.drop_last());
        assert forall|j: int| 0 <= j < select(s, keep).len() implies #[trigger] probe_answer(root, select(s, keep)[j], true) by {
            if j < init.len() {
                assert(select(s, keep)[j] == init[j]);
            }
        }
    }
}

/// Only files the file system reported are used: every path kept for a
/// phrase was answered "present" when its full path was checked.
pub proof fn lemma_kept_paths_were_present(
    root: &Path,
    phrase: Seq<char>,
    droid: DroidType,
    mood: Option<Mood>,
    found: Seq<SoundPathView>,
)
    requires
        letter_paths_kept(root, phrase, droid, mood, found),
    ensures
        forall|j: int| 0 <= j < found.len() ==> #[trigger] probe_answer(root, found[j], true),
{
    let keep = choose|keep: Seq<bool>|
        probe_answers(root, letter_paths(phrase, droid, mood), keep) && found == #[trigger] select(
            letter_paths(phrase, droid, mood),
            keep,
        );
    lemma_select_answered(root, letter_paths(phrase, droid, mood), keep);
}

/// Where the file of every letter of a phrase is there, every letter is
/// kept: what is found is all the letter paths of the phrase, one per
/// letter, repeats included.
pub proof fn lemma_all_letters_present(
    root: &Path,
    phrase: Seq<char>,
    droid: DroidType,
    mood: Option<Mood>,
    found: Seq<SoundPathView>,
)
    requires
        letter_paths_kept(root, phrase, droid, mood, found),
        forall|i: int| 0 <= i < letter_paths(phrase, droid, mood).len()
            ==> surely_present(root, #[trigger] letter_paths(phrase, droid, mood)[i]),
    ensures
        found == letter_paths(phrase, droid, mood),
{
    let cands = letter_paths(phrase, droid, mood);
    let keep = choose|keep: Seq<bool>| probe_answers(root, cands, keep) && found == #[trigger] select(cands, keep);
    assert forall|i: int| 0 <= i < keep.len() implies keep[i] by {
        assert(probe_answer(root, cands[i], keep[i]));
        assert(surely_present(root, cands[i]));
    }
    lemma_select_all(cands, keep);
}

/// Where no letter file of a phrase is there, nothing is found.
pub proof fn lemma_no_letters_present(
    root: &Path,
    phrase: Seq<char>,
    droid: DroidType,
    mood: Option<Mood>,
    found: Seq<SoundPathView>,
)
    requires
        letter_paths_kept(root, phrase, droid, mood, found),
        forall|i: int| 0 <= i < letter_paths(phrase, droid, mood).len()
            ==> surely_absent(root, #[trigger] letter_paths(phrase, droid, mood)[i]),
    ensures
        found.len() == 0,
{
    let cands = letter_paths(phrase, droid, mood);
    let keep = choose|keep: Seq<bool>| probe_answers(root, cands, keep) && found == #[trigger] select(cands, keep);
    assert forall|i: int| 0 <= i < keep.len() implies !keep[i] by {
        assert(probe_answer(root, cands[i], keep[i]));
        assert(surely_absent(root, cands[i]));
    }
    lemma_select_none(cands, keep);
}

/// The letter paths of a phrase are one per letter of the phrase, in order,
/// repeats included: the `i`-th names the file of the `i`-th letter, in the
/// droid's (and mood's) directory.
pub proof fn lemma_letter_paths_one_per_letter(phrase: Seq<char>, droid: DroidType, mood: Option<Mood>)
    ensures
        letter_paths(phrase, droid, mood).len() == letters_only(phrase).len(),
        forall|i: int| 0 <= i < letters_only(phrase).len() ==> #[trigger] letter_paths(phrase, droid, mood)[i]
            == (SoundPathView { droid, mood, file: Some(letter_file_name(letters_only(phrase)[i])) }),
    decreases phrase.len(),
{
    if phrase.len() > 0 {
        lemma_letter_paths_one_per_letter(phrase.drop_last(), droid, mood);
        let lp = letter_paths(phrase.drop_last(), droid, mood);
        let lo = letters_only(phrase.drop_last());
        assert forall|i: int| 0 <= i < letters_only(phrase).len() implies #[trigger] letter_paths(phrase, droid, mood)[i]
            == (SoundPathView { droid, mood, file: Some(letter_file_name(letters_only(phrase)[i])) }) by {
            if i < lo.len() {
                assert(letter_paths(phrase, droid, mood)[i] == lp[i]);
                assert(letters_only(phrase)[i] == lo[i]);
            }
        }
    }
}

/// BD-1 and the astromech speak every letter of a phrase when all its letter
/// files are there: the plan is the sequence of all the phrase's letter
/// paths, one per letter, repeats included.
pub proof fn lemma_speech_all_letters(root: &Path, phrase: Seq<char>, droid: DroidType, mood: Option<Mood>, p: Playback)
    requires
        is_speech_plan(root, phrase, droid, mood, p),
        letter_paths(phrase, droid, mood).len() > 0,
        forall|i: int| 0 <= i < letter_paths(phrase, droid, mood).len()
            ==> surely_present(root, #[trigger] letter_paths(phrase, droid, mood)[i]),
    ensures
        p matches Playback::Sequence(v) && paths_view(v@) == letter_paths(phrase, droid, mood),
{
    match p {
        Playback::Silent => {
            lemma_all_letters_present(root, phrase, droid, mood, Seq::empty());
        },
        Playback::Sequence(v) => {
            lemma_all_letters_present(root, phrase, droid, mood, paths_view(v@));
        },
        _ => {},
    }
}

/// Where all the letter files of a phrase are there, its audio is made of all
/// of them: the letter paths of the phrase, each read with `load`, decoded
/// and joined in order.
pub proof fn lemma_phrase_audio_all_letters<F: Fn(&PathBuf) -> Option<Vec<u8>>>(
    root: &Path,
    load: F,
    phrase: Seq<char>,
    droid: DroidType,
    mood: Option<Mood>,
    r: Result<AudioData, DroidError>,
)
    requires
        is_phrase_audio(root, load, phrase, droid, mood, r),
        forall|i: int| 0 <= i < letter_paths(phrase, droid, mood).len()
            ==> surely_present(root, #[trigger] letter_paths(phrase, droid, mood)[i]),
    ensures
        exists|loaded: Seq<Option<Vec<u8>>>|
            #[trigger] loaded_for(root, load, letter_paths(phrase, droid, mood), loaded) && audio_of_loaded(
                letter_paths(phrase, droid, mood).len(),
                loaded,
                r,
            ),
{
    let (found, loaded) = choose|found: Seq<SoundPathView>, loaded: Seq<Option<Vec<u8>>>|
        #[trigger] audio_from(root, load, phrase, droid, mood, found, loaded, r);
    lemma_all_letters_present(root, phrase, droid, mood, found);
    assert(loaded_for(root, load, letter_paths(phrase, droid, mood), loaded));
}

/// A pre-recorded file that is there is played; one that is not is not.
pub proof fn lemma_file_plan_follows_disk(root: &Path, path: SoundPathView, p: Playback)
    requires
        is_file_plan(root, path, p),
    ensures
        surely_present(root, path) ==> (p matches Playback::Single(s) && s@ == path),
        surely_absent(root, path) ==> p is Silent,
{
}

/// D-O plays the file named after a phrase (other than "random") in lower
/// case whenever that file is there, and nothing when it is not.
pub proof fn lemma_do_plays_named_file(root: &Path, phrase: Seq<char>, p: Playback)
    requires
        is_do_plan(root, phrase, p),
        crate::text::unicode_lowercase(phrase) != "random"@,
    ensures
        surely_present(root, recorded_path(DroidType::Do, crate::text::unicode_lowercase(phrase) + ".wav"@))
            ==> (p matches Playback::Single(s) && s@ == recorded_path(
            DroidType::Do,
            crate::text::unicode_lowercase(phrase) + ".wav"@,
        )),
        surely_absent(root, recorded_path(DroidType::Do, crate::text::unicode_lowercase(phrase) + ".wav"@))
            ==> p is Silent,
{
    lemma_file_plan_follows_disk(root, recorded_path(DroidType::Do, crate::text::unicode_lowercase(phrase) + ".wav"@), p);
}

/// Clips that each have at least one channel leave a format with at least
/// one channel.
proof fn lemma_last_format_has_channels(clips: Seq<Option<AudioView>>)
    requires
        forall|i: int| 0 <= i < clips.len() ==> (#[trigger] clips[i] matches Some(a) ==> a.channels > 0),
    ensures
        last_format(clips).1 > 0,
    decreases clips.len(),
{
    if clips.len() > 0 {
        assert(clips[clips.len() - 1] matches Some(a) ==> a.channels > 0);
        if clips.last() is None {
            assert forall|i: int| 0 <= i < clips.len() - 1 implies (#[trigger] clips.drop_last()[i] matches Some(a) ==> a.channels > 0) by {
                assert(clips.drop_last()[i] == clips[i]);
            }
            lemma_last_format_has_channels(clips.drop_last());
        }
    }
}

/// Audio made from a phrase can always be played: it has at least one
/// sample and at least one channel, so its frame count is defined.
pub proof fn lemma_phrase_audio_playable<F: Fn(&PathBuf) -> Option<Vec<u8>>>(
    root: &Path,
    load: F,
    phrase: Seq<char>,
    droid: DroidType,
    mood: Option<Mood>,
    a: AudioData,
)
    requires
        is_phrase_audio(root, load, phrase, droid, mood, Ok(a)),
    ensures
        a.samples@.len() > 0,
        a.channels > 0,
{
    let (found, loaded) = choose|found: Seq<SoundPathView>, loaded: Seq<Option<Vec<u8>>>|
        #[trigger] audio_from(root, load, phrase, droid, mood, found, loaded, Ok(a));
    assert(audio_of_loaded(found.len(), loaded, Ok(a)));
    lemma_last_format_has_channels(clips_of(loaded));
}

} // verus!
