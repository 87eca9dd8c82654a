//! Decoded audio: WAV decoding and the joining of decoded clips.
use vstd::prelude::*;

use crate::error::{DroidError, is_no_audio_data};

verus! {

/// The sample width, in bits, of the WAV files that audio is saved as:
/// 16-bit integer samples, as the samples of [`AudioData`] are.
pub const OUTPUT_BITS_PER_SAMPLE: u16 = 16;

/// Interleaved 16-bit samples with their sample rate and channel count.
#[derive(Debug, Clone)]
pub struct AudioData {
    pub samples: Vec<i16>,
    pub sample_rate: u32,
    pub channels: u16,
}

/// The content of an [`AudioData`].
pub struct AudioView {
    pub samples: Seq<i16>,
    pub sample_rate: u32,
    pub channels: u16,
}

impl View for AudioData {
    type V = AudioView;

    open spec fn view(&self) -> AudioView {
        AudioView { samples: self.samples@, sample_rate: self.sample_rate, channels: self.channels }
    }
}

impl AudioData {
    /// Creates audio data from its parts.
    pub fn new(samples: Vec<i16>, sample_rate: u32, channels: u16) -> (a: Self)
        ensures
            a.samples@ == samples@,
            a.sample_rate == sample_rate,
            a.channels == channels,
    {
        AudioData { samples, sample_rate, channels }
    }

    /// The number of whole frames: samples divided by channels, rounded down.
    pub fn frames(&self) -> (n: usize)
        requires
            self.channels > 0,
        ensures
            n == self.samples@.len() / (self.channels as nat),
    {
        self.samples.len() / (self.channels as usize)
    }
}

/// A frame holds one sample per channel: the frames counted by
/// [`AudioData::frames`] hold all samples but fewer than one frame's worth.
pub proof fn lemma_frames_cover_samples(len: nat, channels: nat)
    requires
        channels > 0,
    ensures
        (len / channels) * channels <= len < (len / channels + 1) * channels,
{
    vstd::arithmetic::div_mod::lemma_fundamental_div_mod(len as int, channels as int);
    assert((len / channels + 1) * channels == (len / channels) * channels + channels) by (nonlinear_arith);
}

#[verifier::external_type_specification]
#[verifier::external_body]
pub struct ExHoundError(hound::Error);

/// What hound makes of a byte string as a WAV file: `None` where
/// `WavReader::new` rejects it; otherwise, for each sample that the reader's
/// 16-bit sample iterator yields, the sample or `None` where it yields an
/// error, then the sample rate and the channel count of the header.
pub uninterp spec fn wav_decoding(bytes: Seq<u8>) -> Option<(Seq<Option<i16>>, u32, u16)>;

/// A decoded sample as an option.
pub open spec fn sample_option(r: Result<i16, hound::Error>) -> Option<i16> {
    match r {
        Ok(s) => Some(s),
        Err(_) => None,
    }
}

/// `hound::WavReader::new` over the bytes, its `spec()`, and the items of
/// `into_samples::<i16>()` collected in order. The result is named
/// [`wav_decoding`]; beside the name the contract states what hound's reader
/// checks before it returns a reader: the header declares at least one
/// channel.
#[verifier::external_body]
fn hound_decode(bytes: &[u8]) -> (r: Result<(Vec<Result<i16, hound::Error>>, u32, u16), hound::Error>)
    ensures
        match r {
            Ok((items, rate, channels)) => {
                &&& wav_decoding(bytes@) == Some((items@.map_values(|x: Result<i16, hound::Error>| sample_option(x)), rate, channels))
                &&& channels > 0
            },
            Err(_) => wav_decoding(bytes@) is None,
        },
{
    let reader = hound::WavReader::new(bytes)?;
    let spec = reader.spec();
    Ok((reader.into_samples::<i16>().collect(), spec.sample_rate, spec.channels))
}

/// The samples among the decoded items, in order, errors left out.
pub open spec fn good_samples(items: Seq<Option<i16>>) -> Seq<i16>
    decreases items.len(),
{
    if items.len() == 0 {
        Seq::empty()
    } else {
        good_samples(items.drop_last()) + match items.last() {
            Some(s) => seq![s],
            None => Seq::empty(),
        }
    }
}

/// The audio of a WAV file: its good samples, its sample rate and its channel
/// count; `None` where the bytes are no WAV file that hound reads.
pub open spec fn decoded_audio(bytes: Seq<u8>) -> Option<AudioView> {
    match wav_decoding(bytes) {
        Some((items, rate, channels)) => Some(AudioView { samples: good_samples(items), sample_rate: rate, channels }),
        None => None,
    }
}

/// Decodes a WAV file held in memory, keeping the samples that decode and
/// leaving out those that fail.
pub fn decode_wav(bytes: &[u8]) -> (r: Option<AudioData>)
    ensures
        match r {
            Some(a) => decoded_audio(bytes@) == Some(a@) && a.channels > 0,
            None => decoded_audio(bytes@) is None,
        },
{
    match hound_decode(bytes) {
        Err(_) => None,
        Ok((items, rate, channels)) => {
            let ghost view = items@.map_values(|x: Result<i16, hound::Error>| sample_option(x));
            let mut samples: Vec<i16> = Vec::new();
            let mut i: usize = 0;
            while i < items.len()
                invariant
                    i <= items.len(),
                    view.len() == items@.len(),
                    forall|k: int| 0 <= k < items@.len() ==> #[trigger] view[k] == sample_option(items@[k]),
                    samples@ == good_samples(view.take(i as int)),
                decreases items.len() - i,
            {
                assert(view.take(i + 1).drop_last() =~= view.take(i as int));
                match &items[i] {
                    Ok(s) => samples.push(*s),
                    Err(_) => {},
                }
                i = i + 1;
            }
            assert(view.take(items.len() as int) =~= view);
            Some(AudioData { samples, sample_rate: rate, channels })
        },
    }
}

/// The views of the clips, in order.
pub open spec fn clip_views(clips: Seq<Option<AudioData>>) -> Seq<Option<AudioView>> {
    clips.map_values(|c: Option<AudioData>| match c {
        Some(a) => Some(a@),
        None => None,
    })
}

/// The samples of all clips, clip after clip; a missing clip adds none.
pub open spec fn joined_samples(clips: Seq<Option<AudioView>>) -> Seq<i16>
    decreases clips.len(),
{
    if clips.len() == 0 {
        Seq::empty()
    } else {
        joined_samples(clips.drop_last()) + match clips.last() {
            Some(a) => a.samples,
            None => Seq::empty(),
        }
    }
}

/// Joining two runs of clips one after the other gives the samples of the
/// first run followed by those of the second.
pub proof fn lemma_joined_samples_concat(a: Seq<Option<AudioView>>, b: Seq<Option<AudioView>>)
    ensures
        joined_samples(a + b) == joined_samples(a) + joined_samples(b),
    decreases b.len(),
{
    if b.len() == 0 {
        assert(a + b =~= a);
        assert(joined_samples(a) + joined_samples(b) =~= joined_samples(a));
    } else {
        lemma_joined_samples_concat(a, b.drop_last());
        assert((a + b).drop_last() =~= a + b.drop_last());
        assert((a + b).last() == b.last());
        let tail = match b.last() {
            Some(x) => x.samples,
            None => Seq::<i16>::empty(),
        };
        assert(joined_samples(a) + joined_samples(b.drop_last()) + tail
            =~= joined_samples(a) + (joined_samples(b.drop_last()) + tail));
    }
}

/// The sample rate and channel count of the last clip present, or 44100 Hz
/// mono where no clip is present.
pub open spec fn last_format(clips: Seq<Option<AudioView>>) -> (u32, u16)
    decreases clips.len(),
{
    if clips.len() == 0 {
        (44100, 1)
    } else {
        match clips.last() {
            Some(a) => (a.sample_rate, a.channels),
            None => last_format(clips.drop_last()),
        }
    }
}

/// Joins decoded clips into one buffer: their samples one after the other,
/// in the format of the last clip present. Fails when no samples are found.
pub fn combine_clips(clips: &Vec<Option<AudioData>>) -> (r: Result<AudioData, DroidError>)
    ensures
        match r {
            Ok(a) => {
                let cs = clip_views(clips@);
                &&& a.samples@ == joined_samples(cs)
                &&& a.samples@.len() > 0
                &&& (a.sample_rate, a.channels) == last_format(cs)
            },
            Err(e) => joined_samples(clip_views(clips@)).len() == 0 && is_no_audio_data(e),
        },
{
    let ghost cs = clip_views(clips@);
    let mut all: Vec<i16> = Vec::new();
    let mut sample_rate: u32 = 44100;
    let mut channels: u16 = 1;
    let mut i: usize = 0;
    while i < clips.len()
        invariant
            i <= clips.len(),
            cs == clip_views(clips@),
            all@ == joined_samples(cs.take(i as int)),
            (sample_rate, channels) == last_format(cs.take(i as int)),
        decreases clips.len() - i,
    {
        assert(cs.take(i + 1).drop_last() =~= cs.take(i as int));
        match &clips[i] {
            Some(a) => {
                let ghost before = all@;
                let mut j: usize = 0;
                while j < a.samples.len()
                    invariant
                        j <= a.samples.len(),
                        all@ == before + a.samples@.take(j as int),
                    decreases a.samples.len() - j,
                {
                    all.push(a.samples[j]);
                    assert(a.samples@.take(j + 1) =~= a.samples@.take(j as int).push(a.samples@[j as int]));
                    j = j + 1;
                }
                assert(a.samples@.take(a.samples.len() as int) =~= a.samples@);
                sample_rate = a.sample_rate;
                channels = a.channels;
            },
            None => {},
        }
        i = i + 1;
    }
    assert(cs.take(clips.len() as int) =~= cs);
    if all.len() == 0 {
        return Err(DroidError::no_audio_data());
    }
    Ok(AudioData { samples: all, sample_rate, channels })
}

} // verus!
