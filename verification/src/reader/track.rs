//! Read matroska track information.

use vstd::prelude::*;
use crate::elements as el;
use crate::error::{Detail, Error};
use crate::ebml::element::{
    spec_children,
    spec_optional_float,
    spec_optional_uint,
    spec_required_children,
    spec_required_uint,
    spec_required_utf8,
    ElementArray,
    ElementSpec,
    Float,
};

verus! {

/// The number of channels of an audio track that names none.
pub const DEFAULT_CHANNELS: u64 = 1;

/// The bits of 8000.0 in double precision: the sampling frequency, in
/// hertz, of an audio track that names none.
pub const DEFAULT_SAMPLING_FREQUENCY_BITS: u64 = 0x40BF_4000_0000_0000;

/// Possible MKV track types.
#[derive(Clone, Copy, Debug, PartialEq, Eq, Structural)]
pub enum Kind {
    Video(Video),
    Audio(Audio),
    Complex,
    Logo,
    Subtitle,
    Buttons,
    Control,
}

/// Information about a video track.
#[derive(Clone, Copy, Debug, PartialEq, Eq, Structural)]
pub struct Video {
    pub pixel_width: u64,
    pub pixel_height: u64,
}

impl Video {
    /// Width of the video track in pixels.
    pub fn width(&self) -> (w: u64)
        ensures
            w == self.pixel_width,
    {
        self.pixel_width
    }

    /// Height of the video track in pixels.
    pub fn height(&self) -> (h: u64)
        ensures
            h == self.pixel_height,
    {
        self.pixel_height
    }
}

/// Information about an audio track.
#[derive(Clone, Copy, Debug, PartialEq, Eq, Structural)]
pub struct Audio {
    pub channels: u64,
    pub sampling_freq: Float,
    pub out_sampling_freq: Float,
}

impl Audio {
    /// Number of audio channels.
    pub fn channels(&self) -> (n: u64)
        ensures
            n == self.channels,
    {
        self.channels
    }

    /// Audio sampling frequency in hertz, as it is stored.
    pub fn sampling_frequency(&self) -> (f: Float)
        ensures
            f == self.sampling_freq,
    {
        self.sampling_freq
    }

    /// Output audio sampling frequency in hertz, as it is stored.
    pub fn output_sampling_frequenct(&self) -> (f: Float)
        ensures
            f == self.out_sampling_freq,
    {
        self.out_sampling_freq
    }
}

/// Contains parsed information about a matroka track.
#[derive(Debug)]
pub struct Info {
    number: u64,
    uid: u64,
    kind: Kind,
    codec_id: String,
}

/// A track as the format defines it.
pub struct InfoSpec {
    pub number: u64,
    pub uid: u64,
    pub kind: Kind,
    pub codec_id: Seq<char>,
}

impl View for Info {
    type V = InfoSpec;

    closed spec fn view(&self) -> InfoSpec {
        InfoSpec { number: self.number, uid: self.uid, kind: self.kind, codec_id: self.codec_id@ }
    }
}

impl Info {
    /// Index number of the track.
    pub fn index(&self) -> (n: u64)
        ensures
            n == self@.number,
    {
        self.number
    }

    /// Uinique identifier of the track.
    pub fn uid(&self) -> (uid: u64)
        ensures
            uid == self@.uid,
    {
        self.uid
    }

    /// Domain-specific track type and associated data.
    pub fn kind(&self) -> (kind: &Kind)
        ensures
            *kind == self@.kind,
    {
        &self.kind
    }

    /// String identifier of the codec of the track.
    pub fn codec(&self) -> (codec: &str)
        ensures
            codec@ == self@.codec_id,
    {
        self.codec_id.as_str()
    }

    /// The number, the identifier, the kind and the codec of the track, which
    /// is given up for them.
    pub fn into_parts(self) -> (parts: (u64, u64, Kind, String))
        ensures
            parts.0 == self@.number,
            parts.1 == self@.uid,
            parts.2 == self@.kind,
            parts.3@ == self@.codec_id,
    {
        (self.number, self.uid, self.kind, self.codec_id)
    }
}

/// The sampling frequency of an audio track that names none.
pub open spec fn spec_default_sampling_frequency() -> Float {
    Float { bits: DEFAULT_SAMPLING_FREQUENCY_BITS, double: true }
}

/// What a video track says of itself: the children `video` of its `Video`
/// element must hold a `PixelWidth` and a `PixelHeight`.
pub open spec fn spec_video(video: Seq<ElementSpec>) -> Result<Kind, Error> {
    match spec_required_uint(video, el::PIXEL_WIDTH) {
        Err(e) => Err(e),
        Ok(width) => match spec_required_uint(video, el::PIXEL_HEIGHT) {
            Err(e) => Err(e),
            Ok(height) => Ok(Kind::Video(Video { pixel_width: width, pixel_height: height })),
        },
    }
}

/// What an audio track says of itself, in the children `audio` of its `Audio`
/// element: one channel where `Channels` is missing, 8000 Hz where
/// `SamplingFrequency` is, and an output frequency that is the sampling
/// frequency where `OutputSamplingFrequency` is.
pub open spec fn spec_audio(audio: Seq<ElementSpec>) -> Result<Kind, Error> {
    match spec_optional_uint(audio, el::CHANNELS, DEFAULT_CHANNELS) {
        Err(e) => Err(e),
        Ok(channels) => match spec_optional_float(
            audio,
            el::SAMPLING_FREQUENCY,
            spec_default_sampling_frequency(),
        ) {
            Err(e) => Err(e),
            Ok(freq) => match spec_optional_float(audio, el::OUTPUT_SAMPLING_FREQUENCY, freq) {
                Err(e) => Err(e),
                Ok(out_freq) => Ok(
                    Kind::Audio(
                        Audio { channels: channels, sampling_freq: freq, out_sampling_freq: out_freq },
                    ),
                ),
            },
        },
    }
}

/// The kind of a track of type `track_type` whose entry has the children
/// `data`. A type that the format does not know is refused.
pub open spec fn spec_kind(data: Seq<ElementSpec>, track_type: u64) -> Result<Kind, Error> {
    if track_type == 0x01 {
        match spec_required_children(data, el::VIDEO) {
            Err(e) => Err(e),
            Ok(video) => spec_video(video),
        }
    } else if track_type == 0x02 {
        match spec_required_children(data, el::AUDIO) {
            Err(e) => Err(e),
            Ok(audio) => spec_audio(audio),
        }
    } else if track_type == 0x03 {
        Ok(Kind::Complex)
    } else if track_type == 0x10 {
        Ok(Kind::Logo)
    } else if track_type == 0x11 {
        Ok(Kind::Subtitle)
    } else if track_type == 0x12 {
        Ok(Kind::Buttons)
    } else if track_type == 0x20 {
        Ok(Kind::Control)
    } else {
        Err(Error::InvalidElementValue { id: el::TRACK_TYPE, detail: Detail::OutOfRange(track_type) })
    }
}

/// The track that one `TrackEntry` describes. Its `TrackNumber`, `TrackUID`,
/// `CodecID` and `TrackType` must be there.
pub open spec fn spec_track(entry: ElementSpec) -> Result<InfoSpec, Error> {
    match spec_children(entry.data) {
        Err(e) => Err(e),
        Ok(data) => match spec_required_uint(data, el::TRACK_NUMBER) {
            Err(e) => Err(e),
            Ok(number) => match spec_required_uint(data, el::TRACK_UID) {
                Err(e) => Err(e),
                Ok(uid) => match spec_required_utf8(data, el::CODEC_ID) {
                    Err(e) => Err(e),
                    Ok(codec_id) => match spec_required_uint(data, el::TRACK_TYPE) {
                        Err(e) => Err(e),
                        Ok(track_type) => match spec_kind(data, track_type) {
                            Err(e) => Err(e),
                            Ok(kind) => Ok(
                                InfoSpec { number: number, uid: uid, kind: kind, codec_id: codec_id },
                            ),
                        },
                    },
                },
            },
        },
    }
}

/// The tracks that the elements of `elems` from index `from` on describe, in
/// order, or the error of the first element that describes none.
pub open spec fn spec_tracks(elems: Seq<ElementSpec>, from: int) -> Result<Seq<InfoSpec>, Error>
    decreases elems.len() - from,
{
    if from < 0 || from >= elems.len() {
        Ok(Seq::empty())
    } else {
        match spec_track(elems[from]) {
            Err(e) => Err(e),
            Ok(track) => match spec_tracks(elems, from + 1) {
                Err(e) => Err(e),
                Ok(rest) => Ok(seq![track] + rest),
            },
        }
    }
}

/// The tracks that the children `elems` of a `Tracks` element describe.
pub open spec fn spec_read(elems: Seq<ElementSpec>) -> Result<Seq<InfoSpec>, Error> {
    spec_tracks(elems, 0)
}

/// The tracks `tracks` as the format defines them.
pub open spec fn tracks_view(tracks: Seq<Info>) -> Seq<InfoSpec> {
    Seq::new(tracks.len(), |i: int| tracks[i]@)
}

/// Read what a track says of its kind.
fn read_kind(data: &ElementArray, track_type: u64) -> (r: Result<Kind, Error>)
    ensures
        r == spec_kind(data@, track_type),
{
    if track_type == 0x01 {
        let video = data.required_children(el::VIDEO)?;
        let pw: u64 = video.required_uint(el::PIXEL_WIDTH)?;
        let ph: u64 = video.required_uint(el::PIXEL_HEIGHT)?;
        Ok(Kind::Video(Video { pixel_width: pw, pixel_height: ph }))
    } else if track_type == 0x02 {
        let audio = data.required_children(el::AUDIO)?;
        let channels: u64 = audio.optional_uint(el::CHANNELS, DEFAULT_CHANNELS)?;
        let sampling_freq = audio.optional_float(
            el::SAMPLING_FREQUENCY,
            Float { bits: DEFAULT_SAMPLING_FREQUENCY_BITS, double: true },
        )?;
        let out_sampling_freq = audio.optional_float(el::OUTPUT_SAMPLING_FREQUENCY, sampling_freq)?;
        Ok(
            Kind::Audio(
                Audio {
                    channels: channels,
                    sampling_freq: sampling_freq,
                    out_sampling_freq: out_sampling_freq,
                },
            ),
        )
    } else if track_type == 0x03 {
        Ok(Kind::Complex)
    } else if track_type == 0x10 {
        Ok(Kind::Logo)
    } else if track_type == 0x11 {
        Ok(Kind::Subtitle)
    } else if track_type == 0x12 {
        Ok(Kind::Buttons)
    } else if track_type == 0x20 {
        Ok(Kind::Control)
    } else {
        Err(Error::InvalidElementValue { id: el::TRACK_TYPE, detail: Detail::OutOfRange(track_type) })
    }
}

/// Read information about all tracks in the matroska file. Expected input: children of the
/// `Track` master element.
pub fn read(elems: ElementArray) -> (r: Result<Vec<Info>, Error>)
    ensures
        match r {
            Ok(tracks) => spec_read(elems@) == Ok::<_, Error>(tracks_view(tracks@)),
            Err(e) => spec_read(elems@) == Err::<Seq<InfoSpec>, _>(e),
        },
{
    let mut tracks: Vec<Info> = Vec::new();
    let mut i: usize = 0;
    proof {
        assert(tracks_view(tracks@) =~= Seq::<InfoSpec>::empty());
        match spec_tracks(elems@, 0) {
            Ok(rest) => {
                assert(Seq::<InfoSpec>::empty() + rest =~= rest);
            },
            Err(_) => {},
        }
    }
    while i < elems.len()
        invariant
            i <= elems@.len(),
            spec_tracks(elems@, 0) == (match spec_tracks(elems@, i as int) {
                Ok(rest) => Ok(tracks_view(tracks@) + rest),
                Err(e) => Err(e),
            }),
        decreases elems@.len() - i,
    {
        let ghost done = tracks_view(tracks@);
        let track_entry = elems.at(i);
        let data = track_entry.children()?;
        let number: u64 = data.required_uint(el::TRACK_NUMBER)?;
        let uid: u64 = data.required_uint(el::TRACK_UID)?;
        let codec_id = data.required_utf8(el::CODEC_ID)?;
        let track_type: u64 = data.required_uint(el::TRACK_TYPE)?;
        let kind = read_kind(&data, track_type)?;
        let track = Info { number: number, uid: uid, codec_id: codec_id, kind: kind };
        proof {
            match spec_tracks(elems@, i + 1) {
                Ok(rest) => {
                    assert(done + (seq![track@] + rest) =~= (done + seq![track@]) + rest);
                },
                Err(_) => {},
            }
        }
        tracks.push(track);
        proof {
            assert(tracks_view(tracks@) =~= done + seq![track@]);
        }
        i = i + 1;
    }
    proof {
        assert(tracks_view(tracks@) + Seq::<InfoSpec>::empty() =~= tracks_view(tracks@));
    }
    Ok(tracks)
}

} // verus!
