//! MKV Track information reading.

use vstd::prelude::*;
use crate::error::Error;
use crate::ebml::element::{ElementArray, Float};
use crate::reader::track;
use crate::reader::track::{Audio, InfoSpec, Kind, Video};

verus! {

/// Possible MKV track types.
#[derive(Clone, Copy, Debug, PartialEq, Eq, Structural)]
pub enum TrackKind {
    Video(VideoTrack),
    Audio(AudioTrack),
    Complex,
    Logo,
    Subtitle,
    Buttons,
    Control,
}

/// Information about a video track.
#[derive(Clone, Copy, Debug, PartialEq, Eq, Structural)]
pub struct VideoTrack {
    pub pixel_width: u64,
    pub pixel_height: u64,
}

impl VideoTrack {
    /// Return the width in pixel of this video track.
    pub fn width(&self) -> (w: u64)
        ensures
            w == self.pixel_width,
    {
        self.pixel_width
    }

    /// Return the height in pixel of this video track.
    pub fn height(&self) -> (h: u64)
        ensures
            h == self.pixel_height,
    {
        self.pixel_height
    }
}

/// Information about an audio track.
#[derive(Clone, Copy, Debug, PartialEq, Eq, Structural)]
pub struct AudioTrack {
    pub channels: u64,
    pub sampling_freq: Float,
    pub out_sampling_freq: Float,
}

impl AudioTrack {
    /// Return the number of channels that this track is composed of.
    pub fn channel_count(&self) -> (n: u64)
        ensures
            n == self.channels,
    {
        self.channels
    }

    /// Return the sampling frequency of the audio samples of this track: the
    /// frequency at which they are put out, as it is stored.
    pub fn sampling_frequency(&self) -> (f: Float)
        ensures
            f == self.out_sampling_freq,
    {
        self.out_sampling_freq
    }
}

/// The kind `kind` as the format defines it.
pub open spec fn spec_kind(kind: TrackKind) -> Kind {
    match kind {
        TrackKind::Video(v) => Kind::Video(
            Video { pixel_width: v.pixel_width, pixel_height: v.pixel_height },
        ),
        TrackKind::Audio(a) => Kind::Audio(
            Audio {
                channels: a.channels,
                sampling_freq: a.sampling_freq,
                out_sampling_freq: a.out_sampling_freq,
            },
        ),
        TrackKind::Complex => Kind::Complex,
        TrackKind::Logo => Kind::Logo,
        TrackKind::Subtitle => Kind::Subtitle,
        TrackKind::Buttons => Kind::Buttons,
        TrackKind::Control => Kind::Control,
    }
}

/// Contains parsed information about an MKV track.
#[derive(Debug)]
pub struct Track {
    number: u64,
    uid: u64,
    kind: TrackKind,
    codec_id: String,
}

impl View for Track {
    type V = InfoSpec;

    closed spec fn view(&self) -> InfoSpec {
        InfoSpec {
            number: self.number,
            uid: self.uid,
            kind: spec_kind(self.kind),
            codec_id: self.codec_id@,
        }
    }
}

impl Track {
    /// Return the number of this track.
    pub fn number(&self) -> (n: u64)
        ensures
            n == self@.number,
    {
        self.number
    }

    /// Return the UID of this track.
    pub fn uid(&self) -> (uid: u64)
        ensures
            uid == self@.uid,
    {
        self.uid
    }

    /// Return the type of this track (Audio, Video, Subtitle...) and associated domain-specific
    /// information.
    pub fn kind(&self) -> (kind: &TrackKind)
        ensures
            spec_kind(*kind) == self@.kind,
    {
        &self.kind
    }

    /// Returns a string that identifies the codec of this track.
    pub fn codec(&self) -> (codec: &str)
        ensures
            codec@ == self@.codec_id,
    {
        self.codec_id.as_str()
    }
}

/// The tracks `tracks` as the format defines them.
pub open spec fn tracks_view(tracks: Seq<Track>) -> Seq<InfoSpec> {
    Seq::new(tracks.len(), |i: int| tracks[i]@)
}

/// The kind `kind` under its other name.
fn kind_of(kind: Kind) -> (r: TrackKind)
    ensures
        spec_kind(r) == kind,
{
    match kind {
        Kind::Video(v) => TrackKind::Video(
            VideoTrack { pixel_width: v.pixel_width, pixel_height: v.pixel_height },
        ),
        Kind::Audio(a) => TrackKind::Audio(
            AudioTrack {
                channels: a.channels,
                sampling_freq: a.sampling_freq,
                out_sampling_freq: a.out_sampling_freq,
            },
        ),
        Kind::Complex => TrackKind::Complex,
        Kind::Logo => TrackKind::Logo,
        Kind::Subtitle => TrackKind::Subtitle,
        Kind::Buttons => TrackKind::Buttons,
        Kind::Control => TrackKind::Control,
    }
}

/// Read information about all tracks in the MKV source.
pub fn read_track_information(track_info: ElementArray) -> (r: Result<Vec<Track>, Error>)
    ensures
        match r {
            Ok(tracks) => track::spec_read(track_info@) == Ok::<_, Error>(tracks_view(tracks@)),
            Err(e) => track::spec_read(track_info@) == Err::<Seq<InfoSpec>, _>(e),
        },
{
    let mut infos = track::read(track_info)?;
    let ghost expected = track::tracks_view(infos@);
    let mut reversed: Vec<Track> = Vec::new();
    while infos.len() > 0
        invariant
            infos@.len() + reversed@.len() == expected.len(),
            forall|i: int| 0 <= i < infos@.len() ==> (#[trigger] infos@[i])@ == expected[i],
            forall|i: int|
                0 <= i < reversed@.len() ==> (#[trigger] reversed@[i])@ == expected[expected.len()
                    - 1 - i],
        decreases infos@.len(),
    {
        match infos.pop() {
            Some(info) => {
                let (number, uid, kind, codec_id) = info.into_parts();
                reversed.push(
                    Track { number: number, uid: uid, kind: kind_of(kind), codec_id: codec_id },
                );
            },
            None => {},
        }
    }
    let mut tracks: Vec<Track> = Vec::new();
    while reversed.len() > 0
        invariant
            tracks@.len() + reversed@.len() == expected.len(),
            forall|i: int| 0 <= i < tracks@.len() ==> (#[trigger] tracks@[i])@ == expected[i],
            forall|i: int|
                0 <= i < reversed@.len() ==> (#[trigger] reversed@[i])@ == expected[expected.len()
                    - 1 - i],
        decreases reversed@.len(),
    {
        match reversed.pop() {
            Some(track) => {
                tracks.push(track);
            },
            None => {},
        }
    }
    proof {
        assert(tracks_view(tracks@) =~= expected);
    }
    Ok(tracks)
}

} // verus!
