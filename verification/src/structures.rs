//! MKV Data Structures.

use vstd::prelude::*;
use vstd::string::StringExecFns;
use crate::ebml::element::Float;
use crate::io::SeekEntrySpec;
use crate::reader::track::{spec_default_sampling_frequency, DEFAULT_SAMPLING_FREQUENCY_BITS};

verus! {

/// Seek entry to an EBML Element.
#[derive(Debug)]
pub struct SeekEntry {
    pub id: Vec<u8>,
    pub position: u64,
}

impl View for SeekEntry {
    type V = SeekEntrySpec;

    open spec fn view(&self) -> SeekEntrySpec {
        SeekEntrySpec { id: self.id@, position: self.position }
    }
}

/// Whether `x` is the seek entry that says nothing: no identifier, and the
/// position zero.
pub open spec fn spec_seek_entry_default(x: SeekEntry) -> bool {
    x.id@ == Seq::<u8>::empty() && x.position == 0
}

impl Default for SeekEntry {
    fn default() -> (x: Self)
        ensures
            spec_seek_entry_default(x),
    {
        SeekEntry { id: Vec::new(), position: 0 }
    }
}

/// Contains miscellaneous general information and statistics on the file.
#[derive(Debug)]
pub struct SegmentInfo {
    pub uid: Vec<u8>,
    pub segment_filename: String,
    pub prev_uid: Vec<u8>,
    pub prev_filename: String,
    pub next_uid: Vec<u8>,
    pub next_filename: String,
    pub segment_familys: Vec<Vec<u8>>,
    pub chapter_translates: Vec<ChapterTranslate>,
    pub timecode_scale: u64,
    pub duration: Float,
    pub date_utc: Vec<u8>,
    pub title: String,
    pub muxing_app: String,
    pub writing_app: String,
}

/// Whether every field of the segment information `x` has its default: a
/// timestamp scale of 1,000,000 and nothing else.
pub open spec fn spec_segment_info_default(x: SegmentInfo) -> bool {
    &&& x.uid@ == Seq::<u8>::empty()
    &&& x.segment_filename@ == Seq::<char>::empty()
    &&& x.prev_uid@ == Seq::<u8>::empty()
    &&& x.prev_filename@ == Seq::<char>::empty()
    &&& x.next_uid@ == Seq::<u8>::empty()
    &&& x.next_filename@ == Seq::<char>::empty()
    &&& x.segment_familys@.len() == 0
    &&& x.chapter_translates@.len() == 0
    &&& x.timecode_scale == 1000000
    &&& x.duration == (Float { bits: 0, double: true })
    &&& x.date_utc@ == Seq::<u8>::empty()
    &&& x.title@ == Seq::<char>::empty()
    &&& x.muxing_app@ == Seq::<char>::empty()
    &&& x.writing_app@ == Seq::<char>::empty()
}

impl Default for SegmentInfo {
    fn default() -> (x: Self)
        ensures
            spec_segment_info_default(x),
    {
        SegmentInfo {
            uid: Vec::new(),
            segment_filename: String::new(),
            prev_uid: Vec::new(),
            prev_filename: String::new(),
            next_uid: Vec::new(),
            next_filename: String::new(),
            segment_familys: Vec::new(),
            chapter_translates: Vec::new(),
            timecode_scale: 1000000,
            duration: Float { bits: 0, double: true },
            date_utc: Vec::new(),
            title: String::new(),
            muxing_app: String::new(),
            writing_app: String::new(),
        }
    }
}

/// A tuple of corresponding ID used by chapter codecs to represent a segment.
#[derive(Debug)]
pub struct ChapterTranslate {
    pub edition_uids: Vec<u64>,
    pub codec: u64,
    pub id: Vec<u8>,
}

/// A `ChapterTranslate` as the format defines it.
pub struct ChapterTranslateSpec {
    pub edition_uids: Seq<u64>,
    pub codec: u64,
    pub id: Seq<u8>,
}

impl View for ChapterTranslate {
    type V = ChapterTranslateSpec;

    open spec fn view(&self) -> ChapterTranslateSpec {
        ChapterTranslateSpec { edition_uids: self.edition_uids@, codec: self.codec, id: self.id@ }
    }
}

/// Whether `x` is the `ChapterTranslate` that says nothing.
pub open spec fn spec_chapter_translate_default(x: ChapterTranslate) -> bool {
    x.edition_uids@.len() == 0 && x.codec == 0 && x.id@ == Seq::<u8>::empty()
}

impl Default for ChapterTranslate {
    fn default() -> (x: Self)
        ensures
            spec_chapter_translate_default(x),
    {
        ChapterTranslate { edition_uids: Vec::new(), codec: 0, id: Vec::new() }
    }
}

/// Contains information about a track.
#[derive(Debug)]
pub struct Track {
    pub number: u64,
    pub uid: u64,
    pub track_type: u64,
    pub flag_enabled: u64,
    pub flag_default: u64,
    pub flag_forced: u64,
    pub flag_lacing: u64,
    pub min_cache: u64,
    pub max_cache: u64,
    pub default_duration: u64,
    pub default_decoded_field_duration: u64,
    pub track_timecode_scale: Float,
    pub track_offset: i64,
    pub max_block_addition_id: u64,
    pub name: String,
    pub language: String,
    pub codec_id: String,
    pub codec_private: Vec<u8>,
    pub codec_name: String,
    pub attachment_link: u64,
    pub codec_settings: String,
    pub codec_info_url: String,
    pub codec_download_url: String,
    pub codec_decode_all: u64,
    pub track_overlay: u64,
    pub codec_delay: u64,
    pub seek_pre_roll: u64,
    pub video: Option<TrackVideo>,
    pub audio: Option<TrackAudio>,
}

/// Whether every field of the track `x` has its default.
pub open spec fn spec_track_default(x: Track) -> bool {
    &&& x.number == 0
    &&& x.uid == 0
    &&& x.track_type == 0
    &&& x.flag_enabled == 1
    &&& x.flag_default == 1
    &&& x.flag_forced == 0
    &&& x.flag_lacing == 1
    &&& x.min_cache == 0
    &&& x.max_cache == 0
    &&& x.default_duration == 0
    &&& x.default_decoded_field_duration == 0
    &&& x.track_timecode_scale == (Float { bits: 0, double: true })
    &&& x.track_offset == 0
    &&& x.max_block_addition_id == 0
    &&& x.name@ == Seq::<char>::empty()
    &&& x.language@ == "eng"@
    &&& x.codec_id@ == Seq::<char>::empty()
    &&& x.codec_private@ == Seq::<u8>::empty()
    &&& x.codec_name@ == Seq::<char>::empty()
    &&& x.attachment_link == 0
    &&& x.codec_settings@ == Seq::<char>::empty()
    &&& x.codec_info_url@ == Seq::<char>::empty()
    &&& x.codec_download_url@ == Seq::<char>::empty()
    &&& x.codec_decode_all == 1
    &&& x.track_overlay == 0
    &&& x.codec_delay == 0
    &&& x.seek_pre_roll == 0
    &&& x.video.is_none()
    &&& x.audio.is_none()
}

impl Default for Track {
    fn default() -> (x: Self)
        ensures
            spec_track_default(x),
    {
        Track {
            number: 0,
            uid: 0,
            track_type: 0,
            flag_enabled: 1,
            flag_default: 1,
            flag_forced: 0,
            flag_lacing: 1,
            min_cache: 0,
            max_cache: 0,
            default_duration: 0,
            default_decoded_field_duration: 0,
            track_timecode_scale: Float { bits: 0, double: true },
            track_offset: 0,
            max_block_addition_id: 0,
            name: String::new(),
            language: String::from_str("eng"),
            codec_id: String::new(),
            codec_private: Vec::new(),
            codec_name: String::new(),
            attachment_link: 0,
            codec_settings: String::new(),
            codec_info_url: String::new(),
            codec_download_url: String::new(),
            codec_decode_all: 1,
            track_overlay: 0,
            codec_delay: 0,
            seek_pre_roll: 0,
            video: None,
            audio: None,
        }
    }
}

/// Audio-specific track information.
#[derive(Debug)]
pub struct TrackAudio {
    pub sampling_frequency: Float,
    pub output_sampling_frequency: Float,
    pub channels: u64,
    pub channel_positions: Vec<u8>,
    pub bit_depth: u64,
}

/// Whether every field of the audio information `x` has its default.
pub open spec fn spec_audio_default(x: TrackAudio) -> bool {
    &&& x.sampling_frequency == spec_default_sampling_frequency()
    &&& x.output_sampling_frequency == spec_default_sampling_frequency()
    &&& x.channels == 1
    &&& x.channel_positions@ == Seq::<u8>::empty()
    &&& x.bit_depth == 0
}

impl Default for TrackAudio {
    fn default() -> (x: Self)
        ensures
            spec_audio_default(x),
    {
        TrackAudio {
            sampling_frequency: Float { bits: DEFAULT_SAMPLING_FREQUENCY_BITS, double: true },
            output_sampling_frequency: Float { bits: DEFAULT_SAMPLING_FREQUENCY_BITS, double: true },
            channels: 1,
            channel_positions: Vec::new(),
            bit_depth: 0,
        }
    }
}

/// Video-specific track information.
#[derive(Debug)]
pub struct TrackVideo {
    pub flag_interlaced: u64,
    pub field_order: u64,
    pub stereo_mode: u64,
    pub alpha_mode: u64,
    pub old_stereo_mode: u64,
    pub pixel_width: u64,
    pub pixel_height: u64,
    pub pixel_crop_bottom: u64,
    pub pixel_crop_top: u64,
    pub pixel_crop_left: u64,
    pub pixel_crop_right: u64,
    pub display_width: u64,
    pub display_height: u64,
    pub display_unit: u64,
    pub aspect_ratio_type: u64,
    pub colour_space: Vec<u8>,
    pub gamma_value: Float,
    pub frame_rate: Float,
    pub color: Option<TrackVideoColor>,
}

/// Whether every field of the video information `x` has its default.
pub open spec fn spec_video_default(x: TrackVideo) -> bool {
    &&& x.flag_interlaced == 0
    &&& x.field_order == 2
    &&& x.stereo_mode == 0
    &&& x.alpha_mode == 0
    &&& x.old_stereo_mode == 0
    &&& x.pixel_width == 0
    &&& x.pixel_height == 0
    &&& x.pixel_crop_bottom == 0
    &&& x.pixel_crop_top == 0
    &&& x.pixel_crop_left == 0
    &&& x.pixel_crop_right == 0
    &&& x.display_width == 0
    &&& x.display_height == 0
    &&& x.display_unit == 0
    &&& x.aspect_ratio_type == 0
    &&& x.colour_space@ == Seq::<u8>::empty()
    &&& x.gamma_value == (Float { bits: 0, double: true })
    &&& x.frame_rate == (Float { bits: 0, double: true })
    &&& x.color.is_none()
}

impl Default for TrackVideo {
    fn default() -> (x: Self)
        ensures
            spec_video_default(x),
    {
        TrackVideo {
            flag_interlaced: 0,
            field_order: 2,
            stereo_mode: 0,
            alpha_mode: 0,
            old_stereo_mode: 0,
            pixel_width: 0,
            pixel_height: 0,
            pixel_crop_bottom: 0,
            pixel_crop_top: 0,
            pixel_crop_left: 0,
            pixel_crop_right: 0,
            display_width: 0,
            display_height: 0,
            display_unit: 0,
            aspect_ratio_type: 0,
            colour_space: Vec::new(),
            gamma_value: Float { bits: 0, double: true },
            frame_rate: Float { bits: 0, double: true },
            color: None,
        }
    }
}

/// Color information for a video track.
#[derive(Debug)]
pub struct TrackVideoColor {
    pub matrix_coefficients: u64,
    pub bits_per_channel: u64,
    pub chroma_subsampling_horz: u64,
    pub chroma_subsampling_vert: u64,
    pub cb_subsampling_horz: u64,
    pub cb_subsampling_vert: u64,
    pub chroma_siting_horz: u64,
    pub chroma_siting_vert: u64,
    pub range: u64,
    pub transfer_characteristics: u64,
    pub primaries: u64,
    pub max_cll: u64,
    pub max_fall: u64,
    pub mastering_data: Option<TrackVideoColorMasteringData>,
}

/// Whether every field of the color information `x` has its default.
pub open spec fn spec_video_color_default(x: TrackVideoColor) -> bool {
    &&& x.matrix_coefficients == 2
    &&& x.bits_per_channel == 0
    &&& x.chroma_subsampling_horz == 0
    &&& x.chroma_subsampling_vert == 0
    &&& x.cb_subsampling_horz == 0
    &&& x.cb_subsampling_vert == 0
    &&& x.chroma_siting_horz == 0
    &&& x.chroma_siting_vert == 0
    &&& x.range == 0
    &&& x.transfer_characteristics == 2
    &&& x.primaries == 0
    &&& x.max_cll == 0
    &&& x.max_fall == 0
    &&& x.mastering_data.is_none()
}

impl Default for TrackVideoColor {
    fn default() -> (x: Self)
        ensures
            spec_video_color_default(x),
    {
        TrackVideoColor {
            matrix_coefficients: 2,
            bits_per_channel: 0,
            chroma_subsampling_horz: 0,
            chroma_subsampling_vert: 0,
            cb_subsampling_horz: 0,
            cb_subsampling_vert: 0,
            chroma_siting_horz: 0,
            chroma_siting_vert: 0,
            range: 0,
            transfer_characteristics: 2,
            primaries: 0,
            max_cll: 0,
            max_fall: 0,
            mastering_data: None,
        }
    }
}

/// Color mastering metadata for a video track.
#[derive(Debug)]
pub struct TrackVideoColorMasteringData {
    pub primary_r_chromaticity_x: Float,
    pub primary_r_chromaticity_y: Float,
    pub primary_g_chromaticity_x: Float,
    pub primary_g_chromaticity_y: Float,
    pub primary_b_chromaticity_x: Float,
    pub primary_b_chromaticity_y: Float,
    pub white_point_chromaticity_x: Float,
    pub white_point_chromaticity_y: Float,
    pub luminance_max: Float,
    pub luminance_min: Float,
}

/// Whether every field of the mastering metadata `x` has its default.
pub open spec fn spec_mastering_data_default(x: TrackVideoColorMasteringData) -> bool {
    &&& x.primary_r_chromaticity_x == (Float { bits: 0, double: true })
    &&& x.primary_r_chromaticity_y == (Float { bits: 0, double: true })
    &&& x.primary_g_chromaticity_x == (Float { bits: 0, double: true })
    &&& x.primary_g_chromaticity_y == (Float { bits: 0, double: true })
    &&& x.primary_b_chromaticity_x == (Float { bits: 0, double: true })
    &&& x.primary_b_chromaticity_y == (Float { bits: 0, double: true })
    &&& x.white_point_chromaticity_x == (Float { bits: 0, double: true })
    &&& x.white_point_chromaticity_y == (Float { bits: 0, double: true })
    &&& x.luminance_max == (Float { bits: 0, double: true })
    &&& x.luminance_min == (Float { bits: 0, double: true })
}

impl Default for TrackVideoColorMasteringData {
    fn default() -> (x: Self)
        ensures
            spec_mastering_data_default(x),
    {
        TrackVideoColorMasteringData {
            primary_r_chromaticity_x: Float { bits: 0, double: true },
            primary_r_chromaticity_y: Float { bits: 0, double: true },
            primary_g_chromaticity_x: Float { bits: 0, double: true },
            primary_g_chromaticity_y: Float { bits: 0, double: true },
            primary_b_chromaticity_x: Float { bits: 0, double: true },
            primary_b_chromaticity_y: Float { bits: 0, double: true },
            white_point_chromaticity_x: Float { bits: 0, double: true },
            white_point_chromaticity_y: Float { bits: 0, double: true },
            luminance_max: Float { bits: 0, double: true },
            luminance_min: Float { bits: 0, double: true },
        }
    }
}


} // verus!
