//! Records read field by field.

use mkv::ebml::element::Float;
use mkv::ebml::reader::Source;
use mkv::error::{Detail, Error};
use mkv::io::parse;
use mkv::structures::{
    ChapterTranslate, SeekEntry, SegmentInfo, Track, TrackAudio, TrackVideo, TrackVideoColor,
    TrackVideoColorMasteringData,
};

/// An element: the bytes of its identifier, its size and its content.
fn element(id: &[u8], content: &[u8]) -> Vec<u8> {
    let mut bytes = id.to_vec();
    if content.len() < 0x7f {
        bytes.push(0x80 | content.len() as u8);
    } else {
        bytes.push(0x40 | (content.len() >> 8) as u8);
        bytes.push(content.len() as u8);
    }
    bytes.extend(content);
    bytes
}

const ZERO: Float = Float { bits: 0, double: true };

#[test]
fn defaults() {
    let seek = SeekEntry::default();
    assert_eq!((seek.id, seek.position), (Vec::new(), 0));

    let info = SegmentInfo::default();
    assert_eq!(info.timecode_scale, 1000000);
    assert_eq!(info.duration, ZERO);
    assert!(info.uid.is_empty() && info.segment_filename.is_empty());
    assert!(info.segment_familys.is_empty() && info.chapter_translates.is_empty());

    let translate = ChapterTranslate::default();
    assert_eq!((translate.edition_uids, translate.codec, translate.id), (vec![], 0, vec![]));

    let track = Track::default();
    assert_eq!((track.number, track.uid, track.track_type), (0, 0, 0));
    assert_eq!((track.flag_enabled, track.flag_default, track.flag_forced), (1, 1, 0));
    assert_eq!((track.flag_lacing, track.codec_decode_all), (1, 1));
    assert_eq!(track.language, "eng");
    assert_eq!(track.name, "");
    assert_eq!(track.track_offset, 0);
    assert_eq!(track.track_timecode_scale, ZERO);
    assert!(track.video.is_none() && track.audio.is_none());

    let video = TrackVideo::default();
    assert_eq!((video.field_order, video.flag_interlaced, video.pixel_width), (2, 0, 0));
    assert!(video.color.is_none());

    let color = TrackVideoColor::default();
    assert_eq!((color.matrix_coefficients, color.transfer_characteristics), (2, 2));
    assert_eq!((color.bits_per_channel, color.range), (0, 0));
    assert!(color.mastering_data.is_none());

    let mastering = TrackVideoColorMasteringData::default();
    assert_eq!(mastering.luminance_max, ZERO);
    assert_eq!(mastering.primary_r_chromaticity_x, ZERO);

    let audio = TrackAudio::default();
    assert_eq!(audio.channels, 1);
    assert_eq!(f64::from_bits(audio.sampling_frequency.bits), 8000.0);
    assert_eq!(f64::from_bits(audio.output_sampling_frequency.bits), 8000.0);
    assert_eq!(audio.bit_depth, 0);
}

#[test]
fn segment_info_with_lists() {
    let translate = |codec: u8| {
        element(
            &[0x69, 0x24],
            &[element(&[0x69, 0xfc], &[7]), element(&[0x69, 0xbf], &[codec])].concat(),
        )
    };
    let content = [
        element(&[0x44, 0x44], &[1; 16]),
        translate(0),
        element(&[0x7b, 0xa9], "Le film".as_bytes()),
        element(&[0x44, 0x44], &[2; 16]),
        translate(1),
        element(&[0x2a, 0xd7, 0xb1], &[0x0f, 0x42, 0x40]),
        element(&[0x44, 0x89], &[0x40, 0xdf, 0xb8, 0, 0, 0, 0, 0]),
        element(&[0x3c, 0x83, 0xab], b"before.mkv"),
        element(&[0x3e, 0xb9, 0x23], &[9]),
    ]
    .concat();
    let bytes = element(&[0x15, 0x49, 0xa9, 0x66], &content);
    let len = bytes.len();
    let mut source = Source::new(bytes);
    let (info, n) = parse::segment_info(&mut source).unwrap();
    assert_eq!(n, len);
    assert_eq!(info.segment_familys, vec![vec![1u8; 16], vec![2u8; 16]]);
    assert_eq!(info.chapter_translates.len(), 2);
    assert_eq!(info.chapter_translates[0].edition_uids, vec![7]);
    assert_eq!(info.chapter_translates[1].codec, 1);
    assert_eq!(info.title, "Le film");
    assert_eq!(info.prev_filename, "before.mkv");
    assert_eq!(info.next_uid, vec![9]);
    assert_eq!(info.timecode_scale, 1_000_000);
    assert!(info.duration.double);
    assert_eq!(f64::from_bits(info.duration.bits), 32480.0);
}

#[test]
fn segment_info_errors_in_field_order() {
    // The title stands first and is no text; the file name is no text
    // either, and is the field that comes first.
    let content = [element(&[0x7b, 0xa9], &[0xff]), element(&[0x73, 0x84], &[0xfe])].concat();
    let mut source = Source::new(element(&[0x15, 0x49, 0xa9, 0x66], &content));
    assert_eq!(
        parse::segment_info(&mut source).unwrap_err(),
        Error::InvalidElementValue { id: 0x7384, detail: Detail::NotUtf8 }
    );
    assert_eq!(source.position(), 0);
    let mut source = Source::new(element(&[0x16, 0x54, 0xae, 0x6b], &[]));
    assert_eq!(
        parse::segment_info(&mut source).unwrap_err(),
        Error::UnexpectedElement { expected: 0x1549A966, found: 0x1654AE6B }
    );
}

fn video() -> Vec<u8> {
    let mastering = element(
        &[0x55, 0xd0],
        &[
            element(&[0x55, 0xd9], &[0x44, 0x7a, 0x00, 0x00]),
            element(&[0x55, 0xda], &[0x3f, 0x80, 0x00, 0x00]),
        ]
        .concat(),
    );
    let color = element(
        &[0x55, 0xb0],
        &[element(&[0x55, 0xb1], &[9]), element(&[0x55, 0xbc], &[0x03, 0xe8]), mastering].concat(),
    );
    element(
        &[0xe0],
        &[
            element(&[0xb0], &[0x0f, 0x00]),
            element(&[0xba], &[0x08, 0x70]),
            element(&[0x9a], &[1]),
            element(&[0x2e, 0xb5, 0x24], b"I420"),
            element(&[0x23, 0x83, 0xe3], &[0x41, 0xc0, 0x00, 0x00]),
            color,
        ]
        .concat(),
    )
}

#[test]
fn track_with_video() {
    let content = [
        element(&[0xd7], &[1]),
        element(&[0x73, 0xc5], &[0xab, 0xcd]),
        element(&[0x83], &[1]),
        element(&[0x86], b"V_AV1"),
        element(&[0x53, 0x6e], "Vidéo".as_bytes()),
        element(&[0x22, 0xb5, 0x9c], b"fre"),
        element(&[0x53, 0x7f], &[0xff, 0x38]),
        element(&[0x23, 0x31, 0x4f], &[0x3f, 0x80, 0x00, 0x00]),
        element(&[0x63, 0xa2], &[1, 2, 3]),
        element(&[0x9c], &[0]),
        video(),
    ]
    .concat();
    let bytes = element(&[0xae], &content);
    let len = bytes.len();
    let mut source = Source::new(bytes);
    let (track, n) = parse::track(&mut source).unwrap();
    assert_eq!(n, len);
    assert_eq!((track.number, track.uid, track.track_type), (1, 0xabcd, 1));
    assert_eq!(track.codec_id, "V_AV1");
    assert_eq!(track.name, "Vidéo");
    assert_eq!(track.language, "fre");
    assert_eq!(track.track_offset, -200);
    assert_eq!(track.track_timecode_scale, Float { bits: 0x3f800000, double: false });
    assert_eq!(track.codec_private, vec![1, 2, 3]);
    assert_eq!((track.flag_lacing, track.flag_enabled), (0, 1));
    assert!(track.audio.is_none());
    let video = track.video.unwrap();
    assert_eq!((video.pixel_width, video.pixel_height), (3840, 2160));
    assert_eq!((video.flag_interlaced, video.field_order), (1, 2));
    assert_eq!(video.colour_space, b"I420".to_vec());
    assert_eq!(f32::from_bits(video.frame_rate.bits as u32), 24.0);
    let color = video.color.unwrap();
    assert_eq!((color.matrix_coefficients, color.max_cll), (9, 1000));
    assert_eq!(color.transfer_characteristics, 2);
    let mastering = color.mastering_data.unwrap();
    assert_eq!(f32::from_bits(mastering.luminance_max.bits as u32), 1000.0);
    assert_eq!(f32::from_bits(mastering.luminance_min.bits as u32), 1.0);
    assert_eq!(mastering.primary_g_chromaticity_y, ZERO);
}

#[test]
fn track_info_with_two_tracks() {
    let audio = element(
        &[0xe1],
        &[
            element(&[0x9f], &[6]),
            element(&[0x62, 0x64], &[24]),
            element(&[0xb5], &[0x47, 0x3b, 0x80, 0x00]),
            element(&[0x7d, 0x7b], &[1, 2]),
        ]
        .concat(),
    );
    let first = element(&[0xae], &[element(&[0xd7], &[1]), video()].concat());
    let second = element(&[0xae], &[element(&[0xd7], &[2]), audio].concat());
    let mut source = Source::new(element(&[0x16, 0x54, 0xae, 0x6b], &[first, second].concat()));
    let (tracks, _) = parse::track_info(&mut source).unwrap();
    assert_eq!(tracks.len(), 2);
    assert_eq!(tracks[0].number, 1);
    assert!(tracks[0].video.is_some());
    assert_eq!(tracks[1].number, 2);
    assert_eq!(tracks[1].language, "eng");
    let audio = tracks[1].audio.as_ref().unwrap();
    assert_eq!((audio.channels, audio.bit_depth), (6, 24));
    assert_eq!(f32::from_bits(audio.sampling_frequency.bits as u32), 48000.0);
    assert_eq!(f64::from_bits(audio.output_sampling_frequency.bits), 8000.0);
    assert_eq!(audio.channel_positions, vec![1, 2]);
}

#[test]
fn track_info_with_a_broken_track() {
    let first = element(&[0xae], &element(&[0xd7], &[1]));
    let second = element(&[0xae], &element(&[0xd7], &[0; 9]));
    let mut source = Source::new(element(&[0x16, 0x54, 0xae, 0x6b], &[first, second].concat()));
    assert_eq!(
        parse::track_info(&mut source).unwrap_err(),
        Error::InvalidElementValue { id: 0xD7, detail: Detail::IntegerTooWide }
    );
    assert_eq!(source.position(), 0);
}

#[test]
fn parts_of_a_track_on_their_own() {
    let bytes = video();
    let mut source = Source::new(bytes.clone());
    let (video, n) = parse::track_video(&mut source).unwrap();
    assert_eq!(n, bytes.len());
    assert_eq!(video.pixel_width, 3840);

    let color = element(&[0x55, 0xb0], &element(&[0x55, 0xb9], &[2]));
    let mut source = Source::new(color);
    let (color, _) = parse::track_video_color(&mut source).unwrap();
    assert_eq!((color.range, color.matrix_coefficients), (2, 2));
    assert!(color.mastering_data.is_none());

    let mastering = element(&[0x55, 0xd0], &element(&[0x55, 0xd1], &[0x3f, 0, 0, 0]));
    let mut source = Source::new(mastering);
    let (mastering, _) = parse::track_video_color_mastering_data(&mut source).unwrap();
    assert_eq!(f32::from_bits(mastering.primary_r_chromaticity_x.bits as u32), 0.5);

    let audio = element(&[0xe1], &element(&[0x78, 0xb5], &[0x46, 0xfa, 0x00, 0x00]));
    let mut source = Source::new(audio);
    let (audio, _) = parse::track_audio(&mut source).unwrap();
    assert_eq!(f32::from_bits(audio.output_sampling_frequency.bits as u32), 32000.0);
    assert_eq!(audio.channels, 1);

    let mut source = Source::new(element(&[0xe1], &[]));
    assert_eq!(
        parse::track_video(&mut source).unwrap_err(),
        Error::UnexpectedElement { expected: 0xE0, found: 0xE1 }
    );
    let mut source = Source::new(element(&[0xe0], &element(&[0x2f, 0xb5, 0x23], &[1])));
    assert_eq!(
        parse::track_video(&mut source).unwrap_err(),
        Error::InvalidElementValue { id: 0x2FB523, detail: Detail::FloatWidth }
    );
}
