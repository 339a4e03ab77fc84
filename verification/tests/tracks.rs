//! Track descriptions, seek entries and cues.

use mkv::ebml::element::Float;
use mkv::ebml::reader::{read_element, Source};
use mkv::error::{Detail, Error};
use mkv::reader::track::Kind;
use mkv::reader::tracks::TrackKind;
use mkv::reader::{cues, ebml, meta_seek, segment, track, tracks, Reader};

/// An element with a size of one byte: the bytes of its identifier, its size
/// and its content.
fn element(id: &[u8], content: &[u8]) -> Vec<u8> {
    assert!(content.len() < 0x7f);
    let mut bytes = id.to_vec();
    bytes.push(0x80 | content.len() as u8);
    bytes.extend(content);
    bytes
}

const TRACKS: &[u8] = &[0x16, 0x54, 0xae, 0x6b];
const TRACK_ENTRY: &[u8] = &[0xae];
const TRACK_NUMBER: &[u8] = &[0xd7];
const TRACK_UID: &[u8] = &[0x73, 0xc5];
const TRACK_TYPE: &[u8] = &[0x83];
const CODEC_ID: &[u8] = &[0x86];
const VIDEO: &[u8] = &[0xe0];
const PIXEL_WIDTH: &[u8] = &[0xb0];
const PIXEL_HEIGHT: &[u8] = &[0xba];
const AUDIO: &[u8] = &[0xe1];
const CHANNELS: &[u8] = &[0x9f];
const SAMPLING_FREQUENCY: &[u8] = &[0xb5];
const OUTPUT_SAMPLING_FREQUENCY: &[u8] = &[0x78, 0xb5];

/// A track entry with the four mandatory children and `more`.
fn entry(number: u8, track_type: u8, codec: &[u8], more: &[u8]) -> Vec<u8> {
    element(
        TRACK_ENTRY,
        &[
            element(TRACK_NUMBER, &[number]),
            element(TRACK_UID, &[0x10, number]),
            element(CODEC_ID, codec),
            element(TRACK_TYPE, &[track_type]),
            more.to_vec(),
        ]
        .concat(),
    )
}

/// The children of a `Tracks` element that holds `entries`.
fn children(entries: &[Vec<u8>]) -> mkv::ebml::element::ElementArray {
    let mut source = Source::new(element(TRACKS, &entries.concat()));
    let (tracks, _) = read_element(&mut source).unwrap();
    tracks.children().unwrap()
}

fn video() -> Vec<u8> {
    element(
        VIDEO,
        &[element(PIXEL_WIDTH, &[0x07, 0x80]), element(PIXEL_HEIGHT, &[0x04, 0x38])].concat(),
    )
}

#[test]
fn video_and_audio_tracks() {
    let audio = element(
        AUDIO,
        &[element(CHANNELS, &[2]), element(SAMPLING_FREQUENCY, &[0x47, 0x2c, 0x44, 0x00])].concat(),
    );
    let tracks =
        track::read(children(&[entry(1, 1, b"V_VP9", &video()), entry(2, 2, b"A_OPUS", &audio)]))
            .unwrap();
    assert_eq!(tracks.len(), 2);
    assert_eq!((tracks[0].index(), tracks[0].uid(), tracks[0].codec()), (1, 0x1001, "V_VP9"));
    match tracks[0].kind() {
        Kind::Video(video) => assert_eq!((video.width(), video.height()), (1920, 1080)),
        _ => panic!("the first track is a video track"),
    }
    assert_eq!((tracks[1].index(), tracks[1].uid(), tracks[1].codec()), (2, 0x1002, "A_OPUS"));
    match tracks[1].kind() {
        Kind::Audio(audio) => {
            assert_eq!(audio.channels(), 2);
            assert_eq!(audio.sampling_frequency(), Float { bits: 0x472c4400, double: false });
            // The output frequency is the sampling frequency where none is given.
            assert_eq!(audio.output_sampling_frequenct(), audio.sampling_frequency());
        }
        _ => panic!("the second track is an audio track"),
    }
}

#[test]
fn audio_defaults() {
    let tracks = track::read(children(&[entry(1, 2, b"A_PCM", &element(AUDIO, &[]))])).unwrap();
    match tracks[0].kind() {
        Kind::Audio(audio) => {
            assert_eq!(audio.channels(), 1);
            let frequency = audio.sampling_frequency();
            assert!(frequency.double);
            assert_eq!(f64::from_bits(frequency.bits), 8000.0);
            assert_eq!(audio.output_sampling_frequenct(), frequency);
        }
        _ => panic!("the track is an audio track"),
    }
}

#[test]
fn audio_output_frequency() {
    let audio = element(
        AUDIO,
        &element(OUTPUT_SAMPLING_FREQUENCY, &[0x40, 0xe5, 0x88, 0x80, 0, 0, 0, 0]),
    );
    let tracks = track::read(children(&[entry(1, 2, b"A_AAC", &audio)])).unwrap();
    match tracks[0].kind() {
        Kind::Audio(audio) => {
            assert_eq!(f64::from_bits(audio.sampling_frequency().bits), 8000.0);
            assert_eq!(f64::from_bits(audio.output_sampling_frequenct().bits), 44100.0);
        }
        _ => panic!("the track is an audio track"),
    }
}

#[test]
fn kinds_without_payload() {
    let kinds = [
        (0x03, Kind::Complex),
        (0x10, Kind::Logo),
        (0x11, Kind::Subtitle),
        (0x12, Kind::Buttons),
        (0x20, Kind::Control),
    ];
    for (track_type, kind) in kinds {
        let tracks = track::read(children(&[entry(1, track_type, b"S_TEXT", &[])])).unwrap();
        assert_eq!(*tracks[0].kind(), kind);
    }
}

#[test]
fn track_type_that_is_not_known() {
    for track_type in [0x00, 0x04, 0x99] {
        assert_eq!(
            track::read(children(&[entry(1, track_type, b"X", &video())])).unwrap_err(),
            Error::InvalidElementValue { id: 0x83, detail: Detail::OutOfRange(track_type as u64) }
        );
    }
}

#[test]
fn mandatory_children_of_a_track() {
    let all = [
        element(TRACK_NUMBER, &[1]),
        element(TRACK_UID, &[2]),
        element(CODEC_ID, b"V_VP8"),
        element(TRACK_TYPE, &[1]),
        video(),
    ];
    let missing = [0xD7, 0x73C5, 0x86, 0x83, 0xE0];
    for (skip, id) in missing.iter().enumerate() {
        let mut content = Vec::new();
        for (i, child) in all.iter().enumerate() {
            if i != skip {
                content.extend(child);
            }
        }
        assert_eq!(
            track::read(children(&[element(TRACK_ENTRY, &content)])).unwrap_err(),
            Error::ElementNotFound(*id)
        );
    }
    let no_height = element(VIDEO, &element(PIXEL_WIDTH, &[1]));
    assert_eq!(
        track::read(children(&[entry(1, 1, b"V", &no_height)])).unwrap_err(),
        Error::ElementNotFound(0xBA)
    );
    let no_width = element(VIDEO, &element(PIXEL_HEIGHT, &[1]));
    assert_eq!(
        track::read(children(&[entry(1, 1, b"V", &no_width)])).unwrap_err(),
        Error::ElementNotFound(0xB0)
    );
    assert_eq!(
        track::read(children(&[entry(1, 2, b"A", &[])])).unwrap_err(),
        Error::ElementNotFound(0xE1)
    );
}

#[test]
fn codec_that_is_no_text() {
    assert_eq!(
        track::read(children(&[entry(1, 3, &[0xff], &[])])).unwrap_err(),
        Error::InvalidElementValue { id: 0x86, detail: Detail::NotUtf8 }
    );
}

#[test]
fn sampling_frequency_of_three_bytes() {
    let audio = element(AUDIO, &element(SAMPLING_FREQUENCY, &[1, 2, 3]));
    assert_eq!(
        track::read(children(&[entry(1, 2, b"A", &audio)])).unwrap_err(),
        Error::InvalidElementValue { id: 0xB5, detail: Detail::FloatWidth }
    );
}

#[test]
fn no_track() {
    assert!(track::read(children(&[])).unwrap().is_empty());
}

#[test]
fn tracks_under_their_other_names() {
    let audio = element(AUDIO, &element(OUTPUT_SAMPLING_FREQUENCY, &[0x47, 0x2c, 0x44, 0x00]));
    let found = tracks::read_track_information(children(&[
        entry(1, 1, b"V_VP9", &video()),
        entry(2, 2, b"A_OPUS", &audio),
        entry(3, 0x11, b"S_TEXT/UTF8", &[]),
    ]))
    .unwrap();
    assert_eq!(found.len(), 3);
    assert_eq!((found[0].number(), found[0].uid(), found[0].codec()), (1, 0x1001, "V_VP9"));
    match found[0].kind() {
        TrackKind::Video(video) => assert_eq!((video.width(), video.height()), (1920, 1080)),
        _ => panic!("the first track is a video track"),
    }
    assert_eq!(found[1].number(), 2);
    match found[1].kind() {
        TrackKind::Audio(audio) => {
            assert_eq!(audio.channel_count(), 1);
            assert_eq!(audio.sampling_frequency(), Float { bits: 0x472c4400, double: false });
        }
        _ => panic!("the second track is an audio track"),
    }
    assert_eq!((found[2].number(), found[2].codec()), (3, "S_TEXT/UTF8"));
    assert_eq!(*found[2].kind(), TrackKind::Subtitle);
    assert_eq!(
        tracks::read_track_information(children(&[entry(1, 0x99, b"X", &[])])).unwrap_err(),
        Error::InvalidElementValue { id: 0x83, detail: Detail::OutOfRange(0x99) }
    );
}

#[test]
fn seek_entry_without_position() {
    let seek = element(&[0x4d, 0xbb], &element(&[0x53, 0xab], &[0x1f, 0x43, 0xb6, 0x75]));
    let mut source = Source::new(element(&[0x11, 0x4d, 0x9b, 0x74], &seek));
    let (head, _) = read_element(&mut source).unwrap();
    assert_eq!(
        meta_seek::read(head.children().unwrap()).unwrap_err(),
        Error::ElementNotFound(0x53AC)
    );
    let seek = element(&[0x4d, 0xbb], &element(&[0x53, 0xac], &[9]));
    let mut source = Source::new(element(&[0x11, 0x4d, 0x9b, 0x74], &seek));
    let (head, _) = read_element(&mut source).unwrap();
    assert_eq!(
        meta_seek::read(head.children().unwrap()).unwrap_err(),
        Error::ElementNotFound(0x53AB)
    );
}

#[test]
fn seek_entries_for_one_element() {
    let seek = |position: u8| {
        element(
            &[0x4d, 0xbb],
            &[element(&[0x53, 0xab], &[0x1f, 0x43, 0xb6, 0x75]), element(&[0x53, 0xac], &[position])]
                .concat(),
        )
    };
    let mut source = Source::new(element(&[0x11, 0x4d, 0x9b, 0x74], &[seek(5), seek(9)].concat()));
    let (head, _) = read_element(&mut source).unwrap();
    let info = meta_seek::read(head.children().unwrap()).unwrap();
    // The last entry for an element is the one that counts.
    assert_eq!(info.len(), 1);
    assert_eq!(info.get(&0x1f43b675), Some(&9));
}

#[test]
fn segment_information_with_every_field() {
    let content = [
        element(&[0x73, 0xa4], &[1, 2, 3]),
        element(&[0x73, 0x84], b"film.mkv"),
        element(&[0x2a, 0xd7, 0xb1], &[0x01, 0xf4]),
    ]
    .concat();
    let mut source = Source::new(element(&[0x15, 0x49, 0xa9, 0x66], &content));
    let (info, _) = read_element(&mut source).unwrap();
    let segment = segment::read(info.children().unwrap()).unwrap();
    assert_eq!(segment.timecode_scale(), 500);
    assert_eq!(segment.uid(), Some(&[1u8, 2, 3][..]));
    assert_eq!(segment.filename(), Some("film.mkv"));
}

#[test]
fn segment_filename_that_is_no_text() {
    let mut source =
        Source::new(element(&[0x15, 0x49, 0xa9, 0x66], &element(&[0x73, 0x84], &[0xc0])));
    let (info, _) = read_element(&mut source).unwrap();
    assert_eq!(
        segment::read(info.children().unwrap()).unwrap_err(),
        Error::InvalidElementValue { id: 0x7384, detail: Detail::NotUtf8 }
    );
}

#[test]
fn document_type_of_the_header() {
    let mut source =
        Source::new(element(&[0x1a, 0x45, 0xdf, 0xa3], &element(&[0x42, 0x82], b"webm")));
    let (header, _) = read_element(&mut source).unwrap();
    assert_eq!(ebml::read(header.children().unwrap()).unwrap().doc_type, "webm");
    let mut source = Source::new(element(&[0x1a, 0x45, 0xdf, 0xa3], &[]));
    let (header, _) = read_element(&mut source).unwrap();
    assert_eq!(
        ebml::read(header.children().unwrap()).unwrap_err(),
        Error::ElementNotFound(0x4282)
    );
}

#[test]
fn cues_are_passed_over() {
    let mut source = Source::new([element(&[0x1c, 0x53, 0xbb, 0x6b], &[0xbb, 0x80]), vec![7]].concat());
    assert!(cues::read_cue_point(&mut source).unwrap().is_empty());
    assert_eq!(source.position(), 7);
    // What is left is the single byte 7: an identifier of six bytes is
    // announced and the source ends.
    assert_eq!(cues::read_cue_point(&mut source).unwrap_err(), Error::UnexpectedEof);
    assert_eq!(source.position(), 7);
}

#[test]
fn cues_must_be_cues() {
    let mut source = Source::new(element(&[0x12, 0x54, 0xc3, 0x67], &[]));
    assert_eq!(
        cues::read_cue_point(&mut source).unwrap_err(),
        Error::UnexpectedElement { expected: 0x1C53BB6B, found: 0x1254C367 }
    );
    assert_eq!(source.position(), 0);
}

#[test]
fn chapter_translate_of_an_element() {
    let content = [
        element(&[0x69, 0xfc], &[1]),
        element(&[0x69, 0xbf], &[2]),
        element(&[0x69, 0xfc], &[3]),
        element(&[0x69, 0xa5], &[4, 5]),
    ]
    .concat();
    let mut source = Source::new(element(&[0x69, 0x24], &content));
    let (translate, _) = read_element(&mut source).unwrap();
    let found = Reader::read_segment_info_chapter_translate(&translate).unwrap();
    assert_eq!(found.edition_uids, vec![1, 3]);
    assert_eq!(found.codec, 2);
    assert_eq!(found.id, vec![4, 5]);
    let mut source = Source::new(element(&[0x69, 0xfc], &[1]));
    let (other, _) = read_element(&mut source).unwrap();
    assert_eq!(
        Reader::read_segment_info_chapter_translate(&other).unwrap_err(),
        Error::UnexpectedElement { expected: 0x6924, found: 0x69FC }
    );
}
