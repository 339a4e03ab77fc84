//! Reading whole streams.

use mkv::ebml::reader::Source;
use mkv::error::{Detail, Error};
use mkv::reader::cluster::Lacing;
use mkv::reader::track::Kind;
use mkv::reader::{Info, Reader};

/// The size `n` as a variable-length integer.
fn size(n: usize) -> Vec<u8> {
    if n < 0x7f {
        vec![0x80 | n as u8]
    } else {
        vec![0x40 | (n >> 8) as u8, n as u8]
    }
}

/// An element: the bytes of its identifier, its size and its content.
fn element(id: &[u8], content: &[u8]) -> Vec<u8> {
    let mut bytes = id.to_vec();
    bytes.extend(size(content.len()));
    bytes.extend(content);
    bytes
}

/// Several runs of bytes, one after the other.
fn join(parts: &[Vec<u8>]) -> Vec<u8> {
    parts.concat()
}

const EBML: &[u8] = &[0x1a, 0x45, 0xdf, 0xa3];
const SEGMENT: &[u8] = &[0x18, 0x53, 0x80, 0x67];
const SEEK_HEAD: &[u8] = &[0x11, 0x4d, 0x9b, 0x74];
const SEEK: &[u8] = &[0x4d, 0xbb];
const SEEK_ID: &[u8] = &[0x53, 0xab];
const SEEK_POSITION: &[u8] = &[0x53, 0xac];
const INFO: &[u8] = &[0x15, 0x49, 0xa9, 0x66];
const TIMECODE_SCALE: &[u8] = &[0x2a, 0xd7, 0xb1];
const SEGMENT_FILENAME: &[u8] = &[0x73, 0x84];
const TRACKS: &[u8] = &[0x16, 0x54, 0xae, 0x6b];
const TRACK_ENTRY: &[u8] = &[0xae];
const TRACK_NUMBER: &[u8] = &[0xd7];
const TRACK_UID: &[u8] = &[0x73, 0xc5];
const TRACK_TYPE: &[u8] = &[0x83];
const CODEC_ID: &[u8] = &[0x86];
const VIDEO: &[u8] = &[0xe0];
const PIXEL_WIDTH: &[u8] = &[0xb0];
const PIXEL_HEIGHT: &[u8] = &[0xba];
const CLUSTER: &[u8] = &[0x1f, 0x43, 0xb6, 0x75];
const TIMECODE: &[u8] = &[0xe7];
const POSITION: &[u8] = &[0xa7];
const PREV_SIZE: &[u8] = &[0xab];
const SIMPLE_BLOCK: &[u8] = &[0xa3];
const BLOCK_GROUP: &[u8] = &[0xa0];
const BLOCK: &[u8] = &[0xa1];
const BLOCK_DURATION: &[u8] = &[0x9b];
const SILENT_TRACKS: &[u8] = &[0x58, 0x54];
const ENCRYPTED_BLOCK: &[u8] = &[0xaf];
const TAGS: &[u8] = &[0x12, 0x54, 0xc3, 0x67];
const CUES: &[u8] = &[0x1c, 0x53, 0xbb, 0x6b];
const VOID: &[u8] = &[0xec];

fn header() -> Vec<u8> {
    element(EBML, &element(&[0x42, 0x82], b"matroska"))
}

fn seek_head() -> Vec<u8> {
    element(
        SEEK_HEAD,
        &join(&[
            element(
                SEEK,
                &join(&[element(SEEK_ID, INFO), element(SEEK_POSITION, &[0x40])]),
            ),
            element(
                SEEK,
                &join(&[element(SEEK_ID, TRACKS), element(SEEK_POSITION, &[0xac])]),
            ),
        ]),
    )
}

fn info() -> Vec<u8> {
    element(INFO, &element(SEGMENT_FILENAME, b"a.mkv"))
}

fn video_entry(track_type: u8) -> Vec<u8> {
    element(
        TRACK_ENTRY,
        &join(&[
            element(TRACK_NUMBER, &[1]),
            element(TRACK_UID, &[0x12, 0x34]),
            element(CODEC_ID, b"V_VP8"),
            element(TRACK_TYPE, &[track_type]),
            element(
                VIDEO,
                &join(&[element(PIXEL_WIDTH, &[0x02, 0x80]), element(PIXEL_HEIGHT, &[0x01, 0xe0])]),
            ),
        ]),
    )
}

fn tracks() -> Vec<u8> {
    element(TRACKS, &video_entry(1))
}

fn first_cluster() -> Vec<u8> {
    element(
        CLUSTER,
        &join(&[
            element(TIMECODE, &[0x03, 0xe8]),
            element(SIMPLE_BLOCK, &[0x81, 0x00, 0x0a, 0x80, 1, 2, 3]),
            element(POSITION, &[0x07]),
            element(
                BLOCK_GROUP,
                &join(&[
                    element(BLOCK_DURATION, &[0x21]),
                    element(BLOCK, &[0x82, 0xff, 0xfe, 0x0a, 1, 2, 9, 9, 7]),
                ]),
            ),
            element(PREV_SIZE, &[0x10]),
        ]),
    )
}

fn second_cluster() -> Vec<u8> {
    element(CLUSTER, &element(SIMPLE_BLOCK, &[0x81, 0, 0, 0x04, 2, 4, 5, 6, 7]))
}

fn stream(body: &[Vec<u8>]) -> Vec<u8> {
    join(&[header(), element(SEGMENT, &join(body))])
}

fn open(body: &[Vec<u8>]) -> Reader {
    Reader::new(Source::new(stream(body))).unwrap()
}

#[test]
fn opens_on_header_and_segment() {
    let body = join(&[seek_head(), info()]);
    let reader = open(&[seek_head(), info()]);
    assert_eq!(reader.header().doc_type(), "matroska");
    assert_eq!(reader.position(), 0);
    assert_eq!(reader.segment_size(), body.len() as u64);
}

#[test]
fn refuses_a_stream_without_segment() {
    let bytes = join(&[header(), seek_head()]);
    assert_eq!(
        Reader::new(Source::new(bytes)).unwrap_err(),
        Error::UnexpectedElement { expected: 0x18538067, found: 0x114D9B74 }
    );
}

#[test]
fn refuses_a_stream_without_header() {
    let bytes = element(SEGMENT, &[]);
    assert_eq!(
        Reader::new(Source::new(bytes)).unwrap_err(),
        Error::UnexpectedElement { expected: 0x1A45DFA3, found: 0x18538067 }
    );
    assert_eq!(Reader::new(Source::new(header())).unwrap_err(), Error::UnexpectedEof);
    assert_eq!(Reader::new(Source::new(Vec::new())).unwrap_err(), Error::UnexpectedEof);
}

#[test]
fn metadata_then_clusters_then_metadata() {
    let body = [
        seek_head(),
        info(),
        tracks(),
        first_cluster(),
        second_cluster(),
        element(TAGS, &[1, 2, 3]),
        info(),
    ];
    let total = join(&body).len();
    let mut reader = open(&body);

    let infos = reader.info().unwrap();
    assert_eq!(infos.len(), 3);
    match &infos[0] {
        Info::MetaSeek(seek) => {
            assert_eq!(seek.len(), 2);
            assert_eq!(seek.get(&0x1549a966), Some(&64));
            assert_eq!(seek.get(&0x1654ae6b), Some(&172));
            assert_eq!(seek.get(&0x1c53bb6b), None);
        }
        _ => panic!("the first section is the seek head"),
    }
    match &infos[1] {
        Info::Segment(segment) => {
            assert_eq!(segment.timecode_scale(), 1_000_000);
            assert_eq!(segment.filename(), Some("a.mkv"));
            assert_eq!(segment.uid(), None);
        }
        _ => panic!("the second section is the segment information"),
    }
    match &infos[2] {
        Info::Tracks(tracks) => {
            assert_eq!(tracks.len(), 1);
            assert_eq!(tracks[0].index(), 1);
            assert_eq!(tracks[0].uid(), 0x1234);
            assert_eq!(tracks[0].codec(), "V_VP8");
            match tracks[0].kind() {
                Kind::Video(video) => {
                    assert_eq!((video.width(), video.height()), (640, 480));
                }
                _ => panic!("the track is a video track"),
            }
        }
        _ => panic!("the third section is the tracks"),
    }
    let before = join(&[seek_head(), info(), tracks()]).len();
    // The header of the first cluster has been read and is kept.
    assert_eq!(reader.position(), before + 5);

    let mut sizes = Vec::new();
    let mut blocks = 0;
    while let Some(mut cluster) = reader.next_cluster().unwrap() {
        while let Some(block) = cluster.next_block().unwrap() {
            blocks += 1;
            sizes.push(block.size());
        }
        assert_eq!(cluster.consumed() as u64, cluster.size());
    }
    assert_eq!(blocks, 3);
    assert_eq!(sizes, vec![3, 5, 5]);
    // The header of the tags has been read and is kept.
    assert_eq!(reader.position(), total - info().len() - 3);
    assert!(reader.next_cluster().unwrap().is_none());

    let infos = reader.info().unwrap();
    assert_eq!(infos.len(), 1);
    assert!(matches!(infos[0], Info::Segment(_)));
    assert_eq!(reader.position(), total);
    assert!(reader.next_cluster().unwrap().is_none());
    assert!(reader.info().unwrap().is_empty());
    assert_eq!(reader.position() as u64, reader.segment_size());
}

#[test]
fn blocks_of_a_cluster() {
    let mut reader = open(&[first_cluster()]);
    let mut cluster = reader.next_cluster().unwrap().unwrap();
    assert_eq!(cluster.size(), (first_cluster().len() - 5) as u64);
    assert_eq!(cluster.offset(), 5);
    assert_eq!(cluster.consumed(), 0);
    assert_eq!(cluster.timecode(), None);

    let block = cluster.next_block().unwrap().unwrap();
    assert_eq!(cluster.timecode(), Some(1000));
    assert_eq!(cluster.position(), None);
    assert_eq!(block.track(), 1);
    assert_eq!(block.timecode(), 10);
    assert!(block.keyframe());
    assert_eq!(block.frames().unwrap(), vec![vec![1, 2, 3]]);
    assert_eq!(cluster.consumed(), 4 + 9);

    let block = cluster.next_block().unwrap().unwrap();
    assert_eq!(cluster.position(), Some(7));
    assert_eq!(block.track(), 2);
    assert_eq!(block.timecode(), -2);
    assert!(!block.keyframe());
    assert!(block.invisible());
    assert_eq!(*block.lacing(), Lacing::Xiph);
    assert_eq!(block.frames().unwrap(), vec![vec![9, 9], vec![7]]);
    assert_eq!(cluster.prev_size(), None);

    assert!(cluster.next_block().unwrap().is_none());
    assert_eq!(cluster.prev_size(), Some(16));
    assert_eq!(cluster.offset(), 5);
    assert_eq!(cluster.consumed() as u64, cluster.size());
    assert!(cluster.next_block().unwrap().is_none());
    assert_eq!(cluster.consumed() as u64, cluster.size());
}

#[test]
fn blocks_through_the_iterator() {
    let mut reader = open(&[first_cluster(), second_cluster()]);
    let mut cluster = reader.next_cluster().unwrap().unwrap();
    let mut blocks = cluster.blocks();
    assert_eq!(blocks.next().unwrap().unwrap().track(), 1);
    assert_eq!(blocks.next().unwrap().unwrap().track(), 2);
    assert!(blocks.next().is_none());
    assert!(blocks.next().is_none());
    let mut cluster = reader.next_cluster().unwrap().unwrap();
    let block = cluster.blocks().next().unwrap().unwrap();
    assert_eq!(block.frames().unwrap(), vec![vec![4, 5], vec![6, 7]]);
}

#[test]
fn a_cluster_that_is_left_early_is_passed_over() {
    let mut reader = open(&[first_cluster(), second_cluster(), info()]);
    {
        let mut cluster = reader.next_cluster().unwrap().unwrap();
        assert_eq!(cluster.next_block().unwrap().unwrap().track(), 1);
    }
    let mut cluster = reader.next_cluster().unwrap().unwrap();
    let block = cluster.next_block().unwrap().unwrap();
    assert_eq!(*block.lacing(), Lacing::FixedSize);
    // Metadata is asked for with the second cluster half read.
    let infos = reader.info().unwrap();
    assert_eq!(infos.len(), 1);
    assert_eq!(reader.position() as u64, reader.segment_size());
}

#[test]
fn info_passes_over_a_queued_cluster() {
    let mut reader = open(&[info(), first_cluster(), tracks(), second_cluster()]);
    assert_eq!(reader.info().unwrap().len(), 1);
    // The first cluster is queued; asking for metadata again gives it up.
    let infos = reader.info().unwrap();
    assert_eq!(infos.len(), 1);
    assert!(matches!(infos[0], Info::Tracks(_)));
    let mut cluster = reader.next_cluster().unwrap().unwrap();
    let block = cluster.next_block().unwrap().unwrap();
    assert_eq!(*block.lacing(), Lacing::FixedSize);
}

#[test]
fn next_cluster_keeps_what_is_no_cluster() {
    let mut reader = open(&[info(), first_cluster()]);
    assert!(reader.next_cluster().unwrap().is_none());
    assert!(reader.next_cluster().unwrap().is_none());
    let infos = reader.info().unwrap();
    assert_eq!(infos.len(), 1);
    assert!(matches!(infos[0], Info::Segment(_)));
    assert!(reader.next_cluster().unwrap().is_some());
}

#[test]
fn an_empty_cluster_at_the_end() {
    // The header of the cluster is read by `info`, and with it the whole
    // segment: there is no cluster any more.
    let mut reader = open(&[info(), element(CLUSTER, &[])]);
    assert_eq!(reader.info().unwrap().len(), 1);
    assert_eq!(reader.position() as u64, reader.segment_size());
    assert!(reader.next_cluster().unwrap().is_none());
    assert_eq!(reader.position() as u64, reader.segment_size());
    assert!(reader.next_cluster().unwrap().is_none());
    assert!(reader.info().unwrap().is_empty());
    assert!(reader.next_cluster().unwrap().is_none());
    assert_eq!(reader.position() as u64, reader.segment_size());
}

#[test]
fn a_segment_that_is_the_header_of_an_empty_cluster() {
    let bytes = join(&[element(EBML, &[]), element(SEGMENT, &element(CLUSTER, &[]))]);
    let mut reader = Reader::new(Source::new(bytes)).unwrap();
    assert_eq!(reader.segment_size(), 5);
    assert!(reader.info().unwrap().is_empty());
    assert_eq!(reader.position(), 5);
    assert!(reader.next_cluster().unwrap().is_none());
    assert_eq!(reader.position(), 5);
    assert!(reader.next_cluster().unwrap().is_none());
}

#[test]
fn an_empty_cluster_after_a_cluster() {
    // The header of the second cluster is read by `next_cluster` itself.
    let mut reader = open(&[second_cluster(), element(CLUSTER, &[])]);
    assert!(reader.info().unwrap().is_empty());
    assert_eq!(reader.next_cluster().unwrap().unwrap().size(), 11);
    let mut cluster = reader.next_cluster().unwrap().unwrap();
    assert_eq!(cluster.size(), 0);
    assert!(cluster.next_block().unwrap().is_none());
    assert!(reader.next_cluster().unwrap().is_none());
    assert_eq!(reader.position() as u64, reader.segment_size());
}

#[test]
fn a_cluster_that_runs_past_its_segment() {
    // The cluster declares sixteen bytes; the segment ends after nine.
    let mut cluster = CLUSTER.to_vec();
    cluster.push(0x90);
    cluster.extend(element(SIMPLE_BLOCK, &[0x81, 0, 0, 0, 1, 2, 3]));
    let mut reader = open(&[cluster]);
    {
        let mut cluster = reader.next_cluster().unwrap().unwrap();
        assert_eq!(cluster.next_block().unwrap().unwrap().track(), 1);
        assert_eq!(cluster.next_block().unwrap_err(), Error::UnexpectedEof);
        assert_eq!(cluster.consumed(), 9);
    }
    assert_eq!(reader.position() as u64, reader.segment_size());
    assert!(reader.next_cluster().unwrap().is_none());
    assert!(reader.info().unwrap().is_empty());
    assert_eq!(reader.read_seek_data().unwrap_err(), Error::UnexpectedEof);
}

#[test]
fn an_empty_element_queued_at_the_end() {
    // The header of the last element is read by `next_cluster`, and with it
    // the whole segment: `info` reads nothing more.
    let mut reader = open(&[second_cluster(), element(INFO, &[])]);
    assert!(reader.info().unwrap().is_empty());
    assert!(reader.next_cluster().unwrap().is_some());
    assert!(reader.next_cluster().unwrap().is_none());
    assert_eq!(reader.position() as u64, reader.segment_size());
    assert!(reader.info().unwrap().is_empty());
    assert!(reader.next_cluster().unwrap().is_none());
}

#[test]
fn skipped_sections() {
    let mut reader =
        open(&[element(CUES, &[0xec, 0x80]), element(TAGS, &[]), info(), element(VOID, &[])]);
    // Cues and tags are passed over; the void element is refused.
    assert_eq!(
        reader.info().unwrap_err(),
        Error::UnexpectedElement { expected: 0x1A45DFA3, found: 0xEC }
    );
    assert_eq!(reader.position(), 0);
}

#[test]
fn unknown_first_element() {
    let mut reader = open(&[element(&[0x42, 0x86], &[1]), info()]);
    assert_eq!(
        reader.info().unwrap_err(),
        Error::UnexpectedElement { expected: 0x1A45DFA3, found: 0x4286 }
    );
    assert_eq!(reader.position(), 0);
    // What is no cluster is kept for `info`, which refuses it again.
    assert!(reader.next_cluster().unwrap().is_none());
    assert_eq!(reader.position(), 3);
    assert_eq!(
        reader.info().unwrap_err(),
        Error::UnexpectedElement { expected: 0x1A45DFA3, found: 0x4286 }
    );
    assert_eq!(reader.position(), 3);
}

#[test]
fn unknown_track_type() {
    let mut reader = open(&[info(), element(TRACKS, &video_entry(0x99))]);
    assert_eq!(
        reader.info().unwrap_err(),
        Error::InvalidElementValue { id: 0x83, detail: Detail::OutOfRange(0x99) }
    );
    // The reader is where it was.
    assert_eq!(reader.position(), 0);
}

#[test]
fn a_stream_that_ends_before_its_segment() {
    let mut bytes = stream(&[info(), first_cluster()]);
    // The last three bytes are missing.
    bytes.truncate(bytes.len() - 3);
    let mut reader = Reader::new(Source::new(bytes)).unwrap();
    assert_eq!(reader.info().unwrap().len(), 1);
    let mut cluster = reader.next_cluster().unwrap().unwrap();
    assert_eq!(cluster.next_block().unwrap().unwrap().track(), 1);
    assert_eq!(cluster.next_block().unwrap().unwrap().track(), 2);
    let consumed = cluster.consumed();
    assert_eq!(cluster.next_block().unwrap_err(), Error::UnexpectedEof);
    assert_eq!(cluster.consumed(), consumed);
    assert!((cluster.consumed() as u64) < cluster.size());
    assert_eq!(reader.info().unwrap_err(), Error::UnexpectedEof);
    assert_eq!(reader.next_cluster().unwrap_err(), Error::UnexpectedEof);
}

#[test]
fn a_stream_that_ends_in_a_header() {
    let mut bytes = stream(&[info(), first_cluster()]);
    bytes.truncate(bytes.len() - first_cluster().len() + 2);
    let mut reader = Reader::new(Source::new(bytes)).unwrap();
    assert_eq!(reader.info().unwrap_err(), Error::UnexpectedEof);
    assert_eq!(reader.position(), 0);
    // The segment information is no cluster: its header is kept.
    assert!(reader.next_cluster().unwrap().is_none());
    assert_eq!(reader.position(), 5);
    assert!(reader.next_cluster().unwrap().is_none());
    assert_eq!(reader.info().unwrap_err(), Error::UnexpectedEof);
    assert_eq!(reader.position(), 5);
}

#[test]
fn an_element_larger_than_its_cluster() {
    // The cluster declares four bytes; its block declares seven.
    let mut cluster = CLUSTER.to_vec();
    cluster.push(0x84);
    cluster.extend(element(SIMPLE_BLOCK, &[0x81, 0, 0, 0, 1, 2, 3]));
    let mut reader = open(&[cluster]);
    let mut cluster = reader.next_cluster().unwrap().unwrap();
    assert_eq!(cluster.next_block().unwrap_err(), Error::UnexpectedEof);
    assert_eq!(cluster.consumed(), 0);
}

#[test]
fn elements_that_a_cluster_refuses() {
    let mut reader = open(&[element(CLUSTER, &element(SILENT_TRACKS, &[]))]);
    let mut cluster = reader.next_cluster().unwrap().unwrap();
    assert_eq!(
        cluster.next_block().unwrap_err(),
        Error::UnexpectedElement { expected: 0xA3, found: 0x5854 }
    );
    let mut reader = open(&[element(CLUSTER, &element(ENCRYPTED_BLOCK, &[1]))]);
    let mut cluster = reader.next_cluster().unwrap().unwrap();
    assert_eq!(
        cluster.next_block().unwrap_err(),
        Error::UnexpectedElement { expected: 0xA3, found: 0xAF }
    );
    assert_eq!(cluster.consumed(), 0);
}

#[test]
fn a_block_group_without_block() {
    let mut reader =
        open(&[element(CLUSTER, &element(BLOCK_GROUP, &element(BLOCK_DURATION, &[1])))]);
    let mut cluster = reader.next_cluster().unwrap().unwrap();
    assert_eq!(cluster.next_block().unwrap_err(), Error::ElementNotFound(0xA1));
}

#[test]
fn a_timecode_that_is_too_wide() {
    let mut reader = open(&[element(CLUSTER, &element(TIMECODE, &[0; 9]))]);
    let mut cluster = reader.next_cluster().unwrap().unwrap();
    assert_eq!(
        cluster.next_block().unwrap_err(),
        Error::InvalidElementValue { id: 0xE7, detail: Detail::IntegerTooWide }
    );
}

#[test]
fn a_block_that_is_cut_in_its_header() {
    let mut reader = open(&[element(CLUSTER, &element(SIMPLE_BLOCK, &[0x81, 0]))]);
    let mut cluster = reader.next_cluster().unwrap().unwrap();
    assert_eq!(cluster.next_block().unwrap_err(), Error::UnexpectedEof);
}

#[test]
fn records_read_from_the_reader() {
    let mut reader = open(&[seek_head(), info(), tracks()]);
    let entries = reader.read_seek_data().unwrap();
    assert_eq!(entries.len(), 2);
    assert_eq!(entries[0].id, vec![0x15, 0x49, 0xa9, 0x66]);
    assert_eq!(entries[0].position, 64);
    assert_eq!(entries[1].id, vec![0x16, 0x54, 0xae, 0x6b]);
    assert_eq!(entries[1].position, 172);
    let at = reader.position();
    assert_eq!(
        reader.read_seek_data().unwrap_err(),
        Error::UnexpectedElement { expected: 0x114D9B74, found: 0x1549A966 }
    );
    assert_eq!(reader.position(), at);
    let segment = reader.read_segment_info().unwrap();
    assert_eq!(segment.segment_filename, "a.mkv");
    assert_eq!(segment.timecode_scale, 1_000_000);
    assert_eq!(
        reader.read_segment_info().unwrap_err(),
        Error::UnexpectedElement { expected: 0x1549A966, found: 0x1654AE6B }
    );
    assert_eq!(reader.info().unwrap().len(), 1);
    assert_eq!(reader.read_segment_info().unwrap_err(), Error::UnexpectedEof);
}

#[test]
fn timecode_scale_of_the_segment() {
    let mut reader = open(&[element(INFO, &element(TIMECODE_SCALE, &[0x07, 0xa1, 0x20]))]);
    let infos = reader.info().unwrap();
    match &infos[0] {
        Info::Segment(segment) => assert_eq!(segment.timecode_scale(), 500_000),
        _ => panic!("the section is the segment information"),
    }
}

#[test]
fn a_stream_that_is_fed_byte_by_byte() {
    let bytes = stream(&[seek_head(), info(), tracks(), first_cluster(), second_cluster(), info()]);
    // The reader is opened on as few bytes as hold both headers.
    let mut held = 0;
    let mut reader = loop {
        match Reader::new(Source::new(bytes[..held].to_vec())) {
            Ok(reader) => break reader,
            Err(e) => assert_eq!(e, Error::UnexpectedEof),
        }
        held += 1;
    };
    assert_eq!(held, header().len() + 6);
    let mut sections = 0;
    let mut sizes = Vec::new();
    let mut clusters = 0;
    loop {
        // Whatever fails for want of bytes is asked again after one more byte.
        let step = (|| -> Result<bool, Error> {
            let mut more = false;
            if reader.current_cluster().is_none() {
                let infos = reader.info()?;
                sections += infos.len();
                more = reader.next_cluster()?.is_some();
                if more {
                    clusters += 1;
                }
            }
            if let Some(mut cluster) = reader.current_cluster() {
                while let Some(block) = cluster.next_block()? {
                    sizes.push(block.size());
                }
                more = true;
            }
            if more {
                more = reader.next_cluster()?.is_some();
                if more {
                    clusters += 1;
                }
            }
            Ok(more || reader.position() as u64 != reader.segment_size())
        })();
        match step {
            Ok(true) => {}
            Ok(false) => break,
            Err(e) => {
                assert_eq!(e, Error::UnexpectedEof);
                assert!(held < bytes.len());
                reader = reader.feed(vec![bytes[held]]);
                held += 1;
            }
        }
    }
    assert_eq!(held, bytes.len());
    assert_eq!(sections, 4);
    assert_eq!(clusters, 2);
    assert_eq!(sizes, vec![3, 5, 5]);
    assert_eq!(reader.position() as u64, reader.segment_size());
}

#[test]
fn bytes_fed_past_the_segment_are_not_read() {
    let mut reader = open(&[info()]);
    reader = reader.feed(info());
    assert_eq!(reader.info().unwrap().len(), 1);
    assert_eq!(reader.position() as u64, reader.segment_size());
    reader = reader.feed(first_cluster());
    assert!(reader.next_cluster().unwrap().is_none());
    assert!(reader.info().unwrap().is_empty());
}

#[test]
fn a_cluster_that_is_fed_while_it_is_read() {
    let bytes = stream(&[first_cluster()]);
    let cut = bytes.len() - 8;
    let mut reader = Reader::new(Source::new(bytes[..cut].to_vec())).unwrap();
    assert!(reader.current_cluster().is_none());
    {
        let mut cluster = reader.next_cluster().unwrap().unwrap();
        assert_eq!(cluster.next_block().unwrap().unwrap().track(), 1);
        assert_eq!(cluster.next_block().unwrap_err(), Error::UnexpectedEof);
    }
    reader = reader.feed(bytes[cut..].to_vec());
    let mut cluster = reader.current_cluster().unwrap();
    // The call that failed left the cluster as it was.
    assert_eq!(cluster.timecode(), Some(1000));
    assert_eq!(cluster.position(), None);
    assert_eq!(cluster.next_block().unwrap().unwrap().track(), 2);
    assert_eq!(cluster.position(), Some(7));
    assert!(cluster.next_block().unwrap().is_none());
    assert_eq!(cluster.consumed() as u64, cluster.size());
    // The whole segment has been read: nothing changes any more.
    assert!(reader.next_cluster().unwrap().is_none());
    assert!(reader.current_cluster().unwrap().next_block().unwrap().is_none());
}
