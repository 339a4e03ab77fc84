//! Blocks, and the frames laced into them.

use mkv::error::{Detail, Error};
use mkv::reader::cluster::{
    parse_ebml_frames, parse_fixed_size_frames, parse_xiph_frames, Block, Lacing,
};

/// The Xiph code of a size.
fn xiph_code(mut size: usize) -> Vec<u8> {
    let mut code = Vec::new();
    while size >= 255 {
        code.push(255);
        size -= 255;
    }
    code.push(size as u8);
    code
}

/// A payload that laces `frames` the Xiph way.
fn xiph_lace(frames: &[Vec<u8>]) -> Vec<u8> {
    let mut lace = vec![(frames.len() - 1) as u8];
    for frame in &frames[..frames.len() - 1] {
        lace.extend(xiph_code(frame.len()));
    }
    for frame in frames {
        lace.extend(frame.iter());
    }
    lace
}

/// A payload that laces `frames` the EBML way, the first size on two bytes.
fn ebml_lace(frames: &[Vec<u8>]) -> Vec<u8> {
    let mut lace = vec![(frames.len() - 1) as u8];
    if frames.len() > 1 {
        let first = frames[0].len();
        lace.push(0x40 | (first >> 8) as u8);
        lace.push(first as u8);
        for frame in &frames[1..frames.len() - 1] {
            lace.push((first - frame.len()) as u8);
        }
    }
    for frame in frames {
        lace.extend(frame.iter());
    }
    lace
}

/// A payload that laces `frames` with a fixed size.
fn fixed_size_lace(frames: &[Vec<u8>]) -> Vec<u8> {
    let mut lace = vec![frames.len() as u8];
    for frame in frames {
        lace.extend(frame.iter());
    }
    lace
}

/// `n` bytes that count up from `start`.
fn bytes(start: u8, n: usize) -> Vec<u8> {
    (0..n).map(|i| start.wrapping_add(i as u8)).collect()
}

#[test]
fn simple_block() {
    let block = Block::from_binary(vec![0x81, 0x00, 0x0a, 0x80, 1, 2, 3], true).unwrap();
    assert_eq!(block.track(), 1);
    assert_eq!(block.timecode(), 10);
    assert!(block.keyframe());
    assert!(!block.invisible());
    assert!(!block.discardable());
    assert_eq!(*block.lacing(), Lacing::NoLacing);
    assert_eq!(block.size(), 3);
    assert_eq!(block.frames().unwrap(), vec![vec![1, 2, 3]]);
}

#[test]
fn block_flags() {
    let block = Block::from_binary(vec![0x81, 0, 0, 0x09], true).unwrap();
    assert!(!block.keyframe());
    assert!(block.invisible());
    assert!(block.discardable());
    assert_eq!(block.size(), 0);
    assert_eq!(block.data(), Vec::<u8>::new());
    // In the block of a block group neither bit is defined.
    let block = Block::from_binary(vec![0x81, 0, 0, 0x89], false).unwrap();
    assert!(!block.keyframe());
    assert!(block.invisible());
    assert!(!block.discardable());
}

#[test]
fn block_lacing_bits() {
    let lacing = |flags: u8| *Block::from_binary(vec![0x81, 0, 0, flags], true).unwrap().lacing();
    assert_eq!(lacing(0x00), Lacing::NoLacing);
    assert_eq!(lacing(0x02), Lacing::Xiph);
    assert_eq!(lacing(0x06), Lacing::Ebml);
    assert_eq!(lacing(0x04), Lacing::FixedSize);
    assert_eq!(lacing(0xf9), Lacing::NoLacing);
    assert_eq!(lacing(0xfb), Lacing::Xiph);
}

#[test]
fn block_timecode_is_signed() {
    let timecode = |high: u8, low: u8| {
        Block::from_binary(vec![0x81, high, low, 0], true).unwrap().timecode()
    };
    assert_eq!(timecode(0x00, 0x00), 0);
    assert_eq!(timecode(0x7f, 0xff), 32767);
    assert_eq!(timecode(0x80, 0x00), -32768);
    assert_eq!(timecode(0xff, 0xfe), -2);
    assert_eq!(timecode(0x01, 0x00), 256);
}

#[test]
fn block_track_number_of_two_bytes() {
    let block = Block::from_binary(vec![0x41, 0x00, 0, 1, 0, 7], true).unwrap();
    assert_eq!(block.track(), 0x100);
    assert_eq!(block.timecode(), 1);
    assert_eq!(block.data(), vec![7]);
}

#[test]
fn block_cut_short() {
    assert_eq!(Block::from_binary(vec![], true).unwrap_err(), Error::UnexpectedEof);
    assert_eq!(Block::from_binary(vec![0x41], true).unwrap_err(), Error::UnexpectedEof);
    assert_eq!(Block::from_binary(vec![0x81], true).unwrap_err(), Error::UnexpectedEof);
    assert_eq!(Block::from_binary(vec![0x81, 0], true).unwrap_err(), Error::UnexpectedEof);
    assert_eq!(Block::from_binary(vec![0x81, 0, 0], true).unwrap_err(), Error::UnexpectedEof);
    assert_eq!(Block::from_binary(vec![0x00, 0, 0, 0], true).unwrap_err(), Error::InvalidVint);
}

#[test]
fn xiph_frames() {
    let frames = parse_xiph_frames(vec![1, 2, 0xaa, 0xbb, 0xcc]).unwrap();
    assert_eq!(frames, vec![vec![0xaa, 0xbb], vec![0xcc]]);
}

#[test]
fn xiph_sizes_of_255_and_more() {
    let frames = vec![bytes(0, 255), bytes(3, 600), bytes(9, 0), bytes(1, 4)];
    let lace = xiph_lace(&frames);
    assert_eq!(&lace[..7], &[3, 255, 0, 255, 255, 90, 0]);
    assert_eq!(parse_xiph_frames(lace).unwrap(), frames);
}

#[test]
fn xiph_single_frame() {
    assert_eq!(parse_xiph_frames(vec![0, 5, 6]).unwrap(), vec![vec![5, 6]]);
    assert_eq!(parse_xiph_frames(vec![0]).unwrap(), vec![Vec::<u8>::new()]);
}

#[test]
fn xiph_cut_short() {
    assert_eq!(parse_xiph_frames(vec![]).unwrap_err(), Error::UnexpectedEof);
    // One size is announced and none follows.
    assert_eq!(parse_xiph_frames(vec![1]).unwrap_err(), Error::UnexpectedEof);
    // The size does not end.
    assert_eq!(parse_xiph_frames(vec![1, 255]).unwrap_err(), Error::UnexpectedEof);
    // The first frame is larger than what is left.
    assert_eq!(parse_xiph_frames(vec![1, 3, 0, 0]).unwrap_err(), Error::UnexpectedEof);
}

#[test]
fn ebml_frames() {
    let frames =
        parse_ebml_frames(vec![2, 0x82, 0x01, 0xaa, 0xbb, 0xcc, 0xdd, 0xee, 0xff]).unwrap();
    assert_eq!(frames, vec![vec![0xaa, 0xbb], vec![0xcc], vec![0xdd, 0xee, 0xff]]);
}

#[test]
fn ebml_single_frame() {
    assert_eq!(parse_ebml_frames(vec![0, 0x82, 7]).unwrap(), vec![vec![0x82, 7]]);
    assert_eq!(parse_ebml_frames(vec![0]).unwrap(), vec![Vec::<u8>::new()]);
}

#[test]
fn ebml_two_frames_have_one_size() {
    assert_eq!(parse_ebml_frames(vec![1, 0x81, 4, 5, 6]).unwrap(), vec![vec![4], vec![5, 6]]);
}

#[test]
fn ebml_round_trip() {
    let frames = vec![bytes(0, 300), bytes(5, 300), bytes(7, 45), bytes(9, 299), bytes(2, 1000)];
    assert_eq!(parse_ebml_frames(ebml_lace(&frames)).unwrap(), frames);
}

#[test]
fn ebml_size_below_zero() {
    assert_eq!(
        parse_ebml_frames(vec![2, 0x82, 0x03, 0, 0, 0]).unwrap_err(),
        Error::InvalidElementValue { id: 0xA1, detail: Detail::OutOfRange(3) }
    );
}

#[test]
fn ebml_cut_short() {
    assert_eq!(parse_ebml_frames(vec![]).unwrap_err(), Error::UnexpectedEof);
    assert_eq!(parse_ebml_frames(vec![1]).unwrap_err(), Error::UnexpectedEof);
    assert_eq!(parse_ebml_frames(vec![1, 0x40]).unwrap_err(), Error::UnexpectedEof);
    assert_eq!(parse_ebml_frames(vec![2, 0x81]).unwrap_err(), Error::UnexpectedEof);
    assert_eq!(parse_ebml_frames(vec![1, 0x85, 1, 2]).unwrap_err(), Error::UnexpectedEof);
    assert_eq!(parse_ebml_frames(vec![1, 0x00, 1, 2]).unwrap_err(), Error::InvalidVint);
}

#[test]
fn fixed_size_frames() {
    let frames = parse_fixed_size_frames(vec![3, 1, 2, 3, 4, 5, 6]).unwrap();
    assert_eq!(frames, vec![vec![1, 2], vec![3, 4], vec![5, 6]]);
}

#[test]
fn fixed_size_drops_what_does_not_divide() {
    // Seven bytes in three frames: two bytes each, and one byte over.
    let frames = parse_fixed_size_frames(vec![3, 1, 2, 3, 4, 5, 6, 7]).unwrap();
    assert_eq!(frames, vec![vec![1, 2], vec![3, 4], vec![5, 6]]);
    // One byte in two frames: both are empty.
    assert_eq!(parse_fixed_size_frames(vec![2, 9]).unwrap(), vec![Vec::<u8>::new(); 2]);
}

#[test]
fn fixed_size_round_trip() {
    let frames: Vec<Vec<u8>> = (0..255).map(|i| bytes(i as u8, 17)).collect();
    assert_eq!(parse_fixed_size_frames(fixed_size_lace(&frames)).unwrap(), frames);
}

#[test]
fn fixed_size_of_no_frame() {
    assert_eq!(
        parse_fixed_size_frames(vec![0, 1, 2]).unwrap_err(),
        Error::InvalidElementValue { id: 0xA1, detail: Detail::OutOfRange(0) }
    );
    assert_eq!(parse_fixed_size_frames(vec![]).unwrap_err(), Error::UnexpectedEof);
}

#[test]
fn xiph_round_trip_of_256_frames() {
    let frames: Vec<Vec<u8>> = (0..256).map(|i| bytes(i as u8, i * 3 % 700)).collect();
    assert_eq!(parse_xiph_frames(xiph_lace(&frames)).unwrap(), frames);
}

#[test]
fn laced_blocks() {
    let block = Block::from_binary(vec![0x82, 0xff, 0xfe, 0x0a, 1, 2, 9, 9, 7], false).unwrap();
    assert_eq!(block.track(), 2);
    assert_eq!(block.timecode(), -2);
    assert!(block.invisible());
    assert_eq!(*block.lacing(), Lacing::Xiph);
    assert_eq!(block.size(), 5);
    assert_eq!(block.frames().unwrap(), vec![vec![9, 9], vec![7]]);

    let block = Block::from_binary(vec![0x81, 0, 0, 0x06, 1, 0x81, 4, 5, 6], true).unwrap();
    assert_eq!(*block.lacing(), Lacing::Ebml);
    assert_eq!(block.frames().unwrap(), vec![vec![4], vec![5, 6]]);

    let block = Block::from_binary(vec![0x81, 0, 0, 0x04, 2, 4, 5, 6, 7], true).unwrap();
    assert_eq!(*block.lacing(), Lacing::FixedSize);
    assert_eq!(block.frames().unwrap(), vec![vec![4, 5], vec![6, 7]]);

    let block = Block::from_binary(vec![0x81, 0, 0, 0x02], true).unwrap();
    assert_eq!(block.frames().unwrap_err(), Error::UnexpectedEof);
}
