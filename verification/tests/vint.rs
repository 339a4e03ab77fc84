//! Variable-length integers and element headers.

use mkv::ebml::reader::{read_element, read_element_data, read_element_info, read_vint, Source};
use mkv::error::{Detail, Error};

#[test]
fn vint_of_one_byte() {
    let mut r = Source::new(vec![0x81]);
    assert_eq!(read_vint(&mut r, true), Ok((1, 1)));
    let mut r = Source::new(vec![0x81]);
    assert_eq!(read_vint(&mut r, false), Ok((0x81, 1)));
}

#[test]
fn vint_of_two_bytes() {
    let mut r = Source::new(vec![0x40, 0x02, 0xff]);
    assert_eq!(read_vint(&mut r, true), Ok((2, 2)));
    assert_eq!(r.position(), 2);
    let mut r = Source::new(vec![0x42, 0x86]);
    assert_eq!(read_vint(&mut r, false), Ok((0x4286, 2)));
}

#[test]
fn vint_of_four_bytes() {
    let mut r = Source::new(vec![0x1a, 0x45, 0xdf, 0xa3]);
    assert_eq!(read_vint(&mut r, false), Ok((0x1A45DFA3, 4)));
    let mut r = Source::new(vec![0x1a, 0x45, 0xdf, 0xa3]);
    assert_eq!(read_vint(&mut r, true), Ok((0x0A45DFA3, 4)));
}

#[test]
fn vint_of_eight_bytes() {
    let mut r = Source::new(vec![0x01, 0xff, 0xff, 0xff, 0xff, 0xff, 0xff, 0xff]);
    assert_eq!(read_vint(&mut r, true), Ok((0x00FF_FFFF_FFFF_FFFF, 8)));
    let mut r = Source::new(vec![0x01, 0, 0, 0, 0, 0, 0, 0x2a]);
    assert_eq!(read_vint(&mut r, false), Ok((0x0100_0000_0000_002A, 8)));
}

#[test]
fn vint_cut_short() {
    let mut r = Source::new(vec![0x40]);
    assert_eq!(read_vint(&mut r, true), Err(Error::UnexpectedEof));
    assert_eq!(r.position(), 0);
    let mut r = Source::new(vec![0x10, 0x00, 0x00]);
    assert_eq!(read_vint(&mut r, true), Err(Error::UnexpectedEof));
    let mut r = Source::new(Vec::new());
    assert_eq!(read_vint(&mut r, false), Err(Error::UnexpectedEof));
}

#[test]
fn vint_with_zero_first_byte() {
    let mut r = Source::new(vec![0x00, 0x80, 0x80]);
    assert_eq!(read_vint(&mut r, true), Err(Error::InvalidVint));
    assert_eq!(r.position(), 0);
}

#[test]
fn element_info() {
    let mut r = Source::new(vec![0x18, 0x53, 0x80, 0x67, 0x41, 0x00, 0x99]);
    assert_eq!(read_element_info(&mut r), Ok((0x18538067, 0x100, 6)));
    assert_eq!(r.position(), 6);
}

#[test]
fn element_info_cut_in_size() {
    let mut r = Source::new(vec![0x18, 0x53, 0x80, 0x67, 0x41]);
    assert_eq!(read_element_info(&mut r), Err(Error::UnexpectedEof));
    assert_eq!(r.position(), 0);
}

#[test]
fn element_data() {
    let mut r = Source::new(vec![1, 2, 3, 4, 5]);
    let (content, n) = read_element_data(&mut r, 3).unwrap();
    assert_eq!(n, 3);
    assert_eq!(content.into_binary(), vec![1, 2, 3]);
    assert_eq!(r.position(), 3);
    assert_eq!(read_element_data(&mut r, 3).unwrap_err(), Error::UnexpectedEof);
    assert_eq!(r.position(), 3);
    let (content, n) = read_element_data(&mut r, 0).unwrap();
    assert_eq!((content.len(), n), (0, 0));
}

#[test]
fn whole_element() {
    let mut r = Source::new(vec![0xd7, 0x81, 0x07, 0x83, 0x81]);
    let (element, n) = read_element(&mut r).unwrap();
    assert_eq!(n, 3);
    assert_eq!(element.id(), 0xD7);
    assert_eq!(element.uint(), Ok(7));
    assert_eq!(element.binary(), vec![0x07]);
    // The next element announces one byte and holds none.
    assert_eq!(read_element(&mut r).unwrap_err(), Error::UnexpectedEof);
    assert_eq!(r.position(), 3);
}

#[test]
fn children_of_a_master() {
    let mut r = Source::new(vec![0xe0, 0x87, 0xb0, 0x82, 0x02, 0x80, 0xba, 0x81, 0xf0]);
    let (video, _) = read_element(&mut r).unwrap();
    let children = video.children().unwrap();
    assert_eq!(children.len(), 2);
    assert_eq!(children.at(0).id(), 0xB0);
    assert_eq!(children.find(0xBA).unwrap().uint(), Ok(240));
    assert_eq!(children.required_uint(0xB0), Ok(640));
    assert_eq!(children.required_uint(0xB1), Err(Error::ElementNotFound(0xB1)));
    assert_eq!(children.optional_uint(0xB1, 9), Ok(9));
    assert!(children.find(0xB1).is_none());
    assert!(children.get(2).is_none());
    assert_eq!(children.get(1).unwrap().id(), 0xBA);
}

#[test]
fn children_with_a_cut_child() {
    let mut r = Source::new(vec![0xe0, 0x83, 0xb0, 0x82, 0x02]);
    let (video, _) = read_element(&mut r).unwrap();
    assert_eq!(video.children().unwrap_err(), Error::UnexpectedEof);
}

#[test]
fn first_and_last_of_several() {
    let mut r = Source::new(vec![0xa0, 0x86, 0xd7, 0x81, 0x01, 0xd7, 0x81, 0x02]);
    let (master, _) = read_element(&mut r).unwrap();
    let children = master.children().unwrap();
    assert_eq!(children.find(0xD7).unwrap().uint(), Ok(1));
    assert_eq!(children.find_last(0xD7).unwrap().uint(), Ok(2));
    assert_eq!(children.last_uint(0xD7, 0), Ok(2));
    assert_eq!(children.all_uint(0xD7), Ok(vec![1, 2]));
    assert_eq!(children.all_binary(0xD7), vec![vec![1u8], vec![2u8]]);
    assert_eq!(children.last_binary(0xD8), Vec::<u8>::new());
}

#[test]
fn unsigned_integers() {
    let mut r = Source::new(vec![0xd7, 0x80]);
    let (element, _) = read_element(&mut r).unwrap();
    assert_eq!(element.uint(), Ok(0));
    let mut r = Source::new(vec![0xd7, 0x88, 0xff, 0xff, 0xff, 0xff, 0xff, 0xff, 0xff, 0xff]);
    let (element, _) = read_element(&mut r).unwrap();
    assert_eq!(element.uint(), Ok(u64::MAX));
    let mut r = Source::new(vec![0xd7, 0x89, 0, 0, 0, 0, 0, 0, 0, 0, 1]);
    let (element, _) = read_element(&mut r).unwrap();
    assert_eq!(
        element.uint(),
        Err(Error::InvalidElementValue { id: 0xD7, detail: Detail::IntegerTooWide })
    );
    assert_eq!(element.content().into_uint(), Err(Detail::IntegerTooWide));
}

#[test]
fn signed_integers() {
    let mut r = Source::new(vec![0xfb, 0x81, 0xff]);
    let (element, _) = read_element(&mut r).unwrap();
    assert_eq!(element.sint(), Ok(-1));
    let mut r = Source::new(vec![0xfb, 0x82, 0x80, 0x00]);
    let (element, _) = read_element(&mut r).unwrap();
    assert_eq!(element.sint(), Ok(-32768));
    let mut r = Source::new(vec![0xfb, 0x82, 0x7f, 0xff]);
    let (element, _) = read_element(&mut r).unwrap();
    assert_eq!(element.sint(), Ok(32767));
    let mut r = Source::new(vec![0xfb, 0x88, 0x80, 0, 0, 0, 0, 0, 0, 0]);
    let (element, _) = read_element(&mut r).unwrap();
    assert_eq!(element.sint(), Ok(i64::MIN));
    let mut r = Source::new(vec![0xfb, 0x80]);
    let (element, _) = read_element(&mut r).unwrap();
    assert_eq!(element.sint(), Ok(0));
}

#[test]
fn floats_as_they_are_stored() {
    let mut r = Source::new(vec![0xb5, 0x84, 0x47, 0x2c, 0x44, 0x00]);
    let (element, _) = read_element(&mut r).unwrap();
    let value = element.float().unwrap();
    assert!(!value.double);
    assert_eq!(f32::from_bits(value.bits as u32), 44100.0f32);
    let mut r = Source::new(vec![0xb5, 0x88, 0x40, 0xe5, 0x88, 0x80, 0, 0, 0, 0]);
    let (element, _) = read_element(&mut r).unwrap();
    let value = element.float().unwrap();
    assert!(value.double);
    assert_eq!(f64::from_bits(value.bits), 44100.0f64);
    let mut r = Source::new(vec![0xb5, 0x80]);
    let (element, _) = read_element(&mut r).unwrap();
    let value = element.float().unwrap();
    assert_eq!((value.bits, value.double), (0, true));
    let mut r = Source::new(vec![0xb5, 0x82, 0x40, 0xe5]);
    let (element, _) = read_element(&mut r).unwrap();
    assert_eq!(
        element.float(),
        Err(Error::InvalidElementValue { id: 0xB5, detail: Detail::FloatWidth })
    );
}

#[test]
fn text() {
    let mut r = Source::new(vec![0x86, 0x85, 0x56, 0x5f, 0x56, 0x50, 0x38]);
    let (element, _) = read_element(&mut r).unwrap();
    assert_eq!(element.utf8(), Ok(String::from("V_VP8")));
    let mut r = Source::new(vec![0x86, 0x83, 0xe2, 0x82, 0xac]);
    let (element, _) = read_element(&mut r).unwrap();
    assert_eq!(element.utf8(), Ok(String::from("\u{20ac}")));
    // A lone continuation byte is no UTF-8.
    let mut r = Source::new(vec![0x86, 0x82, 0x41, 0x80]);
    let (element, _) = read_element(&mut r).unwrap();
    assert_eq!(
        element.utf8(),
        Err(Error::InvalidElementValue { id: 0x86, detail: Detail::NotUtf8 })
    );
    assert_eq!(element.into_content().into_utf8(), Err(Detail::NotUtf8));
}

#[test]
fn error_constructors() {
    assert_eq!(mkv::error::unexpected_eof(), Error::UnexpectedEof);
    assert_eq!(mkv::error::not_found(0xA1), Error::ElementNotFound(0xA1));
    assert_eq!(
        mkv::error::unexpected(0xA3, 0xAF),
        Error::UnexpectedElement { expected: 0xA3, found: 0xAF }
    );
    assert_eq!(
        mkv::error::invalid_value(0x83, Detail::OutOfRange(0x99)),
        Error::InvalidElementValue { id: 0x83, detail: Detail::OutOfRange(0x99) }
    );
}
