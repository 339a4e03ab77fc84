//! This module contains all the parsing functionality.

use vstd::prelude::*;
use crate::elements as el;
use crate::error::Error;
use crate::ebml::element::{spec_children, spec_read_element, ElementArray, ElementSpec};
use crate::ebml::reader::{read_element, Source};
use crate::io::{spec_header, Header, HeaderSpec, SeekEntrySpec, SeekInfo};
use crate::io::fields::{
    audio_fields,
    mastering_data_fields,
    seek_entries,
    seek_view,
    segment_info_fields,
    spec_audio_error,
    spec_audio_fields,
    spec_mastering_data_error,
    spec_mastering_data_fields,
    spec_seek_entries,
    spec_segment_info_error,
    spec_segment_info_fields,
    spec_track_error,
    spec_track_fields,
    spec_track_list,
    spec_track_list_error,
    spec_video_color_error,
    spec_video_color_fields,
    spec_video_error,
    spec_video_fields,
    track_fields,
    track_list,
    video_color_fields,
    video_fields,
};
use crate::structures::{
    SegmentInfo,
    Track,
    TrackAudio,
    TrackVideo,
    TrackVideoColor,
    TrackVideoColorMasteringData,
};

verus! {

/// Reading one element from the start of `s`, which must be the element
/// `id`, and splitting it into its children: the children and the number of
/// bytes that the element takes.
pub open spec fn spec_read_master(s: Seq<u8>, id: u64) -> Result<(Seq<ElementSpec>, int), Error> {
    match spec_read_element(s) {
        Err(e) => Err(e),
        Ok((element, n)) => if element.id != id {
            Err(Error::UnexpectedElement { expected: id, found: element.id })
        } else {
            match spec_children(element.data) {
                Err(e) => Err(e),
                Ok(children) => Ok((children, n)),
            }
        },
    }
}

/// Reading the EBML header from the start of `s`: the header and the number
/// of bytes that it takes, identifier and size included.
pub open spec fn spec_parse_header(s: Seq<u8>) -> Result<(HeaderSpec, int), Error> {
    match spec_read_master(s, el::EBML) {
        Err(e) => Err(e),
        Ok((children, n)) => match spec_header(children) {
            Err(e) => Err(e),
            Ok(header) => Ok((header, n)),
        },
    }
}

/// Read one element, which must be the element `id`, and split it into its
/// children. The source is left as it was where that fails.
pub(crate) fn read_master(r: &mut Source, id: u64) -> (res: Result<(ElementArray, usize), Error>)
    ensures
        match res {
            Ok((children, n)) => spec_read_master(old(r).remaining(), id) == Ok::<_, Error>(
                (children@, n as int),
            ) && final(r).offset() == old(r).offset() + n,
            Err(e) => spec_read_master(old(r).remaining(), id) == Err::<
                (Seq<ElementSpec>, int),
                _,
            >(e) && final(r).offset() == old(r).offset(),
        },
        final(r).bytes() == old(r).bytes(),
        final(r).offset() <= final(r).bytes().len(),
{
    let start: usize = r.position();
    match read_element(r) {
        Err(e) => Err(e),
        Ok((element, n)) => {
            if element.id() != id {
                r.seek(start);
                return Err(Error::UnexpectedElement { expected: id, found: element.id() });
            }
            match element.children() {
                Err(e) => {
                    r.seek(start);
                    Err(e)
                },
                Ok(children) => Ok((children, n)),
            }
        },
    }
}

/// Read and parse an EBML header from an input source.
/// Returns the parsed object and the number of bytes that were read.
pub fn header(r: &mut Source) -> (res: Result<(Header, usize), Error>)
    ensures
        match res {
            Ok((header, n)) => spec_parse_header(old(r).remaining()) == Ok::<_, Error>(
                (header@, n as int),
            ) && final(r).offset() == old(r).offset() + n,
            Err(e) => spec_parse_header(old(r).remaining()) == Err::<(HeaderSpec, int), _>(e)
                && final(r).offset() == old(r).offset(),
        },
        final(r).bytes() == old(r).bytes(),
        final(r).offset() <= final(r).bytes().len(),
{
    let start: usize = r.position();
    match read_master(r, el::EBML) {
        Err(e) => Err(e),
        Ok((children, n)) => match header_fields(&children) {
            Err(e) => {
                r.seek(start);
                Err(e)
            },
            Ok(header) => Ok((header, n)),
        },
    }
}

/// The header that the children of an `EBML` element hold.
fn header_fields(elems: &ElementArray) -> (res: Result<Header, Error>)
    ensures
        match res {
            Ok(header) => spec_header(elems@) == Ok::<_, Error>(header@),
            Err(e) => spec_header(elems@) == Err::<HeaderSpec, _>(e),
        },
{
    let ebml_version: u64 = elems.last_uint(el::EBML_VERSION, 0)?;
    let ebml_read_version: u64 = elems.last_uint(el::EBML_READ_VERSION, 0)?;
    let ebml_max_id_length: u64 = elems.last_uint(el::EBML_MAX_ID_LENGTH, 0)?;
    let ebml_max_size_length: u64 = elems.last_uint(el::EBML_MAX_SIZE_LENGTH, 0)?;
    let doc_type = elems.last_utf8(el::DOC_TYPE, String::new())?;
    let doc_type_version: u64 = elems.last_uint(el::DOC_TYPE_VERSION, 0)?;
    let doc_type_read_version: u64 = elems.last_uint(el::DOC_TYPE_READ_VERSION, 0)?;
    Ok(
        Header {
            ebml_version: ebml_version,
            ebml_read_version: ebml_read_version,
            ebml_max_id_length: ebml_max_id_length,
            ebml_max_size_length: ebml_max_size_length,
            doc_type: doc_type,
            doc_type_version: doc_type_version,
            doc_type_read_version: doc_type_read_version,
        },
    )
}

/// Reading the seek information from the start of `s`: the entries of a
/// `SeekHead` element and the number of bytes that the element takes.
pub open spec fn spec_seek_info(s: Seq<u8>) -> Result<(Seq<SeekEntrySpec>, int), Error> {
    match spec_read_master(s, el::SEEK_HEAD) {
        Err(e) => Err(e),
        Ok((children, n)) => match spec_seek_entries(children, 0) {
            Err(e) => Err(e),
            Ok(entries) => Ok((entries, n)),
        },
    }
}

/// Read and parse MKV seek information.
/// Returns the parsed object and the number of bytes that were read.
pub fn seek_info(r: &mut Source) -> (res: Result<(SeekInfo, usize), Error>)
    ensures
        match res {
            Ok((entries, n)) => spec_seek_info(old(r).remaining()) == Ok::<_, Error>(
                (seek_view(entries@), n as int),
            ) && final(r).offset() == old(r).offset() + n,
            Err(e) => spec_seek_info(old(r).remaining()) == Err::<(Seq<SeekEntrySpec>, int), _>(e)
                && final(r).offset() == old(r).offset(),
        },
        final(r).bytes() == old(r).bytes(),
        final(r).offset() <= final(r).bytes().len(),
{
    let start: usize = r.position();
    match read_master(r, el::SEEK_HEAD) {
        Err(e) => Err(e),
        Ok((children, n)) => match seek_entries(&children) {
            Err(e) => {
                r.seek(start);
                Err(e)
            },
            Ok(entries) => Ok((entries, n)),
        },
    }
}

/// Read and parse MKV segment information.
/// Returns the parsed object and the number of bytes that were read.
pub fn segment_info(r: &mut Source) -> (res: Result<(SegmentInfo, usize), Error>)
    ensures
        match res {
            Ok((x, n)) => (match spec_read_master(old(r).remaining(), el::INFO) {
                Ok((elems, m)) => m == n && spec_segment_info_error(elems).is_none()
                    && spec_segment_info_fields(elems, x),
                Err(_) => false,
            }) && final(r).offset() == old(r).offset() + n,
            Err(e) => (match spec_read_master(old(r).remaining(), el::INFO) {
                Ok((elems, _)) => spec_segment_info_error(elems) == Some(e),
                Err(first) => e == first,
            }) && final(r).offset() == old(r).offset(),
        },
        final(r).bytes() == old(r).bytes(),
        final(r).offset() <= final(r).bytes().len(),
{
    let start: usize = r.position();
    match read_master(r, el::INFO) {
        Err(e) => Err(e),
        Ok((children, n)) => match segment_info_fields(&children) {
            Err(e) => {
                r.seek(start);
                Err(e)
            },
            Ok(x) => Ok((x, n)),
        },
    }
}

/// Read and parse track information.
/// Returns the parsed object and the number of bytes that were read.
pub fn track_info(r: &mut Source) -> (res: Result<(Vec<Track>, usize), Error>)
    ensures
        match res {
            Ok((x, n)) => (match spec_read_master(old(r).remaining(), el::TRACKS) {
                Ok((elems, m)) => m == n && spec_track_list_error(elems, 0).is_none()
                    && spec_track_list(elems, x@),
                Err(_) => false,
            }) && final(r).offset() == old(r).offset() + n,
            Err(e) => (match spec_read_master(old(r).remaining(), el::TRACKS) {
                Ok((elems, _)) => spec_track_list_error(elems, 0) == Some(e),
                Err(first) => e == first,
            }) && final(r).offset() == old(r).offset(),
        },
        final(r).bytes() == old(r).bytes(),
        final(r).offset() <= final(r).bytes().len(),
{
    let start: usize = r.position();
    match read_master(r, el::TRACKS) {
        Err(e) => Err(e),
        Ok((children, n)) => match track_list(&children) {
            Err(e) => {
                r.seek(start);
                Err(e)
            },
            Ok(x) => Ok((x, n)),
        },
    }
}

/// Read and parse a single track entry.
/// Returns the parsed object and the number of bytes that were read.
pub fn track(r: &mut Source) -> (res: Result<(Track, usize), Error>)
    ensures
        match res {
            Ok((x, n)) => (match spec_read_master(old(r).remaining(), el::TRACK_ENTRY) {
                Ok((elems, m)) => m == n && spec_track_error(elems).is_none()
                    && spec_track_fields(elems, x),
                Err(_) => false,
            }) && final(r).offset() == old(r).offset() + n,
            Err(e) => (match spec_read_master(old(r).remaining(), el::TRACK_ENTRY) {
                Ok((elems, _)) => spec_track_error(elems) == Some(e),
                Err(first) => e == first,
            }) && final(r).offset() == old(r).offset(),
        },
        final(r).bytes() == old(r).bytes(),
        final(r).offset() <= final(r).bytes().len(),
{
    let start: usize = r.position();
    match read_master(r, el::TRACK_ENTRY) {
        Err(e) => Err(e),
        Ok((children, n)) => match track_fields(&children) {
            Err(e) => {
                r.seek(start);
                Err(e)
            },
            Ok(x) => Ok((x, n)),
        },
    }
}

/// Read and parse track video information.
/// Returns the parsed object and the number of bytes that were read.
pub fn track_video(r: &mut Source) -> (res: Result<(TrackVideo, usize), Error>)
    ensures
        match res {
            Ok((x, n)) => (match spec_read_master(old(r).remaining(), el::VIDEO) {
                Ok((elems, m)) => m == n && spec_video_error(elems).is_none()
                    && spec_video_fields(elems, x),
                Err(_) => false,
            }) && final(r).offset() == old(r).offset() + n,
            Err(e) => (match spec_read_master(old(r).remaining(), el::VIDEO) {
                Ok((elems, _)) => spec_video_error(elems) == Some(e),
                Err(first) => e == first,
            }) && final(r).offset() == old(r).offset(),
        },
        final(r).bytes() == old(r).bytes(),
        final(r).offset() <= final(r).bytes().len(),
{
    let start: usize = r.position();
    match read_master(r, el::VIDEO) {
        Err(e) => Err(e),
        Ok((children, n)) => match video_fields(&children) {
            Err(e) => {
                r.seek(start);
                Err(e)
            },
            Ok(x) => Ok((x, n)),
        },
    }
}

/// Read and parse video track color information.
/// Returns the parsed object and the number of bytes that were read.
pub fn track_video_color(r: &mut Source) -> (res: Result<(TrackVideoColor, usize), Error>)
    ensures
        match res {
            Ok((x, n)) => (match spec_read_master(old(r).remaining(), el::COLOUR) {
                Ok((elems, m)) => m == n && spec_video_color_error(elems).is_none()
                    && spec_video_color_fields(elems, x),
                Err(_) => false,
            }) && final(r).offset() == old(r).offset() + n,
            Err(e) => (match spec_read_master(old(r).remaining(), el::COLOUR) {
                Ok((elems, _)) => spec_video_color_error(elems) == Some(e),
                Err(first) => e == first,
            }) && final(r).offset() == old(r).offset(),
        },
        final(r).bytes() == old(r).bytes(),
        final(r).offset() <= final(r).bytes().len(),
{
    let start: usize = r.position();
    match read_master(r, el::COLOUR) {
        Err(e) => Err(e),
        Ok((children, n)) => match video_color_fields(&children) {
            Err(e) => {
                r.seek(start);
                Err(e)
            },
            Ok(x) => Ok((x, n)),
        },
    }
}

/// Read and parse video track color mastering metadata.
/// Returns the parsed object and the number of bytes that were read.
pub fn track_video_color_mastering_data(r: &mut Source) -> (res: Result<
    (TrackVideoColorMasteringData, usize),
    Error,
>)
    ensures
        match res {
            Ok((x, n)) => (match spec_read_master(old(r).remaining(), el::MASTERING_METADATA) {
                Ok((elems, m)) => m == n && spec_mastering_data_error(elems).is_none()
                    && spec_mastering_data_fields(elems, x),
                Err(_) => false,
            }) && final(r).offset() == old(r).offset() + n,
            Err(e) => (match spec_read_master(old(r).remaining(), el::MASTERING_METADATA) {
                Ok((elems, _)) => spec_mastering_data_error(elems) == Some(e),
                Err(first) => e == first,
            }) && final(r).offset() == old(r).offset(),
        },
        final(r).bytes() == old(r).bytes(),
        final(r).offset() <= final(r).bytes().len(),
{
    let start: usize = r.position();
    match read_master(r, el::MASTERING_METADATA) {
        Err(e) => Err(e),
        Ok((children, n)) => match mastering_data_fields(&children) {
            Err(e) => {
                r.seek(start);
                Err(e)
            },
            Ok(x) => Ok((x, n)),
        },
    }
}

/// Read and parse audio track information.
/// Returns the parsed object and the number of bytes that were read.
pub fn track_audio(r: &mut Source) -> (res: Result<(TrackAudio, usize), Error>)
    ensures
        match res {
            Ok((x, n)) => (match spec_read_master(old(r).remaining(), el::AUDIO) {
                Ok((elems, m)) => m == n && spec_audio_error(elems).is_none()
                    && spec_audio_fields(elems, x),
                Err(_) => false,
            }) && final(r).offset() == old(r).offset() + n,
            Err(e) => (match spec_read_master(old(r).remaining(), el::AUDIO) {
                Ok((elems, _)) => spec_audio_error(elems) == Some(e),
                Err(first) => e == first,
            }) && final(r).offset() == old(r).offset(),
        },
        final(r).bytes() == old(r).bytes(),
        final(r).offset() <= final(r).bytes().len(),
{
    let start: usize = r.position();
    match read_master(r, el::AUDIO) {
        Err(e) => Err(e),
        Ok((children, n)) => match audio_fields(&children) {
            Err(e) => {
                r.seek(start);
                Err(e)
            },
            Ok(x) => Ok((x, n)),
        },
    }
}

} // verus!
