//! Read matroska segment information.

use vstd::prelude::*;
use crate::elements as el;
use crate::error::Error;
use crate::ebml::element::{
    spec_optional_binary,
    spec_optional_uint,
    spec_optional_utf8,
    ElementArray,
    ElementSpec,
};

verus! {

/// The timestamp scale of a segment that names none, in nanoseconds.
pub const DEFAULT_TIMECODE_SCALE: u64 = 1000000;

/// General information about a segment.
#[derive(Debug)]
pub struct Info {
    pub timecode_scale: u64,
    pub uid: Option<Vec<u8>>,
    pub filename: Option<String>,
}

/// The information about a segment as the format defines it.
pub struct InfoSpec {
    pub timecode_scale: u64,
    pub uid: Option<Seq<u8>>,
    pub filename: Option<Seq<char>>,
}

impl View for Info {
    type V = InfoSpec;

    open spec fn view(&self) -> InfoSpec {
        InfoSpec {
            timecode_scale: self.timecode_scale,
            uid: match self.uid {
                Some(uid) => Some(uid@),
                None => None,
            },
            filename: match self.filename {
                Some(filename) => Some(filename@),
                None => None,
            },
        }
    }
}

/// The segment information that the children `elems` of an `Info` element
/// hold. Every field may be missing; the timestamp scale is then 1,000,000.
pub open spec fn spec_read(elems: Seq<ElementSpec>) -> Result<InfoSpec, Error> {
    match spec_optional_utf8(elems, el::SEGMENT_FILENAME) {
        Err(e) => Err(e),
        Ok(filename) => match spec_optional_uint(
            elems,
            el::TIMECODE_SCALE,
            DEFAULT_TIMECODE_SCALE,
        ) {
            Err(e) => Err(e),
            Ok(timecode_scale) => Ok(
                InfoSpec {
                    timecode_scale: timecode_scale,
                    uid: spec_optional_binary(elems, el::SEGMENT_UID),
                    filename: filename,
                },
            ),
        },
    }
}

impl Info {
    /// Timestamp scale of the segment in nanoseconds.
    pub fn timecode_scale(&self) -> (scale: u64)
        ensures
            scale == self@.timecode_scale,
    {
        self.timecode_scale
    }

    /// Optional. Unique identifier of the segment.
    pub fn uid(&self) -> (r: Option<&[u8]>)
        ensures
            match r {
                Some(uid) => self@.uid == Some(uid@),
                None => self@.uid.is_none(),
            },
    {
        match &self.uid {
            Some(uid) => Some(uid.as_slice()),
            None => None,
        }
    }

    /// Optional. The file name corresponding to the segment.
    pub fn filename(&self) -> (r: Option<&str>)
        ensures
            match r {
                Some(filename) => self@.filename == Some(filename@),
                None => self@.filename.is_none(),
            },
    {
        match &self.filename {
            Some(filename) => Some(filename.as_str()),
            None => None,
        }
    }
}

/// Read matroska segment information. Expected input: children of the `Info` master element.
pub fn read(elems: ElementArray) -> (r: Result<Info, Error>)
    ensures
        match r {
            Ok(info) => spec_read(elems@) == Ok::<_, Error>(info@),
            Err(e) => spec_read(elems@) == Err::<InfoSpec, _>(e),
        },
{
    let uid = elems.optional_binary(el::SEGMENT_UID);
    let filename = elems.optional_utf8(el::SEGMENT_FILENAME)?;
    let timecode_scale: u64 = elems.optional_uint(el::TIMECODE_SCALE, DEFAULT_TIMECODE_SCALE)?;
    Ok(Info { uid: uid, filename: filename, timecode_scale: timecode_scale })
}

} // verus!
