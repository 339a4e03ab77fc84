//! Reading records field by field from the children of their element.
//!
//! Every field of a record is given by one child. Where several children give
//! the same field the last of them counts, and where none does the field has
//! its default.

use vstd::prelude::*;
use vstd::string::StringExecFns;
use crate::elements as el;
use crate::error::Error;
use crate::ebml::element::{
    binaries_view,
    spec_all_binary,
    spec_all_uint,
    spec_children,
    spec_find_last,
    spec_last_binary,
    spec_last_float,
    spec_last_sint,
    spec_last_uint,
    spec_last_utf8,
    ElementArray,
    ElementSpec,
    Float,
};
use crate::io::{SeekEntry, SeekEntrySpec};
use crate::reader::track::{spec_default_sampling_frequency, DEFAULT_SAMPLING_FREQUENCY_BITS};
use crate::structures::{
    ChapterTranslate,
    ChapterTranslateSpec,
    SegmentInfo,
    Track,
    TrackAudio,
    TrackVideo,
    TrackVideoColor,
    TrackVideoColorMasteringData,
};

verus! {

/// The error that `r` is, if it is one.
pub open spec fn err_of<T>(r: Result<T, Error>) -> Option<Error> {
    match r {
        Ok(_) => None,
        Err(e) => Some(e),
    }
}

/// The first of two errors that is there.
pub open spec fn or_err(first: Option<Error>, second: Option<Error>) -> Option<Error> {
    if first.is_some() {
        first
    } else {
        second
    }
}

/// The children of the last master element `id` among `elems`, if there is
/// such an element.
pub open spec fn spec_nested(elems: Seq<ElementSpec>, id: u64) -> Option<
    Result<Seq<ElementSpec>, Error>,
> {
    match spec_find_last(elems, id) {
        Some(element) => Some(spec_children(element.data)),
        None => None,
    }
}

/// The `ChapterTranslate` that the children `elems` of its element hold: all
/// the edition identifiers, in order, and the last codec and identifier.
pub open spec fn spec_chapter_translate(elems: Seq<ElementSpec>) -> Result<
    ChapterTranslateSpec,
    Error,
> {
    match spec_all_uint(elems, el::CHAPTER_TRANSLATE_EDITION_UID, 0) {
        Err(e) => Err(e),
        Ok(edition_uids) => match spec_last_uint(elems, el::CHAPTER_TRANSLATE_CODEC, 0) {
            Err(e) => Err(e),
            Ok(codec) => Ok(
                ChapterTranslateSpec {
                    edition_uids: edition_uids,
                    codec: codec,
                    id: spec_last_binary(elems, el::CHAPTER_TRANSLATE_ID),
                },
            ),
        },
    }
}

/// The `ChapterTranslate` of each element `ChapterTranslate` among `elems`
/// from index `from` on, in order, or the error of the first of them that
/// cannot be read.
pub open spec fn spec_chapter_translates(elems: Seq<ElementSpec>, from: int) -> Result<
    Seq<ChapterTranslateSpec>,
    Error,
>
    decreases elems.len() - from,
{
    if from < 0 || from >= elems.len() {
        Ok(Seq::empty())
    } else if elems[from].id == el::CHAPTER_TRANSLATE {
        match spec_children(elems[from].data) {
            Err(e) => Err(e),
            Ok(children) => match spec_chapter_translate(children) {
                Err(e) => Err(e),
                Ok(translate) => match spec_chapter_translates(elems, from + 1) {
                    Err(e) => Err(e),
                    Ok(rest) => Ok(seq![translate] + rest),
                },
            },
        }
    } else {
        spec_chapter_translates(elems, from + 1)
    }
}

/// The `ChapterTranslate`s `items` as the format defines them.
pub open spec fn translates_view(items: Seq<ChapterTranslate>) -> Seq<ChapterTranslateSpec> {
    Seq::new(items.len(), |i: int| items[i]@)
}

/// Read a `ChapterTranslate` from the children of its element.
pub(crate) fn chapter_translate_fields(elems: &ElementArray) -> (res: Result<
    ChapterTranslate,
    Error,
>)
    ensures
        match res {
            Ok(x) => spec_chapter_translate(elems@) == Ok::<_, Error>(x@),
            Err(e) => spec_chapter_translate(elems@) == Err::<ChapterTranslateSpec, _>(e),
        },
{
    let edition_uids = elems.all_uint(el::CHAPTER_TRANSLATE_EDITION_UID)?;
    let codec: u64 = elems.last_uint(el::CHAPTER_TRANSLATE_CODEC, 0)?;
    let id = elems.last_binary(el::CHAPTER_TRANSLATE_ID);
    Ok(ChapterTranslate { edition_uids: edition_uids, codec: codec, id: id })
}

/// Read the `ChapterTranslate` of each element `ChapterTranslate` among
/// `elems`.
pub(crate) fn chapter_translates(elems: &ElementArray) -> (res: Result<
    Vec<ChapterTranslate>,
    Error,
>)
    ensures
        match res {
            Ok(items) => spec_chapter_translates(elems@, 0) == Ok::<_, Error>(
                translates_view(items@),
            ),
            Err(e) => spec_chapter_translates(elems@, 0) == Err::<Seq<ChapterTranslateSpec>, _>(e),
        },
{
    let mut items: Vec<ChapterTranslate> = Vec::new();
    let mut i: usize = 0;
    proof {
        assert(translates_view(items@) =~= Seq::<ChapterTranslateSpec>::empty());
        match spec_chapter_translates(elems@, 0) {
            Ok(rest) => {
                assert(Seq::<ChapterTranslateSpec>::empty() + rest =~= rest);
            },
            Err(_) => {},
        }
    }
    while i < elems.len()
        invariant
            i <= elems@.len(),
            spec_chapter_translates(elems@, 0) == (match spec_chapter_translates(
                elems@,
                i as int,
            ) {
                Ok(rest) => Ok(translates_view(items@) + rest),
                Err(e) => Err(e),
            }),
        decreases elems@.len() - i,
    {
        let element = elems.at(i);
        if element.id() == el::CHAPTER_TRANSLATE {
            let ghost done = translates_view(items@);
            let children = element.children()?;
            let translate = chapter_translate_fields(&children)?;
            proof {
                match spec_chapter_translates(elems@, i + 1) {
                    Ok(rest) => {
                        assert(done + (seq![translate@] + rest) =~= (done + seq![translate@])
                            + rest);
                    },
                    Err(_) => {},
                }
            }
            items.push(translate);
            proof {
                assert(translates_view(items@) =~= done + seq![translate@]);
            }
        }
        i = i + 1;
    }
    proof {
        assert(translates_view(items@) + Seq::<ChapterTranslateSpec>::empty() =~= translates_view(
            items@,
        ));
    }
    Ok(items)
}

/// Whether `x` is the segment information that the children `elems` of an
/// `Info` element hold: each field has the value of the last child that
/// gives it, or its default where no child does; the families and the
/// `ChapterTranslate`s are those of all the children that give one, in
/// order.
pub open spec fn spec_segment_info_fields(elems: Seq<ElementSpec>, x: SegmentInfo) -> bool {
    &&& x.uid@ == spec_last_binary(elems, el::SEGMENT_UID)
    &&& spec_last_utf8(elems, el::SEGMENT_FILENAME, Seq::<char>::empty()) == Ok::<
        Seq<char>,
        Error,
    >(x.segment_filename@)
    &&& x.prev_uid@ == spec_last_binary(elems, el::PREV_UID)
    &&& spec_last_utf8(elems, el::PREV_FILENAME, Seq::<char>::empty()) == Ok::<Seq<char>, Error>(
        x.prev_filename@,
    )
    &&& x.next_uid@ == spec_last_binary(elems, el::NEXT_UID)
    &&& spec_last_utf8(elems, el::NEXT_FILENAME, Seq::<char>::empty()) == Ok::<Seq<char>, Error>(
        x.next_filename@,
    )
    &&& binaries_view(x.segment_familys@) == spec_all_binary(elems, el::SEGMENT_FAMILY, 0)
    &&& spec_chapter_translates(elems, 0) == Ok::<_, Error>(
        translates_view(x.chapter_translates@),
    )
    &&& spec_last_uint(elems, el::TIMECODE_SCALE, 1000000) == Ok::<u64, Error>(x.timecode_scale)
    &&& spec_last_float(elems, el::DURATION, Float { bits: 0, double: true }) == Ok::<
        Float,
        Error,
    >(x.duration)
    &&& x.date_utc@ == spec_last_binary(elems, el::DATE_UTC)
    &&& spec_last_utf8(elems, el::TITLE, Seq::<char>::empty()) == Ok::<Seq<char>, Error>(x.title@)
    &&& spec_last_utf8(elems, el::MUXING_APP, Seq::<char>::empty()) == Ok::<Seq<char>, Error>(
        x.muxing_app@,
    )
    &&& spec_last_utf8(elems, el::WRITING_APP, Seq::<char>::empty()) == Ok::<Seq<char>, Error>(
        x.writing_app@,
    )
}

/// The error that reading the segment information from the children `elems`
/// ends in, if it ends in one: that of the first field, in their order,
/// whose child cannot be read as the type of the field.
pub open spec fn spec_segment_info_error(elems: Seq<ElementSpec>) -> Option<Error> {
    let first = err_of(spec_last_utf8(elems, el::SEGMENT_FILENAME, Seq::<char>::empty()));
    let first = or_err(
        first,
        err_of(spec_last_utf8(elems, el::PREV_FILENAME, Seq::<char>::empty())),
    );
    let first = or_err(
        first,
        err_of(spec_last_utf8(elems, el::NEXT_FILENAME, Seq::<char>::empty())),
    );
    let first = or_err(first, err_of(spec_chapter_translates(elems, 0)));
    let first = or_err(first, err_of(spec_last_uint(elems, el::TIMECODE_SCALE, 1000000)));
    let first = or_err(
        first,
        err_of(spec_last_float(elems, el::DURATION, Float { bits: 0, double: true })),
    );
    let first = or_err(first, err_of(spec_last_utf8(elems, el::TITLE, Seq::<char>::empty())));
    let first = or_err(first, err_of(spec_last_utf8(elems, el::MUXING_APP, Seq::<char>::empty())));
    let first = or_err(first, err_of(spec_last_utf8(elems, el::WRITING_APP, Seq::<char>::empty())));
    first
}

/// Read the segment information from the children of an `Info` element.
pub(crate) fn segment_info_fields(elems: &ElementArray) -> (res: Result<SegmentInfo, Error>)
    ensures
        match res {
            Ok(x) => spec_segment_info_error(elems@).is_none() && spec_segment_info_fields(
                elems@,
                x,
            ),
            Err(e) => spec_segment_info_error(elems@) == Some(e),
        },
{
    let uid = elems.last_binary(el::SEGMENT_UID);
    let segment_filename = elems.last_utf8(el::SEGMENT_FILENAME, String::new())?;
    let prev_uid = elems.last_binary(el::PREV_UID);
    let prev_filename = elems.last_utf8(el::PREV_FILENAME, String::new())?;
    let next_uid = elems.last_binary(el::NEXT_UID);
    let next_filename = elems.last_utf8(el::NEXT_FILENAME, String::new())?;
    let segment_familys = elems.all_binary(el::SEGMENT_FAMILY);
    let chapter_translates = chapter_translates(elems)?;
    let timecode_scale: u64 = elems.last_uint(el::TIMECODE_SCALE, 1000000)?;
    let duration = elems.last_float(el::DURATION, Float { bits: 0, double: true })?;
    let date_utc = elems.last_binary(el::DATE_UTC);
    let title = elems.last_utf8(el::TITLE, String::new())?;
    let muxing_app = elems.last_utf8(el::MUXING_APP, String::new())?;
    let writing_app = elems.last_utf8(el::WRITING_APP, String::new())?;
    Ok(
        SegmentInfo {
            uid: uid,
            segment_filename: segment_filename,
            prev_uid: prev_uid,
            prev_filename: prev_filename,
            next_uid: next_uid,
            next_filename: next_filename,
            segment_familys: segment_familys,
            chapter_translates: chapter_translates,
            timecode_scale: timecode_scale,
            duration: duration,
            date_utc: date_utc,
            title: title,
            muxing_app: muxing_app,
            writing_app: writing_app,
        },
    )
}

/// The seek entry that the children `elems` of a `Seek` element hold: the
/// content of the last `SeekID` and the number in the last `SeekPosition`,
/// or nothing and zero where there is none.
pub open spec fn spec_seek_entry(elems: Seq<ElementSpec>) -> Result<SeekEntrySpec, Error> {
    match spec_last_uint(elems, el::SEEK_POSITION, 0) {
        Err(e) => Err(e),
        Ok(position) => Ok(
            SeekEntrySpec { id: spec_last_binary(elems, el::SEEK_ID), position: position },
        ),
    }
}

/// The seek entries of the elements of `elems` from index `from` on, each of
/// which must be a `Seek`, in order; or the error of the first element that
/// holds none.
pub open spec fn spec_seek_entries(elems: Seq<ElementSpec>, from: int) -> Result<
    Seq<SeekEntrySpec>,
    Error,
>
    decreases elems.len() - from,
{
    if from < 0 || from >= elems.len() {
        Ok(Seq::empty())
    } else if elems[from].id != el::SEEK {
        Err(Error::UnexpectedElement { expected: el::SEEK, found: elems[from].id })
    } else {
        match spec_children(elems[from].data) {
            Err(e) => Err(e),
            Ok(children) => match spec_seek_entry(children) {
                Err(e) => Err(e),
                Ok(entry) => match spec_seek_entries(elems, from + 1) {
                    Err(e) => Err(e),
                    Ok(rest) => Ok(seq![entry] + rest),
                },
            },
        }
    }
}

/// Read the seek entries of the children of a `SeekHead` element: for each of
/// them the content of its `SeekID` and the number in its `SeekPosition`.
pub(crate) fn seek_entries(elems: &ElementArray) -> (res: Result<Vec<SeekEntry>, Error>)
    ensures
        match res {
            Ok(entries) => spec_seek_entries(elems@, 0) == Ok::<_, Error>(seek_view(entries@)),
            Err(e) => spec_seek_entries(elems@, 0) == Err::<Seq<SeekEntrySpec>, _>(e),
        },
{
    let mut entries: Vec<SeekEntry> = Vec::new();
    let mut i: usize = 0;
    proof {
        assert(seek_view(entries@) =~= Seq::<SeekEntrySpec>::empty());
        match spec_seek_entries(elems@, 0) {
            Ok(rest) => {
                assert(Seq::<SeekEntrySpec>::empty() + rest =~= rest);
            },
            Err(_) => {},
        }
    }
    while i < elems.len()
        invariant
            i <= elems@.len(),
            spec_seek_entries(elems@, 0) == (match spec_seek_entries(elems@, i as int) {
                Ok(rest) => Ok(seek_view(entries@) + rest),
                Err(e) => Err(e),
            }),
        decreases elems@.len() - i,
    {
        let ghost done = seek_view(entries@);
        let element = elems.at(i);
        if element.id() != el::SEEK {
            return Err(Error::UnexpectedElement { expected: el::SEEK, found: element.id() });
        }
        let children = element.children()?;
        let position: u64 = children.last_uint(el::SEEK_POSITION, 0)?;
        let id = children.last_binary(el::SEEK_ID);
        let ghost entry = SeekEntrySpec { id: id@, position: position };
        proof {
            match spec_seek_entries(elems@, i + 1) {
                Ok(rest) => {
                    assert(done + (seq![entry] + rest) =~= (done + seq![entry]) + rest);
                },
                Err(_) => {},
            }
        }
        entries.push(SeekEntry { seek_id: id, seek_position: position });
        proof {
            assert(seek_view(entries@) =~= done + seq![entry]);
        }
        i = i + 1;
    }
    proof {
        assert(seek_view(entries@) + Seq::<SeekEntrySpec>::empty() =~= seek_view(entries@));
    }
    Ok(entries)
}

/// The seek entries `entries` as the format defines them.
pub open spec fn seek_view(entries: Seq<SeekEntry>) -> Seq<SeekEntrySpec> {
    Seq::new(entries.len(), |i: int| entries[i]@)
}

/// Whether `tracks` are the tracks that the elements `elems` describe, one
/// for each element and in order.
pub open spec fn spec_track_list(elems: Seq<ElementSpec>, tracks: Seq<Track>) -> bool {
    &&& tracks.len() == elems.len()
    &&& forall|i: int|
        0 <= i < elems.len() ==> match spec_children((#[trigger] elems[i]).data) {
            Ok(children) => spec_track_error(children).is_none() && spec_track_fields(
                children,
                tracks[i],
            ),
            Err(_) => false,
        }
}

/// The error that reading a track from the element `element` ends in, if it
/// ends in one.
pub open spec fn spec_track_entry_error(element: ElementSpec) -> Option<Error> {
    match spec_children(element.data) {
        Err(e) => Some(e),
        Ok(children) => spec_track_error(children),
    }
}

/// The error that reading the tracks of the elements of `elems` from index
/// `from` on ends in, if it ends in one: that of the first element that
/// describes no track.
pub open spec fn spec_track_list_error(elems: Seq<ElementSpec>, from: int) -> Option<Error>
    decreases elems.len() - from,
{
    if from < 0 || from >= elems.len() {
        None
    } else {
        or_err(spec_track_entry_error(elems[from]), spec_track_list_error(elems, from + 1))
    }
}

/// Read the tracks that the children of a `Tracks` element describe.
pub(crate) fn track_list(elems: &ElementArray) -> (res: Result<Vec<Track>, Error>)
    ensures
        match res {
            Ok(tracks) => spec_track_list_error(elems@, 0).is_none() && spec_track_list(
                elems@,
                tracks@,
            ),
            Err(e) => spec_track_list_error(elems@, 0) == Some(e),
        },
{
    let mut tracks: Vec<Track> = Vec::new();
    let mut i: usize = 0;
    while i < elems.len()
        invariant
            i <= elems@.len(),
            tracks@.len() == i,
            spec_track_list_error(elems@, 0) == spec_track_list_error(elems@, i as int),
            forall|k: int|
                0 <= k < i ==> match spec_children((#[trigger] elems@[k]).data) {
                    Ok(children) => spec_track_error(children).is_none() && spec_track_fields(
                        children,
                        tracks@[k],
                    ),
                    Err(_) => false,
                },
        decreases elems@.len() - i,
    {
        let element = elems.at(i);
        let children = element.children()?;
        let track = track_fields(&children)?;
        tracks.push(track);
        i = i + 1;
    }
    Ok(tracks)
}

/// Whether `x` is the mastering metadata that the children `elems` of its
/// element hold: each field has the value of the last child that gives it, or
/// its default where no child does.
pub open spec fn spec_mastering_data_fields(
    elems: Seq<ElementSpec>,
    x: TrackVideoColorMasteringData,
) -> bool {
    &&& spec_last_float(elems, el::PRIMARY_RCHROMATICITY_X, Float { bits: 0, double: true })
        == Ok::<Float, Error>(x.primary_r_chromaticity_x)
    &&& spec_last_float(elems, el::PRIMARY_RCHROMATICITY_Y, Float { bits: 0, double: true })
        == Ok::<Float, Error>(x.primary_r_chromaticity_y)
    &&& spec_last_float(elems, el::PRIMARY_GCHROMATICITY_X, Float { bits: 0, double: true })
        == Ok::<Float, Error>(x.primary_g_chromaticity_x)
    &&& spec_last_float(elems, el::PRIMARY_GCHROMATICITY_Y, Float { bits: 0, double: true })
        == Ok::<Float, Error>(x.primary_g_chromaticity_y)
    &&& spec_last_float(elems, el::PRIMARY_BCHROMATICITY_X, Float { bits: 0, double: true })
        == Ok::<Float, Error>(x.primary_b_chromaticity_x)
    &&& spec_last_float(elems, el::PRIMARY_BCHROMATICITY_Y, Float { bits: 0, double: true })
        == Ok::<Float, Error>(x.primary_b_chromaticity_y)
    &&& spec_last_float(elems, el::WHITE_POINT_CHROMATICITY_X, Float { bits: 0, double: true })
        == Ok::<Float, Error>(x.white_point_chromaticity_x)
    &&& spec_last_float(elems, el::WHITE_POINT_CHROMATICITY_Y, Float { bits: 0, double: true })
        == Ok::<Float, Error>(x.white_point_chromaticity_y)
    &&& spec_last_float(elems, el::LUMINANCE_MAX, Float { bits: 0, double: true })
        == Ok::<Float, Error>(x.luminance_max)
    &&& spec_last_float(elems, el::LUMINANCE_MIN, Float { bits: 0, double: true })
        == Ok::<Float, Error>(x.luminance_min)
}

/// The error that reading the mastering metadata from the children `elems`
/// ends in, if it ends in one: that of the first field, in their order, whose
/// child cannot be read as the type of the field.
pub open spec fn spec_mastering_data_error(elems: Seq<ElementSpec>) -> Option<Error> {
    let first = err_of(
        spec_last_float(elems, el::PRIMARY_RCHROMATICITY_X, Float { bits: 0, double: true }),
    );
    let first = or_err(
        first,
        err_of(
            spec_last_float(elems, el::PRIMARY_RCHROMATICITY_Y, Float { bits: 0, double: true }),
        ),
    );
    let first = or_err(
        first,
        err_of(
            spec_last_float(elems, el::PRIMARY_GCHROMATICITY_X, Float { bits: 0, double: true }),
        ),
    );
    let first = or_err(
        first,
        err_of(
            spec_last_float(elems, el::PRIMARY_GCHROMATICITY_Y, Float { bits: 0, double: true }),
        ),
    );
    let first = or_err(
        first,
        err_of(
            spec_last_float(elems, el::PRIMARY_BCHROMATICITY_X, Float { bits: 0, double: true }),
        ),
    );
    let first = or_err(
        first,
        err_of(
            spec_last_float(elems, el::PRIMARY_BCHROMATICITY_Y, Float { bits: 0, double: true }),
        ),
    );
    let first = or_err(
        first,
        err_of(
            spec_last_float(elems, el::WHITE_POINT_CHROMATICITY_X, Float { bits: 0, double: true }),
        ),
    );
    let first = or_err(
        first,
        err_of(
            spec_last_float(elems, el::WHITE_POINT_CHROMATICITY_Y, Float { bits: 0, double: true }),
        ),
    );
    let first = or_err(
        first,
        err_of(spec_last_float(elems, el::LUMINANCE_MAX, Float { bits: 0, double: true })),
    );
    let first = or_err(
        first,
        err_of(spec_last_float(elems, el::LUMINANCE_MIN, Float { bits: 0, double: true })),
    );
    first
}

/// Read the mastering metadata from the children of its element.
pub(crate) fn mastering_data_fields(elems: &ElementArray) -> (res: Result<
    TrackVideoColorMasteringData,
    Error,
>)
    ensures
        match res {
            Ok(x) => spec_mastering_data_error(elems@).is_none()
                && spec_mastering_data_fields(elems@, x),
            Err(e) => spec_mastering_data_error(elems@) == Some(e),
        },
{
    let primary_r_chromaticity_x = elems.last_float(
        el::PRIMARY_RCHROMATICITY_X,
        Float { bits: 0, double: true },
    )?;
    let primary_r_chromaticity_y = elems.last_float(
        el::PRIMARY_RCHROMATICITY_Y,
        Float { bits: 0, double: true },
    )?;
    let primary_g_chromaticity_x = elems.last_float(
        el::PRIMARY_GCHROMATICITY_X,
        Float { bits: 0, double: true },
    )?;
    let primary_g_chromaticity_y = elems.last_float(
        el::PRIMARY_GCHROMATICITY_Y,
        Float { bits: 0, double: true },
    )?;
    let primary_b_chromaticity_x = elems.last_float(
        el::PRIMARY_BCHROMATICITY_X,
        Float { bits: 0, double: true },
    )?;
    let primary_b_chromaticity_y = elems.last_float(
        el::PRIMARY_BCHROMATICITY_Y,
        Float { bits: 0, double: true },
    )?;
    let white_point_chromaticity_x = elems.last_float(
        el::WHITE_POINT_CHROMATICITY_X,
        Float { bits: 0, double: true },
    )?;
    let white_point_chromaticity_y = elems.last_float(
        el::WHITE_POINT_CHROMATICITY_Y,
        Float { bits: 0, double: true },
    )?;
    let luminance_max = elems.last_float(el::LUMINANCE_MAX, Float { bits: 0, double: true })?;
    let luminance_min = elems.last_float(el::LUMINANCE_MIN, Float { bits: 0, double: true })?;
    Ok(
        TrackVideoColorMasteringData {
            primary_r_chromaticity_x: primary_r_chromaticity_x,
            primary_r_chromaticity_y: primary_r_chromaticity_y,
            primary_g_chromaticity_x: primary_g_chromaticity_x,
            primary_g_chromaticity_y: primary_g_chromaticity_y,
            primary_b_chromaticity_x: primary_b_chromaticity_x,
            primary_b_chromaticity_y: primary_b_chromaticity_y,
            white_point_chromaticity_x: white_point_chromaticity_x,
            white_point_chromaticity_y: white_point_chromaticity_y,
            luminance_max: luminance_max,
            luminance_min: luminance_min,
        },
    )
}

/// Whether `x` is the color information that the children `elems` of its
/// element hold: each field has the value of the last child that gives it, or
/// its default where no child does.
pub open spec fn spec_video_color_fields(elems: Seq<ElementSpec>, x: TrackVideoColor) -> bool {
    &&& spec_last_uint(elems, el::MATRIX_COEFFICIENTS, 2) == Ok::<u64, Error>(x.matrix_coefficients)
    &&& spec_last_uint(elems, el::BITS_PER_CHANNEL, 0) == Ok::<u64, Error>(x.bits_per_channel)
    &&& spec_last_uint(elems, el::CHROMA_SUBSAMPLING_HORZ, 0)
        == Ok::<u64, Error>(x.chroma_subsampling_horz)
    &&& spec_last_uint(elems, el::CHROMA_SUBSAMPLING_VERT, 0)
        == Ok::<u64, Error>(x.chroma_subsampling_vert)
    &&& spec_last_uint(elems, el::CB_SUBSAMPLING_HORZ, 0) == Ok::<u64, Error>(x.cb_subsampling_horz)
    &&& spec_last_uint(elems, el::CB_SUBSAMPLING_VERT, 0) == Ok::<u64, Error>(x.cb_subsampling_vert)
    &&& spec_last_uint(elems, el::CHROMA_SITING_HORZ, 0) == Ok::<u64, Error>(x.chroma_siting_horz)
    &&& spec_last_uint(elems, el::CHROMA_SITING_VERT, 0) == Ok::<u64, Error>(x.chroma_siting_vert)
    &&& spec_last_uint(elems, el::RANGE, 0) == Ok::<u64, Error>(x.range)
    &&& spec_last_uint(elems, el::TRANSFER_CHARACTERISTICS, 2)
        == Ok::<u64, Error>(x.transfer_characteristics)
    &&& spec_last_uint(elems, el::PRIMARIES, 0) == Ok::<u64, Error>(x.primaries)
    &&& spec_last_uint(elems, el::MAX_CLL, 0) == Ok::<u64, Error>(x.max_cll)
    &&& spec_last_uint(elems, el::MAX_FALL, 0) == Ok::<u64, Error>(x.max_fall)
    &&& match x.mastering_data {
        Some(inner) => match spec_nested(elems, el::MASTERING_METADATA) {
            Some(Ok(children)) => spec_mastering_data_fields(children, inner),
            _ => false,
        },
        None => spec_nested(elems, el::MASTERING_METADATA).is_none(),
    }
}

/// The error that reading the color information from the children `elems` ends
/// in, if it ends in one: that of the first field, in their order, whose child
/// cannot be read as the type of the field.
pub open spec fn spec_video_color_error(elems: Seq<ElementSpec>) -> Option<Error> {
    let first = err_of(spec_last_uint(elems, el::MATRIX_COEFFICIENTS, 2));
    let first = or_err(first, err_of(spec_last_uint(elems, el::BITS_PER_CHANNEL, 0)));
    let first = or_err(first, err_of(spec_last_uint(elems, el::CHROMA_SUBSAMPLING_HORZ, 0)));
    let first = or_err(first, err_of(spec_last_uint(elems, el::CHROMA_SUBSAMPLING_VERT, 0)));
    let first = or_err(first, err_of(spec_last_uint(elems, el::CB_SUBSAMPLING_HORZ, 0)));
    let first = or_err(first, err_of(spec_last_uint(elems, el::CB_SUBSAMPLING_VERT, 0)));
    let first = or_err(first, err_of(spec_last_uint(elems, el::CHROMA_SITING_HORZ, 0)));
    let first = or_err(first, err_of(spec_last_uint(elems, el::CHROMA_SITING_VERT, 0)));
    let first = or_err(first, err_of(spec_last_uint(elems, el::RANGE, 0)));
    let first = or_err(first, err_of(spec_last_uint(elems, el::TRANSFER_CHARACTERISTICS, 2)));
    let first = or_err(first, err_of(spec_last_uint(elems, el::PRIMARIES, 0)));
    let first = or_err(first, err_of(spec_last_uint(elems, el::MAX_CLL, 0)));
    let first = or_err(first, err_of(spec_last_uint(elems, el::MAX_FALL, 0)));
    let first = or_err(first, match spec_nested(elems, el::MASTERING_METADATA) {
        Some(Err(e)) => Some(e),
        Some(Ok(children)) => spec_mastering_data_error(children),
        None => None,
    });
    first
}

/// Read the color information from the children of its element.
pub(crate) fn video_color_fields(elems: &ElementArray) -> (res: Result<TrackVideoColor, Error>)
    ensures
        match res {
            Ok(x) => spec_video_color_error(elems@).is_none() && spec_video_color_fields(elems@, x),
            Err(e) => spec_video_color_error(elems@) == Some(e),
        },
{
    let matrix_coefficients: u64 = elems.last_uint(el::MATRIX_COEFFICIENTS, 2)?;
    let bits_per_channel: u64 = elems.last_uint(el::BITS_PER_CHANNEL, 0)?;
    let chroma_subsampling_horz: u64 = elems.last_uint(el::CHROMA_SUBSAMPLING_HORZ, 0)?;
    let chroma_subsampling_vert: u64 = elems.last_uint(el::CHROMA_SUBSAMPLING_VERT, 0)?;
    let cb_subsampling_horz: u64 = elems.last_uint(el::CB_SUBSAMPLING_HORZ, 0)?;
    let cb_subsampling_vert: u64 = elems.last_uint(el::CB_SUBSAMPLING_VERT, 0)?;
    let chroma_siting_horz: u64 = elems.last_uint(el::CHROMA_SITING_HORZ, 0)?;
    let chroma_siting_vert: u64 = elems.last_uint(el::CHROMA_SITING_VERT, 0)?;
    let range: u64 = elems.last_uint(el::RANGE, 0)?;
    let transfer_characteristics: u64 = elems.last_uint(el::TRANSFER_CHARACTERISTICS, 2)?;
    let primaries: u64 = elems.last_uint(el::PRIMARIES, 0)?;
    let max_cll: u64 = elems.last_uint(el::MAX_CLL, 0)?;
    let max_fall: u64 = elems.last_uint(el::MAX_FALL, 0)?;
    let mastering_data = match elems.find_last(el::MASTERING_METADATA) {
        Some(element) => {
            let children = element.children()?;
            Some(mastering_data_fields(&children)?)
        },
        None => None,
    };
    Ok(
        TrackVideoColor {
            matrix_coefficients: matrix_coefficients,
            bits_per_channel: bits_per_channel,
            chroma_subsampling_horz: chroma_subsampling_horz,
            chroma_subsampling_vert: chroma_subsampling_vert,
            cb_subsampling_horz: cb_subsampling_horz,
            cb_subsampling_vert: cb_subsampling_vert,
            chroma_siting_horz: chroma_siting_horz,
            chroma_siting_vert: chroma_siting_vert,
            range: range,
            transfer_characteristics: transfer_characteristics,
            primaries: primaries,
            max_cll: max_cll,
            max_fall: max_fall,
            mastering_data: mastering_data,
        },
    )
}

/// Whether `x` is the video information that the children `elems` of its
/// element hold: each field has the value of the last child that gives it, or
/// its default where no child does.
pub open spec fn spec_video_fields(elems: Seq<ElementSpec>, x: TrackVideo) -> bool {
    &&& spec_last_uint(elems, el::FLAG_INTERLACED, 0) == Ok::<u64, Error>(x.flag_interlaced)
    &&& spec_last_uint(elems, el::FIELD_ORDER, 2) == Ok::<u64, Error>(x.field_order)
    &&& spec_last_uint(elems, el::STEREO_MODE, 0) == Ok::<u64, Error>(x.stereo_mode)
    &&& spec_last_uint(elems, el::ALPHA_MODE, 0) == Ok::<u64, Error>(x.alpha_mode)
    &&& spec_last_uint(elems, el::OLD_STEREO_MODE, 0) == Ok::<u64, Error>(x.old_stereo_mode)
    &&& spec_last_uint(elems, el::PIXEL_WIDTH, 0) == Ok::<u64, Error>(x.pixel_width)
    &&& spec_last_uint(elems, el::PIXEL_HEIGHT, 0) == Ok::<u64, Error>(x.pixel_height)
    &&& spec_last_uint(elems, el::PIXEL_CROP_BOTTOM, 0) == Ok::<u64, Error>(x.pixel_crop_bottom)
    &&& spec_last_uint(elems, el::PIXEL_CROP_TOP, 0) == Ok::<u64, Error>(x.pixel_crop_top)
    &&& spec_last_uint(elems, el::PIXEL_CROP_LEFT, 0) == Ok::<u64, Error>(x.pixel_crop_left)
    &&& spec_last_uint(elems, el::PIXEL_CROP_RIGHT, 0) == Ok::<u64, Error>(x.pixel_crop_right)
    &&& spec_last_uint(elems, el::DISPLAY_WIDTH, 0) == Ok::<u64, Error>(x.display_width)
    &&& spec_last_uint(elems, el::DISPLAY_HEIGHT, 0) == Ok::<u64, Error>(x.display_height)
    &&& spec_last_uint(elems, el::DISPLAY_UNIT, 0) == Ok::<u64, Error>(x.display_unit)
    &&& spec_last_uint(elems, el::ASPECT_RATIO_TYPE, 0) == Ok::<u64, Error>(x.aspect_ratio_type)
    &&& x.colour_space@ == spec_last_binary(elems, el::COLOUR_SPACE)
    &&& spec_last_float(elems, el::GAMMA_VALUE, Float { bits: 0, double: true })
        == Ok::<Float, Error>(x.gamma_value)
    &&& spec_last_float(elems, el::FRAME_RATE, Float { bits: 0, double: true })
        == Ok::<Float, Error>(x.frame_rate)
    &&& match x.color {
        Some(inner) => match spec_nested(elems, el::COLOUR) {
            Some(Ok(children)) => spec_video_color_fields(children, inner),
            _ => false,
        },
        None => spec_nested(elems, el::COLOUR).is_none(),
    }
}

/// The error that reading the video information from the children `elems` ends
/// in, if it ends in one: that of the first field, in their order, whose child
/// cannot be read as the type of the field.
pub open spec fn spec_video_error(elems: Seq<ElementSpec>) -> Option<Error> {
    let first = err_of(spec_last_uint(elems, el::FLAG_INTERLACED, 0));
    let first = or_err(first, err_of(spec_last_uint(elems, el::FIELD_ORDER, 2)));
    let first = or_err(first, err_of(spec_last_uint(elems, el::STEREO_MODE, 0)));
    let first = or_err(first, err_of(spec_last_uint(elems, el::ALPHA_MODE, 0)));
    let first = or_err(first, err_of(spec_last_uint(elems, el::OLD_STEREO_MODE, 0)));
    let first = or_err(first, err_of(spec_last_uint(elems, el::PIXEL_WIDTH, 0)));
    let first = or_err(first, err_of(spec_last_uint(elems, el::PIXEL_HEIGHT, 0)));
    let first = or_err(first, err_of(spec_last_uint(elems, el::PIXEL_CROP_BOTTOM, 0)));
    let first = or_err(first, err_of(spec_last_uint(elems, el::PIXEL_CROP_TOP, 0)));
    let first = or_err(first, err_of(spec_last_uint(elems, el::PIXEL_CROP_LEFT, 0)));
    let first = or_err(first, err_of(spec_last_uint(elems, el::PIXEL_CROP_RIGHT, 0)));
    let first = or_err(first, err_of(spec_last_uint(elems, el::DISPLAY_WIDTH, 0)));
    let first = or_err(first, err_of(spec_last_uint(elems, el::DISPLAY_HEIGHT, 0)));
    let first = or_err(first, err_of(spec_last_uint(elems, el::DISPLAY_UNIT, 0)));
    let first = or_err(first, err_of(spec_last_uint(elems, el::ASPECT_RATIO_TYPE, 0)));
    let first = or_err(
        first,
        err_of(spec_last_float(elems, el::GAMMA_VALUE, Float { bits: 0, double: true })),
    );
    let first = or_err(
        first,
        err_of(spec_last_float(elems, el::FRAME_RATE, Float { bits: 0, double: true })),
    );
    let first = or_err(first, match spec_nested(elems, el::COLOUR) {
        Some(Err(e)) => Some(e),
        Some(Ok(children)) => spec_video_color_error(children),
        None => None,
    });
    first
}

/// Read the video information from the children of its element.
pub(crate) fn video_fields(elems: &ElementArray) -> (res: Result<TrackVideo, Error>)
    ensures
        match res {
            Ok(x) => spec_video_error(elems@).is_none() && spec_video_fields(elems@, x),
            Err(e) => spec_video_error(elems@) == Some(e),
        },
{
    let flag_interlaced: u64 = elems.last_uint(el::FLAG_INTERLACED, 0)?;
    let field_order: u64 = elems.last_uint(el::FIELD_ORDER, 2)?;
    let stereo_mode: u64 = elems.last_uint(el::STEREO_MODE, 0)?;
    let alpha_mode: u64 = elems.last_uint(el::ALPHA_MODE, 0)?;
    let old_stereo_mode: u64 = elems.last_uint(el::OLD_STEREO_MODE, 0)?;
    let pixel_width: u64 = elems.last_uint(el::PIXEL_WIDTH, 0)?;
    let pixel_height: u64 = elems.last_uint(el::PIXEL_HEIGHT, 0)?;
    let pixel_crop_bottom: u64 = elems.last_uint(el::PIXEL_CROP_BOTTOM, 0)?;
    let pixel_crop_top: u64 = elems.last_uint(el::PIXEL_CROP_TOP, 0)?;
    let pixel_crop_left: u64 = elems.last_uint(el::PIXEL_CROP_LEFT, 0)?;
    let pixel_crop_right: u64 = elems.last_uint(el::PIXEL_CROP_RIGHT, 0)?;
    let display_width: u64 = elems.last_uint(el::DISPLAY_WIDTH, 0)?;
    let display_height: u64 = elems.last_uint(el::DISPLAY_HEIGHT, 0)?;
    let display_unit: u64 = elems.last_uint(el::DISPLAY_UNIT, 0)?;
    let aspect_ratio_type: u64 = elems.last_uint(el::ASPECT_RATIO_TYPE, 0)?;
    let colour_space = elems.last_binary(el::COLOUR_SPACE);
    let gamma_value = elems.last_float(el::GAMMA_VALUE, Float { bits: 0, double: true })?;
    let frame_rate = elems.last_float(el::FRAME_RATE, Float { bits: 0, double: true })?;
    let color = match elems.find_last(el::COLOUR) {
        Some(element) => {
            let children = element.children()?;
            Some(video_color_fields(&children)?)
        },
        None => None,
    };
    Ok(
        TrackVideo {
            flag_interlaced: flag_interlaced,
            field_order: field_order,
            stereo_mode: stereo_mode,
            alpha_mode: alpha_mode,
            old_stereo_mode: old_stereo_mode,
            pixel_width: pixel_width,
            pixel_height: pixel_height,
            pixel_crop_bottom: pixel_crop_bottom,
            pixel_crop_top: pixel_crop_top,
            pixel_crop_left: pixel_crop_left,
            pixel_crop_right: pixel_crop_right,
            display_width: display_width,
            display_height: display_height,
            display_unit: display_unit,
            aspect_ratio_type: aspect_ratio_type,
            colour_space: colour_space,
            gamma_value: gamma_value,
            frame_rate: frame_rate,
            color: color,
        },
    )
}

/// Whether `x` is the audio information that the children `elems` of its
/// element hold: each field has the value of the last child that gives it, or
/// its default where no child does.
pub open spec fn spec_audio_fields(elems: Seq<ElementSpec>, x: TrackAudio) -> bool {
    &&& spec_last_float(elems, el::SAMPLING_FREQUENCY, spec_default_sampling_frequency())
        == Ok::<Float, Error>(x.sampling_frequency)
    &&& spec_last_float(elems, el::OUTPUT_SAMPLING_FREQUENCY, spec_default_sampling_frequency())
        == Ok::<Float, Error>(x.output_sampling_frequency)
    &&& spec_last_uint(elems, el::CHANNELS, 1) == Ok::<u64, Error>(x.channels)
    &&& x.channel_positions@ == spec_last_binary(elems, el::CHANNEL_POSITIONS)
    &&& spec_last_uint(elems, el::BIT_DEPTH, 0) == Ok::<u64, Error>(x.bit_depth)
}

/// The error that reading the audio information from the children `elems` ends
/// in, if it ends in one: that of the first field, in their order, whose child
/// cannot be read as the type of the field.
pub open spec fn spec_audio_error(elems: Seq<ElementSpec>) -> Option<Error> {
    let first = err_of(
        spec_last_float(elems, el::SAMPLING_FREQUENCY, spec_default_sampling_frequency()),
    );
    let first = or_err(
        first,
        err_of(
            spec_last_float(elems, el::OUTPUT_SAMPLING_FREQUENCY, spec_default_sampling_frequency()),
        ),
    );
    let first = or_err(first, err_of(spec_last_uint(elems, el::CHANNELS, 1)));
    let first = or_err(first, err_of(spec_last_uint(elems, el::BIT_DEPTH, 0)));
    first
}

/// Read the audio information from the children of its element.
pub(crate) fn audio_fields(elems: &ElementArray) -> (res: Result<TrackAudio, Error>)
    ensures
        match res {
            Ok(x) => spec_audio_error(elems@).is_none() && spec_audio_fields(elems@, x),
            Err(e) => spec_audio_error(elems@) == Some(e),
        },
{
    let sampling_frequency = elems.last_float(
        el::SAMPLING_FREQUENCY,
        Float { bits: DEFAULT_SAMPLING_FREQUENCY_BITS, double: true },
    )?;
    let output_sampling_frequency = elems.last_float(
        el::OUTPUT_SAMPLING_FREQUENCY,
        Float { bits: DEFAULT_SAMPLING_FREQUENCY_BITS, double: true },
    )?;
    let channels: u64 = elems.last_uint(el::CHANNELS, 1)?;
    let channel_positions = elems.last_binary(el::CHANNEL_POSITIONS);
    let bit_depth: u64 = elems.last_uint(el::BIT_DEPTH, 0)?;
    Ok(
        TrackAudio {
            sampling_frequency: sampling_frequency,
            output_sampling_frequency: output_sampling_frequency,
            channels: channels,
            channel_positions: channel_positions,
            bit_depth: bit_depth,
        },
    )
}

/// Whether `x` is the track that the children `elems` of its element hold: each
/// field has the value of the last child that gives it, or its default where
/// no child does.
pub open spec fn spec_track_fields(elems: Seq<ElementSpec>, x: Track) -> bool {
    &&& spec_last_uint(elems, el::TRACK_NUMBER, 0) == Ok::<u64, Error>(x.number)
    &&& spec_last_uint(elems, el::TRACK_UID, 0) == Ok::<u64, Error>(x.uid)
    &&& spec_last_uint(elems, el::TRACK_TYPE, 0) == Ok::<u64, Error>(x.track_type)
    &&& spec_last_uint(elems, el::FLAG_ENABLED, 1) == Ok::<u64, Error>(x.flag_enabled)
    &&& spec_last_uint(elems, el::FLAG_DEFAULT, 1) == Ok::<u64, Error>(x.flag_default)
    &&& spec_last_uint(elems, el::FLAG_FORCED, 0) == Ok::<u64, Error>(x.flag_forced)
    &&& spec_last_uint(elems, el::FLAG_LACING, 1) == Ok::<u64, Error>(x.flag_lacing)
    &&& spec_last_uint(elems, el::MIN_CACHE, 0) == Ok::<u64, Error>(x.min_cache)
    &&& spec_last_uint(elems, el::MAX_CACHE, 0) == Ok::<u64, Error>(x.max_cache)
    &&& spec_last_uint(elems, el::DEFAULT_DURATION, 0) == Ok::<u64, Error>(x.default_duration)
    &&& spec_last_uint(elems, el::DEFAULT_DECODED_FIELD_DURATION, 0)
        == Ok::<u64, Error>(x.default_decoded_field_duration)
    &&& spec_last_float(elems, el::TRACK_TIMECODE_SCALE, Float { bits: 0, double: true })
        == Ok::<Float, Error>(x.track_timecode_scale)
    &&& spec_last_sint(elems, el::TRACK_OFFSET, 0) == Ok::<i64, Error>(x.track_offset)
    &&& spec_last_uint(elems, el::MAX_BLOCK_ADDITION_ID, 0)
        == Ok::<u64, Error>(x.max_block_addition_id)
    &&& spec_last_utf8(elems, el::NAME, Seq::<char>::empty()) == Ok::<Seq<char>, Error>(x.name@)
    &&& spec_last_utf8(elems, el::LANGUAGE, "eng"@) == Ok::<Seq<char>, Error>(x.language@)
    &&& spec_last_utf8(elems, el::CODEC_ID, Seq::<char>::empty())
        == Ok::<Seq<char>, Error>(x.codec_id@)
    &&& x.codec_private@ == spec_last_binary(elems, el::CODEC_PRIVATE)
    &&& spec_last_utf8(elems, el::CODEC_NAME, Seq::<char>::empty())
        == Ok::<Seq<char>, Error>(x.codec_name@)
    &&& spec_last_uint(elems, el::ATTACHMENT_LINK, 0) == Ok::<u64, Error>(x.attachment_link)
    &&& spec_last_utf8(elems, el::CODEC_SETTINGS, Seq::<char>::empty())
        == Ok::<Seq<char>, Error>(x.codec_settings@)
    &&& spec_last_utf8(elems, el::CODEC_INFO_URL, Seq::<char>::empty())
        == Ok::<Seq<char>, Error>(x.codec_info_url@)
    &&& spec_last_utf8(elems, el::CODEC_DOWNLOAD_URL, Seq::<char>::empty())
        == Ok::<Seq<char>, Error>(x.codec_download_url@)
    &&& spec_last_uint(elems, el::CODEC_DECODE_ALL, 1) == Ok::<u64, Error>(x.codec_decode_all)
    &&& spec_last_uint(elems, el::TRACK_OVERLAY, 0) == Ok::<u64, Error>(x.track_overlay)
    &&& spec_last_uint(elems, el::CODEC_DELAY, 0) == Ok::<u64, Error>(x.codec_delay)
    &&& spec_last_uint(elems, el::SEEK_PRE_ROLL, 0) == Ok::<u64, Error>(x.seek_pre_roll)
    &&& match x.video {
        Some(inner) => match spec_nested(elems, el::VIDEO) {
            Some(Ok(children)) => spec_video_fields(children, inner),
            _ => false,
        },
        None => spec_nested(elems, el::VIDEO).is_none(),
    }
    &&& match x.audio {
        Some(inner) => match spec_nested(elems, el::AUDIO) {
            Some(Ok(children)) => spec_audio_fields(children, inner),
            _ => false,
        },
        None => spec_nested(elems, el::AUDIO).is_none(),
    }
}

/// The error that reading the track from the children `elems` ends in, if it
/// ends in one: that of the first field, in their order, whose child cannot be
/// read as the type of the field.
pub open spec fn spec_track_error(elems: Seq<ElementSpec>) -> Option<Error> {
    let first = err_of(spec_last_uint(elems, el::TRACK_NUMBER, 0));
    let first = or_err(first, err_of(spec_last_uint(elems, el::TRACK_UID, 0)));
    let first = or_err(first, err_of(spec_last_uint(elems, el::TRACK_TYPE, 0)));
    let first = or_err(first, err_of(spec_last_uint(elems, el::FLAG_ENABLED, 1)));
    let first = or_err(first, err_of(spec_last_uint(elems, el::FLAG_DEFAULT, 1)));
    let first = or_err(first, err_of(spec_last_uint(elems, el::FLAG_FORCED, 0)));
    let first = or_err(first, err_of(spec_last_uint(elems, el::FLAG_LACING, 1)));
    let first = or_err(first, err_of(spec_last_uint(elems, el::MIN_CACHE, 0)));
    let first = or_err(first, err_of(spec_last_uint(elems, el::MAX_CACHE, 0)));
    let first = or_err(first, err_of(spec_last_uint(elems, el::DEFAULT_DURATION, 0)));
    let first = or_err(first, err_of(spec_last_uint(elems, el::DEFAULT_DECODED_FIELD_DURATION, 0)));
    let first = or_err(
        first,
        err_of(spec_last_float(elems, el::TRACK_TIMECODE_SCALE, Float { bits: 0, double: true })),
    );
    let first = or_err(first, err_of(spec_last_sint(elems, el::TRACK_OFFSET, 0)));
    let first = or_err(first, err_of(spec_last_uint(elems, el::MAX_BLOCK_ADDITION_ID, 0)));
    let first = or_err(first, err_of(spec_last_utf8(elems, el::NAME, Seq::<char>::empty())));
    let first = or_err(first, err_of(spec_last_utf8(elems, el::LANGUAGE, "eng"@)));
    let first = or_err(first, err_of(spec_last_utf8(elems, el::CODEC_ID, Seq::<char>::empty())));
    let first = or_err(first, err_of(spec_last_utf8(elems, el::CODEC_NAME, Seq::<char>::empty())));
    let first = or_err(first, err_of(spec_last_uint(elems, el::ATTACHMENT_LINK, 0)));
    let first = or_err(
        first,
        err_of(spec_last_utf8(elems, el::CODEC_SETTINGS, Seq::<char>::empty())),
    );
    let first = or_err(
        first,
        err_of(spec_last_utf8(elems, el::CODEC_INFO_URL, Seq::<char>::empty())),
    );
    let first = or_err(
        first,
        err_of(spec_last_utf8(elems, el::CODEC_DOWNLOAD_URL, Seq::<char>::empty())),
    );
    let first = or_err(first, err_of(spec_last_uint(elems, el::CODEC_DECODE_ALL, 1)));
    let first = or_err(first, err_of(spec_last_uint(elems, el::TRACK_OVERLAY, 0)));
    let first = or_err(first, err_of(spec_last_uint(elems, el::CODEC_DELAY, 0)));
    let first = or_err(first, err_of(spec_last_uint(elems, el::SEEK_PRE_ROLL, 0)));
    let first = or_err(first, match spec_nested(elems, el::VIDEO) {
        Some(Err(e)) => Some(e),
        Some(Ok(children)) => spec_video_error(children),
        None => None,
    });
    let first = or_err(first, match spec_nested(elems, el::AUDIO) {
        Some(Err(e)) => Some(e),
        Some(Ok(children)) => spec_audio_error(children),
        None => None,
    });
    first
}

/// Read the track from the children of its element.
pub(crate) fn track_fields(elems: &ElementArray) -> (res: Result<Track, Error>)
    ensures
        match res {
            Ok(x) => spec_track_error(elems@).is_none() && spec_track_fields(elems@, x),
            Err(e) => spec_track_error(elems@) == Some(e),
        },
{
    let number: u64 = elems.last_uint(el::TRACK_NUMBER, 0)?;
    let uid: u64 = elems.last_uint(el::TRACK_UID, 0)?;
    let track_type: u64 = elems.last_uint(el::TRACK_TYPE, 0)?;
    let flag_enabled: u64 = elems.last_uint(el::FLAG_ENABLED, 1)?;
    let flag_default: u64 = elems.last_uint(el::FLAG_DEFAULT, 1)?;
    let flag_forced: u64 = elems.last_uint(el::FLAG_FORCED, 0)?;
    let flag_lacing: u64 = elems.last_uint(el::FLAG_LACING, 1)?;
    let min_cache: u64 = elems.last_uint(el::MIN_CACHE, 0)?;
    let max_cache: u64 = elems.last_uint(el::MAX_CACHE, 0)?;
    let default_duration: u64 = elems.last_uint(el::DEFAULT_DURATION, 0)?;
    let default_decoded_field_duration: u64 = elems.last_uint(
        el::DEFAULT_DECODED_FIELD_DURATION,
        0,
    )?;
    let track_timecode_scale = elems.last_float(
        el::TRACK_TIMECODE_SCALE,
        Float { bits: 0, double: true },
    )?;
    let track_offset: i64 = elems.last_sint(el::TRACK_OFFSET, 0)?;
    let max_block_addition_id: u64 = elems.last_uint(el::MAX_BLOCK_ADDITION_ID, 0)?;
    let name = elems.last_utf8(el::NAME, String::new())?;
    let language = elems.last_utf8(el::LANGUAGE, String::from_str("eng"))?;
    let codec_id = elems.last_utf8(el::CODEC_ID, String::new())?;
    let codec_private = elems.last_binary(el::CODEC_PRIVATE);
    let codec_name = elems.last_utf8(el::CODEC_NAME, String::new())?;
    let attachment_link: u64 = elems.last_uint(el::ATTACHMENT_LINK, 0)?;
    let codec_settings = elems.last_utf8(el::CODEC_SETTINGS, String::new())?;
    let codec_info_url = elems.last_utf8(el::CODEC_INFO_URL, String::new())?;
    let codec_download_url = elems.last_utf8(el::CODEC_DOWNLOAD_URL, String::new())?;
    let codec_decode_all: u64 = elems.last_uint(el::CODEC_DECODE_ALL, 1)?;
    let track_overlay: u64 = elems.last_uint(el::TRACK_OVERLAY, 0)?;
    let codec_delay: u64 = elems.last_uint(el::CODEC_DELAY, 0)?;
    let seek_pre_roll: u64 = elems.last_uint(el::SEEK_PRE_ROLL, 0)?;
    let video = match elems.find_last(el::VIDEO) {
        Some(element) => {
            let children = element.children()?;
            Some(video_fields(&children)?)
        },
        None => None,
    };
    let audio = match elems.find_last(el::AUDIO) {
        Some(element) => {
            let children = element.children()?;
            Some(audio_fields(&children)?)
        },
        None => None,
    };
    Ok(
        Track {
            number: number,
            uid: uid,
            track_type: track_type,
            flag_enabled: flag_enabled,
            flag_default: flag_default,
            flag_forced: flag_forced,
            flag_lacing: flag_lacing,
            min_cache: min_cache,
            max_cache: max_cache,
            default_duration: default_duration,
            default_decoded_field_duration: default_decoded_field_duration,
            track_timecode_scale: track_timecode_scale,
            track_offset: track_offset,
            max_block_addition_id: max_block_addition_id,
            name: name,
            language: language,
            codec_id: codec_id,
            codec_private: codec_private,
            codec_name: codec_name,
            attachment_link: attachment_link,
            codec_settings: codec_settings,
            codec_info_url: codec_info_url,
            codec_download_url: codec_download_url,
            codec_decode_all: codec_decode_all,
            track_overlay: track_overlay,
            codec_delay: codec_delay,
            seek_pre_roll: seek_pre_roll,
            video: video,
            audio: audio,
        },
    )
}


} // verus!
