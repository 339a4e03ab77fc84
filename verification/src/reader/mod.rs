//! This module provides the functionality for reading data from matroska input sources.

pub mod cluster;
pub mod coverage;
pub mod cues;
pub mod ebml;
pub mod lacing;
pub mod meta_seek;
pub mod segment;
pub mod state;
pub mod track;
pub mod tracks;

use vstd::prelude::*;
use vstd::slice::slice_to_vec;
use crate::elements as el;
use crate::error::Error;
use crate::ebml::element::{
    decode_children,
    decode_element,
    decode_element_info,
    spec_children,
    Element,
    ElementArray,
    ElementSpec,
};
use crate::ebml::reader::{read_element_info, Source};
use crate::io::fields::{
    chapter_translate_fields,
    seek_entries,
    seek_view,
    segment_info_fields,
    spec_chapter_translate,
    spec_seek_entries,
    spec_segment_info_error,
    spec_segment_info_fields,
};
use crate::io::parse::header;
use crate::io::{Header, HeaderSpec, SeekEntrySpec};
use crate::structures::{ChapterTranslate, ChapterTranslateSpec, SeekEntry, SegmentInfo};
use self::cluster::{Block, BlockSpec, Cluster};
use self::state::{
    entries_view,
    is_metadata,
    lemma_next_block,
    lemma_walk_prepend_assoc,
    lemma_walk_prepend_empty,
    section_seq,
    spec_block_step,
    spec_close,
    spec_feed,
    spec_cluster_item,
    spec_info,
    spec_info_outside,
    spec_next_block,
    spec_next_cluster,
    spec_open,
    spec_queue_next,
    spec_read_top,
    spec_section,
    spec_take_queued,
    spec_walk,
    walk_prepend,
    ClusterSpec,
    InfoSpec,
    ItemSpec,
    ReaderSpec,
};

verus! {

/// Represents the different kinds of informative data that can be in a matroska file.
/// Contrary to `Block` data, `Info` does not contain any media data, only metadata.
#[derive(Debug)]
pub enum Info {
    MetaSeek(meta_seek::Info),
    Segment(segment::Info),
    Tracks(Vec<track::Info>),
}

impl View for Info {
    type V = InfoSpec;

    open spec fn view(&self) -> InfoSpec {
        match self {
            Info::MetaSeek(seek) => InfoSpec::MetaSeek(seek@),
            Info::Segment(segment) => InfoSpec::Segment(segment@),
            Info::Tracks(tracks) => InfoSpec::Tracks(track::tracks_view(tracks@)),
        }
    }
}

/// The sections `infos` as the format defines them.
pub open spec fn infos_view(infos: Seq<Info>) -> Seq<InfoSpec> {
    Seq::new(infos.len(), |i: int| infos[i]@)
}

/// The section in `section`, if there is one, as the format defines it.
pub open spec fn section_view(section: Option<Info>) -> Option<InfoSpec> {
    match section {
        Some(info) => Some(info@),
        None => None,
    }
}

/// The block in `block`, if there is one, as the format defines it.
pub open spec fn block_view(block: Option<Block>) -> Option<BlockSpec> {
    match block {
        Some(b) => Some(b@),
        None => None,
    }
}

/// What an element of a cluster holds.
enum Item {
    Timecode(u64),
    Position(u64),
    PrevSize(u64),
    Block(Block),
}

impl View for Item {
    type V = ItemSpec;

    closed spec fn view(&self) -> ItemSpec {
        match self {
            Item::Timecode(value) => ItemSpec::Timecode(*value),
            Item::Position(value) => ItemSpec::Position(*value),
            Item::PrevSize(value) => ItemSpec::PrevSize(*value),
            Item::Block(block) => ItemSpec::Block(block@),
        }
    }
}

/// Read what the element `element` of a cluster holds.
fn cluster_item(element: Element) -> (r: Result<Item, Error>)
    ensures
        match r {
            Ok(item) => spec_cluster_item(element@) == Ok::<_, Error>(item@),
            Err(e) => spec_cluster_item(element@) == Err::<ItemSpec, _>(e),
        },
{
    reveal(spec_cluster_item);
    let id: u64 = element.id();
    if id == el::TIMECODE {
        Ok(Item::Timecode(element.uint()?))
    } else if id == el::POSITION {
        Ok(Item::Position(element.uint()?))
    } else if id == el::PREV_SIZE {
        Ok(Item::PrevSize(element.uint()?))
    } else if id == el::SIMPLE_BLOCK {
        Ok(Item::Block(Block::from_binary(element.into_content().into_binary(), true)?))
    } else if id == el::BLOCK_GROUP {
        let children = element.children()?;
        match children.find(el::BLOCK) {
            None => Err(Error::ElementNotFound(el::BLOCK)),
            Some(inner) => Ok(Item::Block(Block::from_binary(inner.binary(), false)?)),
        }
    } else {
        Err(Error::UnexpectedElement { expected: el::SIMPLE_BLOCK, found: id })
    }
}

/// Read the section of metadata that the element `id` holds in the bytes of
/// `data` from `start` to `end`.
fn read_section(data: &[u8], id: u64, start: usize, end: usize) -> (r: Result<Info, Error>)
    requires
        is_metadata(id),
        start <= end <= data@.len(),
    ensures
        match r {
            Ok(info) => spec_section(id, data@.subrange(start as int, end as int)) == Ok::<
                _,
                Error,
            >(info@),
            Err(e) => spec_section(id, data@.subrange(start as int, end as int)) == Err::<
                InfoSpec,
                _,
            >(e),
        },
{
    reveal(spec_section);
    let children = decode_children(data, start, end)?;
    if id == el::SEEK_HEAD {
        Ok(Info::MetaSeek(meta_seek::read(children)?))
    } else if id == el::INFO {
        Ok(Info::Segment(segment::read(children)?))
    } else {
        Ok(Info::Tracks(track::read(children)?))
    }
}

/// The cluster that is being read.
#[derive(Clone, Copy, Debug)]
struct OpenCluster {
    // Where the content of the cluster starts, its declared size in bytes, and where
    // the part of it that the stream holds ends.
    start: usize,
    size: u64,
    limit: usize,
    timecode: Option<u64>,
    position: Option<u64>,
    prev_size: Option<u64>,
}

/// The part of a reader that moves: where it stands, what it has read ahead
/// and the cluster that it is in.
#[derive(Clone, Copy, Debug)]
struct Cursor {
    pos: usize,
    queued: Option<(u64, u64)>,
    cluster: Option<OpenCluster>,
}

/// High-level object that provides access to the different sections of the matroska file.
#[derive(Debug)]
pub struct Reader {
    data: Vec<u8>,
    // EBML header of this matroska file.
    header: Header,
    // Where the content of the segment starts, its declared size in bytes, and where
    // the part of it that the stream holds ends.
    segment_start: usize,
    segment_size: u64,
    limit: usize,
    // Current position in the stream. The element that is queued is the next element that
    // should be read when a reading process is nominally stopped at some point. For example,
    // metadata reading stops when a cluster is encountered. The cluster element information
    // is then queued for eventual later processing.
    at: Cursor,
}

impl View for Reader {
    type V = ReaderSpec;

    closed spec fn view(&self) -> ReaderSpec {
        ReaderSpec {
            size: self.segment_size,
            position: self.at.pos - self.segment_start,
            rest: self.data@.subrange(self.at.pos as int, self.limit as int),
            queued: self.at.queued,
            cluster: match self.at.cluster {
                Some(c) => Some(
                    ClusterSpec {
                        size: c.size,
                        consumed: self.at.pos - c.start,
                        avail: c.limit - self.at.pos,
                        timecode: c.timecode,
                        position: c.position,
                        prev_size: c.prev_size,
                    },
                ),
                None => None,
            },
        }
    }
}

impl Reader {
    /// Whether the cursor `at` is one that the reader can stand at.
    closed spec fn allows(&self, at: Cursor) -> bool {
        &&& self.segment_start <= at.pos <= self.limit
        &&& match at.cluster {
            Some(c) => self.segment_start <= c.start <= at.pos <= c.limit <= self.limit && c.limit
                - c.start <= c.size && (c.limit == self.limit || c.limit - c.start == c.size)
                && at.queued.is_none(),
            None => true,
        }
    }

    /// What holds of every reader.
    #[verifier::type_invariant]
    pub closed spec fn wf(&self) -> bool {
        &&& self.limit <= self.data@.len()
        &&& self.segment_start <= self.limit
        &&& self.limit - self.segment_start <= self.segment_size
        &&& self.limit == self.data@.len() || self.limit - self.segment_start == self.segment_size
        &&& self.allows(self.at)
    }

    /// Whether `other` reads the same stream as this reader, wherever the
    /// two stand in it.
    closed spec fn same_stream(&self, other: &Reader) -> bool {
        &&& self.data == other.data
        &&& self.header == other.header
        &&& self.segment_start == other.segment_start
        &&& self.segment_size == other.segment_size
        &&& self.limit == other.limit
    }

    /// The EBML header of the stream.
    pub closed spec fn spec_header(&self) -> HeaderSpec {
        self.header@
    }

    /// The bytes of the stream from where the reader stands are what it has
    /// still to read.
    proof fn lemma_window(&self, n: int)
        requires
            self.wf(),
            0 <= n <= self.limit - self.at.pos,
        ensures
            self.data@.subrange(self.at.pos as int, self.limit as int) == self@.rest,
            self.data@.subrange(self.at.pos as int, self.at.pos + n) == self@.rest.take(n),
    {
        assert(self.data@.subrange(self.at.pos as int, self.at.pos + n) =~= self@.rest.take(n));
    }

    /// Initialize a new matroska reader. This function also parses the EBML header of the matroska
    /// file.
    pub fn new(r: Source) -> (res: Result<Reader, Error>)
        ensures
            match res {
                Ok(reader) => spec_open(r.remaining()) == Ok::<_, Error>(
                    (reader.spec_header(), reader@),
                ) && reader@.wf(),
                Err(e) => spec_open(r.remaining()) == Err::<(HeaderSpec, ReaderSpec), _>(e),
            },
    {
        let mut r = r;
        let ghost s = r.remaining();
        let start: usize = r.position();
        let (header, n) = header(&mut r)?;
        proof {
            assert(r.remaining() =~= s.skip(n as int));
        }
        let (id, size, m) = read_element_info(&mut r)?;
        if id != el::SEGMENT {
            return Err(Error::UnexpectedElement { expected: el::SEGMENT, found: id });
        }
        proof {
            assert(r.remaining() =~= s.skip(n + m));
        }
        let (data, pos) = r.into_parts();
        let held: usize = data.len() - pos;
        let limit: usize = if size <= held as u64 {
            pos + size as usize
        } else {
            data.len()
        };
        proof {
            let body = s.skip(n + m);
            assert(body =~= data@.skip(pos as int));
            if size <= held {
                assert(data@.subrange(pos as int, limit as int) =~= body.take(size as int));
            } else {
                assert(data@.subrange(pos as int, limit as int) =~= body);
            }
        }
        Ok(
            Reader {
                data: data,
                header: header,
                segment_start: pos,
                segment_size: size,
                limit: limit,
                at: Cursor { pos: pos, queued: None, cluster: None },
            },
        )
    }

    /// Whether the whole segment has been read.
    fn exhausted(&self) -> (b: bool)
        requires
            self.wf(),
        ensures
            b == self@.exhausted(),
    {
        (self.at.pos - self.segment_start) as u64 >= self.segment_size
    }

    /// Whether the stream ends before the segment does.
    fn cut(&self) -> (b: bool)
        requires
            self.wf(),
        ensures
            b == self@.cut(),
    {
        self.segment_size > (self.limit - self.segment_start) as u64
    }

    /// Put the reader back to where it stood.
    fn restore(&mut self, at: Cursor)
        requires
            old(self).wf(),
            old(self).allows(at),
        ensures
            final(self).wf(),
            final(self).same_stream(old(self)),
            final(self).at == at,
    {
        self.at = at;
    }

    /// Read on by `n` bytes, outside any cluster.
    fn advance(&mut self, n: usize)
        requires
            old(self).wf(),
            old(self).at.cluster.is_none(),
            n <= old(self).limit - old(self).at.pos,
        ensures
            final(self).wf(),
            final(self).same_stream(old(self)),
            final(self)@ == old(self)@.advance(n as int),
            final(self).at.pos == old(self).at.pos + n,
            final(self).at.queued == old(self).at.queued,
            final(self).at.cluster.is_none(),
    {
        proof {
            assert(self.data@.subrange(self.at.pos + n, self.limit as int) =~= self@.rest.skip(
                n as int,
            ));
        }
        self.at.pos = self.at.pos + n;
    }

    /// Put `queued` in the lookahead slot, outside any cluster.
    fn queue(&mut self, queued: Option<(u64, u64)>)
        requires
            old(self).wf(),
            old(self).at.cluster.is_none(),
        ensures
            final(self).wf(),
            final(self).same_stream(old(self)),
            final(self)@ == old(self)@.with_queued(queued),
            final(self).at.pos == old(self).at.pos,
            final(self).at.queued == queued,
            final(self).at.cluster.is_none(),
    {
        self.at.queued = queued;
    }

    /// Leave the open cluster, if there is one.
    fn close(&mut self) -> (r: Result<(), Error>)
        requires
            old(self).wf(),
        ensures
            final(self).wf(),
            final(self).same_stream(old(self)),
            match r {
                Ok(_) => spec_close(old(self)@) == Ok::<_, Error>(final(self)@)
                    && final(self).at.cluster.is_none(),
                Err(e) => spec_close(old(self)@) == Err::<ReaderSpec, _>(e) && final(self).at
                    == old(self).at,
            },
    {
        match self.at.cluster {
            None => Ok(()),
            Some(c) => {
                if c.size > (c.limit - c.start) as u64 {
                    Err(Error::UnexpectedEof)
                } else {
                    proof {
                        assert(self.data@.subrange(c.limit as int, self.limit as int)
                            =~= self@.rest.skip(c.limit - self.at.pos));
                    }
                    self.at.pos = c.limit;
                    self.at.cluster = None;
                    Ok(())
                }
            },
        }
    }

    /// One step of reading metadata where no element is queued: read the
    /// header of the next element and queue it. The result tells whether
    /// there was one; there is none at the end of the segment.
    fn queue_next(&mut self) -> (r: Result<bool, Error>)
        requires
            old(self).wf(),
            old(self).at.cluster.is_none(),
            old(self).at.queued.is_none(),
        ensures
            final(self).wf(),
            final(self).same_stream(old(self)),
            final(self).at.cluster.is_none(),
            match r {
                Ok(true) => spec_queue_next(old(self)@) == Ok::<_, Error>(Some(final(self)@))
                    && final(self).at.pos > old(self).at.pos && final(self).at.queued.is_some(),
                Ok(false) => spec_queue_next(old(self)@) == Ok::<Option<ReaderSpec>, Error>(None)
                    && final(self).at == old(self).at,
                Err(e) => spec_queue_next(old(self)@) == Err::<Option<ReaderSpec>, _>(e)
                    && final(self).at == old(self).at,
            },
    {
        if self.at.pos >= self.limit {
            if self.cut() {
                return Err(Error::UnexpectedEof);
            }
            return Ok(false);
        }
        proof {
            self.lemma_window(0);
        }
        match decode_element_info(self.data.as_slice(), self.at.pos, self.limit) {
            Err(e) => Err(e),
            Ok((id, size, header)) => {
                self.advance(header);
                self.queue(Some((id, size)));
                Ok(true)
            },
        }
    }

    /// One step of reading metadata where the element `id` of `size` bytes
    /// is queued and is no cluster: read its content. The result is the
    /// section that it holds, if it holds one.
    fn take_queued(&mut self, id: u64, size: u64) -> (r: Result<Option<Info>, Error>)
        requires
            old(self).wf(),
            old(self).at.cluster.is_none(),
            old(self).at.queued == Some((id, size)),
            id != el::CLUSTER,
        ensures
            final(self).wf(),
            final(self).same_stream(old(self)),
            final(self).at.cluster.is_none(),
            match r {
                Ok(section) => spec_take_queued(old(self)@, id, size) == Ok::<_, Error>(
                    (section_view(section), final(self)@),
                ) && final(self).at.pos >= old(self).at.pos && final(self).at.queued.is_none(),
                Err(e) => spec_take_queued(old(self)@, id, size) == Err::<
                    (Option<InfoSpec>, ReaderSpec),
                    _,
                >(e) && final(self).at == old(self).at,
            },
    {
        let metadata: bool = id == el::SEEK_HEAD || id == el::INFO || id == el::TRACKS;
        let skipped: bool = id == el::CHAPTERS || id == el::CUES || id == el::ATTACHMENTS || id
            == el::TAGS;
        if !metadata && !skipped {
            return Err(Error::UnexpectedElement { expected: el::EBML, found: id });
        }
        if size > (self.limit - self.at.pos) as u64 {
            return Err(Error::UnexpectedEof);
        }
        let n: usize = size as usize;
        proof {
            self.lemma_window(n as int);
        }
        let section = if metadata {
            Some(read_section(self.data.as_slice(), id, self.at.pos, self.at.pos + n)?)
        } else {
            None
        };
        self.advance(n);
        self.queue(None);
        Ok(section)
    }

    /// Pass over the cluster that is queued, if one is.
    fn skip_queued_cluster(&mut self) -> (r: Result<(), Error>)
        requires
            old(self).wf(),
            old(self).at.cluster.is_none(),
        ensures
            final(self).wf(),
            final(self).same_stream(old(self)),
            final(self).at.cluster.is_none(),
            match r {
                Ok(_) => spec_info_outside(old(self)@) == spec_walk(final(self)@),
                Err(e) => spec_info_outside(old(self)@) == Err::<
                    (Seq<InfoSpec>, ReaderSpec),
                    _,
                >(e) && final(self).at == old(self).at,
            },
    {
        match self.at.queued {
            Some((id, size)) => {
                if id == el::CLUSTER {
                    if size > (self.limit - self.at.pos) as u64 {
                        return Err(Error::UnexpectedEof);
                    }
                    self.advance(size as usize);
                    self.queue(None);
                }
                Ok(())
            },
            None => Ok(()),
        }
    }

    /// Read all the metadata from the matroska input source. This functions will return the list
    /// of parsed information structures.
    ///
    /// Once the whole segment has been read there is none: nothing is read
    /// and nothing changes, whatever is queued or open. Else an open cluster
    /// is left first and a cluster that is queued is passed over; reading
    /// stops before the next cluster, whose header is kept for
    /// `next_cluster`. A reader that meets an error is left as it was.
    pub fn info(&mut self) -> (r: Result<Vec<Info>, Error>)
        ensures
            final(self)@.wf(),
            old(self)@.exhausted() ==> r.is_ok() && r.unwrap()@.len() == 0 && final(self)@
                == old(self)@,
            final(self).spec_header() == old(self).spec_header(),
            match r {
                Ok(infos) => spec_info(old(self)@) == Ok::<_, Error>(
                    (infos_view(infos@), final(self)@),
                ),
                Err(e) => spec_info(old(self)@) == Err::<(Seq<InfoSpec>, ReaderSpec), _>(e)
                    && final(self)@ == old(self)@,
            },
    {
        proof {
            use_type_invariant(&*self);
        }
        if self.exhausted() {
            let nothing: Vec<Info> = Vec::new();
            proof {
                assert(infos_view(nothing@) =~= Seq::<InfoSpec>::empty());
            }
            return Ok(nothing);
        }
        let saved = self.at;
        self.close()?;
        // If a cluster element is queued, then we ignore it as this method is
        // only supposed to retreive metadata.
        match self.skip_queued_cluster() {
            Err(e) => {
                self.restore(saved);
                return Err(e);
            },
            Ok(_) => {},
        }
        let mut infos: Vec<Info> = Vec::new();
        let ghost from = self@;
        proof {
            assert(infos_view(infos@) =~= Seq::<InfoSpec>::empty());
            lemma_walk_prepend_empty(spec_walk(from));
        }
        loop
            invariant
                self.wf(),
                self.at.cluster.is_none(),
                self.same_stream(old(self)),
                old(self).wf(),
                saved == old(self).at,
                spec_info(old(self)@) == spec_walk(from),
                spec_walk(from) == walk_prepend(infos_view(infos@), spec_walk(self@)),
            ensures
                self.wf(),
                self.same_stream(old(self)),
                spec_info(old(self)@) == Ok::<_, Error>((infos_view(infos@), self@)),
            decreases self.limit - self.at.pos, (if self.at.queued.is_some() {
                1int
            } else {
                0int
            }),
        {
            let ghost done = infos_view(infos@);
            let step = match self.at.queued {
                None => match self.queue_next() {
                    Err(e) => Err(e),
                    Ok(true) => Ok(None),
                    Ok(false) => {
                        proof {
                            assert(done + Seq::<InfoSpec>::empty() =~= done);
                        }
                        break ;
                    },
                },
                Some((id, size)) => {
                    // Found the first cluster: information reading is done.
                    if id == el::CLUSTER {
                        proof {
                            assert(done + Seq::<InfoSpec>::empty() =~= done);
                        }
                        break ;
                    }
                    self.take_queued(id, size)
                },
            };
            match step {
                Err(e) => {
                    self.restore(saved);
                    return Err(e);
                },
                Ok(Some(info)) => {
                    proof {
                        assert(section_seq(Some(info@)) =~= seq![info@]);
                        lemma_walk_prepend_assoc(done, seq![info@], spec_walk(self@));
                    }
                    infos.push(info);
                    proof {
                        assert(infos_view(infos@) =~= done + seq![info@]);
                    }
                },
                Ok(None) => {
                    proof {
                        lemma_walk_prepend_assoc(
                            done,
                            Seq::<InfoSpec>::empty(),
                            spec_walk(self@),
                        );
                        lemma_walk_prepend_empty(spec_walk(self@));
                        assert(done + Seq::<InfoSpec>::empty() =~= done);
                    }
                },
            }
        }
        Ok(infos)
    }

    /// Move into the cluster of `size` bytes whose content starts where the
    /// reader stands.
    fn open_cluster(&mut self, size: u64)
        requires
            old(self).wf(),
            old(self).at.cluster.is_none(),
            old(self).at.queued.is_none(),
        ensures
            final(self).wf(),
            final(self).same_stream(old(self)),
            final(self)@ == old(self)@.with_cluster(
                Some(ClusterSpec::fresh(size, old(self)@.rest.len() as int)),
            ),
    {
        let held: usize = self.limit - self.at.pos;
        let limit: usize = if size <= held as u64 {
            self.at.pos + size as usize
        } else {
            self.limit
        };
        self.at.cluster = Some(
            OpenCluster {
                start: self.at.pos,
                size: size,
                limit: limit,
                timecode: None,
                position: None,
                prev_size: None,
            },
        );
    }

    /// Move to the next cluster, and tell whether there is one.
    fn enter_cluster(&mut self) -> (r: Result<bool, Error>)
        requires
            old(self).wf(),
        ensures
            final(self).wf(),
            final(self).same_stream(old(self)),
            match r {
                Ok(found) => spec_next_cluster(old(self)@) == Ok::<_, Error>((found, final(self)@))
                    && (found ==> final(self)@.cluster.is_some()),
                Err(e) => spec_next_cluster(old(self)@) == Err::<(bool, ReaderSpec), _>(e)
                    && final(self).at == old(self).at,
            },
    {
        if self.exhausted() {
            return Ok(false);
        }
        let saved = self.at;
        self.close()?;
        // If a cluster size has already been read & stored, use it. Otherwise, find the next
        // cluster's size by reading the next EBML element.
        match self.at.queued {
            Some((id, size)) => {
                if id != el::CLUSTER {
                    return Ok(false);
                }
                self.queue(None);
                self.open_cluster(size);
                Ok(true)
            },
            None => {
                if self.exhausted() {
                    return Ok(false);
                }
                proof {
                    self.lemma_window(0);
                }
                match decode_element_info(self.data.as_slice(), self.at.pos, self.limit) {
                    Err(e) => {
                        self.restore(saved);
                        Err(e)
                    },
                    Ok((id, size, header)) => {
                        self.advance(header);
                        if id != el::CLUSTER {
                            // Found some other element, queue it for eventual later processing
                            // by a user call to the `info` method.
                            self.queue(Some((id, size)));
                            return Ok(false);
                        }
                        self.open_cluster(size);
                        Ok(true)
                    },
                }
            },
        }
    }

    /// Count `n` bytes that have been read against the cluster `c`, which is
    /// the open one, and record the item `item` that they held.
    fn record(&mut self, c: OpenCluster, n: usize, item: &Item)
        requires
            old(self).wf(),
            old(self).at.cluster == Some(c),
            n <= c.limit - old(self).at.pos,
        ensures
            final(self).wf(),
            final(self).same_stream(old(self)),
            final(self).at.pos == old(self).at.pos + n,
            final(self).at.cluster.is_some(),
            final(self).at.cluster.unwrap().limit == c.limit,
            final(self)@ == old(self)@.advance(n as int).with_cluster(
                Some(state::spec_record(old(self)@.cluster.unwrap().advance(n as int), item@)),
            ),
    {
        proof {
            assert(self.data@.subrange(self.at.pos + n, self.limit as int) =~= self@.rest.skip(
                n as int,
            ));
        }
        self.at.pos = self.at.pos + n;
        match item {
            Item::Timecode(value) => {
                self.at.cluster = Some(OpenCluster { timecode: Some(*value), ..c });
            },
            Item::Position(value) => {
                self.at.cluster = Some(OpenCluster { position: Some(*value), ..c });
            },
            Item::PrevSize(value) => {
                self.at.cluster = Some(OpenCluster { prev_size: Some(*value), ..c });
            },
            Item::Block(_) => {},
        }
    }

    /// One step of reading a block: read the next element of the open
    /// cluster. The result is set where the reading is over, and then holds
    /// the block, if there is one; it is not set where the element was a
    /// `Timecode`, a `Position` or a `PrevSize`, which is recorded.
    fn block_step(&mut self) -> (r: Result<Option<Option<Block>>, Error>)
        requires
            old(self).wf(),
        ensures
            final(self).wf(),
            final(self).same_stream(old(self)),
            final(self).at.cluster.is_some() == old(self).at.cluster.is_some(),
            match r {
                Ok(Some(block)) => spec_block_step(old(self)@) == Ok::<_, Error>(
                    (Some(block_view(block)), final(self)@),
                ),
                Ok(None) => spec_block_step(old(self)@) == Ok::<_, Error>(
                    (None::<Option<BlockSpec>>, final(self)@),
                ) && final(self).at.pos > old(self).at.pos,
                Err(e) => spec_block_step(old(self)@) == Err::<
                    (Option<Option<BlockSpec>>, ReaderSpec),
                    _,
                >(e) && final(self).at == old(self).at,
            },
    {
        match self.at.cluster {
            None => Ok(Some(None)),
            Some(c) => {
                if (self.at.pos - c.start) as u64 >= c.size {
                    return Ok(Some(None));
                }
                proof {
                    self.lemma_window(c.limit - self.at.pos);
                }
                let (element, n) = decode_element(self.data.as_slice(), self.at.pos, c.limit)?;
                let item = cluster_item(element)?;
                self.record(c, n, &item);
                match item {
                    Item::Block(block) => Ok(Some(Some(block))),
                    _ => Ok(None),
                }
            },
        }
    }

    /// Read the next block of the open cluster. There is none where the
    /// cluster has been read to its end, or where no cluster is open.
    pub(crate) fn next_block(&mut self) -> (r: Result<Option<Block>, Error>)
        ensures
            final(self)@.wf(),
            final(self).spec_header() == old(self).spec_header(),
            final(self)@.cluster.is_some() == old(self)@.cluster.is_some(),
            match final(self)@.cluster {
                Some(c) => c.consumed <= c.size && (r.is_ok() && r.unwrap().is_none()
                    ==> c.consumed == c.size),
                None => true,
            },
            match r {
                Ok(block) => spec_next_block(old(self)@) == Ok::<_, Error>(
                    (block_view(block), final(self)@),
                ),
                Err(e) => spec_next_block(old(self)@) == Err::<(Option<BlockSpec>, ReaderSpec), _>(
                    e,
                ) && final(self)@ == old(self)@,
            },
    {
        proof {
            use_type_invariant(&*self);
        }
        let saved = self.at;
        proof {
            if self@.cluster.is_some() {
                lemma_next_block(self@);
            }
        }
        loop
            invariant
                self.wf(),
                old(self).wf(),
                self.same_stream(old(self)),
                self.at.cluster.is_some() == old(self).at.cluster.is_some(),
                saved == old(self).at,
                spec_next_block(old(self)@) == spec_next_block(self@),
            decreases self.limit - self.at.pos,
        {
            match self.block_step() {
                Err(e) => {
                    self.restore(saved);
                    return Err(e);
                },
                Ok(Some(block)) => {
                    return Ok(block);
                },
                Ok(None) => {},
            }
        }
    }

    /// The `Timecode` of the open cluster, if it has been met.
    pub(crate) fn cluster_timecode(&self) -> (r: Option<u64>)
        ensures
            r == (match self@.cluster {
                Some(c) => c.timecode,
                None => None,
            }),
    {
        match self.at.cluster {
            Some(c) => c.timecode,
            None => None,
        }
    }

    /// The `Position` of the open cluster, if it has been met.
    pub(crate) fn cluster_position(&self) -> (r: Option<u64>)
        ensures
            r == (match self@.cluster {
                Some(c) => c.position,
                None => None,
            }),
    {
        match self.at.cluster {
            Some(c) => c.position,
            None => None,
        }
    }

    /// The `PrevSize` of the open cluster, if it has been met.
    pub(crate) fn cluster_prev_size(&self) -> (r: Option<u64>)
        ensures
            r == (match self@.cluster {
                Some(c) => c.prev_size,
                None => None,
            }),
    {
        match self.at.cluster {
            Some(c) => c.prev_size,
            None => None,
        }
    }

    /// Where in the segment the content of the open cluster starts; where no
    /// cluster is open, where the reader stands.
    pub(crate) fn cluster_offset(&self) -> (n: usize)
        ensures
            n == self@.position - (match self@.cluster {
                Some(c) => c.consumed,
                None => 0,
            }),
    {
        proof {
            use_type_invariant(self);
        }
        match self.at.cluster {
            Some(c) => c.start - self.segment_start,
            None => self.at.pos - self.segment_start,
        }
    }

    /// The declared size of the open cluster and the number of its bytes
    /// that have been read; both are zero where no cluster is open.
    pub(crate) fn cluster_progress(&self) -> (r: (u64, usize))
        ensures
            match self@.cluster {
                Some(c) => r.0 == c.size && r.1 == c.consumed,
                None => r.0 == 0 && r.1 == 0,
            },
    {
        proof {
            use_type_invariant(self);
        }
        match self.at.cluster {
            Some(c) => (c.size, self.at.pos - c.start),
            None => (0, 0),
        }
    }

    /// Read the next matroska cluster. Returns `None` if there is no more to read. Borrows `self`.
    ///
    /// Once the whole segment has been read there is none, for good: nothing
    /// is read and nothing changes, whatever is queued or open. Else an open
    /// cluster is left first. Where the next element is no cluster, its
    /// header is kept for `info`. A reader that meets an error is left as it
    /// was.
    pub fn next_cluster(&mut self) -> (r: Result<Option<Cluster<'_>>, Error>)
        ensures
            old(self)@.exhausted() ==> r.is_ok() && r.unwrap().is_none() && final(self)@
                == old(self)@,
            match r {
                Ok(Some(cluster)) => spec_next_cluster(old(self)@) == Ok::<_, Error>(
                    (true, cluster@),
                ) && cluster@.wf() && *final(self) == *final(cluster.reader),
                Ok(None) => spec_next_cluster(old(self)@) == Ok::<_, Error>((false, final(self)@))
                    && final(self)@.wf() && final(self).spec_header() == old(self).spec_header(),
                Err(e) => spec_next_cluster(old(self)@) == Err::<(bool, ReaderSpec), _>(e)
                    && final(self)@ == old(self)@ && final(self)@.wf() && final(self).spec_header()
                    == old(self).spec_header(),
            },
    {
        proof {
            use_type_invariant(&*self);
        }
        match self.enter_cluster() {
            Err(e) => Err(e),
            Ok(false) => Ok(None),
            Ok(true) => Ok(Some(Cluster::new(self))),
        }
    }

    /// Read the next top-level element, which must be the element `id`, and
    /// split it into its children.
    fn read_top(&mut self, id: u64) -> (r: Result<ElementArray, Error>)
        requires
            old(self).wf(),
        ensures
            final(self).wf(),
            final(self).same_stream(old(self)),
            final(self).allows(old(self).at),
            match r {
                Ok(children) => spec_read_top(old(self)@, id) == Ok::<_, Error>(
                    (children@, final(self)@),
                ),
                Err(e) => spec_read_top(old(self)@, id) == Err::<(Seq<ElementSpec>, ReaderSpec), _>(
                    e,
                ) && final(self).at == old(self).at,
            },
    {
        if self.exhausted() {
            return Err(Error::UnexpectedEof);
        }
        let saved = self.at;
        self.close()?;
        if self.at.queued.is_none() {
            match self.queue_next() {
                Err(e) => {
                    self.restore(saved);
                    return Err(e);
                },
                Ok(false) => {
                    self.restore(saved);
                    return Err(Error::UnexpectedEof);
                },
                Ok(true) => {},
            }
        }
        match self.top_children(id) {
            Err(e) => {
                self.restore(saved);
                Err(e)
            },
            Ok(children) => Ok(children),
        }
    }

    /// Read the content of the queued element, which must be the element
    /// `id`, and split it into its children.
    fn top_children(&mut self, id: u64) -> (r: Result<ElementArray, Error>)
        requires
            old(self).wf(),
            old(self).at.cluster.is_none(),
            old(self).at.queued.is_some(),
        ensures
            final(self).wf(),
            final(self).same_stream(old(self)),
            match (r, old(self).at.queued) {
                (Ok(children), Some((found, size))) => found == id && size <= old(self)@.rest.len()
                    && spec_children(old(self)@.rest.take(size as int)) == Ok::<_, Error>(
                    children@,
                ) && final(self)@ == old(self)@.advance(size as int).with_queued(None),
                (Err(e), Some((found, size))) => final(self).at == old(self).at && (if found
                    != id {
                    e == (Error::UnexpectedElement { expected: id, found: found })
                } else if size > old(self)@.rest.len() {
                    e == Error::UnexpectedEof
                } else {
                    spec_children(old(self)@.rest.take(size as int)) == Err::<
                        Seq<ElementSpec>,
                        _,
                    >(e)
                }),
                _ => false,
            },
    {
        match self.at.queued {
            None => Err(Error::UnexpectedEof),
            Some((found, size)) => {
                if found != id {
                    return Err(Error::UnexpectedElement { expected: id, found: found });
                }
                if size > (self.limit - self.at.pos) as u64 {
                    return Err(Error::UnexpectedEof);
                }
                let n: usize = size as usize;
                proof {
                    self.lemma_window(n as int);
                }
                let children = decode_children(
                    self.data.as_slice(),
                    self.at.pos,
                    self.at.pos + n,
                )?;
                self.advance(n);
                self.queue(None);
                Ok(children)
            },
        }
    }

    /// Read seek data from the MKV input source: the next top-level element,
    /// which must be a `SeekHead`. Once the whole segment has been read there
    /// is no element, which is an `UnexpectedEof`. A reader that meets an
    /// error is left as it was.
    pub fn read_seek_data(&mut self) -> (r: Result<Vec<SeekEntry>, Error>)
        ensures
            final(self)@.wf(),
            final(self).spec_header() == old(self).spec_header(),
            match r {
                Ok(entries) => match spec_read_top(old(self)@, el::SEEK_HEAD) {
                    Ok((children, next)) => spec_seek_entries(children, 0) == Ok::<_, Error>(
                        entries_view(entries@),
                    ) && final(self)@ == next,
                    Err(_) => false,
                },
                Err(e) => (match spec_read_top(old(self)@, el::SEEK_HEAD) {
                    Ok((children, _)) => spec_seek_entries(children, 0) == Err::<
                        Seq<SeekEntrySpec>,
                        _,
                    >(e),
                    Err(first) => e == first,
                }) && final(self)@ == old(self)@,
            },
    {
        proof {
            use_type_invariant(&*self);
        }
        let saved = self.at;
        let children = self.read_top(el::SEEK_HEAD)?;
        match seek_entries(&children) {
            Err(e) => {
                self.restore(saved);
                Err(e)
            },
            Ok(found) => {
                let mut entries: Vec<SeekEntry> = Vec::new();
                let mut i: usize = 0;
                while i < found.len()
                    invariant
                        i <= found@.len(),
                        entries@.len() == i,
                        forall|k: int| 0 <= k < i ==> (#[trigger] entries@[k])@ == found@[k]@,
                    decreases found@.len() - i,
                {
                    let id = slice_to_vec(found[i].seek_id.as_slice());
                    entries.push(SeekEntry { id: id, position: found[i].seek_position });
                    i = i + 1;
                }
                proof {
                    assert(entries_view(entries@) =~= seek_view(found@));
                }
                Ok(entries)
            },
        }
    }

    /// Read segment informations from the MKV input source: the next
    /// top-level element, which must be an `Info`. Once the whole segment has
    /// been read there is no element, which is an `UnexpectedEof`. A reader
    /// that meets an error is left as it was.
    pub fn read_segment_info(&mut self) -> (r: Result<SegmentInfo, Error>)
        ensures
            final(self)@.wf(),
            final(self).spec_header() == old(self).spec_header(),
            match r {
                Ok(info) => match spec_read_top(old(self)@, el::INFO) {
                    Ok((children, next)) => spec_segment_info_error(children).is_none()
                        && spec_segment_info_fields(children, info) && final(self)@ == next,
                    Err(_) => false,
                },
                Err(e) => (match spec_read_top(old(self)@, el::INFO) {
                    Ok((children, _)) => spec_segment_info_error(children) == Some(e),
                    Err(first) => e == first,
                }) && final(self)@ == old(self)@,
            },
    {
        proof {
            use_type_invariant(&*self);
        }
        let saved = self.at;
        let children = self.read_top(el::INFO)?;
        match segment_info_fields(&children) {
            Err(e) => {
                self.restore(saved);
                Err(e)
            },
            Ok(info) => Ok(info),
        }
    }

    /// Read ChapterTranslate information from `element`, which must be a
    /// `ChapterTranslate`.
    pub fn read_segment_info_chapter_translate(element: &Element) -> (r: Result<
        ChapterTranslate,
        Error,
    >)
        ensures
            match r {
                Ok(translate) => element@.id == el::CHAPTER_TRANSLATE && (match spec_children(
                    element@.data,
                ) {
                    Ok(children) => spec_chapter_translate(children) == Ok::<_, Error>(translate@),
                    Err(_) => false,
                }),
                Err(e) => if element@.id != el::CHAPTER_TRANSLATE {
                    e == (Error::UnexpectedElement {
                        expected: el::CHAPTER_TRANSLATE,
                        found: element@.id,
                    })
                } else {
                    match spec_children(element@.data) {
                        Ok(children) => spec_chapter_translate(children) == Err::<
                            ChapterTranslateSpec,
                            _,
                        >(e),
                        Err(first) => e == first,
                    }
                },
            },
    {
        if element.id() != el::CHAPTER_TRANSLATE {
            return Err(
                Error::UnexpectedElement { expected: el::CHAPTER_TRANSLATE, found: element.id() },
            );
        }
        let children = element.children()?;
        chapter_translate_fields(&children)
    }

    /// The reader with the bytes `more` added to the end of its stream.
    ///
    /// A reader that has met an `UnexpectedEof` was left as it was: once it
    /// has been fed, what had failed can be asked for again. Bytes that lie
    /// past the end of the segment are never read.
    pub fn feed(self, more: Vec<u8>) -> (r: Reader)
        ensures
            r@ == spec_feed(self@, more@),
            r@.wf(),
            r.spec_header() == self.spec_header(),
    {
        proof {
            use_type_invariant(&self);
        }
        let ghost before = self@;
        let Reader { data, header, segment_start, segment_size, limit, at } = self;
        let mut data = data;
        let mut more = more;
        let ghost held = data@;
        let ghost fed = more@;
        let room: u64 = segment_size - (limit - segment_start) as u64;
        let k: usize = if more.len() as u64 <= room {
            more.len()
        } else {
            room as usize
        };
        data.append(&mut more);
        let total: usize = data.len();
        proof {
            assert(total == held.len() + fed.len());
            assert(limit + k <= total);
        }
        let cluster = match at.cluster {
            Some(c) => {
                let gap: u64 = c.size - (c.limit - c.start) as u64;
                let n: usize = if k as u64 <= gap {
                    k
                } else {
                    gap as usize
                };
                Some(OpenCluster { limit: c.limit + n, ..c })
            },
            None => None,
        };
        proof {
            assert(data@.subrange(at.pos as int, limit + k) =~= before.rest + fed.take(k as int));
        }
        Reader {
            data: data,
            header: header,
            segment_start: segment_start,
            segment_size: segment_size,
            limit: limit + k,
            at: Cursor { pos: at.pos, queued: at.queued, cluster: cluster },
        }
    }

    /// The cluster that is being read, if one is: the cluster that
    /// `next_cluster` gave last, unless a call of `info`, `next_cluster`,
    /// `read_seek_data` or `read_segment_info` has left it since. Once the
    /// whole segment has been read none of them leaves it any more.
    pub fn current_cluster(&mut self) -> (r: Option<Cluster<'_>>)
        ensures
            match r {
                Some(cluster) => cluster@ == old(self)@ && cluster@.cluster.is_some() && *final(self)
                    == *final(cluster.reader),
                None => old(self)@.cluster.is_none() && *final(self) == *old(self),
            },
    {
        if self.at.cluster.is_some() {
            Some(Cluster::new(self))
        } else {
            None
        }
    }

    /// Returns a reference to the EBML header of this matroska file.
    pub fn header(&self) -> (header: &Header)
        ensures
            header@ == self.spec_header(),
    {
        &self.header
    }

    /// The number of bytes of the segment that have been read.
    pub fn position(&self) -> (n: usize)
        ensures
            n == self@.position,
    {
        proof {
            use_type_invariant(self);
        }
        self.at.pos - self.segment_start
    }

    /// The size in bytes that the segment declares.
    pub fn segment_size(&self) -> (n: u64)
        ensures
            n == self@.size,
    {
        self.segment_size
    }
}

} // verus!
