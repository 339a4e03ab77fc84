//! The state of a reader, and what each of its operations does to it.
//!
//! A reader walks the top-level elements of a segment. Its state is what it
//! has still to read, the one element whose header it has read ahead, and the
//! cluster that it is in. Each operation of the reader is described here as a
//! function from the state before to the result and the state after.

use vstd::prelude::*;
use crate::elements as el;
use crate::error::Error;
use crate::ebml::element::{
    lemma_read_element_info_len,
    lemma_read_element_len,
    spec_children,
    spec_find,
    spec_read_element,
    spec_read_element_info,
    spec_typed,
    spec_uint,
    ElementSpec,
};
use crate::io::parse::spec_parse_header;
use crate::io::{HeaderSpec, SeekEntrySpec};
use crate::reader::cluster::{spec_block, BlockSpec};
use crate::reader::{meta_seek, segment, track};
use crate::structures::SeekEntry;

verus! {

/// A section of metadata as the format defines it.
pub enum InfoSpec {
    MetaSeek(Map<u64, u64>),
    Segment(segment::InfoSpec),
    Tracks(Seq<track::InfoSpec>),
}

/// A cluster that is being read.
pub struct ClusterSpec {
    /// The size that the cluster declares, in bytes.
    pub size: u64,
    /// The number of its bytes that have been read.
    pub consumed: int,
    /// The number of its bytes that are still to read and that the stream
    /// holds.
    pub avail: int,
    /// The `Timecode`, `Position` and `PrevSize` of the cluster, as far as
    /// they have been met.
    pub timecode: Option<u64>,
    pub position: Option<u64>,
    pub prev_size: Option<u64>,
}

/// The state of a reader.
pub struct ReaderSpec {
    /// The size that the segment declares, in bytes.
    pub size: u64,
    /// The number of bytes of the segment that have been read, the header of
    /// a queued element included.
    pub position: int,
    /// The bytes of the segment that are still to read and that the stream
    /// holds.
    pub rest: Seq<u8>,
    /// The element whose header has been read and whose content has not.
    pub queued: Option<(u64, u64)>,
    /// The cluster that is being read, if any.
    pub cluster: Option<ClusterSpec>,
}

impl ClusterSpec {
    /// A cluster of `size` bytes of which nothing has been read, in a stream
    /// that still holds `held` bytes.
    pub open spec fn fresh(size: u64, held: int) -> ClusterSpec {
        ClusterSpec {
            size: size,
            consumed: 0,
            avail: if size <= held {
                size as int
            } else {
                held
            },
            timecode: None,
            position: None,
            prev_size: None,
        }
    }

    /// The cluster after `n` more of its bytes have been read.
    pub open spec fn advance(self, n: int) -> ClusterSpec {
        ClusterSpec { consumed: self.consumed + n, avail: self.avail - n, ..self }
    }
}

impl ReaderSpec {
    /// What holds of the state of every reader: no more is read, or left to
    /// read, than the segment and the open cluster declare.
    pub open spec fn wf(self) -> bool {
        &&& 0 <= self.position
        &&& self.position + self.rest.len() <= self.size
        &&& match self.cluster {
            Some(c) => 0 <= c.consumed && 0 <= c.avail <= self.rest.len() && c.consumed + c.avail
                <= c.size && self.queued.is_none(),
            None => true,
        }
    }

    /// Whether the stream ends before the segment does.
    pub open spec fn cut(self) -> bool {
        self.position + self.rest.len() < self.size
    }

    /// Whether the whole segment has been read.
    pub open spec fn exhausted(self) -> bool {
        self.position >= self.size
    }

    /// The state after `n` more bytes have been read.
    pub open spec fn advance(self, n: int) -> ReaderSpec {
        ReaderSpec { position: self.position + n, rest: self.rest.skip(n), ..self }
    }

    /// The state with the element `queued` in the lookahead slot.
    pub open spec fn with_queued(self, queued: Option<(u64, u64)>) -> ReaderSpec {
        ReaderSpec { queued: queued, ..self }
    }

    /// The state with the open cluster `cluster`.
    pub open spec fn with_cluster(self, cluster: Option<ClusterSpec>) -> ReaderSpec {
        ReaderSpec { cluster: cluster, ..self }
    }
}

/// Whether `id` is a top-level element that holds metadata.
pub open spec fn is_metadata(id: u64) -> bool {
    id == el::SEEK_HEAD || id == el::INFO || id == el::TRACKS
}

/// Whether `id` is a top-level element that is passed over.
pub open spec fn is_skipped(id: u64) -> bool {
    id == el::CHAPTERS || id == el::CUES || id == el::ATTACHMENTS || id == el::TAGS
}

/// The section of metadata that the top-level element `id` with the content
/// `data` holds, where `id` is a `SeekHead`, an `Info` or a `Tracks`.
#[verifier::opaque]
pub open spec fn spec_section(id: u64, data: Seq<u8>) -> Result<InfoSpec, Error> {
    match spec_children(data) {
        Err(e) => Err(e),
        Ok(children) => if id == el::SEEK_HEAD {
            match meta_seek::spec_read(children) {
                Err(e) => Err(e),
                Ok(seek) => Ok(InfoSpec::MetaSeek(seek)),
            }
        } else if id == el::INFO {
            match segment::spec_read(children) {
                Err(e) => Err(e),
                Ok(segment) => Ok(InfoSpec::Segment(segment)),
            }
        } else {
            match track::spec_read(children) {
                Err(e) => Err(e),
                Ok(tracks) => Ok(InfoSpec::Tracks(tracks)),
            }
        },
    }
}

/// No section, or the one section `section`, as a sequence.
pub open spec fn section_seq(section: Option<InfoSpec>) -> Seq<InfoSpec> {
    match section {
        Some(info) => seq![info],
        None => Seq::empty(),
    }
}

/// Leaving the open cluster, if there is one: what is left of it is passed
/// over. A cluster that the stream does not hold in full cannot be left.
pub open spec fn spec_close(v: ReaderSpec) -> Result<ReaderSpec, Error> {
    match v.cluster {
        None => Ok(v),
        Some(c) => if c.consumed + c.avail < c.size {
            Err(Error::UnexpectedEof)
        } else {
            Ok(v.advance(c.avail).with_cluster(None))
        },
    }
}

/// Queueing the next element from the state `v`, in which none is queued:
/// the state with the header of the next element read and queued, or none at
/// the end of the segment. A stream that ends before the segment does gives
/// an `UnexpectedEof` there.
pub open spec fn spec_queue_next(v: ReaderSpec) -> Result<Option<ReaderSpec>, Error> {
    if v.rest.len() == 0 {
        if v.cut() {
            Err(Error::UnexpectedEof)
        } else {
            Ok(None)
        }
    } else {
        match spec_read_element_info(v.rest) {
            Err(e) => Err(e),
            Ok((id, size, header)) => Ok(
                Some(v.advance(header as int).with_queued(Some((id, size)))),
            ),
        }
    }
}

/// Reading the content of the queued element `id` of `size` bytes, which is
/// no cluster, from the state `v`: the section of metadata that it holds, if
/// it holds one, and the state then. An element that is neither metadata nor
/// one of those passed over is refused.
pub open spec fn spec_take_queued(v: ReaderSpec, id: u64, size: u64) -> Result<
    (Option<InfoSpec>, ReaderSpec),
    Error,
> {
    if !is_metadata(id) && !is_skipped(id) {
        Err(Error::UnexpectedElement { expected: el::EBML, found: id })
    } else if size > v.rest.len() {
        Err(Error::UnexpectedEof)
    } else if is_metadata(id) {
        match spec_section(id, v.rest.take(size as int)) {
            Err(e) => Err(e),
            Ok(section) => Ok((Some(section), v.advance(size as int).with_queued(None))),
        }
    } else {
        Ok((None, v.advance(size as int).with_queued(None)))
    }
}

/// Reading metadata from the state `v`, in which no cluster is open: the
/// sections met up to the next cluster or the end of the segment, and the
/// state then. The header of that cluster is read and queued; its content is
/// not touched.
pub open spec fn spec_walk(v: ReaderSpec) -> Result<(Seq<InfoSpec>, ReaderSpec), Error>
    decreases v.rest.len(), (if v.queued.is_some() {
        1int
    } else {
        0int
    }),
    via lemma_walk_decreases
{
    match v.queued {
        None => match spec_queue_next(v) {
            Err(e) => Err(e),
            Ok(None) => Ok((Seq::empty(), v)),
            Ok(Some(next)) => spec_walk(next),
        },
        Some((id, size)) => if id == el::CLUSTER {
            Ok((Seq::empty(), v))
        } else {
            match spec_take_queued(v, id, size) {
                Err(e) => Err(e),
                Ok((section, next)) => walk_prepend(section_seq(section), spec_walk(next)),
            }
        },
    }
}

#[via_fn]
proof fn lemma_walk_decreases(v: ReaderSpec) {
    lemma_read_element_info_len(v.rest);
}

/// Reading metadata from the state `v`. Once the whole segment has been read
/// there is none, and nothing changes, whatever is queued. Else an open
/// cluster is left first, and a queued cluster is passed over: no cluster
/// data is ever returned.
pub open spec fn spec_info(v: ReaderSpec) -> Result<(Seq<InfoSpec>, ReaderSpec), Error> {
    if v.exhausted() {
        Ok((Seq::empty(), v))
    } else {
        match spec_close(v) {
            Err(e) => Err(e),
            Ok(v) => spec_info_outside(v),
        }
    }
}

/// Reading metadata from the state `v`, in which no cluster is open: a
/// queued cluster is passed over, then metadata is read up to the next
/// cluster or the end of the segment.
pub open spec fn spec_info_outside(v: ReaderSpec) -> Result<(Seq<InfoSpec>, ReaderSpec), Error> {
    match v.queued {
        Some((id, size)) => if id == el::CLUSTER {
            if size > v.rest.len() {
                Err(Error::UnexpectedEof)
            } else {
                spec_walk(v.advance(size as int).with_queued(None))
            }
        } else {
            spec_walk(v)
        },
        None => spec_walk(v),
    }
}

/// Moving to the next cluster from the state `v`: whether there is one, and
/// the state then. Once the whole segment has been read there is none, and
/// nothing changes, whatever is queued or open. Else an open cluster is left
/// first. A queued cluster is the next one; where another element is queued
/// there is none. Where nothing is queued the header of the next element is
/// read: where it is no cluster it is queued, and there is none.
pub open spec fn spec_next_cluster(v: ReaderSpec) -> Result<(bool, ReaderSpec), Error> {
    if v.exhausted() {
        Ok((false, v))
    } else {
        match spec_close(v) {
            Err(e) => Err(e),
            Ok(v) => match v.queued {
                Some((id, size)) => if id == el::CLUSTER {
                    Ok(
                        (
                            true,
                            v.with_queued(None).with_cluster(
                                Some(ClusterSpec::fresh(size, v.rest.len() as int)),
                            ),
                        ),
                    )
                } else {
                    Ok((false, v))
                },
                None => if v.exhausted() {
                    Ok((false, v))
                } else {
                    match spec_read_element_info(v.rest) {
                        Err(e) => Err(e),
                        Ok((id, size, header)) => if id == el::CLUSTER {
                            Ok(
                                (
                                    true,
                                    v.advance(header as int).with_cluster(
                                        Some(ClusterSpec::fresh(size, v.rest.len() - header)),
                                    ),
                                ),
                            )
                        } else {
                            Ok((false, v.advance(header as int).with_queued(Some((id, size)))))
                        },
                    }
                },
            },
        }
    }
}

/// The number of bytes of the open cluster that are still to read and that
/// the stream holds.
pub open spec fn spec_avail(v: ReaderSpec) -> int {
    match v.cluster {
        Some(c) => c.avail,
        None => 0,
    }
}

/// What an element of a cluster holds, as the format defines it.
pub enum ItemSpec {
    Timecode(u64),
    Position(u64),
    PrevSize(u64),
    Block(BlockSpec),
}

/// What the element `element` of a cluster holds: the number in a
/// `Timecode`, a `Position` or a `PrevSize`, the block in a `SimpleBlock`, or
/// the block in the `Block` of a `BlockGroup`, which must be there. Any
/// other element is refused.
#[verifier::opaque]
pub open spec fn spec_cluster_item(element: ElementSpec) -> Result<ItemSpec, Error> {
    let id = element.id;
    if id == el::TIMECODE {
        match spec_typed(id, spec_uint(element.data)) {
            Err(e) => Err(e),
            Ok(value) => Ok(ItemSpec::Timecode(value)),
        }
    } else if id == el::POSITION {
        match spec_typed(id, spec_uint(element.data)) {
            Err(e) => Err(e),
            Ok(value) => Ok(ItemSpec::Position(value)),
        }
    } else if id == el::PREV_SIZE {
        match spec_typed(id, spec_uint(element.data)) {
            Err(e) => Err(e),
            Ok(value) => Ok(ItemSpec::PrevSize(value)),
        }
    } else if id == el::SIMPLE_BLOCK {
        match spec_block(element.data, true) {
            Err(e) => Err(e),
            Ok(block) => Ok(ItemSpec::Block(block)),
        }
    } else if id == el::BLOCK_GROUP {
        match spec_children(element.data) {
            Err(e) => Err(e),
            Ok(children) => match spec_find(children, el::BLOCK) {
                None => Err(Error::ElementNotFound(el::BLOCK)),
                Some(inner) => match spec_block(inner.data, false) {
                    Err(e) => Err(e),
                    Ok(block) => Ok(ItemSpec::Block(block)),
                },
            },
        }
    } else {
        Err(Error::UnexpectedElement { expected: el::SIMPLE_BLOCK, found: id })
    }
}

/// The cluster `c` after the item `item` has been read: a `Timecode`, a
/// `Position` or a `PrevSize` is recorded.
pub open spec fn spec_record(c: ClusterSpec, item: ItemSpec) -> ClusterSpec {
    match item {
        ItemSpec::Timecode(value) => ClusterSpec { timecode: Some(value), ..c },
        ItemSpec::Position(value) => ClusterSpec { position: Some(value), ..c },
        ItemSpec::PrevSize(value) => ClusterSpec { prev_size: Some(value), ..c },
        ItemSpec::Block(_) => c,
    }
}

/// What reading the item `item` gives: the block, where it is one.
pub open spec fn spec_yield(item: ItemSpec) -> Option<Option<BlockSpec>> {
    match item {
        ItemSpec::Block(block) => Some(Some(block)),
        _ => None,
    }
}

/// Reading one element of the open cluster from the state `v`, and the state
/// then. The result is set where the reading of a block is over: it holds the
/// block of a `SimpleBlock` or a `BlockGroup`, or none where the cluster has
/// been read to its end or no cluster is open. It is not set after a
/// `Timecode`, a `Position` or a `PrevSize`, which is recorded in the state.
pub open spec fn spec_block_step(v: ReaderSpec) -> Result<
    (Option<Option<BlockSpec>>, ReaderSpec),
    Error,
> {
    match v.cluster {
        None => Ok((Some(None), v)),
        Some(c) => if c.consumed >= c.size {
            Ok((Some(None), v))
        } else {
            match spec_read_element(v.rest.take(c.avail)) {
                Err(e) => Err(e),
                Ok((element, n)) => match spec_cluster_item(element) {
                    Err(e) => Err(e),
                    Ok(item) => Ok(
                        (
                            spec_yield(item),
                            v.advance(n).with_cluster(Some(spec_record(c.advance(n), item))),
                        ),
                    ),
                },
            }
        },
    }
}

/// Reading the next block of the open cluster from the state `v`: the block,
/// or none where the cluster has been read to its end, and the state then.
pub open spec fn spec_next_block(v: ReaderSpec) -> Result<(Option<BlockSpec>, ReaderSpec), Error>
    decreases spec_avail(v),
    when v.wf()
    via lemma_next_block_decreases
{
    match spec_block_step(v) {
        Err(e) => Err(e),
        Ok((Some(block), next)) => Ok((block, next)),
        Ok((None, next)) => spec_next_block(next),
    }
}

#[via_fn]
proof fn lemma_next_block_decreases(v: ReaderSpec) {
    lemma_block_step(v);
}

/// One step of reading a block keeps a state well-formed, reads at least two
/// bytes where it yields nothing, and counts what it reads against the
/// cluster, its size unchanged.
pub proof fn lemma_block_step(v: ReaderSpec)
    requires
        v.wf(),
    ensures
        match spec_block_step(v) {
            Ok((found, next)) => {
                &&& next.wf()
                &&& next.size == v.size
                &&& next.queued == v.queued
                &&& next.cluster.is_some() == v.cluster.is_some()
                &&& found is None ==> spec_avail(next) < spec_avail(v)
                &&& found == Some(None::<BlockSpec>) ==> next == v
                &&& next.rest == v.rest.skip(next.position - v.position)
                &&& spec_avail(v) - spec_avail(next) == next.position - v.position
                &&& v.rest.len() - next.rest.len() == next.position - v.position
                &&& 0 <= next.position - v.position <= spec_avail(v)
                &&& match (v.cluster, next.cluster) {
                    (Some(c), Some(d)) => d.size == c.size && d.consumed - c.consumed
                        == next.position - v.position && (found == Some(None::<BlockSpec>)
                        ==> c.consumed == c.size),
                    _ => true,
                }
            },
            Err(_) => true,
        },
{
    match v.cluster {
        None => {
            assert(v.rest.skip(0) =~= v.rest);
        },
        Some(c) => {
            lemma_read_element_len(v.rest.take(c.avail));
            assert(v.rest.skip(0) =~= v.rest);
        },
    }
}

/// What reading a block does to the count of its cluster.
///
/// Reading a block from a well-formed state with an open cluster gives a
/// well-formed state with the same cluster open. The bytes that the call read
/// are counted against the cluster and against the segment, and the count of
/// the cluster never passes its declared size. Where the call finds no block,
/// the count is the declared size exactly; and a cluster whose count is its
/// declared size gives no block and is left as it was.
pub proof fn lemma_next_block(v: ReaderSpec)
    requires
        v.wf(),
        v.cluster.is_some(),
    ensures
        match spec_next_block(v) {
            Ok((block, next)) => {
                &&& next.wf()
                &&& next.size == v.size
                &&& next.queued == v.queued
                &&& next.cluster.is_some()
                &&& next.cluster.unwrap().size == v.cluster.unwrap().size
                &&& next.rest == v.rest.skip(next.position - v.position)
                &&& spec_avail(v) - spec_avail(next) == next.position - v.position
                &&& v.rest.len() - next.rest.len() == next.position - v.position
                &&& next.cluster.unwrap().consumed - v.cluster.unwrap().consumed == next.position
                    - v.position
                &&& next.position >= v.position
                &&& next.cluster.unwrap().consumed <= next.cluster.unwrap().size
                &&& block is None ==> next.cluster.unwrap().consumed == next.cluster.unwrap().size
                &&& v.cluster.unwrap().consumed == v.cluster.unwrap().size ==> block is None && next
                    == v
            },
            Err(_) => true,
        },
    decreases spec_avail(v),
{
    lemma_block_step(v);
    match spec_block_step(v) {
        Ok((None, next)) => {
            lemma_next_block(next);
            match spec_next_block(next) {
                Ok((_, end)) => {
                    assert(end.rest =~= v.rest.skip(end.position - v.position));
                },
                Err(_) => {},
            }
        },
        Ok((Some(_), next)) => {
            assert(next.rest =~= v.rest.skip(next.position - v.position));
        },
        Err(_) => {},
    }
}

/// The state `v` with the header of the next element queued, where there is
/// a next element: the state itself where an element is queued already.
pub open spec fn spec_peek(v: ReaderSpec) -> Result<Option<ReaderSpec>, Error> {
    match v.queued {
        Some(_) => Ok(Some(v)),
        None => spec_queue_next(v),
    }
}

/// Reading the next top-level element from the state `v`, which must be the
/// element `id`: its children, and the state then. Once the whole segment has
/// been read there is no element, which is an `UnexpectedEof`. Else an open
/// cluster is left first.
pub open spec fn spec_read_top(v: ReaderSpec, id: u64) -> Result<
    (Seq<ElementSpec>, ReaderSpec),
    Error,
> {
    if v.exhausted() {
        Err(Error::UnexpectedEof)
    } else {
        match spec_close(v) {
            Err(e) => Err(e),
            Ok(v) => match spec_peek(v) {
                Err(e) => Err(e),
                Ok(None) => Err(Error::UnexpectedEof),
                Ok(Some(v)) => match v.queued {
                    None => Err(Error::UnexpectedEof),
                    Some((found, size)) => if found != id {
                        Err(Error::UnexpectedElement { expected: id, found: found })
                    } else if size > v.rest.len() {
                        Err(Error::UnexpectedEof)
                    } else {
                        match spec_children(v.rest.take(size as int)) {
                            Err(e) => Err(e),
                            Ok(children) => Ok(
                                (children, v.advance(size as int).with_queued(None)),
                            ),
                        }
                    },
                },
            },
        }
    }
}

/// The state `v` after the bytes `more` have been added to the end of the
/// stream: as many of them as the segment still lacks are now to read, and
/// as many of those as the open cluster still lacks are to read in it.
pub open spec fn spec_feed(v: ReaderSpec, more: Seq<u8>) -> ReaderSpec {
    let room = v.size - v.position - v.rest.len();
    let k = if more.len() <= room {
        more.len() as int
    } else {
        room
    };
    ReaderSpec {
        rest: v.rest + more.take(k),
        cluster: match v.cluster {
            Some(c) => {
                let gap = c.size - c.consumed - c.avail;
                Some(
                    ClusterSpec {
                        avail: c.avail + (if k <= gap {
                            k
                        } else {
                            gap
                        }),
                        ..c
                    },
                )
            },
            None => None,
        },
        ..v
    }
}

/// Feeding keeps a state well-formed, and bytes past the end of the segment
/// are never read: feeding a state whose segment the stream holds in full
/// changes nothing.
pub proof fn lemma_feed(v: ReaderSpec, more: Seq<u8>)
    requires
        v.wf(),
    ensures
        spec_feed(v, more).wf(),
        spec_feed(v, more).position == v.position,
        spec_feed(v, more).queued == v.queued,
        !v.cut() ==> spec_feed(v, more) == v,
{
    if !v.cut() {
        assert(v.rest + more.take(0) =~= v.rest);
    }
}

/// The seek entries `entries` as the format defines them.
pub open spec fn entries_view(entries: Seq<SeekEntry>) -> Seq<SeekEntrySpec> {
    Seq::new(entries.len(), |i: int| entries[i]@)
}

/// The sections `head` followed by those that the walk `tail` gave, or the
/// error that it ended in.
pub open spec fn walk_prepend(
    head: Seq<InfoSpec>,
    tail: Result<(Seq<InfoSpec>, ReaderSpec), Error>,
) -> Result<(Seq<InfoSpec>, ReaderSpec), Error> {
    match tail {
        Ok((more, end)) => Ok((head + more, end)),
        Err(e) => Err(e),
    }
}

/// Opening a stream: the EBML header, then the header of the segment.
pub open spec fn spec_open(s: Seq<u8>) -> Result<(HeaderSpec, ReaderSpec), Error> {
    match spec_parse_header(s) {
        Err(e) => Err(e),
        Ok((header, n)) => match spec_read_element_info(s.skip(n)) {
            Err(e) => Err(e),
            Ok((id, size, m)) => if id != el::SEGMENT {
                Err(Error::UnexpectedElement { expected: el::SEGMENT, found: id })
            } else {
                let body = s.skip(n + m);
                Ok(
                    (
                        header,
                        ReaderSpec {
                            size: size,
                            position: 0,
                            rest: if size <= body.len() {
                                body.take(size as int)
                            } else {
                                body
                            },
                            queued: None,
                            cluster: None,
                        },
                    ),
                )
            },
        },
    }
}

/// Prepending no section to a walk changes nothing.
pub proof fn lemma_walk_prepend_empty(tail: Result<(Seq<InfoSpec>, ReaderSpec), Error>)
    ensures
        walk_prepend(Seq::empty(), tail) == tail,
{
    match tail {
        Ok((more, end)) => {
            assert(Seq::<InfoSpec>::empty() + more =~= more);
        },
        Err(_) => {},
    }
}

/// Prepending to a walk in two steps is prepending both at once.
pub proof fn lemma_walk_prepend_assoc(
    a: Seq<InfoSpec>,
    b: Seq<InfoSpec>,
    tail: Result<(Seq<InfoSpec>, ReaderSpec), Error>,
)
    ensures
        walk_prepend(a, walk_prepend(b, tail)) == walk_prepend(a + b, tail),
{
    match tail {
        Ok((more, end)) => {
            assert(a + (b + more) =~= (a + b) + more);
        },
        Err(_) => {},
    }
}

} // verus!
