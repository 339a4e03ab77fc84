//! Read matroska cluster data.
//!
//! A cluster is a run of blocks. A block starts with the number of its track
//! as a variable-length integer, a signed 16-bit timecode relative to the
//! cluster and one byte of flags. What follows is one frame, or several
//! frames packed by one of three lacing schemes.

use vstd::prelude::*;
use vstd::slice::{slice_subrange, slice_to_vec};
use crate::elements as el;
use crate::error::{Detail, Error};
use crate::ebml::vint::{decode_vint, spec_read_vint};
use crate::reader::state::{spec_next_block, ReaderSpec};
use crate::reader::{block_view, Reader};

verus! {

/// Represents a matroska cluster: the cluster that its reader has moved
/// into. The reader is borrowed for as long as the cluster is read.
#[derive(Debug)]
pub struct Cluster<'a> {
    pub reader: &'a mut Reader,
}

/// Iterator over Blocks.
#[derive(Debug)]
pub struct Blocks<'a> {
    pub reader: &'a mut Reader,
}

impl<'a> View for Cluster<'a> {
    type V = ReaderSpec;

    open spec fn view(&self) -> ReaderSpec {
        self.reader@
    }
}

impl<'a> View for Blocks<'a> {
    type V = ReaderSpec;

    open spec fn view(&self) -> ReaderSpec {
        self.reader@
    }
}

impl<'a> Cluster<'a> {
    /// The cluster that `reader` has moved into.
    pub(crate) fn new(reader: &'a mut Reader) -> (cluster: Cluster<'a>)
        ensures
            cluster@ == old(reader)@,
            *final(reader) == *final(cluster.reader),
    {
        Cluster { reader: reader }
    }

    /// Read the next block of the cluster. There is none once the cluster has
    /// been read to its end: the bytes read from it are then as many as its
    /// declared size, and never more. A cluster that meets an error is left
    /// as it was.
    pub fn next_block(&mut self) -> (r: Result<Option<Block>, Error>)
        ensures
            final(self)@.wf(),
            *final(final(self).reader) == *final(old(self).reader),
            final(self)@.cluster.is_some() == old(self)@.cluster.is_some(),
            match final(self)@.cluster {
                Some(c) => c.consumed <= c.size && (r.is_ok() && r.unwrap().is_none()
                    ==> c.consumed == c.size),
                None => true,
            },
            match r {
                Ok(block) => spec_next_block(old(self)@) == Ok::<_, Error>(
                    (block_view(block), final(self)@),
                ),
                Err(e) => spec_next_block(old(self)@) == Err::<(Option<BlockSpec>, ReaderSpec), _>(
                    e,
                ) && final(self)@ == old(self)@,
            },
    {
        self.reader.next_block()
    }

    /// Return an iterator over all the data blocks in the cluster.
    pub fn blocks(&mut self) -> (blocks: Blocks<'_>)
        ensures
            blocks@ == old(self)@,
            *final(final(self).reader) == *final(old(self).reader),
            *final(self).reader == *final(blocks.reader),
    {
        Blocks { reader: &mut *self.reader }
    }

    /// Where in the segment the content of the cluster starts, in bytes.
    pub fn offset(&self) -> (n: usize)
        ensures
            n == self@.position - (match self@.cluster {
                Some(c) => c.consumed,
                None => 0,
            }),
    {
        self.reader.cluster_offset()
    }

    /// The size in bytes that the cluster declares.
    pub fn size(&self) -> (n: u64)
        ensures
            n == (match self@.cluster {
                Some(c) => c.size,
                None => 0,
            }),
    {
        self.reader.cluster_progress().0
    }

    /// The number of bytes of the cluster that have been read.
    pub fn consumed(&self) -> (n: usize)
        ensures
            n == (match self@.cluster {
                Some(c) => c.consumed,
                None => 0,
            }),
    {
        self.reader.cluster_progress().1
    }

    /// The timecode of the cluster, once its `Timecode` has been met.
    pub fn timecode(&self) -> (r: Option<u64>)
        ensures
            r == (match self@.cluster {
                Some(c) => c.timecode,
                None => None,
            }),
    {
        self.reader.cluster_timecode()
    }

    /// The position of the cluster in its segment, once its `Position` has
    /// been met.
    pub fn position(&self) -> (r: Option<u64>)
        ensures
            r == (match self@.cluster {
                Some(c) => c.position,
                None => None,
            }),
    {
        self.reader.cluster_position()
    }

    /// The size of the cluster before this one, once its `PrevSize` has been
    /// met.
    pub fn prev_size(&self) -> (r: Option<u64>)
        ensures
            r == (match self@.cluster {
                Some(c) => c.prev_size,
                None => None,
            }),
    {
        self.reader.cluster_prev_size()
    }
}

impl<'a> Blocks<'a> {
    /// The next block of the cluster, or the error that reading it ended
    /// in. There is nothing once the cluster has been read to its end.
    pub fn next(&mut self) -> (r: Option<Result<Block, Error>>)
        ensures
            final(self)@.wf(),
            *final(final(self).reader) == *final(old(self).reader),
            match r {
                Some(Ok(block)) => spec_next_block(old(self)@) == Ok::<_, Error>(
                    (Some(block@), final(self)@),
                ),
                None => spec_next_block(old(self)@) == Ok::<_, Error>(
                    (None::<BlockSpec>, final(self)@),
                ),
                Some(Err(e)) => spec_next_block(old(self)@) == Err::<
                    (Option<BlockSpec>, ReaderSpec),
                    _,
                >(e) && final(self)@ == old(self)@,
            },
    {
        match self.reader.next_block() {
            Ok(Some(block)) => Some(Ok(block)),
            Ok(None) => None,
            Err(e) => Some(Err(e)),
        }
    }
}

/// Type alias to represent a Frame (basically just binary data).
pub type Frame = Vec<u8>;

/// Different lacing types available.
#[derive(Clone, Copy, Debug, PartialEq, Eq, Structural)]
pub enum Lacing {
    NoLacing,
    Xiph,
    Ebml,
    FixedSize,
}

/// A block as the format defines it.
pub struct BlockSpec {
    pub track_number: u64,
    pub timecode: i16,
    pub keyframe: bool,
    pub invisible: bool,
    pub discardable: bool,
    pub lacing: Lacing,
    pub data: Seq<u8>,
}

/// Represents a matroska data block.
#[derive(Debug)]
pub struct Block {
    track_number: u64,
    timecode: i16,
    keyframe: bool,
    invisible: bool,
    discardable: bool,
    lacing: Lacing,
    data: Vec<u8>,
}

impl View for Block {
    type V = BlockSpec;

    closed spec fn view(&self) -> BlockSpec {
        BlockSpec {
            track_number: self.track_number,
            timecode: self.timecode,
            keyframe: self.keyframe,
            invisible: self.invisible,
            discardable: self.discardable,
            lacing: self.lacing,
            data: self.data@,
        }
    }
}

/// The signed 16-bit number whose big-endian bytes are `high` and `low`.
pub open spec fn spec_timecode(high: u8, low: u8) -> i16 {
    if high >= 0x80 {
        (high * 256 + low - 0x1_0000) as i16
    } else {
        (high * 256 + low) as i16
    }
}

/// The lacing that the flags of a block announce, in the two bits 0x06.
pub open spec fn spec_lacing(flags: u8) -> Lacing {
    let bits = (flags & 0x06) >> 1;
    if bits == 0 {
        Lacing::NoLacing
    } else if bits == 1 {
        Lacing::Xiph
    } else if bits == 3 {
        Lacing::Ebml
    } else {
        Lacing::FixedSize
    }
}

/// The block that the bytes `s` hold. `simple` tells a SimpleBlock, whose
/// flags say whether it is a keyframe and whether it is discardable, from the
/// block of a BlockGroup, where neither bit is defined.
pub open spec fn spec_block(s: Seq<u8>, simple: bool) -> Result<BlockSpec, Error> {
    match spec_read_vint(s, true) {
        Err(e) => Err(e),
        Ok((track_number, n)) => if s.len() < n + 3 {
            Err(Error::UnexpectedEof)
        } else {
            let flags = s[n + 2];
            Ok(
                BlockSpec {
                    track_number: track_number,
                    timecode: spec_timecode(s[n as int], s[n + 1]),
                    keyframe: simple && flags & 0x80 != 0,
                    invisible: flags & 0x08 != 0,
                    discardable: simple && flags & 0x01 != 0,
                    lacing: spec_lacing(flags),
                    data: s.skip(n + 3),
                },
            )
        },
    }
}

/// One frame size in Xiph lacing, read at index `i` of `s`: the sum of a run
/// of bytes that ends with the first byte other than 255. The result is the
/// size and the index after the run, or nothing where `s` ends within the
/// run.
pub open spec fn spec_xiph_size(s: Seq<u8>, i: int) -> Option<(int, int)>
    decreases s.len() - i,
{
    if i < 0 || i >= s.len() {
        None
    } else if s[i] == 255 {
        match spec_xiph_size(s, i + 1) {
            None => None,
            Some((size, next)) => Some((255 + size, next)),
        }
    } else {
        Some((s[i] as int, i + 1))
    }
}

/// `n` frame sizes in Xiph lacing, read one after the other from index `i`
/// of `s`: the sizes and the index after the last of them.
pub open spec fn spec_xiph_sizes(s: Seq<u8>, i: int, n: nat) -> Option<(Seq<int>, int)>
    decreases n,
{
    if n == 0 {
        Some((Seq::empty(), i))
    } else {
        match spec_xiph_size(s, i) {
            None => None,
            Some((size, next)) => match spec_xiph_sizes(s, next, (n - 1) as nat) {
                None => None,
                Some((rest, end)) => Some((seq![size] + rest, end)),
            },
        }
    }
}

/// The frame sizes of EBML lacing that follow the first one: `n` bytes from
/// index `i` of `s`, each of them what the first size is larger by. A byte
/// larger than the first size gives no size.
pub open spec fn spec_ebml_sizes(s: Seq<u8>, i: int, first: int, n: nat) -> Result<Seq<int>, Error>
    decreases n,
{
    if n == 0 {
        Ok(Seq::empty())
    } else if i < 0 || i >= s.len() {
        Err(Error::UnexpectedEof)
    } else if s[i] > first {
        Err(Error::InvalidElementValue { id: el::BLOCK, detail: Detail::OutOfRange(s[i] as u64) })
    } else {
        match spec_ebml_sizes(s, i + 1, first, (n - 1) as nat) {
            Err(e) => Err(e),
            Ok(rest) => Ok(seq![first - s[i]] + rest),
        }
    }
}

/// Cutting `s` from index `i` on into frames: one of each size in `sizes`,
/// in order, and a last one that takes what is left.
pub open spec fn spec_cut(s: Seq<u8>, i: int, sizes: Seq<int>) -> Option<Seq<Seq<u8>>>
    decreases sizes.len(),
{
    if i < 0 || i > s.len() {
        None
    } else if sizes.len() == 0 {
        Some(seq![s.subrange(i, s.len() as int)])
    } else if sizes[0] < 0 || sizes[0] > s.len() - i {
        None
    } else {
        match spec_cut(s, i + sizes[0], sizes.skip(1)) {
            None => None,
            Some(rest) => Some(seq![s.subrange(i, i + sizes[0])] + rest),
        }
    }
}

/// The result of a cut, where a cut that fails is a short read.
pub open spec fn spec_cut_result(frames: Option<Seq<Seq<u8>>>) -> Result<Seq<Seq<u8>>, Error> {
    match frames {
        None => Err(Error::UnexpectedEof),
        Some(frames) => Ok(frames),
    }
}

/// The frames of a block whose payload `s` is laced the Xiph way: a byte that
/// is the number of frames less one, the sizes of all frames but the last,
/// then the frames.
pub open spec fn spec_xiph_frames(s: Seq<u8>) -> Result<Seq<Seq<u8>>, Error> {
    if s.len() == 0 {
        Err(Error::UnexpectedEof)
    } else {
        match spec_xiph_sizes(s, 1, s[0] as nat) {
            None => Err(Error::UnexpectedEof),
            Some((sizes, start)) => spec_cut_result(spec_cut(s, start, sizes)),
        }
    }
}

/// The frames of a block whose payload `s` is laced the EBML way: a byte that
/// is the number of frames less one, the size of the first frame as a
/// variable-length integer, one byte for each further frame but the last,
/// then the frames. A lace of one frame holds no size at all.
pub open spec fn spec_ebml_frames(s: Seq<u8>) -> Result<Seq<Seq<u8>>, Error> {
    if s.len() == 0 {
        Err(Error::UnexpectedEof)
    } else if s[0] == 0 {
        Ok(seq![s.skip(1)])
    } else {
        match spec_read_vint(s.skip(1), true) {
            Err(e) => Err(e),
            Ok((first, width)) => match spec_ebml_sizes(
                s,
                1 + width,
                first as int,
                (s[0] - 1) as nat,
            ) {
                Err(e) => Err(e),
                Ok(rest) => spec_cut_result(
                    spec_cut(s, width + s[0], seq![first as int] + rest),
                ),
            },
        }
    }
}

/// The frames of a block whose payload `s` is laced with a fixed size: a byte
/// that is the number of frames, then as many frames of one size, the rest of
/// the payload divided by their number. A lace of no frame is refused.
pub open spec fn spec_fixed_size_frames(s: Seq<u8>) -> Result<Seq<Seq<u8>>, Error> {
    if s.len() == 0 {
        Err(Error::UnexpectedEof)
    } else if s[0] == 0 {
        Err(Error::InvalidElementValue { id: el::BLOCK, detail: Detail::OutOfRange(0) })
    } else {
        let size = (s.len() - 1) / (s[0] as int);
        Ok(Seq::new(s[0] as nat, |k: int| s.subrange(1 + k * size, 1 + (k + 1) * size)))
    }
}

/// The frames that a payload holds under a lacing.
pub open spec fn spec_frames(lacing: Lacing, data: Seq<u8>) -> Result<Seq<Seq<u8>>, Error> {
    match lacing {
        Lacing::NoLacing => Ok(seq![data]),
        Lacing::Xiph => spec_xiph_frames(data),
        Lacing::Ebml => spec_ebml_frames(data),
        Lacing::FixedSize => spec_fixed_size_frames(data),
    }
}

/// The contents of the frames `frames`.
pub open spec fn frames_view(frames: Seq<Vec<u8>>) -> Seq<Seq<u8>> {
    Seq::new(frames.len(), |i: int| frames[i]@)
}

/// The sizes `sizes` as numbers.
pub open spec fn sizes_view(sizes: Seq<u128>) -> Seq<int> {
    Seq::new(sizes.len(), |i: int| sizes[i] as int)
}

impl Block {
    /// Parse a matroska block from its binary representation.
    pub fn from_binary(data: Vec<u8>, simple_block_structure: bool) -> (r: Result<Block, Error>)
        ensures
            match r {
                Ok(block) => spec_block(data@, simple_block_structure) == Ok::<_, Error>(block@),
                Err(e) => spec_block(data@, simple_block_structure) == Err::<BlockSpec, _>(e),
            },
    {
        let len: usize = data.len();
        proof {
            assert(data@.subrange(0, len as int) =~= data@);
        }
        match decode_vint(data.as_slice(), 0, len, true) {
            Err(e) => Err(e),
            Ok((track_number, n)) => {
                if len - n < 3 {
                    return Err(Error::UnexpectedEof);
                }
                let high: u8 = data[n];
                let low: u8 = data[n + 1];
                let flags: u8 = data[n + 2];
                let unsigned: u16 = (high as u16) * 256 + (low as u16);
                let timecode: i16 = if high >= 0x80 {
                    ((unsigned as i32) - 0x1_0000) as i16
                } else {
                    unsigned as i16
                };
                let bits: u8 = (flags & 0x06) >> 1;
                let lacing = if bits == 0 {
                    Lacing::NoLacing
                } else if bits == 1 {
                    Lacing::Xiph
                } else if bits == 3 {
                    Lacing::Ebml
                } else {
                    Lacing::FixedSize
                };
                let payload = slice_to_vec(slice_subrange(data.as_slice(), n + 3, len));
                proof {
                    assert(payload@ =~= data@.skip(n + 3));
                }
                Ok(
                    Block {
                        track_number: track_number,
                        timecode: timecode,
                        keyframe: simple_block_structure && flags & 0x80 != 0,
                        invisible: flags & 0x08 != 0,
                        discardable: simple_block_structure && flags & 0x01 != 0,
                        lacing: lacing,
                        data: payload,
                    },
                )
            },
        }
    }

    /// Return the index number of the track that the block is associated with.
    pub fn track(&self) -> (n: u64)
        ensures
            n == self@.track_number,
    {
        self.track_number
    }

    /// Return the timecode of the block, relative to the cluster's timecode.
    pub fn timecode(&self) -> (t: i16)
        ensures
            t == self@.timecode,
    {
        self.timecode
    }

    /// Return wether the block contains only keyframe(s).
    pub fn keyframe(&self) -> (b: bool)
        ensures
            b == self@.keyframe,
    {
        self.keyframe
    }

    /// Return wether the block should be displayed by a player.
    pub fn invisible(&self) -> (b: bool)
        ensures
            b == self@.invisible,
    {
        self.invisible
    }

    /// Return wether the block can be discarded by a player.
    pub fn discardable(&self) -> (b: bool)
        ensures
            b == self@.discardable,
    {
        self.discardable
    }

    /// Return the lacing data of the block.
    pub fn lacing(&self) -> (l: &Lacing)
        ensures
            *l == self@.lacing,
    {
        &self.lacing
    }

    /// Return the size in bytes of the block.
    pub fn size(&self) -> (n: usize)
        ensures
            n == self@.data.len(),
    {
        self.data.len()
    }

    /// Return the data contained in the block. Consumes `self`.
    pub fn data(self) -> (bytes: Vec<u8>)
        ensures
            bytes@ == self@.data,
    {
        self.data
    }

    /// Return the frames contained in the block. Consumes `self`.
    pub fn frames(self) -> (r: Result<Vec<Frame>, Error>)
        ensures
            match r {
                Ok(frames) => spec_frames(self@.lacing, self@.data) == Ok::<_, Error>(
                    frames_view(frames@),
                ),
                Err(e) => spec_frames(self@.lacing, self@.data) == Err::<Seq<Seq<u8>>, _>(e),
            },
    {
        match self.lacing {
            Lacing::NoLacing => {
                let mut frames: Vec<Frame> = Vec::with_capacity(1);
                frames.push(self.data);
                proof {
                    assert(frames_view(frames@) =~= seq![self@.data]);
                }
                Ok(frames)
            },
            Lacing::Xiph => parse_xiph_frames(self.data),
            Lacing::Ebml => parse_ebml_frames(self.data),
            Lacing::FixedSize => parse_fixed_size_frames(self.data),
        }
    }
}

/// Cut `data` from index `start` on into a frame of each size in `sizes` and a
/// last frame of what is left.
fn cut_frames(data: &[u8], start: usize, sizes: &Vec<u128>) -> (r: Option<Vec<Frame>>)
    requires
        start <= data.len(),
    ensures
        match r {
            Some(frames) => spec_cut(data@, start as int, sizes_view(sizes@)) == Some(
                frames_view(frames@),
            ),
            None => spec_cut(data@, start as int, sizes_view(sizes@)).is_none(),
        },
{
    let ghost all = sizes_view(sizes@);
    let mut frames: Vec<Frame> = Vec::new();
    let mut pos: usize = start;
    let mut k: usize = 0;
    proof {
        assert(all.skip(0) =~= all);
        assert(frames_view(frames@) =~= Seq::<Seq<u8>>::empty());
        lemma_frames_prepend_empty(spec_cut(data@, start as int, all));
    }
    while k < sizes.len()
        invariant
            k <= sizes@.len(),
            pos <= data@.len(),
            all == sizes_view(sizes@),
            spec_cut(data@, start as int, all) == frames_prepend(
                frames_view(frames@),
                spec_cut(data@, pos as int, all.skip(k as int)),
            ),
        decreases sizes@.len() - k,
    {
        let size: u128 = sizes[k];
        let ghost done = frames_view(frames@);
        proof {
            assert(all.skip(k as int)[0] == size as int);
            assert(all.skip(k as int).skip(1) =~= all.skip(k + 1));
        }
        if size > (data.len() - pos) as u128 {
            return None;
        }
        let n: usize = size as usize;
        let frame = slice_to_vec(slice_subrange(data, pos, pos + n));
        proof {
            lemma_frames_prepend_assoc(
                done,
                seq![frame@],
                spec_cut(data@, pos + n, all.skip(k + 1)),
            );
        }
        frames.push(frame);
        proof {
            assert(frames_view(frames@) =~= done + seq![frame@]);
        }
        pos = pos + n;
        k = k + 1;
    }
    let ghost done = frames_view(frames@);
    let last = slice_to_vec(slice_subrange(data, pos, data.len()));
    frames.push(last);
    proof {
        assert(all.skip(k as int).len() == 0);
        assert(frames_view(frames@) =~= done + seq![last@]);
    }
    Some(frames)
}

/// `head` followed by the frames that `tail` holds, or nothing where `tail`
/// holds none.
pub open spec fn frames_prepend(head: Seq<Seq<u8>>, tail: Option<Seq<Seq<u8>>>) -> Option<
    Seq<Seq<u8>>,
> {
    match tail {
        Some(rest) => Some(head + rest),
        None => None,
    }
}

proof fn lemma_frames_prepend_empty(tail: Option<Seq<Seq<u8>>>)
    ensures
        frames_prepend(Seq::empty(), tail) == tail,
{
    match tail {
        Some(rest) => {
            assert(Seq::<Seq<u8>>::empty() + rest =~= rest);
        },
        None => {},
    }
}

proof fn lemma_frames_prepend_assoc(
    a: Seq<Seq<u8>>,
    b: Seq<Seq<u8>>,
    tail: Option<Seq<Seq<u8>>>,
)
    ensures
        frames_prepend(a, frames_prepend(b, tail)) == frames_prepend(a + b, tail),
{
    match tail {
        Some(rest) => {
            assert(a + (b + rest) =~= (a + b) + rest);
        },
        None => {},
    }
}

/// `head` followed by the sizes that `tail` holds, with the index that `tail`
/// ends at.
pub open spec fn sizes_prepend(head: Seq<int>, tail: Option<(Seq<int>, int)>) -> Option<
    (Seq<int>, int),
> {
    match tail {
        Some((rest, end)) => Some((head + rest, end)),
        None => None,
    }
}

/// Read one frame size in Xiph lacing at index `start` of `data`: the size
/// and the index after it.
fn xiph_size(data: &[u8], start: usize) -> (r: Option<(u128, usize)>)
    requires
        start <= data.len(),
    ensures
        match r {
            Some((size, next)) => spec_xiph_size(data@, start as int) == Some(
                (size as int, next as int),
            ) && start < next <= data.len(),
            None => spec_xiph_size(data@, start as int).is_none(),
        },
{
    // The size is coded as a run of 255's that a byte of another value ends.
    let mut size: u128 = 0;
    let mut pos: usize = start;
    loop
        invariant_except_break
            start <= pos <= data.len(),
            size == 255 * (pos - start),
            spec_xiph_size(data@, start as int) == (match spec_xiph_size(data@, pos as int) {
                None => None,
                Some((rest, next)) => Some((size + rest, next)),
            }),
        ensures
            start < pos <= data.len(),
            spec_xiph_size(data@, start as int) == Some((size as int, pos as int)),
        decreases data.len() - pos,
    {
        if pos >= data.len() {
            return None;
        }
        let next: u8 = data[pos];
        pos = pos + 1;
        size = size + next as u128;
        if next != 255 {
            break ;
        }
    }
    Some((size, pos))
}

/// Read the frames of a payload that is laced the Xiph way.
pub fn parse_xiph_frames(block: Vec<u8>) -> (r: Result<Vec<Frame>, Error>)
    ensures
        match r {
            Ok(frames) => spec_xiph_frames(block@) == Ok::<_, Error>(frames_view(frames@)),
            Err(e) => spec_xiph_frames(block@) == Err::<Seq<Seq<u8>>, _>(e),
        },
{
    let len: usize = block.len();
    if len == 0 {
        return Err(Error::UnexpectedEof);
    }
    // Read the number of frames in the lace. The stored number is actually the number of
    // frames in the lace minus one.
    let number: u8 = block[0];
    let ghost s = block@;
    // Read the sizes of the laced frames. The last frame's size is not coded and is instead
    // deduced from the block size.
    let mut sizes: Vec<u128> = Vec::new();
    let mut pos: usize = 1;
    let mut k: u8 = 0;
    proof {
        assert(sizes_view(sizes@) =~= Seq::<int>::empty());
        match spec_xiph_sizes(s, 1, number as nat) {
            Some((rest, end)) => {
                assert(Seq::<int>::empty() + rest =~= rest);
            },
            None => {},
        }
    }
    while k < number
        invariant
            k <= number,
            1 <= pos <= len,
            len == block@.len(),
            s == block@,
            number == s[0],
            spec_xiph_sizes(s, 1, number as nat) == sizes_prepend(
                sizes_view(sizes@),
                spec_xiph_sizes(s, pos as int, (number - k) as nat),
            ),
        decreases number - k,
    {
        let ghost done = sizes_view(sizes@);
        match xiph_size(block.as_slice(), pos) {
            None => {
                return Err(Error::UnexpectedEof);
            },
            Some((size, next)) => {
                proof {
                    match spec_xiph_sizes(s, next as int, (number - k - 1) as nat) {
                        Some((rest, end)) => {
                            assert(done + (seq![size as int] + rest) =~= (done + seq![
                                size as int,
                            ]) + rest);
                        },
                        None => {},
                    }
                }
                sizes.push(size);
                proof {
                    assert(sizes_view(sizes@) =~= done + seq![size as int]);
                }
                pos = next;
            },
        }
        k = k + 1;
    }
    // Read the actual frames in the lace based on the sizes that we read, and the last frame
    // based on the remaining amout of bytes in the block.
    match cut_frames(block.as_slice(), pos, &sizes) {
        Some(frames) => Ok(frames),
        None => Err(Error::UnexpectedEof),
    }
}

/// Read the frames of a payload that is laced the EBML way.
pub fn parse_ebml_frames(data: Vec<u8>) -> (r: Result<Vec<Frame>, Error>)
    ensures
        match r {
            Ok(frames) => spec_ebml_frames(data@) == Ok::<_, Error>(frames_view(frames@)),
            Err(e) => spec_ebml_frames(data@) == Err::<Seq<Seq<u8>>, _>(e),
        },
{
    let len: usize = data.len();
    if len == 0 {
        return Err(Error::UnexpectedEof);
    }
    // The stored number is the number of frames in the lace minus one.
    let number: u8 = data[0];
    let ghost s = data@;
    if number == 0 {
        let mut frames: Vec<Frame> = Vec::with_capacity(1);
        let only = slice_to_vec(slice_subrange(data.as_slice(), 1, len));
        frames.push(only);
        proof {
            assert(only@ =~= s.skip(1));
            assert(frames_view(frames@) =~= seq![s.skip(1)]);
        }
        return Ok(frames);
    }
    proof {
        assert(s.skip(1) =~= s.subrange(1, len as int));
    }
    // The first size is a variable-length integer, the next ones are coded
    // as what the first size is larger by.
    match decode_vint(data.as_slice(), 1, len, true) {
        Err(e) => Err(e),
        Ok((first_size, width)) => {
            let mut sizes: Vec<u128> = Vec::new();
            sizes.push(first_size as u128);
            let mut pos: usize = 1 + width;
            let mut k: u8 = 1;
            proof {
                assert(sizes_view(sizes@) =~= seq![first_size as int]);
                match spec_ebml_sizes(s, pos as int, first_size as int, (number - 1) as nat) {
                    Ok(rest) => {
                        assert(Seq::<int>::empty() + rest =~= rest);
                    },
                    Err(_) => {},
                }
            }
            while k < number
                invariant
                    1 <= k <= number,
                    pos == width + k,
                    pos <= len,
                    len == data@.len(),
                    s == data@,
                    number == s[0],
                    spec_read_vint(s.skip(1), true) == Ok::<_, Error>((first_size, width)),
                    sizes@.len() == k,
                    sizes_view(sizes@)[0] == first_size as int,
                    spec_ebml_sizes(s, 1 + width, first_size as int, (number - 1) as nat) == (
                        match spec_ebml_sizes(
                            s,
                            pos as int,
                            first_size as int,
                            (number - k) as nat,
                        ) {
                            Ok(rest) => Ok(sizes_view(sizes@).skip(1) + rest),
                            Err(e) => Err(e),
                        }
                    ),
                decreases number - k,
            {
                if pos >= len {
                    return Err(Error::UnexpectedEof);
                }
                let delta: u8 = data[pos];
                if delta as u64 > first_size {
                    return Err(
                        Error::InvalidElementValue {
                            id: el::BLOCK,
                            detail: Detail::OutOfRange(delta as u64),
                        },
                    );
                }
                let ghost done = sizes_view(sizes@);
                let size: u128 = (first_size - delta as u64) as u128;
                proof {
                    match spec_ebml_sizes(
                        s,
                        pos + 1,
                        first_size as int,
                        (number - k - 1) as nat,
                    ) {
                        Ok(rest) => {
                            assert(done.skip(1) + (seq![size as int] + rest) =~= (done + seq![
                                size as int,
                            ]).skip(1) + rest);
                        },
                        Err(_) => {},
                    }
                }
                sizes.push(size);
                proof {
                    assert(sizes_view(sizes@) =~= done + seq![size as int]);
                }
                pos = pos + 1;
                k = k + 1;
            }
            proof {
                let all = sizes_view(sizes@);
                assert(all.skip(1) + Seq::<int>::empty() =~= all.skip(1));
                assert(seq![first_size as int] + all.skip(1) =~= all);
            }
            match cut_frames(data.as_slice(), pos, &sizes) {
                Some(frames) => Ok(frames),
                None => Err(Error::UnexpectedEof),
            }
        },
    }
}

/// Read the frames of a payload that is laced with a fixed size.
pub fn parse_fixed_size_frames(data: Vec<u8>) -> (r: Result<Vec<Frame>, Error>)
    ensures
        match r {
            Ok(frames) => spec_fixed_size_frames(data@) == Ok::<_, Error>(frames_view(frames@)),
            Err(e) => spec_fixed_size_frames(data@) == Err::<Seq<Seq<u8>>, _>(e),
        },
{
    let len: usize = data.len();
    if len == 0 {
        return Err(Error::UnexpectedEof);
    }
    let number: usize = data[0] as usize;
    if number == 0 {
        return Err(Error::InvalidElementValue { id: el::BLOCK, detail: Detail::OutOfRange(0) });
    }
    let frame_size: usize = (len - 1) / number;
    let ghost s = data@;
    let ghost expected = Seq::new(
        number as nat,
        |k: int| s.subrange(1 + k * frame_size, 1 + (k + 1) * frame_size),
    );
    proof {
        assert(frame_size * number <= len - 1) by (nonlinear_arith)
            requires
                frame_size == (len - 1) / (number as int),
                number > 0,
                len >= 1,
        ;
    }
    let mut frames: Vec<Frame> = Vec::new();
    let mut pos: usize = 1;
    let mut k: usize = 0;
    while k < number
        invariant
            k <= number,
            pos == 1 + k * frame_size,
            frame_size * number <= len - 1,
            len == data@.len(),
            s == data@,
            frames@.len() == k,
            forall|j: int| 0 <= j < k ==> (#[trigger] frames@[j])@ == expected[j],
            expected.len() == number,
            forall|j: int|
                0 <= j < number ==> #[trigger] expected[j] == s.subrange(
                    1 + j * frame_size,
                    1 + (j + 1) * frame_size,
                ),
        decreases number - k,
    {
        proof {
            assert((k + 1) * frame_size <= number * frame_size) by (nonlinear_arith)
                requires
                    k + 1 <= number,
                    frame_size >= 0,
            ;
            assert((k + 1) * frame_size == k * frame_size + frame_size) by (nonlinear_arith);
            assert(number * frame_size == frame_size * number) by (nonlinear_arith);
        }
        let frame = slice_to_vec(slice_subrange(data.as_slice(), pos, pos + frame_size));
        frames.push(frame);
        pos = pos + frame_size;
        k = k + 1;
    }
    proof {
        assert(frames_view(frames@) =~= expected);
    }
    Ok(frames)
}

} // verus!
