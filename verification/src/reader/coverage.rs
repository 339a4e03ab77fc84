//! What a reader covers: the law that metadata and clusters, read in turn,
//! are the top-level elements of the segment, each of them once and in
//! order.

use vstd::prelude::*;
use crate::elements as el;
use crate::error::Error;
use crate::ebml::element::{
    lemma_read_element_info_len,
    lemma_read_element_len,
    prepend,
    spec_children,
    spec_read_element,
    spec_read_element_info,
    ElementSpec,
};
use crate::reader::state::{
    is_metadata,
    is_skipped,
    lemma_next_block,
    section_seq,
    spec_avail,
    spec_close,
    spec_info,
    spec_next_block,
    spec_next_cluster,
    spec_queue_next,
    spec_section,
    spec_take_queued,
    spec_walk,
    walk_prepend,
    ClusterSpec,
    InfoSpec,
    ReaderSpec,
};

verus! {

/// A part of a segment: a section of metadata, or the content of a cluster.
pub enum Part {
    Info(InfoSpec),
    Cluster(Seq<u8>),
}

/// What the top-level element `element` is to a reader: a cluster, a section
/// of metadata, or nothing where it is passed over. An element that is none
/// of these is refused.
pub open spec fn spec_part(element: ElementSpec) -> Result<Option<Part>, Error> {
    if element.id == el::CLUSTER {
        Ok(Some(Part::Cluster(element.data)))
    } else if is_metadata(element.id) {
        match spec_section(element.id, element.data) {
            Err(e) => Err(e),
            Ok(info) => Ok(Some(Part::Info(info))),
        }
    } else if is_skipped(element.id) {
        Ok(None)
    } else {
        Err(Error::UnexpectedElement { expected: el::EBML, found: element.id })
    }
}

/// No part, or the one part `part`, as a sequence.
pub open spec fn part_seq(part: Option<Part>) -> Seq<Part> {
    match part {
        Some(p) => seq![p],
        None => Seq::empty(),
    }
}

/// The parts `head` followed by those that `tail` holds, or the error that
/// `tail` is.
pub open spec fn parts_prepend(head: Seq<Part>, tail: Result<Seq<Part>, Error>) -> Result<
    Seq<Part>,
    Error,
> {
    match tail {
        Ok(rest) => Ok(head + rest),
        Err(e) => Err(e),
    }
}

/// The parts of a segment whose top-level elements are `elems`: what each
/// element is, in order, or the error of the first one that is refused.
pub open spec fn spec_parts(elems: Seq<ElementSpec>) -> Result<Seq<Part>, Error>
    decreases elems.len(),
{
    if elems.len() == 0 {
        Ok(Seq::empty())
    } else {
        match spec_part(elems[0]) {
            Err(e) => Err(e),
            Ok(part) => parts_prepend(part_seq(part), spec_parts(elems.skip(1))),
        }
    }
}

/// The sections `infos` as parts of a segment.
pub open spec fn info_parts(infos: Seq<InfoSpec>) -> Seq<Part> {
    Seq::new(infos.len(), |i: int| Part::Info(infos[i]))
}

/// The top-level elements that a reader in the state `v`, in which no
/// cluster is open, has not read yet: the queued element, if there is one,
/// and those that follow.
pub open spec fn spec_pending(v: ReaderSpec) -> Result<Seq<ElementSpec>, Error> {
    match v.queued {
        None => spec_children(v.rest),
        Some((id, size)) => if size > v.rest.len() {
            Err(Error::UnexpectedEof)
        } else {
            prepend(
                seq![ElementSpec { id: id, data: v.rest.take(size as int) }],
                spec_children(v.rest.skip(size as int)),
            )
        },
    }
}

/// The parts of the segment that a reader in the state `v` has not read yet.
pub open spec fn spec_pending_parts(v: ReaderSpec) -> Result<Seq<Part>, Error> {
    match spec_pending(v) {
        Ok(elems) => spec_parts(elems),
        Err(e) => Err(e),
    }
}

/// How much a reader in the state `v` has still to do.
pub open spec fn spec_measure(v: ReaderSpec) -> int {
    2 * v.rest.len() + (if v.queued.is_some() {
        1int
    } else {
        0int
    })
}

/// Whether a reader reads the header of the last of the elements `elems`
/// ahead and never reads the element itself. `after_cluster` tells whether
/// what stands before `elems` is a cluster.
///
/// `info` reads the header of the cluster that ends a run of metadata, and
/// `next_cluster` that of the element that ends a run of clusters. Either
/// header is kept for the other call. Where the element is empty and the
/// last of its segment, the whole segment has then been read, and neither
/// call reads anything more: the element is never given. That loses an empty
/// last cluster that does not follow a cluster, and an empty last element
/// other than a cluster that follows one; an element that is passed over
/// anyway is no loss.
pub open spec fn spec_ends_read_ahead(elems: Seq<ElementSpec>, after_cluster: bool) -> bool {
    let last = elems.last();
    let follows_cluster = if elems.len() >= 2 {
        elems[elems.len() - 2].id == el::CLUSTER
    } else {
        after_cluster
    };
    elems.len() > 0 && last.data.len() == 0 && (if last.id == el::CLUSTER {
        !follows_cluster
    } else {
        follows_cluster && !is_skipped(last.id)
    })
}

/// Reading a segment to its end from the state `v`: metadata is read, then
/// one cluster after the other is entered and left, then metadata again, and
/// so on until the whole segment has been read. `clusters` tells whether
/// clusters are being read. The result holds every section of metadata that
/// `info` gave and the content of every cluster that `next_cluster` gave, in
/// that order.
pub open spec fn spec_drive(v: ReaderSpec, clusters: bool) -> Result<Seq<Part>, Error>
    decreases spec_measure(v), (if clusters {
        1int
    } else {
        0int
    }),
    when v.wf()
    via lemma_drive_decreases
{
    if v.exhausted() {
        Ok(Seq::empty())
    } else if !clusters {
        match spec_info(v) {
            Err(e) => Err(e),
            Ok((infos, next)) => parts_prepend(
                info_parts(infos),
                if next.queued.is_none() {
                    Ok(Seq::empty())
                } else {
                    spec_drive(next, true)
                },
            ),
        }
    } else {
        match spec_next_cluster(v) {
            Err(e) => Err(e),
            Ok((true, inside)) => match spec_close(inside) {
                Err(e) => Err(e),
                Ok(next) => parts_prepend(
                    seq![Part::Cluster(inside.rest.take(spec_avail(inside)))],
                    spec_drive(next, true),
                ),
            },
            Ok((false, next)) => if next.queued.is_none() {
                Ok(Seq::empty())
            } else {
                spec_drive(next, false)
            },
        }
    }
}

#[via_fn]
proof fn lemma_drive_decreases(v: ReaderSpec, clusters: bool) {
    lemma_info_progress(v);
    lemma_next_cluster_progress(v);
}

/// Leaving a cluster keeps a state well-formed and counts what is passed
/// over against the segment.
pub proof fn lemma_close_progress(v: ReaderSpec)
    requires
        v.wf(),
    ensures
        match spec_close(v) {
            Ok(next) => {
                &&& next.wf()
                &&& next.cluster.is_none()
                &&& next.size == v.size
                &&& next.queued == v.queued
                &&& next.rest.len() <= v.rest.len()
                &&& next.position - v.position == v.rest.len() - next.rest.len()
                &&& v.cluster.is_none() ==> next == v
            },
            Err(_) => true,
        },
{
}

/// Reading metadata keeps a state well-formed and counts what it reads
/// against the segment. It ends at the end of the segment with nothing
/// queued, or with a cluster queued whose header it has read.
pub proof fn lemma_walk_progress(v: ReaderSpec)
    requires
        v.wf(),
        v.cluster.is_none(),
    ensures
        match spec_walk(v) {
            Ok((_, next)) => {
                &&& next.wf()
                &&& next.cluster.is_none()
                &&& next.size == v.size
                &&& next.rest.len() <= v.rest.len()
                &&& next.position - v.position == v.rest.len() - next.rest.len()
                &&& match next.queued {
                    None => next.rest.len() == 0 && next.exhausted(),
                    Some((id, _)) => id == el::CLUSTER && (next == v || next.rest.len() + 2
                        <= v.rest.len()),
                }
            },
            Err(_) => true,
        },
    decreases v.rest.len(), (if v.queued.is_some() {
        1int
    } else {
        0int
    }),
{
    match v.queued {
        None => {
            lemma_read_element_info_len(v.rest);
            match spec_queue_next(v) {
                Ok(Some(next)) => {
                    lemma_walk_progress(next);
                },
                _ => {},
            }
        },
        Some((id, size)) => {
            if id != el::CLUSTER {
                match spec_take_queued(v, id, size) {
                    Ok((_, next)) => {
                        lemma_walk_progress(next);
                    },
                    Err(_) => {},
                }
            }
        },
    }
}

/// Reading metadata with `info` keeps a state well-formed and counts what it
/// reads against the segment. Once the whole segment has been read it
/// changes nothing. Else it ends at the end of the segment with nothing
/// queued, or with a cluster queued that was not queued before.
pub proof fn lemma_info_progress(v: ReaderSpec)
    requires
        v.wf(),
    ensures
        match spec_info(v) {
            Ok((infos, next)) => {
                &&& next.wf()
                &&& next.size == v.size
                &&& next.position - v.position == v.rest.len() - next.rest.len()
                &&& v.exhausted() ==> next == v && infos.len() == 0
                &&& !v.exhausted() ==> next.cluster.is_none() && (match next.queued {
                    None => next.exhausted(),
                    Some((id, _)) => id == el::CLUSTER && spec_measure(next) < spec_measure(v),
                })
            },
            Err(_) => true,
        },
{
    lemma_close_progress(v);
    if !v.exhausted() {
        match spec_close(v) {
            Ok(closed) => {
                match closed.queued {
                    Some((id, size)) => {
                        if id == el::CLUSTER {
                            if size <= closed.rest.len() {
                                lemma_walk_progress(closed.advance(size as int).with_queued(None));
                            }
                        } else {
                            lemma_walk_progress(closed);
                        }
                    },
                    None => {
                        lemma_walk_progress(closed);
                    },
                }
            },
            Err(_) => {},
        }
    }
}

/// Moving to the next cluster keeps a state well-formed and counts what it
/// reads against the segment. Once the whole segment has been read it
/// changes nothing. Else, where there is no cluster, the segment has been
/// read to its end, or an element that is no cluster is queued.
pub proof fn lemma_next_cluster_progress(v: ReaderSpec)
    requires
        v.wf(),
    ensures
        match spec_next_cluster(v) {
            Ok((found, next)) => {
                &&& next.wf()
                &&& next.size == v.size
                &&& found ==> next.cluster.is_some()
                &&& next.position - v.position == v.rest.len() - next.rest.len()
                &&& next.rest.len() <= v.rest.len()
                &&& v.exhausted() ==> !found && next == v
                &&& found ==> next.queued.is_none() && (v.queued.is_some() || next.rest.len() + 2
                    <= v.rest.len())
                &&& !v.exhausted() && !found ==> next.cluster.is_none() && (match next.queued {
                    None => next.exhausted(),
                    Some((id, _)) => id != el::CLUSTER && (next == v || spec_measure(next)
                        < spec_measure(v)),
                })
            },
            Err(_) => true,
        },
{
    lemma_close_progress(v);
    if !v.exhausted() {
        match spec_close(v) {
            Ok(closed) => {
                lemma_read_element_info_len(closed.rest);
            },
            Err(_) => {},
        }
    }
}

/// One element before others: its part, then theirs.
pub proof fn lemma_parts_first(element: ElementSpec, tail: Seq<ElementSpec>)
    ensures
        spec_parts(seq![element] + tail) == (match spec_part(element) {
            Err(e) => Err(e),
            Ok(part) => parts_prepend(part_seq(part), spec_parts(tail)),
        }),
{
    let elems = seq![element] + tail;
    assert(elems[0] == element);
    assert(elems.skip(1) =~= tail);
}

/// Prepending parts in two steps is prepending both at once.
pub proof fn lemma_parts_prepend_assoc(a: Seq<Part>, b: Seq<Part>, tail: Result<Seq<Part>, Error>)
    ensures
        parts_prepend(a, parts_prepend(b, tail)) == parts_prepend(a + b, tail),
{
    match tail {
        Ok(rest) => {
            assert(a + (b + rest) =~= (a + b) + rest);
        },
        Err(_) => {},
    }
}

/// Prepending no part changes nothing.
pub proof fn lemma_parts_prepend_empty(tail: Result<Seq<Part>, Error>)
    ensures
        parts_prepend(Seq::empty(), tail) == tail,
{
    match tail {
        Ok(rest) => {
            assert(Seq::<Part>::empty() + rest =~= rest);
        },
        Err(_) => {},
    }
}

/// Queueing the header of the next element changes nothing of what is still
/// to read.
pub proof fn lemma_queue_keeps_pending(v: ReaderSpec)
    requires
        v.wf(),
        v.cluster.is_none(),
        v.queued.is_none(),
        !v.cut(),
        spec_pending(v).is_ok(),
    ensures
        match spec_queue_next(v) {
            Ok(Some(next)) => spec_pending(next) == spec_pending(v) && !next.cut() && next.wf()
                && next.cluster.is_none(),
            Ok(None) => spec_pending(v) == Ok::<_, Error>(Seq::<ElementSpec>::empty()),
            Err(_) => false,
        },
{
    if v.rest.len() > 0 {
        lemma_read_element_len(v.rest);
        lemma_read_element_info_len(v.rest);
        match spec_read_element_info(v.rest) {
            Ok((id, size, header)) => {
                let next = v.advance(header as int).with_queued(Some((id, size)));
                assert(next.rest.take(size as int) =~= v.rest.subrange(
                    header as int,
                    header + size,
                ));
                assert(next.rest.skip(size as int) =~= v.rest.skip(header + size));
            },
            Err(_) => {},
        }
    }
}

/// Reading metadata gives the sections of the elements that it reads, in
/// order: what was still to read before is those sections, then what is
/// still to read after.
pub proof fn lemma_walk_parts(v: ReaderSpec)
    requires
        v.wf(),
        v.cluster.is_none(),
        !v.cut(),
        spec_pending(v).is_ok(),
    ensures
        match spec_walk(v) {
            Ok((infos, next)) => spec_pending(next).is_ok() && !next.cut() && spec_pending_parts(v)
                == parts_prepend(info_parts(infos), spec_pending_parts(next)),
            Err(e) => spec_pending_parts(v) == Err::<Seq<Part>, _>(e),
        },
    decreases v.rest.len(), (if v.queued.is_some() {
        1int
    } else {
        0int
    }),
{
    match v.queued {
        None => {
            lemma_queue_keeps_pending(v);
            match spec_queue_next(v) {
                Ok(Some(next)) => {
                    lemma_read_element_info_len(v.rest);
                    lemma_walk_parts(next);
                },
                Ok(None) => {
                    assert(info_parts(Seq::<InfoSpec>::empty()) =~= Seq::<Part>::empty());
                    lemma_parts_prepend_empty(spec_pending_parts(v));
                },
                Err(_) => {},
            }
        },
        Some((id, size)) => {
            let element = ElementSpec { id: id, data: v.rest.take(size as int) };
            let tail = spec_children(v.rest.skip(size as int)).unwrap();
            lemma_parts_first(element, tail);
            if id == el::CLUSTER {
                assert(info_parts(Seq::<InfoSpec>::empty()) =~= Seq::<Part>::empty());
                lemma_parts_prepend_empty(spec_pending_parts(v));
            } else {
                match spec_take_queued(v, id, size) {
                    Ok((section, next)) => {
                        lemma_walk_parts(next);
                        match spec_walk(next) {
                            Ok((more, end)) => {
                                let first = part_seq(spec_part(element).unwrap());
                                assert(info_parts(section_seq(section)) =~= first);
                                assert(info_parts(section_seq(section) + more) =~= first
                                    + info_parts(more));
                                lemma_parts_prepend_assoc(
                                    first,
                                    info_parts(more),
                                    spec_pending_parts(end),
                                );
                            },
                            Err(_) => {},
                        }
                    },
                    Err(_) => {},
                }
            }
        },
    }
}

/// Splitting bytes gives no element only where there is no byte.
pub proof fn lemma_children_none(s: Seq<u8>)
    ensures
        spec_children(s) == Ok::<_, Error>(Seq::<ElementSpec>::empty()) ==> s.len() == 0,
{
    if s.len() > 0 {
        match spec_read_element(s) {
            Ok((element, len)) => {
                match spec_children(s.skip(len)) {
                    Ok(rest) => {
                        assert((seq![element] + rest).len() > 0);
                    },
                    Err(_) => {},
                }
            },
            Err(_) => {},
        }
    }
}

/// Whether the last element is read ahead does not depend on the first
/// element, but for what it is: a cluster or not.
pub proof fn lemma_ends_read_ahead_tail(
    element: ElementSpec,
    tail: Seq<ElementSpec>,
    after_cluster: bool,
)
    requires
        tail.len() > 0,
    ensures
        spec_ends_read_ahead(seq![element] + tail, after_cluster) == spec_ends_read_ahead(
            tail,
            element.id == el::CLUSTER,
        ),
{
    let elems = seq![element] + tail;
    assert(elems.last() == tail.last());
    if tail.len() >= 2 {
        assert(elems[elems.len() - 2] == tail[tail.len() - 2]);
    } else {
        assert(elems[elems.len() - 2] == element);
    }
}

/// Reading metadata stops at a cluster that is read ahead at the end exactly
/// where the elements that were still to read end so. `after_cluster` tells
/// whether what stands before them is a cluster, which it can only be where
/// an element other than a cluster is queued.
pub proof fn lemma_walk_end(v: ReaderSpec, after_cluster: bool)
    requires
        v.wf(),
        v.cluster.is_none(),
        !v.cut(),
        spec_pending(v).is_ok(),
        after_cluster ==> (match v.queued {
            Some((id, _)) => id != el::CLUSTER,
            None => false,
        }),
    ensures
        match spec_walk(v) {
            Ok((_, next)) => next.queued.is_some() ==> spec_pending(next).is_ok()
                && spec_ends_read_ahead(spec_pending(next).unwrap(), false) == spec_ends_read_ahead(
                spec_pending(v).unwrap(),
                after_cluster,
            ),
            Err(_) => true,
        },
    decreases v.rest.len(), (if v.queued.is_some() {
        1int
    } else {
        0int
    }),
{
    lemma_walk_parts(v);
    match v.queued {
        None => {
            lemma_queue_keeps_pending(v);
            match spec_queue_next(v) {
                Ok(Some(next)) => {
                    lemma_read_element_info_len(v.rest);
                    lemma_walk_end(next, false);
                },
                _ => {},
            }
        },
        Some((id, size)) => {
            if id != el::CLUSTER {
                let element = ElementSpec { id: id, data: v.rest.take(size as int) };
                let tail = spec_children(v.rest.skip(size as int)).unwrap();
                match spec_take_queued(v, id, size) {
                    Ok((_, next)) => {
                        lemma_walk_parts(next);
                        lemma_walk_end(next, false);
                        if tail.len() == 0 {
                            lemma_children_none(next.rest);
                        } else {
                            lemma_ends_read_ahead_tail(element, tail, after_cluster);
                        }
                    },
                    Err(_) => {},
                }
            }
        },
    }
}

/// Reading a segment to its end gives what was still to read, each part
/// once and in order, unless the last element is read ahead and never read.
pub proof fn lemma_drive_parts(v: ReaderSpec, clusters: bool)
    requires
        v.wf(),
        v.cluster.is_none(),
        !v.cut(),
        spec_pending(v).is_ok(),
        match v.queued {
            Some((id, _)) => clusters == (id == el::CLUSTER),
            None => true,
        },
        !spec_ends_read_ahead(spec_pending(v).unwrap(), clusters != v.queued.is_some()),
    ensures
        spec_drive(v, clusters) == spec_pending_parts(v),
    decreases spec_measure(v), (if clusters {
        1int
    } else {
        0int
    }),
{
    let elems = spec_pending(v).unwrap();
    if v.exhausted() {
        assert(v.rest.len() == 0);
        match v.queued {
            Some((id, size)) => {
                let element = ElementSpec { id: id, data: v.rest.take(size as int) };
                let tail = spec_children(v.rest.skip(size as int)).unwrap();
                assert(tail.len() == 0);
                assert(elems =~= seq![element]);
                lemma_parts_first(element, tail);
                assert(part_seq(None) + Seq::<Part>::empty() =~= Seq::<Part>::empty());
            },
            None => {},
        }
    } else if !clusters {
        lemma_walk_parts(v);
        lemma_walk_end(v, v.queued.is_some());
        lemma_info_progress(v);
        match spec_walk(v) {
            Ok((infos, next)) => {
                if next.queued.is_none() {
                    assert(next.rest.len() == 0);
                } else {
                    lemma_drive_parts(next, true);
                }
            },
            Err(_) => {},
        }
    } else {
        lemma_next_cluster_progress(v);
        match v.queued {
            Some((id, size)) => {
                let element = ElementSpec { id: id, data: v.rest.take(size as int) };
                let tail = spec_children(v.rest.skip(size as int)).unwrap();
                lemma_parts_first(element, tail);
                let inside = v.with_queued(None).with_cluster(
                    Some(ClusterSpec::fresh(size, v.rest.len() as int)),
                );
                let next = inside.advance(size as int).with_cluster(None);
                assert(spec_close(inside) == Ok::<_, Error>(next));
                if tail.len() > 0 {
                    lemma_ends_read_ahead_tail(element, tail, false);
                }
                lemma_drive_parts(next, true);
            },
            None => {
                lemma_queue_keeps_pending(v);
                lemma_read_element_info_len(v.rest);
                lemma_read_element_len(v.rest);
                match spec_read_element_info(v.rest) {
                    Ok((id, size, header)) => {
                        let queued = v.advance(header as int).with_queued(Some((id, size)));
                        let element = ElementSpec { id: id, data: queued.rest.take(size as int) };
                        let tail = spec_children(queued.rest.skip(size as int)).unwrap();
                        lemma_parts_first(element, tail);
                        if id == el::CLUSTER {
                            let inside = v.advance(header as int).with_cluster(
                                Some(ClusterSpec::fresh(size, v.rest.len() - header)),
                            );
                            let next = inside.advance(size as int).with_cluster(None);
                            assert(spec_close(inside) == Ok::<_, Error>(next));
                            assert(next == queued.advance(size as int).with_queued(None));
                            if tail.len() > 0 {
                                lemma_ends_read_ahead_tail(element, tail, true);
                            }
                            lemma_drive_parts(next, true);
                        } else {
                            lemma_drive_parts(queued, false);
                        }
                    },
                    Err(_) => {},
                }
            },
        }
    }
}

/// Nothing is lost and nothing comes twice.
///
/// Take a reader that has just been opened on a segment that the stream
/// holds in full, and whose top-level elements are `elems`. Reading metadata
/// with `info`, then clusters with `next_cluster` for as long as there are
/// some, then metadata again, and so on until the whole segment has been
/// read, gives the sections of metadata and the contents of the clusters
/// that `elems` hold, each of them once and in the order in which they
/// stand, or the error of the first element that is refused.
///
/// This holds of every segment but those whose last element is empty and is
/// read ahead: once the whole segment has been read neither `info` nor
/// `next_cluster` reads anything more, and an element whose header was kept
/// for the other call is never given.
pub proof fn lemma_reader_covers_segment(v: ReaderSpec, elems: Seq<ElementSpec>)
    requires
        v.wf(),
        v.cluster.is_none(),
        v.queued.is_none(),
        !v.cut(),
        spec_children(v.rest) == Ok::<_, Error>(elems),
        !spec_ends_read_ahead(elems, false),
    ensures
        spec_drive(v, false) == spec_parts(elems),
{
    lemma_drive_parts(v, false);
}

/// The end is the end: once the whole segment has been read there is no
/// further cluster and no further metadata, whatever is queued or open, and
/// asking for either changes nothing.
pub proof fn lemma_exhausted_stays(v: ReaderSpec)
    requires
        v.exhausted(),
    ensures
        spec_next_cluster(v) == Ok::<_, Error>((false, v)),
        spec_info(v) == Ok::<_, Error>((Seq::<InfoSpec>::empty(), v)),
{
}

/// Reading blocks changes nothing of where a cluster ends: the state in
/// which the cluster is left is the same after a block has been read as
/// before.
pub proof fn lemma_blocks_keep_close(v: ReaderSpec)
    requires
        v.wf(),
        v.cluster.is_some(),
    ensures
        spec_next_block(v) matches Ok((_, next)) ==> spec_close(next) == spec_close(v),
{
    lemma_next_block(v);
    match spec_next_block(v) {
        Ok((_, next)) => {
            let c = v.cluster.unwrap();
            let d = next.cluster.unwrap();
            let k = next.position - v.position;
            assert(next.rest.skip(d.avail) =~= v.rest.skip(c.avail));
        },
        Err(_) => {},
    }
}

} // verus!
