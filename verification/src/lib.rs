//! A read-only demuxer for Matroska / WebM containers.
//!
//! The crate turns the bytes of a Matroska file into typed metadata (EBML
//! header, seek index, segment information, track descriptors) and into the
//! blocks and frames of its clusters. No payload is decoded.
//!
//! * [`ebml`] reads what every EBML document is made of: variable-length
//!   integers, elements, and the children of a master element.
//! * [`reader`] walks a segment: [`reader::Reader`] gives its metadata and
//!   its clusters in turn, a [`reader::cluster::Cluster`] gives its blocks,
//!   and a [`reader::cluster::Block`] gives its frames.
//! * [`io`] reads single records from a byte source, field by field, into
//!   the types of [`structures`].
//! * [`elements`] holds the identifiers of the elements, and [`error`] the
//!   errors that reading ends in.
//!
//! Every function is verified with Verus against a description of the
//! container format that is stated over sequences of bytes. The
//! description of each operation stands beside it as a `spec_` function;
//! the laws that hold of them are public proof functions:
//!
//! * [`io::layout::lemma_header_any_layout`]: reading the bytes of a header
//!   gives the header back, however the header is laid out;
//! * [`reader::coverage::lemma_reader_covers_segment`]: metadata and
//!   clusters, read in turn, are the top-level elements of the segment, each
//!   of them once and in order, but for an empty last element whose header
//!   was read ahead;
//! * [`reader::state::lemma_next_block`]: the bytes read from a cluster are
//!   counted against its declared size, which they reach exactly;
//! * [`reader::lacing`]: a lace that is read gives the frames that it was
//!   made of.

pub mod error;
pub mod elements;
pub mod ebml;
pub mod io;
pub mod structures;
pub mod reader;
