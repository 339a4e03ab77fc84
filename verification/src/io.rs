//! This module contains the functionality to allow reading/writing of MKV video.

pub mod fields;
pub mod layout;
pub mod parse;

use vstd::prelude::*;
use crate::error::Error;
use crate::ebml::reader::Source;
use crate::ebml::element::ElementSpec;
use crate::ebml::element::{spec_last_uint, spec_last_utf8};
use crate::elements as el;

verus! {

/// Represents an MKV/EBML header.
/// Documentation for each field signification can be found on the official Matroska website.
#[derive(Debug)]
pub struct Header {
    pub ebml_version: u64,
    pub ebml_read_version: u64,
    pub ebml_max_id_length: u64,
    pub ebml_max_size_length: u64,
    pub doc_type: String,
    pub doc_type_version: u64,
    pub doc_type_read_version: u64,
}

/// An EBML header as the format defines it.
pub struct HeaderSpec {
    pub ebml_version: u64,
    pub ebml_read_version: u64,
    pub ebml_max_id_length: u64,
    pub ebml_max_size_length: u64,
    pub doc_type: Seq<char>,
    pub doc_type_version: u64,
    pub doc_type_read_version: u64,
}

impl View for Header {
    type V = HeaderSpec;

    open spec fn view(&self) -> HeaderSpec {
        HeaderSpec {
            ebml_version: self.ebml_version,
            ebml_read_version: self.ebml_read_version,
            ebml_max_id_length: self.ebml_max_id_length,
            ebml_max_size_length: self.ebml_max_size_length,
            doc_type: self.doc_type@,
            doc_type_version: self.doc_type_version,
            doc_type_read_version: self.doc_type_read_version,
        }
    }
}

impl Header {
    /// The type of the document ("matroska", "webm"...).
    pub fn doc_type(&self) -> (doc_type: &str)
        ensures
            doc_type@ == self@.doc_type,
    {
        self.doc_type.as_str()
    }

    /// The version of the document type that the stream was written for.
    pub fn doc_type_version(&self) -> (version: u64)
        ensures
            version == self@.doc_type_version,
    {
        self.doc_type_version
    }

    /// The oldest version of the document type that a reader must know.
    pub fn doc_type_read_version(&self) -> (version: u64)
        ensures
            version == self@.doc_type_read_version,
    {
        self.doc_type_read_version
    }
}

/// The header that the children `elems` of an `EBML` element hold. A field
/// that no child gives is zero, or the empty string; a field that several
/// children give has the value of the last of them.
pub open spec fn spec_header(elems: Seq<ElementSpec>) -> Result<HeaderSpec, Error> {
    match spec_last_uint(elems, el::EBML_VERSION, 0) {
        Err(e) => Err(e),
        Ok(ebml_version) => match spec_last_uint(elems, el::EBML_READ_VERSION, 0) {
            Err(e) => Err(e),
            Ok(ebml_read_version) => match spec_last_uint(elems, el::EBML_MAX_ID_LENGTH, 0) {
                Err(e) => Err(e),
                Ok(ebml_max_id_length) => match spec_last_uint(
                    elems,
                    el::EBML_MAX_SIZE_LENGTH,
                    0,
                ) {
                    Err(e) => Err(e),
                    Ok(ebml_max_size_length) => match spec_last_utf8(
                        elems,
                        el::DOC_TYPE,
                        Seq::empty(),
                    ) {
                        Err(e) => Err(e),
                        Ok(doc_type) => match spec_last_uint(elems, el::DOC_TYPE_VERSION, 0) {
                            Err(e) => Err(e),
                            Ok(doc_type_version) => match spec_last_uint(
                                elems,
                                el::DOC_TYPE_READ_VERSION,
                                0,
                            ) {
                                Err(e) => Err(e),
                                Ok(doc_type_read_version) => Ok(
                                    HeaderSpec {
                                        ebml_version: ebml_version,
                                        ebml_read_version: ebml_read_version,
                                        ebml_max_id_length: ebml_max_id_length,
                                        ebml_max_size_length: ebml_max_size_length,
                                        doc_type: doc_type,
                                        doc_type_version: doc_type_version,
                                        doc_type_read_version: doc_type_read_version,
                                    },
                                ),
                            },
                        },
                    },
                },
            },
        },
    }
}

/// Represents MKV seek information data.
pub type SeekInfo = Vec<SeekEntry>;

/// Represents an MKV seek entry to an element.
#[derive(Debug)]
pub struct SeekEntry {
    pub seek_id: Vec<u8>,
    pub seek_position: u64,
}

/// A seek entry as the format defines it: the bytes of an identifier and a
/// position.
pub struct SeekEntrySpec {
    pub id: Seq<u8>,
    pub position: u64,
}

impl View for SeekEntry {
    type V = SeekEntrySpec;

    open spec fn view(&self) -> SeekEntrySpec {
        SeekEntrySpec { id: self.seek_id@, position: self.seek_position }
    }
}

/// Read and parse MKV seek information.
pub fn parse_seek_info(r: &mut Source) -> (res: Result<SeekInfo, Error>)
    ensures
        match res {
            Ok(entries) => match parse::spec_seek_info(old(r).remaining()) {
                Ok((expected, n)) => fields::seek_view(entries@) == expected && final(r).offset()
                    == old(r).offset() + n,
                Err(_) => false,
            },
            Err(e) => parse::spec_seek_info(old(r).remaining()) == Err::<
                (Seq<SeekEntrySpec>, int),
                _,
            >(e) && final(r).offset() == old(r).offset(),
        },
        final(r).bytes() == old(r).bytes(),
        final(r).offset() <= final(r).bytes().len(),
{
    match parse::seek_info(r) {
        Ok((entries, _)) => Ok(entries),
        Err(e) => Err(e),
    }
}

/// Read and parse an EBML header from an input source.
pub fn parse_header(r: &mut Source) -> (res: Result<Header, Error>)
    ensures
        match res {
            Ok(header) => parse::spec_parse_header(old(r).remaining()) matches Ok((h, n))
                && header@ == h && final(r).offset() == old(r).offset() + n,
            Err(e) => parse::spec_parse_header(old(r).remaining()) == Err::<(HeaderSpec, int), _>(
                e,
            ) && final(r).offset() == old(r).offset(),
        },
        final(r).bytes() == old(r).bytes(),
        final(r).offset() <= final(r).bytes().len(),
{
    match parse::header(r) {
        Ok((header, _)) => Ok(header),
        Err(e) => Err(e),
    }
}

} // verus!
