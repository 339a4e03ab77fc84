//! The bytes of an EBML header, and the law that ties them to reading the
//! header back.
//!
//! The library reads headers and writes none: the header is described here
//! as a sequence of bytes. The law is stated three times: of any bytes whose
//! `EBML` element has children that spell the header, of the bytes of any
//! such children, and of the bytes of one plain layout.

use vstd::prelude::*;
use vstd::utf8::{encode_utf8, encode_utf8_decode_utf8, encode_utf8_valid_utf8};
use crate::elements as el;
use crate::error::Error;
use crate::ebml::vint::{
    be_bytes,
    lemma_be_bytes_len,
    lemma_be_bytes_value,
    pow256,
    vint_bound,
};
use crate::ebml::element::{
    element_bytes,
    elements_bytes,
    lemma_children_round_trip,
    lemma_element_round_trip,
    spec_find_last,
    spec_find_last_upto,
    spec_writable,
    ElementSpec,
};
use crate::io::{spec_header, HeaderSpec};
use crate::io::parse::{spec_parse_header, spec_read_master};

verus! {

/// The content of an element that holds the unsigned integer `value`: its
/// eight bytes in big-endian order.
pub open spec fn uint_bytes(value: u64) -> Seq<u8> {
    be_bytes(value as int, 8)
}

/// The children of the `EBML` element that spells the header `h`: one
/// element for each field.
pub open spec fn header_children(h: HeaderSpec) -> Seq<ElementSpec> {
    seq![
        ElementSpec { id: el::EBML_VERSION, data: uint_bytes(h.ebml_version) },
        ElementSpec { id: el::EBML_READ_VERSION, data: uint_bytes(h.ebml_read_version) },
        ElementSpec { id: el::EBML_MAX_ID_LENGTH, data: uint_bytes(h.ebml_max_id_length) },
        ElementSpec { id: el::EBML_MAX_SIZE_LENGTH, data: uint_bytes(h.ebml_max_size_length) },
        ElementSpec { id: el::DOC_TYPE, data: encode_utf8(h.doc_type) },
        ElementSpec { id: el::DOC_TYPE_VERSION, data: uint_bytes(h.doc_type_version) },
        ElementSpec { id: el::DOC_TYPE_READ_VERSION, data: uint_bytes(h.doc_type_read_version) },
    ]
}

/// The `EBML` element that spells the header `h`.
pub open spec fn header_element(h: HeaderSpec) -> ElementSpec {
    ElementSpec { id: el::EBML, data: elements_bytes(header_children(h)) }
}

/// The bytes that spell the header `h`.
pub open spec fn header_bytes(h: HeaderSpec) -> Seq<u8> {
    element_bytes(header_element(h))
}

/// Whether the header `h` can be written: the size of its document type, and
/// with it that of the whole header, fits a variable-length integer.
pub open spec fn header_writable(h: HeaderSpec) -> bool {
    encode_utf8(h.doc_type).len() < vint_bound(8) && elements_bytes(header_children(h)).len()
        < vint_bound(8)
}

/// Whether the children `children` give the number `value` for the field
/// `id`: the last child `id` holds the bytes that spell `value` in big-endian
/// order, on any number of bytes up to eight; or there is no such child and
/// `value` is zero.
pub open spec fn spec_gives_uint(children: Seq<ElementSpec>, id: u64, value: u64) -> bool {
    match spec_find_last(children, id) {
        Some(element) => element.data.len() <= 8 && value < pow256(element.data.len() as int)
            && element.data == be_bytes(value as int, element.data.len()),
        None => value == 0,
    }
}

/// Whether the children `children` give the text `text` for the field `id`:
/// the last child `id` holds `text` in UTF-8; or there is no such child and
/// `text` is empty.
pub open spec fn spec_gives_text(children: Seq<ElementSpec>, id: u64, text: Seq<char>) -> bool {
    match spec_find_last(children, id) {
        Some(element) => element.data == encode_utf8(text),
        None => text.len() == 0,
    }
}

/// Whether the children `children` spell the header `h`: they give each of
/// its fields, in whatever order they stand, on whatever number of bytes
/// each number is written, and whatever other children stand among them.
pub open spec fn spec_spells_header(children: Seq<ElementSpec>, h: HeaderSpec) -> bool {
    &&& spec_gives_uint(children, el::EBML_VERSION, h.ebml_version)
    &&& spec_gives_uint(children, el::EBML_READ_VERSION, h.ebml_read_version)
    &&& spec_gives_uint(children, el::EBML_MAX_ID_LENGTH, h.ebml_max_id_length)
    &&& spec_gives_uint(children, el::EBML_MAX_SIZE_LENGTH, h.ebml_max_size_length)
    &&& spec_gives_text(children, el::DOC_TYPE, h.doc_type)
    &&& spec_gives_uint(children, el::DOC_TYPE_VERSION, h.doc_type_version)
    &&& spec_gives_uint(children, el::DOC_TYPE_READ_VERSION, h.doc_type_read_version)
}

/// The fields of children that spell a header are the fields of the header.
pub proof fn lemma_spelled_fields(children: Seq<ElementSpec>, h: HeaderSpec)
    requires
        spec_spells_header(children, h),
    ensures
        spec_header(children) == Ok::<_, Error>(h),
{
    lemma_given_uint(children, el::EBML_VERSION, h.ebml_version);
    lemma_given_uint(children, el::EBML_READ_VERSION, h.ebml_read_version);
    lemma_given_uint(children, el::EBML_MAX_ID_LENGTH, h.ebml_max_id_length);
    lemma_given_uint(children, el::EBML_MAX_SIZE_LENGTH, h.ebml_max_size_length);
    lemma_given_uint(children, el::DOC_TYPE_VERSION, h.doc_type_version);
    lemma_given_uint(children, el::DOC_TYPE_READ_VERSION, h.doc_type_read_version);
    encode_utf8_valid_utf8(h.doc_type);
    encode_utf8_decode_utf8(h.doc_type);
    assert(h.doc_type.len() == 0 ==> h.doc_type =~= Seq::<char>::empty());
}

/// A number that children give is the number that is read from them.
pub proof fn lemma_given_uint(children: Seq<ElementSpec>, id: u64, value: u64)
    requires
        spec_gives_uint(children, id, value),
    ensures
        crate::ebml::element::spec_last_uint(children, id, 0) == Ok::<_, Error>(value),
{
    match spec_find_last(children, id) {
        Some(element) => {
            lemma_find_last_id(children, id, children.len() as int);
            lemma_be_bytes_value(value as int, element.data.len());
        },
        None => {},
    }
}

/// The element that is found for an identifier has that identifier.
pub proof fn lemma_find_last_id(children: Seq<ElementSpec>, id: u64, upto: int)
    ensures
        spec_find_last_upto(children, id, upto) matches Some(element) ==> element.id == id,
    decreases upto,
{
    if 0 < upto <= children.len() && children[upto - 1].id != id {
        lemma_find_last_id(children, id, upto - 1);
    }
}

/// Reading a header gives the header back, field for field, however it is
/// laid out: where the bytes `s` start with an `EBML` element whose children
/// spell the header `h`, in any order and on any widths, reading the header
/// from `s` gives `h` and takes exactly the bytes of that element.
pub proof fn lemma_header_any_layout(
    s: Seq<u8>,
    children: Seq<ElementSpec>,
    n: int,
    h: HeaderSpec,
)
    requires
        spec_read_master(s, el::EBML) == Ok::<_, Error>((children, n)),
        spec_spells_header(children, h),
    ensures
        spec_parse_header(s) == Ok::<_, Error>((h, n)),
{
    lemma_spelled_fields(children, h);
}

/// Reading the bytes of an `EBML` element whose children spell a header gives
/// the header back, whatever children they are and whatever follows the
/// element.
pub proof fn lemma_header_any_children(children: Seq<ElementSpec>, h: HeaderSpec, rest: Seq<u8>)
    requires
        forall|i: int| 0 <= i < children.len() ==> spec_writable(#[trigger] children[i]),
        elements_bytes(children).len() < vint_bound(8),
        spec_spells_header(children, h),
    ensures
        spec_parse_header(
            element_bytes(ElementSpec { id: el::EBML, data: elements_bytes(children) }) + rest,
        ) == Ok::<_, Error>(
            (
                h,
                element_bytes(
                    ElementSpec { id: el::EBML, data: elements_bytes(children) },
                ).len() as int,
            ),
        ),
{
    let element = ElementSpec { id: el::EBML, data: elements_bytes(children) };
    lemma_children_round_trip(children);
    lemma_element_round_trip(element, rest);
    lemma_header_any_layout(
        element_bytes(element) + rest,
        children,
        element_bytes(element).len() as int,
        h,
    );
}

/// The children of the plain layout of a header spell the header.
pub proof fn lemma_plain_layout_spells(h: HeaderSpec)
    ensures
        spec_spells_header(header_children(h), h),
{
    reveal_with_fuel(spec_find_last_upto, 8);
    lemma_be_bytes_len(h.ebml_version as int, 8);
    lemma_be_bytes_len(h.ebml_read_version as int, 8);
    lemma_be_bytes_len(h.ebml_max_id_length as int, 8);
    lemma_be_bytes_len(h.ebml_max_size_length as int, 8);
    lemma_be_bytes_len(h.doc_type_version as int, 8);
    lemma_be_bytes_len(h.doc_type_read_version as int, 8);
    assert(header_children(h).len() == 7);
}

/// Reading the bytes of the plain layout of a header gives the header back,
/// field for field, and takes exactly those bytes, whatever follows them.
pub proof fn lemma_header_round_trip(h: HeaderSpec, rest: Seq<u8>)
    requires
        header_writable(h),
    ensures
        spec_parse_header(header_bytes(h) + rest) == Ok::<_, Error>(
            (h, header_bytes(h).len() as int),
        ),
{
    lemma_plain_layout_spells(h);
    lemma_be_bytes_len(h.ebml_version as int, 8);
    lemma_be_bytes_len(h.ebml_read_version as int, 8);
    lemma_be_bytes_len(h.ebml_max_id_length as int, 8);
    lemma_be_bytes_len(h.ebml_max_size_length as int, 8);
    lemma_be_bytes_len(h.doc_type_version as int, 8);
    lemma_be_bytes_len(h.doc_type_read_version as int, 8);
    let elems = header_children(h);
    assert forall|i: int| 0 <= i < elems.len() implies spec_writable(#[trigger] elems[i]) by {}
    lemma_header_any_children(elems, h, rest);
}

} // verus!
