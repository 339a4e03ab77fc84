//! Elements: an identifier, a size and as many bytes of content.
//!
//! The header of an element is two variable-length integers: the identifier,
//! which keeps its length marker, and the size of the content, which does not.
//! The content of a master element is a run of elements, its children.

use vstd::prelude::*;
use vstd::slice::{slice_subrange, slice_to_vec};
use vstd::utf8::{decode_utf8, valid_utf8};
use crate::error::{Detail, Error};
use crate::ebml::vint::{
    be_value,
    decode_vint,
    id_bytes,
    lemma_be_value_bound,
    lemma_id_round_trip,
    lemma_vint_round_trip,
    pow256,
    spec_read_vint,
    vint_bound,
    vint_bytes,
};

verus! {

/// An element as the format defines it: its identifier and its content.
pub struct ElementSpec {
    pub id: u64,
    pub data: Seq<u8>,
}

/// A floating-point value as it is stored: the bits of an IEEE 754 number,
/// double precision where `double` is set and single precision otherwise.
#[derive(Clone, Copy, Debug, PartialEq, Eq, Structural)]
pub struct Float {
    pub bits: u64,
    pub double: bool,
}

/// Reading the header of one element from the start of `s`: the identifier,
/// the size of the content and the length of the header.
pub open spec fn spec_read_element_info(s: Seq<u8>) -> Result<(u64, u64, usize), Error> {
    match spec_read_vint(s, false) {
        Err(e) => Err(e),
        Ok((id, id_len)) => match spec_read_vint(s.skip(id_len as int), true) {
            Err(e) => Err(e),
            Ok((size, size_len)) => Ok((id, size, (id_len + size_len) as usize)),
        },
    }
}

/// Reading one whole element from the start of `s`: the element and the
/// number of bytes it takes. Content that `s` does not hold in full is an
/// `UnexpectedEof`.
pub open spec fn spec_read_element(s: Seq<u8>) -> Result<(ElementSpec, int), Error> {
    match spec_read_element_info(s) {
        Err(e) => Err(e),
        Ok((id, size, header)) => if size > s.len() - header {
            Err(Error::UnexpectedEof)
        } else {
            Ok(
                (
                    ElementSpec { id: id, data: s.subrange(header as int, header + size) },
                    header + size,
                ),
            )
        },
    }
}

/// `head` followed by what `tail` holds, or the error that `tail` is.
pub open spec fn prepend(head: Seq<ElementSpec>, tail: Result<Seq<ElementSpec>, Error>) -> Result<
    Seq<ElementSpec>,
    Error,
> {
    match tail {
        Ok(rest) => Ok(head + rest),
        Err(e) => Err(e),
    }
}

/// Splitting `s` into the elements that it is made of, in order. The split
/// fails with the error of the first element that cannot be read in full.
pub open spec fn spec_children(s: Seq<u8>) -> Result<Seq<ElementSpec>, Error>
    decreases s.len(),
    via lemma_children_decreases
{
    if s.len() == 0 {
        Ok(Seq::empty())
    } else {
        match spec_read_element(s) {
            Err(e) => Err(e),
            Ok((element, len)) => prepend(seq![element], spec_children(s.skip(len))),
        }
    }
}

#[via_fn]
proof fn lemma_children_decreases(s: Seq<u8>) {
    lemma_read_element_len(s);
}

/// The first element of `elems` at or after index `from` that has the
/// identifier `id`.
pub open spec fn spec_find_from(elems: Seq<ElementSpec>, id: u64, from: int) -> Option<ElementSpec>
    decreases elems.len() - from,
{
    if from < 0 || from >= elems.len() {
        None
    } else if elems[from].id == id {
        Some(elems[from])
    } else {
        spec_find_from(elems, id, from + 1)
    }
}

/// The first element of `elems` that has the identifier `id`.
pub open spec fn spec_find(elems: Seq<ElementSpec>, id: u64) -> Option<ElementSpec> {
    spec_find_from(elems, id, 0)
}

/// Content read as an unsigned integer: the big-endian value of at most eight
/// bytes; no byte at all is zero.
pub open spec fn spec_uint(data: Seq<u8>) -> Result<u64, Detail> {
    if data.len() <= 8 {
        Ok(be_value(data) as u64)
    } else {
        Err(Detail::IntegerTooWide)
    }
}

/// Content read as a signed integer: the two's complement big-endian value of
/// at most eight bytes; no byte at all is zero.
pub open spec fn spec_int(data: Seq<u8>) -> Result<i64, Detail> {
    if data.len() > 8 {
        Err(Detail::IntegerTooWide)
    } else if data.len() > 0 && data[0] >= 0x80 {
        Ok((be_value(data) - pow256(data.len() as int)) as i64)
    } else {
        Ok(be_value(data) as i64)
    }
}

/// Content read as text: the characters that the bytes spell in UTF-8.
pub open spec fn spec_utf8(data: Seq<u8>) -> Result<Seq<char>, Detail> {
    if valid_utf8(data) {
        Ok(decode_utf8(data))
    } else {
        Err(Detail::NotUtf8)
    }
}

/// Content read as a floating-point value: four bytes are the bits of a
/// single, eight bytes those of a double, and no byte at all is a double zero.
pub open spec fn spec_float(data: Seq<u8>) -> Result<Float, Detail> {
    if data.len() == 0 {
        Ok(Float { bits: 0, double: true })
    } else if data.len() == 4 {
        Ok(Float { bits: be_value(data) as u64, double: false })
    } else if data.len() == 8 {
        Ok(Float { bits: be_value(data) as u64, double: true })
    } else {
        Err(Detail::FloatWidth)
    }
}

/// A failed reading of the content of the element `id`, as an error of the
/// stream.
pub open spec fn spec_typed<T>(id: u64, value: Result<T, Detail>) -> Result<T, Error> {
    match value {
        Ok(v) => Ok(v),
        Err(detail) => Err(Error::InvalidElementValue { id: id, detail: detail }),
    }
}

/// The unsigned integer in the element `id` among `elems`, which must be
/// there.
pub open spec fn spec_required_uint(elems: Seq<ElementSpec>, id: u64) -> Result<u64, Error> {
    match spec_find(elems, id) {
        Some(element) => spec_typed(id, spec_uint(element.data)),
        None => Err(Error::ElementNotFound(id)),
    }
}

/// The text in the element `id` among `elems`, which must be there.
pub open spec fn spec_required_utf8(elems: Seq<ElementSpec>, id: u64) -> Result<Seq<char>, Error> {
    match spec_find(elems, id) {
        Some(element) => spec_typed(id, spec_utf8(element.data)),
        None => Err(Error::ElementNotFound(id)),
    }
}

/// The children of the master element `id` among `elems`, which must be
/// there.
pub open spec fn spec_required_children(elems: Seq<ElementSpec>, id: u64) -> Result<
    Seq<ElementSpec>,
    Error,
> {
    match spec_find(elems, id) {
        Some(element) => spec_children(element.data),
        None => Err(Error::ElementNotFound(id)),
    }
}

/// The unsigned integer in the element `id` among `elems`, or `default`
/// where there is no such element.
pub open spec fn spec_optional_uint(elems: Seq<ElementSpec>, id: u64, default: u64) -> Result<
    u64,
    Error,
> {
    match spec_find(elems, id) {
        Some(element) => spec_typed(id, spec_uint(element.data)),
        None => Ok(default),
    }
}

/// The floating-point value in the element `id` among `elems`, or `default`
/// where there is no such element.
pub open spec fn spec_optional_float(elems: Seq<ElementSpec>, id: u64, default: Float) -> Result<
    Float,
    Error,
> {
    match spec_find(elems, id) {
        Some(element) => spec_typed(id, spec_float(element.data)),
        None => Ok(default),
    }
}

/// The text in the element `id` among `elems`, if there is such an element.
pub open spec fn spec_optional_utf8(elems: Seq<ElementSpec>, id: u64) -> Result<
    Option<Seq<char>>,
    Error,
> {
    match spec_find(elems, id) {
        Some(element) => match spec_utf8(element.data) {
            Ok(text) => Ok(Some(text)),
            Err(detail) => Err(Error::InvalidElementValue { id: id, detail: detail }),
        },
        None => Ok(None),
    }
}

/// The content of the element `id` among `elems`, if there is such an
/// element.
pub open spec fn spec_optional_binary(elems: Seq<ElementSpec>, id: u64) -> Option<Seq<u8>> {
    match spec_find(elems, id) {
        Some(element) => Some(element.data),
        None => None,
    }
}

/// The last element among the first `upto` of `elems` that has the
/// identifier `id`.
pub open spec fn spec_find_last_upto(elems: Seq<ElementSpec>, id: u64, upto: int) -> Option<
    ElementSpec,
>
    decreases upto,
{
    if upto <= 0 || upto > elems.len() {
        None
    } else if elems[upto - 1].id == id {
        Some(elems[upto - 1])
    } else {
        spec_find_last_upto(elems, id, upto - 1)
    }
}

/// The last element of `elems` that has the identifier `id`.
pub open spec fn spec_find_last(elems: Seq<ElementSpec>, id: u64) -> Option<ElementSpec> {
    spec_find_last_upto(elems, id, elems.len() as int)
}

/// The unsigned integer in the last element `id` among `elems`, or `default`
/// where there is no such element.
pub open spec fn spec_last_uint(elems: Seq<ElementSpec>, id: u64, default: u64) -> Result<
    u64,
    Error,
> {
    match spec_find_last(elems, id) {
        Some(element) => spec_typed(id, spec_uint(element.data)),
        None => Ok(default),
    }
}

/// The signed integer in the last element `id` among `elems`, or `default`
/// where there is no such element.
pub open spec fn spec_last_sint(elems: Seq<ElementSpec>, id: u64, default: i64) -> Result<
    i64,
    Error,
> {
    match spec_find_last(elems, id) {
        Some(element) => spec_typed(id, spec_int(element.data)),
        None => Ok(default),
    }
}

/// The floating-point value in the last element `id` among `elems`, or
/// `default` where there is no such element.
pub open spec fn spec_last_float(elems: Seq<ElementSpec>, id: u64, default: Float) -> Result<
    Float,
    Error,
> {
    match spec_find_last(elems, id) {
        Some(element) => spec_typed(id, spec_float(element.data)),
        None => Ok(default),
    }
}

/// The text in the last element `id` among `elems`, or `default` where there
/// is no such element.
pub open spec fn spec_last_utf8(elems: Seq<ElementSpec>, id: u64, default: Seq<char>) -> Result<
    Seq<char>,
    Error,
> {
    match spec_find_last(elems, id) {
        Some(element) => spec_typed(id, spec_utf8(element.data)),
        None => Ok(default),
    }
}

/// The content of the last element `id` among `elems`, or no byte where
/// there is no such element.
pub open spec fn spec_last_binary(elems: Seq<ElementSpec>, id: u64) -> Seq<u8> {
    match spec_find_last(elems, id) {
        Some(element) => element.data,
        None => Seq::empty(),
    }
}

/// The contents of the elements `id` among `elems` from index `from` on, in
/// order.
pub open spec fn spec_all_binary(elems: Seq<ElementSpec>, id: u64, from: int) -> Seq<Seq<u8>>
    decreases elems.len() - from,
{
    if from < 0 || from >= elems.len() {
        Seq::empty()
    } else if elems[from].id == id {
        seq![elems[from].data] + spec_all_binary(elems, id, from + 1)
    } else {
        spec_all_binary(elems, id, from + 1)
    }
}

/// The unsigned integers in the elements `id` among `elems` from index
/// `from` on, in order, or the error of the first of them that holds none.
pub open spec fn spec_all_uint(elems: Seq<ElementSpec>, id: u64, from: int) -> Result<
    Seq<u64>,
    Error,
>
    decreases elems.len() - from,
{
    if from < 0 || from >= elems.len() {
        Ok(Seq::empty())
    } else if elems[from].id == id {
        match spec_typed(id, spec_uint(elems[from].data)) {
            Err(e) => Err(e),
            Ok(value) => match spec_all_uint(elems, id, from + 1) {
                Err(e) => Err(e),
                Ok(rest) => Ok(seq![value] + rest),
            },
        }
    } else {
        spec_all_uint(elems, id, from + 1)
    }
}

/// The contents of the byte strings `items`.
pub open spec fn binaries_view(items: Seq<Vec<u8>>) -> Seq<Seq<u8>> {
    Seq::new(items.len(), |i: int| items[i]@)
}

/// The content of an element, not yet read as any type.
#[derive(Debug)]
pub struct ElementContent {
    data: Vec<u8>,
}

/// An element that was read: its identifier and its content.
#[derive(Debug)]
pub struct Element {
    id: u64,
    content: ElementContent,
}

/// The children of a master element, in the order in which they stand.
#[derive(Debug)]
pub struct ElementArray {
    elems: Vec<Element>,
}

impl View for ElementContent {
    type V = Seq<u8>;

    closed spec fn view(&self) -> Seq<u8> {
        self.data@
    }
}

impl View for Element {
    type V = ElementSpec;

    closed spec fn view(&self) -> ElementSpec {
        ElementSpec { id: self.id, data: self.content@ }
    }
}

impl View for ElementArray {
    type V = Seq<ElementSpec>;

    closed spec fn view(&self) -> Seq<ElementSpec> {
        Seq::new(self.elems@.len(), |i: int| self.elems@[i]@)
    }
}

/// `String::from_utf8` of the standard library: the text that `bytes` spell
/// in UTF-8, and nothing where they are no valid UTF-8.
#[verifier::external_body]
fn string_from_utf8(bytes: Vec<u8>) -> (r: Option<String>)
    ensures
        r.is_some() == valid_utf8(bytes@),
        r matches Some(text) ==> text@ == decode_utf8(bytes@),
{
    match String::from_utf8(bytes) {
        Ok(text) => Some(text),
        Err(_) => None,
    }
}

/// The big-endian value of the bytes of `data` from `start` to `end`, eight at
/// most.
pub(crate) fn decode_be(data: &[u8], start: usize, end: usize) -> (value: u64)
    requires
        start <= end <= data.len(),
        end - start <= 8,
    ensures
        value == be_value(data@.subrange(start as int, end as int)),
{
    let ghost bytes = data@.subrange(start as int, end as int);
    let mut value: u64 = 0;
    let mut i: usize = start;
    proof {
        assert(bytes.take(0) =~= Seq::<u8>::empty());
    }
    while i < end
        invariant
            start <= i <= end <= data.len(),
            end - start <= 8,
            bytes == data@.subrange(start as int, end as int),
            value == be_value(bytes.take(i - start)),
            value < pow256(i - start),
        decreases end - i,
    {
        let b: u8 = data[i];
        proof {
            assert(bytes.take(i - start + 1).drop_last() =~= bytes.take(i - start));
            assert(bytes.take(i - start + 1).last() == b);
        }
        value = value * 256 + b as u64;
        i = i + 1;
    }
    proof {
        assert(bytes.take(end - start) =~= bytes);
    }
    value
}

/// Read the header of the element that starts at `start` in `data` and ends
/// before `end`.
pub(crate) fn decode_element_info(data: &[u8], start: usize, end: usize) -> (r: Result<
    (u64, u64, usize),
    Error,
>)
    requires
        start <= end <= data.len(),
    ensures
        r == spec_read_element_info(data@.subrange(start as int, end as int)),
        r matches Ok((_, _, header)) ==> 2 <= header <= end - start,
{
    let ghost s = data@.subrange(start as int, end as int);
    match decode_vint(data, start, end, false) {
        Err(e) => Err(e),
        Ok((id, id_len)) => {
            proof {
                assert(s.skip(id_len as int) =~= data@.subrange(start + id_len, end as int));
            }
            match decode_vint(data, start + id_len, end, true) {
                Err(e) => Err(e),
                Ok((size, size_len)) => Ok((id, size, id_len + size_len)),
            }
        },
    }
}

/// Read the element that starts at `start` in `data` and ends before `end`.
pub(crate) fn decode_element(data: &[u8], start: usize, end: usize) -> (r: Result<
    (Element, usize),
    Error,
>)
    requires
        start <= end <= data.len(),
    ensures
        match r {
            Ok((element, len)) => spec_read_element(data@.subrange(start as int, end as int)) == Ok::<
                _,
                Error,
            >((element@, len as int)) && 2 <= len <= end - start,
            Err(e) => spec_read_element(data@.subrange(start as int, end as int)) == Err::<
                (ElementSpec, int),
                _,
            >(e),
        },
{
    let ghost s = data@.subrange(start as int, end as int);
    match decode_element_info(data, start, end) {
        Err(e) => Err(e),
        Ok((id, size, header)) => {
            if size > (end - start - header) as u64 {
                Err(Error::UnexpectedEof)
            } else {
                let from: usize = start + header;
                let len: usize = size as usize;
                let bytes = slice_to_vec(slice_subrange(data, from, from + len));
                proof {
                    assert(bytes@ =~= s.subrange(header as int, header + size));
                }
                Ok((Element { id: id, content: ElementContent { data: bytes } }, header + len))
            }
        },
    }
}

/// Split the bytes of `data` from `start` to `end` into elements.
pub(crate) fn decode_children(data: &[u8], start: usize, end: usize) -> (r: Result<
    ElementArray,
    Error,
>)
    requires
        start <= end <= data.len(),
    ensures
        match r {
            Ok(array) => spec_children(data@.subrange(start as int, end as int)) == Ok::<_, Error>(
                array@,
            ),
            Err(e) => spec_children(data@.subrange(start as int, end as int)) == Err::<
                Seq<ElementSpec>,
                _,
            >(e),
        },
{
    let ghost whole = data@.subrange(start as int, end as int);
    let mut elems: Vec<Element> = Vec::new();
    let mut pos: usize = start;
    proof {
        assert(Seq::new(elems@.len(), |i: int| elems@[i]@) =~= Seq::<ElementSpec>::empty());
        assert(Seq::<ElementSpec>::empty() + Seq::<ElementSpec>::empty() =~= Seq::<
            ElementSpec,
        >::empty());
        lemma_prepend_empty(spec_children(whole));
    }
    while pos < end
        invariant
            start <= pos <= end <= data.len(),
            whole == data@.subrange(start as int, end as int),
            spec_children(whole) == prepend(
                Seq::new(elems@.len(), |i: int| elems@[i]@),
                spec_children(data@.subrange(pos as int, end as int)),
            ),
        decreases end - pos,
    {
        let ghost rest = data@.subrange(pos as int, end as int);
        let ghost done = Seq::new(elems@.len(), |i: int| elems@[i]@);
        match decode_element(data, pos, end) {
            Err(e) => {
                return Err(e);
            },
            Ok((element, len)) => {
                proof {
                    assert(rest.skip(len as int) =~= data@.subrange(pos + len, end as int));
                    lemma_prepend_assoc(done, seq![element@], spec_children(rest.skip(len as int)));
                }
                elems.push(element);
                proof {
                    assert(Seq::new(elems@.len(), |i: int| elems@[i]@) =~= done + seq![element@]);
                }
                pos = pos + len;
            },
        }
    }
    proof {
        let done = Seq::new(elems@.len(), |i: int| elems@[i]@);
        assert(data@.subrange(pos as int, end as int).len() == 0);
        assert(done + Seq::<ElementSpec>::empty() =~= done);
    }
    Ok(ElementArray { elems: elems })
}

/// The header of an element takes at least two bytes, and no more than the
/// input holds.
pub proof fn lemma_read_element_info_len(s: Seq<u8>)
    ensures
        spec_read_element_info(s) matches Ok((_, _, header)) ==> 2 <= header <= 16 && header
            <= s.len(),
{
}

/// An element takes at least the two bytes of its header, and no more than
/// the input holds; its content is what follows the header.
pub proof fn lemma_read_element_len(s: Seq<u8>)
    ensures
        match spec_read_element(s) {
            Ok((element, len)) => 2 <= len <= s.len() && spec_read_element_info(s) == Ok::<
                _,
                Error,
            >((element.id, element.data.len() as u64, (len - element.data.len()) as usize)),
            Err(_) => true,
        },
{
    lemma_read_element_info_len(s);
}

/// The width in bytes of the identifier `id`, or 0 where `id` is none: an
/// identifier holds its length marker, and no bit above it.
pub open spec fn id_width(id: u64) -> int {
    if 0x80 <= id < 0x100 {
        1
    } else if 0x4000 <= id < 0x8000 {
        2
    } else if 0x20_0000 <= id < 0x40_0000 {
        3
    } else if 0x1000_0000 <= id < 0x2000_0000 {
        4
    } else if 0x08_0000_0000 <= id < 0x10_0000_0000 {
        5
    } else if 0x0400_0000_0000 <= id < 0x0800_0000_0000 {
        6
    } else if 0x02_0000_0000_0000 <= id < 0x04_0000_0000_0000 {
        7
    } else if 0x0100_0000_0000_0000 <= id < 0x0200_0000_0000_0000 {
        8
    } else {
        0
    }
}

/// Whether `element` can be written: its identifier is one, and the size of
/// its content fits a variable-length integer of eight bytes.
pub open spec fn spec_writable(element: ElementSpec) -> bool {
    id_width(element.id) >= 1 && element.data.len() < vint_bound(8)
}

/// The element `element` as it stands in a stream: its identifier, the size
/// of its content on eight bytes, and its content.
pub open spec fn element_bytes(element: ElementSpec) -> Seq<u8> {
    id_bytes(element.id as int, id_width(element.id)) + vint_bytes(element.data.len() as int, 8)
        + element.data
}

/// The elements `elems` as they stand in a stream, one after the other.
pub open spec fn elements_bytes(elems: Seq<ElementSpec>) -> Seq<u8>
    decreases elems.len(),
{
    if elems.len() == 0 {
        Seq::empty()
    } else {
        element_bytes(elems[0]) + elements_bytes(elems.skip(1))
    }
}

/// Reading the bytes of an element gives the element back, and the number
/// of its bytes.
pub proof fn lemma_element_round_trip(element: ElementSpec, rest: Seq<u8>)
    requires
        spec_writable(element),
    ensures
        spec_read_element(element_bytes(element) + rest) == Ok::<_, Error>(
            (element, element_bytes(element).len() as int),
        ),
        element_bytes(element).len() == id_width(element.id) + 8 + element.data.len(),
{
    let width = id_width(element.id);
    let id = id_bytes(element.id as int, width);
    let size = vint_bytes(element.data.len() as int, 8);
    let s = element_bytes(element) + rest;
    lemma_id_round_trip(element.id as int, width, size + element.data + rest);
    assert(id + (size + element.data + rest) =~= s);
    lemma_vint_round_trip(element.data.len() as int, 8, element.data + rest);
    assert(s.skip(width) =~= size + (element.data + rest));
    assert(s.subrange(width + 8, width + 8 + element.data.len()) =~= element.data);
}

/// Splitting the bytes of some elements gives the elements back.
pub proof fn lemma_children_round_trip(elems: Seq<ElementSpec>)
    requires
        forall|i: int| 0 <= i < elems.len() ==> spec_writable(#[trigger] elems[i]),
    ensures
        spec_children(elements_bytes(elems)) == Ok::<_, Error>(elems),
    decreases elems.len(),
{
    if elems.len() == 0 {
        assert(elems =~= Seq::<ElementSpec>::empty());
    } else {
        let first = elems[0];
        let tail = elems.skip(1);
        let s = elements_bytes(elems);
        assert forall|i: int| 0 <= i < tail.len() implies spec_writable(#[trigger] tail[i]) by {
            assert(tail[i] == elems[i + 1]);
        }
        lemma_element_round_trip(first, elements_bytes(tail));
        lemma_children_round_trip(tail);
        assert(s.skip(element_bytes(first).len() as int) =~= elements_bytes(tail));
        assert(seq![first] + tail =~= elems);
    }
}

/// Prepending nothing changes nothing.
pub proof fn lemma_prepend_empty(tail: Result<Seq<ElementSpec>, Error>)
    ensures
        prepend(Seq::empty(), tail) == tail,
{
    match tail {
        Ok(rest) => {
            assert(Seq::<ElementSpec>::empty() + rest =~= rest);
        },
        Err(_) => {},
    }
}

/// Prepending in two steps is prepending both at once.
pub proof fn lemma_prepend_assoc(
    a: Seq<ElementSpec>,
    b: Seq<ElementSpec>,
    tail: Result<Seq<ElementSpec>, Error>,
)
    ensures
        prepend(a, prepend(b, tail)) == prepend(a + b, tail),
{
    match tail {
        Ok(rest) => {
            assert(a + (b + rest) =~= (a + b) + rest);
        },
        Err(_) => {},
    }
}

impl ElementContent {
    /// Content made of `data`.
    pub fn new(data: Vec<u8>) -> (content: ElementContent)
        ensures
            content@ == data@,
    {
        ElementContent { data: data }
    }

    /// The number of bytes of the content.
    pub fn len(&self) -> (n: usize)
        ensures
            n == self@.len(),
    {
        self.data.len()
    }

    /// The content as it stands.
    pub fn into_binary(self) -> (bytes: Vec<u8>)
        ensures
            bytes@ == self@,
    {
        self.data
    }

    /// The content read as text.
    pub fn into_utf8(self) -> (r: Result<String, Detail>)
        ensures
            match r {
                Ok(text) => spec_utf8(self@) == Ok::<_, Detail>(text@),
                Err(detail) => spec_utf8(self@) == Err::<Seq<char>, _>(detail),
            },
    {
        match string_from_utf8(self.data) {
            Some(text) => Ok(text),
            None => Err(Detail::NotUtf8),
        }
    }

    /// The content read as an unsigned integer.
    pub fn into_uint(&self) -> (r: Result<u64, Detail>)
        ensures
            r == spec_uint(self@),
    {
        let n: usize = self.data.len();
        if n > 8 {
            Err(Detail::IntegerTooWide)
        } else {
            let value: u64 = decode_be(self.data.as_slice(), 0, n);
            proof {
                assert(self.data@.subrange(0, n as int) =~= self.data@);
            }
            Ok(value)
        }
    }

    /// The content read as a signed integer.
    pub fn into_int(&self) -> (r: Result<i64, Detail>)
        ensures
            r == spec_int(self@),
    {
        let n: usize = self.data.len();
        if n > 8 {
            Err(Detail::IntegerTooWide)
        } else {
            let value: u64 = decode_be(self.data.as_slice(), 0, n);
            proof {
                assert(self.data@.subrange(0, n as int) =~= self.data@);
                lemma_be_value_bound(self.data@);
                if n > 0 {
                    lemma_be_value_sign(self.data@);
                }
            }
            if n > 0 && self.data[0] >= 0x80 {
                Ok(signed_of(value, n))
            } else {
                Ok(value as i64)
            }
        }
    }

    /// The content read as a floating-point value.
    pub fn into_float(&self) -> (r: Result<Float, Detail>)
        ensures
            r == spec_float(self@),
    {
        let n: usize = self.data.len();
        if n == 0 {
            Ok(Float { bits: 0, double: true })
        } else if n == 4 || n == 8 {
            let value: u64 = decode_be(self.data.as_slice(), 0, n);
            proof {
                assert(self.data@.subrange(0, n as int) =~= self.data@);
            }
            Ok(Float { bits: value, double: n == 8 })
        } else {
            Err(Detail::FloatWidth)
        }
    }

    /// The children of a master element.
    pub fn children(&self) -> (r: Result<ElementArray, Error>)
        ensures
            match r {
                Ok(array) => spec_children(self@) == Ok::<_, Error>(array@),
                Err(e) => spec_children(self@) == Err::<Seq<ElementSpec>, _>(e),
            },
    {
        let n: usize = self.data.len();
        proof {
            assert(self.data@.subrange(0, n as int) =~= self.data@);
        }
        decode_children(self.data.as_slice(), 0, n)
    }
}

/// The sign of a big-endian number is in its first byte: the number is in the
/// upper half of its range exactly where the first byte is.
pub proof fn lemma_be_value_sign(bytes: Seq<u8>)
    requires
        0 < bytes.len() <= 8,
    ensures
        bytes[0] >= 0x80 <==> 2 * be_value(bytes) >= pow256(bytes.len() as int),
    decreases bytes.len(),
{
    if bytes.len() == 1 {
        assert(bytes.drop_last() =~= Seq::<u8>::empty());
        assert(be_value(bytes.drop_last()) == 0);
    } else {
        lemma_be_value_sign(bytes.drop_last());
        lemma_be_value_bound(bytes.drop_last());
        assert(bytes.drop_last()[0] == bytes[0]);
    }
}

/// The number that the `n` bytes of value `value`, the first of them 0x80 or
/// more, spell in two's complement.
fn signed_of(value: u64, n: usize) -> (r: i64)
    requires
        1 <= n <= 8,
        value < pow256(n as int),
        2 * value >= pow256(n as int),
    ensures
        r == value - pow256(n as int),
{
    let bound: u64 = if n == 1 {
        0x100
    } else if n == 2 {
        0x1_0000
    } else if n == 3 {
        0x100_0000
    } else if n == 4 {
        0x1_0000_0000
    } else if n == 5 {
        0x100_0000_0000
    } else if n == 6 {
        0x1_0000_0000_0000
    } else if n == 7 {
        0x100_0000_0000_0000
    } else {
        0
    };
    if n == 8 {
        let low: u64 = value - 0x8000_0000_0000_0000;
        (low as i64) - 0x4000_0000_0000_0000 - 0x4000_0000_0000_0000
    } else {
        let gap: u64 = bound - value;
        -(gap as i64)
    }
}

impl Element {
    /// The identifier of the element.
    pub fn id(&self) -> (id: u64)
        ensures
            id == self@.id,
    {
        self.id
    }

    /// The content of the element.
    pub fn content(&self) -> (content: &ElementContent)
        ensures
            content@ == self@.data,
    {
        &self.content
    }

    /// The content of the element, which is given up for it.
    pub fn into_content(self) -> (content: ElementContent)
        ensures
            content@ == self@.data,
    {
        self.content
    }

    /// A copy of the content as it stands.
    pub fn binary(&self) -> (bytes: Vec<u8>)
        ensures
            bytes@ == self@.data,
    {
        slice_to_vec(self.content.data.as_slice())
    }

    /// The content read as an unsigned integer.
    pub fn uint(&self) -> (r: Result<u64, Error>)
        ensures
            r == spec_typed(self@.id, spec_uint(self@.data)),
    {
        match self.content.into_uint() {
            Ok(value) => Ok(value),
            Err(detail) => Err(Error::InvalidElementValue { id: self.id, detail: detail }),
        }
    }

    /// The content read as a signed integer.
    pub fn sint(&self) -> (r: Result<i64, Error>)
        ensures
            r == spec_typed(self@.id, spec_int(self@.data)),
    {
        match self.content.into_int() {
            Ok(value) => Ok(value),
            Err(detail) => Err(Error::InvalidElementValue { id: self.id, detail: detail }),
        }
    }

    /// The content read as a floating-point value.
    pub fn float(&self) -> (r: Result<Float, Error>)
        ensures
            r == spec_typed(self@.id, spec_float(self@.data)),
    {
        match self.content.into_float() {
            Ok(value) => Ok(value),
            Err(detail) => Err(Error::InvalidElementValue { id: self.id, detail: detail }),
        }
    }

    /// The content read as text.
    pub fn utf8(&self) -> (r: Result<String, Error>)
        ensures
            match r {
                Ok(text) => spec_typed(self@.id, spec_utf8(self@.data)) == Ok::<_, Error>(text@),
                Err(e) => spec_typed(self@.id, spec_utf8(self@.data)) == Err::<Seq<char>, _>(e),
            },
    {
        match string_from_utf8(self.binary()) {
            Some(text) => Ok(text),
            None => Err(Error::InvalidElementValue { id: self.id, detail: Detail::NotUtf8 }),
        }
    }

    /// The children of a master element.
    pub fn children(&self) -> (r: Result<ElementArray, Error>)
        ensures
            match r {
                Ok(array) => spec_children(self@.data) == Ok::<_, Error>(array@),
                Err(e) => spec_children(self@.data) == Err::<Seq<ElementSpec>, _>(e),
            },
    {
        self.content.children()
    }
}

impl ElementArray {
    /// The number of elements.
    pub fn len(&self) -> (n: usize)
        ensures
            n == self@.len(),
    {
        self.elems.len()
    }

    /// The element at index `i`.
    pub fn get(&self, i: usize) -> (r: Option<&Element>)
        ensures
            i < self@.len() ==> r.is_some() && r.unwrap()@ == self@[i as int],
            i >= self@.len() ==> r.is_none(),
    {
        if i < self.elems.len() {
            Some(&self.elems[i])
        } else {
            None
        }
    }

    /// The element at index `i`, which must be one.
    pub fn at(&self, i: usize) -> (element: &Element)
        requires
            i < self@.len(),
        ensures
            element@ == self@[i as int],
    {
        &self.elems[i]
    }

    /// The first element that has the identifier `id`.
    pub fn find(&self, id: u64) -> (r: Option<&Element>)
        ensures
            match r {
                Some(element) => spec_find(self@, id) == Some(element@) && element@.id == id,
                None => spec_find(self@, id).is_none(),
            },
    {
        let mut i: usize = 0;
        while i < self.elems.len()
            invariant
                i <= self.elems@.len(),
                self@.len() == self.elems@.len(),
                spec_find(self@, id) == spec_find_from(self@, id, i as int),
            decreases self.elems@.len() - i,
        {
            if self.elems[i].id == id {
                return Some(&self.elems[i]);
            }
            i = i + 1;
        }
        None
    }

    /// The unsigned integer in the first element `id`, which must be there.
    pub fn required_uint(&self, id: u64) -> (r: Result<u64, Error>)
        ensures
            r == spec_required_uint(self@, id),
    {
        match self.find(id) {
            Some(element) => element.uint(),
            None => Err(Error::ElementNotFound(id)),
        }
    }

    /// The text in the first element `id`, which must be there.
    pub fn required_utf8(&self, id: u64) -> (r: Result<String, Error>)
        ensures
            match r {
                Ok(text) => spec_required_utf8(self@, id) == Ok::<_, Error>(text@),
                Err(e) => spec_required_utf8(self@, id) == Err::<Seq<char>, _>(e),
            },
    {
        match self.find(id) {
            Some(element) => element.utf8(),
            None => Err(Error::ElementNotFound(id)),
        }
    }

    /// The children of the first master element `id`, which must be there.
    pub fn required_children(&self, id: u64) -> (r: Result<ElementArray, Error>)
        ensures
            match r {
                Ok(array) => spec_required_children(self@, id) == Ok::<_, Error>(array@),
                Err(e) => spec_required_children(self@, id) == Err::<Seq<ElementSpec>, _>(e),
            },
    {
        match self.find(id) {
            Some(element) => element.children(),
            None => Err(Error::ElementNotFound(id)),
        }
    }

    /// The unsigned integer in the first element `id`, or `default` where
    /// there is none.
    pub fn optional_uint(&self, id: u64, default: u64) -> (r: Result<u64, Error>)
        ensures
            r == spec_optional_uint(self@, id, default),
    {
        match self.find(id) {
            Some(element) => element.uint(),
            None => Ok(default),
        }
    }

    /// The floating-point value in the first element `id`, or `default`
    /// where there is none.
    pub fn optional_float(&self, id: u64, default: Float) -> (r: Result<Float, Error>)
        ensures
            r == spec_optional_float(self@, id, default),
    {
        match self.find(id) {
            Some(element) => element.float(),
            None => Ok(default),
        }
    }

    /// The text in the first element `id`, if there is one.
    pub fn optional_utf8(&self, id: u64) -> (r: Result<Option<String>, Error>)
        ensures
            match r {
                Ok(Some(text)) => spec_optional_utf8(self@, id) == Ok::<_, Error>(Some(text@)),
                Ok(None) => spec_optional_utf8(self@, id) == Ok::<Option<Seq<char>>, Error>(None),
                Err(e) => spec_optional_utf8(self@, id) == Err::<Option<Seq<char>>, _>(e),
            },
    {
        match self.find(id) {
            Some(element) => match element.utf8() {
                Ok(text) => Ok(Some(text)),
                Err(e) => Err(e),
            },
            None => Ok(None),
        }
    }

    /// The content of the first element `id`, if there is one.
    pub fn optional_binary(&self, id: u64) -> (r: Option<Vec<u8>>)
        ensures
            match r {
                Some(bytes) => spec_optional_binary(self@, id) == Some(bytes@),
                None => spec_optional_binary(self@, id).is_none(),
            },
    {
        match self.find(id) {
            Some(element) => Some(element.binary()),
            None => None,
        }
    }

    /// The last element that has the identifier `id`.
    pub fn find_last(&self, id: u64) -> (r: Option<&Element>)
        ensures
            match r {
                Some(element) => spec_find_last(self@, id) == Some(element@) && element@.id == id,
                None => spec_find_last(self@, id).is_none(),
            },
    {
        let mut i: usize = self.elems.len();
        while i > 0
            invariant
                i <= self.elems@.len(),
                self@.len() == self.elems@.len(),
                spec_find_last(self@, id) == spec_find_last_upto(self@, id, i as int),
            decreases i,
        {
            if self.elems[i - 1].id == id {
                return Some(&self.elems[i - 1]);
            }
            i = i - 1;
        }
        None
    }

    /// The unsigned integer in the last element `id`, or `default` where
    /// there is none.
    pub fn last_uint(&self, id: u64, default: u64) -> (r: Result<u64, Error>)
        ensures
            r == spec_last_uint(self@, id, default),
    {
        match self.find_last(id) {
            Some(element) => element.uint(),
            None => Ok(default),
        }
    }

    /// The signed integer in the last element `id`, or `default` where there
    /// is none.
    pub fn last_sint(&self, id: u64, default: i64) -> (r: Result<i64, Error>)
        ensures
            r == spec_last_sint(self@, id, default),
    {
        match self.find_last(id) {
            Some(element) => element.sint(),
            None => Ok(default),
        }
    }

    /// The floating-point value in the last element `id`, or `default` where
    /// there is none.
    pub fn last_float(&self, id: u64, default: Float) -> (r: Result<Float, Error>)
        ensures
            r == spec_last_float(self@, id, default),
    {
        match self.find_last(id) {
            Some(element) => element.float(),
            None => Ok(default),
        }
    }

    /// The text in the last element `id`, or `default` where there is none.
    pub fn last_utf8(&self, id: u64, default: String) -> (r: Result<String, Error>)
        ensures
            match r {
                Ok(text) => spec_last_utf8(self@, id, default@) == Ok::<_, Error>(text@),
                Err(e) => spec_last_utf8(self@, id, default@) == Err::<Seq<char>, _>(e),
            },
    {
        match self.find_last(id) {
            Some(element) => element.utf8(),
            None => Ok(default),
        }
    }

    /// The content of the last element `id`, or no byte where there is none.
    pub fn last_binary(&self, id: u64) -> (bytes: Vec<u8>)
        ensures
            bytes@ == spec_last_binary(self@, id),
    {
        match self.find_last(id) {
            Some(element) => element.binary(),
            None => Vec::new(),
        }
    }

    /// The contents of all the elements `id`, in order.
    pub fn all_binary(&self, id: u64) -> (items: Vec<Vec<u8>>)
        ensures
            binaries_view(items@) == spec_all_binary(self@, id, 0),
    {
        let mut items: Vec<Vec<u8>> = Vec::new();
        let mut i: usize = 0;
        proof {
            assert(binaries_view(items@) =~= Seq::<Seq<u8>>::empty());
            assert(Seq::<Seq<u8>>::empty() + spec_all_binary(self@, id, 0) =~= spec_all_binary(
                self@,
                id,
                0,
            ));
        }
        while i < self.elems.len()
            invariant
                i <= self.elems@.len(),
                self@.len() == self.elems@.len(),
                spec_all_binary(self@, id, 0) == binaries_view(items@) + spec_all_binary(
                    self@,
                    id,
                    i as int,
                ),
            decreases self.elems@.len() - i,
        {
            if self.elems[i].id == id {
                let ghost done = binaries_view(items@);
                let bytes = self.elems[i].binary();
                proof {
                    assert(done + (seq![bytes@] + spec_all_binary(self@, id, i + 1)) =~= (done
                        + seq![bytes@]) + spec_all_binary(self@, id, i + 1));
                }
                items.push(bytes);
                proof {
                    assert(binaries_view(items@) =~= done + seq![bytes@]);
                }
            }
            i = i + 1;
        }
        proof {
            assert(binaries_view(items@) + Seq::<Seq<u8>>::empty() =~= binaries_view(items@));
        }
        items
    }

    /// The unsigned integers in all the elements `id`, in order.
    pub fn all_uint(&self, id: u64) -> (r: Result<Vec<u64>, Error>)
        ensures
            match r {
                Ok(values) => spec_all_uint(self@, id, 0) == Ok::<_, Error>(values@),
                Err(e) => spec_all_uint(self@, id, 0) == Err::<Seq<u64>, _>(e),
            },
    {
        let mut values: Vec<u64> = Vec::new();
        let mut i: usize = 0;
        proof {
            match spec_all_uint(self@, id, 0) {
                Ok(rest) => {
                    assert(values@ + rest =~= rest);
                },
                Err(_) => {},
            }
        }
        while i < self.elems.len()
            invariant
                i <= self.elems@.len(),
                self@.len() == self.elems@.len(),
                spec_all_uint(self@, id, 0) == (match spec_all_uint(self@, id, i as int) {
                    Ok(rest) => Ok(values@ + rest),
                    Err(e) => Err(e),
                }),
            decreases self.elems@.len() - i,
        {
            if self.elems[i].id == id {
                let ghost done = values@;
                let value: u64 = self.elems[i].uint()?;
                proof {
                    match spec_all_uint(self@, id, i + 1) {
                        Ok(rest) => {
                            assert(done + (seq![value] + rest) =~= done.push(value) + rest);
                        },
                        Err(_) => {},
                    }
                }
                values.push(value);
            }
            i = i + 1;
        }
        proof {
            assert(values@ + Seq::<u64>::empty() =~= values@);
        }
        Ok(values)
    }

    /// The elements, which are given up for them.
    pub fn vec(self) -> (elems: Vec<Element>)
        ensures
            elems@.len() == self@.len(),
            forall|i: int| 0 <= i < elems@.len() ==> elems@[i]@ == self@[i],
    {
        self.elems
    }
}

} // verus!
