//! Variable-length integers.
//!
//! The first byte of a variable-length integer tells its width: the number of
//! zero bits before the first set bit, plus one. That set bit is the length
//! marker. The integer is the big-endian value of its bytes, with or without
//! the marker.
//!
//! The library reads integers and writes none. How an integer is written is
//! described all the same, as a sequence of bytes, and reading what was
//! written is shown to give the integer back.

use vstd::prelude::*;
use crate::error::Error;

verus! {

/// The width in bytes that the first byte of a variable-length integer
/// announces, or 0 where the byte is zero and announces none.
pub open spec fn vint_width(first: u8) -> int {
    if first >= 0x80 {
        1
    } else if first >= 0x40 {
        2
    } else if first >= 0x20 {
        3
    } else if first >= 0x10 {
        4
    } else if first >= 0x08 {
        5
    } else if first >= 0x04 {
        6
    } else if first >= 0x02 {
        7
    } else if first >= 0x01 {
        8
    } else {
        0
    }
}

/// What the length marker of an integer of `width` bytes adds to its first
/// byte.
pub open spec fn vint_marker(width: int) -> int {
    if width == 1 {
        0x80
    } else if width == 2 {
        0x40
    } else if width == 3 {
        0x20
    } else if width == 4 {
        0x10
    } else if width == 5 {
        0x08
    } else if width == 6 {
        0x04
    } else if width == 7 {
        0x02
    } else if width == 8 {
        0x01
    } else {
        0
    }
}

/// 256 to the power `n`, for `n` up to 8.
pub open spec fn pow256(n: int) -> int {
    if n <= 0 {
        1
    } else if n == 1 {
        0x100
    } else if n == 2 {
        0x1_0000
    } else if n == 3 {
        0x100_0000
    } else if n == 4 {
        0x1_0000_0000
    } else if n == 5 {
        0x100_0000_0000
    } else if n == 6 {
        0x1_0000_0000_0000
    } else if n == 7 {
        0x100_0000_0000_0000
    } else {
        0x1_0000_0000_0000_0000
    }
}

/// The number that `bytes` spell in big-endian order.
pub open spec fn be_value(bytes: Seq<u8>) -> nat
    decreases bytes.len(),
{
    if bytes.len() == 0 {
        0
    } else {
        be_value(bytes.drop_last()) * 256 + bytes.last() as nat
    }
}

/// The first byte of a variable-length integer as it counts towards the
/// value: without its marker where `strip_marker` is set.
pub open spec fn vint_head(first: u8, strip_marker: bool) -> u8 {
    if strip_marker {
        (first - vint_marker(vint_width(first))) as u8
    } else {
        first
    }
}

/// Reading one variable-length integer from the start of `s`: its value and
/// its width.
///
/// The read fails with `UnexpectedEof` where `s` ends before the integer
/// does, and with `InvalidVint` where the first byte is zero.
pub open spec fn spec_read_vint(s: Seq<u8>, strip_marker: bool) -> Result<(u64, usize), Error> {
    if s.len() == 0 {
        Err(Error::UnexpectedEof)
    } else if s[0] == 0 {
        Err(Error::InvalidVint)
    } else if s.len() < vint_width(s[0]) {
        Err(Error::UnexpectedEof)
    } else {
        let width = vint_width(s[0]);
        let bytes = s.subrange(0, width).update(0, vint_head(s[0], strip_marker));
        Ok((be_value(bytes) as u64, width as usize))
    }
}

/// A big-endian number of `n` bytes is below 256 to the power `n`.
pub proof fn lemma_be_value_bound(bytes: Seq<u8>)
    requires
        bytes.len() <= 8,
    ensures
        be_value(bytes) < pow256(bytes.len() as int),
    decreases bytes.len(),
{
    if bytes.len() > 0 {
        lemma_be_value_bound(bytes.drop_last());
    }
}

/// Read the variable-length integer that starts at `start` in `data` and ends
/// before `end`.
pub(crate) fn decode_vint(data: &[u8], start: usize, end: usize, strip_marker: bool) -> (r: Result<
    (u64, usize),
    Error,
>)
    requires
        start <= end <= data.len(),
    ensures
        r == spec_read_vint(data@.subrange(start as int, end as int), strip_marker),
{
    if start >= end {
        return Err(Error::UnexpectedEof);
    }
    let first: u8 = data[start];
    if first == 0 {
        return Err(Error::InvalidVint);
    }
    let (width, marker): (usize, u8) = if first >= 0x80 {
        (1, 0x80)
    } else if first >= 0x40 {
        (2, 0x40)
    } else if first >= 0x20 {
        (3, 0x20)
    } else if first >= 0x10 {
        (4, 0x10)
    } else if first >= 0x08 {
        (5, 0x08)
    } else if first >= 0x04 {
        (6, 0x04)
    } else if first >= 0x02 {
        (7, 0x02)
    } else {
        (8, 0x01)
    };
    if end - start < width {
        return Err(Error::UnexpectedEof);
    }
    let head: u8 = if strip_marker {
        first - marker
    } else {
        first
    };
    let ghost s = data@.subrange(start as int, end as int);
    let ghost bytes = s.subrange(0, width as int).update(0, head);
    let mut value: u64 = head as u64;
    let mut i: usize = 1;
    proof {
        assert(bytes.take(1).drop_last() =~= Seq::<u8>::empty());
        assert(be_value(bytes.take(1).drop_last()) == 0);
        assert(be_value(bytes.take(1)) == head as nat);
    }
    while i < width
        invariant
            1 <= i <= width <= 8,
            start + width <= end <= data.len(),
            bytes.len() == width,
            forall|j: int| 1 <= j < width ==> bytes[j] == data@[start + j],
            value == be_value(bytes.take(i as int)),
            value < pow256(i as int),
        decreases width - i,
    {
        let b: u8 = data[start + i];
        proof {
            assert(bytes.take(i + 1).drop_last() =~= bytes.take(i as int));
            assert(bytes.take(i + 1).last() == b);
        }
        value = value * 256 + b as u64;
        i = i + 1;
    }
    proof {
        assert(bytes.take(width as int) =~= bytes);
    }
    Ok((value, width))
}

/// The `n` bytes that spell `value` in big-endian order.
pub open spec fn be_bytes(value: int, n: nat) -> Seq<u8>
    decreases n,
{
    if n == 0 {
        Seq::empty()
    } else {
        be_bytes(value / 256, (n - 1) as nat).push((value % 256) as u8)
    }
}

/// The variable-length integer of `width` bytes that spells `value`: a first
/// byte with the length marker and the highest bits, then the other bytes.
pub open spec fn vint_bytes(value: int, width: int) -> Seq<u8> {
    seq![(vint_marker(width) + value / pow256(width - 1)) as u8] + be_bytes(
        value % pow256(width - 1),
        (width - 1) as nat,
    )
}

/// `be_bytes` gives as many bytes as it is asked for.
pub proof fn lemma_be_bytes_len(value: int, n: nat)
    ensures
        be_bytes(value, n).len() == n,
    decreases n,
{
    if n > 0 {
        lemma_be_bytes_len(value / 256, (n - 1) as nat);
    }
}

/// The bytes that spell a number spell that number.
pub proof fn lemma_be_bytes_value(value: int, n: nat)
    requires
        n <= 8,
        0 <= value < pow256(n as int),
    ensures
        be_value(be_bytes(value, n)) == value,
    decreases n,
{
    if n > 0 {
        let init = be_bytes(value / 256, (n - 1) as nat);
        lemma_be_bytes_value(value / 256, (n - 1) as nat);
        assert(be_bytes(value, n).drop_last() =~= init);
    }
}

/// A byte before a big-endian number adds the byte times the weight of its
/// place.
pub proof fn lemma_be_value_prepend(head: u8, tail: Seq<u8>)
    requires
        tail.len() <= 7,
    ensures
        be_value(seq![head] + tail) == head * pow256(tail.len() as int) + be_value(tail),
    decreases tail.len(),
{
    let whole = seq![head] + tail;
    if tail.len() == 0 {
        assert(whole.drop_last() =~= Seq::<u8>::empty());
        assert(be_value(whole.drop_last()) == 0);
    } else {
        lemma_be_value_prepend(head, tail.drop_last());
        assert(whole.drop_last() =~= seq![head] + tail.drop_last());
        assert(whole.last() == tail.last());
    }
}

/// The largest number that a variable-length integer of `width` bytes
/// spells, plus one.
pub open spec fn vint_bound(width: int) -> int {
    vint_marker(width) * pow256(width - 1)
}

/// Reading the variable-length integer that spells a number gives the number
/// back, and its width.
pub proof fn lemma_vint_round_trip(value: int, width: int, rest: Seq<u8>)
    requires
        1 <= width <= 8,
        0 <= value < vint_bound(width),
    ensures
        spec_read_vint(vint_bytes(value, width) + rest, true) == Ok::<_, Error>(
            (value as u64, width as usize),
        ),
        vint_bytes(value, width).len() == width,
{
    let weight = pow256(width - 1);
    let high = value / weight;
    let low = value % weight;
    let first = (vint_marker(width) + high) as u8;
    let tail = be_bytes(low, (width - 1) as nat);
    let s = vint_bytes(value, width) + rest;
    lemma_be_bytes_len(low, (width - 1) as nat);
    lemma_be_bytes_value(low, (width - 1) as nat);
    assert(0 <= high < vint_marker(width));
    assert(s[0] == first);
    assert(vint_width(first) == width);
    let bytes = s.subrange(0, width).update(0, high as u8);
    assert(bytes =~= seq![high as u8] + tail);
    lemma_be_value_prepend(high as u8, tail);
    assert(value == high * weight + low);
}

/// The identifier `id`, which takes `width` bytes, as it stands in a stream:
/// its bytes in big-endian order, the length marker among them.
pub open spec fn id_bytes(id: int, width: int) -> Seq<u8> {
    seq![(id / pow256(width - 1)) as u8] + be_bytes(id % pow256(width - 1), (width - 1) as nat)
}

/// Whether `id` is an identifier of `width` bytes: its first byte holds the
/// length marker of that width, and no bit above it.
pub open spec fn is_id(id: int, width: int) -> bool {
    1 <= width <= 8 && vint_bound(width) <= id < 2 * vint_bound(width)
}

/// Reading the bytes of an identifier gives the identifier back, and its
/// width.
pub proof fn lemma_id_round_trip(id: int, width: int, rest: Seq<u8>)
    requires
        is_id(id, width),
    ensures
        spec_read_vint(id_bytes(id, width) + rest, false) == Ok::<_, Error>(
            (id as u64, width as usize),
        ),
        id_bytes(id, width).len() == width,
{
    let weight = pow256(width - 1);
    let high = id / weight;
    let low = id % weight;
    let tail = be_bytes(low, (width - 1) as nat);
    let s = id_bytes(id, width) + rest;
    lemma_be_bytes_len(low, (width - 1) as nat);
    lemma_be_bytes_value(low, (width - 1) as nat);
    assert(vint_marker(width) <= high < 2 * vint_marker(width));
    assert(s[0] == high as u8);
    assert(vint_width(high as u8) == width);
    let bytes = s.subrange(0, width).update(0, high as u8);
    assert(bytes =~= seq![high as u8] + tail);
    lemma_be_value_prepend(high as u8, tail);
    assert(id == high * weight + low);
}

} // verus!
