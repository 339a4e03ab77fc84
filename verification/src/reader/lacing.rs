//! Lacing frames into a payload, and the laws that tie it to reading them
//! back.
//!
//! The library reads laces and writes none: a lace is described here as a
//! sequence of bytes, and each law states that reading it gives the frames
//! that it was made of.

use vstd::prelude::*;
use crate::error::Error;
use crate::ebml::vint::{lemma_vint_round_trip, spec_read_vint, vint_bound, vint_bytes};
use crate::reader::cluster::{
    spec_cut,
    spec_ebml_frames,
    spec_ebml_sizes,
    spec_fixed_size_frames,
    spec_xiph_frames,
    spec_xiph_size,
    spec_xiph_sizes,
};

verus! {

/// The frames `frames` one after the other.
pub open spec fn concat(frames: Seq<Seq<u8>>) -> Seq<u8>
    decreases frames.len(),
{
    if frames.len() == 0 {
        Seq::empty()
    } else {
        frames[0] + concat(frames.skip(1))
    }
}

/// The sizes that a lace of `frames` spells out: those of all frames but the
/// last.
pub open spec fn lace_sizes(frames: Seq<Seq<u8>>) -> Seq<int> {
    Seq::new((frames.len() - 1) as nat, |i: int| frames[i].len() as int)
}

/// The Xiph code of `size`: as many bytes 255 as fit into it, then a byte
/// with what is left.
pub open spec fn xiph_code(size: int) -> Seq<u8>
    decreases size,
{
    if size >= 255 {
        seq![255u8] + xiph_code(size - 255)
    } else {
        seq![size as u8]
    }
}

/// The Xiph codes of `sizes`, one after the other.
pub open spec fn xiph_codes(sizes: Seq<int>) -> Seq<u8>
    decreases sizes.len(),
{
    if sizes.len() == 0 {
        Seq::empty()
    } else {
        xiph_code(sizes[0]) + xiph_codes(sizes.skip(1))
    }
}

/// The payload that laces `frames` the Xiph way.
pub open spec fn xiph_lace(frames: Seq<Seq<u8>>) -> Seq<u8> {
    seq![(frames.len() - 1) as u8] + xiph_codes(lace_sizes(frames)) + concat(frames)
}

/// The payload that laces `frames` with a fixed size.
pub open spec fn fixed_size_lace(frames: Seq<Seq<u8>>) -> Seq<u8> {
    seq![frames.len() as u8] + concat(frames)
}

/// What the first size of an EBML lace is larger by than each of the sizes
/// `sizes` after it.
pub open spec fn ebml_deltas(first: int, sizes: Seq<int>) -> Seq<u8> {
    Seq::new(sizes.len(), |i: int| (first - sizes[i]) as u8)
}

/// The payload that laces `frames` the EBML way, with the size of the first
/// frame written on `width` bytes.
pub open spec fn ebml_lace(frames: Seq<Seq<u8>>, width: int) -> Seq<u8> {
    if frames.len() == 1 {
        seq![0u8] + concat(frames)
    } else {
        seq![(frames.len() - 1) as u8] + vint_bytes(frames[0].len() as int, width) + ebml_deltas(
            frames[0].len() as int,
            lace_sizes(frames).skip(1),
        ) + concat(frames)
    }
}

/// Cutting a payload that ends with `frames` gives `frames` back.
pub proof fn lemma_cut_concat(pre: Seq<u8>, frames: Seq<Seq<u8>>)
    requires
        frames.len() >= 1,
    ensures
        spec_cut(pre + concat(frames), pre.len() as int, lace_sizes(frames)) == Some(frames),
    decreases frames.len(),
{
    let s = pre + concat(frames);
    let sizes = lace_sizes(frames);
    let tail = frames.skip(1);
    assert(concat(frames) == frames[0] + concat(tail));
    if frames.len() == 1 {
        assert(concat(tail) =~= Seq::<u8>::empty());
        assert(s.subrange(pre.len() as int, s.len() as int) =~= frames[0]);
        assert(seq![frames[0]] =~= frames);
    } else {
        let pre2 = pre + frames[0];
        assert(pre2 + concat(tail) =~= s);
        assert(lace_sizes(tail) =~= sizes.skip(1));
        lemma_cut_concat(pre2, tail);
        assert(sizes[0] == frames[0].len());
        assert(s.subrange(pre.len() as int, pre.len() + sizes[0]) =~= frames[0]);
        assert(seq![frames[0]] + tail =~= frames);
    }
}

/// Cutting tiles the payload: where a payload is cut into frames from the
/// index `i` on, there is one frame for each size and one more, each frame
/// but the last has its size, and the frames one after the other are the
/// payload from `i` to its end.
pub proof fn lemma_cut_tiles(s: Seq<u8>, i: int, sizes: Seq<int>)
    ensures
        match spec_cut(s, i, sizes) {
            Some(frames) => {
                &&& frames.len() == sizes.len() + 1
                &&& forall|k: int| 0 <= k < sizes.len() ==> (#[trigger] frames[k]).len() == sizes[k]
                &&& 0 <= i <= s.len()
                &&& concat(frames) == s.skip(i)
            },
            None => true,
        },
    decreases sizes.len(),
{
    match spec_cut(s, i, sizes) {
        Some(frames) => {
            if sizes.len() == 0 {
                assert(concat(frames.skip(1)) =~= Seq::<u8>::empty());
                assert(concat(frames) =~= s.skip(i));
            } else {
                lemma_cut_tiles(s, i + sizes[0], sizes.skip(1));
                let rest = spec_cut(s, i + sizes[0], sizes.skip(1)).unwrap();
                assert(frames.skip(1) =~= rest);
                assert forall|k: int| 0 <= k < sizes.len() implies (#[trigger] frames[k]).len()
                    == sizes[k] by {
                    if k > 0 {
                        assert(frames[k] == rest[k - 1]);
                        assert(sizes[k] == sizes.skip(1)[k - 1]);
                    }
                }
                assert(concat(frames) =~= s.skip(i));
            }
        },
        None => {},
    }
}

/// A lace holds as many frames as it declares, and its frames take the
/// whole payload after the sizes: a Xiph lace that declares `n` frames less
/// one gives `n + 1` frames, which one after the other are the payload from
/// the end of the size codes on.
pub proof fn lemma_xiph_frames_tile(s: Seq<u8>)
    ensures
        match spec_xiph_frames(s) {
            Ok(frames) => frames.len() == s[0] + 1 && (match spec_xiph_sizes(s, 1, s[0] as nat) {
                Some((sizes, start)) => concat(frames) == s.skip(start),
                None => false,
            }),
            Err(_) => true,
        },
{
    if s.len() > 0 {
        lemma_xiph_sizes_len(s, 1, s[0] as nat);
        match spec_xiph_sizes(s, 1, s[0] as nat) {
            Some((sizes, start)) => {
                lemma_cut_tiles(s, start, sizes);
            },
            None => {},
        }
    }
}

/// Reading `n` sizes gives `n` sizes.
pub proof fn lemma_xiph_sizes_len(s: Seq<u8>, i: int, n: nat)
    ensures
        spec_xiph_sizes(s, i, n) matches Some((sizes, _)) ==> sizes.len() == n,
    decreases n,
{
    if n > 0 {
        match spec_xiph_size(s, i) {
            Some((_, next)) => {
                lemma_xiph_sizes_len(s, next, (n - 1) as nat);
            },
            None => {},
        }
    }
}

/// Reading `n` sizes gives `n` sizes.
pub proof fn lemma_ebml_sizes_len(s: Seq<u8>, i: int, first: int, n: nat)
    ensures
        spec_ebml_sizes(s, i, first, n) matches Ok(sizes) ==> sizes.len() == n,
    decreases n,
{
    if n > 0 {
        lemma_ebml_sizes_len(s, i + 1, first, (n - 1) as nat);
    }
}

/// A lace holds as many frames as it declares, and its frames take the
/// whole payload after the sizes: an EBML lace that declares `n` frames less
/// one gives `n + 1` frames, which one after the other are the payload from
/// the end of the sizes on.
pub proof fn lemma_ebml_frames_tile(s: Seq<u8>)
    ensures
        match spec_ebml_frames(s) {
            Ok(frames) => frames.len() == s[0] + 1 && (if s[0] == 0 {
                concat(frames) == s.skip(1)
            } else {
                match spec_read_vint(s.skip(1), true) {
                    Ok((_, width)) => concat(frames) == s.skip(width + s[0]),
                    Err(_) => false,
                }
            }),
            Err(_) => true,
        },
{
    if s.len() > 0 {
        if s[0] == 0 {
            let frames = seq![s.skip(1)];
            assert(concat(frames.skip(1)) =~= Seq::<u8>::empty());
            assert(concat(frames) =~= s.skip(1));
        } else {
            match spec_read_vint(s.skip(1), true) {
                Ok((first, width)) => {
                    lemma_ebml_sizes_len(s, 1 + width, first as int, (s[0] - 1) as nat);
                    match spec_ebml_sizes(s, 1 + width, first as int, (s[0] - 1) as nat) {
                        Ok(rest) => {
                            lemma_cut_tiles(s, width + s[0], seq![first as int] + rest);
                        },
                        Err(_) => {},
                    }
                },
                Err(_) => {},
            }
        }
    }
}

/// A lace holds as many frames as it declares: a lace of fixed size that
/// declares `n` frames gives `n` frames, each of them as large as the `n`th
/// part of the payload after the first byte.
pub proof fn lemma_fixed_size_frames_count(s: Seq<u8>)
    ensures
        match spec_fixed_size_frames(s) {
            Ok(frames) => frames.len() == s[0] && forall|k: int|
                0 <= k < frames.len() ==> (#[trigger] frames[k]).len() == (s.len() - 1) / (
                s[0] as int),
            Err(_) => true,
        },
{
    if s.len() > 0 && s[0] > 0 {
        let n = s[0] as int;
        let size = (s.len() - 1) / n;
        let frames = spec_fixed_size_frames(s).unwrap();
        assert(0 <= size && size * n <= s.len() - 1) by (nonlinear_arith)
            requires
                size == (s.len() - 1) / n,
                n > 0,
                s.len() >= 1,
        ;
        assert forall|k: int| 0 <= k < frames.len() implies (#[trigger] frames[k]).len()
            == size by {
            assert(0 <= k * size && (k + 1) * size <= n * size && (k + 1) * size == k * size
                + size) by (nonlinear_arith)
                requires
                    0 <= k < n,
                    size >= 0,
            ;
            assert(n * size == size * n) by (nonlinear_arith);
        }
    }
}

/// Reading the Xiph code of a size gives the size back.
pub proof fn lemma_xiph_size(pre: Seq<u8>, size: int, rest: Seq<u8>)
    requires
        size >= 0,
    ensures
        spec_xiph_size(pre + xiph_code(size) + rest, pre.len() as int) == Some(
            (size, (pre.len() + xiph_code(size).len()) as int),
        ),
    decreases size,
{
    let s = pre + xiph_code(size) + rest;
    if size >= 255 {
        let pre2 = pre + seq![255u8];
        assert(pre2 + xiph_code(size - 255) + rest =~= s);
        lemma_xiph_size(pre2, size - 255, rest);
        assert(s[pre.len() as int] == 255);
    } else {
        assert(s[pre.len() as int] == size as u8);
    }
}

/// Reading the Xiph codes of some sizes gives the sizes back.
pub proof fn lemma_xiph_sizes(pre: Seq<u8>, sizes: Seq<int>, rest: Seq<u8>)
    requires
        forall|i: int| 0 <= i < sizes.len() ==> sizes[i] >= 0,
    ensures
        spec_xiph_sizes(pre + xiph_codes(sizes) + rest, pre.len() as int, sizes.len()) == Some(
            (sizes, (pre.len() + xiph_codes(sizes).len()) as int),
        ),
    decreases sizes.len(),
{
    let s = pre + xiph_codes(sizes) + rest;
    if sizes.len() == 0 {
        assert(sizes =~= Seq::<int>::empty());
    } else {
        let code = xiph_code(sizes[0]);
        let tail = sizes.skip(1);
        let rest2 = xiph_codes(tail) + rest;
        assert(pre + code + rest2 =~= s);
        lemma_xiph_size(pre, sizes[0], rest2);
        let pre2 = pre + code;
        assert(pre2 + xiph_codes(tail) + rest =~= s);
        lemma_xiph_sizes(pre2, tail, rest);
        assert(seq![sizes[0]] + tail =~= sizes);
    }
}

/// Lacing frames the Xiph way and reading the lace gives the frames back, in
/// order and byte for byte, for every lace of 1 to 256 frames.
pub proof fn lemma_xiph_round_trip(frames: Seq<Seq<u8>>)
    requires
        1 <= frames.len() <= 256,
    ensures
        spec_xiph_frames(xiph_lace(frames)) == Ok::<_, Error>(frames),
{
    let sizes = lace_sizes(frames);
    let head = seq![(frames.len() - 1) as u8];
    let s = xiph_lace(frames);
    lemma_xiph_sizes(head, sizes, concat(frames));
    lemma_cut_concat(head + xiph_codes(sizes), frames);
    assert(s[0] == (frames.len() - 1) as u8);
}

/// Frames of one size, one after the other: the length of the whole, and
/// where each frame lies in it.
pub proof fn lemma_concat_uniform(frames: Seq<Seq<u8>>, size: int)
    requires
        forall|i: int| 0 <= i < frames.len() ==> (#[trigger] frames[i]).len() == size,
    ensures
        concat(frames).len() == frames.len() * size,
        forall|k: int|
            0 <= k < frames.len() ==> #[trigger] concat(frames).subrange(k * size, (k + 1) * size)
                == frames[k],
    decreases frames.len(),
{
    if frames.len() == 0 {
        assert(frames.len() * size == 0) by (nonlinear_arith)
            requires
                frames.len() == 0,
        ;
    } else {
        let tail = frames.skip(1);
        let whole = concat(frames);
        assert forall|i: int| 0 <= i < tail.len() implies (#[trigger] tail[i]).len() == size by {
            assert(tail[i] == frames[i + 1]);
        }
        lemma_concat_uniform(tail, size);
        assert(whole == frames[0] + concat(tail));
        assert(frames[0].len() == size);
        assert(frames.len() * size == size + tail.len() * size) by (nonlinear_arith)
            requires
                tail.len() == frames.len() - 1,
        ;
        assert forall|k: int| 0 <= k < frames.len() implies #[trigger] whole.subrange(
            k * size,
            (k + 1) * size,
        ) == frames[k] by {
            if k == 0 {
                assert(whole.subrange(0, size) =~= frames[0]);
                assert(0 * size == 0 && (0 + 1) * size == size) by (nonlinear_arith);
            } else {
                assert(k * size == size + (k - 1) * size && (k + 1) * size == size + k * size)
                    by (nonlinear_arith);
                assert((k - 1) * size >= 0 && k * size <= tail.len() * size) by (nonlinear_arith)
                    requires
                        1 <= k <= tail.len(),
                        size >= 0,
                ;
                assert(concat(tail).subrange((k - 1) * size, (k - 1 + 1) * size) == tail[k - 1]);
                assert(whole.subrange(k * size, (k + 1) * size) =~= concat(tail).subrange(
                    (k - 1) * size,
                    k * size,
                ));
                assert(tail[k - 1] == frames[k]);
            }
        }
    }
}

/// Lacing frames of one size with a fixed size and reading the lace gives
/// the frames back, in order and byte for byte, for every lace of 1 to 255
/// frames.
pub proof fn lemma_fixed_size_round_trip(frames: Seq<Seq<u8>>, size: int)
    requires
        1 <= frames.len() <= 255,
        forall|i: int| 0 <= i < frames.len() ==> (#[trigger] frames[i]).len() == size,
    ensures
        spec_fixed_size_frames(fixed_size_lace(frames)) == Ok::<_, Error>(frames),
{
    let n = frames.len() as int;
    let s = fixed_size_lace(frames);
    let body = concat(frames);
    lemma_concat_uniform(frames, size);
    assert(frames[0].len() == size);
    assert(s[0] == n as u8);
    assert((n * size) / n == size) by (nonlinear_arith)
        requires
            n >= 1,
            size >= 0,
    ;
    let got = Seq::new(n as nat, |k: int| s.subrange(1 + k * size, 1 + (k + 1) * size));
    assert forall|k: int| 0 <= k < n implies got[k] == frames[k] by {
        assert(k * size >= 0 && (k + 1) * size <= n * size) by (nonlinear_arith)
            requires
                0 <= k < n,
                size >= 0,
        ;
        assert(k * size <= (k + 1) * size) by (nonlinear_arith)
            requires
                size >= 0,
        ;
        assert(s.subrange(1 + k * size, 1 + (k + 1) * size) =~= body.subrange(
            k * size,
            (k + 1) * size,
        ));
        assert(body.subrange(k * size, (k + 1) * size) == frames[k]);
    }
    assert(got =~= frames);
}

/// Reading the bytes that follow the first size of an EBML lace gives the
/// sizes that they stand for.
pub proof fn lemma_ebml_sizes(pre: Seq<u8>, first: int, sizes: Seq<int>, rest: Seq<u8>)
    requires
        forall|i: int| 0 <= i < sizes.len() ==> 0 <= first - #[trigger] sizes[i] <= 255,
        forall|i: int| 0 <= i < sizes.len() ==> #[trigger] sizes[i] >= 0,
    ensures
        spec_ebml_sizes(
            pre + ebml_deltas(first, sizes) + rest,
            pre.len() as int,
            first,
            sizes.len(),
        ) == Ok::<_, Error>(sizes),
    decreases sizes.len(),
{
    let s = pre + ebml_deltas(first, sizes) + rest;
    if sizes.len() == 0 {
        assert(sizes =~= Seq::<int>::empty());
    } else {
        let tail = sizes.skip(1);
        let pre2 = pre + seq![(first - sizes[0]) as u8];
        assert(pre2 + ebml_deltas(first, tail) + rest =~= s);
        assert forall|i: int| 0 <= i < tail.len() implies 0 <= first - #[trigger] tail[i]
            <= 255 by {
            assert(tail[i] == sizes[i + 1]);
        }
        assert forall|i: int| 0 <= i < tail.len() implies #[trigger] tail[i] >= 0 by {
            assert(tail[i] == sizes[i + 1]);
        }
        lemma_ebml_sizes(pre2, first, tail, rest);
        assert(s[pre.len() as int] == (first - sizes[0]) as u8);
        assert(seq![first - s[pre.len() as int]] + tail =~= sizes);
    }
}

/// Lacing frames the EBML way and reading the lace gives the frames back, in
/// order and byte for byte, for every lace of 1 to 256 frames in which the
/// size of the first frame can be written on `width` bytes and no frame but
/// the last is larger than the first, or smaller by more than 255.
pub proof fn lemma_ebml_round_trip(frames: Seq<Seq<u8>>, width: int)
    requires
        1 <= frames.len() <= 256,
        frames.len() >= 2 ==> 1 <= width <= 8 && frames[0].len() < vint_bound(width),
        forall|i: int|
            1 <= i < frames.len() - 1 ==> 0 <= frames[0].len() - (#[trigger] frames[i]).len()
                <= 255,
    ensures
        spec_ebml_frames(ebml_lace(frames, width)) == Ok::<_, Error>(frames),
{
    let s = ebml_lace(frames, width);
    if frames.len() == 1 {
        assert(concat(frames) == frames[0] + concat(frames.skip(1)));
        assert(concat(frames.skip(1)) =~= Seq::<u8>::empty());
        assert(s.skip(1) =~= frames[0]);
        assert(seq![frames[0]] =~= frames);
    } else {
        let first = frames[0].len() as int;
        let head = seq![(frames.len() - 1) as u8];
        let coded = vint_bytes(first, width);
        let others = lace_sizes(frames).skip(1);
        let deltas = ebml_deltas(first, others);
        let body = concat(frames);
        lemma_vint_round_trip(first, width, deltas + body);
        assert(s.skip(1) =~= coded + (deltas + body));
        assert(s[0] == frames.len() - 1);
        assert forall|i: int| 0 <= i < others.len() implies 0 <= first - #[trigger] others[i]
            <= 255 by {
            assert(others[i] == frames[i + 1].len());
        }
        lemma_ebml_sizes(head + coded, first, others, body);
        assert(seq![first] + others =~= lace_sizes(frames));
        lemma_cut_concat(head + coded + deltas, frames);
    }
}

} // verus!
