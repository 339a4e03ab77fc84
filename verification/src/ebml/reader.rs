//! Reading elements from a byte source.

use vstd::prelude::*;
use vstd::slice::{slice_subrange, slice_to_vec};
use crate::error::Error;
use crate::ebml::vint::{decode_vint, spec_read_vint};
use crate::ebml::element::{
    decode_element,
    decode_element_info,
    spec_read_element,
    spec_read_element_info,
    Element,
    ElementContent,
    ElementSpec,
};

verus! {

/// A byte source: the bytes of a stream and how far they have been read.
#[derive(Debug)]
pub struct Source {
    data: Vec<u8>,
    pos: usize,
}

/// Reading `size` bytes of content from the start of `s`: the bytes, or
/// `UnexpectedEof` where `s` holds fewer.
pub open spec fn spec_read_element_data(s: Seq<u8>, size: u64) -> Result<(Seq<u8>, usize), Error> {
    if size > s.len() {
        Err(Error::UnexpectedEof)
    } else {
        Ok((s.take(size as int), size as usize))
    }
}

impl Source {
    #[verifier::type_invariant]
    spec fn in_bounds(self) -> bool {
        self.pos <= self.data@.len()
    }

    /// All the bytes of the source, read or not.
    pub closed spec fn bytes(&self) -> Seq<u8> {
        self.data@
    }

    /// The number of bytes that have been read.
    pub closed spec fn offset(&self) -> nat {
        self.pos as nat
    }

    /// The bytes that have not been read yet.
    pub open spec fn remaining(&self) -> Seq<u8> {
        self.bytes().skip(self.offset() as int)
    }

    /// A source over `data`, of which nothing has been read.
    pub fn new(data: Vec<u8>) -> (r: Source)
        ensures
            r.bytes() == data@,
            r.offset() == 0,
    {
        Source { data: data, pos: 0 }
    }

    /// The number of bytes that have been read.
    pub fn position(&self) -> (n: usize)
        ensures
            n == self.offset(),
            n <= self.bytes().len(),
    {
        proof {
            use_type_invariant(self);
        }
        self.pos
    }

    /// The bytes of the source and the number of them that have been read.
    pub fn into_parts(self) -> (parts: (Vec<u8>, usize))
        ensures
            parts.0@ == self.bytes(),
            parts.1 == self.offset(),
            parts.1 <= parts.0@.len(),
    {
        proof {
            use_type_invariant(&self);
        }
        (self.data, self.pos)
    }

    /// Move to the offset `pos`.
    pub(crate) fn seek(&mut self, pos: usize)
        requires
            pos <= old(self).bytes().len(),
        ensures
            final(self).bytes() == old(self).bytes(),
            final(self).offset() == pos,
    {
        self.pos = pos;
    }

    /// The number of bytes that have not been read yet.
    pub fn remaining_len(&self) -> (n: usize)
        ensures
            n == self.bytes().len() - self.offset(),
            n == self.remaining().len(),
    {
        proof {
            use_type_invariant(self);
        }
        self.data.len() - self.pos
    }
}

/// Read one variable-length integer: its value and its width. A source that
/// cannot give one is left as it was.
pub fn read_vint(r: &mut Source, strip_marker: bool) -> (res: Result<(u64, usize), Error>)
    ensures
        res == spec_read_vint(old(r).remaining(), strip_marker),
        final(r).bytes() == old(r).bytes(),
        final(r).offset() == old(r).offset() + (match res {
            Ok((_, n)) => n as int,
            Err(_) => 0,
        }),
        final(r).offset() <= final(r).bytes().len(),
{
    proof {
        use_type_invariant(&*r);
        assert(r.data@.skip(r.pos as int) =~= r.data@.subrange(r.pos as int, r.data@.len() as int));
    }
    let end: usize = r.data.len();
    match decode_vint(r.data.as_slice(), r.pos, end, strip_marker) {
        Err(e) => Err(e),
        Ok((value, n)) => {
            r.pos = r.pos + n;
            Ok((value, n))
        },
    }
}

/// Read the header of one element: the identifier, the size of the content
/// and the length of the header. A source that cannot give one is left as it
/// was.
pub fn read_element_info(r: &mut Source) -> (res: Result<(u64, u64, usize), Error>)
    ensures
        res == spec_read_element_info(old(r).remaining()),
        final(r).bytes() == old(r).bytes(),
        final(r).offset() == old(r).offset() + (match res {
            Ok((_, _, n)) => n as int,
            Err(_) => 0,
        }),
        final(r).offset() <= final(r).bytes().len(),
{
    proof {
        use_type_invariant(&*r);
        assert(r.data@.skip(r.pos as int) =~= r.data@.subrange(r.pos as int, r.data@.len() as int));
    }
    let end: usize = r.data.len();
    match decode_element_info(r.data.as_slice(), r.pos, end) {
        Err(e) => Err(e),
        Ok((id, size, n)) => {
            r.pos = r.pos + n;
            Ok((id, size, n))
        },
    }
}

/// Read `size` bytes of content. A source that holds fewer is left as it
/// was.
pub fn read_element_data(r: &mut Source, size: u64) -> (res: Result<(ElementContent, usize), Error>)
    ensures
        match res {
            Ok((content, n)) => spec_read_element_data(old(r).remaining(), size) == Ok::<_, Error>(
                (content@, n),
            ),
            Err(e) => spec_read_element_data(old(r).remaining(), size) == Err::<
                (Seq<u8>, usize),
                _,
            >(e),
        },
        final(r).bytes() == old(r).bytes(),
        final(r).offset() == old(r).offset() + (match res {
            Ok((_, n)) => n as int,
            Err(_) => 0,
        }),
        final(r).offset() <= final(r).bytes().len(),
{
    proof {
        use_type_invariant(&*r);
    }
    if size > (r.data.len() - r.pos) as u64 {
        Err(Error::UnexpectedEof)
    } else {
        let n: usize = size as usize;
        let bytes = slice_to_vec(slice_subrange(r.data.as_slice(), r.pos, r.pos + n));
        proof {
            assert(bytes@ =~= r.data@.skip(r.pos as int).take(size as int));
        }
        r.pos = r.pos + n;
        Ok((ElementContent::new(bytes), n))
    }
}

/// Read one whole element: the element and the number of bytes that it
/// takes. A source that cannot give one is left as it was.
pub fn read_element(r: &mut Source) -> (res: Result<(Element, usize), Error>)
    ensures
        match res {
            Ok((element, n)) => spec_read_element(old(r).remaining()) == Ok::<_, Error>(
                (element@, n as int),
            ),
            Err(e) => spec_read_element(old(r).remaining()) == Err::<(ElementSpec, int), _>(e),
        },
        final(r).bytes() == old(r).bytes(),
        final(r).offset() == old(r).offset() + (match res {
            Ok((_, n)) => n as int,
            Err(_) => 0,
        }),
        final(r).offset() <= final(r).bytes().len(),
{
    proof {
        use_type_invariant(&*r);
        assert(r.data@.skip(r.pos as int) =~= r.data@.subrange(r.pos as int, r.data@.len() as int));
    }
    let end: usize = r.data.len();
    match decode_element(r.data.as_slice(), r.pos, end) {
        Err(e) => Err(e),
        Ok((element, n)) => {
            r.pos = r.pos + n;
            Ok((element, n))
        },
    }
}

} // verus!
