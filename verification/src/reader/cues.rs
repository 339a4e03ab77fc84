//! MKV Cues reading.

use vstd::prelude::*;
use crate::elements as el;
use crate::error::Error;
use crate::ebml::element::spec_read_element;
use crate::ebml::reader::{read_element, Source};

verus! {

/// Represents a read cue point for quick seeking.
#[derive(Clone, Copy, Debug, PartialEq, Eq, Structural)]
pub struct CuePoint;

/// Reading the cue points from the start of `s`: the number of bytes of the
/// `Cues` element that stands there. Its content is passed over.
pub open spec fn spec_read_cue_point(s: Seq<u8>) -> Result<int, Error> {
    match spec_read_element(s) {
        Err(e) => Err(e),
        Ok((element, n)) => if element.id != el::CUES {
            Err(Error::UnexpectedElement { expected: el::CUES, found: element.id })
        } else {
            Ok(n)
        },
    }
}

/// Read all the cue points of an MKV input. The next element must be the
/// `Cues` element; it is passed over, and no cue point is returned. A source
/// that holds another element is left as it was.
pub fn read_cue_point(r: &mut Source) -> (res: Result<Vec<CuePoint>, Error>)
    ensures
        match res {
            Ok(points) => points@.len() == 0 && (match spec_read_cue_point(old(r).remaining()) {
                Ok(n) => final(r).offset() == old(r).offset() + n,
                Err(_) => false,
            }),
            Err(e) => spec_read_cue_point(old(r).remaining()) == Err::<int, _>(e)
                && final(r).offset() == old(r).offset(),
        },
        final(r).bytes() == old(r).bytes(),
        final(r).offset() <= final(r).bytes().len(),
{
    let cue_points: Vec<CuePoint> = Vec::new();
    let start: usize = r.position();
    let (elem, _) = read_element(r)?;
    if elem.id() != el::CUES {
        r.seek(start);
        return Err(Error::UnexpectedElement { expected: el::CUES, found: elem.id() });
    }
    Ok(cue_points)
}

} // verus!
