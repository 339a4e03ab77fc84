//! Read Meta Seek information contained in the matroska file.

use std::collections::HashMap;
use vstd::prelude::*;
use vstd::std_specs::hash::group_hash_axioms;
use crate::elements as el;
use crate::error::Error;
use crate::ebml::element::{spec_children, spec_required_uint, ElementArray, ElementSpec};

verus! {

broadcast use group_hash_axioms;

/// Type alias for the Meta Seek Information. Correspondance between an EBML element ID and
/// its position in the matroska file.
pub type Info = HashMap<u64, u64>;

/// The entry that one `Seek` element holds: the identifier in its `SeekID`
/// and the position in its `SeekPosition`, both of which must be there.
pub open spec fn spec_seek_entry(entry: ElementSpec) -> Result<(u64, u64), Error> {
    match spec_children(entry.data) {
        Err(e) => Err(e),
        Ok(data) => match spec_required_uint(data, el::SEEK_ID) {
            Err(e) => Err(e),
            Ok(id) => match spec_required_uint(data, el::SEEK_POSITION) {
                Err(e) => Err(e),
                Ok(position) => Ok((id, position)),
            },
        },
    }
}

/// The entries of the elements of `elems` from index `from` on, in order, or
/// the error of the first element that holds none.
pub open spec fn spec_seek_entries(elems: Seq<ElementSpec>, from: int) -> Result<
    Seq<(u64, u64)>,
    Error,
>
    decreases elems.len() - from,
{
    if from < 0 || from >= elems.len() {
        Ok(Seq::empty())
    } else {
        match spec_seek_entry(elems[from]) {
            Err(e) => Err(e),
            Ok(entry) => match spec_seek_entries(elems, from + 1) {
                Err(e) => Err(e),
                Ok(rest) => Ok(seq![entry] + rest),
            },
        }
    }
}

/// The correspondance that the entries `entries` make: each identifier with
/// the position of the last entry for it.
pub open spec fn spec_seek_map(entries: Seq<(u64, u64)>) -> Map<u64, u64>
    decreases entries.len(),
{
    if entries.len() == 0 {
        Map::empty()
    } else {
        spec_seek_map(entries.drop_last()).insert(entries.last().0, entries.last().1)
    }
}

/// The Meta Seek Information that the children `elems` of a `SeekHead` hold.
pub open spec fn spec_read(elems: Seq<ElementSpec>) -> Result<Map<u64, u64>, Error> {
    match spec_seek_entries(elems, 0) {
        Err(e) => Err(e),
        Ok(entries) => Ok(spec_seek_map(entries)),
    }
}

/// Read Meta Seek entries. Expected input: array of `Seek` elements (the children of the
/// `SeekHead` master element).
pub fn read(elems: ElementArray) -> (r: Result<Info, Error>)
    ensures
        match r {
            Ok(info) => spec_read(elems@) == Ok::<_, Error>(info@),
            Err(e) => spec_read(elems@) == Err::<Map<u64, u64>, _>(e),
        },
{
    let mut entries: Info = HashMap::new();
    let ghost mut done: Seq<(u64, u64)> = Seq::empty();
    let mut i: usize = 0;
    proof {
        match spec_seek_entries(elems@, 0) {
            Ok(rest) => {
                assert(done + rest =~= rest);
            },
            Err(_) => {},
        }
    }
    while i < elems.len()
        invariant
            i <= elems@.len(),
            entries@ == spec_seek_map(done),
            spec_seek_entries(elems@, 0) == (match spec_seek_entries(elems@, i as int) {
                Ok(rest) => Ok(done + rest),
                Err(e) => Err(e),
            }),
        decreases elems@.len() - i,
    {
        let entry = elems.at(i);
        let data = entry.children()?;
        let id: u64 = data.required_uint(el::SEEK_ID)?;
        let pos: u64 = data.required_uint(el::SEEK_POSITION)?;
        proof {
            match spec_seek_entries(elems@, i + 1) {
                Ok(rest) => {
                    assert(done + (seq![(id, pos)] + rest) =~= done.push((id, pos)) + rest);
                },
                Err(_) => {},
            }
            assert(done.push((id, pos)).drop_last() =~= done);
            done = done.push((id, pos));
        }
        entries.insert(id, pos);
        i = i + 1;
    }
    proof {
        assert(done + Seq::<(u64, u64)>::empty() =~= done);
    }
    Ok(entries)
}

} // verus!
