//! Read information contained in the EBML header of the matroska file.

use vstd::prelude::*;
use crate::elements as el;
use crate::error::Error;
use crate::ebml::element::{spec_required_utf8, ElementArray, ElementSpec};

verus! {

#[derive(Debug)]
pub struct Info {
    /// A String that represents the type of the matroska document ("matroska, webm...").
    pub doc_type: String,
}

impl View for Info {
    type V = Seq<char>;

    open spec fn view(&self) -> Seq<char> {
        self.doc_type@
    }
}

/// Read the EBML header information. Expected input: children of the `EBML` master element.
pub fn read(elems: ElementArray) -> (r: Result<Info, Error>)
    ensures
        match r {
            Ok(info) => spec_required_utf8(elems@, el::DOC_TYPE) == Ok::<_, Error>(info@),
            Err(e) => spec_required_utf8(elems@, el::DOC_TYPE) == Err::<Seq<char>, _>(e),
        },
{
    let doc_type = elems.required_utf8(el::DOC_TYPE)?;
    Ok(Info { doc_type: doc_type })
}

} // verus!
