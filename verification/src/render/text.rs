//! Rendering a document as plain text.

use crate::error::Error;
use crate::model::document::{document_text, Document};
use crate::render::cleanup::{cleaned, CleanupPipeline};
use crate::render::options::RenderOptions;
use crate::text::trim;
use vstd::prelude::*;

verus! {

/// A document as plain text: the plain text of its pages, cleaned up where
/// the options say how, and trimmed.
pub open spec fn document_plain(o: RenderOptions, doc: Document) -> Seq<char> {
    let text = document_text(doc.pages@);
    trim(
        match o.cleanup {
            Some(c) => cleaned(c, text),
            None => text,
        },
    )
}

/// Renders a document as plain text; see [`document_plain`].
pub fn to_text(doc: &Document, options: &RenderOptions) -> (r: Result<String, Error>)
    ensures
        r matches Ok(s) && s@ == document_plain(*options, *doc),
{
    let mut out = doc.plain_text();
    match &options.cleanup {
        Some(c) => {
            let pipeline = CleanupPipeline::new(*c);
            out = pipeline.process(out.as_str());
        },
        None => {},
    }
    Ok(crate::text::trim_str(out.as_str()))
}

} // verus!
