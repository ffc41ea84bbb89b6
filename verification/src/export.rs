//! Export of a compiled document: PDF bytes, or one vector image per page.

use vstd::prelude::*;

verus! {

#[verifier::external_type_specification]
#[verifier::external_body]
pub struct ExDocument(typst::model::Document);

#[verifier::external_type_specification]
#[verifier::external_body]
pub struct ExFrame(typst::layout::Frame);

/// The PDF encoding of a document — a function of the document alone.
pub uninterp spec fn pdf_of(d: typst::model::Document) -> Seq<u8>;

/// The vector-image text of one page frame — a function of the frame alone.
pub uninterp spec fn svg_of(f: typst::layout::Frame) -> Seq<char>;

/// The page frames a document holds, in page order.
pub uninterp spec fn doc_pages(d: typst::model::Document) -> Seq<typst::layout::Frame>;

/// Relies on `typst_pdf::pdf`, with no identifier and no timestamp: the
/// encoding is then a function of the document alone.
#[verifier::external_body]
fn pdf_bytes(doc: &typst::model::Document) -> (r: Vec<u8>)
    ensures
        r@ == pdf_of(*doc),
{
    typst_pdf::pdf(doc, typst::foundations::Smart::Auto, None)
}

/// Relies on `typst_svg::svg`: one page's vector image, a function of its
/// frame alone.
#[verifier::external_body]
fn frame_svg(f: &typst::layout::Frame) -> (r: String)
    ensures
        r@ == svg_of(*f),
{
    typst_svg::svg(f)
}

/// Relies on the document's `pages` field: one frame per page, in page
/// order.
#[verifier::external_body]
fn doc_frames(doc: &typst::model::Document) -> (r: Vec<typst::layout::Frame>)
    ensures
        r@ == doc_pages(*doc),
{
    doc.pages.iter().map(|p| p.frame.clone()).collect()
}

/// The document as PDF bytes.
pub fn export_pdf(doc: &typst::model::Document) -> (r: Vec<u8>)
    ensures
        r@ == pdf_of(*doc),
{
    pdf_bytes(doc)
}

/// The document as one vector-image text per page: as many outputs as the
/// document has pages, in page order, each computed from its page alone.
pub fn export_svg(doc: &typst::model::Document) -> (r: Vec<String>)
    ensures
        r@.len() == doc_pages(*doc).len(),
        forall|i: int| 0 <= i < r@.len() ==> (#[trigger] r@[i])@ == svg_of(doc_pages(*doc)[i]),
{
    let frames = doc_frames(doc);
    let mut out: Vec<String> = Vec::new();
    let mut i: usize = 0;
    while i < frames.len()
        invariant
            i <= frames@.len(),
            frames@ == doc_pages(*doc),
            out@.len() == i,
            forall|j: int| 0 <= j < i ==> (#[trigger] out@[j])@ == svg_of(frames@[j]),
        decreases frames@.len() - i,
    {
        out.push(frame_svg(&frames[i]));
        i += 1;
    }
    out
}

} // verus!
