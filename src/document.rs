use vstd::prelude::*;

use crate::escp::{count_byte, document_bytes, grids_of, init_bytes, render_document, FF};
use crate::page::Page;

verus! {

/// An ordered, immutable sequence of pages.
#[derive(Clone, Debug)]
pub struct Document {
    pages: Vec<Page>,
}

impl Document {
    /// The pages, in order.
    pub closed spec fn spec_pages(&self) -> Seq<Page> {
        self.pages@
    }

    /// Starts an empty document.
    pub fn builder() -> (b: DocumentBuilder)
        ensures
            b.spec_pages() == Seq::<Page>::empty(),
    {
        DocumentBuilder::new()
    }

    /// The pages, in order.
    pub fn pages(&self) -> (r: &[Page])
        ensures
            r@ == self.spec_pages(),
    {
        self.pages.as_slice()
    }

    /// The number of pages.
    pub fn page_count(&self) -> (n: usize)
        ensures
            n == self.spec_pages().len(),
    {
        self.pages.len()
    }

    /// The byte stream for the printer.
    ///
    /// It is a function of the pages' cells alone, starts with the init codes,
    /// and holds exactly one form feed per page.
    pub fn render(&self) -> (r: Vec<u8>)
        ensures
            r@ == document_bytes(grids_of(self.spec_pages())),
            r@.subrange(0, 3) == init_bytes(),
            count_byte(r@, FF) == self.spec_pages().len(),
    {
        render_document(self.pages.as_slice())
    }
}

/// Collects pages in order; `build` freezes them into a document.
pub struct DocumentBuilder {
    pages: Vec<Page>,
}

impl DocumentBuilder {
    /// The pages added so far.
    pub closed spec fn spec_pages(&self) -> Seq<Page> {
        self.pages@
    }

    /// A builder with no pages.
    pub fn new() -> (b: DocumentBuilder)
        ensures
            b.spec_pages() == Seq::<Page>::empty(),
    {
        DocumentBuilder { pages: Vec::new() }
    }

    /// The number of pages added so far.
    pub fn page_count(&self) -> (n: usize)
        ensures
            n == self.spec_pages().len(),
    {
        self.pages.len()
    }

    /// Appends a page; pages are rendered in the order they were added.
    pub fn add_page(&mut self, page: Page)
        ensures
            final(self).spec_pages() == old(self).spec_pages().push(page),
    {
        self.pages.push(page);
    }

    /// Freezes the builder into a document.
    pub fn build(self) -> (d: Document)
        ensures
            d.spec_pages() == self.spec_pages(),
    {
        Document { pages: self.pages }
    }
}

/// Rendering is deterministic: the bytes depend on nothing but the pages'
/// cells, so documents with the same cells, or one document rendered again,
/// give the same bytes.
pub proof fn lemma_render_deterministic(a: Document, b: Document)
    requires
        grids_of(a.spec_pages()) == grids_of(b.spec_pages()),
    ensures
        document_bytes(grids_of(a.spec_pages())) == document_bytes(grids_of(b.spec_pages())),
{
}

} // verus!
