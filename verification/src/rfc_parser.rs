//! The document that a lookup produces: its number, its title and its text.

use vstd::prelude::*;
use crate::dom::{parse_html, parsed_dom, parses, preformatted_children, read_preformatted};
use crate::extract::{extract, fragments_of, title_of, Child, ChildView};
use crate::reflow::{paragraphs, reflow};

verus! {

/// Why a lookup gave no document.
#[derive(Clone, Copy, Debug, PartialEq, Eq, Structural)]
pub enum LookupError {
    /// The number was missing or was no positive decimal number.
    Input,
    /// The source answered with a status other than 200, or not at all.
    Fetch,
    /// The page was too long to be parsed.
    Parse,
}

/// One RFC, ready to be shown.
#[derive(Debug)]
pub struct RFCData {
    /// The number that was asked for.
    pub num: u32,
    /// The title; "Title Missing" where the page names none.
    pub title: String,
    /// The text: fragments after extraction, paragraphs after [`RFCData::clean`].
    pub text: Vec<String>,
}

/// The mathematical value of an [`RFCData`].
pub struct RFCDataView {
    pub num: u32,
    pub title: Seq<char>,
    pub text: Seq<Seq<char>>,
}

impl View for RFCData {
    type V = RFCDataView;

    open spec fn view(&self) -> RFCDataView {
        RFCDataView { num: self.num, title: self.title@, text: self.text.deep_view() }
    }
}

/// The document that extraction builds from the children of the preformatted
/// blocks: title and fragments, not yet reflowed.
pub open spec fn extracted(num: u32, children: Seq<ChildView>) -> RFCDataView {
    RFCDataView { num, title: title_of(children), text: fragments_of(children) }
}

/// The document with its fragments reflowed into paragraphs.
pub open spec fn cleaned(doc: RFCDataView) -> RFCDataView {
    RFCDataView { num: doc.num, title: doc.title, text: paragraphs(doc.text) }
}

/// The document that a page with this text gives.
pub open spec fn document_of(num: u32, html: Seq<char>) -> RFCDataView {
    cleaned(extracted(num, preformatted_children(parsed_dom(html))))
}

/// What [`RFCData::new`] returns for a response with this status and body.
pub open spec fn lookup_result(num: u32, status: u16, body: Seq<char>) -> Result<
    RFCDataView,
    LookupError,
> {
    if status != 200 {
        Err(LookupError::Fetch)
    } else if !parses(body) {
        Err(LookupError::Parse)
    } else {
        Ok(document_of(num, body))
    }
}

impl Default for RFCData {
    /// The document with number zero, no title and no text.
    fn default() -> (doc: RFCData)
        ensures
            doc@ == (RFCDataView { num: 0, title: Seq::empty(), text: Seq::empty() }),
    {
        let doc = RFCData { num: 0, title: String::new(), text: Vec::new() };
        assert(doc.text.deep_view() =~= Seq::<Seq<char>>::empty());
        doc
    }
}

impl RFCData {
    /// Builds the document for `num` from the response of its source: the
    /// status of the response and, where that is 200, its body. Any other
    /// status is a fetch failure and the body is then not looked at.
    pub fn new(num: u32, status: u16, body: &str) -> (r: Result<RFCData, LookupError>)
        ensures
            match r {
                Ok(doc) => lookup_result(num, status, body@) == Ok::<RFCDataView, LookupError>(
                    doc@,
                ),
                Err(e) => lookup_result(num, status, body@) == Err::<RFCDataView, LookupError>(e),
            },
    {
        if status != 200 {
            return Err(LookupError::Fetch);
        }
        match parse_html(body) {
            Ok(dom) => {
                let mut doc = RFCData::parse(num, &dom);
                doc.clean();
                Ok(doc)
            },
            Err(_) => Err(LookupError::Parse),
        }
    }

    /// Reflows the fragments in `text` into paragraphs; number and title stay.
    pub fn clean(&mut self)
        ensures
            final(self)@ == cleaned(old(self)@),
    {
        let text = reflow(&self.text);
        self.text = text;
    }

    /// Extracts title and fragments from a parsed page: from the direct
    /// children of each of its preformatted blocks.
    pub(crate) fn parse(num: u32, dom: &tl::VDom<'_>) -> (doc: RFCData)
        ensures
            doc@ == extracted(num, preformatted_children(*dom)),
    {
        let children = read_preformatted(dom);
        RFCData::from_children(num, &children)
    }

    /// Extracts title and fragments from the children of the preformatted
    /// blocks.
    pub fn from_children(num: u32, children: &Vec<Child>) -> (doc: RFCData)
        ensures
            doc@ == extracted(num, children.deep_view()),
    {
        let (title, text) = extract(children);
        RFCData { num, title, text }
    }
}

} // verus!
