//! What holds of every extraction, and of the documents built on it.

use vstd::prelude::*;
use crate::extract::{
    default_title, fragment_given, fragments_of, is_heading, title_given, title_of, ChildView,
};
use crate::reflow_laws::{has_blank_line, law_blank_line_gives_paragraph};
use crate::rfc_parser::{cleaned, extracted, RFCDataView};
use crate::text::is_markup;

verus! {

/// No child from position `from` on is a title heading.
pub open spec fn no_heading_from(children: Seq<ChildView>, from: int) -> bool {
    forall|k: int| from <= k < children.len() ==> !is_heading(#[trigger] children[k])
}

/// The child at `j` is the last title heading.
pub open spec fn last_heading_at(children: Seq<ChildView>, j: int) -> bool {
    0 <= j < children.len() && is_heading(children[j]) && no_heading_from(children, j + 1)
}

/// The child at `j` is a run of plain text that holds a blank line.
pub open spec fn text_run_at(children: Seq<ChildView>, j: int) -> bool {
    &&& 0 <= j < children.len()
    &&& children[j] matches ChildView::Text(text)
    &&& !is_markup(text)
    &&& has_blank_line(text)
}

/// A title heading gives the title and no fragment.
pub proof fn law_heading_gives_title_only(children: Seq<ChildView>, heading: ChildView)
    requires
        is_heading(heading),
    ensures
        title_given(heading) is Some,
        title_of(children.push(heading)) == title_given(heading)->0,
        fragments_of(children.push(heading)) == fragments_of(children),
{
    assert(children.push(heading).drop_last() =~= children);
}

/// A section heading gives nothing: neither a title nor a fragment.
pub proof fn law_section_gives_nothing(children: Seq<ChildView>)
    ensures
        title_of(children.push(ChildView::Section)) == title_of(children),
        fragments_of(children.push(ChildView::Section)) == fragments_of(children),
{
    assert(children.push(ChildView::Section).drop_last() =~= children);
}

/// The title is the text of the last title heading.
pub proof fn law_last_heading_wins(children: Seq<ChildView>, j: int)
    requires
        last_heading_at(children, j),
    ensures
        title_given(children[j]) is Some,
        title_of(children) == title_given(children[j])->0,
    decreases children.len(),
{
    if j < children.len() - 1 {
        let front = children.drop_last();
        assert(!is_heading(children[children.len() - 1]));
        assert(forall|k: int| 0 <= k < front.len() ==> front[k] == children[k]);
        law_last_heading_wins(front, j);
    }
}

/// Without a title heading the title is the default one.
pub proof fn law_no_heading_default_title(children: Seq<ChildView>)
    requires
        no_heading_from(children, 0),
    ensures
        title_of(children) == default_title(),
    decreases children.len(),
{
    if children.len() > 0 {
        let front = children.drop_last();
        assert(!is_heading(children[children.len() - 1]));
        assert(forall|k: int| 0 <= k < front.len() ==> front[k] == children[k]);
        law_no_heading_default_title(front);
    }
}

/// The fragment that a child gives stands among the fragments.
pub proof fn lemma_fragment_kept(children: Seq<ChildView>, j: int) -> (i: int)
    requires
        0 <= j < children.len(),
        fragment_given(children[j]) is Some,
    ensures
        0 <= i < fragments_of(children).len(),
        fragments_of(children)[i] == fragment_given(children[j])->0,
    decreases children.len(),
{
    let front = children.drop_last();
    if j == children.len() - 1 {
        fragments_of(front).len() as int
    } else {
        assert(front[j] == children[j]);
        lemma_fragment_kept(front, j)
    }
}

/// The title is empty only where the last title heading has no text.
pub proof fn law_title_present(children: Seq<ChildView>)
    requires
        forall|j: int| #[trigger]
            last_heading_at(children, j) ==> (title_given(children[j])->0).len() > 0,
    ensures
        title_of(children).len() > 0,
{
    reveal_strlit("Title Missing");
    if exists|j: int| last_heading_at(children, j) {
        let j = choose|j: int| last_heading_at(children, j);
        law_last_heading_wins(children, j);
    } else {
        lemma_no_last_heading(children, children.len() as int);
        law_no_heading_default_title(children);
    }
}

/// Where no child is the last title heading, no child is a title heading.
proof fn lemma_no_last_heading(children: Seq<ChildView>, n: int)
    requires
        0 <= n <= children.len(),
        no_heading_from(children, n),
        !exists|j: int| last_heading_at(children, j),
    ensures
        no_heading_from(children, 0),
    decreases n,
{
    if n > 0 {
        if is_heading(children[n - 1]) {
            assert(last_heading_at(children, n - 1));
        } else {
            lemma_no_last_heading(children, n - 1);
        }
    }
}

/// A page without a preformatted block, or with empty ones, gives the default
/// title and no text.
pub proof fn law_no_children_default_document(num: u32)
    ensures
        cleaned(extracted(num, Seq::empty())) == (RFCDataView {
            num,
            title: default_title(),
            text: Seq::empty(),
        }),
{
    assert(cleaned(extracted(num, Seq::empty())).text =~= Seq::<Seq<char>>::empty());
}

/// A document has a title and at least one paragraph whenever its
/// preformatted blocks hold a run of plain text with a blank line in it. The
/// one exception: where the last title heading has no text, the title is empty.
pub proof fn law_document_has_title_and_text(num: u32, children: Seq<ChildView>)
    requires
        exists|j: int| text_run_at(children, j),
        forall|j: int| #[trigger]
            last_heading_at(children, j) ==> (title_given(children[j])->0).len() > 0,
    ensures
        cleaned(extracted(num, children)).title.len() > 0,
        cleaned(extracted(num, children)).text.len() > 0,
{
    law_title_present(children);
    let j = choose|j: int| text_run_at(children, j);
    let i = lemma_fragment_kept(children, j);
    law_blank_line_gives_paragraph(fragments_of(children), i);
}

} // verus!
