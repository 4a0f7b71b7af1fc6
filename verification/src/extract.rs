//! Markup extraction: from the children of the preformatted block to a title
//! and an ordered sequence of fragments.
//!
//! An element whose class list names the title class gives the title and no
//! fragment; the last such element wins. An element whose class list names the
//! section class gives nothing. Any other element gives its markup as one
//! fragment, a run of text gives itself, and every other node gives nothing.

use vstd::prelude::*;
use vstd::string::StringExecFns;

verus! {

/// What a direct child of a preformatted block is to the extraction.
pub enum Child {
    /// The title heading, with its text without any markup.
    Title(String),
    /// A section heading.
    Section,
    /// Any other element, with its markup as it stands in the source.
    Markup(String),
    /// A run of text.
    Text(String),
    /// Any other node, such as a comment.
    Other,
}

/// The mathematical value of a [`Child`].
pub enum ChildView {
    Title(Seq<char>),
    Section,
    Markup(Seq<char>),
    Text(Seq<char>),
    Other,
}

impl View for Child {
    type V = ChildView;

    open spec fn view(&self) -> ChildView {
        match self {
            Child::Title(text) => ChildView::Title(text@),
            Child::Section => ChildView::Section,
            Child::Markup(markup) => ChildView::Markup(markup@),
            Child::Text(text) => ChildView::Text(text@),
            Child::Other => ChildView::Other,
        }
    }
}

impl DeepView for Child {
    type V = ChildView;

    open spec fn deep_view(&self) -> ChildView {
        self@
    }
}

/// What an element is to the extraction, by the classes that it is in.
#[derive(Clone, Copy, Debug, PartialEq, Eq, Structural)]
pub enum Role {
    /// In the title class, whatever else it is in.
    Title,
    /// In the section class and not in the title class.
    Section,
    /// In neither.
    Content,
}

/// The role of an element, given whether its class list names the title class
/// and whether it names the section class.
pub open spec fn role_of(in_title_class: bool, in_section_class: bool) -> Role {
    if in_title_class {
        Role::Title
    } else if in_section_class {
        Role::Section
    } else {
        Role::Content
    }
}

/// Decides the role of an element: the title class goes before the section
/// class.
pub fn element_role(in_title_class: bool, in_section_class: bool) -> (role: Role)
    ensures
        role == role_of(in_title_class, in_section_class),
{
    if in_title_class {
        Role::Title
    } else if in_section_class {
        Role::Section
    } else {
        Role::Content
    }
}

/// The class that marks the title heading.
pub open spec fn title_class() -> Seq<char> {
    "h1"@
}

/// The class that marks a section heading.
pub open spec fn section_class() -> Seq<char> {
    "h4"@
}

/// The title of a document in which no title heading was found.
pub open spec fn default_title() -> Seq<char> {
    "Title Missing"@
}

/// Whether a child is a title heading.
pub open spec fn is_heading(child: ChildView) -> bool {
    child is Title
}

/// The title that a child gives, if it gives one.
pub open spec fn title_given(child: ChildView) -> Option<Seq<char>> {
    match child {
        ChildView::Title(text) => Some(text),
        _ => None,
    }
}

/// The fragment that a child gives, if it gives one.
pub open spec fn fragment_given(child: ChildView) -> Option<Seq<char>> {
    match child {
        ChildView::Markup(markup) => Some(markup),
        ChildView::Text(text) => Some(text),
        _ => None,
    }
}

/// The title after the children were walked from `current`: that of the last
/// title heading among them, else `current`.
pub open spec fn title_after(current: Seq<char>, children: Seq<ChildView>) -> Seq<char>
    decreases children.len(),
{
    if children.len() == 0 {
        current
    } else {
        match title_given(children.last()) {
            Some(title) => title,
            None => title_after(current, children.drop_last()),
        }
    }
}

/// The title of a document with these children.
pub open spec fn title_of(children: Seq<ChildView>) -> Seq<char> {
    title_after(default_title(), children)
}

/// The fragments that the children give, in their order.
pub open spec fn fragments_of(children: Seq<ChildView>) -> Seq<Seq<char>>
    decreases children.len(),
{
    if children.len() == 0 {
        Seq::empty()
    } else {
        match fragment_given(children.last()) {
            Some(fragment) => fragments_of(children.drop_last()).push(fragment),
            None => fragments_of(children.drop_last()),
        }
    }
}

/// Walks the children in order and gathers the title and the fragments.
pub fn extract(children: &Vec<Child>) -> (r: (String, Vec<String>))
    ensures
        r.0@ == title_of(children.deep_view()),
        r.1.deep_view() == fragments_of(children.deep_view()),
{
    let mut title = String::from_str("Title Missing");
    let mut text: Vec<String> = Vec::new();
    let ghost all = children.deep_view();
    let mut i: usize = 0;
    assert(all.take(0) =~= Seq::<ChildView>::empty());
    while i < children.len()
        invariant
            i <= children.len(),
            all == children.deep_view(),
            title@ == title_of(all.take(i as int)),
            text.deep_view() =~= fragments_of(all.take(i as int)),
        decreases children.len() - i,
    {
        proof {
            assert(all.take(i + 1).drop_last() =~= all.take(i as int));
            assert(all.take(i + 1).last() == children[i as int]@);
        }
        let ghost earlier = text.deep_view();
        match &children[i] {
            Child::Title(heading) => {
                title = heading.clone();
            },
            Child::Markup(markup) => {
                text.push(markup.clone());
                assert(text.deep_view() =~= earlier.push(markup@));
            },
            Child::Text(run) => {
                text.push(run.clone());
                assert(text.deep_view() =~= earlier.push(run@));
            },
            Child::Section | Child::Other => {},
        }
        i += 1;
    }
    assert(all.take(i as int) =~= all);
    (title, text)
}

} // verus!
