//! Paragraph reflow: regrouping a stream of fragments into paragraphs at blank
//! lines.
//!
//! A fragment that begins with `<` is markup and is copied into the current
//! paragraph as it stands. Any other fragment is plain text and is scanned one
//! character at a time; whenever the last two plain characters seen are both
//! newlines, the text gathered so far is flushed as one paragraph. Text still
//! gathered when the fragments run out is dropped.

use vstd::prelude::*;
use vstd::string::StringExecFns;
use crate::text::{is_markup, starts_with_angle};

verus! {

/// The state of a reflow after some fragments have been consumed.
pub struct Reflow {
    /// Bodies of the paragraphs flushed so far, in order.
    pub flushed: Seq<Seq<char>>,
    /// Text gathered since the last flush.
    pub buffer: Seq<char>,
    /// The plain character seen before `newer`; `'\0'` until two were seen.
    pub older: char,
    /// The plain character seen last; `'\0'` until one was seen.
    pub newer: char,
}

/// The state before anything was consumed.
pub open spec fn start() -> Reflow {
    Reflow { flushed: Seq::empty(), buffer: Seq::empty(), older: '\0', newer: '\0' }
}

/// A paragraph body inside its container: `<p>`, the body, `</p>`.
pub open spec fn wrap(body: Seq<char>) -> Seq<char> {
    seq!['<', 'p', '>'] + body + seq!['<', '/', 'p', '>']
}

/// Each body inside its container.
pub open spec fn wrap_all(bodies: Seq<Seq<char>>) -> Seq<Seq<char>> {
    Seq::new(bodies.len(), |i: int| wrap(bodies[i]))
}

/// One plain character: it joins the buffer and enters the lookback window;
/// if the window then holds two newlines, the buffer is flushed.
pub open spec fn feed_char(s: Reflow, c: char) -> Reflow {
    let buffer = s.buffer.push(c);
    if s.newer == '\n' && c == '\n' {
        Reflow { flushed: s.flushed.push(buffer), buffer: Seq::empty(), older: s.newer, newer: c }
    } else {
        Reflow { flushed: s.flushed, buffer, older: s.newer, newer: c }
    }
}

/// The characters of a plain fragment, one after the other.
pub open spec fn feed_text(s: Reflow, text: Seq<char>) -> Reflow
    decreases text.len(),
{
    if text.len() == 0 {
        s
    } else {
        feed_char(feed_text(s, text.drop_last()), text.last())
    }
}

/// One fragment: markup joins the buffer whole and leaves the window alone;
/// plain text is fed character by character.
pub open spec fn feed_fragment(s: Reflow, fragment: Seq<char>) -> Reflow {
    if is_markup(fragment) {
        Reflow { buffer: s.buffer + fragment, ..s }
    } else {
        feed_text(s, fragment)
    }
}

/// The fragments one after the other.
pub open spec fn feed_all(s: Reflow, fragments: Seq<Seq<char>>) -> Reflow
    decreases fragments.len(),
{
    if fragments.len() == 0 {
        s
    } else {
        feed_fragment(feed_all(s, fragments.drop_last()), fragments.last())
    }
}

/// The bodies of the paragraphs that a fragment sequence reflows to.
pub open spec fn bodies(fragments: Seq<Seq<char>>) -> Seq<Seq<char>> {
    feed_all(start(), fragments).flushed
}

/// The paragraphs that a fragment sequence reflows to.
pub open spec fn paragraphs(fragments: Seq<Seq<char>>) -> Seq<Seq<char>> {
    wrap_all(bodies(fragments))
}

/// Builds `<p>`, `body`, `</p>` as one string.
fn wrap_paragraph(body: &str) -> (p: String)
    ensures
        p@ == wrap(body@),
{
    proof {
        reveal_strlit("<p>");
        reveal_strlit("</p>");
    }
    let mut p = String::from_str("<p>");
    p.append(body);
    p.append("</p>");
    assert("<p>"@ =~= seq!['<', 'p', '>']);
    assert("</p>"@ =~= seq!['<', '/', 'p', '>']);
    p
}

/// Reflows `fragments` into paragraphs.
pub fn reflow(fragments: &Vec<String>) -> (out: Vec<String>)
    ensures
        out.deep_view() == paragraphs(fragments.deep_view()),
{
    let mut out: Vec<String> = Vec::new();
    let mut buffer = String::new();
    let mut older = '\0';
    let mut newer = '\0';
    let ghost all = fragments.deep_view();
    let ghost mut state = start();
    let mut i: usize = 0;
    assert(all.take(0) =~= Seq::<Seq<char>>::empty());
    while i < fragments.len()
        invariant
            i <= fragments.len(),
            all == fragments.deep_view(),
            state == feed_all(start(), all.take(i as int)),
            out.deep_view() =~= wrap_all(state.flushed),
            buffer@ == state.buffer,
            older == state.older,
            newer == state.newer,
        decreases fragments.len() - i,
    {
        let line = fragments[i].as_str();
        let ghost before = state;
        assert(all[i as int] == line@);
        if !starts_with_angle(line) {
            assert(line@.take(0) =~= Seq::<char>::empty());
            for c in it: line.chars()
                invariant
                    it.seq() == line@,
                    state == feed_text(before, line@.take(it.index())),
                    out.deep_view() =~= wrap_all(state.flushed),
                    buffer@ == state.buffer,
                    older == state.older,
                    newer == state.newer,
            {
                proof {
                    let k = it.index();
                    assert(line@.take(k + 1).drop_last() =~= line@.take(k));
                    assert(line@.take(k + 1).last() == c);
                    state = feed_char(state, c);
                }
                buffer.push(c);
                older = newer;
                newer = c;
                if older == '\n' && newer == '\n' {
                    let p = wrap_paragraph(buffer.as_str());
                    let ghost earlier = out.deep_view();
                    out.push(p);
                    assert(out.deep_view() =~= earlier.push(wrap(buffer@)));
                    buffer = String::new();
                }
            }
            assert(line@.take(line@.len() as int) =~= line@);
        } else {
            buffer.append(line);
            proof {
                state = feed_fragment(state, line@);
            }
        }
        proof {
            assert(all.take(i + 1).drop_last() =~= all.take(i as int));
            assert(all.take(i + 1).last() == line@);
        }
        i += 1;
    }
    assert(all.take(i as int) =~= all);
    out
}

} // verus!
