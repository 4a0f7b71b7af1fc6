//! What holds of every reflow.

use vstd::prelude::*;
use crate::reflow::{bodies, feed_all, feed_fragment, feed_text, paragraphs, start, Reflow};
use crate::text::is_markup;

verus! {

/// The fragments written one after the other as one text.
pub open spec fn joined(fragments: Seq<Seq<char>>) -> Seq<char>
    decreases fragments.len(),
{
    if fragments.len() == 0 {
        Seq::empty()
    } else {
        joined(fragments.drop_last()) + fragments.last()
    }
}

/// No fragment is markup.
pub open spec fn all_plain(fragments: Seq<Seq<char>>) -> bool {
    forall|i: int| 0 <= i < fragments.len() ==> !is_markup(#[trigger] fragments[i])
}

/// A blank line ends at position `k`: the characters at `k - 1` and `k` are
/// both newlines.
pub open spec fn blank_line_at(text: Seq<char>, k: int) -> bool {
    0 < k < text.len() && text[k - 1] == '\n' && text[k] == '\n'
}

/// The text holds a blank line.
pub open spec fn has_blank_line(text: Seq<char>) -> bool {
    exists|k: int| blank_line_at(text, k)
}

/// The number of positions of the text at which a blank line ends.
pub open spec fn blank_line_ends(text: Seq<char>) -> nat
    decreases text.len(),
{
    if text.len() == 0 {
        0
    } else if blank_line_at(text, text.len() - 1) {
        blank_line_ends(text.drop_last()) + 1
    } else {
        blank_line_ends(text.drop_last())
    }
}

/// The number of runs that a blank line closes when the text is split at each
/// pair of newlines, taken from the left and without overlap. What follows the
/// last pair is an open run and is not counted.
pub open spec fn closed_runs(text: Seq<char>) -> nat
    decreases text.len(),
{
    if text.len() < 2 {
        0
    } else if text[0] == '\n' && text[1] == '\n' {
        closed_runs(text.skip(2)) + 1
    } else {
        closed_runs(text.skip(1))
    }
}

/// No three newlines stand in a row.
pub open spec fn no_triple_newline(text: Seq<char>) -> bool {
    forall|k: int|
        0 < k < text.len() - 1 ==> !(text[k - 1] == '\n' && #[trigger] text[k] == '\n' && text[k
            + 1] == '\n')
}

/// The last character of a text, or `before` for the empty text.
pub open spec fn last_or(before: char, text: Seq<char>) -> char {
    if text.len() == 0 {
        before
    } else {
        text.last()
    }
}

/// Feeding a text in two parts is feeding it whole.
pub proof fn lemma_feed_text_split(s: Reflow, a: Seq<char>, b: Seq<char>)
    ensures
        feed_text(s, a + b) == feed_text(feed_text(s, a), b),
    decreases b.len(),
{
    if b.len() == 0 {
        assert(a + b =~= a);
    } else {
        assert((a + b).drop_last() =~= a + b.drop_last());
        assert((a + b).last() == b.last());
        lemma_feed_text_split(s, a, b.drop_last());
    }
}

/// Feeding fragments in two parts is feeding them whole.
pub proof fn lemma_feed_all_split(s: Reflow, a: Seq<Seq<char>>, b: Seq<Seq<char>>)
    ensures
        feed_all(s, a + b) == feed_all(feed_all(s, a), b),
    decreases b.len(),
{
    if b.len() == 0 {
        assert(a + b =~= a);
    } else {
        assert((a + b).drop_last() =~= a + b.drop_last());
        assert((a + b).last() == b.last());
        lemma_feed_all_split(s, a, b.drop_last());
    }
}

/// Plain fragments reflow as their joined text does.
pub proof fn lemma_plain_is_text(s: Reflow, fragments: Seq<Seq<char>>)
    requires
        all_plain(fragments),
    ensures
        feed_all(s, fragments) == feed_text(s, joined(fragments)),
    decreases fragments.len(),
{
    if fragments.len() > 0 {
        let front = fragments.drop_last();
        assert(forall|i: int| 0 <= i < front.len() ==> front[i] == fragments[i]);
        lemma_plain_is_text(s, front);
        lemma_feed_text_split(s, joined(front), fragments.last());
    }
}

/// A text moves the window to its last character, flushes one paragraph for
/// each blank line that ends in it or at its first character, and never takes
/// a paragraph back.
pub proof fn lemma_feed_text_counts(s: Reflow, text: Seq<char>)
    ensures
        feed_text(s, text).newer == last_or(s.newer, text),
        feed_text(s, text).flushed.len() == s.flushed.len() + blank_line_ends(text) + (if s.newer
            == '\n' && text.len() > 0 && text[0] == '\n' {
            1nat
        } else {
            0nat
        }),
    decreases text.len(),
{
    if text.len() > 0 {
        let front = text.drop_last();
        lemma_feed_text_counts(s, front);
        if front.len() > 0 {
            assert(front.last() == text[text.len() - 2]);
            assert(front[0] == text[0]);
        }
    }
}

/// Fragments never take a flushed paragraph back.
pub proof fn lemma_feed_all_grows(s: Reflow, fragments: Seq<Seq<char>>)
    ensures
        feed_all(s, fragments).flushed.len() >= s.flushed.len(),
    decreases fragments.len(),
{
    if fragments.len() > 0 {
        let before = feed_all(s, fragments.drop_last());
        lemma_feed_all_grows(s, fragments.drop_last());
        lemma_feed_text_counts(before, fragments.last());
    }
}

/// A text with a blank line has a position at which one ends.
pub proof fn lemma_blank_line_counted(text: Seq<char>)
    requires
        has_blank_line(text),
    ensures
        blank_line_ends(text) > 0,
    decreases text.len(),
{
    let k = choose|k: int| blank_line_at(text, k);
    if k < text.len() - 1 {
        let front = text.drop_last();
        assert(blank_line_at(front, k));
        lemma_blank_line_counted(front);
    }
}

/// Counting blank-line ends from the left.
pub proof fn lemma_blank_line_ends_front(text: Seq<char>)
    requires
        text.len() > 0,
    ensures
        blank_line_ends(text) == blank_line_ends(text.skip(1)) + (if blank_line_at(text, 1) {
            1nat
        } else {
            0nat
        }),
    decreases text.len(),
{
    let rest = text.skip(1);
    if text.len() == 1 {
        assert(rest =~= Seq::<char>::empty());
        assert(text.drop_last() =~= Seq::<char>::empty());
    } else {
        let front = text.drop_last();
        let n = text.len() - 1;
        lemma_blank_line_ends_front(front);
        assert(front.skip(1) =~= rest.drop_last());
        if n == 1 {
            assert(!blank_line_at(front, 1));
            assert(!blank_line_at(rest, 0));
        } else {
            assert(blank_line_at(front, 1) == blank_line_at(text, 1));
            assert(blank_line_at(text, n) == blank_line_at(rest, n - 1));
        }
    }
}

/// Where no three newlines stand in a row, every blank-line end closes a run of
/// its own.
pub proof fn lemma_closed_runs_are_blank_line_ends(text: Seq<char>)
    requires
        no_triple_newline(text),
    ensures
        closed_runs(text) == blank_line_ends(text),
    decreases text.len(),
{
    if text.len() == 0 {
    } else if text.len() == 1 {
        assert(text.drop_last() =~= Seq::<char>::empty());
        assert(blank_line_ends(Seq::<char>::empty()) == 0);
    } else {
        let rest = text.skip(1);
        assert forall|k: int| 0 < k < rest.len() - 1 implies !(rest[k - 1] == '\n'
            && #[trigger] rest[k] == '\n' && rest[k + 1] == '\n') by {
            assert(rest[k] == text[k + 1]);
        }
        lemma_blank_line_ends_front(text);
        if text[0] == '\n' && text[1] == '\n' {
            let tail = text.skip(2);
            assert(tail =~= rest.skip(1));
            assert forall|k: int| 0 < k < tail.len() - 1 implies !(tail[k - 1] == '\n'
                && #[trigger] tail[k] == '\n' && tail[k + 1] == '\n') by {
                assert(tail[k] == text[k + 2]);
            }
            lemma_closed_runs_are_blank_line_ends(tail);
            lemma_blank_line_ends_front(rest);
            assert(blank_line_at(text, 1));
            if rest.len() > 1 {
                assert(rest[0] == text[1]);
                assert(rest[1] == text[2]);
                assert(!blank_line_at(rest, 1));
            }
            assert(closed_runs(text) == closed_runs(tail) + 1);
        } else {
            lemma_closed_runs_are_blank_line_ends(rest);
            assert(!blank_line_at(text, 1));
            assert(closed_runs(text) == closed_runs(rest));
        }
    }
}

/// Without markup, there is one paragraph for each position of the joined text
/// at which a blank line ends. What follows the last of them is dropped.
pub proof fn law_paragraph_count(fragments: Seq<Seq<char>>)
    requires
        all_plain(fragments),
    ensures
        paragraphs(fragments).len() == blank_line_ends(joined(fragments)),
{
    lemma_plain_is_text(start(), fragments);
    lemma_feed_text_counts(start(), joined(fragments));
}

/// Without markup, and where no three newlines stand in a row, there are as
/// many paragraphs as the joined text has runs closed by a blank line. The open
/// run after the last blank line gives no paragraph.
pub proof fn law_paragraphs_are_closed_runs(fragments: Seq<Seq<char>>)
    requires
        all_plain(fragments),
        no_triple_newline(joined(fragments)),
    ensures
        paragraphs(fragments).len() == closed_runs(joined(fragments)),
{
    law_paragraph_count(fragments);
    lemma_closed_runs_are_blank_line_ends(joined(fragments));
}

/// A plain fragment that holds a blank line gives at least one paragraph,
/// whatever stands around it.
pub proof fn law_blank_line_gives_paragraph(fragments: Seq<Seq<char>>, i: int)
    requires
        0 <= i < fragments.len(),
        !is_markup(fragments[i]),
        has_blank_line(fragments[i]),
    ensures
        paragraphs(fragments).len() > 0,
{
    let front = fragments.take(i);
    let rest = fragments.skip(i + 1);
    assert(fragments =~= front.push(fragments[i]) + rest);
    lemma_feed_all_split(start(), front.push(fragments[i]), rest);
    let before = feed_all(start(), front);
    assert(front.push(fragments[i]).drop_last() =~= front);
    let after = feed_all(start(), front.push(fragments[i]));
    assert(after == feed_fragment(before, fragments[i]));
    lemma_feed_text_counts(before, fragments[i]);
    lemma_blank_line_counted(fragments[i]);
    lemma_feed_all_grows(after, rest);
}

/// The text that a state has taken in: the flushed bodies, then the buffer.
pub open spec fn taken_in(s: Reflow) -> Seq<char> {
    joined(s.flushed) + s.buffer
}

/// Every flushed body ends with a newline.
pub open spec fn bodies_closed(flushed: Seq<Seq<char>>) -> bool {
    forall|i: int|
        0 <= i < flushed.len() ==> (#[trigger] flushed[i]).len() > 0 && flushed[i].last() == '\n'
}

/// A text is taken in as it stands, and closes every body that it flushes.
pub proof fn lemma_feed_text_keeps(s: Reflow, text: Seq<char>)
    ensures
        taken_in(feed_text(s, text)) == taken_in(s) + text,
        bodies_closed(s.flushed) ==> bodies_closed(feed_text(s, text).flushed),
    decreases text.len(),
{
    if text.len() == 0 {
        assert(taken_in(s) + text =~= taken_in(s));
    } else {
        let before = feed_text(s, text.drop_last());
        let after = feed_text(s, text);
        lemma_feed_text_keeps(s, text.drop_last());
        if before.newer == '\n' && text.last() == '\n' {
            assert(after.flushed.drop_last() =~= before.flushed);
            assert(taken_in(after) =~= taken_in(before).push(text.last()));
        } else {
            assert(taken_in(after) =~= taken_in(before).push(text.last()));
        }
        assert(taken_in(before).push(text.last()) =~= taken_in(s) + text);
    }
}

/// Fragments are taken in as they stand, and close every body that they flush.
pub proof fn lemma_feed_all_keeps(s: Reflow, fragments: Seq<Seq<char>>)
    ensures
        taken_in(feed_all(s, fragments)) == taken_in(s) + joined(fragments),
        bodies_closed(s.flushed) ==> bodies_closed(feed_all(s, fragments).flushed),
    decreases fragments.len(),
{
    if fragments.len() == 0 {
        assert(taken_in(s) + joined(fragments) =~= taken_in(s));
    } else {
        let before = feed_all(s, fragments.drop_last());
        let after = feed_fragment(before, fragments.last());
        lemma_feed_all_keeps(s, fragments.drop_last());
        lemma_feed_text_keeps(before, fragments.last());
        assert(taken_in(after) =~= taken_in(before) + fragments.last());
        assert(taken_in(before) + fragments.last() =~= taken_in(s) + joined(fragments));
    }
}

/// The paragraph bodies are consecutive pieces of the joined fragments, from
/// its start on: nothing is lost, added or moved before the text that is
/// dropped at the end.
pub proof fn law_bodies_spell_the_text(fragments: Seq<Seq<char>>)
    ensures
        joined(bodies(fragments)) + feed_all(start(), fragments).buffer == joined(fragments),
{
    lemma_feed_all_keeps(start(), fragments);
    assert(taken_in(start()) =~= Seq::<char>::empty());
    assert(taken_in(start()) + joined(fragments) =~= joined(fragments));
}

/// Every paragraph body ends with a newline: the one that completed the blank
/// line at which it was flushed.
pub proof fn law_bodies_end_with_newline(fragments: Seq<Seq<char>>, i: int)
    requires
        0 <= i < bodies(fragments).len(),
    ensures
        bodies(fragments)[i].len() > 0,
        bodies(fragments)[i].last() == '\n',
{
    lemma_feed_all_keeps(start(), fragments);
}

} // verus!
