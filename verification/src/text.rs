//! Text as the game reads and writes it: characters appended one by one,
//! a search for one character, and a word list cut into its lines.

use vstd::prelude::*;

verus! {

/// The character that ends a line.
pub const LINE_FEED: char = '\n';

/// The character that may stand before a line feed and then belongs to the
/// line ending.
pub const CARRIAGE_RETURN: char = '\r';

/// `String::push` of the standard library: the character is appended at the
/// end of the string and nothing else changes.
pub assume_specification[ String::push ](s: &mut String, ch: char)
    ensures
        final(s)@ == old(s)@.push(ch),
;

/// Whether `c` is one of the characters of `text`.
pub fn has_char(text: &str, c: char) -> (found: bool)
    ensures
        found == text@.contains(c),
{
    let mut found = false;
    for d in it: text.chars()
        invariant
            it.seq() == text@,
            found <==> exists|j: int| 0 <= j < it.index() && text@[j] == c,
    {
        if d == c {
            found = true;
        }
    }
    found
}

/// Where the first line of `text` ends: the position of its first line
/// feed, or the length of `text` if it has none.
pub open spec fn line_end(text: Seq<char>) -> int
    decreases text.len(),
{
    if text.len() == 0 || text[0] == LINE_FEED {
        0
    } else {
        1 + line_end(text.skip(1))
    }
}

/// `line` without the carriage return at its end, if it has one.
pub open spec fn without_return(line: Seq<char>) -> Seq<char> {
    if line.len() > 0 && line.last() == CARRIAGE_RETURN {
        line.drop_last()
    } else {
        line
    }
}

/// The lines of `text`. A line ends at a line feed, or at a carriage return
/// directly followed by one; neither belongs to the line. What follows the
/// last line feed is a line too, unless nothing follows it.
pub open spec fn lines_of(text: Seq<char>) -> Seq<Seq<char>>
    decreases text.len(),
{
    let end = line_end(text);
    if text.len() == 0 {
        Seq::empty()
    } else if 0 <= end < text.len() {
        seq![without_return(text.take(end))] + lines_of(text.skip(end + 1))
    } else {
        seq![text]
    }
}

/// The first line of `text` ends at `end` if no line feed stands before
/// `end` and one stands there, or the text ends there.
pub proof fn lemma_line_end(text: Seq<char>, end: int)
    requires
        0 <= end <= text.len(),
        forall|j: int| 0 <= j < end ==> text[j] != LINE_FEED,
        end < text.len() ==> text[end] == LINE_FEED,
    ensures
        line_end(text) == end,
    decreases end,
{
    if end > 0 {
        lemma_line_end(text.skip(1), end - 1);
    }
}

/// Cuts `text` into its lines, as a word list holds one word on each.
pub fn lines(text: &str) -> (lines: Vec<String>)
    ensures
        lines.deep_view() == lines_of(text@),
{
    let mut lines: Vec<String> = Vec::new();
    let mut line = String::new();
    // A carriage return is held back until the next character shows whether
    // it belongs to the line or to its ending.
    let mut held = false;
    let ghost mut start: int = 0;
    assert(text@.skip(0) =~= text@);
    assert(lines.deep_view() + lines_of(text@) =~= lines_of(text@));
    for c in it: text.chars()
        invariant
            it.seq() == text@,
            0 <= start <= it.index(),
            forall|j: int| start <= j < it.index() ==> text@[j] != LINE_FEED,
            held ==> line@.push(CARRIAGE_RETURN) == text@.subrange(start, it.index()),
            !held ==> line@ == text@.subrange(start, it.index()),
            !held ==> without_return(line@) == line@,
            lines_of(text@) == lines.deep_view() + lines_of(text@.skip(start)),
    {
        let ghost at = it.index();
        if c == LINE_FEED {
            proof {
                let rest = text@.skip(start);
                lemma_line_end(rest, at - start);
                assert(rest.take(at - start) =~= text@.subrange(start, at));
                assert(rest.skip(at - start + 1) =~= text@.skip(at + 1));
                assert(without_return(text@.subrange(start, at)) == line@) by {
                    if held {
                        assert(line@.push(CARRIAGE_RETURN).drop_last() =~= line@);
                    }
                }
                assert(lines.deep_view().push(line@) + lines_of(text@.skip(at + 1)) =~= lines.deep_view()
                    + (seq![line@] + lines_of(text@.skip(at + 1))));
                start = at + 1;
            }
            let ghost before = lines.deep_view();
            lines.push(line);
            assert(lines.deep_view() =~= before.push(line@));
            line = String::new();
            held = false;
            assert(text@.subrange(start, at + 1) =~= Seq::<char>::empty());
        } else {
            if held {
                line.push(CARRIAGE_RETURN);
            }
            if c == CARRIAGE_RETURN {
                held = true;
                assert(line@.push(CARRIAGE_RETURN) =~= text@.subrange(start, at + 1)) by {
                    assert(text@.subrange(start, at + 1) =~= text@.subrange(start, at).push(c));
                }
            } else {
                held = false;
                line.push(c);
                assert(line@ =~= text@.subrange(start, at + 1)) by {
                    assert(text@.subrange(start, at + 1) =~= text@.subrange(start, at).push(c));
                }
            }
        }
    }
    if held {
        line.push(CARRIAGE_RETURN);
    }
    proof {
        let rest = text@.skip(start);
        lemma_line_end(rest, rest.len() as int);
        assert(rest =~= text@.subrange(start, text@.len() as int));
    }
    if !line.as_str().is_empty() {
        let ghost before = lines.deep_view();
        lines.push(line);
        assert(lines.deep_view() =~= before.push(line@));
    } else {
        assert(lines.deep_view() + Seq::<Seq<char>>::empty() =~= lines.deep_view());
    }
    lines
}

} // verus!
