//! What holds of every text that is trimmed, cut into lines or joined from lines.

use vstd::prelude::*;

use crate::stats_laws::is_one_line;
use crate::text::{
    contents, has_prefix, is_white, joined_lines, law_text_is_trimmed_once,
    lemma_line_feed_is_first, lines_of, trimmed, trimmed_end, trimmed_start,
};

verus! {

/// A text begins with another just when the two agree from the first character on for as long as
/// the other lasts.
pub proof fn law_prefix_agrees_character_by_character(s: Seq<char>, prefix: Seq<char>)
    ensures
        has_prefix(s, prefix) <==> prefix.len() <= s.len() && forall|i: int|
            0 <= i < prefix.len() ==> s[i] == #[trigger] prefix[i],
{
    if has_prefix(s, prefix) {
        assert forall|i: int| 0 <= i < prefix.len() implies s[i] == #[trigger] prefix[i] by {
            assert(s.take(prefix.len() as int)[i] == s[i]);
        }
    } else if prefix.len() <= s.len() && forall|i: int|
        0 <= i < prefix.len() ==> s[i] == #[trigger] prefix[i] {
        assert(s.take(prefix.len() as int) =~= prefix);
    }
}

/// The white space characters are the space, the tabulators, the line and page breaks, and the
/// spaces of Unicode.
pub proof fn law_white_space_is_that_of_unicode(c: char)
    ensures
        (c as u32) < 0x80 ==> (is_white(c) <==> c == ' ' || c == '\t' || c == '\n' || c == '\u{b}'
            || c == '\u{c}' || c == '\r'),
        (c as u32) >= 0x80 ==> (is_white(c) <==> c == '\u{85}' || c == '\u{a0}' || c == '\u{1680}'
            || '\u{2000}' <= c <= '\u{200a}' || c == '\u{2028}' || c == '\u{2029}' || c
            == '\u{202f}' || c == '\u{205f}' || c == '\u{3000}'),
{
}

proof fn lemma_cut_start(s: Seq<char>) -> (from: int)
    ensures
        0 <= from <= s.len(),
        trimmed_start(s) == s.skip(from),
        forall|i: int| 0 <= i < from ==> is_white(#[trigger] s[i]),
    decreases s.len(),
{
    if s.len() > 0 && is_white(s.first()) {
        let rest = s.drop_first();
        let from = lemma_cut_start(rest);
        assert(rest.skip(from) =~= s.skip(from + 1));
        assert forall|i: int| 0 <= i < from + 1 implies is_white(#[trigger] s[i]) by {
            if i > 0 {
                assert(is_white(rest[i - 1]));
            }
        }
        from + 1
    } else {
        assert(s.skip(0) =~= s);
        0
    }
}

proof fn lemma_cut_end(s: Seq<char>) -> (to: int)
    ensures
        0 <= to <= s.len(),
        trimmed_end(s) == s.take(to),
        forall|i: int| to <= i < s.len() ==> is_white(#[trigger] s[i]),
    decreases s.len(),
{
    if s.len() > 0 && is_white(s.last()) {
        let rest = s.drop_last();
        let to = lemma_cut_end(rest);
        assert(rest.take(to) =~= s.take(to));
        assert forall|i: int| to <= i < s.len() implies is_white(#[trigger] s[i]) by {
            if i < s.len() - 1 {
                assert(is_white(rest[i]));
            }
        }
        to
    } else {
        assert(s.take(s.len() as int) =~= s);
        s.len() as int
    }
}

/// Trimming takes away white space at the two ends and nothing else, and all of the white space
/// there: what is left is a stretch of the text with no white space at its own ends.
pub proof fn law_trimming_takes_the_outer_white_space(s: Seq<char>) -> (ends: (int, int))
    ensures
        0 <= ends.0 <= ends.1 <= s.len(),
        trimmed(s) == s.subrange(ends.0, ends.1),
        forall|i: int| 0 <= i < ends.0 ==> is_white(#[trigger] s[i]),
        forall|i: int| ends.1 <= i < s.len() ==> is_white(#[trigger] s[i]),
        ends.0 < ends.1 ==> !is_white(s[ends.0]) && !is_white(s[ends.1 - 1]),
{
    let from = lemma_cut_start(s);
    let rest = s.skip(from);
    let to = lemma_cut_end(rest);
    assert(rest.take(to) =~= s.subrange(from, from + to));
    assert forall|i: int| from + to <= i < s.len() implies is_white(#[trigger] s[i]) by {
        assert(is_white(rest[i - from]));
    }
    law_text_is_trimmed_once(s);
    (from, from + to)
}

/// A text that begins with a line and its line feed has that line, without a carriage return at
/// its end, and then the lines of what follows.
pub proof fn law_first_line_ends_at_its_line_feed(line: Seq<char>, rest: Seq<char>)
    requires
        is_one_line(line),
    ensures
        lines_of(line + seq!['\n'] + rest).len() == 1 + lines_of(rest).len(),
        lines_of(line + seq!['\n'] + rest).skip(1) == lines_of(rest),
        line.len() > 0 && line.last() == '\r' ==> lines_of(line + seq!['\n'] + rest)[0]
            == line.drop_last(),
        line.len() == 0 || line.last() != '\r' ==> lines_of(line + seq!['\n'] + rest)[0] == line,
{
    let s = line + seq!['\n'] + rest;
    let k = line.len() as int;
    assert(s[k] == '\n');
    assert forall|i: int| 0 <= i < k implies s[i] != '\n' by {
        assert(line[i] != '\n');
    }
    lemma_line_feed_is_first(s, k);
    assert(s.take(k) =~= line);
    assert(s.skip(k + 1) =~= rest);
    assert(lines_of(s).skip(1) =~= lines_of(rest));
}

/// A text without a line feed is a single line, unless it is empty, which has none.
pub proof fn law_text_without_line_feed_is_one_line(s: Seq<char>)
    requires
        is_one_line(s),
    ensures
        s.len() == 0 ==> lines_of(s).len() == 0,
        s.len() > 0 ==> lines_of(s) == seq![s],
{
    lemma_line_feed_is_first(s, s.len() as int);
}

/// One line joined is that line, and lines joined are the lines before and the lines behind any
/// place among them, joined, with one line feed in between.
pub proof fn law_joining_puts_a_line_feed_between(a: Seq<Seq<char>>, b: Seq<Seq<char>>)
    requires
        a.len() > 0,
        b.len() > 0,
    ensures
        joined_lines(a + b) == joined_lines(a) + seq!['\n'] + joined_lines(b),
        a.len() == 1 ==> joined_lines(a) == a[0],
        joined_lines(Seq::<Seq<char>>::empty()).len() == 0,
    decreases b.len(),
{
    let all = a + b;
    assert(all.drop_last() =~= a + b.drop_last());
    if b.len() == 1 {
        assert(a + b.drop_last() =~= a);
    } else {
        law_joining_puts_a_line_feed_between(a, b.drop_last());
        assert(joined_lines(all) =~= joined_lines(a) + seq!['\n'] + joined_lines(b));
    }
}

/// Lines that are joined and cut up again are the same lines, where they hold no line ending and
/// the last one is not empty.
pub proof fn law_joined_lines_are_cut_up_again(lines: Seq<Seq<char>>)
    requires
        lines.len() > 0,
        lines.last().len() > 0,
        forall|i: int| 0 <= i < lines.len() ==> is_one_line(#[trigger] lines[i]),
        forall|i: int|
            0 <= i < lines.len() - 1 && (#[trigger] lines[i]).len() > 0 ==> lines[i].last() != '\r',
    ensures
        lines_of(joined_lines(lines)) == lines,
    decreases lines.len(),
{
    assert(is_one_line(lines[0]));
    if lines.len() == 1 {
        law_text_without_line_feed_is_one_line(lines[0]);
        assert(lines =~= seq![lines[0]]);
    } else {
        let rest = lines.drop_first();
        assert forall|i: int| 0 <= i < rest.len() implies is_one_line(#[trigger] rest[i]) by {
            assert(is_one_line(lines[i + 1]));
        }
        assert forall|i: int|
            0 <= i < rest.len() - 1 && (#[trigger] rest[i]).len() > 0 implies rest[i].last()
            != '\r' by {
            assert(lines[i + 1].last() != '\r');
        }
        law_joined_lines_are_cut_up_again(rest);
        law_joining_puts_a_line_feed_between(seq![lines[0]], rest);
        assert(seq![lines[0]] + rest =~= lines);
        law_first_line_ends_at_its_line_feed(lines[0], joined_lines(rest));
        let read = lines_of(joined_lines(lines));
        assert forall|i: int| 0 <= i < read.len() implies read[i] == lines[i] by {
            if i > 0 {
                assert(read.skip(1)[i - 1] == rest[i - 1]);
            }
        }
        assert(read =~= lines);
    }
}

/// The contents of slices are their characters, slice by slice.
pub proof fn law_contents_are_those_of_each_slice(parts: Seq<&[char]>)
    ensures
        contents(parts).len() == parts.len(),
        forall|i: int| 0 <= i < parts.len() ==> #[trigger] contents(parts)[i] == parts[i]@,
{
}

} // verus!
