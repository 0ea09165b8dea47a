//! Plain text handling on sequences of characters: white space, lines and prefixes.

use vstd::prelude::*;
use vstd::slice::slice_subrange;

verus! {

/// `String::push` appends the given character to the end of the string.
pub assume_specification[ std::string::String::push ](string: &mut String, c: char)
    ensures
        final(string)@ == old(string)@.push(c),
;

/// Whether a character has the Unicode property `White_Space`.
pub open spec fn is_white(c: char) -> bool {
    let p = c as u32;
    ||| 0x09 <= p <= 0x0d
    ||| p == 0x20
    ||| p == 0x85
    ||| p == 0xa0
    ||| p == 0x1680
    ||| 0x2000 <= p <= 0x200a
    ||| p == 0x2028
    ||| p == 0x2029
    ||| p == 0x202f
    ||| p == 0x205f
    ||| p == 0x3000
}

/// The text without its leading white space.
pub open spec fn trimmed_start(s: Seq<char>) -> Seq<char>
    decreases s.len(),
{
    if s.len() > 0 && is_white(s.first()) {
        trimmed_start(s.drop_first())
    } else {
        s
    }
}

/// The text without its trailing white space.
pub open spec fn trimmed_end(s: Seq<char>) -> Seq<char>
    decreases s.len(),
{
    if s.len() > 0 && is_white(s.last()) {
        trimmed_end(s.drop_last())
    } else {
        s
    }
}

/// The text without the white space at either end.
pub open spec fn trimmed(s: Seq<char>) -> Seq<char> {
    trimmed_end(trimmed_start(s))
}

/// Whether `s` begins with `prefix`.
pub open spec fn has_prefix(s: Seq<char>, prefix: Seq<char>) -> bool {
    s.len() >= prefix.len() && s.take(prefix.len() as int) == prefix
}

/// The position of the first line feed, or the length of the text where there is none.
pub open spec fn line_feed_at(s: Seq<char>) -> nat
    decreases s.len(),
{
    if s.len() == 0 || s.first() == '\n' {
        0
    } else {
        1 + line_feed_at(s.drop_first())
    }
}

/// A line without the carriage return that stood before its line feed.
pub open spec fn without_return(s: Seq<char>) -> Seq<char> {
    if s.len() > 0 && s.last() == '\r' {
        s.drop_last()
    } else {
        s
    }
}

/// The lines of a text, without their endings (a line feed, or a carriage return and a line
/// feed). The ending of the last line is optional, and a text that ends with a line ending has no
/// further empty line behind it.
pub open spec fn lines_of(s: Seq<char>) -> Seq<Seq<char>>
    decreases s.len(),
{
    if s.len() == 0 {
        Seq::empty()
    } else if line_feed_at(s) >= s.len() {
        seq![s]
    } else {
        seq![without_return(s.take(line_feed_at(s) as int))] + lines_of(
            s.skip(line_feed_at(s) as int + 1),
        )
    }
}

/// The contents of a list of slices.
pub open spec fn contents(parts: Seq<&[char]>) -> Seq<Seq<char>> {
    parts.map_values(|part: &[char]| part@)
}

/// Texts one after the other with a line feed between any two of them.
pub open spec fn joined_lines(lines: Seq<Seq<char>>) -> Seq<char>
    decreases lines.len(),
{
    if lines.len() == 0 {
        Seq::empty()
    } else if lines.len() == 1 {
        lines[0]
    } else {
        joined_lines(lines.drop_last()) + seq!['\n'] + lines.last()
    }
}

/// The position of the first line feed lies within the text, and what stands before it holds none.
pub proof fn lemma_line_feed_at(s: Seq<char>)
    ensures
        line_feed_at(s) <= s.len(),
        line_feed_at(s) < s.len() ==> s[line_feed_at(s) as int] == '\n',
        forall|i: int| 0 <= i < line_feed_at(s) ==> s[i] != '\n',
    decreases s.len(),
{
    if s.len() > 0 && s.first() != '\n' {
        lemma_line_feed_at(s.drop_first());
        let rest = s.drop_first();
        assert forall|i: int| 0 <= i < line_feed_at(s) implies s[i] != '\n' by {
            if i > 0 {
                assert(s[i] == rest[i - 1]);
            }
        }
    }
}

/// A line feed that is the first of its text is where the text's first line ends.
pub proof fn lemma_line_feed_is_first(s: Seq<char>, at: int)
    requires
        0 <= at <= s.len(),
        at < s.len() ==> s[at] == '\n',
        forall|i: int| 0 <= i < at ==> s[i] != '\n',
    ensures
        line_feed_at(s) == at,
{
    lemma_line_feed_at(s);
    if line_feed_at(s) < at {
        assert(s[line_feed_at(s) as int] != '\n');
    }
}

proof fn lemma_trimmed_start(s: Seq<char>)
    ensures
        trimmed_start(s).len() > 0 ==> !is_white(trimmed_start(s).first()),
    decreases s.len(),
{
    if s.len() > 0 && is_white(s.first()) {
        lemma_trimmed_start(s.drop_first());
    }
}

proof fn lemma_trimmed_end(s: Seq<char>)
    ensures
        trimmed_end(s).len() > 0 ==> !is_white(trimmed_end(s).last()) && trimmed_end(s).first()
            == s.first(),
    decreases s.len(),
{
    if s.len() > 0 && is_white(s.last()) {
        lemma_trimmed_end(s.drop_last());
    }
}

/// A text that neither begins nor ends with white space is not changed by trimming.
pub proof fn law_text_without_outer_white_space_stays(s: Seq<char>)
    requires
        s.len() > 0 ==> !is_white(s.first()) && !is_white(s.last()),
    ensures
        trimmed(s) == s,
{
}

/// A trimmed text neither begins nor ends with white space, so that trimming it again does
/// nothing.
pub proof fn law_text_is_trimmed_once(s: Seq<char>)
    ensures
        trimmed(s).len() > 0 ==> !is_white(trimmed(s).first()) && !is_white(trimmed(s).last()),
        trimmed(trimmed(s)) == trimmed(s),
{
    lemma_trimmed_start(s);
    lemma_trimmed_end(trimmed_start(s));
    law_text_without_outer_white_space_stays(trimmed(s));
}

/// White space at the end of a text makes no difference to what is left of it.
pub proof fn lemma_trailing_white_is_trimmed(s: Seq<char>, white: char)
    requires
        is_white(white),
    ensures
        trimmed(s.push(white)) == trimmed(s),
    decreases s.len(),
{
    let longer = s.push(white);
    if s.len() == 0 {
        assert(longer.drop_first() =~= Seq::<char>::empty());
        assert(s =~= Seq::<char>::empty());
        assert(trimmed_start(longer) == trimmed_start(longer.drop_first()));
    } else if is_white(s.first()) {
        assert(longer.first() == s.first());
        assert(longer.drop_first() =~= s.drop_first().push(white));
        lemma_trailing_white_is_trimmed(s.drop_first(), white);
    } else {
        assert(longer.first() == s.first());
        assert(longer.drop_last() =~= s);
    }
}

/// White space in front of a text or behind it is trimmed away.
pub proof fn law_outer_white_space_is_trimmed(before: Seq<char>, s: Seq<char>, behind: Seq<char>)
    requires
        forall|i: int| 0 <= i < before.len() ==> is_white(#[trigger] before[i]),
        forall|i: int| 0 <= i < behind.len() ==> is_white(#[trigger] behind[i]),
    ensures
        trimmed(before + s + behind) == trimmed(s),
    decreases before.len() + behind.len(),
{
    let whole = before + s + behind;
    if before.len() > 0 {
        let rest = before.drop_first();
        assert(is_white(before[0]));
        assert(whole.first() == before[0]);
        assert(whole.drop_first() =~= rest + s + behind);
        assert forall|i: int| 0 <= i < rest.len() implies is_white(#[trigger] rest[i]) by {
            assert(is_white(before[i + 1]));
        }
        law_outer_white_space_is_trimmed(rest, s, behind);
    } else if behind.len() > 0 {
        let rest = behind.drop_last();
        assert(is_white(behind[behind.len() - 1]));
        assert forall|i: int| 0 <= i < rest.len() implies is_white(#[trigger] rest[i]) by {
            assert(is_white(behind[i]));
        }
        assert(whole =~= (before + s + rest).push(behind.last()));
        lemma_trailing_white_is_trimmed(before + s + rest, behind.last());
        law_outer_white_space_is_trimmed(before, s, rest);
    } else {
        assert(whole =~= s);
    }
}

/// The characters of a string.
pub fn to_chars(text: &str) -> (chars: Vec<char>)
    ensures
        chars@ == text@,
{
    let mut chars: Vec<char> = Vec::new();
    for c in it: text.chars()
        invariant
            chars@ == it.seq().take(it.index() as int),
            it.seq() == text@,
    {
        chars.push(c);
    }
    chars
}

/// The string made of the given characters.
pub fn to_text(chars: &[char]) -> (text: String)
    ensures
        text@ == chars@,
{
    let mut text = String::new();
    let n: usize = chars.len();
    for i in 0..n
        invariant
            n == chars@.len(),
            text@ == chars@.take(i as int),
    {
        text.push(chars[i]);
    }
    text
}

/// Tests a character for the Unicode property `White_Space`.
pub fn is_white_space(c: char) -> (white: bool)
    ensures
        white == is_white(c),
{
    let p: u32 = c as u32;
    (0x09 <= p && p <= 0x0d) || p == 0x20 || p == 0x85 || p == 0xa0 || p == 0x1680
        || (0x2000 <= p && p <= 0x200a) || p == 0x2028 || p == 0x2029 || p == 0x202f || p == 0x205f
        || p == 0x3000
}

/// Cuts the white space off both ends.
pub fn trim(chars: &[char]) -> (inner: &[char])
    ensures
        inner@ == trimmed(chars@),
{
    let n: usize = chars.len();
    let mut start: usize = 0;
    proof {
        assert(chars@.skip(0) =~= chars@);
    }
    while start < n && is_white_space(chars[start])
        invariant
            start <= n == chars@.len(),
            trimmed_start(chars@) == trimmed_start(chars@.skip(start as int)),
        decreases n - start,
    {
        proof {
            assert(chars@.skip(start as int).drop_first() =~= chars@.skip(start + 1));
        }
        start += 1;
    }
    let mut end: usize = n;
    let ghost rest = chars@.skip(start as int);
    proof {
        assert(rest.take(end - start) =~= rest);
    }
    while end > start && is_white_space(chars[end - 1])
        invariant
            start <= end <= n == chars@.len(),
            rest == chars@.skip(start as int),
            trimmed_end(rest) == trimmed_end(rest.take(end - start)),
        decreases end,
    {
        proof {
            assert(rest.take(end - start).drop_last() =~= rest.take(end - start - 1));
        }
        end -= 1;
    }
    proof {
        assert(chars@.subrange(start as int, end as int) =~= rest.take(end - start));
    }
    slice_subrange(chars, start, end)
}

/// Splits a text into its lines.
pub fn split_lines<'a>(chars: &'a [char]) -> (lines: Vec<&'a [char]>)
    ensures
        contents(lines@) == lines_of(chars@),
{
    let n: usize = chars.len();
    let mut lines: Vec<&'a [char]> = Vec::new();
    let mut start: usize = 0;
    proof {
        assert(chars@.skip(0) =~= chars@);
        assert(contents(lines@) + lines_of(chars@) =~= lines_of(chars@));
    }
    while start < n
        invariant
            start <= n == chars@.len(),
            contents(lines@) + lines_of(chars@.skip(start as int)) == lines_of(chars@),
        decreases n - start,
    {
        let ghost rest = chars@.skip(start as int);
        let ghost before = lines@;
        let mut end: usize = start;
        while end < n && chars[end] != '\n'
            invariant
                start <= end <= n == chars@.len(),
                forall|i: int| start <= i < end ==> chars@[i] != '\n',
            decreases n - end,
        {
            end += 1;
        }
        proof {
            lemma_line_feed_is_first(rest, end - start);
        }
        if end == n {
            let line = slice_subrange(chars, start, end);
            lines.push(line);
            proof {
                assert(line@ =~= rest);
                assert(contents(lines@) =~= contents(before).push(rest));
                assert(chars@.skip(n as int) =~= Seq::<char>::empty());
                assert(contents(lines@) + lines_of(chars@.skip(n as int)) =~= contents(before)
                    + seq![rest]);
            }
            start = n;
        } else {
            let stop: usize = if end > start && chars[end - 1] == '\r' {
                end - 1
            } else {
                end
            };
            let line = slice_subrange(chars, start, stop);
            lines.push(line);
            proof {
                let whole = rest.take(end - start);
                assert(line@ =~= without_return(whole));
                assert(contents(lines@) =~= contents(before).push(line@));
                assert(rest.skip(end - start + 1) =~= chars@.skip(end + 1));
                assert(contents(lines@) + lines_of(chars@.skip(end + 1)) =~= contents(before) + (
                seq![line@] + lines_of(chars@.skip(end + 1))));
            }
            start = end + 1;
        }
    }
    proof {
        assert(chars@.skip(n as int) =~= Seq::<char>::empty());
        assert(contents(lines@) + Seq::<Seq<char>>::empty() =~= contents(lines@));
    }
    lines
}

/// Tests whether the characters begin with a given prefix.
pub fn starts_with(chars: &[char], prefix: &str) -> (found: bool)
    ensures
        found == has_prefix(chars@, prefix@),
{
    let wanted = to_chars(prefix);
    if chars.len() < wanted.len() {
        return false;
    }
    let n: usize = wanted.len();
    for i in 0..n
        invariant
            n == wanted@.len() <= chars@.len(),
            wanted@ == prefix@,
            forall|j: int| 0 <= j < i ==> chars@[j] == wanted@[j],
    {
        if chars[i] != wanted[i] {
            proof {
                assert(chars@.take(n as int)[i as int] == chars@[i as int]);
            }
            return false;
        }
    }
    proof {
        assert(chars@.take(n as int) =~= wanted@);
    }
    true
}

} // verus!
