//! What holds of reading any `ccache -s` output.

use vstd::prelude::*;

use crate::decimal::is_decimal;
use crate::digits::{is_digit, is_number_char, lemma_run_is_leading, number_runs};
use crate::format::{decimal_text, law_decimal_text_reads_back};
use crate::stats::{
    kind_of, latest_count, latest_size, opened_by, parsed_stats, section_of, stats_in,
    trimmed_lines, two_decimals, two_ints, Kind, Section,
};
use crate::text::{
    is_white, lemma_line_feed_at, lemma_line_feed_is_first, lemma_trailing_white_is_trimmed,
    line_feed_at, lines_of, trimmed, without_return,
};
use crate::text_laws::law_first_line_ends_at_its_line_feed;

verus! {

/// Whether a text holds no line feed.
pub open spec fn is_one_line(s: Seq<char>) -> bool {
    forall|i: int| 0 <= i < s.len() ==> s[i] != '\n'
}

/// Whether a text consists of whole lines, each with its ending.
pub open spec fn is_whole_lines(s: Seq<char>) -> bool {
    s.len() == 0 || s.last() == '\n'
}

/// Whether a text holds nothing that can stand in a number.
pub open spec fn is_numberless(s: Seq<char>) -> bool {
    forall|i: int| 0 <= i < s.len() ==> !is_number_char(#[trigger] s[i])
}

/// The lines of a text that follows whole lines come behind these lines.
pub proof fn law_lines_add_up(head: Seq<char>, tail: Seq<char>)
    requires
        is_whole_lines(head),
    ensures
        lines_of(head + tail) == lines_of(head) + lines_of(tail),
    decreases head.len(),
{
    if head.len() == 0 {
        assert(head + tail =~= tail);
        assert(lines_of(head) + lines_of(tail) =~= lines_of(tail));
    } else {
        lemma_line_feed_at(head);
        let k = line_feed_at(head) as int;
        assert(head[head.len() - 1] == '\n');
        assert(k < head.len());
        assert forall|i: int| 0 <= i < k implies (head + tail)[i] != '\n' by {
            assert(head[i] != '\n');
        }
        lemma_line_feed_is_first(head + tail, k);
        let rest = head.skip(k + 1);
        assert((head + tail).take(k) =~= head.take(k));
        assert((head + tail).skip(k + 1) =~= rest + tail);
        if rest.len() > 0 {
            assert(rest.last() == head.last());
        }
        law_lines_add_up(rest, tail);
        let first = seq![without_return(head.take(k))];
        assert(first + (lines_of(rest) + lines_of(tail)) =~= (first + lines_of(rest)) + lines_of(
            tail,
        ));
    }
}

proof fn lemma_first_line(line: Seq<char>, rest: Seq<char>)
    requires
        is_one_line(line),
    ensures
        lines_of(line + seq!['\n'] + rest) == seq![without_return(line)] + lines_of(rest),
{
    law_first_line_ends_at_its_line_feed(line, rest);
    let all = lines_of(line + seq!['\n'] + rest);
    assert forall|i: int| 1 <= i < all.len() implies all[i] == lines_of(rest)[i - 1] by {
        assert(all.skip(1)[i - 1] == all[i]);
    }
    assert(all =~= seq![without_return(line)] + lines_of(rest));
}

proof fn lemma_return_is_trimmed(line: Seq<char>)
    ensures
        trimmed(without_return(line)) == trimmed(line),
{
    if line.len() > 0 && line.last() == '\r' {
        assert(line =~= line.drop_last().push('\r'));
        lemma_trailing_white_is_trimmed(line.drop_last(), '\r');
    }
}

proof fn lemma_trimmed_lines_join(a: Seq<Seq<char>>, b: Seq<Seq<char>>)
    ensures
        (a + b).map_values(|line: Seq<char>| trimmed(line)) == a.map_values(
            |line: Seq<char>| trimmed(line),
        ) + b.map_values(|line: Seq<char>| trimmed(line)),
{
    assert((a + b).map_values(|line: Seq<char>| trimmed(line)) =~= a.map_values(
        |line: Seq<char>| trimmed(line),
    ) + b.map_values(|line: Seq<char>| trimmed(line)));
}

/// A line amid a text stands, trimmed, between the lines before it and those behind it.
pub proof fn lemma_trimmed_lines_of_middle(head: Seq<char>, line: Seq<char>, rest: Seq<char>)
    requires
        is_whole_lines(head),
        is_one_line(line),
    ensures
        trimmed_lines(head + (line + seq!['\n'] + rest)) == trimmed_lines(head) + (seq![
            trimmed(line),
        ] + trimmed_lines(rest)),
{
    law_lines_add_up(head, line + seq!['\n'] + rest);
    lemma_first_line(line, rest);
    lemma_return_is_trimmed(line);
    lemma_trimmed_lines_join(lines_of(head), seq![without_return(line)] + lines_of(rest));
    lemma_trimmed_lines_join(seq![without_return(line)], lines_of(rest));
    assert(seq![without_return(line)].map_values(|l: Seq<char>| trimmed(l)) =~= seq![
        trimmed(line),
    ]);
}

/// Whether a line ends with a line feed alone or with a carriage return and a line feed makes no
/// difference to what is read.
pub proof fn law_line_endings_are_alike(head: Seq<char>, line: Seq<char>, rest: Seq<char>)
    requires
        is_whole_lines(head),
        is_one_line(line),
    ensures
        parsed_stats(head + (line + seq!['\r', '\n'] + rest)) == parsed_stats(
            head + (line + seq!['\n'] + rest),
        ),
{
    let longer = line.push('\r');
    assert(line + seq!['\r', '\n'] + rest =~= longer + seq!['\n'] + rest);
    assert forall|i: int| 0 <= i < longer.len() implies longer[i] != '\n' by {
        if i < line.len() {
            assert(line[i] != '\n');
        }
    }
    lemma_trimmed_lines_of_middle(head, line, rest);
    lemma_trimmed_lines_of_middle(head, longer, rest);
    lemma_trailing_white_is_trimmed(line, '\r');
}

proof fn lemma_joined_last(a: Seq<Seq<char>>, b: Seq<Seq<char>>)
    requires
        b.len() > 0,
    ensures
        (a + b).last() == b.last(),
        (a + b).drop_last() == a + b.drop_last(),
{
    assert((a + b).drop_last() =~= a + b.drop_last());
}

proof fn lemma_other_line_leaves_section(a: Seq<Seq<char>>, other: Seq<char>, b: Seq<Seq<char>>)
    requires
        kind_of(other) == Kind::Other,
    ensures
        section_of(a.push(other) + b) == section_of(a + b),
    decreases b.len(),
{
    if b.len() == 0 {
        assert(a.push(other) + b =~= a.push(other));
        assert(a + b =~= a);
        assert(a.push(other).drop_last() =~= a);
    } else {
        lemma_joined_last(a.push(other), b);
        lemma_joined_last(a, b);
        lemma_other_line_leaves_section(a, other, b.drop_last());
    }
}

proof fn lemma_other_line_leaves_counts(
    a: Seq<Seq<char>>,
    other: Seq<char>,
    b: Seq<Seq<char>>,
    kind: Kind,
)
    requires
        kind_of(other) == Kind::Other,
        kind != Kind::Other,
    ensures
        latest_count(a.push(other) + b, kind) == latest_count(a + b, kind),
        latest_size(a.push(other) + b) == latest_size(a + b),
    decreases b.len(),
{
    if b.len() == 0 {
        assert(a.push(other) + b =~= a.push(other));
        assert(a + b =~= a);
        assert(a.push(other).drop_last() =~= a);
    } else {
        lemma_joined_last(a.push(other), b);
        lemma_joined_last(a, b);
        lemma_other_line_leaves_section(a, other, b);
        lemma_other_line_leaves_counts(a, other, b.drop_last(), kind);
    }
}

/// A line of no known kind can stand anywhere among the lines without a difference to what is
/// read.
pub proof fn law_other_lines_are_ignored(
    before: Seq<Seq<char>>,
    other: Seq<char>,
    after: Seq<Seq<char>>,
)
    requires
        kind_of(other) == Kind::Other,
    ensures
        stats_in(before.push(other) + after) == stats_in(before + after),
{
    lemma_other_line_leaves_counts(before, other, after, Kind::CacheableCalls);
    lemma_other_line_leaves_counts(before, other, after, Kind::UncacheableCalls);
    lemma_other_line_leaves_counts(before, other, after, Kind::Hits);
    lemma_other_line_leaves_counts(before, other, after, Kind::Misses);
}

proof fn lemma_empty_line_is_other()
    ensures
        kind_of(Seq::<char>::empty()) == Kind::Other,
{
    reveal_strlit("Cacheable calls:");
    reveal_strlit("Uncacheable calls:");
    reveal_strlit("Local storage:");
    reveal_strlit("Hits:");
    reveal_strlit("Misses:");
    reveal_strlit("Cache size (GB):");
    reveal_strlit("Cache size (GiB):");
}

proof fn lemma_white_text_is_trimmed_away(s: Seq<char>)
    requires
        forall|i: int| 0 <= i < s.len() ==> is_white(#[trigger] s[i]),
    ensures
        trimmed(s) == Seq::<char>::empty(),
    decreases s.len(),
{
    if s.len() > 0 {
        assert(is_white(s[0]));
        assert forall|i: int| 0 <= i < s.drop_first().len() implies is_white(
            #[trigger] s.drop_first()[i],
        ) by {
            assert(is_white(s[i + 1]));
        }
        lemma_white_text_is_trimmed_away(s.drop_first());
    } else {
        assert(s =~= Seq::<char>::empty());
    }
}

/// A blank line can stand between any two lines without a difference to what is read.
pub proof fn law_blank_lines_are_ignored(head: Seq<char>, blank: Seq<char>, rest: Seq<char>)
    requires
        is_whole_lines(head),
        is_one_line(blank),
        forall|i: int| 0 <= i < blank.len() ==> is_white(#[trigger] blank[i]),
    ensures
        parsed_stats(head + (blank + seq!['\n'] + rest)) == parsed_stats(head + rest),
{
    let nothing = Seq::<char>::empty();
    lemma_trimmed_lines_of_middle(head, blank, rest);
    lemma_white_text_is_trimmed_away(blank);
    law_lines_add_up(head, rest);
    lemma_trimmed_lines_join(lines_of(head), lines_of(rest));
    lemma_empty_line_is_other();
    assert(trimmed_lines(head) + (seq![nothing] + trimmed_lines(rest)) =~= trimmed_lines(head).push(
        nothing,
    ) + trimmed_lines(rest));
    law_other_lines_are_ignored(trimmed_lines(head), nothing, trimmed_lines(rest));
}

proof fn lemma_no_count_without_lines(lines: Seq<Seq<char>>, kind: Kind)
    requires
        forall|i: int| 0 <= i < lines.len() ==> kind_of(#[trigger] lines[i]) != kind,
    ensures
        latest_count(lines, kind) is None,
    decreases lines.len(),
{
    if lines.len() > 0 {
        assert(kind_of(lines[lines.len() - 1]) != kind);
        assert forall|i: int| 0 <= i < lines.drop_last().len() implies kind_of(
            #[trigger] lines.drop_last()[i],
        ) != kind by {
            assert(kind_of(lines[i]) != kind);
        }
        lemma_no_count_without_lines(lines.drop_last(), kind);
    }
}

/// An output that has no line on the cacheable calls, none on hits or none on misses is rejected.
pub proof fn law_missing_lines_are_rejected(input: Seq<char>, kind: Kind)
    requires
        kind == Kind::CacheableCalls || kind == Kind::Hits || kind == Kind::Misses,
        forall|i: int|
            0 <= i < trimmed_lines(input).len() ==> kind_of(#[trigger] trimmed_lines(input)[i])
                != kind,
    ensures
        parsed_stats(input) is None,
{
    lemma_no_count_without_lines(trimmed_lines(input), kind);
}

proof fn lemma_section_stays(lines: Seq<Seq<char>>, more: Seq<Seq<char>>)
    requires
        forall|i: int| 0 <= i < more.len() ==> opened_by(kind_of(#[trigger] more[i])) is None,
    ensures
        section_of(lines + more) == section_of(lines),
    decreases more.len(),
{
    if more.len() == 0 {
        assert(lines + more =~= lines);
    } else {
        lemma_joined_last(lines, more);
        assert(opened_by(kind_of(more[more.len() - 1])) is None);
        assert forall|i: int| 0 <= i < more.drop_last().len() implies opened_by(
            kind_of(#[trigger] more.drop_last()[i]),
        ) is None by {
            assert(opened_by(kind_of(more[i])) is None);
        }
        lemma_section_stays(lines, more.drop_last());
    }
}

/// The lines on hits and misses that follow outside the section on cacheable calls, such as those
/// of the local storage, change none of the counts.
pub proof fn law_counts_come_from_cacheable_calls_alone(
    lines: Seq<Seq<char>>,
    more: Seq<Seq<char>>,
    kind: Kind,
)
    requires
        section_of(lines) != Section::Cacheable,
        forall|i: int| 0 <= i < more.len() ==> opened_by(kind_of(#[trigger] more[i])) is None,
        kind == Kind::CacheableCalls || kind == Kind::UncacheableCalls || kind == Kind::Hits || kind
            == Kind::Misses,
    ensures
        latest_count(lines + more, kind) == latest_count(lines, kind),
    decreases more.len(),
{
    if more.len() == 0 {
        assert(lines + more =~= lines);
    } else {
        lemma_joined_last(lines, more);
        lemma_section_stays(lines, more);
        assert(opened_by(kind_of(more[more.len() - 1])) is None);
        assert forall|i: int| 0 <= i < more.drop_last().len() implies opened_by(
            kind_of(#[trigger] more.drop_last()[i]),
        ) is None by {
            assert(opened_by(kind_of(more[i])) is None);
        }
        law_counts_come_from_cacheable_calls_alone(lines, more.drop_last(), kind);
    }
}

/// A text without number characters in front adds no numbers.
pub proof fn lemma_numberless_is_skipped(label: Seq<char>, s: Seq<char>)
    requires
        is_numberless(label),
    ensures
        number_runs(label + s) == number_runs(s),
    decreases label.len(),
{
    if label.len() == 0 {
        assert(label + s =~= s);
    } else {
        let all = label + s;
        assert(!is_number_char(label[0]));
        assert(all.first() == label[0]);
        assert(all.drop_first() =~= label.drop_first() + s);
        assert forall|i: int| 0 <= i < label.drop_first().len() implies !is_number_char(
            #[trigger] label.drop_first()[i],
        ) by {
            assert(!is_number_char(label[i + 1]));
        }
        lemma_numberless_is_skipped(label.drop_first(), s);
    }
}

/// A stretch of number characters that nothing extends is the first number.
pub proof fn lemma_leading_number(run: Seq<char>, rest: Seq<char>)
    requires
        run.len() > 0,
        forall|i: int| 0 <= i < run.len() ==> is_number_char(#[trigger] run[i]),
        rest.len() > 0 ==> !is_number_char(rest.first()),
    ensures
        number_runs(run + rest) == seq![run] + number_runs(rest),
{
    let s = run + rest;
    assert forall|i: int| 0 <= i < run.len() implies is_number_char(#[trigger] s[i]) by {
        assert(is_number_char(run[i]));
    }
    if rest.len() > 0 {
        assert(s[run.len() as int] == rest.first());
    }
    lemma_run_is_leading(s, run.len() as int);
    assert(s.take(run.len() as int) =~= run);
    assert(s.skip(run.len() as int) =~= rest);
    if rest.len() == 0 {
        assert(s =~= run);
        assert(seq![run] + number_runs(rest) =~= seq![run]);
    }
}

proof fn lemma_first_two_numbers(
    label: Seq<char>,
    first: Seq<char>,
    gap: Seq<char>,
    second: Seq<char>,
    rest: Seq<char>,
)
    requires
        is_numberless(label),
        is_numberless(gap),
        gap.len() > 0,
        rest.len() > 0 ==> !is_number_char(rest.first()),
        first.len() > 0,
        second.len() > 0,
        forall|i: int| 0 <= i < first.len() ==> is_number_char(#[trigger] first[i]),
        forall|i: int| 0 <= i < second.len() ==> is_number_char(#[trigger] second[i]),
    ensures
        number_runs(label + first + gap + second + rest) == seq![first, second] + number_runs(rest),
{
    let tail = gap + (second + rest);
    assert(label + first + gap + second + rest =~= label + (first + tail));
    lemma_numberless_is_skipped(label, first + tail);
    assert(!is_number_char(gap[0]));
    assert(tail.first() == gap[0]);
    lemma_leading_number(first, tail);
    lemma_numberless_is_skipped(gap, second + rest);
    lemma_leading_number(second, rest);
    assert(seq![first] + (seq![second] + number_runs(rest)) =~= seq![first, second] + number_runs(
        rest,
    ));
}

/// The two counts in a line such as `Hits: 122262 / 490357 (24.93%)` are read back, whatever they
/// are and whatever words stand around them.
pub proof fn law_written_counts_are_read_back(
    label: Seq<char>,
    first: u64,
    gap: Seq<char>,
    second: u64,
    rest: Seq<char>,
)
    requires
        is_numberless(label),
        is_numberless(gap),
        gap.len() > 0,
        rest.len() > 0 ==> !is_number_char(rest.first()),
    ensures
        two_ints(
            label + decimal_text(first as nat) + gap + decimal_text(second as nat) + rest,
        ) matches Some(numbers) && numbers.0 == first && numbers.1 == second,
{
    let a = decimal_text(first as nat);
    let b = decimal_text(second as nat);
    law_decimal_text_reads_back(first as nat);
    law_decimal_text_reads_back(second as nat);
    assert forall|i: int| 0 <= i < a.len() implies is_number_char(#[trigger] a[i]) by {
        assert(is_digit(a[i]));
    }
    assert forall|i: int| 0 <= i < b.len() implies is_number_char(#[trigger] b[i]) by {
        assert(is_digit(b[i]));
    }
    lemma_first_two_numbers(label, a, gap, b, rest);
}

/// The two sizes in a line such as `Cache size (GB): 15.0 / 15.0 (99.94%)` are read back as they
/// are written.
pub proof fn law_written_sizes_are_read_back(
    label: Seq<char>,
    first: Seq<char>,
    gap: Seq<char>,
    second: Seq<char>,
    rest: Seq<char>,
)
    requires
        is_numberless(label),
        is_decimal(first),
        is_numberless(gap),
        gap.len() > 0,
        is_decimal(second),
        rest.len() > 0 ==> !is_number_char(rest.first()),
    ensures
        two_decimals(label + first + gap + second + rest) matches Some(numbers) && numbers.0 == first
            && numbers.1 == second,
{
    lemma_first_two_numbers(label, first, gap, second, rest);
}

} // verus!
