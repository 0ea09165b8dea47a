//! Which lines of an output the statistics come from.

use vstd::prelude::*;

use crate::decimal::{decimal_value, is_decimal, percent_share, Decimal, Quotient};
use crate::digits::{is_number_char, number_runs, u64_of};
use crate::number_laws::{
    law_numbers_are_the_stretches_of_number_characters,
    law_text_without_number_characters_has_no_numbers,
};
use crate::report_laws::lemma_kind;
use crate::stats::{
    is_read_in, kind_of, latest_count, latest_size, no_stats, parsed_stats, percent_in,
    section_of, stats_in, trimmed_lines, two_decimals, two_ints, Kind, Percent, Section, Stats,
};
use crate::stats_laws::is_numberless;
use crate::text::{has_prefix, lines_of, trimmed};

verus! {

/// A line is of a kind just when it begins with the label of that kind, and of no known kind just
/// when it begins with none of the labels.
pub proof fn law_labels_tell_the_kind(line: Seq<char>)
    ensures
        kind_of(line) == Kind::CacheableCalls <==> has_prefix(line, "Cacheable calls:"@),
        kind_of(line) == Kind::UncacheableCalls <==> has_prefix(line, "Uncacheable calls:"@),
        kind_of(line) == Kind::LocalStorage <==> has_prefix(line, "Local storage:"@),
        kind_of(line) == Kind::Hits <==> has_prefix(line, "Hits:"@),
        kind_of(line) == Kind::Misses <==> has_prefix(line, "Misses:"@),
        kind_of(line) == Kind::CacheSize <==> has_prefix(line, "Cache size (GB):"@) || has_prefix(
            line,
            "Cache size (GiB):"@,
        ),
        kind_of(line) == Kind::Other <==> !has_prefix(line, "Cacheable calls:"@) && !has_prefix(
            line,
            "Uncacheable calls:"@,
        ) && !has_prefix(line, "Local storage:"@) && !has_prefix(line, "Hits:"@) && !has_prefix(
            line,
            "Misses:"@,
        ) && !has_prefix(line, "Cache size (GB):"@) && !has_prefix(line, "Cache size (GiB):"@),
{
    lemma_kind(line);
}

/// Whether a line is one of the three headings.
pub open spec fn is_heading(line: Seq<char>) -> bool {
    ||| has_prefix(line, "Cacheable calls:"@)
    ||| has_prefix(line, "Uncacheable calls:"@)
    ||| has_prefix(line, "Local storage:"@)
}

/// Whether the nearest heading at or above a line is the given one.
pub open spec fn is_below(lines: Seq<Seq<char>>, at: int, heading: Seq<char>) -> bool {
    exists|i: int|
        0 <= i <= at && has_prefix(#[trigger] lines[i], heading) && forall|j: int|
            i < j <= at ==> !is_heading(#[trigger] lines[j])
}

proof fn lemma_section(lines: Seq<Seq<char>>, at: int)
    requires
        0 <= at < lines.len(),
    ensures
        section_of(lines.take(at + 1)) == Section::Cacheable <==> is_below(
            lines,
            at,
            "Cacheable calls:"@,
        ),
        section_of(lines.take(at + 1)) == Section::Local <==> is_below(
            lines,
            at,
            "Local storage:"@,
        ),
    decreases at,
{
    let line = lines[at];
    let upto = lines.take(at + 1);
    assert(upto.last() == line);
    assert(upto.drop_last() =~= lines.take(at));
    law_labels_tell_the_kind(line);
    if is_heading(line) {
        lemma_heading_decides(lines, at, "Cacheable calls:"@);
        lemma_heading_decides(lines, at, "Local storage:"@);
    } else if at == 0 {
        assert(lines.take(0) =~= Seq::<Seq<char>>::empty());
        assert(section_of(lines.take(0)) == Section::Outside);
    } else {
        lemma_section(lines, at - 1);
        lemma_other_line_leaves_heading(lines, at, "Cacheable calls:"@);
        lemma_other_line_leaves_heading(lines, at, "Local storage:"@);
    }
}

proof fn lemma_heading_decides(lines: Seq<Seq<char>>, at: int, heading: Seq<char>)
    requires
        0 <= at < lines.len(),
        is_heading(lines[at]),
    ensures
        is_below(lines, at, heading) <==> has_prefix(lines[at], heading),
{
}

proof fn lemma_other_line_leaves_heading(lines: Seq<Seq<char>>, at: int, heading: Seq<char>)
    requires
        0 < at < lines.len(),
        !is_heading(lines[at]),
        heading == "Cacheable calls:"@ || heading == "Local storage:"@,
    ensures
        is_below(lines, at, heading) <==> is_below(lines, at - 1, heading),
{
    if is_below(lines, at - 1, heading) {
        let i = choose|i: int|
            0 <= i <= at - 1 && has_prefix(#[trigger] lines[i], heading) && forall|j: int|
                i < j <= at - 1 ==> !is_heading(#[trigger] lines[j]);
        assert(has_prefix(lines[i], heading));
        assert forall|j: int| i < j <= at implies !is_heading(#[trigger] lines[j]) by {}
    }
    if is_below(lines, at, heading) {
        let i = choose|i: int|
            0 <= i <= at && has_prefix(#[trigger] lines[i], heading) && forall|j: int|
                i < j <= at ==> !is_heading(#[trigger] lines[j]);
        assert(i < at);
        assert(has_prefix(lines[i], heading));
    }
}

/// The last of some lines belongs to the section on cacheable calls just when the nearest heading
/// is the one on cacheable calls, and to that on the local storage just when it is that one.
pub proof fn law_nearest_heading_tells_the_section(lines: Seq<Seq<char>>)
    requires
        lines.len() > 0,
    ensures
        section_of(lines) == Section::Cacheable <==> is_below(
            lines,
            lines.len() - 1,
            "Cacheable calls:"@,
        ),
        section_of(lines) == Section::Local <==> is_below(
            lines,
            lines.len() - 1,
            "Local storage:"@,
        ),
        section_of(Seq::<Seq<char>>::empty()) == Section::Outside,
{
    lemma_section(lines, lines.len() - 1);
    assert(lines.take(lines.len() as int) =~= lines);
}

/// Whether a line gives a count: it has the label, it stands where lines with that label are
/// read, and it has two whole numbers.
pub open spec fn gives_count(lines: Seq<Seq<char>>, at: int, label: Seq<char>) -> bool {
    &&& has_prefix(lines[at], label)
    &&& label == "Hits:"@ || label == "Misses:"@ ==> is_below(lines, at, "Cacheable calls:"@)
    &&& two_ints(lines[at]) is Some
}

/// Whether a count is the one that the last line to give it gives.
pub open spec fn is_last_count(lines: Seq<Seq<char>>, label: Seq<char>, count: u64) -> bool {
    exists|i: int|
        0 <= i < lines.len() && #[trigger] gives_count(lines, i, label) && (two_ints(lines[i])->0).0
            == count && forall|j: int|
            i < j < lines.len() ==> !#[trigger] gives_count(lines, j, label)
}

/// Whether no line gives a count.
pub open spec fn gives_no_count(lines: Seq<Seq<char>>, label: Seq<char>) -> bool {
    forall|i: int| 0 <= i < lines.len() ==> !#[trigger] gives_count(lines, i, label)
}

/// Whether a line gives a cache size: it has one of the two labels, it stands below the heading on
/// the local storage, and it has two decimal numbers.
pub open spec fn gives_size(lines: Seq<Seq<char>>, at: int) -> bool {
    &&& has_prefix(lines[at], "Cache size (GB):"@) || has_prefix(lines[at], "Cache size (GiB):"@)
    &&& is_below(lines, at, "Local storage:"@)
    &&& two_decimals(lines[at]) is Some
}

/// Whether a cache size is the one that the last line to give it gives.
pub open spec fn is_last_size(lines: Seq<Seq<char>>, used: Seq<char>, max: Seq<char>) -> bool {
    exists|i: int|
        0 <= i < lines.len() && #[trigger] gives_size(lines, i) && (two_decimals(lines[i])->0).0
            == used && (two_decimals(lines[i])->0).1 == max && forall|j: int|
            i < j < lines.len() ==> !#[trigger] gives_size(lines, j)
}

/// Whether no line gives a cache size.
pub open spec fn gives_no_size(lines: Seq<Seq<char>>) -> bool {
    forall|i: int| 0 <= i < lines.len() ==> !#[trigger] gives_size(lines, i)
}

/// Whether lines of a kind are those with a label, and tell a count.
spec fn is_label_of(label: Seq<char>, kind: Kind) -> bool {
    match kind {
        Kind::CacheableCalls => label == "Cacheable calls:"@,
        Kind::UncacheableCalls => label == "Uncacheable calls:"@,
        Kind::Hits => label == "Hits:"@,
        Kind::Misses => label == "Misses:"@,
        _ => false,
    }
}

proof fn lemma_count_at(lines: Seq<Seq<char>>, at: int, label: Seq<char>, kind: Kind)
    requires
        0 <= at < lines.len(),
        is_label_of(label, kind),
    ensures
        gives_count(lines, at, label) <==> kind_of(lines[at]) == kind && is_read_in(
            kind,
            section_of(lines.take(at + 1)),
        ) && two_ints(lines[at]) is Some,
{
    reveal_strlit("Cacheable calls:");
    reveal_strlit("Uncacheable calls:");
    reveal_strlit("Hits:");
    reveal_strlit("Misses:");
    law_labels_tell_the_kind(lines[at]);
    lemma_section(lines, at);
}

proof fn lemma_latest_count(lines: Seq<Seq<char>>, n: int, label: Seq<char>, kind: Kind)
    requires
        0 <= n <= lines.len(),
        is_label_of(label, kind),
    ensures
        match latest_count(lines.take(n), kind) {
            Some(count) => exists|i: int|
                0 <= i < n && #[trigger] gives_count(lines, i, label) && (two_ints(lines[i])->0).0
                    == count && forall|j: int|
                    i < j < n ==> !#[trigger] gives_count(lines, j, label),
            None => forall|i: int| 0 <= i < n ==> !#[trigger] gives_count(lines, i, label),
        },
    decreases n,
{
    if n > 0 {
        lemma_count_at(lines, n - 1, label, kind);
        lemma_latest_count(lines, n - 1, label, kind);
        assert(lines.take(n).drop_last() =~= lines.take(n - 1));
        assert(lines.take(n).last() == lines[n - 1]);
        if gives_count(lines, n - 1, label) {
            assert(latest_count(lines.take(n), kind) == Some((two_ints(lines[n - 1])->0).0));
        } else if latest_count(lines.take(n - 1), kind) is Some {
            let count = latest_count(lines.take(n - 1), kind)->0;
            let i = choose|i: int|
                0 <= i < n - 1 && #[trigger] gives_count(lines, i, label) && (two_ints(
                    lines[i],
                )->0).0 == count && forall|j: int|
                    i < j < n - 1 ==> !#[trigger] gives_count(lines, j, label);
            assert(gives_count(lines, i, label));
        }
    }
}

proof fn lemma_latest_size(lines: Seq<Seq<char>>, n: int)
    requires
        0 <= n <= lines.len(),
    ensures
        match latest_size(lines.take(n)) {
            Some(size) => exists|i: int|
                0 <= i < n && #[trigger] gives_size(lines, i) && (two_decimals(lines[i])->0).0
                    == size.0 && (two_decimals(lines[i])->0).1 == size.1 && forall|j: int|
                    i < j < n ==> !#[trigger] gives_size(lines, j),
            None => forall|i: int| 0 <= i < n ==> !#[trigger] gives_size(lines, i),
        },
    decreases n,
{
    if n > 0 {
        law_labels_tell_the_kind(lines[n - 1]);
        lemma_section(lines, n - 1);
        lemma_latest_size(lines, n - 1);
        assert(lines.take(n).drop_last() =~= lines.take(n - 1));
        assert(lines.take(n).last() == lines[n - 1]);
        if gives_size(lines, n - 1) {
            let numbers = two_decimals(lines[n - 1])->0;
            assert(latest_size(lines.take(n)) == Some((numbers.0, numbers.1)));
        } else if latest_size(lines.take(n - 1)) is Some {
            let size = latest_size(lines.take(n - 1))->0;
            let i = choose|i: int|
                0 <= i < n - 1 && #[trigger] gives_size(lines, i) && (two_decimals(lines[i])->0).0
                    == size.0 && (two_decimals(lines[i])->0).1 == size.1 && forall|j: int|
                    i < j < n - 1 ==> !#[trigger] gives_size(lines, j);
            assert(gives_size(lines, i));
        }
    }
}

proof fn lemma_count_of(lines: Seq<Seq<char>>, label: Seq<char>, kind: Kind)
    requires
        is_label_of(label, kind),
    ensures
        match latest_count(lines, kind) {
            Some(count) => is_last_count(lines, label, count),
            None => gives_no_count(lines, label),
        },
        latest_count(lines, kind) is None <==> gives_no_count(lines, label),
{
    assert(lines.take(lines.len() as int) =~= lines);
    lemma_latest_count(lines, lines.len() as int, label, kind);
}

/// Each of the four counts is the first number of the last line that gives it. Lines on hits and
/// misses give it only where the nearest heading above is the one on cacheable calls: no other
/// text, whatever it is, lets a line below another heading count.
pub proof fn law_counts_are_those_of_the_last_lines_that_give_them(lines: Seq<Seq<char>>)
    ensures
        stats_in(lines) is None <==> gives_no_count(lines, "Cacheable calls:"@) || gives_no_count(
            lines,
            "Hits:"@,
        ) || gives_no_count(lines, "Misses:"@),
        stats_in(lines) matches Some(stats) ==> {
            &&& is_last_count(lines, "Cacheable calls:"@, stats.cacheable_calls)
            &&& is_last_count(lines, "Hits:"@, stats.hits)
            &&& is_last_count(lines, "Misses:"@, stats.misses)
            &&& is_last_count(lines, "Uncacheable calls:"@, stats.uncacheable_calls)
                || gives_no_count(lines, "Uncacheable calls:"@) && stats.uncacheable_calls == 0
        },
{
    lemma_count_of(lines, "Cacheable calls:"@, Kind::CacheableCalls);
    lemma_count_of(lines, "Hits:"@, Kind::Hits);
    lemma_count_of(lines, "Misses:"@, Kind::Misses);
    lemma_count_of(lines, "Uncacheable calls:"@, Kind::UncacheableCalls);
}

/// The cache size is that of the last line on it below the heading on the local storage, and there
/// is none where no such line gives one.
pub proof fn law_cache_size_is_that_of_the_local_storage(lines: Seq<Seq<char>>)
    ensures
        stats_in(lines) matches Some(stats) ==> match (
            stats.cache_size_used_gb,
            stats.cache_size_max_gb,
        ) {
            (Some(used), Some(max)) => is_last_size(lines, used, max),
            (None, None) => gives_no_size(lines),
            _ => false,
        },
{
    assert(lines.take(lines.len() as int) =~= lines);
    lemma_latest_size(lines, lines.len() as int);
}

/// Once the nearest heading is not the one on cacheable calls, lines that are no headings change
/// neither the hits nor the misses, whatever they say.
pub proof fn law_nothing_but_its_heading_reopens_the_cacheable_section(
    lines: Seq<Seq<char>>,
    more: Seq<Seq<char>>,
)
    requires
        lines.len() > 0,
        !is_below(lines, lines.len() - 1, "Cacheable calls:"@),
        forall|i: int|
            0 <= i < more.len() ==> !has_prefix(#[trigger] more[i], "Cacheable calls:"@),
    ensures
        stats_in(lines) is Some <==> stats_in(lines + more) is Some,
        stats_in(lines) matches Some(stats) ==> (stats_in(lines + more)->0).hits == stats.hits && (
        stats_in(lines + more)->0).misses == stats.misses && (stats_in(
            lines + more,
        )->0).cacheable_calls == stats.cacheable_calls,
    decreases more.len(),
{
    if more.len() == 0 {
        assert(lines + more =~= lines);
    } else {
        let fewer = more.drop_last();
        let (before, all) = (lines + fewer, lines + more);
        assert forall|i: int| 0 <= i < fewer.len() implies !has_prefix(
            #[trigger] fewer[i],
            "Cacheable calls:"@,
        ) by {
            assert(!has_prefix(more[i], "Cacheable calls:"@));
        }
        law_nothing_but_its_heading_reopens_the_cacheable_section(lines, fewer);
        assert(all.drop_last() =~= before);
        assert(all.last() == more[more.len() - 1]);
        law_labels_tell_the_kind(all.last());
        lemma_cacheable_stays_closed(lines, more, all.len() - 1);
        law_nearest_heading_tells_the_section(all);
    }
}

proof fn lemma_cacheable_stays_closed(lines: Seq<Seq<char>>, more: Seq<Seq<char>>, at: int)
    requires
        lines.len() > 0,
        !is_below(lines, lines.len() - 1, "Cacheable calls:"@),
        forall|i: int|
            0 <= i < more.len() ==> !has_prefix(#[trigger] more[i], "Cacheable calls:"@),
        lines.len() <= at < lines.len() + more.len(),
    ensures
        !is_below(lines + more, at, "Cacheable calls:"@),
{
    let all = lines + more;
    let heading = "Cacheable calls:"@;
    if is_below(all, at, heading) {
        let i = choose|i: int|
            0 <= i <= at && has_prefix(#[trigger] all[i], heading) && forall|j: int|
                i < j <= at ==> !is_heading(#[trigger] all[j]);
        if i >= lines.len() {
            assert(!has_prefix(more[i - lines.len()], heading));
        } else {
            assert(lines[i] == all[i]);
            assert forall|j: int| i < j <= lines.len() - 1 implies !is_heading(
                #[trigger] lines[j],
            ) by {
                assert(!is_heading(all[j]));
            }
            assert(is_below(lines, lines.len() - 1, heading));
        }
    }
}

/// An output is read line by line, each line without the white space around it.
pub proof fn law_output_is_read_by_trimmed_lines(input: Seq<char>, lines: Seq<Seq<char>>)
    requires
        lines.len() == lines_of(input).len(),
        forall|i: int|
            0 <= i < lines.len() ==> #[trigger] lines[i] == trimmed(lines_of(input)[i]),
    ensures
        parsed_stats(input) == stats_in(lines),
{
    assert(trimmed_lines(input) =~= lines);
}

/// Whether a text can stand as a number in a line.
pub open spec fn is_stretch(s: Seq<char>) -> bool {
    s.len() > 0 && forall|i: int| 0 <= i < s.len() ==> is_number_char(#[trigger] s[i])
}

/// Whether a text separates two numbers.
pub open spec fn is_gap(s: Seq<char>) -> bool {
    s.len() > 0 && is_numberless(s)
}

/// A line with fewer than two numbers is not read.
pub proof fn law_lines_with_one_number_are_not_read(
    label: Seq<char>,
    number: Seq<char>,
    rest: Seq<char>,
)
    requires
        is_numberless(label),
        is_stretch(number),
        is_numberless(rest),
    ensures
        two_ints(label) is None,
        two_decimals(label) is None,
        two_ints(label + number + rest) is None,
        two_decimals(label + number + rest) is None,
{
    law_text_without_number_characters_has_no_numbers(label);
    law_text_without_number_characters_has_no_numbers(rest);
    if rest.len() > 0 {
        assert(!is_number_char(rest[0]));
    }
    law_numbers_are_the_stretches_of_number_characters(label, number, rest);
}

proof fn lemma_two_numbers(
    label: Seq<char>,
    first: Seq<char>,
    gap: Seq<char>,
    second: Seq<char>,
    rest: Seq<char>,
)
    requires
        is_numberless(label),
        is_stretch(first),
        is_gap(gap),
        is_stretch(second),
        rest.len() > 0 ==> !is_number_char(rest.first()),
    ensures
        number_runs(label + first + gap + second + rest).len() == 2 + number_runs(rest).len(),
        number_runs(label + first + gap + second + rest)[0] == first,
        number_runs(label + first + gap + second + rest)[1] == second,
        number_runs(label + first + gap + second + rest).skip(2) == number_runs(rest),
{
    let tail = gap + second + rest;
    let line = label + first + gap + second + rest;
    assert(!is_number_char(gap[0]));
    assert(tail.first() == gap[0]);
    law_numbers_are_the_stretches_of_number_characters(label, first, tail);
    law_numbers_are_the_stretches_of_number_characters(gap, second, rest);
    assert(line =~= label + first + tail);
    let runs = number_runs(line);
    assert(runs.skip(1)[0] == runs[1]);
    assert(runs.skip(2) =~= runs.skip(1).skip(1));
}

/// Of a line with two numbers or more, the first two are read, as whole numbers where both are
/// whole numbers, and as decimal numbers where both are decimal numbers.
pub proof fn law_first_two_numbers_are_read(
    label: Seq<char>,
    first: Seq<char>,
    gap: Seq<char>,
    second: Seq<char>,
    rest: Seq<char>,
)
    requires
        is_numberless(label),
        is_stretch(first),
        is_gap(gap),
        is_stretch(second),
        rest.len() > 0 ==> !is_number_char(rest.first()),
    ensures
        match two_ints(label + first + gap + second + rest) {
            Some(numbers) => u64_of(first) == Some(numbers.0) && u64_of(second) == Some(numbers.1),
            None => u64_of(first) is None || u64_of(second) is None,
        },
        match two_decimals(label + first + gap + second + rest) {
            Some(numbers) => is_decimal(first) && is_decimal(second) && numbers.0 == first
                && numbers.1 == second,
            None => !is_decimal(first) || !is_decimal(second),
        },
{
    lemma_two_numbers(label, first, gap, second, rest);
}

/// The percentage of a line is its third number, where that is a decimal number; where it is not,
/// or there is no third number, the line lists none.
pub proof fn law_third_number_is_the_percentage(
    label: Seq<char>,
    first: Seq<char>,
    gap: Seq<char>,
    second: Seq<char>,
    next_gap: Seq<char>,
    third: Seq<char>,
    rest: Seq<char>,
)
    requires
        is_numberless(label),
        is_stretch(first),
        is_gap(gap),
        is_stretch(second),
        is_gap(next_gap),
        is_stretch(third) || third.len() == 0 && rest.len() == 0,
        rest.len() > 0 ==> !is_number_char(rest.first()),
    ensures
        ({
            let line = label + first + gap + second + (next_gap + third + rest);
            let listed = if third.len() > 0 && is_decimal(third) {
                Some(third)
            } else {
                None
            };
            &&& two_ints(line) matches Some(numbers) ==> numbers.2 == listed
            &&& two_decimals(line) matches Some(numbers) ==> numbers.2 == listed
            &&& forall|a: Quotient, b: Quotient| #[trigger]
                percent_in(line, a, b) == if third.len() > 0 && is_decimal(third) {
                    decimal_value(third)
                } else {
                    percent_share(a, b)
                }
        }),
{
    let tail = next_gap + third + rest;
    assert(!is_number_char(next_gap[0]));
    assert(tail.first() == next_gap[0]);
    lemma_two_numbers(label, first, gap, second, tail);
    let runs = number_runs(label + first + gap + second + tail);
    if third.len() > 0 {
        law_numbers_are_the_stretches_of_number_characters(next_gap, third, rest);
        assert(runs.skip(2)[0] == runs[2]);
    } else {
        assert(tail =~= next_gap);
        law_text_without_number_characters_has_no_numbers(next_gap);
    }
}

/// A line that ends with its second number lists no percentage.
pub proof fn law_lines_with_two_numbers_list_no_percentage(
    label: Seq<char>,
    first: Seq<char>,
    gap: Seq<char>,
    second: Seq<char>,
    a: Quotient,
    b: Quotient,
)
    requires
        is_numberless(label),
        is_stretch(first),
        is_gap(gap),
        is_stretch(second),
    ensures
        two_ints(label + first + gap + second) matches Some(numbers) ==> numbers.2 is None,
        two_decimals(label + first + gap + second) matches Some(numbers) ==> numbers.2 is None,
        percent_in(label + first + gap + second, a, b) == percent_share(a, b),
{
    let nothing = Seq::<char>::empty();
    lemma_two_numbers(label, first, gap, second, nothing);
    assert(label + first + gap + second + nothing =~= label + first + gap + second);
}

/// A percentage that is listed is worth what is listed; one that is not is the first number as a
/// percentage of the second.
pub proof fn law_percentages_are_worth_what_they_say(
    listed: Decimal,
    first: Quotient,
    second: Quotient,
)
    ensures
        Percent::Listed(listed).value(first, second) == decimal_value(listed@),
        Percent::Listed(listed)@ == Some(listed@),
        Percent::Share.value(first, second) == percent_share(first, second),
        Percent::Share@ is None,
{
}

/// Statistics are their four counts and their two sizes, each under its own name, and all of them
/// are nothing at first.
pub proof fn law_statistics_are_their_counts_and_sizes(stats: Stats)
    ensures
        stats@.cacheable_calls == stats.cacheable_calls,
        stats@.hits == stats.hits,
        stats@.misses == stats.misses,
        stats@.uncacheable_calls == stats.uncacheable_calls,
        stats@.cache_size_used_gb is Some <==> stats.cache_size_used_gb is Some,
        stats.cache_size_used_gb matches Some(used) ==> stats@.cache_size_used_gb == Some(used@),
        stats@.cache_size_max_gb is Some <==> stats.cache_size_max_gb is Some,
        stats.cache_size_max_gb matches Some(max) ==> stats@.cache_size_max_gb == Some(max@),
        no_stats().cacheable_calls == 0 && no_stats().hits == 0 && no_stats().misses == 0
            && no_stats().uncacheable_calls == 0,
        no_stats().cache_size_used_gb is None && no_stats().cache_size_max_gb is None,
{
}

} // verus!
