//! A report in the layout of `ccache -s`, and that reading it gives back what it was written from.

use vstd::prelude::*;

use crate::decimal::is_decimal;
use crate::digits::{is_digit, is_number_char};
use crate::format::{decimal_text, law_decimal_text_reads_back};
use crate::stats::{
    is_read_in, kind_of, latest_count, latest_size, opened_by, parsed_stats, section_of,
    trimmed_lines, two_decimals, two_ints, Kind, StatsModel,
};
use crate::stats_laws::{
    is_numberless, is_one_line, law_written_counts_are_read_back,
    law_written_sizes_are_read_back, lemma_trimmed_lines_of_middle,
};
use crate::text::{
    has_prefix, is_white, law_outer_white_space_is_trimmed,
    law_text_without_outer_white_space_stays, trimmed,
};

verus! {

/// How a line of the report is set: the white space it is indented by, the white space behind its
/// label, the white space in front of its second number and what follows its numbers, such as
/// ` (24.93%)`.
pub struct Setting {
    pub indent: Seq<char>,
    pub pad: Seq<char>,
    pub gap: Seq<char>,
    pub rest: Seq<char>,
}

/// Whether a text is white space within a line.
pub open spec fn is_space(s: Seq<char>) -> bool {
    forall|i: int| 0 <= i < s.len() ==> is_white(#[trigger] s[i]) && s[i] != '\n'
}

impl Setting {
    /// Whether the indent and the spaces are white space, and what follows the numbers, if
    /// anything, stands in brackets behind a space.
    pub open spec fn is_valid(self) -> bool {
        &&& is_space(self.indent)
        &&& is_space(self.pad)
        &&& is_space(self.gap)
        &&& is_one_line(self.rest)
        &&& self.rest.len() > 0 ==> self.rest.first() == ' ' && self.rest.last() == ')'
    }

    /// What stands between the two numbers.
    pub open spec fn slash(self) -> Seq<char> {
        seq![' ', '/'] + self.gap
    }
}

/// A label and two numbers, without the indent.
pub open spec fn number_text(
    setting: Setting,
    label: Seq<char>,
    first: Seq<char>,
    second: Seq<char>,
) -> Seq<char> {
    label + setting.pad + first + setting.slash() + second + setting.rest
}

/// A label and two numbers, as a line of the report.
pub open spec fn number_line(
    setting: Setting,
    label: Seq<char>,
    first: Seq<char>,
    second: Seq<char>,
) -> Seq<char> {
    setting.indent + number_text(setting, label, first, second)
}

/// A text of the given lines, each ended by a line feed.
pub open spec fn written(lines: Seq<Seq<char>>) -> Seq<char>
    decreases lines.len(),
{
    if lines.len() == 0 {
        Seq::empty()
    } else {
        lines.first() + seq!['\n'] + written(lines.drop_first())
    }
}

/// Reading a written text gives its lines back, without the white space around them.
pub proof fn law_written_lines_are_read_back(lines: Seq<Seq<char>>)
    requires
        forall|i: int| 0 <= i < lines.len() ==> is_one_line(#[trigger] lines[i]),
    ensures
        trimmed_lines(written(lines)) == lines.map_values(|line: Seq<char>| trimmed(line)),
    decreases lines.len(),
{
    let nothing = Seq::<char>::empty();
    if lines.len() == 0 {
        assert(trimmed_lines(nothing) =~= lines.map_values(|line: Seq<char>| trimmed(line)));
    } else {
        let others = lines.drop_first();
        assert(is_one_line(lines[0]));
        assert forall|i: int| 0 <= i < others.len() implies is_one_line(#[trigger] others[i]) by {
            assert(is_one_line(lines[i + 1]));
        }
        law_written_lines_are_read_back(others);
        lemma_trimmed_lines_of_middle(nothing, lines.first(), written(others));
        assert(nothing + written(lines) =~= written(lines));
        assert(trimmed_lines(nothing) =~= Seq::<Seq<char>>::empty());
        assert(trimmed_lines(nothing) + (seq![trimmed(lines.first())] + trimmed_lines(
            written(others),
        )) =~= lines.map_values(|line: Seq<char>| trimmed(line)));
    }
}

/// Whether a text can stand as a number: it is not empty and all of it can stand in a number.
spec fn is_run(s: Seq<char>) -> bool {
    s.len() > 0 && forall|i: int| 0 <= i < s.len() ==> is_number_char(#[trigger] s[i])
}

/// Whether a text can stand as a label.
spec fn is_label(s: Seq<char>) -> bool {
    s.len() > 0 && !is_white(s.first()) && is_numberless(s) && is_one_line(s)
}

proof fn lemma_joined_is_one_line(a: Seq<char>, b: Seq<char>)
    requires
        is_one_line(a),
        is_one_line(b),
    ensures
        is_one_line(a + b),
{
    assert forall|i: int| 0 <= i < (a + b).len() implies (a + b)[i] != '\n' by {
        if i < a.len() {
            assert(a[i] != '\n');
        } else {
            assert(b[i - a.len()] != '\n');
        }
    }
}

proof fn lemma_space(space: Seq<char>)
    requires
        is_space(space),
    ensures
        is_numberless(space),
        is_one_line(space),
{
    assert forall|i: int| 0 <= i < space.len() implies !is_number_char(#[trigger] space[i]) by {
        assert(is_white(space[i]));
    }
    assert forall|i: int| 0 <= i < space.len() implies space[i] != '\n' by {
        assert(is_white(space[i]));
    }
}

proof fn lemma_slash(setting: Setting)
    requires
        setting.is_valid(),
    ensures
        is_numberless(setting.slash()),
        is_one_line(setting.slash()),
{
    let slash = setting.slash();
    lemma_space(setting.gap);
    assert forall|i: int| 0 <= i < slash.len() implies !is_number_char(#[trigger] slash[i]) by {
        if i >= 2 {
            assert(!is_number_char(setting.gap[i - 2]));
        }
    }
    lemma_joined_is_one_line(seq![' ', '/'], setting.gap);
}

proof fn lemma_labelled(setting: Setting, label: Seq<char>)
    requires
        setting.is_valid(),
        is_label(label),
    ensures
        is_numberless(label + setting.pad),
        is_one_line(label + setting.pad),
{
    let both = label + setting.pad;
    lemma_space(setting.pad);
    assert forall|i: int| 0 <= i < both.len() implies !is_number_char(#[trigger] both[i]) by {
        if i < label.len() {
            assert(!is_number_char(label[i]));
        } else {
            assert(!is_number_char(setting.pad[i - label.len()]));
        }
    }
    lemma_joined_is_one_line(label, setting.pad);
}

proof fn lemma_number_line(setting: Setting, label: Seq<char>, first: Seq<char>, second: Seq<char>)
    requires
        setting.is_valid(),
        is_label(label),
        is_run(first),
        is_run(second),
    ensures
        is_one_line(number_line(setting, label, first, second)),
        trimmed(number_line(setting, label, first, second)) == number_text(
            setting,
            label,
            first,
            second,
        ),
        has_prefix(number_text(setting, label, first, second), label),
{
    let text = number_text(setting, label, first, second);
    let nothing = Seq::<char>::empty();
    lemma_slash(setting);
    lemma_labelled(setting, label);
    assert forall|i: int| 0 <= i < first.len() implies first[i] != '\n' by {
        assert(is_number_char(first[i]));
    }
    assert forall|i: int| 0 <= i < second.len() implies second[i] != '\n' by {
        assert(is_number_char(second[i]));
    }
    lemma_space(setting.indent);
    lemma_joined_is_one_line(label + setting.pad, first);
    lemma_joined_is_one_line(label + setting.pad + first, setting.slash());
    lemma_joined_is_one_line(label + setting.pad + first + setting.slash(), second);
    lemma_joined_is_one_line(label + setting.pad + first + setting.slash() + second, setting.rest);
    lemma_joined_is_one_line(setting.indent, text);
    assert(text.first() == label.first());
    assert(is_number_char(second[second.len() - 1]));
    if setting.rest.len() == 0 {
        assert(text.last() == second.last());
    } else {
        assert(text.last() == setting.rest.last());
    }
    law_text_without_outer_white_space_stays(text);
    law_outer_white_space_is_trimmed(setting.indent, text, nothing);
    assert(setting.indent + text + nothing =~= setting.indent + text);
    assert(text.take(label.len() as int) =~= label);
}

proof fn lemma_count_line(setting: Setting, label: Seq<char>, first: u64, second: u64)
    requires
        setting.is_valid(),
        is_label(label),
    ensures
        is_run(decimal_text(first as nat)),
        two_ints(
            number_text(setting, label, decimal_text(first as nat), decimal_text(second as nat)),
        ) matches Some(numbers) && numbers.0 == first,
{
    let a = decimal_text(first as nat);
    law_decimal_text_reads_back(first as nat);
    assert forall|i: int| 0 <= i < a.len() implies is_number_char(#[trigger] a[i]) by {
        assert(is_digit(a[i]));
    }
    lemma_slash(setting);
    lemma_labelled(setting, label);
    law_written_counts_are_read_back(
        label + setting.pad,
        first,
        setting.slash(),
        second,
        setting.rest,
    );
}

proof fn lemma_size_line(setting: Setting, label: Seq<char>, first: Seq<char>, second: Seq<char>)
    requires
        setting.is_valid(),
        is_label(label),
        is_decimal(first),
        is_decimal(second),
    ensures
        is_run(first),
        two_decimals(number_text(setting, label, first, second)) matches Some(numbers) && numbers.0
            == first && numbers.1 == second,
{
    lemma_slash(setting);
    lemma_labelled(setting, label);
    law_written_sizes_are_read_back(
        label + setting.pad,
        first,
        setting.slash(),
        second,
        setting.rest,
    );
}

proof fn lemma_labels()
    ensures
        is_label("Cacheable calls:"@),
        is_label("Uncacheable calls:"@),
        is_label("Hits:"@),
        is_label("Misses:"@),
        is_label("Cache size (GB):"@),
        is_label("Cache size (GiB):"@),
{
    reveal_strlit("Cacheable calls:");
    reveal_strlit("Uncacheable calls:");
    reveal_strlit("Hits:");
    reveal_strlit("Misses:");
    reveal_strlit("Cache size (GB):");
    reveal_strlit("Cache size (GiB):");
    assert("Cacheable calls:"@ =~= seq![
        'C', 'a', 'c', 'h', 'e', 'a', 'b', 'l', 'e', ' ', 'c', 'a', 'l', 'l', 's', ':'
    ]);
    assert("Uncacheable calls:"@ =~= seq![
        'U', 'n', 'c', 'a', 'c', 'h', 'e', 'a', 'b', 'l', 'e', ' ', 'c', 'a', 'l', 'l', 's', ':'
    ]);
    assert("Hits:"@ =~= seq!['H', 'i', 't', 's', ':']);
    assert("Misses:"@ =~= seq!['M', 'i', 's', 's', 'e', 's', ':']);
    assert("Cache size (GB):"@ =~= seq![
        'C', 'a', 'c', 'h', 'e', ' ', 's', 'i', 'z', 'e', ' ', '(', 'G', 'B', ')', ':'
    ]);
    assert("Cache size (GiB):"@ =~= seq![
        'C', 'a', 'c', 'h', 'e', ' ', 's', 'i', 'z', 'e', ' ', '(', 'G', 'i', 'B', ')', ':'
    ]);
}

/// Each label makes a line be of its kind.
pub proof fn lemma_kind(line: Seq<char>)
    ensures
        has_prefix(line, "Cacheable calls:"@) ==> kind_of(line) == Kind::CacheableCalls,
        has_prefix(line, "Uncacheable calls:"@) ==> kind_of(line) == Kind::UncacheableCalls,
        has_prefix(line, "Local storage:"@) ==> kind_of(line) == Kind::LocalStorage,
        has_prefix(line, "Hits:"@) ==> kind_of(line) == Kind::Hits,
        has_prefix(line, "Misses:"@) ==> kind_of(line) == Kind::Misses,
        has_prefix(line, "Cache size (GB):"@) ==> kind_of(line) == Kind::CacheSize,
        has_prefix(line, "Cache size (GiB):"@) ==> kind_of(line) == Kind::CacheSize,
{
    reveal_strlit("Cacheable calls:");
    reveal_strlit("Uncacheable calls:");
    reveal_strlit("Hits:");
    reveal_strlit("Misses:");
    reveal_strlit("Cache size (GB):");
    reveal_strlit("Cache size (GiB):");
    reveal_strlit("Local storage:");
    if has_prefix(line, "Uncacheable calls:"@) {
        assert(line[0] == line.take(18)[0]);
    }
    if has_prefix(line, "Local storage:"@) {
        assert(line[0] == line.take(14)[0]);
    }
    if has_prefix(line, "Hits:"@) {
        assert(line[0] == line.take(5)[0]);
    }
    if has_prefix(line, "Misses:"@) {
        assert(line[0] == line.take(7)[0]);
    }
    if has_prefix(line, "Cacheable calls:"@) {
        assert(line[5] == line.take(16)[5]);
        assert(line[0] == line.take(16)[0]);
    }
    if has_prefix(line, "Cache size (GB):"@) {
        assert(line[5] == line.take(16)[5]);
        assert(line[0] == line.take(16)[0]);
    }
    if has_prefix(line, "Cache size (GiB):"@) {
        assert(line[5] == line.take(17)[5]);
        assert(line[0] == line.take(17)[0]);
    }
}

/// The numbers in a report.
pub struct Report {
    /// The statistics that are to be read from it.
    pub stats: StatsModel,
    /// The number of all calls.
    pub calls: u64,
    /// Whether the cache size is given in GiB rather than in GB.
    pub is_binary: bool,
    /// The hits in the local storage.
    pub local_hits: u64,
    /// The misses in the local storage.
    pub local_misses: u64,
    /// How each of its lines is set.
    pub settings: Seq<Setting>,
}

impl Report {
    /// Whether the report gives a cache size and has a setting for each of its lines.
    pub open spec fn is_valid(self) -> bool {
        &&& self.stats.cache_size_used_gb matches Some(used) && is_decimal(used)
        &&& self.stats.cache_size_max_gb matches Some(max) && is_decimal(max)
        &&& self.settings.len() == 8
        &&& forall|i: int| 0 <= i < 8 ==> (#[trigger] self.settings[i]).is_valid()
    }

    /// The label of the cache size.
    pub open spec fn size_label(self) -> Seq<char> {
        if self.is_binary {
            "Cache size (GiB):"@
        } else {
            "Cache size (GB):"@
        }
    }

    /// A line with two counts.
    pub open spec fn count_line(self, at: int, label: Seq<char>, first: u64, second: u64) -> Seq<
        char,
    > {
        number_line(
            self.settings[at],
            label,
            decimal_text(first as nat),
            decimal_text(second as nat),
        )
    }

    /// The lines of the report, from top to bottom.
    pub open spec fn lines(self) -> Seq<Seq<char>> {
        let stats = self.stats;
        seq![
            self.count_line(0, "Cacheable calls:"@, stats.cacheable_calls, self.calls),
            self.count_line(1, "Hits:"@, stats.hits, stats.cacheable_calls),
            self.count_line(2, "Misses:"@, stats.misses, stats.cacheable_calls),
            self.count_line(3, "Uncacheable calls:"@, stats.uncacheable_calls, self.calls),
            self.settings[4].indent + "Local storage:"@,
            number_line(
                self.settings[5],
                self.size_label(),
                stats.cache_size_used_gb->0,
                stats.cache_size_max_gb->0,
            ),
            self.count_line(6, "Hits:"@, self.local_hits, stats.cacheable_calls),
            self.count_line(7, "Misses:"@, self.local_misses, stats.cacheable_calls),
        ]
    }
}

proof fn lemma_count_line_in_report(
    setting: Setting,
    label: Seq<char>,
    first: u64,
    second: u64,
    line: Seq<char>,
)
    requires
        setting.is_valid(),
        is_label(label),
        line == number_line(
            setting,
            label,
            decimal_text(first as nat),
            decimal_text(second as nat),
        ),
    ensures
        is_one_line(line),
        has_prefix(trimmed(line), label),
        two_ints(trimmed(line)) matches Some(numbers) && numbers.0 == first,
{
    lemma_count_line(setting, label, first, second);
    lemma_count_line(setting, label, second, first);
    lemma_number_line(setting, label, decimal_text(first as nat), decimal_text(second as nat));
}

proof fn lemma_storage_line(setting: Setting, line: Seq<char>)
    requires
        setting.is_valid(),
        line == setting.indent + "Local storage:"@,
    ensures
        is_one_line(line),
        has_prefix(trimmed(line), "Local storage:"@),
{
    let label = "Local storage:"@;
    let nothing = Seq::<char>::empty();
    reveal_strlit("Local storage:");
    assert(label =~= seq![
        'L', 'o', 'c', 'a', 'l', ' ', 's', 't', 'o', 'r', 'a', 'g', 'e', ':',
    ]);
    lemma_space(setting.indent);
    lemma_joined_is_one_line(setting.indent, label);
    law_text_without_outer_white_space_stays(label);
    law_outer_white_space_is_trimmed(setting.indent, label, nothing);
    assert(setting.indent + label + nothing =~= setting.indent + label);
    assert(label.take(label.len() as int) =~= label);
}

proof fn lemma_size_line_in_report(report: Report, line: Seq<char>)
    requires
        report.is_valid(),
        line == report.lines()[5],
    ensures
        is_one_line(line),
        has_prefix(trimmed(line), report.size_label()),
        two_decimals(trimmed(line)) matches Some(numbers) && numbers.0
            == report.stats.cache_size_used_gb->0 && numbers.1
            == report.stats.cache_size_max_gb->0,
{
    let used = report.stats.cache_size_used_gb->0;
    let max = report.stats.cache_size_max_gb->0;
    let setting = report.settings[5];
    assert(setting.is_valid());
    lemma_labels();
    lemma_size_line(setting, report.size_label(), used, max);
    lemma_size_line(setting, report.size_label(), max, used);
    lemma_number_line(setting, report.size_label(), used, max);
}

/// What one more line adds to what the lines before it give.
proof fn lemma_next_line(lines: Seq<Seq<char>>, n: int, kind: Kind)
    requires
        0 <= n < lines.len(),
    ensures
        section_of(lines.take(n + 1)) == match opened_by(kind_of(lines[n])) {
            Some(section) => section,
            None => section_of(lines.take(n)),
        },
        latest_count(lines.take(n + 1), kind) == if kind_of(lines[n]) == kind && is_read_in(
            kind,
            section_of(lines.take(n + 1)),
        ) && two_ints(lines[n]) is Some {
            let numbers = two_ints(lines[n])->0;
            Some(numbers.0)
        } else {
            latest_count(lines.take(n), kind)
        },
        latest_size(lines.take(n + 1)) == if kind_of(lines[n]) == Kind::CacheSize && is_read_in(
            Kind::CacheSize,
            section_of(lines.take(n + 1)),
        ) && two_decimals(lines[n]) is Some {
            let numbers = two_decimals(lines[n])->0;
            Some((numbers.0, numbers.1))
        } else {
            latest_size(lines.take(n))
        },
{
    assert(lines.take(n + 1).drop_last() =~= lines.take(n));
    assert(lines.take(n + 1).last() == lines[n]);
}

/// The first number of a line, if it is among the first `n` lines.
spec fn first_count(lines: Seq<Seq<char>>, at: int, n: int) -> Option<u64> {
    if at < n {
        Some((two_ints(lines[at])->0).0)
    } else {
        None
    }
}

/// What the first of eight lines of the kinds of a report give.
proof fn lemma_eight_lines(lines: Seq<Seq<char>>, n: int, kind: Kind)
    requires
        lines.len() == 8,
        0 <= n <= 8,
        kind_of(lines[0]) == Kind::CacheableCalls,
        kind_of(lines[1]) == Kind::Hits,
        kind_of(lines[2]) == Kind::Misses,
        kind_of(lines[3]) == Kind::UncacheableCalls,
        kind_of(lines[4]) == Kind::LocalStorage,
        kind_of(lines[5]) == Kind::CacheSize,
        kind_of(lines[6]) == Kind::Hits,
        kind_of(lines[7]) == Kind::Misses,
        two_ints(lines[0]) is Some,
        two_ints(lines[1]) is Some,
        two_ints(lines[2]) is Some,
        two_ints(lines[3]) is Some,
        two_decimals(lines[5]) is Some,
    ensures
        kind == Kind::CacheableCalls ==> latest_count(lines.take(n), kind) == first_count(
            lines,
            0,
            n,
        ),
        kind == Kind::Hits ==> latest_count(lines.take(n), kind) == first_count(lines, 1, n),
        kind == Kind::Misses ==> latest_count(lines.take(n), kind) == first_count(lines, 2, n),
        kind == Kind::UncacheableCalls ==> latest_count(lines.take(n), kind) == first_count(
            lines,
            3,
            n,
        ),
        latest_size(lines.take(n)) == if n > 5 {
            Some(((two_decimals(lines[5])->0).0, (two_decimals(lines[5])->0).1))
        } else {
            None
        },
{
    assert(lines.take(0) =~= Seq::<Seq<char>>::empty());
    lemma_next_line(lines, 0, kind);
    lemma_next_line(lines, 1, kind);
    lemma_next_line(lines, 2, kind);
    lemma_next_line(lines, 3, kind);
    lemma_next_line(lines, 4, kind);
    lemma_next_line(lines, 5, kind);
    lemma_next_line(lines, 6, kind);
    lemma_next_line(lines, 7, kind);
}

/// Reading the first `n` lines of a report fails where they do not reach the misses, and gives
/// back what these lines hold of the statistics where they do, however the lines are indented and
/// spaced, and with or without percentages.
pub proof fn law_cut_report_gives_what_is_left(report: Report, n: int)
    requires
        report.is_valid(),
        0 <= n <= 8,
    ensures
        parsed_stats(written(report.lines().take(n))) == if n < 3 {
            None
        } else {
            Some(
                StatsModel {
                    uncacheable_calls: if n > 3 {
                        report.stats.uncacheable_calls
                    } else {
                        0
                    },
                    cache_size_used_gb: if n > 5 {
                        report.stats.cache_size_used_gb
                    } else {
                        None
                    },
                    cache_size_max_gb: if n > 5 {
                        report.stats.cache_size_max_gb
                    } else {
                        None
                    },
                    ..report.stats
                },
            )
        },
{
    let stats = report.stats;
    let lines = report.lines();
    let settings = report.settings;
    lemma_labels();
    lemma_count_line_in_report(
        settings[0],
        "Cacheable calls:"@,
        stats.cacheable_calls,
        report.calls,
        lines[0],
    );
    lemma_count_line_in_report(settings[1], "Hits:"@, stats.hits, stats.cacheable_calls, lines[1]);
    lemma_count_line_in_report(
        settings[2],
        "Misses:"@,
        stats.misses,
        stats.cacheable_calls,
        lines[2],
    );
    lemma_count_line_in_report(
        settings[3],
        "Uncacheable calls:"@,
        stats.uncacheable_calls,
        report.calls,
        lines[3],
    );
    lemma_storage_line(settings[4], lines[4]);
    lemma_size_line_in_report(report, lines[5]);
    lemma_count_line_in_report(
        settings[6],
        "Hits:"@,
        report.local_hits,
        stats.cacheable_calls,
        lines[6],
    );
    lemma_count_line_in_report(
        settings[7],
        "Misses:"@,
        report.local_misses,
        stats.cacheable_calls,
        lines[7],
    );
    let whole = lines.map_values(|line: Seq<char>| trimmed(line));
    let left = lines.take(n);
    assert forall|i: int| 0 <= i < left.len() implies is_one_line(#[trigger] left[i]) by {
        assert(is_one_line(lines[i]));
    }
    law_written_lines_are_read_back(left);
    assert(trimmed_lines(written(left)) =~= whole.take(n));
    lemma_kind(whole[0]);
    lemma_kind(whole[1]);
    lemma_kind(whole[2]);
    lemma_kind(whole[3]);
    lemma_kind(whole[4]);
    lemma_kind(whole[5]);
    lemma_kind(whole[6]);
    lemma_kind(whole[7]);
    lemma_eight_lines(whole, n, Kind::CacheableCalls);
    lemma_eight_lines(whole, n, Kind::Hits);
    lemma_eight_lines(whole, n, Kind::Misses);
    lemma_eight_lines(whole, n, Kind::UncacheableCalls);
}

/// Reading a report gives back the statistics it was written from, whatever the local storage
/// counts.
pub proof fn law_report_is_read_back(report: Report)
    requires
        report.is_valid(),
    ensures
        parsed_stats(written(report.lines())) == Some(report.stats),
{
    law_cut_report_gives_what_is_left(report, 8);
    assert(report.lines().take(8) =~= report.lines());
}

} // verus!
