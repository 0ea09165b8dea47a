//! The statistics that `ccache -s` prints, and how they are read from its output.

use vstd::prelude::*;

use crate::decimal::{
    decimal_value, is_decimal, percent_share, whole_value, Decimal, Quotient,
};
use crate::digits::{number_runs, read_u64, split_numbers, u64_of};
use crate::text::{
    contents, has_prefix, lines_of, split_lines, starts_with, to_chars, trim, trimmed,
};

verus! {

/// Parsed ccache statistics from the latest successful poll.
#[derive(Debug)]
pub struct Stats {
    /// Total cacheable calls reported by ccache.
    pub cacheable_calls: u64,
    /// Total cache hits reported by ccache.
    pub hits: u64,
    /// Total cache misses reported by ccache.
    pub misses: u64,
    /// Total uncacheable calls reported by ccache.
    pub uncacheable_calls: u64,
    /// Current cache size in GB, if present in the output.
    pub cache_size_used_gb: Option<Decimal>,
    /// Maximum cache size in GB, if present in the output.
    pub cache_size_max_gb: Option<Decimal>,
}

/// The contents of a [`Stats`].
#[verifier::ext_equal]
pub struct StatsModel {
    pub cacheable_calls: u64,
    pub hits: u64,
    pub misses: u64,
    pub uncacheable_calls: u64,
    pub cache_size_used_gb: Option<Seq<char>>,
    pub cache_size_max_gb: Option<Seq<char>>,
}

/// The text of a decimal number, where there is one.
pub open spec fn size_text(size: Option<Decimal>) -> Option<Seq<char>> {
    match size {
        Some(d) => Some(d@),
        None => None,
    }
}

impl View for Stats {
    type V = StatsModel;

    open spec fn view(&self) -> StatsModel {
        StatsModel {
            cacheable_calls: self.cacheable_calls,
            hits: self.hits,
            misses: self.misses,
            uncacheable_calls: self.uncacheable_calls,
            cache_size_used_gb: size_text(self.cache_size_used_gb),
            cache_size_max_gb: size_text(self.cache_size_max_gb),
        }
    }
}

/// The statistics before anything has been read.
pub open spec fn no_stats() -> StatsModel {
    StatsModel {
        cacheable_calls: 0,
        hits: 0,
        misses: 0,
        uncacheable_calls: 0,
        cache_size_used_gb: None,
        cache_size_max_gb: None,
    }
}

impl Default for Stats {
    fn default() -> (stats: Self)
        ensures
            stats@ == no_stats(),
    {
        Stats {
            cacheable_calls: 0,
            hits: 0,
            misses: 0,
            uncacheable_calls: 0,
            cache_size_used_gb: None,
            cache_size_max_gb: None,
        }
    }
}

/// The percentage at the end of a line of numbers.
#[derive(Debug)]
pub enum Percent {
    /// The percentage that the line itself lists.
    Listed(Decimal),
    /// The line lists none: it is the first number as a percentage of the second.
    Share,
}

impl Percent {
    /// The number that this percentage is behind two numbers.
    pub open spec fn value(self, first: Quotient, second: Quotient) -> Quotient {
        match self {
            Percent::Listed(d) => decimal_value(d@),
            Percent::Share => percent_share(first, second),
        }
    }
}

impl View for Percent {
    type V = Option<Seq<char>>;

    open spec fn view(&self) -> Option<Seq<char>> {
        match self {
            Percent::Listed(d) => Some(d@),
            Percent::Share => None,
        }
    }
}

/// The percentage among the numbers of a line: the third of them, where it is a decimal number.
pub open spec fn listed_percent(runs: Seq<Seq<char>>) -> Option<Seq<char>> {
    if runs.len() > 2 && is_decimal(runs[2]) {
        Some(runs[2])
    } else {
        None
    }
}

/// The percentage of a line that has two numbers: the one that it lists or, where it lists none,
/// the first number as a percentage of the second.
pub open spec fn percent_in(line: Seq<char>, first: Quotient, second: Quotient) -> Quotient {
    match listed_percent(number_runs(line)) {
        Some(listed) => decimal_value(listed),
        None => percent_share(first, second),
    }
}

/// The two whole numbers that a line begins with, and its percentage.
pub open spec fn two_ints(line: Seq<char>) -> Option<(u64, u64, Option<Seq<char>>)> {
    let runs = number_runs(line);
    if runs.len() < 2 {
        None
    } else {
        match (u64_of(runs[0]), u64_of(runs[1])) {
            (Some(first), Some(second)) => Some((first, second, listed_percent(runs))),
            _ => None,
        }
    }
}

/// The two decimal numbers that a line begins with, and its percentage.
pub open spec fn two_decimals(line: Seq<char>) -> Option<(Seq<char>, Seq<char>, Option<Seq<char>>)> {
    let runs = number_runs(line);
    if runs.len() >= 2 && is_decimal(runs[0]) && is_decimal(runs[1]) {
        Some((runs[0], runs[1], listed_percent(runs)))
    } else {
        None
    }
}

/// What a line of the output is about, told by how it begins.
#[derive(Clone, Copy, Debug, PartialEq, Eq, Structural)]
pub enum Kind {
    CacheableCalls,
    UncacheableCalls,
    LocalStorage,
    Hits,
    Misses,
    CacheSize,
    Other,
}

/// The kind of a line without white space around it.
pub open spec fn kind_of(line: Seq<char>) -> Kind {
    if has_prefix(line, "Cacheable calls:"@) {
        Kind::CacheableCalls
    } else if has_prefix(line, "Uncacheable calls:"@) {
        Kind::UncacheableCalls
    } else if has_prefix(line, "Local storage:"@) {
        Kind::LocalStorage
    } else if has_prefix(line, "Hits:"@) {
        Kind::Hits
    } else if has_prefix(line, "Misses:"@) {
        Kind::Misses
    } else if has_prefix(line, "Cache size (GB):"@) || has_prefix(line, "Cache size (GiB):"@) {
        Kind::CacheSize
    } else {
        Kind::Other
    }
}

/// The part of the output that a line belongs to.
#[derive(Clone, Copy, Debug, PartialEq, Eq, Structural)]
pub enum Section {
    /// Below a line on cacheable calls.
    Cacheable,
    /// Below a line on the local storage.
    Local,
    /// Anywhere else.
    Outside,
}

/// The section that a line of some kind opens.
pub open spec fn opened_by(kind: Kind) -> Option<Section> {
    match kind {
        Kind::CacheableCalls => Some(Section::Cacheable),
        Kind::UncacheableCalls => Some(Section::Outside),
        Kind::LocalStorage => Some(Section::Local),
        _ => None,
    }
}

/// The section that the last of the lines belongs to: the one opened last.
pub open spec fn section_of(lines: Seq<Seq<char>>) -> Section
    decreases lines.len(),
{
    if lines.len() == 0 {
        Section::Outside
    } else {
        match opened_by(kind_of(lines.last())) {
            Some(section) => section,
            None => section_of(lines.drop_last()),
        }
    }
}

/// Whether a line of some kind is read in a section. The counts of hits and misses are those of
/// the cacheable calls, and the cache size is that of the local storage.
pub open spec fn is_read_in(kind: Kind, section: Section) -> bool {
    match kind {
        Kind::Hits => section == Section::Cacheable,
        Kind::Misses => section == Section::Cacheable,
        Kind::CacheSize => section == Section::Local,
        _ => true,
    }
}

/// The last count that the lines give in lines of a kind.
pub open spec fn latest_count(lines: Seq<Seq<char>>, kind: Kind) -> Option<u64>
    decreases lines.len(),
{
    if lines.len() == 0 {
        None
    } else if kind_of(lines.last()) == kind && is_read_in(kind, section_of(lines)) && two_ints(
        lines.last(),
    ) is Some {
        let numbers = two_ints(lines.last())->0;
        Some(numbers.0)
    } else {
        latest_count(lines.drop_last(), kind)
    }
}

/// The last cache size, used and greatest, that the lines give.
pub open spec fn latest_size(lines: Seq<Seq<char>>) -> Option<(Seq<char>, Seq<char>)>
    decreases lines.len(),
{
    if lines.len() == 0 {
        None
    } else if kind_of(lines.last()) == Kind::CacheSize && is_read_in(
        Kind::CacheSize,
        section_of(lines),
    ) && two_decimals(lines.last()) is Some {
        let numbers = two_decimals(lines.last())->0;
        Some((numbers.0, numbers.1))
    } else {
        latest_size(lines.drop_last())
    }
}

/// The lines of an output, without the white space around them.
pub open spec fn trimmed_lines(input: Seq<char>) -> Seq<Seq<char>> {
    lines_of(input).map_values(|line: Seq<char>| trimmed(line))
}

/// The statistics that lines hold. The counts of cacheable calls, of hits and of misses must be
/// there; the others are optional.
pub open spec fn stats_in(lines: Seq<Seq<char>>) -> Option<StatsModel> {
    match (
        latest_count(lines, Kind::CacheableCalls),
        latest_count(lines, Kind::Hits),
        latest_count(lines, Kind::Misses),
    ) {
        (Some(cacheable_calls), Some(hits), Some(misses)) => Some(
            StatsModel {
                cacheable_calls,
                hits,
                misses,
                uncacheable_calls: match latest_count(lines, Kind::UncacheableCalls) {
                    Some(count) => count,
                    None => 0,
                },
                cache_size_used_gb: match latest_size(lines) {
                    Some(size) => Some(size.0),
                    None => None,
                },
                cache_size_max_gb: match latest_size(lines) {
                    Some(size) => Some(size.1),
                    None => None,
                },
            },
        ),
        _ => None,
    }
}

/// The statistics that an output holds.
pub open spec fn parsed_stats(input: Seq<char>) -> Option<StatsModel> {
    stats_in(trimmed_lines(input))
}

/// Reads the percentage among the numbers of a line.
fn read_percent(runs: &Vec<&[char]>) -> (percent: Percent)
    ensures
        percent@ == listed_percent(contents(runs@)),
{
    if runs.len() > 2 {
        if let Some(listed) = Decimal::read(runs[2]) {
            return Percent::Listed(listed);
        }
    }
    Percent::Share
}

fn read_two_ints(line: &[char]) -> (numbers: Option<(u64, u64, Percent)>)
    ensures
        match numbers {
            Some(n) => two_ints(line@) == Some((n.0, n.1, n.2@)),
            None => two_ints(line@) is None,
        },
{
    let runs = split_numbers(line);
    if runs.len() < 2 {
        return None;
    }
    match (read_u64(runs[0]), read_u64(runs[1])) {
        (Some(first), Some(second)) => Some((first, second, read_percent(&runs))),
        _ => None,
    }
}

fn read_two_decimals(line: &[char]) -> (numbers: Option<(Decimal, Decimal, Percent)>)
    ensures
        match numbers {
            Some(n) => two_decimals(line@) == Some((n.0@, n.1@, n.2@)),
            None => two_decimals(line@) is None,
        },
{
    let runs = split_numbers(line);
    if runs.len() < 2 {
        return None;
    }
    match (Decimal::read(runs[0]), Decimal::read(runs[1])) {
        (Some(first), Some(second)) => Some((first, second, read_percent(&runs))),
        _ => None,
    }
}

/// Extracts two integers and a percent from a stats line.
pub fn parse_two_ints_and_percent(line: &str) -> (numbers: Option<(u64, u64, Percent)>)
    ensures
        match numbers {
            Some(n) => {
                let (first, second) = (whole_value(n.0 as nat), whole_value(n.1 as nat));
                &&& two_ints(line@) == Some((n.0, n.1, n.2@))
                &&& n.2.value(first, second) == percent_in(line@, first, second)
            },
            None => two_ints(line@) is None,
        },
{
    let chars = to_chars(line);
    read_two_ints(&chars)
}

/// Extracts two decimal numbers and a percent from a stats line.
pub fn parse_two_floats_and_percent(line: &str) -> (numbers: Option<(Decimal, Decimal, Percent)>)
    ensures
        match numbers {
            Some(n) => {
                let (first, second) = (decimal_value(n.0@), decimal_value(n.1@));
                &&& two_decimals(line@) == Some((n.0@, n.1@, n.2@))
                &&& n.2.value(first, second) == percent_in(line@, first, second)
            },
            None => two_decimals(line@) is None,
        },
{
    let chars = to_chars(line);
    read_two_decimals(&chars)
}

/// Tells what a line is about.
fn classify(line: &[char]) -> (kind: Kind)
    ensures
        kind == kind_of(line@),
{
    if starts_with(line, "Cacheable calls:") {
        Kind::CacheableCalls
    } else if starts_with(line, "Uncacheable calls:") {
        Kind::UncacheableCalls
    } else if starts_with(line, "Local storage:") {
        Kind::LocalStorage
    } else if starts_with(line, "Hits:") {
        Kind::Hits
    } else if starts_with(line, "Misses:") {
        Kind::Misses
    } else if starts_with(line, "Cache size (GB):") || starts_with(line, "Cache size (GiB):") {
        Kind::CacheSize
    } else {
        Kind::Other
    }
}

/// What has been read of an output so far.
struct Reading {
    section: Section,
    cacheable_calls: Option<u64>,
    hits: Option<u64>,
    misses: Option<u64>,
    uncacheable_calls: Option<u64>,
    size: Option<(Decimal, Decimal)>,
}

impl Reading {
    /// Whether this is what the lines hold.
    spec fn holds(self, lines: Seq<Seq<char>>) -> bool {
        &&& self.section == section_of(lines)
        &&& self.cacheable_calls == latest_count(lines, Kind::CacheableCalls)
        &&& self.hits == latest_count(lines, Kind::Hits)
        &&& self.misses == latest_count(lines, Kind::Misses)
        &&& self.uncacheable_calls == latest_count(lines, Kind::UncacheableCalls)
        &&& match self.size {
            Some(size) => latest_size(lines) == Some((size.0@, size.1@)),
            None => latest_size(lines) is None,
        }
    }

    /// Takes one more line into account.
    fn add_line(&mut self, line: &[char], Ghost(before): Ghost<Seq<Seq<char>>>)
        requires
            old(self).holds(before),
        ensures
            final(self).holds(before.push(line@)),
    {
        proof {
            assert(before.push(line@).drop_last() =~= before);
        }
        match classify(line) {
            Kind::CacheableCalls => {
                self.section = Section::Cacheable;
                if let Some(numbers) = read_two_ints(line) {
                    self.cacheable_calls = Some(numbers.0);
                }
            },
            Kind::UncacheableCalls => {
                self.section = Section::Outside;
                if let Some(numbers) = read_two_ints(line) {
                    self.uncacheable_calls = Some(numbers.0);
                }
            },
            Kind::LocalStorage => {
                self.section = Section::Local;
            },
            Kind::Hits => {
                if self.section == Section::Cacheable {
                    if let Some(numbers) = read_two_ints(line) {
                        self.hits = Some(numbers.0);
                    }
                }
            },
            Kind::Misses => {
                if self.section == Section::Cacheable {
                    if let Some(numbers) = read_two_ints(line) {
                        self.misses = Some(numbers.0);
                    }
                }
            },
            Kind::CacheSize => {
                if self.section == Section::Local {
                    if let Some(numbers) = read_two_decimals(line) {
                        self.size = Some((numbers.0, numbers.1));
                    }
                }
            },
            Kind::Other => {},
        }
    }
}

/// Parses ccache stats output. `None` where one of the counts of cacheable calls, hits and misses
/// is missing.
pub fn parse_ccache_stats(input: &str) -> (stats: Option<Stats>)
    ensures
        match stats {
            Some(s) => parsed_stats(input@) == Some(s@),
            None => parsed_stats(input@) is None,
        },
{
    let chars = to_chars(input);
    let lines = split_lines(&chars);
    let ghost shown = trimmed_lines(input@);
    let mut reading = Reading {
        section: Section::Outside,
        cacheable_calls: None,
        hits: None,
        misses: None,
        uncacheable_calls: None,
        size: None,
    };
    let n: usize = lines.len();
    for i in 0..n
        invariant
            n == lines@.len(),
            n == shown.len(),
            contents(lines@) == lines_of(input@),
            shown == trimmed_lines(input@),
            reading.holds(shown.take(i as int)),
    {
        let line = trim(lines[i]);
        proof {
            assert(contents(lines@)[i as int] == lines@[i as int]@);
            assert(shown.take(i + 1) =~= shown.take(i as int).push(line@));
        }
        reading.add_line(line, Ghost(shown.take(i as int)));
    }
    proof {
        assert(shown.take(n as int) =~= shown);
    }
    match (reading.cacheable_calls, reading.hits, reading.misses) {
        (Some(cacheable_calls), Some(hits), Some(misses)) => {
            let uncacheable_calls: u64 = match reading.uncacheable_calls {
                Some(count) => count,
                None => 0,
            };
            let (cache_size_used_gb, cache_size_max_gb) = match reading.size {
                Some(size) => (Some(size.0), Some(size.1)),
                None => (None, None),
            };
            Some(
                Stats {
                    cacheable_calls,
                    hits,
                    misses,
                    uncacheable_calls,
                    cache_size_used_gb,
                    cache_size_max_gb,
                },
            )
        },
        _ => None,
    }
}

} // verus!
