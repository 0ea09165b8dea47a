//! Numbers in text: decimal digits, the runs of number characters in a line, and whole numbers.

use vstd::prelude::*;
use vstd::slice::slice_subrange;

use crate::text;

verus! {

/// Whether a character is one of the ten ASCII digits.
pub open spec fn is_digit(c: char) -> bool {
    '0' <= c <= '9'
}

/// Whether every character is an ASCII digit.
pub open spec fn all_digits(s: Seq<char>) -> bool {
    forall|i: int| 0 <= i < s.len() ==> is_digit(#[trigger] s[i])
}

/// Whether a character can stand in an unsigned number: a digit or a decimal point.
pub open spec fn is_number_char(c: char) -> bool {
    is_digit(c) || c == '.'
}

/// The value of an ASCII digit.
pub open spec fn digit_value(c: char) -> nat {
    (c as int - '0' as int) as nat
}

/// The number that a row of digits denotes in base ten.
pub open spec fn digits_value(s: Seq<char>) -> nat
    decreases s.len(),
{
    if s.len() == 0 {
        0
    } else {
        digits_value(s.drop_last()) * 10 + digit_value(s.last())
    }
}

/// The number of leading characters that can stand in a number.
pub open spec fn run_length(s: Seq<char>) -> nat
    decreases s.len(),
{
    if s.len() == 0 || !is_number_char(s.first()) {
        0
    } else {
        1 + run_length(s.drop_first())
    }
}

/// The maximal runs of number characters in a text, in order.
pub open spec fn number_runs(s: Seq<char>) -> Seq<Seq<char>>
    decreases s.len(),
{
    if s.len() == 0 {
        Seq::empty()
    } else if run_length(s) == 0 {
        number_runs(s.drop_first())
    } else if run_length(s) >= s.len() {
        seq![s]
    } else {
        seq![s.take(run_length(s) as int)] + number_runs(s.skip(run_length(s) as int))
    }
}

/// The `u64` that a text denotes: one or more digits whose value fits.
pub open spec fn u64_of(s: Seq<char>) -> Option<u64> {
    if s.len() > 0 && all_digits(s) && digits_value(s) <= u64::MAX {
        Some(digits_value(s) as u64)
    } else {
        None
    }
}

proof fn lemma_run_length(s: Seq<char>)
    ensures
        run_length(s) <= s.len(),
        forall|i: int| 0 <= i < run_length(s) ==> is_number_char(#[trigger] s[i]),
        run_length(s) < s.len() ==> !is_number_char(s[run_length(s) as int]),
    decreases s.len(),
{
    if s.len() > 0 && is_number_char(s.first()) {
        let rest = s.drop_first();
        lemma_run_length(rest);
        assert forall|i: int| 0 <= i < run_length(s) implies is_number_char(#[trigger] s[i]) by {
            if i > 0 {
                assert(s[i] == rest[i - 1]);
            }
        }
    }
}

/// A stretch of number characters that nothing extends is the leading run.
pub proof fn lemma_run_is_leading(s: Seq<char>, length: int)
    requires
        0 <= length <= s.len(),
        forall|i: int| 0 <= i < length ==> is_number_char(#[trigger] s[i]),
        length < s.len() ==> !is_number_char(s[length]),
    ensures
        run_length(s) == length,
{
    lemma_run_length(s);
    if run_length(s) < length {
        assert(is_number_char(s[run_length(s) as int]));
    } else if length < run_length(s) {
        assert(is_number_char(s[length]));
    }
}

/// A longer row of digits denotes no smaller number.
pub proof fn lemma_digits_value_grows(s: Seq<char>, k: int)
    requires
        0 <= k <= s.len(),
    ensures
        digits_value(s.take(k)) <= digits_value(s),
    decreases s.len() - k,
{
    if k < s.len() {
        assert(s.take(k + 1).drop_last() =~= s.take(k));
        lemma_digits_value_grows(s, k + 1);
    } else {
        assert(s.take(k) =~= s);
    }
}

/// Tests whether a character can stand in an unsigned number.
pub fn number_char(c: char) -> (found: bool)
    ensures
        found == is_number_char(c),
{
    ('0' <= c && c <= '9') || c == '.'
}

/// Cuts the maximal runs of number characters out of a text.
pub fn split_numbers<'a>(chars: &'a [char]) -> (runs: Vec<&'a [char]>)
    ensures
        text::contents(runs@) == number_runs(chars@),
{
    let n: usize = chars.len();
    let mut runs: Vec<&'a [char]> = Vec::new();
    let mut start: usize = 0;
    proof {
        assert(chars@.skip(0) =~= chars@);
        assert(text::contents(runs@) + number_runs(chars@) =~= number_runs(chars@));
    }
    while start < n
        invariant
            start <= n == chars@.len(),
            text::contents(runs@) + number_runs(chars@.skip(start as int)) == number_runs(chars@),
        decreases n - start,
    {
        let ghost rest = chars@.skip(start as int);
        let ghost before = runs@;
        let mut end: usize = start;
        while end < n && number_char(chars[end])
            invariant
                start <= end <= n == chars@.len(),
                forall|i: int| start <= i < end ==> is_number_char(#[trigger] chars@[i]),
            decreases n - end,
        {
            end += 1;
        }
        proof {
            lemma_run_is_leading(rest, end - start);
        }
        if end == start {
            proof {
                assert(rest.drop_first() =~= chars@.skip(start + 1));
            }
            start += 1;
        } else {
            let run = slice_subrange(chars, start, end);
            runs.push(run);
            proof {
                assert(run@ =~= rest.take(end - start));
                assert(text::contents(runs@) =~= text::contents(before).push(run@));
                assert(rest.skip(end - start) =~= chars@.skip(end as int));
                if end == n {
                    assert(run@ =~= rest);
                    assert(chars@.skip(n as int) =~= Seq::<char>::empty());
                }
                assert(text::contents(runs@) + number_runs(chars@.skip(end as int))
                    =~= text::contents(before) + (seq![run@] + number_runs(
                    chars@.skip(end as int),
                )));
                assert(seq![run@] + number_runs(chars@.skip(end as int)) =~= number_runs(rest));
            }
            start = end;
        }
    }
    proof {
        assert(chars@.skip(n as int) =~= Seq::<char>::empty());
        assert(text::contents(runs@) + Seq::<Seq<char>>::empty() =~= text::contents(runs@));
    }
    runs
}

/// Reads a `u64` from a row of digits.
pub fn read_u64(chars: &[char]) -> (value: Option<u64>)
    ensures
        value == u64_of(chars@),
{
    let n: usize = chars.len();
    if n == 0 {
        return None;
    }
    let mut value: u64 = 0;
    for i in 0..n
        invariant
            n == chars@.len(),
            forall|j: int| 0 <= j < i ==> is_digit(#[trigger] chars@[j]),
            value == digits_value(chars@.take(i as int)),
    {
        let c = chars[i];
        if !('0' <= c && c <= '9') {
            proof {
                assert(!is_digit(chars@[i as int]));
            }
            return None;
        }
        proof {
            assert(chars@.take(i + 1).drop_last() =~= chars@.take(i as int));
            lemma_digits_value_grows(chars@, i + 1);
        }
        let digit: u64 = (c as u32 - '0' as u32) as u64;
        if value > (u64::MAX - digit) / 10 {
            return None;
        }
        value = value * 10 + digit;
    }
    proof {
        assert(chars@.take(n as int) =~= chars@);
    }
    Some(value)
}

} // verus!
