//! Whole numbers written as text.

use vstd::prelude::*;

use crate::digits::{all_digits, digit_value, digits_value, is_digit, u64_of};

verus! {

/// The ASCII digit of a value below ten.
pub open spec fn digit_char(value: nat) -> char {
    ('0' as int + value) as char
}

/// A number written in base ten, without leading zeros.
pub open spec fn decimal_text(n: nat) -> Seq<char>
    decreases n,
{
    if n < 10 {
        seq![digit_char(n)]
    } else {
        decimal_text(n / 10).push(digit_char(n % 10))
    }
}

/// A number below one thousand written with three digits.
pub open spec fn three_digits(n: nat) -> Seq<char> {
    seq![digit_char(n / 100), digit_char(n / 10 % 10), digit_char(n % 10)]
}

/// A number written in base ten with a comma before each group of three digits.
pub open spec fn grouped_text(n: nat) -> Seq<char>
    decreases n,
{
    if n < 1000 {
        decimal_text(n)
    } else {
        grouped_text(n / 1000) + seq![','] + three_digits(n % 1000)
    }
}

/// A signed number written in base ten, with a minus sign in front where it is negative.
pub open spec fn signed_text(n: int) -> Seq<char> {
    if n < 0 {
        seq!['-'] + decimal_text((-n) as nat)
    } else {
        decimal_text(n as nat)
    }
}

/// A text without its commas.
pub open spec fn without_commas(s: Seq<char>) -> Seq<char>
    decreases s.len(),
{
    if s.len() == 0 {
        s
    } else if s.last() == ',' {
        without_commas(s.drop_last())
    } else {
        without_commas(s.drop_last()).push(s.last())
    }
}

proof fn lemma_digit_char(value: nat)
    requires
        value < 10,
    ensures
        is_digit(digit_char(value)),
        digit_value(digit_char(value)) == value,
{
}

/// What stands in base ten is a row of digits that denotes the number.
pub proof fn law_decimal_text_reads_back(n: nat)
    ensures
        decimal_text(n).len() > 0,
        all_digits(decimal_text(n)),
        digits_value(decimal_text(n)) == n,
        n <= u64::MAX ==> u64_of(decimal_text(n)) == Some(n as u64),
    decreases n,
{
    let s = decimal_text(n);
    if n < 10 {
        lemma_digit_char(n);
        assert(s.drop_last() =~= Seq::<char>::empty());
        assert(digits_value(s.drop_last()) == 0);
        assert(s.last() == digit_char(n));
    } else {
        law_decimal_text_reads_back(n / 10);
        lemma_digit_char(n % 10);
        assert(s.drop_last() =~= decimal_text(n / 10));
    }
}

proof fn lemma_without_commas_of_digits(s: Seq<char>, t: Seq<char>)
    requires
        all_digits(t),
    ensures
        without_commas(s + t) == without_commas(s) + t,
    decreases t.len(),
{
    if t.len() == 0 {
        assert(s + t =~= s);
        assert(without_commas(s) + t =~= without_commas(s));
    } else {
        assert((s + t).drop_last() =~= s + t.drop_last());
        assert(is_digit(t.last()));
        assert forall|i: int| 0 <= i < t.drop_last().len() implies is_digit(
            #[trigger] t.drop_last()[i],
        ) by {
            assert(is_digit(t[i]));
        }
        lemma_without_commas_of_digits(s, t.drop_last());
        assert((without_commas(s) + t.drop_last()).push(t.last()) =~= without_commas(s) + t);
    }
}

proof fn lemma_three_digits(n: nat)
    requires
        n < 1000,
    ensures
        all_digits(three_digits(n)),
{
    lemma_digit_char(n / 100);
    lemma_digit_char(n / 10 % 10);
    lemma_digit_char(n % 10);
}

proof fn lemma_decimal_text_by_thousands(n: nat)
    requires
        n >= 1000,
    ensures
        decimal_text(n) == decimal_text(n / 1000) + three_digits(n % 1000),
{
    let a = n / 10;
    let b = a / 10;
    assert(decimal_text(n) == decimal_text(a).push(digit_char(n % 10)));
    assert(decimal_text(a) == decimal_text(b).push(digit_char(a % 10)));
    assert(decimal_text(b) == decimal_text(b / 10).push(digit_char(b % 10)));
    assert(b / 10 == n / 1000);
    assert(b % 10 == (n % 1000) / 100);
    assert(a % 10 == (n % 1000) / 10 % 10);
    assert(n % 10 == (n % 1000) % 10);
    assert(decimal_text(n) =~= decimal_text(n / 1000) + three_digits(n % 1000));
}

/// Taking the separators out of a grouped number leaves the plain number.
pub proof fn law_grouping_only_adds_commas(n: nat)
    ensures
        without_commas(grouped_text(n)) == decimal_text(n),
    decreases n,
{
    if n < 1000 {
        law_decimal_text_reads_back(n);
        let empty = Seq::<char>::empty();
        lemma_without_commas_of_digits(empty, decimal_text(n));
        assert(empty + decimal_text(n) =~= decimal_text(n));
    } else {
        law_grouping_only_adds_commas(n / 1000);
        lemma_three_digits(n % 1000);
        let head = grouped_text(n / 1000) + seq![','];
        lemma_without_commas_of_digits(head, three_digits(n % 1000));
        assert(head.drop_last() =~= grouped_text(n / 1000));
        lemma_decimal_text_by_thousands(n);
    }
}

/// A grouped number has a comma exactly where the characters from it to the end, itself included,
/// make up whole groups of four.
pub proof fn law_commas_stand_before_groups_of_three(n: nat)
    ensures
        forall|i: int|
            0 <= i < grouped_text(n).len() ==> ((#[trigger] grouped_text(n)[i] == ',') <==> (
            grouped_text(n).len() - i) % 4 == 0),
        grouped_text(n)[0] != ',',
        grouped_text(n).len() > 0,
    decreases n,
{
    let s = grouped_text(n);
    if n < 1000 {
        law_decimal_text_reads_back(n);
        lemma_short_decimal_text(n);
        assert forall|i: int| 0 <= i < s.len() implies ((#[trigger] s[i] == ',') <==> (s.len() - i)
            % 4 == 0) by {
            assert(is_digit(decimal_text(n)[i]));
        }
    } else {
        let head = grouped_text(n / 1000);
        law_commas_stand_before_groups_of_three(n / 1000);
        lemma_three_digits(n % 1000);
        assert forall|i: int| 0 <= i < s.len() implies ((#[trigger] s[i] == ',') <==> (s.len() - i)
            % 4 == 0) by {
            if i < head.len() {
                assert(s[i] == head[i]);
            } else if i > head.len() {
                assert(is_digit(three_digits(n % 1000)[i - head.len() - 1]));
            }
        }
        assert(s[0] == head[0]);
    }
}

proof fn lemma_short_decimal_text(n: nat)
    requires
        n < 1000,
    ensures
        1 <= decimal_text(n).len() <= 3,
{
    reveal_with_fuel(decimal_text, 3);
}

/// Two numbers that are written alike are the same number.
pub proof fn law_grouped_text_tells_numbers_apart(a: nat, b: nat)
    requires
        grouped_text(a) == grouped_text(b),
    ensures
        a == b,
{
    law_grouping_only_adds_commas(a);
    law_grouping_only_adds_commas(b);
    law_decimal_text_reads_back(a);
    law_decimal_text_reads_back(b);
}

/// Appends the digit of a value below ten.
fn push_digit(out: &mut String, value: u8)
    requires
        value < 10,
    ensures
        final(out)@ == old(out)@.push(digit_char(value as nat)),
{
    out.push((48 + value) as char);
}

/// Appends a number in base ten.
pub fn push_decimal(out: &mut String, value: u128)
    ensures
        final(out)@ == old(out)@ + decimal_text(value as nat),
    decreases value,
{
    if value >= 10 {
        push_decimal(out, value / 10);
    }
    push_digit(out, (value % 10) as u8);
    proof {
        assert(out@ =~= old(out)@ + decimal_text(value as nat));
    }
}

/// Appends a signed number in base ten.
pub fn push_signed(out: &mut String, value: i32)
    ensures
        final(out)@ == old(out)@ + signed_text(value as int),
{
    if value < 0 {
        out.push('-');
        let magnitude: i64 = -(value as i64);
        push_decimal(out, magnitude as u128);
        proof {
            assert(out@ =~= old(out)@ + signed_text(value as int));
        }
    } else {
        push_decimal(out, value as u128);
    }
}

/// Appends a number in base ten with thousands separators.
pub fn push_grouped(out: &mut String, value: u128)
    ensures
        final(out)@ == old(out)@ + grouped_text(value as nat),
    decreases value,
{
    if value < 1000 {
        push_decimal(out, value);
    } else {
        push_grouped(out, value / 1000);
        out.push(',');
        let tail: u128 = value % 1000;
        push_digit(out, (tail / 100) as u8);
        push_digit(out, (tail / 10 % 10) as u8);
        push_digit(out, (tail % 10) as u8);
        proof {
            assert(out@ =~= old(out)@ + grouped_text(value as nat));
        }
    }
}

/// Formats an integer with thousands separators.
pub fn fmt_u64(value: u64) -> (shown: String)
    ensures
        shown@ == grouped_text(value as nat),
{
    let mut shown = String::new();
    push_grouped(&mut shown, value as u128);
    proof {
        assert(Seq::<char>::empty() + grouped_text(value as nat) =~= grouped_text(value as nat));
    }
    shown
}

} // verus!
