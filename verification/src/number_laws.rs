//! What holds of every number that is read or written.

use vstd::arithmetic::power::{lemma_pow1, lemma_pow_adds, lemma_pow_positive, pow};
use vstd::prelude::*;

use crate::decimal::{
    decimal_less, decimal_value, fraction_part, is_decimal, lemma_parts_are_digits,
    lemma_point_at, lemma_point_is_first, mantissa, percent_share, places, whole_part, whole_value,
    Quotient,
};
use crate::digits::{
    all_digits, digit_value, digits_value, is_digit, is_number_char, number_runs, u64_of,
};
use crate::format::{decimal_text, law_decimal_text_reads_back, signed_text, without_commas};
use crate::stats_laws::{is_numberless, lemma_leading_number, lemma_numberless_is_skipped};

verus! {

/// The digits are the ten from `0` to `9`, each worth its place among them, and a number is made
/// of digits and decimal points.
pub proof fn law_digits_are_the_ten_of_ascii(c: char)
    ensures
        is_digit(c) <==> 48 <= c as int <= 57,
        is_digit(c) ==> digit_value(c) == c as int - 48,
        is_number_char(c) <==> is_digit(c) || c as int == 46,
{
}

/// Whether digits make up a text is told character by character.
pub proof fn law_digits_are_told_one_by_one(s: Seq<char>, c: char)
    ensures
        all_digits(Seq::<char>::empty()),
        all_digits(s.push(c)) <==> all_digits(s) && is_digit(c),
{
    let longer = s.push(c);
    if all_digits(longer) {
        assert forall|i: int| 0 <= i < s.len() implies is_digit(#[trigger] s[i]) by {
            assert(is_digit(longer[i]));
        }
        assert(is_digit(longer[s.len() as int]));
    }
}

/// One more digit makes ten times the number and that digit more; no digits make zero.
pub proof fn law_one_more_digit_makes_ten_times_as_much(s: Seq<char>, c: char)
    requires
        is_digit(c),
    ensures
        digits_value(s.push(c)) == 10 * digits_value(s) + (c as int - 48),
        digits_value(Seq::<char>::empty()) == 0,
{
    assert(s.push(c).drop_last() =~= s);
}

/// A whole number is read just from one or more digits that denote it.
pub proof fn law_whole_numbers_are_read_from_digits_alone(s: Seq<char>, n: u64)
    ensures
        u64_of(s) == Some(n) <==> s.len() > 0 && all_digits(s) && digits_value(s) == n,
        u64_of(s) is None <==> s.len() == 0 || !all_digits(s) || digits_value(s)
            > 0xffff_ffff_ffff_ffff,
{
}

/// The first number in a text is the first stretch of number characters that nothing extends, and
/// the other numbers are those of what follows it.
pub proof fn law_numbers_are_the_stretches_of_number_characters(
    before: Seq<char>,
    number: Seq<char>,
    rest: Seq<char>,
)
    requires
        is_numberless(before),
        number.len() > 0,
        forall|i: int| 0 <= i < number.len() ==> is_number_char(#[trigger] number[i]),
        rest.len() > 0 ==> !is_number_char(rest.first()),
    ensures
        number_runs(before + number + rest).len() == 1 + number_runs(rest).len(),
        number_runs(before + number + rest)[0] == number,
        number_runs(before + number + rest).skip(1) == number_runs(rest),
{
    lemma_numberless_is_skipped(before, number + rest);
    lemma_leading_number(number, rest);
    assert(before + number + rest =~= before + (number + rest));
    assert(number_runs(before + number + rest).skip(1) =~= number_runs(rest));
}

/// A text without number characters holds no number.
pub proof fn law_text_without_number_characters_has_no_numbers(s: Seq<char>)
    requires
        is_numberless(s),
    ensures
        number_runs(s).len() == 0,
{
    let nothing = Seq::<char>::empty();
    lemma_numberless_is_skipped(s, nothing);
    assert(s + nothing =~= s);
}

/// A number other than zero is written without a leading zero.
pub proof fn law_numbers_have_no_leading_zero(n: nat)
    ensures
        decimal_text(n).first() == '0' <==> n == 0,
        n == 0 ==> decimal_text(n).len() == 1,
    decreases n,
{
    if n >= 10 {
        law_numbers_have_no_leading_zero(n / 10);
        law_decimal_text_reads_back(n / 10);
        assert(decimal_text(n).first() == decimal_text(n / 10).first());
    }
}

proof fn lemma_written_number_is_the_only_one(s: Seq<char>, n: nat)
    requires
        s.len() > 0,
        all_digits(s),
        digits_value(s) == n,
        s.first() == '0' ==> s.len() == 1,
    ensures
        s == decimal_text(n),
    decreases s.len(),
{
    let head = s.drop_last();
    let c = s.last();
    assert(is_digit(s[s.len() - 1]));
    assert(s =~= head.push(c));
    law_one_more_digit_makes_ten_times_as_much(head, c);
    if head.len() == 0 {
        assert(head =~= Seq::<char>::empty());
        assert(n < 10);
        assert(s =~= decimal_text(n));
    } else {
        assert forall|i: int| 0 <= i < head.len() implies is_digit(#[trigger] head[i]) by {
            assert(is_digit(s[i]));
        }
        assert(head.first() == s.first());
        lemma_written_number_is_the_only_one(head, digits_value(head));
        law_numbers_have_no_leading_zero(digits_value(head));
        assert(digits_value(head) > 0);
        assert(n / 10 == digits_value(head));
        assert(n % 10 == c as int - 48);
        assert(s =~= decimal_text(n));
    }
}

/// A row of digits without a leading zero is how the number that it denotes is written, and there
/// is no other way.
pub proof fn law_written_number_is_the_only_one(s: Seq<char>)
    requires
        s.len() > 0,
        all_digits(s),
        s.first() == '0' ==> s.len() == 1,
    ensures
        s == decimal_text(digits_value(s)),
{
    lemma_written_number_is_the_only_one(s, digits_value(s));
}

/// A negative number is written with a minus sign before the number without its sign, any other
/// number as it is.
pub proof fn law_only_negative_numbers_have_a_sign(n: int)
    ensures
        n >= 0 ==> signed_text(n).first() != '-' && signed_text(n) == decimal_text(n as nat),
        n < 0 ==> signed_text(n).first() == '-' && signed_text(n).drop_first() == signed_text(-n),
{
    if n >= 0 {
        law_decimal_text_reads_back(n as nat);
        assert(is_digit(decimal_text(n as nat)[0]));
    } else {
        assert(signed_text(n).drop_first() =~= signed_text(-n));
    }
}

proof fn lemma_commas_drop_out(s: Seq<char>, t: Seq<char>)
    ensures
        without_commas(s + t) == without_commas(s) + without_commas(t),
    decreases t.len(),
{
    if t.len() == 0 {
        assert(s + t =~= s);
        assert(without_commas(s) + without_commas(t) =~= without_commas(s));
    } else {
        assert((s + t).drop_last() =~= s + t.drop_last());
        lemma_commas_drop_out(s, t.drop_last());
        assert(without_commas(s + t) =~= without_commas(s) + without_commas(t));
    }
}

/// Taking out the commas drops these and keeps everything else in its order.
pub proof fn law_commas_drop_out_and_nothing_else(s: Seq<char>, c: char, t: Seq<char>)
    ensures
        without_commas(s + seq![c] + t) == if c == ',' {
            without_commas(s) + without_commas(t)
        } else {
            without_commas(s) + seq![c] + without_commas(t)
        },
        without_commas(Seq::<char>::empty()).len() == 0,
{
    lemma_commas_drop_out(s + seq![c], t);
    lemma_commas_drop_out(s, seq![c]);
    reveal_with_fuel(without_commas, 2);
    assert(seq![c].drop_last() =~= Seq::<char>::empty());
    assert(without_commas(seq![c]) =~= if c == ',' {
        Seq::<char>::empty()
    } else {
        seq![c]
    });
    assert(without_commas(s) + Seq::<char>::empty() =~= without_commas(s));
}

/// A decimal number is either a row of digits, or digits, a point and digits with at least one
/// digit on either side of the point; and all of these are decimal numbers.
pub proof fn law_decimals_are_digits_with_a_point(whole: Seq<char>, fraction: Seq<char>)
    requires
        all_digits(whole),
        all_digits(fraction),
    ensures
        is_decimal(whole) <==> whole.len() > 0,
        is_decimal(whole + seq!['.'] + fraction) <==> whole.len() + fraction.len() > 0,
{
    let s = whole + seq!['.'] + fraction;
    if whole.len() > 0 {
        assert(is_digit(whole[0]));
        assert forall|i: int| 0 <= i < whole.len() implies is_number_char(#[trigger] whole[i]) by {
            assert(is_digit(whole[i]));
        }
        assert(is_digit(s[0]));
    }
    if fraction.len() > 0 {
        assert(is_digit(fraction[0]));
        assert(s[whole.len() as int + 1] == fraction[0]);
    }
    assert forall|i: int| 0 <= i < s.len() implies is_number_char(#[trigger] s[i]) && (s[i] == '.'
        ==> i == whole.len()) by {
        if i < whole.len() {
            assert(is_digit(whole[i]));
        } else if i > whole.len() {
            assert(is_digit(fraction[i - whole.len() - 1]));
        }
    }
}

/// What is read as a decimal number is a row of digits, or digits, a point and digits.
pub proof fn law_decimals_fall_into_two_parts(s: Seq<char>) -> (parts: (Seq<char>, Seq<char>))
    requires
        is_decimal(s),
    ensures
        all_digits(parts.0),
        all_digits(parts.1),
        s == parts.0 + seq!['.'] + parts.1 || s == parts.0 && parts.1.len() == 0,
{
    lemma_parts_are_digits(s);
    lemma_point_at(s);
    let (whole, fraction) = (whole_part(s), fraction_part(s));
    if s =~= whole {
    } else {
        assert(s =~= whole + seq!['.'] + fraction);
    }
    (whole, fraction)
}

proof fn lemma_parts(whole: Seq<char>, fraction: Seq<char>)
    requires
        all_digits(whole),
    ensures
        mantissa(whole) == digits_value(whole),
        places(whole) == 0,
        mantissa(whole + seq!['.'] + fraction) == digits_value(whole + fraction),
        places(whole + seq!['.'] + fraction) == fraction.len(),
{
    let s = whole + seq!['.'] + fraction;
    let k = whole.len() as int;
    assert forall|i: int| 0 <= i < k implies whole[i] != '.' by {
        assert(is_digit(whole[i]));
    }
    lemma_point_is_first(whole, k);
    assert(whole.take(k) + Seq::<char>::empty() =~= whole);
    assert forall|i: int| 0 <= i < k implies s[i] != '.' by {
        assert(is_digit(whole[i]));
    }
    lemma_point_is_first(s, k);
    assert(s.take(k) =~= whole);
    assert(s.skip(k + 1) =~= fraction);
}

/// A decimal number is the number of all its digits over ten to the power of how many of them
/// stand behind the point.
pub proof fn law_decimals_are_worth_their_digits(whole: Seq<char>, fraction: Seq<char>)
    requires
        all_digits(whole),
    ensures
        decimal_value(whole).over == digits_value(whole),
        decimal_value(whole).under == 1,
        decimal_value(whole + seq!['.'] + fraction).over == digits_value(whole + fraction),
        decimal_value(whole + seq!['.'] + fraction).under == pow(10, fraction.len()),
{
    lemma_parts(whole, fraction);
    lemma_pow_positive(10, fraction.len());
    assert(pow(10, 0) == 1) by {
        vstd::arithmetic::power::lemma_pow0(10);
    }
}

/// A decimal number without a point is worth as much as with a point at its end.
pub proof fn law_point_at_the_end_makes_no_difference(whole: Seq<char>, other: Seq<char>)
    requires
        all_digits(whole),
    ensures
        decimal_less(whole, other) == decimal_less(whole + seq!['.'], other),
        decimal_less(other, whole) == decimal_less(other, whole + seq!['.']),
{
    lemma_parts(whole, Seq::empty());
    assert(whole + seq!['.'] + Seq::<char>::empty() =~= whole + seq!['.']);
    assert(whole + Seq::<char>::empty() =~= whole);
}

/// Of two decimal numbers with as many digits behind the point, the one is less whose digits,
/// without the point, denote less.
pub proof fn law_decimals_are_ordered_by_their_digits(
    whole: Seq<char>,
    fraction: Seq<char>,
    other_whole: Seq<char>,
    other_fraction: Seq<char>,
)
    requires
        all_digits(whole),
        all_digits(other_whole),
        fraction.len() == other_fraction.len(),
    ensures
        decimal_less(whole + seq!['.'] + fraction, other_whole + seq!['.'] + other_fraction)
            <==> digits_value(whole + fraction) < digits_value(other_whole + other_fraction),
{
    lemma_parts(whole, fraction);
    lemma_parts(other_whole, other_fraction);
    lemma_pow_positive(10, fraction.len());
    let (a, b) = (
        digits_value(whole + fraction) as int,
        digits_value(other_whole + other_fraction) as int,
    );
    let p = pow(10, fraction.len());
    assert(a * p < b * p <==> a < b) by (nonlinear_arith)
        requires
            p > 0,
    ;
}

/// A zero at the end of the fraction makes no difference to the order.
pub proof fn law_trailing_zero_makes_no_difference(
    whole: Seq<char>,
    fraction: Seq<char>,
    other: Seq<char>,
)
    requires
        all_digits(whole),
        all_digits(fraction),
    ensures
        decimal_less(whole + seq!['.'] + fraction.push('0'), other) == decimal_less(
            whole + seq!['.'] + fraction,
            other,
        ),
        decimal_less(other, whole + seq!['.'] + fraction.push('0')) == decimal_less(
            other,
            whole + seq!['.'] + fraction,
        ),
{
    lemma_parts(whole, fraction);
    lemma_parts(whole, fraction.push('0'));
    assert(whole + fraction.push('0') =~= (whole + fraction).push('0'));
    law_one_more_digit_makes_ten_times_as_much(whole + fraction, '0');
    lemma_pow_adds(10, fraction.len(), 1);
    lemma_pow1(10);
    let v = digits_value(whole + fraction) as int;
    let p = pow(10, fraction.len());
    let (w, q) = (mantissa(other) as int, pow(10, places(other)));
    assert((10 * v) * q < w * (p * 10) <==> v * q < w * p) by (nonlinear_arith);
    assert(w * (p * 10) < (10 * v) * q <==> w * p < v * q) by (nonlinear_arith);
}

/// A whole number as a quotient is that number.
pub proof fn law_whole_value_is_the_number(n: nat)
    ensures
        whole_value(n).under > 0,
        whole_value(n).over == n * whole_value(n).under,
{
}

/// A percentage of a number other than zero, times that number, is a hundred times what it is the
/// percentage of; a percentage of zero is zero.
pub proof fn law_percentage_times_the_whole_is_a_hundred_times_the_part(
    first: Quotient,
    second: Quotient,
)
    requires
        first.under > 0,
        second.under > 0,
    ensures
        percent_share(first, second).under > 0,
        second.over == 0 ==> percent_share(first, second).over == 0,
        second.over > 0 ==> (percent_share(first, second).over * second.over) * first.under == 100
            * first.over * (percent_share(first, second).under * second.under),
{
    let share = percent_share(first, second);
    if second.over > 0 {
        let (a, b, c, d) = (first.over, first.under, second.over, second.under);
        assert(b * c > 0) by (nonlinear_arith)
            requires
                b > 0,
                c > 0,
        ;
        assert(((100 * a * d) * c) * b == 100 * a * ((b * c) * d)) by (nonlinear_arith);
    }
}

} // verus!
