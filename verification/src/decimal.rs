//! Unsigned decimal numbers such as `15.0`, kept exactly as they were written.

use vstd::arithmetic::power::{lemma_pow_adds, lemma_pow_positive, pow};
use vstd::prelude::*;
use vstd::slice::slice_subrange;

use crate::digits::{all_digits, digits_value, is_digit, is_number_char, number_char};
use crate::text::{to_chars, to_text};

verus! {

/// Whether a text is an unsigned decimal number: digits with at most one decimal point, which may
/// stand anywhere, and at least one digit.
pub open spec fn is_decimal(s: Seq<char>) -> bool {
    &&& forall|i: int| 0 <= i < s.len() ==> is_number_char(#[trigger] s[i])
    &&& forall|i: int, j: int|
        0 <= i < s.len() && 0 <= j < s.len() && s[i] == '.' && s[j] == '.' ==> i == j
    &&& exists|i: int| 0 <= i < s.len() && is_digit(#[trigger] s[i])
}

/// The position of the first decimal point, or the length of the text where there is none.
pub open spec fn point_at(s: Seq<char>) -> nat
    decreases s.len(),
{
    if s.len() == 0 || s.first() == '.' {
        0
    } else {
        1 + point_at(s.drop_first())
    }
}

/// The digits before the decimal point.
pub open spec fn whole_part(s: Seq<char>) -> Seq<char> {
    s.take(point_at(s) as int)
}

/// The digits behind the decimal point.
pub open spec fn fraction_part(s: Seq<char>) -> Seq<char> {
    if point_at(s) < s.len() {
        s.skip(point_at(s) as int + 1)
    } else {
        Seq::empty()
    }
}

/// The number of digits behind the decimal point.
pub open spec fn places(s: Seq<char>) -> nat {
    fraction_part(s).len()
}

/// The number that is denoted when the decimal point is left out. The decimal number itself is
/// this, divided by ten to the power of its places.
pub open spec fn mantissa(s: Seq<char>) -> nat {
    digits_value(whole_part(s) + fraction_part(s))
}

/// A number as a quotient.
pub struct Quotient {
    pub over: nat,
    pub under: nat,
}

/// A whole number as a quotient.
pub open spec fn whole_value(n: nat) -> Quotient {
    Quotient { over: n, under: 1 }
}

/// The number that a decimal number denotes.
pub open spec fn decimal_value(s: Seq<char>) -> Quotient {
    Quotient { over: mantissa(s), under: pow(10, places(s)) as nat }
}

/// One number as a percentage of another: one hundred times the first over the second, or zero
/// where the second is zero.
pub open spec fn percent_share(first: Quotient, second: Quotient) -> Quotient {
    if second.over > 0 {
        Quotient { over: 100 * first.over * second.under, under: first.under * second.over }
    } else {
        whole_value(0)
    }
}

/// Whether the number written as `a` is less than the one written as `b`.
pub open spec fn decimal_less(a: Seq<char>, b: Seq<char>) -> bool {
    mantissa(a) * pow(10, places(b)) < mantissa(b) * pow(10, places(a))
}

/// A row of zeros.
spec fn zeros(n: nat) -> Seq<char> {
    Seq::new(n, |i: int| '0')
}

/// The position of the first decimal point lies within the text, and none stands before it.
pub proof fn lemma_point_at(s: Seq<char>)
    ensures
        point_at(s) <= s.len(),
        point_at(s) < s.len() ==> s[point_at(s) as int] == '.',
        forall|i: int| 0 <= i < point_at(s) ==> s[i] != '.',
    decreases s.len(),
{
    if s.len() > 0 && s.first() != '.' {
        let rest = s.drop_first();
        lemma_point_at(rest);
        assert forall|i: int| 0 <= i < point_at(s) implies s[i] != '.' by {
            if i > 0 {
                assert(s[i] == rest[i - 1]);
            }
        }
    }
}

/// A decimal point that is the first of its text is where the digits before it end.
pub proof fn lemma_point_is_first(s: Seq<char>, at: int)
    requires
        0 <= at <= s.len(),
        at < s.len() ==> s[at] == '.',
        forall|i: int| 0 <= i < at ==> s[i] != '.',
    ensures
        point_at(s) == at,
{
    lemma_point_at(s);
    if point_at(s) < at {
        assert(s[point_at(s) as int] != '.');
    }
}

/// The parts of a decimal number are digits.
pub proof fn lemma_parts_are_digits(s: Seq<char>)
    requires
        is_decimal(s),
    ensures
        all_digits(whole_part(s)),
        all_digits(fraction_part(s)),
{
    lemma_point_at(s);
    let at = point_at(s) as int;
    assert forall|i: int| 0 <= i < whole_part(s).len() implies is_digit(
        #[trigger] whole_part(s)[i],
    ) by {
        assert(is_number_char(s[i]));
    }
    if at < s.len() {
        assert forall|i: int| 0 <= i < fraction_part(s).len() implies is_digit(
            #[trigger] fraction_part(s)[i],
        ) by {
            assert(is_number_char(s[at + 1 + i]));
        }
    }
}

proof fn lemma_digits_bounded(s: Seq<char>)
    requires
        all_digits(s),
    ensures
        digits_value(s) < pow(10, s.len()),
    decreases s.len(),
{
    reveal(pow);
    if s.len() > 0 {
        assert(is_digit(s.last()));
        assert forall|i: int| 0 <= i < s.drop_last().len() implies is_digit(
            #[trigger] s.drop_last()[i],
        ) by {
            assert(is_digit(s[i]));
        }
        lemma_digits_bounded(s.drop_last());
        assert(pow(10, s.len()) == 10 * pow(10, (s.len() - 1) as nat));
    }
}

proof fn lemma_digits_of_joined(s: Seq<char>, t: Seq<char>)
    ensures
        digits_value(s + t) == digits_value(s) * pow(10, t.len()) + digits_value(t),
    decreases t.len(),
{
    reveal(pow);
    if t.len() == 0 {
        assert(s + t =~= s);
        assert(digits_value(s) * 1 == digits_value(s));
    } else {
        assert((s + t).drop_last() =~= s + t.drop_last());
        lemma_digits_of_joined(s, t.drop_last());
        let v = digits_value(s) as int;
        let p = pow(10, (t.len() - 1) as nat);
        assert(pow(10, t.len()) == 10 * p);
        assert((v * p) * 10 == v * (10 * p)) by (nonlinear_arith);
    }
}

proof fn lemma_zeros_value(n: nat)
    ensures
        digits_value(zeros(n)) == 0,
    decreases n,
{
    if n > 0 {
        assert(zeros(n).drop_last() =~= zeros((n - 1) as nat));
        lemma_zeros_value((n - 1) as nat);
    }
}

proof fn lemma_padded_left(s: Seq<char>, n: nat)
    ensures
        digits_value(zeros(n) + s) == digits_value(s),
{
    lemma_digits_of_joined(zeros(n), s);
    lemma_zeros_value(n);
    assert(0 * pow(10, s.len()) == 0);
}

proof fn lemma_padded_right(s: Seq<char>, n: nat)
    ensures
        digits_value(s + zeros(n)) == digits_value(s) * pow(10, n),
{
    lemma_digits_of_joined(s, zeros(n));
    lemma_zeros_value(n);
}

/// Rows of equally many digits are ordered by the first digit in which they differ.
proof fn lemma_first_difference_decides(a: Seq<char>, b: Seq<char>, k: int)
    requires
        a.len() == b.len(),
        0 <= k <= a.len(),
        all_digits(a),
        all_digits(b),
        digits_value(a.take(k)) < digits_value(b.take(k)),
    ensures
        digits_value(a) < digits_value(b),
    decreases a.len() - k,
{
    if k == a.len() {
        assert(a.take(k) =~= a);
        assert(b.take(k) =~= b);
    } else {
        assert(a.take(k + 1).drop_last() =~= a.take(k));
        assert(b.take(k + 1).drop_last() =~= b.take(k));
        assert(is_digit(a[k]));
        lemma_first_difference_decides(a, b, k + 1);
    }
}

/// How one number stands to another.
enum Rank {
    Lower,
    Same,
    Higher,
}

/// Whether `rank` says how `a` stands to `b`.
spec fn ranks(rank: Rank, a: nat, b: nat) -> bool {
    match rank {
        Rank::Lower => a < b,
        Rank::Same => a == b,
        Rank::Higher => a > b,
    }
}

/// Orders two rows of equally many digits.
fn rank_digits(a: &Vec<char>, b: &Vec<char>) -> (rank: Rank)
    requires
        a@.len() == b@.len(),
        all_digits(a@),
        all_digits(b@),
    ensures
        ranks(rank, digits_value(a@), digits_value(b@)),
{
    let n: usize = a.len();
    for i in 0..n
        invariant
            n == a@.len() == b@.len(),
            all_digits(a@),
            all_digits(b@),
            a@.take(i as int) == b@.take(i as int),
    {
        proof {
            assert(a@.take(i + 1).drop_last() =~= a@.take(i as int));
            assert(b@.take(i + 1).drop_last() =~= b@.take(i as int));
            assert(is_digit(a@[i as int]) && is_digit(b@[i as int]));
        }
        if a[i] < b[i] {
            proof {
                lemma_first_difference_decides(a@, b@, i + 1);
            }
            return Rank::Lower;
        }
        if b[i] < a[i] {
            proof {
                lemma_first_difference_decides(b@, a@, i + 1);
            }
            return Rank::Higher;
        }
        proof {
            assert(a@.take(i + 1) =~= b@.take(i + 1));
        }
    }
    proof {
        assert(a@.take(n as int) =~= a@);
        assert(b@.take(n as int) =~= b@);
    }
    Rank::Same
}

/// Fills a row of digits up with zeros, in front or behind, to a given width.
fn pad(digits: &[char], width: usize, in_front: bool) -> (padded: Vec<char>)
    requires
        digits@.len() <= width,
        all_digits(digits@),
    ensures
        padded@.len() == width,
        all_digits(padded@),
        in_front ==> padded@ == zeros((width - digits@.len()) as nat) + digits@,
        !in_front ==> padded@ == digits@ + zeros((width - digits@.len()) as nat),
{
    let mut padded: Vec<char> = Vec::new();
    let n: usize = digits.len();
    let missing: usize = width - n;
    if in_front {
        for i in 0..missing
            invariant
                padded@ == zeros(i as nat),
        {
            padded.push('0');
            proof {
                assert(padded@ =~= zeros((i + 1) as nat));
            }
        }
    }
    let ghost front = padded@;
    for i in 0..n
        invariant
            n == digits@.len(),
            padded@ == front + digits@.take(i as int),
    {
        padded.push(digits[i]);
        proof {
            assert(padded@ =~= front + digits@.take(i + 1));
        }
    }
    proof {
        assert(digits@.take(n as int) =~= digits@);
    }
    if !in_front {
        for i in 0..missing
            invariant
                front =~= Seq::<char>::empty(),
                padded@ =~= digits@ + zeros(i as nat),
        {
            padded.push('0');
            proof {
                assert(padded@ =~= digits@ + zeros((i + 1) as nat));
            }
        }
    }
    proof {
        assert forall|i: int| 0 <= i < padded@.len() implies is_digit(#[trigger] padded@[i]) by {
            if in_front && i >= missing {
                assert(padded@[i] == digits@[i - missing]);
            } else if !in_front && i < n {
                assert(padded@[i] == digits@[i]);
            }
        }
    }
    padded
}

/// Comparing two decimal numbers is comparing their whole parts and, where these are the same,
/// their fractions written with equally many places.
proof fn lemma_less_by_parts(a: Seq<char>, b: Seq<char>, depth: nat)
    requires
        is_decimal(a),
        is_decimal(b),
        places(a) <= depth,
        places(b) <= depth,
    ensures
        ({
            let wa = digits_value(whole_part(a));
            let wb = digits_value(whole_part(b));
            let fa = digits_value(fraction_part(a)) * pow(10, (depth - places(a)) as nat);
            let fb = digits_value(fraction_part(b)) * pow(10, (depth - places(b)) as nat);
            decimal_less(a, b) <==> (wa < wb || (wa == wb && fa < fb))
        }),
{
    lemma_parts_are_digits(a);
    lemma_parts_are_digits(b);
    lemma_digits_of_joined(whole_part(a), fraction_part(a));
    lemma_digits_of_joined(whole_part(b), fraction_part(b));
    lemma_digits_bounded(fraction_part(a));
    lemma_digits_bounded(fraction_part(b));
    let pa = pow(10, places(a));
    let pb = pow(10, places(b));
    let qa = pow(10, (depth - places(a)) as nat);
    let qb = pow(10, (depth - places(b)) as nat);
    lemma_pow_positive(10, places(a));
    lemma_pow_positive(10, places(b));
    lemma_pow_positive(10, (depth - places(a)) as nat);
    lemma_pow_positive(10, (depth - places(b)) as nat);
    lemma_pow_adds(10, places(a), (depth - places(a)) as nat);
    lemma_pow_adds(10, places(b), (depth - places(b)) as nat);
    lemma_cross_order(
        digits_value(whole_part(a)) as int,
        digits_value(fraction_part(a)) as int,
        pa,
        qa,
        digits_value(whole_part(b)) as int,
        digits_value(fraction_part(b)) as int,
        pb,
        qb,
    );
}

/// `wa + fa / pa` is less than `wb + fb / pb`, for proper fractions, just when the whole parts are
/// so ordered or are the same and the fractions over the common denominator `pa * qa` are.
proof fn lemma_cross_order(
    wa: int,
    fa: int,
    pa: int,
    qa: int,
    wb: int,
    fb: int,
    pb: int,
    qb: int,
)
    requires
        0 <= fa < pa,
        0 <= fb < pb,
        0 <= wa,
        0 <= wb,
        qa > 0,
        qb > 0,
        pa * qa == pb * qb,
    ensures
        (wa * pa + fa) * pb < (wb * pb + fb) * pa <==> (wa < wb || (wa == wb && fa * qa < fb
            * qb)),
{
    let d = pa * pb;
    assert((wa * pa + fa) * pb == wa * d + fa * pb) by (nonlinear_arith)
        requires
            d == pa * pb,
    ;
    assert((wb * pb + fb) * pa == wb * d + fb * pa) by (nonlinear_arith)
        requires
            d == pa * pb,
    ;
    assert(0 <= fa * pb < d) by (nonlinear_arith)
        requires
            0 <= fa < pa,
            0 < pb,
            d == pa * pb,
    ;
    assert(0 <= fb * pa < d) by (nonlinear_arith)
        requires
            0 <= fb < pb,
            0 < pa,
            d == pa * pb,
    ;
    if wa < wb {
        assert(wa * d + d <= wb * d) by (nonlinear_arith)
            requires
                wa + 1 <= wb,
                d > 0,
        ;
    } else if wb < wa {
        assert(wb * d + d <= wa * d) by (nonlinear_arith)
            requires
                wb + 1 <= wa,
                d > 0,
        ;
    } else {
        let c = pa * qa;
        assert((fa * pb) * c == (fa * qa) * d) by (nonlinear_arith)
            requires
                c == pa * qa,
                d == pa * pb,
        ;
        assert((fb * pa) * c == (fb * qb) * d) by (nonlinear_arith)
            requires
                c == pb * qb,
                d == pa * pb,
        ;
        assert(c > 0) by (nonlinear_arith)
            requires
                c == pa * qa,
                pa > 0,
                qa > 0,
        ;
        let x = fa * pb;
        let y = fb * pa;
        let u = fa * qa;
        let v = fb * qb;
        assert(x < y <==> u < v) by (nonlinear_arith)
            requires
                x * c == u * d,
                y * c == v * d,
                c > 0,
                d > 0,
        ;
    }
}

/// Cuts a decimal number at its point, into its whole part and its fraction.
fn split_point<'a>(chars: &'a [char]) -> (parts: (&'a [char], &'a [char]))
    ensures
        parts.0@ == whole_part(chars@),
        parts.1@ == fraction_part(chars@),
{
    let n: usize = chars.len();
    let mut at: usize = 0;
    while at < n && chars[at] != '.'
        invariant
            at <= n == chars@.len(),
            forall|i: int| 0 <= i < at ==> chars@[i] != '.',
        decreases n - at,
    {
        at += 1;
    }
    proof {
        lemma_point_is_first(chars@, at as int);
        assert(chars@.subrange(0, at as int) =~= chars@.take(at as int));
    }
    let fraction: &'a [char] = if at < n {
        slice_subrange(chars, at + 1, n)
    } else {
        slice_subrange(chars, n, n)
    };
    proof {
        assert(fraction@ =~= fraction_part(chars@));
    }
    (slice_subrange(chars, 0, at), fraction)
}

/// No decimal number is less than itself.
pub proof fn law_no_decimal_is_less_than_itself(a: Seq<char>)
    ensures
        !decimal_less(a, a),
{
}

/// What is less than a decimal number is less than everything that is not less than that number.
pub proof fn law_decimal_order_is_transitive(a: Seq<char>, b: Seq<char>, c: Seq<char>)
    requires
        decimal_less(a, b),
        !decimal_less(c, b),
    ensures
        decimal_less(a, c),
{
    lemma_pow_positive(10, places(a));
    lemma_pow_positive(10, places(b));
    lemma_pow_positive(10, places(c));
    lemma_cross_transitive(
        mantissa(a) as int,
        pow(10, places(a)),
        mantissa(b) as int,
        pow(10, places(b)),
        mantissa(c) as int,
        pow(10, places(c)),
    );
}

/// The order of quotients, told by their cross products, is transitive.
pub proof fn lemma_cross_transitive(a: int, pa: int, b: int, pb: int, c: int, pc: int)
    requires
        pa > 0,
        pb > 0,
        pc > 0,
        a * pb < b * pa,
        c * pb >= b * pc,
    ensures
        a * pc < c * pa,
{
    assert((a * pb) * pc < (b * pa) * pc) by (nonlinear_arith)
        requires
            a * pb < b * pa,
            pc > 0,
    ;
    assert((c * pb) * pa >= (b * pc) * pa) by (nonlinear_arith)
        requires
            c * pb >= b * pc,
            pa > 0,
    ;
    assert((a * pc) * pb < (c * pa) * pb) by (nonlinear_arith)
        requires
            (a * pb) * pc < (b * pa) * pc,
            (c * pb) * pa >= (b * pc) * pa,
    ;
    assert(a * pc < c * pa) by (nonlinear_arith)
        requires
            (a * pc) * pb < (c * pa) * pb,
            pb > 0,
    ;
}

/// An unsigned decimal number, as it was written.
#[derive(Debug)]
pub struct Decimal {
    text: String,
}

impl View for Decimal {
    type V = Seq<char>;

    closed spec fn view(&self) -> Seq<char> {
        self.text@
    }
}

impl Clone for Decimal {
    fn clone(&self) -> (copy: Self)
        ensures
            copy == *self,
    {
        proof {
            use_type_invariant(self);
        }
        Decimal { text: self.text.clone() }
    }
}

impl Decimal {
    #[verifier::type_invariant]
    spec fn well_formed(self) -> bool {
        is_decimal(self.text@)
    }

    /// Reads a decimal number. `None` where the characters are not one.
    pub fn read(chars: &[char]) -> (value: Option<Decimal>)
        ensures
            value is Some <==> is_decimal(chars@),
            value matches Some(d) ==> d@ == chars@,
    {
        let n: usize = chars.len();
        let mut digit_seen: bool = false;
        let mut point_seen: bool = false;
        for i in 0..n
            invariant
                n == chars@.len(),
                forall|j: int| 0 <= j < i ==> is_number_char(#[trigger] chars@[j]),
                forall|j: int, k: int|
                    0 <= j < i && 0 <= k < i && chars@[j] == '.' && chars@[k] == '.' ==> j == k,
                digit_seen == exists|j: int| 0 <= j < i && is_digit(#[trigger] chars@[j]),
                point_seen == exists|j: int| 0 <= j < i && #[trigger] chars@[j] == '.',
        {
            let c = chars[i];
            if !number_char(c) {
                proof {
                    assert(!is_number_char(chars@[i as int]));
                }
                return None;
            }
            if c == '.' {
                if point_seen {
                    return None;
                }
                proof {
                    assert(chars@[i as int] == '.');
                }
                point_seen = true;
            } else {
                proof {
                    assert(is_digit(chars@[i as int]));
                }
                digit_seen = true;
            }
        }
        if !digit_seen {
            return None;
        }
        let value = Decimal { text: to_text(chars) };
        Some(value)
    }

    /// The number one.
    pub fn one() -> (value: Decimal)
        ensures
            value@ == seq!['1'],
    {
        let mut text = String::new();
        text.push('1');
        proof {
            assert(text@ =~= seq!['1']);
            assert(is_digit(text@[0]));
        }
        Decimal { text }
    }

    /// The number as it was written.
    pub fn as_text(&self) -> (text: &str)
        ensures
            text@ == self@,
            is_decimal(text@),
    {
        proof {
            use_type_invariant(self);
        }
        self.text.as_str()
    }

    /// Whether this number is less than another.
    pub fn is_less(&self, other: &Decimal) -> (less: bool)
        ensures
            less == decimal_less(self@, other@),
    {
        proof {
            use_type_invariant(self);
            use_type_invariant(other);
            lemma_parts_are_digits(self@);
            lemma_parts_are_digits(other@);
        }
        let a = to_chars(self.text.as_str());
        let b = to_chars(other.text.as_str());
        let (a_whole, a_fraction) = split_point(&a);
        let (b_whole, b_fraction) = split_point(&b);
        let width: usize = if a_whole.len() > b_whole.len() {
            a_whole.len()
        } else {
            b_whole.len()
        };
        let depth: usize = if a_fraction.len() > b_fraction.len() {
            a_fraction.len()
        } else {
            b_fraction.len()
        };
        let wholes = rank_digits(&pad(a_whole, width, true), &pad(b_whole, width, true));
        let fractions = rank_digits(&pad(a_fraction, depth, false), &pad(b_fraction, depth, false));
        proof {
            lemma_padded_left(a_whole@, (width - a_whole@.len()) as nat);
            lemma_padded_left(b_whole@, (width - b_whole@.len()) as nat);
            lemma_padded_right(a_fraction@, (depth - a_fraction@.len()) as nat);
            lemma_padded_right(b_fraction@, (depth - b_fraction@.len()) as nat);
            lemma_less_by_parts(self@, other@, depth as nat);
        }
        match wholes {
            Rank::Lower => true,
            Rank::Same => match fractions {
                Rank::Lower => true,
                _ => false,
            },
            Rank::Higher => false,
        }
    }
}

} // verus!
