//! The exact value of a decimal number: what a text such as `9e1`, `90.0` or
//! `0.09E+3` stands for, as far as it takes to say whether that is a given
//! whole number.

use crate::text::{
    chars_of, decimal_value, digit_value, digits_end, is_digit, is_digit_char, is_exponent_at,
    is_number_at, is_sign, is_sign_char, lemma_decimal_value_prefix, number_at, skip_digits,
};
use vstd::prelude::*;

verus! {

/// Ten to the power `e`.
pub open spec fn power_of_ten(e: nat) -> nat
    decreases e,
{
    if e == 0 {
        1
    } else {
        10 * power_of_ten((e - 1) as nat)
    }
}

/// Where the mantissa of the number that starts at `at` ends.
pub open spec fn mantissa_end(s: Seq<char>, at: int) -> int {
    let whole_end = digits_end(s, at);
    if whole_end < s.len() && s[whole_end] == '.' {
        digits_end(s, whole_end + 1)
    } else {
        whole_end
    }
}

/// The digits of the mantissa of the number that starts at `at`, before and
/// behind the point, the point left out.
pub open spec fn mantissa_digits(s: Seq<char>, at: int) -> Seq<char> {
    let whole_end = digits_end(s, at);
    if whole_end < s.len() && s[whole_end] == '.' {
        s.subrange(at, whole_end) + s.subrange(whole_end + 1, digits_end(s, whole_end + 1))
    } else {
        s.subrange(at, whole_end)
    }
}

/// How many digits of the mantissa stand behind the point.
pub open spec fn fraction_places(s: Seq<char>, at: int) -> int {
    let whole_end = digits_end(s, at);
    if whole_end < s.len() && s[whole_end] == '.' {
        digits_end(s, whole_end + 1) - (whole_end + 1)
    } else {
        0
    }
}

/// The exponent that is written at `at`: `('e' | 'E') Sign? Digit+`.
pub open spec fn exponent_at_value(s: Seq<char>, at: int) -> int {
    if at + 1 < s.len() && is_sign(s[at + 1]) {
        if s[at + 1] == '-' {
            -decimal_value(s.skip(at + 2))
        } else {
            decimal_value(s.skip(at + 2)) as int
        }
    } else {
        decimal_value(s.skip(at + 1)) as int
    }
}

/// The exponent of the number that starts at `at`; zero where none is
/// written.
pub open spec fn exponent_of(s: Seq<char>, at: int) -> int {
    if mantissa_end(s, at) < s.len() {
        exponent_at_value(s, mantissa_end(s, at))
    } else {
        0
    }
}

/// `mantissa` times ten to the power `shift` is `n`.
pub open spec fn scaled_is(mantissa: nat, shift: int, n: nat) -> bool {
    if shift >= 0 {
        mantissa * power_of_ten(shift as nat) == n
    } else {
        mantissa == n * power_of_ten((-shift) as nat)
    }
}

/// The text `s` is a decimal number, not one of the special words, and its
/// value is exactly `n`: the digits of its mantissa, read as one whole
/// number, times ten to the power of its exponent less the number of digits
/// behind the point. A value below zero is no whole number `n`; minus zero
/// is zero.
pub open spec fn number_is(s: Seq<char>, n: nat) -> bool {
    let at: int = if s.len() > 0 && is_sign(s[0]) {
        1
    } else {
        0
    };
    let mantissa = decimal_value(mantissa_digits(s, at));
    &&& is_number_at(s, at)
    &&& if s.len() > 0 && s[0] == '-' {
        mantissa == 0 && n == 0
    } else {
        scaled_is(mantissa, exponent_of(s, at) - fraction_places(s, at), n)
    }
}

/// Powers of ten are positive.
pub proof fn lemma_power_of_ten_positive(e: nat)
    ensures
        power_of_ten(e) >= 1,
    decreases e,
{
    if e > 0 {
        lemma_power_of_ten_positive((e - 1) as nat);
    }
}

/// Ten to a sum is the product of the powers.
pub proof fn lemma_power_of_ten_adds(a: nat, b: nat)
    ensures
        power_of_ten(a + b) == power_of_ten(a) * power_of_ten(b),
    decreases a,
{
    if a > 0 {
        lemma_power_of_ten_adds((a - 1) as nat, b);
        let p = power_of_ten((a - 1) as nat);
        let q = power_of_ten(b);
        assert(power_of_ten(a + b) == 10 * power_of_ten((a - 1 + b) as nat));
        assert(10 * (p * q) == (10 * p) * q) by (nonlinear_arith);
    } else {
        assert(power_of_ten(b) == 1 * power_of_ten(b));
    }
}

/// A whole number has one way only to be written as a number that ten does
/// not divide, times a power of ten.
pub proof fn lemma_normal_form_is_unique(m: nat, x: nat, r: nat, y: nat)
    requires
        m % 10 != 0,
        r % 10 != 0,
    ensures
        (m * power_of_ten(x) == r * power_of_ten(y)) == (m == r && x == y),
    decreases x + y,
{
    if x == 0 && y == 0 {
        assert(m * 1 == m && r * 1 == r);
    } else if x == 0 {
        let q = power_of_ten((y - 1) as nat);
        assert(m * 1 == m);
        assert(r * (10 * q) == 10 * (r * q)) by (nonlinear_arith);
    } else if y == 0 {
        let p = power_of_ten((x - 1) as nat);
        assert(r * 1 == r);
        assert(m * (10 * p) == 10 * (m * p)) by (nonlinear_arith);
    } else {
        let p = power_of_ten((x - 1) as nat);
        let q = power_of_ten((y - 1) as nat);
        assert(m * (10 * p) == 10 * (m * p)) by (nonlinear_arith);
        assert(r * (10 * q) == 10 * (r * q)) by (nonlinear_arith);
        lemma_normal_form_is_unique(m, (x - 1) as nat, r, (y - 1) as nat);
    }
}

/// A mantissa and a value in normal form, `m` times ten to `z` and `r` times
/// ten to `zeros`, agree under the shift `shift` exactly when `m` is `r` and
/// the powers of ten add up.
pub proof fn lemma_scaled_normal_forms(m: nat, z: nat, shift: int, r: nat, zeros: nat)
    requires
        m % 10 != 0,
        r % 10 != 0,
    ensures
        scaled_is(m * power_of_ten(z), shift, r * power_of_ten(zeros)) == (m == r && z + shift
            == zeros),
{
    if shift >= 0 {
        let s = shift as nat;
        lemma_power_of_ten_adds(z, s);
        assert((m * power_of_ten(z)) * power_of_ten(s) == m * (power_of_ten(z) * power_of_ten(s)))
            by (nonlinear_arith);
        lemma_normal_form_is_unique(m, z + s, r, zeros);
    } else {
        let s = (-shift) as nat;
        lemma_power_of_ten_adds(zeros, s);
        assert((r * power_of_ten(zeros)) * power_of_ten(s) == r * (power_of_ten(zeros)
            * power_of_ten(s))) by (nonlinear_arith);
        lemma_normal_form_is_unique(m, z, r, zeros + s);
    }
}

/// A text that has a whole number as its value is a decimal number.
pub proof fn lemma_valued_is_a_number(s: Seq<char>, n: nat)
    requires
        number_is(s, n),
    ensures
        crate::text::is_decimal_number(s),
{
}

/// A strict whole number has the value that it writes: what reads as the
/// unsigned integer `n` is a decimal number with the value `n`.
pub proof fn lemma_whole_number_has_its_value(s: Seq<char>, n: u64)
    requires
        crate::text::integer_of(s) == Some(n),
    ensures
        number_is(s, n as nat),
{
    let digits = crate::text::integer_digits(s);
    let at: int = if s.len() > 0 && s[0] == '+' {
        1
    } else {
        0
    };
    assert(digits == s.skip(at));
    lemma_digits_end_skip(s, at, 0);
    assert(digits_end(s, at) == s.len());
    assert(s.len() > 0 && s[0] != '-') by {
        if s[0] == '-' {
            assert(!is_digit(digits[0]));
        }
    }
    assert(mantissa_digits(s, at) =~= digits);
    assert(decimal_value(digits) * 1 == decimal_value(digits));
}

/// The digits of a text end where the digits of the text without its first
/// `cut` characters end.
pub proof fn lemma_digits_end_skip(s: Seq<char>, cut: int, from: int)
    requires
        0 <= cut <= s.len(),
        0 <= from,
    ensures
        digits_end(s, cut + from) == cut + digits_end(s.skip(cut), from),
    decreases s.len() - from,
{
    if cut + from < s.len() && is_digit(s[cut + from]) {
        assert(s.skip(cut)[from] == s[cut + from]);
        lemma_digits_end_skip(s, cut, from + 1);
    }
}

/// The largest exponent that is read exactly; a larger one is only known to
/// be larger.
pub const EXPONENT_LIMIT: u128 = 1_000_000_000_000_000_000_000_000_000_000;

/// Reads the digits from `from` to the end, which are all digits, as a whole
/// number; `None` where it is above the limit.
fn read_exponent_digits(v: &Vec<char>, from: usize) -> (r: Option<u128>)
    requires
        from <= v.len(),
        digits_end(v@, from as int) == v.len(),
    ensures
        r matches Some(e) ==> e == decimal_value(v@.skip(from as int)) && e <= EXPONENT_LIMIT,
        r is None ==> decimal_value(v@.skip(from as int)) > EXPONENT_LIMIT,
{
    let ghost digits = v@.skip(from as int);
    let mut acc: u128 = 0;
    let mut i: usize = from;
    while i < v.len()
        invariant
            from <= i <= v.len(),
            digits == v@.skip(from as int),
            digits_end(v@, i as int) == v.len(),
            acc == decimal_value(digits.take(i - from)),
            acc <= EXPONENT_LIMIT,
        decreases v.len() - i,
    {
        let c: char = v[i];
        assert(is_digit(c));
        let d: u128 = (c as u32 - '0' as u32) as u128;
        proof {
            let next = digits.take(i - from + 1);
            assert(next.drop_last() == digits.take(i - from));
            assert(next.last() == c);
            assert(decimal_value(next) == acc * 10 + d);
            lemma_decimal_value_prefix(digits, i - from + 1);
        }
        if acc * 10 + d > EXPONENT_LIMIT {
            return None;
        }
        acc = acc * 10 + d;
        i = i + 1;
    }
    assert(digits.take(v.len() - from) == digits);
    Some(acc)
}

/// Reads the exponent that is written at `at`; `None` where it is beyond the
/// limit on either side.
fn read_exponent(v: &Vec<char>, at: usize) -> (r: Option<i128>)
    requires
        is_exponent_at(v@, at as int),
    ensures
        r matches Some(e) ==> e == exponent_at_value(v@, at as int) && -EXPONENT_LIMIT <= e
            <= EXPONENT_LIMIT,
        r is None ==> exponent_at_value(v@, at as int) > EXPONENT_LIMIT || exponent_at_value(
            v@,
            at as int,
        ) < -EXPONENT_LIMIT,
{
    let signed: bool = at + 1 < v.len() && is_sign_char(v[at + 1]);
    let negative: bool = signed && v[at + 1] == '-';
    let from: usize = if signed {
        at + 2
    } else {
        at + 1
    };
    match read_exponent_digits(v, from) {
        Some(e) => {
            if negative {
                Some(-(e as i128))
            } else {
                Some(e as i128)
            }
        },
        None => None,
    }
}

/// Appends the digits that start at `from` to `digits`, and says where they
/// end.
fn take_digits(v: &Vec<char>, from: usize, digits: &mut Vec<char>) -> (end: usize)
    requires
        from <= v.len(),
        forall|k: int| 0 <= k < old(digits).len() ==> is_digit(#[trigger] old(digits)@[k]),
    ensures
        end == digits_end(v@, from as int),
        from <= end <= v.len(),
        final(digits)@ == old(digits)@ + v@.subrange(from as int, end as int),
        forall|k: int| 0 <= k < final(digits).len() ==> is_digit(#[trigger] final(digits)@[k]),
{
    let mut j: usize = from;
    assert(digits@ =~= old(digits)@ + v@.subrange(from as int, j as int));
    while j < v.len() && is_digit_char(v[j])
        invariant
            from <= j <= v.len(),
            digits_end(v@, from as int) == digits_end(v@, j as int),
            digits@ == old(digits)@ + v@.subrange(from as int, j as int),
            forall|k: int| 0 <= k < digits.len() ==> is_digit(#[trigger] digits@[k]),
        decreases v.len() - j,
    {
        digits.push(v[j]);
        j = j + 1;
        assert(digits@ =~= old(digits)@ + v@.subrange(from as int, j as int));
    }
    j
}

/// Zero times a power of ten is zero, and nothing else is.
pub proof fn lemma_scaled_zero(shift: int, n: nat)
    ensures
        scaled_is(0, shift, n) == (n == 0),
{
    if shift >= 0 {
        assert(0 * power_of_ten(shift as nat) == 0);
    } else {
        let p = power_of_ten((-shift) as nat);
        lemma_power_of_ten_positive((-shift) as nat);
        assert((n * p == 0) == (n == 0)) by (nonlinear_arith)
            requires
                p >= 1,
        ;
    }
}

/// A mantissa that is not zero does not give the value zero.
pub proof fn lemma_scaled_positive(mantissa: nat, shift: int)
    requires
        mantissa >= 1,
    ensures
        !scaled_is(mantissa, shift, 0),
{
    if shift >= 0 {
        let p = power_of_ten(shift as nat);
        lemma_power_of_ten_positive(shift as nat);
        assert(mantissa * p != 0) by (nonlinear_arith)
            requires
                mantissa >= 1,
                p >= 1,
        ;
    } else {
        assert(0 * power_of_ten((-shift) as nat) == 0);
    }
}

/// The digits of the mantissa of the number that starts at `at`, with the
/// place where the mantissa ends and the number of digits behind the point.
fn read_mantissa(v: &Vec<char>, at: usize) -> (r: (Vec<char>, usize, usize))
    requires
        at <= v.len(),
    ensures
        r.0@ == mantissa_digits(v@, at as int),
        r.1 == mantissa_end(v@, at as int),
        r.2 == fraction_places(v@, at as int),
        at <= r.1 <= v.len(),
        forall|k: int| 0 <= k < r.0.len() ==> is_digit(#[trigger] r.0@[k]),
{
    let mut digits: Vec<char> = Vec::new();
    let whole_end: usize = take_digits(v, at, &mut digits);
    if whole_end < v.len() && v[whole_end] == '.' {
        let end: usize = take_digits(v, whole_end + 1, &mut digits);
        (digits, end, end - whole_end - 1)
    } else {
        (digits, whole_end, 0)
    }
}

/// How many of the digits are left when the zeros at the end are cut.
fn cut_zeros(digits: &Vec<char>) -> (kept: usize)
    ensures
        kept <= digits.len(),
        decimal_value(digits@) == decimal_value(digits@.take(kept as int)) * power_of_ten(
            (digits.len() - kept) as nat,
        ),
        kept > 0 ==> digits@[kept - 1] != '0',
{
    let mut kept: usize = digits.len();
    proof {
        assert(digits@.take(kept as int) == digits@);
        assert(decimal_value(digits@) * 1 == decimal_value(digits@));
    }
    while kept > 0 && digits[kept - 1] == '0'
        invariant
            kept <= digits.len(),
            decimal_value(digits@) == decimal_value(digits@.take(kept as int)) * power_of_ten(
                (digits.len() - kept) as nat,
            ),
        decreases kept,
    {
        proof {
            let longer = digits@.take(kept as int);
            let shorter = digits@.take(kept - 1);
            assert(longer.drop_last() == shorter);
            assert(longer.last() == '0');
            let a = decimal_value(shorter);
            let p = power_of_ten((digits.len() - kept) as nat);
            assert(decimal_value(longer) == a * 10);
            assert((a * 10) * p == a * (10 * p)) by (nonlinear_arith);
        }
        kept = kept - 1;
    }
    kept
}

/// The number `n` without the zeros at its end, and how many there were.
fn cut_zeros_of(n: u64) -> (r: (u64, u64))
    requires
        n > 0,
    ensures
        r.0 % 10 != 0,
        n == r.0 * power_of_ten(r.1 as nat),
{
    let mut rest: u64 = n;
    let mut zeros: u64 = 0;
    proof {
        assert(rest * 1 == rest);
    }
    while rest % 10 == 0
        invariant
            rest >= 1,
            rest + zeros <= n,
            n == rest * power_of_ten(zeros as nat),
        decreases rest,
    {
        proof {
            let p = power_of_ten(zeros as nat);
            let less = (rest / 10) as nat;
            assert(rest == less * 10);
            assert((less * 10) * p == less * (10 * p)) by (nonlinear_arith);
        }
        rest = rest / 10;
        zeros = zeros + 1;
    }
    (rest, zeros)
}

/// Whether the first `kept` of the digits write the number `n`.
fn digits_write(digits: &Vec<char>, kept: usize, n: u64) -> (r: bool)
    requires
        kept <= digits.len(),
        forall|k: int| 0 <= k < digits.len() ==> is_digit(#[trigger] digits@[k]),
    ensures
        r == (decimal_value(digits@.take(kept as int)) == n),
{
    let ghost part = digits@.take(kept as int);
    let mut acc: u128 = 0;
    let mut i: usize = 0;
    while i < kept
        invariant
            i <= kept <= digits.len(),
            forall|k: int| 0 <= k < digits.len() ==> is_digit(#[trigger] digits@[k]),
            part == digits@.take(kept as int),
            acc == decimal_value(part.take(i as int)),
            acc <= n,
        decreases kept - i,
    {
        let c: char = digits[i];
        let d: u128 = (c as u32 - '0' as u32) as u128;
        proof {
            let next = part.take(i + 1);
            assert(next.drop_last() == part.take(i as int));
            assert(next.last() == c);
            assert(decimal_value(next) == acc * 10 + d);
            lemma_decimal_value_prefix(part, i + 1);
        }
        if acc * 10 + d > n as u128 {
            return false;
        }
        acc = acc * 10 + d;
        i = i + 1;
    }
    assert(part.take(kept as int) == part);
    acc == n as u128
}

/// Whether the text `s` is a decimal number with exactly the value `n`,
/// however it is written: `90`, `90.0`, `+90`, `090`, `9e1` and `0.9E2` all
/// have the value ninety.
pub fn number_equals(s: &str, n: u64) -> (r: bool)
    ensures
        r == number_is(s@, n as nat),
{
    let v: Vec<char> = chars_of(s);
    let at: usize = if v.len() > 0 && is_sign_char(v[0]) {
        1
    } else {
        0
    };
    if !number_at(&v, at) {
        return false;
    }
    let negative: bool = v.len() > 0 && v[0] == '-';
    let (digits, end, places) = read_mantissa(&v, at);
    let kept: usize = cut_zeros(&digits);
    let ghost shift = exponent_of(v@, at as int) - fraction_places(v@, at as int);
    let ghost zeros_cut = (digits.len() - kept) as nat;
    let ghost significant = decimal_value(digits@.take(kept as int));
    if kept == 0 {
        proof {
            assert(digits@.take(0).len() == 0);
            assert(0 * power_of_ten(zeros_cut) == 0);
            lemma_scaled_zero(shift, n as nat);
        }
        return n == 0;
    }
    proof {
        let part = digits@.take(kept as int);
        assert(part.last() == digits@[kept - 1]);
        assert(is_digit(part.last()) && part.last() != '0');
        assert(significant == decimal_value(part.drop_last()) * 10 + digit_value(part.last()));
        assert(significant % 10 != 0);
        lemma_power_of_ten_positive(zeros_cut);
        assert(significant * power_of_ten(zeros_cut) >= 1) by (nonlinear_arith)
            requires
                significant >= 1,
                power_of_ten(zeros_cut) >= 1,
        ;
        lemma_scaled_positive(decimal_value(digits@), shift);
    }
    if negative || n == 0 {
        return false;
    }
    let (rest, zeros) = cut_zeros_of(n);
    proof {
        lemma_scaled_normal_forms(significant, zeros_cut, shift, rest as nat, zeros as nat);
    }
    if !digits_write(&digits, kept, rest) {
        return false;
    }
    let exponent: Option<i128> = if end < v.len() {
        read_exponent(&v, end)
    } else {
        Some(0)
    };
    match exponent {
        Some(e) => (digits.len() - kept) as i128 + e - places as i128 == zeros as i128,
        None => false,
    }
}

} // verus!
