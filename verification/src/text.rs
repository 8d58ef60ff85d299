//! Text handling shared by the catalog, the input session and the dispatcher:
//! equality and search on texts, trimming, and the two number grammars
//! (decimal reals and strict unsigned integers) that committed values are
//! held to.

use vstd::prelude::*;
use vstd::string::*;

verus! {

/// `c` has the Unicode property `White_Space`: the controls from tab to
/// carriage return, the space, next line, the no-break space, the Ogham space
/// mark, the spaces from en quad to hair space, the line and paragraph
/// separators, the narrow no-break space, the medium mathematical space and
/// the ideographic space.
pub open spec fn white_space(c: char) -> bool {
    let code = c as u32;
    ||| 0x0009 <= code <= 0x000D
    ||| code == 0x0020
    ||| code == 0x0085
    ||| code == 0x00A0
    ||| code == 0x1680
    ||| 0x2000 <= code <= 0x200A
    ||| code == 0x2028
    ||| code == 0x2029
    ||| code == 0x202F
    ||| code == 0x205F
    ||| code == 0x3000
}

/// Whether two texts hold the same characters in the same order.
pub fn str_eq(a: &str, b: &str) -> (r: bool)
    ensures
        r == (a@ == b@),
{
    let x: Vec<char> = chars_of(a);
    let y: Vec<char> = chars_of(b);
    if x.len() != y.len() {
        return false;
    }
    let mut i: usize = 0;
    while i < x.len()
        invariant
            i <= x.len(),
            x.len() == y.len(),
            x@ == a@,
            y@ == b@,
            forall|k: int| 0 <= k < i ==> x@[k] == y@[k],
        decreases x.len() - i,
    {
        if x[i] != y[i] {
            return false;
        }
        i = i + 1;
    }
    assert(x@ =~= y@);
    true
}

/// The standard library's `str::contains` with a string pattern: whether
/// `needle` matches a contiguous run of characters of `hay`.
#[verifier::external_body]
pub(crate) fn str_contains(hay: &str, needle: &str) -> (r: bool)
    ensures
        r == occurs_in(needle@, hay@),
{
    hay.contains(needle)
}

/// Whether `c` has the Unicode property `White_Space`.
pub fn char_is_whitespace(c: char) -> (r: bool)
    ensures
        r == white_space(c),
{
    let code: u32 = c as u32;
    (0x0009 <= code && code <= 0x000D) || code == 0x0020 || code == 0x0085 || code == 0x00A0
        || code == 0x1680 || (0x2000 <= code && code <= 0x200A) || code == 0x2028 || code
        == 0x2029 || code == 0x202F || code == 0x205F || code == 0x3000
}

/// The standard library's `String::push`: appends one character.
#[verifier::external_body]
pub(crate) fn string_push(s: &mut String, c: char)
    ensures
        final(s)@ == old(s)@.push(c),
{
    s.push(c)
}

/// The standard library's `String::pop`: removes and returns the last
/// character, or returns `None` and leaves an empty string as it is.
#[verifier::external_body]
pub(crate) fn string_pop(s: &mut String) -> (r: Option<char>)
    ensures
        old(s)@.len() == 0 ==> r is None && final(s)@ == old(s)@,
        old(s)@.len() > 0 ==> r == Some(old(s)@.last()) && final(s)@ == old(s)@.drop_last(),
{
    s.pop()
}

/// `needle` is a contiguous part of `hay`.
pub open spec fn occurs_in(needle: Seq<char>, hay: Seq<char>) -> bool {
    exists|i: int|
        0 <= i && i + needle.len() <= hay.len() && #[trigger] hay.subrange(
            i,
            i + needle.len(),
        ) == needle
}

/// `s` without its leading and trailing white space.
pub open spec fn trimmed(s: Seq<char>) -> Seq<char>
    decreases s.len(),
{
    if s.len() > 0 && white_space(s.first()) {
        trimmed(s.drop_first())
    } else if s.len() > 0 && white_space(s.last()) {
        trimmed(s.drop_last())
    } else {
        s
    }
}

/// `c` is one of the ten decimal digits.
pub open spec fn is_digit(c: char) -> bool {
    '0' <= c && c <= '9'
}

/// `c` is a plus or a minus sign.
pub open spec fn is_sign(c: char) -> bool {
    c == '+' || c == '-'
}

/// The number that the digit `c` stands for.
pub open spec fn digit_value(c: char) -> nat {
    (c as nat - '0' as nat) as nat
}

/// ASCII lower case of `c`; other characters are kept.
pub open spec fn ascii_lower(c: char) -> char {
    if 'A' <= c && c <= 'Z' {
        ((c as u8) + 32u8) as char
    } else {
        c
    }
}

/// The first position at or after `from` that holds no digit.
pub open spec fn digits_end(s: Seq<char>, from: int) -> int
    decreases s.len() - from,
{
    if 0 <= from < s.len() && is_digit(s[from]) {
        digits_end(s, from + 1)
    } else {
        from
    }
}

/// `s[at..]` reads `('e' | 'E') Sign? Digit+`.
pub open spec fn is_exponent_at(s: Seq<char>, at: int) -> bool {
    let digits = if at + 1 < s.len() && is_sign(s[at + 1]) {
        at + 2
    } else {
        at + 1
    };
    &&& 0 <= at < s.len()
    &&& (s[at] == 'e' || s[at] == 'E')
    &&& digits < s.len()
    &&& digits_end(s, digits) == s.len()
}

/// `s[at..]` reads `(Digit+ | Digit+ '.' Digit* | Digit* '.' Digit+) Exp?`.
pub open spec fn is_number_at(s: Seq<char>, at: int) -> bool {
    let whole_end = digits_end(s, at);
    let has_point = whole_end < s.len() && s[whole_end] == '.';
    let mantissa_end = if has_point {
        digits_end(s, whole_end + 1)
    } else {
        whole_end
    };
    let digit_count = if has_point {
        mantissa_end - at - 1
    } else {
        mantissa_end - at
    };
    &&& 0 <= at
    &&& digit_count > 0
    &&& (mantissa_end == s.len() || is_exponent_at(s, mantissa_end))
}

/// `s[at..]` is one of the words `inf`, `infinity`, `nan`, in any ASCII case.
pub open spec fn is_special_at(s: Seq<char>, at: int) -> bool {
    let word = s.skip(at).map_values(|c: char| ascii_lower(c));
    &&& 0 <= at <= s.len()
    &&& (word == seq!['i', 'n', 'f'] || word == seq!['n', 'a', 'n'] || word == seq![
        'i',
        'n',
        'f',
        'i',
        'n',
        'i',
        't',
        'y',
    ])
}

/// The decimal real numbers that committed values are held to:
/// `Sign? ('inf' | 'infinity' | 'nan' | Number)`, letters in any ASCII case,
/// with nothing before or after.
pub open spec fn is_decimal_number(s: Seq<char>) -> bool {
    let at: int = if s.len() > 0 && is_sign(s[0]) {
        1
    } else {
        0
    };
    is_special_at(s, at) || is_number_at(s, at)
}

/// The number that the digits of `s` write in base ten.
pub open spec fn decimal_value(s: Seq<char>) -> nat
    decreases s.len(),
{
    if s.len() == 0 {
        0
    } else {
        decimal_value(s.drop_last()) * 10 + digit_value(s.last())
    }
}

/// The digits of a strict unsigned integer: `s` without one leading `+`.
pub open spec fn integer_digits(s: Seq<char>) -> Seq<char> {
    if s.len() > 0 && s[0] == '+' {
        s.skip(1)
    } else {
        s
    }
}

/// The strict unsigned integer that `s` writes: an optional `+` and then
/// digits only, at least one, with a value that fits 64 bits.
pub open spec fn integer_of(s: Seq<char>) -> Option<u64> {
    let digits = integer_digits(s);
    if digits.len() > 0 && digits_end(digits, 0) == digits.len() && decimal_value(digits)
        <= u64::MAX {
        Some(decimal_value(digits) as u64)
    } else {
        None
    }
}

/// The first position at or after `from` that holds `sep`, or the length.
pub open spec fn separator_at(s: Seq<char>, sep: char, from: int) -> int
    decreases s.len() - from,
{
    if 0 <= from < s.len() && s[from] != sep {
        separator_at(s, sep, from + 1)
    } else {
        from
    }
}

/// The parts of `s[from..]` between occurrences of `sep`; there is always at
/// least one part, and an empty part where two separators meet.
pub open spec fn split_from(s: Seq<char>, sep: char, from: int) -> Seq<Seq<char>>
    decreases s.len() - from,
{
    let end = separator_at(s, sep, from);
    if 0 <= from <= end < s.len() {
        seq![s.subrange(from, end)] + split_from(s, sep, end + 1)
    } else if 0 <= from <= s.len() {
        seq![s.subrange(from, s.len() as int)]
    } else {
        seq![]
    }
}

/// The entries of a comma-separated list.
pub open spec fn list_entries(s: Seq<char>) -> Seq<Seq<char>> {
    split_from(s, ',', 0)
}

/// Every entry of the comma-separated list `s` is, once trimmed, a decimal
/// number.
pub open spec fn is_number_list(s: Seq<char>) -> bool {
    forall|i: int|
        0 <= i < list_entries(s).len() ==> is_decimal_number(
            trimmed(#[trigger] list_entries(s)[i]),
        )
}

/// The value of a run of digits is at least the value of each of its
/// prefixes.
pub proof fn lemma_decimal_value_prefix(s: Seq<char>, k: int)
    requires
        0 <= k <= s.len(),
    ensures
        decimal_value(s.take(k)) <= decimal_value(s),
    decreases s.len(),
{
    if k == s.len() {
        assert(s.take(k) == s);
    } else {
        assert(s.drop_last().take(k) == s.take(k));
        lemma_decimal_value_prefix(s.drop_last(), k);
    }
}

/// The characters of `s`.
pub fn chars_of(s: &str) -> (r: Vec<char>)
    ensures
        r@ == s@,
{
    let n: usize = s.unicode_len();
    let mut v: Vec<char> = Vec::new();
    let mut i: usize = 0;
    while i < n
        invariant
            n == s@.len(),
            i <= n,
            v@ == s@.subrange(0, i as int),
        decreases n - i,
    {
        v.push(s.get_char(i));
        i = i + 1;
    }
    v
}

pub(crate) fn is_digit_char(c: char) -> (r: bool)
    ensures
        r == is_digit(c),
{
    '0' <= c && c <= '9'
}

pub(crate) fn is_sign_char(c: char) -> (r: bool)
    ensures
        r == is_sign(c),
{
    c == '+' || c == '-'
}

fn lower_char(c: char) -> (r: char)
    ensures
        r == ascii_lower(c),
{
    if 'A' <= c && c <= 'Z' {
        ((c as u8) + 32u8) as char
    } else {
        c
    }
}

/// Walks over the digits that start at `from`.
pub(crate) fn skip_digits(v: &Vec<char>, from: usize) -> (r: usize)
    requires
        from <= v.len(),
    ensures
        r == digits_end(v@, from as int),
        from <= r <= v.len(),
{
    let mut j: usize = from;
    while j < v.len() && is_digit_char(v[j])
        invariant
            from <= j <= v.len(),
            digits_end(v@, from as int) == digits_end(v@, j as int),
        decreases v.len() - j,
    {
        j = j + 1;
    }
    j
}

fn exponent_at(v: &Vec<char>, at: usize) -> (r: bool)
    requires
        at < v.len(),
    ensures
        r == is_exponent_at(v@, at as int),
{
    if !(v[at] == 'e' || v[at] == 'E') {
        return false;
    }
    let digits: usize = if at + 1 < v.len() && is_sign_char(v[at + 1]) {
        at + 2
    } else {
        at + 1
    };
    if digits >= v.len() {
        return false;
    }
    skip_digits(v, digits) == v.len()
}

pub(crate) fn number_at(v: &Vec<char>, at: usize) -> (r: bool)
    requires
        at <= v.len(),
    ensures
        r == is_number_at(v@, at as int),
{
    let whole_end: usize = skip_digits(v, at);
    let has_point: bool = whole_end < v.len() && v[whole_end] == '.';
    let mantissa_end: usize = if has_point {
        skip_digits(v, whole_end + 1)
    } else {
        whole_end
    };
    let digit_count: usize = if has_point {
        mantissa_end - at - 1
    } else {
        mantissa_end - at
    };
    if digit_count == 0 {
        return false;
    }
    if mantissa_end == v.len() {
        return true;
    }
    exponent_at(v, mantissa_end)
}

fn special_at(v: &Vec<char>, at: usize) -> (r: bool)
    requires
        at <= v.len(),
    ensures
        r == is_special_at(v@, at as int),
{
    let ghost word = v@.skip(at as int).map_values(|c: char| ascii_lower(c));
    let n: usize = v.len() - at;
    assert(word.len() == n);
    if n == 3 {
        let a: char = lower_char(v[at]);
        let b: char = lower_char(v[at + 1]);
        let c: char = lower_char(v[at + 2]);
        let r: bool = (a == 'i' && b == 'n' && c == 'f') || (a == 'n' && b == 'a' && c == 'n');
        proof {
            if r {
                assert(word =~= seq!['i', 'n', 'f'] || word =~= seq!['n', 'a', 'n']);
            }
        }
        r
    } else if n == 8 {
        let ghost w: Seq<char> = seq!['i', 'n', 'f', 'i', 'n', 'i', 't', 'y'];
        let mut k: usize = 0;
        let mut same: bool = true;
        let target: [char; 8] = ['i', 'n', 'f', 'i', 'n', 'i', 't', 'y'];
        while k < 8
            invariant
                k <= 8,
                at + 8 == v.len(),
                target@ == w,
                word == v@.skip(at as int).map_values(|c: char| ascii_lower(c)),
                same == (forall|j: int| 0 <= j < k ==> word[j] == w[j]),
            decreases 8 - k,
        {
            let c: char = lower_char(v[at + k]);
            if c != target[k] {
                same = false;
            }
            k = k + 1;
        }
        proof {
            if same {
                assert(word =~= w);
            }
        }
        same
    } else {
        false
    }
}

/// Whether `s` is a decimal real number, with nothing before or after it.
pub fn is_number(s: &str) -> (r: bool)
    ensures
        r == is_decimal_number(s@),
{
    let v: Vec<char> = chars_of(s);
    let at: usize = if v.len() > 0 && is_sign_char(v[0]) {
        1
    } else {
        0
    };
    special_at(&v, at) || number_at(&v, at)
}

/// `s` without its leading and trailing white space.
pub fn trim(s: &str) -> (r: &str)
    ensures
        r@ == trimmed(s@),
{
    let v: Vec<char> = chars_of(s);
    let n: usize = v.len();
    let mut i: usize = 0;
    assert(v@.subrange(0, n as int) == v@);
    while i < n && char_is_whitespace(v[i])
        invariant
            i <= n,
            n == v.len(),
            trimmed(v@) == trimmed(v@.subrange(i as int, n as int)),
        decreases n - i,
    {
        proof {
            let part = v@.subrange(i as int, n as int);
            assert(part.drop_first() == v@.subrange(i + 1, n as int));
        }
        i = i + 1;
    }
    let mut j: usize = n;
    while j > i && char_is_whitespace(v[j - 1])
        invariant
            i <= j <= n,
            n == v.len(),
            i < n ==> !white_space(v@[i as int]),
            trimmed(v@) == trimmed(v@.subrange(i as int, j as int)),
        decreases j,
    {
        proof {
            let part = v@.subrange(i as int, j as int);
            assert(part.drop_last() == v@.subrange(i as int, j - 1));
        }
        j = j - 1;
    }
    s.substring_char(i, j)
}

/// Reads `s` as a strict unsigned integer: an optional `+`, then digits only.
/// Anything else, a decimal point and white space included, and a value that
/// does not fit 64 bits, gives `None`.
pub fn parse_integer(s: &str) -> (r: Option<u64>)
    ensures
        r == integer_of(s@),
{
    let v: Vec<char> = chars_of(s);
    let start: usize = if v.len() > 0 && v[0] == '+' {
        1
    } else {
        0
    };
    let n: usize = v.len();
    let ghost digits = integer_digits(v@);
    if start == n {
        return None;
    }
    let mut acc: u64 = 0;
    let mut i: usize = start;
    while i < n
        invariant
            start <= i <= n,
            n == v.len(),
            digits == v@.skip(start as int),
            digits == integer_digits(s@),
            digits.len() == n - start,
            digits_end(digits, 0) == digits_end(digits, i - start),
            acc == decimal_value(digits.take(i - start)),
        decreases n - i,
    {
        let c: char = v[i];
        if !is_digit_char(c) {
            return None;
        }
        let d: u64 = (c as u32 - '0' as u32) as u64;
        proof {
            let next = digits.take(i - start + 1);
            assert(next.drop_last() == digits.take(i - start));
            lemma_decimal_value_prefix(digits, i - start + 1);
        }
        if acc > (u64::MAX - d) / 10 {
            return None;
        }
        acc = acc * 10 + d;
        i = i + 1;
    }
    proof {
        assert(digits.take(n - start) == digits);
    }
    Some(acc)
}

/// The entries of the comma-separated list `s`, in order.
pub fn split_list(s: &str) -> (r: Vec<String>)
    ensures
        r.deep_view() == list_entries(s@),
        r.len() > 0,
{
    let v: Vec<char> = chars_of(s);
    let n: usize = v.len();
    let mut parts: Vec<String> = Vec::new();
    let mut from: usize = 0;
    let mut done: bool = false;
    while !done
        invariant
            n == v.len(),
            v@ == s@,
            from <= n,
            !done ==> list_entries(s@) == parts.deep_view() + split_from(s@, ',', from as int),
            done ==> list_entries(s@) == parts.deep_view() && parts.len() > 0,
        decreases n - from + (if done { 0int } else { 1int }),
    {
        let mut end: usize = from;
        while end < n && v[end] != ','
            invariant
                from <= end <= n,
                n == v.len(),
                separator_at(v@, ',', from as int) == separator_at(v@, ',', end as int),
            decreases n - end,
        {
            end = end + 1;
        }
        let part: String = s.substring_char(from, end).to_owned();
        parts.push(part);
        if end < n {
            from = end + 1;
        } else {
            done = true;
        }
    }
    parts
}

/// Whether every entry of the comma-separated list `s` is, once trimmed, a
/// decimal number.
pub fn is_list_of_numbers(s: &str) -> (r: bool)
    ensures
        r == is_number_list(s@),
{
    let parts: Vec<String> = split_list(s);
    let mut i: usize = 0;
    while i < parts.len()
        invariant
            i <= parts.len(),
            parts.deep_view() == list_entries(s@),
            forall|k: int|
                0 <= k < i ==> is_decimal_number(trimmed(#[trigger] list_entries(s@)[k])),
        decreases parts.len() - i,
    {
        assert(parts.deep_view()[i as int] == parts@[i as int]@);
        if !is_number(trim(parts[i].as_str())) {
            return false;
        }
        i = i + 1;
    }
    true
}

} // verus!
