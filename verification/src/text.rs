//! Verified text helpers: decimal formatting and parsing, whitespace
//! trimming, and ASCII case-insensitive comparison. These are the plain-text
//! edges of the pipeline: coordinate input, coordinate display names, and
//! the numbers inside alert messages.

use vstd::prelude::*;

verus! {

/// The decimal digit character for a value in 0..=9.
pub open spec fn dec_digit(d: int) -> char {
    if d == 0 {
        '0'
    } else if d == 1 {
        '1'
    } else if d == 2 {
        '2'
    } else if d == 3 {
        '3'
    } else if d == 4 {
        '4'
    } else if d == 5 {
        '5'
    } else if d == 6 {
        '6'
    } else if d == 7 {
        '7'
    } else if d == 8 {
        '8'
    } else {
        '9'
    }
}

/// The decimal rendering of a non-negative integer, most significant digit
/// first, with no leading zeros except for zero itself.
pub open spec fn dec_seq(n: nat) -> Seq<char>
    decreases n,
{
    if n < 10 {
        seq![dec_digit(n as int)]
    } else {
        dec_seq(n / 10).push(dec_digit((n % 10) as int))
    }
}

/// The decimal rendering of any integer: a minus sign before the magnitude
/// when negative.
pub open spec fn int_dec_seq(v: int) -> Seq<char> {
    if v < 0 {
        seq!['-'] + dec_seq((-v) as nat)
    } else {
        dec_seq(v as nat)
    }
}

/// One digit as a string slice.
fn digit_str(d: u64) -> (r: &'static str)
    requires
        d < 10,
    ensures
        r@ == seq![dec_digit(d as int)],
{
    proof {
        reveal_strlit("0");
        reveal_strlit("1");
        reveal_strlit("2");
        reveal_strlit("3");
        reveal_strlit("4");
        reveal_strlit("5");
        reveal_strlit("6");
        reveal_strlit("7");
        reveal_strlit("8");
        reveal_strlit("9");
    }
    let r: &'static str = if d == 0 {
        "0"
    } else if d == 1 {
        "1"
    } else if d == 2 {
        "2"
    } else if d == 3 {
        "3"
    } else if d == 4 {
        "4"
    } else if d == 5 {
        "5"
    } else if d == 6 {
        "6"
    } else if d == 7 {
        "7"
    } else if d == 8 {
        "8"
    } else {
        "9"
    };
    proof {
        assert(r@ =~= seq![dec_digit(d as int)]);
    }
    r
}

/// Renders a non-negative integer in decimal.
pub fn u64_to_dec_string(n: u64) -> (r: String)
    ensures
        r@ == dec_seq(n as nat),
{
    let mut m: u64 = n;
    let mut r: String = String::new();
    if m == 0 {
        let z = String::from_str(digit_str(0));
        return z;
    }
    while m > 0
        invariant
            m > 0 ==> dec_seq(n as nat) == dec_seq(m as nat) + r@,
            m == 0 ==> dec_seq(n as nat) == r@,
        decreases m,
    {
        let d: u64 = m % 10;
        let ghost r_old = r@;
        let ghost m_old = m as nat;
        let mut t = String::from_str(digit_str(d));
        t.append(r.as_str());
        r = t;
        m = m / 10;
        proof {
            if m_old >= 10 {
                assert(dec_seq(m_old) == dec_seq(m_old / 10).push(dec_digit((m_old % 10) as int)));
                assert(dec_seq(m_old / 10).push(dec_digit((m_old % 10) as int)) + r_old =~= dec_seq(
                    m_old / 10,
                ) + (seq![dec_digit((m_old % 10) as int)] + r_old));
            } else {
                assert(dec_seq(m_old) == seq![dec_digit(m_old as int)]);
            }
        }
    }
    r
}

/// Renders any `i32` in decimal, with a leading minus sign when negative.
pub fn i32_to_dec_string(v: i32) -> (r: String)
    ensures
        r@ == int_dec_seq(v as int),
{
    if v < 0 {
        let m: i64 = -(v as i64);
        proof {
            reveal_strlit("-");
        }
        let mut t = String::from_str("-");
        let digits = u64_to_dec_string(m as u64);
        t.append(digits.as_str());
        proof {
            assert(t@ =~= seq!['-'] + dec_seq((-(v as int)) as nat));
        }
        t
    } else {
        u64_to_dec_string(v as u64)
    }
}

/// A coordinate in ten-thousandths of a degree, shown with two decimal
/// places; the third decimal rounds half away from zero.
pub open spec fn coord_display(v: int) -> Seq<char> {
    let a = if v < 0 {
        -v
    } else {
        v
    };
    let r = (a + 50) / 100;
    let sign: Seq<char> = if v < 0 {
        seq!['-']
    } else {
        Seq::<char>::empty()
    };
    sign + dec_seq((r / 100) as nat) + seq!['.'] + seq![
        dec_digit((r % 100) / 10),
        dec_digit(r % 10),
    ]
}

/// The display name of a coordinate pair: both coordinates to two decimal
/// places, comma-joined.
pub open spec fn coord_pair_display(lat_e4: int, lon_e4: int) -> Seq<char> {
    coord_display(lat_e4) + seq![','] + coord_display(lon_e4)
}

/// Renders one coordinate to two decimal places.
pub fn coord_e4_to_string(v: i32) -> (r: String)
    ensures
        r@ == coord_display(v as int),
{
    let a: u64 = if v < 0 {
        (-(v as i64)) as u64
    } else {
        v as u64
    };
    let rounded: u64 = (a + 50) / 100;
    let whole: u64 = rounded / 100;
    let frac: u64 = rounded % 100;
    let mut out: String = String::new();
    if v < 0 {
        proof {
            reveal_strlit("-");
        }
        out.append("-");
        proof {
            assert(out@ =~= seq!['-']);
        }
    }
    out.append(u64_to_dec_string(whole).as_str());
    proof {
        reveal_strlit(".");
    }
    out.append(".");
    out.append(digit_str(frac / 10));
    out.append(digit_str(frac % 10));
    proof {
        assert((rounded % 100) % 10 == rounded % 10) by {
            vstd::arithmetic::div_mod::lemma_mod_mod(rounded as int, 10, 10);
        }
        assert(out@ =~= coord_display(v as int));
    }
    out
}

/// Renders a coordinate pair as its comma-joined display name.
pub fn coord_pair_to_string(lat_e4: i32, lon_e4: i32) -> (r: String)
    ensures
        r@ == coord_pair_display(lat_e4 as int, lon_e4 as int),
{
    let mut out = coord_e4_to_string(lat_e4);
    proof {
        reveal_strlit(",");
    }
    out.append(",");
    out.append(coord_e4_to_string(lon_e4).as_str());
    proof {
        assert(out@ =~= coord_pair_display(lat_e4 as int, lon_e4 as int));
    }
    out
}

/// The characters the trimmer strips: Unicode's White_Space set, the one
/// `str::trim` uses.
pub open spec fn is_space(c: char) -> bool {
    ||| (9 <= c as u32 <= 13)
    ||| c as u32 == 32
    ||| c as u32 == 0x85
    ||| c as u32 == 0xA0
    ||| c as u32 == 0x1680
    ||| (0x2000 <= c as u32 <= 0x200A)
    ||| c as u32 == 0x2028
    ||| c as u32 == 0x2029
    ||| c as u32 == 0x202F
    ||| c as u32 == 0x205F
    ||| c as u32 == 0x3000
}

/// Index of the first non-space character, or the length if all are spaces.
pub open spec fn first_non_space(s: Seq<char>) -> int
    decreases s.len(),
{
    if s.len() == 0 {
        0
    } else if !is_space(s[0]) {
        0
    } else {
        1 + first_non_space(s.drop_first())
    }
}

/// Index just past the last non-space character, or 0 if all are spaces.
pub open spec fn end_non_space(s: Seq<char>) -> int
    decreases s.len(),
{
    if s.len() == 0 {
        0
    } else if !is_space(s.last()) {
        s.len() as int
    } else {
        end_non_space(s.drop_last())
    }
}

/// The sequence with leading and trailing whitespace removed.
pub open spec fn trim_spec(s: Seq<char>) -> Seq<char> {
    if first_non_space(s) == s.len() {
        Seq::<char>::empty()
    } else {
        s.subrange(first_non_space(s), end_non_space(s))
    }
}

proof fn lemma_first_non_space_bounds(s: Seq<char>)
    ensures
        0 <= first_non_space(s) <= s.len(),
        forall|k: int| 0 <= k < first_non_space(s) ==> is_space(s[k]),
        first_non_space(s) < s.len() ==> !is_space(s[first_non_space(s)]),
    decreases s.len(),
{
    if s.len() > 0 && is_space(s[0]) {
        lemma_first_non_space_bounds(s.drop_first());
        assert forall|k: int| 0 <= k < first_non_space(s) implies is_space(s[k]) by {
            if k > 0 {
                assert(s.drop_first()[k - 1] == s[k]);
            }
        }
        if first_non_space(s) < s.len() {
            assert(s.drop_first()[first_non_space(s) - 1] == s[first_non_space(s)]);
        }
    }
}

proof fn lemma_end_non_space_bounds(s: Seq<char>)
    ensures
        0 <= end_non_space(s) <= s.len(),
        forall|k: int| end_non_space(s) <= k < s.len() ==> is_space(s[k]),
        end_non_space(s) > 0 ==> !is_space(s[end_non_space(s) - 1]),
    decreases s.len(),
{
    if s.len() > 0 && is_space(s.last()) {
        lemma_end_non_space_bounds(s.drop_last());
        assert forall|k: int| end_non_space(s) <= k < s.len() implies is_space(s[k]) by {
            if k < s.len() - 1 {
                assert(s.drop_last()[k] == s[k]);
            }
        }
        if end_non_space(s) > 0 {
            assert(s.drop_last()[end_non_space(s) - 1] == s[end_non_space(s) - 1]);
        }
    }
}

/// There is a non-space character at or after `first_non_space` exactly when
/// there is one before `end_non_space`; the two scans agree on emptiness.
proof fn lemma_trim_indices(s: Seq<char>)
    ensures
        first_non_space(s) == s.len() <==> end_non_space(s) == 0,
        first_non_space(s) < s.len() ==> first_non_space(s) < end_non_space(s),
    decreases s.len(),
{
    lemma_first_non_space_bounds(s);
    lemma_end_non_space_bounds(s);
    if first_non_space(s) == s.len() && end_non_space(s) > 0 {
        assert(is_space(s[end_non_space(s) - 1]));
    }
    if first_non_space(s) < s.len() && end_non_space(s) <= first_non_space(s) {
        assert(is_space(s[first_non_space(s)]));
    }
    if end_non_space(s) == 0 && first_non_space(s) < s.len() {
        assert(is_space(s[first_non_space(s)]));
    }
}

/// Checks one character for whitespace.
fn is_space_char(c: char) -> (r: bool)
    ensures
        r == is_space(c),
{
    let u: u32 = c as u32;
    (9 <= u && u <= 13) || u == 32 || u == 0x85 || u == 0xA0 || u == 0x1680 || (0x2000 <= u && u
        <= 0x200A) || u == 0x2028 || u == 0x2029 || u == 0x202F || u == 0x205F || u == 0x3000
}

/// Strips leading and trailing whitespace.
pub fn trim_spaces(s: &str) -> (r: &str)
    ensures
        r@ == trim_spec(s@),
{
    let n: usize = s.unicode_len();
    proof {
        lemma_first_non_space_bounds(s@);
        lemma_end_non_space_bounds(s@);
        lemma_trim_indices(s@);
    }
    let mut i: usize = 0;
    while i < n && is_space_char(s.get_char(i))
        invariant
            0 <= i <= n,
            n == s@.len(),
            forall|k: int| 0 <= k < i ==> is_space(s@[k]),
        decreases n - i,
    {
        i = i + 1;
    }
    proof {
        lemma_first_non_space_bounds(s@);
        assert(first_non_space(s@) == i) by {
            if first_non_space(s@) < i {
                assert(is_space(s@[first_non_space(s@)]));
            }
            if first_non_space(s@) > i {
                assert(is_space(s@[i as int]));
            }
        }
    }
    if i == n {
        let r = s.substring_char(0, 0);
        proof {
            assert(r@ =~= trim_spec(s@));
        }
        return r;
    }
    let mut j: usize = n;
    while j > 0 && is_space_char(s.get_char(j - 1))
        invariant
            0 <= j <= n,
            n == s@.len(),
            forall|k: int| j <= k < n ==> is_space(s@[k]),
            j >= first_non_space(s@) + 1,
        decreases j,
    {
        proof {
            if j - 1 == first_non_space(s@) {
                lemma_first_non_space_bounds(s@);
            }
        }
        j = j - 1;
    }
    proof {
        lemma_end_non_space_bounds(s@);
        assert(end_non_space(s@) == j) by {
            if end_non_space(s@) > j {
                assert(is_space(s@[end_non_space(s@) - 1]));
            }
            if end_non_space(s@) < j {
                assert(is_space(s@[j - 1]));
            }
        }
    }
    let r = s.substring_char(i, j);
    proof {
        assert(r@ =~= trim_spec(s@));
    }
    r
}

/// The code point of a character with ASCII capitals folded to lower case.
pub open spec fn lower_code(c: char) -> int {
    if 65 <= c as u32 <= 90 {
        c as u32 + 32
    } else {
        c as u32 as int
    }
}

/// Character sequences that agree once ASCII capitals are folded.
pub open spec fn eq_ignore_ascii_case(a: Seq<char>, b: Seq<char>) -> bool {
    a.len() == b.len() && forall|i: int| 0 <= i < a.len() ==> lower_code(a[i]) == lower_code(b[i])
}

/// Compares two strings, ignoring ASCII case.
pub fn str_eq_ignore_ascii_case(a: &str, b: &str) -> (r: bool)
    ensures
        r == eq_ignore_ascii_case(a@, b@),
{
    let na: usize = a.unicode_len();
    let nb: usize = b.unicode_len();
    if na != nb {
        return false;
    }
    let mut i: usize = 0;
    while i < na
        invariant
            0 <= i <= na,
            na == a@.len(),
            na == b@.len(),
            forall|k: int| 0 <= k < i ==> lower_code(a@[k]) == lower_code(b@[k]),
        decreases na - i,
    {
        let ca: u32 = a.get_char(i) as u32;
        let cb: u32 = b.get_char(i) as u32;
        let fa: u32 = if 65 <= ca && ca <= 90 {
            ca + 32
        } else {
            ca
        };
        let fb: u32 = if 65 <= cb && cb <= 90 {
            cb + 32
        } else {
            cb
        };
        if fa != fb {
            return false;
        }
        i = i + 1;
    }
    true
}

/// A decimal digit character.
pub open spec fn is_ascii_digit(c: char) -> bool {
    48 <= c as u32 <= 57
}

/// The numeric value of a digit character.
pub open spec fn digit_val(c: char) -> int {
    c as u32 - 48
}

/// Every character is a decimal digit.
pub open spec fn all_digits(s: Seq<char>) -> bool {
    forall|i: int| 0 <= i < s.len() ==> is_ascii_digit(s[i])
}

/// The value of a digit string read in base ten; 0 when empty.
pub open spec fn digits_value(s: Seq<char>) -> int
    decreases s.len(),
{
    if s.len() == 0 {
        0
    } else {
        digits_value(s.drop_last()) * 10 + digit_val(s.last())
    }
}

/// Index of the first occurrence of `c`, or the length when absent.
pub open spec fn first_occurrence(s: Seq<char>, c: char) -> int
    decreases s.len(),
{
    if s.len() == 0 {
        0
    } else if s[0] == c {
        0
    } else {
        1 + first_occurrence(s.drop_first(), c)
    }
}

/// Ten to a small power.
pub open spec fn pow10(n: nat) -> int
    decreases n,
{
    if n == 0 {
        1
    } else {
        10 * pow10((n - 1) as nat)
    }
}

/// The digits before the first dot.
pub open spec fn int_part(s: Seq<char>) -> Seq<char> {
    s.take(first_occurrence(s, '.'))
}

/// The characters after the first dot; empty when there is no dot.
pub open spec fn frac_part(s: Seq<char>) -> Seq<char> {
    if first_occurrence(s, '.') == s.len() {
        Seq::<char>::empty()
    } else {
        s.skip(first_occurrence(s, '.') + 1)
    }
}

/// An unsigned decimal number: digits around at most one dot, with at least
/// one digit somewhere.
pub open spec fn is_unsigned_decimal(s: Seq<char>) -> bool {
    all_digits(int_part(s)) && all_digits(frac_part(s)) && int_part(s).len() + frac_part(s).len()
        >= 1
}

/// Index of the first exponent marker (`e` or `E`), or the length when
/// there is none.
pub open spec fn first_exp(s: Seq<char>) -> int
    decreases s.len(),
{
    if s.len() == 0 {
        0
    } else if s[0] == 'e' || s[0] == 'E' {
        0
    } else {
        1 + first_exp(s.drop_first())
    }
}

/// The part before the exponent marker.
pub open spec fn mantissa_part(s: Seq<char>) -> Seq<char> {
    s.take(first_exp(s))
}

/// The part after the exponent marker; meaningful only when one is there.
pub open spec fn exponent_text(s: Seq<char>) -> Seq<char> {
    s.skip(first_exp(s) + 1)
}

/// Whether the text carries an exponent marker.
pub open spec fn has_exponent(s: Seq<char>) -> bool {
    first_exp(s) < s.len()
}

/// A valid exponent: an optional sign, then one or more digits.
pub open spec fn is_valid_exponent(t: Seq<char>) -> bool {
    let d = if t.len() > 0 && (t[0] == '+' || t[0] == '-') {
        t.drop_first()
    } else {
        t
    };
    d.len() >= 1 && all_digits(d)
}

/// The signed value of an exponent text.
pub open spec fn exponent_value(t: Seq<char>) -> int {
    let neg = t.len() > 0 && t[0] == '-';
    let d = if t.len() > 0 && (t[0] == '+' || t[0] == '-') {
        t.drop_first()
    } else {
        t
    };
    if neg {
        -digits_value(d)
    } else {
        digits_value(d)
    }
}

/// The mantissa's digits with the dot removed.
pub open spec fn mantissa_digits(m: Seq<char>) -> Seq<char> {
    int_part(m) + frac_part(m)
}

/// A coordinate number: the float grammar — an unsigned decimal mantissa,
/// optionally followed by `e` or `E` and a signed integer exponent. The
/// words infinity and NaN are left out: they could never be in range.
pub open spec fn is_coord_number(body: Seq<char>) -> bool {
    &&& is_unsigned_decimal(mantissa_part(body))
    &&& has_exponent(body) ==> is_valid_exponent(exponent_text(body))
}

/// The power of ten taking the mantissa's digit string to the value in
/// ten-thousandths of a degree: the exponent, minus the number of fraction
/// digits, plus four.
pub open spec fn coord_shift(body: Seq<char>) -> int {
    (if has_exponent(body) {
        exponent_value(exponent_text(body))
    } else {
        0
    }) - frac_part(mantissa_part(body)).len() + 4
}

/// Whether the number's magnitude is within `limit` ten-thousandths of a
/// degree, decided at the input's full written precision: the exact value
/// is digits x 10^shift, and only the stored result truncates.
pub open spec fn coord_in_range(body: Seq<char>, limit: int) -> bool {
    let num = digits_value(mantissa_digits(mantissa_part(body)));
    let k = coord_shift(body);
    if k >= 0 {
        num * pow10(k as nat) <= limit
    } else {
        num <= limit * pow10((-k) as nat)
    }
}

/// The stored value: the exact value times ten thousand, truncated toward
/// zero.
pub open spec fn coord_value_e4(body: Seq<char>) -> int {
    let num = digits_value(mantissa_digits(mantissa_part(body)));
    let k = coord_shift(body);
    if k >= 0 {
        num * pow10(k as nat)
    } else {
        num / pow10((-k) as nat)
    }
}

/// What parsing a signed coordinate yields: the value in ten-thousandths of
/// a degree, provided the text is a number of the float grammar whose
/// magnitude, at its full written precision, stays within `limit`; `None`
/// otherwise.
pub open spec fn spec_parse_coord_e4(s: Seq<char>, limit: int) -> Option<int> {
    let neg = s.len() > 0 && s[0] == '-';
    let signed = neg || (s.len() > 0 && s[0] == '+');
    let body = if signed {
        s.drop_first()
    } else {
        s
    };
    if is_coord_number(body) && coord_in_range(body, limit) {
        if neg {
            Some(-coord_value_e4(body))
        } else {
            Some(coord_value_e4(body))
        }
    } else {
        None
    }
}

proof fn lemma_first_occurrence_bounds(s: Seq<char>, c: char)
    ensures
        0 <= first_occurrence(s, c) <= s.len(),
        forall|k: int| 0 <= k < first_occurrence(s, c) ==> s[k] != c,
        first_occurrence(s, c) < s.len() ==> s[first_occurrence(s, c)] == c,
    decreases s.len(),
{
    if s.len() > 0 && s[0] != c {
        lemma_first_occurrence_bounds(s.drop_first(), c);
        assert forall|k: int| 0 <= k < first_occurrence(s, c) implies s[k] != c by {
            if k > 0 {
                assert(s.drop_first()[k - 1] == s[k]);
            }
        }
        if first_occurrence(s, c) < s.len() {
            assert(s.drop_first()[first_occurrence(s, c) - 1] == s[first_occurrence(s, c)]);
        }
    }
}

/// Appending one character to a digit string multiplies its value by ten.
proof fn lemma_digits_value_push(s: Seq<char>, c: char)
    ensures
        digits_value(s.push(c)) == digits_value(s) * 10 + digit_val(c),
{
    assert(s.push(c).drop_last() =~= s);
    assert(s.push(c).last() == c);
}

/// A digit string's value is non-negative and below ten to its length.
proof fn lemma_digits_value_bound(s: Seq<char>)
    requires
        all_digits(s),
    ensures
        0 <= digits_value(s) < pow10(s.len()),
    decreases s.len(),
{
    if s.len() > 0 {
        assert(all_digits(s.drop_last())) by {
            assert(forall|i: int|
                0 <= i < s.len() - 1 ==> s.drop_last()[i] == s[i] && is_ascii_digit(s[i]));
        }
        lemma_digits_value_bound(s.drop_last());
        assert(is_ascii_digit(s.last()));
    }
}

/// Finds the first occurrence of a character.
pub(crate) fn find_first(s: &str, c: char) -> (i: usize)
    ensures
        i == first_occurrence(s@, c),
        0 <= i <= s@.len(),
{
    let n: usize = s.unicode_len();
    proof {
        lemma_first_occurrence_bounds(s@, c);
    }
    let mut i: usize = 0;
    while i < n && s.get_char(i) != c
        invariant
            0 <= i <= n,
            n == s@.len(),
            forall|k: int| 0 <= k < i ==> s@[k] != c,
        decreases n - i,
    {
        i = i + 1;
    }
    proof {
        lemma_first_occurrence_bounds(s@, c);
        if first_occurrence(s@, c) < i {
            assert(s@[first_occurrence(s@, c)] == c);
        }
        if first_occurrence(s@, c) > i {
            assert(i < n && s@[i as int] == c);
        }
    }
    i
}

/// Checks that every character is a decimal digit.
fn check_all_digits(s: &str) -> (r: bool)
    ensures
        r == all_digits(s@),
{
    let n: usize = s.unicode_len();
    let mut i: usize = 0;
    while i < n
        invariant
            0 <= i <= n,
            n == s@.len(),
            forall|k: int| 0 <= k < i ==> is_ascii_digit(s@[k]),
        decreases n - i,
    {
        let u: u32 = s.get_char(i) as u32;
        if !(48 <= u && u <= 57) {
            return false;
        }
        i = i + 1;
    }
    true
}

/// `pow10` is positive.
proof fn lemma_pow10_pos(n: nat)
    ensures
        pow10(n) >= 1,
    decreases n,
{
    if n > 0 {
        lemma_pow10_pos((n - 1) as nat);
    }
}

/// The small powers of ten the parser scales by.
proof fn lemma_pow10_values()
    ensures
        pow10(0) == 1,
        pow10(1) == 10,
        pow10(2) == 100,
        pow10(3) == 1000,
        pow10(4) == 10000,
        pow10(5) == 100000,
        pow10(6) == 1000000,
        pow10(7) == 10000000,
{
    assert(pow10(0) == 1);
    assert(pow10(1) == 10);
    assert(pow10(2) == 100);
    assert(pow10(3) == 1000);
    assert(pow10(4) == 10000);
    assert(pow10(5) == 100000);
    assert(pow10(6) == 1000000);
    assert(pow10(7) == 10000000);
}


/// `pow10` never shrinks as its argument grows.
proof fn lemma_pow10_monotone(a: nat, b: nat)
    requires
        a <= b,
    ensures
        pow10(a) <= pow10(b),
    decreases b,
{
    if a < b {
        lemma_pow10_monotone(a, (b - 1) as nat);
        lemma_pow10_pos((b - 1) as nat);
    }
}

/// The value of concatenated digit strings.
proof fn lemma_digits_value_concat(a: Seq<char>, b: Seq<char>)
    ensures
        digits_value(a + b) == digits_value(a) * pow10(b.len()) + digits_value(b),
    decreases b.len(),
{
    if b.len() == 0 {
        assert(a + b =~= a);
    } else {
        lemma_digits_value_concat(a, b.drop_last());
        assert((a + b).drop_last() =~= a + b.drop_last());
        assert((a + b).last() == b.last());
        let x = digits_value(a);
        let y = digits_value(b.drop_last());
        let d = digit_val(b.last());
        let p1 = pow10((b.len() - 1) as nat);
        assert(pow10(b.len()) == 10 * p1);
        assert(digits_value(a + b) == (x * p1 + y) * 10 + d);
        assert((x * p1 + y) * 10 + d == x * (10 * p1) + (y * 10 + d)) by (nonlinear_arith);
        assert(digits_value(b) == y * 10 + d);
    }
}

/// Whether a digit string is all zeros, that is, has value zero.
fn check_zero_digits(s: &str) -> (r: bool)
    requires
        all_digits(s@),
    ensures
        r == (digits_value(s@) == 0),
{
    let n: usize = s.unicode_len();
    let mut i: usize = 0;
    let mut zero: bool = true;
    while i < n
        invariant
            0 <= i <= n,
            n == s@.len(),
            all_digits(s@),
            zero == (digits_value(s@.take(i as int)) == 0),
        decreases n - i,
    {
        let c: char = s.get_char(i);
        let u: u32 = c as u32;
        proof {
            assert(is_ascii_digit(s@[i as int]));
            assert(s@.take(i + 1) =~= s@.take(i as int).push(s@[i as int]));
            lemma_digits_value_push(s@.take(i as int), s@[i as int]);
            assert(all_digits(s@.take(i as int))) by {
                assert(forall|k: int| 0 <= k < i ==> s@.take(i as int)[k] == s@[k]);
            }
            lemma_digits_value_bound(s@.take(i as int));
        }
        if u != 48 {
            zero = false;
        }
        i = i + 1;
    }
    proof {
        assert(s@.take(n as int) =~= s@);
    }
    zero
}

/// Extends a capped left-to-right reading of digit values: the result is
/// the value of `prefix` followed by `s`, exact while it is at most `cap`,
/// and clamped just above `cap` once the true value exceeds it.
fn accumulate_digits_capped(s: &str, acc: u128, cap: u128, Ghost(prefix): Ghost<Seq<char>>) -> (r:
    u128)
    requires
        all_digits(s@),
        cap <= 0x10000000000000000000000000,
        acc <= cap + 1,
        digits_value(prefix) <= cap ==> acc as int == digits_value(prefix),
        digits_value(prefix) > cap ==> acc as int > cap,
    ensures
        r <= cap + 1,
        digits_value(prefix + s@) <= cap ==> r as int == digits_value(prefix + s@),
        digits_value(prefix + s@) > cap ==> r as int > cap,
{
    let n: usize = s.unicode_len();
    let mut i: usize = 0;
    let mut a: u128 = acc;
    while i < n
        invariant
            0 <= i <= n,
            n == s@.len(),
            all_digits(s@),
            cap <= 0x10000000000000000000000000,
            a <= cap + 1,
            digits_value(prefix + s@.take(i as int)) <= cap ==> a as int == digits_value(
                prefix + s@.take(i as int),
            ),
            digits_value(prefix + s@.take(i as int)) > cap ==> a as int > cap,
        decreases n - i,
    {
        let c: char = s.get_char(i);
        let u: u32 = c as u32;
        proof {
            assert(is_ascii_digit(s@[i as int]));
            assert((prefix + s@.take(i as int)).push(s@[i as int]) =~= prefix + s@.take(i + 1));
            lemma_digits_value_push(prefix + s@.take(i as int), s@[i as int]);
        }
        let d: u128 = (u - 48) as u128;
        if a <= cap {
            let next: u128 = a * 10 + d;
            if next > cap {
                a = cap + 1;
            } else {
                a = next;
            }
        }
        i = i + 1;
    }
    proof {
        assert(prefix + s@.take(n as int) =~= prefix + s@);
    }
    a
}

proof fn lemma_first_exp_bounds(s: Seq<char>)
    ensures
        0 <= first_exp(s) <= s.len(),
        forall|k: int| 0 <= k < first_exp(s) ==> s[k] != 'e' && s[k] != 'E',
        first_exp(s) < s.len() ==> (s[first_exp(s)] == 'e' || s[first_exp(s)] == 'E'),
    decreases s.len(),
{
    if s.len() > 0 && !(s[0] == 'e' || s[0] == 'E') {
        lemma_first_exp_bounds(s.drop_first());
        assert forall|k: int| 0 <= k < first_exp(s) implies s[k] != 'e' && s[k] != 'E' by {
            if k > 0 {
                assert(s.drop_first()[k - 1] == s[k]);
            }
        }
        if first_exp(s) < s.len() {
            assert(s.drop_first()[first_exp(s) - 1] == s[first_exp(s)]);
        }
    }
}

/// Finds the first exponent marker.
fn find_exp_marker(s: &str) -> (i: usize)
    ensures
        i == first_exp(s@),
        0 <= i <= s@.len(),
{
    let n: usize = s.unicode_len();
    proof {
        lemma_first_exp_bounds(s@);
    }
    let mut i: usize = 0;
    while i < n && s.get_char(i) != 'e' && s.get_char(i) != 'E'
        invariant
            0 <= i <= n,
            n == s@.len(),
            forall|k: int| 0 <= k < i ==> s@[k] != 'e' && s@[k] != 'E',
        decreases n - i,
    {
        i = i + 1;
    }
    proof {
        lemma_first_exp_bounds(s@);
        if first_exp(s@) < i {
            assert(s@[first_exp(s@)] == 'e' || s@[first_exp(s@)] == 'E');
        }
        if first_exp(s@) > i {
            assert(i < n && (s@[i as int] == 'e' || s@[i as int] == 'E'));
        }
    }
    i
}

/// Ten to a small power, executable.
fn pow10_small(k: u64) -> (r: u64)
    requires
        k <= 6,
    ensures
        r as int == pow10(k as nat),
        r <= 1000000,
{
    proof {
        lemma_pow10_values();
    }
    if k == 0 {
        1
    } else if k == 1 {
        10
    } else if k == 2 {
        100
    } else if k == 3 {
        1000
    } else if k == 4 {
        10000
    } else if k == 5 {
        100000
    } else {
        1000000
    }
}

/// A cap on readable exponent magnitudes, far beyond any possible
/// written length of the input.
const EXP_CAP: u128 = 0x100000000000000000000;

/// The digit string's value scaled up by a small power of ten, when that
/// stays within `limit`; `None` when it exceeds it.
fn scaled_digits_value(
    intp: &str,
    fracp: &str,
    k_small: u64,
    limit: u64,
    Ghost(digits_seq): Ghost<Seq<char>>,
) -> (r: Option<u64>)
    requires
        all_digits(intp@),
        all_digits(fracp@),
        digits_seq == intp@ + fracp@,
        1 <= limit <= 1_800_000,
        k_small <= 6,
    ensures
        (match r {
            Some(v) => digits_value(digits_seq) * pow10(k_small as nat) == v as int && v <= limit,
            None => digits_value(digits_seq) * pow10(k_small as nat) > limit as int,
        }),
{
    let acc1: u128 = accumulate_digits_capped(intp, 0, limit as u128, Ghost(Seq::<char>::empty()));
    proof {
        assert(Seq::<char>::empty() + intp@ =~= intp@);
    }
    let num_c: u128 = accumulate_digits_capped(fracp, acc1, limit as u128, Ghost(intp@));
    let ghost num = digits_value(digits_seq);
    proof {
        assert(intp@ + fracp@ =~= digits_seq);
        assert(all_digits(digits_seq)) by {
            assert(forall|i: int| 0 <= i < intp@.len() ==> digits_seq[i] == intp@[i]);
            assert(forall|i: int|
                intp@.len() <= i < digits_seq.len() ==> digits_seq[i] == fracp@[i - intp@.len()]);
        }
        lemma_digits_value_bound(digits_seq);
        lemma_pow10_pos(k_small as nat);
    }
    if num_c > limit as u128 {
        proof {
            assert(num * pow10(k_small as nat) >= num) by (nonlinear_arith)
                requires
                    num >= 0,
                    pow10(k_small as nat) >= 1,
            ;
        }
        return None;
    }
    let num64: u64 = num_c as u64;
    let scale: u64 = pow10_small(k_small);
    proof {
        assert(num64 as int * scale as int <= 1_800_000 * 1_000_000) by (nonlinear_arith)
            requires
                0 <= num64 as int <= 1_800_000,
                0 <= scale as int <= 1_000_000,
        ;
    }
    let v: u64 = num64 * scale;
    if v > limit {
        return None;
    }
    Some(v)
}

/// The digit string's value shifted right by `m_us` places: the remaining
/// high digits when the exact value stays within `limit` of them, `None`
/// when it exceeds the limit at full precision.
fn shifted_digits_value(
    intp: &str,
    fracp: &str,
    m_us: usize,
    limit: u64,
    Ghost(digits_seq): Ghost<Seq<char>>,
) -> (r: Option<u64>)
    requires
        all_digits(intp@),
        all_digits(fracp@),
        digits_seq == intp@ + fracp@,
        1 <= limit <= 1_800_000,
        1 <= m_us < intp@.len() + fracp@.len(),
        intp@.len() + fracp@.len() <= usize::MAX,
    ensures
        (match r {
            Some(v) => digits_value(digits_seq) <= (limit as int) * pow10(m_us as nat) && v as int
                == digits_value(digits_seq) / pow10(m_us as nat) && v <= limit,
            None => digits_value(digits_seq) > (limit as int) * pow10(m_us as nat),
        }),
{
    let in_len: usize = intp.unicode_len();
    let fr_len: usize = fracp.unicode_len();
    let split: usize = in_len + fr_len - m_us;
    let ghost high_seq = digits_seq.take(split as int);
    let ghost low_seq = digits_seq.skip(split as int);
    let ghost hval = digits_value(high_seq);
    let ghost lval = digits_value(low_seq);
    let ghost p = pow10(m_us as nat);
    let ghost num = digits_value(digits_seq);
    proof {
        assert(digits_seq =~= high_seq + low_seq);
        assert(low_seq.len() == m_us);
        assert(all_digits(high_seq)) by {
            assert(forall|i: int|
                0 <= i < high_seq.len() ==> high_seq[i] == (intp@ + fracp@)[i]);
        }
        assert(all_digits(low_seq)) by {
            assert(forall|i: int|
                0 <= i < low_seq.len() ==> low_seq[i] == (intp@ + fracp@)[i + split]);
        }
        lemma_digits_value_concat(high_seq, low_seq);
        lemma_digits_value_bound(high_seq);
        lemma_digits_value_bound(low_seq);
        lemma_pow10_pos(m_us as nat);
        assert(num == hval * p + lval);
        assert(0 <= lval < p);
    }
    let hv: u128;
    let low_zero: bool;
    if split <= in_len {
        let hi: &str = intp.substring_char(0, split);
        let lo1: &str = intp.substring_char(split, in_len);
        proof {
            assert(hi@ =~= high_seq);
            assert(lo1@ + fracp@ =~= low_seq);
            assert(all_digits(lo1@)) by {
                assert(forall|i: int| 0 <= i < lo1@.len() ==> lo1@[i] == intp@[i + split]);
            }
            assert(all_digits(hi@)) by {
                assert(forall|i: int| 0 <= i < hi@.len() ==> hi@[i] == intp@[i]);
            }
        }
        hv = accumulate_digits_capped(hi, 0, limit as u128, Ghost(Seq::<char>::empty()));
        proof {
            assert(Seq::<char>::empty() + hi@ =~= high_seq);
        }
        let z1: bool = check_zero_digits(lo1);
        let z2: bool = check_zero_digits(fracp);
        low_zero = z1 && z2;
        proof {
            lemma_digits_value_concat(lo1@, fracp@);
            lemma_digits_value_bound(lo1@);
            lemma_pow10_pos(fracp@.len() as nat);
            assert(low_zero == (lval == 0)) by {
                lemma_digits_value_bound(fracp@);
                assert(digits_value(lo1@) * pow10(fracp@.len() as nat) >= 0) by (nonlinear_arith)
                    requires
                        digits_value(lo1@) >= 0,
                        pow10(fracp@.len() as nat) >= 1,
                ;
                if digits_value(lo1@) == 0 {
                    assert(digits_value(lo1@) * pow10(fracp@.len() as nat) == 0) by (
                    nonlinear_arith)
                        requires
                            digits_value(lo1@) == 0,
                    ;
                } else {
                    assert(digits_value(lo1@) * pow10(fracp@.len() as nat) >= pow10(
                        fracp@.len() as nat,
                    )) by (nonlinear_arith)
                        requires
                            digits_value(lo1@) >= 1,
                            pow10(fracp@.len() as nat) >= 1,
                    ;
                }
            }
        }
    } else {
        let cut: usize = split - in_len;
        let hi2: &str = fracp.substring_char(0, cut);
        let lo: &str = fracp.substring_char(cut, fr_len);
        proof {
            assert(intp@ + hi2@ =~= high_seq);
            assert(lo@ =~= low_seq);
            assert(all_digits(hi2@)) by {
                assert(forall|i: int| 0 <= i < hi2@.len() ==> hi2@[i] == fracp@[i]);
            }
            assert(all_digits(lo@)) by {
                assert(forall|i: int| 0 <= i < lo@.len() ==> lo@[i] == fracp@[i + cut]);
            }
        }
        let a1: u128 = accumulate_digits_capped(
            intp,
            0,
            limit as u128,
            Ghost(Seq::<char>::empty()),
        );
        proof {
            assert(Seq::<char>::empty() + intp@ =~= intp@);
        }
        hv = accumulate_digits_capped(hi2, a1, limit as u128, Ghost(intp@));
        proof {
            assert(intp@ + hi2@ =~= high_seq);
        }
        low_zero = check_zero_digits(lo);
    }
    if hv > limit as u128 {
        proof {
            assert(hval * p > (limit as int) * p) by (nonlinear_arith)
                requires
                    hval > limit as int,
                    p >= 1,
            ;
        }
        return None;
    }
    if hv == limit as u128 && !low_zero {
        proof {
            assert(num > (limit as int) * p);
        }
        return None;
    }
    proof {
        if hval < limit as int {
            assert(hval * p + lval <= (limit as int) * p) by (nonlinear_arith)
                requires
                    hval <= limit as int - 1,
                    0 <= lval < p,
                    p >= 1,
            ;
        }
        vstd::arithmetic::div_mod::lemma_fundamental_div_mod_converse(num, p, hval, lval);
    }
    Some(hv as u64)
}

/// Parses a signed coordinate of the float grammar into ten-thousandths of
/// a degree, accepting it only when its magnitude, at the input's full
/// written precision, is at most `limit`.
#[verifier::rlimit(100)]
pub fn parse_coord_e4(s: &str, limit: u64) -> (r: Option<i64>)
    requires
        1 <= limit <= 1_800_000,
    ensures
        (match r {
            Some(v) => spec_parse_coord_e4(s@, limit as int) == Some(v as int) && -(limit as int)
                <= v as int <= limit as int,
            None => spec_parse_coord_e4(s@, limit as int) is None,
        }),
{
    let n: usize = s.unicode_len();
    let mut start: usize = 0;
    let mut neg: bool = false;
    if n > 0 {
        let c0: char = s.get_char(0);
        if c0 == '-' {
            neg = true;
            start = 1;
        } else if c0 == '+' {
            start = 1;
        }
    }
    let body: &str = s.substring_char(start, n);
    proof {
        if start == 1 {
            assert(body@ =~= s@.drop_first());
        } else {
            assert(body@ =~= s@);
        }
    }
    let bn: usize = body.unicode_len();
    // split off the exponent
    let ie: usize = find_exp_marker(body);
    let mant: &str = body.substring_char(0, ie);
    proof {
        assert(mant@ =~= mantissa_part(body@));
    }
    // split the mantissa at the dot
    let mn: usize = mant.unicode_len();
    let dot: usize = find_first(mant, '.');
    let intp: &str = mant.substring_char(0, dot);
    let fracp: &str = if dot == mn {
        mant.substring_char(mn, mn)
    } else {
        mant.substring_char(dot + 1, mn)
    };
    proof {
        assert(intp@ =~= int_part(mant@));
        assert(fracp@ =~= frac_part(mant@));
    }
    let in_len: usize = intp.unicode_len();
    let fr_len: usize = fracp.unicode_len();
    if !check_all_digits(intp) {
        return None;
    }
    if !check_all_digits(fracp) {
        return None;
    }
    if in_len == 0 && fr_len == 0 {
        return None;
    }
    // read the exponent, exact up to a cap that dwarfs any string length
    let has_exp: bool = ie < bn;
    let mut exp_neg: bool = false;
    let mut exp_mag: u128 = 0;
    if has_exp {
        let et: &str = body.substring_char(ie + 1, bn);
        proof {
            assert(et@ =~= exponent_text(body@));
        }
        let el: usize = et.unicode_len();
        let mut ds: usize = 0;
        if el > 0 {
            let e0: char = et.get_char(0);
            if e0 == '-' {
                exp_neg = true;
                ds = 1;
            } else if e0 == '+' {
                ds = 1;
            }
        }
        let ed: &str = et.substring_char(ds, el);
        proof {
            if ds == 1 {
                assert(ed@ =~= et@.drop_first());
            } else {
                assert(ed@ =~= et@);
            }
        }
        if ed.unicode_len() == 0 {
            return None;
        }
        if !check_all_digits(ed) {
            return None;
        }
        exp_mag = accumulate_digits_capped(ed, 0, EXP_CAP, Ghost(Seq::<char>::empty()));
        proof {
            assert(Seq::<char>::empty() + ed@ =~= ed@);
            lemma_digits_value_bound(ed@);
        }
    }
    // ghost foundations: the digit string and its exact value
    let ghost digits_seq = mantissa_digits(mantissa_part(body@));
    let ghost num = digits_value(digits_seq);
    let ghost kk = coord_shift(body@);
    proof {
        assert(digits_seq =~= intp@ + fracp@);
        assert(all_digits(digits_seq)) by {
            assert(forall|i: int| 0 <= i < in_len ==> digits_seq[i] == intp@[i]);
            assert(forall|i: int|
                in_len <= i < digits_seq.len() ==> digits_seq[i] == fracp@[i - in_len]);
        }
        lemma_digits_value_concat(intp@, fracp@);
        lemma_digits_value_bound(intp@);
        lemma_digits_value_bound(fracp@);
        lemma_digits_value_bound(digits_seq);
        lemma_pow10_pos(fracp@.len() as nat);
        assert(is_coord_number(body@));
    }
    // a mantissa of zeros is the value zero, whatever the exponent
    let int_zero: bool = check_zero_digits(intp);
    let frac_zero: bool = check_zero_digits(fracp);
    if int_zero && frac_zero {
        proof {
            assert(digits_value(intp@) * pow10(fracp@.len() as nat) == 0) by (nonlinear_arith)
                requires
                    digits_value(intp@) == 0,
            ;
            assert(num == 0);
            if kk >= 0 {
                lemma_pow10_pos(kk as nat);
                assert(num * pow10(kk as nat) == 0) by (nonlinear_arith)
                    requires
                        num == 0,
                ;
            }
            if kk < 0 {
                lemma_pow10_pos((-kk) as nat);
                assert((limit as int) * pow10((-kk) as nat) >= 0) by (nonlinear_arith)
                    requires
                        limit as int >= 1,
                        pow10((-kk) as nat) >= 1,
                ;
                vstd::arithmetic::div_mod::lemma_fundamental_div_mod_converse(
                    0,
                    pow10((-kk) as nat),
                    0,
                    0,
                );
            }
            assert(coord_in_range(body@, limit as int));
            assert(coord_value_e4(body@) == 0);
        }
        return Some(0);
    }
    proof {
        assert(num >= 1) by {
            if digits_value(intp@) >= 1 {
                assert(digits_value(intp@) * pow10(fracp@.len() as nat) >= pow10(
                    fracp@.len() as nat,
                )) by (nonlinear_arith)
                    requires
                        digits_value(intp@) >= 1,
                        pow10(fracp@.len() as nat) >= 1,
                ;
            }
        }
    }
    if exp_mag > EXP_CAP {
        // the exponent's magnitude dwarfs any written length
        if exp_neg {
            // the value truncates to zero and is in range
            proof {
                assert(kk < 0);
                let m = (-kk) as nat;
                assert(digits_seq.len() <= m);
                lemma_pow10_monotone(digits_seq.len() as nat, m);
                lemma_pow10_pos(m);
                assert(pow10(m as nat) <= (limit as int) * pow10(m as nat)) by (nonlinear_arith)
                    requires
                        limit as int >= 1,
                        pow10(m as nat) >= 1,
                ;
                vstd::arithmetic::div_mod::lemma_fundamental_div_mod_converse(
                    num,
                    pow10(m),
                    0,
                    num,
                );
                assert(coord_in_range(body@, limit as int));
                assert(coord_value_e4(body@) == 0);
            }
            return Some(0);
        } else {
            // at least seven decimal places above the limit's scale
            proof {
                assert(kk >= 7);
                lemma_pow10_monotone(7, kk as nat);
                lemma_pow10_values();
                assert(num * pow10(kk as nat) >= pow10(kk as nat)) by (nonlinear_arith)
                    requires
                        num >= 1,
                        pow10(kk as nat) >= 1,
                ;
                assert(!coord_in_range(body@, limit as int));
            }
            return None;
        }
    }
    // the exponent value is exact
    let ev: i128 = if exp_neg {
        -(exp_mag as i128)
    } else {
        exp_mag as i128
    };
    let k: i128 = ev - (fr_len as i128) + 4;
    proof {
        assert(k as int == kk);
    }
    if k >= 0 {
        if k >= 7 {
            proof {
                lemma_pow10_monotone(7, kk as nat);
                lemma_pow10_values();
                assert(num * pow10(kk as nat) >= pow10(kk as nat)) by (nonlinear_arith)
                    requires
                        num >= 1,
                        pow10(kk as nat) >= 1,
                ;
                assert(!coord_in_range(body@, limit as int));
            }
            return None;
        }
        let scaled = scaled_digits_value(intp, fracp, k as u64, limit, Ghost(digits_seq));
        match scaled {
            Some(v) => {
                proof {
                    assert(coord_in_range(body@, limit as int));
                    assert(coord_value_e4(body@) == v as int);
                }
                if neg {
                    Some(-(v as i64))
                } else {
                    Some(v as i64)
                }
            },
            None => {
                proof {
                    assert(!coord_in_range(body@, limit as int));
                }
                None
            },
        }
    } else {
        // a negative shift: the value is the digit string moved m places
        let m: i128 = -k;
        proof {
            assert(in_len + fr_len <= mn);
        }
        let dlen: usize = in_len + fr_len;
        if m >= dlen as i128 {
            // fewer digits than places: the value truncates to zero
            proof {
                lemma_pow10_monotone(digits_seq.len() as nat, (-kk) as nat);
                lemma_pow10_pos((-kk) as nat);
                assert(pow10((-kk) as nat) <= (limit as int) * pow10((-kk) as nat)) by (
                nonlinear_arith)
                    requires
                        limit as int >= 1,
                        pow10((-kk) as nat) >= 1,
                ;
                vstd::arithmetic::div_mod::lemma_fundamental_div_mod_converse(
                    num,
                    pow10((-kk) as nat),
                    0,
                    num,
                );
                assert(coord_in_range(body@, limit as int));
                assert(coord_value_e4(body@) == 0);
            }
            return Some(0);
        }
        let m_us: usize = m as usize;
        let shifted = shifted_digits_value(intp, fracp, m_us, limit, Ghost(digits_seq));
        match shifted {
            Some(v) => {
                proof {
                    assert(coord_in_range(body@, limit as int));
                    assert(coord_value_e4(body@) == v as int);
                }
                if neg {
                    Some(-(v as i64))
                } else {
                    Some(v as i64)
                }
            },
            None => {
                proof {
                    assert(!coord_in_range(body@, limit as int));
                }
                None
            },
        }
    }
}

} // verus!
