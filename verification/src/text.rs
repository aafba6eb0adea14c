use vstd::prelude::*;

verus! {

/// Whether the character has the Unicode white-space property, the one
/// `str::trim` goes by.
pub uninterp spec fn whitespace_char(c: char) -> bool;

/// Relies on char::is_whitespace: true exactly for characters with the
/// Unicode white-space property, a function of the character alone.
#[verifier::external_body]
pub(crate) fn is_whitespace_char(c: char) -> (r: bool)
    ensures
        r == whitespace_char(c),
{
    c.is_whitespace()
}

/// Whether the character counts as numeric (Unicode number category).
pub uninterp spec fn numeric_char(c: char) -> bool;

/// Relies on char::is_numeric: true exactly for characters in one of the
/// Unicode number categories, a function of the character alone.
#[verifier::external_body]
pub(crate) fn is_numeric_char(c: char) -> (r: bool)
    ensures
        r == numeric_char(c),
{
    c.is_numeric()
}

/// Whether the character counts as alphabetic (Unicode letter category).
pub uninterp spec fn alphabetic_char(c: char) -> bool;

/// Relies on char::is_alphabetic: true exactly for characters in one of the
/// Unicode letter categories, a function of the character alone.
#[verifier::external_body]
pub(crate) fn is_alphabetic_char(c: char) -> (r: bool)
    ensures
        r == alphabetic_char(c),
{
    c.is_alphabetic()
}

/// The text with leading whitespace characters removed.
pub open spec fn trim_start_spec(s: Seq<char>) -> Seq<char>
    decreases s.len(),
{
    if s.len() > 0 && whitespace_char(s[0]) {
        trim_start_spec(s.drop_first())
    } else {
        s
    }
}

/// The text with trailing whitespace characters removed.
pub open spec fn trim_end_spec(s: Seq<char>) -> Seq<char>
    decreases s.len(),
{
    if s.len() > 0 && whitespace_char(s.last()) {
        trim_end_spec(s.drop_last())
    } else {
        s
    }
}

/// The text with leading and trailing whitespace characters removed.
pub open spec fn trim_spec(s: Seq<char>) -> Seq<char> {
    trim_end_spec(trim_start_spec(s))
}

/// Removes leading and trailing whitespace characters.
pub fn trim_str(s: &str) -> (r: String)
    ensures
        r@ == trim_spec(s@),
{
    let n = s.unicode_len();
    proof {
        assert(s@.subrange(0, n as int) =~= s@);
    }
    let mut start: usize = 0;
    while start < n && is_whitespace_char(s.get_char(start))
        invariant
            start <= n,
            n == s@.len(),
            trim_start_spec(s@) == trim_start_spec(s@.subrange(start as int, n as int)),
        decreases n - start,
    {
        proof {
            assert(s@.subrange(start as int, n as int).drop_first() =~= s@.subrange(
                start + 1,
                n as int,
            ));
        }
        start = start + 1;
    }
    proof {
        if start < n {
            assert(trim_start_spec(s@) == s@.subrange(start as int, n as int));
        } else {
            assert(s@.subrange(start as int, n as int).len() == 0);
        }
    }
    let mut end: usize = n;
    while end > start && is_whitespace_char(s.get_char(end - 1))
        invariant
            start <= end <= n,
            n == s@.len(),
            start < n ==> !whitespace_char(s@[start as int]),
            trim_spec(s@) == trim_end_spec(s@.subrange(start as int, end as int)),
        decreases end,
    {
        proof {
            assert(s@.subrange(start as int, end as int).last() == s@[end - 1]);
            assert(s@.subrange(start as int, end as int).drop_last() =~= s@.subrange(
                start as int,
                end - 1,
            ));
        }
        end = end - 1;
    }
    proof {
        let t = s@.subrange(start as int, end as int);
        if end > start {
            assert(t.last() == s@[end - 1]);
            assert(trim_end_spec(t) == t);
        } else {
            assert(t.len() == 0);
        }
    }
    String::from_str(s.substring_char(start, end))
}

/// Whether the character is one of the ten decimal digits.
pub open spec fn is_digit_char(c: char) -> bool {
    48 <= c as u32 <= 57
}

/// The numeric value of a decimal digit character.
pub open spec fn digit_val(c: char) -> int {
    c as u32 - 48
}

/// Whether every character is a decimal digit.
pub open spec fn all_digits(s: Seq<char>) -> bool {
    forall|i: int| 0 <= i < s.len() ==> is_digit_char(s[i])
}

/// The value of a digit string read in base ten; the empty string reads as
/// zero.
pub open spec fn digits_val(s: Seq<char>) -> int
    decreases s.len(),
{
    if s.len() == 0 {
        0
    } else {
        digits_val(s.drop_last()) * 10 + digit_val(s.last())
    }
}

/// The text with one leading plus or minus sign removed, if there is one.
pub open spec fn strip_sign(s: Seq<char>) -> Seq<char> {
    if s.len() > 0 && (s[0] == '+' || s[0] == '-') {
        s.drop_first()
    } else {
        s
    }
}

/// Whether the text is an optional sign followed by at least one decimal
/// digit: the shape the standard integer parsers accept.
pub open spec fn is_int_syntax(s: Seq<char>) -> bool {
    strip_sign(s).len() > 0 && all_digits(strip_sign(s))
}

/// The signed value an integer-shaped text denotes.
pub open spec fn int_val(s: Seq<char>) -> int {
    if s.len() > 0 && s[0] == '-' {
        -digits_val(s.drop_first())
    } else {
        digits_val(strip_sign(s))
    }
}

/// What parsing the text as a signed 64-bit integer yields: its value when
/// the text is integer-shaped and the value fits, nothing otherwise.
pub open spec fn spec_parse_i64(s: Seq<char>) -> Option<i64> {
    if is_int_syntax(s) && i64::MIN <= int_val(s) <= i64::MAX {
        Some(int_val(s) as i64)
    } else {
        None
    }
}

/// A string of digits reads as a non-negative value.
proof fn lemma_digits_val_nonneg(s: Seq<char>)
    requires
        all_digits(s),
    ensures
        digits_val(s) >= 0,
    decreases s.len(),
{
    if s.len() > 0 {
        assert(all_digits(s.drop_last()));
        lemma_digits_val_nonneg(s.drop_last());
    }
}

/// Reading more digits never lowers the value.
proof fn lemma_digits_val_prefix(s: Seq<char>, i: int)
    requires
        all_digits(s),
        0 <= i <= s.len(),
    ensures
        digits_val(s.subrange(0, i)) <= digits_val(s),
    decreases s.len() - i,
{
    if i == s.len() {
        assert(s.subrange(0, i) =~= s);
    } else {
        lemma_digits_val_prefix(s, i + 1);
        let t = s.subrange(0, i + 1);
        assert(t.drop_last() =~= s.subrange(0, i));
        assert(all_digits(s.subrange(0, i)));
        lemma_digits_val_nonneg(s.subrange(0, i));
        assert(digits_val(t) == digits_val(s.subrange(0, i)) * 10 + digit_val(s[i]));
    }
}

/// Parses the text as a signed 64-bit integer: an optional sign followed by
/// at least one decimal digit, with the value in range; anything else yields
/// `None`.
pub fn parse_i64(s: &str) -> (r: Option<i64>)
    ensures
        r == spec_parse_i64(s@),
{
    let n = s.unicode_len();
    if n == 0 {
        return Option::None;
    }
    let first = s.get_char(0);
    let neg = first == '-';
    let has_sign = neg || first == '+';
    let start: usize = if has_sign {
        1
    } else {
        0
    };
    if start == n {
        return Option::None;
    }
    proof {
        assert(strip_sign(s@) =~= s@.subrange(start as int, n as int));
    }
    let ghost part = s@.subrange(start as int, n as int);
    // The largest magnitude that still fits: one more for a negative value.
    let max_mag: u64 = if neg {
        9223372036854775808
    } else {
        9223372036854775807
    };
    let mut acc: u64 = 0;
    let mut i: usize = start;
    while i < n
        invariant
            start <= i <= n,
            n == s@.len(),
            start < n,
            part == s@.subrange(start as int, n as int),
            all_digits(s@.subrange(start as int, i as int)),
            acc == digits_val(s@.subrange(start as int, i as int)),
            acc <= max_mag,
            neg ==> max_mag == 9223372036854775808,
            !neg ==> max_mag == 9223372036854775807,
            is_int_syntax(s@) == all_digits(part),
            int_val(s@) == if neg {
                -digits_val(part)
            } else {
                digits_val(part)
            },
        decreases n - i,
    {
        let c = s.get_char(i);
        let cu = c as u32;
        proof {
            assert(s@.subrange(start as int, i + 1).drop_last() =~= s@.subrange(
                start as int,
                i as int,
            ));
            assert(s@.subrange(start as int, i + 1).last() == s@[i as int]);
        }
        if cu < 48 || cu > 57 {
            proof {
                assert(part[i - start] == s@[i as int]);
                assert(!is_int_syntax(s@));
            }
            return Option::None;
        }
        let d = (cu - 48) as u64;
        if acc > max_mag / 10 || (acc == max_mag / 10 && d > max_mag % 10) {
            proof {
                assert(acc * 10 + d > max_mag);
                if is_int_syntax(s@) {
                    let pre = s@.subrange(start as int, i + 1);
                    assert(pre =~= part.subrange(0, i + 1 - start));
                    lemma_digits_val_prefix(part, i + 1 - start);
                    assert(digits_val(part) >= digits_val(pre));
                    assert(digits_val(pre) == acc * 10 + d);
                }
            }
            return Option::None;
        }
        acc = acc * 10 + d;
        i = i + 1;
    }
    proof {
        assert(s@.subrange(start as int, n as int) =~= part);
        assert(is_int_syntax(s@));
    }
    if neg {
        if acc == 9223372036854775808 {
            Option::Some(i64::MIN)
        } else {
            Option::Some(-(acc as i64))
        }
    } else {
        Option::Some(acc as i64)
    }
}

/// How many characters are the decimal point.
pub open spec fn count_dots(s: Seq<char>) -> nat
    decreases s.len(),
{
    if s.len() == 0 {
        0
    } else {
        count_dots(s.drop_last()) + (if s.last() == '.' {
            1nat
        } else {
            0nat
        })
    }
}

/// How many characters are decimal digits.
pub open spec fn count_digits(s: Seq<char>) -> nat
    decreases s.len(),
{
    if s.len() == 0 {
        0
    } else {
        count_digits(s.drop_last()) + (if is_digit_char(s.last()) {
            1nat
        } else {
            0nat
        })
    }
}

/// Whether the text is a float mantissa: digits with at most one decimal
/// point among them and at least one digit, which is exactly
/// `digits`, `digits . digits?` or `digits? . digits`.
pub open spec fn is_mantissa(m: Seq<char>) -> bool {
    &&& m.len() > 0
    &&& forall|i: int| 0 <= i < m.len() ==> is_digit_char(m[i]) || m[i] == '.'
    &&& count_dots(m) <= 1
    &&& count_digits(m) >= 1
}

/// Whether the text is a float exponent body: an optional sign followed by
/// at least one digit.
pub open spec fn is_exp_tail(t: Seq<char>) -> bool {
    strip_sign(t).len() > 0 && all_digits(strip_sign(t))
}

/// Whether the character matches a lowercase letter, ignoring ASCII case.
pub open spec fn char_eq_ci(c: char, l: char) -> bool {
    c == l || c as u32 + 32 == l as u32
}

/// Whether the texts match, ignoring ASCII case of the second, lowercase one.
pub open spec fn seq_eq_ci(s: Seq<char>, l: Seq<char>) -> bool {
    s.len() == l.len() && forall|i: int| 0 <= i < s.len() ==> char_eq_ci(s[i], #[trigger] l[i])
}

/// Whether the unsigned text names an infinite or not-a-number float,
/// ignoring ASCII case.
pub open spec fn is_special_float(b: Seq<char>) -> bool {
    ||| seq_eq_ci(b, seq!['i', 'n', 'f'])
    ||| seq_eq_ci(b, seq!['i', 'n', 'f', 'i', 'n', 'i', 't', 'y'])
    ||| seq_eq_ci(b, seq!['n', 'a', 'n'])
}

/// Whether the unsigned text is a mantissa followed by an optional exponent:
/// `e` or `E`, an optional sign, and at least one digit.
pub open spec fn is_number(b: Seq<char>) -> bool {
    exists|e: int|
        0 <= e <= b.len() && is_mantissa(#[trigger] b.subrange(0, e)) && (e == b.len() || ((b[e]
            == 'e' || b[e] == 'E') && is_exp_tail(b.subrange(e + 1, b.len() as int))))
}

/// Whether the text has the shape the standard 64-bit float parser accepts:
/// an optional sign, then `inf`, `infinity` or `nan` in any ASCII case, or a
/// decimal number with an optional exponent. The float value itself is never
/// computed; an out-of-range number still has this shape, as the standard
/// parser also accepts it.
pub open spec fn is_float_syntax(s: Seq<char>) -> bool {
    is_special_float(strip_sign(s)) || is_number(strip_sign(s))
}

/// Whether the character matches the lowercase letter `lo`, ignoring ASCII
/// case; `up` must be its uppercase form.
fn char_ci(c: char, lo: char, up: char) -> (r: bool)
    requires
        up as u32 + 32 == lo as u32,
    ensures
        r == char_eq_ci(c, lo),
{
    c == lo || c == up
}

/// Whether the text from `off` on names an infinite or not-a-number float,
/// ignoring ASCII case.
fn check_special(s: &str, off: usize) -> (r: bool)
    requires
        off <= s@.len(),
    ensures
        r == is_special_float(s@.subrange(off as int, s@.len() as int)),
{
    let n = s.unicode_len();
    let ghost b = s@.subrange(off as int, n as int);
    let len = n - off;
    if len == 3 {
        let c0 = s.get_char(off);
        let c1 = s.get_char(off + 1);
        let c2 = s.get_char(off + 2);
        let inf = char_ci(c0, 'i', 'I') && char_ci(c1, 'n', 'N') && char_ci(c2, 'f', 'F');
        let nan = char_ci(c0, 'n', 'N') && char_ci(c1, 'a', 'A') && char_ci(c2, 'n', 'N');
        proof {
            let ghost li = seq!['i', 'n', 'f'];
            let ghost ln = seq!['n', 'a', 'n'];
            assert(b[0] == c0 && b[1] == c1 && b[2] == c2);
            assert(inf == seq_eq_ci(b, li)) by {
                if inf {
                    assert forall|i: int| 0 <= i < 3 implies char_eq_ci(b[i], #[trigger] li[i]) by {}
                }
            }
            assert(nan == seq_eq_ci(b, ln)) by {
                if nan {
                    assert forall|i: int| 0 <= i < 3 implies char_eq_ci(b[i], #[trigger] ln[i]) by {}
                }
            }
        }
        inf || nan
    } else if len == 8 {
        let c0 = s.get_char(off);
        let c1 = s.get_char(off + 1);
        let c2 = s.get_char(off + 2);
        let c3 = s.get_char(off + 3);
        let c4 = s.get_char(off + 4);
        let c5 = s.get_char(off + 5);
        let c6 = s.get_char(off + 6);
        let c7 = s.get_char(off + 7);
        let infinity = char_ci(c0, 'i', 'I') && char_ci(c1, 'n', 'N') && char_ci(c2, 'f', 'F')
            && char_ci(c3, 'i', 'I') && char_ci(c4, 'n', 'N') && char_ci(c5, 'i', 'I') && char_ci(
            c6,
            't',
            'T',
        ) && char_ci(c7, 'y', 'Y');
        proof {
            let ghost l = seq!['i', 'n', 'f', 'i', 'n', 'i', 't', 'y'];
            assert(b[0] == c0 && b[1] == c1 && b[2] == c2 && b[3] == c3 && b[4] == c4 && b[5] == c5
                && b[6] == c6 && b[7] == c7);
            assert(infinity == seq_eq_ci(b, l)) by {
                if infinity {
                    assert forall|i: int| 0 <= i < 8 implies char_eq_ci(b[i], #[trigger] l[i]) by {}
                }
            }
        }
        infinity
    } else {
        false
    }
}

/// Whether the text between `lo` and `hi` is a float mantissa.
fn check_mantissa(s: &str, lo: usize, hi: usize) -> (r: bool)
    requires
        lo <= hi <= s@.len(),
    ensures
        r == is_mantissa(s@.subrange(lo as int, hi as int)),
{
    let ghost m = s@.subrange(lo as int, hi as int);
    if hi == lo {
        return false;
    }
    let mut dots: usize = 0;
    let mut digs: usize = 0;
    let mut i: usize = lo;
    while i < hi
        invariant
            lo <= i <= hi <= s@.len(),
            m == s@.subrange(lo as int, hi as int),
            dots == count_dots(s@.subrange(lo as int, i as int)),
            digs == count_digits(s@.subrange(lo as int, i as int)),
            dots <= i - lo,
            digs <= i - lo,
            forall|k: int| 0 <= k < i - lo ==> is_digit_char(m[k]) || m[k] == '.',
        decreases hi - i,
    {
        let c = s.get_char(i);
        let cu = c as u32;
        proof {
            assert(s@.subrange(lo as int, i + 1).drop_last() =~= s@.subrange(lo as int, i as int));
            assert(s@.subrange(lo as int, i + 1).last() == s@[i as int]);
            assert(m[i - lo] == s@[i as int]);
        }
        if cu >= 48 && cu <= 57 {
            digs = digs + 1;
        } else if c == '.' {
            dots = dots + 1;
        } else {
            return false;
        }
        i = i + 1;
    }
    proof {
        assert(s@.subrange(lo as int, hi as int) =~= m);
    }
    dots <= 1 && digs >= 1
}

/// Whether the text between `lo` and `hi` is a float exponent body.
fn check_exp_tail(s: &str, lo: usize, hi: usize) -> (r: bool)
    requires
        lo <= hi <= s@.len(),
    ensures
        r == is_exp_tail(s@.subrange(lo as int, hi as int)),
{
    let ghost t = s@.subrange(lo as int, hi as int);
    let mut i: usize = lo;
    if i < hi {
        let c = s.get_char(i);
        if c == '+' || c == '-' {
            i = i + 1;
        }
    }
    proof {
        assert(strip_sign(t) =~= s@.subrange(i as int, hi as int));
    }
    if i == hi {
        return false;
    }
    let mut j: usize = i;
    while j < hi
        invariant
            lo <= i <= j <= hi <= s@.len(),
            t == s@.subrange(lo as int, hi as int),
            strip_sign(t) == s@.subrange(i as int, hi as int),
            forall|k: int| 0 <= k < j - i ==> is_digit_char(#[trigger] strip_sign(t)[k]),
        decreases hi - j,
    {
        let c = s.get_char(j);
        let cu = c as u32;
        proof {
            assert(strip_sign(t)[j - i] == s@[j as int]);
        }
        if cu < 48 || cu > 57 {
            proof {
                assert(!is_digit_char(strip_sign(t)[j - i]));
            }
            return false;
        }
        j = j + 1;
    }
    true
}

/// Whether the text from `off` on is a mantissa with an optional exponent.
fn check_number(s: &str, off: usize) -> (r: bool)
    requires
        off <= s@.len(),
    ensures
        r == is_number(s@.subrange(off as int, s@.len() as int)),
{
    let n = s.unicode_len();
    let ghost b = s@.subrange(off as int, n as int);
    let mut e: usize = off;
    while e < n
        invariant
            off <= e <= n,
            n == s@.len(),
            forall|k: int| off <= k < e ==> s@[k] != 'e' && s@[k] != 'E',
        ensures
            off <= e <= n,
            forall|k: int| off <= k < e ==> s@[k] != 'e' && s@[k] != 'E',
            e < n ==> (s@[e as int] == 'e' || s@[e as int] == 'E'),
        decreases n - e,
    {
        let c = s.get_char(e);
        if c == 'e' || c == 'E' {
            break ;
        }
        e = e + 1;
    }
    let m_ok = check_mantissa(s, off, e);
    let exp_ok = if e < n {
        check_exp_tail(s, e + 1, n)
    } else {
        true
    };
    let r = m_ok && exp_ok;
    proof {
        let esplit = e - off;
        assert(b.subrange(0, esplit) =~= s@.subrange(off as int, e as int));
        if e < n {
            assert(b[esplit] == s@[e as int]);
            assert(b.subrange(esplit + 1, b.len() as int) =~= s@.subrange(e + 1, n as int));
        }
        if r {
            assert(is_mantissa(b.subrange(0, esplit)));
            assert(esplit == b.len() || ((b[esplit] == 'e' || b[esplit] == 'E') && is_exp_tail(
                b.subrange(esplit + 1, b.len() as int),
            )));
            assert(is_number(b));
        } else {
            assert forall|e2: int|
                0 <= e2 <= b.len() implies !(is_mantissa(#[trigger] b.subrange(0, e2)) && (e2
                == b.len() || ((b[e2] == 'e' || b[e2] == 'E') && is_exp_tail(
                b.subrange(e2 + 1, b.len() as int),
            )))) by {
                if e2 < esplit {
                    assert(b[e2] == s@[off + e2]);
                } else if e2 > esplit {
                    assert(b.subrange(0, e2)[esplit] == s@[e as int]);
                    assert(!is_digit_char(s@[e as int]) && s@[e as int] != '.');
                }
            }
            assert(!is_number(b));
        }
    }
    r
}

/// Whether the text has the shape the standard 64-bit float parser accepts.
pub fn is_float_text(s: &str) -> (r: bool)
    ensures
        r == is_float_syntax(s@),
{
    let n = s.unicode_len();
    let off: usize = if n > 0 {
        let c = s.get_char(0);
        if c == '+' || c == '-' {
            1
        } else {
            0
        }
    } else {
        0
    };
    proof {
        assert(strip_sign(s@) =~= s@.subrange(off as int, n as int));
    }
    if check_special(s, off) {
        true
    } else {
        check_number(s, off)
    }
}

/// The decimal digit character for a value below ten.
pub open spec fn digit_char(d: int) -> char {
    if d == 0 {
        '0'
    } else if d == 1 {
        '1'
    } else if d == 2 {
        '2'
    } else if d == 3 {
        '3'
    } else if d == 4 {
        '4'
    } else if d == 5 {
        '5'
    } else if d == 6 {
        '6'
    } else if d == 7 {
        '7'
    } else if d == 8 {
        '8'
    } else {
        '9'
    }
}

/// The decimal rendering of a non-negative value, with no sign and no
/// leading zero except on zero itself.
pub open spec fn spec_nat_string(n: int) -> Seq<char>
    decreases n,
{
    if n < 10 {
        seq![digit_char(n)]
    } else {
        spec_nat_string(n / 10) + seq![digit_char(n % 10)]
    }
}

/// The decimal rendering of a value: a minus sign before the magnitude when
/// it is negative.
pub open spec fn spec_int_string(n: int) -> Seq<char> {
    if n < 0 {
        seq!['-'] + spec_nat_string(-n)
    } else {
        spec_nat_string(n)
    }
}

/// The one-character string for a decimal digit value.
fn digit_to_string(d: u64) -> (r: String)
    requires
        d < 10,
    ensures
        r@ == seq![digit_char(d as int)],
{
    let s: &str = match d {
        0 => "0",
        1 => "1",
        2 => "2",
        3 => "3",
        4 => "4",
        5 => "5",
        6 => "6",
        7 => "7",
        8 => "8",
        _ => "9",
    };
    proof {
        reveal_strlit("0");
        reveal_strlit("1");
        reveal_strlit("2");
        reveal_strlit("3");
        reveal_strlit("4");
        reveal_strlit("5");
        reveal_strlit("6");
        reveal_strlit("7");
        reveal_strlit("8");
        reveal_strlit("9");
        assert(s@ =~= seq![digit_char(d as int)]);
    }
    String::from_str(s)
}

/// Renders a non-negative value in decimal.
fn nat_to_string(n: u64) -> (r: String)
    ensures
        r@ == spec_nat_string(n as int),
    decreases n,
{
    if n < 10 {
        digit_to_string(n)
    } else {
        let mut s = nat_to_string(n / 10);
        let last = digit_to_string(n % 10);
        s.append(last.as_str());
        s
    }
}

/// Renders a signed 64-bit value in decimal.
pub fn i64_to_string(n: i64) -> (r: String)
    ensures
        r@ == spec_int_string(n as int),
{
    if n >= 0 {
        nat_to_string(n as u64)
    } else {
        let mag: u64 = if n == i64::MIN {
            9223372036854775808
        } else {
            (-n) as u64
        };
        let mut s = String::from_str("-");
        proof {
            reveal_strlit("-");
            assert(s@ =~= seq!['-']);
        }
        let rest = nat_to_string(mag);
        s.append(rest.as_str());
        proof {
            assert(s@ =~= seq!['-'] + spec_nat_string(mag as int));
        }
        s
    }
}

/// Relies on char::to_string: the string holding exactly this one character.
#[verifier::external_body]
pub(crate) fn char_to_string(c: char) -> (r: String)
    ensures
        r@ == seq![c],
{
    c.to_string()
}

/// Whether two pieces of text hold the same characters.
pub fn str_eq(a: &str, b: &str) -> (r: bool)
    ensures
        r == (a@ == b@),
{
    let sa = String::from_str(a);
    let sb = String::from_str(b);
    sa == sb
}

} // verus!
