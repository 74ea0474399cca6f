//! Text helpers over sequences of characters: trimming, decimal numbers,
//! searching, and comparing labels without regard to ASCII case.

use vstd::prelude::*;
use vstd::string::*;

verus! {

/// Why a piece of text is not a decimal integer of the wanted type.
#[derive(Clone, Copy, Debug, PartialEq, Eq, Structural)]
pub enum IntParseError {
    /// The text holds no character at all.
    Empty,
    /// The text holds a character that is no decimal digit where one is needed,
    /// or it is a sign with nothing behind it.
    InvalidDigit,
    /// The number is above the largest value of the type.
    PosOverflow,
    /// The number is below the smallest value of the type.
    NegOverflow,
}

/// The text, where there is one, as a sequence of characters.
pub open spec fn text_view(text: Option<String>) -> Option<Seq<char>> {
    match text {
        Some(t) => Some(t@),
        None => None,
    }
}

/// The characters with the Unicode property `White_Space`.
pub open spec fn is_whitespace(c: char) -> bool {
    ||| '\u{9}' <= c <= '\u{d}'
    ||| c == ' '
    ||| c == '\u{85}'
    ||| c == '\u{a0}'
    ||| c == '\u{1680}'
    ||| '\u{2000}' <= c <= '\u{200a}'
    ||| c == '\u{2028}'
    ||| c == '\u{2029}'
    ||| c == '\u{202f}'
    ||| c == '\u{205f}'
    ||| c == '\u{3000}'
}

/// `s` without the white space at its start.
pub open spec fn trim_start(s: Seq<char>) -> Seq<char>
    decreases s.len(),
{
    if s.len() > 0 && is_whitespace(s[0]) {
        trim_start(s.drop_first())
    } else {
        s
    }
}

/// `s` without the white space at its end.
pub open spec fn trim_end(s: Seq<char>) -> Seq<char>
    decreases s.len(),
{
    if s.len() > 0 && is_whitespace(s.last()) {
        trim_end(s.drop_last())
    } else {
        s
    }
}

/// `s` without the white space at both ends.
pub open spec fn trim(s: Seq<char>) -> Seq<char> {
    trim_end(trim_start(s))
}

/// Whether `c` is one of `0` to `9`.
pub open spec fn is_digit(c: char) -> bool {
    '0' <= c <= '9'
}

/// The number that the decimal digit `c` stands for.
pub open spec fn digit_value(c: char) -> int {
    c as int - '0' as int
}

/// Whether `s` holds decimal digits only.
pub open spec fn all_digits(s: Seq<char>) -> bool {
    forall|i: int| 0 <= i < s.len() ==> is_digit(#[trigger] s[i])
}

/// The number written by the decimal digits `s`, most significant first.
pub open spec fn decimal_value(s: Seq<char>) -> int
    decreases s.len(),
{
    if s.len() == 0 {
        0
    } else {
        decimal_value(s.drop_last()) * 10 + digit_value(s.last())
    }
}

/// The number of decimal digits that `s` begins with.
pub open spec fn leading_digits(s: Seq<char>) -> int
    decreases s.len(),
{
    if s.len() == 0 || !is_digit(s[0]) {
        0
    } else {
        1 + leading_digits(s.drop_first())
    }
}

/// The integer that `s` writes, where it writes one within `min ..= max`.
///
/// A number is an optional sign followed by at least one decimal digit; `-`
/// counts as a sign only where `signed` holds, `+` always. The digits are read
/// from the left up to the first character that is none. Where the digits
/// read leave the range, that is the failure; else a character that is no
/// digit, or a sign with nothing behind it, is.
pub open spec fn parse_decimal(s: Seq<char>, signed: bool, min: int, max: int) -> Result<
    int,
    IntParseError,
> {
    if s.len() == 0 {
        Err(IntParseError::Empty)
    } else {
        let negative = signed && s[0] == '-';
        let digits = if negative || s[0] == '+' {
            s.drop_first()
        } else {
            s
        };
        let lead = digits.subrange(0, leading_digits(digits));
        let value = if negative {
            -decimal_value(lead)
        } else {
            decimal_value(lead)
        };
        if digits.len() == 0 {
            Err(IntParseError::InvalidDigit)
        } else if value > max {
            Err(IntParseError::PosOverflow)
        } else if value < min {
            Err(IntParseError::NegOverflow)
        } else if lead.len() < digits.len() {
            Err(IntParseError::InvalidDigit)
        } else {
            Ok(value)
        }
    }
}

/// What `s` says as an `i64`.
pub open spec fn parse_i64_spec(s: Seq<char>) -> Result<int, IntParseError> {
    parse_decimal(s, true, i64::MIN as int, i64::MAX as int)
}

/// What `s` says as a `u32`.
pub open spec fn parse_u32_spec(s: Seq<char>) -> Result<int, IntParseError> {
    parse_decimal(s, false, 0, u32::MAX as int)
}

/// The character for the decimal digit `d`.
pub open spec fn digit_char(d: int) -> char {
    if d == 0 {
        '0'
    } else if d == 1 {
        '1'
    } else if d == 2 {
        '2'
    } else if d == 3 {
        '3'
    } else if d == 4 {
        '4'
    } else if d == 5 {
        '5'
    } else if d == 6 {
        '6'
    } else if d == 7 {
        '7'
    } else if d == 8 {
        '8'
    } else {
        '9'
    }
}

/// The decimal digits of `n`, without leading zeros.
pub open spec fn decimal_digits(n: nat) -> Seq<char>
    decreases n,
{
    if n < 10 {
        seq![digit_char(n as int)]
    } else {
        decimal_digits(n / 10).push(digit_char((n % 10) as int))
    }
}

/// Whether `pat` stands in `s` from position `i` on.
pub open spec fn occurs_at(s: Seq<char>, pat: Seq<char>, i: int) -> bool {
    &&& 0 <= i
    &&& i + pat.len() <= s.len()
    &&& s.subrange(i, i + pat.len()) == pat
}

/// Whether `pat` stands somewhere in `s`.
pub open spec fn contains_text(s: Seq<char>, pat: Seq<char>) -> bool {
    exists|i: int| occurs_at(s, pat, i)
}

/// How often `c` stands in `s`.
pub open spec fn count_char(s: Seq<char>, c: char) -> nat
    decreases s.len(),
{
    if s.len() == 0 {
        0
    } else {
        count_char(s.drop_last(), c) + if s.last() == c {
            1nat
        } else {
            0nat
        }
    }
}

/// The position of the first `c` in `s`, or the length of `s` where it has none.
pub open spec fn first_index_of(s: Seq<char>, c: char) -> int
    decreases s.len(),
{
    if s.len() == 0 {
        0
    } else if s[0] == c {
        0
    } else {
        1 + first_index_of(s.drop_first(), c)
    }
}

/// The second of the pieces into which the separator `c` cuts `s`: what stands
/// between the first `c` and the next one, or the end. `None` where `s` holds
/// no `c`.
pub open spec fn second_field(s: Seq<char>, c: char) -> Option<Seq<char>> {
    let i = first_index_of(s, c);
    if i >= s.len() {
        None
    } else {
        let rest = s.subrange(i + 1, s.len() as int);
        Some(rest.subrange(0, first_index_of(rest, c)))
    }
}

/// The lower-case form of an ASCII capital letter; any other character as it is.
pub open spec fn ascii_lower(c: char) -> char {
    if 'A' <= c <= 'Z' {
        ((c as u8 + 32) as u8) as char
    } else {
        c
    }
}

/// Whether `s` and `t` are the same text once ASCII capitals are lowered.
pub open spec fn eq_ignore_ascii_case(s: Seq<char>, t: Seq<char>) -> bool {
    &&& s.len() == t.len()
    &&& forall|i: int| 0 <= i < s.len() ==> ascii_lower(#[trigger] s[i]) == ascii_lower(t[i])
}

/// The characters of `s`, one by one.
pub fn to_chars(s: &str) -> (chars: Vec<char>)
    ensures
        chars@ == s@,
{
    let n = s.unicode_len();
    let mut chars: Vec<char> = Vec::new();
    let mut i: usize = 0;
    while i < n
        invariant
            n == s@.len(),
            i <= n,
            chars@ == s@.subrange(0, i as int),
        decreases n - i,
    {
        chars.push(s.get_char(i));
        i += 1;
        assert(chars@ =~= s@.subrange(0, i as int));
    }
    assert(s@.subrange(0, n as int) =~= s@);
    chars
}

/// Tells whether `c` is white space.
pub fn char_is_whitespace(c: char) -> (b: bool)
    ensures
        b == is_whitespace(c),
{
    ('\u{9}' <= c && c <= '\u{d}') || c == ' ' || c == '\u{85}' || c == '\u{a0}' || c == '\u{1680}'
        || ('\u{2000}' <= c && c <= '\u{200a}') || c == '\u{2028}' || c == '\u{2029}' || c
        == '\u{202f}' || c == '\u{205f}' || c == '\u{3000}'
}

/// The characters of `s` from position `from` up to, not including, `to`.
pub fn slice_chars(s: &Vec<char>, from: usize, to: usize) -> (part: Vec<char>)
    requires
        from <= to <= s.len(),
    ensures
        part@ == s@.subrange(from as int, to as int),
{
    let mut part: Vec<char> = Vec::new();
    let mut i: usize = from;
    while i < to
        invariant
            from <= i <= to <= s.len(),
            part@ == s@.subrange(from as int, i as int),
        decreases to - i,
    {
        part.push(s[i]);
        i += 1;
        assert(part@ =~= s@.subrange(from as int, i as int));
    }
    part
}

/// `s` without the white space at both ends.
pub fn trim_chars(s: &Vec<char>) -> (t: Vec<char>)
    ensures
        t@ == trim(s@),
{
    let n = s.len();
    let mut a: usize = 0;
    assert(s@.subrange(0, n as int) =~= s@);
    while a < n && char_is_whitespace(s[a])
        invariant
            a <= n == s.len(),
            trim_start(s@) == trim_start(s@.subrange(a as int, n as int)),
        decreases n - a,
    {
        assert(s@.subrange(a as int, n as int).drop_first() =~= s@.subrange(a + 1, n as int));
        a += 1;
    }
    let mut b: usize = n;
    while b > a && char_is_whitespace(s[b - 1])
        invariant
            a <= b <= n == s.len(),
            trim_start(s@) == s@.subrange(a as int, n as int),
            trim(s@) == trim_end(s@.subrange(a as int, b as int)),
        decreases b,
    {
        assert(s@.subrange(a as int, b as int).drop_last() =~= s@.subrange(a as int, b - 1));
        b -= 1;
    }
    slice_chars(s, a, b)
}

/// The number for the decimal digit `c`, where it is one.
pub fn digit_of(c: char) -> (d: Option<u8>)
    ensures
        d is Some == is_digit(c),
        d matches Some(v) ==> v as int == digit_value(c) && v < 10,
{
    if '0' <= c && c <= '9' {
        Some((c as u8) - ('0' as u8))
    } else {
        None
    }
}

/// Where the first `k` characters of `s` are digits and the next one, if
/// any, is none, `s` begins with `k` digits.
pub proof fn lemma_leading_digits(s: Seq<char>, k: int)
    requires
        0 <= k <= s.len(),
        forall|j: int| 0 <= j < k ==> is_digit(#[trigger] s[j]),
        k == s.len() || !is_digit(s[k]),
    ensures
        leading_digits(s) == k,
    decreases s.len(),
{
    if k > 0 {
        let rest = s.drop_first();
        assert(is_digit(s[0]));
        assert forall|j: int| 0 <= j < k - 1 implies is_digit(#[trigger] rest[j]) by {
            assert(rest[j] == s[j + 1]);
        }
        lemma_leading_digits(rest, k - 1);
    }
}

/// The number written by the digits that `s` begins with from position
/// `start` on, where there is nothing but digits and the number is at most
/// `limit`.
fn parse_magnitude(s: &Vec<char>, start: usize, limit: u64) -> (r: Result<u64, IntParseError>)
    requires
        start <= s.len(),
    ensures
        0 <= leading_digits(s@.subrange(start as int, s.len() as int)) <= s.len() - start,
        0 <= decimal_value(
            s@.subrange(start as int, s.len() as int).subrange(
                0,
                leading_digits(s@.subrange(start as int, s.len() as int)),
            ),
        ),
        ({
            let digits = s@.subrange(start as int, s.len() as int);
            let lead = digits.subrange(0, leading_digits(digits));
            if digits.len() == 0 {
                r == Err::<u64, IntParseError>(IntParseError::InvalidDigit)
            } else if decimal_value(lead) > limit {
                r == Err::<u64, IntParseError>(IntParseError::PosOverflow)
            } else if lead.len() < digits.len() {
                r == Err::<u64, IntParseError>(IntParseError::InvalidDigit)
            } else {
                r matches Ok(v) && v == decimal_value(lead)
            }
        }),
{
    let n = s.len();
    let ghost digits = s@.subrange(start as int, n as int);
    if start == n {
        return Err(IntParseError::InvalidDigit);
    }
    let mut acc: u64 = 0;
    let mut overflow = false;
    let mut i: usize = start;
    while i < n
        invariant
            start <= i <= n == s.len(),
            digits == s@.subrange(start as int, n as int),
            all_digits(s@.subrange(start as int, i as int)),
            !overflow ==> acc == decimal_value(s@.subrange(start as int, i as int)) && acc <= limit,
            overflow ==> decimal_value(s@.subrange(start as int, i as int)) > limit,
        decreases n - i,
    {
        let ghost before = s@.subrange(start as int, i as int);
        let ghost after = s@.subrange(start as int, i + 1);
        assert(after.drop_last() =~= before);
        assert(after.last() == s@[i as int]);
        match digit_of(s[i]) {
            None => {
                proof {
                    assert forall|j: int| 0 <= j < i - start implies is_digit(
                        #[trigger] digits[j],
                    ) by {
                        assert(digits[j] == before[j]);
                    }
                    assert(digits[i - start] == s@[i as int]);
                    lemma_leading_digits(digits, i - start);
                    assert(digits.subrange(0, i - start) =~= before);
                }
                if overflow {
                    return Err(IntParseError::PosOverflow);
                }
                return Err(IntParseError::InvalidDigit);
            },
            Some(d) => {
                assert(all_digits(after)) by {
                    assert forall|k: int| 0 <= k < after.len() implies is_digit(
                        #[trigger] after[k],
                    ) by {
                        if k < before.len() {
                            assert(after[k] == before[k]);
                        }
                    }
                }
                if !overflow {
                    let next: u128 = (acc as u128) * 10 + (d as u128);
                    if next > limit as u128 {
                        overflow = true;
                    } else {
                        acc = next as u64;
                    }
                }
            },
        }
        i += 1;
    }
    proof {
        assert(s@.subrange(start as int, n as int) =~= digits);
        lemma_leading_digits(digits, n - start);
        assert(digits.subrange(0, n - start) =~= digits);
    }
    if overflow {
        Err(IntParseError::PosOverflow)
    } else {
        Ok(acc)
    }
}

/// Reads `s` as a decimal `i64`, with an optional sign in front.
pub fn parse_i64(s: &Vec<char>) -> (r: Result<i64, IntParseError>)
    ensures
        match r {
            Ok(v) => parse_i64_spec(s@) == Ok::<int, IntParseError>(v as int),
            Err(e) => parse_i64_spec(s@) == Err::<int, IntParseError>(e),
        },
{
    if s.len() == 0 {
        return Err(IntParseError::Empty);
    }
    let first = s[0];
    assert(s@.subrange(0, s.len() as int) =~= s@);
    assert(s@.subrange(1, s.len() as int) =~= s@.drop_first());
    if first == '-' {
        match parse_magnitude(s, 1, 0x8000_0000_0000_0000u64) {
            Ok(m) => {
                if m == 0x8000_0000_0000_0000u64 {
                    Ok(i64::MIN)
                } else {
                    Ok(0 - (m as i64))
                }
            },
            Err(IntParseError::PosOverflow) => Err(IntParseError::NegOverflow),
            Err(e) => Err(e),
        }
    } else {
        let start: usize = if first == '+' {
            1
        } else {
            0
        };
        match parse_magnitude(s, start, 0x7fff_ffff_ffff_ffffu64) {
            Ok(m) => Ok(m as i64),
            Err(e) => Err(e),
        }
    }
}

/// Reads `s` as a decimal `u32`; a `+` may stand in front, a `-` may not.
pub fn parse_u32(s: &Vec<char>) -> (r: Result<u32, IntParseError>)
    ensures
        match r {
            Ok(v) => parse_u32_spec(s@) == Ok::<int, IntParseError>(v as int),
            Err(e) => parse_u32_spec(s@) == Err::<int, IntParseError>(e),
        },
{
    if s.len() == 0 {
        return Err(IntParseError::Empty);
    }
    assert(s@.subrange(0, s.len() as int) =~= s@);
    assert(s@.subrange(1, s.len() as int) =~= s@.drop_first());
    let start: usize = if s[0] == '+' {
        1
    } else {
        0
    };
    match parse_magnitude(s, start, 0xffff_ffffu64) {
        Ok(m) => Ok(m as u32),
        Err(e) => Err(e),
    }
}

/// The one-character text for the decimal digit `d`.
fn digit_text(d: u32) -> (t: &'static str)
    requires
        d < 10,
    ensures
        t@ == seq![digit_char(d as int)],
{
    proof {
        reveal_strlit("0");
        reveal_strlit("1");
        reveal_strlit("2");
        reveal_strlit("3");
        reveal_strlit("4");
        reveal_strlit("5");
        reveal_strlit("6");
        reveal_strlit("7");
        reveal_strlit("8");
        reveal_strlit("9");
    }
    let t = if d == 0 {
        "0"
    } else if d == 1 {
        "1"
    } else if d == 2 {
        "2"
    } else if d == 3 {
        "3"
    } else if d == 4 {
        "4"
    } else if d == 5 {
        "5"
    } else if d == 6 {
        "6"
    } else if d == 7 {
        "7"
    } else if d == 8 {
        "8"
    } else {
        "9"
    };
    assert(t@ =~= seq![digit_char(d as int)]);
    t
}

/// Writes `n` in decimal digits.
pub fn u32_to_string(n: u32) -> (s: String)
    ensures
        s@ == decimal_digits(n as nat),
    decreases n,
{
    if n < 10 {
        String::from_str(digit_text(n))
    } else {
        let mut s = u32_to_string(n / 10);
        s.append(digit_text(n % 10));
        assert(s@ =~= decimal_digits((n / 10) as nat).push(digit_char((n % 10) as int)));
        s
    }
}

/// Tells whether `pat` stands somewhere in `s`.
pub fn contains(s: &Vec<char>, pat: &Vec<char>) -> (found: bool)
    ensures
        found == contains_text(s@, pat@),
{
    let n = s.len();
    let m = pat.len();
    if m > n {
        return false;
    }
    let mut i: usize = 0;
    while i <= n - m
        invariant
            m <= n,
            n == s.len(),
            m == pat.len(),
            i <= n - m + 1,
            forall|k: int| 0 <= k < i ==> !occurs_at(s@, pat@, k),
        decreases n - m + 1 - i,
    {
        let mut j: usize = 0;
        while j < m && s[i + j] == pat[j]
            invariant
                i + m <= n == s.len(),
                m == pat.len(),
                j <= m,
                forall|t: int| 0 <= t < j ==> s@[i + t] == pat@[t],
            decreases m - j,
        {
            j += 1;
        }
        if j == m {
            assert(s@.subrange(i as int, i + m) =~= pat@);
            assert(occurs_at(s@, pat@, i as int));
            return true;
        }
        assert(s@.subrange(i as int, i + m)[j as int] != pat@[j as int]);
        i += 1;
    }
    false
}

/// Counts how often `c` stands in `s`.
pub fn count_of(s: &Vec<char>, c: char) -> (count: usize)
    ensures
        count == count_char(s@, c),
{
    let n = s.len();
    let mut count: usize = 0;
    let mut i: usize = 0;
    while i < n
        invariant
            i <= n == s.len(),
            count <= i,
            count == count_char(s@.subrange(0, i as int), c),
        decreases n - i,
    {
        assert(s@.subrange(0, i + 1).drop_last() =~= s@.subrange(0, i as int));
        if s[i] == c {
            count += 1;
        }
        i += 1;
    }
    assert(s@.subrange(0, n as int) =~= s@);
    count
}

/// Where no `c` stands before position `i`, and position `i` is the end of `s`
/// or holds `c`, the first `c` is at `i`.
pub proof fn lemma_first_index_of(s: Seq<char>, c: char, i: int)
    requires
        0 <= i <= s.len(),
        forall|k: int| 0 <= k < i ==> s[k] != c,
        i == s.len() || s[i] == c,
    ensures
        first_index_of(s, c) == i,
    decreases s.len(),
{
    if s.len() > 0 && i > 0 {
        let rest = s.drop_first();
        assert forall|k: int| 0 <= k < i - 1 implies rest[k] != c by {
            assert(rest[k] == s[k + 1]);
        }
        lemma_first_index_of(rest, c, i - 1);
    }
}

/// The position of the first `c` in `s` at or after `from`, or the length of `s`.
fn find_from(s: &Vec<char>, from: usize, c: char) -> (i: usize)
    requires
        from <= s.len(),
    ensures
        from <= i <= s.len(),
        i - from == first_index_of(s@.subrange(from as int, s.len() as int), c),
{
    let n = s.len();
    let mut i: usize = from;
    while i < n && s[i] != c
        invariant
            from <= i <= n == s.len(),
            forall|k: int| from <= k < i ==> s@[k] != c,
        decreases n - i,
    {
        i += 1;
    }
    proof {
        lemma_first_index_of(s@.subrange(from as int, n as int), c, i - from);
    }
    i
}

/// The second of the pieces into which the separator `c` cuts `s`.
pub fn second_field_of(s: &Vec<char>, c: char) -> (field: Option<Vec<char>>)
    ensures
        match field {
            Some(f) => second_field(s@, c) == Some(f@),
            None => second_field(s@, c) is None,
        },
{
    let n = s.len();
    assert(s@.subrange(0, n as int) =~= s@);
    let i = find_from(s, 0, c);
    if i >= n {
        return None;
    }
    let j = find_from(s, i + 1, c);
    let field = slice_chars(s, i + 1, j);
    assert(field@ =~= s@.subrange(i + 1, n as int).subrange(0, j - (i + 1)));
    Some(field)
}

/// The lower-case form of an ASCII capital letter; any other character as it is.
pub fn to_ascii_lower(c: char) -> (l: char)
    ensures
        l == ascii_lower(c),
{
    if 'A' <= c && c <= 'Z' {
        ((c as u8) + 32) as char
    } else {
        c
    }
}

/// Tells whether `s` and `t` are the same text once ASCII capitals are lowered.
pub fn equals_ignore_ascii_case(s: &Vec<char>, t: &Vec<char>) -> (same: bool)
    ensures
        same == eq_ignore_ascii_case(s@, t@),
{
    if s.len() != t.len() {
        return false;
    }
    let n = s.len();
    let mut i: usize = 0;
    while i < n
        invariant
            i <= n == s.len(),
            n == t.len(),
            forall|k: int| 0 <= k < i ==> ascii_lower(#[trigger] s@[k]) == ascii_lower(t@[k]),
        decreases n - i,
    {
        if to_ascii_lower(s[i]) != to_ascii_lower(t[i]) {
            return false;
        }
        i += 1;
    }
    true
}

/// The sentence that says what is wrong with a number's text.
pub open spec fn describe_parse_error(kind: IntParseError) -> Seq<char> {
    match kind {
        IntParseError::Empty => "cannot parse integer from empty string"@,
        IntParseError::InvalidDigit => "invalid digit found in string"@,
        IntParseError::PosOverflow => "number too large to fit in target type"@,
        IntParseError::NegOverflow => "number too small to fit in target type"@,
    }
}

impl IntParseError {
    /// The sentence that says what is wrong with a number's text.
    pub fn describe(&self) -> (text: &'static str)
        ensures
            text@ == describe_parse_error(*self),
    {
        match self {
            IntParseError::Empty => "cannot parse integer from empty string",
            IntParseError::InvalidDigit => "invalid digit found in string",
            IntParseError::PosOverflow => "number too large to fit in target type",
            IntParseError::NegOverflow => "number too small to fit in target type",
        }
    }
}

} // verus!
