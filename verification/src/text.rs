//! Small text utilities over `char` sequences: comparison, trimming,
//! ASCII case mapping, integer and decimal-number parsing.
use vstd::prelude::*;

verus! {

/// `String::push`: appends one character.
#[verifier::external_body]
pub(crate) fn push_char(s: &mut String, c: char)
    ensures
        final(s)@ == old(s)@.push(c),
{
    s.push(c);
}

/// The digit character of `n` (`0..=9`).
pub open spec fn digit_char(n: u8) -> char {
    (('0' as u8) + n) as char
}

/// The digit character of `n`.
pub fn digit_of(n: u8) -> (c: char)
    requires
        n <= 9,
    ensures
        c == digit_char(n),
{
    let c = match n {
        0 => '0',
        1 => '1',
        2 => '2',
        3 => '3',
        4 => '4',
        5 => '5',
        6 => '6',
        7 => '7',
        8 => '8',
        _ => '9',
    };
    c
}

/// The decimal numeral of `n`: its digits, most significant first, with
/// no leading zero (`"0"` for zero).
pub open spec fn decimal(n: nat) -> Seq<char>
    decreases n,
{
    if n < 10 {
        seq![digit_char(n as u8)]
    } else {
        decimal(n / 10).push(digit_char((n % 10) as u8))
    }
}

/// Append the decimal numeral of `n` to `s`.
pub fn push_decimal(s: &mut String, n: usize)
    ensures
        final(s)@ == old(s)@ + decimal(n as nat),
    decreases n,
{
    if n >= 10 {
        push_decimal(s, n / 10);
    }
    let d: u8 = (n % 10) as u8;
    push_char(s, digit_of(d));
    proof {
        assert(s@ =~= old(s)@ + decimal(n as nat));
    }
}

/// Append the decimal numeral of `n` to `s`.
pub fn push_decimal_wide(s: &mut String, n: u128)
    ensures
        final(s)@ == old(s)@ + decimal(n as nat),
    decreases n,
{
    if n >= 10 {
        push_decimal_wide(s, n / 10);
    }
    let d: u8 = (n % 10) as u8;
    push_char(s, digit_of(d));
    proof {
        assert(s@ =~= old(s)@ + decimal(n as nat));
    }
}

/// The decimal numeral of the integer `i`, with a leading `-` when it is
/// negative.
pub open spec fn signed_decimal(i: int) -> Seq<char> {
    if i < 0 {
        seq!['-'] + decimal((-i) as nat)
    } else {
        decimal(i as nat)
    }
}

/// The decimal numeral of `i` (see [`signed_decimal`]).
pub fn signed_decimal_of(i: i128) -> (r: String)
    ensures
        r@ == signed_decimal(i as int),
{
    let mut s = String::new();
    if i < 0 {
        push_char(&mut s, '-');
        let mag: u128 = (-(i + 1)) as u128 + 1;
        push_decimal_wide(&mut s, mag);
    } else {
        push_decimal_wide(&mut s, i as u128);
    }
    s
}

/// What `str::to_lowercase` returns for a string: its lowercase equivalent
/// under the Unicode `Lowercase` property mapping.
pub uninterp spec fn lowercase(s: Seq<char>) -> Seq<char>;

/// `str::to_lowercase`. The result is named; of it the contract states
/// only that ASCII text is lowered letter by letter as ASCII (the Unicode
/// lowercase mapping of `A`..`Z` is `a`..`z`, and other ASCII characters
/// map to themselves), as std's documentation shows on `"HELLO"`.
#[verifier::external_body]
pub(crate) fn to_lowercase(s: &str) -> (r: String)
    ensures
        r@ == lowercase(s@),
        (forall|i: int| 0 <= i < s@.len() ==> (#[trigger] s@[i] as u32) < 128) ==> r@ == s@.map_values(
            |c: char| ascii_lower(c),
        ),
{
    s.to_lowercase()
}

/// The characters of `s`.
pub fn chars_of(s: &str) -> (r: Vec<char>)
    ensures
        r@ == s@,
{
    let n = s.unicode_len();
    let mut out: Vec<char> = Vec::new();
    let mut i: usize = 0;
    while i < n
        invariant
            n == s@.len(),
            0 <= i <= n,
            out@ =~= s@.take(i as int),
        decreases n - i,
    {
        out.push(s.get_char(i));
        i += 1;
        assert(out@ =~= s@.take(i as int));
    }
    assert(s@.take(n as int) =~= s@);
    out
}

/// A `String` holding exactly `cs`.
pub fn string_of(cs: &[char]) -> (r: String)
    ensures
        r@ == cs@,
{
    let mut out = String::new();
    let mut i: usize = 0;
    while i < cs.len()
        invariant
            0 <= i <= cs.len(),
            out@ =~= cs@.take(i as int),
        decreases cs.len() - i,
    {
        push_char(&mut out, cs[i]);
        i += 1;
        assert(out@ =~= cs@.take(i as int));
    }
    assert(cs@.take(cs@.len() as int) =~= cs@);
    out
}

/// Are two character sequences equal?
pub fn chars_eq(a: &[char], b: &[char]) -> (r: bool)
    ensures
        r == (a@ == b@),
{
    if a.len() != b.len() {
        return false;
    }
    let mut i: usize = 0;
    while i < a.len()
        invariant
            a.len() == b.len(),
            0 <= i <= a.len(),
            forall|j: int| 0 <= j < i ==> a@[j] == b@[j],
        decreases a.len() - i,
    {
        if a[i] != b[i] {
            return false;
        }
        i += 1;
    }
    assert(a@ =~= b@);
    true
}

/// Do the characters `a` spell the text `b`?
pub fn chars_eq_str(a: &[char], b: &str) -> (r: bool)
    ensures
        r == (a@ == b@),
{
    let bs = chars_of(b);
    chars_eq(a, bs.as_slice())
}

/// Does `n` occur in `h` as a contiguous run (what `str::contains` tests
/// for a string pattern)?
pub open spec fn has_infix(h: Seq<char>, n: Seq<char>) -> bool {
    exists|i: int| 0 <= i && i + n.len() <= h.len() && #[trigger] h.subrange(i, i + n.len()) == n
}

/// Does `n` occur in `h` starting at index `at`?
fn infix_at(h: &[char], n: &[char], at: usize) -> (r: bool)
    requires
        at + n.len() <= h.len(),
    ensures
        r == (h@.subrange(at as int, at + n.len()) == n@),
{
    let mut j: usize = 0;
    while j < n.len()
        invariant
            at + n.len() <= h.len(),
            0 <= j <= n.len(),
            forall|k: int| 0 <= k < j ==> h@[at + k] == n@[k],
        decreases n.len() - j,
    {
        if h[at + j] != n[j] {
            assert(h@.subrange(at as int, at + n.len())[j as int] != n@[j as int]);
            return false;
        }
        j += 1;
    }
    assert(h@.subrange(at as int, at + n.len()) =~= n@);
    true
}

/// Substring search: does `n` occur in `h`?
pub fn contains_chars(h: &[char], n: &[char]) -> (r: bool)
    ensures
        r == has_infix(h@, n@),
{
    if n.len() > h.len() {
        return false;
    }
    let last = h.len() - n.len();
    let mut i: usize = 0;
    loop
        invariant
            last + n.len() == h.len(),
            0 <= i <= last,
            forall|k: int| 0 <= k < i ==> #[trigger] h@.subrange(k, k + n.len()) != n@,
        decreases last - i,
    {
        if infix_at(h, n, i) {
            return true;
        }
        if i == last {
            return false;
        }
        i += 1;
    }
}

/// The Unicode `White_Space` property (what `char::is_whitespace` tests).
pub open spec fn is_whitespace(c: char) -> bool {
    let u = c as u32;
    ||| 0x09 <= u <= 0x0D
    ||| u == 0x20
    ||| u == 0x85
    ||| u == 0xA0
    ||| u == 0x1680
    ||| 0x2000 <= u <= 0x200A
    ||| u == 0x2028
    ||| u == 0x2029
    ||| u == 0x202F
    ||| u == 0x205F
    ||| u == 0x3000
}

pub fn is_whitespace_char(c: char) -> (r: bool)
    ensures
        r == is_whitespace(c),
{
    let u = c as u32;
    (0x09 <= u && u <= 0x0D) || u == 0x20 || u == 0x85 || u == 0xA0 || u == 0x1680 || (0x2000
        <= u && u <= 0x200A) || u == 0x2028 || u == 0x2029 || u == 0x202F || u == 0x205F || u
        == 0x3000
}

/// Number of leading whitespace characters of `s`.
pub open spec fn leading_ws(s: Seq<char>) -> int
    decreases s.len(),
{
    if s.len() > 0 && is_whitespace(s[0]) {
        1 + leading_ws(s.drop_first())
    } else {
        0
    }
}

/// Number of trailing whitespace characters of `s`.
pub open spec fn trailing_ws(s: Seq<char>) -> int
    decreases s.len(),
{
    if s.len() > 0 && is_whitespace(s.last()) {
        1 + trailing_ws(s.drop_last())
    } else {
        0
    }
}

/// `s` without leading and trailing whitespace (`str::trim`).
pub open spec fn trim(s: Seq<char>) -> Seq<char> {
    let t = s.skip(leading_ws(s));
    t.take(t.len() - trailing_ws(t))
}

proof fn lemma_leading_ws(s: Seq<char>, i: int)
    requires
        0 <= i <= s.len(),
        forall|j: int| 0 <= j < i ==> is_whitespace(#[trigger] s[j]),
        i == s.len() || !is_whitespace(s[i]),
    ensures
        leading_ws(s) == i,
    decreases i,
{
    if i > 0 {
        assert(is_whitespace(s[0]));
        let t = s.drop_first();
        assert forall|j: int| 0 <= j < i - 1 implies is_whitespace(#[trigger] t[j]) by {
            assert(t[j] == s[j + 1]);
        }
        lemma_leading_ws(t, i - 1);
    } else {
        if s.len() > 0 {
            assert(!is_whitespace(s[0]));
        }
    }
}

proof fn lemma_trailing_ws(s: Seq<char>, e: int)
    requires
        0 <= e <= s.len(),
        forall|j: int| e <= j < s.len() ==> is_whitespace(#[trigger] s[j]),
        e == 0 || !is_whitespace(s[e - 1]),
    ensures
        trailing_ws(s) == s.len() - e,
    decreases s.len() - e,
{
    if e < s.len() {
        assert(is_whitespace(s.last()));
        let t = s.drop_last();
        assert forall|j: int| e <= j < t.len() implies is_whitespace(#[trigger] t[j]) by {
            assert(t[j] == s[j]);
        }
        if e > 0 {
            assert(t[e - 1] == s[e - 1]);
        }
        lemma_trailing_ws(t, e);
    } else {
        if s.len() > 0 {
            assert(!is_whitespace(s.last()));
        }
    }
}

/// `s.trim()`.
pub fn trim_chars(s: &[char]) -> (r: Vec<char>)
    ensures
        r@ == trim(s@),
{
    let mut start: usize = 0;
    while start < s.len() && is_whitespace_char(s[start])
        invariant
            0 <= start <= s.len(),
            forall|j: int| 0 <= j < start ==> is_whitespace(#[trigger] s@[j]),
        decreases s.len() - start,
    {
        start += 1;
    }
    proof {
        lemma_leading_ws(s@, start as int);
    }
    let mut end: usize = s.len();
    while end > start && is_whitespace_char(s[end - 1])
        invariant
            start <= end <= s.len(),
            forall|j: int| end <= j < s.len() ==> is_whitespace(#[trigger] s@[j]),
        decreases end,
    {
        end -= 1;
    }
    let ghost t = s@.skip(start as int);
    proof {
        assert forall|j: int| end - start <= j < t.len() implies is_whitespace(#[trigger] t[j]) by {
            assert(t[j] == s@[j + start]);
        }
        if end > start {
            assert(t[end - start - 1] == s@[end - 1]);
        }
        lemma_trailing_ws(t, end - start);
    }
    let mut out: Vec<char> = Vec::new();
    let mut i = start;
    while i < end
        invariant
            start <= i <= end <= s.len(),
            out@ =~= s@.subrange(start as int, i as int),
        decreases end - i,
    {
        out.push(s[i]);
        i += 1;
        assert(out@ =~= s@.subrange(start as int, i as int));
    }
    assert(out@ =~= trim(s@));
    out
}

/// ASCII lowercase of one character (other characters unchanged).
pub open spec fn ascii_lower(c: char) -> char {
    if 'A' <= c <= 'Z' {
        ((c as u32) + 32) as char
    } else {
        c
    }
}

pub fn ascii_lower_char(c: char) -> (r: char)
    ensures
        r == ascii_lower(c),
{
    if 'A' <= c && c <= 'Z' {
        ((c as u8) + 32) as char
    } else {
        c
    }
}

/// Value of an ASCII decimal digit.
pub open spec fn digit_value(c: char) -> int {
    (c as u32) - ('0' as u32)
}

pub open spec fn is_digit(c: char) -> bool {
    '0' <= c <= '9'
}

/// Value of the decimal digits `s`.
pub open spec fn digits_value(s: Seq<char>) -> int
    decreases s.len(),
{
    if s.len() == 0 {
        0
    } else {
        digits_value(s.drop_last()) * 10 + digit_value(s.last())
    }
}

pub open spec fn all_digits(s: Seq<char>) -> bool {
    forall|i: int| 0 <= i < s.len() ==> is_digit(#[trigger] s[i])
}

/// What `str::parse::<u8>()` accepts: an optional `+` and at least one
/// decimal digit, with a value of at most 255.
pub open spec fn parse_u8_spec(s: Seq<char>) -> Option<u8> {
    let d = if s.len() > 0 && s[0] == '+' {
        s.drop_first()
    } else {
        s
    };
    if d.len() > 0 && all_digits(d) && digits_value(d) <= 255 {
        Some(digits_value(d) as u8)
    } else {
        None
    }
}

proof fn lemma_digits_nonneg(s: Seq<char>)
    requires
        all_digits(s),
    ensures
        digits_value(s) >= 0,
    decreases s.len(),
{
    if s.len() > 0 {
        assert(is_digit(s[s.len() - 1]));
        lemma_digits_nonneg(s.drop_last());
    }
}

/// Once the digits read so far exceed `cap`, more digits keep them
/// above it.
proof fn lemma_digits_grow(s: Seq<char>, k: int)
    requires
        all_digits(s),
        0 <= k <= s.len(),
    ensures
        digits_value(s) >= digits_value(s.take(k)),
    decreases s.len() - k,
{
    if k < s.len() {
        lemma_digits_grow(s, k + 1);
        assert(s.take(k + 1).drop_last() =~= s.take(k));
        assert(is_digit(s[k]));
        assert(all_digits(s.take(k))) by {
            assert forall|i: int| 0 <= i < k implies is_digit(#[trigger] s.take(k)[i]) by {
                assert(s.take(k)[i] == s[i]);
            }
        }
        lemma_digits_nonneg(s.take(k));
    } else {
        assert(s.take(k) =~= s);
    }
}

/// `str::parse::<u8>()`.
pub fn parse_u8(s: &[char]) -> (r: Option<u8>)
    ensures
        r == parse_u8_spec(s@),
{
    let start: usize = if s.len() > 0 && s[0] == '+' {
        1
    } else {
        0
    };
    let ghost d = if s@.len() > 0 && s@[0] == '+' {
        s@.drop_first()
    } else {
        s@
    };
    assert(d =~= s@.skip(start as int));
    if start >= s.len() {
        return None;
    }
    let mut v: u32 = 0;
    let mut i = start;
    while i < s.len()
        invariant
            start <= i <= s.len(),
            start < s.len(),
            d =~= s@.skip(start as int),
            d == (if s@.len() > 0 && s@[0] == '+' {
                s@.drop_first()
            } else {
                s@
            }),
            all_digits(d.take(i - start)),
            v == digits_value(d.take(i - start)),
            v <= 255,
        decreases s.len() - i,
    {
        let c = s[i];
        if !('0' <= c && c <= '9') {
            proof {
                assert(d[i - start] == c);
                assert(!is_digit(d[i - start]));
                assert(!all_digits(d));
            }
            return None;
        }
        let nv = v * 10 + ((c as u32) - ('0' as u32));
        proof {
            let t = d.take(i - start + 1);
            assert(t.drop_last() =~= d.take(i - start));
            assert(t.last() == c);
            assert(digits_value(t) == v * 10 + digit_value(c));
            assert forall|j: int| 0 <= j < t.len() implies is_digit(#[trigger] t[j]) by {
                if j < t.len() - 1 {
                    assert(t[j] == d.take(i - start)[j]);
                }
            }
        }
        if nv > 255 {
            proof {
                if all_digits(d) {
                    lemma_digits_grow(d, i - start + 1);
                    assert(digits_value(d) > 255);
                }
            }
            return None;
        }
        v = nv;
        i += 1;
    }
    assert(d.take(s.len() - start) =~= d);
    Some(v as u8)
}

/// `10^n`.
pub open spec fn pow10(n: nat) -> nat
    decreases n,
{
    if n == 0 {
        1
    } else {
        10 * pow10((n - 1) as nat)
    }
}

/// `b` is digits, or digits, a `.` at index `k`, and digits.
pub open spec fn number_split(b: Seq<char>, k: int) -> bool {
    ||| (k == b.len() && all_digits(b))
    ||| (0 <= k < b.len() && b[k] == '.' && all_digits(b.take(k)) && all_digits(b.skip(k + 1)))
}

/// Millionths of the number with integer digits `ip` and fraction digits
/// `fp` (fraction digits past the sixth are dropped).
pub open spec fn magnitude_micros(ip: Seq<char>, fp: Seq<char>) -> int {
    let n = if fp.len() < 6 {
        fp.len()
    } else {
        6
    };
    digits_value(ip) * 1_000_000 + digits_value(fp.take(n as int)) * pow10((6 - n) as nat)
}

/// The unsigned part of a number text (after an optional sign).
pub open spec fn unsigned_part(s: Seq<char>) -> Seq<char> {
    if s.len() > 0 && (s[0] == '-' || s[0] == '+') {
        s.drop_first()
    } else {
        s
    }
}

/// A decimal number text (`[+-]? digits? ('.' digits?)?` with at least one
/// digit) in millionths, truncated past six fraction digits, its magnitude
/// capped at `i64::MAX`.
pub open spec fn decimal_micros(s: Seq<char>) -> Option<i64> {
    let neg = s.len() > 0 && s[0] == '-';
    let b = unsigned_part(s);
    if b.len() > 0 && b != seq!['.'] && exists|k: int| number_split(b, k) {
        let k = choose|k: int| number_split(b, k);
        let ip = b.take(k);
        let fp = if k < b.len() {
            b.skip(k + 1)
        } else {
            Seq::empty()
        };
        let m = if magnitude_micros(ip, fp) > i64::MAX {
            i64::MAX as int
        } else {
            magnitude_micros(ip, fp)
        };
        Some(
            if neg {
                (-m) as i64
            } else {
                m as i64
            },
        )
    } else {
        None
    }
}

proof fn lemma_split_unique(b: Seq<char>, k1: int, k2: int)
    requires
        number_split(b, k1),
        number_split(b, k2),
    ensures
        k1 == k2,
{
    if k1 < k2 {
        assert(b[k1] == '.');
        if k2 == b.len() {
            assert(!is_digit(b[k1]));
        } else {
            assert(b.take(k2)[k1] == b[k1]);
            assert(!is_digit(b.take(k2)[k1]));
        }
    } else if k2 < k1 {
        assert(b[k2] == '.');
        if k1 == b.len() {
            assert(!is_digit(b[k2]));
        } else {
            assert(b.take(k1)[k2] == b[k2]);
            assert(!is_digit(b.take(k1)[k2]));
        }
    }
}

proof fn lemma_pow10_add(a: nat, b: nat)
    ensures
        pow10(a) * pow10(b) == pow10(a + b),
    decreases a,
{
    if a > 0 {
        let a1 = (a - 1) as nat;
        lemma_pow10_add(a1, b);
        assert(pow10(a1 + b + 1) == 10 * pow10(a1 + b));
        assert(a == a1 + 1);
        assert(pow10(a) * pow10(b) == 10 * (pow10(a1) * pow10(b))) by (nonlinear_arith)
            requires
                pow10(a) == 10 * pow10(a1),
        ;
    } else {
        assert(pow10(a) == 1);
        assert(pow10(a) * pow10(b) == pow10(b)) by (nonlinear_arith)
            requires
                pow10(a) == 1,
        ;
    }
}

/// A character other than the first `.` that is not a digit rules out
/// every split of the unsigned part.
proof fn lemma_no_split(s: Seq<char>, start: int, k: int, i: int)
    requires
        0 <= start <= k <= s.len(),
        start <= i < s.len(),
        i != k,
        !is_digit(s[i]),
        forall|j: int| start <= j < k ==> s[j] != '.',
        k == s.len() || s[k] == '.',
    ensures
        forall|q: int| !number_split(s.skip(start), q),
{
    let b = s.skip(start);
    let kb = k - start;
    let j = i - start;
    assert(b[j] == s[i]);
    assert forall|q: int| !number_split(b, q) by {
        if number_split(b, q) {
            if q == b.len() {
                assert(is_digit(b[j]));
            } else {
                assert(b[q] == '.');
                assert(b[q] == s[q + start]);
                assert(q >= kb);
                if q > kb {
                    assert(b[kb] == s[k]);
                    assert(b.take(q)[kb] == b[kb]);
                    assert(is_digit(b.take(q)[kb]));
                } else if j < q {
                    assert(b.take(q)[j] == b[j]);
                    assert(is_digit(b.take(q)[j]));
                } else {
                    assert(b.skip(q + 1)[j - q - 1] == b[j]);
                    assert(is_digit(b.skip(q + 1)[j - q - 1]));
                }
            }
        }
    }
}

/// With every character but the first `.` a digit, the unsigned part
/// splits at that `.` (or at its end).
proof fn lemma_split_at(s: Seq<char>, start: int, k: int)
    requires
        0 <= start <= k <= s.len(),
        forall|j: int| start <= j < s.len() && j != k ==> is_digit(#[trigger] s[j]),
        k == s.len() || s[k] == '.',
    ensures
        number_split(s.skip(start), k - start),
{
    let b = s.skip(start);
    let kb = k - start;
    if k == s.len() {
        assert forall|j: int| 0 <= j < b.len() implies is_digit(#[trigger] b[j]) by {
            assert(b[j] == s[j + start]);
        }
    } else {
        assert(b[kb] == s[k]);
        assert forall|j: int| 0 <= j < kb implies is_digit(#[trigger] b.take(kb)[j]) by {
            assert(b.take(kb)[j] == s[j + start]);
        }
        assert forall|j: int| 0 <= j < b.skip(kb + 1).len() implies is_digit(
            #[trigger] b.skip(kb + 1)[j],
        ) by {
            assert(b.skip(kb + 1)[j] == s[j + k + 1]);
        }
    }
}

/// The largest integer part whose millionths still fit in `i64`, plus one.
const INT_CAP: u64 = 9_223_372_036_855;

proof fn lemma_cap_step(v: int, d: int)
    requires
        v >= 0,
        0 <= d <= 9,
    ensures
        (if 10 * (if v < INT_CAP { v } else { INT_CAP as int }) + d < INT_CAP {
            10 * (if v < INT_CAP { v } else { INT_CAP as int }) + d
        } else {
            INT_CAP as int
        }) == (if 10 * v + d < INT_CAP {
            10 * v + d
        } else {
            INT_CAP as int
        }),
{
}

/// Value of the digits `s[from..to]`, capped at [`INT_CAP`].
fn capped_digits(s: &[char], from: usize, to: usize) -> (r: u64)
    requires
        from <= to <= s.len(),
        all_digits(s@.subrange(from as int, to as int)),
    ensures
        r == (if digits_value(s@.subrange(from as int, to as int)) < INT_CAP {
            digits_value(s@.subrange(from as int, to as int))
        } else {
            INT_CAP as int
        }),
{
    let mut v: u64 = 0;
    let mut i = from;
    while i < to
        invariant
            from <= i <= to <= s.len(),
            all_digits(s@.subrange(from as int, to as int)),
            v == (if digits_value(s@.subrange(from as int, i as int)) < INT_CAP {
                digits_value(s@.subrange(from as int, i as int))
            } else {
                INT_CAP as int
            }),
        decreases to - i,
    {
        let ghost sub = s@.subrange(from as int, to as int);
        assert(is_digit(sub[i - from]));
        assert(sub[i - from] == s@[i as int]);
        let d = (s[i] as u32 - '0' as u32) as u64;
        let ghost pre = s@.subrange(from as int, i as int);
        let ghost nxt = s@.subrange(from as int, i + 1);
        assert(nxt.drop_last() =~= pre);
        assert(digits_value(nxt) == digits_value(pre) * 10 + d);
        proof {
            assert(all_digits(pre)) by {
                assert forall|j: int| 0 <= j < pre.len() implies is_digit(#[trigger] pre[j]) by {
                    assert(pre[j] == sub[j]);
                }
            }
            lemma_digits_nonneg(pre);
            lemma_cap_step(digits_value(pre), d as int);
        }
        let w = v * 10 + d;
        v = if w < INT_CAP {
            w
        } else {
            INT_CAP
        };
        i += 1;
    }
    v
}

/// Value of the digits `s[from..to]`, which are at most six.
fn small_digits(s: &[char], from: usize, to: usize) -> (r: u64)
    requires
        from <= to <= s.len(),
        to - from <= 6,
        all_digits(s@.subrange(from as int, to as int)),
    ensures
        r == digits_value(s@.subrange(from as int, to as int)),
        r < pow10((to - from) as nat),
{
    let mut v: u64 = 0;
    let mut i = from;
    while i < to
        invariant
            from <= i <= to <= s.len(),
            to - from <= 6,
            all_digits(s@.subrange(from as int, to as int)),
            v == digits_value(s@.subrange(from as int, i as int)),
            v < pow10((i - from) as nat),
            pow10((i - from) as nat) <= 1_000_000,
        decreases to - i,
    {
        let ghost sub = s@.subrange(from as int, to as int);
        assert(is_digit(sub[i - from]));
        assert(sub[i - from] == s@[i as int]);
        let d = (s[i] as u32 - '0' as u32) as u64;
        let ghost pre = s@.subrange(from as int, i as int);
        let ghost nxt = s@.subrange(from as int, i + 1);
        assert(nxt.drop_last() =~= pre);
        assert(pow10((i + 1 - from) as nat) == 10 * pow10((i - from) as nat));
        assert(pow10((i + 1 - from) as nat) <= 1_000_000) by {
            reveal_with_fuel(pow10, 7);
        }
        v = v * 10 + d;
        i += 1;
    }
    v
}

fn pow10_exec(n: u64) -> (r: u64)
    requires
        n <= 6,
    ensures
        r == pow10(n as nat),
{
    let mut r: u64 = 1;
    let mut i: u64 = 0;
    while i < n
        invariant
            i <= n <= 6,
            r == pow10(i as nat),
            pow10(i as nat) <= 1_000_000,
        decreases n - i,
    {
        assert(pow10((i + 1) as nat) <= 1_000_000) by {
            reveal_with_fuel(pow10, 7);
        }
        r = r * 10;
        i += 1;
    }
    r
}

/// The first `.` at or after `start` (or the end).
fn find_dot(s: &[char], start: usize) -> (k: usize)
    requires
        start <= s.len(),
    ensures
        start <= k <= s.len(),
        forall|j: int| start <= j < k ==> s@[j] != '.',
        k == s.len() || s@[k as int] == '.',
{
    let mut k = start;
    while k < s.len() && s[k] != '.'
        invariant
            start <= k <= s.len(),
            forall|j: int| start <= j < k ==> s@[j] != '.',
        decreases s.len() - k,
    {
        k += 1;
    }
    k
}

/// The first non-digit at or after `start` other than index `k`.
fn find_non_digit(s: &[char], start: usize, k: usize) -> (r: Option<usize>)
    requires
        start <= s.len(),
    ensures
        match r {
            Some(i) => start <= i < s.len() && i != k && !is_digit(s@[i as int]),
            None => forall|j: int| start <= j < s.len() && j != k ==> is_digit(#[trigger] s@[j]),
        },
{
    let mut i = start;
    while i < s.len()
        invariant
            start <= i <= s.len(),
            forall|j: int| start <= j < i && j != k ==> is_digit(#[trigger] s@[j]),
        decreases s.len() - i,
    {
        if i != k && !('0' <= s[i] && s[i] <= '9') {
            return Some(i);
        }
        i += 1;
    }
    None
}

/// Millionths of the number with integer digits `s[start..k]` and fraction
/// digits after `k`, capped at `i64::MAX`.
fn capped_magnitude(s: &[char], start: usize, k: usize) -> (m: i64)
    requires
        start <= k <= s.len(),
        number_split(s@.skip(start as int), k - start),
    ensures
        m >= 0,
        m as int == (if magnitude_micros(
            s@.skip(start as int).take(k - start),
            if k < s.len() {
                s@.skip(start as int).skip(k - start + 1)
            } else {
                Seq::empty()
            },
        ) > i64::MAX {
            i64::MAX as int
        } else {
            magnitude_micros(
                s@.skip(start as int).take(k - start),
                if k < s.len() {
                    s@.skip(start as int).skip(k - start + 1)
                } else {
                    Seq::empty()
                },
            )
        }),
{
    let n = s.len();
    let ghost b = s@.skip(start as int);
    let ghost kb = k - start;
    let ghost ip = b.take(kb);
    assert(ip =~= s@.subrange(start as int, k as int));
    let int_part = capped_digits(s, start, k);
    let frac_start = if k < n {
        k + 1
    } else {
        n
    };
    let frac_end = if n - frac_start < 6 {
        n
    } else {
        frac_start + 6
    };
    let ghost fp = if k < n {
        b.skip(kb + 1)
    } else {
        Seq::<char>::empty()
    };
    let ghost fn_ = if fp.len() < 6 {
        fp.len()
    } else {
        6
    };
    assert(fp.take(fn_ as int) =~= s@.subrange(frac_start as int, frac_end as int));
    assert(all_digits(s@.subrange(frac_start as int, frac_end as int))) by {
        assert forall|j: int| 0 <= j < frac_end - frac_start implies is_digit(
            #[trigger] s@.subrange(frac_start as int, frac_end as int)[j],
        ) by {
            assert(s@.subrange(frac_start as int, frac_end as int)[j] == fp[j]);
        }
    }
    let frac = small_digits(s, frac_start, frac_end);
    let scale = pow10_exec((6 - (frac_end - frac_start)) as u64);
    proof {
        lemma_digits_nonneg(ip);
        lemma_pow10_add((6 - fn_) as nat, fn_ as nat);
        assert(pow10(6) == 1_000_000) by {
            reveal_with_fuel(pow10, 7);
        }
        assert(frac * scale < 1_000_000) by (nonlinear_arith)
            requires
                frac < pow10(fn_ as nat),
                scale == pow10((6 - fn_) as nat),
                pow10((6 - fn_) as nat) * pow10(fn_ as nat) == 1_000_000,
        ;
    }
    let mag: u128 = (int_part as u128) * 1_000_000 + (frac as u128) * (scale as u128);
    let m: i64 = if mag > (i64::MAX as u128) {
        i64::MAX
    } else {
        mag as i64
    };
    proof {
        let mm = magnitude_micros(ip, fp);
        if digits_value(ip) >= INT_CAP {
            assert(mm > i64::MAX) by (nonlinear_arith)
                requires
                    digits_value(ip) >= INT_CAP,
                    mm == digits_value(ip) * 1_000_000 + frac * scale,
                    frac * scale >= 0,
            ;
            assert(mag > i64::MAX);
        } else {
            assert(mag == mm);
        }
    }
    m
}

/// Parse a decimal number text into millionths (see [`decimal_micros`]).
pub fn parse_decimal_micros(s: &[char]) -> (r: Option<i64>)
    ensures
        r == decimal_micros(s@),
{
    let neg = s.len() > 0 && s[0] == '-';
    let start: usize = if s.len() > 0 && (s[0] == '-' || s[0] == '+') {
        1
    } else {
        0
    };
    let ghost b = unsigned_part(s@);
    assert(b =~= s@.skip(start as int));
    let n = s.len();
    if start >= n {
        return None;
    }
    if n - start == 1 && s[start] == '.' {
        assert(b =~= seq!['.']);
        return None;
    }
    assert(b != seq!['.']) by {
        if b =~= seq!['.'] {
            assert(b[0] == s@[start as int]);
        }
    }
    let k = find_dot(s, start);
    match find_non_digit(s, start, k) {
        Some(i) => {
            proof {
                lemma_no_split(s@, start as int, k as int, i as int);
            }
            return None;
        },
        None => {},
    }
    proof {
        lemma_split_at(s@, start as int, k as int);
        let q = choose|q: int| number_split(b, q);
        lemma_split_unique(b, q, k - start);
    }
    let m = capped_magnitude(s, start, k);
    Some(if neg {
        -m
    } else {
        m
    })
}

/// Decimal numbers lie within `-i64::MAX ..= i64::MAX`.
pub proof fn lemma_decimal_range(s: Seq<char>)
    ensures
        decimal_micros(s) matches Some(v) ==> v > i64::MIN,
{
    let b = unsigned_part(s);
    if b.len() > 0 && b != seq!['.'] && exists|k: int| number_split(b, k) {
        let k = choose|k: int| number_split(b, k);
        let ip = b.take(k);
        let fp = if k < b.len() {
            b.skip(k + 1)
        } else {
            Seq::empty()
        };
        let n = if fp.len() < 6 {
            fp.len()
        } else {
            6
        };
        lemma_digits_nonneg(ip);
        assert(all_digits(fp.take(n as int))) by {
            assert forall|j: int| 0 <= j < n implies is_digit(#[trigger] fp.take(n as int)[j]) by {
                assert(fp.take(n as int)[j] == fp[j]);
                if k < b.len() {
                    assert(fp[j] == b.skip(k + 1)[j]);
                }
            }
        }
        lemma_digits_nonneg(fp.take(n as int));
        assert(magnitude_micros(ip, fp) >= 0) by (nonlinear_arith)
            requires
                digits_value(ip) >= 0,
                digits_value(fp.take(n as int)) >= 0,
                magnitude_micros(ip, fp) == digits_value(ip) * 1_000_000 + digits_value(
                    fp.take(n as int),
                ) * pow10((6 - n) as nat),
        ;
    }
}

/// `e` is where the exponent of a number text begins: its first `e` or
/// `E`.
pub open spec fn exp_at(s: Seq<char>, e: int) -> bool {
    &&& 0 <= e < s.len()
    &&& (s[e] == 'e' || s[e] == 'E')
    &&& forall|j: int| 0 <= j < e ==> s[j] != 'e' && s[j] != 'E'
}

/// The value of an exponent text: an optional sign and at least one digit.
pub open spec fn exponent_value(x: Seq<char>) -> Option<int> {
    let d = unsigned_part(x);
    if d.len() > 0 && all_digits(d) {
        Some(
            if x[0] == '-' {
                -digits_value(d)
            } else {
                digits_value(d)
            },
        )
    } else {
        None
    }
}

/// `n` zero digits.
pub open spec fn zeros(n: nat) -> Seq<char> {
    Seq::new(n, |i: int| '0')
}

/// The digits `ds`, whose first `ilen` stand before the decimal point,
/// written as a plain decimal with the point moved `e` places to the right
/// (left for negative `e`).
pub open spec fn place_point(ds: Seq<char>, ilen: int, e: int) -> Seq<char> {
    let p = ilen + e;
    if p <= 0 {
        seq!['0', '.'] + zeros((-p) as nat) + ds
    } else if p >= ds.len() {
        ds + zeros((p - ds.len()) as nat)
    } else {
        ds.take(p) + seq!['.'] + ds.skip(p)
    }
}

/// The plain decimal text `b` (unsigned, split at `k`, see [`number_split`])
/// with its point moved `e` places to the right (left for negative `e`).
pub open spec fn shifted(b: Seq<char>, k: int, e: int) -> Seq<char> {
    let ip = b.take(k);
    let fp = if k < b.len() {
        b.skip(k + 1)
    } else {
        Seq::empty()
    };
    place_point(ip + fp, ip.len() as int, e)
}

/// The largest exponent magnitude read.
pub const MAX_EXPONENT: u64 = 40;

/// A number text in millionths: a decimal (see [`decimal_micros`]),
/// optionally followed by `e` or `E` and a signed exponent of at most
/// [`MAX_EXPONENT`] in magnitude, which moves the decimal point.
pub open spec fn number_micros(s: Seq<char>) -> Option<i64> {
    if exists|e: int| exp_at(s, e) {
        let e = choose|e: int| exp_at(s, e);
        let m = s.take(e);
        let b = unsigned_part(m);
        match exponent_value(s.skip(e + 1)) {
            Some(x) => if -(MAX_EXPONENT as int) <= x <= MAX_EXPONENT as int && decimal_micros(m) is Some {
                let k = choose|k: int| number_split(b, k);
                decimal_micros(m.take(m.len() - b.len()) + shifted(b, k, x))
            } else {
                None
            },
            None => None,
        }
    } else {
        decimal_micros(s)
    }
}

/// A number text never reads as the least `i64`, so its negation fits.
pub proof fn lemma_number_range(s: Seq<char>)
    ensures
        number_micros(s) matches Some(v) ==> v > i64::MIN,
{
    if exists|e: int| exp_at(s, e) {
        let e = choose|e: int| exp_at(s, e);
        let m = s.take(e);
        let b = unsigned_part(m);
        let k = choose|k: int| number_split(b, k);
        match exponent_value(s.skip(e + 1)) {
            Some(x) => {
                lemma_decimal_range(m.take(m.len() - b.len()) + shifted(b, k, x));
            },
            None => {},
        }
    } else {
        lemma_decimal_range(s);
    }
}

/// Append `src` to `out`.
fn push_all(out: &mut Vec<char>, src: &[char])
    ensures
        final(out)@ == old(out)@ + src@,
{
    let ghost start = out@;
    let mut i: usize = 0;
    while i < src.len()
        invariant
            i <= src@.len(),
            out@ == start + src@.take(i as int),
        decreases src@.len() - i,
    {
        out.push(src[i]);
        i += 1;
        assert(out@ =~= start + src@.take(i as int));
    }
    assert(src@.take(i as int) =~= src@);
}

/// Append `n` zero digits to `out`.
fn push_zeros(out: &mut Vec<char>, n: u64)
    ensures
        final(out)@ == old(out)@ + zeros(n as nat),
{
    let ghost start = out@;
    let mut i: u64 = 0;
    while i < n
        invariant
            i <= n,
            out@ == start + zeros(i as nat),
        decreases n - i,
    {
        out.push('0');
        i += 1;
        assert(out@ =~= start + zeros(i as nat));
    }
}

/// The digits `ds` with the decimal point placed (see [`place_point`]).
fn place_point_text(ds: &[char], ilen: usize, xv: i64) -> (r: Vec<char>)
    requires
        ilen <= ds@.len(),
        -(MAX_EXPONENT as int) <= xv <= MAX_EXPONENT as int,
    ensures
        r@ == place_point(ds@, ilen as int, xv as int),
{
    let p: i128 = ilen as i128 + xv as i128;
    let dlen = ds.len();
    let mut out: Vec<char> = Vec::new();
    if p <= 0 {
        out.push('0');
        out.push('.');
        push_zeros(&mut out, (-p) as u64);
        push_all(&mut out, ds);
        assert(out@ =~= seq!['0', '.'] + zeros((-p) as nat) + ds@);
    } else if p >= dlen as i128 {
        push_all(&mut out, ds);
        push_zeros(&mut out, (p - dlen as i128) as u64);
    } else {
        let pu = p as usize;
        push_all(&mut out, &ds[0..pu]);
        out.push('.');
        push_all(&mut out, &ds[pu..dlen]);
        assert(ds@.subrange(0, pu as int) =~= ds@.take(pu as int));
        assert(ds@.subrange(pu as int, dlen as int) =~= ds@.skip(pu as int));
        assert(out@ =~= ds@.take(pu as int) + seq!['.'] + ds@.skip(pu as int));
    }
    out
}

/// Read a number text into millionths (see [`number_micros`]).
#[verifier::rlimit(60)]
#[verifier::spinoff_prover]
pub fn parse_number_micros(s: &[char]) -> (r: Option<i64>)
    ensures
        r == number_micros(s@),
{
    let n = s.len();
    let mut e: usize = 0;
    while e < n && s[e] != 'e' && s[e] != 'E'
        invariant
            e <= n == s@.len(),
            forall|j: int| 0 <= j < e ==> s@[j] != 'e' && s@[j] != 'E',
        decreases n - e,
    {
        e += 1;
    }
    if e == n {
        proof {
            if exists|q: int| exp_at(s@, q) {
                let q = choose|q: int| exp_at(s@, q);
                assert(s@[q] != 'e' && s@[q] != 'E');
            }
        }
        return parse_decimal_micros(s);
    }
    proof {
        assert(exp_at(s@, e as int));
        let q = choose|q: int| exp_at(s@, q);
        if q < e {
            assert(s@[q] != 'e' && s@[q] != 'E');
        } else if e < q {
            assert(s@[e as int] != 'e' && s@[e as int] != 'E');
        }
    }
    let m = &s[0..e];
    let x = &s[e + 1..n];
    assert(m@ =~= s@.take(e as int));
    assert(x@ =~= s@.skip(e + 1));
    // The exponent.
    let xs: usize = if x.len() > 0 && (x[0] == '-' || x[0] == '+') {
        1
    } else {
        0
    };
    let ghost d = unsigned_part(x@);
    assert(d =~= x@.skip(xs as int));
    if xs >= x.len() {
        return None;
    }
    match find_non_digit(x, xs, x.len()) {
        Some(i) => {
            proof {
                assert(d[i - xs] == x@[i as int]);
            }
            return None;
        },
        None => {},
    }
    assert(all_digits(d)) by {
        assert forall|j: int| 0 <= j < d.len() implies is_digit(#[trigger] d[j]) by {
            assert(d[j] == x@[j + xs]);
        }
    }
    assert(x@.subrange(xs as int, x.len() as int) =~= d);
    let mag = capped_digits(x, xs, x.len());
    if mag > MAX_EXPONENT {
        return None;
    }
    let xv: i64 = if x[0] == '-' {
        -(mag as i64)
    } else {
        mag as i64
    };
    // The mantissa.
    if parse_decimal_micros(m).is_none() {
        return None;
    }
    let start: usize = if m.len() > 0 && (m[0] == '-' || m[0] == '+') {
        1
    } else {
        0
    };
    let ghost b = unsigned_part(m@);
    assert(b =~= m@.skip(start as int));
    let k = find_dot(m, start);
    match find_non_digit(m, start, k) {
        Some(i) => {
            proof {
                lemma_no_split(m@, start as int, k as int, i as int);
            }
            return None;
        },
        None => {},
    }
    proof {
        lemma_split_at(m@, start as int, k as int);
        let q = choose|q: int| number_split(b, q);
        lemma_split_unique(b, q, k - start);
    }
    // The digits, and where the point goes.
    let mut ds: Vec<char> = Vec::new();
    push_all(&mut ds, &m[start..k]);
    let fs = if k < m.len() {
        k + 1
    } else {
        m.len()
    };
    push_all(&mut ds, &m[fs..m.len()]);
    let ghost kb = k - start;
    let ghost ip = b.take(kb);
    let ghost fp = if kb < b.len() {
        b.skip(kb + 1)
    } else {
        Seq::<char>::empty()
    };
    assert(m@.subrange(start as int, k as int) =~= ip);
    assert(m@.subrange(fs as int, m.len() as int) =~= fp);
    assert(ds@ =~= ip + fp);
    let mut out: Vec<char> = Vec::new();
    if start == 1 {
        out.push(m[0]);
    }
    assert(out@ =~= m@.take(m.len() - b.len()));
    let body = place_point_text(ds.as_slice(), k - start, xv);
    push_all(&mut out, body.as_slice());
    parse_decimal_micros(out.as_slice())
}

/// The words of `s`: its maximal runs of characters other than
/// whitespace, in order.
pub open spec fn words(s: Seq<char>) -> Seq<Seq<char>>
    decreases s.len(),
{
    if s.len() == 0 {
        Seq::empty()
    } else {
        let w = words(s.drop_last());
        let c = s.last();
        if is_whitespace(c) {
            w
        } else if s.len() == 1 || is_whitespace(s[s.len() - 2]) {
            w.push(seq![c])
        } else {
            w.update(w.len() - 1, w.last().push(c))
        }
    }
}

/// The texts of `v`.
pub open spec fn texts(v: Seq<String>) -> Seq<Seq<char>> {
    v.map_values(|w: String| w@)
}

/// A command line split into its words (see [`words`]): the program to
/// run, then its arguments.
pub fn command_words(cmd: &str) -> (r: Vec<String>)
    ensures
        texts(r@) == words(cmd@),
{
    let cs = chars_of(cmd);
    let n = cs.len();
    let mut out: Vec<String> = Vec::new();
    let mut cur: Vec<char> = Vec::new();
    let mut i: usize = 0;
    assert(cs@.take(0) =~= Seq::<char>::empty());
    assert(texts(out@) =~= Seq::<Seq<char>>::empty());
    while i < n
        invariant
            n == cs@.len(),
            i <= n,
            cur@.len() == 0 ==> (i == 0 || is_whitespace(cs@[i - 1])),
            cur@.len() > 0 ==> (i > 0 && !is_whitespace(cs@[i - 1])),
            words(cs@.take(i as int)) == (if cur@.len() == 0 {
                texts(out@)
            } else {
                texts(out@).push(cur@)
            }),
        decreases n - i,
    {
        let c = cs[i];
        let ghost pre = cs@.take(i as int);
        let ghost now = cs@.take(i + 1);
        assert(now.drop_last() =~= pre);
        assert(now.last() == c);
        if is_whitespace_char(c) {
            if cur.len() > 0 {
                let ghost before = out@;
                out.push(string_of(cur.as_slice()));
                assert(texts(out@) =~= texts(before).push(cur@));
                cur = Vec::new();
            }
        } else {
            let ghost before = cur@;
            cur.push(c);
            proof {
                if before.len() > 0 {
                    let w = texts(out@).push(before);
                    assert(w.update(w.len() - 1, w.last().push(c)) =~= texts(out@).push(cur@));
                } else {
                    assert(cur@ =~= seq![c]);
                }
            }
        }
        i += 1;
    }
    assert(cs@.take(n as int) =~= cs@);
    if cur.len() > 0 {
        let ghost before = out@;
        out.push(string_of(cur.as_slice()));
        assert(texts(out@) =~= texts(before).push(cur@));
    }
    out
}

} // verus!
