//! Text helpers used across the library.

use vstd::prelude::*;
use vstd::string::StringSliceAdditionalSpecFns;
use vstd::utf8::{decode_utf8, encode_utf8, encode_utf8_decode_utf8};

verus! {

/// Compares two strings byte by byte.
pub fn str_equals(a: &str, b: &str) -> (r: bool)
    ensures
        r <==> a@ == b@,
{
    let x = a.as_bytes();
    let y = b.as_bytes();
    proof {
        encode_utf8_decode_utf8(a@);
        encode_utf8_decode_utf8(b@);
    }
    if x.len() != y.len() {
        return false;
    }
    let mut i: usize = 0;
    while i < x.len()
        invariant
            x@ == encode_utf8(a@),
            y@ == encode_utf8(b@),
            x@.len() == y@.len(),
            i <= x@.len(),
            forall|j: int| 0 <= j < i ==> x@[j] == y@[j],
        decreases x@.len() - i,
    {
        if x[i] != y[i] {
            return false;
        }
        i = i + 1;
    }
    assert(x@ =~= y@);
    true
}

/// The decimal digits of a number, as ASCII bytes.
pub open spec fn decimal_digits(n: nat) -> Seq<u8>
    decreases n,
{
    if n < 10 {
        seq![(48 + n) as u8]
    } else {
        decimal_digits(n / 10).push((48 + n % 10) as u8)
    }
}

/// Writes a number in decimal, as ASCII bytes.
pub fn decimal_ascii(n: u64) -> (r: Vec<u8>)
    ensures
        r@ == decimal_digits(n as nat),
    decreases n,
{
    if n < 10 {
        let mut v: Vec<u8> = Vec::new();
        v.push((48 + n) as u8);
        v
    } else {
        let mut v = decimal_ascii(n / 10);
        v.push((48 + n % 10) as u8);
        v
    }
}

} // verus!

verus! {

/// The character of a digit below sixteen, lowercase past nine.
pub open spec fn digit_char(d: nat) -> char {
    if d == 0 {
        '0'
    } else if d == 1 {
        '1'
    } else if d == 2 {
        '2'
    } else if d == 3 {
        '3'
    } else if d == 4 {
        '4'
    } else if d == 5 {
        '5'
    } else if d == 6 {
        '6'
    } else if d == 7 {
        '7'
    } else if d == 8 {
        '8'
    } else if d == 9 {
        '9'
    } else if d == 10 {
        'a'
    } else if d == 11 {
        'b'
    } else if d == 12 {
        'c'
    } else if d == 13 {
        'd'
    } else if d == 14 {
        'e'
    } else {
        'f'
    }
}

/// A number written in the given base (ten or sixteen), without leading zeros.
pub open spec fn base_text(n: nat, base: nat) -> Seq<char>
    recommends
        base == 10 || base == 16,
    decreases n,
{
    if n < base || base < 2 {
        seq![digit_char(n)]
    } else {
        proof {
            assert(n / base < n) by (nonlinear_arith)
                requires
                    base >= 2,
                    n >= base,
            ;
        }
        base_text(n / base, base).push(digit_char(n % base))
    }
}

/// A number in decimal, as `{}` formats it.
pub open spec fn decimal_text(n: nat) -> Seq<char> {
    base_text(n, 10)
}

/// A number in lowercase hexadecimal, as `{:x}` formats it.
pub open spec fn hex_text(n: nat) -> Seq<char> {
    base_text(n, 16)
}

/// The one-character text of a digit.
fn digit_str(d: u64) -> (r: &'static str)
    requires
        d < 16,
    ensures
        r@ == seq![digit_char(d as nat)],
{
    proof {
        reveal_strlit("0");
        reveal_strlit("1");
        reveal_strlit("2");
        reveal_strlit("3");
        reveal_strlit("4");
        reveal_strlit("5");
        reveal_strlit("6");
        reveal_strlit("7");
        reveal_strlit("8");
        reveal_strlit("9");
        reveal_strlit("a");
        reveal_strlit("b");
        reveal_strlit("c");
        reveal_strlit("d");
        reveal_strlit("e");
        reveal_strlit("f");
    }
    match d {
        0 => "0",
        1 => "1",
        2 => "2",
        3 => "3",
        4 => "4",
        5 => "5",
        6 => "6",
        7 => "7",
        8 => "8",
        9 => "9",
        10 => "a",
        11 => "b",
        12 => "c",
        13 => "d",
        14 => "e",
        _ => "f",
    }
}

/// Writes a number in base ten or sixteen.
pub fn base_string(n: u128, base: u128) -> (r: String)
    requires
        base == 10 || base == 16,
    ensures
        r@ == base_text(n as nat, base as nat),
    decreases n,
{
    if n < base {
        String::from_str(digit_str(n as u64))
    } else {
        let mut s = base_string(n / base, base);
        s.append(digit_str((n % base) as u64));
        s
    }
}

/// Writes a number in decimal.
pub fn decimal_string(n: u64) -> (r: String)
    ensures
        r@ == decimal_text(n as nat),
{
    base_string(n as u128, 10)
}

/// Writes a number in lowercase hexadecimal.
pub fn hex_string(n: u64) -> (r: String)
    ensures
        r@ == hex_text(n as nat),
{
    base_string(n as u128, 16)
}

/// Writes a 128-bit number in decimal.
pub fn decimal_string_u128(n: u128) -> (r: String)
    ensures
        r@ == decimal_text(n as nat),
{
    base_string(n, 10)
}

} // verus!

verus! {

/// Whether a character occurs in a string.
pub fn contains_char(s: &str, c: char) -> (r: bool)
    ensures
        r == s@.contains(c),
{
    let mut found = false;
    for ch in it: s.chars()
        invariant
            found <==> exists|j: int| 0 <= j < it.index() && it.seq()[j] == c,
    {
        if ch == c {
            found = true;
        }
    }
    found
}

} // verus!

verus! {

/// An ASCII decimal digit.
pub open spec fn is_digit_byte(b: u8) -> bool {
    48 <= b <= 57
}

/// Every byte is a decimal digit.
pub open spec fn all_digit_bytes(t: Seq<u8>) -> bool {
    forall|i: int| 0 <= i < t.len() ==> is_digit_byte(#[trigger] t[i])
}

/// The number that a run of decimal digits spells.
pub open spec fn digits_value(t: Seq<u8>) -> nat
    decreases t.len(),
{
    if t.len() == 0 {
        0
    } else {
        digits_value(t.drop_last()) * 10 + (t.last() - 48) as nat
    }
}

pub proof fn lemma_digits_value_push(t: Seq<u8>, d: u8)
    ensures
        digits_value(t.push(d)) == digits_value(t) * 10 + (d - 48) as nat,
{
    assert(t.push(d).drop_last() =~= t);
}

/// Reads a run of decimal digits `b[lo..hi]` whose value is at most `max`.
pub fn read_number(b: &[u8], lo: usize, hi: usize, max: u128) -> (r: Option<u128>)
    requires
        lo <= hi <= b@.len(),
    ensures
        ({
            let t = b@.subrange(lo as int, hi as int);
            match r {
                Some(v) => all_digit_bytes(t) && v == digits_value(t) && v <= max,
                None => !(all_digit_bytes(t) && digits_value(t) <= max),
            }
        }),
{
    let ghost t = b@.subrange(lo as int, hi as int);
    let mut v: u128 = 0;
    let mut i = lo;
    while i < hi
        invariant
            lo <= i <= hi <= b@.len(),
            t == b@.subrange(lo as int, hi as int),
            all_digit_bytes(t.subrange(0, i - lo)),
            v == digits_value(t.subrange(0, i - lo)),
            v <= max,
        decreases hi - i,
    {
        let d = b[i];
        proof {
            assert(t.subrange(0, i - lo + 1) =~= t.subrange(0, i - lo).push(d));
            lemma_digits_value_push(t.subrange(0, i - lo), d);
        }
        if d < 48 || d > 57 {
            assert(!is_digit_byte(t[i - lo]));
            return None;
        }
        let nv = match v.checked_mul(10) {
            Some(m) => m.checked_add((d - 48) as u128),
            None => None,
        };
        let nv = match nv {
            Some(x) if x <= max => x,
            _ => {
                proof {
                    lemma_digits_prefix_bound(t, i - lo + 1);
                }
                return None;
            },
        };
        v = nv;
        i = i + 1;
    }
    assert(t.subrange(0, hi - lo) =~= t);
    Some(v)
}

/// A longer run of digits is worth at least as much as its prefix.
pub proof fn lemma_digits_prefix_bound(t: Seq<u8>, k: int)
    requires
        0 <= k <= t.len(),
    ensures
        all_digit_bytes(t) ==> digits_value(t.subrange(0, k)) <= digits_value(t),
    decreases t.len() - k,
{
    if k < t.len() && all_digit_bytes(t) {
        lemma_digits_prefix_bound(t, k + 1);
        let p = t.subrange(0, k);
        assert(t.subrange(0, k + 1) =~= p.push(t[k]));
        lemma_digits_value_push(p, t[k]);
    } else if k == t.len() {
        assert(t.subrange(0, k) =~= t);
    }
}

} // verus!

verus! {

/// The characters of a string.
pub fn chars_of(s: &str) -> (r: Vec<char>)
    ensures
        r@ == s@,
{
    let mut v: Vec<char> = Vec::new();
    for ch in it: s.chars()
        invariant
            v@ =~= it.seq().take(it.index() as int),
    {
        v.push(ch);
    }
    v
}

/// A character with the Unicode `White_Space` property, as
/// `char::is_whitespace` tests it.
pub open spec fn is_unicode_whitespace(c: char) -> bool {
    ||| '\u{9}' <= c <= '\u{d}'
    ||| c == ' '
    ||| c == '\u{85}'
    ||| c == '\u{a0}'
    ||| c == '\u{1680}'
    ||| '\u{2000}' <= c <= '\u{200a}'
    ||| c == '\u{2028}'
    ||| c == '\u{2029}'
    ||| c == '\u{202f}'
    ||| c == '\u{205f}'
    ||| c == '\u{3000}'
}

/// Tests a character for the Unicode `White_Space` property.
pub fn is_whitespace(c: char) -> (r: bool)
    ensures
        r == is_unicode_whitespace(c),
{
    ('\u{9}' <= c && c <= '\u{d}') || c == ' ' || c == '\u{85}' || c == '\u{a0}' || c == '\u{1680}'
        || ('\u{2000}' <= c && c <= '\u{200a}') || c == '\u{2028}' || c == '\u{2029}' || c
        == '\u{202f}' || c == '\u{205f}' || c == '\u{3000}'
}

/// The text without leading whitespace.
pub open spec fn trim_start(t: Seq<char>) -> Seq<char>
    decreases t.len(),
{
    if t.len() > 0 && is_unicode_whitespace(t[0]) {
        trim_start(t.drop_first())
    } else {
        t
    }
}

/// The text without trailing whitespace.
pub open spec fn trim_end(t: Seq<char>) -> Seq<char>
    decreases t.len(),
{
    if t.len() > 0 && is_unicode_whitespace(t.last()) {
        trim_end(t.drop_last())
    } else {
        t
    }
}

/// The text without leading and trailing whitespace, as `str::trim` gives.
pub open spec fn trim(t: Seq<char>) -> Seq<char> {
    trim_end(trim_start(t))
}

/// The bounds of `v[lo..hi]` without its leading and trailing whitespace.
pub fn trim_bounds(v: &[char], lo: usize, hi: usize) -> (r: (usize, usize))
    requires
        lo <= hi <= v@.len(),
    ensures
        lo <= r.0 <= r.1 <= hi,
        v@.subrange(r.0 as int, r.1 as int) == trim(v@.subrange(lo as int, hi as int)),
{
    let ghost t = v@.subrange(lo as int, hi as int);
    let mut a = lo;
    while a < hi && is_whitespace(v[a])
        invariant
            lo <= a <= hi <= v@.len(),
            trim_start(t) == trim_start(v@.subrange(a as int, hi as int)),
        decreases hi - a,
    {
        assert(v@.subrange(a as int, hi as int).drop_first() =~= v@.subrange(a + 1, hi as int));
        a = a + 1;
    }
    let ghost s = v@.subrange(a as int, hi as int);
    assert(trim_start(s) == s);
    let mut b = hi;
    while b > a && is_whitespace(v[b - 1])
        invariant
            lo <= a <= b <= hi <= v@.len(),
            s == v@.subrange(a as int, hi as int),
            trim_end(s) == trim_end(v@.subrange(a as int, b as int)),
        decreases b - a,
    {
        assert(v@.subrange(a as int, b as int).drop_last() =~= v@.subrange(a as int, b - 1));
        b = b - 1;
    }
    (a, b)
}

} // verus!

verus! {

/// An unsigned decimal number as `str::parse` reads one: an optional `+`,
/// then one or more digits, at most `max`.
pub open spec fn unsigned_of(b: Seq<u8>, max: nat) -> Option<nat> {
    let d = if b.len() > 0 && b[0] == 43 {
        b.drop_first()
    } else {
        b
    };
    if d.len() > 0 && all_digit_bytes(d) && digits_value(d) <= max {
        Some(digits_value(d))
    } else {
        None
    }
}

/// Reads an unsigned decimal number no larger than `max`, as `str::parse`
/// does for the unsigned integer types.
pub fn parse_unsigned(s: &str, max: u64) -> (r: Option<u64>)
    ensures
        match r {
            Some(v) => unsigned_of(s.spec_bytes(), max as nat) == Some(v as nat),
            None => unsigned_of(s.spec_bytes(), max as nat) is None,
        },
{
    let b = s.as_bytes();
    let lo: usize = if b.len() > 0 && b[0] == 43 {
        1
    } else {
        0
    };
    assert(b@.subrange(lo as int, b@.len() as int) =~= (if b@.len() > 0 && b@[0] == 43 {
        b@.drop_first()
    } else {
        b@
    }));
    if lo >= b.len() {
        return None;
    }
    match read_number(b, lo, b.len(), max as u128) {
        Some(v) => Some(v as u64),
        None => None,
    }
}

/// Reads an unsigned decimal number as `str::parse::<u128>` does.
pub fn parse_u128_text(s: &str) -> (r: Option<u128>)
    ensures
        match r {
            Some(v) => unsigned_of(s.spec_bytes(), u128::MAX as nat) == Some(v as nat),
            None => unsigned_of(s.spec_bytes(), u128::MAX as nat) is None,
        },
{
    let b = s.as_bytes();
    let lo: usize = if b.len() > 0 && b[0] == 43 {
        1
    } else {
        0
    };
    assert(b@.subrange(lo as int, b@.len() as int) =~= (if b@.len() > 0 && b@[0] == 43 {
        b@.drop_first()
    } else {
        b@
    }));
    if lo >= b.len() {
        return None;
    }
    read_number(b, lo, b.len(), u128::MAX)
}

} // verus!

verus! {

/// The decimal text of a number is ASCII and spells the decimal digits.
pub proof fn lemma_decimal_text_bytes(n: nat)
    ensures
        vstd::utf8::is_ascii_chars(decimal_text(n)),
        encode_utf8(decimal_text(n)) == decimal_digits(n),
    decreases n,
{
    lemma_decimal_text_chars(n);
    vstd::utf8::is_ascii_chars_encode_utf8(decimal_text(n));
    assert(encode_utf8(decimal_text(n)) =~= decimal_digits(n));
}

proof fn lemma_digit_char_ascii(d: nat)
    requires
        d < 10,
    ensures
        '0' <= digit_char(d) <= '9',
        digit_char(d) as u8 == 48 + d,
{
}

proof fn lemma_decimal_text_chars(n: nat)
    ensures
        vstd::utf8::is_ascii_chars(decimal_text(n)),
        decimal_text(n).len() == decimal_digits(n).len(),
        forall|i: int| 0 <= i < decimal_text(n).len() ==> #[trigger] decimal_text(n)[i] as u8 == decimal_digits(n)[i],
    decreases n,
{
    reveal_with_fuel(base_text, 2);
    if n < 10 {
        lemma_digit_char_ascii(n);
    } else {
        lemma_decimal_text_chars(n / 10);
        lemma_digit_char_ascii(n % 10);
        assert(decimal_text(n) == decimal_text(n / 10).push(digit_char(n % 10)));
        assert(decimal_digits(n) == decimal_digits(n / 10).push((48 + n % 10) as u8));
    }
}

/// The decimal digits of a number are digits, start with a digit, and are
/// worth the number.
pub proof fn lemma_decimal_digits_value(n: nat)
    ensures
        decimal_digits(n).len() > 0,
        all_digit_bytes(decimal_digits(n)),
        digits_value(decimal_digits(n)) == n,
        decimal_digits(n)[0] != 43,
    decreases n,
{
    if n >= 10 {
        lemma_decimal_digits_value(n / 10);
        let p = decimal_digits(n / 10);
        let d = (48 + n % 10) as u8;
        lemma_digits_value_push(p, d);
        assert(decimal_digits(n) == p.push(d));
        assert(n % 10 < 10);
        assert(d as int == 48 + n % 10);
        assert(digits_value(p.push(d)) == (n / 10) * 10 + n % 10);
        assert((n / 10) * 10 + n % 10 == n) by (nonlinear_arith);
        assert(decimal_digits(n)[0] == p[0]);
    } else {
        let t = decimal_digits(n);
        assert(t.drop_last() =~= Seq::<u8>::empty());
        assert(digits_value(t.drop_last()) == 0);
    }
}

} // verus!

verus! {

/// `i` is the first position of `c` in `t`.
pub open spec fn first_char_at(t: Seq<char>, c: char, i: int) -> bool {
    &&& 0 <= i < t.len()
    &&& t[i] == c
    &&& forall|j: int| 0 <= j < i ==> t[j] != c
}

/// The first position of `c` in `t`, or the length of `t`.
pub open spec fn char_end(t: Seq<char>, c: char) -> int {
    if exists|i: int| first_char_at(t, c, i) {
        choose|i: int| first_char_at(t, c, i)
    } else {
        t.len() as int
    }
}

/// The first position of `c` in `v[lo..]`, as a position in `v`, or the
/// length of `v`.
pub fn find_char(v: &[char], lo: usize, c: char) -> (r: usize)
    requires
        lo <= v@.len(),
    ensures
        lo <= r <= v@.len(),
        r - lo == char_end(v@.subrange(lo as int, v@.len() as int), c),
{
    let ghost t = v@.subrange(lo as int, v@.len() as int);
    let mut i = lo;
    while i < v.len() && v[i] != c
        invariant
            lo <= i <= v@.len(),
            t == v@.subrange(lo as int, v@.len() as int),
            forall|j: int| 0 <= j < i - lo ==> t[j] != c,
        decreases v@.len() - i,
    {
        i = i + 1;
    }
    proof {
        if i < v@.len() {
            assert(first_char_at(t, c, i - lo));
            let k = choose|k: int| first_char_at(t, c, k);
            if k < i - lo {
                assert(t[k] != c);
            } else if k > i - lo {
                assert(t[i - lo] != c);
            }
        } else {
            assert forall|k: int| !first_char_at(t, c, k) by {
                if first_char_at(t, c, k) {
                    assert(t[k] != c);
                }
            }
        }
    }
    i
}

} // verus!
