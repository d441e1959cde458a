//! Byte-level text helpers: ASCII classes, case folding, integer parsing and printing, and
//! slicing of `str` values at character boundaries.

use vstd::prelude::*;
use vstd::string::*;
use vstd::utf8::*;
use vstd::std_specs::iter::IteratorSpec;

verus! {

broadcast use vstd::seq::group_seq_axioms;

/// ASCII whitespace as Rust's `u8::is_ascii_whitespace` and `char::is_ascii_whitespace` define
/// it: space, tab, line feed, form feed and carriage return.
pub open spec fn is_ascii_ws(b: u8) -> bool {
    b == 0x20 || b == 0x09 || b == 0x0a || b == 0x0c || b == 0x0d
}

/// Maps an ASCII upper-case letter to lower case and leaves every other byte alone.
pub open spec fn lower_byte(b: u8) -> u8 {
    if 0x41 <= b && b <= 0x5a {
        (b + 32) as u8
    } else {
        b
    }
}

/// ASCII lower-casing of a byte string.
pub open spec fn lower_bytes(s: Seq<u8>) -> Seq<u8> {
    s.map_values(|b: u8| lower_byte(b))
}

/// Is the byte an ASCII decimal digit?
pub open spec fn is_digit(b: u8) -> bool {
    0x30 <= b && b <= 0x39
}

/// Is every byte an ASCII decimal digit?
pub open spec fn all_digits(s: Seq<u8>) -> bool {
    forall|i: int| 0 <= i < s.len() ==> is_digit(#[trigger] s[i])
}

/// The value of a string of decimal digits.
pub open spec fn digits_value(s: Seq<u8>) -> int
    decreases s.len(),
{
    if s.len() == 0 {
        0
    } else {
        digits_value(s.drop_last()) * 10 + (s.last() - 0x30)
    }
}

/// What `str::parse::<i32>` gives: an optional `+` or `-` sign followed by at least one decimal
/// digit and nothing else, whose value fits in an `i32`.
pub open spec fn spec_parse_i32(s: Seq<u8>) -> Option<i32> {
    if s.len() == 0 {
        None
    } else {
        let neg = s[0] == 0x2d;
        let digits = if s[0] == 0x2d || s[0] == 0x2b {
            s.subrange(1, s.len() as int)
        } else {
            s
        };
        if digits.len() == 0 || !all_digits(digits) {
            None
        } else {
            let v = if neg {
                -digits_value(digits)
            } else {
                digits_value(digits)
            };
            if i32::MIN <= v && v <= i32::MAX {
                Some(v as i32)
            } else {
                None
            }
        }
    }
}

/// The character for a decimal digit.
pub open spec fn digit_char(d: nat) -> char {
    if d == 0 {
        '0'
    } else if d == 1 {
        '1'
    } else if d == 2 {
        '2'
    } else if d == 3 {
        '3'
    } else if d == 4 {
        '4'
    } else if d == 5 {
        '5'
    } else if d == 6 {
        '6'
    } else if d == 7 {
        '7'
    } else if d == 8 {
        '8'
    } else {
        '9'
    }
}

/// Decimal notation of a natural number, without leading zeros.
pub open spec fn decimal_nat(n: nat) -> Seq<char>
    decreases n,
{
    if n < 10 {
        seq![digit_char(n)]
    } else {
        decimal_nat(n / 10) + seq![digit_char(n % 10)]
    }
}

/// Decimal notation of an integer, as `Display` prints it.
pub open spec fn decimal_int(n: int) -> Seq<char> {
    if n < 0 {
        seq!['-'] + decimal_nat((-n) as nat)
    } else {
        decimal_nat(n as nat)
    }
}

/// A byte that is ASCII is a character boundary, and so is the position just after it.
pub proof fn lemma_ascii_boundary(b: Seq<u8>, i: int)
    requires
        valid_utf8(b),
        0 <= i < b.len(),
        b[i] < 0x80,
    ensures
        is_char_boundary(b, i),
        is_char_boundary(b, i + 1),
{
    is_char_boundary_iff_not_is_continuation_byte(b, i);
    if i + 1 == b.len() {
        is_char_boundary_start_end_of_seq(b);
    } else {
        lemma_after_ascii(b, i);
        is_char_boundary_iff_not_is_continuation_byte(b, i + 1);
    }
}

proof fn lemma_after_ascii(b: Seq<u8>, i: int)
    requires
        valid_utf8(b),
        0 <= i,
        i + 1 < b.len(),
        b[i] < 0x80,
    ensures
        !is_continuation_byte(b[i + 1]),
    decreases b.len(),
{
    reveal_with_fuel(valid_utf8, 2);
    let l = length_of_first_scalar(b);
    let p = pop_first_scalar(b);
    if i < l {
        assert(i == 0);
        assert(l == 1);
        assert(p[0] == b[1]);
        assert(valid_first_scalar(p));
    } else {
        assert(p[i - l] == b[i]);
        assert(p[i - l + 1] == b[i + 1]);
        lemma_after_ascii(p, i - l);
    }
}

/// The bytes of a string slice are valid UTF-8.
pub proof fn lemma_str_valid(s: &str)
    ensures
        valid_utf8(s.spec_bytes()),
{
    encode_utf8_valid_utf8(s@);
}

/// A string slice is determined by its bytes.
pub proof fn lemma_bytes_determine_chars(a: &str, b: &str)
    requires
        a.spec_bytes() == b.spec_bytes(),
    ensures
        a@ == b@,
{
    encode_utf8_decode_utf8(a@);
    encode_utf8_decode_utf8(b@);
}

/// The bytes of a string slice decode to its characters.
pub proof fn lemma_decode_bytes(a: &str)
    ensures
        decode_utf8(a.spec_bytes()) == a@,
{
    encode_utf8_decode_utf8(a@);
}

/// The part of `s` between the byte offsets `start` and `end`, which must be character
/// boundaries.
pub fn str_slice<'a>(s: &'a str, start: usize, end: usize) -> (r: &'a str)
    requires
        start <= end <= s.spec_bytes().len(),
        is_char_boundary(s.spec_bytes(), start as int),
        is_char_boundary(s.spec_bytes(), end as int),
    ensures
        r.spec_bytes() == s.spec_bytes().subrange(start as int, end as int),
{
    proof {
        lemma_str_valid(s);
    }
    let ghost b = s.spec_bytes();
    let (head, _tail) = s.split_at(end);
    proof {
        let h = b.subrange(0, end as int);
        assert(head.spec_bytes() == h);
        valid_utf8_split(b, end as int);
        if start < end {
            is_char_boundary_iff_not_is_continuation_byte(b, start as int);
            is_char_boundary_iff_not_is_continuation_byte(h, start as int);
        } else {
            is_char_boundary_start_end_of_seq(h);
        }
    }
    let (_skip, r) = head.split_at(start);
    proof {
        assert(r.spec_bytes() =~= b.subrange(start as int, end as int));
    }
    r
}

/// Are two byte strings equal?
pub fn bytes_eq(a: &[u8], b: &[u8]) -> (r: bool)
    ensures
        r == (a@ == b@),
{
    if a.len() != b.len() {
        return false;
    }
    let mut i: usize = 0;
    while i < a.len()
        invariant
            a@.len() == b@.len(),
            i <= a@.len(),
            forall|j: int| 0 <= j < i ==> a@[j] == b@[j],
        decreases a@.len() - i,
    {
        if a[i] != b[i] {
            return false;
        }
        i = i + 1;
    }
    assert(a@ =~= b@);
    true
}

/// Are two string slices equal, byte for byte?
pub fn str_eq(a: &str, b: &str) -> (r: bool)
    ensures
        r == (a.spec_bytes() == b.spec_bytes()),
        r == (a@ == b@),
{
    let r = bytes_eq(a.as_bytes(), b.as_bytes());
    proof {
        if a@ == b@ {
            assert(a.spec_bytes() == b.spec_bytes());
        }
        if r {
            lemma_bytes_determine_chars(a, b);
        }
    }
    r
}

/// ASCII lower-casing, as `str::to_ascii_lowercase` does it, on bytes.
pub fn ascii_lowercase(a: &[u8]) -> (r: Vec<u8>)
    ensures
        r@ == lower_bytes(a@),
{
    let mut r: Vec<u8> = Vec::new();
    let mut i: usize = 0;
    while i < a.len()
        invariant
            i <= a@.len(),
            r@ =~= lower_bytes(a@.take(i as int)),
        decreases a@.len() - i,
    {
        let b = a[i];
        let l: u8 = if 0x41 <= b && b <= 0x5a {
            b + 32
        } else {
            b
        };
        r.push(l);
        i = i + 1;
        assert(a@.take(i as int) =~= a@.take(i - 1).push(b));
    }
    assert(a@.take(a@.len() as int) =~= a@);
    r
}

/// Is the byte ASCII whitespace?
pub fn ascii_ws(b: u8) -> (r: bool)
    ensures
        r == is_ascii_ws(b),
{
    b == 0x20 || b == 0x09 || b == 0x0a || b == 0x0c || b == 0x0d
}

proof fn lemma_digits_value_push(s: Seq<u8>, b: u8)
    ensures
        digits_value(s.push(b)) == digits_value(s) * 10 + (b - 0x30),
{
    assert(s.push(b).drop_last() =~= s);
}

proof fn lemma_digits_value_grows(s: Seq<u8>, i: int)
    requires
        0 <= i <= s.len(),
        all_digits(s),
    ensures
        digits_value(s) >= digits_value(s.take(i)),
        digits_value(s.take(i)) >= 0,
    decreases s.len() - i,
{
    if i == s.len() {
        assert(s.take(i) =~= s);
        lemma_digits_value_nonneg(s);
    } else {
        lemma_digits_value_grows(s, i + 1);
        assert(s.take(i + 1) =~= s.take(i).push(s[i]));
        lemma_digits_value_push(s.take(i), s[i]);
        lemma_digits_value_nonneg(s.take(i));
    }
}

proof fn lemma_digits_value_nonneg(s: Seq<u8>)
    requires
        all_digits(s),
    ensures
        digits_value(s) >= 0,
    decreases s.len(),
{
    if s.len() > 0 {
        lemma_digits_value_nonneg(s.drop_last());
    }
}

/// Parse a decimal `i32` the way `str::parse::<i32>` does.
pub fn parse_i32(s: &[u8]) -> (r: Option<i32>)
    ensures
        r == spec_parse_i32(s@),
{
    if s.len() == 0 {
        return None;
    }
    let neg = s[0] == 0x2d;
    let start: usize = if s[0] == 0x2d || s[0] == 0x2b {
        1
    } else {
        0
    };
    let ghost digits = s@.subrange(start as int, s@.len() as int);
    assert(s@.subrange(0, s@.len() as int) =~= s@);
    assert(digits == (if s@[0] == 0x2d || s@[0] == 0x2b {
        s@.subrange(1, s@.len() as int)
    } else {
        s@
    }));
    if start == s.len() {
        return None;
    }
    let mut v: i64 = 0;
    let mut i: usize = start;
    while i < s.len()
        invariant
            start <= i <= s@.len(),
            digits == s@.subrange(start as int, s@.len() as int),
            s@.len() > 0,
            digits == (if s@[0] == 0x2d || s@[0] == 0x2b {
                s@.subrange(1, s@.len() as int)
            } else {
                s@
            }),
            digits.len() > 0,
            all_digits(digits.take(i - start)),
            v == digits_value(digits.take(i - start)),
            0 <= v <= 0x8000_0000,
        decreases s@.len() - i,
    {
        let b = s[i];
        if !(0x30 <= b && b <= 0x39) {
            assert(digits[i - start] == b);
            assert(!is_digit(digits[i - start]));
            assert(!all_digits(digits));
            return None;
        }
        proof {
            assert(digits.take(i - start + 1) =~= digits.take(i - start).push(b));
            lemma_digits_value_push(digits.take(i - start), b);
        }
        v = v * 10 + (b - 0x30) as i64;
        i = i + 1;
        if v > 0x8000_0000 {
            proof {
                if all_digits(digits) {
                    lemma_digits_value_grows(digits, i - start);
                    assert(digits_value(digits) > 0x8000_0000);
                }
            }
            return None;
        }
    }
    assert(digits.take(i - start) =~= digits);
    if neg {
        Some((0 - v) as i32)
    } else if v <= 0x7fff_ffff {
        Some(v as i32)
    } else {
        None
    }
}

/// The one-character string for a decimal digit.
fn digit_str(d: u64) -> (r: &'static str)
    requires
        d < 10,
    ensures
        r@ == seq![digit_char(d as nat)],
{
    proof {
        reveal_strlit("0");
        reveal_strlit("1");
        reveal_strlit("2");
        reveal_strlit("3");
        reveal_strlit("4");
        reveal_strlit("5");
        reveal_strlit("6");
        reveal_strlit("7");
        reveal_strlit("8");
        reveal_strlit("9");
    }
    if d == 0 {
        "0"
    } else if d == 1 {
        "1"
    } else if d == 2 {
        "2"
    } else if d == 3 {
        "3"
    } else if d == 4 {
        "4"
    } else if d == 5 {
        "5"
    } else if d == 6 {
        "6"
    } else if d == 7 {
        "7"
    } else if d == 8 {
        "8"
    } else {
        "9"
    }
}

fn nat_to_string(n: u64) -> (r: String)
    ensures
        r@ == decimal_nat(n as nat),
    decreases n,
{
    if n < 10 {
        String::from_str(digit_str(n))
    } else {
        let head = nat_to_string(n / 10);
        head.concat(digit_str(n % 10))
    }
}

/// Decimal notation of an `i32`, as `Display` prints it.
pub fn i32_to_string(n: i32) -> (r: String)
    ensures
        r@ == decimal_int(n as int),
{
    if n < 0 {
        let m: u64 = (0 - (n as i64)) as u64;
        proof {
            reveal_strlit("-");
        }
        String::from_str("-").concat(nat_to_string(m).as_str())
    } else {
        nat_to_string(n as u64)
    }
}

/// White space as `char::is_whitespace` defines it (the Unicode `White_Space` property).
pub open spec fn is_ws_char(c: char) -> bool {
    ('\t' <= c && c <= '\r') || c == ' ' || c == '\u{85}' || c == '\u{a0}' || c == '\u{1680}' || (
    '\u{2000}' <= c && c <= '\u{200a}') || c == '\u{2028}' || c == '\u{2029}' || c == '\u{202f}'
        || c == '\u{205f}' || c == '\u{3000}'
}

/// The first position at or after `i` that is not white space.
pub open spec fn lead_ws(s: Seq<char>, i: int) -> int
    decreases s.len() - i,
{
    if 0 <= i < s.len() && is_ws_char(s[i]) {
        lead_ws(s, i + 1)
    } else {
        i
    }
}

/// The end of `s`, at most `j`, once the white space before `j` and after `lo` is dropped.
pub open spec fn trail_ws(s: Seq<char>, j: int, lo: int) -> int
    decreases j - lo,
{
    if lo < j && j <= s.len() && is_ws_char(s[j - 1]) {
        trail_ws(s, j - 1, lo)
    } else {
        j
    }
}

/// `str::trim`: the text without leading and trailing white space.
pub open spec fn trim_chars(s: Seq<char>) -> Seq<char> {
    let a = lead_ws(s, 0);
    s.subrange(a, trail_ws(s, s.len() as int, a))
}

/// ASCII lower-casing of one character.
pub open spec fn lower_char(c: char) -> char {
    if 'A' <= c && c <= 'Z' {
        ((c as u32) + 32) as char
    } else {
        c
    }
}

/// ASCII lower-casing of text.
pub open spec fn lower_chars(s: Seq<char>) -> Seq<char> {
    s.map_values(|c: char| lower_char(c))
}

/// Is the character white space?
pub fn ws_char(c: char) -> (r: bool)
    ensures
        r == is_ws_char(c),
{
    ('\t' <= c && c <= '\r') || c == ' ' || c == '\u{85}' || c == '\u{a0}' || c == '\u{1680}' || (
    '\u{2000}' <= c && c <= '\u{200a}') || c == '\u{2028}' || c == '\u{2029}' || c == '\u{202f}'
        || c == '\u{205f}' || c == '\u{3000}'
}

/// The characters of a string slice.
pub fn str_chars(s: &str) -> (r: Vec<char>)
    ensures
        r@ == s@,
{
    broadcast use vstd::string::group_string_axioms;

    let mut it = s.chars();
    let mut r: Vec<char> = Vec::new();
    loop
        invariant
            r@ + it.remaining() == s@,
            it.obeys_prophetic_iter_laws(),
        ensures
            r@ == s@,
        decreases s@.len() - r@.len(),
    {
        let ghost before = it.remaining();
        match it.next() {
            Some(c) => {
                r.push(c);
                assert(r@ + it.remaining() =~= s@);
            },
            None => {
                assert(r@ =~= s@);
                break;
            },
        }
    }
    r
}

/// Do the characters equal those of the string slice?
pub fn chars_eq_str(v: &[char], lit: &str) -> (r: bool)
    ensures
        r == (v@ == lit@),
{
    let other = str_chars(lit);
    if v.len() != other.len() {
        return false;
    }
    let mut i: usize = 0;
    while i < v.len()
        invariant
            v@.len() == other@.len(),
            other@ == lit@,
            i <= v@.len(),
            forall|j: int| 0 <= j < i ==> v@[j] == other@[j],
        decreases v@.len() - i,
    {
        if v[i] != other[i] {
            return false;
        }
        i = i + 1;
    }
    assert(v@ =~= other@);
    true
}

/// The characters from `a` to `b`.
pub fn sub_chars(v: &[char], a: usize, b: usize) -> (r: Vec<char>)
    requires
        a <= b <= v@.len(),
    ensures
        r@ == v@.subrange(a as int, b as int),
{
    let mut r: Vec<char> = Vec::new();
    let mut i: usize = a;
    while i < b
        invariant
            a <= i <= b,
            b <= v@.len(),
            r@ == v@.subrange(a as int, i as int),
        decreases b - i,
    {
        r.push(v[i]);
        i = i + 1;
        assert(r@ =~= v@.subrange(a as int, i as int));
    }
    r
}

/// `str::trim` on characters.
pub fn trim_char_vec(v: &[char]) -> (r: Vec<char>)
    ensures
        r@ == trim_chars(v@),
{
    let mut i: usize = 0;
    while i < v.len() && ws_char(v[i])
        invariant
            i <= v@.len(),
            lead_ws(v@, i as int) == lead_ws(v@, 0),
        decreases v@.len() - i,
    {
        i = i + 1;
    }
    let mut j: usize = v.len();
    while j > i && ws_char(v[j - 1])
        invariant
            i <= j <= v@.len(),
            i == lead_ws(v@, 0),
            trail_ws(v@, j as int, i as int) == trail_ws(v@, v@.len() as int, i as int),
        decreases j - i,
    {
        j = j - 1;
    }
    sub_chars(v, i, j)
}

/// ASCII lower-casing of characters.
pub fn lower_char_vec(v: &[char]) -> (r: Vec<char>)
    ensures
        r@ == lower_chars(v@),
{
    let mut r: Vec<char> = Vec::new();
    let mut i: usize = 0;
    while i < v.len()
        invariant
            i <= v@.len(),
            r@ == lower_chars(v@.take(i as int)),
        decreases v@.len() - i,
    {
        let c = v[i];
        let l = if 'A' <= c && c <= 'Z' {
            ((c as u8) + 32) as char
        } else {
            c
        };
        r.push(l);
        i = i + 1;
        assert(r@ =~= lower_chars(v@.take(i as int)));
    }
    assert(v@.take(v@.len() as int) =~= v@);
    r
}

} // verus!
