//! Decimal, hexadecimal and timestamp text formats.

use vstd::prelude::*;

use crate::toc_datetime::spec_civil_valid;
use crate::toc_datetime::days_in_month;
use crate::toc_datetime::CivilDateTime;
use crate::utils::string_push_char;

verus! {

/// The digit character for a value in `[0, 10)`.
pub open spec fn spec_digit(d: int) -> char {
    if d == 0 {
        '0'
    } else if d == 1 {
        '1'
    } else if d == 2 {
        '2'
    } else if d == 3 {
        '3'
    } else if d == 4 {
        '4'
    } else if d == 5 {
        '5'
    } else if d == 6 {
        '6'
    } else if d == 7 {
        '7'
    } else if d == 8 {
        '8'
    } else {
        '9'
    }
}

/// The value of a digit character, or `-1` for any other character.
pub open spec fn spec_digit_value(c: char) -> int {
    if c == '0' {
        0
    } else if c == '1' {
        1
    } else if c == '2' {
        2
    } else if c == '3' {
        3
    } else if c == '4' {
        4
    } else if c == '5' {
        5
    } else if c == '6' {
        6
    } else if c == '7' {
        7
    } else if c == '8' {
        8
    } else if c == '9' {
        9
    } else {
        -1
    }
}

/// Reading back a digit gives the value.
pub proof fn lemma_digit_roundtrip(d: int)
    requires
        0 <= d < 10,
    ensures
        spec_digit_value(spec_digit(d)) == d,
{
}

/// The decimal digits of a non-negative value.
pub open spec fn spec_nat_decimal(n: int) -> Seq<char>
    recommends
        n >= 0,
    decreases n,
{
    if n < 10 {
        seq![spec_digit(n)]
    } else {
        spec_nat_decimal(n / 10) + seq![spec_digit(n % 10)]
    }
}

/// The decimal text of a signed value: a minus sign, then the digits
/// of the absolute value.
pub open spec fn spec_int_decimal(v: int) -> Seq<char> {
    if v < 0 {
        seq!['-'] + spec_nat_decimal(-v)
    } else {
        spec_nat_decimal(v)
    }
}

fn digit_char(d: u64) -> (r: char)
    requires
        d < 10,
    ensures
        r == spec_digit(d as int),
{
    if d == 0 {
        '0'
    } else if d == 1 {
        '1'
    } else if d == 2 {
        '2'
    } else if d == 3 {
        '3'
    } else if d == 4 {
        '4'
    } else if d == 5 {
        '5'
    } else if d == 6 {
        '6'
    } else if d == 7 {
        '7'
    } else if d == 8 {
        '8'
    } else {
        '9'
    }
}

fn nat_to_string(n: u64) -> (r: String)
    ensures
        r@ == spec_nat_decimal(n as int),
    decreases n,
{
    if n < 10 {
        let mut s = String::new();
        string_push_char(&mut s, digit_char(n));
        proof {
            assert(s@ =~= spec_nat_decimal(n as int));
        }
        s
    } else {
        let mut s = nat_to_string(n / 10);
        string_push_char(&mut s, digit_char(n % 10));
        proof {
            assert(s@ =~= spec_nat_decimal(n as int));
        }
        s
    }
}

/// The decimal text of a signed 64-bit value above the minimum.
pub fn int_to_string(v: i64) -> (r: String)
    requires
        v > i64::MIN,
    ensures
        r@ == spec_int_decimal(v as int),
{
    if v < 0 {
        let mut s = String::new();
        string_push_char(&mut s, '-');
        let digits = nat_to_string((-v) as u64);
        s.append(digits.as_str());
        proof {
            assert(s@ =~= spec_int_decimal(v as int));
        }
        s
    } else {
        nat_to_string(v as u64)
    }
}

/// A value in `[0, 100)` as exactly two digits.
pub open spec fn spec_pad2(n: int) -> Seq<char> {
    seq![spec_digit(n / 10 % 10), spec_digit(n % 10)]
}

/// A value in `[0, 10000)` as exactly four digits.
pub open spec fn spec_pad4(n: int) -> Seq<char> {
    seq![spec_digit(n / 1000 % 10), spec_digit(n / 100 % 10), spec_digit(n / 10 % 10), spec_digit(
        n % 10,
    )]
}

fn push_pad2(s: &mut String, n: u64)
    requires
        n < 100,
    ensures
        final(s)@ == old(s)@ + spec_pad2(n as int),
{
    string_push_char(s, digit_char(n / 10 % 10));
    string_push_char(s, digit_char(n % 10));
    proof {
        assert(s@ =~= old(s)@ + spec_pad2(n as int));
    }
}

fn push_pad4(s: &mut String, n: u64)
    requires
        n < 10000,
    ensures
        final(s)@ == old(s)@ + spec_pad4(n as int),
{
    string_push_char(s, digit_char(n / 1000 % 10));
    string_push_char(s, digit_char(n / 100 % 10));
    string_push_char(s, digit_char(n / 10 % 10));
    string_push_char(s, digit_char(n % 10));
    proof {
        assert(s@ =~= old(s)@ + spec_pad4(n as int));
    }
}

/// A civil date-time in `YYYY-MM-DD HH:MM:SS` form.
pub open spec fn spec_civil_string(c: CivilDateTime) -> Seq<char> {
    spec_pad4(c.year as int) + seq!['-'] + spec_pad2(c.month as int) + seq!['-'] + spec_pad2(
        c.day as int,
    ) + seq![' '] + spec_pad2(c.hour as int) + seq![':'] + spec_pad2(c.minute as int) + seq![':']
        + spec_pad2(c.second as int)
}

/// Formats a valid civil date-time as `YYYY-MM-DD HH:MM:SS`.
pub fn civil_to_string(c: &CivilDateTime) -> (r: String)
    requires
        spec_civil_valid(*c),
    ensures
        r@ == spec_civil_string(*c),
{
    let mut s = String::new();
    push_pad4(&mut s, c.year as u64);
    string_push_char(&mut s, '-');
    push_pad2(&mut s, c.month as u64);
    string_push_char(&mut s, '-');
    push_pad2(&mut s, c.day as u64);
    string_push_char(&mut s, ' ');
    push_pad2(&mut s, c.hour as u64);
    string_push_char(&mut s, ':');
    push_pad2(&mut s, c.minute as u64);
    string_push_char(&mut s, ':');
    push_pad2(&mut s, c.second as u64);
    proof {
        assert(s@ =~= spec_civil_string(*c));
    }
    s
}

/// The two-digit number at `i`, or `-1` when either character is not a
/// digit.
pub open spec fn spec_num2_at(s: Seq<char>, i: int) -> int {
    if spec_digit_value(s[i]) >= 0 && spec_digit_value(s[i + 1]) >= 0 {
        10 * spec_digit_value(s[i]) + spec_digit_value(s[i + 1])
    } else {
        -1
    }
}

/// The four-digit number at `i`, or `-1` when some character is not a
/// digit.
pub open spec fn spec_num4_at(s: Seq<char>, i: int) -> int {
    if spec_num2_at(s, i) >= 0 && spec_num2_at(s, i + 2) >= 0 {
        100 * spec_num2_at(s, i) + spec_num2_at(s, i + 2)
    } else {
        -1
    }
}

/// The civil date-time denoted by a strict `YYYY-MM-DD HH:MM:SS` text,
/// or nothing when the shape or the calendar check fails.
pub open spec fn spec_parse_civil(s: Seq<char>) -> Option<CivilDateTime> {
    if s.len() != 19 {
        None
    } else if s[4] != '-' || s[7] != '-' || s[10] != ' ' || s[13] != ':' || s[16] != ':' {
        None
    } else {
        let year = spec_num4_at(s, 0);
        let month = spec_num2_at(s, 5);
        let day = spec_num2_at(s, 8);
        let hour = spec_num2_at(s, 11);
        let minute = spec_num2_at(s, 14);
        let second = spec_num2_at(s, 17);
        if year < 0 || month < 0 || day < 0 || hour < 0 || minute < 0 || second < 0 {
            None
        } else {
            let c = CivilDateTime {
                year: year as i32,
                month: month as i32,
                day: day as i32,
                hour: hour as i32,
                minute: minute as i32,
                second: second as i32,
            };
            if spec_civil_valid(c) {
                Some(c)
            } else {
                None
            }
        }
    }
}

fn digit_value(c: char) -> (r: i32)
    ensures
        r == spec_digit_value(c),
{
    if c == '0' {
        0
    } else if c == '1' {
        1
    } else if c == '2' {
        2
    } else if c == '3' {
        3
    } else if c == '4' {
        4
    } else if c == '5' {
        5
    } else if c == '6' {
        6
    } else if c == '7' {
        7
    } else if c == '8' {
        8
    } else if c == '9' {
        9
    } else {
        -1
    }
}

fn num2_at(v: &Vec<char>, i: usize) -> (r: i32)
    requires
        i + 1 < v@.len(),
    ensures
        r == spec_num2_at(v@, i as int),
{
    let _len_in_range: usize = v.len();
    let a = digit_value(v[i]);
    let b = digit_value(v[i + 1]);
    if a >= 0 && b >= 0 {
        10 * a + b
    } else {
        -1
    }
}

/// Parses a strict `YYYY-MM-DD HH:MM:SS` text into a valid civil
/// date-time.
#[verifier::spinoff_prover]
#[verifier::rlimit(100)]
pub fn parse_civil(text: &str) -> (r: Option<CivilDateTime>)
    ensures
        r == spec_parse_civil(text@),
{
    let v = crate::utils::str_to_chars(text);
    if v.len() != 19 {
        return None;
    }
    if v[4] != '-' || v[7] != '-' || v[10] != ' ' || v[13] != ':' || v[16] != ':' {
        return None;
    }
    let y2a = num2_at(&v, 0);
    let y2b = num2_at(&v, 2);
    let year: i32 = if y2a >= 0 && y2b >= 0 {
        100 * y2a + y2b
    } else {
        -1
    };
    let month = num2_at(&v, 5);
    let day = num2_at(&v, 8);
    let hour = num2_at(&v, 11);
    let minute = num2_at(&v, 14);
    let second = num2_at(&v, 17);
    if year < 0 || month < 0 || day < 0 || hour < 0 || minute < 0 || second < 0 {
        return None;
    }
    let c = CivilDateTime { year, month, day, hour, minute, second };
    if !(year <= 9999 && 1 <= month && month <= 12 && 1 <= day && day <= days_in_month(year, month)
        && hour <= 23 && minute <= 59 && second <= 59) {
        return None;
    }
    Some(c)
}

/// The timestamp text, element by element.
pub open spec fn spec_civil_chars(c: CivilDateTime) -> Seq<char> {
    let yr = c.year as int;
    let mo = c.month as int;
    let dy = c.day as int;
    let hr = c.hour as int;
    let mi = c.minute as int;
    let se = c.second as int;
    seq![
        spec_digit(yr / 1000 % 10),
        spec_digit(yr / 100 % 10),
        spec_digit(yr / 10 % 10),
        spec_digit(yr % 10),
        '-',
        spec_digit(mo / 10 % 10),
        spec_digit(mo % 10),
        '-',
        spec_digit(dy / 10 % 10),
        spec_digit(dy % 10),
        ' ',
        spec_digit(hr / 10 % 10),
        spec_digit(hr % 10),
        ':',
        spec_digit(mi / 10 % 10),
        spec_digit(mi % 10),
        ':',
        spec_digit(se / 10 % 10),
        spec_digit(se % 10),
    ]
}

/// The composed timestamp text equals its element-by-element form.
#[verifier::spinoff_prover]
#[verifier::rlimit(100)]
proof fn lemma_civil_chars(c: CivilDateTime)
    ensures
        spec_civil_string(c) == spec_civil_chars(c),
{
    assert(spec_civil_string(c) =~= spec_civil_chars(c));
}

/// Formatting then parsing a valid civil date-time returns it
/// unchanged.
#[verifier::spinoff_prover]
#[verifier::rlimit(100)]
pub proof fn lemma_civil_roundtrip(c: CivilDateTime)
    requires
        spec_civil_valid(c),
    ensures
        spec_parse_civil(spec_civil_string(c)) == Some(c),
{
    lemma_civil_chars(c);
    let s = spec_civil_string(c);
    let yr = c.year as int;
    let mo = c.month as int;
    let dy = c.day as int;
    let hr = c.hour as int;
    let mi = c.minute as int;
    let se = c.second as int;
    lemma_digit_roundtrip(yr / 1000 % 10);
    lemma_digit_roundtrip(yr / 100 % 10);
    lemma_digit_roundtrip(yr / 10 % 10);
    lemma_digit_roundtrip(yr % 10);
    lemma_digit_roundtrip(mo / 10 % 10);
    lemma_digit_roundtrip(mo % 10);
    lemma_digit_roundtrip(dy / 10 % 10);
    lemma_digit_roundtrip(dy % 10);
    lemma_digit_roundtrip(hr / 10 % 10);
    lemma_digit_roundtrip(hr % 10);
    lemma_digit_roundtrip(mi / 10 % 10);
    lemma_digit_roundtrip(mi % 10);
    lemma_digit_roundtrip(se / 10 % 10);
    lemma_digit_roundtrip(se % 10);
    assert(spec_num4_at(s, 0) == yr) by {
        assert(spec_digit_value(s[0]) == yr / 1000 % 10);
        assert(spec_digit_value(s[1]) == yr / 100 % 10);
        assert(spec_digit_value(s[2]) == yr / 10 % 10);
        assert(spec_digit_value(s[3]) == yr % 10);
        assert(100 * (10 * (yr / 1000 % 10) + yr / 100 % 10) + (10 * (yr / 10 % 10) + yr % 10)
            == yr) by (nonlinear_arith)
            requires
                0 <= yr <= 9999,
        ;
    }
    assert(spec_num2_at(s, 5) == mo) by {
        assert(10 * (mo / 10 % 10) + mo % 10 == mo) by (nonlinear_arith)
            requires
                0 <= mo < 100,
        ;
    }
    assert(spec_num2_at(s, 8) == dy) by {
        assert(10 * (dy / 10 % 10) + dy % 10 == dy) by (nonlinear_arith)
            requires
                0 <= dy < 100,
        ;
    }
    assert(spec_num2_at(s, 11) == hr) by {
        assert(10 * (hr / 10 % 10) + hr % 10 == hr) by (nonlinear_arith)
            requires
                0 <= hr < 100,
        ;
    }
    assert(spec_num2_at(s, 14) == mi) by {
        assert(10 * (mi / 10 % 10) + mi % 10 == mi) by (nonlinear_arith)
            requires
                0 <= mi < 100,
        ;
    }
    assert(spec_num2_at(s, 17) == se) by {
        assert(10 * (se / 10 % 10) + se % 10 == se) by (nonlinear_arith)
            requires
                0 <= se < 100,
        ;
    }
}

/// The hexadecimal digit for a value in `[0, 16)`, lowercase.
pub open spec fn spec_hex_digit(d: int) -> char {
    if d < 10 {
        spec_digit(d)
    } else if d == 10 {
        'a'
    } else if d == 11 {
        'b'
    } else if d == 12 {
        'c'
    } else if d == 13 {
        'd'
    } else if d == 14 {
        'e'
    } else {
        'f'
    }
}

/// A byte as two lowercase hexadecimal digits.
pub open spec fn spec_hex2(b: u8) -> Seq<char> {
    seq![spec_hex_digit(b as int / 16), spec_hex_digit(b as int % 16)]
}

/// The value of a hexadecimal digit character (either case), or `-1`.
pub open spec fn spec_hex_value(c: char) -> int {
    if spec_digit_value(c) >= 0 {
        spec_digit_value(c)
    } else if c == 'a' || c == 'A' {
        10
    } else if c == 'b' || c == 'B' {
        11
    } else if c == 'c' || c == 'C' {
        12
    } else if c == 'd' || c == 'D' {
        13
    } else if c == 'e' || c == 'E' {
        14
    } else if c == 'f' || c == 'F' {
        15
    } else {
        -1
    }
}

/// The accumulated value of a hexadecimal digit run, or `-1` on any
/// non-digit.
pub open spec fn spec_hex_run(s: Seq<char>, acc: int) -> int
    decreases s.len(),
{
    if s.len() == 0 {
        acc
    } else if spec_hex_value(s[0]) < 0 {
        -1
    } else {
        spec_hex_run(s.drop_first(), acc * 16 + spec_hex_value(s[0]))
    }
}

/// The byte a hexadecimal text denotes: an optional plus sign, then
/// hexadecimal digits; an empty run, a stray character or a value over
/// `255` yields `0`.
pub open spec fn spec_parse_hex_byte(s: Seq<char>) -> u8 {
    let t = if s.len() > 0 && s[0] == '+' {
        s.drop_first()
    } else {
        s
    };
    if t.len() == 0 {
        0u8
    } else {
        let v = spec_hex_run(t, 0);
        if 0 <= v <= 255 {
            v as u8
        } else {
            0u8
        }
    }
}

fn hex_digit_char(d: u8) -> (r: char)
    requires
        d < 16,
    ensures
        r == spec_hex_digit(d as int),
{
    if d < 10 {
        digit_char(d as u64)
    } else if d == 10 {
        'a'
    } else if d == 11 {
        'b'
    } else if d == 12 {
        'c'
    } else if d == 13 {
        'd'
    } else if d == 14 {
        'e'
    } else {
        'f'
    }
}

/// A byte as its two-digit lowercase hexadecimal text.
pub fn byte_to_hex(b: u8) -> (r: String)
    ensures
        r@ == spec_hex2(b),
{
    let mut s = String::new();
    string_push_char(&mut s, hex_digit_char(b / 16));
    string_push_char(&mut s, hex_digit_char(b % 16));
    proof {
        assert(s@ =~= spec_hex2(b));
    }
    s
}

fn hex_value(c: char) -> (r: i32)
    ensures
        r == spec_hex_value(c),
{
    let d = digit_value(c);
    if d >= 0 {
        d
    } else if c == 'a' || c == 'A' {
        10
    } else if c == 'b' || c == 'B' {
        11
    } else if c == 'c' || c == 'C' {
        12
    } else if c == 'd' || c == 'D' {
        13
    } else if c == 'e' || c == 'E' {
        14
    } else if c == 'f' || c == 'F' {
        15
    } else {
        -1
    }
}

/// Parses a hexadecimal byte text, yielding `0` on any malformed or
/// out-of-range input.
#[verifier::spinoff_prover]
#[verifier::rlimit(100)]
pub fn hex_to_byte(text: &str) -> (r: u8)
    ensures
        r == spec_parse_hex_byte(text@),
{
    let v = crate::utils::str_to_chars(text);
    let start: usize = if v.len() > 0 && v[0] == '+' {
        1
    } else {
        0
    };
    proof {
        if start == 1 {
            assert(v@.skip(1) =~= v@.drop_first());
        } else {
            assert(v@.skip(0) =~= v@);
        }
    }
    if start >= v.len() {
        proof {
            assert(v@.skip(start as int).len() == 0);
        }
        return 0;
    }
    let mut acc: i64 = 0;
    let mut i: usize = start;
    while i < v.len()
        invariant
            start <= i <= v@.len(),
            v@ == text@,
            start == (if v@.len() > 0 && v@[0] == '+' {
                1int
            } else {
                0int
            }),
            start < v@.len(),
            0 <= acc <= 255,
            spec_hex_run(v@.skip(start as int), 0) == spec_hex_run(v@.skip(i as int), acc as int),
        decreases v@.len() - i,
    {
        proof {
            assert(v@.skip(i as int)[0] == v@[i as int]);
            assert(v@.skip(i as int).drop_first() =~= v@.skip(i as int + 1));
        }
        let h = hex_value(v[i]);
        if h < 0 {
            proof {
                assert(v@.skip(start as int) =~= (if v@.len() > 0 && v@[0] == '+' {
                    v@.drop_first()
                } else {
                    v@
                }));
                assert(spec_hex_run(v@.skip(start as int), 0) == -1);
            }
            return 0;
        }
        acc = acc * 16 + (h as i64);
        if acc > 255 {
            proof {
                lemma_hex_run_grows(v@.skip(i as int + 1), acc as int);
                assert(v@.skip(start as int) =~= (if v@.len() > 0 && v@[0] == '+' {
                    v@.drop_first()
                } else {
                    v@
                }));
            }
            return 0;
        }
        i = i + 1;
    }
    proof {
        assert(v@.skip(v@.len() as int).len() == 0);
        assert(spec_hex_run(v@.skip(start as int), 0) == acc as int);
        assert(v@.skip(start as int) =~= (if v@.len() > 0 && v@[0] == '+' {
            v@.drop_first()
        } else {
            v@
        }));
    }
    acc as u8
}

/// A hexadecimal run never decreases its accumulator.
proof fn lemma_hex_run_grows(s: Seq<char>, acc: int)
    requires
        acc >= 0,
    ensures
        spec_hex_run(s, acc) == -1 || spec_hex_run(s, acc) >= acc,
    decreases s.len(),
{
    if s.len() > 0 && spec_hex_value(s[0]) >= 0 {
        lemma_hex_run_grows(s.drop_first(), acc * 16 + spec_hex_value(s[0]));
    }
}

/// Reading back a byte's hexadecimal text gives the byte.
pub proof fn lemma_hex_roundtrip(b: u8)
    ensures
        spec_parse_hex_byte(spec_hex2(b)) == b,
{
    let s = spec_hex2(b);
    assert(s[0] != '+');
    assert(spec_hex_value(spec_hex_digit(b as int / 16)) == b as int / 16);
    assert(spec_hex_value(spec_hex_digit(b as int % 16)) == b as int % 16);
    assert(s.drop_first() =~= seq![spec_hex_digit(b as int % 16)]);
    assert(s.drop_first().drop_first() =~= Seq::<char>::empty());
    assert((b as int / 16) * 16 + b as int % 16 == b as int) by (nonlinear_arith);
    let d1 = b as int / 16;
    let d2 = b as int % 16;
    assert(spec_hex_run(Seq::<char>::empty(), d1 * 16 + d2) == d1 * 16 + d2);
    assert(spec_hex_run(s.drop_first(), d1) == d1 * 16 + d2);
    assert(spec_hex_run(s, 0) == b as int);
}

} // verus!
