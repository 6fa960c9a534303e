//! Numerals: writing integers as text and reading them back.

use vstd::prelude::*;

use crate::text::{is_digit, lacks, skip};

verus! {

/// The digit character for the value `d`, below sixteen.
pub open spec fn digit_char(d: int) -> char {
    if d == 0 {
        '0'
    } else if d == 1 {
        '1'
    } else if d == 2 {
        '2'
    } else if d == 3 {
        '3'
    } else if d == 4 {
        '4'
    } else if d == 5 {
        '5'
    } else if d == 6 {
        '6'
    } else if d == 7 {
        '7'
    } else if d == 8 {
        '8'
    } else if d == 9 {
        '9'
    } else if d == 10 {
        'a'
    } else if d == 11 {
        'b'
    } else if d == 12 {
        'c'
    } else if d == 13 {
        'd'
    } else if d == 14 {
        'e'
    } else {
        'f'
    }
}

/// The value of the hexadecimal digit `c`, in either case.
pub open spec fn hex_value(c: char) -> Option<int> {
    if '0' <= c && c <= '9' {
        Some(c as int - '0' as int)
    } else if 'a' <= c && c <= 'f' {
        Some(c as int - 'a' as int + 10)
    } else if 'A' <= c && c <= 'F' {
        Some(c as int - 'A' as int + 10)
    } else {
        None
    }
}

/// The value of `c` as a digit of base `radix`.
pub open spec fn digit_value(c: char, radix: int) -> Option<int> {
    match hex_value(c) {
        Some(v) if v < radix => Some(v),
        _ => None,
    }
}

/// The digits of `n` in base `radix`, without leading zeros.
pub open spec fn number_text(n: nat, radix: nat) -> Seq<char>
    decreases n,
    via number_text_decreases
{
    if n < radix || radix < 2 {
        seq![digit_char(n as int)]
    } else {
        number_text(n / radix, radix).push(digit_char((n % radix) as int))
    }
}

#[via_fn]
proof fn number_text_decreases(n: nat, radix: nat) {
    if n >= radix && radix >= 2 {
        assert(n / radix < n) by (nonlinear_arith)
            requires
                n >= radix,
                radix >= 2,
        ;
    }
}

/// The decimal digits of `n`.
pub open spec fn dec_text(n: nat) -> Seq<char> {
    number_text(n, 10)
}

/// The hexadecimal digits of `n`, in lower case.
pub open spec fn hex_text(n: nat) -> Seq<char> {
    number_text(n, 16)
}

/// A hexadecimal digit in upper case.
pub open spec fn upper_digit(c: char) -> char {
    if c == 'a' {
        'A'
    } else if c == 'b' {
        'B'
    } else if c == 'c' {
        'C'
    } else if c == 'd' {
        'D'
    } else if c == 'e' {
        'E'
    } else if c == 'f' {
        'F'
    } else {
        c
    }
}

/// The hexadecimal digits of `n`, in upper case.
pub open spec fn upper_hex(n: nat) -> Seq<char> {
    Seq::new(hex_text(n).len(), |i: int| upper_digit(hex_text(n)[i]))
}

/// `i` in decimal, with a minus sign where it is negative.
pub open spec fn int_text(i: int) -> Seq<char> {
    if i < 0 {
        seq!['-'] + dec_text((-i) as nat)
    } else {
        dec_text(i as nat)
    }
}

/// `n` characters `c`.
pub open spec fn repeated(c: char, n: nat) -> Seq<char> {
    Seq::new(n, |i: int| c)
}

/// The hexadecimal digits of `n`, with leading zeros up to `width` digits.
pub open spec fn hex_padded(n: nat, width: nat) -> Seq<char> {
    let t = hex_text(n);
    if t.len() < width {
        repeated('0', (width - t.len()) as nat) + t
    } else {
        t
    }
}

/// The number that the digits `s` stand for in base `radix`; `None` where a
/// character is no such digit.
pub open spec fn digits_value(s: Seq<char>, radix: nat) -> Option<nat>
    decreases s.len(),
{
    if s.len() == 0 {
        Some(0)
    } else {
        match (digits_value(s.drop_last(), radix), digit_value(s.last(), radix as int)) {
            (Some(v), Some(d)) => Some((v * radix + d) as nat),
            _ => None,
        }
    }
}

/// The unsigned number that `s` spells in base `radix`, at most `max`: digits,
/// with an optional leading `+`.
pub open spec fn parse_nat(s: Seq<char>, radix: nat, max: nat) -> Option<nat> {
    let body = if s.len() > 1 && s[0] == '+' { s.skip(1) } else { s };
    if s.len() == 0 {
        None
    } else {
        match digits_value(body, radix) {
            Some(v) if v <= max => Some(v),
            _ => None,
        }
    }
}

/// The signed decimal number that `s` spells, between `-(max + 1)` and `max`.
pub open spec fn parse_int(s: Seq<char>, max: nat) -> Option<int> {
    if s.len() > 1 && s[0] == '-' {
        match digits_value(s.skip(1), 10) {
            Some(v) if v <= max + 1 => Some(-(v as int)),
            _ => None,
        }
    } else {
        match parse_nat(s, 10, max) {
            Some(v) => Some(v as int),
            None => None,
        }
    }
}

// ---------------------------------------------------------------------------
// Writing
// ---------------------------------------------------------------------------

/// The digit character for `d`.
pub fn digit_char_of(d: u64) -> (c: char)
    requires
        d < 16,
    ensures
        c == digit_char(d as int),
{
    match d {
        0 => '0',
        1 => '1',
        2 => '2',
        3 => '3',
        4 => '4',
        5 => '5',
        6 => '6',
        7 => '7',
        8 => '8',
        9 => '9',
        10 => 'a',
        11 => 'b',
        12 => 'c',
        13 => 'd',
        14 => 'e',
        _ => 'f',
    }
}

/// Append `n` in base `radix`.
pub fn push_number(out: &mut String, n: u64, radix: u64)
    requires
        2 <= radix <= 16,
    ensures
        final(out)@ == old(out)@ + number_text(n as nat, radix as nat),
    decreases n,
{
    if n < radix {
        out.push(digit_char_of(n));
        assert(out@ =~= old(out)@ + number_text(n as nat, radix as nat));
    } else {
        assert(n / radix < n && n % radix < radix) by (nonlinear_arith)
            requires
                2 <= radix <= n,
        ;
        push_number(out, n / radix, radix);
        out.push(digit_char_of(n % radix));
        assert(out@ =~= old(out)@ + number_text(n as nat, radix as nat));
    }
}

/// Append `n` in decimal.
pub fn push_dec(out: &mut String, n: u64)
    ensures
        final(out)@ == old(out)@ + dec_text(n as nat),
{
    push_number(out, n, 10);
}

/// Append `n` in hexadecimal.
pub fn push_hex(out: &mut String, n: u64)
    ensures
        final(out)@ == old(out)@ + hex_text(n as nat),
{
    push_number(out, n, 16);
}

fn to_upper_digit(c: char) -> (r: char)
    ensures
        r == upper_digit(c),
{
    match c {
        'a' => 'A',
        'b' => 'B',
        'c' => 'C',
        'd' => 'D',
        'e' => 'E',
        'f' => 'F',
        _ => c,
    }
}

/// Append `n` in hexadecimal, in upper case.
pub fn push_upper_hex(out: &mut String, n: u64)
    ensures
        final(out)@ == old(out)@ + upper_hex(n as nat),
{
    let mut t = String::new();
    push_hex(&mut t, n);
    let digits = crate::text::chars_of(t.as_str());
    assert(digits@ =~= hex_text(n as nat));
    let mut i: usize = 0;
    assert(out@ =~= old(out)@ + upper_hex(n as nat).take(0));
    while i < digits.len()
        invariant
            i <= digits.len(),
            digits@ == hex_text(n as nat),
            out@ == old(out)@ + upper_hex(n as nat).take(i as int),
        decreases digits.len() - i,
    {
        out.push(to_upper_digit(digits[i]));
        i += 1;
        assert(out@ =~= old(out)@ + upper_hex(n as nat).take(i as int));
    }
    assert(upper_hex(n as nat).take(i as int) =~= upper_hex(n as nat));
}

/// Append `i` in decimal.
pub fn push_int(out: &mut String, i: i64)
    ensures
        final(out)@ == old(out)@ + int_text(i as int),
{
    if i < 0 {
        out.push('-');
        let m: u64 = (-(i as i128)) as u64;
        push_dec(out, m);
        assert(out@ =~= old(out)@ + int_text(i as int));
    } else {
        push_dec(out, i as u64);
    }
}

/// The hexadecimal digits of a number, with leading zeros up to `width` digits.
pub fn push_hex_padded(out: &mut String, n: u64, width: usize)
    ensures
        final(out)@ == old(out)@ + hex_padded(n as nat, width as nat),
{
    let mut t = String::new();
    push_hex(&mut t, n);
    let digits = crate::text::chars_of(t.as_str());
    assert(digits@ =~= hex_text(n as nat));
    let mut k: usize = digits.len();
    while k < width
        invariant
            digits@ == hex_text(n as nat),
            digits.len() <= k,
            k <= width || k == digits.len(),
            out@ == old(out)@ + repeated('0', (k - digits.len()) as nat),
        decreases width - k,
    {
        out.push('0');
        k += 1;
        assert(out@ =~= old(out)@ + repeated('0', (k - digits.len()) as nat));
    }
    crate::text::push_chars(out, digits.as_slice());
    assert(out@ =~= old(out)@ + hex_padded(n as nat, width as nat));
}

// ---------------------------------------------------------------------------
// Reading
// ---------------------------------------------------------------------------

/// The value of `c` as a digit of base `radix`.
pub fn digit_of(c: char, radix: u32) -> (r: Option<u32>)
    requires
        radix <= 16,
    ensures
        match r {
            Some(d) => digit_value(c, radix as int) == Some(d as int) && d < radix,
            None => digit_value(c, radix as int) is None,
        },
{
    let v: u32 = if '0' <= c && c <= '9' {
        c as u32 - '0' as u32
    } else if 'a' <= c && c <= 'f' {
        c as u32 - 'a' as u32 + 10
    } else if 'A' <= c && c <= 'F' {
        c as u32 - 'A' as u32 + 10
    } else {
        return None;
    };
    if v < radix {
        Some(v)
    } else {
        None
    }
}

/// Digits that extend others stand for at least as much.
proof fn lemma_digits_grow(s: Seq<char>, k: int, radix: nat)
    requires
        0 <= k <= s.len(),
        radix >= 1,
    ensures
        digits_value(s.take(k), radix) is None ==> digits_value(s, radix) is None,
        digits_value(s, radix) is Some ==> digits_value(s, radix)->0 >= digits_value(
            s.take(k),
            radix,
        )->0,
    decreases s.len() - k,
{
    if k == s.len() {
        assert(s.take(k) =~= s);
    } else {
        lemma_digits_grow(s, k + 1, radix);
        assert(s.take(k + 1).drop_last() =~= s.take(k));
        if digits_value(s.take(k + 1), radix) is Some {
            let v = digits_value(s.take(k), radix)->0;
            assert(v * radix >= v) by (nonlinear_arith)
                requires
                    radix >= 1,
            ;
        }
    }
}

/// The number that the digits `s` stand for, where it is at most `max`.
pub fn digits_to_number(s: &[char], radix: u32, max: u64) -> (r: Option<u64>)
    requires
        2 <= radix <= 16,
    ensures
        match r {
            Some(v) => digits_value(s@, radix as nat) == Some(v as nat) && v <= max,
            None => digits_value(s@, radix as nat) is None || digits_value(s@, radix as nat)->0
                > max,
        },
{
    let mut acc: u64 = 0;
    let mut i: usize = 0;
    assert(s@.take(0) =~= Seq::empty());
    while i < s.len()
        invariant
            2 <= radix <= 16,
            i <= s.len(),
            acc <= max,
            digits_value(s@.take(i as int), radix as nat) == Some(acc as nat),
        decreases s.len() - i,
    {
        proof {
            lemma_digits_grow(s@, i as int + 1, radix as nat);
            assert(s@.take(i as int + 1).drop_last() =~= s@.take(i as int));
        }
        match digit_of(s[i], radix) {
            None => {
                return None;
            },
            Some(d) => {
                assert(acc * radix <= 0xffff_ffff_ffff_ffff * 16) by (nonlinear_arith)
                    requires
                        acc <= 0xffff_ffff_ffff_ffff,
                        2 <= radix <= 16,
                ;
                let next: u128 = acc as u128 * radix as u128 + d as u128;
                if next > max as u128 {
                    return None;
                }
                acc = next as u64;
            },
        }
        i += 1;
    }
    assert(s@.take(i as int) =~= s@);
    Some(acc)
}

/// The unsigned number that `s` spells in base `radix`, where it is at most `max`.
pub fn parse_unsigned(s: &[char], radix: u32, max: u64) -> (r: Option<u64>)
    requires
        2 <= radix <= 16,
    ensures
        match r {
            Some(v) => parse_nat(s@, radix as nat, max as nat) == Some(v as nat) && v <= max,
            None => parse_nat(s@, radix as nat, max as nat) is None,
        },
{
    if s.len() == 0 {
        return None;
    }
    let body = if s.len() > 1 && s[0] == '+' { skip(s, 1) } else { s };
    digits_to_number(body, radix, max)
}

/// The signed decimal number that `s` spells, where it is between `-(max + 1)`
/// and `max`.
pub fn parse_signed(s: &[char], max: u32) -> (r: Option<i64>)
    requires
        max <= 0x7fff_ffff,
    ensures
        match r {
            Some(v) => parse_int(s@, max as nat) == Some(v as int) && -(max as int) - 1 <= v <= max,
            None => parse_int(s@, max as nat) is None,
        },
{
    if s.len() > 1 && s[0] == '-' {
        match digits_to_number(skip(s, 1), 10, max as u64 + 1) {
            Some(v) => Some(-(v as i64)),
            None => None,
        }
    } else {
        match parse_unsigned(s, 10, max as u64) {
            Some(v) => Some(v as i64),
            None => None,
        }
    }
}

/// The signed decimal number of 64 bits that `s` spells.
pub fn parse_signed_wide(s: &[char]) -> (r: Option<i128>)
    ensures
        match r {
            Some(v) => parse_int(s@, 0x7fff_ffff_ffff_ffff) == Some(v as int)
                && -0x8000_0000_0000_0000 <= v <= 0x7fff_ffff_ffff_ffff,
            None => parse_int(s@, 0x7fff_ffff_ffff_ffff) is None,
        },
{
    if s.len() > 1 && s[0] == '-' {
        match digits_to_number(skip(s, 1), 10, 0x8000_0000_0000_0000) {
            Some(v) => Some(-(v as i128)),
            None => None,
        }
    } else {
        match parse_unsigned(s, 10, 0x7fff_ffff_ffff_ffff) {
            Some(v) => Some(v as i128),
            None => None,
        }
    }
}

// ---------------------------------------------------------------------------
// Laws
// ---------------------------------------------------------------------------

/// Whether every character of `s` is a digit of base `radix`, in lower case.
pub open spec fn all_digits(s: Seq<char>, radix: int) -> bool {
    forall|i: int| 0 <= i < s.len() ==> is_lower_digit(#[trigger] s[i], radix)
}

/// Whether `c` is a digit of base `radix`, in lower case.
pub open spec fn is_lower_digit(c: char, radix: int) -> bool {
    digit_value(c, radix) is Some && (is_digit(c) || ('a' <= c && c <= 'f'))
}

/// A numeral is not empty, holds digits only, and stands for its number.
pub proof fn lemma_number_text(n: nat, radix: nat)
    requires
        2 <= radix <= 16,
    ensures
        number_text(n, radix).len() > 0,
        all_digits(number_text(n, radix), radix as int),
        digits_value(number_text(n, radix), radix) == Some(n),
    decreases n,
{
    reveal_with_fuel(digits_value, 2);
    if n < radix {
        let s = number_text(n, radix);
        assert(s.drop_last() =~= Seq::empty());
        assert(digit_value(digit_char(n as int), radix as int) == Some(n as int));
        assert(digits_value(s.drop_last(), radix) == Some(0nat));
        assert(0 * radix == 0) by (nonlinear_arith);
    } else {
        let q = n / radix;
        let d = n % radix;
        assert(q < n && d < radix && q * radix + d == n) by (nonlinear_arith)
            requires
                q == n / radix,
                d == n % radix,
                2 <= radix <= n,
        ;
        lemma_number_text(q, radix);
        let s = number_text(n, radix);
        assert(s.drop_last() =~= number_text(q, radix));
        assert(digit_value(digit_char(d as int), radix as int) == Some(d as int));
        assert forall|i: int| 0 <= i < s.len() implies is_lower_digit(
            #[trigger] s[i],
            radix as int,
        ) by {
            if i < s.len() - 1 {
                assert(s[i] == number_text(q, radix)[i]);
            }
        }
    }
}

/// A numeral holds no other character than digits.
pub proof fn lemma_number_lacks(n: nat, radix: nat, c: char)
    requires
        2 <= radix <= 16,
        !is_lower_digit(c, radix as int),
    ensures
        lacks(number_text(n, radix), c),
{
    lemma_number_text(n, radix);
    let t = number_text(n, radix);
    assert forall|i: int| 0 <= i < t.len() implies #[trigger] t[i] != c by {
        assert(is_lower_digit(t[i], radix as int));
    }
}

/// Reading a numeral gives back the number written, where it is in range.
pub proof fn number_reads_back(n: nat, radix: nat, max: nat)
    requires
        2 <= radix <= 16,
        n <= max,
    ensures
        parse_nat(number_text(n, radix), radix, max) == Some(n),
{
    lemma_number_text(n, radix);
    let s = number_text(n, radix);
    assert(is_lower_digit(s[0], radix as int));
}

/// Reading a signed numeral gives back the number written, where it is in range.
pub proof fn int_reads_back(i: int, max: nat)
    requires
        -(max as int) - 1 <= i <= max,
    ensures
        parse_int(int_text(i), max) == Some(i),
{
    if i < 0 {
        lemma_number_text((-i) as nat, 10);
        let s = int_text(i);
        assert(s.skip(1) =~= dec_text((-i) as nat));
    } else {
        number_reads_back(i as nat, 10, max);
        lemma_number_text(i as nat, 10);
        assert(is_lower_digit(int_text(i)[0], 10));
    }
}

/// Leading zeros change nothing.
proof fn lemma_leading_zeros(k: nat, t: Seq<char>)
    ensures
        digits_value(repeated('0', k) + t, 16) == digits_value(t, 16),
    decreases t.len() + k,
{
    let s = repeated('0', k) + t;
    if t.len() > 0 {
        assert(s.drop_last() =~= repeated('0', k) + t.drop_last());
        lemma_leading_zeros(k, t.drop_last());
    } else if k > 0 {
        assert(s.drop_last() =~= repeated('0', (k - 1) as nat) + t);
        lemma_leading_zeros((k - 1) as nat, t);
        assert(digits_value(t, 16) == Some(0nat));
    } else {
        assert(s =~= t);
    }
}

/// Reading a padded hexadecimal numeral gives back the number written.
pub proof fn padded_hex_reads_back(n: nat, width: nat, max: nat)
    requires
        n <= max,
    ensures
        parse_nat(hex_padded(n, width), 16, max) == Some(n),
        hex_padded(n, width).len() > 0,
        all_digits(hex_padded(n, width), 16),
{
    lemma_number_text(n, 16);
    number_reads_back(n, 16, max);
    let t = hex_text(n);
    let s = hex_padded(n, width);
    if t.len() < width {
        let k = (width - t.len()) as nat;
        lemma_leading_zeros(k, t);
        assert forall|i: int| 0 <= i < s.len() implies is_lower_digit(#[trigger] s[i], 16) by {
            if i >= k {
                assert(s[i] == t[i - k]);
            }
        }
        assert(s[0] == '0');
    }
}

} // verus!
