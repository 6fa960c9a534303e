//! Bytes in hexadecimal digits read back.

use vstd::prelude::*;
use vstd::utf8::{is_ascii_chars, is_ascii_chars_encode_utf8};

use crate::container_doc::{
    HEX_PER_LINE, hex_block, hex_data, hex_decoded, hex_row, is_directive, joined, no_directive,
};
use crate::grammar::rdef::kv::{bytes_text, read_hex_bytes};
use crate::lines::{
    has_comment, lemma_empty_line, lemma_no_comment, lemma_text_lines_concat, text_lines, trim,
    trim_start,
};
use crate::numerals::{digit_char, digit_value, hex_padded, hex_text, is_lower_digit, number_text};
use crate::text::lemma_span_until_concat;

verus! {

/// The two digits of a byte.
pub proof fn lemma_byte_digits(v: u8)
    ensures
        hex_padded(v as nat, 2) == seq![
            digit_char(v as int / 16),
            digit_char(v as int % 16),
        ],
{
    reveal_with_fuel(number_text, 3);
    let n = v as nat;
    if n < 16 {
        assert(hex_text(n) =~= seq![digit_char(n as int)]);
        assert(hex_padded(n, 2) =~= seq![digit_char(0), digit_char(n as int)]);
    } else {
        assert(hex_text(n) =~= seq![digit_char(n as int / 16), digit_char(n as int % 16)]);
    }
}

/// A digit character stands for its digit, and is neither white space nor a
/// mark of any kind.
pub proof fn lemma_digit_char(d: int)
    requires
        0 <= d < 16,
    ensures
        digit_value(digit_char(d), 16) == Some(d),
        is_lower_digit(digit_char(d), 16),
{
}

/// The digits of the first `n` bytes.
pub proof fn lemma_bytes_text(b: Seq<u8>, n: int)
    requires
        0 <= n <= b.len(),
    ensures
        bytes_text(b, n).len() == 2 * n,
        forall|i: int| 0 <= i < 2 * n ==> is_lower_digit(#[trigger] bytes_text(b, n)[i], 16),
        read_hex_bytes(bytes_text(b, n)) == Some(b.take(n)),
    decreases n,
{
    if n == 0 {
        assert(b.take(0) =~= Seq::empty());
    } else {
        lemma_bytes_text(b, n - 1);
        let v = b[n - 1];
        lemma_byte_digits(v);
        lemma_digit_char(v as int / 16);
        lemma_digit_char(v as int % 16);
        let t = bytes_text(b, n);
        let init = bytes_text(b, n - 1);
        assert(t.take(t.len() - 2) =~= init);
        assert(t[t.len() - 2] == digit_char(v as int / 16));
        assert(t[t.len() - 1] == digit_char(v as int % 16));
        assert forall|i: int| 0 <= i < 2 * n implies is_lower_digit(#[trigger] t[i], 16) by {
            if i < 2 * (n - 1) {
                assert(t[i] == init[i]);
            }
        }
        assert(b.take(n) =~= b.take(n - 1).push(v));
        assert((v as int / 16) * 16 + v as int % 16 == v);
    }
}

/// The digits depend on the bytes before the end alone.
proof fn lemma_bytes_text_local(a: Seq<u8>, b: Seq<u8>, n: int)
    requires
        0 <= n <= a.len(),
        n <= b.len(),
        a.take(n) == b.take(n),
    ensures
        bytes_text(a, n) == bytes_text(b, n),
    decreases n,
{
    if n > 0 {
        assert(a.take(n - 1) =~= a.take(n).take(n - 1));
        assert(b.take(n - 1) =~= b.take(n).take(n - 1));
        lemma_bytes_text_local(a, b, n - 1);
        assert(a[n - 1] == a.take(n)[n - 1]);
        assert(b[n - 1] == b.take(n)[n - 1]);
    }
}

/// The digits of bytes before and behind a cut.
pub proof fn lemma_bytes_text_concat(b: Seq<u8>, k: int, n: int)
    requires
        0 <= k <= n <= b.len(),
    ensures
        bytes_text(b, n) == bytes_text(b.take(k), k) + bytes_text(b.skip(k), n - k),
    decreases n - k,
{
    if n == k {
        assert(b.take(k).take(k) =~= b.take(k));
        lemma_bytes_text_local(b, b.take(k), k);
        assert(bytes_text(b.skip(k), 0) =~= Seq::empty());
        assert(bytes_text(b, n) =~= bytes_text(b.take(k), k) + Seq::<char>::empty());
    } else {
        lemma_bytes_text_concat(b, k, n - 1);
        assert(b.skip(k)[n - k - 1] == b[n - 1]);
        assert(bytes_text(b, n) =~= bytes_text(b.take(k), k) + bytes_text(b.skip(k), n - k));
    }
}

/// Bytes written in hexadecimal digits read back as they were.
pub proof fn bytes_read_back(b: Seq<u8>)
    ensures
        read_hex_bytes(bytes_text(b, b.len() as int)) == Some(b),
        hex_decoded(bytes_text(b, b.len() as int)) == Ok::<Seq<u8>, Seq<char>>(b),
{
    lemma_bytes_text(b, b.len() as int);
    assert(b.take(b.len() as int) =~= b);
    let t = bytes_text(b, b.len() as int);
    assert(is_ascii_chars(t)) by {
        assert forall|i: int| 0 <= i < t.len() implies '\0' <= #[trigger] t[i] <= '\u{7f}' by {
            assert(is_lower_digit(t[i], 16));
        }
    }
    is_ascii_chars_encode_utf8(t);
}

/// A row of digits is one line that holds the digits.
proof fn lemma_hex_row(d: Seq<u8>)
    requires
        d.len() > 0,
    ensures
        text_lines(hex_row(d), true) == seq![bytes_text(d, d.len() as int)],
        hex_row(d).last() == '\n',
        !is_directive(bytes_text(d, d.len() as int)),
{
    let t = bytes_text(d, d.len() as int);
    lemma_bytes_text(d, d.len() as int);
    reveal_strlit("  ");
    reveal_strlit("\n");
    reveal_strlit(".");
    assert("\n"@ =~= seq!['\n']);
    let line = "  "@ + t;
    assert forall|i: int| 0 <= i < line.len() implies #[trigger] line[i] != '\n' && line[i]
        != '/' by {
        if i >= 2 {
            assert(is_lower_digit(t[i - 2], 16));
        }
    }
    reveal_with_fuel(text_lines, 2);
    lemma_span_until_concat(line, seq!['\n'], '\n', '\n', '\n');
    assert(!has_comment(line));
    lemma_no_comment(line);
    assert(line.skip(1).skip(1) =~= t);
    assert(is_lower_digit(t[0], 16));
    assert(is_lower_digit(t[t.len() - 1], 16));
    reveal_with_fuel(trim_start, 3);
    assert(trim_start(line) == t);
    assert(trim(line) == t);
    assert(hex_row(d).skip(line.len() as int + 1) =~= Seq::empty());
    lemma_empty_line(true);
    assert(text_lines(hex_row(d), true) =~= seq![t]);
    if is_directive(t) {
        assert(t.take(1)[0] == '.');
    }
}

/// The lines of a block of digits hold the digits, and none begins like a
/// directive.
pub proof fn lemma_hex_block(d: Seq<u8>)
    ensures
        hex_block(d).len() == 0 || hex_block(d).last() == '\n',
        no_directive(text_lines(hex_block(d), true)),
        joined(
            text_lines(hex_block(d), true),
            text_lines(hex_block(d), true).len() as int,
        ) == bytes_text(d, d.len() as int),
    decreases d.len(),
{
    reveal_with_fuel(joined, 2);
    let ls = text_lines(hex_block(d), true);
    if d.len() == 0 {
        lemma_empty_line(true);
        assert(hex_block(d) =~= Seq::empty());
    } else if d.len() <= HEX_PER_LINE {
        lemma_hex_row(d);
        assert(joined(ls, 1) =~= bytes_text(d, d.len() as int));
    } else {
        let a = d.take(HEX_PER_LINE as int);
        let b = d.skip(HEX_PER_LINE as int);
        lemma_hex_row(a);
        lemma_hex_block(b);
        lemma_text_lines_concat(hex_row(a), hex_block(b), true);
        let first = bytes_text(a, a.len() as int);
        let rest = text_lines(hex_block(b), true);
        assert(ls == seq![first] + rest);
        assert forall|i: int| 0 <= i < ls.len() implies !is_directive(#[trigger] ls[i]) by {
            if i > 0 {
                assert(ls[i] == rest[i - 1]);
            }
        }
        lemma_joined_first(first, rest, rest.len() as int);
        lemma_bytes_text_concat(d, HEX_PER_LINE as int, d.len() as int);
        if hex_block(b).len() > 0 {
            assert(hex_block(d).last() == hex_block(b).last());
        } else {
            assert(hex_block(d) =~= hex_row(a));
        }
    }
}

proof fn lemma_joined_first(first: Seq<char>, rest: Seq<Seq<char>>, n: int)
    requires
        0 <= n <= rest.len(),
    ensures
        joined(seq![first] + rest, n + 1) == first + joined(rest, n),
    decreases n,
{
    let all = seq![first] + rest;
    if n == 0 {
        reveal_with_fuel(joined, 2);
        assert(joined(all, 1) =~= first + Seq::<char>::empty());
    } else {
        lemma_joined_first(first, rest, n - 1);
        assert(all[n] == rest[n - 1]);
        assert(joined(all, n + 1) =~= first + joined(rest, n));
    }
}

/// A block of digits reads back as the bytes it was written for.
pub proof fn hex_block_reads_back(d: Seq<u8>)
    ensures
        hex_data(text_lines(hex_block(d), true)) == Ok::<Seq<u8>, Seq<char>>(d),
{
    lemma_hex_block(d);
    bytes_read_back(d);
}

} // verus!
