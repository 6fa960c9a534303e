//! The statistics chunk as lines of `key=value`.

use vstd::prelude::*;

use crate::chunks::stat::{
    ShaderStats, counter_index, counters_text, no_stats, reserved_text, set_field, with_counter,
    write_counters, write_reserved,
};
use crate::lines::{
    lines_of, split, split_at_first, split_chars, split_once, text_lines, trim, trimmed, views,
};
use crate::numerals::{dec_text, parse_nat, parse_unsigned, push_dec};
use crate::text::{chars_of, is_text, push_text};

verus! {

/// A truth value as text.
pub open spec fn bool_text(b: bool) -> Seq<char> {
    if b {
        "true"@
    } else {
        "false"@
    }
}

/// The line of the size.
pub open spec fn size_line(s: ShaderStats) -> Seq<char> {
    "size="@ + dec_text(s.raw_size as nat)
}

/// The line of the sample frequency.
pub open spec fn sample_line(s: ShaderStats) -> Seq<char> {
    "sample_frequency="@ + bool_text(s.is_sample_frequency)
}

/// The line of the reserved words.
pub open spec fn reserved_line(s: ShaderStats) -> Seq<char> {
    "reserved="@ + reserved_text(s, ',')
}

/// The statistics as lines of `key=value`.
pub open spec fn stat_text(s: ShaderStats) -> Seq<char> {
    size_line(s).push('\n') + (sample_line(s).push('\n') + (reserved_line(s).push('\n')
        + counters_text(s, '=', 0)))
}

/// Write the statistics as lines of `key=value`.
pub fn stat_to_text(s: &ShaderStats) -> (r: String)
    ensures
        r@ == stat_text(*s),
{
    let mut o = String::new();
    push_text(&mut o, "size=");
    push_dec(&mut o, s.raw_size as u64);
    o.push('\n');
    let ghost l1 = size_line(*s).push('\n');
    assert(o@ =~= l1);
    push_text(&mut o, "sample_frequency=");
    push_text(&mut o, if s.is_sample_frequency { "true" } else { "false" });
    o.push('\n');
    let ghost l2 = sample_line(*s).push('\n');
    assert(o@ =~= l1 + l2);
    push_text(&mut o, "reserved=");
    write_reserved(&mut o, s, ',');
    o.push('\n');
    let ghost l3 = reserved_line(*s).push('\n');
    assert(o@ =~= l1 + l2 + l3);
    write_counters(&mut o, s, '=');
    proof {
        crate::text::lemma_cat4(l1, l2, l3, counters_text(*s, '=', 0));
    }
    o
}

/// A truth value.
pub open spec fn read_bool(s: Seq<char>) -> Option<bool> {
    if s == "true"@ {
        Some(true)
    } else if s == "false"@ {
        Some(false)
    } else {
        None
    }
}

fn parse_bool(s: &[char]) -> (r: Option<bool>)
    ensures
        r == read_bool(s@),
{
    if is_text(s, "true") {
        Some(true)
    } else if is_text(s, "false") {
        Some(false)
    } else {
        None
    }
}

/// Part number `k` as a word, white space around it aside.
pub open spec fn part_number(parts: Seq<Seq<char>>, k: int) -> Option<nat> {
    if k < parts.len() {
        parse_nat(trim(parts[k]), 10, 0xffff_ffff)
    } else {
        None
    }
}

/// The statistics `s` with `key` set to what `val` says.
pub open spec fn stat_entry(s: ShaderStats, key: Seq<char>, val: Seq<char>) -> Option<ShaderStats> {
    if key == "size"@ {
        match parse_nat(val, 10, usize::MAX as nat) {
            Some(v) => Some(ShaderStats { raw_size: v as usize, ..s }),
            None => None,
        }
    } else if key == "sample_frequency"@ {
        match read_bool(val) {
            Some(b) => Some(ShaderStats { is_sample_frequency: b, ..s }),
            None => None,
        }
    } else if key == "reserved"@ {
        let parts = split(val, ',');
        match (
            part_number(parts, 0),
            part_number(parts, 1),
            part_number(parts, 2),
            part_number(parts, 3),
        ) {
            (Some(a), Some(b), Some(c), Some(d)) => Some(
                ShaderStats { reserved: [a as u32, b as u32, c as u32, d as u32], ..s },
            ),
            _ => None,
        }
    } else {
        match (parse_nat(val, 10, 0xffff_ffff), counter_index(key, 0)) {
            (Some(v), Some(i)) => Some(with_counter(s, i, v as u32)),
            _ => None,
        }
    }
}

/// The statistics `s` with what the line says.
pub open spec fn stat_line(s: ShaderStats, line: Seq<char>) -> Option<ShaderStats> {
    match split_once(line, '=') {
        Some((k, v)) => stat_entry(s, trim(k), trim(v)),
        None => None,
    }
}

/// The statistics `s` with what the lines from number `k` on say.
pub open spec fn stat_lines(s: ShaderStats, ls: Seq<Seq<char>>, k: int) -> Option<ShaderStats>
    decreases ls.len() - k,
{
    if k < 0 || k >= ls.len() {
        Some(s)
    } else {
        match stat_line(s, ls[k]) {
            Some(s2) => stat_lines(s2, ls, k + 1),
            None => None,
        }
    }
}

fn number_of_part(parts: &Vec<&[char]>, k: usize) -> (r: Option<u32>)
    ensures
        match r {
            Some(v) => part_number(views(parts@), k as int) == Some(v as nat),
            None => part_number(views(parts@), k as int) is None,
        },
{
    if k < parts.len() {
        match parse_unsigned(trimmed(parts[k]), 10, 0xffff_ffff) {
            Some(v) => Some(v as u32),
            None => None,
        }
    } else {
        None
    }
}

fn read_stat_line(s: &mut ShaderStats, line: &[char]) -> (r: bool)
    ensures
        match stat_line(*old(s), line@) {
            Some(s2) => r && *final(s) == s2,
            None => !r,
        },
{
    let (key, val) = match split_at_first(line, '=') {
        Some((k, v)) => (trimmed(k), trimmed(v)),
        None => {
            return false;
        },
    };
    if is_text(key, "size") {
        match parse_unsigned(val, 10, usize::MAX as u64) {
            Some(v) => {
                s.raw_size = v as usize;
                true
            },
            None => false,
        }
    } else if is_text(key, "sample_frequency") {
        match parse_bool(val) {
            Some(b) => {
                s.is_sample_frequency = b;
                true
            },
            None => false,
        }
    } else if is_text(key, "reserved") {
        let parts = split_chars(val, ',');
        match (
            number_of_part(&parts, 0),
            number_of_part(&parts, 1),
            number_of_part(&parts, 2),
            number_of_part(&parts, 3),
        ) {
            (Some(a), Some(b), Some(c), Some(d)) => {
                s.reserved = [a, b, c, d];
                true
            },
            _ => false,
        }
    } else {
        match parse_unsigned(val, 10, 0xffff_ffff) {
            Some(v) => set_field(s, key, v as u32),
            None => false,
        }
    }
}

/// Read the statistics from lines of `key=value`: white space around keys and
/// values aside, keys that are not there count as nought, and an unknown key or
/// a bad value is an error.
pub fn stat_from_text(text: &str) -> (r: Option<ShaderStats>)
    ensures
        r == stat_lines(no_stats(), text_lines(text@, false), 0),
{
    let chars = chars_of(text);
    let lines = lines_of(chars.as_slice(), false);
    stat_from_lines(&lines)
}

/// Read the statistics from cleaned lines.
pub(crate) fn stat_from_lines(lines: &Vec<&[char]>) -> (r: Option<ShaderStats>)
    ensures
        r == stat_lines(no_stats(), views(lines@), 0),
{
    let ghost ls = views(lines@);
    let mut s = ShaderStats::default();
    let mut i: usize = 0;
    while i < lines.len()
        invariant
            ls == views(lines@),
            i <= lines.len(),
            stat_lines(s, ls, i as int) == stat_lines(no_stats(), ls, 0),
        decreases lines.len() - i,
    {
        assert(ls[i as int] == lines@[i as int]@);
        if !read_stat_line(&mut s, lines[i]) {
            return None;
        }
        i += 1;
    }
    Some(s)
}

} // verus!
