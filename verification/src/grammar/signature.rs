//! Signature chunks as text, a line for each element.
//!
//! ```text
//! name idx=N reg=N type=T mask=M rw=M [sv=S] [stream=N] [prec=P]
//! ```

use vstd::prelude::*;

use crate::chunks::signature::{
    ElementModel, MinPrecision, Signature, SignatureElement, SignatureVersion, element_models,
    version_of,
};
use crate::grammar::rdef::kv::{find_key_from, value_for, word_in, word_of};
use crate::grammar::shex::reading::mask_of;
use crate::grammar::shex::text::mask_text;
use crate::grammar::tables::{
    NameTable, axis_index, axis_value, name_of, system_value_name, system_value_number,
    system_value_text, system_value_to_u32, table_name, table_of, table_value, value_of,
};
use crate::lines::{lines_of, text_lines, views, words, words_of};
use crate::numerals::{dec_text, hex_padded, parse_nat, parse_unsigned, push_dec, push_hex_padded};
use crate::text::{chars_of, is_text, push_text, string_of, strip_prefix, strip_text};

verus! {

/// Component types by name.
pub open spec fn component_types() -> NameTable {
    seq![
        ("unknown"@, 0u32),
        ("uint"@, 1u32),
        ("int"@, 2u32),
        ("float"@, 3u32),
        ("uint16"@, 4u32),
        ("int16"@, 5u32),
        ("float16"@, 6u32),
        ("uint64"@, 7u32),
        ("int64"@, 8u32),
        ("float64"@, 9u32),
    ]
}

/// Least precisions by name.
pub open spec fn precisions() -> NameTable {
    seq![
        ("min16f"@, 1u32),
        ("min2_8f"@, 2u32),
        ("reserved"@, 3u32),
        ("min16i"@, 4u32),
        ("min16u"@, 5u32),
        ("any16"@, 0xf0u32),
        ("any10"@, 0xf1u32),
    ]
}

fn component_type_table() -> (r: [(&'static str, u32); 10])
    ensures
        table_of(r@) == component_types(),
{
    let r = [
        ("unknown", 0u32),
        ("uint", 1u32),
        ("int", 2u32),
        ("float", 3u32),
        ("uint16", 4u32),
        ("int16", 5u32),
        ("float16", 6u32),
        ("uint64", 7u32),
        ("int64", 8u32),
        ("float64", 9u32),
    ];
    assert(table_of(r@) =~= component_types());
    r
}

fn precision_table() -> (r: [(&'static str, u32); 7])
    ensures
        table_of(r@) == precisions(),
{
    let r = [
        ("min16f", 1u32),
        ("min2_8f", 2u32),
        ("reserved", 3u32),
        ("min16i", 4u32),
        ("min16u", 5u32),
        ("any16", 0xf0u32),
        ("any10", 0xf1u32),
    ];
    assert(table_of(r@) =~= precisions());
    r
}

/// The name of a number, or the number where it has none.
pub open spec fn name_or_number(t: NameTable, v: u32) -> Seq<char> {
    match table_name(t, v) {
        Some(n) => n,
        None => dec_text(v as nat),
    }
}

/// The number of a name, or of a number.
pub open spec fn number_of(t: NameTable, s: Seq<char>) -> Option<u32> {
    match table_value(t, s) {
        Some(v) => Some(v),
        None => word_in(s, 10),
    }
}

fn push_name_or_number(o: &mut String, table: &[(&'static str, u32)], v: u32)
    ensures
        final(o)@ == old(o)@ + name_or_number(table_of(table@), v),
{
    match name_of(table, v) {
        Some(n) => push_text(o, n),
        None => push_dec(o, v as u64),
    }
}

fn parse_name_or_number(table: &[(&'static str, u32)], s: &[char]) -> (r: Option<u32>)
    ensures
        r == number_of(table_of(table@), s@),
{
    match value_of(table, s) {
        Some(v) => Some(v),
        None => word_of(s, 10),
    }
}

/// A mask as letters; in hexadecimal where it has bits beyond the four.
pub open spec fn mask_name(m: u8) -> Seq<char> {
    if m == 0 {
        "0"@
    } else if m & 0xf0 != 0 {
        hex_padded(m as nat, 2)
    } else {
        mask_text(m, 0)
    }
}

/// Whether all characters are component letters.
pub open spec fn all_axes(s: Seq<char>) -> bool {
    forall|i: int| 0 <= i < s.len() ==> axis_value(#[trigger] s[i]) is Some
}

/// The mask that letters, a hexadecimal number or `none` stand for.
pub open spec fn read_mask(s: Seq<char>) -> Option<u8> {
    let t = match strip_prefix(s, "."@) {
        Some(r) => r,
        None => s,
    };
    if s == "none"@ {
        Some(0)
    } else if t.len() > 0 && all_axes(t) {
        Some(mask_of(t))
    } else {
        match parse_nat(t, 16, 0xff) {
            Some(v) => Some(v as u8),
            None => None,
        }
    }
}

fn push_mask(o: &mut String, m: u8)
    ensures
        final(o)@ == old(o)@ + mask_name(m),
{
    let mut l = String::new();
    if m == 0 {
        push_text(&mut l, "0");
        assert(l@ =~= "0"@);
    } else if m & 0xf0 != 0 {
        push_hex_padded(&mut l, m as u64, 2);
        assert(l@ =~= hex_padded(m as nat, 2));
    } else {
        proof {
            reveal_with_fuel(mask_text, 6);
        }
        if m & 1 != 0 {
            l.push('x');
        }
        if m & 2 != 0 {
            l.push('y');
        }
        if m & 4 != 0 {
            l.push('z');
        }
        if m & 8 != 0 {
            l.push('w');
        }
        assert(l@ =~= mask_text(m, 0));
    }
    push_text(o, l.as_str());
}

fn only_axes(s: &[char]) -> (r: bool)
    ensures
        r == all_axes(s@),
{
    let mut i: usize = 0;
    while i < s.len()
        invariant
            i <= s.len(),
            forall|k: int| 0 <= k < i ==> axis_value(#[trigger] s@[k]) is Some,
        decreases s.len() - i,
    {
        if axis_index(s[i]).is_none() {
            assert(axis_value(s@[i as int]) is None);
            return false;
        }
        i += 1;
    }
    true
}

fn mask_from(s: &[char]) -> (r: Option<u8>)
    ensures
        r == read_mask(s@),
{
    if is_text(s, "none") {
        return Some(0);
    }
    let t = match strip_text(s, ".") {
        Some(r) => r,
        None => s,
    };
    if t.len() > 0 && only_axes(t) {
        Some(crate::grammar::shex::parse::mask_from_letters(t))
    } else {
        match parse_unsigned(t, 16, 0xff) {
            Some(v) => Some(v as u8),
            None => None,
        }
    }
}

/// A system value: its name, or its number where it has none.
pub open spec fn system_value_name_text(v: u32) -> Seq<char> {
    if system_value_text(v) == "unknown_sv"@ {
        dec_text(v as nat)
    } else {
        system_value_text(v)
    }
}

/// The system value that a number or a name stands for.
pub open spec fn read_sysval(s: Seq<char>) -> Option<u32> {
    match word_in(s, 10) {
        Some(n) => Some(n),
        None => if system_value_number(s) == 0 && s != "undefined"@ {
            None
        } else {
            Some(system_value_number(s))
        },
    }
}

fn push_sysval(o: &mut String, v: u32)
    ensures
        final(o)@ == old(o)@ + system_value_name_text(v),
{
    let n = system_value_name(v);
    let c = chars_of(n);
    if is_text(c.as_slice(), "unknown_sv") {
        push_dec(o, v as u64);
    } else {
        push_text(o, n);
    }
}

fn sysval_from(s: &[char]) -> (r: Option<u32>)
    ensures
        r == read_sysval(s@),
{
    match word_of(s, 10) {
        Some(n) => Some(n),
        None => {
            let v: u32 = system_value_to_u32(s);
            if v == 0 && !is_text(s, "undefined") {
                None
            } else {
                Some(v)
            }
        },
    }
}

// ---------------------------------------------------------------------------
// Writing
// ---------------------------------------------------------------------------

/// The name of an element; a dash where it has none.
pub open spec fn element_name(e: ElementModel) -> Seq<char> {
    if e.semantic_name.len() == 0 {
        "-"@
    } else {
        e.semantic_name
    }
}

/// The system value, where there is one.
pub open spec fn sv_note(v: u32) -> Seq<char> {
    if v != 0 {
        " sv="@ + system_value_name_text(v)
    } else {
        Seq::empty()
    }
}

/// The stream, where the chunk has streams and it is not the first.
pub open spec fn stream_note(e: ElementModel, v: SignatureVersion) -> Seq<char> {
    match e.stream {
        Some(s) => if v.streams() && s != 0 {
            " stream="@ + dec_text(s as nat)
        } else {
            Seq::empty()
        },
        None => Seq::empty(),
    }
}

/// The least precision, where the chunk has precisions and it is not the usual
/// one.
pub open spec fn precision_note(e: ElementModel, v: SignatureVersion) -> Seq<char> {
    match e.min_precision {
        Some(p) => if v.precisions() && p.value != 0 {
            " prec="@ + name_or_number(precisions(), p.value)
        } else {
            Seq::empty()
        },
        None => Seq::empty(),
    }
}

/// The line of an element.
pub open spec fn element_line(e: ElementModel, v: SignatureVersion) -> Seq<char> {
    element_name(e) + " idx="@ + dec_text(e.semantic_index as nat) + " reg="@ + dec_text(
        e.register as nat,
    ) + " type="@ + name_or_number(component_types(), e.component_type) + " mask="@ + mask_name(
        e.mask,
    ) + " rw="@ + mask_name(e.rw_mask) + sv_note(e.system_value) + stream_note(e, v)
        + precision_note(e, v)
}

/// The lines of the first `n` elements.
pub open spec fn element_lines(es: Seq<ElementModel>, v: SignatureVersion, n: int) -> Seq<char>
    decreases n,
{
    if n <= 0 {
        Seq::empty()
    } else {
        element_lines(es, v, n - 1) + element_line(es[n - 1], v).push('\n')
    }
}

/// The text of a signature.
pub open spec fn signature_text(es: Seq<ElementModel>, fourcc: Seq<u8>) -> Seq<char> {
    element_lines(es, version_of(fourcc), es.len() as int)
}

fn element_line_of(e: &SignatureElement, v: SignatureVersion) -> (l: String)
    ensures
        l@ == element_line(e.model(), v),
{
    let mut l = String::new();
    if e.semantic_name.as_str().is_empty() {
        push_text(&mut l, "-");
    } else {
        push_text(&mut l, e.semantic_name.as_str());
    }
    assert(l@ =~= element_name(e.model()));
    push_text(&mut l, " idx=");
    push_dec(&mut l, e.semantic_index as u64);
    push_text(&mut l, " reg=");
    push_dec(&mut l, e.register as u64);
    push_text(&mut l, " type=");
    let t = component_type_table();
    push_name_or_number(&mut l, &t, e.component_type);
    push_text(&mut l, " mask=");
    push_mask(&mut l, e.mask);
    push_text(&mut l, " rw=");
    push_mask(&mut l, e.rw_mask);
    let mut s = String::new();
    if e.system_value != 0 {
        push_text(&mut s, " sv=");
        assert(s@ =~= " sv="@);
        push_sysval(&mut s, e.system_value);
    }
    push_text(&mut l, s.as_str());
    let mut s = String::new();
    if v.has_stream() {
        match e.stream {
            Some(n) => {
                if n != 0 {
                    push_text(&mut s, " stream=");
                    assert(s@ =~= " stream="@);
                    push_dec(&mut s, n as u64);
                }
            },
            None => {},
        }
    }
    push_text(&mut l, s.as_str());
    let mut s = String::new();
    if v.has_min_precision() {
        match e.min_precision {
            Some(p) => {
                if p.to_u32() != 0 {
                    push_text(&mut s, " prec=");
                    assert(s@ =~= " prec="@);
                    let t = precision_table();
                    push_name_or_number(&mut s, &t, p.to_u32());
                }
            },
            None => {},
        }
    }
    push_text(&mut l, s.as_str());
    l
}

/// Write a signature as text, a line for each element. Numbers that have a name
/// are written by it; system value, stream and precision only where they are not
/// the usual ones.
pub fn signature_to_text(sig: &Signature) -> (r: String)
    ensures
        r@ == signature_text(element_models(sig.elements@), sig.fourcc@),
{
    let v = SignatureVersion::from_fourcc(sig.fourcc);
    let ghost es = element_models(sig.elements@);
    let mut o = String::new();
    let mut i: usize = 0;
    while i < sig.elements.len()
        invariant
            es == element_models(sig.elements@),
            i <= sig.elements.len(),
            o@ == element_lines(es, v, i as int),
        decreases sig.elements.len() - i,
    {
        assert(es[i as int] == sig.elements@[i as int].model());
        let ghost before = o@;
        let l = element_line_of(&sig.elements[i], v);
        push_text(&mut o, l.as_str());
        o.push('\n');
        assert(o@ =~= before + l@.push('\n'));
        i += 1;
    }
    o
}

// ---------------------------------------------------------------------------
// Reading
// ---------------------------------------------------------------------------

/// The value of `key` among the words of a line behind the name.
pub open spec fn entry(ws: Seq<Seq<char>>, key: Seq<char>) -> Option<Seq<char>> {
    value_for(ws, 1, ws.len() as int, key)
}

/// The number of `key`.
pub open spec fn number_entry(ws: Seq<Seq<char>>, key: Seq<char>) -> Option<u32> {
    match entry(ws, key) {
        Some(v) => word_in(v, 10),
        None => None,
    }
}

/// The mask of `key`.
pub open spec fn mask_entry(ws: Seq<Seq<char>>, key: Seq<char>) -> Option<u8> {
    match entry(ws, key) {
        Some(v) => read_mask(v),
        None => None,
    }
}

/// The system value, nought where the line has none.
pub open spec fn sysval_entry(ws: Seq<Seq<char>>) -> Option<u32> {
    match entry(ws, "sv"@) {
        Some(v) => read_sysval(v),
        None => Some(0),
    }
}

/// The stream, where the chunk has streams.
pub open spec fn stream_entry(ws: Seq<Seq<char>>, v: SignatureVersion) -> Option<Option<u32>> {
    if !v.streams() {
        Some(None)
    } else {
        match entry(ws, "stream"@) {
            Some(s) => match word_in(s, 10) {
                Some(n) => Some(Some(n)),
                None => None,
            },
            None => Some(Some(0)),
        }
    }
}

/// The least precision, where the chunk has precisions.
pub open spec fn precision_entry(ws: Seq<Seq<char>>, v: SignatureVersion) -> Option<
    Option<MinPrecision>,
> {
    if !v.precisions() {
        Some(None)
    } else {
        match entry(ws, "prec"@) {
            Some(s) => match number_of(precisions(), s) {
                Some(n) => Some(Some(MinPrecision { value: n })),
                None => None,
            },
            None => Some(Some(MinPrecision { value: 0 })),
        }
    }
}

/// The component type.
pub open spec fn component_entry(ws: Seq<Seq<char>>) -> Option<u32> {
    match entry(ws, "type"@) {
        Some(s) => number_of(component_types(), s),
        None => None,
    }
}

/// The element that the words of a line give.
pub open spec fn read_element(ws: Seq<Seq<char>>, v: SignatureVersion) -> Option<ElementModel> {
    if ws.len() == 0 {
        None
    } else {
        match (
            number_entry(ws, "idx"@),
            number_entry(ws, "reg"@),
            component_entry(ws),
            mask_entry(ws, "mask"@),
            mask_entry(ws, "rw"@),
            sysval_entry(ws),
            stream_entry(ws, v),
            precision_entry(ws, v),
        ) {
            (
                Some(semantic_index),
                Some(register),
                Some(component_type),
                Some(mask),
                Some(rw_mask),
                Some(system_value),
                Some(stream),
                Some(min_precision),
            ) => Some(
                ElementModel {
                    semantic_name: if ws[0] == "-"@ {
                        Seq::empty()
                    } else {
                        ws[0]
                    },
                    semantic_index,
                    system_value,
                    component_type,
                    register,
                    mask,
                    rw_mask,
                    stream,
                    min_precision,
                },
            ),
            _ => None,
        }
    }
}

/// The elements on the first `n` lines.
pub open spec fn read_elements(ls: Seq<Seq<char>>, v: SignatureVersion, n: int) -> Option<
    Seq<ElementModel>,
>
    decreases n,
{
    if n <= 0 {
        Some(Seq::empty())
    } else {
        match (read_elements(ls, v, n - 1), read_element(words(ls[n - 1]), v)) {
            (Some(es), Some(e)) => Some(es.push(e)),
            _ => None,
        }
    }
}

/// The elements on the lines of a signature with that code.
pub open spec fn signature_of_lines(ls: Seq<Seq<char>>, fourcc: Seq<u8>) -> Option<
    Seq<ElementModel>,
> {
    read_elements(ls, version_of(fourcc), ls.len() as int)
}

fn find_entry<'a>(ws: &Vec<&'a [char]>, key: &str) -> (r: Option<&'a [char]>)
    ensures
        match r {
            Some(v) => entry(views(ws@), key@) == Some(v@),
            None => entry(views(ws@), key@) is None,
        },
{
    assert(views(ws@).len() == ws@.len());
    find_key_from(ws, 1, key)
}

fn find_number(ws: &Vec<&[char]>, key: &str) -> (r: Option<u32>)
    ensures
        r == number_entry(views(ws@), key@),
{
    match find_entry(ws, key) {
        Some(v) => word_of(v, 10),
        None => None,
    }
}

fn find_mask(ws: &Vec<&[char]>, key: &str) -> (r: Option<u8>)
    ensures
        r == mask_entry(views(ws@), key@),
{
    match find_entry(ws, key) {
        Some(v) => mask_from(v),
        None => None,
    }
}

fn find_sysval(ws: &Vec<&[char]>) -> (r: Option<u32>)
    ensures
        r == sysval_entry(views(ws@)),
{
    match find_entry(ws, "sv") {
        Some(v) => sysval_from(v),
        None => Some(0),
    }
}

fn find_stream(ws: &Vec<&[char]>, v: SignatureVersion) -> (r: Option<Option<u32>>)
    ensures
        r == stream_entry(views(ws@), v),
{
    if !v.has_stream() {
        return Some(None);
    }
    match find_entry(ws, "stream") {
        Some(s) => match word_of(s, 10) {
            Some(n) => Some(Some(n)),
            None => None,
        },
        None => Some(Some(0)),
    }
}

fn find_precision(ws: &Vec<&[char]>, v: SignatureVersion) -> (r: Option<Option<MinPrecision>>)
    ensures
        r == precision_entry(views(ws@), v),
{
    if !v.has_min_precision() {
        return Some(None);
    }
    match find_entry(ws, "prec") {
        Some(s) => {
            let t = precision_table();
            match parse_name_or_number(&t, s) {
                Some(n) => Some(Some(MinPrecision::from_u32(n))),
                None => None,
            }
        },
        None => Some(Some(MinPrecision::from_u32(0))),
    }
}

fn find_component(ws: &Vec<&[char]>) -> (r: Option<u32>)
    ensures
        r == component_entry(views(ws@)),
{
    match find_entry(ws, "type") {
        Some(s) => {
            let t = component_type_table();
            parse_name_or_number(&t, s)
        },
        None => None,
    }
}

fn parse_element(ws: &Vec<&[char]>, v: SignatureVersion) -> (r: Option<SignatureElement>)
    ensures
        match r {
            Some(e) => read_element(views(ws@), v) == Some(e.model()),
            None => read_element(views(ws@), v) is None,
        },
{
    if ws.len() == 0 {
        return None;
    }
    assert(views(ws@)[0] == ws@[0]@);
    match (
        find_number(ws, "idx"),
        find_number(ws, "reg"),
        find_component(ws),
        find_mask(ws, "mask"),
        find_mask(ws, "rw"),
        find_sysval(ws),
        find_stream(ws, v),
        find_precision(ws, v),
    ) {
        (
            Some(semantic_index),
            Some(register),
            Some(component_type),
            Some(mask),
            Some(rw_mask),
            Some(system_value),
            Some(stream),
            Some(min_precision),
        ) => {
            let semantic_name = if is_text(ws[0], "-") { String::new() } else { string_of(ws[0]) };
            Some(
                SignatureElement {
                    semantic_name,
                    semantic_index,
                    system_value,
                    component_type,
                    register,
                    mask,
                    rw_mask,
                    stream,
                    min_precision,
                },
            )
        },
        _ => None,
    }
}

proof fn lemma_elements_none(ls: Seq<Seq<char>>, v: SignatureVersion, k: int, n: int)
    requires
        0 <= k <= n,
        read_elements(ls, v, k) is None,
    ensures
        read_elements(ls, v, n) is None,
    decreases n - k,
{
    if k < n {
        lemma_elements_none(ls, v, k + 1, n);
    }
}

/// Read a signature with that code from cleaned lines.
pub(crate) fn signature_from_lines(fourcc: [u8; 4], lines: &Vec<&[char]>) -> (r: Option<Signature>)
    ensures
        match r {
            Some(s) => s.fourcc == fourcc && signature_of_lines(views(lines@), fourcc@) == Some(
                element_models(s.elements@),
            ),
            None => signature_of_lines(views(lines@), fourcc@) is None,
        },
{
    let v = SignatureVersion::from_fourcc(fourcc);
    let ghost ls = views(lines@);
    let mut elements: Vec<SignatureElement> = Vec::new();
    let mut i: usize = 0;
    assert(element_models(elements@) =~= Seq::empty());
    while i < lines.len()
        invariant
            ls == views(lines@),
            v == version_of(fourcc@),
            i <= lines.len(),
            read_elements(ls, v, i as int) == Some(element_models(elements@)),
        decreases lines.len() - i,
    {
        assert(ls[i as int] == lines@[i as int]@);
        let ws = words_of(lines[i]);
        match parse_element(&ws, v) {
            Some(e) => {
                let ghost before = elements@;
                elements.push(e);
                proof {
                    assert(element_models(elements@) =~= element_models(before).push(e.model()));
                }
            },
            None => {
                proof {
                    lemma_elements_none(ls, v, i as int + 1, ls.len() as int);
                }
                return None;
            },
        }
        i += 1;
    }
    assert(ls.len() == lines@.len());
    Some(Signature { fourcc, elements })
}

/// Read a signature with that code from its text. Names and numbers are read
/// alike; a value that is missing or is neither is an error.
pub fn signature_from_text(fourcc: [u8; 4], text: &str) -> (r: Option<Signature>)
    ensures
        match r {
            Some(s) => s.fourcc == fourcc && signature_of_lines(
                text_lines(text@, false),
                fourcc@,
            ) == Some(element_models(s.elements@)),
            None => signature_of_lines(text_lines(text@, false), fourcc@) is None,
        },
{
    let chars = chars_of(text);
    let lines = lines_of(chars.as_slice(), false);
    signature_from_lines(fourcc, &lines)
}

} // verus!
