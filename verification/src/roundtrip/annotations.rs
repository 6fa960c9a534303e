//! Offsets, flags and names of the HLSL form read back.

use vstd::prelude::*;

use crate::chunks::rdef::{bind_flag, flag_names_text};
use crate::grammar::rdef::hlsl::{
    bind_flags_text, component_number, dim_names, extra_flags, packoffset_text, read_bind_flags,
    read_flag, read_flags, read_packoffset, ret_names,
};
use crate::grammar::tables::{table_name, table_value};
use crate::lines::{lemma_split_once_concat, split, split_once};
use crate::numerals::{
    dec_text, hex_text, lemma_number_lacks, lemma_number_text, number_reads_back, number_text,
};
use crate::roundtrip::clean::{is_plain_char, lemma_number_inked};
use crate::roundtrip::modifiers::{lemma_split_first, lemma_split_one};
use crate::roundtrip::programs::lemma_not_contains;
use crate::roundtrip::tables::{
    lemma_keyed_name, lemma_name_and_number, lemma_table_value_index,
};
use crate::roundtrip::words::solid;
use crate::text::{is_white, lacks, lemma_span_until, lemma_span_until_concat, span_until};

verus! {

/// A byte offset written as register and component reads back as it was. Offsets
/// that are no multiple of four have no such text.
#[verifier::rlimit(60)]
pub proof fn packoffset_reads_back(offset: u32)
    requires
        offset % 4 == 0,
    ensures
        packoffset_text(offset) is Some,
        read_packoffset(packoffset_text(offset)->0) == Some(offset),
{
    reveal_strlit("c");
    reveal_strlit(".y");
    reveal_strlit(".z");
    reveal_strlit(".w");
    reveal_strlit("x");
    reveal_strlit("y");
    reveal_strlit("z");
    reveal_strlit("w");
    let n = (offset / 16) as nat;
    let c = (offset % 16) / 4;
    let d = dec_text(n);
    lemma_number_text(n, 10);
    number_reads_back(n, 10, 0xffff_ffff);
    lemma_number_lacks(n, 10, '.');
    let s = packoffset_text(offset)->0;
    let r = s.skip(1);
    assert(s.take(1) =~= "c"@);
    assert(n * 16 + c * 4 == offset);
    if c == 0 {
        let e = Seq::<char>::empty();
        assert(r =~= d);
        assert(d + e =~= d);
        lemma_span_until_concat(d, e, '.', '.', '.');
        assert(split_once(r, '.') is None);
    } else {
        let letter = if c == 1 {
            "y"@
        } else if c == 2 {
            "z"@
        } else {
            "w"@
        };
        assert(r =~= d + seq!['.'] + letter);
        lemma_not_contains(d, '.');
        lemma_split_once_concat(d, '.', letter);
        assert(letter[0] != 'x');
        assert("x"@[0] == 'x' && "y"@[0] == 'y' && "z"@[0] == 'z' && "w"@[0] == 'w');
        assert(component_number(letter) == Some(c as nat));
    }
}

/// The last part behind a separator.
pub proof fn lemma_split_last(a: Seq<char>, sep: char, b: Seq<char>)
    requires
        lacks(b, sep),
    ensures
        split(a + seq![sep] + b, sep) == split(a, sep).push(b),
    decreases a.len(),
{
    lemma_span_until(a, sep, sep, sep);
    let n = span_until(a, sep, sep, sep) as int;
    let s = a + seq![sep] + b;
    if n < a.len() {
        let head = a.take(n);
        let rest = a.skip(n + 1);
        let more = rest + seq![sep] + b;
        assert(s =~= head + (seq![sep] + more));
        assert(lacks(head, sep)) by {
            assert forall|i: int| 0 <= i < head.len() implies #[trigger] head[i] != sep by {
                assert(a[i] != sep);
            }
        }
        lemma_split_first(head, sep, more);
        lemma_split_last(rest, sep, b);
        assert(seq![head] + split(rest, sep).push(b) =~= (seq![head] + split(rest, sep)).push(b));
    } else {
        assert(lacks(a, sep));
        assert(s =~= a + (seq![sep] + b));
        lemma_split_first(a, sep, b);
        lemma_split_one(b, sep);
        assert(seq![a] + seq![b] =~= seq![a].push(b));
    }
}

/// The names of the first `n` flags that are set.
pub open spec fn flag_parts(f: u32, n: int) -> Seq<Seq<char>>
    decreases n,
{
    if n <= 0 {
        Seq::empty()
    } else if f & bind_flag(n - 1).1 != 0 {
        flag_parts(f, n - 1).push(bind_flag(n - 1).0)
    } else {
        flag_parts(f, n - 1)
    }
}

/// The bits of the first `n` flags that are set.
pub open spec fn flag_bits(f: u32, n: int) -> u32
    decreases n,
{
    if n <= 0 {
        0
    } else if f & bind_flag(n - 1).1 != 0 {
        flag_bits(f, n - 1) | bind_flag(n - 1).1
    } else {
        flag_bits(f, n - 1)
    }
}

/// The name of a flag reads back as its bit.
proof fn lemma_flag_name(k: int)
    requires
        0 <= k < 5,
    ensures
        bind_flag(k).0.len() > 0,
        lacks(bind_flag(k).0, '|'),
        read_flag(bind_flag(k).0) == Some(bind_flag(k).1),
{
    reveal_strlit("userPacked");
    reveal_strlit("comparisonSampler");
    reveal_strlit("texComp0");
    reveal_strlit("texComp1");
    reveal_strlit("unused");
    assert("texComp0"@[7] == '0' && "texComp1"@[7] == '1');
    assert("userPacked"@.len() == 10 && "comparisonSampler"@.len() == 17);
    assert("texComp0"@.len() == 8 && "unused"@.len() == 6);
}

proof fn lemma_read_flags_push(parts: Seq<Seq<char>>, p: Seq<char>, n: int)
    requires
        0 <= n <= parts.len(),
    ensures
        read_flags(parts.push(p), n) == read_flags(parts, n),
    decreases n,
{
    if n > 0 {
        lemma_read_flags_push(parts, p, n - 1);
    }
}

proof fn lemma_flag_parts(f: u32, n: int)
    requires
        0 <= n <= 5,
    ensures
        (flag_names_text(f, n, '|').len() == 0) == (flag_parts(f, n).len() == 0),
        flag_parts(f, n).len() > 0 ==> split(flag_names_text(f, n, '|'), '|') == flag_parts(f, n),
        read_flags(flag_parts(f, n), flag_parts(f, n).len() as int) == Some(flag_bits(f, n)),
    decreases n,
{
    if n > 0 {
        lemma_flag_parts(f, n - 1);
        lemma_flag_name(n - 1);
        let before = flag_names_text(f, n - 1, '|');
        let (name, bit) = bind_flag(n - 1);
        let parts = flag_parts(f, n - 1);
        if f & bit != 0 {
            lemma_read_flags_push(parts, name, parts.len() as int);
            if before.len() == 0 {
                assert(before + name =~= name);
                lemma_split_one(name, '|');
                assert(parts.push(name) =~= seq![name]);
            } else {
                assert(before.push('|') + name =~= before + seq!['|'] + name);
                lemma_split_last(before, '|', name);
            }
        }
    }
}

/// The bits of all flags with a name.
proof fn lemma_flag_bits(f: u32)
    ensures
        flag_bits(f, 5) == f & 0x1F,
        (flag_parts(f, 5).len() == 0) == (f & 0x1F == 0),
{
    reveal_with_fuel(flag_bits, 6);
    reveal_with_fuel(flag_parts, 6);
    let b1 = if f & 1 != 0 {
        0u32 | 1
    } else {
        0u32
    };
    let b2 = if f & 2 != 0 {
        b1 | 2
    } else {
        b1
    };
    let b3 = if f & 4 != 0 {
        b2 | 4
    } else {
        b2
    };
    let b4 = if f & 8 != 0 {
        b3 | 8
    } else {
        b3
    };
    let b5 = if f & 0x10 != 0 {
        b4 | 0x10
    } else {
        b4
    };
    assert(flag_bits(f, 5) == b5);
    assert(b5 == f & 0x1F) by (bit_vector)
        requires
            b1 == (if f & 1 != 0 {
                0u32 | 1
            } else {
                0u32
            }),
            b2 == (if f & 2 != 0 {
                b1 | 2
            } else {
                b1
            }),
            b3 == (if f & 4 != 0 {
                b2 | 4
            } else {
                b2
            }),
            b4 == (if f & 8 != 0 {
                b3 | 8
            } else {
                b3
            }),
            b5 == (if f & 0x10 != 0 {
                b4 | 0x10
            } else {
                b4
            }),
    ;
    assert((f & 0x1F == 0) == (f & 1 == 0 && f & 2 == 0 && f & 4 == 0 && f & 8 == 0 && f & 0x10
        == 0)) by (bit_vector);
}

/// A number in hexadecimal, behind `0x`, reads as bits.
proof fn lemma_extra_flag(x: u32)
    ensures
        lacks("0x"@ + hex_text(x as nat), '|'),
        read_flag("0x"@ + hex_text(x as nat)) == Some(x),
{
    reveal_strlit("0x");
    reveal_strlit("userPacked");
    reveal_strlit("comparisonSampler");
    reveal_strlit("texComp0");
    reveal_strlit("texComp1");
    reveal_strlit("unused");
    let d = hex_text(x as nat);
    let s = "0x"@ + d;
    number_reads_back(x as nat, 16, 0xffff_ffff);
    lemma_number_lacks(x as nat, 16, '|');
    assert(s[0] == '0');
    assert("userPacked"@[0] == 'u' && "comparisonSampler"@[0] == 'c' && "texComp0"@[0] == 't'
        && "texComp1"@[0] == 't' && "unused"@[0] == 'u');
    assert(s.take(2) =~= "0x"@);
    assert(s.skip(2) =~= d);
}

/// The flags of a binding written as text read back as they were, those with a
/// name and those without.
pub proof fn bind_flags_read_back(f: u32)
    ensures
        read_bind_flags(bind_flags_text(f)) == Some(f),
{
    let s = bind_flags_text(f);
    lemma_flag_parts(f, 5);
    lemma_flag_bits(f);
    let x = extra_flags(f);
    let parts = flag_parts(f, 5);
    let names = flag_names_text(f, 5, '|');
    assert((f & 0x1F) | (f & 0xFFFF_FFE0) == f) by (bit_vector);
    assert(f & 0xFFFF_FFE0 == 0 ==> f & 0x1F == f) by (bit_vector);
    if f == 0 {
        lemma_zero_flags();
    } else if x == 0 {
        assert(parts.len() > 0);
    } else {
        let h = "0x"@ + hex_text(x as nat);
        lemma_extra_flag(x);
        let all = split(s, '|');
        if names.len() == 0 {
            assert(s =~= h);
            lemma_split_one(h, '|');
            assert(all =~= parts.push(h));
        } else {
            assert(s =~= names + seq!['|'] + h);
            lemma_split_last(names, '|', h);
        }
        assert(all == parts.push(h));
        lemma_read_flags_push(parts, h, parts.len() as int);
    }
}

/// The text of flags is a word.
pub proof fn lemma_bind_flags_solid(f: u32)
    ensures
        solid(bind_flags_text(f)),
{
    reveal_strlit("0");
    reveal_strlit("0x");
    let x = extra_flags(f);
    let h = "0x"@ + hex_text(x as nat);
    lemma_number_inked(x as nat);
    lemma_names_solid(f, 5);
    lemma_flag_parts(f, 5);
    lemma_flag_bits(f);
    assert(f & 0xFFFF_FFE0 == 0 && f & 0x1F == 0 ==> f == 0) by (bit_vector);
    assert forall|i: int| 0 <= i < h.len() implies !is_white(#[trigger] h[i]) by {
        if i >= 2 {
            assert(is_plain_char(hex_text(x as nat)[i - 2]) && hex_text(x as nat)[i - 2] != ' ');
        }
    }
    let s = bind_flags_text(f);
    let names = flag_names_text(f, 5, '|');
    assert forall|i: int| 0 <= i < s.len() implies !is_white(#[trigger] s[i]) by {
        if f != 0 {
            if i < names.len() {
                assert(s[i] == names[i]);
            } else if x != 0 {
                let k = if names.len() == 0 {
                    0int
                } else {
                    names.len() as int + 1
                };
                if i >= k {
                    assert(s[i] == h[i - k]);
                }
            }
        }
    }
}

proof fn lemma_names_solid(f: u32, n: int)
    requires
        0 <= n <= 5,
    ensures
        forall|i: int|
            0 <= i < flag_names_text(f, n, '|').len() ==> !is_white(
                #[trigger] flag_names_text(f, n, '|')[i],
            ),
    decreases n,
{
    if n > 0 {
        reveal_strlit("userPacked");
        reveal_strlit("comparisonSampler");
        reveal_strlit("texComp0");
        reveal_strlit("texComp1");
        reveal_strlit("unused");
        lemma_names_solid(f, n - 1);
        let before = flag_names_text(f, n - 1, '|');
        let (name, bit) = bind_flag(n - 1);
        assert(solid(name));
        let s = flag_names_text(f, n, '|');
        assert forall|i: int| 0 <= i < s.len() implies !is_white(#[trigger] s[i]) by {
            if i < before.len() {
                assert(s[i] == before[i]);
            } else if f & bit != 0 {
                let k = if before.len() == 0 {
                    0int
                } else {
                    before.len() as int + 1
                };
                if i >= k {
                    assert(s[i] == name[i - k]);
                }
            }
        }
    }
}

/// No flags beside others.
pub proof fn lemma_no_flags(b: u32)
    ensures
        0u32 | b == b,
{
    assert(0u32 | b == b) by (bit_vector);
}

proof fn lemma_zero_flags()
    ensures
        read_bind_flags("0"@) == Some(0u32),
{
    reveal_strlit("0");
    reveal_strlit("0x");
    reveal_strlit("userPacked");
    reveal_strlit("comparisonSampler");
    reveal_strlit("texComp0");
    reveal_strlit("texComp1");
    reveal_strlit("unused");
    let s = "0"@;
    lemma_split_one(s, '|');
    reveal_with_fuel(read_flags, 2);
    assert(s =~= number_text(0, 16));
    number_reads_back(0, 16, 0xffff_ffff);
    lemma_no_flags(0);
    assert(read_flag(s) == Some(0u32));
}

// ---------------------------------------------------------------------------
// Names of dimensions and return types
// ---------------------------------------------------------------------------

/// The number that the letters of a dimension's name tell.
pub open spec fn dim_key(s: Seq<char>) -> u32 {
    if s.len() == 6 {
        1
    } else if s.len() == 9 {
        if s[7] == '1' {
            2
        } else if s[7] == '2' {
            4
        } else {
            8
        }
    } else if s.len() == 14 {
        if s[7] == '1' {
            3
        } else {
            5
        }
    } else if s.len() == 11 {
        if s[7] == '2' {
            6
        } else {
            9
        }
    } else if s[7] == '2' {
        7
    } else {
        10
    }
}

/// A dimension's name leads back to its number, and its number to the name.
pub proof fn dimension_names_read_back(v: u32, s: Seq<char>)
    ensures
        table_name(dim_names(), v) is Some ==> table_value(
            dim_names(),
            table_name(dim_names(), v)->0,
        ) == Some(v),
        table_value(dim_names(), s) is Some ==> table_name(
            dim_names(),
            table_value(dim_names(), s)->0,
        ) == Some(s),
{
    reveal_strlit("Buffer");
    reveal_strlit("Texture1D");
    reveal_strlit("Texture1DArray");
    reveal_strlit("Texture2D");
    reveal_strlit("Texture2DArray");
    reveal_strlit("Texture2DMS");
    reveal_strlit("Texture2DMSArray");
    reveal_strlit("Texture3D");
    reveal_strlit("TextureCube");
    reveal_strlit("TextureCubeArray");
    let t = dim_names();
    assert forall|i: int| 0 <= i < t.len() implies dim_key((#[trigger] t[i]).0) == t[i].1 by {
        assert("Texture1D"@[7] == '1' && "Texture1DArray"@[7] == '1' && "Texture2D"@[7] == '2'
            && "Texture2DArray"@[7] == '2' && "Texture2DMS"@[7] == '2' && "Texture2DMSArray"@[7]
            == '2' && "Texture3D"@[7] == '3' && "TextureCube"@[7] == 'C' && "TextureCubeArray"@[7]
            == 'C');
    }
    lemma_keyed_name(t, |s: Seq<char>| dim_key(s), v);
    if table_value(t, s) is Some {
        lemma_table_value_index(t, s);
        lemma_name_and_number(t, s);
    }
}

/// The number that the letters of a return type's name tell.
pub open spec fn ret_key(s: Seq<char>) -> u32 {
    if s.len() == 4 {
        3
    } else if s.len() == 5 {
        if s[0] == 'u' {
            4
        } else {
            6
        }
    } else if s.len() == 7 {
        7
    } else if s[0] == 'u' {
        1
    } else if s[0] == 's' {
        2
    } else {
        5
    }
}

/// A return type's name leads back to its number, and its number to the name.
pub proof fn return_names_read_back(v: u32, s: Seq<char>)
    ensures
        table_name(ret_names(), v) is Some ==> table_value(
            ret_names(),
            table_name(ret_names(), v)->0,
        ) == Some(v),
        table_value(ret_names(), s) is Some ==> table_name(
            ret_names(),
            table_value(ret_names(), s)->0,
        ) == Some(s),
{
    reveal_strlit("unorm4");
    reveal_strlit("snorm4");
    reveal_strlit("int4");
    reveal_strlit("uint4");
    reveal_strlit("float4");
    reveal_strlit("mixed");
    reveal_strlit("double4");
    let t = ret_names();
    assert forall|i: int| 0 <= i < t.len() implies ret_key((#[trigger] t[i]).0) == t[i].1 by {
        assert("unorm4"@[0] == 'u' && "snorm4"@[0] == 's' && "uint4"@[0] == 'u' && "float4"@[0]
            == 'f' && "mixed"@[0] == 'm');
    }
    lemma_keyed_name(t, |s: Seq<char>| ret_key(s), v);
    if table_value(t, s) is Some {
        lemma_table_value_index(t, s);
        lemma_name_and_number(t, s);
    }
}

} // verus!
