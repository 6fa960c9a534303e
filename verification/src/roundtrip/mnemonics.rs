//! Mnemonics and register prefixes read back.

use vstd::prelude::*;

use crate::grammar::shex::reading::{best_opcode, best_register, read_mnemonic, read_register};
use crate::grammar::shex::text::{mnemonic_text, register_text};
use crate::numerals::{
    dec_text, is_lower_digit, lemma_number_lacks, lemma_number_text, number_reads_back,
};
use crate::roundtrip::names::{
    is_mnemonic, is_name_char, is_register_prefix, lemma_mnemonic, lemma_register_prefix,
    no_modifier_at,
};
use crate::shex::ir::{Opcode, RegisterType};
use crate::shex::opcodes::opcode_numbers;
use crate::text::{is_digit, lemma_span_digits_concat, lemma_span_until_concat, starts_with};

verus! {

/// Whether a modifier begins at position `i`.
pub open spec fn modifier_at(s: Seq<char>, i: int) -> bool {
    let n = s.len() - i;
    ||| n >= 2 && s[i] == 'r' && s[i + 1] == 'i'
    ||| n >= 3 && s[i] == 's' && s[i + 1] == 'a' && s[i + 2] == 't'
    ||| n >= 2 && s[i] == 'n' && s[i + 1] == 'z'
    ||| n >= 2 && s[i] == 'p' && s[i + 1] == 'm'
    ||| n >= 2 && s[i] == 's' && s[i + 1] == 'f'
    ||| n >= 2 && s[i] == 'o' && s[i + 1] == 'f'
    ||| n >= 4 && s[i] == 'r' && s[i + 1] == 'e' && s[i + 3] == '('
    ||| n >= 3 && s[i] == 'r' && s[i + 1] == 't' && s[i + 2] == '('
    ||| n >= 2 && s[i] == 'r' && s[i + 1] == 'd'
    ||| n >= 2 && s[i] == 'r' && s[i + 1] == 'r'
}

/// Whether the text can follow a mnemonic: nothing, or an underscore and a
/// modifier.
pub open spec fn follows_mnemonic(tail: Seq<char>) -> bool {
    tail.len() == 0 || (tail[0] == '_' && modifier_at(tail, 1))
}

/// A mnemonic that a text begins with is no longer than the one it was written
/// with.
proof fn lemma_no_longer(m: Seq<char>, tail: Seq<char>, name: Seq<char>)
    requires
        is_mnemonic(m),
        is_mnemonic(name),
        follows_mnemonic(tail),
        starts_with(m + tail, name),
    ensures
        name.len() <= m.len(),
{
    reveal(is_mnemonic);
    let s = m + tail;
    if name.len() > m.len() {
        let k = m.len() as int;
        assert forall|i: int| 0 <= i < name.len() implies #[trigger] name[i] == s[i] by {
            assert(s.take(name.len() as int)[i] == s[i]);
        }
        assert(name[k] == s[k] && s[k] == tail[0]);
        assert(no_modifier_at(name, k + 1));
        let n = name.len() - (k + 1);
        if n >= 1 {
            assert(name[k + 1] == s[k + 1] && s[k + 1] == tail[1]);
        }
        if n >= 2 {
            assert(name[k + 2] == s[k + 2] && s[k + 2] == tail[2]);
        }
        if n >= 3 {
            assert(name[k + 3] == s[k + 3] && s[k + 3] == tail[3]);
        }
        if n >= 4 {
            assert(name[k + 4] == s[k + 4] && s[k + 4] == tail[4]);
        }
        assert(false);
    }
}

/// The longest mnemonic that a text begins with is the one it was written with.
proof fn lemma_best_opcode(v: u32, tail: Seq<char>, n: int)
    requires
        v < 218,
        follows_mnemonic(tail),
        0 <= n <= 218,
    ensures
        ({
            let m = Opcode::spec_from_u32(v).mnemonic();
            match best_opcode(m + tail, n) {
                None => n <= v,
                Some(b) => {
                    &&& b < n
                    &&& n > v ==> b == v
                    &&& n <= v ==> Opcode::spec_from_u32(b).mnemonic().len() < m.len()
                },
            }
        }),
    decreases n,
{
    let m = Opcode::spec_from_u32(v).mnemonic();
    let s = m + tail;
    lemma_mnemonic(v);
    if n > 0 {
        lemma_best_opcode(v, tail, n - 1);
        let u = (n - 1) as u32;
        let name = Opcode::spec_from_u32(u).mnemonic();
        lemma_mnemonic(u);
        assert(starts_with(s, m)) by {
            assert(s.take(m.len() as int) =~= m);
        }
        if starts_with(s, name) {
            lemma_no_longer(m, tail, name);
            if name.len() == m.len() {
                assert(name =~= m) by {
                    assert(s.take(name.len() as int) == name);
                    assert(s.take(m.len() as int) =~= m);
                }
                assert(u == v);
            }
        }
    }
}

/// A mnemonic reads back as its opcode, whatever modifiers follow it.
pub proof fn lemma_read_mnemonic(op: Opcode, tail: Seq<char>)
    requires
        op is Unknown ==> op->Unknown_0 > 217,
        follows_mnemonic(tail),
    ensures
        read_mnemonic(mnemonic_text(op) + tail) == Ok::<(Opcode, Seq<char>), Seq<char>>((op, tail)),
{
    let m = mnemonic_text(op);
    let s = m + tail;
    match op {
        Opcode::Unknown(v) => {
            lemma_no_mnemonic(v, tail, 218);
            reveal_strlit("op");
            let d = dec_text(v as nat);
            assert(s =~= "op"@ + (d + tail));
            assert(s.take(2) =~= "op"@);
            assert(s.skip(2) =~= d + tail);
            lemma_number_text(v as nat, 10);
            number_reads_back(v as nat, 10, 0xffff_ffff);
            assert forall|i: int| 0 <= i < d.len() implies is_digit(#[trigger] d[i]) by {
                assert(is_lower_digit(d[i], 10));
            }
            lemma_span_digits_concat(d, tail);
        },
        _ => {
            opcode_numbers(op);
            let v = op.spec_to_u32();
            lemma_best_opcode(v, tail, 218);
            assert(s.skip(m.len() as int) =~= tail);
        },
    }
}

/// `op` and a number begin with no mnemonic.
proof fn lemma_no_mnemonic(v: u32, tail: Seq<char>, n: int)
    requires
        0 <= n <= 218,
    ensures
        best_opcode("op"@ + dec_text(v as nat) + tail, n) is None,
    decreases n,
{
    if n > 0 {
        lemma_no_mnemonic(v, tail, n - 1);
        reveal(is_mnemonic);
        reveal_strlit("op");
        let s = "op"@ + dec_text(v as nat) + tail;
        let u = (n - 1) as u32;
        lemma_mnemonic(u);
        let name = Opcode::spec_from_u32(u).mnemonic();
        if starts_with(s, name) {
            assert(s.take(name.len() as int)[0] == name[0]);
            assert(s.take(name.len() as int)[1] == name[1]);
            assert(s[0] == 'o' && s[1] == 'p');
        }
    }
}

// ---------------------------------------------------------------------------
// Register files
// ---------------------------------------------------------------------------

/// Whether the text can follow a register prefix: nothing, or neither a letter
/// nor an underscore.
pub open spec fn follows_prefix(rest: Seq<char>) -> bool {
    rest.len() == 0 || !is_name_char(rest[0])
}

/// The longest prefix that a text begins with is the one it was written with.
proof fn lemma_best_register(v: u32, rest: Seq<char>, n: int)
    requires
        v < 41,
        follows_prefix(rest),
        0 <= n <= 41,
    ensures
        ({
            let m = RegisterType::spec_from_u32(v).prefix_text();
            match best_register(m + rest, n) {
                None => n <= v,
                Some(b) => {
                    &&& b < n
                    &&& n > v ==> b == v
                    &&& n <= v ==> RegisterType::spec_from_u32(b).prefix_text().len() < m.len()
                },
            }
        }),
    decreases n,
{
    let m = RegisterType::spec_from_u32(v).prefix_text();
    let s = m + rest;
    lemma_register_prefix(v);
    reveal(is_register_prefix);
    if n > 0 {
        lemma_best_register(v, rest, n - 1);
        let u = (n - 1) as u32;
        let name = RegisterType::spec_from_u32(u).prefix_text();
        lemma_register_prefix(u);
        assert(starts_with(s, m)) by {
            assert(s.take(m.len() as int) =~= m);
        }
        if starts_with(s, name) {
            if name.len() > m.len() {
                let k = m.len() as int;
                assert(s.take(name.len() as int)[k] == s[k]);
                assert(name[k] == rest[0]);
                assert(is_name_char(name[k]));
            }
            if name.len() == m.len() {
                assert(name =~= m) by {
                    assert(s.take(name.len() as int) == name);
                    assert(s.take(m.len() as int) =~= m);
                }
                assert(u == v);
            }
        }
    }
}

/// A register file with a name has a number below the first without one.
pub proof fn lemma_register_number(r: RegisterType)
    requires
        !(r is Unknown),
    ensures
        r.spec_to_u32() < 41,
        RegisterType::spec_from_u32(r.spec_to_u32()) == r,
{
}

/// The number of a register file without a name reads back.
proof fn lemma_read_numbered(v: u32, rest: Seq<char>)
    ensures
        read_register("?reg("@ + dec_text(v as nat) + seq![')'] + rest) == Ok::<
            (RegisterType, Seq<char>),
            Seq<char>,
        >((RegisterType::Unknown(v), rest)),
{
    reveal_strlit("?reg(");
    let d = dec_text(v as nat);
    let tail = seq![')'] + rest;
    let s = "?reg("@ + d + seq![')'] + rest;
    assert(s =~= "?reg("@ + (d + tail));
    assert(s.take(5) =~= "?reg("@);
    assert(s.skip(5) =~= d + tail);
    lemma_number_lacks(v as nat, 10, ')');
    number_reads_back(v as nat, 10, 0xffff_ffff);
    lemma_span_until_concat(d, tail, ')', ')', ')');
    assert((d + tail).skip(d.len() as int + 1) =~= rest);
}

/// The prefix of a register file reads back.
proof fn lemma_read_prefix(v: u32, rest: Seq<char>)
    requires
        v < 41,
        follows_prefix(rest),
    ensures
        read_register(RegisterType::spec_from_u32(v).prefix_text() + rest) == Ok::<
            (RegisterType, Seq<char>),
            Seq<char>,
        >((RegisterType::spec_from_u32(v), rest)),
{
    reveal_strlit("?reg(");
    let p = RegisterType::spec_from_u32(v).prefix_text();
    let s = p + rest;
    lemma_register_prefix(v);
    assert(is_name_char(p[0]) && p.len() > 0) by {
        reveal(is_register_prefix);
    }
    lemma_best_register(v, rest, 41);
    assert(s[0] == p[0]);
    if starts_with(s, "?reg("@) {
        assert(s.take(5)[0] == '?');
    }
    assert(s.skip(p.len() as int) =~= rest);
}

/// A register prefix reads back as its register file.
pub proof fn lemma_read_register(r: RegisterType, rest: Seq<char>)
    requires
        r is Unknown ==> r->Unknown_0 > 40,
        follows_prefix(rest),
    ensures
        read_register(register_text(r) + rest) == Ok::<(RegisterType, Seq<char>), Seq<char>>(
            (r, rest),
        ),
{
    match r {
        RegisterType::Unknown(v) => {
            lemma_read_numbered(v, rest);
        },
        _ => {
            lemma_register_number(r);
            lemma_read_prefix(r.spec_to_u32(), rest);
        },
    }
}

} // verus!
