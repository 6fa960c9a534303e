//! What space types, variables and buffers take.

use vstd::prelude::*;

use crate::bytes::{lemma_word_bytes, word_at, word_bytes};
use crate::checksum::zeros;
use crate::chunks::rdef::{BindingModel, CBufferModel, MemberModel, TypeModel, VariableModel};
use crate::floats::Spellings;
use crate::grammar::rdef::decode::{
    buffer_size, completed_binding, completed_buffer, find_buffer, plus_word, read_declarator,
    read_member, register_of, variables_end, without_semicolon,
};
use crate::grammar::rdef::hlsl::{
    component_count, derived_var_size, element_size, members_end, natural_or_zero, natural_size,
    read_default, read_default_parts, read_packoffset, read_scalar, read_scalars, round16,
    struct_size, type_size,
};
use crate::lines::{lemma_split_once_concat, split_once, trim, words};
use crate::numerals::{dec_text, lemma_number_lacks, number_reads_back};
use crate::roundtrip::programs::lemma_not_contains;
use crate::text::{lemma_span_until, starts_with, strip_prefix};

verus! {

// ---------------------------------------------------------------------------
// Types
// ---------------------------------------------------------------------------

/// The type with that class, that many rows and columns.
pub open spec fn shaped(t: TypeModel, class: u16, rows: u16, columns: u16) -> TypeModel {
    TypeModel { class, rows, columns, ..t }
}

/// A double takes eight bytes and every other scalar four; a vector takes its
/// components, and a matrix its rows, by rows or by columns. Structs and objects
/// have no size of their own.
pub proof fn types_have_their_sizes(t: TypeModel, rows: u16, columns: u16)
    requires
        t.members.len() == 0,
        t.elements == 0,
    ensures
        natural_size(shaped(t, 0, rows, columns)) == Some(
            if t.var_type == 39 {
                8nat
            } else {
                4nat
            },
        ),
        natural_size(shaped(t, 1, rows, columns)) == Some(
            (columns * natural_size(shaped(t, 0, rows, columns))->0) as nat,
        ),
        natural_size(shaped(t, 3, rows, columns)) == Some(
            (rows * natural_size(shaped(t, 1, rows, columns))->0) as nat,
        ),
        natural_size(shaped(t, 2, rows, columns)) == natural_size(shaped(t, 3, rows, columns)),
        t.class > 3 ==> natural_size(t) is None,
        component_count(shaped(t, 0, rows, columns)) == Some(1nat),
        component_count(shaped(t, 1, rows, columns)) == Some(columns as nat),
        component_count(shaped(t, 2, rows, columns)) == Some((rows * columns) as nat),
        component_count(shaped(t, 3, rows, columns)) == Some((rows * columns) as nat),
{
    let b: int = if t.var_type == 39 {
        8
    } else {
        4
    };
    assert(b * columns == columns * b) by (nonlinear_arith);
    assert(b * rows * columns == rows * (columns * b)) by (nonlinear_arith);
}

/// A variable that is no array takes the size of its type. One element more makes an
/// array longer by what is left of the last register and that element: each element
/// begins the first register behind the one before it.
pub proof fn array_elements_begin_registers(t: TypeModel, n: u16)
    requires
        0 < n < 0xffff,
        element_size(t) is Some,
    ensures
        derived_var_size(TypeModel { elements: 0, ..t }) == element_size(t),
        derived_var_size(TypeModel { elements: 1, ..t }) == element_size(t),
        ({
            let e = element_size(t)->0;
            let a = derived_var_size(TypeModel { elements: n, ..t });
            let b = derived_var_size(TypeModel { elements: (n + 1) as u16, ..t });
            &&& a is Some
            &&& b is Some
            &&& (b->0 - e) % 16 == 0
            &&& a->0 <= b->0 - e < a->0 + 16
        }),
        element_size(TypeModel { elements: n, ..t }) == element_size(t),
{
    let e = element_size(t)->0;
    let r = round16(e);
    let m = (n - 1) as int;
    assert((m + 1) * r == m * r + r) by (nonlinear_arith);
    assert((0 * r) == 0);
    assert(((m + 1) * r) % 16 == 0) by {
        let k = ((e + 15) / 16) as int;
        assert(r == k * 16);
        assert((m + 1) * (k * 16) == ((m + 1) * k) * 16) by (nonlinear_arith);
    }
}

/// A struct reaches to the end of the member that ends last, of those with a natural
/// size.
pub proof fn structs_hold_their_members(ms: Seq<MemberModel>, i: int)
    requires
        0 <= i < ms.len(),
    ensures
        natural_size(ms[i].member_type) is Some ==> ms[i].offset + natural_size(ms[i].member_type)->0
            <= struct_size(ms),
        struct_size(ms) == 0 || exists|j: int|
            0 <= j < ms.len() && natural_size(#[trigger] ms[j].member_type) is Some && ms[j].offset
                + natural_size(ms[j].member_type)->0 == struct_size(ms),
{
    lemma_members_end(ms, i, ms.len() as int);
}

proof fn lemma_members_end(ms: Seq<MemberModel>, i: int, n: int)
    requires
        0 <= n <= ms.len(),
    ensures
        0 <= i < n && natural_size(ms[i].member_type) is Some ==> ms[i].offset + natural_size(
            ms[i].member_type,
        )->0 <= members_end(ms, n),
        members_end(ms, n) == 0 || exists|j: int|
            0 <= j < n && natural_size(#[trigger] ms[j].member_type) is Some && ms[j].offset
                + natural_size(ms[j].member_type)->0 == members_end(ms, n),
    decreases n,
{
    if n > 0 {
        lemma_members_end(ms, i, n - 1);
        if members_end(ms, n) != members_end(ms, n - 1) {
            assert(natural_size(ms[n - 1].member_type) is Some);
        }
    }
}

/// The size of a type with members is that of the struct, and of any other that of the
/// type, nought for an array.
pub proof fn struct_types_have_their_sizes(t: TypeModel)
    ensures
        t.members.len() > 0 ==> type_size(t) == struct_size(t.members),
        t.members.len() == 0 && natural_size(t) is Some ==> type_size(t) == natural_size(t)->0,
        t.members.len() == 0 && t.elements > 0 ==> type_size(t) == 0,
{
}

/// A member without an offset of its own begins where the member before it ends, the
/// first at nought; one with an offset behind a plus sign begins there.
pub proof fn members_follow_each_other(
    line: Seq<char>,
    ms: Seq<MemberModel>,
    ss: Seq<TypeModel>,
    sm5: bool,
    o: u32,
)
    requires
        read_member(line, ms, ss, sm5) is Some,
    ensures
        ({
            let ws = words(without_semicolon(line));
            let next = read_declarator(ws)->0.next;
            let m = read_member(line, ms, ss, sm5)->0;
            let signed = |k: int| next <= k < ws.len() && starts_with(ws[k], seq!['+']);
            &&& (forall|k: int| !#[trigger] signed(k)) ==> m.offset == (if ms.len() == 0 {
                0
            } else {
                ms.last().offset + natural_or_zero(ms.last().member_type)
            })
            &&& forall|k: int|
                #[trigger] signed(k) && ws[k] == seq!['+'] + dec_text(o as nat) && (forall|j: int|
                    j < k ==> !#[trigger] signed(j)) ==> m.offset == o
        }),
{
    let ws = words(without_semicolon(line));
    let next = read_declarator(ws)->0.next;
    let signed = |k: int| next <= k < ws.len() && starts_with(ws[k], seq!['+']);
    reveal_strlit("+");
    assert("+"@ =~= seq!['+']);
    if forall|k: int| !#[trigger] signed(k) {
        assert forall|k: int| next <= k < ws.len() implies !starts_with(#[trigger] ws[k], "+"@) by {
            assert(!signed(k));
        }
        lemma_no_plus(ws, next);
    }
    assert forall|k: int|
        #[trigger] signed(k) && ws[k] == seq!['+'] + dec_text(o as nat) && (forall|j: int|
            j < k ==> !#[trigger] signed(j)) implies read_member(line, ms, ss, sm5)->0.offset == o by {
        assert forall|j: int| next <= j < k implies !starts_with(#[trigger] ws[j], "+"@) by {
            assert(!signed(j));
        }
        lemma_plus(ws, next, k);
        assert(ws[k].skip(1) =~= dec_text(o as nat));
        number_reads_back(o as nat, 10, 0xffff_ffff);
    }
}

proof fn lemma_no_plus(ws: Seq<Seq<char>>, k: int)
    requires
        0 <= k,
        forall|j: int| k <= j < ws.len() ==> !starts_with(#[trigger] ws[j], "+"@),
    ensures
        plus_word(ws, k) is None,
    decreases ws.len() - k,
{
    if k < ws.len() {
        lemma_no_plus(ws, k + 1);
    }
}

proof fn lemma_plus(ws: Seq<Seq<char>>, k: int, n: int)
    requires
        0 <= k <= n < ws.len(),
        forall|j: int| k <= j < n ==> !starts_with(#[trigger] ws[j], "+"@),
        starts_with(ws[n], "+"@),
    ensures
        plus_word(ws, k) == Some(ws[n].skip("+"@.len() as int)),
    decreases n - k,
{
    if k < n {
        lemma_plus(ws, k + 1, n);
    }
}

// ---------------------------------------------------------------------------
// Buffers
// ---------------------------------------------------------------------------

/// A constant buffer fills whole registers and no more than its variables need; other
/// buffers end with the variable that ends last.
pub proof fn buffers_hold_their_variables(
    c: CBufferModel,
    bs: Seq<BindingModel>,
    p: Option<crate::shex::ir::ProgramModel>,
    i: int,
)
    requires
        0 <= i < c.variables.len(),
        buffer_size(c) <= 0xffff_ffff,
    ensures
        ({
            let r = completed_buffer(c, bs, p);
            let past = if c.cb_type == 0 {
                16int
            } else {
                1
            };
            &&& c.variables[i].offset + c.variables[i].size <= r.size
            &&& c.cb_type == 0 ==> r.size % 16 == 0
            &&& r.size == 0 || exists|j: int|
                0 <= j < c.variables.len() && r.size - past < #[trigger] c.variables[j].offset
                    + c.variables[j].size
            &&& r.name == c.name
            &&& r.flags == c.flags
            &&& r.cb_type == c.cb_type
            &&& r.variables.len() == c.variables.len()
            &&& r.variables[i].offset == c.variables[i].offset
            &&& r.variables[i].size == c.variables[i].size
        }),
{
    let n = c.variables.len() as int;
    lemma_variables_end(c.variables, i, n);
    let e = variables_end(c.variables, n);
    let size = completed_buffer(c, bs, p).size;
    assert(size == buffer_size(c));
    if size != 0 {
        assert(e != 0);
        let j = choose|j: int|
            0 <= j < n && #[trigger] c.variables[j].offset + c.variables[j].size == e;
        assert(c.variables[j].offset + c.variables[j].size == e);
    }
}

proof fn lemma_variables_end(vs: Seq<VariableModel>, i: int, n: int)
    requires
        0 <= n <= vs.len(),
    ensures
        0 <= i < n ==> vs[i].offset + vs[i].size <= variables_end(vs, n),
        variables_end(vs, n) == 0 || exists|j: int|
            0 <= j < n && #[trigger] vs[j].offset + vs[j].size == variables_end(vs, n),
    decreases n,
{
    if n > 0 {
        lemma_variables_end(vs, i, n - 1);
        if variables_end(vs, n) != variables_end(vs, n - 1) {
            assert(vs[n - 1].offset + vs[n - 1].size == variables_end(vs, n));
        }
    }
}

/// A structured binding without a stride takes the size of the first variable of the
/// first buffer with its name; every other binding stays as it is.
pub proof fn strides_are_sizes(cs: Seq<CBufferModel>, b: BindingModel, k: int)
    requires
        0 <= k < cs.len(),
        cs[k].name == b.name,
        forall|j: int| 0 <= j < k ==> #[trigger] cs[j].name != b.name,
        cs[k].variables.len() > 0,
        type_size(cs[k].variables[0].var_type) <= 0xffff_ffff,
    ensures
        ({
            let r = completed_binding(cs, b);
            let structured = b.input_type == 5 || b.input_type == 6 || b.input_type == 9
                || b.input_type == 10 || b.input_type == 11;
            &&& structured && b.num_samples == 0 ==> r.num_samples == type_size(
                cs[k].variables[0].var_type,
            )
            &&& !structured || b.num_samples != 0 ==> r == b
            &&& r == (BindingModel { num_samples: r.num_samples, ..b })
        }),
{
    lemma_find_buffer(cs, b.name, 0, k);
}

proof fn lemma_find_buffer(cs: Seq<CBufferModel>, name: Seq<char>, k: int, n: int)
    requires
        0 <= k <= n < cs.len(),
        cs[n].name == name,
        forall|j: int| k <= j < n ==> #[trigger] cs[j].name != name,
    ensures
        find_buffer(cs, name, k) == Some(cs[n]),
    decreases n - k,
{
    if k < n {
        lemma_find_buffer(cs, name, k + 1, n);
    }
}

/// The register of a buffer is that of the last constant buffer binding with its
/// name.
pub proof fn registers_are_those_of_bindings(bs: Seq<BindingModel>, name: Seq<char>, k: int)
    ensures
        0 <= k < bs.len() && bs[k].name == name && bs[k].input_type == 0 && (forall|j: int|
            k < j < bs.len() ==> !(#[trigger] bs[j].name == name && bs[j].input_type == 0))
            ==> register_of(bs, name, bs.len() as int) == Some(bs[k].bind_point),
        (forall|j: int|
            0 <= j < bs.len() ==> !(#[trigger] bs[j].name == name && bs[j].input_type == 0))
            ==> register_of(bs, name, bs.len() as int) is None,
{
    if 0 <= k < bs.len() && bs[k].name == name && bs[k].input_type == 0 && (forall|j: int|
        k < j < bs.len() ==> !(#[trigger] bs[j].name == name && bs[j].input_type == 0)) {
        lemma_register(bs, name, k, bs.len() as int);
    }
    if forall|j: int|
        0 <= j < bs.len() ==> !(#[trigger] bs[j].name == name && bs[j].input_type == 0) {
        lemma_no_register(bs, name, bs.len() as int);
    }
}

proof fn lemma_register(bs: Seq<BindingModel>, name: Seq<char>, k: int, n: int)
    requires
        0 <= k < n <= bs.len(),
        bs[k].name == name,
        bs[k].input_type == 0,
        forall|j: int| k < j < n ==> !(#[trigger] bs[j].name == name && bs[j].input_type == 0),
    ensures
        register_of(bs, name, n) == Some(bs[k].bind_point),
    decreases n,
{
    if k < n - 1 {
        assert(!(bs[n - 1].name == name && bs[n - 1].input_type == 0));
        lemma_register(bs, name, k, n - 1);
    }
}

proof fn lemma_no_register(bs: Seq<BindingModel>, name: Seq<char>, n: int)
    requires
        n <= bs.len(),
        forall|j: int| 0 <= j < n ==> !(#[trigger] bs[j].name == name && bs[j].input_type == 0),
    ensures
        register_of(bs, name, n) is None,
    decreases n,
{
    if n > 0 {
        assert(!(bs[n - 1].name == name && bs[n - 1].input_type == 0));
        lemma_no_register(bs, name, n - 1);
    }
}

// ---------------------------------------------------------------------------
// Places and values
// ---------------------------------------------------------------------------

/// A register takes sixteen bytes and a component of it four.
pub proof fn registers_take_sixteen_bytes(r: u32)
    requires
        16 * r + 12 <= 0xffff_ffff,
    ensures
        read_packoffset(seq!['c'] + dec_text(r as nat)) == Some((16 * r) as u32),
        read_packoffset(seq!['c'] + dec_text(r as nat) + seq!['.', 'x']) == Some((16 * r) as u32),
        read_packoffset(seq!['c'] + dec_text(r as nat) + seq!['.', 'y']) == Some(
            (16 * r + 4) as u32,
        ),
        read_packoffset(seq!['c'] + dec_text(r as nat) + seq!['.', 'z']) == Some(
            (16 * r + 8) as u32,
        ),
        read_packoffset(seq!['c'] + dec_text(r as nat) + seq!['.', 'w']) == Some(
            (16 * r + 12) as u32,
        ),
{
    reveal_strlit("c");
    reveal_strlit("x");
    reveal_strlit("y");
    reveal_strlit("z");
    reveal_strlit("w");
    let d = dec_text(r as nat);
    number_reads_back(r as nat, 10, 0xffff_ffff);
    lemma_number_lacks(r as nat, 10, '.');
    lemma_not_contains(d, '.');
    let s = seq!['c'] + d;
    assert(s.take(1) =~= "c"@);
    assert(s.skip(1) =~= d);
    lemma_span_until(d, '.', '.', '.');
    assert(split_once(d, '.') is None);
    lemma_packed(d, 'x');
    lemma_packed(d, 'y');
    lemma_packed(d, 'z');
    lemma_packed(d, 'w');
    assert(seq!['x'] =~= "x"@);
    assert(seq!['y'] =~= "y"@);
    assert(seq!['z'] =~= "z"@);
    assert(seq!['w'] =~= "w"@);
    assert("x"@[0] == 'x' && "y"@[0] == 'y' && "z"@[0] == 'z' && "w"@[0] == 'w');
}

proof fn lemma_packed(d: Seq<char>, c: char)
    requires
        !d.contains('.'),
    ensures
        ({
            let s = seq!['c'] + d + seq!['.', c];
            &&& strip_prefix(s, "c"@) is Some
            &&& split_once(strip_prefix(s, "c"@)->0, '.') == Some((d, seq![c]))
        }),
{
    reveal_strlit("c");
    let s = seq!['c'] + d + seq!['.', c];
    assert(s.take(1) =~= "c"@);
    assert(s.skip(1) =~= d + seq!['.'] + seq![c]);
    lemma_split_once_concat(d, '.', seq![c]);
}

/// The scalars of an initializer stand four bytes apart, those of an array sixteen,
/// with nothing but noughts between them.
pub proof fn initial_values_have_their_places(
    t: TypeModel,
    s: Seq<char>,
    ft: Spellings,
    k: int,
)
    requires
        read_default(t, s, ft) is Some,
    ensures
        ({
            let b = read_default(t, s, ft)->0;
            let ps = read_default_parts(t, s)->0;
            let n: int = if t.elements != 0 {
                t.elements as int
            } else {
                component_count(t)->0 as int
            };
            let step: int = if t.elements != 0 {
                16
            } else {
                4
            };
            &&& ps.len() == n
            &&& n > 0 ==> b.len() == (n - 1) * step + 4
            &&& 0 <= k < n ==> 0 <= k * step && k * step + 4 <= b.len() && read_scalar(
                t.var_type,
                trim(ps[k]),
                ft,
            ) == Some(word_at(b, k * step))
            &&& forall|i: int| 0 <= i < b.len() && i % step >= 4 ==> #[trigger] b[i] == 0
        }),
{
    let ps = read_default_parts(t, s)->0;
    let gap: nat = if t.elements != 0 {
        12
    } else {
        0
    };
    lemma_scalars(t.var_type, ps, gap, ps.len() as int, ft, k);
}

proof fn lemma_scalars(
    var_type: u16,
    ps: Seq<Seq<char>>,
    gap: nat,
    n: int,
    ft: Spellings,
    k: int,
)
    requires
        0 <= n <= ps.len(),
        gap == 0 || gap == 12,
        read_scalars(var_type, ps, gap, n, ft) is Some,
    ensures
        ({
            let b = read_scalars(var_type, ps, gap, n, ft)->0;
            let step = gap + 4;
            &&& b.len() == (if 0 < n && n == ps.len() {
                (n - 1) * step + 4
            } else {
                n * step
            })
            &&& 0 <= k < n ==> 0 <= k * step && k * step + 4 <= b.len() && read_scalar(
                var_type,
                trim(ps[k]),
                ft,
            ) == Some(word_at(b, (k * step) as int))
            &&& forall|i: int| 0 <= i < b.len() && i % (step as int) >= 4 ==> #[trigger] b[i] == 0
        }),
    decreases n,
{
    let step = (gap + 4) as int;
    if n > 0 {
        lemma_scalars(var_type, ps, gap, n - 1, ft, k);
        let a = read_scalars(var_type, ps, gap, n - 1, ft)->0;
        let w = read_scalar(var_type, trim(ps[n - 1]), ft)->0;
        let b = read_scalars(var_type, ps, gap, n, ft)->0;
        lemma_word_bytes(w);
        assert(a.len() == (n - 1) * step);
        assert((n - 1) * step + step == n * step) by (nonlinear_arith);
        assert(((n - 1) * step) % step == 0) by (nonlinear_arith)
            requires
                step > 0,
        ;
        let at = (n - 1) * step;
        if 0 <= k < n - 1 {
            assert(b.subrange(k * step, k * step + 4) =~= a.subrange(k * step, k * step + 4));
        } else if k == n - 1 {
            assert(0 <= at) by (nonlinear_arith)
                requires
                    at == (n - 1) * step,
                    n > 0,
                    step > 0,
            ;
            assert(b.subrange(at, at + 4) =~= word_bytes(w));
        }
        assert forall|i: int| 0 <= i < b.len() && i % step >= 4 implies #[trigger] b[i] == 0 by {
            if i < a.len() {
                assert(b[i] == a[i]);
            } else {
                assert(i == at + (i - at));
                assert(i % step == i - at) by (nonlinear_arith)
                    requires
                        at == (n - 1) * step,
                        at <= i < at + step,
                        step > 0,
                ;
                assert(b[i] == zeros(gap)[i - at - 4]);
            }
        }
    }
}

} // verus!
