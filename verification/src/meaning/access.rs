//! What the names behind instructions tell.

use vstd::prelude::*;

use crate::chunks::rdef::{BindingModel, RdefModel, VariableModel};
use crate::numerals::dec_text;
use crate::shex::ir::{ComponentSelect, IndexModel, OperandModel, RegisterType};
use crate::symbolicate::{
    access_text, bound_at, buffer_named, component_seq, component_variable, constant_name,
    dynamic_name, element_registers, letters, masked, plain_operand, pow2, resource_name,
    static_name, swizzle_text, variable_at, within_one,
};

verus! {

// ---------------------------------------------------------------------------
// Components
// ---------------------------------------------------------------------------

/// Whether `cs` lists the components that a selection takes: those of a swizzle in
/// their four places, the one of a scalar, those of a mask in rising order.
pub open spec fn lists(c: ComponentSelect, cs: Seq<int>) -> bool {
    match c {
        ComponentSelect::Scalar(k) => cs.len() == 1 && cs[0] == k % 4,
        ComponentSelect::Swizzle(s) => cs.len() == 4 && forall|i: int|
            0 <= i < 4 ==> #[trigger] cs[i] == s@[i] % 4,
        ComponentSelect::Mask(m) => {
            &&& forall|i: int, j: int| 0 <= i < j < cs.len() ==> #[trigger] cs[i] < #[trigger] cs[j]
            &&& cs.contains(0) == (m % 2 == 1)
            &&& cs.contains(1) == (m / 2 % 2 == 1)
            &&& cs.contains(2) == (m / 4 % 2 == 1)
            &&& cs.contains(3) == (m / 8 % 2 == 1)
            &&& forall|i: int| 0 <= i < cs.len() ==> 0 <= #[trigger] cs[i] < 4
        },
        _ => cs.len() == 1 && cs[0] == 0,
    }
}

/// The components that a selection takes, as numbers.
pub open spec fn taken(c: ComponentSelect) -> Seq<int> {
    Seq::new(component_seq(c).len(), |i: int| component_seq(c)[i] as int)
}

proof fn lemma_mask_list(m: u8, n: int)
    requires
        0 <= n <= 4,
    ensures
        ({
            let s = masked(m, n);
            &&& forall|i: int, j: int| 0 <= i < j < s.len() ==> #[trigger] s[i] < #[trigger] s[j]
            &&& forall|i: int| 0 <= i < s.len() ==> 0 <= #[trigger] s[i] < n
            &&& n > 0 ==> s.contains(0u8) == (m % 2 == 1)
            &&& n > 1 ==> s.contains(1u8) == (m / 2 % 2 == 1)
            &&& n > 2 ==> s.contains(2u8) == (m / 4 % 2 == 1)
            &&& n > 3 ==> s.contains(3u8) == (m / 8 % 2 == 1)
        }),
    decreases n,
{
    if n > 0 {
        lemma_mask_list(m, n - 1);
        let a = masked(m, n - 1);
        let s = masked(m, n);
        let x = (n - 1) as u8;
        assert(n == 1 || n == 2 || n == 3 || n == 4);
        if n == 1 {
            assert(pow2(0) == 1u8);
            assert(m / 1u8 == m);
        } else if n == 2 {
            assert(pow2(1) == 2u8);
        } else if n == 3 {
            assert(pow2(2) == 4u8);
        } else {
            assert(pow2(3) == 8u8);
        }
        if (m / pow2(n - 1)) % 2 == 1 {
            assert(s == a.push(x));
            assert forall|y: u8| y != x implies #[trigger] s.contains(y) == a.contains(y) by {
                if a.contains(y) {
                    let i = choose|i: int| 0 <= i < a.len() && a[i] == y;
                    assert(s[i] == y);
                }
                if s.contains(y) {
                    let i = choose|i: int| 0 <= i < s.len() && s[i] == y;
                    assert(a[i] == y);
                }
            }
            assert(s[a.len() as int] == x);
            assert(s.contains(x));
        } else if s.contains(x) {
            let i = choose|i: int| 0 <= i < s.len() && s[i] == x;
            assert(a[i] < n - 1);
        }
        assert(s.contains(x) == ((m / pow2(n - 1)) % 2 == 1));
        assert(n > 1 ==> s.contains(0u8) == a.contains(0u8));
        assert(n > 2 ==> s.contains(1u8) == a.contains(1u8));
        assert(n > 3 ==> s.contains(2u8) == a.contains(2u8));
    }
}

proof fn lemma_contains(s: Seq<u8>, t: Seq<int>, x: u8)
    requires
        t.len() == s.len(),
        forall|i: int| 0 <= i < s.len() ==> #[trigger] t[i] == s[i],
    ensures
        t.contains(x as int) == s.contains(x),
{
    if s.contains(x) {
        let i = choose|i: int| 0 <= i < s.len() && s[i] == x;
        assert(t[i] == x);
    }
    if t.contains(x as int) {
        let i = choose|i: int| 0 <= i < t.len() && t[i] == x;
        assert(t[i] == s[i]);
    }
}

/// The components that a name speaks of are those that the operand selects.
pub proof fn components_are_listed(c: ComponentSelect)
    ensures
        lists(c, taken(c)),
{
    match c {
        ComponentSelect::Mask(m) => {
            lemma_mask_list(m, 4);
            lemma_contains(component_seq(c), taken(c), 0);
            lemma_contains(component_seq(c), taken(c), 1);
            lemma_contains(component_seq(c), taken(c), 2);
            lemma_contains(component_seq(c), taken(c), 3);
        },
        _ => {},
    }
}

/// Whether `t` is a dot and one letter for each component: x for the component
/// number `shift`, y, z and w for those behind it, and x again for those before.
pub open spec fn spells(t: Seq<char>, cs: Seq<int>, shift: int) -> bool {
    &&& t.len() == cs.len() + 1
    &&& t[0] == '.'
    &&& forall|i: int|
        0 <= i < cs.len() ==> #[trigger] t[i + 1] == if cs[i] - shift <= 0 {
            'x'
        } else if cs[i] - shift == 1 {
            'y'
        } else if cs[i] - shift == 2 {
            'z'
        } else {
            'w'
        }
}

proof fn lemma_letters(cs: Seq<u8>, shift: int, n: int)
    requires
        0 <= n <= cs.len(),
        0 <= shift < 4,
        forall|i: int| 0 <= i < cs.len() ==> #[trigger] cs[i] < 4,
    ensures
        spells(letters(cs, shift, n), Seq::new(n as nat, |i: int| cs[i] as int), shift),
    decreases n,
{
    reveal_strlit(".");
    if n > 0 {
        lemma_letters(cs, shift, n - 1);
        let t = letters(cs, shift, n);
        let u = letters(cs, shift, n - 1);
        assert forall|i: int| 0 <= i < n implies #[trigger] t[i + 1] == if cs[i] - shift <= 0 {
            'x'
        } else if cs[i] - shift == 1 {
            'y'
        } else if cs[i] - shift == 2 {
            'z'
        } else {
            'w'
        } by {
            if i < n - 1 {
                assert(t[i + 1] == u[i + 1]);
            }
        }
    }
}

proof fn lemma_swizzle(c: ComponentSelect, shift: int)
    requires
        0 <= shift < 4,
    ensures
        spells(swizzle_text(component_seq(c), shift), taken(c), shift),
{
    let cs = component_seq(c);
    components_are_listed(c);
    assert forall|i: int| 0 <= i < cs.len() implies #[trigger] cs[i] < 4 by {
        assert(taken(c)[i] == cs[i]);
    }
    lemma_letters(cs, shift, cs.len() as int);
    assert(Seq::new(cs.len(), |i: int| cs[i] as int) =~= taken(c));
}

// ---------------------------------------------------------------------------
// Variables
// ---------------------------------------------------------------------------

/// Whether byte `x` of the buffer belongs to the variable.
pub open spec fn covers(v: VariableModel, x: int) -> bool {
    v.offset <= x < v.offset + v.size
}

/// Whether variable `m` alone covers the components of register `reg` that are
/// taken.
pub open spec fn alone(vs: Seq<VariableModel>, m: int, reg: u32, c: ComponentSelect) -> bool {
    &&& 0 <= m < vs.len()
    &&& taken(c).len() > 0
    &&& forall|i: int|
        #![trigger taken(c)[i]]
        0 <= i < taken(c).len() ==> covers(vs[m], 16 * reg + 4 * taken(c)[i])
    &&& forall|i: int, l: int|
        #![trigger taken(c)[i], vs[l]]
        0 <= i < taken(c).len() && 0 <= l < vs.len() && l != m ==> !covers(
            vs[l],
            16 * reg + 4 * taken(c)[i],
        )
}

proof fn lemma_variable_at(vs: Seq<VariableModel>, m: int, x: int, k: int)
    requires
        0 <= k <= m < vs.len(),
        covers(vs[m], x),
        forall|l: int| 0 <= l < m ==> !covers(#[trigger] vs[l], x),
    ensures
        variable_at(vs, x, k) == Some(vs[m]),
    decreases m - k,
{
    if k < m {
        assert(!covers(vs[k], x));
        lemma_variable_at(vs, m, x, k + 1);
    }
}

proof fn lemma_no_variable(vs: Seq<VariableModel>, x: int, k: int)
    requires
        0 <= k <= vs.len(),
        forall|l: int| 0 <= l < vs.len() ==> !covers(#[trigger] vs[l], x),
    ensures
        variable_at(vs, x, k) is None,
    decreases vs.len() - k,
{
    if k < vs.len() {
        assert(!covers(vs[k], x));
        lemma_no_variable(vs, x, k + 1);
    }
}

proof fn lemma_alone(vs: Seq<VariableModel>, m: int, reg: u32, c: ComponentSelect)
    requires
        alone(vs, m, reg, c),
    ensures
        static_name(vs, reg, c) == Some(access_text(vs[m], reg as int, component_seq(c))),
{
    let cs = component_seq(c);
    assert forall|i: int| 0 <= i < cs.len() implies component_variable(vs, reg, #[trigger] cs[i])
        == Some(vs[m]) by {
        assert(taken(c)[i] == cs[i]);
        let x = 16 * reg + 4 * taken(c)[i];
        assert forall|l: int| 0 <= l < m implies !covers(#[trigger] vs[l], x) by {
            assert(taken(c)[i] == cs[i] && vs[l] == vs[l]);
        }
        lemma_variable_at(vs, m, x, 0);
    }
    assert(component_variable(vs, reg, cs[0]) == Some(vs[m]));
    assert(within_one(vs, reg, cs, cs.len() as int));
}

/// Whether `k` is the number of registers that an element of an array of `n`
/// elements and `size` bytes takes: the least that holds them all.
pub open spec fn registers_each(size: int, n: int, k: int) -> bool {
    k >= 1 && size <= 16 * k * n && (k == 1 || size > 16 * (k - 1) * n)
}

proof fn lemma_registers(v: VariableModel, k: int)
    requires
        v.var_type.elements > 0,
        registers_each(v.size as int, v.var_type.elements as int, k),
    ensures
        element_registers(v) == k,
{
    let n = v.var_type.elements as int;
    let size = v.size as int;
    let per = (size + n - 1) / n;
    assert(per * n >= size && (per - 1) * n < size) by (nonlinear_arith)
        requires
            n > 0,
            size >= 0,
            per == (size + n - 1) / n,
    ;
    assert(per <= 16 * k) by (nonlinear_arith)
        requires
            n > 0,
            (per - 1) * n < size,
            size <= 16 * k * n,
    ;
    if k > 1 {
        assert(per > 16 * (k - 1)) by (nonlinear_arith)
            requires
                n > 0,
                per * n >= size,
                size > 16 * (k - 1) * n,
        ;
    }
}

/// The name of an element of an array: the element holds the register, lies in the
/// array where that begins at a register, and the letters are those of the
/// components taken.
pub proof fn array_elements_are_named(
    vs: Seq<VariableModel>,
    m: int,
    reg: u32,
    c: ComponentSelect,
    k: int,
) -> (r: (nat, Seq<char>))
    requires
        alone(vs, m, reg, c),
        vs[m].var_type.elements > 0,
        registers_each(vs[m].size as int, vs[m].var_type.elements as int, k),
    ensures
        ({
            let (e, t) = r;
            let first = vs[m].offset as int / 16;
            &&& static_name(vs, reg, c) == Some(
                vs[m].name + seq!['['] + dec_text(e) + seq![']'] + t,
            )
            &&& first + e * k <= reg < first + (e + 1) * k
            &&& vs[m].offset % 16 == 0 ==> e < vs[m].var_type.elements
            &&& spells(t, taken(c), 0)
        }),
{
    let v = vs[m];
    let row = reg - v.offset as int / 16;
    let e = row / k;
    let t = swizzle_text(component_seq(c), 0);
    lemma_alone(vs, m, reg, c);
    lemma_registers(v, k);
    lemma_swizzle(c, 0);
    components_are_listed(c);
    assert(covers(v, 16 * reg + 4 * taken(c)[0]));
    assert(0 <= taken(c)[0] < 4) by {
        match c {
            ComponentSelect::Mask(_) => {},
            _ => {},
        }
    }
    reveal_strlit("[");
    reveal_strlit("]");
    assert("["@ =~= seq!['[']);
    assert("]"@ =~= seq![']']);
    assert(row >= 0);
    assert(e >= 0 && e * k <= row < (e + 1) * k) by (nonlinear_arith)
        requires
            k >= 1,
            row >= 0,
            e == row / k,
    ;
    if v.offset % 16 == 0 {
        assert(16 * row < v.size);
        let n = v.var_type.elements as int;
        assert(e < n) by (nonlinear_arith)
            requires
                k >= 1,
                e * k <= row,
                16 * row < v.size,
                v.size <= 16 * k * n,
        ;
    }
    (e as nat, t)
}

/// A matrix is named with the number of the register within it; a scalar by its
/// name alone; a vector with letters that count from where it begins in its
/// register.
pub proof fn single_variables_are_named(
    vs: Seq<VariableModel>,
    m: int,
    reg: u32,
    c: ComponentSelect,
) -> (t: Seq<char>)
    requires
        alone(vs, m, reg, c),
        vs[m].var_type.elements == 0,
    ensures
        ({
            let v = vs[m];
            let first = v.offset as int / 16;
            let class = v.var_type.class;
            &&& class == 2 || class == 3 ==> static_name(vs, reg, c) == Some(
                v.name + seq!['['] + dec_text((reg - first) as nat) + seq![']'] + t,
            ) && spells(t, taken(c), 0) && first <= reg
            &&& class == 0 && v.var_type.columns <= 1 ==> static_name(vs, reg, c) == Some(v.name)
            &&& class != 2 && class != 3 && !(class == 0 && v.var_type.columns <= 1)
                ==> static_name(vs, reg, c) == Some(v.name + t) && spells(
                t,
                taken(c),
                v.offset as int % 16 / 4,
            )
        }),
{
    let v = vs[m];
    lemma_alone(vs, m, reg, c);
    lemma_swizzle(c, 0);
    lemma_swizzle(c, v.offset as int % 16 / 4);
    components_are_listed(c);
    assert(covers(v, 16 * reg + 4 * taken(c)[0]));
    reveal_strlit("[");
    reveal_strlit("]");
    assert("["@ =~= seq!['[']);
    assert("]"@ =~= seq![']']);
    if v.var_type.class == 2 || v.var_type.class == 3 {
        swizzle_text(component_seq(c), 0)
    } else {
        swizzle_text(component_seq(c), v.offset as int % 16 / 4)
    }
}

/// Constants have no name where one of them lies in no variable, or two of them lie
/// in variables with different names.
pub proof fn split_constants_have_no_name(
    vs: Seq<VariableModel>,
    reg: u32,
    c: ComponentSelect,
    i: int,
    j: int,
)
    requires
        0 <= i < taken(c).len(),
        0 <= j < taken(c).len(),
        (forall|l: int|
            0 <= l < vs.len() ==> !covers(#[trigger] vs[l], 16 * reg + 4 * taken(c)[i])) || (
        forall|l: int, n: int|
            #![trigger vs[l], vs[n]]
            0 <= l < vs.len() && 0 <= n < vs.len() && covers(vs[l], 16 * reg + 4 * taken(c)[i])
                && covers(vs[n], 16 * reg + 4 * taken(c)[j]) ==> vs[l].name != vs[n].name),
    ensures
        static_name(vs, reg, c) is None,
{
    let cs = component_seq(c);
    assert(taken(c)[i] == cs[i]);
    assert(taken(c)[j] == cs[j]);
    if within_one(vs, reg, cs, cs.len() as int) {
        let a = component_variable(vs, reg, cs[i])->0;
        let b = component_variable(vs, reg, cs[j])->0;
        lemma_found(vs, 16 * reg + 4 * cs[i], 0);
        lemma_found(vs, 16 * reg + 4 * cs[j], 0);
        let l = choose|l: int|
            0 <= l < vs.len() && vs[l] == a && covers(#[trigger] vs[l], 16 * reg + 4 * cs[i]);
        let n = choose|n: int|
            0 <= n < vs.len() && vs[n] == b && covers(#[trigger] vs[n], 16 * reg + 4 * cs[j]);
        assert(vs[l].name == vs[n].name);
    }
}

proof fn lemma_found(vs: Seq<VariableModel>, x: int, k: int)
    requires
        0 <= k,
        variable_at(vs, x, k) is Some,
    ensures
        exists|l: int|
            k <= l < vs.len() && vs[l] == variable_at(vs, x, k)->0 && covers(#[trigger] vs[l], x),
    decreases vs.len() - k,
{
    if covers(vs[k], x) {
        assert(vs[k] == variable_at(vs, x, k)->0 && covers(vs[k], x));
    } else {
        lemma_found(vs, x, k + 1);
    }
}

/// An index that is only known at run time names an array whose elements take a
/// register each, by the operand in the index, plus the number of registers from the
/// beginning of the array where it is not nought. Anything else has no name.
pub proof fn open_indices_are_named(
    vs: Seq<VariableModel>,
    m: int,
    base: u32,
    sub: OperandModel,
    c: ComponentSelect,
) -> (t: Seq<char>)
    requires
        0 <= m < vs.len(),
        covers(vs[m], 16 * base),
        forall|l: int| 0 <= l < m ==> !covers(#[trigger] vs[l], 16 * base),
    ensures
        ({
            let v = vs[m];
            let first = v.offset as int / 16;
            let n = v.var_type.elements as int;
            let r = dynamic_name(vs, base, sub, c);
            &&& n == 0 || v.size > 16 * n ==> r is None
            &&& n > 0 && v.size <= 16 * n && base == first ==> r == Some(
                v.name + seq!['['] + plain_operand(sub) + seq![']'] + t,
            )
            &&& n > 0 && v.size <= 16 * n && base != first ==> base > first && r == Some(
                v.name + seq!['['] + (plain_operand(sub) + seq!['+'] + dec_text(
                    (base - first) as nat,
                )) + seq![']'] + t,
            )
            &&& spells(t, taken(c), 0)
        }),
{
    let v = vs[m];
    let n = v.var_type.elements as int;
    lemma_variable_at(vs, m, 16 * base, 0);
    lemma_swizzle(c, 0);
    reveal_strlit("[");
    reveal_strlit("]");
    reveal_strlit("+");
    assert("["@ =~= seq!['[']);
    assert("]"@ =~= seq![']']);
    assert("+"@ =~= seq!['+']);
    if n > 0 && v.size <= 16 * n {
        lemma_registers(v, 1);
    } else if n > 0 {
        let per = (v.size + n - 1) / n;
        assert(per > 16) by (nonlinear_arith)
            requires
                n > 0,
                v.size > 16 * n,
                per == (v.size + n - 1) / n,
        ;
        assert(element_registers(v) >= 2);
    }
    swizzle_text(component_seq(c), 0)
}

// ---------------------------------------------------------------------------
// Bindings
// ---------------------------------------------------------------------------

/// Whether bindings of that kind stand in the registers `cb`, `t`, `s` or `u`.
pub open spec fn belongs(r: RegisterType, kind: u32) -> bool {
    ||| r == RegisterType::ConstantBuffer && kind == 0
    ||| r == RegisterType::Resource && (kind == 1 || kind == 2 || kind == 5 || kind == 7)
    ||| r == RegisterType::Sampler && kind == 3
    ||| r == RegisterType::Uav && (kind == 4 || kind == 6 || kind == 8 || kind == 9 || kind == 10
        || kind == 11)
}

/// Whether binding `n` is the first of those that stand in that register.
pub open spec fn first_bound(bs: Seq<BindingModel>, n: int, r: RegisterType, reg: u32) -> bool {
    &&& 0 <= n < bs.len()
    &&& belongs(r, bs[n].input_type)
    &&& bs[n].bind_point == reg
    &&& forall|m: int|
        0 <= m < n ==> !belongs(r, (#[trigger] bs[m]).input_type) || bs[m].bind_point != reg
}

proof fn lemma_bound(bs: Seq<BindingModel>, n: int, r: RegisterType, reg: u32, k: int)
    requires
        first_bound(bs, n, r, reg),
        0 <= k <= n,
    ensures
        bound_at(bs, r, reg, k) == Some(bs[n]),
    decreases n - k,
{
    if k < n {
        assert(!belongs(r, bs[k].input_type) || bs[k].bind_point != reg);
        lemma_bound(bs, n, r, reg, k + 1);
    }
}

proof fn lemma_not_bound(bs: Seq<BindingModel>, r: RegisterType, reg: u32, k: int)
    requires
        0 <= k <= bs.len(),
        forall|m: int|
            0 <= m < bs.len() ==> !belongs(r, (#[trigger] bs[m]).input_type) || bs[m].bind_point
                != reg,
    ensures
        bound_at(bs, r, reg, k) is None,
    decreases bs.len() - k,
{
    if k < bs.len() {
        assert(!belongs(r, bs[k].input_type) || bs[k].bind_point != reg);
        lemma_not_bound(bs, r, reg, k + 1);
    }
}

/// A texture, sampler or view is named after the first binding of its kind in its
/// register.
pub proof fn resources_are_named(op: OperandModel, rd: RdefModel, reg: u32, n: int)
    requires
        op.indices.len() > 0,
        op.indices[0] == IndexModel::Imm32(reg),
        op.reg_type != RegisterType::ConstantBuffer,
        first_bound(rd.bindings, n, op.reg_type, reg),
    ensures
        resource_name(op, rd) == Some(rd.bindings[n].name),
{
    lemma_bound(rd.bindings, n, op.reg_type, reg, 0);
}

/// An operand of which no binding stands in its register has no name, nor has one
/// that is not numbered, or one of another register file.
pub proof fn other_operands_have_no_name(op: OperandModel, rd: RdefModel)
    requires
        op.indices.len() == 0 || match op.indices[0] {
            IndexModel::Imm32(reg) => forall|m: int|
                0 <= m < rd.bindings.len() ==> !belongs(
                    op.reg_type,
                    (#[trigger] rd.bindings[m]).input_type,
                ) || rd.bindings[m].bind_point != reg,
            _ => true,
        },
    ensures
        resource_name(op, rd) is None,
{
    if op.indices.len() > 0 {
        match op.indices[0] {
            IndexModel::Imm32(reg) => {
                lemma_not_bound(rd.bindings, op.reg_type, reg, 0);
            },
            _ => {},
        }
    }
}

/// The constants of an operand are those of the first buffer with the name of the
/// first binding in its register: at the register that its second index gives, or
/// at one that is only known at run time.
pub proof fn constants_are_named(op: OperandModel, rd: RdefModel, reg: u32, n: int, b: int)
    requires
        op.reg_type == RegisterType::ConstantBuffer,
        op.indices.len() >= 2,
        op.indices[0] == IndexModel::Imm32(reg),
        first_bound(rd.bindings, n, op.reg_type, reg),
        0 <= b < rd.constant_buffers.len(),
        rd.constant_buffers[b].name == rd.bindings[n].name,
        forall|m: int|
            0 <= m < b ==> (#[trigger] rd.constant_buffers[m]).name != rd.bindings[n].name,
    ensures
        ({
            let vs = rd.constant_buffers[b].variables;
            resource_name(op, rd) == match op.indices[1] {
                IndexModel::Imm32(at) => static_name(vs, at, op.components),
                IndexModel::RelativePlusImm(base, sub) => dynamic_name(
                    vs,
                    base,
                    *sub,
                    op.components,
                ),
                IndexModel::Relative(sub) => dynamic_name(vs, 0, *sub, op.components),
                _ => None,
            }
        }),
{
    lemma_bound(rd.bindings, n, op.reg_type, reg, 0);
    lemma_buffer(rd, rd.bindings[n].name, b, 0);
    assert(constant_name(op, rd) == resource_name(op, rd));
}

proof fn lemma_buffer(rd: RdefModel, name: Seq<char>, b: int, k: int)
    requires
        0 <= k <= b < rd.constant_buffers.len(),
        rd.constant_buffers[b].name == name,
        forall|m: int| 0 <= m < b ==> (#[trigger] rd.constant_buffers[m]).name != name,
    ensures
        buffer_named(rd.constant_buffers, name, k) == Some(rd.constant_buffers[b]),
    decreases b - k,
{
    if k < b {
        assert(rd.constant_buffers[k].name != name);
        lemma_buffer(rd, name, b, k + 1);
    }
}

} // verus!
