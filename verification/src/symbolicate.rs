//! The names of resources beside the registers that hold them.
//!
//! The bytecode addresses constants by register and component, because several
//! variables are packed into one register of sixteen bytes. The names of the
//! constants, textures, samplers and views an instruction reads are put behind
//! it as a comment; what the instruction says stays as it is. An access that
//! spans more than one variable has no single name and gets no comment.

use vstd::prelude::*;

use crate::chunks::rdef::{
    BindingModel, CBufferDef, CBufferModel, CBufferVariable, RdefModel, ResourceBinding,
    ResourceDef, VariableModel, binding_models, cbuffer_models, variable_models,
};
use crate::grammar::shex::serialize::operand_string;
use crate::grammar::shex::text::operand_text;
use crate::grammar::tables::{axis_char, axis_letter};
use crate::lines::{raw_lines, raw_lines_of, views};
use crate::numerals::{dec_text, push_dec};
use crate::shex::ir::{
    ComponentSelect, ImmediateType, IndexModel, Instruction, InstructionKind, InstructionModel,
    KindModel, Operand, OperandIndex, OperandModel, Program, ProgramModel, RegisterType,
    instruction_models, lemma_operand_model, operand_models,
};
use crate::text::{chars_of, is_text, owned, push_chars, push_text};

verus! {

// ---------------------------------------------------------------------------
// What is meant
// ---------------------------------------------------------------------------

/// The kinds of resource that a register `t` can hold.
pub open spec fn is_view_kind(k: u32) -> bool {
    k == 1 || k == 2 || k == 5 || k == 7
}

/// The kinds of resource that a register `u` can hold.
pub open spec fn is_writable_kind(k: u32) -> bool {
    k == 4 || k == 6 || 8 <= k <= 11
}

/// Whether the register file can hold that kind of resource.
pub open spec fn holds_kind(r: RegisterType, k: u32) -> bool {
    match r {
        RegisterType::ConstantBuffer => k == 0,
        RegisterType::Resource => is_view_kind(k),
        RegisterType::Sampler => k == 3,
        RegisterType::Uav => is_writable_kind(k),
        _ => false,
    }
}

/// The first binding, from number `k` on, of what the register file holds at
/// that register.
pub open spec fn bound_at(bs: Seq<BindingModel>, r: RegisterType, reg: u32, k: int) -> Option<
    BindingModel,
>
    decreases bs.len() - k,
{
    if k < 0 || k >= bs.len() {
        None
    } else if holds_kind(r, bs[k].input_type) && bs[k].bind_point == reg {
        Some(bs[k])
    } else {
        bound_at(bs, r, reg, k + 1)
    }
}

/// The first buffer of that name, from number `k` on.
pub open spec fn buffer_named(cs: Seq<CBufferModel>, name: Seq<char>, k: int) -> Option<
    CBufferModel,
>
    decreases cs.len() - k,
{
    if k < 0 || k >= cs.len() {
        None
    } else if cs[k].name == name {
        Some(cs[k])
    } else {
        buffer_named(cs, name, k + 1)
    }
}

/// The first variable, from number `k` on, that holds the byte at that offset.
pub open spec fn variable_at(vs: Seq<VariableModel>, byte: int, k: int) -> Option<VariableModel>
    decreases vs.len() - k,
{
    if k < 0 || k >= vs.len() {
        None
    } else if vs[k].offset <= byte && byte < vs[k].offset + vs[k].size {
        Some(vs[k])
    } else {
        variable_at(vs, byte, k + 1)
    }
}

/// The components selected: 0 for x, up to 3 for w.
pub open spec fn component_seq(c: ComponentSelect) -> Seq<u8> {
    match c {
        ComponentSelect::Scalar(k) => seq![k % 4],
        ComponentSelect::Swizzle(s) => seq![s[0] % 4, s[1] % 4, s[2] % 4, s[3] % 4],
        ComponentSelect::Mask(m) => masked(m, 4),
        _ => seq![0u8],
    }
}

/// The first `n` components, those that the mask holds.
pub open spec fn masked(m: u8, n: int) -> Seq<u8>
    decreases n,
{
    if n <= 0 {
        Seq::empty()
    } else if (m / pow2(n - 1)) % 2 == 1 {
        masked(m, n - 1).push((n - 1) as u8)
    } else {
        masked(m, n - 1)
    }
}

/// Two to the power of `n`, up to three.
pub open spec fn pow2(n: int) -> u8 {
    if n == 0 {
        1
    } else if n == 1 {
        2
    } else if n == 2 {
        4
    } else {
        8
    }
}

/// The letters of the first `n` components, each `shift` components down.
pub open spec fn letters(comps: Seq<u8>, shift: int, n: int) -> Seq<char>
    decreases n,
{
    if n <= 0 {
        "."@
    } else {
        let c = comps[n - 1] as int;
        letters(comps, shift, n - 1).push(
            axis_char(
                if c > shift {
                    (c - shift) % 4
                } else {
                    0
                },
            ),
        )
    }
}

/// The components as a swizzle, each `shift` components down.
pub open spec fn swizzle_text(comps: Seq<u8>, shift: int) -> Seq<char> {
    letters(comps, shift, comps.len() as int)
}

/// The number of elements of a variable, one where it is no array.
pub open spec fn element_count(v: VariableModel) -> int {
    if v.var_type.elements == 0 {
        1
    } else {
        v.var_type.elements as int
    }
}

/// The number of registers of an element, at least one.
pub open spec fn element_registers(v: VariableModel) -> int {
    let per = (v.size + element_count(v) - 1) / element_count(v);
    if per <= 16 {
        1
    } else {
        (per + 15) / 16
    }
}

/// An access to a variable through the register `reg`: an element of an array, a
/// row or column of a matrix, or components of a vector, counted from where it
/// begins within its register.
pub open spec fn access_text(v: VariableModel, reg: int, comps: Seq<u8>) -> Seq<char> {
    let row = reg - v.offset as int / 16;
    if v.var_type.elements > 0 {
        v.name + "["@ + dec_text((row / element_registers(v)) as nat) + "]"@ + swizzle_text(
            comps,
            0,
        )
    } else if v.var_type.class == 2 || v.var_type.class == 3 {
        v.name + "["@ + dec_text(row as nat) + "]"@ + swizzle_text(comps, 0)
    } else if v.var_type.class == 0 && v.var_type.columns <= 1 {
        v.name
    } else {
        v.name + swizzle_text(comps, v.offset as int % 16 / 4)
    }
}

/// The variable that a component of the register `reg` lies in.
pub open spec fn component_variable(vs: Seq<VariableModel>, reg: u32, c: u8) -> Option<
    VariableModel,
> {
    variable_at(vs, 16 * reg + 4 * c, 0)
}

/// The variable that all the components of the register `reg` lie in, if there
/// is one: there is a component, and each lies in a variable of the same name.
pub open spec fn single_variable(vs: Seq<VariableModel>, reg: u32, comps: Seq<u8>) -> Option<
    VariableModel,
> {
    if comps.len() > 0 && within_one(vs, reg, comps, comps.len() as int) {
        component_variable(vs, reg, comps[0])
    } else {
        None
    }
}

/// Whether the first `n` components lie in variables of the same name.
pub open spec fn within_one(vs: Seq<VariableModel>, reg: u32, comps: Seq<u8>, n: int) -> bool {
    forall|i: int|
        0 <= i < n ==> {
            &&& component_variable(vs, reg, #[trigger] comps[i]) is Some
            &&& component_variable(vs, reg, comps[i])->0.name == component_variable(
                vs,
                reg,
                comps[0],
            )->0.name
        }
}

/// The name of a buffer's constants at the register `reg`.
pub open spec fn static_name(vs: Seq<VariableModel>, reg: u32, c: ComponentSelect) -> Option<
    Seq<char>,
> {
    match single_variable(vs, reg, component_seq(c)) {
        Some(v) => Some(access_text(v, reg as int, component_seq(c))),
        None => None,
    }
}

/// The text of an operand within an index.
pub open spec fn plain_operand(op: OperandModel) -> Seq<char> {
    operand_text(op, ImmediateType::Uint, Seq::empty())
}

/// The name of a buffer's constants at a register `base` above one that is only
/// known when the shader runs: an element of an array whose elements take one
/// register each.
pub open spec fn dynamic_name(
    vs: Seq<VariableModel>,
    base: u32,
    sub: OperandModel,
    c: ComponentSelect,
) -> Option<Seq<char>> {
    match variable_at(vs, 16 * base, 0) {
        Some(v) => if v.var_type.elements == 0 || element_registers(v) != 1 {
            None
        } else {
            let row = base - v.offset as int / 16;
            Some(
                v.name + "["@ + (if row == 0 {
                    plain_operand(sub)
                } else {
                    plain_operand(sub) + "+"@ + dec_text(row as nat)
                }) + "]"@ + swizzle_text(component_seq(c), 0),
            )
        },
        None => None,
    }
}

/// The buffer that an operand reads.
pub open spec fn buffer_of(op: OperandModel, rd: RdefModel) -> Option<CBufferModel> {
    match register_of(op) {
        Some(reg) => match bound_at(rd.bindings, op.reg_type, reg, 0) {
            Some(b) => buffer_named(rd.constant_buffers, b.name, 0),
            None => None,
        },
        None => None,
    }
}

/// The name of the constants that an operand reads.
pub open spec fn constant_name(op: OperandModel, rd: RdefModel) -> Option<Seq<char>> {
    match buffer_of(op, rd) {
        None => None,
        Some(cb) => if op.indices.len() < 2 {
            None
        } else {
            match op.indices[1] {
                IndexModel::Imm32(reg) => static_name(cb.variables, reg, op.components),
                IndexModel::RelativePlusImm(base, sub) => dynamic_name(
                    cb.variables,
                    base,
                    *sub,
                    op.components,
                ),
                IndexModel::Relative(sub) => dynamic_name(cb.variables, 0, *sub, op.components),
                _ => None,
            }
        },
    }
}

/// The register of an operand: its first index, where that is a number.
pub open spec fn register_of(op: OperandModel) -> Option<u32> {
    if op.indices.len() == 0 {
        None
    } else {
        match op.indices[0] {
            IndexModel::Imm32(v) => Some(v),
            _ => None,
        }
    }
}

/// The name of what an operand reads, where it is a resource with a name.
pub open spec fn resource_name(op: OperandModel, rd: RdefModel) -> Option<Seq<char>> {
    if op.reg_type == RegisterType::ConstantBuffer {
        constant_name(op, rd)
    } else {
        match register_of(op) {
            Some(reg) => match bound_at(rd.bindings, op.reg_type, reg, 0) {
                Some(b) => Some(b.name),
                None => None,
            },
            None => None,
        }
    }
}

/// An operand as it is written, and the name of what it reads.
pub struct Named {
    /// The operand.
    pub addr: Seq<char>,
    /// The name.
    pub name: Seq<char>,
}

/// Whether an operand stands among those that have a name.
pub open spec fn is_named(all: Seq<Named>, addr: Seq<char>) -> bool {
    exists|i: int| 0 <= i < all.len() && (#[trigger] all[i]).addr == addr
}

/// The named ones of the first `n` operands, each once.
pub open spec fn named_operands(ops: Seq<OperandModel>, rd: RdefModel, n: int) -> Seq<Named>
    decreases n,
{
    if n <= 0 {
        Seq::empty()
    } else {
        let before = named_operands(ops, rd, n - 1);
        match resource_name(ops[n - 1], rd) {
            Some(name) => if is_named(before, plain_operand(ops[n - 1])) {
                before
            } else {
                before.push(Named { addr: plain_operand(ops[n - 1]), name })
            },
            None => before,
        }
    }
}

/// The first `n` of them, separated by commas.
pub open spec fn named_list(all: Seq<Named>, n: int) -> Seq<char>
    decreases n,
{
    if n <= 0 {
        Seq::empty()
    } else {
        named_list(all, n - 1) + (if n == 1 {
            Seq::empty()
        } else {
            ", "@
        }) + all[n - 1].addr + " = "@ + all[n - 1].name
    }
}

/// What is said about an instruction, where it reads anything that has a name.
/// Declarations name sizes and slots and read nothing.
pub open spec fn instruction_note(i: InstructionModel, rd: RdefModel) -> Option<Seq<char>> {
    match i.kind {
        KindModel::Generic { operands } => {
            let all = named_operands(operands, rd, operands.len() as int);
            if all.len() == 0 {
                None
            } else {
                Some(named_list(all, all.len() as int))
            }
        },
        _ => None,
    }
}

/// The comment behind an instruction.
pub open spec fn note_comment(i: InstructionModel, rd: RdefModel) -> Seq<char> {
    match instruction_note(i, rd) {
        Some(t) => "  // "@ + t,
        None => Seq::empty(),
    }
}

/// The lines of the first `n` instructions with their comments.
pub open spec fn noted_lines(
    ls: Seq<Seq<char>>,
    is: Seq<InstructionModel>,
    rd: RdefModel,
    n: int,
) -> Seq<char>
    decreases n,
{
    if n <= 0 {
        Seq::empty()
    } else {
        noted_lines(ls, is, rd, n - 1) + (ls[n] + note_comment(is[n - 1], rd) + "\n"@)
    }
}

/// The text of a program with the names that belong to its instructions. Text
/// that has not one line for each instruction below its first stays as it is.
pub open spec fn annotated(text: Seq<char>, p: ProgramModel, rd: RdefModel) -> Seq<char> {
    let ls = raw_lines(text);
    if ls.len() != p.instructions.len() + 1 {
        text
    } else {
        ls[0] + "\n"@ + noted_lines(ls, p.instructions, rd, p.instructions.len() as int)
    }
}

// ---------------------------------------------------------------------------
// Finding it
// ---------------------------------------------------------------------------

fn file_holds(r: RegisterType, k: u32) -> (b: bool)
    ensures
        b == holds_kind(r, k),
{
    match r {
        RegisterType::ConstantBuffer => k == 0,
        RegisterType::Resource => k == 1 || k == 2 || k == 5 || k == 7,
        RegisterType::Sampler => k == 3,
        RegisterType::Uav => k == 4 || k == 6 || (8 <= k && k <= 11),
        _ => false,
    }
}

fn find_binding<'a>(bindings: &'a Vec<ResourceBinding>, r: RegisterType, reg: u32) -> (x: Option<
    &'a ResourceBinding,
>)
    ensures
        match x {
            Some(b) => bound_at(binding_models(bindings@), r, reg, 0) == Some(b.model()),
            None => bound_at(binding_models(bindings@), r, reg, 0) is None,
        },
{
    let ghost bs = binding_models(bindings@);
    let mut k: usize = 0;
    while k < bindings.len()
        invariant
            bs == binding_models(bindings@),
            k <= bindings.len(),
            bound_at(bs, r, reg, 0) == bound_at(bs, r, reg, k as int),
        decreases bindings.len() - k,
    {
        assert(bs[k as int] == bindings@[k as int].model());
        if file_holds(r, bindings[k].input_type) && bindings[k].bind_point == reg {
            return Some(&bindings[k]);
        }
        k += 1;
    }
    None
}

fn same_text(a: &str, b: &str) -> (r: bool)
    ensures
        r == (a@ == b@),
{
    let c = chars_of(a);
    is_text(c.as_slice(), b)
}

fn find_buffer<'a>(buffers: &'a Vec<CBufferDef>, name: &str) -> (x: Option<&'a CBufferDef>)
    ensures
        match x {
            Some(c) => buffer_named(cbuffer_models(buffers@), name@, 0) == Some(c.model()),
            None => buffer_named(cbuffer_models(buffers@), name@, 0) is None,
        },
{
    let ghost cs = cbuffer_models(buffers@);
    let mut k: usize = 0;
    while k < buffers.len()
        invariant
            cs == cbuffer_models(buffers@),
            k <= buffers.len(),
            buffer_named(cs, name@, 0) == buffer_named(cs, name@, k as int),
        decreases buffers.len() - k,
    {
        assert(cs[k as int] == buffers@[k as int].model());
        if same_text(buffers[k].name.as_str(), name) {
            return Some(&buffers[k]);
        }
        k += 1;
    }
    None
}

fn find_variable<'a>(vars: &'a Vec<CBufferVariable>, byte: u64) -> (x: Option<&'a CBufferVariable>)
    ensures
        match x {
            Some(v) => variable_at(variable_models(vars@), byte as int, 0) == Some(v.model())
                && v.offset <= byte,
            None => variable_at(variable_models(vars@), byte as int, 0) is None,
        },
{
    let ghost vs = variable_models(vars@);
    let mut k: usize = 0;
    while k < vars.len()
        invariant
            vs == variable_models(vars@),
            k <= vars.len(),
            variable_at(vs, byte as int, 0) == variable_at(vs, byte as int, k as int),
        decreases vars.len() - k,
    {
        let v = &vars[k];
        assert(vs[k as int] == vars@[k as int].model());
        if v.offset as u64 <= byte && byte < v.offset as u64 + v.size as u64 {
            return Some(v);
        }
        k += 1;
    }
    None
}

fn component_list(c: &ComponentSelect) -> (r: Vec<u8>)
    ensures
        r@ == component_seq(*c),
{
    let mut out: Vec<u8> = Vec::new();
    match c {
        ComponentSelect::Scalar(k) => {
            out.push(*k % 4);
        },
        ComponentSelect::Swizzle(s) => {
            out.push(s[0] % 4);
            out.push(s[1] % 4);
            out.push(s[2] % 4);
            out.push(s[3] % 4);
        },
        ComponentSelect::Mask(m) => {
            reveal_with_fuel(masked, 5);
            let m: u8 = *m;
            if m % 2 == 1 {
                out.push(0);
            }
            assert(out@ =~= masked(m, 1));
            if (m / 2) % 2 == 1 {
                out.push(1);
            }
            assert(out@ =~= masked(m, 2));
            if (m / 4) % 2 == 1 {
                out.push(2);
            }
            assert(out@ =~= masked(m, 3));
            if (m / 8) % 2 == 1 {
                out.push(3);
            }
        },
        _ => {
            out.push(0);
        },
    }
    assert(out@ =~= component_seq(*c));
    out
}

fn swizzle(comps: &Vec<u8>, shift: u8) -> (s: String)
    ensures
        s@ == swizzle_text(comps@, shift as int),
{
    let mut s = owned(".");
    let mut i: usize = 0;
    while i < comps.len()
        invariant
            i <= comps.len(),
            s@ == letters(comps@, shift as int, i as int),
        decreases comps.len() - i,
    {
        let c: u8 = comps[i];
        let local: u8 = if c > shift {
            c - shift
        } else {
            0
        };
        s.push(axis_letter(local));
        i += 1;
    }
    s
}

/// The number of registers of an element of an array: each element begins at a
/// register.
fn elem_registers(v: &CBufferVariable) -> (r: u64)
    ensures
        r == element_registers(v.model()),
        r >= 1,
{
    let elements: u64 = if v.var_type.elements == 0 {
        1
    } else {
        v.var_type.elements as u64
    };
    let per: u64 = (v.size as u64 + elements - 1) / elements;
    if per <= 16 {
        1
    } else {
        (per + 15) / 16
    }
}

fn render_element(name: &str, element: u64, comps: &Vec<u8>) -> (s: String)
    ensures
        s@ == name@ + "["@ + dec_text(element as nat) + "]"@ + swizzle_text(comps@, 0),
{
    let mut s = owned(name);
    push_text(&mut s, "[");
    push_dec(&mut s, element);
    push_text(&mut s, "]");
    let t = swizzle(comps, 0);
    push_text(&mut s, t.as_str());
    s
}

fn render_var_access(v: &CBufferVariable, reg: u32, comps: &Vec<u8>) -> (s: String)
    requires
        reg >= v.offset / 16,
    ensures
        s@ == access_text(v.model(), reg as int, comps@),
{
    let row: u64 = (reg - v.offset / 16) as u64;
    if v.var_type.elements > 0 {
        let n: u64 = elem_registers(v);
        return render_element(v.name.as_str(), row / n, comps);
    }
    if v.var_type.class == 2 || v.var_type.class == 3 {
        return render_element(v.name.as_str(), row, comps);
    }
    let mut s = owned(v.name.as_str());
    if !(v.var_type.class == 0 && v.var_type.columns <= 1) {
        let t = swizzle(comps, (v.offset % 16 / 4) as u8);
        push_text(&mut s, t.as_str());
    }
    s
}

fn find_component<'a>(vars: &'a Vec<CBufferVariable>, reg: u32, c: u8) -> (x: Option<
    &'a CBufferVariable,
>)
    ensures
        match x {
            Some(v) => component_variable(variable_models(vars@), reg, c) == Some(v.model())
                && v.offset <= 16 * reg + 4 * c,
            None => component_variable(variable_models(vars@), reg, c) is None,
        },
{
    find_variable(vars, 16 * (reg as u64) + 4 * (c as u64))
}

/// The name of a buffer's constants at the register `reg`, where they lie in one
/// variable.
fn resolve_cb_static(cb: &CBufferDef, reg: u32, c: &ComponentSelect) -> (r: Option<String>)
    ensures
        match r {
            Some(s) => static_name(cb.model().variables, reg, *c) == Some(s@),
            None => static_name(cb.model().variables, reg, *c) is None,
        },
{
    let comps = component_list(c);
    let ghost vs = variable_models(cb.variables@);
    if comps.len() == 0 {
        return None;
    }
    let first = match find_component(&cb.variables, reg, comps[0]) {
        Some(v) => v,
        None => {
            assert(!within_one(vs, reg, comps@, comps@.len() as int)) by {
                assert(component_variable(vs, reg, comps@[0]) is None);
            }
            return None;
        },
    };
    let mut i: usize = 1;
    while i < comps.len()
        invariant
            1 <= i <= comps.len(),
            vs == variable_models(cb.variables@),
            comps@ == component_seq(*c),
            component_variable(vs, reg, comps@[0]) == Some(first.model()),
            within_one(vs, reg, comps@, i as int),
        decreases comps.len() - i,
    {
        match find_component(&cb.variables, reg, comps[i]) {
            Some(v) => {
                if !same_text(first.name.as_str(), v.name.as_str()) {
                    assert(component_variable(vs, reg, comps@[i as int])->0.name
                        != component_variable(vs, reg, comps@[0])->0.name);
                    return None;
                }
            },
            None => {
                assert(component_variable(vs, reg, comps@[i as int]) is None);
                return None;
            },
        }
        i += 1;
    }
    assert(comps@[0] < 4) by {
        lemma_components(*c);
    }
    Some(render_var_access(first, reg, &comps))
}

proof fn lemma_components(c: ComponentSelect)
    ensures
        forall|i: int| 0 <= i < component_seq(c).len() ==> #[trigger] component_seq(c)[i] < 4,
{
    match c {
        ComponentSelect::Mask(m) => {
            lemma_masked(m, 4);
        },
        _ => {},
    }
}

proof fn lemma_masked(m: u8, n: int)
    requires
        0 <= n <= 4,
    ensures
        forall|i: int| 0 <= i < masked(m, n).len() ==> #[trigger] masked(m, n)[i] < 4,
    decreases n,
{
    if n > 0 {
        lemma_masked(m, n - 1);
        let all = masked(m, n);
        assert forall|i: int| 0 <= i < all.len() implies #[trigger] all[i] < 4 by {
            if i < masked(m, n - 1).len() {
                assert(all[i] == masked(m, n - 1)[i]);
            }
        }
    }
}

/// The name of a buffer's constants at a register that is only known when the
/// shader runs.
fn resolve_cb_dynamic(cb: &CBufferDef, base: u32, sub: &Operand, c: &ComponentSelect) -> (r: Option<
    String,
>)
    ensures
        match r {
            Some(s) => dynamic_name(cb.model().variables, base, sub.model(), *c) == Some(s@),
            None => dynamic_name(cb.model().variables, base, sub.model(), *c) is None,
        },
{
    let v = match find_variable(&cb.variables, 16 * (base as u64)) {
        Some(v) => v,
        None => {
            return None;
        },
    };
    if v.var_type.elements == 0 {
        return None;
    }
    if elem_registers(v) != 1 {
        return None;
    }
    let row: u32 = base - v.offset / 16;
    let mut index = operand_string(sub);
    if row != 0 {
        push_text(&mut index, "+");
        push_dec(&mut index, row as u64);
    }
    let mut s = owned(v.name.as_str());
    push_text(&mut s, "[");
    push_text(&mut s, index.as_str());
    push_text(&mut s, "]");
    let comps = component_list(c);
    let t = swizzle(&comps, 0);
    push_text(&mut s, t.as_str());
    Some(s)
}

fn slot(op: &Operand) -> (r: Option<u32>)
    ensures
        r == register_of(op.model()),
{
    proof {
        lemma_operand_model(*op);
    }
    if op.indices.len() == 0 {
        return None;
    }
    assert(op.model().indices[0] == op.indices@[0].model());
    match &op.indices[0] {
        OperandIndex::Imm32(v) => Some(*v),
        _ => None,
    }
}

fn resolve_cb(op: &Operand, rdef: &ResourceDef) -> (r: Option<String>)
    requires
        op.reg_type == RegisterType::ConstantBuffer,
    ensures
        match r {
            Some(s) => constant_name(op.model(), rdef.model()) == Some(s@),
            None => constant_name(op.model(), rdef.model()) is None,
        },
{
    proof {
        lemma_operand_model(*op);
    }
    let reg: u32 = match slot(op) {
        Some(v) => v,
        None => {
            return None;
        },
    };
    let binding = match find_binding(&rdef.bindings, RegisterType::ConstantBuffer, reg) {
        Some(b) => b,
        None => {
            return None;
        },
    };
    let cb = match find_buffer(&rdef.constant_buffers, binding.name.as_str()) {
        Some(c) => c,
        None => {
            return None;
        },
    };
    if op.indices.len() < 2 {
        return None;
    }
    assert(op.model().indices[1] == op.indices@[1].model());
    match &op.indices[1] {
        OperandIndex::Imm32(reg) => resolve_cb_static(cb, *reg, &op.components),
        OperandIndex::RelativePlusImm(base, sub) => resolve_cb_dynamic(
            cb,
            *base,
            sub,
            &op.components,
        ),
        OperandIndex::Relative(sub) => resolve_cb_dynamic(cb, 0, sub, &op.components),
        _ => None,
    }
}

/// An operand as it is written, and the name of what it reads, where it is a
/// resource with a name.
pub fn resolve_operand(op: &Operand, rdef: &ResourceDef) -> (r: Option<(String, String)>)
    ensures
        match r {
            Some((addr, name)) => resource_name(op.model(), rdef.model()) == Some(name@) && addr@
                == plain_operand(op.model()),
            None => resource_name(op.model(), rdef.model()) is None,
        },
{
    let name = match op.reg_type {
        RegisterType::ConstantBuffer => resolve_cb(op, rdef),
        _ => match slot(op) {
            Some(reg) => match find_binding(&rdef.bindings, op.reg_type, reg) {
                Some(b) => Some(owned(b.name.as_str())),
                None => None,
            },
            None => None,
        },
    };
    match name {
        Some(n) => Some((operand_string(op), n)),
        None => None,
    }
}

/// The texts of operands and their names.
pub open spec fn named_views(v: Seq<(String, String)>) -> Seq<Named> {
    Seq::new(v.len(), |i: int| Named { addr: v[i].0@, name: v[i].1@ })
}

fn among(all: &Vec<(String, String)>, addr: &str) -> (r: bool)
    ensures
        r == is_named(named_views(all@), addr@),
{
    let ghost ns = named_views(all@);
    let mut i: usize = 0;
    while i < all.len()
        invariant
            i <= all.len(),
            ns == named_views(all@),
            forall|k: int| 0 <= k < i ==> (#[trigger] ns[k]).addr != addr@,
        decreases all.len() - i,
    {
        assert(ns[i as int].addr == all@[i as int].0@);
        if same_text(all[i].0.as_str(), addr) {
            return true;
        }
        i += 1;
    }
    false
}

fn join_named(all: &Vec<(String, String)>) -> (s: String)
    ensures
        s@ == named_list(named_views(all@), all@.len() as int),
{
    let ghost ns = named_views(all@);
    let mut s = String::new();
    let mut i: usize = 0;
    while i < all.len()
        invariant
            i <= all.len(),
            ns == named_views(all@),
            s@ == named_list(ns, i as int),
        decreases all.len() - i,
    {
        let ghost before = s@;
        if i > 0 {
            push_text(&mut s, ", ");
        } else {
            assert(s@ =~= before + Seq::<char>::empty());
        }
        push_text(&mut s, all[i].0.as_str());
        push_text(&mut s, " = ");
        push_text(&mut s, all[i].1.as_str());
        assert(ns[i as int].addr == all@[i as int].0@);
        assert(ns[i as int].name == all@[i as int].1@);
        i += 1;
    }
    s
}

/// What is said about an instruction, where it reads anything that has a name.
fn resolve_instruction(instr: &Instruction, rdef: &ResourceDef) -> (r: Option<String>)
    ensures
        match r {
            Some(s) => instruction_note(instr.model(), rdef.model()) == Some(s@),
            None => instruction_note(instr.model(), rdef.model()) is None,
        },
{
    if !matches!(&instr.kind, InstructionKind::Generic { .. }) {
        return None;
    }
    let operands = instr.operands();
    let ghost ops = operand_models(operands@);
    let ghost rd = rdef.model();
    let mut all: Vec<(String, String)> = Vec::new();
    let mut i: usize = 0;
    assert(named_views(all@) =~= Seq::empty());
    while i < operands.len()
        invariant
            i <= operands.len(),
            ops == operand_models(operands@),
            rd == rdef.model(),
            named_views(all@) == named_operands(ops, rd, i as int),
        decreases operands.len() - i,
    {
        assert(ops[i as int] == operands@[i as int].model());
        match resolve_operand(&operands[i], rdef) {
            Some((addr, name)) => {
                if !among(&all, addr.as_str()) {
                    let ghost before = named_views(all@);
                    let ghost x = Named { addr: addr@, name: name@ };
                    all.push((addr, name));
                    assert(named_views(all@) =~= before.push(x));
                }
            },
            None => {},
        }
        i += 1;
    }
    if all.len() == 0 {
        None
    } else {
        Some(join_named(&all))
    }
}

/// Put the names of the resources that instructions read behind them, in the
/// text of a program that has one line for each instruction below its first. Any
/// other text stays as it is, so that no name can come to stand behind an
/// instruction that it does not belong to.
pub fn annotate_shex(shex_text: &str, program: &Program, rdef: &ResourceDef) -> (r: String)
    ensures
        r@ == annotated(shex_text@, program.model(), rdef.model()),
{
    let chars = chars_of(shex_text);
    let lines = raw_lines_of(chars.as_slice());
    let ghost ls = views(lines@);
    let ghost is = instruction_models(program.instructions@);
    let ghost rd = rdef.model();
    if lines.len() == 0 || lines.len() - 1 != program.instructions.len() {
        return owned(shex_text);
    }
    let mut noted = String::new();
    let mut i: usize = 0;
    while i < program.instructions.len()
        invariant
            i <= program.instructions.len(),
            lines.len() - 1 == program.instructions.len(),
            ls == views(lines@),
            is == instruction_models(program.instructions@),
            rd == rdef.model(),
            noted@ == noted_lines(ls, is, rd, i as int),
        decreases program.instructions.len() - i,
    {
        assert(ls[i + 1] == lines@[i + 1]@);
        assert(is[i as int] == program.instructions@[i as int].model());
        let mut note = String::new();
        match resolve_instruction(&program.instructions[i], rdef) {
            Some(t) => {
                push_text(&mut note, "  // ");
                push_text(&mut note, t.as_str());
            },
            None => {},
        }
        assert(note@ =~= note_comment(is[i as int], rd));
        let mut l = String::new();
        push_chars(&mut l, lines[i + 1]);
        assert(l@ =~= ls[i + 1]);
        push_text(&mut l, note.as_str());
        push_text(&mut l, "\n");
        push_text(&mut noted, l.as_str());
        i += 1;
    }
    let mut out = String::new();
    push_chars(&mut out, lines[0]);
    assert(out@ =~= ls[0]);
    push_text(&mut out, "\n");
    push_text(&mut out, noted.as_str());
    out
}

} // verus!
