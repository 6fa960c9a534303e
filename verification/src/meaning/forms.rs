//! The form of lines.

use vstd::prelude::*;

use crate::chunks::rdef::{BindingModel, MemberModel, TypeModel, VariableModel};
use crate::chunks::signature::{ElementModel, SignatureVersion};
use crate::container::fourcc_text;
use crate::container_doc::{chunk_line, code_line, dxbc_line};
use crate::floats::Spellings;
use crate::grammar::rdef::hlsl::literals;
use crate::grammar::rdef::kv::{
    binding_line, default_text, hex4_text, member_line, slots_text, type_text, var_line,
};
use crate::grammar::shex::text::{
    flags_text, instruction_text, mnemonic_text, return_type_text, signed_value, word_list_text,
};
use crate::grammar::signature::{
    component_types, element_line, mask_name, name_or_number, precisions, system_value_name_text,
};
use crate::numerals::{dec_text, hex_padded, hex_text, int_text};
use crate::roundtrip::signatures::lemma_small_mask;
use crate::shader::{Role, role_of};
use crate::shex::ir::{InstructionModel, KindModel, Opcode, ReturnType};
use crate::text::starts_with;

verus! {

/// The text where it is wanted.
pub open spec fn wanted(b: bool, s: Seq<char>) -> Seq<char> {
    if b {
        s
    } else {
        Seq::empty()
    }
}

/// The line of an element: its name, or a dash where it has none, then index, register,
/// component type and both masks, and behind them system value, stream and precision,
/// each where the chunk has it and it is not nought.
pub proof fn elements_are_lines(e: ElementModel, v: SignatureVersion)
    ensures
        ({
            let name = if e.semantic_name.len() == 0 {
                seq!['-']
            } else {
                e.semantic_name
            };
            let streamed = (v is V1 || v is V5) && e.stream is Some && e.stream->0 != 0;
            let precise = v is V1 && e.min_precision is Some && (e.min_precision->0).value != 0;
            element_line(e, v) == name + " idx="@ + dec_text(e.semantic_index as nat) + " reg="@
                + dec_text(e.register as nat) + " type="@ + name_or_number(
                component_types(),
                e.component_type,
            ) + " mask="@ + mask_name(e.mask) + " rw="@ + mask_name(e.rw_mask) + wanted(
                e.system_value != 0,
                " sv="@ + system_value_name_text(e.system_value),
            ) + wanted(streamed, " stream="@ + dec_text(e.stream->0 as nat)) + wanted(
                precise,
                " prec="@ + name_or_number(precisions(), (e.min_precision->0).value),
            )
        }),
{
    reveal_strlit("-");
    assert("-"@ =~= seq!['-']);
}

/// An empty mask is a nought, and one with further bits two hexadecimal digits.
pub proof fn masks_without_letters_are_numbers(m: u8)
    ensures
        mask_name(0) == "0"@,
        m >= 16 ==> mask_name(m) == hex_padded(m as nat, 2),
{
    if m & 0xf0 == 0 {
        lemma_small_mask(m);
    }
}

/// What a type adds to its line, in order.
pub proof fn types_are_listed(t: TypeModel)
    ensures
        type_text(t) == " class="@ + dec_text(t.class as nat) + " base="@ + dec_text(
            t.var_type as nat,
        ) + " rows="@ + dec_text(t.rows as nat) + " cols="@ + dec_text(t.columns as nat)
            + " elements="@ + dec_text(t.elements as nat) + wanted(
            t.name.len() > 0,
            " typename="@ + t.name,
        ) + wanted(t.sm5_extra is Some, " sm5="@ + hex4_text(t.sm5_extra->0)),
{
}

/// The lines of bindings, variables and members, in the order of their keys; variables
/// are indented by two spaces and members by four.
pub proof fn definitions_are_lines(b: BindingModel, v: VariableModel, m: MemberModel)
    ensures
        binding_line(b) == "binding "@ + b.name + " input="@ + dec_text(b.input_type as nat)
            + " return="@ + dec_text(b.return_type as nat) + " dim="@ + dec_text(b.dimension as nat)
            + " samples="@ + dec_text(b.num_samples as nat) + " slot="@ + dec_text(
            b.bind_point as nat,
        ) + " count="@ + dec_text(b.bind_count as nat) + " flags="@ + hex_text(b.flags as nat),
        var_line(v) == "  var "@ + v.name + " offset="@ + dec_text(v.offset as nat) + " size="@
            + dec_text(v.size as nat) + " flags="@ + hex_text(v.flags as nat) + type_text(v.var_type)
            + slots_text(" tex="@, v.texture_start, v.texture_size) + slots_text(
            " samp="@,
            v.sampler_start,
            v.sampler_size,
        ) + default_text(v.default_value),
        member_line(m) == "    member "@ + m.name + " offset="@ + dec_text(m.offset as nat)
            + type_text(m.member_type),
{
}

/// A range of slots is its first slot, signed, and its length behind a comma.
pub proof fn slots_are_listed(key: Seq<char>, start: u32, size: u32)
    ensures
        slots_text(key, Some(start), Some(size)) == key + int_text(signed_value(start)) + seq![
            ',',
        ] + dec_text(size as nat),
        slots_text(key, None, Some(size)).len() == 0,
{
    reveal_strlit(",");
    assert(","@ =~= seq![',']);
}

/// The lines of a document that begin a container, an editable section, which says the
/// form of resource definitions, and a section of bytes.
pub proof fn sections_have_their_lines(f: Seq<u8>, ls: Seq<Seq<char>>, version: u32)
    ensures
        dxbc_line(version) == ".dxbc version="@ + dec_text(version as nat),
        chunk_line(f) == ".chunk "@ + fourcc_text(f),
        role_of(f) != Some(Role::Resources) ==> code_line(f, ls) == ".code "@ + fourcc_text(f),
        role_of(f) == Some(Role::Resources) && ls.len() > 0 && starts_with(ls[0], "target"@)
            ==> code_line(f, ls) == ".code "@ + fourcc_text(f) + " form=hlsl"@,
        role_of(f) == Some(Role::Resources) && !(ls.len() > 0 && starts_with(ls[0], "target"@))
            ==> code_line(f, ls) == ".code "@ + fourcc_text(f) + " form=kv"@,
{
    let c = ".code "@ + fourcc_text(f);
    assert(c + Seq::<char>::empty() =~= c);
}

/// One global flag more stands behind a bar, the first behind a space.
pub proof fn flags_are_listed(fs: Seq<Seq<char>>, f: Seq<char>)
    ensures
        flags_text(seq![f], 0) == seq![' '] + f,
        fs.len() > 0 ==> flags_text(fs.push(f), 0) == flags_text(fs, 0) + seq!['|'] + f,
{
    reveal_strlit(" ");
    assert(" "@ =~= seq![' ']);
    reveal_with_fuel(flags_text, 2);
    assert(flags_text(seq![f], 0) =~= seq![' '] + f);
    if fs.len() > 0 {
        lemma_flag_behind(fs, f, 0);
    }
}

proof fn lemma_flag_behind(fs: Seq<Seq<char>>, f: Seq<char>, k: int)
    requires
        0 <= k <= fs.len(),
        fs.len() > 0,
    ensures
        flags_text(fs.push(f), k) == flags_text(fs, k) + seq!['|'] + f,
    decreases fs.len() - k,
{
    reveal_strlit("|");
    assert("|"@ =~= seq!['|']);
    let u = fs.push(f);
    if k < fs.len() {
        lemma_flag_behind(fs, f, k + 1);
    } else {
        assert(flags_text(u, k + 1) =~= Seq::empty());
    }
    assert(flags_text(u, k) =~= flags_text(fs, k) + seq!['|'] + f);
}

/// One number more of a list stands behind a comma and a space.
pub proof fn numbers_are_listed(ws: Seq<u32>, w: u32)
    ensures
        word_list_text(seq![w], 0) == dec_text(w as nat),
        ws.len() > 0 ==> word_list_text(ws.push(w), 0) == word_list_text(ws, 0) + seq![',', ' ']
            + dec_text(w as nat),
{
    reveal_with_fuel(word_list_text, 2);
    assert(word_list_text(seq![w], 0) =~= dec_text(w as nat));
    if ws.len() > 0 {
        lemma_number_behind(ws, w, 0);
    }
}

proof fn lemma_number_behind(ws: Seq<u32>, w: u32, k: int)
    requires
        0 <= k <= ws.len(),
        ws.len() > 0,
    ensures
        word_list_text(ws.push(w), k) == word_list_text(ws, k) + seq![',', ' '] + dec_text(
            w as nat,
        ),
    decreases ws.len() - k,
{
    reveal_strlit(", ");
    assert(", "@ =~= seq![',', ' ']);
    let u = ws.push(w);
    if k < ws.len() {
        lemma_number_behind(ws, w, k + 1);
    } else {
        assert(word_list_text(u, k + 1) =~= Seq::empty());
    }
    assert(word_list_text(u, k) =~= word_list_text(ws, k) + seq![',', ' '] + dec_text(w as nat));
}

/// Function tables and interfaces are their numbers and, in braces, the list of what
/// they hold.
pub proof fn tables_are_written(i: InstructionModel, ft: Spellings)
    ensures
        ({
            let name = i.opcode.mnemonic();
            let t = instruction_text(i, ft);
            match i.kind {
                KindModel::DclFunctionTable { table_index, body_indices } => t == name + (seq![' ']
                    + dec_text(table_index as nat) + " {"@ + word_list_text(body_indices, 0)
                    + seq!['}']),
                KindModel::DclInterface { interface_index, num_call_sites, table_indices } => t
                    == name + (seq![' '] + dec_text(interface_index as nat) + (seq![' ']
                    + dec_text(num_call_sites as nat)) + " {"@ + word_list_text(table_indices, 0)
                    + seq!['}']),
                KindModel::DclGlobalFlags { flags } => t == name + flags_text(flags, 0),
                _ => true,
            }
        }),
{
    reveal_strlit(" ");
    assert(" "@ =~= seq![' ']);
}

/// What has no name is written by its number.
pub proof fn nameless_things_are_numbered(n: u32)
    ensures
        mnemonic_text(Opcode::Unknown(n)) == "op"@ + dec_text(n as nat),
        return_type_text(ReturnType::Unknown(n)) == "unknown"@ + dec_text(n as nat),
{
}

/// The scalars of an initializer are separated by commas alone.
pub proof fn scalars_are_listed(var_type: u16, b: Seq<u8>, stride: int, n: int, ft: Spellings)
    requires
        n > 1,
        literals(var_type, b, stride, n, ft) is Some,
    ensures
        ({
            let w = crate::bytes::word_at(b, (n - 1) * stride);
            let s = crate::grammar::rdef::hlsl::scalar_text(var_type, w, ft);
            &&& s is Some
            &&& literals(var_type, b, stride, n - 1, ft) is Some
            &&& literals(var_type, b, stride, n, ft)->0 == literals(
                var_type,
                b,
                stride,
                n - 1,
                ft,
            )->0 + seq![','] + s->0
        }),
{
    let w = crate::bytes::word_at(b, (n - 1) * stride);
    let s = crate::grammar::rdef::hlsl::scalar_text(var_type, w, ft)->0;
    let a = literals(var_type, b, stride, n - 1, ft)->0;
    assert(a.push(',') + s =~= a + seq![','] + s);
}

} // verus!
