//! The numbers and prefixes of register files.

use vstd::prelude::*;

use crate::floats::Spellings;
use crate::grammar::shex::text::{core_text, index_text, indices_text, register_text};
use crate::numerals::dec_text;
use crate::roundtrip::bytecode_operands::{components_fit, lemma_operand_word};
use crate::shex::encode::operand_word;
use crate::shex::ir::{ImmediateType, IndexModel, OperandModel, RegisterType};

verus! {

/// Whether operands of the register file have that number in bits 12 to 19 of their
/// word, and begin with that prefix in text.
pub open spec fn is_register(r: RegisterType, n: u32, prefix: Seq<char>) -> bool {
    &&& forall|op: OperandModel|
        op.reg_type == r && components_fit(op.components) && op.indices.len() <= 3 ==> (
        #[trigger] operand_word(op) >> 12) & 0xFF == n
    &&& register_text(r) == prefix
}

proof fn lemma_register(r: RegisterType, n: u32)
    requires
        r.spec_to_u32() == n,
        RegisterType::spec_from_u32(n) == r,
        n <= 0xFF,
    ensures
        is_register(r, n, register_text(r)),
{
    assert forall|op: OperandModel|
        op.reg_type == r && components_fit(op.components) && op.indices.len() <= 3 implies (
    #[trigger] operand_word(op) >> 12) & 0xFF == n by {
        lemma_operand_word(op);
    }
}

/// Each register file has its own number and prefix.
pub proof fn register_files_have_their_numbers()
    ensures
        is_register(RegisterType::Temp, 0, "r"@),
        is_register(RegisterType::Input, 1, "v"@),
        is_register(RegisterType::Output, 2, "o"@),
        is_register(RegisterType::IndexableTemp, 3, "x"@),
        is_register(RegisterType::Immediate32, 4, "l"@),
        is_register(RegisterType::Immediate64, 5, "d"@),
        is_register(RegisterType::Sampler, 6, "s"@),
        is_register(RegisterType::Resource, 7, "t"@),
        is_register(RegisterType::ConstantBuffer, 8, "cb"@),
        is_register(RegisterType::ImmediateConstantBuffer, 9, "icb"@),
        is_register(RegisterType::Label, 10, "label"@),
        is_register(RegisterType::InputPrimitiveId, 11, "vPrim"@),
        is_register(RegisterType::OutputDepth, 12, "oDepth"@),
        is_register(RegisterType::Null, 13, "null"@),
        is_register(RegisterType::Rasterizer, 14, "rasterizer"@),
        is_register(RegisterType::OutputCoverageMask, 15, "oMask"@),
        is_register(RegisterType::Stream, 16, "stream"@),
        is_register(RegisterType::FunctionBody, 17, "function_body"@),
        is_register(RegisterType::FunctionTable, 18, "function_table"@),
        is_register(RegisterType::Interface, 19, "interface"@),
        is_register(RegisterType::FunctionInput, 20, "function_input"@),
        is_register(RegisterType::FunctionOutput, 21, "function_output"@),
        is_register(RegisterType::OutputControlPointId, 22, "vOutputControlPointID"@),
        is_register(RegisterType::InputForkInstanceId, 23, "vForkInstanceID"@),
        is_register(RegisterType::InputJoinInstanceId, 24, "vJoinInstanceID"@),
        is_register(RegisterType::InputControlPoint, 25, "vicp"@),
        is_register(RegisterType::OutputControlPoint, 26, "vocp"@),
        is_register(RegisterType::InputPatchConstant, 27, "vpc"@),
        is_register(RegisterType::InputDomainPoint, 28, "vDomain"@),
        is_register(RegisterType::ThisPointer, 29, "thisPointer"@),
        is_register(RegisterType::Uav, 30, "u"@),
        is_register(RegisterType::ThreadGroupSharedMemory, 31, "g"@),
        is_register(RegisterType::InputThreadId, 32, "vThreadID"@),
        is_register(RegisterType::InputThreadGroupId, 33, "vThreadGroupID"@),
        is_register(RegisterType::InputThreadIdInGroup, 34, "vThreadIDInGroup"@),
        is_register(RegisterType::InputCoverageMask, 35, "vCoverage"@),
        is_register(RegisterType::InputThreadIdInGroupFlattened, 36, "vThreadIDInGroupFlattened"@),
        is_register(RegisterType::InputGsInstanceId, 37, "vGSInstanceID"@),
        is_register(RegisterType::OutputDepthGreaterEqual, 38, "oDepthGE"@),
        is_register(RegisterType::OutputDepthLessEqual, 39, "oDepthLE"@),
        is_register(RegisterType::CycleCounter, 40, "vCycleCounter"@),
        is_register(RegisterType::Temp, 0, "r"@),
        is_register(RegisterType::Input, 1, "v"@),
        is_register(RegisterType::Output, 2, "o"@),
        is_register(RegisterType::IndexableTemp, 3, "x"@),
        is_register(RegisterType::Immediate32, 4, "l"@),
        is_register(RegisterType::Immediate64, 5, "d"@),
        is_register(RegisterType::Sampler, 6, "s"@),
        is_register(RegisterType::Resource, 7, "t"@),
        is_register(RegisterType::ConstantBuffer, 8, "cb"@),
        is_register(RegisterType::ImmediateConstantBuffer, 9, "icb"@),
        is_register(RegisterType::Label, 10, "label"@),
        is_register(RegisterType::InputPrimitiveId, 11, "vPrim"@),
        is_register(RegisterType::OutputDepth, 12, "oDepth"@),
        is_register(RegisterType::Null, 13, "null"@),
        is_register(RegisterType::Rasterizer, 14, "rasterizer"@),
        is_register(RegisterType::OutputCoverageMask, 15, "oMask"@),
        is_register(RegisterType::Stream, 16, "stream"@),
{
    lemma_register(RegisterType::Temp, 0);
    lemma_register(RegisterType::Input, 1);
    lemma_register(RegisterType::Output, 2);
    lemma_register(RegisterType::IndexableTemp, 3);
    lemma_register(RegisterType::Immediate32, 4);
    lemma_register(RegisterType::Immediate64, 5);
    lemma_register(RegisterType::Sampler, 6);
    lemma_register(RegisterType::Resource, 7);
    lemma_register(RegisterType::ConstantBuffer, 8);
    lemma_register(RegisterType::ImmediateConstantBuffer, 9);
    lemma_register(RegisterType::Label, 10);
    lemma_register(RegisterType::InputPrimitiveId, 11);
    lemma_register(RegisterType::OutputDepth, 12);
    lemma_register(RegisterType::Null, 13);
    lemma_register(RegisterType::Rasterizer, 14);
    lemma_register(RegisterType::OutputCoverageMask, 15);
    lemma_register(RegisterType::Stream, 16);
    lemma_register(RegisterType::FunctionBody, 17);
    lemma_register(RegisterType::FunctionTable, 18);
    lemma_register(RegisterType::Interface, 19);
    lemma_register(RegisterType::FunctionInput, 20);
    lemma_register(RegisterType::FunctionOutput, 21);
    lemma_register(RegisterType::OutputControlPointId, 22);
    lemma_register(RegisterType::InputForkInstanceId, 23);
    lemma_register(RegisterType::InputJoinInstanceId, 24);
    lemma_register(RegisterType::InputControlPoint, 25);
    lemma_register(RegisterType::OutputControlPoint, 26);
    lemma_register(RegisterType::InputPatchConstant, 27);
    lemma_register(RegisterType::InputDomainPoint, 28);
    lemma_register(RegisterType::ThisPointer, 29);
    lemma_register(RegisterType::Uav, 30);
    lemma_register(RegisterType::ThreadGroupSharedMemory, 31);
    lemma_register(RegisterType::InputThreadId, 32);
    lemma_register(RegisterType::InputThreadGroupId, 33);
    lemma_register(RegisterType::InputThreadIdInGroup, 34);
    lemma_register(RegisterType::InputCoverageMask, 35);
    lemma_register(RegisterType::InputThreadIdInGroupFlattened, 36);
    lemma_register(RegisterType::InputGsInstanceId, 37);
    lemma_register(RegisterType::OutputDepthGreaterEqual, 38);
    lemma_register(RegisterType::OutputDepthLessEqual, 39);
    lemma_register(RegisterType::CycleCounter, 40);
    lemma_register(RegisterType::Temp, 0);
    lemma_register(RegisterType::Input, 1);
    lemma_register(RegisterType::Output, 2);
    lemma_register(RegisterType::IndexableTemp, 3);
    lemma_register(RegisterType::Immediate32, 4);
    lemma_register(RegisterType::Immediate64, 5);
    lemma_register(RegisterType::Sampler, 6);
    lemma_register(RegisterType::Resource, 7);
    lemma_register(RegisterType::ConstantBuffer, 8);
    lemma_register(RegisterType::ImmediateConstantBuffer, 9);
    lemma_register(RegisterType::Label, 10);
    lemma_register(RegisterType::InputPrimitiveId, 11);
    lemma_register(RegisterType::OutputDepth, 12);
    lemma_register(RegisterType::Null, 13);
    lemma_register(RegisterType::Rasterizer, 14);
    lemma_register(RegisterType::OutputCoverageMask, 15);
    lemma_register(RegisterType::Stream, 16);
}

/// A register with one number is its prefix and the number; a second number stands
/// behind it in brackets.
pub proof fn registers_are_written_with_their_numbers(
    op: OperandModel,
    a: u32,
    b: u32,
    ty: ImmediateType,
    ft: Spellings,
)
    requires
        op.reg_type != RegisterType::Immediate32,
        op.reg_type != RegisterType::Immediate64,
        op.indices == seq![IndexModel::Imm32(a)] || op.indices == seq![
            IndexModel::Imm32(a),
            IndexModel::Imm32(b),
        ],
    ensures
        op.indices.len() == 1 ==> core_text(op, ty, ft) == register_text(op.reg_type) + dec_text(
            a as nat,
        ),
        op.indices.len() == 2 ==> core_text(op, ty, ft) == register_text(op.reg_type) + dec_text(
            a as nat,
        ) + seq!['['] + dec_text(b as nat) + seq![']'],
{
    let ix = op.indices;
    let r = register_text(op.reg_type);
    let (x, y) = (dec_text(a as nat), dec_text(b as nat));
    reveal_with_fuel(indices_text, 3);
    assert(ix[0] == IndexModel::Imm32(a));
    assert(index_text(ix[0], ft) == x);
    if ix.len() == 1 {
        assert(core_text(op, ty, ft) =~= r + x);
    } else {
        assert(ix[1] == IndexModel::Imm32(b));
        assert(index_text(ix[1], ft) == y);
        assert(core_text(op, ty, ft) =~= r + x + seq!['['] + y + seq![']']);
    }
}

/// A number plus another operand stands in brackets, the operand first; a number of
/// two words ends with the letter L.
pub proof fn indices_are_written(ix: IndexModel, ft: Spellings)
    ensures
        match ix {
            IndexModel::Imm32(v) => index_text(ix, ft) == dec_text(v as nat),
            IndexModel::Imm64(v) => index_text(ix, ft) == dec_text(v as nat) + seq!['L'],
            IndexModel::Relative(op) => index_text(ix, ft)
                == crate::grammar::shex::text::operand_text(*op, ImmediateType::Uint, ft),
            IndexModel::RelativePlusImm(v, op) => index_text(ix, ft)
                == crate::grammar::shex::text::operand_text(*op, ImmediateType::Uint, ft) + seq![
                ' ',
                '+',
                ' ',
            ] + dec_text(v as nat),
        },
{
    reveal_strlit(" + ");
    assert(" + "@ =~= seq![' ', '+', ' ']);
    match ix {
        IndexModel::Imm64(v) => {
            assert(dec_text(v as nat).push('L') =~= dec_text(v as nat) + seq!['L']);
        },
        IndexModel::RelativePlusImm(v, op) => {
            let t = crate::grammar::shex::text::operand_text(*op, ImmediateType::Uint, ft);
            assert(t + (" + "@ + dec_text(v as nat)) =~= t + seq![' ', '+', ' '] + dec_text(
                v as nat,
            ));
        },
        _ => {},
    }
}

} // verus!
