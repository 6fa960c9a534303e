//! The numbers and names of opcodes.

use vstd::prelude::*;

use crate::grammar::shex::text::mnemonic_text;
use crate::shex::ir::Opcode;

verus! {

/// Whether the opcode has that number and is written with that mnemonic.
pub open spec fn is_opcode(op: Opcode, n: u32, name: Seq<char>) -> bool {
    &&& op.spec_to_u32() == n
    &&& Opcode::spec_from_u32(n) == op
    &&& mnemonic_text(op) == name
}

/// Each opcode from number 0 to number 36 has its own number and mnemonic.
pub proof fn opcodes_of_the_first_part()
    ensures
        is_opcode(Opcode::Add, 0, "add"@),
        is_opcode(Opcode::And, 1, "and"@),
        is_opcode(Opcode::Break, 2, "break"@),
        is_opcode(Opcode::Breakc, 3, "breakc"@),
        is_opcode(Opcode::Call, 4, "call"@),
        is_opcode(Opcode::Callc, 5, "callc"@),
        is_opcode(Opcode::Case, 6, "case"@),
        is_opcode(Opcode::Continue, 7, "continue"@),
        is_opcode(Opcode::Continuec, 8, "continuec"@),
        is_opcode(Opcode::Cut, 9, "cut"@),
        is_opcode(Opcode::Default, 10, "default"@),
        is_opcode(Opcode::DerivRtx, 11, "deriv_rtx"@),
        is_opcode(Opcode::DerivRty, 12, "deriv_rty"@),
        is_opcode(Opcode::Discard, 13, "discard"@),
        is_opcode(Opcode::Div, 14, "div"@),
        is_opcode(Opcode::Dp2, 15, "dp2"@),
        is_opcode(Opcode::Dp3, 16, "dp3"@),
        is_opcode(Opcode::Dp4, 17, "dp4"@),
        is_opcode(Opcode::Else, 18, "else"@),
        is_opcode(Opcode::Emit, 19, "emit"@),
        is_opcode(Opcode::EmitThenCut, 20, "emitThenCut"@),
        is_opcode(Opcode::EndIf, 21, "endif"@),
        is_opcode(Opcode::Endloop, 22, "endloop"@),
        is_opcode(Opcode::Endswitch, 23, "endswitch"@),
        is_opcode(Opcode::Eq, 24, "eq"@),
        is_opcode(Opcode::Exp, 25, "exp"@),
        is_opcode(Opcode::Frc, 26, "frc"@),
        is_opcode(Opcode::Ftoi, 27, "ftoi"@),
        is_opcode(Opcode::Ftou, 28, "ftou"@),
        is_opcode(Opcode::Ge, 29, "ge"@),
        is_opcode(Opcode::Iadd, 30, "iadd"@),
        is_opcode(Opcode::If, 31, "if"@),
        is_opcode(Opcode::Ieq, 32, "ieq"@),
        is_opcode(Opcode::Ige, 33, "ige"@),
        is_opcode(Opcode::Ilt, 34, "ilt"@),
        is_opcode(Opcode::Imad, 35, "imad"@),
        is_opcode(Opcode::Imax, 36, "imax"@),
{
}

/// Each opcode from number 37 to number 73 has its own number and mnemonic.
pub proof fn opcodes_of_the_second_part()
    ensures
        is_opcode(Opcode::Imin, 37, "imin"@),
        is_opcode(Opcode::Imul, 38, "imul"@),
        is_opcode(Opcode::Ine, 39, "ine"@),
        is_opcode(Opcode::Ineg, 40, "ineg"@),
        is_opcode(Opcode::Ishl, 41, "ishl"@),
        is_opcode(Opcode::Ishr, 42, "ishr"@),
        is_opcode(Opcode::Itof, 43, "itof"@),
        is_opcode(Opcode::Label, 44, "label"@),
        is_opcode(Opcode::Ld, 45, "ld"@),
        is_opcode(Opcode::LdMs, 46, "ld_ms"@),
        is_opcode(Opcode::Log, 47, "log"@),
        is_opcode(Opcode::Loop, 48, "loop"@),
        is_opcode(Opcode::Lt, 49, "lt"@),
        is_opcode(Opcode::Mad, 50, "mad"@),
        is_opcode(Opcode::Min, 51, "min"@),
        is_opcode(Opcode::Max, 52, "max"@),
        is_opcode(Opcode::CustomData, 53, "customdata"@),
        is_opcode(Opcode::Mov, 54, "mov"@),
        is_opcode(Opcode::Movc, 55, "movc"@),
        is_opcode(Opcode::Mul, 56, "mul"@),
        is_opcode(Opcode::Ne, 57, "ne"@),
        is_opcode(Opcode::Nop, 58, "nop"@),
        is_opcode(Opcode::Not, 59, "not"@),
        is_opcode(Opcode::Or, 60, "or"@),
        is_opcode(Opcode::Resinfo, 61, "resinfo"@),
        is_opcode(Opcode::Ret, 62, "ret"@),
        is_opcode(Opcode::Retc, 63, "retc"@),
        is_opcode(Opcode::RoundNe, 64, "round_ne"@),
        is_opcode(Opcode::RoundNi, 65, "round_ni"@),
        is_opcode(Opcode::RoundPi, 66, "round_pi"@),
        is_opcode(Opcode::RoundZ, 67, "round_z"@),
        is_opcode(Opcode::Rsq, 68, "rsq"@),
        is_opcode(Opcode::Sample, 69, "sample"@),
        is_opcode(Opcode::SampleC, 70, "sample_c"@),
        is_opcode(Opcode::SampleCLz, 71, "sample_c_lz"@),
        is_opcode(Opcode::SampleL, 72, "sample_l"@),
        is_opcode(Opcode::SampleD, 73, "sample_d"@),
{
}

/// Each opcode from number 74 to number 110 has its own number and mnemonic.
pub proof fn opcodes_of_the_third_part()
    ensures
        is_opcode(Opcode::SampleB, 74, "sample_b"@),
        is_opcode(Opcode::Sqrt, 75, "sqrt"@),
        is_opcode(Opcode::Switch, 76, "switch"@),
        is_opcode(Opcode::Sincos, 77, "sincos"@),
        is_opcode(Opcode::Udiv, 78, "udiv"@),
        is_opcode(Opcode::Ult, 79, "ult"@),
        is_opcode(Opcode::Uge, 80, "uge"@),
        is_opcode(Opcode::Umul, 81, "umul"@),
        is_opcode(Opcode::Umad, 82, "umad"@),
        is_opcode(Opcode::Umax, 83, "umax"@),
        is_opcode(Opcode::Umin, 84, "umin"@),
        is_opcode(Opcode::Ushr, 85, "ushr"@),
        is_opcode(Opcode::Utof, 86, "utof"@),
        is_opcode(Opcode::Xor, 87, "xor"@),
        is_opcode(Opcode::DclResource, 88, "dcl_resource"@),
        is_opcode(Opcode::DclConstantBuffer, 89, "dcl_constantbuffer"@),
        is_opcode(Opcode::DclSampler, 90, "dcl_sampler"@),
        is_opcode(Opcode::DclIndexRange, 91, "dcl_indexRange"@),
        is_opcode(Opcode::DclGsOutputPrimitiveTopology, 92, "dcl_gsOutputPrimitiveTopology"@),
        is_opcode(Opcode::DclGsInputPrimitive, 93, "dcl_gsInputPrimitive"@),
        is_opcode(Opcode::DclMaxOutputVertexCount, 94, "dcl_maxOutputVertexCount"@),
        is_opcode(Opcode::DclInput, 95, "dcl_input"@),
        is_opcode(Opcode::DclInputSgv, 96, "dcl_input_sgv"@),
        is_opcode(Opcode::DclInputSiv, 97, "dcl_input_siv"@),
        is_opcode(Opcode::DclInputPs, 98, "dcl_input_ps"@),
        is_opcode(Opcode::DclInputPsSgv, 99, "dcl_input_ps_sgv"@),
        is_opcode(Opcode::DclInputPsSiv, 100, "dcl_input_ps_siv"@),
        is_opcode(Opcode::DclOutput, 101, "dcl_output"@),
        is_opcode(Opcode::DclOutputSgv, 102, "dcl_output_sgv"@),
        is_opcode(Opcode::DclOutputSiv, 103, "dcl_output_siv"@),
        is_opcode(Opcode::DclTemps, 104, "dcl_temps"@),
        is_opcode(Opcode::DclIndexableTemp, 105, "dcl_indexableTemp"@),
        is_opcode(Opcode::DclGlobalFlags, 106, "dcl_globalFlags"@),
        is_opcode(Opcode::Reserved0, 107, "reserved0"@),
        is_opcode(Opcode::Lod, 108, "lod"@),
        is_opcode(Opcode::Gather4, 109, "gather4"@),
        is_opcode(Opcode::SamplePos, 110, "sample_pos"@),
{
}

/// Each opcode from number 111 to number 147 has its own number and mnemonic.
pub proof fn opcodes_of_the_fourth_part()
    ensures
        is_opcode(Opcode::SampleInfo, 111, "sample_info"@),
        is_opcode(Opcode::Reserved1, 112, "reserved1"@),
        is_opcode(Opcode::HsDecls, 113, "hs_decls"@),
        is_opcode(Opcode::HsControlPointPhase, 114, "hs_control_point_phase"@),
        is_opcode(Opcode::HsForkPhase, 115, "hs_fork_phase"@),
        is_opcode(Opcode::HsJoinPhase, 116, "hs_join_phase"@),
        is_opcode(Opcode::EmitStream, 117, "emit_stream"@),
        is_opcode(Opcode::CutStream, 118, "cut_stream"@),
        is_opcode(Opcode::EmitThenCutStream, 119, "emitThenCut_stream"@),
        is_opcode(Opcode::InterfaceCall, 120, "interface_call"@),
        is_opcode(Opcode::Bufinfo, 121, "bufinfo"@),
        is_opcode(Opcode::DerivRtxCoarse, 122, "deriv_rtx_coarse"@),
        is_opcode(Opcode::DerivRtxFine, 123, "deriv_rtx_fine"@),
        is_opcode(Opcode::DerivRtyCoarse, 124, "deriv_rty_coarse"@),
        is_opcode(Opcode::DerivRtyFine, 125, "deriv_rty_fine"@),
        is_opcode(Opcode::Gather4C, 126, "gather4_c"@),
        is_opcode(Opcode::Gather4Po, 127, "gather4_po"@),
        is_opcode(Opcode::Gather4PoC, 128, "gather4_po_c"@),
        is_opcode(Opcode::Rcp, 129, "rcp"@),
        is_opcode(Opcode::Half16FromSingle, 130, "f32tof16"@),
        is_opcode(Opcode::SingleFromHalf16, 131, "f16tof32"@),
        is_opcode(Opcode::Uaddc, 132, "uaddc"@),
        is_opcode(Opcode::Usubb, 133, "usubb"@),
        is_opcode(Opcode::Countbits, 134, "countbits"@),
        is_opcode(Opcode::FirstbitHi, 135, "firstbit_hi"@),
        is_opcode(Opcode::FirstbitLo, 136, "firstbit_lo"@),
        is_opcode(Opcode::FirstbitShi, 137, "firstbit_shi"@),
        is_opcode(Opcode::Ubfe, 138, "ubfe"@),
        is_opcode(Opcode::Ibfe, 139, "ibfe"@),
        is_opcode(Opcode::Bfi, 140, "bfi"@),
        is_opcode(Opcode::Bfrev, 141, "bfrev"@),
        is_opcode(Opcode::Swapc, 142, "swapc"@),
        is_opcode(Opcode::DclStream, 143, "dcl_stream"@),
        is_opcode(Opcode::DclFunctionBody, 144, "dcl_function_body"@),
        is_opcode(Opcode::DclFunctionTable, 145, "dcl_function_table"@),
        is_opcode(Opcode::DclInterface, 146, "dcl_interface"@),
        is_opcode(Opcode::DclInputControlPointCount, 147, "dcl_input_control_point_count"@),
{
}

/// Each opcode from number 148 to number 184 has its own number and mnemonic.
pub proof fn opcodes_of_the_fifth_part()
    ensures
        is_opcode(Opcode::DclOutputControlPointCount, 148, "dcl_output_control_point_count"@),
        is_opcode(Opcode::DclTessDomain, 149, "dcl_tess_domain"@),
        is_opcode(Opcode::DclTessPartitioning, 150, "dcl_tess_partitioning"@),
        is_opcode(Opcode::DclTessOutputPrimitive, 151, "dcl_tess_output_primitive"@),
        is_opcode(Opcode::DclHsMaxTessFactor, 152, "dcl_hsMaxTessFactor"@),
        is_opcode(Opcode::DclHsForkPhaseInstanceCount, 153, "dcl_hs_fork_phase_instance_count"@),
        is_opcode(Opcode::DclHsJoinPhaseInstanceCount, 154, "dcl_hs_join_phase_instance_count"@),
        is_opcode(Opcode::DclThreadGroup, 155, "dcl_thread_group"@),
        is_opcode(Opcode::DclUnorderedAccessViewTyped, 156, "dcl_uav_typed"@),
        is_opcode(Opcode::DclUnorderedAccessViewRaw, 157, "dcl_uav_raw"@),
        is_opcode(Opcode::DclUnorderedAccessViewStructured, 158, "dcl_uav_structured"@),
        is_opcode(Opcode::DclThreadGroupSharedMemoryRaw, 159, "dcl_tgsm_raw"@),
        is_opcode(Opcode::DclThreadGroupSharedMemoryStructured, 160, "dcl_tgsm_structured"@),
        is_opcode(Opcode::DclResourceRaw, 161, "dcl_resource_raw"@),
        is_opcode(Opcode::DclResourceStructured, 162, "dcl_resource_structured"@),
        is_opcode(Opcode::LdUavTyped, 163, "ld_uav_typed"@),
        is_opcode(Opcode::StoreUavTyped, 164, "store_uav_typed"@),
        is_opcode(Opcode::LdRaw, 165, "ld_raw"@),
        is_opcode(Opcode::StoreRaw, 166, "store_raw"@),
        is_opcode(Opcode::LdStructured, 167, "ld_structured"@),
        is_opcode(Opcode::StoreStructured, 168, "store_structured"@),
        is_opcode(Opcode::AtomicAnd, 169, "atomic_and"@),
        is_opcode(Opcode::AtomicOr, 170, "atomic_or"@),
        is_opcode(Opcode::AtomicXor, 171, "atomic_xor"@),
        is_opcode(Opcode::AtomicCmpStore, 172, "atomic_cmp_store"@),
        is_opcode(Opcode::AtomicIadd, 173, "atomic_iadd"@),
        is_opcode(Opcode::AtomicImax, 174, "atomic_imax"@),
        is_opcode(Opcode::AtomicImin, 175, "atomic_imin"@),
        is_opcode(Opcode::AtomicUmax, 176, "atomic_umax"@),
        is_opcode(Opcode::AtomicUmin, 177, "atomic_umin"@),
        is_opcode(Opcode::ImmAtomicAlloc, 178, "imm_atomic_alloc"@),
        is_opcode(Opcode::ImmAtomicConsume, 179, "imm_atomic_consume"@),
        is_opcode(Opcode::ImmAtomicIadd, 180, "imm_atomic_iadd"@),
        is_opcode(Opcode::ImmAtomicAnd, 181, "imm_atomic_and"@),
        is_opcode(Opcode::ImmAtomicOr, 182, "imm_atomic_or"@),
        is_opcode(Opcode::ImmAtomicXor, 183, "imm_atomic_xor"@),
        is_opcode(Opcode::ImmAtomicExch, 184, "imm_atomic_exch"@),
{
}

/// Each opcode from number 185 to number 217 has its own number and mnemonic.
pub proof fn opcodes_of_the_sixth_part()
    ensures
        is_opcode(Opcode::ImmAtomicCmpExch, 185, "imm_atomic_cmp_exch"@),
        is_opcode(Opcode::ImmAtomicImax, 186, "imm_atomic_imax"@),
        is_opcode(Opcode::ImmAtomicImin, 187, "imm_atomic_imin"@),
        is_opcode(Opcode::ImmAtomicUmax, 188, "imm_atomic_umax"@),
        is_opcode(Opcode::ImmAtomicUmin, 189, "imm_atomic_umin"@),
        is_opcode(Opcode::Sync, 190, "sync"@),
        is_opcode(Opcode::Dadd, 191, "dadd"@),
        is_opcode(Opcode::Dmax, 192, "dmax"@),
        is_opcode(Opcode::Dmin, 193, "dmin"@),
        is_opcode(Opcode::Dmul, 194, "dmul"@),
        is_opcode(Opcode::Deq, 195, "deq"@),
        is_opcode(Opcode::Dge, 196, "dge"@),
        is_opcode(Opcode::Dlt, 197, "dlt"@),
        is_opcode(Opcode::Dne, 198, "dne"@),
        is_opcode(Opcode::Dmov, 199, "dmov"@),
        is_opcode(Opcode::Dmovc, 200, "dmovc"@),
        is_opcode(Opcode::Dtof, 201, "dtof"@),
        is_opcode(Opcode::Ftod, 202, "ftod"@),
        is_opcode(Opcode::EvalSnapped, 203, "eval_snapped"@),
        is_opcode(Opcode::EvalSampleIndex, 204, "eval_sample_index"@),
        is_opcode(Opcode::EvalCentroid, 205, "eval_centroid"@),
        is_opcode(Opcode::DclGsInstanceCount, 206, "dcl_gs_instance_count"@),
        is_opcode(Opcode::Abort, 207, "abort"@),
        is_opcode(Opcode::DebugBreak, 208, "debug_break"@),
        is_opcode(Opcode::Reserved2, 209, "reserved2"@),
        is_opcode(Opcode::Ddiv, 210, "ddiv"@),
        is_opcode(Opcode::Dfma, 211, "dfma"@),
        is_opcode(Opcode::Drcp, 212, "drcp"@),
        is_opcode(Opcode::Msad, 213, "msad"@),
        is_opcode(Opcode::Dtoi, 214, "dtoi"@),
        is_opcode(Opcode::Dtou, 215, "dtou"@),
        is_opcode(Opcode::Itod, 216, "itod"@),
        is_opcode(Opcode::Utod, 217, "utod"@),
{
}

} // verus!
