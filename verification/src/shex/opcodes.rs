//! Opcodes of the shader bytecode: their numbers and mnemonics.

use vstd::prelude::*;

verus! {

/// The highest opcode number with a name of its own.
pub const OPCODE_MAX: u32 = 217;

/// A shader instruction's opcode.
#[derive(Clone, Copy, Debug, PartialEq, Eq, Structural)]
pub enum Opcode {
    /// `add`
    Add,
    /// `and`
    And,
    /// `break`
    Break,
    /// `breakc`
    Breakc,
    /// `call`
    Call,
    /// `callc`
    Callc,
    /// `case`
    Case,
    /// `continue`
    Continue,
    /// `continuec`
    Continuec,
    /// `cut`
    Cut,
    /// `default`
    Default,
    /// `deriv_rtx`
    DerivRtx,
    /// `deriv_rty`
    DerivRty,
    /// `discard`
    Discard,
    /// `div`
    Div,
    /// `dp2`
    Dp2,
    /// `dp3`
    Dp3,
    /// `dp4`
    Dp4,
    /// `else`
    Else,
    /// `emit`
    Emit,
    /// `emitThenCut`
    EmitThenCut,
    /// `endif`
    EndIf,
    /// `endloop`
    Endloop,
    /// `endswitch`
    Endswitch,
    /// `eq`
    Eq,
    /// `exp`
    Exp,
    /// `frc`
    Frc,
    /// `ftoi`
    Ftoi,
    /// `ftou`
    Ftou,
    /// `ge`
    Ge,
    /// `iadd`
    Iadd,
    /// `if`
    If,
    /// `ieq`
    Ieq,
    /// `ige`
    Ige,
    /// `ilt`
    Ilt,
    /// `imad`
    Imad,
    /// `imax`
    Imax,
    /// `imin`
    Imin,
    /// `imul`
    Imul,
    /// `ine`
    Ine,
    /// `ineg`
    Ineg,
    /// `ishl`
    Ishl,
    /// `ishr`
    Ishr,
    /// `itof`
    Itof,
    /// `label`
    Label,
    /// `ld`
    Ld,
    /// `ld_ms`
    LdMs,
    /// `log`
    Log,
    /// `loop`
    Loop,
    /// `lt`
    Lt,
    /// `mad`
    Mad,
    /// `min`
    Min,
    /// `max`
    Max,
    /// `customdata`
    CustomData,
    /// `mov`
    Mov,
    /// `movc`
    Movc,
    /// `mul`
    Mul,
    /// `ne`
    Ne,
    /// `nop`
    Nop,
    /// `not`
    Not,
    /// `or`
    Or,
    /// `resinfo`
    Resinfo,
    /// `ret`
    Ret,
    /// `retc`
    Retc,
    /// `round_ne`
    RoundNe,
    /// `round_ni`
    RoundNi,
    /// `round_pi`
    RoundPi,
    /// `round_z`
    RoundZ,
    /// `rsq`
    Rsq,
    /// `sample`
    Sample,
    /// `sample_c`
    SampleC,
    /// `sample_c_lz`
    SampleCLz,
    /// `sample_l`
    SampleL,
    /// `sample_d`
    SampleD,
    /// `sample_b`
    SampleB,
    /// `sqrt`
    Sqrt,
    /// `switch`
    Switch,
    /// `sincos`
    Sincos,
    /// `udiv`
    Udiv,
    /// `ult`
    Ult,
    /// `uge`
    Uge,
    /// `umul`
    Umul,
    /// `umad`
    Umad,
    /// `umax`
    Umax,
    /// `umin`
    Umin,
    /// `ushr`
    Ushr,
    /// `utof`
    Utof,
    /// `xor`
    Xor,
    /// `dcl_resource`
    DclResource,
    /// `dcl_constantbuffer`
    DclConstantBuffer,
    /// `dcl_sampler`
    DclSampler,
    /// `dcl_indexRange`
    DclIndexRange,
    /// `dcl_gsOutputPrimitiveTopology`
    DclGsOutputPrimitiveTopology,
    /// `dcl_gsInputPrimitive`
    DclGsInputPrimitive,
    /// `dcl_maxOutputVertexCount`
    DclMaxOutputVertexCount,
    /// `dcl_input`
    DclInput,
    /// `dcl_input_sgv`
    DclInputSgv,
    /// `dcl_input_siv`
    DclInputSiv,
    /// `dcl_input_ps`
    DclInputPs,
    /// `dcl_input_ps_sgv`
    DclInputPsSgv,
    /// `dcl_input_ps_siv`
    DclInputPsSiv,
    /// `dcl_output`
    DclOutput,
    /// `dcl_output_sgv`
    DclOutputSgv,
    /// `dcl_output_siv`
    DclOutputSiv,
    /// `dcl_temps`
    DclTemps,
    /// `dcl_indexableTemp`
    DclIndexableTemp,
    /// `dcl_globalFlags`
    DclGlobalFlags,
    /// `reserved0`
    Reserved0,
    /// `lod`
    Lod,
    /// `gather4`
    Gather4,
    /// `sample_pos`
    SamplePos,
    /// `sample_info`
    SampleInfo,
    /// `reserved1`
    Reserved1,
    /// `hs_decls`
    HsDecls,
    /// `hs_control_point_phase`
    HsControlPointPhase,
    /// `hs_fork_phase`
    HsForkPhase,
    /// `hs_join_phase`
    HsJoinPhase,
    /// `emit_stream`
    EmitStream,
    /// `cut_stream`
    CutStream,
    /// `emitThenCut_stream`
    EmitThenCutStream,
    /// `interface_call`
    InterfaceCall,
    /// `bufinfo`
    Bufinfo,
    /// `deriv_rtx_coarse`
    DerivRtxCoarse,
    /// `deriv_rtx_fine`
    DerivRtxFine,
    /// `deriv_rty_coarse`
    DerivRtyCoarse,
    /// `deriv_rty_fine`
    DerivRtyFine,
    /// `gather4_c`
    Gather4C,
    /// `gather4_po`
    Gather4Po,
    /// `gather4_po_c`
    Gather4PoC,
    /// `rcp`
    Rcp,
    /// `f32tof16`
    Half16FromSingle,
    /// `f16tof32`
    SingleFromHalf16,
    /// `uaddc`
    Uaddc,
    /// `usubb`
    Usubb,
    /// `countbits`
    Countbits,
    /// `firstbit_hi`
    FirstbitHi,
    /// `firstbit_lo`
    FirstbitLo,
    /// `firstbit_shi`
    FirstbitShi,
    /// `ubfe`
    Ubfe,
    /// `ibfe`
    Ibfe,
    /// `bfi`
    Bfi,
    /// `bfrev`
    Bfrev,
    /// `swapc`
    Swapc,
    /// `dcl_stream`
    DclStream,
    /// `dcl_function_body`
    DclFunctionBody,
    /// `dcl_function_table`
    DclFunctionTable,
    /// `dcl_interface`
    DclInterface,
    /// `dcl_input_control_point_count`
    DclInputControlPointCount,
    /// `dcl_output_control_point_count`
    DclOutputControlPointCount,
    /// `dcl_tess_domain`
    DclTessDomain,
    /// `dcl_tess_partitioning`
    DclTessPartitioning,
    /// `dcl_tess_output_primitive`
    DclTessOutputPrimitive,
    /// `dcl_hsMaxTessFactor`
    DclHsMaxTessFactor,
    /// `dcl_hs_fork_phase_instance_count`
    DclHsForkPhaseInstanceCount,
    /// `dcl_hs_join_phase_instance_count`
    DclHsJoinPhaseInstanceCount,
    /// `dcl_thread_group`
    DclThreadGroup,
    /// `dcl_uav_typed`
    DclUnorderedAccessViewTyped,
    /// `dcl_uav_raw`
    DclUnorderedAccessViewRaw,
    /// `dcl_uav_structured`
    DclUnorderedAccessViewStructured,
    /// `dcl_tgsm_raw`
    DclThreadGroupSharedMemoryRaw,
    /// `dcl_tgsm_structured`
    DclThreadGroupSharedMemoryStructured,
    /// `dcl_resource_raw`
    DclResourceRaw,
    /// `dcl_resource_structured`
    DclResourceStructured,
    /// `ld_uav_typed`
    LdUavTyped,
    /// `store_uav_typed`
    StoreUavTyped,
    /// `ld_raw`
    LdRaw,
    /// `store_raw`
    StoreRaw,
    /// `ld_structured`
    LdStructured,
    /// `store_structured`
    StoreStructured,
    /// `atomic_and`
    AtomicAnd,
    /// `atomic_or`
    AtomicOr,
    /// `atomic_xor`
    AtomicXor,
    /// `atomic_cmp_store`
    AtomicCmpStore,
    /// `atomic_iadd`
    AtomicIadd,
    /// `atomic_imax`
    AtomicImax,
    /// `atomic_imin`
    AtomicImin,
    /// `atomic_umax`
    AtomicUmax,
    /// `atomic_umin`
    AtomicUmin,
    /// `imm_atomic_alloc`
    ImmAtomicAlloc,
    /// `imm_atomic_consume`
    ImmAtomicConsume,
    /// `imm_atomic_iadd`
    ImmAtomicIadd,
    /// `imm_atomic_and`
    ImmAtomicAnd,
    /// `imm_atomic_or`
    ImmAtomicOr,
    /// `imm_atomic_xor`
    ImmAtomicXor,
    /// `imm_atomic_exch`
    ImmAtomicExch,
    /// `imm_atomic_cmp_exch`
    ImmAtomicCmpExch,
    /// `imm_atomic_imax`
    ImmAtomicImax,
    /// `imm_atomic_imin`
    ImmAtomicImin,
    /// `imm_atomic_umax`
    ImmAtomicUmax,
    /// `imm_atomic_umin`
    ImmAtomicUmin,
    /// `sync`
    Sync,
    /// `dadd`
    Dadd,
    /// `dmax`
    Dmax,
    /// `dmin`
    Dmin,
    /// `dmul`
    Dmul,
    /// `deq`
    Deq,
    /// `dge`
    Dge,
    /// `dlt`
    Dlt,
    /// `dne`
    Dne,
    /// `dmov`
    Dmov,
    /// `dmovc`
    Dmovc,
    /// `dtof`
    Dtof,
    /// `ftod`
    Ftod,
    /// `eval_snapped`
    EvalSnapped,
    /// `eval_sample_index`
    EvalSampleIndex,
    /// `eval_centroid`
    EvalCentroid,
    /// `dcl_gs_instance_count`
    DclGsInstanceCount,
    /// `abort`
    Abort,
    /// `debug_break`
    DebugBreak,
    /// `reserved2`
    Reserved2,
    /// `ddiv`
    Ddiv,
    /// `dfma`
    Dfma,
    /// `drcp`
    Drcp,
    /// `msad`
    Msad,
    /// `dtoi`
    Dtoi,
    /// `dtou`
    Dtou,
    /// `itod`
    Itod,
    /// `utod`
    Utod,
    /// A number without a name.
    Unknown(u32),
}

impl Opcode {
    /// The opcode with the number `v`.
    pub open spec fn spec_from_u32(v: u32) -> Opcode {
        match v {
            0 => Opcode::Add,
            1 => Opcode::And,
            2 => Opcode::Break,
            3 => Opcode::Breakc,
            4 => Opcode::Call,
            5 => Opcode::Callc,
            6 => Opcode::Case,
            7 => Opcode::Continue,
            8 => Opcode::Continuec,
            9 => Opcode::Cut,
            10 => Opcode::Default,
            11 => Opcode::DerivRtx,
            12 => Opcode::DerivRty,
            13 => Opcode::Discard,
            14 => Opcode::Div,
            15 => Opcode::Dp2,
            16 => Opcode::Dp3,
            17 => Opcode::Dp4,
            18 => Opcode::Else,
            19 => Opcode::Emit,
            20 => Opcode::EmitThenCut,
            21 => Opcode::EndIf,
            22 => Opcode::Endloop,
            23 => Opcode::Endswitch,
            24 => Opcode::Eq,
            25 => Opcode::Exp,
            26 => Opcode::Frc,
            27 => Opcode::Ftoi,
            28 => Opcode::Ftou,
            29 => Opcode::Ge,
            30 => Opcode::Iadd,
            31 => Opcode::If,
            32 => Opcode::Ieq,
            33 => Opcode::Ige,
            34 => Opcode::Ilt,
            35 => Opcode::Imad,
            36 => Opcode::Imax,
            37 => Opcode::Imin,
            38 => Opcode::Imul,
            39 => Opcode::Ine,
            40 => Opcode::Ineg,
            41 => Opcode::Ishl,
            42 => Opcode::Ishr,
            43 => Opcode::Itof,
            44 => Opcode::Label,
            45 => Opcode::Ld,
            46 => Opcode::LdMs,
            47 => Opcode::Log,
            48 => Opcode::Loop,
            49 => Opcode::Lt,
            50 => Opcode::Mad,
            51 => Opcode::Min,
            52 => Opcode::Max,
            53 => Opcode::CustomData,
            54 => Opcode::Mov,
            55 => Opcode::Movc,
            56 => Opcode::Mul,
            57 => Opcode::Ne,
            58 => Opcode::Nop,
            59 => Opcode::Not,
            60 => Opcode::Or,
            61 => Opcode::Resinfo,
            62 => Opcode::Ret,
            63 => Opcode::Retc,
            64 => Opcode::RoundNe,
            65 => Opcode::RoundNi,
            66 => Opcode::RoundPi,
            67 => Opcode::RoundZ,
            68 => Opcode::Rsq,
            69 => Opcode::Sample,
            70 => Opcode::SampleC,
            71 => Opcode::SampleCLz,
            72 => Opcode::SampleL,
            73 => Opcode::SampleD,
            74 => Opcode::SampleB,
            75 => Opcode::Sqrt,
            76 => Opcode::Switch,
            77 => Opcode::Sincos,
            78 => Opcode::Udiv,
            79 => Opcode::Ult,
            80 => Opcode::Uge,
            81 => Opcode::Umul,
            82 => Opcode::Umad,
            83 => Opcode::Umax,
            84 => Opcode::Umin,
            85 => Opcode::Ushr,
            86 => Opcode::Utof,
            87 => Opcode::Xor,
            88 => Opcode::DclResource,
            89 => Opcode::DclConstantBuffer,
            90 => Opcode::DclSampler,
            91 => Opcode::DclIndexRange,
            92 => Opcode::DclGsOutputPrimitiveTopology,
            93 => Opcode::DclGsInputPrimitive,
            94 => Opcode::DclMaxOutputVertexCount,
            95 => Opcode::DclInput,
            96 => Opcode::DclInputSgv,
            97 => Opcode::DclInputSiv,
            98 => Opcode::DclInputPs,
            99 => Opcode::DclInputPsSgv,
            100 => Opcode::DclInputPsSiv,
            101 => Opcode::DclOutput,
            102 => Opcode::DclOutputSgv,
            103 => Opcode::DclOutputSiv,
            104 => Opcode::DclTemps,
            105 => Opcode::DclIndexableTemp,
            106 => Opcode::DclGlobalFlags,
            107 => Opcode::Reserved0,
            108 => Opcode::Lod,
            109 => Opcode::Gather4,
            110 => Opcode::SamplePos,
            111 => Opcode::SampleInfo,
            112 => Opcode::Reserved1,
            113 => Opcode::HsDecls,
            114 => Opcode::HsControlPointPhase,
            115 => Opcode::HsForkPhase,
            116 => Opcode::HsJoinPhase,
            117 => Opcode::EmitStream,
            118 => Opcode::CutStream,
            119 => Opcode::EmitThenCutStream,
            120 => Opcode::InterfaceCall,
            121 => Opcode::Bufinfo,
            122 => Opcode::DerivRtxCoarse,
            123 => Opcode::DerivRtxFine,
            124 => Opcode::DerivRtyCoarse,
            125 => Opcode::DerivRtyFine,
            126 => Opcode::Gather4C,
            127 => Opcode::Gather4Po,
            128 => Opcode::Gather4PoC,
            129 => Opcode::Rcp,
            130 => Opcode::Half16FromSingle,
            131 => Opcode::SingleFromHalf16,
            132 => Opcode::Uaddc,
            133 => Opcode::Usubb,
            134 => Opcode::Countbits,
            135 => Opcode::FirstbitHi,
            136 => Opcode::FirstbitLo,
            137 => Opcode::FirstbitShi,
            138 => Opcode::Ubfe,
            139 => Opcode::Ibfe,
            140 => Opcode::Bfi,
            141 => Opcode::Bfrev,
            142 => Opcode::Swapc,
            143 => Opcode::DclStream,
            144 => Opcode::DclFunctionBody,
            145 => Opcode::DclFunctionTable,
            146 => Opcode::DclInterface,
            147 => Opcode::DclInputControlPointCount,
            148 => Opcode::DclOutputControlPointCount,
            149 => Opcode::DclTessDomain,
            150 => Opcode::DclTessPartitioning,
            151 => Opcode::DclTessOutputPrimitive,
            152 => Opcode::DclHsMaxTessFactor,
            153 => Opcode::DclHsForkPhaseInstanceCount,
            154 => Opcode::DclHsJoinPhaseInstanceCount,
            155 => Opcode::DclThreadGroup,
            156 => Opcode::DclUnorderedAccessViewTyped,
            157 => Opcode::DclUnorderedAccessViewRaw,
            158 => Opcode::DclUnorderedAccessViewStructured,
            159 => Opcode::DclThreadGroupSharedMemoryRaw,
            160 => Opcode::DclThreadGroupSharedMemoryStructured,
            161 => Opcode::DclResourceRaw,
            162 => Opcode::DclResourceStructured,
            163 => Opcode::LdUavTyped,
            164 => Opcode::StoreUavTyped,
            165 => Opcode::LdRaw,
            166 => Opcode::StoreRaw,
            167 => Opcode::LdStructured,
            168 => Opcode::StoreStructured,
            169 => Opcode::AtomicAnd,
            170 => Opcode::AtomicOr,
            171 => Opcode::AtomicXor,
            172 => Opcode::AtomicCmpStore,
            173 => Opcode::AtomicIadd,
            174 => Opcode::AtomicImax,
            175 => Opcode::AtomicImin,
            176 => Opcode::AtomicUmax,
            177 => Opcode::AtomicUmin,
            178 => Opcode::ImmAtomicAlloc,
            179 => Opcode::ImmAtomicConsume,
            180 => Opcode::ImmAtomicIadd,
            181 => Opcode::ImmAtomicAnd,
            182 => Opcode::ImmAtomicOr,
            183 => Opcode::ImmAtomicXor,
            184 => Opcode::ImmAtomicExch,
            185 => Opcode::ImmAtomicCmpExch,
            186 => Opcode::ImmAtomicImax,
            187 => Opcode::ImmAtomicImin,
            188 => Opcode::ImmAtomicUmax,
            189 => Opcode::ImmAtomicUmin,
            190 => Opcode::Sync,
            191 => Opcode::Dadd,
            192 => Opcode::Dmax,
            193 => Opcode::Dmin,
            194 => Opcode::Dmul,
            195 => Opcode::Deq,
            196 => Opcode::Dge,
            197 => Opcode::Dlt,
            198 => Opcode::Dne,
            199 => Opcode::Dmov,
            200 => Opcode::Dmovc,
            201 => Opcode::Dtof,
            202 => Opcode::Ftod,
            203 => Opcode::EvalSnapped,
            204 => Opcode::EvalSampleIndex,
            205 => Opcode::EvalCentroid,
            206 => Opcode::DclGsInstanceCount,
            207 => Opcode::Abort,
            208 => Opcode::DebugBreak,
            209 => Opcode::Reserved2,
            210 => Opcode::Ddiv,
            211 => Opcode::Dfma,
            212 => Opcode::Drcp,
            213 => Opcode::Msad,
            214 => Opcode::Dtoi,
            215 => Opcode::Dtou,
            216 => Opcode::Itod,
            217 => Opcode::Utod,
            _ => Opcode::Unknown(v),
        }
    }

    /// The opcode with the number `v`.
    #[verifier::when_used_as_spec(spec_from_u32)]
    pub fn from_u32(v: u32) -> (r: Opcode)
        ensures
            r == Opcode::spec_from_u32(v),
    {
        match v {
            0 => Opcode::Add,
            1 => Opcode::And,
            2 => Opcode::Break,
            3 => Opcode::Breakc,
            4 => Opcode::Call,
            5 => Opcode::Callc,
            6 => Opcode::Case,
            7 => Opcode::Continue,
            8 => Opcode::Continuec,
            9 => Opcode::Cut,
            10 => Opcode::Default,
            11 => Opcode::DerivRtx,
            12 => Opcode::DerivRty,
            13 => Opcode::Discard,
            14 => Opcode::Div,
            15 => Opcode::Dp2,
            16 => Opcode::Dp3,
            17 => Opcode::Dp4,
            18 => Opcode::Else,
            19 => Opcode::Emit,
            20 => Opcode::EmitThenCut,
            21 => Opcode::EndIf,
            22 => Opcode::Endloop,
            23 => Opcode::Endswitch,
            24 => Opcode::Eq,
            25 => Opcode::Exp,
            26 => Opcode::Frc,
            27 => Opcode::Ftoi,
            28 => Opcode::Ftou,
            29 => Opcode::Ge,
            30 => Opcode::Iadd,
            31 => Opcode::If,
            32 => Opcode::Ieq,
            33 => Opcode::Ige,
            34 => Opcode::Ilt,
            35 => Opcode::Imad,
            36 => Opcode::Imax,
            37 => Opcode::Imin,
            38 => Opcode::Imul,
            39 => Opcode::Ine,
            40 => Opcode::Ineg,
            41 => Opcode::Ishl,
            42 => Opcode::Ishr,
            43 => Opcode::Itof,
            44 => Opcode::Label,
            45 => Opcode::Ld,
            46 => Opcode::LdMs,
            47 => Opcode::Log,
            48 => Opcode::Loop,
            49 => Opcode::Lt,
            50 => Opcode::Mad,
            51 => Opcode::Min,
            52 => Opcode::Max,
            53 => Opcode::CustomData,
            54 => Opcode::Mov,
            55 => Opcode::Movc,
            56 => Opcode::Mul,
            57 => Opcode::Ne,
            58 => Opcode::Nop,
            59 => Opcode::Not,
            60 => Opcode::Or,
            61 => Opcode::Resinfo,
            62 => Opcode::Ret,
            63 => Opcode::Retc,
            64 => Opcode::RoundNe,
            65 => Opcode::RoundNi,
            66 => Opcode::RoundPi,
            67 => Opcode::RoundZ,
            68 => Opcode::Rsq,
            69 => Opcode::Sample,
            70 => Opcode::SampleC,
            71 => Opcode::SampleCLz,
            72 => Opcode::SampleL,
            73 => Opcode::SampleD,
            74 => Opcode::SampleB,
            75 => Opcode::Sqrt,
            76 => Opcode::Switch,
            77 => Opcode::Sincos,
            78 => Opcode::Udiv,
            79 => Opcode::Ult,
            80 => Opcode::Uge,
            81 => Opcode::Umul,
            82 => Opcode::Umad,
            83 => Opcode::Umax,
            84 => Opcode::Umin,
            85 => Opcode::Ushr,
            86 => Opcode::Utof,
            87 => Opcode::Xor,
            88 => Opcode::DclResource,
            89 => Opcode::DclConstantBuffer,
            90 => Opcode::DclSampler,
            91 => Opcode::DclIndexRange,
            92 => Opcode::DclGsOutputPrimitiveTopology,
            93 => Opcode::DclGsInputPrimitive,
            94 => Opcode::DclMaxOutputVertexCount,
            95 => Opcode::DclInput,
            96 => Opcode::DclInputSgv,
            97 => Opcode::DclInputSiv,
            98 => Opcode::DclInputPs,
            99 => Opcode::DclInputPsSgv,
            100 => Opcode::DclInputPsSiv,
            101 => Opcode::DclOutput,
            102 => Opcode::DclOutputSgv,
            103 => Opcode::DclOutputSiv,
            104 => Opcode::DclTemps,
            105 => Opcode::DclIndexableTemp,
            106 => Opcode::DclGlobalFlags,
            107 => Opcode::Reserved0,
            108 => Opcode::Lod,
            109 => Opcode::Gather4,
            110 => Opcode::SamplePos,
            111 => Opcode::SampleInfo,
            112 => Opcode::Reserved1,
            113 => Opcode::HsDecls,
            114 => Opcode::HsControlPointPhase,
            115 => Opcode::HsForkPhase,
            116 => Opcode::HsJoinPhase,
            117 => Opcode::EmitStream,
            118 => Opcode::CutStream,
            119 => Opcode::EmitThenCutStream,
            120 => Opcode::InterfaceCall,
            121 => Opcode::Bufinfo,
            122 => Opcode::DerivRtxCoarse,
            123 => Opcode::DerivRtxFine,
            124 => Opcode::DerivRtyCoarse,
            125 => Opcode::DerivRtyFine,
            126 => Opcode::Gather4C,
            127 => Opcode::Gather4Po,
            128 => Opcode::Gather4PoC,
            129 => Opcode::Rcp,
            130 => Opcode::Half16FromSingle,
            131 => Opcode::SingleFromHalf16,
            132 => Opcode::Uaddc,
            133 => Opcode::Usubb,
            134 => Opcode::Countbits,
            135 => Opcode::FirstbitHi,
            136 => Opcode::FirstbitLo,
            137 => Opcode::FirstbitShi,
            138 => Opcode::Ubfe,
            139 => Opcode::Ibfe,
            140 => Opcode::Bfi,
            141 => Opcode::Bfrev,
            142 => Opcode::Swapc,
            143 => Opcode::DclStream,
            144 => Opcode::DclFunctionBody,
            145 => Opcode::DclFunctionTable,
            146 => Opcode::DclInterface,
            147 => Opcode::DclInputControlPointCount,
            148 => Opcode::DclOutputControlPointCount,
            149 => Opcode::DclTessDomain,
            150 => Opcode::DclTessPartitioning,
            151 => Opcode::DclTessOutputPrimitive,
            152 => Opcode::DclHsMaxTessFactor,
            153 => Opcode::DclHsForkPhaseInstanceCount,
            154 => Opcode::DclHsJoinPhaseInstanceCount,
            155 => Opcode::DclThreadGroup,
            156 => Opcode::DclUnorderedAccessViewTyped,
            157 => Opcode::DclUnorderedAccessViewRaw,
            158 => Opcode::DclUnorderedAccessViewStructured,
            159 => Opcode::DclThreadGroupSharedMemoryRaw,
            160 => Opcode::DclThreadGroupSharedMemoryStructured,
            161 => Opcode::DclResourceRaw,
            162 => Opcode::DclResourceStructured,
            163 => Opcode::LdUavTyped,
            164 => Opcode::StoreUavTyped,
            165 => Opcode::LdRaw,
            166 => Opcode::StoreRaw,
            167 => Opcode::LdStructured,
            168 => Opcode::StoreStructured,
            169 => Opcode::AtomicAnd,
            170 => Opcode::AtomicOr,
            171 => Opcode::AtomicXor,
            172 => Opcode::AtomicCmpStore,
            173 => Opcode::AtomicIadd,
            174 => Opcode::AtomicImax,
            175 => Opcode::AtomicImin,
            176 => Opcode::AtomicUmax,
            177 => Opcode::AtomicUmin,
            178 => Opcode::ImmAtomicAlloc,
            179 => Opcode::ImmAtomicConsume,
            180 => Opcode::ImmAtomicIadd,
            181 => Opcode::ImmAtomicAnd,
            182 => Opcode::ImmAtomicOr,
            183 => Opcode::ImmAtomicXor,
            184 => Opcode::ImmAtomicExch,
            185 => Opcode::ImmAtomicCmpExch,
            186 => Opcode::ImmAtomicImax,
            187 => Opcode::ImmAtomicImin,
            188 => Opcode::ImmAtomicUmax,
            189 => Opcode::ImmAtomicUmin,
            190 => Opcode::Sync,
            191 => Opcode::Dadd,
            192 => Opcode::Dmax,
            193 => Opcode::Dmin,
            194 => Opcode::Dmul,
            195 => Opcode::Deq,
            196 => Opcode::Dge,
            197 => Opcode::Dlt,
            198 => Opcode::Dne,
            199 => Opcode::Dmov,
            200 => Opcode::Dmovc,
            201 => Opcode::Dtof,
            202 => Opcode::Ftod,
            203 => Opcode::EvalSnapped,
            204 => Opcode::EvalSampleIndex,
            205 => Opcode::EvalCentroid,
            206 => Opcode::DclGsInstanceCount,
            207 => Opcode::Abort,
            208 => Opcode::DebugBreak,
            209 => Opcode::Reserved2,
            210 => Opcode::Ddiv,
            211 => Opcode::Dfma,
            212 => Opcode::Drcp,
            213 => Opcode::Msad,
            214 => Opcode::Dtoi,
            215 => Opcode::Dtou,
            216 => Opcode::Itod,
            217 => Opcode::Utod,
            _ => Opcode::Unknown(v),
        }
    }

    /// The opcode's number.
    pub open spec fn spec_to_u32(self) -> u32 {
        match self {
            Opcode::Add => 0,
            Opcode::And => 1,
            Opcode::Break => 2,
            Opcode::Breakc => 3,
            Opcode::Call => 4,
            Opcode::Callc => 5,
            Opcode::Case => 6,
            Opcode::Continue => 7,
            Opcode::Continuec => 8,
            Opcode::Cut => 9,
            Opcode::Default => 10,
            Opcode::DerivRtx => 11,
            Opcode::DerivRty => 12,
            Opcode::Discard => 13,
            Opcode::Div => 14,
            Opcode::Dp2 => 15,
            Opcode::Dp3 => 16,
            Opcode::Dp4 => 17,
            Opcode::Else => 18,
            Opcode::Emit => 19,
            Opcode::EmitThenCut => 20,
            Opcode::EndIf => 21,
            Opcode::Endloop => 22,
            Opcode::Endswitch => 23,
            Opcode::Eq => 24,
            Opcode::Exp => 25,
            Opcode::Frc => 26,
            Opcode::Ftoi => 27,
            Opcode::Ftou => 28,
            Opcode::Ge => 29,
            Opcode::Iadd => 30,
            Opcode::If => 31,
            Opcode::Ieq => 32,
            Opcode::Ige => 33,
            Opcode::Ilt => 34,
            Opcode::Imad => 35,
            Opcode::Imax => 36,
            Opcode::Imin => 37,
            Opcode::Imul => 38,
            Opcode::Ine => 39,
            Opcode::Ineg => 40,
            Opcode::Ishl => 41,
            Opcode::Ishr => 42,
            Opcode::Itof => 43,
            Opcode::Label => 44,
            Opcode::Ld => 45,
            Opcode::LdMs => 46,
            Opcode::Log => 47,
            Opcode::Loop => 48,
            Opcode::Lt => 49,
            Opcode::Mad => 50,
            Opcode::Min => 51,
            Opcode::Max => 52,
            Opcode::CustomData => 53,
            Opcode::Mov => 54,
            Opcode::Movc => 55,
            Opcode::Mul => 56,
            Opcode::Ne => 57,
            Opcode::Nop => 58,
            Opcode::Not => 59,
            Opcode::Or => 60,
            Opcode::Resinfo => 61,
            Opcode::Ret => 62,
            Opcode::Retc => 63,
            Opcode::RoundNe => 64,
            Opcode::RoundNi => 65,
            Opcode::RoundPi => 66,
            Opcode::RoundZ => 67,
            Opcode::Rsq => 68,
            Opcode::Sample => 69,
            Opcode::SampleC => 70,
            Opcode::SampleCLz => 71,
            Opcode::SampleL => 72,
            Opcode::SampleD => 73,
            Opcode::SampleB => 74,
            Opcode::Sqrt => 75,
            Opcode::Switch => 76,
            Opcode::Sincos => 77,
            Opcode::Udiv => 78,
            Opcode::Ult => 79,
            Opcode::Uge => 80,
            Opcode::Umul => 81,
            Opcode::Umad => 82,
            Opcode::Umax => 83,
            Opcode::Umin => 84,
            Opcode::Ushr => 85,
            Opcode::Utof => 86,
            Opcode::Xor => 87,
            Opcode::DclResource => 88,
            Opcode::DclConstantBuffer => 89,
            Opcode::DclSampler => 90,
            Opcode::DclIndexRange => 91,
            Opcode::DclGsOutputPrimitiveTopology => 92,
            Opcode::DclGsInputPrimitive => 93,
            Opcode::DclMaxOutputVertexCount => 94,
            Opcode::DclInput => 95,
            Opcode::DclInputSgv => 96,
            Opcode::DclInputSiv => 97,
            Opcode::DclInputPs => 98,
            Opcode::DclInputPsSgv => 99,
            Opcode::DclInputPsSiv => 100,
            Opcode::DclOutput => 101,
            Opcode::DclOutputSgv => 102,
            Opcode::DclOutputSiv => 103,
            Opcode::DclTemps => 104,
            Opcode::DclIndexableTemp => 105,
            Opcode::DclGlobalFlags => 106,
            Opcode::Reserved0 => 107,
            Opcode::Lod => 108,
            Opcode::Gather4 => 109,
            Opcode::SamplePos => 110,
            Opcode::SampleInfo => 111,
            Opcode::Reserved1 => 112,
            Opcode::HsDecls => 113,
            Opcode::HsControlPointPhase => 114,
            Opcode::HsForkPhase => 115,
            Opcode::HsJoinPhase => 116,
            Opcode::EmitStream => 117,
            Opcode::CutStream => 118,
            Opcode::EmitThenCutStream => 119,
            Opcode::InterfaceCall => 120,
            Opcode::Bufinfo => 121,
            Opcode::DerivRtxCoarse => 122,
            Opcode::DerivRtxFine => 123,
            Opcode::DerivRtyCoarse => 124,
            Opcode::DerivRtyFine => 125,
            Opcode::Gather4C => 126,
            Opcode::Gather4Po => 127,
            Opcode::Gather4PoC => 128,
            Opcode::Rcp => 129,
            Opcode::Half16FromSingle => 130,
            Opcode::SingleFromHalf16 => 131,
            Opcode::Uaddc => 132,
            Opcode::Usubb => 133,
            Opcode::Countbits => 134,
            Opcode::FirstbitHi => 135,
            Opcode::FirstbitLo => 136,
            Opcode::FirstbitShi => 137,
            Opcode::Ubfe => 138,
            Opcode::Ibfe => 139,
            Opcode::Bfi => 140,
            Opcode::Bfrev => 141,
            Opcode::Swapc => 142,
            Opcode::DclStream => 143,
            Opcode::DclFunctionBody => 144,
            Opcode::DclFunctionTable => 145,
            Opcode::DclInterface => 146,
            Opcode::DclInputControlPointCount => 147,
            Opcode::DclOutputControlPointCount => 148,
            Opcode::DclTessDomain => 149,
            Opcode::DclTessPartitioning => 150,
            Opcode::DclTessOutputPrimitive => 151,
            Opcode::DclHsMaxTessFactor => 152,
            Opcode::DclHsForkPhaseInstanceCount => 153,
            Opcode::DclHsJoinPhaseInstanceCount => 154,
            Opcode::DclThreadGroup => 155,
            Opcode::DclUnorderedAccessViewTyped => 156,
            Opcode::DclUnorderedAccessViewRaw => 157,
            Opcode::DclUnorderedAccessViewStructured => 158,
            Opcode::DclThreadGroupSharedMemoryRaw => 159,
            Opcode::DclThreadGroupSharedMemoryStructured => 160,
            Opcode::DclResourceRaw => 161,
            Opcode::DclResourceStructured => 162,
            Opcode::LdUavTyped => 163,
            Opcode::StoreUavTyped => 164,
            Opcode::LdRaw => 165,
            Opcode::StoreRaw => 166,
            Opcode::LdStructured => 167,
            Opcode::StoreStructured => 168,
            Opcode::AtomicAnd => 169,
            Opcode::AtomicOr => 170,
            Opcode::AtomicXor => 171,
            Opcode::AtomicCmpStore => 172,
            Opcode::AtomicIadd => 173,
            Opcode::AtomicImax => 174,
            Opcode::AtomicImin => 175,
            Opcode::AtomicUmax => 176,
            Opcode::AtomicUmin => 177,
            Opcode::ImmAtomicAlloc => 178,
            Opcode::ImmAtomicConsume => 179,
            Opcode::ImmAtomicIadd => 180,
            Opcode::ImmAtomicAnd => 181,
            Opcode::ImmAtomicOr => 182,
            Opcode::ImmAtomicXor => 183,
            Opcode::ImmAtomicExch => 184,
            Opcode::ImmAtomicCmpExch => 185,
            Opcode::ImmAtomicImax => 186,
            Opcode::ImmAtomicImin => 187,
            Opcode::ImmAtomicUmax => 188,
            Opcode::ImmAtomicUmin => 189,
            Opcode::Sync => 190,
            Opcode::Dadd => 191,
            Opcode::Dmax => 192,
            Opcode::Dmin => 193,
            Opcode::Dmul => 194,
            Opcode::Deq => 195,
            Opcode::Dge => 196,
            Opcode::Dlt => 197,
            Opcode::Dne => 198,
            Opcode::Dmov => 199,
            Opcode::Dmovc => 200,
            Opcode::Dtof => 201,
            Opcode::Ftod => 202,
            Opcode::EvalSnapped => 203,
            Opcode::EvalSampleIndex => 204,
            Opcode::EvalCentroid => 205,
            Opcode::DclGsInstanceCount => 206,
            Opcode::Abort => 207,
            Opcode::DebugBreak => 208,
            Opcode::Reserved2 => 209,
            Opcode::Ddiv => 210,
            Opcode::Dfma => 211,
            Opcode::Drcp => 212,
            Opcode::Msad => 213,
            Opcode::Dtoi => 214,
            Opcode::Dtou => 215,
            Opcode::Itod => 216,
            Opcode::Utod => 217,
            Opcode::Unknown(v) => v,
        }
    }

    /// The opcode's number.
    #[verifier::when_used_as_spec(spec_to_u32)]
    pub fn to_u32(self) -> (r: u32)
        ensures
            r == self.spec_to_u32(),
    {
        match self {
            Opcode::Add => 0,
            Opcode::And => 1,
            Opcode::Break => 2,
            Opcode::Breakc => 3,
            Opcode::Call => 4,
            Opcode::Callc => 5,
            Opcode::Case => 6,
            Opcode::Continue => 7,
            Opcode::Continuec => 8,
            Opcode::Cut => 9,
            Opcode::Default => 10,
            Opcode::DerivRtx => 11,
            Opcode::DerivRty => 12,
            Opcode::Discard => 13,
            Opcode::Div => 14,
            Opcode::Dp2 => 15,
            Opcode::Dp3 => 16,
            Opcode::Dp4 => 17,
            Opcode::Else => 18,
            Opcode::Emit => 19,
            Opcode::EmitThenCut => 20,
            Opcode::EndIf => 21,
            Opcode::Endloop => 22,
            Opcode::Endswitch => 23,
            Opcode::Eq => 24,
            Opcode::Exp => 25,
            Opcode::Frc => 26,
            Opcode::Ftoi => 27,
            Opcode::Ftou => 28,
            Opcode::Ge => 29,
            Opcode::Iadd => 30,
            Opcode::If => 31,
            Opcode::Ieq => 32,
            Opcode::Ige => 33,
            Opcode::Ilt => 34,
            Opcode::Imad => 35,
            Opcode::Imax => 36,
            Opcode::Imin => 37,
            Opcode::Imul => 38,
            Opcode::Ine => 39,
            Opcode::Ineg => 40,
            Opcode::Ishl => 41,
            Opcode::Ishr => 42,
            Opcode::Itof => 43,
            Opcode::Label => 44,
            Opcode::Ld => 45,
            Opcode::LdMs => 46,
            Opcode::Log => 47,
            Opcode::Loop => 48,
            Opcode::Lt => 49,
            Opcode::Mad => 50,
            Opcode::Min => 51,
            Opcode::Max => 52,
            Opcode::CustomData => 53,
            Opcode::Mov => 54,
            Opcode::Movc => 55,
            Opcode::Mul => 56,
            Opcode::Ne => 57,
            Opcode::Nop => 58,
            Opcode::Not => 59,
            Opcode::Or => 60,
            Opcode::Resinfo => 61,
            Opcode::Ret => 62,
            Opcode::Retc => 63,
            Opcode::RoundNe => 64,
            Opcode::RoundNi => 65,
            Opcode::RoundPi => 66,
            Opcode::RoundZ => 67,
            Opcode::Rsq => 68,
            Opcode::Sample => 69,
            Opcode::SampleC => 70,
            Opcode::SampleCLz => 71,
            Opcode::SampleL => 72,
            Opcode::SampleD => 73,
            Opcode::SampleB => 74,
            Opcode::Sqrt => 75,
            Opcode::Switch => 76,
            Opcode::Sincos => 77,
            Opcode::Udiv => 78,
            Opcode::Ult => 79,
            Opcode::Uge => 80,
            Opcode::Umul => 81,
            Opcode::Umad => 82,
            Opcode::Umax => 83,
            Opcode::Umin => 84,
            Opcode::Ushr => 85,
            Opcode::Utof => 86,
            Opcode::Xor => 87,
            Opcode::DclResource => 88,
            Opcode::DclConstantBuffer => 89,
            Opcode::DclSampler => 90,
            Opcode::DclIndexRange => 91,
            Opcode::DclGsOutputPrimitiveTopology => 92,
            Opcode::DclGsInputPrimitive => 93,
            Opcode::DclMaxOutputVertexCount => 94,
            Opcode::DclInput => 95,
            Opcode::DclInputSgv => 96,
            Opcode::DclInputSiv => 97,
            Opcode::DclInputPs => 98,
            Opcode::DclInputPsSgv => 99,
            Opcode::DclInputPsSiv => 100,
            Opcode::DclOutput => 101,
            Opcode::DclOutputSgv => 102,
            Opcode::DclOutputSiv => 103,
            Opcode::DclTemps => 104,
            Opcode::DclIndexableTemp => 105,
            Opcode::DclGlobalFlags => 106,
            Opcode::Reserved0 => 107,
            Opcode::Lod => 108,
            Opcode::Gather4 => 109,
            Opcode::SamplePos => 110,
            Opcode::SampleInfo => 111,
            Opcode::Reserved1 => 112,
            Opcode::HsDecls => 113,
            Opcode::HsControlPointPhase => 114,
            Opcode::HsForkPhase => 115,
            Opcode::HsJoinPhase => 116,
            Opcode::EmitStream => 117,
            Opcode::CutStream => 118,
            Opcode::EmitThenCutStream => 119,
            Opcode::InterfaceCall => 120,
            Opcode::Bufinfo => 121,
            Opcode::DerivRtxCoarse => 122,
            Opcode::DerivRtxFine => 123,
            Opcode::DerivRtyCoarse => 124,
            Opcode::DerivRtyFine => 125,
            Opcode::Gather4C => 126,
            Opcode::Gather4Po => 127,
            Opcode::Gather4PoC => 128,
            Opcode::Rcp => 129,
            Opcode::Half16FromSingle => 130,
            Opcode::SingleFromHalf16 => 131,
            Opcode::Uaddc => 132,
            Opcode::Usubb => 133,
            Opcode::Countbits => 134,
            Opcode::FirstbitHi => 135,
            Opcode::FirstbitLo => 136,
            Opcode::FirstbitShi => 137,
            Opcode::Ubfe => 138,
            Opcode::Ibfe => 139,
            Opcode::Bfi => 140,
            Opcode::Bfrev => 141,
            Opcode::Swapc => 142,
            Opcode::DclStream => 143,
            Opcode::DclFunctionBody => 144,
            Opcode::DclFunctionTable => 145,
            Opcode::DclInterface => 146,
            Opcode::DclInputControlPointCount => 147,
            Opcode::DclOutputControlPointCount => 148,
            Opcode::DclTessDomain => 149,
            Opcode::DclTessPartitioning => 150,
            Opcode::DclTessOutputPrimitive => 151,
            Opcode::DclHsMaxTessFactor => 152,
            Opcode::DclHsForkPhaseInstanceCount => 153,
            Opcode::DclHsJoinPhaseInstanceCount => 154,
            Opcode::DclThreadGroup => 155,
            Opcode::DclUnorderedAccessViewTyped => 156,
            Opcode::DclUnorderedAccessViewRaw => 157,
            Opcode::DclUnorderedAccessViewStructured => 158,
            Opcode::DclThreadGroupSharedMemoryRaw => 159,
            Opcode::DclThreadGroupSharedMemoryStructured => 160,
            Opcode::DclResourceRaw => 161,
            Opcode::DclResourceStructured => 162,
            Opcode::LdUavTyped => 163,
            Opcode::StoreUavTyped => 164,
            Opcode::LdRaw => 165,
            Opcode::StoreRaw => 166,
            Opcode::LdStructured => 167,
            Opcode::StoreStructured => 168,
            Opcode::AtomicAnd => 169,
            Opcode::AtomicOr => 170,
            Opcode::AtomicXor => 171,
            Opcode::AtomicCmpStore => 172,
            Opcode::AtomicIadd => 173,
            Opcode::AtomicImax => 174,
            Opcode::AtomicImin => 175,
            Opcode::AtomicUmax => 176,
            Opcode::AtomicUmin => 177,
            Opcode::ImmAtomicAlloc => 178,
            Opcode::ImmAtomicConsume => 179,
            Opcode::ImmAtomicIadd => 180,
            Opcode::ImmAtomicAnd => 181,
            Opcode::ImmAtomicOr => 182,
            Opcode::ImmAtomicXor => 183,
            Opcode::ImmAtomicExch => 184,
            Opcode::ImmAtomicCmpExch => 185,
            Opcode::ImmAtomicImax => 186,
            Opcode::ImmAtomicImin => 187,
            Opcode::ImmAtomicUmax => 188,
            Opcode::ImmAtomicUmin => 189,
            Opcode::Sync => 190,
            Opcode::Dadd => 191,
            Opcode::Dmax => 192,
            Opcode::Dmin => 193,
            Opcode::Dmul => 194,
            Opcode::Deq => 195,
            Opcode::Dge => 196,
            Opcode::Dlt => 197,
            Opcode::Dne => 198,
            Opcode::Dmov => 199,
            Opcode::Dmovc => 200,
            Opcode::Dtof => 201,
            Opcode::Ftod => 202,
            Opcode::EvalSnapped => 203,
            Opcode::EvalSampleIndex => 204,
            Opcode::EvalCentroid => 205,
            Opcode::DclGsInstanceCount => 206,
            Opcode::Abort => 207,
            Opcode::DebugBreak => 208,
            Opcode::Reserved2 => 209,
            Opcode::Ddiv => 210,
            Opcode::Dfma => 211,
            Opcode::Drcp => 212,
            Opcode::Msad => 213,
            Opcode::Dtoi => 214,
            Opcode::Dtou => 215,
            Opcode::Itod => 216,
            Opcode::Utod => 217,
            Opcode::Unknown(v) => v,
        }
    }

    /// The opcode's mnemonic.
    pub open spec fn mnemonic(self) -> Seq<char> {
        match self {
            Opcode::Add => "add"@,
            Opcode::And => "and"@,
            Opcode::Break => "break"@,
            Opcode::Breakc => "breakc"@,
            Opcode::Call => "call"@,
            Opcode::Callc => "callc"@,
            Opcode::Case => "case"@,
            Opcode::Continue => "continue"@,
            Opcode::Continuec => "continuec"@,
            Opcode::Cut => "cut"@,
            Opcode::Default => "default"@,
            Opcode::DerivRtx => "deriv_rtx"@,
            Opcode::DerivRty => "deriv_rty"@,
            Opcode::Discard => "discard"@,
            Opcode::Div => "div"@,
            Opcode::Dp2 => "dp2"@,
            Opcode::Dp3 => "dp3"@,
            Opcode::Dp4 => "dp4"@,
            Opcode::Else => "else"@,
            Opcode::Emit => "emit"@,
            Opcode::EmitThenCut => "emitThenCut"@,
            Opcode::EndIf => "endif"@,
            Opcode::Endloop => "endloop"@,
            Opcode::Endswitch => "endswitch"@,
            Opcode::Eq => "eq"@,
            Opcode::Exp => "exp"@,
            Opcode::Frc => "frc"@,
            Opcode::Ftoi => "ftoi"@,
            Opcode::Ftou => "ftou"@,
            Opcode::Ge => "ge"@,
            Opcode::Iadd => "iadd"@,
            Opcode::If => "if"@,
            Opcode::Ieq => "ieq"@,
            Opcode::Ige => "ige"@,
            Opcode::Ilt => "ilt"@,
            Opcode::Imad => "imad"@,
            Opcode::Imax => "imax"@,
            Opcode::Imin => "imin"@,
            Opcode::Imul => "imul"@,
            Opcode::Ine => "ine"@,
            Opcode::Ineg => "ineg"@,
            Opcode::Ishl => "ishl"@,
            Opcode::Ishr => "ishr"@,
            Opcode::Itof => "itof"@,
            Opcode::Label => "label"@,
            Opcode::Ld => "ld"@,
            Opcode::LdMs => "ld_ms"@,
            Opcode::Log => "log"@,
            Opcode::Loop => "loop"@,
            Opcode::Lt => "lt"@,
            Opcode::Mad => "mad"@,
            Opcode::Min => "min"@,
            Opcode::Max => "max"@,
            Opcode::CustomData => "customdata"@,
            Opcode::Mov => "mov"@,
            Opcode::Movc => "movc"@,
            Opcode::Mul => "mul"@,
            Opcode::Ne => "ne"@,
            Opcode::Nop => "nop"@,
            Opcode::Not => "not"@,
            Opcode::Or => "or"@,
            Opcode::Resinfo => "resinfo"@,
            Opcode::Ret => "ret"@,
            Opcode::Retc => "retc"@,
            Opcode::RoundNe => "round_ne"@,
            Opcode::RoundNi => "round_ni"@,
            Opcode::RoundPi => "round_pi"@,
            Opcode::RoundZ => "round_z"@,
            Opcode::Rsq => "rsq"@,
            Opcode::Sample => "sample"@,
            Opcode::SampleC => "sample_c"@,
            Opcode::SampleCLz => "sample_c_lz"@,
            Opcode::SampleL => "sample_l"@,
            Opcode::SampleD => "sample_d"@,
            Opcode::SampleB => "sample_b"@,
            Opcode::Sqrt => "sqrt"@,
            Opcode::Switch => "switch"@,
            Opcode::Sincos => "sincos"@,
            Opcode::Udiv => "udiv"@,
            Opcode::Ult => "ult"@,
            Opcode::Uge => "uge"@,
            Opcode::Umul => "umul"@,
            Opcode::Umad => "umad"@,
            Opcode::Umax => "umax"@,
            Opcode::Umin => "umin"@,
            Opcode::Ushr => "ushr"@,
            Opcode::Utof => "utof"@,
            Opcode::Xor => "xor"@,
            Opcode::DclResource => "dcl_resource"@,
            Opcode::DclConstantBuffer => "dcl_constantbuffer"@,
            Opcode::DclSampler => "dcl_sampler"@,
            Opcode::DclIndexRange => "dcl_indexRange"@,
            Opcode::DclGsOutputPrimitiveTopology => "dcl_gsOutputPrimitiveTopology"@,
            Opcode::DclGsInputPrimitive => "dcl_gsInputPrimitive"@,
            Opcode::DclMaxOutputVertexCount => "dcl_maxOutputVertexCount"@,
            Opcode::DclInput => "dcl_input"@,
            Opcode::DclInputSgv => "dcl_input_sgv"@,
            Opcode::DclInputSiv => "dcl_input_siv"@,
            Opcode::DclInputPs => "dcl_input_ps"@,
            Opcode::DclInputPsSgv => "dcl_input_ps_sgv"@,
            Opcode::DclInputPsSiv => "dcl_input_ps_siv"@,
            Opcode::DclOutput => "dcl_output"@,
            Opcode::DclOutputSgv => "dcl_output_sgv"@,
            Opcode::DclOutputSiv => "dcl_output_siv"@,
            Opcode::DclTemps => "dcl_temps"@,
            Opcode::DclIndexableTemp => "dcl_indexableTemp"@,
            Opcode::DclGlobalFlags => "dcl_globalFlags"@,
            Opcode::Reserved0 => "reserved0"@,
            Opcode::Lod => "lod"@,
            Opcode::Gather4 => "gather4"@,
            Opcode::SamplePos => "sample_pos"@,
            Opcode::SampleInfo => "sample_info"@,
            Opcode::Reserved1 => "reserved1"@,
            Opcode::HsDecls => "hs_decls"@,
            Opcode::HsControlPointPhase => "hs_control_point_phase"@,
            Opcode::HsForkPhase => "hs_fork_phase"@,
            Opcode::HsJoinPhase => "hs_join_phase"@,
            Opcode::EmitStream => "emit_stream"@,
            Opcode::CutStream => "cut_stream"@,
            Opcode::EmitThenCutStream => "emitThenCut_stream"@,
            Opcode::InterfaceCall => "interface_call"@,
            Opcode::Bufinfo => "bufinfo"@,
            Opcode::DerivRtxCoarse => "deriv_rtx_coarse"@,
            Opcode::DerivRtxFine => "deriv_rtx_fine"@,
            Opcode::DerivRtyCoarse => "deriv_rty_coarse"@,
            Opcode::DerivRtyFine => "deriv_rty_fine"@,
            Opcode::Gather4C => "gather4_c"@,
            Opcode::Gather4Po => "gather4_po"@,
            Opcode::Gather4PoC => "gather4_po_c"@,
            Opcode::Rcp => "rcp"@,
            Opcode::Half16FromSingle => "f32tof16"@,
            Opcode::SingleFromHalf16 => "f16tof32"@,
            Opcode::Uaddc => "uaddc"@,
            Opcode::Usubb => "usubb"@,
            Opcode::Countbits => "countbits"@,
            Opcode::FirstbitHi => "firstbit_hi"@,
            Opcode::FirstbitLo => "firstbit_lo"@,
            Opcode::FirstbitShi => "firstbit_shi"@,
            Opcode::Ubfe => "ubfe"@,
            Opcode::Ibfe => "ibfe"@,
            Opcode::Bfi => "bfi"@,
            Opcode::Bfrev => "bfrev"@,
            Opcode::Swapc => "swapc"@,
            Opcode::DclStream => "dcl_stream"@,
            Opcode::DclFunctionBody => "dcl_function_body"@,
            Opcode::DclFunctionTable => "dcl_function_table"@,
            Opcode::DclInterface => "dcl_interface"@,
            Opcode::DclInputControlPointCount => "dcl_input_control_point_count"@,
            Opcode::DclOutputControlPointCount => "dcl_output_control_point_count"@,
            Opcode::DclTessDomain => "dcl_tess_domain"@,
            Opcode::DclTessPartitioning => "dcl_tess_partitioning"@,
            Opcode::DclTessOutputPrimitive => "dcl_tess_output_primitive"@,
            Opcode::DclHsMaxTessFactor => "dcl_hsMaxTessFactor"@,
            Opcode::DclHsForkPhaseInstanceCount => "dcl_hs_fork_phase_instance_count"@,
            Opcode::DclHsJoinPhaseInstanceCount => "dcl_hs_join_phase_instance_count"@,
            Opcode::DclThreadGroup => "dcl_thread_group"@,
            Opcode::DclUnorderedAccessViewTyped => "dcl_uav_typed"@,
            Opcode::DclUnorderedAccessViewRaw => "dcl_uav_raw"@,
            Opcode::DclUnorderedAccessViewStructured => "dcl_uav_structured"@,
            Opcode::DclThreadGroupSharedMemoryRaw => "dcl_tgsm_raw"@,
            Opcode::DclThreadGroupSharedMemoryStructured => "dcl_tgsm_structured"@,
            Opcode::DclResourceRaw => "dcl_resource_raw"@,
            Opcode::DclResourceStructured => "dcl_resource_structured"@,
            Opcode::LdUavTyped => "ld_uav_typed"@,
            Opcode::StoreUavTyped => "store_uav_typed"@,
            Opcode::LdRaw => "ld_raw"@,
            Opcode::StoreRaw => "store_raw"@,
            Opcode::LdStructured => "ld_structured"@,
            Opcode::StoreStructured => "store_structured"@,
            Opcode::AtomicAnd => "atomic_and"@,
            Opcode::AtomicOr => "atomic_or"@,
            Opcode::AtomicXor => "atomic_xor"@,
            Opcode::AtomicCmpStore => "atomic_cmp_store"@,
            Opcode::AtomicIadd => "atomic_iadd"@,
            Opcode::AtomicImax => "atomic_imax"@,
            Opcode::AtomicImin => "atomic_imin"@,
            Opcode::AtomicUmax => "atomic_umax"@,
            Opcode::AtomicUmin => "atomic_umin"@,
            Opcode::ImmAtomicAlloc => "imm_atomic_alloc"@,
            Opcode::ImmAtomicConsume => "imm_atomic_consume"@,
            Opcode::ImmAtomicIadd => "imm_atomic_iadd"@,
            Opcode::ImmAtomicAnd => "imm_atomic_and"@,
            Opcode::ImmAtomicOr => "imm_atomic_or"@,
            Opcode::ImmAtomicXor => "imm_atomic_xor"@,
            Opcode::ImmAtomicExch => "imm_atomic_exch"@,
            Opcode::ImmAtomicCmpExch => "imm_atomic_cmp_exch"@,
            Opcode::ImmAtomicImax => "imm_atomic_imax"@,
            Opcode::ImmAtomicImin => "imm_atomic_imin"@,
            Opcode::ImmAtomicUmax => "imm_atomic_umax"@,
            Opcode::ImmAtomicUmin => "imm_atomic_umin"@,
            Opcode::Sync => "sync"@,
            Opcode::Dadd => "dadd"@,
            Opcode::Dmax => "dmax"@,
            Opcode::Dmin => "dmin"@,
            Opcode::Dmul => "dmul"@,
            Opcode::Deq => "deq"@,
            Opcode::Dge => "dge"@,
            Opcode::Dlt => "dlt"@,
            Opcode::Dne => "dne"@,
            Opcode::Dmov => "dmov"@,
            Opcode::Dmovc => "dmovc"@,
            Opcode::Dtof => "dtof"@,
            Opcode::Ftod => "ftod"@,
            Opcode::EvalSnapped => "eval_snapped"@,
            Opcode::EvalSampleIndex => "eval_sample_index"@,
            Opcode::EvalCentroid => "eval_centroid"@,
            Opcode::DclGsInstanceCount => "dcl_gs_instance_count"@,
            Opcode::Abort => "abort"@,
            Opcode::DebugBreak => "debug_break"@,
            Opcode::Reserved2 => "reserved2"@,
            Opcode::Ddiv => "ddiv"@,
            Opcode::Dfma => "dfma"@,
            Opcode::Drcp => "drcp"@,
            Opcode::Msad => "msad"@,
            Opcode::Dtoi => "dtoi"@,
            Opcode::Dtou => "dtou"@,
            Opcode::Itod => "itod"@,
            Opcode::Utod => "utod"@,
            Opcode::Unknown(_) => "unknown"@,
        }
    }

    /// The opcode's mnemonic; `unknown` for a number without a name.
    pub fn name(self) -> (r: &'static str)
        ensures
            r@ == self.mnemonic(),
    {
        match self {
            Opcode::Add => "add",
            Opcode::And => "and",
            Opcode::Break => "break",
            Opcode::Breakc => "breakc",
            Opcode::Call => "call",
            Opcode::Callc => "callc",
            Opcode::Case => "case",
            Opcode::Continue => "continue",
            Opcode::Continuec => "continuec",
            Opcode::Cut => "cut",
            Opcode::Default => "default",
            Opcode::DerivRtx => "deriv_rtx",
            Opcode::DerivRty => "deriv_rty",
            Opcode::Discard => "discard",
            Opcode::Div => "div",
            Opcode::Dp2 => "dp2",
            Opcode::Dp3 => "dp3",
            Opcode::Dp4 => "dp4",
            Opcode::Else => "else",
            Opcode::Emit => "emit",
            Opcode::EmitThenCut => "emitThenCut",
            Opcode::EndIf => "endif",
            Opcode::Endloop => "endloop",
            Opcode::Endswitch => "endswitch",
            Opcode::Eq => "eq",
            Opcode::Exp => "exp",
            Opcode::Frc => "frc",
            Opcode::Ftoi => "ftoi",
            Opcode::Ftou => "ftou",
            Opcode::Ge => "ge",
            Opcode::Iadd => "iadd",
            Opcode::If => "if",
            Opcode::Ieq => "ieq",
            Opcode::Ige => "ige",
            Opcode::Ilt => "ilt",
            Opcode::Imad => "imad",
            Opcode::Imax => "imax",
            Opcode::Imin => "imin",
            Opcode::Imul => "imul",
            Opcode::Ine => "ine",
            Opcode::Ineg => "ineg",
            Opcode::Ishl => "ishl",
            Opcode::Ishr => "ishr",
            Opcode::Itof => "itof",
            Opcode::Label => "label",
            Opcode::Ld => "ld",
            Opcode::LdMs => "ld_ms",
            Opcode::Log => "log",
            Opcode::Loop => "loop",
            Opcode::Lt => "lt",
            Opcode::Mad => "mad",
            Opcode::Min => "min",
            Opcode::Max => "max",
            Opcode::CustomData => "customdata",
            Opcode::Mov => "mov",
            Opcode::Movc => "movc",
            Opcode::Mul => "mul",
            Opcode::Ne => "ne",
            Opcode::Nop => "nop",
            Opcode::Not => "not",
            Opcode::Or => "or",
            Opcode::Resinfo => "resinfo",
            Opcode::Ret => "ret",
            Opcode::Retc => "retc",
            Opcode::RoundNe => "round_ne",
            Opcode::RoundNi => "round_ni",
            Opcode::RoundPi => "round_pi",
            Opcode::RoundZ => "round_z",
            Opcode::Rsq => "rsq",
            Opcode::Sample => "sample",
            Opcode::SampleC => "sample_c",
            Opcode::SampleCLz => "sample_c_lz",
            Opcode::SampleL => "sample_l",
            Opcode::SampleD => "sample_d",
            Opcode::SampleB => "sample_b",
            Opcode::Sqrt => "sqrt",
            Opcode::Switch => "switch",
            Opcode::Sincos => "sincos",
            Opcode::Udiv => "udiv",
            Opcode::Ult => "ult",
            Opcode::Uge => "uge",
            Opcode::Umul => "umul",
            Opcode::Umad => "umad",
            Opcode::Umax => "umax",
            Opcode::Umin => "umin",
            Opcode::Ushr => "ushr",
            Opcode::Utof => "utof",
            Opcode::Xor => "xor",
            Opcode::DclResource => "dcl_resource",
            Opcode::DclConstantBuffer => "dcl_constantbuffer",
            Opcode::DclSampler => "dcl_sampler",
            Opcode::DclIndexRange => "dcl_indexRange",
            Opcode::DclGsOutputPrimitiveTopology => "dcl_gsOutputPrimitiveTopology",
            Opcode::DclGsInputPrimitive => "dcl_gsInputPrimitive",
            Opcode::DclMaxOutputVertexCount => "dcl_maxOutputVertexCount",
            Opcode::DclInput => "dcl_input",
            Opcode::DclInputSgv => "dcl_input_sgv",
            Opcode::DclInputSiv => "dcl_input_siv",
            Opcode::DclInputPs => "dcl_input_ps",
            Opcode::DclInputPsSgv => "dcl_input_ps_sgv",
            Opcode::DclInputPsSiv => "dcl_input_ps_siv",
            Opcode::DclOutput => "dcl_output",
            Opcode::DclOutputSgv => "dcl_output_sgv",
            Opcode::DclOutputSiv => "dcl_output_siv",
            Opcode::DclTemps => "dcl_temps",
            Opcode::DclIndexableTemp => "dcl_indexableTemp",
            Opcode::DclGlobalFlags => "dcl_globalFlags",
            Opcode::Reserved0 => "reserved0",
            Opcode::Lod => "lod",
            Opcode::Gather4 => "gather4",
            Opcode::SamplePos => "sample_pos",
            Opcode::SampleInfo => "sample_info",
            Opcode::Reserved1 => "reserved1",
            Opcode::HsDecls => "hs_decls",
            Opcode::HsControlPointPhase => "hs_control_point_phase",
            Opcode::HsForkPhase => "hs_fork_phase",
            Opcode::HsJoinPhase => "hs_join_phase",
            Opcode::EmitStream => "emit_stream",
            Opcode::CutStream => "cut_stream",
            Opcode::EmitThenCutStream => "emitThenCut_stream",
            Opcode::InterfaceCall => "interface_call",
            Opcode::Bufinfo => "bufinfo",
            Opcode::DerivRtxCoarse => "deriv_rtx_coarse",
            Opcode::DerivRtxFine => "deriv_rtx_fine",
            Opcode::DerivRtyCoarse => "deriv_rty_coarse",
            Opcode::DerivRtyFine => "deriv_rty_fine",
            Opcode::Gather4C => "gather4_c",
            Opcode::Gather4Po => "gather4_po",
            Opcode::Gather4PoC => "gather4_po_c",
            Opcode::Rcp => "rcp",
            Opcode::Half16FromSingle => "f32tof16",
            Opcode::SingleFromHalf16 => "f16tof32",
            Opcode::Uaddc => "uaddc",
            Opcode::Usubb => "usubb",
            Opcode::Countbits => "countbits",
            Opcode::FirstbitHi => "firstbit_hi",
            Opcode::FirstbitLo => "firstbit_lo",
            Opcode::FirstbitShi => "firstbit_shi",
            Opcode::Ubfe => "ubfe",
            Opcode::Ibfe => "ibfe",
            Opcode::Bfi => "bfi",
            Opcode::Bfrev => "bfrev",
            Opcode::Swapc => "swapc",
            Opcode::DclStream => "dcl_stream",
            Opcode::DclFunctionBody => "dcl_function_body",
            Opcode::DclFunctionTable => "dcl_function_table",
            Opcode::DclInterface => "dcl_interface",
            Opcode::DclInputControlPointCount => "dcl_input_control_point_count",
            Opcode::DclOutputControlPointCount => "dcl_output_control_point_count",
            Opcode::DclTessDomain => "dcl_tess_domain",
            Opcode::DclTessPartitioning => "dcl_tess_partitioning",
            Opcode::DclTessOutputPrimitive => "dcl_tess_output_primitive",
            Opcode::DclHsMaxTessFactor => "dcl_hsMaxTessFactor",
            Opcode::DclHsForkPhaseInstanceCount => "dcl_hs_fork_phase_instance_count",
            Opcode::DclHsJoinPhaseInstanceCount => "dcl_hs_join_phase_instance_count",
            Opcode::DclThreadGroup => "dcl_thread_group",
            Opcode::DclUnorderedAccessViewTyped => "dcl_uav_typed",
            Opcode::DclUnorderedAccessViewRaw => "dcl_uav_raw",
            Opcode::DclUnorderedAccessViewStructured => "dcl_uav_structured",
            Opcode::DclThreadGroupSharedMemoryRaw => "dcl_tgsm_raw",
            Opcode::DclThreadGroupSharedMemoryStructured => "dcl_tgsm_structured",
            Opcode::DclResourceRaw => "dcl_resource_raw",
            Opcode::DclResourceStructured => "dcl_resource_structured",
            Opcode::LdUavTyped => "ld_uav_typed",
            Opcode::StoreUavTyped => "store_uav_typed",
            Opcode::LdRaw => "ld_raw",
            Opcode::StoreRaw => "store_raw",
            Opcode::LdStructured => "ld_structured",
            Opcode::StoreStructured => "store_structured",
            Opcode::AtomicAnd => "atomic_and",
            Opcode::AtomicOr => "atomic_or",
            Opcode::AtomicXor => "atomic_xor",
            Opcode::AtomicCmpStore => "atomic_cmp_store",
            Opcode::AtomicIadd => "atomic_iadd",
            Opcode::AtomicImax => "atomic_imax",
            Opcode::AtomicImin => "atomic_imin",
            Opcode::AtomicUmax => "atomic_umax",
            Opcode::AtomicUmin => "atomic_umin",
            Opcode::ImmAtomicAlloc => "imm_atomic_alloc",
            Opcode::ImmAtomicConsume => "imm_atomic_consume",
            Opcode::ImmAtomicIadd => "imm_atomic_iadd",
            Opcode::ImmAtomicAnd => "imm_atomic_and",
            Opcode::ImmAtomicOr => "imm_atomic_or",
            Opcode::ImmAtomicXor => "imm_atomic_xor",
            Opcode::ImmAtomicExch => "imm_atomic_exch",
            Opcode::ImmAtomicCmpExch => "imm_atomic_cmp_exch",
            Opcode::ImmAtomicImax => "imm_atomic_imax",
            Opcode::ImmAtomicImin => "imm_atomic_imin",
            Opcode::ImmAtomicUmax => "imm_atomic_umax",
            Opcode::ImmAtomicUmin => "imm_atomic_umin",
            Opcode::Sync => "sync",
            Opcode::Dadd => "dadd",
            Opcode::Dmax => "dmax",
            Opcode::Dmin => "dmin",
            Opcode::Dmul => "dmul",
            Opcode::Deq => "deq",
            Opcode::Dge => "dge",
            Opcode::Dlt => "dlt",
            Opcode::Dne => "dne",
            Opcode::Dmov => "dmov",
            Opcode::Dmovc => "dmovc",
            Opcode::Dtof => "dtof",
            Opcode::Ftod => "ftod",
            Opcode::EvalSnapped => "eval_snapped",
            Opcode::EvalSampleIndex => "eval_sample_index",
            Opcode::EvalCentroid => "eval_centroid",
            Opcode::DclGsInstanceCount => "dcl_gs_instance_count",
            Opcode::Abort => "abort",
            Opcode::DebugBreak => "debug_break",
            Opcode::Reserved2 => "reserved2",
            Opcode::Ddiv => "ddiv",
            Opcode::Dfma => "dfma",
            Opcode::Drcp => "drcp",
            Opcode::Msad => "msad",
            Opcode::Dtoi => "dtoi",
            Opcode::Dtou => "dtou",
            Opcode::Itod => "itod",
            Opcode::Utod => "utod",
            Opcode::Unknown(_) => "unknown",
        }
    }
}

/// How the immediate operands of an instruction are written.
#[derive(Clone, Copy, Debug, PartialEq, Eq, Structural)]
pub enum ImmediateType {
    /// As single-precision floating point.
    Float,
    /// As signed integers.
    Int,
    /// As raw hexadecimal.
    Uint,
}

/// How the immediates of `opcode` are written.
pub open spec fn imm_type_of(opcode: Opcode) -> ImmediateType {
    match opcode {
        Opcode::Iadd
        | Opcode::Imad
        | Opcode::Imax
        | Opcode::Imin
        | Opcode::Imul
        | Opcode::Ineg
        | Opcode::Ieq
        | Opcode::Ige
        | Opcode::Ilt
        | Opcode::Ine
        | Opcode::Ishl
        | Opcode::Ishr
        | Opcode::Itof
        | Opcode::Case
        | Opcode::Switch
        | Opcode::AtomicIadd
        | Opcode::AtomicImax
        | Opcode::AtomicImin
        | Opcode::ImmAtomicIadd
        | Opcode::ImmAtomicImax
        | Opcode::ImmAtomicImin => ImmediateType::Int,
        Opcode::And
        | Opcode::Or
        | Opcode::Xor
        | Opcode::Not
        | Opcode::Udiv
        | Opcode::Ult
        | Opcode::Uge
        | Opcode::Umul
        | Opcode::Umad
        | Opcode::Umax
        | Opcode::Umin
        | Opcode::Ushr
        | Opcode::Utof
        | Opcode::Uaddc
        | Opcode::Usubb
        | Opcode::Countbits
        | Opcode::FirstbitHi
        | Opcode::FirstbitLo
        | Opcode::FirstbitShi
        | Opcode::Ubfe
        | Opcode::Ibfe
        | Opcode::Bfi
        | Opcode::Bfrev
        | Opcode::Ld
        | Opcode::LdMs
        | Opcode::Resinfo
        | Opcode::Bufinfo
        | Opcode::Label
        | Opcode::Call
        | Opcode::Callc
        | Opcode::SingleFromHalf16
        | Opcode::Msad
        | Opcode::LdUavTyped
        | Opcode::StoreUavTyped
        | Opcode::LdRaw
        | Opcode::StoreRaw
        | Opcode::LdStructured
        | Opcode::StoreStructured
        | Opcode::AtomicAnd
        | Opcode::AtomicOr
        | Opcode::AtomicXor
        | Opcode::AtomicCmpStore
        | Opcode::AtomicUmax
        | Opcode::AtomicUmin
        | Opcode::ImmAtomicAlloc
        | Opcode::ImmAtomicConsume
        | Opcode::ImmAtomicAnd
        | Opcode::ImmAtomicOr
        | Opcode::ImmAtomicXor
        | Opcode::ImmAtomicExch
        | Opcode::ImmAtomicCmpExch
        | Opcode::ImmAtomicUmax
        | Opcode::ImmAtomicUmin
        | Opcode::Sync
        | Opcode::DclStream
        | Opcode::DclThreadGroupSharedMemoryRaw
        | Opcode::DclThreadGroupSharedMemoryStructured
        | Opcode::EmitStream
        | Opcode::CutStream
        | Opcode::EmitThenCutStream
        | Opcode::InterfaceCall => ImmediateType::Uint,
        _ => ImmediateType::Float,
    }
}

/// How the immediates of `opcode` are written: integer instructions take signed
/// or raw integers, the others floating point.
pub fn opcode_imm_type(opcode: Opcode) -> (r: ImmediateType)
    ensures
        r == imm_type_of(opcode),
{
    match opcode {
        Opcode::Iadd
        | Opcode::Imad
        | Opcode::Imax
        | Opcode::Imin
        | Opcode::Imul
        | Opcode::Ineg
        | Opcode::Ieq
        | Opcode::Ige
        | Opcode::Ilt
        | Opcode::Ine
        | Opcode::Ishl
        | Opcode::Ishr
        | Opcode::Itof
        | Opcode::Case
        | Opcode::Switch
        | Opcode::AtomicIadd
        | Opcode::AtomicImax
        | Opcode::AtomicImin
        | Opcode::ImmAtomicIadd
        | Opcode::ImmAtomicImax
        | Opcode::ImmAtomicImin => ImmediateType::Int,
        Opcode::And
        | Opcode::Or
        | Opcode::Xor
        | Opcode::Not
        | Opcode::Udiv
        | Opcode::Ult
        | Opcode::Uge
        | Opcode::Umul
        | Opcode::Umad
        | Opcode::Umax
        | Opcode::Umin
        | Opcode::Ushr
        | Opcode::Utof
        | Opcode::Uaddc
        | Opcode::Usubb
        | Opcode::Countbits
        | Opcode::FirstbitHi
        | Opcode::FirstbitLo
        | Opcode::FirstbitShi
        | Opcode::Ubfe
        | Opcode::Ibfe
        | Opcode::Bfi
        | Opcode::Bfrev
        | Opcode::Ld
        | Opcode::LdMs
        | Opcode::Resinfo
        | Opcode::Bufinfo
        | Opcode::Label
        | Opcode::Call
        | Opcode::Callc
        | Opcode::SingleFromHalf16
        | Opcode::Msad
        | Opcode::LdUavTyped
        | Opcode::StoreUavTyped
        | Opcode::LdRaw
        | Opcode::StoreRaw
        | Opcode::LdStructured
        | Opcode::StoreStructured
        | Opcode::AtomicAnd
        | Opcode::AtomicOr
        | Opcode::AtomicXor
        | Opcode::AtomicCmpStore
        | Opcode::AtomicUmax
        | Opcode::AtomicUmin
        | Opcode::ImmAtomicAlloc
        | Opcode::ImmAtomicConsume
        | Opcode::ImmAtomicAnd
        | Opcode::ImmAtomicOr
        | Opcode::ImmAtomicXor
        | Opcode::ImmAtomicExch
        | Opcode::ImmAtomicCmpExch
        | Opcode::ImmAtomicUmax
        | Opcode::ImmAtomicUmin
        | Opcode::Sync
        | Opcode::DclStream
        | Opcode::DclThreadGroupSharedMemoryRaw
        | Opcode::DclThreadGroupSharedMemoryStructured
        | Opcode::EmitStream
        | Opcode::CutStream
        | Opcode::EmitThenCutStream
        | Opcode::InterfaceCall => ImmediateType::Uint,
        _ => ImmediateType::Float,
    }
}

/// A named opcode's number leads back to it, and so does an unnamed one's.
pub proof fn opcode_numbers(op: Opcode)
    ensures
        op is Unknown || Opcode::spec_from_u32(op.spec_to_u32()) == op,
        op is Unknown || op.spec_to_u32() <= OPCODE_MAX,
{
}

/// Every number is the number of the opcode made from it.
pub proof fn opcode_values(v: u32)
    ensures
        Opcode::spec_from_u32(v).spec_to_u32() == v,
        Opcode::spec_from_u32(v) is Unknown <==> v > OPCODE_MAX,
{
}

} // verus!
