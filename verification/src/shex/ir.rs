//! The shader program: instructions, operands and what they hold.
//!
//! Each executable type has a model, a value of the same shape made of
//! mathematical sequences; contracts speak of the models. A floating-point
//! field is held as the bits of its single-precision encoding.

use vstd::prelude::*;

pub use crate::shex::lists::{FlagNames, Immediates, Operands, SmallU32Vec};
pub use crate::shex::opcodes::{Opcode, opcode_imm_type, ImmediateType};
pub use crate::shex::registers::{
    ComponentSelect, CustomDataType, GsOutputTopology, GsPrimitive, RegisterType, ReturnType,
};

verus! {

/// The indices behind a register prefix.
pub type Indices = Vec<OperandIndex>;

/// One operand of an instruction.
#[derive(Debug, PartialEq, Eq)]
pub struct Operand {
    /// The register file.
    pub reg_type: RegisterType,
    /// The components selected.
    pub components: ComponentSelect,
    /// Whether the value is negated.
    pub negate: bool,
    /// Whether the absolute value is taken.
    pub abs: bool,
    /// The register's indices, outermost first.
    pub indices: Indices,
    /// The values of an immediate operand.
    pub immediate_values: Immediates,
}

/// One index of an operand.
#[derive(Debug, PartialEq, Eq)]
pub enum OperandIndex {
    /// A 32-bit number.
    Imm32(u32),
    /// A 64-bit number.
    Imm64(u64),
    /// The value of another operand.
    Relative(Box<Operand>),
    /// The value of another operand plus a number.
    RelativePlusImm(u32, Box<Operand>),
}

/// What an instruction holds beside its opcode and modifiers.
#[allow(inconsistent_fields)]
#[derive(Debug, PartialEq, Eq)]
pub enum InstructionKind {
    /// An instruction that is its operands.
    Generic {
        /// The operands.
        operands: Operands,
    },
    /// The start of a hull-shader phase.
    HsPhase,
    /// A block of data inside the instruction stream.
    CustomData {
        /// The kind of data.
        subtype: CustomDataType,
        /// The rows of an immediate constant buffer, as bits.
        values: Vec<[u32; 4]>,
        /// The words of any other block.
        raw: Vec<u32>,
        /// The block's length in words, header words counted.
        raw_dword_count: usize,
    },
    /// The flags that hold for the whole shader.
    DclGlobalFlags {
        /// The flags.
        flags: FlagNames,
    },
    /// An input register.
    DclInput {
        /// The interpolation mode's name.
        interpolation: Option<&'static str>,
        /// The system value's name.
        system_value: Option<&'static str>,
        /// The operands.
        operands: Operands,
    },
    /// An output register.
    DclOutput {
        /// The system value's name.
        system_value: Option<&'static str>,
        /// The operands.
        operands: Operands,
    },
    /// A typed resource.
    DclResource {
        /// The resource dimension's name.
        dimension: &'static str,
        /// The number of samples.
        sample_count: u32,
        /// The type of each component.
        return_type: [ReturnType; 4],
        /// The operands.
        operands: Operands,
    },
    /// A sampler.
    DclSampler {
        /// The mode's name.
        mode: &'static str,
        /// The operands.
        operands: Operands,
    },
    /// A constant buffer.
    DclConstantBuffer {
        /// The access pattern's name.
        access: &'static str,
        /// The operands.
        operands: Operands,
    },
    /// The number of temporary registers.
    DclTemps {
        /// The count.
        count: u32,
    },
    /// An indexable temporary array.
    DclIndexableTemp {
        /// The array's number.
        reg: u32,
        /// The number of registers.
        size: u32,
        /// The components per register.
        components: u32,
    },
    /// The primitive a geometry shader takes.
    DclGsInputPrimitive {
        /// The primitive.
        primitive: GsPrimitive,
    },
    /// The topology a geometry shader emits.
    DclGsOutputTopology {
        /// The topology.
        topology: GsOutputTopology,
    },
    /// The most vertices a geometry shader emits.
    DclMaxOutputVertexCount {
        /// The count.
        count: u32,
    },
    /// The number of geometry-shader instances.
    DclGsInstanceCount {
        /// The count.
        count: u32,
    },
    /// The number of control points a hull shader emits.
    DclOutputControlPointCount {
        /// The count.
        count: u32,
    },
    /// The number of control points a hull shader takes.
    DclInputControlPointCount {
        /// The count.
        count: u32,
    },
    /// The tessellator's domain.
    DclTessDomain {
        /// The domain's name.
        domain: &'static str,
    },
    /// The tessellator's partitioning.
    DclTessPartitioning {
        /// The partitioning's name.
        partitioning: &'static str,
    },
    /// The primitive the tessellator emits.
    DclTessOutputPrimitive {
        /// The primitive.
        primitive: &'static str,
    },
    /// The highest tessellation factor, as the bits of a single-precision number.
    DclHsMaxTessFactor {
        /// The bits.
        value: u32,
    },
    /// The number of instances of a fork or join phase.
    DclHsForkPhaseInstanceCount {
        /// The count.
        count: u32,
    },
    /// The size of a thread group.
    DclThreadGroup {
        /// Threads along x.
        x: u32,
        /// Threads along y.
        y: u32,
        /// Threads along z.
        z: u32,
    },
    /// A typed unordered-access view.
    DclUavTyped {
        /// The resource dimension's name.
        dimension: &'static str,
        /// The flags.
        flags: u32,
        /// The type of each component.
        return_type: [ReturnType; 4],
        /// The operands.
        operands: Operands,
    },
    /// A raw unordered-access view.
    DclUavRaw {
        /// The flags.
        flags: u32,
        /// The operands.
        operands: Operands,
    },
    /// A structured unordered-access view.
    DclUavStructured {
        /// The flags.
        flags: u32,
        /// The stride in bytes.
        stride: u32,
        /// The operands.
        operands: Operands,
    },
    /// A raw resource.
    DclResourceRaw {
        /// The operands.
        operands: Operands,
    },
    /// A structured resource.
    DclResourceStructured {
        /// The stride in bytes.
        stride: u32,
        /// The operands.
        operands: Operands,
    },
    /// A function body.
    DclFunctionBody {
        /// The body's number.
        index: u32,
    },
    /// A function table.
    DclFunctionTable {
        /// The table's number.
        table_index: u32,
        /// The bodies in the table.
        body_indices: SmallU32Vec,
    },
    /// An interface.
    DclInterface {
        /// The interface's number.
        interface_index: u32,
        /// The number of call sites.
        num_call_sites: u32,
        /// The tables behind the interface.
        table_indices: SmallU32Vec,
    },
    /// A range of registers that may be indexed.
    DclIndexRange {
        /// The operands.
        operands: Operands,
        /// The count.
        count: u32,
    },
}

/// One instruction.
#[derive(Debug, PartialEq, Eq)]
pub struct Instruction {
    /// The opcode.
    pub opcode: Opcode,
    /// Whether the result is clamped to the unit interval.
    pub saturate: bool,
    /// Whether a conditional instruction tests for non-zero.
    pub test_nonzero: bool,
    /// The components computed precisely.
    pub precise_mask: u8,
    /// What a size query returns.
    pub resinfo_return_type: Option<u8>,
    /// What a barrier synchronises.
    pub sync_flags: u8,
    /// The texel offsets of a sample.
    pub tex_offsets: Option<[i8; 3]>,
    /// The extended word that gives the resource dimension.
    pub resource_dim: Option<u32>,
    /// The extended word that gives the resource return types.
    pub resource_return_type: Option<u32>,
    /// What the instruction holds.
    pub kind: InstructionKind,
}

/// A shader program.
#[derive(Debug, PartialEq, Eq)]
pub struct Program {
    /// The shader stage's name.
    pub shader_type: &'static str,
    /// The shader model's major version.
    pub major_version: u32,
    /// The shader model's minor version.
    pub minor_version: u32,
    /// The instructions in order.
    pub instructions: Vec<Instruction>,
    /// What was odd about the bytecode the program was read from.
    pub warnings: Vec<String>,
    /// The four-character code of the chunk that holds the program.
    pub fourcc: [u8; 4],
}

// ---------------------------------------------------------------------------
// Models
// ---------------------------------------------------------------------------

/// The model of an operand.
#[verifier::ext_equal]
pub struct OperandModel {
    /// The register file.
    pub reg_type: RegisterType,
    /// The components selected.
    pub components: ComponentSelect,
    /// Whether the value is negated.
    pub negate: bool,
    /// Whether the absolute value is taken.
    pub abs: bool,
    /// The register's indices.
    pub indices: Seq<IndexModel>,
    /// The values of an immediate operand.
    pub immediate_values: Seq<u32>,
}

/// The model of an index.
#[verifier::ext_equal]
pub enum IndexModel {
    /// A 32-bit number.
    Imm32(u32),
    /// A 64-bit number.
    Imm64(u64),
    /// The value of another operand.
    Relative(Box<OperandModel>),
    /// The value of another operand plus a number.
    RelativePlusImm(u32, Box<OperandModel>),
}

impl Operand {
    /// The operand's model.
    pub open spec fn model(self) -> OperandModel
        decreases self,
    {
        OperandModel {
            reg_type: self.reg_type,
            components: self.components,
            negate: self.negate,
            abs: self.abs,
            indices: Seq::new(
                self.indices@.len(),
                |i: int|
                    if 0 <= i < self.indices@.len() {
                        self.indices@[i].model()
                    } else {
                        IndexModel::Imm32(0)
                    },
            ),
            immediate_values: self.immediate_values@,
        }
    }
}

impl OperandIndex {
    /// The index's model.
    pub open spec fn model(self) -> IndexModel
        decreases self,
    {
        match self {
            OperandIndex::Imm32(v) => IndexModel::Imm32(v),
            OperandIndex::Imm64(v) => IndexModel::Imm64(v),
            OperandIndex::Relative(op) => IndexModel::Relative(Box::new(op.model())),
            OperandIndex::RelativePlusImm(v, op) => IndexModel::RelativePlusImm(
                v,
                Box::new(op.model()),
            ),
        }
    }
}

/// The models of a list of indices.
pub open spec fn index_models(s: Seq<OperandIndex>) -> Seq<IndexModel> {
    Seq::new(s.len(), |i: int| s[i].model())
}

/// The models of a list of operands.
pub open spec fn operand_models(s: Seq<Operand>) -> Seq<OperandModel> {
    Seq::new(s.len(), |i: int| s[i].model())
}

/// The characters of an optional name.
pub open spec fn opt_text(s: Option<&'static str>) -> Option<Seq<char>> {
    match s {
        Some(t) => Some(t@),
        None => None,
    }
}

/// An operand's model lists the models of its indices.
pub proof fn lemma_operand_model(op: Operand)
    ensures
        op.model().indices == index_models(op.indices@),
{
    assert(op.model().indices =~= index_models(op.indices@));
}

/// The model of what an instruction holds.
#[allow(inconsistent_fields)]
#[verifier::ext_equal]
pub enum KindModel {
    /// An instruction that is its operands.
    Generic { operands: Seq<OperandModel> },
    /// The start of a hull-shader phase.
    HsPhase,
    /// A block of data inside the instruction stream.
    CustomData { subtype: CustomDataType, values: Seq<[u32; 4]>, raw: Seq<u32>, raw_dword_count: nat },
    /// The flags that hold for the whole shader.
    DclGlobalFlags { flags: Seq<Seq<char>> },
    /// An input register.
    DclInput { interpolation: Option<Seq<char>>, system_value: Option<Seq<char>>, operands: Seq<OperandModel> },
    /// An output register.
    DclOutput { system_value: Option<Seq<char>>, operands: Seq<OperandModel> },
    /// A typed resource.
    DclResource { dimension: Seq<char>, sample_count: u32, return_type: [ReturnType; 4], operands: Seq<OperandModel> },
    /// A sampler.
    DclSampler { mode: Seq<char>, operands: Seq<OperandModel> },
    /// A constant buffer.
    DclConstantBuffer { access: Seq<char>, operands: Seq<OperandModel> },
    /// The number of temporary registers.
    DclTemps { count: u32 },
    /// An indexable temporary array.
    DclIndexableTemp { reg: u32, size: u32, components: u32 },
    /// The primitive a geometry shader takes.
    DclGsInputPrimitive { primitive: GsPrimitive },
    /// The topology a geometry shader emits.
    DclGsOutputTopology { topology: GsOutputTopology },
    /// The most vertices a geometry shader emits.
    DclMaxOutputVertexCount { count: u32 },
    /// The number of geometry-shader instances.
    DclGsInstanceCount { count: u32 },
    /// The number of control points a hull shader emits.
    DclOutputControlPointCount { count: u32 },
    /// The number of control points a hull shader takes.
    DclInputControlPointCount { count: u32 },
    /// The tessellator's domain.
    DclTessDomain { domain: Seq<char> },
    /// The tessellator's partitioning.
    DclTessPartitioning { partitioning: Seq<char> },
    /// The primitive the tessellator emits.
    DclTessOutputPrimitive { primitive: Seq<char> },
    /// The highest tessellation factor, as the bits of a single-precision number.
    DclHsMaxTessFactor { value: u32 },
    /// The number of instances of a fork or join phase.
    DclHsForkPhaseInstanceCount { count: u32 },
    /// The size of a thread group.
    DclThreadGroup { x: u32, y: u32, z: u32 },
    /// A typed unordered-access view.
    DclUavTyped { dimension: Seq<char>, flags: u32, return_type: [ReturnType; 4], operands: Seq<OperandModel> },
    /// A raw unordered-access view.
    DclUavRaw { flags: u32, operands: Seq<OperandModel> },
    /// A structured unordered-access view.
    DclUavStructured { flags: u32, stride: u32, operands: Seq<OperandModel> },
    /// A raw resource.
    DclResourceRaw { operands: Seq<OperandModel> },
    /// A structured resource.
    DclResourceStructured { stride: u32, operands: Seq<OperandModel> },
    /// A function body.
    DclFunctionBody { index: u32 },
    /// A function table.
    DclFunctionTable { table_index: u32, body_indices: Seq<u32> },
    /// An interface.
    DclInterface { interface_index: u32, num_call_sites: u32, table_indices: Seq<u32> },
    /// A range of registers that may be indexed.
    DclIndexRange { operands: Seq<OperandModel>, count: u32 },
}

impl InstructionKind {
    /// The model.
    pub open spec fn model(self) -> KindModel {
        match self {
            InstructionKind::Generic { operands } => KindModel::Generic {
                operands: operand_models(operands@),
            },
            InstructionKind::HsPhase => KindModel::HsPhase,
            InstructionKind::CustomData { subtype, values, raw, raw_dword_count } => KindModel::CustomData {
                subtype,
                values: values@,
                raw: raw@,
                raw_dword_count: raw_dword_count as nat,
            },
            InstructionKind::DclGlobalFlags { flags } => KindModel::DclGlobalFlags {
                flags: flags@,
            },
            InstructionKind::DclInput { interpolation, system_value, operands } => KindModel::DclInput {
                interpolation: opt_text(interpolation),
                system_value: opt_text(system_value),
                operands: operand_models(operands@),
            },
            InstructionKind::DclOutput { system_value, operands } => KindModel::DclOutput {
                system_value: opt_text(system_value),
                operands: operand_models(operands@),
            },
            InstructionKind::DclResource { dimension, sample_count, return_type, operands } => KindModel::DclResource {
                dimension: dimension@,
                sample_count,
                return_type,
                operands: operand_models(operands@),
            },
            InstructionKind::DclSampler { mode, operands } => KindModel::DclSampler {
                mode: mode@,
                operands: operand_models(operands@),
            },
            InstructionKind::DclConstantBuffer { access, operands } => KindModel::DclConstantBuffer {
                access: access@,
                operands: operand_models(operands@),
            },
            InstructionKind::DclTemps { count } => KindModel::DclTemps {
                count,
            },
            InstructionKind::DclIndexableTemp { reg, size, components } => KindModel::DclIndexableTemp {
                reg,
                size,
                components,
            },
            InstructionKind::DclGsInputPrimitive { primitive } => KindModel::DclGsInputPrimitive {
                primitive,
            },
            InstructionKind::DclGsOutputTopology { topology } => KindModel::DclGsOutputTopology {
                topology,
            },
            InstructionKind::DclMaxOutputVertexCount { count } => KindModel::DclMaxOutputVertexCount {
                count,
            },
            InstructionKind::DclGsInstanceCount { count } => KindModel::DclGsInstanceCount {
                count,
            },
            InstructionKind::DclOutputControlPointCount { count } => KindModel::DclOutputControlPointCount {
                count,
            },
            InstructionKind::DclInputControlPointCount { count } => KindModel::DclInputControlPointCount {
                count,
            },
            InstructionKind::DclTessDomain { domain } => KindModel::DclTessDomain {
                domain: domain@,
            },
            InstructionKind::DclTessPartitioning { partitioning } => KindModel::DclTessPartitioning {
                partitioning: partitioning@,
            },
            InstructionKind::DclTessOutputPrimitive { primitive } => KindModel::DclTessOutputPrimitive {
                primitive: primitive@,
            },
            InstructionKind::DclHsMaxTessFactor { value } => KindModel::DclHsMaxTessFactor {
                value,
            },
            InstructionKind::DclHsForkPhaseInstanceCount { count } => KindModel::DclHsForkPhaseInstanceCount {
                count,
            },
            InstructionKind::DclThreadGroup { x, y, z } => KindModel::DclThreadGroup {
                x,
                y,
                z,
            },
            InstructionKind::DclUavTyped { dimension, flags, return_type, operands } => KindModel::DclUavTyped {
                dimension: dimension@,
                flags,
                return_type,
                operands: operand_models(operands@),
            },
            InstructionKind::DclUavRaw { flags, operands } => KindModel::DclUavRaw {
                flags,
                operands: operand_models(operands@),
            },
            InstructionKind::DclUavStructured { flags, stride, operands } => KindModel::DclUavStructured {
                flags,
                stride,
                operands: operand_models(operands@),
            },
            InstructionKind::DclResourceRaw { operands } => KindModel::DclResourceRaw {
                operands: operand_models(operands@),
            },
            InstructionKind::DclResourceStructured { stride, operands } => KindModel::DclResourceStructured {
                stride,
                operands: operand_models(operands@),
            },
            InstructionKind::DclFunctionBody { index } => KindModel::DclFunctionBody {
                index,
            },
            InstructionKind::DclFunctionTable { table_index, body_indices } => KindModel::DclFunctionTable {
                table_index,
                body_indices: body_indices@,
            },
            InstructionKind::DclInterface { interface_index, num_call_sites, table_indices } => KindModel::DclInterface {
                interface_index,
                num_call_sites,
                table_indices: table_indices@,
            },
            InstructionKind::DclIndexRange { operands, count } => KindModel::DclIndexRange {
                operands: operand_models(operands@),
                count,
            },
        }
    }
}

/// The model of an instruction.
#[verifier::ext_equal]
pub struct InstructionModel {
    /// The opcode.
    pub opcode: Opcode,
    /// The modifiers.
    pub mods: Modifiers,
    /// What the instruction holds.
    pub kind: KindModel,
}

/// An instruction's modifiers.
#[verifier::ext_equal]
pub struct Modifiers {
    /// Whether the result is clamped.
    pub saturate: bool,
    /// Whether the test is for non-zero.
    pub test_nonzero: bool,
    /// The components computed precisely.
    pub precise_mask: u8,
    /// What a size query returns.
    pub resinfo_return_type: Option<u8>,
    /// What a barrier synchronises.
    pub sync_flags: u8,
    /// The texel offsets.
    pub tex_offsets: Option<[i8; 3]>,
    /// The resource-dimension word.
    pub resource_dim: Option<u32>,
    /// The resource-return-type word.
    pub resource_return_type: Option<u32>,
}

/// No modifiers.
pub open spec fn no_modifiers() -> Modifiers {
    Modifiers {
        saturate: false,
        test_nonzero: false,
        precise_mask: 0,
        resinfo_return_type: None,
        sync_flags: 0,
        tex_offsets: None,
        resource_dim: None,
        resource_return_type: None,
    }
}

impl Instruction {
    /// The instruction's modifiers.
    pub open spec fn modifiers(self) -> Modifiers {
        Modifiers {
            saturate: self.saturate,
            test_nonzero: self.test_nonzero,
            precise_mask: self.precise_mask,
            resinfo_return_type: self.resinfo_return_type,
            sync_flags: self.sync_flags,
            tex_offsets: self.tex_offsets,
            resource_dim: self.resource_dim,
            resource_return_type: self.resource_return_type,
        }
    }

    /// The instruction's model.
    pub open spec fn model(self) -> InstructionModel {
        InstructionModel {
            opcode: self.opcode,
            mods: self.modifiers(),
            kind: self.kind.model(),
        }
    }
}

/// The models of a list of instructions.
pub open spec fn instruction_models(s: Seq<Instruction>) -> Seq<InstructionModel> {
    Seq::new(s.len(), |i: int| s[i].model())
}

/// The model of a program. The warnings are no part of it.
#[verifier::ext_equal]
pub struct ProgramModel {
    /// The shader stage's name.
    pub shader_type: Seq<char>,
    /// The shader model's major version.
    pub major_version: u32,
    /// The shader model's minor version.
    pub minor_version: u32,
    /// The instructions.
    pub instructions: Seq<InstructionModel>,
    /// The four-character code.
    pub fourcc: Seq<u8>,
}

impl Program {
    /// The program's model.
    pub open spec fn model(self) -> ProgramModel {
        ProgramModel {
            shader_type: self.shader_type@,
            major_version: self.major_version,
            minor_version: self.minor_version,
            instructions: instruction_models(self.instructions@),
            fourcc: self.fourcc@,
        }
    }
}

/// The operands of an instruction, whatever it is.
pub open spec fn kind_operands(k: KindModel) -> Seq<OperandModel> {
    match k {
        KindModel::Generic { operands, .. } => operands,
        KindModel::DclInput { operands, .. } => operands,
        KindModel::DclOutput { operands, .. } => operands,
        KindModel::DclResource { operands, .. } => operands,
        KindModel::DclSampler { operands, .. } => operands,
        KindModel::DclConstantBuffer { operands, .. } => operands,
        KindModel::DclUavTyped { operands, .. } => operands,
        KindModel::DclUavRaw { operands, .. } => operands,
        KindModel::DclUavStructured { operands, .. } => operands,
        KindModel::DclResourceRaw { operands, .. } => operands,
        KindModel::DclResourceStructured { operands, .. } => operands,
        KindModel::DclIndexRange { operands, .. } => operands,
        _ => Seq::empty(),
    }
}

impl Instruction {
    /// The operands of the instruction, whatever it is.
    pub fn operands(&self) -> (r: &[Operand])
        ensures
            operand_models(r@) == kind_operands(self.kind.model()),
    {
        match &self.kind {
            InstructionKind::Generic { operands, .. } => operands.as_slice(),
            InstructionKind::DclInput { operands, .. } => operands.as_slice(),
            InstructionKind::DclOutput { operands, .. } => operands.as_slice(),
            InstructionKind::DclResource { operands, .. } => operands.as_slice(),
            InstructionKind::DclSampler { operands, .. } => operands.as_slice(),
            InstructionKind::DclConstantBuffer { operands, .. } => operands.as_slice(),
            InstructionKind::DclUavTyped { operands, .. } => operands.as_slice(),
            InstructionKind::DclUavRaw { operands, .. } => operands.as_slice(),
            InstructionKind::DclUavStructured { operands, .. } => operands.as_slice(),
            InstructionKind::DclResourceRaw { operands, .. } => operands.as_slice(),
            InstructionKind::DclResourceStructured { operands, .. } => operands.as_slice(),
            InstructionKind::DclIndexRange { operands, .. } => operands.as_slice(),
            _ => {
                let r: &[Operand] = &[];
                assert(operand_models(r@) =~= Seq::empty());
                r
            },
        }
    }
}

} // verus!
