//! The names of what operands read.

use d3dasm::chunks::rdef::{CBufferDef, CBufferVariable, ResourceBinding, ResourceDef, TypeDesc};
use d3dasm::shex::ir::{ComponentSelect, Operand, OperandIndex, RegisterType, SmallU32Vec};
use d3dasm::symbolicate::{annotate_shex, resolve_operand};
use d3dasm::floats::FloatTable;
use d3dasm::grammar::shex::parse::parse;

fn td(class: u16, columns: u16, elements: u16) -> TypeDesc {
    TypeDesc {
        class,
        var_type: 3,
        rows: if class >= 2 { columns } else { 1 },
        columns,
        elements,
        members: Vec::new(),
        sm5_extra: None,
        name: String::new(),
    }
}

fn var(name: &str, offset: u32, size: u32, t: TypeDesc) -> CBufferVariable {
    CBufferVariable {
        name: name.to_string(),
        offset,
        size,
        flags: 0,
        var_type: t,
        default_value: Vec::new(),
        texture_start: None,
        texture_size: None,
        sampler_start: None,
        sampler_size: None,
    }
}

fn rdef() -> ResourceDef {
    ResourceDef {
        bindings: vec![ResourceBinding {
            name: "cb".to_string(),
            input_type: 0,
            return_type: 0,
            dimension: 0,
            num_samples: 0,
            bind_point: 0,
            bind_count: 1,
            flags: 0,
        }],
        constant_buffers: vec![CBufferDef {
            name: "cb".to_string(),
            variables: vec![
                var("gColor", 0, 16, td(1, 4, 0)),
                var("gMat", 16, 64, td(2, 4, 0)),
                var("gArr", 80, 64, td(1, 4, 4)),
                var("gFlag", 144, 4, td(0, 1, 0)),
                var("gVec", 148, 12, td(1, 3, 0)),
            ],
            size: 160,
            flags: 0,
            cb_type: 0,
        }],
        creator: String::new(),
        target_version: 0xffff_0500,
        compile_flags: 0,
        rd11_extra: None,
    }
}

fn operand(reg_type: RegisterType, components: ComponentSelect, indices: Vec<OperandIndex>) -> Operand {
    Operand {
        reg_type,
        components,
        negate: false,
        abs: false,
        indices,
        immediate_values: SmallU32Vec::from_words(&[]),
    }
}

fn resolve(reg: OperandIndex, comps: ComponentSelect) -> Option<String> {
    let op = operand(
        RegisterType::ConstantBuffer,
        comps,
        vec![OperandIndex::Imm32(0), reg],
    );
    resolve_operand(&op, &rdef()).map(|(_, n)| n)
}

#[test]
fn vector_matrix_array_shift_and_crossvar() {
    assert_eq!(
        resolve(OperandIndex::Imm32(0), ComponentSelect::Scalar(3)).as_deref(),
        Some("gColor.w")
    );
    assert_eq!(
        resolve(OperandIndex::Imm32(2), ComponentSelect::Swizzle([0, 1, 2, 3])).as_deref(),
        Some("gMat[1].xyzw")
    );
    assert_eq!(
        resolve(OperandIndex::Imm32(6), ComponentSelect::Scalar(0)).as_deref(),
        Some("gArr[1].x")
    );
    assert_eq!(
        resolve(OperandIndex::Imm32(9), ComponentSelect::Scalar(3)).as_deref(),
        Some("gVec.z")
    );
    assert_eq!(resolve(OperandIndex::Imm32(9), ComponentSelect::Swizzle([0, 1, 2, 0])), None);
}

#[test]
fn dynamic_array_index() {
    let sub = operand(
        RegisterType::Temp,
        ComponentSelect::Scalar(0),
        vec![OperandIndex::Imm32(0)],
    );
    let n = resolve(
        OperandIndex::RelativePlusImm(5, Box::new(sub)),
        ComponentSelect::Scalar(0),
    );
    assert_eq!(n.as_deref(), Some("gArr[r0.x].x"));
}

#[test]
fn names_stand_behind_instructions() {
    let t = FloatTable::new();
    let text = "ps_5_0\nmov r0:x, cb0[0].x\nadd r0:x, cb0[6].x, cb0[6].x\nret\n";
    let program = parse(text, &t).unwrap();
    let noted = annotate_shex(text, &program, &rdef());
    assert_eq!(
        noted,
        "ps_5_0\nmov r0:x, cb0[0].x  // cb0[0].x = gColor.x\n\
         add r0:x, cb0[6].x, cb0[6].x  // cb0[6].x = gArr[1].x\nret\n"
    );
    assert_eq!(parse(&noted, &t).unwrap(), program);
    assert_eq!(annotate_shex("ps_5_0\n", &program, &rdef()), "ps_5_0\n");
}

#[test]
fn names_of_bound_resources() {
    let mut rd = rdef();
    rd.bindings[0].input_type = 2;
    rd.bindings[0].bind_point = 5;
    let t5 = operand(
        RegisterType::Resource,
        ComponentSelect::Swizzle([0, 1, 2, 3]),
        vec![OperandIndex::Imm32(5)],
    );
    assert_eq!(
        resolve_operand(&t5, &rd),
        Some(("t5.xyzw".to_string(), "cb".to_string()))
    );
    let s5 = operand(
        RegisterType::Sampler,
        ComponentSelect::ZeroComponent,
        vec![OperandIndex::Imm32(5)],
    );
    assert_eq!(resolve_operand(&s5, &rd), None);
}
