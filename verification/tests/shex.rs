//! Programs through text and back.

use d3dasm::floats::FloatTable;
use d3dasm::grammar::shex::parse::parse;
use d3dasm::grammar::shex::serialize::serialize;
use d3dasm::shex::decode::decode;
use d3dasm::shex::encode::encode;
use d3dasm::shex::ir::{
    ComponentSelect, CustomDataType, FlagNames, Indices, Instruction, InstructionKind, Opcode,
    Operand, OperandIndex, Operands, Program, RegisterType, ReturnType, SmallU32Vec,
};

const XYZW: ComponentSelect = ComponentSelect::Swizzle([0, 1, 2, 3]);
const MASK_ALL: ComponentSelect = ComponentSelect::Mask(0xF);

fn insn(opcode: Opcode, kind: InstructionKind) -> Instruction {
    Instruction {
        opcode,
        saturate: false,
        test_nonzero: false,
        precise_mask: 0,
        resinfo_return_type: None,
        sync_flags: 0,
        tex_offsets: None,
        resource_dim: None,
        resource_return_type: None,
        kind,
    }
}

fn program(instructions: Vec<Instruction>) -> Program {
    Program {
        shader_type: "ps",
        major_version: 5,
        minor_version: 0,
        instructions,
        warnings: Vec::new(),
        fourcc: *b"SHEX",
    }
}

/// The spellings of those single-precision numbers.
fn floats(words: &[u32]) -> FloatTable {
    let mut t = FloatTable::new();
    for &w in words {
        let f = f32::from_bits(w);
        t.push(w, format!("{f:?}"), format!("{f}"));
    }
    t
}

fn rt_with(p: &Program, t: &FloatTable) {
    let bytes = encode(p);
    let canon = decode(&bytes).expect("decode failed");
    let text = serialize(&canon, t);
    let parsed = parse(&text, t)
        .unwrap_or_else(|e| panic!("parse error: {}\n--- text ---\n{text}", e.to_text()));
    assert_eq!(canon, parsed, "IR round-trip mismatch\n--- text ---\n{text}");
    assert_eq!(
        encode(&canon),
        encode(&parsed),
        "byte round-trip mismatch\n--- text ---\n{text}"
    );
    assert_eq!(encode(&canon), bytes);
}

fn rt(p: &Program) {
    rt_with(p, &FloatTable::new());
}

fn temp(reg: u32, comp: ComponentSelect) -> Operand {
    reg_op(RegisterType::Temp, comp, vec![OperandIndex::Imm32(reg)])
}

fn reg_op(reg_type: RegisterType, components: ComponentSelect, indices: Indices) -> Operand {
    Operand {
        reg_type,
        components,
        negate: false,
        abs: false,
        indices,
        immediate_values: SmallU32Vec::from_words(&[]),
    }
}

fn generic(opcode: Opcode, operands: Vec<Operand>) -> Instruction {
    insn(
        opcode,
        InstructionKind::Generic { operands: Operands::from_vec(operands) },
    )
}

fn flags(names: &[&'static str]) -> Instruction {
    insn(
        Opcode::DclGlobalFlags,
        InstructionKind::DclGlobalFlags { flags: FlagNames::from_names(names) },
    )
}

fn immediate(words: [u32; 4]) -> Operand {
    Operand {
        reg_type: RegisterType::Immediate32,
        components: XYZW,
        negate: false,
        abs: false,
        indices: Vec::new(),
        immediate_values: SmallU32Vec::from_words(&words),
    }
}

#[test]
fn ret_only() {
    rt(&program(vec![generic(Opcode::Ret, vec![])]));
}

#[test]
fn mov_mask_swizzle() {
    rt(&program(vec![
        generic(Opcode::Mov, vec![temp(0, MASK_ALL), temp(1, XYZW)]),
        generic(Opcode::Ret, vec![]),
    ]));
}

#[test]
fn add_three_operands() {
    rt(&program(vec![
        generic(
            Opcode::Add,
            vec![temp(0, MASK_ALL), temp(1, XYZW), temp(2, XYZW)],
        ),
        generic(Opcode::Ret, vec![]),
    ]));
}

#[test]
fn partial_mask_and_swizzle() {
    rt(&program(vec![
        generic(
            Opcode::Mul,
            vec![
                temp(0, ComponentSelect::Mask(0b0011)),
                temp(1, ComponentSelect::Swizzle([1, 1, 2, 3])),
                temp(2, ComponentSelect::Scalar(2)),
            ],
        ),
        generic(Opcode::Ret, vec![]),
    ]));
}

#[test]
fn negate_and_abs() {
    let mut a = temp(1, XYZW);
    a.negate = true;
    let mut b = temp(2, XYZW);
    b.abs = true;
    let mut c = temp(3, XYZW);
    c.negate = true;
    c.abs = true;
    rt(&program(vec![
        generic(Opcode::Mad, vec![temp(0, MASK_ALL), a, b, c]),
        generic(Opcode::Ret, vec![]),
    ]));
}

#[test]
fn immediate_operand() {
    let words = [0x3f80_0000, 0x4000_0000, 0x0000_0000, 0xc080_0000];
    let p = program(vec![
        generic(Opcode::Mov, vec![temp(0, MASK_ALL), immediate(words)]),
        generic(Opcode::Ret, vec![]),
    ]);
    rt(&p);
    let t = floats(&words);
    rt_with(&p, &t);
    let text = serialize(&decode(&encode(&p)).unwrap(), &t);
    assert!(text.contains("l(1.0, 2.0, 0.0, -4.0)"), "text:\n{text}");
}

#[test]
fn constant_buffer_operand() {
    let cb = reg_op(
        RegisterType::ConstantBuffer,
        XYZW,
        vec![OperandIndex::Imm32(0), OperandIndex::Imm32(16)],
    );
    rt(&program(vec![
        generic(Opcode::Mov, vec![temp(0, MASK_ALL), cb]),
        generic(Opcode::Ret, vec![]),
    ]));
}

#[test]
fn relative_index_operand() {
    let inner = temp(1, ComponentSelect::Scalar(0));
    let cb = reg_op(
        RegisterType::ConstantBuffer,
        XYZW,
        vec![
            OperandIndex::Imm32(0),
            OperandIndex::RelativePlusImm(2, Box::new(inner)),
        ],
    );
    rt(&program(vec![
        generic(Opcode::Mov, vec![temp(0, MASK_ALL), cb]),
        generic(Opcode::Ret, vec![]),
    ]));
}

#[test]
fn saturate_modifier() {
    let mut i = generic(
        Opcode::Add,
        vec![temp(0, MASK_ALL), temp(1, XYZW), temp(2, XYZW)],
    );
    i.saturate = true;
    rt(&program(vec![i, generic(Opcode::Ret, vec![])]));
}

#[test]
fn dcl_temps() {
    rt(&program(vec![insn(
        Opcode::DclTemps,
        InstructionKind::DclTemps { count: 3 },
    )]));
}

#[test]
fn dcl_global_flags() {
    rt(&program(vec![flags(&["refactoringAllowed"])]));
}

#[test]
fn dcl_thread_group() {
    rt(&program(vec![insn(
        Opcode::DclThreadGroup,
        InstructionKind::DclThreadGroup { x: 8, y: 8, z: 1 },
    )]));
}

#[test]
fn dcl_constant_buffer() {
    let cb = reg_op(
        RegisterType::ConstantBuffer,
        ComponentSelect::Swizzle([0, 1, 2, 3]),
        vec![OperandIndex::Imm32(0), OperandIndex::Imm32(8)],
    );
    rt(&program(vec![insn(
        Opcode::DclConstantBuffer,
        InstructionKind::DclConstantBuffer {
            access: "immediateIndexed",
            operands: Operands::from_vec(vec![cb]),
        },
    )]));
}

#[test]
fn dcl_sampler() {
    let s = reg_op(
        RegisterType::Sampler,
        ComponentSelect::ZeroComponent,
        vec![OperandIndex::Imm32(0)],
    );
    rt(&program(vec![insn(
        Opcode::DclSampler,
        InstructionKind::DclSampler {
            mode: "default",
            operands: Operands::from_vec(vec![s]),
        },
    )]));
}

fn resource(dimension: &'static str) -> Instruction {
    let t = reg_op(
        RegisterType::Resource,
        ComponentSelect::Swizzle([0, 1, 2, 3]),
        vec![OperandIndex::Imm32(0)],
    );
    insn(
        Opcode::DclResource,
        InstructionKind::DclResource {
            dimension,
            sample_count: 0,
            return_type: [ReturnType::Float; 4],
            operands: Operands::from_vec(vec![t]),
        },
    )
}

#[test]
fn dcl_resource_texture2d() {
    rt(&program(vec![resource("texture2d")]));
}

#[test]
fn dcl_input_ps_interp() {
    let v = reg_op(
        RegisterType::Input,
        ComponentSelect::Mask(0b0011),
        vec![OperandIndex::Imm32(0)],
    );
    rt(&program(vec![insn(
        Opcode::DclInputPs,
        InstructionKind::DclInput {
            interpolation: Some("linear"),
            system_value: None,
            operands: Operands::from_vec(vec![v]),
        },
    )]));
}

#[test]
fn dcl_output() {
    let o = reg_op(
        RegisterType::Output,
        ComponentSelect::Mask(0xF),
        vec![OperandIndex::Imm32(0)],
    );
    rt(&program(vec![insn(
        Opcode::DclOutput,
        InstructionKind::DclOutput {
            system_value: None,
            operands: Operands::from_vec(vec![o]),
        },
    )]));
}

#[test]
fn customdata_icb() {
    let row = |a: f32, b: f32, c: f32, d: f32| [a.to_bits(), b.to_bits(), c.to_bits(), d.to_bits()];
    rt(&program(vec![insn(
        Opcode::CustomData,
        InstructionKind::CustomData {
            subtype: CustomDataType::ImmediateConstantBuffer,
            values: vec![row(1.0, 2.0, 3.0, 4.0), row(5.0, 6.0, 7.0, 8.0)],
            raw: Vec::new(),
            raw_dword_count: 10,
        },
    )]));
}

#[test]
fn customdata_opaque_payload() {
    rt(&program(vec![insn(
        Opcode::CustomData,
        InstructionKind::CustomData {
            subtype: CustomDataType::Opaque,
            values: Vec::new(),
            raw: vec![
                0xdead_beef,
                0x0000_0001,
                0xffff_ffff,
                0x1234_5678,
                0x9abc_def0,
            ],
            raw_dword_count: 7,
        },
    )]));
}

#[test]
fn customdata_comment_empty() {
    rt(&program(vec![insn(
        Opcode::CustomData,
        InstructionKind::CustomData {
            subtype: CustomDataType::Comment,
            values: Vec::new(),
            raw: Vec::new(),
            raw_dword_count: 2,
        },
    )]));
}

#[test]
fn shdr_fourcc_preserved() {
    let p = Program {
        shader_type: "vs",
        major_version: 4,
        minor_version: 0,
        instructions: vec![generic(Opcode::Ret, vec![])],
        warnings: Vec::new(),
        fourcc: *b"SHDR",
    };
    let t = FloatTable::new();
    let text = serialize(&p, &t);
    assert!(text.starts_with("vs_4_0 SHDR\n"), "text:\n{text}");
    let p2 = parse(&text, &t).expect("parse failed");
    assert_eq!(p2, p, "SHDR round-trip mismatch\n{text}");
}

#[test]
fn declarations_have_no_garbage_modifiers() {
    let prog = program(vec![resource("texture3d")]);
    let canon = decode(&encode(&prog)).unwrap();
    assert!(
        !canon.instructions[0].saturate,
        "decode leaked garbage saturate"
    );
    assert_eq!(
        canon.instructions[0].precise_mask, 0,
        "garbage precise_mask"
    );
    rt(&prog);
}

#[test]
fn float_immediate_edges() {
    let words = [0x3f80_0000, 0x8000_0000, 0x7f80_0000, 0x7fc0_0000];
    let p = program(vec![
        generic(Opcode::Mov, vec![temp(0, MASK_ALL), immediate(words)]),
        generic(Opcode::Ret, vec![]),
    ]);
    let t = floats(&words);
    rt_with(&p, &t);
    let text = serialize(&decode(&encode(&p)).unwrap(), &t);
    assert!(
        text.contains("l(1.0, -0.0, inf, 0x7fc00000)"),
        "text:\n{text}"
    );
}

#[test]
fn comments_are_ignored() {
    let t = FloatTable::new();
    let p = program(vec![
        generic(Opcode::Mov, vec![temp(0, MASK_ALL), temp(1, XYZW)]),
        generic(Opcode::Ret, vec![]),
    ]);
    let canon = decode(&encode(&p)).unwrap();
    let text = serialize(&canon, &t);
    let commented = format!(
        "// a header comment\n{}\n// a dangling comment",
        text.replace("\nret", "  // trailing comment\nret")
    );
    let parsed = parse(&commented, &t).expect("parse with comments");
    assert_eq!(
        encode(&canon),
        encode(&parsed),
        "comments changed the result"
    );
}

fn sample() -> Instruction {
    let mut i = generic(
        Opcode::Sample,
        vec![
            temp(0, MASK_ALL),
            temp(1, XYZW),
            reg_op(RegisterType::Resource, XYZW, vec![OperandIndex::Imm32(0)]),
            reg_op(
                RegisterType::Sampler,
                ComponentSelect::ZeroComponent,
                vec![OperandIndex::Imm32(0)],
            ),
        ],
    );
    i.resource_dim = Some(2 | (3 << 6));
    i.resource_return_type = Some(3 | (5 << 6) | (5 << 10) | (5 << 14) | (5 << 18));
    i
}

#[test]
fn resource_extended_tokens() {
    let t = FloatTable::new();
    let canon = decode(&encode(&program(vec![
        sample(),
        generic(Opcode::Ret, vec![]),
    ])))
    .unwrap();
    let text = serialize(&canon, &t);
    assert!(
        text.contains("_res(texture2d)"),
        "expected readable res:\n{text}"
    );
    assert!(
        text.contains("_rt(float,float,float,float)"),
        "expected readable rt:\n{text}"
    );
    rt(&program(vec![sample(), generic(Opcode::Ret, vec![])]));
}

#[test]
fn unknown_opcode_roundtrip() {
    rt(&program(vec![
        generic(Opcode::Unknown(253), vec![temp(0, MASK_ALL), temp(1, XYZW)]),
        generic(Opcode::Ret, vec![]),
    ]));
}

#[test]
fn unknown_register_roundtrip() {
    let r = reg_op(
        RegisterType::Unknown(45),
        XYZW,
        vec![OperandIndex::Imm32(0)],
    );
    rt(&program(vec![
        generic(Opcode::Mov, vec![temp(0, MASK_ALL), r]),
        generic(Opcode::Ret, vec![]),
    ]));
}

#[test]
fn full_pixel_shader() {
    rt(&program(vec![
        flags(&["refactoringAllowed"]),
        insn(Opcode::DclTemps, InstructionKind::DclTemps { count: 1 }),
        generic(Opcode::Mov, vec![temp(0, MASK_ALL), temp(1, XYZW)]),
        generic(Opcode::Ret, vec![]),
    ]));
}

/// The bytes of words, the lowest byte of each first.
fn bytes_of(words: &[u32]) -> Vec<u8> {
    words.iter().flat_map(|w| w.to_le_bytes()).collect()
}

#[test]
fn bytecode_reads_back() {
    let ret = program(vec![generic(Opcode::Ret, vec![])]);
    assert_eq!(encode(&ret), bytes_of(&[0x50, 3, 0x0100_003E]));
    assert_eq!(decode(&encode(&ret)), Some(ret));

    let mut negated = temp(1, XYZW);
    negated.negate = true;
    let mut far = sample();
    far.precise_mask = 0b0101;
    far.test_nonzero = true;
    let index = Operand {
        reg_type: RegisterType::ConstantBuffer,
        components: XYZW,
        negate: true,
        abs: true,
        indices: vec![
            OperandIndex::Imm64(0x1234_5678_9ABC_DEF0),
            OperandIndex::RelativePlusImm(7, Box::new(temp(3, ComponentSelect::Scalar(2)))),
            OperandIndex::Relative(Box::new(temp(4, ComponentSelect::Scalar(3)))),
        ],
        immediate_values: SmallU32Vec::from_words(&[]),
    };
    let p = program(vec![
        flags(&["refactoringAllowed", "enableRawAndStructuredBuffers"]),
        resource("texture2d"),
        generic(Opcode::Mov, vec![temp(0, MASK_ALL), negated]),
        generic(Opcode::Add, vec![temp(0, MASK_ALL), index, immediate([1, 2, 3, 4])]),
        far,
        generic(Opcode::Ret, vec![]),
    ]);
    assert_eq!(decode(&encode(&p)), Some(p));
}

#[test]
fn bytecode_with_stray_bits_settles() {
    // An instruction in which a bit without a meaning is set.
    let stray = bytes_of(&[0x50, 3, 0x0180_003E]);
    let first = decode(&stray).expect("decode failed");
    let second = decode(&encode(&first)).expect("decode failed");
    assert_eq!(first, second);
    assert_eq!(encode(&first), encode(&second));
    assert_ne!(encode(&first), stray);
}
