//! Containers through documents and back.

use d3dasm::checksum::dxbc_checksum;
use d3dasm::container::{WritableChunk, build_dxbc, build_dxbc_with_header};
use d3dasm::container_doc::{assemble, assemble_all, assemble_file, is_container, serialize, serialize_file};
use d3dasm::floats::FloatTable;
use d3dasm::shader::parse;
use d3dasm::shex::encode::encode;
use d3dasm::shex::ir::{
    ComponentSelect, FlagNames, Instruction, InstructionKind, Opcode, Operand, OperandIndex,
    Operands, Program, RegisterType, SmallU32Vec,
};

fn insn(opcode: Opcode, kind: InstructionKind) -> Instruction {
    Instruction {
        opcode,
        saturate: false,
        test_nonzero: false,
        precise_mask: 0,
        resinfo_return_type: None,
        sync_flags: 0,
        tex_offsets: None,
        resource_dim: None,
        resource_return_type: None,
        kind,
    }
}

fn generic(opcode: Opcode, operands: Vec<Operand>) -> Instruction {
    insn(
        opcode,
        InstructionKind::Generic { operands: Operands::from_vec(operands) },
    )
}

fn program(instructions: Vec<Instruction>) -> Program {
    Program {
        shader_type: "ps",
        major_version: 5,
        minor_version: 0,
        instructions,
        warnings: Vec::new(),
        fourcc: *b"SHEX",
    }
}

fn ret_program() -> Vec<u8> {
    encode(&program(vec![generic(Opcode::Ret, vec![])]))
}

fn temp(reg: u32, components: ComponentSelect) -> Operand {
    Operand {
        reg_type: RegisterType::Temp,
        components,
        negate: false,
        abs: false,
        indices: vec![OperandIndex::Imm32(reg)],
        immediate_values: SmallU32Vec::from_words(&[]),
    }
}

/// A container with a valid checksum.
fn valid_container(chunks: &[WritableChunk], version: u32) -> Vec<u8> {
    let mut bytes = build_dxbc_with_header(chunks, version, &[0u8; 16]);
    let digest = dxbc_checksum(&bytes[20..]);
    bytes[4..20].copy_from_slice(&digest);
    bytes
}

#[test]
fn container_document_roundtrip() {
    let shex = ret_program();
    let priv_data = vec![0xde, 0xad, 0xbe, 0xef, 0x01, 0x02, 0x03];
    let original = valid_container(
        &[
            WritableChunk { fourcc: *b"SHEX", data: shex },
            WritableChunk { fourcc: *b"PRIV", data: priv_data },
        ],
        1,
    );

    let shaders = parse(&original);
    assert_eq!(shaders.len(), 1);

    let t = FloatTable::new();
    let text = serialize(&shaders[0], &t);
    assert!(text.contains("// Container:"), "missing header:\n{text}");
    assert!(text.contains("PRIV"), "missing chunk inventory:\n{text}");
    assert!(text.contains(".code SHEX"), "missing program chunk:\n{text}");
    assert!(text.contains("\nret"), "missing disassembly body:\n{text}");
    assert!(text.contains(".chunk PRIV"), "missing raw chunk:\n{text}");

    let rebuilt = assemble(&text, &t)
        .unwrap_or_else(|e| panic!("assemble failed: {}\n{text}", e.to_text()));
    assert_eq!(rebuilt, original, "container not byte-identical\n{text}");
    assert_eq!(
        &rebuilt[4..20],
        &dxbc_checksum(&rebuilt[20..])[..],
        "header hash not recomputed"
    );
}

#[test]
fn assemble_all_handles_multiple_containers() {
    let one = valid_container(
        &[WritableChunk { fourcc: *b"SHEX", data: ret_program() }],
        1,
    );
    let mut archive = one.clone();
    archive.extend_from_slice(&one);

    let t = FloatTable::new();
    let mut doc = String::new();
    for shader in &parse(&archive) {
        doc.push_str(&serialize(shader, &t));
    }
    let rebuilt = assemble_all(&doc, &t).expect("assemble_all");
    assert_eq!(rebuilt, archive, "archive not byte-identical");
}

#[test]
fn container_text_roundtrip() {
    let program = program(vec![
        insn(
            Opcode::DclGlobalFlags,
            InstructionKind::DclGlobalFlags {
                flags: FlagNames::from_names(&["refactoringAllowed"]),
            },
        ),
        insn(Opcode::DclTemps, InstructionKind::DclTemps { count: 1 }),
        generic(
            Opcode::Mov,
            vec![
                temp(0, ComponentSelect::Mask(0xF)),
                temp(1, ComponentSelect::Swizzle([0, 1, 2, 3])),
            ],
        ),
        generic(Opcode::Ret, vec![]),
    ]);
    let shex_bytes = encode(&program);
    let container = build_dxbc(&[WritableChunk { fourcc: *b"SHEX", data: shex_bytes.clone() }]);

    let shaders = parse(&container);
    assert_eq!(shaders.len(), 1, "expected one shader in container");
    let prog = shaders[0].program().expect("container has a shader program");

    let t = FloatTable::new();
    let text = d3dasm::grammar::shex::serialize::serialize(&prog, &t);
    let parsed = d3dasm::grammar::shex::parse::parse(&text, &t)
        .unwrap_or_else(|e| panic!("assemble failed: {}\n{text}", e.to_text()));
    let reencoded = encode(&parsed);
    assert_eq!(
        reencoded, shex_bytes,
        "SHEX chunk did not re-encode byte-identically\n--- .d3dasm ---\n{text}"
    );
    assert!(text.starts_with("ps_5_0\n"), "unexpected profile line:\n{text}");
    assert!(text.contains("\nmov "), "expected a mov instruction:\n{text}");
}

#[test]
fn whole_file_roundtrip() {
    let t = FloatTable::new();
    let one = valid_container(
        &[WritableChunk { fourcc: *b"SHEX", data: ret_program() }],
        1,
    );
    let mut file: Vec<u8> = (0u8..40).collect();
    file.extend_from_slice(&one);
    file.extend_from_slice(b"DXBC between");
    file.extend_from_slice(&one);
    file.push(7);
    let text = serialize_file(&file, &t);
    assert!(text.starts_with(
        ".raw\n  000102030405060708090a0b0c0d0e0f101112131415161718191a1b1c1d1e1f\n  2021222324252627\n//"
    ));
    assert!(!is_container(&text));
    assert_eq!(assemble_file(&text, &t).unwrap(), file);
}
