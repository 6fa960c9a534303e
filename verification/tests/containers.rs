//! Containers, their documents, and what is refused.

use d3dasm::bytes::{get_u32, push_u32};
use d3dasm::checksum::dxbc_checksum;
use d3dasm::chunks::stat::ShaderStats;
use d3dasm::container::{
    Chunk, WritableChunk, build_dxbc, build_dxbc_with_header, build_signed, scan_dxbc,
};
use d3dasm::container_doc::{
    assemble, assemble_all, assemble_file, is_container, serialize, serialize_file,
};
use d3dasm::floats::FloatTable;
use d3dasm::forensic::write_metadata_header;
use d3dasm::shader::{Role, chunk_role, parse};

fn chunk(fourcc: &[u8; 4], data: &[u8]) -> WritableChunk {
    WritableChunk { fourcc: *fourcc, data: data.to_vec() }
}

fn message(text: &str) -> String {
    assemble(text, &FloatTable::new()).unwrap_err().message
}

#[test]
fn words_are_little_endian() {
    let mut out = vec![9u8];
    push_u32(&mut out, 0x0403_0201);
    assert_eq!(out, vec![9, 1, 2, 3, 4]);
    assert_eq!(get_u32(&out, 1), Some(0x0403_0201));
    assert_eq!(get_u32(&out, 2), None);
}

#[test]
fn layout_of_a_container() {
    let hash = [7u8; 16];
    let b = build_dxbc_with_header(&[chunk(b"ABCD", &[1, 2, 3]), chunk(b"EFGH", &[])], 1, &hash);
    assert_eq!(&b[0..4], b"DXBC");
    assert_eq!(&b[4..20], &hash);
    assert_eq!(get_u32(&b, 20), Some(1));
    assert_eq!(get_u32(&b, 24), Some(b.len() as u32));
    assert_eq!(get_u32(&b, 28), Some(2));
    assert_eq!(get_u32(&b, 32), Some(40));
    assert_eq!(get_u32(&b, 36), Some(51));
    assert_eq!(&b[40..44], b"ABCD");
    assert_eq!(get_u32(&b, 44), Some(3));
    assert_eq!(&b[48..51], &[1, 2, 3]);
    assert_eq!(&b[51..55], b"EFGH");
    assert_eq!(b.len(), 59);
}

#[test]
fn written_containers_are_found() {
    let b = build_dxbc(&[chunk(b"ABCD", &[1, 2, 3])]);
    let mut file = vec![0u8; 5];
    file.extend_from_slice(&b);
    let found = scan_dxbc(&file);
    assert_eq!(found.len(), 1);
    assert_eq!(found[0].offset_in_file, 5);
    assert_eq!(found[0].total_size as usize, b.len());
    assert_eq!(found[0].version, 1);
    assert_eq!(found[0].header_hash, [0u8; 16]);
    assert_eq!(found[0].chunks.len(), 1);
    assert_eq!(found[0].chunks[0].fourcc_str(), "ABCD");
    assert_eq!(found[0].chunks[0].size, 3);
    assert_eq!(found[0].chunks[0].data, &[1, 2, 3]);
    file.truncate(file.len() - 1);
    assert!(scan_dxbc(&file).is_empty());
}

#[test]
fn codes_that_are_no_text() {
    let c = Chunk { fourcc: [0xff, 0x41, 0x42, 0x43], size: 0, data: &[] };
    assert_eq!(c.fourcc_str(), "????");
}

#[test]
fn signed_containers_have_the_right_checksum() {
    let b = build_signed(&[chunk(b"ABCD", &[1, 2, 3])], 1);
    assert_eq!(&b[4..20], &dxbc_checksum(&b[20..])[..]);
}

#[test]
fn roles_of_codes() {
    assert_eq!(chunk_role(b"SHDR"), Some(Role::Program));
    assert_eq!(chunk_role(b"ISG1"), Some(Role::Inputs));
    assert_eq!(chunk_role(b"OSG5"), Some(Role::Outputs));
    assert_eq!(chunk_role(b"PCSG"), Some(Role::PatchConstants));
    assert_eq!(chunk_role(b"STAT"), Some(Role::Statistics));
    assert_eq!(chunk_role(b"RDEF"), Some(Role::Resources));
    assert_eq!(chunk_role(b"PRIV"), None);
}

#[test]
fn document_of_a_raw_chunk() {
    let b = build_signed(&[chunk(b"PRIV", &[0xde, 0xad, 0xbe, 0xef])], 1);
    let t = FloatTable::new();
    let text = serialize(&parse(&b)[0], &t);
    assert!(text.ends_with(".dxbc version=1\n.chunk PRIV\n  deadbeef\n.end\n"), "{text}");
    assert!(text.contains("// Container: offset=0x0 size=48 version=1 chunks=1\n"), "{text}");
    assert!(text.contains("// Chunks: PRIV(4)\n//\n"), "{text}");
    assert_eq!(assemble(&text, &t).unwrap(), b);
}

#[test]
fn hex_lines_hold_thirty_two_bytes() {
    let data: Vec<u8> = (0u8..33).collect();
    let b = build_signed(&[chunk(b"PRIV", &data)], 1);
    let t = FloatTable::new();
    let text = serialize(&parse(&b)[0], &t);
    assert!(text.contains("1e1f\n  20\n.end\n"), "{text}");
    assert_eq!(assemble(&text, &t).unwrap(), b);
}

#[test]
fn header_lines_are_comments() {
    let b = build_dxbc(&[chunk(b"PRIV", &[1])]);
    let mut shaders = parse(&b);
    shaders[0].hash = Some("first\n\n// second".to_string());
    shaders[0].root_signature = Some("third".to_string());
    let mut out = String::from("x\n");
    write_metadata_header(&mut out, &shaders[0]);
    assert!(out.starts_with("x\n// ====="));
    assert!(out.lines().skip(1).all(|l| l.starts_with("//")), "{out}");
    assert!(
        out.contains("//\n// first\n//\n// second\n// Root Signature:\n// third\n// ===="),
        "{out}"
    );
    assert!(out.contains("// Header hash: 00000000000000000000000000000000\n"), "{out}");
}

#[test]
fn statistics_are_described() {
    let mut s = ShaderStats::default();
    s.raw_size = 148;
    s.instruction_count = 3;
    let b = build_dxbc(&[chunk(b"STAT", &s.write_payload())]);
    let mut out = String::new();
    write_metadata_header(&mut out, &parse(&b)[0]);
    assert!(out.contains("// Statistics:\n//   3 instruction(s)\n"), "{out}");
}

#[test]
fn editable_chunks_are_code() {
    let mut s = ShaderStats::default();
    s.raw_size = 148;
    s.instruction_count = 3;
    let b = build_signed(&[chunk(b"STAT", &s.write_payload())], 1);
    let t = FloatTable::new();
    let text = serialize(&parse(&b)[0], &t);
    assert!(text.contains(".code STAT\nsize=148\nsample_frequency=false\n"), "{text}");
    assert_eq!(assemble(&text, &t).unwrap(), b);
    let edited = text.replace("instructions=3", "instructions=4");
    s.instruction_count = 4;
    assert_eq!(
        assemble(&edited, &t).unwrap(),
        build_signed(&[chunk(b"STAT", &s.write_payload())], 1)
    );
}

#[test]
fn chunks_that_cannot_be_read_stay_raw() {
    let b = build_signed(&[chunk(b"SHEX", &[1, 2, 3]), chunk(b"STAT", &[4])], 1);
    let t = FloatTable::new();
    let text = serialize(&parse(&b)[0], &t);
    assert!(text.contains(".chunk SHEX\n  010203\n.chunk STAT\n  04\n"), "{text}");
    assert_eq!(assemble(&text, &t).unwrap(), b);
}

#[test]
fn container_documents_are_told_apart() {
    assert!(is_container("// a comment\n\n  .dxbc version=1\n"));
    assert!(!is_container("ps_5_0\n"));
    assert!(!is_container("// .dxbc version=1\n"));
}

#[test]
fn comments_and_blank_lines_in_documents() {
    let t = FloatTable::new();
    let plain = ".dxbc version=1\n.chunk PRIV\n  01\n.end\n";
    let noted = "// a\n\n.dxbc version=1 // b\n  .chunk PRIV\n\n 01 // c\n.end\nleft over\n";
    assert_eq!(assemble(noted, &t).unwrap(), assemble(plain, &t).unwrap());
}

#[test]
fn refused_documents() {
    assert_eq!(message("// nothing\n"), "empty container document");
    assert_eq!(message("version=1\n.end\n"), "expected .dxbc directive");
    assert_eq!(message(".dxbc"), "malformed .dxbc directive (missing version=)");
    assert_eq!(message(".dxbc version=x"), "bad version");
    assert_eq!(
        message(".dxbc version=1\nhello"),
        "unexpected directive: \"hello\""
    );
    assert_eq!(
        message(".dxbc version=1\n.chunk ABC"),
        "fourcc must be 4 bytes: \"ABC\""
    );
    assert_eq!(
        message(".dxbc version=1\n.code \"x\""),
        "fourcc must be 4 bytes: \"\\\"x\\\"\""
    );
    assert_eq!(
        message(".dxbc version=1\n.chunk ABCD\n012"),
        "hex block has odd length"
    );
    assert_eq!(message(".dxbc version=1\n.chunk ABCD\n0g"), "bad hex digit");
    assert_eq!(
        message(".dxbc version=1\n.code PRIV\nx"),
        "no text codec for chunk"
    );
    assert_eq!(
        message(".dxbc version=1\n.code STAT\nx"),
        "malformed stat text"
    );
    assert_eq!(
        message(".dxbc version=1\n.code ISGN\nx"),
        "malformed signature text"
    );
    assert_eq!(
        message(".dxbc version=1\n.code RDEF\ntarget x"),
        "malformed rdef hlsl"
    );
    assert_eq!(
        message(".dxbc version=1\n.code RDEF\nhello"),
        "malformed rdef text"
    );
    assert_eq!(
        message(".dxbc version=1\n.code SHEX\n"),
        "empty input: missing profile line"
    );
}

#[test]
fn refused_files() {
    let t = FloatTable::new();
    assert_eq!(
        assemble_all("nothing here", &t).unwrap_err().to_text(),
        "d3dasm parse error: no .dxbc container directive found"
    );
    assert_eq!(
        assemble_file("hello", &t).unwrap_err().message,
        "unexpected directive: \"hello\""
    );
    assert_eq!(assemble_file("", &t).unwrap(), Vec::<u8>::new());
    assert_eq!(assemble_file(".raw\n  0aFF\n", &t).unwrap(), vec![0x0a, 0xff]);
}

#[test]
fn files_without_containers_are_raw() {
    let t = FloatTable::new();
    assert_eq!(serialize_file(&[], &t), "");
    assert_eq!(serialize_file(&[1, 2], &t), ".raw\n  0102\n");
}

#[test]
fn a_broken_checksum_is_mended() {
    let t = FloatTable::new();
    let mut b = build_signed(&[chunk(b"PRIV", &[1])], 1);
    let good = b.clone();
    b[4] ^= 1;
    let text = serialize_file(&b, &t);
    assert_eq!(assemble_file(&text, &t).unwrap(), good);
}

#[test]
fn a_worked_document() {
    let t = FloatTable::new();
    let text = "// ===== header =====\n\
.dxbc version=1\n\
.code RDEF\n\
target ffff0500\n\
flags 100\n\
creator Microsoft (R) HLSL Shader Compiler 10.0.10011.0\n\
rd11 31314452 3c 18 20 28 24 c 0\n\
SamplerState gDirShadowMapSampler : register(s1);\n\
Texture2DArray<float4> gDirShadowMapTexture : register(t0);\n\
cbuffer cbShared : register(b0) flags=userPacked {\n    \
    float4x4 gWorldToProj : packoffset(c0);\n    \
    bool gDirLightEnabled : packoffset(c4);\n\
};\n\
.code ISGN\n\
SV_Position idx=0 reg=0 type=float mask=.xyzw rw=none sv=position\n\
.code SHEX\n\
profile=ps_5_0\n\
dcl_globalFlags refactoringAllowed\n\
dcl_constantbuffer cb0[32].xyzw access=dynamicIndexed\n\
dcl_resource t0 dim=texture2darray rt=float,float,float,float samples=0\n\
sample_res(texture2darray)_rt(float,float,float,float) r6:z, r7.zxwz, t0.yzxw, s1\n\
ret\n\
.code STAT\n\
size=148\n\
sample_frequency=false\n\
instructions=191\n\
.end\n";
    let b = assemble(text, &t).unwrap_or_else(|e| panic!("{}", e.to_text()));
    let shaders = parse(&b);
    assert_eq!(shaders.len(), 1);
    let shader = &shaders[0];
    let codes: Vec<[u8; 4]> = shader.container().chunks.iter().map(|c| c.fourcc).collect();
    assert_eq!(codes, [*b"RDEF", *b"ISGN", *b"SHEX", *b"STAT"]);
    let rd = shader.resource_def().expect("definitions");
    assert_eq!(rd.rd11_extra, Some([0x3131_4452, 0x3c, 0x18, 0x20, 0x28, 0x24, 0xc, 0]));
    assert_eq!(rd.bindings.len(), 3);
    assert_eq!(rd.bindings[1].dimension, 5);
    assert_eq!(rd.constant_buffers[0].variables[1].offset, 64);
    let program = shader.program().expect("program");
    assert_eq!(program.instructions.len(), 5);
    assert_eq!(shader.stats().expect("statistics").instruction_count, 191);
    let again = serialize(shader, &t);
    assert_eq!(assemble(&again, &t).ok(), Some(b.clone()), "{again}");
}
