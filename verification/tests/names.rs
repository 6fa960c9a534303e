//! Numbers and names in text, and what is refused in programs.

use d3dasm::floats::FloatTable;
use d3dasm::generate::gen_program;
use d3dasm::grammar::shex::parse::parse;
use d3dasm::grammar::shex::serialize::serialize;
use d3dasm::numerals::{parse_signed, parse_unsigned, push_dec, push_hex_padded, push_int, push_upper_hex};
use d3dasm::shex::decode::decode_with_fourcc;
use d3dasm::shex::encode::encode;
use d3dasm::shex::ir::{Opcode, RegisterType};

fn chars(s: &str) -> Vec<char> {
    s.chars().collect()
}

#[test]
fn numerals_roundtrip() {
    let mut s = String::new();
    push_dec(&mut s, 1205);
    s.push(' ');
    push_int(&mut s, -8);
    s.push(' ');
    push_hex_padded(&mut s, 0xab, 4);
    s.push(' ');
    push_upper_hex(&mut s, 0xab);
    assert_eq!(s, "1205 -8 00ab AB");
    assert_eq!(parse_unsigned(&chars("1205"), 10, 0xffff_ffff), Some(1205));
    assert_eq!(parse_unsigned(&chars("00aB"), 16, 0xff), Some(0xab));
    assert_eq!(parse_unsigned(&chars("256"), 10, 0xff), None);
    assert_eq!(parse_unsigned(&chars(""), 10, 0xff), None);
    assert_eq!(parse_signed(&chars("-128"), 127), Some(-128));
    assert_eq!(parse_signed(&chars("128"), 127), None);
}

#[test]
fn names_have_numbers() {
    assert_eq!(Opcode::from_u32(0), Opcode::Add);
    assert_eq!(Opcode::from_u32(253), Opcode::Unknown(253));
    assert_eq!(Opcode::Ret.to_u32(), 62);
    assert_eq!(RegisterType::from_u32(41), RegisterType::Unknown(41));
    assert_eq!(RegisterType::from_u32(8).prefix(), "cb");
}

fn refused(text: &str) -> String {
    parse(text, &FloatTable::new()).unwrap_err().message
}

#[test]
fn programs_that_are_refused() {
    assert_eq!(refused(""), "empty input: missing profile line");
    assert_eq!(refused("ps"), "malformed profile line: \"ps\"");
    assert_eq!(refused("xs_5_0"), "unknown shader type: \"xs\"");
    assert_eq!(refused("ps_x_0"), "bad major version: \"x\"");
    assert_eq!(refused("ps_5_x"), "bad minor version: \"x\"");
    assert_eq!(refused("ps_5_0 ABC"), "fourcc must be 4 bytes: \"ABC\"");
    assert_eq!(
        refused("ps_5_0\nfrobnicate"),
        "unknown opcode in mnemonic: \"frobnicate\""
    );
    assert_eq!(refused("ps_5_0\nadds"), "unrecognized mnemonic: \"adds\"");
    assert_eq!(refused("ps_5_0\nadd_xyz"), "unknown modifier: _xyz");
    assert_eq!(
        refused("ps_5_0\nmov r0:x, l(1.5)"),
        "bad float immediate: \"1.5\""
    );
    assert_eq!(refused("ps_5_0\nmov r0:x, l(zz)"), "bad immediate: \"zz\"");
    assert_eq!(refused("ps_5_0\nmov r0.xy"), "expected 1 or 4 swizzle components, got 2");
    assert_eq!(refused("ps_5_0\nmov |r0.x"), "expected closing '|' for abs operand");
    assert_eq!(refused("ps_5_0\nmov r0:xyzw,"), "expected an operand");
    assert_eq!(refused("ps_5_0\nmov r0:xyzw , "), "expected an operand");
    assert_eq!(refused("ps_5_0\nmov r0:xyzw, // nothing"), "expected an operand");
    assert!(parse("ps_5_0\nmov r0:xyzw,, r1.xyzw", &FloatTable::new()).is_err());
    assert!(parse("ps_5_0\nmov , r1.xyzw", &FloatTable::new()).is_err());
    assert_eq!(refused("ps_5_0\nmov cb0[1"), "expected ']' after index");
    assert_eq!(refused("ps_5_0\ndcl_temps x"), "bad number: \"x\"");
    assert_eq!(
        refused("ps_5_0\ndcl_globalFlags x"),
        "unknown global flag: \"x\""
    );
}

#[test]
fn both_spellings_are_read() {
    let t = FloatTable::new();
    let a = "ps_5_0\n\
             dcl_constantbuffer cb0[32].xyzw access(dynamicIndexed)\n\
             dcl_resource texture2d (float,float,float,float) t0.xyzw samples(0)\n\
             mov r0:xyzw, r1.xyzw\n";
    let b = "profile=ps_5_0\n\
             dcl_constantbuffer cb0[32].xyzw access=dynamicIndexed\n\
             dcl_resource t0.xyzw dim=texture2d rt=float,float,float,float samples=0\n\
             mov r0:xyzw r1.xyzw\n";
    assert_eq!(parse(a, &t).unwrap(), parse(b, &t).unwrap());
    assert_eq!(serialize(&parse(b, &t).unwrap(), &t), a);
}

#[test]
fn made_programs() {
    let t = FloatTable::new();
    let p = gen_program(&[]);
    assert_eq!(p.shader_type, "ps");
    assert_eq!(p.minor_version, 0);
    assert_eq!(&p.fourcc, b"SHDR");
    assert_eq!(p.instructions.len(), 1);
    assert_eq!(p.instructions[0].opcode, Opcode::Unknown(218));
    let p = gen_program(&[1, 1, 5, 3]);
    assert_eq!(p.shader_type, "vs");
    assert_eq!(p.instructions.len(), 2);
    assert_eq!(p.instructions[0].opcode, Opcode::Mov);
    for seed in 0u32..200 {
        let mut x = seed.wrapping_mul(2_654_435_761).wrapping_add(12345);
        let mut data = Vec::new();
        for _ in 0..400 {
            x = x.wrapping_mul(1_664_525).wrapping_add(1_013_904_223);
            data.push((x >> 24) as u8);
        }
        let prog = gen_program(&data);
        let bytes = encode(&prog);
        let Some(canon) = decode_with_fourcc(&bytes, prog.fourcc) else {
            continue;
        };
        let text = serialize(&canon, &t);
        let parsed = parse(&text, &t)
            .unwrap_or_else(|e| panic!("parse failed: {}\n{text}", e.to_text()));
        assert_eq!(canon, parsed, "mismatch\n{text}");
        assert_eq!(encode(&canon), encode(&parsed), "mismatch\n{text}");
    }
}
