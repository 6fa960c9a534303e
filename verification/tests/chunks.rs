//! Statistics, signatures and resource definitions.

use d3dasm::chunks::rdef::{
    CBufferDef, CBufferVariable, MemberDesc, ResourceBinding, ResourceDef, ResourceDimension,
    ResourceInputType, TypeDesc,
};
use d3dasm::chunks::rdef_parse::parse_rdef;
use d3dasm::chunks::signature::{
    MinPrecision, Signature, SignatureElement, parse_signature, write_signature,
};
use d3dasm::chunks::stat;
use d3dasm::chunks::stat::{ShaderStats, parse_stat};
use d3dasm::floats::FloatTable;
use d3dasm::grammar::rdef::decode::rdef_from_hlsl;
use d3dasm::grammar::rdef::encode::rdef_to_hlsl;
use d3dasm::grammar::rdef::hlsl::{
    bind_flags_from, bind_flags_str, dim_from_hlsl, dim_to_hlsl, hlsl_type_name, packoffset_parse,
    packoffset_str, parse_default, parse_hlsl_type, parse_name, render_default, ret_from_hlsl,
    ret_to_hlsl,
};
use d3dasm::grammar::rdef::kv::{rdef_from_text, rdef_to_text};
use d3dasm::grammar::signature::{signature_from_text, signature_to_text};
use d3dasm::grammar::stat::{stat_from_text, stat_to_text};

fn stats() -> ShaderStats {
    let mut s = ShaderStats::default();
    s.raw_size = 152;
    s.instruction_count = 191;
    s.texture_store_instructions = 7;
    s.is_sample_frequency = true;
    s.reserved = [1, 2, 3, 4];
    s
}

#[test]
fn stat_text_roundtrip() {
    let s = stats();
    let text = stat_to_text(&s);
    assert!(
        text.starts_with("size=152\nsample_frequency=true\nreserved=1,2,3,4\ninstructions=191\n"),
        "{text}"
    );
    assert_eq!(stat_from_text(&text), Some(s));
}

#[test]
fn spaced_stat_text_roundtrip() {
    let s = stats();
    let text = stat::stat_to_text(&s);
    assert!(
        text.starts_with("size 152\nsample_frequency 1\nreserved 1 2 3 4\ninstructions 191\n"),
        "{text}"
    );
    assert_eq!(stat::stat_from_text(&text), Some(s));
}

#[test]
fn stat_lines_in_any_order() {
    let s = stats();
    for (text, read) in [
        (stat_to_text(&s), stat_from_text as fn(&str) -> Option<ShaderStats>),
        (stat::stat_to_text(&s), stat::stat_from_text),
    ] {
        let mut lines: Vec<&str> = text.lines().collect();
        lines.reverse();
        lines.swap(3, 20);
        assert_eq!(read(&lines.join("\n")), Some(stats()));
        lines.retain(|l| !l.starts_with("instructions"));
        let fewer = read(&lines.join("\n")).unwrap();
        assert_eq!(fewer.instruction_count, 0);
        assert_eq!(fewer.reserved, s.reserved);
        lines.push("unheard_of=1 1");
        assert_eq!(read(&lines.join("\n")), None);
    }
}

#[test]
fn stat_text_that_is_refused() {
    assert_eq!(stat_from_text("size=1\nunknown=2\n"), None);
    assert_eq!(stat_from_text("temps=x\n"), None);
    assert_eq!(stat_from_text("temps\n"), None);
    assert_eq!(stat_from_text("sample_frequency=1\n"), None);
    assert_eq!(stat_from_text("reserved=1,2,3\n"), None);
    let s = stat_from_text(" temps = 5 \n\n").unwrap();
    assert_eq!(s.temp_register_count, 5);
    assert_eq!(s.raw_size, 0);
}

#[test]
fn stat_payload_roundtrip() {
    let s = stats();
    let b = s.write_payload();
    assert_eq!(b.len(), 152);
    assert_eq!(parse_stat(&b), Some(s));
    assert_eq!(parse_stat(&b[..115]), None);
    assert_eq!(&s.fourcc(), b"STAT");
}

fn element(name: &str) -> SignatureElement {
    SignatureElement {
        semantic_name: name.to_string(),
        semantic_index: 2,
        system_value: 1,
        component_type: 3,
        register: 4,
        mask: 0xf,
        rw_mask: 0x3,
        stream: None,
        min_precision: None,
    }
}

#[test]
fn signature_text_roundtrip() {
    let sig = Signature { fourcc: *b"ISGN", elements: vec![element("SV_Position"), element("")] };
    let text = signature_to_text(&sig);
    assert_eq!(
        text,
        "SV_Position idx=2 reg=4 type=float mask=xyzw rw=xy sv=position\n\
         - idx=2 reg=4 type=float mask=xyzw rw=xy sv=position\n"
    );
    assert_eq!(signature_from_text(*b"ISGN", &text), Some(sig));
    assert_eq!(signature_from_text(*b"ISGN", "NAME idx=1\n"), None);
}

#[test]
fn masks_of_signatures() {
    let line = |mask: &str, rw: &str| {
        let text = format!(
            "SV_Position idx=0 reg=0 type=float mask={mask} rw={rw} sv=position\n"
        );
        signature_from_text(*b"ISGN", &text).map(|s| (s.elements[0].mask, s.elements[0].rw_mask))
    };
    assert_eq!(line(".xyzw", "none"), Some((0xf, 0)));
    assert_eq!(line("xz", ".y"), Some((5, 2)));
    assert_eq!(line("0", "f1"), Some((0, 0xf1)));
    assert_eq!(line("xq", "0"), None);
}

#[test]
fn signature_text_of_later_versions() {
    let mut e = element("TEXCOORD");
    e.system_value = 1000;
    e.component_type = 77;
    e.mask = 0;
    e.rw_mask = 0x81;
    e.stream = Some(3);
    e.min_precision = Some(MinPrecision::from_u32(2));
    let sig = Signature { fourcc: *b"OSG1", elements: vec![e] };
    let text = signature_to_text(&sig);
    assert_eq!(
        text,
        "TEXCOORD idx=2 reg=4 type=77 mask=0 rw=81 sv=1000 stream=3 prec=min2_8f\n"
    );
    assert_eq!(signature_from_text(*b"OSG1", &text), Some(sig));
}

#[test]
fn signature_payload_roundtrip() {
    let es = vec![element("SV_Position"), element("TEXCOORD")];
    let b = write_signature(*b"ISGN", &es);
    assert_eq!(b.len() % 4, 0);
    assert_eq!(&b[0..8], &[2, 0, 0, 0, 8, 0, 0, 0]);
    assert_eq!(parse_signature(*b"ISGN", &b), es);
}

fn plain_type(class: u16, var_type: u16, rows: u16, columns: u16, elements: u16) -> TypeDesc {
    TypeDesc {
        class,
        var_type,
        rows,
        columns,
        elements,
        members: Vec::new(),
        sm5_extra: None,
        name: String::new(),
    }
}

fn variable(name: &str, offset: u32, size: u32, var_type: TypeDesc) -> CBufferVariable {
    CBufferVariable {
        name: name.to_string(),
        offset,
        size,
        flags: 2,
        var_type,
        default_value: Vec::new(),
        texture_start: None,
        texture_size: None,
        sampler_start: None,
        sampler_size: None,
    }
}

fn binding(name: &str) -> ResourceBinding {
    ResourceBinding {
        name: name.to_string(),
        input_type: 0,
        return_type: 0,
        dimension: 0,
        num_samples: 0,
        bind_point: 0,
        bind_count: 1,
        flags: 0,
    }
}

fn definitions() -> ResourceDef {
    let mut with_default = variable("gScale", 16, 4, plain_type(0, 3, 1, 1, 0));
    with_default.default_value = vec![0, 0, 0x80, 0x3f];
    let mut pair = plain_type(5, 0, 1, 2, 0);
    pair.members = vec![
        MemberDesc {
            name: "a".to_string(),
            member_type: plain_type(0, 3, 1, 1, 0),
            offset: 0,
        },
        MemberDesc {
            name: "b".to_string(),
            member_type: plain_type(0, 3, 1, 1, 0),
            offset: 4,
        },
    ];
    ResourceDef {
        bindings: vec![binding("cbShared")],
        constant_buffers: vec![CBufferDef {
            name: "cbShared".to_string(),
            variables: vec![
                variable("gColor", 0, 16, plain_type(1, 3, 1, 4, 0)),
                with_default,
                variable("gPair", 32, 8, pair),
            ],
            size: 48,
            flags: 0,
            cb_type: 0,
        }],
        creator: "Microsoft (R) HLSL Shader Compiler".to_string(),
        target_version: 0xffff_0400,
        compile_flags: 0x100,
        rd11_extra: None,
    }
}

#[test]
fn rdef_text_roundtrip() {
    let rd = definitions();
    let text = rdef_to_text(&rd).unwrap();
    assert!(
        text.starts_with(
            "version=0xffff0400\nflags=0x100\ncreator=Microsoft (R) HLSL Shader Compiler\n\
             binding cbShared input=0 return=0 dim=0 samples=0 slot=0 count=1 flags=0\n\
             cbuffer cbShared size=48 flags=0 kind=0\n  var gColor offset=0 size=16 flags=2"
        ),
        "{text}"
    );
    assert!(text.contains(" default=0000803f\n"), "{text}");
    assert!(text.contains("    member b offset=4 class=0"), "{text}");
    assert_eq!(rdef_from_text(&text), Some(rd));
    assert_eq!(rdef_from_text("hello\n"), None);
}

#[test]
fn further_header_in_both_forms() {
    let words = Some([0x3131_4452, 0x3c, 0x18, 0x20, 0x28, 0x24, 0xc, 0]);
    for line in ["rd11 31314452 3c 18 20 28 24 c 0", "rd11=31314452,3c,18,20,28,24,c,0"] {
        let text = format!("version ffff0500\nflags 100\ncreator me\n{line}\n");
        let rd = rdef_from_text(&text).expect(line);
        assert_eq!(rd.rd11_extra, words);
        assert_eq!(rd.creator, "me");
    }
    assert_eq!(rdef_from_text("version ffff0500\nrd11 1 2 3\n"), None);
}

#[test]
fn creators_that_are_empty() {
    for line in ["creator", "creator ", "creator="] {
        let text = format!("version ffff0400\nflags 100\n{line}\n");
        let rd = rdef_from_text(&text).expect(line);
        assert_eq!(rd.creator, "");
        assert_eq!(rd.compile_flags, 0x100);
        assert_eq!(rdef_from_text(&rdef_to_text(&rd).unwrap()), Some(rd));
    }
    assert_eq!(rdef_from_text("version ffff0400\ncreators\n"), None);
}

#[test]
fn nested_structs_have_no_key_value_text() {
    let mut rd = definitions();
    let outer = &mut rd.constant_buffers[0].variables[2].var_type;
    let mut inner = plain_type(5, 0, 1, 1, 0);
    inner.members = vec![MemberDesc {
        name: "x".to_string(),
        member_type: plain_type(0, 3, 1, 1, 0),
        offset: 0,
    }];
    outer.members[0].member_type = inner;
    assert_eq!(rdef_to_text(&rd), None);
}

#[test]
fn rdef_payload_roundtrip() {
    let rd = definitions();
    let b = rd.write_payload();
    assert_eq!(b.len() % 4, 0);
    assert_eq!(parse_rdef(&b), Some(rd));
    assert_eq!(parse_rdef(&b[..27]), None);
    assert_eq!(&definitions().fourcc(), b"RDEF");
}

#[test]
fn rdef_hlsl_roundtrip() {
    let mut t = FloatTable::new();
    t.push(0x3f80_0000, "1.0".to_string(), "1".to_string());
    let mut rd = definitions();
    assert_eq!(rdef_to_hlsl(&rd, None, &t), None);
    let vars = &mut rd.constant_buffers[0].variables;
    vars[0].var_type.name = "float4".to_string();
    vars[1].var_type.name = "float".to_string();
    vars[2].var_type.name = "Pair".to_string();
    for m in &mut vars[2].var_type.members {
        m.member_type.name = "float".to_string();
    }
    let text = rdef_to_hlsl(&rd, None, &t).expect("an HLSL form");
    assert!(text.starts_with("target"), "{text}");
    assert!(text.contains("float4 gColor"), "{text}");
    let back = rdef_from_hlsl(&text, None, &t).expect("readable");
    assert_eq!(back.write_payload(), rd.write_payload(), "{text}");

    // What would not read back has no such form.
    let none = |creator: &str, buffers: Vec<CBufferDef>| ResourceDef {
        constant_buffers: buffers,
        bindings: Vec::new(),
        creator: creator.to_string(),
        target_version: 0xffff_0400,
        compile_flags: 0,
        rd11_extra: None,
    };
    assert!(rdef_to_hlsl(&none("x", Vec::new()), None, &t).is_some());
    assert_eq!(rdef_to_hlsl(&none("x\n}", Vec::new()), None, &t), None);
    let lone = CBufferDef {
        name: "A".to_string(),
        variables: Vec::new(),
        size: 5,
        flags: 0,
        cb_type: 0,
    };
    assert_eq!(rdef_to_hlsl(&none("x", vec![lone]), None, &t), None);
}

#[test]
fn names_of_resource_kinds() {
    assert_eq!(ResourceInputType::from_u32(2).unwrap().name(), "texture");
    assert_eq!(ResourceDimension::from_u32(4).unwrap().name(), "2d");
    let mut b = binding("gTex");
    b.input_type = 2;
    b.dimension = 4;
    b.bind_point = 3;
    let mut s = String::new();
    b.fmt_columns(&mut s);
    assert_eq!(s, "texture      2d       3    1    ");
}

#[test]
fn packoffsets_and_flags_roundtrip() {
    let chars = |s: String| s.chars().collect::<Vec<char>>();
    assert_eq!(packoffset_str(0).as_deref(), Some("c0"));
    assert_eq!(packoffset_str(36).as_deref(), Some("c2.y"));
    assert_eq!(packoffset_str(3), None);
    for offset in [0, 4, 8, 12, 16, 0xffff_fffc] {
        let s = packoffset_str(offset).expect("no text");
        assert_eq!(packoffset_parse(&chars(s)), Some(offset));
    }
    assert_eq!(bind_flags_str(0), "0");
    assert_eq!(bind_flags_str(3), "userPacked|comparisonSampler");
    for flags in [0, 1, 0x1F, 0x20, 0x41, 0xffff_ffff] {
        assert_eq!(bind_flags_from(&chars(bind_flags_str(flags))), Some(flags));
    }
}

#[test]
fn names_of_dimensions_and_types_roundtrip() {
    assert_eq!(dim_to_hlsl(4), Some("Texture2D"));
    assert_eq!(dim_to_hlsl(11), None);
    for d in 1..=10 {
        let name: Vec<char> = dim_to_hlsl(d).expect("no name").chars().collect();
        assert_eq!(dim_from_hlsl(&name), Some(d));
    }
    assert_eq!(ret_to_hlsl(5), Some("float4"));
    for r in 1..=7 {
        let name: Vec<char> = ret_to_hlsl(r).expect("no name").chars().collect();
        assert_eq!(ret_from_hlsl(&name), Some(r));
    }
    for (t, text) in [
        (plain_type(0, 3, 1, 1, 0), "float"),
        (plain_type(1, 19, 1, 3, 0), "uint3"),
        (plain_type(3, 3, 4, 2, 5), "float4x2[5]"),
    ] {
        assert_eq!(hlsl_type_name(&t).as_deref(), Some(text));
        let chars: Vec<char> = text.chars().collect();
        let (stem, elements) = parse_name(&chars).expect("no name");
        let shape = parse_hlsl_type(stem).expect("no type");
        assert_eq!(elements, t.elements);
        assert_eq!(
            (shape.class, shape.base, shape.rows, shape.cols),
            (t.class, t.var_type, t.rows, t.columns)
        );
    }
}

#[test]
fn default_values_roundtrip() {
    let ft = FloatTable::new();
    let vector = plain_type(1, 2, 1, 2, 0);
    let b = vec![1, 0, 0, 0, 0xff, 0xff, 0xff, 0xff];
    let text = render_default(&vector, &b, &ft).expect("no text");
    assert_eq!(text, "int2(1,-1)");
    let chars: Vec<char> = text.chars().collect();
    assert_eq!(parse_default(&vector, &chars, &ft), Some(b));

    let scalar = plain_type(0, 2, 1, 1, 0);
    assert_eq!(render_default(&scalar, &vec![1, 0, 0, 0], &ft).as_deref(), Some("1"));
    assert_eq!(render_default(&scalar, &vec![1, 0, 0, 0, 9, 0, 0, 0], &ft), None);

    let array = plain_type(0, 19, 1, 1, 2);
    let mut b = vec![0; 20];
    b[0] = 7;
    b[16] = 9;
    let text = render_default(&array, &b, &ft).expect("no text");
    assert_eq!(text, "{7,9}");
    let chars: Vec<char> = text.chars().collect();
    assert_eq!(parse_default(&array, &chars, &ft), Some(b.clone()));
    b[5] = 1;
    assert_eq!(render_default(&array, &b, &ft), None);

    let mut ft = FloatTable::new();
    ft.push(0x3fc0_0000, String::from("1.5"), String::from("1.5"));
    ft.push(0x7fc0_0000, String::from("NaN"), String::from("NaN"));
    let pair = plain_type(1, 3, 1, 2, 0);
    let b = vec![0, 0, 0xc0, 0x3f, 0, 0, 0xc0, 0x7f];
    let text = render_default(&pair, &b, &ft).expect("no text");
    assert_eq!(text, "float2(1.5,NaN)");
    let chars: Vec<char> = text.chars().collect();
    assert_eq!(parse_default(&pair, &chars, &ft), Some(b));
}
