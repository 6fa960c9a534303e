//! The numbers behind names in bytecode.

use vstd::prelude::*;

use crate::grammar::tables::{
    NameTable, cb_access, dimensions, global_flags, interpolations, sampler_modes, shader_types,
    system_values, table_name, table_value, tess_domains, tess_output_prims, tess_partitionings,
};
use crate::roundtrip::bytecode::{lemma_masks, lemma_six_bits, lemma_version_word};
use crate::roundtrip::bytecode_fields::{
    first_word, flag_number, lemma_field, lemma_first_word, lemma_flag as lemma_flag_name,
    lemma_flag_bit, lemma_low_field, lemma_one_bit, lemma_two_fields, lemma_types, middle,
    types_fit,
};
use crate::roundtrip::recoded::lemma_flag_number;
use crate::roundtrip::signatures::{lemma_system_value_key, system_value_key};
use crate::roundtrip::tables::{
    dimension_key, is_entry, lemma_dimension_keys, lemma_keyed, lemma_name_and_number,
    lemma_number_name,
};
use crate::shex::decode::types_of;
use crate::shex::encode::{
    code_of, control_bits, instruction_words, primitive_code, program_words, sv_words,
    takes_modifiers, topology_code, types_word,
};
use crate::shex::ir::{
    GsOutputTopology, GsPrimitive, InstructionModel, KindModel, ProgramModel, ReturnType,
};

verus! {

/// The bits of a word from number `from` on, as many as the mask has.
pub open spec fn bits(w: u32, from: u32, mask: u32) -> u32 {
    (w >> from) & mask
}

/// The first word of an instruction.
pub open spec fn first(i: InstructionModel) -> u32 {
    instruction_words(i)[0]
}

/// Whether the words of the instruction can be counted, and its opcode fits.
pub open spec fn sized(i: InstructionModel) -> bool {
    i.opcode.spec_to_u32() <= 0x7FF && instruction_words(i).len() <= 0x7F
}

/// The bits between opcode and length are those that the declaration sets.
proof fn lemma_middle(i: InstructionModel)
    requires
        sized(i),
        !(i.kind is CustomData),
        !takes_modifiers(i.kind),
        middle(control_bits(i.kind)) == control_bits(i.kind),
    ensures
        middle(first(i)) == control_bits(i.kind),
{
    let n = instruction_words(i).len() as u32;
    lemma_first_word(i.opcode.spec_to_u32(), control_bits(i.kind), n, 0);
    assert(first(i) == first_word(i.opcode.spec_to_u32(), control_bits(i.kind), n, 0));
}

/// A number behind the opcode in the first word of a declaration.
proof fn lemma_low(i: InstructionModel, v: u32, m: u32)
    requires
        sized(i),
        !(i.kind is CustomData),
        !takes_modifiers(i.kind),
        control_bits(i.kind) == v << 11,
        v <= m,
        m == 1 || m == 3 || m == 7 || m == 0xF || m == 0x1F || m == 0x3F || m == 0x7F,
    ensures
        bits(first(i), 11, m) == v,
{
    lemma_low_field(first(i), v, m);
    lemma_middle(i);
}

/// Two numbers behind the opcode in the first word of a declaration.
proof fn lemma_pair(i: InstructionModel, d: u32, v: u32)
    requires
        sized(i),
        !(i.kind is CustomData),
        !takes_modifiers(i.kind),
        control_bits(i.kind) == (d << 11) | (v << 16),
        d <= 0x1F,
        v <= 0xFF,
    ensures
        bits(first(i), 11, 0x1F) == d,
        bits(first(i), 16, 0xFF) == v,
        v <= 0x7F ==> bits(first(i), 16, 0x7F) == v,
{
    lemma_two_fields(first(i), d, v);
    lemma_middle(i);
}

/// The first entry with a name gives the name its number.
proof fn lemma_entry_number(t: NameTable, i: int)
    requires
        0 <= i < t.len(),
        forall|j: int| 0 <= j < i ==> (#[trigger] t[j]).0 != t[i].0,
    ensures
        table_value(t, t[i].0) == Some(t[i].1),
    decreases i,
{
    if i > 0 {
        assert(t[0].0 != t[i].0);
        let u = t.skip(1);
        assert forall|j: int| 0 <= j < i - 1 implies (#[trigger] u[j]).0 != u[i - 1].0 by {
            assert(t[j + 1].0 != t[i].0);
        }
        lemma_entry_number(u, i - 1);
        assert(u[i - 1] == t[i]);
    }
}

/// The numbers of the names in this table.
proof fn lemma_shader_types()
    ensures
        table_value(shader_types(), "ps"@) == Some(0u32),
        table_value(shader_types(), "vs"@) == Some(1u32),
        table_value(shader_types(), "gs"@) == Some(2u32),
        table_value(shader_types(), "hs"@) == Some(3u32),
        table_value(shader_types(), "ds"@) == Some(4u32),
        table_value(shader_types(), "cs"@) == Some(5u32),
        table_name(shader_types(), 0) == Some("ps"@),
        table_name(shader_types(), 1) == Some("vs"@),
        table_name(shader_types(), 2) == Some("gs"@),
        table_name(shader_types(), 3) == Some("hs"@),
        table_name(shader_types(), 4) == Some("ds"@),
        table_name(shader_types(), 5) == Some("cs"@),
{
    reveal_strlit("ps");
    reveal_strlit("vs");
    reveal_strlit("gs");
    reveal_strlit("hs");
    reveal_strlit("ds");
    reveal_strlit("cs");
    assert("ps"@[0] == 'p' && "vs"@[0] == 'v');
    assert("ps"@[0] == 'p' && "gs"@[0] == 'g');
    assert("vs"@[0] == 'v' && "gs"@[0] == 'g');
    assert("ps"@[0] == 'p' && "hs"@[0] == 'h');
    assert("vs"@[0] == 'v' && "hs"@[0] == 'h');
    assert("gs"@[0] == 'g' && "hs"@[0] == 'h');
    assert("ps"@[0] == 'p' && "ds"@[0] == 'd');
    assert("vs"@[0] == 'v' && "ds"@[0] == 'd');
    assert("gs"@[0] == 'g' && "ds"@[0] == 'd');
    assert("hs"@[0] == 'h' && "ds"@[0] == 'd');
    assert("ps"@[0] == 'p' && "cs"@[0] == 'c');
    assert("vs"@[0] == 'v' && "cs"@[0] == 'c');
    assert("gs"@[0] == 'g' && "cs"@[0] == 'c');
    assert("hs"@[0] == 'h' && "cs"@[0] == 'c');
    assert("ds"@[0] == 'd' && "cs"@[0] == 'c');
    let t = shader_types();
    assert(t[0].0 == "ps"@);
    assert(t[1].0 == "vs"@);
    assert(t[2].0 == "gs"@);
    assert(t[3].0 == "hs"@);
    assert(t[4].0 == "ds"@);
    assert(t[5].0 == "cs"@);
    lemma_entry_number(t, 0);
    assert forall|j: int| 0 <= j < 1 implies (#[trigger] t[j]).0 != t[1].0 by {
        assert(j == 0);
    }
    lemma_entry_number(t, 1);
    assert forall|j: int| 0 <= j < 2 implies (#[trigger] t[j]).0 != t[2].0 by {
        assert(j == 0 || j == 1);
    }
    lemma_entry_number(t, 2);
    assert forall|j: int| 0 <= j < 3 implies (#[trigger] t[j]).0 != t[3].0 by {
        assert(j == 0 || j == 1 || j == 2);
    }
    lemma_entry_number(t, 3);
    assert forall|j: int| 0 <= j < 4 implies (#[trigger] t[j]).0 != t[4].0 by {
        assert(j == 0 || j == 1 || j == 2 || j == 3);
    }
    lemma_entry_number(t, 4);
    assert forall|j: int| 0 <= j < 5 implies (#[trigger] t[j]).0 != t[5].0 by {
        assert(j == 0 || j == 1 || j == 2 || j == 3 || j == 4);
    }
    lemma_entry_number(t, 5);
    lemma_number_name(t, 0);
    lemma_number_name(t, 1);
    lemma_number_name(t, 2);
    lemma_number_name(t, 3);
    lemma_number_name(t, 4);
    lemma_number_name(t, 5);
}

/// The numbers of the names in this table.
proof fn lemma_interpolations()
    ensures
        table_value(interpolations(), "undefined"@) == Some(0u32),
        table_value(interpolations(), "constant"@) == Some(1u32),
        table_value(interpolations(), "linear"@) == Some(2u32),
        table_value(interpolations(), "linearCentroid"@) == Some(3u32),
        table_value(interpolations(), "linearNoperspective"@) == Some(4u32),
        table_value(interpolations(), "linearNoperspectiveCentroid"@) == Some(5u32),
        table_value(interpolations(), "linearSample"@) == Some(6u32),
        table_value(interpolations(), "linearNoperspectiveSample"@) == Some(7u32),
        table_name(interpolations(), 0) == Some("undefined"@),
        table_name(interpolations(), 1) == Some("constant"@),
        table_name(interpolations(), 2) == Some("linear"@),
        table_name(interpolations(), 3) == Some("linearCentroid"@),
        table_name(interpolations(), 4) == Some("linearNoperspective"@),
        table_name(interpolations(), 5) == Some("linearNoperspectiveCentroid"@),
        table_name(interpolations(), 6) == Some("linearSample"@),
        table_name(interpolations(), 7) == Some("linearNoperspectiveSample"@),
{
    reveal_strlit("undefined");
    reveal_strlit("constant");
    reveal_strlit("linear");
    reveal_strlit("linearCentroid");
    reveal_strlit("linearNoperspective");
    reveal_strlit("linearNoperspectiveCentroid");
    reveal_strlit("linearSample");
    reveal_strlit("linearNoperspectiveSample");
    let t = interpolations();
    assert(t[0].0 == "undefined"@);
    assert(t[1].0 == "constant"@);
    assert(t[2].0 == "linear"@);
    assert(t[3].0 == "linearCentroid"@);
    assert(t[4].0 == "linearNoperspective"@);
    assert(t[5].0 == "linearNoperspectiveCentroid"@);
    assert(t[6].0 == "linearSample"@);
    assert(t[7].0 == "linearNoperspectiveSample"@);
    lemma_entry_number(t, 0);
    assert forall|j: int| 0 <= j < 1 implies (#[trigger] t[j]).0 != t[1].0 by {
        assert(j == 0);
    }
    lemma_entry_number(t, 1);
    assert forall|j: int| 0 <= j < 2 implies (#[trigger] t[j]).0 != t[2].0 by {
        assert(j == 0 || j == 1);
    }
    lemma_entry_number(t, 2);
    assert forall|j: int| 0 <= j < 3 implies (#[trigger] t[j]).0 != t[3].0 by {
        assert(j == 0 || j == 1 || j == 2);
    }
    lemma_entry_number(t, 3);
    assert forall|j: int| 0 <= j < 4 implies (#[trigger] t[j]).0 != t[4].0 by {
        assert(j == 0 || j == 1 || j == 2 || j == 3);
    }
    lemma_entry_number(t, 4);
    assert forall|j: int| 0 <= j < 5 implies (#[trigger] t[j]).0 != t[5].0 by {
        assert(j == 0 || j == 1 || j == 2 || j == 3 || j == 4);
    }
    lemma_entry_number(t, 5);
    assert forall|j: int| 0 <= j < 6 implies (#[trigger] t[j]).0 != t[6].0 by {
        assert(j == 0 || j == 1 || j == 2 || j == 3 || j == 4 || j == 5);
    }
    lemma_entry_number(t, 6);
    assert forall|j: int| 0 <= j < 7 implies (#[trigger] t[j]).0 != t[7].0 by {
        assert(j == 0 || j == 1 || j == 2 || j == 3 || j == 4 || j == 5 || j == 6);
    }
    lemma_entry_number(t, 7);
    lemma_number_name(t, 0);
    lemma_number_name(t, 1);
    lemma_number_name(t, 2);
    lemma_number_name(t, 3);
    lemma_number_name(t, 4);
    lemma_number_name(t, 5);
    lemma_number_name(t, 6);
    lemma_number_name(t, 7);
}

/// The numbers of the names in this table.
proof fn lemma_dimensions()
    ensures
        table_value(dimensions(), "buffer"@) == Some(1u32),
        table_value(dimensions(), "texture1d"@) == Some(2u32),
        table_value(dimensions(), "texture2d"@) == Some(3u32),
        table_value(dimensions(), "texture2dms"@) == Some(4u32),
        table_value(dimensions(), "texture3d"@) == Some(5u32),
        table_value(dimensions(), "texturecube"@) == Some(6u32),
        table_value(dimensions(), "texture1darray"@) == Some(7u32),
        table_value(dimensions(), "texture2darray"@) == Some(8u32),
        table_value(dimensions(), "texture2dmsarray"@) == Some(9u32),
        table_value(dimensions(), "texturecubearray"@) == Some(10u32),
        table_value(dimensions(), "raw_buffer"@) == Some(11u32),
        table_value(dimensions(), "structured_buffer"@) == Some(12u32),
        table_name(dimensions(), 1) == Some("buffer"@),
        table_name(dimensions(), 2) == Some("texture1d"@),
        table_name(dimensions(), 3) == Some("texture2d"@),
        table_name(dimensions(), 4) == Some("texture2dms"@),
        table_name(dimensions(), 5) == Some("texture3d"@),
        table_name(dimensions(), 6) == Some("texturecube"@),
        table_name(dimensions(), 7) == Some("texture1darray"@),
        table_name(dimensions(), 8) == Some("texture2darray"@),
        table_name(dimensions(), 9) == Some("texture2dmsarray"@),
        table_name(dimensions(), 10) == Some("texturecubearray"@),
        table_name(dimensions(), 11) == Some("raw_buffer"@),
        table_name(dimensions(), 12) == Some("structured_buffer"@),
{
    lemma_dimension_keys();
    let t = dimensions();
    let key = |s: Seq<char>| dimension_key(s);
    assert(t[0].0 == "buffer"@);
    lemma_keyed(t, key, "buffer"@);
    assert(key(t[0].0) == t[0].1);
    assert(t[1].0 == "texture1d"@);
    lemma_keyed(t, key, "texture1d"@);
    assert(key(t[1].0) == t[1].1);
    assert(t[2].0 == "texture2d"@);
    lemma_keyed(t, key, "texture2d"@);
    assert(key(t[2].0) == t[2].1);
    assert(t[3].0 == "texture2dms"@);
    lemma_keyed(t, key, "texture2dms"@);
    assert(key(t[3].0) == t[3].1);
    assert(t[4].0 == "texture3d"@);
    lemma_keyed(t, key, "texture3d"@);
    assert(key(t[4].0) == t[4].1);
    assert(t[5].0 == "texturecube"@);
    lemma_keyed(t, key, "texturecube"@);
    assert(key(t[5].0) == t[5].1);
    assert(t[6].0 == "texture1darray"@);
    lemma_keyed(t, key, "texture1darray"@);
    assert(key(t[6].0) == t[6].1);
    assert(t[7].0 == "texture2darray"@);
    lemma_keyed(t, key, "texture2darray"@);
    assert(key(t[7].0) == t[7].1);
    assert(t[8].0 == "texture2dmsarray"@);
    lemma_keyed(t, key, "texture2dmsarray"@);
    assert(key(t[8].0) == t[8].1);
    assert(t[9].0 == "texturecubearray"@);
    lemma_keyed(t, key, "texturecubearray"@);
    assert(key(t[9].0) == t[9].1);
    assert(t[10].0 == "raw_buffer"@);
    lemma_keyed(t, key, "raw_buffer"@);
    assert(key(t[10].0) == t[10].1);
    assert(t[11].0 == "structured_buffer"@);
    lemma_keyed(t, key, "structured_buffer"@);
    assert(key(t[11].0) == t[11].1);
    lemma_number_name(t, 0);
    lemma_number_name(t, 1);
    lemma_number_name(t, 2);
    lemma_number_name(t, 3);
    lemma_number_name(t, 4);
    lemma_number_name(t, 5);
    lemma_number_name(t, 6);
    lemma_number_name(t, 7);
    lemma_number_name(t, 8);
    lemma_number_name(t, 9);
    lemma_number_name(t, 10);
    lemma_number_name(t, 11);
}

/// The numbers of the names in this table.
proof fn lemma_sampler_modes()
    ensures
        table_value(sampler_modes(), "default"@) == Some(0u32),
        table_value(sampler_modes(), "comparison"@) == Some(1u32),
        table_value(sampler_modes(), "mono"@) == Some(2u32),
        table_name(sampler_modes(), 0) == Some("default"@),
        table_name(sampler_modes(), 1) == Some("comparison"@),
        table_name(sampler_modes(), 2) == Some("mono"@),
{
    reveal_strlit("default");
    reveal_strlit("comparison");
    reveal_strlit("mono");
    let t = sampler_modes();
    assert(t[0].0 == "default"@);
    assert(t[1].0 == "comparison"@);
    assert(t[2].0 == "mono"@);
    lemma_entry_number(t, 0);
    assert forall|j: int| 0 <= j < 1 implies (#[trigger] t[j]).0 != t[1].0 by {
        assert(j == 0);
    }
    lemma_entry_number(t, 1);
    assert forall|j: int| 0 <= j < 2 implies (#[trigger] t[j]).0 != t[2].0 by {
        assert(j == 0 || j == 1);
    }
    lemma_entry_number(t, 2);
    lemma_number_name(t, 0);
    lemma_number_name(t, 1);
    lemma_number_name(t, 2);
}

/// The numbers of the names in this table.
proof fn lemma_cb_access()
    ensures
        table_value(cb_access(), "immediateIndexed"@) == Some(0u32),
        table_value(cb_access(), "dynamicIndexed"@) == Some(1u32),
        table_name(cb_access(), 0) == Some("immediateIndexed"@),
        table_name(cb_access(), 1) == Some("dynamicIndexed"@),
{
    reveal_strlit("immediateIndexed");
    reveal_strlit("dynamicIndexed");
    let t = cb_access();
    assert(t[0].0 == "immediateIndexed"@);
    assert(t[1].0 == "dynamicIndexed"@);
    lemma_entry_number(t, 0);
    assert forall|j: int| 0 <= j < 1 implies (#[trigger] t[j]).0 != t[1].0 by {
        assert(j == 0);
    }
    lemma_entry_number(t, 1);
    lemma_number_name(t, 0);
    lemma_number_name(t, 1);
}

/// The numbers of the names in this table.
proof fn lemma_tess_domains()
    ensures
        table_value(tess_domains(), "undefined"@) == Some(0u32),
        table_value(tess_domains(), "isoline"@) == Some(1u32),
        table_value(tess_domains(), "tri"@) == Some(2u32),
        table_value(tess_domains(), "quad"@) == Some(3u32),
        table_name(tess_domains(), 0) == Some("undefined"@),
        table_name(tess_domains(), 1) == Some("isoline"@),
        table_name(tess_domains(), 2) == Some("tri"@),
        table_name(tess_domains(), 3) == Some("quad"@),
{
    reveal_strlit("undefined");
    reveal_strlit("isoline");
    reveal_strlit("tri");
    reveal_strlit("quad");
    let t = tess_domains();
    assert(t[0].0 == "undefined"@);
    assert(t[1].0 == "isoline"@);
    assert(t[2].0 == "tri"@);
    assert(t[3].0 == "quad"@);
    lemma_entry_number(t, 0);
    assert forall|j: int| 0 <= j < 1 implies (#[trigger] t[j]).0 != t[1].0 by {
        assert(j == 0);
    }
    lemma_entry_number(t, 1);
    assert forall|j: int| 0 <= j < 2 implies (#[trigger] t[j]).0 != t[2].0 by {
        assert(j == 0 || j == 1);
    }
    lemma_entry_number(t, 2);
    assert forall|j: int| 0 <= j < 3 implies (#[trigger] t[j]).0 != t[3].0 by {
        assert(j == 0 || j == 1 || j == 2);
    }
    lemma_entry_number(t, 3);
    lemma_number_name(t, 0);
    lemma_number_name(t, 1);
    lemma_number_name(t, 2);
    lemma_number_name(t, 3);
}

/// The numbers of the names in this table.
proof fn lemma_tess_partitionings()
    ensures
        table_value(tess_partitionings(), "undefined"@) == Some(0u32),
        table_value(tess_partitionings(), "integer"@) == Some(1u32),
        table_value(tess_partitionings(), "pow2"@) == Some(2u32),
        table_value(tess_partitionings(), "fractional_odd"@) == Some(3u32),
        table_value(tess_partitionings(), "fractional_even"@) == Some(4u32),
        table_name(tess_partitionings(), 0) == Some("undefined"@),
        table_name(tess_partitionings(), 1) == Some("integer"@),
        table_name(tess_partitionings(), 2) == Some("pow2"@),
        table_name(tess_partitionings(), 3) == Some("fractional_odd"@),
        table_name(tess_partitionings(), 4) == Some("fractional_even"@),
{
    reveal_strlit("undefined");
    reveal_strlit("integer");
    reveal_strlit("pow2");
    reveal_strlit("fractional_odd");
    reveal_strlit("fractional_even");
    let t = tess_partitionings();
    assert(t[0].0 == "undefined"@);
    assert(t[1].0 == "integer"@);
    assert(t[2].0 == "pow2"@);
    assert(t[3].0 == "fractional_odd"@);
    assert(t[4].0 == "fractional_even"@);
    lemma_entry_number(t, 0);
    assert forall|j: int| 0 <= j < 1 implies (#[trigger] t[j]).0 != t[1].0 by {
        assert(j == 0);
    }
    lemma_entry_number(t, 1);
    assert forall|j: int| 0 <= j < 2 implies (#[trigger] t[j]).0 != t[2].0 by {
        assert(j == 0 || j == 1);
    }
    lemma_entry_number(t, 2);
    assert forall|j: int| 0 <= j < 3 implies (#[trigger] t[j]).0 != t[3].0 by {
        assert(j == 0 || j == 1 || j == 2);
    }
    lemma_entry_number(t, 3);
    assert forall|j: int| 0 <= j < 4 implies (#[trigger] t[j]).0 != t[4].0 by {
        assert(j == 0 || j == 1 || j == 2 || j == 3);
    }
    lemma_entry_number(t, 4);
    lemma_number_name(t, 0);
    lemma_number_name(t, 1);
    lemma_number_name(t, 2);
    lemma_number_name(t, 3);
    lemma_number_name(t, 4);
}

/// The numbers of the names in this table.
proof fn lemma_tess_output_prims()
    ensures
        table_value(tess_output_prims(), "undefined"@) == Some(0u32),
        table_value(tess_output_prims(), "point"@) == Some(1u32),
        table_value(tess_output_prims(), "line"@) == Some(2u32),
        table_value(tess_output_prims(), "triangle_cw"@) == Some(3u32),
        table_value(tess_output_prims(), "triangle_ccw"@) == Some(4u32),
        table_name(tess_output_prims(), 0) == Some("undefined"@),
        table_name(tess_output_prims(), 1) == Some("point"@),
        table_name(tess_output_prims(), 2) == Some("line"@),
        table_name(tess_output_prims(), 3) == Some("triangle_cw"@),
        table_name(tess_output_prims(), 4) == Some("triangle_ccw"@),
{
    reveal_strlit("undefined");
    reveal_strlit("point");
    reveal_strlit("line");
    reveal_strlit("triangle_cw");
    reveal_strlit("triangle_ccw");
    let t = tess_output_prims();
    assert(t[0].0 == "undefined"@);
    assert(t[1].0 == "point"@);
    assert(t[2].0 == "line"@);
    assert(t[3].0 == "triangle_cw"@);
    assert(t[4].0 == "triangle_ccw"@);
    lemma_entry_number(t, 0);
    assert forall|j: int| 0 <= j < 1 implies (#[trigger] t[j]).0 != t[1].0 by {
        assert(j == 0);
    }
    lemma_entry_number(t, 1);
    assert forall|j: int| 0 <= j < 2 implies (#[trigger] t[j]).0 != t[2].0 by {
        assert(j == 0 || j == 1);
    }
    lemma_entry_number(t, 2);
    assert forall|j: int| 0 <= j < 3 implies (#[trigger] t[j]).0 != t[3].0 by {
        assert(j == 0 || j == 1 || j == 2);
    }
    lemma_entry_number(t, 3);
    assert forall|j: int| 0 <= j < 4 implies (#[trigger] t[j]).0 != t[4].0 by {
        assert(j == 0 || j == 1 || j == 2 || j == 3);
    }
    lemma_entry_number(t, 4);
    lemma_number_name(t, 0);
    lemma_number_name(t, 1);
    lemma_number_name(t, 2);
    lemma_number_name(t, 3);
    lemma_number_name(t, 4);
}

/// The numbers of the names in this table.
proof fn lemma_system_values()
    ensures
        table_value(system_values(), "undefined"@) == Some(0u32),
        table_value(system_values(), "position"@) == Some(1u32),
        table_value(system_values(), "clip_distance"@) == Some(2u32),
        table_value(system_values(), "cull_distance"@) == Some(3u32),
        table_value(system_values(), "render_target_array_index"@) == Some(4u32),
        table_value(system_values(), "viewport_array_index"@) == Some(5u32),
        table_value(system_values(), "vertex_id"@) == Some(6u32),
        table_value(system_values(), "primitive_id"@) == Some(7u32),
        table_value(system_values(), "instance_id"@) == Some(8u32),
        table_value(system_values(), "is_front_face"@) == Some(9u32),
        table_value(system_values(), "sample_index"@) == Some(10u32),
        table_value(system_values(), "finalQuadUeq0EdgeTessFactor"@) == Some(11u32),
        table_value(system_values(), "finalQuadVeq0EdgeTessFactor"@) == Some(12u32),
        table_value(system_values(), "finalQuadUeq1EdgeTessFactor"@) == Some(13u32),
        table_value(system_values(), "finalQuadVeq1EdgeTessFactor"@) == Some(14u32),
        table_value(system_values(), "finalQuadUInsideTessFactor"@) == Some(15u32),
        table_value(system_values(), "finalQuadVInsideTessFactor"@) == Some(16u32),
        table_value(system_values(), "finalTriUeq0EdgeTessFactor"@) == Some(17u32),
        table_value(system_values(), "finalTriVeq0EdgeTessFactor"@) == Some(18u32),
        table_value(system_values(), "finalTriWeq0EdgeTessFactor"@) == Some(19u32),
        table_value(system_values(), "finalTriInsideTessFactor"@) == Some(20u32),
        table_value(system_values(), "finalLineDetailTessFactor"@) == Some(21u32),
        table_value(system_values(), "finalLineDensityTessFactor"@) == Some(22u32),
        table_value(system_values(), "target"@) == Some(64u32),
        table_value(system_values(), "depth"@) == Some(65u32),
        table_value(system_values(), "coverage"@) == Some(66u32),
        table_value(system_values(), "depth_greater_equal"@) == Some(67u32),
        table_value(system_values(), "depth_less_equal"@) == Some(68u32),
        table_value(system_values(), "stencil_ref"@) == Some(69u32),
        table_value(system_values(), "inner_coverage"@) == Some(70u32),
        table_name(system_values(), 0) == Some("undefined"@),
        table_name(system_values(), 1) == Some("position"@),
        table_name(system_values(), 2) == Some("clip_distance"@),
        table_name(system_values(), 3) == Some("cull_distance"@),
        table_name(system_values(), 4) == Some("render_target_array_index"@),
        table_name(system_values(), 5) == Some("viewport_array_index"@),
        table_name(system_values(), 6) == Some("vertex_id"@),
        table_name(system_values(), 7) == Some("primitive_id"@),
        table_name(system_values(), 8) == Some("instance_id"@),
        table_name(system_values(), 9) == Some("is_front_face"@),
        table_name(system_values(), 10) == Some("sample_index"@),
        table_name(system_values(), 11) == Some("finalQuadUeq0EdgeTessFactor"@),
        table_name(system_values(), 12) == Some("finalQuadVeq0EdgeTessFactor"@),
        table_name(system_values(), 13) == Some("finalQuadUeq1EdgeTessFactor"@),
        table_name(system_values(), 14) == Some("finalQuadVeq1EdgeTessFactor"@),
        table_name(system_values(), 15) == Some("finalQuadUInsideTessFactor"@),
        table_name(system_values(), 16) == Some("finalQuadVInsideTessFactor"@),
        table_name(system_values(), 17) == Some("finalTriUeq0EdgeTessFactor"@),
        table_name(system_values(), 18) == Some("finalTriVeq0EdgeTessFactor"@),
        table_name(system_values(), 19) == Some("finalTriWeq0EdgeTessFactor"@),
        table_name(system_values(), 20) == Some("finalTriInsideTessFactor"@),
        table_name(system_values(), 21) == Some("finalLineDetailTessFactor"@),
        table_name(system_values(), 22) == Some("finalLineDensityTessFactor"@),
        table_name(system_values(), 64) == Some("target"@),
        table_name(system_values(), 65) == Some("depth"@),
        table_name(system_values(), 66) == Some("coverage"@),
        table_name(system_values(), 67) == Some("depth_greater_equal"@),
        table_name(system_values(), 68) == Some("depth_less_equal"@),
        table_name(system_values(), 69) == Some("stencil_ref"@),
        table_name(system_values(), 70) == Some("inner_coverage"@),
{
    lemma_system_value_key();
    let t = system_values();
    let key = |s: Seq<char>| system_value_key(s);
    assert(t[0].0 == "undefined"@);
    lemma_keyed(t, key, "undefined"@);
    assert(key(t[0].0) == t[0].1);
    assert(t[1].0 == "position"@);
    lemma_keyed(t, key, "position"@);
    assert(key(t[1].0) == t[1].1);
    assert(t[2].0 == "clip_distance"@);
    lemma_keyed(t, key, "clip_distance"@);
    assert(key(t[2].0) == t[2].1);
    assert(t[3].0 == "cull_distance"@);
    lemma_keyed(t, key, "cull_distance"@);
    assert(key(t[3].0) == t[3].1);
    assert(t[4].0 == "render_target_array_index"@);
    lemma_keyed(t, key, "render_target_array_index"@);
    assert(key(t[4].0) == t[4].1);
    assert(t[5].0 == "viewport_array_index"@);
    lemma_keyed(t, key, "viewport_array_index"@);
    assert(key(t[5].0) == t[5].1);
    assert(t[6].0 == "vertex_id"@);
    lemma_keyed(t, key, "vertex_id"@);
    assert(key(t[6].0) == t[6].1);
    assert(t[7].0 == "primitive_id"@);
    lemma_keyed(t, key, "primitive_id"@);
    assert(key(t[7].0) == t[7].1);
    assert(t[8].0 == "instance_id"@);
    lemma_keyed(t, key, "instance_id"@);
    assert(key(t[8].0) == t[8].1);
    assert(t[9].0 == "is_front_face"@);
    lemma_keyed(t, key, "is_front_face"@);
    assert(key(t[9].0) == t[9].1);
    assert(t[10].0 == "sample_index"@);
    lemma_keyed(t, key, "sample_index"@);
    assert(key(t[10].0) == t[10].1);
    assert(t[11].0 == "finalQuadUeq0EdgeTessFactor"@);
    lemma_keyed(t, key, "finalQuadUeq0EdgeTessFactor"@);
    assert(key(t[11].0) == t[11].1);
    assert(t[12].0 == "finalQuadVeq0EdgeTessFactor"@);
    lemma_keyed(t, key, "finalQuadVeq0EdgeTessFactor"@);
    assert(key(t[12].0) == t[12].1);
    assert(t[13].0 == "finalQuadUeq1EdgeTessFactor"@);
    lemma_keyed(t, key, "finalQuadUeq1EdgeTessFactor"@);
    assert(key(t[13].0) == t[13].1);
    assert(t[14].0 == "finalQuadVeq1EdgeTessFactor"@);
    lemma_keyed(t, key, "finalQuadVeq1EdgeTessFactor"@);
    assert(key(t[14].0) == t[14].1);
    assert(t[15].0 == "finalQuadUInsideTessFactor"@);
    lemma_keyed(t, key, "finalQuadUInsideTessFactor"@);
    assert(key(t[15].0) == t[15].1);
    assert(t[16].0 == "finalQuadVInsideTessFactor"@);
    lemma_keyed(t, key, "finalQuadVInsideTessFactor"@);
    assert(key(t[16].0) == t[16].1);
    assert(t[17].0 == "finalTriUeq0EdgeTessFactor"@);
    lemma_keyed(t, key, "finalTriUeq0EdgeTessFactor"@);
    assert(key(t[17].0) == t[17].1);
    assert(t[18].0 == "finalTriVeq0EdgeTessFactor"@);
    lemma_keyed(t, key, "finalTriVeq0EdgeTessFactor"@);
    assert(key(t[18].0) == t[18].1);
    assert(t[19].0 == "finalTriWeq0EdgeTessFactor"@);
    lemma_keyed(t, key, "finalTriWeq0EdgeTessFactor"@);
    assert(key(t[19].0) == t[19].1);
    assert(t[20].0 == "finalTriInsideTessFactor"@);
    lemma_keyed(t, key, "finalTriInsideTessFactor"@);
    assert(key(t[20].0) == t[20].1);
    assert(t[21].0 == "finalLineDetailTessFactor"@);
    lemma_keyed(t, key, "finalLineDetailTessFactor"@);
    assert(key(t[21].0) == t[21].1);
    assert(t[22].0 == "finalLineDensityTessFactor"@);
    lemma_keyed(t, key, "finalLineDensityTessFactor"@);
    assert(key(t[22].0) == t[22].1);
    assert(t[23].0 == "target"@);
    lemma_keyed(t, key, "target"@);
    assert(key(t[23].0) == t[23].1);
    assert(t[24].0 == "depth"@);
    lemma_keyed(t, key, "depth"@);
    assert(key(t[24].0) == t[24].1);
    assert(t[25].0 == "coverage"@);
    lemma_keyed(t, key, "coverage"@);
    assert(key(t[25].0) == t[25].1);
    assert(t[26].0 == "depth_greater_equal"@);
    lemma_keyed(t, key, "depth_greater_equal"@);
    assert(key(t[26].0) == t[26].1);
    assert(t[27].0 == "depth_less_equal"@);
    lemma_keyed(t, key, "depth_less_equal"@);
    assert(key(t[27].0) == t[27].1);
    assert(t[28].0 == "stencil_ref"@);
    lemma_keyed(t, key, "stencil_ref"@);
    assert(key(t[28].0) == t[28].1);
    assert(t[29].0 == "inner_coverage"@);
    lemma_keyed(t, key, "inner_coverage"@);
    assert(key(t[29].0) == t[29].1);
    lemma_number_name(t, 0);
    lemma_number_name(t, 1);
    lemma_number_name(t, 2);
    lemma_number_name(t, 3);
    lemma_number_name(t, 4);
    lemma_number_name(t, 5);
    lemma_number_name(t, 6);
    lemma_number_name(t, 7);
    lemma_number_name(t, 8);
    lemma_number_name(t, 9);
    lemma_number_name(t, 10);
    lemma_number_name(t, 11);
    lemma_number_name(t, 12);
    lemma_number_name(t, 13);
    lemma_number_name(t, 14);
    lemma_number_name(t, 15);
    lemma_number_name(t, 16);
    lemma_number_name(t, 17);
    lemma_number_name(t, 18);
    lemma_number_name(t, 19);
    lemma_number_name(t, 20);
    lemma_number_name(t, 21);
    lemma_number_name(t, 22);
    lemma_number_name(t, 23);
    lemma_number_name(t, 24);
    lemma_number_name(t, 25);
    lemma_number_name(t, 26);
    lemma_number_name(t, 27);
    lemma_number_name(t, 28);
    lemma_number_name(t, 29);
}

/// The interpolation mode of an input is a number in bits 11 to 14 of the first word.
pub proof fn interpolations_have_their_numbers(i: InstructionModel, name: Seq<char>)
    requires
        sized(i),
        i.kind matches KindModel::DclInput { interpolation, .. } && interpolation == Some(name),
    ensures
        name == "undefined"@ ==> bits(first(i), 11, 0xF) == 0,
        name == "constant"@ ==> bits(first(i), 11, 0xF) == 1,
        name == "linear"@ ==> bits(first(i), 11, 0xF) == 2,
        name == "linearCentroid"@ ==> bits(first(i), 11, 0xF) == 3,
        name == "linearNoperspective"@ ==> bits(first(i), 11, 0xF) == 4,
        name == "linearNoperspectiveCentroid"@ ==> bits(first(i), 11, 0xF) == 5,
        name == "linearSample"@ ==> bits(first(i), 11, 0xF) == 6,
        name == "linearNoperspectiveSample"@ ==> bits(first(i), 11, 0xF) == 7,
{
    lemma_interpolations();
    let v = code_of(interpolations(), name);
    if name == "undefined"@ || name == "constant"@ || name == "linear"@ || name == "linearCentroid"@ || name == "linearNoperspective"@ || name == "linearNoperspectiveCentroid"@ || name == "linearSample"@ || name == "linearNoperspectiveSample"@ {
        lemma_low(i, v, 0xF);
    }
}

/// The mode of a sampler is a number in bits 11 to 14 of the first word.
pub proof fn sampler_modes_have_their_numbers(i: InstructionModel, name: Seq<char>)
    requires
        sized(i),
        i.kind matches KindModel::DclSampler { mode, .. } && mode == name,
    ensures
        name == "default"@ ==> bits(first(i), 11, 0xF) == 0,
        name == "comparison"@ ==> bits(first(i), 11, 0xF) == 1,
        name == "mono"@ ==> bits(first(i), 11, 0xF) == 2,
{
    lemma_sampler_modes();
    let v = code_of(sampler_modes(), name);
    if name == "default"@ || name == "comparison"@ || name == "mono"@ {
        lemma_low(i, v, 0xF);
    }
}

/// The access pattern of a constant buffer is bit 11 of the first word.
pub proof fn access_patterns_have_their_numbers(i: InstructionModel, name: Seq<char>)
    requires
        sized(i),
        i.kind matches KindModel::DclConstantBuffer { access, .. } && access == name,
    ensures
        name == "immediateIndexed"@ ==> bits(first(i), 11, 1) == 0,
        name == "dynamicIndexed"@ ==> bits(first(i), 11, 1) == 1,
{
    lemma_cb_access();
    let v = code_of(cb_access(), name);
    if name == "immediateIndexed"@ || name == "dynamicIndexed"@ {
        lemma_low(i, v, 1);
    }
}

/// The domain of a tessellator is a number in bits 11 and 12 of the first word.
pub proof fn domains_have_their_numbers(i: InstructionModel, name: Seq<char>)
    requires
        sized(i),
        i.kind matches KindModel::DclTessDomain { domain, .. } && domain == name,
    ensures
        name == "undefined"@ ==> bits(first(i), 11, 3) == 0,
        name == "isoline"@ ==> bits(first(i), 11, 3) == 1,
        name == "tri"@ ==> bits(first(i), 11, 3) == 2,
        name == "quad"@ ==> bits(first(i), 11, 3) == 3,
{
    lemma_tess_domains();
    let v = code_of(tess_domains(), name);
    if name == "undefined"@ || name == "isoline"@ || name == "tri"@ || name == "quad"@ {
        lemma_low(i, v, 3);
    }
}

/// The partitioning of a tessellator is a number in bits 11 to 13 of the first word.
pub proof fn partitionings_have_their_numbers(i: InstructionModel, name: Seq<char>)
    requires
        sized(i),
        i.kind matches KindModel::DclTessPartitioning { partitioning, .. } && partitioning == name,
    ensures
        name == "undefined"@ ==> bits(first(i), 11, 7) == 0,
        name == "integer"@ ==> bits(first(i), 11, 7) == 1,
        name == "pow2"@ ==> bits(first(i), 11, 7) == 2,
        name == "fractional_odd"@ ==> bits(first(i), 11, 7) == 3,
        name == "fractional_even"@ ==> bits(first(i), 11, 7) == 4,
{
    lemma_tess_partitionings();
    let v = code_of(tess_partitionings(), name);
    if name == "undefined"@ || name == "integer"@ || name == "pow2"@ || name == "fractional_odd"@ || name == "fractional_even"@ {
        lemma_low(i, v, 7);
    }
}

/// The primitive a tessellator emits is a number in bits 11 to 13 of the first word.
pub proof fn output_primitives_have_their_numbers(i: InstructionModel, name: Seq<char>)
    requires
        sized(i),
        i.kind matches KindModel::DclTessOutputPrimitive { primitive, .. } && primitive == name,
    ensures
        name == "undefined"@ ==> bits(first(i), 11, 7) == 0,
        name == "point"@ ==> bits(first(i), 11, 7) == 1,
        name == "line"@ ==> bits(first(i), 11, 7) == 2,
        name == "triangle_cw"@ ==> bits(first(i), 11, 7) == 3,
        name == "triangle_ccw"@ ==> bits(first(i), 11, 7) == 4,
{
    lemma_tess_output_prims();
    let v = code_of(tess_output_prims(), name);
    if name == "undefined"@ || name == "point"@ || name == "line"@ || name == "triangle_cw"@ || name == "triangle_ccw"@ {
        lemma_low(i, v, 7);
    }
}

/// The dimension of a typed resource is a number in bits 11 to 15 of the first word,
/// and the number of its samples one in bits 16 to 22.
pub proof fn resource_dimensions_have_their_numbers(i: InstructionModel, name: Seq<char>)
    requires
        sized(i),
        i.kind matches KindModel::DclResource { dimension, .. } && dimension == name,
        i.kind->DclResource_sample_count <= 0x7F,
        name == "buffer"@ || name == "texture1d"@ || name == "texture2d"@ || name == "texture2dms"@ || name == "texture3d"@ || name == "texturecube"@ || name == "texture1darray"@ || name == "texture2darray"@ || name == "texture2dmsarray"@ || name == "texturecubearray"@ || name == "raw_buffer"@ || name == "structured_buffer"@,
    ensures
        name == "buffer"@ ==> bits(first(i), 11, 0x1F) == 1,
        name == "texture1d"@ ==> bits(first(i), 11, 0x1F) == 2,
        name == "texture2d"@ ==> bits(first(i), 11, 0x1F) == 3,
        name == "texture2dms"@ ==> bits(first(i), 11, 0x1F) == 4,
        name == "texture3d"@ ==> bits(first(i), 11, 0x1F) == 5,
        name == "texturecube"@ ==> bits(first(i), 11, 0x1F) == 6,
        name == "texture1darray"@ ==> bits(first(i), 11, 0x1F) == 7,
        name == "texture2darray"@ ==> bits(first(i), 11, 0x1F) == 8,
        name == "texture2dmsarray"@ ==> bits(first(i), 11, 0x1F) == 9,
        name == "texturecubearray"@ ==> bits(first(i), 11, 0x1F) == 10,
        name == "raw_buffer"@ ==> bits(first(i), 11, 0x1F) == 11,
        name == "structured_buffer"@ ==> bits(first(i), 11, 0x1F) == 12,
        bits(first(i), 16, 0x7F) == i.kind->DclResource_sample_count,
{
    lemma_dimensions();
    let s = i.kind->DclResource_sample_count;
    lemma_masks(s, 0);
    lemma_pair(i, code_of(dimensions(), name), s);
}

/// The dimension of a typed view is a number in bits 11 to 15 of the first word, and
/// its flags stand in bits 16 to 23.
pub proof fn view_dimensions_have_their_numbers(i: InstructionModel, name: Seq<char>)
    requires
        sized(i),
        i.kind matches KindModel::DclUavTyped { dimension, .. } && dimension == name,
        i.kind->DclUavTyped_flags <= 0xFF,
        name == "buffer"@ || name == "texture1d"@ || name == "texture2d"@ || name == "texture2dms"@ || name == "texture3d"@ || name == "texturecube"@ || name == "texture1darray"@ || name == "texture2darray"@ || name == "texture2dmsarray"@ || name == "texturecubearray"@ || name == "raw_buffer"@ || name == "structured_buffer"@,
    ensures
        name == "buffer"@ ==> bits(first(i), 11, 0x1F) == 1,
        name == "texture1d"@ ==> bits(first(i), 11, 0x1F) == 2,
        name == "texture2d"@ ==> bits(first(i), 11, 0x1F) == 3,
        name == "texture2dms"@ ==> bits(first(i), 11, 0x1F) == 4,
        name == "texture3d"@ ==> bits(first(i), 11, 0x1F) == 5,
        name == "texturecube"@ ==> bits(first(i), 11, 0x1F) == 6,
        name == "texture1darray"@ ==> bits(first(i), 11, 0x1F) == 7,
        name == "texture2darray"@ ==> bits(first(i), 11, 0x1F) == 8,
        name == "texture2dmsarray"@ ==> bits(first(i), 11, 0x1F) == 9,
        name == "texturecubearray"@ ==> bits(first(i), 11, 0x1F) == 10,
        name == "raw_buffer"@ ==> bits(first(i), 11, 0x1F) == 11,
        name == "structured_buffer"@ ==> bits(first(i), 11, 0x1F) == 12,
        bits(first(i), 16, 0xFF) == i.kind->DclUavTyped_flags,
{
    lemma_dimensions();
    let f = i.kind->DclUavTyped_flags;
    lemma_masks(0, f);
    lemma_pair(i, code_of(dimensions(), name), f);
}

/// The flags of raw and structured views stand in bits 16 to 23 of the first word.
pub proof fn view_flags_have_their_place(i: InstructionModel, flags: u32)
    requires
        sized(i),
        flags <= 0xFF,
        (i.kind matches KindModel::DclUavRaw { flags: f, .. } && f == flags) || (
        i.kind matches KindModel::DclUavStructured { flags: f, .. } && f == flags),
    ensures
        bits(first(i), 16, 0xFF) == flags,
{
    lemma_masks(0, flags);
    lemma_pair(i, 0, flags);
}

/// Numbers of control points stand in bits 11 to 16 of the first word.
pub proof fn control_point_counts_have_their_place(i: InstructionModel, count: u32)
    requires
        sized(i),
        count <= 0x3F,
        (i.kind matches KindModel::DclOutputControlPointCount { count: c } && c == count) || (
        i.kind matches KindModel::DclInputControlPointCount { count: c } && c == count),
    ensures
        bits(first(i), 11, 0x3F) == count,
{
    lemma_six_bits(count);
    lemma_low(i, count, 0x3F);
}

/// The primitive a geometry shader takes is a number in bits 11 to 16 of the first
/// word; a patch of n control points has the number 7 + n.
pub proof fn input_primitives_have_their_numbers(i: InstructionModel, p: GsPrimitive)
    requires
        sized(i),
        i.kind == (KindModel::DclGsInputPrimitive { primitive: p }),
    ensures
        p is Undefined ==> bits(first(i), 11, 0x3F) == 0,
        p is Point ==> bits(first(i), 11, 0x3F) == 1,
        p is Line ==> bits(first(i), 11, 0x3F) == 2,
        p is Triangle ==> bits(first(i), 11, 0x3F) == 3,
        p is LineAdj ==> bits(first(i), 11, 0x3F) == 6,
        p is TriangleAdj ==> bits(first(i), 11, 0x3F) == 7,
        p matches GsPrimitive::ControlPointPatch(n) && n <= 56 ==> bits(first(i), 11, 0x3F) == 7
            + p->ControlPointPatch_0,
{
    let v = primitive_code(p);
    if v <= 0x3F {
        lemma_six_bits(v);
        lemma_low(i, v, 0x3F);
    }
}

/// The topology a geometry shader emits is a number from bit 11 of the first word on.
pub proof fn topologies_have_their_numbers(i: InstructionModel, t: GsOutputTopology)
    requires
        sized(i),
        i.kind == (KindModel::DclGsOutputTopology { topology: t }),
    ensures
        t is Undefined ==> bits(first(i), 11, 0x7F) == 0,
        t is PointList ==> bits(first(i), 11, 0x7F) == 1,
        t is LineList ==> bits(first(i), 11, 0x7F) == 2,
        t is LineStrip ==> bits(first(i), 11, 0x7F) == 3,
        t is TriangleList ==> bits(first(i), 11, 0x7F) == 4,
        t is TriangleStrip ==> bits(first(i), 11, 0x7F) == 5,
        t is LineListAdj ==> bits(first(i), 11, 0x7F) == 10,
        t is LineStripAdj ==> bits(first(i), 11, 0x7F) == 11,
        t is TriangleListAdj ==> bits(first(i), 11, 0x7F) == 12,
        t is TriangleStripAdj ==> bits(first(i), 11, 0x7F) == 13,
{
    lemma_low(i, topology_code(t), 0x7F);
}

proof fn lemma_flag(i: InstructionModel, flags: Seq<Seq<char>>, k: u32)
    requires
        sized(i),
        i.kind == (KindModel::DclGlobalFlags { flags }),
        forall|j: int| 0 <= j < flags.len() ==> is_entry(global_flags(), #[trigger] flags[j]),
        k < 8,
    ensures
        (bits(first(i), (11 + k) as u32, 1) == 1) == declared(flags, global_flags()[k as int].0),
{
    let t = global_flags();
    let n = flags.len() as int;
    let name = t[k as int].0;
    lemma_flag_bit(flags, n, k);
    lemma_middle(i);
    lemma_one_bit((11 + k) as u32);
    lemma_field(first(i), (11 + k) as u32, 1);
    assert(is_entry(t, name));
    lemma_flag_number(k as int);
    if declared(flags, name) {
        let j = choose|j: int| 0 <= j < n && #[trigger] flags[j] == name;
        assert(flag_number(flags[j]) == k);
    }
    if exists|j: int| 0 <= j < n && flag_number(#[trigger] flags[j]) == k {
        let j = choose|j: int| 0 <= j < n && flag_number(#[trigger] flags[j]) == k;
        lemma_flag_name(flags[j]);
        assert(flags[j] == name);
    }
}

/// Whether the flag is among those declared.
pub open spec fn declared(flags: Seq<Seq<char>>, name: Seq<char>) -> bool {
    exists|j: int| 0 <= j < flags.len() && #[trigger] flags[j] == name
}

/// Each global flag is a bit of its own in the first word, set where it is declared.
pub proof fn global_flags_have_their_bits(i: InstructionModel, flags: Seq<Seq<char>>)
    requires
        sized(i),
        i.kind == (KindModel::DclGlobalFlags { flags }),
        forall|j: int| 0 <= j < flags.len() ==> is_entry(global_flags(), #[trigger] flags[j]),
    ensures
        (bits(first(i), 11, 1) == 1) == declared(flags, "refactoringAllowed"@),
        (bits(first(i), 12, 1) == 1) == declared(flags, "enableDoublePrecisionFloatOps"@),
        (bits(first(i), 13, 1) == 1) == declared(flags, "forceEarlyDepthStencil"@),
        (bits(first(i), 14, 1) == 1) == declared(flags, "enableRawAndStructuredBuffers"@),
        (bits(first(i), 15, 1) == 1) == declared(flags, "skipOptimization"@),
        (bits(first(i), 16, 1) == 1) == declared(flags, "enableMinPrecision"@),
        (bits(first(i), 17, 1) == 1) == declared(flags, "enable11_1DoubleExtensions"@),
        (bits(first(i), 18, 1) == 1) == declared(flags, "enable11_1ShaderExtensions"@),
{
    let t = global_flags();
    lemma_flag(i, flags, 0);
    assert(t[0].0 == "refactoringAllowed"@);
    lemma_flag(i, flags, 1);
    assert(t[1].0 == "enableDoublePrecisionFloatOps"@);
    lemma_flag(i, flags, 2);
    assert(t[2].0 == "forceEarlyDepthStencil"@);
    lemma_flag(i, flags, 3);
    assert(t[3].0 == "enableRawAndStructuredBuffers"@);
    lemma_flag(i, flags, 4);
    assert(t[4].0 == "skipOptimization"@);
    lemma_flag(i, flags, 5);
    assert(t[5].0 == "enableMinPrecision"@);
    lemma_flag(i, flags, 6);
    assert(t[6].0 == "enable11_1DoubleExtensions"@);
    lemma_flag(i, flags, 7);
    assert(t[7].0 == "enable11_1ShaderExtensions"@);
}

/// The system value of an input or output is a number in the last word of its
/// declaration.
pub proof fn system_values_have_their_numbers(i: InstructionModel, name: Seq<char>)
    requires
        (i.kind matches KindModel::DclInput { system_value, .. } && system_value == Some(name)) || (
        i.kind matches KindModel::DclOutput { system_value, .. } && system_value == Some(name)),
    ensures
        name == "undefined"@ ==> instruction_words(i).last() == 0,
        name == "position"@ ==> instruction_words(i).last() == 1,
        name == "clip_distance"@ ==> instruction_words(i).last() == 2,
        name == "cull_distance"@ ==> instruction_words(i).last() == 3,
        name == "render_target_array_index"@ ==> instruction_words(i).last() == 4,
        name == "viewport_array_index"@ ==> instruction_words(i).last() == 5,
        name == "vertex_id"@ ==> instruction_words(i).last() == 6,
        name == "primitive_id"@ ==> instruction_words(i).last() == 7,
        name == "instance_id"@ ==> instruction_words(i).last() == 8,
        name == "is_front_face"@ ==> instruction_words(i).last() == 9,
        name == "sample_index"@ ==> instruction_words(i).last() == 10,
        name == "finalQuadUeq0EdgeTessFactor"@ ==> instruction_words(i).last() == 11,
        name == "finalQuadVeq0EdgeTessFactor"@ ==> instruction_words(i).last() == 12,
        name == "finalQuadUeq1EdgeTessFactor"@ ==> instruction_words(i).last() == 13,
        name == "finalQuadVeq1EdgeTessFactor"@ ==> instruction_words(i).last() == 14,
        name == "finalQuadUInsideTessFactor"@ ==> instruction_words(i).last() == 15,
        name == "finalQuadVInsideTessFactor"@ ==> instruction_words(i).last() == 16,
        name == "finalTriUeq0EdgeTessFactor"@ ==> instruction_words(i).last() == 17,
        name == "finalTriVeq0EdgeTessFactor"@ ==> instruction_words(i).last() == 18,
        name == "finalTriWeq0EdgeTessFactor"@ ==> instruction_words(i).last() == 19,
        name == "finalTriInsideTessFactor"@ ==> instruction_words(i).last() == 20,
        name == "finalLineDetailTessFactor"@ ==> instruction_words(i).last() == 21,
        name == "finalLineDensityTessFactor"@ ==> instruction_words(i).last() == 22,
        name == "target"@ ==> instruction_words(i).last() == 64,
        name == "depth"@ ==> instruction_words(i).last() == 65,
        name == "coverage"@ ==> instruction_words(i).last() == 66,
        name == "depth_greater_equal"@ ==> instruction_words(i).last() == 67,
        name == "depth_less_equal"@ ==> instruction_words(i).last() == 68,
        name == "stencil_ref"@ ==> instruction_words(i).last() == 69,
        name == "inner_coverage"@ ==> instruction_words(i).last() == 70,
{
    lemma_system_values();
    let ws = instruction_words(i);
    assert(ws.last() == sv_words(Some(name))[0]);
}

/// A program begins with a word that holds the number of its stage from bit 16 on,
/// and its version in bits 4 to 7 and 0 to 3; then comes the number of all words.
pub proof fn programs_begin_with_their_stage(p: ProgramModel)
    requires
        is_entry(shader_types(), p.shader_type),
        p.major_version <= 0xF,
        p.minor_version <= 0xF,
        program_words(p).len() <= 0xffff_ffff,
    ensures
        p.shader_type == "ps"@ ==> bits(program_words(p)[0], 16, 0xFFFF) == 0,
        p.shader_type == "vs"@ ==> bits(program_words(p)[0], 16, 0xFFFF) == 1,
        p.shader_type == "gs"@ ==> bits(program_words(p)[0], 16, 0xFFFF) == 2,
        p.shader_type == "hs"@ ==> bits(program_words(p)[0], 16, 0xFFFF) == 3,
        p.shader_type == "ds"@ ==> bits(program_words(p)[0], 16, 0xFFFF) == 4,
        p.shader_type == "cs"@ ==> bits(program_words(p)[0], 16, 0xFFFF) == 5,
        bits(program_words(p)[0], 4, 0xF) == p.major_version,
        bits(program_words(p)[0], 0, 0xF) == p.minor_version,
        program_words(p)[1] == program_words(p).len(),
{
    lemma_shader_types();
    lemma_name_and_number(shader_types(), p.shader_type);
    lemma_version_word(
        code_of(shader_types(), p.shader_type),
        p.major_version,
        p.minor_version,
    );
}

/// The types that a resource returns are numbers of four bits each, in a word of
/// their own that stands last.
pub proof fn return_types_have_their_numbers(i: InstructionModel, rt: [ReturnType; 4], k: int)
    requires
        0 <= k < 4,
        types_fit(rt),
        (i.kind matches KindModel::DclResource { return_type, .. } && return_type == rt) || (
        i.kind matches KindModel::DclUavTyped { return_type, .. } && return_type == rt),
    ensures
        ({
            let n = bits(instruction_words(i).last(), (4 * k) as u32, 0xF);
            &&& rt[k] is Unorm ==> n == 1
            &&& rt[k] is Snorm ==> n == 2
            &&& rt[k] is Sint ==> n == 3
            &&& rt[k] is Uint ==> n == 4
            &&& rt[k] is Float ==> n == 5
            &&& rt[k] is Mixed ==> n == 6
            &&& rt[k] is Double ==> n == 7
            &&& rt[k] is Continued ==> n == 8
            &&& rt[k] is Unused ==> n == 9
        }),
{
    let ws = instruction_words(i);
    let w = types_word(rt);
    assert(ws.last() == w);
    lemma_types(rt);
    assert(types_of(w)[k] == rt[k]);
    assert(k == 0 || k == 1 || k == 2 || k == 3);
}

} // verus!
