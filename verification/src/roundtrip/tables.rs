//! Names of tables read back.

use vstd::prelude::*;

use crate::grammar::tables::{
    NameTable, cb_access, dimensions, global_flags, interpolations, sampler_modes, shader_types,
    system_value_number, system_value_text, system_values, table_name, table_value, tess_domains, tess_output_prims, tess_partitionings,
};
use crate::roundtrip::names::is_word;

verus! {

/// Whether all names of the table are words.
pub open spec fn wordy(t: NameTable) -> bool {
    forall|i: int| 0 <= i < t.len() ==> is_word(#[trigger] t[i].0)
}

/// Whether `s` is a name of the table.
pub open spec fn is_entry(t: NameTable, s: Seq<char>) -> bool {
    exists|i: int| 0 <= i < t.len() && #[trigger] t[i].0 == s
}

/// The name of a number is a name of the table.
pub proof fn lemma_table_entry(t: NameTable, v: u32)
    ensures
        match table_name(t, v) {
            Some(n) => is_entry(t, n),
            None => true,
        },
    decreases t.len(),
{
    if t.len() > 0 {
        if t[0].1 == v {
            assert(is_entry(t, t[0].0));
        } else {
            lemma_table_entry(t.skip(1), v);
            match table_name(t, v) {
                Some(n) => {
                    let i = choose|i: int| 0 <= i < t.skip(1).len() && t.skip(1)[i].0 == n;
                    assert(t[i + 1].0 == n);
                },
                None => {},
            }
        }
    }
}

/// A name of the table has a number.
pub proof fn lemma_entry_value(t: NameTable, s: Seq<char>)
    requires
        is_entry(t, s),
    ensures
        table_value(t, s) is Some,
    decreases t.len(),
{
    let i = choose|i: int| 0 <= i < t.len() && t[i].0 == s;
    if t[0].0 != s {
        assert(t.skip(1)[i - 1].0 == s);
        lemma_entry_value(t.skip(1), s);
    }
}

/// Whether the number of each entry can be told from its name.
pub open spec fn keyed(t: NameTable, key: spec_fn(Seq<char>) -> u32) -> bool {
    forall|i: int| 0 <= i < t.len() ==> key(#[trigger] t[i].0) == t[i].1
}

/// In a table whose names tell their numbers, a name has the number it tells,
/// and that number has the name.
pub proof fn lemma_keyed(t: NameTable, key: spec_fn(Seq<char>) -> u32, s: Seq<char>)
    requires
        keyed(t, key),
        is_entry(t, s),
    ensures
        table_value(t, s) == Some(key(s)),
    decreases t.len(),
{
    let i = choose|i: int| 0 <= i < t.len() && t[i].0 == s;
    if t[0].0 == s {
        assert(key(t[0].0) == t[0].1);
    } else {
        let u = t.skip(1);
        assert forall|j: int| 0 <= j < u.len() implies key(#[trigger] u[j].0) == u[j].1 by {
            assert(u[j] == t[j + 1]);
            assert(key(t[j + 1].0) == t[j + 1].1);
        }
        assert(u[i - 1].0 == s);
        lemma_keyed(u, key, s);
    }
}

/// The name of a number, in a table whose names tell their numbers, tells it.
pub proof fn lemma_keyed_name(t: NameTable, key: spec_fn(Seq<char>) -> u32, v: u32)
    requires
        keyed(t, key),
    ensures
        match table_name(t, v) {
            Some(n) => is_entry(t, n) && key(n) == v && table_value(t, n) == Some(v),
            None => true,
        },
    decreases t.len(),
{
    lemma_table_entry(t, v);
    match table_name(t, v) {
        Some(n) => {
            lemma_keyed(t, key, n);
            lemma_name_number(t, v);
            let i = choose|i: int| 0 <= i < t.len() && t[i].0 == n && t[i].1 == v;
            assert(key(t[i].0) == t[i].1);
        },
        None => {},
    }
}

/// An entry with that number has the name that is found for it.
pub proof fn lemma_name_number(t: NameTable, v: u32)
    ensures
        match table_name(t, v) {
            Some(n) => exists|i: int| 0 <= i < t.len() && #[trigger] t[i].0 == n && t[i].1 == v,
            None => true,
        },
    decreases t.len(),
{
    if t.len() > 0 {
        if t[0].1 == v {
            assert(t[0].0 == t[0].0);
        } else {
            lemma_name_number(t.skip(1), v);
            match table_name(t, v) {
                Some(n) => {
                    let i = choose|i: int|
                        0 <= i < t.skip(1).len() && t.skip(1)[i].0 == n && t.skip(1)[i].1 == v;
                    assert(t[i + 1].0 == n && t[i + 1].1 == v);
                },
                None => {},
            }
        }
    }
}

/// The number of a name is that of an entry with the name.
pub proof fn lemma_table_value_index(t: NameTable, s: Seq<char>)
    requires
        table_value(t, s) is Some,
    ensures
        exists|i: int|
            0 <= i < t.len() && (#[trigger] t[i]).0 == s && table_value(t, s) == Some(t[i].1),
    decreases t.len(),
{
    if t[0].0 == s {
        assert(table_value(t, s) == Some(t[0].1));
    } else {
        let u = t.skip(1);
        lemma_table_value_index(u, s);
        let i = choose|i: int|
            0 <= i < u.len() && (#[trigger] u[i]).0 == s && table_value(u, s) == Some(u[i].1);
        assert(t[i + 1] == u[i]);
    }
}

/// A number that an entry has, in a table of distinct numbers, has its name.
pub proof fn lemma_number_name(t: NameTable, i: int)
    requires
        0 <= i < t.len(),
        forall|a: int, b: int| 0 <= a < b < t.len() ==> (#[trigger] t[a]).1 < (#[trigger] t[b]).1,
    ensures
        table_name(t, t[i].1) == Some(t[i].0),
    decreases t.len(),
{
    if i > 0 {
        assert(t[0].1 < t[i].1);
        let u = t.skip(1);
        assert(u[i - 1] == t[i]);
        assert forall|a: int, b: int| 0 <= a < b < u.len() implies (#[trigger] u[a]).1 < (
        #[trigger] u[b]).1 by {
            assert(t[a + 1].1 < t[b + 1].1);
        }
        lemma_number_name(u, i - 1);
    }
}

/// Whether the numbers of the table ascend.
pub open spec fn ascending(t: NameTable) -> bool {
    forall|a: int, b: int| 0 <= a < b < t.len() ==> (#[trigger] t[a]).1 < (#[trigger] t[b]).1
}

/// In a table of ascending numbers, the number of a name leads back to it.
pub proof fn lemma_name_and_number(t: NameTable, s: Seq<char>)
    requires
        ascending(t),
        is_entry(t, s),
    ensures
        table_value(t, s) is Some,
        table_name(t, table_value(t, s)->0) == Some(s),
        table_value(t, s)->0 <= t.last().1,
{
    lemma_entry_value(t, s);
    lemma_table_value_index(t, s);
    let i = choose|i: int|
        0 <= i < t.len() && (#[trigger] t[i]).0 == s && table_value(t, s) == Some(t[i].1);
    lemma_number_name(t, i);
    if i < t.len() - 1 {
        assert(t[i].1 < t[t.len() - 1].1);
    }
}

/// The names of shader stages are words.
pub proof fn lemma_shader_types()
    ensures
        wordy(shader_types()),
{
    let t = shader_types();
    assert forall|i: int| 0 <= i < t.len() implies is_word(#[trigger] t[i].0) by {
        if i == 0 {
            reveal_strlit("ps");
        } else if i == 1 {
            reveal_strlit("vs");
        } else if i == 2 {
            reveal_strlit("gs");
        } else if i == 3 {
            reveal_strlit("hs");
        } else if i == 4 {
            reveal_strlit("ds");
        } else {
            reveal_strlit("cs");
        }
    }
}

/// The names of interpolation modes are words.
pub proof fn lemma_interpolations()
    ensures
        wordy(interpolations()),
{
    let t = interpolations();
    assert forall|i: int| 0 <= i < t.len() implies is_word(#[trigger] t[i].0) by {
        if i == 0 {
            reveal_strlit("undefined");
        } else if i == 1 {
            reveal_strlit("constant");
        } else if i == 2 {
            reveal_strlit("linear");
        } else if i == 3 {
            reveal_strlit("linearCentroid");
        } else if i == 4 {
            reveal_strlit("linearNoperspective");
        } else if i == 5 {
            reveal_strlit("linearNoperspectiveCentroid");
        } else if i == 6 {
            reveal_strlit("linearSample");
        } else {
            reveal_strlit("linearNoperspectiveSample");
        }
    }
}

/// The names of resource dimensions are words.
pub proof fn lemma_dimensions()
    ensures
        wordy(dimensions()),
{
    let t = dimensions();
    assert forall|i: int| 0 <= i < t.len() implies is_word(#[trigger] t[i].0) by {
        if i == 0 {
            reveal_strlit("buffer");
        } else if i == 1 {
            reveal_strlit("texture1d");
        } else if i == 2 {
            reveal_strlit("texture2d");
        } else if i == 3 {
            reveal_strlit("texture2dms");
        } else if i == 4 {
            reveal_strlit("texture3d");
        } else if i == 5 {
            reveal_strlit("texturecube");
        } else if i == 6 {
            reveal_strlit("texture1darray");
        } else if i == 7 {
            reveal_strlit("texture2darray");
        } else if i == 8 {
            reveal_strlit("texture2dmsarray");
        } else if i == 9 {
            reveal_strlit("texturecubearray");
        } else if i == 10 {
            reveal_strlit("raw_buffer");
        } else {
            reveal_strlit("structured_buffer");
        }
    }
}

/// The number of a resource dimension, told by a few characters.
#[verifier::opaque]
pub open spec fn dimension_key(s: Seq<char>) -> u32 {
    if s.len() <= 10 {
        if s[0] <= 'r' {
            if s.len() <= 6 {
                1
            } else {
                11
            }
        } else {
            if s[7] <= '2' {
                if s[7] <= '1' {
                    2
                } else {
                    3
                }
            } else {
                5
            }
        }
    } else {
        if s.len() <= 14 {
            if s.len() <= 11 {
                if s[7] <= '2' {
                    4
                } else {
                    6
                }
            } else {
                if s[7] <= '1' {
                    7
                } else {
                    8
                }
            }
        } else {
            if s.len() <= 16 {
                if s[7] <= '2' {
                    9
                } else {
                    10
                }
            } else {
                12
            }
        }
    }
}

/// The names of resource dimensions tell their numbers.
pub proof fn lemma_dimension_keys()
    ensures
        keyed(dimensions(), |s: Seq<char>| dimension_key(s)),
{
    reveal(dimension_key);
    let t = dimensions();
    assert forall|i: int| 0 <= i < t.len() implies dimension_key(#[trigger] t[i].0) == t[i].1 by {
        if i == 0 {
            reveal_strlit("buffer");
        } else if i == 1 {
            reveal_strlit("texture1d");
        } else if i == 2 {
            reveal_strlit("texture2d");
        } else if i == 3 {
            reveal_strlit("texture2dms");
        } else if i == 4 {
            reveal_strlit("texture3d");
        } else if i == 5 {
            reveal_strlit("texturecube");
        } else if i == 6 {
            reveal_strlit("texture1darray");
        } else if i == 7 {
            reveal_strlit("texture2darray");
        } else if i == 8 {
            reveal_strlit("texture2dmsarray");
        } else if i == 9 {
            reveal_strlit("texturecubearray");
        } else if i == 10 {
            reveal_strlit("raw_buffer");
        } else {
            reveal_strlit("structured_buffer");
        }
    }
}

/// The names of sampler modes are words.
pub proof fn lemma_sampler_modes()
    ensures
        wordy(sampler_modes()),
{
    let t = sampler_modes();
    assert forall|i: int| 0 <= i < t.len() implies is_word(#[trigger] t[i].0) by {
        if i == 0 {
            reveal_strlit("default");
        } else if i == 1 {
            reveal_strlit("comparison");
        } else {
            reveal_strlit("mono");
        }
    }
}

/// The names of access patterns are words.
pub proof fn lemma_cb_access()
    ensures
        wordy(cb_access()),
{
    let t = cb_access();
    assert forall|i: int| 0 <= i < t.len() implies is_word(#[trigger] t[i].0) by {
        if i == 0 {
            reveal_strlit("immediateIndexed");
        } else {
            reveal_strlit("dynamicIndexed");
        }
    }
}

/// The names of domains are words.
pub proof fn lemma_tess_domains()
    ensures
        wordy(tess_domains()),
{
    let t = tess_domains();
    assert forall|i: int| 0 <= i < t.len() implies is_word(#[trigger] t[i].0) by {
        if i == 0 {
            reveal_strlit("undefined");
        } else if i == 1 {
            reveal_strlit("isoline");
        } else if i == 2 {
            reveal_strlit("tri");
        } else {
            reveal_strlit("quad");
        }
    }
}

/// The names of partitionings are words.
pub proof fn lemma_tess_partitionings()
    ensures
        wordy(tess_partitionings()),
{
    let t = tess_partitionings();
    assert forall|i: int| 0 <= i < t.len() implies is_word(#[trigger] t[i].0) by {
        if i == 0 {
            reveal_strlit("undefined");
        } else if i == 1 {
            reveal_strlit("integer");
        } else if i == 2 {
            reveal_strlit("pow2");
        } else if i == 3 {
            reveal_strlit("fractional_odd");
        } else {
            reveal_strlit("fractional_even");
        }
    }
}

/// The names of primitives the tessellator emits are words.
pub proof fn lemma_tess_output_prims()
    ensures
        wordy(tess_output_prims()),
{
    let t = tess_output_prims();
    assert forall|i: int| 0 <= i < t.len() implies is_word(#[trigger] t[i].0) by {
        if i == 0 {
            reveal_strlit("undefined");
        } else if i == 1 {
            reveal_strlit("point");
        } else if i == 2 {
            reveal_strlit("line");
        } else if i == 3 {
            reveal_strlit("triangle_cw");
        } else {
            reveal_strlit("triangle_ccw");
        }
    }
}

/// The names of global flags are words.
pub proof fn lemma_global_flags()
    ensures
        wordy(global_flags()),
{
    let t = global_flags();
    assert forall|i: int| 0 <= i < t.len() implies is_word(#[trigger] t[i].0) by {
        if i == 0 {
            reveal_strlit("refactoringAllowed");
        } else if i == 1 {
            reveal_strlit("enableDoublePrecisionFloatOps");
        } else if i == 2 {
            reveal_strlit("forceEarlyDepthStencil");
        } else if i == 3 {
            reveal_strlit("enableRawAndStructuredBuffers");
        } else if i == 4 {
            reveal_strlit("skipOptimization");
        } else if i == 5 {
            reveal_strlit("enableMinPrecision");
        } else if i == 6 {
            reveal_strlit("enable11_1DoubleExtensions");
        } else {
            reveal_strlit("enable11_1ShaderExtensions");
        }
    }
}

/// The names of system values are words.
pub proof fn lemma_system_values()
    ensures
        wordy(system_values()),
{
    let t = system_values();
    assert forall|i: int| 0 <= i < t.len() implies is_word(#[trigger] t[i].0) by {
        if i == 0 {
            reveal_strlit("undefined");
        } else if i == 1 {
            reveal_strlit("position");
        } else if i == 2 {
            reveal_strlit("clip_distance");
        } else if i == 3 {
            reveal_strlit("cull_distance");
        } else if i == 4 {
            reveal_strlit("render_target_array_index");
        } else if i == 5 {
            reveal_strlit("viewport_array_index");
        } else if i == 6 {
            reveal_strlit("vertex_id");
        } else if i == 7 {
            reveal_strlit("primitive_id");
        } else if i == 8 {
            reveal_strlit("instance_id");
        } else if i == 9 {
            reveal_strlit("is_front_face");
        } else if i == 10 {
            reveal_strlit("sample_index");
        } else if i == 11 {
            reveal_strlit("finalQuadUeq0EdgeTessFactor");
        } else if i == 12 {
            reveal_strlit("finalQuadVeq0EdgeTessFactor");
        } else if i == 13 {
            reveal_strlit("finalQuadUeq1EdgeTessFactor");
        } else if i == 14 {
            reveal_strlit("finalQuadVeq1EdgeTessFactor");
        } else if i == 15 {
            reveal_strlit("finalQuadUInsideTessFactor");
        } else if i == 16 {
            reveal_strlit("finalQuadVInsideTessFactor");
        } else if i == 17 {
            reveal_strlit("finalTriUeq0EdgeTessFactor");
        } else if i == 18 {
            reveal_strlit("finalTriVeq0EdgeTessFactor");
        } else if i == 19 {
            reveal_strlit("finalTriWeq0EdgeTessFactor");
        } else if i == 20 {
            reveal_strlit("finalTriInsideTessFactor");
        } else if i == 21 {
            reveal_strlit("finalLineDetailTessFactor");
        } else if i == 22 {
            reveal_strlit("finalLineDensityTessFactor");
        } else if i == 23 {
            reveal_strlit("target");
        } else if i == 24 {
            reveal_strlit("depth");
        } else if i == 25 {
            reveal_strlit("coverage");
        } else if i == 26 {
            reveal_strlit("depth_greater_equal");
        } else if i == 27 {
            reveal_strlit("depth_less_equal");
        } else if i == 28 {
            reveal_strlit("stencil_ref");
        } else {
            reveal_strlit("inner_coverage");
        }
    }
}

/// The number of entry number `i` of the system values.
pub open spec fn system_value_at(i: int) -> int {
    if i < 23 {
        i
    } else {
        i + 41
    }
}

/// The system values stand in the order of their numbers.
proof fn lemma_system_value_order()
    ensures
        forall|i: int|
            0 <= i < system_values().len() ==> (#[trigger] system_values()[i]).1
                == system_value_at(i),
{
    let t = system_values();
    assert forall|i: int| 0 <= i < t.len() implies (#[trigger] t[i]).1 == system_value_at(i) by {
        if i == 0 {
            assert(t[0].1 == 0);
        } else if i == 1 {
            assert(t[1].1 == 1);
        } else if i == 2 {
            assert(t[2].1 == 2);
        } else if i == 3 {
            assert(t[3].1 == 3);
        } else if i == 4 {
            assert(t[4].1 == 4);
        } else if i == 5 {
            assert(t[5].1 == 5);
        } else if i == 6 {
            assert(t[6].1 == 6);
        } else if i == 7 {
            assert(t[7].1 == 7);
        } else if i == 8 {
            assert(t[8].1 == 8);
        } else if i == 9 {
            assert(t[9].1 == 9);
        } else if i == 10 {
            assert(t[10].1 == 10);
        } else if i == 11 {
            assert(t[11].1 == 11);
        } else if i == 12 {
            assert(t[12].1 == 12);
        } else if i == 13 {
            assert(t[13].1 == 13);
        } else if i == 14 {
            assert(t[14].1 == 14);
        } else if i == 15 {
            assert(t[15].1 == 15);
        } else if i == 16 {
            assert(t[16].1 == 16);
        } else if i == 17 {
            assert(t[17].1 == 17);
        } else if i == 18 {
            assert(t[18].1 == 18);
        } else if i == 19 {
            assert(t[19].1 == 19);
        } else if i == 20 {
            assert(t[20].1 == 20);
        } else if i == 21 {
            assert(t[21].1 == 21);
        } else if i == 22 {
            assert(t[22].1 == 22);
        } else if i == 23 {
            assert(t[23].1 == 64);
        } else if i == 24 {
            assert(t[24].1 == 65);
        } else if i == 25 {
            assert(t[25].1 == 66);
        } else if i == 26 {
            assert(t[26].1 == 67);
        } else if i == 27 {
            assert(t[27].1 == 68);
        } else if i == 28 {
            assert(t[28].1 == 69);
        } else {
            assert(t[29].1 == 70);
        }
    }
}

/// The number found for a name is that of an entry with the name.
proof fn lemma_value_entry(t: NameTable, s: Seq<char>)
    requires
        is_entry(t, s),
    ensures
        exists|i: int| 0 <= i < t.len() && #[trigger] t[i].0 == s && table_value(t, s) == Some(t[i].1),
    decreases t.len(),
{
    if t[0].0 == s {
        assert(table_value(t, s) == Some(t[0].1));
    } else {
        let i = choose|i: int| 0 <= i < t.len() && t[i].0 == s;
        let u = t.skip(1);
        assert(u[i - 1].0 == s);
        lemma_value_entry(u, s);
        let j = choose|j: int|
            0 <= j < u.len() && #[trigger] u[j].0 == s && table_value(u, s) == Some(u[j].1);
        assert(t[j + 1].0 == s);
    }
}

/// The name of a system value has a number, and that number has the name.
pub proof fn lemma_system_value(s: Seq<char>)
    requires
        is_entry(system_values(), s),
    ensures
        system_value_text(system_value_number(s)) == s,
        is_word(s),
{
    let t = system_values();
    lemma_system_values();
    lemma_value_entry(t, s);
    let i = choose|i: int|
        0 <= i < t.len() && #[trigger] t[i].0 == s && table_value(t, s) == Some(t[i].1);
    lemma_system_value_order();
    assert forall|a: int, b: int| 0 <= a < b < t.len() implies (#[trigger] t[a]).1 < (
    #[trigger] t[b]).1 by {
        assert(t[a].1 == system_value_at(a));
        assert(t[b].1 == system_value_at(b));
    }
    lemma_number_name(t, i);
    assert(is_word(t[i].0));
}

} // verus!
