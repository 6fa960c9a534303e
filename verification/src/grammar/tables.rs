//! Name tables shared by the readers and writers of shader text.

use vstd::prelude::*;

use crate::text::is_text;

verus! {

/// A table of names and their numbers.
pub type NameTable = Seq<(Seq<char>, u32)>;

/// The number of the first entry called `name`.
pub open spec fn table_value(t: NameTable, name: Seq<char>) -> Option<u32>
    decreases t.len(),
{
    if t.len() == 0 {
        None
    } else if t[0].0 == name {
        Some(t[0].1)
    } else {
        table_value(t.skip(1), name)
    }
}

/// The name of the first entry numbered `v`.
pub open spec fn table_name(t: NameTable, v: u32) -> Option<Seq<char>>
    decreases t.len(),
{
    if t.len() == 0 {
        None
    } else if t[0].1 == v {
        Some(t[0].0)
    } else {
        table_name(t.skip(1), v)
    }
}

/// The table that executable entries stand for.
pub open spec fn table_of(t: Seq<(&'static str, u32)>) -> NameTable {
    Seq::new(t.len(), |i: int| (t[i].0@, t[i].1))
}

/// The entry of the table called `s`.
fn find_name(table: &[(&'static str, u32)], s: &[char]) -> (r: Option<(&'static str, u32)>)
    ensures
        match r {
            Some((n, v)) => n@ == s@ && table_value(table_of(table@), s@) == Some(v),
            None => table_value(table_of(table@), s@) is None,
        },
{
    let mut i: usize = 0;
    let ghost t = table_of(table@);
    assert(t.skip(0) =~= t);
    while i < table.len()
        invariant
            t == table_of(table@),
            i <= table.len(),
            table_value(t, s@) == table_value(t.skip(i as int), s@),
        decreases table.len() - i,
    {
        assert(t.skip(i as int)[0] == t[i as int]);
        assert(t.skip(i as int).skip(1) =~= t.skip(i as int + 1));
        let (n, v) = table[i];
        if is_text(s, n) {
            return Some((n, v));
        }
        i += 1;
    }
    None
}

/// The table's own copy of the name `s`.
pub fn intern(table: &[(&'static str, u32)], s: &[char]) -> (r: Option<&'static str>)
    ensures
        match r {
            Some(n) => n@ == s@ && table_value(table_of(table@), s@) is Some,
            None => table_value(table_of(table@), s@) is None,
        },
{
    match find_name(table, s) {
        Some((n, _)) => Some(n),
        None => None,
    }
}

/// The number of the name `s`.
pub fn value_of(table: &[(&'static str, u32)], s: &[char]) -> (r: Option<u32>)
    ensures
        r == table_value(table_of(table@), s@),
{
    match find_name(table, s) {
        Some((_, v)) => Some(v),
        None => None,
    }
}

/// The name of the number `val`.
pub fn name_of(table: &[(&'static str, u32)], val: u32) -> (r: Option<&'static str>)
    ensures
        match r {
            Some(n) => table_name(table_of(table@), val) == Some(n@),
            None => table_name(table_of(table@), val) is None,
        },
{
    let mut i: usize = 0;
    let ghost t = table_of(table@);
    assert(t.skip(0) =~= t);
    while i < table.len()
        invariant
            t == table_of(table@),
            i <= table.len(),
            table_name(t, val) == table_name(t.skip(i as int), val),
        decreases table.len() - i,
    {
        assert(t.skip(i as int)[0] == t[i as int]);
        assert(t.skip(i as int).skip(1) =~= t.skip(i as int + 1));
        if table[i].1 == val {
            return Some(table[i].0);
        }
        i += 1;
    }
    None
}

/// Shader stages and their numbers.
pub open spec fn shader_types() -> NameTable {
    seq![
        ("ps"@, 0u32),
        ("vs"@, 1u32),
        ("gs"@, 2u32),
        ("hs"@, 3u32),
        ("ds"@, 4u32),
        ("cs"@, 5u32),
    ]
}

/// Shader stages and their numbers.
pub fn shader_types_table() -> (r: [(&'static str, u32); 6])
    ensures
        table_of(r@) == shader_types(),
{
    let r = [
        ("ps", 0u32),
        ("vs", 1u32),
        ("gs", 2u32),
        ("hs", 3u32),
        ("ds", 4u32),
        ("cs", 5u32),
    ];
    assert(table_of(r@) =~= shader_types());
    r
}

/// Pixel-shader interpolation modes.
pub open spec fn interpolations() -> NameTable {
    seq![
        ("undefined"@, 0u32),
        ("constant"@, 1u32),
        ("linear"@, 2u32),
        ("linearCentroid"@, 3u32),
        ("linearNoperspective"@, 4u32),
        ("linearNoperspectiveCentroid"@, 5u32),
        ("linearSample"@, 6u32),
        ("linearNoperspectiveSample"@, 7u32),
    ]
}

/// Pixel-shader interpolation modes.
pub fn interpolations_table() -> (r: [(&'static str, u32); 8])
    ensures
        table_of(r@) == interpolations(),
{
    let r = [
        ("undefined", 0u32),
        ("constant", 1u32),
        ("linear", 2u32),
        ("linearCentroid", 3u32),
        ("linearNoperspective", 4u32),
        ("linearNoperspectiveCentroid", 5u32),
        ("linearSample", 6u32),
        ("linearNoperspectiveSample", 7u32),
    ];
    assert(table_of(r@) =~= interpolations());
    r
}

/// Resource dimensions.
pub open spec fn dimensions() -> NameTable {
    seq![
        ("buffer"@, 1u32),
        ("texture1d"@, 2u32),
        ("texture2d"@, 3u32),
        ("texture2dms"@, 4u32),
        ("texture3d"@, 5u32),
        ("texturecube"@, 6u32),
        ("texture1darray"@, 7u32),
        ("texture2darray"@, 8u32),
        ("texture2dmsarray"@, 9u32),
        ("texturecubearray"@, 10u32),
        ("raw_buffer"@, 11u32),
        ("structured_buffer"@, 12u32),
    ]
}

/// Resource dimensions.
pub fn dimensions_table() -> (r: [(&'static str, u32); 12])
    ensures
        table_of(r@) == dimensions(),
{
    let r = [
        ("buffer", 1u32),
        ("texture1d", 2u32),
        ("texture2d", 3u32),
        ("texture2dms", 4u32),
        ("texture3d", 5u32),
        ("texturecube", 6u32),
        ("texture1darray", 7u32),
        ("texture2darray", 8u32),
        ("texture2dmsarray", 9u32),
        ("texturecubearray", 10u32),
        ("raw_buffer", 11u32),
        ("structured_buffer", 12u32),
    ];
    assert(table_of(r@) =~= dimensions());
    r
}

/// Sampler modes.
pub open spec fn sampler_modes() -> NameTable {
    seq![
        ("default"@, 0u32),
        ("comparison"@, 1u32),
        ("mono"@, 2u32),
    ]
}

/// Sampler modes.
pub fn sampler_modes_table() -> (r: [(&'static str, u32); 3])
    ensures
        table_of(r@) == sampler_modes(),
{
    let r = [
        ("default", 0u32),
        ("comparison", 1u32),
        ("mono", 2u32),
    ];
    assert(table_of(r@) =~= sampler_modes());
    r
}

/// Constant-buffer access patterns.
pub open spec fn cb_access() -> NameTable {
    seq![
        ("immediateIndexed"@, 0u32),
        ("dynamicIndexed"@, 1u32),
    ]
}

/// Constant-buffer access patterns.
pub fn cb_access_table() -> (r: [(&'static str, u32); 2])
    ensures
        table_of(r@) == cb_access(),
{
    let r = [
        ("immediateIndexed", 0u32),
        ("dynamicIndexed", 1u32),
    ];
    assert(table_of(r@) =~= cb_access());
    r
}

/// Tessellator domains.
pub open spec fn tess_domains() -> NameTable {
    seq![
        ("undefined"@, 0u32),
        ("isoline"@, 1u32),
        ("tri"@, 2u32),
        ("quad"@, 3u32),
    ]
}

/// Tessellator domains.
pub fn tess_domains_table() -> (r: [(&'static str, u32); 4])
    ensures
        table_of(r@) == tess_domains(),
{
    let r = [
        ("undefined", 0u32),
        ("isoline", 1u32),
        ("tri", 2u32),
        ("quad", 3u32),
    ];
    assert(table_of(r@) =~= tess_domains());
    r
}

/// Tessellator partitionings.
pub open spec fn tess_partitionings() -> NameTable {
    seq![
        ("undefined"@, 0u32),
        ("integer"@, 1u32),
        ("pow2"@, 2u32),
        ("fractional_odd"@, 3u32),
        ("fractional_even"@, 4u32),
    ]
}

/// Tessellator partitionings.
pub fn tess_partitionings_table() -> (r: [(&'static str, u32); 5])
    ensures
        table_of(r@) == tess_partitionings(),
{
    let r = [
        ("undefined", 0u32),
        ("integer", 1u32),
        ("pow2", 2u32),
        ("fractional_odd", 3u32),
        ("fractional_even", 4u32),
    ];
    assert(table_of(r@) =~= tess_partitionings());
    r
}

/// Primitives the tessellator emits.
pub open spec fn tess_output_prims() -> NameTable {
    seq![
        ("undefined"@, 0u32),
        ("point"@, 1u32),
        ("line"@, 2u32),
        ("triangle_cw"@, 3u32),
        ("triangle_ccw"@, 4u32),
    ]
}

/// Primitives the tessellator emits.
pub fn tess_output_prims_table() -> (r: [(&'static str, u32); 5])
    ensures
        table_of(r@) == tess_output_prims(),
{
    let r = [
        ("undefined", 0u32),
        ("point", 1u32),
        ("line", 2u32),
        ("triangle_cw", 3u32),
        ("triangle_ccw", 4u32),
    ];
    assert(table_of(r@) =~= tess_output_prims());
    r
}

/// Global flags, by bit position.
pub open spec fn global_flags() -> NameTable {
    seq![
        ("refactoringAllowed"@, 0u32),
        ("enableDoublePrecisionFloatOps"@, 1u32),
        ("forceEarlyDepthStencil"@, 2u32),
        ("enableRawAndStructuredBuffers"@, 3u32),
        ("skipOptimization"@, 4u32),
        ("enableMinPrecision"@, 5u32),
        ("enable11_1DoubleExtensions"@, 6u32),
        ("enable11_1ShaderExtensions"@, 7u32),
    ]
}

/// Global flags, by bit position.
pub fn global_flags_table() -> (r: [(&'static str, u32); 8])
    ensures
        table_of(r@) == global_flags(),
{
    let r = [
        ("refactoringAllowed", 0u32),
        ("enableDoublePrecisionFloatOps", 1u32),
        ("forceEarlyDepthStencil", 2u32),
        ("enableRawAndStructuredBuffers", 3u32),
        ("skipOptimization", 4u32),
        ("enableMinPrecision", 5u32),
        ("enable11_1DoubleExtensions", 6u32),
        ("enable11_1ShaderExtensions", 7u32),
    ];
    assert(table_of(r@) =~= global_flags());
    r
}

/// System values.
pub open spec fn system_values() -> NameTable {
    seq![
        ("undefined"@, 0u32),
        ("position"@, 1u32),
        ("clip_distance"@, 2u32),
        ("cull_distance"@, 3u32),
        ("render_target_array_index"@, 4u32),
        ("viewport_array_index"@, 5u32),
        ("vertex_id"@, 6u32),
        ("primitive_id"@, 7u32),
        ("instance_id"@, 8u32),
        ("is_front_face"@, 9u32),
        ("sample_index"@, 10u32),
        ("finalQuadUeq0EdgeTessFactor"@, 11u32),
        ("finalQuadVeq0EdgeTessFactor"@, 12u32),
        ("finalQuadUeq1EdgeTessFactor"@, 13u32),
        ("finalQuadVeq1EdgeTessFactor"@, 14u32),
        ("finalQuadUInsideTessFactor"@, 15u32),
        ("finalQuadVInsideTessFactor"@, 16u32),
        ("finalTriUeq0EdgeTessFactor"@, 17u32),
        ("finalTriVeq0EdgeTessFactor"@, 18u32),
        ("finalTriWeq0EdgeTessFactor"@, 19u32),
        ("finalTriInsideTessFactor"@, 20u32),
        ("finalLineDetailTessFactor"@, 21u32),
        ("finalLineDensityTessFactor"@, 22u32),
        ("target"@, 64u32),
        ("depth"@, 65u32),
        ("coverage"@, 66u32),
        ("depth_greater_equal"@, 67u32),
        ("depth_less_equal"@, 68u32),
        ("stencil_ref"@, 69u32),
        ("inner_coverage"@, 70u32),
    ]
}

/// System values.
pub fn system_values_table() -> (r: [(&'static str, u32); 30])
    ensures
        table_of(r@) == system_values(),
{
    let r = [
        ("undefined", 0u32),
        ("position", 1u32),
        ("clip_distance", 2u32),
        ("cull_distance", 3u32),
        ("render_target_array_index", 4u32),
        ("viewport_array_index", 5u32),
        ("vertex_id", 6u32),
        ("primitive_id", 7u32),
        ("instance_id", 8u32),
        ("is_front_face", 9u32),
        ("sample_index", 10u32),
        ("finalQuadUeq0EdgeTessFactor", 11u32),
        ("finalQuadVeq0EdgeTessFactor", 12u32),
        ("finalQuadUeq1EdgeTessFactor", 13u32),
        ("finalQuadVeq1EdgeTessFactor", 14u32),
        ("finalQuadUInsideTessFactor", 15u32),
        ("finalQuadVInsideTessFactor", 16u32),
        ("finalTriUeq0EdgeTessFactor", 17u32),
        ("finalTriVeq0EdgeTessFactor", 18u32),
        ("finalTriWeq0EdgeTessFactor", 19u32),
        ("finalTriInsideTessFactor", 20u32),
        ("finalLineDetailTessFactor", 21u32),
        ("finalLineDensityTessFactor", 22u32),
        ("target", 64u32),
        ("depth", 65u32),
        ("coverage", 66u32),
        ("depth_greater_equal", 67u32),
        ("depth_less_equal", 68u32),
        ("stencil_ref", 69u32),
        ("inner_coverage", 70u32),
    ];
    assert(table_of(r@) =~= system_values());
    r
}

/// The name of the system value `v`; `unknown_sv` where it has none.
pub open spec fn system_value_text(v: u32) -> Seq<char> {
    match table_name(system_values(), v) {
        Some(n) => n,
        None => "unknown_sv"@,
    }
}

/// The number of the system value called `s`, nought where there is none.
pub open spec fn system_value_number(s: Seq<char>) -> u32 {
    match table_value(system_values(), s) {
        Some(v) => v,
        None => 0,
    }
}

/// The name of the system value `v`; `unknown_sv` where it has none.
pub fn system_value_name(v: u32) -> (r: &'static str)
    ensures
        r@ == system_value_text(v),
{
    let t = system_values_table();
    match name_of(&t, v) {
        Some(n) => n,
        None => "unknown_sv",
    }
}

/// The number of the system value called `s`, nought where there is none.
pub fn system_value_to_u32(s: &[char]) -> (r: u32)
    ensures
        r == system_value_number(s@),
{
    let t = system_values_table();
    match value_of(&t, s) {
        Some(v) => v,
        None => 0,
    }
}

/// The letter of component `i`.
pub open spec fn axis_char(i: int) -> char {
    if i == 0 {
        'x'
    } else if i == 1 {
        'y'
    } else if i == 2 {
        'z'
    } else {
        'w'
    }
}

/// The component of the letter `c`.
pub open spec fn axis_value(c: char) -> Option<u8> {
    if c == 'x' {
        Some(0)
    } else if c == 'y' {
        Some(1)
    } else if c == 'z' {
        Some(2)
    } else if c == 'w' {
        Some(3)
    } else {
        None
    }
}

/// The letter of component `i`, of which the two lowest bits count.
pub fn axis_letter(i: u8) -> (c: char)
    ensures
        c == axis_char((i % 4) as int),
{
    let k: u8 = i % 4;
    if k == 0 {
        'x'
    } else if k == 1 {
        'y'
    } else if k == 2 {
        'z'
    } else {
        'w'
    }
}

/// The component of the letter `c`.
pub fn axis_index(c: char) -> (r: Option<u8>)
    ensures
        r == axis_value(c),
{
    match c {
        'x' => Some(0),
        'y' => Some(1),
        'z' => Some(2),
        'w' => Some(3),
        _ => None,
    }
}

} // verus!
