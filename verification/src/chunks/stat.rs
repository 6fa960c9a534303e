//! The statistics chunk: counts of what a shader holds.

use vstd::prelude::*;

use crate::bytes::{
    cursor_bytes, cursor_new, cursor_pos, cursor_read_u32, lemma_words_bytes, push_u32, nth_word,
    word_at, words_bytes,
};
use crate::checksum::zeros;
use crate::lines::{lines_of, text_lines, views, words, words_of};
use crate::numerals::{dec_text, parse_nat, parse_unsigned, push_dec};
use crate::text::{chars_of, is_text, push_text};

verus! {

/// The statistics of a shader.
#[derive(Clone, Copy, Debug, PartialEq, Eq)]
pub struct ShaderStats {
    /// Instructions.
    pub instruction_count: u32,
    /// Temporary registers.
    pub temp_register_count: u32,
    /// Defined constants.
    pub define_count: u32,
    /// Declarations.
    pub declaration_count: u32,
    /// Floating-point instructions.
    pub float_instruction_count: u32,
    /// Signed integer instructions.
    pub int_instruction_count: u32,
    /// Unsigned integer instructions.
    pub uint_instruction_count: u32,
    /// Static flow-control instructions.
    pub static_flow_control_count: u32,
    /// Dynamic flow-control instructions.
    pub dynamic_flow_control_count: u32,
    /// Macro instructions.
    pub macro_instruction_count: u32,
    /// Indexable temporary arrays.
    pub temp_array_count: u32,
    /// Array instructions.
    pub array_instruction_count: u32,
    /// `cut` instructions.
    pub cut_instruction_count: u32,
    /// `emit` instructions.
    pub emit_instruction_count: u32,
    /// Plain texture instructions.
    pub texture_normal_instructions: u32,
    /// Texture loads.
    pub texture_load_instructions: u32,
    /// Texture comparisons.
    pub texture_comp_instructions: u32,
    /// Biased texture instructions.
    pub texture_bias_instructions: u32,
    /// Texture gradients.
    pub texture_gradient_instructions: u32,
    /// `mov` instructions.
    pub mov_instruction_count: u32,
    /// `movc` instructions.
    pub movc_instruction_count: u32,
    /// Conversions.
    pub conversion_instruction_count: u32,
    /// The geometry shader's input primitive, as a number.
    pub gs_input_primitive: u32,
    /// The geometry shader's output topology, as a number.
    pub gs_output_topology: u32,
    /// The most vertices a geometry shader emits.
    pub gs_max_output_vertex_count: u32,
    /// Geometry-shader instances.
    pub gs_instance_count: u32,
    /// Hull-shader control points.
    pub hs_control_points: u32,
    /// The hull shader's output primitive, as a number.
    pub hs_output_primitive: u32,
    /// The hull shader's partitioning, as a number.
    pub hs_partitioning: u32,
    /// The tessellator domain, as a number.
    pub ds_tessellator_domain: u32,
    /// Barriers.
    pub barrier_instructions: u32,
    /// Interlocked instructions.
    pub interlocked_instructions: u32,
    /// Texture stores.
    pub texture_store_instructions: u32,
    /// Whether a pixel shader runs once per sample.
    pub is_sample_frequency: bool,
    /// Words without a stated meaning.
    pub reserved: [u32; 4],
    /// The chunk's size in bytes.
    pub raw_size: usize,
}

/// Statistics in which all is nought.
pub open spec fn no_stats() -> ShaderStats {
    ShaderStats {
        instruction_count: 0,
        temp_register_count: 0,
        define_count: 0,
        declaration_count: 0,
        float_instruction_count: 0,
        int_instruction_count: 0,
        uint_instruction_count: 0,
        static_flow_control_count: 0,
        dynamic_flow_control_count: 0,
        macro_instruction_count: 0,
        temp_array_count: 0,
        array_instruction_count: 0,
        cut_instruction_count: 0,
        emit_instruction_count: 0,
        texture_normal_instructions: 0,
        texture_load_instructions: 0,
        texture_comp_instructions: 0,
        texture_bias_instructions: 0,
        texture_gradient_instructions: 0,
        mov_instruction_count: 0,
        movc_instruction_count: 0,
        conversion_instruction_count: 0,
        gs_input_primitive: 0,
        gs_output_topology: 0,
        gs_max_output_vertex_count: 0,
        gs_instance_count: 0,
        hs_control_points: 0,
        hs_output_primitive: 0,
        hs_partitioning: 0,
        ds_tessellator_domain: 0,
        barrier_instructions: 0,
        interlocked_instructions: 0,
        texture_store_instructions: 0,
        is_sample_frequency: false,
        reserved: [0, 0, 0, 0],
        raw_size: 0,
    }
}

impl Default for ShaderStats {
    fn default() -> (r: ShaderStats)
        ensures
            r == no_stats(),
    {
        ShaderStats {
            instruction_count: 0,
            temp_register_count: 0,
            define_count: 0,
            declaration_count: 0,
            float_instruction_count: 0,
            int_instruction_count: 0,
            uint_instruction_count: 0,
            static_flow_control_count: 0,
            dynamic_flow_control_count: 0,
            macro_instruction_count: 0,
            temp_array_count: 0,
            array_instruction_count: 0,
            cut_instruction_count: 0,
            emit_instruction_count: 0,
            texture_normal_instructions: 0,
            texture_load_instructions: 0,
            texture_comp_instructions: 0,
            texture_bias_instructions: 0,
            texture_gradient_instructions: 0,
            mov_instruction_count: 0,
            movc_instruction_count: 0,
            conversion_instruction_count: 0,
            gs_input_primitive: 0,
            gs_output_topology: 0,
            gs_max_output_vertex_count: 0,
            gs_instance_count: 0,
            hs_control_points: 0,
            hs_output_primitive: 0,
            hs_partitioning: 0,
            ds_tessellator_domain: 0,
            barrier_instructions: 0,
            interlocked_instructions: 0,
            texture_store_instructions: 0,
            is_sample_frequency: false,
            reserved: [0, 0, 0, 0],
            raw_size: 0,
        }
    }
}

// ---------------------------------------------------------------------------
// Counters by name
// ---------------------------------------------------------------------------

/// The number of counters that have a name.
pub const COUNTERS: usize = 33;

/// The names of the counters.
pub open spec fn counter_names() -> Seq<Seq<char>> {
    seq![
        "instructions"@,
        "temps"@,
        "defines"@,
        "declarations"@,
        "float_ops"@,
        "int_ops"@,
        "uint_ops"@,
        "static_flow"@,
        "dynamic_flow"@,
        "macros"@,
        "temp_arrays"@,
        "array_ops"@,
        "cuts"@,
        "emits"@,
        "tex_normal"@,
        "tex_load"@,
        "tex_comp"@,
        "tex_bias"@,
        "tex_gradient"@,
        "movs"@,
        "movcs"@,
        "conversions"@,
        "gs_input_prim"@,
        "gs_output_topo"@,
        "gs_max_verts"@,
        "gs_instances"@,
        "hs_control_points"@,
        "hs_output_prim"@,
        "hs_partitioning"@,
        "ds_domain"@,
        "barriers"@,
        "interlocked"@,
        "tex_store"@,
    ]
}

/// The values of the counters, in the order of their names.
pub open spec fn counters(s: ShaderStats) -> Seq<u32> {
    seq![
        s.instruction_count,
        s.temp_register_count,
        s.define_count,
        s.declaration_count,
        s.float_instruction_count,
        s.int_instruction_count,
        s.uint_instruction_count,
        s.static_flow_control_count,
        s.dynamic_flow_control_count,
        s.macro_instruction_count,
        s.temp_array_count,
        s.array_instruction_count,
        s.cut_instruction_count,
        s.emit_instruction_count,
        s.texture_normal_instructions,
        s.texture_load_instructions,
        s.texture_comp_instructions,
        s.texture_bias_instructions,
        s.texture_gradient_instructions,
        s.mov_instruction_count,
        s.movc_instruction_count,
        s.conversion_instruction_count,
        s.gs_input_primitive,
        s.gs_output_topology,
        s.gs_max_output_vertex_count,
        s.gs_instance_count,
        s.hs_control_points,
        s.hs_output_primitive,
        s.hs_partitioning,
        s.ds_tessellator_domain,
        s.barrier_instructions,
        s.interlocked_instructions,
        s.texture_store_instructions,
    ]
}

/// `s` with counter number `i` set to `v`.
pub open spec fn with_counter(s: ShaderStats, i: int, v: u32) -> ShaderStats {
    if i == 0 {
        ShaderStats { instruction_count: v, ..s }
    } else if i == 1 {
        ShaderStats { temp_register_count: v, ..s }
    } else if i == 2 {
        ShaderStats { define_count: v, ..s }
    } else if i == 3 {
        ShaderStats { declaration_count: v, ..s }
    } else if i == 4 {
        ShaderStats { float_instruction_count: v, ..s }
    } else if i == 5 {
        ShaderStats { int_instruction_count: v, ..s }
    } else if i == 6 {
        ShaderStats { uint_instruction_count: v, ..s }
    } else if i == 7 {
        ShaderStats { static_flow_control_count: v, ..s }
    } else if i == 8 {
        ShaderStats { dynamic_flow_control_count: v, ..s }
    } else if i == 9 {
        ShaderStats { macro_instruction_count: v, ..s }
    } else if i == 10 {
        ShaderStats { temp_array_count: v, ..s }
    } else if i == 11 {
        ShaderStats { array_instruction_count: v, ..s }
    } else if i == 12 {
        ShaderStats { cut_instruction_count: v, ..s }
    } else if i == 13 {
        ShaderStats { emit_instruction_count: v, ..s }
    } else if i == 14 {
        ShaderStats { texture_normal_instructions: v, ..s }
    } else if i == 15 {
        ShaderStats { texture_load_instructions: v, ..s }
    } else if i == 16 {
        ShaderStats { texture_comp_instructions: v, ..s }
    } else if i == 17 {
        ShaderStats { texture_bias_instructions: v, ..s }
    } else if i == 18 {
        ShaderStats { texture_gradient_instructions: v, ..s }
    } else if i == 19 {
        ShaderStats { mov_instruction_count: v, ..s }
    } else if i == 20 {
        ShaderStats { movc_instruction_count: v, ..s }
    } else if i == 21 {
        ShaderStats { conversion_instruction_count: v, ..s }
    } else if i == 22 {
        ShaderStats { gs_input_primitive: v, ..s }
    } else if i == 23 {
        ShaderStats { gs_output_topology: v, ..s }
    } else if i == 24 {
        ShaderStats { gs_max_output_vertex_count: v, ..s }
    } else if i == 25 {
        ShaderStats { gs_instance_count: v, ..s }
    } else if i == 26 {
        ShaderStats { hs_control_points: v, ..s }
    } else if i == 27 {
        ShaderStats { hs_output_primitive: v, ..s }
    } else if i == 28 {
        ShaderStats { hs_partitioning: v, ..s }
    } else if i == 29 {
        ShaderStats { ds_tessellator_domain: v, ..s }
    } else if i == 30 {
        ShaderStats { barrier_instructions: v, ..s }
    } else if i == 31 {
        ShaderStats { interlocked_instructions: v, ..s }
    } else {
        ShaderStats { texture_store_instructions: v, ..s }
    }
}

/// The number of the counter called `key`, from number `i` on.
pub open spec fn counter_index(key: Seq<char>, i: int) -> Option<int>
    decreases 33 - i,
{
    if i < 0 || i >= 33 {
        None
    } else if counter_names()[i] == key {
        Some(i)
    } else {
        counter_index(key, i + 1)
    }
}

/// The names and values of the counters.
pub(crate) fn stat_fields(s: &ShaderStats) -> (r: [(&'static str, u32); 33])
    ensures
        forall|i: int| 0 <= i < 33 ==> (#[trigger] r@[i]).0@ == counter_names()[i],
        forall|i: int| 0 <= i < 33 ==> (#[trigger] r@[i]).1 == counters(*s)[i],
{
    [
        ("instructions", s.instruction_count),
        ("temps", s.temp_register_count),
        ("defines", s.define_count),
        ("declarations", s.declaration_count),
        ("float_ops", s.float_instruction_count),
        ("int_ops", s.int_instruction_count),
        ("uint_ops", s.uint_instruction_count),
        ("static_flow", s.static_flow_control_count),
        ("dynamic_flow", s.dynamic_flow_control_count),
        ("macros", s.macro_instruction_count),
        ("temp_arrays", s.temp_array_count),
        ("array_ops", s.array_instruction_count),
        ("cuts", s.cut_instruction_count),
        ("emits", s.emit_instruction_count),
        ("tex_normal", s.texture_normal_instructions),
        ("tex_load", s.texture_load_instructions),
        ("tex_comp", s.texture_comp_instructions),
        ("tex_bias", s.texture_bias_instructions),
        ("tex_gradient", s.texture_gradient_instructions),
        ("movs", s.mov_instruction_count),
        ("movcs", s.movc_instruction_count),
        ("conversions", s.conversion_instruction_count),
        ("gs_input_prim", s.gs_input_primitive),
        ("gs_output_topo", s.gs_output_topology),
        ("gs_max_verts", s.gs_max_output_vertex_count),
        ("gs_instances", s.gs_instance_count),
        ("hs_control_points", s.hs_control_points),
        ("hs_output_prim", s.hs_output_primitive),
        ("hs_partitioning", s.hs_partitioning),
        ("ds_domain", s.ds_tessellator_domain),
        ("barriers", s.barrier_instructions),
        ("interlocked", s.interlocked_instructions),
        ("tex_store", s.texture_store_instructions),
    ]
}

/// Set counter number `i`.
fn set_counter(s: &mut ShaderStats, i: usize, v: u32)
    requires
        i < 33,
    ensures
        *final(s) == with_counter(*old(s), i as int, v),
{
    match i {
        0 => {
            s.instruction_count = v;
        },
        1 => {
            s.temp_register_count = v;
        },
        2 => {
            s.define_count = v;
        },
        3 => {
            s.declaration_count = v;
        },
        4 => {
            s.float_instruction_count = v;
        },
        5 => {
            s.int_instruction_count = v;
        },
        6 => {
            s.uint_instruction_count = v;
        },
        7 => {
            s.static_flow_control_count = v;
        },
        8 => {
            s.dynamic_flow_control_count = v;
        },
        9 => {
            s.macro_instruction_count = v;
        },
        10 => {
            s.temp_array_count = v;
        },
        11 => {
            s.array_instruction_count = v;
        },
        12 => {
            s.cut_instruction_count = v;
        },
        13 => {
            s.emit_instruction_count = v;
        },
        14 => {
            s.texture_normal_instructions = v;
        },
        15 => {
            s.texture_load_instructions = v;
        },
        16 => {
            s.texture_comp_instructions = v;
        },
        17 => {
            s.texture_bias_instructions = v;
        },
        18 => {
            s.texture_gradient_instructions = v;
        },
        19 => {
            s.mov_instruction_count = v;
        },
        20 => {
            s.movc_instruction_count = v;
        },
        21 => {
            s.conversion_instruction_count = v;
        },
        22 => {
            s.gs_input_primitive = v;
        },
        23 => {
            s.gs_output_topology = v;
        },
        24 => {
            s.gs_max_output_vertex_count = v;
        },
        25 => {
            s.gs_instance_count = v;
        },
        26 => {
            s.hs_control_points = v;
        },
        27 => {
            s.hs_output_primitive = v;
        },
        28 => {
            s.hs_partitioning = v;
        },
        29 => {
            s.ds_tessellator_domain = v;
        },
        30 => {
            s.barrier_instructions = v;
        },
        31 => {
            s.interlocked_instructions = v;
        },
        _ => {
            s.texture_store_instructions = v;
        },
    }
}

/// Set the counter called `key`; `false` where there is none.
pub(crate) fn set_field(s: &mut ShaderStats, key: &[char], v: u32) -> (r: bool)
    ensures
        match counter_index(key@, 0) {
            Some(i) => r && *final(s) == with_counter(*old(s), i, v),
            None => !r && *final(s) == *old(s),
        },
{
    let names = stat_fields(s);
    let mut i: usize = 0;
    while i < 33
        invariant
            i <= 33,
            forall|k: int| 0 <= k < 33 ==> (#[trigger] names@[k]).0@ == counter_names()[k],
            counter_index(key@, 0) == counter_index(key@, i as int),
            *s == *old(s),
        decreases 33 - i,
    {
        assert(names@[i as int].0@ == counter_names()[i as int]);
        if is_text(key, names[i].0) {
            set_counter(s, i, v);
            return true;
        }
        i += 1;
    }
    false
}

// ---------------------------------------------------------------------------
// Bytes
// ---------------------------------------------------------------------------

/// The words of the chunk, in order.
pub open spec fn stat_words(s: ShaderStats) -> Seq<u32> {
    seq![
        s.instruction_count,
        s.temp_register_count,
        s.define_count,
        s.declaration_count,
        s.float_instruction_count,
        s.int_instruction_count,
        s.uint_instruction_count,
        s.static_flow_control_count,
        s.dynamic_flow_control_count,
        s.macro_instruction_count,
        s.temp_array_count,
        s.array_instruction_count,
        s.cut_instruction_count,
        s.emit_instruction_count,
        s.texture_normal_instructions,
        s.texture_load_instructions,
        s.texture_comp_instructions,
        s.texture_bias_instructions,
        s.texture_gradient_instructions,
        s.mov_instruction_count,
        s.movc_instruction_count,
        s.conversion_instruction_count,
        s.reserved[0],
        s.reserved[1],
        s.gs_input_primitive,
        s.gs_output_topology,
        s.gs_max_output_vertex_count,
        s.reserved[2],
        s.reserved[3],
        if s.is_sample_frequency {
            1u32
        } else {
            0u32
        },
        s.gs_instance_count,
        s.hs_control_points,
        s.hs_output_primitive,
        s.hs_partitioning,
        s.ds_tessellator_domain,
        s.barrier_instructions,
        s.interlocked_instructions,
        s.texture_store_instructions,
    ]
}

/// The size of the chunk: as recorded, or that of a chunk without the fields of
/// later shader models.
pub open spec fn stat_size(s: ShaderStats) -> nat {
    if s.raw_size > 0 {
        s.raw_size as nat
    } else {
        120
    }
}

/// How many of the words the chunk has room for.
pub open spec fn stat_word_count(s: ShaderStats) -> nat {
    if stat_size(s) / 4 < 38 {
        stat_size(s) / 4
    } else {
        38
    }
}

/// The bytes of the chunk: the words it has room for, then zeros.
pub open spec fn stat_payload(s: ShaderStats) -> Seq<u8> {
    let b = words_bytes(stat_words(s).take(stat_word_count(s) as int));
    b + zeros((stat_size(s) - 4 * stat_word_count(s)) as nat)
}

/// The statistics in the bytes `d`; words it does not reach count as nought.
pub open spec fn stats_of(d: Seq<u8>) -> ShaderStats {
    ShaderStats {
        instruction_count: nth_word(d, 0),
        temp_register_count: nth_word(d, 1),
        define_count: nth_word(d, 2),
        declaration_count: nth_word(d, 3),
        float_instruction_count: nth_word(d, 4),
        int_instruction_count: nth_word(d, 5),
        uint_instruction_count: nth_word(d, 6),
        static_flow_control_count: nth_word(d, 7),
        dynamic_flow_control_count: nth_word(d, 8),
        macro_instruction_count: nth_word(d, 9),
        temp_array_count: nth_word(d, 10),
        array_instruction_count: nth_word(d, 11),
        cut_instruction_count: nth_word(d, 12),
        emit_instruction_count: nth_word(d, 13),
        texture_normal_instructions: nth_word(d, 14),
        texture_load_instructions: nth_word(d, 15),
        texture_comp_instructions: nth_word(d, 16),
        texture_bias_instructions: nth_word(d, 17),
        texture_gradient_instructions: nth_word(d, 18),
        mov_instruction_count: nth_word(d, 19),
        movc_instruction_count: nth_word(d, 20),
        conversion_instruction_count: nth_word(d, 21),
        gs_input_primitive: nth_word(d, 24),
        gs_output_topology: nth_word(d, 25),
        gs_max_output_vertex_count: nth_word(d, 26),
        is_sample_frequency: nth_word(d, 29) != 0,
        gs_instance_count: nth_word(d, 30),
        hs_control_points: nth_word(d, 31),
        hs_output_primitive: nth_word(d, 32),
        hs_partitioning: nth_word(d, 33),
        ds_tessellator_domain: nth_word(d, 34),
        barrier_instructions: nth_word(d, 35),
        interlocked_instructions: nth_word(d, 36),
        texture_store_instructions: nth_word(d, 37),
        reserved: [
            nth_word(d, 22),
            nth_word(d, 23),
            nth_word(d, 27),
            nth_word(d, 28),
        ],
        raw_size: d.len() as usize,
    }
}

/// Word number `i` of those read, nought where there are fewer.
fn word_of(d: &Vec<u32>, i: usize, Ghost(bytes): Ghost<Seq<u8>>) -> (r: u32)
    requires
        d@.len() == bytes.len() / 4,
        forall|k: int| 0 <= k < d@.len() ==> #[trigger] d@[k] == word_at(bytes, 4 * k),
    ensures
        r == nth_word(bytes, i as int),
{
    if i < d.len() {
        d[i]
    } else {
        0
    }
}

/// The statistics in a chunk; `None` where it is shorter than any such chunk.
pub fn parse_stat(data: &[u8]) -> (r: Option<ShaderStats>)
    ensures
        match r {
            Some(s) => data@.len() >= 116 && s == stats_of(data@),
            None => data@.len() < 116,
        },
{
    if data.len() < 116 {
        return None;
    }
    let ghost bytes = data@;
    let mut c = cursor_new(data);
    let n: usize = data.len() / 4;
    let mut d: Vec<u32> = Vec::new();
    while d.len() < n
        invariant
            n == bytes.len() / 4,
            d@.len() <= n,
            cursor_bytes(c) == bytes,
            cursor_pos(c) == 4 * d@.len(),
            bytes == data@,
            bytes.len() >= 116,
            forall|k: int| 0 <= k < d@.len() ==> #[trigger] d@[k] == word_at(bytes, 4 * k),
        decreases n - d@.len(),
    {
        match cursor_read_u32(&mut c) {
            Some(v) => {
                d.push(v);
            },
            None => {
                return None;
            },
        }
    }
    let s = ShaderStats {
        instruction_count: word_of(&d, 0, Ghost(bytes)),
        temp_register_count: word_of(&d, 1, Ghost(bytes)),
        define_count: word_of(&d, 2, Ghost(bytes)),
        declaration_count: word_of(&d, 3, Ghost(bytes)),
        float_instruction_count: word_of(&d, 4, Ghost(bytes)),
        int_instruction_count: word_of(&d, 5, Ghost(bytes)),
        uint_instruction_count: word_of(&d, 6, Ghost(bytes)),
        static_flow_control_count: word_of(&d, 7, Ghost(bytes)),
        dynamic_flow_control_count: word_of(&d, 8, Ghost(bytes)),
        macro_instruction_count: word_of(&d, 9, Ghost(bytes)),
        temp_array_count: word_of(&d, 10, Ghost(bytes)),
        array_instruction_count: word_of(&d, 11, Ghost(bytes)),
        cut_instruction_count: word_of(&d, 12, Ghost(bytes)),
        emit_instruction_count: word_of(&d, 13, Ghost(bytes)),
        texture_normal_instructions: word_of(&d, 14, Ghost(bytes)),
        texture_load_instructions: word_of(&d, 15, Ghost(bytes)),
        texture_comp_instructions: word_of(&d, 16, Ghost(bytes)),
        texture_bias_instructions: word_of(&d, 17, Ghost(bytes)),
        texture_gradient_instructions: word_of(&d, 18, Ghost(bytes)),
        mov_instruction_count: word_of(&d, 19, Ghost(bytes)),
        movc_instruction_count: word_of(&d, 20, Ghost(bytes)),
        conversion_instruction_count: word_of(&d, 21, Ghost(bytes)),
        gs_input_primitive: word_of(&d, 24, Ghost(bytes)),
        gs_output_topology: word_of(&d, 25, Ghost(bytes)),
        gs_max_output_vertex_count: word_of(&d, 26, Ghost(bytes)),
        is_sample_frequency: word_of(&d, 29, Ghost(bytes)) != 0,
        gs_instance_count: word_of(&d, 30, Ghost(bytes)),
        hs_control_points: word_of(&d, 31, Ghost(bytes)),
        hs_output_primitive: word_of(&d, 32, Ghost(bytes)),
        hs_partitioning: word_of(&d, 33, Ghost(bytes)),
        ds_tessellator_domain: word_of(&d, 34, Ghost(bytes)),
        barrier_instructions: word_of(&d, 35, Ghost(bytes)),
        interlocked_instructions: word_of(&d, 36, Ghost(bytes)),
        texture_store_instructions: word_of(&d, 37, Ghost(bytes)),
        reserved: [
            word_of(&d, 22, Ghost(bytes)),
            word_of(&d, 23, Ghost(bytes)),
            word_of(&d, 27, Ghost(bytes)),
            word_of(&d, 28, Ghost(bytes)),
        ],
        raw_size: data.len(),
    };
    assert(s.reserved =~= stats_of(bytes).reserved);
    Some(s)
}

impl ShaderStats {
    /// The code of the chunk.
    pub fn fourcc(&self) -> (r: [u8; 4])
        ensures
            r@ == seq![0x53u8, 0x54u8, 0x41u8, 0x54u8],
    {
        let r = [0x53u8, 0x54u8, 0x41u8, 0x54u8];
        assert(r@ =~= seq![0x53u8, 0x54u8, 0x41u8, 0x54u8]);
        r
    }

    /// The bytes of the chunk.
    pub fn write_payload(&self) -> (r: Vec<u8>)
        ensures
            r@ == stat_payload(*self),
    {
        let size: usize = if self.raw_size > 0 { self.raw_size } else { 120 };
        let sf: u32 = if self.is_sample_frequency { 1 } else { 0 };
        let dwords = [
            self.instruction_count,
            self.temp_register_count,
            self.define_count,
            self.declaration_count,
            self.float_instruction_count,
            self.int_instruction_count,
            self.uint_instruction_count,
            self.static_flow_control_count,
            self.dynamic_flow_control_count,
            self.macro_instruction_count,
            self.temp_array_count,
            self.array_instruction_count,
            self.cut_instruction_count,
            self.emit_instruction_count,
            self.texture_normal_instructions,
            self.texture_load_instructions,
            self.texture_comp_instructions,
            self.texture_bias_instructions,
            self.texture_gradient_instructions,
            self.mov_instruction_count,
            self.movc_instruction_count,
            self.conversion_instruction_count,
            self.reserved[0],
            self.reserved[1],
            self.gs_input_primitive,
            self.gs_output_topology,
            self.gs_max_output_vertex_count,
            self.reserved[2],
            self.reserved[3],
            sf,
            self.gs_instance_count,
            self.hs_control_points,
            self.hs_output_primitive,
            self.hs_partitioning,
            self.ds_tessellator_domain,
            self.barrier_instructions,
            self.interlocked_instructions,
            self.texture_store_instructions,
        ];
        assert(dwords@ =~= stat_words(*self));
        let n: usize = if size / 4 < 38 { size / 4 } else { 38 };
        let mut buf: Vec<u8> = Vec::new();
        let mut i: usize = 0;
        assert(dwords@.take(0) =~= Seq::empty());
        while i < n
            invariant
                i <= n <= 38,
                buf@ == words_bytes(dwords@.take(i as int)),
            decreases n - i,
        {
            push_u32(&mut buf, dwords[i]);
            i += 1;
            assert(dwords@.take(i as int).drop_last() =~= dwords@.take(i as int - 1));
        }
        let ghost head = buf@;
        proof {
            lemma_words_bytes(dwords@.take(n as int));
        }
        while buf.len() < size
            invariant
                head.len() <= buf@.len() <= size,
                buf@ == head + zeros((buf@.len() - head.len()) as nat),
            decreases size - buf@.len(),
        {
            let ghost k = (buf@.len() - head.len()) as nat;
            buf.push(0);
            assert(buf@ =~= head + zeros(k + 1));
        }
        buf
    }
}

// ---------------------------------------------------------------------------
// Text
// ---------------------------------------------------------------------------

/// The lines of the counters from number `k` on, with `sep` between name and
/// value.
pub open spec fn counters_text(s: ShaderStats, sep: char, k: int) -> Seq<char>
    decreases 33 - k,
{
    if k < 0 || k >= 33 {
        Seq::empty()
    } else {
        counter_line(s, sep, k).push('\n') + counters_text(s, sep, k + 1)
    }
}

/// The line of counter number `k`.
pub open spec fn counter_line(s: ShaderStats, sep: char, k: int) -> Seq<char> {
    counter_names()[k].push(sep) + dec_text(counters(s)[k] as nat)
}

/// The four reserved words, separated by `sep`.
pub open spec fn reserved_text(s: ShaderStats, sep: char) -> Seq<char> {
    dec_text(s.reserved[0] as nat).push(sep) + (dec_text(s.reserved[1] as nat).push(sep) + (
    dec_text(s.reserved[2] as nat).push(sep) + dec_text(s.reserved[3] as nat)))
}

/// Write the lines of the counters.
pub(crate) fn write_counters(o: &mut String, s: &ShaderStats, sep: char)
    ensures
        final(o)@ == old(o)@ + counters_text(*s, sep, 0),
{
    let fields = stat_fields(s);
    let mut k: usize = 0;
    while k < 33
        invariant
            k <= 33,
            forall|i: int| 0 <= i < 33 ==> (#[trigger] fields@[i]).0@ == counter_names()[i],
            forall|i: int| 0 <= i < 33 ==> (#[trigger] fields@[i]).1 == counters(*s)[i],
            o@ + counters_text(*s, sep, k as int) == old(o)@ + counters_text(*s, sep, 0),
        decreases 33 - k,
    {
        let ghost before = o@;
        assert(fields@[k as int].0@ == counter_names()[k as int]);
        push_text(o, fields[k].0);
        o.push(sep);
        push_dec(o, fields[k].1 as u64);
        o.push('\n');
        proof {
            let line = counter_line(*s, sep, k as int);
            assert(o@ =~= before + line.push('\n'));
            crate::text::lemma_cat3(before, line.push('\n'), counters_text(*s, sep, k as int + 1));
        }
        k += 1;
    }
    assert(o@ =~= old(o)@ + counters_text(*s, sep, 0));
}

/// Write the reserved words.
pub(crate) fn write_reserved(o: &mut String, s: &ShaderStats, sep: char)
    ensures
        final(o)@ == old(o)@ + reserved_text(*s, sep),
{
    push_dec(o, s.reserved[0] as u64);
    o.push(sep);
    push_dec(o, s.reserved[1] as u64);
    o.push(sep);
    push_dec(o, s.reserved[2] as u64);
    o.push(sep);
    push_dec(o, s.reserved[3] as u64);
    assert(o@ =~= old(o)@ + reserved_text(*s, sep));
}

/// The statistics as lines of a name and a value.
pub open spec fn stat_text(s: ShaderStats) -> Seq<char> {
    ("size "@ + dec_text(s.raw_size as nat)).push('\n') + (("sample_frequency "@ + dec_text(
        if s.is_sample_frequency {
            1
        } else {
            0
        },
    )).push('\n') + (("reserved "@ + reserved_text(s, ' ')).push('\n') + counters_text(s, ' ', 0)))
}

/// Write the statistics as lines of a name and a value.
pub fn stat_to_text(s: &ShaderStats) -> (r: String)
    ensures
        r@ == stat_text(*s),
{
    let mut o = String::new();
    push_text(&mut o, "size ");
    push_dec(&mut o, s.raw_size as u64);
    o.push('\n');
    let ghost l1 = ("size "@ + dec_text(s.raw_size as nat)).push('\n');
    assert(o@ =~= l1);
    push_text(&mut o, "sample_frequency ");
    push_dec(&mut o, if s.is_sample_frequency { 1 } else { 0 });
    o.push('\n');
    let ghost l2 = ("sample_frequency "@ + dec_text(
        if s.is_sample_frequency {
            1
        } else {
            0
        },
    )).push('\n');
    assert(o@ =~= l1 + l2);
    push_text(&mut o, "reserved ");
    write_reserved(&mut o, s, ' ');
    o.push('\n');
    let ghost l3 = ("reserved "@ + reserved_text(*s, ' ')).push('\n');
    assert(o@ =~= l1 + l2 + l3);
    write_counters(&mut o, s, ' ');
    proof {
        crate::text::lemma_cat4(l1, l2, l3, counters_text(*s, ' ', 0));
    }
    o
}

/// Word number `k` as a number of at most `max`.
pub open spec fn word_number(ws: Seq<Seq<char>>, k: int, max: nat) -> Option<nat> {
    if k < ws.len() {
        parse_nat(ws[k], 10, max)
    } else {
        None
    }
}

/// The statistics `s` with what the line of the words `ws` says.
pub open spec fn stat_line(s: ShaderStats, ws: Seq<Seq<char>>) -> Option<ShaderStats> {
    if ws.len() == 0 {
        None
    } else if ws[0] == "size"@ {
        match word_number(ws, 1, usize::MAX as nat) {
            Some(v) => Some(ShaderStats { raw_size: v as usize, ..s }),
            None => None,
        }
    } else if ws[0] == "sample_frequency"@ {
        match word_number(ws, 1, 0xffff_ffff) {
            Some(v) => Some(ShaderStats { is_sample_frequency: v != 0, ..s }),
            None => None,
        }
    } else if ws[0] == "reserved"@ {
        match (
            word_number(ws, 1, 0xffff_ffff),
            word_number(ws, 2, 0xffff_ffff),
            word_number(ws, 3, 0xffff_ffff),
            word_number(ws, 4, 0xffff_ffff),
        ) {
            (Some(a), Some(b), Some(c), Some(d)) => Some(
                ShaderStats { reserved: [a as u32, b as u32, c as u32, d as u32], ..s },
            ),
            _ => None,
        }
    } else {
        match (word_number(ws, 1, 0xffff_ffff), counter_index(ws[0], 0)) {
            (Some(v), Some(i)) => Some(with_counter(s, i, v as u32)),
            _ => None,
        }
    }
}

/// The statistics `s` with what the lines from number `k` on say.
pub open spec fn stat_lines(s: ShaderStats, ls: Seq<Seq<char>>, k: int) -> Option<ShaderStats>
    decreases ls.len() - k,
{
    if k < 0 || k >= ls.len() {
        Some(s)
    } else {
        match stat_line(s, words(ls[k])) {
            Some(s2) => stat_lines(s2, ls, k + 1),
            None => None,
        }
    }
}

fn number_in(ws: &Vec<&[char]>, k: usize, max: u64) -> (r: Option<u64>)
    ensures
        match r {
            Some(v) => word_number(views(ws@), k as int, max as nat) == Some(v as nat) && v <= max,
            None => word_number(views(ws@), k as int, max as nat) is None,
        },
{
    if k < ws.len() {
        parse_unsigned(ws[k], 10, max)
    } else {
        None
    }
}

fn read_stat_line(s: &mut ShaderStats, line: &[char]) -> (r: bool)
    ensures
        match stat_line(*old(s), words(line@)) {
            Some(s2) => r && *final(s) == s2,
            None => !r,
        },
{
    let ws = words_of(line);
    let ghost m = views(ws@);
    if ws.len() == 0 {
        return false;
    }
    assert(m[0] == ws@[0]@);
    if is_text(ws[0], "size") {
        match number_in(&ws, 1, usize::MAX as u64) {
            Some(v) => {
                s.raw_size = v as usize;
                true
            },
            None => false,
        }
    } else if is_text(ws[0], "sample_frequency") {
        match number_in(&ws, 1, 0xffff_ffff) {
            Some(v) => {
                s.is_sample_frequency = v != 0;
                true
            },
            None => false,
        }
    } else if is_text(ws[0], "reserved") {
        match (
            number_in(&ws, 1, 0xffff_ffff),
            number_in(&ws, 2, 0xffff_ffff),
            number_in(&ws, 3, 0xffff_ffff),
            number_in(&ws, 4, 0xffff_ffff),
        ) {
            (Some(a), Some(b), Some(c), Some(d)) => {
                s.reserved = [a as u32, b as u32, c as u32, d as u32];
                true
            },
            _ => false,
        }
    } else {
        match number_in(&ws, 1, 0xffff_ffff) {
            Some(v) => set_field(s, ws[0], v as u32),
            None => false,
        }
    }
}

/// Read the statistics from lines of a name and a value: names that are not
/// there count as nought, and an unknown name or a bad number is an error.
pub fn stat_from_text(text: &str) -> (r: Option<ShaderStats>)
    ensures
        r == stat_lines(no_stats(), text_lines(text@, false), 0),
{
    let chars = chars_of(text);
    let lines = lines_of(chars.as_slice(), false);
    let ghost ls = views(lines@);
    let mut s = ShaderStats::default();
    let mut i: usize = 0;
    while i < lines.len()
        invariant
            ls == views(lines@),
            ls == text_lines(text@, false),
            i <= lines.len(),
            stat_lines(s, ls, i as int) == stat_lines(no_stats(), ls, 0),
        decreases lines.len() - i,
    {
        assert(ls[i as int] == lines@[i as int]@);
        if !read_stat_line(&mut s, lines[i]) {
            return None;
        }
        i += 1;
    }
    Some(s)
}

// ---------------------------------------------------------------------------
// Summary
// ---------------------------------------------------------------------------

/// A comment line that says how many there are of something.
pub open spec fn count_line(n: u32, what: Seq<char>) -> Seq<char> {
    "//   "@ + (dec_text(n as nat) + (what + "\n"@))
}

/// Such a line, where there are any.
pub open spec fn some_line(n: u32, what: Seq<char>) -> Seq<char> {
    if n > 0 {
        count_line(n, what)
    } else {
        Seq::empty()
    }
}

/// The line on sample frequency, where it holds.
pub open spec fn frequency_line(s: ShaderStats) -> Seq<char> {
    if s.is_sample_frequency {
        "//   sample-frequency execution\n"@
    } else {
        Seq::empty()
    }
}

/// The statistics as comment lines for a human reader.
pub open spec fn stats_summary(s: ShaderStats) -> Seq<char> {
    "// Statistics:\n"@ + count_line(s.instruction_count, " instruction(s)"@) + count_line(
        s.temp_register_count,
        " temp register(s)"@,
    ) + some_line(s.declaration_count, " declaration(s)"@) + some_line(s.float_instruction_count, " float instruction(s)"@) + some_line(s.int_instruction_count, " int instruction(s)"@) + some_line(s.uint_instruction_count, " uint instruction(s)"@) + some_line(s.texture_normal_instructions, " texture normal instruction(s)"@) + some_line(s.texture_load_instructions, " texture load instruction(s)"@) + some_line(s.static_flow_control_count, " static flow control(s)"@) + some_line(s.dynamic_flow_control_count, " dynamic flow control(s)"@) + some_line(s.cut_instruction_count, " cut instruction(s)"@) + some_line(s.emit_instruction_count, " emit instruction(s)"@) + frequency_line(s)
}

fn write_count(o: &mut String, n: u32, what: &str)
    ensures
        final(o)@ == old(o)@ + count_line(n, what@),
{
    push_text(o, "//   ");
    push_dec(o, n as u64);
    push_text(o, what);
    push_text(o, "\n");
    assert(o@ =~= old(o)@ + count_line(n, what@));
}

fn write_some(o: &mut String, n: u32, what: &str)
    ensures
        final(o)@ == old(o)@ + some_line(n, what@),
{
    if n > 0 {
        write_count(o, n, what);
    } else {
        assert(o@ =~= old(o)@ + some_line(n, what@));
    }
}

impl ShaderStats {
    /// The statistics as comment lines for a human reader.
    pub fn to_text(&self) -> (r: String)
        ensures
            r@ == stats_summary(*self),
    {
        let mut o = String::new();
        push_text(&mut o, "// Statistics:\n");
        assert(o@ =~= "// Statistics:\n"@);
        write_count(&mut o, self.instruction_count, " instruction(s)");
        write_count(&mut o, self.temp_register_count, " temp register(s)");
        write_some(&mut o, self.declaration_count, " declaration(s)");
        write_some(&mut o, self.float_instruction_count, " float instruction(s)");
        write_some(&mut o, self.int_instruction_count, " int instruction(s)");
        write_some(&mut o, self.uint_instruction_count, " uint instruction(s)");
        write_some(&mut o, self.texture_normal_instructions, " texture normal instruction(s)");
        write_some(&mut o, self.texture_load_instructions, " texture load instruction(s)");
        write_some(&mut o, self.static_flow_control_count, " static flow control(s)");
        write_some(&mut o, self.dynamic_flow_control_count, " dynamic flow control(s)");
        write_some(&mut o, self.cut_instruction_count, " cut instruction(s)");
        write_some(&mut o, self.emit_instruction_count, " emit instruction(s)");
        if self.is_sample_frequency {
            push_text(&mut o, "//   sample-frequency execution\n");
        } else {
            assert(o@ =~= o@ + Seq::<char>::empty());
        }
        o
    }
}

} // verus!
