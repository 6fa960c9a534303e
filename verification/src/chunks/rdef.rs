//! The resource definitions of a shader: constant buffers and bindings.

use vstd::prelude::*;

use crate::numerals::{dec_text, hex_text, push_dec, push_hex};
use crate::text::{chars_eq, chars_of, push_chars, push_text};

verus! {

/// The resource definitions of a shader.
#[derive(Debug, PartialEq, Eq)]
pub struct ResourceDef {
    /// The constant buffers.
    pub constant_buffers: Vec<CBufferDef>,
    /// The bindings.
    pub bindings: Vec<ResourceBinding>,
    /// Who made the shader.
    pub creator: String,
    /// The shader model: minor version, major version and stage.
    pub target_version: u32,
    /// The compile flags.
    pub compile_flags: u32,
    /// The further header of shader model five.
    pub rd11_extra: Option<[u32; 8]>,
}

/// A constant buffer and its variables.
#[derive(Debug, PartialEq, Eq)]
pub struct CBufferDef {
    /// The buffer's name.
    pub name: String,
    /// The variables.
    pub variables: Vec<CBufferVariable>,
    /// The size in bytes.
    pub size: u32,
    /// The flags.
    pub flags: u32,
    /// The kind of buffer.
    pub cb_type: u32,
}

/// A variable of a constant buffer.
#[derive(Debug, PartialEq, Eq)]
pub struct CBufferVariable {
    /// The variable's name.
    pub name: String,
    /// The offset in the buffer, in bytes.
    pub offset: u32,
    /// The size in bytes.
    pub size: u32,
    /// The flags.
    pub flags: u32,
    /// The type.
    pub var_type: TypeDesc,
    /// The bytes of the default value, none where there is none.
    pub default_value: Vec<u8>,
    /// The first texture slot.
    pub texture_start: Option<u32>,
    /// The number of texture slots.
    pub texture_size: Option<u32>,
    /// The first sampler slot.
    pub sampler_start: Option<u32>,
    /// The number of sampler slots.
    pub sampler_size: Option<u32>,
}

/// The type of a variable.
#[derive(Debug, PartialEq, Eq)]
pub struct TypeDesc {
    /// The class: scalar, vector, matrix, object or struct.
    pub class: u16,
    /// The base type.
    pub var_type: u16,
    /// The number of rows.
    pub rows: u16,
    /// The number of columns.
    pub columns: u16,
    /// The number of array elements, nought where it is no array.
    pub elements: u16,
    /// The members of a struct.
    pub members: Vec<MemberDesc>,
    /// Four words of shader model five without a stated meaning.
    pub sm5_extra: Option<[u32; 4]>,
    /// The type's name.
    pub name: String,
}

/// A member of a struct.
#[derive(Debug, PartialEq, Eq)]
pub struct MemberDesc {
    /// The member's name.
    pub name: String,
    /// The member's type.
    pub member_type: TypeDesc,
    /// The offset in the struct, in bytes.
    pub offset: u32,
}

/// A binding of a resource to a register.
#[derive(Debug, PartialEq, Eq)]
pub struct ResourceBinding {
    /// The resource's name.
    pub name: String,
    /// The kind of resource, a [`ResourceInputType`] by number.
    pub input_type: u32,
    /// What a typed resource returns.
    pub return_type: u32,
    /// The dimension, a [`ResourceDimension`] by number.
    pub dimension: u32,
    /// The number of samples.
    pub num_samples: u32,
    /// The register.
    pub bind_point: u32,
    /// The number of registers.
    pub bind_count: u32,
    /// The flags.
    pub flags: u32,
}

/// The binding was placed by the author of the shader.
pub const BIND_FLAG_USER_PACKED: u32 = 0x1;

/// The sampler compares.
pub const BIND_FLAG_COMPARISON_SAMPLER: u32 = 0x2;

/// The first bit of the number of texture components.
pub const BIND_FLAG_TEX_COMP_0: u32 = 0x4;

/// The second bit of the number of texture components.
pub const BIND_FLAG_TEX_COMP_1: u32 = 0x8;

/// The binding is not used.
pub const BIND_FLAG_UNUSED: u32 = 0x10;

/// The variable is used by the shader.
pub const VAR_FLAG_USED: u32 = 0x2;

/// A slot number that stands for none.
pub const SLOT_UNUSED: u32 = 0xFFFFFFFF;

// ---------------------------------------------------------------------------
// Models
// ---------------------------------------------------------------------------

/// The model of a type.
#[verifier::ext_equal]
pub struct TypeModel {
    /// The class.
    pub class: u16,
    /// The base type.
    pub var_type: u16,
    /// The number of rows.
    pub rows: u16,
    /// The number of columns.
    pub columns: u16,
    /// The number of array elements.
    pub elements: u16,
    /// The members.
    pub members: Seq<MemberModel>,
    /// Four words of shader model five.
    pub sm5_extra: Option<[u32; 4]>,
    /// The name.
    pub name: Seq<char>,
}

/// The model of a member.
#[verifier::ext_equal]
pub struct MemberModel {
    /// The name.
    pub name: Seq<char>,
    /// The type.
    pub member_type: TypeModel,
    /// The offset.
    pub offset: u32,
}

/// The model of a variable.
#[verifier::ext_equal]
pub struct VariableModel {
    /// The name.
    pub name: Seq<char>,
    /// The offset.
    pub offset: u32,
    /// The size.
    pub size: u32,
    /// The flags.
    pub flags: u32,
    /// The type.
    pub var_type: TypeModel,
    /// The default value.
    pub default_value: Seq<u8>,
    /// The first texture slot.
    pub texture_start: Option<u32>,
    /// The number of texture slots.
    pub texture_size: Option<u32>,
    /// The first sampler slot.
    pub sampler_start: Option<u32>,
    /// The number of sampler slots.
    pub sampler_size: Option<u32>,
}

/// The model of a constant buffer.
#[verifier::ext_equal]
pub struct CBufferModel {
    /// The name.
    pub name: Seq<char>,
    /// The variables.
    pub variables: Seq<VariableModel>,
    /// The size.
    pub size: u32,
    /// The flags.
    pub flags: u32,
    /// The kind.
    pub cb_type: u32,
}

/// The model of a binding.
#[verifier::ext_equal]
pub struct BindingModel {
    /// The name.
    pub name: Seq<char>,
    /// The kind of resource.
    pub input_type: u32,
    /// What it returns.
    pub return_type: u32,
    /// The dimension.
    pub dimension: u32,
    /// The number of samples.
    pub num_samples: u32,
    /// The register.
    pub bind_point: u32,
    /// The number of registers.
    pub bind_count: u32,
    /// The flags.
    pub flags: u32,
}

/// The model of the resource definitions.
#[verifier::ext_equal]
pub struct RdefModel {
    /// The constant buffers.
    pub constant_buffers: Seq<CBufferModel>,
    /// The bindings.
    pub bindings: Seq<BindingModel>,
    /// Who made the shader.
    pub creator: Seq<char>,
    /// The shader model.
    pub target_version: u32,
    /// The compile flags.
    pub compile_flags: u32,
    /// The further header of shader model five.
    pub rd11_extra: Option<[u32; 8]>,
}

impl TypeDesc {
    /// The type's model.
    pub open spec fn model(self) -> TypeModel
        decreases self,
    {
        TypeModel {
            class: self.class,
            var_type: self.var_type,
            rows: self.rows,
            columns: self.columns,
            elements: self.elements,
            members: Seq::new(
                self.members@.len(),
                |i: int|
                    if 0 <= i < self.members@.len() {
                        self.members@[i].model()
                    } else {
                        no_member()
                    },
            ),
            sm5_extra: self.sm5_extra,
            name: self.name@,
        }
    }
}

impl MemberDesc {
    /// The member's model.
    pub open spec fn model(self) -> MemberModel
        decreases self,
    {
        MemberModel {
            name: self.name@,
            member_type: self.member_type.model(),
            offset: self.offset,
        }
    }
}

/// A type in which all is nought.
pub open spec fn no_type() -> TypeModel {
    TypeModel {
        class: 0,
        var_type: 0,
        rows: 0,
        columns: 0,
        elements: 0,
        members: Seq::empty(),
        sm5_extra: None,
        name: Seq::empty(),
    }
}

/// A member in which all is nought.
pub open spec fn no_member() -> MemberModel {
    MemberModel { name: Seq::empty(), member_type: no_type(), offset: 0 }
}

/// The models of the members.
pub open spec fn member_models(s: Seq<MemberDesc>) -> Seq<MemberModel> {
    Seq::new(s.len(), |i: int| s[i].model())
}

/// A type's model lists the models of its members.
pub proof fn lemma_type_model(t: TypeDesc)
    ensures
        t.model().members == member_models(t.members@),
{
    assert(t.model().members =~= member_models(t.members@));
}

impl CBufferVariable {
    /// The variable's model.
    pub open spec fn model(self) -> VariableModel {
        VariableModel {
            name: self.name@,
            offset: self.offset,
            size: self.size,
            flags: self.flags,
            var_type: self.var_type.model(),
            default_value: self.default_value@,
            texture_start: self.texture_start,
            texture_size: self.texture_size,
            sampler_start: self.sampler_start,
            sampler_size: self.sampler_size,
        }
    }
}

/// The models of the variables.
pub open spec fn variable_models(s: Seq<CBufferVariable>) -> Seq<VariableModel> {
    Seq::new(s.len(), |i: int| s[i].model())
}

impl CBufferDef {
    /// The buffer's model.
    pub open spec fn model(self) -> CBufferModel {
        CBufferModel {
            name: self.name@,
            variables: variable_models(self.variables@),
            size: self.size,
            flags: self.flags,
            cb_type: self.cb_type,
        }
    }
}

/// The models of the constant buffers.
pub open spec fn cbuffer_models(s: Seq<CBufferDef>) -> Seq<CBufferModel> {
    Seq::new(s.len(), |i: int| s[i].model())
}

impl ResourceBinding {
    /// The binding's model.
    pub open spec fn model(self) -> BindingModel {
        BindingModel {
            name: self.name@,
            input_type: self.input_type,
            return_type: self.return_type,
            dimension: self.dimension,
            num_samples: self.num_samples,
            bind_point: self.bind_point,
            bind_count: self.bind_count,
            flags: self.flags,
        }
    }
}

/// The models of the bindings.
pub open spec fn binding_models(s: Seq<ResourceBinding>) -> Seq<BindingModel> {
    Seq::new(s.len(), |i: int| s[i].model())
}

impl ResourceDef {
    /// The model.
    pub open spec fn model(self) -> RdefModel {
        RdefModel {
            constant_buffers: cbuffer_models(self.constant_buffers@),
            bindings: binding_models(self.bindings@),
            creator: self.creator@,
            target_version: self.target_version,
            compile_flags: self.compile_flags,
            rd11_extra: self.rd11_extra,
        }
    }
}

/// Whether a shader model is five or later.
pub open spec fn is_sm5_version(target_version: u32) -> bool {
    ((target_version >> 8) & 0xFF) >= 5
}

/// Whether a shader model is five or later.
pub fn is_sm5(target_version: u32) -> (r: bool)
    ensures
        r == is_sm5_version(target_version),
{
    ((target_version >> 8) & 0xFF) >= 5
}

/// Whether two types are the same in all.
pub fn types_eq(a: &TypeDesc, b: &TypeDesc) -> (r: bool)
    ensures
        r == (a.model() == b.model()),
    decreases a,
{
    proof {
        lemma_type_model(*a);
        lemma_type_model(*b);
    }
    if a.class != b.class || a.var_type != b.var_type || a.rows != b.rows || a.columns != b.columns
        || a.elements != b.elements || a.members.len() != b.members.len() {
        assert(a.model().members.len() == a.members@.len());
        assert(b.model().members.len() == b.members@.len());
        return false;
    }
    match (&a.sm5_extra, &b.sm5_extra) {
        (Some(x), Some(y)) => {
            if x[0] != y[0] || x[1] != y[1] || x[2] != y[2] || x[3] != y[3] {
                return false;
            }
            assert(x =~= y);
        },
        (None, None) => {},
        _ => {
            return false;
        },
    }
    let an = chars_of(a.name.as_str());
    let bn = chars_of(b.name.as_str());
    if !chars_eq(an.as_slice(), bn.as_slice()) {
        return false;
    }
    let mut i: usize = 0;
    while i < a.members.len()
        invariant
            i <= a.members.len(),
            a.members.len() == b.members.len(),
            a.model().members == member_models(a.members@),
            b.model().members == member_models(b.members@),
            forall|k: int|
                0 <= k < i ==> #[trigger] a.model().members[k] == b.model().members[k],
        decreases a.members.len() - i,
    {
        let x = &a.members[i];
        let y = &b.members[i];
        assert(a.model().members[i as int] == x.model());
        assert(b.model().members[i as int] == y.model());
        assert(decreases_to!(a => a.members, a.members@[i as int]));
        if x.offset != y.offset {
            return false;
        }
        let xn = chars_of(x.name.as_str());
        let yn = chars_of(y.name.as_str());
        if !chars_eq(xn.as_slice(), yn.as_slice()) {
            return false;
        }
        if !types_eq(&x.member_type, &y.member_type) {
            return false;
        }
        i += 1;
    }
    assert(a.model().members =~= b.model().members);
    true
}

/// The kind of a bound resource.
#[derive(Clone, Copy, Debug, PartialEq, Eq, Structural)]
pub enum ResourceInputType {
    /// A constant buffer.
    CBuffer,
    /// A texture buffer.
    TBuffer,
    /// A texture.
    Texture,
    /// A sampler.
    Sampler,
    /// A typed view for reading and writing.
    UavRwTyped,
    /// A structured buffer.
    Structured,
    /// A structured buffer for reading and writing.
    UavRwStructured,
    /// A raw buffer.
    ByteAddress,
    /// A raw buffer for reading and writing.
    UavRwByteAddress,
    /// A structured buffer that is appended to.
    UavAppendStructured,
    /// A structured buffer that is consumed.
    UavConsumeStructured,
    /// A structured buffer with a hidden counter.
    UavRwStructuredWithCounter,
}

impl ResourceInputType {
    /// The value with the number `v`.
    pub open spec fn numbered(v: u32) -> Option<ResourceInputType> {
        match v {
            0 => Some(ResourceInputType::CBuffer),
            1 => Some(ResourceInputType::TBuffer),
            2 => Some(ResourceInputType::Texture),
            3 => Some(ResourceInputType::Sampler),
            4 => Some(ResourceInputType::UavRwTyped),
            5 => Some(ResourceInputType::Structured),
            6 => Some(ResourceInputType::UavRwStructured),
            7 => Some(ResourceInputType::ByteAddress),
            8 => Some(ResourceInputType::UavRwByteAddress),
            9 => Some(ResourceInputType::UavAppendStructured),
            10 => Some(ResourceInputType::UavConsumeStructured),
            11 => Some(ResourceInputType::UavRwStructuredWithCounter),
            _ => None,
        }
    }

    /// The value with the number `v`.
    pub fn from_u32(v: u32) -> (r: Option<ResourceInputType>)
        ensures
            r == ResourceInputType::numbered(v),
    {
        match v {
            0 => Some(ResourceInputType::CBuffer),
            1 => Some(ResourceInputType::TBuffer),
            2 => Some(ResourceInputType::Texture),
            3 => Some(ResourceInputType::Sampler),
            4 => Some(ResourceInputType::UavRwTyped),
            5 => Some(ResourceInputType::Structured),
            6 => Some(ResourceInputType::UavRwStructured),
            7 => Some(ResourceInputType::ByteAddress),
            8 => Some(ResourceInputType::UavRwByteAddress),
            9 => Some(ResourceInputType::UavAppendStructured),
            10 => Some(ResourceInputType::UavConsumeStructured),
            11 => Some(ResourceInputType::UavRwStructuredWithCounter),
            _ => None,
        }
    }

    /// The name in listings.
    pub open spec fn name_text(self) -> Seq<char> {
        match self {
            ResourceInputType::CBuffer => "cbuffer"@,
            ResourceInputType::TBuffer => "tbuffer"@,
            ResourceInputType::Texture => "texture"@,
            ResourceInputType::Sampler => "sampler"@,
            ResourceInputType::UavRwTyped => "uav_rwtyped"@,
            ResourceInputType::Structured => "structured"@,
            ResourceInputType::UavRwStructured => "uav_rwstructured"@,
            ResourceInputType::ByteAddress => "byteaddress"@,
            ResourceInputType::UavRwByteAddress => "uav_rwbyteaddress"@,
            ResourceInputType::UavAppendStructured => "uav_append_structured"@,
            ResourceInputType::UavConsumeStructured => "uav_consume_structured"@,
            ResourceInputType::UavRwStructuredWithCounter => "uav_rwstructured_with_counter"@,
        }
    }

    /// The name in listings.
    pub fn name(self) -> (r: &'static str)
        ensures
            r@ == self.name_text(),
    {
        match self {
            ResourceInputType::CBuffer => "cbuffer",
            ResourceInputType::TBuffer => "tbuffer",
            ResourceInputType::Texture => "texture",
            ResourceInputType::Sampler => "sampler",
            ResourceInputType::UavRwTyped => "uav_rwtyped",
            ResourceInputType::Structured => "structured",
            ResourceInputType::UavRwStructured => "uav_rwstructured",
            ResourceInputType::ByteAddress => "byteaddress",
            ResourceInputType::UavRwByteAddress => "uav_rwbyteaddress",
            ResourceInputType::UavAppendStructured => "uav_append_structured",
            ResourceInputType::UavConsumeStructured => "uav_consume_structured",
            ResourceInputType::UavRwStructuredWithCounter => "uav_rwstructured_with_counter",
        }
    }
}

/// The dimension of a bound resource.
#[derive(Clone, Copy, Debug, PartialEq, Eq, Structural)]
pub enum ResourceDimension {
    /// A buffer.
    Buffer,
    /// A one-dimensional texture.
    Texture1D,
    /// An array of one-dimensional textures.
    Texture1DArray,
    /// A two-dimensional texture.
    Texture2D,
    /// An array of two-dimensional textures.
    Texture2DArray,
    /// A multisampled texture.
    Texture2DMS,
    /// An array of multisampled textures.
    Texture2DMSArray,
    /// A volume texture.
    Texture3D,
    /// A cube map.
    TextureCube,
    /// An array of cube maps.
    TextureCubeArray,
}

impl ResourceDimension {
    /// The value with the number `v`.
    pub open spec fn numbered(v: u32) -> Option<ResourceDimension> {
        match v {
            1 => Some(ResourceDimension::Buffer),
            2 => Some(ResourceDimension::Texture1D),
            3 => Some(ResourceDimension::Texture1DArray),
            4 => Some(ResourceDimension::Texture2D),
            5 => Some(ResourceDimension::Texture2DArray),
            6 => Some(ResourceDimension::Texture2DMS),
            7 => Some(ResourceDimension::Texture2DMSArray),
            8 => Some(ResourceDimension::Texture3D),
            9 => Some(ResourceDimension::TextureCube),
            10 => Some(ResourceDimension::TextureCubeArray),
            _ => None,
        }
    }

    /// The value with the number `v`.
    pub fn from_u32(v: u32) -> (r: Option<ResourceDimension>)
        ensures
            r == ResourceDimension::numbered(v),
    {
        match v {
            1 => Some(ResourceDimension::Buffer),
            2 => Some(ResourceDimension::Texture1D),
            3 => Some(ResourceDimension::Texture1DArray),
            4 => Some(ResourceDimension::Texture2D),
            5 => Some(ResourceDimension::Texture2DArray),
            6 => Some(ResourceDimension::Texture2DMS),
            7 => Some(ResourceDimension::Texture2DMSArray),
            8 => Some(ResourceDimension::Texture3D),
            9 => Some(ResourceDimension::TextureCube),
            10 => Some(ResourceDimension::TextureCubeArray),
            _ => None,
        }
    }

    /// The name in listings.
    pub open spec fn name_text(self) -> Seq<char> {
        match self {
            ResourceDimension::Buffer => "buf"@,
            ResourceDimension::Texture1D => "1d"@,
            ResourceDimension::Texture1DArray => "1darray"@,
            ResourceDimension::Texture2D => "2d"@,
            ResourceDimension::Texture2DArray => "2darray"@,
            ResourceDimension::Texture2DMS => "2dMS"@,
            ResourceDimension::Texture2DMSArray => "2dMSarray"@,
            ResourceDimension::Texture3D => "3d"@,
            ResourceDimension::TextureCube => "cube"@,
            ResourceDimension::TextureCubeArray => "cubearray"@,
        }
    }

    /// The name in listings.
    pub fn name(self) -> (r: &'static str)
        ensures
            r@ == self.name_text(),
    {
        match self {
            ResourceDimension::Buffer => "buf",
            ResourceDimension::Texture1D => "1d",
            ResourceDimension::Texture1DArray => "1darray",
            ResourceDimension::Texture2D => "2d",
            ResourceDimension::Texture2DArray => "2darray",
            ResourceDimension::Texture2DMS => "2dMS",
            ResourceDimension::Texture2DMSArray => "2dMSarray",
            ResourceDimension::Texture3D => "3d",
            ResourceDimension::TextureCube => "cube",
            ResourceDimension::TextureCubeArray => "cubearray",
        }
    }
}

// ---------------------------------------------------------------------------
// Listings
// ---------------------------------------------------------------------------

/// `s` with spaces behind it up to `width` characters.
pub open spec fn left_justified(s: Seq<char>, width: nat) -> Seq<char> {
    if s.len() < width {
        s + Seq::new((width - s.len()) as nat, |i: int| ' ')
    } else {
        s
    }
}

/// The name of the kind of a binding.
pub open spec fn type_name_text(input_type: u32) -> Seq<char> {
    match ResourceInputType::numbered(input_type) {
        Some(t) => t.name_text(),
        None => "unknown"@,
    }
}

/// The name of the dimension of a binding.
pub open spec fn dim_name_text(dimension: u32) -> Seq<char> {
    match ResourceDimension::numbered(dimension) {
        Some(d) => d.name_text(),
        None => "NA"@,
    }
}

/// The name of flag number `k`, and its bit.
pub open spec fn bind_flag(k: int) -> (Seq<char>, u32) {
    if k == 0 {
        ("userPacked"@, 0x1u32)
    } else if k == 1 {
        ("comparisonSampler"@, 0x2u32)
    } else if k == 2 {
        ("texComp0"@, 0x4u32)
    } else if k == 3 {
        ("texComp1"@, 0x8u32)
    } else {
        ("unused"@, 0x10u32)
    }
}

/// The names of the first `n` flags that are set, separated by `sep`.
pub open spec fn flag_names_text(flags: u32, n: int, sep: char) -> Seq<char>
    decreases n,
{
    if n <= 0 {
        Seq::empty()
    } else {
        let before = flag_names_text(flags, n - 1, sep);
        let (name, bit) = bind_flag(n - 1);
        if flags & bit != 0 {
            (if before.len() == 0 {
                before
            } else {
                before.push(sep)
            }) + name
        } else {
            before
        }
    }
}

/// The flags of a binding: their names, or their number where none has a name.
pub open spec fn flags_column(flags: u32) -> Seq<char> {
    if flag_names_text(flags, 5, ';').len() == 0 {
        "0x"@ + hex_text(flags as nat)
    } else {
        flag_names_text(flags, 5, ';')
    }
}

/// The columns of a binding behind its name.
pub open spec fn columns_text(b: BindingModel) -> Seq<char> {
    left_justified(type_name_text(b.input_type), 12).push(' ') + left_justified(
        dim_name_text(b.dimension),
        8,
    ).push(' ') + left_justified(dec_text(b.bind_point as nat), 4).push(' ') + left_justified(
        dec_text(b.bind_count as nat),
        5,
    ) + (if b.flags != 0 {
        " "@ + flags_column(b.flags)
    } else {
        Seq::empty()
    })
}

/// A binding as one line of a listing.
pub open spec fn binding_line(b: BindingModel) -> Seq<char> {
    left_justified(b.name, 20).push(' ') + columns_text(b)
}

/// The names of the flags that are set, separated by `sep`.
pub(crate) fn flag_names(flags: u32, sep: char) -> (f: String)
    ensures
        f@ == flag_names_text(flags, 5, sep),
{
    let parts = [
        ("userPacked", BIND_FLAG_USER_PACKED),
        ("comparisonSampler", BIND_FLAG_COMPARISON_SAMPLER),
        ("texComp0", BIND_FLAG_TEX_COMP_0),
        ("texComp1", BIND_FLAG_TEX_COMP_1),
        ("unused", BIND_FLAG_UNUSED),
    ];
    let mut f = String::new();
    let mut i: usize = 0;
    while i < 5
        invariant
            i <= 5,
            forall|k: int|
                0 <= k < 5 ==> (#[trigger] parts@[k]).0@ == bind_flag(k).0 && parts@[k].1
                    == bind_flag(k).1,
            f@ == flag_names_text(flags, i as int, sep),
        decreases 5 - i,
    {
        let (name, bit) = parts[i];
        assert(parts@[i as int].0@ == bind_flag(i as int).0);
        if flags & bit != 0 {
            if !f.as_str().is_empty() {
                f.push(sep);
            }
            push_text(&mut f, name);
        }
        i += 1;
    }
    f
}

/// Append `s` and spaces up to `width` characters.
pub(crate) fn push_justified(out: &mut String, s: &str, width: usize)
    ensures
        final(out)@ == old(out)@ + left_justified(s@, width as nat),
{
    let chars = chars_of(s);
    push_chars(out, chars.as_slice());
    let mut n: usize = chars.len();
    let ghost k = chars@.len();
    while n < width
        invariant
            chars@ == s@,
            k == s@.len(),
            k <= n,
            n <= width || n == k,
            out@ == old(out)@ + (s@ + Seq::new((n - k) as nat, |i: int| ' ')),
        decreases width - n,
    {
        out.push(' ');
        n += 1;
        assert(out@ =~= old(out)@ + (s@ + Seq::new((n - k) as nat, |i: int| ' ')));
    }
    assert(out@ =~= old(out)@ + left_justified(s@, width as nat));
}

impl ResourceBinding {
    fn kind_name(&self) -> (r: &'static str)
        ensures
            r@ == type_name_text(self.input_type),
    {
        match ResourceInputType::from_u32(self.input_type) {
            Some(t) => t.name(),
            None => "unknown",
        }
    }

    fn dim_name(&self) -> (r: &'static str)
        ensures
            r@ == dim_name_text(self.dimension),
    {
        match ResourceDimension::from_u32(self.dimension) {
            Some(d) => d.name(),
            None => "NA",
        }
    }

    fn write_flags(&self, f: &mut String)
        ensures
            final(f)@ == old(f)@ + flags_column(self.flags),
    {
        let names = flag_names(self.flags, ';');
        if names.as_str().is_empty() {
            let mut n = String::new();
            push_text(&mut n, "0x");
            assert(n@ =~= "0x"@);
            push_hex(&mut n, self.flags as u64);
            push_text(f, n.as_str());
        } else {
            push_text(f, names.as_str());
        }
    }

    /// Append the kind, the dimension, the register, the number of registers and
    /// the flags as columns.
    pub fn fmt_columns(&self, f: &mut String)
        ensures
            final(f)@ == old(f)@ + columns_text(self.model()),
    {
        push_justified(f, self.kind_name(), 12);
        f.push(' ');
        push_justified(f, self.dim_name(), 8);
        f.push(' ');
        let mut n = String::new();
        push_dec(&mut n, self.bind_point as u64);
        assert(n@ =~= dec_text(self.bind_point as nat));
        push_justified(f, n.as_str(), 4);
        f.push(' ');
        let mut n = String::new();
        push_dec(&mut n, self.bind_count as u64);
        assert(n@ =~= dec_text(self.bind_count as nat));
        push_justified(f, n.as_str(), 5);
        if self.flags != 0 {
            push_text(f, " ");
            self.write_flags(f);
        }
        proof {
            let a = left_justified(type_name_text(self.input_type), 12).push(' ');
            let b = left_justified(dim_name_text(self.dimension), 8).push(' ');
            let c = left_justified(dec_text(self.bind_point as nat), 4).push(' ');
            let d = left_justified(dec_text(self.bind_count as nat), 5);
            let e = if self.flags != 0 {
                " "@ + flags_column(self.flags)
            } else {
                Seq::empty()
            };
            assert(f@ =~= old(f)@ + (a + b + c + d + e));
        }
    }

    /// The binding as one line of a listing.
    pub fn to_text(&self) -> (r: String)
        ensures
            r@ == binding_line(self.model()),
    {
        let mut f = String::new();
        push_justified(&mut f, self.name.as_str(), 20);
        f.push(' ');
        assert(f@ =~= left_justified(self.name@, 20).push(' '));
        self.fmt_columns(&mut f);
        f
    }
}

} // verus!
