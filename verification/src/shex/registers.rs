//! Register files, component selections and the small enumerations of shader
//! declarations.

use vstd::prelude::*;

verus! {

/// The highest register file number with a prefix of its own.
pub const REGISTER_MAX: u32 = 40;

/// A register file.
#[derive(Clone, Copy, Debug, PartialEq, Eq, Structural)]
pub enum RegisterType {
    /// `r`
    Temp,
    /// `v`
    Input,
    /// `o`
    Output,
    /// `x`
    IndexableTemp,
    /// `l`
    Immediate32,
    /// `d`
    Immediate64,
    /// `s`
    Sampler,
    /// `t`
    Resource,
    /// `cb`
    ConstantBuffer,
    /// `icb`
    ImmediateConstantBuffer,
    /// `label`
    Label,
    /// `vPrim`
    InputPrimitiveId,
    /// `oDepth`
    OutputDepth,
    /// `null`
    Null,
    /// `rasterizer`
    Rasterizer,
    /// `oMask`
    OutputCoverageMask,
    /// `stream`
    Stream,
    /// `function_body`
    FunctionBody,
    /// `function_table`
    FunctionTable,
    /// `interface`
    Interface,
    /// `function_input`
    FunctionInput,
    /// `function_output`
    FunctionOutput,
    /// `vOutputControlPointID`
    OutputControlPointId,
    /// `vForkInstanceID`
    InputForkInstanceId,
    /// `vJoinInstanceID`
    InputJoinInstanceId,
    /// `vicp`
    InputControlPoint,
    /// `vocp`
    OutputControlPoint,
    /// `vpc`
    InputPatchConstant,
    /// `vDomain`
    InputDomainPoint,
    /// `thisPointer`
    ThisPointer,
    /// `u`
    Uav,
    /// `g`
    ThreadGroupSharedMemory,
    /// `vThreadID`
    InputThreadId,
    /// `vThreadGroupID`
    InputThreadGroupId,
    /// `vThreadIDInGroup`
    InputThreadIdInGroup,
    /// `vCoverage`
    InputCoverageMask,
    /// `vThreadIDInGroupFlattened`
    InputThreadIdInGroupFlattened,
    /// `vGSInstanceID`
    InputGsInstanceId,
    /// `oDepthGE`
    OutputDepthGreaterEqual,
    /// `oDepthLE`
    OutputDepthLessEqual,
    /// `vCycleCounter`
    CycleCounter,
    /// A number without a name.
    Unknown(u32),
}

impl RegisterType {
    /// The value with the number `v`.
    pub open spec fn spec_from_u32(v: u32) -> RegisterType {
        match v {
            0 => RegisterType::Temp,
            1 => RegisterType::Input,
            2 => RegisterType::Output,
            3 => RegisterType::IndexableTemp,
            4 => RegisterType::Immediate32,
            5 => RegisterType::Immediate64,
            6 => RegisterType::Sampler,
            7 => RegisterType::Resource,
            8 => RegisterType::ConstantBuffer,
            9 => RegisterType::ImmediateConstantBuffer,
            10 => RegisterType::Label,
            11 => RegisterType::InputPrimitiveId,
            12 => RegisterType::OutputDepth,
            13 => RegisterType::Null,
            14 => RegisterType::Rasterizer,
            15 => RegisterType::OutputCoverageMask,
            16 => RegisterType::Stream,
            17 => RegisterType::FunctionBody,
            18 => RegisterType::FunctionTable,
            19 => RegisterType::Interface,
            20 => RegisterType::FunctionInput,
            21 => RegisterType::FunctionOutput,
            22 => RegisterType::OutputControlPointId,
            23 => RegisterType::InputForkInstanceId,
            24 => RegisterType::InputJoinInstanceId,
            25 => RegisterType::InputControlPoint,
            26 => RegisterType::OutputControlPoint,
            27 => RegisterType::InputPatchConstant,
            28 => RegisterType::InputDomainPoint,
            29 => RegisterType::ThisPointer,
            30 => RegisterType::Uav,
            31 => RegisterType::ThreadGroupSharedMemory,
            32 => RegisterType::InputThreadId,
            33 => RegisterType::InputThreadGroupId,
            34 => RegisterType::InputThreadIdInGroup,
            35 => RegisterType::InputCoverageMask,
            36 => RegisterType::InputThreadIdInGroupFlattened,
            37 => RegisterType::InputGsInstanceId,
            38 => RegisterType::OutputDepthGreaterEqual,
            39 => RegisterType::OutputDepthLessEqual,
            40 => RegisterType::CycleCounter,
            _ => RegisterType::Unknown(v),
        }
    }

    /// The value with the number `v`.
    #[verifier::when_used_as_spec(spec_from_u32)]
    pub fn from_u32(v: u32) -> (r: RegisterType)
        ensures
            r == RegisterType::spec_from_u32(v),
    {
        match v {
            0 => RegisterType::Temp,
            1 => RegisterType::Input,
            2 => RegisterType::Output,
            3 => RegisterType::IndexableTemp,
            4 => RegisterType::Immediate32,
            5 => RegisterType::Immediate64,
            6 => RegisterType::Sampler,
            7 => RegisterType::Resource,
            8 => RegisterType::ConstantBuffer,
            9 => RegisterType::ImmediateConstantBuffer,
            10 => RegisterType::Label,
            11 => RegisterType::InputPrimitiveId,
            12 => RegisterType::OutputDepth,
            13 => RegisterType::Null,
            14 => RegisterType::Rasterizer,
            15 => RegisterType::OutputCoverageMask,
            16 => RegisterType::Stream,
            17 => RegisterType::FunctionBody,
            18 => RegisterType::FunctionTable,
            19 => RegisterType::Interface,
            20 => RegisterType::FunctionInput,
            21 => RegisterType::FunctionOutput,
            22 => RegisterType::OutputControlPointId,
            23 => RegisterType::InputForkInstanceId,
            24 => RegisterType::InputJoinInstanceId,
            25 => RegisterType::InputControlPoint,
            26 => RegisterType::OutputControlPoint,
            27 => RegisterType::InputPatchConstant,
            28 => RegisterType::InputDomainPoint,
            29 => RegisterType::ThisPointer,
            30 => RegisterType::Uav,
            31 => RegisterType::ThreadGroupSharedMemory,
            32 => RegisterType::InputThreadId,
            33 => RegisterType::InputThreadGroupId,
            34 => RegisterType::InputThreadIdInGroup,
            35 => RegisterType::InputCoverageMask,
            36 => RegisterType::InputThreadIdInGroupFlattened,
            37 => RegisterType::InputGsInstanceId,
            38 => RegisterType::OutputDepthGreaterEqual,
            39 => RegisterType::OutputDepthLessEqual,
            40 => RegisterType::CycleCounter,
            _ => RegisterType::Unknown(v),
        }
    }

    /// The number.
    pub open spec fn spec_to_u32(self) -> u32 {
        match self {
            RegisterType::Temp => 0,
            RegisterType::Input => 1,
            RegisterType::Output => 2,
            RegisterType::IndexableTemp => 3,
            RegisterType::Immediate32 => 4,
            RegisterType::Immediate64 => 5,
            RegisterType::Sampler => 6,
            RegisterType::Resource => 7,
            RegisterType::ConstantBuffer => 8,
            RegisterType::ImmediateConstantBuffer => 9,
            RegisterType::Label => 10,
            RegisterType::InputPrimitiveId => 11,
            RegisterType::OutputDepth => 12,
            RegisterType::Null => 13,
            RegisterType::Rasterizer => 14,
            RegisterType::OutputCoverageMask => 15,
            RegisterType::Stream => 16,
            RegisterType::FunctionBody => 17,
            RegisterType::FunctionTable => 18,
            RegisterType::Interface => 19,
            RegisterType::FunctionInput => 20,
            RegisterType::FunctionOutput => 21,
            RegisterType::OutputControlPointId => 22,
            RegisterType::InputForkInstanceId => 23,
            RegisterType::InputJoinInstanceId => 24,
            RegisterType::InputControlPoint => 25,
            RegisterType::OutputControlPoint => 26,
            RegisterType::InputPatchConstant => 27,
            RegisterType::InputDomainPoint => 28,
            RegisterType::ThisPointer => 29,
            RegisterType::Uav => 30,
            RegisterType::ThreadGroupSharedMemory => 31,
            RegisterType::InputThreadId => 32,
            RegisterType::InputThreadGroupId => 33,
            RegisterType::InputThreadIdInGroup => 34,
            RegisterType::InputCoverageMask => 35,
            RegisterType::InputThreadIdInGroupFlattened => 36,
            RegisterType::InputGsInstanceId => 37,
            RegisterType::OutputDepthGreaterEqual => 38,
            RegisterType::OutputDepthLessEqual => 39,
            RegisterType::CycleCounter => 40,
            RegisterType::Unknown(v) => v,
        }
    }

    /// The number.
    #[verifier::when_used_as_spec(spec_to_u32)]
    pub fn to_u32(self) -> (r: u32)
        ensures
            r == self.spec_to_u32(),
    {
        match self {
            RegisterType::Temp => 0,
            RegisterType::Input => 1,
            RegisterType::Output => 2,
            RegisterType::IndexableTemp => 3,
            RegisterType::Immediate32 => 4,
            RegisterType::Immediate64 => 5,
            RegisterType::Sampler => 6,
            RegisterType::Resource => 7,
            RegisterType::ConstantBuffer => 8,
            RegisterType::ImmediateConstantBuffer => 9,
            RegisterType::Label => 10,
            RegisterType::InputPrimitiveId => 11,
            RegisterType::OutputDepth => 12,
            RegisterType::Null => 13,
            RegisterType::Rasterizer => 14,
            RegisterType::OutputCoverageMask => 15,
            RegisterType::Stream => 16,
            RegisterType::FunctionBody => 17,
            RegisterType::FunctionTable => 18,
            RegisterType::Interface => 19,
            RegisterType::FunctionInput => 20,
            RegisterType::FunctionOutput => 21,
            RegisterType::OutputControlPointId => 22,
            RegisterType::InputForkInstanceId => 23,
            RegisterType::InputJoinInstanceId => 24,
            RegisterType::InputControlPoint => 25,
            RegisterType::OutputControlPoint => 26,
            RegisterType::InputPatchConstant => 27,
            RegisterType::InputDomainPoint => 28,
            RegisterType::ThisPointer => 29,
            RegisterType::Uav => 30,
            RegisterType::ThreadGroupSharedMemory => 31,
            RegisterType::InputThreadId => 32,
            RegisterType::InputThreadGroupId => 33,
            RegisterType::InputThreadIdInGroup => 34,
            RegisterType::InputCoverageMask => 35,
            RegisterType::InputThreadIdInGroupFlattened => 36,
            RegisterType::InputGsInstanceId => 37,
            RegisterType::OutputDepthGreaterEqual => 38,
            RegisterType::OutputDepthLessEqual => 39,
            RegisterType::CycleCounter => 40,
            RegisterType::Unknown(v) => v,
        }
    }

    /// The prefix that names the register file.
    pub open spec fn prefix_text(self) -> Seq<char> {
        match self {
            RegisterType::Temp => "r"@,
            RegisterType::Input => "v"@,
            RegisterType::Output => "o"@,
            RegisterType::IndexableTemp => "x"@,
            RegisterType::Immediate32 => "l"@,
            RegisterType::Immediate64 => "d"@,
            RegisterType::Sampler => "s"@,
            RegisterType::Resource => "t"@,
            RegisterType::ConstantBuffer => "cb"@,
            RegisterType::ImmediateConstantBuffer => "icb"@,
            RegisterType::Label => "label"@,
            RegisterType::InputPrimitiveId => "vPrim"@,
            RegisterType::OutputDepth => "oDepth"@,
            RegisterType::Null => "null"@,
            RegisterType::Rasterizer => "rasterizer"@,
            RegisterType::OutputCoverageMask => "oMask"@,
            RegisterType::Stream => "stream"@,
            RegisterType::FunctionBody => "function_body"@,
            RegisterType::FunctionTable => "function_table"@,
            RegisterType::Interface => "interface"@,
            RegisterType::FunctionInput => "function_input"@,
            RegisterType::FunctionOutput => "function_output"@,
            RegisterType::OutputControlPointId => "vOutputControlPointID"@,
            RegisterType::InputForkInstanceId => "vForkInstanceID"@,
            RegisterType::InputJoinInstanceId => "vJoinInstanceID"@,
            RegisterType::InputControlPoint => "vicp"@,
            RegisterType::OutputControlPoint => "vocp"@,
            RegisterType::InputPatchConstant => "vpc"@,
            RegisterType::InputDomainPoint => "vDomain"@,
            RegisterType::ThisPointer => "thisPointer"@,
            RegisterType::Uav => "u"@,
            RegisterType::ThreadGroupSharedMemory => "g"@,
            RegisterType::InputThreadId => "vThreadID"@,
            RegisterType::InputThreadGroupId => "vThreadGroupID"@,
            RegisterType::InputThreadIdInGroup => "vThreadIDInGroup"@,
            RegisterType::InputCoverageMask => "vCoverage"@,
            RegisterType::InputThreadIdInGroupFlattened => "vThreadIDInGroupFlattened"@,
            RegisterType::InputGsInstanceId => "vGSInstanceID"@,
            RegisterType::OutputDepthGreaterEqual => "oDepthGE"@,
            RegisterType::OutputDepthLessEqual => "oDepthLE"@,
            RegisterType::CycleCounter => "vCycleCounter"@,
            RegisterType::Unknown(_) => "?reg"@,
        }
    }

    /// The prefix that names the register file.
    pub fn prefix(self) -> (r: &'static str)
        ensures
            r@ == self.prefix_text(),
    {
        match self {
            RegisterType::Temp => "r",
            RegisterType::Input => "v",
            RegisterType::Output => "o",
            RegisterType::IndexableTemp => "x",
            RegisterType::Immediate32 => "l",
            RegisterType::Immediate64 => "d",
            RegisterType::Sampler => "s",
            RegisterType::Resource => "t",
            RegisterType::ConstantBuffer => "cb",
            RegisterType::ImmediateConstantBuffer => "icb",
            RegisterType::Label => "label",
            RegisterType::InputPrimitiveId => "vPrim",
            RegisterType::OutputDepth => "oDepth",
            RegisterType::Null => "null",
            RegisterType::Rasterizer => "rasterizer",
            RegisterType::OutputCoverageMask => "oMask",
            RegisterType::Stream => "stream",
            RegisterType::FunctionBody => "function_body",
            RegisterType::FunctionTable => "function_table",
            RegisterType::Interface => "interface",
            RegisterType::FunctionInput => "function_input",
            RegisterType::FunctionOutput => "function_output",
            RegisterType::OutputControlPointId => "vOutputControlPointID",
            RegisterType::InputForkInstanceId => "vForkInstanceID",
            RegisterType::InputJoinInstanceId => "vJoinInstanceID",
            RegisterType::InputControlPoint => "vicp",
            RegisterType::OutputControlPoint => "vocp",
            RegisterType::InputPatchConstant => "vpc",
            RegisterType::InputDomainPoint => "vDomain",
            RegisterType::ThisPointer => "thisPointer",
            RegisterType::Uav => "u",
            RegisterType::ThreadGroupSharedMemory => "g",
            RegisterType::InputThreadId => "vThreadID",
            RegisterType::InputThreadGroupId => "vThreadGroupID",
            RegisterType::InputThreadIdInGroup => "vThreadIDInGroup",
            RegisterType::InputCoverageMask => "vCoverage",
            RegisterType::InputThreadIdInGroupFlattened => "vThreadIDInGroupFlattened",
            RegisterType::InputGsInstanceId => "vGSInstanceID",
            RegisterType::OutputDepthGreaterEqual => "oDepthGE",
            RegisterType::OutputDepthLessEqual => "oDepthLE",
            RegisterType::CycleCounter => "vCycleCounter",
            RegisterType::Unknown(_) => "?reg",
        }
    }
}

/// The type a resource returns for one component.
#[derive(Clone, Copy, Debug, PartialEq, Eq, Structural)]
pub enum ReturnType {
    /// `unorm`
    Unorm,
    /// `snorm`
    Snorm,
    /// `sint`
    Sint,
    /// `uint`
    Uint,
    /// `float`
    Float,
    /// `mixed`
    Mixed,
    /// `double`
    Double,
    /// `continued`
    Continued,
    /// `unused`
    Unused,
    /// A number without a name.
    Unknown(u32),
}

impl ReturnType {
    /// The value with the number `v`.
    pub open spec fn spec_from_u32(v: u32) -> ReturnType {
        match v {
            1 => ReturnType::Unorm,
            2 => ReturnType::Snorm,
            3 => ReturnType::Sint,
            4 => ReturnType::Uint,
            5 => ReturnType::Float,
            6 => ReturnType::Mixed,
            7 => ReturnType::Double,
            8 => ReturnType::Continued,
            9 => ReturnType::Unused,
            _ => ReturnType::Unknown(v),
        }
    }

    /// The value with the number `v`.
    #[verifier::when_used_as_spec(spec_from_u32)]
    pub fn from_u32(v: u32) -> (r: ReturnType)
        ensures
            r == ReturnType::spec_from_u32(v),
    {
        match v {
            1 => ReturnType::Unorm,
            2 => ReturnType::Snorm,
            3 => ReturnType::Sint,
            4 => ReturnType::Uint,
            5 => ReturnType::Float,
            6 => ReturnType::Mixed,
            7 => ReturnType::Double,
            8 => ReturnType::Continued,
            9 => ReturnType::Unused,
            _ => ReturnType::Unknown(v),
        }
    }

    /// The number.
    pub open spec fn spec_to_u32(self) -> u32 {
        match self {
            ReturnType::Unorm => 1,
            ReturnType::Snorm => 2,
            ReturnType::Sint => 3,
            ReturnType::Uint => 4,
            ReturnType::Float => 5,
            ReturnType::Mixed => 6,
            ReturnType::Double => 7,
            ReturnType::Continued => 8,
            ReturnType::Unused => 9,
            ReturnType::Unknown(v) => v,
        }
    }

    /// The number.
    #[verifier::when_used_as_spec(spec_to_u32)]
    pub fn to_u32(self) -> (r: u32)
        ensures
            r == self.spec_to_u32(),
    {
        match self {
            ReturnType::Unorm => 1,
            ReturnType::Snorm => 2,
            ReturnType::Sint => 3,
            ReturnType::Uint => 4,
            ReturnType::Float => 5,
            ReturnType::Mixed => 6,
            ReturnType::Double => 7,
            ReturnType::Continued => 8,
            ReturnType::Unused => 9,
            ReturnType::Unknown(v) => v,
        }
    }

    /// The type's name.
    pub open spec fn name_text(self) -> Seq<char> {
        match self {
            ReturnType::Unorm => "unorm"@,
            ReturnType::Snorm => "snorm"@,
            ReturnType::Sint => "sint"@,
            ReturnType::Uint => "uint"@,
            ReturnType::Float => "float"@,
            ReturnType::Mixed => "mixed"@,
            ReturnType::Double => "double"@,
            ReturnType::Continued => "continued"@,
            ReturnType::Unused => "unused"@,
            ReturnType::Unknown(_) => "unknown"@,
        }
    }

    /// The type's name.
    pub fn name(self) -> (r: &'static str)
        ensures
            r@ == self.name_text(),
    {
        match self {
            ReturnType::Unorm => "unorm",
            ReturnType::Snorm => "snorm",
            ReturnType::Sint => "sint",
            ReturnType::Uint => "uint",
            ReturnType::Float => "float",
            ReturnType::Mixed => "mixed",
            ReturnType::Double => "double",
            ReturnType::Continued => "continued",
            ReturnType::Unused => "unused",
            ReturnType::Unknown(_) => "unknown",
        }
    }
}

/// The primitive a geometry shader takes.
#[derive(Clone, Copy, Debug, PartialEq, Eq, Structural)]
pub enum GsPrimitive {
    /// `undefined`
    Undefined,
    /// `point`
    Point,
    /// `line`
    Line,
    /// `triangle`
    Triangle,
    /// `lineAdj`
    LineAdj,
    /// `triangleAdj`
    TriangleAdj,
    /// A patch of that many control points.
    ControlPointPatch(u8),
}

impl GsPrimitive {
    /// The name.
    pub open spec fn name_text(self) -> Seq<char> {
        match self {
            GsPrimitive::Undefined => "undefined"@,
            GsPrimitive::Point => "point"@,
            GsPrimitive::Line => "line"@,
            GsPrimitive::Triangle => "triangle"@,
            GsPrimitive::LineAdj => "lineAdj"@,
            GsPrimitive::TriangleAdj => "triangleAdj"@,
            GsPrimitive::ControlPointPatch(_) => "patchlist"@,
        }
    }

    /// The name.
    pub fn name(self) -> (r: &'static str)
        ensures
            r@ == self.name_text(),
    {
        match self {
            GsPrimitive::Undefined => "undefined",
            GsPrimitive::Point => "point",
            GsPrimitive::Line => "line",
            GsPrimitive::Triangle => "triangle",
            GsPrimitive::LineAdj => "lineAdj",
            GsPrimitive::TriangleAdj => "triangleAdj",
            GsPrimitive::ControlPointPatch(_) => "patchlist",
        }
    }

    /// The value of that name.
    pub open spec fn named(s: Seq<char>) -> Option<GsPrimitive> {
        if s == "undefined"@ {
            Some(GsPrimitive::Undefined)
        } else if s == "point"@ {
            Some(GsPrimitive::Point)
        } else if s == "line"@ {
            Some(GsPrimitive::Line)
        } else if s == "triangle"@ {
            Some(GsPrimitive::Triangle)
        } else if s == "lineAdj"@ {
            Some(GsPrimitive::LineAdj)
        } else if s == "triangleAdj"@ {
            Some(GsPrimitive::TriangleAdj)
        } else {
            None
        }
    }

    /// The value of that name.
    pub fn from_name(s: &[char]) -> (r: Option<GsPrimitive>)
        ensures
            r == GsPrimitive::named(s@),
    {
        if crate::text::is_text(s, "undefined") {
            Some(GsPrimitive::Undefined)
        } else if crate::text::is_text(s, "point") {
            Some(GsPrimitive::Point)
        } else if crate::text::is_text(s, "line") {
            Some(GsPrimitive::Line)
        } else if crate::text::is_text(s, "triangle") {
            Some(GsPrimitive::Triangle)
        } else if crate::text::is_text(s, "lineAdj") {
            Some(GsPrimitive::LineAdj)
        } else if crate::text::is_text(s, "triangleAdj") {
            Some(GsPrimitive::TriangleAdj)
        } else {
            None
        }
    }
}

/// The topology a geometry shader emits.
#[derive(Clone, Copy, Debug, PartialEq, Eq, Structural)]
pub enum GsOutputTopology {
    /// `undefined`
    Undefined,
    /// `pointlist`
    PointList,
    /// `linelist`
    LineList,
    /// `linestrip`
    LineStrip,
    /// `trianglelist`
    TriangleList,
    /// `trianglestrip`
    TriangleStrip,
    /// `linelistAdj`
    LineListAdj,
    /// `linestripAdj`
    LineStripAdj,
    /// `trianglelistAdj`
    TriangleListAdj,
    /// `trianglestripAdj`
    TriangleStripAdj,
}

impl GsOutputTopology {
    /// The name.
    pub open spec fn name_text(self) -> Seq<char> {
        match self {
            GsOutputTopology::Undefined => "undefined"@,
            GsOutputTopology::PointList => "pointlist"@,
            GsOutputTopology::LineList => "linelist"@,
            GsOutputTopology::LineStrip => "linestrip"@,
            GsOutputTopology::TriangleList => "trianglelist"@,
            GsOutputTopology::TriangleStrip => "trianglestrip"@,
            GsOutputTopology::LineListAdj => "linelistAdj"@,
            GsOutputTopology::LineStripAdj => "linestripAdj"@,
            GsOutputTopology::TriangleListAdj => "trianglelistAdj"@,
            GsOutputTopology::TriangleStripAdj => "trianglestripAdj"@,
        }
    }

    /// The name.
    pub fn name(self) -> (r: &'static str)
        ensures
            r@ == self.name_text(),
    {
        match self {
            GsOutputTopology::Undefined => "undefined",
            GsOutputTopology::PointList => "pointlist",
            GsOutputTopology::LineList => "linelist",
            GsOutputTopology::LineStrip => "linestrip",
            GsOutputTopology::TriangleList => "trianglelist",
            GsOutputTopology::TriangleStrip => "trianglestrip",
            GsOutputTopology::LineListAdj => "linelistAdj",
            GsOutputTopology::LineStripAdj => "linestripAdj",
            GsOutputTopology::TriangleListAdj => "trianglelistAdj",
            GsOutputTopology::TriangleStripAdj => "trianglestripAdj",
        }
    }

    /// The value of that name.
    pub open spec fn named(s: Seq<char>) -> Option<GsOutputTopology> {
        if s == "undefined"@ {
            Some(GsOutputTopology::Undefined)
        } else if s == "pointlist"@ {
            Some(GsOutputTopology::PointList)
        } else if s == "linelist"@ {
            Some(GsOutputTopology::LineList)
        } else if s == "linestrip"@ {
            Some(GsOutputTopology::LineStrip)
        } else if s == "trianglelist"@ {
            Some(GsOutputTopology::TriangleList)
        } else if s == "trianglestrip"@ {
            Some(GsOutputTopology::TriangleStrip)
        } else if s == "linelistAdj"@ {
            Some(GsOutputTopology::LineListAdj)
        } else if s == "linestripAdj"@ {
            Some(GsOutputTopology::LineStripAdj)
        } else if s == "trianglelistAdj"@ {
            Some(GsOutputTopology::TriangleListAdj)
        } else if s == "trianglestripAdj"@ {
            Some(GsOutputTopology::TriangleStripAdj)
        } else {
            None
        }
    }

    /// The value of that name.
    pub fn from_name(s: &[char]) -> (r: Option<GsOutputTopology>)
        ensures
            r == GsOutputTopology::named(s@),
    {
        if crate::text::is_text(s, "undefined") {
            Some(GsOutputTopology::Undefined)
        } else if crate::text::is_text(s, "pointlist") {
            Some(GsOutputTopology::PointList)
        } else if crate::text::is_text(s, "linelist") {
            Some(GsOutputTopology::LineList)
        } else if crate::text::is_text(s, "linestrip") {
            Some(GsOutputTopology::LineStrip)
        } else if crate::text::is_text(s, "trianglelist") {
            Some(GsOutputTopology::TriangleList)
        } else if crate::text::is_text(s, "trianglestrip") {
            Some(GsOutputTopology::TriangleStrip)
        } else if crate::text::is_text(s, "linelistAdj") {
            Some(GsOutputTopology::LineListAdj)
        } else if crate::text::is_text(s, "linestripAdj") {
            Some(GsOutputTopology::LineStripAdj)
        } else if crate::text::is_text(s, "trianglelistAdj") {
            Some(GsOutputTopology::TriangleListAdj)
        } else if crate::text::is_text(s, "trianglestripAdj") {
            Some(GsOutputTopology::TriangleStripAdj)
        } else {
            None
        }
    }
}

/// The kind of a custom-data block.
#[derive(Clone, Copy, Debug, PartialEq, Eq, Structural)]
pub enum CustomDataType {
    /// Rows of the immediate constant buffer.
    ImmediateConstantBuffer,
    /// A comment.
    Comment,
    /// Debug information.
    DebugInfo,
    /// Data without a stated meaning.
    Opaque,
    /// Another kind, by its number.
    Other(u32),
}

/// The components an operand selects.
#[derive(Clone, Copy, Debug, PartialEq, Eq)]
pub enum ComponentSelect {
    /// The operand has no components.
    ZeroComponent,
    /// The operand has one component, not selected by name.
    OneComponent,
    /// The components written, one bit each.
    Mask(u8),
    /// The component read for each of the four lanes.
    Swizzle([u8; 4]),
    /// The one component read.
    Scalar(u8),
}

} // verus!
