//! The shaders of a file.

use vstd::prelude::*;

use crate::chunks::rdef::{RdefModel, ResourceDef};
use crate::chunks::rdef_parse::{parse_rdef, rdef_of};
use crate::chunks::signature::{
    ElementModel, Signature, element_models, elements_of, parse_signature, version_of,
};
use crate::chunks::stat::{ShaderStats, parse_stat, stats_of};
use crate::container::{
    Chunk, ChunkModel, Container, ContainerModel, chunk_models, container_models, scan_dxbc,
    scanned,
};
use crate::shex::decode::{decode_with_fourcc, program_of};
use crate::shex::ir::{Program, ProgramModel};

verus! {

/// What a chunk is for.
#[derive(Clone, Copy, Debug, PartialEq, Eq, Structural)]
pub enum Role {
    /// The shader program.
    Program,
    /// The inputs.
    Inputs,
    /// The outputs.
    Outputs,
    /// The patch constants.
    PatchConstants,
    /// The statistics.
    Statistics,
    /// The resource definitions.
    Resources,
}

/// What a chunk with that code is for, where this crate can read it.
#[verifier::opaque]
pub open spec fn role_of(f: Seq<u8>) -> Option<Role> {
    if f == seq![0x53u8, 0x48u8, 0x45u8, 0x58u8] || f == seq![0x53u8, 0x48u8, 0x44u8, 0x52u8] {
        Some(Role::Program)
    } else if f == seq![0x49u8, 0x53u8, 0x47u8, 0x4eu8] || f == seq![
        0x49u8,
        0x53u8,
        0x47u8,
        0x31u8,
    ] {
        Some(Role::Inputs)
    } else if f == seq![0x4fu8, 0x53u8, 0x47u8, 0x4eu8] || f == seq![0x4fu8, 0x53u8, 0x47u8, 0x31u8]
        || f == seq![0x4fu8, 0x53u8, 0x47u8, 0x35u8] {
        Some(Role::Outputs)
    } else if f == seq![0x50u8, 0x43u8, 0x53u8, 0x47u8] || f == seq![
        0x50u8,
        0x53u8,
        0x47u8,
        0x31u8,
    ] {
        Some(Role::PatchConstants)
    } else if f == seq![0x53u8, 0x54u8, 0x41u8, 0x54u8] {
        Some(Role::Statistics)
    } else if f == seq![0x52u8, 0x44u8, 0x45u8, 0x46u8] {
        Some(Role::Resources)
    } else {
        None
    }
}

fn is_code(f: &[u8; 4], a: u8, b: u8, c: u8, d: u8) -> (r: bool)
    ensures
        r == (f@ == seq![a, b, c, d]),
{
    let r = f[0] == a && f[1] == b && f[2] == c && f[3] == d;
    proof {
        if r {
            assert(f@ =~= seq![a, b, c, d]);
        } else {
            let s = seq![a, b, c, d];
            assert(s[0] == a && s[1] == b && s[2] == c && s[3] == d);
        }
    }
    r
}

/// What a chunk with that code is for: `SHEX` and `SHDR` hold the program,
/// `ISGN` and `ISG1` the inputs, `OSGN`, `OSG1` and `OSG5` the outputs, `PCSG`
/// and `PSG1` the patch constants, `STAT` the statistics and `RDEF` the
/// resource definitions.
pub fn chunk_role(f: &[u8; 4]) -> (r: Option<Role>)
    ensures
        r == role_of(f@),
{
    reveal(role_of);
    if is_code(f, 0x53, 0x48, 0x45, 0x58) || is_code(f, 0x53, 0x48, 0x44, 0x52) {
        Some(Role::Program)
    } else if is_code(f, 0x49, 0x53, 0x47, 0x4e) || is_code(f, 0x49, 0x53, 0x47, 0x31) {
        Some(Role::Inputs)
    } else if is_code(f, 0x4f, 0x53, 0x47, 0x4e) || is_code(f, 0x4f, 0x53, 0x47, 0x31) || is_code(
        f,
        0x4f,
        0x53,
        0x47,
        0x35,
    ) {
        Some(Role::Outputs)
    } else if is_code(f, 0x50, 0x43, 0x53, 0x47) || is_code(f, 0x50, 0x53, 0x47, 0x31) {
        Some(Role::PatchConstants)
    } else if is_code(f, 0x53, 0x54, 0x41, 0x54) {
        Some(Role::Statistics)
    } else if is_code(f, 0x52, 0x44, 0x45, 0x46) {
        Some(Role::Resources)
    } else {
        None
    }
}

/// The first chunk for that, from number `k` on.
pub open spec fn first_chunk(cs: Seq<ChunkModel>, role: Role, k: int) -> Option<ChunkModel>
    decreases cs.len() - k,
{
    if k < 0 || k >= cs.len() {
        None
    } else if role_of(cs[k].fourcc) == Some(role) {
        Some(cs[k])
    } else {
        first_chunk(cs, role, k + 1)
    }
}

/// The program of a container's chunks.
pub open spec fn chunks_program(cs: Seq<ChunkModel>) -> Option<ProgramModel> {
    match first_chunk(cs, Role::Program, 0) {
        Some(c) => program_of(c.data, c.fourcc),
        None => None,
    }
}

/// The resource definitions of a container's chunks.
pub open spec fn chunks_resources(cs: Seq<ChunkModel>) -> Option<RdefModel> {
    match first_chunk(cs, Role::Resources, 0) {
        Some(c) => if c.data.len() >= 28 {
            Some(rdef_of(c.data))
        } else {
            None
        },
        None => None,
    }
}

/// The statistics of a container's chunks.
pub open spec fn chunks_stats(cs: Seq<ChunkModel>) -> Option<ShaderStats> {
    match first_chunk(cs, Role::Statistics, 0) {
        Some(c) => if c.data.len() >= 116 {
            Some(stats_of(c.data))
        } else {
            None
        },
        None => None,
    }
}

/// The code and the elements of the first signature for that among the chunks.
pub open spec fn chunks_signature(cs: Seq<ChunkModel>, role: Role) -> Option<
    (Seq<u8>, Seq<ElementModel>),
> {
    match first_chunk(cs, role, 0) {
        Some(c) => Some((c.fourcc, elements_of(c.data, version_of(c.fourcc)))),
        None => None,
    }
}

pub(crate) fn find_chunk<'b, 'a>(chunks: &'b Vec<Chunk<'a>>, role: Role) -> (r: Option<
    &'b Chunk<'a>,
>)
    ensures
        match r {
            Some(c) => first_chunk(chunk_models(chunks@), role, 0) == Some(c.model()),
            None => first_chunk(chunk_models(chunks@), role, 0) is None,
        },
{
    let mut k: usize = 0;
    while k < chunks.len()
        invariant
            k <= chunks.len(),
            first_chunk(chunk_models(chunks@), role, 0) == first_chunk(
                chunk_models(chunks@),
                role,
                k as int,
            ),
        decreases chunks.len() - k,
    {
        assert(chunk_models(chunks@)[k as int] == chunks@[k as int].model());
        match chunk_role(&chunks[k].fourcc) {
            Some(x) => {
                if x == role {
                    return Some(&chunks[k]);
                }
            },
            None => {},
        }
        k += 1;
    }
    None
}

/// A container, and what is said about the chunks that are only described: each
/// description is the text for a human reader, where there is one.
#[derive(Debug)]
pub struct Shader<'a> {
    /// The container.
    pub container: Container<'a>,
    /// What is said about the shader hash.
    pub hash: Option<String>,
    /// What is said about the features the shader needs.
    pub feature_info: Option<String>,
    /// What is said about the name of the debug data.
    pub debug_name: Option<String>,
    /// What is said about the root signature.
    pub root_signature: Option<String>,
}

/// The model of the descriptions.
#[verifier::ext_equal]
pub struct Descriptions {
    /// What is said about the shader hash.
    pub hash: Option<Seq<char>>,
    /// What is said about the features the shader needs.
    pub feature_info: Option<Seq<char>>,
    /// What is said about the name of the debug data.
    pub debug_name: Option<Seq<char>>,
    /// What is said about the root signature.
    pub root_signature: Option<Seq<char>>,
}

/// The characters of a text, where there is one.
pub open spec fn text_view(s: Option<String>) -> Option<Seq<char>> {
    match s {
        Some(t) => Some(t@),
        None => None,
    }
}

/// Nothing said.
pub open spec fn no_descriptions() -> Descriptions {
    Descriptions { hash: None, feature_info: None, debug_name: None, root_signature: None }
}

impl<'a> Shader<'a> {
    /// The descriptions as mathematical values.
    pub open spec fn descriptions(&self) -> Descriptions {
        Descriptions {
            hash: text_view(self.hash),
            feature_info: text_view(self.feature_info),
            debug_name: text_view(self.debug_name),
            root_signature: text_view(self.root_signature),
        }
    }

    /// Whether the container is well-formed.
    pub open spec fn wf(&self) -> bool {
        self.container.wf()
    }

    /// Where the container begins in the file.
    pub fn offset(&self) -> (r: usize)
        ensures
            r == self.container.offset_in_file,
    {
        self.container.offset_in_file
    }

    /// The size of the container in bytes.
    pub fn size(&self) -> (r: u32)
        ensures
            r == self.container.total_size,
    {
        self.container.total_size
    }

    /// The container.
    pub fn container(&self) -> (r: &Container<'a>)
        ensures
            *r == self.container,
    {
        &self.container
    }

    /// The program, where there is one that can be read.
    pub fn program(&self) -> (r: Option<Program>)
        ensures
            match r {
                Some(p) => chunks_program(self.container.model().chunks) == Some(p.model()),
                None => chunks_program(self.container.model().chunks) is None,
            },
    {
        match find_chunk(&self.container.chunks, Role::Program) {
            Some(c) => decode_with_fourcc(c.data, c.fourcc),
            None => None,
        }
    }

    /// The resource definitions, where there are any.
    pub fn resource_def(&self) -> (r: Option<ResourceDef>)
        ensures
            match r {
                Some(rd) => chunks_resources(self.container.model().chunks) == Some(rd.model()),
                None => chunks_resources(self.container.model().chunks) is None,
            },
    {
        match find_chunk(&self.container.chunks, Role::Resources) {
            Some(c) => parse_rdef(c.data),
            None => None,
        }
    }

    /// The statistics, where there are any.
    pub fn stats(&self) -> (r: Option<ShaderStats>)
        ensures
            r == chunks_stats(self.container.model().chunks),
    {
        match find_chunk(&self.container.chunks, Role::Statistics) {
            Some(c) => parse_stat(c.data),
            None => None,
        }
    }

    fn signature(&self, role: Role) -> (r: Option<Signature>)
        ensures
            match r {
                Some(s) => chunks_signature(self.container.model().chunks, role) == Some(
                    (s.fourcc@, element_models(s.elements@)),
                ),
                None => chunks_signature(self.container.model().chunks, role) is None,
            },
    {
        match find_chunk(&self.container.chunks, role) {
            Some(c) => Some(
                Signature { fourcc: c.fourcc, elements: parse_signature(c.fourcc, c.data) },
            ),
            None => None,
        }
    }

    /// The signature of the inputs.
    pub fn input_signature(&self) -> (r: Option<Signature>)
        ensures
            match r {
                Some(s) => chunks_signature(self.container.model().chunks, Role::Inputs) == Some(
                    (s.fourcc@, element_models(s.elements@)),
                ),
                None => chunks_signature(self.container.model().chunks, Role::Inputs) is None,
            },
    {
        self.signature(Role::Inputs)
    }

    /// The signature of the outputs.
    pub fn output_signature(&self) -> (r: Option<Signature>)
        ensures
            match r {
                Some(s) => chunks_signature(self.container.model().chunks, Role::Outputs) == Some(
                    (s.fourcc@, element_models(s.elements@)),
                ),
                None => chunks_signature(self.container.model().chunks, Role::Outputs) is None,
            },
    {
        self.signature(Role::Outputs)
    }

    /// The signature of the patch constants.
    pub fn patch_constant_signature(&self) -> (r: Option<Signature>)
        ensures
            match r {
                Some(s) => chunks_signature(self.container.model().chunks, Role::PatchConstants)
                    == Some((s.fourcc@, element_models(s.elements@))),
                None => chunks_signature(
                    self.container.model().chunks,
                    Role::PatchConstants,
                ) is None,
            },
    {
        self.signature(Role::PatchConstants)
    }
}

/// The models of the containers of the shaders.
pub open spec fn shader_models(ss: Seq<Shader<'_>>) -> Seq<ContainerModel> {
    Seq::new(ss.len(), |i: int| ss[i].container.model())
}

/// All shaders in the bytes of a file.
pub fn parse<'a>(data: &'a [u8]) -> (r: Vec<Shader<'a>>)
    ensures
        shader_models(r@) == scanned(data@, 0),
        forall|i: int| 0 <= i < r@.len() ==> (#[trigger] r@[i]).wf() && r@[i].descriptions()
            == no_descriptions(),
{
    let found = scan_dxbc(data);
    let ghost all = found@;
    let mut out: Vec<Shader<'a>> = Vec::new();
    for container in it: found
        invariant
            it.seq() == all,
            out@.len() == it.index(),
            forall|i: int| 0 <= i < all.len() ==> (#[trigger] all[i]).wf(),
            forall|i: int|
                0 <= i < out@.len() ==> (#[trigger] out@[i]).wf() && out@[i].descriptions()
                    == no_descriptions()
                    && out@[i].container == all[i],
    {
        out.push(
            Shader {
                container,
                hash: None,
                feature_info: None,
                debug_name: None,
                root_signature: None,
            },
        );
    }
    assert(shader_models(out@) =~= container_models(all));
    out
}

} // verus!
