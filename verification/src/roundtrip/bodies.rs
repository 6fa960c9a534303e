//! The editable text of a chunk reads back.

use vstd::prelude::*;

use crate::chunks::rdef::RdefModel;
use crate::chunks::rdef_write::rdef_payload;
use crate::container::ChunkModel;
use crate::container_doc::{body_data, chunk_body};
use crate::floats::Spellings;
use crate::grammar::rdef::decode::hlsl_parsed;
use crate::grammar::rdef::encode::hlsl_text;
use crate::lines::text_lines;
use crate::shader::role_of;
use crate::shex::ir::ProgramModel;

verus! {

/// Whether a chunk with that code can have an editable text.
pub open spec fn is_editable(f: Seq<u8>) -> bool {
    // SHEX, SHDR
    ||| f == seq![0x53u8, 0x48u8, 0x45u8, 0x58u8]
    ||| f == seq![0x53u8, 0x48u8, 0x44u8, 0x52u8]
    // ISGN, ISG1
    ||| f == seq![0x49u8, 0x53u8, 0x47u8, 0x4Eu8]
    ||| f == seq![0x49u8, 0x53u8, 0x47u8, 0x31u8]
    // OSGN, OSG1, OSG5
    ||| f == seq![0x4Fu8, 0x53u8, 0x47u8, 0x4Eu8]
    ||| f == seq![0x4Fu8, 0x53u8, 0x47u8, 0x31u8]
    ||| f == seq![0x4Fu8, 0x53u8, 0x47u8, 0x35u8]
    // PCSG, PSG1
    ||| f == seq![0x50u8, 0x43u8, 0x53u8, 0x47u8]
    ||| f == seq![0x50u8, 0x53u8, 0x47u8, 0x31u8]
    // STAT, RDEF
    ||| f == seq![0x53u8, 0x54u8, 0x41u8, 0x54u8]
    ||| f == seq![0x52u8, 0x44u8, 0x45u8, 0x46u8]
}

/// The editable text of a chunk reads back as exactly its data, and chunks with
/// codes other than those of programs, signatures, statistics and resource
/// definitions have none.
pub proof fn chunk_body_reads_back(c: ChunkModel, p: Option<ProgramModel>, ft: Spellings)
    ensures
        match chunk_body(c, p, ft) {
            Some(t) => body_data(c.fourcc, text_lines(t, true), p, ft) == Ok::<
                Seq<u8>,
                Seq<char>,
            >(c.data),
            None => true,
        },
        !is_editable(c.fourcc) ==> chunk_body(c, p, ft) is None,
{
    reveal(chunk_body);
    reveal(role_of);
}

/// Resource definitions that are written in HLSL form read back, with the same
/// program at hand, as definitions with the same bytes.
pub proof fn hlsl_text_reads_back(rd: RdefModel, p: Option<ProgramModel>, ft: Spellings)
    requires
        hlsl_text(rd, p, ft) is Some,
    ensures
        hlsl_parsed(hlsl_text(rd, p, ft)->0, p, ft) is Some,
        rdef_payload(hlsl_parsed(hlsl_text(rd, p, ft)->0, p, ft)->0) == rdef_payload(rd),
{
}

} // verus!
