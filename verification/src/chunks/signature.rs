//! The signature chunks: the inputs and outputs of a shader.

use nostdio::SliceCursor;
use vstd::prelude::*;

use crate::bytes::{
    cursor_bytes, cursor_new, cursor_pos, cursor_read_u32, cursor_seek, push_u32, word_at,
    word_bytes,
};
use crate::chunks::rdef_parse::{cstring_at, read_cstring, records_held};
use crate::chunks::rdef_write::{
    Names, Sink, intern_names, interned_names, lemma_interned_names_len, pad_to4, padding,
    pool_table, push_slice,
};

verus! {

/// The least precision of an element, by number.
#[derive(Clone, Copy, Debug, PartialEq, Eq, Structural)]
pub struct MinPrecision {
    /// The number.
    pub value: u32,
}

impl MinPrecision {
    /// The precision with the number `v`.
    pub fn from_u32(v: u32) -> (r: MinPrecision)
        ensures
            r.value == v,
    {
        MinPrecision { value: v }
    }

    /// The number.
    pub fn to_u32(self) -> (r: u32)
        ensures
            r == self.value,
    {
        self.value
    }
}

/// One input or output.
#[derive(Debug, PartialEq, Eq)]
pub struct SignatureElement {
    /// The semantic name.
    pub semantic_name: String,
    /// The semantic index.
    pub semantic_index: u32,
    /// The system value, by number.
    pub system_value: u32,
    /// The component type, by number.
    pub component_type: u32,
    /// The register.
    pub register: u32,
    /// The components it has.
    pub mask: u8,
    /// The components that are read, or never written.
    pub rw_mask: u8,
    /// The stream, in the later forms of the chunk.
    pub stream: Option<u32>,
    /// The least precision, in the latest form of the chunk.
    pub min_precision: Option<MinPrecision>,
}

/// The elements of a signature chunk.
#[derive(Debug, PartialEq, Eq)]
pub struct Signature {
    /// The code of the chunk.
    pub fourcc: [u8; 4],
    /// The elements.
    pub elements: Vec<SignatureElement>,
}

/// The form of a signature chunk.
#[derive(Clone, Copy, Debug, PartialEq, Eq, Structural)]
pub enum SignatureVersion {
    /// The first form.
    V0,
    /// The form with streams.
    V5,
    /// The form with streams and precisions.
    V1,
}

/// The form of the chunk with that code.
pub open spec fn version_of(f: Seq<u8>) -> SignatureVersion {
    if f == seq![0x4fu8, 0x53u8, 0x47u8, 0x35u8] {
        SignatureVersion::V5
    } else if f.len() == 4 && f[3] == 0x31u8 {
        SignatureVersion::V1
    } else {
        SignatureVersion::V0
    }
}

impl SignatureVersion {
    /// The form of the chunk with that code.
    pub fn from_fourcc(f: [u8; 4]) -> (r: SignatureVersion)
        ensures
            r == version_of(f@),
    {
        if f[0] == 0x4f && f[1] == 0x53 && f[2] == 0x47 && f[3] == 0x35 {
            assert(f@ =~= seq![0x4fu8, 0x53u8, 0x47u8, 0x35u8]);
            SignatureVersion::V5
        } else if f[3] == 0x31 {
            SignatureVersion::V1
        } else {
            SignatureVersion::V0
        }
    }

    /// Whether elements have a stream.
    pub open spec fn streams(self) -> bool {
        !(self is V0)
    }

    /// Whether elements have a least precision.
    pub open spec fn precisions(self) -> bool {
        self is V1
    }

    /// Whether elements have a stream.
    pub fn has_stream(self) -> (r: bool)
        ensures
            r == self.streams(),
    {
        match self {
            SignatureVersion::V0 => false,
            _ => true,
        }
    }

    /// Whether elements have a least precision.
    pub fn has_min_precision(self) -> (r: bool)
        ensures
            r == self.precisions(),
    {
        match self {
            SignatureVersion::V1 => true,
            _ => false,
        }
    }
}

/// The model of an element.
#[verifier::ext_equal]
pub struct ElementModel {
    /// The semantic name.
    pub semantic_name: Seq<char>,
    /// The semantic index.
    pub semantic_index: u32,
    /// The system value.
    pub system_value: u32,
    /// The component type.
    pub component_type: u32,
    /// The register.
    pub register: u32,
    /// The components it has.
    pub mask: u8,
    /// The components that are read, or never written.
    pub rw_mask: u8,
    /// The stream.
    pub stream: Option<u32>,
    /// The least precision.
    pub min_precision: Option<MinPrecision>,
}

impl SignatureElement {
    /// The element's model.
    pub open spec fn model(self) -> ElementModel {
        ElementModel {
            semantic_name: self.semantic_name@,
            semantic_index: self.semantic_index,
            system_value: self.system_value,
            component_type: self.component_type,
            register: self.register,
            mask: self.mask,
            rw_mask: self.rw_mask,
            stream: self.stream,
            min_precision: self.min_precision,
        }
    }
}

/// The models of the elements.
pub open spec fn element_models(s: Seq<SignatureElement>) -> Seq<ElementModel> {
    Seq::new(s.len(), |i: int| s[i].model())
}

// ---------------------------------------------------------------------------
// Reading
// ---------------------------------------------------------------------------

/// The size of an element's record.
pub open spec fn element_stride(v: SignatureVersion) -> int {
    match v {
        SignatureVersion::V0 => 24,
        SignatureVersion::V5 => 28,
        SignatureVersion::V1 => 32,
    }
}

/// The element whose record begins at position `p`.
pub open spec fn element_at(d: Seq<u8>, p: int, v: SignatureVersion) -> ElementModel {
    let q = if v.streams() {
        p + 4
    } else {
        p
    };
    ElementModel {
        semantic_name: cstring_at(d, word_at(d, q) as int),
        semantic_index: word_at(d, q + 4),
        system_value: word_at(d, q + 8),
        component_type: word_at(d, q + 12),
        register: word_at(d, q + 16),
        mask: (word_at(d, q + 20) & 0xFF) as u8,
        rw_mask: ((word_at(d, q + 20) >> 8) & 0xFF) as u8,
        stream: if v.streams() {
            Some(word_at(d, p))
        } else {
            None
        },
        min_precision: if v.precisions() {
            Some(MinPrecision { value: word_at(d, q + 24) })
        } else {
            None
        },
    }
}

/// The elements in the bytes of a chunk: as many of those it counts as it holds.
pub open spec fn elements_of(d: Seq<u8>, v: SignatureVersion) -> Seq<ElementModel> {
    if d.len() < 8 {
        Seq::empty()
    } else {
        Seq::new(
            records_held(d, 8, element_stride(v), word_at(d, 0) as int) as nat,
            |i: int| element_at(d, 8 + i * element_stride(v), v),
        )
    }
}

fn next_word(c: &mut SliceCursor<'_>) -> (r: u32)
    requires
        cursor_pos(*old(c)) + 4 <= cursor_bytes(*old(c)).len(),
    ensures
        cursor_bytes(*final(c)) == cursor_bytes(*old(c)),
        cursor_pos(*final(c)) == cursor_pos(*old(c)) + 4,
        r == word_at(cursor_bytes(*old(c)), cursor_pos(*old(c)) as int),
{
    match cursor_read_u32(c) {
        Some(v) => v,
        None => 0,
    }
}

fn parse_element(data: &[u8], p: usize, v: SignatureVersion) -> (r: SignatureElement)
    requires
        p + element_stride(v) <= data@.len(),
    ensures
        r.model() == element_at(data@, p as int, v),
{
    let mut c = cursor_new(data);
    let ok = cursor_seek(&mut c, p);
    assert(ok);
    let stream = if v.has_stream() { Some(next_word(&mut c)) } else { None };
    let name: u32 = next_word(&mut c);
    let semantic_index: u32 = next_word(&mut c);
    let system_value: u32 = next_word(&mut c);
    let component_type: u32 = next_word(&mut c);
    let register: u32 = next_word(&mut c);
    let masks: u32 = next_word(&mut c);
    let min_precision = if v.has_min_precision() {
        Some(MinPrecision::from_u32(next_word(&mut c)))
    } else {
        None
    };
    SignatureElement {
        semantic_name: read_cstring(data, name as usize),
        semantic_index,
        system_value,
        component_type,
        register,
        mask: (masks & 0xFF) as u8,
        rw_mask: ((masks >> 8) & 0xFF) as u8,
        stream,
        min_precision,
    }
}

/// The elements in the bytes of a chunk with that code.
pub fn parse_signature(fourcc: [u8; 4], data: &[u8]) -> (r: Vec<SignatureElement>)
    ensures
        element_models(r@) == elements_of(data@, version_of(fourcc@)),
{
    let ghost d = data@;
    let v = SignatureVersion::from_fourcc(fourcc);
    let mut out: Vec<SignatureElement> = Vec::new();
    if data.len() < 8 {
        assert(element_models(out@) =~= Seq::empty());
        return out;
    }
    let mut c = cursor_new(data);
    let count: u32 = next_word(&mut c);
    let stride: u64 = match v {
        SignatureVersion::V0 => 24,
        SignatureVersion::V5 => 28,
        SignatureVersion::V1 => 32,
    };
    let mut i: u32 = 0;
    let mut at: u64 = 8;
    while i < count
        invariant_except_break
            i <= count,
            i == 0 || at <= d.len(),
        invariant
            d == data@,
            d.len() >= 8,
            stride == element_stride(v),
            at == 8 + i * stride,
            at < 0x100_0000_0000,
            out@.len() == i,
            forall|k: int|
                0 <= k < i ==> #[trigger] out@[k].model() == element_at(d, 8 + k * stride, v),
        ensures
            i == records_held(d, 8, stride as int, count as int),
        decreases count - i,
    {
        if at + stride > data.len() as u64 {
            proof {
                assert((i + 1) * stride == i * stride + stride) by (nonlinear_arith);
                crate::chunks::rdef_parse::lemma_records_held(
                    d,
                    8,
                    stride as int,
                    count as int,
                    i as int,
                );
            }
            break;
        }
        out.push(parse_element(data, at as usize, v));
        proof {
            assert((i + 1) * stride == i * stride + stride) by (nonlinear_arith);
            assert((i + 1) * stride <= 0x1_0000_0000 * 32) by (nonlinear_arith)
                requires
                    i + 1 <= 0x1_0000_0000,
                    stride <= 32,
            ;
        }
        at = at + stride;
        i += 1;
        proof {
            if i == count {
                crate::chunks::rdef_parse::lemma_records_held(
                    d,
                    8,
                    stride as int,
                    count as int,
                    i as int,
                );
            }
        }
    }
    proof {
        if count == 0 {
            crate::chunks::rdef_parse::lemma_records_held(d, 8, stride as int, 0, 0);
        }
        assert(element_models(out@) =~= elements_of(d, v));
    }
    out
}

// ---------------------------------------------------------------------------
// Writing
// ---------------------------------------------------------------------------

/// The record of an element whose name stands at `off`.
pub open spec fn element_record(e: ElementModel, off: u32, v: SignatureVersion) -> Seq<u8> {
    (if v.streams() {
        word_bytes(
            match e.stream {
                Some(s) => s,
                None => 0,
            },
        )
    } else {
        Seq::empty()
    }) + word_bytes(off) + word_bytes(e.semantic_index) + word_bytes(e.system_value) + word_bytes(
        e.component_type,
    ) + word_bytes(e.register) + word_bytes((e.mask as u32) | ((e.rw_mask as u32) << 8)) + (
    if v.precisions() {
        word_bytes(
            match e.min_precision {
                Some(m) => m.value,
                None => 0,
            },
        )
    } else {
        Seq::empty()
    })
}

/// The records of the first `n` elements.
pub open spec fn element_records(
    es: Seq<ElementModel>,
    offs: Seq<u32>,
    v: SignatureVersion,
    n: int,
) -> Seq<u8>
    decreases n,
{
    if n <= 0 {
        Seq::empty()
    } else {
        element_records(es, offs, v, n - 1) + element_record(es[n - 1], offs[n - 1], v)
    }
}

/// The names of the elements.
pub open spec fn element_names(es: Seq<ElementModel>) -> Seq<Seq<char>> {
    Seq::new(es.len(), |i: int| es[i].semantic_name)
}

/// The names behind the records.
pub open spec fn signature_names(es: Seq<ElementModel>, v: SignatureVersion) -> Names {
    interned_names(
        (8 + es.len() * element_stride(v)) as nat,
        Seq::empty(),
        element_names(es),
        es.len() as int,
    )
}

/// The bytes of the chunk: the number of elements, the size of its header, the
/// records and the names, each name once.
pub open spec fn signature_payload(es: Seq<ElementModel>, v: SignatureVersion) -> Seq<u8> {
    let n = signature_names(es, v);
    let b = word_bytes(es.len() as u32) + word_bytes(8) + element_records(
        es,
        n.offs,
        v,
        es.len() as int,
    ) + n.bytes;
    b + padding(b.len())
}

fn write_record(w: &mut Vec<u8>, e: &SignatureElement, off: u32, v: SignatureVersion)
    ensures
        final(w)@ == old(w)@ + element_record(e.model(), off, v),
{
    let mut o: Vec<u8> = Vec::new();
    if v.has_stream() {
        push_u32(
            &mut o,
            match e.stream {
                Some(s) => s,
                None => 0,
            },
        );
    }
    let ghost first = if v.streams() {
        word_bytes(
            match e.stream {
                Some(s) => s,
                None => 0,
            },
        )
    } else {
        Seq::empty()
    };
    assert(o@ =~= first);
    push_u32(&mut o, off);
    push_u32(&mut o, e.semantic_index);
    push_u32(&mut o, e.system_value);
    push_u32(&mut o, e.component_type);
    push_u32(&mut o, e.register);
    push_u32(&mut o, (e.mask as u32) | ((e.rw_mask as u32) << 8));
    let mut last: Vec<u8> = Vec::new();
    if v.has_min_precision() {
        push_u32(
            &mut last,
            match e.min_precision {
                Some(m) => m.to_u32(),
                None => 0,
            },
        );
    }
    let ghost tail = if v.precisions() {
        word_bytes(
            match e.min_precision {
                Some(m) => m.value,
                None => 0,
            },
        )
    } else {
        Seq::empty()
    };
    assert(last@ =~= tail);
    push_slice(&mut o, last.as_slice());
    push_slice(w, o.as_slice());
}

/// The bytes of the signature chunk with that code.
pub fn write_signature(fourcc: [u8; 4], elements: &Vec<SignatureElement>) -> (r: Vec<u8>)
    ensures
        r@ == signature_payload(element_models(elements@), version_of(fourcc@)),
{
    let v = SignatureVersion::from_fourcc(fourcc);
    let ghost es = element_models(elements@);
    let mut names: Vec<&str> = Vec::new();
    let mut i: usize = 0;
    while i < elements.len()
        invariant
            i <= elements.len(),
            names@.len() == i,
            forall|k: int| 0 <= k < i ==> (#[trigger] names@[k])@ == elements@[k].semantic_name@,
        decreases elements.len() - i,
    {
        names.push(elements[i].semantic_name.as_str());
        i += 1;
    }
    proof {
        assert(Seq::new(names@.len(), |i: int| names@[i]@) =~= element_names(es));
    }
    let n: u128 = elements.len() as u128;
    let base: u128 = match v {
        SignatureVersion::V0 => 8 + n * 24,
        SignatureVersion::V5 => 8 + n * 28,
        SignatureVersion::V1 => 8 + n * 32,
    };
    assert(es.len() == n);
    let mut tail = Sink::new(base);
    let mut pool: Vec<(&str, u32)> = Vec::new();
    assert(pool_table(pool@) =~= Seq::empty());
    let offs = intern_names(&mut tail, &mut pool, &names);
    assert(offs@ == signature_names(es, v).offs);
    proof {
        lemma_interned_names_len(base as nat, Seq::empty(), element_names(es), es.len() as int);
    }
    let mut records: Vec<u8> = Vec::new();
    let mut i: usize = 0;
    assert(records@ =~= Seq::empty());
    while i < elements.len()
        invariant
            es == element_models(elements@),
            offs@.len() == elements@.len(),
            i <= elements.len(),
            records@ == element_records(es, offs@, v, i as int),
        decreases elements.len() - i,
    {
        assert(es[i as int] == elements@[i as int].model());
        write_record(&mut records, &elements[i], offs[i], v);
        i += 1;
    }
    let mut out: Vec<u8> = Vec::new();
    push_u32(&mut out, elements.len() as u32);
    assert(out@ =~= word_bytes(es.len() as u32));
    push_u32(&mut out, 8);
    push_slice(&mut out, records.as_slice());
    push_slice(&mut out, tail.out.as_slice());
    pad_to4(&mut out, 0);
    out
}

} // verus!
