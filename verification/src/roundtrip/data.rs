//! Data blocks and lists of operands read back.

use vstd::prelude::*;

use crate::floats::Spellings;
use crate::grammar::shex::reading::{
    read_custom_data, read_data_tag, read_operand, read_operand_list, read_raw_words, read_row,
    read_row_word, read_rows, skip_comma,
};
use crate::grammar::shex::text::{
    custom_data_text, data_tag_text, hex8_text, operand_list_text, operand_text, raw_text,
    row_text, rows_text,
};
use crate::numerals::{
    dec_text, is_lower_digit, lemma_number_lacks, lemma_number_text, number_reads_back,
};
use crate::roundtrip::operands::{
    follows_operand, lemma_hex8, lemma_operand, lemma_operand_start, lemma_skip_space,
    valid_operand,
};
use crate::shex::ir::{CustomDataType, ImmediateType, KindModel, OperandModel};
use crate::text::{lacks, lemma_span_until_concat, skip_spaces};

verus! {

// ---------------------------------------------------------------------------
// Words of data blocks
// ---------------------------------------------------------------------------

/// A word holds no mark that ends it.
proof fn lemma_hex8_lacks(v: u32, c: char)
    requires
        c == ' ' || c == ',' || c == '}',
    ensures
        lacks(hex8_text(v), c),
{
    lemma_hex8(v);
    let t = hex8_text(v);
    assert forall|i: int| 0 <= i < t.len() implies #[trigger] t[i] != c by {
        assert(t[i] == 'x' || is_lower_digit(t[i], 16));
    }
}

/// A word of a row reads back, behind a space or not.
proof fn lemma_row_word(v: u32, rest: Seq<char>)
    requires
        rest.len() > 0,
        rest[0] == ' ' || rest[0] == ',' || rest[0] == '}',
    ensures
        read_row_word(hex8_text(v) + rest) == Ok::<(u32, Seq<char>), Seq<char>>((v, rest)),
        read_row_word(seq![' '] + (hex8_text(v) + rest)) == Ok::<(u32, Seq<char>), Seq<char>>(
            (v, rest),
        ),
{
    let t = hex8_text(v);
    lemma_hex8(v);
    lemma_hex8_lacks(v, ' ');
    lemma_hex8_lacks(v, ',');
    lemma_hex8_lacks(v, '}');
    let s = t + rest;
    assert(s[0] == t[0]);
    lemma_skip_space(s);
    lemma_span_until_concat(t, rest, ' ', ',', '}');
}

/// The words of a row, without the first space.
pub open spec fn row_body(row: [u32; 4], more: Seq<char>) -> Seq<char> {
    hex8_text(row[0]) + (seq![' '] + (hex8_text(row[1]) + (seq![' '] + (hex8_text(row[2]) + (seq![
        ' ',
    ] + (hex8_text(row[3]) + more))))))
}

proof fn lemma_row_shape(a: Seq<char>, b: Seq<char>, c: Seq<char>, d: Seq<char>, more: Seq<char>)
    ensures
        " "@ + a + (" "@ + b + (" "@ + c + (" "@ + d))) + more == seq![' '] + (a + (seq![' '] + (b
            + (seq![' '] + (c + (seq![' '] + (d + more))))))),
{
    reveal_strlit(" ");
    assert(" "@ =~= seq![' ']);
    let x = " "@ + a + (" "@ + b + (" "@ + c + (" "@ + d))) + more;
    let y = seq![' '] + (a + (seq![' '] + (b + (seq![' '] + (c + (seq![' '] + (d + more)))))));
    assert(x =~= y);
}

/// A row reads back, behind a space or not.
proof fn lemma_row(row: [u32; 4], more: Seq<char>)
    requires
        more.len() > 0,
        more[0] == ' ' || more[0] == ',' || more[0] == '}',
    ensures
        row_text(row) + more == seq![' '] + row_body(row, more),
        read_row(row_body(row, more)) == Ok::<([u32; 4], Seq<char>), Seq<char>>((row, more)),
        read_row(seq![' '] + row_body(row, more)) == Ok::<([u32; 4], Seq<char>), Seq<char>>(
            (row, more),
        ),
        row_body(row, more).len() > more.len(),
        row_body(row, more)[0] == '0',
{
    lemma_row_shape(
        hex8_text(row[0]),
        hex8_text(row[1]),
        hex8_text(row[2]),
        hex8_text(row[3]),
        more,
    );
    let s3 = seq![' '] + (hex8_text(row[3]) + more);
    let s2 = seq![' '] + (hex8_text(row[2]) + s3);
    let s1 = seq![' '] + (hex8_text(row[1]) + s2);
    lemma_row_word(row[0], s1);
    lemma_row_word(row[1], s2);
    lemma_row_word(row[2], s3);
    lemma_row_word(row[3], more);
    lemma_hex8(row[0]);
    assert(row_body(row, more) == hex8_text(row[0]) + s1);
    assert([row[0], row[1], row[2], row[3]] =~= row);
}

/// What ends a data block.
proof fn lemma_block_end()
    ensures
        " }"@ == seq![' '] + seq!['}'],
        skip_spaces(" }"@) == seq!['}'],
{
    reveal_strlit(" }");
    assert(" }"@ =~= seq![' '] + seq!['}']);
    lemma_skip_space(seq!['}']);
}

/// A row and the rows behind it are read one by one.
proof fn lemma_read_rows(b: Seq<char>, row: [u32; 4], more: Seq<char>, rs: Seq<[u32; 4]>)
    requires
        b.len() > more.len(),
        b[0] == '0',
        read_row(b) == Ok::<([u32; 4], Seq<char>), Seq<char>>((row, more)),
        read_row(seq![' '] + b) == Ok::<([u32; 4], Seq<char>), Seq<char>>((row, more)),
        read_rows(more, false) == Ok::<Seq<[u32; 4]>, Seq<char>>(rs),
    ensures
        read_rows(seq![' '] + b, true) == Ok::<Seq<[u32; 4]>, Seq<char>>(seq![row] + rs),
        read_rows(seq![','] + (seq![' '] + b), false) == Ok::<Seq<[u32; 4]>, Seq<char>>(
            seq![row] + rs,
        ),
{
    lemma_skip_space(b);
    let s = seq![','] + (seq![' '] + b);
    lemma_skip_space(s);
    assert(s.skip(1) =~= seq![' '] + b);
}

/// The rows from number `k` on begin with row number `k`.
proof fn lemma_rows_shape(rows: Seq<[u32; 4]>, k: int, end: Seq<char>)
    requires
        0 <= k < rows.len(),
    ensures
        rows_text(rows, k) + end == (if k > 0 {
            seq![',']
        } else {
            Seq::<char>::empty()
        }) + (row_text(rows[k]) + (rows_text(rows, k + 1) + end)),
{
    reveal_strlit(",");
    assert(","@ =~= seq![',']);
    let sep = if k > 0 {
        seq![',']
    } else {
        Seq::<char>::empty()
    };
    lemma_four(sep, row_text(rows[k]), rows_text(rows, k + 1), end);
}

proof fn lemma_four(a: Seq<char>, b: Seq<char>, c: Seq<char>, d: Seq<char>)
    ensures
        a + b + c + d == a + (b + (c + d)),
{
    assert(a + b + c + d =~= a + (b + (c + d)));
}

/// The rows from number `k` on read back.
proof fn lemma_rows(rows: Seq<[u32; 4]>, k: int)
    requires
        0 <= k <= rows.len(),
    ensures
        read_rows(rows_text(rows, k) + " }"@, k == 0) == Ok::<Seq<[u32; 4]>, Seq<char>>(
            rows.skip(k),
        ),
        (rows_text(rows, k) + " }"@).len() > 0,
        (rows_text(rows, k) + " }"@)[0] == (if 0 < k < rows.len() {
            ','
        } else {
            ' '
        }),
    decreases rows.len() - k,
{
    let s = rows_text(rows, k) + " }"@;
    lemma_block_end();
    if k == rows.len() {
        assert(s =~= " }"@);
        assert(rows.skip(k) =~= Seq::empty());
    } else {
        let row = rows[k];
        let more = rows_text(rows, k + 1) + " }"@;
        lemma_rows(rows, k + 1);
        lemma_row(row, more);
        let b = row_body(row, more);
        lemma_read_rows(b, row, more, rows.skip(k + 1));
        lemma_rows_shape(rows, k, " }"@);
        if k == 0 {
            assert(s =~= seq![' '] + b);
        } else {
            assert(s == seq![','] + (seq![' '] + b));
        }
        assert(rows.skip(k) =~= seq![row] + rows.skip(k + 1));
    }
}

/// The words of a block from number `k` on read back.
proof fn lemma_raw_words(raw: Seq<u32>, k: int)
    requires
        0 <= k <= raw.len(),
    ensures
        read_raw_words(raw_text(raw, k) + " }"@) == Ok::<Seq<u32>, Seq<char>>(raw.skip(k)),
        (raw_text(raw, k) + " }"@)[0] == ' ',
    decreases raw.len() - k,
{
    let s = raw_text(raw, k) + " }"@;
    lemma_block_end();
    if k == raw.len() {
        assert(s =~= " }"@);
        assert(raw.skip(k) =~= Seq::empty());
    } else {
        let more = raw_text(raw, k + 1) + " }"@;
        lemma_raw_words(raw, k + 1);
        reveal_strlit(" ");
        let t = hex8_text(raw[k]);
        lemma_hex8(raw[k]);
        lemma_hex8_lacks(raw[k], ' ');
        lemma_hex8_lacks(raw[k], '}');
        assert(s =~= seq![' '] + (t + more));
        assert((t + more)[0] == t[0]);
        lemma_skip_space(t + more);
        lemma_span_until_concat(t, more, ' ', '}', '}');
        assert(raw.skip(k) =~= seq![raw[k]] + raw.skip(k + 1));
    }
}

// ---------------------------------------------------------------------------
// Data blocks
// ---------------------------------------------------------------------------

/// Whether a data block can be written: it holds rows or words as its kind has
/// it, and its length counts them.
pub open spec fn valid_data(k: KindModel) -> bool {
    match k {
        KindModel::CustomData { subtype, values, raw, raw_dword_count } => {
            if subtype is ImmediateConstantBuffer {
                raw.len() == 0 && raw_dword_count == 2 + 4 * values.len()
            } else {
                values.len() == 0 && raw_dword_count == 2 + raw.len()
            }
        },
        _ => false,
    }
}

/// The name of a data block's kind reads back.
proof fn lemma_data_tag(t: CustomDataType)
    ensures
        data_tag_text(t).len() > 0,
        lacks(data_tag_text(t), ' '),
        (data_tag_text(t) == "icb"@) == (t is ImmediateConstantBuffer),
        !(t is ImmediateConstantBuffer) ==> read_data_tag(data_tag_text(t)) == Ok::<
            CustomDataType,
            Seq<char>,
        >(t),
{
    reveal_strlit("icb");
    reveal_strlit("comment");
    reveal_strlit("debuginfo");
    reveal_strlit("opaque");
    reveal_strlit("other(");
    let s = data_tag_text(t);
    match t {
        CustomDataType::Other(v) => {
            let d = dec_text(v as nat);
            lemma_number_text(v as nat, 10);
            number_reads_back(v as nat, 10, 0xffff_ffff);
            lemma_number_lacks(v as nat, 10, ' ');
            assert(s.take(6) =~= "other("@);
            let r = s.skip(6);
            assert(r =~= d.push(')'));
            assert(r.drop_last() =~= d);
            assert(s[0] == 'o' && s[1] == 't');
            assert("comment"@[0] == 'c' && "debuginfo"@[0] == 'd' && "opaque"@[1] == 'p');
        },
        _ => {},
    }
}

/// A data block reads back.
pub proof fn lemma_custom_data(k: KindModel)
    requires
        valid_data(k),
    ensures
        ({
            let s = custom_data_text(
                k->CustomData_subtype,
                k->CustomData_values,
                k->CustomData_raw,
            );
            &&& s.len() > 0
            &&& s[0] == ' '
            &&& read_custom_data(s.skip(1)) == Ok::<KindModel, Seq<char>>(k)
        }),
{
    match k {
        KindModel::CustomData { subtype, values, raw, raw_dword_count } => {
            let tag = data_tag_text(subtype);
            lemma_data_tag(subtype);
            let body = if subtype is ImmediateConstantBuffer {
                rows_text(values, 0)
            } else {
                raw_text(raw, 0)
            };
            let s = custom_data_text(subtype, values, raw);
            let u = seq!['{'] + (body + " }"@);
            let rest = seq![' '] + u;
            lemma_data_shape(tag, body);
            assert(s.skip(1) == tag + rest);
            assert((tag + rest)[0] == tag[0]);
            assert(tag[0] != ' ');
            lemma_skip_space(tag + rest);
            lemma_span_until_concat(tag, rest, ' ', ' ', ' ');
            lemma_skip_space(u);
            assert(u.skip(1) =~= body + " }"@);
            if subtype is ImmediateConstantBuffer {
                lemma_rows(values, 0);
                assert(values.skip(0) =~= values);
                assert(raw =~= Seq::empty());
            } else {
                lemma_raw_words(raw, 0);
                assert(raw.skip(0) =~= raw);
                assert(values =~= Seq::empty());
            }
        },
        _ => {},
    }
}

proof fn lemma_data_shape(tag: Seq<char>, body: Seq<char>)
    ensures
        ({
            let s = " "@ + tag + " {"@ + body + " }"@;
            &&& s.len() > 0
            &&& s[0] == ' '
            &&& s.skip(1) == tag + (seq![' '] + (seq!['{'] + (body + " }"@)))
        }),
{
    reveal_strlit(" ");
    reveal_strlit(" {");
    let s = " "@ + tag + " {"@ + body + " }"@;
    assert(s.skip(1) =~= tag + (seq![' '] + (seq!['{'] + (body + " }"@))));
}

// ---------------------------------------------------------------------------
// Operands of generic instructions
// ---------------------------------------------------------------------------

/// Whether all operands can be written.
pub open spec fn valid_operands(ops: Seq<OperandModel>) -> bool {
    forall|i: int| 0 <= i < ops.len() ==> valid_operand(#[trigger] ops[i])
}

/// The operands from number `k` on, without what separates them from those
/// before.
pub open spec fn list_body(
    ops: Seq<OperandModel>,
    k: int,
    ty: ImmediateType,
    ft: Spellings,
) -> Seq<char> {
    operand_text(ops[k], ty, ft) + operand_list_text(ops, k + 1, ty, ft)
}

/// Whether an operand reads back before `rest`.
#[verifier::opaque]
pub open spec fn operand_reads(t: Seq<char>, o: OperandModel, rest: Seq<char>, ft: Spellings) -> bool {
    &&& t.len() > 0
    &&& t[0] != ' '
    &&& read_operand(t + rest, ft) == Ok::<(OperandModel, Seq<char>), Seq<char>>((o, rest))
}

/// Whether a text reads as those operands, behind a space or not.
#[verifier::opaque]
pub open spec fn reads_as(s: Seq<char>, ops: Seq<OperandModel>, ft: Spellings) -> bool {
    &&& s.len() > 0
    &&& read_operand_list(s, ft) == Ok::<Seq<OperandModel>, Seq<char>>(ops)
    &&& read_operand_list(seq![' '] + s, ft) == Ok::<Seq<OperandModel>, Seq<char>>(ops)
}

proof fn lemma_operand_reads(o: OperandModel, ty: ImmediateType, ft: Spellings, rest: Seq<char>)
    requires
        valid_operand(o),
        follows_operand(rest),
    ensures
        operand_reads(operand_text(o, ty, ft), o, rest, ft),
{
    reveal(operand_reads);
    lemma_operand_start(o, ty, ft);
    lemma_operand(o, ty, ft, rest);
}

/// The last operand is read.
proof fn lemma_last_step(t: Seq<char>, o: OperandModel, ft: Spellings)
    requires
        operand_reads(t, o, Seq::empty(), ft),
    ensures
        reads_as(t + Seq::empty(), seq![o], ft),
{
    reveal(operand_reads);
    reveal(reads_as);
    let e = Seq::<char>::empty();
    let s = t + e;
    assert(s[0] == t[0]);
    lemma_skip_space(s);
    lemma_skip_space(e);
    assert(skip_comma(e) == e);
    assert(read_operand_list(e, ft) == Ok::<Seq<OperandModel>, Seq<char>>(Seq::empty()));
    assert(seq![o] + Seq::<OperandModel>::empty() =~= seq![o]);
}

/// An operand, a comma, and more operands are read one by one.
proof fn lemma_comma_step(
    t: Seq<char>,
    o: OperandModel,
    body: Seq<char>,
    rest: Seq<OperandModel>,
    ft: Spellings,
)
    requires
        operand_reads(t, o, seq![','] + (seq![' '] + body), ft),
        reads_as(body, rest, ft),
        rest.len() > 0,
    ensures
        reads_as(t + (seq![','] + (seq![' '] + body)), seq![o] + rest, ft),
{
    reveal(operand_reads);
    reveal(reads_as);
    let u = seq![' '] + body;
    let r = seq![','] + u;
    let s = t + r;
    lemma_skip_space(r);
    assert(r.skip(1) =~= u);
    assert(skip_comma(r) == u);
    assert(skip_spaces(u).len() > 0);
    assert(s[0] == t[0]);
    lemma_skip_space(s);
}

/// The operands from number `k` on read back, behind a space or not.
proof fn lemma_operand_list(ops: Seq<OperandModel>, k: int, ty: ImmediateType, ft: Spellings)
    requires
        0 <= k < ops.len(),
        valid_operands(ops),
    ensures
        reads_as(list_body(ops, k, ty, ft), ops.skip(k), ft),
    decreases ops.len() - k,
{
    let o = ops[k];
    assert(valid_operand(o));
    lemma_list_tail(ops, k + 1, ty, ft);
    if k + 1 < ops.len() {
        let body = list_body(ops, k + 1, ty, ft);
        lemma_operand_list(ops, k + 1, ty, ft);
        lemma_operand_reads(o, ty, ft, seq![','] + (seq![' '] + body));
        lemma_comma_step(operand_text(o, ty, ft), o, body, ops.skip(k + 1), ft);
        assert(ops.skip(k) =~= seq![o] + ops.skip(k + 1));
    } else {
        lemma_operand_reads(o, ty, ft, Seq::empty());
        lemma_last_step(operand_text(o, ty, ft), o, ft);
        assert(ops.skip(k) =~= seq![o]);
    }
}

/// What stands behind the operands before number `k`.
proof fn lemma_list_tail(ops: Seq<OperandModel>, k: int, ty: ImmediateType, ft: Spellings)
    requires
        0 < k <= ops.len(),
    ensures
        operand_list_text(ops, k, ty, ft) == (if k < ops.len() {
            seq![','] + (seq![' '] + list_body(ops, k, ty, ft))
        } else {
            Seq::<char>::empty()
        }),
{
    if k < ops.len() {
        reveal_strlit(", ");
        let x = list_body(ops, k, ty, ft);
        assert(", "@ =~= seq![','] + seq![' ']);
        let a = operand_text(ops[k], ty, ft);
        let b = operand_list_text(ops, k + 1, ty, ft);
        assert(", "@ + a + b =~= seq![','] + (seq![' '] + (a + b)));
    }
}

/// All operands behind a space.
proof fn lemma_list_head(ops: Seq<OperandModel>, ty: ImmediateType, ft: Spellings)
    requires
        ops.len() > 0,
    ensures
        operand_list_text(ops, 0, ty, ft) == seq![' '] + list_body(ops, 0, ty, ft),
        operand_list_text(ops, 0, ty, ft).skip(1) == list_body(ops, 0, ty, ft),
{
    reveal_strlit(" ");
    let a = operand_text(ops[0], ty, ft);
    let b = operand_list_text(ops, 1, ty, ft);
    assert(" "@ + a + b =~= seq![' '] + (a + b));
    assert((seq![' '] + (a + b)).skip(1) =~= a + b);
}

/// The operands of a generic instruction read back; where there are none,
/// nothing is written.
pub proof fn lemma_generic_operands(ops: Seq<OperandModel>, ty: ImmediateType, ft: Spellings)
    requires
        valid_operands(ops),
    ensures
        ({
            let s = operand_list_text(ops, 0, ty, ft);
            if ops.len() == 0 {
                &&& s == Seq::<char>::empty()
                &&& read_operand_list(s, ft) == Ok::<Seq<OperandModel>, Seq<char>>(ops)
            } else {
                &&& s.len() > 0
                &&& s[0] == ' '
                &&& read_operand_list(s.skip(1), ft) == Ok::<Seq<OperandModel>, Seq<char>>(ops)
            }
        }),
{
    let s = operand_list_text(ops, 0, ty, ft);
    if ops.len() == 0 {
        lemma_skip_space(Seq::empty());
        assert(ops =~= Seq::empty());
    } else {
        lemma_operand_list(ops, 0, ty, ft);
        reveal(reads_as);
        lemma_list_head(ops, ty, ft);
        assert(ops.skip(0) =~= ops);
    }
}

} // verus!
