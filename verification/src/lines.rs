//! Lines and tokens: trimming, comment stripping and splitting.

use vstd::prelude::*;

use crate::text::{is_white, lacks, skip, span_until, span_until_any, starts_with, take, white};

verus! {

/// The character sequences behind a sequence of slices.
pub open spec fn views(v: Seq<&[char]>) -> Seq<Seq<char>> {
    Seq::new(v.len(), |i: int| v[i]@)
}

/// Appending a slice appends its view.
pub proof fn lemma_views_push(v: Seq<&[char]>, x: &[char])
    ensures
        views(v.push(x)) == views(v).push(x@),
{
    assert(views(v.push(x)) =~= views(v).push(x@));
}

// ---------------------------------------------------------------------------
// Trimming
// ---------------------------------------------------------------------------

/// `s` without leading white space.
pub open spec fn trim_start(s: Seq<char>) -> Seq<char>
    decreases s.len(),
{
    if s.len() > 0 && is_white(s[0]) {
        trim_start(s.skip(1))
    } else {
        s
    }
}

/// `s` without trailing white space.
pub open spec fn trim_end(s: Seq<char>) -> Seq<char>
    decreases s.len(),
{
    if s.len() > 0 && is_white(s.last()) {
        trim_end(s.drop_last())
    } else {
        s
    }
}

/// `s` without leading and trailing white space.
pub open spec fn trim(s: Seq<char>) -> Seq<char> {
    trim_end(trim_start(s))
}

/// Whether trimming leaves `s` alone.
pub open spec fn is_trimmed(s: Seq<char>) -> bool {
    s.len() == 0 || (!is_white(s[0]) && !is_white(s.last()))
}

/// Leading white space removed.
pub fn without_leading<'a>(s: &'a [char]) -> (r: &'a [char])
    ensures
        r@ == trim_start(s@),
        r@.len() <= s@.len(),
{
    let mut i: usize = 0;
    assert(s@.skip(0) =~= s@);
    while i < s.len() && white(s[i])
        invariant
            i <= s.len(),
            trim_start(s@) == trim_start(s@.skip(i as int)),
        decreases s.len() - i,
    {
        assert(s@.skip(i as int).skip(1) =~= s@.skip(i as int + 1));
        assert(s@.skip(i as int)[0] == s@[i as int]);
        i += 1;
    }
    if i < s.len() {
        assert(s@.skip(i as int)[0] == s@[i as int]);
    }
    skip(s, i)
}

/// Trailing white space removed.
pub fn without_trailing<'a>(s: &'a [char]) -> (r: &'a [char])
    ensures
        r@ == trim_end(s@),
        r@.len() <= s@.len(),
{
    let mut n: usize = s.len();
    assert(s@.take(n as int) =~= s@);
    while n > 0 && white(s[n - 1])
        invariant
            n <= s.len(),
            trim_end(s@) == trim_end(s@.take(n as int)),
        decreases n,
    {
        assert(s@.take(n as int).drop_last() =~= s@.take(n as int - 1));
        assert(s@.take(n as int).last() == s@[n as int - 1]);
        n -= 1;
    }
    if n > 0 {
        assert(s@.take(n as int).last() == s@[n as int - 1]);
    }
    take(s, n)
}

/// Leading and trailing white space removed.
pub fn trimmed<'a>(s: &'a [char]) -> (r: &'a [char])
    ensures
        r@ == trim(s@),
        r@.len() <= s@.len(),
{
    without_trailing(without_leading(s))
}

/// Trimming leaves text alone that neither begins nor ends with white space.
pub proof fn lemma_trim_trimmed(s: Seq<char>)
    requires
        is_trimmed(s),
    ensures
        trim(s) == s,
{
}

/// What trimming leaves is trimmed, and part of the text.
pub proof fn lemma_trim(s: Seq<char>)
    ensures
        is_trimmed(trim(s)),
        trim(s).len() <= s.len(),
        forall|c: char| #[trigger] trim(s).contains(c) ==> s.contains(c),
{
    lemma_trim_start(s);
    lemma_trim_end(trim_start(s));
    let t = trim_start(s);
    assert forall|c: char| #[trigger] trim(s).contains(c) implies s.contains(c) by {
        assert(t.contains(c));
    }
}

proof fn lemma_trim_start(s: Seq<char>)
    ensures
        trim_start(s).len() <= s.len(),
        trim_start(s).len() > 0 ==> !is_white(trim_start(s)[0]),
        forall|c: char| #[trigger] trim_start(s).contains(c) ==> s.contains(c),
    decreases s.len(),
{
    if s.len() > 0 && is_white(s[0]) {
        lemma_trim_start(s.skip(1));
        assert forall|c: char| #[trigger] trim_start(s).contains(c) implies s.contains(c) by {
            assert(s.skip(1).contains(c));
            let i = choose|i: int| 0 <= i < s.skip(1).len() && s.skip(1)[i] == c;
            assert(s[i + 1] == c);
        }
    }
}

proof fn lemma_trim_end(s: Seq<char>)
    ensures
        trim_end(s).len() <= s.len(),
        trim_end(s).len() > 0 ==> !is_white(trim_end(s).last()) && trim_end(s)[0] == s[0],
        forall|c: char| #[trigger] trim_end(s).contains(c) ==> s.contains(c),
    decreases s.len(),
{
    if s.len() > 0 && is_white(s.last()) {
        lemma_trim_end(s.drop_last());
        assert forall|c: char| #[trigger] trim_end(s).contains(c) implies s.contains(c) by {
            assert(s.drop_last().contains(c));
            let i = choose|i: int| 0 <= i < s.drop_last().len() && s.drop_last()[i] == c;
            assert(s[i] == c);
        }
    }
}

// ---------------------------------------------------------------------------
// Comments and lines
// ---------------------------------------------------------------------------

/// Position of the first `//` in `s`, or its length.
pub open spec fn comment_start(s: Seq<char>) -> nat
    decreases s.len(),
{
    if s.len() < 2 {
        s.len()
    } else if s[0] == '/' && s[1] == '/' {
        0
    } else {
        1 + comment_start(s.skip(1))
    }
}

/// Whether `s` holds `//` anywhere.
pub open spec fn has_comment(s: Seq<char>) -> bool {
    exists|i: int| 0 <= i < s.len() - 1 && #[trigger] s[i] == '/' && s[i + 1] == '/'
}

/// `s` up to its first `//`.
pub open spec fn strip_comment(s: Seq<char>) -> Seq<char> {
    s.take(comment_start(s) as int)
}

/// Position of the first `//`, or the length.
pub fn comment_pos(s: &[char]) -> (n: usize)
    ensures
        n == comment_start(s@),
        n <= s.len(),
{
    let mut i: usize = 0;
    assert(s@.skip(0) =~= s@);
    while i < s.len()
        invariant
            i <= s.len(),
            comment_start(s@) == i + comment_start(s@.skip(i as int)),
        decreases s.len() - i,
    {
        let ghost t = s@.skip(i as int);
        assert(t.skip(1) =~= s@.skip(i as int + 1));
        assert(t[0] == s@[i as int]);
        if i + 1 < s.len() {
            assert(t[1] == s@[i as int + 1]);
            if s[i] == '/' && s[i + 1] == '/' {
                return i;
            }
        } else {
            return s.len();
        }
        i += 1;
    }
    i
}

/// A comment-free text is stripped of nothing.
pub proof fn lemma_no_comment(s: Seq<char>)
    requires
        !has_comment(s),
    ensures
        strip_comment(s) == s,
        comment_start(s) == s.len(),
    decreases s.len(),
{
    if s.len() >= 2 {
        assert(!(s[0] == '/' && s[0int + 1] == '/'));
        let t = s.skip(1);
        assert forall|i: int| 0 <= i < t.len() - 1 implies !(#[trigger] t[i] == '/' && t[i + 1]
            == '/') by {
            assert(s[i + 1] == t[i]);
            assert(s[i + 1 + 1] == t[i + 1]);
        }
        lemma_no_comment(t);
    }
    assert(s.take(s.len() as int) =~= s);
}

/// What precedes the first comment holds no comment.
pub proof fn lemma_strip_comment(s: Seq<char>)
    ensures
        comment_start(s) <= s.len(),
        !has_comment(strip_comment(s)),
    decreases s.len(),
{
    if s.len() >= 2 && !(s[0] == '/' && s[1] == '/') {
        lemma_strip_comment(s.skip(1));
        let n = comment_start(s.skip(1));
        let u = strip_comment(s.skip(1));
        let t = strip_comment(s);
        assert forall|i: int| 0 <= i < t.len() - 1 implies !(#[trigger] t[i] == '/' && t[i + 1]
            == '/') by {
            if i > 0 {
                assert(u[i - 1] == t[i]);
                assert(u[i - 1 + 1] == t[i + 1]);
            }
        }
    }
}

/// The line as its readers see it: with `comments`, without its comment; and
/// trimmed.
pub open spec fn clean_line(line: Seq<char>, comments: bool) -> Seq<char> {
    if comments {
        trim(strip_comment(line))
    } else {
        trim(line)
    }
}

/// A cleaned line as a list of one, or of none if nothing is left of it.
pub open spec fn kept_line(line: Seq<char>, comments: bool) -> Seq<Seq<char>> {
    if clean_line(line, comments).len() == 0 {
        Seq::empty()
    } else {
        seq![clean_line(line, comments)]
    }
}

/// The cleaned lines of a text, the empty ones left out.
pub open spec fn text_lines(s: Seq<char>, comments: bool) -> Seq<Seq<char>>
    decreases s.len(),
{
    let n = span_until(s, '\n', '\n', '\n');
    if n < s.len() {
        kept_line(s.take(n as int), comments) + text_lines(s.skip(n as int + 1), comments)
    } else {
        kept_line(s, comments)
    }
}

/// The line without its comment, if comments are wanted out, and trimmed.
pub fn cleaned<'a>(line: &'a [char], comments: bool) -> (r: &'a [char])
    ensures
        r@ == clean_line(line@, comments),
        r@.len() <= line@.len(),
{
    if comments {
        let n: usize = comment_pos(line);
        trimmed(take(line, n))
    } else {
        trimmed(line)
    }
}

/// The cleaned, non-empty lines of a text.
pub fn lines_of<'a>(s: &'a [char], comments: bool) -> (r: Vec<&'a [char]>)
    ensures
        views(r@) == text_lines(s@, comments),
{
    let mut out: Vec<&'a [char]> = Vec::new();
    let mut rest: &'a [char] = s;
    assert(views(out@) + text_lines(rest@, comments) =~= text_lines(s@, comments));
    loop
        invariant_except_break
            views(out@) + text_lines(rest@, comments) == text_lines(s@, comments),
        ensures
            views(out@) == text_lines(s@, comments),
        decreases rest@.len(),
    {
        let n: usize = span_until_any(rest, '\n', '\n', '\n');
        let last = n >= rest.len();
        let line = if last { rest } else { take(rest, n) };
        let c = cleaned(line, comments);
        let ghost before = out@;
        if c.len() > 0 {
            out.push(c);
            proof {
                lemma_views_push(before, c);
            }
        }
        assert(views(out@) =~= views(before) + kept_line(line@, comments));
        if last {
            break;
        }
        rest = skip(rest, n + 1);
        assert(views(out@) + text_lines(rest@, comments) =~= text_lines(s@, comments));
    }
    out
}

/// The lines of a text that ends at a line break, followed by more text, are
/// the lines of the two.
pub proof fn lemma_text_lines_concat(a: Seq<char>, b: Seq<char>, comments: bool)
    requires
        a.len() == 0 || a.last() == '\n',
    ensures
        text_lines(a + b, comments) == text_lines(a, comments) + text_lines(b, comments),
    decreases a.len(),
{
    reveal_with_fuel(text_lines, 2);
    crate::text::lemma_span_until(a, '\n', '\n', '\n');
    let n = span_until(a, '\n', '\n', '\n');
    if a.len() == 0 {
        assert(a + b =~= b);
        assert(a.take(0) =~= a);
        lemma_empty_line(comments);
        assert(text_lines(a, comments) =~= Seq::empty());
        assert(text_lines(a, comments) + text_lines(b, comments) =~= text_lines(b, comments));
    } else {
        if n == a.len() {
            assert(a[n - 1] == '\n');
        }
        let head = a.take(n as int);
        let tail = a.skip(n as int);
        assert(tail[0] == '\n');
        assert(a + b =~= head + (tail + b));
        crate::text::lemma_span_until_concat(head, tail + b, '\n', '\n', '\n');
        let a2 = a.skip(n as int + 1);
        assert((a + b).skip(n as int + 1) =~= a2 + b);
        if a2.len() > 0 {
            assert(a2.last() == a.last());
        }
        lemma_text_lines_concat(a2, b, comments);
        assert(text_lines(a + b, comments) =~= text_lines(a, comments) + text_lines(b, comments));
    }
}

/// Nothing is kept of an empty line.
pub proof fn lemma_empty_line(comments: bool)
    ensures
        kept_line(Seq::empty(), comments) == Seq::<Seq<char>>::empty(),
        text_lines(Seq::empty(), comments) == Seq::<Seq<char>>::empty(),
{
    let e = Seq::<char>::empty();
    assert(strip_comment(e) =~= e);
}

/// A line is clean when cleaning it changes nothing and something is left.
pub open spec fn is_clean(line: Seq<char>, comments: bool) -> bool {
    &&& line.len() > 0
    &&& is_trimmed(line)
    &&& !line.contains('\n')
    &&& comments ==> !has_comment(line)
}

/// A clean line and a line break make a text of that one line.
pub proof fn lemma_one_line(line: Seq<char>, comments: bool)
    requires
        is_clean(line, comments),
    ensures
        text_lines(line.push('\n'), comments) == seq![line],
{
    let s = line.push('\n');
    reveal_with_fuel(text_lines, 2);
    assert forall|i: int| 0 <= i < line.len() implies #[trigger] line[i] != '\n' by {
        assert(line.contains(line[i]));
    }
    assert(s =~= line + seq!['\n']);
    crate::text::lemma_span_until_concat(line, seq!['\n'], '\n', '\n', '\n');
    if comments {
        lemma_no_comment(line);
    }
    lemma_trim_trimmed(line);
    assert(s.skip(line.len() as int + 1) =~= Seq::empty());
    lemma_empty_line(comments);
    assert(text_lines(s, comments) =~= seq![line]);
}

/// Every line `text_lines` yields is clean.
pub proof fn lemma_text_lines_clean(s: Seq<char>, comments: bool)
    ensures
        forall|i: int|
            0 <= i < text_lines(s, comments).len() ==> is_clean(
                #[trigger] text_lines(s, comments)[i],
                comments,
            ),
    decreases s.len(),
{
    crate::text::lemma_span_until(s, '\n', '\n', '\n');
    let n = span_until(s, '\n', '\n', '\n');
    let line = if n < s.len() { s.take(n as int) } else { s };
    assert(!line.contains('\n')) by {
        if line.contains('\n') {
            let i = choose|i: int| 0 <= i < line.len() && line[i] == '\n';
            assert(s[i] == '\n');
        }
    }
    lemma_clean_line(line, comments);
    let all = text_lines(s, comments);
    let head = kept_line(line, comments);
    if n < s.len() {
        lemma_text_lines_clean(s.skip(n as int + 1), comments);
        let tail = text_lines(s.skip(n as int + 1), comments);
        assert forall|i: int| 0 <= i < all.len() implies is_clean(#[trigger] all[i], comments) by {
            if i >= head.len() {
                assert(all[i] == tail[i - head.len()]);
            } else {
                assert(all[i] == head[i]);
            }
        }
    }
}

/// Cleaning a one-line text yields a clean line, or nothing.
pub proof fn lemma_clean_line(line: Seq<char>, comments: bool)
    requires
        !line.contains('\n'),
    ensures
        clean_line(line, comments).len() > 0 ==> is_clean(clean_line(line, comments), comments),
{
    let base = if comments { strip_comment(line) } else { line };
    lemma_strip_comment(line);
    lemma_trim(base);
    let t = trim(base);
    if t.contains('\n') {
        assert(base.contains('\n'));
        let i = choose|i: int| 0 <= i < base.len() && base[i] == '\n';
        assert(line[i] == '\n');
    }
    if comments {
        lemma_trim_is_subrange(base);
        let k = choose|k: int|
            0 <= k && k + t.len() <= base.len() && t == #[trigger] base.subrange(
                k,
                k + t.len() as int,
            );
        assert forall|i: int| 0 <= i < t.len() - 1 implies !(#[trigger] t[i] == '/' && t[i + 1]
            == '/') by {
            assert(t[i] == base[k + i]);
            assert(t[i + 1] == base[k + i + 1]);
        }
    }
}

/// Trimming yields a contiguous part of the text.
pub proof fn lemma_trim_is_subrange(s: Seq<char>)
    ensures
        exists|k: int|
            0 <= k && k + trim(s).len() <= s.len() && trim(s) == #[trigger] s.subrange(
                k,
                k + trim(s).len() as int,
            ),
{
    let a = trim_start(s);
    lemma_trim_start(s);
    lemma_trim_start_skip(s);
    lemma_trim_end_take(a);
    let t = trim(s);
    let k = s.len() - a.len();
    assert(t =~= s.subrange(k, k + t.len() as int)) by {
        assert(a == s.skip(k));
        assert(t == a.take(t.len() as int));
    }
}

proof fn lemma_trim_start_skip(s: Seq<char>)
    ensures
        trim_start(s).len() <= s.len(),
        trim_start(s) == s.skip(s.len() - trim_start(s).len()),
    decreases s.len(),
{
    if s.len() > 0 && is_white(s[0]) {
        lemma_trim_start_skip(s.skip(1));
        let r = trim_start(s);
        assert(r =~= s.skip(s.len() - r.len()));
    } else {
        assert(s.skip(0) =~= s);
    }
}

proof fn lemma_trim_end_take(s: Seq<char>)
    ensures
        trim_end(s).len() <= s.len(),
        trim_end(s) == s.take(trim_end(s).len() as int),
    decreases s.len(),
{
    if s.len() > 0 && is_white(s.last()) {
        lemma_trim_end_take(s.drop_last());
        let r = trim_end(s);
        assert(r =~= s.take(r.len() as int));
    } else {
        assert(s.take(s.len() as int) =~= s);
    }
}

/// Each line followed by a line break.
pub open spec fn join_lines(ls: Seq<Seq<char>>) -> Seq<char>
    decreases ls.len(),
{
    if ls.len() == 0 {
        Seq::empty()
    } else {
        join_lines(ls.drop_last()) + ls.last().push('\n')
    }
}

/// Joining clean lines and reading them back gives the same lines.
pub proof fn lemma_join_lines(ls: Seq<Seq<char>>, comments: bool)
    requires
        forall|i: int| 0 <= i < ls.len() ==> is_clean(#[trigger] ls[i], comments),
    ensures
        text_lines(join_lines(ls), comments) == ls,
        join_lines(ls).len() == 0 || join_lines(ls).last() == '\n',
    decreases ls.len(),
{
    if ls.len() == 0 {
        lemma_empty_line(comments);
        assert(ls =~= Seq::empty());
    } else {
        let init = ls.drop_last();
        assert forall|i: int| 0 <= i < init.len() implies is_clean(#[trigger] init[i], comments) by {
            assert(init[i] == ls[i]);
        }
        lemma_join_lines(init, comments);
        lemma_one_line(ls.last(), comments);
        lemma_text_lines_concat(join_lines(init), ls.last().push('\n'), comments);
        assert(init + seq![ls.last()] =~= ls);
    }
}

// ---------------------------------------------------------------------------
// Lines as they stand
// ---------------------------------------------------------------------------

/// A line without the carriage return before its line break.
pub open spec fn without_return(line: Seq<char>) -> Seq<char> {
    if line.len() > 0 && line.last() == '\r' {
        line.drop_last()
    } else {
        line
    }
}

/// The lines of a text as they stand: each ends at a line feed, or a carriage
/// return and a line feed, that of the last line being optional.
pub open spec fn raw_lines(s: Seq<char>) -> Seq<Seq<char>>
    decreases s.len(),
{
    let n = span_until(s, '\n', '\n', '\n');
    if s.len() == 0 {
        Seq::empty()
    } else if n < s.len() {
        seq![without_return(s.take(n as int))] + raw_lines(s.skip(n as int + 1))
    } else {
        seq![s]
    }
}

/// The lines of a text as they stand.
pub fn raw_lines_of<'a>(s: &'a [char]) -> (r: Vec<&'a [char]>)
    ensures
        views(r@) == raw_lines(s@),
{
    let mut out: Vec<&'a [char]> = Vec::new();
    let mut rest: &'a [char] = s;
    assert(views(out@) + raw_lines(rest@) =~= raw_lines(s@));
    while rest.len() > 0
        invariant
            views(out@) + raw_lines(rest@) == raw_lines(s@),
        decreases rest@.len(),
    {
        let n: usize = span_until_any(rest, '\n', '\n', '\n');
        let ghost before = out@;
        let ghost old_rest = rest@;
        if n < rest.len() {
            let line = take(rest, n);
            let line = if n > 0 && line[n - 1] == '\r' {
                take(line, n - 1)
            } else {
                line
            };
            assert(line@ =~= without_return(old_rest.take(n as int)));
            out.push(line);
            rest = skip(rest, n + 1);
            proof {
                lemma_views_push(before, line);
                assert(views(out@) + raw_lines(rest@) =~= views(before) + raw_lines(old_rest));
            }
        } else {
            out.push(rest);
            proof {
                lemma_views_push(before, rest);
            }
            rest = skip(rest, n);
            proof {
                assert(rest@ =~= Seq::empty());
                assert(views(out@) + raw_lines(rest@) =~= views(before) + raw_lines(old_rest));
            }
        }
    }
    assert(views(out@) + raw_lines(rest@) =~= views(out@));
    out
}

/// Whether every line of a text begins with `//`.
pub open spec fn only_comments(s: Seq<char>) -> bool {
    forall|i: int|
        0 <= i < raw_lines(s).len() ==> crate::text::starts_with(
            #[trigger] raw_lines(s)[i],
            seq!['/', '/'],
        )
}

/// The lines of a text that ends at a line break, followed by more text, are
/// the lines of the two.
pub proof fn lemma_raw_lines_concat(a: Seq<char>, b: Seq<char>)
    requires
        a.len() == 0 || a.last() == '\n',
    ensures
        raw_lines(a + b) == raw_lines(a) + raw_lines(b),
    decreases a.len(),
{
    reveal_with_fuel(raw_lines, 2);
    crate::text::lemma_span_until(a, '\n', '\n', '\n');
    let n = span_until(a, '\n', '\n', '\n');
    if a.len() == 0 {
        assert(a + b =~= b);
        assert(raw_lines(a) + raw_lines(b) =~= raw_lines(b));
    } else {
        if n == a.len() {
            assert(a[n - 1] == '\n');
        }
        let head = a.take(n as int);
        let tail = a.skip(n as int);
        assert(tail[0] == '\n');
        assert(a + b =~= head + (tail + b));
        crate::text::lemma_span_until_concat(head, tail + b, '\n', '\n', '\n');
        let a2 = a.skip(n as int + 1);
        assert((a + b).skip(n as int + 1) =~= a2 + b);
        assert((a + b).take(n as int) =~= head);
        if a2.len() > 0 {
            assert(a2.last() == a.last());
        }
        lemma_raw_lines_concat(a2, b);
        assert(raw_lines(a + b) =~= raw_lines(a) + raw_lines(b));
    }
}

/// A line and a line break make a text of that one line.
pub proof fn lemma_one_raw_line(line: Seq<char>)
    requires
        !line.contains('\n'),
    ensures
        raw_lines(line.push('\n')) == seq![without_return(line)],
{
    let s = line.push('\n');
    reveal_with_fuel(raw_lines, 2);
    assert forall|i: int| 0 <= i < line.len() implies #[trigger] line[i] != '\n' by {
        assert(line.contains(line[i]));
    }
    assert(s =~= line + seq!['\n']);
    crate::text::lemma_span_until_concat(line, seq!['\n'], '\n', '\n', '\n');
    assert(s.skip(line.len() as int + 1) =~= Seq::empty());
    assert(s.take(line.len() as int) =~= line);
    assert(raw_lines(s) =~= seq![without_return(line)]);
}

/// No line holds a line break.
pub proof fn lemma_raw_lines_flat(s: Seq<char>)
    ensures
        forall|i: int| 0 <= i < raw_lines(s).len() ==> lacks(#[trigger] raw_lines(s)[i], '\n'),
    decreases s.len(),
{
    crate::text::lemma_span_until(s, '\n', '\n', '\n');
    let n = span_until(s, '\n', '\n', '\n');
    let all = raw_lines(s);
    if s.len() > 0 && n < s.len() {
        let rest = s.skip(n as int + 1);
        lemma_raw_lines_flat(rest);
        assert forall|i: int| 0 <= i < all.len() implies lacks(#[trigger] all[i], '\n') by {
            if i > 0 {
                assert(all[i] == raw_lines(rest)[i - 1]);
            } else {
                let line = without_return(s.take(n as int));
                assert forall|j: int| 0 <= j < line.len() implies #[trigger] line[j] != '\n' by {
                    assert(line[j] == s[j]);
                }
            }
        }
    }
}

/// Comment lines, the last of them ended.
pub open spec fn comment_block(s: Seq<char>) -> bool {
    (s.len() == 0 || s.last() == '\n') && only_comments(s)
}

/// A comment and a line break.
pub proof fn lemma_comment_line(line: Seq<char>)
    requires
        lacks(line, '\n'),
        starts_with(line, seq!['/', '/']),
    ensures
        comment_block(line + seq!['\n']),
{
    assert(line.take(2)[0] == '/' && line.take(2)[1] == '/');
    assert(line + seq!['\n'] =~= line.push('\n'));
    lemma_one_raw_line(line);
    assert(without_return(line).take(2) =~= seq!['/', '/']);
}

/// Comment blocks one after the other make a comment block.
pub proof fn lemma_comment_blocks(a: Seq<char>, b: Seq<char>)
    requires
        comment_block(a),
        comment_block(b),
    ensures
        comment_block(a + b),
{
    lemma_only_comments_concat(a, b);
    if b.len() == 0 {
        assert(a + b =~= a);
    } else {
        assert((a + b).last() == b.last());
    }
}

/// Comment lines after comment lines are comment lines.
pub proof fn lemma_only_comments_concat(a: Seq<char>, b: Seq<char>)
    requires
        a.len() == 0 || a.last() == '\n',
        only_comments(a),
        only_comments(b),
    ensures
        only_comments(a + b),
{
    lemma_raw_lines_concat(a, b);
    let all = raw_lines(a + b);
    assert forall|i: int| 0 <= i < all.len() implies crate::text::starts_with(
        #[trigger] all[i],
        seq!['/', '/'],
    ) by {
        if i < raw_lines(a).len() {
            assert(all[i] == raw_lines(a)[i]);
        } else {
            assert(all[i] == raw_lines(b)[i - raw_lines(a).len()]);
        }
    }
}

/// Readers that leave out comments see nothing of comment lines.
pub proof fn lemma_only_comments(s: Seq<char>)
    requires
        only_comments(s),
    ensures
        text_lines(s, true) == Seq::<Seq<char>>::empty(),
    decreases s.len(),
{
    let n = span_until(s, '\n', '\n', '\n');
    crate::text::lemma_span_until(s, '\n', '\n', '\n');
    if s.len() == 0 {
        assert(s =~= Seq::empty());
        lemma_empty_line(true);
    } else {
        let line = if n < s.len() {
            s.take(n as int)
        } else {
            s
        };
        let first = raw_lines(s)[0];
        assert(crate::text::starts_with(first, seq!['/', '/']));
        assert(first.take(2)[0] == '/' && first.take(2)[1] == '/');
        assert(line[0] == '/' && line[1] == '/');
        assert(strip_comment(line) =~= Seq::empty());
        if n < s.len() {
            let rest = s.skip(n as int + 1);
            assert forall|i: int| 0 <= i < raw_lines(rest).len() implies crate::text::starts_with(
                #[trigger] raw_lines(rest)[i],
                seq!['/', '/'],
            ) by {
                assert(raw_lines(s)[i + 1] == raw_lines(rest)[i]);
            }
            lemma_only_comments(rest);
        }
        assert(text_lines(s, true) =~= Seq::empty());
    }
}

// ---------------------------------------------------------------------------
// Splitting
// ---------------------------------------------------------------------------

/// The parts of `s` between the occurrences of `sep`.
pub open spec fn split(s: Seq<char>, sep: char) -> Seq<Seq<char>>
    decreases s.len(),
{
    let n = span_until(s, sep, sep, sep);
    if n < s.len() {
        seq![s.take(n as int)] + split(s.skip(n as int + 1), sep)
    } else {
        seq![s]
    }
}

/// What stands before and after the first `sep` of `s`.
pub open spec fn split_once(s: Seq<char>, sep: char) -> Option<(Seq<char>, Seq<char>)> {
    let n = span_until(s, sep, sep, sep);
    if n < s.len() {
        Some((s.take(n as int), s.skip(n as int + 1)))
    } else {
        None
    }
}

/// The parts between the occurrences of `sep`.
pub fn split_chars<'a>(s: &'a [char], sep: char) -> (r: Vec<&'a [char]>)
    ensures
        views(r@) == split(s@, sep),
{
    let mut out: Vec<&'a [char]> = Vec::new();
    let mut rest: &'a [char] = s;
    assert(views(out@) + split(rest@, sep) =~= split(s@, sep));
    loop
        invariant_except_break
            views(out@) + split(rest@, sep) == split(s@, sep),
        ensures
            views(out@) == split(s@, sep),
        decreases rest@.len(),
    {
        let n: usize = span_until_any(rest, sep, sep, sep);
        let ghost before = out@;
        if n >= rest.len() {
            out.push(rest);
            proof {
                lemma_views_push(before, rest);
            }
            assert(views(out@) =~= split(s@, sep));
            break;
        }
        let part = take(rest, n);
        out.push(part);
        proof {
            lemma_views_push(before, part);
        }
        rest = skip(rest, n + 1);
        assert(views(out@) + split(rest@, sep) =~= split(s@, sep));
    }
    out
}

/// The parts before and after the first `sep`.
pub fn split_at_first<'a>(s: &'a [char], sep: char) -> (r: Option<(&'a [char], &'a [char])>)
    ensures
        match r {
            Some((a, b)) => split_once(s@, sep) == Some((a@, b@)),
            None => split_once(s@, sep) is None,
        },
{
    let n: usize = span_until_any(s, sep, sep, sep);
    if n < s.len() {
        Some((take(s, n), skip(s, n + 1)))
    } else {
        None
    }
}

/// A separator-free text, the separator, and more text split as they are read.
pub proof fn lemma_split_once_concat(a: Seq<char>, sep: char, b: Seq<char>)
    requires
        !a.contains(sep),
    ensures
        split_once(a + seq![sep] + b, sep) == Some((a, b)),
{
    let s = a + seq![sep] + b;
    assert forall|i: int| 0 <= i < a.len() implies #[trigger] a[i] != sep by {
        assert(a.contains(a[i]));
    }
    assert(s =~= a + (seq![sep] + b));
    crate::text::lemma_span_until_concat(a, seq![sep] + b, sep, sep, sep);
    assert(s.skip(a.len() as int + 1) =~= b);
}

/// Length of the longest prefix without white space.
pub open spec fn span_solid(s: Seq<char>) -> nat
    decreases s.len(),
{
    if s.len() == 0 || is_white(s[0]) {
        0
    } else {
        1 + span_solid(s.skip(1))
    }
}

/// The first word of `s` and what follows it, if it holds one.
pub open spec fn next_word(s: Seq<char>) -> Option<(Seq<char>, Seq<char>)> {
    let t = trim_start(s);
    if t.len() == 0 {
        None
    } else {
        Some((t.take(span_solid(t) as int), t.skip(span_solid(t) as int)))
    }
}

/// What `next_word` leaves is shorter.
pub proof fn lemma_next_word(s: Seq<char>)
    ensures
        match next_word(s) {
            Some((w, rest)) => w.len() > 0 && rest.len() < s.len(),
            None => true,
        },
{
    lemma_trim_start(s);
    lemma_span_solid(trim_start(s));
}

proof fn lemma_span_solid(s: Seq<char>)
    ensures
        span_solid(s) <= s.len(),
        s.len() > 0 && !is_white(s[0]) ==> span_solid(s) > 0,
    decreases s.len(),
{
    if s.len() > 0 && !is_white(s[0]) {
        lemma_span_solid(s.skip(1));
    }
}

/// The words of `s`: its longest parts without white space.
pub open spec fn words(s: Seq<char>) -> Seq<Seq<char>>
    decreases s.len(),
    via words_decreases
{
    match next_word(s) {
        Some((w, rest)) => seq![w] + words(rest),
        None => Seq::empty(),
    }
}

#[via_fn]
proof fn words_decreases(s: Seq<char>) {
    lemma_next_word(s);
}

/// Length of the longest prefix without white space.
pub fn solid_len(s: &[char]) -> (n: usize)
    ensures
        n == span_solid(s@),
        n <= s.len(),
{
    let mut i: usize = 0;
    assert(s@.skip(0) =~= s@);
    while i < s.len() && !white(s[i])
        invariant
            i <= s.len(),
            span_solid(s@) == i + span_solid(s@.skip(i as int)),
        decreases s.len() - i,
    {
        assert(s@.skip(i as int).skip(1) =~= s@.skip(i as int + 1));
        assert(s@.skip(i as int)[0] == s@[i as int]);
        i += 1;
    }
    if i < s.len() {
        assert(s@.skip(i as int)[0] == s@[i as int]);
    }
    i
}

/// The first word and what follows it.
pub fn take_word<'a>(s: &'a [char]) -> (r: Option<(&'a [char], &'a [char])>)
    ensures
        match r {
            Some((w, rest)) => next_word(s@) == Some((w@, rest@)) && w@.len() > 0 && rest@.len()
                < s@.len(),
            None => next_word(s@) is None,
        },
{
    let t = without_leading(s);
    if t.len() == 0 {
        return None;
    }
    let n: usize = solid_len(t);
    proof {
        lemma_next_word(s@);
    }
    Some((take(t, n), skip(t, n)))
}

/// The words of a text.
pub fn words_of<'a>(s: &'a [char]) -> (r: Vec<&'a [char]>)
    ensures
        views(r@) == words(s@),
{
    let mut out: Vec<&'a [char]> = Vec::new();
    let mut rest: &'a [char] = s;
    assert(views(out@) + words(rest@) =~= words(s@));
    loop
        invariant
            views(out@) + words(rest@) == words(s@),
        ensures
            views(out@) == words(s@),
        decreases rest@.len(),
    {
        match take_word(rest) {
            None => {
                assert(words(rest@) =~= Seq::empty());
                assert(views(out@) =~= words(s@));
                break;
            },
            Some((w, r2)) => {
                let ghost before = out@;
                out.push(w);
                proof {
                    lemma_views_push(before, w);
                }
                assert(views(before) + words(rest@) =~= views(out@) + words(r2@));
                rest = r2;
            },
        }
    }
    out
}

} // verus!
