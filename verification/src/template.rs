//! The template compiler: from a text with `{{field}}` placeholders to a
//! SQL expression that concatenates quoted labels and column names.

use crate::text::{
    chars_of, dropped, find_from, first_match, is_ascii_letter, leading, lemma_first_match,
    lemma_first_match_is, lemma_leading_is, lemma_single_char_match, occurs_at, push_range, string_of, texts, trim_bounds, trimmed,
};
use vstd::prelude::*;

verus! {

/// A compiled template: the SQL expression and, in order, the names of the
/// fields that it reads.
#[derive(Debug, Clone)]
pub struct Template {
    pub template: String,
    pub fields: Vec<String>,
}

/// Why a text is no template.
#[derive(Debug, Clone, Copy, PartialEq, Eq, Structural)]
pub enum TemplateError {
    /// The text is empty, or opens a placeholder that it never closes.
    MalformedTemplate,
}

/// One placeholder with the label that stands before it.
pub struct Placeholder {
    pub label: Seq<char>,
    pub field: Seq<char>,
}

/// A template taken apart: its placeholders, each with the label before
/// it, and the text after the last placeholder.
pub struct Layout {
    pub parts: Seq<Placeholder>,
    pub tail: Seq<char>,
}

/// The mark that opens a placeholder.
pub open spec fn opening() -> Seq<char> {
    seq!['{', '{']
}

/// The mark that closes a placeholder.
pub open spec fn closing() -> Seq<char> {
    seq!['}', '}']
}

/// A layout with `p` put before its placeholders.
pub open spec fn after(p: Placeholder, rest: Option<Layout>) -> Option<Layout> {
    match rest {
        Some(l) => Some(Layout { parts: seq![p] + l.parts, tail: l.tail }),
        None => None,
    }
}

/// The layout of `s` from index `from` on. The first `{{` opens a
/// placeholder, which the first `}}` after it closes; the field is what
/// stands between them, without surrounding white space, and the label is
/// what stands before. There is no layout where a `{{` is never closed.
pub open spec fn layout_from(s: Seq<char>, from: int) -> Option<Layout>
    decreases s.len() - from,
{
    let o = first_match(s, opening(), from);
    if from < 0 || o >= s.len() {
        Some(Layout { parts: Seq::empty(), tail: s.skip(from) })
    } else {
        let c = first_match(s, closing(), o);
        if c >= s.len() {
            None
        } else {
            proof {
                lemma_first_match(s, opening(), from);
                lemma_first_match(s, closing(), o);
            }
            after(
                Placeholder {
                    label: s.subrange(from, o),
                    field: trimmed(s.subrange(o + 2, c), dropped(true)),
                },
                layout_from(s, c + 2),
            )
        }
    }
}

/// The layout of a whole text.
pub open spec fn layout_of(s: Seq<char>) -> Option<Layout> {
    layout_from(s, 0)
}

/// A label as a SQL string literal, with one space on either side.
pub open spec fn quoted(label: Seq<char>) -> Seq<char> {
    seq!['\'', ' '] + label + seq![' ', '\'']
}

/// The concatenation operator between two terms.
pub open spec fn joiner() -> Seq<char> {
    seq![' ', '|', '|', ' ']
}

/// Whether a text holds nothing but white space.
pub open spec fn blank(s: Seq<char>) -> bool {
    trimmed(s, dropped(true)).len() == 0
}

/// The terms that the placeholders contribute: for each, its label as a
/// literal, then its field.
pub open spec fn part_terms(parts: Seq<Placeholder>) -> Seq<Seq<char>>
    decreases parts.len(),
{
    if parts.len() == 0 {
        Seq::empty()
    } else {
        part_terms(parts.drop_last()).push(quoted(parts.last().label)).push(parts.last().field)
    }
}

/// The terms of a layout: those of its placeholders, then the tail as a
/// literal unless it is blank.
pub open spec fn terms(l: Layout) -> Seq<Seq<char>> {
    if blank(l.tail) {
        part_terms(l.parts)
    } else {
        part_terms(l.parts).push(quoted(l.tail))
    }
}

/// Terms written one after the other with ` || ` between them.
pub open spec fn joined(ts: Seq<Seq<char>>) -> Seq<char>
    decreases ts.len(),
{
    if ts.len() == 0 {
        Seq::empty()
    } else if ts.len() == 1 {
        ts[0]
    } else {
        joined(ts.drop_last()) + joiner() + ts.last()
    }
}

/// The SQL expression of a layout.
pub open spec fn expression(l: Layout) -> Seq<char> {
    joined(terms(l))
}

/// The fields of a list of placeholders, in order.
pub open spec fn part_fields(parts: Seq<Placeholder>) -> Seq<Seq<char>> {
    parts.map_values(|p: Placeholder| p.field)
}

/// The fields of a layout, in order.
pub open spec fn fields_of(l: Layout) -> Seq<Seq<char>> {
    part_fields(l.parts)
}

/// Appends one term to an expression, with ` || ` before it unless it is
/// the first.
fn push_term(out: &mut Vec<char>, src: &Vec<char>, from: usize, to: usize, quote: bool, Ghost(ts): Ghost<Seq<Seq<char>>>)
    requires
        from <= to <= src.len(),
        old(out)@ == joined(ts),
        old(out)@.len() == 0 <==> ts.len() == 0,
    ensures
        final(out)@ == joined(
            ts.push(
                if quote {
                    quoted(src@.subrange(from as int, to as int))
                } else {
                    src@.subrange(from as int, to as int)
                },
            ),
        ),
        final(out)@.len() > 0 || (ts.len() == 0 && !quote && from == to),
{
    let ghost part = src@.subrange(from as int, to as int);
    let ghost term = if quote {
        quoted(part)
    } else {
        part
    };
    let first = out.len() == 0;
    if !first {
        out.push(' ');
        out.push('|');
        out.push('|');
        out.push(' ');
    }
    if quote {
        out.push('\'');
        out.push(' ');
    }
    push_range(out, src, from, to);
    if quote {
        out.push(' ');
        out.push('\'');
    }
    proof {
        assert(ts.push(term).drop_last() =~= ts);
        if first {
            assert(out@ =~= term);
        } else {
            assert(out@ =~= joined(ts) + joiner() + term);
        }
    }
}

impl Template {
    /// Compiles a template text. Fails on the empty text and on a text
    /// that opens a placeholder which it never closes; otherwise gives the
    /// expression of the text's layout, and its fields.
    #[verifier::spinoff_prover]
    #[verifier::rlimit(40)]
    pub fn try_from(value: String) -> (out: Result<Template, TemplateError>)
        ensures
            match out {
                Ok(t) => value@.len() > 0 && match layout_of(value@) {
                    Some(l) => t.template@ == expression(l) && texts(t.fields@) == fields_of(l),
                    None => false,
                },
                Err(_) => value@.len() == 0 || layout_of(value@) is None,
            },
    {
        let v = chars_of(value.as_str());
        if v.len() == 0 {
            return Err(TemplateError::MalformedTemplate);
        }
        let mut open_mark: Vec<char> = Vec::new();
        open_mark.push('{');
        open_mark.push('{');
        let mut close_mark: Vec<char> = Vec::new();
        close_mark.push('}');
        close_mark.push('}');
        assert(open_mark@ == opening());
        assert(close_mark@ == closing());
        let mut out: Vec<char> = Vec::new();
        let mut fields: Vec<String> = Vec::new();
        let ghost mut done: Seq<Placeholder> = Seq::empty();
        let mut start: usize = 0;
        let mut open_at = find_from(&v, &open_mark, start);
        assert(texts(fields@) =~= part_fields(done));
        while open_at.is_some()
            invariant
                v@ == value@,
                open_mark@ == opening(),
                close_mark@ == closing(),
                start <= v.len(),
                match open_at {
                    Some(o) => o < v.len() && o as int == first_match(v@, opening(), start as int),
                    None => first_match(v@, opening(), start as int) == v.len(),
                },
                out@ == joined(part_terms(done)),
                out@.len() == 0 <==> done.len() == 0,
                texts(fields@) == part_fields(done),
                match layout_from(v@, start as int) {
                    Some(l) => layout_of(v@) == Some(
                        Layout { parts: done + l.parts, tail: l.tail },
                    ),
                    None => layout_of(v@) is None,
                },
            decreases v.len() - start,
        {
            let o = open_at.unwrap();
            proof {
                lemma_first_match(v@, opening(), start as int);
                lemma_first_match(v@, closing(), o as int);
            }
            match find_from(&v, &close_mark, o) {
                None => {
                    return Err(TemplateError::MalformedTemplate);
                },
                Some(c) => {
                    assert(c >= o + 2) by {
                        if c == o {
                            assert(v@.subrange(o as int, o + 2)[0] == '{');
                            assert(v@.subrange(c as int, c + 2)[0] == '}');
                        }
                        if c == o + 1 {
                            assert(v@.subrange(o as int, o + 2)[1] == '{');
                            assert(v@.subrange(c as int, c + 2)[0] == '}');
                        }
                    }
                    let (a, b) = trim_bounds(&v, o + 2, c, true);
                    let ghost p = Placeholder {
                        label: v@.subrange(start as int, o as int),
                        field: v@.subrange(a as int, b as int),
                    };
                    let ghost before = part_terms(done);
                    push_term(&mut out, &v, start, o, true, Ghost(before));
                    push_term(&mut out, &v, a, b, false, Ghost(before.push(quoted(p.label))));
                    let mut name: Vec<char> = Vec::new();
                    push_range(&mut name, &v, a, b);
                    let ghost named = fields@;
                    fields.push(string_of(&name));
                    proof {
                        assert(done.push(p).drop_last() =~= done);
                        assert(texts(fields@) =~= texts(named).push(p.field));
                        assert(part_fields(done.push(p)) =~= part_fields(done).push(p.field));
                        match layout_from(v@, c + 2) {
                            Some(l) => {
                                assert(done.push(p) + l.parts =~= done + (seq![p] + l.parts));
                            },
                            None => {},
                        }
                        done = done.push(p);
                    }
                    start = c + 2;
                    open_at = find_from(&v, &open_mark, start);
                },
            }
        }
        let ghost l = Layout { parts: done, tail: v@.skip(start as int) };
        proof {
            assert(done + Seq::<Placeholder>::empty() =~= done);
            assert(layout_of(v@) == Some(l));
        }
        let (a, b) = trim_bounds(&v, start, v.len(), true);
        proof {
            assert(v@.subrange(start as int, v.len() as int) == v@.skip(start as int));
        }
        if a < b {
            push_term(&mut out, &v, start, v.len(), true, Ghost(part_terms(done)));
        }
        Ok(Template { template: string_of(&out), fields })
    }
}

/// One operand of a concatenation: a string literal, by its content, or a
/// column, by its name.
pub enum Term {
    Literal(Seq<char>),
    Column(Seq<char>),
}

/// A character of a column name: an ASCII letter, a digit or `_`.
pub open spec fn is_name_char(c: char) -> bool {
    is_ascii_letter(c) || ('0' <= c && c <= '9') || c == '_'
}

/// [`is_name_char`] as a predicate.
pub open spec fn name_chars() -> spec_fn(char) -> bool {
    |c: char| is_name_char(c)
}

/// A column name: one or more name characters.
pub open spec fn is_name(s: Seq<char>) -> bool {
    s.len() > 0 && forall|i: int| 0 <= i < s.len() ==> is_name_char(#[trigger] s[i])
}

/// A single quote as a pattern.
pub open spec fn quote_mark() -> Seq<char> {
    seq!['\'']
}

/// Reads the term with which `s` begins, and tells how many characters it
/// takes: a literal runs from a quote to the next quote, a column name as
/// far as name characters go.
pub open spec fn read_term(s: Seq<char>) -> Option<(Term, int)> {
    if s.len() == 0 {
        None
    } else if s[0] == '\'' {
        let q = first_match(s, quote_mark(), 1);
        if q >= s.len() {
            None
        } else {
            Some((Term::Literal(s.subrange(1, q)), q + 1))
        }
    } else {
        let n = leading(s, name_chars());
        if n == 0 {
            None
        } else {
            Some((Term::Column(s.take(n as int)), n as int))
        }
    }
}

/// Reads an expression: one term, or several terms with ` || ` between
/// them. There is no reading of any other text.
pub open spec fn read_expression(s: Seq<char>) -> Option<Seq<Term>>
    decreases s.len(),
{
    match read_term(s) {
        None => None,
        Some((t, n)) => if n >= s.len() {
            Some(seq![t])
        } else if 0 < n && occurs_at(s, joiner(), n) {
            match read_expression(s.skip(n + 4)) {
                Some(ts) => Some(seq![t] + ts),
                None => None,
            }
        } else {
            None
        },
    }
}

/// What a term yields on a row that maps column names to values.
pub open spec fn value_of(t: Term, row: spec_fn(Seq<char>) -> Seq<char>) -> Seq<char> {
    match t {
        Term::Literal(x) => x,
        Term::Column(c) => row(c),
    }
}

/// What a concatenation of terms yields on a row.
pub open spec fn evaluated(ts: Seq<Term>, row: spec_fn(Seq<char>) -> Seq<char>) -> Seq<char>
    decreases ts.len(),
{
    if ts.len() == 0 {
        Seq::empty()
    } else {
        evaluated(ts.drop_last(), row) + value_of(ts.last(), row)
    }
}

/// A label between two single spaces.
pub open spec fn padded(label: Seq<char>) -> Seq<char> {
    seq![' '] + label + seq![' ']
}

/// What the placeholders of a template yield on a row: for each, its
/// padded label, then the value of its field.
pub open spec fn parts_text(parts: Seq<Placeholder>, row: spec_fn(Seq<char>) -> Seq<char>) -> Seq<
    char,
>
    decreases parts.len(),
{
    if parts.len() == 0 {
        Seq::empty()
    } else {
        parts_text(parts.drop_last(), row) + padded(parts.last().label) + row(parts.last().field)
    }
}

/// The text of a template on a row: padded labels and field values in
/// turn, and the padded tail unless it is blank.
pub open spec fn template_text(l: Layout, row: spec_fn(Seq<char>) -> Seq<char>) -> Seq<char> {
    if blank(l.tail) {
        parts_text(l.parts, row)
    } else {
        parts_text(l.parts, row) + padded(l.tail)
    }
}

/// Whether the expression of a layout can be read as SQL: no label holds a
/// single quote, every field is a column name, and there is at least one
/// term.
pub open spec fn readable(l: Layout) -> bool {
    &&& forall|i: int|
        0 <= i < l.parts.len() ==> !(#[trigger] l.parts[i]).label.contains('\'') && is_name(
            l.parts[i].field,
        )
    &&& !l.tail.contains('\'')
    &&& terms(l).len() > 0
}

/// How a term is written.
pub open spec fn written(t: Term) -> Seq<char> {
    match t {
        Term::Literal(x) => seq!['\''] + x + seq!['\''],
        Term::Column(c) => c,
    }
}

/// How each of a list of terms is written.
pub open spec fn all_written(ts: Seq<Term>) -> Seq<Seq<char>> {
    ts.map_values(|t: Term| written(t))
}

/// Whether a term is read back as it was written: a literal holds no
/// quote, a column is a name.
pub open spec fn plain(t: Term) -> bool {
    match t {
        Term::Literal(x) => !x.contains('\''),
        Term::Column(c) => is_name(c),
    }
}

/// The terms that the placeholders stand for.
pub open spec fn part_meaning(parts: Seq<Placeholder>) -> Seq<Term>
    decreases parts.len(),
{
    if parts.len() == 0 {
        Seq::empty()
    } else {
        part_meaning(parts.drop_last()).push(Term::Literal(padded(parts.last().label))).push(
            Term::Column(parts.last().field),
        )
    }
}

/// The terms that a layout stands for.
pub open spec fn meaning(l: Layout) -> Seq<Term> {
    if blank(l.tail) {
        part_meaning(l.parts)
    } else {
        part_meaning(l.parts).push(Term::Literal(padded(l.tail)))
    }
}

#[verifier::spinoff_prover]
#[verifier::rlimit(40)]
proof fn lemma_joined_front(w: Seq<char>, ws: Seq<Seq<char>>)
    requires
        ws.len() > 0,
    ensures
        joined(seq![w] + ws) == w + joiner() + joined(ws),
    decreases ws.len(),
{
    let all = seq![w] + ws;
    assert(all.drop_last() =~= seq![w] + ws.drop_last());
    assert(all.last() == ws.last());
    if ws.len() == 1 {
        assert(seq![w] + ws.drop_last() =~= seq![w]);
        assert(joined(seq![w]) == w);
        assert(joined(ws) == ws[0]);
    } else {
        lemma_joined_front(w, ws.drop_last());
        assert(joined(all) =~= w + joiner() + joined(ws));
    }
}

#[verifier::spinoff_prover]
#[verifier::rlimit(40)]
proof fn lemma_read_written_term(t: Term, rest: Seq<char>)
    requires
        plain(t),
        rest.len() == 0 || rest[0] == ' ',
    ensures
        read_term(written(t) + rest) == Some((t, written(t).len() as int)),
{
    let s = written(t) + rest;
    match t {
        Term::Literal(x) => {
            let q: int = x.len() as int + 1;
            assert(s[0] == '\'');
            assert(s[q] == '\'');
            lemma_single_char_match(s, '\'', q);
            assert forall|i: int| 1 <= i < q implies !occurs_at(s, quote_mark(), i) by {
                lemma_single_char_match(s, '\'', i);
                assert(s[i] == x[i - 1]);
                assert(x.contains(x[i - 1]));
            }
            lemma_first_match_is(s, quote_mark(), 1, q);
            assert(s.subrange(1, q) =~= x);
        },
        Term::Column(c) => {
            assert(s[0] == c[0]);
            assert(is_name_char(c[0]));
            assert forall|i: int| 0 <= i < c.len() implies name_chars()(#[trigger] s[i]) by {
                assert(s[i] == c[i]);
            }
            if c.len() < s.len() {
                assert(s[c.len() as int] == rest[0]);
            }
            lemma_leading_is(s, name_chars(), c.len() as int);
            assert(s.take(c.len() as int) =~= c);
        },
    }
}

/// A plain term, written before ` || ` and a text that reads as `tail`,
/// reads as that term followed by `tail`.
#[verifier::spinoff_prover]
#[verifier::rlimit(40)]
proof fn lemma_read_step(t: Term, text: Seq<char>, tail: Seq<Term>)
    requires
        plain(t),
        read_expression(text) == Some(tail),
    ensures
        read_expression(written(t) + joiner() + text) == Some(seq![t] + tail),
{
    let w = written(t);
    let n = w.len() as int;
    let rest = joiner() + text;
    let s = w + rest;
    assert(s =~= w + joiner() + text);
    assert(n > 0);
    assert(rest[0] == ' ');
    lemma_read_written_term(t, rest);
    assert(read_term(s) == Some((t, n)));
    assert(n < s.len());
    assert(s.subrange(n, n + 4) =~= joiner());
    assert(occurs_at(s, joiner(), n));
    assert(s.skip(n + 4) =~= text);
}

/// A plain term alone reads as itself.
#[verifier::spinoff_prover]
#[verifier::rlimit(40)]
proof fn lemma_read_single(t: Term)
    requires
        plain(t),
    ensures
        read_expression(written(t)) == Some(seq![t]),
{
    let w = written(t);
    assert(w.len() > 0);
    assert(w + Seq::<char>::empty() =~= w);
    lemma_read_written_term(t, Seq::empty());
}

/// Terms that are plain are read back from their written form.
#[verifier::spinoff_prover]
#[verifier::rlimit(40)]
pub proof fn lemma_read_written(ts: Seq<Term>)
    requires
        ts.len() > 0,
        forall|i: int| 0 <= i < ts.len() ==> plain(#[trigger] ts[i]),
    ensures
        read_expression(joined(all_written(ts))) == Some(ts),
    decreases ts.len(),
{
    let t = ts[0];
    let w = written(t);
    if ts.len() == 1 {
        assert(joined(all_written(ts)) == w);
        lemma_read_single(t);
        assert(seq![t] =~= ts);
    } else {
        let tail = ts.drop_first();
        assert forall|i: int| 0 <= i < tail.len() implies plain(#[trigger] tail[i]) by {
            assert(tail[i] == ts[i + 1]);
        }
        lemma_read_written(tail);
        assert(all_written(ts) =~= seq![w] + all_written(tail));
        lemma_joined_front(w, all_written(tail));
        lemma_read_step(t, joined(all_written(tail)), tail);
        assert(seq![t] + tail =~= ts);
    }
}

#[verifier::spinoff_prover]
#[verifier::rlimit(40)]
proof fn lemma_part_meaning(parts: Seq<Placeholder>, row: spec_fn(Seq<char>) -> Seq<char>)
    requires
        forall|i: int|
            0 <= i < parts.len() ==> !(#[trigger] parts[i]).label.contains('\'') && is_name(
                parts[i].field,
            ),
    ensures
        part_meaning(parts).len() == 2 * parts.len(),
        all_written(part_meaning(parts)) == part_terms(parts),
        forall|i: int| 0 <= i < part_meaning(parts).len() ==> plain(#[trigger] part_meaning(parts)[i]),
        evaluated(part_meaning(parts), row) == parts_text(parts, row),
    decreases parts.len(),
{
    if parts.len() > 0 {
        let init = parts.drop_last();
        let p = parts.last();
        assert forall|i: int| 0 <= i < init.len() implies !(#[trigger] init[i]).label.contains(
            '\'',
        ) && is_name(init[i].field) by {
            assert(init[i] == parts[i]);
        }
        lemma_part_meaning(init, row);
        let lit = Term::Literal(padded(p.label));
        let col = Term::Column(p.field);
        let m = part_meaning(parts);
        assert(m == part_meaning(init).push(lit).push(col));
        assert(written(lit) =~= quoted(p.label));
        assert(all_written(m) =~= part_terms(init).push(quoted(p.label)).push(p.field));
        lemma_padded_plain(p.label);
        assert(m.drop_last() =~= part_meaning(init).push(lit));
        assert(m.drop_last().drop_last() =~= part_meaning(init));
        let m1 = m.drop_last();
        assert(m.last() == col && m1.last() == lit);
        assert(evaluated(m1, row) == evaluated(part_meaning(init), row) + padded(p.label));
        assert(evaluated(m, row) == evaluated(m1, row) + row(p.field));
    } else {
        assert(all_written(part_meaning(parts)) =~= part_terms(parts));
    }
}

#[verifier::spinoff_prover]
#[verifier::rlimit(40)]
proof fn lemma_padded_plain(label: Seq<char>)
    requires
        !label.contains('\''),
    ensures
        !padded(label).contains('\''),
{
    let s = padded(label);
    if s.contains('\'') {
        let i = choose|i: int| 0 <= i < s.len() && s[i] == '\'';
        if 0 < i < s.len() - 1 {
            assert(s[i] == label[i - 1]);
            assert(label.contains(label[i - 1]));
        }
    }
}

/// The expression of a readable layout, read as SQL, is the list of terms
/// that the layout stands for.
#[verifier::spinoff_prover]
#[verifier::rlimit(40)]
proof fn lemma_layout_round_trip(l: Layout, row: spec_fn(Seq<char>) -> Seq<char>)
    requires
        readable(l),
    ensures
        read_expression(expression(l)) == Some(meaning(l)),
        evaluated(meaning(l), row) == template_text(l, row),
{
    lemma_part_meaning(l.parts, row);
    let m = meaning(l);
    if blank(l.tail) {
    } else {
        let lit = Term::Literal(padded(l.tail));
        lemma_padded_plain(l.tail);
        assert(written(lit) =~= quoted(l.tail));
        assert(all_written(m) =~= terms(l));
        assert(m.drop_last() =~= part_meaning(l.parts));
    }
    assert(all_written(m) =~= terms(l));
    lemma_read_written(m);
}

/// Whatever a template with a readable layout compiles to, read as SQL
/// and evaluated on any row, is the text of the template on that row:
/// every label between two single spaces, every field replaced by its
/// value as it is, and the tail likewise unless it is blank.
pub proof fn lemma_template_round_trip(value: Seq<char>, row: spec_fn(Seq<char>) -> Seq<char>)
    requires
        layout_of(value) is Some,
        readable(layout_of(value)->0),
    ensures
        read_expression(expression(layout_of(value)->0)) matches Some(ts) && evaluated(ts, row)
            == template_text(layout_of(value)->0, row),
{
    lemma_layout_round_trip(layout_of(value)->0, row);
}

} // verus!
