//! The grammar of a raw query: `term`, `term|province` or
//! `term|province,city`.

use crate::normalize::{normalize, normalized};
use crate::text::{
    chars_of, find_from, first_match, lemma_first_match_is, lemma_no_match,
    is_ascii_capital, lemma_single_char_match, no_ascii_capital, occurs_at, push_range,
    string_of,
};
use vstd::prelude::*;

verus! {

/// A parsed query: the search term and the optional locality filters, the
/// latter already wrapped for `LIKE`.
#[derive(Debug)]
pub struct SearchString {
    pub query: String,
    pub provincia: Option<String>,
    pub ciudad: Option<String>,
}

/// The mathematical value of a [`SearchString`].
pub struct SearchStringView {
    pub query: Seq<char>,
    pub provincia: Option<Seq<char>>,
    pub ciudad: Option<Seq<char>>,
}

/// The text of an optional string.
pub open spec fn text_of(s: Option<String>) -> Option<Seq<char>> {
    match s {
        Some(t) => Some(t@),
        None => None,
    }
}

impl View for SearchString {
    type V = SearchStringView;

    open spec fn view(&self) -> SearchStringView {
        SearchStringView {
            query: self.query@,
            provincia: text_of(self.provincia),
            ciudad: text_of(self.ciudad),
        }
    }
}

/// Whether no part of a parsed query holds an ASCII capital.
pub open spec fn lowercased(s: SearchStringView) -> bool {
    &&& no_ascii_capital(s.query)
    &&& s.provincia matches Some(p) ==> no_ascii_capital(p)
    &&& s.ciudad matches Some(c) ==> no_ascii_capital(c)
}

/// A locality in normal form between two `%`, as `LIKE` takes it.
pub open spec fn like_pattern(s: Seq<char>) -> Seq<char> {
    seq!['%'] + normalized(s) + seq!['%']
}

/// What a raw query means. It is cut at its first `|`; what follows is cut
/// at its first `,`. Every part is normalised, and the localities are
/// wrapped for `LIKE`.
pub open spec fn parsed(s: Seq<char>) -> SearchStringView {
    let bar = first_match(s, seq!['|'], 0);
    if bar == s.len() {
        SearchStringView { query: normalized(s), provincia: None, ciudad: None }
    } else {
        let filters = s.skip(bar + 1);
        let comma = first_match(filters, seq![','], 0);
        if comma == filters.len() {
            SearchStringView {
                query: normalized(s.take(bar)),
                provincia: Some(like_pattern(filters)),
                ciudad: None,
            }
        } else {
            SearchStringView {
                query: normalized(s.take(bar)),
                provincia: Some(like_pattern(filters.take(comma))),
                ciudad: Some(like_pattern(filters.skip(comma + 1))),
            }
        }
    }
}

/// Normalises `v[from..to]`.
fn normalize_range(v: &Vec<char>, from: usize, to: usize) -> (out: String)
    requires
        from <= to <= v.len(),
    ensures
        out@ == normalized(v@.subrange(from as int, to as int)),
        no_ascii_capital(out@),
{
    let mut part: Vec<char> = Vec::new();
    push_range(&mut part, v, from, to);
    let raw = string_of(&part);
    normalize(raw.as_str())
}

/// Normalises `v[from..to]` and wraps it in `%`.
fn like_range(v: &Vec<char>, from: usize, to: usize) -> (out: String)
    requires
        from <= to <= v.len(),
    ensures
        out@ == like_pattern(v@.subrange(from as int, to as int)),
        no_ascii_capital(out@),
{
    let norm = normalize_range(v, from, to);
    let inner = chars_of(norm.as_str());
    let mut wrapped: Vec<char> = Vec::new();
    wrapped.push('%');
    push_range(&mut wrapped, &inner, 0, inner.len());
    wrapped.push('%');
    proof {
        assert(inner@.subrange(0, inner.len() as int) == inner@);
        assert(wrapped@ == seq!['%'] + inner@ + seq!['%']);
        assert forall|i: int| 0 <= i < wrapped@.len() implies !is_ascii_capital(
            #[trigger] wrapped@[i],
        ) by {
            if 0 < i < wrapped@.len() - 1 {
                assert(wrapped@[i] == inner@[i - 1]);
            }
        }
    }
    string_of(&wrapped)
}

impl SearchString {
    /// Reads a raw query. No part of the result holds an ASCII capital.
    pub fn parse(search_str: &str) -> (out: SearchString)
        ensures
            out@ == parsed(search_str@),
            lowercased(out@),
    {
        let v = chars_of(search_str);
        let mut bar_pat: Vec<char> = Vec::new();
        bar_pat.push('|');
        let mut comma_pat: Vec<char> = Vec::new();
        comma_pat.push(',');
        assert(bar_pat@ == seq!['|']);
        assert(comma_pat@ == seq![',']);
        match find_from(&v, &bar_pat, 0) {
            None => {
                proof {
                    assert(v@.subrange(0, v.len() as int) == v@);
                }
                SearchString {
                    query: normalize_range(&v, 0, v.len()),
                    provincia: None,
                    ciudad: None,
                }
            },
            Some(bar) => {
                let mut filters: Vec<char> = Vec::new();
                push_range(&mut filters, &v, bar + 1, v.len());
                proof {
                    assert(filters@ == v@.skip(bar + 1));
                    assert(v@.subrange(0, bar as int) == v@.take(bar as int));
                }
                let query = normalize_range(&v, 0, bar);
                match find_from(&filters, &comma_pat, 0) {
                    None => {
                        proof {
                            assert(filters@.subrange(0, filters.len() as int) == filters@);
                        }
                        SearchString {
                            query,
                            provincia: Some(like_range(&filters, 0, filters.len())),
                            ciudad: None,
                        }
                    },
                    Some(comma) => {
                        proof {
                            assert(filters@.subrange(0, comma as int) == filters@.take(
                                comma as int,
                            ));
                            assert(filters@.subrange(comma + 1, filters.len() as int)
                                == filters@.skip(comma + 1));
                        }
                        SearchString {
                            query,
                            provincia: Some(like_range(&filters, 0, comma)),
                            ciudad: Some(like_range(&filters, comma + 1, filters.len())),
                        }
                    },
                }
            },
        }
    }
}

/// A `|` or a `,` as a pattern of one character.
pub open spec fn mark(c: char) -> Seq<char> {
    seq![c]
}

proof fn lemma_cut(left: Seq<char>, c: char, right: Seq<char>)
    requires
        !left.contains(c),
    ensures
        first_match(left + mark(c) + right, mark(c), 0) == left.len(),
        (left + mark(c) + right).take(left.len() as int) == left,
        (left + mark(c) + right).skip(left.len() as int + 1) == right,
{
    let s = left + mark(c) + right;
    let at = left.len() as int;
    assert(s[at] == c);
    lemma_single_char_match(s, c, at);
    assert forall|i: int| 0 <= i < at implies !occurs_at(s, mark(c), i) by {
        lemma_single_char_match(s, c, i);
        assert(s[i] == left[i]);
        assert(left.contains(left[i]));
    }
    lemma_first_match_is(s, mark(c), 0, at);
    assert(s.take(at) =~= left);
    assert(s.skip(at + 1) =~= right);
}

proof fn lemma_uncut(s: Seq<char>, c: char)
    requires
        !s.contains(c),
    ensures
        first_match(s, mark(c), 0) == s.len(),
{
    assert forall|i: int| 0 <= i < s.len() implies !occurs_at(s, mark(c), i) by {
        lemma_single_char_match(s, c, i);
        assert(s.contains(s[i]));
    }
    lemma_no_match(s, mark(c));
}

/// A term without `|` that stands alone is the whole query.
pub proof fn lemma_parsed_term(term: Seq<char>)
    requires
        !term.contains('|'),
    ensures
        parsed(term) == (SearchStringView { query: normalized(term), provincia: None, ciudad: None }),
{
    lemma_uncut(term, '|');
}

/// A term without `|`, a `|` and a province without `,` are read as term
/// and province.
pub proof fn lemma_parsed_province(term: Seq<char>, province: Seq<char>)
    requires
        !term.contains('|'),
        !province.contains(','),
    ensures
        parsed(term + mark('|') + province) == (SearchStringView {
            query: normalized(term),
            provincia: Some(like_pattern(province)),
            ciudad: None,
        }),
{
    lemma_cut(term, '|', province);
    lemma_uncut(province, ',');
}

/// A term without `|`, then `|`, a province without `,`, then `,` and a
/// city are read as these three, each normalised and the localities
/// wrapped in `%`.
pub proof fn lemma_parsed_city(term: Seq<char>, province: Seq<char>, city: Seq<char>)
    requires
        !term.contains('|'),
        !province.contains(','),
    ensures
        parsed(term + mark('|') + (province + mark(',') + city)) == (SearchStringView {
            query: normalized(term),
            provincia: Some(like_pattern(province)),
            ciudad: Some(like_pattern(city)),
        }),
{
    lemma_cut(term, '|', province + mark(',') + city);
    lemma_cut(province, ',', city);
}

} // verus!
