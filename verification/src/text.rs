//! Character-level building blocks shared by the parsers of this crate.
//!
//! Strings are handled as sequences of `char`: every executable function
//! here works on a `Vec<char>` (or converts from and to `String`) and is
//! specified over `Seq<char>`.

use vstd::prelude::*;

verus! {

/// `String::push` appends exactly one character at the end.
pub assume_specification[ String::push ](s: &mut String, c: char)
    ensures
        final(s)@ == old(s)@.push(c),
;

/// Names what `str::to_lowercase` returns for a given text: the lowercase
/// mapping of the Unicode tables that ship with the standard library.
pub uninterp spec fn lowercase_of(s: Seq<char>) -> Seq<char>;

/// An ASCII capital, `A` to `Z`.
pub open spec fn is_ascii_capital(c: char) -> bool {
    'A' <= c && c <= 'Z'
}

/// Whether a text holds no ASCII capital.
pub open spec fn no_ascii_capital(s: Seq<char>) -> bool {
    forall|i: int| 0 <= i < s.len() ==> !is_ascii_capital(#[trigger] s[i])
}

/// Calls `str::to_lowercase`, which gives the lowercase equivalent of a
/// text. The result is named, and one thing is said of it: it holds none
/// of the letters `A` to `Z`, each of which has a lowercase mapping that
/// no mapping gives back.
#[verifier::external_body]
pub(crate) fn to_lowercase(s: &str) -> (out: String)
    ensures
        out@ == lowercase_of(s@),
        no_ascii_capital(out@),
{
    s.to_lowercase()
}

/// The texts of a list of strings, in order.
pub open spec fn texts(v: Seq<String>) -> Seq<Seq<char>> {
    v.map_values(|s: String| s@)
}

/// The characters of `s`, in order.
pub fn chars_of(s: &str) -> (out: Vec<char>)
    ensures
        out@ == s@,
{
    let mut out: Vec<char> = Vec::new();
    for c in iter: s.chars()
        invariant
            iter.seq() == s@,
            out@ == s@.take(iter.index()),
    {
        out.push(c);
    }
    out
}

/// The string made of the characters of `v`, in order.
pub fn string_of(v: &Vec<char>) -> (out: String)
    ensures
        out@ == v@,
{
    let mut out = String::new();
    let mut i: usize = 0;
    while i < v.len()
        invariant
            i <= v.len(),
            out@ == v@.take(i as int),
        decreases v.len() - i,
    {
        out.push(v[i]);
        i += 1;
    }
    out
}

/// Appends the characters of `src[from..to]` to `dst`.
pub fn push_range(dst: &mut Vec<char>, src: &Vec<char>, from: usize, to: usize)
    requires
        from <= to <= src.len(),
    ensures
        final(dst)@ == old(dst)@ + src@.subrange(from as int, to as int),
{
    let mut i: usize = from;
    while i < to
        invariant
            from <= i <= to <= src.len(),
            dst@ == old(dst)@ + src@.subrange(from as int, i as int),
        decreases to - i,
    {
        dst.push(src[i]);
        i += 1;
    }
}

/// Appends the characters of `s` to `dst`.
pub fn push_text(dst: &mut Vec<char>, s: &str)
    ensures
        final(dst)@ == old(dst)@ + s@,
{
    let src = chars_of(s);
    push_range(dst, &src, 0, src.len());
    assert(src@.subrange(0, src.len() as int) == src@);
}

/// Whether two character vectors hold the same text.
pub fn same_chars(a: &Vec<char>, b: &Vec<char>) -> (eq: bool)
    ensures
        eq == (a@ == b@),
{
    if a.len() != b.len() {
        return false;
    }
    let mut i: usize = 0;
    while i < a.len()
        invariant
            a.len() == b.len(),
            i <= a.len(),
            a@.take(i as int) == b@.take(i as int),
        decreases a.len() - i,
    {
        if a[i] != b[i] {
            return false;
        }
        assert(a@.take(i + 1) == a@.take(i as int).push(a@[i as int]));
        assert(b@.take(i + 1) == b@.take(i as int).push(b@[i as int]));
        i += 1;
    }
    assert(a@.take(a.len() as int) == a@);
    assert(b@.take(b.len() as int) == b@);
    true
}

/// Whether two strings hold the same text.
pub fn same_text(a: &str, b: &str) -> (eq: bool)
    ensures
        eq == (a@ == b@),
{
    let x = chars_of(a);
    let y = chars_of(b);
    same_chars(&x, &y)
}

/// An ASCII letter, `a` to `z` or `A` to `Z`.
pub open spec fn is_ascii_letter(c: char) -> bool {
    ('a' <= c && c <= 'z') || ('A' <= c && c <= 'Z')
}

/// Decides [`is_ascii_letter`].
pub fn ascii_letter(c: char) -> (b: bool)
    ensures
        b == is_ascii_letter(c),
{
    ('a' <= c && c <= 'z') || ('A' <= c && c <= 'Z')
}

/// A character with the Unicode `White_Space` property.
pub open spec fn is_space(c: char) -> bool {
    ('\u{9}' <= c && c <= '\u{d}') || c == ' ' || c == '\u{85}' || c == '\u{a0}' || c
        == '\u{1680}' || ('\u{2000}' <= c && c <= '\u{200a}') || c == '\u{2028}' || c
        == '\u{2029}' || c == '\u{202f}' || c == '\u{205f}' || c == '\u{3000}'
}

/// Decides [`is_space`].
pub fn space(c: char) -> (b: bool)
    ensures
        b == is_space(c),
{
    ('\u{9}' <= c && c <= '\u{d}') || c == ' ' || c == '\u{85}' || c == '\u{a0}' || c
        == '\u{1680}' || ('\u{2000}' <= c && c <= '\u{200a}') || c == '\u{2028}' || c
        == '\u{2029}' || c == '\u{202f}' || c == '\u{205f}' || c == '\u{3000}'
}

/// Number of leading characters of `s` that satisfy `drop`.
pub open spec fn leading(s: Seq<char>, drop: spec_fn(char) -> bool) -> nat
    decreases s.len(),
{
    if s.len() > 0 && drop(s[0]) {
        1 + leading(s.drop_first(), drop)
    } else {
        0
    }
}

/// Number of trailing characters of `s` that satisfy `drop`.
pub open spec fn trailing(s: Seq<char>, drop: spec_fn(char) -> bool) -> nat
    decreases s.len(),
{
    if s.len() > 0 && drop(s.last()) {
        1 + trailing(s.drop_last(), drop)
    } else {
        0
    }
}

/// `s` without its longest prefix and, of what is left, its longest suffix
/// of characters that satisfy `drop`.
pub open spec fn trimmed(s: Seq<char>, drop: spec_fn(char) -> bool) -> Seq<char> {
    let rest = s.skip(leading(s, drop) as int);
    rest.take(rest.len() - trailing(rest, drop))
}

/// `leading` is the first index whose character is kept.
pub proof fn lemma_leading(s: Seq<char>, drop: spec_fn(char) -> bool)
    ensures
        leading(s, drop) <= s.len(),
        forall|i: int| 0 <= i < leading(s, drop) ==> drop(#[trigger] s[i]),
        leading(s, drop) < s.len() ==> !drop(s[leading(s, drop) as int]),
    decreases s.len(),
{
    if s.len() > 0 && drop(s[0]) {
        let t = s.drop_first();
        lemma_leading(t, drop);
        assert forall|i: int| 0 <= i < leading(s, drop) implies drop(#[trigger] s[i]) by {
            if i > 0 {
                assert(s[i] == t[i - 1]);
            }
        }
        if leading(s, drop) < s.len() {
            assert(s[leading(s, drop) as int] == t[leading(t, drop) as int]);
        }
    }
}

/// `trailing` counts back from the end to the last character that is kept.
pub proof fn lemma_trailing(s: Seq<char>, drop: spec_fn(char) -> bool)
    ensures
        trailing(s, drop) <= s.len(),
        forall|i: int| s.len() - trailing(s, drop) <= i < s.len() ==> drop(#[trigger] s[i]),
        trailing(s, drop) < s.len() ==> !drop(s[s.len() - trailing(s, drop) - 1]),
    decreases s.len(),
{
    if s.len() > 0 && drop(s.last()) {
        let t = s.drop_last();
        lemma_trailing(t, drop);
        assert forall|i: int| s.len() - trailing(s, drop) <= i < s.len() implies drop(
            #[trigger] s[i],
        ) by {
            if i < s.len() - 1 {
                assert(s[i] == t[i]);
            }
        }
        if trailing(s, drop) < s.len() {
            assert(s[s.len() - trailing(s, drop) - 1] == t[t.len() - trailing(t, drop) - 1]);
        }
    }
}

/// If the first `n` characters are dropped and the next one is kept (or
/// there is none), then `n` is `leading`.
pub proof fn lemma_leading_is(s: Seq<char>, drop: spec_fn(char) -> bool, n: int)
    requires
        0 <= n <= s.len(),
        forall|i: int| 0 <= i < n ==> drop(#[trigger] s[i]),
        n < s.len() ==> !drop(s[n]),
    ensures
        leading(s, drop) == n,
    decreases s.len(),
{
    if n > 0 {
        assert(drop(s[0]));
        let t = s.drop_first();
        assert forall|i: int| 0 <= i < n - 1 implies drop(#[trigger] t[i]) by {
            assert(t[i] == s[i + 1]);
        }
        lemma_leading_is(t, drop, n - 1);
    }
}

/// If the last `n` characters are dropped and the one before them is kept
/// (or there is none), then `n` is `trailing`.
pub proof fn lemma_trailing_is(s: Seq<char>, drop: spec_fn(char) -> bool, n: int)
    requires
        0 <= n <= s.len(),
        forall|i: int| s.len() - n <= i < s.len() ==> drop(#[trigger] s[i]),
        n < s.len() ==> !drop(s[s.len() - n - 1]),
    ensures
        trailing(s, drop) == n,
    decreases s.len(),
{
    if n > 0 {
        assert(drop(s[s.len() - 1]));
        let t = s.drop_last();
        assert forall|i: int| t.len() - (n - 1) <= i < t.len() implies drop(#[trigger] t[i]) by {
            assert(t[i] == s[i]);
        }
        lemma_trailing_is(t, drop, n - 1);
    }
}

/// Whether `pat` stands in `s` at index `at`.
pub open spec fn occurs_at(s: Seq<char>, pat: Seq<char>, at: int) -> bool {
    0 <= at && at + pat.len() <= s.len() && s.subrange(at, at + pat.len()) == pat
}

/// The least index at or after `from` at which `pat` stands in `s`, or
/// `s.len()` if there is none.
pub open spec fn first_match(s: Seq<char>, pat: Seq<char>, from: int) -> int
    decreases s.len() - from,
{
    if from < 0 || from >= s.len() || from + pat.len() > s.len() {
        s.len() as int
    } else if occurs_at(s, pat, from) {
        from
    } else {
        first_match(s, pat, from + 1)
    }
}

/// `first_match` is an occurrence, and the first one.
pub proof fn lemma_first_match(s: Seq<char>, pat: Seq<char>, from: int)
    requires
        0 <= from,
    ensures
        from <= first_match(s, pat, from) || first_match(s, pat, from) == s.len(),
        first_match(s, pat, from) <= s.len(),
        first_match(s, pat, from) < s.len() ==> occurs_at(s, pat, first_match(s, pat, from)),
        first_match(s, pat, from) == s.len() && pat.len() > 0 ==> !occurs_at(
            s,
            pat,
            s.len() as int,
        ),
        forall|i: int| from <= i < first_match(s, pat, from) ==> !occurs_at(s, pat, i),
    decreases s.len() - from,
{
    if from >= s.len() || from + pat.len() > s.len() {
    } else if occurs_at(s, pat, from) {
    } else {
        lemma_first_match(s, pat, from + 1);
    }
}

/// A pattern of one character stands where that character stands.
pub proof fn lemma_single_char_match(s: Seq<char>, c: char, i: int)
    requires
        0 <= i < s.len(),
    ensures
        occurs_at(s, seq![c], i) <==> s[i] == c,
{
    if s[i] == c {
        assert(s.subrange(i, i + 1) =~= seq![c]);
    } else {
        assert(s.subrange(i, i + 1)[0] == s[i]);
    }
}

/// An occurrence before which there is none is the first match.
pub proof fn lemma_first_match_is(s: Seq<char>, pat: Seq<char>, from: int, at: int)
    requires
        0 <= from <= at < s.len(),
        occurs_at(s, pat, at),
        forall|i: int| from <= i < at ==> !occurs_at(s, pat, i),
    ensures
        first_match(s, pat, from) == at,
    decreases at - from,
{
    if from < at {
        lemma_first_match_is(s, pat, from + 1, at);
    }
}

/// Where `pat` stands nowhere in `s`, there is no first match.
pub proof fn lemma_no_match(s: Seq<char>, pat: Seq<char>)
    requires
        forall|i: int| 0 <= i < s.len() ==> !occurs_at(s, pat, i),
    ensures
        first_match(s, pat, 0) == s.len(),
{
    lemma_first_match(s, pat, 0);
}

/// Whether `pat` stands in `s` at index `at`.
pub fn matches_at(s: &Vec<char>, pat: &Vec<char>, at: usize) -> (b: bool)
    ensures
        b == occurs_at(s@, pat@, at as int),
{
    if pat.len() > s.len() || at > s.len() - pat.len() {
        return false;
    }
    let mut j: usize = 0;
    while j < pat.len()
        invariant
            at + pat.len() <= s.len(),
            j <= pat.len(),
            s@.subrange(at as int, at + j) == pat@.take(j as int),
        decreases pat.len() - j,
    {
        if s[at + j] != pat[j] {
            assert(s@.subrange(at as int, at + pat.len())[j as int] != pat@[j as int]);
            return false;
        }
        assert(s@.subrange(at as int, at + j + 1) == s@.subrange(at as int, at + j).push(
            s@[at + j],
        ));
        assert(pat@.take(j + 1) == pat@.take(j as int).push(pat@[j as int]));
        j += 1;
    }
    assert(pat@.take(pat.len() as int) == pat@);
    true
}

/// The first index at or after `from` at which `pat` stands in `s`.
pub fn find_from(s: &Vec<char>, pat: &Vec<char>, from: usize) -> (found: Option<usize>)
    ensures
        match found {
            Some(i) => i < s.len() && i as int == first_match(s@, pat@, from as int),
            None => first_match(s@, pat@, from as int) == s.len(),
        },
{
    let mut i: usize = from;
    while i < s.len()
        invariant
            from <= i,
            i <= s.len() ==> first_match(s@, pat@, from as int) == first_match(
                s@,
                pat@,
                i as int,
            ),
            i > s.len() ==> first_match(s@, pat@, from as int) == s.len(),
        decreases s.len() - i,
    {
        if matches_at(s, pat, i) {
            return Some(i);
        }
        i += 1;
    }
    None
}

/// The characters that a trim removes: white space, or everything but
/// ASCII letters.
pub open spec fn dropped(spaces: bool) -> spec_fn(char) -> bool {
    |c: char|
        if spaces {
            is_space(c)
        } else {
            !is_ascii_letter(c)
        }
}

/// Decides `dropped(spaces)` for one character.
fn is_dropped(c: char, spaces: bool) -> (b: bool)
    ensures
        b == dropped(spaces)(c),
{
    if spaces {
        space(c)
    } else {
        !ascii_letter(c)
    }
}

/// The bounds of `v[from..to]` after trimming: the part of that range which
/// is left once leading and trailing dropped characters are gone.
pub fn trim_bounds(v: &Vec<char>, from: usize, to: usize, spaces: bool) -> (r: (usize, usize))
    requires
        from <= to <= v.len(),
    ensures
        from <= r.0 <= r.1 <= to,
        v@.subrange(r.0 as int, r.1 as int) == trimmed(
            v@.subrange(from as int, to as int),
            dropped(spaces),
        ),
{
    let ghost s = v@.subrange(from as int, to as int);
    let ghost drop = dropped(spaces);
    let mut a: usize = from;
    while a < to && is_dropped(v[a], spaces)
        invariant
            from <= a <= to <= v.len(),
            drop == dropped(spaces),
            s == v@.subrange(from as int, to as int),
            forall|i: int| 0 <= i < a - from ==> drop(#[trigger] s[i]),
        decreases to - a,
    {
        a += 1;
    }
    proof {
        lemma_leading_is(s, drop, a - from);
    }
    let ghost rest = s.skip(a - from);
    let mut b: usize = to;
    while b > a && is_dropped(v[b - 1], spaces)
        invariant
            a <= b <= to <= v.len(),
            from <= a,
            drop == dropped(spaces),
            s == v@.subrange(from as int, to as int),
            rest == s.skip(a - from),
            forall|i: int| b - a <= i < rest.len() ==> drop(#[trigger] rest[i]),
        decreases b,
    {
        b -= 1;
    }
    proof {
        if b > a {
            assert(rest[b - a - 1] == v@[b - 1]);
        }
        lemma_trailing_is(rest, drop, to - b);
        assert(v@.subrange(a as int, b as int) == rest.take(rest.len() - (to - b)));
    }
    (a, b)
}

/// `s` with every occurrence of `pat` taken out, found from left to right
/// and never overlapping. An empty `pat` takes nothing out.
pub open spec fn without(s: Seq<char>, pat: Seq<char>) -> Seq<char>
    decreases s.len(),
{
    if pat.len() == 0 || s.len() < pat.len() {
        s
    } else if occurs_at(s, pat, 0) {
        without(s.skip(pat.len() as int), pat)
    } else {
        seq![s[0]] + without(s.drop_first(), pat)
    }
}

/// Taking a pattern out of a text brings no ASCII capital into it.
pub proof fn lemma_without_no_capital(s: Seq<char>, pat: Seq<char>)
    requires
        no_ascii_capital(s),
    ensures
        no_ascii_capital(without(s, pat)),
    decreases s.len(),
{
    if pat.len() == 0 || s.len() < pat.len() {
    } else if occurs_at(s, pat, 0) {
        let rest = s.skip(pat.len() as int);
        assert forall|i: int| 0 <= i < rest.len() implies !is_ascii_capital(#[trigger] rest[i]) by {
            assert(rest[i] == s[i + pat.len()]);
        }
        lemma_without_no_capital(rest, pat);
    } else {
        let rest = s.drop_first();
        assert forall|i: int| 0 <= i < rest.len() implies !is_ascii_capital(#[trigger] rest[i]) by {
            assert(rest[i] == s[i + 1]);
        }
        lemma_without_no_capital(rest, pat);
        let out = seq![s[0]] + without(rest, pat);
        assert forall|i: int| 0 <= i < out.len() implies !is_ascii_capital(#[trigger] out[i]) by {
            if i > 0 {
                assert(out[i] == without(rest, pat)[i - 1]);
            }
        }
    }
}

/// Computes [`without`].
pub fn remove_all(s: &Vec<char>, pat: &Vec<char>) -> (out: Vec<char>)
    ensures
        out@ == without(s@, pat@),
{
    let mut out: Vec<char> = Vec::new();
    if pat.len() == 0 {
        push_range(&mut out, s, 0, s.len());
        assert(s@.subrange(0, s.len() as int) == s@);
        return out;
    }
    let mut i: usize = 0;
    proof {
        assert(s@.skip(0) == s@);
        assert(out@ + without(s@, pat@) == without(s@, pat@));
    }
    while i < s.len()
        invariant
            i <= s.len(),
            pat.len() > 0,
            out@ + without(s@.skip(i as int), pat@) == without(s@, pat@),
        decreases s.len() - i,
    {
        let ghost rest = s@.skip(i as int);
        if matches_at(s, pat, i) {
            proof {
                assert(rest.subrange(0, pat.len() as int) == s@.subrange(
                    i as int,
                    i + pat.len(),
                ));
                assert(rest.skip(pat.len() as int) == s@.skip(i + pat.len()));
            }
            i += pat.len();
        } else {
            proof {
                if rest.len() >= pat.len() {
                    assert(rest.subrange(0, pat.len() as int) == s@.subrange(
                        i as int,
                        i + pat.len(),
                    ));
                    assert(rest.drop_first() == s@.skip(i + 1));
                    assert(out@.push(s@[i as int]) + without(s@.skip(i + 1), pat@) == out@ + (
                    seq![rest[0]] + without(rest.drop_first(), pat@)));
                }
            }
            if s.len() - i < pat.len() {
                push_range(&mut out, s, i, s.len());
                proof {
                    assert(s@.subrange(i as int, s.len() as int) == rest);
                    assert(s@.skip(s.len() as int) == Seq::<char>::empty());
                }
                i = s.len();
            } else {
                out.push(s[i]);
                i += 1;
            }
        }
    }
    proof {
        assert(s@.skip(s.len() as int) == Seq::<char>::empty());
        assert(out@ + Seq::<char>::empty() == out@);
    }
    out
}

/// An ASCII digit.
pub open spec fn is_digit(c: char) -> bool {
    '0' <= c && c <= '9'
}

/// The value of an ASCII digit.
pub open spec fn digit_value(c: char) -> nat {
    (c as int - '0' as int) as nat
}

/// The ASCII digit of a value below ten.
pub open spec fn digit_char(d: nat) -> char {
    ('0' as int + d) as char
}

/// Whether `s` holds ASCII digits only.
pub open spec fn all_digits(s: Seq<char>) -> bool {
    forall|i: int| 0 <= i < s.len() ==> is_digit(#[trigger] s[i])
}

/// The number that a text of digits writes in base ten.
pub open spec fn number_of(s: Seq<char>) -> nat
    decreases s.len(),
{
    if s.len() == 0 {
        0
    } else {
        10 * number_of(s.drop_last()) + digit_value(s.last())
    }
}

/// The unsigned number that a text writes: an optional `+`, then one or
/// more ASCII digits and nothing else, for a value that fits in 64 bits.
pub open spec fn unsigned_of(s: Seq<char>) -> Option<u64> {
    let digits = if s.len() > 0 && s[0] == '+' {
        s.skip(1)
    } else {
        s
    };
    if digits.len() > 0 && all_digits(digits) && number_of(digits) <= u64::MAX {
        Some(number_of(digits) as u64)
    } else {
        None
    }
}

/// A number written in base ten, without leading zeros.
pub open spec fn decimal(n: nat) -> Seq<char>
    decreases n,
{
    if n < 10 {
        seq![digit_char(n)]
    } else {
        decimal(n / 10).push(digit_char(n % 10))
    }
}

proof fn lemma_number_grows(s: Seq<char>, i: int)
    requires
        0 <= i <= s.len(),
    ensures
        number_of(s.take(i)) <= number_of(s),
    decreases s.len() - i,
{
    if i < s.len() {
        lemma_number_grows(s, i + 1);
        assert(s.take(i + 1).drop_last() =~= s.take(i));
    } else {
        assert(s.take(i) =~= s);
    }
}

/// Reads an unsigned number as [`unsigned_of`] defines it.
pub fn parse_unsigned(s: &str) -> (out: Option<u64>)
    ensures
        out == unsigned_of(s@),
{
    let v = chars_of(s);
    let start: usize = if v.len() > 0 && v[0] == '+' {
        1
    } else {
        0
    };
    let ghost digits = v@.skip(start as int);
    assert(v@.skip(0) =~= v@);
    if start == v.len() {
        return None;
    }
    let mut acc: u64 = 0;
    let mut i: usize = start;
    assert(digits.take(0) =~= Seq::<char>::empty());
    while i < v.len()
        invariant
            start <= i <= v.len(),
            v@ == s@,
            start == (if v@.len() > 0 && v@[0] == '+' {
                1int
            } else {
                0int
            }),
            start < v.len(),
            digits == v@.skip(start as int),
            start == 0 ==> digits == v@,
            all_digits(digits.take(i - start)),
            acc == number_of(digits.take(i - start)),
        decreases v.len() - i,
    {
        let c = v[i];
        let ghost k = i - start;
        proof {
            assert(digits[k] == c);
            assert(digits.take(k + 1).drop_last() =~= digits.take(k));
            assert(digits.take(k + 1).last() == c);
        }
        if !('0' <= c && c <= '9') {
            return None;
        }
        let d: u64 = (c as u32 - '0' as u32) as u64;
        assert(d == digit_value(c));
        let next = match acc.checked_mul(10) {
            Some(tenfold) => tenfold.checked_add(d),
            None => None,
        };
        match next {
            Some(n) => {
                acc = n;
            },
            None => {
                proof {
                    assert(number_of(digits.take(k + 1)) > u64::MAX);
                    lemma_number_grows(digits, k + 1);
                }
                return None;
            },
        }
        proof {
            assert forall|j: int| 0 <= j < k + 1 implies is_digit(
                #[trigger] digits.take(k + 1)[j],
            ) by {
                if j < k {
                    assert(digits.take(k + 1)[j] == digits.take(k)[j]);
                }
            }
        }
        i += 1;
    }
    assert(digits.take(v.len() - start) =~= digits);
    Some(acc)
}

/// The ASCII digit of a value below ten.
fn digit(d: u64) -> (c: char)
    requires
        d < 10,
    ensures
        c == digit_char(d as nat),
{
    if d == 0 {
        '0'
    } else if d == 1 {
        '1'
    } else if d == 2 {
        '2'
    } else if d == 3 {
        '3'
    } else if d == 4 {
        '4'
    } else if d == 5 {
        '5'
    } else if d == 6 {
        '6'
    } else if d == 7 {
        '7'
    } else if d == 8 {
        '8'
    } else {
        '9'
    }
}

/// Appends `n`, written in base ten, to `out`.
pub fn push_decimal(out: &mut Vec<char>, n: u64)
    ensures
        final(out)@ == old(out)@ + decimal(n as nat),
    decreases n,
{
    if n >= 10 {
        push_decimal(out, n / 10);
    }
    out.push(digit(n % 10));
    proof {
        if n >= 10 {
            assert(out@ =~= old(out)@ + decimal((n / 10) as nat).push(digit_char((n % 10) as nat)));
        } else {
            assert(out@ =~= old(out)@ + seq![digit_char(n as nat)]);
        }
    }
}

} // verus!
