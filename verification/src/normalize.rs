//! Normalisation of locality strings and sanitising of narrative fields.

use crate::text::{
    chars_of, dropped, is_ascii_letter, leading, lemma_leading, lemma_trailing, lowercase_of,
    lemma_without_no_capital, no_ascii_capital, remove_all, string_of, to_lowercase, trailing,
    trim_bounds, trimmed, without,
};
use vstd::prelude::*;

verus! {

/// The word that is taken out of every locality string.
pub open spec fn province_word() -> Seq<char> {
    seq!['p', 'r', 'o', 'v', 'i', 'n', 'c', 'e']
}

/// `s` without the characters before its first and after its last ASCII
/// letter.
pub open spec fn letter_bounded(s: Seq<char>) -> Seq<char> {
    trimmed(s, dropped(false))
}

/// The normal form of a locality string: cut down to what lies between its
/// first and last ASCII letter, put into lower case, and freed from every
/// occurrence of the word `province`.
pub open spec fn normalized(s: Seq<char>) -> Seq<char> {
    without(lowercase_of(letter_bounded(s)), province_word())
}

/// What is left of a text between its first and last ASCII letter is empty
/// or begins and ends with an ASCII letter.
pub proof fn lemma_letter_bounded(s: Seq<char>)
    ensures
        letter_bounded(s).len() == 0 || (is_ascii_letter(letter_bounded(s)[0]) && is_ascii_letter(
            letter_bounded(s).last(),
        )),
{
    let drop = dropped(false);
    lemma_leading(s, drop);
    let rest = s.skip(leading(s, drop) as int);
    lemma_trailing(rest, drop);
    let kept = letter_bounded(s);
    if kept.len() > 0 {
        assert(kept[0] == s[leading(s, drop) as int]);
        assert(kept.last() == rest[rest.len() - trailing(rest, drop) - 1]);
    }
}

/// Cuts `s` down to what lies between its first and last ASCII letter.
pub fn trim_to_letters(s: &str) -> (out: String)
    ensures
        out@ == letter_bounded(s@),
{
    let v = chars_of(s);
    let (a, b) = trim_bounds(&v, 0, v.len(), false);
    let mut kept: Vec<char> = Vec::new();
    crate::text::push_range(&mut kept, &v, a, b);
    proof {
        assert(v@.subrange(0, v.len() as int) == v@);
    }
    string_of(&kept)
}

/// Takes every occurrence of the word `province` out of `lowered`, and
/// brings no ASCII capital into it.
pub fn strip_province(lowered: &str) -> (out: String)
    ensures
        out@ == without(lowered@, province_word()),
        no_ascii_capital(lowered@) ==> no_ascii_capital(out@),
{
    proof {
        if no_ascii_capital(lowered@) {
            lemma_without_no_capital(lowered@, province_word());
        }
    }
    let v = chars_of(lowered);
    let mut word: Vec<char> = Vec::new();
    word.push('p');
    word.push('r');
    word.push('o');
    word.push('v');
    word.push('i');
    word.push('n');
    word.push('c');
    word.push('e');
    assert(word@ == province_word());
    let cleaned = remove_all(&v, &word);
    string_of(&cleaned)
}

/// Brings a locality string into its normal form, which holds no ASCII
/// capital.
pub fn normalize(s: &str) -> (out: String)
    ensures
        out@ == normalized(s@),
        no_ascii_capital(out@),
{
    let bounded = trim_to_letters(s);
    let lowered = to_lowercase(bounded.as_str());
    strip_province(lowered.as_str())
}

/// The longest text, counted in characters, that is handed to the
/// sanitiser. The sanitiser keeps text in buffers whose capacity is rounded
/// up to a power of two in 32 bits, so that none can hold more than 2^31
/// bytes. A character takes at most four bytes, as it stands and where the
/// parser puts another in its place, so no buffer outgrows 2^28 bytes at
/// this limit: it leaves a factor of eight.
pub const SANITIZE_LIMIT: usize = 0x0400_0000;

/// Names the verdict of `ammonia::is_html` on a text: whether tokenising
/// it as HTML meets anything but plain characters.
pub uninterp spec fn html_detected(s: Seq<char>) -> bool;

/// Names what `ammonia::clean` makes of a text under its default policy.
pub uninterp spec fn sanitized(s: Seq<char>) -> Seq<char>;

/// Calls `ammonia::is_html`, which tokenises the whole input and reports
/// whether it held any HTML syntax. It copies the input into one buffer,
/// whose growth fails beyond 2^31 bytes; texts over [`SANITIZE_LIMIT`] are
/// left out.
#[verifier::external_body]
fn detect_html(s: &str) -> (found: bool)
    requires
        s@.len() <= SANITIZE_LIMIT,
    ensures
        found == html_detected(s@),
{
    ammonia::is_html(s)
}

/// Calls `ammonia::clean`, which parses the input as an HTML fragment and
/// writes it back with only the tags and attributes of its default policy.
/// It copies the input into one buffer and appends text to the nodes it
/// builds; the growth of either fails beyond 2^31 bytes. Texts over
/// [`SANITIZE_LIMIT`] are left out.
#[verifier::external_body]
fn sanitize(s: &str) -> (out: String)
    requires
        s@.len() <= SANITIZE_LIMIT,
    ensures
        out@ == sanitized(s@),
{
    ammonia::clean(s)
}

/// What a narrative field becomes before it is stored: sanitised where it
/// holds HTML, itself where it does not.
pub open spec fn cleaned(s: Seq<char>) -> Seq<char> {
    if html_detected(s) {
        sanitized(s)
    } else {
        s
    }
}

/// Sanitises a narrative field if, and only if, it holds HTML. The field
/// must not be longer than [`SANITIZE_LIMIT`]; [`checked_clean_html`]
/// takes any field.
pub fn clean_html(s: String) -> (out: String)
    requires
        s@.len() <= SANITIZE_LIMIT,
    ensures
        out@ == cleaned(s@),
{
    if detect_html(s.as_str()) {
        sanitize(s.as_str())
    } else {
        s
    }
}

/// Sanitises a narrative field of any length: there is no result for a
/// field longer than [`SANITIZE_LIMIT`], which is never stored as it came.
pub fn checked_clean_html(s: String) -> (out: Option<String>)
    ensures
        match out {
            Some(text) => s@.len() <= SANITIZE_LIMIT && text@ == cleaned(s@),
            None => s@.len() > SANITIZE_LIMIT,
        },
{
    if s.as_str().unicode_len() <= SANITIZE_LIMIT {
        Some(clean_html(s))
    } else {
        None
    }
}

} // verus!
