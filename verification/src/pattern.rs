//! Regular expressions (the `regex` crate) and the spans of text they match.
//!
//! Matches come back as byte offsets; `char_spans` turns them into
//! character indices of the text.
use vstd::prelude::*;
use crate::text::{byte_len, byte_offsets, chars_of, lemma_byte_len_monotone};

verus! {

/// `regex::Regex`, a compiled regular expression.
#[verifier::external_type_specification]
#[verifier::external_body]
pub struct ExRegex(regex::Regex);

/// A regular expression together with the pattern it was compiled from.
/// Only `compile_pattern` makes one, so the two always agree.
pub struct CompiledPattern {
    pattern: String,
    regex: regex::Regex,
}

impl View for CompiledPattern {
    type V = Seq<char>;

    /// The pattern the expression was compiled from.
    closed spec fn view(&self) -> Seq<char> {
        self.pattern@
    }
}

/// Whether `Regex::new` accepts `pattern`: valid syntax whose compiled form
/// stays within the crate's default size limit.
pub uninterp spec fn regex_compiles(pattern: Seq<char>) -> bool;

/// The byte spans, `(start, end)`, of the successive non-overlapping
/// matches that `Regex::find_iter` yields for the expression compiled from
/// `pattern` in `haystack`.
pub uninterp spec fn pattern_spans(pattern: Seq<char>, haystack: Seq<char>) -> Seq<(usize, usize)>;

/// `Regex::new(pattern)`, kept with its pattern when it compiles: `Some`
/// exactly when `regex_compiles(pattern)`.
#[verifier::external_body]
pub(crate) fn compile_pattern(pattern: &str) -> (r: Option<CompiledPattern>)
    ensures
        r.is_some() == regex_compiles(pattern@),
        r matches Some(c) ==> c@ == pattern@,
{
    match regex::Regex::new(pattern) {
        Ok(regex) => Some(CompiledPattern { pattern: pattern.to_owned(), regex }),
        Err(_) => None,
    }
}

/// Byte offset `b` of `t` lies between two characters (or at either end).
pub open spec fn on_char_boundary(t: Seq<char>, b: int) -> bool {
    exists|k: int| 0 <= k <= t.len() && byte_len(t.take(k)) == b
}

/// Byte spans of `t` as `find_iter` hands them out: each starts no later
/// than it ends, within `t` and on character boundaries, and each ends no
/// later than the next one starts.
pub open spec fn well_placed_spans(t: Seq<char>, spans: Seq<(usize, usize)>) -> bool {
    &&& forall|i: int|
        0 <= i < spans.len() ==> {
            &&& (#[trigger] spans[i]).0 <= spans[i].1 <= byte_len(t)
            &&& on_char_boundary(t, spans[i].0 as int)
            &&& on_char_boundary(t, spans[i].1 as int)
        }
    &&& forall|i: int, j: int| 0 <= i < j < spans.len() ==> (#[trigger] spans[i]).1 <= (#[trigger] spans[j]).0
}

/// The matches of a compiled pattern in `haystack` (`Regex::find_iter`,
/// each match's `start()` and `end()`): the spans `pattern_spans` names,
/// which are, as the crate documents of every match, well placed in the
/// haystack (start no later than end, both on character boundaries, in
/// order without overlap).
#[verifier::external_body]
pub(crate) fn find_spans(compiled: &CompiledPattern, haystack: &str) -> (r: Vec<(usize, usize)>)
    ensures
        r@ == pattern_spans(compiled@, haystack@),
        well_placed_spans(haystack@, r@),
{
    let mut spans: Vec<(usize, usize)> = Vec::new();
    for m in compiled.regex.find_iter(haystack) {
        spans.push((m.start(), m.end()));
    }
    spans
}

/// The character index at byte offset `b` of `t` (meaningful on a
/// character boundary, where it is unique).
pub open spec fn char_at_byte(t: Seq<char>, b: int) -> int {
    choose|k: int| 0 <= k <= t.len() && byte_len(t.take(k)) == b
}

/// Byte spans of `t` as character-index spans.
pub open spec fn as_char_spans(t: Seq<char>, spans: Seq<(usize, usize)>) -> Seq<(int, int)> {
    spans.map_values(|s: (usize, usize)| (char_at_byte(t, s.0 as int), char_at_byte(t, s.1 as int)))
}

/// Character-index spans of `t`: in order, without overlap, within `t`.
pub open spec fn ordered_spans(n: int, spans: Seq<(int, int)>) -> bool {
    &&& forall|i: int| 0 <= i < spans.len() ==> 0 <= (#[trigger] spans[i]).0 <= spans[i].1 <= n
    &&& forall|i: int, j: int| 0 <= i < j < spans.len() ==> (#[trigger] spans[i]).1 <= (#[trigger] spans[j]).0
}

/// Well-placed byte spans are ordered spans of characters.
pub proof fn lemma_char_spans_ordered(t: Seq<char>, spans: Seq<(usize, usize)>)
    requires
        well_placed_spans(t, spans),
    ensures
        ordered_spans(t.len() as int, as_char_spans(t, spans)),
{
    let cs = as_char_spans(t, spans);
    let n = t.len() as int;
    assert forall|j: int| 0 <= j < cs.len() implies 0 <= (#[trigger] cs[j]).0 <= cs[j].1 <= n by {
        let s = spans[j];
        let ka = char_at_byte(t, s.0 as int);
        let kb = char_at_byte(t, s.1 as int);
        assert(on_char_boundary(t, s.0 as int));
        assert(on_char_boundary(t, s.1 as int));
        assert(byte_len(t.take(ka)) == s.0);
        assert(byte_len(t.take(kb)) == s.1);
        if kb < ka {
            lemma_byte_len_monotone(t, kb, ka);
        }
    }
    assert forall|j: int, l: int| 0 <= j < l < cs.len() implies (#[trigger] cs[j]).1 <= (
    #[trigger] cs[l]).0 by {
        let e = char_at_byte(t, spans[j].1 as int);
        let s = char_at_byte(t, spans[l].0 as int);
        assert(spans[j].1 <= spans[l].0);
        assert(on_char_boundary(t, spans[j].1 as int));
        assert(on_char_boundary(t, spans[l].0 as int));
        assert(byte_len(t.take(e)) == spans[j].1);
        assert(byte_len(t.take(s)) == spans[l].0);
        if s < e {
            lemma_byte_len_monotone(t, s, e);
        }
    }
}

/// The character index at byte offset `b`, found by search in the offsets
/// of `t`.
fn char_index_of(offsets: &Vec<usize>, t: Ghost<Seq<char>>, b: usize) -> (k: usize)
    requires
        offsets@.len() == t@.len() + 1,
        forall|i: int| 0 <= i <= t@.len() ==> #[trigger] offsets@[i] == byte_len(t@.take(i)),
        on_char_boundary(t@, b as int),
    ensures
        k == char_at_byte(t@, b as int),
        0 <= k <= t@.len(),
        byte_len(t@.take(k as int)) == b,
{
    let ghost w = choose|k: int| 0 <= k <= t@.len() && byte_len(t@.take(k)) == b;
    let n = offsets.len();
    let mut k: usize = 0;
    while offsets[k] != b
        invariant
            n == offsets@.len() == t@.len() + 1,
            forall|i: int| 0 <= i <= t@.len() ==> #[trigger] offsets@[i] == byte_len(t@.take(i)),
            0 <= w <= t@.len(),
            byte_len(t@.take(w)) == b,
            k <= w,
        decreases w - k,
    {
        proof {
            if k == w {
                assert(offsets@[w] == b);
            }
        }
        k = k + 1;
    }
    proof {
        assert(offsets@[k as int] == byte_len(t@.take(k as int)));
        let c = char_at_byte(t@, b as int);
        assert(0 <= c <= t@.len() && byte_len(t@.take(c)) == b);
        if c < k {
            lemma_byte_len_monotone(t@, c, k as int);
        } else if c > k {
            lemma_byte_len_monotone(t@, k as int, c);
        }
    }
    k
}

/// The byte spans of `text` turned into character indices: the span at
/// bytes `(a, b)` becomes the characters that start at byte `a` up to the
/// one at byte `b`. Order and disjointness carry over.
pub fn char_spans(text: &str, spans: &[(usize, usize)]) -> (r: Vec<(usize, usize)>)
    requires
        well_placed_spans(text@, spans@),
    ensures
        r@.len() == spans@.len(),
        forall|i: int|
            0 <= i < r@.len() ==> (#[trigger] r@[i]).0 == as_char_spans(text@, spans@)[i].0
                && r@[i].1 == as_char_spans(text@, spans@)[i].1,
        ordered_spans(text@.len() as int, as_char_spans(text@, spans@)),
{
    let t = chars_of(text);
    let bytes = text.as_bytes();
    let total = bytes.len();
    assert(total == byte_len(t@));
    let offsets = byte_offsets(&t);
    let ghost cs = as_char_spans(text@, spans@);
    let mut r: Vec<(usize, usize)> = Vec::new();
    let mut i: usize = 0;
    while i < spans.len()
        invariant
            t@ == text@,
            offsets@.len() == t@.len() + 1,
            forall|j: int| 0 <= j <= t@.len() ==> #[trigger] offsets@[j] == byte_len(t@.take(j)),
            well_placed_spans(text@, spans@),
            cs == as_char_spans(text@, spans@),
            i <= spans@.len(),
            r@.len() == i,
            forall|j: int| 0 <= j < i ==> (#[trigger] r@[j]).0 == cs[j].0 && r@[j].1 == cs[j].1,
        decreases spans@.len() - i,
    {
        let (a, b) = spans[i];
        assert(spans@[i as int] == (a, b));
        let ka = char_index_of(&offsets, Ghost(t@), a);
        let kb = char_index_of(&offsets, Ghost(t@), b);
        r.push((ka, kb));
        i = i + 1;
    }
    proof {
        let n = text@.len() as int;
        assert forall|j: int| 0 <= j < cs.len() implies 0 <= (#[trigger] cs[j]).0 <= cs[j].1 <= n by {
            let s = spans@[j];
            let ka = char_at_byte(text@, s.0 as int);
            let kb = char_at_byte(text@, s.1 as int);
            assert(byte_len(text@.take(ka)) == s.0);
            assert(byte_len(text@.take(kb)) == s.1);
            if kb < ka {
                lemma_byte_len_monotone(text@, kb, ka);
            }
        }
        assert forall|j: int, l: int| 0 <= j < l < cs.len() implies (#[trigger] cs[j]).1 <= (
        #[trigger] cs[l]).0 by {
            let e = char_at_byte(text@, spans@[j].1 as int);
            let s = char_at_byte(text@, spans@[l].0 as int);
            assert(spans@[j].1 <= spans@[l].0);
            assert(byte_len(text@.take(e)) == spans@[j].1);
            assert(byte_len(text@.take(s)) == spans@[l].0);
            if s < e {
                lemma_byte_len_monotone(text@, s, e);
            }
        }
    }
    r
}

} // verus!
