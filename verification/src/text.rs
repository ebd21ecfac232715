//! Character-level text helpers shared by the rest of the library.
//!
//! Text is handled as sequences of `char`; every function here is stated
//! over the `Seq<char>` view of its arguments.
use vstd::prelude::*;

verus! {

/// Appends one character to a `String` (`String::push`).
/// Trusted: the new contents are the old contents followed by `c`.
#[verifier::external_body]
pub(crate) fn push_char(s: &mut String, c: char)
    ensures
        final(s)@ == old(s)@.push(c),
{
    s.push(c);
}

/// The characters of `s`, in order.
pub fn chars_of(s: &str) -> (v: Vec<char>)
    ensures
        v@ == s@,
{
    let mut v: Vec<char> = Vec::new();
    for c in it: s.chars()
        invariant
            v@ == it.seq().take(it.index() as int),
    {
        v.push(c);
    }
    v
}

/// A `String` holding exactly the characters of `v`.
pub fn string_of(v: &[char]) -> (s: String)
    ensures
        s@ == v@,
{
    let mut s = String::new();
    let mut i: usize = 0;
    while i < v.len()
        invariant
            i <= v@.len(),
            s@ == v@.take(i as int),
        decreases v@.len() - i,
    {
        push_char(&mut s, v[i]);
        assert(v@.take(i + 1) == v@.take(i as int).push(v@[i as int]));
        i = i + 1;
    }
    assert(v@.take(v@.len() as int) == v@);
    s
}

/// A `String` holding the characters `v[lo..hi]`.
pub fn string_of_range(v: &Vec<char>, lo: usize, hi: usize) -> (s: String)
    requires
        lo <= hi <= v@.len(),
    ensures
        s@ == v@.subrange(lo as int, hi as int),
{
    let mut s = String::new();
    let mut i: usize = lo;
    while i < hi
        invariant
            lo <= i <= hi <= v@.len(),
            s@ == v@.subrange(lo as int, i as int),
        decreases hi - i,
    {
        push_char(&mut s, v[i]);
        assert(v@.subrange(lo as int, i + 1) == v@.subrange(lo as int, i as int).push(v@[i as int]));
        i = i + 1;
    }
    s
}

/// Appends `v[lo..hi]` to `out`.
pub fn push_range(out: &mut Vec<char>, v: &Vec<char>, lo: usize, hi: usize)
    requires
        lo <= hi <= v@.len(),
    ensures
        final(out)@ == old(out)@ + v@.subrange(lo as int, hi as int),
{
    let mut i: usize = lo;
    while i < hi
        invariant
            lo <= i <= hi <= v@.len(),
            out@ == old(out)@ + v@.subrange(lo as int, i as int),
        decreases hi - i,
    {
        out.push(v[i]);
        assert(v@.subrange(lo as int, i + 1) == v@.subrange(lo as int, i as int).push(v@[i as int]));
        i = i + 1;
    }
}

/// Appends all of `w` to `out`.
pub fn push_all(out: &mut Vec<char>, w: &[char])
    ensures
        final(out)@ == old(out)@ + w@,
{
    let mut i: usize = 0;
    while i < w.len()
        invariant
            i <= w@.len(),
            out@ == old(out)@ + w@.take(i as int),
        decreases w@.len() - i,
    {
        out.push(w[i]);
        assert(w@.take(i + 1) == w@.take(i as int).push(w@[i as int]));
        i = i + 1;
    }
    assert(w@.take(w@.len() as int) == w@);
}

/// Unicode `White_Space`, the property that `char::is_whitespace` and
/// `str::trim` go by.
pub open spec fn is_white(c: char) -> bool {
    ||| ('\u{9}' <= c && c <= '\u{d}')
    ||| c == ' '
    ||| c == '\u{85}'
    ||| c == '\u{a0}'
    ||| c == '\u{1680}'
    ||| ('\u{2000}' <= c && c <= '\u{200a}')
    ||| c == '\u{2028}'
    ||| c == '\u{2029}'
    ||| c == '\u{202f}'
    ||| c == '\u{205f}'
    ||| c == '\u{3000}'
}

/// Whether `c` is Unicode white space.
pub fn char_is_white(c: char) -> (r: bool)
    ensures
        r == is_white(c),
{
    ('\u{9}' <= c && c <= '\u{d}') || c == ' ' || c == '\u{85}' || c == '\u{a0}'
        || c == '\u{1680}' || ('\u{2000}' <= c && c <= '\u{200a}') || c == '\u{2028}'
        || c == '\u{2029}' || c == '\u{202f}' || c == '\u{205f}' || c == '\u{3000}'
}

/// ASCII white space as `u8::is_ascii_whitespace` has it: space, tab,
/// line feed, form feed and carriage return.
pub open spec fn is_ascii_white(c: char) -> bool {
    c == ' ' || c == '\t' || c == '\n' || c == '\u{c}' || c == '\r'
}

/// `s` without its leading white space.
pub open spec fn trim_start(s: Seq<char>) -> Seq<char>
    decreases s.len(),
{
    if s.len() > 0 && is_white(s[0]) {
        trim_start(s.drop_first())
    } else {
        s
    }
}

/// `s` without its trailing white space.
pub open spec fn trim_end(s: Seq<char>) -> Seq<char>
    decreases s.len(),
{
    if s.len() > 0 && is_white(s.last()) {
        trim_end(s.drop_last())
    } else {
        s
    }
}

/// `s` without leading and trailing white space, as `str::trim` gives it.
pub open spec fn trim(s: Seq<char>) -> Seq<char> {
    trim_end(trim_start(s))
}

proof fn lemma_trim_start_skip(s: Seq<char>, k: int)
    requires
        0 <= k <= s.len(),
        forall|j: int| 0 <= j < k ==> is_white(#[trigger] s[j]),
        k == s.len() || !is_white(s[k]),
    ensures
        trim_start(s) == s.skip(k),
    decreases k,
{
    if k == 0 {
        assert(s.skip(0) == s);
    } else {
        assert(is_white(s[0]));
        let t = s.drop_first();
        assert forall|j: int| 0 <= j < k - 1 implies is_white(#[trigger] t[j]) by {
            assert(t[j] == s[j + 1]);
        }
        if k - 1 < t.len() {
            assert(t[k - 1] == s[k]);
        }
        lemma_trim_start_skip(t, k - 1);
        assert(t.skip(k - 1) == s.skip(k));
    }
}

proof fn lemma_trim_end_take(s: Seq<char>, k: int)
    requires
        0 <= k <= s.len(),
        forall|j: int| k <= j < s.len() ==> is_white(#[trigger] s[j]),
        k == 0 || !is_white(s[k - 1]),
    ensures
        trim_end(s) == s.take(k),
    decreases s.len() - k,
{
    if k == s.len() {
        assert(s.take(k) == s);
    } else {
        assert(is_white(s.last()));
        let t = s.drop_last();
        assert forall|j: int| k <= j < t.len() implies is_white(#[trigger] t[j]) by {
            assert(t[j] == s[j]);
        }
        if k > 0 {
            assert(t[k - 1] == s[k - 1]);
        }
        lemma_trim_end_take(t, k);
        assert(t.take(k) == s.take(k));
    }
}

/// The bounds `(a, b)` with `v[a..b]` the trimmed form of `v[lo..hi]`.
pub fn trim_bounds(v: &Vec<char>, lo: usize, hi: usize) -> (r: (usize, usize))
    requires
        lo <= hi <= v@.len(),
    ensures
        lo <= r.0 <= r.1 <= hi,
        v@.subrange(r.0 as int, r.1 as int) == trim(v@.subrange(lo as int, hi as int)),
{
    let ghost s = v@.subrange(lo as int, hi as int);
    let mut a: usize = lo;
    while a < hi && char_is_white(v[a])
        invariant
            lo <= a <= hi <= v@.len(),
            forall|j: int| lo <= j < a ==> is_white(#[trigger] v@[j]),
        decreases hi - a,
    {
        a = a + 1;
    }
    proof {
        assert forall|j: int| 0 <= j < a - lo implies is_white(#[trigger] s[j]) by {
            assert(s[j] == v@[lo + j]);
        }
        if a < hi {
            assert(s[a - lo] == v@[a as int]);
        }
        lemma_trim_start_skip(s, a - lo);
    }
    let ghost t = s.skip(a - lo);
    assert(t == v@.subrange(a as int, hi as int));
    let mut b: usize = hi;
    while b > a && char_is_white(v[b - 1])
        invariant
            lo <= a <= b <= hi <= v@.len(),
            forall|j: int| b <= j < hi ==> is_white(#[trigger] v@[j]),
        decreases b - a,
    {
        b = b - 1;
    }
    proof {
        assert forall|j: int| b - a <= j < t.len() implies is_white(#[trigger] t[j]) by {
            assert(t[j] == v@[a + j]);
        }
        if b > a {
            assert(t[b - a - 1] == v@[b - 1]);
        }
        lemma_trim_end_take(t, b - a);
        assert(t.take(b - a) == v@.subrange(a as int, b as int));
    }
    (a, b)
}

/// The characters of `v` trimmed of white space at both ends.
pub fn trimmed(v: &Vec<char>) -> (r: Vec<char>)
    ensures
        r@ == trim(v@),
{
    let (a, b) = trim_bounds(v, 0, v.len());
    assert(v@.subrange(0, v@.len() as int) == v@);
    let mut out: Vec<char> = Vec::new();
    push_range(&mut out, v, a, b);
    assert(out@ == v@.subrange(a as int, b as int));
    out
}

/// `p` occurs in `s` at index `i`.
pub open spec fn occurs_at(s: Seq<char>, p: Seq<char>, i: int) -> bool {
    0 <= i && i + p.len() <= s.len() && s.subrange(i, i + p.len()) == p
}

/// The first index at or after `start` where `p` occurs in `s`, or -1.
pub open spec fn find_from(s: Seq<char>, p: Seq<char>, start: int) -> int
    decreases s.len() + 1 - start,
{
    if start < 0 || start + p.len() > s.len() {
        -1
    } else if occurs_at(s, p, start) {
        start
    } else {
        find_from(s, p, start + 1)
    }
}

/// `find_from` finds the first occurrence: nothing before it matches.
pub proof fn lemma_find_from(s: Seq<char>, p: Seq<char>, start: int)
    requires
        0 <= start,
    ensures
        find_from(s, p, start) == -1 || (start <= find_from(s, p, start) && occurs_at(
            s,
            p,
            find_from(s, p, start),
        )),
        forall|j: int|
            start <= j && (find_from(s, p, start) == -1 || j < find_from(s, p, start))
                ==> !occurs_at(s, p, j),
    decreases s.len() + 1 - start,
{
    if start + p.len() > s.len() {
    } else if occurs_at(s, p, start) {
    } else {
        lemma_find_from(s, p, start + 1);
    }
}

/// Whether `p` occurs in `v` at index `i`.
pub fn matches_at(v: &Vec<char>, p: &[char], i: usize) -> (r: bool)
    ensures
        r == occurs_at(v@, p@, i as int),
{
    if i > v.len() || p.len() > v.len() - i {
        return false;
    }
    let mut k: usize = 0;
    while k < p.len()
        invariant
            i + p@.len() <= v@.len(),
            v@.len() <= usize::MAX,
            k <= p@.len(),
            forall|j: int| 0 <= j < k ==> v@[i + j] == p@[j],
        decreases p@.len() - k,
    {
        assert(i + k < v@.len());
        if v[i + k] != p[k] {
            assert(v@.subrange(i as int, i + p@.len())[k as int] != p@[k as int]);
            return false;
        }
        k = k + 1;
    }
    assert(v@.subrange(i as int, i + p@.len()) =~= p@);
    true
}

/// The first index at or after `start` where `p` occurs in `v`.
pub fn find_seq_from(v: &Vec<char>, p: &[char], start: usize) -> (r: Option<usize>)
    ensures
        match r {
            Some(i) => find_from(v@, p@, start as int) == i as int,
            None => find_from(v@, p@, start as int) == -1,
        },
{
    if start > v.len() {
        return None;
    }
    let mut i: usize = start;
    while i < v.len() && p.len() <= v.len() - i
        invariant
            start <= i <= v@.len(),
            find_from(v@, p@, start as int) == find_from(v@, p@, i as int),
        decreases v@.len() - i,
    {
        if matches_at(v, p, i) {
            return Some(i);
        }
        i = i + 1;
    }
    if matches_at(v, p, i) {
        assert(find_from(v@, p@, i as int) == i as int);
        Some(i)
    } else {
        assert(find_from(v@, p@, i + 1) == -1);
        assert(find_from(v@, p@, i as int) == -1);
        None
    }
}

/// `p` occurs somewhere in `s`.
pub open spec fn contains_seq(s: Seq<char>, p: Seq<char>) -> bool {
    exists|i: int| occurs_at(s, p, i)
}

/// Whether `p` occurs somewhere in `v`.
pub fn contains_chars(v: &Vec<char>, p: &[char]) -> (r: bool)
    ensures
        r == contains_seq(v@, p@),
{
    let r = find_seq_from(v, p, 0);
    proof {
        lemma_find_from(v@, p@, 0);
    }
    r.is_some()
}

/// Whether `s` begins with `p`.
pub open spec fn starts_with(s: Seq<char>, p: Seq<char>) -> bool {
    p.len() <= s.len() && s.take(p.len() as int) == p
}

/// Whether `v` begins with `p`.
pub fn starts_with_chars(v: &Vec<char>, p: &[char]) -> (r: bool)
    ensures
        r == starts_with(v@, p@),
{
    let r = matches_at(v, p, 0);
    assert(v@.subrange(0, p@.len() as int) == v@.take(p@.len() as int));
    r
}

/// Whether `s` ends with `p`.
pub open spec fn ends_with(s: Seq<char>, p: Seq<char>) -> bool {
    p.len() <= s.len() && s.skip(s.len() - p.len()) == p
}

/// Whether `v` ends with `p`.
pub fn ends_with_chars(v: &Vec<char>, p: &[char]) -> (r: bool)
    ensures
        r == ends_with(v@, p@),
{
    if p.len() > v.len() {
        return false;
    }
    let r = matches_at(v, p, v.len() - p.len());
    assert(v@.subrange(v@.len() - p@.len(), v@.len() as int) == v@.skip(v@.len() - p@.len()));
    r
}


/// What `str::to_lowercase` makes of `s` (Unicode lower-case mapping).
pub uninterp spec fn lowercase(s: Seq<char>) -> Seq<char>;

/// What `str::to_uppercase` makes of `s` (Unicode upper-case mapping).
pub uninterp spec fn uppercase(s: Seq<char>) -> Seq<char>;

/// Whether every character of `s` is ASCII.
pub open spec fn is_ascii_text(s: Seq<char>) -> bool {
    forall|i: int| 0 <= i < s.len() ==> (s[i] as u32) < 128
}

/// `c` with an ASCII lower-case letter raised.
pub open spec fn ascii_upper(c: char) -> char {
    if 'a' <= c && c <= 'z' {
        ((c as u32) - 32) as char
    } else {
        c
    }
}

/// `s` with ASCII lower-case letters raised.
pub open spec fn ascii_uppercase(s: Seq<char>) -> Seq<char> {
    s.map_values(|c: char| ascii_upper(c))
}

/// The lower-case text `str::to_lowercase` makes of `s`: for ASCII text,
/// A to Z become a to z and every other character stays (no other ASCII
/// character has a lower-case mapping in Unicode); for other text, what
/// `lowercase` names.
pub open spec fn lowercased(s: Seq<char>) -> Seq<char> {
    if is_ascii_text(s) {
        ascii_lowercase(s)
    } else {
        lowercase(s)
    }
}

/// The upper-case text `str::to_uppercase` makes of `s`: for ASCII text,
/// a to z become A to Z and every other character stays; for other text,
/// what `uppercase` names.
pub open spec fn uppercased(s: Seq<char>) -> Seq<char> {
    if is_ascii_text(s) {
        ascii_uppercase(s)
    } else {
        uppercase(s)
    }
}

/// `str::to_lowercase`. Trusted: ASCII text has its letters A to Z
/// lowered and keeps every other character; other text becomes
/// `lowercase` of it.
#[verifier::external_body]
pub(crate) fn to_lowercase(s: &str) -> (r: String)
    ensures
        r@ == lowercased(s@),
        !is_ascii_text(s@) ==> r@ == lowercase(s@),
{
    s.to_lowercase()
}

/// `str::to_uppercase`. Trusted: ASCII text has its letters a to z raised
/// and keeps every other character; other text becomes `uppercase` of it.
#[verifier::external_body]
pub(crate) fn to_uppercase(s: &str) -> (r: String)
    ensures
        r@ == uppercased(s@),
        !is_ascii_text(s@) ==> r@ == uppercase(s@),
{
    s.to_uppercase()
}

/// The pieces joined by line breaks.
pub open spec fn join_lines(xs: Seq<Seq<char>>) -> Seq<char>
    decreases xs.len(),
{
    join_with(xs, seq!['\n'])
}

/// The pieces joined with `sep` between neighbours.
pub open spec fn join_with(xs: Seq<Seq<char>>, sep: Seq<char>) -> Seq<char>
    decreases xs.len(),
{
    if xs.len() == 0 {
        seq![]
    } else if xs.len() == 1 {
        xs[0]
    } else {
        join_with(xs.drop_last(), sep) + sep + xs.last()
    }
}

/// Appends one more piece to a joined text under construction.
pub fn push_joined(
    out: &mut Vec<char>,
    piece: &[char],
    sep: &[char],
    is_first: bool,
    Ghost(xs): Ghost<Seq<Seq<char>>>,
)
    requires
        old(out)@ == join_with(xs, sep@),
        is_first == (xs.len() == 0),
    ensures
        final(out)@ == join_with(xs.push(piece@), sep@),
{
    assert(xs.push(piece@).drop_last() == xs);
    if !is_first {
        push_all(out, sep);
    }
    push_all(out, piece);
    if is_first {
        assert(old(out)@ == Seq::<char>::empty());
        assert(final(out)@ == piece@);
    }
}

/// The trimmed form of the characters of `s`.
pub fn trimmed_str(s: &str) -> (r: Vec<char>)
    ensures
        r@ == trim(s@),
{
    let v = chars_of(s);
    trimmed(&v)
}

/// Whether `s` contains `p`.
pub fn str_contains(s: &str, p: &str) -> (r: bool)
    ensures
        r == contains_seq(s@, p@),
{
    let v = chars_of(s);
    let w = chars_of(p);
    contains_chars(&v, &w)
}


/// The number of bytes of the UTF-8 encoding of `s`.
pub open spec fn byte_len(s: Seq<char>) -> nat {
    vstd::utf8::encode_utf8(s).len()
}

/// UTF-8 encoding distributes over concatenation.
pub proof fn lemma_encode_utf8_concat(a: Seq<char>, b: Seq<char>)
    ensures
        vstd::utf8::encode_utf8(a + b) == vstd::utf8::encode_utf8(a) + vstd::utf8::encode_utf8(b),
    decreases a.len(),
{
    if a.len() == 0 {
        assert(a + b == b);
    } else {
        assert((a + b).drop_first() == a.drop_first() + b);
        lemma_encode_utf8_concat(a.drop_first(), b);
    }
}

/// The byte length of a prefix grows by the width of the next character.
pub proof fn lemma_byte_len_step(s: Seq<char>, i: int)
    requires
        0 <= i < s.len(),
    ensures
        byte_len(s.take(i + 1)) == byte_len(s.take(i)) + vstd::utf8::encode_scalar(
            s[i] as u32,
        ).len(),
{
    assert(s.take(i + 1) == s.take(i) + seq![s[i]]);
    lemma_encode_utf8_concat(s.take(i), seq![s[i]]);
    assert(seq![s[i]].drop_first() == Seq::<char>::empty());
    assert(vstd::utf8::encode_utf8(Seq::<char>::empty()) == Seq::<u8>::empty());
    assert(vstd::utf8::encode_utf8(seq![s[i]]) == vstd::utf8::encode_scalar(s[i] as u32)
        + vstd::utf8::encode_utf8(Seq::<char>::empty()));
    assert(vstd::utf8::encode_utf8(seq![s[i]]) == vstd::utf8::encode_scalar(s[i] as u32));
}

/// Byte offsets grow with the number of characters before them.
pub proof fn lemma_byte_len_monotone(t: Seq<char>, i: int, j: int)
    requires
        0 <= i <= j <= t.len(),
    ensures
        byte_len(t.take(i)) <= byte_len(t.take(j)),
        i < j ==> byte_len(t.take(i)) < byte_len(t.take(j)),
    decreases j - i,
{
    if i < j {
        lemma_byte_len_monotone(t, i, j - 1);
        lemma_byte_len_step(t, j - 1);
    }
}

/// The number of bytes `c` takes in UTF-8 (`char::len_utf8`).
pub fn utf8_width(c: char) -> (r: usize)
    ensures
        r == vstd::utf8::encode_scalar(c as u32).len(),
        1 <= r <= 4,
{
    proof {
        vstd::utf8::char_is_scalar(c);
    }
    let u = c as u32;
    if u <= 0x7f {
        1
    } else if u <= 0x7ff {
        2
    } else if u <= 0xffff {
        3
    } else {
        4
    }
}

/// `byte_offsets(s)[i]` is the byte length of the first `i` characters.
pub fn byte_offsets(v: &Vec<char>) -> (r: Vec<usize>)
    requires
        byte_len(v@) <= usize::MAX,
    ensures
        r@.len() == v@.len() + 1,
        forall|i: int| 0 <= i <= v@.len() ==> #[trigger] r@[i] == byte_len(v@.take(i)),
{
    let mut r: Vec<usize> = Vec::new();
    r.push(0);
    assert(v@.take(0) == Seq::<char>::empty());
    let mut acc: usize = 0;
    let mut i: usize = 0;
    while i < v.len()
        invariant
            i <= v@.len(),
            byte_len(v@) <= usize::MAX,
            r@.len() == i + 1,
            acc == byte_len(v@.take(i as int)),
            forall|k: int| 0 <= k <= i ==> #[trigger] r@[k] == byte_len(v@.take(k)),
        decreases v@.len() - i,
    {
        proof {
            lemma_byte_len_step(v@, i as int);
            assert(v@ == v@.take(i + 1) + v@.skip(i + 1));
            lemma_encode_utf8_concat(v@.take(i + 1), v@.skip(i + 1));
        }
        acc = acc + utf8_width(v[i]);
        r.push(acc);
        i = i + 1;
    }
    r
}


/// The character of decimal digit `d`.
pub open spec fn digit_char(d: nat) -> char {
    (d + 48) as char
}

/// The decimal numeral of `n`, without leading zeros.
pub open spec fn decimal(n: nat) -> Seq<char>
    decreases n,
{
    if n < 10 {
        seq![digit_char(n)]
    } else {
        decimal(n / 10).push(digit_char(n % 10))
    }
}

/// Appends the decimal numeral of `n` to `out`.
pub fn push_decimal(out: &mut String, n: u128)
    ensures
        final(out)@ == old(out)@ + decimal(n as nat),
    decreases n,
{
    if n >= 10 {
        push_decimal(out, n / 10);
    }
    let d = (n % 10) as u8;
    let c = (d + 48u8) as char;
    assert(c == digit_char((n % 10) as nat));
    push_char(out, c);
}


/// `c` with ASCII upper-case letters lowered (`u8::to_ascii_lowercase`).
pub open spec fn ascii_lower(c: char) -> char {
    if 'A' <= c && c <= 'Z' {
        ((c as u32) + 32) as char
    } else {
        c
    }
}

/// `s` with ASCII upper-case letters lowered (`str::to_ascii_lowercase`).
pub open spec fn ascii_lowercase(s: Seq<char>) -> Seq<char> {
    s.map_values(|c: char| ascii_lower(c))
}

/// `c` with an ASCII upper-case letter lowered.
pub fn ascii_lower_char(c: char) -> (r: char)
    ensures
        r == ascii_lower(c),
{
    if 'A' <= c && c <= 'Z' {
        let u = (c as u32) + 32;
        assert(0x61 <= u <= 0x7a);
        let b = u as u8;
        b as char
    } else {
        c
    }
}

} // verus!
