//! Completion of `{{name}}` template variables in the request body editor:
//! finding the token under the cursor and the variables offered for it.
use vstd::prelude::*;
use crate::models::EnvironmentVariable;
use crate::text::{
    byte_len, byte_offsets, chars_of, is_white, lemma_byte_len_monotone, push_all, push_range,
    starts_with,
    starts_with_chars, string_of, trim, trim_bounds, trim_start,
};

verus! {

/// How far, in bytes, the search for a token reaches from its start.
pub const MAX_TOKEN_BYTES: usize = 4096;

/// A position as an editor counts it: a line, and a character within it.
#[derive(Debug, Clone, Copy, PartialEq, Eq, Structural)]
pub struct Position {
    pub line: u32,
    pub character: u32,
}

impl Position {
    /// The position at `line`, `character`.
    pub fn new(line: u32, character: u32) -> (r: Self)
        ensures
            r.line == line,
            r.character == character,
    {
        Position { line, character }
    }
}

/// A span between two positions.
#[derive(Debug, Clone, Copy, PartialEq, Eq, Structural)]
pub struct CompletionRange {
    pub start: Position,
    pub end: Position,
}

/// The template token the cursor is in: the byte offset of its `{{`, the
/// name typed so far, and the span a completion replaces.
#[derive(Debug, Clone, PartialEq, Eq)]
pub struct VariableToken {
    pub start: usize,
    pub prefix: String,
    pub range: CompletionRange,
}

/// A character that may stand in a variable name.
pub open spec fn is_name_char(c: char) -> bool {
    is_alphanumeric(c) || c == '_' || c == '-' || c == '.' || c == '$'
}

/// What `char::is_alphanumeric` says of `c` (Unicode alphabetic or numeric).
pub uninterp spec fn is_alphanumeric(c: char) -> bool;

/// `char::is_alphanumeric`. Trusted: the answer is `is_alphanumeric`.
#[verifier::external_body]
fn char_is_alphanumeric(c: char) -> (r: bool)
    ensures
        r == is_alphanumeric(c),
{
    c.is_alphanumeric()
}

/// Bytes of `t` before character index `i`.
pub open spec fn bytes_before(t: Seq<char>, i: int) -> int {
    byte_len(t.take(i)) as int
}

/// Scanning back from character `j` for the `{{` of a token that the
/// cursor at character `k` is in: the character index of the `{{`, if the
/// scan meets one before a `}`, a line break or the search limit.
pub open spec fn token_open(t: Seq<char>, k: int, j: int) -> Option<int>
    decreases j,
{
    if j <= 0 || j > t.len() {
        None
    } else if bytes_before(t, k) - bytes_before(t, j - 1) > MAX_TOKEN_BYTES {
        None
    } else if t[j - 1] == '{' {
        if j >= 2 && t[j - 2] == '{' {
            Some(j - 2)
        } else {
            None
        }
    } else if t[j - 1] == '}' || t[j - 1] == '\n' || t[j - 1] == '\r' {
        None
    } else {
        token_open(t, k, j - 1)
    }
}

/// The end of the name after the cursor: the first character index at or
/// after `m` that cannot stand in a name, unless the name runs past the
/// search limit measured from the byte `sb`.
pub open spec fn name_end(t: Seq<char>, m: int, sb: int) -> Option<int>
    decreases t.len() - m,
{
    if m < 0 || m >= t.len() || !is_name_char(t[m]) {
        Some(m)
    } else if bytes_before(t, m + 1) - sb > MAX_TOKEN_BYTES {
        None
    } else {
        name_end(t, m + 1, sb)
    }
}

/// The end of the spaces and tabs from character `p` on, unless they run
/// past the search limit measured from the byte `sb`.
pub open spec fn blanks_end(t: Seq<char>, p: int, sb: int) -> Option<int>
    decreases t.len() - p,
{
    if p < 0 || p >= t.len() || !(t[p] == ' ' || t[p] == '\t') {
        Some(p)
    } else if bytes_before(t, p + 1) - sb > MAX_TOKEN_BYTES {
        None
    } else {
        blanks_end(t, p + 1, sb)
    }
}

/// The first character index of the line that holds character index `i`.
pub open spec fn line_start(t: Seq<char>, i: int) -> int
    decreases i,
{
    if i <= 0 || i > t.len() {
        0
    } else if t[i - 1] == '\n' {
        i
    } else {
        line_start(t, i - 1)
    }
}

/// The number of line breaks before character index `i`.
pub open spec fn line_breaks(t: Seq<char>, i: int) -> int
    decreases i,
{
    if i <= 0 || i > t.len() {
        0
    } else {
        line_breaks(t, i - 1) + if t[i - 1] == '\n' {
            1int
        } else {
            0int
        }
    }
}

/// The editor position of character index `i`.
pub open spec fn position_of(t: Seq<char>, i: int) -> Position {
    Position { line: line_breaks(t, i) as u32, character: (i - line_start(t, i)) as u32 }
}

/// The token that the cursor at character index `k` is in, as character
/// indices: where its `{{` begins, and where the span a completion
/// replaces ends: after the closing `}}` (or a lone `}`) when the name is
/// followed, past any spaces and tabs, by one; else at the end of the name.
pub open spec fn token_span(t: Seq<char>, k: int) -> Option<(int, int)> {
    match token_open(t, k, k) {
        None => None,
        Some(s) => match name_end(t, k, bytes_before(t, s)) {
            None => None,
            Some(m) => match blanks_end(t, m, bytes_before(t, s)) {
                None => None,
                Some(p) => if p < t.len() && t[p] == '}' {
                    if p + 1 < t.len() && t[p + 1] == '}' {
                        Some((s, p + 2))
                    } else {
                        Some((s, p + 1))
                    }
                } else {
                    Some((s, m))
                },
            },
        },
    }
}

/// The character index whose byte offset is `offset`, if there is one.
pub open spec fn char_index_at(t: Seq<char>, offset: int, k: int) -> bool {
    0 <= k <= t.len() && bytes_before(t, k) == offset
}

fn line_position(t: &Vec<char>, i: usize) -> (r: Position)
    requires
        i <= t@.len(),
    ensures
        r == position_of(t@, i as int),
{
    let mut breaks: usize = 0;
    let mut start: usize = 0;
    let mut j: usize = 0;
    while j < i
        invariant
            j <= i <= t@.len(),
            breaks as int == line_breaks(t@, j as int),
            start as int == line_start(t@, j as int),
            start <= j,
            breaks <= j,
        decreases i - j,
    {
        if t[j] == '\n' {
            breaks = breaks + 1;
            start = j + 1;
        }
        j = j + 1;
    }
    Position { line: breaks as u32, character: (i - start) as u32 }
}

/// The token the cursor at byte `offset` of `text` is in, if it is in one
/// (see `token_span`): `None` when `offset` is past the end or inside a
/// character. The name typed so far is the text from after the `{{` up to
/// the cursor, without leading white space.
pub fn token_at_cursor(text: &str, offset: usize) -> (r: Option<VariableToken>)
    ensures
        match r {
            None => forall|k: int| #[trigger] char_index_at(text@, offset as int, k) ==> token_span(text@, k) is None,
            Some(tok) => exists|k: int|
                #[trigger] char_index_at(text@, offset as int, k) && match token_span(text@, k) {
                    Some((s, e)) => {
                        &&& tok.start as int == bytes_before(text@, s)
                        &&& tok.prefix@ == trim_start(text@.subrange(s + 2, k))
                        &&& tok.range == CompletionRange {
                            start: position_of(text@, s),
                            end: position_of(text@, e),
                        }
                    },
                    None => false,
                },
        },
{
    let t = chars_of(text);
    let total = text.as_bytes().len();
    assert(total == byte_len(t@));
    let offsets = byte_offsets(&t);
    let n = t.len();
    // the character index of the cursor
    let mut k: usize = 0;
    while k < n && offsets[k] < offset
        invariant
            k <= n == t@.len(),
            offsets@.len() == n + 1,
            forall|i: int| 0 <= i <= n ==> #[trigger] offsets@[i] == byte_len(t@.take(i)),
            forall|i: int| 0 <= i < k ==> #[trigger] offsets@[i] < offset,
        decreases n - k,
    {
        k = k + 1;
    }
    proof {
        assert forall|i: int| 0 <= i < k implies bytes_before(t@, i) < offset by {
            assert(offsets@[i] == byte_len(t@.take(i)));
        }
    }
    if offsets[k] != offset {
        proof {
            assert forall|j: int| #[trigger] char_index_at(t@, offset as int, j) implies false by {
                if j < k {
                } else if j == k {
                } else {
                    lemma_byte_len_monotone(t@, k as int, j);
                    assert(offsets@[k as int] >= offset);
                }
            }
        }
        return None;
    }
    proof {
        assert forall|j: int| #[trigger] char_index_at(t@, offset as int, j) implies j == k by {
            if j < k {
                lemma_byte_len_monotone(t@, j, k as int);
            } else if j > k {
                lemma_byte_len_monotone(t@, k as int, j);
            }
        }
    }
    assert(char_index_at(t@, offset as int, k as int));
    // scan back for the opening `{{`
    let mut j: usize = k;
    let mut found: Option<usize> = None;
    loop
        invariant_except_break
            j <= k <= n == t@.len(),
            found is None,
            offsets@.len() == n + 1,
            forall|i: int| 0 <= i <= n ==> #[trigger] offsets@[i] == byte_len(t@.take(i)),
            token_open(t@, k as int, k as int) == token_open(t@, k as int, j as int),
        ensures
            token_open(t@, k as int, k as int) == match found {
                Some(x) => Some(x as int),
                None => None::<int>,
            },
            found matches Some(x) ==> x + 2 <= k,
        decreases j,
    {
        if j == 0 {
            break;
        }
        proof {
            lemma_byte_len_monotone(t@, (j - 1) as int, k as int);
        }
        if offsets[k] - offsets[j - 1] > MAX_TOKEN_BYTES {
            break;
        }
        let ch = t[j - 1];
        if ch == '{' {
            if j >= 2 && t[j - 2] == '{' {
                found = Some(j - 2);
            }
            break;
        }
        if ch == '}' || ch == '\n' || ch == '\r' {
            break;
        }
        j = j - 1;
    }
    let s = match found {
        Some(x) => x,
        None => {
            return None;
        },
    };
    let sb = offsets[s];
    proof {
        lemma_byte_len_monotone(t@, s as int, k as int);
    }
    // the name after the cursor
    let mut m: usize = k;
    let mut too_long = false;
    loop
        invariant_except_break
            s + 2 <= k <= m <= n == t@.len(),
            !too_long,
            offsets@.len() == n + 1,
            forall|i: int| 0 <= i <= n ==> #[trigger] offsets@[i] == byte_len(t@.take(i)),
            sb as int == bytes_before(t@, s as int),
            name_end(t@, k as int, sb as int) == name_end(t@, m as int, sb as int),
        ensures
            s + 2 <= k <= m <= n == t@.len(),
            name_end(t@, k as int, sb as int) == if too_long {
                None
            } else {
                Some(m as int)
            },
        decreases n - m,
    {
        if m >= n {
            break;
        }
        let c = t[m];
        if !(char_is_alphanumeric(c) || c == '_' || c == '-' || c == '.' || c == '$') {
            break;
        }
        proof {
            lemma_byte_len_monotone(t@, s as int, (m + 1) as int);
        }
        if offsets[m + 1] - sb > MAX_TOKEN_BYTES {
            too_long = true;
            break;
        }
        m = m + 1;
    }
    if too_long {
        return None;
    }
    let mut p: usize = m;
    loop
        invariant_except_break
            s + 2 <= k <= m <= p <= n == t@.len(),
            !too_long,
            offsets@.len() == n + 1,
            forall|i: int| 0 <= i <= n ==> #[trigger] offsets@[i] == byte_len(t@.take(i)),
            sb as int == bytes_before(t@, s as int),
            blanks_end(t@, m as int, sb as int) == blanks_end(t@, p as int, sb as int),
        ensures
            s + 2 <= k <= m <= p <= n == t@.len(),
            blanks_end(t@, m as int, sb as int) == if too_long {
                None
            } else {
                Some(p as int)
            },
        decreases n - p,
    {
        if p >= n || !(t[p] == ' ' || t[p] == '\t') {
            break;
        }
        proof {
            lemma_byte_len_monotone(t@, s as int, (p + 1) as int);
        }
        if offsets[p + 1] - sb > MAX_TOKEN_BYTES {
            too_long = true;
            break;
        }
        p = p + 1;
    }
    if too_long {
        return None;
    }
    let e = if p < n && t[p] == '}' {
        if p + 1 < n && t[p + 1] == '}' {
            p + 2
        } else {
            p + 1
        }
    } else {
        m
    };
    let mut prefix: Vec<char> = Vec::new();
    let (pa, _) = leading_white_end(&t, s + 2, k);
    push_range(&mut prefix, &t, pa, k);
    let range = CompletionRange { start: line_position(&t, s), end: line_position(&t, e) };
    Some(VariableToken { start: sb, prefix: string_of(&prefix), range })
}

/// The index of the first character in `t[lo..hi]` that is not white space,
/// or `hi`; the text from there on is `trim_start` of `t[lo..hi]`.
fn leading_white_end(t: &Vec<char>, lo: usize, hi: usize) -> (r: (usize, ()))
    requires
        lo <= hi <= t@.len(),
    ensures
        lo <= r.0 <= hi,
        t@.subrange(r.0 as int, hi as int) == trim_start(t@.subrange(lo as int, hi as int)),
{
    let mut a = lo;
    while a < hi && crate::text::char_is_white(t[a])
        invariant
            lo <= a <= hi <= t@.len(),
            trim_start(t@.subrange(lo as int, hi as int)) == trim_start(t@.subrange(a as int, hi as int)),
        decreases hi - a,
    {
        proof {
            let s = t@.subrange(a as int, hi as int);
            assert(s.drop_first() == t@.subrange(a + 1, hi as int));
        }
        a = a + 1;
    }
    proof {
        let s = t@.subrange(a as int, hi as int);
        if a < hi {
            assert(!is_white(s[0]));
        }
    }
    (a, ())
}

/// A variable offered for completion: its name, where it comes from, the
/// name typed so far, and the edit that completes the token.
#[derive(Debug, Clone, PartialEq, Eq)]
pub struct CompletionItem {
    pub label: String,
    pub detail: String,
    pub filter_text: String,
    pub range: CompletionRange,
    pub new_text: String,
}

/// The variables the request runner generates when a request is sent.
pub open spec fn dynamic_variable_names() -> Seq<Seq<char>> {
    seq!["$guid"@, "$isoTimestamp"@, "$randomInt"@, "$timestamp"@]
}

/// Where an offered name comes from: generated (false) or the
/// environment (true).
pub open spec fn offered_names(vars: Seq<EnvironmentVariable>) -> Map<Seq<char>, bool>
    decreases vars.len(),
{
    if vars.len() == 0 {
        Map::new(|n: Seq<char>| dynamic_variable_names().contains(n), |n: Seq<char>| false)
    } else {
        let v = vars.last();
        let name = trim(v.name@);
        if v.enabled && name.len() > 0 {
            offered_names(vars.drop_last()).insert(name, true)
        } else {
            offered_names(vars.drop_last())
        }
    }
}

/// `a` comes before `b` in the order of their characters.
pub open spec fn lex_lt(a: Seq<char>, b: Seq<char>) -> bool
    decreases a.len(),
{
    if a.len() == 0 {
        b.len() > 0
    } else if b.len() == 0 {
        false
    } else if a[0] != b[0] {
        a[0] < b[0]
    } else {
        lex_lt(a.drop_first(), b.drop_first())
    }
}

proof fn lemma_lex_total(a: Seq<char>, b: Seq<char>)
    ensures
        a == b || lex_lt(a, b) || lex_lt(b, a),
        !(lex_lt(a, b) && lex_lt(b, a)),
        !lex_lt(a, a),
    decreases a.len(),
{
    if a.len() > 0 && b.len() > 0 && a[0] == b[0] {
        lemma_lex_total(a.drop_first(), b.drop_first());
        if a.drop_first() == b.drop_first() {
            assert(a == seq![a[0]] + a.drop_first());
            assert(b == seq![b[0]] + b.drop_first());
        }
    }
    if a.len() > 0 {
        lemma_lex_total(a.drop_first(), a.drop_first());
    }
}

proof fn lemma_lex_trans(a: Seq<char>, b: Seq<char>, c: Seq<char>)
    requires
        lex_lt(a, b),
        lex_lt(b, c),
    ensures
        lex_lt(a, c),
    decreases a.len(),
{
    if a.len() > 0 && b.len() > 0 && c.len() > 0 && a[0] == b[0] && b[0] == c[0] {
        lemma_lex_trans(a.drop_first(), b.drop_first(), c.drop_first());
    }
}

fn lex_less(a: &Vec<char>, b: &Vec<char>) -> (r: bool)
    ensures
        r == lex_lt(a@, b@),
{
    let mut i: usize = 0;
    assert(a@.skip(0) == a@ && b@.skip(0) == b@);
    while i < a.len() && i < b.len() && a[i] == b[i]
        invariant
            i <= a@.len(),
            i <= b@.len(),
            lex_lt(a@, b@) == lex_lt(a@.skip(i as int), b@.skip(i as int)),
        decreases a@.len() - i,
    {
        assert(a@.skip(i as int).drop_first() == a@.skip(i + 1));
        assert(b@.skip(i as int).drop_first() == b@.skip(i + 1));
        i = i + 1;
    }
    if i == a.len() {
        i < b.len()
    } else if i == b.len() {
        false
    } else {
        a[i] < b[i]
    }
}

/// The names in a list are in strictly increasing order.
pub open spec fn strictly_sorted(names: Seq<Seq<char>>) -> bool {
    forall|i: int, j: int| 0 <= i < j < names.len() ==> lex_lt(names[i], names[j])
}

/// `names`, with their origins `envs`, in strictly increasing order, is
/// the map `m`.
pub open spec fn lists_map(names: Seq<Seq<char>>, envs: Seq<bool>, m: Map<Seq<char>, bool>) -> bool {
    &&& names.len() == envs.len()
    &&& strictly_sorted(names)
    &&& forall|i: int| 0 <= i < names.len() ==> m.contains_key(#[trigger] names[i]) && m[names[i]] == envs[i]
    &&& forall|n: Seq<char>| m.contains_key(n) ==> names.contains(n)
}

fn put_name(names: &mut Vec<Vec<char>>, envs: &mut Vec<bool>, name: Vec<char>, env: bool, Ghost(m): Ghost<Map<Seq<char>, bool>>)
    requires
        lists_map(old(names)@.map_values(|v: Vec<char>| v@), old(envs)@, m),
    ensures
        lists_map(final(names)@.map_values(|v: Vec<char>| v@), final(envs)@, m.insert(name@, env)),
{
    let ghost ns = names@.map_values(|v: Vec<char>| v@);
    let mut p: usize = 0;
    while p < names.len() && lex_less(&names[p], &name)
        invariant
            p <= names@.len(),
            ns == names@.map_values(|v: Vec<char>| v@),
            forall|i: int| 0 <= i < p ==> lex_lt(#[trigger] ns[i], name@),
        decreases names@.len() - p,
    {
        p = p + 1;
    }
    proof {
        if p < ns.len() {
            lemma_lex_total(ns[p as int], name@);
        }
    }
    if p < names.len() && !lex_less(&name, &names[p]) {
        // the name is already listed: its origin is updated
        envs.set(p, env);
        proof {
            lemma_lex_total(ns[p as int], name@);
            assert(ns[p as int] == name@);
            let m2 = m.insert(name@, env);
            assert forall|i: int| 0 <= i < ns.len() implies m2.contains_key(#[trigger] ns[i]) && m2[ns[i]] == envs@[i] by {
                if i != p {
                    lemma_lex_total(ns[i], ns[p as int]);
                    if i < p {
                        assert(lex_lt(ns[i], ns[p as int]));
                    } else {
                        assert(lex_lt(ns[p as int], ns[i]));
                    }
                }
            }
            assert forall|n: Seq<char>| m2.contains_key(n) implies ns.contains(n) by {
                if n == name@ {
                    assert(ns[p as int] == n);
                }
            }
        }
        return;
    }
    let ghost old_envs = envs@;
    names.insert(p, name);
    envs.insert(p, env);
    proof {
        let ns2 = names@.map_values(|v: Vec<char>| v@);
        assert(ns2 == ns.insert(p as int, name@));
        let m2 = m.insert(name@, env);
        assert forall|i: int| p <= i < ns.len() implies lex_lt(name@, #[trigger] ns[i]) by {
            if i > p {
                lemma_lex_trans(name@, ns[p as int], ns[i]);
            }
        }
        assert forall|i: int, j: int| 0 <= i < j < ns2.len() implies lex_lt(ns2[i], ns2[j]) by {
            if i < p && j > p {
                lemma_lex_trans(ns2[i], name@, ns2[j]);
            }
        }
        assert forall|i: int| 0 <= i < ns2.len() implies m2.contains_key(#[trigger] ns2[i]) && m2[ns2[i]] == envs@[i] by {
            if i < p {
                lemma_lex_total(ns[i], name@);
            } else if i > p {
                lemma_lex_total(ns[i - 1], name@);
            }
        }
        assert forall|n: Seq<char>| m2.contains_key(n) implies ns2.contains(n) by {
            if n == name@ {
                assert(ns2[p as int] == n);
            } else {
                assert(m.contains_key(n));
                assert(ns.contains(n));
                let i = choose|i: int| 0 <= i < ns.len() && ns[i] == n;
                if i < p {
                    assert(ns2[i] == n);
                } else {
                    assert(ns2[i + 1] == n);
                }
            }
        }
    }
}

/// What completing `token` offers: every generated variable and every
/// enabled environment variable (by trimmed name, an environment variable
/// taking the place of a generated one of the same name) whose name starts
/// with the name typed so far, in increasing order of name. Each item
/// replaces the token's span with `{{name}}`.
pub fn completion_items(token: &VariableToken, variables: &[EnvironmentVariable]) -> (r: Vec<CompletionItem>)
    ensures
        strictly_sorted(r@.map_values(|it: CompletionItem| it.label@)),
        forall|i: int|
            0 <= i < r@.len() ==> {
                let it = #[trigger] r@[i];
                &&& offered_names(variables@).contains_key(it.label@)
                &&& starts_with(it.label@, token.prefix@)
                &&& it.detail@ == if offered_names(variables@)[it.label@] {
                    "Environment variable"@
                } else {
                    "Dynamic variable"@
                }
                &&& it.filter_text@ == token.prefix@
                &&& it.range == token.range
                &&& it.new_text@ == seq!['{', '{'] + it.label@ + seq!['}', '}']
            },
        forall|n: Seq<char>|
            offered_names(variables@).contains_key(n) && starts_with(n, token.prefix@) ==> exists|i: int|
                0 <= i < r@.len() && (#[trigger] r@[i]).label@ == n,
{
    let mut names: Vec<Vec<char>> = Vec::new();
    let mut envs: Vec<bool> = Vec::new();
    let ghost m0: Map<Seq<char>, bool> = Map::empty();
    let ghost m1 = m0.insert("$guid"@, false);
    let ghost m2 = m1.insert("$isoTimestamp"@, false);
    let ghost m3 = m2.insert("$randomInt"@, false);
    let ghost m4 = m3.insert("$timestamp"@, false);
    assert(lists_map(names@.map_values(|v: Vec<char>| v@), envs@, m0));
    put_name(&mut names, &mut envs, chars_of("$guid"), false, Ghost(m0));
    put_name(&mut names, &mut envs, chars_of("$isoTimestamp"), false, Ghost(m1));
    put_name(&mut names, &mut envs, chars_of("$randomInt"), false, Ghost(m2));
    put_name(&mut names, &mut envs, chars_of("$timestamp"), false, Ghost(m3));
    proof {
        let dn = dynamic_variable_names();
        assert forall|n: Seq<char>| #[trigger] m4.contains_key(n) == dn.contains(n) by {
            if dn.contains(n) {
                let i = choose|i: int| 0 <= i < dn.len() && dn[i] == n;
                assert(i == 0 || i == 1 || i == 2 || i == 3);
            }
            if m4.contains_key(n) {
                if n == "$guid"@ {
                    assert(dn[0] == n);
                } else if n == "$isoTimestamp"@ {
                    assert(dn[1] == n);
                } else if n == "$randomInt"@ {
                    assert(dn[2] == n);
                } else {
                    assert(dn[3] == n);
                }
            }
        }
        assert(m4 =~= offered_names(Seq::<EnvironmentVariable>::empty()));
        assert(variables@.take(0) == Seq::<EnvironmentVariable>::empty());
    }
    let mut i: usize = 0;
    while i < variables.len()
        invariant
            i <= variables@.len(),
            lists_map(names@.map_values(|v: Vec<char>| v@), envs@, offered_names(variables@.take(i as int))),
        decreases variables@.len() - i,
    {
        let v = &variables[i];
        assert(variables@.take(i + 1).drop_last() == variables@.take(i as int));
        assert(variables@.take(i + 1).last() == *v);
        let full = chars_of(v.name.as_str());
        let (a, b) = trim_bounds(&full, 0, full.len());
        assert(full@.subrange(0, full@.len() as int) == full@);
        if v.enabled && a < b {
            let mut name: Vec<char> = Vec::new();
            push_range(&mut name, &full, a, b);
            put_name(&mut names, &mut envs, name, true, Ghost(offered_names(variables@.take(i as int))));
        }
        i = i + 1;
    }
    assert(variables@.take(variables@.len() as int) == variables@);
    let ghost ns = names@.map_values(|v: Vec<char>| v@);
    let ghost om = offered_names(variables@);
    let prefix = chars_of(token.prefix.as_str());
    let mut out: Vec<CompletionItem> = Vec::new();
    let ghost mut picked: Seq<int> = seq![];
    let mut j: usize = 0;
    while j < names.len()
        invariant
            j <= names@.len(),
            ns == names@.map_values(|v: Vec<char>| v@),
            lists_map(ns, envs@, om),
            om == offered_names(variables@),
            prefix@ == token.prefix@,
            out@.len() == picked.len(),
            forall|x: int| 0 <= x < picked.len() ==> 0 <= #[trigger] picked[x] < j && out@[x].label@ == ns[picked[x]],
            forall|x: int, y: int| 0 <= x < y < picked.len() ==> picked[x] < picked[y],
            forall|x: int|
                0 <= x < out@.len() ==> {
                    let it = #[trigger] out@[x];
                    &&& om.contains_key(it.label@)
                    &&& starts_with(it.label@, token.prefix@)
                    &&& it.detail@ == if om[it.label@] {
                        "Environment variable"@
                    } else {
                        "Dynamic variable"@
                    }
                    &&& it.filter_text@ == token.prefix@
                    &&& it.range == token.range
                    &&& it.new_text@ == seq!['{', '{'] + it.label@ + seq!['}', '}']
                },
            forall|y: int| 0 <= y < j && starts_with(#[trigger] ns[y], token.prefix@) ==> exists|x: int|
                0 <= x < out@.len() && out@[x].label@ == ns[y],
        decreases names@.len() - j,
    {
        if starts_with_chars(&names[j], &prefix) {
            let label = string_of(&names[j]);
            let mut edit = chars_of("{{");
            push_all(&mut edit, &names[j]);
            let close = chars_of("}}");
            push_all(&mut edit, &close);
            proof {
                reveal_strlit("{{");
                reveal_strlit("}}");
            }
            let detail = if envs[j] {
                "Environment variable".to_owned()
            } else {
                "Dynamic variable".to_owned()
            };
            let ghost before = out@;
            assert(ns[j as int] == names@[j as int]@);
            assert(om.contains_key(ns[j as int]) && om[ns[j as int]] == envs@[j as int]);
            out.push(
                CompletionItem {
                    label,
                    detail,
                    filter_text: token.prefix.clone(),
                    range: token.range,
                    new_text: string_of(&edit),
                },
            );
            proof {
                assert forall|x: int| 0 <= x < before.len() implies out@[x] == before[x] by {}
                picked = picked.push(j as int);
                assert forall|y: int| 0 <= y < j + 1 && starts_with(#[trigger] ns[y], token.prefix@) implies exists|x: int|
                    0 <= x < out@.len() && out@[x].label@ == ns[y] by {
                    if y == j {
                        assert(out@[out@.len() - 1].label@ == ns[y]);
                    } else {
                        let x = choose|x: int| 0 <= x < before.len() && before[x].label@ == ns[y];
                        assert(out@[x] == before[x]);
                    }
                }
            }
        }
        j = j + 1;
    }
    proof {
        let labels = out@.map_values(|it: CompletionItem| it.label@);
        assert forall|x: int, y: int| 0 <= x < y < labels.len() implies lex_lt(labels[x], labels[y]) by {
            assert(labels[x] == ns[picked[x]]);
            assert(labels[y] == ns[picked[y]]);
        }
        assert forall|n: Seq<char>| om.contains_key(n) && starts_with(n, token.prefix@) implies exists|i: int|
            0 <= i < out@.len() && (#[trigger] out@[i]).label@ == n by {
            assert(ns.contains(n));
            let y = choose|y: int| 0 <= y < ns.len() && ns[y] == n;
            assert(starts_with(ns[y], token.prefix@));
        }
    }
    out
}

} // verus!
