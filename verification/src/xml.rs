//! Indentation of XML and HTML markup for display.
//!
//! The layout puts every tag on a line of its own, indented by two spaces
//! per level of nesting, and places text content on its own line too.
use vstd::prelude::*;
use crate::text::{chars_of, ends_with, is_ascii_white, push_range, starts_with, starts_with_chars, string_of, trim, trim_bounds};

verus! {

/// The first index at or after `from` that holds `c`, or `t.len()`.
pub open spec fn next_index_of(t: Seq<char>, c: char, from: int) -> int
    decreases t.len() - from,
{
    if from >= t.len() {
        t.len() as int
    } else if t[from] == c {
        from
    } else {
        next_index_of(t, c, from + 1)
    }
}

/// The first index at or after `from` that is not ASCII white space, or `t.len()`.
pub open spec fn skip_ascii_white(t: Seq<char>, from: int) -> int
    decreases t.len() - from,
{
    if from >= t.len() {
        t.len() as int
    } else if !is_ascii_white(t[from]) {
        from
    } else {
        skip_ascii_white(t, from + 1)
    }
}

/// `next_index_of` stays between `from` and the end of the text.
pub proof fn lemma_next_index_of_bounds(t: Seq<char>, c: char, from: int)
    requires
        0 <= from <= t.len(),
    ensures
        from <= next_index_of(t, c, from) <= t.len(),
        next_index_of(t, c, from) < t.len() ==> t[next_index_of(t, c, from)] == c,
        forall|k: int| from <= k < next_index_of(t, c, from) ==> t[k] != c,
    decreases t.len() - from,
{
    if from < t.len() && t[from] != c {
        lemma_next_index_of_bounds(t, c, from + 1);
    }
}

/// `skip_ascii_white` stays between `from` and the end of the text.
pub proof fn lemma_skip_ascii_white_bounds(t: Seq<char>, from: int)
    requires
        0 <= from <= t.len(),
    ensures
        from <= skip_ascii_white(t, from) <= t.len(),
    decreases t.len() - from,
{
    if from < t.len() && is_ascii_white(t[from]) {
        lemma_skip_ascii_white_bounds(t, from + 1);
    }
}

/// Two spaces per level of nesting.
pub open spec fn indent(depth: int) -> Seq<char> {
    Seq::new((2 * depth) as nat, |k: int| ' ')
}

/// A tag that closes an element: it begins with `</`.
pub open spec fn is_closing_tag(tag: Seq<char>) -> bool {
    starts_with(tag, seq!['<', '/'])
}

/// A tag that closes itself: it ends with `/>`.
pub open spec fn is_self_closing_tag(tag: Seq<char>) -> bool {
    ends_with(tag, seq!['/', '>'])
}

/// A comment, processing instruction, doctype or CDATA section, none of
/// which opens a level of nesting.
pub open spec fn is_comment_like_tag(tag: Seq<char>) -> bool {
    ||| starts_with(tag, "<!--"@)
    ||| starts_with(tag, "<?"@)
    ||| starts_with(tag, "<!DOCTYPE"@)
    ||| starts_with(tag, "<![CDATA["@)
}

/// The separator put before text content: a line break and the
/// indentation, unless the output is empty or already ends a line.
pub open spec fn text_separator(out: Seq<char>, depth: int) -> Seq<char> {
    if out.len() > 0 && out.last() != '\n' {
        seq!['\n'] + indent(depth)
    } else {
        seq![]
    }
}

/// The layout of `t` from index `i` on, with `depth` levels open and `out`
/// already written: the whole output the formatter produces.
pub open spec fn xml_layout(t: Seq<char>, i: int, depth: int, out: Seq<char>) -> Seq<char>
    decreases t.len() - i,
{
    if i < 0 || i >= t.len() {
        out
    } else if t[i] == '<' {
        let j = next_index_of(t, '>', i + 1);
        proof {
            lemma_next_index_of_bounds(t, '>', i + 1);
        }
        if j >= t.len() {
            let rest = trim(t.subrange(i, t.len() as int));
            if rest.len() > 0 {
                out + text_separator(out, depth) + rest
            } else {
                out
            }
        } else {
            let tag = t.subrange(i, j + 1);
            let closing = is_closing_tag(tag);
            let d = if closing && depth > 0 {
                depth - 1
            } else {
                depth
            };
            let sep = if out.len() > 0 {
                seq!['\n']
            } else {
                seq![]
            };
            let out2 = out + sep + indent(d) + tag;
            let k = skip_ascii_white(t, j + 1);
            let next_is_tag = k < t.len() && t[k] == '<';
            let next_is_closing = next_is_tag && k + 1 < t.len() && t[k + 1] == '/';
            let opens = !closing && !is_self_closing_tag(tag) && !is_comment_like_tag(tag) && !(
            next_is_tag && next_is_closing);
            xml_layout(t, j + 1, if opens { d + 1 } else { d }, out2)
        }
    } else if !is_ascii_white(t[i]) {
        let e = next_index_of(t, '<', i + 1);
        proof {
            lemma_next_index_of_bounds(t, '<', i + 1);
        }
        let content = trim(t.subrange(i, e));
        let out2 = if content.len() > 0 {
            out + text_separator(out, depth) + content
        } else {
            out
        };
        xml_layout(t, e, depth, out2)
    } else {
        xml_layout(t, i + 1, depth, out)
    }
}

/// The formatted markup, or `None` when the formatter writes nothing.
pub open spec fn xml_format(t: Seq<char>) -> Option<Seq<char>> {
    let r = xml_layout(t, 0, 0, seq![]);
    if r.len() > 0 {
        Some(r)
    } else {
        None
    }
}

fn next_index_of_exec(t: &Vec<char>, c: char, from: usize) -> (r: usize)
    requires
        from <= t@.len(),
    ensures
        r == next_index_of(t@, c, from as int),
{
    let mut k = from;
    while k < t.len() && t[k] != c
        invariant
            from <= k <= t@.len(),
            next_index_of(t@, c, from as int) == next_index_of(t@, c, k as int),
        decreases t@.len() - k,
    {
        k = k + 1;
    }
    k
}

fn skip_ascii_white_exec(t: &Vec<char>, from: usize) -> (r: usize)
    requires
        from <= t@.len(),
    ensures
        r == skip_ascii_white(t@, from as int),
{
    let mut k = from;
    while k < t.len() && (t[k] == ' ' || t[k] == '\t' || t[k] == '\n' || t[k] == '\u{c}' || t[k]
        == '\r')
        invariant
            from <= k <= t@.len(),
            skip_ascii_white(t@, from as int) == skip_ascii_white(t@, k as int),
        decreases t@.len() - k,
    {
        k = k + 1;
    }
    k
}

fn push_indent(out: &mut Vec<char>, depth: usize)
    ensures
        final(out)@ == old(out)@ + indent(depth as int),
{
    let mut d: usize = 0;
    while d < depth
        invariant
            d <= depth,
            out@ == old(out)@ + indent(d as int),
        decreases depth - d,
    {
        out.push(' ');
        out.push(' ');
        assert(indent(d + 1) == indent(d as int).push(' ').push(' '));
        d = d + 1;
    }
}

fn push_text_separator(out: &mut Vec<char>, depth: usize)
    ensures
        final(out)@ == old(out)@ + text_separator(old(out)@, depth as int),
{
    if out.len() > 0 && out[out.len() - 1] != '\n' {
        out.push('\n');
        push_indent(out, depth);
        assert(old(out)@.push('\n') + indent(depth as int) == old(out)@ + (seq!['\n'] + indent(
            depth as int,
        )));
    } else {
        assert(old(out)@ + seq![] == old(out)@);
    }
}

/// Lays markup out one tag or text run per line, indented two spaces per
/// level of nesting; `None` when the text holds nothing to lay out.
pub fn format_xml_or_html(text: &str) -> (r: Option<String>)
    ensures
        match r {
            Some(s) => xml_format(text@) == Some(s@),
            None => xml_format(text@) is None,
        },
{
    let t = chars_of(text);
    let mut out: Vec<char> = Vec::new();
    let mut depth: usize = 0;
    let mut i: usize = 0;
    while i < t.len()
        invariant_except_break
            i <= t@.len(),
            depth <= i,
            xml_layout(t@, 0, 0, seq![]) == xml_layout(t@, i as int, depth as int, out@),
        ensures
            xml_layout(t@, 0, 0, seq![]) == out@,
        decreases t@.len() - i,
    {
        if t[i] == '<' {
            let j = next_index_of_exec(&t, '>', i + 1);
            proof {
                lemma_next_index_of_bounds(t@, '>', i + 1);
            }
            if j >= t.len() {
                let (a, b) = trim_bounds(&t, i, t.len());
                let ghost old_out = out@;
                if a < b {
                    push_text_separator(&mut out, depth);
                    push_range(&mut out, &t, a, b);
                    assert(out@ == old_out + text_separator(old_out, depth as int) + trim(
                        t@.subrange(i as int, t@.len() as int),
                    ));
                }
                break;
            }
            let ghost tag = t@.subrange(i as int, j + 1);
            let closing = i + 1 < t.len() && t[i + 1] == '/';
            let self_closing = t[j - 1] == '/';
            assert(closing == is_closing_tag(tag)) by {
                if closing {
                    assert(tag.take(2) =~= seq!['<', '/']);
                }
                if is_closing_tag(tag) {
                    assert(tag.take(2)[1] == t@[i + 1]);
                }
            }
            assert(self_closing == is_self_closing_tag(tag)) by {
                if self_closing {
                    assert(tag.skip(tag.len() - 2) =~= seq!['/', '>']);
                }
                if is_self_closing_tag(tag) {
                    assert(tag.skip(tag.len() - 2)[0] == t@[j - 1]);
                }
            }
            let comment = is_comment_like(&t, i, j + 1);
            if closing && depth > 0 {
                depth = depth - 1;
            }
            let ghost before = out@;
            if out.len() > 0 {
                out.push('\n');
            }
            push_indent(&mut out, depth);
            push_range(&mut out, &t, i, j + 1);
            proof {
                let sep = if before.len() > 0 {
                    seq!['\n']
                } else {
                    seq![]
                };
                if before.len() > 0 {
                    assert(before.push('\n') == before + sep);
                } else {
                    assert(before + sep == before);
                }
                assert(out@ == before + sep + indent(depth as int) + tag);
            }
            let k = skip_ascii_white_exec(&t, j + 1);
            let next_is_tag = k < t.len() && t[k] == '<';
            let next_is_closing = next_is_tag && k + 1 < t.len() && t[k + 1] == '/';
            if !closing && !self_closing && !comment && !(next_is_tag && next_is_closing) {
                depth = depth + 1;
            }
            i = j + 1;
        } else if !(t[i] == ' ' || t[i] == '\t' || t[i] == '\n' || t[i] == '\u{c}' || t[i]
            == '\r') {
            let e = next_index_of_exec(&t, '<', i + 1);
            proof {
                lemma_next_index_of_bounds(t@, '<', i + 1);
            }
            let (a, b) = trim_bounds(&t, i, e);
            let ghost old_out = out@;
            if a < b {
                push_text_separator(&mut out, depth);
                push_range(&mut out, &t, a, b);
                assert(out@ == old_out + text_separator(old_out, depth as int) + trim(
                    t@.subrange(i as int, e as int),
                ));
            }
            i = e;
        } else {
            i = i + 1;
        }
    }
    if out.len() > 0 {
        Some(string_of(&out))
    } else {
        None
    }
}

/// Whether `t[lo..hi]` is a comment, processing instruction, doctype or
/// CDATA section.
fn is_comment_like(t: &Vec<char>, lo: usize, hi: usize) -> (r: bool)
    requires
        lo <= hi <= t@.len(),
    ensures
        r == is_comment_like_tag(t@.subrange(lo as int, hi as int)),
{
    let tag = slice_chars(t, lo, hi);
    let a = chars_of("<!--");
    let b = chars_of("<?");
    let c = chars_of("<!DOCTYPE");
    let d = chars_of("<![CDATA[");
    starts_with_chars(&tag, &a) || starts_with_chars(&tag, &b) || starts_with_chars(&tag, &c)
        || starts_with_chars(&tag, &d)
}

fn slice_chars(t: &Vec<char>, lo: usize, hi: usize) -> (r: Vec<char>)
    requires
        lo <= hi <= t@.len(),
    ensures
        r@ == t@.subrange(lo as int, hi as int),
{
    let mut r: Vec<char> = Vec::new();
    push_range(&mut r, t, lo, hi);
    r
}

/// A self-closing tag opens no level of nesting: the layout goes on after
/// it at the depth the tag itself was written at, so the next tag or text
/// lines up with it.
pub proof fn lemma_self_closing_tag_keeps_depth(t: Seq<char>, i: int, depth: int, out: Seq<char>)
    requires
        0 <= i < t.len(),
        t[i] == '<',
        next_index_of(t, '>', i + 1) < t.len(),
        is_self_closing_tag(t.subrange(i, next_index_of(t, '>', i + 1) + 1)),
        !is_closing_tag(t.subrange(i, next_index_of(t, '>', i + 1) + 1)),
    ensures
        ({
            let j = next_index_of(t, '>', i + 1);
            let tag = t.subrange(i, j + 1);
            let line_break = if out.len() > 0 {
                seq!['\n']
            } else {
                seq![]
            };
            xml_layout(t, i, depth, out) == xml_layout(
                t,
                j + 1,
                depth,
                out + line_break + indent(depth) + tag,
            )
        }),
{
}

/// White space between tags is passed over without effect on the layout.
proof fn lemma_white_space_passed_over(t: Seq<char>, from: int, depth: int, out: Seq<char>)
    requires
        0 <= from <= t.len(),
    ensures
        xml_layout(t, from, depth, out) == xml_layout(t, skip_ascii_white(t, from), depth, out),
    decreases t.len() - from,
{
    if from < t.len() && is_ascii_white(t[from]) {
        lemma_white_space_passed_over(t, from + 1, depth, out);
    }
}

/// The tag that follows a self-closing tag (white space aside) is written
/// on the next line, indented exactly as the self-closing tag was: it is a
/// sibling, not a child.
pub proof fn lemma_tag_after_self_closing_tag_is_a_sibling(
    t: Seq<char>,
    i: int,
    depth: int,
    out: Seq<char>,
)
    requires
        0 <= i < t.len(),
        t[i] == '<',
        next_index_of(t, '>', i + 1) < t.len(),
        is_self_closing_tag(t.subrange(i, next_index_of(t, '>', i + 1) + 1)),
        !is_closing_tag(t.subrange(i, next_index_of(t, '>', i + 1) + 1)),
        ({
            let k = skip_ascii_white(t, next_index_of(t, '>', i + 1) + 1);
            &&& k < t.len()
            &&& t[k] == '<'
            &&& next_index_of(t, '>', k + 1) < t.len()
            &&& !is_closing_tag(t.subrange(k, next_index_of(t, '>', k + 1) + 1))
        }),
    ensures
        ({
            let j = next_index_of(t, '>', i + 1);
            let k = skip_ascii_white(t, j + 1);
            let m = next_index_of(t, '>', k + 1);
            let line_break = if out.len() > 0 {
                seq!['\n']
            } else {
                seq![]
            };
            let full = out + line_break + indent(depth) + t.subrange(i, j + 1) + seq!['\n'] + indent(
                depth,
            ) + t.subrange(k, m + 1);
            ||| xml_layout(t, i, depth, out) == xml_layout(t, m + 1, depth, full)
            ||| xml_layout(t, i, depth, out) == xml_layout(t, m + 1, depth + 1, full)
        }),
{
    let j = next_index_of(t, '>', i + 1);
    let line_break = if out.len() > 0 {
        seq!['\n']
    } else {
        seq![]
    };
    let w = out + line_break + indent(depth) + t.subrange(i, j + 1);
    lemma_self_closing_tag_keeps_depth(t, i, depth, out);
    lemma_next_index_of_bounds(t, '>', i + 1);
    lemma_white_space_passed_over(t, j + 1, depth, w);
    let k = skip_ascii_white(t, j + 1);
    lemma_skip_ascii_white_bounds(t, j + 1);
    let m = next_index_of(t, '>', k + 1);
    assert(w.len() > 0);
    let tag2 = t.subrange(k, m + 1);
    let k2 = skip_ascii_white(t, m + 1);
    let next_is_tag = k2 < t.len() && t[k2] == '<';
    let next_is_closing = next_is_tag && k2 + 1 < t.len() && t[k2 + 1] == '/';
    let opens = !is_self_closing_tag(tag2) && !is_comment_like_tag(tag2) && !(next_is_tag
        && next_is_closing);
    let d = if opens {
        depth + 1
    } else {
        depth
    };
    assert(xml_layout(t, k, depth, w) == xml_layout(t, m + 1, d, w + seq!['\n'] + indent(depth)
        + tag2));
    let full = out + line_break + indent(depth) + t.subrange(i, j + 1) + seq!['\n'] + indent(depth)
        + t.subrange(k, m + 1);
    assert(w + seq!['\n'] + indent(depth) + tag2 =~= full);
    assert(xml_layout(t, i, depth, out) == xml_layout(t, m + 1, d, full));
}

} // verus!
