//! A single-line text field edited character by character: a cursor, an
//! optional selection, an undo history whose quick successive edits are
//! grouped into one step, and the highlighting of `{{variable}}` spans.
//!
//! Positions (cursor, selection) count characters; the spans of
//! highlighted segments count bytes, as the pattern matcher reports them.
use vstd::prelude::*;
use std::time::Instant;
use crate::clock::{instant_now, millis_between};
use crate::pattern::{
    as_char_spans, char_spans, compile_pattern, find_spans, ordered_spans, pattern_spans,
    regex_compiles, well_placed_spans,
};
use crate::text::{byte_len, byte_offsets, chars_of, push_all, push_range, string_of, string_of_range};

verus! {

/// One state of the field: its text, cursor and selection, and when it was
/// recorded.
#[derive(Debug, Clone)]
pub struct HistoryEntry {
    pub value: String,
    pub cursor_position: usize,
    pub selection: Option<(usize, usize)>,
    pub timestamp: Instant,
}

impl HistoryEntry {
    /// An entry for the given state, recorded now.
    pub fn new(value: String, cursor_position: usize, selection: Option<(usize, usize)>) -> (r: Self)
        ensures
            r.value == value,
            r.cursor_position == cursor_position,
            r.selection == selection,
    {
        let timestamp = instant_now();
        Self { value, cursor_position, selection, timestamp }
    }
}

/// What a history entry records.
pub open spec fn snapshot(e: HistoryEntry) -> (Seq<char>, usize, Option<(usize, usize)>, Instant) {
    (e.value@, e.cursor_position, e.selection, e.timestamp)
}

/// A stretch of the text, highlighted as a variable or not.
#[derive(Debug, Clone)]
pub struct TextSegment {
    pub text: String,
    pub segment_type: SegmentType,
    pub start_index: usize,
    pub end_index: usize,
}

/// How a segment is highlighted.
#[derive(Debug, Clone, Copy, PartialEq, Eq, Structural)]
pub enum SegmentType {
    Normal,
    Variable,
}

/// The pieces of highlighting up to and including the last of `spans`,
/// as character ranges `(lo, hi, is_variable)`: before each span the
/// plain text since the previous span (when there is any), then the span.
pub open spec fn pieces_upto(spans: Seq<(int, int)>) -> Seq<(int, int, bool)>
    decreases spans.len(),
{
    if spans.len() == 0 {
        Seq::empty()
    } else {
        let prev = spans.drop_last();
        let s = spans.last();
        let last = span_end(prev);
        let plain = if s.0 > last {
            seq![(last, s.0, false)]
        } else {
            Seq::empty()
        };
        pieces_upto(prev) + plain + seq![(s.0, s.1, true)]
    }
}

/// Where the last of `spans` ends (0 when there is none).
pub open spec fn span_end(spans: Seq<(int, int)>) -> int {
    if spans.len() == 0 {
        0
    } else {
        spans.last().1
    }
}

/// The highlighting of a text of `n` characters whose variables are at the
/// character ranges `spans`: the pieces up to the last span, then the rest
/// of the text as plain text; a single empty plain piece when that leaves
/// nothing.
pub open spec fn highlight_pieces(n: int, spans: Seq<(int, int)>) -> Seq<(int, int, bool)> {
    let last = span_end(spans);
    let tail = if last < n {
        seq![(last, n, false)]
    } else {
        Seq::empty()
    };
    let p = pieces_upto(spans) + tail;
    if p.len() == 0 {
        seq![(0int, 0int, false)]
    } else {
        p
    }
}

/// `seg` is the piece `p` of text `t`: its characters, its kind, and the
/// byte offsets where it starts and ends.
pub open spec fn segment_is(t: Seq<char>, seg: TextSegment, p: (int, int, bool)) -> bool {
    &&& seg.text@ == t.subrange(p.0, p.1)
    &&& seg.segment_type == (if p.2 {
        SegmentType::Variable
    } else {
        SegmentType::Normal
    })
    &&& seg.start_index == byte_len(t.take(p.0))
    &&& seg.end_index == byte_len(t.take(p.1))
}

/// `segs` are the pieces `ps` of text `t`, in order.
pub open spec fn segments_are(t: Seq<char>, segs: Seq<TextSegment>, ps: Seq<(int, int, bool)>) -> bool {
    &&& segs.len() == ps.len()
    &&& forall|i: int| 0 <= i < ps.len() ==> segment_is(t, #[trigger] segs[i], ps[i])
}

proof fn lemma_pieces_upto_in_range(n: int, spans: Seq<(int, int)>)
    requires
        0 <= n,
        ordered_spans(n, spans),
    ensures
        0 <= span_end(spans) <= n,
        forall|i: int|
            0 <= i < pieces_upto(spans).len() ==> 0 <= (#[trigger] pieces_upto(spans)[i]).0
                <= pieces_upto(spans)[i].1 <= span_end(spans),
    decreases spans.len(),
{
    if spans.len() > 0 {
        let prev = spans.drop_last();
        let s = spans.last();
        assert(ordered_spans(n, prev));
        lemma_pieces_upto_in_range(n, prev);
        assert(s == spans[spans.len() - 1]);
        assert(0 <= s.0 <= s.1 <= n);
        let last = span_end(prev);
        if prev.len() > 0 {
            assert(prev.last() == spans[prev.len() - 1]);
            assert(spans[prev.len() - 1].1 <= spans[spans.len() - 1].0);
        }
        assert(last <= s.0);
        let a = pieces_upto(prev);
        let plain = if s.0 > last {
            seq![(last, s.0, false)]
        } else {
            Seq::empty()
        };
        let all = a + plain + seq![(s.0, s.1, true)];
        assert(pieces_upto(spans) == all);
        assert forall|i: int| 0 <= i < all.len() implies 0 <= (#[trigger] all[i]).0 <= all[i].1 <= s.1 by {
            if i < a.len() {
                assert(all[i] == a[i]);
            } else if i < a.len() + plain.len() {
                assert(all[i] == plain[i - a.len()]);
            } else {
                assert(all[i] == (s.0, s.1, true));
            }
        }
    }
}

/// A segment holding characters `lo..hi` of `t`.
fn make_segment(
    t: &Vec<char>,
    offsets: &Vec<usize>,
    lo: usize,
    hi: usize,
    is_variable: bool,
) -> (seg: TextSegment)
    requires
        lo <= hi <= t@.len(),
        offsets@.len() == t@.len() + 1,
        forall|i: int| 0 <= i <= t@.len() ==> #[trigger] offsets@[i] == byte_len(t@.take(i)),
    ensures
        segment_is(t@, seg, (lo as int, hi as int, is_variable)),
{
    TextSegment {
        text: string_of_range(t, lo, hi),
        segment_type: if is_variable {
            SegmentType::Variable
        } else {
            SegmentType::Normal
        },
        start_index: offsets[lo],
        end_index: offsets[hi],
    }
}

/// The segments of `text` whose variables are at the byte spans `spans`
/// (as a pattern search reports them): `highlight_pieces` of the same spans
/// counted in characters.
pub fn highlight_segments(text: &str, spans: &[(usize, usize)]) -> (r: Vec<TextSegment>)
    requires
        well_placed_spans(text@, spans@),
    ensures
        segments_are(
            text@,
            r@,
            highlight_pieces(text@.len() as int, as_char_spans(text@, spans@)),
        ),
{
    let cs = char_spans(text, spans);
    let ghost cspans = as_char_spans(text@, spans@);
    let t = chars_of(text);
    let total = text.as_bytes().len();
    assert(total == byte_len(t@));
    let offsets = byte_offsets(&t);
    let n = t.len();
    let mut r: Vec<TextSegment> = Vec::new();
    let mut last: usize = 0;
    let mut i: usize = 0;
    while i < cs.len()
        invariant
            t@ == text@,
            n == t@.len(),
            offsets@.len() == t@.len() + 1,
            forall|j: int| 0 <= j <= t@.len() ==> #[trigger] offsets@[j] == byte_len(t@.take(j)),
            cs@.len() == cspans.len(),
            forall|j: int| 0 <= j < cs@.len() ==> (#[trigger] cs@[j]).0 == cspans[j].0 && cs@[j].1 == cspans[j].1,
            ordered_spans(n as int, cspans),
            i <= cs@.len(),
            last as int == span_end(cspans.take(i as int)),
            segments_are(t@, r@, pieces_upto(cspans.take(i as int))),
        decreases cs@.len() - i,
    {
        let (s, e) = cs[i];
        proof {
            let pre = cspans.take(i as int);
            let next = cspans.take(i + 1);
            assert(next.drop_last() =~= pre);
            assert(next.last() == cspans[i as int]);
            assert(ordered_spans(n as int, pre));
            lemma_pieces_upto_in_range(n as int, pre);
            if i > 0 {
                assert(pre.last() == cspans[i - 1]);
                assert(cspans[i - 1].1 <= cspans[i as int].0);
            }
            assert(0 <= cspans[i as int].0 <= cspans[i as int].1 <= n);
        }
        let ghost before = r@;
        if s > last {
            let seg = make_segment(&t, &offsets, last, s, false);
            r.push(seg);
        }
        let seg = make_segment(&t, &offsets, s, e, true);
        r.push(seg);
        proof {
            let pre = cspans.take(i as int);
            let next = cspans.take(i + 1);
            let plain = if s > last {
                seq![(last as int, s as int, false)]
            } else {
                Seq::empty()
            };
            assert(pieces_upto(next) == pieces_upto(pre) + plain + seq![(s as int, e as int, true)]);
            assert(segments_are(t@, r@, pieces_upto(next)));
        }
        last = e;
        i = i + 1;
    }
    proof {
        assert(cspans.take(cs@.len() as int) =~= cspans);
        lemma_pieces_upto_in_range(n as int, cspans);
    }
    let ghost upto = r@;
    if last < n {
        let seg = make_segment(&t, &offsets, last, n, false);
        r.push(seg);
    }
    assert(segments_are(t@, r@, pieces_upto(cspans) + (if last < n {
        seq![(last as int, n as int, false)]
    } else {
        Seq::empty()
    })));
    if r.len() == 0 {
        proof {
            assert(vstd::utf8::encode_utf8(Seq::<char>::empty()) == Seq::<u8>::empty());
            assert(t@.take(0) =~= Seq::<char>::empty());
            assert(t@.subrange(0, 0) =~= Seq::<char>::empty());
        }
        r.push(TextSegment {
            text: String::new(),
            segment_type: SegmentType::Normal,
            start_index: 0,
            end_index: 0,
        });
    }
    r
}

/// The highlighting settings the field's logic reads: whether variables are
/// highlighted, the regular expression that finds them, and whether
/// hovering one shows it in a tooltip.
#[derive(Debug, Clone)]
pub struct SyntaxHighlighting {
    pub enabled: bool,
    pub variable_pattern: String,
    pub tooltip_enabled: bool,
}

/// The pattern variables are found by: `{{`, one or more characters other
/// than `}`, then `}}`.
pub open spec fn default_variable_pattern() -> Seq<char> {
    "\\{\\{[^}]+\\}\\}"@
}

/// A text field with a cursor, a selection, undo and redo, and highlighted
/// variables.
#[derive(Debug, Clone)]
pub struct CustomTextInput {
    pub value: String,
    pub placeholder: String,
    pub is_focused: bool,
    pub cursor_position: usize,
    pub selection: Option<(usize, usize)>,
    pub is_secure: bool,
    pub cursor_blink_visible: bool,
    pub last_blink_toggle: Instant,
    pub history: Vec<HistoryEntry>,
    pub history_index: usize,
    pub max_history: usize,
    pub grouping_threshold_ms: u64,
    pub syntax_highlighting: SyntaxHighlighting,
    pub tooltip_visible: bool,
    pub tooltip_text: String,
}

/// The history after recording `snap` when `elapsed` milliseconds have
/// passed since the entry at the current position was recorded: when that is
/// under the grouping threshold and the position is the last entry, that
/// entry is replaced; otherwise the entries after the position are dropped,
/// `snap` is added, and the oldest entry goes once there are more than
/// `max`. The position ends on `snap`.
pub open spec fn history_after_push(
    h: Seq<(Seq<char>, usize, Option<(usize, usize)>, Instant)>,
    index: int,
    threshold: u64,
    max: usize,
    elapsed: u64,
    snap: (Seq<char>, usize, Option<(usize, usize)>, Instant),
) -> (Seq<(Seq<char>, usize, Option<(usize, usize)>, Instant)>, int) {
    if elapsed < threshold && index == h.len() - 1 {
        (h.update(index, snap), index)
    } else {
        let kept = if index < h.len() - 1 {
            h.take(index + 1)
        } else {
            h
        };
        let grown = kept.push(snap);
        if grown.len() > max {
            (grown.drop_first(), grown.len() - 2)
        } else {
            (grown, grown.len() - 1)
        }
    }
}

impl CustomTextInput {
    /// The history is never empty, its position points into it, and it may
    /// hold at least one entry.
    pub open spec fn wf(&self) -> bool {
        &&& self.history@.len() >= 1
        &&& self.history_index < self.history@.len()
        &&& self.max_history >= 1
    }

    /// What the history records, oldest first.
    pub open spec fn entries(&self) -> Seq<(Seq<char>, usize, Option<(usize, usize)>, Instant)> {
        self.history@.map_values(|e: HistoryEntry| snapshot(e))
    }

    /// The state of a new field, whatever its placeholder: empty, unfocused,
    /// cursor at 0 and nothing selected, a history of that one state (100
    /// steps kept, edits within 500 ms grouped), variables highlighted by the
    /// default pattern, tooltips on and hidden.
    pub open spec fn is_fresh(&self) -> bool {
        &&& self.wf()
        &&& self.value@ == Seq::<char>::empty()
        &&& !self.is_focused
        &&& self.cursor_position == 0
        &&& self.selection is None
        &&& !self.is_secure
        &&& self.cursor_blink_visible
        &&& self.history@.len() == 1
        &&& self.history@[0].value@ == Seq::<char>::empty()
        &&& self.history@[0].cursor_position == 0
        &&& self.history@[0].selection is None
        &&& self.history_index == 0
        &&& self.max_history == 100
        &&& self.grouping_threshold_ms == 500
        &&& self.syntax_highlighting.enabled
        &&& self.syntax_highlighting.variable_pattern@ == default_variable_pattern()
        &&& self.syntax_highlighting.tooltip_enabled
        &&& !self.tooltip_visible
        &&& self.tooltip_text@ == Seq::<char>::empty()
    }

    /// Where an edit applies: the selection, first end first, or else the
    /// empty range at the cursor; an edit panics unless it lies in the text.
    pub open spec fn edit_in_bounds(&self) -> bool {
        match self.selection {
            Some((s, e)) => s <= self.value@.len() && e <= self.value@.len(),
            None => self.cursor_position <= self.value@.len(),
        }
    }
}

impl Default for CustomTextInput {
    fn default() -> (r: Self)
        ensures
            r.is_fresh(),
            r.placeholder@ == Seq::<char>::empty(),
    {
        let initial = HistoryEntry::new(String::new(), 0, None);
        let mut history: Vec<HistoryEntry> = Vec::new();
        history.push(initial);
        CustomTextInput {
            value: String::new(),
            placeholder: String::new(),
            is_focused: false,
            cursor_position: 0,
            selection: None,
            is_secure: false,
            cursor_blink_visible: true,
            last_blink_toggle: instant_now(),
            history,
            history_index: 0,
            max_history: 100,
            grouping_threshold_ms: 500,
            syntax_highlighting: SyntaxHighlighting {
                enabled: true,
                variable_pattern: "\\{\\{[^}]+\\}\\}".to_owned(),
                tooltip_enabled: true,
            },
            tooltip_visible: false,
            tooltip_text: String::new(),
        }
    }
}

impl CustomTextInput {
    /// A new, empty field showing `placeholder`.
    pub fn new(placeholder: String) -> (r: Self)
        ensures
            r.is_fresh(),
            r.placeholder == placeholder,
    {
        let mut r = Self::default();
        r.placeholder = placeholder;
        r
    }

    /// The field holding `value`; nothing else changes.
    pub fn with_value(self, value: String) -> (r: Self)
        ensures
            r == (CustomTextInput { value: value, ..self }),
    {
        let mut r = self;
        r.value = value;
        r
    }

    /// The field showing dots in place of its characters.
    pub fn password(self) -> (r: Self)
        ensures
            r == (CustomTextInput { is_secure: true, ..self }),
    {
        let mut r = self;
        r.is_secure = true;
        r
    }

    /// The field with variable highlighting switched on or off.
    pub fn with_syntax_highlighting(self, enabled: bool) -> (r: Self)
        ensures
            r == (CustomTextInput {
                syntax_highlighting: SyntaxHighlighting { enabled: enabled, ..self.syntax_highlighting },
                ..self
            }),
    {
        let mut r = self;
        r.syntax_highlighting.enabled = enabled;
        r
    }

    /// The field finding variables by `pattern`.
    pub fn with_variable_pattern(self, pattern: String) -> (r: Self)
        ensures
            r == (CustomTextInput {
                syntax_highlighting: SyntaxHighlighting {
                    variable_pattern: pattern,
                    ..self.syntax_highlighting
                },
                ..self
            }),
    {
        let mut r = self;
        r.syntax_highlighting.variable_pattern = pattern;
        r
    }

    /// The field with variable tooltips switched on or off.
    pub fn with_tooltip_enabled(self, enabled: bool) -> (r: Self)
        ensures
            r == (CustomTextInput {
                syntax_highlighting: SyntaxHighlighting {
                    tooltip_enabled: enabled,
                    ..self.syntax_highlighting
                },
                ..self
            }),
    {
        let mut r = self;
        r.syntax_highlighting.tooltip_enabled = enabled;
        r
    }

    /// The current text.
    pub fn value(&self) -> (r: &str)
        ensures
            r@ == self.value@,
    {
        self.value.as_str()
    }

    /// Records the current cursor and selection with `value` in the history
    /// at `now`, `elapsed_ms` milliseconds after the entry at the current
    /// position was recorded (see `history_after_push`).
    pub fn push_to_history_after(&mut self, value: String, now: Instant, elapsed_ms: u64)
        requires
            old(self).history@.len() >= 1,
        ensures
            old(self).wf() ==> final(self).wf(),
            final(self).history_index < final(self).history@.len(),
            (final(self).entries(), final(self).history_index as int) == history_after_push(
                old(self).entries(),
                old(self).history_index as int,
                old(self).grouping_threshold_ms,
                old(self).max_history,
                elapsed_ms,
                (value@, old(self).cursor_position, old(self).selection, now),
            ),
            *final(self) == (CustomTextInput {
                history: final(self).history,
                history_index: final(self).history_index,
                ..*old(self)
            }),
    {
        let ghost h0 = self.entries();
        let ghost snap = (value@, self.cursor_position, self.selection, now);
        let entry = HistoryEntry {
            value,
            cursor_position: self.cursor_position,
            selection: self.selection,
            timestamp: now,
        };
        assert(snapshot(entry) == snap);
        if elapsed_ms < self.grouping_threshold_ms && self.history_index == self.history.len() - 1 {
            let idx = self.history_index;
            self.history.set(idx, entry);
            assert(self.entries() =~= h0.update(idx as int, snap));
            return;
        }
        if self.history_index < self.history.len() - 1 {
            self.history.truncate(self.history_index + 1);
        }
        let ghost kept = self.entries();
        assert(kept =~= if old(self).history_index < h0.len() - 1 {
            h0.take(old(self).history_index + 1)
        } else {
            h0
        });
        self.history.push(entry);
        self.history_index = self.history.len() - 1;
        assert(self.entries() =~= kept.push(snap));
        if self.history.len() > self.max_history {
            let ghost grown = self.entries();
            self.history.remove(0);
            self.history_index = self.history.len() - 1;
            assert(self.entries() =~= grown.drop_first());
        }
    }

    /// Records `value`, with the current cursor and selection, in the
    /// history now (see `push_to_history_after`).
    pub fn push_to_history(&mut self, value: String)
        requires
            old(self).history@.len() >= 1,
        ensures
            old(self).wf() ==> final(self).wf(),
            final(self).history_index < final(self).history@.len(),
            exists|now: Instant, elapsed: u64|
                (final(self).entries(), final(self).history_index as int) == history_after_push(
                    old(self).entries(),
                    old(self).history_index as int,
                    old(self).grouping_threshold_ms,
                    old(self).max_history,
                    elapsed,
                    (value@, old(self).cursor_position, old(self).selection, now),
                ),
            *final(self) == (CustomTextInput {
                history: final(self).history,
                history_index: final(self).history_index,
                ..*old(self)
            }),
    {
        let now = instant_now();
        let elapsed = if self.history_index < self.history.len() {
            millis_between(&now, &self.history[self.history_index].timestamp)
        } else {
            u64::MAX
        };
        self.push_to_history_after(value, now, elapsed);
    }
}

/// The smaller of `a` and `b`.
pub open spec fn min_usize(a: usize, b: usize) -> usize {
    if a <= b {
        a
    } else {
        b
    }
}

impl CustomTextInput {
    /// The field after a step back in the history: the position moves one
    /// step back and the text, cursor and selection become that step's, with
    /// the cursor shown; at the first step nothing changes.
    pub open spec fn after_undo(self) -> Self {
        if self.history_index > 0 {
            let e = self.history@[self.history_index - 1];
            CustomTextInput {
                history_index: (self.history_index - 1) as usize,
                value: e.value,
                cursor_position: e.cursor_position,
                selection: e.selection,
                cursor_blink_visible: true,
                ..self
            }
        } else {
            self
        }
    }

    /// The field after a step forward in the history (as `after_undo`, the
    /// other way); at the last step nothing changes.
    pub open spec fn after_redo(self) -> Self {
        if self.history_index + 1 < self.history@.len() {
            let e = self.history@[self.history_index + 1];
            CustomTextInput {
                history_index: (self.history_index + 1) as usize,
                value: e.value,
                cursor_position: e.cursor_position,
                selection: e.selection,
                cursor_blink_visible: true,
                ..self
            }
        } else {
            self
        }
    }

    /// Sets the text; a changed text is first recorded in the history with
    /// the cursor and selection as they were. The cursor is pulled back to
    /// the end of the text when it lies beyond.
    pub fn set_value(&mut self, value: String)
        requires
            old(self).history@.len() >= 1,
        ensures
            old(self).wf() ==> final(self).wf(),
            *final(self) == (CustomTextInput {
                value: value,
                cursor_position: min_usize(old(self).cursor_position, value@.len() as usize),
                history: final(self).history,
                history_index: final(self).history_index,
                ..*old(self)
            }),
            old(self).value@ == value@ ==> final(self).history == old(self).history
                && final(self).history_index == old(self).history_index,
            old(self).value@ != value@ ==> exists|now: Instant, elapsed: u64|
                (final(self).entries(), final(self).history_index as int) == history_after_push(
                    old(self).entries(),
                    old(self).history_index as int,
                    old(self).grouping_threshold_ms,
                    old(self).max_history,
                    elapsed,
                    (value@, old(self).cursor_position, old(self).selection, now),
                ),
    {
        if !(value == self.value) {
            self.push_to_history(value.clone());
        }
        self.set_value_without_history(value);
    }

    /// Sets the text, leaving the history alone; the cursor is pulled back
    /// to the end of the text when it lies beyond.
    pub fn set_value_without_history(&mut self, value: String)
        ensures
            *final(self) == (CustomTextInput {
                value: value,
                cursor_position: min_usize(old(self).cursor_position, value@.len() as usize),
                ..*old(self)
            }),
    {
        self.value = value;
        let count = self.value.as_str().unicode_len();
        if self.cursor_position > count {
            self.cursor_position = count;
        }
    }

    /// Focuses the field and shows the cursor, restarting its blink.
    pub fn focus(&mut self)
        ensures
            *final(self) == (CustomTextInput {
                is_focused: true,
                cursor_blink_visible: true,
                last_blink_toggle: final(self).last_blink_toggle,
                ..*old(self)
            }),
    {
        self.is_focused = true;
        self.cursor_blink_visible = true;
        self.last_blink_toggle = instant_now();
    }

    /// Unfocuses the field and drops the selection.
    pub fn unfocus(&mut self)
        ensures
            *final(self) == (CustomTextInput { is_focused: false, selection: None, ..*old(self) }),
    {
        self.is_focused = false;
        self.selection = None;
    }

    /// Puts the cursor at `position`, or at the end of the text when that
    /// lies beyond; drops the selection and shows the cursor.
    pub fn move_cursor_to(&mut self, position: usize)
        ensures
            *final(self) == (CustomTextInput {
                cursor_position: min_usize(position, old(self).value@.len() as usize),
                selection: None,
                cursor_blink_visible: true,
                last_blink_toggle: final(self).last_blink_toggle,
                ..*old(self)
            }),
    {
        let count = self.value.as_str().unicode_len();
        self.cursor_position = if position <= count {
            position
        } else {
            count
        };
        self.selection = None;
        self.cursor_blink_visible = true;
        self.last_blink_toggle = instant_now();
    }

    /// Puts the cursor before the first character.
    pub fn move_cursor_to_front(&mut self)
        ensures
            *final(self) == (CustomTextInput {
                cursor_position: 0,
                selection: None,
                cursor_blink_visible: true,
                last_blink_toggle: final(self).last_blink_toggle,
                ..*old(self)
            }),
    {
        self.move_cursor_to(0);
    }

    /// Puts the cursor after the last character.
    pub fn move_cursor_to_end(&mut self)
        ensures
            *final(self) == (CustomTextInput {
                cursor_position: old(self).value@.len() as usize,
                selection: None,
                cursor_blink_visible: true,
                last_blink_toggle: final(self).last_blink_toggle,
                ..*old(self)
            }),
    {
        let count = self.value.as_str().unicode_len();
        self.move_cursor_to(count);
    }

    /// Selects the whole text, with the cursor at its end; an empty text
    /// leaves the field as it is.
    pub fn select_all(&mut self)
        ensures
            old(self).value@.len() > 0 ==> *final(self) == (CustomTextInput {
                selection: Some((0, old(self).value@.len() as usize)),
                cursor_position: old(self).value@.len() as usize,
                ..*old(self)
            }),
            old(self).value@.len() == 0 ==> *final(self) == *old(self),
    {
        let count = self.value.as_str().unicode_len();
        if count > 0 {
            self.selection = Some((0, count));
            self.cursor_position = count;
        }
    }

    /// Toggles the cursor's visibility when the field is focused and at
    /// least 500 ms (`elapsed_ms`) have passed since the last toggle, which
    /// then is `now`.
    pub fn update_cursor_blink_after(&mut self, now: Instant, elapsed_ms: u64)
        ensures
            old(self).is_focused && elapsed_ms >= 500 ==> *final(self) == (CustomTextInput {
                cursor_blink_visible: !old(self).cursor_blink_visible,
                last_blink_toggle: now,
                ..*old(self)
            }),
            !(old(self).is_focused && elapsed_ms >= 500) ==> *final(self) == *old(self),
    {
        if self.is_focused && elapsed_ms >= 500 {
            self.cursor_blink_visible = !self.cursor_blink_visible;
            self.last_blink_toggle = now;
        }
    }

    /// Toggles the cursor's visibility when the field is focused and half a
    /// second has passed since the last toggle (see
    /// `update_cursor_blink_after`).
    pub fn update_cursor_blink(&mut self)
        ensures
            *final(self) == *old(self) || (old(self).is_focused && *final(self) == (
            CustomTextInput {
                cursor_blink_visible: !old(self).cursor_blink_visible,
                last_blink_toggle: final(self).last_blink_toggle,
                ..*old(self)
            })),
            !old(self).is_focused ==> *final(self) == *old(self),
    {
        if self.is_focused {
            let now = instant_now();
            let elapsed = millis_between(&now, &self.last_blink_toggle);
            self.update_cursor_blink_after(now, elapsed);
        }
    }

    /// Steps back in the history, restoring that step's text, cursor and
    /// selection; false, with nothing changed, at the first step. A
    /// position that stood past the last step but one moves back without
    /// restoring anything, and the answer is false.
    pub fn undo(&mut self) -> (r: bool)
        ensures
            old(self).wf() ==> final(self).wf(),
            r == (old(self).history_index > 0 && old(self).history_index <= old(self).history@.len()),
            r ==> *final(self) == (CustomTextInput {
                last_blink_toggle: final(self).last_blink_toggle,
                ..old(self).after_undo()
            }),
            old(self).history_index > old(self).history@.len() ==> *final(self) == (CustomTextInput {
                history_index: (old(self).history_index - 1) as usize,
                ..*old(self)
            }),
            old(self).history_index == 0 ==> *final(self) == *old(self),
    {
        if self.history_index > 0 {
            self.history_index = self.history_index - 1;
            if self.history_index < self.history.len() {
                let value = self.history[self.history_index].value.clone();
                let cursor = self.history[self.history_index].cursor_position;
                let selection = self.history[self.history_index].selection;
                self.set_value_without_history(value);
                self.cursor_position = cursor;
                self.selection = selection;
                self.cursor_blink_visible = true;
                self.last_blink_toggle = instant_now();
                return true;
            }
        }
        false
    }

    /// Steps forward in the history, restoring that step's text, cursor and
    /// selection; false, with nothing changed, at the last step or past
    /// it. The history must hold a step (the last position is computed
    /// from it).
    pub fn redo(&mut self) -> (r: bool)
        requires
            old(self).history@.len() >= 1,
        ensures
            old(self).wf() ==> final(self).wf(),
            r == (old(self).history_index + 1 < old(self).history@.len()),
            r ==> *final(self) == (CustomTextInput {
                last_blink_toggle: final(self).last_blink_toggle,
                ..old(self).after_redo()
            }),
            !r ==> *final(self) == *old(self),
    {
        if self.history_index < self.history.len() - 1 {
            self.history_index = self.history_index + 1;
            let value = self.history[self.history_index].value.clone();
            let cursor = self.history[self.history_index].cursor_position;
            let selection = self.history[self.history_index].selection;
            self.set_value_without_history(value);
            self.cursor_position = cursor;
            self.selection = selection;
            self.cursor_blink_visible = true;
            self.last_blink_toggle = instant_now();
            true
        } else {
            false
        }
    }

    /// Whether a step back is possible.
    pub fn can_undo(&self) -> (r: bool)
        ensures
            r == (self.history_index > 0),
    {
        self.history_index > 0
    }

    /// Whether a step forward is possible.
    pub fn can_redo(&self) -> (r: bool)
        requires
            self.history@.len() >= 1,
        ensures
            r == (self.history_index + 1 < self.history@.len()),
    {
        self.history_index < self.history.len() - 1
    }

    /// Moves the cursor one character back, dropping the selection and
    /// showing the cursor; at the start nothing changes.
    pub fn move_cursor_left(&mut self)
        ensures
            old(self).cursor_position > 0 ==> *final(self) == (CustomTextInput {
                cursor_position: (old(self).cursor_position - 1) as usize,
                selection: None,
                cursor_blink_visible: true,
                last_blink_toggle: final(self).last_blink_toggle,
                ..*old(self)
            }),
            old(self).cursor_position == 0 ==> *final(self) == *old(self),
    {
        if self.cursor_position > 0 {
            self.cursor_position = self.cursor_position - 1;
            self.selection = None;
            self.cursor_blink_visible = true;
            self.last_blink_toggle = instant_now();
        }
    }

    /// Moves the cursor one character on, dropping the selection and
    /// showing the cursor; at the end of the text nothing changes.
    pub fn move_cursor_right(&mut self)
        ensures
            old(self).cursor_position < old(self).value@.len() ==> *final(self) == (
            CustomTextInput {
                cursor_position: (old(self).cursor_position + 1) as usize,
                selection: None,
                cursor_blink_visible: true,
                last_blink_toggle: final(self).last_blink_toggle,
                ..*old(self)
            }),
            old(self).cursor_position >= old(self).value@.len() ==> *final(self) == *old(self),
    {
        let count = self.value.as_str().unicode_len();
        if self.cursor_position < count {
            self.cursor_position = self.cursor_position + 1;
            self.selection = None;
            self.cursor_blink_visible = true;
            self.last_blink_toggle = instant_now();
        }
    }

    /// Shows `text` in the tooltip.
    pub fn show_tooltip(&mut self, text: String)
        ensures
            *final(self) == (CustomTextInput { tooltip_visible: true, tooltip_text: text, ..*old(self) }),
    {
        self.tooltip_visible = true;
        self.tooltip_text = text;
    }

    /// Hides the tooltip and empties its text.
    pub fn hide_tooltip(&mut self)
        ensures
            *final(self) == (CustomTextInput {
                tooltip_visible: false,
                tooltip_text: final(self).tooltip_text,
                ..*old(self)
            }),
            final(self).tooltip_text@ == Seq::<char>::empty(),
    {
        self.tooltip_visible = false;
        self.tooltip_text = String::new();
    }
}

/// The characters an edit replaces: the selection, first end first, or
/// else the empty range at the cursor.
pub open spec fn edit_range(cursor: usize, selection: Option<(usize, usize)>) -> (int, int) {
    match selection {
        Some((s, e)) => if s <= e {
            (s as int, e as int)
        } else {
            (e as int, s as int)
        },
        None => (cursor as int, cursor as int),
    }
}

/// Text and cursor after typing `ins` into `t`: `ins` replaces the edit
/// range and the cursor follows it.
pub open spec fn inserted(
    t: Seq<char>,
    cursor: usize,
    selection: Option<(usize, usize)>,
    ins: Seq<char>,
) -> (Seq<char>, int) {
    let (lo, hi) = edit_range(cursor, selection);
    (t.take(lo) + ins + t.skip(hi), lo + ins.len())
}

/// Text and cursor after a backspace: a selection is removed and the
/// cursor goes to where it began; otherwise the character before the cursor
/// is removed, if there is one.
pub open spec fn deleted_before(t: Seq<char>, cursor: usize, selection: Option<(usize, usize)>) -> (
    Seq<char>,
    int,
) {
    match selection {
        Some(_) => {
            let (lo, hi) = edit_range(cursor, selection);
            (t.take(lo) + t.skip(hi), lo)
        },
        None => if cursor > 0 {
            (t.take(cursor - 1) + t.skip(cursor as int), cursor - 1)
        } else {
            (t, cursor as int)
        },
    }
}

/// Text and cursor after a forward delete: a selection is removed and the
/// cursor goes to where it began; otherwise the character after the cursor
/// is removed, if there is one.
pub open spec fn deleted_after(t: Seq<char>, cursor: usize, selection: Option<(usize, usize)>) -> (
    Seq<char>,
    int,
) {
    match selection {
        Some(_) => {
            let (lo, hi) = edit_range(cursor, selection);
            (t.take(lo) + t.skip(hi), lo)
        },
        None => if cursor < t.len() {
            (t.take(cursor as int) + t.skip(cursor + 1), cursor as int)
        } else {
            (t, cursor as int)
        },
    }
}

/// `t` without characters `lo..hi`.
fn without_range(t: &Vec<char>, lo: usize, hi: usize) -> (r: String)
    requires
        lo <= hi <= t@.len(),
    ensures
        r@ == t@.take(lo as int) + t@.skip(hi as int),
{
    let mut out: Vec<char> = Vec::new();
    push_range(&mut out, t, 0, lo);
    push_range(&mut out, t, hi, t.len());
    assert(t@.subrange(0, lo as int) =~= t@.take(lo as int));
    assert(t@.subrange(hi as int, t@.len() as int) =~= t@.skip(hi as int));
    string_of(out.as_slice())
}

impl CustomTextInput {
    /// Types `text` at the cursor, replacing the selection if there is one
    /// (see `inserted`); the selection is dropped and the new text, with the
    /// new cursor, is recorded in the history. Returns the new text.
    pub fn insert_text(&mut self, text: &str) -> (r: String)
        requires
            old(self).history@.len() >= 1,
            old(self).edit_in_bounds(),
        ensures
            old(self).wf() ==> final(self).wf(),
            final(self).history_index < final(self).history@.len(),
            final(self).edit_in_bounds(),
            ({
                let (t2, c2) = inserted(
                    old(self).value@,
                    old(self).cursor_position,
                    old(self).selection,
                    text@,
                );
                &&& r@ == t2
                &&& final(self).value@ == t2
                &&& final(self).cursor_position == c2
                &&& exists|now: Instant, elapsed: u64|
                    (final(self).entries(), final(self).history_index as int)
                        == #[trigger] history_after_push(
                        old(self).entries(),
                        old(self).history_index as int,
                        old(self).grouping_threshold_ms,
                        old(self).max_history,
                        elapsed,
                        (t2, c2 as usize, None, now),
                    )
            }),
            *final(self) == (CustomTextInput {
                value: final(self).value,
                cursor_position: final(self).cursor_position,
                selection: None,
                history: final(self).history,
                history_index: final(self).history_index,
                ..*old(self)
            }),
    {
        let chars = chars_of(self.value.as_str());
        let ins = chars_of(text);
        let (lo, hi) = match self.selection {
            Some((s, e)) => if s <= e {
                (s, e)
            } else {
                (e, s)
            },
            None => (self.cursor_position, self.cursor_position),
        };
        let mut out: Vec<char> = Vec::new();
        push_range(&mut out, &chars, 0, lo);
        push_all(&mut out, ins.as_slice());
        push_range(&mut out, &chars, hi, chars.len());
        proof {
            assert(chars@.subrange(0, lo as int) =~= chars@.take(lo as int));
            assert(chars@.subrange(hi as int, chars@.len() as int) =~= chars@.skip(hi as int));
        }
        let total = out.len();
        let new_value = string_of(out.as_slice());
        let ghost t2 = inserted(old(self).value@, old(self).cursor_position, old(self).selection, text@).0;
        assert(new_value@ == t2);
        assert(lo + ins@.len() <= total);
        self.cursor_position = lo + ins.len();
        self.selection = None;
        let ghost before = *self;
        self.push_to_history(new_value.clone());
        proof {
            let (now, elapsed) = choose|now: Instant, elapsed: u64|
                (self.entries(), self.history_index as int) == #[trigger] history_after_push(
                    before.entries(),
                    before.history_index as int,
                    before.grouping_threshold_ms,
                    before.max_history,
                    elapsed,
                    (new_value@, before.cursor_position, before.selection, now),
                );
            assert(before.entries() == old(self).entries());
            let c2 = inserted(old(self).value@, old(self).cursor_position, old(self).selection, text@).1;
            assert(self.cursor_position == c2);
            assert(before.selection == None::<(usize, usize)>);
            assert((self.entries(), self.history_index as int) == history_after_push(
                old(self).entries(),
                old(self).history_index as int,
                old(self).grouping_threshold_ms,
                old(self).max_history,
                elapsed,
                (t2, c2 as usize, None, now),
            ));
        }
        self.value = new_value.clone();
        assert(self.value@ == t2);
        new_value
    }

    /// Backspace: removes the selection, or else the character before the
    /// cursor (see `deleted_before`). A changed text is recorded in the
    /// history with the new cursor. Returns the text.
    pub fn delete_previous(&mut self) -> (r: String)
        requires
            old(self).history@.len() >= 1,
            old(self).edit_in_bounds(),
        ensures
            old(self).wf() ==> final(self).wf(),
            final(self).edit_in_bounds(),
            ({
                let (t2, c2) = deleted_before(
                    old(self).value@,
                    old(self).cursor_position,
                    old(self).selection,
                );
                &&& r@ == t2
                &&& final(self).value@ == t2
                &&& final(self).cursor_position == c2
                &&& t2 == old(self).value@ ==> final(self).history == old(self).history
                    && final(self).history_index == old(self).history_index
                &&& t2 != old(self).value@ ==> exists|now: Instant, elapsed: u64|
                    (final(self).entries(), final(self).history_index as int)
                        == #[trigger] history_after_push(
                        old(self).entries(),
                        old(self).history_index as int,
                        old(self).grouping_threshold_ms,
                        old(self).max_history,
                        elapsed,
                        (t2, c2 as usize, None, now),
                    )
            }),
            *final(self) == (CustomTextInput {
                value: final(self).value,
                cursor_position: final(self).cursor_position,
                selection: None,
                history: final(self).history,
                history_index: final(self).history_index,
                ..*old(self)
            }),
    {
        let old_value = self.value.clone();
        match self.selection {
            Some((s, e)) => {
                let (lo, hi) = if s <= e {
                    (s, e)
                } else {
                    (e, s)
                };
                let chars = chars_of(self.value.as_str());
                self.value = without_range(&chars, lo, hi);
                self.cursor_position = lo;
                self.selection = None;
            },
            None => {
                if self.cursor_position > 0 {
                    let chars = chars_of(self.value.as_str());
                    let c = self.cursor_position;
                    self.value = without_range(&chars, c - 1, c);
                    self.cursor_position = c - 1;
                }
            },
        }
        let ghost t2 = deleted_before(old(self).value@, old(self).cursor_position, old(self).selection).0;
        let ghost c2 = deleted_before(old(self).value@, old(self).cursor_position, old(self).selection).1;
        assert(self.value@ == t2 && self.cursor_position == c2 && self.selection is None);
        if !(self.value == old_value) {
            let v = self.value.clone();
            let ghost before = *self;
            self.push_to_history(v);
            proof {
                let (now, elapsed) = choose|now: Instant, elapsed: u64|
                    (self.entries(), self.history_index as int) == #[trigger] history_after_push(
                        before.entries(),
                        before.history_index as int,
                        before.grouping_threshold_ms,
                        before.max_history,
                        elapsed,
                        (t2, before.cursor_position, before.selection, now),
                    );
                assert((self.entries(), self.history_index as int) == history_after_push(
                    old(self).entries(),
                    old(self).history_index as int,
                    old(self).grouping_threshold_ms,
                    old(self).max_history,
                    elapsed,
                    (t2, c2 as usize, None, now),
                ));
            }
        }
        self.value.clone()
    }

    /// Forward delete: removes the selection, or else the character after
    /// the cursor (see `deleted_after`). A changed text is recorded in the
    /// history with the new cursor. Returns the text.
    pub fn delete_next(&mut self) -> (r: String)
        requires
            old(self).history@.len() >= 1,
            old(self).edit_in_bounds(),
        ensures
            old(self).wf() ==> final(self).wf(),
            final(self).edit_in_bounds(),
            ({
                let (t2, c2) = deleted_after(
                    old(self).value@,
                    old(self).cursor_position,
                    old(self).selection,
                );
                &&& r@ == t2
                &&& final(self).value@ == t2
                &&& final(self).cursor_position == c2
                &&& t2 == old(self).value@ ==> final(self).history == old(self).history
                    && final(self).history_index == old(self).history_index
                &&& t2 != old(self).value@ ==> exists|now: Instant, elapsed: u64|
                    (final(self).entries(), final(self).history_index as int)
                        == #[trigger] history_after_push(
                        old(self).entries(),
                        old(self).history_index as int,
                        old(self).grouping_threshold_ms,
                        old(self).max_history,
                        elapsed,
                        (t2, c2 as usize, None, now),
                    )
            }),
            *final(self) == (CustomTextInput {
                value: final(self).value,
                cursor_position: final(self).cursor_position,
                selection: None,
                history: final(self).history,
                history_index: final(self).history_index,
                ..*old(self)
            }),
    {
        let old_value = self.value.clone();
        match self.selection {
            Some((s, e)) => {
                let (lo, hi) = if s <= e {
                    (s, e)
                } else {
                    (e, s)
                };
                let chars = chars_of(self.value.as_str());
                self.value = without_range(&chars, lo, hi);
                self.cursor_position = lo;
                self.selection = None;
            },
            None => {
                let count = self.value.as_str().unicode_len();
                if self.cursor_position < count {
                    let chars = chars_of(self.value.as_str());
                    let c = self.cursor_position;
                    self.value = without_range(&chars, c, c + 1);
                }
            },
        }
        let ghost t2 = deleted_after(old(self).value@, old(self).cursor_position, old(self).selection).0;
        let ghost c2 = deleted_after(old(self).value@, old(self).cursor_position, old(self).selection).1;
        assert(self.value@ == t2 && self.cursor_position == c2 && self.selection is None);
        if !(self.value == old_value) {
            let v = self.value.clone();
            let ghost before = *self;
            self.push_to_history(v);
            proof {
                let (now, elapsed) = choose|now: Instant, elapsed: u64|
                    (self.entries(), self.history_index as int) == #[trigger] history_after_push(
                        before.entries(),
                        before.history_index as int,
                        before.grouping_threshold_ms,
                        before.max_history,
                        elapsed,
                        (t2, before.cursor_position, before.selection, now),
                    );
                assert((self.entries(), self.history_index as int) == history_after_push(
                    old(self).entries(),
                    old(self).history_index as int,
                    old(self).grouping_threshold_ms,
                    old(self).max_history,
                    elapsed,
                    (t2, c2 as usize, None, now),
                ));
            }
        }
        self.value.clone()
    }
}

/// The text of the first variable found at the byte spans `spans` of `t`,
/// if there is one.
pub open spec fn first_variable(t: Seq<char>, spans: Seq<(usize, usize)>) -> Option<Seq<char>> {
    if spans.len() == 0 {
        None
    } else {
        let cs = as_char_spans(t, spans);
        Some(t.subrange(cs[0].0, cs[0].1))
    }
}

/// The byte spans of the variables a field highlights: the matches of its
/// pattern in its text, or none when highlighting is off or the pattern
/// does not compile.
pub open spec fn highlight_spans(input: CustomTextInput) -> Seq<(usize, usize)> {
    if input.syntax_highlighting.enabled && regex_compiles(input.syntax_highlighting.variable_pattern@) {
        pattern_spans(input.syntax_highlighting.variable_pattern@, input.value@)
    } else {
        Seq::empty()
    }
}

proof fn lemma_pieces_prefix(spans: Seq<(int, int)>, k: int)
    requires
        0 <= k <= spans.len(),
    ensures
        pieces_upto(spans.take(k)).len() <= pieces_upto(spans).len(),
        forall|i: int|
            0 <= i < pieces_upto(spans.take(k)).len() ==> #[trigger] pieces_upto(spans.take(k))[i]
                == pieces_upto(spans)[i],
    decreases spans.len() - k,
{
    if k < spans.len() {
        lemma_pieces_prefix(spans, k + 1);
        let next = spans.take(k + 1);
        assert(next.drop_last() =~= spans.take(k));
        let a = pieces_upto(spans.take(k));
        let s = next.last();
        let last = span_end(spans.take(k));
        let plain = if s.0 > last {
            seq![(last, s.0, false)]
        } else {
            Seq::empty()
        };
        assert(pieces_upto(next) == a + plain + seq![(s.0, s.1, true)]);
        assert forall|i: int| 0 <= i < a.len() implies #[trigger] a[i] == pieces_upto(spans)[i] by {
            assert(pieces_upto(next)[i] == a[i]);
        }
    } else {
        assert(spans.take(k) =~= spans);
    }
}

/// Where the first span's piece stands in the highlighting: after the plain
/// text before it, if any.
pub open spec fn first_variable_index(spans: Seq<(int, int)>) -> int {
    if spans[0].0 > 0 {
        1
    } else {
        0
    }
}

/// In the highlighting of ordered spans, the first variable piece is the
/// first span; with no spans there is one piece, and it is plain.
proof fn lemma_first_variable_piece(n: int, spans: Seq<(int, int)>)
    requires
        0 <= n,
        ordered_spans(n, spans),
    ensures
        spans.len() == 0 ==> highlight_pieces(n, spans).len() == 1 && !highlight_pieces(
            n,
            spans,
        )[0].2,
        spans.len() > 0 ==> {
            let hp = highlight_pieces(n, spans);
            let j = first_variable_index(spans);
            &&& 0 <= j < hp.len()
            &&& hp[j] == (spans[0].0, spans[0].1, true)
            &&& forall|i: int| 0 <= i < j ==> !(#[trigger] hp[i]).2
        },
{
    let hp = highlight_pieces(n, spans);
    if spans.len() == 0 {
        assert(pieces_upto(spans) =~= Seq::<(int, int, bool)>::empty());
    } else {
        let one = spans.take(1);
        lemma_pieces_prefix(spans, 1);
        let d = one.drop_last();
        assert(d =~= Seq::<(int, int)>::empty());
        assert(pieces_upto(d) =~= Seq::<(int, int, bool)>::empty());
        assert(span_end(d) == 0);
        assert(one.last() == spans[0]);
        let p1 = pieces_upto(one);
        let plain = if spans[0].0 > 0 {
            seq![(0int, spans[0].0, false)]
        } else {
            Seq::empty()
        };
        assert(p1 == pieces_upto(d) + plain + seq![(spans[0].0, spans[0].1, true)]);
        assert(p1 =~= plain + seq![(spans[0].0, spans[0].1, true)]);
        let j = plain.len() as int;
        assert(j == first_variable_index(spans));
        assert(p1[j] == (spans[0].0, spans[0].1, true));
        assert(pieces_upto(spans)[j] == p1[j]);
        assert(hp[j] == pieces_upto(spans)[j]);
        assert forall|i: int| 0 <= i < j implies !(#[trigger] hp[i]).2 by {
            assert(p1[i] == plain[i]);
            assert(pieces_upto(spans)[i] == p1[i]);
        }
    }
}

impl CustomTextInput {
    /// The text cut into highlighted segments: plain text and the variables
    /// the pattern finds (see `highlight_spans` and `highlight_pieces`).
    /// With highlighting off, or a pattern that does not compile, the whole
    /// text is one plain segment.
    pub fn parse_text_segments(&self) -> (r: Vec<TextSegment>)
        ensures
            well_placed_spans(self.value@, highlight_spans(*self)),
            segments_are(
                self.value@,
                r@,
                highlight_pieces(
                    self.value@.len() as int,
                    as_char_spans(self.value@, highlight_spans(*self)),
                ),
            ),
    {
        let none: Vec<(usize, usize)> = Vec::new();
        proof {
            assert(none@ =~= Seq::<(usize, usize)>::empty());
        }
        if !self.syntax_highlighting.enabled {
            return highlight_segments(self.value.as_str(), none.as_slice());
        }
        match compile_pattern(self.syntax_highlighting.variable_pattern.as_str()) {
            Some(compiled) => {
                let spans = find_spans(&compiled, self.value.as_str());
                highlight_segments(self.value.as_str(), spans.as_slice())
            },
            None => highlight_segments(self.value.as_str(), none.as_slice()),
        }
    }

    /// The first variable in the text, when highlighting and tooltips are
    /// both on; `None` when either is off or there is no variable.
    pub fn get_variable_at_position(&self) -> (r: Option<String>)
        ensures
            !(self.syntax_highlighting.enabled && self.syntax_highlighting.tooltip_enabled)
                ==> r is None,
            self.syntax_highlighting.enabled && self.syntax_highlighting.tooltip_enabled
                ==> match r {
                Some(v) => first_variable(self.value@, highlight_spans(*self)) == Some(v@),
                None => first_variable(self.value@, highlight_spans(*self)) is None,
            },
    {
        if !self.syntax_highlighting.enabled || !self.syntax_highlighting.tooltip_enabled {
            return None;
        }
        let segments = self.parse_text_segments();
        let ghost t = self.value@;
        let ghost spans = highlight_spans(*self);
        let ghost cs = as_char_spans(t, spans);
        let ghost hp = highlight_pieces(t.len() as int, cs);
        proof {
            crate::pattern::lemma_char_spans_ordered(t, spans);
            lemma_first_variable_piece(t.len() as int, cs);
        }
        let mut i: usize = 0;
        while i < segments.len()
            invariant
                self.syntax_highlighting.enabled && self.syntax_highlighting.tooltip_enabled,
                t == self.value@,
                cs == as_char_spans(t, spans),
                hp == highlight_pieces(t.len() as int, cs),
                spans == highlight_spans(*self),
                i <= segments@.len(),
                segments_are(t, segments@, hp),
                cs.len() == 0 ==> hp.len() == 1 && !hp[0].2,
                cs.len() > 0 ==> {
                    let j = first_variable_index(cs);
                    &&& 0 <= j < hp.len()
                    &&& hp[j] == (cs[0].0, cs[0].1, true)
                    &&& forall|k: int| 0 <= k < j ==> !(#[trigger] hp[k]).2
                },
                cs.len() > 0 ==> i <= first_variable_index(cs),
            decreases segments@.len() - i,
        {
            assert(segment_is(t, segments@[i as int], hp[i as int]));
            if segments[i].segment_type == SegmentType::Variable {
                proof {
                    if cs.len() > 0 {
                        let j = first_variable_index(cs);
                        if i < j {
                            assert(!hp[i as int].2);
                        }
                        assert(hp[i as int] == (cs[0].0, cs[0].1, true));
                        assert(first_variable(t, spans) == Some(segments@[i as int].text@));
                    }
                }
                return Some(segments[i].text.clone());
            }
            i = i + 1;
        }
        assert(first_variable(t, spans) is None);
        None
    }
}

/// Undo is undone by redo: after a step back, a step forward is possible
/// and returns the field to where it was, when it showed the state of its
/// step with the cursor visible.
pub proof fn lemma_redo_after_undo(s: CustomTextInput)
    requires
        s.wf(),
        s.history_index > 0,
        s.value == s.history@[s.history_index as int].value,
        s.cursor_position == s.history@[s.history_index as int].cursor_position,
        s.selection == s.history@[s.history_index as int].selection,
        s.cursor_blink_visible,
    ensures
        s.after_undo().wf(),
        s.after_undo().history_index + 1 < s.after_undo().history@.len(),
        s.after_undo().after_redo() == s,
{
}

/// Redo is undone by undo: after a step forward, a step back is possible
/// and returns the field to where it was, when it showed the state of its
/// step with the cursor visible.
pub proof fn lemma_undo_after_redo(s: CustomTextInput)
    requires
        s.wf(),
        s.history_index + 1 < s.history@.len(),
        s.history@.len() <= usize::MAX,
        s.value == s.history@[s.history_index as int].value,
        s.cursor_position == s.history@[s.history_index as int].cursor_position,
        s.selection == s.history@[s.history_index as int].selection,
        s.cursor_blink_visible,
    ensures
        s.after_redo().wf(),
        s.after_redo().history_index > 0,
        s.after_redo().after_undo() == s,
{
}

/// Recording a state leaves the position on it: the entry at the position
/// is the one recorded and no entry follows it.
pub proof fn lemma_push_lands_on_recorded(
    h: Seq<(Seq<char>, usize, Option<(usize, usize)>, Instant)>,
    index: int,
    threshold: u64,
    max: usize,
    elapsed: u64,
    snap: (Seq<char>, usize, Option<(usize, usize)>, Instant),
)
    requires
        h.len() >= 1,
        0 <= index < h.len(),
        max >= 1,
    ensures
        ({
            let (entries, i) = history_after_push(h, index, threshold, max, elapsed, snap);
            &&& 0 <= i < entries.len()
            &&& i == entries.len() - 1
            &&& entries[i] == snap
        }),
{
}

/// Backspace undoes typing a character: typing `c` at the cursor, with
/// nothing selected, then deleting the character before the cursor gives
/// back the text and the cursor.
pub proof fn lemma_backspace_after_typing(t: Seq<char>, cursor: usize, c: char)
    requires
        cursor <= t.len(),
        cursor + 1 <= usize::MAX,
    ensures
        ({
            let (typed, after) = inserted(t, cursor, None, seq![c]);
            deleted_before(typed, after as usize, None) == (t, cursor as int)
        }),
{
    let (typed, after) = inserted(t, cursor, None, seq![c]);
    assert(typed.take(cursor as int) =~= t.take(cursor as int));
    assert(typed.skip(cursor + 1) =~= t.skip(cursor as int));
    assert(t.take(cursor as int) + t.skip(cursor as int) =~= t);
}

/// Typing over the whole text selected replaces it, leaving the cursor at
/// the end of what was typed.
pub proof fn lemma_typing_over_selection_replaces(
    t: Seq<char>,
    cursor: usize,
    ins: Seq<char>,
)
    requires
        t.len() <= usize::MAX,
    ensures
        inserted(t, cursor, Some((0, t.len() as usize)), ins) == (ins, ins.len() as int),
{
    assert(t.take(0) + ins + t.skip(t.len() as int) =~= ins);
}

proof fn lemma_pieces_contiguous(n: int, spans: Seq<(int, int)>)
    requires
        0 <= n,
        ordered_spans(n, spans),
    ensures
        ({
            let p = pieces_upto(spans);
            &&& (p.len() == 0) == (spans.len() == 0)
            &&& p.len() > 0 ==> p[0].0 == 0 && p.last().1 == span_end(spans)
            &&& forall|i: int| 0 <= i < p.len() - 1 ==> (#[trigger] p[i]).1 == p[i + 1].0
            &&& forall|i: int| 0 <= i < p.len() ==> (#[trigger] p[i]).0 <= p[i].1
        }),
    decreases spans.len(),
{
    if spans.len() > 0 {
        let prev = spans.drop_last();
        assert(ordered_spans(n, prev));
        lemma_pieces_contiguous(n, prev);
        lemma_pieces_upto_in_range(n, prev);
        let s = spans.last();
        assert(s == spans[spans.len() - 1]);
        let last = span_end(prev);
        if prev.len() > 0 {
            assert(prev.last() == spans[prev.len() - 1]);
            assert(spans[prev.len() - 1].1 <= spans[spans.len() - 1].0);
        }
        let a = pieces_upto(prev);
        let plain = if s.0 > last {
            seq![(last, s.0, false)]
        } else {
            Seq::empty()
        };
        let all = a + plain + seq![(s.0, s.1, true)];
        assert(pieces_upto(spans) == all);
        assert forall|i: int| 0 <= i < all.len() - 1 implies (#[trigger] all[i]).1 == all[i + 1].0 by {
            if i < a.len() - 1 {
                assert(all[i] == a[i]);
                assert(all[i + 1] == a[i + 1]);
            } else if i == a.len() - 1 {
                assert(all[i] == a.last());
            } else {
                assert(i == a.len() && plain.len() == 1);
            }
        }
        assert forall|i: int| 0 <= i < all.len() implies (#[trigger] all[i]).0 <= all[i].1 by {
            if i < a.len() {
                assert(all[i] == a[i]);
            } else if i < a.len() + plain.len() {
                assert(all[i] == plain[i - a.len()]);
            }
        }
        if a.len() > 0 {
            assert(all[0] == a[0]);
        }
    }
}

/// The highlighting covers the text: its pieces run from the first
/// character to the last, each starting where the one before ends.
pub proof fn lemma_highlight_covers_text(n: int, spans: Seq<(int, int)>)
    requires
        0 <= n,
        ordered_spans(n, spans),
    ensures
        ({
            let hp = highlight_pieces(n, spans);
            &&& hp.len() >= 1
            &&& hp[0].0 == 0
            &&& hp.last().1 == n
            &&& forall|i: int| 0 <= i < hp.len() - 1 ==> (#[trigger] hp[i]).1 == hp[i + 1].0
            &&& forall|i: int| 0 <= i < hp.len() ==> (#[trigger] hp[i]).0 <= hp[i].1
        }),
{
    lemma_pieces_contiguous(n, spans);
    lemma_pieces_upto_in_range(n, spans);
    let p = pieces_upto(spans);
    let last = span_end(spans);
    let tail = if last < n {
        seq![(last, n, false)]
    } else {
        Seq::empty()
    };
    let all = p + tail;
    let hp = highlight_pieces(n, spans);
    if all.len() > 0 {
        assert(hp == all);
        assert forall|i: int| 0 <= i < all.len() - 1 implies (#[trigger] all[i]).1 == all[i + 1].0 by {
            if i < p.len() - 1 {
                assert(all[i] == p[i]);
                assert(all[i + 1] == p[i + 1]);
            } else {
                assert(all[i] == p.last());
            }
        }
        assert forall|i: int| 0 <= i < all.len() implies (#[trigger] all[i]).0 <= all[i].1 by {
            if i < p.len() {
                assert(all[i] == p[i]);
            }
        }
        if p.len() > 0 {
            assert(all[0] == p[0]);
        }
    }
}

} // verus!
