//! A single-line text field with an undo history whose quick successive
//! edits are grouped into one step.
use vstd::prelude::*;
use crate::clock::unix_millis_now;

verus! {

/// One state of the field's text, and when it was recorded
/// (milliseconds since the Unix epoch).
#[derive(Debug, Clone)]
pub struct HistoryEntry {
    pub value: String,
    pub timestamp: u64,
}

impl HistoryEntry {
    /// An entry for `value` recorded now.
    pub fn new(value: String) -> (r: Self)
        ensures
            r.value@ == value@,
    {
        let timestamp = unix_millis_now();
        Self::recorded_at(value, timestamp)
    }

    /// An entry for `value` recorded at `timestamp`.
    pub fn recorded_at(value: String, timestamp: u64) -> (r: Self)
        ensures
            r.value@ == value@,
            r.timestamp == timestamp,
    {
        Self { value, timestamp }
    }
}

/// A text field with undo and redo.
#[derive(Debug, Clone)]
pub struct ManagedTextInput {
    pub value: String,
    pub placeholder: String,
    pub is_focused: bool,
    pub history: Vec<HistoryEntry>,
    pub history_index: usize,
    pub max_history: usize,
    pub grouping_threshold_ms: u64,
}

/// The texts of a history, oldest first.
pub open spec fn history_values(h: Seq<HistoryEntry>) -> Seq<Seq<char>> {
    h.map_values(|e: HistoryEntry| e.value@)
}

/// The history after recording `value` at time `now` (see
/// `ManagedTextInput::push_to_history_at`).
pub open spec fn pushed_history(
    h: Seq<HistoryEntry>,
    index: int,
    threshold: u64,
    max: usize,
    value: Seq<char>,
    now: u64,
) -> (Seq<(Seq<char>, u64)>, int) {
    let kept = if index < h.len() - 1 {
        h.take(index + 1)
    } else {
        h
    };
    let entries = kept.map_values(|e: HistoryEntry| (e.value@, e.timestamp));
    let last = kept.last();
    if index < h.len() && now >= last.timestamp && now - last.timestamp <= threshold {
        (entries.update(entries.len() - 1, (value, now)), entries.len() - 1)
    } else {
        let grown = entries.push((value, now));
        if grown.len() > max {
            (grown.drop_first(), grown.len() - 2)
        } else {
            (grown, grown.len() - 1)
        }
    }
}

impl ManagedTextInput {
    /// The history is never empty and its position points into it.
    pub open spec fn wf(&self) -> bool {
        &&& self.history@.len() >= 1
        &&& self.history_index < self.history@.len()
    }

    /// The texts and times recorded in the history.
    pub open spec fn entries(&self) -> Seq<(Seq<char>, u64)> {
        self.history@.map_values(|e: HistoryEntry| (e.value@, e.timestamp))
    }

    /// An empty field with the given placeholder: its history holds the
    /// empty text, and up to 50 steps are kept; edits within 200 ms of each
    /// other form one step.
    pub fn new(placeholder: String) -> (r: Self)
        ensures
            r.wf(),
            r.value@ == Seq::<char>::empty(),
            r.placeholder@ == placeholder@,
            !r.is_focused,
            history_values(r.history@) == seq![Seq::<char>::empty()],
            r.history_index == 0,
            r.max_history == 50,
            r.grouping_threshold_ms == 200,
    {
        let mut history: Vec<HistoryEntry> = Vec::new();
        history.push(HistoryEntry::new(String::new()));
        assert(history_values(history@) =~= seq![Seq::<char>::empty()]);
        Self {
            value: String::new(),
            placeholder,
            is_focused: false,
            history,
            history_index: 0,
            max_history: 50,
            grouping_threshold_ms: 200,
        }
    }

    /// The field holding `value`, with a history of that one text.
    pub fn with_value(self, value: String) -> (r: Self)
        ensures
            r.wf(),
            r.value@ == value@,
            history_values(r.history@) == seq![value@],
            r.history_index == 0,
            r.placeholder == self.placeholder,
            r.is_focused == self.is_focused,
            r.max_history == self.max_history,
            r.grouping_threshold_ms == self.grouping_threshold_ms,
    {
        let mut s = self;
        s.value = value.clone();
        let mut history: Vec<HistoryEntry> = Vec::new();
        history.push(HistoryEntry::new(value));
        assert(history_values(history@) =~= seq![s.value@]);
        s.history = history;
        s.history_index = 0;
        s
    }

    /// Sets the text; a changed text is recorded in the history.
    pub fn set_value(&mut self, value: String)
        requires
            old(self).history@.len() >= 1,
        ensures
            old(self).wf() ==> final(self).wf(),
            final(self).value@ == value@,
            old(self).value@ == value@ ==> *final(self) == *old(self),
            final(self).placeholder == old(self).placeholder,
            final(self).is_focused == old(self).is_focused,
            final(self).max_history == old(self).max_history,
            final(self).grouping_threshold_ms == old(self).grouping_threshold_ms,
            old(self).value@ != value@ ==> exists|now: u64|
                (final(self).entries(), final(self).history_index as int) == pushed_history(
                    old(self).history@,
                    old(self).history_index as int,
                    old(self).grouping_threshold_ms,
                    old(self).max_history,
                    value@,
                    now,
                ),
    {
        if !(self.value == value) {
            self.value = value.clone();
            self.push_to_history(value);
        }
    }

    /// Sets the text without touching the history.
    pub fn set_value_without_history(&mut self, value: String)
        ensures
            final(self).value@ == value@,
            final(self).history == old(self).history,
            final(self).history_index == old(self).history_index,
            final(self).placeholder == old(self).placeholder,
            final(self).is_focused == old(self).is_focused,
            final(self).max_history == old(self).max_history,
            final(self).grouping_threshold_ms == old(self).grouping_threshold_ms,
    {
        self.value = value;
    }

    /// Records `value` in the history now (see `push_to_history_at`).
    pub fn push_to_history(&mut self, value: String)
        requires
            old(self).history@.len() >= 1,
        ensures
            old(self).wf() ==> final(self).wf(),
            final(self).value == old(self).value,
            final(self).placeholder == old(self).placeholder,
            final(self).is_focused == old(self).is_focused,
            final(self).max_history == old(self).max_history,
            final(self).grouping_threshold_ms == old(self).grouping_threshold_ms,
            exists|now: u64|
                (final(self).entries(), final(self).history_index as int) == pushed_history(
                    old(self).history@,
                    old(self).history_index as int,
                    old(self).grouping_threshold_ms,
                    old(self).max_history,
                    value@,
                    now,
                ),
    {
        let now = unix_millis_now();
        self.push_to_history_at(value, now);
    }

    /// Records `value` in the history at time `now`: steps after the
    /// current one are dropped; when the position is on the last step and
    /// `now` is within the grouping threshold of it, that step is replaced,
    /// otherwise a step is added and the oldest is dropped once there are
    /// more than `max_history`. The position ends on the step recorded.
    pub fn push_to_history_at(&mut self, value: String, now: u64)
        requires
            old(self).history@.len() >= 1,
        ensures
            old(self).wf() ==> final(self).wf(),
            old(self).history@.len() <= old(self).max_history ==> final(self).history@.len()
                <= old(self).max_history,
            (final(self).entries(), final(self).history_index as int) == pushed_history(
                old(self).history@,
                old(self).history_index as int,
                old(self).grouping_threshold_ms,
                old(self).max_history,
                value@,
                now,
            ),
            final(self).value == old(self).value,
            final(self).placeholder == old(self).placeholder,
            final(self).is_focused == old(self).is_focused,
            final(self).max_history == old(self).max_history,
            final(self).grouping_threshold_ms == old(self).grouping_threshold_ms,
    {
        let ghost h0 = self.history@;
        if self.history_index < self.history.len() - 1 {
            self.history.truncate(self.history_index + 1);
        }
        let ghost kept = self.history@;
        assert(kept == if old(self).history_index < h0.len() - 1 {
            h0.take(old(self).history_index + 1)
        } else {
            h0
        });
        let last_index = self.history.len() - 1;
        let last_time = self.history[last_index].timestamp;
        let ghost entries = kept.map_values(|e: HistoryEntry| (e.value@, e.timestamp));
        let entry = HistoryEntry::recorded_at(value, now);
        if self.history_index == last_index && now >= last_time && now - last_time
            <= self.grouping_threshold_ms {
            self.history.set(last_index, entry);
            self.history_index = last_index;
            assert(self.entries() =~= entries.update(entries.len() - 1, (entry.value@, now)));
            return;
        }
        self.history.push(entry);
        self.history_index = self.history.len() - 1;
        assert(self.entries() =~= entries.push((entry.value@, now)));
        if self.history.len() > self.max_history {
            let ghost grown = self.entries();
            assert(self.history@.len() >= 2);
            self.history.remove(0);
            self.history_index = self.history.len() - 1;
            assert(self.entries() =~= grown.drop_first());
        }
    }

    /// The field after a step back: the position moves one step back and
    /// the text becomes that step's text; at the first step nothing changes.
    pub open spec fn after_undo(self) -> Self {
        if self.history_index > 0 {
            ManagedTextInput {
                history_index: (self.history_index - 1) as usize,
                value: self.history@[self.history_index - 1].value,
                ..self
            }
        } else {
            self
        }
    }

    /// The field after a step forward: the position moves one step on and
    /// the text becomes that step's text; at the last step nothing changes.
    pub open spec fn after_redo(self) -> Self {
        if self.history_index + 1 < self.history@.len() {
            ManagedTextInput {
                history_index: (self.history_index + 1) as usize,
                value: self.history@[self.history_index + 1].value,
                ..self
            }
        } else {
            self
        }
    }

    /// Steps back in the history, restoring the text of the step before;
    /// false, with nothing changed, at the first step. The position may
    /// stand anywhere up to just past the last step (one further would
    /// read past the history).
    pub fn undo(&mut self) -> (r: bool)
        requires
            old(self).history_index <= old(self).history@.len(),
        ensures
            old(self).wf() ==> final(self).wf(),
            r == (old(self).history_index > 0),
            *final(self) == old(self).after_undo(),
    {
        if self.history_index > 0 {
            self.history_index = self.history_index - 1;
            self.value = self.history[self.history_index].value.clone();
            true
        } else {
            false
        }
    }

    /// Steps forward in the history, restoring the text of the step after;
    /// false, with nothing changed, at the last step or past it. The
    /// history must hold a step (the last position is computed from it).
    pub fn redo(&mut self) -> (r: bool)
        requires
            old(self).history@.len() >= 1,
        ensures
            old(self).wf() ==> final(self).wf(),
            r == (old(self).history_index + 1 < old(self).history@.len()),
            *final(self) == old(self).after_redo(),
    {
        if self.history_index < self.history.len() - 1 {
            self.history_index = self.history_index + 1;
            self.value = self.history[self.history_index].value.clone();
            true
        } else {
            false
        }
    }

    /// Marks the field focused or not.
    pub fn set_focused(&mut self, focused: bool)
        ensures
            *final(self) == (ManagedTextInput { is_focused: focused, ..*old(self) }),
    {
        self.is_focused = focused;
    }
}

/// Undo is undone by redo: after a step back, a step forward is possible
/// and returns the field to where it was, when its text was the text of
/// its step.
pub proof fn lemma_redo_after_undo(s: ManagedTextInput)
    requires
        s.wf(),
        s.history_index > 0,
        s.value == s.history@[s.history_index as int].value,
    ensures
        s.after_undo().wf(),
        s.after_undo().history_index + 1 < s.after_undo().history@.len(),
        s.after_undo().after_redo() == s,
{
}

/// Redo is undone by undo: after a step forward, a step back is possible
/// and returns the field to where it was, when its text was the text of
/// its step.
pub proof fn lemma_undo_after_redo(s: ManagedTextInput)
    requires
        s.wf(),
        s.history_index + 1 < s.history@.len(),
        s.history@.len() <= usize::MAX,
        s.value == s.history@[s.history_index as int].value,
    ensures
        s.after_redo().wf(),
        s.after_redo().history_index > 0,
        s.after_redo().after_undo() == s,
{
}

/// Recording a text leaves the position on that text: the step at the
/// position holds the recorded text and time, and no step follows it.
pub proof fn lemma_push_lands_on_recorded_value(
    h: Seq<HistoryEntry>,
    index: int,
    threshold: u64,
    max: usize,
    value: Seq<char>,
    now: u64,
)
    requires
        h.len() >= 1,
        0 <= index < h.len(),
    ensures
        ({
            let (entries, i) = pushed_history(h, index, threshold, max, value, now);
            &&& 0 <= i < entries.len()
            &&& i == entries.len() - 1
            &&& entries[i] == (value, now)
        }),
{
}

} // verus!
