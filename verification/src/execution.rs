//! The run state of requests being sent, and what the send button and the
//! response summary show for the selected request.
use vstd::prelude::*;
use std::collections::{HashMap, HashSet};
use crate::models::{EnvironmentVariable, RequestAuthoringState};
use crate::text::{
    chars_of, contains_chars, contains_seq, ends_with, ends_with_chars, starts_with,
    starts_with_chars, str_contains, string_of_range, trim, trim_bounds, trimmed, ascii_lower,
    ascii_lowercase, ascii_lower_char,
};
use crate::xml::{lemma_next_index_of_bounds, next_index_of};

verus! {

broadcast use vstd::std_specs::hash::group_hash_axioms;

/// Where a request's latest run stands.
#[derive(Clone, Copy, Debug, PartialEq, Eq, Structural)]
pub enum RequestExecutionStatus {
    Idle,
    Sending,
    Canceled,
    Failed,
}

/// The latest run of a request: its number, where it stands, and the
/// handle that cancels it while it is under way.
pub struct RequestExecutionState<C> {
    pub run_id: u64,
    pub status: RequestExecutionStatus,
    pub cancel_tx: Option<C>,
}

/// Why the send button is disabled.
#[derive(Clone, Copy, Debug, PartialEq, Eq, Structural)]
pub enum SendDisabledReason {
    EmptyUrl,
    InvalidUrl,
}

/// What the send button offers.
#[derive(Clone, Copy, Debug, PartialEq, Eq, Structural)]
pub enum SendButtonState {
    Ready,
    Sending,
    Disabled(SendDisabledReason),
}

/// A request is being sent when its latest run is under way.
pub open spec fn is_sending<C>(states: Map<u128, RequestExecutionState<C>>, id: u128) -> bool {
    states.contains_key(id) && states[id].status == RequestExecutionStatus::Sending
}

/// The send button for a URL, without regard to runs under way: a blank
/// URL cannot be sent, and one that does not start with `http://` or
/// `https://` is invalid.
pub open spec fn url_send_state(url: Seq<char>) -> SendButtonState {
    let t = trim(url);
    if t.len() == 0 {
        SendButtonState::Disabled(SendDisabledReason::EmptyUrl)
    } else if !(starts_with(t, "http://"@) || starts_with(t, "https://"@)) {
        SendButtonState::Disabled(SendDisabledReason::InvalidUrl)
    } else {
        SendButtonState::Ready
    }
}

/// The send button for the request shown in the editor.
pub fn send_button_state_without_runtime(request: &RequestAuthoringState) -> (r: SendButtonState)
    ensures
        r == url_send_state(request.url@),
{
    let t = trimmed(&chars_of(request.url.as_str()));
    if t.len() == 0 {
        return SendButtonState::Disabled(SendDisabledReason::EmptyUrl);
    }
    let http = chars_of("http://");
    let https = chars_of("https://");
    if !(starts_with_chars(&t, &http) || starts_with_chars(&t, &https)) {
        return SendButtonState::Disabled(SendDisabledReason::InvalidUrl);
    }
    SendButtonState::Ready
}

/// The send button for the selected request: "sending" while its latest
/// run is under way; otherwise by its URL, except that a URL that reads
/// as invalid but holds a `{{`...`}}` token is ready when an environment
/// is selected.
pub open spec fn selected_send_state<C>(
    selected: Option<u128>,
    states: Map<u128, RequestExecutionState<C>>,
    url: Seq<char>,
    environment_selected: bool,
) -> SendButtonState {
    if selected is Some && is_sending(states, selected->0) {
        SendButtonState::Sending
    } else {
        let s = url_send_state(url);
        if s == SendButtonState::Disabled(SendDisabledReason::InvalidUrl) && environment_selected
            && contains_seq(url, "{{"@) && contains_seq(url, "}}"@) {
            SendButtonState::Ready
        } else {
            s
        }
    }
}

fn sending_now<C>(states: &HashMap<u128, RequestExecutionState<C>>, id: u128) -> (r: bool)
    ensures
        r == is_sending(states@, id),
{
    match states.get(&id) {
        Some(state) => state.status == RequestExecutionStatus::Sending,
        None => false,
    }
}

/// The send button for the selected request (see `selected_send_state`).
pub fn send_button_state_for_selected_request<C>(
    selected_request_id: Option<u128>,
    execution_states: &HashMap<u128, RequestExecutionState<C>>,
    request: &RequestAuthoringState,
    selected_environment_id: Option<u128>,
) -> (r: SendButtonState)
    ensures
        r == selected_send_state(
            selected_request_id,
            execution_states@,
            request.url@,
            selected_environment_id is Some,
        ),
{
    if let Some(request_id) = selected_request_id {
        if sending_now(execution_states, request_id) {
            return SendButtonState::Sending;
        }
    }
    let state = send_button_state_without_runtime(request);
    if state == SendButtonState::Disabled(SendDisabledReason::InvalidUrl)
        && selected_environment_id.is_some() && str_contains(request.url.as_str(), "{{")
        && str_contains(request.url.as_str(), "}}") {
        return SendButtonState::Ready;
    }
    state
}

/// Whether a finished run is the latest run of its request.
pub open spec fn is_current_run<C>(
    states: Map<u128, RequestExecutionState<C>>,
    id: u128,
    run_id: u64,
) -> bool {
    states.contains_key(id) && states[id].run_id == run_id
}

/// Whether the run `run_id` of `request_id` is still its latest run.
pub fn request_run_completion_is_current<C>(
    execution_states: &HashMap<u128, RequestExecutionState<C>>,
    request_id: u128,
    run_id: u64,
) -> (r: bool)
    ensures
        r == is_current_run(execution_states@, request_id, run_id),
{
    match execution_states.get(&request_id) {
        Some(state) => state.run_id == run_id,
        None => false,
    }
}

/// The run states after a run finished: when it is the latest run of its
/// request, that request becomes idle (or canceled, when the run did not
/// complete) and loses its cancel handle; a stale run changes nothing.
pub open spec fn after_completion<C>(
    states: Map<u128, RequestExecutionState<C>>,
    id: u128,
    run_id: u64,
    completed: bool,
) -> Map<u128, RequestExecutionState<C>> {
    if is_current_run(states, id, run_id) {
        states.insert(
            id,
            RequestExecutionState {
                run_id,
                status: if completed {
                    RequestExecutionStatus::Idle
                } else {
                    RequestExecutionStatus::Canceled
                },
                cancel_tx: None,
            },
        )
    } else {
        states
    }
}

/// Records that the run `run_id` of `request_id` finished (see
/// `after_completion`).
pub fn apply_request_run_completion_status<C>(
    execution_states: &mut HashMap<u128, RequestExecutionState<C>>,
    request_id: u128,
    run_id: u64,
    completed: bool,
)
    ensures
        final(execution_states)@ == after_completion(old(execution_states)@, request_id, run_id, completed),
{
    if !request_run_completion_is_current(execution_states, request_id, run_id) {
        return;
    }
    let status = if completed {
        RequestExecutionStatus::Idle
    } else {
        RequestExecutionStatus::Canceled
    };
    execution_states.insert(request_id, RequestExecutionState { run_id, status, cancel_tx: None });
}

/// A finished run updates the response pane only when its request is the
/// one selected.
pub fn completion_updates_selected_request_ui(
    selected_request_id: Option<u128>,
    completed_request_id: u128,
) -> (r: bool)
    ensures
        r == (selected_request_id == Some(completed_request_id)),
{
    match selected_request_id {
        Some(id) => id == completed_request_id,
        None => false,
    }
}

/// The status, status code, time and size the response pane shows: while
/// the selected request is being sent, "Sending..." and dashes; otherwise
/// the values of its last response.
pub fn response_summary_for_selected_request<C>(
    selected_request_id: Option<u128>,
    execution_states: &HashMap<u128, RequestExecutionState<C>>,
    fallback_status: &str,
    fallback_status_code: Option<u16>,
    fallback_time: &str,
    fallback_size: &str,
) -> (r: (String, Option<u16>, String, String))
    ensures
        if selected_request_id is Some && is_sending(execution_states@, selected_request_id->0) {
            r.0@ == "Sending..."@ && r.1 is None && r.2@ == "\u{2014}"@ && r.3@ == "\u{2014}"@
        } else {
            r.0@ == fallback_status@ && r.1 == fallback_status_code && r.2@ == fallback_time@
                && r.3@ == fallback_size@
        },
{
    if let Some(request_id) = selected_request_id {
        if sending_now(execution_states, request_id) {
            return (
                "Sending...".to_owned(),
                None,
                "\u{2014}".to_owned(),
                "\u{2014}".to_owned(),
            );
        }
    }
    (
        fallback_status.to_owned(),
        fallback_status_code,
        fallback_time.to_owned(),
        fallback_size.to_owned(),
    )
}

/// What the send-or-cancel shortcut does.
#[derive(Debug, Clone, Copy, PartialEq, Eq, Structural)]
pub enum SendOrCancel {
    /// The request being sent is canceled.
    Cancel,
    /// Nothing happens: the URL is empty.
    Ignore,
    /// The request is sent (an invalid URL is then flagged instead).
    Send,
}

/// What the send-or-cancel shortcut does in a given button state: cancel
/// while sending, nothing with an empty URL, send otherwise.
pub fn send_or_cancel_action(state: SendButtonState) -> (r: SendOrCancel)
    ensures
        r == match state {
            SendButtonState::Sending => SendOrCancel::Cancel,
            SendButtonState::Disabled(SendDisabledReason::EmptyUrl) => SendOrCancel::Ignore,
            _ => SendOrCancel::Send,
        },
{
    match state {
        SendButtonState::Sending => SendOrCancel::Cancel,
        SendButtonState::Disabled(SendDisabledReason::EmptyUrl) => SendOrCancel::Ignore,
        _ => SendOrCancel::Send,
    }
}

/// The post-response script kept with a request: the editor's text, or
/// none when it is blank.
pub fn post_script_from_editor(text: String) -> (r: Option<String>)
    ensures
        trim(text@).len() == 0 ==> r is None,
        trim(text@).len() != 0 ==> r == Some(text),
{
    let t = trimmed(&chars_of(text.as_str()));
    if t.len() == 0 {
        None
    } else {
        Some(text)
    }
}

/// What pressing send decides before a request goes out: whether the URL
/// field is marked invalid, and whether the request is sent.
#[derive(Debug, Clone, Copy, PartialEq, Eq, Structural)]
pub struct SendCheck {
    pub show_invalid_url_border: bool,
    pub send: bool,
}

/// The checks made when send is pressed: with the button showing an
/// invalid URL, the URL field is marked and nothing is sent; with no
/// request selected nothing is sent; otherwise the request resolved with
/// the environment is sent when its URL is ready, and its URL field is
/// marked when its URL is invalid.
pub fn send_check(
    view_state: SendButtonState,
    selected_request: Option<u128>,
    resolved: &RequestAuthoringState,
) -> (r: SendCheck)
    ensures
        view_state == SendButtonState::Disabled(SendDisabledReason::InvalidUrl) ==> r == (SendCheck {
            show_invalid_url_border: true,
            send: false,
        }),
        view_state != SendButtonState::Disabled(SendDisabledReason::InvalidUrl)
            && selected_request is None ==> r == (SendCheck {
            show_invalid_url_border: false,
            send: false,
        }),
        view_state != SendButtonState::Disabled(SendDisabledReason::InvalidUrl)
            && selected_request is Some ==> r == (SendCheck {
            show_invalid_url_border: url_send_state(resolved.url@) == SendButtonState::Disabled(
                SendDisabledReason::InvalidUrl,
            ),
            send: url_send_state(resolved.url@) == SendButtonState::Ready,
        }),
{
    if view_state == SendButtonState::Disabled(SendDisabledReason::InvalidUrl) {
        return SendCheck { show_invalid_url_border: true, send: false };
    }
    if selected_request.is_none() {
        return SendCheck { show_invalid_url_border: false, send: false };
    }
    let state = send_button_state_without_runtime(resolved);
    match state {
        SendButtonState::Ready => SendCheck { show_invalid_url_border: false, send: true },
        SendButtonState::Disabled(SendDisabledReason::InvalidUrl) => SendCheck {
            show_invalid_url_border: true,
            send: false,
        },
        _ => SendCheck { show_invalid_url_border: false, send: false },
    }
}

/// What the response pane shows once a wait is canceled: status
/// "Canceled", no code, and dashes for time and size.
pub fn canceled_response_summary() -> (r: (String, Option<u16>, String, String))
    ensures
        r.0@ == "Canceled"@ && r.1 is None && r.2@ == "\u{2014}"@ && r.3@ == "\u{2014}"@,
{
    ("Canceled".to_owned(), None, "\u{2014}".to_owned(), "\u{2014}".to_owned())
}

/// The runs of all requests, and the number the next run gets.
pub struct RequestRuns<C> {
    pub next_run_id: u64,
    pub states: HashMap<u128, RequestExecutionState<C>>,
}

impl<C> RequestRuns<C> {
    /// No runs yet; the first run is number 1.
    pub fn new() -> (r: Self)
        ensures
            r.next_run_id == 1,
            r.states@ == Map::<u128, RequestExecutionState<C>>::empty(),
    {
        RequestRuns { next_run_id: 1, states: HashMap::new() }
    }

    /// Starts a run of `request_id`: it takes the next run number, becomes
    /// the request's latest run, and is being sent, without a cancel handle
    /// yet. The run counter moves on, saturating at its maximum.
    pub fn begin_request_run_for(&mut self, request_id: u128) -> (run_id: u64)
        ensures
            run_id == old(self).next_run_id,
            final(self).next_run_id == if old(self).next_run_id < u64::MAX {
                (old(self).next_run_id + 1) as u64
            } else {
                u64::MAX
            },
            final(self).states@ == old(self).states@.insert(
                request_id,
                RequestExecutionState {
                    run_id,
                    status: RequestExecutionStatus::Sending,
                    cancel_tx: None,
                },
            ),
    {
        let run_id = self.next_run_id;
        self.next_run_id = self.next_run_id.saturating_add(1);
        self.states.insert(
            request_id,
            RequestExecutionState { run_id, status: RequestExecutionStatus::Sending, cancel_tx: None },
        );
        run_id
    }

    /// Whether `request_id` is being sent.
    pub fn is_request_sending(&self, request_id: u128) -> (r: bool)
        ensures
            r == is_sending(self.states@, request_id),
    {
        sending_now(&self.states, request_id)
    }

    /// Cancels the latest run of `request_id`, if it has one: it is marked
    /// canceled and its cancel handle is handed back to be fired.
    pub fn cancel_request_run_for(&mut self, request_id: u128) -> (r: Option<C>)
        ensures
            final(self).next_run_id == old(self).next_run_id,
            old(self).states@.contains_key(request_id) ==> {
                &&& final(self).states@ == old(self).states@.insert(
                    request_id,
                    RequestExecutionState {
                        run_id: old(self).states@[request_id].run_id,
                        status: RequestExecutionStatus::Canceled,
                        cancel_tx: None,
                    },
                )
                &&& r == old(self).states@[request_id].cancel_tx
            },
            !old(self).states@.contains_key(request_id) ==> final(self).states@ == old(
                self,
            ).states@ && r is None,
    {
        match self.states.remove(&request_id) {
            Some(state) => {
                let RequestExecutionState { run_id, status: _, cancel_tx } = state;
                self.states.insert(
                    request_id,
                    RequestExecutionState { run_id, status: RequestExecutionStatus::Canceled, cancel_tx: None },
                );
                proof {
                    assert(self.states@ =~= old(self).states@.insert(
                        request_id,
                        RequestExecutionState {
                            run_id: old(self).states@[request_id].run_id,
                            status: RequestExecutionStatus::Canceled,
                            cancel_tx: None,
                        },
                    ));
                }
                cancel_tx
            },
            None => None,
        }
    }

    /// Forgets the run state of `request_id`, handing back its cancel
    /// handle to be fired.
    pub fn clear_request_execution_state(&mut self, request_id: u128) -> (r: Option<C>)
        ensures
            final(self).next_run_id == old(self).next_run_id,
            final(self).states@ == old(self).states@.remove(request_id),
            old(self).states@.contains_key(request_id) ==> r == old(self).states@[request_id].cancel_tx,
            !old(self).states@.contains_key(request_id) ==> r is None,
    {
        match self.states.remove(&request_id) {
            Some(state) => state.cancel_tx,
            None => None,
        }
    }

    /// Drops the run state of every request not in `known_request_ids`
    /// (requests that no longer exist), handing back, with its request,
    /// the cancel handle of each dropped run that has one, to be fired.
    /// The handles come in no particular order.
    pub fn prune_request_execution_states(&mut self, known_request_ids: &HashSet<u128>) -> (cancels:
        Vec<(u128, C)>)
        ensures
            final(self).next_run_id == old(self).next_run_id,
            final(self).states@ == old(self).states@.restrict(known_request_ids@),
            forall|i: int|
                0 <= i < cancels@.len() ==> pruned_cancel(
                    old(self).states@,
                    known_request_ids@,
                    #[trigger] cancels@[i],
                ),
            forall|i: int, j: int|
                0 <= i < j < cancels@.len() ==> (#[trigger] cancels@[i]).0 != (#[trigger] cancels@[j]).0,
            forall|id: u128|
                #![trigger old(self).states@[id]]
                old(self).states@.contains_key(id) && !known_request_ids@.contains(id) && old(
                    self,
                ).states@[id].cancel_tx is Some ==> exists|i: int|
                    0 <= i < cancels@.len() && (#[trigger] cancels@[i]).0 == id,
    {
        let ids = key_list(&self.states);
        let ghost old_states = self.states@;
        let ghost known = known_request_ids@;
        let mut cancels: Vec<(u128, C)> = Vec::new();
        let mut i: usize = 0;
        while i < ids.len()
            invariant
                i <= ids@.len(),
                ids@.no_duplicates(),
                forall|k: u128| old_states.contains_key(k) <==> ids@.contains(k),
                old_states == old(self).states@,
                known == known_request_ids@,
                self.next_run_id == old(self).next_run_id,
                self.states@ == Map::new(
                    |k: u128| old_states.contains_key(k) && (known.contains(k) || !ids@.take(i as int).contains(k)),
                    |k: u128| old_states[k],
                ),
                forall|j: int| 0 <= j < cancels@.len() ==> pruned_cancel(old_states, known, #[trigger] cancels@[j]),
                forall|j: int| 0 <= j < cancels@.len() ==> ids@.take(i as int).contains((#[trigger] cancels@[j]).0),
                forall|a: int, b: int|
                    0 <= a < b < cancels@.len() ==> (#[trigger] cancels@[a]).0 != (#[trigger] cancels@[b]).0,
                forall|id: u128|
                    #![trigger old_states[id]]
                    old_states.contains_key(id) && !known.contains(id) && old_states[id].cancel_tx is Some
                        && ids@.take(i as int).contains(id) ==> exists|j: int|
                        0 <= j < cancels@.len() && (#[trigger] cancels@[j]).0 == id,
            decreases ids@.len() - i,
        {
            let id = ids[i];
            let ghost before = cancels@;
            let ghost taken = ids@.take(i as int);
            let ghost next = ids@.take(i + 1);
            proof {
                assert(next =~= taken.push(id));
                assert(!taken.contains(id)) by {
                    if taken.contains(id) {
                        let j = choose|j: int| 0 <= j < i && taken[j] == id;
                        assert(ids@[j] == ids@[i as int]);
                    }
                }
                assert(forall|k: u128| taken.contains(k) ==> next.contains(k));
                assert(next.contains(id)) by {
                    assert(next[i as int] == id);
                }
            }
            if !known_request_ids.contains(&id) {
                let removed = self.states.remove(&id);
                match removed {
                    Some(state) => {
                        let RequestExecutionState { run_id: _, status: _, cancel_tx } = state;
                        match cancel_tx {
                            Some(c) => {
                                cancels.push((id, c));
                            },
                            None => {},
                        }
                    },
                    None => {},
                }
            }
            proof {
                assert(self.states@ =~= Map::new(
                    |k: u128| old_states.contains_key(k) && (known.contains(k) || !next.contains(k)),
                    |k: u128| old_states[k],
                ));
                assert forall|j: int| 0 <= j < cancels@.len() implies next.contains(
                    (#[trigger] cancels@[j]).0,
                ) && pruned_cancel(old_states, known, cancels@[j]) by {
                    if j < before.len() {
                        assert(cancels@[j] == before[j]);
                        assert(taken.contains(before[j].0));
                    }
                }
                assert forall|a: int, b: int| 0 <= a < b < cancels@.len() implies (
                #[trigger] cancels@[a]).0 != (#[trigger] cancels@[b]).0 by {
                    if b >= before.len() {
                        assert(cancels@[a] == before[a]);
                        assert(taken.contains(before[a].0));
                    } else {
                        assert(cancels@[a] == before[a]);
                        assert(cancels@[b] == before[b]);
                    }
                }
                assert forall|k: u128|
                    #![trigger old_states[k]]
                    old_states.contains_key(k) && !known.contains(k) && old_states[k].cancel_tx is Some
                        && next.contains(k) implies exists|j: int|
                        0 <= j < cancels@.len() && (#[trigger] cancels@[j]).0 == k by {
                    if k == id {
                        assert(cancels@[cancels@.len() - 1].0 == id);
                    } else {
                        let m = choose|m: int| 0 <= m < next.len() && next[m] == k;
                        assert(m < i);
                        assert(taken[m] == k);
                        let j = choose|j: int| 0 <= j < before.len() && (#[trigger] before[j]).0 == k;
                        assert(cancels@[j] == before[j]);
                    }
                }
            }
            i = i + 1;
        }
        proof {
            assert(ids@.take(ids@.len() as int) =~= ids@);
            assert(self.states@ =~= old_states.restrict(known));
        }
        cancels
    }
}

/// A cancel handle handed back by pruning: it belongs to a run state of a
/// request that is no longer known.
pub open spec fn pruned_cancel<C>(
    states: Map<u128, RequestExecutionState<C>>,
    known: Set<u128>,
    entry: (u128, C),
) -> bool {
    &&& states.contains_key(entry.0)
    &&& !known.contains(entry.0)
    &&& states[entry.0].cancel_tx == Some(entry.1)
}

/// The keys of a map, each once, in the map's iteration order.
fn key_list<V>(m: &HashMap<u128, V>) -> (ids: Vec<u128>)
    ensures
        ids@.no_duplicates(),
        forall|k: u128| m@.contains_key(k) <==> ids@.contains(k),
{
    let ghost all = vstd::std_specs::iter::IteratorSpec::remaining(
        &vstd::std_specs::hash::spec_keys_iter(m),
    ).unref();
    let mut ids: Vec<u128> = Vec::new();
    for k in it: m.keys()
        invariant
            it.seq().unref() == all,
            ids@ == all.take(it.index() as int),
    {
        assert(all.take(it.index() + 1) =~= all.take(it.index() as int).push(*k));
        ids.push(*k);
    }
    proof {
        assert(ids@ =~= all);
        assert forall|k: u128| m@.contains_key(k) <==> ids@.contains(k) by {
            assert(all.to_set().contains(k) <==> all.contains(k));
        }
    }
    ids
}

/// A run that is not the latest run of its request changes nothing when
/// it finishes.
pub proof fn lemma_stale_completion_changes_nothing<C>(
    states: Map<u128, RequestExecutionState<C>>,
    id: u128,
    run_id: u64,
    completed: bool,
)
    requires
        !is_current_run(states, id, run_id),
    ensures
        after_completion(states, id, run_id, completed) == states,
{
}

/// When a request's run finishes, the send button of any other selected
/// request stays as it was.
pub proof fn lemma_completion_keeps_other_send_state<C>(
    states: Map<u128, RequestExecutionState<C>>,
    id: u128,
    run_id: u64,
    completed: bool,
    selected: Option<u128>,
    url: Seq<char>,
    environment_selected: bool,
)
    requires
        selected != Some(id),
    ensures
        selected_send_state(selected, after_completion(states, id, run_id, completed), url, environment_selected)
            == selected_send_state(selected, states, url, environment_selected),
{
}

/// When the latest run of a request finishes, the request is no longer
/// being sent.
pub proof fn lemma_current_completion_ends_sending<C>(
    states: Map<u128, RequestExecutionState<C>>,
    id: u128,
    run_id: u64,
    completed: bool,
)
    requires
        is_current_run(states, id, run_id),
    ensures
        !is_sending(after_completion(states, id, run_id, completed), id),
        is_current_run(after_completion(states, id, run_id, completed), id, run_id),
{
}

/// The script calls that change the environment.
pub open spec fn environment_mutation_calls() -> Seq<Seq<char>> {
    seq![
        "pm.environment.set("@,
        "pm.environment.unset("@,
        "pm.environment.clear("@,
        "pm.environment.setall("@,
        "pm.environment.setifpresent("@,
        "pm.extract("@,
    ]
}

/// Whether a post-response script, read without regard to ASCII case,
/// calls one of the functions that change the environment.
pub fn script_contains_environment_mutation(script: &str) -> (r: bool)
    ensures
        r == exists|i: int|
            0 <= i < environment_mutation_calls().len() && contains_seq(
                ascii_lowercase(script@),
                #[trigger] environment_mutation_calls()[i],
            ),
{
    let t = chars_of(script);
    let mut lowered: Vec<char> = Vec::new();
    let mut k: usize = 0;
    while k < t.len()
        invariant
            k <= t@.len(),
            lowered@ == ascii_lowercase(t@.take(k as int)),
        decreases t@.len() - k,
    {
        let c = ascii_lower_char(t[k]);
        lowered.push(c);
        assert(ascii_lowercase(t@.take(k + 1)) == ascii_lowercase(t@.take(k as int)).push(ascii_lower(t@[k as int])));
        k = k + 1;
    }
    assert(t@.take(t@.len() as int) == t@);
    let calls = [
        "pm.environment.set(",
        "pm.environment.unset(",
        "pm.environment.clear(",
        "pm.environment.setall(",
        "pm.environment.setifpresent(",
        "pm.extract(",
    ];
    assert(calls@.map_values(|c: &str| c@) == environment_mutation_calls());
    let mut i: usize = 0;
    while i < 6
        invariant
            i <= 6,
            lowered@ == ascii_lowercase(script@),
            calls@.map_values(|c: &str| c@) == environment_mutation_calls(),
            forall|j: int|
                0 <= j < i ==> !contains_seq(lowered@, #[trigger] environment_mutation_calls()[j]),
        decreases 6 - i,
    {
        let p = chars_of(calls[i]);
        assert(p@ == environment_mutation_calls()[i as int]);
        if contains_chars(&lowered, &p) {
            return true;
        }
        i = i + 1;
    }
    false
}

/// An environment variable as plain values: name, value, whether it is
/// enabled, and its description.
pub open spec fn var_view(v: EnvironmentVariable) -> (Seq<char>, Seq<char>, bool, Option<Seq<char>>) {
    (v.name@, v.value@, v.enabled, v.description.deep_view())
}

/// The variables that stay when the keys `removed` are unset.
pub open spec fn kept_vars(
    vars: Seq<(Seq<char>, Seq<char>, bool, Option<Seq<char>>)>,
    removed: Seq<Seq<char>>,
) -> Seq<(Seq<char>, Seq<char>, bool, Option<Seq<char>>)>
    decreases vars.len(),
{
    if vars.len() == 0 {
        seq![]
    } else if removed.contains(vars.last().0) {
        kept_vars(vars.drop_last(), removed)
    } else {
        kept_vars(vars.drop_last(), removed).push(vars.last())
    }
}

/// The first index at or after `i` of a variable named `name`, or -1.
pub open spec fn index_of_name(
    vars: Seq<(Seq<char>, Seq<char>, bool, Option<Seq<char>>)>,
    name: Seq<char>,
    i: int,
) -> int
    decreases vars.len() - i,
{
    if i < 0 || i >= vars.len() {
        -1
    } else if vars[i].0 == name {
        i
    } else {
        index_of_name(vars, name, i + 1)
    }
}

/// The variables after setting `name` to `value`: the first variable of
/// that name takes the value and is enabled; without one, an enabled
/// variable without description is added.
pub open spec fn set_var(
    vars: Seq<(Seq<char>, Seq<char>, bool, Option<Seq<char>>)>,
    name: Seq<char>,
    value: Seq<char>,
) -> Seq<(Seq<char>, Seq<char>, bool, Option<Seq<char>>)> {
    let i = index_of_name(vars, name, 0);
    if 0 <= i < vars.len() {
        vars.update(i, (vars[i].0, value, true, vars[i].3))
    } else {
        vars.push((name, value, true, None))
    }
}

/// The variables after setting each changed key in turn.
pub open spec fn with_changes(
    vars: Seq<(Seq<char>, Seq<char>, bool, Option<Seq<char>>)>,
    changes: Seq<(Seq<char>, Seq<char>)>,
) -> Seq<(Seq<char>, Seq<char>, bool, Option<Seq<char>>)>
    decreases changes.len(),
{
    if changes.len() == 0 {
        vars
    } else {
        let c = changes.last();
        set_var(with_changes(vars, changes.drop_last()), c.0, c.1)
    }
}

proof fn lemma_index_of_name(
    vars: Seq<(Seq<char>, Seq<char>, bool, Option<Seq<char>>)>,
    name: Seq<char>,
    i: int,
)
    requires
        0 <= i,
    ensures
        index_of_name(vars, name, i) == -1 || (i <= index_of_name(vars, name, i) < vars.len()
            && vars[index_of_name(vars, name, i)].0 == name),
    decreases vars.len() - i,
{
    if i < vars.len() && vars[i].0 != name {
        lemma_index_of_name(vars, name, i + 1);
    }
}

/// Setting a variable keeps every existing variable in its place with its
/// name and description; the first variable of the name set takes the
/// value and is enabled, the others keep their values and flags too.
proof fn lemma_set_var_keeps_names_and_descriptions(
    vars: Seq<(Seq<char>, Seq<char>, bool, Option<Seq<char>>)>,
    name: Seq<char>,
    value: Seq<char>,
)
    ensures
        set_var(vars, name, value).len() >= vars.len(),
        forall|k: int|
            0 <= k < vars.len() ==> (#[trigger] set_var(vars, name, value)[k]).0 == vars[k].0
                && set_var(vars, name, value)[k].3 == vars[k].3,
{
    lemma_index_of_name(vars, name, 0);
}

/// A post-response script never renames a variable or touches its
/// description: every variable left after the unsets keeps its place, its
/// name and its description whatever the script sets, and a variable the
/// script sets takes the value set last and is enabled.
pub proof fn lemma_script_changes_keep_names_and_descriptions(
    vars: Seq<(Seq<char>, Seq<char>, bool, Option<Seq<char>>)>,
    changes: Seq<(Seq<char>, Seq<char>)>,
)
    ensures
        with_changes(vars, changes).len() >= vars.len(),
        forall|k: int|
            0 <= k < vars.len() ==> (#[trigger] with_changes(vars, changes)[k]).0 == vars[k].0
                && with_changes(vars, changes)[k].3 == vars[k].3,
        changes.len() > 0 ==> exists|k: int|
            0 <= k < with_changes(vars, changes).len() && (#[trigger] with_changes(vars, changes)[k])
                == (changes.last().0, changes.last().1, true, with_changes(vars, changes)[k].3),
    decreases changes.len(),
{
    if changes.len() > 0 {
        let before = with_changes(vars, changes.drop_last());
        lemma_script_changes_keep_names_and_descriptions(vars, changes.drop_last());
        lemma_set_var_keeps_names_and_descriptions(before, changes.last().0, changes.last().1);
        let after = with_changes(vars, changes);
        assert(after == set_var(before, changes.last().0, changes.last().1));
        assert forall|k: int| 0 <= k < vars.len() implies (#[trigger] after[k]).0 == vars[k].0
            && after[k].3 == vars[k].3 by {
            assert(before[k].0 == vars[k].0);
        }
        lemma_index_of_name(before, changes.last().0, 0);
        let i = index_of_name(before, changes.last().0, 0);
        if 0 <= i < before.len() {
            assert(after[i] == (changes.last().0, changes.last().1, true, after[i].3));
        } else {
            assert(after[before.len() as int] == (changes.last().0, changes.last().1, true, after[
                before.len() as int
            ].3));
        }
    }
}

fn clone_description(d: &Option<String>) -> (r: Option<String>)
    ensures
        r.deep_view() == d.deep_view(),
{
    match d {
        Some(s) => Some(s.clone()),
        None => None,
    }
}

fn string_eq(a: &String, b: &String) -> (r: bool)
    ensures
        r == (a@ == b@),
{
    *a == *b
}

/// The environment after a post-response script ran: the variables it
/// unset are dropped, then each variable it set takes its value and is
/// enabled, or is added when it did not exist (see `kept_vars` and
/// `with_changes`).
pub fn apply_script_environment_changes_to_variables(
    current_variables: &[EnvironmentVariable],
    environment_changes: &[(String, String)],
    removed_env_keys: &[String],
) -> (r: Vec<EnvironmentVariable>)
    ensures
        r@.map_values(|v: EnvironmentVariable| var_view(v)) == with_changes(
            kept_vars(
                current_variables@.map_values(|v: EnvironmentVariable| var_view(v)),
                removed_env_keys@.map_values(|k: String| k@),
            ),
            environment_changes@.map_values(|c: (String, String)| (c.0@, c.1@)),
        ),
{
    let ghost vs = current_variables@.map_values(|v: EnvironmentVariable| var_view(v));
    let ghost removed = removed_env_keys@.map_values(|k: String| k@);
    let ghost changes = environment_changes@.map_values(|c: (String, String)| (c.0@, c.1@));
    let mut next: Vec<EnvironmentVariable> = Vec::new();
    let mut i: usize = 0;
    while i < current_variables.len()
        invariant
            i <= current_variables@.len(),
            vs == current_variables@.map_values(|v: EnvironmentVariable| var_view(v)),
            removed == removed_env_keys@.map_values(|k: String| k@),
            next@.map_values(|v: EnvironmentVariable| var_view(v)) == kept_vars(vs.take(i as int), removed),
        decreases current_variables@.len() - i,
    {
        let var = &current_variables[i];
        let mut is_removed = false;
        let mut j: usize = 0;
        while j < removed_env_keys.len()
            invariant
                j <= removed_env_keys@.len(),
                removed == removed_env_keys@.map_values(|k: String| k@),
                is_removed == exists|k: int| 0 <= k < j && removed[k] == var.name@,
            decreases removed_env_keys@.len() - j,
        {
            assert(removed[j as int] == removed_env_keys@[j as int]@);
            if string_eq(&removed_env_keys[j], &var.name) {
                is_removed = true;
            }
            j = j + 1;
        }
        assert(vs.take(i + 1).drop_last() == vs.take(i as int));
        assert(vs.take(i + 1).last() == var_view(*var));
        if !is_removed {
            let ghost before = next@;
            next.push(
                EnvironmentVariable {
                    name: var.name.clone(),
                    value: var.value.clone(),
                    enabled: var.enabled,
                    description: clone_description(&var.description),
                },
            );
            assert(next@.map_values(|v: EnvironmentVariable| var_view(v)) == before.map_values(
                |v: EnvironmentVariable| var_view(v),
            ).push(var_view(*var)));
        } else {
            assert(removed.contains(var.name@));
        }
        i = i + 1;
    }
    assert(vs.take(current_variables@.len() as int) == vs);
    let mut c: usize = 0;
    while c < environment_changes.len()
        invariant
            c <= environment_changes@.len(),
            changes == environment_changes@.map_values(|c: (String, String)| (c.0@, c.1@)),
            next@.map_values(|v: EnvironmentVariable| var_view(v)) == with_changes(
                kept_vars(vs, removed),
                changes.take(c as int),
            ),
        decreases environment_changes@.len() - c,
    {
        let (key, value) = (&environment_changes[c].0, &environment_changes[c].1);
        let ghost cur = next@.map_values(|v: EnvironmentVariable| var_view(v));
        let mut k: usize = 0;
        while k < next.len() && !string_eq(&next[k].name, key)
            invariant
                k <= next@.len(),
                cur == next@.map_values(|v: EnvironmentVariable| var_view(v)),
                index_of_name(cur, key@, 0) == index_of_name(cur, key@, k as int),
            decreases next@.len() - k,
        {
            k = k + 1;
        }
        proof {
            lemma_index_of_name(cur, key@, k as int);
        }
        assert(changes.take(c + 1).drop_last() == changes.take(c as int));
        assert(changes.take(c + 1).last() == (key@, value@));
        if k < next.len() {
            let updated = EnvironmentVariable {
                name: next[k].name.clone(),
                value: value.clone(),
                enabled: true,
                description: clone_description(&next[k].description),
            };
            next.set(k, updated);
            assert(next@.map_values(|v: EnvironmentVariable| var_view(v)) == set_var(cur, key@, value@));
        } else {
            next.push(
                EnvironmentVariable {
                    name: key.clone(),
                    value: value.clone(),
                    enabled: true,
                    description: None,
                },
            );
            assert(next@.map_values(|v: EnvironmentVariable| var_view(v)) == set_var(cur, key@, value@));
        }
        c = c + 1;
    }
    assert(changes.take(environment_changes@.len() as int) == changes);
    next
}

/// The `name: value` pairs of a block of response headers from index
/// `pos` on: each line with a colon gives its trimmed text before and
/// after the first colon; lines without one are skipped.
pub open spec fn header_pairs_from(t: Seq<char>, pos: int) -> Seq<(Seq<char>, Seq<char>)>
    decreases t.len() + 1 - pos,
{
    if pos < 0 || pos > t.len() {
        seq![]
    } else {
        let e = next_index_of(t, '\n', pos);
        proof {
            lemma_next_index_of_bounds(t, '\n', pos);
        }
        let line = t.subrange(pos, e);
        let k = next_index_of(line, ':', 0);
        let head = if k < line.len() {
            seq![(trim(line.take(k)), trim(line.skip(k + 1)))]
        } else {
            seq![]
        };
        if e >= t.len() {
            head
        } else {
            head + header_pairs_from(t, e + 1)
        }
    }
}

fn next_char_index(t: &Vec<char>, c: char, from: usize, to: usize) -> (r: usize)
    requires
        from <= to <= t@.len(),
    ensures
        from <= r <= to,
        r - from == next_index_of(t@.subrange(from as int, to as int), c, 0),
{
    let ghost s = t@.subrange(from as int, to as int);
    let mut k = from;
    while k < to && t[k] != c
        invariant
            from <= k <= to <= t@.len(),
            s == t@.subrange(from as int, to as int),
            next_index_of(s, c, 0) == next_index_of(s, c, k - from),
        decreases to - k,
    {
        k = k + 1;
    }
    proof {
        if k < to {
            assert(s[k - from] == t@[k as int]);
        }
    }
    k
}

/// The headers of a response, one `name: value` per line, as trimmed
/// name/value pairs (see `header_pairs_from`).
pub fn parse_response_headers(headers: &str) -> (r: Vec<(String, String)>)
    ensures
        r@.map_values(|p: (String, String)| (p.0@, p.1@)) == header_pairs_from(headers@, 0),
{
    let t = chars_of(headers);
    let mut out: Vec<(String, String)> = Vec::new();
    let mut pos: usize = 0;
    loop
        invariant
            pos <= t@.len(),
            t@ == headers@,
            out@.map_values(|p: (String, String)| (p.0@, p.1@)) + header_pairs_from(t@, pos as int)
                == header_pairs_from(t@, 0),
        decreases t@.len() - pos,
    {
        let e = next_char_index(&t, '\n', pos, t.len());
        assert(e - pos == next_index_of(t@.subrange(pos as int, t@.len() as int), '\n', 0));
        proof {
            lemma_next_index_of_bounds(t@, '\n', pos as int);
            lemma_same_next_index(t@, '\n', pos as int);
        }
        let ghost line = t@.subrange(pos as int, e as int);
        let k = next_char_index(&t, ':', pos, e);
        let ghost before = out@.map_values(|p: (String, String)| (p.0@, p.1@));
        let ghost head = if k < e {
            seq![(trim(line.take(k - pos)), trim(line.skip(k - pos + 1)))]
        } else {
            seq![]
        };
        if k < e {
            let (na, nb) = trim_bounds(&t, pos, k);
            let (va, vb) = trim_bounds(&t, k + 1, e);
            assert(t@.subrange(pos as int, k as int) == line.take(k - pos));
            assert(t@.subrange(k + 1, e as int) == line.skip(k - pos + 1));
            out.push((string_of_range(&t, na, nb), string_of_range(&t, va, vb)));
        }
        assert(out@.map_values(|p: (String, String)| (p.0@, p.1@)) == before + head);
        assert(header_pairs_from(t@, pos as int) == if e >= t@.len() {
            head
        } else {
            head + header_pairs_from(t@, e + 1)
        });
        if e >= t.len() {
            return out;
        }
        pos = e + 1;
    }
}

proof fn lemma_same_next_index(t: Seq<char>, c: char, pos: int)
    requires
        0 <= pos <= t.len(),
    ensures
        next_index_of(t.subrange(pos, t.len() as int), c, 0) == next_index_of(t, c, pos) - pos,
    decreases t.len() - pos,
{
    let s = t.subrange(pos, t.len() as int);
    if pos < t.len() && t[pos] != c {
        lemma_same_next_index(t, c, pos + 1);
        lemma_shift_next_index(t, c, pos, 1);
    }
}

proof fn lemma_shift_next_index(t: Seq<char>, c: char, pos: int, k: int)
    requires
        0 <= pos <= pos + k <= t.len(),
        forall|j: int| pos <= j < pos + k ==> t[j] != c,
    ensures
        next_index_of(t.subrange(pos, t.len() as int), c, k) == next_index_of(
            t.subrange(pos + k, t.len() as int),
            c,
            0,
        ) + k,
    decreases t.len() - pos - k,
{
    let s = t.subrange(pos, t.len() as int);
    let u = t.subrange(pos + k, t.len() as int);
    if pos + k < t.len() {
        assert(s[k] == t[pos + k]);
        assert(u[0] == t[pos + k]);
        if t[pos + k] != c {
            lemma_shift_next_index(t, c, pos, k + 1);
            lemma_shift_next_index(t, c, pos + k, 1);
        }
    }
}

/// Every character is an ASCII digit.
pub open spec fn all_digits(s: Seq<char>) -> bool {
    forall|i: int| 0 <= i < s.len() ==> '0' <= #[trigger] s[i] && s[i] <= '9'
}

/// The number that a run of decimal digits writes.
pub open spec fn digits_value(s: Seq<char>) -> int
    decreases s.len(),
{
    if s.len() == 0 {
        0
    } else {
        digits_value(s.drop_last()) * 10 + ((s.last() as int) - ('0' as int))
    }
}

/// What `u64::from_str` gives: an optional `+` followed by one or more
/// decimal digits whose value fits in 64 bits.
pub open spec fn parsed_u64(s: Seq<char>) -> Option<u64> {
    let d = if s.len() > 0 && s[0] == '+' {
        s.drop_first()
    } else {
        s
    };
    if d.len() > 0 && all_digits(d) && digits_value(d) <= u64::MAX {
        Some(digits_value(d) as u64)
    } else {
        None
    }
}

proof fn lemma_digits_prefix_le(s: Seq<char>, k: int)
    requires
        all_digits(s),
        0 <= k <= s.len(),
    ensures
        0 <= digits_value(s.take(k)) <= digits_value(s),
    decreases s.len(),
{
    if k == s.len() {
        assert(s.take(k) == s);
        lemma_digits_nonneg(s);
    } else {
        let p = s.drop_last();
        assert(s.take(k) == p.take(k));
        lemma_digits_prefix_le(p, k);
        lemma_digits_nonneg(p);
        let v = digits_value(p);
        assert(v <= v * 10) by (nonlinear_arith)
            requires
                v >= 0,
        ;
    }
}

proof fn lemma_digits_nonneg(s: Seq<char>)
    requires
        all_digits(s),
    ensures
        digits_value(s) >= 0,
    decreases s.len(),
{
    if s.len() > 0 {
        lemma_digits_nonneg(s.drop_last());
    }
}

/// Parses a decimal number as `u64::from_str` does (see `parsed_u64`).
pub fn parse_u64(s: &Vec<char>, lo: usize, hi: usize) -> (r: Option<u64>)
    requires
        lo <= hi <= s@.len(),
    ensures
        r == parsed_u64(s@.subrange(lo as int, hi as int)),
{
    let ghost whole = s@.subrange(lo as int, hi as int);
    let mut start = lo;
    if lo < hi && s[lo] == '+' {
        start = lo + 1;
    }
    let ghost d = s@.subrange(start as int, hi as int);
    assert(d == if whole.len() > 0 && whole[0] == '+' {
        whole.drop_first()
    } else {
        whole
    });
    if start >= hi {
        return None;
    }
    let mut acc: u64 = 0;
    let mut i: usize = start;
    while i < hi
        invariant
            lo <= start <= i <= hi <= s@.len(),
            d == s@.subrange(start as int, hi as int),
            whole == s@.subrange(lo as int, hi as int),
            d == if whole.len() > 0 && whole[0] == '+' {
                whole.drop_first()
            } else {
                whole
            },
            forall|j: int| start <= j < i ==> '0' <= #[trigger] s@[j] && s@[j] <= '9',
            acc as int == digits_value(d.take(i - start)),
        decreases hi - i,
    {
        let c = s[i];
        if !('0' <= c && c <= '9') {
            assert(d[i - start] == c);
            return None;
        }
        let digit = (c as u32) - ('0' as u32);
        assert(d.take(i - start + 1).drop_last() == d.take(i - start));
        assert(d.take(i - start + 1).last() == c);
        match acc.checked_mul(10) {
            Some(m) => match m.checked_add(digit as u64) {
                Some(n) => {
                    acc = n;
                },
                None => {
                    proof {
                        lemma_none_when_over(s, start, i, hi, d);
                    }
                    return None;
                },
            },
            None => {
                proof {
                    lemma_none_when_over(s, start, i, hi, d);
                }
                return None;
            },
        }
        i = i + 1;
    }
    assert(d.take(hi - start) == d);
    assert(all_digits(d));
    Some(acc)
}

proof fn lemma_none_when_over(s: &Vec<char>, start: usize, i: usize, hi: usize, d: Seq<char>)
    requires
        start <= i < hi <= s@.len(),
        d == s@.subrange(start as int, hi as int),
        forall|j: int| start <= j < i ==> '0' <= #[trigger] s@[j] && s@[j] <= '9',
        '0' <= s@[i as int] <= '9',
        digits_value(d.take(i - start + 1)) > u64::MAX,
    ensures
        !(all_digits(d) && digits_value(d) <= u64::MAX),
{
    if all_digits(d) {
        lemma_digits_prefix_le(d, i - start + 1);
    }
}

/// The number of milliseconds a response time of the form `"<n> ms"`
/// gives, if it has that form.
pub open spec fn duration_ms(t: Seq<char>) -> Option<u64> {
    if ends_with(t, " ms"@) {
        parsed_u64(trim(t.take(t.len() - 3)))
    } else {
        None
    }
}

/// The milliseconds of a response time written `"<n> ms"`.
pub fn parse_response_duration_ms(time: &str) -> (r: Option<u64>)
    ensures
        r == duration_ms(time@),
{
    let t = chars_of(time);
    let suffix = chars_of(" ms");
    proof {
        reveal_strlit(" ms");
    }
    if !ends_with_chars(&t, &suffix) {
        return None;
    }
    let (a, b) = trim_bounds(&t, 0, t.len() - suffix.len());
    assert(t@.subrange(0, t@.len() - suffix@.len()) == t@.take(t@.len() - 3));
    parse_u64(&t, a, b)
}

} // verus!
