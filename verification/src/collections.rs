//! The collections panel of the panel front end: what each user message
//! does to the panel and which action it asks of the application.
use vstd::prelude::*;
use std::time::Instant;
use crate::clock::{instant_now, millis_between};
use crate::text::{decimal, push_decimal};
use crate::types::{
    HttpMethod, RenameTarget, RequestCollection, RequestCollectionView, RequestConfig, RequestConfigView,
    blank_request,
};

verus! {

/// The panel listing the collections, and its rename dialog.
#[derive(Debug, Clone)]
pub struct CollectionPanel {
    pub collections: Vec<RequestCollection>,
    pub last_click_time: Option<Instant>,
    pub last_click_target: Option<(usize, usize)>,
    pub show_rename_modal: bool,
    pub rename_input: String,
    pub rename_target: Option<RenameTarget>,
}

/// What the user did in the panel; requests are addressed by collection
/// and position.
#[derive(Debug, Clone, Copy, PartialEq, Eq, Structural)]
pub enum Message {
    CollectionToggled(usize),
    RequestSelected(usize, usize),
    ShowRenameModal(usize, usize),
    AddHttpRequest(usize),
    DeleteFolder(usize),
    AddFolder(usize),
    RenameFolder(usize),
    SendRequestFromMenu(usize, usize),
    CopyRequestAsCurl(usize, usize),
    RenameRequest(usize, usize),
    DuplicateRequest(usize, usize),
    DeleteRequest(usize, usize),
}

/// What the application is asked to do.
#[derive(Debug, Clone)]
pub enum Action {
    UpdateCurrentCollection(RequestCollection),
    LoadRequestConfig(usize, usize),
    SaveRequestToCollection(RequestConfig),
    SaveNewCollection(RequestCollection),
    SendRequest(RequestConfig),
    DuplicateRequest(RequestConfig),
    DeleteRequest(usize, usize),
    RenameRequest(usize, usize, String),
    RenameCollection(usize, String),
    NoAction,
}

/// Two clicks on one request closer than this many milliseconds are a
/// double click.
pub const DOUBLE_CLICK_MS: u64 = 500;

impl CollectionPanel {
    /// The collections as the contracts see them.
    pub open spec fn collections_view(&self) -> Seq<RequestCollectionView> {
        self.collections@.map_values(|c: RequestCollection| c@)
    }

    /// Takes in the collections the panel is about to show (as drawing it
    /// does): they replace the panel's own; nothing else changes.
    pub fn show_collections(&mut self, collections: &[RequestCollection])
        ensures
            final(self).collections_view() == collections@.map_values(|c: RequestCollection| c@),
            final(self).last_click_time == old(self).last_click_time,
            final(self).last_click_target == old(self).last_click_target,
            final(self).show_rename_modal == old(self).show_rename_modal,
            final(self).rename_input == old(self).rename_input,
            final(self).rename_target == old(self).rename_target,
    {
        let mut copied: Vec<RequestCollection> = Vec::new();
        let mut i: usize = 0;
        while i < collections.len()
            invariant
                i <= collections@.len(),
                copied@.len() == i,
                forall|j: int| 0 <= j < i ==> (#[trigger] copied@[j])@ == collections@[j]@,
            decreases collections@.len() - i,
        {
            let d = collections[i].duplicate();
            copied.push(d);
            i = i + 1;
        }
        self.collections = copied;
        assert(self.collections_view() =~= collections@.map_values(|c: RequestCollection| c@));
    }

    /// The request at position `ri` of collection `ci`, if there is one.
    pub open spec fn request_at(&self, ci: int, ri: int) -> Option<RequestConfigView> {
        if 0 <= ci < self.collections@.len() && 0 <= ri
            < self.collections@[ci].requests@.len() {
            Some(self.collections@[ci].requests@[ri]@)
        } else {
            None
        }
    }

    /// The panel with the rename dialog open on `target`, showing `name`.
    pub open spec fn renaming(self, target: RenameTarget, name: String) -> Self {
        CollectionPanel {
            show_rename_modal: true,
            rename_input: name,
            rename_target: Some(target),
            ..self
        }
    }

    /// An empty panel with no click seen and the rename dialog closed.
    pub fn new() -> (r: Self)
        ensures
            r.collections@.len() == 0,
            r.last_click_time is None,
            r.last_click_target is None,
            !r.show_rename_modal,
            r.rename_input@ == Seq::<char>::empty(),
            r.rename_target is None,
    {
        CollectionPanel {
            collections: Vec::new(),
            last_click_time: None,
            last_click_target: None,
            show_rename_modal: false,
            rename_input: String::new(),
            rename_target: None,
        }
    }
}

/// The name given to the `n`-th new request of a collection.
pub open spec fn new_request_name(n: nat) -> Seq<char> {
    "New Request "@ + decimal(n)
}

/// The name given to the `n`-th collection.
pub open spec fn new_collection_name(n: nat) -> Seq<char> {
    "New Collection "@ + decimal(n)
}

/// The name of a copy of a request named `name`.
pub open spec fn copy_name(name: Seq<char>) -> Seq<char> {
    name + " (Copy)"@
}

/// A text followed by the decimal numeral of `n`.
fn numbered(prefix: &str, n: u128) -> (r: String)
    ensures
        r@ == prefix@ + decimal(n as nat),
{
    let mut s = prefix.to_owned();
    push_decimal(&mut s, n);
    s
}

impl CollectionPanel {
    /// Applies a message, reading the clock for double clicks (see
    /// `update_at`).
    pub fn update(&mut self, message: Message) -> (r: Action)
        ensures
            exists|now: Instant, elapsed: u64| #[trigger] update_outcome(*old(self), message, now, elapsed, *final(self), r),
    {
        let now = instant_now();
        let elapsed = match &self.last_click_time {
            Some(last) => millis_between(&now, last),
            None => 0,
        };
        self.update_at(message, now, elapsed)
    }

    /// Applies a message at time `now`, `elapsed_ms` milliseconds after the
    /// last click (see `update_outcome`).
    pub fn update_at(&mut self, message: Message, now: Instant, elapsed_ms: u64) -> (r: Action)
        ensures
            update_outcome(*old(self), message, now, elapsed_ms, *final(self), r),
    {
        match message {
            Message::CollectionToggled(index) => self.toggle_collection(index),
            Message::RequestSelected(ci, ri) => self.select_request(ci, ri, now, elapsed_ms),
            Message::AddHttpRequest(ci) => {
                if ci < self.collections.len() {
                    let len = self.collections[ci].requests.len();
                    let mut request = RequestConfig::default();
                    request.collection_index = ci as u32;
                    request.name = numbered("New Request ", len as u128 + 1);
                    request.request_index = len as u32;
                    Action::SaveRequestToCollection(request)
                } else {
                    Action::NoAction
                }
            },
            Message::DeleteFolder(ci) => {
                if ci < self.collections.len() {
                    self.collections.remove(ci);
                }
                Action::NoAction
            },
            Message::AddFolder(_) => {
                let name = numbered("New Collection ", self.collections.len() as u128 + 1);
                let collection = RequestCollection { name, requests: Vec::new(), expanded: true };
                proof {
                    assert(collection@.requests =~= Seq::<RequestConfigView>::empty());
                }
                Action::SaveNewCollection(collection)
            },
            Message::RenameFolder(ci) => {
                if ci < self.collections.len() {
                    let name = self.collections[ci].name.clone();
                    self.show_rename_modal = true;
                    self.rename_input = name;
                    self.rename_target = Some(RenameTarget::Folder(ci));
                }
                Action::NoAction
            },
            Message::SendRequestFromMenu(ci, ri) => {
                if ci < self.collections.len() && ri < self.collections[ci].requests.len() {
                    Action::SendRequest(self.collections[ci].requests[ri].duplicate())
                } else {
                    Action::NoAction
                }
            },
            Message::CopyRequestAsCurl(_, _) => Action::NoAction,
            Message::RenameRequest(ci, ri) | Message::ShowRenameModal(ci, ri) => {
                if ci < self.collections.len() && ri < self.collections[ci].requests.len() {
                    let name = self.collections[ci].requests[ri].name.clone();
                    self.show_rename_modal = true;
                    self.rename_input = name;
                    self.rename_target = Some(RenameTarget::Request(ci, ri));
                }
                Action::NoAction
            },
            Message::DuplicateRequest(ci, ri) => {
                if ci < self.collections.len() && ri < self.collections[ci].requests.len() {
                    let mut request = self.collections[ci].requests[ri].duplicate();
                    request.name.append(" (Copy)");
                    request.collection_index = ci as u32;
                    request.request_index = ri as u32;
                    Action::DuplicateRequest(request)
                } else {
                    Action::NoAction
                }
            },
            Message::DeleteRequest(ci, ri) => Action::DeleteRequest(ci, ri),
        }
    }

    /// Flips whether collection `index` is expanded and hands out the
    /// collection as it now is.
    fn toggle_collection(&mut self, index: usize) -> (r: Action)
        ensures
            update_outcome_toggle(*old(self), index, *final(self), r),
    {
        if index < self.collections.len() {
            let mut collection = self.collections[index].duplicate();
            collection.expanded = !collection.expanded;
            let out = collection.duplicate();
            self.collections.set(index, collection);
            proof {
                assert(self.collections_view() =~= old(self).collections_view().update(
                    index as int,
                    RequestCollectionView {
                        expanded: !old(self).collections_view()[index as int].expanded,
                        ..old(self).collections_view()[index as int]
                    },
                ));
            }
            Action::UpdateCurrentCollection(out)
        } else {
            Action::NoAction
        }
    }

    /// A click on a request: a second click on the same request within
    /// `DOUBLE_CLICK_MS` opens the rename dialog on it, any other click
    /// loads it. Every click on a request is remembered.
    fn select_request(&mut self, ci: usize, ri: usize, now: Instant, elapsed_ms: u64) -> (r: Action)
        ensures
            update_outcome_select(*old(self), ci, ri, now, elapsed_ms, *final(self), r),
    {
        if ci < self.collections.len() && ri < self.collections[ci].requests.len() {
            let target = (ci, ri);
            let is_double_click = match (&self.last_click_time, self.last_click_target) {
                (Some(_), Some(last_target)) => last_target.0 == ci && last_target.1 == ri
                    && elapsed_ms < DOUBLE_CLICK_MS,
                _ => false,
            };
            self.last_click_time = Some(now);
            self.last_click_target = Some(target);
            if is_double_click {
                let name = self.collections[ci].requests[ri].name.clone();
                self.show_rename_modal = true;
                self.rename_target = Some(RenameTarget::Request(ci, ri));
                self.rename_input = name;
                Action::NoAction
            } else {
                Action::LoadRequestConfig(ci, ri)
            }
        } else {
            Action::NoAction
        }
    }
}

/// What toggling collection `index` gives: the collection with its
/// expansion flipped, handed out; nothing when there is no such collection.
pub open spec fn update_outcome_toggle(
    old_panel: CollectionPanel,
    index: usize,
    new_panel: CollectionPanel,
    r: Action,
) -> bool {
    if index < old_panel.collections@.len() {
        let c = old_panel.collections_view()[index as int];
        let flipped = RequestCollectionView { expanded: !c.expanded, ..c };
        &&& new_panel == (CollectionPanel { collections: new_panel.collections, ..old_panel })
        &&& new_panel.collections_view() == old_panel.collections_view().update(index as int, flipped)
        &&& r matches Action::UpdateCurrentCollection(out) && out@ == flipped
    } else {
        new_panel == old_panel && r is NoAction
    }
}

/// What a click on request `(ci, ri)` at `now`, `elapsed_ms` after the last
/// click, gives (see `CollectionPanel::select_request`).
pub open spec fn update_outcome_select(
    old_panel: CollectionPanel,
    ci: usize,
    ri: usize,
    now: Instant,
    elapsed_ms: u64,
    new_panel: CollectionPanel,
    r: Action,
) -> bool {
    if old_panel.request_at(ci as int, ri as int) is Some {
        let clicked = CollectionPanel {
            last_click_time: Some(now),
            last_click_target: Some((ci, ri)),
            ..old_panel
        };
        let double = old_panel.last_click_time is Some && old_panel.last_click_target == Some(
            (ci, ri),
        ) && elapsed_ms < DOUBLE_CLICK_MS;
        if double {
            &&& new_panel == clicked.renaming(RenameTarget::Request(ci, ri), new_panel.rename_input)
            &&& new_panel.rename_input@ == old_panel.request_at(ci as int, ri as int)->0.name
            &&& r is NoAction
        } else {
            new_panel == clicked && r == Action::LoadRequestConfig(ci, ri)
        }
    } else {
        new_panel == old_panel && r is NoAction
    }
}

/// What a message at `now`, `elapsed_ms` after the last click, does to the
/// panel and which action it gives.
pub open spec fn update_outcome(
    old_panel: CollectionPanel,
    message: Message,
    now: Instant,
    elapsed_ms: u64,
    new_panel: CollectionPanel,
    r: Action,
) -> bool {
    match message {
        Message::CollectionToggled(index) => update_outcome_toggle(old_panel, index, new_panel, r),
        Message::RequestSelected(ci, ri) => update_outcome_select(
            old_panel,
            ci,
            ri,
            now,
            elapsed_ms,
            new_panel,
            r,
        ),
        Message::AddHttpRequest(ci) => {
            &&& new_panel == old_panel
            &&& if ci < old_panel.collections@.len() {
                let len = old_panel.collections@[ci as int].requests@.len();
                r matches Action::SaveRequestToCollection(c) && c@ == (RequestConfigView {
                    name: new_request_name(len + 1),
                    collection_index: ci as u32,
                    request_index: len as u32,
                    ..blank_request()
                })
            } else {
                r is NoAction
            }
        },
        Message::DeleteFolder(ci) => {
            &&& new_panel == (CollectionPanel { collections: new_panel.collections, ..old_panel })
            &&& new_panel.collections@ == if ci < old_panel.collections@.len() {
                old_panel.collections@.remove(ci as int)
            } else {
                old_panel.collections@
            }
            &&& r is NoAction
        },
        Message::AddFolder(_) => {
            &&& new_panel == old_panel
            &&& r matches Action::SaveNewCollection(c) && c@ == (RequestCollectionView {
                name: new_collection_name(old_panel.collections@.len() + 1),
                requests: Seq::empty(),
                expanded: true,
            })
        },
        Message::RenameFolder(ci) => {
            &&& r is NoAction
            &&& if ci < old_panel.collections@.len() {
                &&& new_panel == old_panel.renaming(RenameTarget::Folder(ci), new_panel.rename_input)
                &&& new_panel.rename_input@ == old_panel.collections@[ci as int].name@
            } else {
                new_panel == old_panel
            }
        },
        Message::SendRequestFromMenu(ci, ri) => {
            &&& new_panel == old_panel
            &&& match old_panel.request_at(ci as int, ri as int) {
                Some(v) => r matches Action::SendRequest(c) && c@ == v,
                None => r is NoAction,
            }
        },
        Message::CopyRequestAsCurl(_, _) => new_panel == old_panel && r is NoAction,
        Message::RenameRequest(ci, ri) | Message::ShowRenameModal(ci, ri) => {
            &&& r is NoAction
            &&& match old_panel.request_at(ci as int, ri as int) {
                Some(v) => {
                    &&& new_panel == old_panel.renaming(
                        RenameTarget::Request(ci, ri),
                        new_panel.rename_input,
                    )
                    &&& new_panel.rename_input@ == v.name
                },
                None => new_panel == old_panel,
            }
        },
        Message::DuplicateRequest(ci, ri) => {
            &&& new_panel == old_panel
            &&& match old_panel.request_at(ci as int, ri as int) {
                Some(v) => r matches Action::DuplicateRequest(c) && c@ == (RequestConfigView {
                    name: copy_name(v.name),
                    collection_index: ci as u32,
                    request_index: ri as u32,
                    ..v
                }),
                None => r is NoAction,
            }
        },
        Message::DeleteRequest(ci, ri) => new_panel == old_panel && r == Action::DeleteRequest(
            ci,
            ri,
        ),
    }
}

/// The name of a method as HTTP writes it.
pub open spec fn method_text(method: HttpMethod) -> Seq<char> {
    match method {
        HttpMethod::GET => "GET"@,
        HttpMethod::POST => "POST"@,
        HttpMethod::PUT => "PUT"@,
        HttpMethod::DELETE => "DELETE"@,
        HttpMethod::PATCH => "PATCH"@,
        HttpMethod::HEAD => "HEAD"@,
        HttpMethod::OPTIONS => "OPTIONS"@,
    }
}

/// The label of a method's badge, at most four characters: `DELE`, `OPTN`
/// and `PACH` stand for the longer names.
pub open spec fn badge_text(method: HttpMethod) -> Seq<char> {
    match method {
        HttpMethod::DELETE => "DELE"@,
        HttpMethod::OPTIONS => "OPTN"@,
        HttpMethod::PATCH => "PACH"@,
        _ => method_text(method),
    }
}

/// The label of a method's badge (see `badge_text`).
pub fn method_badge_text(method: HttpMethod) -> (r: String)
    ensures
        r@ == badge_text(method),
{
    match method {
        HttpMethod::GET => "GET".to_owned(),
        HttpMethod::POST => "POST".to_owned(),
        HttpMethod::PUT => "PUT".to_owned(),
        HttpMethod::DELETE => "DELE".to_owned(),
        HttpMethod::PATCH => "PACH".to_owned(),
        HttpMethod::HEAD => "HEAD".to_owned(),
        HttpMethod::OPTIONS => "OPTN".to_owned(),
    }
}

/// A quick second click on the request just clicked opens the rename
/// dialog on it, showing its name, whatever the first click did.
pub proof fn lemma_second_quick_click_renames(
    p0: CollectionPanel,
    ci: usize,
    ri: usize,
    t1: Instant,
    e1: u64,
    p1: CollectionPanel,
    r1: Action,
    t2: Instant,
    e2: u64,
    p2: CollectionPanel,
    r2: Action,
)
    requires
        p0.request_at(ci as int, ri as int) is Some,
        update_outcome_select(p0, ci, ri, t1, e1, p1, r1),
        update_outcome_select(p1, ci, ri, t2, e2, p2, r2),
        e2 < DOUBLE_CLICK_MS,
    ensures
        p2.show_rename_modal,
        p2.rename_target == Some(RenameTarget::Request(ci, ri)),
        p2.rename_input@ == p0.request_at(ci as int, ri as int)->0.name,
        r2 is NoAction,
{
    assert(p1.collections == p0.collections);
}

/// Toggling a collection twice leaves the collections as they were.
pub proof fn lemma_toggle_twice_restores(
    p0: CollectionPanel,
    index: usize,
    p1: CollectionPanel,
    r1: Action,
    p2: CollectionPanel,
    r2: Action,
)
    requires
        update_outcome_toggle(p0, index, p1, r1),
        update_outcome_toggle(p1, index, p2, r2),
    ensures
        p2.collections_view() == p0.collections_view(),
{
    if index < p0.collections@.len() {
        assert(p1.collections_view().len() == p0.collections_view().len());
        assert(p1.collections@.len() == p1.collections_view().len());
        assert(p2.collections_view() =~= p0.collections_view());
    }
}

} // verus!
