//! The command palette: entries for the workspace tree and the app's
//! commands, and their search by name.
use vstd::prelude::*;
use crate::text::{
    chars_of, contains_chars, contains_seq, join_with, lowercased, push_joined, starts_with,
    starts_with_chars, string_of, to_lowercase, trim, trimmed_str,
};

verus! {

/// The app commands the palette offers.
#[derive(Debug, Clone, Copy, PartialEq, Eq, Structural)]
pub enum CommandPaletteCommand {
    OpenSettings,
    OpenKeyBindings,
    OpenEnvironmentManager,
}

/// What a palette entry opens.
#[derive(Debug, Clone, Copy, PartialEq, Eq, Structural)]
pub enum CommandPaletteEntryKind {
    Request { request_id: u128 },
    Folder { folder_id: u128 },
    Command(CommandPaletteCommand),
}

/// One entry of the palette.
#[derive(Debug, Clone, PartialEq, Eq)]
pub struct CommandPaletteEntry {
    pub kind: CommandPaletteEntryKind,
    pub title: String,
    pub subtitle: Option<String>,
    pub search_name: String,
    pub request_recency_rank: Option<usize>,
}

/// Whether a tree node is a request or a folder.
#[derive(Debug, Clone, Copy, PartialEq, Eq, Structural)]
pub enum TreeNodeKind {
    Request,
    Folder,
}

/// A node of the workspace tree, with the names of the folders above it.
#[derive(Debug, Clone, PartialEq, Eq)]
pub struct WorkspaceTreeDescriptor {
    pub id: u128,
    pub kind: TreeNodeKind,
    pub name: String,
    pub ancestor_path: Vec<String>,
}

fn clone_opt_string(s: &Option<String>) -> (r: Option<String>)
    ensures
        r == *s,
{
    match s {
        Some(v) => Some(v.clone()),
        None => None,
    }
}

impl CommandPaletteEntry {
    /// A copy of the entry.
    pub fn duplicate(&self) -> (r: Self)
        ensures
            r == *self,
    {
        CommandPaletteEntry {
            kind: self.kind,
            title: self.title.clone(),
            subtitle: clone_opt_string(&self.subtitle),
            search_name: self.search_name.clone(),
            request_recency_rank: self.request_recency_rank,
        }
    }
}

/// The title of an app command.
pub open spec fn command_title(c: CommandPaletteCommand) -> Seq<char> {
    match c {
        CommandPaletteCommand::OpenSettings => "Open Settings"@,
        CommandPaletteCommand::OpenKeyBindings => "Open Key Bindings"@,
        CommandPaletteCommand::OpenEnvironmentManager => "Open Environment Manager"@,
    }
}

/// The app commands, in the order the palette lists them.
pub open spec fn all_commands() -> Seq<CommandPaletteCommand> {
    seq![
        CommandPaletteCommand::OpenSettings,
        CommandPaletteCommand::OpenKeyBindings,
        CommandPaletteCommand::OpenEnvironmentManager,
    ]
}

/// The first position of `id` in `recent` at or after `i`.
pub open spec fn rank_from(recent: Seq<u128>, id: u128, i: int) -> Option<int>
    decreases recent.len() - i,
{
    if i < 0 || i >= recent.len() {
        None
    } else if recent[i] == id {
        Some(i)
    } else {
        rank_from(recent, id, i + 1)
    }
}

/// The entry a palette gives a tree node: the node's name as title and,
/// lower-cased, as search name; the folders above it joined by " / " as
/// subtitle when there are any; and for a request its first position in
/// the list of recently opened requests.
pub open spec fn entry_for(d: WorkspaceTreeDescriptor, recent: Seq<u128>, e: CommandPaletteEntry) -> bool {
    &&& e.title@ == d.name@
    &&& e.search_name@ == lowercased(d.name@)
    &&& e.subtitle.deep_view() == (if d.ancestor_path@.len() == 0 {
        None
    } else {
        Some(join_with(d.ancestor_path@.map_values(|s: String| s@), " / "@))
    })
    &&& match d.kind {
        TreeNodeKind::Request => e.kind == CommandPaletteEntryKind::Request { request_id: d.id }
            && e.request_recency_rank == (match rank_from(recent, d.id, 0) {
            Some(r) => Some(r as usize),
            None => None,
        }),
        TreeNodeKind::Folder => e.kind == CommandPaletteEntryKind::Folder { folder_id: d.id }
            && e.request_recency_rank is None,
    }
}

/// The entry a palette gives an app command.
pub open spec fn entry_for_command(c: CommandPaletteCommand, e: CommandPaletteEntry) -> bool {
    &&& e.kind == CommandPaletteEntryKind::Command(c)
    &&& e.title@ == command_title(c)
    &&& e.search_name@ == lowercased(command_title(c))
    &&& e.subtitle is None
    &&& e.request_recency_rank is None
}

fn first_rank(recent: &[u128], id: u128) -> (r: Option<usize>)
    ensures
        r == (match rank_from(recent@, id, 0) {
            Some(i) => Some(i as usize),
            None => None,
        }),
        r matches Some(i) ==> i < recent@.len(),
{
    let mut i: usize = 0;
    while i < recent.len()
        invariant
            i <= recent@.len(),
            rank_from(recent@, id, 0) == rank_from(recent@, id, i as int),
        decreases recent@.len() - i,
    {
        if recent[i] == id {
            return Some(i);
        }
        i = i + 1;
    }
    None
}

fn joined_path(path: &Vec<String>) -> (r: String)
    ensures
        r@ == join_with(path@.map_values(|s: String| s@), " / "@),
{
    let ghost pieces = path@.map_values(|s: String| s@);
    let sep = chars_of(" / ");
    let mut out: Vec<char> = Vec::new();
    let mut i: usize = 0;
    while i < path.len()
        invariant
            i <= path@.len(),
            pieces == path@.map_values(|s: String| s@),
            sep@ == " / "@,
            out@ == join_with(pieces.take(i as int), " / "@),
        decreases path@.len() - i,
    {
        let piece = chars_of(path[i].as_str());
        push_joined(&mut out, &piece, &sep, i == 0, Ghost(pieces.take(i as int)));
        assert(pieces.take(i as int).push(pieces[i as int]) == pieces.take(i + 1));
        i = i + 1;
    }
    assert(pieces.take(path@.len() as int) == pieces);
    string_of(&out)
}

fn command_entry(command: CommandPaletteCommand) -> (r: CommandPaletteEntry)
    ensures
        entry_for_command(command, r),
{
    let title: &str = match command {
        CommandPaletteCommand::OpenSettings => "Open Settings",
        CommandPaletteCommand::OpenKeyBindings => "Open Key Bindings",
        CommandPaletteCommand::OpenEnvironmentManager => "Open Environment Manager",
    };
    CommandPaletteEntry {
        kind: CommandPaletteEntryKind::Command(command),
        title: title.to_owned(),
        subtitle: None,
        search_name: to_lowercase(title),
        request_recency_rank: None,
    }
}

/// The palette's entries: one per tree node, in tree order (see
/// `entry_for`), followed by the three app commands.
pub fn build_entries_from_descriptors(
    descriptors: Vec<WorkspaceTreeDescriptor>,
    recent_request_ids: &[u128],
) -> (r: Vec<CommandPaletteEntry>)
    ensures
        r@.len() == descriptors@.len() + 3,
        forall|i: int|
            0 <= i < descriptors@.len() ==> entry_for(
                descriptors@[i],
                recent_request_ids@,
                #[trigger] r@[i],
            ),
        forall|j: int|
            0 <= j < 3 ==> entry_for_command(
                all_commands()[j],
                #[trigger] r@[descriptors@.len() + j],
            ),
{
    let mut out: Vec<CommandPaletteEntry> = Vec::new();
    let mut i: usize = 0;
    while i < descriptors.len()
        invariant
            i <= descriptors@.len(),
            out@.len() == i,
            forall|k: int|
                0 <= k < i ==> entry_for(descriptors@[k], recent_request_ids@, #[trigger] out@[k]),
        decreases descriptors@.len() - i,
    {
        let d = &descriptors[i];
        let subtitle = if d.ancestor_path.len() == 0 {
            None
        } else {
            Some(joined_path(&d.ancestor_path))
        };
        let (kind, rank) = match d.kind {
            TreeNodeKind::Request => (
                CommandPaletteEntryKind::Request { request_id: d.id },
                first_rank(recent_request_ids, d.id),
            ),
            TreeNodeKind::Folder => (CommandPaletteEntryKind::Folder { folder_id: d.id }, None),
        };
        out.push(
            CommandPaletteEntry {
                kind,
                search_name: to_lowercase(d.name.as_str()),
                title: d.name.clone(),
                subtitle,
                request_recency_rank: rank,
            },
        );
        i = i + 1;
    }
    out.push(command_entry(CommandPaletteCommand::OpenSettings));
    out.push(command_entry(CommandPaletteCommand::OpenKeyBindings));
    out.push(command_entry(CommandPaletteCommand::OpenEnvironmentManager));
    out
}

/// Sorting by the recency rank alone (entries without a rank last).
pub open spec fn rank_key(e: CommandPaletteEntry) -> int {
    match e.request_recency_rank {
        Some(r) => r as int,
        None => 0x1_0000_0000_0000_0000,
    }
}

/// How well a search name matches a query: exactly (0), as a prefix (1),
/// or elsewhere (2).
pub open spec fn match_tier(e: CommandPaletteEntry, q: Seq<char>) -> int {
    if e.search_name@ == q {
        0
    } else if starts_with(e.search_name@, q) {
        1
    } else {
        2
    }
}

/// The order of search results: by match tier, then by recency rank with
/// unranked entries last.
pub open spec fn search_key(e: CommandPaletteEntry, q: Seq<char>) -> int {
    match_tier(e, q) * 0x2_0000_0000_0000_0000 + rank_key(e)
}

/// The sort key in use: the recency rank (`by_rank`), or the search order
/// for the query `q`.
pub open spec fn sort_key(e: CommandPaletteEntry, q: Seq<char>, by_rank: bool) -> int {
    if by_rank {
        rank_key(e)
    } else {
        search_key(e, q)
    }
}

/// The entries of `s` with sort key `k`, in the order of `s`.
pub open spec fn select(s: Seq<CommandPaletteEntry>, q: Seq<char>, by_rank: bool, k: int) -> Seq<
    CommandPaletteEntry,
>
    decreases s.len(),
{
    if s.len() == 0 {
        seq![]
    } else if sort_key(s.last(), q, by_rank) == k {
        select(s.drop_last(), q, by_rank, k).push(s.last())
    } else {
        select(s.drop_last(), q, by_rank, k)
    }
}

/// `r` is `s` sorted stably by the sort key: the keys never decrease, and
/// the entries of each key keep their order in `s`.
pub open spec fn stably_sorted(
    r: Seq<CommandPaletteEntry>,
    s: Seq<CommandPaletteEntry>,
    q: Seq<char>,
    by_rank: bool,
) -> bool {
    &&& forall|i: int, j: int|
        0 <= i < j < r.len() ==> sort_key(r[i], q, by_rank) <= sort_key(r[j], q, by_rank)
    &&& forall|k: int| #[trigger] select(r, q, by_rank, k) == select(s, q, by_rank, k)
}

proof fn lemma_select_concat(
    a: Seq<CommandPaletteEntry>,
    b: Seq<CommandPaletteEntry>,
    q: Seq<char>,
    by_rank: bool,
    k: int,
)
    ensures
        select(a + b, q, by_rank, k) == select(a, q, by_rank, k) + select(b, q, by_rank, k),
    decreases b.len(),
{
    if b.len() == 0 {
        assert(a + b == a);
    } else {
        assert((a + b).drop_last() == a + b.drop_last());
        assert((a + b).last() == b.last());
        lemma_select_concat(a, b.drop_last(), q, by_rank, k);
    }
}

proof fn lemma_select_none(s: Seq<CommandPaletteEntry>, q: Seq<char>, by_rank: bool, k: int)
    requires
        forall|i: int| 0 <= i < s.len() ==> sort_key(#[trigger] s[i], q, by_rank) != k,
    ensures
        select(s, q, by_rank, k) == Seq::<CommandPaletteEntry>::empty(),
    decreases s.len(),
{
    if s.len() > 0 {
        lemma_select_none(s.drop_last(), q, by_rank, k);
    }
}

fn rank_key_exec(e: &CommandPaletteEntry) -> (r: u128)
    ensures
        r == rank_key(*e),
{
    match e.request_recency_rank {
        Some(rank) => rank as u128,
        None => 0x1_0000_0000_0000_0000u128,
    }
}

fn match_tier_exec(e: &CommandPaletteEntry, q: &Vec<char>) -> (r: u128)
    ensures
        r == match_tier(*e, q@),
{
    let name = chars_of(e.search_name.as_str());
    if name.len() == q.len() && starts_with_chars(&name, q) {
        assert(name@.take(q@.len() as int) == name@);
        0
    } else if starts_with_chars(&name, q) {
        proof {
            if name@ == q@ {
                assert(name@.take(q@.len() as int) == name@);
            }
        }
        1
    } else {
        proof {
            if name@ == q@ {
                assert(name@.take(q@.len() as int) == name@);
            }
        }
        2
    }
}

fn sort_key_exec(e: &CommandPaletteEntry, q: &Vec<char>, by_rank: bool) -> (r: u128)
    ensures
        r == sort_key(*e, q@, by_rank),
{
    if by_rank {
        rank_key_exec(e)
    } else {
        match_tier_exec(e, q) * 0x2_0000_0000_0000_0000u128 + rank_key_exec(e)
    }
}

/// Puts `x` into the sorted `r` after every entry whose key is not larger.
fn insert_sorted(
    r: &mut Vec<CommandPaletteEntry>,
    keys: &mut Vec<u128>,
    x: CommandPaletteEntry,
    q: &Vec<char>,
    by_rank: bool,
)
    requires
        old(keys)@.len() == old(r)@.len(),
        forall|i: int| 0 <= i < old(r)@.len() ==> old(keys)@[i] == sort_key(#[trigger] old(r)@[i], q@, by_rank),
        forall|i: int, j: int|
            0 <= i < j < old(r)@.len() ==> sort_key(old(r)@[i], q@, by_rank) <= sort_key(
                old(r)@[j],
                q@,
                by_rank,
            ),
    ensures
        final(keys)@.len() == final(r)@.len(),
        final(r)@.len() == old(r)@.len() + 1,
        forall|i: int| 0 <= i < final(r)@.len() ==> final(keys)@[i] == sort_key(#[trigger] final(r)@[i], q@, by_rank),
        forall|i: int, j: int|
            0 <= i < j < final(r)@.len() ==> sort_key(final(r)@[i], q@, by_rank) <= sort_key(
                final(r)@[j],
                q@,
                by_rank,
            ),
        forall|k: int|
            #[trigger] select(final(r)@, q@, by_rank, k) == if k == sort_key(x, q@, by_rank) {
                select(old(r)@, q@, by_rank, k).push(x)
            } else {
                select(old(r)@, q@, by_rank, k)
            },
{
    let kx = sort_key_exec(&x, q, by_rank);
    let mut p: usize = 0;
    while p < keys.len() && keys[p] <= kx
        invariant
            p <= keys@.len(),
            keys@.len() == r@.len(),
            forall|i: int| 0 <= i < p ==> keys@[i] <= kx,
        decreases keys@.len() - p,
    {
        p = p + 1;
    }
    let ghost old_r = r@;
    proof {
        assert forall|i: int| p <= i < old_r.len() implies sort_key(#[trigger] old_r[i], q@, by_rank) > kx by {
            assert(sort_key(old_r[p as int], q@, by_rank) <= sort_key(old_r[i], q@, by_rank) || i == p);
        }
    }
    r.insert(p, x);
    keys.insert(p, kx);
    proof {
        let new_r = r@;
        assert(new_r == old_r.take(p as int) + seq![x] + old_r.skip(p as int));
        assert(old_r == old_r.take(p as int) + old_r.skip(p as int));
        assert forall|k: int|
            #[trigger] select(new_r, q@, by_rank, k) == if k == kx {
                select(old_r, q@, by_rank, k).push(x)
            } else {
                select(old_r, q@, by_rank, k)
            } by {
            let a = old_r.take(p as int);
            let b = old_r.skip(p as int);
            lemma_select_concat(a + seq![x], b, q@, by_rank, k);
            lemma_select_concat(a, seq![x], q@, by_rank, k);
            lemma_select_concat(a, b, q@, by_rank, k);
            assert(seq![x].drop_last() == Seq::<CommandPaletteEntry>::empty());
            assert(seq![x].last() == x);
            assert(select(Seq::<CommandPaletteEntry>::empty(), q@, by_rank, k) == Seq::<CommandPaletteEntry>::empty());
            assert(select(seq![x], q@, by_rank, k) == if k == kx {
                seq![x]
            } else {
                Seq::<CommandPaletteEntry>::empty()
            });
            if k == kx {
                assert forall|i: int| 0 <= i < b.len() implies sort_key(#[trigger] b[i], q@, by_rank) != k by {
                    assert(b[i] == old_r[p + i]);
                }
                lemma_select_none(b, q@, by_rank, k);
                assert(select(new_r, q@, by_rank, k) == select(a, q@, by_rank, k) + seq![x]);
                assert(select(old_r, q@, by_rank, k) == select(a, q@, by_rank, k));
            } else {
                assert(select(new_r, q@, by_rank, k) == select(a, q@, by_rank, k) + select(b, q@, by_rank, k));
            }
        }
        assert forall|i: int, j: int|
            0 <= i < j < new_r.len() implies sort_key(new_r[i], q@, by_rank) <= sort_key(
                new_r[j],
                q@,
                by_rank,
            ) by {
            if i < p && j < p {
                assert(new_r[i] == old_r[i] && new_r[j] == old_r[j]);
            } else if i < p && j == p {
                assert(new_r[i] == old_r[i]);
            } else if i < p {
                assert(new_r[i] == old_r[i] && new_r[j] == old_r[j - 1]);
            } else if i == p {
                assert(new_r[j] == old_r[j - 1]);
            } else {
                assert(new_r[i] == old_r[i - 1] && new_r[j] == old_r[j - 1]);
            }
        }
    }
}

/// The entries of `s` whose search name contains `q`, in order.
pub open spec fn matching(s: Seq<CommandPaletteEntry>, q: Seq<char>) -> Seq<CommandPaletteEntry>
    decreases s.len(),
{
    if s.len() == 0 {
        seq![]
    } else if contains_seq(s.last().search_name@, q) {
        matching(s.drop_last(), q).push(s.last())
    } else {
        matching(s.drop_last(), q)
    }
}

/// The entries of `s` with a recency rank, in order.
pub open spec fn ranked(s: Seq<CommandPaletteEntry>) -> Seq<CommandPaletteEntry>
    decreases s.len(),
{
    if s.len() == 0 {
        seq![]
    } else if s.last().request_recency_rank is Some {
        ranked(s.drop_last()).push(s.last())
    } else {
        ranked(s.drop_last())
    }
}

/// The command entries of `s`, in order.
pub open spec fn commands_of(s: Seq<CommandPaletteEntry>) -> Seq<CommandPaletteEntry>
    decreases s.len(),
{
    if s.len() == 0 {
        seq![]
    } else if s.last().kind is Command {
        commands_of(s.drop_last()).push(s.last())
    } else {
        commands_of(s.drop_last())
    }
}

/// The query the palette searches for: `query` trimmed, then lower-cased
/// unless trimming left nothing.
pub open spec fn palette_query(query: Seq<char>) -> Seq<char> {
    if trim(query).len() == 0 {
        seq![]
    } else {
        lowercased(trim(query))
    }
}

/// The palette's search: `query`, trimmed and lower-cased, selects the
/// entries whose search name contains it, sorted stably with exact
/// matches first, then prefix matches, then the rest, and within a tier
/// recently opened requests first, most recent first. An empty query
/// lists the recently opened requests, most recent first, then the app
/// commands.
pub fn filter_command_palette_entries(entries: &[CommandPaletteEntry], query: &str) -> (r: Vec<
    CommandPaletteEntry,
>)
    ensures
        ({
            let q = palette_query(query@);
            if q.len() == 0 {
                let n = ranked(entries@).len();
                &&& r@.len() == n + commands_of(entries@).len()
                &&& stably_sorted(r@.take(n as int), ranked(entries@), q, true)
                &&& r@.skip(n as int) == commands_of(entries@)
            } else {
                &&& r@.len() == matching(entries@, q).len()
                &&& stably_sorted(r@, matching(entries@, q), q, false)
            }
        }),
{
    let t = trimmed_str(query);
    let q = if t.len() == 0 {
        Vec::new()
    } else {
        let tq = string_of(&t);
        chars_of(to_lowercase(tq.as_str()).as_str())
    };
    let by_rank = q.len() == 0;
    let mut out: Vec<CommandPaletteEntry> = Vec::new();
    let mut keys: Vec<u128> = Vec::new();
    let ghost mut chosen: Seq<CommandPaletteEntry> = seq![];
    let mut i: usize = 0;
    while i < entries.len()
        invariant
            i <= entries@.len(),
            by_rank == (q@.len() == 0),
            keys@.len() == out@.len(),
            out@.len() == chosen.len(),
            chosen == if by_rank {
                ranked(entries@.take(i as int))
            } else {
                matching(entries@.take(i as int), q@)
            },
            forall|j: int| 0 <= j < out@.len() ==> keys@[j] == sort_key(#[trigger] out@[j], q@, by_rank),
            forall|a: int, b: int|
                0 <= a < b < out@.len() ==> sort_key(out@[a], q@, by_rank) <= sort_key(
                    out@[b],
                    q@,
                    by_rank,
                ),
            forall|k: int| #[trigger] select(out@, q@, by_rank, k) == select(chosen, q@, by_rank, k),
        decreases entries@.len() - i,
    {
        let e = &entries[i];
        assert(entries@.take(i + 1).drop_last() == entries@.take(i as int));
        assert(entries@.take(i + 1).last() == *e);
        let keep = if by_rank {
            e.request_recency_rank.is_some()
        } else {
            contains_chars(&chars_of(e.search_name.as_str()), &q)
        };
        if keep {
            let ghost before = out@;
            insert_sorted(&mut out, &mut keys, e.duplicate(), &q, by_rank);
            proof {
                let new_chosen = chosen.push(*e);
                assert(new_chosen.drop_last() == chosen);
                assert forall|k: int| #[trigger] select(out@, q@, by_rank, k) == select(new_chosen, q@, by_rank, k) by {
                    assert(select(before, q@, by_rank, k) == select(chosen, q@, by_rank, k));
                }
                chosen = new_chosen;
            }
        }
        i = i + 1;
    }
    assert(entries@.take(entries@.len() as int) == entries@);
    let ghost n = out@.len();
    if by_rank {
        let ghost sorted_part = out@;
        let mut j: usize = 0;
        while j < entries.len()
            invariant
                j <= entries@.len(),
                out@.len() >= n,
                out@.take(n as int) == sorted_part,
                out@.skip(n as int) == commands_of(entries@.take(j as int)),
            decreases entries@.len() - j,
        {
            let e = &entries[j];
            assert(entries@.take(j + 1).drop_last() == entries@.take(j as int));
            assert(entries@.take(j + 1).last() == *e);
            let is_command = match e.kind {
                CommandPaletteEntryKind::Command(_) => true,
                _ => false,
            };
            if is_command {
                let ghost before = out@;
                out.push(e.duplicate());
                assert(out@.take(n as int) == before.take(n as int));
                assert(out@.skip(n as int) == before.skip(n as int).push(*e));
            }
            j = j + 1;
        }
        assert(entries@.take(entries@.len() as int) == entries@);
    }
    out
}

proof fn lemma_select_member(s: Seq<CommandPaletteEntry>, q: Seq<char>, by_rank: bool, i: int)
    requires
        0 <= i < s.len(),
    ensures
        select(s, q, by_rank, sort_key(s[i], q, by_rank)).contains(s[i]),
    decreases s.len(),
{
    let k = sort_key(s[i], q, by_rank);
    if i == s.len() - 1 {
        assert(select(s, q, by_rank, k).last() == s[i]);
    } else {
        assert(s.drop_last()[i] == s[i]);
        lemma_select_member(s.drop_last(), q, by_rank, i);
        let p = select(s.drop_last(), q, by_rank, k);
        let j = choose|j: int| 0 <= j < p.len() && p[j] == s[i];
        if sort_key(s.last(), q, by_rank) == k {
            assert(select(s, q, by_rank, k)[j] == s[i]);
        }
    }
}

proof fn lemma_select_subset(
    s: Seq<CommandPaletteEntry>,
    q: Seq<char>,
    by_rank: bool,
    k: int,
    e: CommandPaletteEntry,
)
    requires
        select(s, q, by_rank, k).contains(e),
    ensures
        s.contains(e),
    decreases s.len(),
{
    if s.len() > 0 {
        let p = select(s.drop_last(), q, by_rank, k);
        if sort_key(s.last(), q, by_rank) == k && e == s.last() {
            assert(s[s.len() - 1] == e);
        } else {
            if sort_key(s.last(), q, by_rank) == k {
                let j = choose|j: int| 0 <= j < select(s, q, by_rank, k).len() && select(s, q, by_rank, k)[j] == e;
                assert(j < p.len());
                assert(p[j] == e);
            }
            lemma_select_subset(s.drop_last(), q, by_rank, k, e);
            let j = choose|j: int| 0 <= j < s.drop_last().len() && s.drop_last()[j] == e;
            assert(s[j] == e);
        }
    }
}

proof fn lemma_matching_subset(s: Seq<CommandPaletteEntry>, q: Seq<char>, e: CommandPaletteEntry)
    requires
        matching(s, q).contains(e),
    ensures
        s.contains(e),
        contains_seq(e.search_name@, q),
    decreases s.len(),
{
    if s.len() > 0 {
        let p = matching(s.drop_last(), q);
        if contains_seq(s.last().search_name@, q) && e == s.last() {
            assert(s[s.len() - 1] == e);
        } else {
            if contains_seq(s.last().search_name@, q) {
                let j = choose|j: int| 0 <= j < matching(s, q).len() && matching(s, q)[j] == e;
                assert(j < p.len());
                assert(p[j] == e);
            }
            lemma_matching_subset(s.drop_last(), q, e);
            let j = choose|j: int| 0 <= j < s.drop_last().len() && s.drop_last()[j] == e;
            assert(s[j] == e);
        }
    }
}

/// Every search result is an entry of the palette whose search name
/// contains the query; titles, subtitles and other fields play no part.
pub proof fn lemma_search_results_match_query(
    entries: Seq<CommandPaletteEntry>,
    q: Seq<char>,
    r: Seq<CommandPaletteEntry>,
)
    requires
        stably_sorted(r, matching(entries, q), q, false),
    ensures
        forall|i: int|
            0 <= i < r.len() ==> entries.contains(#[trigger] r[i]) && contains_seq(r[i].search_name@, q),
{
    assert forall|i: int| 0 <= i < r.len() implies entries.contains(#[trigger] r[i]) && contains_seq(
        r[i].search_name@,
        q,
    ) by {
        let k = sort_key(r[i], q, false);
        lemma_select_member(r, q, false, i);
        assert(select(r, q, false, k) == select(matching(entries, q), q, false, k));
        lemma_select_subset(matching(entries, q), q, false, k, r[i]);
        lemma_matching_subset(entries, q, r[i]);
    }
}

/// Search results come in tiers: exact matches of the query first, then
/// names that start with it, then names that merely contain it; within a
/// tier, recently opened requests come first, the most recent first.
pub proof fn lemma_search_results_ordered(
    entries: Seq<CommandPaletteEntry>,
    q: Seq<char>,
    r: Seq<CommandPaletteEntry>,
)
    requires
        stably_sorted(r, matching(entries, q), q, false),
    ensures
        forall|i: int, j: int|
            0 <= i < j < r.len() ==> match_tier(r[i], q) <= match_tier(r[j], q),
        forall|i: int, j: int|
            0 <= i < j < r.len() && match_tier(r[i], q) == match_tier(r[j], q) ==> rank_key(r[i])
                <= rank_key(r[j]),
{
    assert forall|i: int, j: int| 0 <= i < j < r.len() implies match_tier(r[i], q) <= match_tier(
        r[j],
        q,
    ) by {
        assert(sort_key(r[i], q, false) <= sort_key(r[j], q, false));
    }
}

} // verus!
