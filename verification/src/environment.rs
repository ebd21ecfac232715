//! Environments: where an environment's file lies in a workspace, and the
//! name a new environment gets.
use vstd::prelude::*;
use vstd::set_lib::{lemma_int_range, lemma_len_subset, lemma_map_size, set_int_range};
use std::path::PathBuf;
use crate::models::EnvironmentVariable;
use crate::text::{
    ascii_lower, ascii_lower_char, ascii_lowercase, decimal, digit_char, push_decimal, string_of,
    trim, trimmed_str,
};

verus! {

/// `std::path::PathBuf`, an owned file-system path.
#[verifier::external_type_specification]
#[verifier::external_body]
pub struct ExPathBuf(std::path::PathBuf);

/// The path `PathBuf::join` makes of `dir` and `name`: `name` inside `dir`
/// (or `name` itself when it is absolute), by the platform's path rules.
/// It reads neither the disk nor the working directory.
pub uninterp spec fn joined_path(dir: PathBuf, name: Seq<char>) -> PathBuf;

/// `dir.join(name)`. Trusted: the result is `joined_path` of the directory
/// and the name.
#[verifier::external_body]
fn join_path(dir: &PathBuf, name: &str) -> (r: PathBuf)
    ensures
        r == joined_path(*dir, name@),
{
    dir.join(name)
}

/// The file name an environment is stored under, trimmed; `None` when it is
/// blank.
pub fn environment_file_name(file_name: &str) -> (r: Option<String>)
    ensures
        trim(file_name@).len() == 0 ==> r is None,
        trim(file_name@).len() != 0 ==> (r matches Some(n) && n@ == trim(file_name@)),
{
    let t = trimmed_str(file_name);
    if t.len() == 0 {
        None
    } else {
        Some(string_of(t.as_slice()))
    }
}

/// Where the file of an environment lies: its trimmed file name inside the
/// workspace's environments directory; `None` when the name is blank.
pub fn environment_file_path_for_workspace(environments_dir: &PathBuf, file_name: &str) -> (r: Option<
    PathBuf,
>)
    ensures
        r is Some <==> trim(file_name@).len() != 0,
        r matches Some(p) ==> p == joined_path(*environments_dir, trim(file_name@)),
{
    match environment_file_name(file_name) {
        Some(name) => Some(join_path(environments_dir, name.as_str())),
        None => None,
    }
}

/// The name a new environment first tries.
pub open spec fn base_environment_name() -> Seq<char> {
    "New Environment"@
}

/// The `k`-th name a new environment tries: the base name, then the base
/// name followed by 2, 3, ...
pub open spec fn environment_candidate(k: nat) -> Seq<char> {
    if k <= 1 {
        base_environment_name()
    } else {
        base_environment_name() + " "@ + decimal(k)
    }
}

/// Whether some label equals `name` up to ASCII case.
pub open spec fn name_taken(labels: Seq<Seq<char>>, name: Seq<char>) -> bool {
    exists|i: int| 0 <= i < labels.len() && ascii_lowercase(#[trigger] labels[i]) == ascii_lowercase(name)
}

/// The labels of environment options.
pub open spec fn option_labels(options: Seq<(u128, String)>) -> Seq<Seq<char>> {
    options.map_values(|o: (u128, String)| o.1@)
}

proof fn lemma_decimal_len(n: nat)
    ensures
        decimal(n).len() >= 1,
        (decimal(n).len() == 1) == (n < 10),
    decreases n,
{
    if n >= 10 {
        lemma_decimal_len(n / 10);
    }
}

proof fn lemma_digit_char(d: nat)
    requires
        d < 10,
    ensures
        digit_char(d) as int == d + 48,
        '0' <= digit_char(d) <= '9',
{
}

proof fn lemma_decimal_injective(a: nat, b: nat)
    requires
        decimal(a) == decimal(b),
    ensures
        a == b,
    decreases a,
{
    lemma_decimal_len(a);
    lemma_decimal_len(b);
    if a < 10 {
        assert(b < 10);
        lemma_digit_char(a);
        lemma_digit_char(b);
        assert(decimal(a) == seq![digit_char(a)]);
        assert(decimal(b) == seq![digit_char(b)]);
        assert(decimal(a)[0] == digit_char(a));
        assert(decimal(b)[0] == digit_char(b));
    } else {
        assert(b >= 10);
        let da = decimal(a);
        let db = decimal(b);
        assert(da == decimal(a / 10).push(digit_char(a % 10)));
        assert(db == decimal(b / 10).push(digit_char(b % 10)));
        assert(da.last() == db.last());
        lemma_digit_char(a % 10);
        lemma_digit_char(b % 10);
        assert(a % 10 == b % 10);
        assert(da.drop_last() =~= decimal(a / 10));
        assert(db.drop_last() =~= decimal(b / 10));
        lemma_decimal_injective(a / 10, b / 10);
        assert(a == 10 * (a / 10) + a % 10) by (nonlinear_arith);
        assert(b == 10 * (b / 10) + b % 10) by (nonlinear_arith);
    }
}

proof fn lemma_decimal_digits(n: nat)
    ensures
        forall|i: int| 0 <= i < decimal(n).len() ==> '0' <= #[trigger] decimal(n)[i] <= '9',
    decreases n,
{
    if n < 10 {
        lemma_digit_char(n);
        assert(decimal(n) == seq![digit_char(n)]);
    } else {
        lemma_decimal_digits(n / 10);
        lemma_digit_char(n % 10);
        let d = decimal(n);
        let p = decimal(n / 10);
        assert(d == p.push(digit_char(n % 10)));
        assert forall|i: int| 0 <= i < d.len() implies '0' <= #[trigger] d[i] <= '9' by {
            if i < p.len() {
                assert(d[i] == p[i]);
            }
        }
    }
}

proof fn lemma_ascii_lowercase_concat(a: Seq<char>, b: Seq<char>)
    ensures
        ascii_lowercase(a + b) == ascii_lowercase(a) + ascii_lowercase(b),
{
    assert(ascii_lowercase(a + b) =~= ascii_lowercase(a) + ascii_lowercase(b));
}

/// Different candidates differ even ignoring ASCII case.
proof fn lemma_candidates_distinct(j: nat, k: nat)
    requires
        1 <= j,
        1 <= k,
        ascii_lowercase(environment_candidate(j)) == ascii_lowercase(environment_candidate(k)),
    ensures
        j == k,
{
    reveal_strlit("New Environment");
    reveal_strlit(" ");
    let base = base_environment_name() + " "@;
    assert(base.len() == 16);
    if j >= 2 {
        lemma_decimal_len(j);
        lemma_ascii_lowercase_concat(base, decimal(j));
    }
    if k >= 2 {
        lemma_decimal_len(k);
        lemma_ascii_lowercase_concat(base, decimal(k));
    }
    if j >= 2 && k >= 2 {
        lemma_decimal_digits(j);
        lemma_decimal_digits(k);
        assert(ascii_lowercase(decimal(j)) =~= decimal(j));
        assert(ascii_lowercase(decimal(k)) =~= decimal(k));
        let lj = ascii_lowercase(environment_candidate(j));
        assert(lj.skip(16) =~= decimal(j));
        assert(ascii_lowercase(environment_candidate(k)).skip(16) =~= decimal(k));
        lemma_decimal_injective(j, k);
    } else if j >= 2 || k >= 2 {
        assert(ascii_lowercase(environment_candidate(j)).len() != ascii_lowercase(
            environment_candidate(k),
        ).len());
    }
}

/// No more candidates can be taken than there are labels: the first
/// `k` candidates all taken means at least `k` labels.
proof fn lemma_taken_candidates_bound(labels: Seq<Seq<char>>, k: nat)
    requires
        forall|j: nat| 1 <= j <= k ==> name_taken(labels, #[trigger] environment_candidate(j)),
    ensures
        k <= labels.len(),
{
    let x = set_int_range(1, k as int + 1);
    let f = |j: int|
        choose|i: int|
            0 <= i < labels.len() && ascii_lowercase(labels[i]) == ascii_lowercase(
                environment_candidate(j as nat),
            );
    lemma_int_range(1, k as int + 1);
    assert forall|j: int| #[trigger] x.contains(j) implies {
        &&& 0 <= f(j) < labels.len()
        &&& ascii_lowercase(labels[f(j)]) == ascii_lowercase(environment_candidate(j as nat))
    } by {
        assert(name_taken(labels, environment_candidate(j as nat)));
    }
    assert forall|a: int, b: int| x.contains(a) && x.contains(b) && #[trigger] f(a) == #[trigger] f(b) implies a == b by {
        lemma_candidates_distinct(a as nat, b as nat);
    }
    let y = x.map(f);
    lemma_map_size(x, y, f);
    lemma_int_range(0, labels.len() as int);
    assert(y.subset_of(set_int_range(0, labels.len() as int)));
    lemma_len_subset(y, set_int_range(0, labels.len() as int));
}

/// Whether some option's label equals `name` up to ASCII case.
fn label_taken(options: &[(u128, String)], name: &String) -> (r: bool)
    ensures
        r == name_taken(option_labels(options@), name@),
{
    let ghost labels = option_labels(options@);
    let mut i: usize = 0;
    while i < options.len()
        invariant
            i <= options@.len(),
            labels == option_labels(options@),
            forall|j: int| 0 <= j < i ==> ascii_lowercase(#[trigger] labels[j]) != ascii_lowercase(name@),
        decreases options@.len() - i,
    {
        if eq_ignore_ascii_case(&options[i].1, name) {
            assert(labels[i as int] == options@[i as int].1@);
            return true;
        }
        i = i + 1;
    }
    false
}

/// Whether `a` and `b` are equal up to ASCII case
/// (`str::eq_ignore_ascii_case`).
fn eq_ignore_ascii_case(a: &String, b: &String) -> (r: bool)
    ensures
        r == (ascii_lowercase(a@) == ascii_lowercase(b@)),
{
    let x = crate::text::chars_of(a.as_str());
    let y = crate::text::chars_of(b.as_str());
    if x.len() != y.len() {
        assert(ascii_lowercase(a@).len() != ascii_lowercase(b@).len());
        return false;
    }
    let mut i: usize = 0;
    while i < x.len()
        invariant
            x@ == a@,
            y@ == b@,
            x@.len() == y@.len(),
            i <= x@.len(),
            forall|j: int| 0 <= j < i ==> ascii_lower(#[trigger] x@[j]) == ascii_lower(y@[j]),
        decreases x@.len() - i,
    {
        if ascii_lower_char(x[i]) != ascii_lower_char(y[i]) {
            assert(ascii_lowercase(a@)[i as int] != ascii_lowercase(b@)[i as int]);
            return false;
        }
        i = i + 1;
    }
    assert(ascii_lowercase(a@) =~= ascii_lowercase(b@));
    true
}

/// The name a new environment gets: the first of "New Environment",
/// "New Environment 2", "New Environment 3", ... that no option's label
/// equals up to ASCII case.
pub fn next_default_environment_name(options: &[(u128, String)]) -> (r: String)
    ensures
        exists|k: nat|
            #![trigger environment_candidate(k)]
            k >= 1 && r@ == environment_candidate(k) && !name_taken(option_labels(options@), r@)
                && forall|j: nat|
                1 <= j < k ==> name_taken(option_labels(options@), #[trigger] environment_candidate(j)),
{
    let ghost labels = option_labels(options@);
    let base = "New Environment".to_owned();
    if !label_taken(options, &base) {
        assert(environment_candidate(1) == base@);
        return base;
    }
    assert(environment_candidate(1) == base@);
    let n = options.len();
    let mut suffix: u128 = 2;
    loop
        invariant
            labels == option_labels(options@),
            n == options@.len() == labels.len(),
            2 <= suffix <= n as u128 + 2,
            forall|j: nat| 1 <= j < suffix ==> name_taken(labels, #[trigger] environment_candidate(j)),
        decreases n as u128 + 2 - suffix,
    {
        let mut candidate = "New Environment ".to_owned();
        push_decimal(&mut candidate, suffix);
        proof {
            reveal_strlit("New Environment ");
            reveal_strlit("New Environment");
            reveal_strlit(" ");
            assert(candidate@ =~= environment_candidate(suffix as nat));
        }
        if !label_taken(options, &candidate) {
            return candidate;
        }
        proof {
            lemma_taken_candidates_bound(labels, suffix as nat);
        }
        suffix = suffix + 1;
    }
}

proof fn lemma_filter_push<A>(s: Seq<A>, p: spec_fn(A) -> bool, x: A)
    ensures
        s.push(x).filter(p) == if p(x) {
            s.filter(p).push(x)
        } else {
            s.filter(p)
        },
{
    reveal(Seq::filter);
    assert(s.push(x).drop_last() =~= s);
}

/// Whether `selected` names one of the options.
pub open spec fn still_offered(options: Seq<(u128, String)>, selected: Option<u128>) -> bool {
    selected matches Some(id) && exists|i: int| 0 <= i < options.len() && (#[trigger] options[i]).0 == id
}

/// The environment selected after the options change: the selected one
/// while it is still an option, else the first option, else none.
pub fn selection_after_sync(options: &[(u128, String)], selected: Option<u128>) -> (r: Option<u128>)
    ensures
        still_offered(options@, selected) ==> r == selected,
        !still_offered(options@, selected) ==> r == if options@.len() > 0 {
            Some(options@[0].0)
        } else {
            None
        },
{
    if let Some(id) = selected {
        let mut i: usize = 0;
        while i < options.len()
            invariant
                selected == Some(id),
                i <= options@.len(),
                forall|j: int| 0 <= j < i ==> (#[trigger] options@[j]).0 != id,
            decreases options@.len() - i,
        {
            if options[i].0 == id {
                assert(options@[i as int].0 == id);
                return Some(id);
            }
            i = i + 1;
        }
    }
    if options.len() > 0 {
        Some(options[0].0)
    } else {
        None
    }
}

/// The label shown for the selected environment: the label of the first
/// option with the selected id, or "No environment" when nothing is
/// selected or the selection names no option.
pub fn selected_environment_label(options: &[(u128, String)], selected: Option<u128>) -> (r: String)
    ensures
        still_offered(options@, selected) ==> exists|i: int|
            0 <= i < options@.len() && Some(#[trigger] options@[i].0) == selected && r@
                == options@[i].1@ && forall|j: int| 0 <= j < i ==> Some(#[trigger] options@[j].0)
                != selected,
        !still_offered(options@, selected) ==> r@ == "No environment"@,
{
    if let Some(id) = selected {
        let mut i: usize = 0;
        while i < options.len()
            invariant
                selected == Some(id),
                i <= options@.len(),
                forall|j: int| 0 <= j < i ==> (#[trigger] options@[j]).0 != id,
            decreases options@.len() - i,
        {
            if options[i].0 == id {
                let label = options[i].1.clone();
                assert(Some(options@[i as int].0) == selected);
                return label;
            }
            i = i + 1;
        }
    }
    "No environment".to_owned()
}

/// Drops the option of a deleted environment and returns the environment
/// selected next: the first option left, if any.
pub fn remove_environment_option(options: &mut Vec<(u128, String)>, environment_id: u128) -> (r:
    Option<u128>)
    ensures
        final(options)@ == old(options)@.filter(|o: (u128, String)| o.0 != environment_id),
        r == if final(options)@.len() > 0 {
            Some(final(options)@[0].0)
        } else {
            None
        },
{
    let mut kept: Vec<(u128, String)> = Vec::new();
    let mut i: usize = 0;
    while i < options.len()
        invariant
            i <= old(options)@.len(),
            options@ == old(options)@,
            kept@ == old(options)@.take(i as int).filter(|o: (u128, String)| o.0 != environment_id),
        decreases old(options)@.len() - i,
    {
        proof {
            let s = old(options)@.take(i + 1);
            assert(s.drop_last() =~= old(options)@.take(i as int));
            assert(s.last() == old(options)@[i as int]);
            lemma_filter_push(
                old(options)@.take(i as int),
                |o: (u128, String)| o.0 != environment_id,
                old(options)@[i as int],
            );
            assert(s =~= old(options)@.take(i as int).push(old(options)@[i as int]));
        }
        if options[i].0 != environment_id {
            let label = options[i].1.clone();
            kept.push((options[i].0, label));
        }
        i = i + 1;
    }
    assert(old(options)@.take(old(options)@.len() as int) =~= old(options)@);
    *options = kept;
    if options.len() > 0 {
        Some(options[0].0)
    } else {
        None
    }
}

/// The saving of an environment's name and variables, debounced: edits
/// set a due time, and a ticking check saves once it has passed.
#[derive(Debug, Clone)]
pub struct VariablesSave {
    pub selected_id: Option<u128>,
    pub pending_due_at_ms: Option<u64>,
    pub tick_scheduled: bool,
    pub in_flight: bool,
    pub loaded_environment_name: Option<String>,
    pub error: Option<String>,
}

/// What a tick of the save check comes to.
#[derive(Debug, Clone)]
pub enum SaveStep {
    /// Nothing to do; the ticking stops.
    Idle,
    /// The save is not due yet; the check ticks again.
    Wait,
    /// The name is blank; nothing is saved.
    NameEmpty,
    /// Save: rename the environment first when its name changed, then
    /// store these variables.
    Save { environment_id: u128, rename: Option<String>, variables: Vec<EnvironmentVariable> },
}

/// How long after an edit the environment is saved, in milliseconds.
pub const VARIABLES_SAVE_DELAY_MS: u64 = 350;

/// How long a save waits to be retried after backpressure, in
/// milliseconds.
pub const BACKPRESSURE_RETRY_MS: u64 = 100;

/// The variables worth saving: those whose name is not blank, in order.
pub open spec fn named_variables(vars: Seq<EnvironmentVariable>) -> Seq<EnvironmentVariable> {
    vars.filter(|v: EnvironmentVariable| trim(v.name@).len() != 0)
}

impl VariablesSave {
    /// Sets the save due `delay_ms` after `now_ms` when an environment is
    /// selected; returns whether a tick must be started (none was running).
    pub fn schedule_save(&mut self, now_ms: u64, delay_ms: u64) -> (start_tick: bool)
        ensures
            old(self).selected_id is None ==> *final(self) == *old(self) && !start_tick,
            old(self).selected_id is Some ==> {
                &&& start_tick == !old(self).tick_scheduled
                &&& *final(self) == (VariablesSave {
                    pending_due_at_ms: Some(
                        if now_ms + delay_ms <= u64::MAX {
                            (now_ms + delay_ms) as u64
                        } else {
                            u64::MAX
                        },
                    ),
                    tick_scheduled: true,
                    ..*old(self)
                })
            },
    {
        if self.selected_id.is_none() {
            return false;
        }
        self.pending_due_at_ms = Some(now_ms.saturating_add(delay_ms));
        if self.tick_scheduled {
            return false;
        }
        self.tick_scheduled = true;
        true
    }

    /// A tick of the save check at `now_ms`, with the name typed and the
    /// variables edited: nothing while a save is in flight or none is due
    /// (the ticking stops), a wait while it is not yet due; once due, the
    /// due time clears, and with an environment selected a blank name is
    /// refused, else the save goes out (see `SaveStep::Save`).
    pub fn save_step(&mut self, now_ms: u64, name_input: &str, variables: &[EnvironmentVariable]) -> (r:
        SaveStep)
        ensures
            (old(self).in_flight || old(self).pending_due_at_ms is None) ==> r is Idle
                && *final(self) == (VariablesSave { tick_scheduled: false, ..*old(self) }),
            (!old(self).in_flight && (old(self).pending_due_at_ms matches Some(due) && now_ms < due))
                ==> r is Wait && *final(self) == *old(self),
            (!old(self).in_flight && (old(self).pending_due_at_ms matches Some(due) && now_ms >= due))
                ==> {
                let cleared = VariablesSave {
                    pending_due_at_ms: None,
                    tick_scheduled: false,
                    ..*old(self)
                };
                match old(self).selected_id {
                    None => r is Idle && *final(self) == cleared,
                    Some(id) => if trim(name_input@).len() == 0 {
                        &&& r is NameEmpty
                        &&& *final(self) == (VariablesSave { error: final(self).error, ..cleared })
                        &&& final(self).error matches Some(e) && e@
                            == "Environment name cannot be empty."@
                    } else {
                        &&& *final(self) == cleared
                        &&& r matches SaveStep::Save { environment_id, rename, variables: vs }
                        &&& environment_id == id
                        &&& vs@ == named_variables(variables@)
                        &&& match old(self).loaded_environment_name {
                            Some(n) if n@ != trim(name_input@) => rename matches Some(m) && m@ == trim(
                                name_input@,
                            ),
                            _ => rename is None,
                        }
                    },
                }
            },
    {
        if self.in_flight {
            self.tick_scheduled = false;
            return SaveStep::Idle;
        }
        let due = match self.pending_due_at_ms {
            Some(d) => d,
            None => {
                self.tick_scheduled = false;
                return SaveStep::Idle;
            },
        };
        if now_ms < due {
            return SaveStep::Wait;
        }
        self.pending_due_at_ms = None;
        self.tick_scheduled = false;
        let environment_id = match self.selected_id {
            Some(id) => id,
            None => return SaveStep::Idle,
        };
        let name = string_of(trimmed_str(name_input).as_slice());
        if name.as_str().unicode_len() == 0 {
            self.error = Some("Environment name cannot be empty.".to_owned());
            return SaveStep::NameEmpty;
        }
        let vs = named_variables_of(variables);
        let rename = match &self.loaded_environment_name {
            Some(n) => if *n != name {
                Some(name)
            } else {
                None
            },
            None => None,
        };
        SaveStep::Save { environment_id, rename, variables: vs }
    }

    /// The rename could not be queued: the save stops with the error.
    pub fn rename_failed(&mut self, error: &str)
        ensures
            *final(self) == (VariablesSave {
                in_flight: false,
                error: final(self).error,
                ..*old(self)
            }),
            final(self).error matches Some(e) && e@ == "Failed to queue environment rename: "@
                + error@,
    {
        self.in_flight = false;
        let mut e = "Failed to queue environment rename: ".to_owned();
        e.append(error);
        self.error = Some(e);
    }

    /// The rename was queued: the new name is the loaded one.
    pub fn rename_sent(&mut self, name: String)
        ensures
            *final(self) == (VariablesSave { loaded_environment_name: Some(name), ..*old(self) }),
    {
        self.loaded_environment_name = Some(name);
    }

    /// The variables save was queued, or failed with `result`'s error: the
    /// error is recorded (a backpressure error retries the save
    /// `BACKPRESSURE_RETRY_MS` after `now_ms`); returns whether a tick must
    /// be started for a save still due.
    pub fn save_sent(&mut self, result: Result<(), String>, now_ms: u64) -> (start_tick: bool)
        ensures
            match result {
                Ok(()) => final(self).error is None
                    && final(self).pending_due_at_ms == old(self).pending_due_at_ms,
                Err(e) => {
                    &&& final(self).error matches Some(m) && m@ == "Failed to queue environment save: "@
                        + e@
                    &&& final(self).pending_due_at_ms == if e@.len() >= 13 && e@.take(13)
                        == "Backpressure:"@ {
                        Some(
                            if now_ms + BACKPRESSURE_RETRY_MS <= u64::MAX {
                                (now_ms + BACKPRESSURE_RETRY_MS) as u64
                            } else {
                                u64::MAX
                            },
                        )
                    } else {
                        old(self).pending_due_at_ms
                    }
                },
            },
            !final(self).in_flight,
            final(self).selected_id == old(self).selected_id,
            final(self).loaded_environment_name == old(self).loaded_environment_name,
            start_tick == (final(self).pending_due_at_ms is Some && !old(self).tick_scheduled),
            final(self).tick_scheduled == (old(self).tick_scheduled || start_tick),
    {
        self.in_flight = false;
        match result {
            Ok(()) => {
                self.error = None;
            },
            Err(e) => {
                if crate::text::starts_with_chars(
                    &crate::text::chars_of(e.as_str()),
                    crate::text::chars_of("Backpressure:").as_slice(),
                ) {
                    self.pending_due_at_ms = Some(now_ms.saturating_add(BACKPRESSURE_RETRY_MS));
                }
                proof {
                    reveal_strlit("Backpressure:");
                }
                let mut m = "Failed to queue environment save: ".to_owned();
                m.append(e.as_str());
                self.error = Some(m);
            },
        }
        if self.pending_due_at_ms.is_some() && !self.tick_scheduled {
            self.tick_scheduled = true;
            return true;
        }
        false
    }

    /// The environment that deleting removes: the selected one; with none
    /// selected, none, and the notice "No environment selected.".
    pub fn environment_to_delete(&mut self) -> (r: Option<u128>)
        ensures
            r == old(self).selected_id,
            r is Some ==> *final(self) == *old(self),
            r is None ==> {
                &&& *final(self) == (VariablesSave { error: final(self).error, ..*old(self) })
                &&& final(self).error matches Some(e) && e@ == "No environment selected."@
            },
    {
        if self.selected_id.is_none() {
            self.error = Some("No environment selected.".to_owned());
        }
        self.selected_id
    }

    /// After the selected environment was deleted: no save is pending,
    /// ticking or in flight, and `next` is selected; with no environment
    /// left, no name is loaded and the notice says so.
    pub fn environment_deleted(&mut self, next: Option<u128>)
        ensures
            final(self).selected_id == next,
            final(self).pending_due_at_ms is None,
            !final(self).tick_scheduled,
            !final(self).in_flight,
            next is Some ==> final(self).loaded_environment_name == old(self).loaded_environment_name
                && final(self).error == old(self).error,
            next is None ==> {
                &&& final(self).loaded_environment_name is None
                &&& final(self).error matches Some(e) && e@ == "No environment available to manage."@
            },
    {
        self.pending_due_at_ms = None;
        self.tick_scheduled = false;
        self.in_flight = false;
        self.selected_id = next;
        if next.is_none() {
            self.loaded_environment_name = None;
            self.error = Some("No environment available to manage.".to_owned());
        }
    }
}

/// Adds a blank variable, enabled, at the end of the list.
pub fn add_blank_variable(variables: &mut Vec<EnvironmentVariable>)
    ensures
        final(variables)@.len() == old(variables)@.len() + 1,
        final(variables)@.take(old(variables)@.len() as int) == old(variables)@,
        final(variables)@.last().name@.len() == 0,
        final(variables)@.last().value@.len() == 0,
        final(variables)@.last().enabled,
        final(variables)@.last().description is None,
{
    variables.push(
        EnvironmentVariable {
            name: String::new(),
            value: String::new(),
            enabled: true,
            description: None,
        },
    );
    assert(variables@.take(old(variables)@.len() as int) =~= old(variables)@);
}

/// Removes the variable at `index` when there is one; returns whether the
/// list changed.
pub fn remove_variable_at(variables: &mut Vec<EnvironmentVariable>, index: usize) -> (removed: bool)
    ensures
        removed == (index < old(variables)@.len()),
        removed ==> final(variables)@ == old(variables)@.remove(index as int),
        !removed ==> final(variables)@ == old(variables)@,
{
    if index >= variables.len() {
        return false;
    }
    variables.remove(index);
    true
}

/// The variables whose name is not blank (see `named_variables`).
fn named_variables_of(variables: &[EnvironmentVariable]) -> (r: Vec<EnvironmentVariable>)
    ensures
        r@ == named_variables(variables@),
{
    let mut r: Vec<EnvironmentVariable> = Vec::new();
    let mut i: usize = 0;
    while i < variables.len()
        invariant
            i <= variables@.len(),
            r@ == named_variables(variables@.take(i as int)),
        decreases variables@.len() - i,
    {
        proof {
            let s = variables@.take(i + 1);
            assert(s =~= variables@.take(i as int).push(variables@[i as int]));
            lemma_filter_push(
                variables@.take(i as int),
                |v: EnvironmentVariable| trim(v.name@).len() != 0,
                variables@[i as int],
            );
        }
        let t = trimmed_str(variables[i].name.as_str());
        if t.len() != 0 {
            r.push(copy_variable(&variables[i]));
        }
        i = i + 1;
    }
    assert(variables@.take(variables@.len() as int) =~= variables@);
    r
}

/// A copy of a variable.
fn copy_variable(v: &EnvironmentVariable) -> (r: EnvironmentVariable)
    ensures
        r == *v,
{
    EnvironmentVariable {
        name: v.name.clone(),
        value: v.value.clone(),
        enabled: v.enabled,
        description: match &v.description {
            Some(d) => Some(d.clone()),
            None => None,
        },
    }
}

} // verus!
