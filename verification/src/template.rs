//! `{{name}}` template variables: the lookup of an environment's enabled
//! variables, their substitution into requests, and the tokens of a text.
use vstd::prelude::*;
use crate::models::{
    AuthConfig, BodyConfig, EnvironmentVariable, QueryParamField, RequestAuthoringState,
};
use crate::text::{
    byte_len, byte_offsets, chars_of, find_from, find_seq_from, lemma_find_from, push_all,
    push_range, string_of, trim, trim_bounds,
};

verus! {

/// The opening marker of a template token.
pub open spec fn open_marker() -> Seq<char> {
    seq!['{', '{']
}

/// The closing marker of a template token.
pub open spec fn close_marker() -> Seq<char> {
    seq!['}', '}']
}

/// The variables an environment offers: every enabled variable with a
/// name that is not blank, under its trimmed name; a later variable of the
/// same name wins.
pub open spec fn env_map(vars: Seq<EnvironmentVariable>) -> Map<Seq<char>, Seq<char>>
    decreases vars.len(),
{
    if vars.len() == 0 {
        Map::empty()
    } else {
        let v = vars.last();
        let name = trim(v.name@);
        if v.enabled && name.len() > 0 {
            env_map(vars.drop_last()).insert(name, v.value@)
        } else {
            env_map(vars.drop_last())
        }
    }
}

/// The map that a list of name/value entries gives, later entries winning.
pub open spec fn entries_map(es: Seq<(Vec<char>, String)>) -> Map<Seq<char>, Seq<char>>
    decreases es.len(),
{
    if es.len() == 0 {
        Map::empty()
    } else {
        entries_map(es.drop_last()).insert(es.last().0@, es.last().1@)
    }
}

/// The enabled variables of an environment, by name.
pub struct EnvironmentLookup {
    entries: Vec<(Vec<char>, String)>,
}

impl View for EnvironmentLookup {
    type V = Map<Seq<char>, Seq<char>>;

    closed spec fn view(&self) -> Map<Seq<char>, Seq<char>> {
        entries_map(self.entries@)
    }
}

fn chars_eq(a: &Vec<char>, b: &Vec<char>) -> (r: bool)
    ensures
        r == (a@ == b@),
{
    if a.len() != b.len() {
        return false;
    }
    let mut i: usize = 0;
    while i < a.len()
        invariant
            a@.len() == b@.len(),
            i <= a@.len(),
            forall|j: int| 0 <= j < i ==> a@[j] == b@[j],
        decreases a@.len() - i,
    {
        if a[i] != b[i] {
            return false;
        }
        i = i + 1;
    }
    assert(a@ =~= b@);
    true
}

impl EnvironmentLookup {
    /// The value of the variable `name`, if the lookup has it.
    pub fn get(&self, name: &Vec<char>) -> (r: Option<&String>)
        ensures
            match r {
                Some(v) => self@.contains_key(name@) && self@[name@] == v@,
                None => !self@.contains_key(name@),
            },
    {
        let ghost es = self.entries@;
        let mut i: usize = self.entries.len();
        assert(es.take(i as int) == es);
        while i > 0
            invariant
                i <= es.len(),
                es == self.entries@,
                entries_map(es).contains_key(name@) == entries_map(es.take(i as int)).contains_key(
                    name@,
                ),
                entries_map(es).contains_key(name@) ==> entries_map(es)[name@] == entries_map(
                    es.take(i as int),
                )[name@],
            decreases i,
        {
            let ghost prev = es.take(i - 1);
            assert(es.take(i as int).drop_last() == prev);
            if chars_eq(&self.entries[i - 1].0, name) {
                return Some(&self.entries[i - 1].1);
            }
            i = i - 1;
        }
        assert(es.take(0) == Seq::<(Vec<char>, String)>::empty());
        None
    }
}

/// The lookup of the enabled variables of an environment (see `env_map`).
pub fn build_enabled_environment_lookup(environment_variables: &[EnvironmentVariable]) -> (r:
    EnvironmentLookup)
    ensures
        r@ == env_map(environment_variables@),
{
    let mut entries: Vec<(Vec<char>, String)> = Vec::new();
    let mut i: usize = 0;
    while i < environment_variables.len()
        invariant
            i <= environment_variables@.len(),
            entries_map(entries@) == env_map(environment_variables@.take(i as int)),
        decreases environment_variables@.len() - i,
    {
        let v = &environment_variables[i];
        let name = chars_of(v.name.as_str());
        let (a, b) = trim_bounds(&name, 0, name.len());
        assert(name@.subrange(0, name@.len() as int) == name@);
        assert(environment_variables@.take(i + 1).drop_last() == environment_variables@.take(
            i as int,
        ));
        if v.enabled && a < b {
            let mut key: Vec<char> = Vec::new();
            push_range(&mut key, &name, a, b);
            let ghost before = entries@;
            entries.push((key, v.value.clone()));
            assert(entries@.drop_last() == before);
        }
        i = i + 1;
    }
    assert(environment_variables@.take(environment_variables@.len() as int)
        == environment_variables@);
    EnvironmentLookup { entries }
}

/// `t` from index `index` on, with every `{{name}}` token whose trimmed
/// name the environment has replaced by its value; other tokens, and an
/// opening marker that is never closed, stay as written.
pub open spec fn resolved_from(t: Seq<char>, env: Map<Seq<char>, Seq<char>>, index: int) -> Seq<
    char,
>
    decreases t.len() + 1 - index,
{
    if index < 0 || index > t.len() {
        seq![]
    } else {
        let start = find_from(t, open_marker(), index);
        proof {
            lemma_find_from(t, open_marker(), index);
        }
        if start < 0 {
            t.subrange(index, t.len() as int)
        } else {
            let end = find_from(t, close_marker(), start + 2);
            proof {
                lemma_find_from(t, close_marker(), start + 2);
            }
            if end < 0 {
                t.subrange(index, t.len() as int)
            } else {
                let name = trim(t.subrange(start + 2, end));
                t.subrange(index, start) + (if env.contains_key(name) {
                    env[name]
                } else {
                    t.subrange(start, end + 2)
                }) + resolved_from(t, env, end + 2)
            }
        }
    }
}

/// `t` with its template tokens resolved against `env`.
pub open spec fn resolved(t: Seq<char>, env: Map<Seq<char>, Seq<char>>) -> Seq<char> {
    resolved_from(t, env, 0)
}

fn resolve_chars(t: &Vec<char>, env: &EnvironmentLookup) -> (r: Vec<char>)
    ensures
        r@ == resolved(t@, env@),
{
    let open = ['{', '{'];
    let close = ['}', '}'];
    assert(open@ == open_marker());
    assert(close@ == close_marker());
    let mut out: Vec<char> = Vec::new();
    let mut index: usize = 0;
    let n = t.len();
    loop
        invariant
            index <= t@.len(),
            n == t@.len(),
            open@ == open_marker(),
            close@ == close_marker(),
            out@ + resolved_from(t@, env@, index as int) == resolved(t@, env@),
        decreases t@.len() - index,
    {
        proof {
            lemma_find_from(t@, open_marker(), index as int);
        }
        let ghost rest = resolved_from(t@, env@, index as int);
        match find_seq_from(t, &open, index) {
            None => {
                push_range(&mut out, t, index, t.len());
                return out;
            },
            Some(start) => {
                proof {
                    lemma_find_from(t@, close_marker(), start + 2);
                }
                match find_seq_from(t, &close, start + 2) {
                    None => {
                        push_range(&mut out, t, index, t.len());
                        return out;
                    },
                    Some(end) => {
                        let ghost before = out@;
                        push_range(&mut out, t, index, start);
                        let (a, b) = trim_bounds(t, start + 2, end);
                        let mut name: Vec<char> = Vec::new();
                        push_range(&mut name, t, a, b);
                        match env.get(&name) {
                            Some(value) => {
                                let v = chars_of(value.as_str());
                                push_all(&mut out, &v);
                            },
                            None => {
                                push_range(&mut out, t, start, end + 2);
                            },
                        }
                        assert(out@ + resolved_from(t@, env@, end + 2) == before + rest);
                        index = end + 2;
                    },
                }
            },
        }
    }
}

/// `input` with every `{{name}}` token whose trimmed name the lookup has
/// replaced by that variable's value (see `resolved_from`).
pub fn resolve_template_variables(input: &str, resolved_env: &EnvironmentLookup) -> (r: String)
    ensures
        r@ == resolved(input@, resolved_env@),
{
    let t = chars_of(input);
    string_of(&resolve_chars(&t, resolved_env))
}

fn resolve_string(s: &String, env: &EnvironmentLookup) -> (r: String)
    ensures
        r@ == resolved(s@, env@),
{
    resolve_template_variables(s.as_str(), env)
}

/// An optional text with its tokens resolved.
pub open spec fn opt_resolved(
    before: Option<String>,
    after: Option<String>,
    env: Map<Seq<char>, Seq<char>>,
) -> bool {
    match (before, after) {
        (None, None) => true,
        (Some(a), Some(b)) => b@ == resolved(a@, env),
        _ => false,
    }
}

fn resolve_opt(s: &Option<String>, env: &EnvironmentLookup) -> (r: Option<String>)
    ensures
        opt_resolved(*s, r, env@),
{
    match s {
        Some(v) => Some(resolve_string(v, env)),
        None => None,
    }
}

fn clone_opt(s: &Option<String>) -> (r: Option<String>)
    ensures
        r == *s,
{
    match s {
        Some(v) => Some(v.clone()),
        None => None,
    }
}

/// Rows with names and values resolved, all else kept.
pub open spec fn fields_resolved(
    before: Seq<QueryParamField>,
    after: Seq<QueryParamField>,
    env: Map<Seq<char>, Seq<char>>,
) -> bool {
    &&& after.len() == before.len()
    &&& forall|i: int|
        0 <= i < before.len() ==> {
            &&& (#[trigger] after[i]).name@ == resolved(before[i].name@, env)
            &&& after[i].value@ == resolved(before[i].value@, env)
            &&& after[i].enabled == before[i].enabled
            &&& after[i].description == before[i].description
        }
}

fn resolve_fields(fields: &Vec<QueryParamField>, env: &EnvironmentLookup) -> (r: Vec<QueryParamField>)
    ensures
        fields_resolved(fields@, r@, env@),
{
    let mut out: Vec<QueryParamField> = Vec::new();
    let mut i: usize = 0;
    while i < fields.len()
        invariant
            i <= fields@.len(),
            out@.len() == i,
            forall|k: int|
                0 <= k < i ==> {
                    &&& (#[trigger] out@[k]).name@ == resolved(fields@[k].name@, env@)
                    &&& out@[k].value@ == resolved(fields@[k].value@, env@)
                    &&& out@[k].enabled == fields@[k].enabled
                    &&& out@[k].description == fields@[k].description
                },
        decreases fields@.len() - i,
    {
        let f = &fields[i];
        out.push(
            QueryParamField {
                name: resolve_string(&f.name, env),
                value: resolve_string(&f.value, env),
                enabled: f.enabled,
                description: clone_opt(&f.description),
            },
        );
        i = i + 1;
    }
    out
}

/// Authentication with every credential text resolved.
pub open spec fn auth_resolved(before: AuthConfig, after: AuthConfig, env: Map<Seq<char>, Seq<char>>) -> bool {
    match (before, after) {
        (AuthConfig::NoAuth, AuthConfig::NoAuth) => true,
        (AuthConfig::Bearer { token: a }, AuthConfig::Bearer { token: b }) => opt_resolved(a, b, env),
        (
            AuthConfig::Basic { username: u1, password: p1 },
            AuthConfig::Basic { username: u2, password: p2 },
        ) => opt_resolved(u1, u2, env) && opt_resolved(p1, p2, env),
        (
            AuthConfig::ApiKey { key: k1, value: v1, location: l1 },
            AuthConfig::ApiKey { key: k2, value: v2, location: l2 },
        ) => opt_resolved(k1, k2, env) && opt_resolved(v1, v2, env) && l1 == l2,
        _ => false,
    }
}

/// A body with every text it holds resolved.
pub open spec fn body_resolved(before: BodyConfig, after: BodyConfig, env: Map<Seq<char>, Seq<char>>) -> bool {
    match (before, after) {
        (BodyConfig::NoBody, BodyConfig::NoBody) => true,
        (
            BodyConfig::Raw { media_type: m1, text: t1 },
            BodyConfig::Raw { media_type: m2, text: t2 },
        ) => opt_resolved(m1, m2, env) && t2@ == resolved(t1@, env),
        (BodyConfig::Json { text: t1 }, BodyConfig::Json { text: t2 }) => t2@ == resolved(t1@, env),
        (BodyConfig::Xml { text: t1 }, BodyConfig::Xml { text: t2 }) => t2@ == resolved(t1@, env),
        (
            BodyConfig::FormUrlEncoded { fields: f1 },
            BodyConfig::FormUrlEncoded { fields: f2 },
        ) => fields_resolved(f1@, f2@, env),
        (BodyConfig::Multipart { fields: f1 }, BodyConfig::Multipart { fields: f2 }) => fields_resolved(
            f1@,
            f2@,
            env,
        ),
        (
            BodyConfig::Graphql { query: q1, variables_json: v1 },
            BodyConfig::Graphql { query: q2, variables_json: v2 },
        ) => q2@ == resolved(q1@, env) && opt_resolved(v1, v2, env),
        _ => false,
    }
}

fn resolve_auth(auth: &AuthConfig, env: &EnvironmentLookup) -> (r: AuthConfig)
    ensures
        auth_resolved(*auth, r, env@),
{
    match auth {
        AuthConfig::NoAuth => AuthConfig::NoAuth,
        AuthConfig::Bearer { token } => AuthConfig::Bearer { token: resolve_opt(token, env) },
        AuthConfig::Basic { username, password } => AuthConfig::Basic {
            username: resolve_opt(username, env),
            password: resolve_opt(password, env),
        },
        AuthConfig::ApiKey { key, value, location } => AuthConfig::ApiKey {
            key: resolve_opt(key, env),
            value: resolve_opt(value, env),
            location: *location,
        },
    }
}

fn resolve_body(body: &BodyConfig, env: &EnvironmentLookup) -> (r: BodyConfig)
    ensures
        body_resolved(*body, r, env@),
{
    match body {
        BodyConfig::NoBody => BodyConfig::NoBody,
        BodyConfig::Raw { media_type, text } => BodyConfig::Raw {
            media_type: resolve_opt(media_type, env),
            text: resolve_string(text, env),
        },
        BodyConfig::Json { text } => BodyConfig::Json { text: resolve_string(text, env) },
        BodyConfig::Xml { text } => BodyConfig::Xml { text: resolve_string(text, env) },
        BodyConfig::FormUrlEncoded { fields } => BodyConfig::FormUrlEncoded {
            fields: resolve_fields(fields, env),
        },
        BodyConfig::Multipart { fields } => BodyConfig::Multipart {
            fields: resolve_fields(fields, env),
        },
        BodyConfig::Graphql { query, variables_json } => BodyConfig::Graphql {
            query: resolve_string(query, env),
            variables_json: resolve_opt(variables_json, env),
        },
    }
}

/// The request as it is sent: the URL, header and parameter rows, every
/// credential and every body text with its template tokens resolved
/// against the enabled variables of the environment; the method and the
/// post-response script are kept.
pub fn resolve_request_with_environment(
    request: RequestAuthoringState,
    environment_variables: &[EnvironmentVariable],
) -> (r: RequestAuthoringState)
    ensures
        r.method == request.method,
        r.post_script == request.post_script,
        r.url@ == resolved(request.url@, env_map(environment_variables@)),
        fields_resolved(request.headers@, r.headers@, env_map(environment_variables@)),
        fields_resolved(request.query_params@, r.query_params@, env_map(environment_variables@)),
        auth_resolved(request.auth, r.auth, env_map(environment_variables@)),
        body_resolved(request.body, r.body, env_map(environment_variables@)),
{
    let env = build_enabled_environment_lookup(environment_variables);
    let url = resolve_string(&request.url, &env);
    let headers = resolve_fields(&request.headers, &env);
    let query_params = resolve_fields(&request.query_params, &env);
    let auth = resolve_auth(&request.auth, &env);
    let body = resolve_body(&request.body, &env);
    RequestAuthoringState {
        method: request.method,
        url,
        headers,
        query_params,
        auth,
        body,
        post_script: request.post_script,
    }
}

/// The `{{name}}` tokens of `t` from index `index` on, as character ranges
/// with their trimmed names; tokens with a blank name are skipped, and an
/// opening marker that is never closed ends the search.
pub open spec fn tokens_from(t: Seq<char>, index: int) -> Seq<(int, int, Seq<char>)>
    decreases t.len() + 1 - index,
{
    if index < 0 || index > t.len() {
        seq![]
    } else {
        let start = find_from(t, open_marker(), index);
        proof {
            lemma_find_from(t, open_marker(), index);
        }
        if start < 0 {
            seq![]
        } else {
            let end = find_from(t, close_marker(), start + 2);
            proof {
                lemma_find_from(t, close_marker(), start + 2);
            }
            if end < 0 {
                seq![]
            } else {
                let name = trim(t.subrange(start + 2, end));
                let head = if name.len() > 0 {
                    seq![(start, end + 2, name)]
                } else {
                    seq![]
                };
                head + tokens_from(t, end + 2)
            }
        }
    }
}

/// A token with its character range given in bytes of UTF-8.
pub open spec fn in_bytes(t: Seq<char>, tok: (int, int, Seq<char>)) -> (nat, nat, Seq<char>) {
    (byte_len(t.take(tok.0)), byte_len(t.take(tok.1)), tok.2)
}

/// Every `{{name}}` token of `text` with a name that is not blank: its
/// byte range, markers included, and its trimmed name.
pub fn find_env_var_ranges(text: &str) -> (r: Vec<(usize, usize, String)>)
    ensures
        r@.len() == tokens_from(text@, 0).len(),
        forall|i: int|
            0 <= i < r@.len() ==> ((#[trigger] r@[i]).0 as nat, r@[i].1 as nat, r@[i].2@) == in_bytes(
                text@,
                tokens_from(text@, 0)[i],
            ),
{
    let t = chars_of(text);
    let total = text.as_bytes().len();
    assert(total == byte_len(t@));
    let offsets = byte_offsets(&t);
    let open = ['{', '{'];
    let close = ['}', '}'];
    assert(open@ == open_marker());
    assert(close@ == close_marker());
    let mut out: Vec<(usize, usize, String)> = Vec::new();
    let ghost mut toks: Seq<(int, int, Seq<char>)> = seq![];
    let mut index: usize = 0;
    let n = t.len();
    loop
        invariant
            index <= t@.len(),
            n == t@.len(),
            t@ == text@,
            open@ == open_marker(),
            close@ == close_marker(),
            offsets@.len() == t@.len() + 1,
            forall|i: int| 0 <= i <= t@.len() ==> #[trigger] offsets@[i] == byte_len(t@.take(i)),
            toks + tokens_from(t@, index as int) == tokens_from(t@, 0),
            out@.len() == toks.len(),
            forall|i: int|
                0 <= i < out@.len() ==> ((#[trigger] out@[i]).0 as nat, out@[i].1 as nat, out@[i].2@)
                    == in_bytes(t@, toks[i]),
        decreases t@.len() - index,
    {
        proof {
            lemma_find_from(t@, open_marker(), index as int);
        }
        match find_seq_from(&t, &open, index) {
            None => {
                assert(toks == tokens_from(t@, 0));
                return out;
            },
            Some(start) => {
                proof {
                    lemma_find_from(t@, close_marker(), start + 2);
                }
                match find_seq_from(&t, &close, start + 2) {
                    None => {
                        assert(toks == tokens_from(t@, 0));
                        return out;
                    },
                    Some(end) => {
                        let ghost rest = tokens_from(t@, end + 2);
                        let (a, b) = trim_bounds(&t, start + 2, end);
                        if a < b {
                            let mut name: Vec<char> = Vec::new();
                            push_range(&mut name, &t, a, b);
                            out.push((offsets[start], offsets[end + 2], string_of(&name)));
                            proof {
                                let tok = (start as int, end + 2, name@);
                                assert(tokens_from(t@, index as int) == seq![tok] + rest);
                                toks = toks.push(tok);
                                assert(toks + rest == tokens_from(t@, 0));
                            }
                        } else {
                            assert(tokens_from(t@, index as int) == rest);
                        }
                        index = end + 2;
                    },
                }
            },
        }
    }
}

proof fn lemma_resolved_from_empty(t: Seq<char>, index: int)
    requires
        0 <= index <= t.len(),
    ensures
        resolved_from(t, Map::empty(), index) == t.subrange(index, t.len() as int),
    decreases t.len() + 1 - index,
{
    lemma_find_from(t, open_marker(), index);
    let start = find_from(t, open_marker(), index);
    if start >= 0 {
        lemma_find_from(t, close_marker(), start + 2);
        let end = find_from(t, close_marker(), start + 2);
        if end >= 0 {
            lemma_resolved_from_empty(t, end + 2);
            assert(t.subrange(index, start) + t.subrange(start, end + 2) + t.subrange(
                end + 2,
                t.len() as int,
            ) == t.subrange(index, t.len() as int));
        }
    }
}

/// Resolving against an environment without variables changes nothing.
pub proof fn lemma_resolved_without_variables(t: Seq<char>)
    ensures
        resolved(t, Map::empty()) == t,
{
    lemma_resolved_from_empty(t, 0);
    assert(t.subrange(0, t.len() as int) == t);
}

/// Only enabled variables with a name that is not blank can be
/// substituted: every name the environment offers is the trimmed name of
/// such a variable, and its value is that of the last such variable.
pub proof fn lemma_env_map_only_enabled(vars: Seq<EnvironmentVariable>, name: Seq<char>)
    requires
        env_map(vars).contains_key(name),
    ensures
        exists|i: int|
            0 <= i < vars.len() && (#[trigger] vars[i]).enabled && trim(vars[i].name@) == name
                && name.len() > 0 && env_map(vars)[name] == vars[i].value@,
    decreases vars.len(),
{
    let v = vars.last();
    let prefix = vars.drop_last();
    if v.enabled && trim(v.name@).len() > 0 && trim(v.name@) == name {
        assert(vars[vars.len() - 1] == v);
    } else {
        lemma_env_map_only_enabled(prefix, name);
        let i = choose|i: int|
            0 <= i < prefix.len() && (#[trigger] prefix[i]).enabled && trim(prefix[i].name@) == name
                && name.len() > 0 && env_map(prefix)[name] == prefix[i].value@;
        assert(vars[i] == prefix[i]);
    }
}

} // verus!
