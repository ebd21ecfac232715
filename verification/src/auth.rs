//! The authentication editor: switching the kind of authentication, the
//! texts its fields show, and what typing in a field does to the request.
use vstd::prelude::*;
use crate::models::{ApiKeyLocation, AuthConfig};
use crate::text::{trim, trimmed_str};

verus! {

/// The kinds of authentication offered by the mode buttons.
#[derive(Debug, Clone, Copy, PartialEq, Eq, Structural)]
pub enum AuthKind {
    NoAuth,
    Bearer,
    Basic,
    ApiKey,
}

/// The fields of the authentication editor.
#[derive(Debug, Clone, Copy, PartialEq, Eq, Structural)]
pub enum AuthField {
    BearerToken,
    BasicUsername,
    BasicPassword,
    ApiKeyName,
    ApiKeyValue,
}

/// The texts shown in the authentication editor's fields.
#[derive(Debug, Clone)]
pub struct AuthInputs {
    pub bearer_token: String,
    pub basic_username: String,
    pub basic_password: String,
    pub api_key_name: String,
    pub api_key_value: String,
}

/// An authentication as the contracts see it.
pub enum AuthView {
    NoAuth,
    Bearer(Option<Seq<char>>),
    Basic(Option<Seq<char>>, Option<Seq<char>>),
    ApiKey(Option<Seq<char>>, Option<Seq<char>>, ApiKeyLocation),
}

/// The view of an authentication: its texts as character sequences.
pub open spec fn auth_view(a: AuthConfig) -> AuthView {
    match a {
        AuthConfig::NoAuth => AuthView::NoAuth,
        AuthConfig::Bearer { token } => AuthView::Bearer(token.deep_view()),
        AuthConfig::Basic { username, password } => AuthView::Basic(
            username.deep_view(),
            password.deep_view(),
        ),
        AuthConfig::ApiKey { key, value, location } => AuthView::ApiKey(
            key.deep_view(),
            value.deep_view(),
            location,
        ),
    }
}

/// The name the API key is sent under when none is given.
pub open spec fn default_api_key_name() -> Seq<char> {
    "X-API-Key"@
}

/// A field's text as kept in the request: none when it is blank.
pub open spec fn kept_text(t: Seq<char>) -> Option<Seq<char>> {
    if trim(t).len() > 0 {
        Some(t)
    } else {
        None
    }
}

/// The authentication a mode button sets, from the texts in the fields:
/// no authentication; a bearer token; a basic user name and password; or
/// an API key sent in a header, named `X-API-Key` when the name field is
/// blank. Blank texts are kept as none.
pub open spec fn auth_of_kind(kind: AuthKind, inputs: AuthInputs) -> AuthView {
    match kind {
        AuthKind::NoAuth => AuthView::NoAuth,
        AuthKind::Bearer => AuthView::Bearer(kept_text(inputs.bearer_token@)),
        AuthKind::Basic => AuthView::Basic(
            kept_text(inputs.basic_username@),
            kept_text(inputs.basic_password@),
        ),
        AuthKind::ApiKey => AuthView::ApiKey(
            Some(
                if trim(inputs.api_key_name@).len() > 0 {
                    inputs.api_key_name@
                } else {
                    default_api_key_name()
                },
            ),
            kept_text(inputs.api_key_value@),
            ApiKeyLocation::Header,
        ),
    }
}

/// The kind of an authentication, by which its mode button is shown
/// selected.
pub open spec fn kind_of(a: AuthConfig) -> AuthKind {
    match a {
        AuthConfig::NoAuth => AuthKind::NoAuth,
        AuthConfig::Bearer { .. } => AuthKind::Bearer,
        AuthConfig::Basic { .. } => AuthKind::Basic,
        AuthConfig::ApiKey { .. } => AuthKind::ApiKey,
    }
}

/// An optional text, or the empty text when there is none.
pub open spec fn text_or_empty(t: Option<Seq<char>>) -> Seq<char> {
    match t {
        Some(s) => s,
        None => seq![],
    }
}

/// The texts the fields show for an authentication: its own texts in the
/// fields of its kind (missing ones empty), the other fields empty, and
/// the API-key name field showing `X-API-Key` unless an API key names
/// another.
pub open spec fn inputs_for(a: AuthConfig) -> (Seq<char>, Seq<char>, Seq<char>, Seq<char>, Seq<char>) {
    match auth_view(a) {
        AuthView::NoAuth => (seq![], seq![], seq![], default_api_key_name(), seq![]),
        AuthView::Bearer(t) => (text_or_empty(t), seq![], seq![], default_api_key_name(), seq![]),
        AuthView::Basic(u, p) => (
            seq![],
            text_or_empty(u),
            text_or_empty(p),
            default_api_key_name(),
            seq![],
        ),
        AuthView::ApiKey(k, v, _) => (
            seq![],
            seq![],
            seq![],
            match k {
                Some(s) => s,
                None => default_api_key_name(),
            },
            text_or_empty(v),
        ),
    }
}

/// What typing `text` into a field does: a field of the authentication's
/// own kind takes the text (none when blank); a blank API-key name becomes
/// none. A field of another kind changes nothing (`None`).
pub open spec fn auth_after_edit(a: AuthConfig, field: AuthField, text: Seq<char>) -> Option<AuthView> {
    match (auth_view(a), field) {
        (AuthView::Bearer(_), AuthField::BearerToken) => Some(AuthView::Bearer(kept_text(text))),
        (AuthView::Basic(_, p), AuthField::BasicUsername) => Some(
            AuthView::Basic(kept_text(text), p),
        ),
        (AuthView::Basic(u, _), AuthField::BasicPassword) => Some(
            AuthView::Basic(u, kept_text(text)),
        ),
        (AuthView::ApiKey(_, v, l), AuthField::ApiKeyName) => Some(
            AuthView::ApiKey(kept_text(text), v, l),
        ),
        (AuthView::ApiKey(k, _, l), AuthField::ApiKeyValue) => Some(
            AuthView::ApiKey(k, kept_text(text), l),
        ),
        _ => None,
    }
}

/// A field's text as kept in the request (see `kept_text`).
fn kept(text: &String) -> (r: Option<String>)
    ensures
        r.deep_view() == kept_text(text@),
{
    if trimmed_str(text.as_str()).len() > 0 {
        Some(text.clone())
    } else {
        None
    }
}

fn copy_text(t: &Option<String>) -> (r: Option<String>)
    ensures
        r.deep_view() == t.deep_view(),
{
    match t {
        Some(s) => Some(s.clone()),
        None => None,
    }
}

fn text_or_empty_of(t: &Option<String>) -> (r: String)
    ensures
        r@ == text_or_empty(t.deep_view()),
{
    match t {
        Some(s) => s.clone(),
        None => String::new(),
    }
}

/// The authentication set by the mode button of `kind` (see
/// `auth_of_kind`).
pub fn auth_for_kind(kind: AuthKind, inputs: &AuthInputs) -> (r: AuthConfig)
    ensures
        auth_view(r) == auth_of_kind(kind, *inputs),
{
    match kind {
        AuthKind::NoAuth => AuthConfig::NoAuth,
        AuthKind::Bearer => AuthConfig::Bearer { token: kept(&inputs.bearer_token) },
        AuthKind::Basic => AuthConfig::Basic {
            username: kept(&inputs.basic_username),
            password: kept(&inputs.basic_password),
        },
        AuthKind::ApiKey => {
            let key = if trimmed_str(inputs.api_key_name.as_str()).len() > 0 {
                inputs.api_key_name.clone()
            } else {
                "X-API-Key".to_owned()
            };
            AuthConfig::ApiKey {
                key: Some(key),
                value: kept(&inputs.api_key_value),
                location: ApiKeyLocation::Header,
            }
        },
    }
}

/// The kind of an authentication (see `kind_of`).
pub fn auth_kind(auth: &AuthConfig) -> (r: AuthKind)
    ensures
        r == kind_of(*auth),
{
    match auth {
        AuthConfig::NoAuth => AuthKind::NoAuth,
        AuthConfig::Bearer { .. } => AuthKind::Bearer,
        AuthConfig::Basic { .. } => AuthKind::Basic,
        AuthConfig::ApiKey { .. } => AuthKind::ApiKey,
    }
}

/// The texts the fields show for an authentication (see `inputs_for`).
pub fn auth_inputs_for(auth: &AuthConfig) -> (r: AuthInputs)
    ensures
        (r.bearer_token@, r.basic_username@, r.basic_password@, r.api_key_name@, r.api_key_value@)
            == inputs_for(*auth),
{
    match auth {
        AuthConfig::NoAuth => AuthInputs {
            bearer_token: String::new(),
            basic_username: String::new(),
            basic_password: String::new(),
            api_key_name: "X-API-Key".to_owned(),
            api_key_value: String::new(),
        },
        AuthConfig::Bearer { token } => AuthInputs {
            bearer_token: text_or_empty_of(token),
            basic_username: String::new(),
            basic_password: String::new(),
            api_key_name: "X-API-Key".to_owned(),
            api_key_value: String::new(),
        },
        AuthConfig::Basic { username, password } => AuthInputs {
            bearer_token: String::new(),
            basic_username: text_or_empty_of(username),
            basic_password: text_or_empty_of(password),
            api_key_name: "X-API-Key".to_owned(),
            api_key_value: String::new(),
        },
        AuthConfig::ApiKey { key, value, .. } => AuthInputs {
            bearer_token: String::new(),
            basic_username: String::new(),
            basic_password: String::new(),
            api_key_name: match key {
                Some(k) => k.clone(),
                None => "X-API-Key".to_owned(),
            },
            api_key_value: text_or_empty_of(value),
        },
    }
}

/// Typing `text` into `field` (see `auth_after_edit`); returns whether a
/// field of the authentication's own kind was edited, so that the request
/// is saved.
pub fn edit_auth_field(auth: &mut AuthConfig, field: AuthField, text: String) -> (changed: bool)
    ensures
        match auth_after_edit(*old(auth), field, text@) {
            Some(v) => changed && auth_view(*final(auth)) == v,
            None => !changed && *final(auth) == *old(auth),
        },
{
    let next = match (&*auth, field) {
        (AuthConfig::Bearer { .. }, AuthField::BearerToken) => AuthConfig::Bearer { token: kept(&text) },
        (AuthConfig::Basic { password, .. }, AuthField::BasicUsername) => AuthConfig::Basic {
            username: kept(&text),
            password: copy_text(password),
        },
        (AuthConfig::Basic { username, .. }, AuthField::BasicPassword) => AuthConfig::Basic {
            username: copy_text(username),
            password: kept(&text),
        },
        (AuthConfig::ApiKey { value, location, .. }, AuthField::ApiKeyName) => AuthConfig::ApiKey {
            key: kept(&text),
            value: copy_text(value),
            location: *location,
        },
        (AuthConfig::ApiKey { key, location, .. }, AuthField::ApiKeyValue) => AuthConfig::ApiKey {
            key: copy_text(key),
            value: kept(&text),
            location: *location,
        },
        _ => {
            return false;
        },
    };
    *auth = next;
    true
}

/// Choosing where an API key is sent: an API-key authentication keeps its
/// name and value and takes the location; any other authentication is
/// left alone. Returns whether it changed.
pub fn set_api_key_location(auth: &mut AuthConfig, location: ApiKeyLocation) -> (changed: bool)
    ensures
        changed == (kind_of(*old(auth)) == AuthKind::ApiKey),
        changed ==> auth_view(*final(auth)) == (match auth_view(*old(auth)) {
            AuthView::ApiKey(k, v, _) => AuthView::ApiKey(k, v, location),
            other => other,
        }),
        !changed ==> *final(auth) == *old(auth),
{
    let next = match &*auth {
        AuthConfig::ApiKey { key, value, .. } => AuthConfig::ApiKey {
            key: copy_text(key),
            value: copy_text(value),
            location,
        },
        _ => {
            return false;
        },
    };
    *auth = next;
    true
}

/// Typing into one field of an authentication leaves its other fields as
/// they were: a Basic user name and password are edited apart, and an API
/// key's name, value and location are edited apart. The kind never
/// changes.
pub proof fn lemma_editing_a_field_keeps_the_others(a: AuthConfig, field: AuthField, text: Seq<char>)
    ensures
        match (auth_view(a), auth_after_edit(a, field, text)) {
            (AuthView::Basic(u, p), Some(AuthView::Basic(u2, p2))) => (field
                == AuthField::BasicPassword ==> u2 == u) && (field == AuthField::BasicUsername
                ==> p2 == p),
            (AuthView::ApiKey(k, v, l), Some(AuthView::ApiKey(k2, v2, l2))) => l2 == l && (field
                == AuthField::ApiKeyName ==> v2 == v) && (field == AuthField::ApiKeyValue ==> k2 == k),
            _ => true,
        },
        match auth_after_edit(a, field, text) {
            Some(v) => match (auth_view(a), v) {
                (AuthView::Bearer(_), AuthView::Bearer(_)) => true,
                (AuthView::Basic(_, _), AuthView::Basic(_, _)) => true,
                (AuthView::ApiKey(_, _, _), AuthView::ApiKey(_, _, _)) => true,
                _ => false,
            },
            None => true,
        },
        (auth_view(a) is Basic && (field == AuthField::BasicUsername || field
            == AuthField::BasicPassword)) ==> auth_after_edit(a, field, text) is Some,
        (auth_view(a) is ApiKey && (field == AuthField::ApiKeyName || field
            == AuthField::ApiKeyValue)) ==> auth_after_edit(a, field, text) is Some,
{
}

} // verus!
