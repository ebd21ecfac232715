use beam::auth::{
    auth_for_kind, auth_inputs_for, auth_kind, edit_auth_field, set_api_key_location, AuthField,
    AuthInputs, AuthKind,
};
use beam::models::{ApiKeyLocation, AuthConfig};

fn inputs(token: &str, user: &str, pass: &str, key: &str, value: &str) -> AuthInputs {
    AuthInputs {
        bearer_token: token.into(),
        basic_username: user.into(),
        basic_password: pass.into(),
        api_key_name: key.into(),
        api_key_value: value.into(),
    }
}

#[test]
fn mode_buttons_build_the_authentication_from_the_fields() {
    let fields = inputs("tok", " ", "pw", "  ", "v");
    assert_eq!(auth_for_kind(AuthKind::NoAuth, &fields), AuthConfig::NoAuth);
    assert_eq!(
        auth_for_kind(AuthKind::Bearer, &fields),
        AuthConfig::Bearer { token: Some("tok".into()) }
    );
    assert_eq!(
        auth_for_kind(AuthKind::Basic, &fields),
        AuthConfig::Basic { username: None, password: Some("pw".into()) }
    );
    assert_eq!(
        auth_for_kind(AuthKind::ApiKey, &fields),
        AuthConfig::ApiKey {
            key: Some("X-API-Key".into()),
            value: Some("v".into()),
            location: ApiKeyLocation::Header,
        }
    );
    assert_eq!(auth_kind(&AuthConfig::NoAuth), AuthKind::NoAuth);
}

#[test]
fn fields_show_the_texts_of_the_authentication() {
    let shown = auth_inputs_for(&AuthConfig::Basic { username: Some("ann".into()), password: None });
    assert_eq!(shown.basic_username, "ann");
    assert_eq!(shown.basic_password, "");
    assert_eq!(shown.bearer_token, "");
    assert_eq!(shown.api_key_name, "X-API-Key");
    let shown = auth_inputs_for(&AuthConfig::ApiKey {
        key: Some("k".into()),
        value: Some("v".into()),
        location: ApiKeyLocation::Query,
    });
    assert_eq!(shown.api_key_name, "k");
    assert_eq!(shown.api_key_value, "v");
}

#[test]
fn typing_edits_only_fields_of_the_current_kind() {
    let mut auth = AuthConfig::Bearer { token: Some("a".into()) };
    assert!(!edit_auth_field(&mut auth, AuthField::BasicUsername, "x".into()));
    assert_eq!(auth, AuthConfig::Bearer { token: Some("a".into()) });
    assert!(edit_auth_field(&mut auth, AuthField::BearerToken, "  ".into()));
    assert_eq!(auth, AuthConfig::Bearer { token: None });

    let mut auth = AuthConfig::ApiKey {
        key: Some("k".into()),
        value: None,
        location: ApiKeyLocation::Header,
    };
    assert!(edit_auth_field(&mut auth, AuthField::ApiKeyName, " ".into()));
    assert!(edit_auth_field(&mut auth, AuthField::ApiKeyValue, "secret".into()));
    assert!(set_api_key_location(&mut auth, ApiKeyLocation::Query));
    assert_eq!(
        auth,
        AuthConfig::ApiKey { key: None, value: Some("secret".into()), location: ApiKeyLocation::Query }
    );
    let mut none = AuthConfig::NoAuth;
    assert!(!set_api_key_location(&mut none, ApiKeyLocation::Query));
    assert_eq!(none, AuthConfig::NoAuth);
}
