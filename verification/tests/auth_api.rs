//! Credential selection and string ordering helpers.

use eshipster::compare_str;
use eshipster::str_eq;
use eshipster::Auth;
use eshipster::AuthType;

#[test]
fn method_names_parse_ignoring_case() {
    assert_eq!(AuthType::from_str("apikey"), Ok(AuthType::Apikey));
    assert_eq!(AuthType::from_str("APIKEY"), Ok(AuthType::Apikey));
    assert_eq!(AuthType::from_str("Basic"), Ok(AuthType::Basic));
    assert_eq!(AuthType::from_str("none"), Ok(AuthType::NoAuth));
    assert_eq!(AuthType::from_str("NONE"), Ok(AuthType::NoAuth));
    assert_eq!(AuthType::from_str("bogus"), Err(()));
    assert_eq!(AuthType::from_str(""), Err(()));
}

#[test]
fn auth_uses_the_key_when_asked_and_present() {
    let auth = Auth::new(&AuthType::Apikey, None, None, Some("key-123".to_string()));
    assert_eq!(auth, Auth::Apikey("key-123".to_string()));
}

#[test]
fn auth_falls_back_without_credentials() {
    assert_eq!(Auth::new(&AuthType::Apikey, None, None, None), Auth::NoAuth);
    assert_eq!(
        Auth::new(&AuthType::Basic, Some("user".to_string()), None, None),
        Auth::NoAuth
    );
    assert_eq!(
        Auth::new(&AuthType::Basic, None, Some("pass".to_string()), None),
        Auth::NoAuth
    );
    assert_eq!(Auth::new(&AuthType::NoAuth, None, None, None), Auth::NoAuth);
}

#[test]
fn auth_basic_needs_both_parts() {
    let auth = Auth::new(
        &AuthType::Basic,
        Some("user".to_string()),
        Some("pass".to_string()),
        Some("unused-key".to_string()),
    );
    assert_eq!(auth, Auth::Basic("user".to_string(), "pass".to_string()));
}

#[test]
fn strings_compare_by_code_point() {
    assert_eq!(compare_str("a", "b"), -1);
    assert_eq!(compare_str("b", "a"), 1);
    assert_eq!(compare_str("abc", "abc"), 0);
    assert_eq!(compare_str("ab", "abc"), -1);
    assert_eq!(compare_str("abd", "abc"), 1);
    assert_eq!(compare_str("", ""), 0);
    assert_eq!(compare_str("", "a"), -1);
}

#[test]
fn string_equality_is_by_contents() {
    assert!(str_eq("shard", "shard"));
    assert!(!str_eq("shard", "shards"));
    assert!(!str_eq("", "a"));
    assert!(str_eq("", ""));
}
