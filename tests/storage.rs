use slatehub::{is_public_key, object_url, public_read_policy, RecordKey, RecordRef, S3Config, SearchQuery};

#[test]
fn config_defaults() {
    let config = S3Config::from_settings(None, None, None, None, None);
    assert_eq!(config.endpoint, "http://localhost:9000");
    assert_eq!(config.access_key, "admin");
    assert_eq!(config.secret_key, "password");
    assert_eq!(config.bucket_name, "slatehub");
    assert_eq!(config.region, "us-east-1");
    let set = S3Config::from_settings(
        Some("https://s3.example.com".to_string()),
        None,
        None,
        Some("media".to_string()),
        Some("eu-west-1".to_string()),
    );
    assert_eq!(set.endpoint, "https://s3.example.com");
    assert_eq!(set.bucket_name, "media");
    assert_eq!(set.region, "eu-west-1");
    assert_eq!(set.access_key, "admin");
}

#[test]
fn public_keys() {
    assert!(is_public_key("profiles/ann/avatar.png"));
    assert!(is_public_key("organizations/acme/logo.svg"));
    assert!(!is_public_key("private/contract.pdf"));
    assert!(!is_public_key("Profiles/ann.png"));
    assert!(!is_public_key("profiles"));
}

#[test]
fn urls_and_policy() {
    let config = S3Config::from_settings(None, None, None, None, None);
    assert_eq!(
        object_url(&config, "profiles/a.png"),
        "http://localhost:9000/slatehub/profiles/a.png"
    );
    let policy = public_read_policy("media");
    assert!(policy.contains("\"Resource\": [\"arn:aws:s3:::media/profiles/*\"]"));
    assert!(policy.contains("\"Resource\": [\"arn:aws:s3:::media/organizations/*\"]"));
    assert!(policy.starts_with("{\n                \"Version\": \"2012-10-17\","));
    assert!(policy.ends_with("]\n            }"));
}

#[test]
fn record_identifiers() {
    let numbered = RecordRef { table: "person".to_string(), key: RecordKey::Number(-42) };
    assert_eq!(numbered.to_raw_string(), "person:-42");
    assert_eq!(numbered.key_string(), "-42");
    let named = RecordRef { table: "org".to_string(), key: RecordKey::Text("acme".to_string()) };
    assert_eq!(named.to_raw_string(), "org:acme");
}

#[test]
fn query_parameter() {
    assert_eq!(SearchQuery { q: None }.search_text(), None);
    assert_eq!(SearchQuery { q: Some("  ".to_string()) }.search_text(), None);
    assert_eq!(
        SearchQuery { q: Some(" lighting crew ".to_string()) }.search_text().as_deref(),
        Some("lighting crew")
    );
}
