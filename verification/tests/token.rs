use qiniu_ng::config::Config;
use qiniu_ng::crc32;
use qiniu_ng::credential::Credential;
use qiniu_ng::upload_policy::{UploadPolicy, UploadPolicyBuilder};
use qiniu_ng::upload_token::{UploadToken, UploadTokenParseError};

#[test]
fn crc32_of_check_string() {
    assert_eq!(crc32::checksum(b"123456789"), 0xCBF4_3926);
    assert_eq!(crc32::checksum(b""), 0);
}

#[test]
fn crc32_agrees_with_another_implementation() {
    let data: Vec<u8> = (0..5000u32).map(|i| (i * 31 % 251) as u8).collect();
    assert_eq!(crc32::checksum(&data), crc32fast::hash(&data));
    let mut digest = crc32::Digest::new();
    digest.update(&data[..1234]);
    digest.update(&data[1234..]);
    assert_eq!(digest.finalize(), crc32fast::hash(&data));
}

#[test]
fn sign_matches_known_vector() {
    let credential = Credential::new("abcdefghklmnopq", "1234567890");
    assert_eq!(credential.sign(b"hello"), "abcdefghklmnopq:b84KVc-LroDiz0ebUANfdzSRxa0=");
    assert_eq!(credential.sign(b"world"), "abcdefghklmnopq:VjgXt0P_nCxHuaTfiFz-UjDJ1AQ=");
}

#[test]
fn sign_with_data_matches_known_vector() {
    let credential = Credential::new("abcdefghklmnopq", "1234567890");
    assert_eq!(
        credential.sign_with_data(b"hello"),
        "abcdefghklmnopq:BZYt5uVRy1RVt5ZTXbaIt2ROVMA=:aGVsbG8="
    );
}

#[test]
fn policy_for_bucket_renders_scope_and_deadline() {
    let config = Config::default();
    let policy = UploadPolicyBuilder::new_policy_for_bucket("test_bucket", &config, 1_000).build();
    assert_eq!(policy.as_json(), "{\"scope\":\"test_bucket\",\"deadline\":4600}");
    assert_eq!(policy.bucket(), Some("test_bucket"));
    assert_eq!(policy.key(), None);
    assert_eq!(policy.token_deadline(), Some(4600));
}

#[test]
fn policy_for_object_splits_scope() {
    let config = Config::default();
    let policy = UploadPolicyBuilder::new_policy_for_object("test_bucket", "a:b", &config, 0)
        .insert_only()
        .build();
    assert_eq!(policy.scope(), Some("test_bucket:a:b"));
    assert_eq!(policy.bucket(), Some("test_bucket"));
    assert_eq!(policy.key(), Some("a:b"));
    assert!(policy.is_insert_only());
    assert_eq!(
        policy.as_json(),
        "{\"scope\":\"test_bucket:a:b\",\"deadline\":3600,\"insertOnly\":1}"
    );
}

#[test]
fn token_round_trip_recovers_policy_and_access_key() {
    let config = Config::default();
    let policy = UploadPolicyBuilder::new_policy_for_object("test_bucket", "key", &config, 5)
        .return_body("{\"a\":\"\\\"quoted\\\"\"}")
        .file_size_limitation(Some(1), Some(1 << 30))
        .build();
    let json = policy.as_json();
    let token = UploadToken::new(policy, Credential::new("abcdefghklmnopq", "1234567890"));
    let (text, parsed) = token.render_and_parse();
    assert_eq!(text.matches(':').count(), 2);
    let (found, access_key) = parsed.unwrap();
    assert_eq!(access_key, "abcdefghklmnopq");
    assert_eq!(found.as_json(), json);
    let received = UploadToken::from_token(&text);
    assert_eq!(received.access_key().unwrap(), "abcdefghklmnopq");
    assert_eq!(received.policy().unwrap().as_ref().as_json(), json);
    assert_eq!(received.to_string(), text);
}

#[test]
fn token_text_errors() {
    assert_eq!(
        UploadToken::from_token("no colon").access_key().unwrap_err(),
        UploadTokenParseError::InvalidFormat
    );
    assert_eq!(
        UploadToken::from_token("ak:sig").policy().unwrap_err(),
        UploadTokenParseError::InvalidFormat
    );
    assert_eq!(
        UploadToken::from_token("ak:sig:???").policy().unwrap_err(),
        UploadTokenParseError::InvalidBase64
    );
    assert_eq!(
        UploadToken::from_token("ak:sig:aGVsbG8=").policy().unwrap_err(),
        UploadTokenParseError::InvalidJSON
    );
    assert_eq!(
        UploadToken::from_token("ak:sig:e30=").policy().unwrap_err(),
        UploadTokenParseError::MissingField
    );
    assert!(UploadPolicy::from_json(b"{\"scope\":\"b\"}").is_some());
}
