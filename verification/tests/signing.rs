use huaweicloud_sdk_rust_obs::auth::{attach_headers, canonical_headers, signature, Authenticator};
use huaweicloud_sdk_rust_obs::client::ClientBuilder;
use huaweicloud_sdk_rust_obs::config::SignatureType;
use huaweicloud_sdk_rust_obs::error::ObsError;
use huaweicloud_sdk_rust_obs::headers::HeaderSet;

fn header_set(pairs: &[(&str, &[&str])]) -> HeaderSet {
    let mut h = HeaderSet::new();
    for (name, values) in pairs {
        let vals: Vec<String> = values.iter().map(|v| v.to_string()).collect();
        h.insert(name.to_string(), vals);
    }
    h
}

const FIXED_NOW: &str = "Mon, 01 Jan 2024 00:00:00 GMT";

#[test]
fn signature_is_deterministic() {
    let sts = "PUT\n\ntext/plain\n\n/test-bucket/file.txt";
    let first = signature(sts, "secret").unwrap();
    let second = signature(sts, "secret").unwrap();
    assert_eq!(first, second);
}

#[test]
fn signature_matches_known_fixture() {
    // HMAC-SHA1 of the string-to-sign under "secret", base64-encoded.
    let sts = "PUT\n\ntext/plain\n\n/test-bucket/file.txt";
    let sig = signature(sts, "secret").unwrap();
    assert_eq!(sig, "7hnQ0B8nXdTTfSGqHmYa9dYgW2k=");
}

#[test]
fn signature_is_twenty_eight_characters() {
    assert_eq!(signature("", "").unwrap().len(), 28);
    assert_eq!(
        signature("PUT\n\ntext/plain\n\n/test-bucket/file.txt", "secret")
            .unwrap()
            .len(),
        28
    );
}

#[test]
fn signature_depends_on_key_and_message() {
    let sts = "PUT\n\ntext/plain\n\n/test-bucket/file.txt";
    assert_ne!(signature(sts, "secret").unwrap(), signature(sts, "other").unwrap());
    assert_ne!(
        signature(sts, "secret").unwrap(),
        signature("GET\n\n\n\n/", "secret").unwrap()
    );
}

#[test]
fn attach_headers_renders_three_fixed_slots() {
    let h = header_set(&[("content-type", &["text/plain"])]);
    let block = attach_headers(&h, true, FIXED_NOW);
    assert_eq!(block, "\ntext/plain\n");
}

#[test]
fn attach_headers_normalizes_and_sorts() {
    let h = header_set(&[
        ("X-OBS-Acl", &["private"]),
        ("Content-Type", &["a/b"]),
        ("ignored", &["nope"]),
    ]);
    let block = attach_headers(&h, true, FIXED_NOW);
    assert_eq!(block, "\na/b\n\nx-obs-acl:private");
}

#[test]
fn attach_headers_joins_meta_values_trimmed() {
    let h = header_set(&[("x-obs-meta-tag", &[" a ", "b "])]);
    let block = attach_headers(&h, true, FIXED_NOW);
    assert_eq!(block, "\n\n\nx-obs-meta-tag:a,b");
}

#[test]
fn attach_headers_joins_plain_prefixed_values_untrimmed() {
    let h = header_set(&[("x-obs-acl", &[" a ", "b"])]);
    let block = attach_headers(&h, true, FIXED_NOW);
    assert_eq!(block, "\n\n\nx-obs-acl: a ,b");
}

#[test]
fn attach_headers_pins_provider_date_to_canonical_now() {
    let h = header_set(&[("x-obs-date", &["whatever the client said"])]);
    let block = attach_headers(&h, true, FIXED_NOW);
    assert_eq!(block, format!("\n\n\nx-obs-date:{}", FIXED_NOW));
}

#[test]
fn attach_headers_is_idempotent_on_canonical_set() {
    let h = header_set(&[
        (" Content-Type ", &["text/plain"]),
        ("X-OBS-Meta-Tag", &[" a ", "b"]),
        ("x-obs-date", &["20240102T030405Z"]),
        ("unrelated", &["dropped"]),
    ]);
    let canonical = canonical_headers(&h, true, FIXED_NOW);
    let once = attach_headers(&h, true, FIXED_NOW);
    let twice = attach_headers(&canonical, true, FIXED_NOW);
    assert_eq!(once, twice);
}

fn authenticator(ak: &str, sk: &str, st: SignatureType) -> Authenticator {
    let config = ClientBuilder::new()
        .endpoint("https://obs.example.com")
        .security_provider(ak, sk)
        .signature_type(st)
        .build_config();
    Authenticator::new(config)
}

#[test]
fn authorize_without_credentials_fails_with_security() {
    let config = ClientBuilder::new().endpoint("obs.example.com").build_config();
    let auth = Authenticator::new(config);
    let r = auth.auth("GET", "bucket", &Vec::new(), HeaderSet::new(), "/bucket/");
    assert!(matches!(r, Err(ObsError::Security)));
    let r2 = auth.signature("GET", &Vec::new(), &HeaderSet::new(), "/bucket/");
    assert!(matches!(r2, Err(ObsError::Security)));
}

#[test]
fn authorize_with_empty_keys_fails_with_security() {
    let auth = authenticator("", "", SignatureType::V2);
    let r = auth.auth("GET", "bucket", &Vec::new(), HeaderSet::new(), "/bucket/");
    assert!(matches!(r, Err(ObsError::Security)));
}

#[test]
fn security_selects_first_usable_credential() {
    let config = ClientBuilder::new()
        .endpoint("obs.example.com")
        .security_provider("", "only-sk")
        .security_provider("ak2", "sk2")
        .build_config();
    let auth = Authenticator::new(config);
    let holder = auth.security().unwrap();
    assert_eq!(holder.ak(), "ak2");
    assert_eq!(holder.sk(), "sk2");
    assert_eq!(holder.security_token(), "");
}

#[test]
fn signature_with_date_matches_end_to_end_fixture() {
    let auth = authenticator("ak", "secret", SignatureType::V2);
    let headers = header_set(&[("content-type", &["text/plain"])]);
    let resource = auth.config().format_urls("test-bucket", "file.txt", None);
    assert_eq!(resource, "/test-bucket/file.txt");
    let sig = auth
        .signature_with_date("PUT", &headers, &resource, FIXED_NOW)
        .unwrap();
    assert_eq!(sig, "7hnQ0B8nXdTTfSGqHmYa9dYgW2k=");
}

#[test]
fn authorize_builds_host_date_and_authorization() {
    let auth = authenticator("ak", "secret", SignatureType::V2);
    let headers = header_set(&[("content-type", &["text/plain"])]);
    let out = auth
        .auth_with_date("PUT", "test-bucket", &Vec::new(), headers, "/test-bucket/file.txt", FIXED_NOW)
        .unwrap();
    assert_eq!(out.get("Host").unwrap()[0], "test-bucket.obs.example.com");
    assert_eq!(out.get("Date").unwrap()[0], FIXED_NOW);
    let authorization = &out.get("Authorization").unwrap()[0];
    assert!(authorization.starts_with("OBS ak:"));
}

#[test]
fn authorize_without_bucket_uses_bare_endpoint_host() {
    let auth = authenticator("ak", "secret", SignatureType::V2);
    let out = auth
        .auth_with_date("GET", "", &Vec::new(), HeaderSet::new(), "/", FIXED_NOW)
        .unwrap();
    assert_eq!(out.get("Host").unwrap()[0], "obs.example.com");
}

#[test]
fn valid_provider_date_under_v4_becomes_rfc1123_date() {
    let auth = authenticator("ak", "secret", SignatureType::V4);
    let headers = header_set(&[("x-obs-date", &["20240102T030405Z"])]);
    let out = auth
        .auth_with_date("GET", "bucket", &Vec::new(), headers, "/", FIXED_NOW)
        .unwrap();
    assert_eq!(out.get("Date").unwrap()[0], "Tue, 02 Jan 2024 03:04:05 GMT");
    // The provider date header itself survives validation.
    assert_eq!(out.get("x-obs-date").unwrap()[0], "20240102T030405Z");
}

#[test]
fn invalid_provider_date_is_dropped_and_date_synthesized() {
    let auth = authenticator("ak", "secret", SignatureType::V4);
    let headers = header_set(&[("x-obs-date", &["not a timestamp"])]);
    let out = auth
        .auth_with_date("GET", "bucket", &Vec::new(), headers, "/", FIXED_NOW)
        .unwrap();
    assert!(out.get("x-obs-date").is_none());
    assert_eq!(out.get("Date").unwrap()[0], FIXED_NOW);
}

#[test]
fn provider_date_under_v2_kept_only_with_gmt_suffix() {
    let auth = authenticator("ak", "secret", SignatureType::V2);
    let headers = header_set(&[("x-obs-date", &["Tue, 02 Jan 2024 03:04:05 GMT"])]);
    let out = auth
        .auth_with_date("GET", "bucket", &Vec::new(), headers, "/", FIXED_NOW)
        .unwrap();
    assert_eq!(out.get("Date").unwrap()[0], "Tue, 02 Jan 2024 03:04:05 GMT");

    let headers2 = header_set(&[("x-obs-date", &["not gmt at all"])]);
    let out2 = auth
        .auth_with_date("GET", "bucket", &Vec::new(), headers2, "/", FIXED_NOW)
        .unwrap();
    assert!(out2.get("x-obs-date").is_none());
    assert_eq!(out2.get("Date").unwrap()[0], FIXED_NOW);
}

#[test]
fn auth_at_current_time_synthesizes_a_date() {
    let auth = authenticator("ak", "secret", SignatureType::V2);
    let out = auth
        .auth("GET", "bucket", &Vec::new(), HeaderSet::new(), "/bucket/")
        .unwrap();
    let date = &out.get("Date").unwrap()[0];
    assert!(date.ends_with(" GMT"));
    assert_eq!(date.len(), 29);
    assert!(out.get("Authorization").unwrap()[0].starts_with("OBS ak:"));
}

#[test]
fn error_kinds_describe_themselves() {
    assert_eq!(ObsError::Security.describe(), "ak or sk not provided");
    assert_eq!(ObsError::Unknown.describe(), "unknown data store error");
}
