use huaweicloud_sdk_rust_obs::client::ClientBuilder;
use huaweicloud_sdk_rust_obs::config::{is_sub_resource, SignatureType};

fn params(pairs: &[(&str, &str)]) -> Vec<(String, String)> {
    pairs.iter().map(|(k, v)| (k.to_string(), v.to_string())).collect()
}

fn config_with(st: SignatureType) -> huaweicloud_sdk_rust_obs::config::Config {
    ClientBuilder::new()
        .endpoint("obs.example.com")
        .signature_type(st)
        .build_config()
}

#[test]
fn whitelist_recognizes_sub_resources() {
    assert!(is_sub_resource("acl"));
    assert!(is_sub_resource("uploadId"));
    assert!(is_sub_resource("versionId"));
    assert!(is_sub_resource("location"));
    assert!(is_sub_resource("lifecycle"));
    assert!(is_sub_resource("retention"));
    assert!(is_sub_resource("CDNNotifyConfiguration"));
    assert!(!is_sub_resource("marker"));
    assert!(!is_sub_resource("max-keys"));
    assert!(!is_sub_resource("prefix"));
    assert!(!is_sub_resource("delimiter"));
    // The table is case-sensitive.
    assert!(!is_sub_resource("uploadid"));
    assert!(!is_sub_resource(""));
}

#[test]
fn empty_bucket_yields_root_resource() {
    let c = config_with(SignatureType::V2);
    assert_eq!(c.format_urls("", "key", Some(&params(&[("acl", "1")]))), "/");
}

#[test]
fn v4_resource_is_root_placeholder() {
    let c = config_with(SignatureType::V4);
    assert_eq!(c.format_urls("bucket", "key", Some(&params(&[("acl", "1")]))), "/");
}

#[test]
fn resource_includes_bucket_and_key() {
    let c = config_with(SignatureType::V2);
    assert_eq!(c.format_urls("bucket", "key", None), "/bucket/key");
    assert_eq!(c.format_urls("bucket", "", None), "/bucket/");
}

#[test]
fn only_whitelisted_params_are_signed() {
    let c = config_with(SignatureType::V2);
    let ps = params(&[("uploadId", "1"), ("marker", "2"), ("acl", "3")]);
    assert_eq!(
        c.format_urls("bucket", "key", Some(&ps)),
        "/bucket/key?uploadId=1&acl=3"
    );
}

#[test]
fn single_whitelisted_param_is_signed() {
    let c = config_with(SignatureType::OBS);
    let ps = params(&[("location", "")]);
    assert_eq!(c.format_urls("bucket", "", Some(&ps)), "/bucket/?location=");
}

#[test]
fn no_whitelisted_param_leaves_no_query_marker() {
    let c = config_with(SignatureType::V2);
    let ps = params(&[("marker", "m"), ("prefix", "p")]);
    assert_eq!(c.format_urls("bucket", "key", Some(&ps)), "/bucket/key");
}

#[test]
fn signed_params_keep_insertion_order_and_are_stable() {
    let c = config_with(SignatureType::V2);
    let ps = params(&[("versionId", "7"), ("acl", ""), ("uploads", "x")]);
    let first = c.format_urls("b", "k", Some(&ps));
    let second = c.format_urls("b", "k", Some(&ps));
    assert_eq!(first, "/b/k?versionId=7&acl=&uploads=x");
    assert_eq!(first, second);
}

#[test]
fn canonicalized_url_follows_signature_type() {
    let v2 = config_with(SignatureType::V2);
    assert_eq!(v2.canonicalized_url("", "any"), "/");
    assert_eq!(v2.canonicalized_url("bucket", ""), "/bucket/");
    assert_eq!(v2.canonicalized_url("bucket", "key"), "/bucket/key");
    let v4 = config_with(SignatureType::V4);
    assert_eq!(v4.canonicalized_url("bucket", "key"), "/");
}

#[test]
fn builder_strips_url_schemes_from_endpoint() {
    for spelling in [
        "https://obs.ap-southeast-1.myhuaweicloud.com",
        "http://obs.ap-southeast-1.myhuaweicloud.com",
        "obs.ap-southeast-1.myhuaweicloud.com",
    ] {
        let c = ClientBuilder::new().endpoint(spelling).build_config();
        assert_eq!(c.endpoint(), "obs.ap-southeast-1.myhuaweicloud.com");
    }
}

#[test]
fn builder_collects_credentials_in_order() {
    let c = ClientBuilder::new()
        .security_provider("ak1", "sk1")
        .security_provider("ak2", "sk2")
        .build_config();
    let providers = c.security_providers();
    assert_eq!(providers.len(), 2);
    assert_eq!(providers[0].ak(), "ak1");
    assert_eq!(providers[0].sk(), "sk1");
    assert_eq!(providers[1].ak(), "ak2");
    assert_eq!(providers[1].security_token(), "");
}

#[test]
fn builder_records_region_and_security_flag() {
    let c = ClientBuilder::new()
        .region("ap-southeast-1")
        .is_secure(true)
        .build_config();
    assert_eq!(c.region, "ap-southeast-1");
    assert!(c.is_secure);
}
