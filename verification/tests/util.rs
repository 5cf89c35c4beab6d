use huaweicloud_sdk_rust_obs::auth::{sort_strings, string_to_sign};
use huaweicloud_sdk_rust_obs::headers::HeaderSet;
use huaweicloud_sdk_rust_obs::model::create_bucket::CreateBucketRequest;
use huaweicloud_sdk_rust_obs::model::delete_object::{Boolean, ResponseMode};
use huaweicloud_sdk_rust_obs::provider::EnvSecurityProvider;
use huaweicloud_sdk_rust_obs::strutil::{
    char_to_lower, has_prefix, has_suffix, join_with, str_eq, str_le, to_lower, trim,
};

#[test]
fn lowercasing_is_ascii_only() {
    assert_eq!(char_to_lower('A'), 'a');
    assert_eq!(char_to_lower('z'), 'z');
    assert_eq!(char_to_lower('5'), '5');
    assert_eq!(to_lower("Content-MD5"), "content-md5");
    assert_eq!(to_lower(""), "");
}

#[test]
fn trimming_strips_edge_whitespace_only() {
    assert_eq!(trim("  a b  "), "a b");
    assert_eq!(trim("\t x \r\n"), "x");
    assert_eq!(trim("none"), "none");
    assert_eq!(trim("   "), "");
    assert_eq!(trim(""), "");
}

#[test]
fn prefix_and_suffix_tests() {
    assert!(has_prefix("x-obs-date", "x-obs-"));
    assert!(!has_prefix("x-amz-date", "x-obs-"));
    assert!(!has_prefix("x", "x-obs-"));
    assert!(has_suffix("Tue, 02 Jan 2024 03:04:05 GMT", "GMT"));
    assert!(!has_suffix("Tue, 02 Jan 2024 03:04:05", "GMT"));
    assert!(!has_suffix("MT", "GMT"));
}

#[test]
fn string_equality_and_order() {
    assert!(str_eq("abc", "abc"));
    assert!(!str_eq("abc", "abd"));
    assert!(str_le("abc", "abd"));
    assert!(str_le("abc", "abc"));
    assert!(str_le("ab", "abc"));
    assert!(!str_le("b", "abc"));
    assert!(str_le("Date", "date"));
}

#[test]
fn joining_with_separators() {
    let parts: Vec<String> = vec!["a".into(), "b".into(), "c".into()];
    assert_eq!(join_with(&parts, ","), "a,b,c");
    let one: Vec<String> = vec!["only".into()];
    assert_eq!(join_with(&one, ","), "only");
    let none: Vec<String> = Vec::new();
    assert_eq!(join_with(&none, ","), "");
}

#[test]
fn sorting_is_lexicographic() {
    let v: Vec<String> = vec!["date".into(), "content-md5".into(), "x-obs-acl".into(), "content-type".into()];
    let sorted = sort_strings(&v);
    let expect: Vec<String> =
        vec!["content-md5".into(), "content-type".into(), "date".into(), "x-obs-acl".into()];
    assert_eq!(sorted, expect);
}

#[test]
fn header_set_inserts_in_order_and_replaces() {
    let mut h = HeaderSet::new();
    h.insert("a".into(), vec!["1".into()]);
    h.insert("b".into(), vec!["2".into()]);
    h.insert("a".into(), vec!["3".into()]);
    assert_eq!(h.len(), 2);
    assert_eq!(h.key_at(0), "a");
    assert_eq!(h.values_at(0), &vec!["3".to_string()]);
    assert_eq!(h.key_at(1), "b");
    assert!(h.contains_key("a"));
    assert!(!h.contains_key("c"));
    h.remove("a");
    assert_eq!(h.len(), 1);
    assert!(h.get("a").is_none());
    assert_eq!(h.get("b").unwrap()[0], "2");
}

#[test]
fn sign_lines_render_per_key() {
    let mut h = HeaderSet::new();
    h.insert("x-obs-meta-m".into(), vec![" a ".into(), "b".into()]);
    h.insert("content-type".into(), vec!["t/p".into()]);
    let keys: Vec<String> = vec!["content-md5".into(), "content-type".into(), "x-obs-meta-m".into()];
    let lines = string_to_sign(&keys, true, &h);
    let expect: Vec<String> = vec!["".into(), "t/p".into(), "x-obs-meta-m:a,b".into()];
    assert_eq!(lines, expect);
}

#[test]
fn response_mode_spells_quiet_as_true() {
    assert!(ResponseMode::Quiet.to_bool());
    assert!(!ResponseMode::Verbose.to_bool());
}

#[test]
fn create_bucket_request_carries_location() {
    let req = CreateBucketRequest::new("ap-southeast-1");
    assert_eq!(req.create_bucket_configuration.location, "ap-southeast-1");
}

#[test]
fn env_provider_prefixes_suffix_with_underscore() {
    let p = EnvSecurityProvider::new("dev".to_string());
    assert_eq!(p.suffix(), "_dev");
    let q = EnvSecurityProvider::new(String::new());
    assert_eq!(q.suffix(), "");
}
