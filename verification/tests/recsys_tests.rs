use hmac::Mac;
use yral_multi_service::recsys::{
    plan_view_count_upload, view_count_from_stored, view_count_key, view_count_keys,
    view_counts_body, view_counts_from_stored, RECSYS_ENDPOINT,
};
use yral_multi_service::view_counts::ViewCounts;

#[test]
fn store_key_of_video() {
    assert_eq!(view_count_key("v1"), "impressions:rewards:video:v1");
    assert_eq!(
        view_count_keys(&vec!["a".to_string(), "b".to_string()]),
        Some(vec!["impressions:rewards:video:a".to_string(), "impressions:rewards:video:b".to_string()])
    );
    assert_eq!(view_count_keys(&vec![]), None);
}

#[test]
fn stored_count_defaults_to_zero() {
    assert_eq!(view_count_from_stored(Some("17".to_string())), 17);
    assert_eq!(view_count_from_stored(Some("x".to_string())), 0);
    assert_eq!(view_count_from_stored(Some("-3".to_string())), 0);
    assert_eq!(view_count_from_stored(None), 0);
}

#[test]
fn counts_from_stored_pair_in_order() {
    let ids = vec!["a".to_string(), "b".to_string(), "a".to_string(), "c".to_string()];
    let stored = vec![Some("1".to_string()), None, Some("5".to_string())];
    let counts = view_counts_from_stored(&ids, stored);
    assert_eq!(counts.len(), 2);
    assert_eq!(counts.get("a"), Some(5));
    assert_eq!(counts.get("b"), Some(0));
    assert_eq!(counts.get("c"), None);
}

#[test]
fn upload_body_is_sorted_key_json_array() {
    let mut c = ViewCounts::new();
    c.insert("a".to_string(), 5);
    c.insert("b\"c".to_string(), 7);
    let body = view_counts_body(&c);
    assert_eq!(
        body,
        "[{\"total_count_all\":5,\"video_id\":\"a\"},{\"total_count_all\":7,\"video_id\":\"b\\\"c\"}]"
    );
    let item = |id: &str, n: u64| {
        let mut m = serde_json::Map::new();
        m.insert("video_id".to_string(), serde_json::Value::String(id.to_string()));
        m.insert("total_count_all".to_string(), serde_json::Value::from(n));
        serde_json::Value::Object(m)
    };
    let expected = serde_json::Value::Array(vec![item("a", 5), item("b\"c", 7)]).to_string();
    assert_eq!(body, expected);
}

#[test]
fn upload_body_escapes_like_serde_json() {
    let ids = ["t\tq\"b\\", "\u{1}\u{1f}\u{7f}é/", "\u{8}\u{c}\n\r"];
    for id in ids {
        let mut c = ViewCounts::new();
        c.insert(id.to_string(), 1);
        let body = view_counts_body(&c);
        let mut m = serde_json::Map::new();
        m.insert("video_id".to_string(), serde_json::Value::String(id.to_string()));
        m.insert("total_count_all".to_string(), serde_json::Value::from(1u64));
        let expected = serde_json::Value::Array(vec![serde_json::Value::Object(m)]).to_string();
        assert_eq!(body, expected);
    }
    let mut c = ViewCounts::new();
    c.insert("\u{1}".to_string(), 2);
    assert_eq!(view_counts_body(&c), "[{\"total_count_all\":2,\"video_id\":\"\\u0001\"}]");
}

#[test]
fn nothing_to_upload_for_no_counts() {
    let c = ViewCounts::new();
    assert!(plan_view_count_upload(&c, "/p", "secret", 1).is_none());
}

#[test]
fn upload_is_signed_over_timestamp_method_path_body() {
    let mut c = ViewCounts::new();
    c.insert("vid".to_string(), 12);
    let path = "/api/v1/internal/feed-recsys/view-counts";
    let up = plan_view_count_upload(&c, path, "k3y", 1700000000).unwrap();
    assert_eq!(up.url, RECSYS_ENDPOINT);
    assert_eq!(up.timestamp, "1700000000");
    assert_eq!(up.body, "[{\"total_count_all\":12,\"video_id\":\"vid\"}]");
    let mut mac = hmac::Hmac::<sha2::Sha256>::new_from_slice(b"k3y").unwrap();
    mac.update(b"1700000000");
    mac.update(b"\n");
    mac.update(b"POST");
    mac.update(b"\n");
    mac.update(path.as_bytes());
    mac.update(b"\n");
    mac.update(up.body.as_bytes());
    let expected = hex::encode(mac.finalize().into_bytes());
    assert_eq!(up.signature, expected);
    assert_eq!(up.signature.len(), 64);
    assert!(up.signature.chars().all(|c| c.is_ascii_digit() || ('a'..='f').contains(&c)));
    let other = plan_view_count_upload(&c, path, "other", 1700000000).unwrap();
    assert_ne!(other.signature, up.signature);
    let negative = plan_view_count_upload(&c, path, "k3y", -5).unwrap();
    assert_eq!(negative.timestamp, "-5");
}
