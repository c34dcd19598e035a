use featureflags::cache::DecisionCache;
use featureflags::key::cache_key;
use featureflags::url::{build_evaluate_url, trim_trailing_slashes};

fn attrs(pairs: &[(&str, &str)]) -> Vec<(String, String)> {
    pairs.iter().map(|(k, v)| (k.to_string(), v.to_string())).collect()
}

#[test]
fn cache_hit_within_ttl() {
    let mut cache = DecisionCache::new(60);
    let key = String::from("beta|u1");
    assert_eq!(cache.lookup(&key, 1_000), None);
    cache.store(key.clone(), true, 1_000);
    assert_eq!(cache.lookup(&key, 1_000), Some(true));
    assert_eq!(cache.lookup(&key, 60_999), Some(true));
    assert_eq!(cache.entries.len(), 1);
}

#[test]
fn cache_expires_after_ttl() {
    let mut cache = DecisionCache::new(60);
    let key = String::from("beta|u1");
    cache.store(key.clone(), true, 1_000);
    assert_eq!(cache.lookup(&key, 61_000), None);
    assert!(cache.entries.is_empty());
    cache.store(key.clone(), false, 61_000);
    assert_eq!(cache.lookup(&key, 61_001), Some(false));
}

#[test]
fn cache_zero_ttl_never_hits() {
    let mut cache = DecisionCache::new(0);
    let key = String::from("k");
    cache.store(key.clone(), true, 5);
    assert_eq!(cache.lookup(&key, 5), None);
}

#[test]
fn cache_store_overwrites_and_keeps_other_keys() {
    let mut cache = DecisionCache::new(10);
    cache.store("a".into(), true, 0);
    cache.store("b".into(), false, 0);
    cache.store("a".into(), false, 1);
    assert_eq!(cache.entries.len(), 2);
    assert_eq!(cache.lookup(&"a".to_string(), 2), Some(false));
    assert_eq!(cache.lookup(&"b".to_string(), 2), Some(false));
}

#[test]
fn cache_key_sorts_attributes() {
    let k1 = cache_key("f", "u", Some(&attrs(&[("a", "1"), ("b", "2")])));
    let k2 = cache_key("f", "u", Some(&attrs(&[("b", "2"), ("a", "1")])));
    assert_eq!(k1, "f|u|a:1|b:2");
    assert_eq!(k1, k2);
}

#[test]
fn cache_key_without_attributes() {
    assert_eq!(cache_key("beta", "u1", None), "beta|u1");
    assert_eq!(cache_key("beta", "", Some(&Vec::new())), "beta|");
}

#[test]
fn evaluate_url_encodes_parts() {
    let url = build_evaluate_url(
        "http://h:8080",
        "my flag",
        "u/1",
        Some(&attrs(&[("country", "ES")])),
    );
    assert_eq!(url, "http://h:8080/evaluate?flag=my%20flag&user_id=u%2F1&attr=country%3AES");
    assert_eq!(build_evaluate_url("b", "f", "", None), "b/evaluate?flag=f&user_id=");
}

#[test]
fn trims_trailing_slashes() {
    assert_eq!(trim_trailing_slashes("http://h:8080//"), "http://h:8080");
    assert_eq!(trim_trailing_slashes("http://h"), "http://h");
    assert_eq!(trim_trailing_slashes("///"), "");
}
