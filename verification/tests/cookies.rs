use twoblade_client::cookies::parse_cookie_header;
use twoblade_client::cookies::CookieMap;

#[test]
fn parses_well_formed_jar_content() {
    let m = parse_cookie_header("a=1; b=2; c=3");
    assert_eq!(m.len(), 3);
    assert_eq!(m.get("a").unwrap().as_str(), "1");
    assert_eq!(m.get("b").unwrap().as_str(), "2");
    assert_eq!(m.get("c").unwrap().as_str(), "3");
}

#[test]
fn drops_malformed_segment_without_error() {
    let m = parse_cookie_header("a=1; b=2; malformed; c=3");
    assert_eq!(m.len(), 3);
    assert_eq!(m.get("a").unwrap().as_str(), "1");
    assert_eq!(m.get("b").unwrap().as_str(), "2");
    assert_eq!(m.get("c").unwrap().as_str(), "3");
    assert!(m.get("malformed").is_none());
}

#[test]
fn empty_header_is_empty_mapping() {
    let m = parse_cookie_header("");
    assert_eq!(m.len(), 0);
}

#[test]
fn value_keeps_equals_signs_after_the_first() {
    let m = parse_cookie_header("k=a=b");
    assert_eq!(m.len(), 1);
    assert_eq!(m.get("k").unwrap().as_str(), "a=b");
}

#[test]
fn segments_are_trimmed_at_their_ends_only() {
    let m = parse_cookie_header("  session=abc  ; x = 1");
    assert_eq!(m.get("session").unwrap().as_str(), "abc");
    assert_eq!(m.get("x ").unwrap().as_str(), " 1");
    assert!(m.get("x").is_none());
}

#[test]
fn later_pair_of_same_name_overrides_earlier() {
    let m = parse_cookie_header("a=1; a=2");
    assert_eq!(m.len(), 1);
    assert_eq!(m.get("a").unwrap().as_str(), "2");
}

#[test]
fn insert_replaces_existing_name_in_place() {
    let mut m = CookieMap::new();
    m.insert("a".to_string(), "1".to_string());
    m.insert("b".to_string(), "2".to_string());
    m.insert("a".to_string(), "3".to_string());
    assert_eq!(m.len(), 2);
    assert_eq!(m.get("a").unwrap().as_str(), "3");
    assert_eq!(m.get("b").unwrap().as_str(), "2");
    let pairs = m.pairs();
    assert_eq!(pairs[0].0.as_str(), "a");
    assert_eq!(pairs[0].1.as_str(), "3");
}

#[test]
fn empty_value_and_empty_name_are_kept() {
    let m = parse_cookie_header("a=; =b");
    assert_eq!(m.len(), 2);
    assert_eq!(m.get("a").unwrap().as_str(), "");
    assert_eq!(m.get("").unwrap().as_str(), "b");
}
