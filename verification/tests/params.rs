use rbgg::utils::get_opts;
use rbgg::utils::merge_params;
use rbgg::utils::params2qs;
use rbgg::utils::parse_qs;
use rbgg::utils::Params;

#[test]
fn test_get_opts() {
    let res = get_opts(None);

    assert_eq!(res, Params::new());

    let p = Params::from_pairs(vec![("key".to_string(), "value".to_string())]);
    let res = get_opts(Some(p));

    assert_eq!(res.len(), 1);
    assert!(res.contains_key("key"));
}

#[test]
fn test_params_encoding() {
    // Basic test
    let p = Params::from_pairs(vec![("key".to_string(), "value".to_string())]);
    assert_eq!(params2qs(&p), "key=value");

    // Test for the url encoding
    let p = Params::from_pairs(vec![("key=".to_string(), "value".to_string())]);
    assert_eq!(params2qs(&p), "key%3D=value");

    let p = Params::from_pairs(vec![
        ("key1".to_string(), "value1".to_string()),
        ("key2".to_string(), "value2".to_string()),
    ]);
    let res = params2qs(&p);
    let amp_count = res.chars().filter(|c| *c == '&').count();
    assert_eq!(amp_count, 1);
    assert!(res.contains("key1=value1"));
    assert!(res.contains("key2=value2"));
}

#[test]
fn merge_prefers_default_on_collision() {
    let caller = Params::from_pairs(vec![
        ("type".to_string(), "videogame".to_string()),
        ("exact".to_string(), "1".to_string()),
    ]);
    let defaults = Params::from_pairs(vec![("type".to_string(), "boardgame".to_string())]);
    let merged = merge_params(caller, &defaults);

    assert_eq!(merged.get("type"), Some("boardgame".to_string()));
    assert_eq!(merged.get("exact"), Some("1".to_string()));
    assert_eq!(merged.len(), 2);
}

#[test]
fn merge_without_collision_keeps_both() {
    let caller = Params::from_pairs(vec![("exact".to_string(), "1".to_string())]);
    let defaults = Params::from_pairs(vec![("search".to_string(), "bruges".to_string())]);
    let merged = merge_params(caller, &defaults);

    assert_eq!(merged.get("exact"), Some("1".to_string()));
    assert_eq!(merged.get("search"), Some("bruges".to_string()));
    assert_eq!(merged.len(), 2);
}

#[test]
fn insert_overwrites_existing_key() {
    let mut p = Params::from_pairs(vec![("a".to_string(), "1".to_string())]);
    p.insert("a".to_string(), "2".to_string());
    assert_eq!(p.len(), 1);
    assert_eq!(p.get("a"), Some("2".to_string()));
    assert_eq!(p.get("b"), None);
}

#[test]
fn query_string_round_trip() {
    let p = Params::from_pairs(vec![
        ("q".to_string(), "a b&c=d".to_string()),
        ("name".to_string(), "v\u{e4}lue/\u{fc}".to_string()),
        ("empty".to_string(), String::new()),
    ]);
    let qs = params2qs(&p);
    let back = parse_qs(&qs).expect("a generated query string parses");
    assert_eq!(back, p);
}

#[test]
fn empty_round_trip() {
    let p = Params::new();
    let qs = params2qs(&p);
    assert_eq!(qs, "");
    let back = parse_qs(&qs).expect("the empty query string parses");
    assert_eq!(back, p);
}

#[test]
fn parse_rejects_segment_without_separator() {
    assert!(parse_qs("a=1&justkey").is_none());
    assert!(parse_qs("&a=1").is_none());
    assert!(parse_qs("a=1&").is_none());
}
