use rbgg::bgg1::Client1;
use rbgg::utils::Params;

#[test]
fn bgg1_test_client() {
    let cl = Client1::new(None, None);

    assert_eq!(cl.url_base, "https://boardgamegeek.com".to_string());
    assert_eq!(cl.api_prefix, "xmlapi".to_string());

    let base = "https://example.com";
    let prefix = "/blah";
    let cl = Client1::new(Some(base.to_string()), Some(prefix.to_string()));

    assert_eq!(cl.url_base, base.to_string());
    assert_eq!(cl.api_prefix, "blah");
}

#[test]
fn bgg1_test_gen_url() {
    let cl = Client1::new(None, None);
    let params = Params::from_pairs(vec![
        ("search".to_string(), "this is a search".to_string()),
        ("exact".to_string(), "1".to_string()),
    ]);

    let res = cl.gen_url("search", Some(params), None);
    println!("{}", res);
    assert!(res.starts_with("https://boardgamegeek.com/xmlapi/search?"));
    assert!(res.contains("search=this%20is%20a%20search"));
    assert!(res.contains("&"));
    assert!(res.contains("exact=1"));

    let res = cl.gen_url("boardgame", None, Some(&vec!["1".to_string(), "2".to_string()]));

    assert_eq!(res, "https://boardgamegeek.com/xmlapi/boardgame/1,2?".to_string());
}

#[test]
fn bgg1_test_get_full_url() {
    let cl = Client1::new(None, None);
    let url = cl.get_full_url(
        "search".to_string(),
        None,
        Some(Params::from_pairs(vec![("search".to_string(), "this is a search".to_string())])),
        None,
    );

    assert_eq!(url, "https://boardgamegeek.com/xmlapi/search?search=this%20is%20a%20search");

    let url = cl.get_full_url(
        "boardgame".to_string(),
        Some(Params::from_pairs(vec![("comments".to_string(), "1".to_string())])),
        None,
        Some(&vec!["a".to_string(), "b".to_string(), "c".to_string()]),
    );

    assert_eq!(url, "https://boardgamegeek.com/xmlapi/boardgame/a,b,c?comments=1".to_string());
}

#[test]
fn search_query_joined_by_one_separator() {
    let cl = Client1::new(None, None);
    let params = Params::from_pairs(vec![
        ("q".to_string(), "a b".to_string()),
        ("x".to_string(), "1".to_string()),
    ]);
    let url = cl.gen_url("search", Some(params), None);

    assert!(url.starts_with("https://boardgamegeek.com/xmlapi/search?"));
    assert!(url.contains("q=a%20b"));
    assert!(url.contains("x=1"));
    assert_eq!(url.chars().filter(|c| *c == '&').count(), 1);
}

#[test]
fn boardgame_url_places_ids_in_path() {
    let cl = Client1::new(None, None);
    let url = cl.boardgame_url(&vec![1, 2], None);
    assert_eq!(url, "https://boardgamegeek.com/xmlapi/boardgame/1,2?");

    let url = cl.boardgame_url(&vec![136888], Some(Params::from_pairs(vec![(
        "stats".to_string(),
        "1".to_string(),
    )])));
    assert_eq!(url, "https://boardgamegeek.com/xmlapi/boardgame/136888?stats=1");
}

#[test]
fn per_operation_urls() {
    let cl = Client1::new(None, None);
    assert_eq!(
        cl.search_url("bruges", None),
        "https://boardgamegeek.com/xmlapi/search?search=bruges"
    );
    assert_eq!(
        cl.collection_url("somebody", None),
        "https://boardgamegeek.com/xmlapi/collection/somebody?"
    );
    assert_eq!(cl.thread_url(42, None), "https://boardgamegeek.com/xmlapi/thread/42?");
    assert_eq!(cl.thread_url(0, None), "https://boardgamegeek.com/xmlapi/thread/0?");
    assert_eq!(
        cl.thread_url(usize::MAX, None),
        "https://boardgamegeek.com/xmlapi/thread/18446744073709551615?"
    );
    // the geeklist operation requests the thread path
    assert_eq!(cl.geeklist_url(7, None), "https://boardgamegeek.com/xmlapi/thread/7?");
}

#[test]
fn empty_addon_list_adds_nothing() {
    // add-ons reach the path only when the list is present and non-empty
    let cl = Client1::new(None, None);
    let empty: Vec<String> = Vec::new();
    assert_eq!(
        cl.gen_url("boardgame", None, Some(&empty)),
        "https://boardgamegeek.com/xmlapi/boardgame?"
    );
    assert_eq!(cl.boardgame_url(&vec![], None), "https://boardgamegeek.com/xmlapi/boardgame?");
}

#[test]
fn search_url_overrides_caller_search_key() {
    let cl = Client1::new(None, None);
    let opts = Params::from_pairs(vec![("search".to_string(), "other".to_string())]);
    let url = cl.search_url("bruges", Some(opts));
    assert_eq!(url, "https://boardgamegeek.com/xmlapi/search?search=bruges");
}
