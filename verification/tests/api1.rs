use rbgg::api1::bgg1::Client;
use rbgg::utils::Params;

#[test]
fn test_client() {
    let cl = Client::new(None, None);

    assert_eq!(cl.url_base, "https://boardgamegeek.com".to_string());
    assert_eq!(cl.api_prefix, "/xmlapi".to_string());

    let base = "https://example.com";
    let prefix = "/blah";
    let cl = Client::new(Some(base.to_string()), Some(prefix.to_string()));

    assert_eq!(cl.url_base, base.to_string());
    assert_eq!(cl.api_prefix, prefix.to_string());
}

#[test]
fn test_gen_url() {
    let cl = Client::new(None, None);
    let params = Params::from_pairs(vec![
        ("search".to_string(), "this is a search".to_string()),
        ("exact".to_string(), "1".to_string()),
    ]);

    let res = cl.gen_url("search", Some(params));
    println!("{}", res);
    assert_eq!(
        res,
        "https://boardgamegeek.com//xmlapi/search?\
                search=this%20is%20a%20search&exact=1".to_string()
    );
}

#[test]
fn search_url_inserts_query() {
    let cl = Client::new(None, None);
    let url = cl.search_url("bruges", None);
    assert_eq!(url, "https://boardgamegeek.com//xmlapi/search?search=bruges");
}
