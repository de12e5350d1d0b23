use rbgg::bgg2::Client2;
use rbgg::bgg2::Family;
use rbgg::bgg2::Hotness;
use rbgg::bgg2::Search;
use rbgg::bgg2::Thing;
use rbgg::bgg2::ThingFamily;
use rbgg::errors::BggError;
use rbgg::utils::Params;

#[test]
fn bgg2_test_client() {
    let cl = Client2::new(None, None);

    assert_eq!(cl.url_base, "https://boardgamegeek.com".to_string());
    assert_eq!(cl.api_prefix, "xmlapi2".to_string());

    let base = "https://example.com";
    let prefix = "/blah";
    let cl = Client2::new(Some(base.to_string()), Some(prefix.to_string()));

    assert_eq!(cl.url_base, base.to_string());
    assert_eq!(cl.api_prefix, "blah");
}

#[test]
fn bgg2_test_gen_url() {
    let cl = Client2::new(None, None);
    let params = Params::from_pairs(vec![
        ("search".to_string(), "this is a search".to_string()),
        ("exact".to_string(), "1".to_string()),
    ]);

    let res = cl.gen_url("search", Some(params));
    println!("{}", res);
    assert!(res.starts_with("https://boardgamegeek.com/xmlapi2/search?"));
    assert!(res.contains("search=this%20is%20a%20search"));
    assert!(res.contains("&"));
    assert!(res.contains("exact=1"));

    let res = cl.gen_url("boardgame", None);

    assert_eq!(res, "https://boardgamegeek.com/xmlapi2/boardgame?".to_string());
}

#[test]
fn bgg2_test_get_full_url() {
    let cl = Client2::new(None, None);
    let url = cl.get_full_url(
        "search".to_string(),
        None,
        Some(Params::from_pairs(vec![("search".to_string(), "this is a search".to_string())])),
    );

    assert_eq!(url, "https://boardgamegeek.com/xmlapi2/search?search=this%20is%20a%20search");

    let url = cl.get_full_url(
        "boardgame".to_string(),
        Some(Params::from_pairs(vec![("comments".to_string(), "1".to_string())])),
        None,
    );

    assert_eq!(url, "https://boardgamegeek.com/xmlapi2/boardgame?comments=1".to_string());
}

#[test]
fn wire_strings() {
    assert_eq!(Thing::BoardGame.as_str(), "boardgame");
    assert_eq!(Thing::RpgIssue.to_string(), "rpgissue");
    assert_eq!(Search::BoardGameAccessory.as_str(), "boardgameaccessory");
    assert_eq!(Search::VideoGame.to_string(), "videogame");
    assert_eq!(Family::BoardGameFamily.as_str(), "boardgamefamily");
    assert_eq!(Family::RpgPeriodical.to_string(), "rpgperiodical");
    assert_eq!(ThingFamily::Thing.as_str(), "thing");
    assert_eq!(ThingFamily::Family.to_string(), "family");
    assert_eq!(Hotness::BoardGamePerson.as_str(), "boardgameperson");
    assert_eq!(Hotness::VideoGameCompany.to_string(), "videogamecompany");
}

#[test]
fn search_url_forces_query_and_type() {
    let cl = Client2::new(None, None);
    let url = cl.search_url("bruges", &vec![Search::BoardGame], None);
    assert_eq!(url, "https://boardgamegeek.com/xmlapi2/search?query=bruges&type=boardgame");

    // a caller value under a forced key is overwritten, in place; the
    // comma joining the kinds is itself percent-encoded in the value
    let opts = Params::from_pairs(vec![("query".to_string(), "other".to_string())]);
    let url = cl.search_url("bruges", &vec![Search::BoardGame, Search::RpgItem], Some(opts));
    assert_eq!(
        url,
        "https://boardgamegeek.com/xmlapi2/search?query=bruges&type=boardgame%2Crpgitem"
    );
}

#[test]
fn thing_and_family_urls() {
    let cl = Client2::new(None, None);
    let url = cl.thing_url(&vec![136888, 133473], &vec![Thing::BoardGame], None);
    assert_eq!(url, "https://boardgamegeek.com/xmlapi2/thing?id=136888%2C133473&type=boardgame");

    let url = cl.family_url(&vec![8374], &vec![Family::Rpg, Family::RpgPeriodical]);
    assert_eq!(url, "https://boardgamegeek.com/xmlapi2/family?id=8374&type=rpg%2Crpgperiodical");
}

#[test]
fn forum_user_guild_and_hot_urls() {
    let cl = Client2::new(None, None);
    assert_eq!(
        cl.forumlist_url(1000, ThingFamily::Thing),
        "https://boardgamegeek.com/xmlapi2/forumlist?id=1000&type=thing"
    );
    // the forum-threads listing goes to the forumlist path
    assert_eq!(cl.forum_url(55, None), "https://boardgamegeek.com/xmlapi2/forumlist?id=55");
    assert_eq!(cl.thread_url(9, None), "https://boardgamegeek.com/xmlapi2/thread?id=9");
    assert_eq!(cl.user_url("bob", None), "https://boardgamegeek.com/xmlapi2/user?name=bob");
    assert_eq!(cl.guild_url(3, None), "https://boardgamegeek.com/xmlapi2/guild?id=3");
    assert_eq!(
        cl.collection_url("bob", None),
        "https://boardgamegeek.com/xmlapi2/collection?username=bob"
    );
    assert_eq!(
        cl.hot_url(Hotness::BoardGame),
        "https://boardgamegeek.com/xmlapi2/hot?type=boardgame"
    );
}

#[test]
fn plays_requires_exactly_one_subject() {
    let cl = Client2::new(None, None);

    let r = cl.plays_url(None, None, None, None);
    assert!(matches!(r, Err(BggError::InvalidArgument(_))));

    let r = cl.plays_url(None, Some(1), None, None);
    assert!(matches!(r, Err(BggError::InvalidArgument(_))));

    let r = cl.plays_url(Some("bob"), Some(1), Some(ThingFamily::Thing), None);
    assert!(matches!(r, Err(BggError::InvalidArgument(_))));

    let r = cl.plays_url(Some("bob"), None, None, None).unwrap();
    assert_eq!(r, "https://boardgamegeek.com/xmlapi2/plays?username=bob");

    let r = cl.plays_url(None, Some(42), Some(ThingFamily::Thing), None).unwrap();
    assert_eq!(r, "https://boardgamegeek.com/xmlapi2/plays?id=42&type=thing");
}

#[test]
fn invalid_classification_is_rejected_before_any_request() {
    // An invalid value never yields an operation URL, so no request can
    // follow from it; a valid value parses to its kind.
    let r = Search::from_wire("boardgamez");
    assert!(r.is_err());
    let e = r.unwrap_err();
    assert_eq!(
        e.describe(),
        "InvalidBGGType: { type: boardgamez, message: not a known search type }"
    );

    assert_eq!(Search::from_wire("boardgame").unwrap(), Search::BoardGame);
    assert_eq!(Thing::from_wire("rpgitem").unwrap(), Thing::RpgItem);
    assert!(Thing::from_wire("rpg").is_err());
}
