//! Client for version 2 of the remote XML API, together with the closed
//! classification enumerations the operations accept.  Each enumeration maps
//! exhaustively to its wire string, and can be parsed back from a wire
//! string, rejecting anything outside the closed set before a request URL is
//! ever built.

use crate::errors::InvalidBGGType;
use crate::errors::BggError;
use crate::strutil::dec_digits;
use crate::strutil::join_char;
use crate::strutil::str_eq;
use crate::strutil::trim_slash_ends;
use crate::strutil::trim_slashes;
use crate::strutil::strip_one_trailing_slash;
use crate::strutil::usize_to_string;
use crate::strutil::views_of;
use crate::strutil::without_trailing_slash;
use crate::bgg1::ids_to_strings;
use crate::bgg1::opt_view;
use crate::bgg1::url_view;
use crate::utils::get_opts;
use crate::utils::insert_pair;
use crate::utils::merge_params;
use crate::utils::merge_spec;
use crate::utils::params2qs;
use crate::utils::qs_of;
use crate::utils::PairView;
use crate::utils::Params;
use crate::strutil::join_with_comma;
use crate::strutil::push_char;
use vstd::prelude::*;
use vstd::string::StrSliceExecFns;
use vstd::string::StringExecFns;

verus! {

/// The item kinds a raw `thing` call accepts.
#[derive(Clone, Copy, PartialEq, Eq, Structural, Debug)]
pub enum Thing {
    BoardGame,
    BoardGameExpansion,
    BoardGameAccessory,
    VideoGame,
    RpgItem,
    RpgIssue,
}

impl Thing {
    /// The wire string of this kind.
    pub open spec fn wire_str(self) -> Seq<char> {
        match self {
            Thing::BoardGame => "boardgame"@,
            Thing::BoardGameExpansion => "boardgameexpansion"@,
            Thing::BoardGameAccessory => "boardgameaccessory"@,
            Thing::VideoGame => "videogame"@,
            Thing::RpgItem => "rpgitem"@,
            Thing::RpgIssue => "rpgissue"@,
        }
    }

    pub fn as_str(&self) -> (r: &'static str)
        ensures
            r@ == self.wire_str(),
    {
        match self {
            Thing::BoardGame => "boardgame",
            Thing::BoardGameExpansion => "boardgameexpansion",
            Thing::BoardGameAccessory => "boardgameaccessory",
            Thing::VideoGame => "videogame",
            Thing::RpgItem => "rpgitem",
            Thing::RpgIssue => "rpgissue",
        }
    }

    pub fn to_string(&self) -> (r: String)
        ensures
            r@ == self.wire_str(),
    {
        self.as_str().to_owned()
    }

    /// Whether a string is the wire form of some item kind.
    pub open spec fn is_wire(s: Seq<char>) -> bool {
        exists|t: Thing| (#[trigger] t.wire_str()) == s
    }

    /// Parses a wire string, rejecting anything outside the closed set.
    pub fn from_wire(s: &str) -> (r: Result<Thing, InvalidBGGType>)
        ensures
            match r {
                Ok(t) => t.wire_str() == s@,
                Err(e) => !Self::is_wire(s@) && e.invalid_type_view() == s@,
            },
    {
        if str_eq(s, "boardgame") {
            Ok(Thing::BoardGame)
        } else if str_eq(s, "boardgameexpansion") {
            Ok(Thing::BoardGameExpansion)
        } else if str_eq(s, "boardgameaccessory") {
            Ok(Thing::BoardGameAccessory)
        } else if str_eq(s, "videogame") {
            Ok(Thing::VideoGame)
        } else if str_eq(s, "rpgitem") {
            Ok(Thing::RpgItem)
        } else if str_eq(s, "rpgissue") {
            Ok(Thing::RpgIssue)
        } else {
            proof {
                assert forall|t: Thing| (#[trigger] t.wire_str()) != s@ by {
                    match t {
                        Thing::BoardGame => assert(t.wire_str() == "boardgame"@),
                        Thing::BoardGameExpansion => assert(t.wire_str() == "boardgameexpansion"@),
                        Thing::BoardGameAccessory => assert(t.wire_str() == "boardgameaccessory"@),
                        Thing::VideoGame => assert(t.wire_str() == "videogame"@),
                        Thing::RpgItem => assert(t.wire_str() == "rpgitem"@),
                        Thing::RpgIssue => assert(t.wire_str() == "rpgissue"@),
                    }
                }
            }
            Err(InvalidBGGType::new(s, "not a known thing type"))
        }
    }
}

/// The item kinds a `search` call can filter by.
#[derive(Clone, Copy, PartialEq, Eq, Structural, Debug)]
pub enum Search {
    BoardGame,
    BoardGameExpansion,
    BoardGameAccessory,
    VideoGame,
    RpgItem,
}

impl Search {
    /// The wire string of this kind.
    pub open spec fn wire_str(self) -> Seq<char> {
        match self {
            Search::BoardGame => "boardgame"@,
            Search::BoardGameExpansion => "boardgameexpansion"@,
            Search::BoardGameAccessory => "boardgameaccessory"@,
            Search::VideoGame => "videogame"@,
            Search::RpgItem => "rpgitem"@,
        }
    }

    pub fn as_str(&self) -> (r: &'static str)
        ensures
            r@ == self.wire_str(),
    {
        match self {
            Search::BoardGame => "boardgame",
            Search::BoardGameExpansion => "boardgameexpansion",
            Search::BoardGameAccessory => "boardgameaccessory",
            Search::VideoGame => "videogame",
            Search::RpgItem => "rpgitem",
        }
    }

    pub fn to_string(&self) -> (r: String)
        ensures
            r@ == self.wire_str(),
    {
        self.as_str().to_owned()
    }

    /// Whether a string is the wire form of some search kind.
    pub open spec fn is_wire(s: Seq<char>) -> bool {
        exists|t: Search| (#[trigger] t.wire_str()) == s
    }

    /// Parses a wire string, rejecting anything outside the closed set.
    pub fn from_wire(s: &str) -> (r: Result<Search, InvalidBGGType>)
        ensures
            match r {
                Ok(t) => t.wire_str() == s@,
                Err(e) => !Self::is_wire(s@) && e.invalid_type_view() == s@,
            },
    {
        if str_eq(s, "boardgame") {
            Ok(Search::BoardGame)
        } else if str_eq(s, "boardgameexpansion") {
            Ok(Search::BoardGameExpansion)
        } else if str_eq(s, "boardgameaccessory") {
            Ok(Search::BoardGameAccessory)
        } else if str_eq(s, "videogame") {
            Ok(Search::VideoGame)
        } else if str_eq(s, "rpgitem") {
            Ok(Search::RpgItem)
        } else {
            proof {
                assert forall|t: Search| (#[trigger] t.wire_str()) != s@ by {
                    match t {
                        Search::BoardGame => assert(t.wire_str() == "boardgame"@),
                        Search::BoardGameExpansion => assert(t.wire_str() == "boardgameexpansion"@),
                        Search::BoardGameAccessory => assert(t.wire_str() == "boardgameaccessory"@),
                        Search::VideoGame => assert(t.wire_str() == "videogame"@),
                        Search::RpgItem => assert(t.wire_str() == "rpgitem"@),
                    }
                }
            }
            Err(InvalidBGGType::new(s, "not a known search type"))
        }
    }
}

/// The family kinds a raw `family` call accepts.
#[derive(Clone, Copy, PartialEq, Eq, Structural, Debug)]
pub enum Family {
    Rpg,
    RpgPeriodical,
    BoardGameFamily,
}

impl Family {
    /// The wire string of this kind.
    pub open spec fn wire_str(self) -> Seq<char> {
        match self {
            Family::Rpg => "rpg"@,
            Family::RpgPeriodical => "rpgperiodical"@,
            Family::BoardGameFamily => "boardgamefamily"@,
        }
    }

    pub fn as_str(&self) -> (r: &'static str)
        ensures
            r@ == self.wire_str(),
    {
        match self {
            Family::Rpg => "rpg",
            Family::RpgPeriodical => "rpgperiodical",
            Family::BoardGameFamily => "boardgamefamily",
        }
    }

    pub fn to_string(&self) -> (r: String)
        ensures
            r@ == self.wire_str(),
    {
        self.as_str().to_owned()
    }
}

/// Whether an operation addresses a thing or a family.
#[derive(Clone, Copy, PartialEq, Eq, Structural, Debug)]
pub enum ThingFamily {
    Thing,
    Family,
}

impl ThingFamily {
    /// The wire string of this kind.
    pub open spec fn wire_str(self) -> Seq<char> {
        match self {
            ThingFamily::Thing => "thing"@,
            ThingFamily::Family => "family"@,
        }
    }

    pub fn as_str(&self) -> (r: &'static str)
        ensures
            r@ == self.wire_str(),
    {
        match self {
            ThingFamily::Thing => "thing",
            ThingFamily::Family => "family",
        }
    }

    pub fn to_string(&self) -> (r: String)
        ensures
            r@ == self.wire_str(),
    {
        self.as_str().to_owned()
    }
}

/// The rankings the `hot` operation can report.
#[derive(Clone, Copy, PartialEq, Eq, Structural, Debug)]
pub enum Hotness {
    BoardGame,
    Rpg,
    VideoGame,
    BoardGamePerson,
    RpgPerson,
    BoardGameCompany,
    RpgCompany,
    VideoGameCompany,
}

impl Hotness {
    /// The wire string of this kind.
    pub open spec fn wire_str(self) -> Seq<char> {
        match self {
            Hotness::BoardGame => "boardgame"@,
            Hotness::Rpg => "rpg"@,
            Hotness::VideoGame => "videogame"@,
            Hotness::BoardGamePerson => "boardgameperson"@,
            Hotness::RpgPerson => "rpgperson"@,
            Hotness::BoardGameCompany => "boardgamecompany"@,
            Hotness::RpgCompany => "rpgcompany"@,
            Hotness::VideoGameCompany => "videogamecompany"@,
        }
    }

    pub fn as_str(&self) -> (r: &'static str)
        ensures
            r@ == self.wire_str(),
    {
        match self {
            Hotness::BoardGame => "boardgame",
            Hotness::Rpg => "rpg",
            Hotness::VideoGame => "videogame",
            Hotness::BoardGamePerson => "boardgameperson",
            Hotness::RpgPerson => "rpgperson",
            Hotness::BoardGameCompany => "boardgamecompany",
            Hotness::RpgCompany => "rpgcompany",
            Hotness::VideoGameCompany => "videogamecompany",
        }
    }

    pub fn to_string(&self) -> (r: String)
        ensures
            r@ == self.wire_str(),
    {
        self.as_str().to_owned()
    }
}

/// The wire strings of a sequence of search kinds.
pub open spec fn search_wires(ts: Seq<Search>) -> Seq<Seq<char>> {
    ts.map_values(|t: Search| t.wire_str())
}

/// The wire strings of a sequence of thing kinds.
pub open spec fn thing_wires(ts: Seq<Thing>) -> Seq<Seq<char>> {
    ts.map_values(|t: Thing| t.wire_str())
}

/// The wire strings of a sequence of family kinds.
pub open spec fn family_wires(ts: Seq<Family>) -> Seq<Seq<char>> {
    ts.map_values(|t: Family| t.wire_str())
}

/// Comma-joined wire strings of the given search kinds.
pub fn join_search_types(ts: &Vec<Search>) -> (r: String)
    ensures
        r@ == join_char(search_wires(ts@), ','),
{
    let mut parts: Vec<String> = Vec::new();
    let n = ts.len();
    for i in 0..n
        invariant
            n == ts@.len(),
            views_of(parts@) == search_wires(ts@.take(i as int)),
    {
        let s = ts[i].to_string();
        parts.push(s);
        proof {
            assert(views_of(parts@) =~= search_wires(ts@.take(i as int)).push(s@));
            assert(ts@.take(i + 1) =~= ts@.take(i as int).push(ts@[i as int]));
            assert(search_wires(ts@.take(i + 1)) =~= search_wires(ts@.take(i as int)).push(
                ts@[i as int].wire_str(),
            ));
        }
    }
    proof {
        assert(ts@.take(n as int) =~= ts@);
    }
    join_with_comma(&parts)
}

/// Comma-joined wire strings of the given thing kinds.
pub fn join_thing_types(ts: &Vec<Thing>) -> (r: String)
    ensures
        r@ == join_char(thing_wires(ts@), ','),
{
    let mut parts: Vec<String> = Vec::new();
    let n = ts.len();
    for i in 0..n
        invariant
            n == ts@.len(),
            views_of(parts@) == thing_wires(ts@.take(i as int)),
    {
        let s = ts[i].to_string();
        parts.push(s);
        proof {
            assert(views_of(parts@) =~= thing_wires(ts@.take(i as int)).push(s@));
            assert(ts@.take(i + 1) =~= ts@.take(i as int).push(ts@[i as int]));
            assert(thing_wires(ts@.take(i + 1)) =~= thing_wires(ts@.take(i as int)).push(
                ts@[i as int].wire_str(),
            ));
        }
    }
    proof {
        assert(ts@.take(n as int) =~= ts@);
    }
    join_with_comma(&parts)
}

/// Comma-joined wire strings of the given family kinds.
pub fn join_family_types(ts: &Vec<Family>) -> (r: String)
    ensures
        r@ == join_char(family_wires(ts@), ','),
{
    let mut parts: Vec<String> = Vec::new();
    let n = ts.len();
    for i in 0..n
        invariant
            n == ts@.len(),
            views_of(parts@) == family_wires(ts@.take(i as int)),
    {
        let s = ts[i].to_string();
        parts.push(s);
        proof {
            assert(views_of(parts@) =~= family_wires(ts@.take(i as int)).push(s@));
            assert(ts@.take(i + 1) =~= ts@.take(i as int).push(ts@[i as int]));
            assert(family_wires(ts@.take(i + 1)) =~= family_wires(ts@.take(i as int)).push(
                ts@[i as int].wire_str(),
            ));
        }
    }
    proof {
        assert(ts@.take(n as int) =~= ts@);
    }
    join_with_comma(&parts)
}

/// Comma-joined decimal identifiers.
pub fn join_ids(ids: &Vec<usize>) -> (r: String)
    ensures
        r@ == join_char(ids@.map_values(|i: usize| dec_digits(i as nat)), ','),
{
    let parts = ids_to_strings(ids);
    join_with_comma(&parts)
}

/// A client for version 2 of the API: the configured service root and the
/// version's path prefix.
pub struct Client2 {
    pub url_base: String,
    pub api_prefix: String,
}

impl Client2 {
    /// If the base URL or the prefix is not supplied, the defaults are used
    /// (`https://boardgamegeek.com` and `xmlapi2`).  One trailing slash is
    /// stripped from a supplied base; a supplied prefix loses all leading
    /// and trailing slashes.
    pub fn new(url_base: Option<String>, api_prefix: Option<String>) -> (r: Self)
        ensures
            r.url_base@ == match url_base {
                Some(u) => without_trailing_slash(u@),
                None => "https://boardgamegeek.com"@,
            },
            r.api_prefix@ == match api_prefix {
                Some(p) => trim_slashes(p@),
                None => "xmlapi2"@,
            },
    {
        let ub = match url_base {
            Some(u) => strip_one_trailing_slash(u.as_str()),
            None => "https://boardgamegeek.com".to_owned(),
        };
        let prefix = match api_prefix {
            Some(p) => trim_slash_ends(p.as_str()),
            None => "xmlapi2".to_owned(),
        };
        Self { url_base: ub, api_prefix: prefix }
    }

    /// Builds the URL for an operation: no path add-ons in this API
    /// version, and the parameters, if any, are encoded after the `?`.
    pub fn gen_url(&self, path: &str, options: Option<Params>) -> (r: String)
        ensures
            r@ == url_view(self.url_base@, self.api_prefix@, path@, None, opt_view(options)),
    {
        let mut ret = String::new();
        ret.append(self.url_base.as_str());
        push_char(&mut ret, '/');
        ret.append(self.api_prefix.as_str());
        push_char(&mut ret, '/');
        ret.append(path);
        push_char(&mut ret, '?');
        if let Some(opts) = options {
            let qs = params2qs(&opts);
            ret.append(qs.as_str());
            proof {
                assert(ret@ =~= url_view(
                    self.url_base@,
                    self.api_prefix@,
                    path@,
                    None,
                    opt_view(Some(opts)),
                ));
            }
        } else {
            proof {
                assert(qs_of(Seq::<PairView>::empty()) == Seq::<char>::empty());
                assert(ret@ =~= url_view(
                    self.url_base@,
                    self.api_prefix@,
                    path@,
                    None,
                    Seq::<PairView>::empty(),
                ));
            }
        }
        ret
    }

    /// Builds the full URL for an operation after merging the caller's
    /// parameters with the operation's defaults; defaults win.
    pub fn get_full_url(
        &self,
        path: String,
        params: Option<Params>,
        default_params: Option<Params>,
    ) -> (r: String)
        ensures
            r@ == url_view(
                self.url_base@,
                self.api_prefix@,
                path@,
                None,
                merge_spec(opt_view(params), opt_view(default_params)),
            ),
    {
        let mut opts = get_opts(params);
        if let Some(def_params) = default_params {
            opts = merge_params(opts, &def_params);
        } else {
            proof {
                assert(merge_spec(opts@, Seq::<PairView>::empty()) == opts@);
            }
        }
        self.gen_url(path.as_str(), Some(opts))
    }

    /// URL of the `search` operation: the query text and the comma-joined
    /// search kinds are forced into `query` and `type`, overwriting any
    /// caller values for those keys.
    pub fn search_url(&self, query: &str, stypes: &Vec<Search>, options: Option<Params>) -> (r:
        String)
        ensures
            r@ == url_view(
                self.url_base@,
                self.api_prefix@,
                "search"@,
                None,
                insert_pair(
                    insert_pair(opt_view(options), "query"@, query@),
                    "type"@,
                    join_char(search_wires(stypes@), ','),
                ),
            ),
    {
        let types = join_search_types(stypes);
        proof {
            reveal_strlit("query");
            reveal_strlit("type");
            assert("query"@.len() == 5);
            assert("type"@.len() == 4);
            assert("query"@ != "type"@);
            crate::utils::lemma_merge_two(
                opt_view(options),
                ("query"@, query@),
                ("type"@, join_char(search_wires(stypes@), ',')),
            );
        }
        let defaults = two_defaults("query", query.to_owned(), "type", types);
        self.get_full_url("search".to_owned(), options, Some(defaults))
    }

    /// URL of the raw `thing` operation: the identifiers and the item kinds
    /// are forced into `id` and `type`.
    pub fn thing_url(&self, ids: &Vec<usize>, ttypes: &Vec<Thing>, options: Option<Params>) -> (r:
        String)
        ensures
            r@ == url_view(
                self.url_base@,
                self.api_prefix@,
                "thing"@,
                None,
                insert_pair(
                    insert_pair(
                        opt_view(options),
                        "id"@,
                        join_char(ids@.map_values(|i: usize| dec_digits(i as nat)), ','),
                    ),
                    "type"@,
                    join_char(thing_wires(ttypes@), ','),
                ),
            ),
    {
        let sids = join_ids(ids);
        let types = join_thing_types(ttypes);
        proof {
            reveal_strlit("id");
            reveal_strlit("type");
            assert("id"@.len() == 2);
            assert("type"@.len() == 4);
            assert("id"@ != "type"@);
            crate::utils::lemma_merge_two(
                opt_view(options),
                ("id"@, join_char(ids@.map_values(|i: usize| dec_digits(i as nat)), ',')),
                ("type"@, join_char(thing_wires(ttypes@), ',')),
            );
        }
        let defaults = two_defaults("id", sids, "type", types);
        self.get_full_url("thing".to_owned(), options, Some(defaults))
    }

    /// URL of the raw `family` operation: the identifiers and the family
    /// kinds become `id` and `type`; the operation takes no caller
    /// parameters.
    pub fn family_url(&self, ids: &Vec<usize>, ttypes: &Vec<Family>) -> (r: String)
        ensures
            r@ == url_view(
                self.url_base@,
                self.api_prefix@,
                "family"@,
                None,
                insert_pair(
                    insert_pair(
                        Seq::<PairView>::empty(),
                        "id"@,
                        join_char(ids@.map_values(|i: usize| dec_digits(i as nat)), ','),
                    ),
                    "type"@,
                    join_char(family_wires(ttypes@), ','),
                ),
            ),
    {
        let sids = join_ids(ids);
        let types = join_family_types(ttypes);
        proof {
            reveal_strlit("id");
            reveal_strlit("type");
            assert("id"@.len() == 2);
            assert("type"@.len() == 4);
            assert("id"@ != "type"@);
            crate::utils::lemma_merge_two(
                Seq::<PairView>::empty(),
                ("id"@, join_char(ids@.map_values(|i: usize| dec_digits(i as nat)), ',')),
                ("type"@, join_char(family_wires(ttypes@), ',')),
            );
        }
        let defaults = two_defaults("id", sids, "type", types);
        self.get_full_url("family".to_owned(), None, Some(defaults))
    }

    /// URL of the `forumlist` operation: the item identifier and whether it
    /// is a thing or a family.
    pub fn forumlist_url(&self, game_id: usize, ltype: ThingFamily) -> (r: String)
        ensures
            r@ == url_view(
                self.url_base@,
                self.api_prefix@,
                "forumlist"@,
                None,
                insert_pair(
                    insert_pair(Seq::<PairView>::empty(), "id"@, dec_digits(game_id as nat)),
                    "type"@,
                    ltype.wire_str(),
                ),
            ),
    {
        proof {
            reveal_strlit("id");
            reveal_strlit("type");
            assert("id"@.len() == 2);
            assert("type"@.len() == 4);
            assert("id"@ != "type"@);
            crate::utils::lemma_merge_two(
                Seq::<PairView>::empty(),
                ("id"@, dec_digits(game_id as nat)),
                ("type"@, ltype.wire_str()),
            );
        }
        let defaults = two_defaults("id", usize_to_string(game_id), "type", ltype.to_string());
        self.get_full_url("forumlist".to_owned(), None, Some(defaults))
    }

    /// URL of the forum-threads listing for one forum.  The request goes to
    /// the `forumlist` path with the forum identifier as `id`.
    pub fn forum_url(&self, forum_id: usize, options: Option<Params>) -> (r: String)
        ensures
            r@ == url_view(
                self.url_base@,
                self.api_prefix@,
                "forumlist"@,
                None,
                insert_pair(opt_view(options), "id"@, dec_digits(forum_id as nat)),
            ),
    {
        proof {
            crate::utils::lemma_merge_one(
                opt_view(options),
                ("id"@, dec_digits(forum_id as nat)),
            );
        }
        let defaults = one_default("id", usize_to_string(forum_id));
        self.get_full_url("forumlist".to_owned(), options, Some(defaults))
    }

    /// URL of the `thread` operation: the thread identifier becomes `id`.
    pub fn thread_url(&self, thread_id: usize, options: Option<Params>) -> (r: String)
        ensures
            r@ == url_view(
                self.url_base@,
                self.api_prefix@,
                "thread"@,
                None,
                insert_pair(opt_view(options), "id"@, dec_digits(thread_id as nat)),
            ),
    {
        proof {
            crate::utils::lemma_merge_one(
                opt_view(options),
                ("id"@, dec_digits(thread_id as nat)),
            );
        }
        let defaults = one_default("id", usize_to_string(thread_id));
        self.get_full_url("thread".to_owned(), options, Some(defaults))
    }

    /// URL of the `user` operation: the username becomes `name`.
    pub fn user_url(&self, username: &str, options: Option<Params>) -> (r: String)
        ensures
            r@ == url_view(
                self.url_base@,
                self.api_prefix@,
                "user"@,
                None,
                insert_pair(opt_view(options), "name"@, username@),
            ),
    {
        proof {
            crate::utils::lemma_merge_one(opt_view(options), ("name"@, username@));
        }
        let defaults = one_default("name", username.to_owned());
        self.get_full_url("user".to_owned(), options, Some(defaults))
    }

    /// URL of the `guild` operation: the guild identifier becomes `id`.
    pub fn guild_url(&self, guild_id: usize, options: Option<Params>) -> (r: String)
        ensures
            r@ == url_view(
                self.url_base@,
                self.api_prefix@,
                "guild"@,
                None,
                insert_pair(opt_view(options), "id"@, dec_digits(guild_id as nat)),
            ),
    {
        proof {
            crate::utils::lemma_merge_one(
                opt_view(options),
                ("id"@, dec_digits(guild_id as nat)),
            );
        }
        let defaults = one_default("id", usize_to_string(guild_id));
        self.get_full_url("guild".to_owned(), options, Some(defaults))
    }

    /// URL of the `plays` operation.  Exactly one of a username or an item
    /// identifier with its kind must be supplied; anything else is rejected
    /// before a URL is built.
    pub fn plays_url(
        &self,
        username: Option<&str>,
        item_id: Option<usize>,
        ttype: Option<ThingFamily>,
        options: Option<Params>,
    ) -> (r: Result<String, BggError>)
        ensures
            r is Err <==> ((username is None && (item_id is None || ttype is None)) || (
            username is Some && item_id is Some)),
            match r {
                Ok(u) => match (username, item_id, ttype) {
                    (Some(name), None, _) => u@ == url_view(
                        self.url_base@,
                        self.api_prefix@,
                        "plays"@,
                        None,
                        insert_pair(opt_view(options), "username"@, name@),
                    ),
                    (None, Some(id), Some(t)) => u@ == url_view(
                        self.url_base@,
                        self.api_prefix@,
                        "plays"@,
                        None,
                        insert_pair(
                            insert_pair(opt_view(options), "id"@, dec_digits(id as nat)),
                            "type"@,
                            t.wire_str(),
                        ),
                    ),
                    _ => false,
                },
                Err(e) => e matches BggError::InvalidArgument(_),
            },
    {
        if username.is_none() && (item_id.is_none() || ttype.is_none()) {
            return Err(
                BggError::InvalidArgument(
                    InvalidBGGType::new("", "You must supply either a username or item_id + ttype"),
                ),
            );
        }
        if username.is_some() && item_id.is_some() {
            return Err(
                BggError::InvalidArgument(
                    InvalidBGGType::new(
                        "",
                        "You must supply either a username or item_id + ttype, not both",
                    ),
                ),
            );
        }
        let defaults = if let Some(u) = username {
            proof {
                crate::utils::lemma_merge_one(opt_view(options), ("username"@, u@));
            }
            one_default("username", u.to_owned())
        } else {
            let id = item_id.unwrap();
            let t = ttype.unwrap();
            proof {
                reveal_strlit("id");
                reveal_strlit("type");
                assert("id"@.len() == 2);
            assert("type"@.len() == 4);
            assert("id"@ != "type"@);
                crate::utils::lemma_merge_two(
                    opt_view(options),
                    ("id"@, dec_digits(id as nat)),
                    ("type"@, t.wire_str()),
                );
            }
            two_defaults("id", usize_to_string(id), "type", t.to_string())
        };
        Ok(self.get_full_url("plays".to_owned(), options, Some(defaults)))
    }

    /// URL of the `collection` operation: the username becomes `username`.
    pub fn collection_url(&self, username: &str, options: Option<Params>) -> (r: String)
        ensures
            r@ == url_view(
                self.url_base@,
                self.api_prefix@,
                "collection"@,
                None,
                insert_pair(opt_view(options), "username"@, username@),
            ),
    {
        proof {
            crate::utils::lemma_merge_one(opt_view(options), ("username"@, username@));
        }
        let defaults = one_default("username", username.to_owned());
        self.get_full_url("collection".to_owned(), options, Some(defaults))
    }

    /// URL of the `hot` operation: the ranking kind becomes `type`.
    pub fn hot_url(&self, htype: Hotness) -> (r: String)
        ensures
            r@ == url_view(
                self.url_base@,
                self.api_prefix@,
                "hot"@,
                None,
                insert_pair(Seq::<PairView>::empty(), "type"@, htype.wire_str()),
            ),
    {
        proof {
            crate::utils::lemma_merge_one(
                Seq::<PairView>::empty(),
                ("type"@, htype.wire_str()),
            );
        }
        let defaults = one_default("type", htype.to_string());
        self.get_full_url("hot".to_owned(), None, Some(defaults))
    }
}

/// A parameter set holding one forced pair.
fn one_default(k: &str, v: String) -> (r: Params)
    ensures
        r@ == seq![(k@, v@)],
{
    let mut d = Params::new();
    d.insert(k.to_owned(), v);
    proof {
        assert(insert_pair(Seq::<PairView>::empty(), k@, v@) == seq![(k@, v@)]);
    }
    d
}

/// A parameter set holding two forced pairs with distinct keys.
fn two_defaults(k0: &str, v0: String, k1: &str, v1: String) -> (r: Params)
    requires
        k0@ != k1@,
    ensures
        r@ == seq![(k0@, v0@), (k1@, v1@)],
{
    let mut d = Params::new();
    d.insert(k0.to_owned(), v0);
    d.insert(k1.to_owned(), v1);
    proof {
        crate::utils::lemma_two_distinct_pairs((k0@, v0@), (k1@, v1@));
    }
    d
}

} // verus!
