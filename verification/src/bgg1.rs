//! Client for version 1 of the remote XML API: holds the configured base
//! URL and path prefix, and builds each operation's request URL from the
//! operation name, optional path add-ons, and merged parameters.
//!
//! The request URL has the shape
//! `{base}/{prefix}/{operation}[/{add-ons joined by comma}]?{query string}`;
//! the `?` is always present, even with no parameters.

use crate::strutil::dec_digits;
use crate::strutil::join_char;
use crate::strutil::join_with_comma;
use crate::strutil::push_char;
use crate::strutil::trim_slash_ends;
use crate::strutil::trim_slashes;
use crate::strutil::strip_one_trailing_slash;
use crate::strutil::usize_to_string;
use crate::strutil::views_of;
use crate::strutil::without_trailing_slash;
use crate::utils::get_opts;
use crate::utils::insert_pair;
use crate::utils::merge_params;
use crate::utils::merge_spec;
use crate::utils::params2qs;
use crate::utils::qs_of;
use crate::utils::PairView;
use crate::utils::Params;
use vstd::prelude::*;
use vstd::string::StrSliceExecFns;
use vstd::string::StringExecFns;

verus! {

/// The URL for one request: base, prefix, operation name, optional path
/// add-ons joined by commas, then `?` and the encoded parameters.  Add-ons
/// reach the path only when the list is present and non-empty; an empty
/// list appends nothing.
pub open spec fn url_view(
    base: Seq<char>,
    prefix: Seq<char>,
    path: Seq<char>,
    addons: Option<Seq<Seq<char>>>,
    params: Seq<PairView>,
) -> Seq<char> {
    base + seq!['/'] + prefix + seq!['/'] + path + (match addons {
        Some(a) => if a.len() > 0 {
            seq!['/'] + join_char(a, ',')
        } else {
            Seq::<char>::empty()
        },
        None => Seq::<char>::empty(),
    }) + seq!['?'] + qs_of(params)
}

/// The parameter sequence of an optional parameter set: empty when absent.
pub open spec fn opt_view(options: Option<Params>) -> Seq<PairView> {
    match options {
        Some(p) => p@,
        None => Seq::<PairView>::empty(),
    }
}

/// Renders identifiers in decimal, for use as path add-ons or parameters.
pub fn ids_to_strings(ids: &Vec<usize>) -> (r: Vec<String>)
    ensures
        views_of(r@) == ids@.map_values(|i: usize| dec_digits(i as nat)),
{
    let mut out: Vec<String> = Vec::new();
    let n = ids.len();
    for i in 0..n
        invariant
            n == ids@.len(),
            views_of(out@) == ids@.take(i as int).map_values(|i: usize| dec_digits(i as nat)),
    {
        let ghost old_out = out@;
        let s = usize_to_string(ids[i]);
        out.push(s);
        proof {
            assert(views_of(out@) =~= views_of(old_out).push(s@));
            assert(ids@.take(i + 1) =~= ids@.take(i as int).push(ids@[i as int]));
            assert(ids@.take(i + 1).map_values(|x: usize| dec_digits(x as nat)) =~= ids@.take(
                i as int,
            ).map_values(|x: usize| dec_digits(x as nat)).push(dec_digits(ids@[i as int] as nat)));
            assert(views_of(out@) =~= ids@.take(i + 1).map_values(
                |x: usize| dec_digits(x as nat),
            ));
        }
    }
    proof {
        assert(ids@.take(n as int) =~= ids@);
    }
    out
}

/// A client for version 1 of the API: the configured service root and the
/// version's path prefix.
pub struct Client1 {
    pub url_base: String,
    pub api_prefix: String,
}

impl Client1 {
    /// If the base URL or the prefix is not supplied, the defaults are used
    /// (`https://boardgamegeek.com` and `xmlapi`).  One trailing slash is
    /// stripped from a supplied base; a supplied prefix loses all leading
    /// and trailing slashes.
    pub fn new(url_base: Option<String>, api_prefix: Option<String>) -> (r: Self)
        ensures
            r.url_base@ == match url_base {
                Some(u) => without_trailing_slash(u@),
                None => "https://boardgamegeek.com"@,
            },
            r.api_prefix@ == match api_prefix {
                Some(p) => trim_slashes(p@),
                None => "xmlapi"@,
            },
    {
        let ub = match url_base {
            Some(u) => strip_one_trailing_slash(u.as_str()),
            None => "https://boardgamegeek.com".to_owned(),
        };
        let prefix = match api_prefix {
            Some(p) => trim_slash_ends(p.as_str()),
            None => "xmlapi".to_owned(),
        };
        Self { url_base: ub, api_prefix: prefix }
    }

    /// Builds the URL for an operation: path add-ons, when present and
    /// non-empty, go before the `?`; the parameters, if any, are encoded
    /// after it.
    pub fn gen_url(&self, path: &str, options: Option<Params>, uri_addons: Option<&Vec<String>>) -> (r:
        String)
        ensures
            r@ == url_view(
                self.url_base@,
                self.api_prefix@,
                path@,
                match uri_addons {
                    Some(a) => Some(views_of(a@)),
                    None => None,
                },
                opt_view(options),
            ),
    {
        let mut ret = String::new();
        ret.append(self.url_base.as_str());
        push_char(&mut ret, '/');
        ret.append(self.api_prefix.as_str());
        push_char(&mut ret, '/');
        ret.append(path);
        if let Some(addons) = uri_addons {
            if addons.len() > 0 {
                push_char(&mut ret, '/');
                let joined = join_with_comma(addons);
                ret.append(joined.as_str());
            }
        }
        push_char(&mut ret, '?');
        if let Some(opts) = options {
            let qs = params2qs(&opts);
            ret.append(qs.as_str());
            proof {
                assert(ret@ =~= url_view(
                    self.url_base@,
                    self.api_prefix@,
                    path@,
                    match uri_addons {
                        Some(a) => Some(views_of(a@)),
                        None => None,
                    },
                    opt_view(Some(opts)),
                ));
            }
        } else {
            proof {
                assert(qs_of(Seq::<PairView>::empty()) == Seq::<char>::empty());
                assert(ret@ =~= url_view(
                    self.url_base@,
                    self.api_prefix@,
                    path@,
                    match uri_addons {
                        Some(a) => Some(views_of(a@)),
                        None => None,
                    },
                    Seq::<PairView>::empty(),
                ));
            }
        }
        ret
    }

    /// Builds the full URL for an operation after merging the caller's
    /// parameters with the operation's defaults; defaults win.
    pub fn get_full_url(
        &self,
        path: String,
        params: Option<Params>,
        default_params: Option<Params>,
        uri_addons: Option<&Vec<String>>,
    ) -> (r: String)
        ensures
            r@ == url_view(
                self.url_base@,
                self.api_prefix@,
                path@,
                match uri_addons {
                    Some(a) => Some(views_of(a@)),
                    None => None,
                },
                merge_spec(opt_view(params), opt_view(default_params)),
            ),
    {
        let mut opts = get_opts(params);
        if let Some(def_params) = default_params {
            opts = merge_params(opts, &def_params);
        } else {
            proof {
                assert(merge_spec(opts@, Seq::<PairView>::empty()) == opts@);
            }
        }
        self.gen_url(path.as_str(), Some(opts), uri_addons)
    }

    /// URL of the `search` operation: the query text is forced into the
    /// `search` parameter, overwriting any caller value for that key.
    pub fn search_url(&self, search: &str, options: Option<Params>) -> (r: String)
        ensures
            r@ == url_view(
                self.url_base@,
                self.api_prefix@,
                "search"@,
                None,
                insert_pair(opt_view(options), "search"@, search@),
            ),
    {
        let mut defaults = Params::new();
        defaults.insert("search".to_owned(), search.to_owned());
        proof {
            assert(defaults@ == insert_pair(Seq::<PairView>::empty(), "search"@, search@));
            assert(defaults@ =~= seq![("search"@, search@)]);
            let c = opt_view(options);
            assert(merge_spec(c, defaults@) == merge_spec(
                insert_pair(c, "search"@, search@),
                defaults@.drop_first(),
            ));
            assert(defaults@.drop_first() =~= Seq::<PairView>::empty());
        }
        self.get_full_url("search".to_owned(), options, Some(defaults), None)
    }

    /// URL of the `boardgame` operation: the identifiers become path
    /// add-ons, joined by commas; an empty list adds nothing to the path.
    pub fn boardgame_url(&self, game_ids: &Vec<usize>, options: Option<Params>) -> (r: String)
        ensures
            r@ == url_view(
                self.url_base@,
                self.api_prefix@,
                "boardgame"@,
                Some(game_ids@.map_values(|i: usize| dec_digits(i as nat))),
                opt_view(options),
            ),
    {
        let ids = ids_to_strings(game_ids);
        proof {
            assert(merge_spec(opt_view(options), Seq::<PairView>::empty()) == opt_view(options));
        }
        self.get_full_url("boardgame".to_owned(), options, None, Some(&ids))
    }

    /// URL of the `collection` operation: the username is a path add-on.
    pub fn collection_url(&self, username: &str, options: Option<Params>) -> (r: String)
        ensures
            r@ == url_view(
                self.url_base@,
                self.api_prefix@,
                "collection"@,
                Some(seq![username@]),
                opt_view(options),
            ),
    {
        let mut addons: Vec<String> = Vec::new();
        addons.push(username.to_owned());
        proof {
            assert(views_of(addons@) =~= seq![username@]);
            assert(merge_spec(opt_view(options), Seq::<PairView>::empty()) == opt_view(options));
        }
        self.get_full_url("collection".to_owned(), options, None, Some(&addons))
    }

    /// URL of the `thread` operation: the thread identifier is a path
    /// add-on.
    pub fn thread_url(&self, thread_id: usize, options: Option<Params>) -> (r: String)
        ensures
            r@ == url_view(
                self.url_base@,
                self.api_prefix@,
                "thread"@,
                Some(seq![dec_digits(thread_id as nat)]),
                opt_view(options),
            ),
    {
        let mut addons: Vec<String> = Vec::new();
        addons.push(usize_to_string(thread_id));
        proof {
            assert(views_of(addons@) =~= seq![dec_digits(thread_id as nat)]);
            assert(merge_spec(opt_view(options), Seq::<PairView>::empty()) == opt_view(options));
        }
        self.get_full_url("thread".to_owned(), options, None, Some(&addons))
    }

    /// URL of the `geeklist` operation.  The request goes to the `thread`
    /// path with the list identifier as a path add-on.
    pub fn geeklist_url(&self, list_id: usize, options: Option<Params>) -> (r: String)
        ensures
            r@ == url_view(
                self.url_base@,
                self.api_prefix@,
                "thread"@,
                Some(seq![dec_digits(list_id as nat)]),
                opt_view(options),
            ),
    {
        self.thread_url(list_id, options)
    }
}

} // verus!
