//! Early variant of the version 1 client.  Unlike the main client, a
//! supplied path prefix only loses one trailing slash — a leading slash is
//! kept — and the default prefix carries its leading slash, so URLs built
//! from the defaults contain a doubled slash after the base.

use crate::bgg1::opt_view;
use crate::bgg1::url_view;
use crate::strutil::push_char;
use crate::strutil::strip_one_trailing_slash;
use crate::strutil::without_trailing_slash;
use crate::utils::get_opts;
use crate::utils::insert_pair;
use crate::utils::params2qs;
use crate::utils::qs_of;
use crate::utils::PairView;
use crate::utils::Params;
use vstd::prelude::*;
use vstd::string::StrSliceExecFns;
use vstd::string::StringExecFns;

verus! {

/// A client holding the configured service root and path prefix.
pub struct Client {
    pub url_base: String,
    pub api_prefix: String,
}

impl Client {
    /// If the base URL or the prefix is not supplied, the defaults are used
    /// (`https://boardgamegeek.com` and `/xmlapi`).  One trailing slash is
    /// stripped from either supplied value; leading slashes are kept.
    pub fn new(url_base: Option<String>, api_prefix: Option<String>) -> (r: Self)
        ensures
            r.url_base@ == match url_base {
                Some(u) => without_trailing_slash(u@),
                None => "https://boardgamegeek.com"@,
            },
            r.api_prefix@ == match api_prefix {
                Some(p) => without_trailing_slash(p@),
                None => "/xmlapi"@,
            },
    {
        let ub = match url_base {
            Some(u) => strip_one_trailing_slash(u.as_str()),
            None => "https://boardgamegeek.com".to_owned(),
        };
        let prefix = match api_prefix {
            Some(p) => strip_one_trailing_slash(p.as_str()),
            None => "/xmlapi".to_owned(),
        };
        Self { url_base: ub, api_prefix: prefix }
    }

    /// Builds the URL for an operation: the parameters, if any, are encoded
    /// after the `?`.
    pub fn gen_url(&self, path: &str, options: Option<Params>) -> (r: String)
        ensures
            r@ == url_view(self.url_base@, self.api_prefix@, path@, None, opt_view(options)),
    {
        let mut ret = String::new();
        ret.append(self.url_base.as_str());
        push_char(&mut ret, '/');
        ret.append(self.api_prefix.as_str());
        push_char(&mut ret, '/');
        ret.append(path);
        push_char(&mut ret, '?');
        if let Some(opts) = options {
            let qs = params2qs(&opts);
            ret.append(qs.as_str());
            proof {
                assert(ret@ =~= url_view(
                    self.url_base@,
                    self.api_prefix@,
                    path@,
                    None,
                    opt_view(Some(opts)),
                ));
            }
        } else {
            proof {
                assert(qs_of(Seq::<PairView>::empty()) == Seq::<char>::empty());
                assert(ret@ =~= url_view(
                    self.url_base@,
                    self.api_prefix@,
                    path@,
                    None,
                    Seq::<PairView>::empty(),
                ));
            }
        }
        ret
    }

    /// URL of the `search` operation: the query text is inserted into the
    /// caller's parameters under `search`, overwriting any caller value.
    pub fn search_url(&self, search: &str, options: Option<Params>) -> (r: String)
        ensures
            r@ == url_view(
                self.url_base@,
                self.api_prefix@,
                "search"@,
                None,
                insert_pair(opt_view(options), "search"@, search@),
            ),
    {
        let ghost ov = opt_view(options);
        let mut opts = get_opts(options);
        opts.insert("search".to_owned(), search.to_owned());
        proof {
            assert(opts@ == insert_pair(ov, "search"@, search@));
        }
        self.gen_url("search", Some(opts))
    }
}

} // verus!
