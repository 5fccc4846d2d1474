//! Targets in absolute form: the parts of a parsed URL, and the canonical
//! form they are brought to.

use crate::params::{from_pairs, pairs_view, Entries, Parameters};
use crate::percent::{
    lemma_decode_around_separator, percent_decode, percent_decode_to, percent_decoded,
};
use crate::uri::{
    free_of, host_model, lemma_parsed_origin_form, optional_bytes, origin_form, pairs_of,
    parsed_path, split_on, ParsedUri, ParsedUriModel, Uri, UriModel, AMPERSAND, NUMBER_SIGN,
    QUESTION_MARK, SLASH,
};
use url::{SchemeData, Url};
use vstd::prelude::*;

verus! {

#[verifier::external_type_specification]
#[verifier::external_body]
pub struct ExUrl(url::Url);

/// What dispatch reads of a URL, as plain values.
pub struct UrlParts {
    /// Host name and port, where the URL's scheme has them.
    pub host: Option<(String, Option<u16>)>,
    /// The path's components, still percent-encoded, where the scheme has a
    /// path.
    pub path: Option<Vec<Vec<u8>>>,
    /// The query's keys and values, already decoded, where the URL has a
    /// query.
    pub query: Option<Vec<(Vec<u8>, Vec<u8>)>>,
    /// The fragment, still percent-encoded, where the URL has one.
    pub fragment: Option<Vec<u8>>,
}

/// The mathematical model of `UrlParts`.
pub struct UrlPartsModel {
    pub host: Option<(Seq<char>, Option<u16>)>,
    pub path: Option<Seq<Seq<u8>>>,
    pub query: Option<Entries>,
    pub fragment: Option<Seq<u8>>,
}

/// The byte strings that a vector of byte vectors stands for.
pub open spec fn components_view(components: Seq<Vec<u8>>) -> Seq<Seq<u8>> {
    Seq::new(components.len(), |i: int| components[i]@)
}

impl View for UrlParts {
    type V = UrlPartsModel;

    open spec fn view(&self) -> UrlPartsModel {
        UrlPartsModel {
            host: host_model(self.host),
            path: match self.path {
                Some(components) => Some(components_view(components@)),
                None => None,
            },
            query: match self.query {
                Some(pairs) => Some(pairs_view(pairs@)),
                None => None,
            },
            fragment: optional_bytes(self.fragment),
        }
    }
}

/// The components, each decoded and each with a `/` in front of it.
pub open spec fn joined_path(components: Seq<Seq<u8>>) -> Seq<u8>
    decreases components.len(),
{
    if components.len() == 0 {
        Seq::<u8>::empty()
    } else {
        joined_path(components.drop_last()) + seq![SLASH] + percent_decoded(components.last())
    }
}

/// The path of a URL: its joined components, or `/` where there is none.
pub open spec fn url_path(components: Option<Seq<Seq<u8>>>) -> Seq<u8> {
    let joined = match components {
        Some(cs) => joined_path(cs),
        None => Seq::<u8>::empty(),
    };
    if joined.len() == 0 {
        seq![SLASH]
    } else {
        joined
    }
}

/// What the parts of a URL are parsed to.
pub open spec fn parsed_url(parts: UrlPartsModel) -> ParsedUriModel {
    ParsedUriModel {
        host: parts.host,
        uri: UriModel::Path(url_path(parts.path)),
        query: match parts.query {
            Some(pairs) => from_pairs(pairs),
            None => Seq::empty(),
        },
        fragment: match parts.fragment {
            Some(f) => Some(percent_decoded(f)),
            None => None,
        },
    }
}

/// A joined path is empty or begins with `/`.
pub proof fn lemma_joined_path_leading_slash(components: Seq<Seq<u8>>)
    ensures
        components.len() == 0 ==> joined_path(components).len() == 0,
        components.len() > 0 ==> joined_path(components).len() > 0 && joined_path(components)[0]
            == SLASH,
    decreases components.len(),
{
    if components.len() > 0 {
        lemma_joined_path_leading_slash(components.drop_last());
    }
}

/// The path of a URL is never empty and always begins with `/`.
pub proof fn lemma_url_path_leading_slash(components: Option<Seq<Seq<u8>>>)
    ensures
        url_path(components).len() > 0,
        url_path(components)[0] == SLASH,
{
    if let Some(cs) = components {
        lemma_joined_path_leading_slash(cs);
    }
}

/// The raw text of a path with these components: each with a `/` in front
/// of it.
pub open spec fn raw_path(components: Seq<Seq<u8>>) -> Seq<u8>
    decreases components.len(),
{
    if components.len() == 0 {
        Seq::<u8>::empty()
    } else {
        raw_path(components.drop_last()) + seq![SLASH] + components.last()
    }
}

/// Decoding the raw text of a path gives its components, each decoded, with
/// their slashes: no escape sequence reaches over a `/`.
pub proof fn lemma_raw_path_decoded(components: Seq<Seq<u8>>)
    ensures
        percent_decoded(raw_path(components)) == joined_path(components),
    decreases components.len(),
{
    if components.len() > 0 {
        lemma_raw_path_decoded(components.drop_last());
        lemma_decode_around_separator(raw_path(components.drop_last()), SLASH, components.last());
    }
}

/// The two forms of a target agree. A URL and a target in origin form that
/// are written with the same path, the same query and the same fragment are
/// parsed to the same path, query and fragment, where the URL's pairs are
/// those that the pieces of the query stand for. The host is all that the URL
/// adds. The path must be free of `?` and `#`, the query of `#`, and without
/// a query the fragment of `?`.
pub proof fn lemma_forms_agree(
    host: Option<(Seq<char>, Option<u16>)>,
    components: Seq<Seq<u8>>,
    query: Option<Seq<u8>>,
    fragment: Option<Seq<u8>>,
)
    requires
        free_of(raw_path(components), QUESTION_MARK),
        free_of(raw_path(components), NUMBER_SIGN),
        query matches Some(q) ==> free_of(q, NUMBER_SIGN),
        query is None ==> (fragment matches Some(f) ==> free_of(f, QUESTION_MARK)),
    ensures
        ({
            let from_url = parsed_url(
                UrlPartsModel {
                    host,
                    path: Some(components),
                    query: match query {
                        Some(q) => Some(pairs_of(split_on(q, AMPERSAND))),
                        None => None,
                    },
                    fragment,
                },
            );
            let from_path = parsed_path(origin_form(raw_path(components), query, fragment));
            &&& from_url.host == host
            &&& from_url.uri == from_path.uri
            &&& from_url.query == from_path.query
            &&& from_url.fragment == from_path.fragment
        }),
{
    lemma_parsed_origin_form(raw_path(components), query, fragment);
    lemma_raw_path_decoded(components);
}

/// The components of the path that `Url::path` gives for a URL.
pub uninterp spec fn url_path_of(url: Url) -> Option<Seq<Seq<u8>>>;

/// The keys and values that `Url::query_pairs` gives for a URL.
pub uninterp spec fn url_query_of(url: Url) -> Option<Entries>;

/// Host and port of a URL, the host as `Host::serialize` writes it.
pub uninterp spec fn url_host_of(url: Url) -> Option<(Seq<char>, Option<u16>)>;

/// The fragment that a URL holds.
pub uninterp spec fn url_fragment_of(url: Url) -> Option<Seq<u8>>;

/// The parts of a URL.
pub open spec fn url_parts(url: Url) -> UrlPartsModel {
    UrlPartsModel {
        host: url_host_of(url),
        path: url_path_of(url),
        query: url_query_of(url),
        fragment: url_fragment_of(url),
    }
}

/// Calls `Url::path`, which gives the path's components, still
/// percent-encoded, for a URL in a relative scheme and `None` for any other.
/// The contract only names the result.
#[verifier::external_body]
fn url_path_components(url: &Url) -> (components: Option<Vec<Vec<u8>>>)
    ensures
        url_path_of(*url) == match components {
            Some(cs) => Some(components_view(cs@)),
            None => None,
        },
{
    url.path().map(|path| path.iter().map(|component| component.clone().into_bytes()).collect())
}

/// Calls `Url::query_pairs`, which gives the decoded keys and values of the
/// query, or `None` for a URL without one. The contract only names the
/// result.
#[verifier::external_body]
fn url_query_pairs(url: &Url) -> (pairs: Option<Vec<(Vec<u8>, Vec<u8>)>>)
    ensures
        url_query_of(*url) == match pairs {
            Some(ps) => Some(pairs_view(ps@)),
            None => None,
        },
{
    url.query_pairs().map(
        |pairs| pairs.into_iter().map(|(key, value)| (key.into_bytes(), value.into_bytes())).collect(),
    )
}

/// Reads host and port of a URL in a relative scheme, the host through
/// `Host::serialize`; a URL in another scheme has none. The contract only
/// names the result.
#[verifier::external_body]
fn url_host(url: &Url) -> (host: Option<(String, Option<u16>)>)
    ensures
        url_host_of(*url) == host_model(host),
{
    match url.scheme_data {
        SchemeData::Relative(ref data) => Some((data.host.serialize(), data.port)),
        SchemeData::NonRelative(_) => None,
    }
}

/// Reads the field `fragment` of a URL, which holds the fragment still
/// percent-encoded. The contract only names the result.
#[verifier::external_body]
fn url_fragment(url: &Url) -> (fragment: Option<Vec<u8>>)
    ensures
        url_fragment_of(*url) == optional_bytes(fragment),
{
    url.fragment.clone().map(String::into_bytes)
}

/// Reads from a URL what dispatch needs of it.
pub fn split_url(url: &Url) -> (parts: UrlParts)
    ensures
        parts@ == url_parts(*url),
{
    UrlParts {
        host: url_host(url),
        path: url_path_components(url),
        query: url_query_pairs(url),
        fragment: url_fragment(url),
    }
}

/// Joins the components of a path, or gives `/` where there is none.
fn join_path(components: &Option<Vec<Vec<u8>>>) -> (path: Vec<u8>)
    ensures
        path@ == url_path(
            match *components {
                Some(cs) => Some(components_view(cs@)),
                None => None,
            },
        ),
{
    let mut path: Vec<u8> = Vec::new();
    match components {
        Some(cs) => {
            let ghost all = components_view(cs@);
            let mut i: usize = 0;
            while i < cs.len()
                invariant
                    i <= cs@.len(),
                    all == components_view(cs@),
                    path@ == joined_path(all.take(i as int)),
                decreases cs@.len() - i,
            {
                proof {
                    let next = all.take(i + 1);
                    assert(next.drop_last() =~= all.take(i as int));
                    assert(next.last() == cs@[i as int]@);
                }
                path.push(SLASH);
                percent_decode_to(cs[i].as_slice(), &mut path);
                i = i + 1;
            }
            proof {
                assert(all.take(i as int) =~= all);
            }
        },
        None => {},
    }
    if path.len() == 0 {
        path.push(SLASH);
    }
    path
}

/// Brings the parts of a URL to the canonical form.
pub fn parse_url_parts(parts: &UrlParts) -> (parsed: ParsedUri)
    ensures
        parsed@ == parsed_url(parts@),
{
    let path = join_path(&parts.path);
    let query = match &parts.query {
        Some(pairs) => Parameters::from_pairs(pairs.as_slice()),
        None => Parameters::new(),
    };
    let host = match &parts.host {
        Some((name, port)) => Some((name.clone(), *port)),
        None => None,
    };
    let fragment = match &parts.fragment {
        Some(f) => Some(percent_decode(f.as_slice())),
        None => None,
    };
    ParsedUri { host, uri: Uri::Path(path), query, fragment }
}

/// Parses a target in absolute form. Whatever the URL holds, the result is a
/// path that begins with `/`.
pub fn parse_url(url: &Url) -> (parsed: ParsedUri)
    ensures
        parsed@ == parsed_url(url_parts(*url)),
        parsed@.uri matches UriModel::Path(path) && path.len() > 0 && path[0] == SLASH,
{
    let parts = split_url(url);
    proof {
        lemma_url_path_leading_slash(parts@.path);
    }
    parse_url_parts(&parts)
}

} // verus!
