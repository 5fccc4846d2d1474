//! Parsing of request targets into a path, a query and a fragment.
//!
//! A target in origin form is split at its first `?`: what stands before it is
//! the path, what follows it, up to a `#`, is the query, and what follows the
//! `#` is the fragment. Without a `?` the fragment is looked for in the path.
//! Path, query keys, query values and fragment are percent-decoded one by one,
//! and an empty path becomes `/`.

use crate::bytes::{
    find_byte, first_index_of, lemma_first_index_absent, lemma_first_index_unique,
};
use crate::params::{from_pairs, inserted, Entries, Parameters};
use crate::percent::{percent_decode, percent_decoded};
use vstd::string::StringSliceAdditionalSpecFns;
use vstd::prelude::*;

verus! {

pub const SLASH: u8 = 0x2f;

pub const QUESTION_MARK: u8 = 0x3f;

pub const NUMBER_SIGN: u8 = 0x23;

pub const AMPERSAND: u8 = 0x26;

pub const EQUALS_SIGN: u8 = 0x3d;

/// The subject of a request: a decoded path, or the wildcard `*`.
pub enum Uri {
    Path(Vec<u8>),
    Asterisk,
}

/// The mathematical model of a `Uri`.
pub enum UriModel {
    Path(Seq<u8>),
    Asterisk,
}

impl View for Uri {
    type V = UriModel;

    open spec fn view(&self) -> UriModel {
        match self {
            Uri::Path(path) => UriModel::Path(path@),
            Uri::Asterisk => UriModel::Asterisk,
        }
    }
}

impl Uri {
    /// The path, unless this is the wildcard.
    pub fn as_path(&self) -> (path: Option<&Vec<u8>>)
        ensures
            match path {
                Some(p) => self@ == UriModel::Path(p@),
                None => self@ == UriModel::Asterisk,
            },
    {
        match self {
            Uri::Path(path) => Some(path),
            Uri::Asterisk => None,
        }
    }

    /// Whether this is the wildcard.
    pub fn is_asterisk(&self) -> (asterisk: bool)
        ensures
            asterisk == (self@ == UriModel::Asterisk),
    {
        match self {
            Uri::Path(_) => false,
            Uri::Asterisk => true,
        }
    }
}

/// A request target in its canonical form.
pub struct ParsedUri {
    /// Host name and port of a target in absolute form. It plays no part in
    /// routing.
    pub host: Option<(String, Option<u16>)>,
    pub uri: Uri,
    pub query: Parameters,
    /// `None` without a `#`; `Some` of an empty byte string where nothing
    /// follows the `#`.
    pub fragment: Option<Vec<u8>>,
}

/// The mathematical model of a `ParsedUri`.
pub struct ParsedUriModel {
    pub host: Option<(Seq<char>, Option<u16>)>,
    pub uri: UriModel,
    pub query: Entries,
    pub fragment: Option<Seq<u8>>,
}

/// The model of an optional host.
pub open spec fn host_model(host: Option<(String, Option<u16>)>) -> Option<(Seq<char>, Option<u16>)> {
    match host {
        Some((name, port)) => Some((name@, port)),
        None => None,
    }
}

/// The model of an optional byte string.
pub open spec fn optional_bytes(bytes: Option<Vec<u8>>) -> Option<Seq<u8>> {
    match bytes {
        Some(b) => Some(b@),
        None => None,
    }
}

impl View for ParsedUri {
    type V = ParsedUriModel;

    open spec fn view(&self) -> ParsedUriModel {
        ParsedUriModel {
            host: host_model(self.host),
            uri: self.uri@,
            query: self.query@,
            fragment: optional_bytes(self.fragment),
        }
    }
}

/// `s` split at its first `#`: what stands before it, and what follows it if
/// there is one.
pub open spec fn split_fragment(s: Seq<u8>) -> (Seq<u8>, Option<Seq<u8>>) {
    match first_index_of(s, NUMBER_SIGN) {
        Some(i) => (s.subrange(0, i), Some(s.subrange(i + 1, s.len() as int))),
        None => (s, None),
    }
}

/// The decoded form of a raw path, with `/` in place of an empty one.
pub open spec fn normalized_path(raw: Seq<u8>) -> Seq<u8> {
    let decoded = percent_decoded(raw);
    if decoded.len() == 0 {
        seq![SLASH]
    } else {
        decoded
    }
}

/// The decoded form of an optional raw fragment.
pub open spec fn decoded_fragment(raw: Option<Seq<u8>>) -> Option<Seq<u8>> {
    match raw {
        Some(f) => Some(percent_decoded(f)),
        None => None,
    }
}

/// The pieces of `s` between the occurrences of `separator`. There is always
/// at least one piece, and pieces may be empty.
pub open spec fn split_on(s: Seq<u8>, separator: u8) -> Seq<Seq<u8>>
    decreases s.len(),
{
    if s.len() == 0 {
        seq![Seq::<u8>::empty()]
    } else {
        let before = split_on(s.drop_last(), separator);
        if s.last() == separator {
            before.push(Seq::<u8>::empty())
        } else {
            before.update(before.len() - 1, before.last().push(s.last()))
        }
    }
}

/// The key and the value that one piece of a query stands for: the piece is
/// split at its first `=`, and both sides are decoded. Without a `=` the whole
/// piece is the key and the value is empty.
pub open spec fn query_pair(piece: Seq<u8>) -> (Seq<u8>, Seq<u8>) {
    match first_index_of(piece, EQUALS_SIGN) {
        Some(i) => (
            percent_decoded(piece.subrange(0, i)),
            percent_decoded(piece.subrange(i + 1, piece.len() as int)),
        ),
        None => (percent_decoded(piece), Seq::<u8>::empty()),
    }
}

/// The pairs of the pieces that are not empty, in their order.
pub open spec fn pairs_of(pieces: Seq<Seq<u8>>) -> Entries
    decreases pieces.len(),
{
    if pieces.len() == 0 {
        Seq::empty()
    } else if pieces.last().len() == 0 {
        pairs_of(pieces.drop_last())
    } else {
        pairs_of(pieces.drop_last()).push(query_pair(pieces.last()))
    }
}

/// The mapping that a raw query string stands for: its pieces between `&`,
/// each read as a key and a value, inserted from left to right.
pub open spec fn parsed_query(s: Seq<u8>) -> Entries {
    from_pairs(pairs_of(split_on(s, AMPERSAND)))
}

/// What a target in origin form is parsed to.
pub open spec fn parsed_path(s: Seq<u8>) -> ParsedUriModel {
    match first_index_of(s, QUESTION_MARK) {
        Some(i) => {
            let (query, fragment) = split_fragment(s.subrange(i + 1, s.len() as int));
            ParsedUriModel {
                host: None,
                uri: UriModel::Path(normalized_path(s.subrange(0, i))),
                query: parsed_query(query),
                fragment: decoded_fragment(fragment),
            }
        },
        None => {
            let (path, fragment) = split_fragment(s);
            ParsedUriModel {
                host: None,
                uri: UriModel::Path(normalized_path(path)),
                query: Seq::empty(),
                fragment: decoded_fragment(fragment),
            }
        },
    }
}

/// What the wildcard target is parsed to.
pub open spec fn parsed_asterisk() -> ParsedUriModel {
    ParsedUriModel { host: None, uri: UriModel::Asterisk, query: Seq::empty(), fragment: None }
}

/// There is always at least one piece.
pub proof fn lemma_split_on_nonempty(s: Seq<u8>, separator: u8)
    ensures
        split_on(s, separator).len() >= 1,
    decreases s.len(),
{
    if s.len() > 0 {
        lemma_split_on_nonempty(s.drop_last(), separator);
    }
}

/// A normalized path is never empty, and it begins with `/` where the raw
/// path is empty or begins with `/`.
pub proof fn lemma_normalized_path(raw: Seq<u8>)
    ensures
        normalized_path(raw).len() >= 1,
        raw.len() == 0 || raw[0] == SLASH ==> normalized_path(raw)[0] == SLASH,
{
    if raw.len() > 0 && raw[0] == SLASH {
        assert(percent_decoded(raw) == seq![raw[0]] + percent_decoded(raw.skip(1)));
    }
}

/// `s` holds no occurrence of `byte`.
pub open spec fn free_of(s: Seq<u8>, byte: u8) -> bool {
    forall|i: int| 0 <= i < s.len() ==> s[i] != byte
}

/// The target in origin form that is written with a raw path, a raw query
/// behind `?` where there is one, and a raw fragment behind `#` where there
/// is one.
pub open spec fn origin_form(
    path: Seq<u8>,
    query: Option<Seq<u8>>,
    fragment: Option<Seq<u8>>,
) -> Seq<u8> {
    path + (match query {
        Some(q) => seq![QUESTION_MARK] + q,
        None => Seq::<u8>::empty(),
    }) + (match fragment {
        Some(f) => seq![NUMBER_SIGN] + f,
        None => Seq::<u8>::empty(),
    })
}

/// A target written with a path, a query and a fragment is parsed to these
/// three, each decoded on its own: the path normalized, the query read piece
/// by piece and empty where the target has none, the fragment absent where
/// the target has none and present, though empty, where nothing follows the
/// `#`. The path must be free of `?` and `#`, the query of `#`, and without a
/// query the fragment of `?`.
pub proof fn lemma_parsed_origin_form(
    path: Seq<u8>,
    query: Option<Seq<u8>>,
    fragment: Option<Seq<u8>>,
)
    requires
        free_of(path, QUESTION_MARK),
        free_of(path, NUMBER_SIGN),
        query matches Some(q) ==> free_of(q, NUMBER_SIGN),
        query is None ==> (fragment matches Some(f) ==> free_of(f, QUESTION_MARK)),
    ensures
        parsed_path(origin_form(path, query, fragment)) == (ParsedUriModel {
            host: None,
            uri: UriModel::Path(normalized_path(path)),
            query: match query {
                Some(q) => parsed_query(q),
                None => Seq::empty(),
            },
            fragment: decoded_fragment(fragment),
        }),
{
    let s = origin_form(path, query, fragment);
    let n = path.len() as int;
    match query {
        Some(q) => {
            assert(s[n] == QUESTION_MARK);
            assert forall|j: int| 0 <= j < n implies s[j] != QUESTION_MARK by {
                assert(s[j] == path[j]);
            }
            lemma_first_index_unique(s, QUESTION_MARK, n);
            assert(s.subrange(0, n) =~= path);
            let rest = s.subrange(n + 1, s.len() as int);
            let m = q.len() as int;
            match fragment {
                Some(f) => {
                    assert(rest =~= q + seq![NUMBER_SIGN] + f);
                    assert(rest[m] == NUMBER_SIGN);
                    assert forall|j: int| 0 <= j < m implies rest[j] != NUMBER_SIGN by {
                        assert(rest[j] == q[j]);
                    }
                    lemma_first_index_unique(rest, NUMBER_SIGN, m);
                    assert(rest.subrange(0, m) =~= q);
                    assert(rest.subrange(m + 1, rest.len() as int) =~= f);
                },
                None => {
                    assert(rest =~= q);
                    lemma_first_index_absent(rest, NUMBER_SIGN);
                },
            }
        },
        None => {
            match fragment {
                Some(f) => {
                    assert(s =~= path + seq![NUMBER_SIGN] + f);
                    assert forall|j: int| 0 <= j < s.len() implies s[j] != QUESTION_MARK by {
                        if j < n {
                            assert(s[j] == path[j]);
                        } else if j > n {
                            assert(s[j] == f[j - n - 1]);
                        }
                    }
                    lemma_first_index_absent(s, QUESTION_MARK);
                    assert(s[n] == NUMBER_SIGN);
                    assert forall|j: int| 0 <= j < n implies s[j] != NUMBER_SIGN by {
                        assert(s[j] == path[j]);
                    }
                    lemma_first_index_unique(s, NUMBER_SIGN, n);
                    assert(s.subrange(0, n) =~= path);
                    assert(s.subrange(n + 1, s.len() as int) =~= f);
                },
                None => {
                    assert(s =~= path);
                    lemma_first_index_absent(s, QUESTION_MARK);
                    lemma_first_index_absent(s, NUMBER_SIGN);
                },
            }
        },
    }
}

/// Splits `path` at its first `#`.
pub fn parse_fragment(path: &[u8]) -> (parts: (&[u8], Option<&[u8]>))
    ensures
        parts.0@ == split_fragment(path@).0,
        match parts.1 {
            Some(fragment) => split_fragment(path@).1 == Some(fragment@),
            None => split_fragment(path@).1 is None,
        },
{
    let end = path.len();
    match find_byte(path, NUMBER_SIGN) {
        Some(index) => (&path[0..index], Some(&path[index + 1..end])),
        None => (path, None),
    }
}

/// Decodes a raw path and puts `/` in place of an empty one.
pub fn normalize_path(raw: &[u8]) -> (path: Vec<u8>)
    ensures
        path@ == normalized_path(raw@),
{
    let mut path = percent_decode(raw);
    if path.len() == 0 {
        path.push(SLASH);
    }
    path
}

/// Decodes a raw fragment, if there is one.
pub fn decode_fragment(raw: Option<&[u8]>) -> (fragment: Option<Vec<u8>>)
    ensures
        optional_bytes(fragment) == decoded_fragment(
            match raw {
                Some(f) => Some(f@),
                None => None,
            },
        ),
{
    match raw {
        Some(f) => Some(percent_decode(f)),
        None => None,
    }
}

/// Reads one piece of a query and inserts its pair; an empty piece is passed
/// over.
fn insert_piece(parameters: &mut Parameters, piece: &[u8])
    ensures
        final(parameters)@ == (if piece@.len() == 0 {
            old(parameters)@
        } else {
            inserted(old(parameters)@, query_pair(piece@).0, query_pair(piece@).1)
        }),
{
    if piece.len() == 0 {
        return ;
    }
    let end = piece.len();
    match find_byte(piece, EQUALS_SIGN) {
        Some(index) => {
            let key = percent_decode(&piece[0..index]);
            let value = percent_decode(&piece[index + 1..end]);
            parameters.insert(key, value);
        },
        None => {
            let key = percent_decode(piece);
            parameters.insert(key, Vec::new());
        },
    }
}

/// Parses a raw query string.
pub fn parse_parameters(source: &[u8]) -> (parameters: Parameters)
    ensures
        parameters@ == parsed_query(source@),
{
    let mut parameters = Parameters::new();
    let mut start: usize = 0;
    let mut i: usize = 0;
    proof {
        assert(source@.take(0) =~= Seq::<u8>::empty());
        assert(split_on(source@.take(0), AMPERSAND) =~= seq![Seq::<u8>::empty()]);
        assert(split_on(source@.take(0), AMPERSAND).last() =~= source@.subrange(0, 0));
        assert(split_on(source@.take(0), AMPERSAND).drop_last() =~= Seq::<Seq<u8>>::empty());
    }
    while i < source.len()
        invariant
            start <= i <= source@.len(),
            split_on(source@.take(i as int), AMPERSAND).len() >= 1,
            split_on(source@.take(i as int), AMPERSAND).last() == source@.subrange(
                start as int,
                i as int,
            ),
            parameters@ == from_pairs(
                pairs_of(split_on(source@.take(i as int), AMPERSAND).drop_last()),
            ),
        decreases source@.len() - i,
    {
        let ghost before = source@.take(i as int);
        let ghost after = source@.take(i + 1);
        let ghost pieces = split_on(before, AMPERSAND);
        proof {
            assert(after.drop_last() =~= before);
            assert(after.last() == source@[i as int]);
            lemma_split_on_nonempty(after, AMPERSAND);
        }
        if source[i] == AMPERSAND {
            insert_piece(&mut parameters, &source[start..i]);
            proof {
                let done = pieces.drop_last();
                assert(split_on(after, AMPERSAND) == pieces.push(Seq::<u8>::empty()));
                assert(split_on(after, AMPERSAND).drop_last() =~= pieces);
                assert(split_on(after, AMPERSAND).last() =~= source@.subrange(i + 1, i + 1));
                if pieces.last().len() > 0 {
                    let pairs = pairs_of(done).push(query_pair(pieces.last()));
                    assert(pairs_of(pieces) == pairs);
                    assert(pairs.drop_last() =~= pairs_of(done));
                    assert(pairs.last() == query_pair(pieces.last()));
                }
            }
            start = i + 1;
        } else {
            proof {
                let grown = pieces.update(
                    pieces.len() - 1,
                    pieces.last().push(source@[i as int]),
                );
                assert(split_on(after, AMPERSAND) == grown);
                assert(grown.drop_last() =~= pieces.drop_last());
                assert(grown.last() =~= source@.subrange(start as int, i + 1));
            }
        }
        i = i + 1;
    }
    proof {
        assert(source@.take(i as int) =~= source@);
    }
    let ghost pieces = split_on(source@, AMPERSAND);
    insert_piece(&mut parameters, &source[start..i]);
    proof {
        if pieces.last().len() > 0 {
            let pairs = pairs_of(pieces.drop_last()).push(query_pair(pieces.last()));
            assert(pairs_of(pieces) == pairs);
            assert(pairs.drop_last() =~= pairs_of(pieces.drop_last()));
            assert(pairs.last() == query_pair(pieces.last()));
        }
    }
    parameters
}

/// Parses a target in origin form, given as bytes.
pub fn parse_path_bytes(path: &[u8]) -> (parsed: ParsedUri)
    ensures
        parsed@ == parsed_path(path@),
{
    let end = path.len();
    match find_byte(path, QUESTION_MARK) {
        Some(index) => {
            let (query, fragment) = parse_fragment(&path[index + 1..end]);
            ParsedUri {
                host: None,
                uri: Uri::Path(normalize_path(&path[0..index])),
                query: parse_parameters(query),
                fragment: decode_fragment(fragment),
            }
        },
        None => {
            let (path, fragment) = parse_fragment(path);
            ParsedUri {
                host: None,
                uri: Uri::Path(normalize_path(path)),
                query: Parameters::new(),
                fragment: decode_fragment(fragment),
            }
        },
    }
}

/// Parses a target in origin form.
pub fn parse_path(path: &str) -> (parsed: ParsedUri)
    ensures
        parsed@ == parsed_path(path.spec_bytes()),
{
    parse_path_bytes(path.as_bytes())
}

/// What the wildcard target is parsed to: no path, no query, no fragment.
pub fn parse_asterisk() -> (parsed: ParsedUri)
    ensures
        parsed@ == parsed_asterisk(),
{
    ParsedUri { host: None, uri: Uri::Asterisk, query: Parameters::new(), fragment: None }
}

} // verus!
