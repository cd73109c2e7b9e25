use vstd::prelude::*;

verus! {

use crate::decode::{decode_component, decoded_text};
use crate::options::{flag_value, MpvOption, PlaybackRequest};
use crate::query::{lookup, lookup_value, query_pairs, split_query, str_eq};

/// Why a request URL was rejected. Every error is terminal: nothing is
/// retried and no partial request is handed on.
#[derive(Debug, PartialEq, Eq)]
pub enum ParseError {
    /// The input is not a well-formed URL.
    InvalidUrl,
    /// The scheme is not `mpv`; carries the scheme that was found.
    UnsupportedScheme { found: String },
    /// The path is not `/open`; carries the path that was found.
    UnsupportedMethod { found: String },
    /// The `url` query key is absent, or its value is empty after decoding.
    MissingTargetUrl,
    /// The `url` value does not percent-decode to UTF-8 text.
    InvalidEncoding,
}

/// The abstract form of a `ParseError`.
pub enum ParseFailure {
    InvalidUrl,
    UnsupportedScheme(Seq<char>),
    UnsupportedMethod(Seq<char>),
    MissingTargetUrl,
    InvalidEncoding,
}

impl View for ParseError {
    type V = ParseFailure;

    open spec fn view(&self) -> ParseFailure {
        match self {
            ParseError::InvalidUrl => ParseFailure::InvalidUrl,
            ParseError::UnsupportedScheme { found } => ParseFailure::UnsupportedScheme(found@),
            ParseError::UnsupportedMethod { found } => ParseFailure::UnsupportedMethod(found@),
            ParseError::MissingTargetUrl => ParseFailure::MissingTargetUrl,
            ParseError::InvalidEncoding => ParseFailure::InvalidEncoding,
        }
    }
}

/// The raw query string, or nothing when the URL carries no query.
pub open spec fn query_or_empty(q: Option<Seq<char>>) -> Seq<char> {
    match q {
        Some(s) => s,
        None => Seq::empty(),
    }
}

/// A flag is on exactly when the last value under its key is `1`.
pub open spec fn flag_of(pairs: Seq<(Seq<char>, Seq<char>)>, key: Seq<char>) -> bool {
    match lookup(pairs, key) {
        Some(v) => flag_value(v),
        None => false,
    }
}

/// What parsing decides, given the scheme, path and raw query of the request
/// URL: the playback request on success, and the exact error otherwise.
pub open spec fn spec_parse(scheme: Seq<char>, path: Seq<char>, query: Option<Seq<char>>) -> Result<
    PlaybackRequest,
    ParseFailure,
> {
    if scheme != "mpv"@ {
        Err(ParseFailure::UnsupportedScheme(scheme))
    } else if path != "/open"@ {
        Err(ParseFailure::UnsupportedMethod(path))
    } else {
        let pairs = query_pairs(query_or_empty(query));
        match lookup(pairs, "url"@) {
            None => Err(ParseFailure::MissingTargetUrl),
            Some(v) => match decoded_text(v) {
                None => Err(ParseFailure::InvalidEncoding),
                Some(u) => if u.len() == 0 {
                    Err(ParseFailure::MissingTargetUrl)
                } else {
                    Ok(
                        PlaybackRequest {
                            url: u,
                            fullscreen: flag_of(pairs, "full_screen"@),
                            pip: flag_of(pairs, "pip"@),
                            enqueue: flag_of(pairs, "enqueue"@),
                        },
                    )
                },
            },
        }
    }
}

/// A parse result, abstracted field by field.
pub open spec fn result_view(r: Result<MpvOption, ParseError>) -> Result<
    PlaybackRequest,
    ParseFailure,
> {
    match r {
        Ok(o) => Ok(o@),
        Err(e) => Err(e@),
    }
}

/// Reads one boolean flag out of the pairs under the boolean-flag rule;
/// an absent key defaults to false.
fn flag_lookup(pairs: &Vec<(String, String)>, key: &str) -> (r: bool)
    ensures
        r == flag_of(pairs.deep_view(), key@),
{
    match lookup_value(pairs, key) {
        Some(v) => str_eq(v.as_str(), "1"),
        None => false,
    }
}

/// Validates the parts of a request URL and extracts the playback request:
/// the scheme must be `mpv`, the path `/open`, and the query must carry a
/// `url` value that percent-decodes to non-empty UTF-8 text; `full_screen`,
/// `pip` and `enqueue` are read under the boolean-flag rule and default to
/// false when absent.
pub fn parse_parts(scheme: &str, path: &str, query: Option<&str>) -> (r: Result<
    MpvOption,
    ParseError,
>)
    ensures
        result_view(r) == spec_parse(
            scheme@,
            path@,
            match query {
                Some(q) => Some(q@),
                None => None,
            },
        ),
{
    if !str_eq(scheme, "mpv") {
        return Err(ParseError::UnsupportedScheme { found: scheme.to_owned() });
    }
    if !str_eq(path, "/open") {
        return Err(ParseError::UnsupportedMethod { found: path.to_owned() });
    }
    let pairs: Vec<(String, String)> = match query {
        Some(q) => split_query(q),
        None => Vec::new(),
    };
    proof {
        if query is None {
            crate::query::lemma_query_pairs_single(Seq::empty());
            assert(pairs.deep_view() =~= query_pairs(Seq::empty()));
        }
    }
    let url_value: String = match lookup_value(&pairs, "url") {
        Some(v) => v,
        None => {
            return Err(ParseError::MissingTargetUrl);
        },
    };
    let decoded: String = match decode_component(url_value.as_str()) {
        Some(d) => d,
        None => {
            return Err(ParseError::InvalidEncoding);
        },
    };
    if decoded.as_str().is_empty() {
        return Err(ParseError::MissingTargetUrl);
    }
    let fullscreen: bool = flag_lookup(&pairs, "full_screen");
    let pip: bool = flag_lookup(&pairs, "pip");
    let enqueue: bool = flag_lookup(&pairs, "enqueue");
    Ok(MpvOption { url: decoded, fullscreen, pip, enqueue })
}

/// Whether `url::Url::parse` accepts the string as a well-formed absolute
/// URL; the answer depends on the string alone.
pub uninterp spec fn url_accepts(s: Seq<char>) -> bool;

/// The scheme that `url::Url::parse` gives an accepted string, lower-cased
/// and without the `:` delimiter; a function of the string alone.
pub uninterp spec fn url_scheme_of(s: Seq<char>) -> Seq<char>;

/// The path that `url::Url::parse` gives an accepted string, as a
/// percent-encoded string; a function of the string alone.
pub uninterp spec fn url_path_of(s: Seq<char>) -> Seq<char>;

/// The query string that `url::Url::parse` gives an accepted string, without
/// the leading `?` and without any fragment, as a percent-encoded string, or
/// nothing when the URL has no query; a function of the string alone.
pub uninterp spec fn url_query_of(s: Seq<char>) -> Option<Seq<char>>;

/// Relies on `url::Url::parse` and its accessors `scheme`, `path` and
/// `query`: parsing succeeds exactly on well-formed absolute URLs and is
/// deterministic in its input, so the three parts of an accepted string are
/// functions of that string alone.
#[verifier::external_body]
fn url_parts(raw: &str) -> (r: Option<(String, String, Option<String>)>)
    ensures
        r is Some <==> url_accepts(raw@),
        r matches Some(parts) ==> parts.0@ == url_scheme_of(raw@),
        r matches Some(parts) ==> parts.1@ == url_path_of(raw@),
        r matches Some(parts) ==> match parts.2 {
            Some(q) => url_query_of(raw@) == Some(q@),
            None => url_query_of(raw@) is None,
        },
{
    match url::Url::parse(raw) {
        Ok(u) => Some(
            (u.scheme().to_owned(), u.path().to_owned(), u.query().map(|q| q.to_owned())),
        ),
        Err(_) => None,
    }
}

/// Parses a raw request URL into playback options.
///
/// Splitting the raw string into scheme, path and query is delegated to the
/// `url` crate; every rule on those parts is decided by `parse_parts`, so on
/// each accepted input the result is exactly `spec_parse` of the input's
/// parts.
pub fn parse(raw: &str) -> (r: Result<MpvOption, ParseError>)
    ensures
        (r matches Err(e) && e@ == ParseFailure::InvalidUrl) <==> !url_accepts(raw@),
        url_accepts(raw@) ==> result_view(r) == spec_parse(
            url_scheme_of(raw@),
            url_path_of(raw@),
            url_query_of(raw@),
        ),
        r matches Ok(o) ==> o@.url.len() > 0,
{
    let parts: (String, String, Option<String>) = match url_parts(raw) {
        Some(p) => p,
        None => {
            return Err(ParseError::InvalidUrl);
        },
    };
    let query: Option<&str> = match &parts.2 {
        Some(q) => Some(q.as_str()),
        None => None,
    };
    parse_parts(parts.0.as_str(), parts.1.as_str(), query)
}

/// The one query value a boolean input takes on the wire: `1` or `0`.
pub open spec fn flag_char(b: bool) -> Seq<char> {
    if b {
        "1"@
    } else {
        "0"@
    }
}

/// The query component of the wire format
/// `mpv:///open?url=<v>&full_screen=<f>&pip=<p>&enqueue=<e>`.
pub open spec fn wire_query(v: Seq<char>, f: bool, p: bool, e: bool) -> Seq<char> {
    "url"@ + seq!['='] + v + seq!['&'] + "full_screen"@ + seq!['='] + flag_char(f) + seq!['&']
        + "pip"@ + seq!['='] + flag_char(p) + seq!['&'] + "enqueue"@ + seq!['='] + flag_char(e)
}

/// One wire segment `key=value` holds no separator when neither part does.
proof fn lemma_segment_clean(key: Seq<char>, val: Seq<char>)
    requires
        !key.contains('&'),
        !val.contains('&'),
    ensures
        !(key + seq!['='] + val).contains('&'),
{
    let seg = key + seq!['='] + val;
    assert forall|j: int| 0 <= j < seg.len() implies seg[j] != '&' by {
        if j < key.len() {
            assert(seg[j] == key[j]);
        } else if j == key.len() {
            assert(seg[j] == '=');
        } else {
            assert(seg[j] == val[j - key.len() - 1]);
        }
    }
}

/// The characters of the wire-format key and flag literals.
proof fn lemma_wire_literals()
    ensures
        "url"@.len() == 3,
        "full_screen"@.len() == 11,
        "pip"@.len() == 3,
        "enqueue"@.len() == 7,
        "url"@[0] == 'u',
        "pip"@[0] == 'p',
        "1"@ =~= seq!['1'],
        "0"@ =~= seq!['0'],
        !"url"@.contains('&') && !"url"@.contains('='),
        !"full_screen"@.contains('&') && !"full_screen"@.contains('='),
        !"pip"@.contains('&') && !"pip"@.contains('='),
        !"enqueue"@.contains('&') && !"enqueue"@.contains('='),
        !"1"@.contains('&') && !"0"@.contains('&'),
{
    reveal_strlit("url");
    reveal_strlit("full_screen");
    reveal_strlit("pip");
    reveal_strlit("enqueue");
    reveal_strlit("0");
    reveal_strlit("1");
    assert forall|j: int| 0 <= j < "url"@.len() implies "url"@[j] != '&' && "url"@[j] != '=' by {}
    assert forall|j: int|
        0 <= j < "full_screen"@.len() implies "full_screen"@[j] != '&' && "full_screen"@[j]
        != '=' by {}
    assert forall|j: int| 0 <= j < "pip"@.len() implies "pip"@[j] != '&' && "pip"@[j] != '=' by {}
    assert forall|j: int|
        0 <= j < "enqueue"@.len() implies "enqueue"@[j] != '&' && "enqueue"@[j] != '=' by {}
}

/// Round trip: a request URL written in the wire format parses back to
/// exactly the fields it was built from. `v` is the percent-encoded target,
/// so it holds no `&` or `=`, and it must decode to non-empty text.
pub proof fn lemma_wire_round_trip(v: Seq<char>, f: bool, p: bool, e: bool)
    requires
        !v.contains('&'),
        !v.contains('='),
        decoded_text(v) is Some,
        decoded_text(v)->Some_0.len() > 0,
    ensures
        spec_parse("mpv"@, "/open"@, Some(wire_query(v, f, p, e))) == Ok::<
            PlaybackRequest,
            ParseFailure,
        >(
            PlaybackRequest {
                url: decoded_text(v)->Some_0,
                fullscreen: f,
                pip: p,
                enqueue: e,
            },
        ),
{
    lemma_wire_literals();
    let k1 = "url"@;
    let k2 = "full_screen"@;
    let k3 = "pip"@;
    let k4 = "enqueue"@;
    let bf = flag_char(f);
    let bp = flag_char(p);
    let be = flag_char(e);
    assert(!bf.contains('&') && !bp.contains('&') && !be.contains('&'));
    let seg1 = k1 + seq!['='] + v;
    let seg2 = k2 + seq!['='] + bf;
    let seg3 = k3 + seq!['='] + bp;
    let seg4 = k4 + seq!['='] + be;
    let w = wire_query(v, f, p, e);
    assert(w =~= seg1 + seq!['&'] + (seg2 + seq!['&'] + (seg3 + seq!['&'] + seg4)));
    lemma_segment_clean(k1, v);
    lemma_segment_clean(k2, bf);
    lemma_segment_clean(k3, bp);
    lemma_segment_clean(k4, be);
    crate::query::lemma_query_pairs_cons(seg1, seg2 + seq!['&'] + (seg3 + seq!['&'] + seg4));
    crate::query::lemma_query_pairs_cons(seg2, seg3 + seq!['&'] + seg4);
    crate::query::lemma_query_pairs_cons(seg3, seg4);
    crate::query::lemma_query_pairs_single(seg4);
    crate::query::lemma_pair_of_concat(k1, v);
    crate::query::lemma_pair_of_concat(k2, bf);
    crate::query::lemma_pair_of_concat(k3, bp);
    crate::query::lemma_pair_of_concat(k4, be);
    let pairs = query_pairs(w);
    assert(pairs =~= seq![(k1, v), (k2, bf), (k3, bp), (k4, be)]);
    let p3 = pairs.drop_last();
    let p2 = p3.drop_last();
    let p1 = p2.drop_last();
    assert(p3 =~= seq![(k1, v), (k2, bf), (k3, bp)]);
    assert(p2 =~= seq![(k1, v), (k2, bf)]);
    assert(p1 =~= seq![(k1, v)]);
    assert(k1 != k2 && k1 != k4);
    assert(k1 != k3) by {
        assert(k1[0] == 'u' && k3[0] == 'p');
    }
    assert(k2 != k3 && k2 != k4 && k3 != k4);
    assert(lookup(pairs, k4) == Some(be));
    assert(lookup(pairs, k3) == lookup(p3, k3));
    assert(lookup(p3, k3) == Some(bp));
    assert(lookup(pairs, k2) == lookup(p3, k2));
    assert(lookup(p3, k2) == lookup(p2, k2));
    assert(lookup(p2, k2) == Some(bf));
    assert(lookup(pairs, k1) == lookup(p3, k1));
    assert(lookup(p3, k1) == lookup(p2, k1));
    assert(lookup(p2, k1) == lookup(p1, k1));
    assert(lookup(p1, k1) == Some(v));
    assert(flag_value(bf) == f && flag_value(bp) == p && flag_value(be) == e) by {
        assert("0"@ != "1"@) by {
            assert("0"@[0] == '0' && "1"@[0] == '1');
        }
    }
}

} // verus!
