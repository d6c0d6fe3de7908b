//! URLs, parsed and changed by the `url` crate, and the two functions on
//! them: the display form of a link, and the merge of parameters into a
//! URL's query or fragment.

use vstd::prelude::*;
use vstd::utf8::encode_utf8;
use vstd::string::StringSliceAdditionalSpecFns;
use crate::error::{Failure, TemplateError, invalid_operation, meets};
use crate::form::{
    decode_error_text, decode_params, encode_error_text, encode_params, form_decoded,
    form_encoded,
};
use crate::params::{Pair, Param, merge_params, merged, pairs_of};
use crate::text::{optional_text, same_text};

verus! {

#[verifier::external_type_specification]
#[verifier::external_body]
pub struct ExUrl(url::Url);

#[verifier::external_type_specification]
#[verifier::external_body]
pub struct ExParseError(url::ParseError);

/// The serialization that a `url::Url` holds: the text that `Url::as_str`
/// returns and that its `Display` writes.
pub uninterp spec fn url_text(url: url::Url) -> Seq<char>;

/// What `Url::parse` returns for an input: the serialization of the URL, or
/// nothing where it reports an error.
pub uninterp spec fn url_parsed(input: Seq<char>) -> Option<Seq<char>>;

/// What `Url::scheme` returns for the URL with this serialization.
pub uninterp spec fn url_scheme(text: Seq<char>) -> Seq<char>;

/// What `Url::domain` returns for the URL with this serialization.
pub uninterp spec fn url_domain(text: Seq<char>) -> Option<Seq<char>>;

/// What `Url::query` returns for the URL with this serialization.
pub uninterp spec fn url_query(text: Seq<char>) -> Option<Seq<char>>;

/// What `Url::fragment` returns for the URL with this serialization.
pub uninterp spec fn url_fragment(text: Seq<char>) -> Option<Seq<char>>;

/// The serialization after `Url::set_query` with this query, for the URL
/// with this serialization.
pub uninterp spec fn url_with_query(text: Seq<char>, query: Option<Seq<char>>) -> Seq<char>;

/// The serialization after `Url::set_fragment` with this fragment, for the
/// URL with this serialization.
pub uninterp spec fn url_with_fragment(text: Seq<char>, fragment: Option<Seq<char>>) -> Seq<
    char,
>;

/// Calls `Url::parse`. The result is the one that `url_parsed` names.
#[verifier::external_body]
pub(crate) fn parse_url(input: &str) -> (r: Result<url::Url, url::ParseError>)
    ensures
        match r {
            Ok(url) => url_parsed(input@) == Some(url_text(url)),
            Err(_) => url_parsed(input@) is None,
        },
{
    url::Url::parse(input)
}

/// The words of an error of `Url::parse`, as its `Display` writes them.
/// Nothing is claimed of them.
#[verifier::external_body]
pub(crate) fn parse_error_text(error: &url::ParseError) -> String {
    error.to_string()
}

/// Calls `Url::scheme`.
#[verifier::external_body]
pub(crate) fn scheme_of(url: &url::Url) -> (scheme: &str)
    ensures
        scheme@ == url_scheme(url_text(*url)),
{
    url.scheme()
}

/// Calls `Url::domain`.
#[verifier::external_body]
pub(crate) fn domain_of(url: &url::Url) -> (domain: Option<&str>)
    ensures
        optional_text(domain) == url_domain(url_text(*url)),
{
    url.domain()
}

/// Calls `Url::query`.
#[verifier::external_body]
pub(crate) fn query_of(url: &url::Url) -> (query: Option<&str>)
    ensures
        optional_text(query) == url_query(url_text(*url)),
{
    url.query()
}

/// Calls `Url::fragment`.
#[verifier::external_body]
pub(crate) fn fragment_of(url: &url::Url) -> (fragment: Option<&str>)
    ensures
        optional_text(fragment) == url_fragment(url_text(*url)),
{
    url.fragment()
}

/// Calls `Url::set_query`. With a new query the call needs the resulting
/// serialization to fit in `u32::MAX` bytes; each byte of the query takes at
/// most three bytes there.
#[verifier::external_body]
pub(crate) fn set_query(url: &mut url::Url, query: Option<&str>)
    requires
        query matches Some(q) ==> encode_utf8(url_text(*old(url))).len() + 3
            * q.spec_bytes().len() + 1 <= u32::MAX,
    ensures
        url_text(*final(url)) == url_with_query(url_text(*old(url)), optional_text(query)),
{
    url.set_query(query)
}

/// Calls `Url::set_fragment`.
#[verifier::external_body]
pub(crate) fn set_fragment(url: &mut url::Url, fragment: Option<&str>)
    ensures
        url_text(*final(url)) == url_with_fragment(
            url_text(*old(url)),
            optional_text(fragment),
        ),
{
    url.set_fragment(fragment)
}

/// The serialization of the URL, written by the `Display` of `url::Url`.
#[verifier::external_body]
pub(crate) fn serialize_url(url: &url::Url) -> (text: String)
    ensures
        text@ == url_text(*url),
{
    url.to_string()
}

/// How a link is shown: an `https` link by its domain alone, where it has
/// one; any other link in full.
pub open spec fn display_text(text: Seq<char>, scheme: Seq<char>, domain: Option<Seq<char>>) -> Seq<
    char,
> {
    if scheme != "https"@ {
        text
    } else {
        match domain {
            Some(d) => d,
            None => text,
        }
    }
}

/// The display form of `input`: `input` itself where it is no URL, else the
/// display form of the URL without its query and fragment.
pub open spec fn simplified(input: Seq<char>) -> Seq<char> {
    match url_parsed(input) {
        None => input,
        Some(text) => {
            let bare = url_with_fragment(url_with_query(text, None), None);
            display_text(bare, url_scheme(bare), url_domain(bare))
        },
    }
}

/// Chooses how a link is shown, from its serialization, scheme and domain.
pub fn display_form(text: String, scheme: &str, domain: Option<&str>) -> (shown: String)
    ensures
        shown@ == display_text(text@, scheme@, optional_text(domain)),
{
    if !same_text(scheme, "https") {
        return text;
    }
    match domain {
        Some(d) => d.to_owned(),
        None => text,
    }
}

/// Simplifies a URL for display. A value that is no URL comes back
/// unchanged. Otherwise the query and the fragment are dropped, and the
/// result is the domain alone for an `https` URL that has one, the whole
/// remaining URL for any other.
pub fn filter_simplify_url(url: &str) -> (shown: String)
    ensures
        shown@ == simplified(url@),
{
    match parse_url(url) {
        Err(_) => url.to_owned(),
        Ok(mut parsed) => {
            set_query(&mut parsed, None);
            set_fragment(&mut parsed, None);
            let text = serialize_url(&parsed);
            display_form(text, scheme_of(&parsed), domain_of(&parsed))
        },
    }
}

/// The part of a URL that holds the parameters.
#[derive(Clone, Copy, Debug, PartialEq, Eq, Structural)]
pub enum ParamsWhere {
    Fragment,
    Query,
}

/// The part that a `mode` argument names.
pub open spec fn mode_named(mode: Seq<char>) -> Option<ParamsWhere> {
    if mode == "fragment"@ {
        Some(ParamsWhere::Fragment)
    } else if mode == "query"@ {
        Some(ParamsWhere::Query)
    } else {
        None
    }
}

/// The text of the part of the URL that `place` names, where the URL has
/// that part.
pub open spec fn component(text: Seq<char>, place: ParamsWhere) -> Option<Seq<char>> {
    match place {
        ParamsWhere::Fragment => url_fragment(text),
        ParamsWhere::Query => url_query(text),
    }
}

/// The parameters that a part of a URL holds: none where the part is
/// missing, else those that its text decodes to. Nothing where the text
/// does not decode.
pub open spec fn existing_params(part: Option<Seq<char>>) -> Option<Seq<Pair>> {
    match part {
        None => Some(Seq::empty()),
        Some(text) => form_decoded(text),
    }
}

/// A URL of `text` can take `query` as its new query: the `url` crate keeps
/// positions in 32 bits.
pub open spec fn query_fits(text: Seq<char>, query: Seq<char>) -> bool {
    encode_utf8(text).len() + 3 * encode_utf8(query).len() + 1 <= u32::MAX
}

/// The URL of `text` with `encoded` as the part that `place` names.
pub open spec fn with_component(text: Seq<char>, place: ParamsWhere, encoded: Seq<char>) -> Result<
    Seq<char>,
    Failure,
> {
    match place {
        ParamsWhere::Fragment => Ok(url_with_fragment(text, Some(encoded))),
        ParamsWhere::Query => if query_fits(text, encoded) {
            Ok(url_with_query(text, Some(encoded)))
        } else {
            Err(invalid_operation("Resulting `uri` is too long"@, false))
        },
    }
}

/// What adding `supplied` to the part `mode` of `uri` gives: the URL with
/// the merged parameters in that part, or the failure of the first step that
/// fails.
pub open spec fn with_params(uri: Seq<char>, mode: Seq<char>, supplied: Seq<Pair>) -> Result<
    Seq<char>,
    Failure,
> {
    match url_parsed(uri) {
        None => Err(invalid_operation("Could not parse `uri`"@, true)),
        Some(text) => match mode_named(mode) {
            None => Err(invalid_operation("Invalid `mode` parameter"@, false)),
            Some(place) => match existing_params(component(text, place)) {
                None => Err(
                    invalid_operation("Could not parse existing `uri` parameters"@, true),
                ),
                Some(existing) => match form_encoded(merged(existing, supplied)) {
                    None => Err(invalid_operation("Could not serialize back parameters"@, true)),
                    Some(encoded) => with_component(text, place, encoded),
                },
            },
        },
    }
}

/// Reads a `mode` argument: `"fragment"` or `"query"`.
pub fn parse_mode(mode: &str) -> (place: Option<ParamsWhere>)
    ensures
        place == mode_named(mode@),
{
    if same_text(mode, "fragment") {
        Some(ParamsWhere::Fragment)
    } else if same_text(mode, "query") {
        Some(ParamsWhere::Query)
    } else {
        None
    }
}

/// True when a URL of `text` can take `query` as its new query.
pub fn fits_as_query(text: &str, query: &str) -> (fits: bool)
    ensures
        fits == query_fits(text@, query@),
{
    let have = text.as_bytes().len();
    let need = query.as_bytes().len();
    if have > 0xFFFF_FFFE {
        return false;
    }
    need <= (0xFFFF_FFFE - have) / 3
}

/// Adds parameters to the query or the fragment of a URL.
///
/// `mode` is `"fragment"` or `"query"`. The parameters that this part of
/// the URL holds already are merged with `params`; where both have a value
/// for a name the existing one is kept. The part is then replaced by the
/// encoded merge.
pub fn function_add_params_to_url(uri: &str, mode: &str, params: &Vec<Param>) -> (r: Result<
    String,
    TemplateError,
>)
    ensures
        meets(r, with_params(uri@, mode@, pairs_of(params@))),
{
    let mut url = match parse_url(uri) {
        Ok(url) => url,
        Err(e) => {
            return Err(
                TemplateError::invalid_operation_from(
                    "Could not parse `uri`",
                    parse_error_text(&e),
                ),
            );
        },
    };
    let place = match parse_mode(mode) {
        Some(place) => place,
        None => {
            return Err(TemplateError::invalid_operation("Invalid `mode` parameter"));
        },
    };
    let part = match place {
        ParamsWhere::Fragment => fragment_of(&url),
        ParamsWhere::Query => query_of(&url),
    };
    let existing = match part {
        None => Vec::new(),
        Some(text) => match decode_params(text) {
            Ok(existing) => existing,
            Err(e) => {
                return Err(
                    TemplateError::invalid_operation_from(
                        "Could not parse existing `uri` parameters",
                        decode_error_text(&e),
                    ),
                );
            },
        },
    };
    assert(existing_params(component(url_text(url), place)) == Some(pairs_of(existing@))) by {
        if part is None {
            assert(pairs_of(existing@) =~= Seq::<Pair>::empty());
        }
    }
    let all = merge_params(&existing, params);
    let encoded = match encode_params(&all) {
        Ok(encoded) => encoded,
        Err(e) => {
            return Err(
                TemplateError::invalid_operation_from(
                    "Could not serialize back parameters",
                    encode_error_text(&e),
                ),
            );
        },
    };
    match place {
        ParamsWhere::Fragment => {
            set_fragment(&mut url, Some(encoded.as_str()));
        },
        ParamsWhere::Query => {
            let text = serialize_url(&url);
            if !fits_as_query(text.as_str(), encoded.as_str()) {
                return Err(TemplateError::invalid_operation("Resulting `uri` is too long"));
            }
            set_query(&mut url, Some(encoded.as_str()));
        },
    }
    Ok(serialize_url(&url))
}

} // verus!
