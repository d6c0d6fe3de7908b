//! The `application/x-www-form-urlencoded` form of a list of parameters,
//! written and read by `serde_urlencoded`.

use vstd::prelude::*;
use crate::args::{
    Kwarg, KwargView, Value, ValueView, find_kwarg, first_unknown, kwarg_value, kwargs_of,
    reject_unknown, unknown_kwarg_message,
};
use crate::error::{Failure, TemplateError, invalid_argument, invalid_operation, meets};
use crate::params::{Pair, Param, pairs_of};

verus! {

#[verifier::external_type_specification]
#[verifier::external_body]
pub struct ExEncodeError(serde_urlencoded::ser::Error);

#[verifier::external_type_specification]
#[verifier::external_body]
pub struct ExDecodeError(serde_urlencoded::de::Error);

/// What `serde_urlencoded::to_string` returns for a sequence of pairs of
/// strings: the encoded text, or nothing where it reports an error.
pub uninterp spec fn form_encoded(pairs: Seq<Pair>) -> Option<Seq<char>>;

/// What `serde_urlencoded::from_str` returns for a text when it is asked for
/// a sequence of pairs of strings: the pairs in the order of the text, or
/// nothing where it reports an error.
pub uninterp spec fn form_decoded(text: Seq<char>) -> Option<Seq<Pair>>;

/// Calls `serde_urlencoded::to_string` on the parameters, as a sequence of
/// pairs of strings. The result is the one that `form_encoded` names; for a
/// sequence without pairs the serializer writes nothing and reports no
/// error.
#[verifier::external_body]
pub(crate) fn encode_params(params: &Vec<Param>) -> (r: Result<
    String,
    serde_urlencoded::ser::Error,
>)
    ensures
        match r {
            Ok(text) => form_encoded(pairs_of(params@)) == Some(text@),
            Err(_) => form_encoded(pairs_of(params@)) is None,
        },
        params@.len() == 0 ==> r is Ok && r->Ok_0@.len() == 0,
{
    let pairs: Vec<(&str, &str)> =
        params.iter().map(|p| (p.name.as_str(), p.value.as_str())).collect();
    serde_urlencoded::to_string(pairs)
}

/// Calls `serde_urlencoded::from_str` on the text, asking for a sequence of
/// pairs of strings. The result is the one that `form_decoded` names.
#[verifier::external_body]
pub(crate) fn decode_params(text: &str) -> (r: Result<Vec<Param>, serde_urlencoded::de::Error>)
    ensures
        match r {
            Ok(params) => form_decoded(text@) == Some(pairs_of(params@)),
            Err(_) => form_decoded(text@) is None,
        },
{
    let pairs = serde_urlencoded::from_str::<Vec<(String, String)>>(text)?;
    Ok(pairs.into_iter().map(|(name, value)| Param { name, value }).collect())
}

/// The words of an error of `serde_urlencoded::to_string`, as its `Display`
/// writes them. Nothing is claimed of them.
#[verifier::external_body]
pub(crate) fn encode_error_text(error: &serde_urlencoded::ser::Error) -> String {
    error.to_string()
}

/// The words of an error of `serde_urlencoded::from_str`, as its `Display`
/// writes them. Nothing is claimed of them.
#[verifier::external_body]
pub(crate) fn decode_error_text(error: &serde_urlencoded::de::Error) -> String {
    error.to_string()
}

/// The text given for the keyword `prefix`, where a text is given for it.
pub open spec fn prefix_given(kwargs: Seq<KwargView>) -> Option<Seq<char>> {
    match kwarg_value(kwargs, "prefix"@) {
        Some(ValueView::Text(prefix)) => Some(prefix),
        _ => None,
    }
}

/// The encoded parameters behind the prefix; nothing at all where there are
/// no encoded parameters, so that no bare `?` or `#` is written.
pub open spec fn prefixed(prefix: Seq<char>, encoded: Seq<char>) -> Seq<char> {
    if encoded.len() == 0 {
        Seq::empty()
    } else {
        prefix + encoded
    }
}

/// What the filter gives for these parameters and keyword arguments: the
/// encoded parameters behind the prefix, or the failure of the first step
/// that fails.
pub open spec fn params_text(params: Seq<Pair>, kwargs: Seq<KwargView>) -> Result<
    Seq<char>,
    Failure,
> {
    match form_encoded(params) {
        None => Err(invalid_operation("Could not serialize parameters"@, true)),
        Some(encoded) => match first_unknown(kwargs, "prefix"@, prefix_given(kwargs) is Some) {
            Some(name) => Err(invalid_argument(unknown_kwarg_message(name))),
            None => Ok(
                prefixed(
                    match prefix_given(kwargs) {
                        Some(prefix) => prefix,
                        None => Seq::empty(),
                    },
                    encoded,
                ),
            ),
        },
    }
}

/// Puts the prefix in front of the encoded parameters, unless these are
/// empty.
pub fn with_prefix(prefix: &str, encoded: String) -> (out: String)
    ensures
        out@ == prefixed(prefix@, encoded@),
{
    if encoded.as_str().is_empty() {
        return String::new();
    }
    let mut out = prefix.to_owned();
    out.append(encoded.as_str());
    out
}

/// Writes parameters as a URL-encoded query string, behind the text given
/// by the keyword `prefix`. The prefix is left out where nothing is encoded.
/// A keyword argument other than a text for `prefix` is refused.
pub fn filter_to_params(params: &Vec<Param>, kwargs: &Vec<Kwarg>) -> (r: Result<
    String,
    TemplateError,
>)
    ensures
        meets(r, params_text(pairs_of(params@), kwargs_of(kwargs@))),
        params@.len() == 0 && first_unknown(
            kwargs_of(kwargs@),
            "prefix"@,
            prefix_given(kwargs_of(kwargs@)) is Some,
        ) is None ==> r is Ok && r->Ok_0@.len() == 0,
{
    let encoded = match encode_params(params) {
        Ok(encoded) => encoded,
        Err(e) => {
            return Err(
                TemplateError::invalid_operation_from(
                    "Could not serialize parameters",
                    encode_error_text(&e),
                ),
            );
        },
    };
    let prefix: Option<&String> = match find_kwarg(kwargs, "prefix") {
        Some(Value::Text(prefix)) => Some(prefix),
        _ => None,
    };
    match reject_unknown(kwargs, "prefix", prefix.is_some()) {
        Err(e) => {
            return Err(e);
        },
        Ok(_) => {},
    }
    proof {
        reveal_strlit("");
    }
    match prefix {
        Some(prefix) => Ok(with_prefix(prefix.as_str(), encoded)),
        None => Ok(with_prefix("", encoded)),
    }
}

} // verus!
