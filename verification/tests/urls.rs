use template_functions::error::ErrorKind;
use template_functions::params::{merge_params, mapping, Param};
use template_functions::urls::{
    display_form, filter_simplify_url, fits_as_query, function_add_params_to_url, parse_mode,
    ParamsWhere,
};

fn params(pairs: &[(&str, &str)]) -> Vec<Param> {
    pairs.iter().map(|(name, value)| Param::new(name, value)).collect()
}

#[test]
fn simplify_url_leaves_what_is_no_url() {
    assert_eq!(filter_simplify_url("not a url"), "not a url");
    assert_eq!(filter_simplify_url(""), "");
}

#[test]
fn simplify_url_shows_the_domain_of_an_https_url() {
    assert_eq!(filter_simplify_url("https://example.com/path?x=1#f"), "example.com");
    assert_eq!(filter_simplify_url("https://sub.example.com:8443/a/b"), "sub.example.com");
}

#[test]
fn simplify_url_keeps_the_scheme_of_other_urls() {
    assert_eq!(filter_simplify_url("http://example.com/path?x=1"), "http://example.com/path");
    assert_eq!(filter_simplify_url("http://example.com/path#frag"), "http://example.com/path");
    assert_eq!(filter_simplify_url("mailto:someone@example.com?subject=x"), "mailto:someone@example.com");
}

#[test]
fn simplify_url_of_an_https_url_without_a_domain() {
    assert_eq!(filter_simplify_url("https://127.0.0.1/path?x=1#f"), "https://127.0.0.1/path");
    assert_eq!(filter_simplify_url("https://[::1]:8080/?q"), "https://[::1]:8080/");
}

#[test]
fn display_form_by_scheme_and_domain() {
    assert_eq!(display_form("https://a/b".to_string(), "https", Some("a")), "a");
    assert_eq!(display_form("https://1.2.3.4/".to_string(), "https", None), "https://1.2.3.4/");
    assert_eq!(display_form("http://a/b".to_string(), "http", Some("a")), "http://a/b");
    assert_eq!(display_form("ftp://a/".to_string(), "ftp", None), "ftp://a/");
}

#[test]
fn mode_is_fragment_or_query() {
    assert_eq!(parse_mode("fragment"), Some(ParamsWhere::Fragment));
    assert_eq!(parse_mode("query"), Some(ParamsWhere::Query));
    assert_eq!(parse_mode("Query"), None);
    assert_eq!(parse_mode(""), None);
}

#[test]
fn add_params_keeps_existing_values() {
    let out = function_add_params_to_url("https://x/?a=1", "query", &params(&[("a", "2"), ("b", "3")]));
    assert_eq!(out.unwrap(), "https://x/?a=1&b=3");
}

#[test]
fn add_params_to_a_url_without_query() {
    let out = function_add_params_to_url("https://example.com/path", "query", &params(&[("a", "1")]));
    assert_eq!(out.unwrap(), "https://example.com/path?a=1");
}

#[test]
fn add_params_to_the_fragment() {
    let out = function_add_params_to_url(
        "https://example.com/cb?x=1#state=s",
        "fragment",
        &params(&[("code", "abc"), ("state", "other")]),
    );
    assert_eq!(out.unwrap(), "https://example.com/cb?x=1#state=s&code=abc");
}

#[test]
fn add_params_keeps_the_other_part() {
    let out = function_add_params_to_url("https://example.com/?x=1#frag", "query", &params(&[("y", "2")]));
    assert_eq!(out.unwrap(), "https://example.com/?x=1&y=2#frag");
}

#[test]
fn add_params_encodes_values() {
    let out = function_add_params_to_url("https://example.com/", "query", &params(&[("q", "a b&c=é")]));
    assert_eq!(out.unwrap(), "https://example.com/?q=a+b%26c%3D%C3%A9");
}

#[test]
fn add_params_decodes_existing_values() {
    let out = function_add_params_to_url("https://example.com/?q=a+b%26c", "query", &params(&[]));
    assert_eq!(out.unwrap(), "https://example.com/?q=a+b%26c");
}

#[test]
fn add_params_of_nothing_to_nothing() {
    let out = function_add_params_to_url("https://example.com/", "query", &params(&[]));
    assert_eq!(out.unwrap(), "https://example.com/?");
}

#[test]
fn add_params_rejects_a_malformed_url() {
    let err = function_add_params_to_url("not a url", "query", &params(&[("a", "1")])).unwrap_err();
    assert_eq!(err.kind, ErrorKind::InvalidOperation);
    assert_eq!(err.message, "Could not parse `uri`");
    assert!(err.cause.is_some());
}

#[test]
fn add_params_rejects_an_unknown_mode() {
    let err = function_add_params_to_url("https://x/", "path", &params(&[])).unwrap_err();
    assert_eq!(err.kind, ErrorKind::InvalidOperation);
    assert_eq!(err.message, "Invalid `mode` parameter");
    assert_eq!(err.cause, None);
}

#[test]
fn add_params_reports_the_url_before_the_mode() {
    let err = function_add_params_to_url("::", "path", &params(&[])).unwrap_err();
    assert_eq!(err.message, "Could not parse `uri`");
}

#[test]
fn add_params_never_repeats_a_name() {
    let out = function_add_params_to_url(
        "https://x/?a=1&b=2&a=3",
        "query",
        &params(&[("b", "9"), ("c", "4"), ("c", "5")]),
    );
    assert_eq!(out.unwrap(), "https://x/?a=3&b=2&c=5");
}

#[test]
fn add_params_gives_the_same_result_twice() {
    let supplied = params(&[("a", "2"), ("b", "3")]);
    assert_eq!(
        function_add_params_to_url("https://x/?a=1", "query", &supplied),
        function_add_params_to_url("https://x/?a=1", "query", &supplied)
    );
}

#[test]
fn mapping_keeps_the_last_value_at_the_first_place() {
    assert_eq!(
        mapping(&params(&[("a", "1"), ("b", "2"), ("a", "3")])),
        params(&[("a", "3"), ("b", "2")])
    );
    assert_eq!(mapping(&params(&[])), params(&[]));
}

#[test]
fn merge_prefers_existing_values() {
    assert_eq!(
        merge_params(&params(&[("a", "1")]), &params(&[("a", "2"), ("b", "3")])),
        params(&[("a", "1"), ("b", "3")])
    );
    assert_eq!(merge_params(&params(&[]), &params(&[("b", "3")])), params(&[("b", "3")]));
    assert_eq!(merge_params(&params(&[("a", "1")]), &params(&[])), params(&[("a", "1")]));
}

#[test]
fn query_fits_up_to_the_limit() {
    assert!(fits_as_query("https://x/", "a=1"));
    assert!(fits_as_query("", ""));
}
