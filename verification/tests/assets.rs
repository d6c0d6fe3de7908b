use template_functions::args::{Kwarg, SafeString, Value};
use template_functions::assets::{
    include_asset, include_asset_next, join_lines, render_tags, AssetEvent, AssetState, AssetStep,
};
use template_functions::error::ErrorKind;

const MANIFEST_MESSAGE: &str = "Invalid assets manifest while calling function `include_asset`";

fn tags(all: &[&str]) -> Vec<String> {
    all.iter().map(|t| t.to_string()).collect()
}

fn includes(all: &[Option<&str>]) -> Vec<Option<String>> {
    all.iter().map(|t| t.map(str::to_owned)).collect()
}

fn awaiting(path: &str, preload: bool) -> AssetState {
    AssetState::AwaitAssets { path: path.to_string(), preload }
}

fn done(text: &str) -> AssetStep {
    AssetStep::Done { tags: SafeString { text: text.to_string() } }
}

#[test]
fn include_asset_asks_for_the_assets() {
    assert_eq!(
        include_asset("src/main.tsx", &Vec::new()),
        Ok(AssetStep::ResolveAssets { state: awaiting("src/main.tsx", false) })
    );
}

#[test]
fn include_asset_reads_preload() {
    let on = vec![Kwarg::new("preload", Value::Bool(true))];
    assert_eq!(
        include_asset("a.css", &on),
        Ok(AssetStep::ResolveAssets { state: awaiting("a.css", true) })
    );
    let off = vec![Kwarg::new("preload", Value::Bool(false))];
    assert_eq!(
        include_asset("a.css", &off),
        Ok(AssetStep::ResolveAssets { state: awaiting("a.css", false) })
    );
}

#[test]
fn include_asset_refuses_other_keywords() {
    let kwargs = vec![Kwarg::new("preload", Value::Bool(true)), Kwarg::new("defer", Value::Bool(true))];
    let err = include_asset("a.css", &kwargs).unwrap_err();
    assert_eq!(err.kind, ErrorKind::InvalidArgument);
    assert_eq!(err.message, "unknown keyword argument 'defer'");
}

#[test]
fn include_asset_refuses_a_preload_that_is_no_boolean() {
    let kwargs = vec![Kwarg::new("preload", Value::Text("yes".to_string()))];
    let err = include_asset("a.css", &kwargs).unwrap_err();
    assert_eq!(err.kind, ErrorKind::InvalidArgument);
    assert_eq!(err.message, "unknown keyword argument 'preload'");
}

#[test]
fn without_preload_only_include_tags_are_written() {
    let step = include_asset_next(
        awaiting("src/main.tsx", false),
        AssetEvent::Assets(Some(includes(&[Some("<script a>"), None, Some("<link b>")]))),
    );
    assert_eq!(step, Ok(done("<script a>\n<link b>")));
}

#[test]
fn with_preload_the_preloads_are_asked_for() {
    let kept = includes(&[Some("<script a>"), None]);
    let step = include_asset_next(awaiting("src/main.tsx", true), AssetEvent::Assets(Some(kept.clone())));
    assert_eq!(
        step,
        Ok(AssetStep::ResolvePreloads {
            path: "src/main.tsx".to_string(),
            state: AssetState::AwaitPreloads { includes: kept },
        })
    );
}

#[test]
fn preload_tags_come_first() {
    let state = AssetState::AwaitPreloads { includes: includes(&[Some("<script a>"), None, Some("<link b>")]) };
    let step = include_asset_next(state, AssetEvent::Preloads(Some(tags(&["<preload x>", "<preload y>"]))));
    assert_eq!(step, Ok(done("<preload x>\n<preload y>\n<script a>\n<link b>")));
}

#[test]
fn an_unknown_path_is_an_invalid_operation() {
    let err = include_asset_next(awaiting("nowhere", false), AssetEvent::Assets(None)).unwrap_err();
    assert_eq!(err.kind, ErrorKind::InvalidOperation);
    assert_eq!(err.message, MANIFEST_MESSAGE);
    assert_eq!(err.cause, None);
}

#[test]
fn a_failed_preload_lookup_is_an_invalid_operation() {
    let state = AssetState::AwaitPreloads { includes: includes(&[Some("<script a>")]) };
    let err = include_asset_next(state, AssetEvent::Preloads(None)).unwrap_err();
    assert_eq!(err.kind, ErrorKind::InvalidOperation);
    assert_eq!(err.message, MANIFEST_MESSAGE);
}

#[test]
fn an_answer_out_of_turn_is_refused() {
    let err = include_asset_next(awaiting("a", true), AssetEvent::Preloads(Some(tags(&["x"])))).unwrap_err();
    assert_eq!(err.kind, ErrorKind::InvalidOperation);
    assert_eq!(err.message, "Unexpected answer to `include_asset`");
    let state = AssetState::AwaitPreloads { includes: Vec::new() };
    let err = include_asset_next(state, AssetEvent::Assets(None)).unwrap_err();
    assert_eq!(err.message, "Unexpected answer to `include_asset`");
}

#[test]
fn tags_are_written_one_to_a_line() {
    assert_eq!(render_tags(&tags(&[]), &includes(&[])), "");
    assert_eq!(render_tags(&tags(&["p"]), &includes(&[])), "p");
    assert_eq!(render_tags(&tags(&[]), &includes(&[None, None])), "");
    assert_eq!(render_tags(&tags(&["p", "q"]), &includes(&[None, Some("i")])), "p\nq\ni");
    assert_eq!(render_tags(&tags(&[""]), &includes(&[Some("")])), "\n");
}

#[test]
fn lines_are_joined_by_line_feeds() {
    assert_eq!(join_lines(&tags(&[])), "");
    assert_eq!(join_lines(&tags(&["a"])), "a");
    assert_eq!(join_lines(&tags(&["a", "b", "c"])), "a\nb\nc");
    assert_eq!(join_lines(&tags(&["a", "b", "c"])), tags(&["a", "b", "c"]).join("\n"));
}

#[test]
fn asset_tags_are_the_same_twice() {
    let first = render_tags(&tags(&["p"]), &includes(&[Some("i")]));
    let second = render_tags(&tags(&["p"]), &includes(&[Some("i")]));
    assert_eq!(first, second);
}
