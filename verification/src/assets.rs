//! The callable that writes the tags of a bundled asset.
//!
//! The manifest of the build is read by the caller. This module decides what
//! the caller must look up and in which order, and writes the tags: those
//! that preload come first, those that include follow, one tag to a line.

use vstd::prelude::*;
use crate::args::{
    Kwarg, KwargView, SafeString, Value, ValueView, find_kwarg, first_unknown, kwarg_value,
    kwargs_of, reject_unknown, unknown_kwarg_message,
};
use crate::error::{TemplateError, invalid_argument, invalid_operation, same_error};
use crate::filters::texts_of;

verus! {

/// The message for a lookup in the manifest that failed.
pub open spec fn manifest_message() -> Seq<char> {
    "Invalid assets manifest while calling function `include_asset`"@
}

/// The lines joined by line feeds.
pub open spec fn joined(lines: Seq<Seq<char>>) -> Seq<char>
    decreases lines.len(),
{
    if lines.len() == 0 {
        Seq::empty()
    } else if lines.len() == 1 {
        lines[0]
    } else {
        joined(lines.drop_last()) + seq!['\n'] + lines.last()
    }
}

/// The tags that are there, in order: an asset without an include tag gives
/// none.
pub open spec fn present(tags: Seq<Option<Seq<char>>>) -> Seq<Seq<char>>
    decreases tags.len(),
{
    if tags.len() == 0 {
        Seq::empty()
    } else {
        match tags.last() {
            Some(tag) => present(tags.drop_last()).push(tag),
            None => present(tags.drop_last()),
        }
    }
}

/// The include tags of a list of assets, as contracts see them.
pub open spec fn optional_texts_of(tags: Seq<Option<String>>) -> Seq<Option<Seq<char>>> {
    tags.map_values(
        |tag: Option<String>|
            match tag {
                Some(t) => Some(t@),
                None => None,
            },
    )
}

/// The lines of the result: every preload tag, then every include tag that
/// is there.
pub open spec fn tag_lines(preloads: Seq<Seq<char>>, includes: Seq<Option<Seq<char>>>) -> Seq<
    Seq<char>,
> {
    preloads + present(includes)
}

/// The preload tags stand strictly before the include tags: the first lines
/// are the preload tags, and all lines behind them are include tags. Without
/// preload tags every line is an include tag.
pub proof fn law_preloads_first(preloads: Seq<Seq<char>>, includes: Seq<Option<Seq<char>>>)
    ensures
        tag_lines(preloads, includes).len() == preloads.len() + present(includes).len(),
        tag_lines(preloads, includes).subrange(0, preloads.len() as int) == preloads,
        tag_lines(preloads, includes).subrange(
            preloads.len() as int,
            tag_lines(preloads, includes).len() as int,
        ) == present(includes),
        tag_lines(Seq::empty(), includes) == present(includes),
{
    let lines = tag_lines(preloads, includes);
    assert(lines.subrange(0, preloads.len() as int) =~= preloads);
    assert(lines.subrange(preloads.len() as int, lines.len() as int) =~= present(includes));
    assert(tag_lines(Seq::empty(), includes) =~= present(includes));
}

/// Whether preload tags are asked for: only where the keyword `preload` is
/// given as true.
pub open spec fn preload_asked(kwargs: Seq<KwargView>) -> bool {
    kwarg_value(kwargs, "preload"@) == Some(ValueView::Bool(true))
}

/// Whether a boolean is given for the keyword `preload`.
pub open spec fn preload_given(kwargs: Seq<KwargView>) -> bool {
    kwarg_value(kwargs, "preload"@) matches Some(ValueView::Bool(_))
}

/// Where a call of the callable stands.
#[derive(Clone, Debug, PartialEq, Eq)]
pub enum AssetState {
    /// The assets of the path are being looked up.
    AwaitAssets { path: String, preload: bool },
    /// The assets to preload are being looked up; the include tags are known.
    AwaitPreloads { includes: Vec<Option<String>> },
}

/// What the caller has looked up in the manifest.
#[derive(Debug, PartialEq, Eq)]
pub enum AssetEvent {
    /// The include tag of each asset that the path needs, in the order of
    /// the manifest, where the asset has one; or nothing where the lookup
    /// failed.
    Assets(Option<Vec<Option<String>>>),
    /// The preload tag of each asset to preload, in the order of the
    /// manifest; or nothing where the lookup failed.
    Preloads(Option<Vec<String>>),
}

/// What the caller must do next.
#[derive(Clone, Debug, PartialEq, Eq)]
pub enum AssetStep {
    /// Look up the assets that the path needs, and answer with
    /// `AssetEvent::Assets`.
    ResolveAssets { state: AssetState },
    /// Look up the assets to preload for the path, and answer with
    /// `AssetEvent::Preloads`.
    ResolvePreloads { path: String, state: AssetState },
    /// Hand the tags to the engine.
    Done { tags: SafeString },
}

/// Joins lines by line feeds.
pub fn join_lines(lines: &Vec<String>) -> (out: String)
    ensures
        out@ == joined(texts_of(lines@)),
{
    let ghost all = texts_of(lines@);
    let mut out = String::new();
    let mut i: usize = 0;
    assert(all.take(0) =~= Seq::<Seq<char>>::empty());
    proof {
        reveal_strlit("\n");
    }
    while i < lines.len()
        invariant
            i <= lines.len(),
            all == texts_of(lines@),
            out@ == joined(all.take(i as int)),
            "\n"@ == seq!['\n'],
        decreases lines.len() - i,
    {
        proof {
            assert(all.take(i + 1).drop_last() =~= all.take(i as int));
            assert(all.take(i + 1).last() == lines@[i as int]@);
            assert(i == 1 ==> all.take(1)[0] == all.take(i as int).last());
        }
        if i > 0 {
            out.append("\n");
        }
        out.append(lines[i].as_str());
        proof {
            if i == 0 {
                assert(out@ =~= lines@[0]@);
            }
        }
        i += 1;
    }
    assert(all.take(lines.len() as int) =~= all);
    out
}

/// Writes the tags of an asset: the preload tags first, then the include
/// tags that are there, one tag to a line.
pub fn render_tags(preloads: &Vec<String>, includes: &Vec<Option<String>>) -> (out: String)
    ensures
        out@ == joined(tag_lines(texts_of(preloads@), optional_texts_of(includes@))),
{
    let ghost first = texts_of(preloads@);
    let ghost second = optional_texts_of(includes@);
    let mut lines: Vec<String> = Vec::new();
    let mut i: usize = 0;
    while i < preloads.len()
        invariant
            i <= preloads.len(),
            first == texts_of(preloads@),
            texts_of(lines@) =~= first.take(i as int),
        decreases preloads.len() - i,
    {
        let ghost before = texts_of(lines@);
        lines.push(preloads[i].clone());
        assert(texts_of(lines@) =~= before.push(preloads@[i as int]@));
        assert(first.take(i + 1) =~= first.take(i as int).push(first[i as int]));
        i += 1;
    }
    assert(first.take(preloads.len() as int) =~= first);
    let mut j: usize = 0;
    assert(second.take(0) =~= Seq::<Option<Seq<char>>>::empty());
    assert(texts_of(lines@) =~= first + present(second.take(0)));
    while j < includes.len()
        invariant
            j <= includes.len(),
            second == optional_texts_of(includes@),
            texts_of(lines@) == first + present(second.take(j as int)),
        decreases includes.len() - j,
    {
        proof {
            assert(second.take(j + 1).drop_last() =~= second.take(j as int));
            assert(second.take(j + 1).last() == second[j as int]);
        }
        let ghost before = texts_of(lines@);
        match &includes[j] {
            Some(tag) => {
                lines.push(tag.clone());
                assert(texts_of(lines@) =~= before.push(tag@));
                assert(texts_of(lines@) =~= first + present(second.take(j + 1)));
            },
            None => {},
        }
        j += 1;
    }
    assert(second.take(includes.len() as int) =~= second);
    join_lines(&lines)
}

/// Begins a call of the callable: reads the keyword `preload`, which is
/// false where it is not given, refuses any other keyword argument and any
/// `preload` that is no boolean, and asks for the assets of `path`.
pub fn include_asset(path: &str, kwargs: &Vec<Kwarg>) -> (r: Result<AssetStep, TemplateError>)
    ensures
        match r {
            Ok(step) => {
                &&& first_unknown(kwargs_of(kwargs@), "preload"@, preload_given(kwargs_of(kwargs@)))
                    is None
                &&& step matches AssetStep::ResolveAssets {
                    state: AssetState::AwaitAssets { path: asked, preload },
                }
                &&& asked@ == path@
                &&& preload == preload_asked(kwargs_of(kwargs@))
            },
            Err(e) => first_unknown(
                kwargs_of(kwargs@),
                "preload"@,
                preload_given(kwargs_of(kwargs@)),
            ) matches Some(name) && e.reports(invalid_argument(unknown_kwarg_message(name))),
        },
{
    let given: Option<bool> = match find_kwarg(kwargs, "preload") {
        Some(Value::Bool(flag)) => Some(*flag),
        _ => None,
    };
    match reject_unknown(kwargs, "preload", given.is_some()) {
        Err(e) => {
            return Err(e);
        },
        Ok(_) => {},
    }
    let preload = match given {
        Some(flag) => flag,
        None => false,
    };
    Ok(
        AssetStep::ResolveAssets {
            state: AssetState::AwaitAssets { path: path.to_owned(), preload },
        },
    )
}

/// What follows from a state and what the caller has looked up: the next
/// lookup, the tags, or the failure.
pub open spec fn asset_outcome(state: AssetState, event: AssetEvent, r: Result<
    AssetStep,
    TemplateError,
>) -> bool {
    match (state, event) {
        (AssetState::AwaitAssets { path, preload }, AssetEvent::Assets(Some(includes))) => {
            if preload {
                r matches Ok(
                    AssetStep::ResolvePreloads {
                        path: asked,
                        state: AssetState::AwaitPreloads { includes: kept },
                    },
                ) && asked@ == path@ && optional_texts_of(kept@) == optional_texts_of(includes@)
            } else {
                r matches Ok(AssetStep::Done { tags }) && tags.text@ == joined(
                    tag_lines(Seq::empty(), optional_texts_of(includes@)),
                )
            }
        },
        (AssetState::AwaitPreloads { includes }, AssetEvent::Preloads(Some(preloads))) => {
            r matches Ok(AssetStep::Done { tags }) && tags.text@ == joined(
                tag_lines(texts_of(preloads@), optional_texts_of(includes@)),
            )
        },
        (AssetState::AwaitAssets { .. }, AssetEvent::Assets(None)) => {
            r matches Err(e) && e.reports(invalid_operation(manifest_message(), false))
        },
        (AssetState::AwaitPreloads { .. }, AssetEvent::Preloads(None)) => {
            r matches Err(e) && e.reports(invalid_operation(manifest_message(), false))
        },
        _ => r matches Err(e) && e.reports(
            invalid_operation("Unexpected answer to `include_asset`"@, false),
        ),
    }
}

/// Goes on with a call after the caller has looked something up.
///
/// A lookup that failed ends the call with an invalid operation. After the
/// assets, the assets to preload are asked for where `preload` was true;
/// else the tags are written, without preload tags. After the assets to
/// preload, the tags are written.
pub fn include_asset_next(state: AssetState, event: AssetEvent) -> (r: Result<
    AssetStep,
    TemplateError,
>)
    ensures
        asset_outcome(state, event, r),
{
    match (state, event) {
        (AssetState::AwaitAssets { path, preload }, AssetEvent::Assets(Some(includes))) => {
            if preload {
                Ok(AssetStep::ResolvePreloads { path, state: AssetState::AwaitPreloads { includes } })
            } else {
                let none: Vec<String> = Vec::new();
                assert(texts_of(none@) =~= Seq::<Seq<char>>::empty());
                Ok(AssetStep::Done { tags: SafeString { text: render_tags(&none, &includes) } })
            }
        },
        (AssetState::AwaitPreloads { includes }, AssetEvent::Preloads(Some(preloads))) => {
            Ok(AssetStep::Done { tags: SafeString { text: render_tags(&preloads, &includes) } })
        },
        (AssetState::AwaitAssets { .. }, AssetEvent::Assets(None)) => Err(
            TemplateError::invalid_operation(
                "Invalid assets manifest while calling function `include_asset`",
            ),
        ),
        (AssetState::AwaitPreloads { .. }, AssetEvent::Preloads(None)) => Err(
            TemplateError::invalid_operation(
                "Invalid assets manifest while calling function `include_asset`",
            ),
        ),
        _ => Err(TemplateError::invalid_operation("Unexpected answer to `include_asset`")),
    }
}

/// Two states that hold the same.
pub open spec fn same_asset_state(first: AssetState, second: AssetState) -> bool {
    match (first, second) {
        (
            AssetState::AwaitAssets { path: a, preload: p },
            AssetState::AwaitAssets { path: b, preload: q },
        ) => a@ == b@ && p == q,
        (AssetState::AwaitPreloads { includes: a }, AssetState::AwaitPreloads { includes: b }) => {
            optional_texts_of(a@) == optional_texts_of(b@)
        },
        _ => false,
    }
}

/// Two steps that ask for the same, or hand back the same tags.
pub open spec fn same_asset_step(first: AssetStep, second: AssetStep) -> bool {
    match (first, second) {
        (AssetStep::ResolveAssets { state: a }, AssetStep::ResolveAssets { state: b }) => {
            same_asset_state(a, b)
        },
        (
            AssetStep::ResolvePreloads { path: p, state: a },
            AssetStep::ResolvePreloads { path: q, state: b },
        ) => p@ == q@ && same_asset_state(a, b),
        (AssetStep::Done { tags: a }, AssetStep::Done { tags: b }) => a.text@ == b.text@,
        _ => false,
    }
}

/// Going on twice from the same state with the same answer gives the same
/// step or the same error.
pub proof fn law_asset_step_same_twice(
    state: AssetState,
    event: AssetEvent,
    first: Result<AssetStep, TemplateError>,
    second: Result<AssetStep, TemplateError>,
)
    requires
        asset_outcome(state, event, first),
        asset_outcome(state, event, second),
    ensures
        match (first, second) {
            (Ok(a), Ok(b)) => same_asset_step(a, b),
            (Err(a), Err(b)) => same_error(a, b),
            _ => false,
        },
{
}

} // verus!
