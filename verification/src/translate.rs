//! The callable that translates a message.
//!
//! The catalog of translations is read by the caller. This module decides
//! what the caller must do and in which order: parse the locale of the render
//! context, look the message up, by its plural form where a count is given,
//! convert the named arguments, and format the message.

use vstd::prelude::*;
use crate::args::{Kwarg, KwargView, SafeString, Value, ValueView, find_kwarg, kwarg_value, kwargs_of};
use crate::error::{ErrorKind, TemplateError, invalid_operation, same_error};
use crate::filters::texts_of;
use crate::text::same_text;

verus! {

/// What is asked of the catalog.
#[derive(Clone, Debug, PartialEq, Eq)]
pub enum Lookup {
    /// The message of a key.
    Message { key: String },
    /// The form of the message of a key that fits a count.
    Plural { key: String, count: u64 },
}

/// Where a call of the callable stands.
#[derive(Clone, Debug, PartialEq, Eq)]
pub enum TranslateState {
    /// The locale is being parsed.
    AwaitLocale,
    /// The locale is known; the arguments of the call are being read.
    AwaitCall,
    /// The message is being looked up.
    AwaitMessage { arguments: Vec<String> },
    /// The named arguments are being converted.
    AwaitArguments,
    /// The message is being formatted.
    AwaitText,
}

/// What the caller has done.
#[derive(Debug, PartialEq, Eq)]
pub enum TranslateEvent {
    /// The locale was parsed, or not: then `error` holds the parser's words.
    Locale { error: Option<String> },
    /// The key and the keyword arguments of the call.
    Call { key: String, kwargs: Vec<Kwarg> },
    /// The catalog has the message in some locale of the fallback chain, or
    /// in none.
    Message { found: bool },
    /// The named arguments were converted, or not: then `error` holds the
    /// converter's words.
    Arguments { error: Option<String> },
    /// The formatted message, or the formatter's words where it failed.
    Text(Result<String, String>),
}

/// What the caller must do next.
#[derive(Clone, Debug, PartialEq, Eq)]
pub enum TranslateStep {
    /// Parse `lang` as a locale, and answer with `TranslateEvent::Locale`.
    ParseLocale { lang: String, state: TranslateState },
    /// Read the key and the keyword arguments of the call, and answer with
    /// `TranslateEvent::Call`.
    ReadCall { state: TranslateState },
    /// Ask the catalog, along the fallback chain of the locale, and answer
    /// with `TranslateEvent::Message`.
    Find { request: Lookup, state: TranslateState },
    /// Convert the keyword arguments of these names, in this order, to
    /// arguments of the message, and answer with `TranslateEvent::Arguments`.
    ConvertArguments { names: Vec<String>, state: TranslateState },
    /// Format the message with the arguments, and answer with
    /// `TranslateEvent::Text`.
    Format { state: TranslateState },
    /// Hand the text to the engine.
    Done { text: SafeString },
}

/// The count that the keyword arguments give: none where `count` is absent
/// or `none`, the number where it is an integer that is not negative.
/// Anything else is no count: the outer `None`.
pub open spec fn count_given(kwargs: Seq<KwargView>) -> Option<Option<int>> {
    match kwarg_value(kwargs, "count"@) {
        None => Some(None),
        Some(ValueView::Null) => Some(None),
        Some(ValueView::Integer(n)) => if n >= 0 {
            Some(Some(n))
        } else {
            None
        },
        Some(_) => None,
    }
}

/// The names of the arguments of the message: those of the keyword
/// arguments but `count`, in their order.
pub open spec fn argument_names(kwargs: Seq<KwargView>) -> Seq<Seq<char>>
    decreases kwargs.len(),
{
    if kwargs.len() == 0 {
        Seq::empty()
    } else if kwargs.last().0 == "count"@ {
        argument_names(kwargs.drop_last())
    } else {
        argument_names(kwargs.drop_last()).push(kwargs.last().0)
    }
}

/// What the first step of a call is, given the value of `lang` in the
/// render context.
pub open spec fn locale_outcome(lang: Option<ValueView>, r: Result<
    TranslateStep,
    TemplateError,
>) -> bool {
    match lang {
        None => r matches Err(e) && e.is(ErrorKind::UndefinedError, "`lang` is not set"@, false),
        Some(ValueView::Text(text)) => r matches Ok(
            TranslateStep::ParseLocale { lang: asked, state: TranslateState::AwaitLocale },
        ) && asked@ == text,
        Some(_) => r matches Err(e) && e.reports(
            invalid_operation("`lang` is not a string"@, false),
        ),
    }
}

/// What follows from a state and what the caller has done: the next thing
/// to do, the text, or the failure.
pub open spec fn translate_outcome(state: TranslateState, event: TranslateEvent, r: Result<
    TranslateStep,
    TemplateError,
>) -> bool {
    match (state, event) {
        (TranslateState::AwaitLocale, TranslateEvent::Locale { error: None }) => {
            r == Ok::<TranslateStep, TemplateError>(
                TranslateStep::ReadCall { state: TranslateState::AwaitCall },
            )
        },
        (TranslateState::AwaitLocale, TranslateEvent::Locale { error: Some(words) }) => {
            r matches Err(e) && e.reports(invalid_operation("Could not parse `lang`"@, true))
                && e.cause == Some(words)
        },
        (TranslateState::AwaitCall, TranslateEvent::Call { key, kwargs }) => {
            match count_given(kwargs_of(kwargs@)) {
                None => r matches Err(e) && e.reports(
                    invalid_operation("`count` is not a number"@, false),
                ),
                Some(None) => r matches Ok(
                    TranslateStep::Find {
                        request: Lookup::Message { key: asked },
                        state: TranslateState::AwaitMessage { arguments },
                    },
                ) && asked@ == key@ && texts_of(arguments@) == argument_names(kwargs_of(kwargs@)),
                Some(Some(n)) => r matches Ok(
                    TranslateStep::Find {
                        request: Lookup::Plural { key: asked, count },
                        state: TranslateState::AwaitMessage { arguments },
                    },
                ) && asked@ == key@ && count == n && texts_of(arguments@) == argument_names(
                    kwargs_of(kwargs@),
                ),
            }
        },
        (TranslateState::AwaitMessage { arguments }, TranslateEvent::Message { found }) => {
            if found {
                r matches Ok(
                    TranslateStep::ConvertArguments {
                        names,
                        state: TranslateState::AwaitArguments,
                    },
                ) && texts_of(names@) == texts_of(arguments@)
            } else {
                r matches Err(e) && e.reports(invalid_operation("Missing translation"@, false))
            }
        },
        (TranslateState::AwaitArguments, TranslateEvent::Arguments { error: None }) => {
            r == Ok::<TranslateStep, TemplateError>(
                TranslateStep::Format { state: TranslateState::AwaitText },
            )
        },
        (TranslateState::AwaitArguments, TranslateEvent::Arguments { error: Some(words) }) => {
            r matches Err(e) && e.reports(
                invalid_operation("Could not serialize argument"@, true),
            ) && e.cause == Some(words)
        },
        (TranslateState::AwaitText, TranslateEvent::Text(Ok(text))) => {
            r == Ok::<TranslateStep, TemplateError>(
                TranslateStep::Done { text: SafeString { text } },
            )
        },
        (TranslateState::AwaitText, TranslateEvent::Text(Err(words))) => {
            r matches Err(e) && e.reports(invalid_operation("Could not format message"@, true))
                && e.cause == Some(words)
        },
        _ => r matches Err(e) && e.reports(
            invalid_operation("Unexpected answer to the translation"@, false),
        ),
    }
}

/// The names of the arguments of the message: those of the keyword
/// arguments but `count`, in their order.
pub fn names_of_arguments(kwargs: &Vec<Kwarg>) -> (names: Vec<String>)
    ensures
        texts_of(names@) == argument_names(kwargs_of(kwargs@)),
{
    let ghost all = kwargs_of(kwargs@);
    let mut names: Vec<String> = Vec::new();
    let mut i: usize = 0;
    assert(all.take(0) =~= Seq::<KwargView>::empty());
    assert(texts_of(names@) =~= argument_names(all.take(0)));
    while i < kwargs.len()
        invariant
            i <= kwargs.len(),
            all == kwargs_of(kwargs@),
            texts_of(names@) == argument_names(all.take(i as int)),
        decreases kwargs.len() - i,
    {
        proof {
            assert(all.take(i + 1).drop_last() =~= all.take(i as int));
            assert(all.take(i + 1).last() == kwargs@[i as int]@);
        }
        if !same_text(kwargs[i].name.as_str(), "count") {
            let ghost before = texts_of(names@);
            names.push(kwargs[i].name.clone());
            assert(texts_of(names@) =~= before.push(kwargs@[i as int].name@));
        }
        i += 1;
    }
    assert(all.take(kwargs.len() as int) =~= all);
    names
}

/// Begins a call of the callable with the value that the render context
/// holds for `lang`. Without a value the call fails as undefined; a value
/// that is no string is an invalid operation; a string is to be parsed as a
/// locale.
pub fn translate(lang: Option<&Value>) -> (r: Result<TranslateStep, TemplateError>)
    ensures
        locale_outcome(
            match lang {
                Some(value) => Some(value@),
                None => None,
            },
            r,
        ),
{
    match lang {
        None => Err(TemplateError::new(ErrorKind::UndefinedError, "`lang` is not set")),
        Some(Value::Text(text)) => Ok(
            TranslateStep::ParseLocale { lang: text.clone(), state: TranslateState::AwaitLocale },
        ),
        Some(_) => Err(TemplateError::invalid_operation("`lang` is not a string")),
    }
}

/// Goes on with a call after the caller has done what the last step asked.
///
/// A locale that does not parse, a message that no locale of the fallback
/// chain has, an argument that does not convert and a message that does not
/// format each end the call with an invalid operation. With a count among
/// the keyword arguments the plural form for that count is asked for, else
/// the message itself. The formatted text is handed on as it is, without
/// escaping.
pub fn translate_next(state: TranslateState, event: TranslateEvent) -> (r: Result<
    TranslateStep,
    TemplateError,
>)
    ensures
        translate_outcome(state, event, r),
{
    match (state, event) {
        (TranslateState::AwaitLocale, TranslateEvent::Locale { error: None }) => Ok(
            TranslateStep::ReadCall { state: TranslateState::AwaitCall },
        ),
        (TranslateState::AwaitLocale, TranslateEvent::Locale { error: Some(words) }) => Err(
            TemplateError::invalid_operation_from("Could not parse `lang`", words),
        ),
        (TranslateState::AwaitCall, TranslateEvent::Call { key, kwargs }) => {
            let arguments = names_of_arguments(&kwargs);
            let state = TranslateState::AwaitMessage { arguments };
            match find_kwarg(&kwargs, "count") {
                None => Ok(TranslateStep::Find { request: Lookup::Message { key }, state }),
                Some(Value::Null) => Ok(
                    TranslateStep::Find { request: Lookup::Message { key }, state },
                ),
                Some(Value::Integer(n)) => {
                    if *n >= 0 {
                        Ok(
                            TranslateStep::Find {
                                request: Lookup::Plural { key, count: *n as u64 },
                                state,
                            },
                        )
                    } else {
                        Err(TemplateError::invalid_operation("`count` is not a number"))
                    }
                },
                Some(_) => Err(TemplateError::invalid_operation("`count` is not a number")),
            }
        },
        (TranslateState::AwaitMessage { arguments }, TranslateEvent::Message { found }) => {
            if found {
                Ok(
                    TranslateStep::ConvertArguments {
                        names: arguments,
                        state: TranslateState::AwaitArguments,
                    },
                )
            } else {
                Err(TemplateError::invalid_operation("Missing translation"))
            }
        },
        (TranslateState::AwaitArguments, TranslateEvent::Arguments { error: None }) => Ok(
            TranslateStep::Format { state: TranslateState::AwaitText },
        ),
        (TranslateState::AwaitArguments, TranslateEvent::Arguments { error: Some(words) }) => Err(
            TemplateError::invalid_operation_from("Could not serialize argument", words),
        ),
        (TranslateState::AwaitText, TranslateEvent::Text(Ok(text))) => Ok(
            TranslateStep::Done { text: SafeString { text } },
        ),
        (TranslateState::AwaitText, TranslateEvent::Text(Err(words))) => Err(
            TemplateError::invalid_operation_from("Could not format message", words),
        ),
        _ => Err(TemplateError::invalid_operation("Unexpected answer to the translation")),
    }
}

/// Two steps that ask for the same, or hand back the same text.
pub open spec fn same_translate_step(first: TranslateStep, second: TranslateStep) -> bool {
    match (first, second) {
        (
            TranslateStep::ParseLocale { lang: a, state: s },
            TranslateStep::ParseLocale { lang: b, state: t },
        ) => a@ == b@ && s == t,
        (TranslateStep::ReadCall { state: s }, TranslateStep::ReadCall { state: t }) => s == t,
        (
            TranslateStep::Find {
                request: Lookup::Message { key: a },
                state: TranslateState::AwaitMessage { arguments: s },
            },
            TranslateStep::Find {
                request: Lookup::Message { key: b },
                state: TranslateState::AwaitMessage { arguments: t },
            },
        ) => a@ == b@ && texts_of(s@) == texts_of(t@),
        (
            TranslateStep::Find {
                request: Lookup::Plural { key: a, count: m },
                state: TranslateState::AwaitMessage { arguments: s },
            },
            TranslateStep::Find {
                request: Lookup::Plural { key: b, count: n },
                state: TranslateState::AwaitMessage { arguments: t },
            },
        ) => a@ == b@ && m == n && texts_of(s@) == texts_of(t@),
        (
            TranslateStep::ConvertArguments { names: a, state: s },
            TranslateStep::ConvertArguments { names: b, state: t },
        ) => texts_of(a@) == texts_of(b@) && s == t,
        (TranslateStep::Format { state: s }, TranslateStep::Format { state: t }) => s == t,
        (TranslateStep::Done { text: a }, TranslateStep::Done { text: b }) => a.text@ == b.text@,
        _ => false,
    }
}

/// Going on twice from the same state with the same answer gives the same
/// step or the same error.
pub proof fn law_translate_step_same_twice(
    state: TranslateState,
    event: TranslateEvent,
    first: Result<TranslateStep, TemplateError>,
    second: Result<TranslateStep, TemplateError>,
)
    requires
        translate_outcome(state, event, first),
        translate_outcome(state, event, second),
    ensures
        match (first, second) {
            (Ok(a), Ok(b)) => same_translate_step(a, b),
            (Err(a), Err(b)) => same_error(a, b),
            _ => false,
        },
{
}

} // verus!
