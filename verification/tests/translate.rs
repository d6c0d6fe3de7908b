use template_functions::args::{Kwarg, SafeString, Value};
use template_functions::error::ErrorKind;
use template_functions::translate::{
    names_of_arguments, translate, translate_next, Lookup, TranslateEvent, TranslateState,
    TranslateStep,
};

fn names(all: &[&str]) -> Vec<String> {
    all.iter().map(|t| t.to_string()).collect()
}

fn call(key: &str, kwargs: Vec<Kwarg>) -> TranslateEvent {
    TranslateEvent::Call { key: key.to_string(), kwargs }
}

#[test]
fn translate_needs_a_locale() {
    let err = translate(None).unwrap_err();
    assert_eq!(err.kind, ErrorKind::UndefinedError);
    assert_eq!(err.message, "`lang` is not set");
    assert_eq!(err.cause, None);
}

#[test]
fn translate_needs_a_locale_that_is_a_string() {
    for value in [Value::Integer(1), Value::Bool(true), Value::Null, Value::Other] {
        let err = translate(Some(&value)).unwrap_err();
        assert_eq!(err.kind, ErrorKind::InvalidOperation);
        assert_eq!(err.message, "`lang` is not a string");
    }
}

#[test]
fn translate_has_the_locale_parsed() {
    let lang = Value::Text("fr-CA".to_string());
    assert_eq!(
        translate(Some(&lang)),
        Ok(TranslateStep::ParseLocale { lang: "fr-CA".to_string(), state: TranslateState::AwaitLocale })
    );
}

#[test]
fn a_locale_that_does_not_parse_is_an_invalid_operation() {
    let event = TranslateEvent::Locale { error: Some("bad tag".to_string()) };
    let err = translate_next(TranslateState::AwaitLocale, event).unwrap_err();
    assert_eq!(err.kind, ErrorKind::InvalidOperation);
    assert_eq!(err.message, "Could not parse `lang`");
    assert_eq!(err.cause, Some("bad tag".to_string()));
}

#[test]
fn after_the_locale_the_call_is_read() {
    assert_eq!(
        translate_next(TranslateState::AwaitLocale, TranslateEvent::Locale { error: None }),
        Ok(TranslateStep::ReadCall { state: TranslateState::AwaitCall })
    );
}

#[test]
fn without_a_count_the_message_is_asked_for() {
    let kwargs = vec![Kwarg::new("name", Value::Text("Ada".to_string()))];
    assert_eq!(
        translate_next(TranslateState::AwaitCall, call("greeting", kwargs)),
        Ok(TranslateStep::Find {
            request: Lookup::Message { key: "greeting".to_string() },
            state: TranslateState::AwaitMessage { arguments: names(&["name"]) },
        })
    );
}

#[test]
fn with_a_count_the_plural_form_is_asked_for() {
    let kwargs = vec![
        Kwarg::new("who", Value::Other),
        Kwarg::new("count", Value::Integer(3)),
        Kwarg::new("what", Value::Null),
    ];
    assert_eq!(
        translate_next(TranslateState::AwaitCall, call("items", kwargs)),
        Ok(TranslateStep::Find {
            request: Lookup::Plural { key: "items".to_string(), count: 3 },
            state: TranslateState::AwaitMessage { arguments: names(&["who", "what"]) },
        })
    );
}

#[test]
fn a_count_of_zero_is_a_count() {
    let kwargs = vec![Kwarg::new("count", Value::Integer(0))];
    assert_eq!(
        translate_next(TranslateState::AwaitCall, call("items", kwargs)),
        Ok(TranslateStep::Find {
            request: Lookup::Plural { key: "items".to_string(), count: 0 },
            state: TranslateState::AwaitMessage { arguments: Vec::new() },
        })
    );
}

#[test]
fn a_count_of_none_is_no_count() {
    let kwargs = vec![Kwarg::new("count", Value::Null)];
    assert_eq!(
        translate_next(TranslateState::AwaitCall, call("items", kwargs)),
        Ok(TranslateStep::Find {
            request: Lookup::Message { key: "items".to_string() },
            state: TranslateState::AwaitMessage { arguments: Vec::new() },
        })
    );
}

#[test]
fn a_count_that_is_no_number_is_an_invalid_operation() {
    for value in [Value::Integer(-1), Value::Text("3".to_string()), Value::Bool(true), Value::Other] {
        let err = translate_next(TranslateState::AwaitCall, call("items", vec![Kwarg::new("count", value)]))
            .unwrap_err();
        assert_eq!(err.kind, ErrorKind::InvalidOperation);
        assert_eq!(err.message, "`count` is not a number");
    }
}

#[test]
fn a_missing_translation_is_an_invalid_operation() {
    let state = TranslateState::AwaitMessage { arguments: names(&["name"]) };
    let err = translate_next(state, TranslateEvent::Message { found: false }).unwrap_err();
    assert_eq!(err.kind, ErrorKind::InvalidOperation);
    assert_eq!(err.message, "Missing translation");
    assert_eq!(err.cause, None);
}

#[test]
fn a_found_message_has_its_arguments_converted() {
    let state = TranslateState::AwaitMessage { arguments: names(&["name", "place"]) };
    assert_eq!(
        translate_next(state, TranslateEvent::Message { found: true }),
        Ok(TranslateStep::ConvertArguments {
            names: names(&["name", "place"]),
            state: TranslateState::AwaitArguments,
        })
    );
}

#[test]
fn an_argument_that_does_not_convert_is_an_invalid_operation() {
    let event = TranslateEvent::Arguments { error: Some("not json".to_string()) };
    let err = translate_next(TranslateState::AwaitArguments, event).unwrap_err();
    assert_eq!(err.kind, ErrorKind::InvalidOperation);
    assert_eq!(err.message, "Could not serialize argument");
    assert_eq!(err.cause, Some("not json".to_string()));
}

#[test]
fn converted_arguments_are_formatted() {
    assert_eq!(
        translate_next(TranslateState::AwaitArguments, TranslateEvent::Arguments { error: None }),
        Ok(TranslateStep::Format { state: TranslateState::AwaitText })
    );
}

#[test]
fn a_message_that_does_not_format_is_an_invalid_operation() {
    let event = TranslateEvent::Text(Err("missing placeholder".to_string()));
    let err = translate_next(TranslateState::AwaitText, event).unwrap_err();
    assert_eq!(err.kind, ErrorKind::InvalidOperation);
    assert_eq!(err.message, "Could not format message");
    assert_eq!(err.cause, Some("missing placeholder".to_string()));
}

#[test]
fn the_formatted_text_is_handed_on_unescaped() {
    let event = TranslateEvent::Text(Ok("<b>Hello</b> & welcome".to_string()));
    assert_eq!(
        translate_next(TranslateState::AwaitText, event),
        Ok(TranslateStep::Done { text: SafeString { text: "<b>Hello</b> & welcome".to_string() } })
    );
}

#[test]
fn a_translation_answer_out_of_turn_is_refused() {
    let err = translate_next(TranslateState::AwaitLocale, TranslateEvent::Message { found: true }).unwrap_err();
    assert_eq!(err.kind, ErrorKind::InvalidOperation);
    assert_eq!(err.message, "Unexpected answer to the translation");
    let err = translate_next(TranslateState::AwaitText, TranslateEvent::Locale { error: None }).unwrap_err();
    assert_eq!(err.message, "Unexpected answer to the translation");
}

#[test]
fn argument_names_leave_out_the_count() {
    let kwargs = vec![
        Kwarg::new("count", Value::Integer(1)),
        Kwarg::new("a", Value::Other),
        Kwarg::new("count", Value::Integer(2)),
        Kwarg::new("b", Value::Other),
    ];
    assert_eq!(names_of_arguments(&kwargs), names(&["a", "b"]));
    assert_eq!(names_of_arguments(&Vec::new()), names(&[]));
}

#[test]
fn a_translation_step_is_the_same_twice() {
    let kwargs = || vec![Kwarg::new("count", Value::Integer(2)), Kwarg::new("n", Value::Other)];
    assert_eq!(
        translate_next(TranslateState::AwaitCall, call("k", kwargs())),
        translate_next(TranslateState::AwaitCall, call("k", kwargs()))
    );
}
