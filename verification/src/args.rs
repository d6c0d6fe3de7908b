//! The values and keyword arguments that the engine passes to a callable, as
//! far as this library reads them, and the text that a callable hands back.

use vstd::prelude::*;
use crate::error::{ErrorKind, TemplateError, invalid_argument};

verus! {

/// A value of the engine. Strings, booleans and integers are read here;
/// of any other value only its presence counts.
#[derive(Clone, Debug, PartialEq, Eq)]
pub enum Value {
    /// The engine's `none`.
    Null,
    Bool(bool),
    Integer(i64),
    Text(String),
    /// A value of another kind: a sequence, a mapping, a fraction, an object.
    Other,
}

/// A `Value` as contracts see it.
pub enum ValueView {
    Null,
    Bool(bool),
    Integer(int),
    Text(Seq<char>),
    Other,
}

impl View for Value {
    type V = ValueView;

    open spec fn view(&self) -> ValueView {
        match self {
            Value::Null => ValueView::Null,
            Value::Bool(b) => ValueView::Bool(*b),
            Value::Integer(n) => ValueView::Integer(*n as int),
            Value::Text(s) => ValueView::Text(s@),
            Value::Other => ValueView::Other,
        }
    }
}

/// A keyword argument: a name and the value given for it.
#[derive(Clone, Debug, PartialEq, Eq)]
pub struct Kwarg {
    pub name: String,
    pub value: Value,
}

/// A keyword argument as contracts see it.
pub type KwargView = (Seq<char>, ValueView);

impl View for Kwarg {
    type V = KwargView;

    open spec fn view(&self) -> KwargView {
        (self.name@, self.value@)
    }
}

impl Kwarg {
    /// A keyword argument from its name and value.
    pub fn new(name: &str, value: Value) -> (kwarg: Kwarg)
        ensures
            kwarg@ == (name@, value@),
    {
        Kwarg { name: name.to_owned(), value }
    }
}

/// The keyword arguments that a list holds.
pub open spec fn kwargs_of(kwargs: Seq<Kwarg>) -> Seq<KwargView> {
    kwargs.map_values(|k: Kwarg| k@)
}

/// The value given for `name`: that of the last argument with this name.
pub open spec fn kwarg_value(kwargs: Seq<KwargView>, name: Seq<char>) -> Option<ValueView>
    decreases kwargs.len(),
{
    if kwargs.len() == 0 {
        None
    } else if kwargs.last().0 == name {
        Some(kwargs.last().1)
    } else {
        kwarg_value(kwargs.drop_last(), name)
    }
}

/// The name of the first argument that is not the `known` one. With
/// `accepted` false no argument is known.
pub open spec fn first_unknown(kwargs: Seq<KwargView>, known: Seq<char>, accepted: bool) -> Option<
    Seq<char>,
>
    decreases kwargs.len(),
{
    if kwargs.len() == 0 {
        None
    } else if accepted && kwargs.first().0 == known {
        first_unknown(kwargs.drop_first(), known, accepted)
    } else {
        Some(kwargs.first().0)
    }
}

/// The message for a keyword argument that a callable does not take.
pub open spec fn unknown_kwarg_message(name: Seq<char>) -> Seq<char> {
    "unknown keyword argument '"@ + name + "'"@
}

/// The value given for `name`, where there is one.
pub fn find_kwarg<'a>(kwargs: &'a Vec<Kwarg>, name: &str) -> (found: Option<&'a Value>)
    ensures
        match found {
            Some(value) => kwarg_value(kwargs_of(kwargs@), name@) == Some(value@),
            None => kwarg_value(kwargs_of(kwargs@), name@) is None,
        },
{
    let ghost all = kwargs_of(kwargs@);
    let wanted = name.to_owned();
    let mut i: usize = kwargs.len();
    assert(all.take(all.len() as int) =~= all);
    while i > 0
        invariant
            i <= kwargs.len(),
            all == kwargs_of(kwargs@),
            wanted@ == name@,
            kwarg_value(all, name@) == kwarg_value(all.take(i as int), name@),
        decreases i,
    {
        i -= 1;
        proof {
            assert(all.take(i + 1).drop_last() =~= all.take(i as int));
            assert(all.take(i + 1).last() == kwargs@[i as int]@);
        }
        if kwargs[i].name == wanted {
            return Some(&kwargs[i].value);
        }
    }
    None
}

/// Fails with an invalid argument for the first keyword argument that is
/// not the `known` one. With `accepted` false no argument is known.
pub fn reject_unknown(kwargs: &Vec<Kwarg>, known: &str, accepted: bool) -> (r: Result<
    (),
    TemplateError,
>)
    ensures
        match r {
            Ok(_) => first_unknown(kwargs_of(kwargs@), known@, accepted) is None,
            Err(e) => first_unknown(kwargs_of(kwargs@), known@, accepted) matches Some(name)
                && e.reports(invalid_argument(unknown_kwarg_message(name))),
        },
{
    let ghost all = kwargs_of(kwargs@);
    let wanted = known.to_owned();
    let mut i: usize = 0;
    assert(all.skip(0) =~= all);
    while i < kwargs.len()
        invariant
            i <= kwargs.len(),
            all == kwargs_of(kwargs@),
            wanted@ == known@,
            first_unknown(all, known@, accepted) == first_unknown(
                all.skip(i as int),
                known@,
                accepted,
            ),
        decreases kwargs.len() - i,
    {
        proof {
            assert(all.skip(i as int).drop_first() =~= all.skip(i + 1));
            assert(all.skip(i as int).first() == kwargs@[i as int]@);
        }
        if !(accepted && kwargs[i].name == wanted) {
            let mut message = "unknown keyword argument '".to_owned();
            message.append(kwargs[i].name.as_str());
            message.append("'");
            return Err(TemplateError::new(ErrorKind::InvalidArgument, message.as_str()));
        }
        i += 1;
    }
    Ok(())
}

/// Text that is inserted into the page as it is, without escaping.
#[derive(Clone, Debug, PartialEq, Eq)]
pub struct SafeString {
    pub text: String,
}

} // verus!
