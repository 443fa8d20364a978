//! The value model: tristate and string option values, and their textual form.

use vstd::prelude::*;
use vstd::string::*;

verus! {

/// The state of a tristate option.
///
/// `NotSet` is for options that a dump does not mention: reading a dump never
/// yields it.
#[derive(Copy, Clone, PartialEq, Eq, Hash, Debug, Structural)]
pub enum Tristate {
    True,
    False,
    Module,
    NotSet,
}

/// The value of one option.
#[derive(Debug, PartialEq, Eq)]
pub enum Value {
    /// The state of a tristate option.
    Tristate(Tristate),
    /// A string value as it stands in the dump: with its quotes, and with
    /// its escape sequences left as they are.
    String(String),
}

/// What a [`Value`] holds, with the text as a sequence of characters.
pub enum ValueView {
    Tristate(Tristate),
    String(Seq<char>),
}

impl View for Value {
    type V = ValueView;

    open spec fn view(&self) -> ValueView {
        match *self {
            Value::Tristate(state) => ValueView::Tristate(state),
            Value::String(text) => ValueView::String(text@),
        }
    }
}

impl DeepView for Value {
    type V = ValueView;

    open spec fn deep_view(&self) -> ValueView {
        self@
    }
}

impl Clone for Value {
    fn clone(&self) -> (copy: Value)
        ensures
            copy == *self,
    {
        match self {
            Value::Tristate(state) => Value::Tristate(*state),
            Value::String(text) => Value::String(text.clone()),
        }
    }
}

/// Whether `raw` begins with a double quote.
pub open spec fn is_quoted(raw: Seq<char>) -> bool {
    raw.len() > 0 && raw[0] == '"'
}

/// The value that the text `raw` stands for, if it stands for one.
pub open spec fn parse_spec(raw: Seq<char>) -> Option<ValueView> {
    if is_quoted(raw) {
        Some(ValueView::String(raw))
    } else if raw == seq!['y'] {
        Some(ValueView::Tristate(Tristate::True))
    } else if raw == seq!['n'] {
        Some(ValueView::Tristate(Tristate::False))
    } else if raw == seq!['m'] {
        Some(ValueView::Tristate(Tristate::Module))
    } else {
        None
    }
}

impl Value {
    /// Reads a value from its textual form.
    ///
    /// Text that begins with a double quote is a string value and is kept
    /// whole. Otherwise `y`, `n` and `m` are the three tristate literals, and
    /// any other text is no value. No text stands for `NotSet`.
    pub fn parse(raw: &str) -> (value: Option<Value>)
        ensures
            value.deep_view() == parse_spec(raw@),
            is_quoted(raw@) ==> (value matches Some(Value::String(text)) && text@ == raw@),
            raw@ == seq!['y'] ==> value == Some(Value::Tristate(Tristate::True)),
            raw@ == seq!['n'] ==> value == Some(Value::Tristate(Tristate::False)),
            raw@ == seq!['m'] ==> value == Some(Value::Tristate(Tristate::Module)),
            !is_quoted(raw@) && raw@ != seq!['y'] && raw@ != seq!['n'] && raw@ != seq!['m']
                ==> value is None,
            value != Some(Value::Tristate(Tristate::NotSet)),
    {
        if raw.is_empty() {
            return None;
        }
        let first = raw.get_char(0);
        if first == '"' {
            return Some(Value::String(raw.to_owned()));
        }
        if raw.unicode_len() != 1 {
            return None;
        }
        assert(raw@ == seq![first]);
        if first == 'y' {
            Some(Value::Tristate(Tristate::True))
        } else if first == 'n' {
            Some(Value::Tristate(Tristate::False))
        } else if first == 'm' {
            Some(Value::Tristate(Tristate::Module))
        } else {
            None
        }
    }
}

} // verus!
