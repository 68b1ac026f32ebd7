//! Values that variables hold.

use vstd::prelude::*;
use vstd::string::StringExecFns;

verus! {

/// A number as the engine uses it. The engine never computes with a number:
/// it shows one with `print` and jumps to one with `goto`. So a number is held
/// as the two things that are read of it: its decimal text form, and its
/// truncation to a token index. Whoever reads a literal as a number builds
/// both.
#[derive(Debug, PartialEq, Eq)]
pub struct Number {
    /// The number's decimal text form.
    pub text: String,
    /// The number truncated to an integer.
    pub index: usize,
}

/// A number as contracts see it.
pub struct NumberView {
    pub text: Seq<char>,
    pub index: usize,
}

impl View for Number {
    type V = NumberView;

    open spec fn view(&self) -> NumberView {
        NumberView { text: self.text@, index: self.index }
    }
}

impl Number {
    /// A second number with the same text and the same index.
    pub fn duplicate(&self) -> (n: Number)
        ensures
            n@ == self@,
    {
        Number { text: self.text.clone(), index: self.index }
    }
}

/// What a variable holds: exactly one of a text, a number and a boolean.
#[derive(Debug, PartialEq, Eq)]
pub enum VariableValue {
    Text(String),
    Number(Number),
    Boolean(bool),
}

/// A value as contracts see it.
pub enum ValueView {
    Text(Seq<char>),
    Number(NumberView),
    Boolean(bool),
}

impl View for VariableValue {
    type V = ValueView;

    open spec fn view(&self) -> ValueView {
        match self {
            VariableValue::Text(s) => ValueView::Text(s@),
            VariableValue::Number(n) => ValueView::Number(n@),
            VariableValue::Boolean(b) => ValueView::Boolean(*b),
        }
    }
}

/// The text that `print` shows for a value: a text as it is, a number by its
/// decimal text form, a boolean as `true` or `false`.
pub open spec fn rendered(v: ValueView) -> Seq<char> {
    match v {
        ValueView::Text(s) => s,
        ValueView::Number(n) => n.text,
        ValueView::Boolean(b) => if b {
            "true"@
        } else {
            "false"@
        },
    }
}

impl VariableValue {
    /// A copy of the value; the copy shares nothing with `self`.
    pub fn duplicate(&self) -> (v: VariableValue)
        ensures
            v@ == self@,
    {
        match self {
            VariableValue::Text(s) => VariableValue::Text(s.clone()),
            VariableValue::Number(n) => VariableValue::Number(n.duplicate()),
            VariableValue::Boolean(b) => VariableValue::Boolean(*b),
        }
    }

    /// The text that `print` shows for the value.
    pub fn render(&self) -> (s: String)
        ensures
            s@ == rendered(self@),
    {
        match self {
            VariableValue::Text(s) => s.clone(),
            VariableValue::Number(n) => n.text.clone(),
            VariableValue::Boolean(b) => if *b {
                String::from_str("true")
            } else {
                String::from_str("false")
            },
        }
    }
}

} // verus!
