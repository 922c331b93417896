//! Constraints on whether a value is there and whether it is true.

use vstd::prelude::*;
use crate::forms::constraints::{walk, walk_answers, FormConstraint, TextCheck};
use crate::forms::FormValue;

verus! {

/// Whether a value is there and is not empty.
pub open spec fn not_blank(value: &FormValue) -> bool {
    match value {
        FormValue::Nothing => false,
        FormValue::Boolean(_) => true,
        FormValue::Index(_) => true,
        FormValue::String(text) => text@.len() != 0,
        FormValue::Fields(fields) => !fields@.is_empty(),
        FormValue::List(entries) => entries@.len() != 0,
        FormValue::Vec(entries) => entries@.len() != 0,
    }
}

/// Validates that data exists and is not empty.
pub struct NotBlank {
    message: String,
}

impl NotBlank {
    /// The constraint with the given message.
    pub fn new(message: &str) -> (constraint: Box<Self>)
        ensures
            constraint.message() == message@,
    {
        Box::new(Self { message: message.to_owned() })
    }
}

impl FormConstraint for NotBlank {
    open spec fn answers(&self, output: &FormValue, valid: bool) -> bool {
        valid == not_blank(output)
    }

    fn validate(&self, output: &FormValue) -> (valid: bool) {
        match output {
            FormValue::Nothing => false,
            FormValue::Boolean(_) => true,
            FormValue::Index(_) => true,
            FormValue::String(value) => !value.as_str().is_empty(),
            FormValue::Fields(entries) => !entries.is_empty(),
            FormValue::List(entries) => entries.len() != 0,
            FormValue::Vec(entries) => entries.len() != 0,
        }
    }

    closed spec fn message(&self) -> Seq<char> {
        self.message@
    }

    fn get_message(&self) -> (message: &str) {
        self.message.as_str()
    }
}

/// Validates that data evaluates to true: a switch that is on, a choice other
/// than the first, the text `true`, and several values that all do.
pub struct IsTrue {
    message: String,
}

impl IsTrue {
    /// The constraint with the given message.
    pub fn new(message: &str) -> (constraint: Box<Self>)
        ensures
            constraint.message() == message@,
    {
        Box::new(Self { message: message.to_owned() })
    }
}

impl TextCheck for IsTrue {
    open spec fn plain(&self, value: &FormValue) -> bool {
        match value {
            FormValue::Boolean(on) => *on,
            FormValue::Index(choice) => *choice != 0,
            _ => false,
        }
    }

    open spec fn text_answers(&self, text: Seq<char>, valid: bool) -> bool {
        valid == (text == "true"@)
    }

    fn check_plain(&self, value: &FormValue) -> (valid: bool) {
        match value {
            FormValue::Boolean(on) => *on,
            FormValue::Index(choice) => *choice != 0,
            _ => false,
        }
    }

    fn check_text(&self, text: &str) -> (valid: bool) {
        let wanted = "true".to_owned();
        let given = text.to_owned();
        given == wanted
    }
}

impl FormConstraint for IsTrue {
    open spec fn answers(&self, output: &FormValue, valid: bool) -> bool {
        walk_answers(self, output, valid)
    }

    fn validate(&self, output: &FormValue) -> (valid: bool) {
        walk(self, output)
    }

    closed spec fn message(&self) -> Seq<char> {
        self.message@
    }

    fn get_message(&self) -> (message: &str) {
        self.message.as_str()
    }
}

} // verus!
