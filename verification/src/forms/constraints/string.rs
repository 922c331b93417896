//! Constraints on the characters of a text.

use vstd::prelude::*;
use crate::forms::constraints::{walk, walk_answers, FormConstraint, TextCheck};
use crate::forms::FormValue;
use crate::screen::text::chars_of;

verus! {

/// Whether a character is alphabetic, as Unicode has it.
pub uninterp spec fn alphabetic_char(c: char) -> bool;

/// Whether a character is alphabetic or numeric, as Unicode has it.
pub uninterp spec fn alphanumeric_char(c: char) -> bool;

/// `char::is_alphabetic` of std: whether the character has the Unicode property
/// Alphabetic. The result depends on the character alone; the contract names it
/// and says no more.
#[verifier::external_body]
fn is_alphabetic(c: char) -> (yes: bool)
    ensures
        yes == alphabetic_char(c),
{
    c.is_alphabetic()
}

/// `char::is_alphanumeric` of std: whether the character is alphabetic or
/// numeric. The result depends on the character alone; the contract names it and
/// says no more.
#[verifier::external_body]
fn is_alphanumeric(c: char) -> (yes: bool)
    ensures
        yes == alphanumeric_char(c),
{
    c.is_alphanumeric()
}

/// Whether every character of `text` is alphabetic.
pub open spec fn alphabetic_text(text: Seq<char>) -> bool {
    forall|i: int| 0 <= i < text.len() ==> alphabetic_char(#[trigger] text[i])
}

/// Whether every character of `text` is alphabetic or numeric.
pub open spec fn alphanumeric_text(text: Seq<char>) -> bool {
    forall|i: int| 0 <= i < text.len() ==> alphanumeric_char(#[trigger] text[i])
}

/// Checks that the input holds alphabetic characters only. A value that holds
/// no text fails.
pub struct Alphabetic {
    message: String,
}

impl Alphabetic {
    /// The constraint with the given message.
    pub fn new(message: &str) -> (constraint: Box<Self>)
        ensures
            constraint.message() == message@,
    {
        Box::new(Self { message: message.to_owned() })
    }
}

impl TextCheck for Alphabetic {
    open spec fn plain(&self, value: &FormValue) -> bool {
        false
    }

    open spec fn text_answers(&self, text: Seq<char>, valid: bool) -> bool {
        valid == alphabetic_text(text)
    }

    fn check_plain(&self, value: &FormValue) -> (valid: bool) {
        false
    }

    fn check_text(&self, text: &str) -> (valid: bool) {
        let chars = chars_of(text);
        let mut i: usize = 0;
        while i < chars.len()
            invariant
                i <= chars@.len(),
                chars@ == text@,
                forall|j: int| 0 <= j < i ==> alphabetic_char(#[trigger] text@[j]),
            decreases chars@.len() - i,
        {
            if !is_alphabetic(chars[i]) {
                return false;
            }
            i += 1;
        }
        true
    }
}

impl FormConstraint for Alphabetic {
    open spec fn answers(&self, output: &FormValue, valid: bool) -> bool {
        walk_answers(self, output, valid)
    }

    fn validate(&self, output: &FormValue) -> (valid: bool) {
        walk(self, output)
    }

    closed spec fn message(&self) -> Seq<char> {
        self.message@
    }

    fn get_message(&self) -> (message: &str) {
        self.message.as_str()
    }
}

/// Checks that the input holds alphabetic and numeric characters only. A value
/// that holds no text fails.
pub struct Alphanumeric {
    message: String,
}

impl Alphanumeric {
    /// The constraint with the given message.
    pub fn new(message: &str) -> (constraint: Box<Self>)
        ensures
            constraint.message() == message@,
    {
        Box::new(Self { message: message.to_owned() })
    }
}

impl TextCheck for Alphanumeric {
    open spec fn plain(&self, value: &FormValue) -> bool {
        false
    }

    open spec fn text_answers(&self, text: Seq<char>, valid: bool) -> bool {
        valid == alphanumeric_text(text)
    }

    fn check_plain(&self, value: &FormValue) -> (valid: bool) {
        false
    }

    fn check_text(&self, text: &str) -> (valid: bool) {
        let chars = chars_of(text);
        let mut i: usize = 0;
        while i < chars.len()
            invariant
                i <= chars@.len(),
                chars@ == text@,
                forall|j: int| 0 <= j < i ==> alphanumeric_char(#[trigger] text@[j]),
            decreases chars@.len() - i,
        {
            if !is_alphanumeric(chars[i]) {
                return false;
            }
            i += 1;
        }
        true
    }
}

impl FormConstraint for Alphanumeric {
    open spec fn answers(&self, output: &FormValue, valid: bool) -> bool {
        walk_answers(self, output, valid)
    }

    fn validate(&self, output: &FormValue) -> (valid: bool) {
        walk(self, output)
    }

    closed spec fn message(&self) -> Seq<char> {
        self.message@
    }

    fn get_message(&self) -> (message: &str) {
        self.message.as_str()
    }
}

} // verus!
