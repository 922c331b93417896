//! Constraints that ask a function of the caller's.

use vstd::prelude::*;
use crate::forms::constraints::{walk, walk_answers, FormConstraint, TextCheck};
use crate::forms::FormValue;
use crate::screen::text::chars_of;

verus! {

/// Calls a function of the caller's on the output in order to validate it. The
/// function takes every output.
pub struct Callback<F: Fn(&FormValue) -> bool> {
    callback: F,
    message: String,
}

impl<F: Fn(&FormValue) -> bool> Callback<F> {
    #[verifier::type_invariant]
    spec fn callable(self) -> bool {
        forall|output: &FormValue| call_requires(self.callback, (output,))
    }

    /// The constraint that holds where `callback` returns `true`.
    pub fn new(message: &str, callback: F) -> (constraint: Box<Self>)
        requires
            forall|output: &FormValue| call_requires(callback, (output,)),
        ensures
            constraint.message() == message@,
            constraint.asked() == callback,
    {
        Box::new(Self { callback, message: message.to_owned() })
    }

    /// The function that is asked.
    pub closed spec fn asked(&self) -> F {
        self.callback
    }
}

impl<F: Fn(&FormValue) -> bool> FormConstraint for Callback<F> {
    open spec fn answers(&self, output: &FormValue, valid: bool) -> bool {
        call_ensures(self.asked(), (output,), valid)
    }

    fn validate(&self, output: &FormValue) -> (valid: bool) {
        proof {
            use_type_invariant(self);
        }
        (self.callback)(output)
    }

    closed spec fn message(&self) -> Seq<char> {
        self.message@
    }

    fn get_message(&self) -> (message: &str) {
        self.message.as_str()
    }
}

/// Calls a function of the caller's on every character of every text of the
/// output. A value that holds no text fails. The function takes every
/// character.
pub struct CharactersCallback<F: Fn(char) -> bool> {
    callback: F,
    message: String,
}

impl<F: Fn(char) -> bool> CharactersCallback<F> {
    #[verifier::type_invariant]
    spec fn callable(self) -> bool {
        forall|c: char| call_requires(self.callback, (c,))
    }

    /// The constraint that holds where `callback` returns `true` for every
    /// character.
    pub fn new(message: &str, callback: F) -> (constraint: Box<Self>)
        requires
            forall|c: char| call_requires(callback, (c,)),
        ensures
            constraint.message() == message@,
            constraint.asked() == callback,
    {
        Box::new(Self { callback, message: message.to_owned() })
    }

    /// The function that is asked.
    pub closed spec fn asked(&self) -> F {
        self.callback
    }
}

impl<F: Fn(char) -> bool> TextCheck for CharactersCallback<F> {
    open spec fn plain(&self, value: &FormValue) -> bool {
        false
    }

    open spec fn text_answers(&self, text: Seq<char>, valid: bool) -> bool {
        if valid {
            forall|i: int| 0 <= i < text.len() ==> call_ensures(self.asked(), (#[trigger] text[i],), true)
        } else {
            exists|i: int| 0 <= i < text.len() && call_ensures(self.asked(), (#[trigger] text[i],), false)
        }
    }

    fn check_plain(&self, value: &FormValue) -> (valid: bool) {
        false
    }

    fn check_text(&self, text: &str) -> (valid: bool) {
        proof {
            use_type_invariant(self);
        }
        let chars = chars_of(text);
        let mut i: usize = 0;
        while i < chars.len()
            invariant
                i <= chars@.len(),
                chars@ == text@,
                forall|c: char| call_requires(self.callback, (c,)),
                forall|j: int|
                    0 <= j < i ==> call_ensures(self.asked(), (#[trigger] text@[j],), true),
            decreases chars@.len() - i,
        {
            if !(self.callback)(chars[i]) {
                return false;
            }
            i += 1;
        }
        true
    }
}

impl<F: Fn(char) -> bool> FormConstraint for CharactersCallback<F> {
    open spec fn answers(&self, output: &FormValue, valid: bool) -> bool {
        walk_answers(self, output, valid)
    }

    fn validate(&self, output: &FormValue) -> (valid: bool) {
        walk(self, output)
    }

    closed spec fn message(&self) -> Seq<char> {
        self.message@
    }

    fn get_message(&self) -> (message: &str) {
        self.message.as_str()
    }
}

} // verus!
