//! Constraints made of other constraints.

use vstd::prelude::*;
use crate::forms::constraints::FormConstraint;
use crate::forms::FormValue;

verus! {

/// Negates the provided constraint.
pub struct Not<C: FormConstraint + ?Sized> {
    message: String,
    constraint: Box<C>,
}

impl<C: FormConstraint + ?Sized> Not<C> {
    /// The constraint that holds where `constraint` fails.
    pub fn new(message: &str, constraint: Box<C>) -> (negated: Box<Self>)
        ensures
            negated.message() == message@,
            negated.inner() == constraint,
    {
        Box::new(Self { message: message.to_owned(), constraint })
    }

    /// The constraint that is negated.
    pub closed spec fn inner(&self) -> Box<C> {
        self.constraint
    }
}

impl<C: FormConstraint + ?Sized> FormConstraint for Not<C> {
    open spec fn answers(&self, output: &FormValue, valid: bool) -> bool {
        self.inner().answers(output, !valid)
    }

    fn validate(&self, output: &FormValue) -> (valid: bool) {
        !self.constraint.validate(output)
    }

    closed spec fn message(&self) -> Seq<char> {
        self.message@
    }

    fn get_message(&self) -> (message: &str) {
        self.message.as_str()
    }
}

/// Validates any of the provided constraints, like a logical OR.
pub struct AnyOf {
    message: String,
    constraints: Vec<Box<dyn FormConstraint>>,
}

impl AnyOf {
    /// The constraint that holds where one of `constraints` holds.
    pub fn new(message: &str, constraints: Vec<Box<dyn FormConstraint>>) -> (any: Box<Self>)
        ensures
            any.message() == message@,
            any.parts() == constraints@,
    {
        Box::new(Self { message: message.to_owned(), constraints })
    }

    /// The constraints of which one has to hold.
    pub closed spec fn parts(&self) -> Seq<Box<dyn FormConstraint>> {
        self.constraints@
    }

}

impl FormConstraint for AnyOf {
    open spec fn answers(&self, output: &FormValue, valid: bool) -> bool {
        if valid {
            exists|i: int|
                0 <= i < self.parts().len() && (#[trigger] self.parts()[i]).answers(output, true)
        } else {
            forall|i: int|
                0 <= i < self.parts().len() ==> (#[trigger] self.parts()[i]).answers(output, false)
        }
    }

    fn validate(&self, output: &FormValue) -> (valid: bool) {
        let mut i: usize = 0;
        while i < self.constraints.len()
            invariant
                i <= self.constraints@.len(),
                self.parts() == self.constraints@,
                forall|j: int| 0 <= j < i ==> (#[trigger] self.parts()[j]).answers(output, false),
            decreases self.constraints@.len() - i,
        {
            if self.constraints[i].validate(output) {
                assert(self.parts()[i as int].answers(output, true));
                return true;
            }
            i += 1;
        }
        false
    }

    closed spec fn message(&self) -> Seq<char> {
        self.message@
    }

    fn get_message(&self) -> (message: &str) {
        self.message.as_str()
    }
}

/// Validates all of the provided constraints, like a logical AND.
pub struct AllOf {
    message: String,
    constraints: Vec<Box<dyn FormConstraint>>,
}

impl AllOf {
    /// The constraint that holds where all of `constraints` hold.
    pub fn new(message: &str, constraints: Vec<Box<dyn FormConstraint>>) -> (all: Box<Self>)
        ensures
            all.message() == message@,
            all.parts() == constraints@,
    {
        Box::new(Self { message: message.to_owned(), constraints })
    }

    /// The constraints that all have to hold.
    pub closed spec fn parts(&self) -> Seq<Box<dyn FormConstraint>> {
        self.constraints@
    }

}

impl FormConstraint for AllOf {
    open spec fn answers(&self, output: &FormValue, valid: bool) -> bool {
        if valid {
            forall|i: int|
                0 <= i < self.parts().len() ==> (#[trigger] self.parts()[i]).answers(output, true)
        } else {
            exists|i: int|
                0 <= i < self.parts().len() && (#[trigger] self.parts()[i]).answers(output, false)
        }
    }

    fn validate(&self, output: &FormValue) -> (valid: bool) {
        let mut i: usize = 0;
        while i < self.constraints.len()
            invariant
                i <= self.constraints@.len(),
                self.parts() == self.constraints@,
                forall|j: int| 0 <= j < i ==> (#[trigger] self.parts()[j]).answers(output, true),
            decreases self.constraints@.len() - i,
        {
            if !self.constraints[i].validate(output) {
                assert(self.parts()[i as int].answers(output, false));
                return false;
            }
            i += 1;
        }
        true
    }

    closed spec fn message(&self) -> Seq<char> {
        self.message@
    }

    fn get_message(&self) -> (message: &str) {
        self.message.as_str()
    }
}

} // verus!
