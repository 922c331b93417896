//! Constraints that validate what a form field gives.

use vstd::prelude::*;
use crate::forms::{field_entries, FormValue};

mod basic;
mod complex;
mod logic;
mod numbers;
mod string;

pub use basic::not_blank;
pub use basic::IsTrue;
pub use basic::NotBlank;
pub use complex::Callback;
pub use complex::CharactersCallback;
pub use logic::AllOf;
pub use logic::AnyOf;
pub use logic::Not;
pub use numbers::decimal_at;
pub use numbers::digit;
pub use numbers::digits_at;
pub use numbers::integer_text;
pub use numbers::is_word;
pub use numbers::lower;
pub use numbers::number_text;
pub use numbers::sign;
pub use numbers::Integer;
pub use numbers::Number;
pub use string::alphabetic_char;
pub use string::alphabetic_text;
pub use string::alphanumeric_char;
pub use string::alphanumeric_text;
pub use string::Alphabetic;
pub use string::Alphanumeric;

verus! {

broadcast use {
    vstd::std_specs::vec::axiom_vec_index_decreases,
    vstd::std_specs::vec::axiom_vec_decreases_to_view,
    vstd::std_specs::hash::axiom_hashmap_decreases,
    vstd::std_specs::hash::axiom_hashmap_view_finite_dom,
    vstd::map::axiom_map_index_decreases_finite,
};

/// A rule that the output of a form field meets or fails.
pub trait FormConstraint {
    /// Whether `valid` is an answer the constraint gives for `output`. A
    /// constraint that decides by itself has one answer for each output; one
    /// that asks a function of the caller's has the answers that function gives.
    spec fn answers(&self, output: &FormValue, valid: bool) -> bool;

    /// Whether `output` meets the constraint.
    fn validate(&self, output: &FormValue) -> (valid: bool)
        ensures
            self.answers(output, valid),
    ;

    /// The text to show where an output fails the constraint.
    spec fn message(&self) -> Seq<char>;

    /// The text to show where an output fails the constraint.
    fn get_message(&self) -> (message: &str)
        ensures
            message@ == self.message(),
    ;
}

/// A check of single texts, and of the values that hold no text. A constraint
/// with such a check holds of a value that holds several values if it holds of
/// each of them.
pub trait TextCheck {
    /// The answer for a value that holds no text and no further values.
    spec fn plain(&self, value: &FormValue) -> bool;

    /// Whether `valid` is an answer for the text `text`.
    spec fn text_answers(&self, text: Seq<char>, valid: bool) -> bool;

    /// Checks a value that holds no text and no further values.
    fn check_plain(&self, value: &FormValue) -> (valid: bool)
        ensures
            valid == self.plain(value),
    ;

    /// Checks a text.
    fn check_text(&self, text: &str) -> (valid: bool)
        ensures
            self.text_answers(text@, valid),
    ;
}

/// Whether `valid` is an answer of `check` for `value`: for a text, what the
/// check says of it; for several texts or values, `true` if it is an answer for
/// each of them and `false` if it is an answer for one of them; for any other
/// value, what the check says of such values.
pub open spec fn walk_answers<C: TextCheck>(check: &C, value: &FormValue, valid: bool) -> bool
    decreases value,
{
    match value {
        FormValue::String(text) => check.text_answers(text@, valid),
        FormValue::List(entries) => if valid {
            forall|i: int| 0 <= i < entries@.len() ==> check.text_answers(#[trigger] entries@[i]@, true)
        } else {
            exists|i: int| 0 <= i < entries@.len() && check.text_answers(#[trigger] entries@[i]@, false)
        },
        FormValue::Vec(entries) => if valid {
            forall|i: int|
                0 <= i < entries@.len() ==> walk_answers(check, &#[trigger] entries@[i], true)
        } else {
            exists|i: int| 0 <= i < entries@.len() && walk_answers(check, &#[trigger] entries@[i], false)
        },
        FormValue::Fields(fields) => if valid {
            forall|k: String|
                fields@.contains_key(k) ==> walk_answers(check, &#[trigger] fields@[k], true)
        } else {
            exists|k: String| fields@.contains_key(k) && walk_answers(check, &#[trigger] fields@[k], false)
        },
        _ => valid == check.plain(value),
    }
}

/// Whether `check` has exactly one answer for every text.
pub open spec fn decides_texts<C: TextCheck>(check: &C) -> bool {
    forall|text: Seq<char>|
        #[trigger] check.text_answers(text, true) != check.text_answers(text, false)
}

/// A check with exactly one answer for every text has exactly one answer for
/// every value.
pub proof fn lemma_walk_decides<C: TextCheck>(check: &C, value: &FormValue)
    requires
        decides_texts(check),
    ensures
        walk_answers(check, value, true) != walk_answers(check, value, false),
    decreases value,
{
    match value {
        FormValue::String(text) => {},
        FormValue::List(entries) => {
            if !walk_answers(check, value, true) {
                let i = choose|i: int|
                    0 <= i < entries@.len() && !check.text_answers(#[trigger] entries@[i]@, true);
                assert(check.text_answers(entries@[i]@, false));
            } else {
                assert forall|i: int| 0 <= i < entries@.len() implies !check.text_answers(
                    #[trigger] entries@[i]@,
                    false,
                ) by {
                    assert(check.text_answers(entries@[i]@, true));
                }
            }
        },
        FormValue::Vec(entries) => {
            assert forall|i: int| 0 <= i < entries@.len() implies walk_answers(
                check,
                &#[trigger] entries@[i],
                true,
            ) != walk_answers(check, &entries@[i], false) by {
                assert(decreases_to!(entries => entries[i]));
                lemma_walk_decides(check, &entries@[i]);
            }
            if !walk_answers(check, value, true) {
                let i = choose|i: int|
                    0 <= i < entries@.len() && !walk_answers(check, &#[trigger] entries@[i], true);
                assert(walk_answers(check, &entries@[i], false));
            }
        },
        FormValue::Fields(fields) => {
            assert forall|k: String| fields@.contains_key(k) implies walk_answers(
                check,
                &#[trigger] fields@[k],
                true,
            ) != walk_answers(check, &fields@[k], false) by {
                assert(decreases_to!(fields => fields@));
                assert(fields@.dom().finite());
                assert(decreases_to!(fields@ => fields@[k]));
                lemma_walk_decides(check, &fields@[k]);
            }
            if !walk_answers(check, value, true) {
                let k = choose|k: String|
                    fields@.contains_key(k) && !walk_answers(check, &#[trigger] fields@[k], true);
                assert(walk_answers(check, &fields@[k], false));
            }
        },
        _ => {},
    }
}

/// Checks `value` with `check`.
pub fn walk<C: TextCheck>(check: &C, value: &FormValue) -> (valid: bool)
    ensures
        walk_answers(check, value, valid),
    decreases value,
{
    match value {
        FormValue::String(text) => check.check_text(text.as_str()),
        FormValue::List(entries) => {
            let mut i: usize = 0;
            while i < entries.len()
                invariant
                    i <= entries@.len(),
                    value is List,
                    value->List_0 == *entries,
                    forall|j: int| 0 <= j < i ==> check.text_answers(#[trigger] entries@[j]@, true),
                decreases entries@.len() - i,
            {
                if !check.check_text(entries[i].as_str()) {
                    assert(check.text_answers(entries@[i as int]@, false));
                    return false;
                }
                i += 1;
            }
            true
        },
        FormValue::Vec(entries) => {
            let mut i: usize = 0;
            while i < entries.len()
                invariant
                    i <= entries@.len(),
                    value is Vec,
                    value->Vec_0 == *entries,
                    decreases_to!(value => entries),
                    forall|j: int|
                        0 <= j < i ==> walk_answers(check, &#[trigger] entries@[j], true),
                decreases entries@.len() - i,
            {
                proof {
                    assert(decreases_to!(entries => entries[i as int]));
                }
                if !walk(check, &entries[i]) {
                    assert(walk_answers(check, &entries@[i as int], false));
                    return false;
                }
                i += 1;
            }
            true
        },
        FormValue::Fields(fields) => {
            let entries = field_entries(fields);
            let mut i: usize = 0;
            while i < entries.len()
                invariant
                    i <= entries@.len(),
                    value is Fields,
                    value->Fields_0 == *fields,
                    decreases_to!(value => fields),
                    forall|j: int|
                        0 <= j < entries@.len() ==> fields@.contains_key(
                            *(#[trigger] entries@[j]).0,
                        ) && fields@[*entries@[j].0] == *entries@[j].1,
                    forall|j: int|
                        0 <= j < i ==> walk_answers(check, (#[trigger] entries@[j]).1, true),
                decreases entries@.len() - i,
            {
                let entry = entries[i];
                proof {
                    assert(decreases_to!(fields => fields@));
                    assert(fields@.dom().finite());
                    assert(decreases_to!(fields@ => fields@[*entries@[i as int].0]));
                }
                if !walk(check, entry.1) {
                    proof {
                        assert(walk_answers(check, &fields@[*entries@[i as int].0], false));
                    }
                    return false;
                }
                i += 1;
            }
            proof {
                assert forall|k: String| fields@.contains_key(k) implies walk_answers(
                    check,
                    &#[trigger] fields@[k],
                    true,
                ) by {
                    let j = choose|j: int|
                        0 <= j < entries@.len() && *(#[trigger] entries@[j]).0 == k;
                    assert(walk_answers(check, entries@[j].1, true));
                }
            }
            true
        },
        _ => check.check_plain(value),
    }
}

} // verus!
