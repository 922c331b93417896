//! Constraints on texts that are to hold a number.

use vstd::prelude::*;
use crate::forms::constraints::{walk, walk_answers, FormConstraint, TextCheck};
use crate::forms::FormValue;
use crate::screen::text::chars_of;

verus! {

/// Whether `c` is one of the digits `0` to `9`.
pub open spec fn digit(c: char) -> bool {
    '0' <= c <= '9'
}

/// Whether `c` is a plus or a minus sign.
pub open spec fn sign(c: char) -> bool {
    c == '+' || c == '-'
}

/// Whether `text` is an integer: a digit or a sign, then digits only.
pub open spec fn integer_text(text: Seq<char>) -> bool {
    &&& text.len() > 0
    &&& digit(text[0]) || sign(text[0])
    &&& forall|i: int| 1 <= i < text.len() ==> digit(#[trigger] text[i])
}

/// The number of digits that `text` holds in a row from `from` on.
pub open spec fn digits_at(text: Seq<char>, from: int) -> nat
    decreases text.len() - from,
{
    if 0 <= from < text.len() && digit(text[from]) {
        1 + digits_at(text, from + 1)
    } else {
        0
    }
}

/// Whether `text` holds `word` from `from` to its end, in upper or lower case.
/// `word` is in lower case.
pub open spec fn is_word(text: Seq<char>, from: int, word: Seq<char>) -> bool {
    &&& text.len() - from == word.len()
    &&& forall|i: int|
        0 <= i < word.len() ==> lower(#[trigger] text[from + i]) == word[i]
}

/// The lower-case letter of an upper-case ASCII letter; any other character
/// itself.
pub open spec fn lower(c: char) -> char {
    if 'A' <= c <= 'Z' {
        ((c as u8) + 32) as char
    } else {
        c
    }
}

/// Whether `text` holds a decimal number from `from` to its end: digits with at
/// most one point among them, and at least one digit; then, if anything, an
/// exponent: the letter `e`, a sign or none, and at least one digit.
pub open spec fn decimal_at(text: Seq<char>, from: int) -> bool {
    let whole = digits_at(text, from);
    let point = from + whole;
    let has_point = point < text.len() && text[point] == '.';
    let fraction = if has_point {
        digits_at(text, point + 1)
    } else {
        0
    };
    let after = if has_point {
        point + 1 + fraction
    } else {
        point
    };
    &&& whole + fraction > 0
    &&& after == text.len() || {
        let first = if after + 1 < text.len() && sign(text[after + 1]) {
            after + 2
        } else {
            after + 1
        };
        &&& lower(text[after]) == 'e'
        &&& digits_at(text, first) > 0
        &&& first + digits_at(text, first) == text.len()
    }
}

/// Whether `text` is a number in decimal notation: a sign or none, and then a
/// decimal number or one of the words `inf`, `infinity` and `nan` in upper or
/// lower case.
pub open spec fn number_text(text: Seq<char>) -> bool {
    let from: int = if text.len() > 0 && sign(text[0]) {
        1
    } else {
        0
    };
    ||| is_word(text, from, seq!['i', 'n', 'f'])
    ||| is_word(text, from, seq!['i', 'n', 'f', 'i', 'n', 'i', 't', 'y'])
    ||| is_word(text, from, seq!['n', 'a', 'n'])
    ||| decimal_at(text, from)
}

/// Whether `c` is one of the digits `0` to `9`.
fn is_digit(c: char) -> (yes: bool)
    ensures
        yes == digit(c),
{
    c >= '0' && c <= '9'
}

/// The lower-case letter of an upper-case ASCII letter; any other character
/// itself.
fn to_lower(c: char) -> (l: char)
    ensures
        l == lower(c),
{
    if c >= 'A' && c <= 'Z' {
        ((c as u8) + 32) as char
    } else {
        c
    }
}

/// The number of digits that `chars` holds in a row from `from` on.
fn count_digits(chars: &Vec<char>, from: usize) -> (count: usize)
    requires
        from <= chars@.len(),
    ensures
        count == digits_at(chars@, from as int),
        from + count <= chars@.len(),
{
    let mut to: usize = from;
    while to < chars.len() && is_digit(chars[to])
        invariant
            from <= to <= chars@.len(),
            digits_at(chars@, from as int) == (to - from) + digits_at(chars@, to as int),
        decreases chars@.len() - to,
    {
        to += 1;
    }
    to - from
}

/// Whether `chars` holds `word` from `from` to its end, in upper or lower case.
fn holds_word(chars: &Vec<char>, from: usize, word: &Vec<char>) -> (yes: bool)
    requires
        from <= chars@.len(),
    ensures
        yes == is_word(chars@, from as int, word@),
{
    let len = chars.len();
    if len - from != word.len() {
        return false;
    }
    let mut i: usize = 0;
    while i < word.len()
        invariant
            i <= word@.len(),
            from <= chars@.len(),
            len == chars@.len(),
            chars@.len() - from == word@.len(),
            forall|j: int| 0 <= j < i ==> lower(#[trigger] chars@[from + j]) == word@[j],
        decreases word@.len() - i,
    {
        if to_lower(chars[from + i]) != word[i] {
            return false;
        }
        i += 1;
    }
    true
}

/// Whether `chars` holds a decimal number from `from` to its end.
fn holds_decimal(chars: &Vec<char>, from: usize) -> (yes: bool)
    requires
        from <= chars@.len(),
    ensures
        yes == decimal_at(chars@, from as int),
{
    let len = chars.len();
    let whole = count_digits(chars, from);
    let point = from + whole;
    let has_point = point < len && chars[point] == '.';
    let fraction = if has_point {
        count_digits(chars, point + 1)
    } else {
        0
    };
    let after = if has_point {
        point + 1 + fraction
    } else {
        point
    };
    if whole + fraction == 0 {
        return false;
    }
    if after == len {
        return true;
    }
    if to_lower(chars[after]) != 'e' {
        return false;
    }
    let first = if after + 1 < len && (chars[after + 1] == '+' || chars[after + 1] == '-') {
        after + 2
    } else {
        after + 1
    };
    let exponent = count_digits(chars, first);
    exponent > 0 && first + exponent == len
}

/// Validates that the input is an integer, positive or negative. A value that
/// holds no text passes.
pub struct Integer {
    message: String,
}

impl Integer {
    /// The constraint with the given message.
    pub fn new(message: &str) -> (constraint: Box<Self>)
        ensures
            constraint.message() == message@,
    {
        Box::new(Self { message: message.to_owned() })
    }
}

impl TextCheck for Integer {
    open spec fn plain(&self, value: &FormValue) -> bool {
        true
    }

    open spec fn text_answers(&self, text: Seq<char>, valid: bool) -> bool {
        valid == integer_text(text)
    }

    fn check_plain(&self, value: &FormValue) -> (valid: bool) {
        true
    }

    fn check_text(&self, text: &str) -> (valid: bool) {
        let chars = chars_of(text);
        if chars.len() == 0 {
            return false;
        }
        let first = chars[0];
        if !is_digit(first) && first != '-' && first != '+' {
            return false;
        }
        let mut i: usize = 1;
        while i < chars.len()
            invariant
                1 <= i <= chars@.len(),
                chars@ == text@,
                forall|j: int| 1 <= j < i ==> digit(#[trigger] text@[j]),
            decreases chars@.len() - i,
        {
            if !is_digit(chars[i]) {
                return false;
            }
            i += 1;
        }
        true
    }
}

impl FormConstraint for Integer {
    open spec fn answers(&self, output: &FormValue, valid: bool) -> bool {
        walk_answers(self, output, valid)
    }

    fn validate(&self, output: &FormValue) -> (valid: bool) {
        walk(self, output)
    }

    closed spec fn message(&self) -> Seq<char> {
        self.message@
    }

    fn get_message(&self) -> (message: &str) {
        self.message.as_str()
    }
}

/// Validates that the input is a number in decimal notation, with or without a
/// fraction and an exponent. A value that holds no text passes.
pub struct Number {
    message: String,
}

impl Number {
    /// The constraint with the given message.
    pub fn new(message: &str) -> (constraint: Box<Self>)
        ensures
            constraint.message() == message@,
    {
        Box::new(Self { message: message.to_owned() })
    }
}

impl TextCheck for Number {
    open spec fn plain(&self, value: &FormValue) -> bool {
        true
    }

    open spec fn text_answers(&self, text: Seq<char>, valid: bool) -> bool {
        valid == number_text(text)
    }

    fn check_plain(&self, value: &FormValue) -> (valid: bool) {
        true
    }

    fn check_text(&self, text: &str) -> (valid: bool) {
        let chars = chars_of(text);
        let from: usize = if chars.len() > 0 && (chars[0] == '+' || chars[0] == '-') {
            1
        } else {
            0
        };
        let inf = vec!['i', 'n', 'f'];
        let infinity = vec!['i', 'n', 'f', 'i', 'n', 'i', 't', 'y'];
        let nan = vec!['n', 'a', 'n'];
        proof {
            assert(inf@ =~= seq!['i', 'n', 'f']);
            assert(infinity@ =~= seq!['i', 'n', 'f', 'i', 'n', 'i', 't', 'y']);
            assert(nan@ =~= seq!['n', 'a', 'n']);
        }
        holds_word(&chars, from, &inf) || holds_word(&chars, from, &infinity) || holds_word(
            &chars,
            from,
            &nan,
        ) || holds_decimal(&chars, from)
    }
}

impl FormConstraint for Number {
    open spec fn answers(&self, output: &FormValue, valid: bool) -> bool {
        walk_answers(self, output, valid)
    }

    fn validate(&self, output: &FormValue) -> (valid: bool) {
        walk(self, output)
    }

    closed spec fn message(&self) -> Seq<char> {
        self.message@
    }

    fn get_message(&self) -> (message: &str) {
        self.message.as_str()
    }
}

} // verus!
