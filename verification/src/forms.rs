//! Values that form fields give, and constraints to validate them with.

use vstd::prelude::*;
use std::collections::HashMap;

pub mod constraints;

verus! {

broadcast use {
    vstd::std_specs::vec::axiom_vec_index_decreases,
    vstd::std_specs::vec::axiom_vec_decreases_to_view,
    vstd::std_specs::hash::axiom_hashmap_decreases,
    vstd::std_specs::hash::axiom_hashmap_view_finite_dom,
    vstd::map::axiom_map_index_decreases_finite,
};

/// What a form field gives.
#[derive(Debug)]
pub enum FormValue {
    /// No value.
    Nothing,
    /// A switch.
    Boolean(bool),
    /// The number of a choice.
    Index(usize),
    /// A text.
    String(String),
    /// Several texts.
    List(Vec<String>),
    /// Several values.
    Vec(Vec<FormValue>),
    /// Values by the name of their field.
    Fields(HashMap<String, FormValue>),
}

/// `HashMap::iter` of std, gathered into a list: the entries of the map, in the
/// order in which the map hands them out. The contract says that each entry
/// handed out is a key of the map with its value, and that each key of the map
/// is handed out; it says nothing of the order. vstd says as much of `iter`
/// only for keys that obey its model of keys, and does not say that texts obey
/// it. This contract is not proved from vstd: it says of maps with texts as keys
/// what the documentation of std says of every map.
#[verifier::external_body]
pub(crate) fn field_entries(fields: &HashMap<String, FormValue>) -> (entries: Vec<
    (&String, &FormValue),
>)
    ensures
        forall|i: int|
            0 <= i < entries@.len() ==> fields@.contains_key(*(#[trigger] entries@[i]).0)
                && fields@[*entries@[i].0] == *entries@[i].1,
        forall|k: String|
            #[trigger] fields@.contains_key(k) ==> exists|i: int|
                0 <= i < entries@.len() && *(#[trigger] entries@[i]).0 == k,
{
    fields.iter().collect()
}

/// `HashMap::insert` of std on a map with texts as keys: the map holds `value`
/// under `name` afterwards, and under every other name what it held before.
/// vstd says as much of `insert` only for keys that obey its model of keys, and
/// does not say that texts obey it. This contract is not proved from vstd: it
/// says of maps with texts as keys what the documentation of std says of every
/// map.
#[verifier::external_body]
fn insert_field(fields: &mut HashMap<String, FormValue>, name: String, value: FormValue)
    ensures
        final(fields)@ == old(fields)@.insert(name, value),
{
    fields.insert(name, value);
}

impl FormValue {
    /// Whether `other` is the same value as this one: of the same kind, with the
    /// same switch, number or text, the same texts in the same order, the same
    /// values in the same order, or the same values under the same names.
    pub open spec fn same_as(&self, other: &FormValue) -> bool
        decreases self,
    {
        match self {
            FormValue::Nothing => other is Nothing,
            FormValue::Boolean(on) => other is Boolean && other->Boolean_0 == *on,
            FormValue::Index(choice) => other is Index && other->Index_0 == *choice,
            FormValue::String(text) => other is String && other->String_0@ == text@,
            FormValue::List(entries) => {
                &&& other is List
                &&& other->List_0@.len() == entries@.len()
                &&& forall|i: int|
                    0 <= i < entries@.len() ==> (#[trigger] other->List_0@[i])@ == entries@[i]@
            },
            FormValue::Vec(values) => {
                &&& other is Vec
                &&& other->Vec_0@.len() == values@.len()
                &&& forall|i: int|
                    0 <= i < values@.len() ==> (#[trigger] values@[i]).same_as(&other->Vec_0@[i])
            },
            FormValue::Fields(fields) => {
                &&& other is Fields
                &&& other->Fields_0@.dom() == fields@.dom()
                &&& forall|k: String|
                    fields@.contains_key(k) ==> (#[trigger] fields@[k]).same_as(
                        &other->Fields_0@[k],
                    )
            },
        }
    }

    /// A copy of this value, made part by part.
    fn copy(&self) -> (copy: FormValue)
        ensures
            self.same_as(&copy),
        decreases self,
    {
        match self {
            FormValue::Nothing => FormValue::Nothing,
            FormValue::Boolean(on) => FormValue::Boolean(*on),
            FormValue::Index(choice) => FormValue::Index(*choice),
            FormValue::String(text) => FormValue::String(text.clone()),
            FormValue::List(entries) => {
                let copies = entries.clone();
                proof {
                    assert forall|i: int| 0 <= i < entries@.len() implies (#[trigger] copies@[i])@
                        == entries@[i]@ by {
                        assert(cloned::<String>(entries@[i], copies@[i]));
                    }
                }
                FormValue::List(copies)
            },
            FormValue::Vec(values) => {
                let mut copies: Vec<FormValue> = Vec::new();
                let mut i: usize = 0;
                while i < values.len()
                    invariant
                        i <= values@.len(),
                        decreases_to!(self => values),
                        copies@.len() == i,
                        forall|j: int|
                            0 <= j < i ==> (#[trigger] values@[j]).same_as(&copies@[j]),
                    decreases values@.len() - i,
                {
                    proof {
                        assert(decreases_to!(values => values[i as int]));
                    }
                    let part = values[i].copy();
                    copies.push(part);
                    i += 1;
                }
                FormValue::Vec(copies)
            },
            FormValue::Fields(fields) => {
                let entries = field_entries(fields);
                let mut copies: HashMap<String, FormValue> = HashMap::new();
                let mut i: usize = 0;
                while i < entries.len()
                    invariant
                        i <= entries@.len(),
                        decreases_to!(self => fields),
                        forall|j: int|
                            0 <= j < entries@.len() ==> fields@.contains_key(
                                *(#[trigger] entries@[j]).0,
                            ) && fields@[*entries@[j].0] == *entries@[j].1,
                        forall|k: String|
                            #[trigger] copies@.contains_key(k) ==> fields@.contains_key(k)
                                && fields@[k].same_as(&copies@[k]),
                        forall|j: int|
                            0 <= j < i ==> copies@.contains_key(*(#[trigger] entries@[j]).0),
                    decreases entries@.len() - i,
                {
                    let entry = entries[i];
                    proof {
                        assert(decreases_to!(fields => fields@));
                        assert(fields@.dom().finite());
                        assert(decreases_to!(fields@ => fields@[*entries@[i as int].0]));
                    }
                    let name = entry.0.clone();
                    let part = entry.1.copy();
                    insert_field(&mut copies, name, part);
                    i += 1;
                }
                proof {
                    assert forall|k: String| fields@.contains_key(k) implies copies@.contains_key(
                        k,
                    ) by {
                        let j = choose|j: int|
                            0 <= j < entries@.len() && *(#[trigger] entries@[j]).0 == k;
                        assert(copies@.contains_key(*entries@[j].0));
                    }
                    assert(copies@.dom() =~= fields@.dom());
                }
                FormValue::Fields(copies)
            },
        }
    }
}

impl Clone for FormValue {
    fn clone(&self) -> (copy: Self)
        ensures
            self.same_as(&copy),
    {
        self.copy()
    }
}

impl Default for FormValue {
    fn default() -> (value: Self)
        ensures
            value is Nothing,
    {
        FormValue::Nothing
    }
}

} // verus!
