use console_engine::forms::constraints::{
    AllOf, Alphabetic, Alphanumeric, AnyOf, Callback, CharactersCallback, FormConstraint, Integer,
    IsTrue, Not, NotBlank, Number,
};
use console_engine::forms::FormValue;
use std::collections::HashMap;

#[test]
fn not_blank() {
    let validator = NotBlank::new("should be not blank");

    assert!(!validator.validate(&FormValue::Nothing));
    assert!(!validator.validate(&FormValue::String(String::from(""))));
    assert!(validator.validate(&FormValue::String(String::from("hello, world!"))));

    let mut hm: HashMap<String, FormValue> = HashMap::new();
    assert!(!validator.validate(&FormValue::Fields(hm.clone())));
    hm.insert(String::from("1"), FormValue::Nothing);
    assert!(validator.validate(&FormValue::Fields(hm.clone())));
}

#[test]
fn is_true() {
    let validator = IsTrue::new("should be true");

    assert!(!validator.validate(&FormValue::Nothing));
    assert!(validator.validate(&FormValue::Boolean(true)));
    assert!(!validator.validate(&FormValue::Boolean(false)));
    assert!(!validator.validate(&FormValue::String(String::from(""))));
    assert!(!validator.validate(&FormValue::String(String::from("hello, world!"))));
    assert!(validator.validate(&FormValue::String(String::from("true"))));
    assert!(!validator.validate(&FormValue::String(String::from("false"))));
}

#[test]
fn callback() {
    let validator = Callback::new("should be String", &|x: &FormValue| {
        matches!(x, FormValue::String(_))
    });

    assert!(!validator.validate(&FormValue::Nothing));
    assert!(validator.validate(&FormValue::String(String::from("hello, world!"))));

    let mut hm: HashMap<String, FormValue> = HashMap::new();
    hm.insert(String::from("1"), FormValue::Nothing);
    assert!(!validator.validate(&FormValue::Fields(hm)));
}

#[test]
fn characters_callback() {
    let validator =
        CharactersCallback::new("should be alphabetic", &|x: char| x.is_alphabetic());

    assert!(!validator.validate(&FormValue::Nothing));
    assert!(validator.validate(&FormValue::String(String::from("Helloworld"))));
    assert!(!validator.validate(&FormValue::String(String::from("123"))));
    assert!(!validator.validate(&FormValue::String(String::from("Hello123"))));
    assert!(!validator.validate(&FormValue::String(String::from("hello, world!"))));

    let mut hm: HashMap<String, FormValue> = HashMap::new();
    hm.insert(String::from("1"), FormValue::Nothing);
    assert!(!validator.validate(&FormValue::Fields(hm)));
    let mut hm: HashMap<String, FormValue> = HashMap::new();
    hm.insert(
        String::from("2"),
        FormValue::String(String::from("Helloworld")),
    );
    assert!(validator.validate(&FormValue::Fields(hm)));
    let mut hm: HashMap<String, FormValue> = HashMap::new();
    hm.insert(String::from("3"), FormValue::String(String::from("123")));
    assert!(!validator.validate(&FormValue::Fields(hm)));
}

#[test]
fn not() {
    let validator = Not::new("Not blank", NotBlank::new("blank"));

    assert!(validator.validate(&FormValue::Nothing));
    assert!(validator.validate(&FormValue::String(String::from(""))));
    assert!(!validator.validate(&FormValue::String(String::from("hello, world!"))));

    let mut hm: HashMap<String, FormValue> = HashMap::new();
    assert!(validator.validate(&FormValue::Fields(hm.clone())));
    hm.insert(String::from("1"), FormValue::Nothing);
    assert!(!validator.validate(&FormValue::Fields(hm.clone())));
}

#[test]
fn any_of() {
    // the outputs needs to be either blank, or an integer
    let validator = AnyOf::new(
        "should be blank or a valid integer",
        vec![
            Not::new("Not blank", NotBlank::new("blank")),
            Integer::new("not integer"),
        ],
    );

    assert!(validator.validate(&FormValue::Nothing));
    assert!(validator.validate(&FormValue::String(String::from(""))));
    assert!(!validator.validate(&FormValue::String(String::from("hello, world!"))));
    assert!(validator.validate(&FormValue::String(String::from("734"))));

    let mut hm: HashMap<String, FormValue> = HashMap::new();
    assert!(validator.validate(&FormValue::Fields(hm.clone())));
    hm.insert(String::from("1"), FormValue::Nothing);
    assert!(validator.validate(&FormValue::Fields(hm.clone())));
}

#[test]
fn all_of() {
    // the outputs needs to be an alphanumeric string that correspond to an integer
    let validator = AllOf::new(
        "should be alphanumeric and a valid integer",
        vec![
            Alphanumeric::new("not alphanumeric"),
            Integer::new("not integer"),
        ],
    );

    // Alphanumeric fails a value that holds no text, and so does the whole
    assert!(!validator.validate(&FormValue::Nothing));
    assert!(!validator.validate(&FormValue::String(String::from(""))));
    assert!(!validator.validate(&FormValue::String(String::from("hello, world!"))));
    assert!(validator.validate(&FormValue::String(String::from("734"))));
    assert!(!validator.validate(&FormValue::String(String::from("!734"))));
}

#[test]
fn constraints_of_no_parts() {
    assert!(AllOf::new("nothing to hold", vec![]).validate(&FormValue::Nothing));
    assert!(!AnyOf::new("nothing to hold", vec![]).validate(&FormValue::Nothing));
    let boxed: Box<dyn FormConstraint> = NotBlank::new("blank");
    let negated = Not::new("not blank", boxed);
    assert!(negated.validate(&FormValue::Nothing));
    assert_eq!(negated.get_message(), "not blank");
}

#[test]
fn integer() {
    let validator = Integer::new("not integer");

    assert!(validator.validate(&FormValue::Nothing));
    assert!(!validator.validate(&FormValue::String(String::from("hello, world!"))));
    assert!(validator.validate(&FormValue::String(String::from("37"))));
    assert!(validator.validate(&FormValue::String(String::from("-35"))));
    assert!(!validator.validate(&FormValue::String(String::from("3.5"))));
    assert!(validator.validate(&FormValue::String(String::from(
        "9999999999999999999999999999999999999999999999999"
    ))));
    assert!(!validator.validate(&FormValue::String(String::from("3e-5"))));

    let mut hm: HashMap<String, FormValue> = HashMap::new();
    assert!(validator.validate(&FormValue::Fields(hm.clone())));
    hm.insert(String::from("1"), FormValue::Nothing);
    assert!(validator.validate(&FormValue::Fields(hm.clone())));
    hm.insert(String::from("2"), FormValue::String(String::from("37")));
    assert!(validator.validate(&FormValue::Fields(hm.clone())));
    hm.insert(String::from("3"), FormValue::String(String::from("-35")));
    assert!(validator.validate(&FormValue::Fields(hm.clone())));
    hm.insert(String::from("4"), FormValue::String(String::from("3.5")));
    assert!(!validator.validate(&FormValue::Fields(hm.clone())));
    hm.insert(String::from("5"), FormValue::String(String::from("-3.5")));
    assert!(!validator.validate(&FormValue::Fields(hm)));
}

#[test]
fn number() {
    let validator = Number::new("not number");

    assert!(validator.validate(&FormValue::Nothing));
    assert!(!validator.validate(&FormValue::String(String::from("hello, world!"))));
    assert!(validator.validate(&FormValue::String(String::from("37"))));
    assert!(validator.validate(&FormValue::String(String::from("-35"))));
    assert!(validator.validate(&FormValue::String(String::from("3.5"))));
    assert!(validator.validate(&FormValue::String(String::from("-3.5"))));
    assert!(validator.validate(&FormValue::String(String::from(
        "9999999999999999999999999999999999999999999999999"
    ))));
    assert!(validator.validate(&FormValue::String(String::from("3e-5"))));

    let mut hm: HashMap<String, FormValue> = HashMap::new();
    assert!(validator.validate(&FormValue::Fields(hm.clone())));
    hm.insert(String::from("1"), FormValue::Nothing);
    assert!(validator.validate(&FormValue::Fields(hm.clone())));
    hm.insert(String::from("2"), FormValue::String(String::from("37")));
    assert!(validator.validate(&FormValue::Fields(hm.clone())));
    hm.insert(String::from("3"), FormValue::String(String::from("-35")));
    assert!(validator.validate(&FormValue::Fields(hm.clone())));
    hm.insert(String::from("4"), FormValue::String(String::from("3.5")));
    assert!(validator.validate(&FormValue::Fields(hm.clone())));
    hm.insert(String::from("5"), FormValue::String(String::from("-3.5")));
    assert!(validator.validate(&FormValue::Fields(hm)));
}

#[test]
fn alphabetic() {
    let validator = Alphabetic::new("should be alphabetic");

    assert!(!validator.validate(&FormValue::Nothing));
    assert!(validator.validate(&FormValue::String(String::from("Helloworld"))));
    assert!(!validator.validate(&FormValue::String(String::from("123"))));
    assert!(!validator.validate(&FormValue::String(String::from("Hello123"))));
    assert!(!validator.validate(&FormValue::String(String::from("hello, world!"))));

    let mut hm: HashMap<String, FormValue> = HashMap::new();
    hm.insert(String::from("1"), FormValue::Nothing);
    assert!(!validator.validate(&FormValue::Fields(hm)));

    let mut hm: HashMap<String, FormValue> = HashMap::new();
    hm.insert(
        String::from("2"),
        FormValue::String(String::from("Helloworld")),
    );
    assert!(validator.validate(&FormValue::Fields(hm.clone())));
    hm.insert(String::from("3"), FormValue::String(String::from("123")));
    assert!(!validator.validate(&FormValue::Fields(hm.clone())));
}

#[test]
fn alphanumeric() {
    let validator = Alphanumeric::new("should be alphanumeric");

    assert!(!validator.validate(&FormValue::Nothing));
    assert!(validator.validate(&FormValue::String(String::from("Helloworld"))));
    assert!(validator.validate(&FormValue::String(String::from("123"))));
    assert!(validator.validate(&FormValue::String(String::from("Hello123"))));
    assert!(!validator.validate(&FormValue::String(String::from("hello, world!"))));

    let mut hm: HashMap<String, FormValue> = HashMap::new();
    hm.insert(String::from("1"), FormValue::Nothing);
    assert!(!validator.validate(&FormValue::Fields(hm)));

    let mut hm: HashMap<String, FormValue> = HashMap::new();
    hm.insert(
        String::from("2"),
        FormValue::String(String::from("Helloworld")),
    );
    assert!(validator.validate(&FormValue::Fields(hm.clone())));
    hm.insert(String::from("3"), FormValue::String(String::from("123")));
    assert!(validator.validate(&FormValue::Fields(hm.clone())));
    hm.insert(
        String::from("3"),
        FormValue::String(String::from("hello, world!")),
    );
    assert!(!validator.validate(&FormValue::Fields(hm.clone())));
}

#[test]
fn number_accepts_what_the_float_parser_accepts() {
    let validator = Number::new("not number");
    let cases = [
        "", "+", "-", ".", "1", "1.", ".1", "+.1", "-1.", "1.5", "1..5", "1.5.2", "1e5", "1E5",
        "1e", "1e+", "1e+5", "1e-5", "e5", ".e5", "1.e5", ".5e5", "1e5.0", "inf", "INF", "+inf",
        "-Infinity", "infinit", "nan", "NaN", "-nan", "nano", "0x10", "1_000", " 1", "1 ", "--1",
        "+-1", "1e٣", "١", "12345678901234567890", "1e99999",
    ];
    for text in cases {
        let expected = text.parse::<f32>().is_ok();
        assert_eq!(
            validator.validate(&FormValue::String(String::from(text))),
            expected,
            "{:?}",
            text
        );
    }
}

#[test]
fn integer_takes_a_lone_sign_and_leading_sign_only() {
    let validator = Integer::new("not integer");
    assert!(validator.validate(&FormValue::String(String::from("+"))));
    assert!(validator.validate(&FormValue::String(String::from("-"))));
    assert!(validator.validate(&FormValue::String(String::from("+42"))));
    assert!(!validator.validate(&FormValue::String(String::from("4-2"))));
    assert!(!validator.validate(&FormValue::String(String::from(""))));
    assert!(!validator.validate(&FormValue::String(String::from("١٢"))));
}

#[test]
fn constraints_walk_lists_and_nested_values() {
    let validator = IsTrue::new("should be true");
    assert!(validator.validate(&FormValue::List(vec![String::from("true"), String::from("true")])));
    assert!(!validator.validate(&FormValue::List(vec![String::from("true"), String::from("no")])));
    assert!(validator.validate(&FormValue::List(vec![])));
    assert!(validator.validate(&FormValue::Index(2)));
    assert!(!validator.validate(&FormValue::Index(0)));
    let nested = FormValue::Vec(vec![
        FormValue::Boolean(true),
        FormValue::Vec(vec![FormValue::String(String::from("true"))]),
    ]);
    assert!(validator.validate(&nested));
    let nested = FormValue::Vec(vec![FormValue::Boolean(true), FormValue::Nothing]);
    assert!(!validator.validate(&nested));
    assert_eq!(validator.get_message(), "should be true");
}

#[test]
fn form_value_default_and_clone() {
    assert!(matches!(FormValue::default(), FormValue::Nothing));
    let mut hm: HashMap<String, FormValue> = HashMap::new();
    hm.insert(String::from("a"), FormValue::Vec(vec![FormValue::Index(3)]));
    let copy = FormValue::Fields(hm).clone();
    match copy {
        FormValue::Fields(fields) => match fields.get("a") {
            Some(FormValue::Vec(values)) => {
                assert_eq!(values.len(), 1);
                assert!(matches!(values[0], FormValue::Index(3)));
            }
            _ => panic!("the field is lost"),
        },
        _ => panic!("the variant changed"),
    }
}
