use wab::BoundValue;
use wab::BuildError;
use wab::Number;
use wab::Parameter;
use wab::ParameterChoice;
use wab::ParameterChoiceType;
use wab::ParameterType;

fn num(x: f64) -> Number {
    Number::new(x.to_bits())
}

#[test]
fn build_minimal_parameter() {
    let p = Parameter::builder()
        .name("count")
        .description("how many")
        .kind(ParameterType::Integer)
        .build()
        .unwrap();
    assert_eq!(p.name(), "count");
    assert_eq!(p.description(), "how many");
    assert_eq!(*p.kind(), ParameterType::Integer);
    assert!(!*p.required());
    assert!(p.choices().is_empty());
    assert_eq!(*p.min_value_int(), None);
}

#[test]
fn build_full_parameter() {
    let p = Parameter::builder()
        .name("level")
        .description("the level")
        .kind(ParameterType::Integer)
        .required(true)
        .choice(ParameterChoice::new("low", ParameterChoiceType::Integer(1)))
        .choice(ParameterChoice::new("high", ParameterChoiceType::Integer(9)))
        .min_value_int(Some(1))
        .max_value_int(Some(9))
        .build()
        .unwrap();
    assert!(*p.required());
    assert_eq!(p.choices().len(), 2);
    assert_eq!(p.choices()[0].name(), "low");
    assert_eq!(*p.min_value_int(), Some(1));
    assert_eq!(*p.max_value_int(), Some(9));
}

#[test]
fn empty_name_is_rejected() {
    let r = Parameter::builder()
        .description("d")
        .kind(ParameterType::String)
        .build();
    assert_eq!(r.unwrap_err(), BuildError::NameLength);
}

#[test]
fn name_of_32_characters_is_accepted_33_rejected() {
    let name32 = "a".repeat(32);
    assert!(Parameter::builder()
        .name(&name32)
        .description("d")
        .kind(ParameterType::String)
        .build()
        .is_ok());
    let name33 = "a".repeat(33);
    let r = Parameter::builder()
        .name(&name33)
        .description("d")
        .kind(ParameterType::String)
        .build();
    assert_eq!(r.unwrap_err(), BuildError::NameLength);
}

#[test]
fn description_of_100_characters_is_accepted_101_rejected() {
    let d100 = "x".repeat(100);
    assert!(Parameter::builder()
        .name("n")
        .description(&d100)
        .kind(ParameterType::String)
        .build()
        .is_ok());
    let d101 = "x".repeat(101);
    let r = Parameter::builder()
        .name("n")
        .description(&d101)
        .kind(ParameterType::String)
        .build();
    assert_eq!(r.unwrap_err(), BuildError::DescriptionLength);
}

#[test]
fn missing_kind_is_rejected() {
    let r = Parameter::builder().name("n").description("d").build();
    assert_eq!(r.unwrap_err(), BuildError::MissingKind);
}

#[test]
fn integer_bounds_out_of_order_are_rejected() {
    let r = Parameter::builder()
        .name("n")
        .description("d")
        .kind(ParameterType::Integer)
        .min_value_int(Some(10))
        .max_value_int(Some(3))
        .build();
    assert_eq!(r.unwrap_err(), BuildError::IntegerBoundsOrder);
}

#[test]
fn equal_integer_bounds_are_accepted() {
    assert!(Parameter::builder()
        .name("n")
        .description("d")
        .kind(ParameterType::Integer)
        .min_value_int(Some(5))
        .max_value_int(Some(5))
        .build()
        .is_ok());
}

#[test]
fn number_bounds_out_of_order_are_rejected() {
    let r = Parameter::builder()
        .name("n")
        .description("d")
        .kind(ParameterType::Float)
        .min_value_number(Some(num(5.0)))
        .max_value_number(Some(num(-1.02)))
        .build();
    assert_eq!(r.unwrap_err(), BuildError::NumberBoundsOrder);
}

#[test]
fn ordered_number_bounds_are_accepted() {
    assert!(Parameter::builder()
        .name("n")
        .description("d")
        .kind(ParameterType::Float)
        .min_value_number(Some(num(-1.02)))
        .max_value_number(Some(num(5.0)))
        .build()
        .is_ok());
}

#[test]
fn length_bound_above_6000_is_rejected() {
    let r = Parameter::builder()
        .name("n")
        .description("d")
        .kind(ParameterType::String)
        .min_length(Some(6001))
        .build();
    assert_eq!(r.unwrap_err(), BuildError::LengthBoundRange);
}

#[test]
fn negative_length_bound_is_rejected() {
    let r = Parameter::builder()
        .name("n")
        .description("d")
        .kind(ParameterType::String)
        .max_length(Some(-1))
        .build();
    assert_eq!(r.unwrap_err(), BuildError::LengthBoundRange);
}

#[test]
fn length_bound_of_6000_is_accepted() {
    assert!(Parameter::builder()
        .name("n")
        .description("d")
        .kind(ParameterType::String)
        .min_length(Some(0))
        .max_length(Some(6000))
        .build()
        .is_ok());
}

#[test]
fn length_bounds_out_of_order_are_rejected() {
    let r = Parameter::builder()
        .name("n")
        .description("d")
        .kind(ParameterType::String)
        .min_length(Some(40))
        .max_length(Some(2))
        .build();
    assert_eq!(r.unwrap_err(), BuildError::LengthBoundsOrder);
}

#[test]
fn twenty_five_choices_are_accepted_twenty_six_rejected() {
    let mut ok = Parameter::builder()
        .name("n")
        .description("d")
        .kind(ParameterType::Integer);
    for i in 0..25 {
        ok = ok.choice(ParameterChoice::new("c", ParameterChoiceType::Integer(i)));
    }
    assert!(ok.build().is_ok());

    let mut bad = Parameter::builder()
        .name("n")
        .description("d")
        .kind(ParameterType::Integer);
    for i in 0..26 {
        bad = bad.choice(ParameterChoice::new("c", ParameterChoiceType::Integer(i)));
    }
    assert_eq!(bad.build().unwrap_err(), BuildError::ChoiceCount);
}

#[test]
fn choice_type_mismatch_is_rejected() {
    let r = Parameter::builder()
        .name("n")
        .description("d")
        .kind(ParameterType::Integer)
        .choice(ParameterChoice::new("c", ParameterChoiceType::String(String::from("v"))))
        .build();
    assert_eq!(r.unwrap_err(), BuildError::ChoiceTypeMismatch);
}

#[test]
fn any_choice_on_boolean_parameter_is_rejected() {
    let r = Parameter::builder()
        .name("n")
        .description("d")
        .kind(ParameterType::Boolean)
        .choice(ParameterChoice::new("c", ParameterChoiceType::Integer(1)))
        .build();
    assert_eq!(r.unwrap_err(), BuildError::ChoiceTypeMismatch);
}

#[test]
fn bound_on_mismatched_kind_is_rejected() {
    let r = Parameter::builder()
        .name("n")
        .description("d")
        .kind(ParameterType::String)
        .min_value_int(Some(1))
        .build();
    assert_eq!(r.unwrap_err(), BuildError::BoundKindMismatch);

    let r = Parameter::builder()
        .name("n")
        .description("d")
        .kind(ParameterType::Integer)
        .max_length(Some(10))
        .build();
    assert_eq!(r.unwrap_err(), BuildError::BoundKindMismatch);

    let r = Parameter::builder()
        .name("n")
        .description("d")
        .kind(ParameterType::Integer)
        .min_value_number(Some(num(1.0)))
        .build();
    assert_eq!(r.unwrap_err(), BuildError::BoundKindMismatch);
}

#[test]
fn value_bound_helpers_prefer_the_integer_bound() {
    let p = Parameter::builder()
        .name("n")
        .description("d")
        .kind(ParameterType::Integer)
        .min_value_int(Some(2))
        .max_value_int(Some(8))
        .build()
        .unwrap();
    assert_eq!(p.min_value(), Some(BoundValue::Integer(2)));
    assert_eq!(p.max_value(), Some(BoundValue::Integer(8)));

    let q = Parameter::builder()
        .name("n")
        .description("d")
        .kind(ParameterType::Float)
        .max_value_number(Some(num(5.0)))
        .build()
        .unwrap();
    assert_eq!(q.min_value(), None);
    assert_eq!(q.max_value(), Some(BoundValue::Number(num(5.0))));
}

#[test]
fn choices_keep_name_and_value() {
    let c = ParameterChoice::new("low", ParameterChoiceType::Integer(1));
    assert_eq!(c.name(), "low");
    match c.value() {
        ParameterChoiceType::Integer(v) => assert_eq!(*v, 1),
        other => panic!("expected an integer choice, got {other:?}"),
    }
}

#[test]
fn setter_order_does_not_matter() {
    let a = Parameter::builder()
        .name("n")
        .kind(ParameterType::Integer)
        .description("d")
        .min_value_int(Some(1))
        .build()
        .unwrap();
    let b = Parameter::builder()
        .min_value_int(Some(1))
        .description("d")
        .kind(ParameterType::Integer)
        .name("n")
        .build()
        .unwrap();
    assert_eq!(a.name(), b.name());
    assert_eq!(a.description(), b.description());
    assert_eq!(*a.min_value_int(), *b.min_value_int());
}
