use wab::camel_to_snake_case;
use wab::Number;

#[test]
fn camel_case_identifier_becomes_snake_case() {
    assert_eq!(camel_to_snake_case("CmdGroup"), "cmd_group");
    assert_eq!(camel_to_snake_case("MyLongTypeName"), "my_long_type_name");
}

#[test]
fn leading_upper_case_letter_gets_no_underscore() {
    assert_eq!(camel_to_snake_case("Abc"), "abc");
    assert_eq!(camel_to_snake_case("A"), "a");
}

#[test]
fn lower_case_and_digits_pass_through() {
    assert_eq!(camel_to_snake_case("already_snake"), "already_snake");
    assert_eq!(camel_to_snake_case("v2Version"), "v2_version");
    assert_eq!(camel_to_snake_case(""), "");
}

#[test]
fn number_ordering_matches_the_float_ordering_on_ordinary_values() {
    let samples = [
        -1.02f64, -0.5, 0.0, 0.25, 1.0, 1.5, 5.0, 6000.0, f64::MIN, f64::MAX,
    ];
    for &a in &samples {
        for &b in &samples {
            let na = Number::new(a.to_bits());
            let nb = Number::new(b.to_bits());
            assert_eq!(na.le(&nb), a <= b, "ordering mismatch for {a} and {b}");
        }
    }
}

#[test]
fn number_carries_its_encoding_unchanged() {
    let x = 3.25f64;
    let n = Number::new(x.to_bits());
    assert_eq!(f64::from_bits(n.bits), x);
}
