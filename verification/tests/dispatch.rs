use wab::Argument;
use wab::Command;
use wab::CommandHandler;
use wab::DecodeError;
use wab::Dispatch;
use wab::HandlerId;
use wab::Invocation;
use wab::InvocationOption;
use wab::InvocationValue;
use wab::Number;
use wab::Parameter;
use wab::ParameterType;

fn command(name: &str, id: u64, parameters: Vec<Parameter>) -> Command {
    Command::builder()
        .name(name)
        .description("a command")
        .parameters(parameters)
        .function(HandlerId(id))
        .build()
        .unwrap()
}

fn parameter(name: &str, kind: ParameterType, required: bool) -> Parameter {
    Parameter::builder()
        .name(name)
        .description("a parameter")
        .kind(kind)
        .required(required)
        .build()
        .unwrap()
}

fn option(name: &str, value: InvocationValue) -> InvocationOption {
    InvocationOption { name: String::from(name), value }
}

fn invocation(name: &str, options: Vec<InvocationOption>) -> Invocation {
    Invocation { name: String::from(name), options }
}

#[test]
fn nested_chain_resolves_to_the_three_level_command() {
    let h = CommandHandler::new(vec![command("admin user ban", 9, Vec::new())]).unwrap();
    let inv = invocation(
        "admin",
        vec![option(
            "user",
            InvocationValue::SubCommandGroup(vec![option(
                "ban",
                InvocationValue::SubCommand(Vec::new()),
            )]),
        )],
    );
    match h.dispatch(&inv) {
        Dispatch::Invoke { name, handler, arguments } => {
            assert_eq!(name, "admin user ban");
            assert_eq!(handler, HandlerId(9));
            assert!(arguments.is_empty());
        }
        other => panic!("expected an invocation, got {other:?}"),
    }
}

#[test]
fn two_sibling_leaf_options_stop_the_chain_at_the_root() {
    // Two sibling options are not a single nested selector, so the chain
    // stops at "admin", which is not registered on its own.
    let h = CommandHandler::new(vec![command("admin user ban", 9, Vec::new())]).unwrap();
    let inv = invocation(
        "admin",
        vec![
            option("x", InvocationValue::Integer(1)),
            option("y", InvocationValue::Integer(2)),
        ],
    );
    match h.dispatch(&inv) {
        Dispatch::NotFound { name } => assert_eq!(name, "admin"),
        other => panic!("expected a silent no-op, got {other:?}"),
    }
}

#[test]
fn unknown_root_invokes_no_handler() {
    let h = CommandHandler::new(vec![command("ping", 1, Vec::new())]).unwrap();
    let mut invoked = 0;
    for _ in 0..3 {
        match h.dispatch(&invocation("pong", Vec::new())) {
            Dispatch::Invoke { .. } => invoked += 1,
            Dispatch::NotFound { ref name } => assert_eq!(name, "pong"),
            other => panic!("expected a silent no-op, got {other:?}"),
        }
    }
    assert_eq!(invoked, 0);
}

#[test]
fn arguments_are_decoded_by_declared_type() {
    let params = vec![
        parameter("who", ParameterType::String, true),
        parameter("count", ParameterType::Integer, true),
        parameter("loud", ParameterType::Boolean, true),
        parameter("rate", ParameterType::Float, true),
    ];
    let h = CommandHandler::new(vec![command("shout", 4, params)]).unwrap();
    let inv = invocation(
        "shout",
        vec![
            option("who", InvocationValue::String(String::from("world"))),
            option("count", InvocationValue::Integer(3)),
            option("loud", InvocationValue::Boolean(true)),
            option("rate", InvocationValue::Number(Number::new(1.5f64.to_bits()))),
        ],
    );
    match h.dispatch(&inv) {
        Dispatch::Invoke { arguments, .. } => {
            assert_eq!(arguments.len(), 4);
            assert_eq!(arguments[0].0, "who");
            assert_eq!(arguments[0].1, Some(Argument::String(String::from("world"))));
            assert_eq!(arguments[1].1, Some(Argument::Integer(3)));
            assert_eq!(arguments[2].1, Some(Argument::Boolean(true)));
            assert_eq!(
                arguments[3].1,
                Some(Argument::Float(Number::new(1.5f64.to_bits())))
            );
        }
        other => panic!("expected an invocation, got {other:?}"),
    }
}

#[test]
fn required_parameter_missing_fails_before_any_handler() {
    let params = vec![parameter("who", ParameterType::String, true)];
    let h = CommandHandler::new(vec![command("greet", 2, params)]).unwrap();
    let inv = invocation("greet", Vec::new());
    match h.dispatch(&inv) {
        Dispatch::Failed { name, error } => {
            assert_eq!(name, "greet");
            assert_eq!(error, DecodeError::RequiredParameterMissing);
        }
        other => panic!("expected a decoding failure, got {other:?}"),
    }
}

#[test]
fn absent_optional_parameter_decodes_to_the_explicit_absent_value() {
    let params = vec![parameter("who", ParameterType::String, false)];
    let h = CommandHandler::new(vec![command("greet", 2, params)]).unwrap();
    match h.dispatch(&invocation("greet", Vec::new())) {
        Dispatch::Invoke { arguments, .. } => {
            assert_eq!(arguments.len(), 1);
            assert_eq!(arguments[0].0, "who");
            assert_eq!(arguments[0].1, None);
        }
        other => panic!("expected an invocation, got {other:?}"),
    }
}

#[test]
fn type_mismatch_fails_the_invocation() {
    let params = vec![parameter("count", ParameterType::Integer, true)];
    let h = CommandHandler::new(vec![command("rep", 3, params)]).unwrap();
    let inv = invocation(
        "rep",
        vec![option("count", InvocationValue::String(String::from("three")))],
    );
    match h.dispatch(&inv) {
        Dispatch::Failed { error, .. } => assert_eq!(error, DecodeError::ParameterTypeMismatch),
        other => panic!("expected a decoding failure, got {other:?}"),
    }
}

#[test]
fn unsupported_raw_tag_fails_the_invocation() {
    let params = vec![parameter("who", ParameterType::String, false)];
    let h = CommandHandler::new(vec![command("greet", 2, params)]).unwrap();
    let inv = invocation("greet", vec![option("who", InvocationValue::Unsupported)]);
    match h.dispatch(&inv) {
        Dispatch::Failed { error, .. } => assert_eq!(error, DecodeError::UnsupportedValue),
        other => panic!("expected a decoding failure, got {other:?}"),
    }
}

#[test]
fn extra_arguments_do_not_disturb_the_declared_ones() {
    let params = vec![parameter("who", ParameterType::String, true)];
    let h = CommandHandler::new(vec![command("greet", 2, params)]).unwrap();
    let inv = invocation(
        "greet",
        vec![
            option("other", InvocationValue::Integer(1)),
            option("who", InvocationValue::String(String::from("you"))),
        ],
    );
    match h.dispatch(&inv) {
        Dispatch::Invoke { arguments, .. } => {
            assert_eq!(arguments.len(), 1);
            assert_eq!(arguments[0].1, Some(Argument::String(String::from("you"))));
        }
        other => panic!("expected an invocation, got {other:?}"),
    }
}

#[test]
fn resolving_the_same_invocation_twice_gives_the_same_outcome() {
    let params = vec![
        parameter("who", ParameterType::String, true),
        parameter("days", ParameterType::Integer, false),
    ];
    let h = CommandHandler::new(vec![command("admin user ban", 9, params)]).unwrap();
    let make = || {
        invocation(
            "admin",
            vec![option(
                "user",
                InvocationValue::SubCommandGroup(vec![option(
                    "ban",
                    InvocationValue::SubCommand(vec![option(
                        "who",
                        InvocationValue::String(String::from("them")),
                    )]),
                )]),
            )],
        )
    };
    let first = h.dispatch(&make());
    let second = h.dispatch(&make());
    assert_eq!(first, second);
    match first {
        Dispatch::Invoke { name, handler, arguments } => {
            assert_eq!(name, "admin user ban");
            assert_eq!(handler, HandlerId(9));
            assert_eq!(arguments.len(), 2);
            assert_eq!(arguments[0].1, Some(Argument::String(String::from("them"))));
            assert_eq!(arguments[1].1, None);
        }
        other => panic!("expected an invocation, got {other:?}"),
    }
}

#[test]
fn deeper_names_remain_reachable_even_when_their_root_is_registered() {
    let h = CommandHandler::new(vec![
        command("a", 1, Vec::new()),
        command("a b c", 3, Vec::new()),
    ])
    .unwrap();
    let inv = invocation(
        "a",
        vec![option(
            "b",
            InvocationValue::SubCommandGroup(vec![option(
                "c",
                InvocationValue::SubCommand(Vec::new()),
            )]),
        )],
    );
    match h.dispatch(&inv) {
        Dispatch::Invoke { name, handler, .. } => {
            assert_eq!(name, "a b c");
            assert_eq!(handler, HandlerId(3));
        }
        other => panic!("expected an invocation, got {other:?}"),
    }
}

#[test]
fn later_binding_for_the_same_name_wins() {
    let params = vec![parameter("who", ParameterType::String, true)];
    let h = CommandHandler::new(vec![command("greet", 2, params)]).unwrap();
    let inv = invocation(
        "greet",
        vec![
            option("who", InvocationValue::String(String::from("first"))),
            option("who", InvocationValue::String(String::from("second"))),
        ],
    );
    match h.dispatch(&inv) {
        Dispatch::Invoke { arguments, .. } => {
            assert_eq!(arguments[0].1, Some(Argument::String(String::from("second"))));
        }
        other => panic!("expected an invocation, got {other:?}"),
    }
}

#[test]
fn one_leaf_scalar_option_is_not_a_selector() {
    // A single option whose value is a scalar stops the chain at once.
    let params = vec![parameter("who", ParameterType::String, true)];
    let h = CommandHandler::new(vec![command("greet", 2, params)]).unwrap();
    let inv = invocation(
        "greet",
        vec![option("who", InvocationValue::String(String::from("me")))],
    );
    match h.dispatch(&inv) {
        Dispatch::Invoke { name, .. } => assert_eq!(name, "greet"),
        other => panic!("expected an invocation, got {other:?}"),
    }
}
