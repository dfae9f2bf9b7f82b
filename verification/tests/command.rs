use wab::BuildError;
use wab::Command;
use wab::CommandHandler;
use wab::HandlerId;
use wab::Parameter;
use wab::ParameterType;

fn parameter(name: &str) -> Parameter {
    Parameter::builder()
        .name(name)
        .description("a parameter")
        .kind(ParameterType::String)
        .build()
        .unwrap()
}

#[test]
fn build_flat_command() {
    let c = Command::builder()
        .name("ping")
        .description("answers with pong")
        .function(HandlerId(7))
        .build()
        .unwrap();
    assert_eq!(c.name(), "ping");
    assert_eq!(c.description(), "answers with pong");
    assert_eq!(c.function(), HandlerId(7));
    assert!(c.parameters().is_empty());
}

#[test]
fn parameters_keep_their_order() {
    let c = Command::builder()
        .name("greet")
        .description("greets")
        .parameter(parameter("first"))
        .parameter(parameter("second"))
        .parameter(parameter("third"))
        .function(HandlerId(1))
        .build()
        .unwrap();
    let names: Vec<&str> = c.parameters().iter().map(|p| p.name()).collect();
    assert_eq!(names, vec!["first", "second", "third"]);
}

#[test]
fn two_embedded_spaces_are_accepted() {
    assert!(Command::builder()
        .name("admin user ban")
        .description("d")
        .function(HandlerId(1))
        .build()
        .is_ok());
}

#[test]
fn three_embedded_spaces_are_rejected() {
    let r = Command::builder()
        .name("a b c d")
        .description("d")
        .function(HandlerId(1))
        .build();
    assert_eq!(r.unwrap_err(), BuildError::NameSegments);
}

#[test]
fn empty_command_name_is_rejected() {
    let r = Command::builder()
        .description("d")
        .function(HandlerId(1))
        .build();
    assert_eq!(r.unwrap_err(), BuildError::NameLength);
}

#[test]
fn empty_description_is_rejected() {
    let r = Command::builder()
        .name("ping")
        .function(HandlerId(1))
        .build();
    assert_eq!(r.unwrap_err(), BuildError::DescriptionLength);
}

#[test]
fn missing_handler_is_rejected() {
    let r = Command::builder().name("ping").description("d").build();
    assert_eq!(r.unwrap_err(), BuildError::MissingHandler);
}

#[test]
fn category_is_carried_without_validation() {
    assert!(Command::builder()
        .name("ping")
        .category("tools")
        .description("d")
        .function(HandlerId(1))
        .build()
        .is_ok());
}

fn command(name: &str, id: u64) -> Command {
    Command::builder()
        .name(name)
        .description("a command")
        .function(HandlerId(id))
        .build()
        .unwrap()
}

#[test]
fn registry_rejects_duplicate_full_names() {
    let r = CommandHandler::new(vec![
        command("ping", 1),
        command("pong", 2),
        command("ping", 3),
    ]);
    assert_eq!(r.unwrap_err(), BuildError::DuplicateName);
}

#[test]
fn registry_accepts_distinct_full_names() {
    let h = CommandHandler::new(vec![
        command("ping", 1),
        command("admin ban", 2),
        command("admin kick", 3),
    ])
    .unwrap();
    assert!(h.get(&String::from("ping")).is_some());
    assert!(h.get(&String::from("admin ban")).is_some());
    assert!(h.get(&String::from("admin")).is_none());
    assert!(h.get(&String::from("missing")).is_none());
}

#[test]
fn registry_lookup_returns_the_matching_command() {
    let h = CommandHandler::new(vec![command("ping", 1), command("echo", 2)]).unwrap();
    let c = h.get(&String::from("echo")).unwrap();
    assert_eq!(c.name(), "echo");
    assert_eq!(c.function(), HandlerId(2));
}

#[test]
fn empty_registry_is_accepted() {
    let h = CommandHandler::new(Vec::new()).unwrap();
    assert!(h.get(&String::from("anything")).is_none());
    assert!(h.create_application_commands().is_empty());
}
