use wab::Command;
use wab::CommandHandler;
use wab::HandlerId;
use wab::Parameter;
use wab::ParameterType;
use wab::PublishChild;
use wab::PublishNode;

fn command(name: &str, id: u64) -> Command {
    Command::builder()
        .name(name)
        .description(&format!("about {name}"))
        .function(HandlerId(id))
        .build()
        .unwrap()
}

#[test]
fn single_flat_name_publishes_one_leaf() {
    let h = CommandHandler::new(vec![command("ping", 1)]).unwrap();
    let out = h.create_application_commands();
    assert_eq!(out.len(), 1);
    match &out[0] {
        PublishNode::Command(leaf) => {
            assert_eq!(leaf.name, "ping");
            assert_eq!(leaf.description, "about ping");
            assert!(leaf.parameters.is_empty());
        }
        PublishNode::Group { .. } => panic!("expected a flat command node"),
    }
}

#[test]
fn two_level_names_publish_one_group_of_leaves() {
    let h = CommandHandler::new(vec![command("admin ban", 1), command("admin kick", 2)]).unwrap();
    let out = h.create_application_commands();
    assert_eq!(out.len(), 1);
    match &out[0] {
        PublishNode::Group { name, children } => {
            assert_eq!(name, "admin");
            let mut leaf_names: Vec<String> = children
                .iter()
                .map(|c| match c {
                    PublishChild::Command(leaf) => leaf.name.clone(),
                    PublishChild::Group { .. } => panic!("expected sub-command leaves"),
                })
                .collect();
            leaf_names.sort();
            assert_eq!(leaf_names, vec!["ban", "kick"]);
        }
        PublishNode::Command(_) => panic!("expected a group node"),
    }
}

#[test]
fn three_level_names_publish_group_then_subgroup_then_leaves() {
    let h = CommandHandler::new(vec![
        command("admin user ban", 1),
        command("admin user kick", 2),
    ])
    .unwrap();
    let out = h.create_application_commands();
    assert_eq!(out.len(), 1);
    match &out[0] {
        PublishNode::Group { name, children } => {
            assert_eq!(name, "admin");
            assert_eq!(children.len(), 1);
            match &children[0] {
                PublishChild::Group { name, leaves } => {
                    assert_eq!(name, "user");
                    let mut leaf_names: Vec<String> =
                        leaves.iter().map(|l| l.name.clone()).collect();
                    leaf_names.sort();
                    assert_eq!(leaf_names, vec!["ban", "kick"]);
                    for l in leaves {
                        assert!(l.description.starts_with("about admin user"));
                    }
                }
                PublishChild::Command(_) => panic!("expected a sub-command group"),
            }
        }
        PublishNode::Command(_) => panic!("expected a group node"),
    }
}

#[test]
fn registered_root_wins_over_deeper_names() {
    // "a" itself is registered, so its node is the flat command; the
    // deeper names under it do not change that root's shape.
    let h = CommandHandler::new(vec![
        command("a", 1),
        command("x y", 2),
    ])
    .unwrap();
    let out = h.create_application_commands();
    assert_eq!(out.len(), 2);
    let mut flat = 0;
    let mut groups = 0;
    for node in &out {
        match node {
            PublishNode::Command(leaf) => {
                assert_eq!(leaf.name, "a");
                flat += 1;
            }
            PublishNode::Group { name, children } => {
                assert_eq!(name, "x");
                assert_eq!(children.len(), 1);
                match &children[0] {
                    PublishChild::Command(leaf) => assert_eq!(leaf.name, "y"),
                    PublishChild::Group { .. } => panic!("expected a sub-command leaf"),
                }
                groups += 1;
            }
        }
    }
    assert_eq!((flat, groups), (1, 1));
}

#[test]
fn deeper_names_under_a_registered_root_are_not_published() {
    // With "a" itself registered, its root node is the flat command, so
    // "a b" and "a b c" get no node of their own; "x y" still publishes
    // as a group with one leaf.
    let h = CommandHandler::new(vec![
        command("a", 1),
        command("a b", 2),
        command("a b c", 3),
        command("x y", 4),
    ])
    .unwrap();
    let out = h.create_application_commands();
    assert_eq!(out.len(), 2);
    for node in &out {
        match node {
            PublishNode::Command(leaf) => assert_eq!(leaf.name, "a"),
            PublishNode::Group { name, children } => {
                assert_eq!(name, "x");
                assert_eq!(children.len(), 1);
                match &children[0] {
                    PublishChild::Command(leaf) => assert_eq!(leaf.name, "y"),
                    PublishChild::Group { .. } => panic!("expected a sub-command leaf"),
                }
            }
        }
    }
}

#[test]
fn leaf_nodes_carry_the_parameters_in_order() {
    let p1 = Parameter::builder()
        .name("who")
        .description("whom to ban")
        .kind(ParameterType::String)
        .required(true)
        .build()
        .unwrap();
    let p2 = Parameter::builder()
        .name("days")
        .description("for how long")
        .kind(ParameterType::Integer)
        .build()
        .unwrap();
    let c = Command::builder()
        .name("ban")
        .description("bans")
        .parameter(p1)
        .parameter(p2)
        .function(HandlerId(1))
        .build()
        .unwrap();
    let h = CommandHandler::new(vec![c]).unwrap();
    let out = h.create_application_commands();
    match &out[0] {
        PublishNode::Command(leaf) => {
            assert_eq!(leaf.parameters.len(), 2);
            assert_eq!(leaf.parameters[0].name(), "who");
            assert!(*leaf.parameters[0].required());
            assert_eq!(leaf.parameters[1].name(), "days");
            assert_eq!(*leaf.parameters[1].kind(), ParameterType::Integer);
        }
        PublishNode::Group { .. } => panic!("expected a flat command node"),
    }
}

#[test]
fn mixed_depths_under_one_root() {
    // "tool info" is itself registered while "tool box fix" goes deeper:
    // the root group holds one sub-command leaf and one sub-command group.
    let h = CommandHandler::new(vec![
        command("tool info", 1),
        command("tool box fix", 2),
    ])
    .unwrap();
    let out = h.create_application_commands();
    assert_eq!(out.len(), 1);
    match &out[0] {
        PublishNode::Group { name, children } => {
            assert_eq!(name, "tool");
            assert_eq!(children.len(), 2);
            let mut saw_leaf = false;
            let mut saw_group = false;
            for c in children {
                match c {
                    PublishChild::Command(leaf) => {
                        assert_eq!(leaf.name, "info");
                        saw_leaf = true;
                    }
                    PublishChild::Group { name, leaves } => {
                        assert_eq!(name, "box");
                        assert_eq!(leaves.len(), 1);
                        assert_eq!(leaves[0].name, "fix");
                        saw_group = true;
                    }
                }
            }
            assert!(saw_leaf && saw_group);
        }
        PublishNode::Command(_) => panic!("expected a group node"),
    }
}
