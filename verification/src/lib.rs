//! A command registration and dispatch engine.
//!
//! A program declares named, typed, validated commands, publishes them to a
//! remote platform as a tree of grouped sub-commands of at most three
//! levels, and routes each incoming invocation back to the right handler
//! with its raw arguments decoded into typed values.

pub mod command;
pub mod command_handler;
pub mod dispatch;
pub mod errors;
pub mod names;
pub mod number;
pub mod parameter;
pub mod publish;
pub mod text;

pub use command::Command;
pub use command::CommandBuilder;
pub use command::HandlerId;
pub use command_handler::CommandHandler;
pub use dispatch::Argument;
pub use dispatch::Dispatch;
pub use dispatch::Invocation;
pub use dispatch::InvocationOption;
pub use dispatch::InvocationValue;
pub use errors::BuildError;
pub use errors::DecodeError;
pub use number::Number;
pub use parameter::BoundValue;
pub use parameter::Parameter;
pub use parameter::ParameterBuilder;
pub use parameter::ParameterChoice;
pub use parameter::ParameterChoiceType;
pub use parameter::ParameterType;
pub use publish::PublishChild;
pub use publish::PublishLeaf;
pub use publish::PublishNode;
pub use text::camel_to_snake_case;
