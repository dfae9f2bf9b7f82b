use vstd::prelude::*;

verus! {

/// A configuration error raised while building a `Parameter`, a `Command`
/// or a `CommandHandler`. Each variant names the constraint that failed, so
/// that a rejected declaration can be traced to its cause at startup.
#[derive(Clone, Copy, Debug, PartialEq, Eq, Structural)]
pub enum BuildError {
    /// A name was empty or longer than 32 characters.
    NameLength,
    /// A description was empty or longer than 100 characters.
    DescriptionLength,
    /// A command name embedded more than two spaces, so it would encode
    /// more than three hierarchy levels.
    NameSegments,
    /// A length bound lay outside the range 0 ..= 6000.
    LengthBoundRange,
    /// Both integer bounds were set and the minimum exceeded the maximum.
    IntegerBoundsOrder,
    /// Both number bounds were set and the minimum exceeded the maximum.
    NumberBoundsOrder,
    /// Both length bounds were set and the minimum exceeded the maximum.
    LengthBoundsOrder,
    /// More than 25 choices were attached to one parameter.
    ChoiceCount,
    /// A choice's value did not match the parameter's declared type.
    ChoiceTypeMismatch,
    /// A bound was set on a parameter whose declared type cannot carry it.
    BoundKindMismatch,
    /// No parameter type was declared before building.
    MissingKind,
    /// No handler was supplied before building a command.
    MissingHandler,
    /// Two commands shared an identical full name.
    DuplicateName,
}

/// A per-invocation error raised while decoding leaf arguments against the
/// matched command's parameters. It fails the single invocation and nothing
/// else.
#[derive(Clone, Copy, Debug, PartialEq, Eq, Structural)]
pub enum DecodeError {
    /// A leaf value carried a tag outside the closed set
    /// boolean / integer / number / string.
    UnsupportedValue,
    /// A required parameter was absent from the leaf arguments.
    RequiredParameterMissing,
    /// A leaf value's decoded variant did not match the parameter's
    /// declared type.
    ParameterTypeMismatch,
}

} // verus!
