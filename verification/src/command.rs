use vstd::prelude::*;
use vstd::string::StrSliceExecFns;

use crate::errors::BuildError;
use crate::names::find_spaces;
use crate::names::seg_count;
use crate::names::space_positions;
use crate::parameter::Parameter;
use crate::parameter::ParameterView;

verus! {

/// An opaque token standing for a command's handler. The engine never runs
/// a handler itself; it resolves an invocation to the token and hands the
/// token back to its caller together with the decoded arguments.
#[derive(Clone, Copy, Debug, PartialEq, Eq, Structural)]
pub struct HandlerId(pub u64);

/// A named, described, remotely-invokable operation: an ordered list of
/// parameters and a handler token. The name may embed up to two single
/// spaces, encoding up to three hierarchy levels.
#[derive(Debug)]
pub struct Command {
    pub name: String,
    pub description: String,
    pub parameters: Vec<Parameter>,
    pub function: HandlerId,
}

/// Mathematical model of a command.
#[verifier::ext_equal]
pub struct CommandView {
    pub name: Seq<char>,
    pub description: Seq<char>,
    pub parameters: Seq<ParameterView>,
    pub function: HandlerId,
}

impl View for Command {
    type V = CommandView;

    open spec fn view(&self) -> CommandView {
        CommandView {
            name: self.name@,
            description: self.description@,
            parameters: self.parameters@.map_values(|p: Parameter| p@),
            function: self.function,
        }
    }
}

impl CommandView {
    /// Every invariant of a command: name and description lengths, at most
    /// three encoded levels, and well-formed parameters.
    pub open spec fn wf(self) -> bool {
        &&& 1 <= self.name.len() <= 32
        &&& seg_count(self.name) <= 3
        &&& 1 <= self.description.len() <= 100
        &&& forall|i: int| 0 <= i < self.parameters.len() ==> (#[trigger] self.parameters[i]).wf()
    }
}

impl Command {
    /// The command's full space-joined name.
    pub fn name(&self) -> (r: &str)
        ensures
            r@ == self.name@,
    {
        self.name.as_str()
    }

    /// The command's description.
    pub fn description(&self) -> (r: &str)
        ensures
            r@ == self.description@,
    {
        self.description.as_str()
    }

    /// The command's parameters, in declaration order.
    pub fn parameters(&self) -> (r: &Vec<Parameter>)
        ensures
            *r == self.parameters,
    {
        &self.parameters
    }

    /// The token of the command's handler.
    pub fn function(&self) -> (r: HandlerId)
        ensures
            r == self.function,
    {
        self.function
    }

    /// A fresh builder with no fields set.
    pub fn builder() -> (r: CommandBuilder)
        ensures
            r@ == CommandBuilderView::empty(),
    {
        CommandBuilder::new()
    }
}

/// Accumulates the fields of a command and validates all of them at once
/// when `build` is called.
#[derive(Debug)]
pub struct CommandBuilder {
    pub name: String,
    pub category: String,
    pub description: String,
    pub parameters: Vec<Parameter>,
    pub function: Option<HandlerId>,
}

/// Mathematical model of a command builder's state.
#[verifier::ext_equal]
pub struct CommandBuilderView {
    pub name: Seq<char>,
    pub category: Seq<char>,
    pub description: Seq<char>,
    pub parameters: Seq<ParameterView>,
    pub function: Option<HandlerId>,
}

impl View for CommandBuilder {
    type V = CommandBuilderView;

    open spec fn view(&self) -> CommandBuilderView {
        CommandBuilderView {
            name: self.name@,
            category: self.category@,
            description: self.description@,
            parameters: self.parameters@.map_values(|p: Parameter| p@),
            function: self.function,
        }
    }
}

impl CommandBuilderView {
    /// The state of a fresh builder.
    pub open spec fn empty() -> CommandBuilderView {
        CommandBuilderView {
            name: Seq::empty(),
            category: Seq::empty(),
            description: Seq::empty(),
            parameters: Seq::empty(),
            function: None,
        }
    }

    /// The first constraint this state violates, checked in a fixed order,
    /// or `None` when every invariant holds.
    pub open spec fn check(self) -> Option<BuildError> {
        if !(1 <= self.name.len() <= 32) {
            Some(BuildError::NameLength)
        } else if space_positions(self.name).len() > 2 {
            Some(BuildError::NameSegments)
        } else if !(1 <= self.description.len() <= 100) {
            Some(BuildError::DescriptionLength)
        } else if self.function is None {
            Some(BuildError::MissingHandler)
        } else {
            None
        }
    }

    /// The command this state builds, meaningful when `check` passes.
    pub open spec fn built(self) -> CommandView
        recommends
            self.check() is None,
    {
        CommandView {
            name: self.name,
            description: self.description,
            parameters: self.parameters,
            function: self.function->0,
        }
    }
}

impl CommandBuilder {
    /// A fresh builder with no fields set.
    pub fn new() -> (r: Self)
        ensures
            r@ == CommandBuilderView::empty(),
    {
        CommandBuilder {
            name: String::new(),
            category: String::new(),
            description: String::new(),
            parameters: Vec::new(),
            function: None,
        }
    }

    /// Sets the full space-joined name.
    pub fn name(self, name: &str) -> (r: Self)
        ensures
            r@ == (CommandBuilderView { name: name@, ..self@ }),
    {
        CommandBuilder { name: name.to_owned(), ..self }
    }

    /// Sets the category label. It is carried for the declaring module's
    /// bookkeeping and takes no part in validation.
    pub fn category(self, category: &str) -> (r: Self)
        ensures
            r@ == (CommandBuilderView { category: category@, ..self@ }),
    {
        CommandBuilder { category: category.to_owned(), ..self }
    }

    /// Sets the description.
    pub fn description(self, description: &str) -> (r: Self)
        ensures
            r@ == (CommandBuilderView { description: description@, ..self@ }),
    {
        CommandBuilder { description: description.to_owned(), ..self }
    }

    /// Appends one parameter; order is preserved.
    pub fn parameter(self, parameter: Parameter) -> (r: Self)
        ensures
            r@ == (CommandBuilderView { parameters: self@.parameters.push(parameter@), ..self@ }),
    {
        let mut parameters = self.parameters;
        parameters.push(parameter);
        proof {
            assert(parameters@.map_values(|p: Parameter| p@) =~= self@.parameters.push(
                parameters@.last()@,
            ));
        }
        CommandBuilder { parameters, ..self }
    }

    /// Replaces the whole parameter list.
    pub fn parameters(self, parameters: Vec<Parameter>) -> (r: Self)
        ensures
            r@ == (CommandBuilderView {
                parameters: parameters@.map_values(|p: Parameter| p@),
                ..self@
            }),
    {
        CommandBuilder { parameters, ..self }
    }

    /// Sets the handler token. A command cannot be built without one.
    pub fn function(self, function: HandlerId) -> (r: Self)
        ensures
            r@ == (CommandBuilderView { function: Some(function), ..self@ }),
    {
        CommandBuilder { function: Some(function), ..self }
    }

    /// Validates the accumulated state and returns the finished command, or
    /// the first violated constraint in the fixed check order.
    pub fn build(self) -> (r: Result<Command, BuildError>)
        ensures
            match r {
                Ok(c) => self@.check() is None && c@ == self@.built() && ((forall|i: int|
                    0 <= i < self@.parameters.len() ==> (#[trigger] self@.parameters[i]).wf())
                    ==> c@.wf()),
                Err(e) => self@.check() == Some(e),
            },
    {
        let nlen = self.name.as_str().unicode_len();
        if nlen < 1 || nlen > 32 {
            return Err(BuildError::NameLength);
        }
        let spaces = find_spaces(self.name.as_str());
        if spaces.len() > 2 {
            return Err(BuildError::NameSegments);
        }
        let dlen = self.description.as_str().unicode_len();
        if dlen < 1 || dlen > 100 {
            return Err(BuildError::DescriptionLength);
        }
        let function = match self.function {
            Some(f) => f,
            None => {
                return Err(BuildError::MissingHandler);
            },
        };
        proof {
            assert(seg_count(self.name@) == space_positions(self.name@).len() + 1);
        }
        let c = Command {
            name: self.name,
            description: self.description,
            parameters: self.parameters,
            function,
        };
        proof {
            assert(c@ =~= self@.built());
        }
        Ok(c)
    }
}

/// With name length and description valid and a handler supplied, building
/// fails exactly when the name embeds more than two spaces.
pub proof fn lemma_build_name_segments(b: CommandBuilderView)
    requires
        1 <= b.name.len() <= 32,
        1 <= b.description.len() <= 100,
        b.function is Some,
    ensures
        b.check() is Some <==> space_positions(b.name).len() > 2,
        b.check() is Some ==> b.check() == Some(BuildError::NameSegments),
{
}

} // verus!
