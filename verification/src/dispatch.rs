use vstd::prelude::*;
use vstd::string::StrSliceExecFns;
use vstd::string::StringExecFns;

use crate::command::HandlerId;
use crate::command_handler::has_name;
use crate::command_handler::lookup;
use crate::command_handler::registry_wf;
use crate::command_handler::CommandHandler;
use crate::command::CommandView;
use crate::errors::DecodeError;
use crate::number::Number;
use crate::parameter::Parameter;
use crate::parameter::ParameterType;
use crate::parameter::ParameterView;

verus! {

// The dispatcher takes one incoming invocation — a root name, a possibly
// nested chain of selector options, and leaf-level name/value pairs —
// reconstructs the full space-joined command path, looks it up, and decodes
// the leaf arguments against the matched command's parameters. Resolution
// and decoding are pure; the handler itself is run by the caller on an
// `Invoke` outcome.

/// A typed argument value decoded from an invocation.
#[derive(Debug, PartialEq)]
pub enum Argument {
    String(String),
    Integer(i64),
    Boolean(bool),
    Float(Number),
}

/// Mathematical model of an argument.
#[verifier::ext_equal]
pub enum ArgumentView {
    String(Seq<char>),
    Integer(i64),
    Boolean(bool),
    Float(Number),
}

impl View for Argument {
    type V = ArgumentView;

    open spec fn view(&self) -> ArgumentView {
        match self {
            Argument::String(s) => ArgumentView::String(s@),
            Argument::Integer(v) => ArgumentView::Integer(*v),
            Argument::Boolean(b) => ArgumentView::Boolean(*b),
            Argument::Float(n) => ArgumentView::Float(*n),
        }
    }
}

impl Clone for Argument {
    fn clone(&self) -> (r: Self)
        ensures
            r == *self,
    {
        match self {
            Argument::String(s) => Argument::String(s.clone()),
            Argument::Integer(v) => Argument::Integer(*v),
            Argument::Boolean(b) => Argument::Boolean(*b),
            Argument::Float(n) => Argument::Float(*n),
        }
    }
}

/// A raw value attached to one option of an incoming invocation: a scalar
/// leaf value, a nested selector carrying deeper options, or a tag outside
/// the supported set.
#[derive(Debug)]
pub enum InvocationValue {
    Boolean(bool),
    Integer(i64),
    Number(Number),
    String(String),
    SubCommand(Vec<InvocationOption>),
    SubCommandGroup(Vec<InvocationOption>),
    Unsupported,
}

/// One named option of an incoming invocation.
#[derive(Debug)]
pub struct InvocationOption {
    pub name: String,
    pub value: InvocationValue,
}

/// One incoming invocation: the root command name and its option list.
#[derive(Debug)]
pub struct Invocation {
    pub name: String,
    pub options: Vec<InvocationOption>,
}

/// Mathematical model of a raw option value.
#[verifier::ext_equal]
pub enum InvocationValueView {
    Boolean(bool),
    Integer(i64),
    Number(Number),
    String(Seq<char>),
    SubCommand(Seq<InvocationOptionView>),
    SubCommandGroup(Seq<InvocationOptionView>),
    Unsupported,
}

/// Mathematical model of one option.
#[verifier::ext_equal]
pub struct InvocationOptionView {
    pub name: Seq<char>,
    pub value: InvocationValueView,
}

/// Mathematical model of an invocation.
#[verifier::ext_equal]
pub struct InvocationView {
    pub name: Seq<char>,
    pub options: Seq<InvocationOptionView>,
}

/// The model of a raw option value, nested options modelled recursively.
pub open spec fn value_view(v: InvocationValue) -> InvocationValueView
    decreases v,
{
    match v {
        InvocationValue::Boolean(b) => InvocationValueView::Boolean(b),
        InvocationValue::Integer(x) => InvocationValueView::Integer(x),
        InvocationValue::Number(n) => InvocationValueView::Number(n),
        InvocationValue::String(s) => InvocationValueView::String(s@),
        InvocationValue::SubCommand(inner) => InvocationValueView::SubCommand(options_view(inner@)),
        InvocationValue::SubCommandGroup(inner) => InvocationValueView::SubCommandGroup(
            options_view(inner@),
        ),
        InvocationValue::Unsupported => InvocationValueView::Unsupported,
    }
}

/// The model of one option.
pub open spec fn option_view(o: InvocationOption) -> InvocationOptionView
    decreases o,
{
    InvocationOptionView { name: o.name@, value: value_view(o.value) }
}

/// The model of an option list, element by element.
pub open spec fn options_view(s: Seq<InvocationOption>) -> Seq<InvocationOptionView>
    decreases s,
{
    if s.len() == 0 {
        Seq::empty()
    } else {
        seq![option_view(s[0])] + options_view(s.drop_first())
    }
}

/// The option-list model keeps length and maps elements one to one.
pub proof fn lemma_options_view(s: Seq<InvocationOption>)
    ensures
        options_view(s).len() == s.len(),
        forall|i: int| 0 <= i < s.len() ==> options_view(s)[i] == option_view(#[trigger] s[i]),
    decreases s.len(),
{
    if s.len() > 0 {
        lemma_options_view(s.drop_first());
        assert forall|i: int| 0 <= i < s.len() implies options_view(s)[i] == option_view(
            #[trigger] s[i],
        ) by {
            if i >= 1 {
                assert(s.drop_first()[i - 1] == s[i]);
                assert(options_view(s)[i] == options_view(s.drop_first())[i - 1]);
            }
        }
    }
}

impl View for InvocationValue {
    type V = InvocationValueView;

    open spec fn view(&self) -> InvocationValueView {
        value_view(*self)
    }
}

impl View for InvocationOption {
    type V = InvocationOptionView;

    open spec fn view(&self) -> InvocationOptionView {
        option_view(*self)
    }
}

impl View for Invocation {
    type V = InvocationView;

    open spec fn view(&self) -> InvocationView {
        InvocationView { name: self.name@, options: options_view(self.options@) }
    }
}

/// The nested option list of a selector value, if the value is one.
pub open spec fn nested_options(v: InvocationValueView) -> Option<Seq<InvocationOptionView>> {
    match v {
        InvocationValueView::SubCommand(inner) => Some(inner),
        InvocationValueView::SubCommandGroup(inner) => Some(inner),
        _ => None,
    }
}

/// The resolution state machine of the dispatcher: while the option list
/// holds exactly one element and that element is a nested selector, append
/// a space and the selector's name to the accumulated path and descend;
/// what remains at the stop is the flat leaf argument list.
pub open spec fn spec_resolve(name: Seq<char>, opts: Seq<InvocationOptionView>) -> (
    Seq<char>,
    Seq<InvocationOptionView>,
)
    decreases opts,
{
    if opts.len() == 1 && nested_options(opts[0].value) is Some {
        spec_resolve(name + seq![' '] + opts[0].name, nested_options(opts[0].value)->0)
    } else {
        (name, opts)
    }
}

/// The scalar argument a raw value decodes to, if its tag lies in the
/// closed set boolean / integer / number / string.
pub open spec fn scalar_argument(v: InvocationValueView) -> Option<ArgumentView> {
    match v {
        InvocationValueView::Boolean(b) => Some(ArgumentView::Boolean(b)),
        InvocationValueView::Integer(x) => Some(ArgumentView::Integer(x)),
        InvocationValueView::Number(n) => Some(ArgumentView::Float(n)),
        InvocationValueView::String(s) => Some(ArgumentView::String(s)),
        _ => None,
    }
}

/// Whether every leaf option carries a scalar value.
pub open spec fn all_scalars(opts: Seq<InvocationOptionView>) -> bool {
    forall|i: int| 0 <= i < opts.len() ==> scalar_argument((#[trigger] opts[i]).value) is Some
}

/// Converts the leaf options into named raw arguments, in order; fails on
/// the first tag outside the closed scalar set.
pub open spec fn spec_convert_arguments(opts: Seq<InvocationOptionView>) -> Result<
    Seq<(Seq<char>, ArgumentView)>,
    DecodeError,
> {
    if all_scalars(opts) {
        Ok(Seq::new(opts.len(), |i: int| (opts[i].name, scalar_argument(opts[i].value)->0)))
    } else {
        Err(DecodeError::UnsupportedValue)
    }
}

/// The raw argument bound to `name`: the latest binding wins, as in a map
/// filled in option order.
pub open spec fn lookup_argument(args: Seq<(Seq<char>, ArgumentView)>, name: Seq<char>) -> Option<
    ArgumentView,
>
    decreases args.len(),
{
    if args.len() == 0 {
        None
    } else if args.last().0 == name {
        Some(args.last().1)
    } else {
        lookup_argument(args.drop_last(), name)
    }
}

/// Whether a decoded argument's variant matches a declared parameter type.
pub open spec fn kind_matches(a: ArgumentView, kind: ParameterType) -> bool {
    match a {
        ArgumentView::String(_) => kind == ParameterType::String,
        ArgumentView::Integer(_) => kind == ParameterType::Integer,
        ArgumentView::Boolean(_) => kind == ParameterType::Boolean,
        ArgumentView::Float(_) => kind == ParameterType::Float,
    }
}

/// Why one parameter fails to decode, if it does: a variant mismatch, or a
/// required parameter with no binding.
pub open spec fn param_error(p: ParameterView, args: Seq<(Seq<char>, ArgumentView)>) -> Option<
    DecodeError,
> {
    match lookup_argument(args, p.name) {
        Some(a) => if kind_matches(a, p.kind) {
            None
        } else {
            Some(DecodeError::ParameterTypeMismatch)
        },
        None => if p.required {
            Some(DecodeError::RequiredParameterMissing)
        } else {
            None
        },
    }
}

/// What one parameter decodes to: its bound argument, or the explicit
/// absent value for an optional parameter with no binding.
pub open spec fn param_value(p: ParameterView, args: Seq<(Seq<char>, ArgumentView)>) -> Option<
    ArgumentView,
> {
    match lookup_argument(args, p.name) {
        Some(a) => Some(a),
        None => None,
    }
}

/// Decodes the raw arguments against the parameters, in parameter order:
/// one entry per parameter, or the first parameter's error.
pub open spec fn spec_decode_parameters(
    params: Seq<ParameterView>,
    args: Seq<(Seq<char>, ArgumentView)>,
) -> Result<Seq<(Seq<char>, Option<ArgumentView>)>, DecodeError>
    decreases params.len(),
{
    if params.len() == 0 {
        Ok(Seq::empty())
    } else {
        match param_error(params[0], args) {
            Some(e) => Err(e),
            None => match spec_decode_parameters(params.drop_first(), args) {
                Err(e) => Err(e),
                Ok(rest) => Ok(seq![(params[0].name, param_value(params[0], args))] + rest),
            },
        }
    }
}

/// The outcome of one dispatch: the handler to run with its decoded
/// arguments; a silent no-op for an unknown path; or a decoding error
/// fatal to this one invocation.
#[derive(Debug, PartialEq)]
pub enum Dispatch {
    Invoke { name: String, handler: HandlerId, arguments: Vec<(String, Option<Argument>)> },
    NotFound { name: String },
    Failed { name: String, error: DecodeError },
}

/// Mathematical model of a dispatch outcome.
#[verifier::ext_equal]
pub enum DispatchView {
    Invoke {
        name: Seq<char>,
        handler: HandlerId,
        arguments: Seq<(Seq<char>, Option<ArgumentView>)>,
    },
    NotFound { name: Seq<char> },
    Failed { name: Seq<char>, error: DecodeError },
}

/// The model of one decoded argument entry.
pub open spec fn decoded_entry_view(e: (String, Option<Argument>)) -> (Seq<char>, Option<
    ArgumentView,
>) {
    (
        e.0@,
        match e.1 {
            Some(a) => Some(a@),
            None => None,
        },
    )
}

impl View for Dispatch {
    type V = DispatchView;

    open spec fn view(&self) -> DispatchView {
        match self {
            Dispatch::Invoke { name, handler, arguments } => DispatchView::Invoke {
                name: name@,
                handler: *handler,
                arguments: arguments@.map_values(|e: (String, Option<Argument>)| decoded_entry_view(e)),
            },
            Dispatch::NotFound { name } => DispatchView::NotFound { name: name@ },
            Dispatch::Failed { name, error } => DispatchView::Failed { name: name@, error: *error },
        }
    }
}

/// The whole dispatch pipeline as one function of registry and invocation:
/// resolve the path, look it up, convert the leaf values, decode them
/// against the matched command's parameters.
pub open spec fn spec_dispatch(cmds: Seq<CommandView>, inv: InvocationView) -> DispatchView {
    let resolved = spec_resolve(inv.name, inv.options);
    match lookup(cmds, resolved.0) {
        None => DispatchView::NotFound { name: resolved.0 },
        Some(c) => match spec_convert_arguments(resolved.1) {
            Err(e) => DispatchView::Failed { name: resolved.0, error: e },
            Ok(args) => match spec_decode_parameters(c.parameters, args) {
                Err(e) => DispatchView::Failed { name: resolved.0, error: e },
                Ok(decoded) => DispatchView::Invoke {
                    name: resolved.0,
                    handler: c.function,
                    arguments: decoded,
                },
            },
        },
    }
}

impl Argument {
    /// Decodes one raw value into its typed argument; a tag outside the
    /// closed scalar set fails.
    pub fn try_from(v: &InvocationValue) -> (r: Result<Argument, DecodeError>)
        ensures
            match r {
                Ok(a) => scalar_argument(v@) == Some(a@),
                Err(e) => scalar_argument(v@) is None && e == DecodeError::UnsupportedValue,
            },
    {
        match v {
            InvocationValue::Boolean(b) => Ok(Argument::Boolean(*b)),
            InvocationValue::Integer(x) => Ok(Argument::Integer(*x)),
            InvocationValue::Number(n) => Ok(Argument::Float(*n)),
            InvocationValue::String(s) => Ok(Argument::String(s.clone())),
            _ => Err(DecodeError::UnsupportedValue),
        }
    }
}

/// The model of a raw argument list, element by element.
pub open spec fn args_view(s: Seq<(String, Argument)>) -> Seq<(Seq<char>, ArgumentView)> {
    s.map_values(|e: (String, Argument)| (e.0@, e.1@))
}

/// Follows the nested selector chain from `acc`, returning the full path
/// and the leaf option list where the chain stops.
fn resolve_options<'a>(acc: String, opts: &'a Vec<InvocationOption>) -> (r: (
    String,
    &'a Vec<InvocationOption>,
))
    ensures
        (r.0@, options_view(r.1@)) == spec_resolve(acc@, options_view(opts@)),
    decreases opts@,
{
    proof {
        lemma_options_view(opts@);
    }
    if opts.len() == 1 {
        let o = &opts[0];
        let nested: Option<&Vec<InvocationOption>> = match &o.value {
            InvocationValue::SubCommand(inner) => Some(inner),
            InvocationValue::SubCommandGroup(inner) => Some(inner),
            _ => None,
        };
        match nested {
            Some(inner) => {
                let mut acc2 = acc;
                acc2.append(" ");
                proof {
                    reveal_strlit(" ");
                    assert(" "@ =~= seq![' ']);
                }
                acc2.append(o.name.as_str());
                proof {
                    assert(options_view(opts@)[0] == option_view(opts@[0]));
                    assert(nested_options(options_view(opts@)[0].value) == Some(
                        options_view(inner@),
                    ));
                    assert(acc2@ == acc@ + seq![' '] + options_view(opts@)[0].name);
                    assert(decreases_to!(opts@ => opts@[0]));
                    assert(decreases_to!(opts@[0] => opts@[0].value));
                }
                resolve_options(acc2, inner)
            },
            None => {
                proof {
                    assert(nested_options(options_view(opts@)[0].value) is None);
                }
                (acc, opts)
            },
        }
    } else {
        (acc, opts)
    }
}

/// Converts every leaf option into a named typed argument, in option
/// order; the whole conversion fails on any tag outside the scalar set.
fn convert_arguments(opts: &Vec<InvocationOption>) -> (r: Result<
    Vec<(String, Argument)>,
    DecodeError,
>)
    ensures
        match r {
            Ok(args) => spec_convert_arguments(options_view(opts@)) == Ok::<
                Seq<(Seq<char>, ArgumentView)>,
                DecodeError,
            >(args_view(args@)),
            Err(e) => spec_convert_arguments(options_view(opts@)) == Err::<
                Seq<(Seq<char>, ArgumentView)>,
                DecodeError,
            >(e),
        },
{
    proof {
        lemma_options_view(opts@);
    }
    let ghost ov = options_view(opts@);
    let mut out: Vec<(String, Argument)> = Vec::new();
    let mut i: usize = 0;
    while i < opts.len()
        invariant
            i <= opts@.len(),
            ov == options_view(opts@),
            ov.len() == opts@.len(),
            forall|j: int| 0 <= j < opts@.len() ==> ov[j] == option_view(#[trigger] opts@[j]),
            out@.len() == i,
            forall|j: int|
                0 <= j < i ==> scalar_argument((#[trigger] ov[j]).value) is Some,
            forall|j: int|
                0 <= j < i ==> (#[trigger] out@[j]).0@ == ov[j].name && out@[j].1@
                    == scalar_argument(ov[j].value)->0,
        decreases opts@.len() - i,
    {
        let o = &opts[i];
        let a = match Argument::try_from(&o.value) {
            Ok(a) => a,
            Err(e) => {
                proof {
                    assert(scalar_argument(ov[i as int].value) is None);
                    assert(!all_scalars(ov));
                }
                return Err(e);
            },
        };
        out.push((o.name.clone(), a));
        i += 1;
    }
    proof {
        assert(all_scalars(ov));
        assert(args_view(out@) =~= Seq::new(
            ov.len(),
            |j: int| (ov[j].name, scalar_argument(ov[j].value)->0),
        ));
    }
    Ok(out)
}

/// The latest binding for `name` among the raw arguments, if any.
fn lookup_arg<'a>(args: &'a Vec<(String, Argument)>, name: &String) -> (r: Option<&'a Argument>)
    ensures
        match r {
            Some(a) => lookup_argument(args_view(args@), name@) == Some(a@),
            None => lookup_argument(args_view(args@), name@) is None,
        },
{
    let ghost av = args_view(args@);
    let mut j: usize = args.len();
    proof {
        assert(av.take(j as int) =~= av);
    }
    while j > 0
        invariant
            j <= args@.len(),
            av == args_view(args@),
            av.len() == args@.len(),
            forall|k: int| 0 <= k < args@.len() ==> av[k] == ((#[trigger] args@[k]).0@, args@[k].1@),
            lookup_argument(av, name@) == lookup_argument(av.take(j as int), name@),
        decreases j,
    {
        if args[j - 1].0 == *name {
            proof {
                assert(av.take(j as int).last() == av[j - 1]);
            }
            return Some(&args[j - 1].1);
        }
        proof {
            assert(av.take(j as int).drop_last() =~= av.take(j - 1));
        }
        j -= 1;
    }
    proof {
        assert(av.take(0) =~= Seq::<(Seq<char>, ArgumentView)>::empty());
    }
    None
}

/// Whether a decoded argument's variant matches the declared type.
fn argument_matches_kind(a: &Argument, kind: &ParameterType) -> (r: bool)
    ensures
        r == kind_matches(a@, *kind),
{
    match a {
        Argument::String(_) => *kind == ParameterType::String,
        Argument::Integer(_) => *kind == ParameterType::Integer,
        Argument::Boolean(_) => *kind == ParameterType::Boolean,
        Argument::Float(_) => *kind == ParameterType::Float,
    }
}

/// The model of a parameter list, element by element.
pub open spec fn params_view(s: Seq<Parameter>) -> Seq<ParameterView> {
    s.map_values(|p: Parameter| p@)
}

/// The model of a decoded argument list, element by element.
pub open spec fn decoded_view(s: Seq<(String, Option<Argument>)>) -> Seq<(Seq<char>, Option<
    ArgumentView,
>)> {
    s.map_values(|e: (String, Option<Argument>)| decoded_entry_view(e))
}

/// Decodes the parameters from index `i` on against the raw arguments.
fn decode_params_from(
    params: &Vec<Parameter>,
    i: usize,
    args: &Vec<(String, Argument)>,
) -> (r: Result<Vec<(String, Option<Argument>)>, DecodeError>)
    requires
        i <= params@.len(),
    ensures
        match r {
            Ok(d) => spec_decode_parameters(params_view(params@).skip(i as int), args_view(args@))
                == Ok::<Seq<(Seq<char>, Option<ArgumentView>)>, DecodeError>(decoded_view(d@)),
            Err(e) => spec_decode_parameters(params_view(params@).skip(i as int), args_view(args@))
                == Err::<Seq<(Seq<char>, Option<ArgumentView>)>, DecodeError>(e),
        },
    decreases params@.len() - i,
{
    let ghost pv = params_view(params@);
    let ghost av = args_view(args@);
    if i == params.len() {
        proof {
            assert(pv.skip(i as int) =~= Seq::<ParameterView>::empty());
            assert(decoded_view(Seq::<(String, Option<Argument>)>::empty()) =~= Seq::<(
                Seq<char>,
                Option<ArgumentView>,
            )>::empty());
        }
        Ok(Vec::new())
    } else {
        let p = &params[i];
        proof {
            assert(pv.skip(i as int)[0] == pv[i as int]);
            assert(pv[i as int] == p@);
        }
        let bound: Option<Argument> = match lookup_arg(args, &p.name) {
            Some(a) => {
                if !argument_matches_kind(a, &p.kind) {
                    proof {
                        assert(param_error(pv.skip(i as int)[0], av) == Some(
                            DecodeError::ParameterTypeMismatch,
                        ));
                    }
                    return Err(DecodeError::ParameterTypeMismatch);
                }
                Some(a.clone())
            },
            None => {
                if p.required {
                    proof {
                        assert(param_error(pv.skip(i as int)[0], av) == Some(
                            DecodeError::RequiredParameterMissing,
                        ));
                    }
                    return Err(DecodeError::RequiredParameterMissing);
                }
                None
            },
        };
        proof {
            assert(param_error(pv.skip(i as int)[0], av) is None);
        }
        match decode_params_from(params, i + 1, args) {
            Err(e) => {
                proof {
                    assert(pv.skip(i as int).drop_first() =~= pv.skip(i as int + 1));
                }
                Err(e)
            },
            Ok(mut d) => {
                let ghost dprev = d@;
                d.insert(0, (p.name.clone(), bound));
                proof {
                    assert(pv.skip(i as int).drop_first() =~= pv.skip(i as int + 1));
                    assert(d@.drop_first() =~= dprev);
                    assert(decoded_view(d@)[0] == (
                        pv.skip(i as int)[0].name,
                        param_value(pv.skip(i as int)[0], av),
                    ));
                    assert forall|j: int| 1 <= j < d@.len() implies #[trigger] decoded_view(d@)[j]
                        == decoded_view(dprev)[j - 1] by {
                        assert(d@[j] == dprev[j - 1]);
                    }
                    assert(decoded_view(d@) =~= seq![
                        (pv.skip(i as int)[0].name, param_value(pv.skip(i as int)[0], av)),
                    ] + decoded_view(dprev));
                }
                Ok(d)
            },
        }
    }
}

impl CommandHandler {
    /// Dispatches one incoming invocation: resolves the nested selector
    /// chain to a full command path, looks the path up, and decodes the
    /// leaf arguments against the matched command's parameters. An unknown
    /// path is a silent no-op; a decoding error fails only this
    /// invocation; on success the caller receives the handler token and
    /// the decoded argument map, one entry per parameter in order.
    pub fn dispatch(&self, invocation: &Invocation) -> (r: Dispatch)
        requires
            registry_wf(self@),
        ensures
            r@ == spec_dispatch(self@, invocation@),
    {
        let ghost rv = spec_resolve(invocation@.name, invocation@.options);
        let resolved = resolve_options(invocation.name.clone(), &invocation.options);
        let path = resolved.0;
        let leaf_opts = resolved.1;
        proof {
            assert(path@ == rv.0);
            assert(options_view(leaf_opts@) == rv.1);
        }
        let c = match self.get(&path) {
            None => {
                let r = Dispatch::NotFound { name: path };
                proof {
                    assert(r@ =~= spec_dispatch(self@, invocation@));
                }
                return r;
            },
            Some(c) => c,
        };
        let args = match convert_arguments(leaf_opts) {
            Err(e) => {
                let r = Dispatch::Failed { name: path, error: e };
                proof {
                    assert(r@ =~= spec_dispatch(self@, invocation@));
                }
                return r;
            },
            Ok(args) => args,
        };
        match decode_params_from(&c.parameters, 0, &args) {
            Err(e) => {
                let r = Dispatch::Failed { name: path, error: e };
                proof {
                    assert(params_view(c.parameters@).skip(0) =~= params_view(c.parameters@));
                    assert(params_view(c.parameters@) == c@.parameters);
                    assert(r@ =~= spec_dispatch(self@, invocation@));
                }
                r
            },
            Ok(decoded) => {
                let r = Dispatch::Invoke { name: path, handler: c.function, arguments: decoded };
                proof {
                    assert(params_view(c.parameters@).skip(0) =~= params_view(c.parameters@));
                    assert(params_view(c.parameters@) == c@.parameters);
                    assert(r@ =~= spec_dispatch(self@, invocation@));
                }
                r
            },
        }
    }
}

/// A chain of single nested selectors resolves to the path it spells: a
/// root followed by one group selector holding one sub-command selector
/// reaches the three-level name, and the sub-command's own options are the
/// leaf arguments — provided those do not themselves continue the chain.
pub proof fn lemma_nested_chain_resolves(
    root: Seq<char>,
    mid: Seq<char>,
    sub: Seq<char>,
    leaf: Seq<InvocationOptionView>,
)
    requires
        !(leaf.len() == 1 && nested_options(leaf[0].value) is Some),
    ensures
        spec_resolve(
            root,
            seq![
                InvocationOptionView {
                    name: mid,
                    value: InvocationValueView::SubCommandGroup(
                        seq![
                            InvocationOptionView {
                                name: sub,
                                value: InvocationValueView::SubCommand(leaf),
                            },
                        ],
                    ),
                },
            ],
        ) == (root + seq![' '] + mid + seq![' '] + sub, leaf),
{
    let o2 = InvocationOptionView { name: sub, value: InvocationValueView::SubCommand(leaf) };
    let o1 = InvocationOptionView {
        name: mid,
        value: InvocationValueView::SubCommandGroup(seq![o2]),
    };
    let opts = seq![o1];
    assert(opts[0] == o1);
    assert(spec_resolve(root, opts) == spec_resolve(root + seq![' '] + mid, seq![o2]));
    assert(seq![o2][0] == o2);
    assert(spec_resolve(root + seq![' '] + mid, seq![o2]) == spec_resolve(
        root + seq![' '] + mid + seq![' '] + sub,
        leaf,
    ));
    assert(spec_resolve(root + seq![' '] + mid + seq![' '] + sub, leaf) == (
        root + seq![' '] + mid + seq![' '] + sub,
        leaf,
    ));
}

/// An option list that is not a single nested selector — empty, more than
/// one option, or one scalar option — stops resolution at once: the
/// accumulated path is looked up as it stands.
pub proof fn lemma_siblings_stop_resolution(root: Seq<char>, opts: Seq<InvocationOptionView>)
    requires
        !(opts.len() == 1 && nested_options(opts[0].value) is Some),
    ensures
        spec_resolve(root, opts) == (root, opts),
{
}

/// Resolution and decoding are pure: two dispatches of the same invocation
/// against the same registry match the same command and produce the same
/// decoded argument map.
pub proof fn lemma_dispatch_deterministic(
    cmds: Seq<CommandView>,
    inv: InvocationView,
    r1: DispatchView,
    r2: DispatchView,
)
    requires
        r1 == spec_dispatch(cmds, inv),
        r2 == spec_dispatch(cmds, inv),
    ensures
        r1 == r2,
{
}

/// An invocation whose resolved path is not registered is dropped: the
/// outcome names no handler and carries no error.
pub proof fn lemma_unknown_path_is_noop(cmds: Seq<CommandView>, inv: InvocationView)
    requires
        !has_name(cmds, spec_resolve(inv.name, inv.options).0),
    ensures
        spec_dispatch(cmds, inv) == (DispatchView::NotFound {
            name: spec_resolve(inv.name, inv.options).0,
        }),
{
}

/// A required parameter with no binding among the raw arguments fails the
/// decoding, whatever the other parameters decode to.
pub proof fn lemma_required_missing_fails(
    params: Seq<ParameterView>,
    args: Seq<(Seq<char>, ArgumentView)>,
)
    requires
        exists|i: int|
            0 <= i < params.len() && (#[trigger] params[i]).required && lookup_argument(
                args,
                params[i].name,
            ) is None,
    ensures
        spec_decode_parameters(params, args) is Err,
    decreases params.len(),
{
    let i = choose|i: int|
        0 <= i < params.len() && (#[trigger] params[i]).required && lookup_argument(
            args,
            params[i].name,
        ) is None;
    if param_error(params[0], args) is None {
        assert(i >= 1);
        assert(params.drop_first()[i - 1] == params[i]);
        lemma_required_missing_fails(params.drop_first(), args);
    }
}

} // verus!
