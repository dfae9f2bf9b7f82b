use vstd::prelude::*;
use vstd::string::StrSliceExecFns;

use crate::errors::BuildError;
use crate::number::Number;
use crate::number::spec_number_le;

verus! {

/// The closed set of types a parameter's value can have.
#[derive(Clone, Copy, Debug, PartialEq, Eq, Structural)]
pub enum ParameterType {
    String,
    Integer,
    Boolean,
    Float,
}

/// The value of one named choice: a constant of one scalar type.
#[derive(Debug)]
pub enum ParameterChoiceType {
    String(String),
    Integer(i64),
    Float(Number),
}

/// Mathematical model of a choice value.
#[verifier::ext_equal]
pub enum ParameterChoiceTypeView {
    String(Seq<char>),
    Integer(i64),
    Float(Number),
}

impl View for ParameterChoiceType {
    type V = ParameterChoiceTypeView;

    open spec fn view(&self) -> ParameterChoiceTypeView {
        match self {
            ParameterChoiceType::String(s) => ParameterChoiceTypeView::String(s@),
            ParameterChoiceType::Integer(v) => ParameterChoiceTypeView::Integer(*v),
            ParameterChoiceType::Float(n) => ParameterChoiceTypeView::Float(*n),
        }
    }
}

impl Clone for ParameterChoiceType {
    fn clone(&self) -> (r: Self)
        ensures
            r == *self,
    {
        match self {
            ParameterChoiceType::String(s) => ParameterChoiceType::String(s.clone()),
            ParameterChoiceType::Integer(v) => ParameterChoiceType::Integer(*v),
            ParameterChoiceType::Float(n) => ParameterChoiceType::Float(*n),
        }
    }
}

/// Whether a choice value's type matches a declared parameter type.
pub open spec fn choice_matches_kind(v: ParameterChoiceTypeView, kind: ParameterType) -> bool {
    match v {
        ParameterChoiceTypeView::String(_) => kind == ParameterType::String,
        ParameterChoiceTypeView::Integer(_) => kind == ParameterType::Integer,
        ParameterChoiceTypeView::Float(_) => kind == ParameterType::Float,
    }
}

/// A named constant a parameter's value can be restricted to.
#[derive(Debug)]
pub struct ParameterChoice {
    pub name: String,
    pub value: ParameterChoiceType,
}

/// Mathematical model of a choice.
#[verifier::ext_equal]
pub struct ParameterChoiceView {
    pub name: Seq<char>,
    pub value: ParameterChoiceTypeView,
}

impl View for ParameterChoice {
    type V = ParameterChoiceView;

    open spec fn view(&self) -> ParameterChoiceView {
        ParameterChoiceView { name: self.name@, value: self.value@ }
    }
}

impl Clone for ParameterChoice {
    fn clone(&self) -> (r: Self)
        ensures
            r == *self,
    {
        ParameterChoice { name: self.name.clone(), value: self.value.clone() }
    }
}

impl ParameterChoice {
    /// The choice's display name.
    pub fn name(&self) -> (r: &str)
        ensures
            r@ == self.name@,
    {
        self.name.as_str()
    }

    /// The constant this choice stands for.
    pub fn value(&self) -> (r: &ParameterChoiceType)
        ensures
            *r == self.value,
    {
        &self.value
    }

    /// Pairs a display name with a constant.
    pub fn new(name: &str, value: ParameterChoiceType) -> (r: Self)
        ensures
            r@.name == name@,
            r@.value == value@,
    {
        ParameterChoice { name: name.to_owned(), value }
    }
}

/// A typed, validated field descriptor of a command. Built through
/// `ParameterBuilder`, which checks every invariant before a value exists.
#[derive(Debug)]
pub struct Parameter {
    pub name: String,
    pub description: String,
    pub kind: ParameterType,
    pub required: bool,
    pub choices: Vec<ParameterChoice>,
    pub min_value_int: Option<i64>,
    pub max_value_int: Option<i64>,
    pub min_value_number: Option<Number>,
    pub max_value_number: Option<Number>,
    pub min_length: Option<i32>,
    pub max_length: Option<i32>,
}

/// Mathematical model of a parameter.
#[verifier::ext_equal]
pub struct ParameterView {
    pub name: Seq<char>,
    pub description: Seq<char>,
    pub kind: ParameterType,
    pub required: bool,
    pub choices: Seq<ParameterChoiceView>,
    pub min_value_int: Option<i64>,
    pub max_value_int: Option<i64>,
    pub min_value_number: Option<Number>,
    pub max_value_number: Option<Number>,
    pub min_length: Option<i32>,
    pub max_length: Option<i32>,
}

impl View for Parameter {
    type V = ParameterView;

    open spec fn view(&self) -> ParameterView {
        ParameterView {
            name: self.name@,
            description: self.description@,
            kind: self.kind,
            required: self.required,
            choices: self.choices@.map_values(|c: ParameterChoice| c@),
            min_value_int: self.min_value_int,
            max_value_int: self.max_value_int,
            min_value_number: self.min_value_number,
            max_value_number: self.max_value_number,
            min_length: self.min_length,
            max_length: self.max_length,
        }
    }
}

impl ParameterView {
    /// Every invariant of a parameter: name and description lengths, choice
    /// count and choice types, bound ranges and bound ordering, and a
    /// declared type consistent with every bound that is set.
    pub open spec fn wf(self) -> bool {
        &&& 1 <= self.name.len() <= 32
        &&& 1 <= self.description.len() <= 100
        &&& self.choices.len() <= 25
        &&& forall|i: int|
            0 <= i < self.choices.len() ==> choice_matches_kind(
                (#[trigger] self.choices[i]).value,
                self.kind,
            )
        &&& self.min_value_int is Some && self.max_value_int is Some
            ==> self.min_value_int->0 <= self.max_value_int->0
        &&& self.min_value_number is Some && self.max_value_number is Some ==> spec_number_le(
            self.min_value_number->0,
            self.max_value_number->0,
        )
        &&& self.min_length is Some ==> 0 <= self.min_length->0 <= 6000
        &&& self.max_length is Some ==> 0 <= self.max_length->0 <= 6000
        &&& self.min_length is Some && self.max_length is Some ==> self.min_length->0
            <= self.max_length->0
        &&& self.min_value_int is Some || self.max_value_int is Some ==> self.kind
            == ParameterType::Integer
        &&& self.min_value_number is Some || self.max_value_number is Some ==> self.kind
            == ParameterType::Float
        &&& self.min_length is Some || self.max_length is Some ==> self.kind
            == ParameterType::String
    }
}

/// Copies a choice list element by element, keeping each value exactly.
fn clone_choices(v: &Vec<ParameterChoice>) -> (r: Vec<ParameterChoice>)
    ensures
        r@ == v@,
{
    let mut r: Vec<ParameterChoice> = Vec::new();
    let mut i: usize = 0;
    while i < v.len()
        invariant
            i <= v@.len(),
            r@ == v@.take(i as int),
        decreases v@.len() - i,
    {
        r.push(v[i].clone());
        proof {
            assert(r@ =~= v@.take(i + 1));
        }
        i += 1;
    }
    proof {
        assert(v@.take(v@.len() as int) =~= v@);
    }
    r
}

impl Clone for Parameter {
    /// The copy carries the same model; the clone of each field is spec-equal
    /// to the field, so the views agree.
    fn clone(&self) -> (r: Self)
        ensures
            r@ == self@,
    {
        Parameter {
            name: self.name.clone(),
            description: self.description.clone(),
            kind: self.kind,
            required: self.required,
            choices: clone_choices(&self.choices),
            min_value_int: self.min_value_int,
            max_value_int: self.max_value_int,
            min_value_number: self.min_value_number,
            max_value_number: self.max_value_number,
            min_length: self.min_length,
            max_length: self.max_length,
        }
    }
}

/// One end of a value bound: an integer or a number constant.
#[derive(Clone, Copy, Debug, PartialEq, Eq, Structural)]
pub enum BoundValue {
    Integer(i64),
    Number(Number),
}

impl Parameter {
    /// The parameter's name.
    pub fn name(&self) -> (r: &str)
        ensures
            r@ == self.name@,
    {
        self.name.as_str()
    }

    /// The parameter's description.
    pub fn description(&self) -> (r: &str)
        ensures
            r@ == self.description@,
    {
        self.description.as_str()
    }

    /// The parameter's declared type.
    pub fn kind(&self) -> (r: &ParameterType)
        ensures
            *r == self.kind,
    {
        &self.kind
    }

    /// Whether an invocation must supply this parameter.
    pub fn required(&self) -> (r: &bool)
        ensures
            *r == self.required,
    {
        &self.required
    }

    /// The choices the value is restricted to, in declaration order.
    pub fn choices(&self) -> (r: &Vec<ParameterChoice>)
        ensures
            *r == self.choices,
    {
        &self.choices
    }

    /// The integer lower bound, if one was declared.
    pub fn min_value_int(&self) -> (r: &Option<i64>)
        ensures
            *r == self.min_value_int,
    {
        &self.min_value_int
    }

    /// The number lower bound, if one was declared.
    pub fn min_value_number(&self) -> (r: &Option<Number>)
        ensures
            *r == self.min_value_number,
    {
        &self.min_value_number
    }

    /// The integer upper bound, if one was declared.
    pub fn max_value_int(&self) -> (r: &Option<i64>)
        ensures
            *r == self.max_value_int,
    {
        &self.max_value_int
    }

    /// The number upper bound, if one was declared.
    pub fn max_value_number(&self) -> (r: &Option<Number>)
        ensures
            *r == self.max_value_number,
    {
        &self.max_value_number
    }

    /// The length lower bound, if one was declared.
    pub fn min_length(&self) -> (r: &Option<i32>)
        ensures
            *r == self.min_length,
    {
        &self.min_length
    }

    /// The length upper bound, if one was declared.
    pub fn max_length(&self) -> (r: &Option<i32>)
        ensures
            *r == self.max_length,
    {
        &self.max_length
    }

    /// The lower value bound as one constant, integer preferred.
    pub fn min_value(&self) -> (r: Option<BoundValue>)
        ensures
            r == if self.min_value_int is Some {
                Some(BoundValue::Integer(self.min_value_int->0))
            } else if self.min_value_number is Some {
                Some(BoundValue::Number(self.min_value_number->0))
            } else {
                None::<BoundValue>
            },
    {
        if let Some(v) = self.min_value_int {
            Some(BoundValue::Integer(v))
        } else if let Some(n) = self.min_value_number {
            Some(BoundValue::Number(n))
        } else {
            None
        }
    }

    /// The upper value bound as one constant, integer preferred.
    pub fn max_value(&self) -> (r: Option<BoundValue>)
        ensures
            r == if self.max_value_int is Some {
                Some(BoundValue::Integer(self.max_value_int->0))
            } else if self.max_value_number is Some {
                Some(BoundValue::Number(self.max_value_number->0))
            } else {
                None::<BoundValue>
            },
    {
        if let Some(v) = self.max_value_int {
            Some(BoundValue::Integer(v))
        } else if let Some(n) = self.max_value_number {
            Some(BoundValue::Number(n))
        } else {
            None
        }
    }

    /// A fresh builder with no fields set.
    pub fn builder() -> (r: ParameterBuilder)
        ensures
            r@ == ParameterBuilderView::empty(),
    {
        ParameterBuilder::new()
    }
}

/// Accumulates the fields of a parameter and validates all of them at once
/// when `build` is called. Setter order does not matter; only the final
/// state counts.
#[derive(Debug)]
pub struct ParameterBuilder {
    pub name: String,
    pub description: String,
    pub kind: Option<ParameterType>,
    pub required: bool,
    pub choices: Vec<ParameterChoice>,
    pub min_value_int: Option<i64>,
    pub max_value_int: Option<i64>,
    pub min_value_number: Option<Number>,
    pub max_value_number: Option<Number>,
    pub min_length: Option<i32>,
    pub max_length: Option<i32>,
}

/// Mathematical model of a parameter builder's state.
#[verifier::ext_equal]
pub struct ParameterBuilderView {
    pub name: Seq<char>,
    pub description: Seq<char>,
    pub kind: Option<ParameterType>,
    pub required: bool,
    pub choices: Seq<ParameterChoiceView>,
    pub min_value_int: Option<i64>,
    pub max_value_int: Option<i64>,
    pub min_value_number: Option<Number>,
    pub max_value_number: Option<Number>,
    pub min_length: Option<i32>,
    pub max_length: Option<i32>,
}

impl View for ParameterBuilder {
    type V = ParameterBuilderView;

    open spec fn view(&self) -> ParameterBuilderView {
        ParameterBuilderView {
            name: self.name@,
            description: self.description@,
            kind: self.kind,
            required: self.required,
            choices: self.choices@.map_values(|c: ParameterChoice| c@),
            min_value_int: self.min_value_int,
            max_value_int: self.max_value_int,
            min_value_number: self.min_value_number,
            max_value_number: self.max_value_number,
            min_length: self.min_length,
            max_length: self.max_length,
        }
    }
}

impl ParameterBuilderView {
    /// The state of a fresh builder.
    pub open spec fn empty() -> ParameterBuilderView {
        ParameterBuilderView {
            name: Seq::empty(),
            description: Seq::empty(),
            kind: None,
            required: false,
            choices: Seq::empty(),
            min_value_int: None,
            max_value_int: None,
            min_value_number: None,
            max_value_number: None,
            min_length: None,
            max_length: None,
        }
    }

    /// The first constraint this state violates, checked in a fixed order,
    /// or `None` when every invariant holds.
    pub open spec fn check(self) -> Option<BuildError> {
        if !(1 <= self.description.len() <= 100) {
            Some(BuildError::DescriptionLength)
        } else if !(1 <= self.name.len() <= 32) {
            Some(BuildError::NameLength)
        } else if self.min_length is Some && !(0 <= self.min_length->0 <= 6000) {
            Some(BuildError::LengthBoundRange)
        } else if self.max_length is Some && !(0 <= self.max_length->0 <= 6000) {
            Some(BuildError::LengthBoundRange)
        } else if self.min_value_int is Some && self.max_value_int is Some
            && self.min_value_int->0 > self.max_value_int->0 {
            Some(BuildError::IntegerBoundsOrder)
        } else if self.min_value_number is Some && self.max_value_number is Some
            && !spec_number_le(self.min_value_number->0, self.max_value_number->0) {
            Some(BuildError::NumberBoundsOrder)
        } else if self.min_length is Some && self.max_length is Some && self.min_length->0
            > self.max_length->0 {
            Some(BuildError::LengthBoundsOrder)
        } else if self.choices.len() > 25 {
            Some(BuildError::ChoiceCount)
        } else if self.kind is None {
            Some(BuildError::MissingKind)
        } else if exists|i: int|
            0 <= i < self.choices.len() && !choice_matches_kind(
                (#[trigger] self.choices[i]).value,
                self.kind->0,
            ) {
            Some(BuildError::ChoiceTypeMismatch)
        } else if (self.min_value_int is Some || self.max_value_int is Some) && self.kind->0
            != ParameterType::Integer {
            Some(BuildError::BoundKindMismatch)
        } else if (self.min_value_number is Some || self.max_value_number is Some) && self.kind->0
            != ParameterType::Float {
            Some(BuildError::BoundKindMismatch)
        } else if (self.min_length is Some || self.max_length is Some) && self.kind->0
            != ParameterType::String {
            Some(BuildError::BoundKindMismatch)
        } else {
            None
        }
    }

    /// The parameter this state builds, meaningful when `check` passes.
    pub open spec fn built(self) -> ParameterView
        recommends
            self.check() is None,
    {
        ParameterView {
            name: self.name,
            description: self.description,
            kind: self.kind->0,
            required: self.required,
            choices: self.choices,
            min_value_int: self.min_value_int,
            max_value_int: self.max_value_int,
            min_value_number: self.min_value_number,
            max_value_number: self.max_value_number,
            min_length: self.min_length,
            max_length: self.max_length,
        }
    }
}

/// Whether every choice's value matches the declared parameter type.
fn choices_all_match(choices: &Vec<ParameterChoice>, kind: &ParameterType) -> (r: bool)
    ensures
        r == forall|i: int|
            0 <= i < choices@.len() ==> choice_matches_kind((#[trigger] choices@[i])@.value, *kind),
{
    let mut i: usize = 0;
    while i < choices.len()
        invariant
            i <= choices@.len(),
            forall|j: int|
                0 <= j < i ==> choice_matches_kind((#[trigger] choices@[j])@.value, *kind),
        decreases choices@.len() - i,
    {
        let ok = match &choices[i].value {
            ParameterChoiceType::String(_) => *kind == ParameterType::String,
            ParameterChoiceType::Integer(_) => *kind == ParameterType::Integer,
            ParameterChoiceType::Float(_) => *kind == ParameterType::Float,
        };
        if !ok {
            return false;
        }
        i += 1;
    }
    true
}

impl ParameterBuilder {
    /// A fresh builder with no fields set.
    pub fn new() -> (r: Self)
        ensures
            r@ == ParameterBuilderView::empty(),
    {
        ParameterBuilder {
            name: String::new(),
            description: String::new(),
            kind: None,
            required: false,
            choices: Vec::new(),
            min_value_int: None,
            max_value_int: None,
            min_value_number: None,
            max_value_number: None,
            min_length: None,
            max_length: None,
        }
    }

    /// Sets the name.
    pub fn name(self, name: &str) -> (r: Self)
        ensures
            r@ == (ParameterBuilderView { name: name@, ..self@ }),
    {
        ParameterBuilder { name: name.to_owned(), ..self }
    }

    /// Sets the description.
    pub fn description(self, description: &str) -> (r: Self)
        ensures
            r@ == (ParameterBuilderView { description: description@, ..self@ }),
    {
        ParameterBuilder { description: description.to_owned(), ..self }
    }

    /// Sets the declared type.
    pub fn kind(self, kind: ParameterType) -> (r: Self)
        ensures
            r@ == (ParameterBuilderView { kind: Some(kind), ..self@ }),
    {
        ParameterBuilder { kind: Some(kind), ..self }
    }

    /// Sets whether the parameter must be supplied.
    pub fn required(self, required: bool) -> (r: Self)
        ensures
            r@ == (ParameterBuilderView { required, ..self@ }),
    {
        ParameterBuilder { required, ..self }
    }

    /// Appends one choice.
    pub fn choice(self, choice: ParameterChoice) -> (r: Self)
        ensures
            r@ == (ParameterBuilderView { choices: self@.choices.push(choice@), ..self@ }),
    {
        let mut choices = self.choices;
        choices.push(choice);
        proof {
            assert(choices@.map_values(|c: ParameterChoice| c@) =~= self@.choices.push(
                choices@.last()@,
            ));
        }
        ParameterBuilder { choices, ..self }
    }

    /// Replaces the whole choice list.
    pub fn choices(self, choices: Vec<ParameterChoice>) -> (r: Self)
        ensures
            r@ == (ParameterBuilderView {
                choices: choices@.map_values(|c: ParameterChoice| c@),
                ..self@
            }),
    {
        ParameterBuilder { choices, ..self }
    }

    /// Sets or clears the integer lower bound.
    pub fn min_value_int(self, min_value_int: Option<i64>) -> (r: Self)
        ensures
            r@ == (ParameterBuilderView { min_value_int, ..self@ }),
    {
        ParameterBuilder { min_value_int, ..self }
    }

    /// Sets or clears the integer upper bound.
    pub fn max_value_int(self, max_value_int: Option<i64>) -> (r: Self)
        ensures
            r@ == (ParameterBuilderView { max_value_int, ..self@ }),
    {
        ParameterBuilder { max_value_int, ..self }
    }

    /// Sets or clears the number lower bound.
    pub fn min_value_number(self, min_value_number: Option<Number>) -> (r: Self)
        ensures
            r@ == (ParameterBuilderView { min_value_number, ..self@ }),
    {
        ParameterBuilder { min_value_number, ..self }
    }

    /// Sets or clears the number upper bound.
    pub fn max_value_number(self, max_value_number: Option<Number>) -> (r: Self)
        ensures
            r@ == (ParameterBuilderView { max_value_number, ..self@ }),
    {
        ParameterBuilder { max_value_number, ..self }
    }

    /// Sets or clears the length lower bound.
    pub fn min_length(self, min_length: Option<i32>) -> (r: Self)
        ensures
            r@ == (ParameterBuilderView { min_length, ..self@ }),
    {
        ParameterBuilder { min_length, ..self }
    }

    /// Sets or clears the length upper bound.
    pub fn max_length(self, max_length: Option<i32>) -> (r: Self)
        ensures
            r@ == (ParameterBuilderView { max_length, ..self@ }),
    {
        ParameterBuilder { max_length, ..self }
    }

    /// Validates every invariant of the accumulated state and returns the
    /// finished parameter, or the first violated constraint in the fixed
    /// check order. No partial value is ever returned.
    pub fn build(self) -> (r: Result<Parameter, BuildError>)
        ensures
            match r {
                Ok(p) => self@.check() is None && p@ == self@.built() && p@.wf(),
                Err(e) => self@.check() == Some(e),
            },
    {
        let dlen = self.description.as_str().unicode_len();
        if dlen < 1 || dlen > 100 {
            return Err(BuildError::DescriptionLength);
        }
        let nlen = self.name.as_str().unicode_len();
        if nlen < 1 || nlen > 32 {
            return Err(BuildError::NameLength);
        }
        if let Some(mn) = self.min_length {
            if mn < 0 || mn > 6000 {
                return Err(BuildError::LengthBoundRange);
            }
        }
        if let Some(mx) = self.max_length {
            if mx < 0 || mx > 6000 {
                return Err(BuildError::LengthBoundRange);
            }
        }
        if let (Some(mn), Some(mx)) = (self.min_value_int, self.max_value_int) {
            if mn > mx {
                return Err(BuildError::IntegerBoundsOrder);
            }
        }
        if let (Some(mn), Some(mx)) = (self.min_value_number, self.max_value_number) {
            if !mn.le(&mx) {
                return Err(BuildError::NumberBoundsOrder);
            }
        }
        if let (Some(mn), Some(mx)) = (self.min_length, self.max_length) {
            if mn > mx {
                return Err(BuildError::LengthBoundsOrder);
            }
        }
        if self.choices.len() > 25 {
            return Err(BuildError::ChoiceCount);
        }
        let kind = match self.kind {
            Some(k) => k,
            None => {
                return Err(BuildError::MissingKind);
            },
        };
        let all_match = choices_all_match(&self.choices, &kind);
        proof {
            assert(forall|i: int|
                0 <= i < self.choices@.len() ==> #[trigger] self@.choices[i]
                    == self.choices@[i]@);
        }
        if !all_match {
            proof {
                let i = choose|i: int|
                    0 <= i < self.choices@.len() && !choice_matches_kind(
                        (#[trigger] self.choices@[i])@.value,
                        kind,
                    );
                assert(!choice_matches_kind(self@.choices[i].value, kind));
            }
            return Err(BuildError::ChoiceTypeMismatch);
        }
        proof {
            assert forall|i: int| 0 <= i < self@.choices.len() implies choice_matches_kind(
                (#[trigger] self@.choices[i]).value,
                kind,
            ) by {
                assert(choice_matches_kind((self.choices@[i])@.value, kind));
            }
        }
        if (self.min_value_int.is_some() || self.max_value_int.is_some()) && kind
            != ParameterType::Integer {
            return Err(BuildError::BoundKindMismatch);
        }
        if (self.min_value_number.is_some() || self.max_value_number.is_some()) && kind
            != ParameterType::Float {
            return Err(BuildError::BoundKindMismatch);
        }
        if (self.min_length.is_some() || self.max_length.is_some()) && kind
            != ParameterType::String {
            return Err(BuildError::BoundKindMismatch);
        }
        Ok(
            Parameter {
                name: self.name,
                description: self.description,
                kind,
                required: self.required,
                choices: self.choices,
                min_value_int: self.min_value_int,
                max_value_int: self.max_value_int,
                min_value_number: self.min_value_number,
                max_value_number: self.max_value_number,
                min_length: self.min_length,
                max_length: self.max_length,
            },
        )
    }
}

/// With every other field valid and both integer bounds set, building
/// fails exactly when the lower bound exceeds the upper one.
pub proof fn lemma_build_integer_bounds(b: ParameterBuilderView)
    requires
        1 <= b.description.len() <= 100,
        1 <= b.name.len() <= 32,
        b.min_length is None,
        b.max_length is None,
        b.min_value_number is None,
        b.max_value_number is None,
        b.min_value_int is Some,
        b.max_value_int is Some,
        b.kind == Some(ParameterType::Integer),
        b.choices.len() <= 25,
        forall|i: int|
            0 <= i < b.choices.len() ==> choice_matches_kind(
                (#[trigger] b.choices[i]).value,
                ParameterType::Integer,
            ),
    ensures
        b.check() is Some <==> b.min_value_int->0 > b.max_value_int->0,
        b.check() is Some ==> b.check() == Some(BuildError::IntegerBoundsOrder),
{
}

/// With every other field valid and both number bounds set, building
/// fails exactly when the lower bound exceeds the upper one in the total
/// order on number encodings.
pub proof fn lemma_build_number_bounds(b: ParameterBuilderView)
    requires
        1 <= b.description.len() <= 100,
        1 <= b.name.len() <= 32,
        b.min_length is None,
        b.max_length is None,
        b.min_value_int is None,
        b.max_value_int is None,
        b.min_value_number is Some,
        b.max_value_number is Some,
        b.kind == Some(ParameterType::Float),
        b.choices.len() <= 25,
        forall|i: int|
            0 <= i < b.choices.len() ==> choice_matches_kind(
                (#[trigger] b.choices[i]).value,
                ParameterType::Float,
            ),
    ensures
        b.check() is Some <==> !spec_number_le(b.min_value_number->0, b.max_value_number->0),
        b.check() is Some ==> b.check() == Some(BuildError::NumberBoundsOrder),
{
}

/// With every other field valid and both length bounds set in range,
/// building fails exactly when the lower bound exceeds the upper one.
pub proof fn lemma_build_length_bounds(b: ParameterBuilderView)
    requires
        1 <= b.description.len() <= 100,
        1 <= b.name.len() <= 32,
        b.min_length is Some,
        0 <= b.min_length->0 <= 6000,
        b.max_length is Some,
        0 <= b.max_length->0 <= 6000,
        b.min_value_int is None,
        b.max_value_int is None,
        b.min_value_number is None,
        b.max_value_number is None,
        b.kind == Some(ParameterType::String),
        b.choices.len() <= 25,
        forall|i: int|
            0 <= i < b.choices.len() ==> choice_matches_kind(
                (#[trigger] b.choices[i]).value,
                ParameterType::String,
            ),
    ensures
        b.check() is Some <==> b.min_length->0 > b.max_length->0,
        b.check() is Some ==> b.check() == Some(BuildError::LengthBoundsOrder),
{
}

/// With name, description and bounds valid, building fails exactly when
/// some choice's type does not match the declared type or there are more
/// than 25 choices.
pub proof fn lemma_build_choice_validation(b: ParameterBuilderView)
    requires
        1 <= b.description.len() <= 100,
        1 <= b.name.len() <= 32,
        b.min_length is None,
        b.max_length is None,
        b.min_value_int is None,
        b.max_value_int is None,
        b.min_value_number is None,
        b.max_value_number is None,
        b.kind is Some,
    ensures
        b.check() is Some <==> b.choices.len() > 25 || exists|i: int|
            0 <= i < b.choices.len() && !choice_matches_kind(
                (#[trigger] b.choices[i]).value,
                b.kind->0,
            ),
{
}

} // verus!
