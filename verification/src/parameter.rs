//! Parameters that a pattern declares: named values with a type and a range,
//! which the host sets and the pattern's script reads.

use vstd::prelude::*;
use crate::text::{clone_texts, eq_ignore_ascii_case, same_text, spec_eq_ignore_ascii_case};
use crate::time::MICRO;

verus! {

/// The kind of value that a parameter holds.
#[derive(Copy, Clone, Debug, PartialEq, Eq, Structural)]
pub enum ParameterType {
    Boolean,
    Integer,
    Float,
    Enum,
}

/// Why a parameter could not be made or set.
#[derive(Copy, Clone, Debug, PartialEq, Eq, Structural)]
pub enum ParameterError {
    /// The value lies outside the declared range.
    OutOfRange,
    /// No parameter has the id.
    UnknownId,
    /// The range is empty, or not one that the type allows.
    InvalidRange,
    /// The value of a boolean, integer or enum parameter is not whole.
    NotWhole,
    /// An enum parameter has no values, or two that differ in case only.
    InvalidValues,
}

/// A parameter of a pattern. The range, the default and the value are counted
/// in millionths.
#[derive(Debug)]
pub struct Parameter {
    id: String,
    name: String,
    description: String,
    parameter_type: ParameterType,
    min: i64,
    max: i64,
    default: i64,
    value: i64,
    value_strings: Vec<String>,
}

/// The value of a [`Parameter`].
pub struct ParameterView {
    pub id: Seq<char>,
    pub name: Seq<char>,
    pub description: Seq<char>,
    pub parameter_type: ParameterType,
    pub min: i64,
    pub max: i64,
    pub default: i64,
    pub value: i64,
    pub value_strings: Seq<Seq<char>>,
}

/// True when no two of the texts are the same but for case.
pub open spec fn distinct_ignoring_case(texts: Seq<Seq<char>>) -> bool {
    forall|i: int, j: int|
        0 <= i < j < texts.len() ==> !spec_eq_ignore_ascii_case(
            #[trigger] texts[i],
            #[trigger] texts[j],
        )
}

/// The place of the first text that is `text` but for case.
pub open spec fn spec_position_ignoring_case(texts: Seq<Seq<char>>, text: Seq<char>) -> Option<
    int,
>
    decreases texts.len(),
{
    if texts.len() == 0 {
        None
    } else {
        match spec_position_ignoring_case(texts.drop_last(), text) {
            Some(i) => Some(i),
            None => if spec_eq_ignore_ascii_case(texts.last(), text) {
                Some(texts.len() - 1)
            } else {
                None
            },
        }
    }
}

/// What a parameter of the given type may hold.
pub open spec fn valid_values(
    parameter_type: ParameterType,
    min: i64,
    max: i64,
    default: i64,
    value_strings: Seq<Seq<char>>,
) -> Result<(), ParameterError> {
    let whole = parameter_type != ParameterType::Float;
    if min > max {
        Err(ParameterError::InvalidRange)
    } else if parameter_type == ParameterType::Boolean && (min != 0 || max != MICRO) {
        Err(ParameterError::InvalidRange)
    } else if parameter_type == ParameterType::Enum && (value_strings.len() == 0
        || !distinct_ignoring_case(value_strings)) {
        Err(ParameterError::InvalidValues)
    } else if parameter_type == ParameterType::Enum && (min != 0 || max != (value_strings.len()
        - 1) * MICRO) {
        Err(ParameterError::InvalidRange)
    } else if whole && (min as int % MICRO as int != 0 || max as int % MICRO as int != 0) {
        Err(ParameterError::InvalidRange)
    } else if default < min || default > max {
        Err(ParameterError::OutOfRange)
    } else if whole && default as int % MICRO as int != 0 {
        Err(ParameterError::NotWhole)
    } else {
        Ok(())
    }
}

impl View for Parameter {
    type V = ParameterView;

    closed spec fn view(&self) -> ParameterView {
        ParameterView {
            id: self.id@,
            name: self.name@,
            description: self.description@,
            parameter_type: self.parameter_type,
            min: self.min,
            max: self.max,
            default: self.default,
            value: self.value,
            value_strings: Seq::new(self.value_strings@.len(), |i: int| self.value_strings@[i]@),
        }
    }
}

impl ParameterView {
    /// The type allows the range, the default and the display strings, and
    /// the value lies in the range.
    pub open spec fn wf(self) -> bool {
        &&& valid_values(self.parameter_type, self.min, self.max, self.default, self.value_strings)
            is Ok
        &&& self.min <= self.value <= self.max
    }

    /// What setting the value to `value` gives.
    pub open spec fn set_value(self, value: i64) -> Result<ParameterView, ParameterError> {
        if value < self.min || value > self.max {
            Err(ParameterError::OutOfRange)
        } else {
            Ok(ParameterView { value, ..self })
        }
    }
}

/// True when no two of the texts are the same but for case.
fn are_distinct_ignoring_case(texts: &Vec<String>) -> (r: bool)
    ensures
        r == distinct_ignoring_case(Seq::new(texts@.len(), |i: int| texts@[i]@)),
{
    let ghost views = Seq::new(texts@.len(), |i: int| texts@[i]@);
    let mut j: usize = 0;
    while j < texts.len()
        invariant
            j <= texts@.len(),
            views == Seq::new(texts@.len(), |i: int| texts@[i]@),
            forall|a: int, b: int|
                0 <= a < b < j ==> !spec_eq_ignore_ascii_case(
                    #[trigger] views[a],
                    #[trigger] views[b],
                ),
        decreases texts@.len() - j,
    {
        let mut i: usize = 0;
        while i < j
            invariant
                i <= j < texts@.len(),
                views == Seq::new(texts@.len(), |i: int| texts@[i]@),
                forall|a: int|
                    0 <= a < i ==> !spec_eq_ignore_ascii_case(#[trigger] views[a], views[j as int]),
            decreases j - i,
        {
            if eq_ignore_ascii_case(texts[i].as_str(), texts[j].as_str()) {
                assert(spec_eq_ignore_ascii_case(views[i as int], views[j as int]));
                return false;
            }
            i += 1;
        }
        j += 1;
    }
    true
}

impl Parameter {
    /// A parameter of the given type. Its value is its default.
    ///
    /// ### Errors
    /// Returns what [`valid_values`] finds wrong.
    pub fn new(
        id: &str,
        name: &str,
        description: &str,
        parameter_type: ParameterType,
        min: i64,
        max: i64,
        default: i64,
        value_strings: Vec<String>,
    ) -> (r: Result<Parameter, ParameterError>)
        ensures
            match valid_values(
                parameter_type,
                min,
                max,
                default,
                Seq::new(value_strings@.len(), |i: int| value_strings@[i]@),
            ) {
                Ok(_) => r matches Ok(p) && p@ == (ParameterView {
                    id: id@,
                    name: name@,
                    description: description@,
                    parameter_type,
                    min,
                    max,
                    default,
                    value: default,
                    value_strings: Seq::new(value_strings@.len(), |i: int| value_strings@[i]@),
                }) && p@.wf(),
                Err(e) => r matches Err(f) && f == e,
            },
    {
        let is_boolean = match parameter_type {
            ParameterType::Boolean => true,
            _ => false,
        };
        let is_enum = match parameter_type {
            ParameterType::Enum => true,
            _ => false,
        };
        let whole = match parameter_type {
            ParameterType::Float => false,
            _ => true,
        };
        if min > max {
            return Err(ParameterError::InvalidRange);
        }
        if is_boolean && (min != 0 || max != 1_000_000) {
            return Err(ParameterError::InvalidRange);
        }
        if is_enum {
            if value_strings.len() == 0 || !are_distinct_ignoring_case(&value_strings) {
                return Err(ParameterError::InvalidValues);
            }
            let last: u128 = (value_strings.len() - 1) as u128 * 1_000_000;
            if min != 0 || max as i128 != last as i128 {
                return Err(ParameterError::InvalidRange);
            }
        }
        if whole && (min % 1_000_000 != 0 || max % 1_000_000 != 0) {
            return Err(ParameterError::InvalidRange);
        }
        if default < min || default > max {
            return Err(ParameterError::OutOfRange);
        }
        if whole && default % 1_000_000 != 0 {
            return Err(ParameterError::NotWhole);
        }
        Ok(
            Parameter {
                id: id.to_owned(),
                name: name.to_owned(),
                description: description.to_owned(),
                parameter_type,
                min,
                max,
                default,
                value: default,
                value_strings,
            },
        )
    }

    /// A copy of the parameter.
    pub fn duplicate(&self) -> (r: Parameter)
        ensures
            r@ == self@,
    {
        let r = Parameter {
            id: self.id.clone(),
            name: self.name.clone(),
            description: self.description.clone(),
            parameter_type: self.parameter_type,
            min: self.min,
            max: self.max,
            default: self.default,
            value: self.value,
            value_strings: clone_texts(&self.value_strings),
        };
        assert(r@.value_strings =~= self@.value_strings);
        r
    }

    /// The id by which scripts and hosts refer to the parameter.
    pub fn id(&self) -> (r: &str)
        ensures
            r@ == self@.id,
    {
        self.id.as_str()
    }

    /// The display name.
    pub fn name(&self) -> (r: &str)
        ensures
            r@ == self@.name,
    {
        self.name.as_str()
    }

    /// A longer description for the user.
    pub fn description(&self) -> (r: &str)
        ensures
            r@ == self@.description,
    {
        self.description.as_str()
    }

    pub fn parameter_type(&self) -> (r: ParameterType)
        ensures
            r == self@.parameter_type,
    {
        self.parameter_type
    }

    /// Lowest and highest value.
    pub fn range(&self) -> (r: (i64, i64))
        ensures
            r == (self@.min, self@.max),
    {
        (self.min, self.max)
    }

    pub fn default(&self) -> (r: i64)
        ensures
            r == self@.default,
    {
        self.default
    }

    pub fn value(&self) -> (r: i64)
        ensures
            r == self@.value,
    {
        self.value
    }

    /// Display strings of the values of an enum parameter.
    pub fn value_strings(&self) -> (r: &Vec<String>)
        ensures
            r@.len() == self@.value_strings.len(),
            forall|i: int| 0 <= i < r@.len() ==> (#[trigger] r@[i])@ == self@.value_strings[i],
    {
        &self.value_strings
    }

    /// Sets the value.
    ///
    /// ### Errors
    /// Returns an error, and leaves the value as it is, when the value lies
    /// outside the range.
    pub fn set_value(&mut self, value: i64) -> (r: Result<(), ParameterError>)
        ensures
            match old(self)@.set_value(value) {
                Ok(p) => r is Ok && final(self)@ == p,
                Err(e) => r == Err::<(), ParameterError>(e) && final(self)@ == old(self)@,
            },
            old(self)@.wf() ==> final(self)@.wf(),
    {
        if value < self.min || value > self.max {
            return Err(ParameterError::OutOfRange);
        }
        self.value = value;
        Ok(())
    }

    /// Sets the value of an enum parameter to the one whose display string is
    /// `text`, case aside.
    ///
    /// ### Errors
    /// Returns an error, and leaves the value as it is, when no display string
    /// matches.
    pub fn set_value_string(&mut self, text: &str) -> (r: Result<(), ParameterError>)
        requires
            old(self)@.wf(),
            old(self)@.parameter_type == ParameterType::Enum,
        ensures
            final(self)@.wf(),
            match spec_position_ignoring_case(old(self)@.value_strings, text@) {
                Some(i) => r is Ok && final(self)@ == (ParameterView {
                    value: (i * MICRO) as i64,
                    ..old(self)@
                }),
                None => r == Err::<(), ParameterError>(ParameterError::OutOfRange)
                    && final(self)@ == old(self)@,
            },
    {
        let ghost views = self@.value_strings;
        let mut i: usize = 0;
        while i < self.value_strings.len()
            invariant
                *self == *old(self),
                self@.wf(),
                self@.parameter_type == ParameterType::Enum,
                views == self@.value_strings,
                i <= self.value_strings@.len(),
                spec_position_ignoring_case(views.take(i as int), text@) is None,
            decreases self.value_strings@.len() - i,
        {
            proof {
                assert(views.take(i as int + 1).drop_last() =~= views.take(i as int));
                assert(views.take(i as int + 1).last() == views[i as int]);
                lemma_position_prefix(views, i as int + 1, text@);
            }
            if eq_ignore_ascii_case(self.value_strings[i].as_str(), text) {
                assert((i as int) * (MICRO as int) <= self.max) by (nonlinear_arith)
                    requires
                        i <= views.len() - 1,
                        self.max == (views.len() - 1) * MICRO,
                ;
                self.value = (i as u128 * 1_000_000) as i64;
                return Ok(());
            }
            i += 1;
        }
        assert(views.take(views.len() as int) =~= views);
        Err(ParameterError::OutOfRange)
    }
}

/// What is found in the first `n` texts is found in all of them.
proof fn lemma_position_prefix(texts: Seq<Seq<char>>, n: int, text: Seq<char>)
    requires
        0 <= n <= texts.len(),
    ensures
        spec_position_ignoring_case(texts.take(n), text) is Some ==> spec_position_ignoring_case(
            texts,
            text,
        ) == spec_position_ignoring_case(texts.take(n), text),
    decreases texts.len() - n,
{
    if n < texts.len() {
        lemma_position_prefix(texts, n + 1, text);
        assert(texts.take(n + 1).drop_last() =~= texts.take(n));
    } else {
        assert(texts.take(n) =~= texts);
    }
}

/// The place of the first parameter with the given id.
pub open spec fn spec_find_parameter(parameters: Seq<ParameterView>, id: Seq<char>) -> Option<int>
    decreases parameters.len(),
{
    if parameters.len() == 0 {
        None
    } else {
        match spec_find_parameter(parameters.drop_last(), id) {
            Some(i) => Some(i),
            None => if parameters.last().id == id {
                Some(parameters.len() - 1)
            } else {
                None
            },
        }
    }
}

/// The values of a set of parameters.
pub open spec fn parameter_views(parameters: Seq<Parameter>) -> Seq<ParameterView> {
    Seq::new(parameters.len(), |i: int| parameters[i]@)
}

/// What is found among the first `n` parameters is found among all of them,
/// at a place which holds the id.
pub proof fn lemma_find_parameter(parameters: Seq<ParameterView>, n: int, id: Seq<char>)
    requires
        0 <= n <= parameters.len(),
    ensures
        spec_find_parameter(parameters.take(n), id) is Some ==> spec_find_parameter(parameters, id)
            == spec_find_parameter(parameters.take(n), id),
        spec_find_parameter(parameters, id) matches Some(i) ==> 0 <= i < parameters.len()
            && parameters[i].id == id,
    decreases parameters.len() - n, parameters.len(),
{
    if n < parameters.len() {
        lemma_find_parameter(parameters, n + 1, id);
        assert(parameters.take(n + 1).drop_last() =~= parameters.take(n));
    } else {
        assert(parameters.take(n) =~= parameters);
    }
    if parameters.len() > 0 {
        lemma_find_parameter(parameters.drop_last(), parameters.len() - 1, id);
    }
}

/// The place of the first parameter with the given id.
pub fn find_parameter(parameters: &Vec<Parameter>, id: &str) -> (r: Option<usize>)
    ensures
        match r {
            Some(i) => i < parameters@.len() && spec_find_parameter(
                parameter_views(parameters@),
                id@,
            ) == Some(i as int),
            None => spec_find_parameter(parameter_views(parameters@), id@) is None,
        },
{
    let ghost views = parameter_views(parameters@);
    let mut i: usize = 0;
    while i < parameters.len()
        invariant
            i <= parameters@.len(),
            views == parameter_views(parameters@),
            spec_find_parameter(views.take(i as int), id@) is None,
        decreases parameters@.len() - i,
    {
        proof {
            assert(views.take(i as int + 1).drop_last() =~= views.take(i as int));
            assert(views.take(i as int + 1).last() == views[i as int]);
            lemma_find_parameter(views, i as int + 1, id@);
        }
        if same_text(parameters[i].id(), id) {
            proof {
                lemma_find_parameter(views, views.len() as int, id@);
            }
            return Some(i);
        }
        i += 1;
    }
    assert(views.take(views.len() as int) =~= views);
    None
}

/// A copy of a set of parameters.
pub fn clone_parameters(parameters: &Vec<Parameter>) -> (r: Vec<Parameter>)
    ensures
        parameter_views(r@) == parameter_views(parameters@),
{
    let mut copy: Vec<Parameter> = Vec::with_capacity(parameters.len());
    let mut i: usize = 0;
    while i < parameters.len()
        invariant
            i <= parameters@.len(),
            copy@.len() == i,
            forall|k: int| 0 <= k < i ==> (#[trigger] copy@[k])@ == parameters@[k]@,
        decreases parameters@.len() - i,
    {
        copy.push(parameters[i].duplicate());
        i += 1;
    }
    assert(parameter_views(copy@) =~= parameter_views(parameters@));
    copy
}

/// Sets the value of the first parameter with the given id.
///
/// ### Errors
/// Returns an error, and changes nothing, when no parameter has the id or
/// when the value lies outside the range of the parameter.
pub fn set_parameter_value(parameters: &mut Vec<Parameter>, id: &str, value: i64) -> (r: Result<
    (),
    ParameterError,
>)
    ensures
        match spec_find_parameter(parameter_views(old(parameters)@), id@) {
            None => r == Err::<(), ParameterError>(ParameterError::UnknownId) && parameter_views(
                final(parameters)@,
            ) == parameter_views(old(parameters)@),
            Some(i) => match old(parameters)@[i]@.set_value(value) {
                Err(e) => r == Err::<(), ParameterError>(e) && parameter_views(final(parameters)@)
                    == parameter_views(old(parameters)@),
                Ok(p) => r is Ok && parameter_views(final(parameters)@) == parameter_views(
                    old(parameters)@,
                ).update(i, p),
            },
        },
{
    match find_parameter(parameters, id) {
        None => Err(ParameterError::UnknownId),
        Some(i) => {
            let r = parameters[i].set_value(value);
            proof {
                if r is Ok {
                    assert(parameter_views(parameters@) =~= parameter_views(
                        old(parameters)@,
                    ).update(i as int, parameters@[i as int]@));
                } else {
                    assert(parameter_views(parameters@) =~= parameter_views(old(parameters)@));
                }
            }
            r
        },
    }
}

} // verus!
