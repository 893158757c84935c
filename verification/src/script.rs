//! The boundary to the script engine: handles of script functions, the values
//! that scripts return, script errors and the queue that collects them.

use vstd::prelude::*;
use vstd::string::StringExecFns;
use crate::event::{clone_notes, NoteEvent, ParameterChangeEvent};

verus! {

/// Handle of a function of the script engine.
#[derive(Copy, Clone, Debug, PartialEq, Eq, Hash, Structural)]
pub struct FunctionHandle(pub usize);

/// Handle of the environment that a function of the script engine closes
/// over.
#[derive(Copy, Clone, Debug, PartialEq, Eq, Hash, Structural)]
pub struct EnvironmentHandle(pub usize);

/// A script failed to evaluate, or broke the contract of a generator.
#[derive(Clone, Debug, PartialEq, Eq)]
pub struct ScriptError {
    pub message: String,
}

impl View for ScriptError {
    type V = Seq<char>;

    open spec fn view(&self) -> Seq<char> {
        self.message@
    }
}

impl ScriptError {
    /// An error with the given message.
    pub fn runtime(message: String) -> (r: ScriptError)
        ensures
            r@ == message@,
    {
        ScriptError { message }
    }

    /// A copy of the error.
    pub fn duplicate(&self) -> (r: ScriptError)
        ensures
            r@ == self@,
    {
        ScriptError { message: self.message.clone() }
    }
}

/// A value that a script function returned.
#[derive(Clone, Debug, PartialEq, Eq)]
pub enum ScriptValue {
    Nil,
    Boolean(bool),
    /// A number in millionths.
    Number(i64),
    Text(String),
    Function(FunctionHandle),
    /// Note values, one slot per voice.
    Notes(Vec<Option<NoteEvent>>),
    ParameterChange(ParameterChangeEvent),
}

/// The value of a [`ScriptValue`].
pub enum ScriptValueView {
    Nil,
    Boolean(bool),
    Number(i64),
    Text(Seq<char>),
    Function(FunctionHandle),
    Notes(Seq<Option<NoteEvent>>),
    ParameterChange(ParameterChangeEvent),
}

impl View for ScriptValue {
    type V = ScriptValueView;

    open spec fn view(&self) -> ScriptValueView {
        match self {
            ScriptValue::Nil => ScriptValueView::Nil,
            ScriptValue::Boolean(b) => ScriptValueView::Boolean(*b),
            ScriptValue::Number(n) => ScriptValueView::Number(*n),
            ScriptValue::Text(t) => ScriptValueView::Text(t@),
            ScriptValue::Function(f) => ScriptValueView::Function(*f),
            ScriptValue::Notes(notes) => ScriptValueView::Notes(notes@),
            ScriptValue::ParameterChange(change) => ScriptValueView::ParameterChange(*change),
        }
    }
}

impl ScriptValueView {
    /// The function that the value is, if it is one.
    pub open spec fn as_function(self) -> Option<FunctionHandle> {
        match self {
            ScriptValueView::Function(f) => Some(f),
            _ => None,
        }
    }

    /// The name of the kind of value, as scripts know it.
    pub open spec fn kind_name(self) -> Seq<char> {
        match self {
            ScriptValueView::Nil => "nil"@,
            ScriptValueView::Boolean(_) => "boolean"@,
            ScriptValueView::Number(_) => "number"@,
            ScriptValueView::Text(_) => "string"@,
            ScriptValueView::Function(_) => "function"@,
            ScriptValueView::Notes(_) => "table"@,
            ScriptValueView::ParameterChange(_) => "table"@,
        }
    }
}

impl ScriptValue {
    /// The function that the value is, if it can be invoked.
    pub fn as_function(&self) -> (r: Option<FunctionHandle>)
        ensures
            r == self@.as_function(),
    {
        match self {
            ScriptValue::Function(f) => Some(*f),
            _ => None,
        }
    }

    /// The name of the kind of value, as scripts know it.
    pub fn kind_name(&self) -> (r: &'static str)
        ensures
            r@ == self@.kind_name(),
    {
        match self {
            ScriptValue::Nil => "nil",
            ScriptValue::Boolean(_) => "boolean",
            ScriptValue::Number(_) => "number",
            ScriptValue::Text(_) => "string",
            ScriptValue::Function(_) => "function",
            ScriptValue::Notes(_) => "table",
            ScriptValue::ParameterChange(_) => "table",
        }
    }

    /// A copy of the value.
    pub fn duplicate(&self) -> (r: ScriptValue)
        ensures
            r@ == self@,
    {
        match self {
            ScriptValue::Nil => ScriptValue::Nil,
            ScriptValue::Boolean(b) => ScriptValue::Boolean(*b),
            ScriptValue::Number(n) => ScriptValue::Number(*n),
            ScriptValue::Text(t) => ScriptValue::Text(t.clone()),
            ScriptValue::Function(f) => ScriptValue::Function(*f),
            ScriptValue::Notes(notes) => ScriptValue::Notes(clone_notes(notes)),
            ScriptValue::ParameterChange(change) => ScriptValue::ParameterChange(*change),
        }
    }
}

/// An error of a callback, with the name of the function that failed.
#[derive(Clone, Debug, PartialEq, Eq)]
pub struct CallbackError {
    pub name: String,
    pub error: ScriptError,
}

impl View for CallbackError {
    type V = (Seq<char>, Seq<char>);

    open spec fn view(&self) -> (Seq<char>, Seq<char>) {
        (self.name@, self.error@)
    }
}

/// Collects the errors of the callbacks that ran in one scheduling pass, so
/// that the owner of the pass can look at them once, at its end.
#[derive(Debug)]
pub struct CallbackErrors {
    errors: Vec<CallbackError>,
}

impl View for CallbackErrors {
    type V = Seq<(Seq<char>, Seq<char>)>;

    closed spec fn view(&self) -> Seq<(Seq<char>, Seq<char>)> {
        Seq::new(self.errors@.len(), |i: int| self.errors@[i]@)
    }
}

impl CallbackErrors {
    /// An empty queue.
    pub fn new() -> (r: CallbackErrors)
        ensures
            r@ == Seq::<(Seq<char>, Seq<char>)>::empty(),
    {
        let r = CallbackErrors { errors: Vec::new() };
        assert(r@ =~= Seq::<(Seq<char>, Seq<char>)>::empty());
        r
    }
}

/// The names of the functions whose errors are queued, in the order of the
/// errors.
pub fn lua_callback_error_names(errors: &CallbackErrors) -> (r: Vec<String>)
    ensures
        r@.len() == errors@.len(),
        forall|i: int| 0 <= i < r@.len() ==> (#[trigger] r@[i])@ == errors@[i].0,
{
    let mut names: Vec<String> = Vec::with_capacity(errors.errors.len());
    let mut i: usize = 0;
    while i < errors.errors.len()
        invariant
            i <= errors.errors@.len(),
            names@.len() == i,
            forall|k: int| 0 <= k < i ==> (#[trigger] names@[k])@ == errors@[k].0,
        decreases errors.errors@.len() - i,
    {
        names.push(errors.errors[i].name.clone());
        i += 1;
    }
    names
}

/// Returns some error if there are any callback errors, with the !first! error that happened.
/// Use `lua_callback_errors` to get fetch all errors since the errors got cleared.
pub fn has_lua_callback_errors(errors: &CallbackErrors) -> (r: Option<ScriptError>)
    ensures
        r is Some == (errors@.len() > 0),
        r matches Some(e) ==> e@ == errors@[0].1,
{
    if errors.errors.len() > 0 {
        Some(errors.errors[0].error.duplicate())
    } else {
        None
    }
}

/// Returns all callback errors, if any. Check with `has_lua_callback_errors()` to avoid
/// possible vec clone overhead, if that's relevant.
pub fn lua_callback_errors(errors: &CallbackErrors) -> (r: Vec<ScriptError>)
    ensures
        r@.len() == errors@.len(),
        forall|i: int| 0 <= i < r@.len() ==> (#[trigger] r@[i])@ == errors@[i].1,
{
    let mut all: Vec<ScriptError> = Vec::with_capacity(errors.errors.len());
    let mut i: usize = 0;
    while i < errors.errors.len()
        invariant
            i <= errors.errors@.len(),
            all@.len() == i,
            forall|k: int| 0 <= k < i ==> (#[trigger] all@[k])@ == errors@[k].1,
        decreases errors.errors@.len() - i,
    {
        all.push(errors.errors[i].error.duplicate());
        i += 1;
    }
    all
}

/// Clears all callback errors.
pub fn clear_lua_callback_errors(errors: &mut CallbackErrors)
    ensures
        final(errors)@ == Seq::<(Seq<char>, Seq<char>)>::empty(),
{
    errors.errors.clear();
    assert(errors@ =~= Seq::<(Seq<char>, Seq<char>)>::empty());
}

/// Add/signal a new callback error of the function with the given name.
pub fn add_lua_callback_error(errors: &mut CallbackErrors, name: &str, err: &ScriptError)
    ensures
        final(errors)@ == old(errors)@.push((name@, err@)),
{
    errors.errors.push(CallbackError { name: name.to_owned(), error: err.duplicate() });
    assert(errors@ =~= old(errors)@.push((name@, err@)));
}

/// Retains the message of the most recent script error, so that a host can
/// show it and can tell whether it has changed.
#[derive(Debug)]
pub struct LastScriptError {
    message: Option<String>,
}

impl View for LastScriptError {
    type V = Option<Seq<char>>;

    closed spec fn view(&self) -> Option<Seq<char>> {
        match self.message {
            Some(message) => Some(message@),
            None => None,
        }
    }
}

impl LastScriptError {
    /// No error so far.
    pub fn new() -> (r: LastScriptError)
        ensures
            r@ is None,
    {
        LastScriptError { message: None }
    }

    /// The message of the most recent error, if the script has not evaluated
    /// well since.
    pub fn message(&self) -> (r: Option<&str>)
        ensures
            r is Some == self@ is Some,
            r matches Some(message) ==> self@ == Some(message@),
    {
        match &self.message {
            Some(message) => Some(message.as_str()),
            None => None,
        }
    }

    /// Retains the message of an error. Returns true when the message differs
    /// from the one that was retained before, or when none was.
    pub fn set(&mut self, error: &ScriptError) -> (r: bool)
        ensures
            final(self)@ == Some(error@),
            r == (old(self)@ != Some(error@)),
    {
        let changed = match &self.message {
            Some(message) => !(*message == error.message),
            None => true,
        };
        self.message = Some(error.message.clone());
        changed
    }

    /// Forgets the error: the script has evaluated well. Returns true when
    /// there was an error to forget.
    pub fn clear(&mut self) -> (r: bool)
        ensures
            final(self)@ is None,
            r == old(self)@ is Some,
    {
        let changed = self.message.is_some();
        self.message = None;
        changed
    }
}

/// True when `after` is the queue `before` with the given error added under
/// some name, or the same queue if there is no error.
pub open spec fn queued(
    before: Seq<(Seq<char>, Seq<char>)>,
    after: Seq<(Seq<char>, Seq<char>)>,
    error: Option<Seq<char>>,
) -> bool {
    match error {
        Some(message) => after.len() == before.len() + 1 && after.drop_last() == before
            && after.last().1 == message,
        None => after == before,
    }
}

/// The text `a`, followed by `b` and then by `c`.
pub fn concat3(a: &str, b: &str, c: &str) -> (r: String)
    ensures
        r@ == a@ + b@ + c@,
{
    let mut text = a.to_owned();
    text.append(b);
    text.append(c);
    text
}

} // verus!
